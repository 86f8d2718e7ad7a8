//! Sprites queued for drawing on top of the terminal grid.
use vstd::prelude::*;

verus! {

#[derive(Clone, Debug)]
pub struct SpriteEntry {
    pub id: u32,
    pub x: u16,
    pub y: u16,
    pub data: String,
}

#[derive(Clone, Debug)]
pub struct SpriteRegistry {
    pub sprites: Vec<SpriteEntry>,
}

impl SpriteRegistry {
    pub fn new() -> (r: SpriteRegistry)
        ensures
            r.sprites@.len() == 0,
    {
        SpriteRegistry { sprites: Vec::new() }
    }

    /// Queues a sprite at a cell.
    pub fn set(&mut self, id: u32, x: u16, y: u16, data: String)
        ensures
            final(self).sprites@ == old(self).sprites@.push(SpriteEntry { id, x, y, data }),
    {
        self.sprites.push(SpriteEntry { id, x, y, data });
    }

    /// Drops every queued sprite.
    pub fn clear(&mut self)
        ensures
            final(self).sprites@.len() == 0,
    {
        self.sprites.clear();
    }

    /// The queued sprites, in the order they were set.
    pub fn entries(&self) -> (v: Vec<SpriteEntry>)
        ensures
            v@.len() == self.sprites@.len(),
            forall|i: int|
                0 <= i < v@.len() ==> (#[trigger] v@[i]).id == self.sprites@[i].id && v@[i].x
                    == self.sprites@[i].x && v@[i].y == self.sprites@[i].y && v@[i].data@
                    == self.sprites@[i].data@,
    {
        let mut v: Vec<SpriteEntry> = Vec::new();
        let mut i: usize = 0;
        while i < self.sprites.len()
            invariant
                i <= self.sprites@.len(),
                v@.len() == i,
                forall|k: int|
                    0 <= k < i ==> (#[trigger] v@[k]).id == self.sprites@[k].id && v@[k].x
                        == self.sprites@[k].x && v@[k].y == self.sprites@[k].y && v@[k].data@
                        == self.sprites@[k].data@,
            decreases self.sprites.len() - i,
        {
            let e = &self.sprites[i];
            v.push(SpriteEntry { id: e.id, x: e.x, y: e.y, data: e.data.clone() });
            i = i + 1;
        }
        v
    }
}

} // verus!
