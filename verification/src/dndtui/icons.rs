//! Sprites used to mark the player, NPCs, encounters and items on the map.
use vstd::prelude::*;
use crate::dndtui::sprite::SpriteData;

verus! {

#[derive(Clone, Debug)]
pub struct IconSet {
    pub player: Option<SpriteData>,
    pub npc: Option<SpriteData>,
    pub encounter: Option<SpriteData>,
    pub item: Option<SpriteData>,
}

impl IconSet {
    /// A set with no icon loaded.
    pub fn empty() -> (s: IconSet)
        ensures
            s.player is None && s.npc is None && s.encounter is None && s.item is None,
    {
        IconSet { player: None, npc: None, encounter: None, item: None }
    }
}

} // verus!
