//! The route map: a grid of tiles read from text, one character per tile.
use vstd::prelude::*;
use crate::text::{lemma_pieces_nonempty, pieces, chars_of, is_unicode_whitespace, is_whitespace_char, owned, trim, trim_end_index, trim_start};

verus! {

#[derive(Clone, Copy, Debug, PartialEq, Eq, Structural)]
pub enum Tile {
    Grass,
    Path,
    Sand,
    Wall,
    Water,
}

/// The tile a map character stands for; unknown characters are grass.
pub open spec fn tile_of_char(c: char) -> Tile {
    if c == 'g' || c == 'G' {
        Tile::Grass
    } else if c == 'r' || c == 'R' || c == 'p' || c == 'P' {
        Tile::Path
    } else if c == 's' || c == 'S' {
        Tile::Sand
    } else if c == 'w' || c == 'W' {
        Tile::Water
    } else if c == '#' || c == 'x' || c == 'X' {
        Tile::Wall
    } else {
        Tile::Grass
    }
}

/// The rows of a map text: its lines trimmed, the empty ones left out.
pub open spec fn kept_rows(lines: Seq<Seq<char>>) -> Seq<Seq<char>>
    decreases lines.len(),
{
    if lines.len() == 0 {
        seq![]
    } else if trim(lines.last()).len() > 0 {
        kept_rows(lines.drop_last()).push(trim(lines.last()))
    } else {
        kept_rows(lines.drop_last())
    }
}

pub open spec fn map_rows(text: Seq<char>) -> Seq<Seq<char>> {
    kept_rows(pieces(text, '\n'))
}

/// The length of the longest row.
pub open spec fn max_len(rows: Seq<Seq<char>>) -> nat
    decreases rows.len(),
{
    if rows.len() == 0 {
        0
    } else if rows.last().len() > max_len(rows.drop_last()) {
        rows.last().len()
    } else {
        max_len(rows.drop_last())
    }
}

/// The tiles of one row, padded with grass to `w`.
pub open spec fn row_tiles(row: Seq<char>, w: nat) -> Seq<Tile> {
    Seq::new(w, |x: int| tile_of_char(if x < row.len() { row[x] } else { 'g' }))
}

/// The tiles of all rows, row after row.
pub open spec fn grid_tiles(rows: Seq<Seq<char>>, w: nat) -> Seq<Tile>
    decreases rows.len(),
{
    if rows.len() == 0 {
        seq![]
    } else {
        grid_tiles(rows.drop_last(), w) + row_tiles(rows.last(), w)
    }
}

/// Position of a cell in the row-major tile list.
pub open spec fn cell_index(width: int, x: int, y: int) -> int {
    y * width + x
}

#[derive(Debug)]
pub struct MapState {
    pub name: String,
    pub width: u16,
    pub height: u16,
    pub tiles: Vec<Tile>,
}

impl Clone for MapState {
    /// A copy with the same name, size and tiles.
    fn clone(&self) -> (c: Self)
        ensures
            c.name == self.name && c.width == self.width && c.height == self.height && c.tiles@ == self.tiles@,
    {
        let mut tiles: Vec<Tile> = Vec::new();
        let mut i: usize = 0;
        while i < self.tiles.len()
            invariant
                i <= self.tiles@.len(),
                tiles@ == self.tiles@.take(i as int),
            decreases self.tiles.len() - i,
        {
            tiles.push(self.tiles[i]);
            assert(tiles@ =~= self.tiles@.take(i + 1));
            i = i + 1;
        }
        assert(self.tiles@.take(self.tiles@.len() as int) =~= self.tiles@);
        MapState { name: self.name.clone(), width: self.width, height: self.height, tiles }
    }
}

/// The route the game starts on.
pub const LAKESIDE_ROUTE: &'static str = "
##################################################
#gggggggggggggggggggggggggggggggggggggggggggggggg#
#ggggggggggggssssssssssssgggggggggggggggggggggggg#
#ggggggggggsswwwwwwwwwwwwssgggggggggggggggggggggg#
#gggggggggsswwwwwwwwwwwwwwssggggggggggggggggggggg#
#ggggggggsswwwwwwwwwwwwwwwwssgggggggggggggggggggg#
#gggggggswwwwwwwwwwwwwwwwwwwsgggggggggggggggggggg#
#gggggggsswwwwwwwwwwwwwwwwwssgggggggggggggggggggg#
#ggggggggsswwwwwwwwwwwwwwwssggggggggggggggggggggg#
#gggggggggsswwwwwwwwwwwwwssgggggggggggggggggggggg#
#ggggggggggssssssssssssssssggggggggggggggggggggg#
#gggggggggggggggggggggggggggggggggggggggggggggggg#
#rrrrrrrrrrrrrrrrrrrrrrrrrrrrrrrrrrrrrrrrrrrrrrrr#
#gggggggggggggggggggggggggggggggggggggggggggggggg#
#gggggggggggggggggggggggggggggggggggggggggggggggg#
#ggggggggg###ggggggggggggggggggggggg###gggggggggg#
#ggggggggg#r#ggggggggggggggggggggggg#r#gggggggggg#
#ggggggggg#r#ggggggggggggggggggggggg#r#gggggggggg#
#ggggggggg#r#ggggggggggggggggggggggg#r#gggggggggg#
#ggggggggg#rrrrrrrrrrrrrrrrrrrrrrrrrrr#gggggggggg#
#ggggggggg#######################r####gggggggggg#
#ggggggggggggggggggggggggggggggggrgggggggggggggg#
#ggggggggggggggggggggggggggggggggrgggggggggggggg#
##################################################
";

impl MapState {
    /// Whether this map is what `from_str` makes of `name` and `text`: the
    /// rows of the text, padded with grass to the longest, row after row.
    pub open spec fn parsed_from(self, name: Seq<char>, text: Seq<char>) -> bool {
        let rows = map_rows(text);
        let w = max_len(rows);
        &&& self.name@ == name
        &&& self.width == w as u16
        &&& self.height == rows.len() as u16
        &&& self.tiles@ == grid_tiles(rows, w)
    }

    /// The tile at `(x, y)`; off the map, or past the tile list, a wall.
    pub open spec fn tile_at(self, x: int, y: int) -> Tile {
        if x < 0 || y < 0 || x >= self.width || y >= self.height {
            Tile::Wall
        } else if cell_index(self.width as int, x, y) < self.tiles@.len() {
            self.tiles@[cell_index(self.width as int, x, y)]
        } else {
            Tile::Wall
        }
    }

    pub open spec fn walkable_at(self, x: int, y: int) -> bool {
        !(self.tile_at(x, y) is Wall || self.tile_at(x, y) is Water)
    }

    /// The default route.
    pub fn new() -> (m: Self)
        ensures
            m.parsed_from("LAKESIDE ROUTE"@, LAKESIDE_ROUTE@),
    {
        Self::from_str("LAKESIDE ROUTE", LAKESIDE_ROUTE)
    }

    /// Reads a map from text: each non-blank line, trimmed, is a row, and
    /// rows shorter than the longest are padded with grass.
    pub fn from_str(name: &str, map_str: &str) -> (m: Self)
        ensures
            m.parsed_from(name@, map_str@),
    {
        let chars = chars_of(map_str);
        let rows = text_rows(&chars);
        let mut width: usize = 0;
        let mut k: usize = 0;
        while k < rows.len()
            invariant
                k <= rows@.len(),
                width == max_len(row_views(rows@).take(k as int)),
            decreases rows.len() - k,
        {
            assert(row_views(rows@).take(k + 1).drop_last() =~= row_views(rows@).take(k as int));
            if rows[k].len() > width {
                width = rows[k].len();
            }
            k = k + 1;
        }
        assert(row_views(rows@).take(rows@.len() as int) =~= row_views(rows@));
        let ghost rv = row_views(rows@);
        let ghost w = width as nat;
        let mut tiles: Vec<Tile> = Vec::new();
        let mut y: usize = 0;
        while y < rows.len()
            invariant
                y <= rows@.len(),
                rv == row_views(rows@),
                w == width,
                tiles@ == grid_tiles(rv.take(y as int), w),
            decreases rows.len() - y,
        {
            let row = &rows[y];
            assert(rv[y as int] == row@);
            let mut x: usize = 0;
            while x < width
                invariant
                    x <= width,
                    w == width,
                    y < rows@.len(),
                    rv == row_views(rows@),
                    rv[y as int] == row@,
                    *row == rows@[y as int],
                    tiles@ == grid_tiles(rv.take(y as int), w) + row_tiles(row@, w).take(x as int),
                decreases width - x,
            {
                let ch = if x < row.len() { row[x] } else { 'g' };
                tiles.push(char_to_tile(ch));
                assert(grid_tiles(rv.take(y as int), w) + row_tiles(row@, w).take(x + 1) =~= (
                grid_tiles(rv.take(y as int), w) + row_tiles(row@, w).take(x as int)).push(row_tiles(row@, w)[x as int]));
                x = x + 1;
            }
            assert(rv.take(y + 1).drop_last() =~= rv.take(y as int));
            assert(row_tiles(row@, w).take(width as int) =~= row_tiles(row@, w));
            y = y + 1;
        }
        assert(rv.take(rows@.len() as int) =~= rv);
        MapState { name: owned(name), width: width as u16, height: rows.len() as u16, tiles }
    }

    /// Whether `p` is where a player starts: the first path tile in reading
    /// order, or `(2, height / 2)` when the map has none.
    pub open spec fn start_of(self, p: (u16, u16)) -> bool {
        ||| {
            &&& p.0 < self.width && p.1 < self.height
            &&& self.tile_at(p.0 as int, p.1 as int) is Path
            &&& forall|x: int, y: int|
                0 <= x < self.width && 0 <= y < self.height && (y < p.1 || (y == p.1 && x < p.0))
                    ==> !(#[trigger] self.tile_at(x, y) is Path)
        }
        ||| {
            &&& p == (2u16, (self.height / 2) as u16)
            &&& forall|x: int, y: int|
                0 <= x < self.width && 0 <= y < self.height ==> !(#[trigger] self.tile_at(x, y) is Path)
        }
    }

    pub fn start_pos(&self) -> (p: (u16, u16))
        ensures
            self.start_of(p),
    {
        let mut y: u16 = 0;
        while y < self.height
            invariant
                y <= self.height,
                forall|x: int, yy: int|
                    0 <= x < self.width && 0 <= yy < y ==> !(#[trigger] self.tile_at(x, yy) is Path),
            decreases self.height - y,
        {
            let mut x: u16 = 0;
            while x < self.width
                invariant
                    x <= self.width,
                    y < self.height,
                    forall|xx: int, yy: int|
                        0 <= xx < self.width && 0 <= yy < y ==> !(#[trigger] self.tile_at(xx, yy) is Path),
                    forall|xx: int| 0 <= xx < x ==> !(#[trigger] self.tile_at(xx, y as int) is Path),
                decreases self.width - x,
            {
                if self.tile(x, y) == Tile::Path {
                    return (x, y);
                }
                x = x + 1;
            }
            y = y + 1;
        }
        (2, self.height / 2)
    }

    fn index(&self, x: u16, y: u16) -> (i: usize)
        ensures
            i == cell_index(self.width as int, x as int, y as int),
    {
        assert(y as int * self.width as int <= 65535 * 65535) by (nonlinear_arith)
            requires
                y <= 65535,
                self.width <= 65535,
        ;
        assert(0 <= y as int * self.width as int) by (nonlinear_arith)
            requires
                0 <= y,
                0 <= self.width,
        ;
        (y as usize) * (self.width as usize) + (x as usize)
    }

    pub fn tile(&self, x: u16, y: u16) -> (t: Tile)
        ensures
            t == self.tile_at(x as int, y as int),
    {
        if x >= self.width || y >= self.height {
            return Tile::Wall;
        }
        let idx = self.index(x, y);
        if idx < self.tiles.len() {
            self.tiles[idx]
        } else {
            Tile::Wall
        }
    }

    pub fn is_walkable(&self, x: u16, y: u16) -> (b: bool)
        ensures
            b == self.walkable_at(x as int, y as int),
    {
        let t = self.tile(x, y);
        !(t == Tile::Wall || t == Tile::Water)
    }

    pub fn is_grass(&self, x: u16, y: u16) -> (b: bool)
        ensures
            b == (self.tile_at(x as int, y as int) is Grass),
    {
        self.tile(x, y) == Tile::Grass
    }
}

/// Maps of the same size and tiles have the same tiles and start.
#[verifier::spinoff_prover]
pub proof fn lemma_same_map(a: MapState, b: MapState, p: (u16, u16))
    requires
        a.width == b.width,
        a.height == b.height,
        a.tiles@ == b.tiles@,
    ensures
        forall|x: int, y: int| #![trigger a.tile_at(x, y)] #![trigger b.tile_at(x, y)] a.tile_at(x, y) == b.tile_at(x, y),
        a.start_of(p) == b.start_of(p),
{
    assert forall|x: int, y: int| #![trigger a.tile_at(x, y)] #![trigger b.tile_at(x, y)] a.tile_at(x, y) == b.tile_at(x, y) by {}
    if a.start_of(p) {
        assert(b.start_of(p));
    }
    if b.start_of(p) {
        assert(a.start_of(p));
    }
}

fn char_to_tile(ch: char) -> (t: Tile)
    ensures
        t == tile_of_char(ch),
{
    if ch == 'g' || ch == 'G' {
        Tile::Grass
    } else if ch == 'r' || ch == 'R' || ch == 'p' || ch == 'P' {
        Tile::Path
    } else if ch == 's' || ch == 'S' {
        Tile::Sand
    } else if ch == 'w' || ch == 'W' {
        Tile::Water
    } else if ch == '#' || ch == 'x' || ch == 'X' {
        Tile::Wall
    } else {
        Tile::Grass
    }
}

/// The characters of several rows.
pub open spec fn row_views(v: Seq<Vec<char>>) -> Seq<Seq<char>> {
    v.map_values(|r: Vec<char>| r@)
}

/// `s[lo..hi]` trimmed, as bounds into `s`.
fn trimmed_bounds(s: &Vec<char>, lo: usize, hi: usize) -> (r: (usize, usize))
    requires
        lo <= hi <= s@.len(),
    ensures
        lo <= r.0 <= r.1 <= hi,
        trim(s@.subrange(lo as int, hi as int)) == s@.subrange(r.0 as int, r.1 as int),
{
    let mut a = lo;
    while a < hi && is_whitespace_char(s[a])
        invariant
            lo <= a <= hi <= s@.len(),
            trim_start(s@.subrange(lo as int, hi as int)) == trim_start(s@.subrange(a as int, hi as int)),
        decreases hi - a,
    {
        assert(s@.subrange(a as int, hi as int).drop_first() =~= s@.subrange(a + 1, hi as int));
        a = a + 1;
    }
    assert(a < hi ==> !is_unicode_whitespace(s@.subrange(a as int, hi as int)[0]));
    assert(trim_start(s@.subrange(a as int, hi as int)) == s@.subrange(a as int, hi as int));
    let b = trim_end_index(s, a, hi);
    (a, b)
}

/// The rows of a map text.
fn text_rows(s: &Vec<char>) -> (rows: Vec<Vec<char>>)
    ensures
        row_views(rows@) == map_rows(s@),
{
    let mut rows: Vec<Vec<char>> = Vec::new();
    let mut start: usize = 0;
    let mut i: usize = 0;
    proof {
        lemma_pieces_nonempty(s@.take(0), '\n');
    }
    while i < s.len()
        invariant
            start <= i <= s@.len(),
            pieces(s@.take(i as int), '\n').len() >= 1,
            pieces(s@.take(i as int), '\n').last() == s@.subrange(start as int, i as int),
            row_views(rows@) == kept_rows(pieces(s@.take(i as int), '\n').drop_last()),
        decreases s.len() - i,
    {
        let ghost prev = pieces(s@.take(i as int), '\n');
        assert(s@.take(i + 1).drop_last() =~= s@.take(i as int));
        assert(s@.take(i + 1).last() == s@[i as int]);
        if s[i] == '\n' {
            let (a, b) = trimmed_bounds(s, start, i);
            if a < b {
                let ghost before = rows@;
                rows.push(s_slice(s, a, b));
                assert(row_views(rows@) =~= row_views(before).push(s@.subrange(a as int, b as int)));
            }
            assert(pieces(s@.take(i + 1), '\n').drop_last() =~= prev);
            start = i + 1;
            assert(pieces(s@.take(i + 1), '\n').last() =~= s@.subrange(start as int, i + 1));
        } else {
            assert(pieces(s@.take(i + 1), '\n').drop_last() =~= prev.drop_last());
            assert(pieces(s@.take(i + 1), '\n').last() =~= s@.subrange(start as int, i + 1));
        }
        i = i + 1;
    }
    assert(s@.take(s@.len() as int) =~= s@);
    let (a, b) = trimmed_bounds(s, start, i);
    if a < b {
        let ghost before = rows@;
        rows.push(s_slice(s, a, b));
        assert(row_views(rows@) =~= row_views(before).push(s@.subrange(a as int, b as int)));
    }
    rows
}

/// The characters `s[lo..hi]`.
fn s_slice(s: &Vec<char>, lo: usize, hi: usize) -> (r: Vec<char>)
    requires
        lo <= hi <= s@.len(),
    ensures
        r@ == s@.subrange(lo as int, hi as int),
{
    let mut r: Vec<char> = Vec::new();
    let mut i = lo;
    while i < hi
        invariant
            lo <= i <= hi <= s@.len(),
            r@ == s@.subrange(lo as int, i as int),
        decreases hi - i,
    {
        r.push(s[i]);
        assert(s@.subrange(lo as int, i + 1) =~= s@.subrange(lo as int, i as int).push(s@[i as int]));
        i = i + 1;
    }
    r
}

} // verus!
