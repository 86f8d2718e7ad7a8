//! State of a Lightline run: the floor map, the lantern trail laid on it,
//! the player and the anchors placed by the generator.
use vstd::prelude::*;
use crate::text::{dec, owned, push_str, dec_u64};

verus! {

#[derive(Clone, Copy, Debug, PartialEq, Eq, Structural)]
pub enum GameMode {
    Boot,
    Exploration,
    Pause,
    GameOver,
}

#[derive(Clone, Copy, Debug, PartialEq, Eq, Structural)]
pub enum Direction {
    Up,
    Down,
    Left,
    Right,
}

#[derive(Clone, Copy, Debug, PartialEq, Eq, Structural)]
pub enum DangerMode {
    SoundHunter,
    ImminentCollapse,
}

#[derive(Clone, Copy, Debug, PartialEq, Eq, Hash, Structural)]
pub enum RuntimeAnchorKind {
    PlayerStart,
    Exit,
    Beacon,
    Relic,
    Switch,
}

#[derive(Clone, Debug)]
pub struct RuntimeAnchor {
    pub kind: RuntimeAnchorKind,
    pub x: u16,
    pub y: u16,
    pub tag: Option<String>,
}

#[derive(Clone, Copy, Debug, PartialEq, Eq, Structural)]
pub enum Tile {
    Floor,
    Wall,
    Water,
    Trail,
    Grass,
}

/// Tiles the player can stand on.
pub open spec fn walkable_tile(t: Tile) -> bool {
    t is Floor || t is Trail || t is Grass
}

/// Row-major cell index of `(x, y)` in a grid `width` wide.
pub open spec fn cell_index(width: int, x: int, y: int) -> int {
    y * width + x
}

/// Distinct cells of a grid have distinct, in-range row-major indices.
pub proof fn lemma_cell_index(width: int, height: int, x: int, y: int)
    requires
        0 <= x < width,
        0 <= y < height,
    ensures
        0 <= cell_index(width, x, y) < width * height,
        cell_index(width, x, y) <= width * height - 1,
{
    assert(0 <= y * width + x < width * height) by (nonlinear_arith)
        requires
            0 <= x < width,
            0 <= y < height,
    ;
}

/// Distinct cells of a grid have distinct row-major indices.
pub proof fn lemma_cell_index_injective(width: int, x1: int, y1: int, x2: int, y2: int)
    requires
        0 <= x1 < width,
        0 <= x2 < width,
        0 <= y1,
        0 <= y2,
        cell_index(width, x1, y1) == cell_index(width, x2, y2),
    ensures
        x1 == x2,
        y1 == y2,
{
    if y1 < y2 {
        assert(y1 * width + x1 < y2 * width + x2) by (nonlinear_arith)
            requires
                0 <= x1 < width,
                0 <= x2,
                y1 < y2,
        ;
    } else if y2 < y1 {
        assert(y2 * width + x2 < y1 * width + x1) by (nonlinear_arith)
            requires
                0 <= x2 < width,
                0 <= x1,
                y2 < y1,
        ;
    }
}

/// Index of an in-bounds cell of a grid whose sides fit in `u16`.
pub fn grid_index(width: u16, height: u16, x: u16, y: u16) -> (i: usize)
    requires
        x < width,
        y < height,
    ensures
        i == cell_index(width as int, x as int, y as int),
        i < width * height,
{
    proof {
        lemma_cell_index(width as int, height as int, x as int, y as int);
        assert(width * height <= 65535 * 65535) by (nonlinear_arith)
            requires
                width <= 65535,
                height <= 65535,
        ;
    }
    y as usize * width as usize + x as usize
}

/// Number of cells in a grid whose sides fit in `u16`.
pub fn grid_cells(width: u16, height: u16) -> (n: usize)
    ensures
        n == width * height,
{
    proof {
        assert(width * height <= 65535 * 65535) by (nonlinear_arith)
            requires
                width <= 65535,
                height <= 65535,
        ;
    }
    width as usize * height as usize
}

#[derive(Clone, Debug)]
pub struct MapState {
    pub name: String,
    pub width: u16,
    pub height: u16,
    pub tiles: Vec<Tile>,
}

impl MapState {
    /// The tile at `(x, y)`: cells outside the map, or past the end of the
    /// tile list, read as walls.
    pub open spec fn tile_at(self, x: int, y: int) -> Tile {
        if x < 0 || y < 0 || x >= self.width || y >= self.height {
            Tile::Wall
        } else if cell_index(self.width as int, x, y) < self.tiles@.len() {
            self.tiles@[cell_index(self.width as int, x, y)]
        } else {
            Tile::Wall
        }
    }

    pub open spec fn walkable_at(self, x: int, y: int) -> bool {
        walkable_tile(self.tile_at(x, y))
    }

    /// The tile list covers the whole grid.
    pub open spec fn wf(self) -> bool {
        self.tiles@.len() == self.width * self.height
    }

    /// A map of the given size with every tile set to `tile`.
    pub fn filled(name: &str, width: u16, height: u16, tile: Tile) -> (m: MapState)
        ensures
            m.name@ == name@,
            m.width == width,
            m.height == height,
            m.wf(),
            forall|i: int| 0 <= i < m.tiles@.len() ==> m.tiles@[i] == tile,
    {
        let n = grid_cells(width, height);
        let mut tiles: Vec<Tile> = Vec::new();
        let mut i: usize = 0;
        while i < n
            invariant
                n == width * height,
                i <= n,
                tiles@.len() == i,
                forall|k: int| 0 <= k < i ==> tiles@[k] == tile,
            decreases n - i,
        {
            tiles.push(tile);
            i = i + 1;
        }
        MapState { name: owned(name), width, height, tiles }
    }

    pub fn tile(&self, x: u16, y: u16) -> (t: Tile)
        ensures
            t == self.tile_at(x as int, y as int),
    {
        if x >= self.width || y >= self.height {
            return Tile::Wall;
        }
        let idx = self.index(x, y);
        if idx < self.tiles.len() {
            self.tiles[idx]
        } else {
            Tile::Wall
        }
    }

    pub fn is_walkable(&self, x: u16, y: u16) -> (b: bool)
        ensures
            b == self.walkable_at(x as int, y as int),
    {
        let t = self.tile(x, y);
        match t {
            Tile::Floor | Tile::Trail | Tile::Grass => true,
            _ => false,
        }
    }

    pub fn is_light_blocker(&self, x: u16, y: u16) -> (b: bool)
        ensures
            b == (self.tile_at(x as int, y as int) is Wall),
    {
        let t = self.tile(x, y);
        match t {
            Tile::Wall => true,
            _ => false,
        }
    }

    fn index(&self, x: u16, y: u16) -> (i: usize)
        requires
            x < self.width,
            y < self.height,
        ensures
            i == cell_index(self.width as int, x as int, y as int),
    {
        grid_index(self.width, self.height, x, y)
    }
}

/// Abstract trail: the grid size and one charge per cell, row-major.
pub ghost struct TrailView {
    pub width: int,
    pub height: int,
    pub charges: Seq<u16>,
}

impl TrailView {
    pub open spec fn in_bounds(self, x: int, y: int) -> bool {
        0 <= x < self.width && 0 <= y < self.height
    }

    pub open spec fn wf(self) -> bool {
        self.width >= 0 && self.height >= 0 && self.charges.len() == self.width * self.height
    }

    /// Charge at `(x, y)`; zero outside the grid.
    pub open spec fn charge(self, x: int, y: int) -> u16 {
        if self.in_bounds(x, y) {
            self.charges[cell_index(self.width, x, y)]
        } else {
            0
        }
    }

    /// The trail after `amount` more charge is laid at `(x, y)` (saturating);
    /// unchanged outside the grid.
    pub open spec fn deposit(self, x: int, y: int, amount: u16) -> TrailView {
        if self.in_bounds(x, y) {
            TrailView {
                charges: self.charges.update(
                    cell_index(self.width, x, y),
                    self.charge(x, y).saturating_add(amount),
                ),
                ..self
            }
        } else {
            self
        }
    }

    /// The trail after the charge at `(x, y)` is removed.
    pub open spec fn taken(self, x: int, y: int) -> TrailView {
        if self.in_bounds(x, y) {
            TrailView { charges: self.charges.update(cell_index(self.width, x, y), 0), ..self }
        } else {
            self
        }
    }

    /// The trail with every charge removed.
    pub open spec fn cleared(self) -> TrailView {
        TrailView { charges: Seq::new(self.charges.len(), |i: int| 0u16), ..self }
    }
}

#[derive(Clone, Debug)]
pub struct TrailState {
    pub width: u16,
    pub height: u16,
    pub charges: Vec<u16>,
}

impl View for TrailState {
    type V = TrailView;

    open spec fn view(&self) -> TrailView {
        TrailView { width: self.width as int, height: self.height as int, charges: self.charges@ }
    }
}

impl TrailState {
    /// The charge vector covers the whole grid.
    pub open spec fn wf(self) -> bool {
        self.charges@.len() == self.width * self.height
    }

    pub fn new(width: u16, height: u16) -> (t: TrailState)
        ensures
            t.wf(),
            t.width == width,
            t.height == height,
            forall|x: int, y: int| #[trigger] t@.charge(x, y) == 0,
    {
        let n = grid_cells(width, height);
        let mut charges: Vec<u16> = Vec::new();
        let mut i: usize = 0;
        while i < n
            invariant
                n == width * height,
                i <= n,
                charges@.len() == i,
                forall|k: int| 0 <= k < i ==> charges@[k] == 0,
            decreases n - i,
        {
            charges.push(0);
            i = i + 1;
        }
        let t = TrailState { width, height, charges };
        assert forall|x: int, y: int| #[trigger] t@.charge(x, y) == 0 by {
            if t@.in_bounds(x, y) {
                lemma_cell_index(width as int, height as int, x, y);
            }
        }
        t
    }

    pub fn deposit(&mut self, x: u16, y: u16, amount: u16)
        requires
            old(self).wf(),
        ensures
            final(self).wf(),
            final(self)@ == old(self)@.deposit(x as int, y as int, amount),
    {
        if let Some(idx) = self.index(x, y) {
            let v = self.charges[idx].saturating_add(amount);
            self.charges.set(idx, v);
        }
    }

    pub fn take(&mut self, x: u16, y: u16) -> (amount: u16)
        requires
            old(self).wf(),
        ensures
            final(self).wf(),
            amount == old(self)@.charge(x as int, y as int),
            final(self)@ == old(self)@.taken(x as int, y as int),
    {
        let idx = match self.index(x, y) {
            Some(i) => i,
            None => return 0,
        };
        let amount = self.charges[idx];
        self.charges.set(idx, 0);
        amount
    }

    pub fn charge_at(&self, x: u16, y: u16) -> (c: u16)
        requires
            self.wf(),
        ensures
            c == self@.charge(x as int, y as int),
    {
        match self.index(x, y) {
            Some(idx) => self.charges[idx],
            None => 0,
        }
    }

    pub fn clear(&mut self)
        requires
            old(self).wf(),
        ensures
            final(self).wf(),
            final(self)@ == old(self)@.cleared(),
    {
        let n = self.charges.len();
        let mut i: usize = 0;
        while i < n
            invariant
                n == self.charges@.len(),
                n == old(self).charges@.len(),
                self.width == old(self).width,
                self.height == old(self).height,
                i <= n,
                forall|k: int| 0 <= k < i ==> self.charges@[k] == 0,
            decreases n - i,
        {
            self.charges.set(i, 0);
            i = i + 1;
        }
        assert(self@.charges =~= old(self)@.cleared().charges);
    }

    fn index(&self, x: u16, y: u16) -> (r: Option<usize>)
        requires
            self.wf(),
        ensures
            r is None <==> !self@.in_bounds(x as int, y as int),
            r matches Some(i) ==> i == cell_index(self.width as int, x as int, y as int) && i
                < self.charges@.len(),
    {
        if x >= self.width || y >= self.height {
            return None;
        }
        Some(grid_index(self.width, self.height, x, y))
    }
}

/// Charge laid and then taken back is returned in full, and the cell is
/// left empty: on an empty in-bounds cell, `take` after `deposit(amount)`
/// yields `amount`, and a second `take` yields nothing.
pub proof fn law_deposit_then_take(t: TrailView, x: int, y: int, amount: u16)
    requires
        t.wf(),
        t.in_bounds(x, y),
        t.charge(x, y) == 0,
    ensures
        t.deposit(x, y, amount).charge(x, y) == amount,
        t.deposit(x, y, amount).taken(x, y).charge(x, y) == 0,
        t.deposit(x, y, amount).taken(x, y) == t,
{
    lemma_cell_index(t.width, t.height, x, y);
    let i = cell_index(t.width, x, y);
    assert(t.deposit(x, y, amount).taken(x, y).charges =~= t.charges);
}

/// Laying or taking charge at one cell leaves every other cell as it was.
pub proof fn law_trail_cells_independent(t: TrailView, x: int, y: int, ox: int, oy: int, amount: u16)
    requires
        t.wf(),
        ox != x || oy != y,
    ensures
        t.deposit(x, y, amount).charge(ox, oy) == t.charge(ox, oy),
        t.taken(x, y).charge(ox, oy) == t.charge(ox, oy),
{
    if t.in_bounds(x, y) && t.in_bounds(ox, oy) {
        lemma_cell_index(t.width, t.height, x, y);
        lemma_cell_index(t.width, t.height, ox, oy);
        if cell_index(t.width, x, y) == cell_index(t.width, ox, oy) {
            lemma_cell_index_injective(t.width, x, y, ox, oy);
        }
    }
}

/// Cleared trails hold no charge anywhere.
pub proof fn law_cleared_is_dark(t: TrailView, x: int, y: int)
    requires
        t.wf(),
    ensures
        t.cleared().charge(x, y) == 0,
{
    if t.in_bounds(x, y) {
        lemma_cell_index(t.width, t.height, x, y);
    }
}

#[derive(Clone, Debug)]
pub struct PlayerState {
    pub x: u16,
    pub y: u16,
    pub light_current: u16,
    pub light_max: u16,
    pub steps: u32,
}

#[derive(Clone, Debug)]
pub struct GeneratedFloor {
    pub map: MapState,
    pub anchors: Vec<RuntimeAnchor>,
    pub danger_mode: DangerMode,
    pub generator_id: String,
    pub generator_version: u32,
    pub seed: u64,
    pub fingerprint: String,
}

#[derive(Clone, Debug)]
pub struct AppState {
    pub mode: GameMode,
    pub floor_index: u32,
    pub seed: u64,
    pub map: MapState,
    pub player: PlayerState,
    pub trail: TrailState,
    pub danger_mode: DangerMode,
    pub anchors: Vec<RuntimeAnchor>,
    pub last_status: Option<String>,
}

/// Position of the first anchor of the given kind.
pub open spec fn find_anchor(anchors: Seq<RuntimeAnchor>, kind: RuntimeAnchorKind) -> Option<
    (u16, u16),
>
    decreases anchors.len(),
{
    if anchors.len() == 0 {
        None
    } else if anchors[0].kind == kind {
        Some((anchors[0].x, anchors[0].y))
    } else {
        find_anchor(anchors.drop_first(), kind)
    }
}

/// Decimal rendering of a counter, for status lines.
pub fn dec_u64_pub(n: u64) -> (s: String)
    ensures
        s@ == dec(n as nat),
{
    dec_u64(n)
}

/// Name of a danger mode as the status line shows it.
pub open spec fn danger_mode_name(m: DangerMode) -> Seq<char> {
    match m {
        DangerMode::SoundHunter => "SoundHunter"@,
        DangerMode::ImminentCollapse => "ImminentCollapse"@,
    }
}

pub fn danger_mode_label(m: DangerMode) -> (s: &'static str)
    ensures
        s@ == danger_mode_name(m),
{
    match m {
        DangerMode::SoundHunter => "SoundHunter",
        DangerMode::ImminentCollapse => "ImminentCollapse",
    }
}

/// Status line announcing that a floor is ready.
pub open spec fn floor_ready_status(floor_index: u32, m: DangerMode) -> Seq<char> {
    "Floor "@ + dec(floor_index as nat + 1) + " ready ("@ + danger_mode_name(m) + ")"@
}

impl AppState {
    /// The state a run starts in, before its first floor is generated.
    pub fn new(seed: u64) -> (s: AppState)
        ensures
            s.mode == GameMode::Boot,
            s.floor_index == 0,
            s.seed == seed,
            s.map.name@ == "bootstrap"@,
            s.map.width == 3 && s.map.height == 3 && s.map.wf(),
            forall|i: int| 0 <= i < s.map.tiles@.len() ==> s.map.tiles@[i] == Tile::Wall,
            s.player.x == 1 && s.player.y == 1,
            s.player.light_current == 120 && s.player.light_max == 120,
            s.player.steps == 0,
            s.trail.wf() && s.trail.width == 3 && s.trail.height == 3,
            forall|x: int, y: int| #[trigger] s.trail@.charge(x, y) == 0,
            s.danger_mode == DangerMode::SoundHunter,
            s.anchors@.len() == 0,
            s.last_status is None,
    {
        let map = MapState::filled("bootstrap", 3, 3, Tile::Wall);
        AppState {
            mode: GameMode::Boot,
            floor_index: 0,
            seed,
            map,
            player: PlayerState { x: 1, y: 1, light_current: 120, light_max: 120, steps: 0 },
            trail: TrailState::new(3, 3),
            danger_mode: DangerMode::SoundHunter,
            anchors: Vec::new(),
            last_status: None,
        }
    }

    /// Installs a generated floor: map, a fresh empty trail of the same size,
    /// anchors and danger mode; the player stands on the start anchor (or at
    /// `(1, 1)` clamped into the map when there is none).
    pub fn apply_generated_floor(&mut self, floor: GeneratedFloor)
        ensures
            final(self).map == floor.map,
            final(self).trail.wf(),
            final(self).trail.width == floor.map.width,
            final(self).trail.height == floor.map.height,
            forall|x: int, y: int| #[trigger] final(self).trail@.charge(x, y) == 0,
            final(self).anchors@ == floor.anchors@,
            final(self).danger_mode == floor.danger_mode,
            match find_anchor(floor.anchors@, RuntimeAnchorKind::PlayerStart) {
                Some(p) => final(self).player.x == p.0 && final(self).player.y == p.1,
                None => final(self).player.x == (if floor.map.width >= 2 { 1u16 } else { 0u16 })
                    && final(self).player.y == (if floor.map.height >= 2 { 1u16 } else { 0u16 }),
            },
            final(self).player.light_current == old(self).player.light_current,
            final(self).player.light_max == old(self).player.light_max,
            final(self).player.steps == old(self).player.steps,
            final(self).mode == GameMode::Exploration,
            final(self).floor_index == old(self).floor_index,
            final(self).seed == old(self).seed,
            final(self).last_status matches Some(s) && s@ == floor_ready_status(
                old(self).floor_index,
                floor.danger_mode,
            ),
    {
        self.map = floor.map;
        self.trail = TrailState::new(self.map.width, self.map.height);
        self.anchors = floor.anchors;
        self.danger_mode = floor.danger_mode;

        match self.anchor_pos(RuntimeAnchorKind::PlayerStart) {
            Some((x, y)) => {
                self.player.x = x;
                self.player.y = y;
            },
            None => {
                self.player.x = if self.map.width >= 2 { 1 } else { 0 };
                self.player.y = if self.map.height >= 2 { 1 } else { 0 };
            },
        }

        self.mode = GameMode::Exploration;
        let mut status = owned("Floor ");
        let n = dec_u64(self.floor_index as u64 + 1);
        push_str(&mut status, n.as_str());
        push_str(&mut status, " ready (");
        push_str(&mut status, danger_mode_label(self.danger_mode));
        push_str(&mut status, ")");
        proof {
            reveal_strlit("Floor ");
            reveal_strlit(" ready (");
            reveal_strlit(")");
        }
        self.last_status = Some(status);
    }

    pub fn player_pos(&self) -> (p: (u16, u16))
        ensures
            p == (self.player.x, self.player.y),
    {
        (self.player.x, self.player.y)
    }

    pub fn exit_pos(&self) -> (p: Option<(u16, u16)>)
        ensures
            p == find_anchor(self.anchors@, RuntimeAnchorKind::Exit),
    {
        self.anchor_pos(RuntimeAnchorKind::Exit)
    }

    /// Position of the first anchor of the given kind.
    pub fn anchor_pos(&self, kind: RuntimeAnchorKind) -> (p: Option<(u16, u16)>)
        ensures
            p == find_anchor(self.anchors@, kind),
    {
        let mut i: usize = 0;
        assert(self.anchors@.skip(0) =~= self.anchors@);
        while i < self.anchors.len()
            invariant
                i <= self.anchors@.len(),
                find_anchor(self.anchors@, kind) == find_anchor(self.anchors@.skip(i as int), kind),
            decreases self.anchors.len() - i,
        {
            assert(self.anchors@.skip(i as int).drop_first() =~= self.anchors@.skip(i + 1));
            if self.anchors[i].kind == kind {
                return Some((self.anchors[i].x, self.anchors[i].y));
            }
            i = i + 1;
        }
        None
    }
}

} // verus!
