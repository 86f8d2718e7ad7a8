//! Floor generation: a maze carved by a seeded recursive backtracker, with
//! rooms, widened corridors and water added, the border walled in and five
//! anchors placed; a floor is only handed out when its exit can be reached
//! from its start.
use vstd::prelude::*;
use crate::digest::{hex_lower, sha256_hex, spec_sha256};
use crate::lightline::grid::{count_true, in_grid, lemma_count_le, lemma_count_set, reachable, reachable_mask};
use crate::lightline::state::{
    cell_index, grid_cells, grid_index, lemma_cell_index, DangerMode, GeneratedFloor, MapState,
    RuntimeAnchor, RuntimeAnchorKind, Tile,
};
use crate::text::{dec, dec_u64, owned, push_str};

verus! {

#[derive(Clone, Copy, Debug, PartialEq, Eq, Structural)]
pub struct FloorGenParams {
    pub floor_index: u32,
    pub danger_mode: DangerMode,
}

/// Why a floor could not be generated.
#[derive(Clone, Debug)]
pub enum GenError {
    InvalidSize,
    Internal(String),
}

pub const GOLDEN: u64 = 0x9e37_79b9_7f4a_7c15;

/// The splitmix64 finaliser.
pub open spec fn mix64_spec(z: u64) -> u64 {
    let z1 = z.wrapping_add(GOLDEN);
    let z2 = (z1 ^ (z1 >> 30u64)).wrapping_mul(0xbf58_476d_1ce4_e5b9);
    let z3 = (z2 ^ (z2 >> 27u64)).wrapping_mul(0x94d0_49bb_1331_11eb);
    z3 ^ (z3 >> 31u64)
}

fn mix64(z: u64) -> (r: u64)
    ensures
        r == mix64_spec(z),
{
    let z1 = z.wrapping_add(GOLDEN);
    let z2 = (z1 ^ (z1 >> 30u64)).wrapping_mul(0xbf58_476d_1ce4_e5b9);
    let z3 = (z2 ^ (z2 >> 27u64)).wrapping_mul(0x94d0_49bb_1331_11eb);
    z3 ^ (z3 >> 31u64)
}

/// Danger mode of a floor: decided by the low bit of a mix of the run seed
/// and the floor index.
pub open spec fn danger_mode_spec(seed: u64, floor_index: u32) -> DangerMode {
    if mix64_spec(seed ^ (floor_index as u64).wrapping_mul(GOLDEN)) & 1 == 0 {
        DangerMode::SoundHunter
    } else {
        DangerMode::ImminentCollapse
    }
}

pub fn choose_danger_mode(seed: u64, floor_index: u32) -> (m: DangerMode)
    ensures
        m == danger_mode_spec(seed, floor_index),
{
    if mix64(seed ^ (floor_index as u64).wrapping_mul(GOLDEN)) & 1 == 0 {
        DangerMode::SoundHunter
    } else {
        DangerMode::ImminentCollapse
    }
}

/// The top and bottom rows walled in, from column `x` on.
pub open spec fn wall_rows(t: Seq<Tile>, width: int, height: int, x: int) -> Seq<Tile>
    decreases width - x,
{
    if x >= width {
        t
    } else {
        wall_rows(
            t.update(cell_index(width, x, 0), Tile::Wall).update(cell_index(width, x, height - 1), Tile::Wall),
            width,
            height,
            x + 1,
        )
    }
}

/// The left and right columns walled in, from row `y` on.
pub open spec fn wall_cols(t: Seq<Tile>, width: int, height: int, y: int) -> Seq<Tile>
    decreases height - y,
{
    if y >= height {
        t
    } else {
        wall_cols(
            t.update(cell_index(width, 0, y), Tile::Wall).update(cell_index(width, width - 1, y), Tile::Wall),
            width,
            height,
            y + 1,
        )
    }
}

/// The anchors `k..5` marked with trail.
pub open spec fn trail_marks(t: Seq<Tile>, width: int, spots: Seq<(u16, u16)>, k: int) -> Seq<Tile>
    decreases 5 - k,
{
    if k >= 5 {
        t
    } else {
        trail_marks(t.update(cell_index(width, spots[k].0 as int, spots[k].1 as int), Tile::Trail), width, spots, k + 1)
    }
}

/// The tiles and anchor positions of the floor generated from `seed`: a
/// maze carved over the odd cells, rooms, widened corridors and water as
/// drawn in turn from the generator seeded by `seed` and the floor index,
/// the border walled in and the anchors marked with trail.
pub open spec fn floor_plan(seed: u64, floor_index: u32, width: u16, height: u16) -> (Seq<Tile>, Seq<(u16, u16)>) {
    let w = width as int;
    let h = height as int;
    let rng = mix64_spec(seed ^ ((floor_index as u64) << 32u64));
    let cw = ((width - 1) / 2) as u16;
    let ch = ((height - 1) / 2) as u16;
    let fresh = Seq::new((cw * ch) as nat, |i: int| false);
    let maze = carved(fresh, fresh, fresh, rng, cw, ch);
    let walls = Seq::new((w * h) as nat, |i: int| Tile::Wall);
    let t1 = maze_rows(walls, maze.right, maze.down, cw as int, ch as int, w, 0);
    let rooms = rooms_plan(t1, maze.rng, w, h, floor_index);
    let (t3, r3) = widen_rows(rooms.tiles, rooms.rng, w, h, widen_odds(floor_index), 2);
    let (t4, r4) = water_rooms(t3, r3, w, rooms.rooms, 0);
    let t5 = wall_cols(wall_rows(t4, w, h, 0), w, h, 0);
    let (spots, r5) = anchors_plan(maze.right, maze.down, cw, ch, rooms.rooms, r4);
    (trail_marks(t5, w, spots, 0), spots)
}

/// Whether the planned floor lets a path run from its start to its exit.
pub open spec fn floor_connected(seed: u64, floor_index: u32, width: u16, height: u16) -> bool {
    let plan = floor_plan(seed, floor_index, width, height);
    reachable(
        width as int,
        height as int,
        path_mask(plan.0),
        (plan.1[0].0 as int, plan.1[0].1 as int),
        plan.1[1].0 as int,
        plan.1[1].1 as int,
    )
}

/// Seeded splitmix64 generator.
struct SeededRng {
    state: u64,
}

impl SeededRng {
    fn new(seed: u64) -> (r: SeededRng)
        ensures
            r.state == mix64_spec(seed),
    {
        SeededRng { state: mix64(seed) }
    }

    fn next_u64(&mut self) -> (r: u64)
        ensures
            final(self).state == mix64_spec(old(self).state.wrapping_add(GOLDEN)),
            r == final(self).state,
    {
        self.state = mix64(self.state.wrapping_add(GOLDEN));
        self.state
    }

    fn next_bounded(&mut self, bound: u64) -> (r: u64)
        ensures
            bound == 0 ==> r == 0 && final(self).state == old(self).state,
            bound > 0 ==> final(self).state == mix64_spec(old(self).state.wrapping_add(GOLDEN))
                && r == final(self).state % bound,
            bound > 0 ==> r < bound,
    {
        if bound == 0 {
            return 0;
        }
        self.next_u64() % bound
    }
}

/// Maze over `cell_w * cell_h` cells: for each cell whether the wall to its
/// right and the wall below it are open, and whether it was visited.
struct MazeGrid {
    cell_w: u16,
    cell_h: u16,
    right_open: Vec<bool>,
    down_open: Vec<bool>,
    visited: Vec<bool>,
}

impl MazeGrid {
    spec fn wf(self) -> bool {
        &&& self.right_open@.len() == self.cell_w * self.cell_h
        &&& self.down_open@.len() == self.cell_w * self.cell_h
        &&& self.visited@.len() == self.cell_w * self.cell_h
    }

    fn new(cell_w: u16, cell_h: u16) -> (g: MazeGrid)
        ensures
            g.wf(),
            g.cell_w == cell_w,
            g.cell_h == cell_h,
            forall|i: int| 0 <= i < g.visited@.len() ==> !g.visited@[i] && !g.right_open@[i]
                && !g.down_open@[i],
    {
        let size = grid_cells(cell_w, cell_h);
        let mut right_open: Vec<bool> = Vec::new();
        let mut down_open: Vec<bool> = Vec::new();
        let mut visited: Vec<bool> = Vec::new();
        let mut i: usize = 0;
        while i < size
            invariant
                size == cell_w * cell_h,
                i <= size,
                right_open@.len() == i && down_open@.len() == i && visited@.len() == i,
                forall|k: int|
                    0 <= k < i ==> !visited@[k] && !right_open@[k] && !down_open@[k],
            decreases size - i,
        {
            right_open.push(false);
            down_open.push(false);
            visited.push(false);
            i = i + 1;
        }
        MazeGrid { cell_w, cell_h, right_open, down_open, visited }
    }

    fn index(&self, cx: u16, cy: u16) -> (i: usize)
        requires
            self.wf(),
            cx < self.cell_w,
            cy < self.cell_h,
        ensures
            i == cell_index(self.cell_w as int, cx as int, cy as int),
            i < self.visited@.len(),
    {
        grid_index(self.cell_w, self.cell_h, cx, cy)
    }

    /// Opens the wall between two neighbouring cells.
    fn open_wall(&mut self, cx1: u16, cy1: u16, cx2: u16, cy2: u16)
        requires
            old(self).wf(),
            cx1 < old(self).cell_w && cx2 < old(self).cell_w,
            cy1 < old(self).cell_h && cy2 < old(self).cell_h,
        ensures
            final(self).wf(),
            final(self).cell_w == old(self).cell_w,
            final(self).cell_h == old(self).cell_h,
            final(self).visited == old(self).visited,
            (cx2 == cx1 + 1 && cy2 == cy1) ==> final(self).right_open@ == old(self).right_open@.update(
                cell_index(old(self).cell_w as int, cx1 as int, cy1 as int),
                true,
            ) && final(self).down_open == old(self).down_open,
            (cx1 == cx2 + 1 && cy1 == cy2) ==> final(self).right_open@ == old(self).right_open@.update(
                cell_index(old(self).cell_w as int, cx2 as int, cy2 as int),
                true,
            ) && final(self).down_open == old(self).down_open,
            (cy2 == cy1 + 1 && cx2 == cx1) ==> final(self).down_open@ == old(self).down_open@.update(
                cell_index(old(self).cell_w as int, cx1 as int, cy1 as int),
                true,
            ) && final(self).right_open == old(self).right_open,
            (cy1 == cy2 + 1 && cx1 == cx2) ==> final(self).down_open@ == old(self).down_open@.update(
                cell_index(old(self).cell_w as int, cx2 as int, cy2 as int),
                true,
            ) && final(self).right_open == old(self).right_open,
            (final(self).right_open@, final(self).down_open@) == opened(
                old(self).right_open@,
                old(self).down_open@,
                old(self).cell_w,
                cx1,
                cy1,
                cx2,
                cy2,
            ),
    {
        if cx1 < u16::MAX && cx2 == cx1 + 1 && cy2 == cy1 {
            let idx = self.index(cx1, cy1);
            self.right_open.set(idx, true);
        } else if cx2 < u16::MAX && cx1 == cx2 + 1 && cy1 == cy2 {
            let idx = self.index(cx2, cy2);
            self.right_open.set(idx, true);
        } else if cy1 < u16::MAX && cy2 == cy1 + 1 && cx2 == cx1 {
            let idx = self.index(cx1, cy1);
            self.down_open.set(idx, true);
        } else if cy2 < u16::MAX && cy1 == cy2 + 1 && cx1 == cx2 {
            let idx = self.index(cx2, cy2);
            self.down_open.set(idx, true);
        }
    }

    /// Number of open walls around a cell.
    fn open_wall_count(&self, cx: u16, cy: u16) -> (n: u8)
        requires
            self.wf(),
            cx < self.cell_w,
            cy < self.cell_h,
        ensures
            n == (if cx > 0 && self.right_open@[cell_index(self.cell_w as int, cx - 1, cy as int)] {
                1int
            } else {
                0int
            }) + (if cx + 1 < self.cell_w && self.right_open@[cell_index(
                self.cell_w as int,
                cx as int,
                cy as int,
            )] {
                1int
            } else {
                0int
            }) + (if cy > 0 && self.down_open@[cell_index(self.cell_w as int, cx as int, cy - 1)] {
                1int
            } else {
                0int
            }) + (if cy + 1 < self.cell_h && self.down_open@[cell_index(
                self.cell_w as int,
                cx as int,
                cy as int,
            )] {
                1int
            } else {
                0int
            }),
    {
        let mut count = 0u8;
        let idx = self.index(cx, cy);
        if cx > 0 && self.right_open[self.index(cx - 1, cy)] {
            count = count + 1;
        }
        if cx + 1 < self.cell_w && self.right_open[idx] {
            count = count + 1;
        }
        if cy > 0 && self.down_open[self.index(cx, cy - 1)] {
            count = count + 1;
        }
        if cy + 1 < self.cell_h && self.down_open[idx] {
            count = count + 1;
        }
        count
    }
}

/// Tile coordinates of maze cell `(cx, cy)`.
pub open spec fn cell_tile(cx: int, cy: int) -> (int, int) {
    (1 + 2 * cx, 1 + 2 * cy)
}

fn maze_cell_to_tile(cx: u16, cy: u16) -> (t: (u16, u16))
    requires
        cx < 32767,
        cy < 32767,
    ensures
        t.0 == cell_tile(cx as int, cy as int).0,
        t.1 == cell_tile(cx as int, cy as int).1,
{
    (1 + cx * 2, 1 + cy * 2)
}

/// A draw below `bound` from generator state `state`: the number and the
/// next state; a bound of zero draws 0 and leaves the state.
pub open spec fn draw(state: u64, bound: u64) -> (u64, u64) {
    if bound == 0 {
        (0, state)
    } else {
        let next = mix64_spec(state.wrapping_add(GOLDEN));
        (next % bound, next)
    }
}

/// The open walls after the wall between two cells is opened: the wall to
/// the right of the left cell, or below the upper one.
pub open spec fn opened(right: Seq<bool>, down: Seq<bool>, cw: u16, cx1: u16, cy1: u16, cx2: u16, cy2: u16) -> (
    Seq<bool>,
    Seq<bool>,
) {
    if cx2 == cx1 + 1 && cy2 == cy1 {
        (right.update(cell_index(cw as int, cx1 as int, cy1 as int), true), down)
    } else if cx1 == cx2 + 1 && cy1 == cy2 {
        (right.update(cell_index(cw as int, cx2 as int, cy2 as int), true), down)
    } else if cy2 == cy1 + 1 && cx2 == cx1 {
        (right, down.update(cell_index(cw as int, cx1 as int, cy1 as int), true))
    } else if cy1 == cy2 + 1 && cx1 == cx2 {
        (right, down.update(cell_index(cw as int, cx2 as int, cy2 as int), true))
    } else {
        (right, down)
    }
}

/// The carving of a maze in progress: open walls, visited cells, the
/// backtracking stack and the generator state.
pub struct MazeRun {
    pub right: Seq<bool>,
    pub down: Seq<bool>,
    pub visited: Seq<bool>,
    pub stack: Seq<(u16, u16)>,
    pub rng: u64,
}

/// The unvisited neighbours of a cell: left, right, above, below.
pub open spec fn maze_nbrs(v: Seq<bool>, cw: u16, ch: u16, cx: u16, cy: u16) -> Seq<(u16, u16)> {
    let a = if cx > 0 && !v[cell_index(cw as int, cx - 1, cy as int)] {
        seq![((cx - 1) as u16, cy)]
    } else {
        Seq::<(u16, u16)>::empty()
    };
    let b = if cx + 1 < cw && !v[cell_index(cw as int, cx + 1, cy as int)] {
        seq![((cx + 1) as u16, cy)]
    } else {
        Seq::<(u16, u16)>::empty()
    };
    let c = if cy > 0 && !v[cell_index(cw as int, cx as int, cy - 1)] {
        seq![(cx, (cy - 1) as u16)]
    } else {
        Seq::<(u16, u16)>::empty()
    };
    let d = if cy + 1 < ch && !v[cell_index(cw as int, cx as int, cy + 1)] {
        seq![(cx, (cy + 1) as u16)]
    } else {
        Seq::<(u16, u16)>::empty()
    };
    a + b + c + d
}

/// One step of the backtracker: from the cell on top of the stack, move to
/// a drawn unvisited neighbour through the wall between, or back up.
pub open spec fn maze_step(m: MazeRun, cw: u16, ch: u16) -> MazeRun {
    if m.stack.len() == 0 {
        m
    } else {
        let (cx, cy) = m.stack.last();
        let ns = maze_nbrs(m.visited, cw, ch, cx, cy);
        if ns.len() == 0 {
            MazeRun { stack: m.stack.drop_last(), ..m }
        } else {
            let (pick, rng) = draw(m.rng, ns.len() as u64);
            let (nx, ny) = ns[pick as int];
            let (right, down) = opened(m.right, m.down, cw, cx, cy, nx, ny);
            MazeRun {
                right,
                down,
                visited: m.visited.update(cell_index(cw as int, nx as int, ny as int), true),
                stack: m.stack.push((nx, ny)),
                rng,
            }
        }
    }
}

/// At most `fuel` steps of the backtracker, stopping when the stack empties.
pub open spec fn maze_from(m: MazeRun, cw: u16, ch: u16, fuel: nat) -> MazeRun
    decreases fuel,
{
    if fuel == 0 || m.stack.len() == 0 {
        m
    } else {
        maze_from(maze_step(m, cw, ch), cw, ch, (fuel - 1) as nat)
    }
}

/// A bound on the steps left: every step visits a cell or pops the stack.
pub open spec fn maze_measure(m: MazeRun, cw: u16, ch: u16) -> int {
    2 * (cw * ch - count_true(m.visited)) + m.stack.len()
}

/// The backtracker at its start: the first cell visited and on the stack.
pub open spec fn maze_start(right: Seq<bool>, down: Seq<bool>, visited: Seq<bool>, rng: u64) -> MazeRun {
    MazeRun { right, down, visited: visited.update(0, true), stack: seq![(0u16, 0u16)], rng }
}

/// The carved maze: the backtracker run from its start until its stack
/// empties.
pub open spec fn carved(right: Seq<bool>, down: Seq<bool>, visited: Seq<bool>, rng: u64, cw: u16, ch: u16) -> MazeRun {
    let s = maze_start(right, down, visited, rng);
    maze_from(s, cw, ch, maze_measure(s, cw, ch) as nat)
}

/// Carves a perfect maze with a seeded depth-first backtracker.
fn carve_maze(grid: &mut MazeGrid, rng: &mut SeededRng)
    requires
        old(grid).wf(),
        old(grid).cell_w >= 1,
        old(grid).cell_h >= 1,
    ensures
        final(grid).wf(),
        final(grid).cell_w == old(grid).cell_w,
        final(grid).cell_h == old(grid).cell_h,
        ({
            let c = carved(old(grid).right_open@, old(grid).down_open@, old(grid).visited@, old(rng).state, old(grid).cell_w, old(grid).cell_h);
            &&& final(grid).right_open@ == c.right
            &&& final(grid).down_open@ == c.down
            &&& final(grid).visited@ == c.visited
            &&& final(rng).state == c.rng
        }),
{
    let ghost cw = grid.cell_w as int;
    let ghost ch = grid.cell_h as int;
    let mut stack: Vec<(u16, u16)> = Vec::new();
    proof {
        assert(cw * ch >= 1) by (nonlinear_arith)
            requires
                cw >= 1,
                ch >= 1,
        ;
    }
    let ghost start = maze_start(grid.right_open@, grid.down_open@, grid.visited@, rng.state);
    let ghost gw = grid.cell_w;
    let ghost gh = grid.cell_h;
    if !grid.visited[0] {
        proof {
            lemma_count_set(grid.visited@, 0);
        }
        grid.visited.set(0, true);
    } else {
        assert(grid.visited@.update(0, true) =~= grid.visited@);
    }
    stack.push((0, 0));
    proof {
        lemma_count_le(grid.visited@);
        assert(stack@ =~= seq![(0u16, 0u16)]);
    }
    let ghost total = maze_from(start, gw, gh, maze_measure(start, gw, gh) as nat);
    let ghost mut fuel: nat = maze_measure(start, gw, gh) as nat;
    while stack.len() > 0
        invariant
            gw == grid.cell_w,
            gh == grid.cell_h,
            total == maze_from(
                MazeRun { right: grid.right_open@, down: grid.down_open@, visited: grid.visited@, stack: stack@, rng: rng.state },
                gw,
                gh,
                fuel,
            ),
            fuel >= maze_measure(
                MazeRun { right: grid.right_open@, down: grid.down_open@, visited: grid.visited@, stack: stack@, rng: rng.state },
                gw,
                gh,
            ),
            grid.wf(),
            grid.cell_w as int == cw,
            grid.cell_h as int == ch,
            cw >= 1,
            ch >= 1,
            forall|k: int|
                0 <= k < stack@.len() ==> (#[trigger] stack@[k]).0 < cw && stack@[k].1 < ch,
            count_true(grid.visited@) <= cw * ch,
        decreases 2 * (cw * ch - count_true(grid.visited@)) + stack@.len(),
    {
        let ghost m0 = MazeRun { right: grid.right_open@, down: grid.down_open@, visited: grid.visited@, stack: stack@, rng: rng.state };
        let (cx, cy) = stack[stack.len() - 1];
        let ghost v0 = grid.visited@;
        let mut neighbors: Vec<(u16, u16)> = Vec::new();
        if cx > 0 && !grid.visited[grid.index(cx - 1, cy)] {
            neighbors.push((cx - 1, cy));
        }
        let ghost na = neighbors@;
        if cx + 1 < grid.cell_w && !grid.visited[grid.index(cx + 1, cy)] {
            neighbors.push((cx + 1, cy));
        }
        let ghost nb = neighbors@;
        if cy > 0 && !grid.visited[grid.index(cx, cy - 1)] {
            neighbors.push((cx, cy - 1));
        }
        let ghost nc = neighbors@;
        if cy + 1 < grid.cell_h && !grid.visited[grid.index(cx, cy + 1)] {
            neighbors.push((cx, cy + 1));
        }
        proof {
            let a = if cx > 0 && !v0[cell_index(gw as int, cx - 1, cy as int)] {
                seq![((cx - 1) as u16, cy)]
            } else {
                Seq::<(u16, u16)>::empty()
            };
            let b = if cx + 1 < gw && !v0[cell_index(gw as int, cx + 1, cy as int)] {
                seq![((cx + 1) as u16, cy)]
            } else {
                Seq::<(u16, u16)>::empty()
            };
            let c = if cy > 0 && !v0[cell_index(gw as int, cx as int, cy - 1)] {
                seq![(cx, (cy - 1) as u16)]
            } else {
                Seq::<(u16, u16)>::empty()
            };
            let d = if cy + 1 < gh && !v0[cell_index(gw as int, cx as int, cy + 1)] {
                seq![(cx, (cy + 1) as u16)]
            } else {
                Seq::<(u16, u16)>::empty()
            };
            assert(na =~= a);
            assert(nb =~= a + b);
            assert(nc =~= a + b + c);
            assert(neighbors@ =~= a + b + c + d);
            assert(m0.stack.last() == (cx, cy));
        }
        if neighbors.len() == 0 {
            stack.pop();
            proof {
                assert(stack@ =~= m0.stack.drop_last());
                fuel = (fuel - 1) as nat;
            }
            continue;
        }
        let pick = rng.next_bounded(neighbors.len() as u64) as usize;
        let (nx, ny) = neighbors[pick];
        grid.open_wall(cx, cy, nx, ny);
        let ni = grid.index(nx, ny);
        proof {
            lemma_count_set(grid.visited@, ni as int);
        }
        grid.visited.set(ni, true);
        proof {
            lemma_count_le(grid.visited@);
        }
        stack.push((nx, ny));
        proof {
            fuel = (fuel - 1) as nat;
        }
    }
    proof {
        assert(total == MazeRun { right: grid.right_open@, down: grid.down_open@, visited: grid.visited@, stack: stack@, rng: rng.state });
    }
}

/// The tiles after maze cell `(cx, cy)` is laid out: its tile is floor,
/// and so are the tiles of its open walls to the right and below.
pub open spec fn maze_cell_tiles(t: Seq<Tile>, right: Seq<bool>, down: Seq<bool>, cw: int, ch: int, width: int, cx: int, cy: int) -> Seq<Tile> {
    let tx = 1 + cx * 2;
    let ty = 1 + cy * 2;
    let idx = cell_index(cw, cx, cy);
    let t1 = t.update(cell_index(width, tx, ty), Tile::Floor);
    let t2 = if cx + 1 < cw && right[idx] {
        t1.update(cell_index(width, tx + 1, ty), Tile::Floor)
    } else {
        t1
    };
    if cy + 1 < ch && down[idx] {
        t2.update(cell_index(width, tx, ty + 1), Tile::Floor)
    } else {
        t2
    }
}

/// Cells `cx..cw` of maze row `cy` laid out in turn.
pub open spec fn maze_cols(t: Seq<Tile>, right: Seq<bool>, down: Seq<bool>, cw: int, ch: int, width: int, cx: int, cy: int) -> Seq<Tile>
    decreases cw - cx,
{
    if cx >= cw {
        t
    } else {
        maze_cols(maze_cell_tiles(t, right, down, cw, ch, width, cx, cy), right, down, cw, ch, width, cx + 1, cy)
    }
}

/// Maze rows `cy..ch` laid out in turn.
pub open spec fn maze_rows(t: Seq<Tile>, right: Seq<bool>, down: Seq<bool>, cw: int, ch: int, width: int, cy: int) -> Seq<Tile>
    decreases ch - cy,
{
    if cy >= ch {
        t
    } else {
        maze_rows(maze_cols(t, right, down, cw, ch, width, 0, cy), right, down, cw, ch, width, cy + 1)
    }
}

/// Floor tiles of maze cell `(cx, cy)` and of the open walls to its right
/// and below.
fn maze_to_tiles(grid: &MazeGrid, tiles: &mut Vec<Tile>, width: u16, height: u16)
    requires
        grid.wf(),
        old(tiles)@.len() == width * height,
        2 * grid.cell_w + 1 <= width,
        2 * grid.cell_h + 1 <= height,
    ensures
        final(tiles)@.len() == old(tiles)@.len(),
        final(tiles)@ == maze_rows(old(tiles)@, grid.right_open@, grid.down_open@, grid.cell_w as int, grid.cell_h as int, width as int, 0),
        forall|x: int, y: int|
            in_grid(width as int, height as int, x, y) && (x == 0 || y == 0 || x == width - 1 || y
                == height - 1) ==> final(tiles)@[cell_index(width as int, x, y)] == old(
                tiles,
            )@[cell_index(width as int, x, y)],
{
    let ghost t0 = tiles@;
    let ghost total = maze_rows(t0, grid.right_open@, grid.down_open@, grid.cell_w as int, grid.cell_h as int, width as int, 0);
    let mut cy: u16 = 0;
    while cy < grid.cell_h
        invariant
            total == maze_rows(tiles@, grid.right_open@, grid.down_open@, grid.cell_w as int, grid.cell_h as int, width as int, cy as int),
            grid.wf(),
            tiles@.len() == width * height,
            2 * grid.cell_w + 1 <= width,
            2 * grid.cell_h + 1 <= height,
            cy <= grid.cell_h,
            forall|x: int, y: int|
                in_grid(width as int, height as int, x, y) && (x == 0 || y == 0 || x == width - 1
                    || y == height - 1) ==> tiles@[cell_index(width as int, x, y)] == t0[cell_index(
                    width as int,
                    x,
                    y,
                )],
        decreases grid.cell_h - cy,
    {
        let mut cx: u16 = 0;
        while cx < grid.cell_w
            invariant
                total == maze_rows(
                    maze_cols(tiles@, grid.right_open@, grid.down_open@, grid.cell_w as int, grid.cell_h as int, width as int, cx as int, cy as int),
                    grid.right_open@,
                    grid.down_open@,
                    grid.cell_w as int,
                    grid.cell_h as int,
                    width as int,
                    cy + 1,
                ),
                grid.wf(),
                tiles@.len() == width * height,
                2 * grid.cell_w + 1 <= width,
                2 * grid.cell_h + 1 <= height,
                cy < grid.cell_h,
                cx <= grid.cell_w,
                forall|x: int, y: int|
                    in_grid(width as int, height as int, x, y) && (x == 0 || y == 0 || x == width
                        - 1 || y == height - 1) ==> tiles@[cell_index(width as int, x, y)]
                        == t0[cell_index(width as int, x, y)],
            decreases grid.cell_w - cx,
        {
            let (tx, ty) = maze_cell_to_tile(cx, cy);
            set_interior(tiles, width, height, tx, ty, Tile::Floor);
            let idx = grid.index(cx, cy);
            if cx + 1 < grid.cell_w && grid.right_open[idx] {
                set_interior(tiles, width, height, tx + 1, ty, Tile::Floor);
            }
            if cy + 1 < grid.cell_h && grid.down_open[idx] {
                set_interior(tiles, width, height, tx, ty + 1, Tile::Floor);
            }
            cx = cx + 1;
        }
        cy = cy + 1;
    }
}

/// Sets an interior tile (off the border) and leaves every other tile.
fn set_interior(tiles: &mut Vec<Tile>, width: u16, height: u16, x: u16, y: u16, t: Tile)
    requires
        old(tiles)@.len() == width * height,
        1 <= x < width - 1,
        1 <= y < height - 1,
    ensures
        final(tiles)@ == old(tiles)@.update(cell_index(width as int, x as int, y as int), t),
        final(tiles)@.len() == old(tiles)@.len(),
        forall|a: int, b: int|
            in_grid(width as int, height as int, a, b) && (a == 0 || b == 0 || a == width - 1 || b
                == height - 1) ==> final(tiles)@[cell_index(width as int, a, b)] == old(
                tiles,
            )@[cell_index(width as int, a, b)],
{
    let idx = grid_index(width, height, x, y);
    tiles.set(idx, t);
    proof {
        assert forall|a: int, b: int|
            in_grid(width as int, height as int, a, b) && (a == 0 || b == 0 || a == width - 1 || b
                == height - 1) implies tiles@[cell_index(width as int, a, b)] == old(
            tiles,
        )@[cell_index(width as int, a, b)] by {
            lemma_cell_index(width as int, height as int, a, b);
            if cell_index(width as int, a, b) == idx as int {
                crate::lightline::state::lemma_cell_index_injective(
                    width as int,
                    a,
                    b,
                    x as int,
                    y as int,
                );
            }
        }
    }
}

/// A rectangular room inside the map, away from its border.
#[derive(Clone, Copy, Debug)]
pub struct Room {
    pub x: u16,
    pub y: u16,
    pub w: u16,
    pub h: u16,
    pub center: (u16, u16),
}

/// The room lies at least two tiles inside the map.
spec fn room_inside(r: Room, width: int, height: int) -> bool {
    &&& 2 <= r.x && 2 <= r.y
    &&& r.w >= 3 && r.h >= 3
    &&& r.x + r.w < width - 1
    &&& r.y + r.h < height - 1
    &&& r.center == ((r.x + r.w / 2) as u16, (r.y + r.h / 2) as u16)
}

/// Row `dy` of a room, from column `dx` on, laid as floor.
pub open spec fn rect_cols(t: Seq<Tile>, width: int, rx: int, ry: int, rw: int, dx: int, dy: int) -> Seq<Tile>
    decreases rw - dx,
{
    if dx >= rw {
        t
    } else {
        rect_cols(t.update(cell_index(width, rx + dx, ry + dy), Tile::Floor), width, rx, ry, rw, dx + 1, dy)
    }
}

/// Rows `dy..rh` of a room laid as floor.
pub open spec fn rect_rows(t: Seq<Tile>, width: int, rx: int, ry: int, rw: int, rh: int, dy: int) -> Seq<Tile>
    decreases rh - dy,
{
    if dy >= rh {
        t
    } else {
        rect_rows(rect_cols(t, width, rx, ry, rw, 0, dy), width, rx, ry, rw, rh, dy + 1)
    }
}

/// Tiles, rooms placed so far, and the generator state, while rooms are
/// carved.
pub struct RoomsRun {
    pub tiles: Seq<Tile>,
    pub rooms: Seq<Room>,
    pub rng: u64,
}

/// Attempts `attempt..20` at placing a room of `rw` by `rh`: a drawn
/// corner, kept where the room fits inside the border, which ends the
/// attempts.
pub open spec fn attempts_from(st: RoomsRun, attempt: int, rw: int, rh: int, xs: u64, ys: u64, width: int, height: int) -> RoomsRun
    decreases 20 - attempt,
{
    if attempt >= 20 {
        st
    } else {
        let (a, r1) = draw(st.rng, xs);
        let (b, r2) = draw(r1, ys);
        let rx = 2 + a;
        let ry = 2 + b;
        if rx + rw >= width - 1 || ry + rh >= height - 1 {
            attempts_from(RoomsRun { rng: r2, ..st }, attempt + 1, rw, rh, xs, ys, width, height)
        } else {
            RoomsRun {
                tiles: rect_rows(st.tiles, width, rx, ry, rw, rh, 0),
                rooms: st.rooms.push(
                    Room { x: rx as u16, y: ry as u16, w: rw as u16, h: rh as u16, center: ((rx + rw / 2) as u16, (ry + rh / 2) as u16) },
                ),
                rng: r2,
            }
        }
    }
}

/// Rooms `n..count`: each drawn 3 to 5 wide and 3 to 4 high, then placed
/// by up to 20 attempts when the map has room for it.
pub open spec fn rooms_from(st: RoomsRun, n: int, count: int, width: int, height: int) -> RoomsRun
    decreases count - n,
{
    if n >= count {
        st
    } else {
        let (a, r1) = draw(st.rng, 3);
        let (b, r2) = draw(r1, 2);
        let rw = 3 + a;
        let rh = 3 + b;
        let xs = if width > rw + 3 { width - (rw + 3) } else { 0 };
        let ys = if height > rh + 3 { height - (rh + 3) } else { 0 };
        let st2 = RoomsRun { rng: r2, ..st };
        if xs == 0 || ys == 0 {
            rooms_from(st2, n + 1, count, width, height)
        } else {
            rooms_from(attempts_from(st2, 0, rw, rh, xs as u64, ys as u64, width, height), n + 1, count, width, height)
        }
    }
}

/// The rooms of a floor: two to six (fewer on early floors), as drawn.
pub open spec fn rooms_plan(tiles: Seq<Tile>, rng: u64, width: int, height: int, floor_index: u32) -> RoomsRun {
    let extra: u64 = if floor_index / 3 < 2 { (floor_index / 3) as u64 } else { 2 };
    let (c, r1) = draw(rng, (3 + extra) as u64);
    rooms_from(RoomsRun { tiles, rooms: seq![], rng: r1 }, 0, 2 + c, width, height)
}

/// Carves two to six rooms of floor at seeded positions.
#[verifier::spinoff_prover]
#[verifier::rlimit(40)]
fn carve_rooms(tiles: &mut Vec<Tile>, width: u16, height: u16, rng: &mut SeededRng, floor_index: u32) -> (rooms: Vec<Room>)
    requires
        old(tiles)@.len() == width * height,
        width >= 20,
        height >= 12,
    ensures
        final(tiles)@.len() == old(tiles)@.len(),
        ({
            let p = rooms_plan(old(tiles)@, old(rng).state, width as int, height as int, floor_index);
            &&& final(tiles)@ == p.tiles
            &&& rooms@ == p.rooms
            &&& final(rng).state == p.rng
        }),
        forall|i: int| 0 <= i < rooms@.len() ==> room_inside(#[trigger] rooms@[i], width as int, height as int),
        forall|x: int, y: int|
            in_grid(width as int, height as int, x, y) && (x == 0 || y == 0 || x == width - 1 || y
                == height - 1) ==> final(tiles)@[cell_index(width as int, x, y)] == old(
                tiles,
            )@[cell_index(width as int, x, y)],
{
    let ghost t0 = tiles@;
    let extra = if floor_index / 3 < 2 {
        (floor_index / 3) as u64
    } else {
        2
    };
    let ghost total = rooms_plan(tiles@, rng.state, width as int, height as int, floor_index);
    let room_count = 2 + rng.next_bounded(3 + extra) as u16;
    let mut rooms: Vec<Room> = Vec::new();
    let mut n: u16 = 0;
    assert(rooms@ =~= Seq::<Room>::empty());
    while n < room_count
        invariant
            total == rooms_from(RoomsRun { tiles: tiles@, rooms: rooms@, rng: rng.state }, n as int, room_count as int, width as int, height as int),
            tiles@.len() == width * height,
            width >= 20,
            height >= 12,
            forall|i: int| 0 <= i < rooms@.len() ==> room_inside(#[trigger] rooms@[i], width as int, height as int),
            forall|x: int, y: int|
                in_grid(width as int, height as int, x, y) && (x == 0 || y == 0 || x == width - 1
                    || y == height - 1) ==> tiles@[cell_index(width as int, x, y)] == t0[cell_index(
                    width as int,
                    x,
                    y,
                )],
        decreases room_count - n,
    {
        n = n + 1;
        let rw = 3 + rng.next_bounded(3) as u16;
        let rh = 3 + rng.next_bounded(2) as u16;
        let x_space = width.saturating_sub(rw + 3);
        let y_space = height.saturating_sub(rh + 3);
        if x_space == 0 || y_space == 0 {
            continue;
        }
        let mut attempt: u8 = 0;
        while attempt < 20
            invariant_except_break
                total == rooms_from(
                    attempts_from(RoomsRun { tiles: tiles@, rooms: rooms@, rng: rng.state }, attempt as int, rw as int, rh as int, x_space as u64, y_space as u64, width as int, height as int),
                    n as int,
                    room_count as int,
                    width as int,
                    height as int,
                ),
            invariant
                n <= room_count,
                tiles@.len() == width * height,
                width >= 20,
                height >= 12,
                3 <= rw <= 5,
                3 <= rh <= 4,
                x_space > 0 && y_space > 0,
                x_space as int == width - (rw + 3),
                y_space as int == height - (rh + 3),
                forall|i: int| 0 <= i < rooms@.len() ==> room_inside(#[trigger] rooms@[i], width as int, height as int),
                forall|x: int, y: int|
                    in_grid(width as int, height as int, x, y) && (x == 0 || y == 0 || x == width
                        - 1 || y == height - 1) ==> tiles@[cell_index(width as int, x, y)]
                        == t0[cell_index(width as int, x, y)],
            ensures
                total == rooms_from(RoomsRun { tiles: tiles@, rooms: rooms@, rng: rng.state }, n as int, room_count as int, width as int, height as int),
            decreases 20 - attempt,
        {
            attempt = attempt + 1;
            let rx = 2 + rng.next_bounded(x_space as u64) as u16;
            let ry = 2 + rng.next_bounded(y_space as u64) as u16;
            if rx + rw >= width - 1 || ry + rh >= height - 1 {
                continue;
            }
            let ghost fill = rect_rows(tiles@, width as int, rx as int, ry as int, rw as int, rh as int, 0);
            let ghost after = RoomsRun {
                tiles: fill,
                rooms: rooms@.push(Room { x: rx, y: ry, w: rw, h: rh, center: ((rx + rw / 2) as u16, (ry + rh / 2) as u16) }),
                rng: rng.state,
            };
            assert(total == rooms_from(after, n as int, room_count as int, width as int, height as int));
            let mut dy: u16 = 0;
            while dy < rh
                invariant
                    fill == rect_rows(tiles@, width as int, rx as int, ry as int, rw as int, rh as int, dy as int),
                    tiles@.len() == width * height,
                    2 <= rx && rx + rw < width - 1,
                    2 <= ry && ry + rh < height - 1,
                    dy <= rh,
                    forall|x: int, y: int|
                        in_grid(width as int, height as int, x, y) && (x == 0 || y == 0 || x
                            == width - 1 || y == height - 1) ==> tiles@[cell_index(width as int, x, y)]
                            == t0[cell_index(width as int, x, y)],
                decreases rh - dy,
            {
                let mut dx: u16 = 0;
                while dx < rw
                    invariant
                        fill == rect_rows(
                            rect_cols(tiles@, width as int, rx as int, ry as int, rw as int, dx as int, dy as int),
                            width as int,
                            rx as int,
                            ry as int,
                            rw as int,
                            rh as int,
                            dy + 1,
                        ),
                        tiles@.len() == width * height,
                        2 <= rx && rx + rw < width - 1,
                        2 <= ry && ry + rh < height - 1,
                        dy < rh,
                        dx <= rw,
                        forall|x: int, y: int|
                            in_grid(width as int, height as int, x, y) && (x == 0 || y == 0 || x
                                == width - 1 || y == height - 1) ==> tiles@[cell_index(
                                width as int,
                                x,
                                y,
                            )] == t0[cell_index(width as int, x, y)],
                    decreases rw - dx,
                {
                    set_interior(tiles, width, height, rx + dx, ry + dy, Tile::Floor);
                    dx = dx + 1;
                }
                dy = dy + 1;
            }
            rooms.push(Room { x: rx, y: ry, w: rw, h: rh, center: (rx + rw / 2, ry + rh / 2) });
            assert(tiles@ == fill);
            break;
        }
    }
    rooms
}

/// The chance in a hundred that a floor tile opens a wall next to it.
pub open spec fn widen_odds(floor_index: u32) -> u64 {
    (20 + if floor_index < 15 { floor_index as u64 } else { 15 }) as u64
}

/// Widening at `(x, y)`: a floor tile draws whether to open a wall, and if
/// so a side; a wall on that side, off the border, becomes floor.
pub open spec fn widen_cell(t: Seq<Tile>, rng: u64, width: int, height: int, chance: u64, x: int, y: int) -> (Seq<Tile>, u64) {
    if t[cell_index(width, x, y)] != Tile::Floor {
        (t, rng)
    } else {
        let (v, r1) = draw(rng, 100);
        if v >= chance {
            (t, r1)
        } else {
            let (d, r2) = draw(r1, 4);
            let (nx, ny) = if d == 0 {
                (x, y - 1)
            } else if d == 1 {
                (x, y + 1)
            } else if d == 2 {
                (x - 1, y)
            } else {
                (x + 1, y)
            };
            if !(nx == 0 || ny == 0 || nx >= width - 1 || ny >= height - 1) && t[cell_index(width, nx, ny)] == Tile::Wall {
                (t.update(cell_index(width, nx, ny), Tile::Floor), r2)
            } else {
                (t, r2)
            }
        }
    }
}

/// Widening along row `y` from column `x` on.
pub open spec fn widen_cols(t: Seq<Tile>, rng: u64, width: int, height: int, chance: u64, x: int, y: int) -> (Seq<Tile>, u64)
    decreases width - 2 - x,
{
    if x >= width - 2 {
        (t, rng)
    } else {
        let (t2, r2) = widen_cell(t, rng, width, height, chance, x, y);
        widen_cols(t2, r2, width, height, chance, x + 1, y)
    }
}

/// Widening of rows `y..height - 2`.
pub open spec fn widen_rows(t: Seq<Tile>, rng: u64, width: int, height: int, chance: u64, y: int) -> (Seq<Tile>, u64)
    decreases height - 2 - y,
{
    if y >= height - 2 {
        (t, rng)
    } else {
        let (t2, r2) = widen_cols(t, rng, width, height, chance, 2, y);
        widen_rows(t2, r2, width, height, chance, y + 1)
    }
}

/// Opens a wall next to some floor tiles, at seeded places.
fn widen_corridors(tiles: &mut Vec<Tile>, width: u16, height: u16, rng: &mut SeededRng, floor_index: u32)
    requires
        old(tiles)@.len() == width * height,
        width >= 20,
        height >= 12,
    ensures
        final(tiles)@.len() == old(tiles)@.len(),
        (final(tiles)@, final(rng).state) == widen_rows(old(tiles)@, old(rng).state, width as int, height as int, widen_odds(floor_index), 2),
        forall|x: int, y: int|
            in_grid(width as int, height as int, x, y) && (x == 0 || y == 0 || x == width - 1 || y
                == height - 1) ==> final(tiles)@[cell_index(width as int, x, y)] == old(
                tiles,
            )@[cell_index(width as int, x, y)],
{
    let ghost t0 = tiles@;
    let widen_chance: u64 = 20 + if floor_index < 15 {
        floor_index as u64
    } else {
        15
    };
    let ghost total = widen_rows(tiles@, rng.state, width as int, height as int, widen_odds(floor_index), 2);
    assert(widen_chance == widen_odds(floor_index));
    let mut y: u16 = 2;
    while y < height - 2
        invariant
            total == widen_rows(tiles@, rng.state, width as int, height as int, widen_chance, y as int),
            widen_chance == widen_odds(floor_index),
            tiles@.len() == width * height,
            width >= 20,
            height >= 12,
            2 <= y <= height - 2,
            forall|a: int, b: int|
                in_grid(width as int, height as int, a, b) && (a == 0 || b == 0 || a == width - 1
                    || b == height - 1) ==> tiles@[cell_index(width as int, a, b)] == t0[cell_index(
                    width as int,
                    a,
                    b,
                )],
        decreases height - 2 - y,
    {
        let mut x: u16 = 2;
        while x < width - 2
            invariant
                total == widen_rows(
                    widen_cols(tiles@, rng.state, width as int, height as int, widen_chance, x as int, y as int).0,
                    widen_cols(tiles@, rng.state, width as int, height as int, widen_chance, x as int, y as int).1,
                    width as int,
                    height as int,
                    widen_chance,
                    y + 1,
                ),
                tiles@.len() == width * height,
                width >= 20,
                height >= 12,
                2 <= y < height - 2,
                2 <= x <= width - 2,
                forall|a: int, b: int|
                    in_grid(width as int, height as int, a, b) && (a == 0 || b == 0 || a == width
                        - 1 || b == height - 1) ==> tiles@[cell_index(width as int, a, b)]
                        == t0[cell_index(width as int, a, b)],
            decreases width - 2 - x,
        {
            let idx = grid_index(width, height, x, y);
            let ghost step = widen_cell(tiles@, rng.state, width as int, height as int, widen_chance, x as int, y as int);
            assert(widen_cols(tiles@, rng.state, width as int, height as int, widen_chance, x as int, y as int)
                == widen_cols(step.0, step.1, width as int, height as int, widen_chance, x + 1, y as int));
            if tiles[idx] == Tile::Floor && rng.next_bounded(100) < widen_chance {
                let dir_idx = rng.next_bounded(4);
                let (nx, ny): (u16, u16) = if dir_idx == 0 {
                    (x, y - 1)
                } else if dir_idx == 1 {
                    (x, y + 1)
                } else if dir_idx == 2 {
                    (x - 1, y)
                } else {
                    (x + 1, y)
                };
                if !(nx == 0 || ny == 0 || nx >= width - 1 || ny >= height - 1) {
                    let nidx = grid_index(width, height, nx, ny);
                    if tiles[nidx] == Tile::Wall {
                        set_interior(tiles, width, height, nx, ny, Tile::Floor);
                    }
                }
            }
            assert(tiles@ == step.0 && rng.state == step.1);
            x = x + 1;
        }
        y = y + 1;
    }
}

/// Drops `k..count` of water into `room`, each at a drawn tile inside it.
pub open spec fn water_drops(t: Seq<Tile>, rng: u64, width: int, room: Room, k: int, count: int) -> (Seq<Tile>, u64)
    decreases count - k,
{
    if k >= count {
        (t, rng)
    } else {
        let (a, s1) = draw(rng, (room.w - 2) as u64);
        let (b, s2) = draw(s1, (room.h - 2) as u64);
        water_drops(t.update(cell_index(width, room.x + 1 + a, room.y + 1 + b), Tile::Water), s2, width, room, k + 1, count)
    }
}

/// Water in rooms `i..`: two rooms in three draw one to three drops.
pub open spec fn water_rooms(t: Seq<Tile>, rng: u64, width: int, rooms: Seq<Room>, i: int) -> (Seq<Tile>, u64)
    decreases rooms.len() - i,
{
    if i >= rooms.len() || i < 0 {
        (t, rng)
    } else {
        let (c, r1) = draw(rng, 3);
        if c == 0 {
            water_rooms(t, r1, width, rooms, i + 1)
        } else {
            let (n, r2) = draw(r1, 3);
            let (t2, r3) = water_drops(t, r2, width, rooms[i], 0, 1 + n);
            water_rooms(t2, r3, width, rooms, i + 1)
        }
    }
}

/// Turns a few tiles inside some rooms into water.
fn add_water_patches(tiles: &mut Vec<Tile>, width: u16, height: u16, rooms: &Vec<Room>, rng: &mut SeededRng)
    requires
        old(tiles)@.len() == width * height,
        forall|i: int| 0 <= i < rooms@.len() ==> room_inside(#[trigger] rooms@[i], width as int, height as int),
    ensures
        final(tiles)@.len() == old(tiles)@.len(),
        (final(tiles)@, final(rng).state) == water_rooms(old(tiles)@, old(rng).state, width as int, rooms@, 0),
        forall|x: int, y: int|
            in_grid(width as int, height as int, x, y) && (x == 0 || y == 0 || x == width - 1 || y
                == height - 1) ==> final(tiles)@[cell_index(width as int, x, y)] == old(
                tiles,
            )@[cell_index(width as int, x, y)],
{
    let ghost t0 = tiles@;
    let ghost total = water_rooms(tiles@, rng.state, width as int, rooms@, 0);
    let mut i: usize = 0;
    while i < rooms.len()
        invariant
            total == water_rooms(tiles@, rng.state, width as int, rooms@, i as int),
            tiles@.len() == width * height,
            i <= rooms@.len(),
            forall|k: int| 0 <= k < rooms@.len() ==> room_inside(#[trigger] rooms@[k], width as int, height as int),
            forall|a: int, b: int|
                in_grid(width as int, height as int, a, b) && (a == 0 || b == 0 || a == width - 1
                    || b == height - 1) ==> tiles@[cell_index(width as int, a, b)] == t0[cell_index(
                    width as int,
                    a,
                    b,
                )],
        decreases rooms.len() - i,
    {
        let room = rooms[i];
        assert(room_inside(rooms@[i as int], width as int, height as int));
        i = i + 1;
        if rng.next_bounded(3) == 0 {
            continue;
        }
        let water_count = 1 + rng.next_bounded(3) as u16;
        let mut k: u16 = 0;
        while k < water_count
            invariant
                total == water_rooms(
                    water_drops(tiles@, rng.state, width as int, room, k as int, water_count as int).0,
                    water_drops(tiles@, rng.state, width as int, room, k as int, water_count as int).1,
                    width as int,
                    rooms@,
                    i as int,
                ),
                1 <= i <= rooms@.len(),
                room == rooms@[i - 1],
                tiles@.len() == width * height,
                room_inside(room, width as int, height as int),
                forall|a: int, b: int|
                    in_grid(width as int, height as int, a, b) && (a == 0 || b == 0 || a == width
                        - 1 || b == height - 1) ==> tiles@[cell_index(width as int, a, b)]
                        == t0[cell_index(width as int, a, b)],
            decreases water_count - k,
        {
            k = k + 1;
            let w_space = (room.w - 2) as u64;
            let h_space = (room.h - 2) as u64;
            let wx = room.x + 1 + rng.next_bounded(w_space) as u16;
            let wy = room.y + 1 + rng.next_bounded(h_space) as u16;
            set_interior(tiles, width, height, wx, wy, Tile::Water);
        }
    }
}

/// The number of open walls around cell `(cx, cy)`.
pub open spec fn open_count(right: Seq<bool>, down: Seq<bool>, cw: int, ch: int, cx: int, cy: int) -> int {
    (if cx > 0 && right[cell_index(cw, cx - 1, cy)] { 1int } else { 0int })
        + (if cx + 1 < cw && right[cell_index(cw, cx, cy)] { 1int } else { 0int })
        + (if cy > 0 && down[cell_index(cw, cx, cy - 1)] { 1int } else { 0int })
        + (if cy + 1 < ch && down[cell_index(cw, cx, cy)] { 1int } else { 0int })
}

/// `acc` followed by the dead ends of row `cy` from column `cx` to `max_cx`.
pub open spec fn dead_cols(acc: Seq<(u16, u16)>, right: Seq<bool>, down: Seq<bool>, cw: int, ch: int, cx: int, cy: int, max_cx: int) -> Seq<(u16, u16)>
    decreases max_cx - cx,
{
    if cx >= max_cx {
        acc
    } else {
        let acc2 = if open_count(right, down, cw, ch, cx, cy) == 1 { acc.push((cx as u16, cy as u16)) } else { acc };
        dead_cols(acc2, right, down, cw, ch, cx + 1, cy, max_cx)
    }
}

/// `acc` followed by the dead ends of rows `cy..max_cy`, columns
/// `min_cx..max_cx`, row by row.
pub open spec fn dead_rows(acc: Seq<(u16, u16)>, right: Seq<bool>, down: Seq<bool>, cw: int, ch: int, min_cx: int, max_cx: int, cy: int, max_cy: int) -> Seq<(u16, u16)>
    decreases max_cy - cy,
{
    if cy >= max_cy {
        acc
    } else {
        dead_rows(dead_cols(acc, right, down, cw, ch, min_cx, cy, max_cx), right, down, cw, ch, min_cx, max_cx, cy + 1, max_cy)
    }
}

/// A dead end of the region drawn at random, with the generator state
/// after; none (and no draw) where the region has none.
pub open spec fn dead_end_pick(right: Seq<bool>, down: Seq<bool>, cw: int, ch: int, min_cx: int, min_cy: int, max_cx: int, max_cy: int, rng: u64) -> (Option<(u16, u16)>, u64) {
    let ds = dead_rows(seq![], right, down, cw, ch, min_cx, max_cx, min_cy, max_cy);
    if ds.len() == 0 {
        (None, rng)
    } else {
        let (p, r1) = draw(rng, ds.len() as u64);
        (Some(ds[p as int]), r1)
    }
}

/// A cell of the region drawn at random and clamped into the maze, with
/// the generator state after.
pub open spec fn any_cell_pick(cw: int, ch: int, min_cx: u16, min_cy: u16, max_cx: u16, max_cy: u16, rng: u64) -> ((u16, u16), u64) {
    let w: u64 = if max_cx > min_cx { (max_cx - min_cx) as u64 } else { 1 };
    let h: u64 = if max_cy > min_cy { (max_cy - min_cy) as u64 } else { 1 };
    let (rx, r1) = draw(rng, w);
    let (ry, r2) = draw(r1, h);
    let cx = if min_cx + rx > u16::MAX { u16::MAX as int } else { min_cx + rx };
    let cy = if min_cy + ry > u16::MAX { u16::MAX as int } else { min_cy + ry };
    let cx = if cx < cw - 1 { cx } else { cw - 1 };
    let cy = if cy < ch - 1 { cy } else { ch - 1 };
    ((cx as u16, cy as u16), r2)
}

/// The tile of a region's cell: a drawn dead end, else a drawn cell.
pub open spec fn region_pick(right: Seq<bool>, down: Seq<bool>, cw: int, ch: int, min_cx: u16, min_cy: u16, max_cx: u16, max_cy: u16, rng: u64) -> ((u16, u16), u64) {
    let (d, r1) = dead_end_pick(right, down, cw, ch, min_cx as int, min_cy as int, max_cx as int, max_cy as int, rng);
    let (c, r2) = match d {
        Some(c) => (c, r1),
        None => any_cell_pick(cw, ch, min_cx, min_cy, max_cx, max_cy, r1),
    };
    (((1 + c.0 * 2) as u16, (1 + c.1 * 2) as u16), r2)
}

/// A dead end (a cell with exactly one open wall) inside the region, picked
/// at random; `None` when the region holds none.
fn find_dead_end_in_region(
    grid: &MazeGrid,
    min_cx: u16,
    min_cy: u16,
    max_cx: u16,
    max_cy: u16,
    rng: &mut SeededRng,
) -> (r: Option<(u16, u16)>)
    requires
        grid.wf(),
        max_cx <= grid.cell_w,
        max_cy <= grid.cell_h,
    ensures
        r matches Some(c) ==> min_cx <= c.0 < max_cx && min_cy <= c.1 < max_cy,
        (r, final(rng).state) == dead_end_pick(grid.right_open@, grid.down_open@, grid.cell_w as int, grid.cell_h as int, min_cx as int, min_cy as int, max_cx as int, max_cy as int, old(rng).state),
{
    let ghost total = dead_rows(seq![], grid.right_open@, grid.down_open@, grid.cell_w as int, grid.cell_h as int, min_cx as int, max_cx as int, min_cy as int, max_cy as int);
    let mut dead_ends: Vec<(u16, u16)> = Vec::new();
    assert(dead_ends@ =~= Seq::<(u16, u16)>::empty());
    let mut cy = min_cy;
    while cy < max_cy
        invariant
            total == dead_rows(dead_ends@, grid.right_open@, grid.down_open@, grid.cell_w as int, grid.cell_h as int, min_cx as int, max_cx as int, cy as int, max_cy as int),
            grid.wf(),
            max_cx <= grid.cell_w,
            max_cy <= grid.cell_h,
            min_cy <= cy || cy >= max_cy,
            forall|k: int|
                0 <= k < dead_ends@.len() ==> min_cx <= (#[trigger] dead_ends@[k]).0 < max_cx
                    && min_cy <= dead_ends@[k].1 < max_cy,
        decreases max_cy - cy,
    {
        let mut cx = min_cx;
        while cx < max_cx
            invariant
                total == dead_rows(
                    dead_cols(dead_ends@, grid.right_open@, grid.down_open@, grid.cell_w as int, grid.cell_h as int, cx as int, cy as int, max_cx as int),
                    grid.right_open@,
                    grid.down_open@,
                    grid.cell_w as int,
                    grid.cell_h as int,
                    min_cx as int,
                    max_cx as int,
                    cy + 1,
                    max_cy as int,
                ),
                grid.wf(),
                max_cx <= grid.cell_w,
                max_cy <= grid.cell_h,
                min_cy <= cy < max_cy,
                min_cx <= cx,
                forall|k: int|
                    0 <= k < dead_ends@.len() ==> min_cx <= (#[trigger] dead_ends@[k]).0 < max_cx
                        && min_cy <= dead_ends@[k].1 < max_cy,
            decreases max_cx - cx,
        {
            if grid.open_wall_count(cx, cy) == 1 {
                dead_ends.push((cx, cy));
            }
            cx = cx + 1;
        }
        cy = cy + 1;
    }
    if dead_ends.len() == 0 {
        return None;
    }
    let pick = rng.next_bounded(dead_ends.len() as u64) as usize;
    Some(dead_ends[pick])
}

/// A random cell of the region, clamped into the maze.
fn find_any_cell_in_region(
    grid: &MazeGrid,
    min_cx: u16,
    min_cy: u16,
    max_cx: u16,
    max_cy: u16,
    rng: &mut SeededRng,
) -> (c: (u16, u16))
    requires
        grid.cell_w >= 1,
        grid.cell_h >= 1,
    ensures
        c.0 < grid.cell_w,
        c.1 < grid.cell_h,
        (c, final(rng).state) == any_cell_pick(grid.cell_w as int, grid.cell_h as int, min_cx, min_cy, max_cx, max_cy, old(rng).state),
{
    let w = if max_cx > min_cx {
        max_cx - min_cx
    } else {
        1
    };
    let h = if max_cy > min_cy {
        max_cy - min_cy
    } else {
        1
    };
    let rx = rng.next_bounded(w as u64) as u16;
    let ry = rng.next_bounded(h as u64) as u16;
    let cx = min_cx.saturating_add(rx);
    let cy = min_cy.saturating_add(ry);
    let cx = if cx < grid.cell_w - 1 {
        cx
    } else {
        grid.cell_w - 1
    };
    let cy = if cy < grid.cell_h - 1 {
        cy
    } else {
        grid.cell_h - 1
    };
    (cx, cy)
}

/// A tile inside the map, off its border.
pub open spec fn interior(p: (u16, u16), width: int, height: int) -> bool {
    1 <= p.0 < width - 1 && 1 <= p.1 < height - 1
}

/// Tile of a maze cell chosen from a region: a dead end when there is one,
/// else any cell.
fn region_tile(
    grid: &MazeGrid,
    min_cx: u16,
    min_cy: u16,
    max_cx: u16,
    max_cy: u16,
    rng: &mut SeededRng,
    width: u16,
    height: u16,
) -> (t: (u16, u16))
    requires
        grid.wf(),
        grid.cell_w >= 1,
        grid.cell_h >= 1,
        max_cx <= grid.cell_w,
        max_cy <= grid.cell_h,
        2 * grid.cell_w + 1 <= width,
        2 * grid.cell_h + 1 <= height,
    ensures
        interior(t, width as int, height as int),
        (t, final(rng).state) == region_pick(grid.right_open@, grid.down_open@, grid.cell_w as int, grid.cell_h as int, min_cx, min_cy, max_cx, max_cy, old(rng).state),
{
    let c = match find_dead_end_in_region(grid, min_cx, min_cy, max_cx, max_cy, rng) {
        Some(c) => c,
        None => find_any_cell_in_region(grid, min_cx, min_cy, max_cx, max_cy, rng),
    };
    maze_cell_to_tile(c.0, c.1)
}

/// Start, exit, beacon, relic and switch tiles as drawn: start in the
/// top-left quarter, exit in the bottom-right one; beacon, relic and switch
/// at the centres of the first three rooms, else at the middle cell and at
/// drawn cells of the top-right and bottom-left quarters.
pub open spec fn anchors_plan(right: Seq<bool>, down: Seq<bool>, cw: u16, ch: u16, rooms: Seq<Room>, rng: u64) -> (Seq<(u16, u16)>, u64) {
    let hw = cw / 2;
    let hh = ch / 2;
    let (start, r1) = region_pick(right, down, cw as int, ch as int, 0, 0, hw, hh, rng);
    let (exit, r2) = region_pick(right, down, cw as int, ch as int, hw, hh, cw, ch, r1);
    let beacon = if rooms.len() > 0 { rooms[0].center } else { ((1 + hw * 2) as u16, (1 + hh * 2) as u16) };
    let (relic, r3) = if rooms.len() > 1 {
        (rooms[1].center, r2)
    } else {
        region_pick(right, down, cw as int, ch as int, hw, 0, cw, hh, r2)
    };
    let (switch, r4) = if rooms.len() > 2 {
        (rooms[2].center, r3)
    } else {
        region_pick(right, down, cw as int, ch as int, 0, hh, hw, ch, r3)
    };
    (seq![start, exit, beacon, relic, switch], r4)
}

/// Start, exit, beacon, relic and switch positions.
fn place_anchors(grid: &MazeGrid, rooms: &Vec<Room>, rng: &mut SeededRng, width: u16, height: u16) -> (r: [(u16, u16); 5])
    requires
        grid.wf(),
        grid.cell_w >= 1,
        grid.cell_h >= 1,
        2 * grid.cell_w + 1 <= width,
        2 * grid.cell_h + 1 <= height,
        forall|i: int| 0 <= i < rooms@.len() ==> room_inside(#[trigger] rooms@[i], width as int, height as int),
    ensures
        forall|i: int| 0 <= i < 5 ==> interior(#[trigger] r@[i], width as int, height as int),
        (r@, final(rng).state) == anchors_plan(grid.right_open@, grid.down_open@, grid.cell_w, grid.cell_h, rooms@, old(rng).state),
{
    let half_w = grid.cell_w / 2;
    let half_h = grid.cell_h / 2;
    let player_start = region_tile(grid, 0, 0, half_w, half_h, rng, width, height);
    let exit = region_tile(grid, half_w, half_h, grid.cell_w, grid.cell_h, rng, width, height);
    let beacon = if rooms.len() > 0 {
        assert(room_inside(rooms@[0], width as int, height as int));
        rooms[0].center
    } else {
        maze_cell_to_tile(half_w, half_h)
    };
    let relic = if rooms.len() > 1 {
        assert(room_inside(rooms@[1], width as int, height as int));
        rooms[1].center
    } else {
        region_tile(grid, half_w, 0, grid.cell_w, half_h, rng, width, height)
    };
    let switch = if rooms.len() > 2 {
        assert(room_inside(rooms@[2], width as int, height as int));
        rooms[2].center
    } else {
        region_tile(grid, 0, half_h, half_w, grid.cell_h, rng, width, height)
    };
    let r = [player_start, exit, beacon, relic, switch];
    assert(r@ =~= seq![player_start, exit, beacon, relic, switch]);
    r
}

/// Tiles the connectivity check lets a path run through.
pub open spec fn path_tile(t: Tile) -> bool {
    t is Floor || t is Trail || t is Water
}

/// Row-major mask of `path_tile` over a tile list.
pub open spec fn path_mask(tiles: Seq<Tile>) -> Seq<bool> {
    Seq::new(tiles.len(), |i: int| path_tile(tiles[i]))
}

/// Whether `end` can be reached from `start` through floor, trail and water.
fn validate_connectivity(tiles: &Vec<Tile>, width: u16, height: u16, start: (u16, u16), end: (u16, u16)) -> (ok: bool)
    requires
        tiles@.len() == width * height,
        start.0 < width && start.1 < height,
        end.0 < width && end.1 < height,
    ensures
        ok == reachable(
            width as int,
            height as int,
            path_mask(tiles@),
            (start.0 as int, start.1 as int),
            end.0 as int,
            end.1 as int,
        ),
{
    let mut mask: Vec<bool> = Vec::new();
    let mut i: usize = 0;
    while i < tiles.len()
        invariant
            i <= tiles@.len(),
            mask@ == path_mask(tiles@).subrange(0, i as int),
        decreases tiles.len() - i,
    {
        let t = tiles[i];
        let p = match t {
            Tile::Floor | Tile::Trail | Tile::Water => true,
            _ => false,
        };
        mask.push(p);
        assert(mask@ =~= path_mask(tiles@).subrange(0, i + 1));
        i = i + 1;
    }
    assert(mask@ =~= path_mask(tiles@));
    let visited = reachable_mask(width, height, &mask, start);
    let idx = grid_index(width, height, end.0, end.1);
    visited[idx]
}

/// Byte code of a tile, for fingerprinting.
pub open spec fn tile_code(t: Tile) -> u8 {
    match t {
        Tile::Floor => 0,
        Tile::Wall => 1,
        Tile::Water => 2,
        Tile::Trail => 3,
        Tile::Grass => 4,
    }
}

/// Bytes a floor's fingerprint hashes: width and height (little endian)
/// followed by one code per tile.
pub open spec fn floor_bytes(width: u16, height: u16, tiles: Seq<Tile>) -> Seq<u8> {
    seq![(width % 256) as u8, (width / 256) as u8, (height % 256) as u8, (height / 256) as u8]
        + Seq::new(tiles.len(), |i: int| tile_code(tiles[i]))
}

fn floor_fingerprint(width: u16, height: u16, tiles: &Vec<Tile>) -> (s: String)
    ensures
        s@ == hex_lower(spec_sha256(floor_bytes(width, height, tiles@))),
{
    let mut bytes: Vec<u8> = Vec::new();
    bytes.push((width % 256) as u8);
    bytes.push((width / 256) as u8);
    bytes.push((height % 256) as u8);
    bytes.push((height / 256) as u8);
    let mut i: usize = 0;
    while i < tiles.len()
        invariant
            i <= tiles@.len(),
            bytes@ == floor_bytes(width, height, tiles@).subrange(0, 4 + i),
        decreases tiles.len() - i,
    {
        let code: u8 = match tiles[i] {
            Tile::Floor => 0,
            Tile::Wall => 1,
            Tile::Water => 2,
            Tile::Trail => 3,
            Tile::Grass => 4,
        };
        bytes.push(code);
        assert(bytes@ =~= floor_bytes(width, height, tiles@).subrange(0, 4 + i + 1));
        i = i + 1;
    }
    assert(bytes@ =~= floor_bytes(width, height, tiles@));
    sha256_hex(bytes.as_slice())
}

pub struct LightlineGenerator;

/// Kinds of the anchors a generated floor carries, in order.
pub open spec fn anchor_kind_order(i: int) -> RuntimeAnchorKind {
    if i == 0 {
        RuntimeAnchorKind::PlayerStart
    } else if i == 1 {
        RuntimeAnchorKind::Exit
    } else if i == 2 {
        RuntimeAnchorKind::Beacon
    } else if i == 3 {
        RuntimeAnchorKind::Relic
    } else {
        RuntimeAnchorKind::Switch
    }
}

/// A generated floor map of the requested size: walled border, five anchors
/// (start, exit, beacon, relic, switch) on trail tiles inside it, and a path
/// of floor, trail or water from the start to the exit.
pub open spec fn valid_floor(map: MapState, anchors: Seq<RuntimeAnchor>, width: u16, height: u16) -> bool {
    &&& map.width == width && map.height == height && map.wf()
    &&& forall|x: int|
        0 <= x < width ==> #[trigger] map.tile_at(x, 0) == Tile::Wall && map.tile_at(
            x,
            height - 1,
        ) == Tile::Wall
    &&& forall|y: int|
        0 <= y < height ==> #[trigger] map.tile_at(0, y) == Tile::Wall && map.tile_at(
            width - 1,
            y,
        ) == Tile::Wall
    &&& anchors.len() == 5
    &&& forall|i: int|
        0 <= i < 5 ==> (#[trigger] anchors[i]).kind == anchor_kind_order(i) && interior(
            (anchors[i].x, anchors[i].y),
            width as int,
            height as int,
        ) && map.tile_at(anchors[i].x as int, anchors[i].y as int) == Tile::Trail
            && anchors[i].tag is None
    &&& reachable(
        width as int,
        height as int,
        path_mask(map.tiles@),
        (anchors[0].x as int, anchors[0].y as int),
        anchors[1].x as int,
        anchors[1].y as int,
    )
}

/// Name of a generated floor.
pub open spec fn floor_name(floor_index: u32) -> Seq<char> {
    "Lightline Floor "@ + dec(floor_index as nat + 1)
}

impl LightlineGenerator {
    pub fn id(&self) -> (s: &'static str)
        ensures
            s@ == "lightline-floor"@,
    {
        proof {
            reveal_strlit("lightline-floor");
        }
        "lightline-floor"
    }

    pub fn version(&self) -> (v: u32)
        ensures
            v == 2,
    {
        2
    }

    /// Generates the floor map and its anchors from a seed. Sizes under
    /// 20 by 12 are refused; a floor whose exit cannot be reached from its
    /// start is refused too.
    pub fn generate(&self, seed: u64, params: FloorGenParams, width: u16, height: u16) -> (r: Result<
        (MapState, Vec<RuntimeAnchor>),
        GenError,
    >)
        ensures
            (width < 20 || height < 12) <==> r matches Err(GenError::InvalidSize),
            width >= 20 && height >= 12 ==> (r is Ok <==> floor_connected(seed, params.floor_index, width, height)),
            width >= 20 && height >= 12 && !floor_connected(seed, params.floor_index, width, height) ==> (r matches Err(
                GenError::Internal(e),
            ) && e@ == "no path from start to exit"@),
            r matches Ok((map, anchors)) ==> valid_floor(map, anchors@, width, height)
                && map.name@ == floor_name(params.floor_index),
            r matches Ok((map, anchors)) ==> map.tiles@ == floor_plan(seed, params.floor_index, width, height).0
                && forall|i: int| 0 <= i < 5 ==> ((#[trigger] anchors@[i]).x, anchors@[i].y) == floor_plan(seed, params.floor_index, width, height).1[i],
    {
        if width < 20 || height < 12 {
            return Err(GenError::InvalidSize);
        }
        let mut rng = SeededRng::new(seed ^ ((params.floor_index as u64) << 32u64));
        let cell_w = (width - 1) / 2;
        let cell_h = (height - 1) / 2;
        let ghost plan = floor_plan(seed, params.floor_index, width, height);
        let mut maze = MazeGrid::new(cell_w, cell_h);
        proof {
            let fresh = Seq::new((cell_w * cell_h) as nat, |i: int| false);
            assert(maze.right_open@ =~= fresh);
            assert(maze.down_open@ =~= fresh);
            assert(maze.visited@ =~= fresh);
        }
        carve_maze(&mut maze, &mut rng);

        let n = grid_cells(width, height);
        let mut tiles: Vec<Tile> = Vec::new();
        let mut i: usize = 0;
        while i < n
            invariant
                n == width * height,
                i <= n,
                tiles@.len() == i,
                forall|k: int| 0 <= k < i ==> tiles@[k] == Tile::Wall,
            decreases n - i,
        {
            tiles.push(Tile::Wall);
            i = i + 1;
        }
        assert(tiles@ =~= Seq::new((width * height) as nat, |i: int| Tile::Wall));
        maze_to_tiles(&maze, &mut tiles, width, height);
        let rooms = carve_rooms(&mut tiles, width, height, &mut rng, params.floor_index);
        widen_corridors(&mut tiles, width, height, &mut rng, params.floor_index);
        add_water_patches(&mut tiles, width, height, &rooms, &mut rng);

        // Wall in the border.
        let ghost t4 = tiles@;
        let mut x: u16 = 0;
        while x < width
            invariant
                wall_rows(t4, width as int, height as int, 0) == wall_rows(tiles@, width as int, height as int, x as int),
                tiles@.len() == width * height,
                width >= 20,
                height >= 12,
                x <= width,
                forall|a: int|
                    0 <= a < x ==> tiles@[cell_index(width as int, a, 0)] == Tile::Wall
                        && tiles@[cell_index(width as int, a, height - 1)] == Tile::Wall,
            decreases width - x,
        {
            let top = grid_index(width, height, x, 0);
            let bottom = grid_index(width, height, x, height - 1);
            tiles.set(top, Tile::Wall);
            tiles.set(bottom, Tile::Wall);
            proof {
                assert forall|a: int| 0 <= a < x + 1 implies tiles@[cell_index(width as int, a, 0)]
                    == Tile::Wall && tiles@[cell_index(width as int, a, height - 1)] == Tile::Wall by {
                    lemma_cell_index(width as int, height as int, a, 0);
                    lemma_cell_index(width as int, height as int, a, height - 1);
                    if a != x {
                        if cell_index(width as int, a, 0) == bottom as int {
                            crate::lightline::state::lemma_cell_index_injective(width as int, a, 0, x as int, height - 1);
                        }
                        if cell_index(width as int, a, height - 1) == top as int {
                            crate::lightline::state::lemma_cell_index_injective(width as int, a, height - 1, x as int, 0);
                        }
                    }
                }
            }
            x = x + 1;
        }
        let ghost t5 = tiles@;
        let mut y: u16 = 0;
        while y < height
            invariant
                wall_cols(t5, width as int, height as int, 0) == wall_cols(tiles@, width as int, height as int, y as int),
                tiles@.len() == width * height,
                width >= 20,
                height >= 12,
                y <= height,
                forall|a: int|
                    0 <= a < width ==> tiles@[cell_index(width as int, a, 0)] == Tile::Wall
                        && tiles@[cell_index(width as int, a, height - 1)] == Tile::Wall,
                forall|b: int|
                    0 <= b < y ==> tiles@[cell_index(width as int, 0, b)] == Tile::Wall
                        && tiles@[cell_index(width as int, width - 1, b)] == Tile::Wall,
            decreases height - y,
        {
            let left = grid_index(width, height, 0, y);
            let right = grid_index(width, height, width - 1, y);
            tiles.set(left, Tile::Wall);
            tiles.set(right, Tile::Wall);
            proof {
                assert forall|a: int| 0 <= a < width implies tiles@[cell_index(width as int, a, 0)]
                    == Tile::Wall && tiles@[cell_index(width as int, a, height - 1)] == Tile::Wall by {
                    lemma_cell_index(width as int, height as int, a, 0);
                    lemma_cell_index(width as int, height as int, a, height - 1);
                }
                assert forall|b: int| 0 <= b < y + 1 implies tiles@[cell_index(width as int, 0, b)]
                    == Tile::Wall && tiles@[cell_index(width as int, width - 1, b)] == Tile::Wall by {
                    lemma_cell_index(width as int, height as int, 0, b);
                    lemma_cell_index(width as int, height as int, width - 1, b);
                    if b != y {
                        if cell_index(width as int, 0, b) == right as int {
                            crate::lightline::state::lemma_cell_index_injective(width as int, 0, b, width - 1, y as int);
                        }
                        if cell_index(width as int, width - 1, b) == left as int {
                            crate::lightline::state::lemma_cell_index_injective(width as int, width - 1, b, 0, y as int);
                        }
                    }
                }
            }
            y = y + 1;
        }

        let spots = place_anchors(&maze, &rooms, &mut rng, width, height);
        let ghost t6 = tiles@;
        proof {
            assert(t5 == wall_rows(t4, width as int, height as int, 0));
            assert(spots@ == plan.1);
            assert(t6 == wall_cols(wall_rows(t4, width as int, height as int, 0), width as int, height as int, 0));
        }
        let mut k: usize = 0;
        while k < 5
            invariant
                trail_marks(t6, width as int, spots@, 0) == trail_marks(tiles@, width as int, spots@, k as int),
                tiles@.len() == width * height,
                width >= 20,
                height >= 12,
                k <= 5,
                forall|i: int| 0 <= i < 5 ==> interior(#[trigger] spots@[i], width as int, height as int),
                forall|a: int|
                    0 <= a < width ==> tiles@[cell_index(width as int, a, 0)] == Tile::Wall
                        && tiles@[cell_index(width as int, a, height - 1)] == Tile::Wall,
                forall|b: int|
                    0 <= b < height ==> tiles@[cell_index(width as int, 0, b)] == Tile::Wall
                        && tiles@[cell_index(width as int, width - 1, b)] == Tile::Wall,
                forall|i: int|
                    0 <= i < k ==> tiles@[cell_index(width as int, spots@[i].0 as int, spots@[i].1 as int)]
                        == Tile::Trail,
            decreases 5 - k,
        {
            let (sx, sy) = spots[k];
            assert(interior(spots@[k as int], width as int, height as int));
            let ghost before = tiles@;
            set_interior(&mut tiles, width, height, sx, sy, Tile::Trail);
            proof {
                assert forall|b: int| 0 <= b < height implies tiles@[cell_index(width as int, 0, b)]
                    == Tile::Wall && tiles@[cell_index(width as int, width - 1, b)] == Tile::Wall by {
                    assert(in_grid(width as int, height as int, 0, b));
                    assert(in_grid(width as int, height as int, width - 1, b));
                    assert(before[cell_index(width as int, 0, b)] == Tile::Wall);
                    assert(before[cell_index(width as int, width - 1, b)] == Tile::Wall);
                }
                assert forall|a: int| 0 <= a < width implies tiles@[cell_index(width as int, a, 0)]
                    == Tile::Wall && tiles@[cell_index(width as int, a, height - 1)] == Tile::Wall by {
                    assert(in_grid(width as int, height as int, a, 0));
                    assert(in_grid(width as int, height as int, a, height - 1));
                    assert(before[cell_index(width as int, a, 0)] == Tile::Wall);
                    assert(before[cell_index(width as int, a, height - 1)] == Tile::Wall);
                }
                assert forall|i: int| 0 <= i < k + 1 implies tiles@[cell_index(
                    width as int,
                    spots@[i].0 as int,
                    spots@[i].1 as int,
                )] == Tile::Trail by {
                    assert(interior(spots@[i], width as int, height as int));
                    lemma_cell_index(width as int, height as int, spots@[i].0 as int, spots@[i].1 as int);
                    lemma_cell_index(width as int, height as int, sx as int, sy as int);
                    if i < k {
                        assert(before[cell_index(width as int, spots@[i].0 as int, spots@[i].1 as int)] == Tile::Trail);
                    }
                    if i < k && spots@[i] != spots@[k as int] {
                        if cell_index(width as int, spots@[i].0 as int, spots@[i].1 as int)
                            == cell_index(width as int, sx as int, sy as int) {
                            crate::lightline::state::lemma_cell_index_injective(
                                width as int,
                                spots@[i].0 as int,
                                spots@[i].1 as int,
                                sx as int,
                                sy as int,
                            );
                        }
                    }
                }
            }
            k = k + 1;
        }

        assert(tiles@ == plan.0);
        let (sx, sy) = spots[0];
        let (ex, ey) = spots[1];
        if !validate_connectivity(&tiles, width, height, (sx, sy), (ex, ey)) {
            return Err(GenError::Internal(owned("no path from start to exit")));
        }

        let mut name = owned("Lightline Floor ");
        let num = dec_u64(params.floor_index as u64 + 1);
        push_str(&mut name, num.as_str());
        proof {
            reveal_strlit("Lightline Floor ");
        }
        let map = MapState { name, width, height, tiles };
        let mut anchors: Vec<RuntimeAnchor> = Vec::new();
        anchors.push(RuntimeAnchor { kind: RuntimeAnchorKind::PlayerStart, x: spots[0].0, y: spots[0].1, tag: None });
        anchors.push(RuntimeAnchor { kind: RuntimeAnchorKind::Exit, x: spots[1].0, y: spots[1].1, tag: None });
        anchors.push(RuntimeAnchor { kind: RuntimeAnchorKind::Beacon, x: spots[2].0, y: spots[2].1, tag: None });
        anchors.push(RuntimeAnchor { kind: RuntimeAnchorKind::Relic, x: spots[3].0, y: spots[3].1, tag: None });
        anchors.push(RuntimeAnchor { kind: RuntimeAnchorKind::Switch, x: spots[4].0, y: spots[4].1, tag: None });
        proof {
            assert forall|x: int| 0 <= x < width implies #[trigger] map.tile_at(x, 0) == Tile::Wall
                && map.tile_at(x, height - 1) == Tile::Wall by {
                lemma_cell_index(width as int, height as int, x, 0);
                lemma_cell_index(width as int, height as int, x, height - 1);
            }
            assert forall|y: int| 0 <= y < height implies #[trigger] map.tile_at(0, y) == Tile::Wall
                && map.tile_at(width - 1, y) == Tile::Wall by {
                lemma_cell_index(width as int, height as int, 0, y);
                lemma_cell_index(width as int, height as int, width - 1, y);
            }
            assert forall|i: int| 0 <= i < 5 implies (#[trigger] anchors@[i]).kind == anchor_kind_order(i)
                && interior((anchors@[i].x, anchors@[i].y), width as int, height as int)
                && map.tile_at(anchors@[i].x as int, anchors@[i].y as int) == Tile::Trail
                && anchors@[i].tag is None by {
                assert(interior(spots@[i], width as int, height as int));
                lemma_cell_index(width as int, height as int, spots@[i].0 as int, spots@[i].1 as int);
            }
        }
        Ok((map, anchors))
    }
}

/// Seed a floor is generated from, derived from the run seed.
pub open spec fn floor_seed(run_seed: u64, floor_index: u32) -> u64 {
    mix64_spec(run_seed ^ ((floor_index as u64) << 1u64))
}

/// Generates floor `floor_index` of the run seeded `run_seed`.
pub fn generate_floor(run_seed: u64, floor_index: u32, width: u16, height: u16) -> (r: Result<
    GeneratedFloor,
    GenError,
>)
    ensures
        (width < 20 || height < 12) <==> r matches Err(GenError::InvalidSize),
        width >= 20 && height >= 12 ==> (r is Ok <==> floor_connected(floor_seed(run_seed, floor_index), floor_index, width, height)),
        width >= 20 && height >= 12 && !floor_connected(floor_seed(run_seed, floor_index), floor_index, width, height)
            ==> (r matches Err(GenError::Internal(e)) && e@ == "no path from start to exit"@),
        r matches Ok(f) ==> {
            &&& f.map.tiles@ == floor_plan(floor_seed(run_seed, floor_index), floor_index, width, height).0
            &&& forall|i: int| 0 <= i < 5 ==> ((#[trigger] f.anchors@[i]).x, f.anchors@[i].y) == floor_plan(floor_seed(run_seed, floor_index), floor_index, width, height).1[i]
            &&& valid_floor(f.map, f.anchors@, width, height)
            &&& f.map.name@ == floor_name(floor_index)
            &&& f.danger_mode == danger_mode_spec(run_seed, floor_index)
            &&& f.generator_id@ == "lightline-floor"@
            &&& f.generator_version == 2
            &&& f.seed == floor_seed(run_seed, floor_index)
            &&& f.fingerprint@ == hex_lower(spec_sha256(floor_bytes(width, height, f.map.tiles@)))
        },
{
    let generator = LightlineGenerator;
    let danger_mode = choose_danger_mode(run_seed, floor_index);
    let seed = mix64(run_seed ^ ((floor_index as u64) << 1u64));
    let params = FloorGenParams { floor_index, danger_mode };
    match generator.generate(seed, params, width, height) {
        Err(e) => Err(e),
        Ok((map, anchors)) => {
            let fingerprint = floor_fingerprint(map.width, map.height, &map.tiles);
            Ok(
                GeneratedFloor {
                    map,
                    anchors,
                    danger_mode,
                    generator_id: owned(generator.id()),
                    generator_version: generator.version(),
                    seed,
                    fingerprint,
                },
            )
        },
    }
}

} // verus!
