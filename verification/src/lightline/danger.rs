//! The two dangers a floor can hold: a collapse that starts after a number
//! of steps, and a hunter that walks toward the player.
use vstd::prelude::*;
use crate::lightline::state::{MapState, TrailState, TrailView};

verus! {

#[derive(Clone, Copy, Debug, PartialEq, Eq, Structural)]
pub enum CollapsePhase {
    Dormant,
    Warning,
    Active,
}

/// Rank of a phase in the order a collapse goes through them.
pub open spec fn phase_rank(p: CollapsePhase) -> int {
    match p {
        CollapsePhase::Dormant => 0,
        CollapsePhase::Warning => 1,
        CollapsePhase::Active => 2,
    }
}

#[derive(Clone, Debug)]
pub struct CollapseState {
    pub phase: CollapsePhase,
    pub trigger_step: u32,
    pub warning_steps_left: u8,
    pub frontier: Vec<(u16, u16)>,
}

/// The collapse after one more step of its warning countdown, and whether
/// this step made it active.
pub open spec fn tick_warning_spec(s: CollapseState) -> (CollapseState, bool) {
    if s.phase != CollapsePhase::Warning {
        (s, false)
    } else {
        let left = if s.warning_steps_left > 0 {
            (s.warning_steps_left - 1) as u8
        } else {
            0u8
        };
        if left == 0 {
            (CollapseState { phase: CollapsePhase::Active, warning_steps_left: left, ..s }, true)
        } else {
            (CollapseState { warning_steps_left: left, ..s }, false)
        }
    }
}

/// The collapse after the player has taken `steps_taken` steps, and whether
/// its warning started now.
pub open spec fn start_warning_spec(s: CollapseState, steps_taken: u32) -> (CollapseState, bool) {
    if s.phase == CollapsePhase::Dormant && steps_taken >= s.trigger_step {
        (CollapseState { phase: CollapsePhase::Warning, ..s }, true)
    } else {
        (s, false)
    }
}

/// The collapse after `n` countdown steps.
pub open spec fn tick_warning_n(s: CollapseState, n: nat) -> CollapseState
    decreases n,
{
    if n == 0 {
        s
    } else {
        tick_warning_n(tick_warning_spec(s).0, (n - 1) as nat)
    }
}

impl CollapseState {
    pub fn new(trigger_step: u32, warning_steps: u8) -> (s: CollapseState)
        ensures
            s.phase == CollapsePhase::Dormant,
            s.trigger_step == trigger_step,
            s.warning_steps_left == warning_steps,
            s.frontier@.len() == 0,
    {
        CollapseState {
            phase: CollapsePhase::Dormant,
            trigger_step,
            warning_steps_left: warning_steps,
            frontier: Vec::new(),
        }
    }

    /// Starts the warning once enough steps have been taken.
    pub fn maybe_start_warning(&mut self, steps_taken: u32) -> (started: bool)
        ensures
            (*final(self), started) == start_warning_spec(*old(self), steps_taken),
    {
        if self.phase == CollapsePhase::Dormant && steps_taken >= self.trigger_step {
            self.phase = CollapsePhase::Warning;
            return true;
        }
        false
    }

    /// Counts one warning step down; reports whether the collapse became active.
    pub fn tick_warning(&mut self) -> (activated: bool)
        ensures
            (*final(self), activated) == tick_warning_spec(*old(self)),
    {
        if self.phase != CollapsePhase::Warning {
            return false;
        }
        if self.warning_steps_left > 0 {
            self.warning_steps_left = self.warning_steps_left - 1;
        }
        if self.warning_steps_left == 0 {
            self.phase = CollapsePhase::Active;
            return true;
        }
        false
    }

    /// Removes the trail charge at `(x, y)` and returns it.
    pub fn cut_trail_at(&self, trail: &mut TrailState, x: u16, y: u16) -> (amount: u16)
        requires
            old(trail).wf(),
        ensures
            final(trail).wf(),
            amount == old(trail)@.charge(x as int, y as int),
            final(trail)@ == old(trail)@.taken(x as int, y as int),
    {
        trail.take(x, y)
    }
}

/// A collapse never moves back to an earlier phase.
pub proof fn law_collapse_phase_monotone(s: CollapseState, steps_taken: u32)
    ensures
        phase_rank(s.phase) <= phase_rank(start_warning_spec(s, steps_taken).0.phase),
        phase_rank(s.phase) <= phase_rank(tick_warning_spec(s).0.phase),
{
}

/// A warning with `n >= 1` steps left turns active after exactly `n` ticks:
/// the first `n - 1` ticks report nothing and the `n`-th reports activation.
pub proof fn law_warning_counts_down(s: CollapseState)
    requires
        s.phase == CollapsePhase::Warning,
        s.warning_steps_left >= 1,
    ensures
        tick_warning_n(s, s.warning_steps_left as nat).phase == CollapsePhase::Active,
        forall|k: nat|
            k + 1 < s.warning_steps_left ==> !(#[trigger] tick_warning_spec(tick_warning_n(s, k))).1,
        tick_warning_spec(tick_warning_n(s, (s.warning_steps_left - 1) as nat)).1,
    decreases s.warning_steps_left,
{
    lemma_tick_n_countdown(s, (s.warning_steps_left - 1) as nat);
    lemma_tick_n_split(s, (s.warning_steps_left - 1) as nat);
    assert forall|k: nat| k + 1 < s.warning_steps_left implies !(#[trigger] tick_warning_spec(
        tick_warning_n(s, k),
    )).1 by {
        lemma_tick_n_countdown(s, k);
    }
}

proof fn lemma_tick_n_countdown(s: CollapseState, k: nat)
    requires
        s.phase == CollapsePhase::Warning,
        k < s.warning_steps_left,
    ensures
        tick_warning_n(s, k).phase == CollapsePhase::Warning,
        tick_warning_n(s, k).warning_steps_left == s.warning_steps_left - k,
    decreases k,
{
    if k > 0 {
        let t = tick_warning_spec(s).0;
        lemma_tick_n_countdown(t, (k - 1) as nat);
    }
}

proof fn lemma_tick_n_split(s: CollapseState, k: nat)
    ensures
        tick_warning_n(s, k + 1) == tick_warning_spec(tick_warning_n(s, k)).0,
    decreases k,
{
    if k > 0 {
        lemma_tick_n_split(tick_warning_spec(s).0, (k - 1) as nat);
        assert(tick_warning_n(s, k) == tick_warning_n(tick_warning_spec(s).0, (k - 1) as nat));
        assert(tick_warning_n(s, k + 1) == tick_warning_n(tick_warning_spec(s).0, k));
    } else {
        assert(tick_warning_n(s, 0) == s);
        assert(tick_warning_n(s, 1) == tick_warning_n(tick_warning_spec(s).0, 0));
    }
}

#[derive(Clone, Debug, PartialEq, Eq, Structural)]
pub struct HunterState {
    pub x: u16,
    pub y: u16,
    pub step_interval: u8,
    pub step_cooldown: u8,
    pub hearing_radius: u16,
}

impl HunterState {
    pub fn new(x: u16, y: u16) -> (h: HunterState)
        ensures
            h == (HunterState { x, y, step_interval: 2, step_cooldown: 0, hearing_radius: 8 }),
    {
        HunterState { x, y, step_interval: 2, step_cooldown: 0, hearing_radius: 8 }
    }
}

/// Counts the hunter's cooldown down; it may step when the cooldown is zero,
/// which re-arms it to `step_interval - 1`.
pub fn ready_to_advance(state: &mut HunterState) -> (ready: bool)
    ensures
        ready == (old(state).step_cooldown == 0),
        final(state).step_cooldown == if ready {
            old(state).step_interval.saturating_sub(1)
        } else {
            (old(state).step_cooldown - 1) as u8
        },
        final(state).x == old(state).x,
        final(state).y == old(state).y,
        final(state).step_interval == old(state).step_interval,
        final(state).hearing_radius == old(state).hearing_radius,
{
    if state.step_cooldown == 0 {
        state.step_cooldown = state.step_interval.saturating_sub(1);
        true
    } else {
        state.step_cooldown = state.step_cooldown.saturating_sub(1);
        false
    }
}

pub open spec fn abs_diff(a: int, b: int) -> int {
    if a >= b {
        a - b
    } else {
        b - a
    }
}

/// Manhattan distance between two cells.
pub open spec fn manhattan_spec(x0: int, y0: int, x1: int, y1: int) -> int {
    abs_diff(x0, x1) + abs_diff(y0, y1)
}

fn manhattan(x0: u16, y0: u16, x1: u16, y1: u16) -> (d: u32)
    ensures
        d == manhattan_spec(x0 as int, y0 as int, x1 as int, y1 as int),
{
    let dx = if x0 >= x1 {
        x0 - x1
    } else {
        x1 - x0
    };
    let dy = if y0 >= y1 {
        y0 - y1
    } else {
        y1 - y0
    };
    dx as u32 + dy as u32
}

/// The four cells next to `(x, y)`, in the order up, down, left, right;
/// coordinates saturate at the edges of the `u16` range.
pub open spec fn hunter_candidates(x: u16, y: u16) -> Seq<(u16, u16)> {
    seq![
        (x, y.saturating_sub(1)),
        (x, y.saturating_add(1)),
        (x.saturating_sub(1), y),
        (x.saturating_add(1), y),
    ]
}

/// Candidate `i` comes before candidate `j` when the candidates are ordered by
/// distance to the target, ties kept in their listed order.
pub open spec fn candidate_before(c: Seq<(u16, u16)>, target: (u16, u16), i: int, j: int) -> bool {
    let di = manhattan_spec(c[i].0 as int, c[i].1 as int, target.0 as int, target.1 as int);
    let dj = manhattan_spec(c[j].0 as int, c[j].1 as int, target.0 as int, target.1 as int);
    di < dj || (di == dj && i < j)
}

/// Candidate `i` is the first walkable one when the candidates are taken
/// nearest to the target first (stable for ties).
pub open spec fn is_chosen_step(c: Seq<(u16, u16)>, target: (u16, u16), map: MapState, i: int) -> bool {
    &&& 0 <= i < c.len()
    &&& map.walkable_at(c[i].0 as int, c[i].1 as int)
    &&& forall|j: int|
        0 <= j < c.len() && j != i && map.walkable_at(c[j].0 as int, c[j].1 as int)
            ==> candidate_before(c, target, i, j)
}

/// Moves the hunter one cell toward `target`: among the four neighbouring
/// cells, ordered by distance to the target (ties in up, down, left, right
/// order), it takes the first walkable one; with none walkable it stays.
pub fn advance_toward(state: &mut HunterState, target: (u16, u16), map: &MapState)
    ensures
        final(state).step_interval == old(state).step_interval,
        final(state).step_cooldown == old(state).step_cooldown,
        final(state).hearing_radius == old(state).hearing_radius,
        ({
            let c = hunter_candidates(old(state).x, old(state).y);
            (exists|i: int| is_chosen_step(c, target, *map, i) && (final(state).x, final(state).y)
                == c[i]) || ((forall|j: int|
                0 <= j < 4 ==> !map.walkable_at(c[j].0 as int, c[j].1 as int))
                && final(state).x == old(state).x && final(state).y == old(state).y)
        }),
{
    let ghost c = hunter_candidates(state.x, state.y);
    let cand: [(u16, u16); 4] = [
        (state.x, state.y.saturating_sub(1)),
        (state.x, state.y.saturating_add(1)),
        (state.x.saturating_sub(1), state.y),
        (state.x.saturating_add(1), state.y),
    ];
    assert(cand@ =~= c);
    let mut best: Option<usize> = None;
    let mut best_d: u32 = 0;
    let mut i: usize = 0;
    while i < 4
        invariant
            cand@ == c,
            c.len() == 4,
            i <= 4,
            best is None ==> forall|j: int|
                0 <= j < i ==> !map.walkable_at(c[j].0 as int, c[j].1 as int),
            best matches Some(b) ==> b < i,
            best matches Some(b) ==> map.walkable_at(c[b as int].0 as int, c[b as int].1 as int),
            best matches Some(b) ==> best_d == manhattan_spec(
                c[b as int].0 as int,
                c[b as int].1 as int,
                target.0 as int,
                target.1 as int,
            ),
            best matches Some(b) ==> forall|j: int|
                0 <= j < i && j != b && map.walkable_at(c[j].0 as int, c[j].1 as int)
                    ==> candidate_before(c, target, b as int, j),
        decreases 4 - i,
    {
        let (cx, cy) = cand[i];
        assert((cx, cy) == c[i as int]);
        let w = map.is_walkable(cx, cy);
        if !w {
            assert(!map.walkable_at(c[i as int].0 as int, c[i as int].1 as int));
        }
        if w {
            let d = manhattan(cx, cy, target.0, target.1);
            match best {
                None => {
                    best = Some(i);
                    best_d = d;
                },
                Some(b) => {
                    if d < best_d {
                        assert forall|j: int|
                            0 <= j < i + 1 && j != i && map.walkable_at(
                                c[j].0 as int,
                                c[j].1 as int,
                            ) implies candidate_before(c, target, i as int, j) by {
                            if j != b {
                                assert(candidate_before(c, target, b as int, j));
                            }
                        }
                        best = Some(i);
                        best_d = d;
                    } else {
                        assert(candidate_before(c, target, b as int, i as int));
                    }
                },
            }
        }
        i = i + 1;
    }
    match best {
        Some(b) => {
            let (nx, ny) = cand[b];
            state.x = nx;
            state.y = ny;
            assert(is_chosen_step(c, target, *map, b as int));
        },
        None => {},
    }
}

/// Steps between two cells moving along rows and columns only:
/// `|x0 - x1| + |y0 - y1|`.
pub open spec fn taxicab(x0: int, y0: int, x1: int, y1: int) -> int {
    (if x0 >= x1 { x0 - x1 } else { x1 - x0 }) + (if y0 >= y1 { y0 - y1 } else { y1 - y0 })
}

/// The hunter closes in on its target, counting distance as steps along
/// rows and columns: it ends on a walkable neighbour no farther from the
/// target than any other walkable neighbour, so whenever some walkable
/// neighbour is strictly nearer the target than the hunter's cell, the
/// hunter's new cell is strictly nearer too. (`ox, oy` is the hunter's cell
/// before `advance_toward`, `nx, ny` after it, as its contract relates them.)
pub proof fn law_hunter_closes_in(ox: u16, oy: u16, nx: u16, ny: u16, target: (u16, u16), map: MapState)
    requires
        ({
            let c = hunter_candidates(ox, oy);
            (exists|i: int| is_chosen_step(c, target, map, i) && (nx, ny) == c[i]) || ((forall|j: int|
                0 <= j < 4 ==> !map.walkable_at(c[j].0 as int, c[j].1 as int)) && nx == ox && ny == oy)
        }),
    ensures
        forall|j: int|
            0 <= j < 4 && map.walkable_at(
                #[trigger] hunter_candidates(ox, oy)[j].0 as int,
                hunter_candidates(ox, oy)[j].1 as int,
            ) ==> taxicab(nx as int, ny as int, target.0 as int, target.1 as int) <= taxicab(
                hunter_candidates(ox, oy)[j].0 as int,
                hunter_candidates(ox, oy)[j].1 as int,
                target.0 as int,
                target.1 as int,
            ),
        (exists|j: int|
            0 <= j < 4 && map.walkable_at(
                #[trigger] hunter_candidates(ox, oy)[j].0 as int,
                hunter_candidates(ox, oy)[j].1 as int,
            ) && taxicab(
                hunter_candidates(ox, oy)[j].0 as int,
                hunter_candidates(ox, oy)[j].1 as int,
                target.0 as int,
                target.1 as int,
            ) < taxicab(ox as int, oy as int, target.0 as int, target.1 as int))
            ==> taxicab(nx as int, ny as int, target.0 as int, target.1 as int) < taxicab(
            ox as int,
            oy as int,
            target.0 as int,
            target.1 as int,
        ),
{
    let c = hunter_candidates(ox, oy);
    assert forall|j: int|
        0 <= j < 4 && map.walkable_at(#[trigger] c[j].0 as int, c[j].1 as int) implies taxicab(
        nx as int,
        ny as int,
        target.0 as int,
        target.1 as int,
    ) <= taxicab(c[j].0 as int, c[j].1 as int, target.0 as int, target.1 as int) by {
        let i = choose|i: int| is_chosen_step(c, target, map, i) && (nx, ny) == c[i];
        if j != i {
            assert(candidate_before(c, target, i, j));
        }
    }
}

} // verus!
