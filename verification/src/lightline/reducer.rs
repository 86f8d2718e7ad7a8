//! How a Lightline run reacts to each action: moving lays and spends light,
//! moves that would cut the lantern trail off from the start are refused,
//! and reaching the exit descends to the next floor.
use vstd::prelude::*;
use crate::lightline::action::{Action, Effect};
use crate::lightline::grid::{in_grid, reachable, reachable_mask};
use crate::lightline::state::{
    cell_index, dec_u64_pub, find_anchor, grid_index, lemma_cell_index, AppState, Direction,
    GameMode, MapState, RuntimeAnchor, RuntimeAnchorKind, TrailState, TrailView,
};
use crate::outcome::Outcome;
use crate::text::{dec, owned, push_str};

verus! {

pub const BASE_WIDTH: u16 = 36;
pub const BASE_HEIGHT: u16 = 24;
pub const MAX_WIDTH: u16 = 64;
pub const MAX_HEIGHT: u16 = 40;
pub const STEP_BURN: u16 = 1;
pub const LIT_STEP_BURN: u16 = 0;
pub const TRAIL_DEPOSIT_AMOUNT: u16 = 1;
pub const START_LIGHT: u16 = 120;
pub const LIGHT_DECAY_EVERY: u32 = 3;
pub const LIGHT_DECAY_AMOUNT: u16 = 3;
pub const MIN_START_LIGHT: u16 = 75;

/// Floor size for a floor index: grows by two in each direction every
/// second floor, up to the maximum size.
pub open spec fn floor_dimensions_spec(floor_index: u32) -> (u16, u16) {
    let growth = (floor_index / 2) as int;
    (
        (if BASE_WIDTH + 2 * growth < MAX_WIDTH {
            BASE_WIDTH + 2 * growth
        } else {
            MAX_WIDTH as int
        }) as u16,
        (if BASE_HEIGHT + 2 * growth < MAX_HEIGHT {
            BASE_HEIGHT + 2 * growth
        } else {
            MAX_HEIGHT as int
        }) as u16,
    )
}

/// Starting light for a floor: 120, three less every third floor, never
/// below 75.
pub open spec fn light_budget_spec(floor_index: u32) -> u16 {
    let decay = (floor_index / LIGHT_DECAY_EVERY) as int * LIGHT_DECAY_AMOUNT;
    if START_LIGHT - decay > MIN_START_LIGHT {
        (START_LIGHT - decay) as u16
    } else {
        MIN_START_LIGHT
    }
}

pub fn floor_dimensions(floor_index: u32) -> (d: (u16, u16))
    ensures
        d == floor_dimensions_spec(floor_index),
{
    let growth = floor_index / 2;
    let w = if growth < 14 {
        BASE_WIDTH + 2 * (growth as u16)
    } else {
        MAX_WIDTH
    };
    let h = if growth < 8 {
        BASE_HEIGHT + 2 * (growth as u16)
    } else {
        MAX_HEIGHT
    };
    (w, h)
}

pub fn light_budget_for_floor(floor_index: u32) -> (l: u16)
    ensures
        l == light_budget_spec(floor_index),
        MIN_START_LIGHT <= l <= START_LIGHT,
{
    let decay_steps = floor_index / LIGHT_DECAY_EVERY;
    if decay_steps >= 15 {
        MIN_START_LIGHT
    } else {
        let l = START_LIGHT - (decay_steps as u16) * LIGHT_DECAY_AMOUNT;
        if l > MIN_START_LIGHT {
            l
        } else {
            MIN_START_LIGHT
        }
    }
}

/// The effect asking for floor `floor_index` of the run seeded `seed`.
pub open spec fn generate_floor_effect_spec(floor_index: u32, seed: u64) -> Effect {
    Effect::GenerateFloor {
        floor_index,
        seed,
        width: floor_dimensions_spec(floor_index).0,
        height: floor_dimensions_spec(floor_index).1,
    }
}

pub fn generate_floor_effect(floor_index: u32, seed: u64) -> (e: Effect)
    ensures
        e == generate_floor_effect_spec(floor_index, seed),
{
    let (width, height) = floor_dimensions(floor_index);
    Effect::GenerateFloor { floor_index, seed, width, height }
}

/// Some anchor of kind `kind` stands on `(x, y)`.
pub open spec fn anchor_at(anchors: Seq<RuntimeAnchor>, kind: RuntimeAnchorKind, x: u16, y: u16) -> bool {
    exists|i: int| 0 <= i < anchors.len() && anchors[i].kind == kind && anchors[i].x == x && anchors[i].y == y
}

pub fn is_anchor(state: &AppState, kind: RuntimeAnchorKind, x: u16, y: u16) -> (b: bool)
    ensures
        b == anchor_at(state.anchors@, kind, x, y),
{
    let mut i: usize = 0;
    while i < state.anchors.len()
        invariant
            i <= state.anchors@.len(),
            forall|j: int|
                0 <= j < i ==> !(state.anchors@[j].kind == kind && state.anchors@[j].x == x
                    && state.anchors@[j].y == y),
        decreases state.anchors.len() - i,
    {
        let a = &state.anchors[i];
        if a.kind == kind && a.x == x && a.y == y {
            return true;
        }
        i = i + 1;
    }
    false
}

pub fn set_game_over(state: &mut AppState, message: &str)
    ensures
        *final(state) == (AppState {
            mode: GameMode::GameOver,
            last_status: final(state).last_status,
            ..*old(state)
        }),
        final(state).last_status matches Some(s) && s@ == message@,
{
    state.mode = GameMode::GameOver;
    state.last_status = Some(owned(message));
}

/// Where a step from `(x, y)` in `dir` lands; coordinates saturate at the
/// edges of the `u16` range.
pub open spec fn step_target(x: u16, y: u16, dir: Direction) -> (u16, u16) {
    match dir {
        Direction::Up => (x, y.saturating_sub(1)),
        Direction::Down => (x, y.saturating_add(1)),
        Direction::Left => (x.saturating_sub(1), y),
        Direction::Right => (x.saturating_add(1), y),
    }
}

/// Whether `(x, y)` holds light once the player has moved off `curr`:
/// the current cell is lit exactly when `curr_lit`, others keep their charge.
pub open spec fn lit_after_move(t: TrailView, curr: (u16, u16), curr_lit: bool, x: int, y: int) -> bool {
    if x == curr.0 && y == curr.1 {
        curr_lit
    } else {
        t.charge(x, y) > 0
    }
}

/// Cells the lightline may run through after the move: walkable cells that
/// are lit, plus the destination.
pub open spec fn line_cell(
    map: MapState,
    t: TrailView,
    curr: (u16, u16),
    curr_lit: bool,
    next: (u16, u16),
    x: int,
    y: int,
) -> bool {
    map.walkable_at(x, y) && ((x == next.0 && y == next.1) || lit_after_move(t, curr, curr_lit, x, y))
}

/// Row-major mask of `line_cell` over the map.
pub open spec fn line_mask(
    map: MapState,
    t: TrailView,
    curr: (u16, u16),
    curr_lit: bool,
    next: (u16, u16),
) -> Seq<bool> {
    Seq::new(
        (map.width * map.height) as nat,
        |i: int| line_cell(map, t, curr, curr_lit, next, i % (map.width as int), i / (map.width as int)),
    )
}

/// Where the lightline starts: the start anchor, or the current cell when
/// the floor has none.
pub open spec fn line_start(anchors: Seq<RuntimeAnchor>, curr: (u16, u16)) -> (u16, u16) {
    match find_anchor(anchors, RuntimeAnchorKind::PlayerStart) {
        Some(p) => p,
        None => curr,
    }
}

/// The move from `curr` to `next` keeps the lightline whole: start and
/// destination are walkable, the destination is reachable from the start
/// through lit cells, and so is every cell that stays lit.
pub open spec fn lightline_ok(
    map: MapState,
    t: TrailView,
    anchors: Seq<RuntimeAnchor>,
    curr: (u16, u16),
    next: (u16, u16),
    curr_lit: bool,
) -> bool {
    let start = line_start(anchors, curr);
    let w = map.width as int;
    let h = map.height as int;
    let mask = line_mask(map, t, curr, curr_lit, next);
    let st = (start.0 as int, start.1 as int);
    &&& map.walkable_at(start.0 as int, start.1 as int)
    &&& map.walkable_at(next.0 as int, next.1 as int)
    &&& reachable(w, h, mask, st, next.0 as int, next.1 as int)
    &&& forall|x: int, y: int|
        in_grid(w, h, x, y) && lit_after_move(t, curr, curr_lit, x, y) ==> #[trigger] reachable(
            w,
            h,
            mask,
            st,
            x,
            y,
        )
}

proof fn lemma_div_mod_cell(w: int, h: int, x: int, y: int)
    requires
        0 <= x < w,
        0 <= y < h,
    ensures
        cell_index(w, x, y) % w == x,
        cell_index(w, x, y) / w == y,
{
    vstd::arithmetic::div_mod::lemma_fundamental_div_mod_converse(cell_index(w, x, y), w, y, x);
}

fn trail_has_charge_after_move(
    trail: &TrailState,
    curr: (u16, u16),
    curr_has_charge_after_move: bool,
    x: u16,
    y: u16,
) -> (b: bool)
    requires
        trail.wf(),
    ensures
        b == lit_after_move(trail@, curr, curr_has_charge_after_move, x as int, y as int),
{
    if x == curr.0 && y == curr.1 {
        return curr_has_charge_after_move;
    }
    trail.charge_at(x, y) > 0
}

/// Decides whether moving from `curr` to `next` keeps every lit cell, and
/// the destination, connected to the start through lit cells.
fn lightline_preserved_after_move(
    state: &AppState,
    curr: (u16, u16),
    next: (u16, u16),
    curr_has_charge_after_move: bool,
) -> (ok: bool)
    requires
        state.trail.wf(),
    ensures
        ok == lightline_ok(state.map, state.trail@, state.anchors@, curr, next, curr_has_charge_after_move),
{
    let start = match state.anchor_pos(RuntimeAnchorKind::PlayerStart) {
        Some(p) => p,
        None => curr,
    };
    if !state.map.is_walkable(start.0, start.1) || !state.map.is_walkable(next.0, next.1) {
        return false;
    }
    let width = state.map.width;
    let height = state.map.height;
    let ghost w = width as int;
    let ghost h = height as int;
    let ghost mask_spec = line_mask(state.map, state.trail@, curr, curr_has_charge_after_move, next);
    // Build the passability mask row by row.
    let mut mask: Vec<bool> = Vec::new();
    let mut y: u16 = 0;
    while y < height
        invariant
            width == state.map.width,
            height == state.map.height,
            w == width as int,
            h == height as int,
            state.trail.wf(),
            mask_spec == line_mask(state.map, state.trail@, curr, curr_has_charge_after_move, next),
            y <= height,
            mask@.len() == y * w,
            forall|k: int| 0 <= k < mask@.len() ==> mask@[k] == mask_spec[k],
        decreases height - y,
    {
        let mut x: u16 = 0;
        while x < width
            invariant
                width == state.map.width,
                height == state.map.height,
                w == width as int,
                h == height as int,
                state.trail.wf(),
                mask_spec == line_mask(state.map, state.trail@, curr, curr_has_charge_after_move, next),
                y < height,
                x <= width,
                mask@.len() == y * w + x,
                forall|k: int| 0 <= k < mask@.len() ==> mask@[k] == mask_spec[k],
            decreases width - x,
        {
            let walk = state.map.is_walkable(x, y);
            let is_next = x == next.0 && y == next.1;
            let lit = trail_has_charge_after_move(&state.trail, curr, curr_has_charge_after_move, x, y);
            let cell = walk && (is_next || lit);
            proof {
                lemma_div_mod_cell(w, h, x as int, y as int);
                lemma_cell_index(w, h, x as int, y as int);
                assert(mask_spec[cell_index(w, x as int, y as int)] == cell);
            }
            mask.push(cell);
            x = x + 1;
        }
        proof {
            assert((y + 1) * w == y * w + w) by (nonlinear_arith);
        }
        y = y + 1;
    }
    proof {
        assert(y * w == w * h) by (nonlinear_arith)
            requires
                y == h,
        ;
        assert(mask@ =~= mask_spec);
    }
    assert(start == line_start(state.anchors@, curr));
    let visited = reachable_mask(width, height, &mask, start);
    let ghost st = (start.0 as int, start.1 as int);
    let next_idx = grid_index(width, height, next.0, next.1);
    if !visited[next_idx] {
        return false;
    }
    let mut yy: u16 = 0;
    while yy < height
        invariant
            width == state.map.width,
            height == state.map.height,
            w == width as int,
            h == height as int,
            state.trail.wf(),
            mask@ == line_mask(state.map, state.trail@, curr, curr_has_charge_after_move, next),
            st == (start.0 as int, start.1 as int),
            start == line_start(state.anchors@, curr),
            visited@.len() == w * h,
            forall|x: int, y: int|
                in_grid(w, h, x, y) ==> (#[trigger] visited@[cell_index(w, x, y)] == reachable(
                    w,
                    h,
                    mask@,
                    st,
                    x,
                    y,
                )),
            yy <= height,
            forall|x: int, y: int|
                in_grid(w, h, x, y) && y < yy && lit_after_move(
                    state.trail@,
                    curr,
                    curr_has_charge_after_move,
                    x,
                    y,
                ) ==> #[trigger] reachable(w, h, mask@, st, x, y),
        decreases height - yy,
    {
        let mut xx: u16 = 0;
        while xx < width
            invariant
                width == state.map.width,
                height == state.map.height,
                w == width as int,
                h == height as int,
                state.trail.wf(),
                st == (start.0 as int, start.1 as int),
                start == line_start(state.anchors@, curr),
                mask@ == line_mask(state.map, state.trail@, curr, curr_has_charge_after_move, next),
                visited@.len() == w * h,
                forall|x: int, y: int|
                    in_grid(w, h, x, y) ==> (#[trigger] visited@[cell_index(w, x, y)] == reachable(
                        w,
                        h,
                        mask@,
                        st,
                        x,
                        y,
                    )),
                yy < height,
                xx <= width,
                forall|x: int, y: int|
                    in_grid(w, h, x, y) && (y < yy || (y == yy && x < xx)) && lit_after_move(
                        state.trail@,
                        curr,
                        curr_has_charge_after_move,
                        x,
                        y,
                    ) ==> #[trigger] reachable(w, h, mask@, st, x, y),
            decreases width - xx,
        {
            if trail_has_charge_after_move(&state.trail, curr, curr_has_charge_after_move, xx, yy) {
                let idx = grid_index(width, height, xx, yy);
                if !visited[idx] {
                    assert(!reachable(w, h, mask@, st, xx as int, yy as int));
                    assert(in_grid(w, h, xx as int, yy as int));
                    assert(lit_after_move(
                        state.trail@,
                        curr,
                        curr_has_charge_after_move,
                        xx as int,
                        yy as int,
                    ));
                    assert(line_start(state.anchors@, curr) == start);
                    return false;
                }
            }
            xx = xx + 1;
        }
        yy = yy + 1;
    }
    true
}

/// Status line after a normal step.
pub open spec fn steps_status(steps: u32) -> Seq<char> {
    "Steps: "@ + dec(steps as nat)
}

/// Status line after descending.
pub open spec fn descend_status(floor_index: u32) -> Seq<char> {
    "Descended to floor "@ + dec(floor_index as nat + 1)
}

/// State and outcome of a move attempt, field by field.
pub open spec fn move_post(
    pre: AppState,
    post: AppState,
    dir: Direction,
    collect: bool,
    r: Outcome<Effect>,
) -> bool {
    let curr = (pre.player.x, pre.player.y);
    let next = step_target(pre.player.x, pre.player.y, dir);
    let t = pre.trail@;
    if pre.mode != GameMode::Exploration || next == curr {
        post == pre && !r.changed && r.effects@.len() == 0
    } else if !pre.map.walkable_at(next.0 as int, next.1 as int) {
        &&& post == (AppState { last_status: post.last_status, ..pre })
        &&& post.last_status matches Some(s) && s@ == "Blocked path."@
        &&& !r.changed && r.effects@.len() == 0
    } else if !lightline_ok(pre.map, t, pre.anchors@, curr, next, !collect) {
        &&& post == (AppState { last_status: post.last_status, ..pre })
        &&& post.last_status matches Some(s) && s@
            == "Illegal move: would break the lightline to start."@
        &&& !r.changed && r.effects@.len() == 0
    } else {
        let had = t.charge(curr.0 as int, curr.1 as int) > 0;
        let reclaimed: u16 = if collect && had {
            t.charge(curr.0 as int, curr.1 as int)
        } else {
            0
        };
        let t1 = if collect && had {
            t.taken(curr.0 as int, curr.1 as int)
        } else {
            t
        };
        let t2 = if !collect && t1.charge(curr.0 as int, curr.1 as int) == 0 {
            t1.deposit(curr.0 as int, curr.1 as int, TRAIL_DEPOSIT_AMOUNT)
        } else {
            t1
        };
        let burn = if t2.charge(next.0 as int, next.1 as int) > 0 {
            LIT_STEP_BURN
        } else {
            STEP_BURN
        };
        let sum = pre.player.light_current.saturating_sub(burn).saturating_add(reclaimed);
        let light = if sum < pre.player.light_max {
            sum
        } else {
            pre.player.light_max
        };
        let steps = pre.player.steps.saturating_add(1);
        &&& post.trail.wf()
        &&& post.trail@ == t2
        &&& post.player.x == next.0 && post.player.y == next.1
        &&& post.player.light_current == light
        &&& post.player.light_max == pre.player.light_max
        &&& post.player.steps == steps
        &&& post.map == pre.map
        &&& post.anchors == pre.anchors
        &&& post.seed == pre.seed
        &&& post.danger_mode == pre.danger_mode
        &&& r.changed
        &&& if light == 0 {
            &&& post.mode == GameMode::GameOver
            &&& post.floor_index == pre.floor_index
            &&& post.last_status matches Some(s) && s@ == "Your lantern goes dark."@
            &&& r.effects@.len() == 0
        } else if anchor_at(pre.anchors@, RuntimeAnchorKind::Exit, next.0, next.1) {
            let f = pre.floor_index.saturating_add(1);
            &&& post.floor_index == f
            &&& post.mode == GameMode::Boot
            &&& post.last_status matches Some(s) && s@ == descend_status(f)
            &&& r.effects@ == seq![generate_floor_effect_spec(f, pre.seed)]
        } else {
            &&& post.mode == pre.mode
            &&& post.floor_index == pre.floor_index
            &&& post.last_status matches Some(s) && s@ == steps_status(steps)
            &&& r.effects@.len() == 0
        }
    }
}

fn handle_move(state: &mut AppState, direction: Direction, collect: bool) -> (r: Outcome<Effect>)
    requires
        old(state).trail.wf(),
    ensures
        move_post(*old(state), *final(state), direction, collect, r),
{
    if state.mode != GameMode::Exploration {
        return Outcome::unchanged();
    }
    let curr_x = state.player.x;
    let curr_y = state.player.y;
    let (next_x, next_y) = match direction {
        Direction::Up => (curr_x, curr_y.saturating_sub(1)),
        Direction::Down => (curr_x, curr_y.saturating_add(1)),
        Direction::Left => (curr_x.saturating_sub(1), curr_y),
        Direction::Right => (curr_x.saturating_add(1), curr_y),
    };
    if next_x == curr_x && next_y == curr_y {
        return Outcome::unchanged();
    }
    if !state.map.is_walkable(next_x, next_y) {
        state.last_status = Some(owned("Blocked path."));
        return Outcome::unchanged();
    }
    let curr_had_trail = state.trail.charge_at(curr_x, curr_y) > 0;
    let will_collect = collect && curr_had_trail;
    let curr_has_charge_after_move = !collect;
    if !lightline_preserved_after_move(
        state,
        (curr_x, curr_y),
        (next_x, next_y),
        curr_has_charge_after_move,
    ) {
        state.last_status = Some(owned("Illegal move: would break the lightline to start."));
        return Outcome::unchanged();
    }
    let reclaimed = if will_collect {
        state.trail.take(curr_x, curr_y)
    } else {
        0
    };
    if !collect && state.trail.charge_at(curr_x, curr_y) == 0 {
        state.trail.deposit(curr_x, curr_y, TRAIL_DEPOSIT_AMOUNT);
    }
    let burn_cost = if state.trail.charge_at(next_x, next_y) > 0 {
        LIT_STEP_BURN
    } else {
        STEP_BURN
    };
    state.player.x = next_x;
    state.player.y = next_y;
    let sum = state.player.light_current.saturating_sub(burn_cost).saturating_add(reclaimed);
    state.player.light_current = if sum < state.player.light_max {
        sum
    } else {
        state.player.light_max
    };
    state.player.steps = state.player.steps.saturating_add(1);

    if state.player.light_current == 0 {
        set_game_over(state, "Your lantern goes dark.");
        return Outcome::changed();
    }
    if is_anchor(state, RuntimeAnchorKind::Exit, next_x, next_y) {
        state.floor_index = state.floor_index.saturating_add(1);
        state.mode = GameMode::Boot;
        let mut s = owned("Descended to floor ");
        let n = dec_u64_pub(state.floor_index as u64 + 1);
        push_str(&mut s, n.as_str());
        proof {
            reveal_strlit("Descended to floor ");
        }
        state.last_status = Some(s);
        return Outcome::changed_with(generate_floor_effect(state.floor_index, state.seed));
    }
    let mut s = owned("Steps: ");
    let n = dec_u64_pub(state.player.steps as u64);
    push_str(&mut s, n.as_str());
    proof {
        reveal_strlit("Steps: ");
    }
    state.last_status = Some(s);
    Outcome::changed()
}

/// Applies one action to the run and reports the outcome.
pub fn reducer(state: &mut AppState, action: Action) -> (r: Outcome<Effect>)
    requires
        old(state).trail.wf(),
    ensures
        final(state).trail.wf(),
        match action {
            Action::Init => {
                &&& *final(state) == (AppState {
                    floor_index: 0,
                    player: final(state).player,
                    last_status: final(state).last_status,
                    mode: GameMode::Boot,
                    ..*old(state)
                })
                &&& final(state).player == (crate::lightline::state::PlayerState {
                    steps: 0,
                    ..old(state).player
                })
                &&& final(state).last_status matches Some(s) && s@ == "New run started."@
                &&& r.changed && r.effects@ == seq![generate_floor_effect_spec(0, old(state).seed)]
            },
            Action::GenerateFloor => {
                &&& *final(state) == (AppState { mode: GameMode::Boot, ..*old(state) })
                &&& r.changed && r.effects@ == seq![
                    generate_floor_effect_spec(old(state).floor_index, old(state).seed),
                ]
            },
            Action::FloorGenerated(floor) => {
                let light = light_budget_spec(old(state).floor_index);
                &&& final(state).player.light_max == light
                &&& final(state).player.light_current == light
                &&& final(state).player.steps == old(state).player.steps
                &&& final(state).map == floor.map
                &&& final(state).anchors@ == floor.anchors@
                &&& final(state).danger_mode == floor.danger_mode
                &&& final(state).mode == GameMode::Exploration
                &&& final(state).floor_index == old(state).floor_index
                &&& final(state).trail.width == floor.map.width
                &&& final(state).trail.height == floor.map.height
                &&& forall|x: int, y: int| #[trigger] final(state).trail@.charge(x, y) == 0
                &&& r.changed && r.effects@.len() == 0
            },
            Action::Move(dir, collect) => move_post(*old(state), *final(state), dir, collect, r),
            Action::Descend => {
                let f = old(state).floor_index.saturating_add(1);
                &&& *final(state) == (AppState { floor_index: f, mode: GameMode::Boot, ..*old(state) })
                &&& r.changed && r.effects@ == seq![generate_floor_effect_spec(f, old(state).seed)]
            },
            Action::Interact => {
                &&& *final(state) == (AppState { last_status: final(state).last_status, ..*old(state) })
                &&& final(state).last_status matches Some(s) && s@
                    == "No interactive object on this tile yet."@
                &&& r.changed && r.effects@.len() == 0
            },
            Action::GameOver => {
                &&& *final(state) == (AppState {
                    mode: GameMode::GameOver,
                    last_status: final(state).last_status,
                    ..*old(state)
                })
                &&& final(state).last_status matches Some(s) && s@ == "Light exhausted."@
                &&& r.changed && r.effects@.len() == 0
            },
            Action::PauseOpen => if old(state).mode == GameMode::Exploration {
                *final(state) == (AppState { mode: GameMode::Pause, ..*old(state) }) && r.changed
                    && r.effects@.len() == 0
            } else {
                *final(state) == *old(state) && !r.changed && r.effects@.len() == 0
            },
            Action::PauseClose => if old(state).mode == GameMode::Pause {
                *final(state) == (AppState { mode: GameMode::Exploration, ..*old(state) })
                    && r.changed && r.effects@.len() == 0
            } else {
                *final(state) == *old(state) && !r.changed && r.effects@.len() == 0
            },
            Action::Tick | Action::DangerAdvance | Action::Quit => *final(state) == *old(state)
                && !r.changed && r.effects@.len() == 0,
        },
{
    match action {
        Action::Init => {
            state.floor_index = 0;
            state.player.steps = 0;
            state.last_status = Some(owned("New run started."));
            state.mode = GameMode::Boot;
            Outcome::changed_with(generate_floor_effect(state.floor_index, state.seed))
        },
        Action::GenerateFloor => {
            state.mode = GameMode::Boot;
            Outcome::changed_with(generate_floor_effect(state.floor_index, state.seed))
        },
        Action::FloorGenerated(floor) => {
            let starting_light = light_budget_for_floor(state.floor_index);
            state.player.light_max = starting_light;
            state.player.light_current = starting_light;
            state.apply_generated_floor(floor);
            Outcome::changed()
        },
        Action::Move(direction, collect) => handle_move(state, direction, collect),
        Action::Descend => {
            state.floor_index = state.floor_index.saturating_add(1);
            state.mode = GameMode::Boot;
            Outcome::changed_with(generate_floor_effect(state.floor_index, state.seed))
        },
        Action::Interact => {
            state.last_status = Some(owned("No interactive object on this tile yet."));
            Outcome::changed()
        },
        Action::Tick | Action::DangerAdvance => Outcome::unchanged(),
        Action::GameOver => {
            set_game_over(state, "Light exhausted.");
            Outcome::changed()
        },
        Action::PauseOpen => {
            if state.mode == GameMode::Exploration {
                state.mode = GameMode::Pause;
                return Outcome::changed();
            }
            Outcome::unchanged()
        },
        Action::PauseClose => {
            if state.mode == GameMode::Pause {
                state.mode = GameMode::Exploration;
                return Outcome::changed();
            }
            Outcome::unchanged()
        },
        Action::Quit => Outcome::unchanged(),
    }
}

} // verus!
