//! The adventure's reducer: how each action changes the state and which
//! effects it asks the runtime for.
use vstd::prelude::*;
use vstd::string::StrSliceExecFns;
use crate::dndtui::action::{Action, Effect};
use crate::dndtui::prompt::{build_action_request, build_dialogue_request, PromptSchemas};
use crate::dndtui::rules::{
    die_value, lcg_step, modifier_spec, ability_modifier, background_option, class_base_hp, class_option, clamp_score,
    difficulty_dc, parse_difficulty, parse_skill_or_ability, points_remaining, roll_d20,
    roll_damage, skill_to_ability, Ability, CheckKind, Difficulty, Skill,
};
use crate::dndtui::scenario::ScenarioRuntime;
use crate::dndtui::schema::ActionInterpretation;
use crate::dndtui::state::{
    encounter_index, find_encounter, lemma_enc_index_same_ids, AppState, CombatState, CreationStep, DialogueLine, Direction,
    EncounterState, GameMode, ItemStack, ItemState, LogEntry, LogSpeaker, MenuState, NpcState,
    PauseMenuState, PendingLlm, ScenarioManifestSummary, Trigger,
};
use crate::outcome::Outcome;
use crate::seqs::{first_where, lemma_first_where_at};
use crate::text::{
    contains_seq, dec, dec_i64, dec_int, dec_signed, dec_signed_i64, dec_u64, owned, push_str,
    spec_to_lowercase, str_contains, str_eq, str_to_lowercase, str_trim, trim,
};

verus! {

/// Steps a combatant may take in one turn.
pub const MOVEMENT_PER_TURN: u8 = 4;

/// `new` is `old` with the given entries appended, each a speaker and a text.
pub open spec fn log_appended(
    old: Seq<LogEntry>,
    new: Seq<LogEntry>,
    entries: Seq<(LogSpeaker, Seq<char>)>,
) -> bool {
    &&& new.len() == old.len() + entries.len()
    &&& new.subrange(0, old.len() as int) == old
    &&& forall|k: int|
        0 <= k < entries.len() ==> (#[trigger] new[old.len() + k]).speaker == entries[k].0
            && new[old.len() + k].text@ == entries[k].1
}

proof fn lemma_log_appended_refl(l: Seq<LogEntry>)
    ensures
        log_appended(l, l, seq![]),
{
    assert(l.subrange(0, l.len() as int) =~= l);
}

proof fn lemma_log_appended_trans(
    a: Seq<LogEntry>,
    b: Seq<LogEntry>,
    c: Seq<LogEntry>,
    e1: Seq<(LogSpeaker, Seq<char>)>,
    e2: Seq<(LogSpeaker, Seq<char>)>,
)
    requires
        log_appended(a, b, e1),
        log_appended(b, c, e2),
    ensures
        log_appended(a, c, e1 + e2),
{
    assert(c.subrange(0, a.len() as int) =~= b.subrange(0, a.len() as int));
    assert forall|k: int| 0 <= k < (e1 + e2).len() implies (#[trigger] c[a.len() + k]).speaker
        == (e1 + e2)[k].0 && c[a.len() + k].text@ == (e1 + e2)[k].1 by {
        if k < e1.len() {
            assert(c[a.len() + k] == b[a.len() + k]);
        } else {
            let j = k - e1.len();
            assert(c[b.len() + j] == c[a.len() + k]);
        }
    }
}

fn log(state: &mut AppState, speaker: LogSpeaker, text: String)
    ensures
        log_appended(old(state).log@, final(state).log@, seq![(speaker, text@)]),
        *final(state) == (AppState { log: final(state).log, ..*old(state) }),
{
    state.push_log(speaker, text);
    assert(final(state).log@[old(state).log@.len() + 0int] == final(state).log@.last());
}

/// Whether `a` and `b` are at most one step apart, counting steps along
/// rows and columns.
pub open spec fn adjacent(ax: u16, ay: u16, bx: u16, by: u16) -> bool {
    (if ax >= bx { ax - bx } else { bx - ax }) + (if ay >= by { ay - by } else { by - ay }) <= 1
}

fn is_adjacent(ax: u16, ay: u16, bx: u16, by: u16) -> (b: bool)
    ensures
        b == adjacent(ax, ay, bx, by),
{
    let dx: u32 = if ax >= bx { (ax - bx) as u32 } else { (bx - ax) as u32 };
    let dy: u32 = if ay >= by { (ay - by) as u32 } else { (by - ay) as u32 };
    dx + dy <= 1
}

/// The tile one step from `(x, y)` in `dir`, staying at the map's edge at 0
/// and at the largest coordinate.
pub open spec fn step_from(x: u16, y: u16, dir: Direction) -> (u16, u16) {
    match dir {
        Direction::Up => (x, if y > 0 { (y - 1) as u16 } else { 0 }),
        Direction::Down => (x, if y < u16::MAX { (y + 1) as u16 } else { u16::MAX }),
        Direction::Left => (if x > 0 { (x - 1) as u16 } else { 0 }, y),
        Direction::Right => (if x < u16::MAX { (x + 1) as u16 } else { u16::MAX }, y),
    }
}

fn step(x: u16, y: u16, dir: Direction) -> (p: (u16, u16))
    ensures
        p == step_from(x, y, dir),
{
    match dir {
        Direction::Up => (x, y.saturating_sub(1)),
        Direction::Down => (x, y.saturating_add(1)),
        Direction::Left => (x.saturating_sub(1), y),
        Direction::Right => (x.saturating_add(1), y),
    }
}

/// Whether an NPC stands on `(x, y)`.
pub open spec fn npc_at(s: AppState, x: u16, y: u16) -> bool {
    exists|i: int| 0 <= i < s.npcs@.len() && #[trigger] s.npcs@[i].x == x && s.npcs@[i].y == y
}

fn has_npc_at(state: &AppState, x: u16, y: u16) -> (b: bool)
    ensures
        b == npc_at(*state, x, y),
{
    let mut i: usize = 0;
    while i < state.npcs.len()
        invariant
            i <= state.npcs@.len(),
            forall|j: int| 0 <= j < i ==> !(#[trigger] state.npcs@[j].x == x && state.npcs@[j].y == y),
        decreases state.npcs.len() - i,
    {
        if state.npcs[i].x == x && state.npcs[i].y == y {
            return true;
        }
        i = i + 1;
    }
    false
}

/// Whether an undefeated encounter stands on `(x, y)`.
pub open spec fn active_encounter_at(s: AppState, x: u16, y: u16) -> bool {
    exists|i: int|
        0 <= i < s.encounters@.len() && #[trigger] s.encounters@[i].x == x && s.encounters@[i].y
            == y && !s.encounters@[i].defeated
}

/// Position of the first undefeated encounter on `(x, y)`.
pub open spec fn first_active_encounter_at(es: Seq<EncounterState>, x: u16, y: u16) -> Option<int>
    decreases es.len(),
{
    if es.len() == 0 {
        None
    } else {
        match first_active_encounter_at(es.drop_last(), x, y) {
            Some(i) => Some(i),
            None => if es.last().x == x && es.last().y == y && !es.last().defeated {
                Some(es.len() - 1)
            } else {
                None
            },
        }
    }
}

proof fn lemma_first_active_prefix(es: Seq<EncounterState>, x: u16, y: u16, i: int)
    requires
        0 <= i <= es.len(),
        forall|j: int| 0 <= j < i ==> !(#[trigger] es[j].x == x && es[j].y == y && !es[j].defeated),
    ensures
        first_active_encounter_at(es.subrange(0, i), x, y) is None,
    decreases i,
{
    if i > 0 {
        assert(es.subrange(0, i).drop_last() =~= es.subrange(0, i - 1));
        lemma_first_active_prefix(es, x, y, i - 1);
    }
}

proof fn lemma_first_active_extend(es: Seq<EncounterState>, x: u16, y: u16, i: int)
    requires
        0 <= i <= es.len(),
        first_active_encounter_at(es.subrange(0, i), x, y) is Some,
    ensures
        first_active_encounter_at(es, x, y) == first_active_encounter_at(es.subrange(0, i), x, y),
    decreases es.len() - i,
{
    if i < es.len() {
        assert(es.subrange(0, i + 1).drop_last() =~= es.subrange(0, i));
        lemma_first_active_extend(es, x, y, i + 1);
    } else {
        assert(es.subrange(0, i) =~= es);
    }
}

fn active_encounter_index(state: &AppState, x: u16, y: u16) -> (r: Option<usize>)
    ensures
        match first_active_encounter_at(state.encounters@, x, y) {
            Some(i) => r matches Some(k) && k as int == i,
            None => r is None,
        },
        r matches Some(k) ==> k < state.encounters@.len(),
        r is None <==> !active_encounter_at(*state, x, y),
{
    let mut i: usize = 0;
    while i < state.encounters.len()
        invariant
            i <= state.encounters@.len(),
            forall|j: int|
                0 <= j < i ==> !(#[trigger] state.encounters@[j].x == x && state.encounters@[j].y
                    == y && !state.encounters@[j].defeated),
        decreases state.encounters.len() - i,
    {
        let e = &state.encounters[i];
        if e.x == x && e.y == y && !e.defeated {
            proof {
                let es = state.encounters@;
                lemma_first_active_prefix(es, x, y, i as int);
                assert(es.subrange(0, i + 1).drop_last() =~= es.subrange(0, i as int));
                lemma_first_active_extend(es, x, y, i + 1);
            }
            return Some(i);
        }
        i = i + 1;
    }
    proof {
        lemma_first_active_prefix(state.encounters@, x, y, state.encounters@.len() as int);
        assert(state.encounters@.subrange(0, state.encounters@.len() as int) =~= state.encounters@);
    }
    None
}

/// `selected` kept within the inventory: at most its last position, 0 when
/// it is empty.
pub open spec fn clamped_selection(selected: usize, len: int) -> usize {
    let max = if len > 0 { len - 1 } else { 0 };
    if selected <= max { selected } else { max as usize }
}

fn clamp_inventory_selection(state: &mut AppState)
    ensures
        *final(state) == (AppState {
            inventory_selected: clamped_selection(
                old(state).inventory_selected,
                old(state).player.inventory@.len() as int,
            ),
            ..*old(state)
        }),
{
    let max = state.player.inventory.len().saturating_sub(1);
    if state.inventory_selected > max {
        state.inventory_selected = max;
    }
}

/// Asks for the state to be saved, with the transcript from the last
/// saved entry on, and remembers where the log ends now.
fn save_effect(state: &mut AppState) -> (e: Effect)
    ensures
        *final(state) == (AppState {
            pending_transcript_index: Some(old(state).log@.len() as usize),
            ..*old(state)
        }),
        e matches Effect::SaveGame { state: snap, since } && since == old(state).transcript_index
            && snap.mode == old(state).mode && snap.rng_seed == old(state).rng_seed,
{
    let since = state.transcript_index;
    state.pending_transcript_index = Some(state.log.len());
    let snapshot = state.clone();
    Effect::SaveGame { state: Box::new(snapshot), since }
}

/// Whether a load error only says that there is no save yet.
pub open spec fn missing_save(error: Seq<char>) -> bool {
    contains_seq(spec_to_lowercase(error), "no such file"@) || contains_seq(
        spec_to_lowercase(error),
        "not found"@,
    )
}

pub fn is_missing_save(error: &str) -> (b: bool)
    ensures
        b == missing_save(error@),
{
    let lower = str_to_lowercase(error);
    str_contains(lower.as_str(), "no such file") || str_contains(lower.as_str(), "not found")
}

/// `prefix` followed by `s`.
fn prefixed(prefix: &str, s: &str) -> (r: String)
    ensures
        r@ == prefix@ + s@,
{
    let mut r = owned(prefix);
    push_str(&mut r, s);
    r
}

/// Which triggers a player action sets off.
#[derive(Clone, Copy, Debug, PartialEq, Eq, Structural)]
pub enum TriggerKind {
    OnEnter,
    OnInteract,
}

/// The id under which a trigger of `kind` at `(x, y)` is remembered as
/// fired, such as `enter:3:4`.
pub open spec fn trigger_id(kind: TriggerKind, x: u16, y: u16) -> Seq<char> {
    (if kind == TriggerKind::OnEnter { "enter:"@ } else { "interact:"@ }) + dec(x as nat) + ":"@
        + dec(y as nat)
}

/// The views of the fired trigger ids.
pub open spec fn fired_ids(f: Seq<String>) -> Seq<Seq<char>> {
    f.map_values(|s: String| s@)
}

/// Runs the triggers in order for an action of `kind` at `(x, y)`: each one
/// of that kind on that tile whose id has not fired yet fires, its id is
/// remembered and its message logged. Returns the ids fired so far and the
/// log lines so far.
pub open spec fn run_triggers(
    ts: Seq<Trigger>,
    kind: TriggerKind,
    x: u16,
    y: u16,
    fired: Seq<Seq<char>>,
    logs: Seq<(LogSpeaker, Seq<char>)>,
) -> (Seq<Seq<char>>, Seq<(LogSpeaker, Seq<char>)>)
    decreases ts.len(),
{
    if ts.len() == 0 {
        (fired, logs)
    } else {
        let rest = ts.drop_first();
        let (tk, tx, ty, msg) = match ts[0] {
            Trigger::OnEnter { x, y, message } => (TriggerKind::OnEnter, x, y, message@),
            Trigger::OnInteract { x, y, message } => (TriggerKind::OnInteract, x, y, message@),
        };
        let id = trigger_id(tk, tx, ty);
        if tk == kind && tx == x && ty == y && !fired.contains(id) {
            run_triggers(rest, kind, x, y, fired.push(id), logs.push((LogSpeaker::System, msg)))
        } else {
            run_triggers(rest, kind, x, y, fired, logs)
        }
    }
}

fn trigger_id_string(kind: TriggerKind, x: u16, y: u16) -> (s: String)
    ensures
        s@ == trigger_id(kind, x, y),
{
    let mut s = if kind == TriggerKind::OnEnter {
        owned("enter:")
    } else {
        owned("interact:")
    };
    let xs = dec_u64(x as u64);
    push_str(&mut s, xs.as_str());
    push_str(&mut s, ":");
    let ys = dec_u64(y as u64);
    push_str(&mut s, ys.as_str());
    s
}

fn fired_contains(fired: &Vec<String>, id: &String) -> (b: bool)
    ensures
        b == fired_ids(fired@).contains(id@),
{
    let mut i: usize = 0;
    while i < fired.len()
        invariant
            i <= fired@.len(),
            forall|j: int| 0 <= j < i ==> (#[trigger] fired@[j])@ != id@,
        decreases fired.len() - i,
    {
        if str_eq(fired[i].as_str(), id.as_str()) {
            assert(fired_ids(fired@)[i as int] == id@);
            return true;
        }
        i = i + 1;
    }
    assert forall|j: int| 0 <= j < fired_ids(fired@).len() implies fired_ids(fired@)[j] != id@ by {
        assert(fired_ids(fired@)[j] == fired@[j]@);
    }
    false
}

/// Fires the triggers of `kind` on the player's tile (see `run_triggers`).
fn check_triggers(state: &mut AppState, kind: TriggerKind)
    ensures
        ({
            let (f, l) = run_triggers(
                old(state).triggers@,
                kind,
                old(state).player.x,
                old(state).player.y,
                fired_ids(old(state).fired_triggers@),
                seq![],
            );
            &&& fired_ids(final(state).fired_triggers@) == f
            &&& log_appended(old(state).log@, final(state).log@, l)
            &&& *final(state) == (AppState {
                fired_triggers: final(state).fired_triggers,
                log: final(state).log,
                ..*old(state)
            })
        }),
{
    let x = state.player.x;
    let y = state.player.y;
    let ghost ts = state.triggers@;
    let ghost logs: Seq<(LogSpeaker, Seq<char>)> = seq![];
    proof {
        lemma_log_appended_refl(state.log@);
        assert(ts.skip(0) =~= ts);
    }
    let mut i: usize = 0;
    while i < state.triggers.len()
        invariant
            i <= ts.len(),
            x == old(state).player.x && y == old(state).player.y,
            ts == old(state).triggers@,
            run_triggers(ts, kind, x, y, fired_ids(old(state).fired_triggers@), seq![])
                == run_triggers(ts.skip(i as int), kind, x, y, fired_ids(state.fired_triggers@), logs),
            log_appended(old(state).log@, state.log@, logs),
            *state == (AppState { fired_triggers: state.fired_triggers, log: state.log, ..*old(state) }),
        decreases ts.len() - i,
    {
        assert(ts.skip(i as int).drop_first() =~= ts.skip(i + 1));
        assert(ts.skip(i as int)[0] == ts[i as int]);
        let (tk, tx, ty, msg) = match &state.triggers[i] {
            Trigger::OnEnter { x, y, message } => (TriggerKind::OnEnter, *x, *y, owned(message.as_str())),
            Trigger::OnInteract { x, y, message } => (
                TriggerKind::OnInteract,
                *x,
                *y,
                owned(message.as_str()),
            ),
        };
        if tk == kind && tx == x && ty == y {
            let id = trigger_id_string(tk, tx, ty);
            if !fired_contains(&state.fired_triggers, &id) {
                let ghost before = state.log@;
                let ghost fired_before = fired_ids(state.fired_triggers@);
                state.fired_triggers.push(id);
                assert(fired_ids(state.fired_triggers@) =~= fired_before.push(trigger_id(tk, tx, ty)));
                log(state, LogSpeaker::System, msg);
                proof {
                    lemma_log_appended_trans(old(state).log@, before, state.log@, logs, seq![(LogSpeaker::System, msg@)]);
                    assert(logs + seq![(LogSpeaker::System, msg@)] =~= logs.push((LogSpeaker::System, msg@)));
                    logs = logs.push((LogSpeaker::System, msg@));
                }
            }
        }
        i = i + 1;
    }
    assert(ts.skip(i as int).len() == 0);
}

/// Whether an NPC stands at most one step from `(x, y)`.
pub open spec fn near(x: u16, y: u16) -> spec_fn(NpcState) -> bool {
    |npc: NpcState| adjacent(npc.x, npc.y, x, y)
}

/// Whether an item lies on `(x, y)`.
pub open spec fn lies_at(x: u16, y: u16) -> spec_fn(ItemState) -> bool {
    |it: ItemState| it.x == x && it.y == y
}

/// Whether a stack holds item `id`.
pub open spec fn holds_item(id: Seq<char>) -> spec_fn(ItemStack) -> bool {
    |s: ItemStack| s.id@ == id
}

/// The inventory after adding `qty` of item `id`: the first stack with that
/// id grows (saturating), else a new stack goes at the end.
pub open spec fn inventory_with(inv: Seq<ItemStack>, id: String, name: String, qty: u16) -> Seq<ItemStack> {
    match first_where(inv, holds_item(id@)) {
        Some(i) => inv.update(
            i,
            ItemStack { qty: (if inv[i].qty + qty <= u16::MAX { (inv[i].qty + qty) as u16 } else { u16::MAX }), ..inv[i] },
        ),
        None => inv.push(ItemStack { id, name, qty }),
    }
}

fn add_item_to_inventory(state: &mut AppState, id: String, name: String, qty: u16)
    ensures
        ({
            let inv = inventory_with(old(state).player.inventory@, id, name, qty);
            &&& final(state).player.inventory@ == inv
            &&& *final(state) == (AppState {
                player: final(state).player,
                inventory_selected: clamped_selection(old(state).inventory_selected, inv.len() as int),
                ..*old(state)
            })
            &&& final(state).player == (crate::dndtui::state::PlayerState {
                inventory: final(state).player.inventory,
                ..old(state).player
            })
        }),
{
    let ghost p = holds_item(id@);
    let mut i: usize = 0;
    while i < state.player.inventory.len()
        invariant
            i <= state.player.inventory@.len(),
            *state == *old(state),
            p == holds_item(id@),
            forall|j: int| 0 <= j < i ==> !p(#[trigger] state.player.inventory@[j]),
        decreases state.player.inventory.len() - i,
    {
        if str_eq(state.player.inventory[i].id.as_str(), id.as_str()) {
            proof {
                lemma_first_where_at(state.player.inventory@, p, i as int);
            }
            let q = state.player.inventory[i].qty.saturating_add(qty);
            state.player.inventory[i].qty = q;
            clamp_inventory_selection(state);
            return;
        }
        i = i + 1;
    }
    proof {
        lemma_first_where_at(state.player.inventory@, p, i as int);
    }
    state.player.inventory.push(ItemStack { id, name, qty });
    clamp_inventory_selection(state);
}

/// Whether an enemy's strike keeps its sums within `i32`: the d20 roll at
/// `seed` plus the attack bonus `atk`, and on a hit (against 10 plus the
/// modifier of Dexterity `dex`) the next d6 plus the bonus and the hit
/// points `hp` less the damage.
pub open spec fn strike_fits(seed: u64, hp: i32, dex: i32, atk: i32) -> bool {
    let roll = die_value(seed, 20);
    let hit = roll + atk >= 10 + modifier_spec(dex as int);
    let d = die_value(lcg_step(seed), 6) + atk;
    &&& roll + atk <= i32::MAX
    &&& hit ==> d <= i32::MAX && hp - at_least_one(d) >= i32::MIN
}

/// Whether the turn of enemy `id` at state `s` stays within `i32`.
pub open spec fn enemy_turn_fits(s: AppState, id: Seq<char>) -> bool {
    match encounter_index(s.encounters@, id) {
        None => true,
        Some(i) => s.encounters@[i].defeated
            || strike_fits(s.rng_seed, s.player.hp, s.player.stats.dexterity, s.encounters@[i].atk),
    }
}

/// Whether ending the player's turn at `s` stays within `i32`.
pub open spec fn end_turn_fits(s: AppState) -> bool {
    match s.combat {
        Some(c) => c.player_turn ==> enemy_turn_fits(s, c.enemy_id@),
        None => true,
    }
}

/// Whether the player's swing at enemy `i` stays within `i32`: on a hit the
/// enemy's hit points less the damage.
pub open spec fn player_strike_fits(s: AppState, i: int) -> bool {
    let strmod = modifier_spec(s.player.stats.strength as int);
    let hit = die_value(s.rng_seed, 20) + strmod >= 10;
    hit ==> s.encounters@[i].hp - at_least_one(die_value(lcg_step(s.rng_seed), 6) + strmod) >= i32::MIN
}

/// Whether an attack at `s` stays within `i32`: the player's swing and, when
/// it does not defeat the enemy, the enemy's turn after it.
pub open spec fn attack_fits(s: AppState) -> bool {
    match s.combat {
        Some(c) => s.mode == GameMode::Combat && c.player_turn ==> match encounter_index(s.encounters@, c.enemy_id@) {
            Some(i) => {
                let e = s.encounters@[i];
                let strmod = modifier_spec(s.player.stats.strength as int);
                let s1 = lcg_step(s.rng_seed);
                let hit = die_value(s.rng_seed, 20) + strmod >= 10;
                let hp = e.hp - at_least_one(die_value(s1, 6) + strmod);
                let seed = if hit { lcg_step(s1) } else { s1 };
                !e.defeated && adjacent(s.player.x, s.player.y, e.x, e.y) ==> {
                    &&& player_strike_fits(s, i)
                    &&& !(hit && hp <= 0) ==> strike_fits(seed, s.player.hp, s.player.stats.dexterity, e.atk)
                }
            },
            None => true,
        },
        None => true,
    }
}

/// Whether opening combat with enemy `id` at `s` stays within `i32`: when
/// the enemy wins the initiative, its first turn.
pub open spec fn start_fits(s: AppState, id: Seq<char>) -> bool {
    match encounter_index(s.encounters@, id) {
        Some(i) => {
            let e = s.encounters@[i];
            let s1 = lcg_step(s.rng_seed);
            let player_first = die_value(s.rng_seed, 20) + modifier_spec(s.player.stats.dexterity as int) >= die_value(s1, 20);
            !e.defeated && !player_first ==> strike_fits(lcg_step(s1), s.player.hp, s.player.stats.dexterity, e.atk)
        },
        None => true,
    }
}

/// Whether a move at `s` stays within `i32`: a step while exploring that
/// bumps an undefeated enemy opens combat with it.
pub open spec fn move_fits(s: AppState, dir: Direction) -> bool {
    let (x, y) = step_from(s.player.x, s.player.y, dir);
    s.mode == GameMode::Exploration && s.map.walkable_at(x as int, y as int) && !npc_at(s, x, y) ==> match first_active_encounter_at(s.encounters@, x, y) {
        Some(i) => start_fits(s, s.encounters@[i].id@),
        None => true,
    }
}

/// Whether the combat arithmetic of `action` at `s` stays within `i32`;
/// only moves, attacks and ends of turn do any.
pub open spec fn action_fits(s: AppState, action: Action) -> bool {
    match action {
        Action::Move(d) => move_fits(s, d),
        Action::CombatAttack => attack_fits(s),
        Action::CombatEndTurn => end_turn_fits(s),
        _ => true,
    }
}

fn strike_fits_now(seed: u64, hp: i32, dex: i32, atk: i32) -> (b: bool)
    ensures
        b == strike_fits(seed, hp, dex, atk),
{
    let mut sd = seed;
    let roll = roll_d20(&mut sd) as i64;
    let bonus = atk as i64;
    if roll + bonus > i32::MAX as i64 {
        return false;
    }
    let ac = 10 + ability_modifier(dex) as i64;
    if roll + bonus >= ac {
        let d = roll_damage(&mut sd, 6) as i64 + bonus;
        if d > i32::MAX as i64 {
            return false;
        }
        let dmg = if d >= 1 { d } else { 1 };
        hp as i64 - dmg >= i32::MIN as i64
    } else {
        true
    }
}

fn enemy_turn_fits_now(state: &AppState, id: &str) -> (b: bool)
    ensures
        b == enemy_turn_fits(*state, id@),
{
    match find_encounter(&state.encounters, id) {
        None => true,
        Some(i) => state.encounters[i].defeated
            || strike_fits_now(state.rng_seed, state.player.hp, state.player.stats.dexterity, state.encounters[i].atk),
    }
}

fn attack_fits_now(state: &AppState) -> (b: bool)
    ensures
        b == attack_fits(*state),
{
    let c = match &state.combat {
        None => return true,
        Some(c) => c,
    };
    if state.mode != GameMode::Combat || !c.player_turn {
        return true;
    }
    let i = match find_encounter(&state.encounters, c.enemy_id.as_str()) {
        None => return true,
        Some(i) => i,
    };
    let e = &state.encounters[i];
    if e.defeated || !is_adjacent(state.player.x, state.player.y, e.x, e.y) {
        return true;
    }
    let mut sd = state.rng_seed;
    let roll = roll_d20(&mut sd) as i64;
    let s1 = sd;
    let strmod = ability_modifier(state.player.stats.strength) as i64;
    let hit = roll + strmod >= 10;
    let d = roll_damage(&mut sd, 6) as i64 + strmod;
    let hp = e.hp as i64 - (if d >= 1 { d } else { 1 });
    if hit && hp < i32::MIN as i64 {
        return false;
    }
    if hit && hp <= 0 {
        return true;
    }
    let seed = if hit { sd } else { s1 };
    strike_fits_now(seed, state.player.hp, state.player.stats.dexterity, e.atk)
}

fn start_fits_now(state: &AppState, id: &str) -> (b: bool)
    ensures
        b == start_fits(*state, id@),
{
    let i = match find_encounter(&state.encounters, id) {
        None => return true,
        Some(i) => i,
    };
    if state.encounters[i].defeated {
        return true;
    }
    let mut sd = state.rng_seed;
    let p = roll_d20(&mut sd) as i64 + ability_modifier(state.player.stats.dexterity) as i64;
    let q = roll_d20(&mut sd) as i64;
    p >= q || strike_fits_now(sd, state.player.hp, state.player.stats.dexterity, state.encounters[i].atk)
}

fn move_fits_now(state: &AppState, dir: Direction) -> (b: bool)
    ensures
        b == move_fits(*state, dir),
{
    let (x, y) = step(state.player.x, state.player.y, dir);
    if state.mode != GameMode::Exploration || !state.map.is_walkable(x, y) || has_npc_at(state, x, y) {
        return true;
    }
    match active_encounter_index(state, x, y) {
        Some(i) => start_fits_now(state, state.encounters[i].id.as_str()),
        None => true,
    }
}

/// Whether `reducer` may take `action` at `state`: false exactly when the
/// combat arithmetic of the action would leave `i32`.
pub fn combat_fits(state: &AppState, action: &Action) -> (b: bool)
    ensures
        b == action_fits(*state, *action),
{
    match action {
        Action::Move(d) => move_fits_now(state, *d),
        Action::CombatAttack => attack_fits_now(state),
        Action::CombatEndTurn => match &state.combat {
            Some(c) => !c.player_turn || enemy_turn_fits_now(state, c.enemy_id.as_str()),
            None => true,
        },
        _ => true,
    }
}

/// The save effect `save_effect` hands back for a state whose transcript
/// was saved up to `since`.
pub open spec fn is_save_of(r: Outcome<Effect>, since: usize) -> bool {
    &&& r.changed
    &&& r.effects@.len() == 1
    &&& r.effects@[0] matches Effect::SaveGame { since: s, .. } && s == since
}

pub open spec fn unchanged_post(o: AppState, n: AppState, r: Outcome<Effect>) -> bool {
    !r.changed && r.effects@.len() == 0 && n == o
}

/// `a` at least 1.
pub open spec fn at_least_one(a: int) -> int {
    if a >= 1 { a } else { 1 }
}

/// The enemy's turn against the player (see `resolve_enemy_turn`).
pub open spec fn enemy_turn_post(o: AppState, n: AppState, r: Outcome<Effect>, id: Seq<char>) -> bool {
    match encounter_index(o.encounters@, id) {
        None => unchanged_post(o, n, r),
        Some(i) => {
            let e = o.encounters@[i];
            let dexmod = modifier_spec(o.player.stats.dexterity as int);
            let roll = die_value(o.rng_seed, 20);
            let s1 = lcg_step(o.rng_seed);
            let hit = !e.defeated && roll + e.atk >= 10 + dexmod;
            let dmg = at_least_one(die_value(s1, 6) + e.atk);
            let seed = if e.defeated { o.rng_seed } else if hit { lcg_step(s1) } else { s1 };
            let hp = if hit { o.player.hp - dmg } else { o.player.hp as int };
            let falls = hit && hp <= 0;
            let logs: Seq<(LogSpeaker, Seq<char>)> = if e.defeated {
                seq![]
            } else if hit {
                seq![(LogSpeaker::Combat, e.name@ + " hits you for "@ + dec_int(dmg) + " damage."@)]
                    + if falls { seq![(LogSpeaker::Combat, "You fall unconscious."@)] } else { seq![] }
            } else {
                seq![(LogSpeaker::Combat, e.name@ + " misses."@)]
            };
            &&& log_appended(o.log@, n.log@, logs)
            &&& n.player.hp == hp
            &&& if falls {
                &&& n == (AppState {
                    log: n.log,
                    rng_seed: seed,
                    player: crate::dndtui::state::PlayerState { hp: n.player.hp, ..o.player },
                    combat: None,
                    mode: GameMode::Exploration,
                    pending_transcript_index: Some(n.log@.len() as usize),
                    ..o
                })
                &&& is_save_of(r, o.transcript_index)
            } else {
                &&& n == (AppState {
                    log: n.log,
                    rng_seed: seed,
                    player: crate::dndtui::state::PlayerState { hp: n.player.hp, ..o.player },
                    combat: match o.combat {
                        Some(c) => Some(
                            CombatState {
                                player_turn: true,
                                movement_left: MOVEMENT_PER_TURN,
                                round: if c.round < u32::MAX { (c.round + 1) as u32 } else { u32::MAX },
                                ..c
                            },
                        ),
                        None => None,
                    },
                    ..o
                })
                &&& r.changed && r.effects@.len() == 0
            }
        },
    }
}

/// One enemy attack on the player: the d20 roll plus the attack bonus
/// against 10 plus the player's Dexterity modifier; on a hit a d6 plus the
/// bonus, at least 1, comes off the player's hit points.
pub open spec fn strike_post(o: AppState, n: AppState, e: EncounterState, falls: bool) -> bool {
    let dexmod = modifier_spec(o.player.stats.dexterity as int);
    let roll = die_value(o.rng_seed, 20);
    let s1 = lcg_step(o.rng_seed);
    let hit = roll + e.atk >= 10 + dexmod;
    let dmg = at_least_one(die_value(s1, 6) + e.atk);
    let seed = if hit { lcg_step(s1) } else { s1 };
    let hp = if hit { o.player.hp - dmg } else { o.player.hp as int };
    let logs: Seq<(LogSpeaker, Seq<char>)> = if hit {
        seq![(LogSpeaker::Combat, e.name@ + " hits you for "@ + dec_int(dmg) + " damage."@)]
    } else {
        seq![(LogSpeaker::Combat, e.name@ + " misses."@)]
    };
    &&& falls == (hit && hp <= 0)
    &&& log_appended(o.log@, n.log@, logs)
    &&& n.player.hp == hp
    &&& n == (AppState {
        log: n.log,
        rng_seed: seed,
        player: crate::dndtui::state::PlayerState { hp: n.player.hp, ..o.player },
        ..o
    })
}

fn enemy_strike(state: &mut AppState, name: &String, atk: i32, Ghost(e): Ghost<EncounterState>) -> (falls: bool)
    requires
        strike_fits(old(state).rng_seed, old(state).player.hp, old(state).player.stats.dexterity, atk),
        e.name@ == name@,
        e.atk == atk,
    ensures
        strike_post(*old(state), *final(state), e, falls),
{
    let roll = roll_d20(&mut state.rng_seed);
    let dexmod = ability_modifier(state.ability_score(Ability::Dexterity));
    let player_ac = 10 + dexmod;
    if roll + atk >= player_ac {
        let d = roll_damage(&mut state.rng_seed, 6) + atk;
        let damage = if d >= 1 { d } else { 1 };
        state.player.hp = state.player.hp - damage;
        let mut msg = prefixed(name.as_str(), " hits you for ");
        let ds = dec_i64(damage as i64);
        push_str(&mut msg, ds.as_str());
        push_str(&mut msg, " damage.");
        log(state, LogSpeaker::Combat, msg);
        state.player.hp <= 0
    } else {
        log(state, LogSpeaker::Combat, prefixed(name.as_str(), " misses."));
        false
    }
}

/// The player's turn begins: full movement and the next round.
fn begin_player_turn(state: &mut AppState)
    ensures
        *final(state) == (AppState {
            combat: match old(state).combat {
                Some(c) => Some(
                    CombatState {
                        player_turn: true,
                        movement_left: MOVEMENT_PER_TURN,
                        round: if c.round < u32::MAX { (c.round + 1) as u32 } else { u32::MAX },
                        ..c
                    },
                ),
                None => None,
            },
            ..*old(state)
        }),
{
    match state.combat.take() {
        Some(c) => {
            let round = c.round.saturating_add(1);
            state.combat = Some(CombatState { enemy_id: c.enemy_id, player_turn: true, movement_left: MOVEMENT_PER_TURN, round });
        },
        None => {},
    }
}

#[verifier::rlimit(60)]
fn resolve_enemy_turn(state: &mut AppState, enemy_id: &str) -> (r: Outcome<Effect>)
    requires
        enemy_turn_fits(*old(state), enemy_id@),
    ensures
        enemy_turn_post(*old(state), *final(state), r, enemy_id@),
{
    let idx = match find_encounter(&state.encounters, enemy_id) {
        Some(i) => i,
        None => return Outcome::unchanged(),
    };
    let ghost e = state.encounters@[idx as int];
    let name = state.encounters[idx].name.clone();
    let atk = state.encounters[idx].atk;
    let defeated = state.encounters[idx].defeated;
    if !defeated {
        let ghost mid = *state;
        let falls = enemy_strike(state, &name, atk, Ghost(e));
        assert(strike_post(mid, *state, e, falls));
        if falls {
            let ghost l1 = state.log@;
            log(state, LogSpeaker::Combat, owned("You fall unconscious."));
            proof {
                let hit_msg = e.name@ + " hits you for "@ + dec_int(at_least_one(die_value(lcg_step(mid.rng_seed), 6) + e.atk)) + " damage."@;
                lemma_log_appended_trans(mid.log@, l1, state.log@, seq![(LogSpeaker::Combat, hit_msg)], seq![(LogSpeaker::Combat, "You fall unconscious."@)]);
            }
            state.combat = None;
            state.mode = GameMode::Exploration;
            let eff = save_effect(state);
            return Outcome::changed_with(eff);
        }
        proof {
            let dexmod = modifier_spec(mid.player.stats.dexterity as int);
            let hit = die_value(mid.rng_seed, 20) + e.atk >= 10 + dexmod;
            if hit {
                let hit_msg = e.name@ + " hits you for "@ + dec_int(at_least_one(die_value(lcg_step(mid.rng_seed), 6) + e.atk)) + " damage."@;
                assert(seq![(LogSpeaker::Combat, hit_msg)] + seq![] =~= seq![(LogSpeaker::Combat, hit_msg)]);
            }
        }
    } else {
        proof {
            lemma_log_appended_refl(state.log@);
        }
    }
    begin_player_turn(state);
    Outcome::changed()
}

/// Ending the player's turn hands it to the enemy (see `enemy_turn_post`).
pub open spec fn end_turn_post(o: AppState, n: AppState, r: Outcome<Effect>) -> bool {
    match o.combat {
        None => unchanged_post(o, n, r),
        Some(c) => if !c.player_turn {
            unchanged_post(o, n, r)
        } else {
            enemy_turn_post(
                AppState { combat: Some(CombatState { player_turn: false, ..c }), ..o },
                n,
                r,
                c.enemy_id@,
            )
        },
    }
}

fn handle_combat_end_turn(state: &mut AppState) -> (r: Outcome<Effect>)
    requires
        end_turn_fits(*old(state)),
    ensures
        end_turn_post(*old(state), *final(state), r),
{
    let enemy_id = match &state.combat {
        None => return Outcome::unchanged(),
        Some(c) => {
            if !c.player_turn {
                return Outcome::unchanged();
            }
            c.enemy_id.clone()
        },
    };
    match &mut state.combat {
        Some(c) => {
            c.player_turn = false;
        },
        None => {},
    }
    resolve_enemy_turn(state, enemy_id.as_str())
}

/// The player's swing at enemy `i`: the d20 roll plus the Strength modifier
/// against 10; on a hit a d6 plus the modifier, at least 1, comes off the
/// enemy, who is defeated at 0 or below.
pub open spec fn player_strike_post(o: AppState, n: AppState, i: int, defeated: bool) -> bool {
    let e = o.encounters@[i];
    let strmod = modifier_spec(o.player.stats.strength as int);
    let roll = die_value(o.rng_seed, 20);
    let s1 = lcg_step(o.rng_seed);
    let hit = roll + strmod >= 10;
    let dmg = at_least_one(die_value(s1, 6) + strmod);
    let hp = e.hp - dmg;
    &&& defeated == (hit && hp <= 0)
    &&& if hit {
        &&& log_appended(
            o.log@,
            n.log@,
            seq![(LogSpeaker::Combat, "You hit "@ + e.name@ + " for "@ + dec_int(dmg) + " damage."@)],
        )
        &&& n.encounters@ == o.encounters@.update(
            i,
            EncounterState { hp: hp as i32, defeated: hp <= 0 || e.defeated, ..e },
        )
        &&& n == (AppState { log: n.log, rng_seed: lcg_step(s1), encounters: n.encounters, ..o })
    } else {
        &&& log_appended(o.log@, n.log@, seq![(LogSpeaker::Combat, "You miss."@)])
        &&& n == (AppState { log: n.log, rng_seed: s1, ..o })
    }
}

fn player_strike(state: &mut AppState, i: usize) -> (defeated: bool)
    requires
        i < old(state).encounters@.len(),
        !old(state).encounters@[i as int].defeated,
        player_strike_fits(*old(state), i as int),
    ensures
        player_strike_post(*old(state), *final(state), i as int, defeated),
{
    let roll = roll_d20(&mut state.rng_seed);
    let strmod = ability_modifier(state.ability_score(Ability::Strength));
    if roll + strmod >= 10 {
        let d = roll_damage(&mut state.rng_seed, 6) + strmod;
        let damage = if d >= 1 { d } else { 1 };
        let ghost e = state.encounters@[i as int];
        let hp = state.encounters[i].hp - damage;
        let ne = EncounterState {
            id: state.encounters[i].id.clone(),
            name: state.encounters[i].name.clone(),
            x: state.encounters[i].x,
            y: state.encounters[i].y,
            hp,
            atk: state.encounters[i].atk,
            defeated: hp <= 0,
        };
        assert(ne == EncounterState { hp: hp as i32, defeated: hp <= 0 || e.defeated, ..e });
        let msg = hit_message(&ne.name, damage);
        state.encounters.set(i, ne);
        log(state, LogSpeaker::Combat, msg);
        hp <= 0
    } else {
        log(state, LogSpeaker::Combat, owned("You miss."));
        false
    }
}

fn hit_message(name: &String, damage: i32) -> (m: String)
    ensures
        m@ == "You hit "@ + name@ + " for "@ + dec_int(damage as int) + " damage."@,
{
    let mut msg = owned("You hit ");
    push_str(&mut msg, name.as_str());
    push_str(&mut msg, " for ");
    let ds = dec_i64(damage as i64);
    push_str(&mut msg, ds.as_str());
    push_str(&mut msg, " damage.");
    msg
}

/// The state between the player's swing and the end of the turn.
pub open spec fn attack_stage(o: AppState, m: AppState, i: int) -> bool {
    player_strike_post(o, m, i, false)
}

/// After a defeating blow: the message, the end of combat, a save.
pub open spec fn victory_post(m: AppState, n: AppState, r: Outcome<Effect>, name: Seq<char>) -> bool {
    &&& log_appended(m.log@, n.log@, seq![(LogSpeaker::Combat, name + " is defeated."@)])
    &&& n == (AppState {
        log: n.log,
        combat: None,
        mode: GameMode::Exploration,
        pending_transcript_index: Some(n.log@.len() as usize),
        ..m
    })
    &&& is_save_of(r, m.transcript_index)
}

/// An attack on the enemy of the current combat (see `handle_combat_attack`).
pub open spec fn combat_attack_post(o: AppState, n: AppState, r: Outcome<Effect>) -> bool {
    if o.mode != GameMode::Combat {
        unchanged_post(o, n, r)
    } else {
        match o.combat {
            None => unchanged_post(o, n, r),
            Some(c) => if !c.player_turn {
                unchanged_post(o, n, r)
            } else {
                match encounter_index(o.encounters@, c.enemy_id@) {
                    None => unchanged_post(o, n, r),
                    Some(i) => {
                        let e = o.encounters@[i];
                        if e.defeated {
                            unchanged_post(o, n, r)
                        } else if !adjacent(o.player.x, o.player.y, e.x, e.y) {
                            &&& log_appended(o.log@, n.log@, seq![(LogSpeaker::Combat, "Enemy out of range."@)])
                            &&& n == (AppState { log: n.log, ..o })
                            &&& r.changed && r.effects@.len() == 0
                        } else {
                            ||| exists|m: AppState| #[trigger] player_strike_post(o, m, i, true) && victory_post(m, n, r, e.name@)
                            ||| exists|m: AppState| #[trigger] attack_stage(o, m, i) && end_turn_post(m, n, r)
                        }
                    },
                }
            },
        }
    }
}

fn handle_combat_attack(state: &mut AppState) -> (r: Outcome<Effect>)
    requires
        attack_fits(*old(state)),
    ensures
        combat_attack_post(*old(state), *final(state), r),
{
    if state.mode != GameMode::Combat {
        return Outcome::unchanged();
    }
    let enemy_id = match &state.combat {
        None => return Outcome::unchanged(),
        Some(c) => {
            if !c.player_turn {
                return Outcome::unchanged();
            }
            c.enemy_id.clone()
        },
    };
    let idx = match find_encounter(&state.encounters, enemy_id.as_str()) {
        Some(i) => i,
        None => return Outcome::unchanged(),
    };
    if state.encounters[idx].defeated {
        return Outcome::unchanged();
    }
    if !is_adjacent(state.player.x, state.player.y, state.encounters[idx].x, state.encounters[idx].y) {
        log(state, LogSpeaker::Combat, owned("Enemy out of range."));
        return Outcome::changed();
    }
    let ghost o = *state;
    let name = state.encounters[idx].name.clone();
    let defeated = player_strike(state, idx);
    let ghost m = *state;
    if defeated {
        log(state, LogSpeaker::Combat, prefixed(name.as_str(), " is defeated."));
        state.combat = None;
        state.mode = GameMode::Exploration;
        let eff = save_effect(state);
        let r = Outcome::changed_with(eff);
        assert(player_strike_post(o, m, idx as int, true) && victory_post(m, *state, r, o.encounters@[idx as int].name@));
        return r;
    }
    assert(attack_stage(o, m, idx as int));
    proof {
        lemma_enc_index_same_ids(m.encounters@, o.encounters@, enemy_id@);
    }
    assert(end_turn_fits(m));
    handle_combat_end_turn(state)
}

/// Combat with enemy `id` opens: each side rolls a d20 for initiative, the
/// player adding the Dexterity modifier and winning ties.
pub open spec fn combat_start_stage(o: AppState, m: AppState, id: Seq<char>, i: int, player_turn: bool) -> bool {
    let e = o.encounters@[i];
    let p = die_value(o.rng_seed, 20) + modifier_spec(o.player.stats.dexterity as int);
    let s1 = lcg_step(o.rng_seed);
    let q = die_value(s1, 20);
    &&& player_turn == (p >= q)
    &&& m.combat matches Some(c) && c.enemy_id@ == id && c.player_turn == player_turn
        && c.movement_left == MOVEMENT_PER_TURN && c.round == 1
    &&& log_appended(
        o.log@,
        m.log@,
        seq![(LogSpeaker::Combat, "Combat begins with "@ + e.name@ + "!"@)]
            + if player_turn { seq![] } else { seq![(LogSpeaker::Combat, e.name@ + " acts first."@)] },
    )
    &&& m == (AppState {
        log: m.log,
        combat: m.combat,
        mode: GameMode::Combat,
        rng_seed: lcg_step(s1),
        ..o
    })
}

/// Starting combat with enemy `id`; an enemy that is missing or already
/// defeated changes nothing.
pub open spec fn start_combat_post(o: AppState, n: AppState, r: Outcome<Effect>, id: Seq<char>) -> bool {
    match encounter_index(o.encounters@, id) {
        None => unchanged_post(o, n, r),
        Some(i) => if o.encounters@[i].defeated {
            unchanged_post(o, n, r)
        } else {
            ||| combat_start_stage(o, n, id, i, true) && r.changed && r.effects@.len() == 0
            ||| exists|m: AppState| #[trigger] combat_start_stage(o, m, id, i, false) && enemy_turn_post(m, n, r, id)
        },
    }
}

fn start_combat(state: &mut AppState, enemy_id: String) -> (r: Outcome<Effect>)
    requires
        start_fits(*old(state), enemy_id@),
    ensures
        start_combat_post(*old(state), *final(state), r, enemy_id@),
{
    let idx = match find_encounter(&state.encounters, enemy_id.as_str()) {
        Some(i) => i,
        None => return Outcome::unchanged(),
    };
    if state.encounters[idx].defeated {
        return Outcome::unchanged();
    }
    let ghost o = *state;
    let name = state.encounters[idx].name.clone();
    let p = roll_d20(&mut state.rng_seed) + ability_modifier(state.ability_score(Ability::Dexterity));
    let q = roll_d20(&mut state.rng_seed);
    let player_turn = p >= q;
    let id_copy = enemy_id.clone();
    state.combat = Some(CombatState { enemy_id: id_copy, player_turn, movement_left: MOVEMENT_PER_TURN, round: 1 });
    state.mode = GameMode::Combat;
    let ghost l0 = state.log@;
    let mut msg = prefixed("Combat begins with ", name.as_str());
    push_str(&mut msg, "!");
    log(state, LogSpeaker::Combat, msg);
    if !player_turn {
        let ghost l1 = state.log@;
        log(state, LogSpeaker::Combat, prefixed(name.as_str(), " acts first."));
        proof {
            lemma_log_appended_trans(l0, l1, state.log@, seq![(LogSpeaker::Combat, msg@)], seq![(LogSpeaker::Combat, name@ + " acts first."@)]);
        }
        let ghost m = *state;
        assert(combat_start_stage(o, m, enemy_id@, idx as int, false));
        assert(enemy_turn_fits(m, enemy_id@));
        return resolve_enemy_turn(state, enemy_id.as_str());
    }
    assert(seq![(LogSpeaker::Combat, msg@)] + seq![] =~= seq![(LogSpeaker::Combat, msg@)]);
    Outcome::changed()
}

/// A step during combat: only on the player's turn with movement left,
/// onto a walkable tile free of NPCs and undefeated enemies; it uses one
/// point of movement.
pub open spec fn combat_move_post(o: AppState, n: AppState, r: Outcome<Effect>, dir: Direction) -> bool {
    let (x, y) = step_from(o.player.x, o.player.y, dir);
    match o.combat {
        None => unchanged_post(o, n, r),
        Some(c) => if !c.player_turn || c.movement_left == 0 || !o.map.walkable_at(x as int, y as int)
            || npc_at(o, x, y) || active_encounter_at(o, x, y) {
            unchanged_post(o, n, r)
        } else {
            &&& n == (AppState {
                player: crate::dndtui::state::PlayerState { x, y, ..o.player },
                combat: Some(CombatState { movement_left: (c.movement_left - 1) as u8, ..c }),
                ..o
            })
            &&& r.changed && r.effects@.len() == 0
        },
    }
}

fn handle_combat_move(state: &mut AppState, direction: Direction) -> (r: Outcome<Effect>)
    ensures
        combat_move_post(*old(state), *final(state), r, direction),
{
    match &state.combat {
        None => return Outcome::unchanged(),
        Some(c) => {
            if !c.player_turn || c.movement_left == 0 {
                return Outcome::unchanged();
            }
        },
    }
    let (x, y) = step(state.player.x, state.player.y, direction);
    if !state.map.is_walkable(x, y) {
        return Outcome::unchanged();
    }
    if has_npc_at(state, x, y) || active_encounter_index(state, x, y).is_some() {
        return Outcome::unchanged();
    }
    state.set_player_pos(x, y);
    match state.combat.take() {
        Some(c) => {
            state.combat = Some(
                CombatState {
                    enemy_id: c.enemy_id,
                    player_turn: c.player_turn,
                    movement_left: c.movement_left - 1,
                    round: c.round,
                },
            );
        },
        None => {},
    }
    Outcome::changed()
}

/// A step while exploring: onto a walkable tile without an NPC; bumping an
/// undefeated enemy starts combat with the first one there instead of
/// moving; otherwise the player moves and the enter triggers of the new
/// tile fire.
pub open spec fn explore_move_post(o: AppState, n: AppState, r: Outcome<Effect>, dir: Direction) -> bool {
    let (x, y) = step_from(o.player.x, o.player.y, dir);
    if !o.map.walkable_at(x as int, y as int) || npc_at(o, x, y) {
        unchanged_post(o, n, r)
    } else {
        match first_active_encounter_at(o.encounters@, x, y) {
            Some(i) => start_combat_post(o, n, r, o.encounters@[i].id@),
            None => {
                let (f, l) = run_triggers(
                    o.triggers@,
                    TriggerKind::OnEnter,
                    x,
                    y,
                    fired_ids(o.fired_triggers@),
                    seq![],
                );
                &&& fired_ids(n.fired_triggers@) == f
                &&& log_appended(o.log@, n.log@, l)
                &&& n == (AppState {
                    player: crate::dndtui::state::PlayerState { x, y, ..o.player },
                    fired_triggers: n.fired_triggers,
                    log: n.log,
                    ..o
                })
                &&& r.changed && r.effects@.len() == 0
            },
        }
    }
}

/// A move: during combat a combat step, while exploring an exploration
/// step, otherwise nothing.
pub open spec fn move_post(o: AppState, n: AppState, r: Outcome<Effect>, dir: Direction) -> bool {
    if o.mode == GameMode::Combat {
        combat_move_post(o, n, r, dir)
    } else if o.mode != GameMode::Exploration {
        unchanged_post(o, n, r)
    } else {
        explore_move_post(o, n, r, dir)
    }
}

fn handle_move(state: &mut AppState, direction: Direction) -> (r: Outcome<Effect>)
    requires
        move_fits(*old(state), direction),
    ensures
        move_post(*old(state), *final(state), r, direction),
{
    if state.mode == GameMode::CharacterCreation {
        return Outcome::unchanged();
    }
    if state.mode == GameMode::Combat {
        return handle_combat_move(state, direction);
    }
    if state.mode != GameMode::Exploration {
        return Outcome::unchanged();
    }
    let (x, y) = step(state.player.x, state.player.y, direction);
    if !state.map.is_walkable(x, y) {
        return Outcome::unchanged();
    }
    if has_npc_at(state, x, y) {
        return Outcome::unchanged();
    }
    match active_encounter_index(state, x, y) {
        Some(i) => {
            let id = state.encounters[i].id.clone();
            return start_combat(state, id);
        },
        None => {},
    }
    state.set_player_pos(x, y);
    check_triggers(state, TriggerKind::OnEnter);
    Outcome::changed()
}

/// Picking up what lies on the player's tile: the first item there leaves
/// the map for the inventory, then the interact triggers of the tile fire
/// and the game is saved. Nothing happens outside exploration.
pub open spec fn interact_post(o: AppState, n: AppState, r: Outcome<Effect>) -> bool {
    if o.mode != GameMode::Exploration {
        unchanged_post(o, n, r)
    } else {
        let (x, y) = (o.player.x, o.player.y);
        let (f, tl) = run_triggers(o.triggers@, TriggerKind::OnInteract, x, y, fired_ids(o.fired_triggers@), seq![]);
        &&& fired_ids(n.fired_triggers@) == f
        &&& is_save_of(r, o.transcript_index)
        &&& n.pending_transcript_index == Some(n.log@.len() as usize)
        &&& match first_where(o.items@, lies_at(x, y)) {
            Some(i) => {
                let it = o.items@[i];
                let inv = inventory_with(o.player.inventory@, it.id, it.name, it.qty);
                &&& log_appended(
                    o.log@,
                    n.log@,
                    seq![(LogSpeaker::System, "Picked up "@ + it.name@ + " x"@ + dec(it.qty as nat))] + tl,
                )
                &&& n == (AppState {
                    items: n.items,
                    player: crate::dndtui::state::PlayerState { inventory: n.player.inventory, ..o.player },
                    inventory_selected: clamped_selection(o.inventory_selected, inv.len() as int),
                    fired_triggers: n.fired_triggers,
                    log: n.log,
                    pending_transcript_index: n.pending_transcript_index,
                    ..o
                })
                &&& n.items@ == o.items@.remove(i)
                &&& n.player.inventory@ == inv
            },
            None => {
                &&& log_appended(o.log@, n.log@, tl)
                &&& n == (AppState {
                    fired_triggers: n.fired_triggers,
                    log: n.log,
                    pending_transcript_index: n.pending_transcript_index,
                    ..o
                })
            },
        }
    }
}

fn pickup_message(name: &String, qty: u16) -> (m: String)
    ensures
        m@ == "Picked up "@ + name@ + " x"@ + dec(qty as nat),
{
    let mut msg = prefixed("Picked up ", name.as_str());
    push_str(&mut msg, " x");
    let q = dec_u64(qty as u64);
    push_str(&mut msg, q.as_str());
    msg
}

fn item_index_at(items: &Vec<ItemState>, x: u16, y: u16) -> (r: Option<usize>)
    ensures
        match first_where(items@, lies_at(x, y)) {
            Some(i) => r matches Some(k) && k as int == i,
            None => r is None,
        },
        r matches Some(i) ==> i < items@.len(),
{
    let ghost p = lies_at(x, y);
    let mut i: usize = 0;
    while i < items.len()
        invariant
            i <= items@.len(),
            p == lies_at(x, y),
            forall|j: int| 0 <= j < i ==> !p(#[trigger] items@[j]),
        decreases items.len() - i,
    {
        if items[i].x == x && items[i].y == y {
            proof {
                lemma_first_where_at(items@, p, i as int);
            }
            return Some(i);
        }
        i = i + 1;
    }
    proof {
        lemma_first_where_at(items@, p, i as int);
    }
    None
}

fn handle_interact(state: &mut AppState) -> (r: Outcome<Effect>)
    ensures
        interact_post(*old(state), *final(state), r),
{
    if state.mode != GameMode::Exploration {
        return Outcome::unchanged();
    }
    let x = state.player.x;
    let y = state.player.y;
    let ghost o = *state;
    let found = item_index_at(&state.items, x, y);
    let ghost l0 = state.log@;
    let ghost pick: Seq<(LogSpeaker, Seq<char>)> = seq![];
    proof {
        lemma_log_appended_refl(l0);
    }
    if let Some(idx) = found {
        let item = state.items.remove(idx);
        let msg = pickup_message(&item.name, item.qty);
        add_item_to_inventory(state, item.id, item.name, item.qty);
        log(state, LogSpeaker::System, msg);
        proof {
            pick = seq![(LogSpeaker::System, msg@)];
            let it = o.items@[idx as int];
            assert(first_where(o.items@, lies_at(x, y)) == Some(idx as int));
            assert(state.items@ == o.items@.remove(idx as int));
            assert(state.player.inventory@ == inventory_with(o.player.inventory@, it.id, it.name, it.qty));
        }
    }
    let ghost l1 = state.log@;
    let ghost mid = *state;
    check_triggers(state, TriggerKind::OnInteract);
    proof {
        lemma_log_appended_trans(l0, l1, state.log@, pick, run_triggers(o.triggers@, TriggerKind::OnInteract, x, y, fired_ids(o.fired_triggers@), seq![]).1);
        if found is None {
            assert(seq![] + run_triggers(o.triggers@, TriggerKind::OnInteract, x, y, fired_ids(o.fired_triggers@), seq![]).1
                =~= run_triggers(o.triggers@, TriggerKind::OnInteract, x, y, fired_ids(o.fired_triggers@), seq![]).1);
        }
    }
    let e = save_effect(state);
    let r = Outcome::changed_with(e);
    proof {
        let n = *state;
        let (f, tl) = run_triggers(o.triggers@, TriggerKind::OnInteract, x, y, fired_ids(o.fired_triggers@), seq![]);
        assert(fired_ids(n.fired_triggers@) == f);
        assert(is_save_of(r, o.transcript_index));
        assert(n.pending_transcript_index == Some(n.log@.len() as usize));
        match first_where(o.items@, lies_at(x, y)) {
            Some(i) => {
                let it = o.items@[i];
                let inv = inventory_with(o.player.inventory@, it.id, it.name, it.qty);
                assert(n.items@ == o.items@.remove(i));
                assert(n.player.inventory@ == inv);
                assert(log_appended(o.log@, n.log@, seq![(LogSpeaker::System, "Picked up "@ + it.name@ + " x"@ + dec(it.qty as nat))] + tl));
            },
            None => {
                assert(log_appended(o.log@, n.log@, tl));
            },
        }
    }
    r
}

/// Talking: with the first NPC at most one step away the dialogue opens;
/// without one a message says so. Nothing happens outside exploration.
pub open spec fn talk_post(o: AppState, n: AppState, r: Outcome<Effect>) -> bool {
    if o.mode != GameMode::Exploration {
        unchanged_post(o, n, r)
    } else {
        &&& r.changed && r.effects@.len() == 0
        &&& match first_where(o.npcs@, near(o.player.x, o.player.y)) {
            None => {
                &&& log_appended(o.log@, n.log@, seq![(LogSpeaker::System, "No one nearby to talk to."@)])
                &&& n == (AppState { log: n.log, ..o })
            },
            Some(i) => {
                let npc = o.npcs@[i];
                &&& log_appended(o.log@, n.log@, seq![(LogSpeaker::System, "You approach "@ + npc.name@ + "."@)])
                &&& n.dialogue.active_npc == Some(npc.id)
                &&& n.dialogue.input@.len() == 0
                &&& n.dialogue.history == o.dialogue.history
                &&& n == (AppState { log: n.log, dialogue: n.dialogue, mode: GameMode::Dialogue, ..o })
            },
        }
    }
}

fn handle_talk(state: &mut AppState) -> (r: Outcome<Effect>)
    ensures
        talk_post(*old(state), *final(state), r),
{
    if state.mode != GameMode::Exploration {
        return Outcome::unchanged();
    }
    let x = state.player.x;
    let y = state.player.y;
    let ghost p = near(x, y);
    let mut i: usize = 0;
    while i < state.npcs.len()
        invariant
            i <= state.npcs@.len(),
            *state == *old(state),
            old(state).mode == GameMode::Exploration,
            x == old(state).player.x && y == old(state).player.y,
            p == near(x, y),
            forall|j: int| 0 <= j < i ==> !p(#[trigger] state.npcs@[j]),
        decreases state.npcs.len() - i,
    {
        if is_adjacent(state.npcs[i].x, state.npcs[i].y, x, y) {
            proof {
                lemma_first_where_at(state.npcs@, p, i as int);
            }
            let id = state.npcs[i].id.clone();
            let mut msg = prefixed("You approach ", state.npcs[i].name.as_str());
            push_str(&mut msg, ".");
            state.dialogue.active_npc = Some(id);
            state.dialogue.input = String::new();
            state.mode = GameMode::Dialogue;
            log(state, LogSpeaker::System, msg);
            return Outcome::changed();
        }
        i = i + 1;
    }
    proof {
        lemma_first_where_at(state.npcs@, p, i as int);
    }
    log(state, LogSpeaker::System, owned("No one nearby to talk to."));
    Outcome::changed()
}

/// Sending what the player said to the NPC in the dialogue: the trimmed
/// input joins the dialogue history and the log, and the request for the
/// NPC's reply goes out. Nothing happens while a reply is pending, without
/// an NPC, or with blank input; an NPC that has gone leaves the player's
/// line recorded and asks for nothing.
pub open spec fn dialogue_submit_post(o: AppState, n: AppState, r: Outcome<Effect>, schema: Seq<char>) -> bool {
    let input = trim(o.dialogue.input@);
    if o.pending_llm is Some || o.dialogue.active_npc is None || input.len() == 0 {
        unchanged_post(o, n, r)
    } else {
        let id = o.dialogue.active_npc->0;
        &&& n.dialogue.input@.len() == 0
        &&& n.dialogue.active_npc == o.dialogue.active_npc
        &&& n.dialogue.history@.len() == o.dialogue.history@.len() + 1
        &&& n.dialogue.history@.subrange(0, o.dialogue.history@.len() as int) == o.dialogue.history@
        &&& n.dialogue.history@.last().speaker@ == "user"@
        &&& n.dialogue.history@.last().text@ == input
        &&& log_appended(o.log@, n.log@, seq![(LogSpeaker::Player, input)])
        &&& match crate::dndtui::state::npc_index(o.npcs@, id@) {
            None => {
                &&& n == (AppState { dialogue: n.dialogue, log: n.log, ..o })
                &&& !r.changed && r.effects@.len() == 0
            },
            Some(i) => {
                &&& n.pending_llm matches Some(PendingLlm::Dialogue { npc_id }) && npc_id@ == id@
                &&& n == (AppState { dialogue: n.dialogue, log: n.log, pending_llm: n.pending_llm, ..o })
                &&& r.changed && r.effects@.len() == 1
                &&& r.effects@[0] matches Effect::CallLlmDialogue { npc_id, request } && npc_id@ == id@
                    && request.id == o.rng_seed && !request.stream && request.messages@.len() >= 2
                    && request.messages@[0].content@ == crate::dndtui::prompt::dialogue_system_prompt(
                    schema,
                    o.npcs@[i],
                    crate::dndtui::prompt::lore_text(o),
                ) && request.messages@.last().role@ == "user"@ && request.messages@.last().content@
                    == input
            },
        }
    }
}

fn handle_dialogue_submit(state: &mut AppState, schema: &str) -> (r: Outcome<Effect>)
    ensures
        dialogue_submit_post(*old(state), *final(state), r, schema@),
{
    if state.pending_llm.is_some() {
        return Outcome::unchanged();
    }
    let npc_id = match &state.dialogue.active_npc {
        Some(id) => id.clone(),
        None => return Outcome::unchanged(),
    };
    let input = owned(str_trim(state.dialogue.input.as_str()));
    if input.as_str().unicode_len() == 0 {
        return Outcome::unchanged();
    }
    state.dialogue.input = String::new();
    state.dialogue.history.push(DialogueLine { speaker: owned("user"), text: input.clone() });
    assert(state.dialogue.history@.subrange(0, old(state).dialogue.history@.len() as int) =~= old(state).dialogue.history@);
    log(state, LogSpeaker::Player, input.clone());
    let request = match state.npc_by_id(npc_id.as_str()) {
        Some(npc) => build_dialogue_request(state, npc, input.as_str(), schema),
        None => return Outcome::unchanged(),
    };
    state.pending_llm = Some(PendingLlm::Dialogue { npc_id: npc_id.clone() });
    Outcome::changed_with(Effect::CallLlmDialogue { npc_id, request })
}

/// Sending the player's free-form action for interpretation: it is logged
/// as `Action: ...` and the request goes out. Nothing happens while a reply
/// is pending or with blank input.
pub open spec fn custom_submit_post(o: AppState, n: AppState, r: Outcome<Effect>, schema: Seq<char>) -> bool {
    let input = trim(o.custom_action.input@);
    if o.pending_llm is Some || input.len() == 0 {
        unchanged_post(o, n, r)
    } else {
        &&& n.custom_action.input@.len() == 0
        &&& log_appended(o.log@, n.log@, seq![(LogSpeaker::Player, "Action: "@ + input)])
        &&& n.pending_llm matches Some(PendingLlm::CustomAction)
        &&& n == (AppState { custom_action: n.custom_action, log: n.log, pending_llm: n.pending_llm, ..o })
        &&& r.changed && r.effects@.len() == 1
        &&& r.effects@[0] matches Effect::CallLlmInterpretAction { request } && request.id == o.rng_seed
            && !request.stream && request.messages@.len() == 2 && request.messages@[0].content@
            == crate::dndtui::prompt::action_system_prompt(schema, crate::dndtui::prompt::lore_text(o), o.map.name@)
            && request.messages@[1].content@ == input
    }
}

fn handle_custom_action_submit(state: &mut AppState, schema: &str) -> (r: Outcome<Effect>)
    ensures
        custom_submit_post(*old(state), *final(state), r, schema@),
{
    if state.pending_llm.is_some() {
        return Outcome::unchanged();
    }
    let input = owned(str_trim(state.custom_action.input.as_str()));
    if input.as_str().unicode_len() == 0 {
        return Outcome::unchanged();
    }
    state.custom_action.input = String::new();
    log(state, LogSpeaker::Player, prefixed("Action: ", input.as_str()));
    let request = build_action_request(state, input.as_str(), schema);
    state.pending_llm = Some(PendingLlm::CustomAction);
    Outcome::changed_with(Effect::CallLlmInterpretAction { request })
}

/// The name of a skill as the check message shows it.
pub open spec fn skill_label(s: Skill) -> Seq<char> {
    match s {
        Skill::Athletics => "Athletics"@,
        Skill::Acrobatics => "Acrobatics"@,
        Skill::Stealth => "Stealth"@,
        Skill::Perception => "Perception"@,
        Skill::Persuasion => "Persuasion"@,
        Skill::Arcana => "Arcana"@,
    }
}

/// The name of an ability as the check message shows it.
pub open spec fn ability_label(a: Ability) -> Seq<char> {
    match a {
        Ability::Strength => "Strength"@,
        Ability::Dexterity => "Dexterity"@,
        Ability::Constitution => "Constitution"@,
        Ability::Intelligence => "Intelligence"@,
        Ability::Wisdom => "Wisdom"@,
        Ability::Charisma => "Charisma"@,
    }
}

/// The name of a difficulty as the check message shows it.
pub open spec fn difficulty_label(d: Difficulty) -> Seq<char> {
    match d {
        Difficulty::Easy => "Easy"@,
        Difficulty::Medium => "Medium"@,
        Difficulty::Hard => "Hard"@,
    }
}

pub fn skill_name(s: Skill) -> (r: &'static str)
    ensures
        r@ == skill_label(s),
{
    match s {
        Skill::Athletics => "Athletics",
        Skill::Acrobatics => "Acrobatics",
        Skill::Stealth => "Stealth",
        Skill::Perception => "Perception",
        Skill::Persuasion => "Persuasion",
        Skill::Arcana => "Arcana",
    }
}

pub fn ability_name(a: Ability) -> (r: &'static str)
    ensures
        r@ == ability_label(a),
{
    match a {
        Ability::Strength => "Strength",
        Ability::Dexterity => "Dexterity",
        Ability::Constitution => "Constitution",
        Ability::Intelligence => "Intelligence",
        Ability::Wisdom => "Wisdom",
        Ability::Charisma => "Charisma",
    }
}

pub fn difficulty_name(d: Difficulty) -> (r: &'static str)
    ensures
        r@ == difficulty_label(d),
{
    match d {
        Difficulty::Easy => "Easy",
        Difficulty::Medium => "Medium",
        Difficulty::Hard => "Hard",
    }
}

/// The line that reports a check.
pub open spec fn check_message(label: Seq<char>, d: Difficulty, dc: int, roll: int, modifier: int) -> Seq<char> {
    "Check "@ + label + " ("@ + difficulty_label(d) + ") DC "@ + dec_int(dc) + ": rolled "@ + dec_int(roll) + " "@
        + dec_signed(modifier) + " = "@ + dec_int(roll + modifier) + " => "@
        + if roll + modifier >= dc { "success"@ } else { "failure"@ }
}

fn check_message_exec(label: &str, d: Difficulty, dc: i32, roll: i32, modifier: i32) -> (m: String)
    requires
        -1_100_000_000 <= modifier <= 1_100_000_000,
        1 <= roll <= 20,
    ensures
        m@ == check_message(label@, d, dc as int, roll as int, modifier as int),
{
    let mut m = prefixed("Check ", label);
    push_str(&mut m, " (");
    push_str(&mut m, difficulty_name(d));
    push_str(&mut m, ") DC ");
    let s = dec_i64(dc as i64);
    push_str(&mut m, s.as_str());
    push_str(&mut m, ": rolled ");
    let s = dec_i64(roll as i64);
    push_str(&mut m, s.as_str());
    push_str(&mut m, " ");
    let s = dec_signed_i64(modifier as i64);
    push_str(&mut m, s.as_str());
    push_str(&mut m, " = ");
    let s = dec_i64((roll + modifier) as i64);
    push_str(&mut m, s.as_str());
    push_str(&mut m, " => ");
    if roll + modifier >= dc {
        push_str(&mut m, "success");
    } else {
        push_str(&mut m, "failure");
    }
    m
}

/// Resolving an interpreted action as one check: a kind other than
/// `skill_check` is noted, the skill or ability and the difficulty are read
/// from the reply, a d20 plus the modifier is rolled against the DC, the
/// check and the matching outcome text are logged, and the game returns to
/// exploration and is saved.
pub open spec fn custom_result_post(o: AppState, n: AppState, r: Outcome<Effect>, a: ActionInterpretation) -> bool {
    let kind = spec_to_lowercase(trim(a.kind@));
    let check = crate::dndtui::rules::check_for_key(spec_to_lowercase(trim(a.skill@)));
    let d = crate::dndtui::rules::difficulty_for_key(spec_to_lowercase(trim(a.difficulty@)));
    let dc = crate::dndtui::rules::dc_spec(d) as int;
    let (label, ability) = match check {
        CheckKind::Skill(sk) => (skill_label(sk), crate::dndtui::rules::skill_ability(sk)),
        CheckKind::Ability(ab) => (ability_label(ab), ab),
    };
    let modifier = modifier_spec(o.player.stats.score(ability) as int);
    let roll = die_value(o.rng_seed, 20);
    let note: Seq<(LogSpeaker, Seq<char>)> = if kind.len() > 0 && kind != "skill_check"@ {
        seq![(LogSpeaker::System, "Interpreting '"@ + kind + "' as a skill check."@)]
    } else {
        seq![]
    };
    let outcome = if roll + modifier >= dc { a.on_success@ } else { a.on_failure@ };
    &&& log_appended(
        o.log@,
        n.log@,
        note + seq![
            (LogSpeaker::System, check_message(label, d, dc, roll, modifier)),
            (LogSpeaker::System, outcome),
        ],
    )
    &&& n == (AppState {
        log: n.log,
        rng_seed: lcg_step(o.rng_seed),
        mode: GameMode::Exploration,
        pending_transcript_index: Some(n.log@.len() as usize),
        ..o
    })
    &&& is_save_of(r, o.transcript_index)
}

fn handle_custom_action_result(state: &mut AppState, result: ActionInterpretation) -> (r: Outcome<
    Effect,
>)
    ensures
        custom_result_post(*old(state), *final(state), r, result),
{
    let ghost l0 = state.log@;
    let kind = str_to_lowercase(str_trim(result.kind.as_str()));
    let ghost note: Seq<(LogSpeaker, Seq<char>)> = seq![];
    proof {
        lemma_log_appended_refl(l0);
    }
    if kind.as_str().unicode_len() > 0 && !str_eq(kind.as_str(), "skill_check") {
        let mut msg = prefixed("Interpreting '", kind.as_str());
        push_str(&mut msg, "' as a skill check.");
        log(state, LogSpeaker::System, msg);
        proof {
            note = seq![(LogSpeaker::System, msg@)];
        }
    }
    let check = parse_skill_or_ability(result.skill.as_str());
    let difficulty = parse_difficulty(result.difficulty.as_str());
    let dc = difficulty_dc(difficulty);
    let (label, ability) = match check {
        CheckKind::Skill(skill) => (skill_name(skill), skill_to_ability(skill)),
        CheckKind::Ability(ability) => (ability_name(ability), ability),
    };
    let modifier = ability_modifier(state.ability_score(ability));
    let roll = roll_d20(&mut state.rng_seed);
    assert(-1_100_000_000 <= modifier <= 1_100_000_000);
    let ghost l1 = state.log@;
    let msg = check_message_exec(label, difficulty, dc, roll, modifier);
    log(state, LogSpeaker::System, msg);
    let ghost l2 = state.log@;
    let outcome = if roll + modifier >= dc {
        result.on_success
    } else {
        result.on_failure
    };
    log(state, LogSpeaker::System, outcome);
    proof {
        lemma_log_appended_trans(l1, l2, state.log@, seq![(LogSpeaker::System, msg@)], seq![(LogSpeaker::System, outcome@)]);
        lemma_log_appended_trans(l0, l1, state.log@, note, seq![(LogSpeaker::System, msg@)] + seq![(LogSpeaker::System, outcome@)]);
        assert(seq![(LogSpeaker::System, msg@)] + seq![(LogSpeaker::System, outcome@)] =~= seq![(LogSpeaker::System, msg@), (LogSpeaker::System, outcome@)]);
    }
    state.mode = GameMode::Exploration;
    let e = save_effect(state);
    Outcome::changed_with(e)
}

/// The row of the creation screen's stat list above (`down` false) or
/// below the selected one, wrapping round its six rows.
pub fn stat_row_step(selected: usize, down: bool) -> (r: usize)
    requires
        selected + 5 <= usize::MAX,
    ensures
        r < 6,
        r == (if down { selected + 1 } else { selected + 5 }) % 6,
{
    if down {
        (selected + 1) % 6
    } else {
        (selected + 5) % 6
    }
}

/// Moving down the stat list and back up returns to the same row.
pub proof fn law_stat_row_round_trip(selected: int)
    requires
        0 <= selected < 6,
    ensures
        ((selected + 1) % 6 + 5) % 6 == selected,
        ((selected + 5) % 6 + 1) % 6 == selected,
{
}

/// The ability edited at a position of the creation screen's stat list.
pub open spec fn stat_at(index: usize) -> Ability {
    if index == 0 {
        Ability::Strength
    } else if index == 1 {
        Ability::Dexterity
    } else if index == 2 {
        Ability::Constitution
    } else if index == 3 {
        Ability::Intelligence
    } else if index == 4 {
        Ability::Wisdom
    } else {
        Ability::Charisma
    }
}

fn stat_for_index(index: usize) -> (a: Ability)
    ensures
        a == stat_at(index),
{
    match index {
        0 => Ability::Strength,
        1 => Ability::Dexterity,
        2 => Ability::Constitution,
        3 => Ability::Intelligence,
        4 => Ability::Wisdom,
        _ => Ability::Charisma,
    }
}

/// `v` kept within the point buy's 8..=15.
pub open spec fn clamp_point_buy(v: int) -> i32 {
    if v < 8 { 8 } else if v > 15 { 15 } else { v as i32 }
}

/// Adjusting the selected stat by `delta` within 8..=15, then recounting
/// the points left of the 27-point budget.
pub open spec fn adjust_stat_post(o: AppState, n: AppState, delta: i8) -> bool {
    let ab = stat_at(o.creation.selected_stat);
    let stats = o.creation.stats.with_score(ab, clamp_point_buy(o.creation.stats.score(ab) + delta));
    n == (AppState {
        creation: crate::dndtui::state::CharacterCreationState {
            stats,
            points_remaining: crate::dndtui::rules::points_remaining_spec(stats, 27) as i32,
            ..o.creation
        },
        ..o
    })
}

fn adjust_stat(state: &mut AppState, delta: i8)
    ensures
        adjust_stat_post(*old(state), *final(state), delta),
{
    let ability = stat_for_index(state.creation.selected_stat);
    let current = state.creation.stats.get(ability) as i64 + delta as i64;
    let next: i32 = if current < 8 {
        8
    } else if current > 15 {
        15
    } else {
        current as i32
    };
    state.creation.stats.set(ability, next);
    state.creation.points_remaining = points_remaining(&state.creation.stats, 27);
}

/// The creation step after (or before) `step`; the ends stay put.
pub open spec fn next_step(step: CreationStep, forward: bool) -> CreationStep {
    match (step, forward) {
        (CreationStep::Name, true) => CreationStep::Class,
        (CreationStep::Class, true) => CreationStep::Background,
        (CreationStep::Background, true) => CreationStep::Stats,
        (CreationStep::Stats, true) => CreationStep::Confirm,
        (CreationStep::Confirm, true) => CreationStep::Confirm,
        (CreationStep::Confirm, false) => CreationStep::Stats,
        (CreationStep::Stats, false) => CreationStep::Background,
        (CreationStep::Background, false) => CreationStep::Class,
        (CreationStep::Class, false) => CreationStep::Name,
        (CreationStep::Name, false) => CreationStep::Name,
    }
}

fn advance_creation(state: &mut AppState, forward: bool)
    ensures
        *final(state) == (AppState {
            creation: crate::dndtui::state::CharacterCreationState {
                step: next_step(old(state).creation.step, forward),
                ..old(state).creation
            },
            ..*old(state)
        }),
{
    state.creation.step = match (state.creation.step, forward) {
        (CreationStep::Name, true) => CreationStep::Class,
        (CreationStep::Class, true) => CreationStep::Background,
        (CreationStep::Background, true) => CreationStep::Stats,
        (CreationStep::Stats, true) => CreationStep::Confirm,
        (CreationStep::Confirm, true) => CreationStep::Confirm,
        (CreationStep::Confirm, false) => CreationStep::Stats,
        (CreationStep::Stats, false) => CreationStep::Background,
        (CreationStep::Background, false) => CreationStep::Class,
        (CreationStep::Class, false) => CreationStep::Name,
        (CreationStep::Name, false) => CreationStep::Name,
    };
}

/// Finishing character creation: with an overspent point buy only a
/// message; otherwise the player takes the name (trimmed, `Adventurer` when
/// blank), class, background and stats chosen, with hit points the class
/// base plus the Constitution modifier (at least 1), and exploration
/// begins with a welcome and a save.
pub open spec fn finalize_post(o: AppState, n: AppState, r: Outcome<Effect>) -> bool {
    if o.creation.points_remaining < 0 {
        &&& log_appended(o.log@, n.log@, seq![(LogSpeaker::System, "Point buy is invalid."@)])
        &&& n == (AppState { log: n.log, ..o })
        &&& r.changed && r.effects@.len() == 0
    } else {
        let class = if o.creation.class_index < 5 {
            crate::dndtui::rules::class_options()[o.creation.class_index as int]
        } else {
            "Adventurer"@
        };
        let background = if o.creation.background_index < 5 {
            crate::dndtui::rules::background_options()[o.creation.background_index as int]
        } else {
            "Wanderer"@
        };
        let trimmed = trim(o.creation.name@);
        let name = if trimmed.len() == 0 { "Adventurer"@ } else { trimmed };
        let hp = at_least_one(
            crate::dndtui::rules::class_hp_for_key(spec_to_lowercase(class)) + modifier_spec(
                o.creation.stats.constitution as int,
            ),
        );
        &&& n.player.name@ == name
        &&& n.player.class_name@ == class
        &&& n.player.background@ == background
        &&& n.player == (crate::dndtui::state::PlayerState {
            name: n.player.name,
            class_name: n.player.class_name,
            background: n.player.background,
            stats: o.creation.stats,
            max_hp: hp as i32,
            hp: hp as i32,
            ..o.player
        })
        &&& log_appended(o.log@, n.log@, seq![(LogSpeaker::System, "Welcome, "@ + name + " the "@ + class + "."@)])
        &&& n == (AppState {
            player: n.player,
            log: n.log,
            mode: GameMode::Exploration,
            pending_transcript_index: Some(n.log@.len() as usize),
            ..o
        })
        &&& is_save_of(r, o.transcript_index)
    }
}

fn finalize_creation(state: &mut AppState) -> (r: Outcome<Effect>)
    ensures
        finalize_post(*old(state), *final(state), r),
{
    if state.creation.points_remaining < 0 {
        log(state, LogSpeaker::System, owned("Point buy is invalid."));
        return Outcome::changed();
    }
    let class_name = match class_option(state.creation.class_index) {
        Some(c) => c,
        None => "Adventurer",
    };
    let background = match background_option(state.creation.background_index) {
        Some(b) => b,
        None => "Wanderer",
    };
    let trimmed = owned(str_trim(state.creation.name.as_str()));
    let name = if trimmed.as_str().unicode_len() == 0 {
        owned("Adventurer")
    } else {
        trimmed
    };
    state.player.name = name;
    state.player.class_name = owned(class_name);
    state.player.background = owned(background);
    state.player.stats = state.creation.stats;
    let con_mod = ability_modifier(state.player.stats.get(Ability::Constitution));
    let base = class_base_hp(class_name) + con_mod;
    let hp = if base >= 1 { base } else { 1 };
    state.player.max_hp = hp;
    state.player.hp = hp;
    state.mode = GameMode::Exploration;
    let mut msg = prefixed("Welcome, ", state.player.name.as_str());
    push_str(&mut msg, " the ");
    push_str(&mut msg, class_name);
    push_str(&mut msg, ".");
    log(state, LogSpeaker::System, msg);
    let e = save_effect(state);
    Outcome::changed_with(e)
}

/// Confirming the main menu: the first entry starts a new game, the second
/// loads the save when there is one; anything else does nothing.
pub open spec fn menu_confirm_post(o: AppState, n: AppState, r: Outcome<Effect>) -> bool {
    match o.menu {
        None => unchanged_post(o, n, r),
        Some(m) => if m.selected == 0 {
            new_game_post(o, n, r)
        } else if m.selected == 1 && m.has_save {
            &&& n == (AppState { menu: None, ..o })
            &&& r.changed && r.effects@.len() == 1
            &&& r.effects@[0] matches Effect::LoadGame { path } && path@ == o.save_path@
        } else {
            unchanged_post(o, n, r)
        },
    }
}

/// A new game: a fresh state keeping the paths, provider, model and
/// terminal size, with the scenario asked for.
pub open spec fn new_game_post(o: AppState, n: AppState, r: Outcome<Effect>) -> bool {
    &&& crate::dndtui::state::is_fresh_state(
        AppState { terminal_size: (80u16, 24u16), ..n },
        n.scenario_dir,
        n.save_path,
        n.provider,
        n.model,
    )
    &&& n.scenario_dir@ == o.scenario_dir@ && n.save_path@ == o.save_path@
    &&& n.provider == o.provider && n.model@ == o.model@
    &&& n.terminal_size == o.terminal_size
    &&& r.changed && r.effects@.len() == 1
    &&& r.effects@[0] matches Effect::LoadScenario { path } && path@ == o.scenario_dir@
}

fn start_new_game(state: &mut AppState) -> (r: Outcome<Effect>)
    ensures
        new_game_post(*old(state), *final(state), r),
{
    let scenario_dir = state.scenario_dir.clone();
    let save_path = state.save_path.clone();
    let provider = state.provider;
    let model = state.model.clone();
    let terminal_size = state.terminal_size;
    let path = scenario_dir.clone();
    *state = AppState::new(scenario_dir, save_path, provider, model);
    state.terminal_size = terminal_size;
    state.menu = None;
    state.pause_menu = PauseMenuState::default();
    Outcome::changed_with(Effect::LoadScenario { path })
}

fn menu_confirm(state: &mut AppState) -> (r: Outcome<Effect>)
    ensures
        menu_confirm_post(*old(state), *final(state), r),
{
    let (selected, has_save) = match &state.menu {
        None => return Outcome::unchanged(),
        Some(m) => (m.selected, m.has_save),
    };
    if selected == 0 {
        start_new_game(state)
    } else if selected == 1 && has_save {
        state.menu = None;
        Outcome::changed_with(Effect::LoadGame { path: state.save_path.clone() })
    } else {
        Outcome::unchanged()
    }
}

/// Confirming the pause menu: resume, save, or quit to the main menu.
pub open spec fn pause_confirm_post(o: AppState, n: AppState, r: Outcome<Effect>) -> bool {
    if o.pause_menu.selected == 0 {
        &&& n == (AppState { pause_menu: PauseMenuState { is_open: false, ..o.pause_menu }, ..o })
        &&& r.changed && r.effects@.len() == 0
    } else if o.pause_menu.selected == 1 {
        &&& n == (AppState { pending_transcript_index: Some(o.log@.len() as usize), ..o })
        &&& is_save_of(r, o.transcript_index)
    } else {
        &&& n == (AppState {
            pause_menu: PauseMenuState { is_open: false, ..o.pause_menu },
            mode: GameMode::MainMenu,
            menu: Some(MenuState { selected: 0, has_save: false }),
            ..o
        })
        &&& r.changed && r.effects@.len() == 1
        &&& r.effects@[0] matches Effect::CheckSaveExists { path } && path@ == o.save_path@
    }
}

fn pause_confirm(state: &mut AppState) -> (r: Outcome<Effect>)
    ensures
        pause_confirm_post(*old(state), *final(state), r),
{
    if state.pause_menu.selected == 0 {
        state.pause_menu.is_open = false;
        Outcome::changed()
    } else if state.pause_menu.selected == 1 {
        let e = save_effect(state);
        Outcome::changed_with(e)
    } else {
        state.pause_menu.is_open = false;
        state.mode = GameMode::MainMenu;
        state.menu = Some(MenuState { selected: 0, has_save: false });
        Outcome::changed_with(Effect::CheckSaveExists { path: state.save_path.clone() })
    }
}

/// The summary of a scenario kept in the state.
pub open spec fn summary_of(sc: ScenarioRuntime) -> ScenarioManifestSummary {
    ScenarioManifestSummary { id: sc.manifest.id, name: sc.manifest.name, lore: sc.manifest.lore }
}

/// A loaded scenario: a game already under way (a real map with NPCs)
/// only records the scenario; otherwise its map, NPCs, items, encounters
/// and triggers replace the state's, and a player still at the origin
/// moves to the scenario's start.
pub open spec fn apply_scenario_post(o: AppState, n: AppState, sc: ScenarioRuntime) -> bool {
    if o.map.width > 1 && o.npcs@.len() > 0 {
        n == (AppState { scenario: Some(summary_of(sc)), ..o })
    } else {
        n == (AppState {
            map: sc.map,
            npcs: sc.npcs,
            items: sc.items,
            encounters: sc.encounters,
            triggers: sc.triggers,
            scenario: Some(summary_of(sc)),
            player: if o.player.x == 0 && o.player.y == 0 {
                crate::dndtui::state::PlayerState {
                    x: sc.manifest.player_start.x,
                    y: sc.manifest.player_start.y,
                    ..o.player
                }
            } else {
                o.player
            },
            ..o
        })
    }
}

fn apply_scenario(state: &mut AppState, scenario: ScenarioRuntime)
    ensures
        apply_scenario_post(*old(state), *final(state), scenario),
{
    let ScenarioRuntime { manifest, map, npcs, items, encounters, triggers } = scenario;
    let start = manifest.player_start;
    let summary = ScenarioManifestSummary { id: manifest.id, name: manifest.name, lore: manifest.lore };
    if state.map.width > 1 && state.npcs.len() > 0 {
        state.scenario = Some(summary);
        return;
    }
    state.map = map;
    state.npcs = npcs;
    state.items = items;
    state.encounters = encounters;
    state.triggers = triggers;
    state.scenario = Some(summary);
    if state.player.x == 0 && state.player.y == 0 {
        state.player.x = start.x;
        state.player.y = start.y;
    }
}

/// Only the mode changes; nothing is asked of the runtime.
pub open spec fn mode_post(o: AppState, n: AppState, r: Outcome<Effect>, mode: GameMode) -> bool {
    n == (AppState { mode, ..o }) && r.changed && r.effects@.len() == 0
}

/// The log scroll after scrolling by `delta`, kept within `u16`.
pub open spec fn scrolled(current: u16, delta: i16) -> u16 {
    let v = current + delta;
    if v < 0 { 0 } else if v > u16::MAX { u16::MAX } else { v as u16 }
}

/// What the reducer does with each action.
pub open spec fn reducer_post(o: AppState, n: AppState, r: Outcome<Effect>, action: Action, schemas: PromptSchemas) -> bool {
    match action {
        Action::Init => {
            &&& n == (AppState {
                mode: GameMode::MainMenu,
                menu: Some(MenuState { selected: 0, has_save: false }),
                pause_menu: PauseMenuState { is_open: false, selected: 0 },
                ..o
            })
            &&& r.changed && r.effects@.len() == 2
            &&& r.effects@[0] matches Effect::LoadScenario { path } && path@ == o.scenario_dir@
            &&& r.effects@[1] matches Effect::CheckSaveExists { path } && path@ == o.save_path@
        },
        Action::UiTerminalResize(w, h) => n == (AppState { terminal_size: (w, h), ..o }) && r.changed
            && r.effects@.len() == 0,
        Action::UiRender => n == o && r.changed && r.effects@.len() == 0,
        Action::Tick => if o.pending_llm is Some || o.pending_transcript_index is Some {
            n == (AppState { spinner_frame: (if o.spinner_frame < 255 { o.spinner_frame + 1 } else { 0 }) as u8, ..o })
                && r.changed && r.effects@.len() == 0
        } else if o.spinner_frame != 0 {
            n == (AppState { spinner_frame: 0, ..o }) && r.changed && r.effects@.len() == 0
        } else {
            unchanged_post(o, n, r)
        },
        Action::Move(d) => move_post(o, n, r, d),
        Action::Interact => interact_post(o, n, r),
        Action::Talk => talk_post(o, n, r),
        Action::OpenInventory => n == (AppState {
            mode: GameMode::Inventory,
            inventory_selected: clamped_selection(o.inventory_selected, o.player.inventory@.len() as int),
            ..o
        }) && r.changed && r.effects@.len() == 0,
        Action::InventorySelect(i) => n == (AppState {
            inventory_selected: clamped_selection(i, o.player.inventory@.len() as int),
            ..o
        }) && r.changed && r.effects@.len() == 0,
        Action::OpenCustomAction => n.custom_action.input@.len() == 0 && n == (AppState {
            mode: GameMode::CustomAction,
            custom_action: n.custom_action,
            ..o
        }) && r.changed && r.effects@.len() == 0,
        Action::CloseOverlay => mode_post(o, n, r, GameMode::Exploration),
        Action::MenuSelect(i) => n == (AppState {
            menu: match o.menu {
                Some(m) => Some(MenuState { selected: i, ..m }),
                None => None,
            },
            ..o
        }) && r.changed && r.effects@.len() == 0,
        Action::MenuConfirm => menu_confirm_post(o, n, r),
        Action::SaveExists(b) => n == (AppState {
            menu: match o.menu {
                Some(m) => Some(MenuState { has_save: b, ..m }),
                None => None,
            },
            ..o
        }) && r.changed && r.effects@.len() == 0,
        Action::PauseOpen => n == (AppState { pause_menu: PauseMenuState { is_open: true, selected: 0 }, ..o })
            && r.changed && r.effects@.len() == 0,
        Action::PauseClose => n == (AppState {
            pause_menu: PauseMenuState { is_open: false, ..o.pause_menu },
            ..o
        }) && r.changed && r.effects@.len() == 0,
        Action::PauseSelect(i) => n == (AppState {
            pause_menu: PauseMenuState { selected: i, ..o.pause_menu },
            ..o
        }) && r.changed && r.effects@.len() == 0,
        Action::PauseConfirm => pause_confirm_post(o, n, r),
        Action::DialogueInputChanged(text) => n == (AppState {
            dialogue: crate::dndtui::state::DialogueState { input: text, ..o.dialogue },
            ..o
        }) && r.changed && r.effects@.len() == 0,
        Action::DialogueSubmit => dialogue_submit_post(o, n, r, schemas.dialogue@),
        Action::DialogueResponse { npc_id, line } => {
            &&& n.dialogue.history@.len() == o.dialogue.history@.len() + 1
            &&& n.dialogue.history@.subrange(0, o.dialogue.history@.len() as int) == o.dialogue.history@
            &&& n.dialogue.history@.last().speaker@ == "assistant"@
            &&& n.dialogue.history@.last().text@ == line@
            &&& n.dialogue.active_npc is None && n.dialogue.input == o.dialogue.input
            &&& log_appended(o.log@, n.log@, seq![(LogSpeaker::Npc, npc_id@ + ": "@ + line@)])
            &&& n == (AppState {
                pending_llm: None,
                dialogue: n.dialogue,
                log: n.log,
                mode: GameMode::Exploration,
                pending_transcript_index: Some(n.log@.len() as usize),
                ..o
            })
            &&& is_save_of(r, o.transcript_index)
        },
        Action::CustomActionInputChanged(text) => n == (AppState {
            custom_action: crate::dndtui::state::CustomActionState { input: text },
            ..o
        }) && r.changed && r.effects@.len() == 0,
        Action::CustomActionSubmit => custom_submit_post(o, n, r, schemas.action@),
        Action::CustomActionInterpreted(a) => custom_result_post(AppState { pending_llm: None, ..o }, n, r, a),
        Action::CombatAttack => combat_attack_post(o, n, r),
        Action::CombatEndTurn => end_turn_post(o, n, r),
        Action::ScrollLog(delta) => n == (AppState { log_scroll: scrolled(o.log_scroll, delta), ..o })
            && r.changed && r.effects@.len() == 0,
        Action::CreationNameChanged(v) => n == (AppState {
            creation: crate::dndtui::state::CharacterCreationState { name: v, ..o.creation },
            ..o
        }) && r.changed && r.effects@.len() == 0,
        Action::CreationSelectClass(i) => n == (AppState {
            creation: crate::dndtui::state::CharacterCreationState {
                class_index: if i < 4 { i } else { 4 },
                ..o.creation
            },
            ..o
        }) && r.changed && r.effects@.len() == 0,
        Action::CreationSelectBackground(i) => n == (AppState {
            creation: crate::dndtui::state::CharacterCreationState {
                background_index: if i < 4 { i } else { 4 },
                ..o.creation
            },
            ..o
        }) && r.changed && r.effects@.len() == 0,
        Action::CreationSelectStat(i) => n == (AppState {
            creation: crate::dndtui::state::CharacterCreationState {
                selected_stat: if i < 5 { i } else { 5 },
                ..o.creation
            },
            ..o
        }) && r.changed && r.effects@.len() == 0,
        Action::CreationAdjustStat(d) => adjust_stat_post(o, n, d) && r.changed && r.effects@.len() == 0,
        Action::CreationNext => n == (AppState {
            creation: crate::dndtui::state::CharacterCreationState {
                step: next_step(o.creation.step, true),
                ..o.creation
            },
            ..o
        }) && r.changed && r.effects@.len() == 0,
        Action::CreationBack => n == (AppState {
            creation: crate::dndtui::state::CharacterCreationState {
                step: next_step(o.creation.step, false),
                ..o.creation
            },
            ..o
        }) && r.changed && r.effects@.len() == 0,
        Action::CreationConfirm => finalize_post(o, n, r),
        Action::SaveComplete => n == (AppState {
            transcript_index: match o.pending_transcript_index {
                Some(p) => p,
                None => o.transcript_index,
            },
            pending_transcript_index: None,
            menu: match o.menu {
                Some(m) => Some(MenuState { has_save: true, ..m }),
                None => None,
            },
            ..o
        }) && r.changed && r.effects@.len() == 0,
        Action::SaveError(e) => {
            &&& log_appended(o.log@, n.log@, seq![(LogSpeaker::System, "Save failed: "@ + e@)])
            &&& n == (AppState { pending_transcript_index: None, log: n.log, ..o })
            &&& r.changed && r.effects@.len() == 0
        },
        Action::LoadComplete(loaded) => {
            &&& n == (AppState {
                scenario_dir: o.scenario_dir,
                save_path: o.save_path,
                provider: o.provider,
                model: o.model,
                inventory_selected: clamped_selection(
                    loaded.inventory_selected,
                    loaded.player.inventory@.len() as int,
                ),
                ..*loaded
            })
            &&& r.changed && r.effects@.len() == 0
        },
        Action::LoadError(e) => {
            &&& if missing_save(e@) {
                n == o
            } else {
                log_appended(o.log@, n.log@, seq![(LogSpeaker::System, "Load failed: "@ + e@)]) && n == (
                AppState { log: n.log, ..o })
            }
            &&& r.changed && r.effects@.len() == 0
        },
        Action::ScenarioLoaded { scenario } => apply_scenario_post(o, n, scenario) && r.changed
            && r.effects@.len() == 0,
        Action::ScenarioLoadError { error } => {
            &&& log_appended(o.log@, n.log@, seq![(LogSpeaker::System, "Scenario load failed: "@ + error@)])
            &&& n == (AppState { log: n.log, ..o })
            &&& r.changed && r.effects@.len() == 0
        },
        Action::LlmError(e) => {
            &&& log_appended(o.log@, n.log@, seq![(LogSpeaker::System, "LLM error: "@ + e@)])
            &&& n == (AppState {
                pending_llm: None,
                log: n.log,
                mode: if o.mode == GameMode::Dialogue || o.mode == GameMode::CustomAction {
                    GameMode::Exploration
                } else {
                    o.mode
                },
                ..o
            })
            &&& r.changed && r.effects@.len() == 0
        },
        Action::Quit => unchanged_post(o, n, r),
    }
}

/// Applies one action to the adventure. `schemas` are the JSON schemas the
/// model's replies must follow; they go into the requests sent to it.
pub fn reducer(state: &mut AppState, action: Action, schemas: &PromptSchemas) -> (r: Outcome<Effect>)
    requires
        action_fits(*old(state), action),
    ensures
        reducer_post(*old(state), *final(state), r, action, *schemas),
{
    match action {
        Action::Init => {
            state.mode = GameMode::MainMenu;
            state.menu = Some(MenuState { selected: 0, has_save: false });
            state.pause_menu = PauseMenuState::default();
            let mut effects: Vec<Effect> = Vec::new();
            effects.push(Effect::LoadScenario { path: state.scenario_dir.clone() });
            effects.push(Effect::CheckSaveExists { path: state.save_path.clone() });
            Outcome::changed_with_many(effects)
        },
        Action::UiTerminalResize(width, height) => {
            state.terminal_size = (width, height);
            Outcome::changed()
        },
        Action::UiRender => Outcome::changed(),
        Action::Tick => {
            if state.pending_llm.is_some() || state.pending_transcript_index.is_some() {
                state.spinner_frame = state.spinner_frame.wrapping_add(1);
                Outcome::changed()
            } else if state.spinner_frame != 0 {
                state.spinner_frame = 0;
                Outcome::changed()
            } else {
                Outcome::unchanged()
            }
        },
        Action::Move(direction) => handle_move(state, direction),
        Action::Interact => handle_interact(state),
        Action::Talk => handle_talk(state),
        Action::OpenInventory => {
            state.mode = GameMode::Inventory;
            clamp_inventory_selection(state);
            Outcome::changed()
        },
        Action::InventorySelect(index) => {
            state.inventory_selected = index;
            clamp_inventory_selection(state);
            Outcome::changed()
        },
        Action::OpenCustomAction => {
            state.mode = GameMode::CustomAction;
            state.custom_action.input = String::new();
            Outcome::changed()
        },
        Action::CloseOverlay => {
            state.mode = GameMode::Exploration;
            Outcome::changed()
        },
        Action::MenuSelect(index) => {
            if let Some(m) = &mut state.menu {
                m.selected = index;
            }
            Outcome::changed()
        },
        Action::MenuConfirm => menu_confirm(state),
        Action::PauseOpen => {
            state.pause_menu.is_open = true;
            state.pause_menu.selected = 0;
            Outcome::changed()
        },
        Action::PauseClose => {
            state.pause_menu.is_open = false;
            Outcome::changed()
        },
        Action::PauseSelect(index) => {
            state.pause_menu.selected = index;
            Outcome::changed()
        },
        Action::PauseConfirm => pause_confirm(state),
        Action::DialogueInputChanged(input) => {
            state.dialogue.input = input;
            Outcome::changed()
        },
        Action::DialogueSubmit => handle_dialogue_submit(state, schemas.dialogue.as_str()),
        Action::DialogueResponse { npc_id, line } => {
            state.pending_llm = None;
            let mut text = prefixed(npc_id.as_str(), ": ");
            push_str(&mut text, line.as_str());
            state.dialogue.history.push(DialogueLine { speaker: owned("assistant"), text: line });
            assert(state.dialogue.history@.subrange(0, old(state).dialogue.history@.len() as int)
                =~= old(state).dialogue.history@);
            log(state, LogSpeaker::Npc, text);
            state.dialogue.active_npc = None;
            state.mode = GameMode::Exploration;
            let e = save_effect(state);
            Outcome::changed_with(e)
        },
        Action::CustomActionInputChanged(input) => {
            state.custom_action.input = input;
            Outcome::changed()
        },
        Action::CustomActionSubmit => handle_custom_action_submit(state, schemas.action.as_str()),
        Action::CustomActionInterpreted(result) => {
            state.pending_llm = None;
            handle_custom_action_result(state, result)
        },
        Action::CombatAttack => handle_combat_attack(state),
        Action::CombatEndTurn => handle_combat_end_turn(state),
        Action::ScrollLog(delta) => {
            let v = state.log_scroll as i32 + delta as i32;
            state.log_scroll = if v < 0 {
                0
            } else if v > 65535 {
                65535
            } else {
                v as u16
            };
            Outcome::changed()
        },
        Action::CreationNameChanged(value) => {
            state.creation.name = value;
            Outcome::changed()
        },
        Action::CreationSelectClass(index) => {
            state.creation.class_index = if index < 4 { index } else { 4 };
            Outcome::changed()
        },
        Action::CreationSelectBackground(index) => {
            state.creation.background_index = if index < 4 { index } else { 4 };
            Outcome::changed()
        },
        Action::CreationSelectStat(index) => {
            state.creation.selected_stat = if index < 5 { index } else { 5 };
            Outcome::changed()
        },
        Action::CreationAdjustStat(delta) => {
            adjust_stat(state, delta);
            Outcome::changed()
        },
        Action::CreationNext => {
            advance_creation(state, true);
            Outcome::changed()
        },
        Action::CreationBack => {
            advance_creation(state, false);
            Outcome::changed()
        },
        Action::CreationConfirm => finalize_creation(state),
        Action::SaveComplete => {
            if let Some(pending) = state.pending_transcript_index {
                state.transcript_index = pending;
            }
            state.pending_transcript_index = None;
            if let Some(m) = &mut state.menu {
                m.has_save = true;
            }
            Outcome::changed()
        },
        Action::SaveError(error) => {
            state.pending_transcript_index = None;
            log(state, LogSpeaker::System, prefixed("Save failed: ", error.as_str()));
            Outcome::changed()
        },
        Action::LoadComplete(loaded) => {
            let scenario_dir = state.scenario_dir.clone();
            let save_path = state.save_path.clone();
            let provider = state.provider;
            let model = state.model.clone();
            *state = *loaded;
            state.scenario_dir = scenario_dir;
            state.save_path = save_path;
            state.provider = provider;
            state.model = model;
            clamp_inventory_selection(state);
            Outcome::changed()
        },
        Action::SaveExists(exists) => {
            if let Some(m) = &mut state.menu {
                m.has_save = exists;
            }
            Outcome::changed()
        },
        Action::LoadError(error) => {
            if !is_missing_save(error.as_str()) {
                log(state, LogSpeaker::System, prefixed("Load failed: ", error.as_str()));
            }
            Outcome::changed()
        },
        Action::ScenarioLoaded { scenario } => {
            apply_scenario(state, scenario);
            Outcome::changed()
        },
        Action::ScenarioLoadError { error } => {
            log(state, LogSpeaker::System, prefixed("Scenario load failed: ", error.as_str()));
            Outcome::changed()
        },
        Action::LlmError(error) => {
            state.pending_llm = None;
            log(state, LogSpeaker::System, prefixed("LLM error: ", error.as_str()));
            if state.mode == GameMode::Dialogue || state.mode == GameMode::CustomAction {
                state.mode = GameMode::Exploration;
            }
            Outcome::changed()
        },
        Action::Quit => Outcome::unchanged(),
    }
}

/// A skill check rolls a d20 plus the modifier of the ability that governs
/// the skill (Athletics: Strength; Acrobatics and Stealth: Dexterity;
/// Perception: Wisdom; Persuasion: Charisma; Arcana: Intelligence) against
/// the difficulty's DC: the check's message reports that total, and the
/// success text is logged exactly when it reaches the DC.
#[verifier::spinoff_prover]
pub proof fn law_skill_check_uses_governing_ability(
    o: AppState,
    n: AppState,
    r: Outcome<Effect>,
    a: ActionInterpretation,
    sk: Skill,
)
    requires
        custom_result_post(o, n, r, a),
        crate::dndtui::rules::check_for_key(spec_to_lowercase(trim(a.skill@))) == CheckKind::Skill(sk),
    ensures
        ({
            let st = o.player.stats;
            let score: i32 = match sk {
                Skill::Athletics => st.strength,
                Skill::Acrobatics => st.dexterity,
                Skill::Stealth => st.dexterity,
                Skill::Perception => st.wisdom,
                Skill::Persuasion => st.charisma,
                Skill::Arcana => st.intelligence,
            };
            let m = modifier_spec(score as int);
            let roll = die_value(o.rng_seed, 20);
            let d = crate::dndtui::rules::difficulty_for_key(spec_to_lowercase(trim(a.difficulty@)));
            let dc = crate::dndtui::rules::dc_spec(d) as int;
            let len = n.log@.len();
            &&& len >= o.log@.len() + 2
            &&& n.log@[len - 2].text@ == check_message(skill_label(sk), d, dc, roll, m)
            &&& n.log@[len - 1].text@ == if roll + m >= dc { a.on_success@ } else { a.on_failure@ }
        }),
{
    let kind = spec_to_lowercase(trim(a.kind@));
    let note: Seq<(LogSpeaker, Seq<char>)> = if kind.len() > 0 && kind != "skill_check"@ {
        seq![(LogSpeaker::System, "Interpreting '"@ + kind + "' as a skill check."@)]
    } else {
        seq![]
    };
    let k1 = note.len() as int;
    let ol = o.log@.len() as int;
    assert(n.log@[ol + k1].text@ == n.log@[ol + k1].text@);
    assert(n.log@[ol + k1 + 1].text@ == n.log@[ol + k1 + 1].text@);
}

/// A new character starts with full hit points: its class's base (12 for
/// a fighter, 8 for a wizard, 10 for any other class, the class name taken
/// in lower case) plus its Constitution modifier, and at least 1.
pub proof fn law_starting_hit_points(o: AppState, n: AppState, r: Outcome<Effect>)
    requires
        finalize_post(o, n, r),
        o.creation.points_remaining >= 0,
    ensures
        ({
            let key = spec_to_lowercase(n.player.class_name@);
            let base: int = if key == "fighter"@ { 12 } else if key == "wizard"@ { 8 } else { 10 };
            let v = base + modifier_spec(o.creation.stats.constitution as int);
            &&& n.player.max_hp == (if v >= 1 { v } else { 1 })
            &&& n.player.hp == n.player.max_hp
        }),
{
}

} // verus!
