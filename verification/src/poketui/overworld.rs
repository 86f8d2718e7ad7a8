//! Walking the route: steps, blocked tiles, pickups and tile events, and
//! the encounters that start battles.
use vstd::prelude::*;
use crate::outcome::Outcome;
use crate::poketui::action::Effect;
use crate::poketui::battle::{boss_level_for, display_name, format_name, rng_out, rng_step, wild_level};
use crate::poketui::events::{collect_pickup, fire_on_tile, fired_set, inbox, events_of, only_events_changed, trigger_tile_events};
use crate::poketui::reducer::{member_max_hp, next_rand};
use crate::poketui::state::{
    calc_hp, AppState, BattleKind, BattleStage, BattleState, Direction, GameMode, PlayerState, SpriteTarget,
};
use crate::text::{owned, push_str};

verus! {

/// The message a battle opens with.
pub open spec fn opening_message(kind: BattleKind, name: Seq<char>) -> Seq<char> {
    match kind {
        BattleKind::Boss => "Boss "@ + display_name(name) + " appears!"@,
        BattleKind::Wild => "A wild "@ + display_name(name) + " appeared!"@,
    }
}

/// The player's hit points a battle starts with, maximum first: the active
/// member's maximum, and its hit points unless they are 0 or above it (then
/// the maximum); with no active member, the stand-in maximum twice.
pub open spec fn battle_hp(s: AppState) -> (u16, u16) {
    match s.active_spec() {
        Some(m) => {
            let max_hp = member_max_hp(m);
            (max_hp, if m.hp == 0 || m.hp > max_hp { max_hp } else { m.hp })
        },
        None => (s.max_hp_spec() as u16, s.max_hp_spec() as u16),
    }
}

/// What starting a battle against `name` at `level` does: battle mode, the
/// enemy's data and sprite cleared and its sprite loading, the active
/// member's hit points restored when 0 or too high, a fresh battle at its
/// introduction with the opening message; the enemy's data is asked for.
pub open spec fn battle_started(o: AppState, n: AppState, name: Seq<char>, level: u8, kind: BattleKind, r: Outcome<Effect>) -> bool {
    let (max_hp, hp) = battle_hp(o);
    &&& r.changed
    &&& r.effects@.len() == 1
    &&& r.effects@[0] matches Effect::LoadPokemon { target, name: en } && target == SpriteTarget::Enemy && en@ == name
    &&& n.mode == GameMode::Battle
    &&& n.enemy_info is None
    &&& n.enemy_sprite.sprite is None && n.enemy_sprite.sprite_flipped is None
    &&& n.enemy_sprite.frame_index == 0 && n.enemy_sprite.frame_tick == 0 && n.enemy_sprite.loading
    &&& (match o.active_spec() {
        Some(m) => n.party@ == o.party@.update(o.active_party_index as int, crate::poketui::state::PartyMember { hp, ..m }),
        None => n.party@ == o.party@,
    })
    &&& n.battle matches Some(b) && {
        &&& b.stage == BattleStage::Intro
        &&& b.kind == kind
        &&& b.enemy_name@ == name
        &&& b.enemy_level == level
        &&& b.player_hp_max == max_hp
        &&& b.player_hp == hp
        &&& b.enemy_hp == 1 && b.enemy_hp_max == 1
        &&& b.menu_index == 0 && b.item_index == 0
        &&& b.combo_hits@.len() == 0
        &&& b.guard_pct == 0 && b.guard_turns == 0
        &&& !b.captured
        &&& b.message@ == opening_message(kind, name)
        &&& b.pending_enemy_damage is None
    }
    &&& n == (AppState {
        mode: n.mode,
        enemy_info: n.enemy_info,
        enemy_sprite: n.enemy_sprite,
        party: n.party,
        battle: n.battle,
        ..o
    })
}

pub fn start_battle(state: &mut AppState, enemy_name: String, enemy_level: u8, kind: BattleKind) -> (r: Outcome<Effect>)
    requires
        old(state).max_hp_fits(),
    ensures
        battle_started(*old(state), *final(state), enemy_name@, enemy_level, kind, r),
{
    state.mode = GameMode::Battle;
    state.enemy_info = None;
    state.enemy_sprite.reset();
    state.enemy_sprite.loading = true;
    let (player_hp_max, player_hp) = if state.active_party_index < state.party.len() {
        let i = state.active_party_index;
        let mut m = state.party[i].clone();
        let h = calc_hp(m.info.hp, m.level);
        let max_hp = if h < 1 { 1 } else { h };
        if m.hp == 0 || m.hp > max_hp {
            m.hp = max_hp;
        }
        let hp = m.hp;
        state.party.set(i, m);
        (max_hp, hp)
    } else {
        let h = state.player_max_hp();
        (h, h)
    };
    let mut b = BattleState::new(enemy_name.clone(), enemy_level, player_hp_max, player_hp, kind);
    let shown = format_name(enemy_name.as_str());
    let mut msg = match kind {
        BattleKind::Boss => owned("Boss "),
        BattleKind::Wild => owned("A wild "),
    };
    push_str(&mut msg, shown.as_str());
    match kind {
        BattleKind::Boss => push_str(&mut msg, " appears!"),
        BattleKind::Wild => push_str(&mut msg, " appeared!"),
    }
    b.message = msg;
    state.battle = Some(b);
    Outcome::changed_with(Effect::LoadPokemon { target: SpriteTarget::Enemy, name: enemy_name })
}

/// The species met in the wild when the scenario names none.
pub open spec fn default_wild_pool() -> Seq<Seq<char>> {
    seq!["pidgey"@, "rattata"@, "caterpie"@, "weedle"@, "oddish"@, "zubat"@]
}

/// The species a wild battle is drawn from: the scenario's pool, or the
/// default one when it has none.
pub open spec fn wild_pool(s: AppState) -> Seq<Seq<char>> {
    match s.scenario {
        Some(sc) => if sc.manifest.wild_pool@.len() > 0 {
            crate::text::string_views(sc.manifest.wild_pool@)
        } else {
            default_wild_pool()
        },
        None => default_wild_pool(),
    }
}

/// A wild battle: the species drawn from the pool, then the level drawn
/// around the player's.
pub open spec fn wild_battle_started(o: AppState, n: AppState, r: Outcome<Effect>) -> bool {
    let pool = wild_pool(o);
    let name = pool[(rng_out(o.rng_seed) as int) % (pool.len() as int)];
    let s1 = rng_step(o.rng_seed);
    let level = wild_level(o.level_spec(), rng_out(s1));
    battle_started(AppState { rng_seed: rng_step(s1), ..o }, n, name, level, BattleKind::Wild, r)
}

pub fn start_wild_battle(state: &mut AppState) -> (r: Outcome<Effect>)
    requires
        old(state).max_hp_fits(),
    ensures
        wild_battle_started(*old(state), *final(state), r),
{
    let use_scenario = match &state.scenario {
        Some(sc) => sc.manifest.wild_pool.len() > 0,
        None => false,
    };
    let ghost pool = wild_pool(*old(state));
    let roll = next_rand(state);
    let name = if use_scenario {
        match &state.scenario {
            Some(sc) => {
                let k = (roll as usize) % sc.manifest.wild_pool.len();
                assert(pool[k as int] == sc.manifest.wild_pool@[k as int]@);
                sc.manifest.wild_pool[k].clone()
            },
            None => owned(""),
        }
    } else {
        let names: [&str; 6] = ["pidgey", "rattata", "caterpie", "weedle", "oddish", "zubat"];
        proof {
            reveal_strlit("pidgey");
            reveal_strlit("rattata");
            reveal_strlit("caterpie");
            reveal_strlit("weedle");
            reveal_strlit("oddish");
            reveal_strlit("zubat");
            assert(forall|j: int| 0 <= j < 6 ==> (#[trigger] names@[j])@ == default_wild_pool()[j]);
        }
        let k = (roll as usize) % 6;
        owned(names[k])
    };
    let level_roll = next_rand(state);
    let level = crate::poketui::battle::wild_level_for(state.active_level(), level_roll);
    start_battle(state, name, level, BattleKind::Wild)
}

/// A boss battle against the route's boss, three levels above the player.
pub fn start_boss_battle(state: &mut AppState) -> (r: Outcome<Effect>)
    requires
        old(state).max_hp_fits(),
    ensures
        battle_started(*old(state), *final(state), "onix"@, boss_level_for(old(state).level_spec()), BattleKind::Boss, r),
{
    let level = crate::poketui::battle::boss_level_of(state.active_level());
    start_battle(state, owned("onix"), level, BattleKind::Boss)
}

/// The cell one step from `(x, y)` in `d`, not leaving the 16-bit range.
pub open spec fn stepped(x: u16, y: u16, d: Direction) -> (u16, u16) {
    match d {
        Direction::Up => (x, if y == 0 { 0 } else { (y - 1) as u16 }),
        Direction::Down => (x, if y == u16::MAX { u16::MAX } else { (y + 1) as u16 }),
        Direction::Left => (if x == 0 { 0 } else { (x - 1) as u16 }, y),
        Direction::Right => (if x == u16::MAX { u16::MAX } else { (x + 1) as u16 }, y),
    }
}

/// Encounters after a step onto grass, once three steps have passed since
/// the last: a roll under 18 of 100 resets the count and, unless the boss
/// is beaten, starts the boss battle (with the relic and five wild wins)
/// or a wild one.
pub open spec fn encounter_checked(o: AppState, n: AppState, r: Outcome<Effect>) -> bool {
    if !(o.map.tile_at(o.player.x as int, o.player.y as int) is Grass && o.steps_since_encounter >= 3) {
        n == o && r.changed && r.effects@.len() == 0
    } else {
        let rolled = AppState { rng_seed: rng_step(o.rng_seed), ..o };
        if rng_out(o.rng_seed) % 100 >= 18 {
            n == rolled && r.changed && r.effects@.len() == 0
        } else {
            let reset = AppState { steps_since_encounter: 0, ..rolled };
            if o.boss_defeated {
                n == reset && r.changed && r.effects@.len() == 0
            } else if o.has_relic && o.wild_wins >= 5 {
                battle_started(reset, n, "onix"@, boss_level_for(reset.level_spec()), BattleKind::Boss, r)
            } else {
                wild_battle_started(reset, n, r)
            }
        }
    }
}

/// The tile events of entering `(x, y)`, as a relation of states.
pub open spec fn tile_events_fired(o: AppState, n: AppState, x: u16, y: u16) -> bool {
    &&& (inbox(n), fired_set(n)) == fire_on_tile((inbox(o), fired_set(o)), events_of(o), x, y)
    &&& only_events_changed(o, n)
}

/// The player moved to `(x, y)` facing `d`, one more step counted.
pub open spec fn walked_to(o: AppState, x: u16, y: u16, d: Direction) -> AppState {
    AppState {
        player: PlayerState { x, y, steps: o.player.steps.wrapping_add(1), facing: d },
        steps_since_encounter: if o.steps_since_encounter == u16::MAX { u16::MAX } else { (o.steps_since_encounter + 1) as u16 },
        ..o
    }
}

fn walk(state: &mut AppState, x: u16, y: u16, d: Direction)
    ensures
        *final(state) == walked_to(*old(state), x, y, d),
{
    state.player = PlayerState { x, y, steps: state.player.steps.wrapping_add(1), facing: d };
    state.steps_since_encounter = state.steps_since_encounter.saturating_add(1);
}

/// A step in `d` on the route: the player turns; a step off the map, into
/// a wall or water, or against the edge goes nowhere; otherwise the player
/// moves, counts the step, picks up what lies there, sets off its events,
/// and may meet a wild creature or the boss. Outside the route nothing
/// happens.
pub open spec fn moved(o: AppState, n: AppState, d: Direction, r: Outcome<Effect>) -> bool {
    if o.mode != GameMode::Overworld {
        n == o && !r.changed && r.effects@.len() == 0
    } else {
        let (nx, ny) = stepped(o.player.x, o.player.y, d);
        let turned = AppState { player: PlayerState { facing: d, ..o.player }, ..o };
        if (nx == o.player.x && ny == o.player.y) || nx >= o.map.width || ny >= o.map.height || !o.map.walkable_at(nx as int, ny as int) {
            n == turned && r.changed && r.effects@.len() == 0
        } else {
            exists|a: AppState, b: AppState|
                #[trigger] crate::poketui::events::pickup_collected(walked_to(o, nx, ny, d), a, nx, ny) && #[trigger] tile_events_fired(a, b, nx, ny) && encounter_checked(b, n, r)
        }
    }
}

#[verifier::spinoff_prover]
pub fn move_player(state: &mut AppState, direction: Direction) -> (r: Outcome<Effect>)
    requires
        old(state).max_hp_fits(),
    ensures
        moved(*old(state), *final(state), direction, r),
{
    if state.mode != GameMode::Overworld {
        return Outcome::unchanged();
    }
    state.player.facing = direction;
    let x = state.player.x;
    let y = state.player.y;
    let (nx, ny) = match direction {
        Direction::Up => (x, y.saturating_sub(1)),
        Direction::Down => (x, y.saturating_add(1)),
        Direction::Left => (x.saturating_sub(1), y),
        Direction::Right => (x.saturating_add(1), y),
    };
    if nx == x && ny == y {
        return Outcome::changed();
    }
    if nx >= state.map.width || ny >= state.map.height {
        return Outcome::changed();
    }
    if !state.map.is_walkable(nx, ny) {
        return Outcome::changed();
    }
    walk(state, nx, ny, direction);
    collect_pickup(state, nx, ny);
    let ghost a = *state;
    trigger_tile_events(state, nx, ny);
    let ghost b = *state;
    assert(tile_events_fired(a, b, nx, ny));
    let r = check_encounter(state);
    assert(encounter_checked(b, *state, r));
    r
}

fn check_encounter(state: &mut AppState) -> (r: Outcome<Effect>)
    requires
        old(state).max_hp_fits(),
    ensures
        encounter_checked(*old(state), *final(state), r),
{
    if state.map.is_grass(state.player.x, state.player.y) && state.steps_since_encounter >= 3 {
        let roll = next_rand(state) % 100;
        if roll < 18 {
            state.steps_since_encounter = 0;
            if state.boss_defeated {
                return Outcome::changed();
            }
            if state.has_relic && state.wild_wins >= 5 {
                return start_boss_battle(state);
            }
            return start_wild_battle(state);
        }
    }
    Outcome::changed()
}

} // verus!
