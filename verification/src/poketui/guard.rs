//! Whether the reducer may take an action: each test here decides, from the
//! state alone, the condition under which the arithmetic of an action stays
//! within its integer types (`action_ok`).
use vstd::prelude::*;
use crate::poketui::action::Action;
use crate::poketui::battle::pool_weight;
use crate::poketui::combat::{blow_fits, combo_fits, defense_source, enemy_attack_base, enemy_defense_base, enemy_speed_base};
use crate::poketui::confirm::{battle_fits, combo_ready};
use crate::poketui::ending::{can_end_battle, hp_fits_to_max};
use crate::poketui::events::can_scatter;
use crate::poketui::loading::{frames_ok, loaded_fits_now};
use crate::poketui::menus::{loadable, scenario_ok};
use crate::poketui::reducer::{action_ok, available_items, menu_len, menu_pos, party_fits};
use crate::poketui::scenario::ScenarioRuntime;
use crate::poketui::state::{stat_fits, stat_fits_now, AppState, BattleStage, MAX_LEVEL};
use crate::poketui::strikes::can_strike;

verus! {

fn frames_ok_now(s: &AppState) -> (b: bool)
    ensures
        b == frames_ok(*s),
{
    if s.enemy_sprite.frame_index == usize::MAX || s.player_sprite.frame_index == usize::MAX {
        return false;
    }
    let mut i: usize = 0;
    while i < s.party_sprites.len()
        invariant
            i <= s.party_sprites@.len(),
            forall|k: int| 0 <= k < i ==> (#[trigger] s.party_sprites@[k]).frame_index < usize::MAX,
        decreases s.party_sprites.len() - i,
    {
        if s.party_sprites[i].frame_index == usize::MAX {
            return false;
        }
        i = i + 1;
    }
    match &s.pokemon_select {
        Some(p) => p.preview_sprite.frame_index < usize::MAX,
        None => true,
    }
}

fn max_hp_fits_now(s: &AppState) -> (b: bool)
    ensures
        b == s.max_hp_fits(),
{
    match s.active_member() {
        Some(m) => stat_fits_now(m.info.hp, m.level),
        None => match &s.player_info {
            Some(i) => stat_fits_now(i.hp, s.player_level),
            None => true,
        },
    }
}

fn menu_now(s: &AppState) -> (r: (i16, i16))
    ensures
        r.0 as int == menu_len(*s),
        r.1 as int == menu_pos(*s),
{
    match &s.battle {
        Some(b) => match b.stage {
            BattleStage::Menu => (5, b.menu_index as i16),
            BattleStage::ItemMenu => (available_items(&s.inventory).len() as i16, b.item_index as i16),
            _ => (0, 0),
        },
        None => (0, 0),
    }
}

fn party_fits_now(s: &AppState) -> (b: bool)
    ensures
        b == party_fits(*s),
{
    let mut i: usize = 0;
    while i < s.party.len()
        invariant
            i <= s.party@.len(),
            forall|k: int| 0 <= k < i ==> stat_fits(#[trigger] s.party@[k].info.hp, s.party@[k].level),
        decreases s.party.len() - i,
    {
        if !stat_fits_now(s.party[i].info.hp, s.party[i].level) {
            return false;
        }
        i = i + 1;
    }
    true
}

fn blow_fits_now(s: &AppState, enemy_level: u8) -> (b: bool)
    ensures
        b == blow_fits(*s, enemy_level),
{
    let attack: u16 = match &s.enemy_info {
        Some(i) => i.attack,
        None => 10,
    };
    let (base, level): (u16, u8) = match s.active_member() {
        Some(m) => (m.info.defense, m.level),
        None => match &s.player_info {
            Some(i) => (i.defense, s.player_level),
            None => (10, s.player_level),
        },
    };
    assert(attack == enemy_attack_base(*s) && (base, level) == defense_source(*s));
    stat_fits_now(attack, enemy_level) && stat_fits_now(base, level)
}

fn combo_fits_now(s: &AppState) -> (b: bool)
    ensures
        b == combo_fits(*s),
{
    let mut i: usize = 0;
    while i < s.party.len()
        invariant
            i <= s.party@.len(),
            forall|k: int| 0 <= k < i ==> {
                &&& stat_fits((#[trigger] s.party@[k]).info.speed, s.party@[k].level)
                &&& stat_fits(s.party@[k].info.attack, s.party@[k].level)
            },
        decreases s.party.len() - i,
    {
        if !stat_fits_now(s.party[i].info.speed, s.party[i].level) || !stat_fits_now(s.party[i].info.attack, s.party[i].level) {
            return false;
        }
        i = i + 1;
    }
    let (speed, attack): (u16, u16) = match &s.player_info {
        Some(i) => (i.speed, i.attack),
        None => (10, 10),
    };
    if !stat_fits_now(speed, s.player_level) || !stat_fits_now(attack, s.player_level) {
        return false;
    }
    match &s.battle {
        Some(b) => {
            let (es, ed): (u16, u16) = match &s.enemy_info {
                Some(i) => (i.speed, i.defense),
                None => (10, 10),
            };
            assert(es == enemy_speed_base(*s) && ed == enemy_defense_base(*s));
            stat_fits_now(es, b.enemy_level) && stat_fits_now(ed, b.enemy_level) && blow_fits_now(s, b.enemy_level)
        },
        None => true,
    }
}

fn can_end_battle_now(s: &AppState) -> (b: bool)
    ensures
        b == can_end_battle(*s),
{
    if !party_fits_now(s) {
        return false;
    }
    let hp_ok = match s.active_member() {
        Some(m) => stat_fits_now(m.info.hp, if m.level > MAX_LEVEL { m.level } else { MAX_LEVEL }),
        None => match &s.player_info {
            Some(i) => stat_fits_now(i.hp, if s.player_level > MAX_LEVEL { s.player_level } else { MAX_LEVEL }),
            None => true,
        },
    };
    assert(hp_ok == hp_fits_to_max(*s));
    hp_ok && match s.active_member() {
        Some(m) => m.level <= MAX_LEVEL,
        None => s.player_level <= MAX_LEVEL,
    }
}

fn battle_fits_now(s: &AppState) -> (b: bool)
    ensures
        b == battle_fits(*s),
{
    let strike = party_fits_now(s) && s.party.len() <= usize::MAX - s.active_party_index;
    assert(strike == can_strike(*s));
    let ready = combo_fits_now(s) && strike;
    assert(ready == combo_ready(*s));
    if !ready || !can_end_battle_now(s) {
        return false;
    }
    match &s.battle {
        Some(b) => blow_fits_now(s, b.enemy_level) && match &s.enemy_info {
            Some(i) => stat_fits_now(i.hp, if b.enemy_level < 1 { 1 } else { b.enemy_level }),
            None => true,
        },
        None => true,
    }
}

fn pickups_fit(count: u16, sc: &ScenarioRuntime, width: u16, height: u16) -> (b: bool)
    ensures
        b == (count > 0 && sc.manifest.random_pickups.pool@.len() > 0 ==> {
            &&& width > 0 && height > 0
            &&& crate::poketui::battle::total_weight(sc.manifest.random_pickups.pool@) <= u32::MAX
        }),
{
    if count == 0 || sc.manifest.random_pickups.pool.len() == 0 {
        return true;
    }
    width > 0 && height > 0 && pool_weight(&sc.manifest.random_pickups.pool).is_some()
}

fn can_scatter_now(s: &AppState) -> (b: bool)
    ensures
        b == can_scatter(*s),
{
    match &s.scenario {
        Some(sc) => pickups_fit(sc.manifest.random_pickups.count, sc, s.map.width, s.map.height),
        None => true,
    }
}

fn loadable_now(s: &AppState) -> (b: bool)
    ensures
        b == loadable(*s),
{
    let level: u8 = if s.player_level == 0 {
        5
    } else if s.player_level > 100 {
        100
    } else {
        s.player_level
    };
    party_fits_now(s) && match &s.player_info {
        Some(i) => stat_fits_now(i.hp, level),
        None => true,
    } && can_scatter_now(s)
}

/// Whether `reducer` may take `action` at `state`: false exactly when the
/// arithmetic of the action would leave its integer types.
pub fn action_allowed(state: &AppState, action: &Action) -> (b: bool)
    ensures
        b == action_ok(*state, *action),
{
    match action {
        Action::Tick => frames_ok_now(state),
        Action::Move(_) => max_hp_fits_now(state),
        Action::BattleMenuNext => {
            let (len, pos) = menu_now(state);
            len == 0 || (pos < i16::MAX && (pos + 1 >= 0 || len > i16::MIN))
        },
        Action::BattleMenuPrev => {
            let (len, pos) = menu_now(state);
            len == 0 || (pos > i16::MIN && (pos - 1 >= 0 || len > i16::MIN))
        },
        Action::BattleConfirm => battle_fits_now(state),
        Action::ScenarioLoaded { scenario } => pickups_fit(scenario.manifest.random_pickups.count, scenario, scenario.map.width, scenario.map.height),
        Action::StarterConfirm => can_scatter_now(state),
        Action::LoadComplete(loaded) => loadable_now(&**loaded),
        Action::PokemonDidLoad { target, info } => loaded_fits_now(state, *target, info),
        _ => true,
    }
}

} // verus!
