//! The main menu, choosing a starter, the pause menu, a scenario arriving,
//! and a loaded save put in order.
use vstd::prelude::*;
use crate::outcome::Outcome;
use crate::poketui::action::Effect;
use crate::poketui::battle::display_name;
use crate::poketui::events::{can_scatter, ensure_pickups, fired_set};
use crate::poketui::reducer::{message_pushed, push_message};
use crate::poketui::scenario::ScenarioRuntime;
use crate::poketui::state::{
    default_inventory, exp_for_level, starting_items, AppState, GameMode, MenuState, PokemonSelectState, SpriteState,
    SpriteTarget,
};
use crate::text::{owned, push_str, string_views};

verus! {

/// The starters offered when the scenario names none.
pub open spec fn default_starters() -> Seq<Seq<char>> {
    seq!["pikachu"@, "charmander"@, "bulbasaur"@, "squirtle"@]
}

/// The starters offered: the scenario's, or the default ones.
pub open spec fn starters_of(s: AppState) -> Seq<Seq<char>> {
    match s.scenario {
        Some(sc) => if sc.manifest.starters@.len() > 0 {
            string_views(sc.manifest.starters@)
        } else {
            default_starters()
        },
        None => default_starters(),
    }
}

pub fn scenario_starters(state: &AppState) -> (r: Vec<String>)
    ensures
        string_views(r@) == starters_of(*state),
{
    match &state.scenario {
        Some(sc) => {
            if sc.manifest.starters.len() > 0 {
                let mut v: Vec<String> = Vec::new();
                let mut i: usize = 0;
                while i < sc.manifest.starters.len()
                    invariant
                        i <= sc.manifest.starters@.len(),
                        string_views(v@) == string_views(sc.manifest.starters@).take(i as int),
                    decreases sc.manifest.starters.len() - i,
                {
                    let ghost before = v@;
                    v.push(sc.manifest.starters[i].clone());
                    assert(string_views(v@) =~= string_views(before).push(sc.manifest.starters@[i as int]@));
                    assert(string_views(sc.manifest.starters@).take(i + 1) =~= string_views(sc.manifest.starters@).take(i as int).push(sc.manifest.starters@[i as int]@));
                    i = i + 1;
                }
                assert(string_views(sc.manifest.starters@).take(sc.manifest.starters@.len() as int) =~= string_views(sc.manifest.starters@));
                return v;
            }
        },
        None => {},
    }
    proof {
        reveal_strlit("pikachu");
        reveal_strlit("charmander");
        reveal_strlit("bulbasaur");
        reveal_strlit("squirtle");
    }
    let v = vec![owned("pikachu"), owned("charmander"), owned("bulbasaur"), owned("squirtle")];
    assert(string_views(v@) =~= default_starters());
    v
}

/// Confirming in the main menu: a new game goes to choosing a starter
/// (the first one's preview asked for); continuing asks for the save when
/// there is one, or gives a notice; quitting is left to the interface.
pub open spec fn menu_confirmed(o: AppState, n: AppState, r: Outcome<Effect>) -> bool {
    match o.menu {
        None => n == o && !r.changed && r.effects@.len() == 0,
        Some(m) => if m.selected == 0 {
            let st = starters_of(o);
            &&& r.changed
            &&& n.pokemon_select matches Some(p) && string_views(p.starters@) == st && p.selected == 0 && p.preview_info is None
                && p.preview_sprite.is_empty()
            &&& n == (AppState { mode: GameMode::PokemonSelect, menu: None, pokemon_select: n.pokemon_select, ..o })
            &&& if st.len() > 0 {
                r.effects@.len() == 1 && (r.effects@[0] matches Effect::LoadStarterPreview { name } && name@ == st[0])
            } else {
                r.effects@.len() == 0
            }
        } else if m.selected == 1 && m.has_save {
            r.changed && r.effects@ == seq![Effect::LoadGame] && n == (AppState { menu: None, ..o })
        } else if m.selected == 1 {
            r.changed && r.effects@.len() == 0 && message_pushed(o, n, "No save file found."@)
        } else {
            n == o && !r.changed && r.effects@.len() == 0
        },
    }
}

pub fn menu_confirm(state: &mut AppState) -> (r: Outcome<Effect>)
    ensures
        menu_confirmed(*old(state), *final(state), r),
{
    let m = match state.menu {
        Some(m) => m,
        None => return Outcome::unchanged(),
    };
    if m.selected == 0 {
        state.mode = GameMode::PokemonSelect;
        state.menu = None;
        let starters = scenario_starters(state);
        let first = if starters.len() > 0 { Some(starters[0].clone()) } else { None };
        state.pokemon_select = Some(PokemonSelectState {
            starters,
            selected: 0,
            preview_info: None,
            preview_sprite: SpriteState::default(),
        });
        match first {
            Some(name) => Outcome::changed_with(Effect::LoadStarterPreview { name }),
            None => Outcome::changed(),
        }
    } else if m.selected == 1 && m.has_save {
        state.menu = None;
        Outcome::changed_with(Effect::LoadGame)
    } else if m.selected == 1 {
        push_message(state, owned("No save file found."));
        Outcome::changed()
    } else {
        Outcome::unchanged()
    }
}

/// Moving to starter `index`: when it exists and differs from the current
/// one, its preview is cleared and asked for.
pub open spec fn starter_selected(o: AppState, n: AppState, index: usize, r: Outcome<Effect>) -> bool {
    match o.pokemon_select {
        None => n == o && !r.changed && r.effects@.len() == 0,
        Some(p) => if index >= p.starters@.len() || p.selected == index {
            n == o && !r.changed && r.effects@.len() == 0
        } else {
            &&& r.changed
            &&& r.effects@.len() == 1
            &&& r.effects@[0] matches Effect::LoadStarterPreview { name } && name@ == p.starters@[index as int]@
            &&& n.pokemon_select matches Some(np) && np.preview_sprite.sprite is None && np.preview_sprite.sprite_flipped is None
                && np.preview_sprite.frame_index == 0 && np.preview_sprite.frame_tick == 0 && np.preview_sprite.loading
                && n == (AppState {
                pokemon_select: Some(PokemonSelectState { selected: index, preview_info: None, preview_sprite: np.preview_sprite, ..p }),
                ..o
            })
        },
    }
}

pub fn starter_select(state: &mut AppState, index: usize) -> (r: Outcome<Effect>)
    ensures
        starter_selected(*old(state), *final(state), index, r),
{
    let mut p = match state.pokemon_select.take() {
        Some(p) => p,
        None => return Outcome::unchanged(),
    };
    if index >= p.starters.len() || p.selected == index {
        state.pokemon_select = Some(p);
        return Outcome::unchanged();
    }
    p.selected = index;
    p.preview_info = None;
    p.preview_sprite.reset();
    p.preview_sprite.loading = true;
    let name = p.starters[index].clone();
    state.pokemon_select = Some(p);
    Outcome::changed_with(Effect::LoadStarterPreview { name })
}

/// Pausing: resume, save (a snapshot of the game is handed out), or quit
/// to the main menu (asking whether a save exists).
pub open spec fn pause_confirmed(o: AppState, n: AppState, r: Outcome<Effect>) -> bool {
    if o.pause_menu.selected == 0 {
        r.changed && r.effects@.len() == 0 && n == (AppState {
            pause_menu: crate::poketui::state::PauseMenuState { is_open: false, ..o.pause_menu },
            ..o
        })
    } else if o.pause_menu.selected == 1 {
        &&& r.changed && n == o
        &&& r.effects@.len() == 1
        &&& r.effects@[0] matches Effect::SaveGame { state: snap } && snap.mode == o.mode
            && snap.player == o.player && snap.rng_seed == o.rng_seed && snap.inventory@ == o.inventory@
    } else {
        &&& r.changed && r.effects@ == seq![Effect::CheckSaveExists]
        &&& n == (AppState {
            pause_menu: crate::poketui::state::PauseMenuState { is_open: false, ..o.pause_menu },
            mode: GameMode::MainMenu,
            menu: Some(MenuState { selected: 0, has_save: false }),
            battle: None,
            ..o
        })
    }
}

pub fn pause_confirm(state: &mut AppState) -> (r: Outcome<Effect>)
    ensures
        pause_confirmed(*old(state), *final(state), r),
{
    if state.pause_menu.selected == 0 {
        state.pause_menu.is_open = false;
        Outcome::changed()
    } else if state.pause_menu.selected == 1 {
        Outcome::changed_with(Effect::SaveGame { state: Box::new(state.clone()) })
    } else {
        state.pause_menu.is_open = false;
        state.mode = GameMode::MainMenu;
        state.menu = Some(MenuState { selected: 0, has_save: false });
        state.battle = None;
        Outcome::changed_with(Effect::CheckSaveExists)
    }
}

/// The run `s` starts over: on the route, sprites cleared (the player's
/// loading), no enemy or battle, the encounter count reset, an empty
/// party, the stand-in fields back to a level-5 creature with no hit
/// points, the starting bag, no messages waiting, no wins, relic or boss,
/// no events fired or defeats counted, no pickups.
pub open spec fn run_reset(o: AppState, n: AppState) -> bool {
    &&& n.mode == GameMode::Overworld
    &&& n.player_sprite.sprite is None && n.player_sprite.sprite_flipped is None && n.player_sprite.frame_index == 0
        && n.player_sprite.frame_tick == 0 && n.player_sprite.loading
    &&& n.enemy_sprite.is_empty()
    &&& n.enemy_info is None && n.battle is None && n.steps_since_encounter == 0
    &&& n.party@.len() == 0 && n.party_sprites@.len() == 0 && n.active_party_index == 0
    &&& n.player_info is None && n.player_level == 5 && n.player_exp == 125 && n.player_hp == 0
    &&& n.inventory@ == starting_items()
    &&& n.message_queue@.len() == 0 && n.message_timer == 0
    &&& n.wild_wins == 0 && !n.has_relic && !n.boss_defeated
    &&& fired_set(n) == Set::<Seq<char>>::empty()
    &&& forall|k: Seq<char>| n.defeat_counts.get_spec(k) is None
    &&& n.pickups@.len() == 0
    &&& n == (AppState {
        mode: n.mode,
        player_sprite: n.player_sprite,
        enemy_sprite: n.enemy_sprite,
        enemy_info: n.enemy_info,
        battle: n.battle,
        steps_since_encounter: n.steps_since_encounter,
        party: n.party,
        party_sprites: n.party_sprites,
        active_party_index: n.active_party_index,
        player_info: n.player_info,
        player_level: n.player_level,
        player_exp: n.player_exp,
        player_hp: n.player_hp,
        inventory: n.inventory,
        message_queue: n.message_queue,
        message_timer: n.message_timer,
        wild_wins: n.wild_wins,
        has_relic: n.has_relic,
        boss_defeated: n.boss_defeated,
        fired_event_ids: n.fired_event_ids,
        defeat_counts: n.defeat_counts,
        pickups: n.pickups,
        ..o
    })
}

fn reset_run(state: &mut AppState)
    ensures
        run_reset(*old(state), *final(state)),
{
    state.mode = GameMode::Overworld;
    state.player_sprite.reset();
    state.player_sprite.loading = true;
    state.enemy_sprite.reset();
    state.enemy_info = None;
    state.battle = None;
    state.steps_since_encounter = 0;
    state.party = Vec::new();
    state.party_sprites = Vec::new();
    state.active_party_index = 0;
    state.player_info = None;
    state.player_level = 5;
    state.player_exp = exp_for_level(5);
    state.player_hp = 0;
    state.inventory = default_inventory();
    state.message_queue.clear();
    state.message_timer = 0;
    state.wild_wins = 0;
    state.has_relic = false;
    state.boss_defeated = false;
    state.fired_event_ids.clear();
    state.defeat_counts = crate::pokeapi::store::Cache::new();
    state.pickups = Vec::new();
    assert(fired_set(*state) =~= Set::<Seq<char>>::empty());
}

/// Confirming the starter: nothing without a choice screen; the screen
/// closes, and when the choice points at a starter a new run starts with
/// pickups scattered, a greeting, and the starter's data asked for.
pub open spec fn starter_confirmed(o: AppState, n: AppState, r: Outcome<Effect>) -> bool {
    match o.pokemon_select {
        None => n == o && !r.changed && r.effects@.len() == 0,
        Some(p) => {
            let closed = AppState { pokemon_select: None, ..o };
            if p.selected >= p.starters@.len() {
                n == closed && !r.changed && r.effects@.len() == 0
            } else {
                let name = p.starters@[p.selected as int]@;
                &&& r.changed
                &&& r.effects@.len() == 1
                &&& r.effects@[0] matches Effect::LoadPokemon { target, name: nm } && target == SpriteTarget::Player && nm@ == name
                &&& exists|s1: AppState, s2: AppState| {
                    &&& #[trigger] run_reset(closed, s1)
                    &&& crate::poketui::events::spawn_or_keep(s1, s2)
                    &&& #[trigger] message_pushed(s2, n, "You chose "@ + display_name(name) + "! Let's go!"@)
                }
            }
        },
    }
}

pub fn starter_confirm(state: &mut AppState) -> (r: Outcome<Effect>)
    requires
        can_scatter(*old(state)),
    ensures
        starter_confirmed(*old(state), *final(state), r),
{
    let p = match state.pokemon_select.take() {
        Some(p) => p,
        None => return Outcome::unchanged(),
    };
    if p.selected >= p.starters.len() {
        return Outcome::unchanged();
    }
    let name = p.starters[p.selected].clone();
    reset_run(state);
    let ghost s1 = *state;
    ensure_pickups(state);
    let ghost s2 = *state;
    let mut msg = owned("You chose ");
    push_str(&mut msg, crate::poketui::battle::format_name(name.as_str()).as_str());
    push_str(&mut msg, "! Let's go!");
    push_message(state, msg);
    assert(run_reset(AppState { pokemon_select: None, ..*old(state) }, s1));
    assert(crate::poketui::events::spawn_or_keep(s1, s2));
    Outcome::changed_with(Effect::LoadPokemon { target: SpriteTarget::Player, name })
}

/// A member, or its species' ability from `list` when it has none.
pub open spec fn member_filled(o: crate::poketui::state::PartyMember, n: crate::poketui::state::PartyMember, list: Seq<crate::poketui::scenario::SpeciesAbility>) -> bool {
    &&& n.info == o.info && n.level == o.level && n.exp == o.exp
    &&& n.hp == o.hp && n.ability_cd == o.ability_cd
    &&& if o.ability_id is Some {
        n.ability_id == o.ability_id
    } else {
        match crate::poketui::events::species_ability(list, o.info.name@) {
            Some(a) => n.ability_id matches Some(x) && x@ == a,
            None => n.ability_id is None,
        }
    }
}

/// Every member without an ability takes its species' one from `list`.
pub open spec fn abilities_filled(o: Seq<crate::poketui::state::PartyMember>, n: Seq<crate::poketui::state::PartyMember>, list: Seq<crate::poketui::scenario::SpeciesAbility>) -> bool {
    &&& n.len() == o.len()
    &&& forall|i: int| 0 <= i < o.len() ==> member_filled(o[i], #[trigger] n[i], list)
}

/// Fills in the members' missing abilities from the scenario's list.
fn fill_abilities(state: &mut AppState)
    ensures
        abilities_filled(
            old(state).party@,
            final(state).party@,
            match old(state).scenario {
                Some(sc) => sc.manifest.species_abilities@,
                None => seq![],
            },
        ),
        *final(state) == (AppState { party: final(state).party, ..*old(state) }),
{
    let ghost list = match old(state).scenario {
        Some(sc) => sc.manifest.species_abilities@,
        None => seq![],
    };
    let empty: Vec<crate::poketui::scenario::SpeciesAbility> = Vec::new();
    let mut i: usize = 0;
    while i < state.party.len()
        invariant
            i <= state.party@.len(),
            state.party@.len() == old(state).party@.len(),
            list == match old(state).scenario {
                Some(sc) => sc.manifest.species_abilities@,
                None => seq![],
            },
            empty@.len() == 0,
            *state == (AppState { party: state.party, ..*old(state) }),
            forall|k: int| 0 <= k < i ==> member_filled(old(state).party@[k], #[trigger] state.party@[k], list),
            forall|k: int| i <= k < state.party@.len() ==> #[trigger] state.party@[k] == old(state).party@[k],
        decreases state.party.len() - i,
    {
        if state.party[i].ability_id.is_none() {
            let a = match &state.scenario {
                Some(sc) => crate::poketui::events::ability_id_from_list(&sc.manifest.species_abilities, state.party[i].info.name.as_str()),
                None => {
                    assert(list =~= empty@);
                    crate::poketui::events::ability_id_from_list(&empty, state.party[i].info.name.as_str())
                },
            };
            let mut m = state.party.remove(i);
            m.ability_id = a;
            state.party.insert(i, m);
        }
        assert(member_filled(old(state).party@[i as int], state.party@[i as int], list));
        i = i + 1;
    }
}

/// Whether a scenario's pickups can be scattered on its map.
pub open spec fn scenario_ok(sc: ScenarioRuntime) -> bool {
    sc.manifest.random_pickups.count > 0 && sc.manifest.random_pickups.pool@.len() > 0 ==> {
        &&& sc.map.width > 0 && sc.map.height > 0
        &&& crate::poketui::battle::total_weight(sc.manifest.random_pickups.pool@) <= u32::MAX
    }
}

/// A scenario arriving: it is played from now on, on its map; a game not
/// yet started puts the player on the map's start; members without an
/// ability take their species' one; and pickups are scattered when none
/// lie on the map.
pub open spec fn scenario_applied(o: AppState, n: AppState, sc: ScenarioRuntime) -> bool {
    exists|s1: AppState, s2: AppState| {
        &&& s1.scenario == Some(sc)
        &&& s1.map.name == sc.map.name && s1.map.width == sc.map.width && s1.map.height == sc.map.height && s1.map.tiles@ == sc.map.tiles@
        &&& (if o.player.steps == 0 && o.mode == GameMode::MainMenu {
            sc.map.start_of((s1.player.x, s1.player.y)) && s1.player == (crate::poketui::state::PlayerState { x: s1.player.x, y: s1.player.y, ..o.player })
        } else {
            s1.player == o.player
        })
        &&& s1 == (AppState { scenario: s1.scenario, map: s1.map, player: s1.player, ..o })
        &&& #[trigger] abilities_filled(s1.party@, s2.party@, sc.manifest.species_abilities@)
        &&& s2 == (AppState { party: s2.party, ..s1 })
        &&& #[trigger] crate::poketui::events::spawn_or_keep(s2, n)
    }
}

pub fn apply_scenario(state: &mut AppState, scenario: ScenarioRuntime)
    requires
        scenario_ok(scenario),
    ensures
        scenario_applied(*old(state), *final(state), scenario),
{
    let ghost sc = scenario;
    let map = scenario.map.clone();
    state.scenario = Some(scenario);
    state.map = map;
    if state.player.steps == 0 && state.mode == GameMode::MainMenu {
        let (x, y) = state.map.start_pos();
        state.player.x = x;
        state.player.y = y;
        proof {
            crate::poketui::map::lemma_same_map(sc.map, state.map, (x, y));
        }
    }
    let ghost s1 = *state;
    fill_abilities(state);
    let ghost s2 = *state;
    ensure_pickups(state);
    assert(abilities_filled(s1.party@, s2.party@, sc.manifest.species_abilities@));
}

/// The stand-in level within 1 to 100 (0 becomes 5), the pause menu
/// closed, the stand-in experience at least its level's, and the bag
/// restocked: the starting bag when empty, five balls added when it has
/// none.
pub open spec fn basics_fixed(o: AppState, n: AppState) -> bool {
    let level: u8 = if o.player_level == 0 { 5 } else if o.player_level > 100 { 100 } else { o.player_level };
    let min_exp = crate::poketui::state::level_exp(level);
    &&& n.player_level == level
    &&& n.pause_menu == (crate::poketui::state::PauseMenuState { is_open: false, ..o.pause_menu })
    &&& n.player_exp == if o.player_exp < min_exp { min_exp as u32 } else { o.player_exp }
    &&& if o.inventory@.len() == 0 {
        n.inventory@ == starting_items()
    } else if crate::poketui::reducer::stack_of(o.inventory@, crate::poketui::state::ItemKind::PokeBall) is None {
        n.inventory@ == o.inventory@.push(crate::poketui::state::ItemStack { kind: crate::poketui::state::ItemKind::PokeBall, qty: 5 })
    } else {
        n.inventory@ == o.inventory@
    }
    &&& n == (AppState { player_level: n.player_level, pause_menu: n.pause_menu, player_exp: n.player_exp, inventory: n.inventory, ..o })
}

fn fix_basics(state: &mut AppState)
    ensures
        basics_fixed(*old(state), *final(state)),
{
    if state.player_level == 0 {
        state.player_level = 5;
    }
    if state.player_level > 100 {
        state.player_level = 100;
    }
    state.pause_menu.is_open = false;
    let min_exp = exp_for_level(state.player_level);
    if state.player_exp < min_exp {
        state.player_exp = min_exp;
    }
    if state.inventory.len() == 0 {
        state.inventory = default_inventory();
    } else if crate::poketui::reducer::find_stack(&state.inventory, crate::poketui::state::ItemKind::PokeBall).is_none() {
        state.inventory.push(crate::poketui::state::ItemStack { kind: crate::poketui::state::ItemKind::PokeBall, qty: 5 });
    }
}

/// A member put in order: its hit points restored when 0 or above its
/// maximum, its experience at least its level's, its species' ability when
/// it has none.
pub open spec fn member_tidied(o: crate::poketui::state::PartyMember, n: crate::poketui::state::PartyMember, list: Seq<crate::poketui::scenario::SpeciesAbility>) -> bool {
    let max_hp = crate::poketui::reducer::member_max_hp(o);
    let min_exp = crate::poketui::state::level_exp(o.level);
    &&& member_filled(o, crate::poketui::state::PartyMember { hp: o.hp, exp: o.exp, ..n }, list)
    &&& n.hp == if o.hp == 0 || o.hp > max_hp { max_hp } else { o.hp }
    &&& n.exp == if o.exp < min_exp { min_exp as u32 } else { o.exp }
}

/// The species abilities of the scenario being played; none without one.
pub open spec fn species_list(s: AppState) -> Seq<crate::poketui::scenario::SpeciesAbility> {
    match s.scenario {
        Some(sc) => sc.manifest.species_abilities@,
        None => seq![],
    }
}

fn tidy_members(state: &mut AppState)
    requires
        crate::poketui::reducer::party_fits(*old(state)),
    ensures
        final(state).party@.len() == old(state).party@.len(),
        forall|i: int| 0 <= i < old(state).party@.len() ==> member_tidied(old(state).party@[i], #[trigger] final(state).party@[i], species_list(*old(state))),
        *final(state) == (AppState { party: final(state).party, ..*old(state) }),
{
    let ghost list = species_list(*old(state));
    let empty: Vec<crate::poketui::scenario::SpeciesAbility> = Vec::new();
    let mut i: usize = 0;
    while i < state.party.len()
        invariant
            i <= state.party@.len(),
            state.party@.len() == old(state).party@.len(),
            list == species_list(*old(state)),
            empty@.len() == 0,
            crate::poketui::reducer::party_fits(*old(state)),
            *state == (AppState { party: state.party, ..*old(state) }),
            forall|k: int| 0 <= k < i ==> member_tidied(old(state).party@[k], #[trigger] state.party@[k], list),
            forall|k: int| i <= k < state.party@.len() ==> #[trigger] state.party@[k] == old(state).party@[k],
        decreases state.party.len() - i,
    {
        assert(stat_fits_at(old(state).party@[i as int]));
        let mut m = state.party.remove(i);
        let h = crate::poketui::state::calc_hp(m.info.hp, m.level);
        let max_hp = if h < 1 { 1 } else { h };
        if m.hp == 0 || m.hp > max_hp {
            m.hp = max_hp;
        }
        let min_exp = exp_for_level(m.level);
        if m.exp < min_exp {
            m.exp = min_exp;
        }
        if m.ability_id.is_none() {
            m.ability_id = match &state.scenario {
                Some(sc) => crate::poketui::events::ability_id_from_list(&sc.manifest.species_abilities, m.info.name.as_str()),
                None => {
                    assert(list =~= empty@);
                    crate::poketui::events::ability_id_from_list(&empty, m.info.name.as_str())
                },
            };
        }
        state.party.insert(i, m);
        i = i + 1;
    }
}

pub open spec fn stat_fits_at(m: crate::poketui::state::PartyMember) -> bool {
    crate::poketui::state::stat_fits(m.info.hp, m.level)
}

/// An old save with no party gets its stand-in species as first member, at
/// the stand-in level, with the stand-in hit points (restored when 0 or
/// above the maximum), at least the experience of its level, and its
/// species' ability.
pub open spec fn party_seeded(o: AppState, n: AppState) -> bool {
    if o.party@.len() == 0 && o.player_info is Some {
        let info = o.player_info.unwrap();
        let level: u8 = if o.player_level < 1 { 1 } else { o.player_level };
        let max_hp = crate::poketui::loading::at_least_1(crate::poketui::state::hp_formula(info.hp, level)) as u16;
        let min_exp = crate::poketui::state::level_exp(level);
        &&& n.party@.len() == 1
        &&& n.party@[0].info == info && n.party@[0].level == level
        &&& n.party@[0].hp == if o.player_hp == 0 || o.player_hp > max_hp { max_hp } else { o.player_hp }
        &&& n.party@[0].exp == if o.player_exp >= min_exp { o.player_exp } else { min_exp as u32 }
        &&& n.party@[0].ability_cd == 0
        &&& (match crate::poketui::events::ability_for(o, info.name@) {
            Some(a) => n.party@[0].ability_id matches Some(x) && x@ == a,
            None => n.party@[0].ability_id is None,
        })
        &&& n == (AppState { party: n.party, active_party_index: 0, ..o })
    } else {
        n == o
    }
}

fn seed_party(state: &mut AppState)
    requires
        old(state).party@.len() == 0 ==> (old(state).player_info matches Some(i) ==> crate::poketui::state::stat_fits(i.hp, if old(state).player_level < 1 { 1 } else { old(state).player_level })),
    ensures
        party_seeded(*old(state), *final(state)),
{
    if state.party.len() != 0 {
        return;
    }
    let info = match &state.player_info {
        Some(i) => i.clone(),
        None => return,
    };
    let level = if state.player_level < 1 { 1 } else { state.player_level };
    let h = crate::poketui::state::calc_hp(info.hp, level);
    let max_hp = if h < 1 { 1 } else { h };
    let hp = if state.player_hp == 0 || state.player_hp > max_hp { max_hp } else { state.player_hp };
    let min_exp = exp_for_level(level);
    let exp = if state.player_exp >= min_exp { state.player_exp } else { min_exp };
    let ability_id = crate::poketui::events::ability_id_for_species(state, info.name.as_str());
    state.party.push(crate::poketui::state::PartyMember { info, level, exp, hp, ability_id, ability_cd: 0 });
    state.active_party_index = 0;
}

/// The stand-in hit points restored when 0 or above the stand-in maximum.
pub open spec fn standin_fixed(o: AppState, n: AppState) -> bool {
    let max_hp = o.max_hp_spec() as u16;
    n == (AppState { player_hp: if o.player_hp == 0 || o.player_hp > max_hp { max_hp } else { o.player_hp }, ..o })
}

/// A party put in order: the active index back to the first member when
/// past the end, every member tidied, one sprite state per member, and the
/// stand-in fields mirroring the active member.
pub open spec fn party_tidied(o: AppState, n: AppState) -> bool {
    let s3 = AppState { active_party_index: if o.active_party_index >= o.party@.len() { 0 } else { o.active_party_index }, ..o };
    exists|s4: AppState, s5: AppState| {
        &&& s4.party@.len() == s3.party@.len()
        &&& forall|i: int| 0 <= i < s3.party@.len() ==> member_tidied(s3.party@[i], #[trigger] s4.party@[i], species_list(s3))
        &&& s4 == (AppState { party: s4.party, ..s3 })
        &&& #[trigger] crate::poketui::loading::party_sprites_fitted(s4, s5)
        &&& n == crate::poketui::reducer::legacy_synced(s5)
    }
}

/// The party tidied, or without one the stand-in hit points fixed.
pub open spec fn party_or_standin(o: AppState, n: AppState) -> bool {
    if o.party@.len() > 0 { party_tidied(o, n) } else { standin_fixed(o, n) }
}

/// A loaded save put in order: the basics fixed, an old save's stand-in
/// made the first member, the party tidied (or, without one, the stand-in
/// hit points fixed), and pickups scattered when the scenario is known and
/// none lie on the map.
pub open spec fn normalized(o: AppState, n: AppState) -> bool {
    exists|s1: AppState, s2: AppState, s6: AppState| {
        &&& #[trigger] basics_fixed(o, s1)
        &&& #[trigger] party_seeded(s1, s2)
        &&& #[trigger] party_or_standin(s2, s6)
        &&& if s6.scenario is Some { crate::poketui::events::spawn_or_keep(s6, n) } else { n == s6 }
    }
}

/// Whether a loaded save can be put in order without overflow.
pub open spec fn loadable(s: AppState) -> bool {
    let level: u8 = if s.player_level == 0 { 5 } else if s.player_level > 100 { 100 } else { s.player_level };
    &&& crate::poketui::reducer::party_fits(s)
    &&& (s.player_info matches Some(i) ==> crate::poketui::state::stat_fits(i.hp, level))
    &&& can_scatter(s)
}

pub fn normalize_loaded_state(state: &mut AppState)
    requires
        loadable(*old(state)),
    ensures
        normalized(*old(state), *final(state)),
{
    fix_basics(state);
    let ghost s1 = *state;
    seed_party(state);
    let ghost s2 = *state;
    if state.party.len() > 0 {
        if state.active_party_index >= state.party.len() {
            state.active_party_index = 0;
        }
        proof {
            if old(state).party@.len() == 0 {
                assert(crate::poketui::state::stat_fits(state.party@[0].info.hp, state.party@[0].level));
            }
            assert forall|i: int| 0 <= i < state.party@.len() implies crate::poketui::state::stat_fits(#[trigger] state.party@[i].info.hp, state.party@[i].level) by {
                if old(state).party@.len() > 0 {
                    assert(state.party@[i] == old(state).party@[i]);
                }
            }
        }
        tidy_members(state);
        let ghost s4 = *state;
        crate::poketui::loading::ensure_party_sprites(state);
        let ghost s5 = *state;
        crate::poketui::reducer::sync_legacy_from_active(state);
        assert(crate::poketui::loading::party_sprites_fitted(s4, s5));
    } else {
        let max_hp = state.player_max_hp();
        if state.player_hp == 0 || state.player_hp > max_hp {
            state.player_hp = max_hp;
        }
    }
    let ghost s6 = *state;
    assert(party_or_standin(s2, s6));
    if state.scenario.is_some() {
        proof {
            assert(can_scatter(s6));
        }
        ensure_pickups(state);
    }
    assert(basics_fixed(*old(state), s1));
    assert(party_seeded(s1, s2));
}

} // verus!
