//! The smaller answers of the game: starting up, resizing, menus opened
//! and closed, previews and party sprites arriving, saving and loading.
use vstd::prelude::*;
use crate::dndtui::sprite::SpriteData;
use crate::outcome::Outcome;
use crate::poketui::action::Effect;
use crate::poketui::loading::{party_sprites_fitted, sprite_shown, show_sprite};
use crate::poketui::reducer::{battle_message_set, menu_prompt, message_pushed, push_message};
use crate::poketui::state::{AppState, BattleStage, BattleState, GameMode, MenuState, PauseMenuState, PokemonInfo, SpriteState};
use crate::poketui::strikes::{sprite_url_for, sprite_url_spec};
use crate::text::{owned, push_str};

verus! {

/// Starting up: the main menu from its first entry, no message shown or
/// waiting; the scenario is asked for.
pub open spec fn started(o: AppState, n: AppState, r: Outcome<Effect>) -> bool {
    &&& r.changed
    &&& r.effects@.len() == 1 && (r.effects@[0] matches Effect::LoadScenario { path } && path@ == o.scenario_dir@)
    &&& n.message_queue@.len() == 0
    &&& n == (AppState {
        mode: GameMode::MainMenu,
        menu: Some(MenuState { selected: 0, has_save: false }),
        message: None,
        message_queue: n.message_queue,
        message_timer: 0,
        ..o
    })
}

pub fn init(state: &mut AppState) -> (r: Outcome<Effect>)
    ensures
        started(*old(state), *final(state), r),
{
    state.mode = GameMode::MainMenu;
    state.menu = Some(MenuState { selected: 0, has_save: false });
    state.message = None;
    state.message_queue.clear();
    state.message_timer = 0;
    Outcome::changed_with(Effect::LoadScenario { path: state.scenario_dir.clone() })
}

/// Leaving the item menu: back to the main menu and its prompt; elsewhere
/// nothing.
pub open spec fn item_menu_left(o: AppState, n: AppState, r: Outcome<Effect>) -> bool {
    match o.battle {
        Some(b) => if b.stage == BattleStage::ItemMenu {
            r.changed && r.effects@.len() == 0 && battle_message_set(
                AppState { battle: Some(BattleState { stage: BattleStage::Menu, ..b }), ..o },
                n,
                menu_prompt(o),
            )
        } else {
            !r.changed && r.effects@.len() == 0 && n == o
        },
        None => !r.changed && r.effects@.len() == 0 && n == o,
    }
}

pub fn cancel_item_menu(state: &mut AppState) -> (r: Outcome<Effect>)
    ensures
        item_menu_left(*old(state), *final(state), r),
{
    let in_items = match &state.battle {
        Some(b) => b.stage == BattleStage::ItemMenu,
        None => false,
    };
    if !in_items {
        return Outcome::unchanged();
    }
    match state.battle.take() {
        Some(mut b) => {
            b.stage = BattleStage::Menu;
            state.battle = Some(b);
        },
        None => {},
    }
    crate::poketui::reducer::set_battle_menu_prompt(state);
    Outcome::changed()
}

/// A notice shown: `prefix` then `text`.
pub open spec fn noted(o: AppState, n: AppState, prefix: Seq<char>, text: Seq<char>) -> bool {
    message_pushed(o, n, prefix + text)
}

pub fn note(state: &mut AppState, prefix: &str, text: &str)
    ensures
        noted(*old(state), *final(state), prefix@, text@),
{
    let mut msg = owned(prefix);
    push_str(&mut msg, text);
    push_message(state, msg);
}

/// A member's sprite arriving: the sprite states fitted to the party, and
/// the member's shown fresh when it is there.
pub open spec fn party_sprite_arrived(o: AppState, n: AppState, index: usize, sprite: SpriteData) -> bool {
    exists|s1: AppState| {
        &&& #[trigger] party_sprites_fitted(o, s1)
        &&& if index < s1.party_sprites@.len() {
            &&& n.party_sprites@.len() == s1.party_sprites@.len()
            &&& sprite_shown(s1.party_sprites@[index as int], n.party_sprites@[index as int], sprite)
            &&& forall|j: int| 0 <= j < s1.party_sprites@.len() && j != index ==> #[trigger] n.party_sprites@[j] == s1.party_sprites@[j]
            &&& n == (AppState { party_sprites: n.party_sprites, ..s1 })
        } else {
            n == s1
        }
    }
}

pub fn party_sprite_loaded(state: &mut AppState, index: usize, sprite: SpriteData) -> (r: Outcome<Effect>)
    ensures
        r.changed && r.effects@.len() == 0,
        party_sprite_arrived(*old(state), *final(state), index, sprite),
{
    crate::poketui::loading::ensure_party_sprites(state);
    let ghost s1 = *state;
    if index < state.party_sprites.len() {
        let mut slot = state.party_sprites.remove(index);
        show_sprite(&mut slot, sprite);
        state.party_sprites.insert(index, slot);
    }
    assert(party_sprites_fitted(*old(state), s1));
    Outcome::changed()
}

/// A member's sprite failing: it stops loading, and a notice is shown.
pub open spec fn party_sprite_failed(o: AppState, n: AppState, index: usize, error: Seq<char>) -> bool {
    let s1 = if index < o.party_sprites@.len() {
        AppState { party_sprites: n.party_sprites, ..o }
    } else {
        o
    };
    &&& index < o.party_sprites@.len() ==> {
        &&& n.party_sprites@ == o.party_sprites@.update(index as int, SpriteState { loading: false, ..o.party_sprites@[index as int] })
    }
    &&& message_pushed(s1, n, "Party sprite error: "@ + error)
}

pub fn party_sprite_error(state: &mut AppState, index: usize, error: &str) -> (r: Outcome<Effect>)
    ensures
        r.changed && r.effects@.len() == 0,
        party_sprite_failed(*old(state), *final(state), index, error@),
{
    if index < state.party_sprites.len() {
        let mut slot = state.party_sprites.remove(index);
        slot.loading = false;
        state.party_sprites.insert(index, slot);
        assert(state.party_sprites@ =~= old(state).party_sprites@.update(index as int, SpriteState { loading: false, ..old(state).party_sprites@[index as int] }));
    }
    let mut msg = owned("Party sprite error: ");
    push_str(&mut msg, error);
    push_message(state, msg);
    Outcome::changed()
}

/// A starter's data arriving on the choice screen: it is kept, and its
/// sprite (animated, else still) asked for.
pub open spec fn preview_arrived(o: AppState, n: AppState, info: PokemonInfo, r: Outcome<Effect>) -> bool {
    &&& r.changed
    &&& match o.pokemon_select {
        Some(p) => match sprite_url_spec(info) {
            Some(url) => {
                &&& r.effects@.len() == 1 && (r.effects@[0] matches Effect::LoadStarterSprite { url: u } && u == url)
                &&& n == (AppState {
                    pokemon_select: Some(crate::poketui::state::PokemonSelectState {
                        preview_info: Some(info),
                        preview_sprite: SpriteState { loading: true, ..p.preview_sprite },
                        ..p
                    }),
                    ..o
                })
            },
            None => r.effects@.len() == 0 && n == (AppState {
                pokemon_select: Some(crate::poketui::state::PokemonSelectState { preview_info: Some(info), ..p }),
                ..o
            }),
        },
        None => r.effects@.len() == 0 && n == o,
    }
}

pub fn preview_loaded(state: &mut AppState, info: PokemonInfo) -> (r: Outcome<Effect>)
    ensures
        preview_arrived(*old(state), *final(state), info, r),
{
    let mut p = match state.pokemon_select.take() {
        Some(p) => p,
        None => return Outcome::changed(),
    };
    p.preview_info = Some(info.clone());
    match sprite_url_for(&info) {
        Some(url) => {
            p.preview_sprite.loading = true;
            state.pokemon_select = Some(p);
            Outcome::changed_with(Effect::LoadStarterSprite { url })
        },
        None => {
            state.pokemon_select = Some(p);
            Outcome::changed()
        },
    }
}

/// The starter's sprite arriving: shown fresh on the choice screen.
pub open spec fn preview_sprite_arrived(o: AppState, n: AppState, sprite: SpriteData) -> bool {
    match o.pokemon_select {
        Some(p) => n.pokemon_select matches Some(np) && sprite_shown(p.preview_sprite, np.preview_sprite, sprite) && n == (AppState {
            pokemon_select: Some(crate::poketui::state::PokemonSelectState { preview_sprite: np.preview_sprite, ..p }),
            ..o
        }),
        None => n == o,
    }
}

pub fn preview_sprite_loaded(state: &mut AppState, sprite: SpriteData) -> (r: Outcome<Effect>)
    ensures
        r.changed && r.effects@.len() == 0,
        preview_sprite_arrived(*old(state), *final(state), sprite),
{
    match state.pokemon_select.take() {
        Some(mut p) => {
            show_sprite(&mut p.preview_sprite, sprite);
            state.pokemon_select = Some(p);
        },
        None => {},
    }
    Outcome::changed()
}

/// The starter's data failing: its sprite stops loading, and a notice.
pub open spec fn preview_failed(o: AppState, n: AppState, error: Seq<char>) -> bool {
    let s1 = match o.pokemon_select {
        Some(p) => AppState {
            pokemon_select: Some(crate::poketui::state::PokemonSelectState {
                preview_sprite: SpriteState { loading: false, ..p.preview_sprite },
                ..p
            }),
            ..o
        },
        None => o,
    };
    message_pushed(s1, n, "Preview error: "@ + error)
}

pub fn preview_error(state: &mut AppState, error: &str) -> (r: Outcome<Effect>)
    ensures
        r.changed && r.effects@.len() == 0,
        preview_failed(*old(state), *final(state), error@),
{
    match state.pokemon_select.take() {
        Some(mut p) => {
            p.preview_sprite.loading = false;
            state.pokemon_select = Some(p);
        },
        None => {},
    }
    let mut msg = owned("Preview error: ");
    push_str(&mut msg, error);
    push_message(state, msg);
    Outcome::changed()
}

/// A save arriving: it replaces the game but keeps the scenario folder in
/// use, is put in order, says so, and asks for its scenario when it has
/// none.
pub open spec fn game_loaded(o: AppState, n: AppState, loaded: AppState, r: Outcome<Effect>) -> bool {
    exists|s1: AppState, s2: AppState| {
        &&& s1 == (AppState { scenario_dir: s1.scenario_dir, ..loaded })
        &&& s1.scenario_dir@ == o.scenario_dir@
        &&& #[trigger] crate::poketui::menus::normalized(s1, s2)
        &&& #[trigger] message_pushed(s2, n, "Game loaded!"@)
        &&& r.changed
        &&& if n.scenario is None {
            r.effects@.len() == 1 && (r.effects@[0] matches Effect::LoadScenario { path } && path@ == o.scenario_dir@)
        } else {
            r.effects@.len() == 0
        }
    }
}

pub fn load_complete(state: &mut AppState, loaded: AppState) -> (r: Outcome<Effect>)
    requires
        crate::poketui::menus::loadable(loaded),
    ensures
        game_loaded(*old(state), *final(state), loaded, r),
{
    let scenario_dir = state.scenario_dir.clone();
    *state = loaded;
    state.scenario_dir = scenario_dir;
    let ghost s1 = *state;
    crate::poketui::menus::normalize_loaded_state(state);
    let ghost s2 = *state;
    push_message(state, owned("Game loaded!"));
    assert(crate::poketui::menus::normalized(s1, s2));
    if state.scenario.is_none() {
        Outcome::changed_with(Effect::LoadScenario { path: state.scenario_dir.clone() })
    } else {
        Outcome::changed()
    }
}

} // verus!
