//! What can happen to a game, and what the game asks the runtime to do.
use vstd::prelude::*;
use crate::dndtui::sprite::SpriteData;
use crate::poketui::scenario::ScenarioRuntime;
use crate::poketui::state::{AppState, Direction, PokemonInfo, SpriteTarget};

verus! {

#[derive(Debug)]
pub enum Action {
    Init,
    UiTerminalResize(u16, u16),
    Tick,
    Move(Direction),
    // Battle
    BattleMenuNext,
    BattleMenuPrev,
    BattleConfirm,
    BattleItemCancel,
    MessageNext,
    // Main menu
    MenuSelect(usize),
    MenuConfirm,
    SaveExists(bool),
    // Scenario
    ScenarioLoaded { scenario: ScenarioRuntime },
    ScenarioLoadError { error: String },
    // Party sprites
    PartySpriteLoaded { index: usize, sprite: SpriteData },
    PartySpriteError { index: usize, error: String },
    // Starter selection
    StarterSelect(usize),
    StarterConfirm,
    StarterPreviewLoaded { info: PokemonInfo },
    StarterPreviewSpriteLoaded { sprite: SpriteData },
    StarterPreviewError { error: String },
    // Pause menu
    PauseOpen,
    PauseClose,
    PauseSelect(usize),
    PauseConfirm,
    // Saving and loading
    SaveGame,
    SaveComplete,
    SaveError(String),
    LoadGame,
    LoadComplete(Box<AppState>),
    LoadError(String),
    // Creature data
    PokemonDidLoad { target: SpriteTarget, info: PokemonInfo },
    PokemonDidError { target: SpriteTarget, name: String, error: String },
    SpriteDidLoad { target: SpriteTarget, sprite: SpriteData },
    SpriteDidError { target: SpriteTarget, error: String },
    Quit,
}

#[derive(Debug)]
pub enum Effect {
    LoadPokemon { target: SpriteTarget, name: String },
    LoadSprite { target: SpriteTarget, url: String },
    LoadPartySprite { index: usize, url: String },
    PlayAttackSound,
    LoadScenario { path: String },
    CheckSaveExists,
    SaveGame { state: Box<AppState> },
    LoadGame,
    LoadStarterPreview { name: String },
    LoadStarterSprite { url: String },
}

} // verus!
