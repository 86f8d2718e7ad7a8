//! What can happen to an adventure, and the work the reducer hands back to
//! the runtime.
use vstd::prelude::*;
use crate::dndtui::llm::LlmRequest;
use crate::dndtui::scenario::ScenarioRuntime;
use crate::dndtui::schema::ActionInterpretation;
use crate::dndtui::state::{AppState, Direction};

verus! {

#[derive(Clone, Debug)]
pub enum Action {
    Init,
    UiTerminalResize(u16, u16),
    UiRender,
    Tick,
    Move(Direction),
    Interact,
    Talk,
    OpenInventory,
    InventorySelect(usize),
    OpenCustomAction,
    CloseOverlay,
    MenuSelect(usize),
    MenuConfirm,
    SaveExists(bool),
    PauseOpen,
    PauseClose,
    PauseSelect(usize),
    PauseConfirm,
    DialogueInputChanged(String),
    DialogueSubmit,
    DialogueResponse { npc_id: String, line: String },
    CustomActionInputChanged(String),
    CustomActionSubmit,
    CustomActionInterpreted(ActionInterpretation),
    CombatAttack,
    CombatEndTurn,
    ScrollLog(i16),
    CreationNameChanged(String),
    CreationSelectClass(usize),
    CreationSelectBackground(usize),
    CreationSelectStat(usize),
    CreationAdjustStat(i8),
    CreationNext,
    CreationBack,
    CreationConfirm,
    SaveComplete,
    SaveError(String),
    LoadComplete(Box<AppState>),
    LoadError(String),
    ScenarioLoaded { scenario: ScenarioRuntime },
    ScenarioLoadError { error: String },
    LlmError(String),
    Quit,
}

#[derive(Clone, Debug)]
pub enum Effect {
    CallLlmDialogue { npc_id: String, request: LlmRequest },
    CallLlmInterpretAction { request: LlmRequest },
    SaveGame { state: Box<AppState>, since: usize },
    LoadGame { path: String },
    LoadScenario { path: String },
    CheckSaveExists { path: String },
}

} // verus!
