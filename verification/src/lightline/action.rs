use vstd::prelude::*;
use crate::lightline::state::{Direction, GeneratedFloor};

verus! {

/// Everything that can happen to a Lightline run.
pub enum Action {
    Init,
    GenerateFloor,
    FloorGenerated(GeneratedFloor),
    Move(Direction, bool),
    Interact,
    Tick,
    DangerAdvance,
    Descend,
    GameOver,
    PauseOpen,
    PauseClose,
    Quit,
}

/// Work the runtime does on the reducer's behalf.
#[derive(Clone, Copy, Debug, PartialEq, Eq, Structural)]
pub enum Effect {
    GenerateFloor { floor_index: u32, seed: u64, width: u16, height: u16 },
}

} // verus!
