//! Game logic of four terminal games: a rules-driven fantasy adventure
//! (`dndtui`), a lantern labyrinth (`lightline`), a Pokedex browser
//! (`pokeapi`) and a creature-battling route (`poketui`).
use vstd::prelude::*;

pub mod text;
pub mod seqs;
pub mod order;
pub mod outcome;
pub mod pokeapi;
pub mod digest;
pub mod clock;
pub mod lightline;
pub mod dndtui;
pub mod poketui;

verus! {

} // verus!
