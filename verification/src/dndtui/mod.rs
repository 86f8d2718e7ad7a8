//! A rules-driven fantasy adventure: character creation with point buy,
//! exploration of a tile map with NPCs, items and triggers, turn-based
//! combat, and free-form actions interpreted into skill checks.
pub mod action;
pub mod icons;
pub mod llm;
pub mod prompt;
pub mod reducer;
pub mod rules;
pub mod scenario;
pub mod schema;
pub mod sprite;
pub mod sprite_backend;
pub mod state;
