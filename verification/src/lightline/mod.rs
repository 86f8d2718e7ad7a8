//! Lightline: descend a procedurally generated labyrinth with a lantern
//! whose light is laid down as a trail that must stay connected to the start.
pub mod action;
pub mod danger;
pub mod grid;
pub mod procgen;
pub mod reducer;
pub mod state;
