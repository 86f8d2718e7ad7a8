//! A Pokedex browser: regional dex lists with search and type filters,
//! details, species, evolutions, moves, abilities, encounters and type
//! matchups fetched on demand and cached.
pub mod store;
pub mod state;
pub mod action;
pub mod reducer;
pub mod api;
