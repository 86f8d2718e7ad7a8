//! A creature-battling route: a tile map to walk, wild and boss battles
//! with a party, items and abilities, scenario events and pickups.
pub mod map;
pub mod scenario;
pub mod state;
pub mod action;
pub mod battle;
pub mod reducer;
pub mod guard;
pub mod events;
pub mod overworld;
pub mod ending;
pub mod combat;
pub mod strikes;
pub mod confirm;
pub mod loading;
pub mod menus;
pub mod dispatch;
pub mod api;
