//! A small dungeon game: a player walks a tiled map, picks items up and
//! drops them again.

pub mod item;
pub mod kernel;
pub mod map;
pub mod player;
pub mod player_actions;
pub mod state;
pub mod storage;
