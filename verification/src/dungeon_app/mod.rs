//! The dungeon game with a market place: players hold gold, offer items for
//! sale and buy from one another, and the whole game is kept in the store
//! behind the host.

pub mod kernel;
pub mod map;
pub mod market_place;
pub mod player;
pub mod player_actions;
pub mod state;
pub mod storage;
