//! Fog of war for a turn-based hex strategy game: what each player sees of
//! the map, and which of the game's events each player is told about.

pub mod types;
pub mod map;
pub mod unit;
pub mod state;
pub mod event;
pub mod fow;
pub mod fow_laws;
pub mod filter;
pub mod filter_laws;
pub mod full_state;
