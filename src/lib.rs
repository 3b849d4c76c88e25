//! Control logic of a small 2D platformer: keyboard snapshots become movement
//! intent, intent and floor contact become a new player velocity, and level
//! text becomes a grid of tiles.

pub mod actions;
pub mod level;
pub mod player;
