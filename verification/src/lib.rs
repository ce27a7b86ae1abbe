//! Grid-based chase game engine: a square tile map, a shared grid-movement
//! rule, a greedy pursuit step for enemies, a collision-triggered respawn,
//! a level catalog, and the menu/in-game state machine that sequences them.

pub mod enemy;
pub mod game;
pub mod level;
pub mod map;
pub mod player;
pub mod respawn;
pub mod world;

use vstd::prelude::*;

verus! {

/// Side length of one tile in continuous-space units.
pub const TILE_SIZE: i64 = 64;

/// Largest map dimension the engine accepts, so that every continuous-space
/// position (at most `MAX_MAP_SIZE * TILE_SIZE` from the origin) fits
/// comfortably in an `i64`.
pub const MAX_MAP_SIZE: usize = 0x1000_0000;

} // verus!
