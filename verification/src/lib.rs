//! Simulation core of a tile-grid action game: a world of discrete rooms,
//! each holding layered sparse tile state, populated by a player, enemies,
//! and projectiles that move and collide under turn-based rules, with
//! procedurally generated terrain.

use vstd::prelude::*;

pub mod actions;
pub mod enemy;
pub mod gen;
pub mod laws;
pub mod layer;
pub mod player;
pub mod position;
pub mod projectile;
pub mod rng;
pub mod tile;
pub mod world;

verus! {

/// Width of one room's board, in tiles.
pub const BOARD_WIDTH: u16 = 50;

/// Height of one room's board, in tiles.
pub const BOARD_HEIGHT: u16 = 50;

} // verus!
