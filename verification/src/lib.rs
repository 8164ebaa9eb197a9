//! Simulation core of a top-down tile-based action game.
//!
//! A fixed-timestep engine that advances entity positions, resolves
//! collisions between moving actors and a static tile grid, and drives a
//! short combat state machine (attack windows, knockback, health).
//!
//! World coordinates are fixed-point integers: one world unit (the side of
//! one tile) is `SCALE` subunits. Times are measured in the same subunits
//! (one second is `SCALE` time subunits), so speeds are subunits per second.

use vstd::prelude::*;

pub mod geom;
pub mod grid;
pub mod collision;
pub mod level;
mod rng;
pub mod scores;
pub mod sim;

verus! {

/// Subunits per world unit (one tile side) and per second.
pub const SCALE: i64 = 1024;

/// Positions are kept inside [-WORLD_LIMIT, WORLD_LIMIT] on both axes.
pub const WORLD_LIMIT: i64 = 0x2000_0000;

/// Rectangles may extend somewhat past the position bounds (an actor box
/// centered at the world edge still has a well-formed footprint).
pub const RECT_LIMIT: i64 = 0x4000_0000;

} // verus!
