//! Kinematic simulation and tile-collision resolution for a 2D game that
//! mixes side-scrolling and top-down levels.
//!
//! All quantities are fixed-point integers: positions are in millionths of a
//! world unit, velocities in thousandths of a world unit per second, and
//! elapsed time in milliseconds, so that one velocity step times one
//! millisecond is exactly one position step.
use vstd::prelude::*;

pub mod components;
pub mod game;
pub mod laws;
pub mod level;
pub mod player;
pub mod scan;
pub mod timer;
pub mod world;

verus! {

/// One world unit, in the position scale.
pub const UNIT: i64 = 1_000_000;

/// Edge length of one tile, in the position scale (32 world units).
pub const TILE_SIZE: i64 = 32 * UNIT;

/// Largest number of tiles along either axis of a level: the tile count of
/// the largest level then fits a 32-bit `usize`.
pub const MAX_DIM: usize = 65535;

} // verus!
