//! The fixed numbers of the game.

use vstd::prelude::*;

verus! {

/// Length steps in one world unit. A direction of length one has
/// components counted in the same steps.
pub const UNIT: i64 = 1_000_000_000;

/// Nanoseconds in one second.
pub const NANOS_PER_SECOND: u64 = 1_000_000_000;

/// Diameter of the player, in length steps.
pub const PLAYER_SIZE: i64 = 64 * UNIT;

/// Speed of the player in world units per second, which is length steps per
/// nanosecond.
pub const PLAYER_SPEED: u32 = 500;

/// Enemies present at the start.
pub const NUMBER_OF_ENEMIES: usize = 4;

/// Speed of an enemy in world units per second.
pub const ENEMY_SPEED: u32 = 200;

/// Diameter of an enemy, in length steps.
pub const ENEMY_SIZE: i64 = 64 * UNIT;

/// Diameter of a star, in length steps.
pub const STAR_SIZE: i64 = 32 * UNIT;

/// Stars present at the start.
pub const NUMBER_OF_STARS: usize = 10;

/// Period of the star timer, in nanoseconds.
pub const STAR_SPAWN_TIME: u64 = NANOS_PER_SECOND;

/// Period of the enemy timer, in nanoseconds.
pub const ENEMY_SPAWN_TIME: u64 = 5 * NANOS_PER_SECOND;

/// Centre distance at which a player and an enemy touch: half of each
/// diameter.
pub const ENEMY_REACH: i64 = 64 * UNIT;

/// Centre distance at which a player and a star touch: half of each
/// diameter.
pub const STAR_REACH: i64 = 48 * UNIT;

} // verus!
