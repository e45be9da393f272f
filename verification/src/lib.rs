//! A small arcade simulation: a player steers around a window, avoids roaming
//! enemies and collects stars, with every rule of a tick stated and proved.
//!
//! All lengths are integers counted in billionths of a world unit and all
//! times in nanoseconds, so that a speed of `v` units per second moves an
//! entity by exactly `v` length steps per nanosecond.

pub mod arith;
pub mod contact;
pub mod direction;
pub mod entities;
pub mod geometry;
pub mod laws;
pub mod movement;
pub mod rules;
pub mod sound;
pub mod spawn;
pub mod timer;
pub mod world;

pub use crate::contact::{enemy_hit, player_collect_star, update_score};
pub use crate::direction::Direction;
pub use crate::entities::{Enemy, Player, Score, Star};
pub use crate::geometry::Point;
pub use crate::movement::{
    confine_enemy_movement, confine_player_movement, enemy_movement, player_movement, Keys,
};
pub use crate::sound::Sound;
pub use crate::spawn::{
    place_enemy, place_star, spawn_camera, spawn_enemies, spawn_enemy_over_timer, spawn_player,
    spawn_star, tick_spawn_star,
};
pub use crate::timer::{tick_enemy_timer, tick_start, EnemySpawnTimer, SpawnTimer, StarSpawnTimer};
pub use crate::world::{simulation_step, simulation_step_with, Draws, StepReport, World};
