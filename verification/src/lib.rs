//! Simulation core of a 2D arcade shooter.
//!
//! The core owns entity spawning policy, time-stepped motion, an orbital
//! "formation" flight pattern for enemies, axis-aligned bounding-box
//! collision detection, and lifecycle transitions for the player, enemies
//! and projectiles. The host (window, assets, input, rendering) lives
//! outside; it hands the core plain values (window size in milli-units,
//! elapsed milliseconds, key states) and reads plain values back.
//!
//! Units: distances are in milli-units (one thousandth of a world unit),
//! angles in milliradians, time in milliseconds. All state is integral,
//! so every rule of the simulation is stated and proved exactly.

use vstd::prelude::*;

pub mod geom;
pub mod laws;
pub mod motion;
pub mod trig;
pub mod world;
pub mod components;
pub mod flight;
pub mod formation;
pub mod rng;
pub mod spawn;
pub mod weapons;

verus! {

/// Scale factor between world units and the integral milli-units.
pub const MILLI: i64 = 1000;

/// Uniform sprite scale applied to every spawned sprite, in milli (0.5).
pub const SPRITE_SCALE_MILLI: u64 = 500;

/// Nominal player sprite size, milli-units (144 x 177).
pub const PLAYER_W_MILLI: u64 = 144_000;
pub const PLAYER_H_MILLI: u64 = 177_000;

/// Nominal player laser sprite size, milli-units (9 x 54).
pub const PLAYER_LASER_W_MILLI: u64 = 9_000;
pub const PLAYER_LASER_H_MILLI: u64 = 54_000;

/// Nominal enemy sprite size, milli-units (67 x 144).
pub const ENEMY_W_MILLI: u64 = 67_000;
pub const ENEMY_H_MILLI: u64 = 144_000;

/// Nominal enemy laser sprite size, milli-units (9 x 54).
pub const ENEMY_LASER_W_MILLI: u64 = 9_000;
pub const ENEMY_LASER_H_MILLI: u64 = 54_000;

/// Number of frames in the explosion animation.
pub const EXPLOSION_LEN: u64 = 16;

/// Duration of one explosion animation frame, milliseconds.
pub const EXPLOSION_FRAME_MS: u64 = 50;

/// Displacement of a full-speed movable entity in one tick, milli-units:
/// base speed (500 units/s) times the fixed tick duration (1/60 s).
pub const STEP_MILLI: i64 = 8_333;

/// Population cap for concurrently live enemies.
pub const ENEMY_MAX: u32 = 100;

/// Margin around the viewport beyond which auto-despawn entities die.
pub const DESPAWN_MARGIN_MILLI: i64 = 230_000;

/// Inset from the viewport edges inside which enemies spawn.
pub const SPAWN_MARGIN_MILLI: i64 = 220_000;

/// Minimum delay between the player's death and its respawn, milliseconds.
pub const PLAYER_RESPAWN_DELAY_MS: u64 = 2_000;

/// Per-tick chance that an enemy fires: ENEMY_FIRE_NUM in ENEMY_FIRE_DEN.
pub const ENEMY_FIRE_NUM: u32 = 1;
pub const ENEMY_FIRE_DEN: u32 = 60;

/// Cadence of the enemy spawn scheduler, milliseconds.
pub const ENEMY_SPAWN_PERIOD_MS: u64 = 200;

/// Cadence of the player spawn scheduler, milliseconds.
pub const PLAYER_SPAWN_PERIOD_MS: u64 = 500;

/// Duration of one simulation tick, milliseconds (60 ticks per second).
pub const TICK_MS: u64 = 16;

/// Hard bound on the magnitude of any coordinate the core stores.
pub const POS_LIMIT_MILLI: i64 = 30_000_000;

/// Bounds on the window size the core accepts, milli-units. The floor
/// sits just above twice the spawn margin, so the margin-shrunk spawn
/// span stays non-empty on both axes.
pub const WIN_MIN_MILLI: u64 = 441_000;
pub const WIN_MAX_MILLI: u64 = 20_000_000;

/// Pi and two pi in milliradians.
pub const PI_MILLI: i64 = 3_142;
pub const TAU_MILLI: i64 = 6_284;

/// Band of admissible formation ellipse semi-axes, milli-units.
pub const RADIUS_MIN_MILLI: i64 = 80_000;
pub const RADIUS_MAX_MILLI: i64 = 150_000;

/// Band of admissible formation angular speed scalars, milli-units/s.
pub const FORMATION_SPEED_MIN_MILLI: i64 = 20_000;
pub const FORMATION_SPEED_MAX_MILLI: i64 = 1_000_000;

/// Angular speed scalar assigned to freshly generated formations.
pub const FORMATION_SPEED_MILLI: i64 = 500_000;

} // verus!
