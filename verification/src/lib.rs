//! Simulation core of a real-time arcade shooter.
//!
//! Every quantity is an integer in fixed units: lengths in thousandths of a
//! world unit, time in milliseconds, velocities in length units per
//! millisecond, angles in 2^-32 turns. Linear arithmetic is exact and
//! saturates at the bounds of `i32`; angles wrap.

pub mod asset_loader;
pub mod asteroids;
pub mod collision_detection;
pub mod despawn_routine;
pub mod health;
pub mod hud;
pub mod input;
pub mod movement;
pub mod physics;
pub mod random;
pub mod schedule;
pub mod spaceship;
pub mod state;
pub mod timer;
pub mod vector;
pub mod world;
