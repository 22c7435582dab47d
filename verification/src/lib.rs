//! Kinematic movement for the entities of a small 2D arena: a velocity that
//! is accelerated, damped, capped and integrated once per tick, and the
//! player and enemy controllers that drive it.
//!
//! All quantities are fixed-point numbers: an `i64` counts millionths of a
//! unit (see [`fixed::ONE`]), times are in seconds, and every operation
//! rounds toward zero and saturates, so a tick is a total, deterministic
//! function of the state, the input and the time step.
//!
//! - [`fixed`] and [`sqrt`]: the arithmetic;
//! - [`vec2`]: vectors in the plane;
//! - [`movable`]: the kinematic state and the four operations of a tick;
//! - [`arena`]: the walls and the region between them;
//! - [`player`] and [`enemy`]: the two controllers;
//! - [`sightline`]: the player's aim.

pub mod arena;
pub mod enemy;
pub mod fixed;
pub mod movable;
pub mod player;
pub mod sightline;
pub mod sqrt;
pub mod vec2;
