//! Evolving agents driven by small feedforward networks.
//!
//! The crate has three parts: a genetic-algorithm engine that works over any
//! fitness-scored individual, a feedforward network whose parameters can be
//! flattened into a gene vector and rebuilt from one, and a toroidal-world
//! simulation that ticks agent physics, drives agent brains, and replaces
//! the whole population by an evolved one at the end of each generation.
//! All quantities are Q32.32 fixed-point numbers (see `fx`), so every piece
//! of arithmetic in the library is exact integer computation.

pub mod fx;
pub mod genetics;
pub mod network;
pub mod rng;
pub mod trig;

pub mod animal_individual;
pub mod eye;
pub mod sim;
pub mod world;

use vstd::prelude::*;

verus! {

/// Least speed of an agent (0.001, Q32.32).
pub const SPEED_MIN: i64 = 4294967;

/// Greatest speed of an agent (0.005, Q32.32).
pub const SPEED_MAX: i64 = 21474836;

/// Speed of a freshly created agent (0.002, Q32.32).
pub const SPEED_DEFAULT: i64 = 8589935;

/// Bound on the speed change of one tick (0.2, Q32.32).
pub const SPEED_ACCEL: i64 = 858993459;

/// Bound on the rotation change of one tick (pi/2 radians, Q32.32).
pub const ROTATION_ACCEL: i64 = 6746518852;

/// One full turn (2 pi radians, Q32.32).
pub const TWO_PI_FX: i64 = 26986075409;

/// Ticks per generation: evolution fires when the age counter passes it.
pub const GENERATION_LENGTH: u32 = 2500;

/// Distance under which an agent eats a food (0.01 world units, in units
/// of `2^-32`).
pub const COLLISION_RADIUS: u32 = 42949673;

/// Probability that one gene mutates (0.01, in units of `2^-32`).
pub const MUTATION_CHANCE: u64 = 42949673;

/// Scale of one mutation step (0.3, Q32.32).
pub const MUTATION_COEFF: i64 = 1288490189;

/// Agents per world.
pub const N_ANIMALS: usize = 40;

/// Food items per world.
pub const N_FOODS: usize = 60;

} // verus!
