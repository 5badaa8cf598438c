//! A real-time particle simulator: point particles advance under gravity and
//! pairwise short-range repulsion, confined to a rectangular volume by
//! damped boundary reflection.
//!
//! All quantities are fixed-point numbers: an `i64` holds a value scaled by
//! [`fixed::SCALE`], so `1000` stands for one unit of length, velocity or
//! time.  Every operation of the simulation core is exact integer
//! arithmetic and is verified.

pub mod fixed;
pub mod laws;
pub mod particle;
pub mod rng;
pub mod sim;
pub mod vector;
