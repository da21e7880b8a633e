//! A discrete-time, off-lattice predator-prey simulation on a bounded square.
//!
//! Every quantity (coordinates, ages, nutrient reserves, time steps) is a
//! fixed-point number held in an `i64`, with [`units::UNIT`] units to one
//! whole. Arithmetic on ages and reserves saturates at the ends of `i64`.
//!
//! Chance enters through a `ChaCha8Rng`; every rule that follows a draw is
//! also offered as a function of the draw's outcome, so that what a step does
//! is stated for every outcome.

pub mod agent;
pub mod census;
pub mod dice;
pub mod laws;
pub mod model;
pub mod pairs;
pub mod phases;
pub mod step;
pub mod units;
