//! Fixed-point smoothed-particle hydrodynamics in two dimensions.
//!
//! A fixed set of point masses interacts through density- and pressure-derived
//! forces, gravity, pairwise contacts and the walls of a rectangular domain.
//! All quantities are fixed-point numbers with six decimal places, so a run is
//! reproducible bit for bit.

pub mod fixed;
pub mod vec2;
pub mod kernel;
pub mod params;
pub mod particle;
pub mod collision;
pub mod grid;
pub mod sums;
pub mod density;
pub mod pressure;
pub mod integrator;
pub mod boundary;
pub mod sim;
pub mod setup;
pub mod interaction;
pub mod stability;
