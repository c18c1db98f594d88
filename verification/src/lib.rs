//! A particle swarm optimization (PSO) simulation with an adversarial
//! predator, over fixed-point world coordinates.
//!
//! Coordinates and velocities are integers in milli-units (one thousandth of
//! a world unit); fitness values are integers in micro-units.  Each
//! simulation tick refreshes every particle's personal best, derives the
//! swarm's global best, moves every particle by the PSO velocity rule, and
//! then moves the predator toward the nearest particle.

pub mod codec;
pub mod geom;
pub mod math;
pub mod predator;
mod rng;
pub mod swarm;
