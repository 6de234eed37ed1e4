//! A two-dimensional smoothed-particle-hydrodynamics fluid simulator in
//! integer arithmetic.
//!
//! Every quantity is a [`scalar::Scalar`]: an integer mantissa of 40 bits
//! and a binary exponent. All arithmetic is exact up to a cut to 40
//! significant bits, toward zero, so no operation overflows, traps or depends
//! on the platform, scaling by a power of two loses nothing, and a run is
//! reproducible bit for bit from the jitter of its initial arrangement.
//!
//! [`sim::Sim`] holds a population and steps it; [`stages`] holds the
//! three passes of a step, [`kernel`] and [`integrator`] what they do to a
//! pair of particles and to a single one, [`layout`] the initial arrangement.
//! [`theorems`] states what holds of every run.
pub mod scalar;
pub mod vec2;
pub mod particle;
pub mod config;
pub mod kernel;
pub mod integrator;
pub mod layout;
pub mod stages;
pub mod jitter;
pub mod sim;
pub mod algebra;
pub mod theorems;
