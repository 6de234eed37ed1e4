//! The fluid particle.
use crate::scalar::Scalar;
use crate::vec2::Vec2;
use vstd::prelude::*;

verus! {

/// One fluid particle. Density, pressure and force are derived afresh in
/// every step from the positions and velocities the step starts with.
#[derive(Clone, Copy, Debug, PartialEq, Eq, Structural)]
pub struct Particle {
    /// Position.
    pub x: Vec2,
    /// Velocity.
    pub v: Vec2,
    /// Net force of the current step.
    pub f: Vec2,
    /// Density of the current step.
    pub rho: Scalar,
    /// Pressure of the current step.
    pub p: Scalar,
}

impl Particle {
    /// A particle at rest at `(x, y)` with no force, density or pressure yet.
    pub open spec fn new_spec(x: Scalar, y: Scalar) -> Particle {
        Particle {
            x: Vec2::new(x, y),
            v: Vec2::zero(),
            f: Vec2::zero(),
            rho: Scalar::zero(),
            p: Scalar::zero(),
        }
    }

    #[verifier::when_used_as_spec(new_spec)]
    pub fn new(x: Scalar, y: Scalar) -> (r: Particle)
        ensures
            r == Particle::new_spec(x, y),
    {
        Particle {
            x: Vec2::new(x, y),
            v: Vec2::zero(),
            f: Vec2::zero(),
            rho: Scalar::zero(),
            p: Scalar::zero(),
        }
    }
}

} // verus!
