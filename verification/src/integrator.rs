//! One explicit timestep of a particle and the reflection at the domain's edges.
use crate::config::Config;
use crate::scalar::{less, Scalar};
use crate::particle::Particle;
use crate::vec2::Vec2;
use vstd::prelude::*;

verus! {

/// Whether `pos` keeps the margin `h` to both edges of an axis of extent `extent`.
pub open spec fn within(cfg: Config, pos: Scalar, extent: Scalar) -> bool {
    !less(pos, cfg.h) && !less(extent.sub(cfg.h), pos)
}

/// Whether a point keeps the margin to all four edges of the domain.
pub open spec fn contained(cfg: Config, x: Vec2) -> bool {
    within(cfg, x.x, cfg.width) && within(cfg, x.y, cfg.height)
}

/// Position and velocity along one axis after the reflection at its edges.
/// A position below the margin `h`, whose distance `pos - h` from the lower
/// edge's margin is negative, is moved to `h` and the velocity multiplied by
/// the damping factor; then a position above `extent - h`, for which
/// `pos + h` exceeds the extent, is moved to `extent - h` and the velocity
/// multiplied by the damping factor.
pub open spec fn bounce_spec(cfg: Config, pos: Scalar, vel: Scalar, extent: Scalar) -> (
    Scalar,
    Scalar,
) {
    let low = if less(pos, cfg.h) {
        (cfg.h, vel.mul(cfg.bound_damping))
    } else {
        (pos, vel)
    };
    if less(extent.sub(cfg.h), low.0) {
        (extent.sub(cfg.h), low.1.mul(cfg.bound_damping))
    } else {
        low
    }
}

/// The velocity after the step: `v + dt * f / rho`, with a density that is
/// not positive replaced by the smallest positive number.
pub open spec fn kicked(cfg: Config, p: Particle) -> Vec2 {
    p.v.add(p.f.scale(cfg.dt).div(p.rho.floored()))
}

/// The position after the step and before the reflection: `x + dt * v`, with
/// the velocity already updated.
pub open spec fn drifted(cfg: Config, p: Particle) -> Vec2 {
    p.x.add(kicked(cfg, p).scale(cfg.dt))
}

/// The particle after one timestep: velocity first, then position from the
/// new velocity, then the reflection on each axis by itself.
pub open spec fn advance_spec(cfg: Config, p: Particle) -> Particle {
    let v = kicked(cfg, p);
    let x = drifted(cfg, p);
    let bx = bounce_spec(cfg, x.x, v.x, cfg.width);
    let by = bounce_spec(cfg, x.y, v.y, cfg.height);
    Particle { x: Vec2 { x: bx.0, y: by.0 }, v: Vec2 { x: bx.1, y: by.1 }, f: p.f, rho: p.rho, p: p.p }
}

/// Position and velocity along one axis after the reflection at its edges.
pub fn bounce(cfg: &Config, pos: Scalar, vel: Scalar, extent: Scalar) -> (r: (Scalar, Scalar))
    ensures
        r == bounce_spec(*cfg, pos, vel, extent),
{
    let mut p: Scalar = pos;
    let mut v: Scalar = vel;
    if p.lt(cfg.h) {
        v = v.mul(cfg.bound_damping);
        p = cfg.h;
    }
    if p.gt(extent.sub(cfg.h)) {
        v = v.mul(cfg.bound_damping);
        p = extent.sub(cfg.h);
    }
    (p, v)
}

/// The particle after one timestep.
pub fn advance(cfg: &Config, p: Particle) -> (r: Particle)
    ensures
        r == advance_spec(*cfg, p),
{
    let v: Vec2 = p.v.add(p.f.scale(cfg.dt).div(p.rho.floored()));
    let x: Vec2 = p.x.add(v.scale(cfg.dt));
    let bx: (Scalar, Scalar) = bounce(cfg, x.x, v.x, cfg.width);
    let by: (Scalar, Scalar) = bounce(cfg, x.y, v.y, cfg.height);
    Particle { x: Vec2 { x: bx.0, y: by.0 }, v: Vec2 { x: bx.1, y: by.1 }, f: p.f, rho: p.rho, p: p.p }
}

/// After the reflection the position keeps the margin to both edges,
/// wherever the step had carried it.
pub proof fn lemma_bounce_within(cfg: Config, pos: Scalar, vel: Scalar, extent: Scalar)
    requires
        !less(extent.sub(cfg.h), cfg.h),
    ensures
        within(cfg, bounce_spec(cfg, pos, vel, extent).0, extent),
{
}

/// After a timestep a particle lies inside the domain, margins included.
pub proof fn lemma_advance_contained(cfg: Config, p: Particle)
    requires
        cfg.valid(),
    ensures
        contained(cfg, advance_spec(cfg, p).x),
{
    let v = kicked(cfg, p);
    let x = drifted(cfg, p);
    lemma_bounce_within(cfg, x.x, v.x, cfg.width);
    lemma_bounce_within(cfg, x.y, v.y, cfg.height);
}

} // verus!
