//! The smoothing kernels: what one particle contributes to the density of
//! another and the pressure and viscosity forces it exerts on it.
//!
//! All three kernels have the kernel radius `h` as their support: a pair whose
//! squared distance is not below `h^2` contributes nothing. They are written
//! over the normalised distances `(h^2 - r^2) / h^2` and `(h - r) / h`, which
//! lie between zero and one.
use crate::config::{Coefficients, Config};
use crate::scalar::{less, Scalar};
use crate::particle::Particle;
use crate::vec2::Vec2;
use vstd::prelude::*;

verus! {

/// Squared distance between two points.
pub open spec fn dist2_spec(a: Vec2, b: Vec2) -> Scalar {
    b.sub(a).dot(b.sub(a))
}

/// Density that a particle contributes to another at squared distance `r2`:
/// `mass * 4 / (pi * h^8) * (h^2 - r2)^3` inside the support, zero outside.
pub open spec fn density_kernel_spec(cfg: Config, r2: Scalar) -> Scalar {
    let k = cfg.coefficients();
    if less(r2, k.hsq) {
        let q = k.hsq.sub(r2).div(k.hsq);
        k.poly6.mul(q.mul(q).mul(q))
    } else {
        Scalar::zero()
    }
}

/// Pressure at density `rho`: `gas_constant * (rho - rest_density)`.
pub open spec fn pressure_spec(cfg: Config, rho: Scalar) -> Scalar {
    cfg.gas_constant.mul(rho.sub(cfg.rest_density))
}

/// Whether `b` lies inside the kernel's support around `a`.
pub open spec fn in_support(cfg: Config, a: Particle, b: Particle) -> bool {
    less(dist2(a.x, b.x), cfg.hsq())
}

/// The normalised distance `(h - r) / h` of `b` from `a`.
pub open spec fn closeness(cfg: Config, a: Particle, b: Particle) -> Scalar {
    cfg.h.sub(dist2(a.x, b.x).sqrt()).div(cfg.h)
}

/// Pressure force that `b` exerts on `a`:
/// `-normalize(b.x - a.x) * mass * (a.p + b.p) / (2 * b.rho) * (-10 / (pi * h^5)) * (h - r)^3`
/// inside the support, zero outside. A density, or a doubled density, that
/// is not positive is replaced by the smallest positive number; coincident
/// particles, between which no direction is defined, exert no pressure force
/// on each other.
pub open spec fn pressure_force_spec(cfg: Config, a: Particle, b: Particle) -> Vec2 {
    if in_support(cfg, a, b) {
        let u = closeness(cfg, a, b);
        let magnitude = cfg.mass.mul(a.p.add(b.p)).div(b.rho.double().floored()).mul(
            cfg.coefficients().spiky,
        ).mul(u.mul(u).mul(u));
        b.x.sub(a.x).normalize().neg().scale(magnitude)
    } else {
        Vec2::zero()
    }
}

/// Viscosity force that `b` exerts on `a`:
/// `viscosity * mass * (b.v - a.v) / b.rho * (40 / (pi * h^5)) * (h - r)`
/// inside the support, zero outside. A density that is not positive is
/// replaced by the smallest positive number.
pub open spec fn viscosity_force_spec(cfg: Config, a: Particle, b: Particle) -> Vec2 {
    if in_support(cfg, a, b) {
        let u = closeness(cfg, a, b);
        b.v.sub(a.v).scale(cfg.coefficients().visc.mul(u).div(b.rho.floored()))
    } else {
        Vec2::zero()
    }
}

/// Force of gravity on `a`: `gravity * mass / a.rho`, with a density that
/// is not positive replaced by the smallest positive number.
pub open spec fn gravity_force_spec(cfg: Config, a: Particle) -> Vec2 {
    cfg.gravity.scale(cfg.mass).div(a.rho.floored())
}

/// Squared distance between two points.
#[verifier::when_used_as_spec(dist2_spec)]
pub fn dist2(a: Vec2, b: Vec2) -> (r: Scalar)
    ensures
        r == dist2_spec(a, b),
{
    let d: Vec2 = b.sub(a);
    d.dot(d)
}

/// Density that a particle contributes to another at squared distance `r2`.
pub fn density_kernel(cfg: &Config, k: &Coefficients, r2: Scalar) -> (r: Scalar)
    requires
        cfg.valid(),
        *k == cfg.coefficients(),
    ensures
        r == density_kernel_spec(*cfg, r2),
        !less(r2, cfg.hsq()) ==> r == Scalar::zero(),
{
    if r2.lt(k.hsq) {
        let q: Scalar = k.hsq.sub(r2).div(k.hsq);
        k.poly6.mul(q.mul(q).mul(q))
    } else {
        Scalar::zero()
    }
}

/// Pressure at density `rho`.
pub fn pressure(cfg: &Config, rho: Scalar) -> (r: Scalar)
    ensures
        r == pressure_spec(*cfg, rho),
{
    cfg.gas_constant.mul(rho.sub(cfg.rest_density))
}

/// The pressure force and the viscosity force that `b` exerts on `a`.
pub fn pair_forces(cfg: &Config, k: &Coefficients, a: &Particle, b: &Particle) -> (r: (Vec2, Vec2))
    requires
        cfg.valid(),
        *k == cfg.coefficients(),
    ensures
        r.0 == pressure_force_spec(*cfg, *a, *b),
        r.1 == viscosity_force_spec(*cfg, *a, *b),
        !in_support(*cfg, *a, *b) ==> r.0 == Vec2::zero() && r.1 == Vec2::zero(),
{
    let rij: Vec2 = b.x.sub(a.x);
    let r2: Scalar = rij.dot(rij);
    if r2.lt(k.hsq) {
        let r: Scalar = r2.sqrt();
        let u: Scalar = cfg.h.sub(r).div(cfg.h);
        let rho: Scalar = b.rho.floored();
        let magnitude: Scalar = cfg.mass.mul(a.p.add(b.p)).div(b.rho.double().floored()).mul(
            k.spiky,
        ).mul(
            u.mul(u).mul(u),
        );
        let direction: Vec2 = if r.is_zero() {
            Vec2::zero()
        } else {
            rij.div(r)
        };
        let press: Vec2 = direction.neg().scale(magnitude);
        let visc: Vec2 = b.v.sub(a.v).scale(k.visc.mul(u).div(rho));
        (press, visc)
    } else {
        (Vec2::zero(), Vec2::zero())
    }
}

/// Force of gravity on `a`.
pub fn gravity_force(cfg: &Config, a: &Particle) -> (r: Vec2)
    ensures
        r == gravity_force_spec(*cfg, *a),
{
    cfg.gravity.scale(cfg.mass).div(a.rho.floored())
}

} // verus!
