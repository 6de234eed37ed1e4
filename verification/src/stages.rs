//! The three passes of a simulation step over a population: density and
//! pressure, forces, integration. Each pass reads the population it is given
//! and builds a new one, so every particle sees the same state of all others.
use crate::config::{Coefficients, Config};
use crate::scalar::Scalar;
use crate::integrator::{advance, advance_spec};
use crate::kernel::{
    density_kernel, density_kernel_spec, dist2, gravity_force, gravity_force_spec, pair_forces,
    pressure, pressure_force_spec, pressure_spec, viscosity_force_spec,
};
use crate::particle::Particle;
use crate::vec2::Vec2;
use vstd::prelude::*;

verus! {

/// Density that the first `n` particles contribute to particle `i`, itself included.
pub open spec fn density_sum(cfg: Config, ps: Seq<Particle>, i: int, n: int) -> Scalar
    decreases n,
{
    if n <= 0 {
        Scalar::zero()
    } else {
        density_sum(cfg, ps, i, n - 1).add(density_kernel_spec(cfg, dist2(ps[i].x, ps[n - 1].x)))
    }
}

/// Density at particle `i`: the kernel summed over all particles, itself included.
pub open spec fn density(cfg: Config, ps: Seq<Particle>, i: int) -> Scalar {
    density_sum(cfg, ps, i, ps.len() as int)
}

/// Pressure force that the first `n` particles exert on particle `i`, itself left out.
pub open spec fn pressure_sum(cfg: Config, ps: Seq<Particle>, i: int, n: int) -> Vec2
    decreases n,
{
    if n <= 0 {
        Vec2::zero()
    } else if n - 1 == i {
        pressure_sum(cfg, ps, i, n - 1)
    } else {
        pressure_sum(cfg, ps, i, n - 1).add(pressure_force_spec(cfg, ps[i], ps[n - 1]))
    }
}

/// Viscosity force that the first `n` particles exert on particle `i`, itself left out.
pub open spec fn viscosity_sum(cfg: Config, ps: Seq<Particle>, i: int, n: int) -> Vec2
    decreases n,
{
    if n <= 0 {
        Vec2::zero()
    } else if n - 1 == i {
        viscosity_sum(cfg, ps, i, n - 1)
    } else {
        viscosity_sum(cfg, ps, i, n - 1).add(viscosity_force_spec(cfg, ps[i], ps[n - 1]))
    }
}

/// Net force on particle `i`: pressure plus viscosity from all other particles, plus gravity.
pub open spec fn net_force(cfg: Config, ps: Seq<Particle>, i: int) -> Vec2 {
    pressure_sum(cfg, ps, i, ps.len() as int).add(viscosity_sum(cfg, ps, i, ps.len() as int)).add(
        gravity_force_spec(cfg, ps[i]),
    )
}

/// Particle `i` with its density and pressure estimated from the positions in `ps`.
pub open spec fn estimated_at(cfg: Config, ps: Seq<Particle>, i: int) -> Particle {
    Particle {
        x: ps[i].x,
        v: ps[i].v,
        f: ps[i].f,
        rho: density(cfg, ps, i),
        p: pressure_spec(cfg, density(cfg, ps, i)),
    }
}

/// Particle `i` with the net force that the particles in `ps` exert on it.
pub open spec fn forced_at(cfg: Config, ps: Seq<Particle>, i: int) -> Particle {
    Particle { x: ps[i].x, v: ps[i].v, f: net_force(cfg, ps, i), rho: ps[i].rho, p: ps[i].p }
}

/// The population after the density and pressure pass.
pub open spec fn estimated(cfg: Config, ps: Seq<Particle>) -> Seq<Particle> {
    Seq::new(ps.len(), |i: int| estimated_at(cfg, ps, i))
}

/// The population after the force pass.
pub open spec fn forced(cfg: Config, ps: Seq<Particle>) -> Seq<Particle> {
    Seq::new(ps.len(), |i: int| forced_at(cfg, ps, i))
}

/// The population after the integration pass.
pub open spec fn integrated(cfg: Config, ps: Seq<Particle>) -> Seq<Particle> {
    Seq::new(ps.len(), |i: int| advance_spec(cfg, ps[i]))
}

/// The population after one step: the three passes in their order.
pub open spec fn stepped(cfg: Config, ps: Seq<Particle>) -> Seq<Particle> {
    integrated(cfg, forced(cfg, estimated(cfg, ps)))
}

/// The population after `n` steps.
pub open spec fn stepped_times(cfg: Config, ps: Seq<Particle>, n: nat) -> Seq<Particle>
    decreases n,
{
    if n == 0 {
        ps
    } else {
        stepped(cfg, stepped_times(cfg, ps, (n - 1) as nat))
    }
}

/// Density at particle `i`.
pub fn density_at(cfg: &Config, k: &Coefficients, ps: &Vec<Particle>, i: usize) -> (r: Scalar)
    requires
        cfg.valid(),
        *k == cfg.coefficients(),
        i < ps.len(),
    ensures
        r == density(*cfg, ps@, i as int),
{
    let n: usize = ps.len();
    let xi: Vec2 = ps[i].x;
    let mut rho: Scalar = Scalar::zero();
    let mut j: usize = 0;
    while j < n
        invariant
            j <= n,
            n == ps.len(),
            i < n,
            cfg.valid(),
            *k == cfg.coefficients(),
            xi == ps@[i as int].x,
            rho == density_sum(*cfg, ps@, i as int, j as int),
        decreases n - j,
    {
        rho = rho.add(density_kernel(cfg, k, dist2(xi, ps[j].x)));
        j += 1;
    }
    rho
}

/// Net force on particle `i`.
pub fn net_force_at(cfg: &Config, k: &Coefficients, ps: &Vec<Particle>, i: usize) -> (r: Vec2)
    requires
        cfg.valid(),
        *k == cfg.coefficients(),
        i < ps.len(),
    ensures
        r == net_force(*cfg, ps@, i as int),
{
    let n: usize = ps.len();
    let pi: Particle = ps[i];
    let mut fpress: Vec2 = Vec2::zero();
    let mut fvisc: Vec2 = Vec2::zero();
    let mut j: usize = 0;
    while j < n
        invariant
            j <= n,
            n == ps.len(),
            i < n,
            cfg.valid(),
            *k == cfg.coefficients(),
            pi == ps@[i as int],
            fpress == pressure_sum(*cfg, ps@, i as int, j as int),
            fvisc == viscosity_sum(*cfg, ps@, i as int, j as int),
        decreases n - j,
    {
        if j != i {
            let pair: (Vec2, Vec2) = pair_forces(cfg, k, &pi, &ps[j]);
            fpress = fpress.add(pair.0);
            fvisc = fvisc.add(pair.1);
        }
        j += 1;
    }
    fpress.add(fvisc).add(gravity_force(cfg, &pi))
}

/// The density and pressure pass.
pub fn estimate(cfg: &Config, ps: &Vec<Particle>) -> (out: Vec<Particle>)
    requires
        cfg.valid(),
    ensures
        out@ == estimated(*cfg, ps@),
{
    let k: Coefficients = cfg.coefficients();
    let n: usize = ps.len();
    let mut out: Vec<Particle> = Vec::new();
    let mut i: usize = 0;
    while i < n
        invariant
            i <= n,
            n == ps.len(),
            cfg.valid(),
            k == cfg.coefficients(),
            out@.len() == i,
            forall|t: int| 0 <= t < i ==> #[trigger] out@[t] == estimated_at(*cfg, ps@, t),
        decreases n - i,
    {
        let rho: Scalar = density_at(cfg, &k, ps, i);
        let pi: Particle = ps[i];
        out.push(Particle { x: pi.x, v: pi.v, f: pi.f, rho, p: pressure(cfg, rho) });
        i += 1;
    }
    assert(out@ =~= estimated(*cfg, ps@));
    out
}

/// The force pass.
pub fn accumulate(cfg: &Config, ps: &Vec<Particle>) -> (out: Vec<Particle>)
    requires
        cfg.valid(),
    ensures
        out@ == forced(*cfg, ps@),
{
    let k: Coefficients = cfg.coefficients();
    let n: usize = ps.len();
    let mut out: Vec<Particle> = Vec::new();
    let mut i: usize = 0;
    while i < n
        invariant
            i <= n,
            n == ps.len(),
            cfg.valid(),
            k == cfg.coefficients(),
            out@.len() == i,
            forall|t: int| 0 <= t < i ==> #[trigger] out@[t] == forced_at(*cfg, ps@, t),
        decreases n - i,
    {
        let f: Vec2 = net_force_at(cfg, &k, ps, i);
        let pi: Particle = ps[i];
        out.push(Particle { x: pi.x, v: pi.v, f, rho: pi.rho, p: pi.p });
        i += 1;
    }
    assert(out@ =~= forced(*cfg, ps@));
    out
}

/// The integration pass.
pub fn integrate_all(cfg: &Config, ps: &Vec<Particle>) -> (out: Vec<Particle>)
    ensures
        out@ == integrated(*cfg, ps@),
{
    let n: usize = ps.len();
    let mut out: Vec<Particle> = Vec::new();
    let mut i: usize = 0;
    while i < n
        invariant
            i <= n,
            n == ps.len(),
            out@.len() == i,
            forall|t: int| 0 <= t < i ==> #[trigger] out@[t] == advance_spec(*cfg, ps@[t]),
        decreases n - i,
    {
        out.push(advance(cfg, ps[i]));
        i += 1;
    }
    assert(out@ =~= integrated(*cfg, ps@));
    out
}

} // verus!
