//! What holds of every simulation under valid constants.
use crate::algebra::{
    canonical, canonical2, interior, lemma_add_grows, lemma_combine_odd, lemma_div_by_double,
    lemma_div_neg, lemma_div_self, lemma_div_sign, lemma_double, lemma_mul_by_half, lemma_mul_neg,
    lemma_mul_one, lemma_mul_sign, lemma_pack, lemma_product_canonical, lemma_results_canonical,
    lemma_sub_self, lemma_sub_swap, scaled,
};
use crate::config::Config;
use crate::integrator::{bounce_spec, contained, lemma_advance_contained, within};
use crate::kernel::{
    closeness, density_kernel_spec, dist2, gravity_force_spec, in_support, pressure_force_spec,
    viscosity_force_spec,
};
use crate::layout::{
    columns_spec, grid_point_spec, initialised, jitter_at, lemma_counts, placed_spec, room,
    rows_spec,
};
use crate::particle::Particle;
use crate::scalar::{less, Scalar, EXP_MAX};
use crate::stages::{
    density, density_sum, estimated, forced, integrated, net_force, pressure_sum, stepped,
    stepped_times, viscosity_sum,
};
use crate::vec2::Vec2;
use vstd::arithmetic::power2::{lemma2_to64, lemma_pow2_pos, lemma_pow2_unfold, pow2};
use vstd::prelude::*;

verus! {

/// The kernels vanish outside their support: a particle at a squared
/// distance of `h^2` or more from another contributes nothing to its density
/// and exerts neither pressure nor viscosity force on it.
pub proof fn lemma_kernel_support(cfg: Config, a: Particle, b: Particle)
    requires
        !less(dist2(a.x, b.x), cfg.hsq()),
    ensures
        density_kernel_spec(cfg, dist2(a.x, b.x)) == Scalar::zero(),
        pressure_force_spec(cfg, a, b) == Vec2::zero(),
        viscosity_force_spec(cfg, a, b) == Vec2::zero(),
{
}

/// A number minus itself, squared, is zero.
proof fn lemma_square_of_difference(a: Scalar)
    ensures
        a.sub(a).mul(a.sub(a)) == Scalar::zero(),
{
    lemma2_to64();
    assert(a.m * pow2(0) == a.m) by (nonlinear_arith)
        requires
            pow2(0) == 1,
    ;
    assert(a.sub(a).m == 0);
    lemma_mul_sign(a.sub(a), a.sub(a));
}

/// A point has squared distance zero from itself.
pub proof fn lemma_dist2_self(x: Vec2)
    ensures
        dist2(x, x) == Scalar::zero(),
{
    lemma_square_of_difference(x.x);
    lemma_square_of_difference(x.y);
}

/// A squared distance is canonical and not negative.
pub proof fn lemma_dist2_nonnegative(a: Vec2, b: Vec2)
    ensures
        canonical(dist2(a, b)),
        dist2(a, b).m >= 0,
{
    let d = b.sub(a);
    lemma_mul_sign(d.x, d.x);
    lemma_mul_sign(d.y, d.y);
    lemma_product_canonical(d.x, d.x);
    lemma_product_canonical(d.y, d.y);
    lemma_add_grows(d.x.mul(d.x), d.y.mul(d.y));
}

/// The difference of a positive number and a smaller one that is not
/// negative is not negative.
pub proof fn lemma_sub_positive(a: Scalar, b: Scalar)
    requires
        canonical(a),
        canonical(b),
        b.m >= 0,
        less(b, a),
    ensures
        a.sub(b).m >= 0,
{
    if b.m != 0 && a.e - b.e <= 62 {
        let k = (a.e - b.e) as nat;
        let s = a.m * pow2(k) + (-b.m);
        lemma_pow2_pos(k);
        if k == 0 {
            lemma2_to64();
            assert(a.m * pow2(k) == a.m) by (nonlinear_arith)
                requires
                    pow2(k) == 1,
            ;
        } else {
            lemma_pow2_unfold(k);
            lemma_pow2_pos((k - 1) as nat);
            assert(a.m * pow2(k) >= a.m * 2) by (nonlinear_arith)
                requires
                    pow2(k) == 2 * pow2((k - 1) as nat),
                    pow2((k - 1) as nat) >= 1,
                    a.m > 0,
            ;
        }
        assert(s > 0);
        lemma_pack(false, s, b.e as int);
    }
}

/// No particle contributes a negative density.
pub proof fn lemma_kernel_nonnegative(cfg: Config, a: Vec2, b: Vec2)
    requires
        cfg.valid(),
    ensures
        density_kernel_spec(cfg, dist2(a, b)).m >= 0,
        canonical(density_kernel_spec(cfg, dist2(a, b))),
{
    let k = cfg.coefficients();
    let r2 = dist2(a, b);
    lemma_dist2_nonnegative(a, b);
    lemma_product_canonical(cfg.h, cfg.h);
    if less(r2, k.hsq) {
        let q = k.hsq.sub(r2).div(k.hsq);
        lemma_sub_positive(k.hsq, r2);
        lemma_div_sign(k.hsq.sub(r2), k.hsq);
        lemma_mul_sign(q, q);
        lemma_mul_sign(q.mul(q), q);
        lemma_mul_sign(k.poly6, q.mul(q).mul(q));
        lemma_product_canonical(k.poly6, q.mul(q).mul(q));
    }
}

/// At distance zero the density kernel is its coefficient.
pub proof fn lemma_kernel_at_zero(cfg: Config)
    requires
        cfg.valid(),
    ensures
        density_kernel_spec(cfg, Scalar::zero()) == cfg.coefficients().poly6,
        canonical(cfg.coefficients().poly6),
{
    let k = cfg.coefficients();
    assert(k.hsq.sub(Scalar::zero()) == k.hsq);
    lemma_div_self(k.hsq);
    lemma_mul_one(Scalar::one());
    lemma_product_canonical(
        cfg.mass.mul(Scalar::from_int(4)).div(Scalar::pi()),
        cfg.hsq(),
    );
    lemma_mul_one(k.poly6);
}

/// The partial sums of a density are not negative, and from the particle's
/// own term on they are at least the kernel's coefficient.
pub proof fn lemma_density_sum_bounds(cfg: Config, ps: Seq<Particle>, i: int, n: int)
    requires
        cfg.valid(),
        0 <= i < ps.len(),
        0 <= n <= ps.len(),
    ensures
        canonical(density_sum(cfg, ps, i, n)),
        density_sum(cfg, ps, i, n).m >= 0,
        n > i ==> !less(density_sum(cfg, ps, i, n), cfg.coefficients().poly6),
    decreases n,
{
    if n > 0 {
        lemma_density_sum_bounds(cfg, ps, i, n - 1);
        lemma_kernel_nonnegative(cfg, ps[i].x, ps[n - 1].x);
        lemma_kernel_at_zero(cfg);
        if n - 1 == i {
            lemma_dist2_self(ps[i].x);
        }
        lemma_add_grows(
            density_sum(cfg, ps, i, n - 1),
            density_kernel_spec(cfg, dist2(ps[i].x, ps[n - 1].x)),
        );
    }
}

/// The density of every particle includes the particle's own contribution
/// and is therefore positive.
pub proof fn lemma_density_positive(cfg: Config, ps: Seq<Particle>, i: int)
    requires
        cfg.valid(),
        0 <= i < ps.len(),
    ensures
        !less(density(cfg, ps, i), cfg.coefficients().poly6),
        cfg.coefficients().poly6.m > 0,
        density(cfg, ps, i).m > 0,
        canonical(density(cfg, ps, i)),
        estimated(cfg, ps)[i].rho.m > 0,
{
    lemma_density_sum_bounds(cfg, ps, i, ps.len() as int);
}

/// A particle alone in the domain has the kernel's coefficient as its
/// density, from its own term, and feels gravity only: the pressure and
/// viscosity sums never pair a particle with itself.
pub proof fn lemma_lone_particle(cfg: Config, p: Particle)
    requires
        cfg.valid(),
    ensures
        density(cfg, seq![p], 0) == cfg.coefficients().poly6,
        pressure_sum(cfg, seq![p], 0, 1) == Vec2::zero(),
        viscosity_sum(cfg, seq![p], 0, 1) == Vec2::zero(),
        net_force(cfg, seq![p], 0) == gravity_force_spec(cfg, p),
{
    let ps = seq![p];
    assert(ps.len() == 1);
    assert(ps[0] == p);
    lemma_dist2_self(p.x);
    lemma_kernel_at_zero(cfg);
    assert(density_sum(cfg, ps, 0, 0) == Scalar::zero());
    assert(density_sum(cfg, ps, 0, 1) == Scalar::zero().add(cfg.coefficients().poly6));
    assert(pressure_sum(cfg, ps, 0, 0) == Vec2::zero());
    assert(viscosity_sum(cfg, ps, 0, 0) == Vec2::zero());
    let g = gravity_force_spec(cfg, p);
    assert(Vec2::zero().add(Vec2::zero()).add(g) == g);
}

/// The self pairing changes nothing in a force sum: the sum over the
/// particles up to and including `i` is the sum over those before it.
pub proof fn lemma_force_skips_self(cfg: Config, ps: Seq<Particle>, i: int)
    requires
        0 <= i < ps.len(),
    ensures
        pressure_sum(cfg, ps, i, i + 1) == pressure_sum(cfg, ps, i, i),
        viscosity_sum(cfg, ps, i, i + 1) == viscosity_sum(cfg, ps, i, i),
{
}

/// After a step every density is positive.
pub proof fn lemma_step_density_positive(cfg: Config, ps: Seq<Particle>, i: int)
    requires
        cfg.valid(),
        0 <= i < ps.len(),
    ensures
        stepped(cfg, ps).len() == ps.len(),
        stepped(cfg, ps)[i].rho.m > 0,
{
    lemma_density_positive(cfg, ps, i);
}

/// After a step every particle lies inside the domain, a kernel radius or
/// more from each edge.
pub proof fn lemma_step_contained(cfg: Config, ps: Seq<Particle>, i: int)
    requires
        cfg.valid(),
        0 <= i < ps.len(),
    ensures
        stepped(cfg, ps).len() == ps.len(),
        contained(cfg, integrated(cfg, ps)[i].x),
        contained(cfg, stepped(cfg, ps)[i].x),
{
    lemma_advance_contained(cfg, ps[i]);
    lemma_advance_contained(cfg, forced(cfg, estimated(cfg, ps))[i]);
}

/// After any number of steps, one or more, the population has the size it
/// started with and every particle lies inside the domain.
pub proof fn lemma_steps_contained(cfg: Config, ps: Seq<Particle>, n: nat, i: int)
    requires
        cfg.valid(),
        0 <= i < ps.len(),
        n >= 1,
    ensures
        stepped_times(cfg, ps, n).len() == ps.len(),
        contained(cfg, stepped_times(cfg, ps, n)[i].x),
    decreases n,
{
    let prev = stepped_times(cfg, ps, (n - 1) as nat);
    if n > 1 {
        lemma_steps_contained(cfg, ps, (n - 1) as nat, i);
    }
    lemma_step_contained(cfg, prev, i);
}

/// A position below the margin at the lower edge of an axis is moved to
/// the margin and the velocity along that axis multiplied by the damping
/// factor. A velocity toward the edge thereby turns away from it.
pub proof fn lemma_bounce_lower(cfg: Config, pos: Scalar, vel: Scalar, extent: Scalar)
    requires
        cfg.valid(),
        extent == cfg.width || extent == cfg.height,
        less(pos, cfg.h),
    ensures
        bounce_spec(cfg, pos, vel, extent) == (cfg.h, vel.mul(cfg.bound_damping)),
        vel.m < 0 ==> bounce_spec(cfg, pos, vel, extent).1.m >= 0,
{
    lemma_mul_sign(vel, cfg.bound_damping);
}

/// A position above the margin at the upper edge of an axis is moved to
/// the margin and the velocity along that axis multiplied by the damping
/// factor. A velocity toward the edge thereby turns away from it.
pub proof fn lemma_bounce_upper(cfg: Config, pos: Scalar, vel: Scalar, extent: Scalar)
    requires
        cfg.valid(),
        extent == cfg.width || extent == cfg.height,
        !less(pos, cfg.h),
        less(extent.sub(cfg.h), pos),
    ensures
        bounce_spec(cfg, pos, vel, extent) == (extent.sub(cfg.h), vel.mul(cfg.bound_damping)),
        vel.m > 0 ==> bounce_spec(cfg, pos, vel, extent).1.m <= 0,
{
    lemma_mul_sign(vel, cfg.bound_damping);
}

/// A position that keeps the margin to both edges of an axis is left as it
/// is, and so is the velocity.
pub proof fn lemma_bounce_inside(cfg: Config, pos: Scalar, vel: Scalar, extent: Scalar)
    requires
        within(cfg, pos, extent),
    ensures
        bounce_spec(cfg, pos, vel, extent) == (pos, vel),
{
}

/// Two initialisations of the same population under the same constants
/// differ in nothing but the jitter: they place equally many particles, on
/// the same rows and grid columns, at rest; the abscissa of each is that of
/// its grid point plus its jitter.
pub proof fn lemma_layout_modulo_jitter(
    cfg: Config,
    before: Seq<Particle>,
    first: Seq<Scalar>,
    second: Seq<Scalar>,
    k: int,
)
    requires
        0 <= k < placed_spec(cfg, before.len() as int),
    ensures
        initialised(cfg, before, first).len() == before.len() + placed_spec(
            cfg,
            before.len() as int,
        ),
        initialised(cfg, before, second).len() == initialised(cfg, before, first).len(),
        initialised(cfg, before, first).subrange(0, before.len() as int) == before,
        initialised(cfg, before, second).subrange(0, before.len() as int) == before,
        initialised(cfg, before, first)[before.len() + k] == Particle::new(
            grid_point_spec(cfg, columns_spec(cfg, room(cfg, before.len() as int)), k).x.add(
                jitter_at(first, k),
            ),
            grid_point_spec(cfg, columns_spec(cfg, room(cfg, before.len() as int)), k).y,
        ),
        initialised(cfg, before, second)[before.len() + k] == Particle::new(
            grid_point_spec(cfg, columns_spec(cfg, room(cfg, before.len() as int)), k).x.add(
                jitter_at(second, k),
            ),
            grid_point_spec(cfg, columns_spec(cfg, room(cfg, before.len() as int)), k).y,
        ),
        initialised(cfg, before, first)[before.len() + k].x.y == initialised(
            cfg,
            before,
            second,
        )[before.len() + k].x.y,
{
    assert(initialised(cfg, before, first).subrange(0, before.len() as int) =~= before);
    assert(initialised(cfg, before, second).subrange(0, before.len() as int) =~= before);
}

/// An initialisation never carries the population past a positive cap, and
/// adds nothing where the cap is zero or negative or already reached.
pub proof fn lemma_cap_respected(cfg: Config, before: Seq<Particle>, jitter: Seq<Scalar>)
    ensures
        0 <= placed_spec(cfg, before.len() as int) <= room(cfg, before.len() as int),
        initialised(cfg, before, jitter).len() == before.len() + placed_spec(
            cfg,
            before.len() as int,
        ),
        before.len() <= cfg.particle_cap ==> initialised(cfg, before, jitter).len()
            <= cfg.particle_cap,
        cfg.particle_cap <= before.len() ==> initialised(cfg, before, jitter) == before,
{
    let limit = room(cfg, before.len() as int);
    lemma_counts(cfg, 0, limit);
    let r = rows_spec(cfg, limit);
    let c = columns_spec(cfg, limit);
    assert(r * c >= 0) by (nonlinear_arith)
        requires
            r >= 0,
            c >= 0,
    ;
    if cfg.particle_cap <= before.len() {
        assert(r * c == 0) by (nonlinear_arith)
            requires
                r == 0,
                c == 0,
        ;
        assert(initialised(cfg, before, jitter) =~= before);
    }
}

/// The squared distance between two points does not depend on their order.
pub proof fn lemma_dist2_symmetric(a: Vec2, b: Vec2)
    requires
        canonical2(a),
        canonical2(b),
    ensures
        dist2(a, b) == dist2(b, a),
{
    let d = b.sub(a);
    lemma_results_canonical(b.x, a.x);
    lemma_results_canonical(b.y, a.y);
    lemma_sub_swap(b.x, a.x);
    lemma_sub_swap(b.y, a.y);
    lemma_mul_neg(d.x, d.x);
    lemma_mul_neg(d.y, d.y);
    assert(a.sub(b) == d.neg());
}

/// Scaling the opposite vector gives the opposite of the scaled vector.
pub proof fn lemma_scale_neg(a: Vec2, k: Scalar)
    requires
        canonical2(a),
        canonical(k),
    ensures
        a.neg().scale(k) == a.scale(k).neg(),
{
    lemma_mul_neg(a.x, k);
    lemma_mul_neg(a.y, k);
}

/// The opposite vector has the opposite direction.
pub proof fn lemma_normalize_neg(a: Vec2)
    requires
        canonical2(a),
    ensures
        a.neg().normalize() == a.normalize().neg(),
        canonical2(a.normalize()),
{
    lemma_mul_neg(a.x, a.x);
    lemma_mul_neg(a.y, a.y);
    assert(a.neg().length() == a.length());
    let len = a.length();
    if len.m != 0 {
        lemma_div_neg(a.x, len);
        lemma_div_neg(a.y, len);
        lemma_product_canonical(a.x, len);
        lemma_product_canonical(a.y, len);
    }
}

/// Action and reaction: between two particles of equal density the pressure
/// forces are opposite, and so are the viscosity forces.
pub proof fn lemma_pair_forces_opposite(cfg: Config, a: Particle, b: Particle)
    requires
        cfg.valid(),
        canonical2(a.x),
        canonical2(b.x),
        canonical2(a.v),
        canonical2(b.v),
        canonical(a.p),
        canonical(b.p),
        a.rho == b.rho,
    ensures
        pressure_force_spec(cfg, b, a) == pressure_force_spec(cfg, a, b).neg(),
        viscosity_force_spec(cfg, b, a) == viscosity_force_spec(cfg, a, b).neg(),
        canonical2(pressure_force_spec(cfg, a, b)),
        canonical2(viscosity_force_spec(cfg, a, b)),
{
    lemma_dist2_symmetric(a.x, b.x);
    if in_support(cfg, a, b) {
        let u = closeness(cfg, a, b);
        assert(closeness(cfg, b, a) == u);
        let rab = b.x.sub(a.x);
        lemma_results_canonical(b.x.x, a.x.x);
        lemma_results_canonical(b.x.y, a.x.y);
        lemma_sub_swap(b.x.x, a.x.x);
        lemma_sub_swap(b.x.y, a.x.y);
        assert(a.x.sub(b.x) == rab.neg());
        lemma_normalize_neg(rab);
        let d = rab.normalize();
        let m = cfg.mass.mul(a.p.add(b.p)).div(b.rho.double().floored()).mul(
            cfg.coefficients().spiky,
        ).mul(u.mul(u).mul(u));
        lemma_sub_swap(a.p, b.p);
        assert(b.p.add(a.p) == a.p.add(b.p));
        lemma_product_canonical(
            cfg.mass.mul(a.p.add(b.p)).div(b.rho.double().floored()).mul(cfg.coefficients().spiky),
            u.mul(u).mul(u),
        );
        lemma_results_canonical(d.x, d.y);
        lemma_results_canonical(d.y, d.x);
        lemma_scale_neg(d.neg(), m);
        lemma_product_canonical(d.neg().x, m);
        lemma_product_canonical(d.neg().y, m);
        let dv = b.v.sub(a.v);
        lemma_results_canonical(b.v.x, a.v.x);
        lemma_results_canonical(b.v.y, a.v.y);
        lemma_sub_swap(b.v.x, a.v.x);
        lemma_sub_swap(b.v.y, a.v.y);
        assert(a.v.sub(b.v) == dv.neg());
        let w = cfg.coefficients().visc.mul(u).div(b.rho.floored());
        lemma_product_canonical(cfg.coefficients().visc.mul(u), b.rho.floored());
        lemma_scale_neg(dv, w);
        lemma_product_canonical(dv.x, w);
        lemma_product_canonical(dv.y, w);
    }
}

/// In a population of two, both particles have the same density.
pub proof fn lemma_two_body_density(cfg: Config, a: Particle, b: Particle)
    requires
        cfg.valid(),
        canonical2(a.x),
        canonical2(b.x),
    ensures
        density(cfg, seq![a, b], 0) == density(cfg, seq![a, b], 1),
{
    let ps = seq![a, b];
    assert(ps.len() == 2 && ps[0] == a && ps[1] == b);
    let c = cfg.coefficients().poly6;
    let w = density_kernel_spec(cfg, dist2(a.x, b.x));
    lemma_dist2_self(a.x);
    lemma_dist2_self(b.x);
    lemma_dist2_symmetric(a.x, b.x);
    lemma_kernel_at_zero(cfg);
    lemma_kernel_nonnegative(cfg, a.x, b.x);
    lemma_sub_swap(c, w);
    assert(density_sum(cfg, ps, 0, 0) == Scalar::zero());
    assert(density_sum(cfg, ps, 0, 1) == Scalar::zero().add(c));
    assert(density_sum(cfg, ps, 0, 2) == Scalar::zero().add(c).add(w));
    assert(density_sum(cfg, ps, 1, 0) == Scalar::zero());
    assert(density_sum(cfg, ps, 1, 1) == Scalar::zero().add(w));
    assert(density_sum(cfg, ps, 1, 2) == Scalar::zero().add(w).add(c));
}

/// Without gravity, two particles of equal density feel opposite net forces.
pub proof fn lemma_two_body_forces(cfg: Config, a: Particle, b: Particle)
    requires
        cfg.valid(),
        cfg.gravity == Vec2::zero(),
        canonical2(a.x),
        canonical2(b.x),
        canonical2(a.v),
        canonical2(b.v),
        canonical(a.p),
        canonical(b.p),
        a.rho == b.rho,
    ensures
        net_force(cfg, seq![a, b], 1) == net_force(cfg, seq![a, b], 0).neg(),
        net_force(cfg, seq![a, b], 0).add(net_force(cfg, seq![a, b], 1)) == Vec2::zero(),
{
    let es = seq![a, b];
    assert(es.len() == 2 && es[0] == a && es[1] == b);
    lemma_pair_forces_opposite(cfg, a, b);
    let fp = pressure_force_spec(cfg, a, b);
    let fv = viscosity_force_spec(cfg, a, b);
    assert(pressure_sum(cfg, es, 0, 2) == Vec2::zero().add(fp)) by {
        assert(pressure_sum(cfg, es, 0, 0) == Vec2::zero());
        assert(pressure_sum(cfg, es, 0, 1) == Vec2::zero());
    }
    assert(pressure_sum(cfg, es, 1, 2) == Vec2::zero().add(fp.neg())) by {
        assert(pressure_sum(cfg, es, 1, 0) == Vec2::zero());
        assert(pressure_sum(cfg, es, 1, 1) == Vec2::zero().add(fp.neg()));
    }
    assert(viscosity_sum(cfg, es, 0, 2) == Vec2::zero().add(fv)) by {
        assert(viscosity_sum(cfg, es, 0, 0) == Vec2::zero());
        assert(viscosity_sum(cfg, es, 0, 1) == Vec2::zero());
    }
    assert(viscosity_sum(cfg, es, 1, 2) == Vec2::zero().add(fv.neg())) by {
        assert(viscosity_sum(cfg, es, 1, 0) == Vec2::zero());
        assert(viscosity_sum(cfg, es, 1, 1) == Vec2::zero().add(fv.neg()));
    }
    assert(gravity_force_spec(cfg, a) == Vec2::zero() && gravity_force_spec(cfg, b)
        == Vec2::zero()) by {
        lemma_mul_sign(Scalar::zero(), cfg.mass);
        lemma_div_sign(Scalar::zero(), a.rho.floored());
    }
    lemma_opposite_sums(fp, fv);
}

/// The net force of a pressure and a viscosity force with no gravity, and
/// that of their opposites, are opposite and cancel.
proof fn lemma_opposite_sums(fp: Vec2, fv: Vec2)
    requires
        canonical2(fp),
        canonical2(fv),
    ensures
        Vec2::zero().add(fp.neg()).add(Vec2::zero().add(fv.neg())).add(Vec2::zero()) == Vec2::zero().add(
            fp,
        ).add(Vec2::zero().add(fv)).add(Vec2::zero()).neg(),
        Vec2::zero().add(fp).add(Vec2::zero().add(fv)).add(Vec2::zero()).add(
            Vec2::zero().add(fp.neg()).add(Vec2::zero().add(fv.neg())).add(Vec2::zero()),
        ) == Vec2::zero(),
{
    lemma_opposite_sum(fp.x, fv.x);
    lemma_opposite_sum(fp.y, fv.y);
}

/// The sum of two numbers and the sum of their opposites are opposite and cancel.
proof fn lemma_opposite_sum(p: Scalar, v: Scalar)
    requires
        canonical(p),
        canonical(v),
    ensures
        Scalar::zero().add(p.neg()).add(Scalar::zero().add(v.neg())).add(Scalar::zero())
            == Scalar::zero().add(p).add(Scalar::zero().add(v)).add(Scalar::zero()).neg(),
        Scalar::zero().add(p).add(Scalar::zero().add(v)).add(Scalar::zero()).add(
            Scalar::zero().add(p.neg()).add(Scalar::zero().add(v.neg())).add(Scalar::zero()),
        ) == Scalar::zero(),
{
    lemma_sub_self(p);
    lemma_sub_self(v);
    lemma_sub_self(p.neg());
    lemma_sub_self(v.neg());
    lemma_combine_odd(p.m as int, p.e as int, v.m as int, v.e as int);
    let z = p.add(v);
    lemma_results_canonical(p, v);
    lemma_sub_self(z);
    lemma_sub_self(z.neg());
    assert(p.neg().add(v.neg()) == z.neg());
    assert(z.add(z.neg()) == z.sub(z));
}

/// Conservation of momentum for two bodies: without gravity, the forces
/// that a step finds for a population of two particles are opposite and sum
/// to zero, wherever the two particles are and however they move.
pub proof fn lemma_two_body_momentum(cfg: Config, a: Particle, b: Particle)
    requires
        cfg.valid(),
        cfg.gravity == Vec2::zero(),
        canonical2(a.x),
        canonical2(b.x),
        canonical2(a.v),
        canonical2(b.v),
    ensures
        forced(cfg, estimated(cfg, seq![a, b]))[1].f == forced(cfg, estimated(cfg, seq![a, b]))[0].f.neg(),
        forced(cfg, estimated(cfg, seq![a, b]))[0].f.add(
            forced(cfg, estimated(cfg, seq![a, b]))[1].f,
        ) == Vec2::zero(),
{
    let ps = seq![a, b];
    assert(ps.len() == 2);
    lemma_two_body_density(cfg, a, b);
    let es = estimated(cfg, ps);
    assert(es =~= seq![es[0], es[1]]);
    lemma_product_canonical(cfg.gas_constant, es[0].rho.sub(cfg.rest_density));
    lemma_product_canonical(cfg.gas_constant, es[1].rho.sub(cfg.rest_density));
    lemma_two_body_forces(cfg, es[0], es[1]);
}

/// Whether two populations agree in the positions and velocities of their particles.
pub open spec fn same_motion(ps: Seq<Particle>, qs: Seq<Particle>) -> bool {
    &&& ps.len() == qs.len()
    &&& forall|i: int| 0 <= i < ps.len() ==> (#[trigger] ps[i]).x == qs[i].x && ps[i].v == qs[i].v
}

/// Whether two populations agree in everything but the forces.
pub open spec fn same_but_force(ps: Seq<Particle>, qs: Seq<Particle>) -> bool {
    &&& ps.len() == qs.len()
    &&& forall|i: int|
        0 <= i < ps.len() ==> (#[trigger] ps[i]).x == qs[i].x && ps[i].v == qs[i].v && ps[i].rho
            == qs[i].rho && ps[i].p == qs[i].p
}

/// A density depends on the positions alone.
pub proof fn lemma_density_reads_positions(
    cfg: Config,
    ps: Seq<Particle>,
    qs: Seq<Particle>,
    i: int,
    n: int,
)
    requires
        same_motion(ps, qs),
        0 <= i < ps.len(),
        0 <= n <= ps.len(),
    ensures
        density_sum(cfg, ps, i, n) == density_sum(cfg, qs, i, n),
    decreases n,
{
    if n > 0 {
        lemma_density_reads_positions(cfg, ps, qs, i, n - 1);
        assert(ps[i].x == qs[i].x);
        assert(ps[n - 1].x == qs[n - 1].x);
    }
}

/// The force sums depend on positions, velocities, densities and pressures alone.
pub proof fn lemma_forces_read_state(
    cfg: Config,
    ps: Seq<Particle>,
    qs: Seq<Particle>,
    i: int,
    n: int,
)
    requires
        same_but_force(ps, qs),
        0 <= i < ps.len(),
        0 <= n <= ps.len(),
    ensures
        pressure_sum(cfg, ps, i, n) == pressure_sum(cfg, qs, i, n),
        viscosity_sum(cfg, ps, i, n) == viscosity_sum(cfg, qs, i, n),
    decreases n,
{
    if n > 0 {
        lemma_forces_read_state(cfg, ps, qs, i, n - 1);
        let a = ps[i];
        let b = ps[n - 1];
        let c = qs[i];
        let d = qs[n - 1];
        assert(a.x == c.x && a.v == c.v && a.rho == c.rho && a.p == c.p);
        assert(b.x == d.x && b.v == d.v && b.rho == d.rho && b.p == d.p);
        assert(pressure_force_spec(cfg, a, b) == pressure_force_spec(cfg, c, d));
        assert(viscosity_force_spec(cfg, a, b) == viscosity_force_spec(cfg, c, d));
    }
}

/// Densities, pressures and forces are derived afresh in every step: what
/// a step makes of a population depends on the positions and velocities it
/// starts with and on nothing that an earlier step left in the other fields,
/// which it overwrites before it reads them.
pub proof fn lemma_step_reads_motion_only(cfg: Config, ps: Seq<Particle>, qs: Seq<Particle>)
    requires
        same_motion(ps, qs),
    ensures
        same_but_force(estimated(cfg, ps), estimated(cfg, qs)),
        forced(cfg, estimated(cfg, ps)) == forced(cfg, estimated(cfg, qs)),
        stepped(cfg, ps) == stepped(cfg, qs),
{
    let es = estimated(cfg, ps);
    let et = estimated(cfg, qs);
    assert forall|i: int| 0 <= i < ps.len() implies (#[trigger] es[i]).x == et[i].x && es[i].v
        == et[i].v && es[i].rho == et[i].rho && es[i].p == et[i].p by {
        lemma_density_reads_positions(cfg, ps, qs, i, ps.len() as int);
        assert(ps[i].x == qs[i].x && ps[i].v == qs[i].v);
    }
    let fs = forced(cfg, es);
    let ft = forced(cfg, et);
    assert forall|i: int| 0 <= i < ps.len() implies fs[i] == ft[i] by {
        lemma_forces_read_state(cfg, es, et, i, ps.len() as int);
        assert(es[i].x == et[i].x && es[i].v == et[i].v && es[i].rho == et[i].rho && es[i].p
            == et[i].p);
    }
    assert(fs =~= ft);
}

/// The viscosity force is inverse to the density of the neighbour, and
/// exactly so where the density doubles: a neighbour of twice the density, in
/// the same place and with the same velocity, exerts exactly half the force.
/// This holds wherever the density, the force and the factor `visc * (h - r) / h
/// / rho` from which it is made lie inside the range of exponents.
pub proof fn lemma_viscosity_halves(cfg: Config, a: Particle, b: Particle, c: Particle)
    requires
        canonical(b.rho),
        b.rho.m > 0,
        b.rho.e < EXP_MAX,
        c.x == b.x,
        c.v == b.v,
        c.rho == b.rho.double(),
        interior(cfg.coefficients().visc.mul(closeness(cfg, a, b)).div(b.rho)),
        interior(viscosity_force_spec(cfg, a, b).x),
        interior(viscosity_force_spec(cfg, a, b).y),
    ensures
        viscosity_force_spec(cfg, a, c).x == scaled(viscosity_force_spec(cfg, a, b).x, -1),
        viscosity_force_spec(cfg, a, c).y == scaled(viscosity_force_spec(cfg, a, b).y, -1),
{
    lemma_double(b.rho);
    if in_support(cfg, a, b) {
        let k = cfg.coefficients().visc.mul(closeness(cfg, a, b));
        let w = k.div(b.rho);
        lemma_div_by_double(k, b.rho);
        lemma_product_canonical(k, b.rho);
        let dv = b.v.sub(a.v);
        lemma_mul_by_half(dv.x, w);
        lemma_mul_by_half(dv.y, w);
        assert(c.rho.floored() == scaled(b.rho, 1));
        assert(cfg.coefficients().visc.mul(closeness(cfg, a, c)).div(c.rho.floored()) == scaled(
            w,
            -1,
        ));
    }
}

/// The force of gravity is inverse to the particle's density, and exactly
/// so where the density doubles: at twice the density it is exactly half, as
/// long as density and force lie inside the range of exponents.
pub proof fn lemma_gravity_halves(cfg: Config, a: Particle, c: Particle)
    requires
        canonical(a.rho),
        a.rho.m > 0,
        a.rho.e < EXP_MAX,
        c.rho == a.rho.double(),
        interior(gravity_force_spec(cfg, a).x),
        interior(gravity_force_spec(cfg, a).y),
    ensures
        gravity_force_spec(cfg, c).x == scaled(gravity_force_spec(cfg, a).x, -1),
        gravity_force_spec(cfg, c).y == scaled(gravity_force_spec(cfg, a).y, -1),
{
    lemma_double(a.rho);
    let g = cfg.gravity.scale(cfg.mass);
    lemma_div_by_double(g.x, a.rho);
    lemma_div_by_double(g.y, a.rho);
}

} // verus!
