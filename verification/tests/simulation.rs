use sph_sim::config::Config;
use sph_sim::integrator::{advance, bounce};
use sph_sim::jitter::jitter_from;
use sph_sim::kernel::gravity_force;
use sph_sim::particle::Particle;
use sph_sim::scalar::{Scalar, EXP_MAX, HI, LO};
use sph_sim::sim::Sim;
use sph_sim::stages::{accumulate, density_at, estimate, integrate_all, net_force_at};
use sph_sim::vec2::Vec2;

fn fx(n: i32) -> Scalar {
    Scalar::from_int(n)
}

fn sc(m: i64, e: i32) -> Scalar {
    Scalar::from_parts(m, e)
}

fn val(s: Scalar) -> f64 {
    s.mantissa() as f64 * 2f64.powi(s.exponent())
}

fn at(x: Scalar, y: Scalar) -> Vec2 {
    Vec2::new(x, y)
}

fn square() -> Vec<Particle> {
    vec![
        Particle::new(fx(100), fx(100)),
        Particle::new(fx(108), fx(100)),
        Particle::new(fx(100), fx(108)),
        Particle::new(fx(108), fx(108)),
    ]
}

fn inside(cfg: &Config, x: Vec2) -> bool {
    cfg.h.le(x.x)
        && x.x.le(cfg.width.sub(cfg.h))
        && cfg.h.le(x.y)
        && x.y.le(cfg.height.sub(cfg.h))
}

fn spread(n: usize) -> Vec<Scalar> {
    (0..n as u64)
        .map(|i| jitter_from(((i * 2654435761) % ((1 << 24) + 1)) as u32))
        .collect()
}

#[test]
fn new_particle_is_at_rest() {
    let p = Particle::new(fx(3), fx(4));
    assert_eq!(p.x, Vec2::new(fx(3), fx(4)));
    assert_eq!(p.v, Vec2::zero());
    assert_eq!(p.f, Vec2::zero());
    assert_eq!(p.rho, fx(0));
    assert_eq!(p.p, fx(0));
}

#[test]
fn new_simulation_is_empty_and_standard() {
    let sim = Sim::new();
    assert_eq!(sim.len(), 0);
    assert!(sim.particles().is_empty());
    assert!(sim.positions().is_empty());
    assert_eq!(sim.config(), Config::standard());
}

#[test]
fn invalid_constants_make_no_simulation() {
    let mut cfg = Config::standard();
    cfg.h = fx(0);
    assert!(Sim::with_config(cfg).is_none());
    assert!(Sim::with_particles(cfg, square()).is_none());
    cfg = Config::standard();
    cfg.bound_damping = fx(1);
    assert!(Sim::with_config(cfg).is_none());
    cfg = Config::standard();
    cfg.width = fx(20);
    assert!(Sim::with_config(cfg).is_none());
    cfg = Config::standard();
    cfg.gravity = Vec2::zero();
    let sim = Sim::with_config(cfg).unwrap();
    assert_eq!(sim.config(), cfg);
    assert_eq!(sim.len(), 0);
}

#[test]
fn clear_removes_all_particles() {
    let mut sim = Sim::with_particles(Config::standard(), square()).unwrap();
    assert_eq!(sim.len(), 4);
    sim.clear();
    assert_eq!(sim.len(), 0);
    assert_eq!(sim.config(), Config::standard());
    sim.step();
    assert_eq!(sim.len(), 0);
}

#[test]
fn positions_are_a_snapshot_in_order() {
    let sim = Sim::with_particles(Config::standard(), square()).unwrap();
    assert_eq!(
        sim.positions(),
        vec![
            Vec2::new(fx(100), fx(100)),
            Vec2::new(fx(108), fx(100)),
            Vec2::new(fx(100), fx(108)),
            Vec2::new(fx(108), fx(108)),
        ]
    );
    assert_eq!(sim.particles(), &square());
}

#[test]
fn lone_particle_has_its_own_density_and_feels_gravity_only() {
    let mut sim =
        Sim::with_particles(Config::standard(), vec![Particle::new(fx(500), fx(500))]).unwrap();
    sim.compute_density_pressure();
    assert_eq!(sim.particles()[0].rho, sc(874963552738, -46));
    assert_eq!(sim.particles()[0].p, sc(-629119524053, -20));
    sim.compute_forces();
    assert_eq!(sim.particles()[0].f, at(fx(0), sc(-1079443016361, -29)));
    sim.integrate();
    assert_eq!(sim.particles()[0].x, at(fx(500), sc(1073571668641, -31)));
    assert_eq!(sim.particles()[0].v, at(fx(0), sc(-972316334126, -33)));
}

#[test]
fn density_counts_every_particle_in_the_support() {
    let cfg = Config::standard();
    let k = cfg.coefficients();
    let mut ps = square();
    ps.push(Particle::new(fx(300), fx(300)));
    // itself, two neighbours at distance 8 and one at distance 8 * sqrt(2)
    assert_eq!(density_at(&cfg, &k, &ps, 0), sc(861292247225, -45));
    assert_eq!(density_at(&cfg, &k, &ps, 3), sc(861292247226, -45));
    // out of everyone's reach: its own term only
    assert_eq!(density_at(&cfg, &k, &ps, 4), k.poly6);
    let two = vec![Particle::new(fx(100), fx(100)), Particle::new(fx(108), fx(100))];
    assert_eq!(density_at(&cfg, &k, &two, 0), sc(622044400774, -45));
    assert_eq!(density_at(&cfg, &k, &two, 1), sc(622044400774, -45));
    assert_eq!(
        density_at(&cfg, &k, &two, 0),
        k.poly6.add(sph_sim::kernel::density_kernel(&cfg, &k, fx(64)))
    );
}

#[test]
fn density_pass_reads_the_positions_it_was_given() {
    let cfg = Config::standard();
    let ps = square();
    let out = estimate(&cfg, &ps);
    assert_eq!(out.len(), 4);
    for i in 0..4 {
        assert_eq!(out[i].x, ps[i].x);
        assert_eq!(out[i].v, ps[i].v);
        assert_eq!(out[i].f, ps[i].f);
        assert!((val(out[i].rho) - 0.0244788).abs() < 1e-6);
        assert_eq!(out[i].p, cfg.gas_constant.mul(out[i].rho.sub(cfg.rest_density)));
    }
    assert_eq!(out[0].rho, sc(861292247225, -45));
    assert_eq!(out[0].p, sc(-629094262981, -20));
    // the input is left as it was
    assert_eq!(ps, square());
}

#[test]
fn force_pass_sums_over_the_others() {
    let cfg = Config::standard();
    let k = cfg.coefficients();
    let es = estimate(&cfg, &square());
    let fs = accumulate(&cfg, &es);
    assert_eq!(fs[0].f, at(sc(-912394880553, -23), sc(-920961888619, -23)));
    assert_eq!(fs[1].f, at(sc(912394880554, -23), sc(-920961888619, -23)));
    assert_eq!(fs[2].f, at(sc(-912394880553, -23), sc(903827872487, -23)));
    assert_eq!(fs[3].f, at(sc(912394880554, -23), sc(903827872487, -23)));
    for i in 0..4 {
        assert_eq!(net_force_at(&cfg, &k, &es, i), fs[i].f);
        assert_eq!(fs[i].x, es[i].x);
        assert_eq!(fs[i].rho, es[i].rho);
        assert_eq!(fs[i].p, es[i].p);
    }
}

#[test]
fn force_on_a_particle_leaves_out_the_particle_itself() {
    let cfg = Config::standard();
    let k = cfg.coefficients();
    let one = estimate(&cfg, &vec![Particle::new(fx(500), fx(500))]);
    let f = net_force_at(&cfg, &k, &one, 0);
    assert_eq!(f, gravity_force(&cfg, &one[0]));
    let mut moving = one.clone();
    moving[0].v = Vec2::new(fx(7), fx(9));
    assert_eq!(net_force_at(&cfg, &k, &moving, 0), f);
}

#[test]
fn forces_follow_the_densities_of_the_neighbours() {
    let cfg = Config::standard();
    let mut a = Particle::new(fx(500), fx(500));
    let mut b = Particle::new(fx(508), fx(500));
    a.rho = fx(1);
    b.rho = fx(2);
    b.v = Vec2::new(fx(1), fx(0));
    let fs = accumulate(&cfg, &vec![a, b]);
    assert_eq!(fs[0].f, at(sc(854456594470, -45), fx(-25)));
    assert_eq!(fs[1].f, at(sc(-854456594470, -44), sc(-858993459200, -36)));
    assert!((val(fs[0].f.x) - 0.0242851).abs() < 1e-5);
    assert_eq!(fs[1].f.x, fs[0].f.x.mul(fx(-2)));
    assert_eq!(val(fs[1].f.x), -2.0 * val(fs[0].f.x));
    assert_eq!(val(fs[0].f.y), -25.0);
    assert_eq!(val(fs[1].f.y), -12.5);
}

#[test]
fn two_bodies_without_gravity_have_opposite_forces() {
    let mut cfg = Config::standard();
    cfg.gravity = Vec2::zero();
    let mut a = Particle::new(fx(100), fx(100));
    let mut b = Particle::new(fx(103), fx(107));
    a.v = Vec2::new(fx(3), fx(-1));
    b.v = Vec2::new(fx(-2), fx(5));
    let mut sim = Sim::with_particles(cfg, vec![a, b]).unwrap();
    sim.compute_density_pressure();
    sim.compute_forces();
    let ps = sim.particles();
    assert_eq!(ps[0].f, at(sc(-975389399465, -24), sc(-568769753931, -22)));
    assert_eq!(ps[1].f, at(sc(975389399465, -24), sc(568769753931, -22)));
    assert_eq!(ps[0].f.add(ps[1].f), Vec2::zero());
}

#[test]
fn four_bodies_in_a_square_without_gravity_have_forces_that_cancel() {
    let mut cfg = Config::standard();
    cfg.gravity = Vec2::zero();
    let mut sim = Sim::with_particles(cfg, square()).unwrap();
    sim.compute_density_pressure();
    sim.compute_forces();
    let ps = sim.particles();
    assert_eq!(ps[0].f, at(sc(-912394880553, -23), sc(-912394880553, -23)));
    assert_eq!(ps[3].f, at(sc(912394880554, -23), sc(912394880554, -23)));
    let total = ps[0].f.add(ps[1].f).add(ps[2].f).add(ps[3].f);
    // the forces are of the order of 10^5; their sum is a few units in the last place
    assert!(val(ps[3].f.x) > 100000.0);
    assert!(val(total.x).abs() < 1e-6);
    assert!(val(total.y).abs() < 1e-6);
}

#[test]
fn velocity_is_updated_before_position() {
    let cfg = Config::standard();
    let mut p = Particle::new(fx(500), fx(500));
    p.v = Vec2::new(fx(10), fx(-20));
    p.f = Vec2::new(fx(1000), fx(2000));
    p.rho = fx(2);
    let q = advance(&cfg, p);
    // v + dt * f / rho
    assert_eq!(q.v, at(sc(711246584217, -36), sc(-663142950502, -35)));
    assert!((val(q.v.x) - 10.35).abs() < 1e-9);
    assert!((val(q.v.y) + 19.3).abs() < 1e-9);
    // x + dt * (new v)
    assert_eq!(q.x, at(sc(1073757382519, -31), sc(1073712811495, -31)));
    assert_eq!(q.x, p.x.add(q.v.scale(cfg.dt)));
    assert_eq!(q.f, p.f);
    assert_eq!(q.rho, p.rho);
    assert_eq!(q.p, p.p);
}

#[test]
fn kick_is_timestep_times_force_over_density() {
    let cfg = Config::standard();
    let mut p = Particle::new(fx(500), fx(500));
    p.f = Vec2::new(fx(1000), fx(0));
    p.rho = fx(1);
    let q = advance(&cfg, p);
    assert_eq!(q.v, at(sc(769658139442, -40), fx(0)));
    assert!((val(q.v.x) - 0.7).abs() < 1e-11);
    assert_eq!(val(q.v.y), 0.0);
    assert_eq!(q.x.y, fx(500));
    assert_eq!(q.x.x, sc(1073742876266, -31));
    assert!((val(q.x.x) - 500.00049).abs() < 1e-9);
}

#[test]
fn integration_guards_a_zero_density() {
    let cfg = Config::standard();
    let mut p = Particle::new(fx(500), fx(500));
    p.v = Vec2::new(fx(10), fx(-20));
    p.f = Vec2::new(fx(1000), fx(2000));
    let q = advance(&cfg, p);
    assert_eq!(q.x, at(fx(984), fx(984)));
    assert_eq!(q.v, at(sc(-769658139442, 999920), sc(-769658139442, 999921)));
    assert!(inside(&cfg, q.x));
}

#[test]
fn bounce_flips_and_damps_the_velocity_at_the_lower_edge() {
    let cfg = Config::standard();
    let (pos, vel) = bounce(&cfg, fx(10), fx(-2), cfg.width);
    assert_eq!(pos, fx(16));
    assert_eq!(vel, fx(1));
}

#[test]
fn bounce_flips_and_damps_the_velocity_at_the_upper_edge() {
    let cfg = Config::standard();
    let (pos, vel) = bounce(&cfg, fx(990), fx(3), cfg.width);
    assert_eq!(pos, fx(984));
    assert_eq!(vel, fx(-3).div(fx(2)));
}

#[test]
fn bounce_leaves_the_inside_alone() {
    let cfg = Config::standard();
    assert_eq!(bounce(&cfg, fx(500), fx(3), cfg.width), (fx(500), fx(3)));
    assert_eq!(bounce(&cfg, fx(16), fx(-3), cfg.width), (fx(16), fx(-3)));
    assert_eq!(bounce(&cfg, fx(984), fx(3), cfg.width), (fx(984), fx(3)));
    let below = fx(16).sub(sc(LO, -80));
    assert_eq!(below, sc(1099511627775, -36));
    assert_eq!(bounce(&cfg, below, fx(-3), cfg.width), (fx(16), fx(3).div(fx(2))));
    let above = sc(1056561954817, -30);
    assert_eq!(bounce(&cfg, above, fx(3), cfg.width), (fx(984), fx(-3).div(fx(2))));
}

#[test]
fn bounce_holds_at_the_ends_of_the_number_range() {
    let cfg = Config::standard();
    let big = sc(HI - 1, EXP_MAX);
    assert_eq!(bounce(&cfg, big, fx(1), cfg.height), (fx(984), fx(-1).div(fx(2))));
    assert_eq!(bounce(&cfg, big.neg(), fx(-1), cfg.height), (fx(16), fx(1).div(fx(2))));
    assert_eq!(bounce(&cfg, big.neg(), big.neg(), cfg.height).1, sc(HI - 1, EXP_MAX - 1));
}

#[test]
fn a_particle_can_bounce_on_both_axes_in_one_step() {
    let cfg = Config::standard();
    let mut p = Particle::new(fx(17), fx(17));
    p.v = Vec2::new(fx(-2000), fx(-3000));
    p.rho = fx(1);
    let q = advance(&cfg, p);
    assert_eq!(q.x, Vec2::new(fx(16), fx(16)));
    assert_eq!(q.v, Vec2::new(fx(1000), fx(1500)));
    let mut p = Particle::new(fx(983), fx(983));
    p.v = Vec2::new(fx(2000), fx(3000));
    p.rho = fx(1);
    let q = advance(&cfg, p);
    assert_eq!(q.x, Vec2::new(fx(984), fx(984)));
    assert_eq!(q.v, Vec2::new(fx(-1000), fx(-1500)));
}

#[test]
fn step_is_the_three_passes_in_order() {
    let cfg = Config::standard();
    let mut sim = Sim::with_particles(cfg, square()).unwrap();
    sim.step();
    let by_hand = integrate_all(&cfg, &accumulate(&cfg, &estimate(&cfg, &square())));
    assert_eq!(sim.particles(), &by_hand);
    let mut staged = Sim::with_particles(cfg, square()).unwrap();
    staged.compute_density_pressure();
    staged.compute_forces();
    staged.integrate();
    assert_eq!(staged.particles(), sim.particles());
}

#[test]
fn four_particles_in_a_square_stay_inside_after_one_step() {
    let mut cfg = Config::standard();
    cfg.particle_cap = 4;
    let mut sim = Sim::with_particles(cfg, square()).unwrap();
    sim.step();
    assert_eq!(sim.len(), 4);
    let ps = sim.particles();
    for (p, q) in ps.iter().zip(square().iter()) {
        assert!(inside(&cfg, p.x));
        assert!(p.rho.gt(Scalar::zero()));
        assert!((val(p.rho) - 0.0244788).abs() < 1e-6);
        assert!((val(p.x.x) - val(q.x.x)).abs() < 3.0);
        assert!((val(p.x.y) - val(q.x.y)).abs() < 3.0);
    }
    assert_eq!(ps[0].x, at(sc(840291885920, -33), sc(840116285933, -33)));
    assert_eq!(ps[1].x, at(sc(946414509215, -33), sc(840116285933, -33)));
    assert_eq!(ps[2].x, at(sc(840291885920, -33), sc(946238909228, -33)));
    assert_eq!(ps[3].x, at(sc(946414509215, -33), sc(946238909228, -33)));
    assert_eq!(ps[0].v, at(sc(-834891664273, -28), sc(-842730949406, -28)));
    assert_eq!(ps[3].v, at(sc(834891664273, -28), sc(827052379139, -28)));
    // a cap that is already reached adds nothing
    sim.init();
    assert_eq!(sim.len(), 4);
}

#[test]
fn densities_are_positive_after_the_standard_start_and_one_step() {
    let mut sim = Sim::new();
    sim.init();
    assert_eq!(sim.len(), 1380);
    sim.step();
    assert_eq!(sim.len(), 1380);
    let cfg = sim.config();
    let own = cfg.coefficients().poly6;
    for p in sim.particles().iter() {
        assert!(own.le(p.rho));
        assert!(inside(&cfg, p.x));
    }
}

#[test]
fn particles_stay_inside_over_many_steps() {
    let mut cfg = Config::standard();
    cfg.particle_cap = 60;
    let mut sim = Sim::with_config(cfg).unwrap();
    sim.init_with_jitter(&spread(60));
    assert_eq!(sim.len(), 60);
    for _ in 0..40 {
        sim.step();
        assert_eq!(sim.len(), 60);
        for p in sim.particles().iter() {
            assert!(inside(&cfg, p.x));
            assert!(p.rho.gt(Scalar::zero()));
        }
    }
    let ps = sim.particles();
    assert_eq!(ps[0].x, at(sc(581021253745, -32), sc(549755813888, -35)));
    assert_eq!(ps[0].v, at(sc(-619594215546, -30), sc(827484855172, -34)));
    assert_eq!(ps[0].rho, sc(876923636982, -46));
    assert_eq!(ps[0].p, sc(-629119465638, -20));
    assert_eq!(ps[0].f, at(sc(996195561800, -34), sc(-701913325325, -28)));
    assert_eq!(ps[59].x, at(sc(756797359177, -31), sc(734751111529, -34)));
    assert_eq!(ps[59].v, at(sc(1081590528463, -33), sc(-571696407023, -31)));
}

#[test]
fn particles_stay_inside_a_small_domain_under_strong_forces() {
    let mut cfg = Config::standard();
    cfg.width = fx(40);
    cfg.height = fx(36);
    cfg.gravity = Vec2::new(fx(30000), fx(-30000));
    cfg.dt = fx(1);
    let mut sim = Sim::with_particles(
        cfg,
        vec![
            Particle::new(fx(18), fx(18)),
            Particle::new(fx(20), fx(19)),
            Particle::new(fx(-500), fx(7000)),
        ],
    )
    .unwrap();
    for _ in 0..50 {
        sim.step();
        for p in sim.particles().iter() {
            assert!(inside(&cfg, p.x));
        }
    }
}
