use sph_sim::config::Config;
use sph_sim::jitter::{draw, draw_many, jitter_from};
use sph_sim::layout::{
    column_x, columns, extend_with_block, grid_point, placed, room_for, row_y, rows,
};
use sph_sim::particle::Particle;
use sph_sim::scalar::{Scalar, LO};
use sph_sim::sim::Sim;
use sph_sim::vec2::Vec2;

fn fx(n: i32) -> Scalar {
    Scalar::from_int(n)
}

fn sc(m: i64, e: i32) -> Scalar {
    Scalar::from_parts(m, e)
}

fn val(s: Scalar) -> f64 {
    s.mantissa() as f64 * 2f64.powi(s.exponent())
}

fn capped(cap: i64) -> Config {
    let mut cfg = Config::standard();
    cfg.particle_cap = cap;
    cfg
}

fn is_jitter(j: Scalar) -> bool {
    fx(0).le(j) && j.le(fx(1))
}

#[test]
fn standard_block_has_60_rows_of_23_columns() {
    let cfg = Config::standard();
    assert_eq!(columns(&cfg, 250000), 23);
    assert_eq!(rows(&cfg, 250000), 60);
    assert_eq!(columns(&cfg, 4), 4);
    assert_eq!(rows(&cfg, 4), 4);
    assert_eq!(columns(&cfg, 0), 0);
    assert_eq!(room_for(&cfg, 0), 250000);
    assert_eq!(room_for(&cfg, 250001), 0);
    assert_eq!(placed(&cfg, 0), 1380);
    assert_eq!(placed(&cfg, 249000), 1000);
    assert_eq!(placed(&cfg, 250000), 0);
    assert_eq!(placed(&cfg, 250001), 0);
}

#[test]
fn grid_points_run_along_the_rows() {
    let cfg = Config::standard();
    // a seventh of the width, cut to 40 bits
    assert_eq!(grid_point(&cfg, 23, 0), Vec2::new(sc(613566756571, -32), fx(16)));
    assert_eq!(grid_point(&cfg, 23, 1), Vec2::new(sc(682286233307, -32), fx(16)));
    assert_eq!(grid_point(&cfg, 23, 22), Vec2::new(sc(1062697622381, -31), fx(16)));
    assert_eq!(grid_point(&cfg, 23, 23), Vec2::new(sc(613566756571, -32), fx(32)));
    assert_eq!(grid_point(&cfg, 23, 1379), Vec2::new(sc(1062697622381, -31), fx(960)));
    assert_eq!(column_x(&cfg, 22), sc(1062697622381, -31));
    assert_eq!(row_y(&cfg, 59), fx(960));
    assert!((val(column_x(&cfg, 0)) - 1000.0 / 7.0).abs() < 1e-9);
    assert!((val(column_x(&cfg, 22)) - (1000.0 / 7.0 + 22.0 * 16.0)).abs() < 1e-9);
    // the last column does not pass half of the width, the last row stays below 968
    assert!(column_x(&cfg, 22).le(fx(500)));
    assert!(column_x(&cfg, 23).gt(fx(500)));
    assert!(row_y(&cfg, 59).lt(fx(968)));
    assert!(!row_y(&cfg, 60).lt(fx(968)));
}

#[test]
fn initialisation_with_given_jitter_is_exact() {
    let mut sim = Sim::new();
    sim.init_with_jitter(&vec![jitter_from(1 << 23), jitter_from(5)]);
    assert_eq!(sim.len(), 1380);
    let ps = sim.particles();
    assert_eq!(ps[0], Particle::new(sc(615714240219, -32), fx(16)));
    assert_eq!(ps[1], Particle::new(sc(682286234587, -32), fx(16)));
    // where the jitter runs out the grid point is taken as it is
    assert_eq!(ps[2], Particle::new(sc(751005710043, -32), fx(16)));
    assert_eq!(ps[1357], Particle::new(sc(613566756571, -32), fx(960)));
    assert_eq!(ps[1379], Particle::new(sc(1062697622381, -31), fx(960)));
    assert!((val(ps[0].x.x) - (1000.0 / 7.0 + 0.5)).abs() < 1e-9);
}

#[test]
fn two_initialisations_differ_in_the_jitter_only() {
    let mut first = Sim::new();
    let mut second = Sim::new();
    first.init();
    second.init();
    assert_eq!(first.len(), 1380);
    assert_eq!(second.len(), first.len());
    let cfg = Config::standard();
    for k in 0..1380 {
        let a = first.particles()[k];
        let b = second.particles()[k];
        let g = grid_point(&cfg, 23, k as u64);
        assert_eq!(a.x.y, g.y);
        assert_eq!(b.x.y, g.y);
        assert_eq!(a.x.y, fx(16 + 16 * (k as i32 / 23)));
        assert!(g.x.le(a.x.x) && a.x.x.le(g.x.add(fx(1))));
        assert!(g.x.le(b.x.x) && b.x.x.le(g.x.add(fx(1))));
        assert_eq!(a.v, Vec2::zero());
        assert_eq!(a.f, Vec2::zero());
        assert_eq!(a.rho, fx(0));
        assert_eq!(a.p, fx(0));
    }
    let mut third = Sim::new();
    let mut fourth = Sim::new();
    let jitter = vec![jitter_from(77); 1380];
    third.init_with_jitter(&jitter);
    fourth.init_with_jitter(&jitter);
    assert_eq!(third.particles(), fourth.particles());
}

#[test]
fn jitter_stands_for_a_fraction_of_two_to_the_24() {
    assert_eq!(jitter_from(0), fx(0));
    assert_eq!(jitter_from(1), sc(LO, -63));
    assert_eq!(jitter_from(1 << 24), fx(1));
    assert_eq!(jitter_from(1 << 23), fx(1).div(fx(2)));
    assert_eq!(jitter_from(12345), sc(828458926080, -50));
    assert_eq!(val(jitter_from(12345)), 12345.0 / 16777216.0);
    assert!(is_jitter(jitter_from(0)));
    assert!(is_jitter(jitter_from(1)));
    assert!(is_jitter(jitter_from(1 << 24)));
    assert!(!is_jitter(jitter_from((1 << 24) + 1)));
}

#[test]
fn random_jitter_varies_between_zero_and_one() {
    let js = draw_many(500);
    assert_eq!(js.len(), 500);
    for j in js.iter() {
        assert!(is_jitter(*j));
    }
    assert!(js.iter().any(|j| *j != js[0]));
    assert!(js.iter().any(|j| *j != fx(0)));
    assert!(js.iter().any(|j| *j != fx(1)));
    let low = js.iter().filter(|j| j.lt(fx(1).div(fx(2)))).count();
    assert!(50 < low && low < 450);
    assert!(is_jitter(draw()));
    assert!(draw_many(0).is_empty());
}

#[test]
fn random_initialisation_displaces_the_particles() {
    let mut sim = Sim::new();
    sim.init();
    let cfg = Config::standard();
    let moved = (0..1380)
        .filter(|&k| sim.particles()[k].x.x != grid_point(&cfg, 23, k as u64).x)
        .count();
    assert!(moved > 1000);
    let full = (0..1380)
        .filter(|&k| sim.particles()[k].x.x == grid_point(&cfg, 23, k as u64).x.add(fx(1)))
        .count();
    assert!(full < 100);
}

#[test]
fn cap_of_zero_or_less_places_nothing() {
    for cap in [0, -1, -250000, i64::MIN] {
        let mut sim = Sim::with_config(capped(cap)).unwrap();
        sim.init();
        assert_eq!(sim.len(), 0);
        sim.init_with_jitter(&vec![jitter_from(3)]);
        assert_eq!(sim.len(), 0);
        sim.step();
        assert_eq!(sim.len(), 0);
    }
}

#[test]
fn cap_bounds_the_population() {
    let mut sim = Sim::with_config(capped(4)).unwrap();
    sim.init();
    assert_eq!(sim.len(), 4);
    for (k, p) in sim.particles().iter().enumerate() {
        assert_eq!(p.x.y, fx(16));
        let x = column_x(&capped(4), k as u64);
        assert!(x.le(p.x.x) && p.x.x.le(x.add(fx(1))));
    }
    let mut big = Sim::with_config(capped(i64::MAX)).unwrap();
    big.init();
    assert_eq!(big.len(), 1380);
}

#[test]
fn initialisation_appends_until_the_cap_is_reached() {
    let cfg = capped(5);
    let before = vec![
        Particle::new(sc(613566756571, -32), fx(16)),
        Particle::new(sc(682286233307, -32), fx(16)),
        Particle::new(sc(751005710043, -32), fx(16)),
    ];
    let after = extend_with_block(&cfg, &before, &vec![jitter_from(7)]);
    assert_eq!(after.len(), 5);
    assert_eq!(&after[..3], &before[..]);
    assert_eq!(after[3], Particle::new(sc(613566758363, -32), fx(16)));
    assert_eq!(after[4], Particle::new(sc(682286233307, -32), fx(16)));
    let mut sim = Sim::with_particles(capped(1383), before.clone()).unwrap();
    sim.init();
    assert_eq!(sim.len(), 1383);
    sim.init();
    assert_eq!(sim.len(), 1383);
    let mut refilled = Sim::new();
    refilled.init();
    refilled.clear();
    assert_eq!(refilled.len(), 0);
    refilled.init();
    assert_eq!(refilled.len(), 1380);
}

#[test]
fn small_domain_holds_a_block_of_two_by_two() {
    let mut cfg = Config::standard();
    cfg.width = fx(64);
    cfg.height = fx(80);
    assert!(cfg.is_valid());
    assert_eq!(columns(&cfg, 250000), 2);
    assert_eq!(rows(&cfg, 250000), 2);
    let mut sim = Sim::with_config(cfg).unwrap();
    sim.init_with_jitter(&vec![
        jitter_from(1 << 23),
        jitter_from(1 << 22),
        jitter_from(0),
        jitter_from(1 << 24),
    ]);
    assert_eq!(
        sim.positions(),
        vec![
            Vec2::new(sc(662652097097, -36), fx(16)),
            Vec2::new(sc(872491927844, -35), fx(16)),
            Vec2::new(sc(628292358729, -36), fx(32)),
            Vec2::new(sc(898261731620, -35), fx(32)),
        ]
    );
}

#[test]
fn narrowest_domain_has_one_column_and_no_row() {
    let mut cfg = Config::standard();
    cfg.width = fx(32);
    cfg.height = fx(32);
    assert!(cfg.is_valid());
    assert_eq!(columns(&cfg, 250000), 1);
    assert_eq!(rows(&cfg, 250000), 0);
    assert_eq!(placed(&cfg, 0), 0);
    let mut sim = Sim::with_config(cfg).unwrap();
    sim.init();
    assert_eq!(sim.len(), 0);
    cfg.height = fx(49);
    assert_eq!(rows(&cfg, 250000), 1);
    cfg.height = fx(48);
    assert_eq!(rows(&cfg, 250000), 0);
}
