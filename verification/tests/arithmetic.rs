use sph_sim::scalar::{integer_sqrt, two_to, Scalar, EXP_MAX, HI, LO, PI_MANTISSA};
use sph_sim::vec2::Vec2;

fn fx(n: i32) -> Scalar {
    Scalar::from_int(n)
}

fn sc(m: i64, e: i32) -> Scalar {
    Scalar::from_parts(m, e)
}

fn val(s: Scalar) -> f64 {
    s.mantissa() as f64 * 2f64.powi(s.exponent())
}

#[test]
fn whole_numbers_are_exact() {
    assert_eq!(LO, 1 << 39);
    assert_eq!(HI, 1 << 40);
    assert_eq!(fx(0), sc(0, 0));
    assert_eq!(fx(1), Scalar::one());
    assert_eq!(fx(1), sc(549755813888, -39));
    assert_eq!(fx(-1), sc(-549755813888, -39));
    assert_eq!(fx(3), sc(824633720832, -38));
    assert_eq!(fx(16), sc(549755813888, -35));
    assert_eq!(fx(-10), sc(-687194767360, -36));
    assert_eq!(fx(1000), sc(1073741824000, -30));
    assert_eq!(fx(i32::MAX), sc(1099511627264, -9));
    assert_eq!(fx(i32::MIN), sc(-549755813888, -8));
    assert_eq!(Scalar::from_count(1000), fx(1000));
    assert_eq!(Scalar::from_count(0), fx(0));
    assert_eq!(Scalar::from_count(u64::MAX), sc(HI - 1, 24));
    assert_eq!(Scalar::from_ratio_of_two(1, 1), sc(LO, -40));
    assert_eq!(Scalar::zero(), sc(0, 0));
    assert_eq!(Scalar::pi(), sc(PI_MANTISSA, -38));
    assert_eq!(PI_MANTISSA, 863554413089);
    assert_eq!(val(fx(1000)), 1000.0);
    assert_eq!(val(fx(-7)), -7.0);
    assert!((val(Scalar::pi()) - std::f64::consts::PI).abs() < 1e-11);
    assert_eq!(fx(5).mantissa(), 687194767360);
    assert_eq!(fx(5).exponent(), -37);
}

#[test]
fn sums_and_differences_are_exact_within_40_bits() {
    assert_eq!(fx(3).add(fx(4)), fx(7));
    assert_eq!(fx(3).sub(fx(4)), fx(-1));
    assert_eq!(fx(1000).sub(fx(16)), fx(984));
    assert_eq!(fx(3).neg(), fx(-3));
    assert_eq!(fx(3).double(), fx(6));
    assert_eq!(fx(3).sub(fx(3)), fx(0));
    assert_eq!(fx(0).add(fx(5)), fx(5));
    assert_eq!(fx(5).add(fx(0)), fx(5));
    assert_eq!(fx(0).sub(fx(5)), fx(-5));
    assert_eq!(fx(1).sub(sc(LO, -80)), sc(1099511627775, -40));
    assert_eq!(fx(1).sub(fx(1).div(fx(3))), sc(733007751851, -40));
}

#[test]
fn sums_are_cut_toward_zero() {
    assert_eq!(sc(HI - 1, 0).add(sc(HI - 1, -1)), sc(824633720831, 1));
    assert_eq!(sc(1 - HI, 0).add(sc(1 - HI, -1)), sc(-824633720831, 1));
    // a term more than 2^62 times smaller is left out
    assert_eq!(sc(LO, 0).add(sc(LO, -62)), sc(LO, 0));
    assert_eq!(sc(LO, 0).add(sc(LO, -63)), sc(LO, 0));
    assert_eq!(fx(1).add(sc(LO, -120)), fx(1));
    assert_eq!(fx(1).sub(sc(LO, -100)), sc(1099511627775, -40));
    assert_eq!(fx(1).sub(sc(LO, -110)), fx(1));
}

#[test]
fn scaling_by_a_power_of_two_is_exact() {
    let third = fx(1).div(fx(3));
    assert_eq!(third.double(), sc(third.mantissa(), third.exponent() + 1));
    assert_eq!(third.mul(fx(2)), sc(third.mantissa(), third.exponent() + 1));
    assert_eq!(third.div(fx(2)), sc(third.mantissa(), third.exponent() - 1));
    assert_eq!(third.mul(fx(-1024)), sc(-third.mantissa(), third.exponent() + 10));
    assert_eq!(fx(7).div(fx(2)).mul(fx(-2)), fx(-7));
    assert_eq!(fx(1).div(third.double()), fx(1).div(third).div(fx(2)));
    let x = sc(814873 << 20, -44);
    assert_eq!(x.div(fx(2)).mul(fx(-2)), x.neg());
}

#[test]
fn products_are_cut_toward_zero() {
    assert_eq!(fx(3).mul(fx(4)), fx(12));
    assert_eq!(fx(-2).mul(fx(-1).div(fx(2))), fx(1));
    assert_eq!(fx(-3).mul(fx(4)), fx(-12));
    assert_eq!(sc(HI - 1, 0).mul(sc(HI - 1, 0)), sc(1099511627774, 40));
    assert_eq!(sc(1 - HI, 0).mul(sc(HI - 1, 0)), sc(-1099511627774, 40));
    assert_eq!(fx(1).div(fx(3)).mul(fx(3)), sc(1099511627775, -40));
    assert_eq!(fx(0).mul(fx(5)), fx(0));
}

#[test]
fn products_saturate_and_vanish_at_the_ends_of_the_range() {
    let big = sc(HI - 1, EXP_MAX);
    let tiny = sc(LO, -EXP_MAX);
    assert_eq!(big.mul(fx(2)), big);
    assert_eq!(big.mul(fx(-2)), big.neg());
    assert_eq!(big.add(big), big);
    assert_eq!(tiny.mul(tiny), fx(0));
    assert_eq!(fx(1).div(tiny), sc(LO, 999922));
    assert_eq!(fx(-25).div(tiny), sc(-858993459200, 999926));
    assert_eq!(big.div(tiny), big);
    assert_eq!(sc(i64::MIN, i32::MAX).mul(sc(i64::MIN, i32::MAX)), big);
    assert_eq!(sc(i64::MIN, i32::MIN).mul(sc(i64::MIN, i32::MIN)), fx(0));
    assert_eq!(sc(i64::MIN, 0).neg(), sc(i64::MAX, 0));
}

#[test]
fn quotients_are_cut_toward_zero() {
    assert_eq!(fx(12).div(fx(4)), fx(3));
    assert_eq!(fx(1).div(fx(3)), sc(733007751850, -41));
    assert_eq!(fx(-1).div(fx(3)), sc(-733007751850, -41));
    assert_eq!(fx(7).div(fx(-2)), sc(-962072674304, -38));
    assert_eq!(fx(5).div(fx(2)), sc(687194767360, -38));
    assert_eq!(fx(7).div(fx(10000)), sc(788129934789, -50));
    assert_eq!(fx(0).div(fx(3)), fx(0));
    assert_eq!(fx(3).div(fx(3)), fx(1));
    assert!((val(fx(7).div(fx(10000))) - 0.0007).abs() < 1e-15);
}

#[test]
fn square_roots_are_cut_toward_zero() {
    assert_eq!(fx(4).sqrt(), fx(2));
    assert_eq!(fx(49).sqrt(), fx(7));
    assert_eq!(fx(2).sqrt(), sc(777472127993, -39));
    assert_eq!(fx(3).sqrt(), sc(952205001410, -39));
    assert_eq!(fx(1).div(fx(4)).sqrt(), fx(1).div(fx(2)));
    assert_eq!(fx(0).sqrt(), fx(0));
    assert_eq!(fx(-4).sqrt(), fx(0));
    assert_eq!(sc(HI - 1, EXP_MAX).sqrt(), sc(1099511627775, 499980));
    assert_eq!(sc(LO, -EXP_MAX).sqrt(), sc(777472127993, -500020));
    assert_eq!(sc(LO, 1 - EXP_MAX).sqrt(), sc(549755813888, -500019));
    assert!((val(fx(2).sqrt()) - 2f64.sqrt()).abs() < 1e-11);
}

#[test]
fn integer_square_root_is_the_floor() {
    assert_eq!(integer_sqrt(0), 0);
    assert_eq!(integer_sqrt(1), 1);
    assert_eq!(integer_sqrt(3), 1);
    assert_eq!(integer_sqrt(4), 2);
    assert_eq!(integer_sqrt(99), 9);
    assert_eq!(integer_sqrt(100), 10);
    assert_eq!(integer_sqrt((1u128 << 88) - 1), (1u128 << 44) - 1);
    assert_eq!(integer_sqrt(1u128 << 126), 1u128 << 63);
    let n: u128 = 123456789012345678901234;
    let r = integer_sqrt(n);
    assert!(r * r <= n && n < (r + 1) * (r + 1));
}

#[test]
fn powers_of_two() {
    assert_eq!(two_to(0), 1);
    assert_eq!(two_to(1), 2);
    assert_eq!(two_to(10), 1024);
    assert_eq!(two_to(62), 1u128 << 62);
}

#[test]
fn comparisons_follow_the_values() {
    assert!(fx(1).lt(fx(2)));
    assert!(!fx(2).lt(fx(2)));
    assert!(fx(2).le(fx(2)));
    assert!(fx(3).gt(fx(2)));
    assert!(!fx(-3).gt(fx(2)));
    assert!(fx(-3).lt(fx(-2)));
    assert!(!fx(-2).lt(fx(-3)));
    assert!(fx(-3).lt(fx(0)));
    assert!(fx(0).lt(fx(1).div(fx(1000))));
    assert!(!fx(0).lt(fx(0)));
    assert!(fx(1000).gt(fx(16)));
    assert!(fx(1).div(fx(3)).lt(fx(1).div(fx(2))));
    assert!(fx(16).sub(sc(LO, -80)).lt(fx(16)));
    assert!(fx(0).is_zero());
    assert!(!fx(1).is_zero());
}

#[test]
fn floor_replaces_what_is_not_positive() {
    let tiny = sc(LO, -EXP_MAX);
    assert_eq!(fx(0).floored(), tiny);
    assert_eq!(fx(-5).floored(), tiny);
    assert_eq!(tiny.floored(), tiny);
    assert_eq!(fx(2).floored(), fx(2));
}

#[test]
fn vectors_work_by_component() {
    let a = Vec2::new(fx(3), fx(-4));
    let b = Vec2::new(fx(1), fx(2));
    assert_eq!(a.add(b), Vec2::new(fx(4), fx(-2)));
    assert_eq!(a.sub(b), Vec2::new(fx(2), fx(-6)));
    assert_eq!(a.neg(), Vec2::new(fx(-3), fx(4)));
    assert_eq!(a.scale(fx(2)), Vec2::new(fx(6), fx(-8)));
    assert_eq!(a.div(fx(2)), Vec2::new(sc(824633720832, -39), fx(-2)));
    assert_eq!(a.dot(b), fx(-5));
    assert_eq!(a.length(), fx(5));
    assert_eq!(Vec2::zero(), Vec2::new(fx(0), fx(0)));
}

#[test]
fn normalizing_divides_by_the_length() {
    let a = Vec2::new(fx(3), fx(-4));
    assert_eq!(a.normalize(), Vec2::new(fx(3).div(fx(5)), fx(-4).div(fx(5))));
    assert_eq!(a.normalize().x, sc(659706976665, -40));
    assert_eq!(a.normalize().y, sc(-879609302220, -40));
    assert_eq!(Vec2::new(fx(0), fx(7)).normalize(), Vec2::new(fx(0), fx(1)));
}

#[test]
fn normalizing_the_zero_vector_gives_the_zero_vector() {
    assert_eq!(Vec2::zero().normalize(), Vec2::zero());
    assert_eq!(Vec2::zero().length(), fx(0));
}
