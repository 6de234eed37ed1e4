//! Algebraic facts about the numbers: what cutting to 40 bits keeps, signs,
//! neutral elements, symmetry under negation and the order of sums.
use crate::scalar::{
    combine, floor_sqrt, less, lemma_quotient, magnitude, pack_spec, reduce, Scalar, EXP_MAX, HI,
    LO,
};
use crate::vec2::Vec2;
use vstd::arithmetic::power2::{lemma2_to64, lemma2_to64_rest, lemma_pow2_pos, lemma_pow2_unfold, pow2};
use vstd::prelude::*;

verus! {

/// Whether a number has the one form in which its value is held: zero as
/// `0 * 2^0`, any other with a mantissa of exactly 40 bits and an exponent in
/// range. Every operation returns such a number.
pub open spec fn canonical(a: Scalar) -> bool {
    (a.m == 0 && a.e == 0) || (LO <= magnitude(a.m as int) < HI && -EXP_MAX <= a.e <= EXP_MAX)
}

/// Whether both components of a vector are canonical.
pub open spec fn canonical2(a: Vec2) -> bool {
    canonical(a.x) && canonical(a.y)
}

/// A reduced mantissa has exactly 40 bits.
pub proof fn lemma_reduce_range(n: int, x: int)
    requires
        n > 0,
    ensures
        LO <= reduce(n, x).0 < HI,
{
    lemma_reduce_meaning(n, x);
}

/// A magnitude of 40 bits or more is only ever halved: the exponent does
/// not fall, and where it stays the mantissa is the magnitude itself.
pub proof fn lemma_reduce_large(n: int, x: int)
    requires
        n >= LO,
    ensures
        reduce(n, x).1 >= x,
        reduce(n, x).1 == x ==> reduce(n, x).0 == n,
    decreases n,
{
    if n >= HI {
        lemma_reduce_large(n / 2, x + 1);
    }
}

/// A magnitude below 2^40 is only ever doubled: the exponent does not rise.
pub proof fn lemma_reduce_small(n: int, x: int)
    requires
        0 < n < HI,
    ensures
        reduce(n, x).1 <= x,
        LO <= reduce(n, x).0 < HI,
    decreases HI - n,
{
    if n < LO {
        lemma_reduce_small(n * 2, x - 1);
    }
}

/// What the cut of a positive `n * 2^x` is: the mantissa `m` and exponent
/// `y` with `m` of exactly 40 bits and `m * 2^y <= n * 2^x < (m + 1) * 2^y`;
/// where `n` has 40 bits or fewer, `m * 2^y` is `n * 2^x` itself.
pub proof fn lemma_reduce_meaning(n: int, x: int)
    requires
        n > 0,
    ensures
        LO <= reduce(n, x).0 < HI,
        reduce(n, x).1 >= x ==> reduce(n, x).0 * pow2((reduce(n, x).1 - x) as nat) <= n < (reduce(
            n,
            x,
        ).0 + 1) * pow2((reduce(n, x).1 - x) as nat),
        reduce(n, x).1 <= x ==> reduce(n, x).0 == n * pow2((x - reduce(n, x).1) as nat),
        n >= LO ==> reduce(n, x).1 >= x,
        n < HI ==> reduce(n, x).1 <= x,
    decreases
            (if n >= HI {
                n
            } else {
                HI - n
            }),
{
    let r = reduce(n, x);
    lemma2_to64();
    if n >= HI {
        lemma_reduce_meaning(n / 2, x + 1);
        lemma_reduce_large(n / 2, x + 1);
        let k = (r.1 - x) as nat;
        lemma_pow2_unfold(k);
        let p = pow2((k - 1) as nat) as int;
        let t = r.0 * p;
        let u = (r.0 + 1) * p;
        assert(r.0 * pow2(k) == 2 * t && (r.0 + 1) * pow2(k) == 2 * u) by (nonlinear_arith)
            requires
                pow2(k) == 2 * p,
                t == r.0 * p,
                u == (r.0 + 1) * p,
        ;
    } else if n < LO {
        lemma_reduce_meaning(n * 2, x - 1);
        lemma_reduce_small(n * 2, x - 1);
        let k = (x - r.1) as nat;
        lemma_pow2_unfold(k);
        let p = pow2((k - 1) as nat) as int;
        assert(n * pow2(k) == (n * 2) * p) by (nonlinear_arith)
            requires
                pow2(k) == 2 * p,
        ;
    } else {
        assert(n * pow2(0) == n && (n + 1) * pow2(0) == n + 1) by (nonlinear_arith)
            requires
                pow2(0) == 1,
        ;
    }
}

/// What cutting keeps when it halves: for a 40-bit `m` with
/// `m * 2^k <= n < (m + 1) * 2^k`, the magnitude `n * 2^x` is cut to `m * 2^(x + k)`.
pub proof fn lemma_reduce_halved(n: int, x: int, k: nat, m: int)
    requires
        LO <= m < HI,
        m * pow2(k) <= n < (m + 1) * pow2(k),
    ensures
        reduce(n, x) == (m, x + k),
    decreases k,
{
    if k == 0 {
        lemma2_to64();
        assert(m * pow2(0) == m && (m + 1) * pow2(0) == m + 1) by (nonlinear_arith)
            requires
                pow2(0) == 1,
        ;
    } else {
        lemma_pow2_unfold(k);
        lemma_pow2_pos((k - 1) as nat);
        let p = pow2((k - 1) as nat) as int;
        let t = m * p;
        let u = (m + 1) * p;
        assert(m * pow2(k) == 2 * t && (m + 1) * pow2(k) == 2 * u && t >= m) by (nonlinear_arith)
            requires
                pow2(k) == 2 * p,
                t == m * p,
                u == (m + 1) * p,
                p >= 1,
                m >= 0,
        ;
        lemma_reduce_halved(n / 2, x + 1, (k - 1) as nat, m);
    }
}

/// What cutting keeps when it doubles: a magnitude `n` with a 40-bit
/// `n * 2^k` is held exactly, as `(n * 2^k) * 2^(x - k)`.
pub proof fn lemma_reduce_doubled(n: int, x: int, k: nat, m: int)
    requires
        n > 0,
        LO <= m < HI,
        m == n * pow2(k),
    ensures
        reduce(n, x) == (m, x - k),
    decreases k,
{
    if k == 0 {
        lemma2_to64();
        assert(n * pow2(0) == n) by (nonlinear_arith)
            requires
                pow2(0) == 1,
        ;
    } else {
        lemma_pow2_unfold(k);
        lemma_pow2_pos((k - 1) as nat);
        let p = pow2((k - 1) as nat) as int;
        assert(n * pow2(k) == (n * 2) * p && n * 2 <= n * pow2(k)) by (nonlinear_arith)
            requires
                pow2(k) == 2 * p,
                p >= 1,
                n > 0,
        ;
        lemma_reduce_doubled(n * 2, x - 1, (k - 1) as nat, m);
    }
}

/// A magnitude of at least `m * 2^k`, for a 40-bit `m`, is cut to no less
/// than `m * 2^(x + k)`.
pub proof fn lemma_reduce_lower(n: int, x: int, k: nat, m: int)
    requires
        LO <= m < HI,
        n >= m * pow2(k),
    ensures
        reduce(n, x).1 > x + k || (reduce(n, x).1 == x + k && reduce(n, x).0 >= m),
    decreases k,
{
    if k == 0 {
        lemma2_to64();
        assert(m * pow2(0) == m) by (nonlinear_arith)
            requires
                pow2(0) == 1,
        ;
        lemma_reduce_large(n, x);
    } else {
        lemma_pow2_unfold(k);
        lemma_pow2_pos((k - 1) as nat);
        let p = pow2((k - 1) as nat) as int;
        let t = m * p;
        assert(m * pow2(k) == 2 * t && t >= m) by (nonlinear_arith)
            requires
                pow2(k) == 2 * p,
                t == m * p,
                p >= 1,
                m >= 0,
        ;
        lemma_reduce_lower(n / 2, x + 1, (k - 1) as nat, m);
    }
}

/// Cutting returns a canonical number of the sign it was given, and zero
/// only for the magnitude zero or below the range of exponents.
pub proof fn lemma_pack(negative: bool, n: int, x: int)
    ensures
        canonical(pack_spec(negative, n, x)),
        negative ==> pack_spec(negative, n, x).m <= 0,
        !negative ==> pack_spec(negative, n, x).m >= 0,
        n <= 0 ==> pack_spec(negative, n, x) == Scalar::zero(),
        n > 0 && reduce(n, x).1 >= -EXP_MAX ==> pack_spec(negative, n, x).m != 0,
        pack_spec(!negative, n, x) == pack_spec(negative, n, x).neg(),
{
    if n > 0 {
        lemma_reduce_range(n, x);
    }
}

/// The value of a cut that halves `k` times.
pub proof fn lemma_pack_halved(negative: bool, n: int, x: int, k: nat, m: int)
    requires
        LO <= m < HI,
        m * pow2(k) <= n < (m + 1) * pow2(k),
        -EXP_MAX <= x + k <= EXP_MAX,
    ensures
        pack_spec(negative, n, x) == (Scalar {
            m: (if negative {
                -m
            } else {
                m
            }) as i64,
            e: (x + k) as i32,
        }),
{
    lemma_reduce_halved(n, x, k, m);
    lemma_pow2_pos(k);
    assert(n > 0) by (nonlinear_arith)
        requires
            m * pow2(k) <= n,
            m > 0,
            pow2(k) > 0,
    ;
}

/// The value of a cut that doubles `k` times.
pub proof fn lemma_pack_doubled(negative: bool, n: int, x: int, k: nat, m: int)
    requires
        n > 0,
        LO <= m < HI,
        m == n * pow2(k),
        -EXP_MAX <= x - k <= EXP_MAX,
    ensures
        pack_spec(negative, n, x) == (Scalar {
            m: (if negative {
                -m
            } else {
                m
            }) as i64,
            e: (x - k) as i32,
        }),
{
    lemma_reduce_doubled(n, x, k, m);
}

/// Every operation returns a canonical number.
pub proof fn lemma_results_canonical(a: Scalar, b: Scalar)
    requires
        canonical(a),
        canonical(b),
    ensures
        canonical(a.add(b)),
        canonical(a.sub(b)),
        canonical(a.neg()),
        canonical(a.mul(b)),
        canonical(a.div(b)),
        canonical(a.sqrt()),
{
    let d = a.e - b.e;
    lemma_pack(a.m * pow2(d as nat) + b.m < 0, magnitude(a.m * pow2(d as nat) + b.m), b.e as int);
    lemma_pack(
        a.m + b.m * pow2((-d) as nat) < 0,
        magnitude(a.m + b.m * pow2((-d) as nat)),
        a.e as int,
    );
    lemma_pack(
        a.m * pow2(d as nat) + (-b.m) < 0,
        magnitude(a.m * pow2(d as nat) + (-b.m)),
        b.e as int,
    );
    lemma_pack(
        a.m + (-b.m) * pow2((-d) as nat) < 0,
        magnitude(a.m + (-b.m) * pow2((-d) as nat)),
        a.e as int,
    );
    lemma_pack(
        (a.m < 0) != (b.m < 0),
        magnitude(a.m as int) * magnitude(b.m as int),
        a.e + b.e,
    );
    lemma_pack(
        (a.m < 0) != (b.m < 0),
        (magnitude(a.m as int) * HI) / magnitude(b.m as int),
        a.e - b.e - 40,
    );
    lemma_pack(false, floor_sqrt(a.m * HI), (a.e - 40) / 2);
    lemma_pack(false, floor_sqrt(a.m * (2 * HI)), (a.e - 41) / 2);
}

/// Products and quotients are canonical whatever their operands.
pub proof fn lemma_product_canonical(a: Scalar, b: Scalar)
    ensures
        canonical(a.mul(b)),
        canonical(a.div(b)),
{
    lemma_pack(
        (a.m < 0) != (b.m < 0),
        magnitude(a.m as int) * magnitude(b.m as int),
        a.e + b.e,
    );
    lemma_pack(
        (a.m < 0) != (b.m < 0),
        (magnitude(a.m as int) * HI) / magnitude(b.m as int),
        a.e - b.e - 40,
    );
}

/// The sign of a product follows from the signs of its factors.
pub proof fn lemma_mul_sign(a: Scalar, b: Scalar)
    ensures
        (a.m >= 0 && b.m >= 0) || (a.m <= 0 && b.m <= 0) ==> a.mul(b).m >= 0,
        (a.m >= 0 && b.m <= 0) || (a.m <= 0 && b.m >= 0) ==> a.mul(b).m <= 0,
        a.m == 0 || b.m == 0 ==> a.mul(b) == Scalar::zero(),
{
    let x = magnitude(a.m as int);
    let y = magnitude(b.m as int);
    lemma_pack((a.m < 0) != (b.m < 0), x * y, a.e + b.e);
    if a.m == 0 || b.m == 0 {
        assert(x * y == 0) by (nonlinear_arith)
            requires
                x == 0 || y == 0,
        ;
    }
}

/// The sign of a quotient follows from the signs of its operands.
pub proof fn lemma_div_sign(a: Scalar, b: Scalar)
    requires
        b.m != 0,
    ensures
        (a.m >= 0 && b.m > 0) || (a.m <= 0 && b.m < 0) ==> a.div(b).m >= 0,
        (a.m >= 0 && b.m < 0) || (a.m <= 0 && b.m > 0) ==> a.div(b).m <= 0,
        a.m == 0 ==> a.div(b) == Scalar::zero(),
{
    let x = magnitude(a.m as int);
    let y = magnitude(b.m as int);
    lemma_pack((a.m < 0) != (b.m < 0), (x * HI) / y, a.e - b.e - 40);
    if a.m == 0 {
        assert((x * HI) / y == 0) by (nonlinear_arith)
            requires
                x == 0,
                y > 0,
        ;
    }
}

/// One is neutral for the product of canonical numbers.
pub proof fn lemma_mul_one(a: Scalar)
    requires
        canonical(a),
    ensures
        a.mul(Scalar::one()) == a,
        Scalar::one().mul(a) == a,
{
    let x = magnitude(a.m as int);
    lemma2_to64();
    lemma2_to64_rest();
    assert(x * LO == LO * x) by (nonlinear_arith);
    if a.m != 0 {
        assert(x * pow2(39) <= x * LO < (x + 1) * pow2(39)) by (nonlinear_arith)
            requires
                pow2(39) == LO,
        ;
        lemma_pack_halved(a.m < 0, x * LO, a.e - 39, 39, x);
    } else {
        lemma_mul_sign(a, Scalar::one());
        lemma_mul_sign(Scalar::one(), a);
    }
}

/// A number other than zero divided by itself is one.
pub proof fn lemma_div_self(a: Scalar)
    requires
        a.m != 0,
    ensures
        a.div(a) == Scalar::one(),
{
    let x = magnitude(a.m as int);
    assert(x * HI == HI * x) by (nonlinear_arith);
    lemma_quotient(x * HI, x, HI as int);
    lemma2_to64();
    lemma_pack_halved(false, HI as int, -40, 1, LO as int);
}

/// Negating a factor negates the product.
pub proof fn lemma_mul_neg(a: Scalar, b: Scalar)
    requires
        canonical(a),
        canonical(b),
    ensures
        a.neg().mul(b) == a.mul(b).neg(),
        a.mul(b.neg()) == a.mul(b).neg(),
        a.neg().mul(b.neg()) == a.mul(b),
        a.mul(b) == b.mul(a),
{
    let x = magnitude(a.m as int);
    let y = magnitude(b.m as int);
    assert(x * y == y * x) by (nonlinear_arith);
    lemma_pack((a.m < 0) != (b.m < 0), x * y, a.e + b.e);
    lemma_pack(!((a.m < 0) != (b.m < 0)), x * y, a.e + b.e);
    if a.m == 0 || b.m == 0 {
        lemma_mul_sign(a, b);
        lemma_mul_sign(a.neg(), b);
        lemma_mul_sign(a, b.neg());
        lemma_mul_sign(a.neg(), b.neg());
        lemma_mul_sign(b, a);
    }
}

/// Negating the dividend negates the quotient.
pub proof fn lemma_div_neg(a: Scalar, b: Scalar)
    requires
        canonical(a),
        b.m != 0,
    ensures
        a.neg().div(b) == a.div(b).neg(),
{
    let x = magnitude(a.m as int);
    let y = magnitude(b.m as int);
    lemma_pack((a.m < 0) != (b.m < 0), (x * HI) / y, a.e - b.e - 40);
    lemma_pack(!((a.m < 0) != (b.m < 0)), (x * HI) / y, a.e - b.e - 40);
    if a.m == 0 {
        lemma_div_sign(a, b);
        lemma_div_sign(a.neg(), b);
    }
}

/// The sum of the opposites is the opposite of the sum.
pub proof fn lemma_combine_odd(am: int, ae: int, bm: int, be: int)
    requires
        -i64::MAX <= am <= i64::MAX,
        -i64::MAX <= bm <= i64::MAX,
    ensures
        combine(-am, ae, -bm, be) == combine(am, ae, bm, be).neg(),
{
    let d = ae - be;
    let s = am * pow2(d as nat) + bm;
    let t = am + bm * pow2((-d) as nat);
    assert((-am) * pow2(d as nat) + (-bm) == -s) by (nonlinear_arith)
        requires
            s == am * pow2(d as nat) + bm,
    ;
    assert((-am) + (-bm) * pow2((-d) as nat) == -t) by (nonlinear_arith)
        requires
            t == am + bm * pow2((-d) as nat),
    ;
    lemma_pack(s < 0, magnitude(s), be);
    lemma_pack(t < 0, magnitude(t), ae);
    lemma_pack(-s < 0, magnitude(s), be);
    lemma_pack(-t < 0, magnitude(t), ae);
}

/// A sum does not depend on the order of its terms.
pub proof fn lemma_combine_commutes(am: int, ae: int, bm: int, be: int)
    requires
        am != 0 || bm != 0 || ae == be,
    ensures
        combine(am, ae, bm, be) == combine(bm, be, am, ae),
{
    lemma2_to64();
    if ae == be {
        assert(am * pow2(0) == am && bm * pow2(0) == bm) by (nonlinear_arith)
            requires
                pow2(0) == 1,
        ;
    }
}

/// The difference changes its sign when its operands change places, and the
/// sum does not depend on their order.
pub proof fn lemma_sub_swap(a: Scalar, b: Scalar)
    requires
        canonical(a),
        canonical(b),
    ensures
        b.sub(a) == a.sub(b).neg(),
        a.add(b) == b.add(a),
{
    lemma_combine_commutes(a.m as int, a.e as int, b.m as int, b.e as int);
    lemma_combine_odd(a.m as int, a.e as int, -b.m, b.e as int);
    lemma_combine_commutes(-a.m, a.e as int, b.m as int, b.e as int);
}

/// A number minus itself is zero, and zero added to a number leaves it as it is.
pub proof fn lemma_sub_self(a: Scalar)
    requires
        canonical(a),
    ensures
        a.sub(a) == Scalar::zero(),
        a.add(Scalar::zero()) == a,
        Scalar::zero().add(a) == a,
        a.sub(Scalar::zero()) == a,
{
    lemma2_to64();
    assert(a.m * pow2(0) == a.m) by (nonlinear_arith)
        requires
            pow2(0) == 1,
    ;
}

/// The sum of two canonical numbers that are not negative is not negative
/// and not less than either of them.
pub proof fn lemma_add_grows(a: Scalar, b: Scalar)
    requires
        canonical(a),
        canonical(b),
        a.m >= 0,
        b.m >= 0,
    ensures
        canonical(a.add(b)),
        a.add(b).m >= 0,
        !less(a.add(b), a),
        !less(a.add(b), b),
{
    if a.m != 0 && b.m != 0 && a.e - b.e <= 62 && b.e - a.e <= 62 {
        if a.e >= b.e {
            lemma_sum_grows(a.m as int, a.e as int, b.m as int, b.e as int);
        } else {
            lemma_combine_commutes(a.m as int, a.e as int, b.m as int, b.e as int);
            lemma_sum_grows(b.m as int, b.e as int, a.m as int, a.e as int);
        }
    }
}

/// The aligned sum of two positive canonical numbers is at least the one
/// with the larger exponent, and so at least both.
proof fn lemma_sum_grows(am: int, ae: int, bm: int, be: int)
    requires
        LO <= am < HI,
        LO <= bm < HI,
        -EXP_MAX <= be <= ae <= EXP_MAX,
        ae - be <= 62,
    ensures
        canonical(combine(am, ae, bm, be)),
        combine(am, ae, bm, be).m > 0,
        combine(am, ae, bm, be).e > ae || (combine(am, ae, bm, be).e == ae && combine(
            am,
            ae,
            bm,
            be,
        ).m >= am),
        combine(am, ae, bm, be).e > be || (combine(am, ae, bm, be).e == be && combine(
            am,
            ae,
            bm,
            be,
        ).m >= bm),
{
    let k = (ae - be) as nat;
    let s = am * pow2(k) + bm;
    lemma_pow2_pos(k);
    assert(s >= am * pow2(k) && s > 0) by (nonlinear_arith)
        requires
            s == am * pow2(k) + bm,
            bm > 0,
            am > 0,
            pow2(k) > 0,
    ;
    lemma_reduce_lower(s, be, k, am);
    lemma_pack(false, s, be);
    lemma_reduce_range(s, be);
    let r = reduce(s, be);
    let c = combine(am, ae, bm, be);
    assert(c == pack_spec(false, s, be));
    assert(r.1 >= ae);
    if ae == be {
        lemma2_to64();
        assert(s == am + bm) by (nonlinear_arith)
            requires
                s == am * pow2(k) + bm,
                pow2(k) == 1,
        ;
        assert(r == reduce(s / 2, be + 1));
        lemma_reduce_large(s / 2, be + 1);
        assert(r.1 > be);
    }
    if r.1 > EXP_MAX {
        assert(c.m == HI - 1 && c.e == EXP_MAX);
    } else {
        assert(c.m == r.0 && c.e == r.1);
    }
}

/// The value of a whole number: `n` is held exactly, as `(n * 2^k) * 2^-k`
/// for the `k` that makes `n * 2^k` a 40-bit mantissa.
pub proof fn lemma_from_int_value(n: i32, k: nat, m: int)
    requires
        n > 0,
        LO <= m < HI,
        m == n * pow2(k),
        k <= 39,
    ensures
        Scalar::from_int(n) == (Scalar { m: m as i64, e: (-(k as int)) as i32 }),
{
    lemma_pack_doubled(false, n as int, 0, k, m);
}

/// The value of a product of positive numbers, from their mantissas and
/// exponents: the 40-bit `m` with `m * 2^k <= am * bm < (m + 1) * 2^k`, at the
/// exponent `ae + be + k`.
pub proof fn lemma_mul_value(am: int, ae: int, bm: int, be: int, k: nat, m: int)
    requires
        0 < am <= i64::MAX,
        0 < bm <= i64::MAX,
        i32::MIN <= ae <= i32::MAX,
        i32::MIN <= be <= i32::MAX,
        LO <= m < HI,
        m * pow2(k) <= am * bm < (m + 1) * pow2(k),
        -EXP_MAX <= ae + be + k <= EXP_MAX,
    ensures
        (Scalar { m: am as i64, e: ae as i32 }).mul(Scalar { m: bm as i64, e: be as i32 }) == (Scalar {
            m: m as i64,
            e: (ae + be + k) as i32,
        }),
{
    lemma_pack_halved(false, am * bm, ae + be, k, m);
}

/// The value of a quotient of positive numbers, from their mantissas and
/// exponents: with `q` the whole quotient of `am * 2^40` by `bm`, the 40-bit
/// `m` with `m * 2^k <= q < (m + 1) * 2^k`, at the exponent `ae - be - 40 + k`.
pub proof fn lemma_div_value(am: int, ae: int, bm: int, be: int, q: int, k: nat, m: int)
    requires
        0 < am <= i64::MAX,
        0 < bm <= i64::MAX,
        i32::MIN <= ae <= i32::MAX,
        i32::MIN <= be <= i32::MAX,
        q * bm <= am * HI < (q + 1) * bm,
        LO <= m < HI,
        m * pow2(k) <= q < (m + 1) * pow2(k),
        -EXP_MAX <= ae - be - 40 + k <= EXP_MAX,
    ensures
        (Scalar { m: am as i64, e: ae as i32 }).div(Scalar { m: bm as i64, e: be as i32 }) == (Scalar {
            m: m as i64,
            e: (ae - be - 40 + k) as i32,
        }),
{
    lemma_quotient(am * HI, bm, q);
    lemma_pack_halved(false, q, ae - be - 40, k, m);
}

/// The exact sum of `am * 2^ae` and `bm * 2^be` in units of two to the
/// smaller of the exponents.
pub open spec fn aligned_sum(am: int, ae: int, bm: int, be: int) -> int {
    if ae >= be {
        am * pow2((ae - be) as nat) + bm
    } else {
        am + bm * pow2((be - ae) as nat)
    }
}

/// The smaller of two exponents.
pub open spec fn lower(ae: int, be: int) -> int {
    if ae >= be {
        be
    } else {
        ae
    }
}

/// The value of a sum or difference, from the mantissas and exponents of
/// its terms. With `s` the exact sum, where it has 40 bits or more the result
/// is the 40-bit `m` with `m * 2^up <= |s| < (m + 1) * 2^up`, at the smaller
/// exponent plus `up`; where it has fewer, the result is `m = |s| * 2^down`,
/// at the smaller exponent minus `down`, and the sum is exact. The result has
/// the sign of `s`.
pub proof fn lemma_sum_value(
    am: int,
    ae: int,
    bm: int,
    be: int,
    s: int,
    up: nat,
    down: nat,
    m: int,
)
    requires
        am != 0,
        bm != 0,
        -62 <= ae - be <= 62,
        s == aligned_sum(am, ae, bm, be),
        s != 0,
        LO <= m < HI,
        up == 0 || down == 0,
        m * pow2(up) <= magnitude(s) * pow2(down) < (m + 1) * pow2(up),
        -EXP_MAX <= lower(ae, be) + up - down <= EXP_MAX,
    ensures
        combine(am, ae, bm, be) == Scalar::of(
            if s < 0 {
                -m
            } else {
                m
            },
            lower(ae, be) + up - down,
        ),
{
    lemma2_to64();
    let n = magnitude(s);
    if down == 0 {
        assert(n * pow2(0) == n) by (nonlinear_arith)
            requires
                pow2(0) == 1,
        ;
        lemma_pack_halved(s < 0, n, lower(ae, be), up, m);
    } else {
        assert(m * pow2(0) == m && (m + 1) * pow2(0) == m + 1) by (nonlinear_arith)
            requires
                pow2(0) == 1,
        ;
        lemma_pack_doubled(s < 0, n, lower(ae, be), down, m);
    }
}

/// The number scaled by `2^d`: the same mantissa with the exponent raised
/// by `d`; zero stays zero.
pub open spec fn scaled(a: Scalar, d: int) -> Scalar {
    if a.m == 0 {
        a
    } else {
        Scalar { m: a.m, e: (a.e + d) as i32 }
    }
}

/// Whether a number lies inside the range of exponents, so that neither it
/// nor its half is a result replaced at the ends of the range.
pub open spec fn interior(a: Scalar) -> bool {
    a.m == 0 || -EXP_MAX < a.e < EXP_MAX
}

/// Cutting commutes with a change of the exponent.
pub proof fn lemma_reduce_shift(n: int, x: int, d: int)
    requires
        n > 0,
    ensures
        reduce(n, x + d) == (reduce(n, x).0, reduce(n, x).1 + d),
    decreases
            (if n >= HI {
                n
            } else {
                HI - n
            }),
{
    if n >= HI {
        lemma_reduce_shift(n / 2, x + 1, d);
    } else if n < LO {
        lemma_reduce_shift(n * 2, x - 1, d);
    }
}

/// Halving before the cut is halving after it, inside the range of exponents.
pub proof fn lemma_pack_halving(negative: bool, n: int, x: int)
    requires
        interior(pack_spec(negative, n, x)),
    ensures
        pack_spec(negative, n, x - 1) == scaled(pack_spec(negative, n, x), -1),
{
    if n > 0 {
        lemma_reduce_shift(n, x, -1);
        lemma_reduce_range(n, x);
    }
}

/// Twice a canonical number below the top of the range is the number with
/// its exponent raised by one.
pub proof fn lemma_double(a: Scalar)
    requires
        canonical(a),
        a.e < EXP_MAX,
    ensures
        a.double() == scaled(a, 1),
{
    if a.m != 0 {
        lemma2_to64();
        let x = magnitude(a.m as int);
        assert(a.m * pow2(0) + a.m == 2 * a.m) by (nonlinear_arith)
            requires
                pow2(0) == 1,
        ;
        assert(x * pow2(1) <= 2 * x < (x + 1) * pow2(1)) by (nonlinear_arith)
            requires
                pow2(1) == 2,
        ;
        lemma_pack_halved(a.m < 0, 2 * x, a.e as int, 1, x);
    }
}

/// Dividing by twice a number gives half the quotient, exactly.
pub proof fn lemma_div_by_double(a: Scalar, b: Scalar)
    requires
        canonical(b),
        b.m != 0,
        b.e < EXP_MAX,
        interior(a.div(b)),
    ensures
        a.div(scaled(b, 1)) == scaled(a.div(b), -1),
{
    lemma_pack_halving(
        (a.m < 0) != (b.m < 0),
        (magnitude(a.m as int) * HI) / magnitude(b.m as int),
        a.e - b.e - 40,
    );
}

/// Multiplying by half a number gives half the product, exactly.
pub proof fn lemma_mul_by_half(a: Scalar, b: Scalar)
    requires
        canonical(b),
        interior(b),
        interior(a.mul(b)),
    ensures
        a.mul(scaled(b, -1)) == scaled(a.mul(b), -1),
{
    if b.m != 0 {
        lemma_pack_halving(
            (a.m < 0) != (b.m < 0),
            magnitude(a.m as int) * magnitude(b.m as int),
            a.e + b.e,
        );
    } else {
        lemma_mul_sign(a, b);
    }
}

} // verus!
