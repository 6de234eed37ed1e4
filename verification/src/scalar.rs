//! Numbers with a 40-bit mantissa and a binary exponent.
//!
//! A number is `m * 2^e` for integers `m` and `e`. Of a number other than
//! zero the magnitude of `m` lies from 2^39 up to, not including, 2^40, so
//! that every value has one form and equal values are equal structures; zero
//! is `0 * 2^0`. Sums, differences, products, quotients and square roots are
//! computed exactly in wider integers and then cut to 40 significant bits,
//! toward zero. Scaling by a power of two changes the exponent alone and is
//! exact; so is every sum, product or quotient whose exact value has 40
//! significant bits or fewer.
use vstd::arithmetic::power2::{
    lemma2_to64, lemma2_to64_rest, lemma_pow2_strictly_increases, lemma_pow2_unfold, pow2,
};
use vstd::prelude::*;

verus! {

/// Number of significant bits.
pub const MANTISSA_BITS: i32 = 40;

/// Smallest magnitude of the mantissa of a number other than zero: 2^39.
pub const LO: i64 = 549755813888;

/// Bound of the magnitude of a mantissa: 2^40.
pub const HI: i64 = 1099511627776;

/// Largest magnitude of an exponent. A result beyond it is replaced by the
/// largest number of its sign, a result below the range by zero.
pub const EXP_MAX: i32 = 1000000;

/// Largest gap between the exponents of two numbers that a sum takes into
/// account: a term more than 2^62 times smaller than the other is left out.
pub const ALIGN_MAX: i32 = 62;

/// The mantissa of the circle constant: pi * 2^38, rounded down.
pub const PI_MANTISSA: i64 = 863554413089;

/// The number `m * 2^e`.
#[derive(Clone, Copy, Debug, PartialEq, Eq, Structural)]
pub struct Scalar {
    /// Mantissa.
    pub m: i64,
    /// Exponent.
    pub e: i32,
}

/// Absolute value of an integer.
pub open spec fn magnitude(x: int) -> int {
    if x < 0 {
        -x
    } else {
        x
    }
}

/// `m` or its negation.
pub open spec fn with_sign(negative: bool, m: int) -> int {
    if negative {
        -m
    } else {
        m
    }
}

/// The integer nearest to `x` that a mantissa can hold.
pub open spec fn clamp(x: int) -> i64 {
    if x > i64::MAX {
        i64::MAX
    } else if x < i64::MIN {
        i64::MIN
    } else {
        x as i64
    }
}

/// Mantissa and exponent of a positive `n * 2^x` cut to 40 significant
/// bits: `n` is halved, rounding down, while it is 2^40 or more, or doubled
/// while it is below 2^39, and the exponent follows.
pub open spec fn reduce(n: int, x: int) -> (int, int)
    decreases
            (if n >= HI {
                n
            } else {
                HI - n
            }),
{
    if n <= 0 {
        (0, 0)
    } else if n >= HI {
        reduce(n / 2, x + 1)
    } else if n < LO {
        reduce(n * 2, x - 1)
    } else {
        (n, x)
    }
}

/// The number of the given sign and of magnitude `n * 2^x`, cut to 40
/// significant bits toward zero.
pub open spec fn pack_spec(negative: bool, n: int, x: int) -> Scalar {
    if n <= 0 {
        Scalar { m: 0, e: 0 }
    } else if reduce(n, x).1 > EXP_MAX {
        Scalar { m: with_sign(negative, HI - 1) as i64, e: EXP_MAX }
    } else if reduce(n, x).1 < -EXP_MAX {
        Scalar { m: 0, e: 0 }
    } else {
        Scalar { m: with_sign(negative, reduce(n, x).0) as i64, e: reduce(n, x).1 as i32 }
    }
}

/// The number `s * 2^x`, cut to 40 significant bits toward zero.
pub open spec fn pack_signed(s: int, x: int) -> Scalar {
    pack_spec(s < 0, magnitude(s), x)
}

/// The sum of `am * 2^ae` and `bm * 2^be`. Zero added to a number leaves
/// it as it is; of two terms whose exponents lie more than `ALIGN_MAX` apart
/// the smaller is left out; any other sum is exact before it is cut.
pub open spec fn combine(am: int, ae: int, bm: int, be: int) -> Scalar {
    if am == 0 {
        Scalar { m: clamp(bm), e: be as i32 }
    } else if bm == 0 {
        Scalar { m: clamp(am), e: ae as i32 }
    } else if ae - be > ALIGN_MAX {
        Scalar { m: clamp(am), e: ae as i32 }
    } else if be - ae > ALIGN_MAX {
        Scalar { m: clamp(bm), e: be as i32 }
    } else if ae >= be {
        pack_signed(am * pow2((ae - be) as nat) + bm, be)
    } else {
        pack_signed(am + bm * pow2((be - ae) as nat), ae)
    }
}

/// Whether `a` has the smaller magnitude, of two numbers other than zero.
pub open spec fn magnitude_less(a: Scalar, b: Scalar) -> bool {
    a.e < b.e || (a.e == b.e && magnitude(a.m as int) < magnitude(b.m as int))
}

/// Whether `a` is less than `b`.
pub open spec fn less(a: Scalar, b: Scalar) -> bool {
    if a.m < 0 {
        if b.m < 0 {
            magnitude_less(b, a)
        } else {
            true
        }
    } else if a.m == 0 {
        b.m > 0
    } else {
        b.m > 0 && magnitude_less(a, b)
    }
}

/// Whether `r` is the integer square root of `n`: the largest integer whose
/// square does not exceed `n`.
pub open spec fn is_floor_sqrt(n: int, r: int) -> bool {
    0 <= r && r * r <= n && n < (r + 1) * (r + 1)
}

/// The integer square root of `n` (of a non-negative `n`).
pub open spec fn floor_sqrt(n: int) -> int {
    choose|r: int| is_floor_sqrt(n, r)
}

/// At most one integer is the integer square root of `n`.
pub proof fn lemma_floor_sqrt_unique(n: int, r1: int, r2: int)
    requires
        is_floor_sqrt(n, r1),
        is_floor_sqrt(n, r2),
    ensures
        r1 == r2,
{
    if r1 < r2 {
        assert((r1 + 1) * (r1 + 1) <= r2 * r2) by (nonlinear_arith)
            requires
                0 <= r1,
                r1 + 1 <= r2,
        ;
    } else if r2 < r1 {
        assert((r2 + 1) * (r2 + 1) <= r1 * r1) by (nonlinear_arith)
            requires
                0 <= r2,
                r2 + 1 <= r1,
        ;
    }
}

/// Every non-negative integer has an integer square root, and `floor_sqrt` is it.
pub proof fn lemma_floor_sqrt(n: int)
    requires
        n >= 0,
    ensures
        is_floor_sqrt(n, floor_sqrt(n)),
    decreases n,
{
    if n == 0 {
        assert(is_floor_sqrt(0, 0));
    } else {
        lemma_floor_sqrt(n - 1);
        let r = floor_sqrt(n - 1);
        if (r + 1) * (r + 1) <= n {
            assert(n < (r + 2) * (r + 2)) by (nonlinear_arith)
                requires
                    0 <= r,
                    n - 1 < (r + 1) * (r + 1),
            ;
            assert(is_floor_sqrt(n, r + 1));
        } else {
            assert(is_floor_sqrt(n, r));
        }
    }
}

/// The integer square root of `n`, found by bisection.
pub fn integer_sqrt(n: u128) -> (r: u128)
    requires
        n <= 0x4000_0000_0000_0000_0000_0000_0000_0000,
    ensures
        is_floor_sqrt(n as int, r as int),
        r as int == floor_sqrt(n as int),
        r <= 0x8000_0000_0000_0000,
{
    let mut lo: u128 = 0;
    let mut hi: u128 = 0x8000_0000_0000_0001;
    assert(hi * hi > 0x4000_0000_0000_0000_0000_0000_0000_0000) by (nonlinear_arith)
        requires
            hi == 0x8000_0000_0000_0001,
    ;
    assert(lo * lo == 0) by (nonlinear_arith)
        requires
            lo == 0,
    ;
    while hi - lo > 1
        invariant
            lo < hi <= 0x8000_0000_0000_0001,
            lo * lo <= n,
            n < hi * hi,
        decreases hi - lo,
    {
        let mid: u128 = lo + (hi - lo) / 2;
        assert(mid * mid <= 0x8000_0000_0000_0000 * 0x8000_0000_0000_0000) by (nonlinear_arith)
            requires
                mid <= 0x8000_0000_0000_0000,
        ;
        if mid * mid <= n {
            lo = mid;
        } else {
            hi = mid;
        }
    }
    proof {
        assert(hi == lo + 1);
        assert(is_floor_sqrt(n as int, lo as int));
        lemma_floor_sqrt_unique(n as int, lo as int, floor_sqrt(n as int));
    }
    lo
}

/// The quotient of `x` by a positive `d` is the `q` with `q * d <= x < (q + 1) * d`.
pub proof fn lemma_quotient(x: int, d: int, q: int)
    requires
        d > 0,
        q * d <= x < (q + 1) * d,
    ensures
        x / d == q,
{
    assert((q + 1) * d == q * d + d) by (nonlinear_arith);
    vstd::arithmetic::div_mod::lemma_fundamental_div_mod_converse(x, d, q, x - q * d);
}


/// 2^d.
pub fn two_to(d: u32) -> (p: u128)
    requires
        d <= 62,
    ensures
        p == pow2(d as nat),
        p <= 0x4000_0000_0000_0000,
{
    let mut p: u128 = 1;
    let mut i: u32 = 0;
    proof {
        lemma2_to64();
        lemma2_to64_rest();
    }
    while i < d
        invariant
            i <= d <= 62,
            p == pow2(i as nat),
            p <= pow2(62),
            pow2(62) == 0x4000_0000_0000_0000,
        decreases d - i,
    {
        proof {
            lemma_pow2_unfold((i + 1) as nat);
            if i + 1 < 62 {
                lemma_pow2_strictly_increases((i + 1) as nat, 62);
            }
        }
        p = p * 2;
        i = i + 1;
    }
    p
}

impl Scalar {
    /// The number with the given mantissa and exponent.
    pub open spec fn of(m: int, e: int) -> Scalar {
        Scalar { m: m as i64, e: e as i32 }
    }

    /// Sum, cut to 40 bits.
    pub open spec fn add_spec(self, rhs: Scalar) -> Scalar {
        combine(self.m as int, self.e as int, rhs.m as int, rhs.e as int)
    }

    /// Difference, cut to 40 bits.
    pub open spec fn sub_spec(self, rhs: Scalar) -> Scalar {
        combine(self.m as int, self.e as int, -rhs.m, rhs.e as int)
    }

    /// Negation, which is exact.
    pub open spec fn neg_spec(self) -> Scalar {
        Scalar { m: clamp(-self.m), e: self.e }
    }

    /// Product, cut to 40 bits.
    pub open spec fn mul_spec(self, rhs: Scalar) -> Scalar {
        pack_spec(
            (self.m < 0) != (rhs.m < 0),
            magnitude(self.m as int) * magnitude(rhs.m as int),
            self.e + rhs.e,
        )
    }

    /// Quotient, cut to 40 bits; meaningful for `rhs` other than zero.
    pub open spec fn div_spec(self, rhs: Scalar) -> Scalar {
        pack_spec(
            (self.m < 0) != (rhs.m < 0),
            (magnitude(self.m as int) * HI) / magnitude(rhs.m as int),
            self.e - rhs.e - MANTISSA_BITS,
        )
    }

    /// Square root, cut to 40 bits; zero for arguments that are not positive.
    pub open spec fn sqrt_spec(self) -> Scalar {
        if self.m <= 0 {
            Scalar { m: 0, e: 0 }
        } else if (self.e as int) % 2 == 0 {
            pack_spec(false, floor_sqrt(self.m * HI), (self.e - MANTISSA_BITS) / 2)
        } else {
            pack_spec(false, floor_sqrt(self.m * (2 * HI)), (self.e - MANTISSA_BITS - 1) / 2)
        }
    }

    /// The number itself if it is positive, else the smallest positive number.
    pub open spec fn floored_spec(self) -> Scalar {
        if self.m <= 0 {
            Scalar { m: LO, e: (-EXP_MAX) as i32 }
        } else {
            self
        }
    }

    /// Twice the number.
    pub open spec fn double_spec(self) -> Scalar {
        self.add(self)
    }

    /// The whole number `n`, of a count `n`.
    pub open spec fn count(n: int) -> Scalar {
        pack_spec(false, n, 0)
    }

    /// The whole number `n`.
    pub open spec fn from_int_spec(n: i32) -> Scalar {
        pack_signed(n as int, 0)
    }

    /// The number zero.
    pub open spec fn zero_spec() -> Scalar {
        Scalar { m: 0, e: 0 }
    }

    /// The number one.
    pub open spec fn one_spec() -> Scalar {
        Scalar { m: LO, e: (-39) as i32 }
    }

    /// The circle constant, cut to 40 bits.
    pub open spec fn pi_spec() -> Scalar {
        Scalar { m: PI_MANTISSA, e: (-38) as i32 }
    }

    /// Whether `self` is less than `rhs`.
    pub open spec fn lt_spec(self, rhs: Scalar) -> bool {
        less(self, rhs)
    }

    /// Whether `self` is at most `rhs`.
    pub open spec fn le_spec(self, rhs: Scalar) -> bool {
        !less(rhs, self)
    }

    /// Whether `self` is greater than `rhs`.
    pub open spec fn gt_spec(self, rhs: Scalar) -> bool {
        less(rhs, self)
    }

    /// The number with the given mantissa and exponent, taken as they are.
    pub fn from_parts(m: i64, e: i32) -> (r: Scalar)
        ensures
            r == (Scalar { m, e }),
    {
        Scalar { m, e }
    }

    /// The mantissa.
    pub fn mantissa(self) -> (r: i64)
        ensures
            r == self.m,
    {
        self.m
    }

    /// The exponent.
    pub fn exponent(self) -> (r: i32)
        ensures
            r == self.e,
    {
        self.e
    }

    /// The mantissa nearest to `x`.
    fn clamped(x: i128) -> (r: i64)
        ensures
            r == clamp(x as int),
    {
        if x > i64::MAX as i128 {
            i64::MAX
        } else if x < i64::MIN as i128 {
            i64::MIN
        } else {
            x as i64
        }
    }

    /// Absolute value of a mantissa, which always fits the wider type.
    fn magnitude_of(m: i64) -> (r: u128)
        ensures
            r == magnitude(m as int),
            r <= 0x8000_0000_0000_0000,
    {
        if m < 0 {
            (-(m as i128)) as u128
        } else {
            m as u128
        }
    }

    /// The number of the given sign and of magnitude `n * 2^x`, cut to 40 bits.
    fn pack(negative: bool, n: u128, x: i64) -> (r: Scalar)
        requires
            n <= 0x4000_0000_0000_0000_0000_0000_0000_0000,
            -0x100_0000_0000 <= x <= 0x100_0000_0000,
        ensures
            r == pack_spec(negative, n as int, x as int),
    {
        if n == 0 {
            return Scalar { m: 0, e: 0 };
        }
        let mut m: u128 = n;
        let mut y: i128 = x as i128;
        while m >= HI as u128
            invariant
                m > 0,
                reduce(m as int, y as int) == reduce(n as int, x as int),
                x <= y,
                (y - x) + m <= n,
                n <= 0x4000_0000_0000_0000_0000_0000_0000_0000,
                -0x100_0000_0000 <= x <= 0x100_0000_0000,
            decreases m,
        {
            m = m / 2;
            y = y + 1;
        }
        while m < LO as u128
            invariant
                0 < m < HI,
                reduce(m as int, y as int) == reduce(n as int, x as int),
                x - y <= m,
                y <= x + n,
                n <= 0x4000_0000_0000_0000_0000_0000_0000_0000,
                -0x100_0000_0000 <= x <= 0x100_0000_0000,
            decreases 1099511627776 - m,
        {
            m = m * 2;
            y = y - 1;
        }
        if y > EXP_MAX as i128 {
            if negative {
                Scalar { m: -(HI - 1), e: EXP_MAX }
            } else {
                Scalar { m: HI - 1, e: EXP_MAX }
            }
        } else if y < -(EXP_MAX as i128) {
            Scalar { m: 0, e: 0 }
        } else if negative {
            Scalar { m: -(m as i64), e: y as i32 }
        } else {
            Scalar { m: m as i64, e: y as i32 }
        }
    }

    /// The sum of `am * 2^ae` and `bm * 2^be`.
    fn sum(am: i128, ae: i32, bm: i128, be: i32) -> (r: Scalar)
        requires
            -0x8000_0000_0000_0000 <= am <= 0x8000_0000_0000_0000,
            -0x8000_0000_0000_0000 <= bm <= 0x8000_0000_0000_0000,
        ensures
            r == combine(am as int, ae as int, bm as int, be as int),
    {
        let gap: i64 = ae as i64 - be as i64;
        if am == 0 {
            Scalar { m: Scalar::clamped(bm), e: be }
        } else if bm == 0 {
            Scalar { m: Scalar::clamped(am), e: ae }
        } else if gap > ALIGN_MAX as i64 {
            Scalar { m: Scalar::clamped(am), e: ae }
        } else if -gap > ALIGN_MAX as i64 {
            Scalar { m: Scalar::clamped(bm), e: be }
        } else if gap >= 0 {
            let p: i128 = two_to(gap as u32) as i128;
            assert(-0x2000_0000_0000_0000_0000_0000_0000_0000 <= am * p
                <= 0x2000_0000_0000_0000_0000_0000_0000_0000) by (nonlinear_arith)
                requires
                    -0x8000_0000_0000_0000 <= am <= 0x8000_0000_0000_0000,
                    0 <= p <= 0x4000_0000_0000_0000,
            ;
            Scalar::pack_sum(am * p + bm, be)
        } else {
            let p: i128 = two_to((-gap) as u32) as i128;
            assert(-0x2000_0000_0000_0000_0000_0000_0000_0000 <= bm * p
                <= 0x2000_0000_0000_0000_0000_0000_0000_0000) by (nonlinear_arith)
                requires
                    -0x8000_0000_0000_0000 <= bm <= 0x8000_0000_0000_0000,
                    0 <= p <= 0x4000_0000_0000_0000,
            ;
            Scalar::pack_sum(am + bm * p, ae)
        }
    }

    /// The number `s * 2^x`, cut to 40 bits.
    fn pack_sum(s: i128, x: i32) -> (r: Scalar)
        requires
            -0x3000_0000_0000_0000_0000_0000_0000_0000 <= s
                <= 0x3000_0000_0000_0000_0000_0000_0000_0000,
        ensures
            r == pack_signed(s as int, x as int),
    {
        if s < 0 {
            Scalar::pack(true, (-s) as u128, x as i64)
        } else {
            Scalar::pack(false, s as u128, x as i64)
        }
    }

    /// The number zero.
    #[verifier::when_used_as_spec(zero_spec)]
    pub fn zero() -> (r: Scalar)
        ensures
            r == Scalar::zero_spec(),
    {
        Scalar { m: 0, e: 0 }
    }

    /// The number one.
    #[verifier::when_used_as_spec(one_spec)]
    pub fn one() -> (r: Scalar)
        ensures
            r == Scalar::one_spec(),
    {
        Scalar { m: LO, e: -39 }
    }

    /// The circle constant, cut to 40 bits.
    #[verifier::when_used_as_spec(pi_spec)]
    pub fn pi() -> (r: Scalar)
        ensures
            r == Scalar::pi_spec(),
    {
        Scalar { m: PI_MANTISSA, e: -38 }
    }

    /// The whole number `n`.
    #[verifier::when_used_as_spec(from_int_spec)]
    pub fn from_int(n: i32) -> (r: Scalar)
        ensures
            r == Scalar::from_int_spec(n),
    {
        Scalar::pack_sum(n as i128, 0)
    }

    /// The number `n / 2^bits`, which is exact.
    pub fn from_ratio_of_two(n: u32, bits: u8) -> (r: Scalar)
        ensures
            r == pack_spec(false, n as int, -(bits as int)),
    {
        Scalar::pack(false, n as u128, -(bits as i64))
    }

    /// The whole number `n`.
    pub fn from_count(n: u64) -> (r: Scalar)
        ensures
            r == Scalar::count(n as int),
    {
        Scalar::pack(false, n as u128, 0)
    }

    /// Whether `self` is less than `rhs`.
    #[verifier::when_used_as_spec(lt_spec)]
    pub fn lt(self, rhs: Scalar) -> (r: bool)
        ensures
            r == less(self, rhs),
    {
        if self.m < 0 {
            if rhs.m < 0 {
                rhs.e < self.e || (rhs.e == self.e && rhs.m > self.m)
            } else {
                true
            }
        } else if self.m == 0 {
            rhs.m > 0
        } else {
            rhs.m > 0 && (self.e < rhs.e || (self.e == rhs.e && self.m < rhs.m))
        }
    }

    /// Whether `self` is at most `rhs`.
    #[verifier::when_used_as_spec(le_spec)]
    pub fn le(self, rhs: Scalar) -> (r: bool)
        ensures
            r == !less(rhs, self),
    {
        !rhs.lt(self)
    }

    /// Whether `self` is greater than `rhs`.
    #[verifier::when_used_as_spec(gt_spec)]
    pub fn gt(self, rhs: Scalar) -> (r: bool)
        ensures
            r == less(rhs, self),
    {
        rhs.lt(self)
    }

    /// Whether the number is zero.
    pub fn is_zero(self) -> (r: bool)
        ensures
            r == (self.m == 0),
    {
        self.m == 0
    }

    /// The number itself if it is positive, else the smallest positive number.
    #[verifier::when_used_as_spec(floored_spec)]
    pub fn floored(self) -> (r: Scalar)
        ensures
            r == self.floored_spec(),
            r.m > 0,
    {
        if self.m <= 0 {
            Scalar { m: LO, e: -EXP_MAX }
        } else {
            self
        }
    }

    /// Square root, cut to 40 bits; zero for arguments that are not positive.
    #[verifier::when_used_as_spec(sqrt_spec)]
    pub fn sqrt(self) -> (r: Scalar)
        ensures
            r == self.sqrt_spec(),
    {
        if self.m <= 0 {
            Scalar { m: 0, e: 0 }
        } else {
            let e: i64 = self.e as i64;
            let half: i64 = if e >= 0 {
                e / 2
            } else {
                -((1 - e) / 2)
            };
            if e - 2 * half == 0 {
                let n: u128 = (self.m as u128) * (HI as u128);
                Scalar::pack(false, integer_sqrt(n), half - 20)
            } else {
                let n: u128 = (self.m as u128) * 2199023255552;
                Scalar::pack(false, integer_sqrt(n), half - 20)
            }
        }
    }

    /// Sum, cut to 40 bits.
    #[verifier::when_used_as_spec(add_spec)]
    pub fn add(self, rhs: Scalar) -> (r: Scalar)
        ensures
            r == self.add_spec(rhs),
    {
        Scalar::sum(self.m as i128, self.e, rhs.m as i128, rhs.e)
    }

    /// Twice the number.
    #[verifier::when_used_as_spec(double_spec)]
    pub fn double(self) -> (r: Scalar)
        ensures
            r == self.double_spec(),
    {
        self.add(self)
    }

    /// Difference, cut to 40 bits.
    #[verifier::when_used_as_spec(sub_spec)]
    pub fn sub(self, rhs: Scalar) -> (r: Scalar)
        ensures
            r == self.sub_spec(rhs),
    {
        Scalar::sum(self.m as i128, self.e, -(rhs.m as i128), rhs.e)
    }

    /// Negation, which is exact.
    #[verifier::when_used_as_spec(neg_spec)]
    pub fn neg(self) -> (r: Scalar)
        ensures
            r == self.neg_spec(),
    {
        Scalar { m: Scalar::clamped(-(self.m as i128)), e: self.e }
    }

    /// Product, cut to 40 bits.
    #[verifier::when_used_as_spec(mul_spec)]
    pub fn mul(self, rhs: Scalar) -> (r: Scalar)
        ensures
            r == self.mul_spec(rhs),
    {
        let a: u128 = Scalar::magnitude_of(self.m);
        let b: u128 = Scalar::magnitude_of(rhs.m);
        assert(a * b <= 0x4000_0000_0000_0000_0000_0000_0000_0000) by (nonlinear_arith)
            requires
                a <= 0x8000_0000_0000_0000,
                b <= 0x8000_0000_0000_0000,
        ;
        Scalar::pack((self.m < 0) != (rhs.m < 0), a * b, self.e as i64 + rhs.e as i64)
    }

    /// Quotient by a number other than zero, cut to 40 bits.
    #[verifier::when_used_as_spec(div_spec)]
    pub fn div(self, rhs: Scalar) -> (r: Scalar)
        requires
            rhs.m != 0,
        ensures
            r == self.div_spec(rhs),
    {
        let a: u128 = Scalar::magnitude_of(self.m);
        let b: u128 = Scalar::magnitude_of(rhs.m);
        let q: u128 = (a * (HI as u128)) / b;
        assert(q <= a * HI) by (nonlinear_arith)
            requires
                q == (a * HI) / (b as int),
                b >= 1,
                a >= 0,
        ;
        Scalar::pack(
            (self.m < 0) != (rhs.m < 0),
            q,
            self.e as i64 - rhs.e as i64 - MANTISSA_BITS as i64,
        )
    }
}

} // verus!
