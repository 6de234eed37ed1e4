//! Random jitter for the initial arrangement.
use crate::algebra::lemma_reduce_small;
use crate::scalar::{less, pack_spec, reduce, Scalar, HI, LO};
use vstd::arithmetic::power2::{
    lemma2_to64, lemma2_to64_rest, lemma_pow2_strictly_increases, lemma_pow2_unfold, pow2,
};
use vstd::prelude::*;

verus! {

/// Calls `quad_rand::gen_range` at `u32`. That function maps the next output
/// of the crate's global generator, a fraction of at least zero and less than
/// one, linearly onto the span from `low` to `high` and converts it back to
/// `u32`; with `low <= high` the result is no smaller than `low` and no
/// larger than `high`. Which value of the span comes back is not stated: it
/// depends on the generator's state.
#[verifier::external_body]
fn random_between(low: u32, high: u32) -> (r: u32)
    requires
        low <= high,
    ensures
        low <= r <= high,
{
    quad_rand::gen_range(low, high)
}

/// Whether `j` is a jitter: between zero and one.
pub open spec fn is_jitter(j: Scalar) -> bool {
    !less(j, Scalar::zero()) && !less(Scalar::one(), j)
}

/// Whether all of `js` are jitters.
pub open spec fn all_jitter(js: Seq<Scalar>) -> bool {
    forall|k: int| 0 <= k < js.len() ==> is_jitter(#[trigger] js[k])
}

/// A magnitude of at most `2^j`, for `j <= 39`, is cut to at most `2^(x + j)`.
proof fn lemma_reduce_upper(n: int, x: int, j: nat)
    requires
        0 < n <= pow2(j),
        j <= 39,
    ensures
        reduce(n, x).1 < x + j - 39 || reduce(n, x) == (LO as int, x + j - 39),
    decreases HI - n,
{
    lemma2_to64();
    lemma2_to64_rest();
    if j == 39 {
        if n < LO {
            lemma_reduce_small(n * 2, x - 1);
        }
    } else {
        lemma_pow2_strictly_increases(j, 39);
        lemma_pow2_unfold(j + 1);
        lemma_reduce_upper(n * 2, x - 1, j + 1);
    }
}

/// The jitter that stands for a random draw `raw`: `raw / 2^24`.
pub fn jitter_from(raw: u32) -> (j: Scalar)
    ensures
        j == pack_spec(false, raw as int, -24),
        raw <= 16777216 ==> is_jitter(j),
{
    proof {
        if 0 < raw <= 16777216 {
            lemma2_to64();
            lemma_reduce_upper(raw as int, -24, 24);
            lemma_reduce_small(raw as int, -24);
        }
    }
    Scalar::from_ratio_of_two(raw, 24)
}

/// A random jitter.
pub fn draw() -> (j: Scalar)
    ensures
        is_jitter(j),
{
    jitter_from(random_between(0, 16777216))
}

/// `n` random jitters.
pub fn draw_many(n: u64) -> (js: Vec<Scalar>)
    ensures
        js@.len() == n,
        all_jitter(js@),
{
    let mut js: Vec<Scalar> = Vec::new();
    let mut k: u64 = 0;
    while k < n
        invariant
            k <= n,
            js@.len() == k,
            all_jitter(js@),
        decreases n - k,
    {
        js.push(draw());
        k += 1;
    }
    js
}

} // verus!
