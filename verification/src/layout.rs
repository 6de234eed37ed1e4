//! The initial arrangement: a rectangular block of grid points, one kernel
//! radius apart, filled row by row from the bottom left.
//!
//! The columns run from a seventh of the domain's width as far as half of
//! it; the rows start one margin above the floor and stay below two margins
//! under the ceiling. Each particle is displaced along x by a jitter of its
//! own, which keeps the lattice from being perfectly regular.
use crate::algebra::lemma_from_int_value;
use crate::config::Config;
use crate::particle::Particle;
use crate::scalar::{less, Scalar};
use crate::vec2::Vec2;
use vstd::arithmetic::power2::{lemma2_to64, lemma2_to64_rest};
use vstd::prelude::*;

verus! {

/// Abscissa of the first column: a seventh of the width.
pub open spec fn block_left(cfg: Config) -> Scalar {
    cfg.width.div(Scalar::from_int(7))
}

/// Largest abscissa a column may have: half of the width.
pub open spec fn block_right(cfg: Config) -> Scalar {
    cfg.width.div(Scalar::from_int(2))
}

/// Ordinate that every row stays below: two margins under the ceiling.
pub open spec fn block_top(cfg: Config) -> Scalar {
    cfg.height.sub(cfg.h.double())
}

/// Abscissa of column `c`: `left + h * c`.
pub open spec fn column_x_spec(cfg: Config, c: int) -> Scalar {
    block_left(cfg).add(cfg.h.mul(Scalar::count(c)))
}

/// Ordinate of row `r`: `h + h * r`.
pub open spec fn row_y_spec(cfg: Config, r: int) -> Scalar {
    cfg.h.add(cfg.h.mul(Scalar::count(r)))
}

/// The first column from `c` on that lies past `block_right`, or `limit`
/// if there is none before it.
pub open spec fn columns_from(cfg: Config, c: int, limit: int) -> int
    decreases limit - c,
{
    if c >= limit || less(block_right(cfg), column_x_spec(cfg, c)) {
        c
    } else {
        columns_from(cfg, c + 1, limit)
    }
}

/// The first row from `r` on that does not lie below `block_top`, or
/// `limit` if there is none before it.
pub open spec fn rows_from(cfg: Config, r: int, limit: int) -> int
    decreases limit - r,
{
    if r >= limit || !less(row_y_spec(cfg, r), block_top(cfg)) {
        r
    } else {
        rows_from(cfg, r + 1, limit)
    }
}

/// Number of columns of the block, counted no further than `limit`.
pub open spec fn columns_spec(cfg: Config, limit: int) -> int {
    columns_from(cfg, 0, limit)
}

/// Number of rows of the block, counted no further than `limit`.
pub open spec fn rows_spec(cfg: Config, limit: int) -> int {
    rows_from(cfg, 0, limit)
}

/// Number of particles for which the cap leaves room in a population of `have`.
pub open spec fn room(cfg: Config, have: int) -> int {
    if cfg.particle_cap - have <= 0 {
        0
    } else {
        cfg.particle_cap - have
    }
}

/// Number of particles that an initialisation adds to a population of
/// `have`: as many as the block has grid points, as far as the cap leaves
/// room; none where the cap is zero or negative. Rows and columns are counted
/// no further than the room, beyond which no particle is placed.
pub open spec fn placed_spec(cfg: Config, have: int) -> int {
    let all = rows_spec(cfg, room(cfg, have)) * columns_spec(cfg, room(cfg, have));
    if room(cfg, have) < all {
        room(cfg, have)
    } else {
        all
    }
}

/// The `k`-th grid point of a block of `cols` columns, counting along the
/// rows from the bottom left.
pub open spec fn grid_point_spec(cfg: Config, cols: int, k: int) -> Vec2 {
    Vec2 { x: column_x_spec(cfg, k % cols), y: row_y_spec(cfg, k / cols) }
}

/// The jitter of the `k`-th particle: the `k`-th of the given ones, zero where they run out.
pub open spec fn jitter_at(jitter: Seq<Scalar>, k: int) -> Scalar {
    if 0 <= k < jitter.len() {
        jitter[k]
    } else {
        Scalar::zero()
    }
}

/// The particle seeded at the `k`-th grid point: at rest, displaced along x by `jitter`.
pub open spec fn seeded(cfg: Config, cols: int, k: int, jitter: Scalar) -> Particle {
    Particle::new(grid_point_spec(cfg, cols, k).x.add(jitter), grid_point_spec(cfg, cols, k).y)
}

/// The first `n` particles of a block of `cols` columns.
pub open spec fn block(cfg: Config, cols: int, n: int, jitter: Seq<Scalar>) -> Seq<Particle> {
    Seq::new(n as nat, |k: int| seeded(cfg, cols, k, jitter_at(jitter, k)))
}

/// The population that an initialisation makes of `before`: the particles
/// it held, followed by as many particles of the block as the cap leaves room
/// for, each displaced by its jitter.
pub open spec fn initialised(cfg: Config, before: Seq<Particle>, jitter: Seq<Scalar>) -> Seq<
    Particle,
> {
    before + block(
        cfg,
        columns_spec(cfg, room(cfg, before.len() as int)),
        placed_spec(cfg, before.len() as int),
        jitter,
    )
}

/// The counts of columns and rows lie between where they start and the limit.
pub proof fn lemma_counts(cfg: Config, c: int, limit: int)
    requires
        0 <= c,
    ensures
        c <= columns_from(cfg, c, limit),
        c <= rows_from(cfg, c, limit),
        c <= limit ==> columns_from(cfg, c, limit) <= limit && rows_from(cfg, c, limit) <= limit,
    decreases limit - c,
{
    if c < limit {
        lemma_counts(cfg, c + 1, limit);
    }
}

/// Seven and two, by which the width is divided, are not zero.
proof fn lemma_divisors()
    ensures
        Scalar::from_int(7).m != 0,
        Scalar::from_int(2).m != 0,
{
    lemma2_to64();
    lemma2_to64_rest();
    lemma_from_int_value(7, 37, 962072674304);
    lemma_from_int_value(2, 38, 549755813888);
}

/// Abscissa of column `c`.
pub fn column_x(cfg: &Config, c: u64) -> (r: Scalar)
    ensures
        r == column_x_spec(*cfg, c as int),
{
    proof {
        lemma_divisors();
    }
    cfg.width.div(Scalar::from_int(7)).add(cfg.h.mul(Scalar::from_count(c)))
}

/// Ordinate of row `r`.
pub fn row_y(cfg: &Config, r: u64) -> (y: Scalar)
    ensures
        y == row_y_spec(*cfg, r as int),
{
    cfg.h.add(cfg.h.mul(Scalar::from_count(r)))
}

/// Number of columns of the block, counted no further than `limit`.
pub fn columns(cfg: &Config, limit: u64) -> (r: u64)
    ensures
        r == columns_spec(*cfg, limit as int),
        r <= limit,
{
    proof {
        lemma_divisors();
    }
    let right: Scalar = cfg.width.div(Scalar::from_int(2));
    let mut c: u64 = 0;
    let mut more: bool = c < limit && !right.lt(column_x(cfg, c));
    while more
        invariant
            c <= limit,
            right == block_right(*cfg),
            more == (c < limit && !less(right, column_x_spec(*cfg, c as int))),
            columns_from(*cfg, c as int, limit as int) == columns_spec(*cfg, limit as int),
        decreases limit - c,
    {
        c = c + 1;
        more = c < limit && !right.lt(column_x(cfg, c));
    }
    c
}

/// Number of rows of the block, counted no further than `limit`.
pub fn rows(cfg: &Config, limit: u64) -> (r: u64)
    ensures
        r == rows_spec(*cfg, limit as int),
        r <= limit,
{
    let top: Scalar = cfg.height.sub(cfg.h.double());
    let mut r: u64 = 0;
    let mut more: bool = r < limit && row_y(cfg, r).lt(top);
    while more
        invariant
            r <= limit,
            top == block_top(*cfg),
            more == (r < limit && less(row_y_spec(*cfg, r as int), top)),
            rows_from(*cfg, r as int, limit as int) == rows_spec(*cfg, limit as int),
        decreases limit - r,
    {
        r = r + 1;
        more = r < limit && row_y(cfg, r).lt(top);
    }
    r
}

/// Number of particles for which the cap leaves room in a population of `have`.
pub fn room_for(cfg: &Config, have: usize) -> (r: u64)
    ensures
        r == room(*cfg, have as int),
{
    let left: i128 = cfg.particle_cap as i128 - have as i128;
    if left <= 0 {
        0
    } else {
        left as u64
    }
}

/// Number of particles that an initialisation adds to a population of `have`.
pub fn placed(cfg: &Config, have: usize) -> (r: u64)
    ensures
        r == placed_spec(*cfg, have as int),
        r <= room(*cfg, have as int),
{
    let limit: u64 = room_for(cfg, have);
    let r: u64 = rows(cfg, limit);
    let c: u64 = columns(cfg, limit);
    assert(0 <= r * c <= 0xffff_ffff_ffff_ffff * 0xffff_ffff_ffff_ffff) by (nonlinear_arith)
        requires
            0 <= r <= 0xffff_ffff_ffff_ffff,
            0 <= c <= 0xffff_ffff_ffff_ffff,
    ;
    let all: u128 = (r as u128) * (c as u128);
    if (limit as u128) < all {
        limit
    } else {
        all as u64
    }
}

/// The `k`-th grid point of a block of `cols` columns.
pub fn grid_point(cfg: &Config, cols: u64, k: u64) -> (r: Vec2)
    requires
        cols > 0,
    ensures
        r == grid_point_spec(*cfg, cols as int, k as int),
{
    Vec2 { x: column_x(cfg, k % cols), y: row_y(cfg, k / cols) }
}

/// The population `before`, extended by the block's particles as far as
/// the cap leaves room. The `k`-th added particle takes its jitter from
/// `jitter`, and zero where `jitter` has no `k`-th element.
pub fn extend_with_block(cfg: &Config, before: &Vec<Particle>, jitter: &Vec<Scalar>) -> (out: Vec<
    Particle,
>)
    ensures
        out@ == initialised(*cfg, before@, jitter@),
{
    let have: usize = before.len();
    let n: u64 = placed(cfg, have);
    let cols: u64 = columns(cfg, room_for(cfg, have));
    let mut out: Vec<Particle> = Vec::new();
    let mut i: usize = 0;
    while i < have
        invariant
            i <= have,
            have == before.len(),
            out@ == before@.subrange(0, i as int),
        decreases have - i,
    {
        out.push(before[i]);
        assert(out@ =~= before@.subrange(0, i + 1));
        i += 1;
    }
    assert(out@ =~= before@);
    proof {
        if cols == 0 {
            assert(rows_spec(*cfg, room(*cfg, have as int)) * 0 == 0) by (nonlinear_arith);
        }
    }
    let mut k: u64 = 0;
    while k < n
        invariant
            k <= n,
            n > 0 ==> cols > 0,
            out@ == before@ + block(*cfg, cols as int, k as int, jitter@),
        decreases n - k,
    {
        let j: Scalar = if k < jitter.len() as u64 {
            jitter[k as usize]
        } else {
            Scalar::zero()
        };
        let g: Vec2 = grid_point(cfg, cols, k);
        out.push(Particle::new(g.x.add(j), g.y));
        assert(out@ =~= before@ + block(*cfg, cols as int, k + 1, jitter@));
        k += 1;
    }
    out
}

} // verus!
