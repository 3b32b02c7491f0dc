//! Fixed-point arithmetic.
//!
//! A ratio, probability or gene value in the real interval `[0, 1]` is stored
//! as a `u64` numerator over [`SCALE`]; a score is a non-negative real stored
//! the same way.  `SCALE` is a power of ten so that the decimal constants of
//! the Darwin method (0.15, 0.4, 0.6, 0.75, 0.85) are represented exactly.

use vstd::prelude::*;

verus! {

/// Denominator of every fixed-point quantity: the stored value `v` stands for
/// the real number `v / SCALE`.
pub const SCALE: u64 = 1_000_000_000;

/// Fixed-point representation of one half.
pub const HALF_SCALE: u64 = 500_000_000;

/// Largest population the laboratory accepts.
pub const POP_LIMIT: usize = 100_000_000;

/// The floor of `pop * ratio` where `ratio` is fixed-point: the integer part
/// taken by a bucket whose share of `pop` is `ratio`.
pub open spec fn spec_part_of(pop: int, ratio: int) -> int {
    (pop * ratio) / (SCALE as int)
}

/// Takes the `ratio` share of a population count, rounding down.
pub fn part_of_pop(pop: usize, ratio: u64) -> (r: usize)
    requires
        ratio <= SCALE,
        pop <= usize::MAX,
    ensures
        r == spec_part_of(pop as int, ratio as int),
        r <= pop,
{
    proof {
        lemma_part_of_le(pop as int, ratio as int);
    }
    ((pop as u128) * (ratio as u128) / (SCALE as u128)) as usize
}

/// A share at a ratio of at most one never exceeds the whole.
pub proof fn lemma_part_of_le(pop: int, ratio: int)
    requires
        0 <= pop,
        0 <= ratio <= SCALE,
    ensures
        0 <= spec_part_of(pop, ratio) <= pop,
{
    assert(0 <= (pop * ratio) / (SCALE as int) <= pop) by (nonlinear_arith)
        requires
            0 <= pop,
            0 <= ratio <= SCALE,
    ;
}

/// Splitting a whole into shares at ratios summing to at most one never
/// yields more than the whole: the floors only lose.
pub proof fn lemma_parts_sum_le(pop: int, r1: int, r2: int)
    requires
        0 <= pop,
        0 <= r1,
        0 <= r2,
        r1 + r2 <= SCALE,
    ensures
        spec_part_of(pop, r1) + spec_part_of(pop, r2) <= pop,
{
    assert((pop * r1) / (SCALE as int) + (pop * r2) / (SCALE as int) <= pop) by (nonlinear_arith)
        requires
            0 <= pop,
            0 <= r1,
            0 <= r2,
            r1 + r2 <= SCALE,
    ;
}

} // verus!
