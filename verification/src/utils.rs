//! Running weighted means and a running standard deviation, in fixed point.
//!
//! These accumulators mirror the streaming formulas of the engine: a
//! weighted mean is updated as `(result * sw + element * w) / (sw + w)`,
//! and the standard deviation of a stream is the square root of a running
//! variance kept through summed squared deviations.  All divisions floor;
//! every step is stated exactly.

use crate::fixed::SCALE;
use vstd::prelude::*;

verus! {

/// Largest element a mean accumulator accepts (a real of one million).
pub const ELEM_LIMIT: u64 = 1_000_000_000_000_000;

/// Largest weight a mean accumulator accepts (a real of one thousand).
pub const WEIGHT_LIMIT: u64 = 1_000_000_000_000;

/// Largest weight total a mean accumulator holds.
pub const SUMW_LIMIT: u128 = 100_000_000_000_000_000_000;

/// One update step of a floored weighted mean.
pub open spec fn spec_mean_step(result: int, sw: int, element: int, w: int) -> int {
    (result * sw + element * w) / (sw + w)
}

/// The floored mean of a stream stays between the smallest and largest of
/// the old mean and the new element.
pub proof fn lemma_mean_step_bounds(result: int, sw: int, element: int, w: int, bound: int)
    requires
        0 <= result <= bound,
        0 <= element <= bound,
        0 <= sw,
        0 <= w,
        0 < sw + w,
    ensures
        0 <= spec_mean_step(result, sw, element, w) <= bound,
{
    assert(0 <= (result * sw + element * w) / (sw + w) <= bound) by (nonlinear_arith)
        requires
            0 <= result <= bound,
            0 <= element <= bound,
            0 <= sw,
            0 <= w,
            0 < sw + w,
    ;
}

/// Running weighted mean of a stream of scalars.
pub struct MeanCompute {
    /// The weight total accumulated so far.
    pub sumweights: u128,
    /// Current mean of everything fed in so far.
    pub result: u64,
}

impl MeanCompute {
    /// True when the accumulator is inside its operating bounds.
    pub open spec fn wf(&self) -> bool {
        self.result <= ELEM_LIMIT && self.sumweights <= SUMW_LIMIT
    }

    /// An empty accumulator: mean zero under weight zero.
    pub fn new() -> (r: MeanCompute)
        ensures
            r.wf(),
            r.result == 0,
            r.sumweights == 0,
    {
        MeanCompute { sumweights: 0, result: 0 }
    }

    /// Feeds one element with its weight and returns the new mean.
    ///
    /// A zero weight total leaves the mean untouched, so the update is
    /// total: it never divides by zero.
    pub fn add_el(&mut self, element: u64, weight: u64) -> (res: u64)
        requires
            old(self).wf(),
            element <= ELEM_LIMIT,
            weight <= WEIGHT_LIMIT,
            old(self).sumweights + weight <= SUMW_LIMIT,
        ensures
            final(self).wf(),
            res == final(self).result,
            old(self).sumweights + weight > 0 ==> {
                &&& final(self).result == spec_mean_step(
                    old(self).result as int,
                    old(self).sumweights as int,
                    element as int,
                    weight as int,
                )
                &&& final(self).sumweights == old(self).sumweights + weight
            },
            old(self).sumweights + weight == 0 ==> *final(self) == *old(self),
    {
        let denom: u128 = self.sumweights + (weight as u128);
        if denom == 0 {
            return self.result;
        }
        proof {
            lemma_mean_step_bounds(
                self.result as int,
                self.sumweights as int,
                element as int,
                weight as int,
                ELEM_LIMIT as int,
            );
            assert(self.result * self.sumweights <= ELEM_LIMIT * SUMW_LIMIT && element * weight
                <= ELEM_LIMIT * WEIGHT_LIMIT) by (nonlinear_arith)
                requires
                    self.result <= ELEM_LIMIT,
                    self.sumweights <= SUMW_LIMIT,
                    element <= ELEM_LIMIT,
                    weight <= WEIGHT_LIMIT,
            ;
        }
        let num: u128 = (self.result as u128) * self.sumweights + (element as u128) * (
        weight as u128);
        let res: u64 = (num / denom) as u64;
        self.result = res;
        self.sumweights = denom;
        res
    }
}

/// Running weighted mean of a stream of genomes, gene by gene.
pub struct MeanComputeVec {
    /// The weight total accumulated so far.
    pub sumweights: u128,
    /// Current per-gene mean of everything fed in so far.
    pub result: Vec<u64>,
}

impl MeanComputeVec {
    /// True when every entry of the mean and the weight total are inside
    /// their operating bounds.
    pub open spec fn wf(&self) -> bool {
        &&& forall|i: int| 0 <= i < self.result@.len() ==> self.result@[i] <= ELEM_LIMIT
        &&& self.sumweights <= SUMW_LIMIT
    }

    /// An empty accumulator of `nb` genes, all zero, under weight zero.
    pub fn new(nb: usize) -> (r: MeanComputeVec)
        ensures
            r.wf(),
            r.result@.len() == nb,
            forall|i: int| 0 <= i < nb ==> r.result@[i] == 0,
            r.sumweights == 0,
    {
        let mut result: Vec<u64> = Vec::new();
        for k in 0..nb
            invariant
                result@.len() == k,
                forall|i: int| 0 <= i < k ==> result@[i] == 0,
        {
            result.push(0);
        }
        MeanComputeVec { sumweights: 0, result }
    }

    /// Feeds one genome with its weight.
    ///
    /// A zero weight total leaves the mean untouched, so the update is
    /// total: it never divides by zero.
    pub fn add_el(&mut self, element: &Vec<u64>, weight: u64)
        requires
            old(self).wf(),
            element@.len() == old(self).result@.len(),
            forall|i: int| 0 <= i < element@.len() ==> element@[i] <= ELEM_LIMIT,
            weight <= WEIGHT_LIMIT,
            old(self).sumweights + weight <= SUMW_LIMIT,
        ensures
            final(self).wf(),
            final(self).result@.len() == old(self).result@.len(),
            forall|i: int|
                0 <= i < final(self).result@.len() ==> final(self).result@[i] <= old(
                    self,
                ).result@[i] || final(self).result@[i] <= element@[i],
            old(self).sumweights + weight > 0 ==> {
                &&& forall|i: int|
                    0 <= i < element@.len() ==> final(self).result@[i] == spec_mean_step(
                        old(self).result@[i] as int,
                        old(self).sumweights as int,
                        element@[i] as int,
                        weight as int,
                    )
                &&& final(self).sumweights == old(self).sumweights + weight
            },
            old(self).sumweights + weight == 0 ==> *final(self) == *old(self),
    {
        let denom: u128 = self.sumweights + (weight as u128);
        if denom == 0 {
            return ;
        }
        let n = self.result.len();
        for k in 0..n
            invariant
                self.result@.len() == n,
                element@.len() == n,
                denom == old(self).sumweights + weight,
                denom > 0,
                self.sumweights == old(self).sumweights,
                self.sumweights <= SUMW_LIMIT,
                weight <= WEIGHT_LIMIT,
                forall|i: int| 0 <= i < n ==> element@[i] <= ELEM_LIMIT,
                forall|i: int| k <= i < n ==> self.result@[i] == old(self).result@[i],
                forall|i: int| 0 <= i < n ==> self.result@[i] <= ELEM_LIMIT,
                forall|i: int|
                    0 <= i < k ==> self.result@[i] <= old(self).result@[i] || self.result@[i]
                        <= element@[i],
                forall|i: int|
                    0 <= i < k ==> self.result@[i] == spec_mean_step(
                        old(self).result@[i] as int,
                        old(self).sumweights as int,
                        element@[i] as int,
                        weight as int,
                    ),
        {
            proof {
                let hi: int = if self.result@[k as int] >= element@[k as int] {
                    self.result@[k as int] as int
                } else {
                    element@[k as int] as int
                };
                lemma_mean_step_bounds(
                    self.result@[k as int] as int,
                    self.sumweights as int,
                    element@[k as int] as int,
                    weight as int,
                    hi,
                );
                assert(self.result@[k as int] * self.sumweights <= ELEM_LIMIT * SUMW_LIMIT
                    && element@[k as int] * weight <= ELEM_LIMIT * WEIGHT_LIMIT)
                    by (nonlinear_arith)
                    requires
                        self.result@[k as int] <= ELEM_LIMIT,
                        self.sumweights <= SUMW_LIMIT,
                        element@[k as int] <= ELEM_LIMIT,
                        weight <= WEIGHT_LIMIT,
                ;
            }
            let num: u128 = (self.result[k] as u128) * self.sumweights + (element[k] as u128) * (
            weight as u128);
            let res: u64 = (num / denom) as u64;
            self.result.set(k, res);
        }
        self.sumweights = denom;
    }
}

/// True when `r` is the floor of the square root of `x`.
pub open spec fn is_floor_sqrt(r: int, x: int) -> bool {
    r * r <= x && (r + 1) * (r + 1) > x
}

/// The floor of the square root: the unique `r` with
/// `r * r <= x < (r + 1) * (r + 1)`.
pub fn isqrt(x: u64) -> (r: u64)
    ensures
        is_floor_sqrt(r as int, x as int),
        r <= 0xFFFF_FFFF,
{
    let mut lo: u64 = 0;
    let mut hi: u64 = 0x1_0000_0000;
    proof {
        assert(hi * hi > x) by (nonlinear_arith)
            requires
                hi == 0x1_0000_0000,
                x <= 0xFFFF_FFFF_FFFF_FFFF,
        ;
    }
    while lo + 1 < hi
        invariant
            lo < hi <= 0x1_0000_0000,
            lo * lo <= x,
            hi * hi > x,
        decreases hi - lo,
    {
        let mid: u64 = lo + (hi - lo) / 2;
        proof {
            assert(mid * mid <= 0xFFFF_FFFF * 0xFFFF_FFFF) by (nonlinear_arith)
                requires
                    mid <= 0xFFFF_FFFF,
            ;
        }
        if mid * mid <= x {
            lo = mid;
        } else {
            hi = mid;
        }
    }
    lo
}

/// Running standard deviation of a stream of genomes around a fixed
/// per-gene mean.
pub struct StddevComputeVec {
    /// The number of genomes fed in so far.
    pub count: u32,
    /// Current per-gene standard deviation estimate, scaled by [`SCALE`].
    pub result: Vec<u64>,
    /// Running per-gene sum of squared deviations, scaled by [`SCALE`].
    pub ex2: Vec<u64>,
    /// The fixed per-gene mean the deviations are taken from.
    pub mean: Vec<u64>,
}

/// One update of the running sum of squared deviations: the squared
/// deviation of `element` from `mean`, scaled down by [`SCALE`].
pub open spec fn spec_sq_dev(element: int, mean: int) -> int {
    ((element - mean) * (element - mean)) / (SCALE as int)
}

/// The running variance estimate after one update: the accumulated
/// squared deviations, less the newest one's sample share, over the
/// sample count.  The standard deviation is its square root.
pub open spec fn spec_variance_step(ex2_after: int, dev: int, count_before: int) -> int {
    (ex2_after - dev / (count_before + 1)) / count_before
}

impl StddevComputeVec {
    /// True when the accumulator is inside its operating bounds.
    pub open spec fn wf(&self) -> bool {
        &&& self.result@.len() == self.mean@.len()
        &&& self.ex2@.len() == self.mean@.len()
        &&& forall|i: int| 0 <= i < self.mean@.len() ==> self.mean@[i] <= SCALE
        &&& forall|i: int| 0 <= i < self.ex2@.len() ==> self.ex2@[i] <= self.count * SCALE
        &&& forall|i: int| 0 <= i < self.result@.len() ==> self.result@[i] <= 2 * SCALE
    }

    /// An empty accumulator around the given mean.
    pub fn new(mean: Vec<u64>) -> (r: StddevComputeVec)
        requires
            forall|i: int| 0 <= i < mean@.len() ==> mean@[i] <= SCALE,
        ensures
            r.wf(),
            r.count == 0,
            r.mean@ == mean@,
            r.result@.len() == mean@.len(),
            forall|i: int| 0 <= i < mean@.len() ==> r.result@[i] == 0,
    {
        let n = mean.len();
        let mut result: Vec<u64> = Vec::new();
        let mut ex2: Vec<u64> = Vec::new();
        for k in 0..n
            invariant
                result@.len() == k,
                ex2@.len() == k,
                forall|i: int| 0 <= i < k ==> result@[i] == 0,
                forall|i: int| 0 <= i < k ==> ex2@[i] == 0,
        {
            result.push(0);
            ex2.push(0);
        }
        StddevComputeVec { count: 0, result, ex2, mean }
    }

    /// Feeds one genome: accumulates its squared deviations and refreshes
    /// the standard-deviation estimate — the square root of the running
    /// variance — which stays zero until two genomes are in.
    pub fn add_el(&mut self, element: &Vec<u64>)
        requires
            old(self).wf(),
            old(self).count < u32::MAX,
            element@.len() == old(self).mean@.len(),
            forall|i: int| 0 <= i < element@.len() ==> element@[i] <= SCALE,
        ensures
            final(self).wf(),
            final(self).count == old(self).count + 1,
            final(self).mean@ == old(self).mean@,
            final(self).result@.len() == old(self).result@.len(),
            forall|i: int|
                0 <= i < element@.len() ==> final(self).ex2@[i] == old(self).ex2@[i]
                    + spec_sq_dev(element@[i] as int, old(self).mean@[i] as int),
            old(self).count == 0 ==> forall|i: int|
                0 <= i < element@.len() ==> final(self).result@[i] == old(self).result@[i],
            old(self).count >= 1 ==> forall|i: int|
                0 <= i < element@.len() ==> is_floor_sqrt(
                    final(self).result@[i] as int,
                    spec_variance_step(
                        final(self).ex2@[i] as int,
                        spec_sq_dev(element@[i] as int, old(self).mean@[i] as int),
                        old(self).count as int,
                    ) * SCALE,
                ),
    {
        self.count = self.count + 1;
        let n = self.result.len();
        for k in 0..n
            invariant
                self.result@.len() == n,
                self.ex2@.len() == n,
                self.mean@ == old(self).mean@,
                self.mean@.len() == n,
                element@.len() == n,
                self.count == old(self).count + 1,
                forall|i: int| 0 <= i < n ==> self.mean@[i] <= SCALE,
                forall|i: int| 0 <= i < n ==> element@[i] <= SCALE,
                forall|i: int| k <= i < n ==> self.ex2@[i] == old(self).ex2@[i],
                forall|i: int| k <= i < n ==> self.result@[i] == old(self).result@[i],
                forall|i: int| 0 <= i < n ==> old(self).ex2@[i] <= old(self).count * SCALE,
                forall|i: int| 0 <= i < k ==> self.ex2@[i] <= self.count * SCALE,
                forall|i: int| 0 <= i < n ==> self.result@[i] <= 2 * SCALE,
                forall|i: int|
                    0 <= i < k ==> self.ex2@[i] == old(self).ex2@[i] + spec_sq_dev(
                        element@[i] as int,
                        old(self).mean@[i] as int,
                    ),
                old(self).count == 0 ==> forall|i: int|
                    0 <= i < k ==> self.result@[i] == old(self).result@[i],
                old(self).count >= 1 ==> forall|i: int|
                    0 <= i < k ==> is_floor_sqrt(
                        self.result@[i] as int,
                        spec_variance_step(
                            self.ex2@[i] as int,
                            spec_sq_dev(element@[i] as int, old(self).mean@[i] as int),
                            old(self).count as int,
                        ) * SCALE,
                    ),
        {
            let e = element[k];
            let m = self.mean[k];
            let diff: u64 = if e >= m {
                e - m
            } else {
                m - e
            };
            proof {
                assert(diff * diff <= SCALE * SCALE) by (nonlinear_arith)
                    requires
                        0 <= diff <= SCALE,
                ;
                assert((diff * diff) / (SCALE as int) <= SCALE) by (nonlinear_arith)
                    requires
                        diff * diff <= SCALE * SCALE,
                        0 <= diff,
                ;
                assert((e - m) * (e - m) == diff * diff) by (nonlinear_arith)
                    requires
                        e >= m ==> diff == e - m,
                        e < m ==> diff == m - e,
                ;
                assert(spec_sq_dev(e as int, m as int) == (diff * diff) / (SCALE as int));
                assert(spec_sq_dev(e as int, m as int) >= 0);
            }
            let dev2: u64 = ((diff as u128) * (diff as u128) / (SCALE as u128)) as u64;
            let new_ex2: u64 = self.ex2[k] + dev2;
            self.ex2.set(k, new_ex2);
            if self.count >= 2 {
                let sample_part: u64 = dev2 / (self.count as u64);
                proof {
                    assert((new_ex2 - sample_part) / ((self.count - 1) as int) <= 2 * SCALE)
                        by (nonlinear_arith)
                        requires
                            self.count >= 2,
                            0 <= sample_part,
                            new_ex2 <= self.count * SCALE,
                            SCALE > 0,
                    ;
                }
                let variance: u64 = (new_ex2 - sample_part) / ((self.count - 1) as u64);
                let stddev: u64 = isqrt(variance * SCALE);
                proof {
                    assert(stddev <= 2 * SCALE) by (nonlinear_arith)
                        requires
                            stddev * stddev <= variance * SCALE,
                            variance <= 2 * SCALE,
                            SCALE > 0,
                    ;
                }
                self.result.set(k, stddev);
            }
        }
    }
}

} // verus!
