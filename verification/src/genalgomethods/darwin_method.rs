//! The Darwin variation method.
//!
//! Darwin blends exploitation (mutations and crosses near the current best)
//! with exploration (normal-distributed and uniform draws).  The split
//! between the two drifts towards exploration as improvement stalls.

use crate::cell::{
    clone_genome, emitted_ok, genome_interior, genome_strict, genome_wf, genomes_equal,
    random_genome, CellData, Genome,
};
use crate::errors::Errcode;
use crate::fixed::{
    lemma_part_of_le, lemma_parts_sum_le, part_of_pop, spec_part_of, HALF_SCALE, POP_LIMIT, SCALE,
};
use crate::rng::{spec_rng_advance, spec_rng_mix, LabRng};
use crate::utils::{MeanComputeVec, StddevComputeVec, SUMW_LIMIT, WEIGHT_LIMIT};
use vstd::arithmetic::power2::{
    lemma2_to64, lemma2_to64_rest, lemma_pow2_adds, lemma_pow2_pos, lemma_pow2_strictly_increases,
    pow2,
};
use vstd::prelude::*;

verus! {

/// Smallest exploration ratio, a real of 0.15.
pub const MIN_EXPLO: u64 = 150_000_000;

/// Largest exploration ratio, a real of 0.85.
pub const MAX_EXPLO: u64 = 850_000_000;

/// Share of the exploitation bucket given to direct elite mutations, 0.6.
pub const RATIO_ELITE_MUTATED: u64 = 600_000_000;

/// Share of the exploitation bucket given to elite crosses, 0.4.
pub const RATIO_ELITE_CHILD: u64 = 400_000_000;

/// Share of the exploration bucket given to crosses and to normal draws, 0.4 each.
pub const RATIO_EXPLO_PART: u64 = 400_000_000;

/// Mutation rate applied to copies of the best genome at initialisation, 0.75.
pub const INIT_MUTATION_RATE: u64 = 750_000_000;

/// How many normal draws are attempted before the sample is clamped into
/// the open unit interval.
pub const NORMAL_ATTEMPTS: usize = 16;

/// Configuration of the Darwin method.
#[derive(Clone, Copy, Debug, PartialEq, Eq, Structural)]
pub struct DarwinMethodConfiguration {
    /// Probability that a mutated gene is redrawn uniformly, in `[0, 1]`.
    pub gene_reroll_proba: u64,
    /// Stall length, in generations, at which the exploration ratio is half
    /// way to its ceiling; must be positive.
    pub exploration_scope_epoch_max: u32,
}

impl DarwinMethodConfiguration {
    /// True when both parameters are in range.
    pub open spec fn valid(&self) -> bool {
        self.gene_reroll_proba <= SCALE && self.exploration_scope_epoch_max >= 1
    }

    /// The stock configuration as a value: reroll probability one half,
    /// stall scope three.
    pub open spec fn spec_default() -> DarwinMethodConfiguration {
        DarwinMethodConfiguration { gene_reroll_proba: HALF_SCALE, exploration_scope_epoch_max: 3 }
    }

    /// The stock configuration: reroll probability one half, stall scope three.
    pub fn default() -> (r: DarwinMethodConfiguration)
        ensures
            r == Self::spec_default(),
            r.valid(),
    {
        DarwinMethodConfiguration { gene_reroll_proba: HALF_SCALE, exploration_scope_epoch_max: 3 }
    }
}

/// Takes the `part` share of a population count, rounding down.
pub fn get_part_of_pop(pop: u32, part: u64) -> (r: u32)
    requires
        part <= SCALE,
    ensures
        r == spec_part_of(pop as int, part as int),
        r <= pop,
{
    part_of_pop(pop as usize, part) as u32
}

/// How parents are combined gene by gene.
enum BreedingMethod {
    /// Weighted mean of the parents' genes, weights their scores.
    ScoreBasedAverage,
    /// Each gene is taken whole from one parent, chosen with probability
    /// proportional to its score.
    ScoreBasedChoose,
}

/// The Darwin method instance: its configuration, the memory it keeps
/// between generations, and its own random source.
pub struct DarwinMethod {
    /// Generations since the best-ranked genome last changed.
    pub epoch_last_new_best: u32,
    /// The method's configuration.
    pub config: DarwinMethodConfiguration,
    /// Running weighted mean of every new best genome seen so far.
    pub bestcell_avg: MeanComputeVec,
    /// The genome most recently seen at rank zero; empty before the first
    /// generation is processed.
    pub last_best_cell: Genome,
    /// The method-local random source.
    pub rng: LabRng,
}

/// True when `a` and `b` agree on everything but the random source.
pub open spec fn same_method_state(a: &DarwinMethod, b: &DarwinMethod) -> bool {
    &&& a.epoch_last_new_best == b.epoch_last_new_best
    &&& a.config == b.config
    &&& a.bestcell_avg.sumweights == b.bestcell_avg.sumweights
    &&& a.bestcell_avg.result@ == b.bestcell_avg.result@
    &&& a.last_best_cell@ == b.last_best_cell@
}

impl DarwinMethod {
    /// True when the configuration is in range and the per-run memory is
    /// within its operating bounds.
    pub open spec fn wf(&self) -> bool {
        &&& self.config.valid()
        &&& self.bestcell_avg.wf()
        &&& genome_wf(self.last_best_cell@)
        &&& forall|i: int|
            0 <= i < self.bestcell_avg.result@.len() ==> self.bestcell_avg.result@[i] <= SCALE
    }

    /// A fresh instance under the stock configuration, drawing from `seed`.
    pub fn new(seed: u64) -> (r: DarwinMethod)
        ensures
            r.wf(),
            r.epoch_last_new_best == 0,
            r.config == DarwinMethodConfiguration::spec_default(),
            r.last_best_cell@.len() == 0,
            r.rng@ == seed,
    {
        DarwinMethod {
            epoch_last_new_best: 0,
            config: DarwinMethodConfiguration::default(),
            bestcell_avg: MeanComputeVec::new(0),
            last_best_cell: Vec::new(),
            rng: LabRng::from_seed(seed),
        }
    }

    /// Returns the method to its fresh per-run state: the stall counter,
    /// the last best genome and the running best-genome mean are all
    /// cleared, so the next generation seeds the best unconditionally.
    /// Calling it twice leaves exactly the state of calling it once.
    pub fn reset(&mut self)
        ensures
            final(self).epoch_last_new_best == 0,
            final(self).last_best_cell@.len() == 0,
            final(self).bestcell_avg.sumweights == 0,
            final(self).bestcell_avg.result@.len() == 0,
            final(self).config == old(self).config,
            final(self).rng@ == old(self).rng@,
            old(self).config.valid() ==> final(self).wf(),
    {
        self.epoch_last_new_best = 0;
        self.last_best_cell = Vec::new();
        self.bestcell_avg = MeanComputeVec::new(0);
    }

    /// Installs a configuration payload.
    pub fn load_config(&mut self, cfg: &DarwinMethodConfiguration)
        ensures
            final(self).config == *cfg,
            final(self).epoch_last_new_best == old(self).epoch_last_new_best,
            final(self).bestcell_avg == old(self).bestcell_avg,
            final(self).last_best_cell@ == old(self).last_best_cell@,
            final(self).rng@ == old(self).rng@,
    {
        self.config = *cfg;
    }

    /// Accepts the configuration exactly when both parameters are in range.
    pub fn validate_config(&self) -> (r: Result<(), Errcode>)
        ensures
            r is Ok <==> self.config.valid(),
    {
        if self.config.exploration_scope_epoch_max == 0 {
            return Err(
                Errcode::ValidationError("Darwin method: exploration_scope_epoch_max == 0"),
            );
        }
        if self.config.gene_reroll_proba > SCALE {
            return Err(Errcode::ValidationError("Darwin method: gene_reroll_proba not in range"));
        }
        Ok(())
    }
}

/// The normalisation of `x >= 2 * SCALE` by halvings: the exponent
/// climbed and the mantissa left in `[SCALE, 2 * SCALE)`.
pub open spec fn spec_lg2_up(m: nat) -> (int, nat)
    decreases m,
{
    if m >= 2 * SCALE {
        let r = spec_lg2_up((m / 2) as nat);
        (r.0 + 1, r.1)
    } else {
        (0int, m)
    }
}

/// The normalisation of `1 <= x < SCALE` by doublings: the exponent
/// descended and the mantissa raised into `[SCALE, 2 * SCALE)`.
pub open spec fn spec_lg2_down(m: nat) -> (int, nat)
    decreases 2 * SCALE - m,
{
    if m == 0 {
        (0int, 0nat)
    } else if m < SCALE {
        let r = spec_lg2_down((m * 2) as nat);
        (r.0 - 1, r.1)
    } else {
        (0int, m)
    }
}

/// The normalisation of any positive `x`: its binary exponent relative to
/// [`SCALE`] and its mantissa in `[SCALE, 2 * SCALE)`.
pub open spec fn spec_lg2_norm(x: nat) -> (int, nat) {
    if x >= 2 * SCALE {
        spec_lg2_up(x)
    } else {
        spec_lg2_down(x)
    }
}

/// The binary-fraction bits of the logarithm of a mantissa: `rounds`
/// squaring steps, each contributing `bit` when the square crosses two.
pub open spec fn spec_lg2_frac(m: nat, rounds: nat, bit: nat) -> nat
    decreases rounds,
{
    if rounds == 0 {
        0
    } else {
        let m2 = (m * m) / (SCALE as nat);
        if m2 >= 2 * SCALE {
            (bit + spec_lg2_frac((m2 / 2) as nat, (rounds - 1) as nat, (bit / 2) as nat)) as nat
        } else {
            spec_lg2_frac(m2, (rounds - 1) as nat, (bit / 2) as nat)
        }
    }
}

/// The exact value of the fixed-point base-two logarithm of `x / SCALE`,
/// scaled by [`SCALE`]: the normalisation exponent plus thirty
/// binary-fraction bits of the mantissa's logarithm.
pub open spec fn spec_log2(x: nat) -> int {
    let norm = spec_lg2_norm(x);
    norm.0 * SCALE + spec_lg2_frac(norm.1, 30, HALF_SCALE as nat)
}

/// Fixed-point base-two logarithm of `x / SCALE`, scaled by [`SCALE`]:
/// exactly [`spec_log2`].
///
/// The integer part comes from normalising `x` into `[SCALE, 2 * SCALE)`;
/// the fractional part from thirty squaring steps.
fn log2_fixed(x: u64) -> (r: i64)
    requires
        1 <= x,
    ensures
        r == spec_log2(x as nat),
        -64 * (SCALE as i64) <= r <= 64 * (SCALE as i64),
{
    let mut m: u64 = x;
    let mut e: i64 = 0;
    if m >= 2 * SCALE {
        proof {
            lemma2_to64();
            assert(pow2(0) * m == m) by (nonlinear_arith)
                requires
                    pow2(0) == 1,
            ;
        }
        while m >= 2 * SCALE
            invariant
                SCALE <= m,
                0 <= e <= 34,
                pow2(e as nat) * m <= x,
                spec_lg2_norm(x as nat) == (e + spec_lg2_up(m as nat).0, spec_lg2_up(m as nat).1),
            decreases m,
        {
            proof {
                lemma_log2_step_up(e as nat, m as nat, x as nat);
                assert(spec_lg2_up(m as nat) == (spec_lg2_up((m / 2) as nat).0 + 1, spec_lg2_up(
                    (m / 2) as nat,
                ).1));
            }
            m = m / 2;
            e = e + 1;
        }
        proof {
            assert(spec_lg2_up(m as nat) == (0int, m as nat));
            assert(spec_lg2_norm(x as nat) == (e as int, m as nat));
        }
    } else {
        let mut d: u64 = 0;
        proof {
            lemma2_to64();
        }
        while m < SCALE
            invariant
                1 <= m < 2 * SCALE,
                d <= 30,
                pow2(d as nat) <= m,
                spec_lg2_norm(x as nat) == (spec_lg2_down(m as nat).0 - d, spec_lg2_down(
                    m as nat,
                ).1),
            decreases 2 * SCALE - m,
        {
            proof {
                lemma_log2_step_down(d as nat, m as nat);
                assert(spec_lg2_down(m as nat) == (spec_lg2_down((m * 2) as nat).0 - 1,
                spec_lg2_down((m * 2) as nat).1));
            }
            m = m * 2;
            d = d + 1;
        }
        e = -(d as i64);
        proof {
            assert(spec_lg2_down(m as nat) == (0int, m as nat));
            assert(spec_lg2_norm(x as nat) == (e as int, m as nat));
        }
    }
    let ghost m_norm: nat = m as nat;
    let mut frac: u64 = 0;
    let mut bit: u64 = HALF_SCALE;
    for j in 0..30usize
        invariant
            SCALE <= m < 2 * SCALE,
            -30 <= e <= 34,
            frac + 2 * bit <= SCALE,
            spec_lg2_norm(x as nat) == (e as int, m_norm),
            spec_lg2_frac(m_norm, 30, HALF_SCALE as nat) == frac + spec_lg2_frac(
                m as nat,
                (30 - j) as nat,
                bit as nat,
            ),
    {
        proof {
            assert(m * m < (2 * SCALE) * (2 * SCALE)) by (nonlinear_arith)
                requires
                    m < 2 * SCALE,
            ;
            assert((m * m) / (SCALE as int) >= SCALE) by (nonlinear_arith)
                requires
                    m >= SCALE,
                    SCALE > 0,
            ;
            assert((m * m) / (SCALE as int) < 4 * SCALE) by (nonlinear_arith)
                requires
                    m * m < (2 * SCALE) * (2 * SCALE),
                    SCALE > 0,
            ;
            assert(spec_lg2_frac(m as nat, (30 - j) as nat, bit as nat) == ({
                let m2 = ((m * m) / (SCALE as int)) as nat;
                if m2 >= 2 * SCALE {
                    (bit + spec_lg2_frac((m2 / 2) as nat, (30 - j - 1) as nat, (bit / 2) as nat)) as nat
                } else {
                    spec_lg2_frac(m2, (30 - j - 1) as nat, (bit / 2) as nat)
                }
            }));
        }
        m = ((m as u128) * (m as u128) / (SCALE as u128)) as u64;
        if m >= 2 * SCALE {
            m = m / 2;
            frac = frac + bit;
        }
        bit = bit / 2;
    }
    proof {
        assert(spec_lg2_frac(m as nat, 0, bit as nat) == 0);
    }
    e * (SCALE as i64) + (frac as i64)
}

/// One halving step of the normalisation keeps its measure below `x` and
/// its exponent at most 34.
proof fn lemma_log2_step_up(e: nat, m: nat, x: nat)
    requires
        pow2(e) * m <= x,
        m >= 2 * SCALE,
        x < 0x1_0000_0000_0000_0000,
        e <= 34,
    ensures
        pow2(e + 1) * (m / 2) <= x,
        e + 1 <= 34,
        SCALE <= m / 2,
{
    lemma_pow2_adds(e, 1);
    lemma2_to64();
    lemma2_to64_rest();
    assert(pow2(e + 1) * (m / 2) <= pow2(e) * m) by (nonlinear_arith)
        requires
            pow2(e + 1) == pow2(e) * 2,
            m >= 2,
    ;
    if e + 1 > 34 {
        if e > 34 {
            lemma_pow2_strictly_increases(34, e);
        }
        assert(pow2(e) >= pow2(34));
        lemma_pow2_pos(e);
        assert(pow2(e) * m >= pow2(34) * (2 * SCALE)) by (nonlinear_arith)
            requires
                m >= 2 * SCALE,
                pow2(e) >= pow2(34),
                pow2(e) > 0,
                SCALE > 0,
        ;
        assert(pow2(34) * (2 * SCALE) > x);
        assert(false);
    }
    lemma_pow2_pos(e + 1);
    assert(SCALE <= m / 2);
}

/// The weight of an elite from the two fixed-point logarithms: zero when
/// they have opposite signs, the capped ratio of their magnitudes
/// otherwise.
pub open spec fn spec_transform_weight(bestscore: u64, cellscore: u64) -> int {
    let lgs = spec_log2(cellscore as nat);
    let lgb = spec_log2(bestscore as nat);
    if (lgs > 0) != (lgb > 0) {
        0
    } else {
        let num = if lgs >= 0 {
            lgs
        } else {
            -lgs
        };
        let den = if lgb >= 0 {
            lgb
        } else {
            -lgb
        };
        let w = (num * SCALE) / den;
        if w > WEIGHT_LIMIT {
            WEIGHT_LIMIT as int
        } else {
            w
        }
    }
}

/// True when `post` holds the per-run memory `pre` ought to reach after
/// seeing `best` at rank zero: the running best-genome mean, re-based to
/// `glen` genes where its length differed, absorbs `best` with unit
/// weight exactly when the rank-zero genome changed and capacity allows.
pub open spec fn spec_absorbed(
    pre: DarwinMethod,
    post: DarwinMethod,
    best: Seq<u64>,
    glen: nat,
) -> bool {
    let base_res: Seq<u64> = if pre.bestcell_avg.result@.len() == glen {
        pre.bestcell_avg.result@
    } else {
        Seq::new(glen, |i: int| 0u64)
    };
    let base_sw: int = if pre.bestcell_avg.result@.len() == glen {
        pre.bestcell_avg.sumweights as int
    } else {
        0
    };
    let changed = pre.last_best_cell@.len() > 0 && pre.last_best_cell@ != best;
    if changed && base_sw + SCALE <= SUMW_LIMIT {
        &&& post.bestcell_avg.sumweights == base_sw + SCALE
        &&& post.bestcell_avg.result@.len() == glen
        &&& forall|i: int|
            0 <= i < glen ==> post.bestcell_avg.result@[i] == crate::utils::spec_mean_step(
                base_res[i] as int,
                base_sw,
                best[i] as int,
                SCALE as int,
            )
    } else {
        &&& post.bestcell_avg.sumweights == base_sw
        &&& post.bestcell_avg.result@ == base_res
    }
}

/// True when the tail buckets of one emission starting at `from` show
/// their draw domains: the truncated-normal bucket strictly inside the
/// unit interval and the uniform bucket strictly below one, at the
/// positions [`spec_darwin_parts`] gives them under `ratio`.
pub open spec fn spec_tail_buckets_ok(
    gs: Seq<Genome>,
    from: int,
    nelites: int,
    ratio: int,
    pop: int,
) -> bool {
    let parts = spec_darwin_parts(nelites, ratio, pop);
    let norm_base = from + 2 + parts[0] + parts[1] + parts[2] + parts[3];
    &&& (forall|i: int|
        norm_base <= i < norm_base + parts[4] ==> genome_interior((#[trigger] gs[i])@))
    &&& (forall|i: int|
        norm_base + parts[4] <= i < norm_base + parts[4] + parts[5] ==> genome_strict(
            (#[trigger] gs[i])@,
        ))
}

/// True when the Darwin elite weighting accepts a generation: the
/// rank-zero score is neither zero nor one, its logarithm does not round
/// to zero, and no elite scores zero.
pub open spec fn darwin_scores_ok(elites: Seq<CellData>, cells: Seq<CellData>) -> bool {
    &&& cells[0]@.score != 0
    &&& cells[0]@.score != SCALE
    &&& spec_log2(cells[0]@.score as nat) != 0
    &&& forall|k: int| 0 <= k < elites.len() ==> (#[trigger] elites[k])@.score != 0
}

/// The weight of an elite in the elite statistics: the logarithm of its
/// score in base the best score, `log(score) / log(best)`, floored at zero
/// and capped at [`WEIGHT_LIMIT`].
///
/// The weighting is degenerate when the best score is zero or one, or the
/// elite score is zero: those report a `CodeError`, as does a base whose
/// logarithm rounds to zero.
fn transform_score(bestscore: u64, cellscore: u64) -> (r: Result<u64, Errcode>)
    ensures
        r is Ok <==> (bestscore != 0 && bestscore != SCALE && cellscore != 0 && spec_log2(
            bestscore as nat,
        ) != 0),
        r matches Ok(w) ==> w == spec_transform_weight(bestscore, cellscore) && w <= WEIGHT_LIMIT,
{
    if bestscore == 0 || bestscore == SCALE {
        return Err(Errcode::CodeError("darwin: degenerate best score for elite weighting"));
    }
    if cellscore == 0 {
        return Err(Errcode::CodeError("darwin: zero elite score for weighting"));
    }
    let lgs: i64 = log2_fixed(cellscore);
    let lgb: i64 = log2_fixed(bestscore);
    if lgb == 0 {
        return Err(Errcode::CodeError("darwin: zero-magnitude base for elite weighting"));
    }
    if (lgs > 0) != (lgb > 0) {
        return Ok(0);
    }
    let num: u64 = if lgs >= 0 {
        lgs as u64
    } else {
        (-lgs) as u64
    };
    let den: u64 = if lgb >= 0 {
        lgb as u64
    } else {
        (-lgb) as u64
    };
    let w: u128 = (num as u128) * (SCALE as u128) / (den as u128);
    if w > WEIGHT_LIMIT as u128 {
        Ok(WEIGHT_LIMIT)
    } else {
        Ok(w as u64)
    }
}

/// The multiplicative mutation of one gene: the gene scaled by
/// `1 + (nb - 1/2) * (1 + rate)` and wrapped back into the unit interval,
/// on the fixed-point grid.
pub open spec fn spec_mutated_gene(g: u64, nb: u64, rate: u64) -> int {
    let factor = if nb >= HALF_SCALE {
        SCALE + (nb - HALF_SCALE) * (SCALE + rate) / (SCALE as int)
    } else {
        SCALE - (HALF_SCALE - nb) * (SCALE + rate) / (SCALE as int)
    };
    (g * factor / (SCALE as int)) % (SCALE as int)
}

/// The state and genome one direct-mutation pass leaves from position `k`
/// on: each gene draws once, is redrawn uniformly below the reroll
/// probability, and follows [`spec_mutated_gene`] otherwise.
pub open spec fn spec_mutate_direct_from(
    g: Seq<u64>,
    k: int,
    s: u64,
    reroll: u64,
    rate: u64,
) -> (Seq<u64>, u64)
    decreases g.len() - k,
{
    if k < 0 || k >= g.len() {
        (g, s)
    } else {
        let s1 = spec_rng_advance(s);
        let nb = spec_rng_mix(s1) % SCALE;
        if nb < reroll {
            let s2 = spec_rng_advance(s1);
            let gv = spec_rng_mix(s2) % SCALE;
            spec_mutate_direct_from(g.update(k, gv), k + 1, s2, reroll, rate)
        } else {
            spec_mutate_direct_from(
                g.update(k, spec_mutated_gene(g[k], nb, rate) as u64),
                k + 1,
                s1,
                reroll,
                rate,
            )
        }
    }
}

/// The state and genome one probabilistic-mutation pass leaves from
/// position `k` on: each gene draws once and is redrawn below
/// `reroll_bound`, follows [`spec_mutated_gene`] below `swing_bound`, and
/// is left alone otherwise.
pub open spec fn spec_mutate_from(
    g: Seq<u64>,
    k: int,
    s: u64,
    reroll_bound: u64,
    swing_bound: u64,
    rate: u64,
) -> (Seq<u64>, u64)
    decreases g.len() - k,
{
    if k < 0 || k >= g.len() {
        (g, s)
    } else {
        let s1 = spec_rng_advance(s);
        let nb = spec_rng_mix(s1) % SCALE;
        if nb < reroll_bound {
            let s2 = spec_rng_advance(s1);
            let gv = spec_rng_mix(s2) % SCALE;
            spec_mutate_from(g.update(k, gv), k + 1, s2, reroll_bound, swing_bound, rate)
        } else if nb < swing_bound {
            spec_mutate_from(
                g.update(k, spec_mutated_gene(g[k], nb, rate) as u64),
                k + 1,
                s1,
                reroll_bound,
                swing_bound,
                rate,
            )
        } else {
            spec_mutate_from(g, k + 1, s1, reroll_bound, swing_bound, rate)
        }
    }
}

/// The multiplicative mutation of one gene: exactly [`spec_mutated_gene`],
/// where `nb` is the uniform draw that selected this mutation.
fn mutated_gene(g: u64, nb: u64, rate: u64) -> (r: u64)
    requires
        g <= SCALE,
        nb < SCALE,
        rate <= SCALE,
    ensures
        r < SCALE,
        r == spec_mutated_gene(g, nb, rate),
{
    let factor: u64 = if nb >= HALF_SCALE {
        let swing: u64 = nb - HALF_SCALE;
        proof {
            assert(swing * (SCALE + rate) <= HALF_SCALE * (2 * SCALE)) by (nonlinear_arith)
                requires
                    swing <= HALF_SCALE,
                    SCALE + rate <= 2 * SCALE,
                    0 <= swing,
            ;
            assert((swing * (SCALE + rate)) / (SCALE as int) <= SCALE) by (nonlinear_arith)
                requires
                    swing * (SCALE + rate) <= HALF_SCALE * (2 * SCALE),
                    0 <= swing * (SCALE + rate),
            ;
        }
        SCALE + swing * (SCALE + rate) / SCALE
    } else {
        let swing: u64 = HALF_SCALE - nb;
        proof {
            assert(swing * (SCALE + rate) <= HALF_SCALE * (2 * SCALE)) by (nonlinear_arith)
                requires
                    swing <= HALF_SCALE,
                    SCALE + rate <= 2 * SCALE,
                    0 <= swing,
            ;
            assert((swing * (SCALE + rate)) / (SCALE as int) <= SCALE) by (nonlinear_arith)
                requires
                    swing * (SCALE + rate) <= HALF_SCALE * (2 * SCALE),
                    0 <= swing * (SCALE + rate),
            ;
        }
        SCALE - swing * (SCALE + rate) / SCALE
    };
    proof {
        assert(g * factor <= SCALE * (2 * SCALE)) by (nonlinear_arith)
            requires
                g <= SCALE,
                factor <= 2 * SCALE,
                0 <= g,
                0 <= factor,
        ;
    }
    (g * factor / SCALE) % SCALE
}

/// One doubling step of the normalisation keeps its count at most 30.
proof fn lemma_log2_step_down(d: nat, m: nat)
    requires
        pow2(d) <= m,
        m < SCALE,
        d <= 30,
    ensures
        pow2(d + 1) <= 2 * m,
        d + 1 <= 30,
{
    lemma_pow2_adds(d, 1);
    lemma2_to64();
    if d + 1 > 30 {
        assert(pow2(30) <= m);
        assert(false);
    }
}

/// The six bucket sizes of one rebuilt population for the given elite
/// count, exploration ratio and population size, in emission order:
/// elite crosses, elite mutations, elite-by-population crosses,
/// population crosses, normal draws, uniform draws.
pub open spec fn spec_darwin_parts(nb_elites: int, ratio: int, pop: int) -> Seq<int> {
    let pop_rest = pop - (nb_elites - 1);
    let opti_pop = spec_part_of(pop_rest, SCALE - ratio);
    let elite_mutated = spec_part_of(opti_pop, RATIO_ELITE_MUTATED as int);
    let random_elite_child = spec_part_of(opti_pop, RATIO_ELITE_CHILD as int);
    let explo_pop = pop_rest - opti_pop;
    let random_childs = spec_part_of(explo_pop, RATIO_EXPLO_PART as int);
    let random_cells_norm = spec_part_of(explo_pop, RATIO_EXPLO_PART as int);
    seq![
        nb_elites - 1,
        elite_mutated,
        random_elite_child,
        random_childs,
        random_cells_norm,
        pop_rest - elite_mutated - random_elite_child - random_childs - random_cells_norm,
    ]
}

/// The six buckets of a rebuilt population always sum to exactly the
/// population they split: the floors of the share arithmetic are absorbed
/// by the final uniform bucket, which never goes negative.
pub proof fn lemma_darwin_parts_cover_population(nb_elites: int, ratio: int, pop: int)
    requires
        1 <= nb_elites,
        nb_elites - 1 <= pop,
        MIN_EXPLO <= ratio <= MAX_EXPLO,
    ensures
        ({
            let p = spec_darwin_parts(nb_elites, ratio, pop);
            &&& p[0] + p[1] + p[2] + p[3] + p[4] + p[5] == pop
            &&& forall|i: int| 0 <= i < 6 ==> p[i] >= 0
        }),
{
    let pop_rest = pop - (nb_elites - 1);
    let opti_pop = spec_part_of(pop_rest, SCALE - ratio);
    let explo_pop = pop_rest - opti_pop;
    lemma_part_of_le(pop_rest, SCALE - ratio);
    lemma_parts_sum_le(opti_pop, RATIO_ELITE_MUTATED as int, RATIO_ELITE_CHILD as int);
    lemma_parts_sum_le(explo_pop, RATIO_EXPLO_PART as int, RATIO_EXPLO_PART as int);
    lemma_part_of_le(opti_pop, RATIO_ELITE_MUTATED as int);
    lemma_part_of_le(opti_pop, RATIO_ELITE_CHILD as int);
    lemma_part_of_le(explo_pop, RATIO_EXPLO_PART as int);
}

impl DarwinMethod {
    /// Splits a rebuilt population of size `pop` into its six buckets.
    ///
    /// The buckets always sum to exactly `pop`: the floors of the share
    /// arithmetic are absorbed by the final uniform bucket.
    pub fn compute_population_parts_sizes(
        &self,
        nb_elites: usize,
        exploration_ratio: u64,
        pop: usize,
    ) -> (r: Vec<usize>)
        requires
            1 <= nb_elites,
            nb_elites - 1 <= pop,
            MIN_EXPLO <= exploration_ratio <= MAX_EXPLO,
        ensures
            r@.len() == 6,
            forall|i: int|
                0 <= i < 6 ==> r@[i] == spec_darwin_parts(
                    nb_elites as int,
                    exploration_ratio as int,
                    pop as int,
                )[i],
            r@[0] + r@[1] + r@[2] + r@[3] + r@[4] + r@[5] == pop,
    {
        let pop_rest: usize = pop - (nb_elites - 1);
        let opti_pop: usize = part_of_pop(pop_rest, SCALE - exploration_ratio);
        let elite_mutated: usize = part_of_pop(opti_pop, RATIO_ELITE_MUTATED);
        let random_elite_child: usize = part_of_pop(opti_pop, RATIO_ELITE_CHILD);
        let explo_pop: usize = pop_rest - opti_pop;
        let random_childs: usize = part_of_pop(explo_pop, RATIO_EXPLO_PART);
        let random_cells_norm: usize = part_of_pop(explo_pop, RATIO_EXPLO_PART);
        proof {
            lemma_parts_sum_le(
                opti_pop as int,
                RATIO_ELITE_MUTATED as int,
                RATIO_ELITE_CHILD as int,
            );
            lemma_parts_sum_le(explo_pop as int, RATIO_EXPLO_PART as int, RATIO_EXPLO_PART as int);
        }
        let random_cells: usize = pop_rest - elite_mutated - random_elite_child - random_childs
            - random_cells_norm;
        let mut r: Vec<usize> = Vec::new();
        r.push(nb_elites - 1);
        r.push(elite_mutated);
        r.push(random_elite_child);
        r.push(random_childs);
        r.push(random_cells_norm);
        r.push(random_cells);
        r
    }

    /// Mutates a genome in place at rate `rate`: each gene is left alone,
    /// redrawn uniformly, or scaled multiplicatively, by a fresh draw.
    pub fn mutate_genome(&mut self, genome: &mut Genome, rate: u64)
        requires
            old(self).config.valid(),
            rate <= SCALE,
            genome_wf(old(genome)@),
        ensures
            same_method_state(old(self), final(self)),
            final(genome)@.len() == old(genome)@.len(),
            forall|i: int|
                0 <= i < final(genome)@.len() ==> final(genome)@[i] < SCALE || final(genome)@[i]
                    == old(genome)@[i],
            genome_wf(final(genome)@),
            ({
                let rb = ((rate * old(self).config.gene_reroll_proba) / (SCALE as int)) as u64;
                let sb = ((rate * (SCALE - old(self).config.gene_reroll_proba)) / (
                SCALE as int)) as u64;
                let m = spec_mutate_from(old(genome)@, 0, old(self).rng@, rb, sb, rate);
                final(genome)@ == m.0 && final(self).rng@ == m.1
            }),
            rate == 0 ==> final(genome)@ == old(genome)@,
    {
        proof {
            assert(rate * self.config.gene_reroll_proba <= SCALE * SCALE && rate * (SCALE
                - self.config.gene_reroll_proba) <= SCALE * SCALE) by (nonlinear_arith)
                requires
                    0 <= rate <= SCALE,
                    0 <= self.config.gene_reroll_proba <= SCALE,
            ;
        }
        let reroll_bound: u64 = rate * self.config.gene_reroll_proba / SCALE;
        let swing_bound: u64 = rate * (SCALE - self.config.gene_reroll_proba) / SCALE;
        let n = genome.len();
        for k in 0..n
            invariant
                same_method_state(old(self), self),
                self.config.valid(),
                rate <= SCALE,
                genome@.len() == n,
                forall|i: int| k <= i < n ==> genome@[i] == old(genome)@[i],
                forall|i: int|
                    0 <= i < k ==> genome@[i] < SCALE || genome@[i] == old(genome)@[i],
                genome_wf(genome@),
                reroll_bound == ((rate * old(self).config.gene_reroll_proba) / (
                SCALE as int)) as u64,
                swing_bound == ((rate * (SCALE - old(self).config.gene_reroll_proba)) / (
                SCALE as int)) as u64,
                rate == 0 ==> reroll_bound == 0 && swing_bound == 0,
                rate == 0 ==> genome@ == old(genome)@,
                spec_mutate_from(
                    old(genome)@,
                    0,
                    old(self).rng@,
                    reroll_bound,
                    swing_bound,
                    rate,
                ) == spec_mutate_from(genome@, k as int, self.rng@, reroll_bound, swing_bound, rate),
        {
            let nb: u64 = self.rng.next_unit();
            if nb < reroll_bound {
                let g = self.rng.next_unit();
                genome.set(k, g);
            } else if nb < swing_bound {
                let g = mutated_gene(genome[k], nb, rate);
                genome.set(k, g);
            } else {
                proof {
                    assert(genome@.update(k as int, genome@[k as int]) =~= genome@);
                }
            }
        }
    }

    /// Mutates every gene of a genome in place: each gene is redrawn
    /// uniformly with the configured probability, and scaled
    /// multiplicatively otherwise.
    pub fn mutate_genome_direct(&mut self, genome: &mut Genome, rate: u64)
        requires
            old(self).config.valid(),
            rate <= SCALE,
            genome_wf(old(genome)@),
        ensures
            same_method_state(old(self), final(self)),
            final(genome)@.len() == old(genome)@.len(),
            genome_strict(final(genome)@),
            ({
                let m = spec_mutate_direct_from(
                    old(genome)@,
                    0,
                    old(self).rng@,
                    old(self).config.gene_reroll_proba,
                    rate,
                );
                final(genome)@ == m.0 && final(self).rng@ == m.1
            }),
    {
        let reroll = self.config.gene_reroll_proba;
        let n = genome.len();
        for k in 0..n
            invariant
                same_method_state(old(self), self),
                self.config.valid(),
                rate <= SCALE,
                reroll == old(self).config.gene_reroll_proba,
                genome@.len() == n,
                forall|i: int| k <= i < n ==> genome@[i] == old(genome)@[i],
                forall|i: int| 0 <= i < k ==> genome@[i] < SCALE,
                genome_wf(genome@),
                spec_mutate_direct_from(old(genome)@, 0, old(self).rng@, reroll, rate)
                    == spec_mutate_direct_from(genome@, k as int, self.rng@, reroll, rate),
        {
            let nb: u64 = self.rng.next_unit();
            if nb < reroll {
                let g = self.rng.next_unit();
                genome.set(k, g);
            } else {
                let g = mutated_gene(genome[k], nb, rate);
                genome.set(k, g);
            }
        }
    }

    /// Crosses two parent cells gene by gene.
    ///
    /// Under `ScoreBasedChoose` each gene comes whole from one parent,
    /// chosen with probability proportional to its score; under
    /// `ScoreBasedAverage` each gene is the score-weighted mean of the two.
    /// When both scores are zero the parents split evenly.
    fn give_birth(&mut self, p1: &CellData, p2: &CellData, method: &BreedingMethod) -> (r: Genome)
        requires
            p1@.genome.len() == p2@.genome.len(),
            genome_wf(p1@.genome),
            genome_wf(p2@.genome),
        ensures
            same_method_state(old(self), final(self)),
            r@.len() == p1@.genome.len(),
            genome_wf(r@),
            *method is ScoreBasedChoose ==> forall|i: int|
                0 <= i < r@.len() ==> #[trigger] r@[i] == p1@.genome[i] || r@[i] == p2@.genome[i],
            *method is ScoreBasedAverage && p1@.score + p2@.score == 0 ==> forall|i: int|
                0 <= i < r@.len() ==> #[trigger] r@[i] == (p1@.genome[i] + p2@.genome[i]) / 2,
            *method is ScoreBasedAverage && p1@.score + p2@.score > 0 ==> forall|i: int|
                0 <= i < r@.len() ==> #[trigger] r@[i] == (p1@.genome[i] * p1@.score
                    + p2@.genome[i] * p2@.score) / (p1@.score + p2@.score),
    {
        let sum: u128 = (p1.score as u128) + (p2.score as u128);
        let n = p1.genome.len();
        let mut res: Genome = Vec::new();
        for k in 0..n
            invariant
                same_method_state(old(self), self),
                res@.len() == k,
                p1@.genome.len() == n,
                p2@.genome.len() == n,
                genome_wf(p1@.genome),
                genome_wf(p2@.genome),
                genome_wf(res@),
                sum == p1@.score + p2@.score,
                *method is ScoreBasedChoose ==> forall|i: int|
                    0 <= i < k ==> #[trigger] res@[i] == p1@.genome[i] || res@[i]
                        == p2@.genome[i],
                *method is ScoreBasedAverage && sum == 0 ==> forall|i: int|
                    0 <= i < k ==> #[trigger] res@[i] == (p1@.genome[i] + p2@.genome[i]) / 2,
                *method is ScoreBasedAverage && sum > 0 ==> forall|i: int|
                    0 <= i < k ==> #[trigger] res@[i] == (p1@.genome[i] * p1@.score
                        + p2@.genome[i] * p2@.score) / (p1@.score + p2@.score),
        {
            let u: u64 = self.rng.next_unit();
            match method {
                BreedingMethod::ScoreBasedChoose => {
                    let pick_first: bool = if sum == 0 {
                        u < HALF_SCALE
                    } else {
                        proof {
                            assert(u * sum <= SCALE * (2 * (u64::MAX as int))) by (nonlinear_arith)
                                requires
                                    0 <= u <= SCALE,
                                    0 <= sum <= 2 * (u64::MAX as int),
                            ;
                            assert(p1@.score * SCALE <= (u64::MAX as int) * SCALE)
                                by (nonlinear_arith)
                                requires
                                    0 <= p1@.score <= u64::MAX as int,
                            ;
                        }
                        (u as u128) * sum < (p1.score as u128) * (SCALE as u128)
                    };
                    if pick_first {
                        res.push(p1.genome[k]);
                    } else {
                        res.push(p2.genome[k]);
                    }
                },
                BreedingMethod::ScoreBasedAverage => {
                    let g: u64 = if sum == 0 {
                        (p1.genome[k] + p2.genome[k]) / 2
                    } else {
                        proof {
                            lemma_weighted_pair_bound(
                                p1@.genome[k as int] as int,
                                p2@.genome[k as int] as int,
                                p1@.score as int,
                                p2@.score as int,
                            );
                            assert(p1@.genome[k as int] * p1@.score <= SCALE * (u64::MAX as int)
                                && p2@.genome[k as int] * p2@.score <= SCALE * (
                            u64::MAX as int)) by (nonlinear_arith)
                                requires
                                    0 <= p1@.genome[k as int] <= SCALE,
                                    0 <= p2@.genome[k as int] <= SCALE,
                                    0 <= p1@.score <= u64::MAX as int,
                                    0 <= p2@.score <= u64::MAX as int,
                            ;
                        }
                        (((p1.genome[k] as u128) * (p1.score as u128) + (p2.genome[k] as u128) * (
                        p2.score as u128)) / sum) as u64
                    };
                    res.push(g);
                },
            }
        }
        res
    }

    /// Draws one parent index from each of two index ranges.
    fn choose_parents(
        &mut self,
        p1scope: (usize, usize),
        p2scope: (usize, usize),
    ) -> (r: (usize, usize))
        requires
            p1scope.0 < p1scope.1,
            p2scope.0 < p2scope.1,
        ensures
            same_method_state(old(self), final(self)),
            p1scope.0 <= r.0 < p1scope.1,
            p2scope.0 <= r.1 < p2scope.1,
    {
        let first = self.rng.next_range(p1scope.0, p1scope.1);
        let second = self.rng.next_range(p2scope.0, p2scope.1);
        (first, second)
    }

    /// One raw sample of a normal distribution with mean `m` and spread
    /// `s`, both fixed-point: the sum of twelve uniform draws, centred and
    /// scaled.
    fn normal_once(&mut self, m: u64, s: u64) -> (v: i64)
        requires
            m <= SCALE,
            s <= 2 * SCALE,
        ensures
            same_method_state(old(self), final(self)),
            -13 * (SCALE as i64) <= v <= 13 * (SCALE as i64),
    {
        let mut acc: u64 = 0;
        for j in 0..12usize
            invariant
                same_method_state(old(self), self),
                acc <= j * SCALE,
        {
            acc = acc + self.rng.next_unit();
        }
        let six: u64 = 6 * SCALE;
        if acc >= six {
            let z: u64 = acc - six;
            proof {
                lemma_spread_bound(s as int, z as int);
            }
            let off: u64 = ((s as u128) * (z as u128) / (SCALE as u128)) as u64;
            (m as i64) + (off as i64)
        } else {
            let z: u64 = six - acc;
            proof {
                lemma_spread_bound(s as int, z as int);
            }
            let off: u64 = ((s as u128) * (z as u128) / (SCALE as u128)) as u64;
            (m as i64) - (off as i64)
        }
    }

    /// Draws a genome from the per-gene truncated normal distribution
    /// `N(moy, stdev)`: each gene is redrawn until it falls strictly inside
    /// the unit interval, with a bounded number of attempts and a clamp as
    /// the fallback.
    fn normal_random_vec(&mut self, moy: &Vec<u64>, stdev: &Vec<u64>) -> (r: Genome)
        requires
            moy@.len() == stdev@.len(),
            forall|i: int| 0 <= i < moy@.len() ==> moy@[i] <= SCALE,
            forall|i: int| 0 <= i < stdev@.len() ==> stdev@[i] <= 2 * SCALE,
        ensures
            same_method_state(old(self), final(self)),
            r@.len() == moy@.len(),
            forall|i: int| 0 <= i < r@.len() ==> 0 < #[trigger] r@[i] < SCALE,
    {
        let n = moy.len();
        let mut res: Genome = Vec::new();
        for k in 0..n
            invariant
                same_method_state(old(self), self),
                moy@.len() == n,
                stdev@.len() == n,
                forall|i: int| 0 <= i < n ==> moy@[i] <= SCALE,
                forall|i: int| 0 <= i < n ==> stdev@[i] <= 2 * SCALE,
                res@.len() == k,
                forall|i: int| 0 <= i < k ==> 0 < #[trigger] res@[i] < SCALE,
        {
            let mut v: i64 = self.normal_once(moy[k], stdev[k]);
            let mut tries: usize = 1;
            while (v <= 0 || v >= SCALE as i64) && tries < NORMAL_ATTEMPTS
                invariant
                    same_method_state(old(self), self),
                    moy@.len() == n,
                    stdev@.len() == n,
                    0 <= k < n,
                    forall|i: int| 0 <= i < n ==> moy@[i] <= SCALE,
                    forall|i: int| 0 <= i < n ==> stdev@[i] <= 2 * SCALE,
                    1 <= tries <= NORMAL_ATTEMPTS,
                decreases NORMAL_ATTEMPTS - tries,
            {
                v = self.normal_once(moy[k], stdev[k]);
                tries = tries + 1;
            }
            let g: u64 = if v <= 0 {
                1
            } else if v >= SCALE as i64 {
                SCALE - 1
            } else {
                v as u64
            };
            res.push(g);
        }
        res
    }
}

/// True when every cell of `cs` has a well-formed genome of length `glen`.
pub open spec fn cells_ok(cs: Seq<CellData>, glen: nat) -> bool {
    forall|i: int|
        0 <= i < cs.len() ==> (#[trigger] cs[i])@.genome.len() == glen && genome_wf(cs[i]@.genome)
}

impl DarwinMethod {
    /// The squared exploitation rate `(1 - ratio)^2`, used for crosses.
    fn squared_opti_rate(&self, exploration_ratio: u64) -> (r: u64)
        requires
            exploration_ratio <= SCALE,
        ensures
            r <= SCALE,
    {
        proof {
            assert((SCALE - exploration_ratio) * (SCALE - exploration_ratio) <= SCALE * SCALE
                && ((SCALE - exploration_ratio) * (SCALE - exploration_ratio)) / (SCALE as int)
                <= SCALE) by (nonlinear_arith)
                requires
                    0 <= SCALE - exploration_ratio <= SCALE,
            ;
        }
        (SCALE - exploration_ratio) * (SCALE - exploration_ratio) / SCALE
    }

    /// Appends one cross-child per adjacent elite pair: `elites.len() - 1`
    /// genomes, crossed score-proportionally and lightly mutated.
    fn generate_elite_childs(
        &mut self,
        elites: &Vec<CellData>,
        genvec: &mut Vec<Genome>,
        exploration_ratio: u64,
        genome_length: usize,
    )
        requires
            old(self).config.valid(),
            1 <= elites@.len(),
            cells_ok(elites@, genome_length as nat),
            exploration_ratio <= SCALE,
        ensures
            same_method_state(old(self), final(self)),
            final(genvec)@.len() == old(genvec)@.len() + elites@.len() - 1,
            forall|i: int|
                0 <= i < old(genvec)@.len() ==> final(genvec)@[i] == old(genvec)@[i],
            emitted_ok(final(genvec)@, old(genvec)@.len() as int, genome_length as nat),
    {
        let rate = self.squared_opti_rate(exploration_ratio);
        let n = elites.len();
        let last = n - 1;
        for i in 0..last
            invariant
                same_method_state(old(self), self),
                self.config.valid(),
                rate <= SCALE,
                elites@.len() == n,
                last == n - 1,
                cells_ok(elites@, genome_length as nat),
                genvec@.len() == old(genvec)@.len() + i,
                forall|j: int|
                    0 <= j < old(genvec)@.len() ==> genvec@[j] == old(genvec)@[j],
                emitted_ok(genvec@, old(genvec)@.len() as int, genome_length as nat),
        {
            let first = &elites[i];
            let second = &elites[i + 1];
            let mut child = self.give_birth(first, second, &BreedingMethod::ScoreBasedChoose);
            self.mutate_genome(&mut child, rate);
            genvec.push(child);
        }
    }

    /// Appends `size` direct mutations of randomly chosen elites.
    fn generate_elite_mutations(
        &mut self,
        elites: &Vec<CellData>,
        size: usize,
        genvec: &mut Vec<Genome>,
        exploration_ratio: u64,
        genome_length: usize,
    )
        requires
            old(self).config.valid(),
            1 <= elites@.len(),
            cells_ok(elites@, genome_length as nat),
            exploration_ratio <= SCALE,
        ensures
            same_method_state(old(self), final(self)),
            final(genvec)@.len() == old(genvec)@.len() + size,
            forall|i: int|
                0 <= i < old(genvec)@.len() ==> final(genvec)@[i] == old(genvec)@[i],
            emitted_ok(final(genvec)@, old(genvec)@.len() as int, genome_length as nat),
    {
        for i in 0..size
            invariant
                same_method_state(old(self), self),
                self.config.valid(),
                exploration_ratio <= SCALE,
                1 <= elites@.len(),
                cells_ok(elites@, genome_length as nat),
                genvec@.len() == old(genvec)@.len() + i,
                forall|j: int|
                    0 <= j < old(genvec)@.len() ==> genvec@[j] == old(genvec)@[j],
                emitted_ok(genvec@, old(genvec)@.len() as int, genome_length as nat),
        {
            let pick = self.rng.next_range(0, elites.len());
            let mut genome = clone_genome(&elites[pick].genome);
            self.mutate_genome_direct(&mut genome, SCALE - exploration_ratio);
            genvec.push(genome);
        }
    }

    /// Appends `size` cross-children whose parents are drawn from the two
    /// given index ranges of the sorted population.
    fn generate_childs(
        &mut self,
        cells: &Vec<CellData>,
        p1scope: (usize, usize),
        p2scope: (usize, usize),
        nb: usize,
        genvec: &mut Vec<Genome>,
        mutrat: u64,
        method: BreedingMethod,
        genome_length: usize,
    )
        requires
            old(self).config.valid(),
            cells_ok(cells@, genome_length as nat),
            p1scope.0 < p1scope.1 <= cells@.len(),
            p2scope.0 < p2scope.1 <= cells@.len(),
            mutrat <= SCALE,
        ensures
            same_method_state(old(self), final(self)),
            final(genvec)@.len() == old(genvec)@.len() + nb,
            forall|i: int|
                0 <= i < old(genvec)@.len() ==> final(genvec)@[i] == old(genvec)@[i],
            emitted_ok(final(genvec)@, old(genvec)@.len() as int, genome_length as nat),
    {
        for i in 0..nb
            invariant
                same_method_state(old(self), self),
                self.config.valid(),
                cells_ok(cells@, genome_length as nat),
                p1scope.0 < p1scope.1 <= cells@.len(),
                p2scope.0 < p2scope.1 <= cells@.len(),
                mutrat <= SCALE,
                genvec@.len() == old(genvec)@.len() + i,
                forall|j: int|
                    0 <= j < old(genvec)@.len() ==> genvec@[j] == old(genvec)@[j],
                emitted_ok(genvec@, old(genvec)@.len() as int, genome_length as nat),
        {
            let picks = self.choose_parents(p1scope, p2scope);
            let mut child = self.give_birth(&cells[picks.0], &cells[picks.1], &method);
            self.mutate_genome(&mut child, mutrat);
            genvec.push(child);
        }
    }

    /// Appends `size` draws from the per-gene truncated normal around the
    /// elite statistics.
    fn generate_norm_random_cells(
        &mut self,
        size: usize,
        mean_elites: &Vec<u64>,
        stddev_elites: &Vec<u64>,
        genvec: &mut Vec<Genome>,
        genome_length: usize,
    )
        requires
            mean_elites@.len() == genome_length,
            stddev_elites@.len() == genome_length,
            forall|i: int| 0 <= i < mean_elites@.len() ==> mean_elites@[i] <= SCALE,
            forall|i: int| 0 <= i < stddev_elites@.len() ==> stddev_elites@[i] <= 2 * SCALE,
        ensures
            same_method_state(old(self), final(self)),
            final(genvec)@.len() == old(genvec)@.len() + size,
            forall|i: int|
                0 <= i < old(genvec)@.len() ==> final(genvec)@[i] == old(genvec)@[i],
            emitted_ok(final(genvec)@, old(genvec)@.len() as int, genome_length as nat),
            forall|i: int|
                old(genvec)@.len() <= i < final(genvec)@.len() ==> genome_interior(
                    (#[trigger] final(genvec)@[i])@,
                ),
    {
        for i in 0..size
            invariant
                same_method_state(old(self), self),
                mean_elites@.len() == genome_length,
                stddev_elites@.len() == genome_length,
                forall|j: int| 0 <= j < mean_elites@.len() ==> mean_elites@[j] <= SCALE,
                forall|j: int| 0 <= j < stddev_elites@.len() ==> stddev_elites@[j] <= 2 * SCALE,
                genvec@.len() == old(genvec)@.len() + i,
                forall|j: int|
                    0 <= j < old(genvec)@.len() ==> genvec@[j] == old(genvec)@[j],
                emitted_ok(genvec@, old(genvec)@.len() as int, genome_length as nat),
                forall|j: int|
                    old(genvec)@.len() <= j < genvec@.len() ==> genome_interior(
                        (#[trigger] genvec@[j])@,
                    ),
        {
            let g = self.normal_random_vec(mean_elites, stddev_elites);
            genvec.push(g);
        }
    }

    /// Appends `size` uniform random genomes, every gene strictly below
    /// one.
    fn generate_random_cells(&mut self, size: usize, genvec: &mut Vec<Genome>, genome_length: usize)
        ensures
            same_method_state(old(self), final(self)),
            final(genvec)@.len() == old(genvec)@.len() + size,
            forall|i: int|
                0 <= i < old(genvec)@.len() ==> final(genvec)@[i] == old(genvec)@[i],
            emitted_ok(final(genvec)@, old(genvec)@.len() as int, genome_length as nat),
            forall|i: int|
                old(genvec)@.len() <= i < final(genvec)@.len() ==> genome_strict(
                    (#[trigger] final(genvec)@[i])@,
                ),
    {
        for i in 0..size
            invariant
                same_method_state(old(self), self),
                genvec@.len() == old(genvec)@.len() + i,
                forall|j: int|
                    0 <= j < old(genvec)@.len() ==> genvec@[j] == old(genvec)@[j],
                emitted_ok(genvec@, old(genvec)@.len() as int, genome_length as nat),
                forall|j: int|
                    old(genvec)@.len() <= j < genvec@.len() ==> genome_strict(
                        (#[trigger] genvec@[j])@,
                    ),
        {
            let g = random_genome(&mut self.rng, genome_length);
            genvec.push(g);
        }
    }
}

impl DarwinMethod {
    /// Emits the genomes of an initial population of `nb_cells` cells.
    ///
    /// An empty best genome gives a fully random population.  A best genome
    /// of the algo's length gives: the best genome itself, `nb_elites - 1`
    /// mutated copies of it, and random genomes for the rest.  A best
    /// genome of any other length is refused with a `CodeError`.
    pub fn init_population(
        &mut self,
        bestgen: &Genome,
        genome_length: usize,
        nb_cells: usize,
        nb_elites: usize,
        res: &mut Vec<Genome>,
    ) -> (r: Result<(), Errcode>)
        requires
            old(self).wf(),
            genome_wf(bestgen@),
            bestgen@.len() != 0 ==> 1 <= nb_cells,
            nb_elites <= nb_cells,
        ensures
            final(self).config == old(self).config,
            final(self).epoch_last_new_best == old(self).epoch_last_new_best,
            final(self).last_best_cell@ == old(self).last_best_cell@,
            r is Ok <==> (bestgen@.len() == 0 || bestgen@.len() == genome_length),
            r is Ok ==> final(res)@.len() == old(res)@.len() + nb_cells,
            r is Ok ==> forall|i: int|
                0 <= i < old(res)@.len() ==> final(res)@[i] == old(res)@[i],
            r is Ok ==> emitted_ok(final(res)@, old(res)@.len() as int, genome_length as nat),
            r is Ok && bestgen@.len() == genome_length && 1 <= nb_cells ==> final(res)@[old(
                res,
            )@.len() as int]@ == bestgen@,
            r is Err ==> final(res)@ == old(res)@,
            final(self).wf(),
            r is Ok ==> final(self).bestcell_avg.result@.len() == genome_length,
    {
        if self.bestcell_avg.result.len() != genome_length {
            self.bestcell_avg = MeanComputeVec::new(genome_length);
        }
        if bestgen.len() == 0 {
            self.generate_random_cells(nb_cells, res, genome_length);
            Ok(())
        } else if bestgen.len() != genome_length {
            Err(Errcode::CodeError("best genome length differs from the algo genome length"))
        } else {
            self.init_generate_population_from_bestgen(bestgen, nb_cells, nb_elites, res);
            Ok(())
        }
    }

    /// Emits the best genome, `nb_elites - 1` mutated copies of it, and
    /// uniform random genomes up to `nb_cells` in all.
    fn init_generate_population_from_bestgen(
        &mut self,
        bestgen: &Genome,
        nb_cells: usize,
        nb_elites: usize,
        genomes: &mut Vec<Genome>,
    )
        requires
            old(self).config.valid(),
            genome_wf(bestgen@),
            1 <= nb_cells,
            nb_elites <= nb_cells,
        ensures
            same_method_state(old(self), final(self)),
            final(genomes)@.len() == old(genomes)@.len() + nb_cells,
            forall|i: int|
                0 <= i < old(genomes)@.len() ==> final(genomes)@[i] == old(genomes)@[i],
            emitted_ok(final(genomes)@, old(genomes)@.len() as int, bestgen@.len()),
            final(genomes)@[old(genomes)@.len() as int]@ == bestgen@,
    {
        let glen = bestgen.len();
        let first = clone_genome(bestgen);
        genomes.push(first);
        if nb_elites >= 1 {
            let copies = nb_elites - 1;
            for i in 0..copies
                invariant
                    same_method_state(old(self), self),
                    self.config.valid(),
                    genome_wf(bestgen@),
                    glen == bestgen@.len(),
                    genomes@.len() == old(genomes)@.len() + 1 + i,
                    forall|j: int|
                        0 <= j < old(genomes)@.len() ==> genomes@[j] == old(genomes)@[j],
                    emitted_ok(genomes@, old(genomes)@.len() as int, bestgen@.len()),
                    genomes@[old(genomes)@.len() as int]@ == bestgen@,
            {
                let mut gen = clone_genome(bestgen);
                self.mutate_genome(&mut gen, INIT_MUTATION_RATE);
                genomes.push(gen);
            }
        }
        let have = if nb_elites >= 1 {
            nb_elites
        } else {
            1
        };
        self.generate_random_cells(nb_cells - have, genomes, glen);
    }

    /// Consumes the elites and the sorted population of one generation and
    /// emits exactly one genome per current cell: the rank-zero elite, the
    /// running best-genome mean, and the six buckets of crosses, mutations
    /// and fresh draws.
    ///
    /// The first emitted genome is the rank-zero elite itself: the best
    /// individual is always carried through unchanged.
    pub fn process_results(
        &mut self,
        elites: &Vec<CellData>,
        cells: &Vec<CellData>,
        genome_length: usize,
        genomes: &mut Vec<Genome>,
    ) -> (r: Result<(), Errcode>)
        requires
            old(self).wf(),
            1 <= elites@.len(),
            elites@.len() + 1 <= cells@.len(),
            cells@.len() <= POP_LIMIT,
            cells_ok(cells@, genome_length as nat),
            cells_ok(elites@, genome_length as nat),
        ensures
            final(self).wf(),
            final(self).config == old(self).config,
            final(self).last_best_cell@ == cells@[0]@.genome,
            old(self).last_best_cell@.len() > 0 && old(self).last_best_cell@ != cells@[0]@.genome
                ==> final(self).epoch_last_new_best == 0,
            old(self).last_best_cell@.len() == 0 || old(self).last_best_cell@
                == cells@[0]@.genome ==> final(self).epoch_last_new_best == (if old(
                self,
            ).epoch_last_new_best < u32::MAX {
                old(self).epoch_last_new_best + 1
            } else {
                u32::MAX as int
            }),
            r is Ok ==> final(genomes)@.len() == old(genomes)@.len() + cells@.len(),
            r is Ok ==> forall|i: int|
                0 <= i < old(genomes)@.len() ==> final(genomes)@[i] == old(genomes)@[i],
            r is Ok ==> emitted_ok(
                final(genomes)@,
                old(genomes)@.len() as int,
                genome_length as nat,
            ),
            r is Ok ==> final(genomes)@[old(genomes)@.len() as int]@ == elites@[0]@.genome,
            r is Ok ==> final(genomes)@[old(genomes)@.len() as int + 1]@
                == final(self).bestcell_avg.result@,
            spec_absorbed(*old(self), *final(self), cells@[0]@.genome, genome_length as nat),
            darwin_scores_ok(elites@, cells@) ==> r is Ok,
            r is Ok ==> (exists|ratio: u64|
                MIN_EXPLO <= ratio <= MAX_EXPLO && #[trigger] spec_tail_buckets_ok(
                    final(genomes)@,
                    old(genomes)@.len() as int,
                    elites@.len() as int,
                    ratio as int,
                    cells@.len() - 2,
                )),
            r is Err ==> final(genomes)@ == old(genomes)@,
    {
        if self.bestcell_avg.result.len() != genome_length {
            self.bestcell_avg = MeanComputeVec::new(genome_length);
        }
        proof {
            assert(self.bestcell_avg.result@ =~= (if old(self).bestcell_avg.result@.len()
                == genome_length {
                old(self).bestcell_avg.result@
            } else {
                Seq::new(genome_length as nat, |i: int| 0u64)
            }));
        }
        let best_changed: bool = self.last_best_cell.len() > 0 && !genomes_equal(
            &cells[0].genome,
            &self.last_best_cell,
        );
        if best_changed {
            self.epoch_last_new_best = 0;
            if self.bestcell_avg.sumweights <= SUMW_LIMIT - (SCALE as u128) {
                self.bestcell_avg.add_el(&cells[0].genome, SCALE);
            }
            self.last_best_cell = clone_genome(&cells[0].genome);
        } else {
            if self.epoch_last_new_best < u32::MAX {
                self.epoch_last_new_best = self.epoch_last_new_best + 1;
            }
        }
        if self.last_best_cell.len() == 0 {
            self.last_best_cell = clone_genome(&cells[0].genome);
        }
        proof {
            assert(spec_absorbed(*old(self), *self, cells@[0]@.genome, genome_length as nat));
        }
        let exploration_ratio: u64 = self.pick_exploration_ratio();
        let ghost snap: DarwinMethod = *self;
        proof {
            assert(snap.wf());
            assert(snap.config == old(self).config);
            assert(spec_absorbed(*old(self), snap, cells@[0]@.genome, genome_length as nat));
        }

        let nelites = elites.len();
        let mut mean_elite = MeanComputeVec::new(genome_length);
        let bestscore: u64 = cells[0].score;
        for k in 0..nelites
            invariant
                elites@.len() == nelites,
                nelites <= POP_LIMIT,
                cells_ok(elites@, genome_length as nat),
                mean_elite.wf(),
                mean_elite.result@.len() == genome_length,
                forall|i: int| 0 <= i < mean_elite.result@.len() ==> mean_elite.result@[i] <= SCALE,
                mean_elite.sumweights <= k * WEIGHT_LIMIT,
                bestscore == cells@[0]@.score,
                *self == snap,
                snap.wf(),
                snap.config == old(self).config,
                spec_absorbed(*old(self), snap, cells@[0]@.genome, genome_length as nat),
                self.last_best_cell@ == cells@[0]@.genome,
                (old(self).last_best_cell@.len() > 0 && old(self).last_best_cell@
                    != cells@[0]@.genome) ==> self.epoch_last_new_best == 0,
                (old(self).last_best_cell@.len() == 0 || old(self).last_best_cell@
                    == cells@[0]@.genome) ==> self.epoch_last_new_best == (if old(
                    self,
                ).epoch_last_new_best < u32::MAX {
                    old(self).epoch_last_new_best + 1
                } else {
                    u32::MAX as int
                }),
        {
            let w = match transform_score(bestscore, elites[k].score) {
                Ok(w) => w,
                Err(e) => {
                    return Err(e);
                },
            };
            proof {
                assert(k * WEIGHT_LIMIT + WEIGHT_LIMIT <= POP_LIMIT * WEIGHT_LIMIT)
                    by (nonlinear_arith)
                    requires
                        0 <= k,
                        k + 1 <= POP_LIMIT,
                ;
            }
            mean_elite.add_el(&elites[k].genome, w);
        }

        let mean_copy = clone_genome(&mean_elite.result);
        let mut std_elite = StddevComputeVec::new(mean_copy);
        for k in 0..nelites
            invariant
                elites@.len() == nelites,
                nelites <= POP_LIMIT,
                cells_ok(elites@, genome_length as nat),
                std_elite.wf(),
                std_elite.mean@.len() == genome_length,
                std_elite.result@.len() == genome_length,
                std_elite.count == k,
                *self == snap,
                snap.wf(),
                snap.config == old(self).config,
                spec_absorbed(*old(self), snap, cells@[0]@.genome, genome_length as nat),
                self.last_best_cell@ == cells@[0]@.genome,
                (old(self).last_best_cell@.len() > 0 && old(self).last_best_cell@
                    != cells@[0]@.genome) ==> self.epoch_last_new_best == 0,
                (old(self).last_best_cell@.len() == 0 || old(self).last_best_cell@
                    == cells@[0]@.genome) ==> self.epoch_last_new_best == (if old(
                    self,
                ).epoch_last_new_best < u32::MAX {
                    old(self).epoch_last_new_best + 1
                } else {
                    u32::MAX as int
                }),
        {
            std_elite.add_el(&elites[k].genome);
        }

        let parts = self.compute_population_parts_sizes(nelites, exploration_ratio, cells.len()
            - 2);

        let carry = clone_genome(&elites[0].genome);
        genomes.push(carry);
        let avg_slot = clone_genome(&self.bestcell_avg.result);
        genomes.push(avg_slot);
        self.generate_elite_childs(elites, genomes, exploration_ratio, genome_length);
        self.generate_elite_mutations(elites, parts[1], genomes, exploration_ratio, genome_length);
        let opti_rate = self.squared_opti_rate(exploration_ratio);
        self.generate_childs(
            cells,
            (0, nelites),
            (nelites, cells.len()),
            parts[2],
            genomes,
            opti_rate,
            BreedingMethod::ScoreBasedAverage,
            genome_length,
        );
        self.generate_childs(
            cells,
            (nelites, cells.len()),
            (nelites, cells.len()),
            parts[3],
            genomes,
            SCALE - exploration_ratio,
            BreedingMethod::ScoreBasedChoose,
            genome_length,
        );
        self.generate_norm_random_cells(
            parts[4],
            &mean_elite.result,
            &std_elite.result,
            genomes,
            genome_length,
        );
        self.generate_random_cells(parts[5], genomes, genome_length);
        proof {
            assert(MIN_EXPLO <= exploration_ratio <= MAX_EXPLO);
            assert(spec_tail_buckets_ok(
                genomes@,
                old(genomes)@.len() as int,
                elites@.len() as int,
                exploration_ratio as int,
                cells@.len() - 2,
            ));
        }
        Ok(())
    }

    /// Draws this generation's exploration ratio, in
    /// `[MIN_EXPLO, MAX_EXPLO]`: the longer the best genome has stalled,
    /// the higher the ratio may reach.
    fn pick_exploration_ratio(&mut self) -> (r: u64)
        requires
            old(self).config.valid(),
        ensures
            same_method_state(old(self), final(self)),
            MIN_EXPLO <= r <= MAX_EXPLO,
    {
        let epoch_max: u64 = self.config.exploration_scope_epoch_max as u64;
        let denom: u64 = epoch_max + (self.epoch_last_new_best as u64);
        proof {
            assert((epoch_max * SCALE) / (denom as int) <= SCALE) by (nonlinear_arith)
                requires
                    1 <= epoch_max <= denom,
                    SCALE > 0,
            ;
        }
        let max_ratio: u64 = epoch_max * SCALE / denom;
        let u: u64 = self.rng.next_unit();
        proof {
            assert(max_ratio * u <= SCALE * SCALE && (max_ratio * u) / (SCALE as int) <= SCALE)
                by (nonlinear_arith)
                requires
                    0 <= max_ratio <= SCALE,
                    0 <= u <= SCALE,
            ;
        }
        let t: u64 = max_ratio * u / SCALE;
        proof {
            assert(t * (MAX_EXPLO - MIN_EXPLO) <= SCALE * (MAX_EXPLO - MIN_EXPLO) && (t * (
            MAX_EXPLO - MIN_EXPLO)) / (SCALE as int) <= MAX_EXPLO - MIN_EXPLO) by (nonlinear_arith)
                requires
                    0 <= t <= SCALE,
            ;
        }
        MIN_EXPLO + t * (MAX_EXPLO - MIN_EXPLO) / SCALE
    }
}

/// A score-weighted mean of two genes stays within the unit interval.
proof fn lemma_weighted_pair_bound(g1: int, g2: int, s1: int, s2: int)
    requires
        0 <= g1 <= SCALE,
        0 <= g2 <= SCALE,
        0 <= s1,
        0 <= s2,
        s1 + s2 > 0,
    ensures
        0 <= (g1 * s1 + g2 * s2) / (s1 + s2) <= SCALE,
{
    assert(0 <= (g1 * s1 + g2 * s2) / (s1 + s2) <= SCALE) by (nonlinear_arith)
        requires
            0 <= g1 <= SCALE,
            0 <= g2 <= SCALE,
            0 <= s1,
            0 <= s2,
            s1 + s2 > 0,
    ;
}

/// The offset of a normal sample is at most thirteen units when the spread
/// is at most two and the centred draw at most six.
proof fn lemma_spread_bound(s: int, z: int)
    requires
        0 <= s <= 2 * SCALE,
        0 <= z <= 6 * SCALE,
    ensures
        0 <= (s * z) / (SCALE as int) <= 12 * SCALE,
{
    assert(0 <= (s * z) / (SCALE as int) <= 12 * SCALE) by (nonlinear_arith)
        requires
            0 <= s <= 2 * SCALE,
            0 <= z <= 6 * SCALE,
    ;
}

} // verus!
