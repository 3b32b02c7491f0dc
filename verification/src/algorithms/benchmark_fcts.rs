//! Benchmark fitness landscapes over the unit genome cube.
//!
//! An evaluator maps each gene through the affine bijection between the
//! unit interval and its scope `(lo, hi)`, and scores the resulting point.
//! Coordinates are fixed-point reals scaled by [`SCALE`]; a scope is a pair
//! of plain integers with `lo < hi`.

use crate::cell::{genome_wf, CellData, Genome};
use crate::fixed::SCALE;
use vstd::prelude::*;

verus! {

/// The affine interval evaluators map genes into: `(lo, hi)` in plain,
/// unscaled units.
pub type FctScope = (i64, i64);

/// Largest scope bound an evaluator accepts, in plain units.
pub const SCOPE_LIMIT: i64 = 1000;

/// True when a scope is ordered and within the supported bounds.
pub open spec fn scope_wf(scope: FctScope) -> bool {
    -SCOPE_LIMIT <= scope.0 < scope.1 <= SCOPE_LIMIT
}

/// The coordinate a gene stands for under `scope`, scaled by [`SCALE`]:
/// `lo + (hi - lo) * gene`.
pub open spec fn spec_coord_of_gene(scope: FctScope, gene: int) -> int {
    scope.0 * SCALE + (scope.1 - scope.0) * gene
}

/// Maps a gene to its coordinate under `scope`: the affine bijection
/// `lo + (hi - lo) * g` of the real interval, exactly, in fixed point.
pub fn coordinates_from_gene(scope: FctScope, gene: u64) -> (r: i64)
    requires
        scope_wf(scope),
        gene <= SCALE,
    ensures
        r == spec_coord_of_gene(scope, gene as int),
        scope.0 * SCALE <= r <= scope.1 * SCALE,
{
    proof {
        lemma_coord_bounds(scope, gene as int);
    }
    scope.0 * (SCALE as i64) + (scope.1 - scope.0) * (gene as i64)
}

/// The gene a coordinate stands for under `scope`:
/// `(c - lo) / (hi - lo)`, floored onto the fixed-point grid.
pub open spec fn spec_gene_of_coord(scope: FctScope, coordinate: int) -> int {
    (coordinate - scope.0 * SCALE) / (scope.1 - scope.0)
}

/// Maps a coordinate back to a gene under `scope`: the inverse affine map
/// `(c - lo) / (hi - lo)`, floored onto the fixed-point grid.
pub fn coordinates_to_gene(scope: FctScope, coordinate: i64) -> (r: u64)
    requires
        scope_wf(scope),
        scope.0 * SCALE <= coordinate <= scope.1 * SCALE,
    ensures
        r == spec_gene_of_coord(scope, coordinate as int),
        r <= SCALE,
{
    let num: i64 = coordinate - scope.0 * (SCALE as i64);
    let den: i64 = scope.1 - scope.0;
    proof {
        assert(num <= den * SCALE && 0 <= num / den <= SCALE) by (nonlinear_arith)
            requires
                0 <= num,
                num == coordinate - scope.0 * SCALE,
                coordinate <= scope.1 * SCALE,
                den == scope.1 - scope.0,
                den >= 1,
                SCALE > 0,
        ;
    }
    (num / den) as u64
}

/// Mapping a gene to its coordinate and back returns the gene unchanged:
/// the two affine maps are mutually inverse on the fixed-point grid.
pub proof fn lemma_coordinate_round_trip(scope: FctScope, gene: int)
    requires
        scope_wf(scope),
        0 <= gene <= SCALE,
    ensures
        spec_gene_of_coord(scope, spec_coord_of_gene(scope, gene)) == gene,
{
    let den = scope.1 - scope.0;
    assert((den * gene) / den == gene) by (nonlinear_arith)
        requires
            den >= 1,
    ;
}

/// A gene's coordinate lies within the scope.
proof fn lemma_coord_bounds(scope: FctScope, gene: int)
    requires
        scope_wf(scope),
        0 <= gene <= SCALE,
    ensures
        scope.0 * SCALE <= spec_coord_of_gene(scope, gene) <= scope.1 * SCALE,
{
    assert(0 <= (scope.1 - scope.0) * gene <= (scope.1 - scope.0) * SCALE) by (nonlinear_arith)
        requires
            scope.1 - scope.0 >= 1,
            0 <= gene <= SCALE,
    ;
}

/// The squared coordinate of a gene, scaled by [`SCALE`].
pub open spec fn spec_sq_coord(scope: FctScope, gene: int) -> int {
    let c = spec_coord_of_gene(scope, gene);
    (c * c) / (SCALE as int)
}

/// The Spherical score of a genome under `scope`: the sum over its genes
/// of the squared coordinate, scaled by [`SCALE`].
pub open spec fn spec_spherical_calc(scope: FctScope, genes: Seq<u64>) -> int
    decreases genes.len(),
{
    if genes.len() == 0 {
        0
    } else {
        spec_spherical_calc(scope, genes.drop_last()) + spec_sq_coord(
            scope,
            genes.last() as int,
        )
    }
}

/// Largest value one squared coordinate can take, scaled by [`SCALE`].
pub const SQ_COORD_LIMIT: u64 = 1_000_000_000_000_000;

/// A squared coordinate is non-negative and bounded by the scope limit.
proof fn lemma_sq_coord_bounds(scope: FctScope, gene: int)
    requires
        scope_wf(scope),
        0 <= gene <= SCALE,
    ensures
        0 <= spec_sq_coord(scope, gene) <= SQ_COORD_LIMIT,
{
    lemma_coord_bounds(scope, gene);
    let c = spec_coord_of_gene(scope, gene);
    assert(c * c <= (SCOPE_LIMIT * SCALE) * (SCOPE_LIMIT * SCALE) && c * c >= 0)
        by (nonlinear_arith)
        requires
            -SCOPE_LIMIT * SCALE <= c <= SCOPE_LIMIT * SCALE,
    ;
    assert(0 <= (c * c) / (SCALE as int) <= SQ_COORD_LIMIT) by (nonlinear_arith)
        requires
            0 <= c * c <= (SCOPE_LIMIT * SCALE) * (SCOPE_LIMIT * SCALE),
            SCALE > 0,
    ;
}

/// The Spherical benchmark function: the sum of the squared coordinates,
/// minimal at the origin.
#[derive(Clone, Copy, Debug)]
pub struct SphericalFct {
    /// The affine interval genes are mapped into.
    pub scope: FctScope,
}

impl SphericalFct {
    /// A Spherical evaluator over the stock scope `(-5, 5)`.
    pub fn new() -> (r: SphericalFct)
        ensures
            r == (SphericalFct { scope: ((-5) as i64, 5 as i64) }),
            scope_wf(r.scope),
    {
        SphericalFct { scope: (-5, 5) }
    }

    /// Evaluates the genome: the sum over its genes of the squared
    /// coordinate, exactly as [`spec_spherical_calc`] states it.
    pub fn calc(&self, inputs: &Genome) -> (r: u64)
        requires
            scope_wf(self.scope),
            genome_wf(inputs@),
            inputs@.len() <= 255,
        ensures
            r == spec_spherical_calc(self.scope, inputs@),
    {
        let n = inputs.len();
        let mut acc: u64 = 0;
        for k in 0..n
            invariant
                scope_wf(self.scope),
                genome_wf(inputs@),
                inputs@.len() == n <= 255,
                acc == spec_spherical_calc(self.scope, inputs@.subrange(0, k as int)),
                acc <= k * SQ_COORD_LIMIT,
        {
            let c: i64 = coordinates_from_gene(self.scope, inputs[k]);
            proof {
                lemma_sq_coord_bounds(self.scope, inputs@[k as int] as int);
                assert(c * c >= 0) by (nonlinear_arith);
                assert(inputs@.subrange(0, k as int + 1).drop_last() =~= inputs@.subrange(
                    0,
                    k as int,
                ));
                assert(inputs@.subrange(0, k as int + 1).last() == inputs@[k as int]);
            }
            let sq: u64 = (((c as i128) * (c as i128)) / (SCALE as i128)) as u64;
            acc = acc + sq;
        }
        proof {
            assert(inputs@.subrange(0, n as int) =~= inputs@);
        }
        acc
    }

    /// Installs a new scope.
    pub fn set_scope(&mut self, scope: FctScope)
        requires
            scope_wf(scope),
        ensures
            final(self).scope == scope,
    {
        self.scope = scope;
    }
}

/// A benchmark evaluator, dispatched as a tagged variant; `Nofct` marks an
/// algo whose evaluator has not been chosen yet.
#[derive(Clone, Copy, Debug)]
pub enum BenchmarkFct {
    /// No evaluator chosen yet.
    Nofct,
    /// The Spherical function.
    Spherical(SphericalFct),
}

impl BenchmarkFct {
    /// True when the evaluator's scope, if any, is well formed.
    pub open spec fn wf(&self) -> bool {
        match self {
            BenchmarkFct::Nofct => true,
            BenchmarkFct::Spherical(f) => scope_wf(f.scope),
        }
    }

    /// The score this evaluator gives a genome; an unset evaluator scores
    /// everything zero.
    pub open spec fn spec_calc(&self, genes: Seq<u64>) -> int {
        match self {
            BenchmarkFct::Nofct => 0,
            BenchmarkFct::Spherical(f) => spec_spherical_calc(f.scope, genes),
        }
    }

    /// Evaluates the genome under this evaluator.
    pub fn calc(&self, data: &Genome) -> (r: u64)
        requires
            self.wf(),
            genome_wf(data@),
            data@.len() <= 255,
        ensures
            r == self.spec_calc(data@),
    {
        match self {
            BenchmarkFct::Nofct => 0,
            BenchmarkFct::Spherical(f) => f.calc(data),
        }
    }

    /// The smallest score this evaluator can report.
    pub fn get_minimum(&self) -> (r: u64)
        ensures
            r == 0,
    {
        0
    }

    /// Installs a new scope on the evaluator, if one is set.
    pub fn set_scope(&mut self, scope: FctScope)
        requires
            scope_wf(scope),
        ensures
            *old(self) is Nofct ==> *final(self) == *old(self),
            *old(self) is Spherical ==> *final(self) == BenchmarkFct::Spherical(
                SphericalFct { scope },
            ),
            final(self).wf(),
    {
        match self {
            BenchmarkFct::Nofct => {
            },
            BenchmarkFct::Spherical(f) => {
                f.set_scope(scope);
            },
        }
    }
}

/// An algo that scores each cell with a benchmark evaluator.
#[derive(Clone, Copy, Debug)]
pub struct BenchmarkAlgo {
    /// The evaluator scoring this algo's cells.
    pub math_fct: BenchmarkFct,
    /// The number of genes the evaluator reads.
    pub fct_dimension: u8,
}

/// The evaluator `f` with its scope replaced, where it has one.
pub open spec fn spec_fct_with_scope(f: BenchmarkFct, scope: FctScope) -> BenchmarkFct {
    match f {
        BenchmarkFct::Nofct => BenchmarkFct::Nofct,
        BenchmarkFct::Spherical(_) => BenchmarkFct::Spherical(SphericalFct { scope }),
    }
}

impl BenchmarkAlgo {
    /// True when the evaluator's scope, if any, is well formed.
    pub open spec fn wf(&self) -> bool {
        self.math_fct.wf()
    }

    /// A fresh benchmark algo with no evaluator chosen and dimension zero.
    pub fn new() -> (r: BenchmarkAlgo)
        ensures
            r.math_fct is Nofct,
            r.fct_dimension == 0,
            r.wf(),
    {
        BenchmarkAlgo { math_fct: BenchmarkFct::Nofct, fct_dimension: 0 }
    }

    /// The number of genes this algo's cells carry.
    pub fn get_genome_length(&self) -> (r: usize)
        ensures
            r == self.fct_dimension as usize,
    {
        self.fct_dimension as usize
    }

    /// Wraps a genome into a fresh cell with score zero.
    pub fn create_cell_from_genome(&self, genome: &Genome) -> (r: CellData)
        ensures
            r@.genome == genome@,
            r@.score == 0,
            r@.version == 1,
    {
        CellData { genome: crate::cell::clone_genome(genome), score: 0, version: 1 }
    }
}

/// The evaluator a name designates.
pub open spec fn spec_fct_by_name(name: Seq<char>) -> Option<BenchmarkFct> {
    if name == "spherical"@ {
        Some(BenchmarkFct::Spherical(SphericalFct { scope: ((-5) as i64, 5 as i64) }))
    } else {
        None
    }
}

/// Resolves a benchmark function name; an unknown name is refused.
pub fn get_fct_by_name(name: &String) -> (r: Result<BenchmarkFct, &'static str>)
    ensures
        r matches Ok(f) ==> spec_fct_by_name(name@) == Some(f) && f.wf(),
        r is Err <==> spec_fct_by_name(name@) is None,
{
    let spherical: String = "spherical".to_owned();
    if name.eq(&spherical) {
        Ok(BenchmarkFct::Spherical(SphericalFct::new()))
    } else {
        Err("Benchmark function not found")
    }
}

} // verus!
