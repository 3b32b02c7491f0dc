//! The built-in algos and their typed side channel.
//!
//! An algo owns the fitness context of its cell population: it scores the
//! cells on each data record and answers typed side-channel messages.  The
//! built-in algos are dispatched as a tagged variant.

pub mod algo_test;
pub mod benchmark_fcts;

use crate::cell::{genome_wf, CellData, Genome};
use crate::dataset::GenalgoData;
use algo_test::{TestAlgo, TEST_GENOME_LENGTH};
use benchmark_fcts::{
    scope_wf, spec_fct_by_name, spec_fct_with_scope, spec_gene_of_coord, BenchmarkAlgo,
    BenchmarkFct, FctScope,
};
use vstd::prelude::*;

verus! {

/// The mathematical value of a side-channel update message.
pub struct SpecialDataView {
    pub scope: Option<FctScope>,
    pub mathfct: Option<Seq<char>>,
    pub nb_dimensions: Option<u8>,
}

/// A typed side-channel update: each present field changes one aspect of
/// the receiving algo.
#[derive(Debug)]
pub struct SpecialData {
    /// A new scope for the algo's evaluator.
    pub scope: Option<FctScope>,
    /// The name of a new evaluator, resolved through
    /// [`benchmark_fcts::get_fct_by_name`].
    pub mathfct: Option<String>,
    /// A new genome dimension.
    pub nb_dimensions: Option<u8>,
}

impl View for SpecialData {
    type V = SpecialDataView;

    open spec fn view(&self) -> SpecialDataView {
        SpecialDataView {
            scope: self.scope,
            mathfct: match self.mathfct {
                Option::None => Option::None,
                Option::Some(ref s) => Option::Some(s@),
            },
            nb_dimensions: self.nb_dimensions,
        }
    }
}

/// A typed side-channel query.
#[derive(Clone, Copy, Debug)]
pub enum SpecialQuery {
    /// Asks for the genome at which the algo's evaluator is optimal, under
    /// the given scope.
    ExpectedOptimum {
        /// The scope the optimum is asked under.
        scope: Option<FctScope>,
    },
}

/// True when a benchmark algo accepts the update message: a new scope must
/// be well formed and a new evaluator name must be known.
pub open spec fn spec_recv_ok(m: SpecialDataView) -> bool {
    &&& (m.scope matches Some(s) ==> scope_wf(s))
    &&& (m.mathfct matches Some(n) ==> spec_fct_by_name(n) is Some)
}

/// The state of a benchmark algo after accepting the update message: the
/// scope change applies to the current evaluator, then a named evaluator
/// replaces it whole, then the dimension changes.
pub open spec fn spec_recv_state(b: BenchmarkAlgo, m: SpecialDataView) -> BenchmarkAlgo {
    let b1 = match m.scope {
        Option::Some(s) => BenchmarkAlgo {
            math_fct: spec_fct_with_scope(b.math_fct, s),
            ..b
        },
        Option::None => b,
    };
    let b2 = match m.mathfct {
        Option::Some(n) => match spec_fct_by_name(n) {
            Option::Some(f) => BenchmarkAlgo { math_fct: f, ..b1 },
            Option::None => b1,
        },
        Option::None => b1,
    };
    match m.nb_dimensions {
        Option::Some(d) => BenchmarkAlgo { fct_dimension: d, ..b2 },
        Option::None => b2,
    }
}

/// Accepting the same update message twice leaves the same state as
/// accepting it once.
pub proof fn lemma_recv_special_data_idempotent(b: BenchmarkAlgo, m: SpecialDataView)
    requires
        spec_recv_ok(m),
    ensures
        spec_recv_state(spec_recv_state(b, m), m) == spec_recv_state(b, m),
{
}

/// A built-in algo, dispatched as a tagged variant.
#[derive(Clone, Copy, Debug)]
pub enum AlgoAvailable {
    /// The trivial test algo.
    TestAlgo(TestAlgo),
    /// The benchmark algo.
    BenchmarkAlgo(BenchmarkAlgo),
}

/// The genome length of an algo's cell type.
pub open spec fn spec_genome_length(a: AlgoAvailable) -> int {
    match a {
        AlgoAvailable::TestAlgo(_) => TEST_GENOME_LENGTH as int,
        AlgoAvailable::BenchmarkAlgo(b) => b.fct_dimension as int,
    }
}

/// The score an algo's action gives a cell holding `genes` whose score was
/// `old_score`: the test algo and an unset evaluator leave it untouched.
pub open spec fn spec_action_score(a: AlgoAvailable, genes: Seq<u64>, old_score: u64) -> int {
    match a {
        AlgoAvailable::TestAlgo(_) => old_score as int,
        AlgoAvailable::BenchmarkAlgo(b) => if b.math_fct is Nofct {
            old_score as int
        } else {
            b.math_fct.spec_calc(genes)
        },
    }
}

impl AlgoAvailable {
    /// True when the algo's fitness context is well formed.
    pub open spec fn wf(&self) -> bool {
        match self {
            AlgoAvailable::TestAlgo(_) => true,
            AlgoAvailable::BenchmarkAlgo(b) => b.wf(),
        }
    }

    /// The number of genes this algo's cells carry.
    pub fn genome_length(&self) -> (r: usize)
        ensures
            r == spec_genome_length(*self),
            r <= 255,
    {
        match self {
            AlgoAvailable::TestAlgo(a) => a.get_genome_length(),
            AlgoAvailable::BenchmarkAlgo(b) => b.get_genome_length(),
        }
    }

    /// Wraps a genome into a fresh cell with score zero.
    pub fn create_cell_from_genome(&self, genome: &Genome) -> (r: CellData)
        ensures
            r@.genome == genome@,
            r@.score == 0,
            r@.version == 1,
    {
        match self {
            AlgoAvailable::TestAlgo(a) => a.create_cell_from_genome(genome),
            AlgoAvailable::BenchmarkAlgo(b) => b.create_cell_from_genome(genome),
        }
    }

    /// One-shot per-run setup.  The built-in algos pass their fitness
    /// context into each scoring call instead of stamping it into cells,
    /// so there is nothing to install.
    pub fn initialize_cells(&mut self, pop: &mut Vec<CellData>)
        ensures
            *final(self) == *old(self),
            final(pop)@ == old(pop)@,
    {
    }

    /// Scores every cell on one data record: each cell's score becomes
    /// [`spec_action_score`] of its genome; genomes and versions are
    /// untouched and the population is not resized.
    pub fn process_data(&mut self, pop: &mut Vec<CellData>, _data: &GenalgoData)
        requires
            old(self).wf(),
            forall|i: int|
                0 <= i < old(pop)@.len() ==> genome_wf((#[trigger] old(pop)@[i])@.genome) && old(
                    pop,
                )@[i]@.genome.len() == spec_genome_length(*old(self)),
        ensures
            *final(self) == *old(self),
            final(pop)@.len() == old(pop)@.len(),
            forall|i: int|
                0 <= i < old(pop)@.len() ==> (#[trigger] final(pop)@[i])@.genome
                    == old(pop)@[i]@.genome && final(pop)@[i]@.version == old(pop)@[i]@.version,
            forall|i: int|
                0 <= i < old(pop)@.len() ==> (#[trigger] final(pop)@[i])@.score
                    == spec_action_score(*old(self), old(pop)@[i]@.genome, old(pop)@[i]@.score),
    {
        match self {
            AlgoAvailable::TestAlgo(_) => {
            },
            AlgoAvailable::BenchmarkAlgo(b) => {
                match b.math_fct {
                    BenchmarkFct::Nofct => {
                    },
                    _ => {
                        let n = pop.len();
                        for k in 0..n
                            invariant
                                b.wf(),
                                !(b.math_fct is Nofct),
                                pop@.len() == n,
                                forall|i: int|
                                    0 <= i < n ==> genome_wf(
                                        (#[trigger] old(pop)@[i])@.genome,
                                    ) && old(pop)@[i]@.genome.len() == b.fct_dimension as int,
                                forall|i: int|
                                    k <= i < n ==> (#[trigger] pop@[i])@ == old(pop)@[i]@,
                                forall|i: int|
                                    0 <= i < k ==> (#[trigger] pop@[i])@.genome
                                        == old(pop)@[i]@.genome && pop@[i]@.version == old(
                                        pop,
                                    )@[i]@.version,
                                forall|i: int|
                                    0 <= i < k ==> (#[trigger] pop@[i])@.score
                                        == b.math_fct.spec_calc(old(pop)@[i]@.genome),
                        {
                            let score = b.math_fct.calc(&pop[k].genome);
                            let cell = &mut pop[k];
                            cell.score = score;
                        }
                    },
                }
            },
        }
    }

    /// Applies a typed side-channel update.
    ///
    /// The benchmark algo accepts the message exactly when
    /// [`spec_recv_ok`] holds of it, and then moves to
    /// [`spec_recv_state`]; a refused message leaves the algo untouched.
    /// The test algo ignores every message.  Accepting the same message
    /// twice leaves the same state as accepting it once.
    pub fn recv_special_data(&mut self, data: &SpecialData) -> (r: Result<(), String>)
        ensures
            *old(self) is TestAlgo ==> r is Ok && *final(self) == *old(self),
            *old(self) matches AlgoAvailable::BenchmarkAlgo(b) ==> {
                &&& (r is Ok <==> spec_recv_ok(data@))
                &&& (r is Ok ==> *final(self) == AlgoAvailable::BenchmarkAlgo(
                    spec_recv_state(b, data@),
                ))
                &&& (r is Err ==> *final(self) == *old(self))
            },
            old(self).wf() ==> final(self).wf(),
    {
        match self {
            AlgoAvailable::TestAlgo(_) => Ok(()),
            AlgoAvailable::BenchmarkAlgo(b) => {
                let new_fct: Option<BenchmarkFct> = match &data.mathfct {
                    Option::Some(name) => match benchmark_fcts::get_fct_by_name(name) {
                        Ok(f) => Option::Some(f),
                        Err(_) => {
                            return Err("benchmark function not found".to_owned());
                        },
                    },
                    Option::None => Option::None,
                };
                if let Option::Some(s) = data.scope {
                    if !(-benchmark_fcts::SCOPE_LIMIT <= s.0 && s.0 < s.1 && s.1
                        <= benchmark_fcts::SCOPE_LIMIT) {
                        return Err("scope out of range".to_owned());
                    }
                    b.math_fct.set_scope(s);
                }
                if let Option::Some(f) = new_fct {
                    b.math_fct = f;
                }
                if let Option::Some(d) = data.nb_dimensions {
                    b.fct_dimension = d;
                }
                Ok(())
            },
        }
    }

    /// Answers a typed side-channel query.
    ///
    /// The benchmark algo answers `ExpectedOptimum` with one gene per
    /// dimension, each the gene of coordinate zero under the queried
    /// scope; the query is refused without a scope, with a scope that is
    /// out of range or does not contain zero, or before an evaluator is
    /// chosen.  The test algo answers nothing.
    pub fn send_special_data(&self, params: &SpecialQuery) -> (r: Result<Genome, String>)
        ensures
            *self is TestAlgo ==> r is Err,
            *self matches AlgoAvailable::BenchmarkAlgo(b) ==> match *params {
                SpecialQuery::ExpectedOptimum { scope } => {
                    &&& (r is Ok <==> (scope matches Some(s) && scope_wf(s) && s.0 <= 0 <= s.1
                        && !(b.math_fct is Nofct)))
                    &&& (r matches Ok(g) ==> scope matches Some(s) && g@.len() == b.fct_dimension
                        && (forall|i: int|
                        0 <= i < g@.len() ==> g@[i] == spec_gene_of_coord(s, 0)))
                },
            },
    {
        match self {
            AlgoAvailable::TestAlgo(_) => Err("no special data on this algo".to_owned()),
            AlgoAvailable::BenchmarkAlgo(b) => {
                match params {
                    SpecialQuery::ExpectedOptimum { scope } => {
                        let s: FctScope = match scope {
                            Option::Some(s) => *s,
                            Option::None => {
                                return Err("Please specify scope field".to_owned());
                            },
                        };
                        if !(-benchmark_fcts::SCOPE_LIMIT <= s.0 && s.0 < s.1 && s.1
                            <= benchmark_fcts::SCOPE_LIMIT) {
                            return Err("scope out of range".to_owned());
                        }
                        if !(s.0 <= 0 && 0 <= s.1) {
                            return Err("scope does not contain the optimum".to_owned());
                        }
                        if let BenchmarkFct::Nofct = b.math_fct {
                            return Err("no benchmark function set".to_owned());
                        }
                        let gene: u64 = benchmark_fcts::coordinates_to_gene(s, 0);
                        let dim: usize = b.fct_dimension as usize;
                        let mut res: Genome = Vec::new();
                        for k in 0..dim
                            invariant
                                res@.len() == k,
                                gene == spec_gene_of_coord(s, 0),
                                forall|i: int|
                                    0 <= i < k ==> res@[i] == spec_gene_of_coord(s, 0),
                        {
                            res.push(gene);
                        }
                        Ok(res)
                    },
                }
            },
        }
    }

    /// True when the generation may end: the built-in algos finish after
    /// one dataset pass.
    pub fn check_generation_over(&self) -> (r: bool)
        ensures
            r,
    {
        true
    }

    /// Clears per-run mutable state; the built-in algos keep none.
    pub fn reset(&mut self)
        ensures
            *final(self) == *old(self),
    {
    }
}

/// Resolves a built-in algo by name.
pub fn get_algo(name: &str) -> (r: AlgoAvailable)
    requires
        name@ == "algo_test"@ || name@ == "benchmark"@,
    ensures
        name@ == "algo_test"@ ==> r == AlgoAvailable::TestAlgo(TestAlgo {  }),
        name@ == "benchmark"@ ==> r == AlgoAvailable::BenchmarkAlgo(
            BenchmarkAlgo {
                math_fct: BenchmarkFct::Spherical(
                    benchmark_fcts::SphericalFct { scope: ((-5) as i64, 5 as i64) },
                ),
                fct_dimension: 8,
            },
        ),
{
    proof {
        reveal_strlit("algo_test");
        reveal_strlit("benchmark");
        assert("algo_test"@[0] == 'a');
        assert("benchmark"@[0] == 'b');
    }
    let owned: String = name.to_owned();
    let test: String = "algo_test".to_owned();
    if owned.eq(&test) {
        AlgoAvailable::TestAlgo(TestAlgo::new())
    } else {
        let fct = BenchmarkFct::Spherical(benchmark_fcts::SphericalFct::new());
        AlgoAvailable::BenchmarkAlgo(BenchmarkAlgo { math_fct: fct, fct_dimension: 8 })
    }
}

} // verus!
