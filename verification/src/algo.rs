//! Algo configuration and per-generation results.
//!
//! An [`AlgoConfiguration`] describes one algo of the laboratory: its
//! variation method, its share of the population budget, the algos it gives
//! its best cells to, and the gene positions it may evolve.  An
//! [`AlgoResult`] is the scratch buffer of one algo for one generation:
//! its sorted cell snapshots and the elites injected by its predecessors.

use crate::cell::{CellData, CellView};
use crate::errors::Errcode;
use crate::fixed::{lemma_part_of_le, spec_part_of, POP_LIMIT, SCALE};
use crate::genalgomethods::{GenalgoMethodsAvailable, GenalgoMethodsConfigurations};
use vstd::prelude::*;

verus! {

/// Index of an algo inside the laboratory's registration order.
pub type AlgoID = usize;

/// Largest weight-of-total a configuration accepts, a real of sixteen.
pub const WEIGHT_OF_TOT_LIMIT: u64 = 16_000_000_000;

/// How an algo's share of the population budget is given.
#[derive(Clone, Copy, Debug, PartialEq, Eq, Structural)]
pub enum AlgoPopulation {
    /// A fixed-point weight of the laboratory's total population.
    WeightofTot(u64),
    /// An absolute cell count.
    FixedSize(usize),
}

/// The effective population of an algo under budget `pop`.
pub open spec fn spec_algo_pop(population: AlgoPopulation, pop: int) -> int {
    match population {
        AlgoPopulation::WeightofTot(w) => spec_part_of(pop, w as int),
        AlgoPopulation::FixedSize(s) => s as int,
    }
}

/// The mathematical value of an algo configuration.
pub struct AlgoConfigurationView {
    pub id: Seq<char>,
    pub method: Seq<char>,
    pub method_options: GenalgoMethodsConfigurations,
    pub give: Seq<AlgoID>,
    pub impr_genes: Option<Seq<usize>>,
    pub population: AlgoPopulation,
}

/// Configuration of one algo: identity, method and its options, the
/// directed `give` edges of elite propagation, the gene positions this
/// algo may evolve, and its population share.
#[derive(Debug)]
pub struct AlgoConfiguration {
    /// Human-readable identifier.
    pub id: String,
    /// Name of the variation method, resolved through
    /// [`GenalgoMethodsAvailable::get_by_name`].
    pub method: String,
    /// The method's configuration payload.
    pub method_options: GenalgoMethodsConfigurations,
    /// The algos that receive clones of this algo's best cells.
    pub give: Vec<AlgoID>,
    /// Gene positions this algo is allowed to evolve, if restricted.
    pub impr_genes: Option<Vec<usize>>,
    /// This algo's share of the population budget.
    pub population: AlgoPopulation,
}

impl View for AlgoConfiguration {
    type V = AlgoConfigurationView;

    open spec fn view(&self) -> AlgoConfigurationView {
        AlgoConfigurationView {
            id: self.id@,
            method: self.method@,
            method_options: self.method_options,
            give: self.give@,
            impr_genes: match self.impr_genes {
                Option::None => Option::None,
                Option::Some(v) => Option::Some(v@),
            },
            population: self.population,
        }
    }
}

impl AlgoConfiguration {
    /// True when the population weight and the method options are in range.
    pub open spec fn valid(&self) -> bool {
        &&& match self.population {
            AlgoPopulation::WeightofTot(w) => w <= WEIGHT_OF_TOT_LIMIT,
            AlgoPopulation::FixedSize(s) => s <= POP_LIMIT,
        }
        &&& self.method_options.valid()
    }

    /// Resolves this algo's effective population and elite count under the
    /// laboratory budget `pop` and elite ratio `elite_ratio`.
    pub fn get_pop_and_elite(&self, pop: usize, elite_ratio: u64) -> (r: (usize, usize))
        requires
            self.valid(),
            pop <= POP_LIMIT,
            elite_ratio <= SCALE,
        ensures
            r.0 == spec_algo_pop(self.population, pop as int),
            r.1 == spec_part_of(r.0 as int, elite_ratio as int),
            r.1 <= r.0,
    {
        let algopop: usize = match self.population {
            AlgoPopulation::WeightofTot(w) => {
                proof {
                    assert(pop * w <= POP_LIMIT * WEIGHT_OF_TOT_LIMIT && 0 <= (pop * w) / (
                    SCALE as int) <= (POP_LIMIT * WEIGHT_OF_TOT_LIMIT) / (SCALE as int))
                        by (nonlinear_arith)
                        requires
                            0 <= pop <= POP_LIMIT,
                            0 <= w <= WEIGHT_OF_TOT_LIMIT,
                    ;
                }
                ((pop as u128) * (w as u128) / (SCALE as u128)) as usize
            },
            AlgoPopulation::FixedSize(s) => s,
        };
        proof {
            lemma_part_of_le(algopop as int, elite_ratio as int);
        }
        let elite: usize = ((algopop as u128) * (elite_ratio as u128) / (SCALE as u128)) as usize;
        (algopop, elite)
    }

    /// The stock configuration: the default method over the whole budget,
    /// giving to nobody.
    pub fn default() -> (r: AlgoConfiguration)
        ensures
            r.valid(),
            r@.method == "Darwin"@,
            r.method_options == GenalgoMethodsConfigurations::DarwinConfig(
                crate::genalgomethods::darwin_method::DarwinMethodConfiguration::spec_default(),
            ),
            r@.give.len() == 0,
            r@.impr_genes is None,
            r@.population == AlgoPopulation::WeightofTot(SCALE),
    {
        let method = GenalgoMethodsAvailable::default();
        AlgoConfiguration {
            id: "Default".to_owned(),
            method: method.name(),
            method_options: GenalgoMethodsConfigurations::default(method),
            give: Vec::new(),
            impr_genes: Option::None,
            population: AlgoPopulation::WeightofTot(SCALE),
        }
    }

    /// The stock configuration for the named method; `None` for an unknown
    /// name.
    pub fn method_default(method: String) -> (r: Option<AlgoConfiguration>)
        ensures
            r is Some <==> crate::genalgomethods::spec_method_by_name(method@) is Some,
            r matches Some(cfg) ==> cfg.valid() && cfg@.method == method@ && cfg@.give.len() == 0
                && cfg@.impr_genes is None && cfg@.population == AlgoPopulation::WeightofTot(SCALE),
    {
        let m = match GenalgoMethodsAvailable::get_by_name(&method) {
            Option::Some(m) => m,
            Option::None => {
                return Option::None;
            },
        };
        Option::Some(
            AlgoConfiguration {
                id: "method_default".to_owned(),
                method_options: GenalgoMethodsConfigurations::default(m),
                give: Vec::new(),
                method,
                impr_genes: Option::None,
                population: AlgoPopulation::WeightofTot(SCALE),
            },
        )
    }

    /// Copies a configuration field for field.
    pub fn clone_config(&self) -> (r: AlgoConfiguration)
        ensures
            r@ == self@,
    {
        let give = clone_ids(&self.give);
        let impr_genes = match &self.impr_genes {
            Option::Some(v) => Option::Some(clone_ids(v)),
            Option::None => Option::None,
        };
        let r = AlgoConfiguration {
            id: clone_string(&self.id),
            method: clone_string(&self.method),
            method_options: self.method_options,
            give,
            impr_genes,
            population: self.population,
        };
        proof {
            assert(r@ == self@);
        }
        r
    }
}

/// Copies a string.
pub fn clone_string(s: &String) -> (r: String)
    ensures
        r@ == s@,
{
    s.clone()
}

/// Copies a vector of indices.
pub fn clone_ids(v: &Vec<usize>) -> (r: Vec<usize>)
    ensures
        r@ == v@,
{
    let mut res: Vec<usize> = Vec::new();
    for k in 0..v.len()
        invariant
            res@ == v@.subrange(0, k as int),
    {
        res.push(v[k]);
    }
    proof {
        assert(v@.subrange(0, v@.len() as int) =~= v@);
    }
    res
}

/// The views of a sequence of cells.
pub open spec fn views_of(s: Seq<CellData>) -> Seq<CellView> {
    s.map_values(|c: CellData| c@)
}

/// True when cell `a` may stand before cell `b` in a population sorted for
/// the given score sign: descending scores when maximising, ascending
/// otherwise.
pub open spec fn score_le(a: u64, b: u64, maximize: bool) -> bool {
    if maximize {
        a >= b
    } else {
        a <= b
    }
}

/// True when the scores of `s` are sorted for the given score sign.
pub open spec fn scores_sorted(s: Seq<CellData>, maximize: bool) -> bool {
    forall|i: int, j: int|
        0 <= i < j < s.len() ==> score_le((#[trigger] s[i])@.score, (#[trigger] s[j])@.score, maximize)
}

/// The subsequence of `s` holding exactly the cells of score `v`, in
/// their original order.
pub open spec fn keep_score(s: Seq<CellData>, v: u64) -> Seq<CellData>
    decreases s.len(),
{
    if s.len() == 0 {
        Seq::empty()
    } else if s.last()@.score == v {
        keep_score(s.drop_last(), v).push(s.last())
    } else {
        keep_score(s.drop_last(), v)
    }
}

/// Filtering by score distributes over concatenation.
proof fn lemma_keep_score_concat(a: Seq<CellData>, b: Seq<CellData>, v: u64)
    ensures
        keep_score(a + b, v) == keep_score(a, v) + keep_score(b, v),
    decreases b.len(),
{
    if b.len() == 0 {
        assert(a + b =~= a);
        assert(keep_score(a, v) + keep_score(b, v) =~= keep_score(a, v));
    } else {
        assert((a + b).drop_last() =~= a + b.drop_last());
        assert((a + b).last() == b.last());
        lemma_keep_score_concat(a, b.drop_last(), v);
        if b.last()@.score == v {
            assert(keep_score(a, v) + keep_score(b, v) =~= (keep_score(a, v) + keep_score(
                b.drop_last(),
                v,
            )).push(b.last()));
        }
    }
}

/// A stretch holding no cell of score `v` filters to nothing.
proof fn lemma_keep_score_none(s: Seq<CellData>, v: u64)
    requires
        forall|j: int| 0 <= j < s.len() ==> (#[trigger] s[j])@.score != v,
    ensures
        keep_score(s, v) == Seq::<CellData>::empty(),
    decreases s.len(),
{
    if s.len() > 0 {
        lemma_keep_score_none(s.drop_last(), v);
    }
}

/// Per-generation scratch buffer of one algo: its sorted cell snapshots,
/// the elites injected by its predecessors, and its own elite count.
#[derive(Debug)]
pub struct AlgoResult {
    /// Snapshots of the algo's cells, sorted best first after
    /// [`sort_cells`](Self::sort_cells).
    pub cells_data: Vec<CellData>,
    /// Clones of the top cells of predecessor algos.
    pub exterior_elites: Vec<CellData>,
    /// How many of this algo's own cells count as elites.
    pub nelite: usize,
}

impl AlgoResult {
    /// An empty buffer for an algo with `nelite` own elites.
    pub fn new(nelite: usize) -> (r: AlgoResult)
        ensures
            r.cells_data@.len() == 0,
            r.exterior_elites@.len() == 0,
            r.nelite == nelite,
    {
        AlgoResult { cells_data: Vec::new(), exterior_elites: Vec::new(), nelite }
    }

    /// Appends a snapshot of every given cell.
    pub fn load_cells(&mut self, cells: &Vec<CellData>)
        ensures
            final(self).nelite == old(self).nelite,
            final(self).exterior_elites@ == old(self).exterior_elites@,
            final(self).cells_data@.len() == old(self).cells_data@.len() + cells@.len(),
            forall|i: int|
                0 <= i < old(self).cells_data@.len() ==> final(self).cells_data@[i]
                    == old(self).cells_data@[i],
            forall|i: int|
                0 <= i < cells@.len() ==> (#[trigger] final(self).cells_data@[old(
                    self,
                ).cells_data@.len() + i])@ == cells@[i]@,
    {
        let n = cells.len();
        for k in 0..n
            invariant
                cells@.len() == n,
                self.nelite == old(self).nelite,
                self.exterior_elites@ == old(self).exterior_elites@,
                self.cells_data@.len() == old(self).cells_data@.len() + k,
                forall|i: int|
                    0 <= i < old(self).cells_data@.len() ==> self.cells_data@[i] == old(
                        self,
                    ).cells_data@[i],
                forall|i: int|
                    0 <= i < k ==> (#[trigger] self.cells_data@[old(self).cells_data@.len() + i])@
                        == cells@[i]@,
        {
            let c = cells[k].clone_cell();
            self.cells_data.push(c);
        }
    }

    /// Sorts the snapshots by score: descending when maximising, ascending
    /// otherwise; an insertion sort, so cells of equal score keep their
    /// relative order.
    ///
    /// The sorted snapshots hold exactly the cells that were loaded — the
    /// multiset of cell values is unchanged — and cells of equal score
    /// keep their relative order: for every score, the subsequence of
    /// cells showing it is untouched.  Together with sortedness this pins
    /// the output completely.
    pub fn sort_cells(&mut self, maximize: bool) -> (r: Result<(), Errcode>)
        ensures
            r is Ok,
            final(self).nelite == old(self).nelite,
            final(self).exterior_elites@ == old(self).exterior_elites@,
            final(self).cells_data@.len() == old(self).cells_data@.len(),
            scores_sorted(final(self).cells_data@, maximize),
            final(self).cells_data@.to_multiset() == old(self).cells_data@.to_multiset(),
            forall|v: u64| #[trigger] keep_score(final(self).cells_data@, v) == keep_score(
                old(self).cells_data@,
                v,
            ),
    {
        let n = self.cells_data.len();
        if n <= 1 {
            proof {
                assert(final(self).cells_data@.to_multiset() =~= old(
                    self,
                ).cells_data@.to_multiset());
            }
            return Ok(());
        }
        let mut i: usize = 1;
        while i < n
            invariant
                1 <= i <= n,
                self.cells_data@.len() == n,
                self.nelite == old(self).nelite,
                self.exterior_elites@ == old(self).exterior_elites@,
                scores_sorted(self.cells_data@.subrange(0, i as int), maximize),
                self.cells_data@.to_multiset() == old(self).cells_data@.to_multiset(),
                forall|v: u64| #[trigger] keep_score(self.cells_data@, v) == keep_score(
                    old(self).cells_data@,
                    v,
                ),
            decreases n - i,
        {
            let ghost before = self.cells_data@;
            let x = self.cells_data.remove(i);
            let mut p: usize = i;
            while p > 0 && ((maximize && self.cells_data[p - 1].score < x.score) || (!maximize
                && self.cells_data[p - 1].score > x.score))
                invariant
                    0 <= p <= i,
                    i < n,
                    self.cells_data@.len() == n - 1,
                    self.cells_data@ == before.remove(i as int),
                    forall|j: int|
                        p <= j < i ==> score_le(
                            x@.score,
                            (#[trigger] self.cells_data@[j])@.score,
                            maximize,
                        ) && self.cells_data@[j]@.score != x@.score,
                decreases p,
            {
                p = p - 1;
            }
            proof {
                broadcast use vstd::seq_lib::group_to_multiset_ensures;

                assert(before.remove(i as int).to_multiset() =~= before.to_multiset().remove(
                    before[i as int],
                ));
            }
            self.cells_data.insert(p, x);
            proof {
                lemma_insert_to_multiset(before.remove(i as int), p as int, x);
                assert(self.cells_data@.to_multiset() =~= before.to_multiset()) by {
                    broadcast use vstd::seq_lib::group_to_multiset_ensures;

                    assert(before.to_multiset().contains(before[i as int]));
                }
                assert(scores_sorted(self.cells_data@.subrange(0, i as int + 1), maximize)) by {
                    let s = self.cells_data@;
                    let prev = before.remove(i as int);
                    assert forall|a: int, b: int|
                        0 <= a < b < i + 1 implies score_le(
                        (#[trigger] s[a])@.score,
                        (#[trigger] s[b])@.score,
                        maximize,
                    ) by {
                        assert(forall|j: int| 0 <= j < p ==> s[j] == prev[j]);
                        assert(forall|j: int| p < j < i + 1 ==> s[j] == prev[j - 1]);
                        assert(forall|j: int|
                            0 <= j < i ==> prev[j] == #[trigger] before.subrange(0, i as int)[j]);
                        assert(scores_sorted(before.subrange(0, i as int), maximize));
                        if p > 0 {
                            assert(score_le(prev[p - 1]@.score, x@.score, maximize));
                        }
                    }
                }
                lemma_insertion_step_stable(before, self.cells_data@, i as int, p as int, x);
            }
            i = i + 1;
        }
        proof {
            assert(self.cells_data@.subrange(0, n as int) =~= self.cells_data@);
        }
        Ok(())
    }

    /// Clones the elite view of this generation: the first `nelite` sorted
    /// cells followed by every exterior elite, in that order.
    pub fn get_elites(&self) -> (r: Vec<CellData>)
        requires
            self.nelite <= self.cells_data@.len(),
        ensures
            r@.len() == self.nelite + self.exterior_elites@.len(),
            forall|i: int|
                0 <= i < self.nelite ==> (#[trigger] r@[i])@ == self.cells_data@[i]@,
            forall|i: int|
                self.nelite <= i < r@.len() ==> (#[trigger] r@[i])@ == self.exterior_elites@[i
                    - self.nelite]@,
    {
        let mut res: Vec<CellData> = Vec::new();
        for k in 0..self.nelite
            invariant
                self.nelite <= self.cells_data@.len(),
                res@.len() == k,
                forall|i: int| 0 <= i < k ==> (#[trigger] res@[i])@ == self.cells_data@[i]@,
        {
            let c = self.cells_data[k].clone_cell();
            res.push(c);
        }
        let m = self.exterior_elites.len();
        for k in 0..m
            invariant
                self.nelite <= self.cells_data@.len(),
                self.exterior_elites@.len() == m,
                res@.len() == self.nelite + k,
                forall|i: int|
                    0 <= i < self.nelite ==> (#[trigger] res@[i])@ == self.cells_data@[i]@,
                forall|i: int|
                    self.nelite <= i < res@.len() ==> (#[trigger] res@[i])@
                        == self.exterior_elites@[i - self.nelite]@,
        {
            let c = self.exterior_elites[k].clone_cell();
            res.push(c);
        }
        res
    }

    /// Receives one give-edge donation: the already-cloned donor elites
    /// join this buffer's exterior pool at its end, in the order given,
    /// leaving the buffer's own snapshots untouched.
    pub fn push_exterior(&mut self, cells: Vec<CellData>)
        ensures
            final(self).cells_data@ == old(self).cells_data@,
            final(self).nelite == old(self).nelite,
            final(self).exterior_elites@.len() == old(self).exterior_elites@.len() + cells@.len(),
            forall|i: int|
                0 <= i < old(self).exterior_elites@.len() ==> final(self).exterior_elites@[i]
                    == old(self).exterior_elites@[i],
            forall|i: int|
                0 <= i < cells@.len() ==> final(self).exterior_elites@[old(
                    self,
                ).exterior_elites@.len() + i] == cells@[i],
    {
        let mut cells = cells;
        self.exterior_elites.append(&mut cells);
    }

    /// Clones the top `nelite` sorted cells, best first.
    pub fn clone_top_cells(&self) -> (r: Vec<CellData>)
        requires
            self.nelite <= self.cells_data@.len(),
        ensures
            r@.len() == self.nelite,
            forall|i: int| 0 <= i < self.nelite ==> (#[trigger] r@[i])@ == self.cells_data@[i]@,
    {
        let mut res: Vec<CellData> = Vec::new();
        for k in 0..self.nelite
            invariant
                self.nelite <= self.cells_data@.len(),
                res@.len() == k,
                forall|i: int| 0 <= i < k ==> (#[trigger] res@[i])@ == self.cells_data@[i]@,
        {
            let c = self.cells_data[k].clone_cell();
            res.push(c);
        }
        res
    }
}

/// One insertion-sort step keeps every per-score subsequence: the moved
/// cell only travels past cells of strictly different score, so for each
/// score the filtered subsequence of `after` equals that of `before`.
proof fn lemma_insertion_step_stable(
    before: Seq<CellData>,
    after: Seq<CellData>,
    i: int,
    p: int,
    x: CellData,
)
    requires
        0 <= p <= i < before.len(),
        x == before[i],
        after == before.remove(i).insert(p, x),
        forall|j: int|
            p <= j < i ==> (#[trigger] before.remove(i)[j])@.score != x@.score,
    ensures
        forall|v: u64| #[trigger] keep_score(after, v) == keep_score(before, v),
{
    let n = before.len() as int;
    let pre = before.subrange(0, p);
    let mid = before.subrange(p, i);
    let tail = before.subrange(i + 1, n);
    let rem = before.remove(i);
    assert(rem =~= pre + mid + tail);
    assert(after =~= pre + (seq![x] + (mid + tail))) by {
        assert(after =~= rem.subrange(0, p) + seq![x] + rem.subrange(p, n - 1));
        assert(rem.subrange(0, p) =~= pre);
        assert(rem.subrange(p, n - 1) =~= mid + tail);
    }
    assert(before =~= pre + (mid + (seq![x] + tail)));
    assert(forall|j: int| p <= j < i ==> (#[trigger] rem[j])@.score != x@.score);
    assert forall|j: int| 0 <= j < mid.len() implies (#[trigger] mid[j])@.score != x@.score by {
        assert(mid[j] == rem[p + j]);
    }
    assert forall|v: u64| #[trigger] keep_score(after, v) == keep_score(before, v) by {
        lemma_keep_score_concat(pre, seq![x] + (mid + tail), v);
        lemma_keep_score_concat(seq![x], mid + tail, v);
        lemma_keep_score_concat(mid, tail, v);
        lemma_keep_score_concat(pre, mid + (seq![x] + tail), v);
        lemma_keep_score_concat(mid, seq![x] + tail, v);
        lemma_keep_score_concat(seq![x], tail, v);
        if v == x@.score {
            lemma_keep_score_none(mid, v);
            assert(keep_score(after, v) =~= keep_score(before, v));
        } else {
            lemma_keep_score_none(seq![x], v);
            assert(keep_score(after, v) =~= keep_score(before, v));
        }
    }
}

/// Inserting an element anywhere in a sequence adds exactly it to the
/// sequence's multiset.
pub proof fn lemma_insert_to_multiset<T>(s: Seq<T>, p: int, x: T)
    requires
        0 <= p <= s.len(),
    ensures
        s.insert(p, x).to_multiset() == s.to_multiset().insert(x),
    decreases s.len() - p,
{
    broadcast use vstd::seq_lib::group_to_multiset_ensures;

    if p == s.len() {
        assert(s.insert(p, x) =~= s.push(x));
        assert(s.push(x).to_multiset() =~= s.to_multiset().insert(x));
    } else {
        let t = s.insert(p, x);
        assert(t.remove(p) =~= s);
        assert(t[p] == x);
        assert(t.remove(p).to_multiset() =~= t.to_multiset().remove(t[p]));
        assert(t.to_multiset().contains(x)) by {
            assert(t.contains(x)) by {
                assert(t[p] == x);
            }
        }
        assert(t.to_multiset() =~= s.to_multiset().insert(x)) by {
            assert(s.to_multiset() =~= t.to_multiset().remove(x));
        }
    }
}

} // verus!
