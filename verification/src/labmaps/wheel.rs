//! The Wheel topology builder.
//!
//! A wheel map holds a random source at index 0, a final aggregator at
//! index 1 (optionally followed by a user-supplied tail), the isolated
//! per-objective algos, and — when there are more than two of them — one
//! mix algo per adjacent pair of isolated algos.  The random source and
//! the aggregator give to every isolated algo; isolated algos give to
//! their mixes; each mix gives to the aggregator and, from the second mix
//! on, to its predecessor.  Off those two hub nodes the give-graph is a
//! directed acyclic graph, which [`lemma_wheel_no_cycle`] states.

use crate::algo::{
    clone_ids, clone_string, lemma_insert_to_multiset, AlgoConfiguration, AlgoPopulation,
    WEIGHT_OF_TOT_LIMIT,
};
use crate::errors::Errcode;
use crate::fixed::SCALE;
use vstd::prelude::*;
use vstd::string::StringExecFns;

verus! {

/// True when the indices of `s` never decrease.
pub open spec fn ids_sorted(s: Seq<usize>) -> bool {
    forall|i: int, j: int| 0 <= i < j < s.len() ==> s[i] <= s[j]
}

/// True when the indices of `s` strictly increase: sorted and free of
/// duplicates.
pub open spec fn ids_sorted_strict(s: Seq<usize>) -> bool {
    forall|i: int, j: int| 0 <= i < j < s.len() ==> s[i] < s[j]
}

/// The gene positions an isolated algo is restricted to, as a sequence;
/// an unrestricted algo contributes nothing.
pub open spec fn impr_of(c: AlgoConfiguration) -> Seq<usize> {
    match c.impr_genes {
        Option::Some(v) => v@,
        Option::None => Seq::empty(),
    }
}

/// Sorts a vector of gene indices in place, keeping its contents.
fn sort_ids(v: &mut Vec<usize>)
    ensures
        final(v)@.len() == old(v)@.len(),
        ids_sorted(final(v)@),
        final(v)@.to_multiset() == old(v)@.to_multiset(),
{
    let n = v.len();
    if n <= 1 {
        proof {
            assert(final(v)@.to_multiset() =~= old(v)@.to_multiset());
        }
        return ;
    }
    let mut i: usize = 1;
    while i < n
        invariant
            1 <= i <= n,
            v@.len() == n,
            ids_sorted(v@.subrange(0, i as int)),
            v@.to_multiset() == old(v)@.to_multiset(),
        decreases n - i,
    {
        let ghost before = v@;
        let x = v.remove(i);
        let mut p: usize = i;
        while p > 0 && v[p - 1] > x
            invariant
                0 <= p <= i,
                i < n,
                v@.len() == n - 1,
                v@ == before.remove(i as int),
                forall|j: int| p <= j < i ==> x <= #[trigger] v@[j],
            decreases p,
        {
            p = p - 1;
        }
        proof {
            broadcast use vstd::seq_lib::group_to_multiset_ensures;

            assert(before.remove(i as int).to_multiset() =~= before.to_multiset().remove(
                before[i as int],
            ));
        }
        v.insert(p, x);
        proof {
            lemma_insert_to_multiset(before.remove(i as int), p as int, x);
            assert(v@.to_multiset() =~= before.to_multiset()) by {
                broadcast use vstd::seq_lib::group_to_multiset_ensures;

                assert(before.to_multiset().contains(before[i as int]));
            }
            assert(ids_sorted(v@.subrange(0, i as int + 1))) by {
                let s = v@;
                let prev = before.remove(i as int);
                assert forall|a: int, b: int| 0 <= a < b < i + 1 implies #[trigger] s[a]
                    <= #[trigger] s[b] by {
                    assert(forall|j: int| 0 <= j < p ==> s[j] == prev[j]);
                    assert(forall|j: int| p < j < i + 1 ==> s[j] == prev[j - 1]);
                    assert(forall|j: int|
                        0 <= j < i ==> prev[j] == #[trigger] before.subrange(0, i as int)[j]);
                    assert(ids_sorted(before.subrange(0, i as int)));
                    if p > 0 {
                        assert(prev[p - 1] <= x);
                    }
                }
            }
        }
        i = i + 1;
    }
    proof {
        assert(v@.subrange(0, n as int) =~= v@);
    }
}

/// Drops adjacent duplicates from a sorted vector of gene indices: the
/// result strictly increases and holds exactly the values of the input.
fn dedup_sorted_ids(v: &Vec<usize>) -> (r: Vec<usize>)
    requires
        ids_sorted(v@),
    ensures
        ids_sorted_strict(r@),
        forall|x: usize| r@.contains(x) <==> v@.contains(x),
{
    let n = v.len();
    let mut res: Vec<usize> = Vec::new();
    for k in 0..n
        invariant
            v@.len() == n,
            ids_sorted(v@),
            ids_sorted_strict(res@),
            k > 0 ==> res@.len() > 0 && res@.last() == v@[k - 1],
            k == 0 ==> res@.len() == 0,
            forall|x: usize| res@.contains(x) <==> v@.subrange(0, k as int).contains(x),
    {
        let keep: bool = if res.len() == 0 {
            true
        } else {
            res[res.len() - 1] != v[k]
        };
        let ghost res_before = res@;
        if keep {
            res.push(v[k]);
        }
        proof {
            let pre = v@.subrange(0, k as int);
            let cur = v@.subrange(0, k as int + 1);
            assert(cur.drop_last() =~= pre);
            assert(cur.last() == v@[k as int]);
            assert forall|x: usize| res@.contains(x) implies cur.contains(x) by {
                let w = choose|w: int| 0 <= w < res@.len() && #[trigger] res@[w] == x;
                if keep && w == res@.len() - 1 {
                    assert(cur[k as int] == x);
                } else {
                    assert(res_before[w] == x);
                    assert(res_before.contains(x));
                    assert(pre.contains(x));
                    let u = choose|u: int| 0 <= u < pre.len() && #[trigger] pre[u] == x;
                    assert(cur[u] == x);
                }
            }
            assert forall|x: usize| cur.contains(x) implies res@.contains(x) by {
                let w = choose|w: int| 0 <= w < cur.len() && #[trigger] cur[w] == x;
                if w < k {
                    assert(pre[w] == x);
                    assert(pre.contains(x));
                    assert(res_before.contains(x));
                    let u = choose|u: int|
                        0 <= u < res_before.len() && #[trigger] res_before[u] == x;
                    assert(res@[u] == x);
                } else {
                    assert(x == v@[k as int]);
                    assert(res@[res@.len() - 1] == x);
                }
            }
        }
    }
    proof {
        assert(v@.subrange(0, n as int) =~= v@);
    }
    res
}

/// The sorted, duplicate-free union of the two parents' gene
/// restrictions.
fn extract_impr_genes(iso_a: &AlgoConfiguration, iso_b: &AlgoConfiguration) -> (r: Vec<usize>)
    ensures
        ids_sorted_strict(r@),
        forall|x: usize|
            r@.contains(x) <==> (impr_of(*iso_a).contains(x) || impr_of(*iso_b).contains(x)),
{
    let mut all: Vec<usize> = Vec::new();
    match &iso_a.impr_genes {
        Option::Some(g) => {
            let mut ga = clone_ids(g);
            all.append(&mut ga);
        },
        Option::None => {
        },
    }
    match &iso_b.impr_genes {
        Option::Some(g) => {
            let mut gb = clone_ids(g);
            all.append(&mut gb);
        },
        Option::None => {
        },
    }
    proof {
        assert(all@ =~= impr_of(*iso_a) + impr_of(*iso_b));
    }
    let ghost combined = all@;
    sort_ids(&mut all);
    proof {
        broadcast use vstd::seq_lib::group_to_multiset_ensures;

        assert forall|x: usize| all@.contains(x) <==> combined.contains(x) by {
            if all@.contains(x) {
                assert(all@.to_multiset().count(x) > 0);
            }
            if combined.contains(x) {
                assert(combined.to_multiset().count(x) > 0);
            }
        }
        assert forall|x: usize|
            combined.contains(x) <==> (impr_of(*iso_a).contains(x) || impr_of(
                *iso_b,
            ).contains(x)) by {
            if impr_of(*iso_a).contains(x) {
                let w = choose|w: int| 0 <= w < impr_of(*iso_a).len() && impr_of(*iso_a)[w] == x;
                assert(combined[w] == x);
            }
            if impr_of(*iso_b).contains(x) {
                let w = choose|w: int| 0 <= w < impr_of(*iso_b).len() && impr_of(*iso_b)[w] == x;
                assert(combined[impr_of(*iso_a).len() + w] == x);
            }
            if combined.contains(x) {
                let w = choose|w: int| 0 <= w < combined.len() && combined[w] == x;
                if w < impr_of(*iso_a).len() {
                    assert(impr_of(*iso_a)[w] == x);
                } else {
                    assert(impr_of(*iso_b)[w - impr_of(*iso_a).len()] == x);
                }
            }
        }
    }
    let res = dedup_sorted_ids(&all);
    proof {
        assert forall|x: usize|
            res@.contains(x) <==> (impr_of(*iso_a).contains(x) || impr_of(
                *iso_b,
            ).contains(x)) by {
            assert(res@.contains(x) <==> all@.contains(x));
            assert(all@.contains(x) <==> combined.contains(x));
            assert(combined.contains(x) <==> (impr_of(*iso_a).contains(x) || impr_of(
                *iso_b,
            ).contains(x)));
        }
    }
    res
}

/// The rank of a non-hub wheel node: isolated algos rank zero and each
/// mix ranks above its successor, so every non-hub give edge climbs.
pub open spec fn wheel_rank(start: int, k: int, i: int) -> int {
    if i < start + k {
        0
    } else {
        k - (i - start - k)
    }
}

/// True when every give edge leaving a non-hub node of `map` either
/// enters a hub node (index below `start`) or climbs strictly in
/// [`wheel_rank`].
pub open spec fn wheel_edges_ranked(map: Seq<AlgoConfiguration>, start: int, k: int) -> bool {
    forall|i: int, t: int|
        start <= i < map.len() && 0 <= t < (#[trigger] map[i]).give@.len() ==> {
            let dst = #[trigger] map[i].give@[t] as int;
            dst < start || (start <= dst < map.len() && wheel_rank(start, k, i) < wheel_rank(
                start,
                k,
                dst,
            ))
        }
}

/// Along a path of give edges that avoids the hub nodes, the rank climbs
/// strictly.
proof fn lemma_wheel_rank_climbs(
    map: Seq<AlgoConfiguration>,
    start: int,
    k: int,
    path: Seq<usize>,
)
    requires
        wheel_edges_ranked(map, start, k),
        path.len() >= 2,
        forall|n: int| 0 <= n < path.len() ==> start <= #[trigger] path[n] < map.len(),
        forall|n: int|
            0 <= n < path.len() - 1 ==> (#[trigger] map[path[n] as int]).give@.contains(
                path[n + 1],
            ),
    ensures
        wheel_rank(start, k, path[0] as int) < wheel_rank(start, k, path[path.len() - 1] as int),
    decreases path.len(),
{
    let last = path.len() - 1;
    let t = choose|t: int|
        0 <= t < map[path[last - 1] as int].give@.len() && #[trigger] map[path[last
            - 1] as int].give@[t] == path[last];
    assert(wheel_rank(start, k, path[last - 1] as int) < wheel_rank(start, k, path[last] as int));
    if path.len() > 2 {
        let prefix = path.drop_last();
        assert(forall|n: int| 0 <= n < prefix.len() ==> prefix[n] == path[n]);
        lemma_wheel_rank_climbs(map, start, k, prefix);
    }
}

/// Off the hub nodes the wheel's give-graph is acyclic: no non-empty
/// path of give edges that avoids the random source and the aggregator
/// returns to its starting node.
pub proof fn lemma_wheel_no_cycle(map: Seq<AlgoConfiguration>, start: int, k: int, path: Seq<usize>)
    requires
        wheel_edges_ranked(map, start, k),
        path.len() >= 2,
        forall|n: int| 0 <= n < path.len() ==> start <= #[trigger] path[n] < map.len(),
        forall|n: int|
            0 <= n < path.len() - 1 ==> (#[trigger] map[path[n] as int]).give@.contains(
                path[n + 1],
            ),
    ensures
        path[0] != path[path.len() - 1],
{
    lemma_wheel_rank_climbs(map, start, k, path);
}

/// True when two configurations agree on everything but their give list.
pub open spec fn same_but_give(a: AlgoConfiguration, b: AlgoConfiguration) -> bool {
    &&& a.id@ == b.id@
    &&& a.method@ == b.method@
    &&& a.method_options == b.method_options
    &&& a@.impr_genes == b@.impr_genes
    &&& a.population == b.population
}

/// True when a mix configuration's gene restriction is the sorted,
/// duplicate-free union of its two parents'.
pub open spec fn mix_impr_ok(cfg: AlgoConfiguration, a: AlgoConfiguration, b: AlgoConfiguration) -> bool {
    match cfg@.impr_genes {
        Option::Some(v) => ids_sorted_strict(v) && (forall|x: usize|
            v.contains(x) <==> (impr_of(a).contains(x) || impr_of(b).contains(x))),
        Option::None => false,
    }
}

/// The population weight of a mix: the map priority times both parents'
/// weights, `priorities[1] * w_i * w_j`, floored on the fixed-point grid.
pub open spec fn spec_mix_weight(priority: int, wi: int, wj: int) -> int {
    ((priority * wi) / (SCALE as int)) * wj / (SCALE as int)
}

/// True when a mix configuration carries the population weight
/// [`spec_mix_weight`] of its two parents.
pub open spec fn mix_pop_ok(
    cfg: AlgoConfiguration,
    a: AlgoConfiguration,
    b: AlgoConfiguration,
    priority: int,
) -> bool {
    match (a.population, b.population) {
        (AlgoPopulation::WeightofTot(wi), AlgoPopulation::WeightofTot(wj)) => cfg.population
            == AlgoPopulation::WeightofTot(spec_mix_weight(priority, wi as int, wj as int) as u64),
        _ => true,
    }
}

/// The second parent of mix `m` in a wheel of `k` isolated algos: the
/// next isolated algo, wrapping around.
pub open spec fn wheel_partner(m: int, k: int) -> int {
    if m == k - 1 {
        0
    } else {
        m + 1
    }
}

/// The Wheel map builder.
pub struct WheelFormat;

impl WheelFormat {
    /// A fresh builder.
    pub fn new() -> (r: WheelFormat)
        ensures
            r == WheelFormat,
    {
        WheelFormat {  }
    }

    /// The aggregator configuration used when no tail is supplied.
    fn generate_final_algo(&self) -> (r: AlgoConfiguration)
        ensures
            r.valid(),
            r@.give.len() == 0,
    {
        AlgoConfiguration::default()
    }

    /// A mix algo joining two isolated algos: the designated mix method,
    /// the sorted union of the parents' gene restrictions, and one give
    /// edge to `output`.
    fn create_mix(
        &self,
        iso_a: &AlgoConfiguration,
        iso_b: &AlgoConfiguration,
        priority: u64,
        method: String,
        output: usize,
    ) -> (r: Result<AlgoConfiguration, Errcode>)
        requires
            priority <= WEIGHT_OF_TOT_LIMIT,
        ensures
            r matches Ok(cfg) ==> {
                &&& cfg.valid()
                &&& cfg@.give =~= seq![output]
                &&& cfg@.population == AlgoPopulation::WeightofTot(priority)
                &&& cfg.impr_genes matches Some(v) && ids_sorted_strict(v@) && (forall|x: usize|
                    v@.contains(x) <==> (impr_of(*iso_a).contains(x) || impr_of(
                        *iso_b,
                    ).contains(x)))
            },
            r is Err <==> crate::genalgomethods::spec_method_by_name(method@) is None,
    {
        let mut algo = match AlgoConfiguration::method_default(method) {
            Option::Some(a) => a,
            Option::None => {
                return Err(Errcode::ValidationError("mix method"));
            },
        };
        let id = "Mix_".to_owned().concat(iso_a.id.as_str()).concat("_").concat(iso_b.id.as_str());
        algo.id = id;
        algo.impr_genes = Option::Some(extract_impr_genes(iso_a, iso_b));
        let mut give: Vec<usize> = Vec::new();
        give.push(output);
        algo.give = give;
        algo.population = AlgoPopulation::WeightofTot(priority);
        Ok(algo)
    }

    /// Appends one mix per adjacent pair of isolated algos and wires the
    /// isolated algos into their mixes: mix `m` joins isolated `m` and
    /// its wrap-around successor, gives to `output` and, from the second
    /// mix on, to its predecessor mix.
    fn generate_mixes(
        &self,
        algos: &mut Vec<AlgoConfiguration>,
        priority: u64,
        start: usize,
        nb_iso: usize,
        method: String,
        output: usize,
    ) -> (r: Result<(), Errcode>)
        requires
            old(algos)@.len() == start + nb_iso,
            3 <= nb_iso,
            2 <= start,
            output < start,
            priority <= SCALE,
            forall|p: int|
                start <= p < start + nb_iso ==> (#[trigger] old(algos)@[p]).give@.len() == 0,
            forall|p: int|
                start <= p < start + nb_iso ==> ((#[trigger] old(algos)@[p]).population matches
                    AlgoPopulation::WeightofTot(w) && w <= SCALE),
            crate::genalgomethods::spec_method_by_name(method@) is Some,
        ensures
            r is Ok,
            final(algos)@.len() == start + 2 * nb_iso,
            forall|p: int| 0 <= p < start ==> final(algos)@[p] == old(algos)@[p],
            forall|p: int|
                start <= p < start + nb_iso ==> same_but_give(
                    #[trigger] final(algos)@[p],
                    old(algos)@[p],
                ),
            forall|p: int, t: int|
                start <= p < start + nb_iso && 0 <= t < final(algos)@[p].give@.len() ==> start
                    + nb_iso <= #[trigger] final(algos)@[p].give@[t] < start + 2 * nb_iso,
            forall|q: int, t: int|
                start + nb_iso <= q < start + 2 * nb_iso && 0 <= t < final(algos)@[q].give@.len()
                    ==> #[trigger] final(algos)@[q].give@[t] == output || (q > start + nb_iso
                    && final(algos)@[q].give@[t] == q - 1),
            forall|q: int|
                start + nb_iso <= q < start + 2 * nb_iso ==> (#[trigger] final(algos)@[q]).valid(),
            forall|q: int|
                start + nb_iso <= q < start + 2 * nb_iso
                    ==> (#[trigger] final(algos)@[q]).give@.len() >= 1
                    && final(algos)@[q].give@[0] == output,
            forall|m: int|
                0 <= m < nb_iso ==> mix_impr_ok(
                    #[trigger] final(algos)@[start + nb_iso + m],
                    old(algos)@[start + m],
                    old(algos)@[start + wheel_partner(m, nb_iso as int)],
                ),
            forall|m: int|
                0 <= m < nb_iso ==> mix_pop_ok(
                    #[trigger] final(algos)@[start + nb_iso + m],
                    old(algos)@[start + m],
                    old(algos)@[start + wheel_partner(m, nb_iso as int)],
                    priority as int,
                ),
    {
        for i in 0..nb_iso
            invariant
                algos@.len() == start + nb_iso + i,
                3 <= nb_iso,
                2 <= start,
                output < start,
                priority <= SCALE,
                crate::genalgomethods::spec_method_by_name(method@) is Some,
                forall|p: int| 0 <= p < start ==> algos@[p] == old(algos)@[p],
                forall|p: int|
                    start <= p < start + nb_iso ==> same_but_give(
                        #[trigger] algos@[p],
                        old(algos)@[p],
                    ),
                forall|p: int|
                    start <= p < start + nb_iso ==> ((#[trigger] old(algos)@[p]).population
                        matches AlgoPopulation::WeightofTot(w) && w <= SCALE),
                forall|p: int, t: int|
                    start <= p < start + nb_iso && 0 <= t < algos@[p].give@.len() ==> start
                        + nb_iso <= #[trigger] algos@[p].give@[t] < start + 2 * nb_iso,
                forall|q: int, t: int|
                    start + nb_iso <= q < start + nb_iso + i && 0 <= t < algos@[q].give@.len()
                        ==> #[trigger] algos@[q].give@[t] == output || (q > start + nb_iso
                        && algos@[q].give@[t] == q - 1),
                forall|q: int|
                    start + nb_iso <= q < start + nb_iso + i ==> (#[trigger] algos@[q]).valid(),
                forall|q: int|
                    start + nb_iso <= q < start + nb_iso + i ==> (#[trigger] algos@[q]).give@.len()
                        >= 1 && algos@[q].give@[0] == output,
                forall|m: int|
                    0 <= m < i ==> mix_impr_ok(
                        #[trigger] algos@[start + nb_iso + m],
                        old(algos)@[start + m],
                        old(algos)@[start + wheel_partner(m, nb_iso as int)],
                    ),
                forall|m: int|
                    0 <= m < i ==> mix_pop_ok(
                        #[trigger] algos@[start + nb_iso + m],
                        old(algos)@[start + m],
                        old(algos)@[start + wheel_partner(m, nb_iso as int)],
                        priority as int,
                    ),
        {
            let j: usize = if i == nb_iso - 1 {
                0
            } else {
                i + 1
            };
            let ind: usize = algos.len();
            let slot_i = &mut algos[start + i];
            slot_i.give.push(ind);
            let slot_j = &mut algos[start + j];
            slot_j.give.push(ind);
            let wi: u64 = match algos[start + i].population {
                AlgoPopulation::WeightofTot(w) => w,
                AlgoPopulation::FixedSize(_) => {
                    return Err(Errcode::CodeError("isolated algo without a weighted population"));
                },
            };
            let wj: u64 = match algos[start + j].population {
                AlgoPopulation::WeightofTot(w) => w,
                AlgoPopulation::FixedSize(_) => {
                    return Err(Errcode::CodeError("isolated algo without a weighted population"));
                },
            };
            let mix_result = self.create_mix(
                &algos[start + i],
                &algos[start + j],
                priority,
                clone_string(&method),
                output,
            );
            let mut algo_mix = match mix_result {
                Ok(m) => m,
                Err(e) => {
                    return Err(e);
                },
            };
            if i > 0 {
                algo_mix.give.push(ind - 1);
            }
            proof {
                assert(priority * wi <= SCALE * SCALE && 0 <= (priority * wi) / (SCALE as int)
                    <= SCALE) by (nonlinear_arith)
                    requires
                        0 <= priority <= SCALE,
                        0 <= wi <= SCALE,
                ;
                assert((priority * wi / (SCALE as int)) * wj <= SCALE * SCALE && 0 <= ((priority
                    * wi / (SCALE as int)) * wj) / (SCALE as int) <= SCALE) by (nonlinear_arith)
                    requires
                        0 <= priority * wi / (SCALE as int) <= SCALE,
                        0 <= wj <= SCALE,
                ;
            }
            algo_mix.population = AlgoPopulation::WeightofTot(priority * wi / SCALE * wj / SCALE);
            proof {
                assert(impr_of(algos@[start + i as int]) == impr_of(old(algos)@[start + i as int]));
                assert(impr_of(algos@[start + j as int]) == impr_of(old(algos)@[start + j as int]));
            }
            algos.push(algo_mix);
        }
        Ok(())
    }

    /// Builds a wheel map from the isolated algos: the random source at
    /// index 0, the aggregator (or the supplied tail) from index 1, the
    /// isolated algos, and — for more than two of them — their mixes.
    /// Both hubs give to every isolated algo; with at most two isolated
    /// algos these give straight to the aggregator, otherwise to their
    /// mixes as [`Self::generate_mixes`] wires them.
    ///
    /// Off the hub indices (below `start_ind`) the give edges of the
    /// returned map always climb in [`wheel_rank`]: together with
    /// [`lemma_wheel_no_cycle`], every give cycle must pass through the
    /// random source or the aggregator.
    pub fn generate_map(
        &self,
        iso_algos: &Vec<AlgoConfiguration>,
        random_opti: &AlgoConfiguration,
        final_tail: &Vec<AlgoConfiguration>,
        priorities: &[u64; 3],
        mix_method: String,
    ) -> (r: Result<Vec<AlgoConfiguration>, Errcode>)
        requires
            forall|p: int|
                0 <= p < iso_algos@.len() ==> (#[trigger] iso_algos@[p]).give@.len() == 0,
            forall|p: int|
                0 <= p < iso_algos@.len() ==> ((#[trigger] iso_algos@[p]).population matches
                    AlgoPopulation::WeightofTot(w) && w <= SCALE),
            priorities@[0] <= SCALE,
            priorities@[1] <= SCALE,
            priorities@[2] <= SCALE,
            1 <= iso_algos@.len() <= 1000,
            final_tail@.len() <= 1000,
        ensures
            r is Ok <==> (iso_algos@.len() <= 2
                || crate::genalgomethods::spec_method_by_name(mix_method@) is Some),
            r matches Ok(map) ==> {
                let k = iso_algos@.len() as int;
                let start = if final_tail@.len() == 0 {
                    2int
                } else {
                    1 + final_tail@.len() as int
                };
                &&& map@.len() == start + k + (if k > 2 {
                    k
                } else {
                    0int
                })
                &&& wheel_edges_ranked(map@, start, k)
                &&& map@[0].id@ == "Random"@
                &&& map@[1].id@ == "Final"@
                &&& map@[0].population == AlgoPopulation::WeightofTot(priorities@[0])
                &&& map@[1].population == AlgoPopulation::WeightofTot(priorities@[2])
                &&& map@[0].give@.len() == k
                &&& map@[1].give@.len() == k
                &&& (forall|t: int| 0 <= t < k ==> #[trigger] map@[0].give@[t] == start + t)
                &&& (forall|t: int| 0 <= t < k ==> #[trigger] map@[1].give@[t] == start + t)
                &&& (forall|p: int|
                    start <= p < start + k ==> same_but_give(
                        #[trigger] map@[p],
                        iso_algos@[p - start],
                    ))
                &&& (k > 2 ==> forall|m: int|
                    0 <= m < k ==> (#[trigger] map@[start + k + m]).give@.len() >= 1
                        && map@[start + k + m].give@[0] == 1)
                &&& (k > 2 ==> forall|m: int|
                    0 <= m < k ==> mix_impr_ok(
                        #[trigger] map@[start + k + m],
                        iso_algos@[m],
                        iso_algos@[wheel_partner(m, k)],
                    ))
                &&& (k > 2 ==> forall|m: int|
                    0 <= m < k ==> mix_pop_ok(
                        #[trigger] map@[start + k + m],
                        iso_algos@[m],
                        iso_algos@[wheel_partner(m, k)],
                        priorities@[1] as int,
                    ))
            },
    {
        let k = iso_algos.len();
        let mut res: Vec<AlgoConfiguration> = Vec::new();
        res.push(random_opti.clone_config());
        let start_ind: usize = if final_tail.len() == 0 {
            res.push(self.generate_final_algo());
            2
        } else {
            let ntail = final_tail.len();
            for t in 0..ntail
                invariant
                    final_tail@.len() == ntail,
                    res@.len() == 1 + t,
            {
                res.push(final_tail[t].clone_config());
            }
            1 + final_tail.len()
        };
        for p in 0..k
            invariant
                iso_algos@.len() == k,
                k <= 1000,
                res@.len() == start_ind + p,
                2 <= start_ind <= 1001,
                forall|q: int|
                    start_ind <= q < start_ind + p ==> (#[trigger] res@[q])@ == iso_algos@[q
                        - start_ind]@,
            {
            res.push(iso_algos[p].clone_config());
        }
        if k <= 2 {
            for p in 0..k
                invariant
                    iso_algos@.len() == k,
                    k <= 2,
                    res@.len() == start_ind + k,
                    2 <= start_ind <= 1001,
                    forall|q: int|
                        0 <= q < k ==> (#[trigger] iso_algos@[q]).give@.len() == 0,
                    forall|q: int|
                        start_ind + p <= q < start_ind + k ==> (#[trigger] res@[q])@ == iso_algos@[
                        q - start_ind]@,
                    forall|q: int, t: int|
                        start_ind <= q < start_ind + p && 0 <= t < res@[q].give@.len()
                            ==> #[trigger] res@[q].give@[t] == 1,
                    forall|q: int|
                        start_ind <= q < start_ind + p ==> same_but_give(
                            #[trigger] res@[q],
                            iso_algos@[q - start_ind],
                        ),
                {
                let slot = &mut res[start_ind + p];
                slot.give.push(1);
            }
        } else {
            match crate::genalgomethods::GenalgoMethodsAvailable::get_by_name(&mix_method) {
                Option::Some(_) => {
                },
                Option::None => {
                    return Err(Errcode::ValidationError("mix method"));
                },
            }
            let ghost before_mix = res@;
            match self.generate_mixes(&mut res, priorities[1], start_ind, k, mix_method, 1) {
                Ok(_) => {
                },
                Err(e) => {
                    return Err(e);
                },
            }
            proof {
                let start = start_ind as int;
                let ki = k as int;
                assert forall|q: int| start <= q < start + ki implies same_but_give(
                    #[trigger] res@[q],
                    iso_algos@[q - start],
                ) by {
                    assert(same_but_give(res@[q], before_mix[q]));
                    assert(before_mix[q]@ == iso_algos@[q - start]@);
                }
                assert forall|m: int| 0 <= m < ki implies mix_impr_ok(
                    #[trigger] res@[start + ki + m],
                    iso_algos@[m],
                    iso_algos@[wheel_partner(m, ki)],
                ) by {
                    assert(mix_impr_ok(
                        res@[start + ki + m],
                        before_mix[start + m],
                        before_mix[start + wheel_partner(m, ki)],
                    ));
                    assert(before_mix[start + m]@ == iso_algos@[m]@);
                    assert(before_mix[start + wheel_partner(m, ki)]@ == iso_algos@[wheel_partner(
                        m,
                        ki,
                    )]@);
                    assert(impr_of(before_mix[start + m]) == impr_of(iso_algos@[m]));
                    assert(impr_of(before_mix[start + wheel_partner(m, ki)]) == impr_of(
                        iso_algos@[wheel_partner(m, ki)],
                    ));
                }
                assert forall|m: int| 0 <= m < ki implies mix_pop_ok(
                    #[trigger] res@[start + ki + m],
                    iso_algos@[m],
                    iso_algos@[wheel_partner(m, ki)],
                    priorities@[1] as int,
                ) by {
                    assert(mix_pop_ok(
                        res@[start + ki + m],
                        before_mix[start + m],
                        before_mix[start + wheel_partner(m, ki)],
                        priorities@[1] as int,
                    ));
                    assert(before_mix[start + m]@ == iso_algos@[m]@);
                    assert(before_mix[start + wheel_partner(m, ki)]@ == iso_algos@[wheel_partner(
                        m,
                        ki,
                    )]@);
                }
            }
        }
        let targets = make_range_vec(start_ind, start_ind + k);
        let slot_final = &mut res[1];
        slot_final.id = "Final".to_owned();
        slot_final.give = targets;
        slot_final.population = AlgoPopulation::WeightofTot(priorities[2]);
        let targets2 = make_range_vec(start_ind, start_ind + k);
        let slot_random = &mut res[0];
        slot_random.id = "Random".to_owned();
        slot_random.give = targets2;
        slot_random.population = AlgoPopulation::WeightofTot(priorities[0]);
        proof {
            let start = start_ind as int;
            let ki = k as int;
            assert forall|i: int, t: int|
                start <= i < res@.len() && 0 <= t < (#[trigger] res@[i]).give@.len() implies {
                let dst = #[trigger] res@[i].give@[t] as int;
                dst < start || (start <= dst < res@.len() && wheel_rank(start, ki, i) < wheel_rank(
                    start,
                    ki,
                    dst,
                ))
            } by {
                let dst = res@[i].give@[t] as int;
                if k <= 2 {
                    assert(dst == 1);
                } else {
                    if i < start + ki {
                        assert(start + ki <= dst < start + 2 * ki);
                    } else {
                        assert(dst == 1 || (i > start + ki && dst == i - 1));
                    }
                }
            }
        }
        Ok(res)
    }
}

/// The consecutive indices `[start, end)`.
fn make_range_vec(start: usize, end: usize) -> (r: Vec<usize>)
    requires
        start <= end,
    ensures
        r@.len() == end - start,
        forall|t: int| 0 <= t < r@.len() ==> #[trigger] r@[t] == start + t,
{
    let mut res: Vec<usize> = Vec::new();
    let mut v: usize = start;
    while v < end
        invariant
            start <= v <= end,
            res@.len() == v - start,
            forall|t: int| 0 <= t < res@.len() ==> #[trigger] res@[t] == start + t,
        decreases end - v,
    {
        res.push(v);
        v = v + 1;
    }
    res
}

} // verus!
