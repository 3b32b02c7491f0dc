//! The Lab generation engine.
//!
//! A laboratory owns several algos with per-algo configurations, shares one
//! population budget among them, runs generations, routes elite clones
//! along the configured give-graph, and drives each algo's variation
//! method to rebuild its population.

use crate::algo::{spec_algo_pop, AlgoConfiguration, AlgoID, AlgoResult};
use crate::algorithms::{spec_genome_length, AlgoAvailable, SpecialData, SpecialQuery};
use crate::cell::{clone_genome, emitted_ok, genome_wf, CellData, Genome};
use crate::dataset::DatasetHandler;
use crate::errors::Errcode;
use crate::fixed::{spec_part_of, POP_LIMIT, SCALE};
use crate::genalgomethods::darwin_method::darwin_scores_ok;
use crate::genalgomethods::{GenalgoMethod, GenalgoMethodsAvailable, GenalgoMethodsConfigurations};
use crate::rng::LabRng;
use vstd::prelude::*;

verus! {

/// Smallest total population the laboratory accepts at `start`.
pub const MIN_POPULATION: usize = 100;

/// Laboratory-wide configuration: the shared population budget, the elite
/// ratio applied to each algo's share, and the score sign.
#[derive(Clone, Copy, Debug)]
pub struct LabConfig {
    /// Total population budget shared by all algos.
    pub npop: usize,
    /// Share of each algo's population that counts as elite, in `(0, 1)`.
    pub elite_ratio: u64,
    /// True when higher scores are better.
    pub maximize_score: bool,
}

impl LabConfig {
    /// True when the budget and ratio are within the supported bounds.
    pub open spec fn valid(&self) -> bool {
        self.npop <= POP_LIMIT && self.elite_ratio <= SCALE
    }

    /// The stock configuration: one thousand cells, a tenth elite,
    /// minimising.
    pub fn default() -> (r: LabConfig)
        ensures
            r.npop == 1000,
            r.elite_ratio == 100_000_000,
            r.maximize_score == false,
            r.valid(),
    {
        LabConfig { npop: 1000, elite_ratio: 100_000_000, maximize_score: false }
    }

    /// A configuration from explicit values.
    pub fn new(npop: usize, elite_ratio: u64, maximize_score: bool) -> (r: LabConfig)
        requires
            npop <= POP_LIMIT,
            elite_ratio <= SCALE,
        ensures
            r.npop == npop,
            r.elite_ratio == elite_ratio,
            r.maximize_score == maximize_score,
            r.valid(),
    {
        LabConfig { npop, elite_ratio, maximize_score }
    }
}

/// True when every cell of `cs` has a well-formed genome of the algo's
/// length, and the population is within the supported bound.
pub open spec fn algo_cells_ok(a: AlgoAvailable, cs: Seq<CellData>) -> bool {
    &&& cs.len() <= POP_LIMIT
    &&& forall|j: int|
        0 <= j < cs.len() ==> genome_wf((#[trigger] cs[j])@.genome) && cs[j]@.genome.len()
            == spec_genome_length(a)
}

/// True when a configuration is acceptable to the laboratory: its method
/// name is known, its parameters are in range, and its options payload
/// fits its method.
pub open spec fn cfg_acceptable(c: &AlgoConfiguration) -> bool {
    &&& c.valid()
    &&& match crate::genalgomethods::spec_method_by_name(c.method@) {
        Option::Some(GenalgoMethodsAvailable::Darwin) => c.method_options is DarwinConfig,
        Option::Some(GenalgoMethodsAvailable::RandomOpti) => c.method_options is NoConfig,
        Option::None => false,
    }
}

/// True when a configuration names the memoryless RandomOpti method.
pub open spec fn cfg_random_opti(c: &AlgoConfiguration) -> bool {
    crate::genalgomethods::spec_method_by_name(c.method@) == Some(
        GenalgoMethodsAvailable::RandomOpti,
    )
}

/// The effective population one configuration resolves to under budget
/// `npop`.
pub open spec fn spec_pop_of(c: &AlgoConfiguration, npop: int) -> int {
    spec_algo_pop(c.population, npop)
}

/// The elite count one configuration resolves to under budget `npop` and
/// elite ratio `er`.
pub open spec fn spec_nelite_of(c: &AlgoConfiguration, npop: int, er: int) -> int {
    spec_part_of(spec_pop_of(c, npop), er)
}

/// True when the method registry is built: one slot per known method, in
/// registry order.
pub open spec fn registry_ok(lab: &Lab) -> bool {
    &&& lab.genalgo_methods@.len() == 2
    &&& lab.genalgo_methods@[0] is RandomOpti
    &&& lab.genalgo_methods@[1] is Darwin
}

/// A sufficient condition for rebuilding one algo's population from its
/// generation results: an acceptable configuration, the built registry,
/// a usable elite pool smaller than the population, matching counts, and
/// a method that accepts the generation — RandomOpti always, Darwin when
/// the pool's scores are not degenerate.
pub open spec fn rebuild_accepts(lab: &Lab, id: int, res: &AlgoResult) -> bool {
    &&& cfg_acceptable(&lab.configs@[id])
    &&& registry_ok(lab)
    &&& res.nelite <= res.cells_data@.len()
    &&& res.nelite + res.exterior_elites@.len() >= 1
    &&& res.nelite + res.exterior_elites@.len() + 1 <= res.cells_data@.len()
    &&& lab.cells@[id]@.len() == res.cells_data@.len()
    &&& (cfg_random_opti(&lab.configs@[id]) || darwin_scores_ok(
        res.cells_data@.subrange(0, res.nelite as int) + res.exterior_elites@,
        res.cells_data@,
    ))
}

/// A sufficient condition for one full generation to succeed: an output
/// algo in range, the built registry, and a memoryless map without give
/// edges in which every algo holds at least one elite and strictly more
/// cells than elites.
pub open spec fn generation_ok(lab: &Lab) -> bool {
    &&& lab.out_algo matches Some(o) && o < lab.algos@.len()
    &&& registry_ok(lab)
    &&& lab.configs@.len() == lab.algos@.len()
    &&& lab.cells@.len() == lab.algos@.len()
    &&& forall|i: int|
        0 <= i < lab.configs@.len() ==> cfg_acceptable(&(#[trigger] lab.configs@[i]))
    &&& forall|i: int|
        0 <= i < lab.configs@.len() ==> cfg_random_opti(&(#[trigger] lab.configs@[i]))
    &&& forall|i: int|
        0 <= i < lab.configs@.len() ==> (#[trigger] lab.configs@[i]).give@.len() == 0
    &&& forall|i: int|
        0 <= i < lab.configs@.len() ==> spec_nelite_of(
            &(#[trigger] lab.configs@[i]),
            lab.config.npop as int,
            lab.config.elite_ratio as int,
        ) >= 1
    &&& forall|i: int|
        0 <= i < lab.cells@.len() ==> spec_nelite_of(
            &lab.configs@[i],
            lab.config.npop as int,
            lab.config.elite_ratio as int,
        ) + 1 <= (#[trigger] lab.cells@[i])@.len()
}

/// A sufficient condition for a whole run to succeed: the laboratory
/// validates, and it holds a memoryless map without give edges whose
/// every algo resolves to at least one elite and strictly more cells.
pub open spec fn start_ok(lab: &Lab) -> bool {
    &&& lab.config.npop >= MIN_POPULATION
    &&& lab.algo_configs_set
    &&& 1 <= lab.algos@.len()
    &&& (lab.algos@.len() == 1 || (lab.out_algo matches Some(o) && o < lab.algos@.len()))
    &&& forall|i: int|
        0 <= i < lab.configs@.len() ==> cfg_acceptable(&(#[trigger] lab.configs@[i]))
    &&& forall|i: int|
        0 <= i < lab.configs@.len() ==> cfg_random_opti(&(#[trigger] lab.configs@[i]))
    &&& forall|i: int|
        0 <= i < lab.configs@.len() ==> (#[trigger] lab.configs@[i]).give@.len() == 0
    &&& forall|i: int|
        0 <= i < lab.configs@.len() ==> spec_pop_of(
            &(#[trigger] lab.configs@[i]),
            lab.config.npop as int,
        ) <= POP_LIMIT
    &&& forall|i: int|
        0 <= i < lab.configs@.len() ==> spec_nelite_of(
            &(#[trigger] lab.configs@[i]),
            lab.config.npop as int,
            lab.config.elite_ratio as int,
        ) >= 1
    &&& forall|i: int|
        0 <= i < lab.configs@.len() ==> spec_nelite_of(
            &(#[trigger] lab.configs@[i]),
            lab.config.npop as int,
            lab.config.elite_ratio as int,
        ) + 1 <= spec_pop_of(&lab.configs@[i], lab.config.npop as int)
    &&& (lab.init_done ==> registry_ok(lab) && (forall|i: int|
        0 <= i < lab.cells@.len() ==> (#[trigger] lab.cells@[i])@.len() == spec_pop_of(
            &lab.configs@[i],
            lab.config.npop as int,
        )))
}

/// The engine: algos, their configurations and populations, the method
/// registry, and the run state.
pub struct Lab {
    /// One instance of every known method, built lazily at `start`.
    pub genalgo_methods: Vec<GenalgoMethod>,
    /// The registered algos, in registration order.
    pub algos: Vec<AlgoAvailable>,
    /// One configuration per algo.
    pub configs: Vec<AlgoConfiguration>,
    /// One seed genome per algo.
    pub bestgens: Vec<Genome>,
    /// One cell population per algo.
    pub cells: Vec<Vec<CellData>>,
    /// The algo the final best cell is read from.
    pub out_algo: Option<AlgoID>,
    /// The laboratory-wide configuration.
    pub config: LabConfig,
    /// True once populations have been initialised.
    pub init_done: bool,
    /// True once algo configurations have been installed.
    pub algo_configs_set: bool,
    /// The seed every random draw of a run derives from.
    pub seed: u64,
    /// The laboratory's own random source, used for seed genomes.
    pub rng: LabRng,
}

impl Lab {
    /// True when the laboratory's parallel vectors line up and all held
    /// state is within its operating bounds.
    pub open spec fn wf(&self) -> bool {
        &&& self.configs@.len() == self.algos@.len()
        &&& self.bestgens@.len() == self.algos@.len()
        &&& self.cells@.len() == self.algos@.len()
        &&& self.config.valid()
        &&& forall|i: int| 0 <= i < self.configs@.len() ==> (#[trigger] self.configs@[i]).valid()
        &&& forall|i: int| 0 <= i < self.algos@.len() ==> (#[trigger] self.algos@[i]).wf()
        &&& forall|i: int|
            0 <= i < self.bestgens@.len() ==> genome_wf((#[trigger] self.bestgens@[i])@)
        &&& forall|i: int|
            0 <= i < self.cells@.len() ==> algo_cells_ok(
                self.algos@[i],
                (#[trigger] self.cells@[i])@,
            )
        &&& forall|i: int|
            0 <= i < self.genalgo_methods@.len() ==> (#[trigger] self.genalgo_methods@[i]).wf()
    }

    /// An empty laboratory under the given configuration, drawing from
    /// seed zero until [`set_seed`](Self::set_seed) is called.
    pub fn new(config: LabConfig) -> (r: Lab)
        requires
            config.valid(),
        ensures
            r.wf(),
            r.algos@.len() == 0,
            r.out_algo is None,
            r.config == config,
            !r.init_done,
            !r.algo_configs_set,
    {
        Lab {
            genalgo_methods: Vec::new(),
            algos: Vec::new(),
            configs: Vec::new(),
            bestgens: Vec::new(),
            cells: Vec::new(),
            out_algo: Option::None,
            config,
            init_done: false,
            algo_configs_set: false,
            seed: 0,
            rng: LabRng::from_seed(0),
        }
    }

    /// Installs the seed every random draw of the next run derives from.
    pub fn set_seed(&mut self, seed: u64)
        requires
            old(self).wf(),
        ensures
            final(self).wf(),
            final(self).seed == seed,
            final(self).algos@ == old(self).algos@,
            final(self).out_algo == old(self).out_algo,
    {
        self.seed = seed;
        self.rng = LabRng::from_seed(seed);
    }

    /// Registers a new algo under the stock configuration, with a fresh
    /// random seed genome, and returns its identifier.
    pub fn register_new_algo(&mut self, algo: AlgoAvailable) -> (r: Result<AlgoID, Errcode>)
        requires
            old(self).wf(),
            algo.wf(),
        ensures
            final(self).wf(),
            r matches Ok(id) ==> id == old(self).algos@.len() && final(self).algos@.len() == old(
                self,
            ).algos@.len() + 1,
            r is Ok,
            final(self).bestgens@[old(self).algos@.len() as int]@.len() == spec_genome_length(
                algo,
            ),
            final(self).configs@[old(self).algos@.len() as int].valid(),
            cfg_acceptable(&final(self).configs@[old(self).algos@.len() as int]),
            final(self).configs@[old(self).algos@.len() as int]@.method == "Darwin"@,
            final(self).configs@[old(self).algos@.len() as int]@.give.len() == 0,
            final(self).configs@[old(self).algos@.len() as int]@.impr_genes is None,
            final(self).cells@[old(self).algos@.len() as int]@.len() == 0,
            forall|i: int|
                0 <= i < old(self).algos@.len() ==> #[trigger] final(self).algos@[i] == old(
                    self,
                ).algos@[i] && final(self).configs@[i] == old(self).configs@[i]
                    && final(self).bestgens@[i] == old(self).bestgens@[i]
                    && final(self).cells@[i] == old(self).cells@[i],
            final(self).config == old(self).config,
            final(self).out_algo == old(self).out_algo,
            final(self).init_done == old(self).init_done,
            final(self).algo_configs_set == old(self).algo_configs_set,
            final(self).genalgo_methods@ == old(self).genalgo_methods@,
    {
        self.configs.push(AlgoConfiguration::default());
        let glen = algo.genome_length();
        let bg = crate::cell::random_genome(&mut self.rng, glen);
        self.bestgens.push(bg);
        self.cells.push(Vec::new());
        self.algos.push(algo);
        Ok(self.algos.len() - 1)
    }

    /// Checks every configuration of a map: method names must be known,
    /// parameters in range, and options payloads fitting their method.
    fn validate_map(map: &Vec<AlgoConfiguration>) -> (r: Result<(), Errcode>)
        ensures
            r is Ok <==> forall|i: int| 0 <= i < map@.len() ==> cfg_acceptable(&map@[i]),
    {
        let n = map.len();
        for k in 0..n
            invariant
                map@.len() == n,
                forall|i: int| 0 <= i < k ==> cfg_acceptable(&map@[i]),
        {
            let cfg = &map[k];
            let method = match GenalgoMethodsAvailable::get_by_name(&cfg.method) {
                Option::Some(m) => m,
                Option::None => {
                    return Err(Errcode::ValidationError("genalgo method"));
                },
            };
            let options_fit: bool = match (method, &cfg.method_options) {
                (
                    GenalgoMethodsAvailable::Darwin,
                    GenalgoMethodsConfigurations::DarwinConfig(_),
                ) => true,
                (GenalgoMethodsAvailable::RandomOpti, GenalgoMethodsConfigurations::NoConfig) => true,
                _ => false,
            };
            if !options_fit {
                return Err(Errcode::ValidationError("method options"));
            }
            let in_range: bool = match cfg.population {
                crate::algo::AlgoPopulation::WeightofTot(w) => w
                    <= crate::algo::WEIGHT_OF_TOT_LIMIT,
                crate::algo::AlgoPopulation::FixedSize(s) => s <= POP_LIMIT,
            };
            if !in_range {
                return Err(Errcode::ValidationError("population share"));
            }
            match &cfg.method_options {
                GenalgoMethodsConfigurations::NoConfig => {
                },
                GenalgoMethodsConfigurations::DarwinConfig(c) => {
                    if !(c.exploration_scope_epoch_max >= 1 && c.gene_reroll_proba <= SCALE) {
                        return Err(Errcode::ValidationError("darwin method options"));
                    }
                },
            }
        }
        Ok(())
    }

    /// Replaces every algo configuration at once; the map must have one
    /// entry per registered algo and every entry must validate.
    pub fn apply_map(&mut self, map: Vec<AlgoConfiguration>) -> (r: Result<(), Errcode>)
        requires
            old(self).wf(),
        ensures
            final(self).wf(),
            r is Err ==> final(self).configs@ == old(self).configs@ && final(self).algo_configs_set
                == old(self).algo_configs_set,
            r is Ok ==> final(self).configs@ == map@ && final(self).algo_configs_set,
            r is Ok <==> map@.len() == old(self).algos@.len() && (forall|i: int|
                0 <= i < map@.len() ==> cfg_acceptable(&map@[i])),
            final(self).algos@ == old(self).algos@,
            final(self).cells@ == old(self).cells@,
            final(self).bestgens@ == old(self).bestgens@,
            final(self).config == old(self).config,
            final(self).out_algo == old(self).out_algo,
            final(self).init_done == old(self).init_done,
            final(self).genalgo_methods@ == old(self).genalgo_methods@,
    {
        if self.algos.len() != map.len() {
            return Err(Errcode::SizeError("map", self.algos.len(), map.len()));
        }
        match Self::validate_map(&map) {
            Ok(_) => {
            },
            Err(e) => {
                return Err(e);
            },
        }
        self.configs = map;
        self.algo_configs_set = true;
        Ok(())
    }

    /// Replaces one algo's configuration; the whole map must still
    /// validate, and the prior configuration is restored on failure.
    pub fn configure_algo(&mut self, id: AlgoID, config: AlgoConfiguration) -> (r: Result<
        (),
        Errcode,
    >)
        requires
            old(self).wf(),
        ensures
            final(self).wf(),
            r is Ok <==> id < old(self).algos@.len() && cfg_acceptable(&config),
            r is Ok ==> final(self).configs@[id as int]@ == config@ && final(self).algo_configs_set,
            r is Err ==> forall|i: int|
                0 <= i < final(self).configs@.len() ==> final(self).configs@[i]@ == old(
                    self,
                ).configs@[i]@,
            r is Ok ==> forall|i: int|
                0 <= i < final(self).configs@.len() && i != id ==> final(self).configs@[i] == old(
                    self,
                ).configs@[i],
            final(self).algos@ == old(self).algos@,
            final(self).configs@.len() == old(self).configs@.len(),
            final(self).cells@ == old(self).cells@,
            final(self).bestgens@ == old(self).bestgens@,
            final(self).config == old(self).config,
            final(self).out_algo == old(self).out_algo,
            final(self).init_done == old(self).init_done,
            final(self).genalgo_methods@ == old(self).genalgo_methods@,
    {
        if id >= self.algos.len() {
            return Err(Errcode::IdDoesntExist(id));
        }
        let single: Vec<AlgoConfiguration> = vec![config];
        match Self::validate_map(&single) {
            Ok(_) => {
            },
            Err(e) => {
                return Err(e);
            },
        }
        let mut single = single;
        let config = single.pop().unwrap();
        self.configs.set(id, config);
        self.algo_configs_set = true;
        Ok(())
    }

    /// Installs a seed genome for one algo, or for all of them.
    pub fn import_best_genome(&mut self, genome: Genome, algo_id: Option<AlgoID>) -> (r: Result<
        (),
        Errcode,
    >)
        requires
            old(self).wf(),
            genome_wf(genome@),
        ensures
            final(self).wf(),
            algo_id matches Some(id) ==> (r is Ok <==> id < old(self).algos@.len()),
            algo_id is None ==> r is Ok,
            r is Ok ==> (algo_id matches Some(id) ==> final(self).bestgens@[id as int]@
                == genome@),
            r is Ok && algo_id is None ==> forall|i: int|
                0 <= i < final(self).bestgens@.len() ==> (#[trigger] final(self).bestgens@[i])@
                    == genome@,
            r is Ok ==> (algo_id matches Some(id) ==> forall|i: int|
                0 <= i < final(self).bestgens@.len() && i != id ==> final(self).bestgens@[i]
                    == old(self).bestgens@[i]),
            final(self).algos@ == old(self).algos@,
            final(self).cells@ == old(self).cells@,
            final(self).configs@ == old(self).configs@,
            final(self).config == old(self).config,
            final(self).out_algo == old(self).out_algo,
            final(self).genalgo_methods@ == old(self).genalgo_methods@,
    {
        match algo_id {
            Option::Some(id) => {
                if id >= self.bestgens.len() {
                    return Err(Errcode::IdDoesntExist(id));
                }
                self.bestgens.set(id, genome);
                Ok(())
            },
            Option::None => {
                let n = self.bestgens.len();
                for k in 0..n
                    invariant
                        self.bestgens@.len() == n,
                        genome_wf(genome@),
                        forall|i: int|
                            0 <= i < k ==> (#[trigger] self.bestgens@[i])@ == genome@,
                        forall|i: int|
                            k <= i < n ==> self.bestgens@[i] == old(self).bestgens@[i],
                        self.algos@ == old(self).algos@,
                        self.configs@ == old(self).configs@,
                        self.cells@ == old(self).cells@,
                        self.genalgo_methods@ == old(self).genalgo_methods@,
                        self.config == old(self).config,
                        self.out_algo == old(self).out_algo,
                {
                    let g = clone_genome(&genome);
                    self.bestgens.set(k, g);
                }
                Ok(())
            },
        }
    }

    /// Exports the seed genome of the output algo.
    pub fn export_best_genome(&mut self) -> (r: Result<Genome, Errcode>)
        requires
            old(self).wf(),
        ensures
            *final(self) == *old(self),
            r is Ok <==> (old(self).out_algo matches Some(id) && id < old(self).bestgens@.len()),
            r matches Ok(g) ==> g@ == old(self).bestgens@[old(self).out_algo->Some_0 as int]@,
    {
        match self.out_algo {
            Option::Some(id) => {
                if id >= self.bestgens.len() {
                    return Err(Errcode::IdDoesntExist(id));
                }
                Ok(clone_genome(&self.bestgens[id]))
            },
            Option::None => Err(Errcode::NotSet("output algorithm")),
        }
    }

    /// Forwards a typed side-channel update to one algo.
    ///
    /// A message that changes the genome dimension is refused once the
    /// algo's population exists: the cells' genomes would no longer match.
    pub fn recv_special_data(&mut self, id: AlgoID, data: &SpecialData) -> (r: Result<(), Errcode>)
        requires
            old(self).wf(),
        ensures
            final(self).wf(),
            id >= old(self).algos@.len() ==> r is Err,
            final(self).algos@.len() == old(self).algos@.len(),
            final(self).cells@ == old(self).cells@,
            final(self).configs@ == old(self).configs@,
            final(self).bestgens@ == old(self).bestgens@,
            final(self).config == old(self).config,
            final(self).out_algo == old(self).out_algo,
            final(self).genalgo_methods@ == old(self).genalgo_methods@,
            forall|i: int|
                0 <= i < final(self).algos@.len() && i != id ==> final(self).algos@[i] == old(
                    self,
                ).algos@[i],
            id < old(self).algos@.len() && !(data@.nb_dimensions is Some && old(
                self,
            ).cells@[id as int]@.len() > 0) ==> {
                &&& (r is Ok <==> (old(self).algos@[id as int] is TestAlgo
                    || crate::algorithms::spec_recv_ok(data@)))
                &&& (r is Ok ==> (old(self).algos@[id as int] matches
                    AlgoAvailable::BenchmarkAlgo(b) ==> final(self).algos@[id as int]
                    == AlgoAvailable::BenchmarkAlgo(crate::algorithms::spec_recv_state(b, data@))))
            },
    {
        if id >= self.algos.len() {
            return Err(Errcode::IdDoesntExist(id));
        }
        if data.nb_dimensions.is_some() && self.cells[id].len() > 0 {
            return Err(
                Errcode::SpecialDataError(
                    "cannot change dimensions once the population exists".to_owned(),
                ),
            );
        }
        let ghost cells_was_empty: bool = self.cells@[id as int]@.len() == 0;
        let algo = &mut self.algos[id];
        let ghost algo_before: AlgoAvailable = *algo;
        let forwarded = algo.recv_special_data(data);
        proof {
            if !cells_was_empty {
                assert(data@.nb_dimensions is None);
                assert(spec_genome_length(self.algos@[id as int]) == spec_genome_length(
                    algo_before,
                ));
            }
        }
        match forwarded {
            Ok(_) => Ok(()),
            Err(e) => Err(Errcode::SpecialDataError(e)),
        }
    }

    /// Checks that the laboratory can start: enough population, at least
    /// one algo, an output algo when there are several, and a map whose
    /// every configuration validates.  A single algo becomes the output
    /// algo by default.
    fn validate_configuration(&mut self) -> (r: Result<(), Errcode>)
        requires
            old(self).wf(),
        ensures
            final(self).wf(),
            old(self).config.npop < MIN_POPULATION ==> r == Err::<(), Errcode>(
                Errcode::InsuffisantPopulation(old(self).config.npop, MIN_POPULATION),
            ) && *final(self) == *old(self),
            old(self).config.npop >= MIN_POPULATION && old(self).algos@.len() == 0 ==> (r matches
                Err(e) && e is NotSet) && *final(self) == *old(self),
            old(self).config.npop >= MIN_POPULATION && old(self).algos@.len() > 1 && old(
                self,
            ).out_algo is None ==> (r matches Err(e) && e is NotSet) && *final(self) == *old(self),
            r is Ok <==> {
                &&& old(self).config.npop >= MIN_POPULATION
                &&& old(self).algos@.len() >= 1
                &&& (old(self).algos@.len() == 1 || (old(self).out_algo matches Some(id) && id
                    < old(self).algos@.len()))
                &&& forall|i: int|
                    0 <= i < old(self).configs@.len() ==> cfg_acceptable(&old(self).configs@[i])
            },
            r is Ok ==> (final(self).out_algo matches Some(o) && o < final(self).algos@.len()),
            r is Ok ==> forall|i: int|
                0 <= i < final(self).configs@.len() ==> cfg_acceptable(&final(self).configs@[i]),
            final(self).algos@ == old(self).algos@,
            final(self).configs@ == old(self).configs@,
            final(self).cells@ == old(self).cells@,
            final(self).bestgens@ == old(self).bestgens@,
            final(self).genalgo_methods@ == old(self).genalgo_methods@,
            final(self).config == old(self).config,
            final(self).init_done == old(self).init_done,
            final(self).algo_configs_set == old(self).algo_configs_set,
            final(self).rng@ == old(self).rng@,
    {
        if self.config.npop < MIN_POPULATION {
            return Err(Errcode::InsuffisantPopulation(self.config.npop, MIN_POPULATION));
        }
        if self.algos.len() == 0 {
            return Err(Errcode::NotSet("lab algorithms"));
        }
        if self.algos.len() == 1 {
            self.out_algo = Option::Some(0);
        } else {
            match self.out_algo {
                Option::None => {
                    return Err(Errcode::NotSet("output algorithm"));
                },
                Option::Some(id) => {
                    if id >= self.algos.len() {
                        return Err(Errcode::IdDoesntExist(id));
                    }
                },
            }
        }
        match Self::validate_map(&self.configs) {
            Ok(_) => {
            },
            Err(e) => {
                return Err(e);
            },
        }
        Ok(())
    }

    /// The registry slot of a known method.
    fn method_index(m: GenalgoMethodsAvailable) -> (r: usize)
        ensures
            m is RandomOpti ==> r == 0,
            m is Darwin ==> r == 1,
    {
        match m {
            GenalgoMethodsAvailable::RandomOpti => 0,
            GenalgoMethodsAvailable::Darwin => 1,
        }
    }

    /// Builds the method registry — each method seeded stably from the
    /// laboratory seed, so every run of one configuration replays the
    /// same draws — and every algo's initial population, once; further
    /// calls within a run do nothing.
    ///
    /// Succeeds whenever configurations are installed and either the
    /// populations already exist or every configuration is acceptable,
    /// resolves within the population bound, and its method accepts the
    /// seed genome.
    fn init_lab(&mut self) -> (r: Result<(), Errcode>)
        requires
            old(self).wf(),
        ensures
            final(self).wf(),
            final(self).algos@.len() == old(self).algos@.len(),
            final(self).algos@ == old(self).algos@,
            final(self).configs@ == old(self).configs@,
            final(self).bestgens@ == old(self).bestgens@,
            final(self).out_algo == old(self).out_algo,
            final(self).config == old(self).config,
            !old(self).algo_configs_set ==> (r matches Err(e) && e is NotSet) && *final(self)
                == *old(self),
            old(self).algo_configs_set && old(self).init_done ==> r is Ok && *final(self) == *old(
                self,
            ),
            r is Ok && !old(self).init_done ==> registry_ok(final(self)) && (forall|i: int|
                0 <= i < final(self).cells@.len() ==> (#[trigger] final(self).cells@[i])@.len()
                    == spec_pop_of(&old(self).configs@[i], old(self).config.npop as int)),
            old(self).algo_configs_set && (old(self).init_done || (forall|i: int|
                0 <= i < old(self).configs@.len() ==> cfg_acceptable(
                    &(#[trigger] old(self).configs@[i]),
                ) && spec_pop_of(&old(self).configs@[i], old(self).config.npop as int)
                    <= POP_LIMIT && (cfg_random_opti(&old(self).configs@[i]) || spec_pop_of(
                    &old(self).configs@[i],
                    old(self).config.npop as int,
                ) == 0 || old(self).bestgens@[i]@.len() == 0 || old(self).bestgens@[i]@.len()
                    == spec_genome_length(old(self).algos@[i])))) ==> r is Ok,
    {
        if !self.algo_configs_set {
            return Err(Errcode::NotSet("algos configuration"));
        }
        if self.init_done {
            return Ok(());
        }
        let mut seeder = LabRng::from_seed(self.seed);
        let seed_random = seeder.next_u64();
        let seed_darwin = seeder.next_u64();
        let mut methods: Vec<GenalgoMethod> = Vec::new();
        methods.push(GenalgoMethodsAvailable::RandomOpti.build(seed_random));
        methods.push(GenalgoMethodsAvailable::Darwin.build(seed_darwin));
        self.genalgo_methods = methods;
        let nalgos = self.algos.len();
        for id in 0..nalgos
            invariant
                self.wf(),
                self.algos@.len() == nalgos,
                self.algos@ == old(self).algos@,
                self.configs@ == old(self).configs@,
                self.bestgens@ == old(self).bestgens@,
                self.out_algo == old(self).out_algo,
                self.config == old(self).config,
                self.algo_configs_set,
                old(self).algo_configs_set,
                !old(self).init_done,
                self.init_done == old(self).init_done,
                registry_ok(self),
                forall|i: int|
                    0 <= i < id ==> (#[trigger] self.cells@[i])@.len() == spec_pop_of(
                        &old(self).configs@[i],
                        old(self).config.npop as int,
                    ),
        {
            let pe = self.configs[id].get_pop_and_elite(self.config.npop, self.config.elite_ratio);
            let pop = pe.0;
            let elite = pe.1;
            if pop > POP_LIMIT {
                return Err(Errcode::ValidationError("algo population above the supported limit"));
            }
            if pop == 0 {
                self.cells.set(id, Vec::new());
            } else {
                let glen = self.algos[id].genome_length();
                let bestgen = clone_genome(&self.bestgens[id]);
                let mkind = match GenalgoMethodsAvailable::get_by_name(&self.configs[id].method) {
                    Option::Some(m) => m,
                    Option::None => {
                        return Err(Errcode::CodeError("unknown method during initialisation"));
                    },
                };
                let midx = Self::method_index(mkind);
                if midx >= self.genalgo_methods.len() {
                    return Err(Errcode::CodeError("method registry too small"));
                }
                let mut genomes: Vec<Genome> = Vec::new();
                let method = &mut self.genalgo_methods[midx];
                match method.load_config(&self.configs[id].method_options) {
                    Ok(_) => {
                    },
                    Err(e) => {
                        return Err(e);
                    },
                }
                match method.init_population(&bestgen, glen, pop, elite, &mut genomes) {
                    Ok(_) => {
                    },
                    Err(e) => {
                        return Err(e);
                    },
                }
                let ngenomes = genomes.len();
                let mut newcells: Vec<CellData> = Vec::new();
                for i in 0..ngenomes
                    invariant
                        genomes@.len() == ngenomes,
                        ngenomes <= POP_LIMIT,
                        id < self.algos@.len(),
                        self.algos@ == old(self).algos@,
                        emitted_ok(genomes@, 0, spec_genome_length(self.algos@[id as int]) as nat),
                        newcells@.len() == i,
                        forall|j: int|
                            0 <= j < i ==> genome_wf((#[trigger] newcells@[j])@.genome)
                                && newcells@[j]@.genome.len() == spec_genome_length(
                                self.algos@[id as int],
                            ),
                {
                    let c = self.algos[id].create_cell_from_genome(&genomes[i]);
                    newcells.push(c);
                }
                self.cells.set(id, newcells);
                let algo = &mut self.algos[id];
                let row = &mut self.cells[id];
                algo.initialize_cells(row);
            }
        }
        self.init_done = true;
        Ok(())
    }

    /// Runs one dataset through every algo: each record is handed to each
    /// algo in registration order, which scores its cells on it.
    fn run_on_dataset(&mut self, dataset: &mut DatasetHandler) -> (r: Result<(), Errcode>)
        requires
            old(self).wf(),
        ensures
            final(self).wf(),
            r is Ok,
            final(self).algos@.len() == old(self).algos@.len(),
            final(self).algos@ == old(self).algos@,
            final(self).configs@ == old(self).configs@,
            final(self).bestgens@ == old(self).bestgens@,
            final(self).genalgo_methods@ == old(self).genalgo_methods@,
            final(self).out_algo == old(self).out_algo,
            final(self).config == old(self).config,
            final(self).cells@.len() == old(self).cells@.len(),
            forall|i: int|
                0 <= i < final(self).cells@.len() ==> (#[trigger] final(self).cells@[i])@.len()
                    == old(self).cells@[i]@.len(),
    {
        dataset.prepare();
        let mut got: Option<crate::dataset::GenalgoData> = dataset.get_next_data();
        while got.is_some()
            invariant
                self.wf(),
                self.algos@ == old(self).algos@,
                self.configs@ == old(self).configs@,
                self.bestgens@ == old(self).bestgens@,
                self.genalgo_methods@ == old(self).genalgo_methods@,
                self.out_algo == old(self).out_algo,
                self.config == old(self).config,
                self.cells@.len() == old(self).cells@.len(),
                forall|i: int|
                    0 <= i < self.cells@.len() ==> (#[trigger] self.cells@[i])@.len() == old(
                        self,
                    ).cells@[i]@.len(),
            decreases dataset.remaining() + (if got is Some { 1int } else { 0int }),
        {
            let new_data = got.unwrap();
            let nalgos = self.algos.len();
            for n in 0..nalgos
                invariant
                    self.wf(),
                    self.algos@.len() == nalgos,
                    self.algos@ == old(self).algos@,
                    self.configs@ == old(self).configs@,
                    self.bestgens@ == old(self).bestgens@,
                    self.genalgo_methods@ == old(self).genalgo_methods@,
                    self.out_algo == old(self).out_algo,
                    self.config == old(self).config,
                    self.cells@.len() == old(self).cells@.len(),
                    forall|i: int|
                        0 <= i < self.cells@.len() ==> (#[trigger] self.cells@[i])@.len() == old(
                            self,
                        ).cells@[i]@.len(),
            {
                let algo = &mut self.algos[n];
                let row = &mut self.cells[n];
                algo.process_data(row, &new_data);
            }
            got = dataset.get_next_data();
        }
        Ok(())
    }

    /// Rebuilds one algo's population from its generation results: the
    /// method consumes the elite view and the sorted snapshots and emits
    /// one genome per cell; every cell is then rebound to its new genome
    /// with its score wiped and its version kept.
    ///
    /// Succeeds whenever [`rebuild_accepts`] holds; a failure leaves
    /// every population untouched.
    fn prepare_next_gen(&mut self, id: AlgoID, res: &AlgoResult) -> (r: Result<(), Errcode>)
        requires
            old(self).wf(),
            id < old(self).algos@.len(),
            algo_cells_ok(old(self).algos@[id as int], res.cells_data@),
            algo_cells_ok(old(self).algos@[id as int], res.exterior_elites@),
        ensures
            final(self).wf(),
            final(self).algos@ == old(self).algos@,
            final(self).configs@ == old(self).configs@,
            final(self).bestgens@ == old(self).bestgens@,
            final(self).out_algo == old(self).out_algo,
            final(self).config == old(self).config,
            final(self).cells@.len() == old(self).cells@.len(),
            final(self).genalgo_methods@.len() == old(self).genalgo_methods@.len(),
            registry_ok(old(self)) ==> registry_ok(final(self)),
            rebuild_accepts(old(self), id as int, res) ==> r is Ok,
            r is Ok ==> final(self).cells@[id as int]@.len() == res.cells_data@.len(),
            r is Ok ==> forall|j: int|
                0 <= j < final(self).cells@[id as int]@.len()
                    ==> (#[trigger] final(self).cells@[id as int]@[j])@.score == 0
                    && final(self).cells@[id as int]@[j]@.version
                    == old(self).cells@[id as int]@[j]@.version,
            r is Err ==> final(self).cells@ == old(self).cells@,
            forall|i: int|
                0 <= i < final(self).cells@.len() && i != id ==> final(self).cells@[i] == old(
                    self,
                ).cells@[i],
    {
        let glen = self.algos[id].genome_length();
        if res.nelite > res.cells_data.len() {
            return Err(Errcode::CodeError("elite count above the population size"));
        }
        let elites = res.get_elites();
        if elites.len() == 0 {
            return Err(Errcode::CodeError("no elites to rebuild from"));
        }
        if elites.len() + 1 > res.cells_data.len() {
            return Err(Errcode::CodeError("population too small for its elite pool"));
        }
        proof {
            assert forall|j: int| 0 <= j < elites@.len() implies genome_wf(
                (#[trigger] elites@[j])@.genome,
            ) && elites@[j]@.genome.len() == glen by {
                if j < res.nelite {
                    assert(elites@[j]@ == res.cells_data@[j]@);
                } else {
                    assert(elites@[j]@ == res.exterior_elites@[j - res.nelite]@);
                }
            }
        }
        let mkind = match GenalgoMethodsAvailable::get_by_name(&self.configs[id].method) {
            Option::Some(m) => m,
            Option::None => {
                return Err(Errcode::CodeError("unknown method during rebuild"));
            },
        };
        let midx = Self::method_index(mkind);
        if midx >= self.genalgo_methods.len() {
            return Err(Errcode::CodeError("method registry too small"));
        }
        proof {
            if !cfg_random_opti(&self.configs@[id as int]) && darwin_scores_ok(
                res.cells_data@.subrange(0, res.nelite as int) + res.exterior_elites@,
                res.cells_data@,
            ) {
                let pool = res.cells_data@.subrange(0, res.nelite as int) + res.exterior_elites@;
                assert forall|k: int| 0 <= k < elites@.len() implies (#[trigger] elites@[k])@.score
                    != 0 by {
                    if k < res.nelite {
                        assert(pool[k] == res.cells_data@[k]);
                        assert(elites@[k]@ == res.cells_data@[k]@);
                    } else {
                        assert(pool[k] == res.exterior_elites@[k - res.nelite]);
                        assert(elites@[k]@ == res.exterior_elites@[k - res.nelite]@);
                    }
                }
                assert(darwin_scores_ok(elites@, res.cells_data@));
            }
        }
        let mut genomes: Vec<Genome> = Vec::new();
        let method = &mut self.genalgo_methods[midx];
        match method.load_config(&self.configs[id].method_options) {
            Ok(_) => {
            },
            Err(e) => {
                return Err(e);
            },
        }
        match method.process_results(&elites, &res.cells_data, glen, &mut genomes) {
            Ok(_) => {
            },
            Err(e) => {
                return Err(e);
            },
        }
        if genomes.len() != self.cells[id].len() {
            return Err(Errcode::CodeError("genome list length differs from the cell count"));
        }
        let ngenomes = genomes.len();
        let mut newcells: Vec<CellData> = Vec::new();
        for i in 0..ngenomes
            invariant
                genomes@.len() == ngenomes,
                ngenomes <= POP_LIMIT,
                id < self.cells@.len(),
                self.cells@[id as int] == old(self).cells@[id as int],
                self.cells@[id as int]@.len() == ngenomes,
                emitted_ok(genomes@, 0, glen as nat),
                newcells@.len() == i,
                forall|j: int|
                    0 <= j < i ==> genome_wf((#[trigger] newcells@[j])@.genome)
                        && newcells@[j]@.genome.len() == glen,
                forall|j: int|
                    0 <= j < i ==> (#[trigger] newcells@[j])@.score == 0 && newcells@[j]@.version
                        == old(self).cells@[id as int]@[j]@.version,
        {
            let version = self.cells[id][i].version;
            let c = CellData { genome: clone_genome(&genomes[i]), score: 0, version };
            newcells.push(c);
        }
        self.cells.set(id, newcells);
        Ok(())
    }

    /// Runs one full generation: every dataset is drained through every
    /// algo, each algo's snapshots are sorted, elite clones travel the
    /// give-graph only after every algo has sorted, and each population is
    /// rebuilt by its method.  Returns the top cell of the output algo as
    /// captured at sort time.
    fn loop_gen(&mut self, datasets: &mut Vec<DatasetHandler>) -> (r: Result<CellData, Errcode>)
        requires
            old(self).wf(),
        ensures
            final(self).wf(),
            final(self).algos@.len() == old(self).algos@.len(),
            final(self).algos@ == old(self).algos@,
            final(self).configs@ == old(self).configs@,
            final(self).bestgens@ == old(self).bestgens@,
            final(self).out_algo == old(self).out_algo,
            final(self).config == old(self).config,
            final(self).cells@.len() == old(self).cells@.len(),
            final(self).genalgo_methods@.len() == old(self).genalgo_methods@.len(),
            registry_ok(old(self)) ==> registry_ok(final(self)),
            forall|i: int|
                0 <= i < final(self).cells@.len() ==> (#[trigger] final(self).cells@[i])@.len()
                    == old(self).cells@[i]@.len(),
            final(datasets)@.len() == old(datasets)@.len(),
            generation_ok(old(self)) ==> r is Ok,
            r matches Ok(cd) ==> genome_wf(cd@.genome),
            r matches Ok(cd) ==> (final(self).out_algo matches Some(o) && o
                < final(self).algos@.len() && cd@.genome.len() == spec_genome_length(
                final(self).algos@[o as int],
            )),
    {
        let ndatasets = datasets.len();
        for d in 0..ndatasets
            invariant
                self.wf(),
                datasets@.len() == ndatasets,
                self.algos@ == old(self).algos@,
                self.configs@ == old(self).configs@,
                self.bestgens@ == old(self).bestgens@,
                self.genalgo_methods@ == old(self).genalgo_methods@,
                self.out_algo == old(self).out_algo,
                self.config == old(self).config,
                self.cells@.len() == old(self).cells@.len(),
                forall|i: int|
                    0 <= i < self.cells@.len() ==> (#[trigger] self.cells@[i])@.len() == old(
                        self,
                    ).cells@[i]@.len(),
        {
            let ds = &mut datasets[d];
            match self.run_on_dataset(ds) {
                Ok(_) => {
                },
                Err(e) => {
                    return Err(e);
                },
            }
        }
        let out = match self.out_algo {
            Option::Some(o) => o,
            Option::None => {
                return Err(Errcode::CodeError("output algorithm not set"));
            },
        };
        let maximize = self.config.maximize_score;
        let nalgos = self.algos.len();
        if out >= nalgos {
            return Err(Errcode::IdDoesntExist(out));
        }
        let mut results: Vec<AlgoResult> = Vec::new();
        for id in 0..nalgos
            invariant
                self.wf(),
                self.algos@.len() == nalgos,
                self.algos@ == old(self).algos@,
                self.configs@ == old(self).configs@,
                self.out_algo == old(self).out_algo,
                self.config == old(self).config,
                datasets@.len() == old(datasets)@.len(),
                self.bestgens@ == old(self).bestgens@,
                self.genalgo_methods@ == old(self).genalgo_methods@,
                self.cells@.len() == old(self).cells@.len(),
                forall|i: int|
                    0 <= i < self.cells@.len() ==> (#[trigger] self.cells@[i])@.len() == old(
                        self,
                    ).cells@[i]@.len(),
                results@.len() == id,
                forall|k: int|
                    0 <= k < id ==> (#[trigger] results@[k]).cells_data@.len() == 0
                        && results@[k].exterior_elites@.len() == 0,
                forall|k: int|
                    0 <= k < id ==> (#[trigger] results@[k]).nelite == spec_nelite_of(
                        &self.configs@[k],
                        self.config.npop as int,
                        self.config.elite_ratio as int,
                    ),
        {
            let pe = self.configs[id].get_pop_and_elite(self.config.npop, self.config.elite_ratio);
            results.push(AlgoResult::new(pe.1));
        }
        for id in 0..nalgos
            invariant
                self.wf(),
                self.algos@.len() == nalgos,
                self.algos@ == old(self).algos@,
                self.configs@ == old(self).configs@,
                self.out_algo == old(self).out_algo,
                self.config == old(self).config,
                datasets@.len() == old(datasets)@.len(),
                self.bestgens@ == old(self).bestgens@,
                self.genalgo_methods@ == old(self).genalgo_methods@,
                forall|i: int|
                    0 <= i < self.cells@.len() ==> (#[trigger] self.cells@[i])@.len() == old(
                        self,
                    ).cells@[i]@.len(),
                results@.len() == nalgos,
                self.cells@.len() == nalgos,
                old(self).cells@.len() == nalgos,
                forall|k: int|
                    0 <= k < id ==> algo_cells_ok(
                        self.algos@[k],
                        (#[trigger] results@[k]).cells_data@,
                    ),
                forall|k: int|
                    0 <= k < id ==> (#[trigger] results@[k]).cells_data@.len()
                        == self.cells@[k]@.len(),
                forall|k: int|
                    id <= k < nalgos ==> (#[trigger] results@[k]).cells_data@.len() == 0,
                forall|k: int|
                    0 <= k < nalgos ==> (#[trigger] results@[k]).exterior_elites@.len() == 0,
                forall|k: int|
                    0 <= k < nalgos ==> (#[trigger] results@[k]).nelite == spec_nelite_of(
                        &self.configs@[k],
                        self.config.npop as int,
                        self.config.elite_ratio as int,
                    ),
        {
            let r = &mut results[id];
            let row = &self.cells[id];
            r.load_cells(row);
            let ghost loaded: Seq<CellData> = r.cells_data@;
            proof {
                assert(algo_cells_ok(self.algos@[id as int], loaded)) by {
                    assert forall|j: int| 0 <= j < loaded.len() implies genome_wf(
                        (#[trigger] loaded[j])@.genome,
                    ) && loaded[j]@.genome.len() == spec_genome_length(self.algos@[id as int]) by {
                        assert(loaded[0 + j]@ == self.cells@[id as int]@[j]@);
                    }
                }
            }
            match r.sort_cells(maximize) {
                Ok(_) => {
                },
                Err(e) => {
                    return Err(e);
                },
            }
            proof {
                lemma_multiset_preserves_cells_ok(self.algos@[id as int], loaded, r.cells_data@);
            }
        }
        if results[out].cells_data.len() == 0 {
            return Err(Errcode::CodeError("output algo has no cells"));
        }
        let top_cell: CellData = results[out].cells_data[0].clone_cell();
        for id in 0..nalgos
            invariant
                self.wf(),
                self.algos@.len() == nalgos,
                self.algos@ == old(self).algos@,
                self.configs@ == old(self).configs@,
                self.out_algo == old(self).out_algo,
                self.config == old(self).config,
                datasets@.len() == old(datasets)@.len(),
                self.bestgens@ == old(self).bestgens@,
                self.genalgo_methods@ == old(self).genalgo_methods@,
                forall|i: int|
                    0 <= i < self.cells@.len() ==> (#[trigger] self.cells@[i])@.len() == old(
                        self,
                    ).cells@[i]@.len(),
                results@.len() == nalgos,
                self.cells@.len() == nalgos,
                old(self).cells@.len() == nalgos,
                forall|k: int|
                    0 <= k < nalgos ==> algo_cells_ok(
                        self.algos@[k],
                        (#[trigger] results@[k]).cells_data@,
                    ),
                forall|k: int|
                    0 <= k < nalgos ==> algo_cells_ok(
                        self.algos@[k],
                        (#[trigger] results@[k]).exterior_elites@,
                    ),
                forall|k: int|
                    0 <= k < nalgos ==> (#[trigger] results@[k]).cells_data@.len()
                        == self.cells@[k]@.len(),
                forall|k: int|
                    0 <= k < nalgos ==> (#[trigger] results@[k]).nelite == spec_nelite_of(
                        &self.configs@[k],
                        self.config.npop as int,
                        self.config.elite_ratio as int,
                    ),
                generation_ok(old(self)) ==> forall|k: int|
                    0 <= k < nalgos ==> (#[trigger] results@[k]).exterior_elites@.len() == 0,
        {
            let ngive = self.configs[id].give.len();
            for t in 0..ngive
                invariant
                    self.wf(),
                    self.algos@.len() == nalgos,
                    self.algos@ == old(self).algos@,
                    self.configs@ == old(self).configs@,
                    self.out_algo == old(self).out_algo,
                    self.config == old(self).config,
                    datasets@.len() == old(datasets)@.len(),
                    self.bestgens@ == old(self).bestgens@,
                    self.genalgo_methods@ == old(self).genalgo_methods@,
                    forall|i: int|
                    0 <= i < self.cells@.len() ==> (#[trigger] self.cells@[i])@.len() == old(
                        self,
                    ).cells@[i]@.len(),
                    results@.len() == nalgos,
                    self.cells@.len() == nalgos,
                    old(self).cells@.len() == nalgos,
                    id < nalgos,
                    self.configs@[id as int].give@.len() == ngive,
                    forall|k: int|
                        0 <= k < nalgos ==> algo_cells_ok(
                            self.algos@[k],
                            (#[trigger] results@[k]).cells_data@,
                        ),
                    forall|k: int|
                        0 <= k < nalgos ==> algo_cells_ok(
                            self.algos@[k],
                            (#[trigger] results@[k]).exterior_elites@,
                        ),
                    forall|k: int|
                        0 <= k < nalgos ==> (#[trigger] results@[k]).cells_data@.len()
                            == self.cells@[k]@.len(),
                    forall|k: int|
                        0 <= k < nalgos ==> (#[trigger] results@[k]).nelite == spec_nelite_of(
                            &self.configs@[k],
                            self.config.npop as int,
                            self.config.elite_ratio as int,
                        ),
                    generation_ok(old(self)) ==> forall|k: int|
                        0 <= k < nalgos ==> (#[trigger] results@[k]).exterior_elites@.len() == 0,
            {
                let togive = self.configs[id].give[t];
                if togive >= nalgos {
                    return Err(Errcode::IdDoesntExist(togive));
                }
                if results[id].nelite > results[id].cells_data.len() {
                    return Err(Errcode::CodeError("elite count above the population size"));
                }
                let src_len = self.algos[id].genome_length();
                let dst_len = self.algos[togive].genome_length();
                if src_len != dst_len {
                    return Err(
                        Errcode::CodeError("give edge between algos of different genome length"),
                    );
                }
                if results[togive].exterior_elites.len() > POP_LIMIT - results[id].nelite {
                    return Err(Errcode::CodeError("exterior elite pool overflow"));
                }
                let top = results[id].clone_top_cells();
                let ghost topg = top@;
                let ghost ext_before = results@[togive as int].exterior_elites@;
                let dst = &mut results[togive];
                dst.push_exterior(top);
                proof {
                    assert forall|j: int|
                        0 <= j < results@[togive as int].exterior_elites@.len() implies genome_wf(
                        (#[trigger] results@[togive as int].exterior_elites@[j])@.genome,
                    ) && results@[togive as int].exterior_elites@[j]@.genome.len()
                        == spec_genome_length(self.algos@[togive as int]) by {
                        if j < ext_before.len() {
                            assert(results@[togive as int].exterior_elites@[j] == ext_before[j]);
                        } else {
                            assert(results@[togive as int].exterior_elites@[j] == topg[j
                                - ext_before.len()]);
                            assert(topg[j - ext_before.len()]@ == results@[id as int].cells_data@[j
                                - ext_before.len()]@);
                        }
                    }
                }
            }
        }
        for id in 0..nalgos
            invariant
                self.wf(),
                self.algos@.len() == nalgos,
                self.algos@ == old(self).algos@,
                self.configs@ == old(self).configs@,
                self.out_algo == old(self).out_algo,
                self.config == old(self).config,
                datasets@.len() == old(datasets)@.len(),
                self.bestgens@ == old(self).bestgens@,
                self.genalgo_methods@.len() == old(self).genalgo_methods@.len(),
                registry_ok(old(self)) ==> registry_ok(self),
                forall|i: int|
                    0 <= i < self.cells@.len() ==> (#[trigger] self.cells@[i])@.len() == old(
                        self,
                    ).cells@[i]@.len(),
                results@.len() == nalgos,
                self.cells@.len() == nalgos,
                old(self).cells@.len() == nalgos,
                forall|k: int|
                    0 <= k < nalgos ==> algo_cells_ok(
                        self.algos@[k],
                        (#[trigger] results@[k]).cells_data@,
                    ),
                forall|k: int|
                    0 <= k < nalgos ==> algo_cells_ok(
                        self.algos@[k],
                        (#[trigger] results@[k]).exterior_elites@,
                    ),
                forall|k: int|
                    id <= k < nalgos ==> (#[trigger] results@[k]).cells_data@.len()
                        == self.cells@[k]@.len(),
                forall|k: int|
                    0 <= k < nalgos ==> (#[trigger] results@[k]).nelite == spec_nelite_of(
                        &self.configs@[k],
                        self.config.npop as int,
                        self.config.elite_ratio as int,
                    ),
                generation_ok(old(self)) ==> forall|k: int|
                    0 <= k < nalgos ==> (#[trigger] results@[k]).exterior_elites@.len() == 0,
        {
            let res = &results[id];
            match self.prepare_next_gen(id, res) {
                Ok(_) => {
                },
                Err(e) => {
                    return Err(e);
                },
            }
            let algo = &mut self.algos[id];
            algo.reset();
            proof {
                assert(self.algos@ =~= old(self).algos@);
            }
        }
        Ok(top_cell)
    }

    /// Validates the configuration, initialises the populations once, and
    /// runs `ngeneration` generations; returns the best cell of the last
    /// generation's output algo.
    ///
    /// A budget below [`MIN_POPULATION`] is refused before anything is
    /// touched; an empty laboratory and a missing output algo are refused
    /// with `NotSet`.
    pub fn start(&mut self, ngeneration: usize, datasets: &mut Vec<DatasetHandler>) -> (r: Result<
        CellData,
        Errcode,
    >)
        requires
            old(self).wf(),
            1 <= ngeneration,
        ensures
            final(self).wf(),
            final(datasets)@.len() == old(datasets)@.len(),
            old(self).config.npop < MIN_POPULATION ==> r == Err::<CellData, Errcode>(
                Errcode::InsuffisantPopulation(old(self).config.npop, MIN_POPULATION),
            ) && *final(self) == *old(self),
            old(self).config.npop >= MIN_POPULATION && old(self).algos@.len() == 0 ==> (r matches
                Err(e) && e is NotSet) && *final(self) == *old(self),
            old(self).config.npop >= MIN_POPULATION && old(self).algos@.len() > 1 && old(
                self,
            ).out_algo is None ==> (r matches Err(e) && e is NotSet) && *final(self) == *old(self),
            !old(self).algo_configs_set && old(self).config.npop >= MIN_POPULATION && old(
                self,
            ).algos@.len() >= 1 && (old(self).algos@.len() == 1 || (old(self).out_algo matches
                Some(o) && o < old(self).algos@.len())) && (forall|i: int|
                0 <= i < old(self).configs@.len() ==> cfg_acceptable(
                    &(#[trigger] old(self).configs@[i]),
                )) ==> (r matches Err(e) && e is NotSet) && final(self).algos@ == old(
                self,
            ).algos@ && final(self).configs@ == old(self).configs@ && final(self).cells@ == old(
                self,
            ).cells@ && final(self).bestgens@ == old(self).bestgens@,
            !old(self).algo_configs_set && old(self).config.npop >= MIN_POPULATION ==> r is Err,
            start_ok(old(self)) ==> r is Ok,
            r is Ok ==> !final(self).init_done && final(self).genalgo_methods@.len() == 0 && (
            forall|i: int|
                0 <= i < final(self).cells@.len()
                    ==> (#[trigger] final(self).cells@[i])@.len() == 0),
            r matches Ok(cd) ==> genome_wf(cd@.genome),
            r matches Ok(cd) ==> (final(self).out_algo matches Some(o) && o
                < final(self).algos@.len() && cd@.genome.len() == spec_genome_length(
                final(self).algos@[o as int],
            )),
    {
        match self.validate_configuration() {
            Ok(_) => {
                proof {
                    assert(old(self).config.npop >= MIN_POPULATION);
                }
            },
            Err(e) => {
                return Err(e);
            },
        }
        match self.init_lab() {
            Ok(_) => {
            },
            Err(e) => {
                return Err(e);
            },
        }
        let mut top_cell: Option<CellData> = Option::None;
        for g in 0..ngeneration
            invariant
                self.wf(),
                old(self).config.npop >= MIN_POPULATION,
                old(self).algos@.len() >= 1,
                old(self).algos@.len() > 1 ==> old(self).out_algo is Some,
                old(self).algo_configs_set,
                self.algos@ == old(self).algos@,
                datasets@.len() == old(datasets)@.len(),
                start_ok(old(self)) ==> generation_ok(self),
                top_cell matches Some(c) ==> genome_wf(c@.genome),
                top_cell matches Some(c) ==> (self.out_algo matches Some(o) && o
                    < self.algos@.len() && c@.genome.len() == spec_genome_length(
                    self.algos@[o as int],
                )),
                g >= 1 ==> top_cell is Some,
        {
            let cd = match self.loop_gen(datasets) {
                Ok(c) => c,
                Err(e) => {
                    return Err(e);
                },
            };
            top_cell = Option::Some(cd);
        }
        match top_cell {
            Option::Some(c) => {
                // completion: back to the configured state, per-run state
                // dropped, so the next run replays from the seed
                self.genalgo_methods = Vec::new();
                self.init_done = false;
                let nalgos = self.algos.len();
                for id in 0..nalgos
                    invariant
                        self.wf(),
                        self.algos@.len() == nalgos,
                        self.cells@.len() == nalgos,
                        self.genalgo_methods@.len() == 0,
                        !self.init_done,
                        datasets@.len() == old(datasets)@.len(),
                        genome_wf(c@.genome),
                        self.out_algo matches Some(o) && o < self.algos@.len() && c@.genome.len()
                            == spec_genome_length(self.algos@[o as int]),
                        forall|i: int|
                            0 <= i < id ==> (#[trigger] self.cells@[i])@.len() == 0,
                {
                    self.cells.set(id, Vec::new());
                }
                Ok(c)
            },
            Option::None => Err(Errcode::CodeError("no generation was run")),
        }
    }

    /// Forwards a typed side-channel query to one algo.
    pub fn send_special_data(&self, id: AlgoID, params: &SpecialQuery) -> (r: Result<
        Genome,
        Errcode,
    >)
        requires
            self.wf(),
        ensures
            id >= self.algos@.len() ==> r is Err,
            id < self.algos@.len() ==> {
                &&& (self.algos@[id as int] is TestAlgo ==> r is Err)
                &&& (self.algos@[id as int] matches AlgoAvailable::BenchmarkAlgo(b) ==> match (
                *params) {
                    SpecialQuery::ExpectedOptimum { scope } => {
                        &&& (r is Ok <==> (scope matches Some(s)
                            && crate::algorithms::benchmark_fcts::scope_wf(s) && s.0 <= 0 <= s.1
                            && !(b.math_fct is Nofct)))
                        &&& (r matches Ok(g) ==> scope matches Some(s) && g@.len()
                            == b.fct_dimension && (forall|i: int|
                            0 <= i < g@.len() ==> g@[i]
                                == crate::algorithms::benchmark_fcts::spec_gene_of_coord(s, 0)))
                    },
                })
            },
    {
        if id >= self.algos.len() {
            return Err(Errcode::IdDoesntExist(id));
        }
        match self.algos[id].send_special_data(params) {
            Ok(d) => Ok(d),
            Err(e) => Err(Errcode::SpecialDataError(e)),
        }
    }
}

/// A sequence holding the same cells as a well-formed one, in any order,
/// is well formed itself.
proof fn lemma_multiset_preserves_cells_ok(a: AlgoAvailable, s1: Seq<CellData>, s2: Seq<CellData>)
    requires
        algo_cells_ok(a, s1),
        s2.to_multiset() == s1.to_multiset(),
        s2.len() == s1.len(),
    ensures
        algo_cells_ok(a, s2),
{
    broadcast use vstd::seq_lib::group_to_multiset_ensures;

    assert forall|j: int| 0 <= j < s2.len() implies genome_wf((#[trigger] s2[j])@.genome)
        && s2[j]@.genome.len() == spec_genome_length(a) by {
        assert(s2.contains(s2[j]));
        assert(s1.to_multiset().count(s2[j]) > 0);
        assert(s1.contains(s2[j]));
        let i = choose|i: int| 0 <= i < s1.len() && s1[i] == s2[j];
        assert(genome_wf(s1[i]@.genome));
    }
}

} // verus!
