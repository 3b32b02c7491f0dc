//! The variation methods and their registry.
//!
//! A method consumes the elites and the sorted population of one algo and
//! emits the genomes of the next generation.  Methods are addressed by name
//! through [`GenalgoMethodsAvailable`] and dispatched as tagged variants.

pub mod darwin_method;
pub mod random_opti;

use crate::cell::{emitted_ok, genome_wf, CellData, Genome};
use crate::errors::Errcode;
use crate::fixed::POP_LIMIT;
use darwin_method::{cells_ok, darwin_scores_ok};
use vstd::prelude::*;

verus! {

/// The set of variation methods the laboratory knows.
#[derive(Clone, Copy, Debug, PartialEq, Eq, Structural)]
pub enum GenalgoMethodsAvailable {
    /// Pure uniform re-draw of the whole population.
    RandomOpti,
    /// The Darwin method: hybrid exploitation and exploration.
    Darwin,
}

/// The method a name designates, if any.
pub open spec fn spec_method_by_name(name: Seq<char>) -> Option<GenalgoMethodsAvailable> {
    if name == "Darwin"@ {
        Some(GenalgoMethodsAvailable::Darwin)
    } else if name == "RandomOpti"@ {
        Some(GenalgoMethodsAvailable::RandomOpti)
    } else {
        None
    }
}

impl GenalgoMethodsAvailable {
    /// Resolves a method name; `None` for an unknown name.
    pub fn get_by_name(name: &String) -> (r: Option<GenalgoMethodsAvailable>)
        ensures
            r == spec_method_by_name(name@),
    {
        let darwin: String = "Darwin".to_owned();
        let random_opti: String = "RandomOpti".to_owned();
        if name.eq(&darwin) {
            Some(GenalgoMethodsAvailable::Darwin)
        } else if name.eq(&random_opti) {
            Some(GenalgoMethodsAvailable::RandomOpti)
        } else {
            None
        }
    }

    /// The method used when a configuration names none.
    pub fn default() -> (r: GenalgoMethodsAvailable)
        ensures
            r == GenalgoMethodsAvailable::Darwin,
    {
        GenalgoMethodsAvailable::Darwin
    }

    /// This method's name, as [`get_by_name`](Self::get_by_name) resolves it.
    pub fn name(&self) -> (r: String)
        ensures
            spec_method_by_name(r@) == Some(*self),
    {
        match self {
            GenalgoMethodsAvailable::Darwin => {
                let n: String = "Darwin".to_owned();
                proof {
                    reveal_strlit("Darwin");
                    reveal_strlit("RandomOpti");
                }
                n
            },
            GenalgoMethodsAvailable::RandomOpti => {
                let n: String = "RandomOpti".to_owned();
                proof {
                    reveal_strlit("Darwin");
                    reveal_strlit("RandomOpti");
                    assert("Darwin"@.len() == 6);
                    assert("RandomOpti"@.len() == 10);
                }
                n
            },
        }
    }
}

/// Configuration payload of a method, a tagged union.
#[derive(Clone, Copy, Debug, PartialEq, Eq, Structural)]
pub enum GenalgoMethodsConfigurations {
    /// For methods that take no options.
    NoConfig,
    /// Options of the Darwin method.
    DarwinConfig(darwin_method::DarwinMethodConfiguration),
}

impl GenalgoMethodsConfigurations {
    /// The stock payload for the given method.
    pub fn default(method: GenalgoMethodsAvailable) -> (r: GenalgoMethodsConfigurations)
        ensures
            method is Darwin ==> r == GenalgoMethodsConfigurations::DarwinConfig(
                darwin_method::DarwinMethodConfiguration::spec_default(),
            ),
            method is RandomOpti ==> r == GenalgoMethodsConfigurations::NoConfig,
    {
        match method {
            GenalgoMethodsAvailable::Darwin => GenalgoMethodsConfigurations::DarwinConfig(
                darwin_method::DarwinMethodConfiguration::default(),
            ),
            GenalgoMethodsAvailable::RandomOpti => GenalgoMethodsConfigurations::NoConfig,
        }
    }

    /// True when this payload is in range for the method it configures.
    pub open spec fn valid(&self) -> bool {
        match self {
            GenalgoMethodsConfigurations::NoConfig => true,
            GenalgoMethodsConfigurations::DarwinConfig(c) => c.valid(),
        }
    }
}

/// One method instance, dispatched as a tagged variant.
pub enum GenalgoMethod {
    /// A [`random_opti::RandomOpti`] instance.
    RandomOpti(random_opti::RandomOpti),
    /// A [`darwin_method::DarwinMethod`] instance.
    Darwin(darwin_method::DarwinMethod),
}

impl GenalgoMethodsAvailable {
    /// Builds a fresh instance of this method, drawing from `seed`.
    pub fn build(&self, seed: u64) -> (r: GenalgoMethod)
        ensures
            r.wf(),
            *self is Darwin <==> r is Darwin,
            *self is RandomOpti <==> r is RandomOpti,
    {
        match self {
            GenalgoMethodsAvailable::Darwin => GenalgoMethod::Darwin(
                darwin_method::DarwinMethod::new(seed),
            ),
            GenalgoMethodsAvailable::RandomOpti => GenalgoMethod::RandomOpti(
                random_opti::RandomOpti::new(seed),
            ),
        }
    }
}

impl GenalgoMethod {
    /// True when the instance's configuration and per-run memory are in
    /// range.
    pub open spec fn wf(&self) -> bool {
        match self {
            GenalgoMethod::RandomOpti(_) => true,
            GenalgoMethod::Darwin(d) => d.wf(),
        }
    }

    /// True when the instance's configuration alone is in range.
    pub open spec fn config_ok(&self) -> bool {
        match self {
            GenalgoMethod::RandomOpti(_) => true,
            GenalgoMethod::Darwin(d) => d.config.valid(),
        }
    }

    /// Installs a configuration payload; refused when the payload's
    /// variant does not fit the method.
    pub fn load_config(&mut self, cfg: &GenalgoMethodsConfigurations) -> (r: Result<(), Errcode>)
        requires
            old(self).wf(),
            cfg.valid(),
        ensures
            final(self).wf(),
            r is Ok <==> (*old(self) is Darwin <==> *cfg is DarwinConfig),
            r is Err ==> *final(self) == *old(self),
            *old(self) is Darwin <==> *final(self) is Darwin,
    {
        match self {
            GenalgoMethod::Darwin(d) => match cfg {
                GenalgoMethodsConfigurations::DarwinConfig(c) => {
                    d.load_config(c);
                    Ok(())
                },
                GenalgoMethodsConfigurations::NoConfig => Err(
                    Errcode::CodeError("darwin method configured without a darwin payload"),
                ),
            },
            GenalgoMethod::RandomOpti(_) => match cfg {
                GenalgoMethodsConfigurations::NoConfig => Ok(()),
                GenalgoMethodsConfigurations::DarwinConfig(_) => Err(
                    Errcode::CodeError("methodless payload expected for this method"),
                ),
            },
        }
    }

    /// Emits the genomes of an initial population of `nb_cells` cells.
    ///
    /// Succeeds whenever the best genome is empty or has the algo's
    /// length; the Darwin method refuses any other length.
    pub fn init_population(
        &mut self,
        bestgen: &Genome,
        genome_length: usize,
        nb_cells: usize,
        nb_elites: usize,
        res: &mut Vec<Genome>,
    ) -> (r: Result<(), Errcode>)
        requires
            old(self).wf(),
            genome_wf(bestgen@),
            bestgen@.len() != 0 ==> 1 <= nb_cells,
            nb_elites <= nb_cells,
        ensures
            final(self).wf(),
            bestgen@.len() == 0 || bestgen@.len() == genome_length ==> r is Ok,
            *old(self) is RandomOpti ==> r is Ok,
            *old(self) is Darwin <==> *final(self) is Darwin,
            r is Ok ==> final(res)@.len() == old(res)@.len() + nb_cells,
            r is Ok ==> forall|i: int|
                0 <= i < old(res)@.len() ==> final(res)@[i] == old(res)@[i],
            r is Ok ==> emitted_ok(final(res)@, old(res)@.len() as int, genome_length as nat),
            r is Err ==> final(res)@ == old(res)@,
    {
        match self {
            GenalgoMethod::Darwin(d) => d.init_population(
                bestgen,
                genome_length,
                nb_cells,
                nb_elites,
                res,
            ),
            GenalgoMethod::RandomOpti(m) => m.init_population(
                bestgen,
                genome_length,
                nb_cells,
                res,
            ),
        }
    }

    /// Consumes the elites and the sorted population of one generation and
    /// emits exactly one genome per current cell.
    ///
    /// Under the Darwin method the first emitted genome is the rank-zero
    /// elite itself.
    pub fn process_results(
        &mut self,
        elites: &Vec<CellData>,
        cells: &Vec<CellData>,
        genome_length: usize,
        genomes: &mut Vec<Genome>,
    ) -> (r: Result<(), Errcode>)
        requires
            old(self).wf(),
            1 <= elites@.len(),
            elites@.len() + 1 <= cells@.len(),
            cells@.len() <= POP_LIMIT,
            cells_ok(cells@, genome_length as nat),
            cells_ok(elites@, genome_length as nat),
        ensures
            final(self).wf(),
            r is Ok ==> final(genomes)@.len() == old(genomes)@.len() + cells@.len(),
            r is Ok ==> forall|i: int|
                0 <= i < old(genomes)@.len() ==> final(genomes)@[i] == old(genomes)@[i],
            r is Ok ==> emitted_ok(
                final(genomes)@,
                old(genomes)@.len() as int,
                genome_length as nat,
            ),
            r is Ok && *old(self) is Darwin ==> final(genomes)@[old(genomes)@.len() as int]@
                == elites@[0]@.genome,
            *old(self) is RandomOpti ==> r is Ok,
            *old(self) is Darwin && darwin_scores_ok(elites@, cells@) ==> r is Ok,
            *old(self) is Darwin <==> *final(self) is Darwin,
            r is Err ==> final(genomes)@ == old(genomes)@,
    {
        match self {
            GenalgoMethod::Darwin(d) => d.process_results(elites, cells, genome_length, genomes),
            GenalgoMethod::RandomOpti(m) => m.process_results(
                elites,
                cells,
                genome_length,
                genomes,
            ),
        }
    }

    /// Clears per-run memory for a new run: the Darwin method returns to
    /// its fresh state, in which the next generation seeds the best
    /// genome unconditionally.
    pub fn reset(&mut self)
        ensures
            old(self).wf() ==> final(self).wf(),
            *old(self) is Darwin <==> *final(self) is Darwin,
            *old(self) matches GenalgoMethod::Darwin(d) ==> (*final(self) matches
                GenalgoMethod::Darwin(d2) && d2.epoch_last_new_best == 0
                && d2.last_best_cell@.len() == 0 && d2.bestcell_avg.sumweights == 0),
    {
        match self {
            GenalgoMethod::Darwin(d) => d.reset(),
            GenalgoMethod::RandomOpti(m) => m.reset(),
        }
    }

    /// Accepts the instance's configuration exactly when it is in range.
    pub fn validate_config(&self) -> (r: Result<(), Errcode>)
        ensures
            r is Ok <==> self.config_ok(),
    {
        match self {
            GenalgoMethod::Darwin(d) => d.validate_config(),
            GenalgoMethod::RandomOpti(m) => m.validate_config(),
        }
    }
}

} // verus!
