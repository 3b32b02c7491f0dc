//! Map assistants: builders of validated algo-configuration lists.

pub mod wheel;

use crate::algo::{AlgoConfiguration, AlgoPopulation};
use crate::errors::Errcode;
use crate::fixed::SCALE;
use crate::genalgomethods::GenalgoMethodsConfigurations;
use vstd::prelude::*;
use wheel::WheelFormat;

verus! {

/// The known map formats, dispatched as a tagged variant.
pub enum LabMapFormatType {
    /// The wheel topology.
    WheelFormat(WheelFormat),
}

impl LabMapFormatType {
    /// Resolves a format name; the wheel is the only format so far.
    pub fn from(format_str: String) -> (r: LabMapFormatType)
        requires
            format_str@ == "WheelFormat"@,
        ensures
            r is WheelFormat,
    {
        let _ = format_str;
        LabMapFormatType::WheelFormat(WheelFormat::new())
    }

    /// Builds a map in this format.
    pub fn generate_map(
        &self,
        iso_algos: &Vec<AlgoConfiguration>,
        random_opti: &AlgoConfiguration,
        final_tail: &Vec<AlgoConfiguration>,
        priorities: &[u64; 3],
        mix_method: String,
    ) -> (r: Result<Vec<AlgoConfiguration>, Errcode>)
        requires
            forall|p: int|
                0 <= p < iso_algos@.len() ==> (#[trigger] iso_algos@[p]).give@.len() == 0,
            forall|p: int|
                0 <= p < iso_algos@.len() ==> ((#[trigger] iso_algos@[p]).population matches
                    AlgoPopulation::WeightofTot(w) && w <= SCALE),
            priorities@[0] <= SCALE,
            priorities@[1] <= SCALE,
            priorities@[2] <= SCALE,
            1 <= iso_algos@.len() <= 1000,
            final_tail@.len() <= 1000,
        ensures
            r is Ok <==> (iso_algos@.len() <= 2
                || crate::genalgomethods::spec_method_by_name(mix_method@) is Some),
    {
        match self {
            LabMapFormatType::WheelFormat(w) => w.generate_map(
                iso_algos,
                random_opti,
                final_tail,
                priorities,
                mix_method,
            ),
        }
    }
}

/// An assistant that accumulates isolated objectives and emits a
/// validated map in the chosen format.
pub struct LabMapAssistant {
    /// The random-source configuration, placed at index 0.
    pub random_opti: AlgoConfiguration,
    /// The isolated per-objective configurations added so far.
    pub iso_algos: Vec<AlgoConfiguration>,
    /// An optional chain placed after the aggregator slot.
    pub final_tail: Vec<AlgoConfiguration>,
    /// The random, map and final population priorities.
    pub priorities: [u64; 3],
    /// The map format the assistant builds.
    pub mapformat: LabMapFormatType,
}

impl LabMapAssistant {
    /// True when the held configurations fit the builder's bounds.
    pub open spec fn wf(&self) -> bool {
        &&& self.priorities@[0] <= SCALE
        &&& self.priorities@[1] <= SCALE
        &&& self.priorities@[2] <= SCALE
        &&& self.iso_algos@.len() <= 1000
        &&& self.final_tail@.len() <= 1000
        &&& forall|p: int|
            0 <= p < self.iso_algos@.len() ==> (#[trigger] self.iso_algos@[p]).give@.len() == 0
        &&& forall|p: int|
            0 <= p < self.iso_algos@.len() ==> ((#[trigger] self.iso_algos@[p]).population matches
                AlgoPopulation::WeightofTot(w) && w <= SCALE)
    }

    /// A fresh assistant for the named format, with no objectives yet and
    /// every priority at one.
    pub fn new(format_str: String) -> (r: LabMapAssistant)
        requires
            format_str@ == "WheelFormat"@,
        ensures
            r.wf(),
            r.iso_algos@.len() == 0,
            r.final_tail@.len() == 0,
    {
        LabMapAssistant {
            random_opti: get_random_opti_algoconf(),
            iso_algos: Vec::new(),
            final_tail: Vec::new(),
            mapformat: LabMapFormatType::from(format_str),
            priorities: [SCALE, SCALE, SCALE],
        }
    }

    /// Adds one isolated objective: its gene positions, its priority
    /// scaled by the map priority, and its method with options.
    pub fn add_opti_part(
        &mut self,
        id: String,
        genes_opt: Vec<usize>,
        priority: u64,
        method: String,
        method_cfg: GenalgoMethodsConfigurations,
    ) -> (r: Result<(), Errcode>)
        requires
            old(self).wf(),
        ensures
            final(self).wf(),
            r is Ok <==> (priority <= SCALE && old(self).iso_algos@.len() < 1000),
            r is Ok ==> final(self).iso_algos@.len() == old(self).iso_algos@.len() + 1,
            r is Err ==> final(self).iso_algos@ == old(self).iso_algos@,
    {
        if priority > SCALE {
            return Err(Errcode::ValidationError("objective priority above one"));
        }
        if self.iso_algos.len() >= 1000 {
            return Err(Errcode::ValidationError("too many isolated objectives"));
        }
        proof {
            assert(priority * self.priorities@[1] <= SCALE * SCALE && (priority
                * self.priorities@[1]) / (SCALE as int) <= SCALE) by (nonlinear_arith)
                requires
                    0 <= priority <= SCALE,
                    0 <= self.priorities@[1] <= SCALE,
            ;
        }
        let weight: u64 = priority * self.priorities[1] / SCALE;
        self.iso_algos.push(
            AlgoConfiguration {
                id,
                method,
                method_options: method_cfg,
                give: Vec::new(),
                impr_genes: Option::Some(genes_opt),
                population: AlgoPopulation::WeightofTot(weight),
            },
        );
        Ok(())
    }

    /// Builds the map over the objectives added so far.
    pub fn generate_map(&self, mix_method: String) -> (r: Result<Vec<AlgoConfiguration>, Errcode>)
        requires
            self.wf(),
            1 <= self.iso_algos@.len(),
        ensures
            r is Ok <==> (self.iso_algos@.len() <= 2
                || crate::genalgomethods::spec_method_by_name(mix_method@) is Some),
    {
        self.mapformat.generate_map(
            &self.iso_algos,
            &self.random_opti,
            &self.final_tail,
            &self.priorities,
            mix_method,
        )
    }
}

/// The configuration of the stock random-source algo.
pub fn get_random_opti_algoconf() -> (r: AlgoConfiguration)
    ensures
        r.valid(),
        r@.method == "RandomOpti"@,
        r@.give.len() == 0,
        r@.impr_genes is None,
        r@.population == AlgoPopulation::WeightofTot(SCALE),
{
    proof {
        reveal_strlit("RandomOpti");
    }
    AlgoConfiguration {
        id: "Random".to_owned(),
        method: "RandomOpti".to_owned(),
        method_options: GenalgoMethodsConfigurations::NoConfig,
        give: Vec::new(),
        impr_genes: Option::None,
        population: AlgoPopulation::WeightofTot(SCALE),
    }
}

} // verus!
