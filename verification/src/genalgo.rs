//! The user-facing handle around one laboratory.
//!
//! A `Genalgo` owns a [`Lab`] together with its registered datasets, and
//! forwards the configuration and run operations.

use crate::algo::{AlgoConfiguration, AlgoID};
use crate::algorithms::{SpecialData, SpecialQuery};
use crate::cell::{CellData, Genome};
use crate::dataset::DatasetHandler;
use crate::errors::Errcode;
use crate::lab::{Lab, LabConfig};
use vstd::prelude::*;

verus! {

/// A laboratory with its datasets: the handle a host drives a run through.
pub struct Genalgo {
    /// The owned laboratory.
    pub lab: Lab,
    /// The registered datasets, in registration order.
    pub datasets: Vec<DatasetHandler>,
    /// One identifier per registered dataset.
    pub datasets_id: Vec<String>,
}

impl Genalgo {
    /// True when the laboratory is well formed and each dataset has its
    /// identifier.
    pub open spec fn wf(&self) -> bool {
        self.lab.wf() && self.datasets_id@.len() == self.datasets@.len()
    }

    /// A fresh handle around an empty laboratory.
    pub fn new(labconfig: LabConfig) -> (r: Genalgo)
        requires
            labconfig.valid(),
        ensures
            r.wf(),
            r.lab.algos@.len() == 0,
            r.datasets@.len() == 0,
    {
        Genalgo { lab: Lab::new(labconfig), datasets: Vec::new(), datasets_id: Vec::new() }
    }

    /// Exports the laboratory's serialised form; reserved.
    pub fn export_lab(&self) -> (r: Result<Vec<AlgoConfiguration>, Errcode>)
        ensures
            r is Err,
    {
        Err(Errcode::NotImplemented("export_lab"))
    }

    /// Imports a serialised laboratory; reserved.
    pub fn import_lab(&self, _data: &Vec<AlgoConfiguration>) -> (r: Result<(), Errcode>)
        ensures
            r is Err,
    {
        Err(Errcode::NotImplemented("import_lab"))
    }

    /// Registers a dataset under an identifier.
    pub fn register_dataset(&mut self, id: String, dataset: DatasetHandler)
        requires
            old(self).wf(),
        ensures
            final(self).wf(),
            final(self).datasets@.len() == old(self).datasets@.len() + 1,
            final(self).datasets_id@[old(self).datasets_id@.len() as int]@ == id@,
            final(self).lab == old(self).lab,
    {
        self.datasets.push(dataset);
        self.datasets_id.push(id);
    }

    /// Removes the first dataset registered under the identifier; an
    /// unknown identifier is refused.
    pub fn remove_dataset(&mut self, id: String) -> (r: Result<(), Errcode>)
        requires
            old(self).wf(),
        ensures
            final(self).wf(),
            r is Ok <==> exists|i: int|
                0 <= i < old(self).datasets_id@.len() && (#[trigger] old(
                    self,
                ).datasets_id@[i])@ == id@,
            r is Ok ==> (exists|i: int|
                {
                    &&& 0 <= i < old(self).datasets_id@.len()
                    &&& (#[trigger] old(self).datasets_id@[i])@ == id@
                    &&& (forall|j: int|
                        0 <= j < i ==> (#[trigger] old(self).datasets_id@[j])@ != id@)
                    &&& final(self).datasets_id@ == old(self).datasets_id@.remove(i)
                    &&& final(self).datasets@ == old(self).datasets@.remove(i)
                }),
            r is Ok ==> final(self).datasets@.len() == old(self).datasets@.len() - 1,
            r is Err ==> final(self).datasets@ == old(self).datasets@,
            r is Err ==> final(self).datasets_id@ == old(self).datasets_id@,
            final(self).lab == old(self).lab,
    {
        let n = self.datasets_id.len();
        for k in 0..n
            invariant
                self.wf(),
                self.datasets_id@.len() == n,
                self.datasets_id@ == old(self).datasets_id@,
                self.datasets@ == old(self).datasets@,
                self.lab == old(self).lab,
                forall|i: int| 0 <= i < k ==> (#[trigger] self.datasets_id@[i])@ != id@,
        {
            if self.datasets_id[k].eq(&id) {
                self.datasets_id.remove(k);
                self.datasets.remove(k);
                return Ok(());
            }
        }
        Err(Errcode::DatasetDoesntExist(id))
    }

    /// Replaces every algo configuration at once.
    pub fn apply_map(&mut self, map: Vec<AlgoConfiguration>) -> (r: Result<(), Errcode>)
        requires
            old(self).wf(),
        ensures
            final(self).wf(),
    {
        self.lab.apply_map(map)
    }

    /// Runs `ngeneration` generations over the registered datasets and
    /// returns the best cell of the last generation's output algo.
    pub fn start(&mut self, ngeneration: usize) -> (r: Result<CellData, Errcode>)
        requires
            old(self).wf(),
            1 <= ngeneration,
        ensures
            final(self).wf(),
            old(self).lab.config.npop < crate::lab::MIN_POPULATION ==> r is Err,
            crate::lab::start_ok(&old(self).lab) ==> r is Ok,
            r matches Ok(cd) ==> crate::cell::genome_wf(cd@.genome),
    {
        self.lab.start(ngeneration, &mut self.datasets)
    }

    /// Forwards a typed side-channel query to one algo.
    pub fn send_special_data(&mut self, id: AlgoID, params: &SpecialQuery) -> (r: Result<
        Genome,
        Errcode,
    >)
        requires
            old(self).wf(),
        ensures
            final(self).wf(),
            *final(self) == *old(self),
    {
        self.lab.send_special_data(id, params)
    }

    /// Forwards a typed side-channel update to one algo.
    pub fn recv_special_data(&mut self, id: AlgoID, data: &SpecialData) -> (r: Result<(), Errcode>)
        requires
            old(self).wf(),
        ensures
            final(self).wf(),
    {
        self.lab.recv_special_data(id, data)
    }

    /// Chooses the algo the final best cell is read from.
    pub fn set_output_algorithm(&mut self, ind: AlgoID)
        requires
            old(self).wf(),
        ensures
            final(self).wf(),
            final(self).lab.out_algo == Some(ind),
    {
        self.lab.out_algo = Option::Some(ind);
    }
}

} // verus!
