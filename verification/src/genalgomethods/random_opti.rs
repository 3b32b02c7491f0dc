//! The RandomOpti variation method: every generation is redrawn uniformly.

use crate::cell::{genome_strict, random_genome, CellData, Genome};
use crate::errors::Errcode;
use crate::rng::LabRng;
use vstd::prelude::*;

verus! {

/// A memoryless method that emits uniform random genomes.
pub struct RandomOpti {
    /// The method-local random source.
    pub rng: LabRng,
}

impl RandomOpti {
    /// A fresh instance drawing from `seed`.
    pub fn new(seed: u64) -> (r: RandomOpti)
        ensures
            r.rng@ == seed,
    {
        RandomOpti { rng: LabRng::from_seed(seed) }
    }

    /// Emits `nb_cells` uniform random genomes of length `genome_length`.
    pub fn init_population(
        &mut self,
        _bestgen: &Genome,
        genome_length: usize,
        nb_cells: usize,
        res: &mut Vec<Genome>,
    ) -> (r: Result<(), Errcode>)
        ensures
            r is Ok,
            final(res)@.len() == old(res)@.len() + nb_cells,
            final(res)@.subrange(0, old(res)@.len() as int) == old(res)@,
            forall|i: int|
                old(res)@.len() <= i < final(res)@.len() ==> (#[trigger] final(res)@[i])@.len()
                    == genome_length && genome_strict(final(res)@[i]@),
    {
        for k in 0..nb_cells
            invariant
                res@.len() == old(res)@.len() + k,
                res@.subrange(0, old(res)@.len() as int) == old(res)@,
                forall|i: int|
                    old(res)@.len() <= i < res@.len() ==> (#[trigger] res@[i])@.len()
                        == genome_length && genome_strict(res@[i]@),
        {
            let g = random_genome(&mut self.rng, genome_length);
            res.push(g);
            proof {
                assert(res@.subrange(0, old(res)@.len() as int) == old(res)@);
            }
        }
        Ok(())
    }

    /// Emits one uniform random genome per current cell.
    pub fn process_results(
        &mut self,
        _elites: &Vec<CellData>,
        cells: &Vec<CellData>,
        genome_length: usize,
        genomes: &mut Vec<Genome>,
    ) -> (r: Result<(), Errcode>)
        ensures
            r is Ok,
            final(genomes)@.len() == old(genomes)@.len() + cells@.len(),
            final(genomes)@.subrange(0, old(genomes)@.len() as int) == old(genomes)@,
            forall|i: int|
                old(genomes)@.len() <= i < final(genomes)@.len()
                    ==> (#[trigger] final(genomes)@[i])@.len() == genome_length
                    && genome_strict(final(genomes)@[i]@),
    {
        let n = cells.len();
        for k in 0..n
            invariant
                genomes@.len() == old(genomes)@.len() + k,
                genomes@.subrange(0, old(genomes)@.len() as int) == old(genomes)@,
                forall|i: int|
                    old(genomes)@.len() <= i < genomes@.len() ==> (#[trigger] genomes@[i])@.len()
                        == genome_length && genome_strict(genomes@[i]@),
        {
            let g = random_genome(&mut self.rng, genome_length);
            genomes.push(g);
            proof {
                assert(genomes@.subrange(0, old(genomes)@.len() as int) == old(genomes)@);
            }
        }
        Ok(())
    }

    /// Clears per-run state; the method keeps none.
    pub fn reset(&mut self)
        ensures
            final(self).rng@ == old(self).rng@,
    {
    }

    /// The method has no configuration to refuse.
    pub fn validate_config(&self) -> (r: Result<(), Errcode>)
        ensures
            r is Ok,
    {
        Ok(())
    }
}

} // verus!
