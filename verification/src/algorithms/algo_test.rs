//! A trivial algo used to exercise the engine.

use crate::cell::{clone_genome, CellData, Genome};
use vstd::prelude::*;

verus! {

/// Number of genes in a test-algo genome.
pub const TEST_GENOME_LENGTH: usize = 2;

/// An algo whose cells never change their score: its populations evolve
/// purely by the variation method.
#[derive(Clone, Copy, Debug, PartialEq, Eq, Structural)]
pub struct TestAlgo {
}

impl TestAlgo {
    /// A fresh test algo.
    pub fn new() -> (r: TestAlgo)
        ensures
            r == (TestAlgo {  }),
    {
        TestAlgo {  }
    }

    /// The fixed genome length of the test cell type.
    pub fn get_genome_length(&self) -> (r: usize)
        ensures
            r == TEST_GENOME_LENGTH,
    {
        TEST_GENOME_LENGTH
    }

    /// Wraps a genome into a fresh cell with score zero.
    pub fn create_cell_from_genome(&self, genome: &Genome) -> (r: CellData)
        ensures
            r@.genome == genome@,
            r@.score == 0,
            r@.version == 1,
    {
        CellData { genome: clone_genome(genome), score: 0, version: 1 }
    }
}

} // verus!
