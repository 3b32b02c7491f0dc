//! Genomes and cells.
//!
//! A genome is a fixed-length vector of genes; a gene is a fixed-point real
//! in `[0, 1]`, stored as a numerator over [`crate::fixed::SCALE`].  A cell
//! wraps a genome together with the score of its most recent evaluation.

use crate::fixed::SCALE;
use crate::rng::{spec_rng_advance_n, spec_rng_mix, LabRng};
use vstd::prelude::*;

verus! {

/// An ordered sequence of genes, each in `[0, 1]`.
pub type Genome = Vec<u64>;

/// True when every gene of `g` lies in the closed unit interval.
pub open spec fn genome_wf(g: Seq<u64>) -> bool {
    forall|i: int| 0 <= i < g.len() ==> g[i] <= SCALE
}

/// True when every gene of `g` lies in the half-open unit interval, as every
/// canonically drawn gene does.
pub open spec fn genome_strict(g: Seq<u64>) -> bool {
    forall|i: int| 0 <= i < g.len() ==> g[i] < SCALE
}

/// True when every gene of `g` lies strictly inside the unit interval, as
/// every truncated-normal draw does.
pub open spec fn genome_interior(g: Seq<u64>) -> bool {
    forall|i: int| 0 <= i < g.len() ==> 0 < #[trigger] g[i] < SCALE
}

/// Emits `ngens` independent uniform genes in `[0, 1)`.
///
/// Each gene is pinned to the draw sequence of `rng`, so the result is a
/// function of the generator state alone.
pub fn random_genome(rng: &mut LabRng, ngens: usize) -> (r: Genome)
    ensures
        r@.len() == ngens,
        genome_strict(r@),
        final(rng)@ == spec_rng_advance_n(old(rng)@, ngens as nat),
        forall|i: int|
            0 <= i < ngens ==> r@[i] == spec_rng_mix(
                spec_rng_advance_n(old(rng)@, (i + 1) as nat),
            ) % SCALE,
{
    let mut res: Genome = Vec::new();
    for k in 0..ngens
        invariant
            res@.len() == k,
            genome_strict(res@),
            rng@ == spec_rng_advance_n(old(rng)@, k as nat),
            forall|i: int|
                0 <= i < k ==> res@[i] == spec_rng_mix(
                    spec_rng_advance_n(old(rng)@, (i + 1) as nat),
                ) % SCALE,
    {
        res.push(rng.next_unit());
    }
    res
}

/// Copies a genome gene for gene.
pub fn clone_genome(g: &Genome) -> (r: Genome)
    ensures
        r@ == g@,
{
    let mut res: Genome = Vec::new();
    for k in 0..g.len()
        invariant
            res@ == g@.subrange(0, k as int),
    {
        res.push(g[k]);
    }
    proof {
        assert(g@.subrange(0, g@.len() as int) =~= g@);
    }
    res
}

/// True when the genomes of `gs` from position `from` on have length
/// `glen` and well-formed genes, as every emitted genome must.
pub open spec fn emitted_ok(gs: Seq<Genome>, from: int, glen: nat) -> bool {
    forall|i: int|
        from <= i < gs.len() ==> (#[trigger] gs[i])@.len() == glen && genome_wf(gs[i]@)
}

/// Compares two genomes gene for gene.
pub fn genomes_equal(a: &Genome, b: &Genome) -> (r: bool)
    ensures
        r <==> a@ == b@,
{
    if a.len() != b.len() {
        return false;
    }
    for k in 0..a.len()
        invariant
            a@.len() == b@.len(),
            forall|i: int| 0 <= i < k ==> a@[i] == b@[i],
    {
        if a[k] != b[k] {
            return false;
        }
    }
    proof {
        assert(a@ =~= b@);
    }
    true
}

/// The mathematical value of a cell: its genes, score and version.
pub struct CellView {
    pub genome: Seq<u64>,
    pub score: u64,
    pub version: u64,
}

/// A candidate solution: a genome, the score of its most recent evaluation,
/// and a forward-compatibility version stamp.
#[derive(Debug)]
pub struct CellData {
    pub genome: Genome,
    pub score: u64,
    pub version: u64,
}

impl View for CellData {
    type V = CellView;

    open spec fn view(&self) -> CellView {
        CellView { genome: self.genome@, score: self.score, version: self.version }
    }
}

/// True when the cell's genome has length `glen` and well-formed genes.
pub open spec fn cell_wf(c: CellView, glen: nat) -> bool {
    c.genome.len() == glen && genome_wf(c.genome)
}

impl CellData {
    /// Copies a cell field for field.
    pub fn clone_cell(&self) -> (r: CellData)
        ensures
            r@ == self@,
    {
        CellData { genome: clone_genome(&self.genome), score: self.score, version: self.version }
    }

    /// Rebinds the cell to a new genome and wipes its score.
    pub fn reset(&mut self, genome: &Genome)
        ensures
            final(self)@.genome == genome@,
            final(self)@.score == 0,
            final(self)@.version == old(self)@.version,
    {
        self.genome = clone_genome(genome);
        self.score = 0;
    }
}

} // verus!
