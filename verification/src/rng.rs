//! Deterministic random-number source.
//!
//! Every draw the laboratory makes comes from this generator, a 64-bit
//! mixing generator of the SplitMix family.  The seed is caller-controlled
//! and the step function is specified exactly, so a whole run is a
//! deterministic function of its configuration and seed: two runs from the
//! same seed draw the same numbers.

use crate::fixed::SCALE;
use vstd::prelude::*;

verus! {

/// Increment added to the generator state before each draw.
pub const RNG_GAMMA: u64 = 0x9e37_79b9_7f4a_7c15;

/// First multiplier of the output mix.
pub const RNG_MIX_A: u64 = 0xbf58_476d_1ce4_e5b9;

/// Second multiplier of the output mix.
pub const RNG_MIX_B: u64 = 0x94d0_49bb_1331_11eb;

/// The state reached from `s` after one draw.
pub open spec fn spec_rng_advance(s: u64) -> u64 {
    s.wrapping_add(RNG_GAMMA)
}

/// The output word extracted from state `s`.
pub open spec fn spec_rng_mix(s: u64) -> u64 {
    let z0 = (s ^ (s >> 30u64)).wrapping_mul(RNG_MIX_A);
    let z1 = (z0 ^ (z0 >> 27u64)).wrapping_mul(RNG_MIX_B);
    z1 ^ (z1 >> 31u64)
}

/// The state reached from `s` after `n` draws.
pub open spec fn spec_rng_advance_n(s: u64, n: nat) -> u64
    decreases n,
{
    if n == 0 {
        s
    } else {
        spec_rng_advance(spec_rng_advance_n(s, (n - 1) as nat))
    }
}

/// A seedable pseudo-random source scoped to one method instance.
pub struct LabRng {
    state: u64,
}

impl View for LabRng {
    type V = u64;

    closed spec fn view(&self) -> u64 {
        self.state
    }
}

impl LabRng {
    /// Builds a generator whose draws are a function of `seed` alone.
    pub fn from_seed(seed: u64) -> (r: LabRng)
        ensures
            r@ == seed,
    {
        LabRng { state: seed }
    }

    /// Draws one full 64-bit word.
    pub fn next_u64(&mut self) -> (r: u64)
        ensures
            final(self)@ == spec_rng_advance(old(self)@),
            r == spec_rng_mix(spec_rng_advance(old(self)@)),
    {
        self.state = self.state.wrapping_add(RNG_GAMMA);
        let s = self.state;
        let z0 = (s ^ (s >> 30u64)).wrapping_mul(RNG_MIX_A);
        let z1 = (z0 ^ (z0 >> 27u64)).wrapping_mul(RNG_MIX_B);
        z1 ^ (z1 >> 31u64)
    }

    /// Draws a uniform gene value in `[0, 1)`, that is in `[0, SCALE)`.
    pub fn next_unit(&mut self) -> (r: u64)
        ensures
            final(self)@ == spec_rng_advance(old(self)@),
            r == spec_rng_mix(spec_rng_advance(old(self)@)) % SCALE,
            r < SCALE,
    {
        self.next_u64() % SCALE
    }

    /// Draws a uniform index in `[lo, hi)`.
    pub fn next_range(&mut self, lo: usize, hi: usize) -> (r: usize)
        requires
            lo < hi,
        ensures
            final(self)@ == spec_rng_advance(old(self)@),
            lo <= r < hi,
            r == lo + spec_rng_mix(spec_rng_advance(old(self)@)) % ((hi - lo) as u64),
    {
        let span: u64 = (hi - lo) as u64;
        let off: u64 = self.next_u64() % span;
        lo + (off as usize)
    }
}

} // verus!
