//! The pseudo-random source for level generation and guard decisions.
//!
//! A single PCG generator is seeded once per session, so a whole session is
//! replayable from one seed. Each draw is pinned, through `pcg_below`, to
//! the seed and the sequence of bounds drawn so far: two generators with the
//! same seed that make the same sequence of calls return the same values,
//! which is what makes level generation deterministic.

use vstd::prelude::*;
use rand::Rng as _;
use rand::SeedableRng as _;

verus! {

/// The value `rand::Rng::gen_range(0..n)` returns for a PCG-32 generator
/// that was seeded with `seed` and has already served the draws recorded in
/// `history` (the sequence of their bounds). The generator is a pure
/// function of its seed and call history, so this is well defined.
pub uninterp spec fn pcg_below(seed: u64, history: Seq<usize>, n: usize) -> usize;

/// The PCG-32 generator type of rand_pcg (`Pcg32` is an alias for it).
#[verifier::external_type_specification]
#[verifier::external_body]
pub struct ExLcg64Xsh32(rand_pcg::Lcg64Xsh32);

/// A PCG-32 generator together with the (ghost) record of its draws.
pub struct Rng {
    inner: rand_pcg::Pcg32,
    seed: u64,
    history: Ghost<Seq<usize>>,
}

impl Rng {
    pub closed spec fn seed(self) -> u64 {
        self.seed
    }

    pub closed spec fn history(self) -> Seq<usize> {
        self.history@
    }

    /// Relies on rand::SeedableRng::seed_from_u64 for rand_pcg::Pcg32: a
    /// fixed, documented seeding procedure, deterministic in the seed.
    #[verifier::external_body]
    pub fn new(seed: u64) -> (r: Rng)
        ensures
            r.seed() == seed,
            r.history() == Seq::<usize>::empty(),
    {
        Rng { inner: rand_pcg::Pcg32::seed_from_u64(seed), seed, history: Ghost(Seq::empty()) }
    }

    /// Relies on rand::Rng::gen_range over 0..n on rand_pcg::Pcg32: the
    /// result is below `n` and deterministic in the generator's seed and
    /// prior draws.
    #[verifier::external_body]
    pub fn below(&mut self, n: usize) -> (r: usize)
        requires
            n >= 1,
        ensures
            r < n,
            r == pcg_below(old(self).seed(), old(self).history(), n),
            final(self).seed() == old(self).seed(),
            final(self).history() == old(self).history().push(n),
    {
        proof {
            self.history@ = self.history@.push(n);
        }
        self.inner.gen_range(0..n)
    }

    /// A draw from `low..high`.
    pub fn range(&mut self, low: usize, high: usize) -> (r: usize)
        requires
            low < high,
        ensures
            low <= r < high,
            final(self).seed() == old(self).seed(),
            final(self).history() == old(self).history().push((high - low) as usize),
            r == low + pcg_below(old(self).seed(), old(self).history(), (high - low) as usize),
    {
        let d = self.below(high - low);
        low + d
    }

    /// A draw from `0..n` as an `i32`.
    pub fn below_i32(&mut self, n: i32) -> (r: i32)
        requires
            n >= 1,
        ensures
            0 <= r < n,
            final(self).seed() == old(self).seed(),
            final(self).history() == old(self).history().push(n as usize),
    {
        self.below(n as usize) as i32
    }

    /// A Bernoulli draw: true with probability num/den.
    pub fn chance(&mut self, num: usize, den: usize) -> (r: bool)
        requires
            den >= 1,
        ensures
            final(self).seed() == old(self).seed(),
            final(self).history() == old(self).history().push(den),
            r == (pcg_below(old(self).seed(), old(self).history(), den) < num),
    {
        self.below(den) < num
    }
}

} // verus!
