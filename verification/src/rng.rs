//! A small deterministic pseudo-random number generator.
//!
//! The engine needs randomness for parent selection, cross-niche mating
//! and the random genocide operator.  A xorshift generator keeps every
//! run reproducible, which the end-to-end scenarios rely on.

use vstd::prelude::*;

verus! {

/// Deterministic xorshift pseudo-random number generator.
pub struct Rng {
    state: u64,
}

impl Rng {
    /// Create a generator from a seed.  A zero seed is replaced so the
    /// xorshift state never gets stuck at zero.
    pub fn new(seed: u64) -> Rng {
        if seed == 0 {
            Rng { state: 0x9e3779b97f4a7c15 }
        } else {
            Rng { state: seed }
        }
    }

    /// Next raw 64-bit value.
    pub fn next_u64(&mut self) -> u64 {
        let mut x = self.state;
        x = x ^ (x << 13);
        x = x ^ (x >> 7);
        x = x ^ (x << 17);
        self.state = x;
        x
    }

    /// A value strictly below `n`.
    pub fn below(&mut self, n: u64) -> (r: u64)
        requires
            n > 0,
        ensures
            r < n,
    {
        let x = self.next_u64();
        x % n
    }

    /// An index strictly below `n`.
    pub fn index_below(&mut self, n: usize) -> (r: usize)
        requires
            n > 0,
        ensures
            r < n,
    {
        let x = self.below(n as u64);
        x as usize
    }

    /// Decide an event of probability `rate_millis / 1000`.
    ///
    /// A rate of `0` never fires; a rate of `1000` or more always fires.
    pub fn chance(&mut self, rate_millis: u32) -> (r: bool)
        ensures
            rate_millis == 0 ==> !r,
            rate_millis >= 1000 ==> r,
    {
        let x = self.below(1000);
        x < rate_millis as u64
    }
}

} // verus!
