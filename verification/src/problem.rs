//! The problem capability.
//!
//! A problem supplies the fitness evaluation of a genome.  It is shared
//! read-only between all concurrent evaluations of one generation, so
//! `solve` takes the problem by shared reference; only the genome under
//! evaluation is held exclusively.
//!
//! Fitness scores are plain `u32` values in whatever unit the problem
//! chooses; larger is better.

use vstd::prelude::*;

verus! {

pub trait Problem<T>: Sized {
    /// A default problem, used when none is imposed on a population.
    fn empty() -> Self;

    /// Evaluate one candidate and return its fitness score.  The genome
    /// is held exclusively for the duration of the call and may cache
    /// state inside itself.
    fn solve(&self, member: &mut T) -> u32;
}

} // verus!
