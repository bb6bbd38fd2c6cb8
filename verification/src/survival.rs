//! Selection policies: who survives into the next generation unchanged,
//! and how reproducing pairs are drawn from a niche.

use vstd::prelude::*;

verus! {

/// Which members carry into the next generation unchanged.
#[derive(Clone, Copy, PartialEq, Eq, Structural, Debug)]
pub enum SurvivalCriteria {
    /// The single top member of each niche survives.
    Fittest,
    /// The top `n` members overall survive.
    TopN(usize),
}

/// How the two parents of a child are drawn from a niche.
#[derive(Clone, Copy, PartialEq, Eq, Structural, Debug)]
pub enum ParentalCriteria {
    /// Weighted sample proportional to raw fitness.
    BiasedRandom,
    /// The best two members of the niche.
    BestInSpecies,
    /// Uniform draw.
    UniformRandom,
}

} // verus!
