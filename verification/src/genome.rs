//! The genome capability.
//!
//! A genome is whatever data structure is being evolved.  The engine
//! needs three operations from it: crossover of two parents into a
//! child, a genetic distance used for speciation, and a canonical base
//! construction used to seed a first generation.
//!
//! Distances are `u32` values in tenths, matching the unit of the
//! speciation threshold in [`crate::population::Config`]; crossover
//! rates are in thousandths and are forwarded opaquely.

use vstd::prelude::*;

verus! {

pub trait Genome<T, E> {
    /// Produce a child from two parents, or `None` when the combination
    /// is infeasible.  The crossover rate is forwarded from the
    /// population's configuration; its meaning belongs to the encoding.
    fn crossover(one: &T, two: &T, env: &mut E, crossover_rate: u32) -> Option<T>;

    /// A measure of how far apart two genomes are genetically, in
    /// tenths.  Expected to be symmetric with `distance(x, x) == 0`,
    /// though the engine does not depend on either for soundness.
    fn distance(one: &T, two: &T, env: &mut E) -> u32;

    /// A canonical starter genome, used by `populate_base`.
    fn base(env: &mut E) -> T;
}

} // verus!
