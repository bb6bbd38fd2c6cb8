//! The environment capability.
//!
//! An environment carries overall settings for a genome encoding:
//! statistics tracked through evolution, mutation rates, or global
//! counters.  It is handed to `crossover`, `distance` and `base` so the
//! encoding has one central, mutable place for such state.

use vstd::prelude::*;

verus! {

pub trait Envionment {
    /// Reset the environment after a disruptive event (for example a
    /// full genocide).  The default implementation does nothing.
    fn reset(&mut self) {
    }
}

} // verus!
