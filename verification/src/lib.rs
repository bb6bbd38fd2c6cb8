//! A speciating evolutionary-computation engine.
//!
//! The engine drives a population of candidate solutions ("genomes")
//! through rounds of fitness evaluation, speciation, parent selection,
//! reproduction, and stagnation management.  Concrete genome encodings
//! plug in through the capability traits in [`genome`], [`environment`]
//! and [`problem`].
//!
//! All quantities the engine reasons about are plain integers:
//! fitness scores are `u32` values in whatever unit the problem chooses,
//! rates (`inbreed_rate`, `crossover_rate`) are expressed in thousandths
//! (`0..=1000`), and genetic distances and the speciation threshold are
//! expressed in tenths, so that the threshold adjustment step of one
//! tenth is exact.

pub mod apportion;
pub mod environment;
pub mod generation;
pub mod genocide;
pub mod genome;
pub mod population;
pub mod problem;
pub mod rng;
pub mod survival;
