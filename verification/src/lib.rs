//! The Weasel genetic algorithm: starting from a random string, repeatedly
//! mutate the current best candidate and keep the best-scoring mutation until
//! the target phrase is reached.
//!
//! The library holds the verified core: random string generation, mutation,
//! fitness scoring and the per-generation selection step. A thin binary
//! around it parses arguments and prints one line per generation.
use vstd::prelude::*;

mod rng;
pub mod weasel;

verus! {

/// The configuration of a run: the target phrase, the closed set of
/// characters candidates are drawn from, the number of mutation trials per
/// generation, and the per-character mutation rate in percent.
pub struct WeaselArgs {
    /// The phrase to run the algorithm on
    pub phrase: String,
    /// The approved character set
    pub char_set: String,
    /// The number of variations to produce per generation, >= 1
    pub iterations: u32,
    /// The mutation rate for each string, from 1-100
    pub mutation_rate: u8,
}

} // verus!
