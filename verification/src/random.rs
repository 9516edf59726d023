//! The description of a random number generator.

use vstd::prelude::*;

verus! {

/// Describes a random number generator by its seed and the name of its algorithm.
#[derive(Debug, Clone, Copy)]
pub struct RandomConfig {
    pub name: &'static str,
    pub seed: u64,
}

impl RandomConfig {
    /// Describes the generator `name` seeded with `seed`.
    pub fn new(name: &'static str, seed: u64) -> (r: Self)
        ensures
            r.name == name,
            r.seed == seed,
    {
        RandomConfig { name, seed }
    }
}

} // verus!
