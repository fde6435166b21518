//! Lab runtime configuration.

use vstd::prelude::*;

verus! {

/// Configuration of a deterministic lab run: the scheduling seed and the
/// seed of the run's entropy source.
#[derive(Debug, Clone, Copy, PartialEq, Eq, Structural)]
pub struct LabConfig {
    /// Scheduling seed.
    pub seed: u64,
    /// Entropy-source seed.
    pub entropy_seed: u64,
}

impl LabConfig {
    /// A configuration for `seed`, whose entropy source uses the same seed
    /// until set otherwise.
    pub fn new(seed: u64) -> (c: Self)
        ensures
            c == (LabConfig { seed, entropy_seed: seed }),
    {
        LabConfig { seed, entropy_seed: seed }
    }

    /// Sets the entropy-source seed.
    pub fn entropy_seed(self, seed: u64) -> (c: Self)
        ensures
            c == (LabConfig { entropy_seed: seed, ..self }),
    {
        LabConfig { entropy_seed: seed, ..self }
    }
}

} // verus!
