//! Executor and timer handles for running hyper on the runtime.
//!
//! The handles carry no state yet; they are the values a hyper connection
//! builder is configured with.

use vstd::prelude::*;

verus! {

/// Executor that spawns futures on the runtime.
#[derive(Clone, Debug)]
pub struct AsupersyncExecutor {
    _private: bool,
}

impl AsupersyncExecutor {
    /// The handle carries no state.
    pub closed spec fn is_fresh(self) -> bool {
        !self._private
    }

    /// Create a new executor.
    pub fn new() -> (r: Self)
        ensures
            r.is_fresh(),
    {
        AsupersyncExecutor { _private: false }
    }
}

impl Default for AsupersyncExecutor {
    fn default() -> (r: Self)
        ensures
            r.is_fresh(),
    {
        Self::new()
    }
}

/// Timer that uses the runtime's time wheel.
#[derive(Clone, Debug)]
pub struct AsupersyncTimer {
    _private: bool,
}

impl AsupersyncTimer {
    /// The handle carries no state.
    pub closed spec fn is_fresh(self) -> bool {
        !self._private
    }

    /// Create a new timer.
    pub fn new() -> (r: Self)
        ensures
            r.is_fresh(),
    {
        AsupersyncTimer { _private: false }
    }
}

impl Default for AsupersyncTimer {
    fn default() -> (r: Self)
        ensures
            r.is_fresh(),
    {
        Self::new()
    }
}

} // verus!
