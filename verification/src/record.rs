//! Vocabulary of obligation records.

use vstd::prelude::*;

verus! {

/// What an obligation stands for.
#[derive(Debug, Clone, Copy, PartialEq, Eq, Hash, Structural)]
pub enum ObligationKind {
    /// A lease on a request that must be served or given up.
    Lease,
    /// A delivery or receipt acknowledgement still owed.
    Ack,
}

/// Lifecycle state of an obligation.
#[derive(Debug, Clone, Copy, PartialEq, Eq, Hash, Structural)]
pub enum ObligationState {
    /// Acquired and not yet resolved.
    Reserved,
    /// Resolved by commit.
    Committed,
    /// Resolved by abort.
    Aborted,
}

/// Why an obligation was aborted, as the obligation ledger records it.
#[derive(Debug, Clone, Copy, PartialEq, Eq, Hash, Structural)]
pub enum ObligationAbortReason {
    /// Aborted by cancellation.
    Cancel,
    /// Aborted explicitly.
    Explicit,
    /// Aborted by an error.
    Error,
}

} // verus!
