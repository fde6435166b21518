//! Federation-role placeholders.

use vstd::prelude::*;

verus! {

/// Top-level federation roles reserved by the fabric design.
#[derive(Debug, Clone, Copy, PartialEq, Eq, PartialOrd, Ord, Hash, Structural)]
pub enum FederationRole {
    /// Constrained leaf fabric.
    LeafFabric,
    /// Gateway between fabrics.
    GatewayFabric,
    /// Replication-oriented bridge.
    ReplicationLink,
    /// Replay- and evidence-oriented bridge.
    EdgeReplayLink,
}

} // verus!
