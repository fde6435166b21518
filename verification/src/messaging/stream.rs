//! Region-owned FABRIC stream placeholders.

use vstd::prelude::*;

verus! {

/// Stub anchor for future region-owned stream state.
#[derive(Debug, Clone, PartialEq, Eq, Default)]
pub struct FabricStreamPlaceholder {
    /// Human-readable stream name.
    pub name: String,
}

} // verus!
