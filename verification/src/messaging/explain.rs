//! Explain-plan placeholders.

use vstd::prelude::*;

verus! {

/// Stub anchor for future explain-plan output.
#[derive(Debug, Clone, PartialEq, Eq, Default)]
pub struct ExplainPlanPlaceholder {
    /// Human-readable explain-plan label.
    pub name: String,
}

} // verus!
