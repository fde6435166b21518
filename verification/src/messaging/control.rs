//! System-subject control-plane placeholders.

use vstd::prelude::*;

verus! {

/// Stub anchor for future control-subject namespaces.
#[derive(Debug, Clone, PartialEq, Eq, Default)]
pub struct ControlSubjectPlaceholder {
    /// Human-readable control family name.
    pub family: String,
}

} // verus!
