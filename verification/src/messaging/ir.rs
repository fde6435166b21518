//! Declarative fabric vocabulary shared by services and compilers.

use vstd::prelude::*;

verus! {

/// Where a service reply may land.
#[derive(Debug, Clone, PartialEq, Eq, Hash)]
pub enum ReplySpaceRule {
    /// The caller's own inbox.
    CallerInbox,
    /// A prefix shared between callers.
    SharedPrefix {
        /// Subject prefix of the reply space.
        prefix: String,
    },
    /// A prefix dedicated to this service.
    DedicatedPrefix {
        /// Subject prefix of the reply space.
        prefix: String,
    },
}

/// Evidence obligations attached to a fabric surface.
#[derive(Debug, Clone, Copy, PartialEq, Eq, Default, Structural)]
pub struct EvidencePolicy {
    /// Whether counterfactual branches are recorded as evidence.
    pub record_counterfactual_branches: bool,
}

/// Metadata-disclosure rules attached to a fabric surface.
#[derive(Debug, Clone, Copy, PartialEq, Eq, Default, Structural)]
pub struct PrivacyPolicy {
    /// Whether subject literals are redacted from exported metadata.
    pub redact_subject_literals: bool,
}

/// How much of a metadata identifier crosses a trust boundary.
#[derive(Debug, Clone, Copy, PartialEq, Eq, Hash, Structural)]
pub enum MetadataDisclosure {
    /// The identifier is shown as is.
    Full,
    /// Only a SHA-256 token of the identifier is shown.
    Hashed,
    /// Nothing of the identifier is shown.
    Redacted,
}

} // verus!
