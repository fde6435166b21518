//! Typed namespace morphisms and facet-checked certificates.
//!
//! A morphism declares how one subject language lowers into another, what
//! authority it carries, whether the rewrite is reversible, what privacy
//! and sharing rules apply, and what quota envelope bounds the handoff.

use vstd::prelude::*;
use std::time::Duration;
use crate::messaging::ir::{EvidencePolicy, PrivacyPolicy};
use crate::messaging::service::{duration_nanos, zero_duration};
use crate::messaging::subject::{has_wildcard, toks, SubjectPattern, SubjectToken, Tok};
use crate::text::{copy_string, decimal_text, hex_fixed};
use crate::lab::seed::fnv1a;
use crate::messaging::service::{u64_bytes, text_bytes, opt_duration_bytes, push_u64, push_text, push_duration, push_tag};

verus! {

/// Classification for a subject-language morphism.
#[derive(Debug, Clone, Copy, PartialEq, Eq, PartialOrd, Ord, Hash, Structural)]
pub enum MorphismClass {
    /// Reversible, reply-authoritative, capability-bearing rewrites.
    Authoritative,
    /// Redacting or summarizing rewrites that must not originate authority.
    DerivedView,
    /// One-way export into a weaker trust or replay domain.
    Egress,
    /// Temporary sub-language delegation with bounded duration and revocation.
    Delegation,
}

impl Default for MorphismClass {
    fn default() -> (r: Self)
        ensures
            r == MorphismClass::DerivedView,
    {
        MorphismClass::DerivedView
    }
}

/// Capability required to install or execute a morphism.
#[derive(Debug, Clone, Copy, PartialEq, Eq, PartialOrd, Ord, Hash, Structural)]
pub enum FabricCapability {
    /// Rewrite or normalize a subject namespace.
    RewriteNamespace,
    /// Move authority across a morphism boundary.
    CarryAuthority,
    /// Rebind replies as authoritative responses.
    ReplyAuthority,
    /// Attach or inspect evidence produced by the morphism.
    ObserveEvidence,
    /// Delegate a bounded sub-language to another actor or steward.
    DelegateNamespace,
    /// Export traffic into a weaker or cross-boundary domain.
    CrossBoundaryEgress,
}

/// The capability moves or rebinds authority.
pub open spec fn authority_bearing(c: FabricCapability) -> bool {
    c is CarryAuthority || c is ReplyAuthority || c is DelegateNamespace
}

/// Every capability, in declaration order.
pub open spec fn all_capabilities() -> Seq<FabricCapability> {
    seq![
        FabricCapability::RewriteNamespace,
        FabricCapability::CarryAuthority,
        FabricCapability::ReplyAuthority,
        FabricCapability::ObserveEvidence,
        FabricCapability::DelegateNamespace,
        FabricCapability::CrossBoundaryEgress,
    ]
}

impl FabricCapability {
    /// Whether the capability moves or rebinds authority.
    pub fn is_authority_bearing(self) -> (b: bool)
        ensures
            b == authority_bearing(self),
    {
        matches!(self, FabricCapability::CarryAuthority | FabricCapability::ReplyAuthority | FabricCapability::DelegateNamespace)
    }
}

impl Default for FabricCapability {
    fn default() -> (r: Self)
        ensures
            r == FabricCapability::RewriteNamespace,
    {
        FabricCapability::RewriteNamespace
    }
}

/// Reversibility promise attached to a morphism.
#[derive(Debug, Clone, Copy, PartialEq, Eq, PartialOrd, Ord, Hash, Structural)]
pub enum ReversibilityRequirement {
    /// The rewrite is explainable through retained evidence but not bijective.
    EvidenceBacked,
    /// The rewrite is structurally reversible without lossy steps.
    Bijective,
    /// The rewrite is intentionally one-way and may discard information.
    Irreversible,
}

impl Default for ReversibilityRequirement {
    fn default() -> (r: Self)
        ensures
            r == ReversibilityRequirement::EvidenceBacked,
    {
        ReversibilityRequirement::EvidenceBacked
    }
}

/// Sharing boundary for traffic after the morphism applies.
#[derive(Debug, Clone, Copy, PartialEq, Eq, PartialOrd, Ord, Hash, Structural)]
pub enum SharingPolicy {
    /// Keep the rewritten traffic inside the local authority boundary.
    Private,
    /// Share only within a tenant-scoped boundary.
    TenantScoped,
    /// Share across a federated but still policy-bound domain.
    Federated,
    /// Allow public read access to the rewritten output.
    PublicRead,
}

impl Default for SharingPolicy {
    fn default() -> (r: Self)
        ensures
            r == SharingPolicy::Private,
    {
        SharingPolicy::Private
    }
}

/// Reply-handling rule for the rewritten namespace.
#[derive(Debug, Clone, Copy, PartialEq, Eq, PartialOrd, Ord, Hash, Structural)]
pub enum ResponsePolicy {
    /// Preserve caller-managed reply semantics.
    PreserveCallerReplies,
    /// Rebind replies as authoritative responses from the morphism destination.
    ReplyAuthoritative,
    /// Forward replies opaquely without rebinding authority.
    ForwardOpaque,
    /// Strip reply semantics entirely.
    StripReplies,
}

impl Default for ResponsePolicy {
    fn default() -> (r: Self)
        ensures
            r == ResponsePolicy::PreserveCallerReplies,
    {
        ResponsePolicy::PreserveCallerReplies
    }
}

/// Cost and handoff envelope for a morphism.
#[derive(Debug, Clone, PartialEq, Eq)]
pub struct QuotaPolicy {
    /// Maximum multiplicative expansion factor after rewriting.
    pub max_expansion_factor: u16,
    /// Maximum delivery fanout created by the morphism.
    pub max_fanout: u16,
    /// Maximum evidence or observability bytes emitted per decision.
    pub max_observability_bytes: u32,
    /// Maximum duration a delegated morphism may remain active.
    pub max_handoff_duration: Option<Duration>,
    /// Whether the handoff must support explicit revocation.
    pub revocation_required: bool,
}

impl Default for QuotaPolicy {
    fn default() -> (q: Self)
        ensures
            q == (QuotaPolicy {
                max_expansion_factor: 1,
                max_fanout: 1,
                max_observability_bytes: 4_096,
                max_handoff_duration: None,
                revocation_required: false,
            }),
    {
        QuotaPolicy {
            max_expansion_factor: 1,
            max_fanout: 1,
            max_observability_bytes: 4_096,
            max_handoff_duration: None,
            revocation_required: false,
        }
    }
}

/// The quota's first violation, if any: zero expansion, zero fanout, zero
/// observability bytes, zero handoff duration.
pub open spec fn quota_fault(q: QuotaPolicy) -> Option<MorphismValidationError> {
    if q.max_expansion_factor == 0 {
        Some(MorphismValidationError::ZeroMaxExpansionFactor)
    } else if q.max_fanout == 0 {
        Some(MorphismValidationError::ZeroMaxFanout)
    } else if q.max_observability_bytes == 0 {
        Some(MorphismValidationError::ZeroMaxObservabilityBytes)
    } else if q.max_handoff_duration matches Some(d) && zero_duration(d) {
        Some(MorphismValidationError::ZeroMaxHandoffDuration)
    } else {
        None
    }
}

impl QuotaPolicy {
    /// Checks that every bound is positive.
    pub fn validate(&self) -> (r: Result<(), MorphismValidationError>)
        ensures
            match quota_fault(*self) {
                Some(e) => r == Err::<(), MorphismValidationError>(e),
                None => r is Ok,
            },
    {
        if self.max_expansion_factor == 0 {
            return Err(MorphismValidationError::ZeroMaxExpansionFactor);
        }
        if self.max_fanout == 0 {
            return Err(MorphismValidationError::ZeroMaxFanout);
        }
        if self.max_observability_bytes == 0 {
            return Err(MorphismValidationError::ZeroMaxObservabilityBytes);
        }
        if let Some(d) = &self.max_handoff_duration {
            if crate::messaging::service::is_zero_duration(d) {
                return Err(MorphismValidationError::ZeroMaxHandoffDuration);
            }
        }
        Ok(())
    }

    /// A copy of the quota.
    pub fn duplicate(&self) -> (q: Self)
        ensures
            q == *self,
    {
        QuotaPolicy {
            max_expansion_factor: self.max_expansion_factor,
            max_fanout: self.max_fanout,
            max_observability_bytes: self.max_observability_bytes,
            max_handoff_duration: self.max_handoff_duration,
            revocation_required: self.revocation_required,
        }
    }
}

/// Validation failures for typed namespace morphisms.
#[derive(Debug, Clone, PartialEq, Eq, Structural)]
pub enum MorphismValidationError {
    /// Authoritative morphisms must declare at least one capability.
    AuthoritativeRequiresCapability,
    /// Authoritative morphisms must carry an authority-bearing capability.
    AuthoritativeRequiresAuthorityCapability,
    /// Authoritative morphisms must control replies explicitly.
    AuthoritativeRequiresReplyAuthority,
    /// Authoritative morphisms must not be declared one-way.
    AuthoritativeMustBeReversible,
    /// Authoritative morphisms must not use lossy transforms.
    AuthoritativeTransformMustBeLossless,
    /// Authoritative prefix rewrites must stay literal-only.
    AuthoritativeRenameMustBeLiteralOnly,
    /// Derived views must not require authority-bearing capabilities.
    DerivedViewCannotRequireAuthorityCapability,
    /// Derived views must not rebind replies as authority.
    DerivedViewCannotOriginateReplyAuthority,
    /// Egress morphisms must strip reply semantics.
    EgressMustStripReplies,
    /// Egress morphisms are intentionally one-way.
    EgressMustBeIrreversible,
    /// Egress morphisms must leave the private boundary.
    EgressMustCrossBoundary,
    /// Delegations require the delegate-namespace capability.
    DelegationRequiresDelegateCapability,
    /// Delegations must declare a bounded handoff duration.
    DelegationMustBeTimeBounded,
    /// Delegations must be revocable.
    DelegationMustBeRevocable,
    /// A capability is required twice.
    DuplicateCapability(FabricCapability),
    /// A rename-prefix transform must change the namespace.
    RenamePrefixIdentity,
    /// A summarize-tail transform must preserve at least one segment.
    SummarizeTailMustPreserveSegments,
    /// A hash-partition transform requires at least one bucket.
    HashPartitionRequiresBuckets,
    /// A wildcard-capture transform requires a positive index.
    WildcardCaptureRequiresIndex,
    /// A deterministic-hash transform requires at least one bucket.
    DeterministicHashRequiresBuckets,
    /// Deterministic-hash source indices must be positive.
    DeterministicHashIndexMustBePositive,
    /// A split-slice transform requires a positive token index.
    SplitSliceRequiresIndex,
    /// A split-slice transform requires a non-empty delimiter.
    SplitSliceRequiresDelimiter,
    /// A split-slice transform requires a positive slice length.
    SplitSliceRequiresLength,
    /// A left-extract transform requires a positive token index.
    LeftExtractRequiresIndex,
    /// A left-extract transform requires a positive length.
    LeftExtractRequiresLength,
    /// A right-extract transform requires a positive token index.
    RightExtractRequiresIndex,
    /// A right-extract transform requires a positive length.
    RightExtractRequiresLength,
    /// A compose transform requires at least one step.
    ComposeRequiresSteps,
    /// Bijective reversibility requires an invertible transform.
    TransformCannotSatisfyBijectiveRequirement,
    /// The quota's expansion factor must be positive.
    ZeroMaxExpansionFactor,
    /// The quota's fanout must be positive.
    ZeroMaxFanout,
    /// The quota's observability budget must be positive.
    ZeroMaxObservabilityBytes,
    /// The quota's handoff duration must be positive.
    ZeroMaxHandoffDuration,
}

/// Failures while evaluating a transform on tokens.
#[derive(Debug, Clone, PartialEq, Eq)]
pub enum MorphismEvaluationError {
    /// A 1-based token index falls outside the available tokens.
    TokenIndexOutOfRange {
        /// Requested 1-based index.
        index: usize,
        /// Number of tokens available.
        available: usize,
    },
    /// A pattern used for evaluation holds wildcards.
    NonLiteralPattern(String),
    /// A bucket count of zero.
    ZeroBuckets,
}

/// Mathematical value of an evaluation failure.
pub enum EvalFault {
    /// A 1-based index outside the available tokens.
    OutOfRange(nat, nat),
    /// A pattern with wildcards, by its text.
    NonLiteral(Seq<char>),
    /// A zero bucket count.
    ZeroBuckets,
}

impl View for MorphismEvaluationError {
    type V = EvalFault;

    open spec fn view(&self) -> EvalFault {
        match self {
            MorphismEvaluationError::TokenIndexOutOfRange { index, available } => EvalFault::OutOfRange(*index as nat, *available as nat),
            MorphismEvaluationError::NonLiteralPattern(p) => EvalFault::NonLiteral(p@),
            MorphismEvaluationError::ZeroBuckets => EvalFault::ZeroBuckets,
        }
    }
}

/// Finite transform vocabulary for typed namespace rewrites.
#[derive(Debug, PartialEq, Eq)]
pub enum SubjectTransform {
    /// Leave the subject language unchanged.
    Identity,
    /// Rename one namespace prefix to another.
    RenamePrefix {
        /// Source prefix to rewrite.
        from: SubjectPattern,
        /// Target prefix after rewriting.
        to: SubjectPattern,
    },
    /// Redact literal subject segments while preserving shape.
    RedactLiterals,
    /// Collapse the tail of a subject after keeping the leading prefix.
    SummarizeTail {
        /// Number of leading segments that remain visible.
        preserve_segments: usize,
    },
    /// Hash-partition the rewritten stream into a bounded number of buckets.
    HashPartition {
        /// Number of output buckets.
        buckets: u16,
    },
    /// Capture a single wildcard expansion by its 1-based index.
    WildcardCapture {
        /// 1-based wildcard/capture index.
        index: usize,
    },
    /// Deterministically hash one or more captured tokens into a bucket.
    DeterministicHash {
        /// Number of output buckets.
        buckets: u16,
        /// 1-based token indices used as the hash key; empty means all tokens.
        source_indices: Vec<usize>,
    },
    /// Split a captured token and keep a bounded slice of the pieces.
    SplitSlice {
        /// 1-based token index to split.
        index: usize,
        /// Delimiter used to split the selected token.
        delimiter: String,
        /// Zero-based starting piece after splitting.
        start: usize,
        /// Number of split pieces to keep.
        len: usize,
    },
    /// Keep the left-most characters from a captured token.
    LeftExtract {
        /// 1-based token index to project.
        index: usize,
        /// Number of characters to keep from the left.
        len: usize,
    },
    /// Keep the right-most characters from a captured token.
    RightExtract {
        /// 1-based token index to project.
        index: usize,
        /// Number of characters to keep from the right.
        len: usize,
    },
    /// Compose a finite sequence of transforms into a deterministic pipeline.
    Compose {
        /// Ordered transform pipeline.
        steps: Vec<SubjectTransform>,
    },
}

impl Clone for SubjectTransform {
    fn clone(&self) -> (r: Self)
        ensures
            same_transform(*self, r),
    {
        self.duplicate()
    }
}

impl Default for SubjectTransform {
    fn default() -> (t: Self)
        ensures
            t is Identity,
    {
        SubjectTransform::Identity
    }
}

/// The transform discards information: every transform but identity,
/// prefix renaming, and compositions of those.
pub open spec fn lossy(t: SubjectTransform) -> bool
    decreases t,
{
    match t {
        SubjectTransform::Identity => false,
        SubjectTransform::RenamePrefix { .. } => false,
        SubjectTransform::Compose { steps } => any_lossy(steps@),
        _ => true,
    }
}

/// Some step of the sequence is lossy.
pub open spec fn any_lossy(s: Seq<SubjectTransform>) -> bool
    decreases s,
{
    if s.len() == 0 {
        false
    } else {
        proof { assert(decreases_to!(s => s.drop_last())); }
        any_lossy(s.drop_last()) || lossy(s.last())
    }
}

/// The transform has a structural inverse: identity, prefix renaming, and
/// compositions of invertible steps.
pub open spec fn invertible(t: SubjectTransform) -> bool
    decreases t,
{
    match t {
        SubjectTransform::Identity => true,
        SubjectTransform::RenamePrefix { .. } => true,
        SubjectTransform::Compose { steps } => all_invertible(steps@),
        _ => false,
    }
}

/// Every step of the sequence is invertible.
pub open spec fn all_invertible(s: Seq<SubjectTransform>) -> bool
    decreases s,
{
    if s.len() == 0 {
        true
    } else {
        proof { assert(decreases_to!(s => s.drop_last())); }
        all_invertible(s.drop_last()) && invertible(s.last())
    }
}

/// Two patterns hold the same tokens and text.
pub open spec fn same_pattern(a: SubjectPattern, b: SubjectPattern) -> bool {
    a.tokens() == b.tokens() && a.text() == b.text()
}

/// `r` is the structural inverse of `t`: identity for identity, the
/// swapped renaming for a renaming, and the inverted steps in reverse
/// order for a composition.
pub open spec fn inverse_of(t: SubjectTransform, r: SubjectTransform) -> bool
    decreases t,
{
    match t {
        SubjectTransform::Identity => r is Identity,
        SubjectTransform::RenamePrefix { from, to } => match r {
            SubjectTransform::RenamePrefix { from: f, to: g } => same_pattern(f, to) && same_pattern(g, from),
            _ => false,
        },
        SubjectTransform::Compose { steps } => match r {
            SubjectTransform::Compose { steps: rs } => inverses_reversed(steps@, rs@),
            _ => false,
        },
        _ => false,
    }
}

/// `r` holds the inverses of the steps of `s`, last step first.
pub open spec fn inverses_reversed(s: Seq<SubjectTransform>, r: Seq<SubjectTransform>) -> bool
    decreases s,
{
    if s.len() == 0 {
        r.len() == 0
    } else {
        proof { assert(decreases_to!(s => s.drop_last())); }
        &&& r.len() == s.len()
        &&& inverse_of(s.last(), r[0])
        &&& inverses_reversed(s.drop_last(), r.drop_first())
    }
}

/// Two transforms are the same up to the identity of their strings and
/// vectors.
pub open spec fn same_transform(a: SubjectTransform, b: SubjectTransform) -> bool
    decreases a,
{
    match a {
        SubjectTransform::RenamePrefix { from, to } => match b {
            SubjectTransform::RenamePrefix { from: f, to: g } => same_pattern(from, f) && same_pattern(to, g),
            _ => false,
        },
        SubjectTransform::DeterministicHash { buckets, source_indices } => match b {
            SubjectTransform::DeterministicHash { buckets: c, source_indices: si } => buckets == c && source_indices@ == si@,
            _ => false,
        },
        SubjectTransform::SplitSlice { index, delimiter, start, len } => match b {
            SubjectTransform::SplitSlice { index: i2, delimiter: d2, start: s2, len: l2 } =>
                index == i2 && delimiter@ == d2@ && start == s2 && len == l2,
            _ => false,
        },
        SubjectTransform::Compose { steps } => match b {
            SubjectTransform::Compose { steps: rs } => same_steps(steps@, rs@),
            _ => false,
        },
        _ => a == b,
    }
}

/// Two step sequences are pairwise the same.
pub open spec fn same_steps(s: Seq<SubjectTransform>, r: Seq<SubjectTransform>) -> bool
    decreases s,
{
    if s.len() == 0 {
        r.len() == 0
    } else {
        proof { assert(decreases_to!(s => s.drop_last())); }
        &&& r.len() == s.len()
        &&& same_transform(s.last(), r.last())
        &&& same_steps(s.drop_last(), r.drop_last())
    }
}

impl SubjectTransform {
    /// A copy of the transform.
    pub fn duplicate(&self) -> (r: Self)
        ensures
            same_transform(*self, r),
        decreases self,
    {
        match self {
            SubjectTransform::Identity => SubjectTransform::Identity,
            SubjectTransform::RenamePrefix { from, to } => SubjectTransform::RenamePrefix { from: from.duplicate(), to: to.duplicate() },
            SubjectTransform::RedactLiterals => SubjectTransform::RedactLiterals,
            SubjectTransform::SummarizeTail { preserve_segments } => SubjectTransform::SummarizeTail { preserve_segments: *preserve_segments },
            SubjectTransform::HashPartition { buckets } => SubjectTransform::HashPartition { buckets: *buckets },
            SubjectTransform::WildcardCapture { index } => SubjectTransform::WildcardCapture { index: *index },
            SubjectTransform::DeterministicHash { buckets, source_indices } => {
                let mut v: Vec<usize> = Vec::new();
                let mut i: usize = 0;
                while i < source_indices.len()
                    invariant
                        i <= source_indices@.len(),
                        v@ == source_indices@.take(i as int),
                    decreases source_indices.len() - i,
                {
                    v.push(source_indices[i]);
                    assert(v@ =~= source_indices@.take(i + 1));
                    i = i + 1;
                }
                assert(source_indices@.take(source_indices@.len() as int) =~= source_indices@);
                SubjectTransform::DeterministicHash { buckets: *buckets, source_indices: v }
            },
            SubjectTransform::SplitSlice { index, delimiter, start, len } => SubjectTransform::SplitSlice {
                index: *index,
                delimiter: crate::text::copy_string(delimiter),
                start: *start,
                len: *len,
            },
            SubjectTransform::LeftExtract { index, len } => SubjectTransform::LeftExtract { index: *index, len: *len },
            SubjectTransform::RightExtract { index, len } => SubjectTransform::RightExtract { index: *index, len: *len },
            SubjectTransform::Compose { steps } => {
                let mut v: Vec<SubjectTransform> = Vec::new();
                let mut i: usize = 0;
                while i < steps.len()
                    invariant
                        i <= steps@.len(),
                        *self == (SubjectTransform::Compose { steps: *steps }),
                        v@.len() == i,
                        same_steps(steps@.take(i as int), v@),
                    decreases steps.len() - i,
                {
                    proof { lemma_step_decreases(*self, *steps, i as int); }
                    let d = steps[i].duplicate();
                    let ghost before = v@;
                    v.push(d);
                    proof {
                        assert(steps@.take(i + 1).drop_last() =~= steps@.take(i as int));
                        assert(v@.drop_last() =~= before);
                    }
                    i = i + 1;
                }
                assert(steps@.take(steps@.len() as int) =~= steps@);
                SubjectTransform::Compose { steps: v }
            },
        }
    }

    /// Whether the transform intentionally discards information.
    pub fn is_lossy(&self) -> (b: bool)
        ensures
            b == lossy(*self),
        decreases self,
    {
        match self {
            SubjectTransform::Identity => false,
            SubjectTransform::RenamePrefix { .. } => false,
            SubjectTransform::Compose { steps } => {
                let mut i: usize = 0;
                while i < steps.len()
                    invariant
                        i <= steps@.len(),
                        *self == (SubjectTransform::Compose { steps: *steps }),
                        !any_lossy(steps@.take(i as int)),
                    decreases steps.len() - i,
                {
                    proof { lemma_step_decreases(*self, *steps, i as int); }
                    let l = steps[i].is_lossy();
                    proof {
                        assert(steps@.take(i + 1).drop_last() =~= steps@.take(i as int));
                        lemma_any_lossy_prefix(steps@, i + 1);
                    }
                    if l {
                        proof { lemma_any_lossy_extend(steps@, i + 1); }
                        return true;
                    }
                    i = i + 1;
                }
                assert(steps@.take(steps@.len() as int) =~= steps@);
                false
            },
            _ => true,
        }
    }

    /// Whether the transform admits a structural inverse.
    pub fn is_invertible(&self) -> (b: bool)
        ensures
            b == invertible(*self),
    {
        match self.inverse() {
            Some(_) => true,
            None => false,
        }
    }

    /// The structural inverse, when the transform is invertible.
    pub fn inverse(&self) -> (r: Option<Self>)
        ensures
            match r {
                Some(x) => invertible(*self) && inverse_of(*self, x),
                None => !invertible(*self),
            },
        decreases self,
    {
        match self {
            SubjectTransform::Identity => Some(SubjectTransform::Identity),
            SubjectTransform::RenamePrefix { from, to } => Some(SubjectTransform::RenamePrefix {
                from: to.duplicate(),
                to: from.duplicate(),
            }),
            SubjectTransform::Compose { steps } => {
                let n = steps.len();
                let mut inverse_steps: Vec<SubjectTransform> = Vec::new();
                let mut k: usize = 0;
                while k < n
                    invariant
                        k <= n,
                        n == steps@.len(),
                        *self == (SubjectTransform::Compose { steps: *steps }),
                        inverse_steps@.len() == k,
                        all_invertible(steps@.skip(n - k)),
                        inverses_reversed(steps@.skip(n - k), inverse_steps@),
                    decreases n - k,
                {
                    proof { lemma_step_decreases(*self, *steps, n - 1 - k); }
                    let r = steps[n - 1 - k].inverse();
                    proof {
                        let t = steps@.skip(n - k - 1);
                        assert(t.drop_first() =~= steps@.skip(n - k));
                        assert(t[0] == steps@[n - 1 - k]);
                        lemma_all_invertible_cons(t);
                    }
                    match r {
                        Some(x) => {
                            let ghost before = inverse_steps@;
                            inverse_steps.push(x);
                            proof {
                                let t = steps@.skip(n - k - 1);
                                lemma_inverses_push(t, before, x);
                            }
                        },
                        None => {
                            proof { lemma_all_invertible_member(steps@, n - 1 - k); }
                            return None;
                        },
                    }
                    k = k + 1;
                }
                assert(steps@.skip(0) =~= steps@);
                Some(SubjectTransform::Compose { steps: inverse_steps })
            },
            _ => None,
        }
    }
}

proof fn lemma_step_decreases(t: SubjectTransform, steps: Vec<SubjectTransform>, i: int)
    requires
        t == (SubjectTransform::Compose { steps }),
        0 <= i < steps@.len(),
    ensures
        decreases_to!(t => steps@[i]),
{
    assert(decreases_to!(t => t->steps));
    assert(decreases_to!(t->steps => t->steps@));
    assert(decreases_to!(t->steps@ => t->steps@[i]));
}

proof fn lemma_all_invertible_cons(s: Seq<SubjectTransform>)
    requires
        s.len() > 0,
    ensures
        all_invertible(s) == (invertible(s[0]) && all_invertible(s.drop_first())),
    decreases s.len(),
{
    if s.len() > 1 {
        lemma_all_invertible_cons(s.drop_last());
        assert(s.drop_last().drop_first() =~= s.drop_first().drop_last());
        assert(s.drop_last()[0] == s[0]);
        assert(s.drop_first().last() == s.last());
    } else {
        assert(s.drop_first() =~= Seq::<SubjectTransform>::empty());
        assert(s.drop_last() =~= Seq::<SubjectTransform>::empty());
    }
}

proof fn lemma_all_invertible_member(s: Seq<SubjectTransform>, i: int)
    requires
        0 <= i < s.len(),
        !invertible(s[i]),
    ensures
        !all_invertible(s),
    decreases s.len(),
{
    if i < s.len() - 1 {
        lemma_all_invertible_member(s.drop_last(), i);
    }
}

proof fn lemma_inverses_push(s: Seq<SubjectTransform>, r: Seq<SubjectTransform>, x: SubjectTransform)
    requires
        s.len() > 0,
        inverses_reversed(s.drop_first(), r),
        inverse_of(s[0], x),
    ensures
        inverses_reversed(s, r.push(x)),
    decreases s.len(),
{
    if s.len() == 1 {
        assert(s.drop_first() =~= Seq::<SubjectTransform>::empty());
        assert(s.drop_last() =~= Seq::<SubjectTransform>::empty());
        assert(r.len() == 0);
        assert(r.push(x).drop_first() =~= Seq::<SubjectTransform>::empty());
        assert(r.push(x)[0] == x);
        assert(s.last() == s[0]);
        assert(inverses_reversed(s.drop_last(), r.push(x).drop_first()));
    } else {
        let s2 = s.drop_last();
        assert(s2.drop_first() =~= s.drop_first().drop_last());
        assert(s2[0] == s[0]);
        assert(s.drop_first().last() == s.last());
        lemma_inverses_push(s2, r.drop_first(), x);
        assert(r.push(x).drop_first() =~= r.drop_first().push(x));
        assert(r.push(x)[0] == r[0]);
    }
}

proof fn lemma_any_lossy_extend(s: Seq<SubjectTransform>, k: int)
    requires
        0 <= k <= s.len(),
        any_lossy(s.take(k)),
    ensures
        any_lossy(s),
    decreases s.len(),
{
    if k < s.len() {
        assert(s.drop_last().take(k) =~= s.take(k));
        lemma_any_lossy_extend(s.drop_last(), k);
    } else {
        assert(s.take(k) =~= s);
    }
}

proof fn lemma_any_lossy_prefix(s: Seq<SubjectTransform>, k: int)
    requires
        0 < k <= s.len(),
    ensures
        any_lossy(s.take(k)) == (any_lossy(s.take(k - 1)) || lossy(s[k - 1])),
{
    assert(s.take(k).drop_last() =~= s.take(k - 1));
}

// ─── Evaluation on tokens ──────────────────────────────────────────────────

/// Texts of a sequence of strings.
pub open spec fn tv(v: Seq<String>) -> Seq<Seq<char>> {
    v.map_values(|x: String| x@)
}

/// The texts of a pattern's tokens when every token is a literal.
pub open spec fn literal_texts(t: Seq<Tok>) -> Option<Seq<Seq<char>>>
    decreases t.len(),
{
    if t.len() == 0 {
        Some(Seq::empty())
    } else {
        match literal_texts(t.drop_last()) {
            Some(p) => match t.last() {
                Tok::Lit(x) => Some(p.push(x)),
                _ => None,
            },
            None => None,
        }
    }
}

/// The token at 1-based `index`.
pub open spec fn select(toks: Seq<Seq<char>>, index: int) -> Result<Seq<char>, EvalFault> {
    if 1 <= index <= toks.len() {
        Ok(toks[index - 1])
    } else {
        Err(EvalFault::OutOfRange(index as nat, toks.len()))
    }
}

/// Bytes a token contributes to a hash key: its UTF-8 bytes and `0xff`.
pub open spec fn token_bytes(t: Seq<char>) -> Seq<u8> {
    vstd::utf8::encode_utf8(t).push(0xffu8)
}

/// Hash key of all tokens.
pub open spec fn all_token_bytes(toks: Seq<Seq<char>>) -> Seq<u8>
    decreases toks.len(),
{
    if toks.len() == 0 {
        Seq::empty()
    } else {
        all_token_bytes(toks.drop_last()) + token_bytes(toks.last())
    }
}

/// Hash key of the tokens at the given 1-based indices, in order.
pub open spec fn selected_bytes(toks: Seq<Seq<char>>, idx: Seq<usize>) -> Result<Seq<u8>, EvalFault>
    decreases idx.len(),
{
    if idx.len() == 0 {
        Ok(Seq::empty())
    } else {
        match selected_bytes(toks, idx.drop_last()) {
            Ok(b) => match select(toks, idx.last() as int) {
                Ok(t) => Ok(b + token_bytes(t)),
                Err(e) => Err(e),
            },
            Err(e) => Err(e),
        }
    }
}

/// Bucket of the tokens (all of them, or those at `idx`) among `buckets`:
/// 64-bit FNV-1a of the key, modulo the bucket count.
pub open spec fn bucket_of(toks: Seq<Seq<char>>, idx: Seq<usize>, buckets: u16) -> Result<nat, EvalFault> {
    if buckets == 0 {
        Err(EvalFault::ZeroBuckets)
    } else if idx.len() == 0 {
        Ok((crate::lab::seed::fnv1a(all_token_bytes(toks)) % (buckets as u64)) as nat)
    } else {
        match selected_bytes(toks, idx) {
            Ok(b) => Ok((crate::lab::seed::fnv1a(b) % (buckets as u64)) as nat),
            Err(e) => Err(e),
        }
    }
}

/// First position at or after `i` where `d` occurs in `s`.
pub open spec fn occ_from(s: Seq<char>, d: Seq<char>, i: int) -> Option<int>
    decreases s.len() + 1 - i,
{
    if i < 0 || i + d.len() > s.len() {
        None
    } else if s.subrange(i, i + d.len()) == d {
        Some(i)
    } else {
        occ_from(s, d, i + 1)
    }
}

/// Pieces of `s[q..]` between non-overlapping occurrences of a non-empty
/// delimiter `d`, from the left.
pub open spec fn split_from(s: Seq<char>, d: Seq<char>, q: int) -> Seq<Seq<char>>
    decreases s.len() - q,
{
    if d.len() == 0 || q < 0 || q > s.len() {
        seq![s.subrange(q, s.len() as int)]
    } else {
        match occ_from(s, d, q) {
            Some(i) => if q <= i && i + d.len() <= s.len() {
                seq![s.subrange(q, i)] + split_from(s, d, i + d.len())
            } else {
                seq![s.subrange(q, s.len() as int)]
            },
            None => seq![s.subrange(q, s.len() as int)],
        }
    }
}

/// Each character of `s` as a one-character text.
pub open spec fn singletons(s: Seq<char>) -> Seq<Seq<char>> {
    s.map_values(|c: char| seq![c])
}

/// Pieces of `s` split on `d`, as `str::split` gives them: an empty
/// delimiter splits between every character, with empty pieces at both
/// ends.
pub open spec fn split_on(s: Seq<char>, d: Seq<char>) -> Seq<Seq<char>> {
    if d.len() == 0 {
        seq![Seq::<char>::empty()] + singletons(s) + seq![Seq::<char>::empty()]
    } else {
        split_from(s, d, 0)
    }
}

/// The result of applying `t` to the tokens.
pub open spec fn apply_spec(t: SubjectTransform, toks: Seq<Seq<char>>) -> Result<Seq<Seq<char>>, EvalFault>
    decreases t,
{
    match t {
        SubjectTransform::Identity => Ok(toks),
        SubjectTransform::RenamePrefix { from, to } => match literal_texts(from.tokens()) {
            None => Err(EvalFault::NonLiteral(from.text())),
            Some(f) => match literal_texts(to.tokens()) {
                None => Err(EvalFault::NonLiteral(to.text())),
                Some(g) => if f.len() <= toks.len() && toks.take(f.len() as int) == f {
                    Ok(g + toks.skip(f.len() as int))
                } else {
                    Ok(toks)
                },
            },
        },
        SubjectTransform::RedactLiterals => Ok(Seq::new(toks.len(), |i: int| seq!['_'])),
        SubjectTransform::SummarizeTail { preserve_segments } => if toks.len() <= preserve_segments {
            Ok(toks)
        } else {
            Ok(toks.take(preserve_segments as int).push(seq!['.', '.', '.']))
        },
        SubjectTransform::HashPartition { buckets } => match bucket_of(toks, Seq::empty(), buckets) {
            Ok(b) => Ok(seq![crate::text::decimal(b)]),
            Err(e) => Err(e),
        },
        SubjectTransform::WildcardCapture { index } => match select(toks, index as int) {
            Ok(x) => Ok(seq![x]),
            Err(e) => Err(e),
        },
        SubjectTransform::DeterministicHash { buckets, source_indices } => match bucket_of(toks, source_indices@, buckets) {
            Ok(b) => Ok(seq![crate::text::decimal(b)]),
            Err(e) => Err(e),
        },
        SubjectTransform::SplitSlice { index, delimiter, start, len } => match select(toks, index as int) {
            Ok(x) => {
                let pieces = split_on(x, delimiter@);
                if start >= pieces.len() {
                    Ok(Seq::empty())
                } else {
                    let end = if start + len < pieces.len() { start + len } else { pieces.len() as int };
                    Ok(pieces.subrange(start as int, end))
                }
            },
            Err(e) => Err(e),
        },
        SubjectTransform::LeftExtract { index, len } => match select(toks, index as int) {
            Ok(x) => Ok(seq![x.take(if len < x.len() { len as int } else { x.len() as int })]),
            Err(e) => Err(e),
        },
        SubjectTransform::RightExtract { index, len } => match select(toks, index as int) {
            Ok(x) => Ok(seq![x.skip(if len < x.len() { x.len() - len } else { 0 })]),
            Err(e) => Err(e),
        },
        SubjectTransform::Compose { steps } => {
            proof {
                assert(decreases_to!(t => t->steps));
                assert(decreases_to!(t->steps => t->steps@));
            }
            apply_steps(steps@, toks)
        },
    }
}

/// The result of applying the steps in order.
pub open spec fn apply_steps(s: Seq<SubjectTransform>, toks: Seq<Seq<char>>) -> Result<Seq<Seq<char>>, EvalFault>
    decreases s,
{
    if s.len() == 0 {
        Ok(toks)
    } else {
        proof { assert(decreases_to!(s => s.drop_last())); }
        match apply_steps(s.drop_last(), toks) {
            Ok(c) => apply_spec(s.last(), c),
            Err(e) => Err(e),
        }
    }
}


proof fn lemma_literal_none_extends(t: Seq<Tok>, k: int)
    requires
        0 <= k <= t.len(),
        literal_texts(t.take(k)) is None,
    ensures
        literal_texts(t) is None,
    decreases t.len(),
{
    if k < t.len() {
        assert(t.drop_last().take(k) =~= t.take(k));
        lemma_literal_none_extends(t.drop_last(), k);
    } else {
        assert(t.take(k) =~= t);
    }
}

/// The texts of a pattern's segments when all of them are literals.
fn literal_only_segments(pattern: &SubjectPattern) -> (r: Result<Vec<String>, MorphismEvaluationError>)
    ensures
        match literal_texts(pattern.tokens()) {
            Some(f) => r matches Ok(v) && tv(v@) == f,
            None => r matches Err(e) && e@ == EvalFault::NonLiteral(pattern.text()),
        },
{
    let segs = pattern.segments();
    let ghost t = pattern.tokens();
    let mut out: Vec<String> = Vec::new();
    let mut i: usize = 0;
    assert(t.take(0) =~= Seq::<Tok>::empty());
    while i < segs.len()
        invariant
            i <= segs.len(),
            t == pattern.tokens(),
            t == toks(segs@),
            t.len() == segs@.len(),
            literal_texts(t.take(i as int)) == Some(tv(out@)),
        decreases segs.len() - i,
    {
        assert(t.take(i + 1).drop_last() =~= t.take(i as int));
        assert(t.take(i + 1).last() == segs@[i as int]@);
        match &segs[i] {
            SubjectToken::Literal(v) => {
                let ghost before = out@;
                out.push(copy_string(v));
                assert(tv(out@) =~= tv(before).push(v@));
            },
            _ => {
                proof {
                    assert(!(t.take(i + 1).last() is Lit));
                    assert(literal_texts(t.take(i + 1)) is None);
                    lemma_literal_none_extends(t, i + 1);
                }
                return Err(MorphismEvaluationError::NonLiteralPattern(pattern.canonical_key()));
            },
        }
        i = i + 1;
    }
    assert(t.take(segs.len() as int) =~= t);
    Ok(out)
}

/// The token at 1-based `index`.
fn select_token(tokens: &[String], index: usize) -> (r: Result<&String, MorphismEvaluationError>)
    ensures
        match select(tv(tokens@), index as int) {
            Ok(x) => r matches Ok(s) && s@ == x,
            Err(f) => r matches Err(e) && e@ == f,
        },
{
    if index == 0 || index > tokens.len() {
        Err(MorphismEvaluationError::TokenIndexOutOfRange { index, available: tokens.len() })
    } else {
        Ok(&tokens[index - 1])
    }
}

/// Appends bytes to a byte vector.
fn append_bytes(v: &mut Vec<u8>, b: &[u8])
    ensures
        final(v)@ == old(v)@ + b@,
{
    let mut i: usize = 0;
    while i < b.len()
        invariant
            i <= b.len(),
            v@ == old(v)@ + b@.take(i as int),
        decreases b.len() - i,
    {
        v.push(b[i]);
        assert(old(v)@ + b@.take(i + 1) =~= (old(v)@ + b@.take(i as int)).push(b@[i as int]));
        i = i + 1;
    }
    assert(b@.take(b.len() as int) =~= b@);
}

/// Appends a token's hash-key bytes.
fn append_token_bytes(v: &mut Vec<u8>, t: &String)
    ensures
        final(v)@ == old(v)@ + token_bytes(t@),
{
    append_bytes(v, t.as_str().as_bytes());
    v.push(0xffu8);
    assert(final(v)@ =~= old(v)@ + token_bytes(t@)) by {
        assert(token_bytes(t@) =~= vstd::utf8::encode_utf8(t@).push(0xffu8));
    }
}


/// Bucket of the tokens among `buckets`, keyed by all tokens when
/// `source_indices` is empty and by the selected tokens otherwise.
fn deterministic_bucket(tokens: &[String], source_indices: &[usize], buckets: u16) -> (r: Result<u16, MorphismEvaluationError>)
    ensures
        match bucket_of(tv(tokens@), source_indices@, buckets) {
            Ok(b) => r matches Ok(x) && x == b,
            Err(f) => r matches Err(e) && e@ == f,
        },
{
    if buckets == 0 {
        return Err(MorphismEvaluationError::ZeroBuckets);
    }
    let ghost toks = tv(tokens@);
    let mut key: Vec<u8> = Vec::new();
    if source_indices.len() == 0 {
        let mut i: usize = 0;
        assert(toks.take(0) =~= Seq::<Seq<char>>::empty());
        while i < tokens.len()
            invariant
                i <= tokens.len(),
                buckets > 0,
                source_indices@.len() == 0,
                toks == tv(tokens@),
                key@ == all_token_bytes(toks.take(i as int)),
            decreases tokens.len() - i,
        {
            append_token_bytes(&mut key, &tokens[i]);
            assert(toks.take(i + 1).drop_last() =~= toks.take(i as int));
            i = i + 1;
        }
        assert(toks.take(tokens.len() as int) =~= toks);
    } else {
        let mut i: usize = 0;
        assert(source_indices@.take(0) =~= Seq::<usize>::empty());
        while i < source_indices.len()
            invariant
                i <= source_indices.len(),
                buckets > 0,
                source_indices@.len() > 0,
                toks == tv(tokens@),
                selected_bytes(toks, source_indices@.take(i as int)) == Ok::<Seq<u8>, EvalFault>(key@),
            decreases source_indices.len() - i,
        {
            assert(source_indices@.take(i + 1).drop_last() =~= source_indices@.take(i as int));
            match select_token(tokens, source_indices[i]) {
                Ok(t) => append_token_bytes(&mut key, t),
                Err(e) => {
                    proof { lemma_selected_err_extends(toks, source_indices@, i + 1); }
                    return Err(e);
                },
            }
            i = i + 1;
        }
        assert(source_indices@.take(source_indices.len() as int) =~= source_indices@);
    }
    let h = crate::lab::seed::fnv1a_bytes(key.as_slice());
    let b = (h % (buckets as u64)) as u16;
    Ok(b)
}

proof fn lemma_selected_err_extends(toks: Seq<Seq<char>>, idx: Seq<usize>, k: int)
    requires
        0 <= k <= idx.len(),
        selected_bytes(toks, idx.take(k)) is Err,
    ensures
        selected_bytes(toks, idx) == selected_bytes(toks, idx.take(k)),
    decreases idx.len(),
{
    if k < idx.len() {
        assert(idx.drop_last().take(k) =~= idx.take(k));
        lemma_selected_err_extends(toks, idx.drop_last(), k);
    } else {
        assert(idx.take(k) =~= idx);
    }
}

proof fn lemma_occ_from_found(s: Seq<char>, d: Seq<char>, q: int)
    requires
        occ_from(s, d, q) is Some,
    ensures
        q <= occ_from(s, d, q)->0,
        occ_from(s, d, q)->0 + d.len() <= s.len(),
    decreases s.len() + 1 - q,
{
    if 0 <= q && q + d.len() <= s.len() && s.subrange(q, q + d.len()) != d {
        lemma_occ_from_found(s, d, q + 1);
    }
}

/// Whether `d` occurs in `s` at position `i`.
fn occurs_at(s: &Vec<char>, d: &Vec<char>, i: usize) -> (r: bool)
    requires
        i + d.len() <= s.len(),
    ensures
        r == (s@.subrange(i as int, i + d.len()) == d@),
{
    let mut j: usize = 0;
    while j < d.len()
        invariant
            i + d.len() <= s.len(),
            j <= d.len(),
            forall|k: int| 0 <= k < j ==> s@[i + k] == d@[k],
        decreases d.len() - j,
    {
        if s[i + j] != d[j] {
            assert(s@.subrange(i as int, i + d.len())[j as int] != d@[j as int]);
            return false;
        }
        j = j + 1;
    }
    assert(s@.subrange(i as int, i + d.len()) =~= d@);
    true
}

/// First occurrence of `d` in `s` at or after `q`.
fn find_from(s: &Vec<char>, d: &Vec<char>, q: usize) -> (r: Option<usize>)
    requires
        q <= s.len(),
    ensures
        match occ_from(s@, d@, q as int) {
            Some(i) => r == Some(i as usize),
            None => r is None,
        },
{
    let mut i: usize = q;
    while i <= s.len() && d.len() <= s.len() - i
        invariant
            q <= i <= s.len(),
            occ_from(s@, d@, q as int) == occ_from(s@, d@, i as int),
        decreases s.len() + 1 - i,
    {
        if occurs_at(s, d, i) {
            return Some(i);
        }
        assert(d@.len() > 0) by {
            if d@.len() == 0 {
                assert(s@.subrange(i as int, i as int) =~= d@);
            }
        }
        i = i + 1;
    }
    None
}

/// Copies `v[lo..hi]` into a string.
fn slice_string(v: &Vec<char>, lo: usize, hi: usize) -> (r: String)
    requires
        lo <= hi <= v.len(),
    ensures
        r@ == v@.subrange(lo as int, hi as int),
{
    let mut r = String::new();
    let mut i: usize = lo;
    while i < hi
        invariant
            lo <= i <= hi <= v.len(),
            r@ == v@.subrange(lo as int, i as int),
        decreases hi - i,
    {
        crate::text::push_char(&mut r, v[i]);
        assert(v@.subrange(lo as int, i + 1) =~= v@.subrange(lo as int, i as int).push(v@[i as int]));
        i = i + 1;
    }
    r
}

/// The pieces of `s` split on `d`, as `str::split` gives them.
fn split_text(s: &str, d: &str) -> (r: Vec<String>)
    ensures
        tv(r@) == split_on(s@, d@),
{
    let sc = crate::text::str_chars(s);
    let dc = crate::text::str_chars(d);
    let mut out: Vec<String> = Vec::new();
    if dc.len() == 0 {
        out.push(String::new());
        let mut i: usize = 0;
        while i < sc.len()
            invariant
                i <= sc.len(),
                tv(out@) == seq![Seq::<char>::empty()] + singletons(sc@.take(i as int)),
            decreases sc.len() - i,
        {
            let ghost before = out@;
            out.push(slice_string(&sc, i, i + 1));
            assert(tv(out@) =~= seq![Seq::<char>::empty()] + singletons(sc@.take(i + 1))) by {
                assert(sc@.subrange(i as int, i + 1) =~= seq![sc@[i as int]]);
                assert(singletons(sc@.take(i + 1)) =~= singletons(sc@.take(i as int)).push(seq![sc@[i as int]]));
                assert(tv(out@) =~= tv(before).push(seq![sc@[i as int]]));
            }
            i = i + 1;
        }
        let ghost before = out@;
        out.push(String::new());
        assert(sc@.take(sc.len() as int) =~= sc@);
        assert(tv(out@) =~= split_on(s@, d@));
        return out;
    }
    let mut q: usize = 0;
    loop
        invariant
            q <= sc.len(),
            dc@.len() > 0,
            sc@ == s@,
            dc@ == d@,
            tv(out@) + split_from(sc@, dc@, q as int) == split_from(sc@, dc@, 0),
        decreases sc.len() - q,
    {
        match find_from(&sc, &dc, q) {
            Some(i) => {
                proof { lemma_occ_from_found(sc@, dc@, q as int); }
                let piece = slice_string(&sc, q, i);
                let ghost before = out@;
                out.push(piece);
                assert(tv(out@) =~= tv(before).push(sc@.subrange(q as int, i as int)));
                assert(split_from(sc@, dc@, q as int) == seq![sc@.subrange(q as int, i as int)] + split_from(sc@, dc@, i + dc@.len()));
                assert(tv(out@) + split_from(sc@, dc@, i + dc@.len()) =~= tv(before) + split_from(sc@, dc@, q as int));
                q = i + dc.len();
            },
            None => {
                let piece = slice_string(&sc, q, sc.len());
                let ghost before = out@;
                out.push(piece);
                assert(tv(out@) =~= tv(before) + split_from(sc@, dc@, q as int));
                return out;
            },
        }
    }
}

/// The first `len` characters of a token (all of it when shorter).
fn take_left(token: &String, len: usize) -> (r: String)
    ensures
        r@ == token@.take(if len < token@.len() { len as int } else { token@.len() as int }),
{
    let c = crate::text::str_chars(token.as_str());
    let n = if len < c.len() { len } else { c.len() };
    slice_string(&c, 0, n)
}

/// The last `len` characters of a token (all of it when shorter).
fn take_right(token: &String, len: usize) -> (r: String)
    ensures
        r@ == token@.skip(if len < token@.len() { token@.len() - len } else { 0 }),
{
    let c = crate::text::str_chars(token.as_str());
    let start = if len < c.len() { c.len() - len } else { 0 };
    slice_string(&c, start, c.len())
}


/// Copies `tokens[lo..hi]`.
fn copy_range(tokens: &[String], lo: usize, hi: usize) -> (r: Vec<String>)
    requires
        lo <= hi <= tokens.len(),
    ensures
        tv(r@) == tv(tokens@).subrange(lo as int, hi as int),
{
    let mut r: Vec<String> = Vec::new();
    let mut i: usize = lo;
    while i < hi
        invariant
            lo <= i <= hi <= tokens.len(),
            tv(r@) == tv(tokens@).subrange(lo as int, i as int),
        decreases hi - i,
    {
        let ghost before = r@;
        r.push(copy_string(&tokens[i]));
        assert(tv(r@) =~= tv(tokens@).subrange(lo as int, i + 1)) by {
            assert(tv(r@) =~= tv(before).push(tokens@[i as int]@));
        }
        i = i + 1;
    }
    r
}

/// Whether `tokens` starts with the texts of `prefix`.
fn starts_with_texts(tokens: &[String], prefix: &Vec<String>) -> (b: bool)
    ensures
        b == (prefix@.len() <= tokens@.len() && tv(tokens@).take(prefix@.len() as int) == tv(prefix@)),
{
    if prefix.len() > tokens.len() {
        return false;
    }
    let mut i: usize = 0;
    while i < prefix.len()
        invariant
            prefix.len() <= tokens.len(),
            i <= prefix.len(),
            forall|k: int| 0 <= k < i ==> tokens@[k]@ == prefix@[k]@,
        decreases prefix.len() - i,
    {
        if !crate::text::same_text(&tokens[i], &prefix[i]) {
            assert(tv(tokens@).take(prefix@.len() as int)[i as int] != tv(prefix@)[i as int]);
            return false;
        }
        i = i + 1;
    }
    assert(tv(tokens@).take(prefix@.len() as int) =~= tv(prefix@));
    true
}

/// A one-character string.
fn char_text(c: char) -> (r: String)
    ensures
        r@ == seq![c],
{
    let mut r = String::new();
    crate::text::push_char(&mut r, c);
    assert(r@ =~= seq![c]);
    r
}

/// The text `...`.
fn ellipsis() -> (r: String)
    ensures
        r@ == seq!['.', '.', '.'],
{
    let mut r = String::new();
    crate::text::push_char(&mut r, '.');
    crate::text::push_char(&mut r, '.');
    crate::text::push_char(&mut r, '.');
    assert(r@ =~= seq!['.', '.', '.']);
    r
}

/// A vector holding one string.
fn single(x: String) -> (r: Vec<String>)
    ensures
        tv(r@) == seq![x@],
{
    let mut r: Vec<String> = Vec::new();
    r.push(x);
    assert(tv(r@) =~= seq![x@]);
    r
}

proof fn lemma_steps_err_extends(s: Seq<SubjectTransform>, toks: Seq<Seq<char>>, k: int)
    requires
        0 <= k <= s.len(),
        apply_steps(s.take(k), toks) is Err,
    ensures
        apply_steps(s, toks) == apply_steps(s.take(k), toks),
    decreases s.len(),
{
    if k < s.len() {
        assert(s.drop_last().take(k) =~= s.take(k));
        lemma_steps_err_extends(s.drop_last(), toks, k);
    } else {
        assert(s.take(k) =~= s);
    }
}

impl SubjectTransform {
    /// Applies the transform to a token vector, deterministically.
    ///
    /// Callers feed it wildcard captures or the tokens of a concrete
    /// subject, depending on the facet they evaluate.
    pub fn apply_tokens(&self, tokens: &[String]) -> (r: Result<Vec<String>, MorphismEvaluationError>)
        ensures
            match apply_spec(*self, tv(tokens@)) {
                Ok(t) => r matches Ok(v) && tv(v@) == t,
                Err(f) => r matches Err(e) && e@ == f,
            },
        decreases self,
    {
        let ghost toks = tv(tokens@);
        match self {
            SubjectTransform::Identity => Ok(copy_range(tokens, 0, tokens.len())),
            SubjectTransform::RenamePrefix { from, to } => {
                let from_literals = literal_only_segments(from)?;
                let to_literals = literal_only_segments(to)?;
                if starts_with_texts(tokens, &from_literals) {
                    let mut rewritten = to_literals;
                    let rest = copy_range(tokens, from_literals.len(), tokens.len());
                    let mut j: usize = 0;
                    let ghost head = tv(rewritten@);
                    while j < rest.len()
                        invariant
                            j <= rest.len(),
                            tv(rewritten@) == head + tv(rest@).take(j as int),
                        decreases rest.len() - j,
                    {
                        let ghost before = rewritten@;
                        rewritten.push(copy_string(&rest[j]));
                        assert(tv(rewritten@) =~= head + tv(rest@).take(j + 1)) by {
                            assert(tv(rewritten@) =~= tv(before).push(rest@[j as int]@));
                        }
                        j = j + 1;
                    }
                    assert(tv(rest@).take(rest@.len() as int) =~= tv(rest@));
                    assert(toks.subrange(from_literals@.len() as int, toks.len() as int) =~= toks.skip(from_literals@.len() as int));
                    Ok(rewritten)
                } else {
                    Ok(copy_range(tokens, 0, tokens.len()))
                }
            },
            SubjectTransform::RedactLiterals => {
                let mut r: Vec<String> = Vec::new();
                let mut i: usize = 0;
                while i < tokens.len()
                    invariant
                        i <= tokens.len(),
                        tv(r@) == Seq::new(i as nat, |k: int| seq!['_']),
                    decreases tokens.len() - i,
                {
                    let ghost before = r@;
                    r.push(char_text('_'));
                    assert(tv(r@) =~= Seq::new((i + 1) as nat, |k: int| seq!['_'])) by {
                        assert(tv(r@) =~= tv(before).push(seq!['_']));
                    }
                    i = i + 1;
                }
                Ok(r)
            },
            SubjectTransform::SummarizeTail { preserve_segments } => {
                if tokens.len() <= *preserve_segments {
                    return Ok(copy_range(tokens, 0, tokens.len()));
                }
                let mut summarized = copy_range(tokens, 0, *preserve_segments);
                let ghost before = summarized@;
                summarized.push(ellipsis());
                assert(tv(summarized@) =~= tv(before).push(seq!['.', '.', '.']));
                Ok(summarized)
            },
            SubjectTransform::HashPartition { buckets } => {
                let empty: Vec<usize> = Vec::new();
                assert(empty@ =~= Seq::<usize>::empty());
                let b = deterministic_bucket(tokens, empty.as_slice(), *buckets)?;
                Ok(single(decimal_text(b as u64)))
            },
            SubjectTransform::WildcardCapture { index } => {
                let t = select_token(tokens, *index)?;
                Ok(single(copy_string(t)))
            },
            SubjectTransform::DeterministicHash { buckets, source_indices } => {
                let b = deterministic_bucket(tokens, source_indices.as_slice(), *buckets)?;
                Ok(single(decimal_text(b as u64)))
            },
            SubjectTransform::SplitSlice { index, delimiter, start, len } => {
                let token = select_token(tokens, *index)?;
                let pieces = split_text(token.as_str(), delimiter.as_str());
                if *start >= pieces.len() {
                    let r: Vec<String> = Vec::new();
                    assert(tv(r@) =~= Seq::<Seq<char>>::empty());
                    return Ok(r);
                }
                let end = if len < &(pieces.len() - *start) { *start + *len } else { pieces.len() };
                Ok(copy_range(pieces.as_slice(), *start, end))
            },
            SubjectTransform::LeftExtract { index, len } => {
                let token = select_token(tokens, *index)?;
                Ok(single(take_left(token, *len)))
            },
            SubjectTransform::RightExtract { index, len } => {
                let token = select_token(tokens, *index)?;
                Ok(single(take_right(token, *len)))
            },
            SubjectTransform::Compose { steps } => {
                let mut current = copy_range(tokens, 0, tokens.len());
                let mut i: usize = 0;
                assert(steps@.take(0) =~= Seq::<SubjectTransform>::empty());
                assert(toks.subrange(0, toks.len() as int) =~= toks);
                while i < steps.len()
                    invariant
                        i <= steps@.len(),
                        *self == (SubjectTransform::Compose { steps: *steps }),
                        toks == tv(tokens@),
                        apply_steps(steps@.take(i as int), toks) == Ok::<Seq<Seq<char>>, EvalFault>(tv(current@)),
                    decreases steps.len() - i,
                {
                    proof { lemma_step_decreases(*self, *steps, i as int); }
                    assert(steps@.take(i + 1).drop_last() =~= steps@.take(i as int));
                    match steps[i].apply_tokens(current.as_slice()) {
                        Ok(next) => {
                            current = next;
                        },
                        Err(e) => {
                            proof { lemma_steps_err_extends(steps@, toks, i + 1); }
                            return Err(e);
                        },
                    }
                    i = i + 1;
                }
                assert(steps@.take(steps@.len() as int) =~= steps@);
                Ok(current)
            },
        }
    }
}


// ─── Validation ────────────────────────────────────────────────────────────

/// Some index of the sequence is zero.
pub open spec fn has_zero_index(s: Seq<usize>) -> bool {
    exists|i: int| 0 <= i < s.len() && s[i] == 0
}

/// The transform's first structural fault, if any; a composition reports
/// an empty pipeline, then its steps' faults in order.
pub open spec fn transform_fault(t: SubjectTransform) -> Option<MorphismValidationError>
    decreases t,
{
    match t {
        SubjectTransform::RenamePrefix { from, to } => if from.text() == to.text() {
            Some(MorphismValidationError::RenamePrefixIdentity)
        } else {
            None
        },
        SubjectTransform::SummarizeTail { preserve_segments } => if preserve_segments == 0 {
            Some(MorphismValidationError::SummarizeTailMustPreserveSegments)
        } else {
            None
        },
        SubjectTransform::HashPartition { buckets } => if buckets == 0 {
            Some(MorphismValidationError::HashPartitionRequiresBuckets)
        } else {
            None
        },
        SubjectTransform::WildcardCapture { index } => if index == 0 {
            Some(MorphismValidationError::WildcardCaptureRequiresIndex)
        } else {
            None
        },
        SubjectTransform::DeterministicHash { buckets, source_indices } => if buckets == 0 {
            Some(MorphismValidationError::DeterministicHashRequiresBuckets)
        } else if has_zero_index(source_indices@) {
            Some(MorphismValidationError::DeterministicHashIndexMustBePositive)
        } else {
            None
        },
        SubjectTransform::SplitSlice { index, delimiter, start, len } => if index == 0 {
            Some(MorphismValidationError::SplitSliceRequiresIndex)
        } else if delimiter@.len() == 0 {
            Some(MorphismValidationError::SplitSliceRequiresDelimiter)
        } else if len == 0 {
            Some(MorphismValidationError::SplitSliceRequiresLength)
        } else {
            None
        },
        SubjectTransform::LeftExtract { index, len } => if index == 0 {
            Some(MorphismValidationError::LeftExtractRequiresIndex)
        } else if len == 0 {
            Some(MorphismValidationError::LeftExtractRequiresLength)
        } else {
            None
        },
        SubjectTransform::RightExtract { index, len } => if index == 0 {
            Some(MorphismValidationError::RightExtractRequiresIndex)
        } else if len == 0 {
            Some(MorphismValidationError::RightExtractRequiresLength)
        } else {
            None
        },
        SubjectTransform::Compose { steps } => if steps@.len() == 0 {
            Some(MorphismValidationError::ComposeRequiresSteps)
        } else {
            proof {
                assert(decreases_to!(t => t->steps));
                assert(decreases_to!(t->steps => t->steps@));
            }
            steps_fault(steps@)
        },
        _ => None,
    }
}

/// The first fault among the steps, in order.
pub open spec fn steps_fault(s: Seq<SubjectTransform>) -> Option<MorphismValidationError>
    decreases s,
{
    if s.len() == 0 {
        None
    } else {
        proof { assert(decreases_to!(s => s.drop_last())); }
        match steps_fault(s.drop_last()) {
            Some(e) => Some(e),
            None => transform_fault(s.last()),
        }
    }
}

proof fn lemma_steps_fault_extends(s: Seq<SubjectTransform>, k: int)
    requires
        0 <= k <= s.len(),
        steps_fault(s.take(k)) is Some,
    ensures
        steps_fault(s) == steps_fault(s.take(k)),
    decreases s.len(),
{
    if k < s.len() {
        assert(s.drop_last().take(k) =~= s.take(k));
        lemma_steps_fault_extends(s.drop_last(), k);
    } else {
        assert(s.take(k) =~= s);
    }
}

impl SubjectTransform {
    /// Checks the transform's structural rules.
    pub fn validate(&self) -> (r: Result<(), MorphismValidationError>)
        ensures
            match transform_fault(*self) {
                Some(e) => r == Err::<(), MorphismValidationError>(e),
                None => r is Ok,
            },
        decreases self,
    {
        match self {
            SubjectTransform::RenamePrefix { from, to } => {
                if crate::text::same_text(&from.canonical_key(), &to.canonical_key()) {
                    return Err(MorphismValidationError::RenamePrefixIdentity);
                }
                Ok(())
            },
            SubjectTransform::SummarizeTail { preserve_segments } => {
                if *preserve_segments == 0 {
                    return Err(MorphismValidationError::SummarizeTailMustPreserveSegments);
                }
                Ok(())
            },
            SubjectTransform::HashPartition { buckets } => {
                if *buckets == 0 {
                    return Err(MorphismValidationError::HashPartitionRequiresBuckets);
                }
                Ok(())
            },
            SubjectTransform::WildcardCapture { index } => {
                if *index == 0 {
                    return Err(MorphismValidationError::WildcardCaptureRequiresIndex);
                }
                Ok(())
            },
            SubjectTransform::DeterministicHash { buckets, source_indices } => {
                if *buckets == 0 {
                    return Err(MorphismValidationError::DeterministicHashRequiresBuckets);
                }
                let mut i: usize = 0;
                while i < source_indices.len()
                    invariant
                        i <= source_indices.len(),
                        *self == (SubjectTransform::DeterministicHash { buckets: *buckets, source_indices: *source_indices }),
                        *buckets != 0,
                        forall|k: int| 0 <= k < i ==> source_indices@[k] != 0,
                    decreases source_indices.len() - i,
                {
                    if source_indices[i] == 0 {
                        assert(source_indices@[i as int] == 0);
                        return Err(MorphismValidationError::DeterministicHashIndexMustBePositive);
                    }
                    i = i + 1;
                }
                Ok(())
            },
            SubjectTransform::SplitSlice { index, delimiter, start, len } => {
                if *index == 0 {
                    return Err(MorphismValidationError::SplitSliceRequiresIndex);
                }
                if crate::text::str_chars(delimiter.as_str()).len() == 0 {
                    return Err(MorphismValidationError::SplitSliceRequiresDelimiter);
                }
                if *len == 0 {
                    return Err(MorphismValidationError::SplitSliceRequiresLength);
                }
                Ok(())
            },
            SubjectTransform::LeftExtract { index, len } => {
                if *index == 0 {
                    return Err(MorphismValidationError::LeftExtractRequiresIndex);
                }
                if *len == 0 {
                    return Err(MorphismValidationError::LeftExtractRequiresLength);
                }
                Ok(())
            },
            SubjectTransform::RightExtract { index, len } => {
                if *index == 0 {
                    return Err(MorphismValidationError::RightExtractRequiresIndex);
                }
                if *len == 0 {
                    return Err(MorphismValidationError::RightExtractRequiresLength);
                }
                Ok(())
            },
            SubjectTransform::Compose { steps } => {
                if steps.len() == 0 {
                    return Err(MorphismValidationError::ComposeRequiresSteps);
                }
                let mut i: usize = 0;
                assert(steps@.take(0) =~= Seq::<SubjectTransform>::empty());
                while i < steps.len()
                    invariant
                        i <= steps@.len(),
                        *self == (SubjectTransform::Compose { steps: *steps }),
                        steps_fault(steps@.take(i as int)) is None,
                    decreases steps.len() - i,
                {
                    proof { lemma_step_decreases(*self, *steps, i as int); }
                    assert(steps@.take(i + 1).drop_last() =~= steps@.take(i as int));
                    match steps[i].validate() {
                        Ok(()) => {},
                        Err(e) => {
                            proof { lemma_steps_fault_extends(steps@, i + 1); }
                            return Err(e);
                        },
                    }
                    i = i + 1;
                }
                assert(steps@.take(steps@.len() as int) =~= steps@);
                Ok(())
            },
            _ => Ok(()),
        }
    }
}


// ─── Morphisms ─────────────────────────────────────────────────────────────

/// Typed namespace morphism declaration.
#[derive(Debug, Clone, PartialEq)]
pub struct Morphism {
    /// Source subject language accepted by the morphism.
    pub source_language: SubjectPattern,
    /// Destination subject language emitted by the morphism.
    pub dest_language: SubjectPattern,
    /// High-level morphism class.
    pub class: MorphismClass,
    /// Concrete transform algebra element.
    pub transform: SubjectTransform,
    /// Reversibility promise for the rewrite.
    pub reversibility: ReversibilityRequirement,
    /// Capabilities required to authorize the morphism.
    pub capability_requirements: Vec<FabricCapability>,
    /// Sharing boundary for the rewritten output.
    pub sharing_policy: SharingPolicy,
    /// Privacy and metadata disclosure policy.
    pub privacy_policy: PrivacyPolicy,
    /// Reply-handling semantics after rewriting.
    pub response_policy: ResponsePolicy,
    /// Bounded quota envelope for the morphism.
    pub quota_policy: QuotaPolicy,
    /// Evidence policy attached to the morphism.
    pub evidence_policy: EvidencePolicy,
}

/// Tokens of the pattern `fabric.subject.>`.
pub open spec fn fabric_subject_tokens() -> Seq<Tok> {
    seq![
        Tok::Lit(seq!['f', 'a', 'b', 'r', 'i', 'c']),
        Tok::Lit(seq!['s', 'u', 'b', 'j', 'e', 'c', 't']),
        Tok::Tail,
    ]
}

/// The pattern `fabric.subject.>`.
fn fabric_subject_language() -> (p: SubjectPattern)
    ensures
        p.wf(),
        p.tokens() == fabric_subject_tokens(),
{
    let a: [char; 6] = ['f', 'a', 'b', 'r', 'i', 'c'];
    let b: [char; 7] = ['s', 'u', 'b', 'j', 'e', 'c', 't'];
    let mut segments: Vec<SubjectToken> = Vec::new();
    segments.push(SubjectToken::Literal(crate::text::chars_string(&a)));
    segments.push(SubjectToken::Literal(crate::text::chars_string(&b)));
    segments.push(SubjectToken::Tail);
    let ghost t = toks(segments@);
    assert(t =~= fabric_subject_tokens());
    assert(t.drop_last().drop_last().drop_last() =~= Seq::<Tok>::empty());
    assert(crate::messaging::subject::tail_count(t.drop_last().drop_last().drop_last()) == 0);
    assert(t.drop_last().drop_last().last() == t[0]);
    assert(t.drop_last().last() == t[1]);
    assert(crate::messaging::subject::tail_count(t.drop_last().drop_last()) == 0);
    assert(crate::messaging::subject::tail_count(t.drop_last()) == 0);
    assert(crate::messaging::subject::tail_count(t) == 1);
    assert(t[0] is Lit && t[1] is Lit);
    match SubjectPattern::from_tokens(segments) {
        Ok(p) => p,
        Err(_) => {
            assert(false);
            SubjectPattern::default()
        },
    }
}

impl Default for Morphism {
    /// An identity derived view of `fabric.subject.>` onto itself that
    /// requires only namespace rewriting.
    fn default() -> (m: Self)
        ensures
            m.source_language.tokens() == fabric_subject_tokens(),
            m.dest_language.tokens() == fabric_subject_tokens(),
            m.source_language.wf(),
            m.dest_language.wf(),
            m.class == MorphismClass::DerivedView,
            m.transform is Identity,
            m.reversibility == ReversibilityRequirement::EvidenceBacked,
            m.capability_requirements@ == seq![FabricCapability::RewriteNamespace],
            m.sharing_policy == SharingPolicy::Private,
            m.privacy_policy == (PrivacyPolicy { redact_subject_literals: false }),
            m.response_policy == ResponsePolicy::PreserveCallerReplies,
            m.quota_policy == (QuotaPolicy {
                max_expansion_factor: 1,
                max_fanout: 1,
                max_observability_bytes: 4_096,
                max_handoff_duration: None,
                revocation_required: false,
            }),
            m.evidence_policy == (EvidencePolicy { record_counterfactual_branches: false }),
    {
        let mut caps: Vec<FabricCapability> = Vec::new();
        caps.push(FabricCapability::RewriteNamespace);
        assert(caps@ =~= seq![FabricCapability::RewriteNamespace]);
        Morphism {
            source_language: fabric_subject_language(),
            dest_language: fabric_subject_language(),
            class: MorphismClass::DerivedView,
            transform: SubjectTransform::Identity,
            reversibility: ReversibilityRequirement::EvidenceBacked,
            capability_requirements: caps,
            sharing_policy: SharingPolicy::Private,
            privacy_policy: PrivacyPolicy { redact_subject_literals: false },
            response_policy: ResponsePolicy::PreserveCallerReplies,
            quota_policy: QuotaPolicy::default(),
            evidence_policy: EvidencePolicy { record_counterfactual_branches: false },
        }
    }
}

/// The first capability that repeats an earlier one, by position.
pub open spec fn first_duplicate(s: Seq<FabricCapability>) -> Option<FabricCapability>
    decreases s.len(),
{
    if s.len() == 0 {
        None
    } else {
        match first_duplicate(s.drop_last()) {
            Some(c) => Some(c),
            None => if s.drop_last().contains(s.last()) { Some(s.last()) } else { None },
        }
    }
}

/// Some capability of the sequence moves or rebinds authority.
pub open spec fn any_authority(s: Seq<FabricCapability>) -> bool {
    exists|i: int| 0 <= i < s.len() && authority_bearing(#[trigger] s[i])
}

/// The class-specific guardrail a morphism breaks first, if any.
pub open spec fn class_fault(m: Morphism) -> Option<MorphismValidationError> {
    let caps = m.capability_requirements@;
    match m.class {
        MorphismClass::Authoritative => if caps.len() == 0 {
            Some(MorphismValidationError::AuthoritativeRequiresCapability)
        } else if !any_authority(caps) {
            Some(MorphismValidationError::AuthoritativeRequiresAuthorityCapability)
        } else if !(m.response_policy is ReplyAuthoritative) {
            Some(MorphismValidationError::AuthoritativeRequiresReplyAuthority)
        } else if m.reversibility is Irreversible {
            Some(MorphismValidationError::AuthoritativeMustBeReversible)
        } else if lossy(m.transform) {
            Some(MorphismValidationError::AuthoritativeTransformMustBeLossless)
        } else if m.transform matches SubjectTransform::RenamePrefix { from, to }
            && (has_wildcard(from.tokens()) || has_wildcard(to.tokens())) {
            Some(MorphismValidationError::AuthoritativeRenameMustBeLiteralOnly)
        } else {
            None
        },
        MorphismClass::DerivedView => if any_authority(caps) {
            Some(MorphismValidationError::DerivedViewCannotRequireAuthorityCapability)
        } else if m.response_policy is ReplyAuthoritative {
            Some(MorphismValidationError::DerivedViewCannotOriginateReplyAuthority)
        } else {
            None
        },
        MorphismClass::Egress => if !(m.response_policy is StripReplies) {
            Some(MorphismValidationError::EgressMustStripReplies)
        } else if !(m.reversibility is Irreversible) {
            Some(MorphismValidationError::EgressMustBeIrreversible)
        } else if m.sharing_policy is Private {
            Some(MorphismValidationError::EgressMustCrossBoundary)
        } else {
            None
        },
        MorphismClass::Delegation => if !caps.contains(FabricCapability::DelegateNamespace) {
            Some(MorphismValidationError::DelegationRequiresDelegateCapability)
        } else if m.quota_policy.max_handoff_duration is None {
            Some(MorphismValidationError::DelegationMustBeTimeBounded)
        } else if !m.quota_policy.revocation_required {
            Some(MorphismValidationError::DelegationMustBeRevocable)
        } else {
            None
        },
    }
}

/// The transform maps subjects into hash buckets.
pub open spec fn hashes(t: SubjectTransform) -> bool {
    t is HashPartition || t is DeterministicHash
}

/// The first rule a morphism breaks, if any: the transform's own rules,
/// the quota's, duplicate capabilities, a bijective promise the transform
/// cannot keep, then the class guardrails. One exception: an authoritative
/// morphism whose lossy transform does not hash is refused as not lossless
/// before its bijective promise is looked at.
pub open spec fn morphism_fault(m: Morphism) -> Option<MorphismValidationError> {
    let unkept = m.reversibility is Bijective && !invertible(m.transform);
    let lossless_breach = class_fault(m) == Some(MorphismValidationError::AuthoritativeTransformMustBeLossless)
        && !hashes(m.transform);
    match transform_fault(m.transform) {
        Some(e) => Some(e),
        None => match quota_fault(m.quota_policy) {
            Some(e) => Some(e),
            None => match first_duplicate(m.capability_requirements@) {
                Some(c) => Some(MorphismValidationError::DuplicateCapability(c)),
                None => if unkept && !lossless_breach {
                    Some(MorphismValidationError::TransformCannotSatisfyBijectiveRequirement)
                } else {
                    class_fault(m)
                },
            },
        },
    }
}

proof fn lemma_first_duplicate_extends(s: Seq<FabricCapability>, k: int)
    requires
        0 <= k <= s.len(),
        first_duplicate(s.take(k)) is Some,
    ensures
        first_duplicate(s) == first_duplicate(s.take(k)),
    decreases s.len(),
{
    if k < s.len() {
        assert(s.drop_last().take(k) =~= s.take(k));
        lemma_first_duplicate_extends(s.drop_last(), k);
    } else {
        assert(s.take(k) =~= s);
    }
}

/// The first capability that repeats an earlier one.
fn duplicate_capability(caps: &Vec<FabricCapability>) -> (r: Option<FabricCapability>)
    ensures
        r == first_duplicate(caps@),
{
    let mut j: usize = 0;
    assert(caps@.take(0) =~= Seq::<FabricCapability>::empty());
    while j < caps.len()
        invariant
            j <= caps.len(),
            first_duplicate(caps@.take(j as int)) is None,
        decreases caps.len() - j,
    {
        let ghost pre = caps@.take(j as int);
        assert(caps@.take(j + 1).drop_last() =~= pre);
        assert(caps@.take(j + 1).last() == caps@[j as int]);
        let mut i: usize = 0;
        while i < j
            invariant
                i <= j < caps.len(),
                pre == caps@.take(j as int),
                caps@.take(j + 1).drop_last() == pre,
                caps@.take(j + 1).last() == caps@[j as int],
                first_duplicate(pre) is None,
                forall|k: int| 0 <= k < i ==> caps@[k] != caps@[j as int],
            decreases j - i,
        {
            if caps[i] == caps[j] {
                assert(pre[i as int] == caps@[j as int]);
                assert(pre.contains(caps@[j as int]));
                assert(first_duplicate(caps@.take(j + 1)) == Some(caps@[j as int]));
                proof { lemma_first_duplicate_extends(caps@, j + 1); }
                return Some(caps[j]);
            }
            i = i + 1;
        }
        assert(!pre.contains(caps@[j as int]));
        j = j + 1;
    }
    assert(caps@.take(caps.len() as int) =~= caps@);
    None
}

/// Whether some capability moves or rebinds authority.
fn has_authority_capability(caps: &Vec<FabricCapability>) -> (b: bool)
    ensures
        b == any_authority(caps@),
{
    let mut i: usize = 0;
    while i < caps.len()
        invariant
            i <= caps.len(),
            forall|k: int| 0 <= k < i ==> !authority_bearing(#[trigger] caps@[k]),
        decreases caps.len() - i,
    {
        if caps[i].is_authority_bearing() {
            return true;
        }
        i = i + 1;
    }
    false
}

/// Whether the capabilities hold `c`.
fn holds_capability(caps: &Vec<FabricCapability>, c: FabricCapability) -> (b: bool)
    ensures
        b == caps@.contains(c),
{
    let mut i: usize = 0;
    while i < caps.len()
        invariant
            i <= caps.len(),
            forall|k: int| 0 <= k < i ==> caps@[k] != c,
        decreases caps.len() - i,
    {
        if caps[i] == c {
            assert(caps@[i as int] == c);
            return true;
        }
        i = i + 1;
    }
    false
}

impl Morphism {
    /// Validates the morphism against its transform and quota rules and
    /// its class-specific guardrails.
    pub fn validate(&self) -> (r: Result<(), MorphismValidationError>)
        ensures
            match morphism_fault(*self) {
                Some(e) => r == Err::<(), MorphismValidationError>(e),
                None => r is Ok,
            },
    {
        self.transform.validate()?;
        self.quota_policy.validate()?;
        if let Some(duplicate) = duplicate_capability(&self.capability_requirements) {
            return Err(MorphismValidationError::DuplicateCapability(duplicate));
        }
        let unkept = self.reversibility == ReversibilityRequirement::Bijective && !self.transform.is_invertible();
        let hashing = match &self.transform {
            SubjectTransform::HashPartition { .. } | SubjectTransform::DeterministicHash { .. } => true,
            _ => false,
        };
        let class = self.class_guardrail();
        let lossless_breach = !hashing && match &class {
            Some(MorphismValidationError::AuthoritativeTransformMustBeLossless) => true,
            _ => false,
        };
        if unkept && !lossless_breach {
            return Err(MorphismValidationError::TransformCannotSatisfyBijectiveRequirement);
        }
        match class {
            Some(e) => Err(e),
            None => Ok(()),
        }
    }

    /// The class-specific guardrail the morphism breaks first, if any.
    fn class_guardrail(&self) -> (r: Option<MorphismValidationError>)
        ensures
            r == class_fault(*self),
    {
        match self.class {
            MorphismClass::Authoritative => {
                if self.capability_requirements.len() == 0 {
                    return Some(MorphismValidationError::AuthoritativeRequiresCapability);
                }
                if !has_authority_capability(&self.capability_requirements) {
                    return Some(MorphismValidationError::AuthoritativeRequiresAuthorityCapability);
                }
                if self.response_policy != ResponsePolicy::ReplyAuthoritative {
                    return Some(MorphismValidationError::AuthoritativeRequiresReplyAuthority);
                }
                if self.reversibility == ReversibilityRequirement::Irreversible {
                    return Some(MorphismValidationError::AuthoritativeMustBeReversible);
                }
                if self.transform.is_lossy() {
                    return Some(MorphismValidationError::AuthoritativeTransformMustBeLossless);
                }
                if let SubjectTransform::RenamePrefix { from, to } = &self.transform {
                    if from.has_wildcards() || to.has_wildcards() {
                        return Some(MorphismValidationError::AuthoritativeRenameMustBeLiteralOnly);
                    }
                }
            },
            MorphismClass::DerivedView => {
                if has_authority_capability(&self.capability_requirements) {
                    return Some(MorphismValidationError::DerivedViewCannotRequireAuthorityCapability);
                }
                if self.response_policy == ResponsePolicy::ReplyAuthoritative {
                    return Some(MorphismValidationError::DerivedViewCannotOriginateReplyAuthority);
                }
            },
            MorphismClass::Egress => {
                if self.response_policy != ResponsePolicy::StripReplies {
                    return Some(MorphismValidationError::EgressMustStripReplies);
                }
                if self.reversibility != ReversibilityRequirement::Irreversible {
                    return Some(MorphismValidationError::EgressMustBeIrreversible);
                }
                if self.sharing_policy == SharingPolicy::Private {
                    return Some(MorphismValidationError::EgressMustCrossBoundary);
                }
            },
            MorphismClass::Delegation => {
                if !holds_capability(&self.capability_requirements, FabricCapability::DelegateNamespace) {
                    return Some(MorphismValidationError::DelegationRequiresDelegateCapability);
                }
                if self.quota_policy.max_handoff_duration.is_none() {
                    return Some(MorphismValidationError::DelegationMustBeTimeBounded);
                }
                if !self.quota_policy.revocation_required {
                    return Some(MorphismValidationError::DelegationMustBeRevocable);
                }
            },
        }
        None
    }
}


// ─── Facets ────────────────────────────────────────────────────────────────

/// Independently checkable authority facet.
#[derive(Debug, Clone, PartialEq, Eq)]
pub struct AuthorityFacet {
    /// Class that determines the authority envelope.
    pub class: MorphismClass,
    /// Canonicalized capability requirements.
    pub capability_requirements: Vec<FabricCapability>,
    /// Reply-handling policy for the rewritten namespace.
    pub response_policy: ResponsePolicy,
}

/// Independently checkable reversibility facet.
#[derive(Debug, Clone, Copy, PartialEq, Eq, Structural)]
pub struct ReversibilityFacet {
    /// Declared reversibility requirement.
    pub requirement: ReversibilityRequirement,
    /// Whether the chosen transform is intrinsically lossy.
    pub lossy_transform: bool,
}

/// Independently checkable secrecy and metadata-exposure facet.
#[derive(Debug, Clone, Copy, PartialEq, Eq, Structural)]
pub struct SecrecyFacet {
    /// Sharing boundary after the morphism applies.
    pub sharing_policy: SharingPolicy,
    /// Privacy rules for metadata and subject disclosure.
    pub privacy_policy: PrivacyPolicy,
}

/// Independently checkable cost and quota facet.
#[derive(Debug, Clone, PartialEq, Eq)]
pub struct CostFacet {
    /// Quota envelope that bounds expansion, fanout, and delegation.
    pub quota_policy: QuotaPolicy,
}

/// Independently checkable observability and evidence facet.
#[derive(Debug, Clone, Copy, PartialEq, Eq, Structural)]
pub struct ObservabilityFacet {
    /// Evidence policy emitted by the morphism.
    pub evidence_policy: EvidencePolicy,
}

/// Aggregated view of the five morphism facets.
#[derive(Debug, Clone, PartialEq)]
pub struct MorphismFacetSet {
    /// Authority and capability requirements.
    pub authority: AuthorityFacet,
    /// Reversibility contract.
    pub reversibility: ReversibilityFacet,
    /// Secrecy and metadata-disclosure policy.
    pub secrecy: SecrecyFacet,
    /// Cost and quota envelope.
    pub cost: CostFacet,
    /// Evidence and observability obligations.
    pub observability: ObservabilityFacet,
}

/// Deterministic compiled artifact for a validated morphism.
#[derive(Debug, Clone, PartialEq)]
pub struct MorphismCertificate {
    /// Stable fingerprint over the encoded morphism declaration.
    pub fingerprint: String,
    /// Class of the validated morphism.
    pub class: MorphismClass,
    /// Source language encoded into the certificate.
    pub source_language: SubjectPattern,
    /// Destination language encoded into the certificate.
    pub dest_language: SubjectPattern,
    /// Transform algebra element encoded into the certificate.
    pub transform: SubjectTransform,
    /// Faceted summary used by downstream validators.
    pub facets: MorphismFacetSet,
}

/// The members of `order` that `s` holds, in the order of `order`.
pub open spec fn present_in(order: Seq<FabricCapability>, s: Seq<FabricCapability>) -> Seq<FabricCapability>
    decreases order.len(),
{
    if order.len() == 0 {
        Seq::empty()
    } else {
        let p = present_in(order.drop_last(), s);
        if s.contains(order.last()) { p.push(order.last()) } else { p }
    }
}

/// The distinct capabilities of `s` in canonical (declaration) order.
pub open spec fn canonical_caps(s: Seq<FabricCapability>) -> Seq<FabricCapability> {
    present_in(all_capabilities(), s)
}

/// The distinct capabilities in canonical order.
fn canonical_capabilities(caps: &Vec<FabricCapability>) -> (r: Vec<FabricCapability>)
    ensures
        r@ == canonical_caps(caps@),
{
    let order: [FabricCapability; 6] = [
        FabricCapability::RewriteNamespace,
        FabricCapability::CarryAuthority,
        FabricCapability::ReplyAuthority,
        FabricCapability::ObserveEvidence,
        FabricCapability::DelegateNamespace,
        FabricCapability::CrossBoundaryEgress,
    ];
    assert(order@ =~= all_capabilities());
    let mut r: Vec<FabricCapability> = Vec::new();
    let mut k: usize = 0;
    assert(order@.take(0) =~= Seq::<FabricCapability>::empty());
    while k < 6
        invariant
            k <= 6,
            order@ == all_capabilities(),
            r@ == present_in(order@.take(k as int), caps@),
        decreases 6 - k,
    {
        assert(order@.take(k + 1).drop_last() =~= order@.take(k as int));
        assert(order@.take(k + 1).last() == order@[k as int]);
        if holds_capability(caps, order[k]) {
            r.push(order[k]);
        }
        k = k + 1;
    }
    assert(order@.take(6) =~= order@);
    r
}

/// `f` is the facet set of `m`.
pub open spec fn facets_of(f: MorphismFacetSet, m: Morphism) -> bool {
    &&& f.authority.class == m.class
    &&& f.authority.capability_requirements@ == canonical_caps(m.capability_requirements@)
    &&& f.authority.response_policy == m.response_policy
    &&& f.reversibility == (ReversibilityFacet { requirement: m.reversibility, lossy_transform: lossy(m.transform) })
    &&& f.secrecy == (SecrecyFacet { sharing_policy: m.sharing_policy, privacy_policy: m.privacy_policy })
    &&& f.cost.quota_policy == m.quota_policy
    &&& f.observability == (ObservabilityFacet { evidence_policy: m.evidence_policy })
}

impl Morphism {
    /// The authority facet: class, canonical capabilities, reply policy.
    pub fn authority_facet(&self) -> (f: AuthorityFacet)
        ensures
            f.class == self.class,
            f.capability_requirements@ == canonical_caps(self.capability_requirements@),
            f.response_policy == self.response_policy,
    {
        AuthorityFacet {
            class: self.class,
            capability_requirements: canonical_capabilities(&self.capability_requirements),
            response_policy: self.response_policy,
        }
    }

    /// The reversibility facet: the promise and whether the transform is lossy.
    pub fn reversibility_facet(&self) -> (f: ReversibilityFacet)
        ensures
            f == (ReversibilityFacet { requirement: self.reversibility, lossy_transform: lossy(self.transform) }),
    {
        ReversibilityFacet { requirement: self.reversibility, lossy_transform: self.transform.is_lossy() }
    }

    /// The secrecy and metadata-exposure facet.
    pub fn secrecy_facet(&self) -> (f: SecrecyFacet)
        ensures
            f == (SecrecyFacet { sharing_policy: self.sharing_policy, privacy_policy: self.privacy_policy }),
    {
        SecrecyFacet { sharing_policy: self.sharing_policy, privacy_policy: self.privacy_policy }
    }

    /// The bounded cost and quota facet.
    pub fn cost_facet(&self) -> (f: CostFacet)
        ensures
            f.quota_policy == self.quota_policy,
    {
        CostFacet { quota_policy: self.quota_policy.duplicate() }
    }

    /// The observability and evidence facet.
    pub fn observability_facet(&self) -> (f: ObservabilityFacet)
        ensures
            f == (ObservabilityFacet { evidence_policy: self.evidence_policy }),
    {
        ObservabilityFacet { evidence_policy: self.evidence_policy }
    }

    /// All five independently checkable facets.
    pub fn facet_set(&self) -> (f: MorphismFacetSet)
        ensures
            facets_of(f, *self),
    {
        MorphismFacetSet {
            authority: self.authority_facet(),
            reversibility: self.reversibility_facet(),
            secrecy: self.secrecy_facet(),
            cost: self.cost_facet(),
            observability: self.observability_facet(),
        }
    }
}


// ─── Certificates ──────────────────────────────────────────────────────────

/// Tag byte of a morphism class.
pub open spec fn class_tag(c: MorphismClass) -> u8 {
    match c {
        MorphismClass::Authoritative => 0,
        MorphismClass::DerivedView => 1,
        MorphismClass::Egress => 2,
        MorphismClass::Delegation => 3,
    }
}

/// Tag byte of a capability.
pub open spec fn capability_tag(c: FabricCapability) -> u8 {
    match c {
        FabricCapability::RewriteNamespace => 0,
        FabricCapability::CarryAuthority => 1,
        FabricCapability::ReplyAuthority => 2,
        FabricCapability::ObserveEvidence => 3,
        FabricCapability::DelegateNamespace => 4,
        FabricCapability::CrossBoundaryEgress => 5,
    }
}

/// Tag byte of a reversibility requirement.
pub open spec fn reversibility_tag(r: ReversibilityRequirement) -> u8 {
    match r {
        ReversibilityRequirement::EvidenceBacked => 0,
        ReversibilityRequirement::Bijective => 1,
        ReversibilityRequirement::Irreversible => 2,
    }
}

/// Tag byte of a sharing policy.
pub open spec fn sharing_tag(s: SharingPolicy) -> u8 {
    match s {
        SharingPolicy::Private => 0,
        SharingPolicy::TenantScoped => 1,
        SharingPolicy::Federated => 2,
        SharingPolicy::PublicRead => 3,
    }
}

/// Tag byte of a response policy.
pub open spec fn response_tag(r: ResponsePolicy) -> u8 {
    match r {
        ResponsePolicy::PreserveCallerReplies => 0,
        ResponsePolicy::ReplyAuthoritative => 1,
        ResponsePolicy::ForwardOpaque => 2,
        ResponsePolicy::StripReplies => 3,
    }
}

/// Byte of a flag.
pub open spec fn flag_byte(b: bool) -> u8 {
    if b { 1 } else { 0 }
}

/// Bytes of a sequence of indices: the count, then each index.
pub open spec fn indices_bytes(s: Seq<usize>) -> Seq<u8>
    decreases s.len(),
{
    if s.len() == 0 {
        Seq::empty()
    } else {
        indices_bytes(s.drop_last()) + u64_bytes(s.last() as u64)
    }
}

/// Bytes of a transform: a variant tag, then its parameters.
pub open spec fn transform_bytes(t: SubjectTransform) -> Seq<u8>
    decreases t,
{
    match t {
        SubjectTransform::Identity => seq![0u8],
        SubjectTransform::RenamePrefix { from, to } => seq![1u8] + text_bytes(from.text()) + text_bytes(to.text()),
        SubjectTransform::RedactLiterals => seq![2u8],
        SubjectTransform::SummarizeTail { preserve_segments } => seq![3u8] + u64_bytes(preserve_segments as u64),
        SubjectTransform::HashPartition { buckets } => seq![4u8] + u64_bytes(buckets as u64),
        SubjectTransform::WildcardCapture { index } => seq![5u8] + u64_bytes(index as u64),
        SubjectTransform::DeterministicHash { buckets, source_indices } => seq![6u8] + u64_bytes(buckets as u64)
            + u64_bytes(source_indices@.len() as u64) + indices_bytes(source_indices@),
        SubjectTransform::SplitSlice { index, delimiter, start, len } => seq![7u8] + u64_bytes(index as u64)
            + text_bytes(delimiter@) + u64_bytes(start as u64) + u64_bytes(len as u64),
        SubjectTransform::LeftExtract { index, len } => seq![8u8] + u64_bytes(index as u64) + u64_bytes(len as u64),
        SubjectTransform::RightExtract { index, len } => seq![9u8] + u64_bytes(index as u64) + u64_bytes(len as u64),
        SubjectTransform::Compose { steps } => {
            proof {
                assert(decreases_to!(t => t->steps));
                assert(decreases_to!(t->steps => t->steps@));
            }
            seq![10u8] + u64_bytes(steps@.len() as u64) + steps_bytes(steps@)
        },
    }
}

/// Bytes of a sequence of transforms, in order.
pub open spec fn steps_bytes(s: Seq<SubjectTransform>) -> Seq<u8>
    decreases s,
{
    if s.len() == 0 {
        Seq::empty()
    } else {
        proof { assert(decreases_to!(s => s.drop_last())); }
        steps_bytes(s.drop_last()) + transform_bytes(s.last())
    }
}

/// Bytes of a quota: its bounds, handoff duration and revocation flag.
pub open spec fn quota_bytes(q: QuotaPolicy) -> Seq<u8> {
    u64_bytes(q.max_expansion_factor as u64) + u64_bytes(q.max_fanout as u64)
        + u64_bytes(q.max_observability_bytes as u64) + opt_duration_bytes(q.max_handoff_duration)
        + seq![flag_byte(q.revocation_required)]
}

/// The bytes a morphism's fingerprint covers, field by field.
pub open spec fn morphism_bytes(m: Morphism) -> Seq<u8> {
    text_bytes(m.source_language.text()) + text_bytes(m.dest_language.text())
        + seq![class_tag(m.class)] + transform_bytes(m.transform)
        + seq![reversibility_tag(m.reversibility)]
        + u64_bytes(m.capability_requirements@.len() as u64)
        + capability_tags(m.capability_requirements@)
        + seq![sharing_tag(m.sharing_policy), flag_byte(m.privacy_policy.redact_subject_literals),
            response_tag(m.response_policy)]
        + quota_bytes(m.quota_policy)
        + seq![flag_byte(m.evidence_policy.record_counterfactual_branches)]
}

/// Fingerprint text of a morphism: the 64-bit FNV-1a hash of its bytes as
/// sixteen lower-case hexadecimal digits.
pub open spec fn fingerprint_of(m: Morphism) -> Seq<char> {
    hex_fixed(fnv1a(morphism_bytes(m)) as nat, 16)
}

fn class_byte(c: MorphismClass) -> (b: u8)
    ensures
        b == class_tag(c),
{
    match c {
        MorphismClass::Authoritative => 0,
        MorphismClass::DerivedView => 1,
        MorphismClass::Egress => 2,
        MorphismClass::Delegation => 3,
    }
}

fn capability_byte(c: FabricCapability) -> (b: u8)
    ensures
        b == capability_tag(c),
{
    match c {
        FabricCapability::RewriteNamespace => 0,
        FabricCapability::CarryAuthority => 1,
        FabricCapability::ReplyAuthority => 2,
        FabricCapability::ObserveEvidence => 3,
        FabricCapability::DelegateNamespace => 4,
        FabricCapability::CrossBoundaryEgress => 5,
    }
}

fn reversibility_byte(r: ReversibilityRequirement) -> (b: u8)
    ensures
        b == reversibility_tag(r),
{
    match r {
        ReversibilityRequirement::EvidenceBacked => 0,
        ReversibilityRequirement::Bijective => 1,
        ReversibilityRequirement::Irreversible => 2,
    }
}

fn sharing_byte(s: SharingPolicy) -> (b: u8)
    ensures
        b == sharing_tag(s),
{
    match s {
        SharingPolicy::Private => 0,
        SharingPolicy::TenantScoped => 1,
        SharingPolicy::Federated => 2,
        SharingPolicy::PublicRead => 3,
    }
}

fn response_byte(r: ResponsePolicy) -> (b: u8)
    ensures
        b == response_tag(r),
{
    match r {
        ResponsePolicy::PreserveCallerReplies => 0,
        ResponsePolicy::ReplyAuthoritative => 1,
        ResponsePolicy::ForwardOpaque => 2,
        ResponsePolicy::StripReplies => 3,
    }
}

fn flag(b: bool) -> (r: u8)
    ensures
        r == flag_byte(b),
{
    if b { 1 } else { 0 }
}

/// Appends a transform's bytes.
fn push_transform(buf: &mut Vec<u8>, t: &SubjectTransform)
    ensures
        final(buf)@ == old(buf)@ + transform_bytes(*t),
    decreases t,
{
    let ghost start = buf@;
    match t {
        SubjectTransform::Identity => push_tag(buf, 0),
        SubjectTransform::RenamePrefix { from, to } => {
            push_tag(buf, 1);
            push_text(buf, from.as_str());
            push_text(buf, to.as_str());
        },
        SubjectTransform::RedactLiterals => push_tag(buf, 2),
        SubjectTransform::SummarizeTail { preserve_segments } => {
            push_tag(buf, 3);
            push_u64(buf, *preserve_segments as u64);
        },
        SubjectTransform::HashPartition { buckets } => {
            push_tag(buf, 4);
            push_u64(buf, *buckets as u64);
        },
        SubjectTransform::WildcardCapture { index } => {
            push_tag(buf, 5);
            push_u64(buf, *index as u64);
        },
        SubjectTransform::DeterministicHash { buckets, source_indices } => {
            push_tag(buf, 6);
            push_u64(buf, *buckets as u64);
            push_u64(buf, source_indices.len() as u64);
            let ghost mid = buf@;
            let mut i: usize = 0;
            assert(source_indices@.take(0) =~= Seq::<usize>::empty());
            while i < source_indices.len()
                invariant
                    i <= source_indices.len(),
                    buf@ == mid + indices_bytes(source_indices@.take(i as int)),
                decreases source_indices.len() - i,
            {
                assert(source_indices@.take(i + 1).drop_last() =~= source_indices@.take(i as int));
                push_u64(buf, source_indices[i] as u64);
                i = i + 1;
            }
            assert(source_indices@.take(source_indices.len() as int) =~= source_indices@);
        },
        SubjectTransform::SplitSlice { index, delimiter, start, len } => {
            push_tag(buf, 7);
            push_u64(buf, *index as u64);
            push_text(buf, delimiter.as_str());
            push_u64(buf, *start as u64);
            push_u64(buf, *len as u64);
        },
        SubjectTransform::LeftExtract { index, len } => {
            push_tag(buf, 8);
            push_u64(buf, *index as u64);
            push_u64(buf, *len as u64);
        },
        SubjectTransform::RightExtract { index, len } => {
            push_tag(buf, 9);
            push_u64(buf, *index as u64);
            push_u64(buf, *len as u64);
        },
        SubjectTransform::Compose { steps } => {
            push_tag(buf, 10);
            push_u64(buf, steps.len() as u64);
            let ghost mid = buf@;
            let mut i: usize = 0;
            assert(steps@.take(0) =~= Seq::<SubjectTransform>::empty());
            while i < steps.len()
                invariant
                    i <= steps@.len(),
                    *t == (SubjectTransform::Compose { steps: *steps }),
                    buf@ == mid + steps_bytes(steps@.take(i as int)),
                decreases steps.len() - i,
            {
                proof { lemma_step_decreases(*t, *steps, i as int); }
                assert(steps@.take(i + 1).drop_last() =~= steps@.take(i as int));
                push_transform(buf, &steps[i]);
                i = i + 1;
            }
            assert(steps@.take(steps@.len() as int) =~= steps@);
        },
    }
    assert(buf@ =~= start + transform_bytes(*t));
}

/// Tag bytes of the capabilities, in order.
pub open spec fn capability_tags(s: Seq<FabricCapability>) -> Seq<u8> {
    s.map_values(|c: FabricCapability| capability_tag(c))
}

fn push_capabilities(buf: &mut Vec<u8>, caps: &Vec<FabricCapability>)
    ensures
        final(buf)@ == old(buf)@ + u64_bytes(caps@.len() as u64) + capability_tags(caps@),
{
    push_u64(buf, caps.len() as u64);
    let ghost mid = buf@;
    let mut i: usize = 0;
    while i < caps.len()
        invariant
            i <= caps.len(),
            buf@ == mid + capability_tags(caps@.take(i as int)),
        decreases caps.len() - i,
    {
        push_tag(buf, capability_byte(caps[i]));
        assert(capability_tags(caps@.take(i + 1)) =~= capability_tags(caps@.take(i as int)).push(capability_tag(caps@[i as int])));
        i = i + 1;
    }
    assert(caps@.take(caps.len() as int) =~= caps@);
}

fn push_quota(buf: &mut Vec<u8>, q: &QuotaPolicy)
    ensures
        final(buf)@ == old(buf)@ + quota_bytes(*q),
{
    let ghost start = buf@;
    push_u64(buf, q.max_expansion_factor as u64);
    push_u64(buf, q.max_fanout as u64);
    push_u64(buf, q.max_observability_bytes as u64);
    match &q.max_handoff_duration {
        Some(d) => {
            push_tag(buf, 1);
            push_duration(buf, d);
        },
        None => push_tag(buf, 0),
    }
    push_tag(buf, flag(q.revocation_required));
    assert(buf@ =~= start + quota_bytes(*q));
}

/// The bytes a morphism's fingerprint covers.
fn encode_morphism(m: &Morphism) -> (r: Vec<u8>)
    ensures
        r@ == morphism_bytes(*m),
{
    let mut buf: Vec<u8> = Vec::new();
    push_text(&mut buf, m.source_language.as_str());
    push_text(&mut buf, m.dest_language.as_str());
    push_tag(&mut buf, class_byte(m.class));
    let ghost a = buf@;
    push_transform(&mut buf, &m.transform);
    push_tag(&mut buf, reversibility_byte(m.reversibility));
    let ghost b = buf@;
    push_capabilities(&mut buf, &m.capability_requirements);
    let ghost c = buf@;
    push_tag(&mut buf, sharing_byte(m.sharing_policy));
    push_tag(&mut buf, flag(m.privacy_policy.redact_subject_literals));
    push_tag(&mut buf, response_byte(m.response_policy));
    let ghost d = buf@;
    push_quota(&mut buf, &m.quota_policy);
    push_tag(&mut buf, flag(m.evidence_policy.record_counterfactual_branches));
    assert(a =~= text_bytes(m.source_language.text()) + text_bytes(m.dest_language.text()) + seq![class_tag(m.class)]);
    assert(b =~= a + transform_bytes(m.transform) + seq![reversibility_tag(m.reversibility)]);
    assert(c =~= b + u64_bytes(m.capability_requirements@.len() as u64) + capability_tags(m.capability_requirements@));
    assert(d =~= c + seq![sharing_tag(m.sharing_policy), flag_byte(m.privacy_policy.redact_subject_literals),
            response_tag(m.response_policy)]);
    assert(buf@ =~= d + quota_bytes(m.quota_policy) + seq![flag_byte(m.evidence_policy.record_counterfactual_branches)]);
    buf
}

impl Morphism {
    /// Compiles a valid morphism into its certificate: the fingerprint of
    /// its encoding, its class, languages and transform, and its facets.
    pub fn compile(&self) -> (r: Result<MorphismCertificate, MorphismValidationError>)
        ensures
            match morphism_fault(*self) {
                Some(e) => r == Err::<MorphismCertificate, MorphismValidationError>(e),
                None => r matches Ok(c) && {
                    &&& c.fingerprint@ == fingerprint_of(*self)
                    &&& c.class == self.class
                    &&& same_pattern(c.source_language, self.source_language)
                    &&& same_pattern(c.dest_language, self.dest_language)
                    &&& same_transform(self.transform, c.transform)
                    &&& facets_of(c.facets, *self)
                },
            },
    {
        self.validate()?;
        let bytes = encode_morphism(self);
        let h = crate::lab::seed::fnv1a_bytes(bytes.as_slice());
        Ok(MorphismCertificate {
            fingerprint: crate::text::hex_fixed_text(h, 16),
            class: self.class,
            source_language: self.source_language.duplicate(),
            dest_language: self.dest_language.duplicate(),
            transform: self.transform.duplicate(),
            facets: self.facet_set(),
        })
    }
}


// ─── Laws ──────────────────────────────────────────────────────────────────

proof fn lemma_steps_lossy_iff_not_invertible(s: Seq<SubjectTransform>)
    ensures
        any_lossy(s) <==> !all_invertible(s),
    decreases s,
{
    if s.len() > 0 {
        assert(decreases_to!(s => s.drop_last()));
        lemma_steps_lossy_iff_not_invertible(s.drop_last());
        law_lossy_iff_not_invertible(s.last());
    }
}

/// A transform discards information exactly when it has no structural
/// inverse.
pub proof fn law_lossy_iff_not_invertible(t: SubjectTransform)
    ensures
        lossy(t) <==> !invertible(t),
    decreases t,
{
    if let SubjectTransform::Compose { steps } = t {
        assert(decreases_to!(t => t->steps));
        assert(decreases_to!(t->steps => t->steps@));
        lemma_steps_lossy_iff_not_invertible(steps@);
    }
}

proof fn lemma_present_in_prefix(s: Seq<FabricCapability>, k: int)
    requires
        0 <= k <= 6,
    ensures
        forall|c: FabricCapability| present_in(all_capabilities().take(k), s).contains(c)
            <==> (s.contains(c) && capability_tag(c) < k),
        forall|i: int, j: int| 0 <= i < j < present_in(all_capabilities().take(k), s).len()
            ==> capability_tag(present_in(all_capabilities().take(k), s)[i])
                < capability_tag(present_in(all_capabilities().take(k), s)[j]),
        forall|i: int| 0 <= i < present_in(all_capabilities().take(k), s).len()
            ==> capability_tag(#[trigger] present_in(all_capabilities().take(k), s)[i]) < k,
    decreases k,
{
    let all = all_capabilities();
    assert(forall|i: int| 0 <= i < 6 ==> capability_tag(#[trigger] all[i]) == i);
    assert(forall|c: FabricCapability| capability_tag(c) < 6 && all[capability_tag(c) as int] == c);
    if k == 0 {
        assert(all.take(0) =~= Seq::<FabricCapability>::empty());
    } else {
        lemma_present_in_prefix(s, k - 1);
        assert(all.take(k).drop_last() =~= all.take(k - 1));
        assert(all.take(k).last() == all[k - 1]);
        let p = present_in(all.take(k - 1), s);
        let q = present_in(all.take(k), s);
        let x = all[k - 1];
        assert(capability_tag(x) == k - 1);
        if s.contains(x) {
            assert(q == p.push(x));
            assert forall|c: FabricCapability| q.contains(c) <==> (s.contains(c) && capability_tag(c) < k) by {
                if q.contains(c) && !p.contains(c) {
                    let i = choose|i: int| 0 <= i < q.len() && q[i] == c;
                    assert(i == p.len());
                }
                if s.contains(c) && capability_tag(c) == k - 1 {
                    assert(c == x);
                    assert(q[p.len() as int] == x);
                }
                if p.contains(c) {
                    let i = choose|i: int| 0 <= i < p.len() && p[i] == c;
                    assert(q[i] == c);
                }
            }
        } else {
            assert(q == p);
            assert forall|c: FabricCapability| q.contains(c) <==> (s.contains(c) && capability_tag(c) < k) by {
                if s.contains(c) && capability_tag(c) == k - 1 {
                    assert(c == x);
                }
            }
        }
    }
}

/// Canonical capabilities hold exactly the capabilities required, each
/// once, in ascending declaration order.
pub proof fn law_canonical_capabilities(s: Seq<FabricCapability>)
    ensures
        forall|c: FabricCapability| canonical_caps(s).contains(c) <==> s.contains(c),
        forall|i: int, j: int| 0 <= i < j < canonical_caps(s).len()
            ==> capability_tag(canonical_caps(s)[i]) < capability_tag(canonical_caps(s)[j]),
{
    lemma_present_in_prefix(s, 6);
    assert(all_capabilities().take(6) =~= all_capabilities());
    assert(forall|c: FabricCapability| capability_tag(c) < 6);
}

/// Each facet depends only on the fields it describes: morphisms that
/// agree on those fields have equal facets, whatever their other fields.
pub proof fn law_facets_independent(m1: Morphism, m2: Morphism, f1: MorphismFacetSet, f2: MorphismFacetSet)
    requires
        facets_of(f1, m1),
        facets_of(f2, m2),
    ensures
        (m1.class == m2.class && m1.capability_requirements@ == m2.capability_requirements@
            && m1.response_policy == m2.response_policy)
            ==> (f1.authority.class == f2.authority.class
                && f1.authority.capability_requirements@ == f2.authority.capability_requirements@
                && f1.authority.response_policy == f2.authority.response_policy),
        (m1.reversibility == m2.reversibility && m1.transform == m2.transform) ==> f1.reversibility == f2.reversibility,
        (m1.sharing_policy == m2.sharing_policy && m1.privacy_policy == m2.privacy_policy) ==> f1.secrecy == f2.secrecy,
        m1.quota_policy == m2.quota_policy <==> f1.cost.quota_policy == f2.cost.quota_policy,
        m1.evidence_policy == m2.evidence_policy <==> f1.observability == f2.observability,
{
}

/// A prefix rename followed by its inverse gives back the tokens: when both
/// patterns are literal and the tokens start with the source prefix, the
/// rename moves them to the target prefix and the inverse moves them back.
pub proof fn law_rename_then_inverse_restores(
    from: SubjectPattern,
    to: SubjectPattern,
    r: SubjectTransform,
    toks: Seq<Seq<char>>,
)
    requires
        inverse_of(SubjectTransform::RenamePrefix { from, to }, r),
        literal_texts(to.tokens()) is Some,
        literal_texts(from.tokens()) matches Some(f) && f.len() <= toks.len() && toks.take(f.len() as int) == f,
    ensures
        apply_spec(SubjectTransform::RenamePrefix { from, to }, toks) matches Ok(mid)
            && apply_spec(r, mid) == Ok::<Seq<Seq<char>>, EvalFault>(toks),
{
    let f = literal_texts(from.tokens())->0;
    let g = literal_texts(to.tokens())->0;
    let mid = g + toks.skip(f.len() as int);
    assert(apply_spec(SubjectTransform::RenamePrefix { from, to }, toks) == Ok::<Seq<Seq<char>>, EvalFault>(mid));
    assert(mid.take(g.len() as int) =~= g);
    assert(mid.skip(g.len() as int) =~= toks.skip(f.len() as int));
    assert(f + toks.skip(f.len() as int) =~= toks);
}

proof fn lemma_selected_bytes_agree(a: Seq<Seq<char>>, b: Seq<Seq<char>>, idx: Seq<usize>)
    requires
        forall|k: int| 0 <= k < idx.len() ==> 1 <= #[trigger] idx[k] <= a.len() && idx[k] <= b.len()
            && a[idx[k] - 1] == b[idx[k] - 1],
    ensures
        selected_bytes(a, idx) is Ok,
        selected_bytes(a, idx) == selected_bytes(b, idx),
    decreases idx.len(),
{
    if idx.len() > 0 {
        lemma_selected_bytes_agree(a, b, idx.drop_last());
        assert(idx.last() == idx[idx.len() - 1]);
    }
}

/// A deterministic hash over chosen tokens reads only those tokens: two
/// subjects that agree at every chosen (in-range) index land in the same
/// bucket, whatever their other tokens, and a non-zero bucket count always
/// gives a bucket.
pub proof fn law_deterministic_hash_reads_only_selected(t: SubjectTransform, a: Seq<Seq<char>>, b: Seq<Seq<char>>)
    requires
        t is DeterministicHash,
        t->DeterministicHash_source_indices@.len() > 0,
        forall|k: int| 0 <= k < t->DeterministicHash_source_indices@.len() ==> 1 <= #[trigger] t->DeterministicHash_source_indices@[k] <= a.len()
            && t->DeterministicHash_source_indices@[k] <= b.len()
            && a[t->DeterministicHash_source_indices@[k] - 1] == b[t->DeterministicHash_source_indices@[k] - 1],
    ensures
        apply_spec(t, a) == apply_spec(t, b),
        t->DeterministicHash_buckets > 0 ==> apply_spec(t, a) is Ok,
{
    lemma_selected_bytes_agree(a, b, t->DeterministicHash_source_indices@);
}

/// Hashing over no chosen indices hashes every token: it agrees with the
/// hash partition of the same bucket count, and a successful hash gives a
/// single token.
pub proof fn law_hash_over_all_tokens(buckets: u16, none: Vec<usize>, toks: Seq<Seq<char>>)
    requires
        none@.len() == 0,
    ensures
        apply_spec(SubjectTransform::DeterministicHash { buckets, source_indices: none }, toks)
            == apply_spec(SubjectTransform::HashPartition { buckets }, toks),
        apply_spec(SubjectTransform::HashPartition { buckets }, toks) matches Ok(o) ==> o.len() == 1,
        buckets > 0 ==> apply_spec(SubjectTransform::HashPartition { buckets }, toks) is Ok,
{
}

} // verus!
