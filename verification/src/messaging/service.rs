//! Contract-carrying service schemas for the fabric lane: what a service
//! boundary promises, what a provider guarantees, what a caller may ask
//! for, and the certificates that carry a request and its reply.

use vstd::prelude::*;
use std::time::Duration;
use crate::messaging::class::{class_rank, AckKind, DeliveryClass, DeliveryClassPolicy, DeliveryClassPolicyError};
use crate::messaging::ir::ReplySpaceRule;
use crate::messaging::subject::{char_is_whitespace, is_ws};
use crate::lab::seed::{fnv1a, fnv1a_bytes};
use crate::text::{copy_string, owned, push_str};
use crate::types::{ObligationId, RegionId, TaskId, Time};
use crate::obligation::ledger::{is_reserved, opt_text, reserved_count, resolves, ObligationLedger, ObligationRecord, ObligationToken};
use crate::record::{ObligationKind, ObligationState};
use crate::messaging::class::{minimum_ack_spec, ack_rank};
pub use crate::record::ObligationAbortReason;

verus! {

// ─── Text and duration checks ──────────────────────────────────────────────

/// The text is empty or whitespace only.
pub open spec fn blank(s: Seq<char>) -> bool {
    forall|i: int| 0 <= i < s.len() ==> is_ws(#[trigger] s[i])
}

pub(crate) fn is_blank(s: &str) -> (b: bool)
    ensures
        b == blank(s@),
{
    let v = crate::text::str_chars(s);
    let mut i: usize = 0;
    while i < v.len()
        invariant
            v@ == s@,
            i <= v.len(),
            forall|j: int| 0 <= j < i ==> is_ws(#[trigger] v@[j]),
        decreases v.len() - i,
    {
        if !char_is_whitespace(v[i]) {
            return false;
        }
        i = i + 1;
    }
    true
}

/// What `Duration::as_nanos` returns for `d`.
pub uninterp spec fn duration_nanos(d: Duration) -> u128;

/// Length of a duration in nanoseconds.
///
/// Trusted: calls `Duration::as_nanos`, a function of the duration alone
/// (its whole length in nanoseconds).
#[verifier::external_body]
pub(crate) fn nanos_of(d: &Duration) -> (n: u128)
    ensures
        n == duration_nanos(*d),
{
    d.as_nanos()
}

/// The duration is zero.
pub open spec fn zero_duration(d: Duration) -> bool {
    duration_nanos(d) == 0
}

pub(crate) fn is_zero_duration(d: &Duration) -> (b: bool)
    ensures
        b == zero_duration(*d),
{
    nanos_of(d) == 0
}

/// `Duration` is `Copy`; its documented `clone` returns the same duration.
pub assume_specification[ <Duration as Clone>::clone ](d: &Duration) -> (r: Duration)
    ensures
        r == *d,
;

fn copy_duration(d: &Duration) -> (r: Duration)
    ensures
        r == *d,
{
    *d
}

// ─── Contract vocabulary ───────────────────────────────────────────────────

/// Payload-shape declaration for service requests and replies.
#[derive(Debug, Clone, PartialEq, Eq)]
pub enum PayloadShape {
    /// No payload is carried.
    Empty,
    /// The payload is a JSON document.
    JsonDocument,
    /// The payload is an opaque binary frame.
    BinaryBlob,
    /// The payload is encoded directly into the subject path.
    SubjectEncoded,
    /// The payload follows an externally named schema.
    NamedSchema {
        /// Human-readable schema identifier.
        schema: String,
    },
}

/// The shape names a schema whose name is not blank (or names none).
pub open spec fn payload_ok(p: PayloadShape) -> bool {
    !(p matches PayloadShape::NamedSchema { schema } && blank(schema@))
}

/// The error names an empty schema at `f`.
pub open spec fn empty_schema_at(e: ServiceContractError, f: Seq<char>) -> bool {
    e matches ServiceContractError::EmptyNamedSchema { field } && field@ == f
}

/// The error names an empty bounded region at `f`.
pub open spec fn empty_region_at(e: ServiceContractError, f: Seq<char>) -> bool {
    e matches ServiceContractError::EmptyBoundedRegion { field } && field@ == f
}

/// The error names a zero duration at `f`.
pub open spec fn zero_duration_at(e: ServiceContractError, f: Seq<char>) -> bool {
    e matches ServiceContractError::ZeroDuration { field } && field@ == f
}

impl PayloadShape {
    /// Checks that a named schema has a non-blank name; `field` names the
    /// shape in the error.
    pub fn validate(&self, field: &str) -> (r: Result<(), ServiceContractError>)
        ensures
            r is Ok <==> payload_ok(*self),
            r matches Err(e) ==> empty_schema_at(e, field@),
    {
        if let PayloadShape::NamedSchema { schema } = self {
            if is_blank(schema.as_str()) {
                return Err(ServiceContractError::EmptyNamedSchema { field: owned(field) });
            }
        }
        Ok(())
    }

    /// A copy of the shape.
    pub fn duplicate(&self) -> (r: Self)
        ensures
            r == *self,
    {
        match self {
            PayloadShape::Empty => PayloadShape::Empty,
            PayloadShape::JsonDocument => PayloadShape::JsonDocument,
            PayloadShape::BinaryBlob => PayloadShape::BinaryBlob,
            PayloadShape::SubjectEncoded => PayloadShape::SubjectEncoded,
            PayloadShape::NamedSchema { schema } => PayloadShape::NamedSchema { schema: copy_string(schema) },
        }
    }
}

impl Default for PayloadShape {
    fn default() -> (r: Self)
        ensures
            r == PayloadShape::Empty,
    {
        PayloadShape::Empty
    }
}

/// Reply-shape declaration for service responses.
#[derive(Debug, Clone, PartialEq, Eq)]
pub enum ReplyShape {
    /// The service does not emit a reply payload.
    NoReply,
    /// The service emits exactly one reply payload.
    Unary {
        /// Payload shape for the reply.
        shape: PayloadShape,
    },
    /// The service emits a bounded stream of reply payloads.
    Stream {
        /// Payload shape for each streamed reply item.
        shape: PayloadShape,
    },
}

/// The reply's payload shape, if any, is valid.
pub open spec fn reply_ok(r: ReplyShape) -> bool {
    match r {
        ReplyShape::NoReply => true,
        ReplyShape::Unary { shape } => payload_ok(shape),
        ReplyShape::Stream { shape } => payload_ok(shape),
    }
}

impl ReplyShape {
    /// Checks the reply's payload shape; `field` names it in the error.
    pub fn validate(&self, field: &str) -> (r: Result<(), ServiceContractError>)
        ensures
            r is Ok <==> reply_ok(*self),
            r matches Err(e) ==> empty_schema_at(e, field@),
    {
        match self {
            ReplyShape::NoReply => Ok(()),
            ReplyShape::Unary { shape } => shape.validate(field),
            ReplyShape::Stream { shape } => shape.validate(field),
        }
    }
}

impl Default for ReplyShape {
    fn default() -> (r: Self)
        ensures
            r == ReplyShape::NoReply,
    {
        ReplyShape::NoReply
    }
}

/// Cleanup urgency promised by the service boundary.
#[derive(Debug, Clone, Copy, PartialEq, Eq, PartialOrd, Ord, Hash, Structural)]
pub enum CleanupUrgency {
    /// Cleanup can happen in the background after request cancellation.
    Background,
    /// Cleanup should complete promptly before the service fully unwinds.
    Prompt,
    /// Cleanup is urgent and should be prioritized immediately.
    Immediate,
}

impl CleanupUrgency {
    /// Text of the urgency (`background`, `prompt`, `immediate`).
    pub fn to_string(&self) -> (s: String)
        ensures
            s@ == match *self {
                CleanupUrgency::Background => "background"@,
                CleanupUrgency::Prompt => "prompt"@,
                CleanupUrgency::Immediate => "immediate"@,
            },
    {
        match self {
            CleanupUrgency::Background => owned("background"),
            CleanupUrgency::Prompt => owned("prompt"),
            CleanupUrgency::Immediate => owned("immediate"),
        }
    }
}

impl Default for CleanupUrgency {
    fn default() -> (r: Self)
        ensures
            r == CleanupUrgency::Prompt,
    {
        CleanupUrgency::Prompt
    }
}

/// Budget semantics attached to a service surface.
#[derive(Debug, Clone, PartialEq, Eq)]
pub struct BudgetSemantics {
    /// Cleanup urgency when request cancellation occurs.
    pub cleanup_urgency: CleanupUrgency,
    /// Default timeout applied when the caller does not override it.
    pub default_timeout: Option<Duration>,
    /// Whether the caller may request a narrower timeout.
    pub allow_timeout_override: bool,
    /// Whether caller-provided priority hints are honored.
    pub honor_priority_hints: bool,
}

/// The default timeout, if any, is not zero.
pub open spec fn budget_ok(b: BudgetSemantics) -> bool {
    !(b.default_timeout matches Some(d) && zero_duration(d))
}

/// A duration of whole seconds.
///
/// Trusted: calls `Duration::from_secs`, documented to create a duration of
/// exactly that many whole seconds.
#[verifier::external_body]
pub(crate) fn duration_from_secs(secs: u64) -> (d: Duration)
    ensures
        duration_nanos(d) == secs * 1_000_000_000,
{
    Duration::from_secs(secs)
}

/// Whole seconds of a duration.
///
/// Trusted: calls `Duration::as_secs`, documented to return the number of
/// whole seconds the duration contains.
#[verifier::external_body]
pub(crate) fn duration_secs(d: &Duration) -> (s: u64)
    ensures
        s == duration_nanos(*d) / 1_000_000_000,
{
    d.as_secs()
}

impl Default for BudgetSemantics {
    fn default() -> (b: Self)
        ensures
            b.cleanup_urgency == CleanupUrgency::Prompt,
            b.default_timeout matches Some(d) && duration_nanos(d) == 30_000_000_000,
            b.allow_timeout_override,
            !b.honor_priority_hints,
    {
        BudgetSemantics {
            cleanup_urgency: CleanupUrgency::Prompt,
            default_timeout: Some(duration_from_secs(30)),
            allow_timeout_override: true,
            honor_priority_hints: false,
        }
    }
}

impl BudgetSemantics {
    /// Checks that the default timeout, if any, is not zero.
    pub fn validate(&self) -> (r: Result<(), ServiceContractError>)
        ensures
            r is Ok <==> budget_ok(*self),
            r matches Err(e) ==> zero_duration_at(e, "budget_semantics.default_timeout"@),
    {
        if let Some(d) = &self.default_timeout {
            if is_zero_duration(d) {
                return Err(ServiceContractError::ZeroDuration { field: owned("budget_semantics.default_timeout") });
            }
        }
        Ok(())
    }
}

/// Cancellation protocol expected from the service implementation.
#[derive(Debug, Clone, Copy, PartialEq, Eq, PartialOrd, Ord, Hash, Structural)]
pub enum CancellationObligations {
    /// Best-effort drain with no reply guarantee.
    BestEffortDrain,
    /// Drain outstanding work before resolving the reply path.
    DrainBeforeReply,
    /// Drain outstanding work and run compensation before completion.
    DrainAndCompensate,
}

impl CancellationObligations {
    /// Text of the obligations (`best-effort-drain`, ...).
    pub fn to_string(&self) -> (s: String)
        ensures
            s@ == match *self {
                CancellationObligations::BestEffortDrain => "best-effort-drain"@,
                CancellationObligations::DrainBeforeReply => "drain-before-reply"@,
                CancellationObligations::DrainAndCompensate => "drain-and-compensate"@,
            },
    {
        match self {
            CancellationObligations::BestEffortDrain => owned("best-effort-drain"),
            CancellationObligations::DrainBeforeReply => owned("drain-before-reply"),
            CancellationObligations::DrainAndCompensate => owned("drain-and-compensate"),
        }
    }
}

impl Default for CancellationObligations {
    fn default() -> (r: Self)
        ensures
            r == CancellationObligations::DrainBeforeReply,
    {
        CancellationObligations::DrainBeforeReply
    }
}

/// Capture policy for service-plane requests and replies.
#[derive(Debug, Clone, Copy, PartialEq, Eq, Structural)]
pub struct CaptureRules {
    /// Whether request envelopes are captured for replay or diagnostics.
    pub capture_requests: bool,
    /// Whether reply envelopes are captured for replay or diagnostics.
    pub capture_replies: bool,
    /// Whether payload hashes are retained alongside captures.
    pub record_payload_hashes: bool,
    /// Whether branch attachments are retained when present.
    pub record_branch_artifacts: bool,
}

impl Default for CaptureRules {
    fn default() -> (r: Self)
        ensures
            r == (CaptureRules {
                capture_requests: true,
                capture_replies: true,
                record_payload_hashes: true,
                record_branch_artifacts: false,
            }),
    {
        CaptureRules { capture_requests: true, capture_replies: true, record_payload_hashes: true, record_branch_artifacts: false }
    }
}

/// Compensation guarantee attached to a service surface, weakest first.
#[derive(Debug, Clone, Copy, PartialEq, Eq, PartialOrd, Ord, Hash, Structural)]
pub enum CompensationSemantics {
    /// No compensation is promised.
    NoCompensation,
    /// Compensation is attempted but not mandatory for every failure path.
    BestEffort,
    /// Compensation is part of the declared contract.
    Required,
}

/// Rank of a compensation guarantee.
pub open spec fn compensation_rank(c: CompensationSemantics) -> nat {
    match c {
        CompensationSemantics::NoCompensation => 0,
        CompensationSemantics::BestEffort => 1,
        CompensationSemantics::Required => 2,
    }
}

impl CompensationSemantics {
    /// Rank of the guarantee, weakest first.
    pub fn rank(&self) -> (r: u8)
        ensures
            r == compensation_rank(*self),
    {
        match self {
            CompensationSemantics::NoCompensation => 0,
            CompensationSemantics::BestEffort => 1,
            CompensationSemantics::Required => 2,
        }
    }

    /// Text of the guarantee (`none`, `best-effort`, `required`).
    pub fn to_string(&self) -> (s: String)
        ensures
            s@ == match *self {
                CompensationSemantics::NoCompensation => "none"@,
                CompensationSemantics::BestEffort => "best-effort"@,
                CompensationSemantics::Required => "required"@,
            },
    {
        match self {
            CompensationSemantics::NoCompensation => owned("none"),
            CompensationSemantics::BestEffort => owned("best-effort"),
            CompensationSemantics::Required => owned("required"),
        }
    }
}

impl Default for CompensationSemantics {
    fn default() -> (r: Self)
        ensures
            r == CompensationSemantics::NoCompensation,
    {
        CompensationSemantics::NoCompensation
    }
}

/// Mobility envelope for a service surface.
#[derive(Debug, Clone, PartialEq, Eq, Hash)]
pub enum MobilityConstraint {
    /// The service may execute on any eligible region.
    Unrestricted,
    /// The service may move only inside the named region boundary.
    BoundedRegion {
        /// Human-readable region label.
        region: String,
    },
    /// The service is pinned to its current authority boundary.
    Pinned,
}

/// The constraint names a non-blank region (or none).
pub open spec fn mobility_ok(m: MobilityConstraint) -> bool {
    !(m matches MobilityConstraint::BoundedRegion { region } && blank(region@))
}

/// Whether a provider boundary `p` satisfies a required boundary `r`: any
/// boundary satisfies an unrestricted requirement; a bounded region is
/// satisfied by the same region or by pinning; pinning only by pinning.
pub open spec fn satisfies_spec(p: MobilityConstraint, r: MobilityConstraint) -> bool {
    match r {
        MobilityConstraint::Unrestricted => true,
        MobilityConstraint::BoundedRegion { region } => match p {
            MobilityConstraint::BoundedRegion { region: pr } => pr@ == region@,
            MobilityConstraint::Pinned => true,
            MobilityConstraint::Unrestricted => false,
        },
        MobilityConstraint::Pinned => p is Pinned,
    }
}

/// How strict a mobility boundary is: unrestricted, a bounded region,
/// pinned.
pub open spec fn strictness(c: MobilityConstraint) -> nat {
    match c {
        MobilityConstraint::Unrestricted => 0,
        MobilityConstraint::BoundedRegion { .. } => 1,
        MobilityConstraint::Pinned => 2,
    }
}

/// A provider boundary meets a requirement only by being at least as
/// strict: every boundary meets itself and an unrestricted requirement, a
/// pinned provider meets every requirement, a pinned requirement is met by
/// a pinned provider alone, an unrestricted provider meets only an
/// unrestricted requirement, two bounded regions meet each other exactly
/// when they name the same region, and meeting requirements chains.
pub proof fn law_mobility_satisfaction(p: MobilityConstraint, q: MobilityConstraint, r: MobilityConstraint)
    ensures
        satisfies_spec(p, p),
        satisfies_spec(p, MobilityConstraint::Unrestricted),
        satisfies_spec(MobilityConstraint::Pinned, r),
        satisfies_spec(p, MobilityConstraint::Pinned) <==> p is Pinned,
        satisfies_spec(MobilityConstraint::Unrestricted, r) <==> r is Unrestricted,
        satisfies_spec(p, r) ==> strictness(p) >= strictness(r),
        satisfies_spec(p, q) && satisfies_spec(q, r) ==> satisfies_spec(p, r),
        p matches MobilityConstraint::BoundedRegion { region: a } ==> (r matches MobilityConstraint::BoundedRegion { region: b }
            ==> (satisfies_spec(p, r) <==> a@ == b@)),
{
}

impl MobilityConstraint {
    /// Checks that a bounded region has a non-blank label; `field` names
    /// the constraint in the error.
    pub fn validate(&self, field: &str) -> (r: Result<(), ServiceContractError>)
        ensures
            r is Ok <==> mobility_ok(*self),
            r matches Err(e) ==> empty_region_at(e, field@),
    {
        if let MobilityConstraint::BoundedRegion { region } = self {
            if is_blank(region.as_str()) {
                return Err(ServiceContractError::EmptyBoundedRegion { field: owned(field) });
            }
        }
        Ok(())
    }

    /// Whether this provider boundary satisfies the required boundary.
    pub fn satisfies(&self, required: &Self) -> (b: bool)
        ensures
            b == satisfies_spec(*self, *required),
    {
        match required {
            MobilityConstraint::Unrestricted => true,
            MobilityConstraint::BoundedRegion { region } => match self {
                MobilityConstraint::BoundedRegion { region: provider_region } => *provider_region == *region,
                MobilityConstraint::Pinned => true,
                MobilityConstraint::Unrestricted => false,
            },
            MobilityConstraint::Pinned => matches!(self, MobilityConstraint::Pinned),
        }
    }

    /// Text of the constraint (`unrestricted`, `bounded-region(<r>)`,
    /// `pinned`).
    pub fn to_string(&self) -> (s: String)
        ensures
            s@ == match *self {
                MobilityConstraint::Unrestricted => "unrestricted"@,
                MobilityConstraint::BoundedRegion { region } => "bounded-region("@ + region@ + ")"@,
                MobilityConstraint::Pinned => "pinned"@,
            },
    {
        match self {
            MobilityConstraint::Unrestricted => owned("unrestricted"),
            MobilityConstraint::BoundedRegion { region } => {
                let mut s = owned("bounded-region(");
                push_str(&mut s, region.as_str());
                push_str(&mut s, ")");
                s
            },
            MobilityConstraint::Pinned => owned("pinned"),
        }
    }

    /// A copy of the constraint.
    pub fn duplicate(&self) -> (r: Self)
        ensures
            r == *self,
    {
        match self {
            MobilityConstraint::Unrestricted => MobilityConstraint::Unrestricted,
            MobilityConstraint::BoundedRegion { region } => MobilityConstraint::BoundedRegion { region: copy_string(region) },
            MobilityConstraint::Pinned => MobilityConstraint::Pinned,
        }
    }
}

impl Default for MobilityConstraint {
    fn default() -> (r: Self)
        ensures
            r == MobilityConstraint::Unrestricted,
    {
        MobilityConstraint::Unrestricted
    }
}

/// Evidence depth required by the service boundary, weakest first.
#[derive(Debug, Clone, Copy, PartialEq, Eq, PartialOrd, Ord, Hash, Structural)]
pub enum EvidenceLevel {
    /// Minimal audit trail.
    Minimal,
    /// Standard operational evidence.
    Standard,
    /// Rich diagnostics and replay metadata.
    Detailed,
    /// Forensic-grade evidence and replay linkage.
    Forensic,
}

/// Rank of an evidence level.
pub open spec fn evidence_rank(e: EvidenceLevel) -> nat {
    match e {
        EvidenceLevel::Minimal => 0,
        EvidenceLevel::Standard => 1,
        EvidenceLevel::Detailed => 2,
        EvidenceLevel::Forensic => 3,
    }
}

impl EvidenceLevel {
    /// Rank of the level, weakest first.
    pub fn rank(&self) -> (r: u8)
        ensures
            r == evidence_rank(*self),
    {
        match self {
            EvidenceLevel::Minimal => 0,
            EvidenceLevel::Standard => 1,
            EvidenceLevel::Detailed => 2,
            EvidenceLevel::Forensic => 3,
        }
    }

    /// Text of the level (`minimal`, `standard`, `detailed`, `forensic`).
    pub fn to_string(&self) -> (s: String)
        ensures
            s@ == match *self {
                EvidenceLevel::Minimal => "minimal"@,
                EvidenceLevel::Standard => "standard"@,
                EvidenceLevel::Detailed => "detailed"@,
                EvidenceLevel::Forensic => "forensic"@,
            },
    {
        match self {
            EvidenceLevel::Minimal => owned("minimal"),
            EvidenceLevel::Standard => owned("standard"),
            EvidenceLevel::Detailed => owned("detailed"),
            EvidenceLevel::Forensic => owned("forensic"),
        }
    }
}

impl Default for EvidenceLevel {
    fn default() -> (r: Self)
        ensures
            r == EvidenceLevel::Standard,
    {
        EvidenceLevel::Standard
    }
}

/// Overload response declared by the service provider.
#[derive(Debug, Clone, Copy, PartialEq, Eq, Structural)]
pub enum OverloadPolicy {
    /// Reject new requests once overload is detected.
    RejectNew,
    /// Admit work only while the bounded pending queue has capacity.
    QueueWithinBudget {
        /// Maximum queued requests once overload begins.
        max_pending: u32,
    },
    /// Prefer dropping the weakest delivery-class traffic first.
    DropEphemeral,
    /// Fail fast before request execution starts.
    FailFast,
}

/// A bounded queue has positive capacity.
pub open spec fn overload_ok(p: OverloadPolicy) -> bool {
    !(p matches OverloadPolicy::QueueWithinBudget { max_pending } && max_pending == 0)
}

impl OverloadPolicy {
    /// Checks that a bounded queue has positive capacity.
    pub fn validate(&self) -> (r: Result<(), ServiceContractError>)
        ensures
            r is Ok <==> overload_ok(*self),
            r matches Err(e) ==> e is InvalidQueueCapacity,
    {
        if let OverloadPolicy::QueueWithinBudget { max_pending } = self {
            if *max_pending == 0 {
                return Err(ServiceContractError::InvalidQueueCapacity);
            }
        }
        Ok(())
    }
}

impl Default for OverloadPolicy {
    fn default() -> (r: Self)
        ensures
            r == OverloadPolicy::RejectNew,
    {
        OverloadPolicy::RejectNew
    }
}

/// Full service contract schema for one service boundary.
#[derive(Debug, Clone, PartialEq, Eq)]
pub struct ServiceContractSchema {
    /// Request payload shape.
    pub request_shape: PayloadShape,
    /// Reply payload shape.
    pub reply_shape: ReplyShape,
    /// Cancellation duties for the service implementation.
    pub cancellation_obligations: CancellationObligations,
    /// Timeout and priority behavior.
    pub budget_semantics: BudgetSemantics,
    /// Minimum delivery/durability class promised by the contract.
    pub durability_class: DeliveryClass,
    /// Capture and replay policy.
    pub capture_rules: CaptureRules,
    /// Compensation semantics required by the contract.
    pub compensation_semantics: CompensationSemantics,
    /// Mobility envelope required by the contract.
    pub mobility_constraints: MobilityConstraint,
    /// Evidence depth required by the contract.
    pub evidence_requirements: EvidenceLevel,
    /// Overload behavior exposed to callers.
    pub overload_policy: OverloadPolicy,
}

impl Default for ServiceContractSchema {
    fn default() -> (c: Self)
        ensures
            c.request_shape == PayloadShape::JsonDocument,
            c.reply_shape == (ReplyShape::Unary { shape: PayloadShape::JsonDocument }),
            c.cancellation_obligations == CancellationObligations::DrainBeforeReply,
            c.budget_semantics.cleanup_urgency == CleanupUrgency::Prompt,
            c.budget_semantics.default_timeout matches Some(d) && duration_nanos(d) == 30_000_000_000,
            c.budget_semantics.allow_timeout_override,
            !c.budget_semantics.honor_priority_hints,
            c.durability_class == DeliveryClass::ObligationBacked,
            c.capture_rules == CaptureRules::default_spec(),
            c.compensation_semantics == CompensationSemantics::NoCompensation,
            c.mobility_constraints == MobilityConstraint::Unrestricted,
            c.evidence_requirements == EvidenceLevel::Standard,
            c.overload_policy == OverloadPolicy::RejectNew,
    {
        ServiceContractSchema {
            request_shape: PayloadShape::JsonDocument,
            reply_shape: ReplyShape::Unary { shape: PayloadShape::JsonDocument },
            cancellation_obligations: CancellationObligations::DrainBeforeReply,
            budget_semantics: BudgetSemantics::default(),
            durability_class: DeliveryClass::ObligationBacked,
            capture_rules: CaptureRules::default(),
            compensation_semantics: CompensationSemantics::NoCompensation,
            mobility_constraints: MobilityConstraint::Unrestricted,
            evidence_requirements: EvidenceLevel::Standard,
            overload_policy: OverloadPolicy::RejectNew,
        }
    }
}

impl CaptureRules {
    /// The default capture rules: capture requests, replies and payload
    /// hashes, not branch artifacts.
    pub open spec fn default_spec() -> Self {
        CaptureRules { capture_requests: true, capture_replies: true, record_payload_hashes: true, record_branch_artifacts: false }
    }
}

/// The contract's first validation error, if any, is `e`; the checks run
/// request shape, reply shape, budget, mobility, overload.
pub open spec fn contract_error(c: ServiceContractSchema, e: ServiceContractError) -> bool {
    if !payload_ok(c.request_shape) {
        empty_schema_at(e, "request_shape"@)
    } else if !reply_ok(c.reply_shape) {
        empty_schema_at(e, "reply_shape"@)
    } else if !budget_ok(c.budget_semantics) {
        zero_duration_at(e, "budget_semantics.default_timeout"@)
    } else if !mobility_ok(c.mobility_constraints) {
        empty_region_at(e, "mobility_constraints"@)
    } else {
        e is InvalidQueueCapacity
    }
}

/// The contract is internally consistent.
pub open spec fn contract_ok(c: ServiceContractSchema) -> bool {
    &&& payload_ok(c.request_shape)
    &&& reply_ok(c.reply_shape)
    &&& budget_ok(c.budget_semantics)
    &&& mobility_ok(c.mobility_constraints)
    &&& overload_ok(c.overload_policy)
}

impl ServiceContractSchema {
    /// Validate the contract for internal consistency.
    pub fn validate(&self) -> (r: Result<(), ServiceContractError>)
        ensures
            r is Ok <==> contract_ok(*self),
            r matches Err(e) ==> contract_error(*self, e),
    {
        self.request_shape.validate("request_shape")?;
        self.reply_shape.validate("reply_shape")?;
        self.budget_semantics.validate()?;
        self.mobility_constraints.validate("mobility_constraints")?;
        self.overload_policy.validate()?;
        Ok(())
    }
}

// ─── Provider terms, caller options, registration ──────────────────────────

/// Provider-declared guarantees that bound caller-selected options.
#[derive(Debug, Clone, PartialEq, Eq)]
pub struct ProviderTerms {
    /// Provider-admitted delivery classes and default choice.
    pub admissible_classes: DeliveryClassPolicy,
    /// Strongest durability class the provider guarantees on this surface.
    pub guaranteed_durability: DeliveryClass,
    /// Compensation policy the provider will honor.
    pub compensation_policy: CompensationSemantics,
    /// Provider mobility boundary.
    pub mobility_constraint: MobilityConstraint,
    /// Provider evidence guarantee.
    pub evidence_level: EvidenceLevel,
}

/// The first admitted class outside `[floor, top]`, ascending.
pub open spec fn first_out_of_band(s: Seq<DeliveryClass>, floor: DeliveryClass, top: DeliveryClass) -> Option<int>
    decreases s.len(),
{
    if s.len() == 0 {
        None
    } else if class_rank(s[0]) < class_rank(floor) || class_rank(s[0]) > class_rank(top) {
        Some(0)
    } else {
        match first_out_of_band(s.drop_first(), floor, top) {
            Some(i) => Some(i + 1),
            None => None,
        }
    }
}

/// The provider's first violation of the contract, if any, is `e`; the
/// checks run provider mobility label, durability floor, compensation,
/// evidence, mobility compatibility, then each admitted class.
pub open spec fn provider_error(t: ProviderTerms, c: ServiceContractSchema, e: ServiceContractError) -> bool {
    let classes = t.admissible_classes.classes();
    if !mobility_ok(t.mobility_constraint) {
        empty_region_at(e, "provider_terms.mobility_constraint"@)
    } else if class_rank(t.guaranteed_durability) < class_rank(c.durability_class) {
        e == ServiceContractError::ProviderGuaranteeBelowContractFloor {
            guaranteed_durability: t.guaranteed_durability,
            required_durability: c.durability_class,
        }
    } else if compensation_rank(t.compensation_policy) < compensation_rank(c.compensation_semantics) {
        e == ServiceContractError::ProviderCompensationBelowContract {
            provider: t.compensation_policy,
            required: c.compensation_semantics,
        }
    } else if evidence_rank(t.evidence_level) < evidence_rank(c.evidence_requirements) {
        e == ServiceContractError::ProviderEvidenceBelowContract {
            provider: t.evidence_level,
            required: c.evidence_requirements,
        }
    } else if !satisfies_spec(t.mobility_constraint, c.mobility_constraints) {
        e == ServiceContractError::ProviderMobilityIncompatible {
            provider: t.mobility_constraint,
            required: c.mobility_constraints,
        }
    } else {
        match first_out_of_band(classes, c.durability_class, t.guaranteed_durability) {
            Some(i) => if class_rank(classes[i]) < class_rank(c.durability_class) {
                e == ServiceContractError::ProviderClassBelowContractFloor {
                    class: classes[i],
                    required_durability: c.durability_class,
                }
            } else {
                e == ServiceContractError::ProviderClassAboveGuaranteedDurability {
                    class: classes[i],
                    guaranteed_durability: t.guaranteed_durability,
                }
            },
            None => false,
        }
    }
}

/// The provider's terms fit the contract.
pub open spec fn provider_ok(t: ProviderTerms, c: ServiceContractSchema) -> bool {
    &&& mobility_ok(t.mobility_constraint)
    &&& class_rank(t.guaranteed_durability) >= class_rank(c.durability_class)
    &&& compensation_rank(t.compensation_policy) >= compensation_rank(c.compensation_semantics)
    &&& evidence_rank(t.evidence_level) >= evidence_rank(c.evidence_requirements)
    &&& satisfies_spec(t.mobility_constraint, c.mobility_constraints)
    &&& first_out_of_band(t.admissible_classes.classes(), c.durability_class, t.guaranteed_durability) is None
}

impl ProviderTerms {
    /// Validate provider terms against the contract envelope.
    pub fn validate_against(&self, contract: &ServiceContractSchema) -> (r: Result<(), ServiceContractError>)
        ensures
            r is Ok <==> provider_ok(*self, *contract),
            r matches Err(e) ==> provider_error(*self, *contract, e),
    {
        self.mobility_constraint.validate("provider_terms.mobility_constraint")?;
        if self.guaranteed_durability.rank() < contract.durability_class.rank() {
            return Err(ServiceContractError::ProviderGuaranteeBelowContractFloor {
                guaranteed_durability: self.guaranteed_durability,
                required_durability: contract.durability_class,
            });
        }
        if self.compensation_policy.rank() < contract.compensation_semantics.rank() {
            return Err(ServiceContractError::ProviderCompensationBelowContract {
                provider: self.compensation_policy,
                required: contract.compensation_semantics,
            });
        }
        if self.evidence_level.rank() < contract.evidence_requirements.rank() {
            return Err(ServiceContractError::ProviderEvidenceBelowContract {
                provider: self.evidence_level,
                required: contract.evidence_requirements,
            });
        }
        if !self.mobility_constraint.satisfies(&contract.mobility_constraints) {
            return Err(ServiceContractError::ProviderMobilityIncompatible {
                provider: self.mobility_constraint.duplicate(),
                required: contract.mobility_constraints.duplicate(),
            });
        }
        let classes = self.admissible_classes.admissible_classes();
        let ghost s = classes@;
        let floor = contract.durability_class;
        let top = self.guaranteed_durability;
        let mut i: usize = 0;
        assert(s.skip(0) =~= s);
        while i < classes.len()
            invariant
                i <= classes.len(),
                s == classes@,
                s == self.admissible_classes.classes(),
                floor == contract.durability_class,
                top == self.guaranteed_durability,
                mobility_ok(self.mobility_constraint),
                class_rank(self.guaranteed_durability) >= class_rank(contract.durability_class),
                compensation_rank(self.compensation_policy) >= compensation_rank(contract.compensation_semantics),
                evidence_rank(self.evidence_level) >= evidence_rank(contract.evidence_requirements),
                satisfies_spec(self.mobility_constraint, contract.mobility_constraints),
                first_out_of_band(s, floor, top) == match first_out_of_band(s.skip(i as int), floor, top) {
                    Some(j) => Some(j + i),
                    None => None::<int>,
                },
            decreases classes.len() - i,
        {
            assert(s.skip(i as int).drop_first() =~= s.skip(i + 1));
            assert(s.skip(i as int)[0] == s[i as int]);
            let class = classes[i];
            if class.rank() < floor.rank() {
                return Err(ServiceContractError::ProviderClassBelowContractFloor { class, required_durability: floor });
            }
            if class.rank() > top.rank() {
                return Err(ServiceContractError::ProviderClassAboveGuaranteedDurability { class, guaranteed_durability: top });
            }
            i = i + 1;
        }
        Ok(())
    }
}

/// Caller-selected options that stay bounded by provider terms.
#[derive(Debug, Clone, PartialEq, Eq, Default)]
pub struct CallerOptions {
    /// Explicit delivery class request, or `None` for the provider default.
    pub requested_class: Option<DeliveryClass>,
    /// Narrower timeout requested by the caller.
    pub timeout_override: Option<Duration>,
    /// Optional scheduling hint in the range `0..=255`.
    pub priority_hint: Option<u8>,
}

/// Effective caller request after provider-bound validation.
#[derive(Debug, Clone, PartialEq, Eq)]
pub struct ValidatedServiceRequest {
    /// Delivery class selected for the request.
    pub delivery_class: DeliveryClass,
    /// Effective timeout after applying defaults and caller overrides.
    pub timeout: Option<Duration>,
    /// Caller-provided priority hint, if honored.
    pub priority_hint: Option<u8>,
    /// Provider durability guarantee for the selected request.
    pub guaranteed_durability: DeliveryClass,
    /// Provider evidence guarantee.
    pub evidence_level: EvidenceLevel,
    /// Provider mobility boundary.
    pub mobility_constraint: MobilityConstraint,
    /// Compensation policy enforced for the request.
    pub compensation_policy: CompensationSemantics,
    /// Overload policy presented at the service boundary.
    pub overload_policy: OverloadPolicy,
}

/// Registered service surface with provider/caller authority split.
#[derive(Debug, Clone, PartialEq, Eq)]
pub struct ServiceRegistration {
    /// Human-readable service name.
    pub service_name: String,
    /// Structural contract for the service boundary.
    pub contract: ServiceContractSchema,
    /// Provider-declared bounds and guarantees.
    pub provider_terms: ProviderTerms,
}

/// The caller's first violation of the registration's bounds, if any, is
/// `e`; the checks run zero timeout, timeout override, priority hint,
/// then class selection.
pub open spec fn caller_error(reg: ServiceRegistration, caller: CallerOptions, e: ServiceContractError) -> bool {
    let b = reg.contract.budget_semantics;
    let policy = reg.provider_terms.admissible_classes;
    if caller.timeout_override matches Some(d) && zero_duration(d) {
        zero_duration_at(e, "caller_options.timeout_override"@)
    } else if caller.timeout_override is Some && !b.allow_timeout_override {
        e is TimeoutOverrideNotAllowed
    } else if caller.priority_hint is Some && !b.honor_priority_hints {
        e is PriorityHintsNotAllowed
    } else {
        match caller.requested_class {
            Some(c) => !policy.classes().contains(c) && e == ServiceContractError::DeliveryClassPolicy(
                DeliveryClassPolicyError::RequestedClassNotAdmissible { requested: c, default_class: policy.default_spec() }),
            None => false,
        }
    }
}

impl ServiceRegistration {
    /// Register a service surface: the name must not be blank, the
    /// contract must be consistent, and the provider terms must fit it.
    pub fn new(
        service_name: &str,
        contract: ServiceContractSchema,
        provider_terms: ProviderTerms,
    ) -> (r: Result<Self, ServiceContractError>)
        ensures
            r is Ok <==> !blank(service_name@) && contract_ok(contract) && provider_ok(provider_terms, contract),
            r matches Ok(reg) ==> reg.service_name@ == service_name@ && reg.contract == contract
                && reg.provider_terms == provider_terms,
            r matches Err(e) ==> if blank(service_name@) {
                e is EmptyServiceName
            } else if !contract_ok(contract) {
                contract_error(contract, e)
            } else {
                provider_error(provider_terms, contract, e)
            },
    {
        if is_blank(service_name) {
            return Err(ServiceContractError::EmptyServiceName);
        }
        contract.validate()?;
        provider_terms.validate_against(&contract)?;
        Ok(ServiceRegistration { service_name: owned(service_name), contract, provider_terms })
    }

    /// Validate caller-selected options against the provider's bounds: a
    /// caller timeout overrides the default, the class is the caller's
    /// admitted choice or the provider default, and the provider's
    /// guarantees carry over.
    pub fn validate_caller(&self, caller: &CallerOptions) -> (r: Result<ValidatedServiceRequest, ServiceContractError>)
        ensures
            match r {
                Ok(v) => {
                    &&& !(caller.timeout_override matches Some(d) && zero_duration(d))
                    &&& (caller.timeout_override is Some ==> self.contract.budget_semantics.allow_timeout_override)
                    &&& (caller.priority_hint is Some ==> self.contract.budget_semantics.honor_priority_hints)
                    &&& v.delivery_class == match caller.requested_class {
                        Some(c) => c,
                        None => self.provider_terms.admissible_classes.default_spec(),
                    }
                    &&& (caller.requested_class matches Some(c) ==> self.provider_terms.admissible_classes.classes().contains(c))
                    &&& v.timeout == match caller.timeout_override {
                        Some(d) => Some(d),
                        None => self.contract.budget_semantics.default_timeout,
                    }
                    &&& v.priority_hint == caller.priority_hint
                    &&& v.guaranteed_durability == self.provider_terms.guaranteed_durability
                    &&& v.evidence_level == self.provider_terms.evidence_level
                    &&& v.mobility_constraint == self.provider_terms.mobility_constraint
                    &&& v.compensation_policy == self.provider_terms.compensation_policy
                    &&& v.overload_policy == self.contract.overload_policy
                },
                Err(e) => caller_error(*self, *caller, e),
            },
    {
        if let Some(d) = &caller.timeout_override {
            if is_zero_duration(d) {
                return Err(ServiceContractError::ZeroDuration { field: owned("caller_options.timeout_override") });
            }
        }
        if caller.timeout_override.is_some() && !self.contract.budget_semantics.allow_timeout_override {
            return Err(ServiceContractError::TimeoutOverrideNotAllowed);
        }
        if caller.priority_hint.is_some() && !self.contract.budget_semantics.honor_priority_hints {
            return Err(ServiceContractError::PriorityHintsNotAllowed);
        }
        let delivery_class = match self.provider_terms.admissible_classes.select_for_caller(caller.requested_class) {
            Ok(c) => c,
            Err(e) => return Err(ServiceContractError::DeliveryClassPolicy(e)),
        };
        let timeout = match &caller.timeout_override {
            Some(d) => Some(copy_duration(d)),
            None => match &self.contract.budget_semantics.default_timeout {
                Some(d) => Some(copy_duration(d)),
                None => None,
            },
        };
        Ok(ValidatedServiceRequest {
            delivery_class,
            timeout,
            priority_hint: caller.priority_hint,
            guaranteed_durability: self.provider_terms.guaranteed_durability,
            evidence_level: self.provider_terms.evidence_level,
            mobility_constraint: self.provider_terms.mobility_constraint.duplicate(),
            compensation_policy: self.provider_terms.compensation_policy,
            overload_policy: self.contract.overload_policy,
        })
    }
}

/// Validation failure for service contracts and caller requests.
#[derive(Debug, Clone, PartialEq, Eq)]
pub enum ServiceContractError {
    /// Service name must not be empty.
    EmptyServiceName,
    /// Named schema references must be non-empty.
    EmptyNamedSchema {
        /// Field that declared an empty schema name.
        field: String,
    },
    /// Bounded-region mobility constraints require a non-empty region label.
    EmptyBoundedRegion {
        /// Field that declared an empty region label.
        field: String,
    },
    /// Duration-valued fields must be non-zero when present.
    ZeroDuration {
        /// Field that contained a zero duration.
        field: String,
    },
    /// Queue-based overload policies require positive capacity.
    InvalidQueueCapacity,
    /// Provider durability guarantee is weaker than the contract floor.
    ProviderGuaranteeBelowContractFloor {
        /// Provider-declared durability guarantee.
        guaranteed_durability: DeliveryClass,
        /// Minimum durability required by the contract.
        required_durability: DeliveryClass,
    },
    /// Provider compensation guarantee is weaker than the contract requirement.
    ProviderCompensationBelowContract {
        /// Provider-declared compensation policy.
        provider: CompensationSemantics,
        /// Contract-required compensation policy.
        required: CompensationSemantics,
    },
    /// Provider evidence guarantee is weaker than the contract requirement.
    ProviderEvidenceBelowContract {
        /// Provider-declared evidence level.
        provider: EvidenceLevel,
        /// Contract-required evidence level.
        required: EvidenceLevel,
    },
    /// Provider mobility guarantee is incompatible with the contract.
    ProviderMobilityIncompatible {
        /// Provider-declared mobility boundary.
        provider: MobilityConstraint,
        /// Contract-required mobility boundary.
        required: MobilityConstraint,
    },
    /// Provider admitted a class weaker than the contract floor.
    ProviderClassBelowContractFloor {
        /// Admitted delivery class.
        class: DeliveryClass,
        /// Contract floor for the service.
        required_durability: DeliveryClass,
    },
    /// Provider admitted a class it cannot guarantee durably.
    ProviderClassAboveGuaranteedDurability {
        /// Admitted delivery class.
        class: DeliveryClass,
        /// Strongest provider-guaranteed class.
        guaranteed_durability: DeliveryClass,
    },
    /// Caller tried to override timeout when the contract forbids it.
    TimeoutOverrideNotAllowed,
    /// Caller tried to pass a priority hint when the contract ignores hints.
    PriorityHintsNotAllowed,
    /// Delivery-class selection failed against the provider policy.
    DeliveryClassPolicy(DeliveryClassPolicyError),
}

// ─── Failures and receipts ─────────────────────────────────────────────────

/// Typed failure recorded when a request/reply obligation aborts.
#[derive(Debug, Clone, Copy, PartialEq, Eq, Structural)]
pub enum ServiceFailure {
    /// The caller or runtime cancelled the request.
    Cancelled,
    /// The request timed out and was explicitly aborted.
    TimedOut,
    /// Admission or policy rejected the request before completion.
    Rejected,
    /// The service failed because it was overloaded.
    Overloaded,
    /// The reply path encountered transport failure.
    TransportError,
    /// Application logic failed while serving the request.
    ApplicationError,
}

/// Text of a failure.
pub open spec fn failure_name(f: ServiceFailure) -> Seq<char> {
    match f {
        ServiceFailure::Cancelled => "cancelled"@,
        ServiceFailure::TimedOut => "timed_out"@,
        ServiceFailure::Rejected => "rejected"@,
        ServiceFailure::Overloaded => "overloaded"@,
        ServiceFailure::TransportError => "transport_error"@,
        ServiceFailure::ApplicationError => "application_error"@,
    }
}

/// The abort reason recorded for a failure.
pub open spec fn abort_reason_of(f: ServiceFailure) -> ObligationAbortReason {
    match f {
        ServiceFailure::Cancelled => ObligationAbortReason::Cancel,
        ServiceFailure::TimedOut | ServiceFailure::Rejected => ObligationAbortReason::Explicit,
        _ => ObligationAbortReason::Error,
    }
}

impl ServiceFailure {
    /// The abort reason recorded for the failure: cancellation for a
    /// cancelled request, explicit for a timeout or rejection, error
    /// otherwise.
    pub fn abort_reason(self) -> (r: ObligationAbortReason)
        ensures
            r == abort_reason_of(self),
    {
        match self {
            ServiceFailure::Cancelled => ObligationAbortReason::Cancel,
            ServiceFailure::TimedOut | ServiceFailure::Rejected => ObligationAbortReason::Explicit,
            ServiceFailure::Overloaded | ServiceFailure::TransportError | ServiceFailure::ApplicationError => {
                ObligationAbortReason::Error
            },
        }
    }

    /// Text of the failure (`cancelled`, `timed_out`, ...).
    pub fn to_string(&self) -> (s: String)
        ensures
            s@ == failure_name(*self),
    {
        match self {
            ServiceFailure::Cancelled => owned("cancelled"),
            ServiceFailure::TimedOut => owned("timed_out"),
            ServiceFailure::Rejected => owned("rejected"),
            ServiceFailure::Overloaded => owned("overloaded"),
            ServiceFailure::TransportError => owned("transport_error"),
            ServiceFailure::ApplicationError => owned("application_error"),
        }
    }
}

/// Transfer hop recorded when a request is forwarded through a morphism.
#[derive(Debug, Clone, PartialEq, Eq)]
pub struct ServiceTransferHop {
    /// Morphism or import/export adapter name.
    pub morphism: String,
    /// New callee selected by the transfer.
    pub callee: String,
    /// New subject or route used after the transfer.
    pub subject: String,
    /// When the transfer occurred.
    pub transferred_at: Time,
}

/// Follow-on obligation for reply delivery or receipt after the callee has
/// served the request.
#[derive(Debug)]
pub struct ReplyObligation {
    /// Service obligation that produced this reply.
    pub service_obligation_id: ObligationId,
    /// Delivery or receipt boundary the reply still needs to cross.
    pub delivery_boundary: AckKind,
    /// Whether the caller required explicit receipt.
    pub receipt_required: bool,
    /// Reply payload bound to this follow-on obligation.
    pub payload: Vec<u8>,
    obligation_id: ObligationId,
    token: Option<ObligationToken>,
}

/// Result of committing a service obligation with a reply.
#[derive(Debug)]
pub struct ServiceReplyCommit {
    /// Stable request identifier.
    pub request_id: String,
    /// Service obligation resolved by the commit, when tracking was enabled.
    pub service_obligation_id: Option<ObligationId>,
    /// Reply payload returned by the callee.
    pub payload: Vec<u8>,
    /// Delivery class used for the request.
    pub delivery_class: DeliveryClass,
    /// Optional follow-on reply-delivery obligation.
    pub reply_obligation: Option<ReplyObligation>,
}

/// Receipt emitted when a service obligation aborts.
#[derive(Debug, Clone, PartialEq, Eq)]
pub struct ServiceAbortReceipt {
    /// Stable request identifier.
    pub request_id: String,
    /// Service obligation id when the request was tracked.
    pub obligation_id: Option<ObligationId>,
    /// Typed failure recorded for the abort.
    pub failure: ServiceFailure,
    /// Delivery class used for the request.
    pub delivery_class: DeliveryClass,
}

/// Receipt emitted when a reply obligation commits.
#[derive(Debug, Clone, Copy, PartialEq, Eq, Structural)]
pub struct ReplyDeliveryReceipt {
    /// Reply obligation id.
    pub obligation_id: ObligationId,
    /// Parent service obligation id.
    pub service_obligation_id: ObligationId,
    /// Boundary satisfied by the delivery.
    pub delivery_boundary: AckKind,
    /// Whether the original request required receipt.
    pub receipt_required: bool,
}

/// Receipt emitted when a reply obligation aborts.
#[derive(Debug, Clone, Copy, PartialEq, Eq, Structural)]
pub struct ReplyAbortReceipt {
    /// Reply obligation id.
    pub obligation_id: ObligationId,
    /// Parent service obligation id.
    pub service_obligation_id: ObligationId,
    /// Boundary that failed to complete.
    pub delivery_boundary: AckKind,
    /// Typed failure recorded for the abort.
    pub failure: ServiceFailure,
}

/// Validation failure for runtime service obligations.
#[derive(Debug, Clone, PartialEq, Eq)]
pub enum ServiceObligationError {
    /// Required string fields must be non-empty.
    EmptyField {
        /// Field that failed validation.
        field: &'static str,
    },
    /// Timeout values must be strictly positive when present.
    ZeroTimeout,
    /// Resolved obligations cannot be mutated again.
    AlreadyResolved {
        /// Operation attempted on an already-resolved obligation.
        operation: &'static str,
    },
    /// Requested reply boundary is weaker than the delivery class can
    /// honestly claim.
    ReplyBoundaryBelowMinimum {
        /// Delivery class bound to the request.
        delivery_class: DeliveryClass,
        /// Minimum honest boundary for the class.
        minimum_boundary: AckKind,
        /// Boundary the caller attempted to use.
        requested_boundary: AckKind,
    },
    /// Receipt-tracked replies must finish at the `received` boundary.
    ReceiptRequiresReceivedBoundary {
        /// Boundary requested by the caller.
        requested_boundary: AckKind,
    },
    /// Lower-cost classes cannot support tracked reply delivery.
    ReplyTrackingUnavailable {
        /// Delivery class bound to the request.
        delivery_class: DeliveryClass,
        /// Boundary the caller attempted to use.
        requested_boundary: AckKind,
        /// Whether explicit receipt was requested.
        receipt_required: bool,
    },
    /// Chunked reply declared as chunked but missing expected count.
    ChunkedReplyMissingCount,
    /// Chunked reply declared zero expected chunks.
    ChunkedReplyZeroExpected,
    /// Chunked reply stream was certified before finalization.
    ChunkedReplyNotFinalized,
    /// Bounded chunked reply stream was finalized or certified before all
    /// chunks arrived.
    ChunkedReplyIncomplete {
        /// Declared expected chunk count.
        expected: u32,
        /// Actual chunk count recorded so far.
        received: u32,
    },
    /// More chunks received than the declared expected count.
    ChunkedReplyOverflow {
        /// Declared expected chunk count.
        expected: u32,
        /// Actual chunk count that exceeded the limit.
        received: u32,
    },
}

/// The error names an empty field `f`.
pub open spec fn empty_field(e: ServiceObligationError, f: Seq<char>) -> bool {
    e matches ServiceObligationError::EmptyField { field } && field@ == f
}

fn check_text(field: &'static str, value: &str) -> (r: Result<(), ServiceObligationError>)
    ensures
        r is Ok <==> !blank(value@),
        r matches Err(e) ==> empty_field(e, field@),
{
    if is_blank(value) {
        return Err(ServiceObligationError::EmptyField { field });
    }
    Ok(())
}

// ─── Request/reply obligations ─────────────────────────────────────────────

/// A reply for this boundary and receipt requirement needs a follow-up
/// obligation: receipt was required, or the boundary lies past service.
pub open spec fn needs_follow_up(boundary: AckKind, receipt_required: bool) -> bool {
    receipt_required || ack_rank(boundary) > ack_rank(AckKind::Served)
}

fn requires_follow_up_reply(delivery_boundary: AckKind, receipt_required: bool) -> (b: bool)
    ensures
        b == needs_follow_up(delivery_boundary, receipt_required),
{
    receipt_required || delivery_boundary.rank() > AckKind::Served.rank()
}

/// Why a reply boundary is refused for a class, if it is: below the
/// class's minimum boundary; short of `Received` although receipt is
/// required; or needing follow-up tracking that a class below
/// obligation-backed does not pay for.
pub open spec fn reply_boundary_fault(class: DeliveryClass, boundary: AckKind, receipt_required: bool) -> Option<ServiceObligationError> {
    if ack_rank(boundary) < ack_rank(minimum_ack_spec(class)) {
        Some(ServiceObligationError::ReplyBoundaryBelowMinimum {
            delivery_class: class,
            minimum_boundary: minimum_ack_spec(class),
            requested_boundary: boundary,
        })
    } else if receipt_required && boundary != AckKind::Received {
        Some(ServiceObligationError::ReceiptRequiresReceivedBoundary { requested_boundary: boundary })
    } else if class_rank(class) < class_rank(DeliveryClass::ObligationBacked) && needs_follow_up(boundary, receipt_required) {
        Some(ServiceObligationError::ReplyTrackingUnavailable {
            delivery_class: class,
            requested_boundary: boundary,
            receipt_required,
        })
    } else {
        None
    }
}

/// Checks a reply boundary against the request's delivery class.
pub fn validate_reply_boundary(delivery_class: DeliveryClass, delivery_boundary: AckKind, receipt_required: bool)
    -> (r: Result<(), ServiceObligationError>)
    ensures
        r == (match reply_boundary_fault(delivery_class, delivery_boundary, receipt_required) {
            Some(e) => Err::<(), ServiceObligationError>(e),
            None => Ok(()),
        }),
{
    let minimum_boundary = delivery_class.minimum_ack();
    if delivery_boundary.rank() < minimum_boundary.rank() {
        return Err(ServiceObligationError::ReplyBoundaryBelowMinimum {
            delivery_class,
            minimum_boundary,
            requested_boundary: delivery_boundary,
        });
    }
    if receipt_required && delivery_boundary != AckKind::Received {
        return Err(ServiceObligationError::ReceiptRequiresReceivedBoundary { requested_boundary: delivery_boundary });
    }
    if delivery_class.rank() < DeliveryClass::ObligationBacked.rank()
        && requires_follow_up_reply(delivery_boundary, receipt_required) {
        return Err(ServiceObligationError::ReplyTrackingUnavailable {
            delivery_class,
            requested_boundary: delivery_boundary,
            receipt_required,
        });
    }
    Ok(())
}

/// Ledger context of a tracked request.
pub open spec fn request_description(request_id: Seq<char>, caller: Seq<char>, callee: Seq<char>) -> Seq<char> {
    "service request "@ + request_id + ": "@ + caller + " -> "@ + callee
}

/// Ledger context of a reply obligation.
pub open spec fn reply_description(service: ObligationId) -> Seq<char> {
    "reply obligation for service "@ + crate::text::decimal(service.raw_spec() as nat)
}

/// `after` is `before` with one more reserved obligation at its end, of
/// the given kind, holder, region, time and context.
pub open spec fn appends_reserved(
    before: Seq<ObligationRecord>,
    after: Seq<ObligationRecord>,
    kind: ObligationKind,
    holder: TaskId,
    region: RegionId,
    at: Time,
    context: Seq<char>,
) -> bool {
    &&& after.len() == before.len() + 1
    &&& after.drop_last() == before
    &&& after.last().id.raw_spec() == before.len()
    &&& after.last().kind == kind
    &&& after.last().holder == holder
    &&& after.last().region == region
    &&& after.last().state == ObligationState::Reserved
    &&& after.last().reserved_at == at
    &&& after.last().resolved_at is None
    &&& after.last().abort_reason is None
    &&& opt_text(after.last().description) == Some(context)
}

/// Runtime request/reply obligation, tracked in the obligation ledger when
/// its delivery class requires it.
#[derive(Debug)]
pub struct ServiceObligation {
    /// Stable request identifier.
    pub request_id: String,
    /// Human-readable caller identity.
    pub caller: String,
    /// Human-readable callee identity.
    pub callee: String,
    /// Subject used for the request.
    pub subject: String,
    /// Delivery class selected for the request.
    pub delivery_class: DeliveryClass,
    /// Time when the request was created.
    pub created_at: Time,
    /// Optional request timeout carried into the service surface.
    pub timeout: Option<Duration>,
    /// Morphism transfer lineage captured across forwards.
    pub lineage: Vec<ServiceTransferHop>,
    resolved: bool,
    token: Option<ObligationToken>,
}

/// The error is `AlreadyResolved` for operation `op`.
pub open spec fn already_resolved(e: ServiceObligationError, op: Seq<char>) -> bool {
    e matches ServiceObligationError::AlreadyResolved { operation } && operation@ == op
}

fn request_context(request_id: &str, caller: &str, callee: &str) -> (s: String)
    ensures
        s@ == request_description(request_id@, caller@, callee@),
{
    let mut s = owned("service request ");
    push_str(&mut s, request_id);
    push_str(&mut s, ": ");
    push_str(&mut s, caller);
    push_str(&mut s, " -> ");
    push_str(&mut s, callee);
    s
}

/// Mathematical value of a [`ServiceObligation`].
pub struct ServiceObligationView {
    /// Request identifier.
    pub request_id: Seq<char>,
    /// Caller identity.
    pub caller: Seq<char>,
    /// Callee identity.
    pub callee: Seq<char>,
    /// Request subject.
    pub subject: Seq<char>,
    /// Delivery class.
    pub delivery_class: DeliveryClass,
    /// Creation time.
    pub created_at: Time,
    /// Request timeout.
    pub timeout: Option<Duration>,
    /// Transfer lineage.
    pub lineage: Seq<ServiceTransferHop>,
    /// Whether the obligation was resolved.
    pub resolved: bool,
    /// Ledger token, while the request is tracked and unresolved.
    pub token: Option<ObligationToken>,
}

impl View for ServiceObligation {
    type V = ServiceObligationView;

    closed spec fn view(&self) -> ServiceObligationView {
        ServiceObligationView {
            request_id: self.request_id@,
            caller: self.caller@,
            callee: self.callee@,
            subject: self.subject@,
            delivery_class: self.delivery_class,
            created_at: self.created_at,
            timeout: self.timeout,
            lineage: self.lineage@,
            resolved: self.resolved,
            token: self.token,
        }
    }
}

impl ServiceObligation {
    /// Whether the obligation was resolved.
    pub open spec fn is_resolved(self) -> bool {
        self@.resolved
    }

    /// The ledger token held, while the request is tracked and unresolved.
    pub open spec fn token_spec(self) -> Option<ObligationToken> {
        self@.token
    }

    /// Identifier of the ledger obligation, while one is held.
    pub open spec fn tracked_id(self) -> Option<ObligationId> {
        match self@.token {
            Some(t) => Some(t.id_spec()),
            None => None,
        }
    }

    /// Allocates the obligation of one request.  Interactive and durable
    /// classes stay untracked; obligation-backed and stronger classes take
    /// a lease in the ledger that must later be committed or aborted.
    /// Refused, with the ledger unchanged, when a text is blank (checked in
    /// the order request id, caller, callee, subject) or the timeout is
    /// zero.
    pub fn allocate(
        ledger: &mut ObligationLedger,
        request_id: &str,
        caller: &str,
        target: &str,
        subject: &str,
        delivery_class: DeliveryClass,
        holder: TaskId,
        region: RegionId,
        created_at: Time,
        timeout: Option<Duration>,
    ) -> (r: Result<Self, ServiceObligationError>)
        ensures
            r is Ok <==> (!blank(request_id@) && !blank(caller@) && !blank(target@) && !blank(subject@)
                && !(timeout matches Some(d) && zero_duration(d))),
            blank(request_id@) ==> (r matches Err(e) && empty_field(e, "request_id"@)),
            !blank(request_id@) && blank(caller@) ==> (r matches Err(e) && empty_field(e, "caller"@)),
            !blank(request_id@) && !blank(caller@) && blank(target@) ==> (r matches Err(e) && empty_field(e, "callee"@)),
            !blank(request_id@) && !blank(caller@) && !blank(target@) && blank(subject@) ==> (r matches Err(e)
                && empty_field(e, "subject"@)),
            (!blank(request_id@) && !blank(caller@) && !blank(target@) && !blank(subject@) && (timeout matches Some(d)
                && zero_duration(d))) ==> r == Err::<Self, ServiceObligationError>(ServiceObligationError::ZeroTimeout),
            r is Err ==> final(ledger).entries() == old(ledger).entries(),
            r matches Ok(o) ==> {
                &&& o@.request_id == request_id@
                &&& o@.caller == caller@
                &&& o@.callee == target@
                &&& o@.subject == subject@
                &&& o@.delivery_class == delivery_class
                &&& o@.created_at == created_at
                &&& o@.timeout == timeout
                &&& o@.lineage.len() == 0
                &&& !o.is_resolved()
            },
            r matches Ok(o) ==> (class_rank(delivery_class) >= class_rank(DeliveryClass::ObligationBacked) ==> (
            o.token_spec() matches Some(t) && t.holder_spec() == holder && t.region_spec() == region
                && t.kind_spec() == ObligationKind::Lease && t.id_spec() == final(ledger).entries().last().id
                && appends_reserved(old(ledger).entries(), final(ledger).entries(), ObligationKind::Lease, holder, region,
                created_at, request_description(request_id@, caller@, target@)))),
            r matches Ok(o) ==> (class_rank(delivery_class) < class_rank(DeliveryClass::ObligationBacked) ==> (
            o.token_spec() is None && final(ledger).entries() == old(ledger).entries())),
    {
        check_text("request_id", request_id)?;
        check_text("caller", caller)?;
        check_text("callee", target)?;
        check_text("subject", subject)?;
        match &timeout {
            Some(d) => if is_zero_duration(d) {
                return Err(ServiceObligationError::ZeroTimeout);
            },
            None => {},
        }
        let token = if delivery_class.rank() >= DeliveryClass::ObligationBacked.rank() {
            let description = request_context(request_id, caller, target);
            Some(ledger.acquire_with_context(ObligationKind::Lease, holder, region, created_at, Some(description)))
        } else {
            None
        };
        Ok(ServiceObligation {
            request_id: owned(request_id),
            caller: owned(caller),
            callee: owned(target),
            subject: owned(subject),
            delivery_class,
            created_at,
            timeout,
            lineage: Vec::new(),
            resolved: false,
            token,
        })
    }

    fn ensure_active(&self, operation: &'static str) -> (r: Result<(), ServiceObligationError>)
        ensures
            r is Ok <==> !self.is_resolved(),
            r matches Err(e) ==> already_resolved(e, operation@),
    {
        if self.resolved {
            return Err(ServiceObligationError::AlreadyResolved { operation });
        }
        Ok(())
    }

    /// The ledger obligation id, when the request is tracked.
    pub fn obligation_id(&self) -> (r: Option<ObligationId>)
        ensures
            r == self.tracked_id(),
    {
        match &self.token {
            Some(t) => Some(t.id()),
            None => None,
        }
    }

    /// Whether the request is currently backed by the obligation ledger.
    pub fn is_tracked(&self) -> (b: bool)
        ensures
            b == (self.token_spec() is Some),
    {
        self.token.is_some()
    }

    /// Transfers the request through an import/export morphism: the callee
    /// and subject change and the hop joins the lineage, while the
    /// obligation itself is kept.  Refused, with nothing changed, once the
    /// obligation is resolved or when a text is blank.
    pub fn transfer(&mut self, callee: &str, subject: &str, morphism: &str, transferred_at: Time)
        -> (r: Result<(), ServiceObligationError>)
        ensures
            old(self).is_resolved() ==> (r matches Err(e) && already_resolved(e, "transfer"@)),
            r is Ok <==> (!old(self).is_resolved() && !blank(callee@) && !blank(subject@) && !blank(morphism@)),
            !old(self).is_resolved() && blank(callee@) ==> (r matches Err(e) && empty_field(e, "transfer.callee"@)),
            !old(self).is_resolved() && !blank(callee@) && blank(subject@) ==> (r matches Err(e)
                && empty_field(e, "transfer.subject"@)),
            !old(self).is_resolved() && !blank(callee@) && !blank(subject@) && blank(morphism@) ==> (r matches Err(e)
                && empty_field(e, "transfer.morphism"@)),
            r is Err ==> final(self)@ == old(self)@,
            r is Ok ==> {
                &&& final(self)@.callee == callee@
                &&& final(self)@.subject == subject@
                &&& final(self)@.lineage.len() == old(self)@.lineage.len() + 1
                &&& final(self)@.lineage.drop_last() == old(self)@.lineage
                &&& final(self)@.lineage.last().morphism@ == morphism@
                &&& final(self)@.lineage.last().callee@ == callee@
                &&& final(self)@.lineage.last().subject@ == subject@
                &&& final(self)@.lineage.last().transferred_at == transferred_at
                &&& final(self)@.request_id == old(self)@.request_id
                &&& final(self)@.caller == old(self)@.caller
                &&& final(self)@.delivery_class == old(self)@.delivery_class
                &&& final(self)@.created_at == old(self)@.created_at
                &&& final(self)@.timeout == old(self)@.timeout
                &&& final(self)@.resolved == old(self)@.resolved
                &&& final(self)@.token == old(self)@.token
            },
    {
        self.ensure_active("transfer")?;
        check_text("transfer.callee", callee)?;
        check_text("transfer.subject", subject)?;
        check_text("transfer.morphism", morphism)?;
        self.callee = owned(callee);
        self.subject = owned(subject);
        self.lineage.push(ServiceTransferHop {
            morphism: owned(morphism),
            callee: owned(callee),
            subject: owned(subject),
            transferred_at,
        });
        Ok(())
    }

    /// Commits the obligation with a reply payload.  A tracked request
    /// resolves its lease in the ledger and, when the reply still has to
    /// cross a boundary past service or receipt is required, takes a
    /// follow-up acknowledgement obligation for the reply.  Refused, with
    /// the request and ledger unchanged, once resolved, for a boundary the
    /// class cannot honestly claim, or for follow-up tracking on an
    /// untracked request.
    pub fn commit_with_reply(
        &mut self,
        ledger: &mut ObligationLedger,
        now: Time,
        payload: Vec<u8>,
        delivery_boundary: AckKind,
        receipt_required: bool,
    ) -> (r: Result<ServiceReplyCommit, ServiceObligationError>)
        ensures
            old(self)@.resolved ==> (r matches Err(e) && already_resolved(e, "commit_with_reply"@)),
            !old(self)@.resolved ==> (reply_boundary_fault(old(self)@.delivery_class, delivery_boundary, receipt_required)
                matches Some(f) ==> r == Err::<ServiceReplyCommit, ServiceObligationError>(f)),
            (!old(self)@.resolved && reply_boundary_fault(old(self)@.delivery_class, delivery_boundary, receipt_required)
                is None && old(self)@.token is None && needs_follow_up(delivery_boundary, receipt_required)) ==> r
                == Err::<ServiceReplyCommit, ServiceObligationError>(ServiceObligationError::ReplyTrackingUnavailable {
                delivery_class: old(self)@.delivery_class,
                requested_boundary: delivery_boundary,
                receipt_required,
            }),
            r is Ok <==> (!old(self)@.resolved && reply_boundary_fault(old(self)@.delivery_class, delivery_boundary,
                receipt_required) is None && !(old(self)@.token is None && needs_follow_up(delivery_boundary,
                receipt_required))),
            r is Err ==> final(self)@ == old(self)@ && final(ledger).entries() == old(ledger).entries(),
            r matches Ok(c) ==> {
                &&& c.request_id@ == old(self)@.request_id
                &&& c.service_obligation_id == old(self).tracked_id()
                &&& c.payload@ == payload@
                &&& c.delivery_class == old(self)@.delivery_class
                &&& final(self)@ == (ServiceObligationView { resolved: true, token: None, ..old(self)@ })
            },
            r matches Ok(c) ==> (old(self)@.token is None ==> (final(ledger).entries() == old(ledger).entries()
                && c.reply_obligation is None)),
            r matches Ok(c) ==> (old(self)@.token matches Some(t) ==> committed_with_reply(
                old(ledger).entries(),
                final(ledger).entries(),
                t,
                now,
                needs_follow_up(delivery_boundary, receipt_required),
                c.reply_obligation,
                payload@,
                delivery_boundary,
                receipt_required,
            )),
    {
        self.ensure_active("commit_with_reply")?;
        validate_reply_boundary(self.delivery_class, delivery_boundary, receipt_required)?;
        let service_obligation_id = self.obligation_id();
        let follow = requires_follow_up_reply(delivery_boundary, receipt_required);
        let reply_obligation = if self.token.is_some() {
            let token = self.token.take().unwrap();
            let holder = token.holder();
            let region = token.region();
            let sid = token.id();
            ledger.commit(token, now);
            if follow {
                let copy = crate::text::copy_bytes(payload.as_slice());
                Some(ReplyObligation::allocate(ledger, sid, holder, region, now, copy, delivery_boundary, receipt_required))
            } else {
                None
            }
        } else if follow {
            return Err(ServiceObligationError::ReplyTrackingUnavailable {
                delivery_class: self.delivery_class,
                requested_boundary: delivery_boundary,
                receipt_required,
            });
        } else {
            None
        };
        self.resolved = true;
        Ok(ServiceReplyCommit {
            request_id: copy_string(&self.request_id),
            service_obligation_id,
            payload,
            delivery_class: self.delivery_class,
            reply_obligation,
        })
    }

    /// Aborts the obligation with a typed failure, recording the failure's
    /// abort reason in the ledger for a tracked request.  Refused, with the
    /// ledger unchanged, once resolved.
    pub fn abort(self, ledger: &mut ObligationLedger, now: Time, failure: ServiceFailure)
        -> (r: Result<ServiceAbortReceipt, ServiceObligationError>)
        ensures
            r is Ok <==> !self@.resolved,
            r matches Err(e) ==> already_resolved(e, "abort"@) && final(ledger).entries() == old(ledger).entries(),
            r matches Ok(a) ==> aborted_request(self, old(ledger).entries(), final(ledger).entries(), a, now, failure),
    {
        self.ensure_active("abort")?;
        let obligation_id = self.obligation_id();
        match self.token {
            Some(token) => ledger.abort(token, now, failure.abort_reason()),
            None => {},
        }
        Ok(ServiceAbortReceipt { request_id: self.request_id, obligation_id, failure, delivery_class: self.delivery_class })
    }

    /// Times the obligation out: an explicit abort with the `TimedOut`
    /// failure.  Refused, with the ledger unchanged, once resolved.
    pub fn timeout(self, ledger: &mut ObligationLedger, now: Time) -> (r: Result<ServiceAbortReceipt, ServiceObligationError>)
        ensures
            r is Ok <==> !self@.resolved,
            r matches Err(e) ==> already_resolved(e, "timeout"@) && final(ledger).entries() == old(ledger).entries(),
            r matches Ok(a) ==> aborted_request(self, old(ledger).entries(), final(ledger).entries(), a, now,
                ServiceFailure::TimedOut),
    {
        self.ensure_active("timeout")?;
        self.abort(ledger, now, ServiceFailure::TimedOut)
    }
}

/// `a` is the receipt of aborting request `o` for `failure` at `at`, and
/// `after` the ledger `before` with the request's obligation, if tracked,
/// aborted.
pub open spec fn aborted_request(
    o: ServiceObligation,
    before: Seq<ObligationRecord>,
    after: Seq<ObligationRecord>,
    a: ServiceAbortReceipt,
    at: Time,
    failure: ServiceFailure,
) -> bool {
    &&& a.request_id@ == o@.request_id
    &&& a.obligation_id == o.tracked_id()
    &&& a.failure == failure
    &&& a.delivery_class == o@.delivery_class
    &&& match o@.token {
        Some(t) => {
            &&& resolves(before, after, t.id_spec(), ObligationState::Aborted, at, Some(abort_reason_of(failure)))
            &&& reserved_count(after) + (if is_reserved(before, t.id_spec()) { 1int } else { 0int }) == reserved_count(before)
        },
        None => after == before,
    }
}

/// The ledger `before` with obligation `id` committed at `at`, if it was
/// reserved.
pub open spec fn after_commit(before: Seq<ObligationRecord>, id: ObligationId, at: Time) -> Seq<ObligationRecord> {
    if is_reserved(before, id) {
        before.update(id.raw_spec() as int, crate::obligation::ledger::resolved(before[id.raw_spec() as int],
            ObligationState::Committed, at, None))
    } else {
        before
    }
}

/// Ledger and reply after committing the obligation of token `t` at `at`:
/// the lease is committed; with a follow-up, one reserved acknowledgement
/// obligation for the reply is appended and described by the returned
/// reply obligation; without one, nothing else changes.
pub open spec fn committed_with_reply(
    before: Seq<ObligationRecord>,
    after: Seq<ObligationRecord>,
    t: ObligationToken,
    at: Time,
    follow_up: bool,
    reply: Option<ReplyObligation>,
    payload: Seq<u8>,
    boundary: AckKind,
    receipt_required: bool,
) -> bool {
    let mid = after_commit(before, t.id_spec(), at);
    if follow_up {
        &&& appends_reserved(mid, after, ObligationKind::Ack, t.holder_spec(), t.region_spec(), at, reply_description(t.id_spec()))
        &&& reserved_count(after) == reserved_count(mid) + 1
        &&& reply matches Some(ro) && ro.wf() && ro@.service_obligation_id == t.id_spec()
            && ro@.obligation_id == after.last().id && ro@.payload == payload && ro@.delivery_boundary == boundary
            && ro@.receipt_required == receipt_required
    } else {
        after == mid && reply is None
    }
}

/// Committing a tracked, reserved request keeps the ledger's books: the
/// lease leaves the pending set, and a follow-up acknowledgement joins it
/// exactly when the reply still has to be delivered or received.
pub proof fn law_commit_keeps_books(
    before: Seq<ObligationRecord>,
    after: Seq<ObligationRecord>,
    t: ObligationToken,
    at: Time,
    follow_up: bool,
    reply: Option<ReplyObligation>,
    payload: Seq<u8>,
    boundary: AckKind,
    receipt_required: bool,
)
    requires
        is_reserved(before, t.id_spec()),
        committed_with_reply(before, after, t, at, follow_up, reply, payload, boundary, receipt_required),
    ensures
        reserved_count(after) + 1 == reserved_count(before) + (if follow_up { 1int } else { 0int }),
        after[t.id_spec().raw_spec() as int].state == ObligationState::Committed,
{
    let mid = after_commit(before, t.id_spec(), at);
    crate::obligation::ledger::law_resolution_releases_one(before, mid, t.id_spec(), ObligationState::Committed, at, None);
    if follow_up {
        assert(after[t.id_spec().raw_spec() as int] == after.drop_last()[t.id_spec().raw_spec() as int]);
    }
}

/// Mathematical value of a [`ReplyObligation`].
pub struct ReplyObligationView {
    /// Parent service obligation.
    pub service_obligation_id: ObligationId,
    /// Boundary the reply still has to cross.
    pub delivery_boundary: AckKind,
    /// Whether receipt was required.
    pub receipt_required: bool,
    /// Reply payload.
    pub payload: Seq<u8>,
    /// The reply obligation's own identifier.
    pub obligation_id: ObligationId,
    /// Ledger token, until the reply obligation is resolved.
    pub token: Option<ObligationToken>,
}

impl View for ReplyObligation {
    type V = ReplyObligationView;

    closed spec fn view(&self) -> ReplyObligationView {
        ReplyObligationView {
            service_obligation_id: self.service_obligation_id,
            delivery_boundary: self.delivery_boundary,
            receipt_required: self.receipt_required,
            payload: self.payload@,
            obligation_id: self.obligation_id,
            token: self.token,
        }
    }
}

fn reply_context(service: ObligationId) -> (s: String)
    ensures
        s@ == reply_description(service),
{
    let mut s = owned("reply obligation for service ");
    let d = crate::text::decimal_text(service.raw());
    push_str(&mut s, d.as_str());
    s
}

impl ReplyObligation {
    /// The obligation holds the token of its own ledger entry.
    pub open spec fn wf(self) -> bool {
        self@.token matches Some(t) && t.id_spec() == self@.obligation_id
    }

    fn allocate(
        ledger: &mut ObligationLedger,
        service_obligation_id: ObligationId,
        holder: TaskId,
        region: RegionId,
        created_at: Time,
        payload: Vec<u8>,
        delivery_boundary: AckKind,
        receipt_required: bool,
    ) -> (r: Self)
        ensures
            appends_reserved(old(ledger).entries(), final(ledger).entries(), ObligationKind::Ack, holder, region,
                created_at, reply_description(service_obligation_id)),
            reserved_count(final(ledger).entries()) == reserved_count(old(ledger).entries()) + 1,
            r.wf(),
            r@.service_obligation_id == service_obligation_id,
            r@.obligation_id == final(ledger).entries().last().id,
            r@.payload == payload@,
            r@.delivery_boundary == delivery_boundary,
            r@.receipt_required == receipt_required,
    {
        let description = reply_context(service_obligation_id);
        let token = ledger.acquire_with_context(ObligationKind::Ack, holder, region, created_at, Some(description));
        let obligation_id = token.id();
        ReplyObligation {
            service_obligation_id,
            delivery_boundary,
            receipt_required,
            payload,
            obligation_id,
            token: Some(token),
        }
    }

    /// The reply obligation's identifier.
    pub fn obligation_id(&self) -> (i: ObligationId)
        ensures
            i == self@.obligation_id,
    {
        self.obligation_id
    }

    /// Commits the reply delivery.
    pub fn commit_delivery(self, ledger: &mut ObligationLedger, now: Time) -> (r: ReplyDeliveryReceipt)
        requires
            self.wf(),
        ensures
            resolves(old(ledger).entries(), final(ledger).entries(), self@.obligation_id, ObligationState::Committed, now,
                None),
            reserved_count(final(ledger).entries()) + (if is_reserved(old(ledger).entries(), self@.obligation_id) {
                1int
            } else {
                0int
            }) == reserved_count(old(ledger).entries()),
            r == (ReplyDeliveryReceipt {
                obligation_id: self@.obligation_id,
                service_obligation_id: self@.service_obligation_id,
                delivery_boundary: self@.delivery_boundary,
                receipt_required: self@.receipt_required,
            }),
    {
        match self.token {
            Some(token) => ledger.commit(token, now),
            None => {},
        }
        ReplyDeliveryReceipt {
            obligation_id: self.obligation_id,
            service_obligation_id: self.service_obligation_id,
            delivery_boundary: self.delivery_boundary,
            receipt_required: self.receipt_required,
        }
    }

    /// Aborts the reply delivery with a typed failure.
    pub fn abort_delivery(self, ledger: &mut ObligationLedger, now: Time, failure: ServiceFailure) -> (r: ReplyAbortReceipt)
        requires
            self.wf(),
        ensures
            resolves(old(ledger).entries(), final(ledger).entries(), self@.obligation_id, ObligationState::Aborted, now,
                Some(abort_reason_of(failure))),
            reserved_count(final(ledger).entries()) + (if is_reserved(old(ledger).entries(), self@.obligation_id) {
                1int
            } else {
                0int
            }) == reserved_count(old(ledger).entries()),
            r == (ReplyAbortReceipt {
                obligation_id: self@.obligation_id,
                service_obligation_id: self@.service_obligation_id,
                delivery_boundary: self@.delivery_boundary,
                failure,
            }),
    {
        match self.token {
            Some(token) => ledger.abort(token, now, failure.abort_reason()),
            None => {},
        }
        ReplyAbortReceipt {
            obligation_id: self.obligation_id,
            service_obligation_id: self.service_obligation_id,
            delivery_boundary: self.delivery_boundary,
            failure,
        }
    }

    /// Times the reply delivery out: an explicit abort with `TimedOut`.
    pub fn timeout(self, ledger: &mut ObligationLedger, now: Time) -> (r: ReplyAbortReceipt)
        requires
            self.wf(),
        ensures
            resolves(old(ledger).entries(), final(ledger).entries(), self@.obligation_id, ObligationState::Aborted, now,
                Some(ObligationAbortReason::Explicit)),
            reserved_count(final(ledger).entries()) + (if is_reserved(old(ledger).entries(), self@.obligation_id) {
                1int
            } else {
                0int
            }) == reserved_count(old(ledger).entries()),
            r.obligation_id == self@.obligation_id,
            r.service_obligation_id == self@.service_obligation_id,
            r.delivery_boundary == self@.delivery_boundary,
            r.failure == ServiceFailure::TimedOut,
    {
        self.abort_delivery(ledger, now, ServiceFailure::TimedOut)
    }
}


// ─── Certificate digests ───────────────────────────────────────────────────

/// Little-endian bytes of a 64-bit value.
pub open spec fn u64_bytes(x: u64) -> Seq<u8> {
    seq![x as u8, (x >> 8u64) as u8, (x >> 16u64) as u8, (x >> 24u64) as u8,
        (x >> 32u64) as u8, (x >> 40u64) as u8, (x >> 48u64) as u8, (x >> 56u64) as u8]
}

/// Length-prefixed UTF-8 bytes of a text.
pub open spec fn text_bytes(s: Seq<char>) -> Seq<u8> {
    u64_bytes(vstd::utf8::encode_utf8(s).len() as u64) + vstd::utf8::encode_utf8(s)
}

/// Bytes of a duration: its nanoseconds, low half then high half.
pub open spec fn duration_bytes(d: Duration) -> Seq<u8> {
    u64_bytes(duration_nanos(d) as u64) + u64_bytes((duration_nanos(d) >> 64u128) as u64)
}

/// Bytes of an optional duration: a presence tag, then the duration.
pub open spec fn opt_duration_bytes(o: Option<Duration>) -> Seq<u8> {
    match o {
        Some(d) => seq![1u8] + duration_bytes(d),
        None => seq![0u8],
    }
}

/// Bytes of a reply-space rule: a variant tag, then the prefix.
pub open spec fn reply_rule_bytes(r: ReplySpaceRule) -> Seq<u8> {
    match r {
        ReplySpaceRule::CallerInbox => seq![0u8],
        ReplySpaceRule::SharedPrefix { prefix } => seq![1u8] + text_bytes(prefix@),
        ReplySpaceRule::DedicatedPrefix { prefix } => seq![2u8] + text_bytes(prefix@),
    }
}

/// Bytes of an optional obligation id: a presence tag, then the id.
pub open spec fn opt_id_bytes(o: Option<ObligationId>) -> Seq<u8> {
    match o {
        Some(id) => seq![1u8] + u64_bytes(id.raw_spec()),
        None => seq![0u8],
    }
}

/// Bytes of an optional count: a presence tag, then the count.
pub open spec fn opt_count_bytes(o: Option<u32>) -> Seq<u8> {
    match o {
        Some(n) => seq![1u8] + u64_bytes(n as u64),
        None => seq![0u8],
    }
}

pub(crate) fn push_u64(buf: &mut Vec<u8>, x: u64)
    ensures
        final(buf)@ == old(buf)@ + u64_bytes(x),
{
    buf.push(x as u8);
    buf.push((x >> 8u64) as u8);
    buf.push((x >> 16u64) as u8);
    buf.push((x >> 24u64) as u8);
    buf.push((x >> 32u64) as u8);
    buf.push((x >> 40u64) as u8);
    buf.push((x >> 48u64) as u8);
    buf.push((x >> 56u64) as u8);
    assert(buf@ =~= old(buf)@ + u64_bytes(x));
}

pub(crate) fn push_text(buf: &mut Vec<u8>, s: &str)
    ensures
        final(buf)@ == old(buf)@ + text_bytes(s@),
{
    let bytes = s.as_bytes();
    let ghost before = buf@;
    push_u64(buf, bytes.len() as u64);
    let ghost mid = buf@;
    let mut i: usize = 0;
    while i < bytes.len()
        invariant
            i <= bytes.len(),
            buf@ == mid + bytes@.take(i as int),
        decreases bytes.len() - i,
    {
        buf.push(bytes[i]);
        assert(bytes@.take(i + 1) =~= bytes@.take(i as int).push(bytes@[i as int]));
        i = i + 1;
    }
    assert(bytes@.take(bytes.len() as int) =~= bytes@);
    assert(buf@ =~= before + text_bytes(s@));
}

pub(crate) fn push_duration(buf: &mut Vec<u8>, d: &Duration)
    ensures
        final(buf)@ == old(buf)@ + duration_bytes(*d),
{
    let n = nanos_of(d);
    push_u64(buf, n as u64);
    push_u64(buf, (n >> 64u128) as u64);
    assert(buf@ =~= old(buf)@ + duration_bytes(*d));
}

pub(crate) fn push_tag(buf: &mut Vec<u8>, t: u8)
    ensures
        final(buf)@ == old(buf)@ + seq![t],
{
    buf.push(t);
    assert(buf@ =~= old(buf)@ + seq![t]);
}

// ─── Request and reply certificates ────────────────────────────────────────

/// Certificate that a request was admitted, validated and authorised
/// before entering the service pipeline.
#[derive(Debug, Clone, PartialEq, Eq)]
pub struct RequestCertificate {
    /// Stable identifier for the request.
    pub request_id: String,
    /// Caller identity verified during admission.
    pub caller: String,
    /// Subject the request was issued on.
    pub subject: String,
    /// Delivery class negotiated between caller options and provider terms.
    pub delivery_class: DeliveryClass,
    /// Reply-space rule governing where the reply may land.
    pub reply_space_rule: ReplySpaceRule,
    /// Service class from the validated contract.
    pub service_class: String,
    /// Fingerprint of the capability proof used during admission.
    pub capability_fingerprint: u64,
    /// When the certificate was issued.
    pub issued_at: Time,
    /// Optional timeout after which the request is considered stale.
    pub timeout: Option<Duration>,
}

/// The bytes a request certificate's digest covers, field by field.
pub open spec fn request_bytes(c: RequestCertificate) -> Seq<u8> {
    text_bytes(c.request_id@) + text_bytes(c.caller@) + text_bytes(c.subject@)
        + seq![class_rank(c.delivery_class) as u8] + reply_rule_bytes(c.reply_space_rule)
        + text_bytes(c.service_class@) + u64_bytes(c.capability_fingerprint)
        + u64_bytes(c.issued_at.nanos_spec()) + opt_duration_bytes(c.timeout)
}

impl RequestCertificate {
    /// A certificate for a validated request: its class and timeout come
    /// from the validation, the rest from the arguments.
    pub fn from_validated(
        request_id: String,
        caller: String,
        subject: String,
        validated: &ValidatedServiceRequest,
        reply_space_rule: ReplySpaceRule,
        service_class: String,
        capability_fingerprint: u64,
        issued_at: Time,
    ) -> (c: Self)
        ensures
            c == (RequestCertificate {
                request_id,
                caller,
                subject,
                delivery_class: validated.delivery_class,
                reply_space_rule,
                service_class,
                capability_fingerprint,
                issued_at,
                timeout: validated.timeout,
            }),
    {
        let timeout = match &validated.timeout {
            Some(d) => Some(copy_duration(d)),
            None => None,
        };
        RequestCertificate {
            request_id,
            caller,
            subject,
            delivery_class: validated.delivery_class,
            reply_space_rule,
            service_class,
            capability_fingerprint,
            issued_at,
            timeout,
        }
    }

    /// Checks that the text fields are not blank (request id, caller,
    /// subject, service class, in that order) and the timeout is not zero.
    pub fn validate(&self) -> (r: Result<(), ServiceObligationError>)
        ensures
            r is Ok <==> !blank(self.request_id@) && !blank(self.caller@) && !blank(self.subject@)
                && !blank(self.service_class@) && !(self.timeout matches Some(d) && zero_duration(d)),
            r matches Err(e) ==> if blank(self.request_id@) {
                empty_field(e, "request_id"@)
            } else if blank(self.caller@) {
                empty_field(e, "caller"@)
            } else if blank(self.subject@) {
                empty_field(e, "subject"@)
            } else if blank(self.service_class@) {
                empty_field(e, "service_class"@)
            } else {
                e is ZeroTimeout
            },
    {
        check_text("request_id", self.request_id.as_str())?;
        check_text("caller", self.caller.as_str())?;
        check_text("subject", self.subject.as_str())?;
        check_text("service_class", self.service_class.as_str())?;
        if let Some(d) = &self.timeout {
            if is_zero_duration(d) {
                return Err(ServiceObligationError::ZeroTimeout);
            }
        }
        Ok(())
    }

    /// Deterministic digest of the certificate: 64-bit FNV-1a over the
    /// certificate's fields in order.
    pub fn digest(&self) -> (h: u64)
        ensures
            h == fnv1a(request_bytes(*self)),
    {
        let mut buf: Vec<u8> = Vec::new();
        push_text(&mut buf, self.request_id.as_str());
        push_text(&mut buf, self.caller.as_str());
        push_text(&mut buf, self.subject.as_str());
        push_tag(&mut buf, self.delivery_class.rank());
        match &self.reply_space_rule {
            ReplySpaceRule::CallerInbox => push_tag(&mut buf, 0),
            ReplySpaceRule::SharedPrefix { prefix } => {
                push_tag(&mut buf, 1);
                push_text(&mut buf, prefix.as_str());
            },
            ReplySpaceRule::DedicatedPrefix { prefix } => {
                push_tag(&mut buf, 2);
                push_text(&mut buf, prefix.as_str());
            },
        }
        push_text(&mut buf, self.service_class.as_str());
        push_u64(&mut buf, self.capability_fingerprint);
        push_u64(&mut buf, self.issued_at.as_nanos());
        match &self.timeout {
            Some(d) => {
                push_tag(&mut buf, 1);
                push_duration(&mut buf, d);
            },
            None => push_tag(&mut buf, 0),
        }
        assert(buf@ =~= request_bytes(*self));
        fnv1a_bytes(buf.as_slice())
    }
}

/// Certificate that a reply was produced and committed before delivery to
/// the caller.
#[derive(Debug, Clone, PartialEq, Eq)]
pub struct ReplyCertificate {
    /// Request ID this reply corresponds to.
    pub request_id: String,
    /// Callee identity that produced the reply.
    pub callee: String,
    /// Delivery class of the original request.
    pub delivery_class: DeliveryClass,
    /// Obligation ID if the reply was tracked by the ledger.
    pub service_obligation_id: Option<ObligationId>,
    /// Digest of the reply payload for integrity verification.
    pub payload_digest: u64,
    /// Whether the reply is chunked (streamed) rather than unary.
    pub is_chunked: bool,
    /// Total chunks if this is a chunked reply.
    pub total_chunks: Option<u32>,
    /// When the reply certificate was issued.
    pub issued_at: Time,
    /// Time between request admission and reply production.
    pub service_latency: Duration,
}

/// The bytes a reply certificate's digest covers, field by field.
pub open spec fn reply_bytes(c: ReplyCertificate) -> Seq<u8> {
    text_bytes(c.request_id@) + text_bytes(c.callee@) + seq![class_rank(c.delivery_class) as u8]
        + opt_id_bytes(c.service_obligation_id) + u64_bytes(c.payload_digest)
        + seq![if c.is_chunked { 1u8 } else { 0u8 }] + opt_count_bytes(c.total_chunks)
        + u64_bytes(c.issued_at.nanos_spec()) + duration_bytes(c.service_latency)
}

impl ReplyCertificate {
    /// A unary reply certificate for a committed reply; the payload digest
    /// is the FNV-1a hash of the payload.
    pub fn from_commit(commit: &ServiceReplyCommit, callee: String, issued_at: Time, service_latency: Duration) -> (c: Self)
        ensures
            c.request_id@ == commit.request_id@,
            c.callee == callee,
            c.delivery_class == commit.delivery_class,
            c.service_obligation_id == commit.service_obligation_id,
            c.payload_digest == fnv1a(commit.payload@),
            !c.is_chunked,
            c.total_chunks is None,
            c.issued_at == issued_at,
            c.service_latency == service_latency,
    {
        let payload_digest = fnv1a_bytes(commit.payload.as_slice());
        ReplyCertificate {
            request_id: copy_string(&commit.request_id),
            callee,
            delivery_class: commit.delivery_class,
            service_obligation_id: commit.service_obligation_id,
            payload_digest,
            is_chunked: false,
            total_chunks: None,
            issued_at,
            service_latency,
        }
    }

    /// Checks that the request id and callee are not blank and that a
    /// chunked reply declares its chunk count.
    pub fn validate(&self) -> (r: Result<(), ServiceObligationError>)
        ensures
            r is Ok <==> !blank(self.request_id@) && !blank(self.callee@) && !(self.is_chunked && self.total_chunks is None),
            r matches Err(e) ==> if blank(self.request_id@) {
                empty_field(e, "request_id"@)
            } else if blank(self.callee@) {
                empty_field(e, "callee"@)
            } else {
                e is ChunkedReplyMissingCount
            },
    {
        check_text("request_id", self.request_id.as_str())?;
        check_text("callee", self.callee.as_str())?;
        if self.is_chunked && self.total_chunks.is_none() {
            return Err(ServiceObligationError::ChunkedReplyMissingCount);
        }
        Ok(())
    }

    /// Deterministic digest of the certificate: 64-bit FNV-1a over the
    /// certificate's fields in order.
    pub fn digest(&self) -> (h: u64)
        ensures
            h == fnv1a(reply_bytes(*self)),
    {
        let mut buf: Vec<u8> = Vec::new();
        push_text(&mut buf, self.request_id.as_str());
        push_text(&mut buf, self.callee.as_str());
        push_tag(&mut buf, self.delivery_class.rank());
        match self.service_obligation_id {
            Some(id) => {
                push_tag(&mut buf, 1);
                push_u64(&mut buf, id.raw());
            },
            None => push_tag(&mut buf, 0),
        }
        push_u64(&mut buf, self.payload_digest);
        push_tag(&mut buf, if self.is_chunked { 1 } else { 0 });
        match self.total_chunks {
            Some(n) => {
                push_tag(&mut buf, 1);
                push_u64(&mut buf, n as u64);
            },
            None => push_tag(&mut buf, 0),
        }
        push_u64(&mut buf, self.issued_at.as_nanos());
        push_duration(&mut buf, &self.service_latency);
        assert(buf@ =~= reply_bytes(*self));
        fnv1a_bytes(buf.as_slice())
    }
}

// ─── Chunked replies ───────────────────────────────────────────────────────

/// Obligation family for a chunked (streamed) reply: counts the chunks
/// received and refuses more than a bounded stream declared, and a
/// finalization before all of them arrived.
#[derive(Debug)]
pub struct ChunkedReplyObligation {
    /// Family identifier for the chunk obligation set.
    pub family_id: String,
    /// Parent service obligation ID.
    pub service_obligation_id: Option<ObligationId>,
    /// Request ID this chunked reply belongs to.
    pub request_id: String,
    /// Total expected chunks (unknown for unbounded streams).
    pub expected_chunks: Option<u32>,
    received_chunks: u32,
    finalized: bool,
    /// Delivery class governing chunk obligations.
    pub delivery_class: DeliveryClass,
    /// Delivery boundary for per-chunk acknowledgement.
    pub chunk_ack_boundary: AckKind,
}

impl ChunkedReplyObligation {
    /// Chunks received so far.
    pub closed spec fn received(self) -> u32 {
        self.received_chunks
    }

    /// Whether the stream is finalized.
    pub closed spec fn done(self) -> bool {
        self.finalized
    }

    /// The family identifier.
    pub closed spec fn family_spec(self) -> String {
        self.family_id
    }

    /// The request identifier.
    pub closed spec fn request_spec(self) -> String {
        self.request_id
    }

    /// The parent service obligation.
    pub closed spec fn obligation_spec(self) -> Option<ObligationId> {
        self.service_obligation_id
    }

    /// The declared chunk count.
    pub closed spec fn expected_spec(self) -> Option<u32> {
        self.expected_chunks
    }

    /// The delivery class.
    pub closed spec fn class_spec(self) -> DeliveryClass {
        self.delivery_class
    }

    /// The per-chunk acknowledgement boundary.
    pub closed spec fn boundary_spec(self) -> AckKind {
        self.chunk_ack_boundary
    }

    /// A bounded stream never holds more chunks than it declared.
    pub closed spec fn wf(self) -> bool {
        self.expected_chunks matches Some(e) ==> self.received() <= e
    }

    /// A new chunked reply family: refused when the family or request id is
    /// blank, or when zero chunks are expected.
    pub fn new(
        family_id: String,
        request_id: String,
        service_obligation_id: Option<ObligationId>,
        expected_chunks: Option<u32>,
        delivery_class: DeliveryClass,
        chunk_ack_boundary: AckKind,
    ) -> (r: Result<Self, ServiceObligationError>)
        ensures
            r is Ok <==> !blank(family_id@) && !blank(request_id@) && expected_chunks != Some(0u32),
            r matches Err(e) ==> if blank(family_id@) {
                empty_field(e, "family_id"@)
            } else if blank(request_id@) {
                empty_field(e, "request_id"@)
            } else {
                e is ChunkedReplyZeroExpected
            },
            r matches Ok(c) ==> {
                &&& c.family_spec() == family_id
                &&& c.request_spec() == request_id
                &&& c.obligation_spec() == service_obligation_id
                &&& c.expected_spec() == expected_chunks
                &&& c.class_spec() == delivery_class
                &&& c.boundary_spec() == chunk_ack_boundary
                &&& c.received() == 0
                &&& !c.done()
                &&& c.wf()
            },
    {
        check_text("family_id", family_id.as_str())?;
        check_text("request_id", request_id.as_str())?;
        if expected_chunks == Some(0u32) {
            return Err(ServiceObligationError::ChunkedReplyZeroExpected);
        }
        Ok(ChunkedReplyObligation {
            family_id,
            service_obligation_id,
            request_id,
            expected_chunks,
            received_chunks: 0,
            finalized: false,
            delivery_class,
            chunk_ack_boundary,
        })
    }

    /// Records one chunk and returns its 0-based index; refused on a
    /// finalized stream and past a bounded stream's declared count.
    pub fn receive_chunk(&mut self) -> (r: Result<u32, ServiceObligationError>)
        requires
            old(self).done() || old(self).received() < u32::MAX,
        ensures
            final(self).expected_spec() == old(self).expected_spec(),
            final(self).done() == old(self).done(),
            old(self).wf() ==> final(self).wf(),
            match r {
                Ok(i) => {
                    &&& !old(self).done()
                    &&& !(old(self).expected_spec() matches Some(e) && old(self).received() >= e)
                    &&& i == old(self).received()
                    &&& final(self).received() == old(self).received() + 1
                },
                Err(e) => {
                    &&& final(self).received() == old(self).received()
                    &&& if old(self).done() {
                        e == ServiceObligationError::AlreadyResolved { operation: "receive chunk on finalized stream" }
                    } else {
                        old(self).expected_spec() matches Some(x) && old(self).received() >= x
                            && e == ServiceObligationError::ChunkedReplyOverflow { expected: x, received: (old(self).received() + 1) as u32 }
                    }
                },
            },
    {
        if self.finalized {
            return Err(ServiceObligationError::AlreadyResolved { operation: "receive chunk on finalized stream" });
        }
        if let Some(expected) = self.expected_chunks {
            if self.received_chunks >= expected {
                return Err(ServiceObligationError::ChunkedReplyOverflow { expected, received: self.received_chunks + 1 });
            }
        }
        let index = self.received_chunks;
        self.received_chunks = self.received_chunks + 1;
        Ok(index)
    }

    /// Finalizes the stream and returns the number of chunks received;
    /// refused when already finalized and when a bounded stream is missing
    /// chunks.
    pub fn finalize(&mut self) -> (r: Result<u32, ServiceObligationError>)
        ensures
            final(self).expected_spec() == old(self).expected_spec(),
            final(self).received() == old(self).received(),
            match r {
                Ok(n) => {
                    &&& !old(self).done()
                    &&& !(old(self).expected_spec() matches Some(e) && old(self).received() != e)
                    &&& n == old(self).received()
                    &&& final(self).done()
                },
                Err(e) => {
                    &&& final(self).done() == old(self).done()
                    &&& if old(self).done() {
                        e == ServiceObligationError::AlreadyResolved { operation: "finalize chunked reply" }
                    } else {
                        old(self).expected_spec() matches Some(x) && old(self).received() != x
                            && e == ServiceObligationError::ChunkedReplyIncomplete { expected: x, received: old(self).received() }
                    }
                },
            },
    {
        if self.finalized {
            return Err(ServiceObligationError::AlreadyResolved { operation: "finalize chunked reply" });
        }
        if let Some(expected) = self.expected_chunks {
            if self.received_chunks != expected {
                return Err(ServiceObligationError::ChunkedReplyIncomplete { expected, received: self.received_chunks });
            }
        }
        self.finalized = true;
        Ok(self.received_chunks)
    }

    /// Whether a bounded stream has received all its chunks (an unbounded
    /// stream never is complete).
    pub fn is_complete(&self) -> (b: bool)
        ensures
            b == (self.expected_spec() matches Some(e) && self.received() >= e),
    {
        match self.expected_chunks {
            Some(expected) => self.received_chunks >= expected,
            None => false,
        }
    }

    /// Number of chunks received so far.
    pub fn received_chunks(&self) -> (n: u32)
        ensures
            n == self.received(),
    {
        self.received_chunks
    }

    /// Whether the stream has been finalized.
    pub fn is_finalized(&self) -> (b: bool)
        ensures
            b == self.done(),
    {
        self.finalized
    }

    /// A chunked reply certificate for the finalized stream, carrying the
    /// chunk count; refused before finalization and for a bounded stream
    /// missing chunks.
    pub fn certificate(
        &self,
        callee: String,
        payload_digest: u64,
        issued_at: Time,
        service_latency: Duration,
    ) -> (r: Result<ReplyCertificate, ServiceObligationError>)
        ensures
            match r {
                Ok(c) => {
                    &&& self.done()
                    &&& !(self.expected_spec() matches Some(e) && self.received() != e)
                    &&& c.request_id@ == self.request_spec()@
                    &&& c.callee == callee
                    &&& c.delivery_class == self.class_spec()
                    &&& c.service_obligation_id == self.obligation_spec()
                    &&& c.payload_digest == payload_digest
                    &&& c.is_chunked
                    &&& c.total_chunks == Some(self.received())
                    &&& c.issued_at == issued_at
                    &&& c.service_latency == service_latency
                },
                Err(e) => if !self.done() {
                    e is ChunkedReplyNotFinalized
                } else {
                    self.expected_spec() matches Some(x) && self.received() != x
                        && e == ServiceObligationError::ChunkedReplyIncomplete { expected: x, received: self.received() }
                },
            },
    {
        if !self.finalized {
            return Err(ServiceObligationError::ChunkedReplyNotFinalized);
        }
        if let Some(expected) = self.expected_chunks {
            if self.received_chunks != expected {
                return Err(ServiceObligationError::ChunkedReplyIncomplete { expected, received: self.received_chunks });
            }
        }
        Ok(ReplyCertificate {
            request_id: copy_string(&self.request_id),
            callee,
            delivery_class: self.delivery_class,
            service_obligation_id: self.service_obligation_id,
            payload_digest,
            is_chunked: true,
            total_chunks: Some(self.received_chunks),
            issued_at,
            service_latency,
        })
    }
}

/// A bounded chunked reply can be finalized exactly when every declared
/// chunk arrived, and it then certifies exactly that many chunks.
pub proof fn law_bounded_stream_finalizes_complete(c: ChunkedReplyObligation, e: u32)
    requires
        c.expected_spec() == Some(e),
        c.wf(),
    ensures
        (c.received() == e) <==> (c.expected_spec() matches Some(x) && c.received() >= x),
{
}

} // verus!
