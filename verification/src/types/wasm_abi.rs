//! Versioned WASM ABI contract for the JS/TS boundary.
//!
//! Version compatibility decisions, the boundary symbol set and payload
//! shapes, outcome/error/cancellation encoding across the boundary,
//! ownership state transitions for boundary handles, and a deterministic
//! fingerprint of the signature table for drift detection.

use vstd::prelude::*;
use crate::lab::seed::fnv1a;
use crate::messaging::service::u64_bytes;
use crate::text::{bool_string, bool_text, copy_string, decimal, decimal_text, owned, push_str};
use crate::text_map::{with_entry, TextMap};
use crate::types::outcome::{cancel_kind_word, cancel_phase_word, CancelPhase, CancelReason, Outcome};

verus! {

/// Current ABI major version.
pub const WASM_ABI_MAJOR_VERSION: u16 = 1;
/// Current ABI minor version.
pub const WASM_ABI_MINOR_VERSION: u16 = 0;

/// Fingerprint of the v1 signature table; any change to the table needs
/// an explicit compatibility decision and a new value here.
pub const WASM_ABI_SIGNATURE_FINGERPRINT_V1: u64 = 13_961_637_348_226_756_227;

/// Semantic ABI version used by the JS package and wasm artifact.
#[derive(Debug, Clone, Copy, PartialEq, Eq, Hash, Structural)]
pub struct WasmAbiVersion {
    /// Semver major. Breaking ABI changes must bump this.
    pub major: u16,
    /// Semver minor. Backward-compatible additive changes bump this.
    pub minor: u16,
}

impl WasmAbiVersion {
    /// The current ABI version.
    pub fn current() -> (v: Self)
        ensures
            v == (WasmAbiVersion { major: WASM_ABI_MAJOR_VERSION, minor: WASM_ABI_MINOR_VERSION }),
    {
        WasmAbiVersion { major: WASM_ABI_MAJOR_VERSION, minor: WASM_ABI_MINOR_VERSION }
    }

    /// Text `major.minor`.
    pub fn to_string(&self) -> (s: String)
        ensures
            s@ == decimal(self.major as nat) + seq!['.'] + decimal(self.minor as nat),
    {
        let mut s = decimal_text(self.major as u64);
        crate::text::push_char(&mut s, '.');
        let m = decimal_text(self.minor as u64);
        push_str(&mut s, m.as_str());
        s
    }
}

/// Result of ABI compatibility negotiation between producer and consumer.
#[derive(Debug, Clone, Copy, PartialEq, Eq, Hash, Structural)]
pub enum WasmAbiCompatibilityDecision {
    /// Exact major/minor match.
    Exact,
    /// Consumer is newer but backward compatible with producer.
    BackwardCompatible {
        /// Producer minor version.
        producer_minor: u16,
        /// Consumer minor version.
        consumer_minor: u16,
    },
    /// Major version mismatch (always incompatible).
    MajorMismatch {
        /// Producer major version.
        producer_major: u16,
        /// Consumer major version.
        consumer_major: u16,
    },
    /// Same major, but consumer is too old for producer minor.
    ConsumerTooOld {
        /// Producer minor version.
        producer_minor: u16,
        /// Consumer minor version.
        consumer_minor: u16,
    },
}

/// Machine-readable name of a compatibility decision.
pub open spec fn decision_name_spec(d: WasmAbiCompatibilityDecision) -> Seq<char> {
    match d {
        WasmAbiCompatibilityDecision::Exact => "exact"@,
        WasmAbiCompatibilityDecision::BackwardCompatible { .. } => "backward_compatible"@,
        WasmAbiCompatibilityDecision::MajorMismatch { .. } => "major_mismatch"@,
        WasmAbiCompatibilityDecision::ConsumerTooOld { .. } => "consumer_too_old"@,
    }
}

impl WasmAbiCompatibilityDecision {
    /// Whether the decision allows the pairing.
    pub fn is_compatible(self) -> (b: bool)
        ensures
            b == (self is Exact || self is BackwardCompatible),
    {
        matches!(self, WasmAbiCompatibilityDecision::Exact | WasmAbiCompatibilityDecision::BackwardCompatible { .. })
    }

    /// Stable, machine-readable decision name for structured logs.
    pub fn decision_name(self) -> (s: &'static str)
        ensures
            s@ == decision_name_spec(self),
    {
        match self {
            WasmAbiCompatibilityDecision::Exact => "exact",
            WasmAbiCompatibilityDecision::BackwardCompatible { .. } => "backward_compatible",
            WasmAbiCompatibilityDecision::MajorMismatch { .. } => "major_mismatch",
            WasmAbiCompatibilityDecision::ConsumerTooOld { .. } => "consumer_too_old",
        }
    }
}

/// Compatibility between a producer ABI and a consumer ABI: a major
/// mismatch is incompatible; with equal majors an older consumer minor is
/// too old, an equal minor is exact and a newer one is backward
/// compatible.
pub fn classify_wasm_abi_compatibility(producer: WasmAbiVersion, consumer: WasmAbiVersion) -> (d: WasmAbiCompatibilityDecision)
    ensures
        d == (if producer.major != consumer.major {
            WasmAbiCompatibilityDecision::MajorMismatch { producer_major: producer.major, consumer_major: consumer.major }
        } else if consumer.minor < producer.minor {
            WasmAbiCompatibilityDecision::ConsumerTooOld { producer_minor: producer.minor, consumer_minor: consumer.minor }
        } else if consumer.minor == producer.minor {
            WasmAbiCompatibilityDecision::Exact
        } else {
            WasmAbiCompatibilityDecision::BackwardCompatible { producer_minor: producer.minor, consumer_minor: consumer.minor }
        }),
{
    if producer.major != consumer.major {
        return WasmAbiCompatibilityDecision::MajorMismatch { producer_major: producer.major, consumer_major: consumer.major };
    }
    if consumer.minor < producer.minor {
        return WasmAbiCompatibilityDecision::ConsumerTooOld { producer_minor: producer.minor, consumer_minor: consumer.minor };
    }
    if consumer.minor == producer.minor {
        WasmAbiCompatibilityDecision::Exact
    } else {
        WasmAbiCompatibilityDecision::BackwardCompatible { producer_minor: producer.minor, consumer_minor: consumer.minor }
    }
}

/// A consumer can use a producer's ABI exactly when the majors agree and
/// the consumer's minor is at least the producer's.
pub proof fn law_compatibility_is_same_major_newer_minor(producer: WasmAbiVersion, consumer: WasmAbiVersion, d: WasmAbiCompatibilityDecision)
    requires
        d == (if producer.major != consumer.major {
            WasmAbiCompatibilityDecision::MajorMismatch { producer_major: producer.major, consumer_major: consumer.major }
        } else if consumer.minor < producer.minor {
            WasmAbiCompatibilityDecision::ConsumerTooOld { producer_minor: producer.minor, consumer_minor: consumer.minor }
        } else if consumer.minor == producer.minor {
            WasmAbiCompatibilityDecision::Exact
        } else {
            WasmAbiCompatibilityDecision::BackwardCompatible { producer_minor: producer.minor, consumer_minor: consumer.minor }
        }),
    ensures
        (d is Exact || d is BackwardCompatible) <==> (producer.major == consumer.major && consumer.minor >= producer.minor),
{
}

/// ABI change class used to decide the required version bump.
#[derive(Debug, Clone, Copy, PartialEq, Eq, Hash, Structural)]
pub enum WasmAbiChangeClass {
    /// Additive field in existing payload shape.
    AdditiveField,
    /// Additive symbol/function with no behavior change to existing symbols.
    AdditiveSymbol,
    /// Tightening validation or preconditions with same wire format.
    BehavioralTightening,
    /// Relaxing behavior with same wire format.
    BehavioralRelaxation,
    /// Removing/renaming existing symbol.
    SymbolRemoval,
    /// Changing wire layout/encoding of existing payload.
    ValueEncodingChange,
    /// Reinterpreting outcome/error semantics.
    OutcomeSemanticChange,
    /// Reinterpreting cancellation semantics.
    CancellationSemanticChange,
}

/// Required semantic version bump for a change class.
#[derive(Debug, Clone, Copy, PartialEq, Eq, Hash, Structural)]
pub enum WasmAbiVersionBump {
    /// No version bump required.
    NoBump,
    /// Minor bump required.
    Minor,
    /// Major bump required.
    Major,
}

/// The bump a change needs: additive changes and relaxations are minor,
/// everything else is major.
pub fn required_wasm_abi_bump(change: WasmAbiChangeClass) -> (b: WasmAbiVersionBump)
    ensures
        b == (if change is AdditiveField || change is AdditiveSymbol || change is BehavioralRelaxation {
            WasmAbiVersionBump::Minor
        } else {
            WasmAbiVersionBump::Major
        }),
{
    match change {
        WasmAbiChangeClass::AdditiveField
        | WasmAbiChangeClass::AdditiveSymbol
        | WasmAbiChangeClass::BehavioralRelaxation => WasmAbiVersionBump::Minor,
        _ => WasmAbiVersionBump::Major,
    }
}

/// Stable boundary symbols exported by the WASM adapter.
#[derive(Debug, Clone, Copy, PartialEq, Eq, Hash, Structural)]
pub enum WasmAbiSymbol {
    /// Create a runtime.
    RuntimeCreate,
    /// Close a runtime.
    RuntimeClose,
    /// Enter a scope.
    ScopeEnter,
    /// Close a scope.
    ScopeClose,
    /// Spawn a task.
    TaskSpawn,
    /// Join a task.
    TaskJoin,
    /// Cancel a task.
    TaskCancel,
    /// Issue a fetch request.
    FetchRequest,
}

/// Stable name of a boundary symbol.
pub open spec fn symbol_name(s: WasmAbiSymbol) -> Seq<char> {
    match s {
        WasmAbiSymbol::RuntimeCreate => "runtime_create"@,
        WasmAbiSymbol::RuntimeClose => "runtime_close"@,
        WasmAbiSymbol::ScopeEnter => "scope_enter"@,
        WasmAbiSymbol::ScopeClose => "scope_close"@,
        WasmAbiSymbol::TaskSpawn => "task_spawn"@,
        WasmAbiSymbol::TaskJoin => "task_join"@,
        WasmAbiSymbol::TaskCancel => "task_cancel"@,
        WasmAbiSymbol::FetchRequest => "fetch_request"@,
    }
}

impl WasmAbiSymbol {
    /// Stable symbol name used in diagnostics and JS package tables.
    pub fn as_str(self) -> (s: &'static str)
        ensures
            s@ == symbol_name(self),
    {
        match self {
            WasmAbiSymbol::RuntimeCreate => "runtime_create",
            WasmAbiSymbol::RuntimeClose => "runtime_close",
            WasmAbiSymbol::ScopeEnter => "scope_enter",
            WasmAbiSymbol::ScopeClose => "scope_close",
            WasmAbiSymbol::TaskSpawn => "task_spawn",
            WasmAbiSymbol::TaskJoin => "task_join",
            WasmAbiSymbol::TaskCancel => "task_cancel",
            WasmAbiSymbol::FetchRequest => "fetch_request",
        }
    }
}

/// Boundary payload shape classes (wire-format contracts).
#[derive(Debug, Clone, Copy, PartialEq, Eq, Hash, Structural)]
pub enum WasmAbiPayloadShape {
    /// No payload.
    Empty,
    /// A handle reference.
    HandleRefV1,
    /// A scope-enter request.
    ScopeEnterRequestV1,
    /// A spawn request.
    SpawnRequestV1,
    /// A cancel request.
    CancelRequestV1,
    /// A fetch request.
    FetchRequestV1,
    /// An outcome envelope.
    OutcomeEnvelopeV1,
}

/// Contract signature tuple for one ABI symbol.
#[derive(Debug, Clone, Copy, PartialEq, Eq, Hash, Structural)]
pub struct WasmAbiSignature {
    /// Stable symbol.
    pub symbol: WasmAbiSymbol,
    /// Request payload shape.
    pub request: WasmAbiPayloadShape,
    /// Response payload shape.
    pub response: WasmAbiPayloadShape,
}

/// Position of a symbol in declaration order.
pub open spec fn symbol_tag(s: WasmAbiSymbol) -> u64 {
    match s {
        WasmAbiSymbol::RuntimeCreate => 0,
        WasmAbiSymbol::RuntimeClose => 1,
        WasmAbiSymbol::ScopeEnter => 2,
        WasmAbiSymbol::ScopeClose => 3,
        WasmAbiSymbol::TaskSpawn => 4,
        WasmAbiSymbol::TaskJoin => 5,
        WasmAbiSymbol::TaskCancel => 6,
        WasmAbiSymbol::FetchRequest => 7,
    }
}

/// Position of a payload shape in declaration order.
pub open spec fn shape_tag(s: WasmAbiPayloadShape) -> u64 {
    match s {
        WasmAbiPayloadShape::Empty => 0,
        WasmAbiPayloadShape::HandleRefV1 => 1,
        WasmAbiPayloadShape::ScopeEnterRequestV1 => 2,
        WasmAbiPayloadShape::SpawnRequestV1 => 3,
        WasmAbiPayloadShape::CancelRequestV1 => 4,
        WasmAbiPayloadShape::FetchRequestV1 => 5,
        WasmAbiPayloadShape::OutcomeEnvelopeV1 => 6,
    }
}

/// Bytes a signature contributes to the fingerprint: the tags of its
/// symbol, request shape and response shape, each as 8 little-endian bytes.
pub open spec fn signature_bytes(s: WasmAbiSignature) -> Seq<u8> {
    u64_bytes(symbol_tag(s.symbol)) + u64_bytes(shape_tag(s.request)) + u64_bytes(shape_tag(s.response))
}

/// Bytes of a signature table, in order.
pub open spec fn table_bytes(t: Seq<WasmAbiSignature>) -> Seq<u8>
    decreases t.len(),
{
    if t.len() == 0 { Seq::empty() } else { table_bytes(t.drop_last()) + signature_bytes(t.last()) }
}

/// The canonical v1 symbol table.
pub open spec fn signatures_v1() -> Seq<WasmAbiSignature> {
    seq![
        WasmAbiSignature { symbol: WasmAbiSymbol::RuntimeCreate, request: WasmAbiPayloadShape::Empty, response: WasmAbiPayloadShape::HandleRefV1 },
        WasmAbiSignature { symbol: WasmAbiSymbol::RuntimeClose, request: WasmAbiPayloadShape::HandleRefV1, response: WasmAbiPayloadShape::OutcomeEnvelopeV1 },
        WasmAbiSignature { symbol: WasmAbiSymbol::ScopeEnter, request: WasmAbiPayloadShape::ScopeEnterRequestV1, response: WasmAbiPayloadShape::HandleRefV1 },
        WasmAbiSignature { symbol: WasmAbiSymbol::ScopeClose, request: WasmAbiPayloadShape::HandleRefV1, response: WasmAbiPayloadShape::OutcomeEnvelopeV1 },
        WasmAbiSignature { symbol: WasmAbiSymbol::TaskSpawn, request: WasmAbiPayloadShape::SpawnRequestV1, response: WasmAbiPayloadShape::HandleRefV1 },
        WasmAbiSignature { symbol: WasmAbiSymbol::TaskJoin, request: WasmAbiPayloadShape::HandleRefV1, response: WasmAbiPayloadShape::OutcomeEnvelopeV1 },
        WasmAbiSignature { symbol: WasmAbiSymbol::TaskCancel, request: WasmAbiPayloadShape::CancelRequestV1, response: WasmAbiPayloadShape::OutcomeEnvelopeV1 },
        WasmAbiSignature { symbol: WasmAbiSymbol::FetchRequest, request: WasmAbiPayloadShape::FetchRequestV1, response: WasmAbiPayloadShape::OutcomeEnvelopeV1 },
    ]
}

/// The canonical v1 symbol table.
pub fn wasm_abi_signatures_v1() -> (t: [WasmAbiSignature; 8])
    ensures
        t@ == signatures_v1(),
{
    let t = [
        WasmAbiSignature { symbol: WasmAbiSymbol::RuntimeCreate, request: WasmAbiPayloadShape::Empty, response: WasmAbiPayloadShape::HandleRefV1 },
        WasmAbiSignature { symbol: WasmAbiSymbol::RuntimeClose, request: WasmAbiPayloadShape::HandleRefV1, response: WasmAbiPayloadShape::OutcomeEnvelopeV1 },
        WasmAbiSignature { symbol: WasmAbiSymbol::ScopeEnter, request: WasmAbiPayloadShape::ScopeEnterRequestV1, response: WasmAbiPayloadShape::HandleRefV1 },
        WasmAbiSignature { symbol: WasmAbiSymbol::ScopeClose, request: WasmAbiPayloadShape::HandleRefV1, response: WasmAbiPayloadShape::OutcomeEnvelopeV1 },
        WasmAbiSignature { symbol: WasmAbiSymbol::TaskSpawn, request: WasmAbiPayloadShape::SpawnRequestV1, response: WasmAbiPayloadShape::HandleRefV1 },
        WasmAbiSignature { symbol: WasmAbiSymbol::TaskJoin, request: WasmAbiPayloadShape::HandleRefV1, response: WasmAbiPayloadShape::OutcomeEnvelopeV1 },
        WasmAbiSignature { symbol: WasmAbiSymbol::TaskCancel, request: WasmAbiPayloadShape::CancelRequestV1, response: WasmAbiPayloadShape::OutcomeEnvelopeV1 },
        WasmAbiSignature { symbol: WasmAbiSymbol::FetchRequest, request: WasmAbiPayloadShape::FetchRequestV1, response: WasmAbiPayloadShape::OutcomeEnvelopeV1 },
    ];
    assert(t@ =~= signatures_v1());
    t
}

fn symbol_tag_exec(s: WasmAbiSymbol) -> (t: u64)
    ensures
        t == symbol_tag(s),
{
    match s {
        WasmAbiSymbol::RuntimeCreate => 0,
        WasmAbiSymbol::RuntimeClose => 1,
        WasmAbiSymbol::ScopeEnter => 2,
        WasmAbiSymbol::ScopeClose => 3,
        WasmAbiSymbol::TaskSpawn => 4,
        WasmAbiSymbol::TaskJoin => 5,
        WasmAbiSymbol::TaskCancel => 6,
        WasmAbiSymbol::FetchRequest => 7,
    }
}

fn shape_tag_exec(s: WasmAbiPayloadShape) -> (t: u64)
    ensures
        t == shape_tag(s),
{
    match s {
        WasmAbiPayloadShape::Empty => 0,
        WasmAbiPayloadShape::HandleRefV1 => 1,
        WasmAbiPayloadShape::ScopeEnterRequestV1 => 2,
        WasmAbiPayloadShape::SpawnRequestV1 => 3,
        WasmAbiPayloadShape::CancelRequestV1 => 4,
        WasmAbiPayloadShape::FetchRequestV1 => 5,
        WasmAbiPayloadShape::OutcomeEnvelopeV1 => 6,
    }
}

/// Deterministic fingerprint of a signature table (64-bit FNV-1a of its
/// bytes), used to detect contract drift.
pub fn wasm_abi_signature_fingerprint(signatures: &[WasmAbiSignature]) -> (h: u64)
    ensures
        h == fnv1a(table_bytes(signatures@)),
{
    let mut buf: Vec<u8> = Vec::new();
    let mut i: usize = 0;
    assert(signatures@.take(0) =~= Seq::<WasmAbiSignature>::empty());
    while i < signatures.len()
        invariant
            i <= signatures.len(),
            buf@ == table_bytes(signatures@.take(i as int)),
        decreases signatures.len() - i,
    {
        let s = signatures[i];
        let ghost before = buf@;
        crate::messaging::service::push_u64(&mut buf, symbol_tag_exec(s.symbol));
        crate::messaging::service::push_u64(&mut buf, shape_tag_exec(s.request));
        crate::messaging::service::push_u64(&mut buf, shape_tag_exec(s.response));
        assert(signatures@.take(i + 1).drop_last() =~= signatures@.take(i as int));
        assert(buf@ =~= before + signature_bytes(s));
        i = i + 1;
    }
    assert(signatures@.take(signatures.len() as int) =~= signatures@);
    crate::lab::seed::fnv1a_bytes(buf.as_slice())
}


/// Handle classes surfaced by the wasm boundary.
#[derive(Debug, Clone, Copy, PartialEq, Eq, Hash, Structural)]
pub enum WasmHandleKind {
    /// A runtime.
    Runtime,
    /// A region.
    Region,
    /// A task.
    Task,
    /// A cancel token.
    CancelToken,
    /// A fetch request.
    FetchRequest,
}

/// Encoded handle reference crossing the JS/WASM boundary.
#[derive(Debug, Clone, Copy, PartialEq, Eq, Hash, Structural)]
pub struct WasmHandleRef {
    /// Logical handle class.
    pub kind: WasmHandleKind,
    /// Stable slot/index.
    pub slot: u32,
    /// Generation counter for stale-handle rejection.
    pub generation: u32,
}

/// JS/WASM wire value.
#[derive(Debug, Clone, PartialEq, Eq)]
pub enum WasmAbiValue {
    /// No value.
    Unit,
    /// A boolean.
    Bool(bool),
    /// A signed integer.
    I64(i64),
    /// An unsigned integer.
    U64(u64),
    /// A string.
    String(String),
    /// Raw bytes.
    Bytes(Vec<u8>),
    /// A handle.
    Handle(WasmHandleRef),
}

/// Error code classes for boundary failures.
#[derive(Debug, Clone, Copy, PartialEq, Eq, Hash, Structural)]
pub enum WasmAbiErrorCode {
    /// A capability was missing.
    CapabilityDenied,
    /// A handle was stale or unknown.
    InvalidHandle,
    /// A payload could not be decoded.
    DecodeFailure,
    /// Version negotiation rejected the call.
    CompatibilityRejected,
    /// An internal failure.
    InternalFailure,
}

/// Recoverability class for boundary failures.
#[derive(Debug, Clone, Copy, PartialEq, Eq, Hash, Structural)]
pub enum WasmAbiRecoverability {
    /// Retrying may succeed.
    Transient,
    /// Retrying will not succeed.
    Permanent,
    /// Unknown.
    Unknown,
}

/// Encoded boundary failure.
#[derive(Debug, Clone, PartialEq, Eq)]
pub struct WasmAbiFailure {
    /// Stable code for programmatic handling.
    pub code: WasmAbiErrorCode,
    /// Retry classification.
    pub recoverability: WasmAbiRecoverability,
    /// Human-readable context.
    pub message: String,
}

/// Encoded cancellation payload for boundary transport.
#[derive(Debug, Clone, PartialEq, Eq)]
pub struct WasmAbiCancellation {
    /// Cancellation kind.
    pub kind: String,
    /// Cancellation phase at boundary observation point.
    pub phase: String,
    /// Origin region identifier (display form).
    pub origin_region: String,
    /// Optional origin task identifier.
    pub origin_task: Option<String>,
    /// Timestamp in abstract runtime nanoseconds.
    pub timestamp_nanos: u64,
    /// Optional operator message.
    pub message: Option<String>,
    /// Whether the attribution chain was truncated.
    pub truncated: bool,
}

/// `c` encodes the reason observed at the phase.
pub open spec fn encodes_cancellation(c: WasmAbiCancellation, reason: CancelReason, phase: CancelPhase) -> bool {
    &&& c.kind@ == cancel_kind_word(reason.kind)
    &&& c.phase@ == cancel_phase_word(phase)
    &&& c.origin_region@ == seq!['R'] + decimal(reason.origin_region.index as nat)
    &&& (match (c.origin_task, reason.origin_task) {
        (Some(t), Some(task)) => t@ == seq!['T'] + decimal(task.index as nat),
        (None, None) => true,
        _ => false,
    })
    &&& c.timestamp_nanos == reason.timestamp.nanos_spec()
    &&& (match (c.message, reason.message) {
        (Some(m), Some(n)) => m@ == n@,
        (None, None) => true,
        _ => false,
    })
    &&& c.truncated == reason.truncated
}

impl WasmAbiCancellation {
    /// The boundary payload of a cancellation reason observed at a phase.
    pub fn from_reason(reason: &CancelReason, phase: CancelPhase) -> (c: Self)
        ensures
            encodes_cancellation(c, *reason, phase),
    {
        WasmAbiCancellation {
            kind: owned(reason.kind.word()),
            phase: owned(phase.word()),
            origin_region: reason.origin_region.to_string(),
            origin_task: match &reason.origin_task {
                Some(t) => Some(t.to_string()),
                None => None,
            },
            timestamp_nanos: reason.timestamp.as_nanos(),
            message: match &reason.message {
                Some(m) => Some(copy_string(m)),
                None => None,
            },
            truncated: reason.truncated,
        }
    }
}

/// Cancellation propagation policy between runtime cancel tokens and the
/// browser `AbortSignal`.
#[derive(Debug, Clone, Copy, PartialEq, Eq, Hash, Structural)]
pub enum WasmAbortPropagationMode {
    /// Runtime cancellation updates the `AbortSignal`, not the reverse.
    RuntimeToAbortSignal,
    /// The `AbortSignal` requests runtime cancellation, not the reverse.
    AbortSignalToRuntime,
    /// Propagate in both directions.
    Bidirectional,
}

impl WasmAbortPropagationMode {
    /// Whether runtime cancellation propagates to the `AbortSignal`.
    pub fn propagates_runtime_to_abort_signal(self) -> (b: bool)
        ensures
            b == (self is RuntimeToAbortSignal || self is Bidirectional),
    {
        matches!(self, WasmAbortPropagationMode::RuntimeToAbortSignal | WasmAbortPropagationMode::Bidirectional)
    }

    /// Whether an `AbortSignal` abort requests runtime cancellation.
    pub fn propagates_abort_signal_to_runtime(self) -> (b: bool)
        ensures
            b == (self is AbortSignalToRuntime || self is Bidirectional),
    {
        matches!(self, WasmAbortPropagationMode::AbortSignalToRuntime | WasmAbortPropagationMode::Bidirectional)
    }
}

/// Ownership/boundary state for JS-visible handles.
#[derive(Debug, Clone, Copy, PartialEq, Eq, Hash, Structural)]
pub enum WasmBoundaryState {
    /// Not bound to a runtime object.
    Unbound,
    /// Bound but idle.
    Bound,
    /// Running work.
    Active,
    /// Cancellation in progress.
    Cancelling,
    /// Finalizers draining.
    Draining,
    /// Closed.
    Closed,
}

/// Snapshot of boundary state used when applying cancel/abort interop rules.
#[derive(Debug, Clone, Copy, PartialEq, Eq, Hash, Structural)]
pub struct WasmAbortInteropSnapshot {
    /// Interop propagation mode.
    pub mode: WasmAbortPropagationMode,
    /// Current boundary lifecycle state.
    pub boundary_state: WasmBoundaryState,
    /// Whether the browser abort signal is already aborted.
    pub abort_signal_aborted: bool,
}

/// Interop update for one cancel/abort step.
#[derive(Debug, Clone, Copy, PartialEq, Eq, Hash, Structural)]
pub struct WasmAbortInteropUpdate {
    /// Next boundary state.
    pub next_boundary_state: WasmBoundaryState,
    /// Updated browser abort state.
    pub abort_signal_aborted: bool,
    /// Whether a JS abort was propagated to runtime cancellation.
    pub propagated_to_runtime: bool,
    /// Whether a runtime cancellation phase was propagated to the abort state.
    pub propagated_to_abort_signal: bool,
}

/// Boundary state a cancellation phase aims at.
pub open spec fn state_for_phase(phase: CancelPhase) -> WasmBoundaryState {
    match phase {
        CancelPhase::Requested | CancelPhase::Cancelling => WasmBoundaryState::Cancelling,
        CancelPhase::Finalizing => WasmBoundaryState::Draining,
        CancelPhase::Completed => WasmBoundaryState::Closed,
    }
}

/// Maps a runtime cancellation phase to the boundary state it aims at.
pub fn wasm_boundary_state_for_cancel_phase(phase: CancelPhase) -> (s: WasmBoundaryState)
    ensures
        s == state_for_phase(phase),
{
    match phase {
        CancelPhase::Requested | CancelPhase::Cancelling => WasmBoundaryState::Cancelling,
        CancelPhase::Finalizing => WasmBoundaryState::Draining,
        CancelPhase::Completed => WasmBoundaryState::Closed,
    }
}

/// Legal boundary transitions: staying put, or one of the lifecycle moves
/// unbound → bound → active → cancelling → draining → closed (with the
/// shortcuts bound → closed, active → draining/closed, cancelling →
/// closed).
pub open spec fn valid_transition(from: WasmBoundaryState, to: WasmBoundaryState) -> bool {
    from == to || match (from, to) {
        (WasmBoundaryState::Unbound, WasmBoundaryState::Bound) => true,
        (WasmBoundaryState::Bound, WasmBoundaryState::Active) => true,
        (WasmBoundaryState::Bound, WasmBoundaryState::Closed) => true,
        (WasmBoundaryState::Active, WasmBoundaryState::Cancelling) => true,
        (WasmBoundaryState::Active, WasmBoundaryState::Draining) => true,
        (WasmBoundaryState::Active, WasmBoundaryState::Closed) => true,
        (WasmBoundaryState::Cancelling, WasmBoundaryState::Draining) => true,
        (WasmBoundaryState::Cancelling, WasmBoundaryState::Closed) => true,
        (WasmBoundaryState::Draining, WasmBoundaryState::Closed) => true,
        _ => false,
    }
}

/// Whether a boundary state transition is legal.
pub fn is_valid_wasm_boundary_transition(from: WasmBoundaryState, to: WasmBoundaryState) -> (b: bool)
    ensures
        b == valid_transition(from, to),
{
    if from == to {
        return true;
    }
    match (from, to) {
        (WasmBoundaryState::Unbound, WasmBoundaryState::Bound) => true,
        (WasmBoundaryState::Bound, WasmBoundaryState::Active) => true,
        (WasmBoundaryState::Bound, WasmBoundaryState::Closed) => true,
        (WasmBoundaryState::Active, WasmBoundaryState::Cancelling) => true,
        (WasmBoundaryState::Active, WasmBoundaryState::Draining) => true,
        (WasmBoundaryState::Active, WasmBoundaryState::Closed) => true,
        (WasmBoundaryState::Cancelling, WasmBoundaryState::Draining) => true,
        (WasmBoundaryState::Cancelling, WasmBoundaryState::Closed) => true,
        (WasmBoundaryState::Draining, WasmBoundaryState::Closed) => true,
        _ => false,
    }
}

/// Error emitted when a boundary state transition violates the contract.
#[derive(Debug, Clone, Copy, PartialEq, Eq, Structural)]
pub enum WasmBoundaryTransitionError {
    /// The transition is not legal.
    Invalid {
        /// Current state.
        from: WasmBoundaryState,
        /// Requested next state.
        to: WasmBoundaryState,
    },
}

/// Checks a state transition against the contract rules.
pub fn validate_wasm_boundary_transition(from: WasmBoundaryState, to: WasmBoundaryState)
    -> (r: Result<(), WasmBoundaryTransitionError>)
    ensures
        r == (if valid_transition(from, to) {
            Ok::<(), WasmBoundaryTransitionError>(())
        } else {
            Err(WasmBoundaryTransitionError::Invalid { from, to })
        }),
{
    if is_valid_wasm_boundary_transition(from, to) {
        Ok(())
    } else {
        Err(WasmBoundaryTransitionError::Invalid { from, to })
    }
}

/// The update an `AbortSignal` abort event causes: it propagates to the
/// runtime only when the mode allows it, the signal was not already
/// aborted and the handle is bound or active; a propagated abort closes a
/// bound handle and starts cancelling an active one.
pub open spec fn abort_event(s: WasmAbortInteropSnapshot) -> WasmAbortInteropUpdate {
    let propagated = (s.mode is AbortSignalToRuntime || s.mode is Bidirectional) && !s.abort_signal_aborted
        && (s.boundary_state is Bound || s.boundary_state is Active);
    let next = if propagated {
        match s.boundary_state {
            WasmBoundaryState::Bound => WasmBoundaryState::Closed,
            WasmBoundaryState::Active => WasmBoundaryState::Cancelling,
            other => other,
        }
    } else {
        s.boundary_state
    };
    WasmAbortInteropUpdate {
        next_boundary_state: next,
        abort_signal_aborted: true,
        propagated_to_runtime: propagated,
        propagated_to_abort_signal: false,
    }
}

/// Applies an `AbortSignal` abort event to boundary state.
pub fn apply_abort_signal_event(snapshot: WasmAbortInteropSnapshot) -> (u: WasmAbortInteropUpdate)
    ensures
        u == abort_event(snapshot),
{
    let propagated_to_runtime = snapshot.mode.propagates_abort_signal_to_runtime()
        && !snapshot.abort_signal_aborted
        && matches!(snapshot.boundary_state, WasmBoundaryState::Bound | WasmBoundaryState::Active);
    let next_boundary_state = if propagated_to_runtime {
        match snapshot.boundary_state {
            WasmBoundaryState::Bound => WasmBoundaryState::Closed,
            WasmBoundaryState::Active => WasmBoundaryState::Cancelling,
            state => state,
        }
    } else {
        snapshot.boundary_state
    };
    WasmAbortInteropUpdate {
        next_boundary_state,
        abort_signal_aborted: true,
        propagated_to_runtime,
        propagated_to_abort_signal: false,
    }
}

/// The update a runtime cancellation phase causes: the boundary moves to
/// the phase's state when that is a legal move (else stays), and the
/// abort signal is raised when the mode propagates runtime cancellation.
pub open spec fn phase_event(s: WasmAbortInteropSnapshot, phase: CancelPhase) -> WasmAbortInteropUpdate {
    let target = state_for_phase(phase);
    let forward = s.mode is RuntimeToAbortSignal || s.mode is Bidirectional;
    WasmAbortInteropUpdate {
        next_boundary_state: if valid_transition(s.boundary_state, target) { target } else { s.boundary_state },
        abort_signal_aborted: s.abort_signal_aborted || forward,
        propagated_to_runtime: false,
        propagated_to_abort_signal: forward && !s.abort_signal_aborted,
    }
}

/// Applies a runtime cancellation phase event to boundary and abort state.
pub fn apply_runtime_cancel_phase_event(snapshot: WasmAbortInteropSnapshot, phase: CancelPhase) -> (u: WasmAbortInteropUpdate)
    ensures
        u == phase_event(snapshot, phase),
{
    let target_state = wasm_boundary_state_for_cancel_phase(phase);
    let next_boundary_state = if snapshot.boundary_state == target_state
        || is_valid_wasm_boundary_transition(snapshot.boundary_state, target_state) {
        target_state
    } else {
        snapshot.boundary_state
    };
    let forward = snapshot.mode.propagates_runtime_to_abort_signal();
    WasmAbortInteropUpdate {
        next_boundary_state,
        abort_signal_aborted: snapshot.abort_signal_aborted || forward,
        propagated_to_runtime: false,
        propagated_to_abort_signal: forward && !snapshot.abort_signal_aborted,
    }
}

/// Lifecycle rank of a boundary state.
pub open spec fn state_rank(s: WasmBoundaryState) -> nat {
    match s {
        WasmBoundaryState::Unbound => 0,
        WasmBoundaryState::Bound => 1,
        WasmBoundaryState::Active => 2,
        WasmBoundaryState::Cancelling => 3,
        WasmBoundaryState::Draining => 4,
        WasmBoundaryState::Closed => 5,
    }
}

/// Boundary handles never move backwards in their lifecycle: every legal
/// transition keeps or raises the state's rank, and a closed handle stays
/// closed.
pub proof fn law_transitions_are_monotone(from: WasmBoundaryState, to: WasmBoundaryState)
    ensures
        valid_transition(from, to) ==> state_rank(from) <= state_rank(to),
        from is Closed && valid_transition(from, to) ==> to is Closed,
{
}

/// The legal moves are exactly: staying put, or moving to a later
/// lifecycle state, except that an unbound handle may only become bound
/// and a bound handle may not start cancelling or draining. In particular
/// every handle that was bound (whatever it went through since) may close.
pub proof fn law_transition_rules(from: WasmBoundaryState, to: WasmBoundaryState)
    ensures
        valid_transition(from, to) <==> (from == to || (state_rank(from) < state_rank(to)
            && (from is Unbound ==> to is Bound)
            && (from is Bound ==> !(to is Cancelling || to is Draining)))),
        !(from is Unbound) ==> valid_transition(from, WasmBoundaryState::Closed),
{
}

/// A cancellation phase moves every handle it can reach to the phase's
/// state: completion closes every handle but an unbound one, finalizing
/// drains every active, cancelling or draining handle, and a request
/// starts cancelling an active or cancelling handle; other handles stay.
pub proof fn law_phase_events_reach_their_state(s: WasmAbortInteropSnapshot)
    ensures
        phase_event(s, CancelPhase::Completed).next_boundary_state
            == (if s.boundary_state is Unbound { WasmBoundaryState::Unbound } else { WasmBoundaryState::Closed }),
        phase_event(s, CancelPhase::Finalizing).next_boundary_state
            == (if s.boundary_state is Active || s.boundary_state is Cancelling || s.boundary_state is Draining {
                WasmBoundaryState::Draining
            } else {
                s.boundary_state
            }),
        phase_event(s, CancelPhase::Requested).next_boundary_state
            == (if s.boundary_state is Active || s.boundary_state is Cancelling {
                WasmBoundaryState::Cancelling
            } else {
                s.boundary_state
            }),
{
}

/// An abort event is idempotent: applying it again to its own result
/// changes nothing and propagates nothing.
pub proof fn law_abort_event_idempotent(s: WasmAbortInteropSnapshot)
    ensures
        ({
            let u = abort_event(s);
            let again = abort_event(WasmAbortInteropSnapshot {
                mode: s.mode,
                boundary_state: u.next_boundary_state,
                abort_signal_aborted: u.abort_signal_aborted,
            });
            &&& again.next_boundary_state == u.next_boundary_state
            &&& again.abort_signal_aborted
            &&& !again.propagated_to_runtime
            &&& !again.propagated_to_abort_signal
        }),
{
}

/// Abort and cancellation events only make legal boundary moves.
pub proof fn law_events_make_legal_moves(s: WasmAbortInteropSnapshot, phase: CancelPhase)
    ensures
        valid_transition(s.boundary_state, abort_event(s).next_boundary_state),
        valid_transition(s.boundary_state, phase_event(s, phase).next_boundary_state),
{
}

/// Encoded outcome envelope for boundary transport.
#[derive(Debug, Clone, PartialEq, Eq)]
pub enum WasmAbiOutcomeEnvelope {
    /// Successful result.
    Completed {
        /// The value.
        value: WasmAbiValue,
    },
    /// Domain or runtime failure.
    Failed {
        /// The failure.
        failure: WasmAbiFailure,
    },
    /// Cancellation protocol result.
    Cancelled {
        /// The cancellation.
        cancellation: WasmAbiCancellation,
    },
    /// Panic surfaced from a boundary task.
    Panicked {
        /// The panic message.
        message: String,
    },
}

impl WasmAbiOutcomeEnvelope {
    /// The boundary envelope of a runtime outcome; a cancellation is
    /// reported at its completed phase.
    pub fn from_outcome(outcome: Outcome<WasmAbiValue, WasmAbiFailure>) -> (e: Self)
        ensures
            match outcome {
                Outcome::Completed(v) => e == (WasmAbiOutcomeEnvelope::Completed { value: v }),
                Outcome::Failed(f) => e == (WasmAbiOutcomeEnvelope::Failed { failure: f }),
                Outcome::Cancelled(reason) => e matches WasmAbiOutcomeEnvelope::Cancelled { cancellation }
                    && encodes_cancellation(cancellation, reason, CancelPhase::Completed),
                Outcome::Panicked(p) => e matches WasmAbiOutcomeEnvelope::Panicked { message } && message@ == p.message@,
            },
    {
        match outcome {
            Outcome::Completed(value) => WasmAbiOutcomeEnvelope::Completed { value },
            Outcome::Failed(failure) => WasmAbiOutcomeEnvelope::Failed { failure },
            Outcome::Cancelled(reason) => WasmAbiOutcomeEnvelope::Cancelled {
                cancellation: WasmAbiCancellation::from_reason(&reason, CancelPhase::Completed),
            },
            Outcome::Panicked(payload) => WasmAbiOutcomeEnvelope::Panicked { message: payload.message() },
        }
    }
}


/// Lower-case name of a payload shape.
pub open spec fn shape_word(s: WasmAbiPayloadShape) -> Seq<char> {
    match s {
        WasmAbiPayloadShape::Empty => "empty"@,
        WasmAbiPayloadShape::HandleRefV1 => "handlerefv1"@,
        WasmAbiPayloadShape::ScopeEnterRequestV1 => "scopeenterrequestv1"@,
        WasmAbiPayloadShape::SpawnRequestV1 => "spawnrequestv1"@,
        WasmAbiPayloadShape::CancelRequestV1 => "cancelrequestv1"@,
        WasmAbiPayloadShape::FetchRequestV1 => "fetchrequestv1"@,
        WasmAbiPayloadShape::OutcomeEnvelopeV1 => "outcomeenvelopev1"@,
    }
}

/// Lower-case name of a boundary state.
pub open spec fn state_word(s: WasmBoundaryState) -> Seq<char> {
    match s {
        WasmBoundaryState::Unbound => "unbound"@,
        WasmBoundaryState::Bound => "bound"@,
        WasmBoundaryState::Active => "active"@,
        WasmBoundaryState::Cancelling => "cancelling"@,
        WasmBoundaryState::Draining => "draining"@,
        WasmBoundaryState::Closed => "closed"@,
    }
}

fn shape_text(s: WasmAbiPayloadShape) -> (r: String)
    ensures
        r@ == shape_word(s),
{
    owned(match s {
        WasmAbiPayloadShape::Empty => "empty",
        WasmAbiPayloadShape::HandleRefV1 => "handlerefv1",
        WasmAbiPayloadShape::ScopeEnterRequestV1 => "scopeenterrequestv1",
        WasmAbiPayloadShape::SpawnRequestV1 => "spawnrequestv1",
        WasmAbiPayloadShape::CancelRequestV1 => "cancelrequestv1",
        WasmAbiPayloadShape::FetchRequestV1 => "fetchrequestv1",
        WasmAbiPayloadShape::OutcomeEnvelopeV1 => "outcomeenvelopev1",
    })
}

fn state_text(s: WasmBoundaryState) -> (r: String)
    ensures
        r@ == state_word(s),
{
    owned(match s {
        WasmBoundaryState::Unbound => "unbound",
        WasmBoundaryState::Bound => "bound",
        WasmBoundaryState::Active => "active",
        WasmBoundaryState::Cancelling => "cancelling",
        WasmBoundaryState::Draining => "draining",
        WasmBoundaryState::Closed => "closed",
    })
}

/// Structured boundary-event payload for deterministic observability.
#[derive(Debug, Clone, Copy, PartialEq, Eq, Structural)]
pub struct WasmAbiBoundaryEvent {
    /// ABI version used by the producer.
    pub abi_version: WasmAbiVersion,
    /// Called boundary symbol.
    pub symbol: WasmAbiSymbol,
    /// Payload schema used by this event.
    pub payload_shape: WasmAbiPayloadShape,
    /// Boundary state before the call.
    pub state_from: WasmBoundaryState,
    /// Boundary state after the call.
    pub state_to: WasmBoundaryState,
    /// Compatibility result for this call path.
    pub compatibility: WasmAbiCompatibilityDecision,
}

/// Text entries after setting a key.
pub open spec fn put(s: Seq<(Seq<char>, Seq<char>)>, k: Seq<char>, v: Seq<char>) -> Seq<(Seq<char>, Seq<char>)> {
    with_entry(s, k, v)
}

/// The log fields of an event: version, symbol, payload shape, the two
/// states, the decision (under two keys), whether it is compatible, and
/// the producer/consumer versions the decision concerns.
pub open spec fn log_fields(e: WasmAbiBoundaryEvent) -> Seq<(Seq<char>, Seq<char>)> {
    let version = decimal(e.abi_version.major as nat) + seq!['.'] + decimal(e.abi_version.minor as nat);
    let d = decision_name_spec(e.compatibility);
    let base = put(put(put(put(put(put(put(put(Seq::empty(),
        "abi_version"@, version),
        "symbol"@, symbol_name(e.symbol)),
        "payload_shape"@, shape_word(e.payload_shape)),
        "state_from"@, state_word(e.state_from)),
        "state_to"@, state_word(e.state_to)),
        "compatibility"@, d),
        "compatibility_decision"@, d),
        "compatibility_compatible"@, bool_text(e.compatibility is Exact || e.compatibility is BackwardCompatible));
    let major = decimal(e.abi_version.major as nat);
    let minor = decimal(e.abi_version.minor as nat);
    match e.compatibility {
        WasmAbiCompatibilityDecision::Exact => put(put(put(put(base,
            "compatibility_producer_major"@, major),
            "compatibility_consumer_major"@, major),
            "compatibility_producer_minor"@, minor),
            "compatibility_consumer_minor"@, minor),
        WasmAbiCompatibilityDecision::BackwardCompatible { producer_minor, consumer_minor } => put(put(put(put(base,
            "compatibility_producer_major"@, major),
            "compatibility_consumer_major"@, major),
            "compatibility_producer_minor"@, decimal(producer_minor as nat)),
            "compatibility_consumer_minor"@, decimal(consumer_minor as nat)),
        WasmAbiCompatibilityDecision::ConsumerTooOld { producer_minor, consumer_minor } => put(put(put(put(base,
            "compatibility_producer_major"@, major),
            "compatibility_consumer_major"@, major),
            "compatibility_producer_minor"@, decimal(producer_minor as nat)),
            "compatibility_consumer_minor"@, decimal(consumer_minor as nat)),
        WasmAbiCompatibilityDecision::MajorMismatch { producer_major, consumer_major } => put(put(base,
            "compatibility_producer_major"@, decimal(producer_major as nat)),
            "compatibility_consumer_major"@, decimal(consumer_major as nat)),
    }
}

fn put_field(m: &mut TextMap<String>, key: &str, value: String)
    requires
        old(m).wf(),
    ensures
        final(m).wf(),
        crate::text_map::text_entries(final(m).pairs()) == put(crate::text_map::text_entries(old(m).pairs()), key@, value@),
{
    let ghost before = m.pairs();
    let k = owned(key);
    proof { crate::text_map::lemma_with_entry_texts(before, k@, value); }
    m.insert(k, value);
}

fn u16_text(x: u16) -> (s: String)
    ensures
        s@ == decimal(x as nat),
{
    decimal_text(x as u64)
}

impl WasmAbiBoundaryEvent {
    /// The event as stable key/value log fields.
    pub fn as_log_fields(&self) -> (m: TextMap<String>)
        ensures
            m.wf(),
            crate::text_map::text_entries(m.pairs()) == log_fields(*self),
    {
        let mut m: TextMap<String> = TextMap::new();
        assert(crate::text_map::text_entries(m.pairs()) =~= Seq::<(Seq<char>, Seq<char>)>::empty());
        put_field(&mut m, "abi_version", self.abi_version.to_string());
        put_field(&mut m, "symbol", owned(self.symbol.as_str()));
        put_field(&mut m, "payload_shape", shape_text(self.payload_shape));
        put_field(&mut m, "state_from", state_text(self.state_from));
        put_field(&mut m, "state_to", state_text(self.state_to));
        put_field(&mut m, "compatibility", owned(self.compatibility.decision_name()));
        put_field(&mut m, "compatibility_decision", owned(self.compatibility.decision_name()));
        put_field(&mut m, "compatibility_compatible", bool_string(self.compatibility.is_compatible()));
        match self.compatibility {
            WasmAbiCompatibilityDecision::Exact => {
                put_field(&mut m, "compatibility_producer_major", u16_text(self.abi_version.major));
                put_field(&mut m, "compatibility_consumer_major", u16_text(self.abi_version.major));
                put_field(&mut m, "compatibility_producer_minor", u16_text(self.abi_version.minor));
                put_field(&mut m, "compatibility_consumer_minor", u16_text(self.abi_version.minor));
            },
            WasmAbiCompatibilityDecision::BackwardCompatible { producer_minor, consumer_minor }
            | WasmAbiCompatibilityDecision::ConsumerTooOld { producer_minor, consumer_minor } => {
                put_field(&mut m, "compatibility_producer_major", u16_text(self.abi_version.major));
                put_field(&mut m, "compatibility_consumer_major", u16_text(self.abi_version.major));
                put_field(&mut m, "compatibility_producer_minor", u16_text(producer_minor));
                put_field(&mut m, "compatibility_consumer_minor", u16_text(consumer_minor));
            },
            WasmAbiCompatibilityDecision::MajorMismatch { producer_major, consumer_major } => {
                put_field(&mut m, "compatibility_producer_major", u16_text(producer_major));
                put_field(&mut m, "compatibility_consumer_major", u16_text(consumer_major));
            },
        }
        m
    }
}

} // verus!
