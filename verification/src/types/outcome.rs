//! Four-valued task outcomes and cancellation reasons.

use vstd::prelude::*;
use crate::text::{owned, push_str, copy_string};

verus! {

/// Why a task was cancelled.
#[derive(Debug, Clone, Copy, PartialEq, Eq, Hash, Structural)]
pub enum CancelKind {
    /// Explicit user request.
    User,
    /// A timeout elapsed.
    Timeout,
    /// A deadline passed.
    Deadline,
    /// The poll quota was exhausted.
    PollQuota,
    /// The cost budget was exhausted.
    CostBudget,
    /// A sibling failed under fail-fast semantics.
    FailFast,
    /// The task lost a race.
    RaceLost,
    /// The parent scope was cancelled.
    ParentCancelled,
    /// A required resource was unavailable.
    ResourceUnavailable,
    /// The runtime is shutting down.
    Shutdown,
}

/// Snake-case name of a cancel kind.
pub open spec fn cancel_kind_name(k: CancelKind) -> Seq<char> {
    match k {
        CancelKind::User => "user"@,
        CancelKind::Timeout => "timeout"@,
        CancelKind::Deadline => "deadline"@,
        CancelKind::PollQuota => "poll_quota"@,
        CancelKind::CostBudget => "cost_budget"@,
        CancelKind::FailFast => "fail_fast"@,
        CancelKind::RaceLost => "race_lost"@,
        CancelKind::ParentCancelled => "parent_cancelled"@,
        CancelKind::ResourceUnavailable => "resource_unavailable"@,
        CancelKind::Shutdown => "shutdown"@,
    }
}

impl CancelKind {
    /// Snake-case name of this kind.
    pub fn as_str(&self) -> (r: &'static str)
        ensures
            r@ == cancel_kind_name(*self),
    {
        match self {
            CancelKind::User => "user",
            CancelKind::Timeout => "timeout",
            CancelKind::Deadline => "deadline",
            CancelKind::PollQuota => "poll_quota",
            CancelKind::CostBudget => "cost_budget",
            CancelKind::FailFast => "fail_fast",
            CancelKind::RaceLost => "race_lost",
            CancelKind::ParentCancelled => "parent_cancelled",
            CancelKind::ResourceUnavailable => "resource_unavailable",
            CancelKind::Shutdown => "shutdown",
        }
    }
}

/// Lower-case name of a cancel kind as the boundary reports it (its
/// variant name, lower-cased).
pub open spec fn cancel_kind_word(k: CancelKind) -> Seq<char> {
    match k {
        CancelKind::User => "user"@,
        CancelKind::Timeout => "timeout"@,
        CancelKind::Deadline => "deadline"@,
        CancelKind::PollQuota => "pollquota"@,
        CancelKind::CostBudget => "costbudget"@,
        CancelKind::FailFast => "failfast"@,
        CancelKind::RaceLost => "racelost"@,
        CancelKind::ParentCancelled => "parentcancelled"@,
        CancelKind::ResourceUnavailable => "resourceunavailable"@,
        CancelKind::Shutdown => "shutdown"@,
    }
}

impl CancelKind {
    /// Lower-case variant name of this kind.
    pub fn word(&self) -> (r: &'static str)
        ensures
            r@ == cancel_kind_word(*self),
    {
        match self {
            CancelKind::User => "user",
            CancelKind::Timeout => "timeout",
            CancelKind::Deadline => "deadline",
            CancelKind::PollQuota => "pollquota",
            CancelKind::CostBudget => "costbudget",
            CancelKind::FailFast => "failfast",
            CancelKind::RaceLost => "racelost",
            CancelKind::ParentCancelled => "parentcancelled",
            CancelKind::ResourceUnavailable => "resourceunavailable",
            CancelKind::Shutdown => "shutdown",
        }
    }
}

/// Phase of the cancellation protocol.
#[derive(Debug, Clone, Copy, PartialEq, Eq, Hash, Structural)]
pub enum CancelPhase {
    /// Cancellation was requested.
    Requested,
    /// The task is unwinding.
    Cancelling,
    /// Finalizers are running.
    Finalizing,
    /// Cancellation finished.
    Completed,
}

/// Lower-case name of a cancel phase.
pub open spec fn cancel_phase_word(p: CancelPhase) -> Seq<char> {
    match p {
        CancelPhase::Requested => "requested"@,
        CancelPhase::Cancelling => "cancelling"@,
        CancelPhase::Finalizing => "finalizing"@,
        CancelPhase::Completed => "completed"@,
    }
}

impl CancelPhase {
    /// Lower-case name of this phase.
    pub fn word(&self) -> (r: &'static str)
        ensures
            r@ == cancel_phase_word(*self),
    {
        match self {
            CancelPhase::Requested => "requested",
            CancelPhase::Cancelling => "cancelling",
            CancelPhase::Finalizing => "finalizing",
            CancelPhase::Completed => "completed",
        }
    }
}

/// A cancellation reason: its kind, an optional message, and where and
/// when it originated.
#[derive(Debug, Clone)]
pub struct CancelReason {
    /// Kind of cancellation.
    pub kind: CancelKind,
    /// Optional human-readable detail.
    pub message: Option<String>,
    /// Region where the cancellation originated.
    pub origin_region: crate::types::RegionId,
    /// Task where the cancellation originated, if known.
    pub origin_task: Option<crate::types::TaskId>,
    /// When the cancellation originated.
    pub timestamp: crate::types::Time,
    /// Whether the attribution chain was truncated.
    pub truncated: bool,
}

/// Text of a cancellation reason: the kind's name, followed by `: ` and
/// the message when there is one.
pub open spec fn cancel_reason_text(r: CancelReason) -> Seq<char> {
    match r.message {
        Some(m) => cancel_kind_name(r.kind) + ": "@ + m@,
        None => cancel_kind_name(r.kind),
    }
}

impl CancelReason {
    /// A reason of the given kind without a message.
    pub fn new(kind: CancelKind) -> (r: Self)
        ensures
            r.kind == kind,
            r.message is None,
            r.origin_region == (crate::types::RegionId { index: 0, generation: 0 }),
            r.origin_task is None,
            r.timestamp.nanos_spec() == 0,
            !r.truncated,
    {
        CancelReason::with_origin(kind, crate::types::RegionId { index: 0, generation: 0 }, crate::types::Time::from_nanos(0))
    }

    /// A reason of the given kind originating in `region` at `timestamp`.
    pub fn with_origin(kind: CancelKind, region: crate::types::RegionId, timestamp: crate::types::Time) -> (r: Self)
        ensures
            r.kind == kind,
            r.message is None,
            r.origin_region == region,
            r.origin_task is None,
            r.timestamp == timestamp,
            !r.truncated,
    {
        CancelReason { kind, message: None, origin_region: region, origin_task: None, timestamp, truncated: false }
    }

    /// Attributes the reason to a task.
    pub fn with_task(self, task: crate::types::TaskId) -> (r: Self)
        ensures
            r.kind == self.kind,
            r.message == self.message,
            r.origin_region == self.origin_region,
            r.origin_task == Some(task),
            r.timestamp == self.timestamp,
            r.truncated == self.truncated,
    {
        CancelReason { origin_task: Some(task), ..self }
    }

    /// Attaches a message.
    pub fn with_message(self, message: &str) -> (r: Self)
        ensures
            r.kind == self.kind,
            r.message matches Some(m) && m@ == message@,
            r.origin_region == self.origin_region,
            r.origin_task == self.origin_task,
            r.timestamp == self.timestamp,
            r.truncated == self.truncated,
    {
        CancelReason { message: Some(owned(message)), ..self }
    }

    /// Region where the cancellation originated.
    pub fn origin_region(&self) -> (r: crate::types::RegionId)
        ensures
            r == self.origin_region,
    {
        self.origin_region
    }

    /// Task where the cancellation originated, if known.
    pub fn origin_task(&self) -> (t: Option<crate::types::TaskId>)
        ensures
            t == self.origin_task,
    {
        self.origin_task
    }

    /// When the cancellation originated.
    pub fn timestamp(&self) -> (t: crate::types::Time)
        ensures
            t == self.timestamp,
    {
        self.timestamp
    }

    /// Whether the attribution chain was truncated.
    pub fn any_truncated(&self) -> (b: bool)
        ensures
            b == self.truncated,
    {
        self.truncated
    }

    /// The kind of cancellation.
    pub fn kind(&self) -> (k: CancelKind)
        ensures
            k == self.kind,
    {
        self.kind
    }

    /// Text of the reason.
    pub fn to_string(&self) -> (s: String)
        ensures
            s@ == cancel_reason_text(*self),
    {
        let mut s = owned(self.kind.as_str());
        match &self.message {
            Some(m) => {
                push_str(&mut s, ": ");
                push_str(&mut s, m.as_str());
            },
            None => {},
        }
        s
    }
}

/// Payload of a caught panic.
#[derive(Debug, Clone)]
pub struct PanicPayload {
    /// Panic message.
    pub message: String,
}

impl PanicPayload {
    /// A payload with the given message.
    pub fn new(message: &str) -> (p: Self)
        ensures
            p.message@ == message@,
    {
        PanicPayload { message: owned(message) }
    }

    /// The panic message.
    pub fn message(&self) -> (m: String)
        ensures
            m@ == self.message@,
    {
        copy_string(&self.message)
    }
}

/// Four-valued outcome of a task.
#[derive(Debug, Clone)]
pub enum Outcome<T, E> {
    /// Completed with a value.
    Completed(T),
    /// Failed with an error.
    Failed(E),
    /// Cancelled through the cancellation protocol.
    Cancelled(CancelReason),
    /// Panicked.
    Panicked(PanicPayload),
}

impl<T, E> Outcome<T, E> {
    /// A cancelled outcome.
    pub fn cancelled(reason: CancelReason) -> (o: Self)
        ensures
            o == Outcome::<T, E>::Cancelled(reason),
    {
        Outcome::Cancelled(reason)
    }
}

} // verus!
