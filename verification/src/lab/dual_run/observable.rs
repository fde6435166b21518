//! Normalized observables: the runtime-independent record of what a
//! scenario execution did, compared field by field between lab and live.

use vstd::prelude::*;
use crate::lab::dual_run::{DualRunScenarioIdentity, ReplayMetadata, RuntimeKind};
use crate::text::{copy_string, owned};
use crate::text_map::{TextMap, copy_text_map, lemma_lookup_with_entry};

verus! {

/// Schema version for normalized observables.
pub const NORMALIZED_OBSERVABLE_SCHEMA_VERSION: &'static str = "lab-live-normalized-observable-v1";

/// Outcome class for the terminal result.
#[derive(Debug, Clone, Copy, PartialEq, Eq, Hash, Structural)]
pub enum OutcomeClass {
    /// Successful completion (text `ok`).
    Completed,
    /// Failed with an error (text `err`).
    Failed,
    /// Cancelled via the cancellation protocol.
    Cancelled,
    /// Panicked during execution.
    Panicked,
}

/// Text of an outcome class (`ok`, `err`, `cancelled`, `panicked`).
pub open spec fn outcome_class_name(c: OutcomeClass) -> Seq<char> {
    match c {
        OutcomeClass::Completed => "ok"@,
        OutcomeClass::Failed => "err"@,
        OutcomeClass::Cancelled => "cancelled"@,
        OutcomeClass::Panicked => "panicked"@,
    }
}

impl OutcomeClass {
    /// Text of the outcome class.
    pub fn as_str(&self) -> (s: &'static str)
        ensures
            s@ == outcome_class_name(*self),
    {
        match self {
            OutcomeClass::Completed => "ok",
            OutcomeClass::Failed => "err",
            OutcomeClass::Cancelled => "cancelled",
            OutcomeClass::Panicked => "panicked",
        }
    }

    /// Text of the outcome class as an owned string.
    pub fn to_string(&self) -> (s: String)
        ensures
            s@ == outcome_class_name(*self),
    {
        owned(self.as_str())
    }
}

/// Terminal phase of the cancellation protocol.
#[derive(Debug, Clone, Copy, PartialEq, Eq, Hash, Structural)]
pub enum CancelTerminalPhase {
    /// No cancellation was requested.
    NotCancelled,
    /// Cancellation was requested but not acknowledged.
    CancelRequested,
    /// Cancellation was acknowledged; cleanup is running.
    Cancelling,
    /// Cleanup completed; finalization is running.
    Finalizing,
    /// The protocol completed.
    Completed,
}

/// Debug name of a cancellation phase.
pub open spec fn cancel_phase_name(p: CancelTerminalPhase) -> Seq<char> {
    match p {
        CancelTerminalPhase::NotCancelled => "NotCancelled"@,
        CancelTerminalPhase::CancelRequested => "CancelRequested"@,
        CancelTerminalPhase::Cancelling => "Cancelling"@,
        CancelTerminalPhase::Finalizing => "Finalizing"@,
        CancelTerminalPhase::Completed => "Completed"@,
    }
}

pub(crate) fn cancel_phase_str(p: CancelTerminalPhase) -> (s: &'static str)
    ensures
        s@ == cancel_phase_name(p),
{
    match p {
        CancelTerminalPhase::NotCancelled => "NotCancelled",
        CancelTerminalPhase::CancelRequested => "CancelRequested",
        CancelTerminalPhase::Cancelling => "Cancelling",
        CancelTerminalPhase::Finalizing => "Finalizing",
        CancelTerminalPhase::Completed => "Completed",
    }
}

/// Loser drain status.
#[derive(Debug, Clone, Copy, PartialEq, Eq, Hash, Structural)]
pub enum DrainStatus {
    /// No drain was needed for this participant.
    NotApplicable,
    /// All losers were fully drained.
    Complete,
    /// Some losers were not fully drained.
    Incomplete,
}

/// Debug name of a drain status.
pub open spec fn drain_status_name(s: DrainStatus) -> Seq<char> {
    match s {
        DrainStatus::NotApplicable => "NotApplicable"@,
        DrainStatus::Complete => "Complete"@,
        DrainStatus::Incomplete => "Incomplete"@,
    }
}

pub(crate) fn drain_status_str(s: DrainStatus) -> (r: &'static str)
    ensures
        r@ == drain_status_name(s),
{
    match s {
        DrainStatus::NotApplicable => "NotApplicable",
        DrainStatus::Complete => "Complete",
        DrainStatus::Incomplete => "Incomplete",
    }
}

/// Region close state.
#[derive(Debug, Clone, Copy, PartialEq, Eq, Hash, Structural)]
pub enum RegionState {
    /// Region is accepting new work.
    Open,
    /// Region close has been initiated.
    Closing,
    /// Region is draining children.
    Draining,
    /// Region finalizers are running.
    Finalizing,
    /// Region has reached quiescence.
    Closed,
}

/// Debug name of a region state.
pub open spec fn region_state_name(s: RegionState) -> Seq<char> {
    match s {
        RegionState::Open => "Open"@,
        RegionState::Closing => "Closing"@,
        RegionState::Draining => "Draining"@,
        RegionState::Finalizing => "Finalizing"@,
        RegionState::Closed => "Closed"@,
    }
}

pub(crate) fn region_state_str(s: RegionState) -> (r: &'static str)
    ensures
        r@ == region_state_name(s),
{
    match s {
        RegionState::Open => "Open",
        RegionState::Closing => "Closing",
        RegionState::Draining => "Draining",
        RegionState::Finalizing => "Finalizing",
        RegionState::Closed => "Closed",
    }
}

/// Comparison tolerance for resource counters.
#[derive(Debug, Clone, Copy, PartialEq, Eq, Hash, Structural)]
pub enum CounterTolerance {
    /// Counts must match exactly.
    Exact,
    /// Observed count must be at least the expected value.
    AtLeast,
    /// Observed count must be at most the expected value.
    AtMost,
    /// Counter comparison is not supported for this surface.
    Unsupported,
}

/// Debug name of a tolerance.
pub open spec fn tolerance_name(t: CounterTolerance) -> Seq<char> {
    match t {
        CounterTolerance::Exact => "Exact"@,
        CounterTolerance::AtLeast => "AtLeast"@,
        CounterTolerance::AtMost => "AtMost"@,
        CounterTolerance::Unsupported => "Unsupported"@,
    }
}

pub(crate) fn tolerance_str(t: CounterTolerance) -> (r: &'static str)
    ensures
        r@ == tolerance_name(t),
{
    match t {
        CounterTolerance::Exact => "Exact",
        CounterTolerance::AtLeast => "AtLeast",
        CounterTolerance::AtMost => "AtMost",
        CounterTolerance::Unsupported => "Unsupported",
    }
}

/// Terminal outcome subrecord.
#[derive(Debug, Clone)]
pub struct TerminalOutcome {
    /// Outcome class.
    pub class: OutcomeClass,
    /// Severity class.
    pub severity: OutcomeClass,
    /// Surface-level result, if reported.
    pub surface_result: Option<String>,
    /// Error class, for errors.
    pub error_class: Option<String>,
    /// Cancel reason class, for cancellations.
    pub cancel_reason_class: Option<String>,
    /// Panic class, for panics.
    pub panic_class: Option<String>,
}

impl TerminalOutcome {
    /// The `ok` terminal outcome.
    pub open spec fn ok_spec() -> Self {
        TerminalOutcome {
            class: OutcomeClass::Completed,
            severity: OutcomeClass::Completed,
            surface_result: None,
            error_class: None,
            cancel_reason_class: None,
            panic_class: None,
        }
    }

    /// An `ok` terminal outcome.
    pub fn ok() -> (t: Self)
        ensures
            t == Self::ok_spec(),
            t.class == OutcomeClass::Completed,
            t.severity == OutcomeClass::Completed,
            t.surface_result is None,
            t.error_class is None,
            t.cancel_reason_class is None,
            t.panic_class is None,
    {
        TerminalOutcome {
            class: OutcomeClass::Completed,
            severity: OutcomeClass::Completed,
            surface_result: None,
            error_class: None,
            cancel_reason_class: None,
            panic_class: None,
        }
    }

    /// A cancelled terminal outcome with the given reason class.
    pub fn cancelled(reason_class: &str) -> (t: Self)
        ensures
            t.class == OutcomeClass::Cancelled,
            t.severity == OutcomeClass::Cancelled,
            t.surface_result is None,
            t.error_class is None,
            t.cancel_reason_class matches Some(r) && r@ == reason_class@,
            t.panic_class is None,
    {
        TerminalOutcome {
            class: OutcomeClass::Cancelled,
            severity: OutcomeClass::Cancelled,
            surface_result: None,
            error_class: None,
            cancel_reason_class: Some(owned(reason_class)),
            panic_class: None,
        }
    }

    /// The outcome is an error of class `class` and nothing else.
    pub open spec fn is_err_of(self, class: Seq<char>) -> bool {
        &&& self.class == OutcomeClass::Failed
        &&& self.severity == OutcomeClass::Failed
        &&& self.surface_result is None
        &&& self.error_class matches Some(e) && e@ == class
        &&& self.cancel_reason_class is None
        &&& self.panic_class is None
    }

    /// An error terminal outcome with the given error class.
    pub fn err(error_class: &str) -> (t: Self)
        ensures
            t.is_err_of(error_class@),
            t.class == OutcomeClass::Failed,
            t.severity == OutcomeClass::Failed,
            t.surface_result is None,
            t.error_class matches Some(e) && e@ == error_class@,
            t.cancel_reason_class is None,
            t.panic_class is None,
    {
        TerminalOutcome {
            class: OutcomeClass::Failed,
            severity: OutcomeClass::Failed,
            surface_result: None,
            error_class: Some(owned(error_class)),
            cancel_reason_class: None,
            panic_class: None,
        }
    }

    /// A copy of the outcome.
    pub fn duplicate(&self) -> (t: Self)
        ensures
            t == *self,
    {
        TerminalOutcome {
            class: self.class,
            severity: self.severity,
            surface_result: crate::lab::dual_run::copy_opt_string(&self.surface_result),
            error_class: crate::lab::dual_run::copy_opt_string(&self.error_class),
            cancel_reason_class: crate::lab::dual_run::copy_opt_string(&self.cancel_reason_class),
            panic_class: crate::lab::dual_run::copy_opt_string(&self.panic_class),
        }
    }
}

/// Cancellation subrecord.
#[derive(Debug, Clone, Copy, PartialEq, Eq, Structural)]
pub struct CancellationRecord {
    /// Cancellation was requested.
    pub requested: bool,
    /// The request was acknowledged.
    pub acknowledged: bool,
    /// Cleanup completed.
    pub cleanup_completed: bool,
    /// Finalization completed.
    pub finalization_completed: bool,
    /// Terminal protocol phase.
    pub terminal_phase: CancelTerminalPhase,
    /// Whether a cancellation checkpoint was observed, where known.
    pub checkpoint_observed: Option<bool>,
}

impl CancellationRecord {
    /// The record of no cancellation.
    pub open spec fn none_spec() -> Self {
        CancellationRecord {
            requested: false,
            acknowledged: false,
            cleanup_completed: false,
            finalization_completed: false,
            terminal_phase: CancelTerminalPhase::NotCancelled,
            checkpoint_observed: None,
        }
    }

    /// No cancellation occurred.
    pub fn none() -> (r: Self)
        ensures
            r == (CancellationRecord {
                requested: false,
                acknowledged: false,
                cleanup_completed: false,
                finalization_completed: false,
                terminal_phase: CancelTerminalPhase::NotCancelled,
                checkpoint_observed: None,
            }),
    {
        CancellationRecord {
            requested: false,
            acknowledged: false,
            cleanup_completed: false,
            finalization_completed: false,
            terminal_phase: CancelTerminalPhase::NotCancelled,
            checkpoint_observed: None,
        }
    }

    /// The record of a completed cancellation protocol.
    pub open spec fn completed_spec() -> Self {
        CancellationRecord {
            requested: true,
            acknowledged: true,
            cleanup_completed: true,
            finalization_completed: true,
            terminal_phase: CancelTerminalPhase::Completed,
            checkpoint_observed: Some(true),
        }
    }

    /// The full cancellation protocol completed.
    pub fn completed() -> (r: Self)
        ensures
            r == (CancellationRecord {
                requested: true,
                acknowledged: true,
                cleanup_completed: true,
                finalization_completed: true,
                terminal_phase: CancelTerminalPhase::Completed,
                checkpoint_observed: Some(true),
            }),
    {
        CancellationRecord {
            requested: true,
            acknowledged: true,
            cleanup_completed: true,
            finalization_completed: true,
            terminal_phase: CancelTerminalPhase::Completed,
            checkpoint_observed: Some(true),
        }
    }
}

/// Loser drain subrecord.
#[derive(Debug, Clone)]
pub struct LoserDrainRecord {
    /// Whether a drain applies.
    pub applicable: bool,
    /// Losers expected to drain.
    pub expected_losers: u32,
    /// Losers drained.
    pub drained_losers: u32,
    /// Drain status.
    pub status: DrainStatus,
    /// Source of the evidence, if any.
    pub evidence: Option<String>,
}

impl LoserDrainRecord {
    /// The record of no applicable drain.
    pub open spec fn not_applicable_spec() -> Self {
        LoserDrainRecord {
            applicable: false,
            expected_losers: 0,
            drained_losers: 0,
            status: DrainStatus::NotApplicable,
            evidence: None,
        }
    }

    /// No loser drain applies.
    pub fn not_applicable() -> (r: Self)
        ensures
            r == Self::not_applicable_spec(),
            !r.applicable,
            r.expected_losers == 0,
            r.drained_losers == 0,
            r.status == DrainStatus::NotApplicable,
            r.evidence is None,
    {
        LoserDrainRecord {
            applicable: false,
            expected_losers: 0,
            drained_losers: 0,
            status: DrainStatus::NotApplicable,
            evidence: None,
        }
    }

    /// All `expected` losers drained.
    pub fn complete(expected: u32) -> (r: Self)
        ensures
            r.applicable,
            r.expected_losers == expected,
            r.drained_losers == expected,
            r.status == DrainStatus::Complete,
            r.evidence is None,
    {
        LoserDrainRecord {
            applicable: true,
            expected_losers: expected,
            drained_losers: expected,
            status: DrainStatus::Complete,
            evidence: None,
        }
    }

    /// A copy of the record.
    pub fn duplicate(&self) -> (r: Self)
        ensures
            r == *self,
    {
        LoserDrainRecord {
            applicable: self.applicable,
            expected_losers: self.expected_losers,
            drained_losers: self.drained_losers,
            status: self.status,
            evidence: crate::lab::dual_run::copy_opt_string(&self.evidence),
        }
    }
}

/// Region close subrecord.
#[derive(Debug, Clone, Copy, PartialEq, Eq, Structural)]
pub struct RegionCloseRecord {
    /// State of the root region.
    pub root_state: RegionState,
    /// Whether the region reached quiescence.
    pub quiescent: bool,
    /// Children still live.
    pub live_children: u32,
    /// Finalizers still pending.
    pub finalizers_pending: u32,
    /// Whether the close completed.
    pub close_completed: bool,
}

impl RegionCloseRecord {
    /// The record of a region closed to quiescence.
    pub open spec fn quiescent_spec() -> Self {
        RegionCloseRecord {
            root_state: RegionState::Closed,
            quiescent: true,
            live_children: 0,
            finalizers_pending: 0,
            close_completed: true,
        }
    }

    /// Region closed to quiescence.
    pub fn quiescent() -> (r: Self)
        ensures
            r == (RegionCloseRecord {
                root_state: RegionState::Closed,
                quiescent: true,
                live_children: 0,
                finalizers_pending: 0,
                close_completed: true,
            }),
    {
        RegionCloseRecord {
            root_state: RegionState::Closed,
            quiescent: true,
            live_children: 0,
            finalizers_pending: 0,
            close_completed: true,
        }
    }
}

/// Obligation balance subrecord.
#[derive(Debug, Clone, Copy, PartialEq, Eq, Structural)]
pub struct ObligationBalanceRecord {
    /// Obligations reserved.
    pub reserved: u32,
    /// Obligations committed.
    pub committed: u32,
    /// Obligations aborted.
    pub aborted: u32,
    /// Obligations leaked.
    pub leaked: u32,
    /// Obligations neither resolved nor leaked.
    pub unresolved: u32,
    /// No leaks and nothing unresolved.
    pub balanced: bool,
}

/// Obligations reserved but neither committed, aborted nor leaked
/// (zero when the resolved ones cover the reservations).
pub open spec fn unresolved_count(reserved: int, committed: int, aborted: int, leaked: int) -> int {
    if reserved > committed + aborted + leaked { reserved - (committed + aborted + leaked) } else { 0 }
}

impl ObligationBalanceRecord {
    /// A fully balanced record: no leaks, nothing unresolved.
    pub fn balanced(reserved: u32, committed: u32, aborted: u32) -> (r: Self)
        ensures
            r == (ObligationBalanceRecord { reserved, committed, aborted, leaked: 0, unresolved: 0, balanced: true }),
    {
        ObligationBalanceRecord { reserved, committed, aborted, leaked: 0, unresolved: 0, balanced: true }
    }

    /// The record of zero obligations.
    pub open spec fn zero_spec() -> Self {
        ObligationBalanceRecord { reserved: 0, committed: 0, aborted: 0, leaked: 0, unresolved: 0, balanced: true }
    }

    /// Zero obligations.
    pub fn zero() -> (r: Self)
        ensures
            r == (ObligationBalanceRecord { reserved: 0, committed: 0, aborted: 0, leaked: 0, unresolved: 0, balanced: true }),
    {
        Self::balanced(0, 0, 0)
    }

    /// Recompute `unresolved` and `balanced` from the other fields.
    pub fn recompute(self) -> (r: Self)
        requires
            self.committed + self.aborted + self.leaked <= u32::MAX,
        ensures
            r.reserved == self.reserved,
            r.committed == self.committed,
            r.aborted == self.aborted,
            r.leaked == self.leaked,
            r.unresolved == unresolved_count(self.reserved as int, self.committed as int, self.aborted as int, self.leaked as int),
            r.balanced == (self.leaked == 0 && r.unresolved == 0),
    {
        let terminal = self.committed + self.aborted + self.leaked;
        let unresolved = self.reserved.saturating_sub(terminal);
        ObligationBalanceRecord { unresolved, balanced: self.leaked == 0 && unresolved == 0, ..self }
    }
}

/// Resource surface subrecord.
#[derive(Debug, Clone)]
pub struct ResourceSurfaceRecord {
    /// Contract scope of the counters.
    pub contract_scope: String,
    /// Counter values by name.
    pub counters: TextMap<i64>,
    /// Counter tolerances by name.
    pub tolerances: TextMap<CounterTolerance>,
}

impl ResourceSurfaceRecord {
    /// Both maps are well formed.
    pub open spec fn wf(self) -> bool {
        self.counters.wf() && self.tolerances.wf()
    }

    /// A resource surface with no counters.
    pub fn empty(scope: &str) -> (r: Self)
        ensures
            r.wf(),
            r.contract_scope@ == scope@,
            r.counters.pairs().len() == 0,
            r.tolerances.pairs().len() == 0,
    {
        ResourceSurfaceRecord { contract_scope: owned(scope), counters: TextMap::new(), tolerances: TextMap::new() }
    }

    /// Sets counter `name` to `value` with tolerance `tolerance`.
    pub(crate) fn set_counter(&mut self, name: &str, value: i64, tolerance: CounterTolerance)
        requires
            old(self).wf(),
        ensures
            final(self).wf(),
            final(self).contract_scope == old(self).contract_scope,
            final(self).counters.at(name@) == Some(value),
            final(self).tolerances.at(name@) == Some(tolerance),
            forall|q: Seq<char>| q != name@ ==> #[trigger] final(self).counters.at(q) == old(self).counters.at(q),
            forall|q: Seq<char>| q != name@ ==> #[trigger] final(self).tolerances.at(q) == old(self).tolerances.at(q),
    {
        let ghost c0 = self.counters.pairs();
        let ghost t0 = self.tolerances.pairs();
        self.counters.insert(owned(name), value);
        self.tolerances.insert(owned(name), tolerance);
        proof {
            lemma_lookup_with_entry(c0, name@, value, name@);
            lemma_lookup_with_entry(t0, name@, tolerance, name@);
            assert forall|q: Seq<char>| q != name@ implies #[trigger] self.counters.at(q) == lookup_in(c0, q) by {
                lemma_lookup_with_entry(c0, name@, value, q);
            }
            assert forall|q: Seq<char>| q != name@ implies #[trigger] self.tolerances.at(q) == lookup_in(t0, q) by {
                lemma_lookup_with_entry(t0, name@, tolerance, q);
            }
        }
    }

    /// Adds an exact counter.
    pub fn with_counter(self, name: &str, value: i64) -> (r: Self)
        requires
            self.wf(),
        ensures
            r.wf(),
            r.contract_scope == self.contract_scope,
            r.counters.at(name@) == Some(value),
            r.tolerances.at(name@) == Some(CounterTolerance::Exact),
            forall|q: Seq<char>| q != name@ ==> #[trigger] r.counters.at(q) == self.counters.at(q),
            forall|q: Seq<char>| q != name@ ==> #[trigger] r.tolerances.at(q) == self.tolerances.at(q),
    {
        let mut r = self;
        r.set_counter(name, value, CounterTolerance::Exact);
        r
    }

    /// Adds a counter with a specific tolerance.
    pub fn with_counter_tolerance(self, name: &str, value: i64, tolerance: CounterTolerance) -> (r: Self)
        requires
            self.wf(),
        ensures
            r.wf(),
            r.contract_scope == self.contract_scope,
            r.counters.at(name@) == Some(value),
            r.tolerances.at(name@) == Some(tolerance),
            forall|q: Seq<char>| q != name@ ==> #[trigger] r.counters.at(q) == self.counters.at(q),
            forall|q: Seq<char>| q != name@ ==> #[trigger] r.tolerances.at(q) == self.tolerances.at(q),
    {
        let mut r = self;
        r.set_counter(name, value, tolerance);
        r
    }

    /// A copy of the record.
    pub fn duplicate(&self) -> (r: Self)
        ensures
            r.contract_scope == self.contract_scope,
            r.counters.pairs() == self.counters.pairs(),
            r.tolerances.pairs() == self.tolerances.pairs(),
    {
        ResourceSurfaceRecord {
            contract_scope: copy_string(&self.contract_scope),
            counters: copy_text_map(&self.counters),
            tolerances: copy_text_map(&self.tolerances),
        }
    }
}

/// Lookup in a sequence of entries (the view of a map).
pub open spec fn lookup_in<V>(s: Seq<(Seq<char>, V)>, k: Seq<char>) -> Option<V> {
    crate::text_map::lookup(s, k)
}

/// Semantic section of a normalized observable.
#[derive(Debug, Clone)]
pub struct NormalizedSemantics {
    /// Terminal outcome.
    pub terminal_outcome: TerminalOutcome,
    /// Cancellation protocol evidence.
    pub cancellation: CancellationRecord,
    /// Loser drain evidence.
    pub loser_drain: LoserDrainRecord,
    /// Region close evidence.
    pub region_close: RegionCloseRecord,
    /// Obligation balance evidence.
    pub obligation_balance: ObligationBalanceRecord,
    /// Resource counters.
    pub resource_surface: ResourceSurfaceRecord,
}

impl NormalizedSemantics {
    /// The resource surface's maps are well formed.
    pub open spec fn wf(self) -> bool {
        self.resource_surface.wf()
    }

    /// Same semantics: equal records, counters compared by their entries.
    pub open spec fn same(self, o: NormalizedSemantics) -> bool {
        &&& self.terminal_outcome == o.terminal_outcome
        &&& self.cancellation == o.cancellation
        &&& self.loser_drain == o.loser_drain
        &&& self.region_close == o.region_close
        &&& self.obligation_balance == o.obligation_balance
        &&& self.resource_surface.contract_scope == o.resource_surface.contract_scope
        &&& self.resource_surface.counters.pairs() == o.resource_surface.counters.pairs()
        &&& self.resource_surface.tolerances.pairs() == o.resource_surface.tolerances.pairs()
    }

    /// A copy of the semantics.
    pub fn duplicate(&self) -> (r: Self)
        ensures
            r.same(*self),
    {
        NormalizedSemantics {
            terminal_outcome: self.terminal_outcome.duplicate(),
            cancellation: self.cancellation,
            loser_drain: self.loser_drain.duplicate(),
            region_close: self.region_close,
            obligation_balance: self.obligation_balance,
            resource_surface: self.resource_surface.duplicate(),
        }
    }
}

/// Complete normalized observable record.
#[derive(Debug, Clone)]
pub struct NormalizedObservable {
    /// Schema version.
    pub schema_version: String,
    /// Scenario identity.
    pub scenario_id: String,
    /// Surface identity.
    pub surface_id: String,
    /// Surface contract version.
    pub surface_contract_version: String,
    /// Runtime that produced the observation.
    pub runtime_kind: RuntimeKind,
    /// Normalized semantics.
    pub semantics: NormalizedSemantics,
    /// Replay provenance (recorded, not compared).
    pub provenance: ReplayMetadata,
}

impl NormalizedObservable {
    /// A normalized observable of `identity` on `runtime_kind`.
    pub fn new(
        identity: &DualRunScenarioIdentity,
        runtime_kind: RuntimeKind,
        semantics: NormalizedSemantics,
        provenance: ReplayMetadata,
    ) -> (o: Self)
        ensures
            o.schema_version@ == NORMALIZED_OBSERVABLE_SCHEMA_VERSION@,
            o.scenario_id == identity.scenario_id,
            o.surface_id == identity.surface_id,
            o.surface_contract_version == identity.surface_contract_version,
            o.runtime_kind == runtime_kind,
            o.semantics == semantics,
            o.provenance == provenance,
    {
        NormalizedObservable {
            schema_version: owned(NORMALIZED_OBSERVABLE_SCHEMA_VERSION),
            scenario_id: copy_string(&identity.scenario_id),
            surface_id: copy_string(&identity.surface_id),
            surface_contract_version: copy_string(&identity.surface_contract_version),
            runtime_kind,
            semantics,
            provenance,
        }
    }
}

} // verus!
