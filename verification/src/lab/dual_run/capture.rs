//! Semantic capture hooks: how live adapters turn explicit evidence into
//! normalized records, and how a lab run report is normalized.

use vstd::prelude::*;
use crate::lab::dual_run::observable::{
    CancellationRecord, CancelTerminalPhase, DrainStatus, LoserDrainRecord, NormalizedObservable,
    NormalizedSemantics, ObligationBalanceRecord, OutcomeClass, RegionCloseRecord, RegionState,
    ResourceSurfaceRecord, TerminalOutcome, unresolved_count,
};
use crate::lab::dual_run::live::LiveRunResult;
use crate::lab::dual_run::{DualRunScenarioIdentity, ReplayMetadata, RuntimeKind};
use crate::lab::runtime::{first_entry, LabRunReport, OracleEntry};
use crate::text::{contains_text, copy_string, has_infix, owned};
use crate::types::outcome::{cancel_reason_text, CancelReason, Outcome};

verus! {

/// Observability status for a captured field.
#[derive(Debug, Clone, Copy, PartialEq, Eq, Hash, Structural)]
pub enum FieldObservability {
    /// Field was observed from a stable semantic hook.
    Observed,
    /// Field was inferred from indirect evidence.
    Inferred,
    /// Field is not observable on this adapter and was set to a default.
    Unsupported,
}

/// Evidence annotation for a single captured field.
#[derive(Debug, Clone)]
pub struct CaptureAnnotation {
    /// Dot-path of the field (e.g. `cancellation.checkpoint_observed`).
    pub field: String,
    /// How the field was captured.
    pub observability: FieldObservability,
    /// Source of the evidence (e.g. `task_handle.join`).
    pub source: String,
}

/// Text of an annotation: field, observability, source.
pub type AnnotationText = (Seq<char>, FieldObservability, Seq<char>);

/// Semantic capture manifest for a live run: how each normalized field
/// was captured.
#[derive(Debug, Clone)]
pub struct CaptureManifest {
    /// Per-field capture annotations, in capture order.
    pub annotations: Vec<CaptureAnnotation>,
    /// Fields that are unsupported on this adapter, in capture order.
    pub unsupported_fields: Vec<String>,
}

impl CaptureManifest {
    /// The annotations' texts.
    pub open spec fn entries(self) -> Seq<AnnotationText> {
        self.annotations@.map_values(|a: CaptureAnnotation| (a.field@, a.observability, a.source@))
    }

    /// The unsupported fields' texts.
    pub open spec fn unsupported_texts(self) -> Seq<Seq<char>> {
        self.unsupported_fields@.map_values(|f: String| f@)
    }

    /// An empty manifest.
    pub fn new() -> (m: Self)
        ensures
            m.entries().len() == 0,
            m.unsupported_texts().len() == 0,
    {
        CaptureManifest { annotations: Vec::new(), unsupported_fields: Vec::new() }
    }

    fn annotate(&mut self, field: String, observability: FieldObservability, source: String)
        ensures
            final(self).entries() == old(self).entries().push((field@, observability, source@)),
            final(self).unsupported_fields == old(self).unsupported_fields,
    {
        let ghost f = field@;
        let ghost src = source@;
        self.annotations.push(CaptureAnnotation { field, observability, source });
        assert(self.entries() =~= old(self).entries().push((f, observability, src)));
    }

    /// Record that a field was directly observed.
    pub fn observed(&mut self, field: &str, source: &str)
        ensures
            final(self).entries() == old(self).entries().push((field@, FieldObservability::Observed, source@)),
            final(self).unsupported_fields == old(self).unsupported_fields,
    {
        self.annotate(owned(field), FieldObservability::Observed, owned(source));
    }

    /// Record that a field was inferred from indirect evidence.
    pub fn inferred(&mut self, field: &str, source: &str)
        ensures
            final(self).entries() == old(self).entries().push((field@, FieldObservability::Inferred, source@)),
            final(self).unsupported_fields == old(self).unsupported_fields,
    {
        self.annotate(owned(field), FieldObservability::Inferred, owned(source));
    }

    /// Record that a field is unsupported and was defaulted (source
    /// `default`).
    pub fn unsupported(&mut self, field: &str)
        ensures
            final(self).entries() == old(self).entries().push((field@, FieldObservability::Unsupported, "default"@)),
            final(self).unsupported_texts() == old(self).unsupported_texts().push(field@),
    {
        self.annotate(owned(field), FieldObservability::Unsupported, owned("default"));
        self.unsupported_fields.push(owned(field));
        assert(self.unsupported_texts() =~= old(self).unsupported_texts().push(field@));
    }

    /// How many fields were captured in total.
    pub fn total_fields(&self) -> (n: usize)
        ensures
            n == self.entries().len(),
    {
        self.annotations.len()
    }

    /// How many fields are unsupported.
    pub fn unsupported_count(&self) -> (n: usize)
        ensures
            n == self.unsupported_texts().len(),
    {
        self.unsupported_fields.len()
    }

    /// Whether every field was directly observed.
    pub fn fully_observed(&self) -> (b: bool)
        ensures
            b == forall|i: int| 0 <= i < self.entries().len() ==> (#[trigger] self.entries()[i]).1
                == FieldObservability::Observed,
    {
        let mut i: usize = 0;
        while i < self.annotations.len()
            invariant
                i <= self.annotations.len(),
                forall|j: int| 0 <= j < i ==> (#[trigger] self.entries()[j]).1 == FieldObservability::Observed,
            decreases self.annotations.len() - i,
        {
            if self.annotations[i].observability != FieldObservability::Observed {
                assert(self.entries()[i as int].1 != FieldObservability::Observed);
                return false;
            }
            i = i + 1;
        }
        true
    }
}

impl Default for CaptureManifest {
    fn default() -> (m: Self)
        ensures
            m.entries().len() == 0,
            m.unsupported_texts().len() == 0,
    {
        CaptureManifest::new()
    }
}

/// The terminal outcome an `Outcome` maps to: `ok`, `err` with the error
/// text, `cancelled` with the reason's text, or `panicked` with class
/// `caught_panic`.
pub open spec fn outcome_terminal<T>(o: Outcome<T, String>, t: TerminalOutcome) -> bool {
    match o {
        Outcome::Completed(_) => t == TerminalOutcome::ok_spec(),
        Outcome::Failed(e) => {
            &&& t.class == OutcomeClass::Failed
            &&& t.severity == OutcomeClass::Failed
            &&& t.surface_result is None
            &&& t.error_class matches Some(c) && c@ == e@
            &&& t.cancel_reason_class is None
            &&& t.panic_class is None
        },
        Outcome::Cancelled(r) => {
            &&& t.class == OutcomeClass::Cancelled
            &&& t.severity == OutcomeClass::Cancelled
            &&& t.surface_result is None
            &&& t.error_class is None
            &&& t.cancel_reason_class matches Some(c) && c@ == cancel_reason_text(r)
            &&& t.panic_class is None
        },
        Outcome::Panicked(_) => {
            &&& t.class == OutcomeClass::Panicked
            &&& t.severity == OutcomeClass::Panicked
            &&& t.surface_result is None
            &&& t.error_class is None
            &&& t.cancel_reason_class is None
            &&& t.panic_class matches Some(c) && c@ == "caught_panic"@
        },
    }
}

/// Capture a terminal outcome from a four-valued `Outcome` whose error is
/// rendered as text.
pub fn capture_terminal_outcome<T>(outcome: &Outcome<T, String>) -> (t: TerminalOutcome)
    ensures
        outcome_terminal(*outcome, t),
{
    match outcome {
        Outcome::Completed(_) => TerminalOutcome::ok(),
        Outcome::Failed(e) => TerminalOutcome::err(e.as_str()),
        Outcome::Cancelled(reason) => {
            let r = reason.to_string();
            TerminalOutcome::cancelled(r.as_str())
        },
        Outcome::Panicked(_) => TerminalOutcome {
            class: OutcomeClass::Panicked,
            severity: OutcomeClass::Panicked,
            surface_result: None,
            error_class: None,
            cancel_reason_class: None,
            panic_class: Some(owned("caught_panic")),
        },
    }
}

/// Capture a terminal outcome from a `Result` whose error is rendered as
/// text: `ok` or `err` with the error text.
pub fn capture_terminal_from_result<T>(result: &Result<T, String>) -> (t: TerminalOutcome)
    ensures
        match result {
            Ok(_) => t == TerminalOutcome::ok_spec(),
            Err(e) => outcome_terminal(Outcome::<T, String>::Failed(*e), t),
        },
{
    match result {
        Ok(_) => TerminalOutcome::ok(),
        Err(e) => TerminalOutcome::err(e.as_str()),
    }
}

/// Obligations leaked: reserved beyond those committed or aborted.
pub open spec fn leaked_count(reserved: int, committed: int, aborted: int) -> int {
    if reserved > committed + aborted { reserved - (committed + aborted) } else { 0 }
}

/// Capture obligation balance from explicit counters: what was reserved
/// and neither committed nor aborted is leaked.
pub fn capture_obligation_balance(reserved: u32, committed: u32, aborted: u32) -> (r: ObligationBalanceRecord)
    requires
        committed + aborted <= u32::MAX,
    ensures
        r.reserved == reserved,
        r.committed == committed,
        r.aborted == aborted,
        r.leaked == leaked_count(reserved as int, committed as int, aborted as int),
        r.unresolved == 0,
        r.balanced == (r.leaked == 0),
{
    let leaked = reserved.saturating_sub(committed + aborted);
    ObligationBalanceRecord { reserved, committed, aborted, leaked, unresolved: 0, balanced: leaked == 0 }.recompute()
}

/// Capture region close evidence from explicit flags: quiescent exactly
/// when every child joined and every finalizer ran.
pub fn capture_region_close(all_children_joined: bool, all_finalizers_done: bool) -> (r: RegionCloseRecord)
    ensures
        r.quiescent == (all_children_joined && all_finalizers_done),
        r.root_state == (if r.quiescent { RegionState::Closed } else { RegionState::Open }),
        r.live_children == (if all_children_joined { 0u32 } else { 1u32 }),
        r.finalizers_pending == (if all_finalizers_done { 0u32 } else { 1u32 }),
        r.close_completed == r.quiescent,
{
    let quiescent = all_children_joined && all_finalizers_done;
    RegionCloseRecord {
        root_state: if quiescent { RegionState::Closed } else { RegionState::Open },
        quiescent,
        live_children: if all_children_joined { 0 } else { 1 },
        finalizers_pending: if all_finalizers_done { 0 } else { 1 },
        close_completed: quiescent,
    }
}

/// Number of `true` entries.
pub open spec fn count_true(s: Seq<bool>) -> nat
    decreases s.len(),
{
    if s.len() == 0 {
        0
    } else {
        count_true(s.drop_last()) + if s.last() { 1nat } else { 0nat }
    }
}

proof fn lemma_count_true_bound(s: Seq<bool>)
    ensures
        count_true(s) <= s.len(),
    decreases s.len(),
{
    if s.len() > 0 {
        lemma_count_true_bound(s.drop_last());
    }
}

/// Capture loser drain evidence from join results (`true` = the loser was
/// joined): not applicable without losers, else complete exactly when all
/// joined. Counts are kept as `u32`, wrapping as the original width does.
pub fn capture_loser_drain(loser_joined: &[bool]) -> (r: LoserDrainRecord)
    ensures
        loser_joined@.len() == 0 ==> r == LoserDrainRecord::not_applicable_spec(),
        loser_joined@.len() > 0 ==> {
            &&& r.applicable
            &&& r.expected_losers == loser_joined@.len() as u32
            &&& r.drained_losers == count_true(loser_joined@) as u32
            &&& r.status == (if r.drained_losers == r.expected_losers { DrainStatus::Complete } else { DrainStatus::Incomplete })
            &&& r.evidence matches Some(e) && e@ == "task_handle.join"@
        },
{
    if loser_joined.len() == 0 {
        return LoserDrainRecord::not_applicable();
    }
    let mut drained: usize = 0;
    let mut i: usize = 0;
    while i < loser_joined.len()
        invariant
            i <= loser_joined.len(),
            drained == count_true(loser_joined@.take(i as int)),
            drained <= i,
        decreases loser_joined.len() - i,
    {
        assert(loser_joined@.take(i + 1).drop_last() =~= loser_joined@.take(i as int));
        if loser_joined[i] {
            drained = drained + 1;
        }
        i = i + 1;
    }
    assert(loser_joined@.take(loser_joined.len() as int) =~= loser_joined@);
    #[verifier::truncate]
    let expected = loser_joined.len() as u32;
    #[verifier::truncate]
    let drained32 = drained as u32;
    LoserDrainRecord {
        applicable: true,
        expected_losers: expected,
        drained_losers: drained32,
        status: if drained32 == expected { DrainStatus::Complete } else { DrainStatus::Incomplete },
        evidence: Some(owned("task_handle.join")),
    }
}

/// The cancellation phase the lifecycle flags reach.
pub open spec fn cancel_phase_of(requested: bool, acknowledged: bool, cleanup: bool, finalization: bool) -> CancelTerminalPhase {
    if !requested {
        CancelTerminalPhase::NotCancelled
    } else if finalization {
        CancelTerminalPhase::Completed
    } else if cleanup {
        CancelTerminalPhase::Finalizing
    } else if acknowledged {
        CancelTerminalPhase::Cancelling
    } else {
        CancelTerminalPhase::CancelRequested
    }
}

/// Capture cancellation evidence from explicit lifecycle flags.
pub fn capture_cancellation(
    requested: bool,
    acknowledged: bool,
    cleanup_completed: bool,
    finalization_completed: bool,
    checkpoint_observed: Option<bool>,
) -> (r: CancellationRecord)
    ensures
        r == (CancellationRecord {
            requested,
            acknowledged,
            cleanup_completed,
            finalization_completed,
            terminal_phase: cancel_phase_of(requested, acknowledged, cleanup_completed, finalization_completed),
            checkpoint_observed,
        }),
{
    let terminal_phase = if !requested {
        CancelTerminalPhase::NotCancelled
    } else if finalization_completed {
        CancelTerminalPhase::Completed
    } else if cleanup_completed {
        CancelTerminalPhase::Finalizing
    } else if acknowledged {
        CancelTerminalPhase::Cancelling
    } else {
        CancelTerminalPhase::CancelRequested
    };
    CancellationRecord {
        requested,
        acknowledged,
        cleanup_completed,
        finalization_completed,
        terminal_phase,
        checkpoint_observed,
    }
}

/// Some invariant violation mentions `obligation` or `leak`.
pub open spec fn has_leak_violation(v: Seq<String>) -> bool {
    exists|i: int| 0 <= i < v.len() && (has_infix((#[trigger] v[i])@, "obligation"@) || has_infix(v[i]@, "leak"@))
}

/// Whether the first oracle entry named `name` passed, if there is one.
pub open spec fn entry_passed(entries: Seq<OracleEntry>, name: Seq<char>) -> Option<bool> {
    match first_entry(entries, name) {
        Some(i) => Some(entries[i].passed),
        None => None,
    }
}

/// Every oracle entry passed.
pub open spec fn all_entries_passed(entries: Seq<OracleEntry>) -> bool {
    forall|i: int| 0 <= i < entries.len() ==> (#[trigger] entries[i]).passed
}

/// The semantics a lab report normalizes to, for resource scope `scope`.
pub open spec fn lab_semantics(report: LabRunReport, scope: Seq<char>, s: NormalizedSemantics) -> bool {
    let entries = report.oracle_report.entries@;
    let q = report.quiescent;
    &&& if report.invariant_violations@.len() > 0 {
        s.terminal_outcome.is_err_of("invariant_violation"@)
    } else if !all_entries_passed(entries) {
        s.terminal_outcome.is_err_of("oracle_failure"@)
    } else {
        s.terminal_outcome == TerminalOutcome::ok_spec()
    }
    &&& s.region_close == (RegionCloseRecord {
        root_state: if q { RegionState::Closed } else { RegionState::Open },
        quiescent: q,
        live_children: 0,
        finalizers_pending: 0,
        close_completed: q,
    })
    &&& s.obligation_balance == if has_leak_violation(report.invariant_violations@)
        || entry_passed(entries, "obligation_leak"@) == Some(false) {
        ObligationBalanceRecord { reserved: 0, committed: 0, aborted: 0, leaked: 1, unresolved: 0, balanced: false }
    } else {
        ObligationBalanceRecord::zero_spec()
    }
    &&& match entry_passed(entries, "loser_drain"@) {
        Some(p) => {
            &&& s.loser_drain.applicable
            &&& s.loser_drain.expected_losers == 0
            &&& s.loser_drain.drained_losers == 0
            &&& s.loser_drain.status == if p { DrainStatus::Complete } else { DrainStatus::Incomplete }
            &&& s.loser_drain.evidence matches Some(e)
                && e@ == if p { "oracle.loser_drain.passed"@ } else { "oracle.loser_drain.failed"@ }
        },
        None => s.loser_drain == LoserDrainRecord::not_applicable_spec(),
    }
    &&& s.cancellation == match entry_passed(entries, "cancellation_protocol"@) {
        Some(true) => CancellationRecord::completed_spec(),
        Some(false) => CancellationRecord {
            requested: true,
            acknowledged: false,
            cleanup_completed: false,
            finalization_completed: false,
            terminal_phase: CancelTerminalPhase::CancelRequested,
            checkpoint_observed: None,
        },
        None => CancellationRecord::none_spec(),
    }
    &&& s.resource_surface.contract_scope@ == scope
    &&& s.resource_surface.counters.pairs().len() == 0
    &&& s.resource_surface.tolerances.pairs().len() == 0
    &&& s.wf()
}

/// How a lab report's fields are captured, in capture order.
pub open spec fn lab_manifest(report: LabRunReport) -> Seq<AnnotationText> {
    let entries = report.oracle_report.entries@;
    seq![
        ("terminal_outcome"@, FieldObservability::Observed,
            if report.invariant_violations@.len() > 0 { "invariant_violations"@ }
            else if !all_entries_passed(entries) { "oracle_report.failures"@ }
            else { "oracle_report.all_passed"@ }),
        ("region_close.quiescent"@, FieldObservability::Observed, "LabRunReport.quiescent"@),
        ("obligation_balance"@, FieldObservability::Observed, "oracle.obligation_leak + invariants"@),
        if entry_passed(entries, "loser_drain"@) is Some {
            ("loser_drain"@, FieldObservability::Observed, "oracle.loser_drain"@)
        } else {
            ("loser_drain"@, FieldObservability::Inferred, "no_oracle_entry"@)
        },
        if entry_passed(entries, "cancellation_protocol"@) is Some {
            ("cancellation"@, FieldObservability::Observed, "oracle.cancellation_protocol"@)
        } else {
            ("cancellation"@, FieldObservability::Inferred, "no_oracle_entry"@)
        },
    ]
}

fn any_leak_violation(v: &Vec<String>) -> (b: bool)
    ensures
        b == has_leak_violation(v@),
{
    let mut i: usize = 0;
    while i < v.len()
        invariant
            i <= v.len(),
            forall|j: int| 0 <= j < i ==> !(has_infix((#[trigger] v@[j])@, "obligation"@) || has_infix(v@[j]@, "leak"@)),
        decreases v.len() - i,
    {
        if contains_text(v[i].as_str(), "obligation") || contains_text(v[i].as_str(), "leak") {
            assert(0 <= i < v@.len() && (has_infix(v@[i as int]@, "obligation"@) || has_infix(v@[i as int]@, "leak"@)));
            return true;
        }
        i = i + 1;
    }
    false
}

fn oracle_passed(report: &LabRunReport, name: &str) -> (r: Option<bool>)
    ensures
        r == entry_passed(report.oracle_report.entries@, name@),
{
    match report.oracle_report.entry(name) {
        Some(e) => Some(e.passed),
        None => None,
    }
}

/// Normalize a lab run report into semantics, with the manifest of how
/// each field was derived.
pub fn normalize_lab_report(report: &LabRunReport, surface_scope: &str) -> (r: (NormalizedSemantics, CaptureManifest))
    ensures
        lab_semantics(*report, surface_scope@, r.0),
        r.1.entries() == lab_manifest(*report),
        r.1.unsupported_texts().len() == 0,
{
    let mut manifest = CaptureManifest::new();
    let terminal_outcome = if report.invariant_violations.len() > 0 {
        manifest.observed("terminal_outcome", "invariant_violations");
        TerminalOutcome::err("invariant_violation")
    } else if !report.oracle_report.all_passed() {
        manifest.observed("terminal_outcome", "oracle_report.failures");
        TerminalOutcome::err("oracle_failure")
    } else {
        manifest.observed("terminal_outcome", "oracle_report.all_passed");
        TerminalOutcome::ok()
    };
    manifest.observed("region_close.quiescent", "LabRunReport.quiescent");
    let q = report.quiescent;
    let region_close = RegionCloseRecord {
        root_state: if q { RegionState::Closed } else { RegionState::Open },
        quiescent: q,
        live_children: 0,
        finalizers_pending: 0,
        close_completed: q,
    };
    let has_leak = any_leak_violation(&report.invariant_violations);
    let obligation_oracle = oracle_passed(report, "obligation_leak");
    manifest.observed("obligation_balance", "oracle.obligation_leak + invariants");
    let obligation_failed = match obligation_oracle {
        Some(p) => !p,
        None => false,
    };
    let obligation_balance = if has_leak || obligation_failed {
        ObligationBalanceRecord { reserved: 0, committed: 0, aborted: 0, leaked: 1, unresolved: 0, balanced: false }
    } else {
        ObligationBalanceRecord::zero()
    };
    let loser_drain = match oracle_passed(report, "loser_drain") {
        Some(p) => {
            manifest.observed("loser_drain", "oracle.loser_drain");
            LoserDrainRecord {
                applicable: true,
                expected_losers: 0,
                drained_losers: 0,
                status: if p { DrainStatus::Complete } else { DrainStatus::Incomplete },
                evidence: Some(if p { owned("oracle.loser_drain.passed") } else { owned("oracle.loser_drain.failed") }),
            }
        },
        None => {
            manifest.inferred("loser_drain", "no_oracle_entry");
            LoserDrainRecord::not_applicable()
        },
    };
    let cancellation = match oracle_passed(report, "cancellation_protocol") {
        Some(p) => {
            manifest.observed("cancellation", "oracle.cancellation_protocol");
            if p {
                CancellationRecord::completed()
            } else {
                CancellationRecord {
                    requested: true,
                    acknowledged: false,
                    cleanup_completed: false,
                    finalization_completed: false,
                    terminal_phase: CancelTerminalPhase::CancelRequested,
                    checkpoint_observed: None,
                }
            }
        },
        None => {
            manifest.inferred("cancellation", "no_oracle_entry");
            CancellationRecord::none()
        },
    };
    let semantics = NormalizedSemantics {
        terminal_outcome,
        cancellation,
        loser_drain,
        region_close,
        obligation_balance,
        resource_surface: ResourceSurfaceRecord::empty(surface_scope),
    };
    assert(manifest.entries() =~= lab_manifest(*report));
    (semantics, manifest)
}

/// The provenance of a lab observable: fresh lab metadata for the
/// identity, carrying the report's trace evidence.
pub open spec fn lab_provenance(identity: DualRunScenarioIdentity, report: LabRunReport, m: ReplayMetadata) -> bool {
    &&& m.trace_fingerprint == Some(report.trace_fingerprint)
    &&& m.event_hash == Some(report.trace_certificate.event_hash)
    &&& m.event_count == Some(report.trace_certificate.event_count)
    &&& m.schedule_hash == Some(report.trace_certificate.schedule_hash)
    &&& m.steps_total == Some(report.steps_total)
    &&& (ReplayMetadata {
        trace_fingerprint: None,
        event_hash: None,
        event_count: None,
        schedule_hash: None,
        steps_total: None,
        ..m
    }).fresh(identity.family(), identity.seed_plan, RuntimeKind::Lab)
}

/// A complete lab observable: the report's semantics under the identity's
/// surface, with lab provenance carrying the report's trace evidence.
pub fn normalize_lab_observable(identity: &DualRunScenarioIdentity, report: &LabRunReport) -> (o: NormalizedObservable)
    ensures
        o.runtime_kind == RuntimeKind::Lab,
        o.scenario_id == identity.scenario_id,
        o.surface_id == identity.surface_id,
        o.surface_contract_version == identity.surface_contract_version,
        lab_semantics(*report, identity.surface_id@, o.semantics),
        lab_provenance(*identity, *report, o.provenance),
{
    let (semantics, _manifest) = normalize_lab_report(report, identity.surface_id.as_str());
    let prov = ReplayMetadata::for_lab(identity.family_id(), &identity.seed_plan);
    let ghost p0 = prov;
    let prov = prov.with_lab_report(
        report.trace_fingerprint,
        report.trace_certificate.event_hash,
        report.trace_certificate.event_count,
        report.trace_certificate.schedule_hash,
        report.steps_total,
    );
    assert((ReplayMetadata {
        trace_fingerprint: None,
        event_hash: None,
        event_count: None,
        schedule_hash: None,
        steps_total: None,
        ..prov
    }) == p0);
    NormalizedObservable::new(identity, RuntimeKind::Lab, semantics, prov)
}

/// A complete live observable from a live run's semantics and replay
/// metadata.
pub fn normalize_live_observable(identity: &DualRunScenarioIdentity, live_result: &LiveRunResult) -> (o: NormalizedObservable)
    ensures
        o.runtime_kind == RuntimeKind::Live,
        o.scenario_id == identity.scenario_id,
        o.surface_id == identity.surface_id,
        o.surface_contract_version == identity.surface_contract_version,
        o.semantics.same(live_result.semantics),
        o.provenance == live_result.metadata.replay,
{
    NormalizedObservable::new(
        identity,
        RuntimeKind::Live,
        live_result.semantics.duplicate(),
        live_result.metadata.replay.duplicate(),
    )
}

} // verus!
