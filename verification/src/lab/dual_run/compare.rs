//! Field-by-field comparison of lab and live observables, and the core
//! invariants every observable is checked against.

use vstd::prelude::*;
use crate::lab::dual_run::observable::{
    cancel_phase_name, cancel_phase_str, drain_status_name, drain_status_str, outcome_class_name,
    region_state_name, region_state_str, tolerance_name, tolerance_str, CancellationRecord,
    CancelTerminalPhase, CounterTolerance, DrainStatus, LoserDrainRecord, NormalizedObservable,
    NormalizedSemantics, ObligationBalanceRecord, RegionCloseRecord, ResourceSurfaceRecord,
    TerminalOutcome, NORMALIZED_OBSERVABLE_SCHEMA_VERSION,
};
use crate::lab::dual_run::{RuntimeKind, ScenarioFamilyId, SeedLineageRecord, SeedPlan, ReplayMetadata};
use crate::text::{
    bool_string, bool_text, copy_string, debug_text, decimal, decimal_text, joined, owned, push_str,
    signed_decimal, signed_decimal_text, str_debug,
};
use crate::text_map::{lookup, lemma_lookup_ascending, lemma_lookup_absent};

verus! {

/// A single mismatch between lab and live observables.
#[derive(Debug, Clone)]
pub struct SemanticMismatch {
    /// Dot-separated path to the mismatched field.
    pub field: String,
    /// Description of the mismatch.
    pub description: String,
    /// Lab-side value (display representation).
    pub lab_value: String,
    /// Live-side value (display representation).
    pub live_value: String,
}

/// The text of a mismatch: field, description, lab value, live value.
pub type MismatchText = (Seq<char>, Seq<char>, Seq<char>, Seq<char>);

impl SemanticMismatch {
    /// The mismatch's text.
    pub open spec fn text(self) -> MismatchText {
        (self.field@, self.description@, self.lab_value@, self.live_value@)
    }

    /// Text `<field>: <description> (lab=<lab>, live=<live>)`.
    pub open spec fn line(self) -> Seq<char> {
        self.field@ + ": "@ + self.description@ + " (lab="@ + self.lab_value@ + ", live="@ + self.live_value@ + ")"@
    }

    /// Text `<field>: <description> (lab=<lab>, live=<live>)`.
    pub fn to_string(&self) -> (s: String)
        ensures
            s@ == self.line(),
    {
        let mut s = copy_string(&self.field);
        push_str(&mut s, ": ");
        push_str(&mut s, self.description.as_str());
        push_str(&mut s, " (lab=");
        push_str(&mut s, self.lab_value.as_str());
        push_str(&mut s, ", live=");
        push_str(&mut s, self.live_value.as_str());
        push_str(&mut s, ")");
        s
    }
}

/// Texts of a sequence of mismatches.
pub open spec fn texts(v: Seq<SemanticMismatch>) -> Seq<MismatchText> {
    v.map_values(|m: SemanticMismatch| m.text())
}

/// One mismatch when `c` holds, none otherwise.
pub open spec fn one_if(c: bool, m: MismatchText) -> Seq<MismatchText> {
    if c { seq![m] } else { Seq::empty() }
}

/// `Debug` text of an optional string (`None` or `Some("...")`).
pub open spec fn opt_debug(o: Option<String>) -> Seq<char> {
    match o {
        Some(s) => "Some("@ + str_debug(s@) + ")"@,
        None => "None"@,
    }
}

fn opt_debug_text(o: &Option<String>) -> (s: String)
    ensures
        s@ == opt_debug(*o),
{
    match o {
        Some(v) => {
            let mut s = owned("Some(");
            let d = debug_text(v.as_str());
            push_str(&mut s, d.as_str());
            push_str(&mut s, ")");
            s
        },
        None => owned("None"),
    }
}

fn opt_text_eq(a: &Option<String>, b: &Option<String>) -> (r: bool)
    ensures
        r == (crate::lab::dual_run::opt_text(*a) == crate::lab::dual_run::opt_text(*b)),
{
    match (a, b) {
        (Some(x), Some(y)) => *x == *y,
        (None, None) => true,
        _ => false,
    }
}

/// Mismatches between two terminal outcomes.
pub open spec fn terminal_mismatches(lab: TerminalOutcome, live: TerminalOutcome) -> Seq<MismatchText> {
    one_if(lab.class != live.class, ("semantics.terminal_outcome.class"@, "Terminal outcome class mismatch"@,
        outcome_class_name(lab.class), outcome_class_name(live.class)))
    + one_if(lab.severity != live.severity, ("semantics.terminal_outcome.severity"@,
        "Terminal outcome severity mismatch"@, outcome_class_name(lab.severity), outcome_class_name(live.severity)))
    + one_if(crate::lab::dual_run::opt_text(lab.surface_result) != crate::lab::dual_run::opt_text(live.surface_result),
        ("semantics.terminal_outcome.surface_result"@, "Surface result mismatch"@,
        opt_debug(lab.surface_result), opt_debug(live.surface_result)))
    + one_if(crate::lab::dual_run::opt_text(lab.error_class) != crate::lab::dual_run::opt_text(live.error_class),
        ("semantics.terminal_outcome.error_class"@, "Error class mismatch"@,
        opt_debug(lab.error_class), opt_debug(live.error_class)))
}

/// Mismatch of a boolean cancellation flag `name`.
pub open spec fn cancel_flag_mismatch(name: Seq<char>, lab: bool, live: bool) -> Seq<MismatchText> {
    one_if(lab != live, ("semantics.cancellation."@ + name, "Cancellation "@ + name + " mismatch"@,
        bool_text(lab), bool_text(live)))
}

/// Mismatches of the four boolean cancellation flags.
pub open spec fn cancel_flags_mismatches(lab: CancellationRecord, live: CancellationRecord) -> Seq<MismatchText> {
    cancel_flag_mismatch("requested"@, lab.requested, live.requested)
    + cancel_flag_mismatch("acknowledged"@, lab.acknowledged, live.acknowledged)
    + cancel_flag_mismatch("cleanup_completed"@, lab.cleanup_completed, live.cleanup_completed)
    + cancel_flag_mismatch("finalization_completed"@, lab.finalization_completed, live.finalization_completed)
}

/// Mismatch of the terminal phases.
pub open spec fn cancel_phase_mismatch(lab: CancellationRecord, live: CancellationRecord) -> Seq<MismatchText> {
    one_if(lab.terminal_phase != live.terminal_phase, ("semantics.cancellation.terminal_phase"@,
        "Cancellation terminal phase mismatch"@, cancel_phase_name(lab.terminal_phase),
        cancel_phase_name(live.terminal_phase)))
}

/// Mismatch of the checkpoint flags, compared only when both sides report
/// one.
pub open spec fn checkpoint_mismatch(lab: CancellationRecord, live: CancellationRecord) -> Seq<MismatchText> {
    match (lab.checkpoint_observed, live.checkpoint_observed) {
        (Some(a), Some(b)) => one_if(a != b, ("semantics.cancellation.checkpoint_observed"@,
            "Checkpoint observed mismatch"@, bool_text(a), bool_text(b))),
        _ => Seq::empty(),
    }
}

/// Mismatches between two cancellation records.
pub open spec fn cancellation_mismatches(lab: CancellationRecord, live: CancellationRecord) -> Seq<MismatchText> {
    cancel_flags_mismatches(lab, live) + cancel_phase_mismatch(lab, live) + checkpoint_mismatch(lab, live)
}

/// Mismatches between two loser drain records.
pub open spec fn drain_mismatches(lab: LoserDrainRecord, live: LoserDrainRecord) -> Seq<MismatchText> {
    one_if(lab.status != live.status, ("semantics.loser_drain.status"@, "Loser drain status mismatch"@,
        drain_status_name(lab.status), drain_status_name(live.status)))
    + one_if(lab.applicable != live.applicable, ("semantics.loser_drain.applicable"@,
        "Loser drain applicability mismatch"@, bool_text(lab.applicable), bool_text(live.applicable)))
    + one_if(lab.expected_losers != live.expected_losers, ("semantics.loser_drain.expected_losers"@,
        "Expected losers count mismatch"@, decimal(lab.expected_losers as nat), decimal(live.expected_losers as nat)))
    + one_if(lab.drained_losers != live.drained_losers, ("semantics.loser_drain.drained_losers"@,
        "Drained losers count mismatch"@, decimal(lab.drained_losers as nat), decimal(live.drained_losers as nat)))
}

/// Mismatches between two region close records.
pub open spec fn region_mismatches(lab: RegionCloseRecord, live: RegionCloseRecord) -> Seq<MismatchText> {
    one_if(lab.root_state != live.root_state, ("semantics.region_close.root_state"@, "Region root state mismatch"@,
        region_state_name(lab.root_state), region_state_name(live.root_state)))
    + one_if(lab.quiescent != live.quiescent, ("semantics.region_close.quiescent"@, "Region quiescence mismatch"@,
        bool_text(lab.quiescent), bool_text(live.quiescent)))
    + one_if(lab.close_completed != live.close_completed, ("semantics.region_close.close_completed"@,
        "Region close completed mismatch"@, bool_text(lab.close_completed), bool_text(live.close_completed)))
}

/// Mismatches between two obligation balance records.
pub open spec fn obligation_mismatches(lab: ObligationBalanceRecord, live: ObligationBalanceRecord) -> Seq<MismatchText> {
    one_if(lab.balanced != live.balanced, ("semantics.obligation_balance.balanced"@, "Obligation balance mismatch"@,
        bool_text(lab.balanced), bool_text(live.balanced)))
    + one_if(lab.leaked != live.leaked, ("semantics.obligation_balance.leaked"@,
        "Leaked obligation count mismatch"@, decimal(lab.leaked as nat), decimal(live.leaked as nat)))
    + one_if(lab.unresolved != live.unresolved, ("semantics.obligation_balance.unresolved"@,
        "Unresolved obligation count mismatch"@, decimal(lab.unresolved as nat), decimal(live.unresolved as nat)))
}

/// Whether a live counter value breaks the tolerance against the lab value.
pub open spec fn breaks_tolerance(t: CounterTolerance, lab_val: i64, live_val: i64) -> bool {
    match t {
        CounterTolerance::Exact => lab_val != live_val,
        CounterTolerance::AtLeast => live_val < lab_val,
        CounterTolerance::AtMost => live_val > lab_val,
        CounterTolerance::Unsupported => false,
    }
}

/// Mismatch of the lab counter `name` with value `lab_val`; an absent live
/// counter counts as zero and an absent tolerance as exact.
pub open spec fn counter_mismatch(
    name: Seq<char>,
    lab_val: i64,
    live: Seq<(Seq<char>, i64)>,
    tolerances: Seq<(Seq<char>, CounterTolerance)>,
) -> Seq<MismatchText> {
    let live_val = match lookup(live, name) { Some(v) => v, None => 0i64 };
    let t = match lookup(tolerances, name) { Some(t) => t, None => CounterTolerance::Exact };
    one_if(breaks_tolerance(t, lab_val, live_val), ("semantics.resource_surface.counters."@ + name,
        "Counter '"@ + name + "' mismatch (tolerance: "@ + tolerance_name(t) + ")"@,
        signed_decimal(lab_val as int), signed_decimal(live_val as int)))
}

/// Mismatches of the lab counters, in lab key order.
pub open spec fn lab_counter_mismatches(
    lab: Seq<(Seq<char>, i64)>,
    live: Seq<(Seq<char>, i64)>,
    tolerances: Seq<(Seq<char>, CounterTolerance)>,
) -> Seq<MismatchText>
    decreases lab.len(),
{
    if lab.len() == 0 {
        Seq::empty()
    } else {
        lab_counter_mismatches(lab.drop_last(), live, tolerances)
            + counter_mismatch(lab.last().0, lab.last().1, live, tolerances)
    }
}

/// Mismatches of counters the live side has and the lab side lacks, in
/// live key order.
pub open spec fn live_only_mismatches(live: Seq<(Seq<char>, i64)>, lab: Seq<(Seq<char>, i64)>) -> Seq<MismatchText>
    decreases live.len(),
{
    if live.len() == 0 {
        Seq::empty()
    } else {
        let name = live.last().0;
        live_only_mismatches(live.drop_last(), lab) + one_if(lookup(lab, name) is None,
            ("semantics.resource_surface.counters."@ + name, "Counter '"@ + name + "' present in live but not in lab"@,
            "absent"@, signed_decimal(live.last().1 as int)))
    }
}

/// Mismatches between two resource surfaces: only the scope when the
/// scopes differ, else the counters.
pub open spec fn resource_mismatches(lab: ResourceSurfaceRecord, live: ResourceSurfaceRecord) -> Seq<MismatchText> {
    if lab.contract_scope@ != live.contract_scope@ {
        seq![("semantics.resource_surface.contract_scope"@, "Resource surface contract scope mismatch"@,
            lab.contract_scope@, live.contract_scope@)]
    } else {
        lab_counter_mismatches(lab.counters.pairs(), live.counters.pairs(), lab.tolerances.pairs())
            + live_only_mismatches(live.counters.pairs(), lab.counters.pairs())
    }
}

/// Mismatches between two semantic sections, in comparison order.
pub open spec fn semantic_mismatches(lab: NormalizedSemantics, live: NormalizedSemantics) -> Seq<MismatchText> {
    terminal_mismatches(lab.terminal_outcome, live.terminal_outcome)
    + cancellation_mismatches(lab.cancellation, live.cancellation)
    + drain_mismatches(lab.loser_drain, live.loser_drain)
    + region_mismatches(lab.region_close, live.region_close)
    + obligation_mismatches(lab.obligation_balance, live.obligation_balance)
    + resource_mismatches(lab.resource_surface, live.resource_surface)
}

/// Mismatches between two observables: schema, scenario, then semantics.
pub open spec fn observable_mismatches(lab: NormalizedObservable, live: NormalizedObservable) -> Seq<MismatchText> {
    one_if(lab.schema_version@ != live.schema_version@, ("schema_version"@, "Schema version mismatch"@,
        lab.schema_version@, live.schema_version@))
    + one_if(lab.scenario_id@ != live.scenario_id@, ("scenario_id"@, "Scenario ID mismatch"@,
        lab.scenario_id@, live.scenario_id@))
    + semantic_mismatches(lab.semantics, live.semantics)
}

proof fn lemma_concat<T>(t: Seq<T>, a: Seq<T>, b: Seq<T>, c: Seq<T>, d: Seq<T>, e: Seq<T>, f: Seq<T>)
    ensures
        t + a + b + c + d + e + f == t + (a + b + c + d + e + f),
{
    assert(t + a + b + c + d + e + f =~= t + (a + b + c + d + e + f));
}

fn record(out: &mut Vec<SemanticMismatch>, field: String, description: String, lab_value: String, live_value: String)
    ensures
        texts(final(out)@) == texts(old(out)@).push((field@, description@, lab_value@, live_value@)),
{
    let m = SemanticMismatch { field, description, lab_value, live_value };
    out.push(m);
    assert(texts(out@) =~= texts(old(out)@).push((field@, description@, lab_value@, live_value@)));
}

fn compare_terminal_outcome(lab: &TerminalOutcome, live: &TerminalOutcome, out: &mut Vec<SemanticMismatch>)
    ensures
        texts(final(out)@) == texts(old(out)@) + terminal_mismatches(*lab, *live),
{
    let ghost t0 = texts(out@);
    if lab.class != live.class {
        record(out, owned("semantics.terminal_outcome.class"), owned("Terminal outcome class mismatch"),
            lab.class.to_string(), live.class.to_string());
    }
    let ghost t1 = texts(out@);
    if lab.severity != live.severity {
        record(out, owned("semantics.terminal_outcome.severity"), owned("Terminal outcome severity mismatch"),
            lab.severity.to_string(), live.severity.to_string());
    }
    let ghost t2 = texts(out@);
    if !opt_text_eq(&lab.surface_result, &live.surface_result) {
        record(out, owned("semantics.terminal_outcome.surface_result"), owned("Surface result mismatch"),
            opt_debug_text(&lab.surface_result), opt_debug_text(&live.surface_result));
    }
    let ghost t3 = texts(out@);
    if !opt_text_eq(&lab.error_class, &live.error_class) {
        record(out, owned("semantics.terminal_outcome.error_class"), owned("Error class mismatch"),
            opt_debug_text(&lab.error_class), opt_debug_text(&live.error_class));
    }
    assert(texts(out@) =~= t0 + terminal_mismatches(*lab, *live));
}

fn compare_cancel_flag(name: &str, lab: bool, live: bool, out: &mut Vec<SemanticMismatch>)
    ensures
        texts(final(out)@) == texts(old(out)@) + cancel_flag_mismatch(name@, lab, live),
{
    let ghost t0 = texts(out@);
    if lab != live {
        let mut field = owned("semantics.cancellation.");
        push_str(&mut field, name);
        let mut desc = owned("Cancellation ");
        push_str(&mut desc, name);
        push_str(&mut desc, " mismatch");
        record(out, field, desc, bool_string(lab), bool_string(live));
    }
    assert(texts(out@) =~= t0 + cancel_flag_mismatch(name@, lab, live));
}

fn compare_cancel_flags(lab: &CancellationRecord, live: &CancellationRecord, out: &mut Vec<SemanticMismatch>)
    ensures
        texts(final(out)@) == texts(old(out)@) + cancel_flags_mismatches(*lab, *live),
{
    let ghost t0 = texts(out@);
    compare_cancel_flag("requested", lab.requested, live.requested, out);
    let ghost t1 = texts(out@);
    compare_cancel_flag("acknowledged", lab.acknowledged, live.acknowledged, out);
    let ghost t2 = texts(out@);
    compare_cancel_flag("cleanup_completed", lab.cleanup_completed, live.cleanup_completed, out);
    let ghost t3 = texts(out@);
    compare_cancel_flag("finalization_completed", lab.finalization_completed, live.finalization_completed, out);
    proof {
        let a = cancel_flag_mismatch("requested"@, lab.requested, live.requested);
        let b = cancel_flag_mismatch("acknowledged"@, lab.acknowledged, live.acknowledged);
        let c = cancel_flag_mismatch("cleanup_completed"@, lab.cleanup_completed, live.cleanup_completed);
        let d = cancel_flag_mismatch("finalization_completed"@, lab.finalization_completed, live.finalization_completed);
        lemma_concat(t0, a, b, c, d, Seq::empty(), Seq::empty());
        assert(t0 + a + b + c + d =~= t0 + a + b + c + d + Seq::empty() + Seq::empty());
        assert(a + b + c + d =~= a + b + c + d + Seq::empty() + Seq::empty());
    }
}

fn compare_cancellation(lab: &CancellationRecord, live: &CancellationRecord, out: &mut Vec<SemanticMismatch>)
    ensures
        texts(final(out)@) == texts(old(out)@) + cancellation_mismatches(*lab, *live),
{
    let ghost t0 = texts(out@);
    compare_cancel_flags(lab, live, out);
    let ghost t1 = texts(out@);
    if lab.terminal_phase != live.terminal_phase {
        record(out, owned("semantics.cancellation.terminal_phase"), owned("Cancellation terminal phase mismatch"),
            owned(cancel_phase_str(lab.terminal_phase)), owned(cancel_phase_str(live.terminal_phase)));
    }
    assert(texts(out@) =~= t1 + cancel_phase_mismatch(*lab, *live));
    let ghost t2 = texts(out@);
    match (lab.checkpoint_observed, live.checkpoint_observed) {
        (Some(a), Some(b)) => {
            if a != b {
                record(out, owned("semantics.cancellation.checkpoint_observed"), owned("Checkpoint observed mismatch"),
                    bool_string(a), bool_string(b));
            }
        },
        _ => {},
    }
    assert(texts(out@) =~= t2 + checkpoint_mismatch(*lab, *live));
    assert(texts(out@) =~= t0 + cancellation_mismatches(*lab, *live));
}

fn compare_loser_drain(lab: &LoserDrainRecord, live: &LoserDrainRecord, out: &mut Vec<SemanticMismatch>)
    ensures
        texts(final(out)@) == texts(old(out)@) + drain_mismatches(*lab, *live),
{
    let ghost t0 = texts(out@);
    if lab.status != live.status {
        record(out, owned("semantics.loser_drain.status"), owned("Loser drain status mismatch"),
            owned(drain_status_str(lab.status)), owned(drain_status_str(live.status)));
    }
    if lab.applicable != live.applicable {
        record(out, owned("semantics.loser_drain.applicable"), owned("Loser drain applicability mismatch"),
            bool_string(lab.applicable), bool_string(live.applicable));
    }
    if lab.expected_losers != live.expected_losers {
        record(out, owned("semantics.loser_drain.expected_losers"), owned("Expected losers count mismatch"),
            decimal_text(lab.expected_losers as u64), decimal_text(live.expected_losers as u64));
    }
    if lab.drained_losers != live.drained_losers {
        record(out, owned("semantics.loser_drain.drained_losers"), owned("Drained losers count mismatch"),
            decimal_text(lab.drained_losers as u64), decimal_text(live.drained_losers as u64));
    }
    assert(texts(out@) =~= t0 + drain_mismatches(*lab, *live));
}

fn compare_region_close(lab: &RegionCloseRecord, live: &RegionCloseRecord, out: &mut Vec<SemanticMismatch>)
    ensures
        texts(final(out)@) == texts(old(out)@) + region_mismatches(*lab, *live),
{
    let ghost t0 = texts(out@);
    if lab.root_state != live.root_state {
        record(out, owned("semantics.region_close.root_state"), owned("Region root state mismatch"),
            owned(region_state_str(lab.root_state)), owned(region_state_str(live.root_state)));
    }
    if lab.quiescent != live.quiescent {
        record(out, owned("semantics.region_close.quiescent"), owned("Region quiescence mismatch"),
            bool_string(lab.quiescent), bool_string(live.quiescent));
    }
    if lab.close_completed != live.close_completed {
        record(out, owned("semantics.region_close.close_completed"), owned("Region close completed mismatch"),
            bool_string(lab.close_completed), bool_string(live.close_completed));
    }
    assert(texts(out@) =~= t0 + region_mismatches(*lab, *live));
}

fn compare_obligation_balance(lab: &ObligationBalanceRecord, live: &ObligationBalanceRecord, out: &mut Vec<SemanticMismatch>)
    ensures
        texts(final(out)@) == texts(old(out)@) + obligation_mismatches(*lab, *live),
{
    let ghost t0 = texts(out@);
    if lab.balanced != live.balanced {
        record(out, owned("semantics.obligation_balance.balanced"), owned("Obligation balance mismatch"),
            bool_string(lab.balanced), bool_string(live.balanced));
    }
    if lab.leaked != live.leaked {
        record(out, owned("semantics.obligation_balance.leaked"), owned("Leaked obligation count mismatch"),
            decimal_text(lab.leaked as u64), decimal_text(live.leaked as u64));
    }
    if lab.unresolved != live.unresolved {
        record(out, owned("semantics.obligation_balance.unresolved"), owned("Unresolved obligation count mismatch"),
            decimal_text(lab.unresolved as u64), decimal_text(live.unresolved as u64));
    }
    assert(texts(out@) =~= t0 + obligation_mismatches(*lab, *live));
}

fn counter_field(name: &str) -> (s: String)
    ensures
        s@ == "semantics.resource_surface.counters."@ + name@,
{
    let mut s = owned("semantics.resource_surface.counters.");
    push_str(&mut s, name);
    s
}

fn compare_resource_surface(lab: &ResourceSurfaceRecord, live: &ResourceSurfaceRecord, out: &mut Vec<SemanticMismatch>)
    ensures
        texts(final(out)@) == texts(old(out)@) + resource_mismatches(*lab, *live),
{
    let ghost t0 = texts(out@);
    if lab.contract_scope != live.contract_scope {
        record(out, owned("semantics.resource_surface.contract_scope"), owned("Resource surface contract scope mismatch"),
            copy_string(&lab.contract_scope), copy_string(&live.contract_scope));
        assert(texts(out@) =~= t0 + resource_mismatches(*lab, *live));
        return;
    }
    let ghost labc = lab.counters.pairs();
    let ghost livec = live.counters.pairs();
    let ghost labt = lab.tolerances.pairs();
    let n = lab.counters.len();
    let mut i: usize = 0;
    assert(labc.take(0) =~= Seq::<(Seq<char>, i64)>::empty());
    while i < n
        invariant
            i <= n,
            n == labc.len(),
            labc == lab.counters.pairs(),
            livec == live.counters.pairs(),
            labt == lab.tolerances.pairs(),
            texts(out@) == t0 + lab_counter_mismatches(labc.take(i as int), livec, labt),
        decreases n - i,
    {
        let name = lab.counters.key_at(i);
        let lab_val: i64 = *lab.counters.value_at(i);
        let live_val: i64 = match live.counters.get(name.as_str()) {
            Some(v) => *v,
            None => 0,
        };
        let t = match lab.tolerances.get(name.as_str()) {
            Some(t) => *t,
            None => CounterTolerance::Exact,
        };
        let broken = match t {
            CounterTolerance::Exact => lab_val != live_val,
            CounterTolerance::AtLeast => live_val < lab_val,
            CounterTolerance::AtMost => live_val > lab_val,
            CounterTolerance::Unsupported => false,
        };
        let ghost before = texts(out@);
        if broken {
            let mut desc = owned("Counter '");
            push_str(&mut desc, name.as_str());
            push_str(&mut desc, "' mismatch (tolerance: ");
            push_str(&mut desc, tolerance_str(t));
            push_str(&mut desc, ")");
            record(out, counter_field(name.as_str()), desc, signed_decimal_text(lab_val), signed_decimal_text(live_val));
        }
        proof {
            let pre = labc.take(i as int);
            let post = labc.take(i + 1);
            assert(post.drop_last() =~= pre);
            assert(post.last() == labc[i as int]);
            assert(texts(out@) =~= before + counter_mismatch(labc[i as int].0, labc[i as int].1, livec, labt));
        }
        i = i + 1;
    }
    assert(labc.take(n as int) =~= labc);
    let ghost t1 = texts(out@);
    let m = live.counters.len();
    let mut j: usize = 0;
    assert(livec.take(0) =~= Seq::<(Seq<char>, i64)>::empty());
    while j < m
        invariant
            j <= m,
            m == livec.len(),
            labc == lab.counters.pairs(),
            livec == live.counters.pairs(),
            texts(out@) == t1 + live_only_mismatches(livec.take(j as int), labc),
        decreases m - j,
    {
        let name = live.counters.key_at(j);
        let live_val: i64 = *live.counters.value_at(j);
        let ghost before = texts(out@);
        if !lab.counters.contains_key(name.as_str()) {
            let mut desc = owned("Counter '");
            push_str(&mut desc, name.as_str());
            push_str(&mut desc, "' present in live but not in lab");
            record(out, counter_field(name.as_str()), desc, owned("absent"), signed_decimal_text(live_val));
        }
        proof {
            let pre = livec.take(j as int);
            let post = livec.take(j + 1);
            assert(post.drop_last() =~= pre);
            assert(post.last() == livec[j as int]);
            assert(texts(out@) =~= before + one_if(lookup(labc, livec[j as int].0) is None,
                ("semantics.resource_surface.counters."@ + livec[j as int].0,
                "Counter '"@ + livec[j as int].0 + "' present in live but not in lab"@,
                "absent"@, signed_decimal(livec[j as int].1 as int))));
        }
        j = j + 1;
    }
    assert(livec.take(m as int) =~= livec);
    assert(texts(out@) =~= t0 + resource_mismatches(*lab, *live));
}

/// Result of comparing two normalized observables.
#[derive(Debug, Clone)]
pub struct ComparisonVerdict {
    /// Scenario identity.
    pub scenario_id: String,
    /// Surface identity.
    pub surface_id: String,
    /// Whether the comparison passed (no semantic mismatches).
    pub passed: bool,
    /// Semantic mismatches found.
    pub mismatches: Vec<SemanticMismatch>,
    /// Seed lineage record for audit.
    pub seed_lineage: SeedLineageRecord,
}

/// Summary text of a verdict's fields.
pub open spec fn verdict_summary(
    passed: bool,
    scenario: Seq<char>,
    surface: Seq<char>,
    lineage: Seq<char>,
    mismatches: Seq<SemanticMismatch>,
) -> Seq<char> {
    if passed {
        "PASS: "@ + scenario + " on "@ + surface + " (seed lineage: "@ + lineage + ")"@
    } else {
        "FAIL: "@ + scenario + " on "@ + surface + " \u{2014} "@ + decimal(mismatches.len()) + " mismatch(es):\n  "@
            + joined(mismatches.map_values(|m: SemanticMismatch| m.line()), "\n  "@)
    }
}

impl ComparisonVerdict {
    /// Whether the verdict indicates semantic equivalence.
    pub fn is_equivalent(&self) -> (b: bool)
        ensures
            b == self.passed,
    {
        self.passed
    }

    /// The verdict's summary text.
    pub open spec fn summary_text(self) -> Seq<char> {
        verdict_summary(self.passed, self.scenario_id@, self.surface_id@, self.seed_lineage.seed_lineage_id@,
            self.mismatches@)
    }

    /// A human-readable summary: `PASS: ...` or `FAIL: ...` with one line
    /// per mismatch.
    pub fn summary(&self) -> (s: String)
        ensures
            s@ == self.summary_text(),
    {
        if self.passed {
            let mut s = owned("PASS: ");
            push_str(&mut s, self.scenario_id.as_str());
            push_str(&mut s, " on ");
            push_str(&mut s, self.surface_id.as_str());
            push_str(&mut s, " (seed lineage: ");
            push_str(&mut s, self.seed_lineage.seed_lineage_id.as_str());
            push_str(&mut s, ")");
            s
        } else {
            let mut lines: Vec<String> = Vec::new();
            let mut i: usize = 0;
            while i < self.mismatches.len()
                invariant
                    i <= self.mismatches.len(),
                    lines.deep_view() == self.mismatches@.take(i as int).map_values(|m: SemanticMismatch| m.line()),
                decreases self.mismatches.len() - i,
            {
                let l = self.mismatches[i].to_string();
                let ghost before = lines.deep_view();
                lines.push(l);
                proof {
                    assert(lines.deep_view() =~= before.push(l@));
                    assert(self.mismatches@.take(i + 1).map_values(|m: SemanticMismatch| m.line())
                        =~= self.mismatches@.take(i as int).map_values(|m: SemanticMismatch| m.line()).push(self.mismatches@[i as int].line()));
                }
                i = i + 1;
            }
            assert(self.mismatches@.take(self.mismatches.len() as int) =~= self.mismatches@);
            let mut s = owned("FAIL: ");
            push_str(&mut s, self.scenario_id.as_str());
            push_str(&mut s, " on ");
            push_str(&mut s, self.surface_id.as_str());
            push_str(&mut s, " \u{2014} ");
            let count = decimal_text(self.mismatches.len() as u64);
            push_str(&mut s, count.as_str());
            push_str(&mut s, " mismatch(es):\n  ");
            let body = crate::text::join(&lines, "\n  ");
            push_str(&mut s, body.as_str());
            s
        }
    }

    /// The verdict's summary text.
    pub fn to_string(&self) -> (s: String)
        ensures
            s@ == self.summary_text(),
    {
        self.summary()
    }
}

/// Compare two normalized observables and produce a verdict.
///
/// Compares all semantic fields; provenance is recorded but not compared.
pub fn compare_observables(
    lab: &NormalizedObservable,
    live: &NormalizedObservable,
    seed_lineage: SeedLineageRecord,
) -> (v: ComparisonVerdict)
    ensures
        texts(v.mismatches@) == observable_mismatches(*lab, *live),
        v.passed == (observable_mismatches(*lab, *live).len() == 0),
        v.scenario_id == lab.scenario_id,
        v.surface_id == lab.surface_id,
        v.seed_lineage == seed_lineage,
{
    let mut mismatches: Vec<SemanticMismatch> = Vec::new();
    assert(texts(mismatches@) =~= Seq::<MismatchText>::empty());
    if lab.schema_version != live.schema_version {
        record(&mut mismatches, owned("schema_version"), owned("Schema version mismatch"),
            copy_string(&lab.schema_version), copy_string(&live.schema_version));
    }
    if lab.scenario_id != live.scenario_id {
        record(&mut mismatches, owned("scenario_id"), owned("Scenario ID mismatch"),
            copy_string(&lab.scenario_id), copy_string(&live.scenario_id));
    }
    let ghost t2 = texts(mismatches@);
    assert(t2 =~= one_if(lab.schema_version@ != live.schema_version@, ("schema_version"@, "Schema version mismatch"@,
        lab.schema_version@, live.schema_version@))
        + one_if(lab.scenario_id@ != live.scenario_id@, ("scenario_id"@, "Scenario ID mismatch"@,
        lab.scenario_id@, live.scenario_id@)));
    compare_terminal_outcome(&lab.semantics.terminal_outcome, &live.semantics.terminal_outcome, &mut mismatches);
    compare_cancellation(&lab.semantics.cancellation, &live.semantics.cancellation, &mut mismatches);
    compare_loser_drain(&lab.semantics.loser_drain, &live.semantics.loser_drain, &mut mismatches);
    compare_region_close(&lab.semantics.region_close, &live.semantics.region_close, &mut mismatches);
    compare_obligation_balance(&lab.semantics.obligation_balance, &live.semantics.obligation_balance, &mut mismatches);
    compare_resource_surface(&lab.semantics.resource_surface, &live.semantics.resource_surface, &mut mismatches);
    proof {
        let a = lab.semantics;
        let b = live.semantics;
        lemma_concat(t2, terminal_mismatches(a.terminal_outcome, b.terminal_outcome),
            cancellation_mismatches(a.cancellation, b.cancellation),
            drain_mismatches(a.loser_drain, b.loser_drain),
            region_mismatches(a.region_close, b.region_close),
            obligation_mismatches(a.obligation_balance, b.obligation_balance),
            resource_mismatches(a.resource_surface, b.resource_surface));
    }
    let passed = mismatches.len() == 0;
    ComparisonVerdict {
        scenario_id: copy_string(&lab.scenario_id),
        surface_id: copy_string(&lab.surface_id),
        passed,
        mismatches,
        seed_lineage,
    }
}

/// The core invariants hold: no obligation leak, region quiescent, no
/// incomplete loser drain, and no cancellation left without cleanup.
pub open spec fn core_invariants_hold(s: NormalizedSemantics) -> bool {
    &&& s.obligation_balance.balanced
    &&& s.region_close.quiescent
    &&& !(s.loser_drain.applicable && s.loser_drain.status == DrainStatus::Incomplete)
    &&& !(s.cancellation.requested && !s.cancellation.cleanup_completed)
}

/// Messages of the core invariant violations, in check order.
pub open spec fn core_violations(s: NormalizedSemantics) -> Seq<Seq<char>> {
    let ob = s.obligation_balance;
    let rc = s.region_close;
    let ld = s.loser_drain;
    (if !ob.balanced {
        seq!["Obligation balance: leaked="@ + decimal(ob.leaked as nat) + ", unresolved="@ + decimal(ob.unresolved as nat)]
    } else {
        Seq::empty()
    }) + (if !rc.quiescent {
        seq!["Region not quiescent: state="@ + region_state_name(rc.root_state) + ", live_children="@
            + decimal(rc.live_children as nat) + ", finalizers_pending="@ + decimal(rc.finalizers_pending as nat)]
    } else {
        Seq::empty()
    }) + (if ld.applicable && ld.status == DrainStatus::Incomplete {
        seq!["Incomplete loser drain: expected="@ + decimal(ld.expected_losers as nat) + ", drained="@
            + decimal(ld.drained_losers as nat)]
    } else {
        Seq::empty()
    }) + (if s.cancellation.requested && !s.cancellation.cleanup_completed {
        seq!["Cancellation cleanup incomplete: phase="@ + cancel_phase_name(s.cancellation.terminal_phase)]
    } else {
        Seq::empty()
    })
}

/// Checks an observable against the core invariants; returns the
/// violations, empty exactly when they all hold.
pub fn check_core_invariants(obs: &NormalizedObservable) -> (v: Vec<String>)
    ensures
        v.deep_view() == core_violations(obs.semantics),
        v@.len() == 0 <==> core_invariants_hold(obs.semantics),
{
    let s = &obs.semantics;
    let mut v: Vec<String> = Vec::new();
    let ghost e = Seq::<Seq<char>>::empty();
    assert(v.deep_view() =~= e);
    if !s.obligation_balance.balanced {
        let mut m = owned("Obligation balance: leaked=");
        let a = decimal_text(s.obligation_balance.leaked as u64);
        push_str(&mut m, a.as_str());
        push_str(&mut m, ", unresolved=");
        let b = decimal_text(s.obligation_balance.unresolved as u64);
        push_str(&mut m, b.as_str());
        let ghost d0 = v.deep_view();
        v.push(m);
        assert(v.deep_view() =~= d0.push(m@));
    }
    let ghost d1 = v.deep_view();
    if !s.region_close.quiescent {
        let mut m = owned("Region not quiescent: state=");
        push_str(&mut m, region_state_str(s.region_close.root_state));
        push_str(&mut m, ", live_children=");
        let a = decimal_text(s.region_close.live_children as u64);
        push_str(&mut m, a.as_str());
        push_str(&mut m, ", finalizers_pending=");
        let b = decimal_text(s.region_close.finalizers_pending as u64);
        push_str(&mut m, b.as_str());
        v.push(m);
        assert(v.deep_view() =~= d1.push(m@));
    }
    let ghost d2 = v.deep_view();
    if s.loser_drain.applicable && s.loser_drain.status == DrainStatus::Incomplete {
        let mut m = owned("Incomplete loser drain: expected=");
        let a = decimal_text(s.loser_drain.expected_losers as u64);
        push_str(&mut m, a.as_str());
        push_str(&mut m, ", drained=");
        let b = decimal_text(s.loser_drain.drained_losers as u64);
        push_str(&mut m, b.as_str());
        v.push(m);
        assert(v.deep_view() =~= d2.push(m@));
    }
    let ghost d3 = v.deep_view();
    if s.cancellation.requested && !s.cancellation.cleanup_completed {
        let mut m = owned("Cancellation cleanup incomplete: phase=");
        push_str(&mut m, cancel_phase_str(s.cancellation.terminal_phase));
        v.push(m);
        assert(v.deep_view() =~= d3.push(m@));
    }
    assert(v.deep_view() =~= core_violations(obs.semantics));
    v
}

/// Compares actual semantics against expected ones, as a comparison of an
/// expected (lab-side) observable with an actual (live-side) one that
/// share schema and identity.
pub fn assert_semantics(actual: &NormalizedSemantics, expected: &NormalizedSemantics) -> (v: Vec<SemanticMismatch>)
    ensures
        texts(v@) == semantic_mismatches(*expected, *actual),
{
    let plan = SeedPlan::inherit(0, "");
    let lab = NormalizedObservable {
        schema_version: owned(NORMALIZED_OBSERVABLE_SCHEMA_VERSION),
        scenario_id: owned(""),
        surface_id: owned(""),
        surface_contract_version: owned(""),
        runtime_kind: RuntimeKind::Lab,
        semantics: expected.duplicate(),
        provenance: ReplayMetadata::for_lab(ScenarioFamilyId::new("", "", ""), &plan),
    };
    let live = NormalizedObservable {
        schema_version: owned(NORMALIZED_OBSERVABLE_SCHEMA_VERSION),
        scenario_id: owned(""),
        surface_id: owned(""),
        surface_contract_version: owned(""),
        runtime_kind: RuntimeKind::Live,
        semantics: actual.duplicate(),
        provenance: ReplayMetadata::for_live(ScenarioFamilyId::new("", "", ""), &plan),
    };
    let verdict = compare_observables(&lab, &live, SeedLineageRecord::from_plan(&plan));
    proof {
        lemma_same_semantics_mismatches(lab.semantics, *expected, live.semantics, *actual);
        assert(observable_mismatches(lab, live) =~= semantic_mismatches(lab.semantics, live.semantics));
    }
    verdict.mismatches
}

/// Mismatches depend on the semantics only through their contents.
pub proof fn lemma_same_semantics_mismatches(
    a: NormalizedSemantics,
    a2: NormalizedSemantics,
    b: NormalizedSemantics,
    b2: NormalizedSemantics,
)
    requires
        a.same(a2),
        b.same(b2),
    ensures
        semantic_mismatches(a, b) == semantic_mismatches(a2, b2),
{
}

proof fn lemma_own_counters_agree(c: Seq<(Seq<char>, i64)>, t: Seq<(Seq<char>, CounterTolerance)>, k: int)
    requires
        crate::text_map::ascending(c),
        0 <= k <= c.len(),
    ensures
        lab_counter_mismatches(c.take(k), c, t).len() == 0,
        live_only_mismatches(c.take(k), c).len() == 0,
    decreases k,
{
    if k > 0 {
        lemma_own_counters_agree(c, t, k - 1);
        assert(c.take(k).drop_last() =~= c.take(k - 1));
        assert(c.take(k).last() == c[k - 1]);
        lemma_lookup_ascending(c, k - 1);
    }
}

/// Comparing semantics with themselves finds no mismatch.
pub proof fn law_compare_reflexive(s: NormalizedSemantics)
    requires
        s.wf(),
    ensures
        semantic_mismatches(s, s).len() == 0,
{
    let c = s.resource_surface.counters.pairs();
    lemma_own_counters_agree(c, s.resource_surface.tolerances.pairs(), c.len() as int);
    assert(c.take(c.len() as int) =~= c);
}

/// Two observables with the same schema, scenario and semantics agree: a
/// comparison of them passes.
pub proof fn law_identical_observables_agree(lab: NormalizedObservable, live: NormalizedObservable)
    requires
        lab.semantics.wf(),
        lab.schema_version@ == live.schema_version@,
        lab.scenario_id@ == live.scenario_id@,
        lab.semantics.same(live.semantics),
    ensures
        observable_mismatches(lab, live).len() == 0,
{
    law_compare_reflexive(lab.semantics);
    lemma_same_semantics_mismatches(lab.semantics, lab.semantics, lab.semantics, live.semantics);
}

/// A comparison reads only the schema, the scenario and the semantics of
/// each side: surface, contract version, runtime kind and provenance change
/// no mismatch, and counter maps count by their entries.
pub proof fn law_comparison_reads_only_compared_fields(
    lab: NormalizedObservable,
    lab2: NormalizedObservable,
    live: NormalizedObservable,
    live2: NormalizedObservable,
)
    requires
        lab.schema_version@ == lab2.schema_version@,
        lab.scenario_id@ == lab2.scenario_id@,
        lab.semantics.same(lab2.semantics),
        live.schema_version@ == live2.schema_version@,
        live.scenario_id@ == live2.scenario_id@,
        live.semantics.same(live2.semantics),
    ensures
        observable_mismatches(lab, live) == observable_mismatches(lab2, live2),
{
    lemma_same_semantics_mismatches(lab.semantics, lab2.semantics, live.semantics, live2.semantics);
}

/// A lab counter is compared with the live counter of the same name (an
/// absent live counter counts as zero) under its tolerance (exact when none
/// is given): an exact counter is reported exactly when the values differ,
/// an at-least counter exactly when the live value falls below the lab
/// value, an at-most counter exactly when the live value exceeds it, and an
/// unsupported one never. A report names the counter and carries both values.
pub proof fn law_counter_tolerances(
    name: Seq<char>,
    lab_val: i64,
    live: Seq<(Seq<char>, i64)>,
    tolerances: Seq<(Seq<char>, CounterTolerance)>,
)
    ensures
        ({
            let live_val: i64 = match lookup(live, name) { Some(v) => v, None => 0i64 };
            let m = counter_mismatch(name, lab_val, live, tolerances);
            &&& m.len() <= 1
            &&& (lookup(tolerances, name) is None || lookup(tolerances, name) == Some(CounterTolerance::Exact))
                ==> (m.len() == 1 <==> live_val != lab_val)
            &&& lookup(tolerances, name) == Some(CounterTolerance::AtLeast) ==> (m.len() == 1 <==> live_val < lab_val)
            &&& lookup(tolerances, name) == Some(CounterTolerance::AtMost) ==> (m.len() == 1 <==> live_val > lab_val)
            &&& lookup(tolerances, name) == Some(CounterTolerance::Unsupported) ==> m.len() == 0
            &&& m.len() == 1 ==> m[0].0 == "semantics.resource_surface.counters."@ + name
                && m[0].2 == signed_decimal(lab_val as int) && m[0].3 == signed_decimal(live_val as int)
        }),
{
}

} // verus!
