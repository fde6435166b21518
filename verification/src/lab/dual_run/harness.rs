//! The dual-run harness: runs a scenario once on the lab side and once on
//! the live side from one seed plan, checks both against the core
//! invariants, and compares them.

use vstd::prelude::*;
use crate::lab::config::LabConfig;
use crate::lab::dual_run::compare::{
    check_core_invariants, compare_observables, core_invariants_hold, core_violations, law_identical_observables_agree,
    observable_mismatches, texts, ComparisonVerdict,
};
use crate::lab::dual_run::observable::{NormalizedObservable, NormalizedSemantics};
use crate::lab::dual_run::{DualRunScenarioIdentity, ReplayMetadata, RuntimeKind, SeedLineageRecord, SeedPlan};
use crate::text::{joined, owned, push_str};

verus! {

/// Result of a dual-run harness execution.
#[derive(Debug, Clone)]
pub struct DualRunResult {
    /// Lab-side normalized observable.
    pub lab: NormalizedObservable,
    /// Live-side normalized observable.
    pub live: NormalizedObservable,
    /// Comparison verdict.
    pub verdict: ComparisonVerdict,
    /// Core invariant violations of the lab run.
    pub lab_invariant_violations: Vec<String>,
    /// Core invariant violations of the live run.
    pub live_invariant_violations: Vec<String>,
    /// Seed lineage record.
    pub seed_lineage: SeedLineageRecord,
}

/// Summary lines of a result: the verdict's summary, then each side's
/// violations when it has any.
pub open spec fn result_lines(verdict: Seq<char>, lab: Seq<Seq<char>>, live: Seq<Seq<char>>) -> Seq<Seq<char>> {
    seq![verdict]
        + (if lab.len() > 0 { seq!["Lab invariant violations: "@ + joined(lab, "; "@)] } else { Seq::empty() })
        + (if live.len() > 0 { seq!["Live invariant violations: "@ + joined(live, "; "@)] } else { Seq::empty() })
}

impl DualRunResult {
    /// The dual run passed: no mismatches and no violations on either side.
    pub open spec fn passes(self) -> bool {
        &&& self.verdict.passed
        &&& self.lab_invariant_violations@.len() == 0
        &&& self.live_invariant_violations@.len() == 0
    }

    /// Whether the dual run passed: no semantic mismatch and no invariant
    /// violation on either side.
    pub fn passed(&self) -> (b: bool)
        ensures
            b == self.passes(),
    {
        self.verdict.passed && self.lab_invariant_violations.len() == 0 && self.live_invariant_violations.len() == 0
    }

    /// The summary text.
    pub open spec fn summary_text(self) -> Seq<char> {
        joined(result_lines(self.verdict.summary_text(), self.lab_invariant_violations.deep_view(),
            self.live_invariant_violations.deep_view()), "\n"@)
    }

    /// Formatted summary: the verdict's summary, and a line per side that
    /// has invariant violations.
    pub fn summary(&self) -> (s: String)
        ensures
            s@ == self.summary_text(),
    {
        let mut parts: Vec<String> = Vec::new();
        parts.push(self.verdict.summary());
        let ghost p1 = parts.deep_view();
        if self.lab_invariant_violations.len() > 0 {
            let mut line = owned("Lab invariant violations: ");
            let j = crate::text::join(&self.lab_invariant_violations, "; ");
            push_str(&mut line, j.as_str());
            parts.push(line);
            assert(parts.deep_view() =~= p1.push(line@));
        }
        let ghost p2 = parts.deep_view();
        if self.live_invariant_violations.len() > 0 {
            let mut line = owned("Live invariant violations: ");
            let j = crate::text::join(&self.live_invariant_violations, "; ");
            push_str(&mut line, j.as_str());
            parts.push(line);
            assert(parts.deep_view() =~= p2.push(line@));
        }
        assert(parts.deep_view() =~= result_lines(self.verdict.summary_text(), self.lab_invariant_violations.deep_view(),
            self.live_invariant_violations.deep_view()));
        crate::text::join(&parts, "\n")
    }

    /// The summary text.
    pub fn to_string(&self) -> (s: String)
        ensures
            s@ == self.summary_text(),
    {
        self.summary()
    }
}

/// Marks a harness side that has no execution function yet.
#[derive(Debug, Clone, Copy)]
pub struct NotSet;

/// Builder for dual-run differential test harnesses. A harness runs only
/// once both its lab and live functions are set.
pub struct DualRunHarness<L, R> {
    identity: DualRunScenarioIdentity,
    lab_fn: L,
    live_fn: R,
}

impl DualRunHarness<NotSet, NotSet> {
    /// A Phase 1 harness builder whose plan inherits `canonical_seed`.
    pub fn phase1(
        scenario_id: &str,
        surface_id: &str,
        contract_version: &str,
        description: &str,
        canonical_seed: u64,
    ) -> (h: Self)
        ensures
            h.identity().scenario_id@ == scenario_id@,
            h.identity().surface_id@ == surface_id@,
            h.identity().surface_contract_version@ == contract_version@,
            h.identity().description@ == description@,
            h.identity().seed_plan.inherits(canonical_seed, scenario_id@),
    {
        DualRunHarness {
            identity: DualRunScenarioIdentity::phase1(scenario_id, surface_id, contract_version, description, canonical_seed),
            lab_fn: NotSet,
            live_fn: NotSet,
        }
    }

    /// A harness builder for an existing identity.
    pub fn from_identity(identity: DualRunScenarioIdentity) -> (h: Self)
        ensures
            h.identity() == identity,
    {
        DualRunHarness { identity, lab_fn: NotSet, live_fn: NotSet }
    }
}

impl<L, R> DualRunHarness<L, R> {
    /// The scenario identity.
    pub closed spec fn identity(self) -> DualRunScenarioIdentity {
        self.identity
    }

    /// The lab execution function.
    pub closed spec fn lab_fn(self) -> L {
        self.lab_fn
    }

    /// The live execution function.
    pub closed spec fn live_fn(self) -> R {
        self.live_fn
    }

    /// Set the lab execution function; it receives the plan's lab
    /// configuration and returns the lab run's semantics.
    pub fn lab<F: FnOnce(LabConfig) -> NormalizedSemantics>(self, f: F) -> (h: DualRunHarness<F, R>)
        ensures
            h.identity() == self.identity(),
            h.lab_fn() == f,
            h.live_fn() == self.live_fn(),
    {
        DualRunHarness { identity: self.identity, lab_fn: f, live_fn: self.live_fn }
    }

    /// Set the live execution function; it receives the plan's live
    /// `(effective_seed, entropy_seed)` and returns the live run's semantics.
    pub fn live<G: FnOnce(u64, u64) -> NormalizedSemantics>(self, f: G) -> (h: DualRunHarness<L, G>)
        ensures
            h.identity() == self.identity(),
            h.lab_fn() == self.lab_fn(),
            h.live_fn() == f,
    {
        DualRunHarness { identity: self.identity, lab_fn: self.lab_fn, live_fn: f }
    }

    /// Replace the seed plan.
    pub fn with_seed_plan(self, plan: SeedPlan) -> (h: Self)
        ensures
            h.identity() == (DualRunScenarioIdentity { seed_plan: plan, ..self.identity() }),
            h.lab_fn() == self.lab_fn(),
            h.live_fn() == self.live_fn(),
    {
        DualRunHarness { identity: self.identity.with_seed_plan(plan), lab_fn: self.lab_fn, live_fn: self.live_fn }
    }
}

impl<L: FnOnce(LabConfig) -> NormalizedSemantics, R: FnOnce(u64, u64) -> NormalizedSemantics> DualRunHarness<L, R> {
    /// Runs both sides and compares them.
    ///
    /// The lab function gets the plan's lab configuration; the live
    /// function gets the plan's live seed and entropy seed. Each side's
    /// observable carries fresh provenance for its runtime; both are
    /// checked against the core invariants and compared.
    pub fn run(self) -> (r: DualRunResult)
        requires
            forall|c: LabConfig| #[trigger] self.lab_fn().requires((c,)),
            forall|s: u64, e: u64| #[trigger] self.live_fn().requires((s, e)),
        ensures
            ({
                let id = self.identity();
                let plan = id.seed_plan;
                &&& self.lab_fn().ensures((plan.lab_config(),), r.lab.semantics)
                &&& self.live_fn().ensures((plan.live_seed(), plan.entropy_for(plan.live_seed())), r.live.semantics)
                &&& r.lab.runtime_kind == RuntimeKind::Lab
                &&& r.live.runtime_kind == RuntimeKind::Live
                &&& r.lab.scenario_id == id.scenario_id && r.live.scenario_id == id.scenario_id
                &&& r.lab.surface_id == id.surface_id && r.live.surface_id == id.surface_id
                &&& r.lab.schema_version@ == r.live.schema_version@
                &&& r.lab.provenance.fresh(id.family(), plan, RuntimeKind::Lab)
                &&& r.live.provenance.fresh(id.family(), plan, RuntimeKind::Live)
                &&& r.lab_invariant_violations.deep_view() == core_violations(r.lab.semantics)
                &&& r.live_invariant_violations.deep_view() == core_violations(r.live.semantics)
                &&& texts(r.verdict.mismatches@) == observable_mismatches(r.lab, r.live)
                &&& r.verdict.passed == (observable_mismatches(r.lab, r.live).len() == 0)
                &&& r.seed_lineage.describes(plan)
                &&& r.verdict.seed_lineage.describes(plan)
            }),
            r.passes() <==> (r.verdict.passed && core_invariants_hold(r.lab.semantics)
                && core_invariants_hold(r.live.semantics)),
            r.lab.semantics.wf() && r.lab.semantics.same(r.live.semantics) ==> r.verdict.passed,
    {
        let plan = &self.identity.seed_plan;
        let family = self.identity.family_id();
        let lab_config = plan.to_lab_config();
        assert(self.lab_fn().requires((lab_config,)));
        let lab_fn = self.lab_fn;
        let lab_semantics = lab_fn(lab_config);
        let lab_prov = ReplayMetadata::for_lab(crate::lab::dual_run::copy_family(&family), plan);
        let lab_obs = NormalizedObservable::new(&self.identity, RuntimeKind::Lab, lab_semantics, lab_prov);
        let live_seed = plan.effective_live_seed();
        let live_entropy = plan.effective_entropy_seed(live_seed);
        assert(self.live_fn().requires((live_seed, live_entropy)));
        let live_fn = self.live_fn;
        let live_semantics = live_fn(live_seed, live_entropy);
        let live_prov = ReplayMetadata::for_live(family, plan);
        let live_obs = NormalizedObservable::new(&self.identity, RuntimeKind::Live, live_semantics, live_prov);
        let lab_violations = check_core_invariants(&lab_obs);
        let live_violations = check_core_invariants(&live_obs);
        let lineage = SeedLineageRecord::from_plan(plan);
        let verdict = compare_observables(&lab_obs, &live_obs, SeedLineageRecord::from_plan(plan));
        proof {
            if lab_obs.semantics.wf() && lab_obs.semantics.same(live_obs.semantics) {
                law_identical_observables_agree(lab_obs, live_obs);
            }
        }
        DualRunResult {
            lab: lab_obs,
            live: live_obs,
            verdict,
            lab_invariant_violations: lab_violations,
            live_invariant_violations: live_violations,
            seed_lineage: lineage,
        }
    }
}

/// Checks that a dual run passed; a failing run may not be handed to it.
pub fn assert_dual_run_passes(result: &DualRunResult)
    requires
        result.passes(),
{
}

} // verus!
