//! The live runner adapter: configuration from the seed plan, a witness
//! collector the live execution records its evidence into, and the entry
//! point that runs a live execution and normalizes what it recorded.

use vstd::prelude::*;
use crate::lab::dual_run::observable::{
    CancellationRecord, CounterTolerance, LoserDrainRecord, NormalizedSemantics, ObligationBalanceRecord,
    RegionCloseRecord, ResourceSurfaceRecord, TerminalOutcome,
};
use crate::lab::dual_run::{DualRunScenarioIdentity, ReplayMetadata, RuntimeKind, SeedPlan};
use crate::text::{copy_string, hex_upper, hex_upper_text, owned, push_str};

verus! {

/// Execution profile for the live runner.
#[derive(Debug, Clone, Copy, PartialEq, Eq, Structural)]
pub enum LiveExecutionProfile {
    /// Phase 1: a single-threaded current-thread runtime with no ambient
    /// globals and an explicit context.
    CurrentThread,
}

impl LiveExecutionProfile {
    /// Text of the profile (`phase1.current_thread`).
    pub fn to_string(&self) -> (s: String)
        ensures
            s@ == "phase1.current_thread"@,
    {
        owned("phase1.current_thread")
    }
}

/// Configuration for a live runner execution.
#[derive(Debug, Clone)]
pub struct LiveRunnerConfig {
    /// Effective seed for this live execution.
    pub seed: u64,
    /// Effective entropy seed.
    pub entropy_seed: u64,
    /// Execution profile.
    pub profile: LiveExecutionProfile,
    /// Scenario identity.
    pub scenario_id: String,
    /// Surface identity.
    pub surface_id: String,
    /// Seed lineage ID for audit.
    pub seed_lineage_id: String,
}

impl LiveRunnerConfig {
    /// The configuration derives its seeds from `plan`'s live side.
    pub open spec fn from_plan_seeds(self, plan: SeedPlan) -> bool {
        &&& self.seed == plan.live_seed()
        &&& self.entropy_seed == plan.entropy_for(plan.live_seed())
        &&& self.profile == LiveExecutionProfile::CurrentThread
        &&& self.seed_lineage_id == plan.seed_lineage_id
    }

    /// A live runner config for `identity`: the live seeds of its plan.
    pub fn from_identity(identity: &DualRunScenarioIdentity) -> (c: Self)
        ensures
            c.from_plan_seeds(identity.seed_plan),
            c.scenario_id == identity.scenario_id,
            c.surface_id == identity.surface_id,
    {
        let live_seed = identity.seed_plan.effective_live_seed();
        let entropy = identity.seed_plan.effective_entropy_seed(live_seed);
        LiveRunnerConfig {
            seed: live_seed,
            entropy_seed: entropy,
            profile: LiveExecutionProfile::CurrentThread,
            scenario_id: copy_string(&identity.scenario_id),
            surface_id: copy_string(&identity.surface_id),
            seed_lineage_id: copy_string(&identity.seed_plan.seed_lineage_id),
        }
    }

    /// A live runner config from a seed plan and scenario identity.
    pub fn from_plan(plan: &SeedPlan, scenario_id: &str, surface_id: &str) -> (c: Self)
        ensures
            c.from_plan_seeds(*plan),
            c.scenario_id@ == scenario_id@,
            c.surface_id@ == surface_id@,
    {
        let live_seed = plan.effective_live_seed();
        let entropy = plan.effective_entropy_seed(live_seed);
        LiveRunnerConfig {
            seed: live_seed,
            entropy_seed: entropy,
            profile: LiveExecutionProfile::CurrentThread,
            scenario_id: owned(scenario_id),
            surface_id: owned(surface_id),
            seed_lineage_id: copy_string(&plan.seed_lineage_id),
        }
    }

    /// Text `LiveRunner(scenario=<id>, surface=<id>, seed=0x<HEX>, profile=<profile>)`.
    pub fn to_string(&self) -> (s: String)
        ensures
            s@ == "LiveRunner(scenario="@ + self.scenario_id@ + ", surface="@ + self.surface_id@ + ", seed=0x"@
                + hex_upper(self.seed as nat) + ", profile="@ + "phase1.current_thread"@ + ")"@,
    {
        let mut s = owned("LiveRunner(scenario=");
        push_str(&mut s, self.scenario_id.as_str());
        push_str(&mut s, ", surface=");
        push_str(&mut s, self.surface_id.as_str());
        push_str(&mut s, ", seed=0x");
        let h = hex_upper_text(self.seed);
        push_str(&mut s, h.as_str());
        push_str(&mut s, ", profile=");
        let p = self.profile.to_string();
        push_str(&mut s, p.as_str());
        push_str(&mut s, ")");
        s
    }

    /// A copy of the config.
    pub fn duplicate(&self) -> (c: Self)
        ensures
            c == *self,
    {
        LiveRunnerConfig {
            seed: self.seed,
            entropy_seed: self.entropy_seed,
            profile: self.profile,
            scenario_id: copy_string(&self.scenario_id),
            surface_id: copy_string(&self.surface_id),
            seed_lineage_id: copy_string(&self.seed_lineage_id),
        }
    }
}

/// Witness collector for live-side semantic evidence.
///
/// The live execution records evidence from explicit witnesses (joined
/// handles, counters, lifecycle hooks); the collector turns it into
/// normalized semantics at the end. Every field starts at its clean,
/// happy-path value.
#[derive(Debug)]
pub struct LiveWitnessCollector {
    terminal_outcome: TerminalOutcome,
    cancellation: CancellationRecord,
    loser_drain: LoserDrainRecord,
    region_close: RegionCloseRecord,
    obligation_balance: ObligationBalanceRecord,
    resource_surface: ResourceSurfaceRecord,
    nondeterminism_notes: Vec<String>,
}

impl LiveWitnessCollector {
    #[verifier::type_invariant]
    spec fn counters_wf(self) -> bool {
        self.resource_surface.wf()
    }

    /// The semantics the collector holds so far.
    pub closed spec fn semantics(self) -> NormalizedSemantics {
        NormalizedSemantics {
            terminal_outcome: self.terminal_outcome,
            cancellation: self.cancellation,
            loser_drain: self.loser_drain,
            region_close: self.region_close,
            obligation_balance: self.obligation_balance,
            resource_surface: self.resource_surface,
        }
    }

    /// The nondeterminism notes recorded so far, in order.
    pub closed spec fn notes(self) -> Seq<String> {
        self.nondeterminism_notes@
    }

    /// The collector holds the clean defaults for `surface_scope`: `ok`
    /// outcome, no cancellation, no loser drain, a quiescent region, zero
    /// obligations, an empty resource surface and no notes.
    pub open spec fn is_fresh_for(self, surface_scope: Seq<char>) -> bool {
        &&& self.semantics().terminal_outcome == TerminalOutcome::ok_spec()
        &&& self.semantics().cancellation == CancellationRecord::none_spec()
        &&& self.semantics().loser_drain == LoserDrainRecord::not_applicable_spec()
        &&& self.semantics().region_close == RegionCloseRecord::quiescent_spec()
        &&& self.semantics().obligation_balance == ObligationBalanceRecord::zero_spec()
        &&& self.semantics().resource_surface.contract_scope@ == surface_scope
        &&& self.semantics().resource_surface.counters.pairs().len() == 0
        &&& self.semantics().resource_surface.tolerances.pairs().len() == 0
        &&& self.notes().len() == 0
    }

    /// A collector with clean defaults: `ok` outcome, no cancellation, no
    /// loser drain, a quiescent region, zero obligations, and an empty
    /// resource surface for `surface_scope`.
    pub fn new(surface_scope: &str) -> (w: Self)
        ensures
            w.is_fresh_for(surface_scope@),
            w.semantics().terminal_outcome == TerminalOutcome::ok_spec(),
            w.semantics().cancellation == CancellationRecord::none_spec(),
            w.semantics().loser_drain == LoserDrainRecord::not_applicable_spec(),
            w.semantics().region_close == RegionCloseRecord::quiescent_spec(),
            w.semantics().obligation_balance == ObligationBalanceRecord::zero_spec(),
            w.semantics().resource_surface.contract_scope@ == surface_scope@,
            w.semantics().resource_surface.counters.pairs().len() == 0,
            w.semantics().resource_surface.tolerances.pairs().len() == 0,
            w.notes().len() == 0,
    {
        LiveWitnessCollector {
            terminal_outcome: TerminalOutcome::ok(),
            cancellation: CancellationRecord::none(),
            loser_drain: LoserDrainRecord::not_applicable(),
            region_close: RegionCloseRecord::quiescent(),
            obligation_balance: ObligationBalanceRecord::zero(),
            resource_surface: ResourceSurfaceRecord::empty(surface_scope),
            nondeterminism_notes: Vec::new(),
        }
    }

    /// Record the terminal outcome.
    pub fn set_outcome(&mut self, outcome: TerminalOutcome)
        ensures
            final(self).semantics() == (NormalizedSemantics { terminal_outcome: outcome, ..old(self).semantics() }),
            final(self).notes() == old(self).notes(),
    {
        proof { use_type_invariant(&*self); }
        self.terminal_outcome = outcome;
    }

    /// Record cancellation evidence.
    pub fn set_cancellation(&mut self, record: CancellationRecord)
        ensures
            final(self).semantics() == (NormalizedSemantics { cancellation: record, ..old(self).semantics() }),
            final(self).notes() == old(self).notes(),
    {
        proof { use_type_invariant(&*self); }
        self.cancellation = record;
    }

    /// Record loser drain evidence.
    pub fn set_loser_drain(&mut self, record: LoserDrainRecord)
        ensures
            final(self).semantics() == (NormalizedSemantics { loser_drain: record, ..old(self).semantics() }),
            final(self).notes() == old(self).notes(),
    {
        proof { use_type_invariant(&*self); }
        self.loser_drain = record;
    }

    /// Record region close evidence.
    pub fn set_region_close(&mut self, record: RegionCloseRecord)
        ensures
            final(self).semantics() == (NormalizedSemantics { region_close: record, ..old(self).semantics() }),
            final(self).notes() == old(self).notes(),
    {
        proof { use_type_invariant(&*self); }
        self.region_close = record;
    }

    /// Record obligation balance evidence.
    pub fn set_obligation_balance(&mut self, record: ObligationBalanceRecord)
        ensures
            final(self).semantics() == (NormalizedSemantics { obligation_balance: record, ..old(self).semantics() }),
            final(self).notes() == old(self).notes(),
    {
        proof { use_type_invariant(&*self); }
        self.obligation_balance = record;
    }

    /// Set resource counter `name` to `value`, compared exactly.
    pub fn record_counter(&mut self, name: &str, value: i64)
        ensures
            final(self).semantics().resource_surface.counters.at(name@) == Some(value),
            final(self).semantics().resource_surface.tolerances.at(name@) == Some(CounterTolerance::Exact),
            forall|q: Seq<char>| q != name@ ==> #[trigger] final(self).semantics().resource_surface.counters.at(q)
                == old(self).semantics().resource_surface.counters.at(q),
            forall|q: Seq<char>| q != name@ ==> #[trigger] final(self).semantics().resource_surface.tolerances.at(q)
                == old(self).semantics().resource_surface.tolerances.at(q),
            final(self).semantics().resource_surface.contract_scope == old(self).semantics().resource_surface.contract_scope,
            final(self).semantics() == (NormalizedSemantics {
                resource_surface: final(self).semantics().resource_surface,
                ..old(self).semantics()
            }),
            final(self).notes() == old(self).notes(),
    {
        self.record_counter_with_tolerance(name, value, CounterTolerance::Exact);
    }

    /// Set resource counter `name` to `value` with a tolerance.
    pub fn record_counter_with_tolerance(&mut self, name: &str, value: i64, tolerance: CounterTolerance)
        ensures
            final(self).semantics().resource_surface.counters.at(name@) == Some(value),
            final(self).semantics().resource_surface.tolerances.at(name@) == Some(tolerance),
            forall|q: Seq<char>| q != name@ ==> #[trigger] final(self).semantics().resource_surface.counters.at(q)
                == old(self).semantics().resource_surface.counters.at(q),
            forall|q: Seq<char>| q != name@ ==> #[trigger] final(self).semantics().resource_surface.tolerances.at(q)
                == old(self).semantics().resource_surface.tolerances.at(q),
            final(self).semantics().resource_surface.contract_scope == old(self).semantics().resource_surface.contract_scope,
            final(self).semantics() == (NormalizedSemantics {
                resource_surface: final(self).semantics().resource_surface,
                ..old(self).semantics()
            }),
            final(self).notes() == old(self).notes(),
    {
        proof { use_type_invariant(&*self); }
        let mut surface = ResourceSurfaceRecord::empty("");
        std::mem::swap(&mut surface, &mut self.resource_surface);
        surface.set_counter(name, value, tolerance);
        self.resource_surface = surface;
    }

    /// Note a nondeterminism qualifier (e.g. "scheduler ordering may vary").
    pub fn note_nondeterminism(&mut self, note: &str)
        ensures
            final(self).semantics() == old(self).semantics(),
            final(self).notes().len() == old(self).notes().len() + 1,
            final(self).notes().drop_last() == old(self).notes(),
            final(self).notes().last()@ == note@,
    {
        proof { use_type_invariant(&*self); }
        let mut notes: Vec<String> = Vec::new();
        std::mem::swap(&mut notes, &mut self.nondeterminism_notes);
        notes.push(owned(note));
        self.nondeterminism_notes = notes;
        assert(self.nondeterminism_notes@.drop_last() =~= old(self).nondeterminism_notes@);
    }

    /// The recorded evidence as normalized semantics.
    pub fn finalize(self) -> (s: NormalizedSemantics)
        ensures
            s == self.semantics(),
            s.wf(),
    {
        proof { use_type_invariant(&self); }
        NormalizedSemantics {
            terminal_outcome: self.terminal_outcome,
            cancellation: self.cancellation,
            loser_drain: self.loser_drain,
            region_close: self.region_close,
            obligation_balance: self.obligation_balance,
            resource_surface: self.resource_surface,
        }
    }

    /// The nondeterminism notes, in order.
    pub fn nondeterminism_notes(&self) -> (r: &[String])
        ensures
            r@ == self.notes(),
    {
        self.nondeterminism_notes.as_slice()
    }
}

/// Structured metadata emitted by a live run.
#[derive(Debug, Clone)]
pub struct LiveRunMetadata {
    /// Configuration used.
    pub config: LiveRunnerConfig,
    /// Nondeterminism qualifiers observed.
    pub nondeterminism_notes: Vec<String>,
    /// Replay metadata for this execution.
    pub replay: ReplayMetadata,
}

/// Result of a live runner execution.
#[derive(Debug, Clone)]
pub struct LiveRunResult {
    /// Normalized semantics from the live run.
    pub semantics: NormalizedSemantics,
    /// Structured run metadata.
    pub metadata: LiveRunMetadata,
}

fn copy_notes(v: &[String]) -> (r: Vec<String>)
    ensures
        r@ == v@,
{
    let mut r: Vec<String> = Vec::new();
    let mut i: usize = 0;
    while i < v.len()
        invariant
            i <= v.len(),
            r@ == v@.take(i as int),
        decreases v.len() - i,
    {
        r.push(copy_string(&v[i]));
        assert(r@ =~= v@.take(i + 1));
        i = i + 1;
    }
    assert(v@.take(v.len() as int) =~= v@);
    r
}

/// Runs a live execution of `identity`: builds the live runner config from
/// its seed plan, hands it with a fresh witness collector (scoped to the
/// surface) to `f`, and normalizes what `f` recorded.
///
/// `f` is called once, on that config and on a collector fresh for the
/// surface; the result carries the collector's semantics and notes as `f`
/// left them.
pub fn run_live_adapter(
    identity: &DualRunScenarioIdentity,
    f: impl FnOnce(&LiveRunnerConfig, &mut LiveWitnessCollector),
) -> (r: LiveRunResult)
    requires
        forall|c: &LiveRunnerConfig, w: &mut LiveWitnessCollector| #[trigger] f.requires((c, w)),
    ensures
        r.semantics.wf(),
        r.metadata.config.from_plan_seeds(identity.seed_plan),
        r.metadata.config.scenario_id == identity.scenario_id,
        r.metadata.config.surface_id == identity.surface_id,
        r.metadata.replay.fresh(identity.family(), identity.seed_plan, RuntimeKind::Live),
        exists|w: &mut LiveWitnessCollector|
            {
                &&& #[trigger] call_ensures(f, (&r.metadata.config, w), ())
                &&& (*w).is_fresh_for(identity.surface_id@)
                &&& r.semantics == (*final(w)).semantics()
                &&& r.metadata.nondeterminism_notes@ == (*final(w)).notes()
            },
{
    let config = LiveRunnerConfig::from_identity(identity);
    let mut witness = LiveWitnessCollector::new(identity.surface_id.as_str());
    f(&config, &mut witness);
    let nondeterminism_notes = copy_notes(witness.nondeterminism_notes());
    let semantics = witness.finalize();
    let replay = ReplayMetadata::for_live(identity.family_id(), &identity.seed_plan);
    LiveRunResult { semantics, metadata: LiveRunMetadata { config, nondeterminism_notes, replay } }
}

} // verus!
