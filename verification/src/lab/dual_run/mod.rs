//! Dual-run scenario types for lab-vs-live differential testing.
//!
//! A scenario runs once on the deterministic lab runtime and once on the
//! live runtime from one [`SeedPlan`]; both executions are reduced to a
//! [`NormalizedSemantics`] record and compared field by field.
//!
//! Two layers of identity are kept apart: the scenario *family* (the
//! stable adversarial case, surviving reruns and promotion) and the
//! execution *instance* (one concrete run: seed, runtime, run index).

pub mod capture;
pub mod compare;
pub mod harness;
pub mod identity;
pub mod live;
pub mod observable;
pub mod promote;

pub use self::capture::{
    capture_cancellation, capture_loser_drain, capture_obligation_balance, capture_region_close,
    capture_terminal_from_result, capture_terminal_outcome, normalize_lab_observable, normalize_lab_report,
    normalize_live_observable, CaptureAnnotation, CaptureManifest, FieldObservability,
};
pub use self::compare::{assert_semantics, check_core_invariants, compare_observables, ComparisonVerdict, SemanticMismatch};
pub use self::live::{
    run_live_adapter, LiveExecutionProfile, LiveRunMetadata, LiveRunResult, LiveRunnerConfig, LiveWitnessCollector,
};
pub use self::harness::{assert_dual_run_passes, DualRunHarness, DualRunResult, NotSet};
pub use self::promote::{
    promote_fuzz_finding, promote_regression_case, promote_regression_corpus, PromotedFuzzScenario,
};
pub use self::identity::{DualRunScenarioIdentity, Phase, DUAL_RUN_SCHEMA_VERSION, phase_name};
pub use self::observable::{
    CancelTerminalPhase, CancellationRecord, CounterTolerance, DrainStatus, LoserDrainRecord,
    NormalizedObservable, NormalizedSemantics, ObligationBalanceRecord, OutcomeClass,
    RegionCloseRecord, RegionState, ResourceSurfaceRecord, TerminalOutcome,
    NORMALIZED_OBSERVABLE_SCHEMA_VERSION,
};

use vstd::prelude::*;
use crate::lab::config::LabConfig;
use crate::lab::seed::{component_seed, derive_component_seed, derive_scenario_seed, scenario_seed};
use crate::text::{copy_string, decimal, decimal_text, hex_upper, hex_upper_text, owned, push_str};
use crate::text_map::{TextMap, with_entry};

verus! {

// ============================================================================
// Seed Mode and Replay Policy
// ============================================================================

/// How an adapter derives its effective seed from the canonical seed.
#[derive(Debug, Clone, Copy, PartialEq, Eq, Structural)]
pub enum SeedMode {
    /// Use `canonical_seed` directly.
    Inherit,
    /// The adapter provides its own seed, stored in the plan's override.
    Override,
}

/// Replay strategy for seed-based reproducibility.
#[derive(Debug, Clone, Copy, PartialEq, Eq, Structural)]
pub enum ReplayPolicy {
    /// Run with exactly one seed.
    SingleSeed,
    /// Sweep a range of seeds derived from the canonical seed.
    SeedSweep,
    /// Replay from a previously captured trace bundle.
    ReplayBundle,
}

/// Debug name of a seed mode.
pub open spec fn seed_mode_name(m: SeedMode) -> Seq<char> {
    match m {
        SeedMode::Inherit => "Inherit"@,
        SeedMode::Override => "Override"@,
    }
}

fn seed_mode_str(m: SeedMode) -> (r: &'static str)
    ensures
        r@ == seed_mode_name(m),
{
    match m {
        SeedMode::Inherit => "Inherit",
        SeedMode::Override => "Override",
    }
}

/// Debug name of a replay policy.
pub open spec fn replay_policy_name(p: ReplayPolicy) -> Seq<char> {
    match p {
        ReplayPolicy::SingleSeed => "SingleSeed"@,
        ReplayPolicy::SeedSweep => "SeedSweep"@,
        ReplayPolicy::ReplayBundle => "ReplayBundle"@,
    }
}

fn replay_policy_str(p: ReplayPolicy) -> (r: &'static str)
    ensures
        r@ == replay_policy_name(p),
{
    match p {
        ReplayPolicy::SingleSeed => "SingleSeed",
        ReplayPolicy::SeedSweep => "SeedSweep",
        ReplayPolicy::ReplayBundle => "ReplayBundle",
    }
}

// ============================================================================
// Seed Plan
// ============================================================================

/// Deterministic seed plan for dual-run scenario execution.
///
/// The single source of truth for how both adapters obtain their seeds:
/// the live adapter never picks a different seed than the plan says.
#[derive(Debug, Clone)]
pub struct SeedPlan {
    /// Stable seed chosen by the scenario author.
    pub canonical_seed: u64,
    /// Stable token emitted into mismatch artifacts and repro commands.
    pub seed_lineage_id: String,
    /// How the lab adapter derives its effective seed.
    pub lab_seed_mode: SeedMode,
    /// How the live adapter derives its effective seed.
    pub live_seed_mode: SeedMode,
    /// Replay strategy.
    pub replay_policy: ReplayPolicy,
    /// Explicit lab seed override (used when `lab_seed_mode == Override`).
    pub lab_seed_override: Option<u64>,
    /// Explicit live seed override (used when `live_seed_mode == Override`).
    pub live_seed_override: Option<u64>,
    /// Optional entropy seed override for both adapters.
    pub entropy_seed_override: Option<u64>,
}

/// The seed an adapter uses under `mode`.
pub open spec fn effective_seed(canonical: u64, mode: SeedMode, over: Option<u64>) -> u64 {
    match mode {
        SeedMode::Inherit => canonical,
        SeedMode::Override => match over {
            Some(s) => s,
            None => canonical,
        },
    }
}

/// The `entropy` component seed of `seed`.
pub open spec fn entropy_of(seed: u64) -> u64 {
    component_seed(seed, "entropy"@)
}

/// Tag of the `i`-th sweep seed.
pub open spec fn sweep_tag(i: nat) -> Seq<char> {
    "sweep:"@ + decimal(i)
}

impl SeedPlan {
    /// Effective lab seed.
    pub open spec fn lab_seed(self) -> u64 {
        effective_seed(self.canonical_seed, self.lab_seed_mode, self.lab_seed_override)
    }

    /// Effective live seed.
    pub open spec fn live_seed(self) -> u64 {
        effective_seed(self.canonical_seed, self.live_seed_mode, self.live_seed_override)
    }

    /// Effective entropy seed for an adapter whose effective seed is `seed`.
    pub open spec fn entropy_for(self, seed: u64) -> u64 {
        match self.entropy_seed_override {
            Some(e) => e,
            None => entropy_of(seed),
        }
    }

    /// The lab configuration the plan gives.
    pub open spec fn lab_config(self) -> LabConfig {
        LabConfig { seed: self.lab_seed(), entropy_seed: self.entropy_for(self.lab_seed()) }
    }

    /// Field-wise equality, comparing the lineage id by its text.
    pub open spec fn same(self, other: SeedPlan) -> bool {
        &&& self.canonical_seed == other.canonical_seed
        &&& self.seed_lineage_id@ == other.seed_lineage_id@
        &&& self.lab_seed_mode == other.lab_seed_mode
        &&& self.live_seed_mode == other.live_seed_mode
        &&& self.replay_policy == other.replay_policy
        &&& self.lab_seed_override == other.lab_seed_override
        &&& self.live_seed_override == other.live_seed_override
        &&& self.entropy_seed_override == other.entropy_seed_override
    }

    /// The plan inherits `seed` on both sides under lineage `lineage`, with
    /// a single seed and no overrides.
    pub open spec fn inherits(self, seed: u64, lineage: Seq<char>) -> bool {
        &&& self.canonical_seed == seed
        &&& self.seed_lineage_id@ == lineage
        &&& self.lab_seed_mode == SeedMode::Inherit
        &&& self.live_seed_mode == SeedMode::Inherit
        &&& self.replay_policy == ReplayPolicy::SingleSeed
        &&& self.lab_seed_override is None
        &&& self.live_seed_override is None
        &&& self.entropy_seed_override is None
    }

    /// A plan that inherits the canonical seed on both sides, with a single
    /// seed and no overrides.
    pub fn inherit(canonical_seed: u64, lineage_id: &str) -> (p: Self)
        ensures
            p.inherits(canonical_seed, lineage_id@),
    {
        SeedPlan {
            canonical_seed,
            seed_lineage_id: owned(lineage_id),
            lab_seed_mode: SeedMode::Inherit,
            live_seed_mode: SeedMode::Inherit,
            replay_policy: ReplayPolicy::SingleSeed,
            lab_seed_override: None,
            live_seed_override: None,
            entropy_seed_override: None,
        }
    }

    /// Compute the effective seed for the lab adapter.
    pub fn effective_lab_seed(&self) -> (s: u64)
        ensures
            s == self.lab_seed(),
    {
        match self.lab_seed_mode {
            SeedMode::Inherit => self.canonical_seed,
            SeedMode::Override => match self.lab_seed_override {
                Some(s) => s,
                None => self.canonical_seed,
            },
        }
    }

    /// Compute the effective seed for the live adapter.
    pub fn effective_live_seed(&self) -> (s: u64)
        ensures
            s == self.live_seed(),
    {
        match self.live_seed_mode {
            SeedMode::Inherit => self.canonical_seed,
            SeedMode::Override => match self.live_seed_override {
                Some(s) => s,
                None => self.canonical_seed,
            },
        }
    }

    /// Compute the effective entropy seed for an adapter: the explicit
    /// override if set, otherwise derived from `effective_seed`.
    pub fn effective_entropy_seed(&self, effective_seed: u64) -> (s: u64)
        ensures
            s == self.entropy_for(effective_seed),
    {
        match self.entropy_seed_override {
            Some(e) => e,
            None => derive_component_seed(effective_seed, "entropy"),
        }
    }

    /// Build a [`LabConfig`] from this seed plan.
    pub fn to_lab_config(&self) -> (c: LabConfig)
        ensures
            c == self.lab_config(),
    {
        let seed = self.effective_lab_seed();
        let entropy = self.effective_entropy_seed(seed);
        LabConfig::new(seed).entropy_seed(entropy)
    }

    /// Seeds for a sweep of `count` runs, each derived from the canonical
    /// seed and the tag `sweep:<index>`.
    pub fn sweep_seeds(&self, count: usize) -> (v: Vec<u64>)
        ensures
            v@.len() == count,
            forall|i: int| 0 <= i < count ==> #[trigger] v@[i] == scenario_seed(self.canonical_seed, sweep_tag(i as nat)),
    {
        let mut v: Vec<u64> = Vec::new();
        let mut i: usize = 0;
        while i < count
            invariant
                i <= count,
                v@.len() == i,
                forall|j: int| 0 <= j < i ==> #[trigger] v@[j] == scenario_seed(self.canonical_seed, sweep_tag(j as nat)),
            decreases count - i,
        {
            let mut tag = owned("sweep:");
            let digits = decimal_text(i as u64);
            push_str(&mut tag, digits.as_str());
            let s = derive_scenario_seed(self.canonical_seed, tag.as_str());
            v.push(s);
            i = i + 1;
        }
        v
    }

    /// Set lab seed mode to override with the given seed.
    pub fn with_lab_override(self, seed: u64) -> (p: Self)
        ensures
            p == (SeedPlan { lab_seed_mode: SeedMode::Override, lab_seed_override: Some(seed), ..self }),
    {
        SeedPlan { lab_seed_mode: SeedMode::Override, lab_seed_override: Some(seed), ..self }
    }

    /// Set live seed mode to override with the given seed.
    pub fn with_live_override(self, seed: u64) -> (p: Self)
        ensures
            p == (SeedPlan { live_seed_mode: SeedMode::Override, live_seed_override: Some(seed), ..self }),
    {
        SeedPlan { live_seed_mode: SeedMode::Override, live_seed_override: Some(seed), ..self }
    }

    /// Set the replay policy.
    pub fn with_replay_policy(self, policy: ReplayPolicy) -> (p: Self)
        ensures
            p == (SeedPlan { replay_policy: policy, ..self }),
    {
        SeedPlan { replay_policy: policy, ..self }
    }

    /// Set an explicit entropy seed override for both adapters.
    pub fn with_entropy_seed(self, seed: u64) -> (p: Self)
        ensures
            p == (SeedPlan { entropy_seed_override: Some(seed), ..self }),
    {
        SeedPlan { entropy_seed_override: Some(seed), ..self }
    }

    /// A copy of the plan.
    pub fn duplicate(&self) -> (p: Self)
        ensures
            p == *self,
    {
        SeedPlan {
            canonical_seed: self.canonical_seed,
            seed_lineage_id: copy_string(&self.seed_lineage_id),
            lab_seed_mode: self.lab_seed_mode,
            live_seed_mode: self.live_seed_mode,
            replay_policy: self.replay_policy,
            lab_seed_override: self.lab_seed_override,
            live_seed_override: self.live_seed_override,
            entropy_seed_override: self.entropy_seed_override,
        }
    }

    /// Text of the plan:
    /// `SeedPlan(canonical=0x<HEX>, lineage=<id>, lab=<mode>, live=<mode>, policy=<policy>)`.
    pub fn to_string(&self) -> (s: String)
        ensures
            s@ == "SeedPlan(canonical=0x"@ + hex_upper(self.canonical_seed as nat) + ", lineage="@
                + self.seed_lineage_id@ + ", lab="@ + seed_mode_name(self.lab_seed_mode) + ", live="@
                + seed_mode_name(self.live_seed_mode) + ", policy="@ + replay_policy_name(self.replay_policy)
                + ")"@,
    {
        let mut s = owned("SeedPlan(canonical=0x");
        let h = hex_upper_text(self.canonical_seed);
        push_str(&mut s, h.as_str());
        push_str(&mut s, ", lineage=");
        push_str(&mut s, self.seed_lineage_id.as_str());
        push_str(&mut s, ", lab=");
        push_str(&mut s, seed_mode_str(self.lab_seed_mode));
        push_str(&mut s, ", live=");
        push_str(&mut s, seed_mode_str(self.live_seed_mode));
        push_str(&mut s, ", policy=");
        push_str(&mut s, replay_policy_str(self.replay_policy));
        push_str(&mut s, ")");
        s
    }
}

impl PartialEq for SeedPlan {
    fn eq(&self, other: &Self) -> (r: bool) {
        self.canonical_seed == other.canonical_seed && self.seed_lineage_id == other.seed_lineage_id
            && self.lab_seed_mode == other.lab_seed_mode && self.live_seed_mode == other.live_seed_mode
            && self.replay_policy == other.replay_policy && self.lab_seed_override == other.lab_seed_override
            && self.live_seed_override == other.live_seed_override
            && self.entropy_seed_override == other.entropy_seed_override
    }
}

impl vstd::std_specs::cmp::PartialEqSpecImpl for SeedPlan {
    open spec fn obeys_eq_spec() -> bool {
        true
    }

    open spec fn eq_spec(&self, other: &SeedPlan) -> bool {
        self.same(*other)
    }
}

impl Eq for SeedPlan {}

/// Under inheritance on both sides the lab and live adapters see the same
/// seeds, and so the same entropy seeds.
pub proof fn law_inherit_seeds_agree(p: SeedPlan)
    requires
        p.lab_seed_mode == SeedMode::Inherit,
        p.live_seed_mode == SeedMode::Inherit,
    ensures
        p.lab_seed() == p.live_seed(),
        p.entropy_for(p.lab_seed()) == p.entropy_for(p.live_seed()),
{
}

/// An override set through the builder is the seed the adapter uses.
pub proof fn law_override_wins(p: SeedPlan, lab: u64, live: u64)
    ensures
        (SeedPlan { lab_seed_mode: SeedMode::Override, lab_seed_override: Some(lab), ..p }).lab_seed() == lab,
        (SeedPlan { live_seed_mode: SeedMode::Override, live_seed_override: Some(live), ..p }).live_seed() == live,
{
}


// ============================================================================
// Scenario Identity
// ============================================================================

/// Stable identifier for a scenario family.
#[derive(Debug, Clone, Hash)]
pub struct ScenarioFamilyId {
    /// Primary stable identifier (e.g. `phase1.cancel.race.one_loser`).
    pub id: String,
    /// Semantic surface being exercised (e.g. `cancellation.race`).
    pub surface_id: String,
    /// Versioned comparator contract for this surface.
    pub surface_contract_version: String,
}

impl ScenarioFamilyId {
    /// Create a new scenario family identifier.
    pub fn new(id: &str, surface_id: &str, contract_version: &str) -> (f: Self)
        ensures
            f.id@ == id@,
            f.surface_id@ == surface_id@,
            f.surface_contract_version@ == contract_version@,
    {
        ScenarioFamilyId {
            id: owned(id),
            surface_id: owned(surface_id),
            surface_contract_version: owned(contract_version),
        }
    }

    /// Text of the family: `<id>@<surface>(<version>)`.
    pub fn to_string(&self) -> (s: String)
        ensures
            s@ == self.id@ + "@"@ + self.surface_id@ + "("@ + self.surface_contract_version@ + ")"@,
    {
        let mut s = copy_string(&self.id);
        push_str(&mut s, "@");
        push_str(&mut s, self.surface_id.as_str());
        push_str(&mut s, "(");
        push_str(&mut s, self.surface_contract_version.as_str());
        push_str(&mut s, ")");
        s
    }
}

impl PartialEq for ScenarioFamilyId {
    fn eq(&self, other: &Self) -> (r: bool) {
        self.id == other.id && self.surface_id == other.surface_id
            && self.surface_contract_version == other.surface_contract_version
    }
}

impl vstd::std_specs::cmp::PartialEqSpecImpl for ScenarioFamilyId {
    open spec fn obeys_eq_spec() -> bool {
        true
    }

    open spec fn eq_spec(&self, other: &ScenarioFamilyId) -> bool {
        &&& self.id@ == other.id@
        &&& self.surface_id@ == other.surface_id@
        &&& self.surface_contract_version@ == other.surface_contract_version@
    }
}

impl Eq for ScenarioFamilyId {}

pub(crate) fn copy_family(f: &ScenarioFamilyId) -> (r: ScenarioFamilyId)
    ensures
        r == *f,
{
    ScenarioFamilyId {
        id: copy_string(&f.id),
        surface_id: copy_string(&f.surface_id),
        surface_contract_version: copy_string(&f.surface_contract_version),
    }
}

/// Which runtime produced an execution.
#[derive(Debug, Clone, Copy, PartialEq, Eq, Hash, Structural)]
pub enum RuntimeKind {
    /// Deterministic lab runtime.
    Lab,
    /// Live runtime.
    Live,
}

/// Text of a runtime kind (`lab` / `live`).
pub open spec fn runtime_kind_name(k: RuntimeKind) -> Seq<char> {
    match k {
        RuntimeKind::Lab => "lab"@,
        RuntimeKind::Live => "live"@,
    }
}

impl RuntimeKind {
    /// Text of the runtime kind.
    pub fn as_str(&self) -> (r: &'static str)
        ensures
            r@ == runtime_kind_name(*self),
    {
        match self {
            RuntimeKind::Lab => "lab",
            RuntimeKind::Live => "live",
        }
    }

    /// Text of the runtime kind as an owned string.
    pub fn to_string(&self) -> (r: String)
        ensures
            r@ == runtime_kind_name(*self),
    {
        owned(self.as_str())
    }
}

/// Unique identifier for a specific execution of a scenario family.
#[derive(Debug, Clone, Hash)]
pub struct ExecutionInstanceId {
    /// Which scenario family this execution belongs to.
    pub family_id: String,
    /// Effective seed used for this execution.
    pub effective_seed: u64,
    /// Runtime kind that produced this instance.
    pub runtime_kind: RuntimeKind,
    /// Run index within a sweep (0 for single-seed runs).
    pub run_index: u32,
}

impl ExecutionInstanceId {
    /// A single-seed lab run.
    pub fn lab(family_id: &str, seed: u64) -> (e: Self)
        ensures
            e.family_id@ == family_id@,
            e.effective_seed == seed,
            e.runtime_kind == RuntimeKind::Lab,
            e.run_index == 0,
    {
        ExecutionInstanceId { family_id: owned(family_id), effective_seed: seed, runtime_kind: RuntimeKind::Lab, run_index: 0 }
    }

    /// A single-seed live run.
    pub fn live(family_id: &str, seed: u64) -> (e: Self)
        ensures
            e.family_id@ == family_id@,
            e.effective_seed == seed,
            e.runtime_kind == RuntimeKind::Live,
            e.run_index == 0,
    {
        ExecutionInstanceId { family_id: owned(family_id), effective_seed: seed, runtime_kind: RuntimeKind::Live, run_index: 0 }
    }

    /// Set the run index (for sweep runs).
    pub fn with_run_index(self, index: u32) -> (e: Self)
        ensures
            e == (ExecutionInstanceId { run_index: index, ..self }),
    {
        ExecutionInstanceId { run_index: index, ..self }
    }

    /// Stable key `<family>:<kind>:0x<HEX seed>:<index>`.
    pub fn key(&self) -> (s: String)
        ensures
            s@ == self.family_id@ + ":"@ + runtime_kind_name(self.runtime_kind) + ":0x"@
                + hex_upper(self.effective_seed as nat) + ":"@ + decimal(self.run_index as nat),
    {
        let mut s = copy_string(&self.family_id);
        push_str(&mut s, ":");
        push_str(&mut s, self.runtime_kind.as_str());
        push_str(&mut s, ":0x");
        let h = hex_upper_text(self.effective_seed);
        push_str(&mut s, h.as_str());
        push_str(&mut s, ":");
        let d = decimal_text(self.run_index as u64);
        push_str(&mut s, d.as_str());
        s
    }

    /// Text `<family>[<kind>@0x<HEX seed>#<index>]`.
    pub fn to_string(&self) -> (s: String)
        ensures
            s@ == self.family_id@ + "["@ + runtime_kind_name(self.runtime_kind) + "@0x"@
                + hex_upper(self.effective_seed as nat) + "#"@ + decimal(self.run_index as nat) + "]"@,
    {
        let mut s = copy_string(&self.family_id);
        push_str(&mut s, "[");
        push_str(&mut s, self.runtime_kind.as_str());
        push_str(&mut s, "@0x");
        let h = hex_upper_text(self.effective_seed);
        push_str(&mut s, h.as_str());
        push_str(&mut s, "#");
        let d = decimal_text(self.run_index as u64);
        push_str(&mut s, d.as_str());
        push_str(&mut s, "]");
        s
    }
}

impl PartialEq for ExecutionInstanceId {
    fn eq(&self, other: &Self) -> (r: bool) {
        self.family_id == other.family_id && self.effective_seed == other.effective_seed
            && self.runtime_kind == other.runtime_kind && self.run_index == other.run_index
    }
}

impl vstd::std_specs::cmp::PartialEqSpecImpl for ExecutionInstanceId {
    open spec fn obeys_eq_spec() -> bool {
        true
    }

    open spec fn eq_spec(&self, other: &ExecutionInstanceId) -> bool {
        &&& self.family_id@ == other.family_id@
        &&& self.effective_seed == other.effective_seed
        &&& self.runtime_kind == other.runtime_kind
        &&& self.run_index == other.run_index
    }
}

impl Eq for ExecutionInstanceId {}

// ============================================================================
// Replay Metadata
// ============================================================================

/// Replay and provenance metadata for a single execution.
#[derive(Debug, Clone)]
pub struct ReplayMetadata {
    /// Scenario family identity.
    pub family: ScenarioFamilyId,
    /// Execution instance identity.
    pub instance: ExecutionInstanceId,
    /// Seed plan that produced this execution.
    pub seed_plan: SeedPlan,
    /// Effective seed actually used by the adapter.
    pub effective_seed: u64,
    /// Effective entropy seed actually used.
    pub effective_entropy_seed: u64,
    /// Trace fingerprint from lab execution.
    pub trace_fingerprint: Option<u64>,
    /// Schedule hash from lab execution.
    pub schedule_hash: Option<u64>,
    /// Event hash from lab execution.
    pub event_hash: Option<u64>,
    /// Total events observed.
    pub event_count: Option<u64>,
    /// Total scheduler steps.
    pub steps_total: Option<u64>,
    /// Path to artifact bundle.
    pub artifact_path: Option<String>,
    /// Direct deterministic rerun command.
    pub repro_command: Option<String>,
    /// Hash of the config used for this execution.
    pub config_hash: Option<String>,
}

impl ReplayMetadata {
    /// Metadata of a fresh execution of `family` under `plan` on `kind`:
    /// seeds from the plan, no trace evidence, no paths or commands.
    pub open spec fn fresh(self, family: ScenarioFamilyId, plan: SeedPlan, kind: RuntimeKind) -> bool {
        let seed = if kind == RuntimeKind::Lab { plan.lab_seed() } else { plan.live_seed() };
        &&& self.family == family
        &&& self.instance.family_id@ == family.id@
        &&& self.instance.effective_seed == seed
        &&& self.instance.runtime_kind == kind
        &&& self.instance.run_index == 0
        &&& self.seed_plan == plan
        &&& self.effective_seed == seed
        &&& self.effective_entropy_seed == plan.entropy_for(seed)
        &&& self.trace_fingerprint is None
        &&& self.schedule_hash is None
        &&& self.event_hash is None
        &&& self.event_count is None
        &&& self.steps_total is None
        &&& self.artifact_path is None
        &&& self.repro_command is None
        &&& self.config_hash is None
    }

    /// Create replay metadata for a lab execution from a seed plan.
    pub fn for_lab(family: ScenarioFamilyId, seed_plan: &SeedPlan) -> (m: Self)
        ensures
            m.fresh(family, *seed_plan, RuntimeKind::Lab),
    {
        let effective_seed = seed_plan.effective_lab_seed();
        let effective_entropy_seed = seed_plan.effective_entropy_seed(effective_seed);
        let instance = ExecutionInstanceId::lab(family.id.as_str(), effective_seed);
        ReplayMetadata {
            family,
            instance,
            seed_plan: seed_plan.duplicate(),
            effective_seed,
            effective_entropy_seed,
            trace_fingerprint: None,
            schedule_hash: None,
            event_hash: None,
            event_count: None,
            steps_total: None,
            artifact_path: None,
            repro_command: None,
            config_hash: None,
        }
    }

    /// Create replay metadata for a live execution from a seed plan.
    pub fn for_live(family: ScenarioFamilyId, seed_plan: &SeedPlan) -> (m: Self)
        ensures
            m.fresh(family, *seed_plan, RuntimeKind::Live),
    {
        let effective_seed = seed_plan.effective_live_seed();
        let effective_entropy_seed = seed_plan.effective_entropy_seed(effective_seed);
        let instance = ExecutionInstanceId::live(family.id.as_str(), effective_seed);
        ReplayMetadata {
            family,
            instance,
            seed_plan: seed_plan.duplicate(),
            effective_seed,
            effective_entropy_seed,
            trace_fingerprint: None,
            schedule_hash: None,
            event_hash: None,
            event_count: None,
            steps_total: None,
            artifact_path: None,
            repro_command: None,
            config_hash: None,
        }
    }

    /// Record a lab run's trace evidence.
    pub fn with_lab_report(
        self,
        trace_fingerprint: u64,
        event_hash: u64,
        event_count: u64,
        schedule_hash: u64,
        steps_total: u64,
    ) -> (m: Self)
        ensures
            m == (ReplayMetadata {
                trace_fingerprint: Some(trace_fingerprint),
                event_hash: Some(event_hash),
                event_count: Some(event_count),
                schedule_hash: Some(schedule_hash),
                steps_total: Some(steps_total),
                ..self
            }),
    {
        ReplayMetadata {
            trace_fingerprint: Some(trace_fingerprint),
            event_hash: Some(event_hash),
            event_count: Some(event_count),
            schedule_hash: Some(schedule_hash),
            steps_total: Some(steps_total),
            ..self
        }
    }

    /// Set the repro command.
    pub fn with_repro_command(self, cmd: &str) -> (m: Self)
        ensures
            m.repro_command matches Some(c) && c@ == cmd@,
            m == (ReplayMetadata { repro_command: m.repro_command, ..self }),
    {
        ReplayMetadata { repro_command: Some(owned(cmd)), ..self }
    }

    /// Set the artifact path.
    pub fn with_artifact_path(self, path: &str) -> (m: Self)
        ensures
            m.artifact_path matches Some(c) && c@ == path@,
            m == (ReplayMetadata { artifact_path: m.artifact_path, ..self }),
    {
        ReplayMetadata { artifact_path: Some(owned(path)), ..self }
    }

    /// Default repro command:
    /// `ASUPERSYNC_SEED=0x<HEX seed> cargo test <family id> -- --nocapture`.
    pub fn default_repro_command(&self) -> (s: String)
        ensures
            s@ == repro_text(self.effective_seed, self.family.id@),
    {
        repro_command_for(self.effective_seed, self.family.id.as_str())
    }

    /// A copy of the metadata.
    pub fn duplicate(&self) -> (m: Self)
        ensures
            m == *self,
    {
        ReplayMetadata {
            family: copy_family(&self.family),
            instance: ExecutionInstanceId {
                family_id: copy_string(&self.instance.family_id),
                effective_seed: self.instance.effective_seed,
                runtime_kind: self.instance.runtime_kind,
                run_index: self.instance.run_index,
            },
            seed_plan: self.seed_plan.duplicate(),
            effective_seed: self.effective_seed,
            effective_entropy_seed: self.effective_entropy_seed,
            trace_fingerprint: self.trace_fingerprint,
            schedule_hash: self.schedule_hash,
            event_hash: self.event_hash,
            event_count: self.event_count,
            steps_total: self.steps_total,
            artifact_path: copy_opt_string(&self.artifact_path),
            repro_command: copy_opt_string(&self.repro_command),
            config_hash: copy_opt_string(&self.config_hash),
        }
    }
}

/// Text of an optional string.
pub open spec fn opt_text(o: Option<String>) -> Option<Seq<char>> {
    match o {
        Some(s) => Some(s@),
        None => None,
    }
}

/// A copy of an optional string.
pub fn copy_opt_string(o: &Option<String>) -> (r: Option<String>)
    ensures
        r == *o,
{
    match o {
        Some(s) => Some(copy_string(s)),
        None => None,
    }
}

/// Repro command text for `seed` and test name `name`.
pub open spec fn repro_text(seed: u64, name: Seq<char>) -> Seq<char> {
    "ASUPERSYNC_SEED=0x"@ + hex_upper(seed as nat) + " cargo test "@ + name + " -- --nocapture"@
}

pub(crate) fn repro_command_for(seed: u64, name: &str) -> (s: String)
    ensures
        s@ == repro_text(seed, name@),
{
    let mut s = owned("ASUPERSYNC_SEED=0x");
    let h = hex_upper_text(seed);
    push_str(&mut s, h.as_str());
    push_str(&mut s, " cargo test ");
    push_str(&mut s, name);
    push_str(&mut s, " -- --nocapture");
    s
}

// ============================================================================
// Seed Lineage Record
// ============================================================================

/// Complete record of seeds used across a dual-run pair.
#[derive(Debug, Clone)]
pub struct SeedLineageRecord {
    /// Seed lineage identifier from the plan.
    pub seed_lineage_id: String,
    /// Canonical seed from the plan.
    pub canonical_seed: u64,
    /// Effective lab seed actually used.
    pub lab_effective_seed: u64,
    /// Effective live seed actually used.
    pub live_effective_seed: u64,
    /// Lab seed mode.
    pub lab_seed_mode: SeedMode,
    /// Live seed mode.
    pub live_seed_mode: SeedMode,
    /// Effective lab entropy seed.
    pub lab_entropy_seed: u64,
    /// Effective live entropy seed.
    pub live_entropy_seed: u64,
    /// Replay policy used.
    pub replay_policy: ReplayPolicy,
    /// Whether lab and live used the same effective seed.
    pub seeds_match: bool,
    /// Additional audit annotations.
    pub annotations: TextMap<String>,
}

impl SeedLineageRecord {
    /// The record describes `plan` (with any annotations).
    pub open spec fn describes(self, plan: SeedPlan) -> bool {
        &&& self.seed_lineage_id@ == plan.seed_lineage_id@
        &&& self.canonical_seed == plan.canonical_seed
        &&& self.lab_effective_seed == plan.lab_seed()
        &&& self.live_effective_seed == plan.live_seed()
        &&& self.lab_seed_mode == plan.lab_seed_mode
        &&& self.live_seed_mode == plan.live_seed_mode
        &&& self.lab_entropy_seed == plan.entropy_for(plan.lab_seed())
        &&& self.live_entropy_seed == plan.entropy_for(plan.live_seed())
        &&& self.replay_policy == plan.replay_policy
        &&& self.seeds_match == (plan.lab_seed() == plan.live_seed())
    }

    /// Build a lineage record from a seed plan.
    pub fn from_plan(plan: &SeedPlan) -> (r: Self)
        ensures
            r.describes(*plan),
            r.annotations.pairs().len() == 0,
            r.annotations.wf(),
    {
        let lab_seed = plan.effective_lab_seed();
        let live_seed = plan.effective_live_seed();
        let lab_entropy = plan.effective_entropy_seed(lab_seed);
        let live_entropy = plan.effective_entropy_seed(live_seed);
        SeedLineageRecord {
            seed_lineage_id: copy_string(&plan.seed_lineage_id),
            canonical_seed: plan.canonical_seed,
            lab_effective_seed: lab_seed,
            live_effective_seed: live_seed,
            lab_seed_mode: plan.lab_seed_mode,
            live_seed_mode: plan.live_seed_mode,
            lab_entropy_seed: lab_entropy,
            live_entropy_seed: live_entropy,
            replay_policy: plan.replay_policy,
            seeds_match: lab_seed == live_seed,
            annotations: TextMap::new(),
        }
    }

    /// Add an audit annotation (replacing any previous value for the key).
    pub fn with_annotation(self, key: &str, value: &str) -> (r: Self)
        requires
            self.annotations.wf(),
        ensures
            r.annotations.wf(),
            r.annotations.at(key@) matches Some(v) && v@ == value@,
            forall|q: Seq<char>| q != key@ ==> #[trigger] r.annotations.at(q) == self.annotations.at(q),
            r == (SeedLineageRecord { annotations: r.annotations, ..self }),
    {
        let mut r = self;
        let v = owned(value);
        let ghost vv = v;
        r.annotations.insert(owned(key), v);
        proof {
            crate::text_map::lemma_lookup_with_entry(self.annotations.pairs(), key@, vv, key@);
            assert forall|q: Seq<char>| q != key@ implies #[trigger] r.annotations.at(q) == self.annotations.at(q) by {
                crate::text_map::lemma_lookup_with_entry(self.annotations.pairs(), key@, vv, q);
            }
        }
        r
    }

    /// A copy of the record.
    pub fn duplicate(&self) -> (r: Self)
        ensures
            r == (SeedLineageRecord { annotations: r.annotations, ..*self }),
            r.annotations.pairs() == self.annotations.pairs(),
    {
        SeedLineageRecord {
            seed_lineage_id: copy_string(&self.seed_lineage_id),
            canonical_seed: self.canonical_seed,
            lab_effective_seed: self.lab_effective_seed,
            live_effective_seed: self.live_effective_seed,
            lab_seed_mode: self.lab_seed_mode,
            live_seed_mode: self.live_seed_mode,
            lab_entropy_seed: self.lab_entropy_seed,
            live_entropy_seed: self.live_entropy_seed,
            replay_policy: self.replay_policy,
            seeds_match: self.seeds_match,
            annotations: crate::text_map::copy_text_map_strings(&self.annotations),
        }
    }
}

} // verus!
