//! Identity of a dual-run scenario: the seed-plan-aware core of a scenario
//! specification shared by the lab and live executions.

use vstd::prelude::*;
use crate::lab::config::LabConfig;
use crate::lab::dual_run::{ReplayMetadata, RuntimeKind, ScenarioFamilyId, SeedLineageRecord, SeedPlan};
use crate::text::{copy_string, owned};
use crate::text_map::TextMap;

verus! {

/// Schema version for the dual-run scenario spec.
pub const DUAL_RUN_SCHEMA_VERSION: &'static str = "lab-live-scenario-spec-v1";

/// Rollout phase for a dual-run scenario.
#[derive(Debug, Clone, Copy, PartialEq, Eq, Structural)]
pub enum Phase {
    /// Phase 1: cancellation, combinators, channels, obligations, region
    /// close, sync primitives. Current-thread live runner only.
    Phase1,
    /// Phase 2: timers, virtualized transport.
    Phase2,
    /// Phase 3: actor/supervision, HTTP/gRPC on captured boundaries.
    Phase3,
}

/// Text of a phase (`Phase 1`, `Phase 2`, `Phase 3`).
pub open spec fn phase_name(p: Phase) -> Seq<char> {
    match p {
        Phase::Phase1 => "Phase 1"@,
        Phase::Phase2 => "Phase 2"@,
        Phase::Phase3 => "Phase 3"@,
    }
}

impl Phase {
    /// Text of the phase.
    pub fn to_string(&self) -> (s: String)
        ensures
            s@ == phase_name(*self),
    {
        match self {
            Phase::Phase1 => owned("Phase 1"),
            Phase::Phase2 => owned("Phase 2"),
            Phase::Phase3 => owned("Phase 3"),
        }
    }
}

/// Core identity and seed fields of a dual-run scenario specification.
#[derive(Debug, Clone)]
pub struct DualRunScenarioIdentity {
    /// Stable contract discriminator.
    pub schema_version: String,
    /// Stable case identifier reused across lab and live.
    pub scenario_id: String,
    /// Semantic surface being exercised.
    pub surface_id: String,
    /// Versioned comparator contract.
    pub surface_contract_version: String,
    /// Human-readable scenario meaning.
    pub description: String,
    /// Rollout phase from the scope matrix.
    pub phase: Phase,
    /// Deterministic seed and rerun lineage.
    pub seed_plan: SeedPlan,
    /// Ownership, tags, lineage, ordered by key.
    pub metadata: TextMap<String>,
}

impl DualRunScenarioIdentity {
    /// The metadata map is well formed.
    pub open spec fn wf(self) -> bool {
        self.metadata.wf()
    }

    /// The family identity the scenario belongs to.
    pub open spec fn family(self) -> ScenarioFamilyId {
        ScenarioFamilyId {
            id: self.scenario_id,
            surface_id: self.surface_id,
            surface_contract_version: self.surface_contract_version,
        }
    }

    /// Create a Phase 1 scenario identity whose seed plan inherits
    /// `canonical_seed` on both sides, with the scenario id as lineage.
    pub fn phase1(
        scenario_id: &str,
        surface_id: &str,
        contract_version: &str,
        description: &str,
        canonical_seed: u64,
    ) -> (r: Self)
        ensures
            r.wf(),
            r.schema_version@ == DUAL_RUN_SCHEMA_VERSION@,
            r.scenario_id@ == scenario_id@,
            r.surface_id@ == surface_id@,
            r.surface_contract_version@ == contract_version@,
            r.description@ == description@,
            r.phase == Phase::Phase1,
            r.seed_plan.inherits(canonical_seed, scenario_id@),
            r.metadata.pairs().len() == 0,
    {
        let sid = owned(scenario_id);
        let plan = SeedPlan::inherit(canonical_seed, scenario_id);
        DualRunScenarioIdentity {
            schema_version: owned(DUAL_RUN_SCHEMA_VERSION),
            scenario_id: sid,
            surface_id: owned(surface_id),
            surface_contract_version: owned(contract_version),
            description: owned(description),
            phase: Phase::Phase1,
            seed_plan: plan,
            metadata: TextMap::new(),
        }
    }

    /// The scenario family identity.
    pub fn family_id(&self) -> (f: ScenarioFamilyId)
        ensures
            f == self.family(),
    {
        ScenarioFamilyId {
            id: copy_string(&self.scenario_id),
            surface_id: copy_string(&self.surface_id),
            surface_contract_version: copy_string(&self.surface_contract_version),
        }
    }

    /// Lab replay metadata for this identity.
    pub fn lab_replay_metadata(&self) -> (m: ReplayMetadata)
        ensures
            m.fresh(self.family(), self.seed_plan, RuntimeKind::Lab),
    {
        ReplayMetadata::for_lab(self.family_id(), &self.seed_plan)
    }

    /// Live replay metadata for this identity.
    pub fn live_replay_metadata(&self) -> (m: ReplayMetadata)
        ensures
            m.fresh(self.family(), self.seed_plan, RuntimeKind::Live),
    {
        ReplayMetadata::for_live(self.family_id(), &self.seed_plan)
    }

    /// A seed lineage record of this identity's plan.
    pub fn seed_lineage(&self) -> (r: SeedLineageRecord)
        ensures
            r.describes(self.seed_plan),
            r.annotations.pairs().len() == 0,
            r.annotations.wf(),
    {
        SeedLineageRecord::from_plan(&self.seed_plan)
    }

    /// The lab configuration of this identity's plan.
    pub fn to_lab_config(&self) -> (c: LabConfig)
        ensures
            c == self.seed_plan.lab_config(),
    {
        self.seed_plan.to_lab_config()
    }

    /// Set a metadata annotation, replacing any previous value for the key.
    pub fn with_metadata(self, key: &str, value: &str) -> (r: Self)
        requires
            self.wf(),
        ensures
            r.wf(),
            r.metadata.at(key@) matches Some(v) && v@ == value@,
            forall|q: Seq<char>| q != key@ ==> #[trigger] r.metadata.at(q) == self.metadata.at(q),
            r == (DualRunScenarioIdentity { metadata: r.metadata, ..self }),
    {
        let mut r = self;
        let v = owned(value);
        let ghost vv = v;
        r.metadata.insert(owned(key), v);
        proof {
            crate::text_map::lemma_lookup_with_entry(self.metadata.pairs(), key@, vv, key@);
            assert forall|q: Seq<char>| q != key@ implies #[trigger] r.metadata.at(q) == self.metadata.at(q) by {
                crate::text_map::lemma_lookup_with_entry(self.metadata.pairs(), key@, vv, q);
            }
        }
        r
    }

    /// Replace the seed plan.
    pub fn with_seed_plan(self, plan: SeedPlan) -> (r: Self)
        ensures
            r == (DualRunScenarioIdentity { seed_plan: plan, ..self }),
    {
        DualRunScenarioIdentity { seed_plan: plan, ..self }
    }

    /// A copy of the identity.
    pub fn duplicate(&self) -> (r: Self)
        ensures
            r == (DualRunScenarioIdentity { metadata: r.metadata, ..*self }),
            r.metadata.pairs() == self.metadata.pairs(),
    {
        DualRunScenarioIdentity {
            schema_version: copy_string(&self.schema_version),
            scenario_id: copy_string(&self.scenario_id),
            surface_id: copy_string(&self.surface_id),
            surface_contract_version: copy_string(&self.surface_contract_version),
            description: copy_string(&self.description),
            phase: self.phase,
            seed_plan: self.seed_plan.duplicate(),
            metadata: crate::text_map::copy_text_map_strings(&self.metadata),
        }
    }
}

} // verus!
