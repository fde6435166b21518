//! Promotion of fuzz findings and regression cases into replayable
//! dual-run scenarios.

use vstd::prelude::*;
use crate::lab::dual_run::{repro_command_for, repro_text, DualRunScenarioIdentity, Phase};
use crate::lab::fuzz::{FuzzFinding, FuzzRegressionCase, FuzzRegressionCorpus};
use crate::text::{
    copy_string, decimal, decimal_text, hex_lower, hex_lower_text, hex_upper, hex_upper_text, joined, owned,
    push_str,
};

verus! {

/// A promoted fuzz finding as a replayable dual-run scenario descriptor.
#[derive(Debug, Clone)]
pub struct PromotedFuzzScenario {
    /// Scenario identity whose seed plan replays the finding.
    pub identity: DualRunScenarioIdentity,
    /// Original fuzz seed that discovered the issue.
    pub original_seed: u64,
    /// Minimized seed (if available), used as the canonical replay seed.
    pub replay_seed: u64,
    /// Violation categories observed.
    pub violation_categories: Vec<String>,
    /// Trace fingerprint from the failing lab run.
    pub trace_fingerprint: u64,
    /// Certificate hash from the failing lab run.
    pub certificate_hash: u64,
    /// Human-readable description of what was found.
    pub description: String,
    /// Provenance: the base seed of the campaign that produced this.
    pub campaign_base_seed: Option<u64>,
    /// Provenance: the iteration index in the campaign.
    pub campaign_iteration: Option<usize>,
}

/// Text of a sequence of strings.
pub open spec fn string_texts(v: Seq<String>) -> Seq<Seq<char>> {
    v.map_values(|s: String| s@)
}

impl PromotedFuzzScenario {
    /// Default repro command:
    /// `ASUPERSYNC_SEED=0x<HEX replay seed> cargo test <scenario id> -- --nocapture`.
    pub fn repro_command(&self) -> (s: String)
        ensures
            s@ == repro_text(self.replay_seed, self.identity.scenario_id@),
    {
        repro_command_for(self.replay_seed, self.identity.scenario_id.as_str())
    }

    /// Text `PromotedFuzz(<id>, seed=0x<HEX>, violations=[<a>, <b>, ...])`.
    pub fn to_string(&self) -> (s: String)
        ensures
            s@ == "PromotedFuzz("@ + self.identity.scenario_id@ + ", seed=0x"@ + hex_upper(self.replay_seed as nat)
                + ", violations=["@ + joined(string_texts(self.violation_categories@), ", "@) + "])"@,
    {
        let mut s = owned("PromotedFuzz(");
        push_str(&mut s, self.identity.scenario_id.as_str());
        push_str(&mut s, ", seed=0x");
        let h = hex_upper_text(self.replay_seed);
        push_str(&mut s, h.as_str());
        push_str(&mut s, ", violations=[");
        let j = crate::text::join(&self.violation_categories, ", ");
        assert(self.violation_categories.deep_view() =~= string_texts(self.violation_categories@));
        push_str(&mut s, j.as_str());
        push_str(&mut s, "])");
        s
    }
}

/// The low 32 bits of a seed, as hex digits for a scenario id.
pub open spec fn seed_tag(seed: u64) -> Seq<char> {
    hex_lower((seed % 0x1_0000_0000) as nat)
}

fn seed_tag_text(seed: u64) -> (s: String)
    ensures
        s@ == seed_tag(seed),
{
    let low = seed & 0xFFFF_FFFF;
    assert(low == seed % 0x1_0000_0000) by (bit_vector)
        requires
            low == seed & 0xFFFF_FFFF;
    hex_lower_text(low)
}

/// `0x` followed by the upper-case hex digits of `x`.
pub open spec fn hex_literal(x: u64) -> Seq<char> {
    "0x"@ + hex_upper(x as nat)
}

fn hex_literal_text(x: u64) -> (s: String)
    ensures
        s@ == hex_literal(x),
{
    let mut s = owned("0x");
    let h = hex_upper_text(x);
    push_str(&mut s, h.as_str());
    s
}

fn copy_strings(v: &Vec<String>) -> (r: Vec<String>)
    ensures
        r@ == v@,
{
    let mut r: Vec<String> = Vec::new();
    let mut i: usize = 0;
    while i < v.len()
        invariant
            i <= v.len(),
            r@ == v@.take(i as int),
        decreases v.len() - i,
    {
        r.push(copy_string(&v[i]));
        assert(r@ =~= v@.take(i + 1));
        i = i + 1;
    }
    assert(v@.take(v.len() as int) =~= v@);
    r
}

/// Scenario id of a promoted fuzz finding.
pub open spec fn fuzz_scenario_id(surface: Seq<char>, replay_seed: u64) -> Seq<char> {
    "fuzz."@ + surface + ".seed_"@ + seed_tag(replay_seed)
}

/// Description of a promoted fuzz finding.
pub open spec fn fuzz_description(violations: nat, seed: u64) -> Seq<char> {
    "Fuzz-discovered adversarial case: "@ + decimal(violations) + " violation(s) at seed "@ + hex_literal(seed)
}

/// Scenario id of a promoted regression case.
pub open spec fn regression_scenario_id(surface: Seq<char>, replay_seed: u64) -> Seq<char> {
    "regression."@ + surface + ".seed_"@ + seed_tag(replay_seed)
}

/// Description of a promoted regression case.
pub open spec fn regression_description(violations: nat, replay_seed: u64) -> Seq<char> {
    "Regression case: "@ + decimal(violations) + " violation(s), replay seed "@ + hex_literal(replay_seed)
}

/// The identity is a Phase 1 scenario `id` on `surface`/`version` with
/// description `description`, inheriting `seed`.
pub open spec fn promoted_identity(
    i: DualRunScenarioIdentity,
    id: Seq<char>,
    surface: Seq<char>,
    version: Seq<char>,
    description: Seq<char>,
    seed: u64,
) -> bool {
    &&& i.wf()
    &&& i.scenario_id@ == id
    &&& i.surface_id@ == surface
    &&& i.surface_contract_version@ == version
    &&& i.description@ == description
    &&& i.phase == Phase::Phase1
    &&& i.seed_plan.inherits(seed, id)
}

/// The scenario promotes fuzz finding `f` on `surface`/`version`.
pub open spec fn promotes_finding(p: PromotedFuzzScenario, f: FuzzFinding, surface: Seq<char>, version: Seq<char>) -> bool {
    let replay = match f.minimized_seed { Some(s) => s, None => f.seed };
    let id = fuzz_scenario_id(surface, replay);
    let desc = fuzz_description(f.violations@.len(), f.seed);
    &&& promoted_identity(p.identity, id, surface, version, desc, replay)
    &&& p.identity.metadata.at("promoted_from"@) matches Some(v) && v@ == "fuzz_finding"@
    &&& p.identity.metadata.at("original_seed"@) matches Some(v) && v@ == hex_literal(f.seed)
    &&& p.identity.metadata.at("trace_fingerprint"@) matches Some(v) && v@ == hex_literal(f.trace_fingerprint)
    &&& forall|k: Seq<char>| k != "promoted_from"@ && k != "original_seed"@ && k != "trace_fingerprint"@
        ==> #[trigger] p.identity.metadata.at(k) is None
    &&& p.original_seed == f.seed
    &&& p.replay_seed == replay
    &&& p.violation_categories@ == f.violations@
    &&& p.trace_fingerprint == f.trace_fingerprint
    &&& p.certificate_hash == f.certificate_hash
    &&& p.description@ == desc
    &&& p.campaign_base_seed is None
    &&& p.campaign_iteration is None
}

/// Promote a fuzz finding into a replayable scenario: the minimized seed
/// (or the original one) becomes the canonical seed, and the finding's
/// seed and fingerprint are recorded as metadata.
pub fn promote_fuzz_finding(finding: &FuzzFinding, surface_id: &str, contract_version: &str) -> (p: PromotedFuzzScenario)
    ensures
        promotes_finding(p, *finding, surface_id@, contract_version@),
{
    let replay_seed = match finding.minimized_seed {
        Some(s) => s,
        None => finding.seed,
    };
    let mut scenario_id = owned("fuzz.");
    push_str(&mut scenario_id, surface_id);
    push_str(&mut scenario_id, ".seed_");
    let tag = seed_tag_text(replay_seed);
    push_str(&mut scenario_id, tag.as_str());
    let mut description = owned("Fuzz-discovered adversarial case: ");
    let n = decimal_text(finding.violations.len() as u64);
    push_str(&mut description, n.as_str());
    push_str(&mut description, " violation(s) at seed ");
    let hs = hex_literal_text(finding.seed);
    push_str(&mut description, hs.as_str());
    let ht = hex_literal_text(finding.trace_fingerprint);
    let identity = DualRunScenarioIdentity::phase1(
        scenario_id.as_str(),
        surface_id,
        contract_version,
        description.as_str(),
        replay_seed,
    );
    let i1 = identity.with_metadata("promoted_from", "fuzz_finding");
    let i2 = i1.with_metadata("original_seed", hs.as_str());
    let i3 = i2.with_metadata("trace_fingerprint", ht.as_str());
    proof {
        reveal_strlit("promoted_from");
        reveal_strlit("original_seed");
        reveal_strlit("trace_fingerprint");
        assert("promoted_from"@[0] != "original_seed"@[0]);
        assert("promoted_from"@[0] != "trace_fingerprint"@[0]);
        assert("original_seed"@[0] != "trace_fingerprint"@[0]);
        assert(i3.metadata.at("promoted_from"@) == i1.metadata.at("promoted_from"@));
        assert(i3.metadata.at("original_seed"@) == i2.metadata.at("original_seed"@));
        assert forall|k: Seq<char>| k != "promoted_from"@ && k != "original_seed"@ && k != "trace_fingerprint"@
            implies #[trigger] i3.metadata.at(k) is None by {
            assert(i2.metadata.at(k) == i1.metadata.at(k));
            assert(i1.metadata.at(k) == identity.metadata.at(k));
        }
    }
    PromotedFuzzScenario {
        identity: i3,
        original_seed: finding.seed,
        replay_seed,
        violation_categories: copy_strings(&finding.violations),
        trace_fingerprint: finding.trace_fingerprint,
        certificate_hash: finding.certificate_hash,
        description,
        campaign_base_seed: None,
        campaign_iteration: None,
    }
}

/// The scenario promotes regression case `c` on `surface`/`version`.
pub open spec fn promotes_case(p: PromotedFuzzScenario, c: FuzzRegressionCase, surface: Seq<char>, version: Seq<char>) -> bool {
    let id = regression_scenario_id(surface, c.replay_seed);
    let desc = regression_description(c.violation_categories@.len(), c.replay_seed);
    &&& promoted_identity(p.identity, id, surface, version, desc, c.replay_seed)
    &&& p.identity.metadata.at("promoted_from"@) matches Some(v) && v@ == "regression_case"@
    &&& p.identity.metadata.at("original_seed"@) matches Some(v) && v@ == hex_literal(c.seed)
    &&& forall|k: Seq<char>| k != "promoted_from"@ && k != "original_seed"@ ==> #[trigger] p.identity.metadata.at(k) is None
    &&& p.original_seed == c.seed
    &&& p.replay_seed == c.replay_seed
    &&& p.violation_categories@ == c.violation_categories@
    &&& p.trace_fingerprint == c.trace_fingerprint
    &&& p.certificate_hash == c.certificate_hash
    &&& p.description@ == desc
}

/// Promote a regression case into a replayable scenario (no campaign
/// provenance).
pub fn promote_regression_case(case: &FuzzRegressionCase, surface_id: &str, contract_version: &str) -> (p: PromotedFuzzScenario)
    ensures
        promotes_case(p, *case, surface_id@, contract_version@),
        p.campaign_base_seed is None,
        p.campaign_iteration is None,
{
    let mut scenario_id = owned("regression.");
    push_str(&mut scenario_id, surface_id);
    push_str(&mut scenario_id, ".seed_");
    let tag = seed_tag_text(case.replay_seed);
    push_str(&mut scenario_id, tag.as_str());
    let mut description = owned("Regression case: ");
    let n = decimal_text(case.violation_categories.len() as u64);
    push_str(&mut description, n.as_str());
    push_str(&mut description, " violation(s), replay seed ");
    let hr = hex_literal_text(case.replay_seed);
    push_str(&mut description, hr.as_str());
    let hs = hex_literal_text(case.seed);
    let identity = DualRunScenarioIdentity::phase1(
        scenario_id.as_str(),
        surface_id,
        contract_version,
        description.as_str(),
        case.replay_seed,
    );
    let i1 = identity.with_metadata("promoted_from", "regression_case");
    let i2 = i1.with_metadata("original_seed", hs.as_str());
    proof {
        reveal_strlit("promoted_from");
        reveal_strlit("original_seed");
        assert("promoted_from"@[0] != "original_seed"@[0]);
        assert(i2.metadata.at("promoted_from"@) == i1.metadata.at("promoted_from"@));
        assert forall|k: Seq<char>| k != "promoted_from"@ && k != "original_seed"@
            implies #[trigger] i2.metadata.at(k) is None by {
            assert(i1.metadata.at(k) == identity.metadata.at(k));
        }
    }
    PromotedFuzzScenario {
        identity: i2,
        original_seed: case.seed,
        replay_seed: case.replay_seed,
        violation_categories: copy_strings(&case.violation_categories),
        trace_fingerprint: case.trace_fingerprint,
        certificate_hash: case.certificate_hash,
        description,
        campaign_base_seed: None,
        campaign_iteration: None,
    }
}

/// Promote every case of a corpus, in order, each carrying the campaign's
/// base seed and its index as provenance.
pub fn promote_regression_corpus(
    corpus: &FuzzRegressionCorpus,
    surface_id: &str,
    contract_version: &str,
) -> (v: Vec<PromotedFuzzScenario>)
    ensures
        v@.len() == corpus.cases@.len(),
        forall|i: int| 0 <= i < v@.len() ==> {
            &&& promotes_case(#[trigger] v@[i], corpus.cases@[i], surface_id@, contract_version@)
            &&& v@[i].campaign_base_seed == Some(corpus.base_seed)
            &&& v@[i].campaign_iteration == Some(i as usize)
        },
{
    let mut v: Vec<PromotedFuzzScenario> = Vec::new();
    let mut i: usize = 0;
    while i < corpus.cases.len()
        invariant
            i <= corpus.cases.len(),
            v@.len() == i,
            forall|j: int| 0 <= j < i ==> {
                &&& promotes_case(#[trigger] v@[j], corpus.cases@[j], surface_id@, contract_version@)
                &&& v@[j].campaign_base_seed == Some(corpus.base_seed)
                &&& v@[j].campaign_iteration == Some(j as usize)
            },
        decreases corpus.cases.len() - i,
    {
        let p = promote_regression_case(&corpus.cases[i], surface_id, contract_version);
        let p = PromotedFuzzScenario { campaign_base_seed: Some(corpus.base_seed), campaign_iteration: Some(i), ..p };
        v.push(p);
        i = i + 1;
    }
    v
}

} // verus!
