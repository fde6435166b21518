//! Fuzz findings and regression corpora produced by lab fuzzing.

use vstd::prelude::*;

verus! {

/// A failing seed found by a fuzz campaign.
#[derive(Debug, Clone)]
pub struct FuzzFinding {
    /// Seed that exposed the failure.
    pub seed: u64,
    /// Scheduler steps executed.
    pub steps: u64,
    /// Violations observed, in order, each by its debug text.
    pub violations: Vec<String>,
    /// Certificate hash of the failing run.
    pub certificate_hash: u64,
    /// Trace fingerprint of the failing run.
    pub trace_fingerprint: u64,
    /// Minimized seed reproducing the failure, if minimization succeeded.
    pub minimized_seed: Option<u64>,
}

/// A recorded regression case.
#[derive(Debug, Clone)]
pub struct FuzzRegressionCase {
    /// Seed that originally exposed the failure.
    pub seed: u64,
    /// Seed to replay.
    pub replay_seed: u64,
    /// Certificate hash of the failing run.
    pub certificate_hash: u64,
    /// Trace fingerprint of the failing run.
    pub trace_fingerprint: u64,
    /// Violation categories observed.
    pub violation_categories: Vec<String>,
}

/// A corpus of regression cases from one campaign.
#[derive(Debug, Clone)]
pub struct FuzzRegressionCorpus {
    /// Corpus schema version.
    pub schema_version: u32,
    /// Base seed of the campaign.
    pub base_seed: u64,
    /// Iterations the campaign ran.
    pub iterations: usize,
    /// Cases, in discovery order.
    pub cases: Vec<FuzzRegressionCase>,
}

} // verus!
