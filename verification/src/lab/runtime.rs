//! Summary report of a lab run.

use vstd::prelude::*;

verus! {

/// One oracle's verdict.
#[derive(Debug, Clone)]
pub struct OracleEntry {
    /// Name of the invariant the oracle checks (e.g. `loser_drain`).
    pub invariant: String,
    /// Whether the oracle passed.
    pub passed: bool,
    /// Description of the violation, when it failed.
    pub violation: Option<String>,
}

/// Verdicts of all oracles run after a lab execution.
#[derive(Debug, Clone)]
pub struct OracleReport {
    /// Per-oracle verdicts, in the order the oracles ran.
    pub entries: Vec<OracleEntry>,
    /// Number of oracles run.
    pub total: usize,
    /// Number that passed.
    pub passed: usize,
    /// Number that failed.
    pub failed: usize,
    /// Time spent checking, in nanoseconds.
    pub check_time_nanos: u64,
}

/// Index of the first entry for `name`, if any.
pub open spec fn first_entry(entries: Seq<OracleEntry>, name: Seq<char>) -> Option<int>
    decreases entries.len(),
{
    if entries.len() == 0 {
        None
    } else if entries[0].invariant@ == name {
        Some(0)
    } else {
        match first_entry(entries.drop_first(), name) {
            Some(i) => Some(i + 1),
            None => None,
        }
    }
}

impl OracleReport {
    /// Whether every oracle entry passed.
    pub fn all_passed(&self) -> (b: bool)
        ensures
            b == forall|i: int| 0 <= i < self.entries@.len() ==> (#[trigger] self.entries@[i]).passed,
    {
        let mut i: usize = 0;
        while i < self.entries.len()
            invariant
                i <= self.entries.len(),
                forall|j: int| 0 <= j < i ==> (#[trigger] self.entries@[j]).passed,
            decreases self.entries.len() - i,
        {
            if !self.entries[i].passed {
                return false;
            }
            i = i + 1;
        }
        true
    }

    /// The first entry for the named invariant, if any.
    pub fn entry(&self, name: &str) -> (r: Option<&OracleEntry>)
        ensures
            match first_entry(self.entries@, name@) {
                Some(i) => r == Some(&self.entries@[i]),
                None => r is None,
            },
    {
        let key = crate::text::owned(name);
        let mut i: usize = 0;
        assert(self.entries@.skip(0) =~= self.entries@);
        while i < self.entries.len()
            invariant
                i <= self.entries.len(),
                key@ == name@,
                first_entry(self.entries@, name@) == match first_entry(self.entries@.skip(i as int), name@) {
                    Some(j) => Some(j + i),
                    None => None::<int>,
                },
            decreases self.entries.len() - i,
        {
            assert(self.entries@.skip(i as int).drop_first() =~= self.entries@.skip(i + 1));
            assert(self.entries@.skip(i as int)[0] == self.entries@[i as int]);
            if self.entries[i].invariant == key {
                return Some(&self.entries[i]);
            }
            i = i + 1;
        }
        None
    }
}

/// Trace certificate hashes of a lab run.
#[derive(Debug, Clone, Copy, PartialEq, Eq, Structural)]
pub struct LabTraceCertificateSummary {
    /// Hash of the event sequence.
    pub event_hash: u64,
    /// Number of events.
    pub event_count: u64,
    /// Hash of the schedule.
    pub schedule_hash: u64,
}

/// Summary of one lab run.
#[derive(Debug, Clone)]
pub struct LabRunReport {
    /// Seed of the run.
    pub seed: u64,
    /// Scheduler steps taken by this run.
    pub steps_delta: u64,
    /// Scheduler steps taken in total.
    pub steps_total: u64,
    /// Whether the run ended quiescent.
    pub quiescent: bool,
    /// Virtual time at the end, in nanoseconds.
    pub now_nanos: u64,
    /// Length of the recorded trace.
    pub trace_len: usize,
    /// Fingerprint of the trace's equivalence class.
    pub trace_fingerprint: u64,
    /// Trace certificate hashes.
    pub trace_certificate: LabTraceCertificateSummary,
    /// Oracle verdicts.
    pub oracle_report: OracleReport,
    /// Descriptions of invariant violations.
    pub invariant_violations: Vec<String>,
    /// Names of failed temporal invariants.
    pub temporal_invariant_failures: Vec<String>,
    /// Length of the temporal counterexample prefix, if any.
    pub temporal_counterexample_prefix_len: Option<usize>,
    /// Refinement firewall rule that fired, if any.
    pub refinement_firewall_rule_id: Option<String>,
    /// Index of the event that tripped the firewall, if any.
    pub refinement_firewall_event_index: Option<usize>,
    /// Sequence number of that event, if any.
    pub refinement_firewall_event_seq: Option<u64>,
    /// Length of the refinement counterexample prefix, if any.
    pub refinement_counterexample_prefix_len: Option<usize>,
    /// Whether the firewall was skipped because the trace was truncated.
    pub refinement_firewall_skipped_due_to_trace_truncation: bool,
}

} // verus!
