//! Semantic degradation policy for the messaging fabric.
//!
//! Under overload, work is admitted by the semantic damage its loss would
//! cause rather than by raw queue depth: each traffic slice gets a
//! deterministic priority score, slices are ranked by it, control and
//! recovery lanes draw first on a reserved pool, and everything else is
//! admitted in rank order while capacity lasts. Slices that do not fit are
//! degraded with a class-specific disposition.

use vstd::prelude::*;
use std::time::Duration;
use crate::messaging::class::DeliveryClass;
use crate::messaging::service::{duration_nanos, nanos_of, CancellationObligations, CleanupUrgency};
use crate::text::{copy_string, owned, same_text};
use crate::text_map::{lemma_text_lt_irreflexive, lemma_text_lt_total, lemma_text_lt_transitive, text_less, text_lt};

verus! {

/// Operator-visible workload classes used when overload decisions are
/// driven by semantic damage rather than raw queue depth alone.
#[derive(Debug, Clone, Copy, PartialEq, Eq, PartialOrd, Ord, Hash, Structural)]
pub enum SemanticServiceClass {
    /// Recovery, drain, and operator-intent traffic that must stay live.
    ControlRecovery,
    /// Request/reply work where failing mid-flight strands a caller.
    ReplyCritical,
    /// Lease renewal, cutover, and repair work that prevents semantic debt.
    LeaseRepair,
    /// Durable data-plane work with stronger contracts than packet-plane pub/sub.
    DurablePipeline,
    /// Ordinary interactive traffic without durable obligations.
    Interactive,
    /// Read-side materializations or derived views.
    ReadModel,
    /// Wide fanout where partial degradation is preferable to stronger contract loss.
    LowValueFanout,
    /// Replay-heavy or forensic work that is valuable but expensive to keep hot.
    ExpensiveReplay,
}

/// Base priority of a service class.
pub open spec fn base_priority(c: SemanticServiceClass) -> u16 {
    match c {
        SemanticServiceClass::ControlRecovery => 120,
        SemanticServiceClass::LeaseRepair => 110,
        SemanticServiceClass::ReplyCritical => 100,
        SemanticServiceClass::DurablePipeline => 80,
        SemanticServiceClass::Interactive => 65,
        SemanticServiceClass::ReadModel => 35,
        SemanticServiceClass::LowValueFanout => 20,
        SemanticServiceClass::ExpensiveReplay => 10,
    }
}

/// The class draws on the reserved control and recovery pool.
pub open spec fn uses_reserved(c: SemanticServiceClass) -> bool {
    c is ControlRecovery || c is LeaseRepair
}

impl SemanticServiceClass {
    fn base_priority(self) -> (p: u16)
        ensures
            p == base_priority(self),
    {
        match self {
            SemanticServiceClass::ControlRecovery => 120,
            SemanticServiceClass::LeaseRepair => 110,
            SemanticServiceClass::ReplyCritical => 100,
            SemanticServiceClass::DurablePipeline => 80,
            SemanticServiceClass::Interactive => 65,
            SemanticServiceClass::ReadModel => 35,
            SemanticServiceClass::LowValueFanout => 20,
            SemanticServiceClass::ExpensiveReplay => 10,
        }
    }

    fn uses_reserved_capacity(self) -> (b: bool)
        ensures
            b == uses_reserved(self),
    {
        matches!(self, SemanticServiceClass::ControlRecovery | SemanticServiceClass::LeaseRepair)
    }
}

/// Obligation load carried by a workload slice.
#[derive(Debug, Clone, Copy, PartialEq, Eq, Hash, Structural)]
pub enum ObligationLoad {
    /// No semantic obligation beyond packet delivery.
    NoLoad,
    /// A reply obligation is outstanding.
    Reply,
    /// A lease or stewardship obligation is outstanding.
    Lease,
    /// Both reply and lease obligations are in play.
    ReplyAndLease,
}

impl Default for ObligationLoad {
    fn default() -> (l: Self)
        ensures
            l == ObligationLoad::NoLoad,
    {
        ObligationLoad::NoLoad
    }
}

/// Priority boost of an obligation load.
pub open spec fn load_boost(l: ObligationLoad) -> u16 {
    match l {
        ObligationLoad::NoLoad => 0,
        ObligationLoad::Reply => 16,
        ObligationLoad::Lease => 22,
        ObligationLoad::ReplyAndLease => 30,
    }
}

/// The load holds a lease, so repair should widen rather than reject.
pub open spec fn prefers_repair(l: ObligationLoad) -> bool {
    l is Lease || l is ReplyAndLease
}

impl ObligationLoad {
    fn priority_boost(self) -> (b: u16)
        ensures
            b == load_boost(self),
    {
        match self {
            ObligationLoad::NoLoad => 0,
            ObligationLoad::Reply => 16,
            ObligationLoad::Lease => 22,
            ObligationLoad::ReplyAndLease => 30,
        }
    }

    fn prefers_repair_widening(self) -> (b: bool)
        ensures
            b == prefers_repair(self),
    {
        matches!(self, ObligationLoad::Lease | ObligationLoad::ReplyAndLease)
    }
}

/// Degradation action recommended for a slice that is not admitted.
#[derive(Debug, Clone, Copy, PartialEq, Eq, Hash, Structural)]
pub enum DegradationDisposition {
    /// Preserve the slice under the current degraded operating point.
    Preserve,
    /// Reject new work at admission.
    RejectNew,
    /// Defer the work until pressure clears.
    Defer,
    /// Keep control metadata live but reduce wide fanout.
    ReduceFanout,
    /// Pause replay-heavy work.
    PauseReplay,
    /// Admit compensating repair or cleanup because semantic debt would grow.
    WidenRepair,
}

/// One schedulable traffic slice considered by a degradation policy.
#[derive(Debug, Clone, PartialEq, Eq)]
pub struct TrafficSlice {
    /// Operator-facing identifier for the slice.
    pub name: String,
    /// Semantic workload class.
    pub service_class: SemanticServiceClass,
    /// Requested delivery class.
    pub delivery_class: DeliveryClass,
    /// Cleanup urgency if the slice is cancelled.
    pub cleanup_urgency: CleanupUrgency,
    /// Cancellation semantics promised at the boundary.
    pub cancellation_obligations: CancellationObligations,
    /// Outstanding reply or lease load.
    pub obligation_load: ObligationLoad,
    /// Relative deadline carried by the work, when present.
    pub deadline: Option<Duration>,
    /// Slots of degraded-capacity budget needed to keep this slice admitted.
    pub required_slots: u32,
}

/// Boost for the requested delivery class.
pub open spec fn delivery_boost(c: DeliveryClass) -> u16 {
    match c {
        DeliveryClass::EphemeralInteractive => 0,
        DeliveryClass::DurableOrdered => 6,
        DeliveryClass::ObligationBacked => 10,
        DeliveryClass::MobilitySafe => 12,
        DeliveryClass::ForensicReplayable => 8,
    }
}

/// Boost for the cleanup urgency.
pub open spec fn cleanup_boost(u: CleanupUrgency) -> u16 {
    match u {
        CleanupUrgency::Background => 0,
        CleanupUrgency::Prompt => 8,
        CleanupUrgency::Immediate => 14,
    }
}

/// Boost for the cancellation obligations.
pub open spec fn cancellation_boost(c: CancellationObligations) -> u16 {
    match c {
        CancellationObligations::BestEffortDrain => 0,
        CancellationObligations::DrainBeforeReply => 6,
        CancellationObligations::DrainAndCompensate => 12,
    }
}

/// Boost for a deadline: tighter deadlines (at most 100 ms, 1 s, 5 s)
/// rank higher; no deadline adds nothing.
pub open spec fn deadline_boost(d: Option<Duration>) -> u16 {
    match d {
        Some(x) => if duration_nanos(x) <= 100_000_000 {
            24
        } else if duration_nanos(x) <= 1_000_000_000 {
            18
        } else if duration_nanos(x) <= 5_000_000_000 {
            10
        } else {
            4
        },
        None => 0,
    }
}

/// Deterministic priority score of a slice: the sum of its boosts.
pub open spec fn priority(s: TrafficSlice) -> u16 {
    (base_priority(s.service_class) + delivery_boost(s.delivery_class) + cleanup_boost(s.cleanup_urgency)
        + cancellation_boost(s.cancellation_obligations) + load_boost(s.obligation_load)
        + deadline_boost(s.deadline)) as u16
}

/// The disposition a slice gets when it is not admitted.
pub open spec fn disposition(s: TrafficSlice) -> DegradationDisposition {
    match s.service_class {
        SemanticServiceClass::LowValueFanout => DegradationDisposition::ReduceFanout,
        SemanticServiceClass::ReadModel => DegradationDisposition::Defer,
        SemanticServiceClass::ExpensiveReplay => DegradationDisposition::PauseReplay,
        SemanticServiceClass::LeaseRepair => DegradationDisposition::WidenRepair,
        SemanticServiceClass::ReplyCritical => if prefers_repair(s.obligation_load) {
            DegradationDisposition::WidenRepair
        } else {
            DegradationDisposition::RejectNew
        },
        _ => DegradationDisposition::RejectNew,
    }
}


impl TrafficSlice {
    /// A slice with prompt cleanup, drain-before-reply cancellation, no
    /// obligation load, no deadline and one slot.
    pub fn new(name: &str, service_class: SemanticServiceClass, delivery_class: DeliveryClass) -> (s: Self)
        ensures
            s.name@ == name@,
            s.service_class == service_class,
            s.delivery_class == delivery_class,
            s.cleanup_urgency == CleanupUrgency::Prompt,
            s.cancellation_obligations == CancellationObligations::DrainBeforeReply,
            s.obligation_load == ObligationLoad::NoLoad,
            s.deadline is None,
            s.required_slots == 1,
    {
        TrafficSlice {
            name: owned(name),
            service_class,
            delivery_class,
            cleanup_urgency: CleanupUrgency::Prompt,
            cancellation_obligations: CancellationObligations::DrainBeforeReply,
            obligation_load: ObligationLoad::NoLoad,
            deadline: None,
            required_slots: 1,
        }
    }

    /// The slice with another cleanup urgency.
    pub fn with_cleanup_urgency(self, cleanup_urgency: CleanupUrgency) -> (s: Self)
        ensures
            s == (TrafficSlice { cleanup_urgency, ..self }),
    {
        TrafficSlice { cleanup_urgency, ..self }
    }

    /// The slice with other cancellation semantics.
    pub fn with_cancellation_obligations(self, cancellation_obligations: CancellationObligations) -> (s: Self)
        ensures
            s == (TrafficSlice { cancellation_obligations, ..self }),
    {
        TrafficSlice { cancellation_obligations, ..self }
    }

    /// The slice with a reply or lease obligation load.
    pub fn with_obligation_load(self, obligation_load: ObligationLoad) -> (s: Self)
        ensures
            s == (TrafficSlice { obligation_load, ..self }),
    {
        TrafficSlice { obligation_load, ..self }
    }

    /// The slice with a relative deadline.
    pub fn with_deadline(self, deadline: Duration) -> (s: Self)
        ensures
            s == (TrafficSlice { deadline: Some(deadline), ..self }),
    {
        TrafficSlice { deadline: Some(deadline), ..self }
    }

    /// The slice with another slot cost, at least one.
    pub fn with_required_slots(self, required_slots: u32) -> (s: Self)
        ensures
            s == (TrafficSlice { required_slots: if required_slots < 1 { 1 } else { required_slots }, ..self }),
    {
        let n = if required_slots < 1 { 1 } else { required_slots };
        TrafficSlice { required_slots: n, ..self }
    }

    fn priority_score(&self) -> (p: u16)
        ensures
            p == priority(*self),
    {
        let delivery: u16 = match self.delivery_class {
            DeliveryClass::EphemeralInteractive => 0,
            DeliveryClass::DurableOrdered => 6,
            DeliveryClass::ObligationBacked => 10,
            DeliveryClass::MobilitySafe => 12,
            DeliveryClass::ForensicReplayable => 8,
        };
        let cleanup: u16 = match self.cleanup_urgency {
            CleanupUrgency::Background => 0,
            CleanupUrgency::Prompt => 8,
            CleanupUrgency::Immediate => 14,
        };
        let cancellation: u16 = match self.cancellation_obligations {
            CancellationObligations::BestEffortDrain => 0,
            CancellationObligations::DrainBeforeReply => 6,
            CancellationObligations::DrainAndCompensate => 12,
        };
        let deadline: u16 = match &self.deadline {
            Some(d) => {
                let n = nanos_of(d);
                if n <= 100_000_000 {
                    24
                } else if n <= 1_000_000_000 {
                    18
                } else if n <= 5_000_000_000 {
                    10
                } else {
                    4
                }
            },
            None => 0,
        };
        self.service_class.base_priority() + delivery + cleanup + cancellation
            + self.obligation_load.priority_boost() + deadline
    }

    fn degradation_disposition(&self) -> (d: DegradationDisposition)
        ensures
            d == disposition(*self),
    {
        match self.service_class {
            SemanticServiceClass::LowValueFanout => DegradationDisposition::ReduceFanout,
            SemanticServiceClass::ReadModel => DegradationDisposition::Defer,
            SemanticServiceClass::ExpensiveReplay => DegradationDisposition::PauseReplay,
            SemanticServiceClass::LeaseRepair => DegradationDisposition::WidenRepair,
            SemanticServiceClass::ReplyCritical => if self.obligation_load.prefers_repair_widening() {
                DegradationDisposition::WidenRepair
            } else {
                DegradationDisposition::RejectNew
            },
            _ => DegradationDisposition::RejectNew,
        }
    }
}


// ─── Ranking ───────────────────────────────────────────────────────────────

/// Slice `i` ranks before slice `j`: higher priority first, then fewer
/// required slots, then the smaller name, then the earlier position.
pub open spec fn ranks_before(sl: Seq<TrafficSlice>, i: int, j: int) -> bool {
    let a = sl[i];
    let b = sl[j];
    ||| priority(a) > priority(b)
    ||| priority(a) == priority(b) && a.required_slots < b.required_slots
    ||| priority(a) == priority(b) && a.required_slots == b.required_slots && text_lt(a.name@, b.name@)
    ||| priority(a) == priority(b) && a.required_slots == b.required_slots && a.name@ == b.name@ && i < j
}

/// Each element of `o` ranks before every later one.
pub open spec fn sorted_by_rank(sl: Seq<TrafficSlice>, o: Seq<usize>) -> bool {
    forall|a: int, b: int| 0 <= a < b < o.len() ==> ranks_before(sl, o[a] as int, o[b] as int)
}

/// `o` lists every slice position once, in rank order.
pub open spec fn is_ranking(sl: Seq<TrafficSlice>, o: Seq<usize>) -> bool {
    &&& o.len() == sl.len()
    &&& forall|a: int| 0 <= a < o.len() ==> o[a] < sl.len()
    &&& forall|x: usize| x < sl.len() ==> o.contains(x)
    &&& sorted_by_rank(sl, o)
}

/// The rank order of the slices.
pub open spec fn ranking(sl: Seq<TrafficSlice>) -> Seq<usize> {
    choose|o: Seq<usize>| is_ranking(sl, o)
}

proof fn lemma_before_irreflexive(sl: Seq<TrafficSlice>, i: int)
    ensures
        !ranks_before(sl, i, i),
{
    lemma_text_lt_irreflexive(sl[i].name@);
}

proof fn lemma_before_asymmetric(sl: Seq<TrafficSlice>, i: int, j: int)
    requires
        ranks_before(sl, i, j),
    ensures
        !ranks_before(sl, j, i),
{
    let a = sl[i].name@;
    let b = sl[j].name@;
    if text_lt(a, b) && text_lt(b, a) {
        lemma_text_lt_transitive(a, b, a);
        lemma_text_lt_irreflexive(a);
    }
    if a == b {
        lemma_text_lt_irreflexive(a);
    }
}

proof fn lemma_before_transitive(sl: Seq<TrafficSlice>, i: int, j: int, k: int)
    requires
        ranks_before(sl, i, j),
        ranks_before(sl, j, k),
    ensures
        ranks_before(sl, i, k),
{
    let a = sl[i].name@;
    let b = sl[j].name@;
    let c = sl[k].name@;
    if text_lt(a, b) && text_lt(b, c) {
        lemma_text_lt_transitive(a, b, c);
    }
}

proof fn lemma_before_total(sl: Seq<TrafficSlice>, i: int, j: int)
    requires
        i != j,
    ensures
        ranks_before(sl, i, j) || ranks_before(sl, j, i),
{
    if sl[i].name@ != sl[j].name@ {
        lemma_text_lt_total(sl[i].name@, sl[j].name@);
    }
}

/// Two sequences that hold the same positions, each in rank order, are
/// the same sequence: the rank order leaves no choice.
pub proof fn law_ranking_unique(sl: Seq<TrafficSlice>, o1: Seq<usize>, o2: Seq<usize>)
    requires
        sorted_by_rank(sl, o1),
        sorted_by_rank(sl, o2),
        forall|x: usize| o1.contains(x) <==> o2.contains(x),
    ensures
        o1 == o2,
    decreases o1.len(),
{
    if o1.len() == 0 {
        if o2.len() > 0 {
            assert(o2.contains(o2[0]));
        }
        assert(o1 =~= o2);
    } else {
        assert(o1.contains(o1[0]));
        let a = o1[0];
        let b = o2[0];
        if a != b {
            let j = choose|j: int| 0 <= j < o2.len() && o2[j] == a;
            assert(o2.contains(b));
            let i = choose|i: int| 0 <= i < o1.len() && o1[i] == b;
            assert(ranks_before(sl, b as int, a as int));
            assert(ranks_before(sl, a as int, b as int));
            lemma_before_asymmetric(sl, a as int, b as int);
        }
        let p1 = o1.drop_first();
        let p2 = o2.drop_first();
        assert forall|x: usize| p1.contains(x) <==> p2.contains(x) by {
            if p1.contains(x) {
                let i = choose|i: int| 0 <= i < p1.len() && p1[i] == x;
                assert(o1[i + 1] == x);
                assert(o1.contains(x));
                if x == a {
                    assert(ranks_before(sl, o1[0] as int, o1[i + 1] as int));
                    lemma_before_irreflexive(sl, a as int);
                }
                let j = choose|j: int| 0 <= j < o2.len() && o2[j] == x;
                assert(j != 0);
                assert(p2[j - 1] == x);
            }
            if p2.contains(x) {
                let i = choose|i: int| 0 <= i < p2.len() && p2[i] == x;
                assert(o2[i + 1] == x);
                assert(o2.contains(x));
                if x == a {
                    assert(ranks_before(sl, o2[0] as int, o2[i + 1] as int));
                    lemma_before_irreflexive(sl, a as int);
                }
                let j = choose|j: int| 0 <= j < o1.len() && o1[j] == x;
                assert(j != 0);
                assert(p1[j - 1] == x);
            }
        }
        assert forall|c: int, d: int| 0 <= c < d < p1.len() implies ranks_before(sl, p1[c] as int, p1[d] as int) by {
            assert(p1[c] == o1[c + 1] && p1[d] == o1[d + 1]);
        }
        assert forall|c: int, d: int| 0 <= c < d < p2.len() implies ranks_before(sl, p2[c] as int, p2[d] as int) by {
            assert(p2[c] == o2[c + 1] && p2[d] == o2[d + 1]);
        }
        law_ranking_unique(sl, p1, p2);
        assert(o1 =~= seq![a] + p1);
        assert(o2 =~= seq![b] + p2);
    }
}


/// Whether slice `i` ranks before slice `j`.
fn rank_less(slices: &[TrafficSlice], scores: &Vec<u16>, i: usize, j: usize) -> (b: bool)
    requires
        i < slices.len(),
        j < slices.len(),
        scores@.len() == slices@.len(),
        forall|k: int| 0 <= k < scores@.len() ==> scores@[k] == priority(#[trigger] slices@[k]),
    ensures
        b == ranks_before(slices@, i as int, j as int),
{
    let pi = scores[i];
    let pj = scores[j];
    assert(pi == priority(slices@[i as int]));
    assert(pj == priority(slices@[j as int]));
    if pi != pj {
        return pi > pj;
    }
    let a = &slices[i];
    let b = &slices[j];
    if a.required_slots != b.required_slots {
        return a.required_slots < b.required_slots;
    }
    if text_less(&a.name, &b.name) {
        return true;
    }
    if !same_text(&a.name, &b.name) {
        return false;
    }
    i < j
}

/// Positions of the slices in rank order.
fn rank_slices(slices: &[TrafficSlice], scores: &Vec<u16>) -> (order: Vec<usize>)
    requires
        scores@.len() == slices@.len(),
        forall|k: int| 0 <= k < scores@.len() ==> scores@[k] == priority(#[trigger] slices@[k]),
    ensures
        is_ranking(slices@, order@),
{
    let n = slices.len();
    let ghost sl = slices@;
    let mut remaining: Vec<usize> = Vec::new();
    let mut x: usize = 0;
    while x < n
        invariant
            x <= n,
            n == slices@.len(),
            remaining@.len() == x,
            forall|t: int| 0 <= t < x ==> remaining@[t] == t,
        decreases n - x,
    {
        remaining.push(x);
        x = x + 1;
    }
    let mut order: Vec<usize> = Vec::new();
    assert forall|y: usize| y < n implies order@.contains(y) || remaining@.contains(y) by {
        assert(remaining@[y as int] == y);
    }
    while remaining.len() > 0
        invariant
            n == slices@.len(),
            sl == slices@,
            scores@.len() == slices@.len(),
            forall|k: int| 0 <= k < scores@.len() ==> scores@[k] == priority(#[trigger] slices@[k]),
            forall|t: int| 0 <= t < remaining@.len() ==> remaining@[t] < n,
            forall|a: int| 0 <= a < order@.len() ==> order@[a] < n,
            forall|t: int, u: int| 0 <= t < u < remaining@.len() ==> remaining@[t] != remaining@[u],
            forall|y: usize| y < n ==> order@.contains(y) || remaining@.contains(y),
            sorted_by_rank(sl, order@),
            forall|a: int, t: int| 0 <= a < order@.len() && 0 <= t < remaining@.len()
                ==> ranks_before(sl, order@[a] as int, remaining@[t] as int),
            order@.len() + remaining@.len() == n,
        decreases remaining@.len(),
    {
        let mut m: usize = 0;
        let mut k: usize = 1;
        while k < remaining.len()
            invariant
                0 <= m < k <= remaining@.len(),
                sl == slices@,
                scores@.len() == slices@.len(),
                forall|q: int| 0 <= q < scores@.len() ==> scores@[q] == priority(#[trigger] slices@[q]),
                forall|t: int| 0 <= t < remaining@.len() ==> remaining@[t] < n,
                n == slices@.len(),
                forall|t: int, u: int| 0 <= t < u < remaining@.len() ==> remaining@[t] != remaining@[u],
                forall|t: int| 0 <= t < k && t != m ==> ranks_before(sl, remaining@[m as int] as int, #[trigger] remaining@[t] as int),
            decreases remaining@.len() - k,
        {
            if rank_less(slices, scores, remaining[k], remaining[m]) {
                proof {
                    assert forall|t: int| 0 <= t < k + 1 && t != k implies
                        ranks_before(sl, remaining@[k as int] as int, #[trigger] remaining@[t] as int) by {
                        if t != m {
                            lemma_before_transitive(sl, remaining@[k as int] as int, remaining@[m as int] as int, remaining@[t] as int);
                        }
                    }
                }
                m = k;
            } else {
                proof {
                    lemma_before_total(sl, remaining@[k as int] as int, remaining@[m as int] as int);
                }
            }
            k = k + 1;
        }
        let ghost old_rem = remaining@;
        let ghost old_order = order@;
        let y = remaining.remove(m);
        order.push(y);
        proof {
            assert(remaining@ == old_rem.remove(m as int));
            assert forall|t: int| 0 <= t < remaining@.len() implies
                remaining@[t] == old_rem[if t < m { t } else { t + 1 }] by {}
            assert forall|a: int, b: int| 0 <= a < b < order@.len() implies
                ranks_before(sl, order@[a] as int, order@[b] as int) by {
                if b == order@.len() - 1 {
                    assert(order@[b] == old_rem[m as int]);
                    assert(order@[a] == old_order[a]);
                } else {
                    assert(order@[a] == old_order[a] && order@[b] == old_order[b]);
                }
            }
            assert forall|a: int, t: int| 0 <= a < order@.len() && 0 <= t < remaining@.len() implies
                ranks_before(sl, order@[a] as int, remaining@[t] as int) by {
                let ot = if t < m { t } else { t + 1 };
                assert(remaining@[t] == old_rem[ot]);
                if a == order@.len() - 1 {
                    assert(order@[a] == old_rem[m as int]);
                    assert(ot != m);
                } else {
                    assert(order@[a] == old_order[a]);
                }
            }
            assert forall|y2: usize| y2 < n implies order@.contains(y2) || remaining@.contains(y2) by {
                if old_order.contains(y2) {
                    let a = choose|a: int| 0 <= a < old_order.len() && old_order[a] == y2;
                    assert(order@[a] == y2);
                } else {
                    assert(old_rem.contains(y2));
                    let t = choose|t: int| 0 <= t < old_rem.len() && old_rem[t] == y2;
                    if t == m {
                        assert(order@[order@.len() - 1] == y2);
                    } else if t < m {
                        assert(remaining@[t] == y2);
                    } else {
                        assert(remaining@[t - 1] == y2);
                    }
                }
            }
            assert forall|t: int, u: int| 0 <= t < u < remaining@.len() implies remaining@[t] != remaining@[u] by {
                let ot = if t < m { t } else { t + 1 };
                let ou = if u < m { u } else { u + 1 };
                assert(remaining@[t] == old_rem[ot] && remaining@[u] == old_rem[ou]);
            }
        }
    }
    proof {
        assert forall|y2: usize| y2 < n implies order@.contains(y2) by {
            if remaining@.contains(y2) {
                let t = choose|t: int| 0 <= t < remaining@.len() && remaining@[t] == y2;
            }
        }
    }
    order
}


// ─── Planning ──────────────────────────────────────────────────────────────

/// One admission or degradation decision for a named traffic slice.
#[derive(Debug, Clone, PartialEq, Eq)]
pub struct DegradationDecision {
    /// Slice name.
    pub slice: String,
    /// Decision chosen by the policy.
    pub disposition: DegradationDisposition,
    /// Deterministic priority score used to rank the slice.
    pub priority_score: u16,
    /// Slots requested by the slice.
    pub required_slots: u32,
    /// Whether admission came from the reserved control/recovery pool.
    pub reserved_lane: bool,
}

/// Admission output for a degradation policy evaluation.
#[derive(Debug, Clone, PartialEq, Eq)]
pub struct DegradationPlan {
    /// Admitted slices in policy order.
    pub admitted: Vec<DegradationDecision>,
    /// Rejected or degraded slices in policy order.
    pub degraded: Vec<DegradationDecision>,
    /// Remaining unallocated slots after planning.
    pub remaining_slots: u32,
}

/// Capacity-aware overload policy for semantic degradation.
#[derive(Debug, Clone, Copy, PartialEq, Eq, Structural)]
pub struct DegradationPolicy {
    /// Total slots available under the current degraded operating point.
    pub total_slots: u32,
    /// Minimum slots held for control and recovery lanes.
    pub reserved_control_slots: u32,
}

impl Default for DegradationPolicy {
    /// Four slots, one of them reserved.
    fn default() -> (p: Self)
        ensures
            p == (DegradationPolicy { total_slots: 4, reserved_control_slots: 1 }),
    {
        DegradationPolicy::new(4, 1)
    }
}

/// `d` records slice `s`: admitted (preserved) or degraded with the
/// slice's disposition, with its score, slot cost and lane.
pub open spec fn decision_for(d: DegradationDecision, s: TrafficSlice, admitted: bool, reserved: bool) -> bool {
    &&& d.slice@ == s.name@
    &&& d.disposition == (if admitted { DegradationDisposition::Preserve } else { disposition(s) })
    &&& d.priority_score == priority(s)
    &&& d.required_slots == s.required_slots
    &&& d.reserved_lane == reserved
}

/// `ds` records, in order, the slices at positions `idx`.
pub open spec fn decisions_for(ds: Seq<DegradationDecision>, sl: Seq<TrafficSlice>, idx: Seq<usize>, admitted: bool, reserved: bool) -> bool {
    &&& ds.len() == idx.len()
    &&& forall|k: int| 0 <= k < ds.len() ==> decision_for(#[trigger] ds[k], sl[idx[k] as int], admitted, reserved)
}

/// The reserved pass over slices in order `o`: control and recovery
/// slices that fit both the reserved pool and the total capacity are
/// admitted. Gives the slots left, the reserved slots left and the
/// admitted positions.
pub open spec fn reserve_pass(sl: Seq<TrafficSlice>, o: Seq<usize>, slots: u32, reserved: u32) -> (u32, u32, Seq<usize>)
    decreases o.len(),
{
    if o.len() == 0 {
        (slots, reserved, Seq::empty())
    } else {
        let prev = reserve_pass(sl, o.drop_last(), slots, reserved);
        let x = sl[o.last() as int];
        if uses_reserved(x.service_class) && x.required_slots <= prev.1 && x.required_slots <= prev.0 {
            ((prev.0 - x.required_slots) as u32, (prev.1 - x.required_slots) as u32, prev.2.push(o.last()))
        } else {
            prev
        }
    }
}

/// The main pass over slices in order `o`, skipping those admitted in the
/// reserved pass: a slice that fits the remaining capacity is admitted,
/// any other is degraded. Gives the slots left, the admitted positions
/// and the degraded positions.
pub open spec fn main_pass(sl: Seq<TrafficSlice>, o: Seq<usize>, skip: Seq<usize>, slots: u32) -> (u32, Seq<usize>, Seq<usize>)
    decreases o.len(),
{
    if o.len() == 0 {
        (slots, Seq::empty(), Seq::empty())
    } else {
        let prev = main_pass(sl, o.drop_last(), skip, slots);
        let i = o.last();
        if skip.contains(i) {
            prev
        } else if sl[i as int].required_slots <= prev.0 {
            ((prev.0 - sl[i as int].required_slots) as u32, prev.1.push(i), prev.2)
        } else {
            (prev.0, prev.1, prev.2.push(i))
        }
    }
}

/// The reserved pool actually available: the reservation, capped by the
/// total.
pub open spec fn reserved_pool(p: DegradationPolicy) -> u32 {
    if p.reserved_control_slots < p.total_slots { p.reserved_control_slots } else { p.total_slots }
}

/// The plan of policy `p` for slices `sl` ranked in order `o`.
pub open spec fn plan_is(r: DegradationPlan, p: DegradationPolicy, sl: Seq<TrafficSlice>, o: Seq<usize>) -> bool {
    let first = reserve_pass(sl, o, p.total_slots, reserved_pool(p));
    let second = main_pass(sl, o, first.2, first.0);
    &&& r.remaining_slots == second.0
    &&& r.admitted@.len() == first.2.len() + second.1.len()
    &&& decisions_for(r.admitted@.take(first.2.len() as int), sl, first.2, true, true)
    &&& decisions_for(r.admitted@.skip(first.2.len() as int), sl, second.1, true, false)
    &&& decisions_for(r.degraded@, sl, second.2, false, false)
}

fn decide(s: &TrafficSlice, score: u16, admitted: bool, reserved: bool) -> (d: DegradationDecision)
    requires
        score == priority(*s),
    ensures
        decision_for(d, *s, admitted, reserved),
{
    DegradationDecision {
        slice: copy_string(&s.name),
        disposition: if admitted { DegradationDisposition::Preserve } else { s.degradation_disposition() },
        priority_score: score,
        required_slots: s.required_slots,
        reserved_lane: reserved,
    }
}

impl DegradationPolicy {
    /// A policy with the given capacity and reservation.
    pub fn new(total_slots: u32, reserved_control_slots: u32) -> (p: Self)
        ensures
            p == (DegradationPolicy { total_slots, reserved_control_slots }),
    {
        DegradationPolicy { total_slots, reserved_control_slots }
    }

    /// The deterministic admission and degradation plan for the slices:
    /// slices are ranked, control and recovery lanes draw first on the
    /// reserved pool, then the rest are admitted in rank order while
    /// capacity lasts and degraded otherwise.
    pub fn plan(&self, slices: &[TrafficSlice]) -> (r: DegradationPlan)
        ensures
            is_ranking(slices@, ranking(slices@)),
            plan_is(r, *self, slices@, ranking(slices@)),
    {
        let ghost sl = slices@;
        let n = slices.len();
        let mut scores: Vec<u16> = Vec::new();
        let mut i: usize = 0;
        while i < n
            invariant
                i <= n,
                n == slices@.len(),
                scores@.len() == i,
                forall|k: int| 0 <= k < i ==> scores@[k] == priority(#[trigger] slices@[k]),
            decreases n - i,
        {
            scores.push(slices[i].priority_score());
            i = i + 1;
        }
        let order = rank_slices(slices, &scores);
        proof {
            assert(is_ranking(sl, ranking(sl)));
            assert forall|x: usize| order@.contains(x) <==> ranking(sl).contains(x) by {
                let rk = ranking(sl);
                if order@.contains(x) {
                    let a = choose|a: int| 0 <= a < order@.len() && order@[a] == x;
                    assert(x < sl.len());
                }
                if rk.contains(x) {
                    let a = choose|a: int| 0 <= a < rk.len() && rk[a] == x;
                    assert(x < sl.len());
                }
            }
            law_ranking_unique(sl, order@, ranking(sl));
        }
        let ghost o = order@;

        let mut admitted: Vec<DegradationDecision> = Vec::new();
        let mut degraded: Vec<DegradationDecision> = Vec::new();
        let mut remaining_slots = self.total_slots;
        let mut remaining_reserved = if self.reserved_control_slots < self.total_slots {
            self.reserved_control_slots
        } else {
            self.total_slots
        };
        let mut taken: Vec<bool> = Vec::new();
        let mut x: usize = 0;
        while x < n
            invariant
                x <= n,
                taken@.len() == x,
                forall|t: int| 0 <= t < x ==> !taken@[t],
            decreases n - x,
        {
            taken.push(false);
            x = x + 1;
        }
        let mut k: usize = 0;
        assert(o.take(0) =~= Seq::<usize>::empty());
        while k < n
            invariant
                k <= n,
                n == slices@.len(),
                o == order@,
                sl == slices@,
                is_ranking(sl, o),
                scores@.len() == n,
                forall|q: int| 0 <= q < scores@.len() ==> scores@[q] == priority(#[trigger] slices@[q]),
                taken@.len() == n,
                reserve_pass(sl, o.take(k as int), self.total_slots, reserved_pool(*self))
                    == (remaining_slots, remaining_reserved, reserve_pass(sl, o.take(k as int), self.total_slots, reserved_pool(*self)).2),
                forall|y: usize| y < n ==> (taken@[y as int] <==> reserve_pass(sl, o.take(k as int), self.total_slots, reserved_pool(*self)).2.contains(y)),
                decisions_for(admitted@, sl, reserve_pass(sl, o.take(k as int), self.total_slots, reserved_pool(*self)).2, true, true),
                degraded@.len() == 0,
            decreases n - k,
        {
            let ghost before = reserve_pass(sl, o.take(k as int), self.total_slots, reserved_pool(*self));
            assert(o.take(k + 1).drop_last() =~= o.take(k as int));
            assert(o.take(k + 1).last() == o[k as int]);
            let idx = order[k];
            let s = &slices[idx];
            if s.service_class.uses_reserved_capacity() && s.required_slots <= remaining_reserved
                && s.required_slots <= remaining_slots {
                remaining_reserved = remaining_reserved - s.required_slots;
                remaining_slots = remaining_slots - s.required_slots;
                proof {
                    assert(!before.2.contains(idx)) by {
                        if before.2.contains(idx) {
                            lemma_reserve_pass_members(sl, o, k as int, self.total_slots, reserved_pool(*self));
                            let t = choose|t: int| 0 <= t < before.2.len() && before.2[t] == idx;
                            let a = choose|a: int| 0 <= a < k && o[a] == idx;
                            assert(ranks_before(sl, o[a] as int, o[k as int] as int));
                            lemma_before_irreflexive(sl, idx as int);
                        }
                    }
                }
                taken.set(idx, true);
                let ghost da = admitted@;
                admitted.push(decide(s, scores[idx], true, true));
                proof {
                    let after = reserve_pass(sl, o.take(k + 1), self.total_slots, reserved_pool(*self));
                    assert(after.2 == before.2.push(idx));
                    assert forall|y: usize| y < n implies (taken@[y as int] <==> after.2.contains(y)) by {
                        if y == idx {
                            assert(after.2[after.2.len() - 1] == idx);
                        } else if after.2.contains(y) {
                            let t = choose|t: int| 0 <= t < after.2.len() && after.2[t] == y;
                            assert(t < before.2.len());
                            assert(before.2[t] == y);
                        } else if before.2.contains(y) {
                            let t = choose|t: int| 0 <= t < before.2.len() && before.2[t] == y;
                            assert(after.2[t] == y);
                        }
                    }
                    assert forall|q: int| 0 <= q < admitted@.len() implies
                        decision_for(#[trigger] admitted@[q], sl[after.2[q] as int], true, true) by {
                        if q < da.len() {
                            assert(admitted@[q] == da[q]);
                        }
                    }
                }
            }
            k = k + 1;
        }
        assert(o.take(n as int) =~= o);
        let ghost first = reserve_pass(sl, o, self.total_slots, reserved_pool(*self));
        let ghost n_first = admitted@.len();

        let mut k: usize = 0;
        while k < n
            invariant
                k <= n,
                n == slices@.len(),
                o == order@,
                sl == slices@,
                is_ranking(sl, o),
                scores@.len() == n,
                forall|q: int| 0 <= q < scores@.len() ==> scores@[q] == priority(#[trigger] slices@[q]),
                taken@.len() == n,
                forall|y: usize| y < n ==> (taken@[y as int] <==> first.2.contains(y)),
                n_first == first.2.len(),
                admitted@.len() >= n_first,
                decisions_for(admitted@.take(n_first as int), sl, first.2, true, true),
                main_pass(sl, o.take(k as int), first.2, first.0).0 == remaining_slots,
                decisions_for(admitted@.skip(n_first as int), sl, main_pass(sl, o.take(k as int), first.2, first.0).1, true, false),
                decisions_for(degraded@, sl, main_pass(sl, o.take(k as int), first.2, first.0).2, false, false),
            decreases n - k,
        {
            let ghost before = main_pass(sl, o.take(k as int), first.2, first.0);
            assert(o.take(k + 1).drop_last() =~= o.take(k as int));
            assert(o.take(k + 1).last() == o[k as int]);
            let idx = order[k];
            let s = &slices[idx];
            if taken[idx] {
            } else if s.required_slots <= remaining_slots {
                remaining_slots = remaining_slots - s.required_slots;
                let ghost da = admitted@;
                admitted.push(decide(s, scores[idx], true, false));
                proof {
                    let after = main_pass(sl, o.take(k + 1), first.2, first.0);
                    assert(admitted@.take(n_first as int) =~= da.take(n_first as int));
                    assert(admitted@.skip(n_first as int) =~= da.skip(n_first as int).push(admitted@[da.len() as int]));
                    assert(after.1 == before.1.push(idx));
                }
            } else {
                let ghost dd = degraded@;
                degraded.push(decide(s, scores[idx], false, false));
                proof {
                    let after = main_pass(sl, o.take(k + 1), first.2, first.0);
                    assert(after.2 == before.2.push(idx));
                    assert forall|q: int| 0 <= q < degraded@.len() implies
                        decision_for(#[trigger] degraded@[q], sl[after.2[q] as int], false, false) by {
                        if q < dd.len() {
                            assert(degraded@[q] == dd[q]);
                        }
                    }
                }
            }
            k = k + 1;
        }
        assert(o.take(n as int) =~= o);
        DegradationPlan { admitted, degraded, remaining_slots }
    }
}

proof fn lemma_reserve_pass_members(sl: Seq<TrafficSlice>, o: Seq<usize>, k: int, slots: u32, reserved: u32)
    requires
        0 <= k <= o.len(),
    ensures
        forall|t: int| 0 <= t < reserve_pass(sl, o.take(k), slots, reserved).2.len()
            ==> exists|a: int| 0 <= a < k && o[a] == #[trigger] reserve_pass(sl, o.take(k), slots, reserved).2[t],
    decreases k,
{
    if k > 0 {
        lemma_reserve_pass_members(sl, o, k - 1, slots, reserved);
        assert(o.take(k).drop_last() =~= o.take(k - 1));
        let prev = reserve_pass(sl, o.take(k - 1), slots, reserved);
        let cur = reserve_pass(sl, o.take(k), slots, reserved);
        assert forall|t: int| 0 <= t < cur.2.len() implies exists|a: int| 0 <= a < k && o[a] == #[trigger] cur.2[t] by {
            if t < prev.2.len() {
                assert(cur.2[t] == prev.2[t]);
                let a = choose|a: int| 0 <= a < k - 1 && o[a] == prev.2[t];
            } else {
                assert(cur.2[t] == o[k - 1]);
            }
        }
    }
}


// ─── Laws ──────────────────────────────────────────────────────────────────

/// Slots the slices at positions `idx` require, in total.
pub open spec fn slots_of(sl: Seq<TrafficSlice>, idx: Seq<usize>) -> nat
    decreases idx.len(),
{
    if idx.len() == 0 {
        0
    } else {
        slots_of(sl, idx.drop_last()) + sl[idx.last() as int].required_slots as nat
    }
}

/// Slots the decisions require, in total.
pub open spec fn decision_slots(ds: Seq<DegradationDecision>) -> nat
    decreases ds.len(),
{
    if ds.len() == 0 {
        0
    } else {
        decision_slots(ds.drop_last()) + ds.last().required_slots as nat
    }
}

/// Slots the reserved-lane decisions require, in total.
pub open spec fn reserved_slots(ds: Seq<DegradationDecision>) -> nat
    decreases ds.len(),
{
    if ds.len() == 0 {
        0
    } else {
        reserved_slots(ds.drop_last()) + if ds.last().reserved_lane { ds.last().required_slots as nat } else { 0nat }
    }
}

proof fn lemma_slots_concat(a: Seq<DegradationDecision>, b: Seq<DegradationDecision>)
    ensures
        decision_slots(a + b) == decision_slots(a) + decision_slots(b),
        reserved_slots(a + b) == reserved_slots(a) + reserved_slots(b),
    decreases b.len(),
{
    if b.len() == 0 {
        assert(a + b =~= a);
    } else {
        lemma_slots_concat(a, b.drop_last());
        assert((a + b).drop_last() =~= a + b.drop_last());
    }
}

proof fn lemma_decisions_slots(ds: Seq<DegradationDecision>, sl: Seq<TrafficSlice>, idx: Seq<usize>, admitted: bool, reserved: bool)
    requires
        decisions_for(ds, sl, idx, admitted, reserved),
    ensures
        decision_slots(ds) == slots_of(sl, idx),
        reserved_slots(ds) == if reserved { slots_of(sl, idx) } else { 0 },
    decreases ds.len(),
{
    if ds.len() > 0 {
        assert(decision_for(ds[ds.len() - 1], sl[idx[ds.len() - 1] as int], admitted, reserved));
        assert forall|k: int| 0 <= k < ds.drop_last().len() implies
            decision_for(#[trigger] ds.drop_last()[k], sl[idx.drop_last()[k] as int], admitted, reserved) by {
            assert(decision_for(ds[k], sl[idx[k] as int], admitted, reserved));
        }
        lemma_decisions_slots(ds.drop_last(), sl, idx.drop_last(), admitted, reserved);
    }
}

proof fn lemma_reserve_conserves(sl: Seq<TrafficSlice>, o: Seq<usize>, slots: u32, reserved: u32)
    ensures
        reserve_pass(sl, o, slots, reserved).0 + slots_of(sl, reserve_pass(sl, o, slots, reserved).2) == slots,
        reserve_pass(sl, o, slots, reserved).1 + slots_of(sl, reserve_pass(sl, o, slots, reserved).2) == reserved,
    decreases o.len(),
{
    if o.len() > 0 {
        lemma_reserve_conserves(sl, o.drop_last(), slots, reserved);
        let prev = reserve_pass(sl, o.drop_last(), slots, reserved);
        assert(prev.2.push(o.last()).drop_last() =~= prev.2);
    }
}

proof fn lemma_main_conserves(sl: Seq<TrafficSlice>, o: Seq<usize>, skip: Seq<usize>, slots: u32)
    ensures
        main_pass(sl, o, skip, slots).0 + slots_of(sl, main_pass(sl, o, skip, slots).1) == slots,
    decreases o.len(),
{
    if o.len() > 0 {
        lemma_main_conserves(sl, o.drop_last(), skip, slots);
        let prev = main_pass(sl, o.drop_last(), skip, slots);
        assert(prev.1.push(o.last()).drop_last() =~= prev.1);
    }
}

proof fn lemma_main_covers(sl: Seq<TrafficSlice>, o: Seq<usize>, skip: Seq<usize>, slots: u32)
    ensures
        forall|a: int| 0 <= a < o.len() ==>
            skip.contains(#[trigger] o[a]) || main_pass(sl, o, skip, slots).1.contains(o[a])
                || main_pass(sl, o, skip, slots).2.contains(o[a]),
    decreases o.len(),
{
    if o.len() > 0 {
        lemma_main_covers(sl, o.drop_last(), skip, slots);
        let prev = main_pass(sl, o.drop_last(), skip, slots);
        let cur = main_pass(sl, o, skip, slots);
        assert forall|a: int| 0 <= a < o.len() implies
            skip.contains(#[trigger] o[a]) || cur.1.contains(o[a]) || cur.2.contains(o[a]) by {
            if a < o.len() - 1 {
                assert(o.drop_last()[a] == o[a]);
                if prev.1.contains(o[a]) {
                    let t = choose|t: int| 0 <= t < prev.1.len() && prev.1[t] == o[a];
                    assert(cur.1[t] == o[a]);
                }
                if prev.2.contains(o[a]) {
                    let t = choose|t: int| 0 <= t < prev.2.len() && prev.2[t] == o[a];
                    assert(cur.2[t] == o[a]);
                }
            } else if !skip.contains(o[a]) {
                if cur.1.len() > prev.1.len() {
                    assert(cur.1[cur.1.len() - 1] == o[a]);
                } else {
                    assert(cur.2[cur.2.len() - 1] == o[a]);
                }
            }
        }
    }
}

/// A plan spends capacity exactly: the slots of the admitted slices and
/// the slots left add up to the policy's total, and the reserved-lane
/// admissions fit the reserved pool.
pub proof fn law_plan_conserves_capacity(p: DegradationPolicy, sl: Seq<TrafficSlice>, o: Seq<usize>, r: DegradationPlan)
    requires
        plan_is(r, p, sl, o),
    ensures
        decision_slots(r.admitted@) + r.remaining_slots == p.total_slots,
        reserved_slots(r.admitted@) <= reserved_pool(p),
{
    let first = reserve_pass(sl, o, p.total_slots, reserved_pool(p));
    let second = main_pass(sl, o, first.2, first.0);
    let n1 = first.2.len() as int;
    lemma_reserve_conserves(sl, o, p.total_slots, reserved_pool(p));
    lemma_main_conserves(sl, o, first.2, first.0);
    lemma_decisions_slots(r.admitted@.take(n1), sl, first.2, true, true);
    lemma_decisions_slots(r.admitted@.skip(n1), sl, second.1, true, false);
    assert(r.admitted@ =~= r.admitted@.take(n1) + r.admitted@.skip(n1));
    lemma_slots_concat(r.admitted@.take(n1), r.admitted@.skip(n1));
}

/// Position `x` is admitted from the reserved pool, admitted in the main
/// pass, or degraded, when policy `p` plans the slices.
pub open spec fn accounted_for(p: DegradationPolicy, sl: Seq<TrafficSlice>, x: usize) -> bool {
    let o = ranking(sl);
    let first = reserve_pass(sl, o, p.total_slots, reserved_pool(p));
    let second = main_pass(sl, o, first.2, first.0);
    first.2.contains(x) || second.1.contains(x) || second.2.contains(x)
}

/// A plan accounts for every slice: each position is admitted from the
/// reserved pool, admitted in the main pass, or degraded.
pub proof fn law_plan_covers_every_slice(p: DegradationPolicy, sl: Seq<TrafficSlice>)
    requires
        is_ranking(sl, ranking(sl)),
    ensures
        forall|x: usize| x < sl.len() ==> #[trigger] accounted_for(p, sl, x),
{
    let o = ranking(sl);
    let first = reserve_pass(sl, o, p.total_slots, reserved_pool(p));
    lemma_main_covers(sl, o, first.2, first.0);
    assert forall|x: usize| x < sl.len() implies #[trigger] accounted_for(p, sl, x) by {
        assert(o.contains(x));
        let a = choose|a: int| 0 <= a < o.len() && o[a] == x;
        assert(first.2.contains(o[a]) || main_pass(sl, o, first.2, first.0).1.contains(o[a])
            || main_pass(sl, o, first.2, first.0).2.contains(o[a]));
    }
}

} // verus!
