//! The obligation ledger.
//!
//! Every obligation acquired is recorded with its kind, holder and region.
//! It stays reserved until it is committed or aborted; a resolution is
//! final, and an obligation still reserved is reported by a leak check.
//! Tokens are handed out by the ledger and consumed by the resolution, so
//! one token resolves at most one obligation, once.

use vstd::prelude::*;
use crate::record::{ObligationAbortReason, ObligationKind, ObligationState};
use crate::text::copy_string;
use crate::types::{ObligationId, RegionId, TaskId, Time};

verus! {

/// Ledger entry of one obligation.
#[derive(Debug, Clone, PartialEq, Eq)]
pub struct ObligationRecord {
    /// Identifier of the obligation.
    pub id: ObligationId,
    /// What the obligation stands for.
    pub kind: ObligationKind,
    /// Task holding the obligation.
    pub holder: TaskId,
    /// Region the obligation belongs to.
    pub region: RegionId,
    /// Lifecycle state.
    pub state: ObligationState,
    /// When the obligation was acquired.
    pub reserved_at: Time,
    /// When the obligation was resolved, once it was.
    pub resolved_at: Option<Time>,
    /// Why the obligation was aborted, if it was.
    pub abort_reason: Option<ObligationAbortReason>,
    /// Human-readable context.
    pub description: Option<String>,
}

/// Text view of an optional text.
pub open spec fn opt_text(o: Option<String>) -> Option<Seq<char>> {
    match o {
        Some(s) => Some(s@),
        None => None,
    }
}

/// Two records agree field by field, texts by their characters.
pub open spec fn same_record(a: ObligationRecord, b: ObligationRecord) -> bool {
    &&& a.id == b.id
    &&& a.kind == b.kind
    &&& a.holder == b.holder
    &&& a.region == b.region
    &&& a.state == b.state
    &&& a.reserved_at == b.reserved_at
    &&& a.resolved_at == b.resolved_at
    &&& a.abort_reason == b.abort_reason
    &&& opt_text(a.description) == opt_text(b.description)
}

/// Capability to resolve one obligation, handed out when it is acquired.
#[derive(Debug)]
pub struct ObligationToken {
    id: ObligationId,
    kind: ObligationKind,
    holder: TaskId,
    region: RegionId,
}

impl ObligationToken {
    /// Identifier of the obligation.
    pub closed spec fn id_spec(self) -> ObligationId {
        self.id
    }

    /// Kind of the obligation.
    pub closed spec fn kind_spec(self) -> ObligationKind {
        self.kind
    }

    /// Holder of the obligation.
    pub closed spec fn holder_spec(self) -> TaskId {
        self.holder
    }

    /// Region of the obligation.
    pub closed spec fn region_spec(self) -> RegionId {
        self.region
    }

    /// Identifier of the obligation.
    pub fn id(&self) -> (i: ObligationId)
        ensures
            i == self.id_spec(),
    {
        self.id
    }

    /// Kind of the obligation.
    pub fn kind(&self) -> (k: ObligationKind)
        ensures
            k == self.kind_spec(),
    {
        self.kind
    }

    /// Holder of the obligation.
    pub fn holder(&self) -> (t: TaskId)
        ensures
            t == self.holder_spec(),
    {
        self.holder
    }

    /// Region of the obligation.
    pub fn region(&self) -> (r: RegionId)
        ensures
            r == self.region_spec(),
    {
        self.region
    }
}

/// Obligations still reserved when a leak check ran.
#[derive(Debug)]
pub struct LeakReport {
    /// Copies of the reserved records, in acquisition order.
    pub leaked: Vec<ObligationRecord>,
}

impl LeakReport {
    /// No obligation was left reserved.
    pub fn is_clean(&self) -> (b: bool)
        ensures
            b == (self.leaked@.len() == 0),
    {
        self.leaked.len() == 0
    }
}

/// Number of reserved records.
pub open spec fn reserved_count(s: Seq<ObligationRecord>) -> nat
    decreases s.len(),
{
    if s.len() == 0 {
        0
    } else {
        reserved_count(s.drop_last()) + if s.last().state == ObligationState::Reserved { 1nat } else { 0nat }
    }
}

/// The reserved records, in order.
pub open spec fn reserved_records(s: Seq<ObligationRecord>) -> Seq<ObligationRecord>
    decreases s.len(),
{
    if s.len() == 0 {
        Seq::empty()
    } else if s.last().state == ObligationState::Reserved {
        reserved_records(s.drop_last()).push(s.last())
    } else {
        reserved_records(s.drop_last())
    }
}

/// `r` resolved into `state` at `at`, with abort reason `reason`.
pub open spec fn resolved(r: ObligationRecord, state: ObligationState, at: Time, reason: Option<ObligationAbortReason>) -> ObligationRecord {
    ObligationRecord { state, resolved_at: Some(at), abort_reason: reason, ..r }
}

/// `after` is `before` with obligation `id` resolved into `state` at `at`
/// if it was reserved, and `before` unchanged otherwise.
pub open spec fn resolves(
    before: Seq<ObligationRecord>,
    after: Seq<ObligationRecord>,
    id: ObligationId,
    state: ObligationState,
    at: Time,
    reason: Option<ObligationAbortReason>,
) -> bool {
    let i = id.raw_spec() as int;
    if i < before.len() && before[i].state == ObligationState::Reserved {
        after == before.update(i, resolved(before[i], state, at, reason))
    } else {
        after == before
    }
}

/// Whether obligation `id` is reserved in `s`.
pub open spec fn is_reserved(s: Seq<ObligationRecord>, id: ObligationId) -> bool {
    id.raw_spec() < s.len() && s[id.raw_spec() as int].state == ObligationState::Reserved
}

proof fn lemma_count_update(s: Seq<ObligationRecord>, i: int, r: ObligationRecord)
    requires
        0 <= i < s.len(),
    ensures
        reserved_count(s.update(i, r)) + (if s[i].state == ObligationState::Reserved { 1int } else { 0int })
            == reserved_count(s) + (if r.state == ObligationState::Reserved { 1int } else { 0int }),
    decreases s.len(),
{
    if i == s.len() - 1 {
        assert(s.update(i, r).drop_last() =~= s.drop_last());
    } else {
        lemma_count_update(s.drop_last(), i, r);
        assert(s.update(i, r).drop_last() =~= s.drop_last().update(i, r));
    }
}

proof fn lemma_count_push(s: Seq<ObligationRecord>, r: ObligationRecord)
    ensures
        reserved_count(s.push(r)) == reserved_count(s) + if r.state == ObligationState::Reserved { 1nat } else { 0nat },
{
    assert(s.push(r).drop_last() =~= s);
}

/// Ledger of obligations.
#[derive(Debug)]
pub struct ObligationLedger {
    records: Vec<ObligationRecord>,
}

impl ObligationLedger {
    /// The identifier of each record is its position.
    #[verifier::type_invariant]
    spec fn ids_are_positions(self) -> bool {
        forall|i: int| 0 <= i < self.records@.len() ==> (#[trigger] self.records@[i]).id.raw_spec() == i
    }

    /// The records, in acquisition order.
    pub closed spec fn entries(self) -> Seq<ObligationRecord> {
        self.records@
    }

    /// An empty ledger.
    pub fn new() -> (l: Self)
        ensures
            l.entries() == Seq::<ObligationRecord>::empty(),
    {
        ObligationLedger { records: Vec::new() }
    }

    /// Records a new reserved obligation and hands out its token.
    pub fn acquire_with_context(
        &mut self,
        kind: ObligationKind,
        holder: TaskId,
        region: RegionId,
        now: Time,
        description: Option<String>,
    ) -> (t: ObligationToken)
        ensures
            final(self).entries().len() == old(self).entries().len() + 1,
            final(self).entries().drop_last() == old(self).entries(),
            final(self).entries().last() == (ObligationRecord {
                id: t.id_spec(),
                kind,
                holder,
                region,
                state: ObligationState::Reserved,
                reserved_at: now,
                resolved_at: None,
                abort_reason: None,
                description,
            }),
            t.id_spec().raw_spec() == old(self).entries().len(),
            t.kind_spec() == kind,
            t.holder_spec() == holder,
            t.region_spec() == region,
            reserved_count(final(self).entries()) == reserved_count(old(self).entries()) + 1,
    {
        proof {
            use_type_invariant(&*self);
        }
        let n = self.records.len();
        let id = ObligationId::from_raw(n as u64);
        let record = ObligationRecord {
            id,
            kind,
            holder,
            region,
            state: ObligationState::Reserved,
            reserved_at: now,
            resolved_at: None,
            abort_reason: None,
            description,
        };
        proof {
            lemma_count_push(self.records@, record);
        }
        let mut records: Vec<ObligationRecord> = Vec::new();
        std::mem::swap(&mut records, &mut self.records);
        records.push(record);
        self.records = records;
        assert(self.records@.drop_last() =~= old(self).records@);
        ObligationToken { id, kind, holder, region }
    }

    fn resolve(&mut self, id: ObligationId, state: ObligationState, now: Time, reason: Option<ObligationAbortReason>)
        requires
            state != ObligationState::Reserved,
        ensures
            resolves(old(self).entries(), final(self).entries(), id, state, now, reason),
            reserved_count(final(self).entries()) + (if is_reserved(old(self).entries(), id) { 1int } else { 0int })
                == reserved_count(old(self).entries()),
    {
        proof {
            use_type_invariant(&*self);
        }
        let raw = id.raw();
        let n = self.records.len();
        if raw >= n as u64 {
            return;
        }
        let i = raw as usize;
        if self.records[i].state != ObligationState::Reserved {
            return;
        }
        let ghost before = self.records@;
        let mut taken = ObligationRecord {
            id: ObligationId::from_raw(raw),
            kind: self.records[i].kind,
            holder: self.records[i].holder,
            region: self.records[i].region,
            state: ObligationState::Reserved,
            reserved_at: self.records[i].reserved_at,
            resolved_at: None,
            abort_reason: None,
            description: None,
        };
        let mut records: Vec<ObligationRecord> = Vec::new();
        std::mem::swap(&mut records, &mut self.records);
        records.set_and_swap(i, &mut taken);
        let updated = ObligationRecord { state, resolved_at: Some(now), abort_reason: reason, ..taken };
        assert(updated == resolved(before[i as int], state, now, reason));
        records.set(i, updated);
        self.records = records;
        assert(self.records@ =~= before.update(i as int, resolved(before[i as int], state, now, reason)));
        proof {
            lemma_count_update(before, i as int, updated);
        }
    }

    /// Commits the obligation of a token at `now`.
    pub fn commit(&mut self, token: ObligationToken, now: Time)
        ensures
            resolves(old(self).entries(), final(self).entries(), token.id_spec(), ObligationState::Committed, now, None),
            reserved_count(final(self).entries()) + (if is_reserved(old(self).entries(), token.id_spec()) {
                1int
            } else {
                0int
            }) == reserved_count(old(self).entries()),
    {
        self.resolve(token.id, ObligationState::Committed, now, None);
    }

    /// Aborts the obligation of a token at `now` for `reason`.
    pub fn abort(&mut self, token: ObligationToken, now: Time, reason: ObligationAbortReason)
        ensures
            resolves(
                old(self).entries(),
                final(self).entries(),
                token.id_spec(),
                ObligationState::Aborted,
                now,
                Some(reason),
            ),
            reserved_count(final(self).entries()) + (if is_reserved(old(self).entries(), token.id_spec()) {
                1int
            } else {
                0int
            }) == reserved_count(old(self).entries()),
    {
        self.resolve(token.id, ObligationState::Aborted, now, Some(reason));
    }

    /// Number of obligations still reserved.
    pub fn pending_count(&self) -> (n: usize)
        ensures
            n == reserved_count(self.entries()),
    {
        let mut n: usize = 0;
        let mut i: usize = 0;
        assert(self.records@.take(0) =~= Seq::<ObligationRecord>::empty());
        while i < self.records.len()
            invariant
                i <= self.records.len(),
                n == reserved_count(self.records@.take(i as int)),
                n <= i,
            decreases self.records.len() - i,
        {
            assert(self.records@.take(i + 1).drop_last() =~= self.records@.take(i as int));
            if self.records[i].state == ObligationState::Reserved {
                n = n + 1;
            }
            i = i + 1;
        }
        assert(self.records@.take(self.records.len() as int) =~= self.records@);
        n
    }

    /// The record of an obligation, if the ledger has it.
    pub fn get(&self, id: ObligationId) -> (r: Option<&ObligationRecord>)
        ensures
            match r {
                Some(rec) => id.raw_spec() < self.entries().len() && *rec == self.entries()[id.raw_spec() as int],
                None => id.raw_spec() >= self.entries().len(),
            },
    {
        let raw = id.raw();
        if raw < self.records.len() as u64 {
            Some(&self.records[raw as usize])
        } else {
            None
        }
    }

    /// Copies of the obligations still reserved, in acquisition order.
    pub fn check_leaks(&self) -> (report: LeakReport)
        ensures
            report.leaked@.len() == reserved_records(self.entries()).len(),
            forall|k: int| 0 <= k < report.leaked@.len() ==> same_record(
                #[trigger] report.leaked@[k],
                reserved_records(self.entries())[k],
            ),
    {
        let mut leaked: Vec<ObligationRecord> = Vec::new();
        let mut i: usize = 0;
        assert(self.records@.take(0) =~= Seq::<ObligationRecord>::empty());
        while i < self.records.len()
            invariant
                i <= self.records.len(),
                leaked@.len() == reserved_records(self.records@.take(i as int)).len(),
                forall|k: int| 0 <= k < leaked@.len() ==> same_record(
                    #[trigger] leaked@[k],
                    reserved_records(self.records@.take(i as int))[k],
                ),
            decreases self.records.len() - i,
        {
            assert(self.records@.take(i + 1).drop_last() =~= self.records@.take(i as int));
            if self.records[i].state == ObligationState::Reserved {
                let c = copy_record(&self.records[i]);
                leaked.push(c);
            }
            i = i + 1;
        }
        assert(self.records@.take(self.records.len() as int) =~= self.records@);
        LeakReport { leaked }
    }
}

fn copy_record(r: &ObligationRecord) -> (c: ObligationRecord)
    ensures
        same_record(c, *r),
{
    ObligationRecord {
        id: r.id,
        kind: r.kind,
        holder: r.holder,
        region: r.region,
        state: r.state,
        reserved_at: r.reserved_at,
        resolved_at: r.resolved_at,
        abort_reason: r.abort_reason,
        description: match &r.description {
            Some(d) => Some(copy_string(d)),
            None => None,
        },
    }
}

/// A resolution is final: committing or aborting an obligation that is no
/// longer reserved leaves the ledger as it was.
pub proof fn law_resolution_is_final(
    before: Seq<ObligationRecord>,
    after: Seq<ObligationRecord>,
    id: ObligationId,
    state: ObligationState,
    at: Time,
    reason: Option<ObligationAbortReason>,
)
    requires
        !is_reserved(before, id),
        resolves(before, after, id, state, at, reason),
    ensures
        after == before,
{
}

/// Resolving a reserved obligation changes only its own record, which
/// leaves the reserved state, and lowers the number of pending obligations
/// by one.
pub proof fn law_resolution_releases_one(
    before: Seq<ObligationRecord>,
    after: Seq<ObligationRecord>,
    id: ObligationId,
    state: ObligationState,
    at: Time,
    reason: Option<ObligationAbortReason>,
)
    requires
        is_reserved(before, id),
        state != ObligationState::Reserved,
        resolves(before, after, id, state, at, reason),
    ensures
        reserved_count(after) + 1 == reserved_count(before),
        after.len() == before.len(),
        forall|j: int| 0 <= j < before.len() && j != id.raw_spec() ==> after[j] == before[j],
        after[id.raw_spec() as int].state == state,
        after[id.raw_spec() as int].resolved_at == Some(at),
{
    lemma_count_update(before, id.raw_spec() as int, resolved(before[id.raw_spec() as int], state, at, reason));
}

} // verus!
