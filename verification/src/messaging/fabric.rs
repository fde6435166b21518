//! Brokerless subject-fabric types and placement rules.
//!
//! A subject cell owns a canonical, non-overlapping subject partition.
//! Subjects are canonicalized before placement (literal-prefix morphisms,
//! then reply-space compaction), cells get identifiers that are stable
//! for a partition and membership epoch, and stewards are chosen
//! deterministically from a consistent-hash candidate pool, preferring
//! healthy, durable, close and failure-domain-diverse nodes.

use vstd::prelude::*;
use std::time::Duration;
use crate::error::{Error, ErrorKind};
use crate::lab::seed::fnv1a;
use crate::messaging::class::{AckKind, DeliveryClass};
use crate::messaging::morphism::same_pattern;
use crate::messaging::service::{text_bytes, u64_bytes};
use crate::messaging::subject::{
    copy_token, lemma_literal_tokens_valid, overlaps_toks, tail_count, toks, token_fault, Subject, SubjectPattern,
    SubjectPatternError, SubjectToken, Tok,
};
use crate::remote::NodeId;
use crate::messaging::subject::{canonical, parse_pattern, tok_text, Fault};
use crate::messaging::morphism::literal_texts;
use crate::text::{copy_string, owned, push_str, str_eq};
use crate::text_map::{lemma_text_lt_irreflexive, lemma_text_lt_total, lemma_text_lt_transitive, text_less, text_lt};

verus! {

// ─── Packet plane ──────────────────────────────────────────────────────────

/// Published or received packet-plane message.
#[derive(Debug, Clone, PartialEq, Eq)]
pub struct FabricMessage {
    /// Concrete subject of the message.
    pub subject: Subject,
    /// Message payload bytes.
    pub payload: Vec<u8>,
    /// Semantic class applied to the message.
    pub delivery_class: DeliveryClass,
}

/// Packet-plane publish acknowledgement.
#[derive(Debug, Clone, PartialEq, Eq)]
pub struct PublishReceipt {
    /// Subject accepted by the packet plane.
    pub subject: Subject,
    /// Number of payload bytes accepted.
    pub payload_len: usize,
    /// Acknowledgement boundary reached by the operation.
    pub ack_kind: AckKind,
    /// Delivery class used for the publish.
    pub delivery_class: DeliveryClass,
}

/// Request/reply response envelope.
#[derive(Debug, Clone, PartialEq, Eq)]
pub struct FabricReply {
    /// Reply subject echoed by the loopback seam.
    pub subject: Subject,
    /// Reply payload bytes.
    pub payload: Vec<u8>,
    /// Acknowledgement boundary observed for the request.
    pub ack_kind: AckKind,
    /// Delivery class used for the request.
    pub delivery_class: DeliveryClass,
}

/// Capture policy for stream declarations.
#[derive(Debug, Clone, Copy, PartialEq, Eq, Structural)]
pub enum CapturePolicy {
    /// Stream capture is disabled.
    Disabled,
    /// Capture only when the caller explicitly opts into the stream.
    ExplicitOptIn,
}

impl Default for CapturePolicy {
    fn default() -> (p: Self)
        ensures
            p == CapturePolicy::Disabled,
    {
        CapturePolicy::Disabled
    }
}

/// The endpoint with surrounding whitespace removed, when it is not blank.
pub open spec fn endpoint_text(raw: Seq<char>) -> Option<Seq<char>> {
    let t = crate::messaging::subject::trimmed(raw);
    if t.len() == 0 { None } else { Some(t) }
}

/// Validates a fabric endpoint: surrounding whitespace is dropped and a
/// blank endpoint is a configuration error.
pub fn connect_endpoint(raw: &str) -> (r: Result<String, Error>)
    ensures
        match endpoint_text(raw@) {
            Some(t) => r matches Ok(s) && s@ == t,
            None => r matches Err(e) && e.kind == ErrorKind::ConfigError
                && e.message@ == "fabric endpoint must not be empty"@,
        },
{
    let t = crate::messaging::subject::trim_text(raw);
    if crate::text::str_chars(t.as_str()).len() == 0 {
        return Err(Error::new(ErrorKind::ConfigError).with_message(owned("fabric endpoint must not be empty")));
    }
    Ok(t)
}

/// In-process log of published packet-plane messages.
#[derive(Debug)]
pub struct FabricLog {
    /// Messages in publication order.
    pub published: Vec<FabricMessage>,
}

/// An input error carrying a subject parse failure's text.
pub open spec fn input_error(e: Error, f: crate::messaging::subject::Fault) -> bool {
    e.kind == ErrorKind::User && e.message@ == crate::messaging::subject::fault_text(f)
}

impl FabricLog {
    /// An empty log.
    pub fn new() -> (l: Self)
        ensures
            l.published@.len() == 0,
    {
        FabricLog { published: Vec::new() }
    }

    /// Publishes a payload on a concrete subject with the default
    /// (ephemeral interactive) class; a malformed subject is an input
    /// error and leaves the log unchanged.
    pub fn publish(&mut self, subject: &str, payload: Vec<u8>) -> (r: Result<PublishReceipt, Error>)
        ensures
            match Subject::parse_spec(subject@) {
                Ok(parts) => r matches Ok(receipt) && {
                    &&& receipt.subject.parts() == parts
                    &&& receipt.payload_len == payload@.len()
                    &&& receipt.ack_kind == AckKind::Accepted
                    &&& receipt.delivery_class == DeliveryClass::EphemeralInteractive
                    &&& final(self).published@.len() == old(self).published@.len() + 1
                    &&& final(self).published@.drop_last() == old(self).published@
                    &&& final(self).published@.last().subject.parts() == parts
                    &&& final(self).published@.last().payload@ == payload@
                    &&& final(self).published@.last().delivery_class == DeliveryClass::EphemeralInteractive
                },
                Err(f) => r matches Err(e) && input_error(e, f) && final(self).published@ == old(self).published@,
            },
    {
        let parsed = match Subject::parse(subject) {
            Ok(s) => s,
            Err(e) => {
                return Err(Error::new(ErrorKind::User).with_message(e.to_string()));
            },
        };
        let n = payload.len();
        let receipt = PublishReceipt {
            subject: parsed.clone(),
            payload_len: n,
            ack_kind: AckKind::Accepted,
            delivery_class: DeliveryClass::EphemeralInteractive,
        };
        self.published.push(FabricMessage {
            subject: parsed,
            payload,
            delivery_class: DeliveryClass::EphemeralInteractive,
        });
        Ok(receipt)
    }

    /// The first message at or after position `from` whose subject the
    /// pattern matches, with the position after it.
    pub fn next_matching(&self, pattern: &SubjectPattern, from: usize) -> (r: Option<(usize, FabricMessage)>)
        ensures
            match r {
                Some((next, m)) => {
                    &&& from < next <= self.published@.len()
                    &&& crate::messaging::subject::matches_toks(pattern.tokens(), self.published@[next - 1].subject.parts())
                    &&& m.subject.parts() == self.published@[next - 1].subject.parts()
                    &&& m.payload@ == self.published@[next - 1].payload@
                    &&& m.delivery_class == self.published@[next - 1].delivery_class
                    &&& forall|k: int| from <= k < next - 1 ==>
                        !crate::messaging::subject::matches_toks(pattern.tokens(), #[trigger] self.published@[k].subject.parts())
                },
                None => forall|k: int| from <= k < self.published@.len() ==>
                    !crate::messaging::subject::matches_toks(pattern.tokens(), #[trigger] self.published@[k].subject.parts()),
            },
    {
        let mut i = from;
        while i < self.published.len()
            invariant
                from <= i,
                forall|k: int| from <= k < i ==>
                    !crate::messaging::subject::matches_toks(pattern.tokens(), #[trigger] self.published@[k].subject.parts()),
            decreases self.published.len() - i,
        {
            let m = &self.published[i];
            if pattern.matches(&m.subject) {
                let copy = FabricMessage {
                    subject: m.subject.clone(),
                    payload: crate::text::copy_bytes(m.payload.as_slice()),
                    delivery_class: m.delivery_class,
                };
                return Some((i + 1, copy));
            }
            i = i + 1;
        }
        None
    }
}

/// Parses a subscription pattern; a malformed pattern is an input error
/// carrying the parse failure's text.
pub fn parse_subject_pattern(raw: &str) -> (r: Result<SubjectPattern, Error>)
    ensures
        match crate::messaging::subject::parse_pattern(raw@) {
            Ok(t) => r matches Ok(p) && p.tokens() == t,
            Err(f) => r matches Err(e) && input_error(e, f),
        },
{
    match SubjectPattern::parse(raw) {
        Ok(p) => Ok(p),
        Err(e) => Err(Error::new(ErrorKind::User).with_message(e.to_string())),
    }
}

/// The loopback reply to a request: the published subject, the request
/// payload, and the publish receipt's acknowledgement and class.
pub fn loopback_reply(receipt: PublishReceipt, payload: Vec<u8>) -> (r: FabricReply)
    ensures
        r.subject.parts() == receipt.subject.parts(),
        r.payload@ == payload@,
        r.ack_kind == receipt.ack_kind,
        r.delivery_class == receipt.delivery_class,
{
    FabricReply {
        subject: receipt.subject,
        payload,
        ack_kind: receipt.ack_kind,
        delivery_class: receipt.delivery_class,
    }
}


// ─── Errors ────────────────────────────────────────────────────────────────

/// Errors produced by fabric modeling and placement.
#[derive(Debug, Clone, PartialEq, Eq)]
pub enum FabricError {
    /// Two canonical subject partitions overlap.
    OverlappingSubjectPartitions {
        /// Left partition in the conflicting pair.
        left: SubjectPattern,
        /// Right partition in the conflicting pair.
        right: SubjectPattern,
    },
    /// No steward-eligible nodes were available for the partition.
    NoStewardCandidates {
        /// Canonical partition that could not be placed.
        partition: SubjectPattern,
    },
    /// Two morphisms claimed the same subject and disagreed on the result.
    ConflictingSubjectMorphisms {
        /// Original subject presented to normalization.
        subject: SubjectPattern,
        /// First canonical candidate produced by a matching morphism.
        left: SubjectPattern,
        /// Conflicting candidate produced by another morphism.
        right: SubjectPattern,
    },
    /// Prefix morphisms cycled instead of converging.
    CyclicSubjectMorphisms {
        /// Original subject presented to normalization.
        subject: SubjectPattern,
        /// Canonical subject that repeated while chasing morphisms.
        cycle_point: SubjectPattern,
    },
}

/// Message text of a fabric error.
pub open spec fn fabric_error_text(e: FabricError) -> Seq<char> {
    match e {
        FabricError::OverlappingSubjectPartitions { left, right } =>
            "subject partitions `"@ + left.text() + "` and `"@ + right.text() + "` overlap"@,
        FabricError::NoStewardCandidates { partition } =>
            "no steward-eligible candidates available for partition `"@ + partition.text() + "`"@,
        FabricError::ConflictingSubjectMorphisms { subject, left, right } =>
            "subject `"@ + subject.text() + "` matched multiple canonical morphisms (`"@ + left.text() + "` and `"@
                + right.text() + "`)"@,
        FabricError::CyclicSubjectMorphisms { subject, cycle_point } =>
            "subject `"@ + subject.text() + "` entered a morphism cycle at `"@ + cycle_point.text() + "`"@,
    }
}

impl FabricError {
    /// The error's message text.
    pub fn to_string(&self) -> (r: String)
        ensures
            r@ == fabric_error_text(*self),
    {
        let mut r = String::new();
        match self {
            FabricError::OverlappingSubjectPartitions { left, right } => {
                push_str(&mut r, "subject partitions `");
                push_str(&mut r, left.as_str());
                push_str(&mut r, "` and `");
                push_str(&mut r, right.as_str());
                push_str(&mut r, "` overlap");
            },
            FabricError::NoStewardCandidates { partition } => {
                push_str(&mut r, "no steward-eligible candidates available for partition `");
                push_str(&mut r, partition.as_str());
                push_str(&mut r, "`");
            },
            FabricError::ConflictingSubjectMorphisms { subject, left, right } => {
                push_str(&mut r, "subject `");
                push_str(&mut r, subject.as_str());
                push_str(&mut r, "` matched multiple canonical morphisms (`");
                push_str(&mut r, left.as_str());
                push_str(&mut r, "` and `");
                push_str(&mut r, right.as_str());
                push_str(&mut r, "`)");
            },
            FabricError::CyclicSubjectMorphisms { subject, cycle_point } => {
                push_str(&mut r, "subject `");
                push_str(&mut r, subject.as_str());
                push_str(&mut r, "` entered a morphism cycle at `");
                push_str(&mut r, cycle_point.as_str());
                push_str(&mut r, "`");
            },
        }
        assert(r@ =~= fabric_error_text(*self));
        r
    }
}

// ─── Partition overlap ─────────────────────────────────────────────────────

/// No pair `(a, b)`, `a < b`, that comes before `(i, j)` in row order
/// overlaps.
pub open spec fn clear_before(ps: Seq<SubjectPattern>, i: int, j: int) -> bool {
    forall|a: int, b: int| 0 <= a < b < ps.len() && (a < i || (a == i && b < j))
        ==> !overlaps_toks(#[trigger] ps[a].tokens(), #[trigger] ps[b].tokens())
}

/// No two distinct patterns of the sequence overlap.
pub open spec fn pairwise_disjoint(ps: Seq<SubjectPattern>) -> bool {
    forall|a: int, b: int| 0 <= a < b < ps.len() ==> !overlaps_toks(#[trigger] ps[a].tokens(), #[trigger] ps[b].tokens())
}

/// `e` reports the first overlapping pair of `ps`, in row order.
pub open spec fn reports_first_overlap(ps: Seq<SubjectPattern>, e: FabricError) -> bool {
    exists|i: int, j: int| 0 <= i < j < ps.len() && overlaps_toks(ps[i].tokens(), ps[j].tokens())
        && clear_before(ps, i, j)
        && (e matches FabricError::OverlappingSubjectPartitions { left, right }
            && same_pattern(left, ps[i]) && same_pattern(right, ps[j]))
}

impl SubjectPattern {
    /// Checks that no two patterns overlap, reporting the first
    /// overlapping pair.
    pub fn validate_non_overlapping(patterns: &[SubjectPattern]) -> (r: Result<(), FabricError>)
        ensures
            r is Ok <==> pairwise_disjoint(patterns@),
            r matches Err(e) ==> reports_first_overlap(patterns@, e),
    {
        let n = patterns.len();
        let mut i: usize = 0;
        while i < n
            invariant
                i <= n,
                n == patterns@.len(),
                clear_before(patterns@, i as int, 0),
            decreases n - i,
        {
            let mut j: usize = i + 1;
            while j < n
                invariant
                    i < n,
                    i + 1 <= j <= n,
                    n == patterns@.len(),
                    clear_before(patterns@, i as int, j as int),
                decreases n - j,
            {
                if patterns[i].overlaps(&patterns[j]) {
                    let e = FabricError::OverlappingSubjectPartitions {
                        left: patterns[i].duplicate(),
                        right: patterns[j].duplicate(),
                    };
                    assert(reports_first_overlap(patterns@, e));
                    return Err(e);
                }
                j = j + 1;
            }
            i = i + 1;
        }
        Ok(())
    }
}

// ─── Stream declarations ───────────────────────────────────────────────────

/// Public stream configuration.
#[derive(Debug, Clone, PartialEq, Eq)]
pub struct FabricStreamConfig {
    /// Subjects captured by the stream declaration.
    pub subjects: Vec<SubjectPattern>,
    /// Requested delivery class for the stream surface.
    pub delivery_class: DeliveryClass,
    /// Capture behavior for matching packet-plane traffic.
    pub capture_policy: CapturePolicy,
    /// Optional request timeout carried into stream operations.
    pub request_timeout: Option<Duration>,
}

impl Default for FabricStreamConfig {
    /// No subjects, ephemeral interactive delivery, explicit opt-in capture,
    /// no timeout.
    fn default() -> (c: Self)
        ensures
            c.subjects@.len() == 0,
            c.delivery_class == DeliveryClass::EphemeralInteractive,
            c.capture_policy == CapturePolicy::ExplicitOptIn,
            c.request_timeout is None,
    {
        FabricStreamConfig {
            subjects: Vec::new(),
            delivery_class: DeliveryClass::EphemeralInteractive,
            capture_policy: CapturePolicy::ExplicitOptIn,
            request_timeout: None,
        }
    }
}

impl FabricStreamConfig {
    /// Checks the declaration: at least one subject (a configuration
    /// error otherwise), and no two overlapping subjects (an input error
    /// carrying the overlap's text).
    pub fn validate(&self) -> (r: Result<(), Error>)
        ensures
            r is Ok <==> (self.subjects@.len() > 0 && pairwise_disjoint(self.subjects@)),
            self.subjects@.len() == 0 ==> (r matches Err(e) && e.kind == ErrorKind::ConfigError
                && e.message@ == "stream config must declare at least one subject pattern"@),
            self.subjects@.len() > 0 && !pairwise_disjoint(self.subjects@) ==> (r matches Err(e)
                && e.kind == ErrorKind::User
                && exists|f: FabricError| reports_first_overlap(self.subjects@, f) && e.message@ == fabric_error_text(f)),
    {
        if self.subjects.len() == 0 {
            return Err(Error::new(ErrorKind::ConfigError).with_message(owned("stream config must declare at least one subject pattern")));
        }
        match SubjectPattern::validate_non_overlapping(self.subjects.as_slice()) {
            Ok(()) => Ok(()),
            Err(f) => Err(Error::new(ErrorKind::User).with_message(f.to_string())),
        }
    }
}

/// Handle of a declared stream.
#[derive(Debug, Clone, PartialEq, Eq)]
pub struct FabricStreamHandle {
    endpoint: String,
    config: FabricStreamConfig,
}

impl FabricStreamHandle {
    /// The endpoint that created the declaration.
    pub closed spec fn endpoint_spec(self) -> Seq<char> {
        self.endpoint@
    }

    /// The declared configuration.
    pub closed spec fn config_spec(self) -> FabricStreamConfig {
        self.config
    }

    /// Declares a stream on an endpoint after validating its configuration.
    pub fn open(endpoint: &str, config: FabricStreamConfig) -> (r: Result<Self, Error>)
        ensures
            match r {
                Ok(h) => config.validate_ok() && h.endpoint_spec() == endpoint@ && h.config_spec() == config,
                Err(_) => !config.validate_ok(),
            },
    {
        config.validate()?;
        Ok(FabricStreamHandle { endpoint: owned(endpoint), config })
    }

    /// The declared configuration.
    pub fn config(&self) -> (c: &FabricStreamConfig)
        ensures
            *c == self.config_spec(),
    {
        &self.config
    }

    /// The endpoint that created the declaration.
    pub fn endpoint(&self) -> (e: &str)
        ensures
            e@ == self.endpoint_spec(),
    {
        self.endpoint.as_str()
    }
}

impl FabricStreamConfig {
    /// The configuration passes validation.
    pub open spec fn validate_ok(self) -> bool {
        self.subjects@.len() > 0 && pairwise_disjoint(self.subjects@)
    }
}


// ─── Cells ─────────────────────────────────────────────────────────────────

/// Membership epoch and local generation for a subject cell.
#[derive(Debug, Clone, Copy, PartialEq, Eq, PartialOrd, Ord, Hash, Structural)]
pub struct CellEpoch {
    /// Cluster or roster epoch used for placement.
    pub membership_epoch: u64,
    /// Per-cell generation inside the membership epoch.
    pub generation: u64,
}

impl CellEpoch {
    /// An epoch descriptor.
    pub fn new(membership_epoch: u64, generation: u64) -> (e: Self)
        ensures
            e == (CellEpoch { membership_epoch, generation }),
    {
        CellEpoch { membership_epoch, generation }
    }
}

/// Compact identifier for a subject cell, deterministic for a canonical
/// partition and membership epoch.
#[derive(Debug, Clone, Copy, PartialEq, Eq, PartialOrd, Ord, Hash, Structural)]
pub struct CellId(pub u128);

/// Bytes hashed for one half of a cell id: a tag, the epoch and the
/// partition's canonical text.
pub open spec fn cell_key_bytes(tag: Seq<char>, epoch: CellEpoch, key: Seq<char>) -> Seq<u8> {
    text_bytes(tag) + u64_bytes(epoch.membership_epoch) + u64_bytes(epoch.generation) + text_bytes(key)
}

/// The cell id of a partition's canonical text in an epoch: two 64-bit
/// FNV-1a hashes under distinct tags, high half then low half.
pub open spec fn cell_id_of(epoch: CellEpoch, key: Seq<char>) -> u128 {
    (fnv1a(cell_key_bytes("subject-cell:v2"@, epoch, key)) as int * 0x1_0000_0000_0000_0000
        + fnv1a(cell_key_bytes("subject-cell"@, epoch, key)) as int) as u128
}

fn cell_hash(tag: &str, epoch: CellEpoch, key: &str) -> (h: u64)
    ensures
        h == fnv1a(cell_key_bytes(tag@, epoch, key@)),
{
    let mut buf: Vec<u8> = Vec::new();
    crate::messaging::service::push_text(&mut buf, tag);
    crate::messaging::service::push_u64(&mut buf, epoch.membership_epoch);
    crate::messaging::service::push_u64(&mut buf, epoch.generation);
    crate::messaging::service::push_text(&mut buf, key);
    assert(buf@ =~= cell_key_bytes(tag@, epoch, key@));
    crate::lab::seed::fnv1a_bytes(buf.as_slice())
}

impl CellId {
    /// The stable cell id of a partition in an epoch.
    pub fn for_partition(epoch: CellEpoch, subject_partition: &SubjectPattern) -> (c: Self)
        ensures
            c.0 == cell_id_of(epoch, subject_partition.text()),
    {
        let key = subject_partition.canonical_key();
        let lower = cell_hash("subject-cell", epoch, key.as_str());
        let upper = cell_hash("subject-cell:v2", epoch, key.as_str());
        CellId((upper as u128) * 0x1_0000_0000_0000_0000u128 + (lower as u128))
    }

    /// The raw 128-bit identifier.
    pub fn raw(self) -> (r: u128)
        ensures
            r == self.0,
    {
        self.0
    }

    /// Text of the id: `cell-` and 32 lower-case hexadecimal digits.
    pub fn to_string(&self) -> (s: String)
        ensures
            s@ == "cell-"@ + crate::text::hex_fixed((self.0 / 0x1_0000_0000_0000_0000u128) as nat, 16)
                + crate::text::hex_fixed((self.0 % 0x1_0000_0000_0000_0000u128) as nat, 16),
    {
        let upper = (self.0 / 0x1_0000_0000_0000_0000u128) as u64;
        let lower = (self.0 % 0x1_0000_0000_0000_0000u128) as u64;
        let mut s = owned("cell-");
        let hi = crate::text::hex_fixed_text(upper, 16);
        let lo = crate::text::hex_fixed_text(lower, 16);
        push_str(&mut s, hi.as_str());
        push_str(&mut s, lo.as_str());
        s
    }
}

// ─── Reply-space compaction ────────────────────────────────────────────────

/// Reply-space compaction settings applied before placement.
#[derive(Debug, Clone, Copy, PartialEq, Eq, Structural)]
pub struct ReplySpaceCompactionPolicy {
    /// Whether reply-space aggregation is enabled.
    pub enabled: bool,
    /// Number of leading segments to keep before collapsing the suffix.
    pub preserve_segments: usize,
}

impl Default for ReplySpaceCompactionPolicy {
    /// Enabled, keeping three segments.
    fn default() -> (p: Self)
        ensures
            p == (ReplySpaceCompactionPolicy { enabled: true, preserve_segments: 3 }),
    {
        ReplySpaceCompactionPolicy { enabled: true, preserve_segments: 3 }
    }
}

/// The tokens address a reply space: the first is the literal `_INBOX`,
/// `_RPLY` or `reply`.
pub open spec fn is_reply_space(t: Seq<Tok>) -> bool {
    t.len() > 0 && (t[0] == Tok::Lit("_INBOX"@) || t[0] == Tok::Lit("_RPLY"@) || t[0] == Tok::Lit("reply"@))
}

/// Reply-space compaction: a reply-space pattern longer than the kept
/// segments is cut to them (at least one) and ends in a tail wildcard.
pub open spec fn compact_reply_space(t: Seq<Tok>, policy: ReplySpaceCompactionPolicy) -> Seq<Tok> {
    if !policy.enabled || !is_reply_space(t) || t.len() <= policy.preserve_segments {
        t
    } else {
        let keep = if policy.preserve_segments < 1 { 1 } else { policy.preserve_segments as int };
        let keep = if keep < t.len() { keep } else { t.len() as int };
        let p = t.take(keep);
        if p.last() is Tail { p } else { p.push(Tok::Tail) }
    }
}

proof fn lemma_no_tail(t: Seq<Tok>)
    requires
        forall|i: int| 0 <= i < t.len() ==> !(#[trigger] t[i] is Tail),
    ensures
        tail_count(t) == 0,
    decreases t.len(),
{
    if t.len() > 0 {
        assert(!(t[t.len() - 1] is Tail));
        lemma_no_tail(t.drop_last());
    }
}

/// Appending a tail wildcard to tokens without one gives a valid pattern.
proof fn lemma_push_tail_valid(p: Seq<Tok>)
    requires
        forall|i: int| 0 <= i < p.len() ==> !(#[trigger] p[i] is Tail),
    ensures
        token_fault(p.push(Tok::Tail)) is None,
{
    lemma_no_tail(p);
    assert(p.push(Tok::Tail).drop_last() =~= p);
    let q = p.push(Tok::Tail);
    assert forall|i: int| 0 <= i < q.len() - 1 implies !(#[trigger] q[i] is Tail) by {
        assert(q[i] == p[i]);
    }
}

/// Valid tokens have a tail wildcard only at the end.
proof fn lemma_tail_only_last(t: Seq<Tok>, i: int)
    requires
        token_fault(t) is None,
        0 <= i < t.len() - 1,
    ensures
        !(t[i] is Tail),
{
}

proof fn lemma_compact_valid(t: Seq<Tok>, policy: ReplySpaceCompactionPolicy)
    requires
        token_fault(t) is None,
    ensures
        token_fault(compact_reply_space(t, policy)) is None,
{
    if policy.enabled && is_reply_space(t) && t.len() > policy.preserve_segments {
        let keep0 = if policy.preserve_segments < 1 { 1 } else { policy.preserve_segments as int };
        let keep = if keep0 < t.len() { keep0 } else { t.len() as int };
        let p = t.take(keep);
        if keep < t.len() {
            assert forall|i: int| 0 <= i < p.len() implies !(#[trigger] p[i] is Tail) by {
                lemma_tail_only_last(t, i);
            }
            lemma_push_tail_valid(p);
        } else {
            assert(p =~= t);
            if !(p.last() is Tail) {
                assert forall|i: int| 0 <= i < p.len() implies !(#[trigger] p[i] is Tail) by {
                    if i < p.len() - 1 {
                        lemma_tail_only_last(t, i);
                    }
                }
                lemma_push_tail_valid(p);
            }
        }
    }
}

impl SubjectPattern {
    fn is_reply_subject(&self) -> (b: bool)
        ensures
            b == is_reply_space(self.tokens()),
    {
        let segs = self.segments();
        if segs.len() == 0 {
            return false;
        }
        match &segs[0] {
            SubjectToken::Literal(v) => {
                str_eq(v.as_str(), "_INBOX") || str_eq(v.as_str(), "_RPLY") || str_eq(v.as_str(), "reply")
            },
            _ => false,
        }
    }

    /// Collapses reply-space suffix churn before placement, so cells do
    /// not multiply on per-request inbox identifiers.
    pub fn aggregate_reply_space(&self, policy: ReplySpaceCompactionPolicy) -> (r: SubjectPattern)
        ensures
            r.tokens() == compact_reply_space(self.tokens(), policy),
    {
        proof { use_type_invariant(self); }
        let segs = self.segments();
        if !policy.enabled || !self.is_reply_subject() || segs.len() <= policy.preserve_segments {
            return self.duplicate();
        }
        let keep0 = if policy.preserve_segments < 1 { 1 } else { policy.preserve_segments };
        let keep = if keep0 < segs.len() { keep0 } else { segs.len() };
        let ghost t = self.tokens();
        let mut segments: Vec<SubjectToken> = Vec::new();
        let mut i: usize = 0;
        while i < keep
            invariant
                i <= keep <= segs@.len(),
                toks(segs@) == t,
                toks(segments@) == t.take(i as int),
            decreases keep - i,
        {
            let ghost before = segments@;
            segments.push(copy_token(&segs[i]));
            assert(toks(segments@) =~= t.take(i + 1)) by {
                assert(toks(segments@) =~= toks(before).push(segs@[i as int]@));
            }
            i = i + 1;
        }
        let last_is_tail = match &segments[keep - 1] {
            SubjectToken::Tail => true,
            _ => false,
        };
        if !last_is_tail {
            let ghost before = segments@;
            segments.push(SubjectToken::Tail);
            assert(toks(segments@) =~= toks(before).push(Tok::Tail));
        }
        proof { lemma_compact_valid(t, policy); }
        match SubjectPattern::from_tokens(segments) {
            Ok(p) => p,
            Err(_) => {
                assert(false);
                self.duplicate()
            },
        }
    }
}


// ─── Prefix morphisms and normalization ───────────────────────────────────

/// Literal tokens with the given texts.
pub open spec fn lits(s: Seq<Seq<char>>) -> Seq<Tok> {
    s.map_values(|x: Seq<char>| Tok::Lit(x))
}

/// Rewrite of tokens by a literal-prefix morphism `(from, to)`: tokens
/// that start with the literals of `from` get them replaced by those of
/// `to`; others are not rewritten.
pub open spec fn rewrite(m: (Seq<Seq<char>>, Seq<Seq<char>>), t: Seq<Tok>) -> Option<Seq<Tok>> {
    if t.len() >= m.0.len() && t.take(m.0.len() as int) == lits(m.0) {
        Some(lits(m.1) + t.skip(m.0.len() as int))
    } else {
        None
    }
}

proof fn lemma_literal_texts_len(t: Seq<Tok>)
    requires
        crate::messaging::morphism::literal_texts(t) is Some,
    ensures
        crate::messaging::morphism::literal_texts(t)->0.len() == t.len(),
        lits(crate::messaging::morphism::literal_texts(t)->0) == t,
    decreases t.len(),
{
    if t.len() > 0 {
        lemma_literal_texts_len(t.drop_last());
        let p = crate::messaging::morphism::literal_texts(t.drop_last())->0;
        assert(lits(p.push(t.last()->Lit_0)) =~= lits(p).push(t.last()));
        assert(t =~= t.drop_last().push(t.last()));
    } else {
        assert(lits(Seq::<Seq<char>>::empty()) =~= t);
    }
}

/// Deterministic literal-prefix rewrite applied before placement.
#[derive(Debug, PartialEq, Eq)]
pub struct SubjectPrefixMorphism {
    from: Vec<String>,
    to: Vec<String>,
}

impl SubjectPrefixMorphism {
    /// The rewrite target has at least one segment.
    #[verifier::type_invariant]
    spec fn target_nonempty(self) -> bool {
        self.to@.len() > 0
    }

    /// Literal texts of the source prefix.
    pub closed spec fn from_texts(self) -> Seq<Seq<char>> {
        crate::messaging::morphism::tv(self.from@)
    }

    /// Literal texts of the target prefix.
    pub closed spec fn to_texts(self) -> Seq<Seq<char>> {
        crate::messaging::morphism::tv(self.to@)
    }

    /// The morphism as a pair of literal sequences.
    pub open spec fn view_pair(self) -> (Seq<Seq<char>>, Seq<Seq<char>>) {
        (self.from_texts(), self.to_texts())
    }
}

fn copy_strings(v: &Vec<String>) -> (r: Vec<String>)
    ensures
        crate::messaging::morphism::tv(r@) == crate::messaging::morphism::tv(v@),
{
    let mut r: Vec<String> = Vec::new();
    let mut i: usize = 0;
    while i < v.len()
        invariant
            i <= v.len(),
            r@.len() == i,
            forall|k: int| 0 <= k < i ==> #[trigger] r@[k]@ == v@[k]@,
        decreases v.len() - i,
    {
        r.push(copy_string(&v[i]));
        i = i + 1;
    }
    assert(crate::messaging::morphism::tv(r@) =~= crate::messaging::morphism::tv(v@));
    r
}

impl Clone for SubjectPrefixMorphism {
    fn clone(&self) -> (r: Self)
        ensures
            r.view_pair() == self.view_pair(),
    {
        proof { use_type_invariant(self); }
        let from = copy_strings(&self.from);
        let to = copy_strings(&self.to);
        assert(to@.len() == crate::messaging::morphism::tv(to@).len());
        SubjectPrefixMorphism { from, to }
    }
}

/// The literal texts of a pattern's tokens, or the error naming it.
fn pattern_literals(p: &SubjectPattern) -> (r: Result<Vec<String>, SubjectPatternError>)
    ensures
        match crate::messaging::morphism::literal_texts(p.tokens()) {
            Some(f) => r matches Ok(v) && crate::messaging::morphism::tv(v@) == f,
            None => r matches Err(e) && e@ == crate::messaging::subject::Fault::LiteralOnlyPatternRequired(p.text()),
        },
{
    let segs = p.segments();
    let ghost t = p.tokens();
    let mut out: Vec<String> = Vec::new();
    let mut i: usize = 0;
    assert(t.take(0) =~= Seq::<Tok>::empty());
    while i < segs.len()
        invariant
            i <= segs.len(),
            t == p.tokens(),
            t == toks(segs@),
            t.len() == segs@.len(),
            crate::messaging::morphism::literal_texts(t.take(i as int)) == Some(crate::messaging::morphism::tv(out@)),
        decreases segs.len() - i,
    {
        assert(t.take(i + 1).drop_last() =~= t.take(i as int));
        assert(t.take(i + 1).last() == segs@[i as int]@);
        match &segs[i] {
            SubjectToken::Literal(v) => {
                let ghost before = out@;
                out.push(copy_string(v));
                assert(crate::messaging::morphism::tv(out@) =~= crate::messaging::morphism::tv(before).push(v@));
            },
            _ => {
                proof {
                    assert(!(t.take(i + 1).last() is Lit));
                    assert(crate::messaging::morphism::literal_texts(t.take(i + 1)) is None);
                    lemma_literal_none_grows(t, i + 1);
                }
                return Err(SubjectPatternError::LiteralOnlyPatternRequired(p.canonical_key()));
            },
        }
        i = i + 1;
    }
    assert(t.take(segs.len() as int) =~= t);
    Ok(out)
}

proof fn lemma_literal_none_grows(t: Seq<Tok>, k: int)
    requires
        0 <= k <= t.len(),
        crate::messaging::morphism::literal_texts(t.take(k)) is None,
    ensures
        crate::messaging::morphism::literal_texts(t) is None,
    decreases t.len(),
{
    if k < t.len() {
        assert(t.drop_last().take(k) =~= t.take(k));
        lemma_literal_none_grows(t.drop_last(), k);
    } else {
        assert(t.take(k) =~= t);
    }
}

/// What building a prefix morphism from two pattern texts gives: the
/// first parse failure, then the first non-literal pattern, else the two
/// literal sequences.
pub open spec fn prefix_morphism_spec(from: Seq<char>, to: Seq<char>)
    -> Result<(Seq<Seq<char>>, Seq<Seq<char>>), crate::messaging::subject::Fault>
{
    match parse_pattern(from) {
        Err(e) => Err(e),
        Ok(f) => match parse_pattern(to) {
            Err(e) => Err(e),
            Ok(g) => match literal_texts(f) {
                None => Err(Fault::LiteralOnlyPatternRequired(canonical(f))),
                Some(ft) => match literal_texts(g) {
                    None => Err(Fault::LiteralOnlyPatternRequired(canonical(g))),
                    Some(gt) => Ok((ft, gt)),
                },
            },
        },
    }
}

impl SubjectPrefixMorphism {
    /// A literal-prefix rewrite from one pattern to another; both must
    /// parse and hold only literal segments.
    pub fn new(from: &str, to: &str) -> (r: Result<Self, SubjectPatternError>)
        ensures
            match prefix_morphism_spec(from@, to@) {
                Ok(v) => r matches Ok(m) && m.view_pair() == v,
                Err(f) => r matches Err(e) && e@ == f,
            },
    {
        let from_pattern = SubjectPattern::parse(from)?;
        let to_pattern = SubjectPattern::parse(to)?;
        proof {
            use_type_invariant(&from_pattern);
            use_type_invariant(&to_pattern);
        }
        let from_literals = pattern_literals(&from_pattern)?;
        let to_literals = pattern_literals(&to_pattern)?;
        proof {
            lemma_literal_texts_len(to_pattern.tokens());
        }
        Ok(SubjectPrefixMorphism { from: from_literals, to: to_literals })
    }

    /// Applies the rewrite to a pattern.
    pub fn apply(&self, pattern: &SubjectPattern) -> (r: Option<SubjectPattern>)
        ensures
            match rewrite(self.view_pair(), pattern.tokens()) {
                Some(t) => r matches Some(p) && p.tokens() == t,
                None => r is None,
            },
    {
        proof {
            use_type_invariant(self);
            use_type_invariant(pattern);
        }
        let segs = pattern.segments();
        let ghost t = pattern.tokens();
        let ghost f = self.from_texts();
        if segs.len() < self.from.len() {
            return None;
        }
        let mut i: usize = 0;
        while i < self.from.len()
            invariant
                i <= self.from@.len() <= segs@.len(),
                t == toks(segs@),
                t == pattern.tokens(),
                f == self.from_texts(),
                f.len() == self.from@.len(),
                forall|k: int| 0 <= k < i ==> #[trigger] t[k] == Tok::Lit(f[k]),
            decreases self.from.len() - i,
        {
            assert(f[i as int] == self.from@[i as int]@);
            assert(t[i as int] == segs@[i as int]@);
            assert(lits(f)[i as int] == Tok::Lit(f[i as int]));
            assert(t.take(f.len() as int)[i as int] == t[i as int]);
            match &segs[i] {
                SubjectToken::Literal(v) => {
                    if !crate::text::same_text(v, &self.from[i]) {
                        assert(t.take(f.len() as int)[i as int] != lits(f)[i as int]);
                        return None;
                    }
                },
                _ => {
                    assert(t.take(f.len() as int)[i as int] != lits(f)[i as int]);
                    return None;
                },
            }
            i = i + 1;
        }
        assert(t.take(f.len() as int) =~= lits(f));
        let mut rewritten: Vec<SubjectToken> = Vec::new();
        let mut j: usize = 0;
        let ghost g = self.to_texts();
        while j < self.to.len()
            invariant
                j <= self.to@.len(),
                g == self.to_texts(),
                g.len() == self.to@.len(),
                toks(rewritten@) == lits(g).take(j as int),
            decreases self.to.len() - j,
        {
            let ghost before = rewritten@;
            rewritten.push(SubjectToken::Literal(copy_string(&self.to[j])));
            assert(toks(rewritten@) =~= lits(g).take(j + 1)) by {
                assert(toks(rewritten@) =~= toks(before).push(Tok::Lit(self.to@[j as int]@)));
            }
            j = j + 1;
        }
        let ghost head = toks(rewritten@);
        assert(head =~= lits(g));
        let mut k: usize = self.from.len();
        while k < segs.len()
            invariant
                self.from@.len() <= k <= segs@.len(),
                t == toks(segs@),
                toks(rewritten@) == head + t.subrange(self.from@.len() as int, k as int),
            decreases segs.len() - k,
        {
            let ghost before = rewritten@;
            rewritten.push(copy_token(&segs[k]));
            assert(toks(rewritten@) =~= head + t.subrange(self.from@.len() as int, k + 1)) by {
                assert(toks(rewritten@) =~= toks(before).push(segs@[k as int]@));
            }
            k = k + 1;
        }
        let ghost out = toks(rewritten@);
        assert(out =~= lits(g) + t.skip(f.len() as int));
        proof {
            assert forall|x: int| 0 <= x < out.len() - 1 implies !(#[trigger] out[x] is Tail) by {
                if x >= g.len() {
                    assert(out[x] == t[x - g.len() + f.len()]);
                    lemma_tail_only_last(t, x - g.len() + f.len());
                }
            }
            lemma_valid_without_inner_tail(out);
        }
        match SubjectPattern::from_tokens(rewritten) {
            Ok(p) => Some(p),
            Err(_) => {
                assert(false);
                None
            },
        }
    }
}

/// Tokens with a tail wildcard at most at the end form a valid pattern.
proof fn lemma_valid_without_inner_tail(t: Seq<Tok>)
    requires
        t.len() > 0,
        forall|i: int| 0 <= i < t.len() - 1 ==> !(#[trigger] t[i] is Tail),
    ensures
        token_fault(t) is None,
{
    assert forall|i: int| 0 <= i < t.drop_last().len() implies !(#[trigger] t.drop_last()[i] is Tail) by {
        assert(t.drop_last()[i] == t[i]);
    }
    lemma_no_tail(t.drop_last());
}


/// Canonicalization pipeline that runs before subject-cell placement.
#[derive(Debug, Clone, PartialEq, Eq)]
pub struct NormalizationPolicy {
    /// Ordered literal-prefix rewrites that canonicalize alias subject spaces.
    pub morphisms: Vec<SubjectPrefixMorphism>,
    /// Reply-space aggregation policy applied after morphisms.
    pub reply_space_policy: ReplySpaceCompactionPolicy,
}

impl Default for NormalizationPolicy {
    /// No morphisms and the default reply-space compaction.
    fn default() -> (p: Self)
        ensures
            p.morphisms@.len() == 0,
            p.reply_space_policy == (ReplySpaceCompactionPolicy { enabled: true, preserve_segments: 3 }),
    {
        NormalizationPolicy { morphisms: Vec::new(), reply_space_policy: ReplySpaceCompactionPolicy::default() }
    }
}

/// The morphisms as pairs of literal sequences.
pub open spec fn morphism_pairs(ms: Seq<SubjectPrefixMorphism>) -> Seq<(Seq<Seq<char>>, Seq<Seq<char>>)> {
    ms.map_values(|m: SubjectPrefixMorphism| m.view_pair())
}

/// Where normalization ends.
pub enum NormOutcome {
    /// A canonical form that no morphism changes.
    Done(Seq<Tok>),
    /// Two morphisms rewrote the same subject differently.
    Conflict(Seq<Tok>, Seq<Tok>),
    /// A rewrite reached a subject seen before (or could not be recorded).
    Cycle(Seq<Tok>),
}

/// The first morphism at or after `k` whose rewrite of `canon` differs
/// in text from `cand`.
pub open spec fn first_disagreement(vs: Seq<(Seq<Seq<char>>, Seq<Seq<char>>)>, canon: Seq<Tok>, cand: Seq<Tok>, k: int) -> Option<Seq<Tok>>
    decreases vs.len() - k,
{
    if k < 0 || k >= vs.len() {
        None
    } else {
        match rewrite(vs[k], canon) {
            Some(o) => if canonical(o) != canonical(cand) { Some(o) } else { first_disagreement(vs, canon, cand, k + 1) },
            None => first_disagreement(vs, canon, cand, k + 1),
        }
    }
}

/// The normalization walk from subject `canon`, having seen the texts
/// `seen`, scanning morphisms from `index`: the first morphism that
/// rewrites the subject is checked against every later one, a rewrite to
/// a new text restarts the scan from the first morphism, a rewrite to a
/// seen text is a cycle, and the walk is done when no morphism changes
/// the subject.
pub open spec fn norm_walk(vs: Seq<(Seq<Seq<char>>, Seq<Seq<char>>)>, canon: Seq<Tok>, seen: Seq<Seq<char>>, index: int) -> NormOutcome
    decreases usize::MAX - seen.len(), vs.len() - index,
{
    if index < 0 || index >= vs.len() || seen.len() > usize::MAX {
        NormOutcome::Done(canon)
    } else {
        match rewrite(vs[index], canon) {
            None => norm_walk(vs, canon, seen, index + 1),
            Some(cand) => match first_disagreement(vs, canon, cand, index + 1) {
                Some(other) => NormOutcome::Conflict(cand, other),
                None => if canonical(cand) == canonical(canon) {
                    norm_walk(vs, canon, seen, index + 1)
                } else if seen.contains(canonical(cand)) || seen.len() >= usize::MAX {
                    NormOutcome::Cycle(cand)
                } else {
                    norm_walk(vs, cand, seen.push(canonical(cand)), 0)
                },
            },
        }
    }
}

/// Normalization's result for a pattern's tokens and text.
pub open spec fn normalization(p: NormalizationPolicy, t: Seq<Tok>, text: Seq<char>) -> NormOutcome {
    norm_walk(morphism_pairs(p.morphisms@), t, seq![text], 0)
}

fn seen_contains(seen: &Vec<String>, s: &String) -> (b: bool)
    ensures
        b == crate::messaging::morphism::tv(seen@).contains(s@),
{
    let ghost sv = crate::messaging::morphism::tv(seen@);
    let mut i: usize = 0;
    while i < seen.len()
        invariant
            i <= seen.len(),
            sv == crate::messaging::morphism::tv(seen@),
            forall|k: int| 0 <= k < i ==> sv[k] != s@,
        decreases seen.len() - i,
    {
        if crate::text::same_text(&seen[i], s) {
            assert(sv[i as int] == s@);
            return true;
        }
        i = i + 1;
    }
    false
}

impl NormalizationPolicy {
    /// The first later morphism whose rewrite of `canon` disagrees with
    /// `cand`.
    fn disagreement(&self, canon: &SubjectPattern, cand: &SubjectPattern, from: usize) -> (r: Option<SubjectPattern>)
        ensures
            match first_disagreement(morphism_pairs(self.morphisms@), canon.tokens(), cand.tokens(), from as int) {
                Some(o) => r matches Some(p) && p.tokens() == o,
                None => r is None,
            },
        decreases self.morphisms.len() - from,
    {
        proof {
            use_type_invariant(canon);
            use_type_invariant(cand);
        }
        if from >= self.morphisms.len() {
            return None;
        }
        assert(morphism_pairs(self.morphisms@)[from as int] == self.morphisms@[from as int].view_pair());
        match self.morphisms[from].apply(canon) {
            Some(o) => {
                proof { use_type_invariant(&o); }
                if !crate::text::same_text(&o.canonical_key(), &cand.canonical_key()) {
                    Some(o)
                } else {
                    self.disagreement(canon, cand, from + 1)
                }
            },
            None => self.disagreement(canon, cand, from + 1),
        }
    }

    /// The canonical subject partition used for placement: literal-prefix
    /// morphisms are applied until none changes the subject, then reply
    /// space is compacted. Disagreeing morphisms and rewrite cycles are
    /// errors.
    pub fn normalize(&self, pattern: &SubjectPattern) -> (r: Result<SubjectPattern, FabricError>)
        ensures
            match normalization(*self, pattern.tokens(), pattern.text()) {
                NormOutcome::Done(t) => r matches Ok(p) && p.tokens() == compact_reply_space(t, self.reply_space_policy),
                NormOutcome::Conflict(a, b) => r matches Err(FabricError::ConflictingSubjectMorphisms { subject, left, right })
                    && same_pattern(subject, *pattern) && left.tokens() == a && right.tokens() == b,
                NormOutcome::Cycle(c) => r matches Err(FabricError::CyclicSubjectMorphisms { subject, cycle_point })
                    && same_pattern(subject, *pattern) && cycle_point.tokens() == c,
            },
    {
        proof { use_type_invariant(pattern); }
        let ghost vs = morphism_pairs(self.morphisms@);
        let ghost goal = normalization(*self, pattern.tokens(), pattern.text());
        let mut canonical_pattern = pattern.duplicate();
        let mut seen: Vec<String> = Vec::new();
        seen.push(pattern.canonical_key());
        assert(crate::messaging::morphism::tv(seen@) =~= seq![pattern.text()]);
        let mut index: usize = 0;
        while index < self.morphisms.len()
            invariant
                vs == morphism_pairs(self.morphisms@),
                vs.len() == self.morphisms@.len(),
                goal == normalization(*self, pattern.tokens(), pattern.text()),
                index <= self.morphisms@.len(),
                norm_walk(vs, canonical_pattern.tokens(), crate::messaging::morphism::tv(seen@), index as int) == goal,
            decreases usize::MAX - seen@.len(), self.morphisms@.len() - index,
        {
            proof { use_type_invariant(&canonical_pattern); }
            let seen_len = seen.len();
            let ghost sv = crate::messaging::morphism::tv(seen@);
            assert(sv.len() == seen_len);
            assert(vs[index as int] == self.morphisms@[index as int].view_pair());
            match self.morphisms[index].apply(&canonical_pattern) {
                None => {
                    index = index + 1;
                },
                Some(candidate) => {
                    proof { use_type_invariant(&candidate); }
                    match self.disagreement(&canonical_pattern, &candidate, index + 1) {
                        Some(other) => {
                            return Err(FabricError::ConflictingSubjectMorphisms {
                                subject: pattern.duplicate(),
                                left: candidate,
                                right: other,
                            });
                        },
                        None => {},
                    }
                    let key = candidate.canonical_key();
                    if crate::text::same_text(&key, &canonical_pattern.canonical_key()) {
                        index = index + 1;
                    } else if seen_contains(&seen, &key) || seen.len() == usize::MAX {
                        return Err(FabricError::CyclicSubjectMorphisms {
                            subject: pattern.duplicate(),
                            cycle_point: candidate,
                        });
                    } else {
                        let ghost before = seen@;
                        seen.push(key);
                        assert(crate::messaging::morphism::tv(seen@) =~= sv.push(canonical(candidate.tokens())));
                        canonical_pattern = candidate;
                        index = 0;
                    }
                },
            }
        }
        Ok(canonical_pattern.aggregate_reply_space(self.reply_space_policy))
    }
}

proof fn lemma_joined_concat(a: Seq<Seq<char>>, b: Seq<Seq<char>>, sep: Seq<char>)
    ensures
        crate::text::joined(a + b, sep) == (if a.len() == 0 {
            crate::text::joined(b, sep)
        } else if b.len() == 0 {
            crate::text::joined(a, sep)
        } else {
            crate::text::joined(a, sep) + sep + crate::text::joined(b, sep)
        }),
    decreases b.len(),
{
    if a.len() == 0 {
        assert(a + b =~= b);
    } else if b.len() == 0 {
        assert(a + b =~= a);
    } else {
        let b1 = b.drop_last();
        lemma_joined_concat(a, b1, sep);
        assert((a + b).drop_last() =~= a + b1);
        assert((a + b).last() == b.last());
        if b1.len() > 0 {
            assert(crate::text::joined(a, sep) + sep + crate::text::joined(b1, sep) + sep + b.last()
                =~= crate::text::joined(a, sep) + sep + (crate::text::joined(b1, sep) + sep + b.last()));
        } else {
            assert(b.len() == 1);
        }
    }
}

/// Texts of the tokens, in order.
spec fn tok_texts(t: Seq<Tok>) -> Seq<Seq<char>> {
    t.map_values(|x: Tok| tok_text(x))
}

proof fn lemma_tok_texts_split(t: Seq<Tok>, n: int)
    requires
        0 <= n <= t.len(),
    ensures
        tok_texts(t) == tok_texts(t.take(n)) + tok_texts(t.skip(n)),
        canonical(t) == crate::text::joined(tok_texts(t), seq!['.']),
{
    assert(tok_texts(t) =~= tok_texts(t.take(n)) + tok_texts(t.skip(n)));
}

proof fn lemma_lits_texts(x: Seq<Seq<char>>)
    ensures
        tok_texts(lits(x)) == x,
{
    assert(tok_texts(lits(x)) =~= x);
}

/// `joined(a + c) == joined(b + c)` follows from `joined(a) == joined(b)`
/// for non-empty `a` and `b`.
proof fn lemma_joined_same_head(a: Seq<Seq<char>>, b: Seq<Seq<char>>, c: Seq<Seq<char>>)
    requires
        a.len() > 0,
        b.len() > 0,
        crate::text::joined(a, seq!['.']) == crate::text::joined(b, seq!['.']),
    ensures
        crate::text::joined(a + c, seq!['.']) == crate::text::joined(b + c, seq!['.']),
{
    lemma_joined_concat(a, c, seq!['.']);
    lemma_joined_concat(b, c, seq!['.']);
}

/// From `joined(a + t) == joined(b + t)` with non-empty `a`, non-empty
/// `b + t`, and `t` non-empty when `b` is empty: `b` is non-empty and
/// `joined(a) == joined(b)`.
proof fn lemma_joined_cancel_tail(a: Seq<Seq<char>>, b: Seq<Seq<char>>, t: Seq<Seq<char>>)
    requires
        a.len() > 0,
        b.len() > 0 || t.len() > 0,
        crate::text::joined(a + t, seq!['.']) == crate::text::joined(b + t, seq!['.']),
    ensures
        b.len() > 0,
        crate::text::joined(a, seq!['.']) == crate::text::joined(b, seq!['.']),
{
    let d = seq!['.'];
    lemma_joined_concat(a, t, d);
    lemma_joined_concat(b, t, d);
    let ja = crate::text::joined(a, d);
    let jb = crate::text::joined(b, d);
    let jt = crate::text::joined(t, d);
    if b.len() == 0 {
        assert(b + t =~= t);
        assert((ja + d + jt).len() > jt.len());
    } else if t.len() > 0 {
        assert(crate::text::joined(a + t, d) == ja + d + jt);
        assert(crate::text::joined(b + t, d) == jb + d + jt);
        assert((ja + d + jt).len() == ja.len() + 1 + jt.len());
        assert((jb + d + jt).len() == jb.len() + 1 + jt.len());
        assert(ja.len() == jb.len());
        assert forall|i: int| 0 <= i < ja.len() implies ja[i] == jb[i] by {
            assert((ja + d + jt)[i] == (jb + d + jt)[i]);
        }
        assert(ja =~= jb);
    }
}

/// A walk from `c`, when no morphism changes the text of `c`, ends in `c`.
proof fn lemma_walk_at_fixpoint(vs: Seq<(Seq<Seq<char>>, Seq<Seq<char>>)>, c: Seq<Tok>, seen: Seq<Seq<char>>, index: int)
    requires
        forall|k: int| 0 <= k < vs.len() ==> #[trigger] rewrite(vs[k], c) is None
            || canonical(rewrite(vs[k], c)->0) == canonical(c),
    ensures
        norm_walk(vs, c, seen, index) == NormOutcome::Done(c),
    decreases vs.len() - index,
{
    if index < 0 || index >= vs.len() || seen.len() > usize::MAX {
    } else {
        match rewrite(vs[index], c) {
            None => lemma_walk_at_fixpoint(vs, c, seen, index + 1),
            Some(cand) => {
                lemma_no_disagreement(vs, c, cand, index + 1);
                lemma_walk_at_fixpoint(vs, c, seen, index + 1);
            },
        }
    }
}

proof fn lemma_no_disagreement(vs: Seq<(Seq<Seq<char>>, Seq<Seq<char>>)>, c: Seq<Tok>, cand: Seq<Tok>, k: int)
    requires
        canonical(cand) == canonical(c),
        forall|j: int| 0 <= j < vs.len() ==> #[trigger] rewrite(vs[j], c) is None
            || canonical(rewrite(vs[j], c)->0) == canonical(c),
    ensures
        first_disagreement(vs, c, cand, k) is None,
    decreases vs.len() - k,
{
    if 0 <= k < vs.len() {
        lemma_no_disagreement(vs, c, cand, k + 1);
    }
}

/// Compacting twice is compacting once.
proof fn lemma_compact_idempotent(t: Seq<Tok>, policy: ReplySpaceCompactionPolicy)
    ensures
        compact_reply_space(compact_reply_space(t, policy), policy) == compact_reply_space(t, policy),
{
    let c = compact_reply_space(t, policy);
    if c != t {
        let keep = if policy.preserve_segments < 1 { 1 } else { policy.preserve_segments as int };
        let keep = if keep < t.len() { keep } else { t.len() as int };
        let p = t.take(keep);
        assert(c[0] == t[0]);
        if !(p.last() is Tail) {
            assert(c.take(keep) =~= p);
        }
    }
}

/// When compaction changed `t`, a morphism that rewrites the compacted
/// tokens rewrites `t` at the same prefix, and one that keeps the text of
/// `t` keeps the text of the compacted tokens.
proof fn lemma_compact_keeps_fixpoint(m: (Seq<Seq<char>>, Seq<Seq<char>>), t: Seq<Tok>, policy: ReplySpaceCompactionPolicy)
    requires
        m.1.len() > 0,
        rewrite(m, t) is None || canonical(rewrite(m, t)->0) == canonical(t),
    ensures
        rewrite(m, compact_reply_space(t, policy)) is None
            || canonical(rewrite(m, compact_reply_space(t, policy))->0) == canonical(compact_reply_space(t, policy)),
{
    let c = compact_reply_space(t, policy);
    if c != t && rewrite(m, c) is Some {
        let keep = if policy.preserve_segments < 1 { 1 } else { policy.preserve_segments as int };
        let keep = if keep < t.len() { keep } else { t.len() as int };
        let p = t.take(keep);
        let n = m.0.len() as int;
        assert(c.take(n) == lits(m.0));
        if n > p.len() {
            assert(c[p.len() as int] == Tok::Tail);
            assert(c.take(n)[p.len() as int] == lits(m.0)[p.len() as int]);
            assert(false);
        }
        assert(t.take(n) =~= c.take(n));
        assert(rewrite(m, t) is Some);
        let a = m.1;
        let b = m.0;
        lemma_lits_texts(a);
        lemma_lits_texts(b);
        let rt = lits(a) + t.skip(n);
        let rc = lits(a) + c.skip(n);
        assert(rt.take(a.len() as int) =~= lits(a));
        assert(rt.skip(a.len() as int) =~= t.skip(n));
        assert(rc.take(a.len() as int) =~= lits(a));
        assert(rc.skip(a.len() as int) =~= c.skip(n));
        lemma_tok_texts_split(rt, a.len() as int);
        lemma_tok_texts_split(rc, a.len() as int);
        lemma_tok_texts_split(t, n);
        lemma_tok_texts_split(c, n);
        assert(t.len() > 0);
        lemma_joined_cancel_tail(a, b, tok_texts(t.skip(n)));
        lemma_joined_same_head(a, b, tok_texts(c.skip(n)));
    }
}

/// Normalizing a normalized pattern changes nothing: when normalization of
/// a subject succeeds, normalizing its (reply-space compacted) result, from
/// any starting text, succeeds at that same result, which compaction keeps.
pub proof fn law_normalize_idempotent(p: NormalizationPolicy, t: Seq<Tok>, text: Seq<char>, text2: Seq<char>)
    requires
        forall|k: int| 0 <= k < p.morphisms@.len() ==> (#[trigger] p.morphisms@[k]).view_pair().1.len() > 0,
        normalization(p, t, text) is Done,
    ensures
        normalization(p, compact_reply_space(normalization(p, t, text)->Done_0, p.reply_space_policy), text2)
            == NormOutcome::Done(compact_reply_space(normalization(p, t, text)->Done_0, p.reply_space_policy)),
        compact_reply_space(compact_reply_space(normalization(p, t, text)->Done_0, p.reply_space_policy), p.reply_space_policy)
            == compact_reply_space(normalization(p, t, text)->Done_0, p.reply_space_policy),
{
    let vs = morphism_pairs(p.morphisms@);
    let done = normalization(p, t, text)->Done_0;
    let c = compact_reply_space(done, p.reply_space_policy);
    law_normalization_fixpoint(vs, t, seq![text], 0);
    assert forall|k: int| 0 <= k < vs.len() implies #[trigger] rewrite(vs[k], c) is None
        || canonical(rewrite(vs[k], c)->0) == canonical(c) by {
        assert(vs[k] == p.morphisms@[k].view_pair());
        assert(rewrite(vs[k], done) is None || canonical(rewrite(vs[k], done)->0) == canonical(done));
        lemma_compact_keeps_fixpoint(vs[k], done, p.reply_space_policy);
    }
    lemma_walk_at_fixpoint(vs, c, seq![text2], 0);
    lemma_compact_idempotent(done, p.reply_space_policy);
}

/// Normalization ends in a fixpoint: when it succeeds, every morphism
/// either leaves the canonical subject alone or rewrites it to the same
/// text.
pub proof fn law_normalization_fixpoint(vs: Seq<(Seq<Seq<char>>, Seq<Seq<char>>)>, canon: Seq<Tok>, seen: Seq<Seq<char>>, index: int)
    requires
        0 <= index,
        seen.len() <= usize::MAX,
        forall|k: int| 0 <= k < index && k < vs.len() ==> #[trigger] rewrite(vs[k], canon) is None
            || canonical(rewrite(vs[k], canon)->0) == canonical(canon),
        norm_walk(vs, canon, seen, index) is Done,
    ensures
        forall|k: int| 0 <= k < vs.len() ==> #[trigger] rewrite(vs[k], norm_walk(vs, canon, seen, index)->Done_0) is None
            || canonical(rewrite(vs[k], norm_walk(vs, canon, seen, index)->Done_0)->0)
                == canonical(norm_walk(vs, canon, seen, index)->Done_0),
    decreases usize::MAX - seen.len(), vs.len() - index,
{
    if index >= vs.len() {
    } else {
        match rewrite(vs[index], canon) {
            None => {
                law_normalization_fixpoint(vs, canon, seen, index + 1);
            },
            Some(cand) => {
                if first_disagreement(vs, canon, cand, index + 1) is None {
                    if canonical(cand) == canonical(canon) {
                        law_normalization_fixpoint(vs, canon, seen, index + 1);
                    } else if !(seen.contains(canonical(cand)) || seen.len() >= usize::MAX) {
                        law_normalization_fixpoint(vs, cand, seen.push(canonical(cand)), 0);
                    }
                }
            },
        }
    }
}


// ─── Temperature and budgets ───────────────────────────────────────────────

/// Coarse cell traffic temperature used to scale stewardship.
#[derive(Debug, Clone, Copy, PartialEq, Eq, Structural)]
pub enum CellTemperature {
    /// Minimal steward footprint for cold partitions.
    Cold,
    /// Intermediate steward footprint.
    Warm,
    /// Wider steward set for hot partitions.
    Hot,
}

/// Observed load signal used to steer temperature transitions.
#[derive(Debug, Clone, Copy, PartialEq, Eq, Structural)]
pub struct ObservedCellLoad {
    /// Approximate publish arrival rate for the cell.
    pub publishes_per_second: u64,
}

impl ObservedCellLoad {
    /// A load sample from a publish rate estimate.
    pub fn new(publishes_per_second: u64) -> (l: Self)
        ensures
            l.publishes_per_second == publishes_per_second,
    {
        ObservedCellLoad { publishes_per_second }
    }
}

/// Hysteresis thresholds that damp steward-set temperature changes.
#[derive(Debug, Clone, Copy, PartialEq, Eq, Structural)]
pub struct ThermalHysteresis {
    /// Promote cold cells to warm once this rate is reached.
    pub cold_to_warm_publishes_per_second: u64,
    /// Demote warm cells back to cold only once load falls to this rate.
    pub warm_to_cold_publishes_per_second: u64,
    /// Promote warm cells to hot once this rate is reached.
    pub warm_to_hot_publishes_per_second: u64,
    /// Demote hot cells back to warm only once load falls to this rate.
    pub hot_to_warm_publishes_per_second: u64,
}

impl Default for ThermalHysteresis {
    /// Cold to warm at 128/s, back at 48/s; warm to hot at 1024/s, back at 512/s.
    fn default() -> (h: Self)
        ensures
            h == (ThermalHysteresis {
                cold_to_warm_publishes_per_second: 128,
                warm_to_cold_publishes_per_second: 48,
                warm_to_hot_publishes_per_second: 1_024,
                hot_to_warm_publishes_per_second: 512,
            }),
    {
        ThermalHysteresis {
            cold_to_warm_publishes_per_second: 128,
            warm_to_cold_publishes_per_second: 48,
            warm_to_hot_publishes_per_second: 1_024,
            hot_to_warm_publishes_per_second: 512,
        }
    }
}

/// Explicit budget limiting how aggressively a steward set may change.
#[derive(Debug, Clone, Copy, PartialEq, Eq, Structural)]
pub struct RebalanceBudget {
    /// Maximum node additions/removals allowed in a single rebalance step.
    pub max_steward_changes: usize,
}

impl Default for RebalanceBudget {
    /// Two changes per step.
    fn default() -> (b: Self)
        ensures
            b.max_steward_changes == 2,
    {
        RebalanceBudget { max_steward_changes: 2 }
    }
}

/// Incremental steward-set transition plan under hysteresis and budget limits.
#[derive(Debug, Clone, PartialEq, Eq)]
pub struct RebalancePlan {
    /// Temperature recommended after applying hysteresis to the observed load.
    pub next_temperature: CellTemperature,
    /// Steward set after applying the rebalance budget to the desired target.
    pub next_stewards: Vec<NodeId>,
    /// Newly added stewards in this step.
    pub added_stewards: Vec<NodeId>,
    /// Stewards removed in this step.
    pub removed_stewards: Vec<NodeId>,
}

/// Storage class used during steward negotiation.
#[derive(Debug, Clone, Copy, PartialEq, Eq, PartialOrd, Ord, Structural)]
pub enum StorageClass {
    /// Ephemeral memory-only participation.
    Ephemeral,
    /// General durable node.
    Standard,
    /// Durable or archival-capable node.
    Durable,
}

/// Health tier used during steward negotiation.
#[derive(Debug, Clone, Copy, PartialEq, Eq, PartialOrd, Ord, Structural)]
pub enum StewardHealth {
    /// Fully eligible and healthy.
    Healthy,
    /// Eligible but less preferred.
    Degraded,
    /// Draining; still visible but last resort.
    Draining,
    /// Not eligible for stewardship.
    Unavailable,
}

/// Logical role a node may play inside the subject fabric.
#[derive(Debug, Clone, Copy, PartialEq, Eq, PartialOrd, Ord, Hash, Structural)]
pub enum NodeRole {
    /// Publisher or request originator for a subject flow.
    Origin,
    /// Passive subscriber consuming pushed messages.
    Subscriber,
    /// Stateful consumer with explicit cursor or delivery ownership.
    Consumer,
    /// Node eligible to steward the control and data capsules of a cell.
    Steward,
    /// Node eligible to store repair symbols outside the active steward quorum.
    RepairWitness,
    /// Node allowed to relay traffic across topology boundaries.
    Bridge,
}

/// Candidate node used during steward placement.
#[derive(Debug, Clone, PartialEq, Eq)]
pub struct StewardCandidate {
    /// Stable identity of the candidate node.
    pub node_id: NodeId,
    /// Logical roles available on the node, each at most once.
    pub roles: Vec<NodeRole>,
    /// Current health state used during placement scoring.
    pub health: StewardHealth,
    /// Durability tier offered by the node.
    pub storage_class: StorageClass,
    /// Failure-domain label used to diversify steward placement.
    pub failure_domain: String,
    /// Measured or budgeted one-way latency envelope in milliseconds.
    pub latency_millis: u32,
}

/// The candidate may steward cells: it has the steward role and is not
/// unavailable.
pub open spec fn steward_eligible(c: StewardCandidate) -> bool {
    c.roles@.contains(NodeRole::Steward) && !(c.health is Unavailable)
}

fn has_role(roles: &Vec<NodeRole>, role: NodeRole) -> (b: bool)
    ensures
        b == roles@.contains(role),
{
    let mut i: usize = 0;
    while i < roles.len()
        invariant
            i <= roles.len(),
            forall|k: int| 0 <= k < i ==> roles@[k] != role,
        decreases roles.len() - i,
    {
        if roles[i] == role {
            assert(roles@[i as int] == role);
            return true;
        }
        i = i + 1;
    }
    false
}

impl StewardCandidate {
    /// A candidate with no roles, healthy, standard storage and 10 ms latency.
    pub fn new(node_id: NodeId, failure_domain: &str) -> (c: Self)
        ensures
            c.node_id == node_id,
            c.roles@.len() == 0,
            c.health == StewardHealth::Healthy,
            c.storage_class == StorageClass::Standard,
            c.failure_domain@ == failure_domain@,
            c.latency_millis == 10,
    {
        StewardCandidate {
            node_id,
            roles: Vec::new(),
            health: StewardHealth::Healthy,
            storage_class: StorageClass::Standard,
            failure_domain: owned(failure_domain),
            latency_millis: 10,
        }
    }

    /// The candidate with one more role (kept once).
    pub fn with_role(self, role: NodeRole) -> (c: Self)
        ensures
            c.roles@ == (if self.roles@.contains(role) { self.roles@ } else { self.roles@.push(role) }),
            c.node_id == self.node_id,
            c.health == self.health,
            c.storage_class == self.storage_class,
            c.failure_domain == self.failure_domain,
            c.latency_millis == self.latency_millis,
    {
        let mut c = self;
        if !has_role(&c.roles, role) {
            c.roles.push(role);
        }
        c
    }

    /// The candidate with another health.
    pub fn with_health(self, health: StewardHealth) -> (c: Self)
        ensures
            c == (StewardCandidate { health, ..self }),
    {
        StewardCandidate { health, ..self }
    }

    /// The candidate with another storage class.
    pub fn with_storage_class(self, storage_class: StorageClass) -> (c: Self)
        ensures
            c == (StewardCandidate { storage_class, ..self }),
    {
        StewardCandidate { storage_class, ..self }
    }

    /// The candidate with another latency envelope.
    pub fn with_latency_millis(self, latency_millis: u32) -> (c: Self)
        ensures
            c == (StewardCandidate { latency_millis, ..self }),
    {
        StewardCandidate { latency_millis, ..self }
    }

    /// Whether the node may currently act as a steward.
    pub fn is_steward_eligible(&self) -> (b: bool)
        ensures
            b == steward_eligible(*self),
    {
        has_role(&self.roles, NodeRole::Steward) && self.health != StewardHealth::Unavailable
    }

    /// Whether the node may also act as a repair witness.
    pub fn can_repair(&self) -> (b: bool)
        ensures
            b == (self.roles@.contains(NodeRole::RepairWitness) || steward_eligible(*self)),
    {
        has_role(&self.roles, NodeRole::RepairWitness) || self.is_steward_eligible()
    }
}


// ─── Placement policy ──────────────────────────────────────────────────────

/// Placement policy for a subject cell.
#[derive(Debug, Clone, PartialEq, Eq)]
pub struct PlacementPolicy {
    /// Virtual points per node on the consistent-hash ring.
    pub vnodes_per_node: usize,
    /// Number of candidate nodes to consider before final negotiation.
    pub candidate_pool_size: usize,
    /// Target steward count for cold cells.
    pub cold_stewards: usize,
    /// Target steward count for warm cells.
    pub warm_stewards: usize,
    /// Target steward count for hot cells.
    pub hot_stewards: usize,
    /// Soft latency cap for preferred candidates.
    pub max_latency_millis: u32,
    /// Load thresholds used to damp temperature transitions.
    pub thermal_hysteresis: ThermalHysteresis,
    /// Budget limiting how many steward moves one rebalance may perform.
    pub rebalance_budget: RebalanceBudget,
    /// Canonicalization rules applied before placement.
    pub normalization: NormalizationPolicy,
}

impl Default for PlacementPolicy {
    /// 64 virtual points, a pool of 6, 1/3/5 stewards, 150 ms, default
    /// hysteresis, budget and normalization.
    fn default() -> (p: Self)
        ensures
            p.vnodes_per_node == 64,
            p.candidate_pool_size == 6,
            p.cold_stewards == 1,
            p.warm_stewards == 3,
            p.hot_stewards == 5,
            p.max_latency_millis == 150,
            p.thermal_hysteresis == (ThermalHysteresis {
                cold_to_warm_publishes_per_second: 128,
                warm_to_cold_publishes_per_second: 48,
                warm_to_hot_publishes_per_second: 1_024,
                hot_to_warm_publishes_per_second: 512,
            }),
            p.rebalance_budget.max_steward_changes == 2,
            p.normalization.morphisms@.len() == 0,
            p.normalization.reply_space_policy == (ReplySpaceCompactionPolicy { enabled: true, preserve_segments: 3 }),
    {
        PlacementPolicy {
            vnodes_per_node: 64,
            candidate_pool_size: 6,
            cold_stewards: 1,
            warm_stewards: 3,
            hot_stewards: 5,
            max_latency_millis: 150,
            thermal_hysteresis: ThermalHysteresis::default(),
            rebalance_budget: RebalanceBudget::default(),
            normalization: NormalizationPolicy::default(),
        }
    }
}

/// The temperature a cell moves to under the observed load: cold cells
/// warm up (or go straight to hot) at the promotion thresholds, warm cells
/// promote to hot or fall back to cold only past the demotion threshold,
/// and hot cells fall back to warm only past theirs.
pub open spec fn next_temperature(h: ThermalHysteresis, current: CellTemperature, rate: u64) -> CellTemperature {
    match current {
        CellTemperature::Cold => if rate >= h.warm_to_hot_publishes_per_second {
            CellTemperature::Hot
        } else if rate >= h.cold_to_warm_publishes_per_second {
            CellTemperature::Warm
        } else {
            CellTemperature::Cold
        },
        CellTemperature::Warm => if rate >= h.warm_to_hot_publishes_per_second {
            CellTemperature::Hot
        } else if rate <= h.warm_to_cold_publishes_per_second {
            CellTemperature::Cold
        } else {
            CellTemperature::Warm
        },
        CellTemperature::Hot => if rate <= h.hot_to_warm_publishes_per_second {
            CellTemperature::Warm
        } else {
            CellTemperature::Hot
        },
    }
}

/// Steward count targeted at a temperature.
pub open spec fn target_count(p: PlacementPolicy, t: CellTemperature) -> nat {
    match t {
        CellTemperature::Cold => p.cold_stewards as nat,
        CellTemperature::Warm => p.warm_stewards as nat,
        CellTemperature::Hot => p.hot_stewards as nat,
    }
}

impl PlacementPolicy {
    /// The next cell temperature under the observed load, with hysteresis.
    pub fn recommend_temperature(&self, current: CellTemperature, observed_load: ObservedCellLoad) -> (t: CellTemperature)
        ensures
            t == next_temperature(self.thermal_hysteresis, current, observed_load.publishes_per_second),
    {
        let rate = observed_load.publishes_per_second;
        let h = &self.thermal_hysteresis;
        match current {
            CellTemperature::Cold => {
                if rate >= h.warm_to_hot_publishes_per_second {
                    CellTemperature::Hot
                } else if rate >= h.cold_to_warm_publishes_per_second {
                    CellTemperature::Warm
                } else {
                    CellTemperature::Cold
                }
            },
            CellTemperature::Warm => {
                if rate >= h.warm_to_hot_publishes_per_second {
                    CellTemperature::Hot
                } else if rate <= h.warm_to_cold_publishes_per_second {
                    CellTemperature::Cold
                } else {
                    CellTemperature::Warm
                }
            },
            CellTemperature::Hot => {
                if rate <= h.hot_to_warm_publishes_per_second {
                    CellTemperature::Warm
                } else {
                    CellTemperature::Hot
                }
            },
        }
    }

    fn target_steward_count(&self, temperature: CellTemperature) -> (n: usize)
        ensures
            n == target_count(*self, temperature),
    {
        match temperature {
            CellTemperature::Cold => self.cold_stewards,
            CellTemperature::Warm => self.warm_stewards,
            CellTemperature::Hot => self.hot_stewards,
        }
    }
}

/// Hysteresis keeps a temperature while the load stays inside its band:
/// a warm cell stays warm strictly between the warm-to-cold and
/// warm-to-hot thresholds, a hot cell stays hot above hot-to-warm, and a
/// cold cell stays cold below cold-to-warm and warm-to-hot.
pub proof fn law_hysteresis_holds_band(h: ThermalHysteresis, rate: u64)
    ensures
        h.warm_to_cold_publishes_per_second < rate < h.warm_to_hot_publishes_per_second
            ==> next_temperature(h, CellTemperature::Warm, rate) == CellTemperature::Warm,
        rate > h.hot_to_warm_publishes_per_second
            ==> next_temperature(h, CellTemperature::Hot, rate) == CellTemperature::Hot,
        rate < h.cold_to_warm_publishes_per_second && rate < h.warm_to_hot_publishes_per_second
            ==> next_temperature(h, CellTemperature::Cold, rate) == CellTemperature::Cold,
{
}

// ─── Candidate pool ────────────────────────────────────────────────────────

/// Ring position of a node's `v`-th virtual point: its mixed hash.
pub open spec fn node_point(node: Seq<char>, v: nat) -> u64 {
    crate::lab::seed::mix64(fnv1a(text_bytes(node) + u64_bytes(v as u64)))
}

/// Clockwise distance on the 64-bit ring from `from` to `to`.
pub open spec fn clockwise(from: u64, to: u64) -> nat {
    if to >= from { (to - from) as nat } else { (to + 0x1_0000_0000_0000_0000 - from) as nat }
}

/// Clockwise distance from `h` to the nearest of a node's first `k`
/// virtual points (`k >= 1`).
pub open spec fn ring_distance(node: Seq<char>, h: u64, k: nat) -> nat
    decreases k,
{
    if k <= 1 {
        clockwise(h, node_point(node, 0))
    } else {
        let d = ring_distance(node, h, (k - 1) as nat);
        let e = clockwise(h, node_point(node, (k - 1) as nat));
        if e < d { e } else { d }
    }
}

/// Positions of steward-eligible candidates, in order.
pub open spec fn eligible_positions(cs: Seq<StewardCandidate>) -> Seq<usize>
    decreases cs.len(),
{
    if cs.len() == 0 {
        Seq::empty()
    } else if steward_eligible(cs.last()) {
        eligible_positions(cs.drop_last()).push((cs.len() - 1) as usize)
    } else {
        eligible_positions(cs.drop_last())
    }
}

/// Virtual points per node actually placed (at least one).
pub open spec fn vnodes(p: PlacementPolicy) -> nat {
    if p.vnodes_per_node < 1 { 1 } else { p.vnodes_per_node as nat }
}

/// Candidate `i` comes before `j` on the ring from point `h`: its node's
/// nearest virtual point is nearer clockwise, or as near and `i` is the
/// earlier position.
pub open spec fn ring_before(cs: Seq<StewardCandidate>, h: u64, vn: nat, i: int, j: int) -> bool {
    let di = ring_distance(cs[i].node_id.id(), h, vn);
    let dj = ring_distance(cs[j].node_id.id(), h, vn);
    di < dj || (di == dj && i < j)
}

/// The pool size for a temperature: the configured pool, widened to the
/// target steward count, capped by the eligible candidates.
pub open spec fn pool_size(p: PlacementPolicy, t: CellTemperature, eligible: nat) -> nat {
    let want = if p.candidate_pool_size as nat > target_count(p, t) { p.candidate_pool_size as nat } else { target_count(p, t) };
    if want < eligible { want } else { eligible }
}

/// Ring point of the partition key looked up with salt `salt`: the mixed
/// hash of the key and the salt.
pub open spec fn salted_point(key: Seq<char>, salt: u64) -> u64 {
    crate::lab::seed::mix64(fnv1a(text_bytes(key) + u64_bytes(salt)))
}

/// The position among `e` (non-empty) whose node owns ring point `h`: the
/// first in ring order from `h`.
pub open spec fn ring_owner(cs: Seq<StewardCandidate>, e: Seq<usize>, h: u64, vn: nat) -> usize
    decreases e.len(),
{
    if e.len() <= 1 {
        e[0]
    } else {
        let m = ring_owner(cs, e.drop_last(), h, vn);
        if ring_before(cs, h, vn, e.last() as int, m as int) { e.last() } else { m }
    }
}

/// The last position among `e` whose node id is `id` (0 when none is).
pub open spec fn last_with_id(cs: Seq<StewardCandidate>, e: Seq<usize>, id: Seq<char>) -> usize
    decreases e.len(),
{
    if e.len() == 0 {
        0
    } else if cs[e.last() as int].node_id.id() == id {
        e.last()
    } else {
        last_with_id(cs, e.drop_last(), id)
    }
}

/// The salted ring lookups from salt `salt` on, having collected `pool`
/// for the node ids `seen`: each lookup names the owning node; a node not
/// seen before joins the pool as its last eligible candidate. The walk ends
/// when the pool holds `required` candidates, when as many nodes were seen
/// as there are eligible candidates, or when the salts run out.
pub open spec fn pool_walk(
    cs: Seq<StewardCandidate>,
    e: Seq<usize>,
    key: Seq<char>,
    vn: nat,
    required: nat,
    salt: nat,
    pool: Seq<usize>,
    seen: Seq<Seq<char>>,
) -> Seq<usize>
    decreases u64::MAX - salt,
{
    if pool.len() >= required || seen.len() >= e.len() || salt >= u64::MAX {
        pool
    } else {
        let id = cs[ring_owner(cs, e, salted_point(key, salt as u64), vn) as int].node_id.id();
        if seen.contains(id) {
            pool_walk(cs, e, key, vn, required, salt + 1, pool, seen)
        } else {
            pool_walk(cs, e, key, vn, required, salt + 1, pool.push(last_with_id(cs, e, id)), seen.push(id))
        }
    }
}

/// The candidate pool: one salted consistent-hash lookup of the
/// partition's key per salt, each node taken once, until the pool holds
/// the pool size for the temperature or every node was met.
pub open spec fn candidate_pool_spec(p: PlacementPolicy, key: Seq<char>, cs: Seq<StewardCandidate>, t: CellTemperature) -> Seq<usize> {
    let e = eligible_positions(cs);
    pool_walk(cs, e, key, vnodes(p), pool_size(p, t, e.len()), 0, Seq::empty(), Seq::empty())
}

proof fn lemma_eligible_positions(cs: Seq<StewardCandidate>)
    requires
        cs.len() <= usize::MAX,
    ensures
        forall|a: int| 0 <= a < eligible_positions(cs).len() ==> (#[trigger] eligible_positions(cs)[a]) < cs.len()
            && steward_eligible(cs[eligible_positions(cs)[a] as int]),
        forall|x: usize| x < cs.len() && steward_eligible(cs[x as int]) ==> eligible_positions(cs).contains(x),
        crate::order::distinct(eligible_positions(cs)),
        forall|a: int, b: int| 0 <= a < b < eligible_positions(cs).len() ==> eligible_positions(cs)[a] < eligible_positions(cs)[b],
    decreases cs.len(),
{
    if cs.len() > 0 {
        lemma_eligible_positions(cs.drop_last());
        let e0 = eligible_positions(cs.drop_last());
        if steward_eligible(cs.last()) {
            assert(eligible_positions(cs) == e0.push((cs.len() - 1) as usize));
        } else {
            assert(eligible_positions(cs) == e0);
        }
        assert forall|x: usize| x < cs.len() && steward_eligible(cs[x as int]) implies eligible_positions(cs).contains(x) by {
            if x < cs.len() - 1 {
                assert(cs.drop_last()[x as int] == cs[x as int]);
                assert(e0.contains(x));
                let a = choose|a: int| 0 <= a < e0.len() && e0[a] == x;
                assert(eligible_positions(cs)[a] == x);
            } else {
                assert(eligible_positions(cs)[e0.len() as int] == x);
            }
        }
        assert forall|a: int| 0 <= a < eligible_positions(cs).len() implies (#[trigger] eligible_positions(cs)[a]) < cs.len()
            && steward_eligible(cs[eligible_positions(cs)[a] as int]) by {
            if a < e0.len() {
                assert(eligible_positions(cs)[a] == e0[a]);
                assert(cs.drop_last()[e0[a] as int] == cs[e0[a] as int]);
            } else {
                assert(eligible_positions(cs)[a] == cs.len() - 1);
            }
        }
        assert forall|a: int, b: int| 0 <= a < b < eligible_positions(cs).len() implies
            eligible_positions(cs)[a] < eligible_positions(cs)[b] by {
            if b < e0.len() {
                assert(eligible_positions(cs)[a] == e0[a] && eligible_positions(cs)[b] == e0[b]);
            } else {
                assert(eligible_positions(cs)[a] == e0[a]);
                assert(eligible_positions(cs)[b] == cs.len() - 1);
            }
        }
    }
}

fn node_point_exec(node: &str, v: u64) -> (p: u64)
    ensures
        p == node_point(node@, v as nat),
{
    let mut buf: Vec<u8> = Vec::new();
    crate::messaging::service::push_text(&mut buf, node);
    crate::messaging::service::push_u64(&mut buf, v);
    crate::lab::seed::mix(crate::lab::seed::fnv1a_bytes(buf.as_slice()))
}

fn clockwise_exec(from: u64, to: u64) -> (d: u64)
    ensures
        d as nat == clockwise(from, to),
{
    if to >= from { to - from } else { to.wrapping_sub(from) }
}

fn ring_distance_exec(node: &str, h: u64, vn: usize) -> (d: u64)
    requires
        vn >= 1,
    ensures
        d as nat == ring_distance(node@, h, vn as nat),
{
    let mut best = clockwise_exec(h, node_point_exec(node, 0));
    let mut k: usize = 1;
    while k < vn
        invariant
            1 <= k <= vn,
            best as nat == ring_distance(node@, h, k as nat),
        decreases vn - k,
    {
        let e = clockwise_exec(h, node_point_exec(node, k as u64));
        if e < best {
            best = e;
        }
        k = k + 1;
    }
    best
}


fn eligible_candidates(candidates: &[StewardCandidate]) -> (e: Vec<usize>)
    ensures
        e@ == eligible_positions(candidates@),
{
    let mut e: Vec<usize> = Vec::new();
    let mut i: usize = 0;
    assert(candidates@.take(0) =~= Seq::<StewardCandidate>::empty());
    while i < candidates.len()
        invariant
            i <= candidates.len(),
            e@ == eligible_positions(candidates@.take(i as int)),
        decreases candidates.len() - i,
    {
        let ghost t = candidates@.take(i + 1);
        assert(t.drop_last() =~= candidates@.take(i as int));
        assert(t.last() == candidates@[i as int]);
        assert(t.len() - 1 == i);
        if candidates[i].is_steward_eligible() {
            e.push(i);
        }
        i = i + 1;
    }
    assert(candidates@.take(candidates.len() as int) =~= candidates@);
    e
}

proof fn lemma_last_with_id(cs: Seq<StewardCandidate>, e: Seq<usize>, id: Seq<char>, w: int)
    requires
        forall|t: int| 0 <= t < e.len() ==> (#[trigger] e[t]) < cs.len(),
        0 <= w < e.len(),
        cs[e[w] as int].node_id.id() == id,
    ensures
        last_with_id(cs, e, id) < cs.len(),
        cs[last_with_id(cs, e, id) as int].node_id.id() == id,
    decreases e.len(),
{
    if cs[e.last() as int].node_id.id() != id {
        assert(w < e.len() - 1);
        assert(e.drop_last()[w] == e[w]);
        lemma_last_with_id(cs, e.drop_last(), id, w);
    }
}

proof fn lemma_ring_owner_in(cs: Seq<StewardCandidate>, e: Seq<usize>, h: u64, vn: nat)
    requires
        e.len() > 0,
    ensures
        exists|w: int| 0 <= w < e.len() && e[w] == ring_owner(cs, e, h, vn),
    decreases e.len(),
{
    if e.len() <= 1 {
        assert(e[0] == ring_owner(cs, e, h, vn));
    } else {
        lemma_ring_owner_in(cs, e.drop_last(), h, vn);
        let w = choose|w: int| 0 <= w < e.drop_last().len() && e.drop_last()[w] == ring_owner(cs, e.drop_last(), h, vn);
        assert(e[w] == e.drop_last()[w]);
        assert(e[e.len() - 1] == e.last());
    }
}

proof fn lemma_pool_walk(
    cs: Seq<StewardCandidate>,
    e: Seq<usize>,
    key: Seq<char>,
    vn: nat,
    required: nat,
    salt: nat,
    pool: Seq<usize>,
    seen: Seq<Seq<char>>,
)
    requires
        forall|t: int| 0 <= t < e.len() ==> (#[trigger] e[t]) < cs.len(),
        pool.len() == seen.len(),
        forall|t: int| 0 <= t < pool.len() ==> (#[trigger] pool[t]) < cs.len() && cs[pool[t] as int].node_id.id() == seen[t],
        forall|t: int, u: int| 0 <= t < u < seen.len() ==> seen[t] != seen[u],
    ensures
        ({
            let r = pool_walk(cs, e, key, vn, required, salt, pool, seen);
            &&& forall|t: int| 0 <= t < r.len() ==> (#[trigger] r[t]) < cs.len()
            &&& forall|t: int, u: int| 0 <= t < u < r.len() ==> cs[r[t] as int].node_id.id() != cs[r[u] as int].node_id.id()
        }),
    decreases u64::MAX - salt,
{
    if pool.len() >= required || seen.len() >= e.len() || salt >= u64::MAX {
        assert forall|t: int, u: int| 0 <= t < u < pool.len() implies cs[pool[t] as int].node_id.id() != cs[pool[u] as int].node_id.id() by {
            assert(seen[t] != seen[u]);
        }
    } else {
        let h = salted_point(key, salt as u64);
        let o = ring_owner(cs, e, h, vn);
        lemma_ring_owner_in(cs, e, h, vn);
        let w = choose|w: int| 0 <= w < e.len() && e[w] == o;
        let id = cs[o as int].node_id.id();
        if seen.contains(id) {
            lemma_pool_walk(cs, e, key, vn, required, salt + 1, pool, seen);
        } else {
            lemma_last_with_id(cs, e, id, w);
            let p2 = pool.push(last_with_id(cs, e, id));
            let s2 = seen.push(id);
            assert forall|t: int, u: int| 0 <= t < u < s2.len() implies s2[t] != s2[u] by {
                if u == seen.len() {
                    assert(seen[t] == s2[t]);
                    assert(seen.contains(s2[t]));
                }
            }
            lemma_pool_walk(cs, e, key, vn, required, salt + 1, p2, s2);
        }
    }
}

/// The candidate pool holds each node at most once: no two of its
/// candidates share a node id.
pub proof fn law_candidate_pool_distinct_nodes(p: PlacementPolicy, key: Seq<char>, cs: Seq<StewardCandidate>, t: CellTemperature)
    requires
        cs.len() <= usize::MAX,
    ensures
        forall|a: int, b: int| 0 <= a < b < candidate_pool_spec(p, key, cs, t).len()
            ==> cs[candidate_pool_spec(p, key, cs, t)[a] as int].node_id.id()
                != cs[candidate_pool_spec(p, key, cs, t)[b] as int].node_id.id(),
{
    lemma_eligible_positions(cs);
    let e = eligible_positions(cs);
    lemma_pool_walk(cs, e, key, vnodes(p), pool_size(p, t, e.len()), 0, Seq::empty(), Seq::empty());
}

fn salted_point_exec(key: &str, salt: u64) -> (p: u64)
    ensures
        p == salted_point(key@, salt),
{
    let mut buf: Vec<u8> = Vec::new();
    crate::messaging::service::push_text(&mut buf, key);
    crate::messaging::service::push_u64(&mut buf, salt);
    crate::lab::seed::mix(crate::lab::seed::fnv1a_bytes(buf.as_slice()))
}

fn ring_owner_exec(candidates: &[StewardCandidate], e: &Vec<usize>, h: u64, vn: usize) -> (o: usize)
    requires
        e@.len() > 0,
        vn >= 1,
        forall|t: int| 0 <= t < e@.len() ==> (#[trigger] e@[t]) < candidates@.len(),
    ensures
        o == ring_owner(candidates@, e@, h, vn as nat),
        exists|t: int| 0 <= t < e@.len() && e@[t] == o,
{
    let ghost cs = candidates@;
    let mut bi: usize = 0;
    let mut best = e[0];
    let mut best_d = ring_distance_exec(candidates[best].node_id.as_str(), h, vn);
    assert(e@.take(1).len() == 1 && e@.take(1)[0] == e@[0]);
    let mut k: usize = 1;
    while k < e.len()
        invariant
            1 <= k <= e@.len(),
            cs == candidates@,
            vn >= 1,
            forall|t: int| 0 <= t < e@.len() ==> (#[trigger] e@[t]) < cs.len(),
            bi < k,
            e@[bi as int] == best,
            best == ring_owner(cs, e@.take(k as int), h, vn as nat),
            best_d as nat == ring_distance(cs[best as int].node_id.id(), h, vn as nat),
        decreases e@.len() - k,
    {
        let p = e[k];
        let d = ring_distance_exec(candidates[p].node_id.as_str(), h, vn);
        assert(e@.take(k + 1).drop_last() =~= e@.take(k as int));
        assert(e@.take(k + 1).last() == e@[k as int]);
        if d < best_d || (d == best_d && p < best) {
            best = p;
            best_d = d;
            bi = k;
        }
        k = k + 1;
    }
    assert(e@.take(e@.len() as int) =~= e@);
    best
}

fn last_with_id_exec(candidates: &[StewardCandidate], e: &Vec<usize>, id: &str) -> (r: usize)
    requires
        forall|t: int| 0 <= t < e@.len() ==> (#[trigger] e@[t]) < candidates@.len(),
    ensures
        r == last_with_id(candidates@, e@, id@),
{
    let ghost cs = candidates@;
    let mut r: usize = 0;
    let mut k: usize = 0;
    assert(e@.take(0) =~= Seq::<usize>::empty());
    while k < e.len()
        invariant
            k <= e@.len(),
            cs == candidates@,
            forall|t: int| 0 <= t < e@.len() ==> (#[trigger] e@[t]) < cs.len(),
            r == last_with_id(cs, e@.take(k as int), id@),
        decreases e@.len() - k,
    {
        assert(e@.take(k + 1).drop_last() =~= e@.take(k as int));
        assert(e@.take(k + 1).last() == e@[k as int]);
        if str_eq(candidates[e[k]].node_id.as_str(), id) {
            r = e[k];
        }
        k = k + 1;
    }
    assert(e@.take(e@.len() as int) =~= e@);
    r
}

impl PlacementPolicy {
    /// Positions of the candidate pool for a partition: each node once, so
    /// no position occurs twice.
    fn candidate_pool(&self, subject_partition: &SubjectPattern, candidates: &[StewardCandidate], temperature: CellTemperature)
        -> (r: Result<Vec<usize>, FabricError>)
        ensures
            eligible_positions(candidates@).len() == 0 ==> (r matches Err(FabricError::NoStewardCandidates { partition })
                && same_pattern(partition, *subject_partition)),
            eligible_positions(candidates@).len() > 0 ==> (r matches Ok(v)
                && v@ == candidate_pool_spec(*self, subject_partition.text(), candidates@, temperature)
                && (forall|t: int| 0 <= t < v@.len() ==> (#[trigger] v@[t]) < candidates@.len())
                && (forall|t: int, u: int| 0 <= t < u < v@.len() ==> v@[t] != v@[u])),
    {
        let ghost cs = candidates@;
        let eligible = eligible_candidates(candidates);
        if eligible.len() == 0 {
            return Err(FabricError::NoStewardCandidates { partition: subject_partition.duplicate() });
        }
        assert(cs.len() == candidates.len());
        proof { lemma_eligible_positions(cs); }
        let target = self.target_steward_count(temperature);
        let want = if self.candidate_pool_size > target { self.candidate_pool_size } else { target };
        let required = if want < eligible.len() { want } else { eligible.len() };
        let vn: usize = if self.vnodes_per_node < 1 { 1 } else { self.vnodes_per_node };
        let key = subject_partition.canonical_key();
        let ghost goal = candidate_pool_spec(*self, subject_partition.text(), cs, temperature);
        assert(vn as nat == vnodes(*self));
        assert(required as nat == pool_size(*self, temperature, eligible@.len()));
        let mut pool: Vec<usize> = Vec::new();
        let mut seen: Vec<String> = Vec::new();
        let mut salt: u64 = 0;
        assert(crate::messaging::morphism::tv(seen@) =~= Seq::<Seq<char>>::empty());
        while pool.len() < required && seen.len() < eligible.len() && salt < u64::MAX
            invariant
                cs == candidates@,
                eligible@ == eligible_positions(cs),
                forall|t: int| 0 <= t < eligible@.len() ==> (#[trigger] eligible@[t]) < cs.len(),
                eligible@.len() > 0,
                vn >= 1,
                pool_walk(cs, eligible@, key@, vn as nat, required as nat, salt as nat, pool@,
                    crate::messaging::morphism::tv(seen@)) == goal,
                pool@.len() == seen@.len(),
                forall|t: int| 0 <= t < pool@.len() ==> (#[trigger] pool@[t]) < cs.len()
                    && cs[pool@[t] as int].node_id.id() == crate::messaging::morphism::tv(seen@)[t],
                forall|t: int, u: int| 0 <= t < u < seen@.len()
                    ==> crate::messaging::morphism::tv(seen@)[t] != crate::messaging::morphism::tv(seen@)[u],
            decreases u64::MAX - salt,
        {
            let ghost sv = crate::messaging::morphism::tv(seen@);
            let h = salted_point_exec(key.as_str(), salt);
            let owner = ring_owner_exec(candidates, &eligible, h, vn);
            let id = owned(candidates[owner].node_id.as_str());
            if !seen_contains(&seen, &id) {
                let pos = last_with_id_exec(candidates, &eligible, id.as_str());
                proof {
                    let w = choose|t: int| 0 <= t < eligible@.len() && eligible@[t] == owner;
                    lemma_last_with_id(cs, eligible@, id@, w);
                }
                pool.push(pos);
                seen.push(id);
                assert(crate::messaging::morphism::tv(seen@) =~= sv.push(cs[owner as int].node_id.id()));
            }
            salt = salt + 1;
        }
        proof {
            let ghost sv = crate::messaging::morphism::tv(seen@);
            assert forall|t: int, u: int| 0 <= t < u < pool@.len() implies pool@[t] != pool@[u] by {
                assert(sv[t] != sv[u]);
            }
        }
        Ok(pool)
    }
}


// ─── Steward selection ─────────────────────────────────────────────────────

/// Placement score of a candidate at a temperature: health, storage,
/// a bonus for explicit repair witnesses in hot cells, and credit for low
/// latency.
pub open spec fn candidate_score(c: StewardCandidate, t: CellTemperature) -> nat {
    let health: nat = match c.health {
        StewardHealth::Healthy => 400,
        StewardHealth::Degraded => 250,
        StewardHealth::Draining => 100,
        StewardHealth::Unavailable => 0,
    };
    let storage: nat = match c.storage_class {
        StorageClass::Ephemeral => 40,
        StorageClass::Standard => 80,
        StorageClass::Durable => 120,
    };
    let bonus: nat = if t is Hot && c.roles@.contains(NodeRole::RepairWitness) { 40 } else { 0 };
    let credit: nat = if c.latency_millis >= 1000 { 0 } else { (1000 - c.latency_millis) as nat };
    health + storage + bonus + credit
}

/// Candidate `i` is preferred to `j`: within the soft latency cap before
/// beyond it, then higher score, lower latency, smaller failure domain,
/// smaller node id, earlier position.
pub open spec fn steward_before(cs: Seq<StewardCandidate>, t: CellTemperature, max_latency: u32, i: int, j: int) -> bool {
    let a = cs[i];
    let b = cs[j];
    let ga = a.latency_millis > max_latency;
    let gb = b.latency_millis > max_latency;
    let sa = candidate_score(a, t);
    let sb = candidate_score(b, t);
    ||| !ga && gb
    ||| ga == gb && sa > sb
    ||| ga == gb && sa == sb && a.latency_millis < b.latency_millis
    ||| ga == gb && sa == sb && a.latency_millis == b.latency_millis && text_lt(a.failure_domain@, b.failure_domain@)
    ||| ga == gb && sa == sb && a.latency_millis == b.latency_millis && a.failure_domain@ == b.failure_domain@
        && text_lt(a.node_id.id(), b.node_id.id())
    ||| ga == gb && sa == sb && a.latency_millis == b.latency_millis && a.failure_domain@ == b.failure_domain@
        && a.node_id.id() == b.node_id.id() && i < j
}

/// The steward preference as a relation on positions.
pub open spec fn steward_order(cs: Seq<StewardCandidate>, t: CellTemperature, max_latency: u32) -> spec_fn(int, int) -> bool {
    |i: int, j: int| steward_before(cs, t, max_latency, i, j)
}

proof fn lemma_steward_order_strict(cs: Seq<StewardCandidate>, t: CellTemperature, max_latency: u32)
    ensures
        crate::order::strict_total(steward_order(cs, t, max_latency)),
{
    let f = steward_order(cs, t, max_latency);
    assert forall|i: int| !#[trigger] f(i, i) by {
        lemma_text_lt_irreflexive(cs[i].failure_domain@);
        lemma_text_lt_irreflexive(cs[i].node_id.id());
    }
    assert forall|i: int, j: int, k: int| #[trigger] f(i, j) && #[trigger] f(j, k) implies f(i, k) by {
        let (a, b, c) = (cs[i], cs[j], cs[k]);
        if text_lt(a.failure_domain@, b.failure_domain@) && text_lt(b.failure_domain@, c.failure_domain@) {
            lemma_text_lt_transitive(a.failure_domain@, b.failure_domain@, c.failure_domain@);
        }
        if text_lt(a.node_id.id(), b.node_id.id()) && text_lt(b.node_id.id(), c.node_id.id()) {
            lemma_text_lt_transitive(a.node_id.id(), b.node_id.id(), c.node_id.id());
        }
    }
    assert forall|i: int, j: int| i != j implies #[trigger] f(i, j) || f(j, i) by {
        if cs[i].failure_domain@ != cs[j].failure_domain@ {
            lemma_text_lt_total(cs[i].failure_domain@, cs[j].failure_domain@);
        }
        if cs[i].node_id.id() != cs[j].node_id.id() {
            lemma_text_lt_total(cs[i].node_id.id(), cs[j].node_id.id());
        }
    }
}

/// First selection pass over candidates in preference order: take a
/// candidate whose failure domain is not yet used, until the target is
/// met. Gives the taken positions and the used domains.
pub open spec fn domain_pass(cs: Seq<StewardCandidate>, order: Seq<usize>, target: nat) -> (Seq<usize>, Seq<Seq<char>>)
    decreases order.len(),
{
    if order.len() == 0 {
        (Seq::empty(), Seq::empty())
    } else {
        let prev = domain_pass(cs, order.drop_last(), target);
        let c = cs[order.last() as int];
        if prev.0.len() >= target || prev.1.contains(c.failure_domain@) {
            prev
        } else {
            (prev.0.push(order.last()), prev.1.push(c.failure_domain@))
        }
    }
}

/// Second selection pass: fill the remaining places with candidates whose
/// node id is not yet taken. Gives the taken positions and node ids.
pub open spec fn id_pass(cs: Seq<StewardCandidate>, order: Seq<usize>, target: nat, sel: Seq<usize>, ids: Seq<Seq<char>>)
    -> (Seq<usize>, Seq<Seq<char>>)
    decreases order.len(),
{
    if order.len() == 0 {
        (sel, ids)
    } else {
        let prev = id_pass(cs, order.drop_last(), target, sel, ids);
        let c = cs[order.last() as int];
        if prev.0.len() >= target || prev.1.contains(c.node_id.id()) {
            prev
        } else {
            (prev.0.push(order.last()), prev.1.push(c.node_id.id()))
        }
    }
}

/// Node ids of the candidates at the given positions.
pub open spec fn ids_of(cs: Seq<StewardCandidate>, ps: Seq<usize>) -> Seq<Seq<char>> {
    ps.map_values(|i: usize| cs[i as int].node_id.id())
}

/// Node ids of a sequence of node identities.
pub open spec fn node_ids(ns: Seq<NodeId>) -> Seq<Seq<char>> {
    ns.map_values(|n: NodeId| n.id())
}

/// The stewards chosen for a partition key at a temperature (as
/// positions), or `None` when no steward can be placed.
pub open spec fn steward_selection(p: PlacementPolicy, key: Seq<char>, cs: Seq<StewardCandidate>, t: CellTemperature) -> Option<Seq<usize>> {
    if eligible_positions(cs).len() == 0 {
        None
    } else {
        let pool = candidate_pool_spec(p, key, cs, t);
        let target = if target_count(p, t) < pool.len() { target_count(p, t) } else { pool.len() };
        if target == 0 {
            None
        } else {
            let order = crate::order::arrangement(pool, steward_order(cs, t, p.max_latency_millis));
            let first = domain_pass(cs, order, target);
            Some(id_pass(cs, order, target, first.0, ids_of(cs, first.0)).0)
        }
    }
}

proof fn lemma_domain_pass(cs: Seq<StewardCandidate>, order: Seq<usize>, target: nat)
    ensures
        domain_pass(cs, order, target).0.len() == domain_pass(cs, order, target).1.len(),
        domain_pass(cs, order, target).0.len() <= target,
        forall|i: int, j: int| 0 <= i < j < domain_pass(cs, order, target).1.len()
            ==> domain_pass(cs, order, target).1[i] != domain_pass(cs, order, target).1[j],
        forall|i: int| 0 <= i < domain_pass(cs, order, target).0.len()
            ==> domain_pass(cs, order, target).1[i] == cs[domain_pass(cs, order, target).0[i] as int].failure_domain@,
    decreases order.len(),
{
    if order.len() > 0 {
        lemma_domain_pass(cs, order.drop_last(), target);
    }
}

proof fn lemma_id_pass_bounded(cs: Seq<StewardCandidate>, order: Seq<usize>, target: nat, sel: Seq<usize>, ids: Seq<Seq<char>>)
    requires
        sel.len() <= target,
    ensures
        id_pass(cs, order, target, sel, ids).0.len() <= target,
        sel.len() <= id_pass(cs, order, target, sel, ids).0.len(),
        id_pass(cs, order, target, sel, ids).0.take(sel.len() as int) == sel,
    decreases order.len(),
{
    if order.len() > 0 {
        lemma_id_pass_bounded(cs, order.drop_last(), target, sel, ids);
        let prev = id_pass(cs, order.drop_last(), target, sel, ids);
        assert(prev.0.push(order.last()).take(sel.len() as int) =~= prev.0.take(sel.len() as int));
    }
}

/// A steward selection never exceeds the target for the temperature nor
/// the candidate pool, and it starts with the failure-domain pass, whose
/// stewards all lie in distinct failure domains.
pub proof fn law_steward_selection_bounded(p: PlacementPolicy, key: Seq<char>, cs: Seq<StewardCandidate>, t: CellTemperature)
    requires
        steward_selection(p, key, cs, t) is Some,
    ensures
        steward_selection(p, key, cs, t)->0.len() <= target_count(p, t),
        steward_selection(p, key, cs, t)->0.len() <= candidate_pool_spec(p, key, cs, t).len(),
        ({
            let order = crate::order::arrangement(candidate_pool_spec(p, key, cs, t), steward_order(cs, t, p.max_latency_millis));
            let target = if target_count(p, t) < candidate_pool_spec(p, key, cs, t).len() {
                target_count(p, t)
            } else {
                candidate_pool_spec(p, key, cs, t).len()
            };
            let first = domain_pass(cs, order, target).0;
            &&& steward_selection(p, key, cs, t)->0.take(first.len() as int) == first
            &&& forall|i: int, j: int| 0 <= i < j < first.len()
                ==> cs[first[i] as int].failure_domain@ != cs[first[j] as int].failure_domain@
        }),
{
    let pool = candidate_pool_spec(p, key, cs, t);
    let target = if target_count(p, t) < pool.len() { target_count(p, t) } else { pool.len() };
    let order = crate::order::arrangement(pool, steward_order(cs, t, p.max_latency_millis));
    let first = domain_pass(cs, order, target);
    lemma_domain_pass(cs, order, target);
    lemma_id_pass_bounded(cs, order, target, first.0, ids_of(cs, first.0));
    assert forall|i: int, j: int| 0 <= i < j < first.0.len()
        implies cs[first.0[i] as int].failure_domain@ != cs[first.0[j] as int].failure_domain@ by {
        assert(first.1[i] != first.1[j]);
    }
}

fn score_of(c: &StewardCandidate, t: CellTemperature) -> (s: u64)
    ensures
        s as nat == candidate_score(*c, t),
{
    let health: u64 = match c.health {
        StewardHealth::Healthy => 400,
        StewardHealth::Degraded => 250,
        StewardHealth::Draining => 100,
        StewardHealth::Unavailable => 0,
    };
    let storage: u64 = match c.storage_class {
        StorageClass::Ephemeral => 40,
        StorageClass::Standard => 80,
        StorageClass::Durable => 120,
    };
    let bonus: u64 = if matches!(t, CellTemperature::Hot) && has_role(&c.roles, NodeRole::RepairWitness) { 40 } else { 0 };
    let credit: u64 = if c.latency_millis >= 1000 { 0 } else { 1000 - c.latency_millis as u64 };
    health + storage + bonus + credit
}

fn prefers(cs: &[StewardCandidate], scores: &Vec<u64>, max_latency: u32, i: usize, j: usize) -> (b: bool)
    requires
        i < cs.len(),
        j < cs.len(),
        scores@.len() == cs.len(),
    ensures
        b == ({
            let a = cs@[i as int];
            let c = cs@[j as int];
            let ga = a.latency_millis > max_latency;
            let gc = c.latency_millis > max_latency;
            let sa = scores@[i as int];
            let sc = scores@[j as int];
            ||| !ga && gc
            ||| ga == gc && sa > sc
            ||| ga == gc && sa == sc && a.latency_millis < c.latency_millis
            ||| ga == gc && sa == sc && a.latency_millis == c.latency_millis && text_lt(a.failure_domain@, c.failure_domain@)
            ||| ga == gc && sa == sc && a.latency_millis == c.latency_millis && a.failure_domain@ == c.failure_domain@
                && text_lt(a.node_id.id(), c.node_id.id())
            ||| ga == gc && sa == sc && a.latency_millis == c.latency_millis && a.failure_domain@ == c.failure_domain@
                && a.node_id.id() == c.node_id.id() && i < j
        }),
{
    let a = &cs[i];
    let c = &cs[j];
    let ga = a.latency_millis > max_latency;
    let gc = c.latency_millis > max_latency;
    if ga != gc {
        return !ga;
    }
    if scores[i] != scores[j] {
        return scores[i] > scores[j];
    }
    if a.latency_millis != c.latency_millis {
        return a.latency_millis < c.latency_millis;
    }
    if text_less(&a.failure_domain, &c.failure_domain) {
        return true;
    }
    if !crate::text::same_text(&a.failure_domain, &c.failure_domain) {
        return false;
    }
    let an = owned(a.node_id.as_str());
    let cn = owned(c.node_id.as_str());
    if text_less(&an, &cn) {
        return true;
    }
    if !crate::text::same_text(&an, &cn) {
        return false;
    }
    i < j
}


impl PlacementPolicy {
    /// The stewards for a partition at a temperature: the candidate pool is
    /// ordered by preference, failure domains are spread first, then any
    /// remaining places are filled by distinct nodes.
    pub fn select_stewards(&self, subject_partition: &SubjectPattern, candidates: &[StewardCandidate], temperature: CellTemperature)
        -> (r: Result<Vec<NodeId>, FabricError>)
        ensures
            match steward_selection(*self, subject_partition.text(), candidates@, temperature) {
                Some(sel) => r matches Ok(v) && node_ids(v@) == ids_of(candidates@, sel),
                None => r matches Err(FabricError::NoStewardCandidates { partition })
                    && same_pattern(partition, *subject_partition),
            },
    {
        let ghost cs = candidates@;
        let pool = self.candidate_pool(subject_partition, candidates, temperature)?;
        let ghost e = eligible_positions(cs);
        let n_cands = candidates.len();
        proof { lemma_eligible_positions(cs); }
        let target_all = self.target_steward_count(temperature);
        let target = if target_all < pool.len() { target_all } else { pool.len() };
        if target == 0 {
            return Err(FabricError::NoStewardCandidates { partition: subject_partition.duplicate() });
        }
        let mut scores: Vec<u64> = Vec::new();
        let mut i: usize = 0;
        while i < candidates.len()
            invariant
                i <= candidates.len(),
                cs == candidates@,
                scores@.len() == i,
                forall|k: int| 0 <= k < i ==> #[trigger] scores@[k] as nat == candidate_score(cs[k], temperature),
            decreases candidates.len() - i,
        {
            scores.push(score_of(&candidates[i], temperature));
            i = i + 1;
        }
        let max_latency = self.max_latency_millis;
        let ghost before = steward_order(cs, temperature, max_latency);
        let less = |i: usize, j: usize| -> (b: bool)
            requires
                i < candidates@.len(),
                j < candidates@.len(),
                scores@.len() == candidates@.len(),
            ensures
                b == ({
                    let a = candidates@[i as int];
                    let c = candidates@[j as int];
                    let ga = a.latency_millis > max_latency;
                    let gc = c.latency_millis > max_latency;
                    let sa = scores@[i as int];
                    let sc = scores@[j as int];
                    ||| !ga && gc
                    ||| ga == gc && sa > sc
                    ||| ga == gc && sa == sc && a.latency_millis < c.latency_millis
                    ||| ga == gc && sa == sc && a.latency_millis == c.latency_millis && text_lt(a.failure_domain@, c.failure_domain@)
                    ||| ga == gc && sa == sc && a.latency_millis == c.latency_millis && a.failure_domain@ == c.failure_domain@
                        && text_lt(a.node_id.id(), c.node_id.id())
                    ||| ga == gc && sa == sc && a.latency_millis == c.latency_millis && a.failure_domain@ == c.failure_domain@
                        && a.node_id.id() == c.node_id.id() && i < j
                }),
        {
            prefers(candidates, &scores, max_latency, i, j)
        };
        proof {
            lemma_steward_order_strict(cs, temperature, max_latency);
            assert forall|i: usize, j: usize, b: bool| pool@.contains(i) && pool@.contains(j) && #[trigger] less.ensures((i, j), b)
                implies b == before(i as int, j as int) by {
                let a = choose|a: int| 0 <= a < pool@.len() && pool@[a] == i;
                let c = choose|c: int| 0 <= c < pool@.len() && pool@[c] == j;
                assert(scores@[i as int] as nat == candidate_score(cs[i as int], temperature));
                assert(scores@[j as int] as nat == candidate_score(cs[j as int], temperature));
            }
            assert forall|i: usize, j: usize| pool@.contains(i) && pool@.contains(j) implies #[trigger] less.requires((i, j)) by {
                let a = choose|a: int| 0 <= a < pool@.len() && pool@[a] == i;
                let c = choose|c: int| 0 <= c < pool@.len() && pool@[c] == j;
            }
        }
        let ghost pool_seq = pool@;
        let order = crate::order::arrange(pool, &less, Ghost(before));
        proof {
            assert forall|t: int| 0 <= t < order@.len() implies (#[trigger] order@[t]) < cs.len() by {
                assert(order@.contains(order@[t]));
                assert(pool_seq.contains(order@[t]));
                let a = choose|a: int| 0 <= a < pool_seq.len() && pool_seq[a] == order@[t];
            }
        }
        let (sel, _domains) = domain_selection(candidates, &order, target);
        let ghost first_sel = sel@;
        let sel = id_selection(candidates, &order, target, sel);
        let mut out: Vec<NodeId> = Vec::new();
        let mut k: usize = 0;
        while k < sel.len()
            invariant
                k <= sel@.len(),
                cs == candidates@,
                forall|t: int| 0 <= t < sel@.len() ==> (#[trigger] sel@[t]) < cs.len(),
                node_ids(out@) == ids_of(cs, sel@).take(k as int),
            decreases sel@.len() - k,
        {
            let ghost o0 = out@;
            out.push(candidates[sel[k]].node_id.clone());
            assert(node_ids(out@) =~= node_ids(o0).push(cs[sel@[k as int] as int].node_id.id()));
            assert(node_ids(out@) =~= ids_of(cs, sel@).take(k + 1));
            k = k + 1;
        }
        assert(ids_of(cs, sel@).take(sel@.len() as int) =~= ids_of(cs, sel@));
        Ok(out)
    }
}



fn domain_selection(candidates: &[StewardCandidate], order: &Vec<usize>, target: usize) -> (r: (Vec<usize>, Vec<String>))
    requires
        forall|t: int| 0 <= t < order@.len() ==> (#[trigger] order@[t]) < candidates@.len(),
    ensures
        domain_pass(candidates@, order@, target as nat) == (r.0@, crate::messaging::morphism::tv(r.1@)),
        forall|t: int| 0 <= t < r.0@.len() ==> (#[trigger] r.0@[t]) < candidates@.len(),
{
    let ghost cs = candidates@;
    let mut sel: Vec<usize> = Vec::new();
    let mut domains: Vec<String> = Vec::new();
    let mut k: usize = 0;
    assert(order@.take(0) =~= Seq::<usize>::empty());
    assert(crate::messaging::morphism::tv(domains@) =~= Seq::<Seq<char>>::empty());
    while k < order.len()
        invariant
            k <= order@.len(),
            cs == candidates@,
            forall|t: int| 0 <= t < order@.len() ==> (#[trigger] order@[t]) < cs.len(),
            forall|t: int| 0 <= t < sel@.len() ==> (#[trigger] sel@[t]) < cs.len(),
            domain_pass(cs, order@.take(k as int), target as nat) == (sel@, crate::messaging::morphism::tv(domains@)),
        decreases order@.len() - k,
    {
        let ghost prev = domain_pass(cs, order@.take(k as int), target as nat);
        assert(order@.take(k + 1).drop_last() =~= order@.take(k as int));
        assert(order@.take(k + 1).last() == order@[k as int]);
        let c = &candidates[order[k]];
        if sel.len() < target && !seen_contains(&domains, &c.failure_domain) {
            let ghost d0 = domains@;
            sel.push(order[k]);
            domains.push(copy_string(&c.failure_domain));
            assert(crate::messaging::morphism::tv(domains@) =~= crate::messaging::morphism::tv(d0).push(c.failure_domain@));
            assert(domain_pass(cs, order@.take(k + 1), target as nat) == (prev.0.push(order@[k as int]), prev.1.push(c.failure_domain@)));
        } else {
            assert(domain_pass(cs, order@.take(k + 1), target as nat) == prev);
        }
        k = k + 1;
    }
    assert(order@.take(order@.len() as int) =~= order@);
    (sel, domains)
}

fn id_selection(candidates: &[StewardCandidate], order: &Vec<usize>, target: usize, first: Vec<usize>) -> (sel: Vec<usize>)
    requires
        forall|t: int| 0 <= t < order@.len() ==> (#[trigger] order@[t]) < candidates@.len(),
        forall|t: int| 0 <= t < first@.len() ==> (#[trigger] first@[t]) < candidates@.len(),
    ensures
        id_pass(candidates@, order@, target as nat, first@, ids_of(candidates@, first@)).0 == sel@,
        forall|t: int| 0 <= t < sel@.len() ==> (#[trigger] sel@[t]) < candidates@.len(),
{
    let ghost cs = candidates@;
    let ghost first_sel = first@;
    let mut ids: Vec<String> = Vec::new();
    let mut j: usize = 0;
    while j < first.len()
        invariant
            j <= first@.len(),
            cs == candidates@,
            forall|t: int| 0 <= t < first@.len() ==> (#[trigger] first@[t]) < cs.len(),
            crate::messaging::morphism::tv(ids@) == ids_of(cs, first@).take(j as int),
        decreases first@.len() - j,
    {
        let ghost i0 = ids@;
        ids.push(owned(candidates[first[j]].node_id.as_str()));
        assert(crate::messaging::morphism::tv(ids@) =~= crate::messaging::morphism::tv(i0).push(cs[first@[j as int] as int].node_id.id()));
        assert(ids_of(cs, first@).take(j + 1) =~= ids_of(cs, first@).take(j as int).push(cs[first@[j as int] as int].node_id.id()));
        j = j + 1;
    }
    assert(ids_of(cs, first@).take(first@.len() as int) =~= ids_of(cs, first@));
    let mut sel = first;
    let mut k: usize = 0;
    assert(order@.take(0) =~= Seq::<usize>::empty());
    while k < order.len()
        invariant
            k <= order@.len(),
            cs == candidates@,
            forall|t: int| 0 <= t < order@.len() ==> (#[trigger] order@[t]) < cs.len(),
            forall|t: int| 0 <= t < sel@.len() ==> (#[trigger] sel@[t]) < cs.len(),
            id_pass(cs, order@.take(k as int), target as nat, first_sel, ids_of(cs, first_sel))
                == (sel@, crate::messaging::morphism::tv(ids@)),
        decreases order@.len() - k,
    {
        let ghost prev = id_pass(cs, order@.take(k as int), target as nat, first_sel, ids_of(cs, first_sel));
        assert(order@.take(k + 1).drop_last() =~= order@.take(k as int));
        assert(order@.take(k + 1).last() == order@[k as int]);
        let c = &candidates[order[k]];
        let id = owned(c.node_id.as_str());
        if sel.len() < target && !seen_contains(&ids, &id) {
            let ghost i0 = ids@;
            sel.push(order[k]);
            ids.push(id);
            assert(crate::messaging::morphism::tv(ids@) =~= crate::messaging::morphism::tv(i0).push(c.node_id.id()));
            assert(id_pass(cs, order@.take(k + 1), target as nat, first_sel, ids_of(cs, first_sel))
                == (prev.0.push(order@[k as int]), prev.1.push(c.node_id.id())));
        } else {
            assert(id_pass(cs, order@.take(k + 1), target as nat, first_sel, ids_of(cs, first_sel)) == prev);
        }
        k = k + 1;
    }
    assert(order@.take(order@.len() as int) =~= order@);
    sel
}


// ─── Rebalancing ───────────────────────────────────────────────────────────

/// Position of the last node not in `desired`.
pub open spec fn last_undesired(next: Seq<Seq<char>>, desired: Seq<Seq<char>>) -> Option<int>
    decreases next.len(),
{
    if next.len() == 0 {
        None
    } else if !desired.contains(next.last()) {
        Some(next.len() - 1)
    } else {
        last_undesired(next.drop_last(), desired)
    }
}

/// Shrinking toward the target size: while over size and within budget,
/// remove the last undesired node (else the last node).
pub open spec fn shrink(next: Seq<Seq<char>>, desired: Seq<Seq<char>>, target: nat, budget: nat) -> (Seq<Seq<char>>, nat)
    decreases budget,
{
    if next.len() > target && budget > 0 {
        let k = match last_undesired(next, desired) {
            Some(k) => k,
            None => next.len() - 1,
        };
        shrink(next.remove(k), desired, target, (budget - 1) as nat)
    } else {
        (next, budget)
    }
}

/// Growing toward the desired nodes `ds`, in order: a missing node is
/// added while under size (one change), or swapped in for the last
/// undesired node (two changes); the walk stops when the budget cannot
/// pay for the next move.
pub open spec fn grow(next: Seq<Seq<char>>, budget: nat, desired: Seq<Seq<char>>, ds: Seq<Seq<char>>, target: nat)
    -> (Seq<Seq<char>>, nat, bool)
    decreases ds.len(),
{
    if ds.len() == 0 {
        (next, budget, false)
    } else {
        let prev = grow(next, budget, desired, ds.drop_last(), target);
        let (n, b, stopped) = prev;
        let d = ds.last();
        if stopped || n.contains(d) {
            prev
        } else if n.len() < target {
            if b == 0 { (n, b, true) } else { (n.push(d), (b - 1) as nat, false) }
        } else {
            match last_undesired(n, desired) {
                None => prev,
                Some(k) => if b < 2 { (n, b, true) } else { (n.remove(k).push(d), (b - 2) as nat, false) },
            }
        }
    }
}

/// The steward set after one budgeted step from `current` toward
/// `desired` with `target` members.
pub open spec fn advance_spec(current: Seq<Seq<char>>, desired: Seq<Seq<char>>, target: nat, budget: nat) -> Seq<Seq<char>> {
    let first = shrink(current, desired, target, budget);
    grow(first.0, first.1, desired, desired, target).0
}

/// The members of `a` that `b` does not hold, in order.
pub open spec fn missing_from(a: Seq<Seq<char>>, b: Seq<Seq<char>>) -> Seq<Seq<char>>
    decreases a.len(),
{
    if a.len() == 0 {
        Seq::empty()
    } else if b.contains(a.last()) {
        missing_from(a.drop_last(), b)
    } else {
        missing_from(a.drop_last(), b).push(a.last())
    }
}

proof fn lemma_last_undesired_range(next: Seq<Seq<char>>, desired: Seq<Seq<char>>)
    ensures
        last_undesired(next, desired) matches Some(k) ==> 0 <= k < next.len(),
    decreases next.len(),
{
    if next.len() > 0 {
        lemma_last_undesired_range(next.drop_last(), desired);
    }
}

fn ids_text(ns: &[NodeId]) -> (r: Vec<String>)
    ensures
        crate::messaging::morphism::tv(r@) == node_ids(ns@),
{
    let mut r: Vec<String> = Vec::new();
    let mut i: usize = 0;
    while i < ns.len()
        invariant
            i <= ns.len(),
            crate::messaging::morphism::tv(r@) == node_ids(ns@).take(i as int),
        decreases ns.len() - i,
    {
        let ghost r0 = r@;
        r.push(owned(ns[i].as_str()));
        assert(crate::messaging::morphism::tv(r@) =~= crate::messaging::morphism::tv(r0).push(ns@[i as int].id()));
        assert(node_ids(ns@).take(i + 1) =~= node_ids(ns@).take(i as int).push(ns@[i as int].id()));
        i = i + 1;
    }
    assert(node_ids(ns@).take(ns.len() as int) =~= node_ids(ns@));
    r
}

fn find_last_undesired(next: &Vec<NodeId>, desired: &Vec<String>) -> (r: Option<usize>)
    ensures
        match last_undesired(node_ids(next@), crate::messaging::morphism::tv(desired@)) {
            Some(k) => r == Some(k as usize),
            None => r is None,
        },
{
    let ghost d = crate::messaging::morphism::tv(desired@);
    let mut i: usize = next.len();
    assert(node_ids(next@).take(i as int) =~= node_ids(next@));
    while i > 0
        invariant
            i <= next@.len(),
            d == crate::messaging::morphism::tv(desired@),
            last_undesired(node_ids(next@), d) == last_undesired(node_ids(next@).take(i as int), d),
        decreases i,
    {
        let ghost t = node_ids(next@).take(i as int);
        assert(t.last() == next@[i - 1].id());
        assert(t.drop_last() =~= node_ids(next@).take(i - 1));
        let id = owned(next[i - 1].as_str());
        if !seen_contains(desired, &id) {
            return Some(i - 1);
        }
        i = i - 1;
    }
    None
}

fn remove_node(next: &mut Vec<NodeId>, k: usize)
    requires
        k < old(next)@.len(),
    ensures
        node_ids(final(next)@) == node_ids(old(next)@).remove(k as int),
{
    let ghost before = next@;
    next.remove(k);
    assert(node_ids(next@) =~= node_ids(before).remove(k as int));
}

fn push_node(next: &mut Vec<NodeId>, n: &NodeId)
    ensures
        node_ids(final(next)@) == node_ids(old(next)@).push(n.id()),
{
    let ghost before = next@;
    next.push(n.clone());
    assert(node_ids(next@) =~= node_ids(before).push(n.id()));
}

fn contains_id(next: &Vec<NodeId>, n: &NodeId) -> (b: bool)
    ensures
        b == node_ids(next@).contains(n.id()),
{
    let ids = ids_text(next.as_slice());
    let id = owned(n.as_str());
    seen_contains(&ids, &id)
}

impl PlacementPolicy {
    /// One budgeted step of the steward set from `current` toward `desired`.
    fn advance_toward_desired(&self, current_stewards: &[NodeId], desired_stewards: &[NodeId], target_len: usize) -> (r: Vec<NodeId>)
        ensures
            node_ids(r@) == advance_spec(node_ids(current_stewards@), node_ids(desired_stewards@), target_len as nat,
                self.rebalance_budget.max_steward_changes as nat),
    {
        let ghost cur = node_ids(current_stewards@);
        let ghost des = node_ids(desired_stewards@);
        let desired_ids = ids_text(desired_stewards);
        let mut budget = self.rebalance_budget.max_steward_changes;
        let mut next: Vec<NodeId> = Vec::new();
        let mut i: usize = 0;
        while i < current_stewards.len()
            invariant
                i <= current_stewards.len(),
                node_ids(next@) == node_ids(current_stewards@).take(i as int),
            decreases current_stewards.len() - i,
        {
            push_node(&mut next, &current_stewards[i]);
            assert(node_ids(current_stewards@).take(i + 1) =~= node_ids(current_stewards@).take(i as int).push(current_stewards@[i as int].id()));
            i = i + 1;
        }
        assert(node_ids(current_stewards@).take(current_stewards.len() as int) =~= cur);
        let ghost goal1 = shrink(cur, des, target_len as nat, budget as nat);
        while next.len() > target_len && budget > 0
            invariant
                crate::messaging::morphism::tv(desired_ids@) == des,
                shrink(node_ids(next@), des, target_len as nat, budget as nat) == goal1,
            decreases budget,
        {
            proof { lemma_last_undesired_range(node_ids(next@), des); }
            assert(node_ids(next@).len() == next@.len());
            let k = match find_last_undesired(&next, &desired_ids) {
                Some(k) => k,
                None => next.len() - 1,
            };
            remove_node(&mut next, k);
            budget = budget - 1;
        }
        let ghost n1 = node_ids(next@);
        let ghost b1 = budget as nat;
        assert(goal1 == (n1, b1));
        let mut stopped = false;
        let mut j: usize = 0;
        assert(des.take(0) =~= Seq::<Seq<char>>::empty());
        while j < desired_stewards.len()
            invariant
                j <= desired_stewards@.len(),
                des == node_ids(desired_stewards@),
                crate::messaging::morphism::tv(desired_ids@) == des,
                grow(n1, b1, des, des.take(j as int), target_len as nat) == (node_ids(next@), budget as nat, stopped),
            decreases desired_stewards@.len() - j,
        {
            let ghost prev = grow(n1, b1, des, des.take(j as int), target_len as nat);
            assert(des.take(j + 1).drop_last() =~= des.take(j as int));
            assert(des.take(j + 1).last() == desired_stewards@[j as int].id());
            let d = &desired_stewards[j];
            proof { lemma_last_undesired_range(node_ids(next@), des); }
            assert(node_ids(next@).len() == next@.len());
            if !stopped && !contains_id(&next, d) {
                if next.len() < target_len {
                    if budget == 0 {
                        stopped = true;
                    } else {
                        push_node(&mut next, d);
                        budget = budget - 1;
                    }
                } else {
                    match find_last_undesired(&next, &desired_ids) {
                        None => {},
                        Some(k) => {
                            if budget < 2 {
                                stopped = true;
                            } else {
                                remove_node(&mut next, k);
                                budget = budget - 1;
                                push_node(&mut next, d);
                                budget = budget - 1;
                            }
                        },
                    }
                }
            }
            j = j + 1;
        }
        assert(des.take(desired_stewards@.len() as int) =~= des);
        next
    }
}

fn missing_nodes(a: &Vec<NodeId>, b: &[NodeId]) -> (r: Vec<NodeId>)
    ensures
        node_ids(r@) == missing_from(node_ids(a@), node_ids(b@)),
{
    let b_ids = ids_text(b);
    let mut r: Vec<NodeId> = Vec::new();
    let mut i: usize = 0;
    assert(node_ids(a@).take(0) =~= Seq::<Seq<char>>::empty());
    while i < a.len()
        invariant
            i <= a@.len(),
            crate::messaging::morphism::tv(b_ids@) == node_ids(b@),
            node_ids(r@) == missing_from(node_ids(a@).take(i as int), node_ids(b@)),
        decreases a@.len() - i,
    {
        assert(node_ids(a@).take(i + 1).drop_last() =~= node_ids(a@).take(i as int));
        assert(node_ids(a@).take(i + 1).last() == a@[i as int].id());
        let id = owned(a[i].as_str());
        if !seen_contains(&b_ids, &id) {
            push_node(&mut r, &a[i]);
        }
        i = i + 1;
    }
    assert(node_ids(a@).take(a@.len() as int) =~= node_ids(a@));
    r
}


/// The outcome of normalization and steward selection for a partition at
/// a temperature: the normalization failure, no placement, or the
/// canonical tokens with the chosen positions.
pub enum PlacementOutcome {
    /// Normalization failed.
    Unnormalized(NormOutcome),
    /// The canonical partition has no steward.
    NoStewards(Seq<Tok>),
    /// The canonical partition and the chosen candidate positions.
    Placed(Seq<Tok>, Seq<usize>),
}

/// Normalization, then steward selection on the canonical partition.
pub open spec fn placement(p: PlacementPolicy, tokens: Seq<Tok>, text: Seq<char>, cs: Seq<StewardCandidate>, t: CellTemperature) -> PlacementOutcome {
    match normalization(p.normalization, tokens, text) {
        NormOutcome::Done(tk) => {
            let ct = compact_reply_space(tk, p.normalization.reply_space_policy);
            match steward_selection(p, canonical(ct), cs, t) {
                Some(sel) => PlacementOutcome::Placed(ct, sel),
                None => PlacementOutcome::NoStewards(ct),
            }
        },
        other => PlacementOutcome::Unnormalized(other),
    }
}

/// `e` is the error that a failed placement of `pattern` reports.
pub open spec fn placement_error(e: FabricError, outcome: PlacementOutcome, pattern: SubjectPattern) -> bool {
    match outcome {
        PlacementOutcome::Unnormalized(NormOutcome::Conflict(a, b)) =>
            e matches FabricError::ConflictingSubjectMorphisms { subject, left, right }
                && same_pattern(subject, pattern) && left.tokens() == a && right.tokens() == b,
        PlacementOutcome::Unnormalized(NormOutcome::Cycle(c)) =>
            e matches FabricError::CyclicSubjectMorphisms { subject, cycle_point }
                && same_pattern(subject, pattern) && cycle_point.tokens() == c,
        PlacementOutcome::NoStewards(ct) =>
            e matches FabricError::NoStewardCandidates { partition } && partition.tokens() == ct,
        _ => false,
    }
}

impl PlacementPolicy {
    /// Normalizes the partition and selects its stewards.
    fn place(&self, subject_partition: &SubjectPattern, candidates: &[StewardCandidate], temperature: CellTemperature)
        -> (r: Result<(SubjectPattern, Vec<NodeId>), FabricError>)
        ensures
            match placement(*self, subject_partition.tokens(), subject_partition.text(), candidates@, temperature) {
                PlacementOutcome::Placed(ct, sel) => r matches Ok((q, v)) && q.tokens() == ct && node_ids(v@) == ids_of(candidates@, sel),
                outcome => r matches Err(e) && placement_error(e, outcome, *subject_partition),
            },
    {
        let canonical_partition = self.normalization.normalize(subject_partition)?;
        proof { use_type_invariant(&canonical_partition); }
        let stewards = self.select_stewards(&canonical_partition, candidates, temperature)?;
        Ok((canonical_partition, stewards))
    }

    /// Plans one budgeted steward-set transition: the temperature moves
    /// with hysteresis, stewards are selected for the canonical partition,
    /// and the current set advances toward them within the budget.
    pub fn plan_rebalance(
        &self,
        subject_partition: &SubjectPattern,
        candidates: &[StewardCandidate],
        current_stewards: &[NodeId],
        current_temperature: CellTemperature,
        observed_load: ObservedCellLoad,
    ) -> (r: Result<RebalancePlan, FabricError>)
        ensures
            ({
                let t = next_temperature(self.thermal_hysteresis, current_temperature, observed_load.publishes_per_second);
                match placement(*self, subject_partition.tokens(), subject_partition.text(), candidates@, t) {
                    PlacementOutcome::Placed(ct, sel) => r matches Ok(plan) && {
                        &&& plan.next_temperature == t
                        &&& node_ids(plan.next_stewards@) == advance_spec(node_ids(current_stewards@), ids_of(candidates@, sel),
                            target_count(*self, t), self.rebalance_budget.max_steward_changes as nat)
                        &&& node_ids(plan.added_stewards@) == missing_from(node_ids(plan.next_stewards@), node_ids(current_stewards@))
                        &&& node_ids(plan.removed_stewards@) == missing_from(node_ids(current_stewards@), node_ids(plan.next_stewards@))
                    },
                    outcome => r matches Err(e) && placement_error(e, outcome, *subject_partition),
                }
            }),
    {
        let next_temperature = self.recommend_temperature(current_temperature, observed_load);
        let (_canonical, desired) = self.place(subject_partition, candidates, next_temperature)?;
        let next_stewards = self.advance_toward_desired(current_stewards, desired.as_slice(), self.target_steward_count(next_temperature));
        let added_stewards = missing_nodes(&next_stewards, current_stewards);
        let current = {
            let mut v: Vec<NodeId> = Vec::new();
            let mut i: usize = 0;
            while i < current_stewards.len()
                invariant
                    i <= current_stewards.len(),
                    node_ids(v@) == node_ids(current_stewards@).take(i as int),
                decreases current_stewards.len() - i,
            {
                push_node(&mut v, &current_stewards[i]);
                assert(node_ids(current_stewards@).take(i + 1) =~= node_ids(current_stewards@).take(i as int).push(current_stewards@[i as int].id()));
                i = i + 1;
            }
            assert(node_ids(current_stewards@).take(current_stewards.len() as int) =~= node_ids(current_stewards@));
            v
        };
        let removed_stewards = missing_nodes(&current, next_stewards.as_slice());
        Ok(RebalancePlan { next_temperature, next_stewards, added_stewards, removed_stewards })
    }
}

// ─── Subject cells ─────────────────────────────────────────────────────────

/// Minimal control-plane state owned by a subject cell.
#[derive(Debug, Clone, PartialEq, Eq)]
pub struct ControlCapsule {
    /// Full steward pool negotiated for the current cell epoch.
    pub steward_pool: Vec<NodeId>,
    /// Steward currently holding the append lease, if any.
    pub active_sequencer: Option<NodeId>,
    /// Lease generation fencing stale sequencer authority.
    pub sequencer_lease_generation: u64,
    /// Monotonic revision of the policy snapshot stored in the capsule.
    pub policy_revision: u64,
}

impl ControlCapsule {
    /// A capsule whose first steward holds the sequencer lease, fenced by
    /// the epoch's generation, at policy revision 1.
    fn new(steward_pool: Vec<NodeId>, epoch: CellEpoch) -> (c: Self)
        ensures
            node_ids(c.steward_pool@) == node_ids(steward_pool@),
            match c.active_sequencer {
                Some(n) => steward_pool@.len() > 0 && n.id() == steward_pool@[0].id(),
                None => steward_pool@.len() == 0,
            },
            c.sequencer_lease_generation == epoch.generation,
            c.policy_revision == 1,
    {
        let active_sequencer = if steward_pool.len() > 0 { Some(steward_pool[0].clone()) } else { None };
        ControlCapsule { active_sequencer, steward_pool, sequencer_lease_generation: epoch.generation, policy_revision: 1 }
    }
}

/// Minimal data-plane configuration owned by a subject cell.
#[derive(Debug, Clone, Copy, PartialEq, Eq, Structural)]
pub struct DataCapsule {
    /// Current traffic temperature of the cell.
    pub temperature: CellTemperature,
    /// Number of recent message blocks retained inline by the cell.
    pub retained_message_blocks: usize,
}

impl Default for DataCapsule {
    /// A cold cell retaining one block.
    fn default() -> (d: Self)
        ensures
            d == (DataCapsule { temperature: CellTemperature::Cold, retained_message_blocks: 1 }),
    {
        DataCapsule { temperature: CellTemperature::Cold, retained_message_blocks: 1 }
    }
}

/// Repair and recoverability policy for a cell.
#[derive(Debug, Clone, Copy, PartialEq, Eq, Structural)]
pub struct RepairPolicy {
    /// Minimum recoverability class the cell should preserve during churn.
    pub recoverability_target: u8,
    /// Number of repair witnesses to keep for cold cells.
    pub cold_witnesses: usize,
    /// Number of repair witnesses to keep for hot cells.
    pub hot_witnesses: usize,
}

impl Default for RepairPolicy {
    /// Recoverability class 2, one witness cold, three hot.
    fn default() -> (r: Self)
        ensures
            r == (RepairPolicy { recoverability_target: 2, cold_witnesses: 1, hot_witnesses: 3 }),
    {
        RepairPolicy { recoverability_target: 2, cold_witnesses: 1, hot_witnesses: 3 }
    }
}

/// Smallest sovereign unit of the brokerless subject fabric.
#[derive(Debug, Clone, PartialEq, Eq)]
pub struct SubjectCell {
    /// Deterministic identifier for this canonical subject partition and epoch.
    pub cell_id: CellId,
    /// Canonical non-overlapping subject slice owned by this cell.
    pub subject_partition: SubjectPattern,
    /// Active steward set selected for the current temperature and epoch.
    pub steward_set: Vec<NodeId>,
    /// Control-plane capsule of the cell.
    pub control_capsule: ControlCapsule,
    /// Data-plane capsule of the cell.
    pub data_capsule: DataCapsule,
    /// Repair and recoverability policy attached to the cell.
    pub repair_policy: RepairPolicy,
    /// Membership epoch and generation fenced into the cell identity.
    pub epoch: CellEpoch,
}

impl SubjectCell {
    /// A cell for the canonical form of a partition, with stewards placed
    /// for the data capsule's temperature and the id of the canonical
    /// partition in the epoch.
    pub fn new(
        subject_partition: &SubjectPattern,
        epoch: CellEpoch,
        candidates: &[StewardCandidate],
        placement_policy: &PlacementPolicy,
        repair_policy: RepairPolicy,
        data_capsule: DataCapsule,
    ) -> (r: Result<Self, FabricError>)
        ensures
            match placement(*placement_policy, subject_partition.tokens(), subject_partition.text(), candidates@, data_capsule.temperature) {
                PlacementOutcome::Placed(ct, sel) => r matches Ok(cell) && {
                    &&& cell.subject_partition.tokens() == ct
                    &&& cell.cell_id.0 == cell_id_of(epoch, canonical(ct))
                    &&& node_ids(cell.steward_set@) == ids_of(candidates@, sel)
                    &&& node_ids(cell.control_capsule.steward_pool@) == ids_of(candidates@, sel)
                    &&& cell.control_capsule.sequencer_lease_generation == epoch.generation
                    &&& cell.control_capsule.policy_revision == 1
                    &&& (match cell.control_capsule.active_sequencer {
                        Some(n) => sel.len() > 0 && n.id() == ids_of(candidates@, sel)[0],
                        None => sel.len() == 0,
                    })
                    &&& cell.data_capsule == data_capsule
                    &&& cell.repair_policy == repair_policy
                    &&& cell.epoch == epoch
                },
                outcome => r matches Err(e) && placement_error(e, outcome, *subject_partition),
            },
    {
        let (canonical_partition, steward_set) = placement_policy.place(subject_partition, candidates, data_capsule.temperature)?;
        proof { use_type_invariant(&canonical_partition); }
        let mut pool: Vec<NodeId> = Vec::new();
        let mut i: usize = 0;
        while i < steward_set.len()
            invariant
                i <= steward_set.len(),
                node_ids(pool@) == node_ids(steward_set@).take(i as int),
            decreases steward_set.len() - i,
        {
            push_node(&mut pool, &steward_set[i]);
            assert(node_ids(steward_set@).take(i + 1) =~= node_ids(steward_set@).take(i as int).push(steward_set@[i as int].id()));
            i = i + 1;
        }
        assert(node_ids(steward_set@).take(steward_set.len() as int) =~= node_ids(steward_set@));
        let control_capsule = ControlCapsule::new(pool, epoch);
        let cell_id = CellId::for_partition(epoch, &canonical_partition);
        proof {
            if steward_set@.len() > 0 {
                assert(node_ids(steward_set@)[0] == steward_set@[0].id());
            }
        }
        Ok(SubjectCell {
            cell_id,
            subject_partition: canonical_partition,
            steward_set,
            control_capsule,
            data_capsule,
            repair_policy,
            epoch,
        })
    }
}

// ─── Rebalance budget ──────────────────────────────────────────────────────

/// No member occurs twice.
pub open spec fn no_dups(s: Seq<Seq<char>>) -> bool {
    forall|i: int, j: int| 0 <= i < s.len() && 0 <= j < s.len() && i != j ==> #[trigger] s[i] != #[trigger] s[j]
}

/// Stewards added plus stewards removed going from `current` to `next`.
pub open spec fn steward_changes(current: Seq<Seq<char>>, next: Seq<Seq<char>>) -> nat {
    missing_from(next, current).len() + missing_from(current, next).len()
}

proof fn lemma_missing_none(a: Seq<Seq<char>>, b: Seq<Seq<char>>)
    requires
        forall|i: int| 0 <= i < a.len() ==> b.contains(#[trigger] a[i]),
    ensures
        missing_from(a, b).len() == 0,
    decreases a.len(),
{
    if a.len() > 0 {
        assert(b.contains(a[a.len() - 1]));
        assert forall|i: int| 0 <= i < a.drop_last().len() implies b.contains(#[trigger] a.drop_last()[i]) by {
            assert(a.drop_last()[i] == a[i]);
        }
        lemma_missing_none(a.drop_last(), b);
    }
}

proof fn lemma_missing_mono(a: Seq<Seq<char>>, b1: Seq<Seq<char>>, b2: Seq<Seq<char>>)
    requires
        forall|y: Seq<char>| b1.contains(y) ==> b2.contains(y),
    ensures
        missing_from(a, b2).len() <= missing_from(a, b1).len(),
    decreases a.len(),
{
    if a.len() > 0 {
        lemma_missing_mono(a.drop_last(), b1, b2);
    }
}

proof fn lemma_missing_almost(a: Seq<Seq<char>>, b1: Seq<Seq<char>>, b2: Seq<Seq<char>>, x: Seq<char>)
    requires
        no_dups(a),
        forall|y: Seq<char>| b1.contains(y) && y != x ==> b2.contains(y),
    ensures
        missing_from(a, b2).len() <= missing_from(a, b1).len() + (if a.contains(x) { 1int } else { 0int }),
    decreases a.len(),
{
    if a.len() > 0 {
        let p = a.drop_last();
        assert(no_dups(p)) by {
            assert forall|i: int, j: int| 0 <= i < p.len() && 0 <= j < p.len() && i != j implies #[trigger] p[i]
                != #[trigger] p[j] by {
                assert(p[i] == a[i] && p[j] == a[j]);
            }
        }
        lemma_missing_almost(p, b1, b2, x);
        if p.contains(x) {
            let j = choose|j: int| 0 <= j < p.len() && p[j] == x;
            assert(a[j] == x);
            assert(a.contains(x));
            if a.last() == x {
                assert(a[a.len() - 1] == a[j]);
            }
        }
        if a.last() == x {
            assert(a.contains(x)) by {
                assert(a[a.len() - 1] == x);
            }
        }
    }
}

proof fn lemma_missing_remove_left(n: Seq<Seq<char>>, k: int, c: Seq<Seq<char>>)
    requires
        0 <= k < n.len(),
    ensures
        missing_from(n.remove(k), c).len() <= missing_from(n, c).len(),
    decreases n.len(),
{
    if k == n.len() - 1 {
        assert(n.remove(k) =~= n.drop_last());
    } else {
        lemma_missing_remove_left(n.drop_last(), k, c);
        assert(n.remove(k).drop_last() =~= n.drop_last().remove(k));
        assert(n.remove(k).last() == n.last());
    }
}

proof fn lemma_remove_changes(c: Seq<Seq<char>>, n: Seq<Seq<char>>, k: int)
    requires
        no_dups(c),
        0 <= k < n.len(),
    ensures
        steward_changes(c, n.remove(k)) <= steward_changes(c, n) + 1,
{
    lemma_missing_remove_left(n, k, c);
    assert forall|y: Seq<char>| n.contains(y) && y != n[k] implies n.remove(k).contains(y) by {
        let j = choose|j: int| 0 <= j < n.len() && n[j] == y;
        assert(j != k);
        if j < k {
            assert(n.remove(k)[j] == y);
        } else {
            assert(n.remove(k)[j - 1] == y);
        }
    }
    lemma_missing_almost(c, n, n.remove(k), n[k]);
}

proof fn lemma_push_changes(c: Seq<Seq<char>>, n: Seq<Seq<char>>, d: Seq<char>)
    ensures
        steward_changes(c, n.push(d)) <= steward_changes(c, n) + 1,
{
    assert(n.push(d).drop_last() =~= n);
    assert forall|y: Seq<char>| n.contains(y) implies n.push(d).contains(y) by {
        let j = choose|j: int| 0 <= j < n.len() && n[j] == y;
        assert(n.push(d)[j] == y);
    }
    lemma_missing_mono(c, n, n.push(d));
}

proof fn lemma_shrink_changes(c: Seq<Seq<char>>, n: Seq<Seq<char>>, desired: Seq<Seq<char>>, target: nat, budget: nat)
    requires
        no_dups(c),
    ensures
        shrink(n, desired, target, budget).1 <= budget,
        steward_changes(c, shrink(n, desired, target, budget).0) + shrink(n, desired, target, budget).1
            <= steward_changes(c, n) + budget,
    decreases budget,
{
    if n.len() > target && budget > 0 {
        lemma_last_undesired_range(n, desired);
        let k = match last_undesired(n, desired) {
            Some(k) => k,
            None => n.len() - 1,
        };
        lemma_remove_changes(c, n, k);
        lemma_shrink_changes(c, n.remove(k), desired, target, (budget - 1) as nat);
    }
}

proof fn lemma_grow_changes(c: Seq<Seq<char>>, n: Seq<Seq<char>>, budget: nat, desired: Seq<Seq<char>>, ds: Seq<Seq<char>>, target: nat)
    requires
        no_dups(c),
    ensures
        grow(n, budget, desired, ds, target).1 <= budget,
        steward_changes(c, grow(n, budget, desired, ds, target).0) + grow(n, budget, desired, ds, target).1
            <= steward_changes(c, n) + budget,
    decreases ds.len(),
{
    if ds.len() > 0 {
        lemma_grow_changes(c, n, budget, desired, ds.drop_last(), target);
        let (m, b, stopped) = grow(n, budget, desired, ds.drop_last(), target);
        let d = ds.last();
        if !stopped && !m.contains(d) {
            if m.len() < target {
                if b > 0 {
                    lemma_push_changes(c, m, d);
                }
            } else {
                lemma_last_undesired_range(m, desired);
                match last_undesired(m, desired) {
                    None => {},
                    Some(k) => if b >= 2 {
                        lemma_remove_changes(c, m, k);
                        lemma_push_changes(c, m.remove(k), d);
                    },
                }
            }
        }
    }
}

/// One rebalance step stays within its budget: for a current steward set
/// without repeats, the stewards added plus the stewards removed number at
/// most the budget.
pub proof fn law_rebalance_within_budget(current: Seq<Seq<char>>, desired: Seq<Seq<char>>, target: nat, budget: nat)
    requires
        no_dups(current),
    ensures
        steward_changes(current, advance_spec(current, desired, target, budget)) <= budget,
{
    assert forall|i: int| 0 <= i < current.len() implies current.contains(#[trigger] current[i]) by {}
    lemma_missing_none(current, current);
    let first = shrink(current, desired, target, budget);
    lemma_shrink_changes(current, current, desired, target, budget);
    lemma_grow_changes(current, first.0, first.1, desired, desired, target);
}

} // verus!
