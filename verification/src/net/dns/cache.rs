//! DNS caching layer.
//!
//! A cache of lookup results keyed by host name (ASCII case does not
//! matter).  Each entry is served until its TTL, clamped between the
//! configured floor and ceiling, runs out.  The cache never holds more than
//! its configured number of entries: inserting a new host into a full cache
//! first drops expired entries and then, if still full, the entry inserted
//! earliest (ties broken by the smaller key); updating a cached host evicts
//! nothing.  Hits, misses and evictions are counted.

use std::time::{Duration, Instant};
use vstd::prelude::*;
use crate::messaging::service::{duration_from_secs, duration_nanos, nanos_of};
use crate::text::{chars_string, str_chars};
use vstd::wrapping::u64_specs::wrapping_add;
use crate::text_map::{lemma_text_lt_irreflexive, lemma_text_lt_total, lemma_text_lt_transitive, text_less, text_lt};

verus! {

/// Configuration for the DNS cache.
#[derive(Debug, Clone)]
pub struct CacheConfig {
    /// Maximum number of entries in the cache.
    pub max_entries: usize,
    /// Minimum TTL (floor) for cache entries.
    pub min_ttl: Duration,
    /// Maximum TTL (ceiling) for cache entries.
    pub max_ttl: Duration,
    /// TTL for negative cache entries (NXDOMAIN).
    pub negative_ttl: Duration,
}

impl Default for CacheConfig {
    /// Ten thousand entries, TTLs clamped between one minute and one day,
    /// and thirty seconds for negative entries.
    fn default() -> (c: Self)
        ensures
            c.max_entries == 10_000,
            duration_nanos(c.min_ttl) == 60_000_000_000,
            duration_nanos(c.max_ttl) == 86_400_000_000_000,
            duration_nanos(c.negative_ttl) == 30_000_000_000,
    {
        CacheConfig {
            max_entries: 10_000,
            min_ttl: duration_from_secs(60),
            max_ttl: duration_from_secs(86_400),
            negative_ttl: duration_from_secs(30),
        }
    }
}

// ─── Host keys ─────────────────────────────────────────────────────────────

/// ASCII lower case of a character; other characters are unchanged.
pub open spec fn ascii_lower(c: char) -> char {
    if 'A' <= c && c <= 'Z' {
        ((c as u32) + 32) as char
    } else {
        c
    }
}

/// Cache key of a host name: the name with ASCII letters in lower case.
pub open spec fn host_key(h: Seq<char>) -> Seq<char> {
    h.map_values(|c: char| ascii_lower(c))
}

fn lower_char(c: char) -> (r: char)
    ensures
        r == ascii_lower(c),
{
    if 'A' <= c && c <= 'Z' {
        let b = (c as u32) as u8;
        let r = (b + 32) as char;
        r
    } else {
        c
    }
}

/// The cache key of a host name.
pub fn normalize_host_key(host: &str) -> (k: String)
    ensures
        k@ == host_key(host@),
{
    let chars = str_chars(host);
    let mut out: Vec<char> = Vec::new();
    let mut i: usize = 0;
    while i < chars.len()
        invariant
            chars@ == host@,
            i <= chars.len(),
            out@ == host_key(chars@.take(i as int)),
        decreases chars.len() - i,
    {
        out.push(lower_char(chars[i]));
        assert(host_key(chars@.take(i + 1)) =~= host_key(chars@.take(i as int)).push(ascii_lower(chars@[i as int])));
        i = i + 1;
    }
    assert(chars@.take(chars.len() as int) =~= chars@);
    chars_string(out.as_slice())
}

// ─── Entries ───────────────────────────────────────────────────────────────

/// A cached lookup with its expiry and insertion times, in nanoseconds on
/// the cache's clock.
#[derive(Debug, Clone)]
pub struct CacheEntry<T> {
    /// The cached lookup.
    pub data: T,
    /// When the entry stops being served.
    pub expires_at: u64,
    /// When the entry was inserted.
    pub inserted_at: u64,
}

/// An entry is served until its expiry time.
pub open spec fn fresh<T>(e: CacheEntry<T>, now: u64) -> bool {
    now < e.expires_at
}

/// Text views of stored slots.
pub open spec fn slot_views<T>(s: Seq<(String, CacheEntry<T>)>) -> Seq<(Seq<char>, CacheEntry<T>)> {
    s.map_values(|p: (String, CacheEntry<T>)| (p.0@, p.1))
}

/// No key occurs twice.
pub open spec fn distinct_keys<T>(s: Seq<(Seq<char>, T)>) -> bool {
    forall|i: int, j: int| 0 <= i < s.len() && 0 <= j < s.len() && i != j ==> #[trigger] s[i].0 != #[trigger] s[j].0
}

/// Some slot has key `k`.
pub open spec fn holds_key<T>(s: Seq<(Seq<char>, T)>, k: Seq<char>) -> bool {
    exists|i: int| 0 <= i < s.len() && #[trigger] s[i].0 == k
}

/// The slots as a map from key to entry.
pub open spec fn as_map<T>(s: Seq<(Seq<char>, T)>) -> Map<Seq<char>, T> {
    Map::new(|k: Seq<char>| holds_key(s, k), |k: Seq<char>| s[choose|i: int| 0 <= i < s.len() && #[trigger] s[i].0 == k].1)
}

proof fn lemma_as_map_at<T>(s: Seq<(Seq<char>, T)>, i: int)
    requires
        distinct_keys(s),
        0 <= i < s.len(),
    ensures
        as_map(s).dom().contains(s[i].0),
        as_map(s)[s[i].0] == s[i].1,
{
    let k = s[i].0;
    assert(holds_key(s, k));
    let j = choose|j: int| 0 <= j < s.len() && #[trigger] s[j].0 == k;
    assert(j == i);
}

/// The entries of `m` still fresh at `now`.
pub open spec fn fresh_map<T>(m: Map<Seq<char>, CacheEntry<T>>, now: u64) -> Map<Seq<char>, CacheEntry<T>> {
    Map::new(|k: Seq<char>| m.dom().contains(k) && fresh(m[k], now), |k: Seq<char>| m[k])
}

/// Number of slots expired at `now`.
pub open spec fn expired_count<T>(s: Seq<(Seq<char>, CacheEntry<T>)>, now: u64) -> nat
    decreases s.len(),
{
    if s.len() == 0 {
        0
    } else {
        (if fresh(s[0].1, now) { 0nat } else { 1nat }) + expired_count(s.drop_first(), now)
    }
}

proof fn lemma_distinct_sub<T>(s: Seq<(Seq<char>, T)>, t: Seq<(Seq<char>, T)>)
    requires
        distinct_keys(s),
        t.len() <= s.len(),
        forall|i: int| 0 <= i < t.len() ==> #[trigger] t[i] == s[i],
    ensures
        distinct_keys(t),
{
    assert forall|i: int, j: int| 0 <= i < t.len() && 0 <= j < t.len() && i != j implies #[trigger] t[i].0
        != #[trigger] t[j].0 by {
        assert(t[i] == s[i] && t[j] == s[j]);
    }
}

proof fn lemma_map_push<T>(s: Seq<(Seq<char>, T)>, k: Seq<char>, v: T)
    requires
        distinct_keys(s),
        !holds_key(s, k),
    ensures
        distinct_keys(s.push((k, v))),
        as_map(s.push((k, v))) =~= as_map(s).insert(k, v),
{
    let t = s.push((k, v));
    assert forall|i: int, j: int| 0 <= i < t.len() && 0 <= j < t.len() && i != j implies #[trigger] t[i].0
        != #[trigger] t[j].0 by {
        if i == s.len() {
            if t[j].0 == k {
                assert(s[j].0 == k);
            }
        } else if j == s.len() {
            if t[i].0 == k {
                assert(s[i].0 == k);
            }
        } else {
            assert(t[i] == s[i] && t[j] == s[j]);
        }
    }
    assert forall|q: Seq<char>| #[trigger] as_map(t).dom().contains(q) <==> as_map(s).insert(k, v).dom().contains(q) by {
        if holds_key(t, q) {
            let i = choose|i: int| 0 <= i < t.len() && #[trigger] t[i].0 == q;
            if i < s.len() {
                assert(s[i].0 == q);
            }
        }
        if holds_key(s, q) {
            let i = choose|i: int| 0 <= i < s.len() && #[trigger] s[i].0 == q;
            assert(t[i].0 == q);
        }
        if q == k {
            assert(t[s.len() as int].0 == q);
        }
    }
    assert forall|q: Seq<char>| #[trigger] as_map(t).dom().contains(q) implies as_map(t)[q] == as_map(s).insert(k, v)[q] by {
        let i = choose|i: int| 0 <= i < t.len() && #[trigger] t[i].0 == q;
        lemma_as_map_at(t, i);
        if i < s.len() {
            assert(t[i] == s[i]);
            lemma_as_map_at(s, i);
        }
    }
}

proof fn lemma_map_update<T>(s: Seq<(Seq<char>, T)>, i: int, v: T)
    requires
        distinct_keys(s),
        0 <= i < s.len(),
    ensures
        distinct_keys(s.update(i, (s[i].0, v))),
        as_map(s.update(i, (s[i].0, v))) =~= as_map(s).insert(s[i].0, v),
{
    let k = s[i].0;
    let t = s.update(i, (k, v));
    assert forall|a: int, b: int| 0 <= a < t.len() && 0 <= b < t.len() && a != b implies #[trigger] t[a].0
        != #[trigger] t[b].0 by {
        assert(t[a].0 == s[a].0 && t[b].0 == s[b].0);
    }
    assert forall|q: Seq<char>| #[trigger] as_map(t).dom().contains(q) <==> as_map(s).insert(k, v).dom().contains(q) by {
        if holds_key(t, q) {
            let j = choose|j: int| 0 <= j < t.len() && #[trigger] t[j].0 == q;
            assert(s[j].0 == q);
        }
        if holds_key(s, q) {
            let j = choose|j: int| 0 <= j < s.len() && #[trigger] s[j].0 == q;
            assert(t[j].0 == q);
        }
        if q == k {
            assert(t[i].0 == q);
        }
    }
    assert forall|q: Seq<char>| #[trigger] as_map(t).dom().contains(q) implies as_map(t)[q] == as_map(s).insert(k, v)[q] by {
        let j = choose|j: int| 0 <= j < t.len() && #[trigger] t[j].0 == q;
        lemma_as_map_at(t, j);
        if j != i {
            assert(t[j] == s[j]);
            lemma_as_map_at(s, j);
        }
    }
}

proof fn lemma_map_remove<T>(s: Seq<(Seq<char>, T)>, i: int)
    requires
        distinct_keys(s),
        0 <= i < s.len(),
    ensures
        distinct_keys(s.remove(i)),
        as_map(s.remove(i)) =~= as_map(s).remove(s[i].0),
{
    let k = s[i].0;
    let t = s.remove(i);
    assert forall|a: int| 0 <= a < t.len() implies #[trigger] t[a] == s[if a < i { a } else { a + 1 }] by {}
    assert forall|a: int, b: int| 0 <= a < t.len() && 0 <= b < t.len() && a != b implies #[trigger] t[a].0
        != #[trigger] t[b].0 by {
        assert(t[a] == s[if a < i { a } else { a + 1 }]);
        assert(t[b] == s[if b < i { b } else { b + 1 }]);
    }
    assert forall|q: Seq<char>| #[trigger] as_map(t).dom().contains(q) <==> as_map(s).remove(k).dom().contains(q) by {
        if holds_key(t, q) {
            let j = choose|j: int| 0 <= j < t.len() && #[trigger] t[j].0 == q;
            let js = if j < i { j } else { j + 1 };
            assert(t[j] == s[js]);
            assert(s[js].0 == q);
        }
        if holds_key(s, q) && q != k {
            let j = choose|j: int| 0 <= j < s.len() && #[trigger] s[j].0 == q;
            assert(j != i);
            let jt = if j < i { j } else { j - 1 };
            assert(t[jt] == s[j]);
            assert(t[jt].0 == q);
        }
    }
    assert forall|q: Seq<char>| #[trigger] as_map(t).dom().contains(q) implies as_map(t)[q] == as_map(s).remove(k)[q] by {
        let j = choose|j: int| 0 <= j < t.len() && #[trigger] t[j].0 == q;
        let js = if j < i { j } else { j + 1 };
        assert(t[j] == s[js]);
        lemma_as_map_at(t, j);
        lemma_as_map_at(s, js);
    }
}

proof fn lemma_map_prepend<T>(a: (Seq<char>, T), x: Seq<(Seq<char>, T)>)
    requires
        distinct_keys(seq![a] + x),
    ensures
        distinct_keys(x),
        !holds_key(x, a.0),
        as_map(seq![a] + x) =~= as_map(x).insert(a.0, a.1),
{
    let t = seq![a] + x;
    assert forall|i: int| 0 <= i < x.len() implies #[trigger] x[i] == t[i + 1] by {}
    assert forall|i: int, j: int| 0 <= i < x.len() && 0 <= j < x.len() && i != j implies #[trigger] x[i].0
        != #[trigger] x[j].0 by {
        assert(x[i] == t[i + 1] && x[j] == t[j + 1]);
    }
    if holds_key(x, a.0) {
        let j = choose|j: int| 0 <= j < x.len() && #[trigger] x[j].0 == a.0;
        assert(t[j + 1].0 == t[0].0);
    }
    assert forall|q: Seq<char>| #[trigger] as_map(t).dom().contains(q) <==> as_map(x).insert(a.0, a.1).dom().contains(q) by {
        if holds_key(t, q) {
            let j = choose|j: int| 0 <= j < t.len() && #[trigger] t[j].0 == q;
            if j > 0 {
                assert(x[j - 1] == t[j]);
            }
        }
        if holds_key(x, q) {
            let j = choose|j: int| 0 <= j < x.len() && #[trigger] x[j].0 == q;
            assert(t[j + 1].0 == q);
        }
        if q == a.0 {
            assert(t[0].0 == q);
        }
    }
    assert forall|q: Seq<char>| #[trigger] as_map(t).dom().contains(q) implies as_map(t)[q] == as_map(x).insert(a.0, a.1)[q] by {
        let j = choose|j: int| 0 <= j < t.len() && #[trigger] t[j].0 == q;
        lemma_as_map_at(t, j);
        if j > 0 {
            assert(x[j - 1] == t[j]);
            lemma_as_map_at(x, j - 1);
        }
    }
}

/// Key `k` holds the oldest entry of `m`: none was inserted earlier, and
/// among those inserted at the same time its key sorts first.
pub open spec fn is_oldest<T>(m: Map<Seq<char>, CacheEntry<T>>, k: Seq<char>) -> bool {
    &&& m.dom().contains(k)
    &&& forall|q: Seq<char>| #[trigger] m.dom().contains(q) && q != k ==> m[k].inserted_at < m[q].inserted_at
        || (m[k].inserted_at == m[q].inserted_at && text_lt(k, q))
}

/// The oldest entry of a map is unique.
pub proof fn law_oldest_is_unique<T>(m: Map<Seq<char>, CacheEntry<T>>, k: Seq<char>, q: Seq<char>)
    requires
        is_oldest(m, k),
        is_oldest(m, q),
    ensures
        k == q,
{
    if k != q {
        assert(m.dom().contains(q) && m.dom().contains(k));
        assert(text_lt(k, q) && text_lt(q, k));
        lemma_text_lt_transitive(k, q, k);
        lemma_text_lt_irreflexive(k);
    }
}

// ─── The cache ─────────────────────────────────────────────────────────────

/// Size and counters of a cache at one moment.
#[derive(Debug, Clone, Copy, PartialEq, Eq, Default, Structural)]
pub struct CacheCounters {
    /// Number of entries held.
    pub size: usize,
    /// Number of lookups answered from the cache.
    pub hits: u64,
    /// Number of lookups not answered.
    pub misses: u64,
    /// Number of entries evicted.
    pub evictions: u64,
}

#[verifier::external_type_specification]
#[verifier::external_body]
pub struct ExInstant(Instant);

/// Trusted: calls `Instant::now`, a reading of the monotonic clock; nothing
/// is stated of it.
#[verifier::external_body]
fn instant_now() -> (i: Instant) {
    Instant::now()
}

/// Trusted: calls `Instant::elapsed`, the time since an instant as read
/// from the clock; nothing is stated of it.
#[verifier::external_body]
fn elapsed_since(origin: &Instant) -> (d: Duration) {
    origin.elapsed()
}

/// TTL of an entry in nanoseconds: the lookup's TTL raised to the floor,
/// then lowered to the ceiling.
pub open spec fn clamped_ttl(ttl: u128, min: u128, max: u128) -> u128 {
    let raised = if ttl < min { min } else { ttl };
    if raised > max { max } else { raised }
}

/// Expiry of an entry inserted at `now` with TTL `ttl`, saturating at the
/// end of the clock.
pub open spec fn expiry(now: u64, ttl: u128) -> u64 {
    if now + ttl > u64::MAX { u64::MAX } else { (now + ttl) as u64 }
}

/// A nanosecond count capped at `u64::MAX`.
pub open spec fn saturated_nanos(n: u128) -> u64 {
    if n > u64::MAX { u64::MAX } else { n as u64 }
}

/// Mathematical value of a cache.
pub struct DnsCacheView<T> {
    /// The stored entries, one per key, in no particular order.
    pub slots: Seq<(Seq<char>, CacheEntry<T>)>,
    /// Configuration.
    pub config: CacheConfig,
    /// Lookups answered.
    pub hits: u64,
    /// Lookups not answered.
    pub misses: u64,
    /// Entries evicted.
    pub evictions: u64,
}

/// Thread-unaware DNS cache; callers that share it put it behind a lock.
#[derive(Debug)]
pub struct DnsCache<T> {
    slots: Vec<(String, CacheEntry<T>)>,
    config: CacheConfig,
    clock: Instant,
    hits: u64,
    misses: u64,
    evictions: u64,
}

impl<T> View for DnsCache<T> {
    type V = DnsCacheView<T>;

    closed spec fn view(&self) -> DnsCacheView<T> {
        DnsCacheView {
            slots: slot_views(self.slots@),
            config: self.config,
            hits: self.hits,
            misses: self.misses,
            evictions: self.evictions,
        }
    }
}

/// Index of the slot with key `k`.
pub open spec fn slot_of<T>(s: Seq<(Seq<char>, T)>, k: Seq<char>) -> int {
    choose|i: int| 0 <= i < s.len() && #[trigger] s[i].0 == k
}

fn find_slot<T>(slots: &Vec<(String, CacheEntry<T>)>, key: &String) -> (r: Option<usize>)
    ensures
        match r {
            Some(i) => i < slots@.len() && slot_views(slots@)[i as int].0 == key@,
            None => !holds_key(slot_views(slots@), key@),
        },
{
    let ghost v = slot_views(slots@);
    let mut i: usize = 0;
    while i < slots.len()
        invariant
            v == slot_views(slots@),
            i <= slots.len(),
            forall|j: int| 0 <= j < i ==> #[trigger] v[j].0 != key@,
        decreases slots.len() - i,
    {
        if slots[i].0 == *key {
            return Some(i);
        }
        i = i + 1;
    }
    assert forall|j: int| 0 <= j < v.len() implies #[trigger] v[j].0 != key@ by {}
    None
}

/// Drops the slots expired at `now`.
fn retain_fresh<T>(slots: Vec<(String, CacheEntry<T>)>, now: u64) -> (kept: Vec<(String, CacheEntry<T>)>)
    requires
        distinct_keys(slot_views(slots@)),
    ensures
        distinct_keys(slot_views(kept@)),
        as_map(slot_views(kept@)) == fresh_map(as_map(slot_views(slots@)), now),
        kept@.len() + expired_count(slot_views(slots@), now) == slots@.len(),
{
    let ghost orig = slot_views(slots@);
    let ghost n = slots@.len();
    let mut rest = slots;
    let mut kept: Vec<(String, CacheEntry<T>)> = Vec::new();
    proof {
        assert(orig.subrange(n as int, n as int) =~= Seq::<(Seq<char>, CacheEntry<T>)>::empty());
        assert(as_map(slot_views(kept@)) =~= fresh_map(as_map(orig.subrange(n as int, n as int)), now));
        assert(rest@.len() == n);
    }
    while rest.len() > 0
        invariant
            orig.len() == n,
            distinct_keys(orig),
            rest@.len() <= n,
            slot_views(rest@) == orig.take(rest@.len() as int),
            distinct_keys(slot_views(kept@)),
            as_map(slot_views(kept@)) == fresh_map(as_map(orig.subrange(rest@.len() as int, n as int)), now),
            kept@.len() + expired_count(orig.subrange(rest@.len() as int, n as int), now) == n - rest@.len(),
        decreases rest.len(),
    {
        let ghost m = rest@.len() as int;
        let ghost before_rest = rest@;
        let p = rest.pop().unwrap();
        let ghost a = (p.0@, p.1);
        let ghost suffix = orig.subrange(m, n as int);
        let ghost longer = orig.subrange(m - 1, n as int);
        proof {
            assert(p == before_rest[m - 1]);
            assert(slot_views(before_rest)[m - 1] == a);
            assert(orig.take(m)[m - 1] == orig[m - 1]);
            assert(a == orig[m - 1]);
            assert(slot_views(rest@) =~= orig.take(m - 1));
            assert(longer =~= seq![a] + suffix);
            assert(longer.drop_first() =~= suffix);
            lemma_distinct_sub(orig.skip(m - 1), longer);
            assert(distinct_keys(orig.skip(m - 1))) by {
                assert forall|i: int, j: int| 0 <= i < orig.skip(m - 1).len() && 0 <= j < orig.skip(m - 1).len() && i != j
                    implies #[trigger] orig.skip(m - 1)[i].0 != #[trigger] orig.skip(m - 1)[j].0 by {
                    assert(orig.skip(m - 1)[i] == orig[i + m - 1] && orig.skip(m - 1)[j] == orig[j + m - 1]);
                }
            }
            lemma_map_prepend(a, suffix);
        }
        let ghost kv = slot_views(kept@);
        if fresh_at(&p.1, now) {
            proof {
                if holds_key(slot_views(kept@), a.0) {
                    let j = choose|j: int| 0 <= j < slot_views(kept@).len() && #[trigger] slot_views(kept@)[j].0 == a.0;
                    lemma_as_map_at(slot_views(kept@), j);
                    assert(as_map(suffix).dom().contains(a.0));
                    let w = choose|w: int| 0 <= w < suffix.len() && #[trigger] suffix[w].0 == a.0;
                    assert(holds_key(suffix, a.0));
                }
                lemma_map_push(slot_views(kept@), a.0, a.1);
            }
            kept.push(p);
            proof {
                assert(slot_views(kept@) =~= kv.push(a));
            }
        }
        proof {
            let mm = as_map(suffix);
            assert(as_map(longer) =~= mm.insert(a.0, a.1));
            assert(fresh_map(mm.insert(a.0, a.1), now) =~= if fresh(a.1, now) {
                fresh_map(mm, now).insert(a.0, a.1)
            } else {
                fresh_map(mm, now)
            });
        }
    }
    assert(orig.subrange(0, n as int) =~= orig);
    kept
}

fn fresh_at<T>(e: &CacheEntry<T>, now: u64) -> (b: bool)
    ensures
        b == fresh(*e, now),
{
    now < e.expires_at
}

fn oldest_slot<T>(slots: &Vec<(String, CacheEntry<T>)>) -> (v: usize)
    requires
        slots@.len() > 0,
        distinct_keys(slot_views(slots@)),
    ensures
        v < slots@.len(),
        is_oldest(as_map(slot_views(slots@)), slot_views(slots@)[v as int].0),
{
    let ghost s = slot_views(slots@);
    let mut best: usize = 0;
    let mut i: usize = 1;
    while i < slots.len()
        invariant
            s == slot_views(slots@),
            distinct_keys(s),
            best < i <= slots@.len(),
            forall|j: int| 0 <= j < i && j != best ==> s[best as int].1.inserted_at < #[trigger] s[j].1.inserted_at
                || (s[best as int].1.inserted_at == s[j].1.inserted_at && text_lt(s[best as int].0, s[j].0)),
        decreases slots.len() - i,
    {
        let ti = slots[i].1.inserted_at;
        let tb = slots[best].1.inserted_at;
        let earlier = ti < tb || (ti == tb && text_less(&slots[i].0, &slots[best].0));
        proof {
            assert(s[i as int].0 != s[best as int].0);
            lemma_text_lt_total(s[i as int].0, s[best as int].0);
        }
        if earlier {
            proof {
                let b = best as int;
                assert forall|j: int| 0 <= j < i + 1 && j != i implies s[i as int].1.inserted_at < #[trigger] s[j].1.inserted_at
                    || (s[i as int].1.inserted_at == s[j].1.inserted_at && text_lt(s[i as int].0, s[j].0)) by {
                    if j != b && 0 <= j < i {
                        if s[i as int].1.inserted_at == s[j].1.inserted_at {
                            lemma_text_lt_transitive(s[i as int].0, s[b].0, s[j].0);
                        }
                    }
                }
            }
            best = i;
        }
        i = i + 1;
    }
    proof {
        let m = as_map(s);
        let k = s[best as int].0;
        lemma_as_map_at(s, best as int);
        assert forall|q: Seq<char>| #[trigger] m.dom().contains(q) && q != k implies m[k].inserted_at < m[q].inserted_at
            || (m[k].inserted_at == m[q].inserted_at && text_lt(k, q)) by {
            let j = choose|j: int| 0 <= j < s.len() && #[trigger] s[j].0 == q;
            lemma_as_map_at(s, j);
            assert(j != best);
        }
    }
    best
}

/// Lookup of key `k` at `now`: a fresh entry is a hit and answers a clone
/// of its data; an expired entry is dropped and counts as an eviction and
/// a miss; an absent key is a miss.
pub open spec fn lookup_step<T: Clone>(before: DnsCacheView<T>, after: DnsCacheView<T>, k: Seq<char>, now: u64, r: Option<T>) -> bool {
    let m = as_map(before.slots);
    &&& after.config == before.config
    &&& if !m.dom().contains(k) {
        &&& r is None
        &&& after.slots == before.slots
        &&& after.hits == before.hits
        &&& after.misses == wrapping_add(before.misses, 1)
        &&& after.evictions == before.evictions
    } else if fresh(m[k], now) {
        &&& r matches Some(d) && cloned(m[k].data, d)
        &&& after.slots == before.slots
        &&& after.hits == wrapping_add(before.hits, 1)
        &&& after.misses == before.misses
        &&& after.evictions == before.evictions
    } else {
        &&& r is None
        &&& as_map(after.slots) == m.remove(k)
        &&& after.slots.len() + 1 == before.slots.len()
        &&& after.hits == before.hits
        &&& after.misses == wrapping_add(before.misses, 1)
        &&& after.evictions == wrapping_add(before.evictions, 1)
    }
}

/// The entry stored for a lookup inserted at `now` with TTL `ttl`.
pub open spec fn new_entry<T>(c: CacheConfig, data: T, ttl: Duration, now: u64) -> CacheEntry<T> {
    CacheEntry {
        data,
        expires_at: expiry(now, clamped_ttl(duration_nanos(ttl), duration_nanos(c.min_ttl), duration_nanos(c.max_ttl))),
        inserted_at: now,
    }
}

/// Insertion of `data` under key `k` at `now`.  A cache with no room at
/// all drops everything.  A present key is overwritten and nothing is
/// evicted; a new key is added, after making room when the cache is full:
/// expired entries go first and, if the cache is still full, the oldest
/// entry.
pub open spec fn put_step<T>(before: DnsCacheView<T>, after: DnsCacheView<T>, k: Seq<char>, data: T, ttl: Duration, now: u64) -> bool {
    let m = as_map(before.slots);
    let c = before.config;
    let e = new_entry(c, data, ttl, now);
    let expired = expired_count(before.slots, now);
    let f = fresh_map(m, now);
    &&& after.config == c
    &&& after.hits == before.hits
    &&& after.misses == before.misses
    &&& if c.max_entries == 0 {
        &&& after.slots.len() == 0
        &&& after.evictions == wrapping_add(before.evictions, before.slots.len() as u64)
    } else if m.dom().contains(k) {
        &&& as_map(after.slots) == m.insert(k, e)
        &&& after.slots.len() == before.slots.len()
        &&& after.evictions == before.evictions
    } else if before.slots.len() < c.max_entries {
        &&& as_map(after.slots) == m.insert(k, e)
        &&& after.slots.len() == before.slots.len() + 1
        &&& after.evictions == before.evictions
    } else if before.slots.len() - expired < c.max_entries {
        &&& as_map(after.slots) == f.insert(k, e)
        &&& after.slots.len() == before.slots.len() - expired + 1
        &&& after.evictions == wrapping_add(before.evictions, expired as u64)
    } else {
        &&& exists|v: Seq<char>| is_oldest(f, v) && as_map(after.slots) == f.remove(v).insert(k, e)
        &&& after.slots.len() == before.slots.len() - expired
        &&& after.evictions == wrapping_add(wrapping_add(before.evictions, expired as u64), 1)
    }
}

impl<T> DnsCache<T> {
    /// Keys are distinct and the cache holds at most `max_entries` entries.
    #[verifier::type_invariant]
    spec fn bounded(self) -> bool {
        &&& distinct_keys(slot_views(self.slots@))
        &&& self.slots@.len() <= self.config.max_entries
    }

    /// The entries by key.
    pub open spec fn entries(self) -> Map<Seq<char>, CacheEntry<T>> {
        as_map(self@.slots)
    }

    /// An empty cache with the given configuration.
    pub fn with_config(config: CacheConfig) -> (c: Self)
        ensures
            c@.slots.len() == 0,
            c@.config == config,
            c@.hits == 0,
            c@.misses == 0,
            c@.evictions == 0,
    {
        DnsCache { slots: Vec::new(), config, clock: instant_now(), hits: 0, misses: 0, evictions: 0 }
    }

    /// An empty cache with the default configuration.
    pub fn new() -> (c: Self)
        ensures
            c@.slots.len() == 0,
            c@.config.max_entries == 10_000,
            duration_nanos(c@.config.min_ttl) == 60_000_000_000,
            duration_nanos(c@.config.max_ttl) == 86_400_000_000_000,
            duration_nanos(c@.config.negative_ttl) == 30_000_000_000,
            c@.hits == 0,
            c@.misses == 0,
            c@.evictions == 0,
    {
        Self::with_config(CacheConfig::default())
    }

    /// Nanoseconds since the cache was created, saturating: the length of
    /// the elapsed duration read from the clock, capped at `u64::MAX`.
    fn now(&self) -> (n: u64)
        ensures
            exists|d: Duration| n == saturated_nanos(duration_nanos(d)),
    {
        let d = elapsed_since(&self.clock);
        let n = nanos_of(&d);
        let r = if n > u64::MAX as u128 {
            u64::MAX
        } else {
            n as u64
        };
        assert(r == saturated_nanos(duration_nanos(d)));
        r
    }

    fn take_slots(&mut self) -> (s: Vec<(String, CacheEntry<T>)>)
        ensures
            s@ == old(self).slots@,
            final(self).slots@.len() == 0,
            final(self).config == old(self).config,
            final(self).hits == old(self).hits,
            final(self).misses == old(self).misses,
            final(self).evictions == old(self).evictions,
    {
        let mut slots: Vec<(String, CacheEntry<T>)> = Vec::new();
        std::mem::swap(&mut slots, &mut self.slots);
        slots
    }

    /// Looks a host up at time `now` on the cache's clock.
    pub fn get_ip_at(&mut self, host: &str, now: u64) -> (r: Option<T>)
        where T: Clone,
        ensures
            lookup_step(old(self)@, final(self)@, host_key(host@), now, r),
    {
        proof {
            use_type_invariant(&*self);
        }
        let key = normalize_host_key(host);
        let ghost s = slot_views(self.slots@);
        match find_slot(&self.slots, &key) {
            None => {
                self.misses = self.misses.wrapping_add(1);
                None
            },
            Some(i) => {
                proof {
                    lemma_as_map_at(s, i as int);
                }
                if fresh_at(&self.slots[i].1, now) {
                    let d = self.slots[i].1.data.clone();
                    self.hits = self.hits.wrapping_add(1);
                    Some(d)
                } else {
                    let mut slots = self.take_slots();
                    proof {
                        lemma_map_remove(s, i as int);
                    }
                    slots.remove(i);
                    assert(slot_views(slots@) =~= s.remove(i as int));
                    self.slots = slots;
                    self.evictions = self.evictions.wrapping_add(1);
                    self.misses = self.misses.wrapping_add(1);
                    None
                }
            },
        }
    }

    /// Looks a host up now.
    pub fn get_ip(&mut self, host: &str) -> (r: Option<T>)
        where T: Clone,
        ensures
            exists|now: u64| lookup_step(old(self)@, final(self)@, host_key(host@), now, r),
    {
        let now = self.now();
        self.get_ip_at(host, now)
    }

    /// Inserts a lookup for a host at time `now`, with the lookup's TTL.
    pub fn put_ip_at(&mut self, host: &str, lookup: T, ttl: &Duration, now: u64)
        ensures
            put_step(old(self)@, final(self)@, host_key(host@), lookup, *ttl, now),
            final(self)@.slots.len() <= final(self)@.config.max_entries,
    {
        proof {
            use_type_invariant(&*self);
        }
        let max = self.config.max_entries;
        let mut slots = self.take_slots();
        let ghost s = slot_views(slots@);
        if max == 0 {
            let n = slots.len();
            self.evictions = self.evictions.wrapping_add(n as u64);
            return;
        }
        let t = nanos_of(ttl);
        let lo = nanos_of(&self.config.min_ttl);
        let hi = nanos_of(&self.config.max_ttl);
        let raised = if t < lo { lo } else { t };
        let clamped = if raised > hi { hi } else { raised };
        let expires_at: u64 = if clamped > (u64::MAX - now) as u128 {
            u64::MAX
        } else {
            now + clamped as u64
        };
        let entry = CacheEntry { data: lookup, expires_at, inserted_at: now };
        let key = normalize_host_key(host);
        let ghost k = key@;
        let ghost e = entry;
        assert(e == new_entry(self.config, lookup, *ttl, now));
        match find_slot(&slots, &key) {
            Some(i) => {
                proof {
                    lemma_as_map_at(s, i as int);
                    lemma_map_update(s, i as int, e);
                }
                slots.set(i, (key, entry));
                assert(slot_views(slots@) =~= s.update(i as int, (k, e)));
            },
            None => {
                if slots.len() >= max {
                    let before = slots.len();
                    let mut kept = retain_fresh(slots, now);
                    let removed = before - kept.len();
                    self.evictions = self.evictions.wrapping_add(removed as u64);
                    if kept.len() >= max {
                        let ghost kv = slot_views(kept@);
                        let v = oldest_slot(&kept);
                        proof {
                            lemma_map_remove(kv, v as int);
                        }
                        kept.remove(v);
                        assert(slot_views(kept@) =~= kv.remove(v as int));
                        self.evictions = self.evictions.wrapping_add(1);
                    }
                    slots = kept;
                }
                let ghost sv = slot_views(slots@);
                proof {
                    if holds_key(sv, k) {
                        let j = choose|j: int| 0 <= j < sv.len() && #[trigger] sv[j].0 == k;
                        lemma_as_map_at(sv, j);
                        assert(as_map(s).dom().contains(k));
                    }
                    lemma_map_push(sv, k, e);
                }
                slots.push((key, entry));
                assert(slot_views(slots@) =~= sv.push((k, e)));
            },
        }
        self.slots = slots;
    }

    /// Inserts a lookup for a host now, with the lookup's TTL.
    pub fn put_ip(&mut self, host: &str, lookup: T, ttl: &Duration)
        ensures
            exists|now: u64| put_step(old(self)@, final(self)@, host_key(host@), lookup, *ttl, now),
            final(self)@.slots.len() <= final(self)@.config.max_entries,
    {
        let now = self.now();
        self.put_ip_at(host, lookup, ttl, now)
    }

    /// Removes the entry of a host, if any.
    pub fn remove(&mut self, host: &str)
        ensures
            as_map(final(self)@.slots) == as_map(old(self)@.slots).remove(host_key(host@)),
            final(self)@.config == old(self)@.config,
            final(self)@.hits == old(self)@.hits,
            final(self)@.misses == old(self)@.misses,
            final(self)@.evictions == old(self)@.evictions,
    {
        proof {
            use_type_invariant(&*self);
        }
        let key = normalize_host_key(host);
        let mut slots = self.take_slots();
        let ghost s = slot_views(slots@);
        match find_slot(&slots, &key) {
            Some(i) => {
                proof {
                    lemma_map_remove(s, i as int);
                }
                slots.remove(i);
                assert(slot_views(slots@) =~= s.remove(i as int));
            },
            None => {
                assert(as_map(s).remove(key@) =~= as_map(s));
            },
        }
        self.slots = slots;
    }

    /// Drops every entry and resets the counters.
    pub fn clear(&mut self)
        ensures
            final(self)@.slots.len() == 0,
            final(self)@.config == old(self)@.config,
            final(self)@.hits == 0,
            final(self)@.misses == 0,
            final(self)@.evictions == 0,
    {
        let _ = self.take_slots();
        self.hits = 0;
        self.misses = 0;
        self.evictions = 0;
    }

    /// Drops the entries expired at `now`, counting them as evictions.
    pub fn evict_expired_at(&mut self, now: u64)
        ensures
            as_map(final(self)@.slots) == fresh_map(as_map(old(self)@.slots), now),
            final(self)@.slots.len() + expired_count(old(self)@.slots, now) == old(self)@.slots.len(),
            final(self)@.evictions == wrapping_add(old(self)@.evictions, expired_count(old(self)@.slots, now) as u64),
            final(self)@.config == old(self)@.config,
            final(self)@.hits == old(self)@.hits,
            final(self)@.misses == old(self)@.misses,
    {
        proof {
            use_type_invariant(&*self);
        }
        let slots = self.take_slots();
        let before = slots.len();
        let kept = retain_fresh(slots, now);
        let removed = before - kept.len();
        self.slots = kept;
        self.evictions = self.evictions.wrapping_add(removed as u64);
    }

    /// Drops the entries expired now.
    pub fn evict_expired(&mut self)
        ensures
            exists|now: u64| as_map(final(self)@.slots) == fresh_map(as_map(old(self)@.slots), now)
                && final(self)@.evictions == wrapping_add(old(self)@.evictions, expired_count(old(self)@.slots, now) as u64),
            final(self)@.config == old(self)@.config,
    {
        let now = self.now();
        self.evict_expired_at(now)
    }

    /// Size and counters.
    pub fn stats(&self) -> (c: CacheCounters)
        ensures
            c.size == self@.slots.len(),
            c.hits == self@.hits,
            c.misses == self@.misses,
            c.evictions == self@.evictions,
    {
        CacheCounters { size: self.slots.len(), hits: self.hits, misses: self.misses, evictions: self.evictions }
    }

    /// Configuration.
    pub fn config(&self) -> (c: &CacheConfig)
        ensures
            *c == self@.config,
    {
        &self.config
    }
}

impl<T> Default for DnsCache<T> {
    /// An empty cache with the default configuration.
    fn default() -> (c: Self)
        ensures
            c@.slots.len() == 0,
            c@.config.max_entries == 10_000,
            c@.hits == 0,
            c@.misses == 0,
            c@.evictions == 0,
    {
        Self::new()
    }
}

/// Updating a host already cached replaces its entry and evicts nothing.
pub proof fn law_update_evicts_nothing<T>(before: DnsCacheView<T>, after: DnsCacheView<T>, k: Seq<char>, data: T, ttl: Duration, now: u64)
    requires
        before.config.max_entries > 0,
        as_map(before.slots).dom().contains(k),
        put_step(before, after, k, data, ttl, now),
    ensures
        as_map(after.slots) == as_map(before.slots).insert(k, new_entry(before.config, data, ttl, now)),
        after.evictions == before.evictions,
        after.slots.len() == before.slots.len(),
{
}

} // verus!
