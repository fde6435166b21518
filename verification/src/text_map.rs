//! An ordered map from text keys to values.
//!
//! Entries are kept sorted by key in code-point order (the order of the
//! keys' UTF-8 bytes), with no key repeated, so iteration visits keys in
//! ascending order.

use vstd::prelude::*;
use crate::text::copy_string;

verus! {

/// Lexicographic order on character sequences by code point.
pub open spec fn text_lt(a: Seq<char>, b: Seq<char>) -> bool
    decreases a.len(),
{
    if b.len() == 0 {
        false
    } else if a.len() == 0 {
        true
    } else if (a[0] as u32) < (b[0] as u32) {
        true
    } else if a[0] == b[0] {
        text_lt(a.drop_first(), b.drop_first())
    } else {
        false
    }
}

proof fn lemma_char_eq(x: char, y: char)
    requires
        x as u32 == y as u32,
    ensures
        x == y,
{
    vstd::utf8::char_u32_cast(x, x as u32);
    vstd::utf8::char_u32_cast(y, y as u32);
}

/// `text_lt` is irreflexive.
pub proof fn lemma_text_lt_irreflexive(a: Seq<char>)
    ensures
        !text_lt(a, a),
    decreases a.len(),
{
    if a.len() > 0 {
        lemma_text_lt_irreflexive(a.drop_first());
    }
}

/// `text_lt` is transitive.
pub proof fn lemma_text_lt_transitive(a: Seq<char>, b: Seq<char>, c: Seq<char>)
    requires
        text_lt(a, b),
        text_lt(b, c),
    ensures
        text_lt(a, c),
    decreases a.len(),
{
    if a.len() > 0 && b.len() > 0 && c.len() > 0 {
        if a[0] == b[0] && b[0] == c[0] {
            lemma_text_lt_transitive(a.drop_first(), b.drop_first(), c.drop_first());
        }
    }
}

/// `text_lt` is total on distinct sequences.
pub proof fn lemma_text_lt_total(a: Seq<char>, b: Seq<char>)
    requires
        a != b,
    ensures
        text_lt(a, b) || text_lt(b, a),
    decreases a.len(),
{
    if a.len() > 0 && b.len() > 0 {
        if a[0] as u32 == b[0] as u32 {
            lemma_char_eq(a[0], b[0]);
            if a.drop_first() == b.drop_first() {
                assert(a =~= seq![a[0]] + a.drop_first());
                assert(b =~= seq![b[0]] + b.drop_first());
            }
            lemma_text_lt_total(a.drop_first(), b.drop_first());
        }
    } else if a.len() == 0 && b.len() == 0 {
        assert(a =~= b);
    }
}

/// Whether the keys of `s` are strictly ascending.
pub open spec fn ascending<V>(s: Seq<(Seq<char>, V)>) -> bool {
    forall|i: int, j: int| 0 <= i < j < s.len() ==> text_lt(#[trigger] s[i].0, #[trigger] s[j].0)
}

/// Number of leading entries whose key is below `k`.
pub open spec fn first_not_below<V>(s: Seq<(Seq<char>, V)>, k: Seq<char>) -> nat
    decreases s.len(),
{
    if s.len() > 0 && text_lt(s[0].0, k) {
        1 + first_not_below(s.drop_first(), k)
    } else {
        0
    }
}

/// The entries after setting key `k` to `v`: replaced in place when `k`
/// is present, otherwise inserted at its sorted position.
pub open spec fn with_entry<V>(s: Seq<(Seq<char>, V)>, k: Seq<char>, v: V) -> Seq<(Seq<char>, V)> {
    let p = first_not_below(s, k) as int;
    if p < s.len() && s[p].0 == k {
        s.update(p, (k, v))
    } else {
        s.insert(p, (k, v))
    }
}

/// The value stored for `k`, if any.
pub open spec fn lookup<V>(s: Seq<(Seq<char>, V)>, k: Seq<char>) -> Option<V>
    decreases s.len(),
{
    if s.len() == 0 {
        None
    } else if s[0].0 == k {
        Some(s[0].1)
    } else {
        lookup(s.drop_first(), k)
    }
}

proof fn lemma_first_not_below_bound<V>(s: Seq<(Seq<char>, V)>, k: Seq<char>)
    ensures
        first_not_below(s, k) <= s.len(),
        forall|i: int| 0 <= i < first_not_below(s, k) ==> text_lt(#[trigger] s[i].0, k),
        first_not_below(s, k) < s.len() ==> !text_lt(s[first_not_below(s, k) as int].0, k),
    decreases s.len(),
{
    if s.len() > 0 && text_lt(s[0].0, k) {
        lemma_first_not_below_bound(s.drop_first(), k);
        assert forall|i: int| 0 <= i < first_not_below(s, k) implies text_lt(#[trigger] s[i].0, k) by {
            if i > 0 {
                assert(s[i] == s.drop_first()[i - 1]);
            }
        }
    }
}

/// Setting an entry keeps the keys ascending.
pub proof fn lemma_with_entry_ascending<V>(s: Seq<(Seq<char>, V)>, k: Seq<char>, v: V)
    requires
        ascending(s),
    ensures
        ascending(with_entry(s, k, v)),
{
    lemma_first_not_below_bound(s, k);
    let p = first_not_below(s, k) as int;
    let r = with_entry(s, k, v);
    if p < s.len() && s[p].0 == k {
        assert forall|i: int, j: int| 0 <= i < j < r.len() implies text_lt(#[trigger] r[i].0, #[trigger] r[j].0) by {
            assert(r[i].0 == s[i].0);
            assert(r[j].0 == s[j].0);
        }
    } else {
        if p < s.len() {
            lemma_text_lt_total(s[p].0, k);
        }
        assert forall|i: int, j: int| 0 <= i < j < r.len() implies text_lt(#[trigger] r[i].0, #[trigger] r[j].0) by {
            if j < p {
                assert(r[i] == s[i] && r[j] == s[j]);
            } else if j == p {
                assert(r[i] == s[i]);
            } else if i == p {
                assert(r[j] == s[j - 1]);
                if j - 1 > p {
                    lemma_text_lt_transitive(k, s[p].0, s[j - 1].0);
                }
            } else if i < p {
                assert(r[i] == s[i]);
                assert(r[j] == s[j - 1]);
            } else {
                assert(r[i] == s[i - 1]);
                assert(r[j] == s[j - 1]);
            }
        }
    }
}

/// Looking up a key after setting it gives the new value; other keys are
/// unaffected.
pub proof fn lemma_lookup_with_entry<V>(s: Seq<(Seq<char>, V)>, k: Seq<char>, v: V, q: Seq<char>)
    requires
        ascending(s),
    ensures
        lookup(with_entry(s, k, v), q) == if q == k { Some(v) } else { lookup(s, q) },
    decreases s.len(),
{
    lemma_first_not_below_bound(s, k);
    let p = first_not_below(s, k) as int;
    if s.len() == 0 {
        assert(with_entry(s, k, v) =~= seq![(k, v)]);
        assert(with_entry(s, k, v).drop_first() =~= Seq::<(Seq<char>, V)>::empty());
    } else if p == 0 {
        let r = with_entry(s, k, v);
        if s[0].0 == k {
            assert(r.drop_first() =~= s.drop_first());
            if q != k {
                assert(lookup(s, q) == lookup(s.drop_first(), q));
            }
        } else {
            assert(r.drop_first() =~= s);
        }
    } else {
        let t = s.drop_first();
        assert(ascending(t));
        assert(first_not_below(t, k) == p - 1);
        lemma_lookup_with_entry(t, k, v, q);
        let r = with_entry(s, k, v);
        assert(r[0] == s[0]);
        assert(r.drop_first() =~= with_entry(t, k, v));
        lemma_text_lt_irreflexive(k);
        assert(s[0].0 != k);
    }
}

/// An ordered map from text keys to values.
#[derive(Debug, Clone, PartialEq)]
pub struct TextMap<V> {
    entries: Vec<(String, V)>,
}

/// Entries with string values seen as texts.
pub open spec fn text_entries(s: Seq<(Seq<char>, String)>) -> Seq<(Seq<char>, Seq<char>)> {
    s.map_values(|e: (Seq<char>, String)| (e.0, e.1@))
}

proof fn lemma_first_not_below_texts(s: Seq<(Seq<char>, String)>, k: Seq<char>)
    ensures
        first_not_below(text_entries(s), k) == first_not_below(s, k),
    decreases s.len(),
{
    if s.len() > 0 {
        assert(text_entries(s).drop_first() =~= text_entries(s.drop_first()));
        lemma_first_not_below_texts(s.drop_first(), k);
    }
}

/// Setting an entry commutes with seeing values as texts.
pub proof fn lemma_with_entry_texts(s: Seq<(Seq<char>, String)>, k: Seq<char>, v: String)
    ensures
        text_entries(with_entry(s, k, v)) == with_entry(text_entries(s), k, v@),
{
    lemma_first_not_below_texts(s, k);
    lemma_first_not_below_bound(s, k);
    let p = first_not_below(s, k) as int;
    if p < s.len() && s[p].0 == k {
        assert(text_entries(with_entry(s, k, v)) =~= with_entry(text_entries(s), k, v@));
    } else {
        assert(text_entries(with_entry(s, k, v)) =~= with_entry(text_entries(s), k, v@));
    }
}

/// Views of a sequence of stored entries.
pub open spec fn entry_views<V>(s: Seq<(String, V)>) -> Seq<(Seq<char>, V)> {
    s.map_values(|e: (String, V)| (e.0@, e.1))
}

impl<V> TextMap<V> {
    /// The entries, in ascending key order.
    pub closed spec fn pairs(self) -> Seq<(Seq<char>, V)> {
        entry_views(self.entries@)
    }

    /// The value for `k`, if any.
    pub open spec fn at(self, k: Seq<char>) -> Option<V> {
        lookup(self.pairs(), k)
    }

    /// Keys ascend strictly.
    pub open spec fn wf(self) -> bool {
        ascending(self.pairs())
    }

    /// An empty map.
    pub fn new() -> (m: Self)
        ensures
            m.pairs() == Seq::<(Seq<char>, V)>::empty(),
            m.wf(),
    {
        let m = TextMap { entries: Vec::new() };
        assert(m.pairs() =~= Seq::<(Seq<char>, V)>::empty());
        m
    }

    /// Number of entries.
    pub fn len(&self) -> (n: usize)
        ensures
            n == self.pairs().len(),
    {
        self.entries.len()
    }

    /// Whether the map has no entries.
    pub fn is_empty(&self) -> (b: bool)
        ensures
            b == (self.pairs().len() == 0),
    {
        self.entries.len() == 0
    }

    /// Sets `key` to `value`, replacing any previous value.
    pub fn insert(&mut self, key: String, value: V)
        requires
            old(self).wf(),
        ensures
            final(self).wf(),
            final(self).pairs() == with_entry(old(self).pairs(), key@, value),
    {
        let ghost s = self.pairs();
        let ghost k = key@;
        let mut p: usize = 0;
        assert(s.skip(0) =~= s);
        while p < self.entries.len() && crate::text_map::text_less(&self.entries[p].0, &key)
            invariant
                p <= self.entries.len(),
                s == entry_views(self.entries@),
                k == key@,
                first_not_below(s, k) == p + first_not_below(s.skip(p as int), k),
            decreases self.entries.len() - p,
        {
            assert(s.skip(p as int).drop_first() =~= s.skip(p + 1));
            p = p + 1;
        }
        proof {
            if p < self.entries.len() {
                assert(s.skip(p as int)[0] == s[p as int]);
            }
            assert(first_not_below(s, k) == p);
            lemma_with_entry_ascending(s, k, value);
        }
        if p < self.entries.len() && self.entries[p].0 == key {
            self.entries.set(p, (key, value));
            assert(self.pairs() =~= with_entry(s, k, value));
        } else {
            self.entries.insert(p, (key, value));
            assert(self.pairs() =~= with_entry(s, k, value));
        }
    }

    /// Index of `key`, if present.
    fn position(&self, key: &str) -> (r: Option<usize>)
        ensures
            match r {
                Some(i) => i < self.pairs().len() && self.pairs()[i as int].0 == key@
                    && forall|j: int| 0 <= j < i ==> #[trigger] self.pairs()[j].0 != key@,
                None => forall|i: int| 0 <= i < self.pairs().len() ==> #[trigger] self.pairs()[i].0 != key@,
            },
    {
        let k = crate::text::owned(key);
        let mut i: usize = 0;
        while i < self.entries.len()
            invariant
                i <= self.entries.len(),
                k@ == key@,
                forall|j: int| 0 <= j < i ==> #[trigger] self.pairs()[j].0 != key@,
            decreases self.entries.len() - i,
        {
            if self.entries[i].0 == k {
                return Some(i);
            }
            i = i + 1;
        }
        None
    }

    /// The value stored for `key`, if any.
    pub fn get(&self, key: &str) -> (r: Option<&V>)
        ensures
            r matches Some(v) ==> self.at(key@) == Some(*v),
            r is None ==> self.at(key@) is None,
    {
        match self.position(key) {
            Some(i) => {
                proof { lemma_lookup_index(self.pairs(), i as int, key@); }
                Some(&self.entries[i].1)
            },
            None => {
                proof { lemma_lookup_absent(self.pairs(), key@); }
                None
            },
        }
    }

    /// Whether `key` has an entry.
    pub fn contains_key(&self, key: &str) -> (b: bool)
        ensures
            b == (self.at(key@) is Some),
    {
        self.get(key).is_some()
    }

    /// The key of the entry at position `i` (ascending order).
    pub fn key_at(&self, i: usize) -> (k: &String)
        requires
            i < self.pairs().len(),
        ensures
            k@ == self.pairs()[i as int].0,
    {
        &self.entries[i].0
    }

    /// The value of the entry at position `i` (ascending order).
    pub fn value_at(&self, i: usize) -> (v: &V)
        requires
            i < self.pairs().len(),
        ensures
            *v == self.pairs()[i as int].1,
    {
        &self.entries[i].1
    }
}

pub proof fn lemma_lookup_index<V>(s: Seq<(Seq<char>, V)>, i: int, k: Seq<char>)
    requires
        0 <= i < s.len(),
        s[i].0 == k,
        forall|j: int| 0 <= j < i ==> #[trigger] s[j].0 != k,
    ensures
        lookup(s, k) == Some(s[i].1),
    decreases i,
{
    if i > 0 {
        assert forall|j: int| 0 <= j < i - 1 implies #[trigger] s.drop_first()[j].0 != k by {
            assert(s.drop_first()[j] == s[j + 1]);
        }
        lemma_lookup_index(s.drop_first(), i - 1, k);
    }
}

pub proof fn lemma_lookup_absent<V>(s: Seq<(Seq<char>, V)>, k: Seq<char>)
    requires
        forall|j: int| 0 <= j < s.len() ==> #[trigger] s[j].0 != k,
    ensures
        lookup(s, k) is None,
    decreases s.len(),
{
    if s.len() > 0 {
        assert forall|j: int| 0 <= j < s.len() - 1 implies #[trigger] s.drop_first()[j].0 != k by {
            assert(s.drop_first()[j] == s[j + 1]);
        }
        lemma_lookup_absent(s.drop_first(), k);
    }
}

/// In an ascending map, the key at position `i` looks up the value at `i`.
pub proof fn lemma_lookup_ascending<V>(s: Seq<(Seq<char>, V)>, i: int)
    requires
        ascending(s),
        0 <= i < s.len(),
    ensures
        lookup(s, s[i].0) == Some(s[i].1),
{
    assert forall|j: int| 0 <= j < i implies #[trigger] s[j].0 != s[i].0 by {
        lemma_text_lt_irreflexive(s[i].0);
    }
    lemma_lookup_index(s, i, s[i].0);
}

/// Whether `a` sorts strictly before `b`.
pub fn text_less(a: &String, b: &String) -> (r: bool)
    ensures
        r == text_lt(a@, b@),
{
    let x = crate::text::str_chars(a.as_str());
    let y = crate::text::str_chars(b.as_str());
    let mut i: usize = 0;
    assert(x@.skip(0) =~= x@);
    assert(y@.skip(0) =~= y@);
    while i < x.len() && i < y.len() && x[i] == y[i]
        invariant
            i <= x.len(),
            i <= y.len(),
            x@ == a@,
            y@ == b@,
            text_lt(a@, b@) == text_lt(x@.skip(i as int), y@.skip(i as int)),
        decreases x.len() - i,
    {
        assert(x@.skip(i as int).drop_first() =~= x@.skip(i + 1));
        assert(y@.skip(i as int).drop_first() =~= y@.skip(i + 1));
        i = i + 1;
    }
    if i == y.len() {
        false
    } else if i == x.len() {
        true
    } else {
        assert(x@.skip(i as int)[0] == x@[i as int]);
        assert(y@.skip(i as int)[0] == y@[i as int]);
        (x[i] as u32) < (y[i] as u32)
    }
}

/// Copies a map whose values are copyable.
pub fn copy_text_map<V: Copy>(m: &TextMap<V>) -> (r: TextMap<V>)
    ensures
        r.pairs() == m.pairs(),
{
    let mut entries: Vec<(String, V)> = Vec::new();
    let mut i: usize = 0;
    while i < m.entries.len()
        invariant
            i <= m.entries.len(),
            entries@.len() == i,
            entry_views(entries@) == entry_views(m.entries@).take(i as int),
        decreases m.entries.len() - i,
    {
        let e = (copy_string(&m.entries[i].0), m.entries[i].1);
        let ghost before = entry_views(entries@);
        entries.push(e);
        assert(entry_views(entries@) =~= before.push((e.0@, e.1)));
        i = i + 1;
        assert(entry_views(entries@) =~= entry_views(m.entries@).take(i as int));
    }
    assert(entry_views(m.entries@).take(m.entries.len() as int) =~= entry_views(m.entries@));
    TextMap { entries }
}

/// Copies a map of text values.
pub fn copy_text_map_strings(m: &TextMap<String>) -> (r: TextMap<String>)
    ensures
        r.pairs() == m.pairs(),
{
    let mut entries: Vec<(String, String)> = Vec::new();
    let mut i: usize = 0;
    while i < m.entries.len()
        invariant
            i <= m.entries.len(),
            entries@.len() == i,
            forall|j: int| 0 <= j < i ==> #[trigger] entries@[j] == m.entries@[j],
        decreases m.entries.len() - i,
    {
        let e = (copy_string(&m.entries[i].0), copy_string(&m.entries[i].1));
        entries.push(e);
        i = i + 1;
    }
    assert(entries@ =~= m.entries@);
    let r = TextMap { entries };
    assert(r.pairs() =~= m.pairs());
    r
}

} // verus!
