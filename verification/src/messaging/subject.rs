//! Shared subject-language primitives for FABRIC declarations and placement.
//!
//! A subject is a dotted sequence of non-empty tokens (`tenant.orders.eu`).
//! A pattern may additionally use `*` (any one token) and a terminal `>`
//! (one or more trailing tokens).

use vstd::prelude::*;
use crate::text::{chars_string, copy_string, joined, owned, push_char, str_chars};

verus! {

// ---------------------------------------------------------------------------
// Character classes and trimming
// ---------------------------------------------------------------------------

/// Unicode `White_Space` characters.
pub open spec fn is_ws(c: char) -> bool {
    let u = c as u32;
    ||| 9 <= u <= 13
    ||| u == 32
    ||| u == 0x85
    ||| u == 0xA0
    ||| u == 0x1680
    ||| 0x2000 <= u <= 0x200A
    ||| u == 0x2028
    ||| u == 0x2029
    ||| u == 0x202F
    ||| u == 0x205F
    ||| u == 0x3000
}

/// Whether a character is whitespace: a member of the Unicode
/// `White_Space` property, as `char::is_whitespace` answers.
pub fn char_is_whitespace(c: char) -> (r: bool)
    ensures
        r == is_ws(c),
{
    let u = c as u32;
    (9 <= u && u <= 13) || u == 32 || u == 0x85 || u == 0xA0 || u == 0x1680
        || (0x2000 <= u && u <= 0x200A) || u == 0x2028 || u == 0x2029 || u == 0x202F
        || u == 0x205F || u == 0x3000
}

/// `s` without leading whitespace.
pub open spec fn trim_start(s: Seq<char>) -> Seq<char>
    decreases s.len(),
{
    if s.len() > 0 && is_ws(s[0]) {
        trim_start(s.drop_first())
    } else {
        s
    }
}

/// `s` without trailing whitespace.
pub open spec fn trim_end(s: Seq<char>) -> Seq<char>
    decreases s.len(),
{
    if s.len() > 0 && is_ws(s.last()) {
        trim_end(s.drop_last())
    } else {
        s
    }
}

/// `s` without leading or trailing whitespace.
pub open spec fn trimmed(s: Seq<char>) -> Seq<char> {
    trim_end(trim_start(s))
}

/// Whether some character of `s` is whitespace.
pub open spec fn has_ws(s: Seq<char>) -> bool {
    exists|i: int| 0 <= i < s.len() && is_ws(#[trigger] s[i])
}

/// The pieces of `s` between `.` separators (always at least one piece).
pub open spec fn split_dots(s: Seq<char>) -> Seq<Seq<char>>
    decreases s.len(),
{
    if s.len() == 0 {
        seq![Seq::<char>::empty()]
    } else {
        let rest = split_dots(s.drop_last());
        if s.last() == '.' {
            rest.push(Seq::<char>::empty())
        } else {
            rest.update(rest.len() - 1, rest.last().push(s.last()))
        }
    }
}

proof fn lemma_split_nonempty(s: Seq<char>)
    ensures
        split_dots(s).len() >= 1,
    decreases s.len(),
{
    if s.len() > 0 {
        lemma_split_nonempty(s.drop_last());
    }
}

// ---------------------------------------------------------------------------
// Tokens
// ---------------------------------------------------------------------------

/// Canonical subject token used for routing and matching.
#[derive(Debug, Clone, PartialOrd, Ord, Hash)]
pub enum SubjectToken {
    /// Literal subject segment.
    Literal(String),
    /// Single-segment wildcard (`*`).
    One,
    /// Tail wildcard (`>`), which must be terminal.
    Tail,
}

/// Mathematical value of a [`SubjectToken`].
pub enum Tok {
    /// A literal segment with these characters.
    Lit(Seq<char>),
    /// `*`
    One,
    /// `>`
    Tail,
}

impl View for SubjectToken {
    type V = Tok;

    open spec fn view(&self) -> Tok {
        match self {
            SubjectToken::Literal(s) => Tok::Lit(s@),
            SubjectToken::One => Tok::One,
            SubjectToken::Tail => Tok::Tail,
        }
    }
}

/// Views of a sequence of tokens.
pub open spec fn toks(v: Seq<SubjectToken>) -> Seq<Tok> {
    v.map_values(|t: SubjectToken| t@)
}

/// Text of one token.
pub open spec fn tok_text(t: Tok) -> Seq<char> {
    match t {
        Tok::Lit(s) => s,
        Tok::One => seq!['*'],
        Tok::Tail => seq!['>'],
    }
}

/// Canonical dotted text of a token sequence.
pub open spec fn canonical(t: Seq<Tok>) -> Seq<char> {
    joined(t.map_values(|x: Tok| tok_text(x)), seq!['.'])
}

impl PartialEq for SubjectToken {
    fn eq(&self, other: &Self) -> (r: bool) {
        match (self, other) {
            (SubjectToken::Literal(a), SubjectToken::Literal(b)) => *a == *b,
            (SubjectToken::One, SubjectToken::One) => true,
            (SubjectToken::Tail, SubjectToken::Tail) => true,
            _ => false,
        }
    }
}

impl vstd::std_specs::cmp::PartialEqSpecImpl for SubjectToken {
    open spec fn obeys_eq_spec() -> bool {
        true
    }

    open spec fn eq_spec(&self, other: &SubjectToken) -> bool {
        self@ == other@
    }
}

impl Eq for SubjectToken {}

impl SubjectToken {
    /// The token's text (`*`, `>`, or the literal itself).
    pub fn to_string(&self) -> (r: String)
        ensures
            r@ == tok_text(self@),
    {
        match self {
            SubjectToken::Literal(s) => copy_string(s),
            SubjectToken::One => {
                let mut r = String::new();
                push_char(&mut r, '*');
                r
            },
            SubjectToken::Tail => {
                let mut r = String::new();
                push_char(&mut r, '>');
                r
            },
        }
    }
}

pub(crate) fn copy_token(t: &SubjectToken) -> (r: SubjectToken)
    ensures
        r@ == t@,
{
    match t {
        SubjectToken::Literal(s) => SubjectToken::Literal(copy_string(s)),
        SubjectToken::One => SubjectToken::One,
        SubjectToken::Tail => SubjectToken::Tail,
    }
}

fn copy_tokens(v: &Vec<SubjectToken>) -> (r: Vec<SubjectToken>)
    ensures
        toks(r@) == toks(v@),
{
    let mut r: Vec<SubjectToken> = Vec::new();
    let mut i: usize = 0;
    while i < v.len()
        invariant
            i <= v.len(),
            r@.len() == i,
            toks(r@) == toks(v@).take(i as int),
        decreases v.len() - i,
    {
        let t = copy_token(&v[i]);
        let ghost old_r = r@;
        r.push(t);
        proof {
            assert(r@ == old_r.push(t));
            assert forall|j: int| 0 <= j < i + 1 implies #[trigger] toks(r@)[j] == toks(v@)[j] by {
                if j < i {
                    assert(toks(old_r)[j] == toks(v@).take(i as int)[j]);
                }
            }
        }
        i = i + 1;
        assert(toks(r@) =~= toks(v@).take(i as int));
    }
    assert(toks(v@).take(v.len() as int) =~= toks(v@));
    r
}

// ---------------------------------------------------------------------------
// Errors
// ---------------------------------------------------------------------------

/// Errors produced while parsing subject patterns or concrete subjects.
#[derive(Debug, Clone)]
pub enum SubjectPatternError {
    /// The parsed subject contained no non-empty segments.
    EmptyPattern,
    /// Empty path segments such as `a..b` are not legal subject syntax.
    EmptySegment,
    /// Whitespace inside a token would make canonical matching ambiguous.
    WhitespaceInSegment(String),
    /// A tail wildcard appeared anywhere other than the final segment.
    TailWildcardMustBeTerminal,
    /// More than one terminal tail wildcard was present.
    MultipleTailWildcards,
    /// A literal segment embedded wildcard characters rather than being a pure token.
    EmbeddedWildcard(String),
    /// Prefix morphisms only permit exact literal segment rewrites.
    LiteralOnlyPatternRequired(String),
    /// Concrete subjects cannot carry wildcard tokens.
    WildcardsNotAllowed(String),
}

/// Mathematical value of a [`SubjectPatternError`].
pub enum Fault {
    EmptyPattern,
    EmptySegment,
    WhitespaceInSegment(Seq<char>),
    TailWildcardMustBeTerminal,
    MultipleTailWildcards,
    EmbeddedWildcard(Seq<char>),
    LiteralOnlyPatternRequired(Seq<char>),
    WildcardsNotAllowed(Seq<char>),
}

impl View for SubjectPatternError {
    type V = Fault;

    open spec fn view(&self) -> Fault {
        match self {
            SubjectPatternError::EmptyPattern => Fault::EmptyPattern,
            SubjectPatternError::EmptySegment => Fault::EmptySegment,
            SubjectPatternError::WhitespaceInSegment(s) => Fault::WhitespaceInSegment(s@),
            SubjectPatternError::TailWildcardMustBeTerminal => Fault::TailWildcardMustBeTerminal,
            SubjectPatternError::MultipleTailWildcards => Fault::MultipleTailWildcards,
            SubjectPatternError::EmbeddedWildcard(s) => Fault::EmbeddedWildcard(s@),
            SubjectPatternError::LiteralOnlyPatternRequired(s) => Fault::LiteralOnlyPatternRequired(s@),
            SubjectPatternError::WildcardsNotAllowed(s) => Fault::WildcardsNotAllowed(s@),
        }
    }
}

impl PartialEq for SubjectPatternError {
    fn eq(&self, other: &Self) -> (r: bool) {
        match (self, other) {
            (SubjectPatternError::EmptyPattern, SubjectPatternError::EmptyPattern) => true,
            (SubjectPatternError::EmptySegment, SubjectPatternError::EmptySegment) => true,
            (SubjectPatternError::WhitespaceInSegment(a), SubjectPatternError::WhitespaceInSegment(b)) => *a == *b,
            (SubjectPatternError::TailWildcardMustBeTerminal, SubjectPatternError::TailWildcardMustBeTerminal) => true,
            (SubjectPatternError::MultipleTailWildcards, SubjectPatternError::MultipleTailWildcards) => true,
            (SubjectPatternError::EmbeddedWildcard(a), SubjectPatternError::EmbeddedWildcard(b)) => *a == *b,
            (SubjectPatternError::LiteralOnlyPatternRequired(a), SubjectPatternError::LiteralOnlyPatternRequired(b)) => *a == *b,
            (SubjectPatternError::WildcardsNotAllowed(a), SubjectPatternError::WildcardsNotAllowed(b)) => *a == *b,
            _ => false,
        }
    }
}

impl vstd::std_specs::cmp::PartialEqSpecImpl for SubjectPatternError {
    open spec fn obeys_eq_spec() -> bool {
        true
    }

    open spec fn eq_spec(&self, other: &SubjectPatternError) -> bool {
        self@ == other@
    }
}

impl Eq for SubjectPatternError {}

/// Message text of a parse failure.
pub open spec fn fault_text(f: Fault) -> Seq<char> {
    match f {
        Fault::EmptyPattern => "subject pattern must contain at least one segment"@,
        Fault::EmptySegment => "subject pattern must not contain empty segments"@,
        Fault::WhitespaceInSegment(x) => "subject segment `"@ + x + "` must not contain whitespace"@,
        Fault::TailWildcardMustBeTerminal => "tail wildcard `>` must be terminal"@,
        Fault::MultipleTailWildcards => "subject pattern may not contain more than one tail wildcard"@,
        Fault::EmbeddedWildcard(x) => "literal segment `"@ + x + "` embeds wildcard characters"@,
        Fault::LiteralOnlyPatternRequired(x) => "pattern `"@ + x + "` must contain only literal segments for prefix morphisms"@,
        Fault::WildcardsNotAllowed(x) => "subject `"@ + x + "` must not contain wildcard tokens"@,
    }
}

fn quoted_text(before: &str, x: &String, after: &str) -> (r: String)
    ensures
        r@ == before@ + x@ + after@,
{
    let mut r = owned(before);
    crate::text::push_str(&mut r, x.as_str());
    crate::text::push_str(&mut r, after);
    r
}

impl SubjectPatternError {
    /// The failure's message text.
    pub fn to_string(&self) -> (r: String)
        ensures
            r@ == fault_text(self@),
    {
        match self {
            SubjectPatternError::EmptyPattern => owned("subject pattern must contain at least one segment"),
            SubjectPatternError::EmptySegment => owned("subject pattern must not contain empty segments"),
            SubjectPatternError::WhitespaceInSegment(x) => quoted_text("subject segment `", x, "` must not contain whitespace"),
            SubjectPatternError::TailWildcardMustBeTerminal => owned("tail wildcard `>` must be terminal"),
            SubjectPatternError::MultipleTailWildcards => owned("subject pattern may not contain more than one tail wildcard"),
            SubjectPatternError::EmbeddedWildcard(x) => quoted_text("literal segment `", x, "` embeds wildcard characters"),
            SubjectPatternError::LiteralOnlyPatternRequired(x) => quoted_text("pattern `", x, "` must contain only literal segments for prefix morphisms"),
            SubjectPatternError::WildcardsNotAllowed(x) => quoted_text("subject `", x, "` must not contain wildcard tokens"),
        }
    }
}

// ---------------------------------------------------------------------------
// Parsing specification
// ---------------------------------------------------------------------------

/// How one dotted segment classifies.
pub open spec fn classify(seg: Seq<char>) -> Result<Tok, Fault> {
    if seg.len() == 0 {
        Err(Fault::EmptySegment)
    } else if has_ws(seg) {
        Err(Fault::WhitespaceInSegment(seg))
    } else if seg == seq!['*'] {
        Ok(Tok::One)
    } else if seg == seq!['>'] {
        Ok(Tok::Tail)
    } else if seg.contains('*') || seg.contains('>') {
        Err(Fault::EmbeddedWildcard(seg))
    } else {
        Ok(Tok::Lit(seg))
    }
}

/// Classifies segments in order, stopping at the first faulty one.
pub open spec fn scan(segs: Seq<Seq<char>>) -> Result<Seq<Tok>, Fault>
    decreases segs.len(),
{
    if segs.len() == 0 {
        Ok(Seq::empty())
    } else {
        match scan(segs.drop_last()) {
            Err(e) => Err(e),
            Ok(t) => match classify(segs.last()) {
                Err(e) => Err(e),
                Ok(x) => Ok(t.push(x)),
            },
        }
    }
}

/// Number of tail wildcards in a token sequence.
pub open spec fn tail_count(t: Seq<Tok>) -> nat
    decreases t.len(),
{
    if t.len() == 0 {
        0
    } else {
        tail_count(t.drop_last()) + if t.last() is Tail { 1nat } else { 0nat }
    }
}

/// The structural fault of a token sequence, if any.
pub open spec fn token_fault(t: Seq<Tok>) -> Option<Fault> {
    if t.len() == 0 {
        Some(Fault::EmptyPattern)
    } else if tail_count(t) > 1 {
        Some(Fault::MultipleTailWildcards)
    } else if exists|i: int| 0 <= i < t.len() - 1 && #[trigger] t[i] is Tail {
        Some(Fault::TailWildcardMustBeTerminal)
    } else {
        None
    }
}

/// Result of parsing raw text as a subject pattern.
pub open spec fn parse_pattern(raw: Seq<char>) -> Result<Seq<Tok>, Fault> {
    let t = trimmed(raw);
    if t.len() == 0 {
        Err(Fault::EmptyPattern)
    } else {
        match scan(split_dots(t)) {
            Err(e) => Err(e),
            Ok(x) => match token_fault(x) {
                Some(e) => Err(e),
                None => Ok(x),
            },
        }
    }
}

/// Whether any token is a wildcard.
pub open spec fn has_wildcard(t: Seq<Tok>) -> bool {
    exists|i: int| 0 <= i < t.len() && !(#[trigger] t[i] is Lit)
}

/// Whether pattern tokens `p` match concrete subject tokens `s`.
pub open spec fn matches_toks(p: Seq<Tok>, s: Seq<Seq<char>>) -> bool
    decreases p.len(),
{
    if p.len() == 0 {
        s.len() == 0
    } else if s.len() == 0 {
        false
    } else {
        match p[0] {
            Tok::Tail => true,
            Tok::One => matches_toks(p.drop_first(), s.drop_first()),
            Tok::Lit(x) => x == s[0] && matches_toks(p.drop_first(), s.drop_first()),
        }
    }
}

/// Whether two single tokens can match a common segment.
pub open spec fn can_match(a: Tok, b: Tok) -> bool {
    match (a, b) {
        (Tok::Lit(x), Tok::Lit(y)) => x == y,
        _ => true,
    }
}

/// Whether two patterns can match at least one common subject.
pub open spec fn overlaps_toks(l: Seq<Tok>, r: Seq<Tok>) -> bool
    decreases l.len(),
{
    if l.len() == 0 && r.len() == 0 {
        true
    } else if l.len() == 0 || r.len() == 0 {
        false
    } else if l[0] is Tail || r[0] is Tail {
        true
    } else if can_match(l[0], r[0]) {
        overlaps_toks(l.drop_first(), r.drop_first())
    } else {
        false
    }
}


// ---------------------------------------------------------------------------
// Parsing implementation
// ---------------------------------------------------------------------------

/// Views of a sequence of character vectors.
pub open spec fn segs_view(v: Seq<Vec<char>>) -> Seq<Seq<char>> {
    v.map_values(|x: Vec<char>| x@)
}

/// Bounds `(lo, hi)` of `v` with surrounding whitespace removed.
/// The text with surrounding whitespace removed.
pub fn trim_text(raw: &str) -> (r: String)
    ensures
        r@ == trimmed(raw@),
{
    let v = crate::text::str_chars(raw);
    let (lo, hi) = trim_bounds(&v);
    let mut r = String::new();
    let mut i = lo;
    while i < hi
        invariant
            lo <= i <= hi <= v.len(),
            r@ == v@.subrange(lo as int, i as int),
        decreases hi - i,
    {
        crate::text::push_char(&mut r, v[i]);
        assert(v@.subrange(lo as int, i + 1) =~= v@.subrange(lo as int, i as int).push(v@[i as int]));
        i = i + 1;
    }
    r
}

fn trim_bounds(v: &Vec<char>) -> (r: (usize, usize))
    ensures
        r.0 <= r.1 <= v.len(),
        trimmed(v@) == v@.subrange(r.0 as int, r.1 as int),
{
    let n = v.len();
    let mut lo: usize = 0;
    assert(v@.subrange(0, n as int) =~= v@);
    while lo < n && char_is_whitespace(v[lo])
        invariant
            lo <= n,
            n == v.len(),
            trim_start(v@) == trim_start(v@.subrange(lo as int, n as int)),
        decreases n - lo,
    {
        assert(v@.subrange(lo as int, n as int).drop_first() =~= v@.subrange(lo + 1, n as int));
        lo = lo + 1;
    }
    assert(trim_start(v@) == v@.subrange(lo as int, n as int));
    let mut hi: usize = n;
    while hi > lo && char_is_whitespace(v[hi - 1])
        invariant
            lo <= hi <= n,
            n == v.len(),
            trim_start(v@) == v@.subrange(lo as int, n as int),
            trimmed(v@) == trim_end(v@.subrange(lo as int, hi as int)),
        decreases hi,
    {
        assert(v@.subrange(lo as int, hi as int).drop_last() =~= v@.subrange(lo as int, hi - 1));
        hi = hi - 1;
    }
    (lo, hi)
}

/// Splits `v[lo..hi]` at `.` characters.
fn split_segments(v: &Vec<char>, lo: usize, hi: usize) -> (r: Vec<Vec<char>>)
    requires
        lo <= hi <= v.len(),
    ensures
        segs_view(r@) == split_dots(v@.subrange(lo as int, hi as int)),
{
    let ghost t = v@.subrange(lo as int, hi as int);
    let mut segs: Vec<Vec<char>> = Vec::new();
    let mut cur: Vec<char> = Vec::new();
    let mut k: usize = lo;
    assert(t.take(0) =~= Seq::<char>::empty());
    assert(segs_view(segs@).push(cur@) =~= seq![Seq::<char>::empty()]);
    while k < hi
        invariant
            lo <= k <= hi <= v.len(),
            t == v@.subrange(lo as int, hi as int),
            split_dots(t.take(k - lo)) == segs_view(segs@).push(cur@),
        decreases hi - k,
    {
        let c = v[k];
        assert(t.take(k + 1 - lo).drop_last() =~= t.take(k - lo));
        assert(t.take(k + 1 - lo).last() == c);
        if c == '.' {
            let ghost before = segs_view(segs@);
            let done = cur;
            segs.push(done);
            cur = Vec::new();
            assert(segs_view(segs@) =~= before.push(done@));
            assert(segs_view(segs@).push(cur@) =~= before.push(done@).push(Seq::<char>::empty()));
        } else {
            let ghost before = segs_view(segs@);
            let ghost old_cur = cur@;
            cur.push(c);
            assert(segs_view(segs@).push(cur@) =~= before.push(old_cur).update(before.len() as int, old_cur.push(c)));
        }
        k = k + 1;
    }
    assert(t.take(hi - lo) =~= t);
    let ghost before = segs_view(segs@);
    segs.push(cur);
    assert(segs_view(segs@) =~= before.push(cur@));
    segs
}

fn vec_has_ws(seg: &Vec<char>) -> (r: bool)
    ensures
        r == has_ws(seg@),
{
    let mut i: usize = 0;
    while i < seg.len()
        invariant
            i <= seg.len(),
            forall|j: int| 0 <= j < i ==> !is_ws(#[trigger] seg@[j]),
        decreases seg.len() - i,
    {
        if char_is_whitespace(seg[i]) {
            return true;
        }
        i = i + 1;
    }
    false
}

fn vec_contains(seg: &Vec<char>, c: char) -> (r: bool)
    ensures
        r == seg@.contains(c),
{
    let mut i: usize = 0;
    while i < seg.len()
        invariant
            i <= seg.len(),
            forall|j: int| 0 <= j < i ==> #[trigger] seg@[j] != c,
        decreases seg.len() - i,
    {
        if seg[i] == c {
            return true;
        }
        i = i + 1;
    }
    false
}

fn classify_segment(seg: &Vec<char>) -> (r: Result<SubjectToken, SubjectPatternError>)
    ensures
        match r {
            Ok(t) => classify(seg@) == Ok::<Tok, Fault>(t@),
            Err(e) => classify(seg@) == Err::<Tok, Fault>(e@),
        },
{
    if seg.len() == 0 {
        return Err(SubjectPatternError::EmptySegment);
    }
    if vec_has_ws(seg) {
        return Err(SubjectPatternError::WhitespaceInSegment(chars_string(seg.as_slice())));
    }
    if seg.len() == 1 && seg[0] == '*' {
        assert(seg@ =~= seq!['*']);
        return Ok(SubjectToken::One);
    }
    if seg.len() == 1 && seg[0] == '>' {
        assert(seg@ =~= seq!['>']);
        return Ok(SubjectToken::Tail);
    }
    assert(seg@ != seq!['*'] && seg@ != seq!['>']) by {
        if seg@ == seq!['*'] { assert(seg@[0] == '*'); }
        if seg@ == seq!['>'] { assert(seg@[0] == '>'); }
    }
    if vec_contains(seg, '*') || vec_contains(seg, '>') {
        return Err(SubjectPatternError::EmbeddedWildcard(chars_string(seg.as_slice())));
    }
    Ok(SubjectToken::Literal(chars_string(seg.as_slice())))
}

proof fn lemma_scan_prefix_err(s: Seq<Seq<char>>, j: int)
    requires
        0 <= j <= s.len(),
        scan(s.take(j)) is Err,
    ensures
        scan(s) == scan(s.take(j)),
    decreases s.len(),
{
    if j == s.len() {
        assert(s.take(j) =~= s);
    } else {
        assert(s.drop_last().take(j) =~= s.take(j));
        lemma_scan_prefix_err(s.drop_last(), j);
    }
}

/// Classifies every segment, returning the first fault.
fn scan_segments(segs: &Vec<Vec<char>>) -> (r: Result<Vec<SubjectToken>, SubjectPatternError>)
    ensures
        match r {
            Ok(v) => scan(segs_view(segs@)) == Ok::<Seq<Tok>, Fault>(toks(v@)),
            Err(e) => scan(segs_view(segs@)) == Err::<Seq<Tok>, Fault>(e@),
        },
{
    let ghost sv = segs_view(segs@);
    let mut out: Vec<SubjectToken> = Vec::new();
    let mut i: usize = 0;
    assert(sv.take(0) =~= Seq::<Seq<char>>::empty());
    assert(toks(out@) =~= Seq::<Tok>::empty());
    while i < segs.len()
        invariant
            i <= segs.len(),
            sv == segs_view(segs@),
            out@.len() == i,
            scan(sv.take(i as int)) == Ok::<Seq<Tok>, Fault>(toks(out@)),
        decreases segs.len() - i,
    {
        assert(sv.take(i + 1).drop_last() =~= sv.take(i as int));
        assert(sv.take(i + 1).last() == segs@[i as int]@);
        match classify_segment(&segs[i]) {
            Ok(t) => {
                let ghost old_out = out@;
                out.push(t);
                assert(toks(out@) =~= toks(old_out).push(t@));
            },
            Err(e) => {
                proof { lemma_scan_prefix_err(sv, i + 1); }
                return Err(e);
            },
        }
        i = i + 1;
    }
    assert(sv.take(segs.len() as int) =~= sv);
    Ok(out)
}

fn is_tail(t: &SubjectToken) -> (r: bool)
    ensures
        r == (t@ is Tail),
{
    match t {
        SubjectToken::Tail => true,
        _ => false,
    }
}

fn is_literal(t: &SubjectToken) -> (r: bool)
    ensures
        r == (t@ is Lit),
{
    match t {
        SubjectToken::Literal(_) => true,
        _ => false,
    }
}

/// Checks the structural rules of a token sequence.
fn validate_pattern_tokens(segments: &Vec<SubjectToken>) -> (r: Result<(), SubjectPatternError>)
    ensures
        match r {
            Ok(_) => token_fault(toks(segments@)) is None,
            Err(e) => token_fault(toks(segments@)) == Some(e@),
        },
{
    let ghost t = toks(segments@);
    if segments.len() == 0 {
        return Err(SubjectPatternError::EmptyPattern);
    }
    let mut count: usize = 0;
    let mut i: usize = 0;
    while i < segments.len()
        invariant
            i <= segments.len(),
            t == toks(segments@),
            count == tail_count(t.take(i as int)),
            count <= i,
        decreases segments.len() - i,
    {
        assert(t.take(i + 1).drop_last() =~= t.take(i as int));
        if is_tail(&segments[i]) {
            count = count + 1;
        }
        i = i + 1;
    }
    assert(t.take(segments.len() as int) =~= t);
    if count > 1 {
        return Err(SubjectPatternError::MultipleTailWildcards);
    }
    let mut j: usize = 0;
    while j + 1 < segments.len()
        invariant
            j + 1 <= segments.len(),
            t == toks(segments@),
            t.len() == segments.len(),
            tail_count(t) <= 1,
            forall|k: int| 0 <= k < j ==> !(#[trigger] t[k] is Tail),
        decreases segments.len() - j,
    {
        if is_tail(&segments[j]) {
            assert(t[j as int] is Tail);
            return Err(SubjectPatternError::TailWildcardMustBeTerminal);
        }
        j = j + 1;
    }
    assert(!(exists|k: int| 0 <= k < t.len() - 1 && #[trigger] t[k] is Tail));
    Ok(())
}

/// Text of every token.
fn token_texts(segments: &Vec<SubjectToken>) -> (r: Vec<String>)
    ensures
        r.deep_view() == toks(segments@).map_values(|x: Tok| tok_text(x)),
{
    let ghost target = toks(segments@).map_values(|x: Tok| tok_text(x));
    let mut r: Vec<String> = Vec::new();
    let mut i: usize = 0;
    while i < segments.len()
        invariant
            i <= segments.len(),
            r@.len() == i,
            target == toks(segments@).map_values(|x: Tok| tok_text(x)),
            r.deep_view() == target.take(i as int),
        decreases segments.len() - i,
    {
        let s = segments[i].to_string();
        let ghost old_dv = r.deep_view();
        r.push(s);
        assert(r.deep_view() =~= old_dv.push(s@));
        i = i + 1;
        assert(r.deep_view() =~= target.take(i as int));
    }
    assert(target.take(segments.len() as int) =~= target);
    r
}

/// The canonical dotted text of a token sequence.
fn canonicalize_tokens(segments: &Vec<SubjectToken>) -> (r: String)
    ensures
        r@ == canonical(toks(segments@)),
{
    let texts = token_texts(segments);
    let mut sep = String::new();
    push_char(&mut sep, '.');
    assert(sep@ =~= seq!['.']);
    crate::text::join(&texts, sep.as_str())
}

/// Tokenizes and checks raw pattern text.
fn parse_pattern_tokens(raw: &str) -> (r: Result<Vec<SubjectToken>, SubjectPatternError>)
    ensures
        match r {
            Ok(v) => parse_pattern(raw@) == Ok::<Seq<Tok>, Fault>(toks(v@)),
            Err(e) => parse_pattern(raw@) == Err::<Seq<Tok>, Fault>(e@),
        },
{
    let chars = str_chars(raw);
    let (lo, hi) = trim_bounds(&chars);
    if lo == hi {
        return Err(SubjectPatternError::EmptyPattern);
    }
    let segs = split_segments(&chars, lo, hi);
    let segments = scan_segments(&segs)?;
    validate_pattern_tokens(&segments)?;
    Ok(segments)
}


// ---------------------------------------------------------------------------
// Patterns and subjects
// ---------------------------------------------------------------------------

/// Parsed subject pattern with NATS-style wildcard support.
#[derive(Debug, PartialOrd, Ord, Hash)]
pub struct SubjectPattern {
    raw: String,
    segments: Vec<SubjectToken>,
}

impl SubjectPattern {
    /// The pattern's tokens.
    pub closed spec fn tokens(self) -> Seq<Tok> {
        toks(self.segments@)
    }

    /// The pattern's canonical text.
    pub closed spec fn text(self) -> Seq<char> {
        self.raw@
    }

    /// Well-formed: the tokens obey the structural rules and the text is
    /// their canonical dotted form. Every pattern is well-formed.
    #[verifier::type_invariant]
    pub open spec fn wf(self) -> bool {
        &&& token_fault(self.tokens()) is None
        &&& self.text() == canonical(self.tokens())
    }

    /// Construct a validated subject pattern from the canonical dotted
    /// representation.
    pub fn new(pattern: &str) -> (p: Self)
        requires
            parse_pattern(pattern@) is Ok,
        ensures
            p.wf(),
            parse_pattern(pattern@) == Ok::<Seq<Tok>, Fault>(p.tokens()),
    {
        match Self::parse(pattern) {
            Ok(p) => p,
            Err(_) => {
                assert(false);
                Self::default()
            },
        }
    }

    /// Parse and canonicalize a subject pattern.
    pub fn parse(raw: &str) -> (r: Result<Self, SubjectPatternError>)
        ensures
            match r {
                Ok(p) => p.wf() && parse_pattern(raw@) == Ok::<Seq<Tok>, Fault>(p.tokens()),
                Err(e) => parse_pattern(raw@) == Err::<Seq<Tok>, Fault>(e@),
            },
    {
        let segments = parse_pattern_tokens(raw)?;
        Self::from_tokens(segments)
    }

    /// Build a pattern from already-tokenized segments.
    pub fn from_tokens(segments: Vec<SubjectToken>) -> (r: Result<Self, SubjectPatternError>)
        ensures
            match r {
                Ok(p) => p.wf() && p.tokens() == toks(segments@),
                Err(e) => token_fault(toks(segments@)) == Some(e@),
            },
    {
        validate_pattern_tokens(&segments)?;
        let raw = canonicalize_tokens(&segments);
        Ok(SubjectPattern { raw, segments })
    }

    /// Return the canonical dotted subject string.
    pub fn as_str(&self) -> (r: &str)
        ensures
            r@ == self.text(),
    {
        self.raw.as_str()
    }

    /// Return a stable string key used for hashing and diagnostics.
    pub fn canonical_key(&self) -> (r: String)
        ensures
            r@ == self.text(),
    {
        copy_string(&self.raw)
    }

    /// Return the canonical pattern segments.
    pub fn segments(&self) -> (r: &[SubjectToken])
        ensures
            toks(r@) == self.tokens(),
    {
        self.segments.as_slice()
    }

    /// Return true when the pattern ends in a tail wildcard.
    pub fn is_full_wildcard(&self) -> (r: bool)
        ensures
            r == (self.tokens().len() > 0 && self.tokens().last() is Tail),
    {
        let n = self.segments.len();
        n > 0 && is_tail(&self.segments[n - 1])
    }

    /// Return true when the pattern contains any wildcard tokens.
    pub fn has_wildcards(&self) -> (r: bool)
        ensures
            r == has_wildcard(self.tokens()),
    {
        let ghost t = self.tokens();
        let mut i: usize = 0;
        while i < self.segments.len()
            invariant
                i <= self.segments.len(),
                t == toks(self.segments@),
                t.len() == self.segments.len(),
                forall|j: int| 0 <= j < i ==> #[trigger] t[j] is Lit,
            decreases self.segments.len() - i,
        {
            if !is_literal(&self.segments[i]) {
                assert(!(t[i as int] is Lit));
                return true;
            }
            i = i + 1;
        }
        false
    }

    /// Return true if this pattern matches the provided concrete subject.
    pub fn matches(&self, subject: &Subject) -> (r: bool)
        ensures
            r == matches_toks(self.tokens(), subject.parts()),
    {
        assert(subject.tokens@.map_values(|s: String| s@) =~= subject.parts());
        matches_subject_tokens(self.segments.as_slice(), subject.tokens.as_slice())
    }

    /// Return true if two patterns can match at least one common subject.
    pub fn overlaps(&self, other: &Self) -> (r: bool)
        ensures
            r == overlaps_toks(self.tokens(), other.tokens()),
    {
        overlaps_tokens(self.segments.as_slice(), other.segments.as_slice())
    }

    /// The canonical text as an owned string.
    pub fn to_string(&self) -> (r: String)
        ensures
            r@ == self.text(),
    {
        copy_string(&self.raw)
    }

    /// A copy of this pattern.
    pub fn duplicate(&self) -> (r: Self)
        ensures
            r.tokens() == self.tokens(),
            r.text() == self.text(),
    {
        proof { use_type_invariant(self); }
        SubjectPattern { raw: copy_string(&self.raw), segments: copy_tokens(&self.segments) }
    }
}

impl Clone for SubjectPattern {
    fn clone(&self) -> (r: Self)
        ensures
            r.tokens() == self.tokens(),
            r.text() == self.text(),
    {
        self.duplicate()
    }
}

impl Default for SubjectPattern {
    /// The pattern `fabric.default`.
    fn default() -> (p: Self)
        ensures
            p.wf(),
            p.tokens() == seq![Tok::Lit(seq!['f', 'a', 'b', 'r', 'i', 'c']), Tok::Lit(seq!['d', 'e', 'f', 'a', 'u', 'l', 't'])],
    {
        let a: [char; 6] = ['f', 'a', 'b', 'r', 'i', 'c'];
        let b: [char; 7] = ['d', 'e', 'f', 'a', 'u', 'l', 't'];
        let ta = SubjectToken::Literal(chars_string(&a));
        let tb = SubjectToken::Literal(chars_string(&b));
        let mut segments: Vec<SubjectToken> = Vec::new();
        segments.push(ta);
        segments.push(tb);
        let ghost t = toks(segments@);
        assert(t =~= seq![Tok::Lit(a@), Tok::Lit(b@)]);
        assert(t.drop_last().drop_last() =~= Seq::<Tok>::empty());
        assert(t.drop_last().last() == t[0]);
        assert(tail_count(t.drop_last().drop_last()) == 0);
        assert(tail_count(t.drop_last()) == 0);
        assert(tail_count(t) == 0);
        assert(t[0] is Lit && t[1] is Lit);
        let raw = canonicalize_tokens(&segments);
        SubjectPattern { raw, segments }
    }
}

impl PartialEq for SubjectPattern {
    fn eq(&self, other: &Self) -> (r: bool) {
        self.raw == other.raw
    }
}

impl vstd::std_specs::cmp::PartialEqSpecImpl for SubjectPattern {
    open spec fn obeys_eq_spec() -> bool {
        true
    }

    open spec fn eq_spec(&self, other: &SubjectPattern) -> bool {
        self.text() == other.text()
    }
}

impl Eq for SubjectPattern {}

/// Concrete subject without wildcard tokens.
#[derive(Debug, PartialOrd, Ord, Hash)]
pub struct Subject {
    raw: String,
    tokens: Vec<String>,
}

impl Subject {
    /// A subject has at least one token.
    #[verifier::type_invariant]
    spec fn has_tokens(self) -> bool {
        self.tokens@.len() > 0
    }

    /// The subject's literal tokens.
    pub closed spec fn parts(self) -> Seq<Seq<char>> {
        self.tokens.deep_view()
    }

    /// The subject's canonical text.
    pub closed spec fn text(self) -> Seq<char> {
        self.raw@
    }

    /// Result of parsing raw text as a concrete subject.
    pub open spec fn parse_spec(raw: Seq<char>) -> Result<Seq<Seq<char>>, Fault> {
        match parse_pattern(raw) {
            Err(e) => Err(e),
            Ok(t) => if has_wildcard(t) {
                Err(Fault::WildcardsNotAllowed(canonical(t)))
            } else {
                Ok(t.map_values(|x: Tok| tok_text(x)))
            },
        }
    }

    /// Construct a validated concrete subject.
    pub fn new(subject: &str) -> (s: Self)
        requires
            Subject::parse_spec(subject@) is Ok,
        ensures
            Subject::parse_spec(subject@) == Ok::<Seq<Seq<char>>, Fault>(s.parts()),
            s.text() == crate::text::joined(s.parts(), seq!['.']),
    {
        match Self::parse(subject) {
            Ok(s) => s,
            Err(_) => {
                assert(false);
                Subject { raw: String::new(), tokens: Vec::new() }
            },
        }
    }

    /// Parse and canonicalize a concrete subject.
    pub fn parse(raw: &str) -> (r: Result<Self, SubjectPatternError>)
        ensures
            match r {
                Ok(s) => Subject::parse_spec(raw@) == Ok::<Seq<Seq<char>>, Fault>(s.parts())
                    && s.text() == crate::text::joined(s.parts(), seq!['.']),
                Err(e) => Subject::parse_spec(raw@) == Err::<Seq<Seq<char>>, Fault>(e@),
            },
    {
        let pattern = SubjectPattern::parse(raw)?;
        if pattern.has_wildcards() {
            return Err(SubjectPatternError::WildcardsNotAllowed(pattern.to_string()));
        }
        proof { use_type_invariant(&pattern); }
        let ghost t = pattern.tokens();
        let texts = token_texts(&pattern.segments);
        assert(texts.deep_view().len() == t.len());
        let r = Subject { raw: copy_string(&pattern.raw), tokens: texts };
        assert(r.parts() == t.map_values(|x: Tok| tok_text(x)));
        Ok(r)
    }

    /// Return the canonical dotted subject string.
    pub fn as_str(&self) -> (r: &str)
        ensures
            r@ == self.text(),
    {
        self.raw.as_str()
    }

    /// Return the literal subject tokens.
    pub fn tokens(&self) -> (r: &[String])
        ensures
            r@.map_values(|s: String| s@) == self.parts(),
    {
        let r = self.tokens.as_slice();
        assert(r@.map_values(|s: String| s@) =~= self.parts());
        r
    }

    /// The canonical text as an owned string.
    pub fn to_string(&self) -> (r: String)
        ensures
            r@ == self.text(),
    {
        copy_string(&self.raw)
    }
}

impl PartialEq for Subject {
    fn eq(&self, other: &Self) -> (r: bool) {
        self.raw == other.raw
    }
}

impl vstd::std_specs::cmp::PartialEqSpecImpl for Subject {
    open spec fn obeys_eq_spec() -> bool {
        true
    }

    open spec fn eq_spec(&self, other: &Subject) -> bool {
        self.text() == other.text()
    }
}

impl Eq for Subject {}

impl Clone for Subject {
    fn clone(&self) -> (r: Self)
        ensures
            r.parts() == self.parts(),
            r.text() == self.text(),
    {
        proof { use_type_invariant(self); }
        let mut tokens: Vec<String> = Vec::new();
        let mut i: usize = 0;
        while i < self.tokens.len()
            invariant
                i <= self.tokens.len(),
                tokens@.len() == i,
                forall|k: int| 0 <= k < i ==> #[trigger] tokens@[k]@ == self.tokens@[k]@,
            decreases self.tokens.len() - i,
        {
            tokens.push(copy_string(&self.tokens[i]));
            i = i + 1;
        }
        assert(tokens.deep_view() =~= self.tokens.deep_view());
        Subject { raw: copy_string(&self.raw), tokens }
    }
}

/// A non-empty all-literal token sequence is a valid pattern.
pub proof fn lemma_literal_tokens_valid(t: Seq<Tok>)
    requires
        t.len() > 0,
        forall|i: int| 0 <= i < t.len() ==> #[trigger] t[i] is Lit,
    ensures
        token_fault(t) is None,
{
    lemma_no_tail_count(t);
}

proof fn lemma_no_tail_count(t: Seq<Tok>)
    requires
        forall|i: int| 0 <= i < t.len() ==> !(#[trigger] t[i] is Tail),
    ensures
        tail_count(t) == 0,
    decreases t.len(),
{
    if t.len() > 0 {
        assert(!(t[t.len() - 1] is Tail));
        lemma_no_tail_count(t.drop_last());
    }
}

impl SubjectPattern {
    /// The literal pattern matching exactly `subject`.
    pub fn from_subject(subject: &Subject) -> (p: SubjectPattern)
        ensures
            p.tokens() == subject.parts().map_values(|x: Seq<char>| Tok::Lit(x)),
    {
        let ghost target = subject.parts().map_values(|x: Seq<char>| Tok::Lit(x));
        let mut segments: Vec<SubjectToken> = Vec::new();
        let mut i: usize = 0;
        while i < subject.tokens.len()
            invariant
                i <= subject.tokens.len(),
                segments@.len() == i,
                target == subject.parts().map_values(|x: Seq<char>| Tok::Lit(x)),
                subject.parts() == subject.tokens.deep_view(),
                toks(segments@) == target.take(i as int),
            decreases subject.tokens.len() - i,
        {
            let t = SubjectToken::Literal(copy_string(&subject.tokens[i]));
            let ghost old = toks(segments@);
            segments.push(t);
            assert(toks(segments@) =~= old.push(t@));
            i = i + 1;
            assert(toks(segments@) =~= target.take(i as int));
        }
        assert(target.take(subject.tokens.len() as int) =~= target);
        proof {
            use_type_invariant(subject);
            lemma_literal_tokens_valid(target);
        }
        let raw = canonicalize_tokens(&segments);
        SubjectPattern { raw, segments }
    }
}

fn matches_subject_tokens(pattern: &[SubjectToken], subject: &[String]) -> (r: bool)
    ensures
        r == matches_toks(toks(pattern@), subject@.map_values(|s: String| s@)),
{
    let ghost p = toks(pattern@);
    let ghost s = subject@.map_values(|s: String| s@);
    let mut i: usize = 0;
    assert(p.skip(0) =~= p);
    assert(s.skip(0) =~= s);
    while i < pattern.len() && i < subject.len()
        invariant
            i <= pattern.len(),
            i <= subject.len(),
            p == toks(pattern@),
            s == subject@.map_values(|s: String| s@),
            matches_toks(p, s) == matches_toks(p.skip(i as int), s.skip(i as int)),
        decreases pattern.len() - i,
    {
        assert(p.skip(i as int).drop_first() =~= p.skip(i + 1));
        assert(s.skip(i as int).drop_first() =~= s.skip(i + 1));
        assert(p.skip(i as int)[0] == pattern@[i as int]@);
        assert(s.skip(i as int)[0] == subject@[i as int]@);
        match &pattern[i] {
            SubjectToken::Tail => {
                return true;
            },
            SubjectToken::One => {},
            SubjectToken::Literal(expected) => {
                if !(*expected == subject[i]) {
                    return false;
                }
            },
        }
        i = i + 1;
    }
    i == pattern.len() && i == subject.len()
}

fn overlaps_tokens(left: &[SubjectToken], right: &[SubjectToken]) -> (r: bool)
    ensures
        r == overlaps_toks(toks(left@), toks(right@)),
{
    let ghost l = toks(left@);
    let ghost rt = toks(right@);
    let mut i: usize = 0;
    assert(l.skip(0) =~= l);
    assert(rt.skip(0) =~= rt);
    while i < left.len() && i < right.len()
        invariant
            i <= left.len(),
            i <= right.len(),
            l == toks(left@),
            rt == toks(right@),
            overlaps_toks(l, rt) == overlaps_toks(l.skip(i as int), rt.skip(i as int)),
        decreases left.len() - i,
    {
        assert(l.skip(i as int).drop_first() =~= l.skip(i + 1));
        assert(rt.skip(i as int).drop_first() =~= rt.skip(i + 1));
        assert(l.skip(i as int)[0] == left@[i as int]@);
        assert(rt.skip(i as int)[0] == right@[i as int]@);
        if is_tail(&left[i]) || is_tail(&right[i]) {
            return true;
        }
        if !segments_can_match(&left[i], &right[i]) {
            return false;
        }
        i = i + 1;
    }
    i == left.len() && i == right.len()
}

fn segments_can_match(left: &SubjectToken, right: &SubjectToken) -> (r: bool)
    ensures
        r == can_match(left@, right@),
{
    match (left, right) {
        (SubjectToken::Literal(a), SubjectToken::Literal(b)) => *a == *b,
        _ => true,
    }
}


// ---------------------------------------------------------------------------
// Laws
// ---------------------------------------------------------------------------

proof fn lemma_joined_extend_last(p: Seq<Seq<char>>, c: char, sep: Seq<char>)
    requires
        p.len() >= 1,
    ensures
        joined(p.update(p.len() - 1, p.last().push(c)), sep) == joined(p, sep).push(c),
{
    let q = p.update(p.len() - 1, p.last().push(c));
    if p.len() == 1 {
        assert(q[0] == p[0].push(c));
    } else {
        assert(q.drop_last() =~= p.drop_last());
        assert(q.last() == p.last().push(c));
        assert(joined(q, sep) == joined(p.drop_last(), sep) + sep + p.last().push(c));
        assert(joined(p.drop_last(), sep) + sep + p.last().push(c) =~= (joined(p.drop_last(), sep) + sep + p.last()).push(c));
    }
}

proof fn lemma_join_split(s: Seq<char>)
    ensures
        joined(split_dots(s), seq!['.']) == s,
    decreases s.len(),
{
    if s.len() == 0 {
        assert(joined(seq![Seq::<char>::empty()], seq!['.']) == Seq::<char>::empty());
    } else {
        let rest = split_dots(s.drop_last());
        lemma_join_split(s.drop_last());
        lemma_split_nonempty(s.drop_last());
        if s.last() == '.' {
            let q = rest.push(Seq::<char>::empty());
            assert(q.drop_last() =~= rest);
            assert(joined(q, seq!['.']) == joined(rest, seq!['.']) + seq!['.'] + Seq::<char>::empty());
            assert(s =~= s.drop_last() + seq!['.'] + Seq::<char>::empty());
        } else {
            lemma_joined_extend_last(rest, s.last(), seq!['.']);
            assert(s =~= s.drop_last().push(s.last()));
        }
    }
}

proof fn lemma_scan_texts(segs: Seq<Seq<char>>)
    requires
        scan(segs) is Ok,
    ensures
        scan(segs)->Ok_0.map_values(|x: Tok| tok_text(x)) == segs,
    decreases segs.len(),
{
    if segs.len() == 0 {
        assert(scan(segs)->Ok_0.map_values(|x: Tok| tok_text(x)) =~= segs);
    } else {
        lemma_scan_texts(segs.drop_last());
        let t = scan(segs.drop_last())->Ok_0;
        let x = classify(segs.last())->Ok_0;
        assert(tok_text(x) == segs.last()) by {
            if x is One {
                assert(segs.last() == seq!['*']);
            } else if x is Tail {
                assert(segs.last() == seq!['>']);
            }
        }
        assert(scan(segs)->Ok_0 == t.push(x));
        assert(t.push(x).map_values(|x: Tok| tok_text(x)) =~= t.map_values(|x: Tok| tok_text(x)).push(tok_text(x)));
        assert(segs =~= segs.drop_last().push(segs.last()));
    }
}

/// Parsing canonicalizes: a pattern parsed from `raw` has exactly the text
/// of `raw` with surrounding whitespace removed.
pub proof fn law_parse_canonical(raw: Seq<char>)
    requires
        parse_pattern(raw) is Ok,
    ensures
        canonical(parse_pattern(raw)->Ok_0) == trimmed(raw),
{
    let t = trimmed(raw);
    lemma_scan_texts(split_dots(t));
    lemma_join_split(t);
}

proof fn lemma_trim_start_clean(s: Seq<char>)
    ensures
        trim_start(s).len() == 0 || !is_ws(trim_start(s)[0]),
    decreases s.len(),
{
    if s.len() > 0 && is_ws(s[0]) {
        lemma_trim_start_clean(s.drop_first());
    }
}

proof fn lemma_trim_end_clean(s: Seq<char>)
    ensures
        trim_end(s).len() <= s.len(),
        trim_end(s) == s.take(trim_end(s).len() as int),
        trim_end(s).len() == 0 || !is_ws(trim_end(s).last()),
    decreases s.len(),
{
    if s.len() > 0 && is_ws(s.last()) {
        lemma_trim_end_clean(s.drop_last());
        assert(s.drop_last().take(trim_end(s).len() as int) =~= s.take(trim_end(s).len() as int));
    } else {
        assert(s.take(s.len() as int) =~= s);
    }
}

/// Trimming twice is trimming once.
proof fn lemma_trimmed_idempotent(s: Seq<char>)
    ensures
        trimmed(trimmed(s)) == trimmed(s),
{
    let a = trim_start(s);
    let t = trim_end(a);
    lemma_trim_start_clean(s);
    lemma_trim_end_clean(a);
    if t.len() > 0 {
        assert(t[0] == a[0]);
        assert(trim_start(t) == t);
    }
    assert(trim_start(t) == t);
    assert(trim_end(t) == t);
}

/// Parsing the canonical text of a parsed pattern gives back the same
/// tokens: the canonical text is the trimmed input, which has no
/// surrounding whitespace and parses alike.
pub proof fn law_parse_canonical_round_trip(raw: Seq<char>)
    requires
        parse_pattern(raw) is Ok,
    ensures
        trimmed(canonical(parse_pattern(raw)->Ok_0)) == canonical(parse_pattern(raw)->Ok_0),
        parse_pattern(canonical(parse_pattern(raw)->Ok_0)) == parse_pattern(raw),
{
    law_parse_canonical(raw);
    lemma_trimmed_idempotent(raw);
}

/// The literal pattern built from a subject matches that subject.
pub proof fn law_literal_pattern_matches(parts: Seq<Seq<char>>)
    ensures
        matches_toks(parts.map_values(|x: Seq<char>| Tok::Lit(x)), parts),
    decreases parts.len(),
{
    let p = parts.map_values(|x: Seq<char>| Tok::Lit(x));
    if parts.len() > 0 {
        law_literal_pattern_matches(parts.drop_first());
        assert(p.drop_first() =~= parts.drop_first().map_values(|x: Seq<char>| Tok::Lit(x)));
    }
}

/// A pattern of literals alone matches exactly the subject with those
/// segments.
pub proof fn law_literal_pattern_matches_only_itself(parts: Seq<Seq<char>>, s: Seq<Seq<char>>)
    ensures
        matches_toks(parts.map_values(|x: Seq<char>| Tok::Lit(x)), s) <==> s == parts,
    decreases parts.len(),
{
    let p = parts.map_values(|x: Seq<char>| Tok::Lit(x));
    law_literal_pattern_matches(parts);
    if parts.len() > 0 && s.len() > 0 {
        law_literal_pattern_matches_only_itself(parts.drop_first(), s.drop_first());
        assert(p.drop_first() =~= parts.drop_first().map_values(|x: Seq<char>| Tok::Lit(x)));
        if s[0] == parts[0] && s.drop_first() == parts.drop_first() {
            assert(s.len() == parts.len());
            assert forall|i: int| 0 <= i < s.len() implies s[i] == parts[i] by {
                if i > 0 {
                    assert(s[i] == s.drop_first()[i - 1]);
                    assert(parts[i] == parts.drop_first()[i - 1]);
                }
            }
            assert(s =~= parts);
        }
        if s == parts {
            assert(s.drop_first() =~= parts.drop_first());
        }
    } else if parts.len() == 0 {
        if s.len() == 0 {
            assert(s =~= parts);
        }
    }
}

/// A tail wildcard after a literal prefix matches every subject that
/// continues the prefix with one or more segments, whatever they are, and
/// never the bare prefix; a single-segment wildcard there matches exactly
/// one more segment.
pub proof fn law_wildcards_after_literal_prefix(prefix: Seq<Seq<char>>, rest: Seq<Seq<char>>)
    ensures
        rest.len() > 0 ==> matches_toks(prefix.map_values(|x: Seq<char>| Tok::Lit(x)).push(Tok::Tail), prefix + rest),
        !matches_toks(prefix.map_values(|x: Seq<char>| Tok::Lit(x)).push(Tok::Tail), prefix),
        matches_toks(prefix.map_values(|x: Seq<char>| Tok::Lit(x)).push(Tok::One), prefix + rest) <==> rest.len() == 1,
    decreases prefix.len(),
{
    let lp = prefix.map_values(|x: Seq<char>| Tok::Lit(x));
    if prefix.len() == 0 {
        assert(prefix + rest =~= rest);
        assert(lp.push(Tok::Tail) =~= seq![Tok::Tail]);
        assert(lp.push(Tok::One) =~= seq![Tok::One]);
        assert(seq![Tok::One].drop_first() =~= Seq::<Tok>::empty());
        if rest.len() > 0 {
            assert(matches_toks(seq![Tok::One], rest) == matches_toks(Seq::<Tok>::empty(), rest.drop_first()));
        }
    } else {
        law_wildcards_after_literal_prefix(prefix.drop_first(), rest);
        let lq = prefix.drop_first().map_values(|x: Seq<char>| Tok::Lit(x));
        assert(lp.push(Tok::Tail).drop_first() =~= lq.push(Tok::Tail));
        assert(lp.push(Tok::One).drop_first() =~= lq.push(Tok::One));
        assert((prefix + rest).drop_first() =~= prefix.drop_first() + rest);
        assert((prefix + rest)[0] == prefix[0]);
        assert(lp.push(Tok::Tail)[0] == Tok::Lit(prefix[0]));
        assert(lp.push(Tok::One)[0] == Tok::Lit(prefix[0]));
    }
}

/// Overlap is symmetric.
pub proof fn law_overlaps_symmetric(l: Seq<Tok>, r: Seq<Tok>)
    ensures
        overlaps_toks(l, r) == overlaps_toks(r, l),
    decreases l.len(),
{
    if l.len() > 0 && r.len() > 0 {
        law_overlaps_symmetric(l.drop_first(), r.drop_first());
    }
}

/// A pattern overlaps itself.
pub proof fn law_overlaps_reflexive(l: Seq<Tok>)
    ensures
        overlaps_toks(l, l),
    decreases l.len(),
{
    if l.len() > 0 {
        law_overlaps_reflexive(l.drop_first());
    }
}

/// If a pattern matches a subject, it overlaps the subject's literal pattern.
pub proof fn law_match_implies_overlap(p: Seq<Tok>, parts: Seq<Seq<char>>)
    requires
        matches_toks(p, parts),
    ensures
        overlaps_toks(p, parts.map_values(|x: Seq<char>| Tok::Lit(x))),
    decreases p.len(),
{
    let q = parts.map_values(|x: Seq<char>| Tok::Lit(x));
    if p.len() > 0 && parts.len() > 0 {
        assert(q.drop_first() =~= parts.drop_first().map_values(|x: Seq<char>| Tok::Lit(x)));
        if !(p[0] is Tail) {
            law_match_implies_overlap(p.drop_first(), parts.drop_first());
        }
    }
}

} // verus!
