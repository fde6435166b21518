//! Character-level string helpers shared by the library's parsers and
//! renderers.

use vstd::prelude::*;

verus! {

/// Appends one character to a string.
///
/// Trusted: calls `String::push`, which the standard library documents as
/// appending the given `char` to the end of the string.
#[verifier::external_body]
pub fn push_char(s: &mut String, c: char)
    ensures
        final(s)@ == old(s)@.push(c),
{
    s.push(c);
}

/// Decodes a byte slice as UTF-8.
///
/// Trusted: calls `std::str::from_utf8`, documented to succeed exactly when
/// the bytes are valid UTF-8; the text is then the decoded characters.
#[verifier::external_body]
pub fn utf8_text(bytes: &[u8]) -> (r: Option<String>)
    ensures
        r is Some <==> vstd::utf8::valid_utf8(bytes@),
        r matches Some(s) ==> s@ == vstd::utf8::decode_utf8(bytes@),
{
    match std::str::from_utf8(bytes) {
        Ok(s) => Some(s.to_owned()),
        Err(_) => None,
    }
}

/// The `Debug` rendering of a string: the text in double quotes with
/// quotes, backslashes and non-printable characters escaped.
pub uninterp spec fn str_debug(s: Seq<char>) -> Seq<char>;

/// Renders a string slice as `Debug` does.
///
/// Trusted: calls the standard library's `Debug` formatting of `str`
/// (through `format!("{:?}")`), a function of the text alone; what the
/// escaping does character by character is not stated here.
#[verifier::external_body]
pub fn debug_text(s: &str) -> (r: String)
    ensures
        r@ == str_debug(s@),
{
    format!("{:?}", s)
}

/// The characters of a string slice, in order.
pub fn str_chars(s: &str) -> (v: Vec<char>)
    ensures
        v@ == s@,
{
    let mut v: Vec<char> = Vec::new();
    for c in it: s.chars()
        invariant
            v@ == it.seq().take(it.index() as int),
    {
        v.push(c);
    }
    v
}

/// Builds a string from a slice of characters.
pub fn chars_string(v: &[char]) -> (s: String)
    ensures
        s@ == v@,
{
    let mut s = String::new();
    let mut i: usize = 0;
    while i < v.len()
        invariant
            i <= v.len(),
            s@ == v@.subrange(0, i as int),
        decreases v.len() - i,
    {
        push_char(&mut s, v[i]);
        i = i + 1;
        assert(s@ == v@.subrange(0, i as int));
    }
    s
}

/// An owned copy of a string slice.
pub fn owned(s: &str) -> (r: String)
    ensures
        r@ == s@,
{
    s.to_owned()
}

/// A copy of a string with the same characters.
pub fn copy_string(s: &String) -> (r: String)
    ensures
        r == *s,
        r@ == s@,
{
    s.clone()
}

/// Appends a string slice.
pub fn push_str(s: &mut String, t: &str)
    ensures
        final(s)@ == old(s)@ + t@,
{
    s.append(t);
}

/// A copy of a byte slice.
pub fn copy_bytes(b: &[u8]) -> (r: Vec<u8>)
    ensures
        r@ == b@,
{
    let mut r: Vec<u8> = Vec::new();
    let mut i: usize = 0;
    while i < b.len()
        invariant
            i <= b.len(),
            r@ == b@.take(i as int),
        decreases b.len() - i,
    {
        r.push(b[i]);
        assert(r@ =~= b@.take(i + 1));
        i = i + 1;
    }
    assert(b@.take(b.len() as int) =~= b@);
    r
}

/// Whether two byte slices hold the same bytes.
pub fn bytes_equal(a: &[u8], b: &[u8]) -> (r: bool)
    ensures
        r == (a@ == b@),
{
    if a.len() != b.len() {
        return false;
    }
    let mut i: usize = 0;
    while i < a.len()
        invariant
            a.len() == b.len(),
            i <= a.len(),
            a@.subrange(0, i as int) == b@.subrange(0, i as int),
        decreases a.len() - i,
    {
        if a[i] != b[i] {
            assert(a@[i as int] != b@[i as int]);
            return false;
        }
        i = i + 1;
        assert(a@.subrange(0, i as int) =~= a@.subrange(0, i as int - 1).push(a@[i - 1]));
        assert(b@.subrange(0, i as int) =~= b@.subrange(0, i as int - 1).push(b@[i - 1]));
    }
    assert(a@ =~= a@.subrange(0, a.len() as int));
    assert(b@ =~= b@.subrange(0, b.len() as int));
    true
}

/// Whether two strings hold the same characters.
pub fn same_text(a: &String, b: &String) -> (r: bool)
    ensures
        r == (a@ == b@),
{
    *a == *b
}

/// Whether a string slice and a string hold the same characters.
pub fn str_eq(a: &str, b: &str) -> (r: bool)
    ensures
        r == (a@ == b@),
{
    let x = a.to_owned();
    let y = b.to_owned();
    x == y
}

/// Text of a decimal digit or an upper-case hexadecimal digit.
pub open spec fn hex_digit(d: nat) -> char {
    if d < 10 {
        ((d + 48) as u32) as char
    } else {
        ((d + 55) as u32) as char
    }
}

/// Upper-case hexadecimal digits of `x`, most significant first, without
/// leading zeros (a single `0` for zero).
pub open spec fn hex_upper(x: nat) -> Seq<char>
    decreases x,
{
    if x < 16 {
        seq![hex_digit(x)]
    } else {
        hex_upper(x / 16).push(hex_digit(x % 16))
    }
}

/// Lower-case hexadecimal digit.
pub open spec fn hex_digit_lower(d: nat) -> char {
    if d < 10 {
        ((d + 48) as u32) as char
    } else {
        ((d + 87) as u32) as char
    }
}

/// Lower-case hexadecimal digits of `x`, without leading zeros.
pub open spec fn hex_lower(x: nat) -> Seq<char>
    decreases x,
{
    if x < 16 {
        seq![hex_digit_lower(x)]
    } else {
        hex_lower(x / 16).push(hex_digit_lower(x % 16))
    }
}

/// Decimal digits of `x`, without leading zeros.
pub open spec fn decimal(x: nat) -> Seq<char>
    decreases x,
{
    if x < 10 {
        seq![hex_digit(x)]
    } else {
        decimal(x / 10).push(hex_digit(x % 10))
    }
}

/// Decimal text of a signed integer.
pub open spec fn signed_decimal(x: int) -> Seq<char> {
    if x < 0 {
        seq!['-'] + decimal((-x) as nat)
    } else {
        decimal(x as nat)
    }
}

fn digit_char(d: u64, upper: bool) -> (c: char)
    requires
        d < 16,
    ensures
        upper ==> c == hex_digit(d as nat),
        !upper ==> c == hex_digit_lower(d as nat),
{
    let v: u32 = if d < 10 {
        (d + 48) as u32
    } else if upper {
        (d + 55) as u32
    } else {
        (d + 87) as u32
    };
    let c = char_of(v);
    c
}

fn char_of(v: u32) -> (c: char)
    requires
        48 <= v <= 57 || 65 <= v <= 70 || 97 <= v <= 102,
    ensures
        c == v as char,
{
    if v == 48 { '0' } else if v == 49 { '1' } else if v == 50 { '2' } else if v == 51 { '3' }
    else if v == 52 { '4' } else if v == 53 { '5' } else if v == 54 { '6' } else if v == 55 { '7' }
    else if v == 56 { '8' } else if v == 57 { '9' } else if v == 65 { 'A' } else if v == 66 { 'B' }
    else if v == 67 { 'C' } else if v == 68 { 'D' } else if v == 69 { 'E' } else if v == 70 { 'F' }
    else if v == 97 { 'a' } else if v == 98 { 'b' } else if v == 99 { 'c' } else if v == 100 { 'd' }
    else if v == 101 { 'e' } else { 'f' }
}

/// Digits of `x` in base 16 (`base == 16`) or 10 (`base == 10`).
fn digits(x: u64, base: u64, upper: bool) -> (v: Vec<char>)
    requires
        base == 10 || base == 16,
    ensures
        base == 16 && upper ==> v@ == hex_upper(x as nat),
        base == 16 && !upper ==> v@ == hex_lower(x as nat),
        base == 10 ==> v@ == decimal(x as nat),
    decreases x,
{
    if x < base {
        let c = digit_char(x, upper || base == 10);
        let mut v = Vec::new();
        v.push(c);
        assert(v@ =~= seq![c]);
        v
    } else {
        let mut v = digits(x / base, base, upper);
        let c = digit_char(x % base, upper || base == 10);
        v.push(c);
        v
    }
}

/// Upper-case hexadecimal text of `x`.
pub fn hex_upper_text(x: u64) -> (s: String)
    ensures
        s@ == hex_upper(x as nat),
{
    let v = digits(x, 16, true);
    chars_string(v.as_slice())
}

/// Lower-case hexadecimal text of `x`.
pub fn hex_lower_text(x: u64) -> (s: String)
    ensures
        s@ == hex_lower(x as nat),
{
    let v = digits(x, 16, false);
    chars_string(v.as_slice())
}

/// Decimal text of `x`.
pub fn decimal_text(x: u64) -> (s: String)
    ensures
        s@ == decimal(x as nat),
{
    let v = digits(x, 10, true);
    chars_string(v.as_slice())
}

/// Decimal text of a signed `x`.
pub fn signed_decimal_text(x: i64) -> (s: String)
    ensures
        s@ == signed_decimal(x as int),
{
    if x < 0 {
        let mag: u64 = if x == i64::MIN { 9223372036854775808u64 } else { (-x) as u64 };
        let mut s = String::new();
        push_char(&mut s, '-');
        let d = decimal_text(mag);
        push_str(&mut s, d.as_str());
        assert(s@ =~= seq!['-'] + decimal(mag as nat));
        s
    } else {
        decimal_text(x as u64)
    }
}

/// The low `n` lower-case hexadecimal digits of `x`, zero-padded, most
/// significant first.
pub open spec fn hex_fixed(x: nat, n: nat) -> Seq<char>
    decreases n,
{
    if n == 0 {
        Seq::empty()
    } else {
        hex_fixed(x / 16, (n - 1) as nat).push(hex_digit_lower(x % 16))
    }
}

fn hex_fixed_chars(x: u64, n: usize) -> (v: Vec<char>)
    ensures
        v@ == hex_fixed(x as nat, n as nat),
    decreases n,
{
    if n == 0 {
        let v: Vec<char> = Vec::new();
        assert(v@ =~= Seq::<char>::empty());
        v
    } else {
        let mut v = hex_fixed_chars(x / 16, n - 1);
        let c = digit_char(x % 16, false);
        v.push(c);
        v
    }
}

/// The low `n` lower-case hexadecimal digits of `x`, zero-padded.
pub fn hex_fixed_text(x: u64, n: usize) -> (s: String)
    ensures
        s@ == hex_fixed(x as nat, n as nat),
{
    let v = hex_fixed_chars(x, n);
    chars_string(v.as_slice())
}

/// Text of a boolean (`true` / `false`).
pub open spec fn bool_text(b: bool) -> Seq<char> {
    if b { seq!['t', 'r', 'u', 'e'] } else { seq!['f', 'a', 'l', 's', 'e'] }
}

/// Text of a boolean (`true` / `false`).
pub fn bool_string(b: bool) -> (s: String)
    ensures
        s@ == bool_text(b),
{
    let v: Vec<char> = if b { vec!['t', 'r', 'u', 'e'] } else { vec!['f', 'a', 'l', 's', 'e'] };
    assert(v@ =~= bool_text(b));
    chars_string(v.as_slice())
}

/// The strings of `parts` joined by `sep`.
pub open spec fn joined(parts: Seq<Seq<char>>, sep: Seq<char>) -> Seq<char>
    decreases parts.len(),
{
    if parts.len() == 0 {
        Seq::empty()
    } else if parts.len() == 1 {
        parts[0]
    } else {
        joined(parts.drop_last(), sep) + sep + parts.last()
    }
}

/// Joins the strings of `parts` with `sep` between neighbours.
pub fn join(parts: &Vec<String>, sep: &str) -> (s: String)
    ensures
        s@ == joined(parts.deep_view(), sep@),
{
    let mut s = String::new();
    let ghost dv = parts.deep_view();
    let mut i: usize = 0;
    while i < parts.len()
        invariant
            i <= parts.len(),
            dv == parts.deep_view(),
            dv.len() == parts.len(),
            s@ == joined(dv.take(i as int), sep@),
        decreases parts.len() - i,
    {
        proof {
            assert(dv.take(i + 1).drop_last() =~= dv.take(i as int));
            assert(dv[i as int] == parts[i as int]@);
        }
        if i > 0 {
            push_str(&mut s, sep);
        }
        push_str(&mut s, parts[i].as_str());
        i = i + 1;
        proof {
            if i == 1 {
                assert(s@ =~= dv.take(1)[0]);
            }
        }
    }
    assert(dv.take(parts.len() as int) =~= dv);
    s
}

/// `needle` occurs in `hay` as a contiguous run of characters.
pub open spec fn has_infix(hay: Seq<char>, needle: Seq<char>) -> bool {
    exists|i: int| 0 <= i && i + needle.len() <= hay.len() && #[trigger] hay.subrange(i, i + needle.len()) == needle
}

fn run_at(h: &Vec<char>, n: &Vec<char>, i: usize) -> (b: bool)
    requires
        i + n@.len() <= h@.len(),
    ensures
        b == (h@.subrange(i as int, i + n@.len()) == n@),
{
    let hl = h.len();
    let mut j: usize = 0;
    while j < n.len()
        invariant
            hl == h@.len(),
            i + n@.len() <= h@.len(),
            j <= n@.len(),
            h@.subrange(i as int, i + j) == n@.subrange(0, j as int),
        decreases n.len() - j,
    {
        if h[i + j] != n[j] {
            assert(h@.subrange(i as int, i + n@.len())[j as int] != n@[j as int]);
            return false;
        }
        assert(h@.subrange(i as int, i + j + 1) =~= h@.subrange(i as int, i + j).push(h@[i + j]));
        assert(n@.subrange(0, j + 1) =~= n@.subrange(0, j as int).push(n@[j as int]));
        j = j + 1;
    }
    assert(n@.subrange(0, n@.len() as int) =~= n@);
    true
}

/// Whether `needle` occurs in `hay`.
pub fn contains_text(hay: &str, needle: &str) -> (b: bool)
    ensures
        b == has_infix(hay@, needle@),
{
    let h = str_chars(hay);
    let n = str_chars(needle);
    if n.len() > h.len() {
        return false;
    }
    let last = h.len() - n.len();
    let mut i: usize = 0;
    loop
        invariant
            h@ == hay@,
            n@ == needle@,
            last + n@.len() == h@.len(),
            i <= last,
            forall|k: int| 0 <= k < i ==> #[trigger] h@.subrange(k, k + n@.len()) != n@,
        decreases last - i,
    {
        if run_at(&h, &n, i) {
            return true;
        }
        if i == last {
            return false;
        }
        i = i + 1;
    }
}

} // verus!
