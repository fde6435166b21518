//! Privacy-preserving export of fabric metadata summaries.
//!
//! An export applies a disclosure policy to a summary that crosses a trust
//! boundary: it checks the summary and the policy, blinds the subject and
//! the tenant (shown as is, as a SHA-256 token, or redacted) and shifts each
//! count by a noise delta, saturating at the bounds of `u64`.  The
//! authoritative summary is only read, never changed.
//!
//! The size of a noise delta comes from a floating-point draw that the
//! caller makes; this module derives the deterministic per-field seeds and
//! the integer samples that draw starts from.

use vstd::prelude::*;
use sha2::{Digest, Sha256};
use crate::lab::seed::{fnv1a, fnv1a_bytes, mix, mix64, COMPONENT_SALT};
use crate::messaging::ir::MetadataDisclosure;
use crate::messaging::service::{blank, is_blank, push_tag, push_text, push_u64, text_bytes, u64_bytes};
use crate::messaging::subject::split_dots;
use crate::text::{copy_string, hex_fixed, hex_fixed_text, joined, owned, push_char, push_str, str_chars};
use vstd::wrapping::u64_specs::wrapping_add;

verus! {

// ─── Summaries and policies ────────────────────────────────────────────────

/// Exact internal metadata summary before any privacy transform is applied.
#[derive(Debug, Clone, PartialEq, Eq)]
pub struct AuthoritativeMetadataSummary {
    /// Stable summary family or advisory name.
    pub summary_name: String,
    /// Internal tenant identifier.
    pub tenant: String,
    /// Internal subject or route key.
    pub subject: String,
    /// Exact message count before export noise.
    pub message_count: u64,
    /// Exact byte count before export noise.
    pub byte_count: u64,
    /// Exact error count before export noise.
    pub error_count: u64,
    /// Whether this export would cross a tenant boundary.
    pub cross_tenant: bool,
}

/// The part of a privacy policy that governs blinding and admission of an
/// export: its name, how identifiers are disclosed, whether subject
/// literals are masked under full disclosure, and whether cross-tenant
/// exports are allowed.  The policy's noise budget is a floating-point
/// quantity that the caller accounts for.
#[derive(Debug, Clone, PartialEq, Eq)]
pub struct ExportPolicy {
    /// Policy name.
    pub name: String,
    /// How subject and tenant are disclosed.
    pub metadata_disclosure: MetadataDisclosure,
    /// Whether each literal of a fully disclosed subject is masked.
    pub redact_subject_literals: bool,
    /// Whether exports that cross a tenant boundary are allowed.
    pub allow_cross_tenant_flow: bool,
}

/// Export-time privacy failures decided before any budget is spent.
#[derive(Debug, Clone, PartialEq, Eq)]
pub enum PrivacyExportError {
    /// Required summary or policy fields must be non-empty.
    EmptyField {
        /// Field that failed validation.
        field: &'static str,
    },
    /// Cross-tenant disclosure requires explicit policy opt-in.
    CrossTenantFlowDisallowed {
        /// Policy that rejected the export.
        policy_name: String,
    },
}

/// The first of the summary name, tenant, subject and policy name that is
/// empty or only whitespace, by its field name.
pub open spec fn first_blank_field(p: ExportPolicy, s: AuthoritativeMetadataSummary) -> Option<Seq<char>> {
    if blank(s.summary_name@) {
        Some("summary_name"@)
    } else if blank(s.tenant@) {
        Some("tenant"@)
    } else if blank(s.subject@) {
        Some("subject"@)
    } else if blank(p.name@) {
        Some("policy_name"@)
    } else {
        None
    }
}

/// Whether the policy admits an export of the summary.
pub open spec fn export_admitted(p: ExportPolicy, s: AuthoritativeMetadataSummary) -> bool {
    first_blank_field(p, s) is None && (!s.cross_tenant || p.allow_cross_tenant_flow)
}

fn check_text(field: &'static str, value: &str) -> (r: Result<(), PrivacyExportError>)
    ensures
        r == (if blank(value@) {
            Err::<(), PrivacyExportError>(PrivacyExportError::EmptyField { field })
        } else {
            Ok(())
        }),
{
    if is_blank(value) {
        return Err(PrivacyExportError::EmptyField { field });
    }
    Ok(())
}

impl AuthoritativeMetadataSummary {
    fn validate(&self) -> (r: Result<(), PrivacyExportError>)
        ensures
            r is Ok <==> !blank(self.summary_name@) && !blank(self.tenant@) && !blank(self.subject@),
            blank(self.summary_name@) ==> r == Err::<(), PrivacyExportError>(
                PrivacyExportError::EmptyField { field: "summary_name" }),
            !blank(self.summary_name@) && blank(self.tenant@) ==> r == Err::<(), PrivacyExportError>(
                PrivacyExportError::EmptyField { field: "tenant" }),
            !blank(self.summary_name@) && !blank(self.tenant@) && blank(self.subject@) ==> r
                == Err::<(), PrivacyExportError>(PrivacyExportError::EmptyField { field: "subject" }),
    {
        match check_text("summary_name", self.summary_name.as_str()) {
            Err(e) => return Err(e),
            Ok(()) => {},
        }
        match check_text("tenant", self.tenant.as_str()) {
            Err(e) => return Err(e),
            Ok(()) => {},
        }
        check_text("subject", self.subject.as_str())
    }
}

/// Checks a summary and a policy before anything is disclosed: every
/// required text field must hold a non-whitespace character, and a
/// cross-tenant summary needs a policy that allows cross-tenant flow.
pub fn check_export(policy: &ExportPolicy, summary: &AuthoritativeMetadataSummary) -> (r: Result<(), PrivacyExportError>)
    ensures
        r is Ok <==> export_admitted(*policy, *summary),
        first_blank_field(*policy, *summary) matches Some(f) ==> (r matches Err(
            PrivacyExportError::EmptyField { field },
        ) && field@ == f),
        (first_blank_field(*policy, *summary) is None && !export_admitted(*policy, *summary)) ==> (
        r matches Err(PrivacyExportError::CrossTenantFlowDisallowed { policy_name })
            && policy_name@ == policy.name@),
{
    match summary.validate() {
        Err(e) => return Err(e),
        Ok(()) => {},
    }
    match check_text("policy_name", policy.name.as_str()) {
        Err(e) => return Err(e),
        Ok(()) => {},
    }
    if summary.cross_tenant && !policy.allow_cross_tenant_flow {
        return Err(PrivacyExportError::CrossTenantFlowDisallowed { policy_name: copy_string(&policy.name) });
    }
    Ok(())
}

// ─── Hash tokens ───────────────────────────────────────────────────────────

/// SHA-256 digest of a byte sequence.
pub uninterp spec fn sha256_digest(bytes: Seq<u8>) -> Seq<u8>;

/// Trusted: `sha2::Sha256::digest`, the SHA-256 digest of the bytes; the
/// contract only names it, and its 32 bytes come from the result type.
#[verifier::external_body]
fn sha256(bytes: &[u8]) -> (d: [u8; 32])
    ensures
        d@ == sha256_digest(bytes@),
{
    Sha256::digest(bytes).into()
}

/// Two lower-case hexadecimal digits per byte.
pub open spec fn hex_bytes(b: Seq<u8>) -> Seq<char>
    decreases b.len(),
{
    if b.len() == 0 {
        Seq::empty()
    } else {
        hex_bytes(b.drop_last()) + hex_fixed(b.last() as nat, 2)
    }
}

/// Token of a text: `sha256:` and the hexadecimal SHA-256 digest of its
/// UTF-8 bytes.
pub open spec fn hash_token_text(v: Seq<char>) -> Seq<char> {
    "sha256:"@ + hex_bytes(sha256_digest(vstd::utf8::encode_utf8(v)))
}

/// SHA-256 token of a text.
pub fn hash_token(value: &str) -> (t: String)
    ensures
        t@ == hash_token_text(value@),
{
    let digest = sha256(value.as_bytes());
    let mut token = owned("sha256:");
    let ghost d = digest@;
    let mut i: usize = 0;
    assert(d.take(0) =~= Seq::<u8>::empty());
    while i < 32
        invariant
            i <= 32,
            d == digest@,
            d.len() == 32,
            token@ == "sha256:"@ + hex_bytes(d.take(i as int)),
        decreases 32 - i,
    {
        let pair = hex_fixed_text(digest[i] as u64, 2);
        push_str(&mut token, pair.as_str());
        assert(d.take(i + 1).drop_last() =~= d.take(i as int));
        i = i + 1;
    }
    assert(d.take(32) =~= d);
    token
}

// ─── Blinding ──────────────────────────────────────────────────────────────

/// `n` copies of `*`.
pub open spec fn stars(n: nat) -> Seq<Seq<char>> {
    Seq::new(n, |i: int| seq!['*'])
}

/// A subject with each `.`-separated literal replaced by `*`.
pub open spec fn star_mask(s: Seq<char>) -> Seq<char> {
    joined(stars(split_dots(s).len()), seq!['.'])
}

/// Token shown for a subject.
pub open spec fn subject_token(d: MetadataDisclosure, s: Seq<char>, redact_literals: bool) -> Seq<char> {
    match d {
        MetadataDisclosure::Full => if redact_literals { star_mask(s) } else { s },
        MetadataDisclosure::Hashed => hash_token_text(s),
        MetadataDisclosure::Redacted => "<redacted>"@,
    }
}

/// Token shown for an identifier such as a tenant.
pub open spec fn identifier_token(d: MetadataDisclosure, v: Seq<char>) -> Seq<char> {
    match d {
        MetadataDisclosure::Full => v,
        MetadataDisclosure::Hashed => hash_token_text(v),
        MetadataDisclosure::Redacted => "<redacted>"@,
    }
}

proof fn lemma_split_step(t: Seq<char>, c: char)
    requires
        split_dots(t).len() >= 1,
    ensures
        split_dots(t.push(c)).len() == split_dots(t).len() + (if c == '.' { 1int } else { 0int }),
        split_dots(t.push(c)).len() >= 1,
{
    assert(t.push(c).drop_last() =~= t);
}

proof fn lemma_split_nonempty(s: Seq<char>)
    ensures
        split_dots(s).len() >= 1,
    decreases s.len(),
{
    if s.len() > 0 {
        lemma_split_nonempty(s.drop_last());
    }
}

proof fn lemma_stars_grow(n: nat)
    requires
        n >= 1,
    ensures
        joined(stars(n + 1), seq!['.']) == joined(stars(n), seq!['.']) + seq!['.', '*'],
{
    assert(stars(n + 1).drop_last() =~= stars(n));
    assert(stars(n + 1).last() == seq!['*']);
    assert(joined(stars(n), seq!['.']) + seq!['.'] + seq!['*'] =~= joined(stars(n), seq!['.']) + seq!['.', '*']);
}

fn mask_literals(subject: &str) -> (m: String)
    ensures
        m@ == star_mask(subject@),
{
    let chars = str_chars(subject);
    let mut m = owned("*");
    let ghost mut n: nat = 1;
    proof {
        assert(chars@.take(0) =~= Seq::<char>::empty());
        assert(stars(1)[0] == seq!['*']);
        reveal_strlit("*");
        assert(m@ =~= joined(stars(1), seq!['.']));
    }
    let mut i: usize = 0;
    while i < chars.len()
        invariant
            i <= chars.len(),
            chars@ == subject@,
            n >= 1,
            n == split_dots(chars@.take(i as int)).len(),
            m@ == joined(stars(n), seq!['.']),
        decreases chars.len() - i,
    {
        let c = chars[i];
        proof {
            assert(chars@.take(i + 1) =~= chars@.take(i as int).push(c));
            lemma_split_step(chars@.take(i as int), c);
        }
        if c == '.' {
            proof {
                lemma_stars_grow(n);
            }
            push_char(&mut m, '.');
            push_char(&mut m, '*');
            proof {
                n = n + 1;
                assert(m@ =~= joined(stars((n - 1) as nat), seq!['.']) + seq!['.', '*']);
            }
        }
        i = i + 1;
    }
    assert(chars@.take(chars.len() as int) =~= chars@);
    m
}

/// Token shown for a subject under a disclosure mode.
pub fn blind_subject(disclosure: MetadataDisclosure, subject: &str, redact_literals: bool) -> (t: String)
    ensures
        t@ == subject_token(disclosure, subject@, redact_literals),
{
    match disclosure {
        MetadataDisclosure::Full => if redact_literals {
            mask_literals(subject)
        } else {
            owned(subject)
        },
        MetadataDisclosure::Hashed => hash_token(subject),
        MetadataDisclosure::Redacted => {
            let r = owned("<redacted>");
            r
        },
    }
}

/// Token shown for an identifier under a disclosure mode.
pub fn blind_identifier(disclosure: MetadataDisclosure, value: &str) -> (t: String)
    ensures
        t@ == identifier_token(disclosure, value@),
{
    match disclosure {
        MetadataDisclosure::Full => owned(value),
        MetadataDisclosure::Hashed => hash_token(value),
        MetadataDisclosure::Redacted => owned("<redacted>"),
    }
}

// ─── Noise seeds and noised counts ─────────────────────────────────────────

/// Bytes hashed into the noise seed of one field of an export: the policy
/// name, summary name, subject and tenant (each length-prefixed), the
/// cross-tenant flag, the field name and the disclosure nonce.
pub open spec fn seed_bytes(p: ExportPolicy, s: AuthoritativeMetadataSummary, field: Seq<char>, nonce: u64) -> Seq<u8> {
    text_bytes(p.name@) + text_bytes(s.summary_name@) + text_bytes(s.subject@) + text_bytes(s.tenant@)
        + seq![if s.cross_tenant { 1u8 } else { 0u8 }] + text_bytes(field) + u64_bytes(nonce)
}

/// Deterministic noise seed of one field of an export (64-bit FNV-1a of
/// [`seed_bytes`]): the same export and nonce always give the same seed,
/// and each field gets its own.
pub fn noise_seed(policy: &ExportPolicy, summary: &AuthoritativeMetadataSummary, field: &str, disclosure_nonce: u64) -> (h: u64)
    ensures
        h == fnv1a(seed_bytes(*policy, *summary, field@, disclosure_nonce)),
{
    let mut buf: Vec<u8> = Vec::new();
    push_text(&mut buf, policy.name.as_str());
    push_text(&mut buf, summary.summary_name.as_str());
    push_text(&mut buf, summary.subject.as_str());
    push_text(&mut buf, summary.tenant.as_str());
    push_tag(&mut buf, if summary.cross_tenant { 1u8 } else { 0u8 });
    push_text(&mut buf, field);
    push_u64(&mut buf, disclosure_nonce);
    assert(buf@ =~= seed_bytes(*policy, *summary, field@, disclosure_nonce));
    fnv1a_bytes(buf.as_slice())
}

/// Noise seeds of the message, byte and error counts of an export.
pub fn count_noise_seeds(policy: &ExportPolicy, summary: &AuthoritativeMetadataSummary, disclosure_nonce: u64) -> (s: [u64; 3])
    ensures
        s[0] == fnv1a(seed_bytes(*policy, *summary, "message_count"@, disclosure_nonce)),
        s[1] == fnv1a(seed_bytes(*policy, *summary, "byte_count"@, disclosure_nonce)),
        s[2] == fnv1a(seed_bytes(*policy, *summary, "error_count"@, disclosure_nonce)),
{
    let m = noise_seed(policy, summary, "message_count", disclosure_nonce);
    let b = noise_seed(policy, summary, "byte_count", disclosure_nonce);
    let e = noise_seed(policy, summary, "error_count", disclosure_nonce);
    [m, b, e]
}

/// SplitMix64 output for a state.
pub open spec fn splitmix(state: u64) -> u64 {
    mix64(wrapping_add(state, COMPONENT_SALT))
}

/// One SplitMix64 step: advance the state by the golden-ratio increment
/// and mix it.
pub fn splitmix64(state: u64) -> (r: u64)
    ensures
        r == splitmix(state),
{
    mix(state.wrapping_add(COMPONENT_SALT))
}

/// The 53 high bits of the SplitMix64 output of a seed, from which a
/// uniform draw in the open unit interval is made.
pub fn noise_sample_bits(seed: u64) -> (r: u64)
    ensures
        r == splitmix(seed) >> 11u64,
        r < 0x20_0000_0000_0000,
{
    let x = splitmix64(seed);
    assert(x >> 11u64 < 0x20_0000_0000_0000u64) by (bit_vector);
    x >> 11u64
}

/// A count shifted by a signed delta, saturating at `0` and `u64::MAX`.
pub open spec fn noised(value: u64, delta: i64) -> u64 {
    let t = value + delta;
    if t < 0 {
        0
    } else if t > u64::MAX {
        u64::MAX
    } else {
        t as u64
    }
}

/// Shifts a count by a signed delta, saturating at the bounds of `u64`.
pub fn apply_noise(value: u64, delta: i64) -> (r: u64)
    ensures
        r == noised(value, delta),
{
    let t: i128 = value as i128 + delta as i128;
    if t < 0 {
        0
    } else if t > u64::MAX as i128 {
        u64::MAX
    } else {
        t as u64
    }
}

// ─── Blinded summaries ─────────────────────────────────────────────────────

/// Noise deltas for the three counts of a summary.
#[derive(Debug, Clone, Copy, PartialEq, Eq, Structural)]
pub struct CountNoise {
    /// Delta of the message count.
    pub message: i64,
    /// Delta of the byte count.
    pub byte: i64,
    /// Delta of the error count.
    pub error: i64,
}

/// A summary after blinding and noise, as shown across the boundary.
#[derive(Debug, Clone, PartialEq, Eq)]
pub struct BlindedMetadataSummary {
    /// Stable summary family or advisory name.
    pub summary_name: String,
    /// Policy name that governed the export.
    pub policy_name: String,
    /// Boundary disclosure mode used for the export.
    pub disclosure: MetadataDisclosure,
    /// Subject token shown to the observer after blinding.
    pub subject_token: String,
    /// Tenant token shown to the observer after blinding.
    pub tenant_token: String,
    /// Exported message count after noise.
    pub message_count: u64,
    /// Exported byte count after noise.
    pub byte_count: u64,
    /// Exported error count after noise.
    pub error_count: u64,
    /// Applied message-count noise delta.
    pub message_noise: i64,
    /// Applied byte-count noise delta.
    pub byte_noise: i64,
    /// Applied error-count noise delta.
    pub error_noise: i64,
    /// Whether the export crossed a tenant boundary.
    pub cross_tenant: bool,
}

/// `b` is the summary `s` blinded under policy `p` with noise `n`.
pub open spec fn is_blinding(b: BlindedMetadataSummary, p: ExportPolicy, s: AuthoritativeMetadataSummary, n: CountNoise) -> bool {
    &&& b.summary_name@ == s.summary_name@
    &&& b.policy_name@ == p.name@
    &&& b.disclosure == p.metadata_disclosure
    &&& b.subject_token@ == subject_token(p.metadata_disclosure, s.subject@, p.redact_subject_literals)
    &&& b.tenant_token@ == identifier_token(p.metadata_disclosure, s.tenant@)
    &&& b.message_count == noised(s.message_count, n.message)
    &&& b.byte_count == noised(s.byte_count, n.byte)
    &&& b.error_count == noised(s.error_count, n.error)
    &&& b.message_noise == n.message
    &&& b.byte_noise == n.byte
    &&& b.error_noise == n.error
    &&& b.cross_tenant == s.cross_tenant
}

/// Blinds a summary under a policy and shifts its counts by the given
/// noise; the summary itself is left as it was.
pub fn blind_summary(policy: &ExportPolicy, summary: &AuthoritativeMetadataSummary, noise: CountNoise) -> (b: BlindedMetadataSummary)
    ensures
        is_blinding(b, *policy, *summary, noise),
{
    BlindedMetadataSummary {
        summary_name: copy_string(&summary.summary_name),
        policy_name: copy_string(&policy.name),
        disclosure: policy.metadata_disclosure,
        subject_token: blind_subject(policy.metadata_disclosure, summary.subject.as_str(), policy.redact_subject_literals),
        tenant_token: blind_identifier(policy.metadata_disclosure, summary.tenant.as_str()),
        message_count: apply_noise(summary.message_count, noise.message),
        byte_count: apply_noise(summary.byte_count, noise.byte),
        error_count: apply_noise(summary.error_count, noise.error),
        message_noise: noise.message,
        byte_noise: noise.byte,
        error_noise: noise.error,
        cross_tenant: summary.cross_tenant,
    }
}

// ─── Laws ──────────────────────────────────────────────────────────────────

/// A full-disclosure export without literal masking and without noise
/// shows the authoritative values exactly.
pub proof fn law_plain_export_is_exact(b: BlindedMetadataSummary, p: ExportPolicy, s: AuthoritativeMetadataSummary)
    requires
        p.metadata_disclosure == MetadataDisclosure::Full,
        !p.redact_subject_literals,
        is_blinding(b, p, s, CountNoise { message: 0, byte: 0, error: 0 }),
    ensures
        b.subject_token@ == s.subject@,
        b.tenant_token@ == s.tenant@,
        b.message_count == s.message_count,
        b.byte_count == s.byte_count,
        b.error_count == s.error_count,
{
}

/// Masking keeps the shape of a subject: the mask has as many
/// `.`-separated pieces as the subject, and each piece is `*`.
pub proof fn law_mask_keeps_shape(s: Seq<char>)
    ensures
        split_dots(star_mask(s)) == stars(split_dots(s).len()),
{
    lemma_split_nonempty(s);
    lemma_split_of_stars(split_dots(s).len());
}

proof fn lemma_split_of_stars(n: nat)
    requires
        n >= 1,
    ensures
        split_dots(joined(stars(n), seq!['.'])) == stars(n),
    decreases n,
{
    if n == 1 {
        assert(joined(stars(1), seq!['.']) =~= seq!['*']);
        let one = seq!['*'];
        assert(one.drop_last() =~= Seq::<char>::empty());
        assert(split_dots(Seq::<char>::empty()) == seq![Seq::<char>::empty()]);
        assert(Seq::<char>::empty().push('*') =~= seq!['*']);
        assert(split_dots(one) =~= seq![Seq::<char>::empty()].update(0, seq!['*']));
        assert(split_dots(one) =~= stars(1));
    } else {
        let m = (n - 1) as nat;
        lemma_split_of_stars(m);
        lemma_stars_grow(m);
        let x = joined(stars(m), seq!['.']);
        let xd = x.push('.');
        let xs = xd.push('*');
        assert(x + seq!['.', '*'] =~= xs);
        assert(xs.drop_last() =~= xd);
        assert(xd.drop_last() =~= x);
        assert(split_dots(xd) == stars(m).push(Seq::<char>::empty()));
        assert(Seq::<char>::empty().push('*') =~= seq!['*']);
        assert(split_dots(xs) =~= stars(n));
    }
}

/// Counts never leave the range of `u64`, and a zero delta leaves a count
/// unchanged.
pub proof fn law_noise_is_saturating(value: u64, delta: i64)
    ensures
        delta >= 0 ==> noised(value, delta) >= value,
        delta <= 0 ==> noised(value, delta) <= value,
        noised(value, 0) == value,
        value + delta >= 0 && value + delta <= u64::MAX ==> noised(value, delta) == value + delta,
{
}

} // verus!
