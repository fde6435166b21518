//! Deterministic seed derivation.
//!
//! Sub-seeds are derived from a parent seed and a text tag by hashing the
//! tag's UTF-8 bytes (64-bit FNV-1a) and passing the combination through a
//! bijective 64-bit mixer, so distinct parents give distinct children for
//! the same tag.

use vstd::prelude::*;
use vstd::wrapping::u64_specs::{wrapping_add, wrapping_mul};

verus! {

/// FNV-1a offset basis.
pub const FNV_OFFSET: u64 = 0xcbf2_9ce4_8422_2325;
/// FNV-1a prime.
pub const FNV_PRIME: u64 = 0x0000_0100_0000_01b3;
/// Golden-ratio increment that separates component seeds from scenario
/// seeds.
pub const COMPONENT_SALT: u64 = 0x9e37_79b9_7f4a_7c15;

/// 64-bit FNV-1a hash of a byte sequence.
pub open spec fn fnv1a(bytes: Seq<u8>) -> u64
    decreases bytes.len(),
{
    if bytes.len() == 0 {
        FNV_OFFSET
    } else {
        wrapping_mul(fnv1a(bytes.drop_last()) ^ (bytes.last() as u64), FNV_PRIME)
    }
}

/// Bijective 64-bit finalizer.
pub open spec fn mix64(x: u64) -> u64 {
    let a = wrapping_mul(x ^ (x >> 30u64), 0xbf58_476d_1ce4_e5b9);
    let b = wrapping_mul(a ^ (a >> 27u64), 0x94d0_49bb_1331_11eb);
    b ^ (b >> 31u64)
}

/// Seed of a named component (such as `entropy`) of a run seeded `seed`.
pub open spec fn component_seed(seed: u64, tag: Seq<char>) -> u64 {
    mix64(wrapping_add(seed, COMPONENT_SALT) ^ fnv1a(vstd::utf8::encode_utf8(tag)))
}

/// Seed of a named scenario derived from a canonical seed.
pub open spec fn scenario_seed(seed: u64, tag: Seq<char>) -> u64 {
    mix64(seed ^ fnv1a(vstd::utf8::encode_utf8(tag)))
}

/// FNV-1a hash of a byte slice.
pub fn fnv1a_bytes(bytes: &[u8]) -> (h: u64)
    ensures
        h == fnv1a(bytes@),
{
    let mut h: u64 = FNV_OFFSET;
    let mut i: usize = 0;
    assert(bytes@.take(0) =~= Seq::<u8>::empty());
    while i < bytes.len()
        invariant
            i <= bytes.len(),
            h == fnv1a(bytes@.take(i as int)),
        decreases bytes.len() - i,
    {
        assert(bytes@.take(i + 1).drop_last() =~= bytes@.take(i as int));
        h = (h ^ (bytes[i] as u64)).wrapping_mul(FNV_PRIME);
        i = i + 1;
    }
    assert(bytes@.take(bytes.len() as int) =~= bytes@);
    h
}

/// The bijective 64-bit finalizer.
pub fn mix(x: u64) -> (r: u64)
    ensures
        r == mix64(x),
{
    let a = (x ^ (x >> 30u64)).wrapping_mul(0xbf58_476d_1ce4_e5b9);
    let b = (a ^ (a >> 27u64)).wrapping_mul(0x94d0_49bb_1331_11eb);
    b ^ (b >> 31u64)
}

/// Derives the seed of a named component of a run.
pub fn derive_component_seed(seed: u64, tag: &str) -> (r: u64)
    ensures
        r == component_seed(seed, tag@),
{
    let h = fnv1a_bytes(tag.as_bytes());
    mix(seed.wrapping_add(COMPONENT_SALT) ^ h)
}

/// Derives a scenario seed from a canonical seed and a tag.
pub fn derive_scenario_seed(seed: u64, tag: &str) -> (r: u64)
    ensures
        r == scenario_seed(seed, tag@),
{
    let h = fnv1a_bytes(tag.as_bytes());
    mix(seed ^ h)
}

} // verus!
