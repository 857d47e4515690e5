//! Similarity scores as integers.
//!
//! The index never computes with floating point. A similarity reaches it
//! as a 32-bit key whose unsigned order is the numeric order of the IEEE-754
//! single it stands for, so that thresholds and rankings are comparisons of
//! integers. A vector component is kept as the bit pattern it has on the
//! wire.

use vstd::prelude::*;

verus! {

/// The key of the similarity 1.0.
pub const SCORE_ONE: u32 = 0xBF80_0000;

/// The key of the similarity 0.0.
pub const SCORE_ZERO: u32 = 0x8000_0000;

/// The key of the default threshold, 0.85.
pub const DEFAULT_THRESHOLD: u32 = 0xBF59_999A;

/// The number that a bit pattern stands for, up to a positive factor that
/// grows with the magnitude: the magnitude bits, negated where the sign
/// bit is set. Patterns of numbers (not of NaN) are ordered by it as the
/// numbers are.
pub open spec fn sign_magnitude(bits: u32) -> int {
    if bits >= 0x8000_0000 {
        -(bits - 0x8000_0000)
    } else {
        bits as int
    }
}

/// The key of a bit pattern.
pub open spec fn key_of_bits(bits: u32) -> u32 {
    if bits >= 0x8000_0000 {
        (0xFFFF_FFFF - bits) as u32
    } else {
        (bits + 0x8000_0000) as u32
    }
}

/// The bit pattern of a key.
pub open spec fn bits_of_key(key: u32) -> u32 {
    if key >= 0x8000_0000 {
        (key - 0x8000_0000) as u32
    } else {
        (0xFFFF_FFFF - key) as u32
    }
}

/// Computes the key of a bit pattern.
pub fn score_from_bits(bits: u32) -> (key: u32)
    ensures
        key == key_of_bits(bits),
        bits_of_key(key) == bits,
{
    if bits >= 0x8000_0000 {
        0xFFFF_FFFF - bits
    } else {
        bits + 0x8000_0000
    }
}

/// Computes the bit pattern of a key.
pub fn bits_from_score(key: u32) -> (bits: u32)
    ensures
        bits == bits_of_key(key),
        key_of_bits(bits) == key,
{
    if key >= 0x8000_0000 {
        key - 0x8000_0000
    } else {
        0xFFFF_FFFF - key
    }
}

/// Keys are ordered as the numbers are: a smaller number has a smaller
/// key, and a smaller key never stands for a greater number.
pub proof fn lemma_key_order(a: u32, b: u32)
    ensures
        sign_magnitude(a) < sign_magnitude(b) ==> key_of_bits(a) < key_of_bits(b),
        key_of_bits(a) < key_of_bits(b) ==> sign_magnitude(a) <= sign_magnitude(b),
        key_of_bits(a) == key_of_bits(b) <==> a == b,
{
}

} // verus!
