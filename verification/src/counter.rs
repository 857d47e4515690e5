//! Counters of 64 bits that start again at zero when they run over.

use vstd::prelude::*;

verus! {

/// The sum of two counts, modulo 2^64.
pub open spec fn wrapped_sum(x: u64, y: u64) -> u64 {
    if x + y <= u64::MAX {
        (x + y) as u64
    } else {
        (x + y - 0x1_0000_0000_0000_0000) as u64
    }
}

/// Adds two counts, modulo 2^64.
pub fn wrapping_sum(x: u64, y: u64) -> (r: u64)
    ensures
        r == wrapped_sum(x, y),
{
    if y <= u64::MAX - x {
        x + y
    } else {
        y - (u64::MAX - x) - 1
    }
}

/// The difference of two counts, or zero where the second is greater.
pub open spec fn clamped_difference(x: u64, y: u64) -> u64 {
    if x >= y {
        (x - y) as u64
    } else {
        0
    }
}

/// Subtracts, stopping at zero.
pub fn saturating_difference(x: u64, y: u64) -> (r: u64)
    ensures
        r == clamped_difference(x, y),
{
    if x >= y {
        x - y
    } else {
        0
    }
}

} // verus!
