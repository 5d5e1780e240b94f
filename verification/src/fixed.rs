//! Fixed-point raw values.
//!
//! A raw value is an `i128` that counts units of 2^-60, so `ONE` stands for 1.0. Sums
//! are exact until they leave the `i128` range, where they stop at its ends.

use vstd::prelude::*;

verus! {

/// Number of fractional bits of a raw value.
pub const FRACTION_BITS: u32 = 60;

/// The raw value that stands for 1.0.
pub const ONE: i128 = 0x1000_0000_0000_0000;

/// The nearest `i128` to a mathematical integer.
pub open spec fn clamp(v: int) -> i128 {
    if v > i128::MAX {
        i128::MAX
    } else if v < i128::MIN {
        i128::MIN
    } else {
        v as i128
    }
}

/// Adds two raw values, stopping at the ends of the `i128` range.
pub fn saturating_sum(a: i128, b: i128) -> (sum: i128)
    ensures
        sum == clamp(a + b),
{
    match a.checked_add(b) {
        Some(v) => v,
        None => if b > 0 {
            i128::MAX
        } else {
            i128::MIN
        },
    }
}

} // verus!
