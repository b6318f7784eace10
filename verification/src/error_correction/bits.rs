//! Byte-level helpers shared by the tiers.

use vstd::prelude::*;

verus! {

/// `x` rotated left by `n` bit positions; positions are counted modulo 8.
pub open spec fn rotl8(x: u8, n: nat) -> u8 {
    let r = (n % 8) as u8;
    (x << r) | (x >> ((8 - r) as u8))
}

/// Whether bit `q` of `x` is set. A byte has no bit beyond the seventh.
pub open spec fn bit_is_set(x: u8, q: int) -> bool {
    0 <= q < 8 && (x >> (q as u8)) & 1u8 == 1u8
}

/// Rotates `x` left by `n` bit positions.
pub fn rotate_left(x: u8, n: usize) -> (r: u8)
    ensures
        r == rotl8(x, n as nat),
{
    let k: u8 = (n % 8) as u8;
    if k == 0 {
        assert((x << 0u8) | (x >> 8u8) == x) by (bit_vector);
        x
    } else {
        (x << k) | (x >> (8 - k))
    }
}

/// Tests bit `q` of `x`.
pub fn test_bit(x: u8, q: usize) -> (b: bool)
    ensures
        b == bit_is_set(x, q as int),
{
    if q < 8 {
        let s: u8 = q as u8;
        assert(((x >> s) & 1u8 != 0u8) == ((x >> s) & 1u8 == 1u8)) by (bit_vector);
        (x >> s) & 1u8 != 0u8
    } else {
        false
    }
}

/// `value` brought into the range `low` to `high`.
pub open spec fn clamp_u8(value: u8, low: u8, high: u8) -> u8 {
    if value < low {
        low
    } else if value > high {
        high
    } else {
        value
    }
}

/// Brings `value` into the range `low` to `high`.
pub(crate) fn clamp(value: u8, low: u8, high: u8) -> (r: u8)
    ensures
        r == clamp_u8(value, low, high),
{
    if value < low {
        low
    } else if value > high {
        high
    } else {
        value
    }
}

} // verus!
