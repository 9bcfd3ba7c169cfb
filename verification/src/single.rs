//! Single-precision numbers handled by their IEEE-754 bit patterns: telling
//! finite numbers and NaNs apart, comparing, and clamping, with the meaning
//! that `f32`'s `<`, `is_finite` and `clamp` give them.

use vstd::prelude::*;

verus! {

/// The bit pattern of `0.0`.
pub const ZERO: u32 = 0;

/// The bit pattern of `1.0`.
pub const ONE: u32 = 0x3f80_0000;

/// The bit pattern of `12.0`.
pub const TWELVE: u32 = 0x4140_0000;

/// The bit pattern of `-12.0`.
pub const MINUS_TWELVE: u32 = 0xc140_0000;

/// The bit pattern of `20.0`.
pub const TWENTY: u32 = 0x41a0_0000;

/// The bit pattern of `20000.0`.
pub const TWENTY_THOUSAND: u32 = 0x469c_4000;

/// The biased exponent field of a pattern.
pub open spec fn exponent(bits: u32) -> int {
    (bits / 0x80_0000) as int % 256
}

/// The fraction field of a pattern.
pub open spec fn fraction(bits: u32) -> int {
    (bits % 0x80_0000) as int
}

/// Whether the pattern is a NaN: all exponent bits set, a fraction.
pub open spec fn is_nan(bits: u32) -> bool {
    exponent(bits) == 255 && fraction(bits) != 0
}

/// Whether the pattern is a finite number: not all exponent bits set.
pub open spec fn is_finite(bits: u32) -> bool {
    exponent(bits) != 255
}

/// Where a pattern that is no NaN sits on the number line: positive
/// patterns order by their value, negative ones in reverse, and both zeros
/// meet at `0`.
pub open spec fn order_key(bits: u32) -> int {
    if bits < 0x8000_0000 {
        bits as int
    } else {
        0x8000_0000 - bits
    }
}

/// IEEE-754 `a < b`: false whenever either is a NaN.
pub open spec fn less(a: u32, b: u32) -> bool {
    !is_nan(a) && !is_nan(b) && order_key(a) < order_key(b)
}

/// `f32::clamp(value, low, high)`: `low` if the value is below it, then
/// `high` if above it; a NaN stays as it is.
pub open spec fn clamped(value: u32, low: u32, high: u32) -> u32 {
    let raised = if less(value, low) {
        low
    } else {
        value
    };
    if less(high, raised) {
        high
    } else {
        raised
    }
}

/// Whether the pattern is a NaN.
pub fn bits_is_nan(bits: u32) -> (nan: bool)
    ensures
        nan == is_nan(bits),
{
    bits / 0x80_0000 % 256 == 255 && bits % 0x80_0000 != 0
}

/// Whether the pattern is a finite number, as `f32::is_finite`.
pub fn bits_is_finite(bits: u32) -> (finite: bool)
    ensures
        finite == is_finite(bits),
{
    bits / 0x80_0000 % 256 != 255
}

fn bits_order_key(bits: u32) -> (key: i64)
    ensures
        key == order_key(bits),
{
    if bits < 0x8000_0000 {
        bits as i64
    } else {
        0x8000_0000i64 - bits as i64
    }
}

/// IEEE-754 `a < b` on bit patterns, as `f32`'s `<`.
pub fn bits_less(a: u32, b: u32) -> (lt: bool)
    ensures
        lt == less(a, b),
{
    !bits_is_nan(a) && !bits_is_nan(b) && bits_order_key(a) < bits_order_key(b)
}

/// `f32::clamp` on bit patterns.
pub fn bits_clamp(value: u32, low: u32, high: u32) -> (result: u32)
    ensures
        result == clamped(value, low, high),
{
    let raised = if bits_less(value, low) {
        low
    } else {
        value
    };
    if bits_less(high, raised) {
        high
    } else {
        raised
    }
}

/// Among finite positive numbers, `<` is the order of the patterns.
pub proof fn positive_order_is_pattern_order(a: u32, b: u32)
    requires
        a < 0x8000_0000,
        b < 0x8000_0000,
        is_finite(a),
        is_finite(b),
    ensures
        less(a, b) <==> a < b,
{
}

/// A clamp into a range of finite positive numbers gives a finite number in
/// the range, or keeps a NaN.
pub proof fn clamp_into_positive_range(value: u32, low: u32, high: u32)
    requires
        0 < low <= high < 0x7f80_0000,
    ensures
        is_nan(value) ==> clamped(value, low, high) == value,
        !is_nan(value) ==> low <= clamped(value, low, high) <= high,
{
    assert(exponent(low) < 255 && exponent(high) < 255) by {
        assert(low / 0x80_0000 < 255);
        assert(high / 0x80_0000 < 255);
    }
}

/// Clamping twice is clamping once, for bounds that are no NaN and in order.
pub proof fn clamp_is_idempotent(value: u32, low: u32, high: u32)
    requires
        !is_nan(low),
        !is_nan(high),
        !less(high, low),
    ensures
        clamped(clamped(value, low, high), low, high) == clamped(value, low, high),
{
}

/// Clamping a finite number between finite bounds gives a finite number.
pub proof fn clamp_keeps_finite(value: u32, low: u32, high: u32)
    requires
        is_finite(value),
        is_finite(low),
        is_finite(high),
    ensures
        is_finite(clamped(value, low, high)),
{
}

} // verus!
