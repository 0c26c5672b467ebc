//! Model of IEEE-754 single-precision scalars as raw bit patterns.
//!
//! Every scalar the renderer touches (times, factors, coordinates) is held
//! as the `u32` bit pattern of the corresponding single-precision value.
//! Comparison of two such values is pure integer logic over the patterns,
//! specified and computed here in full; arithmetic (subtraction, division,
//! remainder) is delegated to the floating-point unit behind named, trusted
//! operations.

use vstd::prelude::*;

verus! {

/// Bit pattern of single-precision `1.0`.
pub const ONE_BITS: u32 = 0x3f80_0000;

/// Bit pattern of single-precision `0.0`.
pub const ZERO_BITS: u32 = 0;

/// True when the bit pattern encodes an IEEE-754 NaN: exponent all ones and
/// a non-zero mantissa.
pub open spec fn is_nan_bits(a: u32) -> bool {
    (a & 0x7fff_ffff) > 0x7f80_0000
}

/// Sign-magnitude ordering key. For non-NaN patterns the key orders exactly
/// as the encoded values do, and the two zeros share the key `0`.
pub open spec fn order_key(a: u32) -> int {
    if a >> 31 == 0 {
        (a & 0x7fff_ffff) as int
    } else {
        -((a & 0x7fff_ffff) as int)
    }
}

/// IEEE-754 `<` over bit patterns: false whenever either side is NaN.
pub open spec fn lt_bits(a: u32, b: u32) -> bool {
    &&& !is_nan_bits(a)
    &&& !is_nan_bits(b)
    &&& order_key(a) < order_key(b)
}

/// IEEE-754 `<=` over bit patterns: false whenever either side is NaN.
pub open spec fn le_bits(a: u32, b: u32) -> bool {
    &&& !is_nan_bits(a)
    &&& !is_nan_bits(b)
    &&& order_key(a) <= order_key(b)
}

/// IEEE-754 `==` over bit patterns: equal keys, neither side NaN. This is
/// coarser than bit equality only for the two zeros.
pub open spec fn eq_bits(a: u32, b: u32) -> bool {
    &&& !is_nan_bits(a)
    &&& !is_nan_bits(b)
    &&& order_key(a) == order_key(b)
}

/// The smaller of two patterns; the first operand when they are unordered.
pub open spec fn min_bits(a: u32, b: u32) -> u32 {
    if lt_bits(b, a) {
        b
    } else {
        a
    }
}

/// The larger of two patterns; the first operand when they are unordered.
pub open spec fn max_bits(a: u32, b: u32) -> u32 {
    if lt_bits(a, b) {
        b
    } else {
        a
    }
}

/// IEEE-754 `<` over bit patterns, computed in integer logic: false when
/// either operand is NaN, the two zeros equal, otherwise sign-magnitude
/// order of the encodings.
pub fn f32_lt(a: u32, b: u32) -> (r: bool)
    ensures
        r == lt_bits(a, b),
{
    let ma = a & 0x7fff_ffff;
    let mb = b & 0x7fff_ffff;
    if ma > 0x7f80_0000 || mb > 0x7f80_0000 {
        return false;
    }
    let neg_a = a >> 31 != 0;
    let neg_b = b >> 31 != 0;
    if !neg_a && !neg_b {
        ma < mb
    } else if neg_a && neg_b {
        mb < ma
    } else if neg_a {
        // A negative value is below a positive one unless both are zeros.
        ma > 0 || mb > 0
    } else {
        false
    }
}

/// IEEE-754 `<=` over bit patterns, computed in integer logic as for
/// `f32_lt`.
pub fn f32_le(a: u32, b: u32) -> (r: bool)
    ensures
        r == le_bits(a, b),
{
    let ma = a & 0x7fff_ffff;
    let mb = b & 0x7fff_ffff;
    if ma > 0x7f80_0000 || mb > 0x7f80_0000 {
        return false;
    }
    let neg_a = a >> 31 != 0;
    let neg_b = b >> 31 != 0;
    if !neg_a && !neg_b {
        ma <= mb
    } else if neg_a && neg_b {
        mb <= ma
    } else if neg_a {
        true
    } else {
        // A positive value is at most a negative one only when both are
        // zeros.
        ma == 0 && mb == 0
    }
}

/// IEEE-754 equality over bit patterns.
pub fn f32_eq(a: u32, b: u32) -> (r: bool)
    ensures
        r == eq_bits(a, b),
{
    f32_le(a, b) && f32_le(b, a)
}

/// The smaller of two encoded values, per `min_bits`.
pub fn f32_min(a: u32, b: u32) -> (r: u32)
    ensures
        r == min_bits(a, b),
{
    if f32_lt(b, a) {
        b
    } else {
        a
    }
}

/// The larger of two encoded values, per `max_bits`.
pub fn f32_max(a: u32, b: u32) -> (r: u32)
    ensures
        r == max_bits(a, b),
{
    if f32_lt(a, b) {
        b
    } else {
        a
    }
}

/// Names the single-precision difference `a - b`, a function of the two
/// operands alone.
pub uninterp spec fn sub_bits(a: u32, b: u32) -> u32;

/// Names the single-precision quotient `a / b`, a function of the two
/// operands alone.
pub uninterp spec fn div_bits(a: u32, b: u32) -> u32;

/// Names the single-precision remainder `a % b`, a function of the two
/// operands alone.
pub uninterp spec fn rem_bits(a: u32, b: u32) -> u32;

/// Relies on single-precision subtraction: deterministic in its operands.
#[verifier::external_body]
pub fn f32_sub(a: u32, b: u32) -> (r: u32)
    ensures
        r == sub_bits(a, b),
{
    let v = glam::Vec2::from_array(bytemuck::cast([a, b]));
    let out: [u32; 1] = bytemuck::cast([v.x - v.y]);
    out[0]
}

/// Relies on single-precision division: deterministic in its operands and
/// total (division by zero yields an infinity or NaN, never a panic).
#[verifier::external_body]
pub fn f32_div(a: u32, b: u32) -> (r: u32)
    ensures
        r == div_bits(a, b),
{
    let v = glam::Vec2::from_array(bytemuck::cast([a, b]));
    let out: [u32; 1] = bytemuck::cast([v.x / v.y]);
    out[0]
}

/// Relies on the single-precision remainder: deterministic in its operands
/// and total (a zero divisor yields NaN, never a panic).
#[verifier::external_body]
pub fn f32_rem(a: u32, b: u32) -> (r: u32)
    ensures
        r == rem_bits(a, b),
{
    let v = glam::Vec2::from_array(bytemuck::cast([a, b]));
    let out: [u32; 1] = bytemuck::cast([v.x % v.y]);
    out[0]
}

} // verus!
