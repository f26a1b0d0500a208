//! Q20 and Q8 fixed-point helpers used by the rasterising stages.
use vstd::prelude::*;

verus! {

/// Number of fractional bits of the Q20 format.
pub const FIXED_SHIFT: usize = 20;

/// Number of fractional bits of the coarse Q8 format.
pub const FIXED_SHIFT_LARGE: usize = 8;

/// 1.0 in Q20.
pub const FIXED_ONE: i32 = 1048576;

/// 1.0 in Q8.
pub const FIXED_ONE_LARGE: i32 = 256;

/// Product of two Q20 numbers, truncated back to 32 bits.
pub open spec fn fixed_mul_spec(a: i32, b: i32) -> i32 {
    ((a as int * b as int) / 1048576int) as i32
}

/// Q20 product: `(a * b) >> 20`, computed on 64 bits.
pub fn fixed_mul(a: i32, b: i32) -> (r: i32)
    ensures
        r == fixed_mul_spec(a, b),
{
    assert(-2147483648 * 2147483648 <= (a as int) * (b as int) <= 2147483648 * 2147483648)
        by (nonlinear_arith);
    let p: i64 = (a as i64) * (b as i64);
    let q: i64 = p >> 20u64;
    assert(q == p / 1048576) by (bit_vector)
        requires q == p >> 20u64;
    #[verifier::truncate]
    (q as i32)
}

} // verus!

verus! {

/// A Q20 shade factor clamped into `[0, 1]`.
pub open spec fn clamp_unit(alpha: i32) -> int {
    if alpha < 0 { 0 } else if alpha > 1048576 { 1048576 } else { alpha as int }
}

/// A colour channel scaled by a Q20 shade factor clamped into `[0, 1]`.
pub open spec fn shade_spec(c: u8, alpha: i32) -> u8 {
    ((c as int * clamp_unit(alpha)) / 1048576) as u8
}

/// Scales colour channel `c` by the Q20 factor `alpha`: `(c * alpha) >> 20`,
/// with `alpha` clamped into `[0, FIXED_ONE]` so the result stays a channel.
pub fn shade(c: u8, alpha: i32) -> (r: u8)
    ensures
        r == shade_spec(c, alpha),
        r <= c,
{
    let a: i64 = if alpha < 0 { 0 } else if alpha > FIXED_ONE { FIXED_ONE as i64 } else { alpha as i64 };
    assert(0 <= (c as int) * (a as int) <= (c as int) * 1048576) by (nonlinear_arith)
        requires 0 <= a <= 1048576, c >= 0;
    let p: i64 = (c as i64) * a;
    let q: i64 = p / 1048576;
    assert(q <= c) by (nonlinear_arith)
        requires q == p / 1048576, 0 <= p <= (c as int) * 1048576;
    q as u8
}

} // verus!

verus! {

/// Integer division rounded toward zero, as Rust's `/` does.
pub open spec fn div_toward_zero(a: int, b: int) -> int {
    let q = magnitude(a) / magnitude(b);
    if (a >= 0) == (b > 0) { q } else { -q }
}

/// Absolute value.
pub open spec fn magnitude(a: int) -> int {
    if a < 0 { -a } else { a }
}

/// Q20 quotient: `a * 2^20 / b` computed exactly and rounded toward zero,
/// then narrowed to 32 bits (wrapping where it does not fit); a zero
/// divisor yields 0.
pub open spec fn fixed_div_spec(a: i32, b: i32) -> i32 {
    if b == 0 { 0 } else { div_toward_zero(a as int * 1048576, b as int) as i32 }
}

/// Q20 quotient of `a` by `b`, on 64 bits; 0 when `b` is 0.
pub fn fixed_div(a: i32, b: i32) -> (r: i32)
    ensures
        r == fixed_div_spec(a, b),
        b != 0 && i32::MIN <= div_toward_zero(a as int * 1048576, b as int) <= i32::MAX
            ==> r == div_toward_zero(a as int * 1048576, b as int),
{
    if b == 0 {
        return 0;
    }
    let wide: i64 = (a as i64) * 1048576;
    let wa: i64 = if wide < 0 { -wide } else { wide };
    let ba: i64 = if b < 0 { -(b as i64) } else { b as i64 };
    let q: i64 = wa / ba;
    let signed: i64 = if (wide >= 0) == (b > 0) { q } else { -q };
    #[verifier::truncate]
    let r: i32 = signed as i32;
    r
}

} // verus!
