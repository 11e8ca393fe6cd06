//! Fixed-point arithmetic through the `fixed` crate, on raw bits.
//!
//! `I26F6` values carry 6 fraction bits (the throttle curve), `I16F16`
//! values carry 16 (the attitude controllers). Values cross this module as
//! their `i32` bit patterns; the operations are the `fixed` crate's own.
use vstd::prelude::*;

verus! {

/// Floor of the square root.
pub open spec fn isqrt(n: nat) -> nat
    decreases n,
{
    if n == 0 {
        0
    } else {
        let r = isqrt((n - 1) as nat);
        if (r + 1) * (r + 1) <= n {
            r + 1
        } else {
            r
        }
    }
}

/// Integer division rounding toward zero.
pub open spec fn div_trunc(a: int, b: int) -> int {
    if (a >= 0) == (b > 0) || a == 0 {
        if a >= 0 {
            a / b
        } else {
            (-a) / (-b)
        }
    } else {
        if a >= 0 {
            -(a / (-b))
        } else {
            -((-a) / b)
        }
    }
}

/// Relies on `fixed_sqrt::FastSqrt::fast_sqrt` for `I26F6`: for a
/// non-negative value it returns the integer square root of the bits shifted
/// left by half the fraction bits (three).
#[verifier::external_body]
pub(crate) fn sqrt_i26f6(bits: i32) -> (r: i32)
    requires
        bits >= 0,
    ensures
        r == 8 * isqrt(bits as nat),
{
    fixed_sqrt::FastSqrt::fast_sqrt(fixed::types::I26F6::from_bits(bits)).to_bits()
}

/// Relies on `Mul` for `fixed::types::I26F6`: the exact product shifted right
/// by the fraction bits, which rounds toward minus infinity.
#[verifier::external_body]
pub(crate) fn mul_i26f6(a: i32, b: i32) -> (r: i32)
    requires
        -0x20_0000_0000 < a * b < 0x20_0000_0000,
    ensures
        r == (a * b) / 64,
{
    (fixed::types::I26F6::from_bits(a) * fixed::types::I26F6::from_bits(b)).to_bits()
}

/// Relies on `Div` for `fixed::types::I26F6`: the dividend shifted left by
/// the fraction bits, divided with rounding toward zero.
#[verifier::external_body]
pub(crate) fn div_i26f6(a: i32, b: i32) -> (r: i32)
    requires
        b != 0,
        i32::MIN <= div_trunc(a * 64, b as int) <= i32::MAX,
    ensures
        r == div_trunc(a * 64, b as int),
{
    (fixed::types::I26F6::from_bits(a) / fixed::types::I26F6::from_bits(b)).to_bits()
}

/// Relies on `to_num::<i32>` for `fixed::types::I26F6`: the fraction bits are
/// discarded, which rounds toward minus infinity.
#[verifier::external_body]
pub(crate) fn to_int_i26f6(a: i32) -> (r: i32)
    ensures
        r == a / 64,
{
    fixed::types::I26F6::from_bits(a).to_num::<i32>()
}


/// Relies on `Mul` for `fixed::types::I16F16`: the exact product shifted right
/// by the fraction bits, which rounds toward minus infinity.
#[verifier::external_body]
pub(crate) fn mul_i16f16(a: i32, b: i32) -> (r: i32)
    requires
        -0x8000_0000_0000 < a * b < 0x8000_0000_0000,
    ensures
        r == (a * b) / 65536,
{
    (fixed::types::I16F16::from_bits(a) * fixed::types::I16F16::from_bits(b)).to_bits()
}

/// Relies on `Div` for `fixed::types::I16F16`: the dividend shifted left by
/// the fraction bits, divided with rounding toward zero.
#[verifier::external_body]
pub(crate) fn div_i16f16(a: i32, b: i32) -> (r: i32)
    requires
        b != 0,
        i32::MIN <= div_trunc(a * 65536, b as int) <= i32::MAX,
    ensures
        r == div_trunc(a * 65536, b as int),
{
    (fixed::types::I16F16::from_bits(a) / fixed::types::I16F16::from_bits(b)).to_bits()
}

/// Relies on `to_num::<i32>` for `fixed::types::I16F16`: the fraction bits
/// are discarded, which rounds toward minus infinity.
#[verifier::external_body]
pub(crate) fn to_int_i16f16(a: i32) -> (r: i32)
    ensures
        r == a / 65536,
{
    fixed::types::I16F16::from_bits(a).to_num::<i32>()
}


/// Name of what `cordic::atan2` returns on `I16F16` values (given as bits).
pub uninterp spec fn cordic_atan2(y: i32, x: i32) -> i32;

/// Whether `cordic::atan2` runs without overflow: when neither argument
/// is zero it divides `y` by `x` (negating one of them first in three
/// quadrants), then runs CORDIC from `(1, y / x)`, whose first coordinate
/// grows to about 1.65 times the quotient.
pub open spec fn atan2_in_range(y: i32, x: i32) -> bool {
    x == 0 || y == 0 || (y != i32::MIN && x != i32::MIN && -0x4000_0000 <= div_trunc(
        y * 65536,
        x as int,
    ) <= 0x4000_0000)
}

/// Relies on `cordic::atan2` for `I16F16`: the angle of `(x, y)`, computed
/// by CORDIC iterations from the two arguments alone.
#[verifier::external_body]
pub(crate) fn atan2_i16f16(y: i32, x: i32) -> (r: i32)
    requires
        atan2_in_range(y, x),
    ensures
        r == cordic_atan2(y, x),
{
    cordic::atan2(fixed::types::I16F16::from_bits(y), fixed::types::I16F16::from_bits(x)).to_bits()
}

/// Relies on `fixed_sqrt::FastSqrt::fast_sqrt` for `I32F32`: for a
/// non-negative value, the integer square root of the bits shifted left by
/// half the fraction bits (sixteen).
#[verifier::external_body]
pub(crate) fn sqrt_i32f32(bits: i64) -> (r: i64)
    requires
        bits >= 0,
    ensures
        r == 65536 * isqrt(bits as nat),
{
    fixed_sqrt::FastSqrt::fast_sqrt(fixed::types::I32F32::from_bits(bits)).to_bits()
}


/// Relies on `fixed_sqrt::FastSqrt::fast_sqrt` for `I16F16`: for a
/// non-negative value, the integer square root of the bits shifted left by
/// half the fraction bits (eight).
#[verifier::external_body]
pub(crate) fn sqrt_i16f16(bits: i32) -> (r: i32)
    requires
        bits >= 0,
    ensures
        r == 256 * isqrt(bits as nat),
{
    fixed_sqrt::FastSqrt::fast_sqrt(fixed::types::I16F16::from_bits(bits)).to_bits()
}


/// Name of the decimal text that `fixed` writes for an `I16F16` value
/// (given as bits).
pub uninterp spec fn q16_text(bits: i32) -> Seq<u8>;

/// Relies on `Display` for `fixed::types::I16F16`: the shortest decimal
/// text of the value, which depends on the value alone.
#[verifier::external_body]
pub(crate) fn q16_to_text(bits: i32) -> (r: Vec<u8>)
    ensures
        r@ == q16_text(bits),
{
    format!("{}", fixed::types::I16F16::from_bits(bits)).into_bytes()
}

} // verus!
