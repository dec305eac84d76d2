//! The calls into the `fixed` and `cordic` crates.
//!
//! Each function here hands raw bits to one operation of those crates and
//! hands the raw bits of its answer back. Their contracts are taken on trust
//! from the crates' sources; everything else in this library is proved from
//! them.

use fixed::types::{I16F16, I32F32, I64F0};
use vstd::prelude::*;

verus! {

/// Raw bits of what `cordic::sqrt` returns for the 32.32 number whose raw bits
/// are `bits`. Below one the routine's answer depends on where its search
/// starts, so the value is named here; [`sqrt_q32`] states what holds of it.
pub uninterp spec fn cordic_sqrt_wide(bits: int) -> int;

/// Product of two 16.16 numbers, as `fixed` computes it for `I16F16 * I16F16`.
///
/// The crate multiplies the raw bits in 64 bits and shifts the product right
/// by sixteen places, so the exact product is rounded towards minus infinity.
/// It flags an overflow, and panics on it in a debug build, exactly when that
/// rounded product does not fit in 32 bits.
#[verifier::external_body]
pub(crate) fn mul_q16(a: i32, b: i32) -> (r: i32)
    requires
        i32::MIN <= (a * b) / 65536 <= i32::MAX,
    ensures
        r == (a * b) / 65536,
{
    (I16F16::from_bits(a) * I16F16::from_bits(b)).to_bits()
}

/// A 16.16 number in the 32.32 format, as `I32F32::from_num` converts it.
///
/// The wider format holds every 16.16 number exactly: sixteen more fractional
/// bits are appended, all zero.
#[verifier::external_body]
pub(crate) fn widen(a: i32) -> (w: i64)
    ensures
        w == a * 65536,
{
    I32F32::from_num(I16F16::from_bits(a)).to_bits()
}

/// Product of two 32.32 numbers, as `fixed` computes it for `I32F32 * I32F32`.
///
/// The crate multiplies the raw bits in 128 bits and shifts the product right
/// by thirty-two places: the exact product, rounded towards minus infinity. It
/// panics in a debug build when the rounded product does not fit in 64 bits.
#[verifier::external_body]
pub(crate) fn mul_q32(a: i64, b: i64) -> (w: i64)
    requires
        i64::MIN <= (a * b) / 0x1_0000_0000 <= i64::MAX,
    ensures
        w == (a * b) / 0x1_0000_0000,
{
    (I32F32::from_bits(a) * I32F32::from_bits(b)).to_bits()
}

/// A 32.32 number in the 16.16 format, as `I16F16::from_num` converts it.
///
/// The crate discards the sixteen extra fractional bits, which rounds towards
/// minus infinity, and panics in a debug build when the number does not fit.
#[verifier::external_body]
pub(crate) fn narrow(w: i64) -> (r: i32)
    requires
        i32::MIN <= w / 65536 <= i32::MAX,
    ensures
        r == w / 65536,
{
    I16F16::from_num(I32F32::from_bits(w)).to_bits()
}

/// Integer part of a 16.16 number, as `I64F0::from_num` converts it to the
/// 64-bit format without fractional bits.
///
/// The crate discards the fractional bits, which rounds towards minus
/// infinity; every 16.16 number fits.
#[verifier::external_body]
pub(crate) fn integer_part(a: i32) -> (n: i64)
    ensures
        n == a / 65536,
{
    I64F0::from_num(I16F16::from_bits(a)).to_bits()
}

/// The 16.16 number equal to a 64-bit integer, as `I16F16::from_num` converts
/// it from the format without fractional bits.
///
/// The crate panics in a debug build when the integer does not fit in the
/// sixteen integer bits.
#[verifier::external_body]
pub(crate) fn from_integer(n: i64) -> (r: i32)
    requires
        -32768 <= n <= 32767,
    ensures
        r == n * 65536,
{
    I16F16::from_num(I64F0::from_bits(n)).to_bits()
}

/// A 64-bit integer in the 32.32 format, as `I32F32::from_num` converts it
/// from the format without fractional bits.
///
/// Thirty-two fractional bits are appended, all zero. The crate panics in a
/// debug build when the integer does not fit in the thirty-two integer bits.
#[verifier::external_body]
pub(crate) fn widen_integer(n: i64) -> (w: i64)
    requires
        -0x8000_0000 <= n <= 0x7fff_ffff,
    ensures
        w == n * 0x1_0000_0000,
{
    I32F32::from_num(I64F0::from_bits(n)).to_bits()
}

/// Square root of a 32.32 number, by `cordic::sqrt`.
///
/// The routine returns zero and one as they are. Otherwise it starts from a
/// power of two whose rounded square does not exceed the argument, and then
/// tries to add each lower bit in turn, keeping a bit exactly when the rounded
/// square of the sum still does not exceed the argument; squares are rounded
/// towards minus infinity, as in [`mul_q32`]. So the result is never negative
/// and its rounded square never exceeds the argument. For an argument of one
/// and more the start is the largest such power of two, and the result is the
/// largest number whose rounded square does not exceed the argument.
///
/// The routine first doubles a power of two until its square exceeds the
/// argument; that square has to be representable, which holds for arguments
/// below two to the thirtieth. It does not return for a negative argument.
#[verifier::external_body]
pub(crate) fn sqrt_q32(w: i64) -> (r: i64)
    requires
        0 <= w < 0x4000_0000_0000_0000,
    ensures
        r == cordic_sqrt_wide(w as int),
        0 <= r,
        w == 0 ==> r == 0,
        (r * r) / 0x1_0000_0000 <= w,
        w >= 0x1_0000_0000 ==> ((r + 1) * (r + 1)) / 0x1_0000_0000 > w,
{
    cordic::sqrt(I32F32::from_bits(w)).to_bits()
}

} // verus!
