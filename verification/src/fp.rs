//! IEEE-754 operations for the two floating kinds, carried as bit patterns.
//!
//! The library stores 32-bit and 64-bit floating-point values as their `u32` /
//! `u64` bit patterns. The arithmetic itself is done by the `rustc_apfloat`
//! software float implementation, which computes on bit patterns with
//! round-to-nearest-ties-to-even, the same rounding the hardware operations
//! use. Each operation's result is a pure function of the argument bits, so it
//! is given an uninterpreted name that the contracts of the lexer and the
//! evaluator speak of.

use vstd::prelude::*;
use rustc_apfloat::Float;
use rustc_apfloat::FloatConvert;
use core::str::FromStr;

verus! {

/// Bits of the 32-bit float denoted by a decimal literal (digits with at most
/// one point), rounded to nearest, ties to even; a sentinel for other inputs.
pub uninterp spec fn f32_bits_of_decimal(s: Seq<char>) -> u32;

/// Bits of the 64-bit float denoted by a decimal literal (digits with at most
/// one point), rounded to nearest, ties to even; a sentinel for other inputs.
pub uninterp spec fn f64_bits_of_decimal(s: Seq<char>) -> u64;

/// Bits of the 64-bit float nearest to a 128-bit signed integer.
pub uninterp spec fn f64_bits_of_i128(v: int) -> u64;

/// Bits of the 64-bit float with the same value as a 32-bit float (widening is
/// exact).
pub uninterp spec fn f64_bits_of_f32_bits(b: u32) -> u64;

/// Bits of the 64-bit floating-point sum of two 64-bit floats given as bits.
pub uninterp spec fn f64_add_bits(a: u64, b: u64) -> u64;

/// Bits of the 64-bit floating-point difference of two 64-bit floats.
pub uninterp spec fn f64_sub_bits(a: u64, b: u64) -> u64;

/// Bits of the 64-bit floating-point product of two 64-bit floats.
pub uninterp spec fn f64_mul_bits(a: u64, b: u64) -> u64;

/// Bits of the 64-bit floating-point quotient of two 64-bit floats.
pub uninterp spec fn f64_div_bits(a: u64, b: u64) -> u64;

/// Relies on rustc_apfloat's `Single::from_str` (correctly rounded decimal
/// parsing, nearest-ties-to-even, matching `f32` parsing for plain decimal
/// literals); deterministic in its argument.
#[verifier::external_body]
pub(crate) fn parse_f32_bits(lit: &Vec<char>) -> (r: u32)
    ensures
        r == f32_bits_of_decimal(lit@),
{
    let s: String = lit.iter().collect();
    match rustc_apfloat::ieee::Single::from_str(&s) {
        Ok(v) => v.to_bits() as u32,
        Err(_) => 0,
    }
}

/// Relies on rustc_apfloat's `Double::from_str` (correctly rounded decimal
/// parsing, nearest-ties-to-even, matching `f64` parsing for plain decimal
/// literals); deterministic in its argument.
#[verifier::external_body]
pub(crate) fn parse_f64_bits(lit: &Vec<char>) -> (r: u64)
    ensures
        r == f64_bits_of_decimal(lit@),
{
    let s: String = lit.iter().collect();
    match rustc_apfloat::ieee::Double::from_str(&s) {
        Ok(v) => v.to_bits() as u64,
        Err(_) => 0,
    }
}

/// Relies on rustc_apfloat's `Double::from_i128` (integer to float conversion,
/// rounded to nearest, ties to even, as an `as f64` cast rounds).
#[verifier::external_body]
pub(crate) fn i128_to_f64_bits(v: i128) -> (r: u64)
    ensures
        r == f64_bits_of_i128(v as int),
{
    rustc_apfloat::ieee::Double::from_i128(v).value.to_bits() as u64
}

/// Relies on rustc_apfloat's `FloatConvert` from `Single` to `Double` (exact
/// widening of a 32-bit float to 64 bits).
#[verifier::external_body]
pub(crate) fn f32_bits_to_f64_bits(b: u32) -> (r: u64)
    ensures
        r == f64_bits_of_f32_bits(b),
{
    let mut loses_info = false;
    let d: rustc_apfloat::ieee::Double =
        rustc_apfloat::ieee::Single::from_bits(b as u128).convert(&mut loses_info).value;
    d.to_bits() as u64
}

/// Relies on rustc_apfloat's `Add` for `Double` (IEEE-754 64-bit addition,
/// nearest-ties-to-even).
#[verifier::external_body]
pub(crate) fn f64_add(a: u64, b: u64) -> (r: u64)
    ensures
        r == f64_add_bits(a, b),
{
    let x = rustc_apfloat::ieee::Double::from_bits(a as u128);
    let y = rustc_apfloat::ieee::Double::from_bits(b as u128);
    (x + y).value.to_bits() as u64
}

/// Relies on rustc_apfloat's `Sub` for `Double` (IEEE-754 64-bit subtraction,
/// nearest-ties-to-even).
#[verifier::external_body]
pub(crate) fn f64_sub(a: u64, b: u64) -> (r: u64)
    ensures
        r == f64_sub_bits(a, b),
{
    let x = rustc_apfloat::ieee::Double::from_bits(a as u128);
    let y = rustc_apfloat::ieee::Double::from_bits(b as u128);
    (x - y).value.to_bits() as u64
}

/// Relies on rustc_apfloat's `Mul` for `Double` (IEEE-754 64-bit
/// multiplication, nearest-ties-to-even).
#[verifier::external_body]
pub(crate) fn f64_mul(a: u64, b: u64) -> (r: u64)
    ensures
        r == f64_mul_bits(a, b),
{
    let x = rustc_apfloat::ieee::Double::from_bits(a as u128);
    let y = rustc_apfloat::ieee::Double::from_bits(b as u128);
    (x * y).value.to_bits() as u64
}

/// Relies on rustc_apfloat's `Div` for `Double` (IEEE-754 64-bit division,
/// nearest-ties-to-even; division by zero gives an infinity or a NaN, it does
/// not fail).
#[verifier::external_body]
pub(crate) fn f64_div(a: u64, b: u64) -> (r: u64)
    ensures
        r == f64_div_bits(a, b),
{
    let x = rustc_apfloat::ieee::Double::from_bits(a as u128);
    let y = rustc_apfloat::ieee::Double::from_bits(b as u128);
    (x / y).value.to_bits() as u64
}

} // verus!
