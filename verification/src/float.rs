//! IEEE-754 binary64 values, carried as their 64-bit bit patterns.
//!
//! The expression language has floating-point literals and arithmetic, but a
//! float value itself is opaque here: the library stores each one as its bit
//! pattern (a `u64`) and delegates every operation whose result depends on
//! rounding to `rustc_apfloat`, a software implementation of IEEE-754 binary64
//! that computes bit-for-bit the results hardware doubles would give (round to
//! nearest, ties to even). Each operation's result is named by an
//! uninterpreted spec function, so contracts can say exactly which operation
//! produced a value without restating IEEE-754 arithmetic.

use rustc_apfloat::Float;
use vstd::prelude::*;

verus! {

/// Bit mask of the sign bit of a binary64 bit pattern.
pub const F64_SIGN_BIT: u64 = 0x8000_0000_0000_0000;

/// Bit mask of the exponent and significand bits of a binary64 bit pattern.
pub const F64_MAGNITUDE_BITS: u64 = 0x7fff_ffff_ffff_ffff;

/// The bit patterns of the two IEEE-754 zeros (+0.0 and -0.0) are exactly
/// those whose exponent and significand bits are all zero.
pub open spec fn float_is_zero(a: u64) -> bool {
    a & F64_MAGNITUDE_BITS == 0
}

/// IEEE-754 negation flips the sign bit and changes nothing else.
pub open spec fn float_neg(a: u64) -> u64 {
    a ^ F64_SIGN_BIT
}

pub uninterp spec fn float_add(a: u64, b: u64) -> u64;

pub uninterp spec fn float_sub(a: u64, b: u64) -> u64;

pub uninterp spec fn float_mul(a: u64, b: u64) -> u64;

pub uninterp spec fn float_div(a: u64, b: u64) -> u64;

pub uninterp spec fn float_rem(a: u64, b: u64) -> u64;

pub uninterp spec fn float_of_i64(i: i64) -> u64;

pub uninterp spec fn float_lt(a: u64, b: u64) -> bool;

pub uninterp spec fn float_le(a: u64, b: u64) -> bool;

pub uninterp spec fn float_eq(a: u64, b: u64) -> bool;

pub uninterp spec fn float_of_dec(s: Seq<char>) -> Option<u64>;

pub uninterp spec fn float_dec_str(a: u64) -> Seq<char>;

/// Relies on rustc_apfloat's binary64 addition (`Double::add_r`, round to
/// nearest, ties to even).
#[verifier::external_body]
pub(crate) fn f64_add(a: u64, b: u64) -> (r: u64)
    ensures
        r == float_add(a, b),
{
    let x = rustc_apfloat::ieee::Double::from_bits(a as u128);
    let y = rustc_apfloat::ieee::Double::from_bits(b as u128);
    (x + y).value.to_bits() as u64
}

/// Relies on rustc_apfloat's binary64 subtraction (`Double::sub_r`).
#[verifier::external_body]
pub(crate) fn f64_sub(a: u64, b: u64) -> (r: u64)
    ensures
        r == float_sub(a, b),
{
    let x = rustc_apfloat::ieee::Double::from_bits(a as u128);
    let y = rustc_apfloat::ieee::Double::from_bits(b as u128);
    (x - y).value.to_bits() as u64
}

/// Relies on rustc_apfloat's binary64 multiplication (`Double::mul_r`).
#[verifier::external_body]
pub(crate) fn f64_mul(a: u64, b: u64) -> (r: u64)
    ensures
        r == float_mul(a, b),
{
    let x = rustc_apfloat::ieee::Double::from_bits(a as u128);
    let y = rustc_apfloat::ieee::Double::from_bits(b as u128);
    (x * y).value.to_bits() as u64
}

/// Relies on rustc_apfloat's binary64 division (`Double::div_r`).
#[verifier::external_body]
pub(crate) fn f64_div(a: u64, b: u64) -> (r: u64)
    ensures
        r == float_div(a, b),
{
    let x = rustc_apfloat::ieee::Double::from_bits(a as u128);
    let y = rustc_apfloat::ieee::Double::from_bits(b as u128);
    (x / y).value.to_bits() as u64
}

/// Relies on rustc_apfloat's `Double::c_fmod`, the remainder that the `%`
/// operator computes on hardware doubles.
#[verifier::external_body]
pub(crate) fn f64_rem(a: u64, b: u64) -> (r: u64)
    ensures
        r == float_rem(a, b),
{
    let x = rustc_apfloat::ieee::Double::from_bits(a as u128);
    let y = rustc_apfloat::ieee::Double::from_bits(b as u128);
    (x % y).value.to_bits() as u64
}

/// Relies on rustc_apfloat's `Double::from_i128` (round to nearest, ties to
/// even), the rounding an `i64`-to-double conversion uses. Zero converts to
/// +0.0 and a nonzero integer, being at least 1 in magnitude, never rounds to
/// zero, which gives the second clause.
#[verifier::external_body]
pub(crate) fn f64_of_i64(i: i64) -> (r: u64)
    ensures
        r == float_of_i64(i),
        float_is_zero(r) <==> i == 0,
{
    let d = rustc_apfloat::ieee::Double::from_i128(i as i128).value;
    d.to_bits() as u64
}

/// Relies on rustc_apfloat's IEEE partial order on binary64 values
/// (`IeeeFloat::partial_cmp`): false whenever either side is NaN.
#[verifier::external_body]
pub(crate) fn f64_lt(a: u64, b: u64) -> (r: bool)
    ensures
        r == float_lt(a, b),
{
    let x = rustc_apfloat::ieee::Double::from_bits(a as u128);
    let y = rustc_apfloat::ieee::Double::from_bits(b as u128);
    x < y
}

/// Relies on rustc_apfloat's IEEE partial order on binary64 values
/// (`IeeeFloat::partial_cmp`): false whenever either side is NaN.
#[verifier::external_body]
pub(crate) fn f64_le(a: u64, b: u64) -> (r: bool)
    ensures
        r == float_le(a, b),
{
    let x = rustc_apfloat::ieee::Double::from_bits(a as u128);
    let y = rustc_apfloat::ieee::Double::from_bits(b as u128);
    x <= y
}

/// Relies on rustc_apfloat's IEEE equality on binary64 values
/// (`IeeeFloat::eq`): +0.0 equals -0.0, and NaN equals nothing.
#[verifier::external_body]
pub(crate) fn f64_eq(a: u64, b: u64) -> (r: bool)
    ensures
        r == float_eq(a, b),
{
    let x = rustc_apfloat::ieee::Double::from_bits(a as u128);
    let y = rustc_apfloat::ieee::Double::from_bits(b as u128);
    x == y
}

/// Relies on rustc_apfloat's decimal parsing (`Double::from_str`, correctly
/// rounded to the nearest binary64 value, ties to even).
#[verifier::external_body]
pub(crate) fn f64_from_dec(s: &str) -> (r: Option<u64>)
    ensures
        r == float_of_dec(s@),
{
    match s.parse::<rustc_apfloat::ieee::Double>() {
        Ok(d) => Some(d.to_bits() as u64),
        Err(_) => None,
    }
}

/// Relies on rustc_apfloat's decimal rendering of binary64 values
/// (`IeeeFloat`'s `Display`); used only to show a value in a diagnostic.
#[verifier::external_body]
pub(crate) fn f64_to_string(a: u64) -> (r: String)
    ensures
        r@ == float_dec_str(a),
{
    format!("{}", rustc_apfloat::ieee::Double::from_bits(a as u128))
}

} // verus!
