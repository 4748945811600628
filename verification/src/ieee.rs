//! The arithmetic of IEEE-754 doubles, carried by bit pattern.
//!
//! The verified pipeline never touches a float directly: a value is a `u64`
//! holding the bits of a double, and each arithmetic step goes through one
//! of the trusted wrappers below. The four basic operators are computed by
//! `rustc_apfloat`, a software implementation of IEEE-754 binary64
//! arithmetic with round-to-nearest-even — for these operations the
//! correctly rounded result is unique, so the bits agree with hardware
//! arithmetic. The power and the unary math functions are computed by
//! `libm`; `bytemuck::cast` reinterprets the argument bits as a double
//! (and is what fixes that type, since this crate never names it).
//!
//! Each wrapper makes one outside call, and what that call returns is given
//! a name: an uninterpreted spec function of the argument bits, since
//! stating the result bit-exactly is out of reach of a few lines. Division
//! by zero and out-of-domain arguments yield infinity or NaN bit patterns,
//! never a panic, so the wrappers need no precondition. Every wrapper
//! relies on the named operation returning the same bits for the same
//! argument bits.

use vstd::prelude::*;

use rustc_apfloat::ieee::Double;
use rustc_apfloat::Float;

use crate::token::{ConstName, Function, Operator};

verus! {

/// Bit pattern of the IEEE-754 double `-1.0`, as the lexer's unary-minus
/// rewriting emits it.
pub const NEG_ONE_BITS: u64 = 0xBFF0_0000_0000_0000;

/// Bit pattern of the IEEE-754 double nearest to the constant pi,
/// `3.141592653589793`.
pub const PI_BITS: u64 = 0x4009_21FB_5444_2D18;

/// Bit pattern of the IEEE-754 double nearest to Euler's constant e,
/// `2.718281828459045`.
pub const E_BITS: u64 = 0x4005_BF0A_8B14_5769;

/// The double denoted by a decimal literal `digits[.digits]`, as bits.
pub uninterp spec fn f_of_decimal(text: Seq<char>) -> u64;

/// The IEEE-754 sum of two doubles, as bits.
pub uninterp spec fn f_add(a: u64, b: u64) -> u64;

/// The IEEE-754 difference of two doubles, as bits.
pub uninterp spec fn f_sub(a: u64, b: u64) -> u64;

/// The IEEE-754 product of two doubles, as bits.
pub uninterp spec fn f_mul(a: u64, b: u64) -> u64;

/// The IEEE-754 quotient of two doubles, as bits.
pub uninterp spec fn f_div(a: u64, b: u64) -> u64;

/// What the power function returns on two doubles, as bits.
pub uninterp spec fn f_pow(a: u64, b: u64) -> u64;

/// What the sine returns, as bits.
pub uninterp spec fn f_sin(x: u64) -> u64;

/// What the cosine returns, as bits.
pub uninterp spec fn f_cos(x: u64) -> u64;

/// What the tangent returns, as bits.
pub uninterp spec fn f_tan(x: u64) -> u64;

/// What the arcsine returns, as bits.
pub uninterp spec fn f_asin(x: u64) -> u64;

/// What the arccosine returns, as bits.
pub uninterp spec fn f_acos(x: u64) -> u64;

/// What the arctangent returns, as bits.
pub uninterp spec fn f_atan(x: u64) -> u64;

/// What the exponential returns, as bits.
pub uninterp spec fn f_exp(x: u64) -> u64;

/// What the natural logarithm returns, as bits.
pub uninterp spec fn f_ln(x: u64) -> u64;

/// What the base-2 logarithm returns, as bits.
pub uninterp spec fn f_log2(x: u64) -> u64;

/// What the base-10 logarithm returns, as bits.
pub uninterp spec fn f_log10(x: u64) -> u64;

/// What the absolute value returns, as bits.
pub uninterp spec fn f_abs(x: u64) -> u64;

/// What the square root returns, as bits.
pub uninterp spec fn f_sqrt(x: u64) -> u64;

/// Relies on `str::parse` (`f64::from_str`): text of decimal digits with an
/// optional fraction part parses without error to the nearest double, a pure
/// function of the text. `libm::fabs` returns the parsed value unchanged —
/// the text has no sign, so the value is non-negative — and fixes its type.
#[verifier::external_body]
pub(crate) fn parse_number_bits(text: &Vec<char>) -> (r: u64)
    requires
        crate::lexer::is_number_text(text@),
    ensures
        r == f_of_decimal(text@),
{
    let s: String = text.iter().collect();
    libm::fabs(s.parse().unwrap()).to_bits()
}

/// Relies on `rustc_apfloat`'s IEEE-754 binary64 addition.
#[verifier::external_body]
pub(crate) fn add_bits(a: u64, b: u64) -> (r: u64)
    ensures
        r == f_add(a, b),
{
    let x = Double::from_bits(a as u128);
    let y = Double::from_bits(b as u128);
    (x + y).value.to_bits() as u64
}

/// Relies on `rustc_apfloat`'s IEEE-754 binary64 subtraction.
#[verifier::external_body]
pub(crate) fn sub_bits(a: u64, b: u64) -> (r: u64)
    ensures
        r == f_sub(a, b),
{
    let x = Double::from_bits(a as u128);
    let y = Double::from_bits(b as u128);
    (x - y).value.to_bits() as u64
}

/// Relies on `rustc_apfloat`'s IEEE-754 binary64 multiplication.
#[verifier::external_body]
pub(crate) fn mul_bits(a: u64, b: u64) -> (r: u64)
    ensures
        r == f_mul(a, b),
{
    let x = Double::from_bits(a as u128);
    let y = Double::from_bits(b as u128);
    (x * y).value.to_bits() as u64
}

/// Relies on `rustc_apfloat`'s IEEE-754 binary64 division (a zero divisor
/// yields an infinity or NaN, never a panic).
#[verifier::external_body]
pub(crate) fn div_bits(a: u64, b: u64) -> (r: u64)
    ensures
        r == f_div(a, b),
{
    let x = Double::from_bits(a as u128);
    let y = Double::from_bits(b as u128);
    (x / y).value.to_bits() as u64
}

/// Relies on `libm::pow`.
#[verifier::external_body]
pub(crate) fn pow_bits(a: u64, b: u64) -> (r: u64)
    ensures
        r == f_pow(a, b),
{
    libm::pow(bytemuck::cast(a), bytemuck::cast(b)).to_bits()
}

/// Relies on `libm::sin` (argument in radians).
#[verifier::external_body]
pub(crate) fn sin_bits(x: u64) -> (r: u64)
    ensures
        r == f_sin(x),
{
    libm::sin(bytemuck::cast(x)).to_bits()
}

/// Relies on `libm::cos` (argument in radians).
#[verifier::external_body]
pub(crate) fn cos_bits(x: u64) -> (r: u64)
    ensures
        r == f_cos(x),
{
    libm::cos(bytemuck::cast(x)).to_bits()
}

/// Relies on `libm::tan` (argument in radians).
#[verifier::external_body]
pub(crate) fn tan_bits(x: u64) -> (r: u64)
    ensures
        r == f_tan(x),
{
    libm::tan(bytemuck::cast(x)).to_bits()
}

/// Relies on `libm::asin` (an out-of-domain argument yields NaN).
#[verifier::external_body]
pub(crate) fn asin_bits(x: u64) -> (r: u64)
    ensures
        r == f_asin(x),
{
    libm::asin(bytemuck::cast(x)).to_bits()
}

/// Relies on `libm::acos` (an out-of-domain argument yields NaN).
#[verifier::external_body]
pub(crate) fn acos_bits(x: u64) -> (r: u64)
    ensures
        r == f_acos(x),
{
    libm::acos(bytemuck::cast(x)).to_bits()
}

/// Relies on `libm::atan`.
#[verifier::external_body]
pub(crate) fn atan_bits(x: u64) -> (r: u64)
    ensures
        r == f_atan(x),
{
    libm::atan(bytemuck::cast(x)).to_bits()
}

/// Relies on `libm::exp`.
#[verifier::external_body]
pub(crate) fn exp_bits(x: u64) -> (r: u64)
    ensures
        r == f_exp(x),
{
    libm::exp(bytemuck::cast(x)).to_bits()
}

/// Relies on `libm::log`, the natural logarithm (a non-positive argument
/// yields NaN or an infinity).
#[verifier::external_body]
pub(crate) fn ln_bits(x: u64) -> (r: u64)
    ensures
        r == f_ln(x),
{
    libm::log(bytemuck::cast(x)).to_bits()
}

/// Relies on `libm::log2` (a non-positive argument yields NaN or an
/// infinity).
#[verifier::external_body]
pub(crate) fn log2_bits(x: u64) -> (r: u64)
    ensures
        r == f_log2(x),
{
    libm::log2(bytemuck::cast(x)).to_bits()
}

/// Relies on `libm::log10` (a non-positive argument yields NaN or an
/// infinity).
#[verifier::external_body]
pub(crate) fn log10_bits(x: u64) -> (r: u64)
    ensures
        r == f_log10(x),
{
    libm::log10(bytemuck::cast(x)).to_bits()
}

/// Relies on `libm::fabs`.
#[verifier::external_body]
pub(crate) fn abs_bits(x: u64) -> (r: u64)
    ensures
        r == f_abs(x),
{
    libm::fabs(bytemuck::cast(x)).to_bits()
}

/// Relies on `libm::sqrt` (a negative argument yields NaN).
#[verifier::external_body]
pub(crate) fn sqrt_bits(x: u64) -> (r: u64)
    ensures
        r == f_sqrt(x),
{
    libm::sqrt(bytemuck::cast(x)).to_bits()
}

/// The value of a constant name, as bits.
pub open spec fn spec_const_bits(name: ConstName) -> u64 {
    match name {
        ConstName::Pi => PI_BITS,
        ConstName::E => E_BITS,
    }
}

/// Resolves a recognized constant name to its numeric value.
pub fn evaluate_const(name: ConstName) -> (bits: u64)
    ensures
        bits == spec_const_bits(name),
{
    match name {
        ConstName::Pi => PI_BITS,
        ConstName::E => E_BITS,
    }
}

/// The result of one binary operator step, as bits: `a` is the left
/// operand, `b` the right.
pub open spec fn spec_apply_operator(op: Operator, a: u64, b: u64) -> u64 {
    match op {
        Operator::Add => f_add(a, b),
        Operator::Sub => f_sub(a, b),
        Operator::Mul => f_mul(a, b),
        Operator::Div => f_div(a, b),
        Operator::Pow => f_pow(a, b),
    }
}

/// Applies one binary operator to two operands.
pub fn apply_operator(op: Operator, a: u64, b: u64) -> (r: u64)
    ensures
        r == spec_apply_operator(op, a, b),
{
    match op {
        Operator::Add => add_bits(a, b),
        Operator::Sub => sub_bits(a, b),
        Operator::Mul => mul_bits(a, b),
        Operator::Div => div_bits(a, b),
        Operator::Pow => pow_bits(a, b),
    }
}

/// The result of one unary function step, as bits.
pub open spec fn spec_apply_function(f: Function, x: u64) -> u64 {
    match f {
        Function::Ln => f_ln(x),
        Function::Log2 => f_log2(x),
        Function::Exp => f_exp(x),
        Function::Asin => f_asin(x),
        Function::Acos => f_acos(x),
        Function::Atan => f_atan(x),
        Function::Sin => f_sin(x),
        Function::Cos => f_cos(x),
        Function::Tan => f_tan(x),
        Function::Abs => f_abs(x),
        Function::Sqrt => f_sqrt(x),
        Function::Log10 => f_log10(x),
    }
}

/// Applies one recognized unary function to its operand.
pub fn apply_function(f: Function, x: u64) -> (r: u64)
    ensures
        r == spec_apply_function(f, x),
{
    match f {
        Function::Ln => ln_bits(x),
        Function::Log2 => log2_bits(x),
        Function::Exp => exp_bits(x),
        Function::Asin => asin_bits(x),
        Function::Acos => acos_bits(x),
        Function::Atan => atan_bits(x),
        Function::Sin => sin_bits(x),
        Function::Cos => cos_bits(x),
        Function::Tan => tan_bits(x),
        Function::Abs => abs_bits(x),
        Function::Sqrt => sqrt_bits(x),
        Function::Log10 => log10_bits(x),
    }
}

} // verus!
