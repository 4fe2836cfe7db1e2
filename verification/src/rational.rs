//! Exact rational numbers.
//!
//! The numbers and their arithmetic are `malachite`'s. Verus does not look inside a
//! `Rational`; this module names the number that one stands for and states, for each
//! operation the library uses, what it does to that number. Those statements are
//! taken on trust from the way `malachite` computes; everything else in the crate is
//! proved from them.

use vstd::prelude::*;
use malachite::rational::Rational;
use malachite_base::num::arithmetic::traits::Pow;
use malachite_base::num::conversion::string::options::ToSciOptions;
use malachite_base::num::conversion::traits::ToSci;
use crate::power::power;

verus! {

#[verifier::external_type_specification]
#[verifier::external_body]
pub struct ExRational(Rational);

/// The number that a `Rational` stands for.
pub uninterp spec fn value(q: Rational) -> real;

/// The text that `malachite` writes for a number in scientific notation, with its
/// default options and a precision of `digits` significant digits. The text depends
/// on the number and the precision alone.
pub uninterp spec fn sci_text(number: real, digits: u64) -> Seq<char>;

/// The largest precision handed to the writer of scientific notation. The writer
/// computes with the precision as a signed 64-bit number and subtracts the number's
/// decimal exponent from it; half the signed range leaves room for both.
pub const MAX_PRECISION: u64 = 0x3fff_ffff_ffff_ffff;

/// `Rational::from` for a `u64`: the fraction `n / 1`.
#[verifier::external_body]
pub(crate) fn rational_from(n: u64) -> (r: Rational)
    ensures
        value(r) == n as real,
{
    Rational::from(n)
}

/// `Clone::clone` of a `Rational`: a second number with the same value.
#[verifier::external_body]
pub(crate) fn rational_copy(a: &Rational) -> (r: Rational)
    ensures
        value(r) == value(*a),
{
    a.clone()
}

/// `&Rational + &Rational`: the exact sum.
#[verifier::external_body]
pub(crate) fn rational_sum(a: &Rational, b: &Rational) -> (r: Rational)
    ensures
        value(r) == value(*a) + value(*b),
{
    a + b
}

/// `&Rational - &Rational`: the exact difference.
#[verifier::external_body]
pub(crate) fn rational_difference(a: &Rational, b: &Rational) -> (r: Rational)
    ensures
        value(r) == value(*a) - value(*b),
{
    a - b
}

/// `&Rational * &Rational`: the exact product.
#[verifier::external_body]
pub(crate) fn rational_product(a: &Rational, b: &Rational) -> (r: Rational)
    ensures
        value(r) == value(*a) * value(*b),
{
    a * b
}

/// `&Rational / &Rational`: the exact quotient. `malachite` panics on a zero divisor,
/// which the precondition leaves out.
#[verifier::external_body]
pub(crate) fn rational_quotient(a: &Rational, b: &Rational) -> (r: Rational)
    requires
        value(*b) != 0real,
    ensures
        value(r) == value(*a) / value(*b),
{
    a / b
}

/// `Pow::pow` of a `&Rational` with a `u64` exponent: numerator and denominator are
/// each raised to the exponent, so the zeroth power is 1 for every base.
#[verifier::external_body]
pub(crate) fn rational_power(a: &Rational, exp: u64) -> (r: Rational)
    ensures
        value(r) == power(value(*a), exp as nat),
{
    a.pow(exp)
}

/// `<` on two `Rational`s: the order of the numbers they stand for.
#[verifier::external_body]
pub(crate) fn rational_less(a: &Rational, b: &Rational) -> (r: bool)
    ensures
        r == (value(*a) < value(*b)),
{
    a < b
}

/// `ToSci::to_sci_with_options` followed by `to_string`, with the default options
/// but for the precision. Setting a precision of 0 panics, and so does one beyond
/// the signed 64-bit range; the precondition leaves both out.
#[verifier::external_body]
pub(crate) fn rational_text(a: &Rational, digits: u64) -> (s: String)
    requires
        1 <= digits <= MAX_PRECISION,
    ensures
        s@ == sci_text(value(*a), digits),
{
    let mut options = ToSciOptions::default();
    options.set_precision(digits);
    a.to_sci_with_options(options).to_string()
}

} // verus!
