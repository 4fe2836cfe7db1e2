//! The upper half of the unit circle.

use vstd::prelude::*;
use malachite::rational::Rational;
use crate::error::NumericError;
use crate::power::power_two;
use crate::rational::{rational_difference, rational_from, rational_power, value};
use crate::root::{
    decimal_sqrt, decimal_sqrt_bounds, decimal_sqrt_of_one, decimal_sqrt_of_zero, sqrt,
};

verus! {

/// The height of the unit circle above `x`, to `prec` digits: the decimal square
/// root of `1 - x^2`.
pub open spec fn circle_value(x: real, prec: nat) -> real {
    decimal_sqrt(1real - x * x, prec)
}

/// Above 0 the circle is at height 1, and above 1 at height 0, to one digit or more.
pub proof fn circle_at_ends(prec: nat)
    requires
        prec >= 1,
    ensures
        circle_value(0real, prec) == 1real,
        circle_value(1real, prec) == 0real,
{
    decimal_sqrt_of_one(prec);
    decimal_sqrt_of_zero(prec);
}

/// Inside the unit circle the height lies between 0 and 1, to one digit or more.
pub proof fn circle_in_unit(x: real, prec: nat)
    requires
        x * x <= 1real,
        prec >= 1,
    ensures
        0real <= circle_value(x, prec) <= 1real,
{
    let y = circle_value(x, prec);
    let d = 1real - x * x;
    assert(0real <= x * x) by (nonlinear_arith);
    decimal_sqrt_bounds(d, prec);
    assert(y <= 1real) by (nonlinear_arith)
        requires
            0real <= y,
            y * y <= d,
            d <= 1real,
    ;
}

/// The height of the unit circle above `x`, to `prec` digits. A point outside the
/// circle, where `x^2` exceeds 1, is refused.
pub fn circle_func(x: &Rational, prec: u64) -> (out: Result<Rational, NumericError>)
    ensures
        out is Err <==> 1real < value(*x) * value(*x),
        out matches Ok(y) ==> value(y) == circle_value(value(*x), prec as nat),
{
    let one = rational_from(1);
    let square = rational_power(x, 2);
    proof {
        power_two(value(*x));
    }
    let radicand = rational_difference(&one, &square);
    sqrt(&radicand, prec)
}

} // verus!
