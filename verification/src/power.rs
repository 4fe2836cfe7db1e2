//! Powers of a real number with a natural exponent.

use vstd::prelude::*;

verus! {

/// `base` multiplied by itself `exp` times; 1 for `exp == 0`, also when `base` is 0.
pub open spec fn power(base: real, exp: nat) -> real
    decreases exp,
{
    if exp == 0 {
        1real
    } else {
        base * power(base, (exp - 1) as nat)
    }
}

/// 10 to the `exp`, as an integer.
pub open spec fn tens(exp: nat) -> int
    decreases exp,
{
    if exp == 0 {
        1
    } else {
        10 * tens((exp - 1) as nat)
    }
}

/// A square is a second power.
pub proof fn power_two(base: real)
    ensures
        power(base, 2) == base * base,
{
    reveal_with_fuel(power, 3);
}

/// A power of a positive number is positive.
pub proof fn power_positive(base: real, exp: nat)
    requires
        base > 0real,
    ensures
        power(base, exp) > 0real,
    decreases exp,
{
    if exp > 0 {
        let rest = power(base, (exp - 1) as nat);
        power_positive(base, (exp - 1) as nat);
        assert(base * rest > 0real) by (nonlinear_arith)
            requires
                base > 0real,
                rest > 0real,
        ;
    }
}

/// A power of a number that is at least 1 is at least 1.
pub proof fn power_at_least_one(base: real, exp: nat)
    requires
        base >= 1real,
    ensures
        power(base, exp) >= 1real,
    decreases exp,
{
    if exp > 0 {
        let rest = power(base, (exp - 1) as nat);
        power_at_least_one(base, (exp - 1) as nat);
        assert(base * rest >= 1real) by (nonlinear_arith)
            requires
                base >= 1real,
                rest >= 1real,
        ;
    }
}

/// The real power of ten is the integer power of ten.
pub proof fn power_of_ten_is_integer(exp: nat)
    ensures
        power(10real, exp) == tens(exp) as real,
        tens(exp) >= 1,
    decreases exp,
{
    if exp > 0 {
        power_of_ten_is_integer((exp - 1) as nat);
    }
}

/// A power of a hundred is the square of the same power of ten.
pub proof fn power_of_hundred(exp: nat)
    ensures
        power(100real, exp) == power(10real, exp) * power(10real, exp),
    decreases exp,
{
    if exp > 0 {
        let h = power(100real, (exp - 1) as nat);
        let t = power(10real, (exp - 1) as nat);
        power_of_hundred((exp - 1) as nat);
        assert(100real * h == (10real * t) * (10real * t)) by (nonlinear_arith)
            requires
                h == t * t,
        ;
    }
}

} // verus!
