//! The decimal square root: the root of a rational, cut off after a number of
//! decimal digits, found digit by digit.

use vstd::prelude::*;
use malachite::rational::Rational;
use crate::error::NumericError;
use crate::power::{
    power, power_at_least_one, power_of_hundred, power_of_ten_is_integer, power_positive, power_two,
    tens,
};
use crate::rational::{
    rational_copy, rational_difference, rational_from, rational_less, rational_power,
    rational_product, rational_quotient, rational_sum, value,
};

verus! {

/// `k` is the integer part of the square root of `q`.
pub open spec fn is_floor_root(k: int, q: real) -> bool {
    &&& 0 <= k
    &&& (k as real) * (k as real) <= q
    &&& q < ((k + 1) as real) * ((k + 1) as real)
}

/// The integer part of the square root of `q`, for `q >= 0`.
pub open spec fn floor_root(q: real) -> int {
    choose|k: int| is_floor_root(k, q)
}

/// The square root of `x` to `prec` digits: for `prec >= 1` the root cut off after
/// `prec - 1` decimal places, and 1 for `prec == 0`, whatever `x` is.
pub open spec fn decimal_sqrt(x: real, prec: nat) -> real {
    if prec == 0 {
        1real
    } else {
        floor_root(x * power(100real, (prec - 1) as nat)) as real / power(
            10real,
            (prec - 1) as nat,
        )
    }
}

/// At most one integer is the integer part of a root.
pub proof fn floor_root_unique(j: int, k: int, q: real)
    requires
        is_floor_root(j, q),
        is_floor_root(k, q),
    ensures
        j == k,
{
    let a = j as real;
    let b = k as real;
    if j < k {
        assert((a + 1real) * (a + 1real) <= b * b) by (nonlinear_arith)
            requires
                0real <= a,
                a + 1real <= b,
        ;
    }
    if k < j {
        assert((b + 1real) * (b + 1real) <= a * a) by (nonlinear_arith)
            requires
                0real <= b,
                b + 1real <= a,
        ;
    }
}

/// Searching downwards from an integer whose square lies above `q` ends at the
/// integer part of the root.
proof fn floor_root_below(q: real, top: int) -> (k: int)
    requires
        0real <= q,
        0 <= top,
        q < ((top + 1) as real) * ((top + 1) as real),
    ensures
        is_floor_root(k, q),
    decreases top,
{
    if (top as real) * (top as real) <= q {
        top
    } else {
        if top == 0 {
            assert((0int as real) * (0int as real) == 0real);
        }
        floor_root_below(q, top - 1)
    }
}

/// Every number that is not negative has an integer part of its root, and
/// `floor_root` is it.
pub proof fn floor_root_exists(q: real)
    requires
        0real <= q,
    ensures
        is_floor_root(floor_root(q), q),
{
    let top = q.floor();
    let t = (top + 1) as real;
    assert(q < t * t) by (nonlinear_arith)
        requires
            0real <= q,
            q < t,
            1real <= t,
    ;
    let k = floor_root_below(q, top);
    assert(is_floor_root(k, q));
}

/// An integer that brackets the root of `q` between itself and its successor is
/// `floor_root(q)`.
pub proof fn floor_root_is(k: int, q: real)
    requires
        is_floor_root(k, q),
    ensures
        floor_root(q) == k,
{
    floor_root_unique(floor_root(q), k, q);
}

/// The size of the last decimal place that `decimal_sqrt` keeps at `prec` digits:
/// one over 10 to the `prec - 1`.
pub open spec fn last_place(prec: nat) -> real {
    1real / power(10real, (prec - 1) as nat)
}

/// The integer that `decimal_sqrt` divides by the power of ten brackets the root of
/// the scaled radicand.
pub proof fn decimal_sqrt_digits(x: real, prec: nat)
    requires
        0real <= x,
        prec >= 1,
    ensures
        is_floor_root(
            floor_root(x * power(100real, (prec - 1) as nat)),
            x * power(100real, (prec - 1) as nat),
        ),
        decimal_sqrt(x, prec) * power(10real, (prec - 1) as nat) == floor_root(
            x * power(100real, (prec - 1) as nat),
        ) as real,
        power(10real, (prec - 1) as nat) >= 1real,
        power(100real, (prec - 1) as nat) == power(10real, (prec - 1) as nat) * power(
            10real,
            (prec - 1) as nat,
        ),
{
    let e = (prec - 1) as nat;
    let s = power(100real, e);
    let t = power(10real, e);
    power_at_least_one(10real, e);
    power_positive(100real, e);
    power_of_hundred(e);
    assert(0real <= x * s) by (nonlinear_arith)
        requires
            0real <= x,
            0real < s,
    ;
    floor_root_exists(x * s);
    let k = floor_root(x * s) as real;
    assert((k / t) * t == k) by (nonlinear_arith)
        requires
            t >= 1real,
    ;
}

/// The decimal square root brackets the true root: its square does not exceed `x`,
/// and the square of the next number with as many decimal places does.
pub proof fn decimal_sqrt_bounds(x: real, prec: nat)
    requires
        0real <= x,
        prec >= 1,
    ensures
        0real <= decimal_sqrt(x, prec),
        decimal_sqrt(x, prec) * decimal_sqrt(x, prec) <= x,
        x < (decimal_sqrt(x, prec) + last_place(prec)) * (decimal_sqrt(x, prec) + last_place(prec)),
        0real < last_place(prec) <= 1real,
{
    let e = (prec - 1) as nat;
    let s = power(100real, e);
    let t = power(10real, e);
    decimal_sqrt_digits(x, prec);
    let k = floor_root(x * s) as real;
    let r = decimal_sqrt(x, prec);
    let u = last_place(prec);
    assert(u * t == 1real && 0real < u <= 1real) by (nonlinear_arith)
        requires
            t >= 1real,
            u == 1real / t,
    ;
    assert(0real <= r) by (nonlinear_arith)
        requires
            r * t == k,
            0real <= k,
            t >= 1real,
    ;
    assert(r * r <= x) by (nonlinear_arith)
        requires
            r * t == k,
            k * k <= x * (t * t),
            t >= 1real,
    ;
    assert(x < (r + u) * (r + u)) by (nonlinear_arith)
        requires
            r * t == k,
            u * t == 1real,
            x * (t * t) < (k + 1real) * (k + 1real),
            t >= 1real,
    ;
}

/// The square of the decimal square root lies within 10 to the minus `prec` of `x`
/// wherever `x` is no further than that above it: the square never lies above `x`.
/// Where `x` is further above (the root of 2 to 5 digits is 1.4142, whose square
/// is more than 0.00003 short), the bracket of `decimal_sqrt_bounds` is what holds.
pub proof fn decimal_sqrt_square_tolerance(x: real, prec: nat)
    requires
        0real <= x,
        x <= decimal_sqrt(x, prec) * decimal_sqrt(x, prec) + 1real / power(10real, prec),
    ensures
        decimal_sqrt(x, prec) * decimal_sqrt(x, prec) - 1real / power(10real, prec) <= x,
        x <= decimal_sqrt(x, prec) * decimal_sqrt(x, prec) + 1real / power(10real, prec),
{
    let p = power(10real, prec);
    power_at_least_one(10real, prec);
    assert(0real < 1real / p) by (nonlinear_arith)
        requires
            p >= 1real,
    ;
    if prec >= 1 {
        decimal_sqrt_bounds(x, prec);
    } else {
        assert(1real / p == 1real) by (nonlinear_arith)
            requires
                p == 1real,
        ;
    }
}

/// The decimal square root of 0 is 0, to one digit or more.
pub proof fn decimal_sqrt_of_zero(prec: nat)
    requires
        prec >= 1,
    ensures
        decimal_sqrt(0real, prec) == 0real,
{
    let e = (prec - 1) as nat;
    let s = power(100real, e);
    let t = power(10real, e);
    power_at_least_one(10real, e);
    assert(0real * s == 0real) by (nonlinear_arith);
    assert((0int as real) * (0int as real) == 0real);
    assert((1int as real) * (1int as real) == 1real);
    assert(is_floor_root(0, 0real));
    floor_root_is(0, 0real);
    assert(0real / t == 0real) by (nonlinear_arith)
        requires
            t >= 1real,
    ;
}

/// The decimal square root of 1 is 1, to any number of digits.
pub proof fn decimal_sqrt_of_one(prec: nat)
    ensures
        decimal_sqrt(1real, prec) == 1real,
{
    if prec >= 1 {
        let e = (prec - 1) as nat;
        let s = power(100real, e);
        let t = power(10real, e);
        power_of_hundred(e);
        power_of_ten_is_integer(e);
        let k = tens(e);
        assert(t < (t + 1real) * (t + 1real) && t * t < (t + 1real) * (t + 1real))
            by (nonlinear_arith)
            requires
                t >= 1real,
        ;
        assert(1real * s == s);
        assert(((k + 1) as real) == t + 1real);
        assert(is_floor_root(k, s));
        floor_root_is(k, s);
        assert(t / t == 1real) by (nonlinear_arith)
            requires
                t >= 1real,
        ;
    }
}

/// Below 4 the decimal square root stays at least one last place under 2.
pub proof fn decimal_sqrt_under_two(x: real, prec: nat)
    requires
        0real <= x < 4real,
        prec >= 1,
    ensures
        0real <= decimal_sqrt(x, prec) <= 2real - last_place(prec),
        0real < last_place(prec) <= 1real,
{
    let e = (prec - 1) as nat;
    let s = power(100real, e);
    let t = power(10real, e);
    decimal_sqrt_bounds(x, prec);
    decimal_sqrt_digits(x, prec);
    power_of_ten_is_integer(e);
    let k = floor_root(x * s);
    let big = tens(e);
    let r = decimal_sqrt(x, prec);
    let u = last_place(prec);
    assert((k as real) < 2real * t) by (nonlinear_arith)
        requires
            (k as real) * (k as real) <= x * (t * t),
            x < 4real,
            0real <= k as real,
            t >= 1real,
    ;
    assert(k < 2 * big);
    assert((k as real) <= 2real * t - 1real);
    assert(r <= 2real - u) by (nonlinear_arith)
        requires
            r * t == k as real,
            (k as real) <= 2real * t - 1real,
            t >= 1real,
            u == 1real / t,
    ;
}

/// Where the radicand is at least one last place, so is its decimal square root.
pub proof fn decimal_sqrt_positive(x: real, prec: nat)
    requires
        prec >= 1,
        last_place(prec) <= x,
    ensures
        last_place(prec) <= decimal_sqrt(x, prec),
        0real < last_place(prec),
{
    let e = (prec - 1) as nat;
    let s = power(100real, e);
    let t = power(10real, e);
    let u = last_place(prec);
    power_at_least_one(10real, e);
    assert(0real < u && u * t == 1real) by (nonlinear_arith)
        requires
            t >= 1real,
            u == 1real / t,
    ;
    decimal_sqrt_digits(x, prec);
    let k = floor_root(x * s);
    let r = decimal_sqrt(x, prec);
    assert(1real <= x * (t * t)) by (nonlinear_arith)
        requires
            u <= x,
            u * t == 1real,
            t >= 1real,
    ;
    assert(k >= 1) by {
        if k <= 0 {
            assert(((k + 1) as real) * ((k + 1) as real) == 1real);
        }
    }
    assert(u <= r) by (nonlinear_arith)
        requires
            r * t == k as real,
            u * t == 1real,
            1real <= k as real,
            t >= 1real,
    ;
}

/// What the digit loop holds after `rounds` rounds: 1 before the first, then ten
/// times the integer part of the root of `x` scaled by a hundred for each earlier
/// round.
spec fn partial_root(x: real, rounds: nat) -> int {
    if rounds == 0 {
        1
    } else {
        10 * floor_root(x * power(100real, (rounds - 1) as nat))
    }
}

/// The step of the digit search: the whole number `i >= -1` with
/// `(res + i)^2 <= req < (res + i + 1)^2`, found by counting up from 0 and stepping
/// back by one. Where `res^2` lies above `req` already, that is -1. `res` is the
/// whole number `whole`.
fn next_digit(res: &Rational, req: &Rational, Ghost(whole): Ghost<int>) -> (i: Rational)
    requires
        0 <= whole,
        value(*res) == whole as real,
        0real <= value(*req),
    ensures
        value(*req) < value(*res) * value(*res) ==> value(i) == -1real,
        value(*res) * value(*res) <= value(*req) ==> value(*res) + value(i) == floor_root(
            value(*req),
        ) as real,
{
    let one = rational_from(1);
    let ghost rv: int = whole;
    let ghost qv: real = value(*req);
    let mut i = rational_from(0);
    let ghost mut j: int = 0;
    loop
        invariant_except_break
            0 <= j <= qv.floor() + 1,
            j >= 1 ==> ((rv + j - 1) as real) * ((rv + j - 1) as real) <= qv,
        invariant
            value(one) == 1real,
            value(*res) == rv as real,
            0 <= rv,
            qv == value(*req),
            0real <= qv,
            value(i) == j as real,
        ensures
            -1 <= j,
            j >= 0 ==> ((rv + j) as real) * ((rv + j) as real) <= qv,
            qv < ((rv + j + 1) as real) * ((rv + j + 1) as real),
        decreases qv.floor() + 1 - j,
    {
        let check = rational_sum(res, &i);
        let term = rational_power(&check, 2);
        proof {
            power_two(value(check));
        }
        if rational_less(req, &term) {
            i = rational_difference(&i, &one);
            proof {
                j = j - 1;
            }
            break ;
        }
        proof {
            let t = (rv + j) as real;
            assert(t <= t * t) by (nonlinear_arith)
                requires
                    t == 0real || t >= 1real,
            ;
            j = j + 1;
        }
        i = rational_sum(&i, &one);
    }
    proof {
        let r = rv as real;
        let t = (rv + j) as real;
        if j >= 0 {
            assert(r * r <= t * t) by (nonlinear_arith)
                requires
                    0real <= r <= t,
            ;
            assert(is_floor_root(rv + j, qv));
            floor_root_is(rv + j, qv);
        }
    }
    i
}

/// What the digit loop has reached after `rounds` rounds on `x`: `res` holds the
/// digits found, `req` the scaled radicand.
#[verifier::opaque]
spec fn loop_state(x: real, rounds: nat, res: real, req: real) -> bool {
    &&& 0real <= x
    &&& res == partial_root(x, rounds) as real
    &&& 0 <= partial_root(x, rounds)
    &&& req == x * power(100real, rounds)
    &&& 0real <= req
    &&& rounds > 0 ==> res * res <= req
}

/// The digit loop starts from 1 and from `x`.
proof fn loop_state_first(x: real)
    requires
        0real <= x,
    ensures
        loop_state(x, 0, 1real, x),
{
    reveal(loop_state);
}

/// In every state of the digit loop the next digit can be searched for.
proof fn loop_state_searchable(x: real, rounds: nat, res: real, req: real)
    requires
        loop_state(x, rounds, res, req),
    ensures
        res == partial_root(x, rounds) as real,
        0 <= partial_root(x, rounds),
        0real <= req,
{
    reveal(loop_state);
}

/// One round of the digit loop: from the state after `rounds` rounds and the digit
/// found, the state after one more.
proof fn loop_state_next(
    x: real,
    rounds: nat,
    res: real,
    req: real,
    i: real,
    sum: real,
    ten: real,
    hundred: real,
)
    requires
        loop_state(x, rounds, res, req),
        req < res * res ==> i == -1real,
        res * res <= req ==> res + i == floor_root(req) as real,
        sum == res + i,
        ten == 10real,
        hundred == 100real,
    ensures
        loop_state(x, rounds + 1, ten * sum, req * hundred),
{
    reveal(loop_state);
    if req < res * res {
        assert(is_floor_root(0, req));
        floor_root_is(0, req);
    }
    floor_root_exists(req);
    let k = floor_root(req) as real;
    assert(res + i == k);
    assert((10real * k) * (10real * k) <= req * 100real) by (nonlinear_arith)
        requires
            k * k <= req,
    ;
    let p = power(100real, rounds);
    assert((x * p) * 100real == x * (100real * p)) by (nonlinear_arith);
}

/// Dividing what the digit loop holds after `prec` rounds by 10 to the `prec` gives
/// the decimal square root.
proof fn loop_state_last(x: real, prec: nat, res: real, req: real)
    requires
        loop_state(x, prec, res, req),
    ensures
        power(10real, prec) != 0real,
        res / power(10real, prec) == decimal_sqrt(x, prec),
{
    reveal(loop_state);
    power_positive(10real, prec);
    if prec > 0 {
        let k = floor_root(x * power(100real, (prec - 1) as nat)) as real;
        let t = power(10real, (prec - 1) as nat);
        power_positive(10real, (prec - 1) as nat);
        assert((10real * k) / (10real * t) == k / t) by (nonlinear_arith)
            requires
                t > 0real,
        ;
    }
}

/// The square root of `x` to `prec` digits, by the decimal digit-by-digit method.
///
/// Starting from 1 and from `x`, each of `prec` rounds finds the next digit with
/// `next_digit`, appends it and scales by ten, and scales what is left of `x` by a
/// hundred; the end is divided by 10 to the `prec`. A negative `x` is refused.
pub fn sqrt(x: &Rational, prec: u64) -> (out: Result<Rational, NumericError>)
    ensures
        out is Err <==> value(*x) < 0real,
        out matches Ok(r) ==> value(r) == decimal_sqrt(value(*x), prec as nat),
{
    let zero = rational_from(0);
    if rational_less(x, &zero) {
        return Err(NumericError::InvalidInput);
    }
    let ten = rational_from(10);
    let hundred = rational_from(100);
    let ghost xv: real = value(*x);
    let mut res = rational_from(1);
    let mut req = rational_copy(x);
    let mut n: u64 = 0;
    proof {
        loop_state_first(xv);
    }
    while n < prec
        invariant
            n <= prec,
            value(ten) == 10real,
            value(hundred) == 100real,
            loop_state(xv, n as nat, value(res), value(req)),
        decreases prec - n,
    {
        proof {
            loop_state_searchable(xv, n as nat, value(res), value(req));
        }
        let i = next_digit(&res, &req, Ghost(partial_root(xv, n as nat)));
        let whole = rational_sum(&res, &i);
        proof {
            loop_state_next(
                xv,
                n as nat,
                value(res),
                value(req),
                value(i),
                value(whole),
                value(ten),
                value(hundred),
            );
        }
        res = rational_product(&ten, &whole);
        req = rational_product(&req, &hundred);
        n = n + 1;
    }
    let scale = rational_power(&ten, prec);
    proof {
        loop_state_last(xv, prec as nat, value(res), value(req));
    }
    Ok(rational_quotient(&res, &scale))
}

} // verus!
