//! The scale factor of a sector: what a sample count is divided by so that the
//! samples span the sector's stretch of the x-axis.
//!
//! The sector is one part in 2 to the `power` of the circle. Its half-angle cosine
//! is built by nesting square roots, each to two digits more than the precision
//! asked for.

use vstd::prelude::*;
use malachite::rational::Rational;
use crate::power::{power, power_at_least_one, power_positive};
use crate::rational::{
    rational_difference, rational_from, rational_power, rational_product, rational_quotient,
    rational_sum, value,
};
use crate::root::{
    decimal_sqrt, decimal_sqrt_bounds, decimal_sqrt_positive, decimal_sqrt_under_two, last_place,
    sqrt,
};

verus! {

/// The power of two that is used for a sector when `power` is asked for: 3 and less
/// are replaced by 4, since the nesting needs one step at least.
pub open spec fn sector_power(power: nat) -> nat {
    if power <= 3 {
        4
    } else {
        power
    }
}

/// Twice the half-angle cosine after `steps` nestings: the root of 2, then `steps`
/// times the root of 2 plus the last, each to `prec` digits.
pub open spec fn cos_expansion(steps: nat, prec: nat) -> real
    decreases steps,
{
    if steps == 0 {
        decimal_sqrt(2real, prec)
    } else {
        decimal_sqrt(2real + cos_expansion((steps - 1) as nat, prec), prec)
    }
}

/// The root of 2 minus the nested cosine, for a sector of `power` at `precision`.
pub open spec fn outer_sqrt(power: nat, precision: nat) -> real {
    decimal_sqrt(
        2real - cos_expansion((sector_power(power) - 3) as nat, precision + 2),
        precision + 2,
    )
}

/// The scale factor for `n` samples: `n` over half the outer root.
pub open spec fn n_dec_value(n: nat, power: nat, precision: nat) -> real {
    n as real / (outer_sqrt(power, precision) / 2real)
}

/// What the quick variant takes in place of the nested cosine: 2 less one over 10
/// to the `precision - 1`, whatever the power.
pub open spec fn cos_shortcut(precision: nat) -> real {
    2real - 1real / power(10real, (precision - 1) as nat)
}

/// The outer root of the quick variant.
pub open spec fn outer_sqrt_fast(precision: nat) -> real {
    decimal_sqrt(2real - cos_shortcut(precision), precision + 2)
}

/// The scale factor of the quick variant for `n` samples.
pub open spec fn n_dec_fast_value(n: nat, precision: nat) -> real {
    n as real / (outer_sqrt_fast(precision) / 2real)
}

/// The nested cosine never reaches 2: it stays one last place below, and is not
/// negative.
pub proof fn cos_expansion_range(steps: nat, prec: nat)
    requires
        prec >= 1,
    ensures
        0real <= cos_expansion(steps, prec) <= 2real - last_place(prec),
        0real < last_place(prec) <= 1real,
    decreases steps,
{
    if steps == 0 {
        decimal_sqrt_under_two(2real, prec);
    } else {
        cos_expansion_range((steps - 1) as nat, prec);
        decimal_sqrt_under_two(2real + cos_expansion((steps - 1) as nat, prec), prec);
    }
}

/// A root to `prec` digits of a number between one last place and 2 is positive
/// and at most 2.
proof fn root_of_gap(gap: real, prec: nat)
    requires
        prec >= 1,
        last_place(prec) <= gap <= 2real,
    ensures
        0real < decimal_sqrt(gap, prec) <= 2real,
{
    let r = decimal_sqrt(gap, prec);
    decimal_sqrt_positive(gap, prec);
    decimal_sqrt_bounds(gap, prec);
    assert(r <= 2real) by (nonlinear_arith)
        requires
            0real <= r,
            r * r <= gap,
            gap <= 2real,
    ;
}

/// The outer root is positive and at most 2, so a scale factor can be divided by
/// it and no sample leaves the unit circle.
pub proof fn outer_sqrt_range(power: nat, precision: nat)
    ensures
        0real < outer_sqrt(power, precision) <= 2real,
{
    cos_expansion_range((sector_power(power) - 3) as nat, precision + 2);
    root_of_gap(
        2real - cos_expansion((sector_power(power) - 3) as nat, precision + 2),
        precision + 2,
    );
}

/// The outer root of the quick variant is positive and at most 2.
pub proof fn outer_sqrt_fast_range(precision: nat)
    requires
        precision >= 1,
    ensures
        0real < outer_sqrt_fast(precision) <= 2real,
{
    let small = power(10real, (precision - 1) as nat);
    let large = power(10real, precision + 1);
    power_at_least_one(10real, (precision - 1) as nat);
    assert(large == 10real * (10real * small)) by {
        reveal_with_fuel(power, 3);
    }
    assert(1real / large <= 1real / small && 1real / small <= 2real) by (nonlinear_arith)
        requires
            small >= 1real,
            large == 100real * small,
    ;
    root_of_gap(1real / small, precision + 2);
}

/// The scale factor grows with the sample count, for a fixed power and precision.
pub proof fn n_dec_increases(n: nat, m: nat, power: nat, precision: nat)
    requires
        n <= m,
    ensures
        n_dec_value(n, power, precision) <= n_dec_value(m, power, precision),
        n < m ==> n_dec_value(n, power, precision) < n_dec_value(m, power, precision),
{
    let half = outer_sqrt(power, precision) / 2real;
    outer_sqrt_range(power, precision);
    let a = n as real;
    let b = m as real;
    assert(a / half <= b / half && (a < b ==> a / half < b / half)) by (nonlinear_arith)
        requires
            a <= b,
            0real < half,
    ;
}

/// Powers of 3 and less give the scale factor of power 4.
pub proof fn n_dec_of_small_power(n: nat, power: nat, precision: nat)
    requires
        power <= 3,
    ensures
        n_dec_value(n, power, precision) == n_dec_value(n, 4, precision),
{
}

/// With the scale factor of `n` samples, the last sample lies at half the outer
/// root, inside the unit circle.
pub proof fn n_dec_spans_sector(n: nat, power: nat, precision: nat)
    requires
        n >= 1,
    ensures
        0real < n_dec_value(n, power, precision),
        n as real / n_dec_value(n, power, precision) == outer_sqrt(power, precision) / 2real,
        n as real / n_dec_value(n, power, precision) <= 1real,
{
    outer_sqrt_range(power, precision);
    scale_spans(n as real, outer_sqrt(power, precision) / 2real);
}

/// With the quick scale factor of `n` samples, the last sample lies at half the
/// quick outer root, inside the unit circle.
pub proof fn n_dec_fast_spans_sector(n: nat, precision: nat)
    requires
        n >= 1,
        precision >= 1,
    ensures
        0real < n_dec_fast_value(n, precision),
        n as real / n_dec_fast_value(n, precision) == outer_sqrt_fast(precision) / 2real,
        n as real / n_dec_fast_value(n, precision) <= 1real,
{
    outer_sqrt_fast_range(precision);
    scale_spans(n as real, outer_sqrt_fast(precision) / 2real);
}

/// Dividing a positive count by its scale factor gives back the half root.
proof fn scale_spans(count: real, half: real)
    requires
        1real <= count,
        0real < half,
    ensures
        0real < count / half,
        count / (count / half) == half,
{
    let scale = count / half;
    assert(scale * half == count && 0real < scale) by (nonlinear_arith)
        requires
            scale == count / half,
            0real < half,
            1real <= count,
    ;
    assert(count / scale == half) by (nonlinear_arith)
        requires
            scale * half == count,
            0real < scale,
    ;
}

/// The power of two that is used for a sector when `power` is asked for.
pub fn clamp_power(power: u64) -> (used: u64)
    ensures
        used == sector_power(power as nat),
{
    if power <= 3 {
        4
    } else {
        power
    }
}

/// `n` over half of `outer`.
fn scale_by_half(n: u64, outer: &Rational) -> (out: Rational)
    requires
        value(*outer) != 0real,
    ensures
        value(out) == n as real / (value(*outer) / 2real),
{
    let one = rational_from(1);
    let two = rational_from(2);
    let one_half = rational_quotient(&one, &two);
    let half_outer = rational_product(&one_half, outer);
    proof {
        let h = value(one_half);
        let o = value(*outer);
        assert(h * o == o / 2real && o / 2real != 0real) by (nonlinear_arith)
            requires
                h == 1real / 2real,
                o != 0real,
        ;
    }
    let count = rational_from(n);
    rational_quotient(&count, &half_outer)
}

/// The scale factor of a sector for `n` samples.
///
/// A power of 3 or less counts as 4. The roots are taken to `precision + 2` digits:
/// the root of 2, nested `power - 3` times, then the root of what is missing to 2;
/// `n` is divided by half of that.
pub fn get_n_dec(n: u64, power: u64, precision: u64) -> (out: Rational)
    requires
        precision + 2 <= u64::MAX,
    ensures
        value(out) == n_dec_value(n as nat, power as nat, precision as nat),
{
    let steps = clamp_power(power) - 3;
    let prec = precision + 2;
    let two = rational_from(2);
    let mut cos = sqrt(&two, prec).unwrap();
    let mut done: u64 = 0;
    while done < steps
        invariant
            done <= steps,
            prec >= 1,
            value(two) == 2real,
            value(cos) == cos_expansion(done as nat, prec as nat),
        decreases steps - done,
    {
        proof {
            cos_expansion_range(done as nat, prec as nat);
        }
        let inner = rational_sum(&two, &cos);
        cos = sqrt(&inner, prec).unwrap();
        done = done + 1;
    }
    proof {
        cos_expansion_range(steps as nat, prec as nat);
        outer_sqrt_range(power as nat, precision as nat);
    }
    let gap = rational_difference(&two, &cos);
    let outer = sqrt(&gap, prec).unwrap();
    scale_by_half(n, &outer)
}

/// The scale factor of the quick variant for `n` samples.
///
/// In place of the nested roots it takes 2 less one over 10 to the `precision - 1`,
/// whatever the power; the outer root is taken to `precision + 2` digits as in
/// `get_n_dec`. It is cruder than `get_n_dec` and serves for comparison.
pub fn get_n_dec_fast(n: u64, _power: u64, precision: u64) -> (out: Rational)
    requires
        1 <= precision,
        precision + 2 <= u64::MAX,
    ensures
        value(out) == n_dec_fast_value(n as nat, precision as nat),
{
    let prec = precision + 2;
    let one = rational_from(1);
    let two = rational_from(2);
    let ten = rational_from(10);
    let scale = rational_power(&ten, prec - 3);
    proof {
        power_positive(10real, (precision - 1) as nat);
        outer_sqrt_fast_range(precision as nat);
    }
    let inside = rational_quotient(&one, &scale);
    let cos = rational_difference(&two, &inside);
    let gap = rational_difference(&two, &cos);
    proof {
        let small = power(10real, (precision - 1) as nat);
        assert(0real <= 1real / small) by (nonlinear_arith)
            requires
                small > 0real,
        ;
    }
    let outer = sqrt(&gap, prec).unwrap();
    scale_by_half(n, &outer)
}

} // verus!
