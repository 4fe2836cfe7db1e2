//! The estimate of pi: the length of a sector's arc, taken as a sum of chords
//! between samples of the unit circle, times the number of sectors.

use vstd::prelude::*;
use malachite::rational::Rational;
use crate::circle::{circle_func, circle_value};
use crate::error::NumericError;
use crate::power::{power, power_two};
use crate::rational::{
    rational_difference, rational_from, rational_less, rational_power, rational_product,
    rational_quotient, rational_sum, rational_text, sci_text, value, MAX_PRECISION,
};
use crate::root::{decimal_sqrt, sqrt};
use crate::sector::{
    clamp_power, get_n_dec, get_n_dec_fast, n_dec_fast_spans_sector, n_dec_fast_value,
    n_dec_spans_sector, n_dec_value, sector_power,
};

verus! {

/// The x-coordinate of sample `i`: 0 for the first, then `i` over the scale factor.
pub open spec fn sample(i: nat, scale: real) -> real {
    if i == 0 {
        0real
    } else {
        i as real / scale
    }
}

/// The length of the chord between the circle's points above `from` and `to`, each
/// height and the length itself taken to `prec` digits.
pub open spec fn chord(from: real, to: real, prec: nat) -> real {
    let across = to - from;
    let up = circle_value(to, prec) - circle_value(from, prec);
    decimal_sqrt(across * across + up * up, prec)
}

/// The sum of the first `count` chords, from sample 0 to sample `count`.
pub open spec fn chord_sum(count: nat, scale: real, prec: nat) -> real
    decreases count,
{
    if count == 0 {
        0real
    } else {
        chord_sum((count - 1) as nat, scale, prec) + chord(
            sample((count - 1) as nat, scale),
            sample(count, scale),
            prec,
        )
    }
}

/// The estimate of pi from `iter` chords over a sector of one part in 2 to the
/// `pow`, at `prec` digits: the chord sum times the number of sectors. A `pow` of 3
/// or less counts as 4 throughout.
pub open spec fn estimate_value(iter: nat, pow: nat, prec: nat) -> real {
    power(2real, sector_power(pow)) * chord_sum(iter, n_dec_value(iter, pow, prec), prec)
}

/// The estimate of pi with the quick scale factor in place of the nested one.
pub open spec fn estimate_fast_value(iter: nat, pow: nat, prec: nat) -> real {
    power(2real, sector_power(pow)) * chord_sum(iter, n_dec_fast_value(iter, prec), prec)
}

/// A `pow` of 3 or less gives the estimate of `pow == 4`.
pub proof fn estimate_of_small_power(iter: nat, pow: nat, prec: nat)
    requires
        pow <= 3,
    ensures
        estimate_value(iter, pow, prec) == estimate_value(iter, 4, prec),
{
}

/// Two texts that `estimate` may return for the same three numbers are the same
/// text: the result depends on nothing else.
pub proof fn estimate_repeats(iter: u64, pow: u64, prec: u64, first: Seq<char>, second: Seq<char>)
    requires
        is_estimate(iter, pow, prec, first),
        is_estimate(iter, pow, prec, second),
    ensures
        first == second,
{
}

/// `text` is what `estimate` returns for `iter`, `pow` and `prec`: the estimate's
/// value written with `prec` significant digits.
pub open spec fn is_estimate(iter: u64, pow: u64, prec: u64, text: Seq<char>) -> bool {
    text == sci_text(estimate_value(iter as nat, pow as nat, prec as nat), prec)
}

/// A sample beyond the unit circle puts the last sample beyond it too: the scale
/// factor is smaller than the count.
proof fn sample_outside(k: nat, count: nat, scale: real)
    requires
        1 <= k <= count,
        scale != 0real,
        1real < sample(k, scale) * sample(k, scale),
    ensures
        scale * scale < (count as real) * (count as real),
{
    let a = k as real;
    let b = count as real;
    let x = a / scale;
    assert(scale * scale < a * a) by (nonlinear_arith)
        requires
            x == a / scale,
            scale != 0real,
            1real < x * x,
    ;
    assert(a * a <= b * b) by (nonlinear_arith)
        requires
            1real <= a <= b,
    ;
}

/// With the last sample inside the unit circle the scale factor is no smaller than
/// the count.
proof fn sample_inside(count: nat, scale: real)
    requires
        1 <= count,
        scale != 0real,
        sample(count, scale) * sample(count, scale) <= 1real,
    ensures
        (count as real) * (count as real) <= scale * scale,
{
    let b = count as real;
    let x = b / scale;
    assert(b * b <= scale * scale) by (nonlinear_arith)
        requires
            x == b / scale,
            scale != 0real,
            x * x <= 1real,
    ;
}

/// A last sample at a place between 0 and 1 needs a scale factor no smaller than
/// the count.
proof fn scale_covers(count: nat, scale: real)
    requires
        1 <= count,
        0real < scale,
        count as real / scale <= 1real,
    ensures
        (count as real) * (count as real) <= scale * scale,
{
    let b = count as real;
    assert(b * b <= scale * scale) by (nonlinear_arith)
        requires
            1real <= b,
            0real < scale,
            b / scale <= 1real,
    ;
}

/// The sum of the chords between `iter + 1` samples of the unit circle, the first
/// above 0 and sample `i` above `i / n_dec`, with every root taken to `prec`
/// digits.
///
/// The sum is refused where a sample lies outside the unit circle, which is where
/// the scale factor is smaller in size than the count; with a scale factor of 0 no
/// sample but the first has a place at all.
pub fn arc_length(iter: u64, n_dec: &Rational, prec: u64) -> (out: Result<Rational, NumericError>)
    ensures
        out is Err <==> value(*n_dec) * value(*n_dec) < (iter as real) * (iter as real),
        out matches Ok(length) ==> value(length) == chord_sum(
            iter as nat,
            value(*n_dec),
            prec as nat,
        ),
{
    let zero = rational_from(0);
    let ghost scale = value(*n_dec);
    let mut arclen = rational_from(0);
    if iter == 0 {
        proof {
            assert(0real <= scale * scale) by (nonlinear_arith);
        }
        return Ok(arclen);
    }
    if !rational_less(&zero, n_dec) && !rational_less(n_dec, &zero) {
        proof {
            let b = iter as real;
            assert(0real * 0real < b * b) by (nonlinear_arith)
                requires
                    1real <= b,
            ;
        }
        return Err(NumericError::InvalidInput);
    }
    let mut x1 = rational_from(0);
    let mut y1 = circle_func(&x1, prec).unwrap();
    let mut i: u64 = 0;
    while i < iter
        invariant
            i <= iter,
            scale == value(*n_dec),
            scale != 0real,
            value(x1) == sample(i as nat, scale),
            value(x1) * value(x1) <= 1real,
            value(y1) == circle_value(sample(i as nat, scale), prec as nat),
            value(arclen) == chord_sum(i as nat, scale, prec as nat),
        decreases iter - i,
    {
        let place = rational_from(i + 1);
        let x2 = rational_quotient(&place, n_dec);
        let y2 = match circle_func(&x2, prec) {
            Ok(height) => height,
            Err(refusal) => {
                proof {
                    sample_outside((i + 1) as nat, iter as nat, scale);
                }
                return Err(refusal);
            },
        };
        let across = rational_difference(&x2, &x1);
        let up = rational_difference(&y2, &y1);
        let across_square = rational_power(&across, 2);
        let up_square = rational_power(&up, 2);
        let square = rational_sum(&across_square, &up_square);
        proof {
            let a = value(across);
            let u = value(up);
            power_two(a);
            power_two(u);
            assert(0real <= a * a + u * u) by (nonlinear_arith);
        }
        let dist = sqrt(&square, prec).unwrap();
        arclen = rational_sum(&arclen, &dist);
        x1 = x2;
        y1 = y2;
        i = i + 1;
    }
    proof {
        sample_inside(iter as nat, scale);
    }
    Ok(arclen)
}

/// The chord sum over `n_dec` times 2 to the sector's power.
fn scale_to_circle(arclen: &Rational, pow: u64) -> (out: Rational)
    ensures
        value(out) == power(2real, sector_power(pow as nat)) * value(*arclen),
{
    let two = rational_from(2);
    let sectors = rational_power(&two, clamp_power(pow));
    rational_product(&sectors, arclen)
}

/// The estimate of pi as a rational number: the chord sum of `iter` chords over the
/// sector of `get_n_dec`, times 2 to the sector's power.
pub fn estimate_rational(iter: u64, pow: u64, prec: u64) -> (out: Rational)
    requires
        prec + 2 <= u64::MAX,
    ensures
        value(out) == estimate_value(iter as nat, pow as nat, prec as nat),
{
    let n_dec = get_n_dec(iter, pow, prec);
    proof {
        if iter >= 1 {
            n_dec_spans_sector(iter as nat, pow as nat, prec as nat);
            scale_covers(iter as nat, value(n_dec));
        } else {
            assert(0real <= value(n_dec) * value(n_dec)) by (nonlinear_arith);
        }
    }
    let arclen = arc_length(iter, &n_dec, prec).unwrap();
    scale_to_circle(&arclen, pow)
}

/// The estimate of pi with the quick scale factor of `get_n_dec_fast`, as a
/// rational number.
pub fn estimate_fast_rational(iter: u64, pow: u64, prec: u64) -> (out: Rational)
    requires
        1 <= prec,
        prec + 2 <= u64::MAX,
    ensures
        value(out) == estimate_fast_value(iter as nat, pow as nat, prec as nat),
{
    let n_dec = get_n_dec_fast(iter, pow, prec);
    proof {
        if iter >= 1 {
            n_dec_fast_spans_sector(iter as nat, prec as nat);
            scale_covers(iter as nat, value(n_dec));
        } else {
            assert(0real <= value(n_dec) * value(n_dec)) by (nonlinear_arith);
        }
    }
    let arclen = arc_length(iter, &n_dec, prec).unwrap();
    scale_to_circle(&arclen, pow)
}

/// The estimate of pi from `iter` chords over one part in 2 to the `pow` of the
/// circle, written in decimal with `prec` significant digits.
pub fn estimate(iter: u64, pow: u64, prec: u64) -> (text: String)
    requires
        1 <= prec <= MAX_PRECISION,
    ensures
        is_estimate(iter, pow, prec, text@),
{
    let pi_est = estimate_rational(iter, pow, prec);
    rational_text(&pi_est, prec)
}

/// The estimate of pi with the quick scale factor, written in decimal with `prec`
/// significant digits.
pub fn estimate_fast(iter: u64, pow: u64, prec: u64) -> (text: String)
    requires
        1 <= prec <= MAX_PRECISION,
    ensures
        text@ == sci_text(estimate_fast_value(iter as nat, pow as nat, prec as nat), prec),
{
    let pi_est = estimate_fast_rational(iter, pow, prec);
    rational_text(&pi_est, prec)
}

} // verus!
