use linear_distance_pi::args::Args;
use linear_distance_pi::error::NumericError;
use linear_distance_pi::estimate::{
    arc_length, estimate, estimate_fast, estimate_fast_rational, estimate_rational,
};
use linear_distance_pi::sector::get_n_dec;
use malachite::rational::Rational;
use malachite_base::num::conversion::string::options::ToSciOptions;
use malachite_base::num::conversion::traits::ToSci;

fn over(n: u64, d: u64) -> Rational {
    Rational::from(n) / Rational::from(d)
}

fn written(x: &Rational, digits: u64) -> String {
    let mut options = ToSciOptions::default();
    options.set_precision(digits);
    x.to_sci_with_options(options).to_string()
}

#[test]
fn arc_length_of_a_quarter_in_one_chord() {
    // From (0, 1) to (1, 0): the root of 2 to three digits.
    assert_eq!(arc_length(1, &Rational::from(1u64), 3), Ok(over(141, 100)));
}

#[test]
fn arc_length_of_a_quarter_in_two_chords() {
    // Heights 1, 0.86 and 0; chords the roots of 0.2696 and 0.9896.
    assert_eq!(arc_length(2, &Rational::from(2u64), 3), Ok(over(51 + 99, 100)));
}

#[test]
fn arc_length_of_no_chords_is_zero() {
    assert_eq!(arc_length(0, &Rational::from(5u64), 4), Ok(Rational::from(0u64)));
    assert_eq!(arc_length(0, &Rational::from(0u64), 4), Ok(Rational::from(0u64)));
}

#[test]
fn arc_length_beyond_the_circle_is_refused() {
    assert_eq!(arc_length(3, &Rational::from(2u64), 5), Err(NumericError::InvalidInput));
    assert_eq!(arc_length(3, &over(299, 100), 5), Err(NumericError::InvalidInput));
    assert!(arc_length(3, &Rational::from(3u64), 5).is_ok());
}

#[test]
fn arc_length_with_no_scale_is_refused() {
    assert_eq!(arc_length(1, &Rational::from(0u64), 5), Err(NumericError::InvalidInput));
}

#[test]
fn arc_length_takes_a_negative_scale() {
    let scale = Rational::from(0u64) - Rational::from(2u64);
    assert_eq!(arc_length(2, &scale, 3), arc_length(2, &Rational::from(2u64), 3));
    assert_eq!(arc_length(3, &scale, 3), Err(NumericError::InvalidInput));
}

#[test]
fn estimate_rational_to_no_digits() {
    // Every root to no digits is 1, so each chord is 1 and the sum is the count.
    assert_eq!(estimate_rational(1, 4, 0), Rational::from(16u64));
    assert_eq!(estimate_rational(3, 4, 0), Rational::from(48u64));
    assert_eq!(estimate_rational(3, 5, 0), Rational::from(96u64));
    assert_eq!(estimate_rational(0, 4, 0), Rational::from(0u64));
}

#[test]
fn estimate_rational_to_one_digit() {
    // Heights 1 and 0, one chord of length 1, sixteen sectors.
    assert_eq!(estimate_rational(1, 4, 1), Rational::from(16u64));
}

#[test]
fn estimate_rational_is_the_scaled_arc_length() {
    let n_dec = get_n_dec(10, 5, 8);
    let arc = arc_length(10, &n_dec, 8).unwrap();
    assert_eq!(estimate_rational(10, 5, 8), Rational::from(32u64) * arc);
}

#[test]
fn estimate_begins_with_three_point_one() {
    let text = estimate(10, 4, 10);
    assert!(text.starts_with("3.1"), "{}", text);
}

#[test]
fn estimate_has_the_digits_asked_for() {
    let text = estimate(10, 4, 10);
    assert_eq!(text, written(&estimate_rational(10, 4, 10), 10));
    assert!(text.len() <= 11);
    assert_ne!(text, written(&estimate_rational(10, 4, 10), 5));
}

#[test]
fn estimate_nears_pi_with_more_chords() {
    let text = estimate(1000, 6, 10);
    assert!(text.starts_with("3.141"), "{}", text);
}

#[test]
fn estimate_gets_closer_with_more_chords() {
    let pi = over(3141592653, 1000000000);
    let coarse = estimate_rational(4, 4, 12);
    let fine = estimate_rational(64, 4, 12);
    assert!(coarse < fine);
    assert!(fine < pi);
    assert!(&pi - &fine < &pi - &coarse);
}

#[test]
fn estimate_twice_is_the_same_text() {
    assert_eq!(estimate(10, 4, 10), estimate(10, 4, 10));
    assert_eq!(estimate(25, 7, 6), estimate(25, 7, 6));
    assert_eq!(estimate_rational(25, 7, 6), estimate_rational(25, 7, 6));
}

#[test]
fn estimate_treats_power_two_as_four() {
    assert_eq!(estimate(10, 2, 10), estimate(10, 4, 10));
    assert_eq!(estimate_rational(10, 2, 10), estimate_rational(10, 4, 10));
    assert_eq!(estimate_rational(10, 0, 10), estimate_rational(10, 4, 10));
    assert_eq!(estimate_rational(10, 3, 10), estimate_rational(10, 4, 10));
    assert_ne!(estimate_rational(10, 5, 10), estimate_rational(10, 4, 10));
}

#[test]
fn estimate_fast_is_near_three() {
    let text = estimate_fast(10, 4, 10);
    assert_eq!(text, written(&estimate_fast_rational(10, 4, 10), 10));
    let quick = estimate_fast_rational(10, 4, 10);
    assert!(quick > Rational::from(0u64));
}

#[test]
fn estimate_fast_at_one_digit() {
    // The quick scale factor for 1 chord is 2: heights 1 and 0, chord 1, sixteen
    // sectors.
    assert_eq!(estimate_fast_rational(1, 4, 1), Rational::from(16u64));
    assert_eq!(estimate_fast(1, 4, 1), "2e1");
}

#[test]
fn args_default_to_the_documented_values() {
    let args = Args::default();
    assert_eq!(args.iter, 10);
    assert_eq!(args.pow, 4);
    assert_eq!(args.prec, 32);
    assert!(!args.silent);
    assert!(!args.replaces_power());
    assert_eq!(args.sector_power(), 4);
}

#[test]
fn args_replace_a_small_power() {
    let mut args = Args::default();
    for pow in [-5, 0, 2, 3] {
        args.pow = pow;
        assert!(args.replaces_power());
        assert_eq!(args.sector_power(), 4);
    }
    args.pow = 9;
    assert!(!args.replaces_power());
    assert_eq!(args.sector_power(), 9);
}

#[test]
fn args_estimate_is_the_estimate() {
    let args = Args { iter: 10, pow: 4, prec: 10, silent: true };
    assert_eq!(args.estimate(), Some(estimate(10, 4, 10)));
    let small = Args { iter: 10, pow: -1, prec: 10, silent: false };
    assert_eq!(small.estimate(), Some(estimate(10, 4, 10)));
}

#[test]
fn args_estimate_needs_a_digit() {
    let args = Args { iter: 10, pow: 4, prec: 0, silent: false };
    assert_eq!(args.estimate(), None);
}

#[test]
fn estimate_of_the_default_run() {
    assert_eq!(estimate(10, 4, 32), "3.1415421828897883345718705412272");
}

#[test]
fn estimate_to_ten_digits() {
    assert_eq!(estimate(10, 4, 10), "3.141542112");
    assert_eq!(estimate(1000, 6, 10), "3.141559936");
}

#[test]
fn estimate_at_one_digit() {
    // Sixteen, written with one significant digit.
    assert_eq!(estimate(1, 4, 1), "2e1");
}

#[test]
fn args_estimate_refuses_too_many_digits() {
    let args = Args { iter: 1, pow: 4, prec: usize::MAX, silent: true };
    if (usize::MAX as u64) > 0x3fff_ffff_ffff_ffff {
        assert_eq!(args.estimate(), None);
    }
}
