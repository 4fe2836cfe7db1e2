use linear_distance_pi::error::NumericError;
use linear_distance_pi::root::sqrt;
use malachite::rational::Rational;
use malachite_base::num::arithmetic::traits::Pow;

fn ratio(n: u64, d: u64) -> Rational {
    Rational::from(n) / Rational::from(d)
}

fn last_place(prec: u64) -> Rational {
    Rational::from(1u64) / Rational::from(10u64).pow(prec - 1)
}

#[test]
fn sqrt_of_two_to_five_digits() {
    let root = sqrt(&Rational::from(2u64), 5).unwrap();
    assert_eq!(root, ratio(14142, 10000));
    let expected = ratio(141421, 100000);
    let off = if root < expected { &expected - &root } else { &root - &expected };
    assert!(off <= ratio(1, 100000));
}

#[test]
fn sqrt_of_two_digit_by_digit() {
    let two = Rational::from(2u64);
    assert_eq!(sqrt(&two, 1).unwrap(), Rational::from(1u64));
    assert_eq!(sqrt(&two, 2).unwrap(), ratio(14, 10));
    assert_eq!(sqrt(&two, 3).unwrap(), ratio(141, 100));
    assert_eq!(sqrt(&two, 4).unwrap(), ratio(1414, 1000));
    assert_eq!(sqrt(&two, 10).unwrap(), ratio(1414213562, 1000000000));
}

#[test]
fn sqrt_of_zero_is_zero() {
    for prec in 1..=12u64 {
        assert_eq!(sqrt(&Rational::from(0u64), prec).unwrap(), Rational::from(0u64));
    }
}

#[test]
fn sqrt_of_one_is_one() {
    for prec in 0..=12u64 {
        assert_eq!(sqrt(&Rational::from(1u64), prec).unwrap(), Rational::from(1u64));
    }
}

#[test]
fn sqrt_to_no_digits_is_one() {
    assert_eq!(sqrt(&Rational::from(0u64), 0).unwrap(), Rational::from(1u64));
    assert_eq!(sqrt(&Rational::from(2u64), 0).unwrap(), Rational::from(1u64));
    assert_eq!(sqrt(&Rational::from(900u64), 0).unwrap(), Rational::from(1u64));
    assert_eq!(sqrt(&ratio(1, 7), 0).unwrap(), Rational::from(1u64));
}

#[test]
fn sqrt_of_a_negative_number_is_refused() {
    let minus_one = Rational::from(0u64) - Rational::from(1u64);
    assert_eq!(sqrt(&minus_one, 5), Err(NumericError::InvalidInput));
    assert_eq!(sqrt(&minus_one, 0), Err(NumericError::InvalidInput));
    let just_below = Rational::from(0u64) - ratio(1, 1000000);
    assert_eq!(sqrt(&just_below, 3), Err(NumericError::InvalidInput));
}

#[test]
fn sqrt_of_squares_is_exact() {
    assert_eq!(sqrt(&Rational::from(1000000u64), 3).unwrap(), Rational::from(1000u64));
    assert_eq!(sqrt(&Rational::from(144u64), 1).unwrap(), Rational::from(12u64));
    assert_eq!(sqrt(&ratio(1, 4), 3).unwrap(), ratio(1, 2));
    assert_eq!(sqrt(&ratio(9, 16), 3).unwrap(), ratio(3, 4));
}

#[test]
fn sqrt_cuts_off_and_does_not_round() {
    // The root of 0.64 is 0.8; one digit keeps the integer part only.
    assert_eq!(sqrt(&ratio(64, 100), 1).unwrap(), Rational::from(0u64));
    assert_eq!(sqrt(&ratio(64, 100), 2).unwrap(), ratio(8, 10));
    // The root of 3 is 1.7320508...
    assert_eq!(sqrt(&Rational::from(3u64), 4).unwrap(), ratio(1732, 1000));
    // The root of 2/3 is 0.81649...
    assert_eq!(sqrt(&ratio(2, 3), 4).unwrap(), ratio(816, 1000));
    // The root of 99 is 9.9498...: the first round finds more than one digit.
    assert_eq!(sqrt(&Rational::from(99u64), 2).unwrap(), ratio(99, 10));
}

#[test]
fn sqrt_brackets_the_root() {
    let inputs = [
        ratio(2, 1),
        ratio(1, 3),
        ratio(5, 7),
        ratio(123456, 1000),
        ratio(1, 1000000),
        ratio(0, 1),
        ratio(17, 1),
    ];
    for x in inputs.iter() {
        for prec in 1..=9u64 {
            let root = sqrt(x, prec).unwrap();
            let next = &root + last_place(prec);
            assert!(root >= Rational::from(0u64));
            assert!(&root * &root <= *x);
            assert!(*x < &next * &next);
        }
    }
}

#[test]
fn sqrt_square_is_within_tolerance_for_small_numbers() {
    let x = ratio(1, 1000000);
    for prec in 1..=9u64 {
        let root = sqrt(&x, prec).unwrap();
        let tolerance = Rational::from(1u64) / Rational::from(10u64).pow(prec);
        let square = &root * &root;
        assert!(square <= x);
        if x <= &square + &tolerance {
            assert!(&x - &square <= tolerance);
        }
    }
}

#[test]
fn sqrt_square_of_two_misses_the_tolerance_at_five_digits() {
    let x = Rational::from(2u64);
    let root = sqrt(&x, 5).unwrap();
    let short = &x - &root * &root;
    assert_eq!(short, ratio(3836, 100000000));
    assert!(short > ratio(1, 100000));
}
