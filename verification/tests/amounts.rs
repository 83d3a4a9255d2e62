use account_ledger::amount::Amount;
use account_ledger::amount::MAX_MANTISSA;
use account_ledger::amount::MAX_SCALE;
use rust_decimal::Decimal;

fn amount(mantissa: i128, scale: u32) -> Amount {
    Amount::try_new(mantissa, scale).unwrap()
}

fn parts(amount: Amount) -> (i128, u32) {
    (amount.mantissa(), amount.scale())
}

fn pow10(exponent: u32) -> i128 {
    let mut power: i128 = 1;
    for _ in 0..exponent {
        power *= 10;
    }
    power
}

/// The sum (or difference) written at the larger scale, if it fits in 96
/// bits, computed with plain integers.
fn aligned(a: (i128, u32), b: (i128, u32), negate: bool) -> Option<(i128, u32)> {
    let scale = a.1.max(b.1);
    let left = a.0.checked_mul(pow10(scale - a.1));
    let right = b.0.checked_mul(pow10(scale - b.1));
    let total = match (left, right) {
        (Some(x), Some(y)) => {
            if negate {
                x.checked_sub(y)
            } else {
                x.checked_add(y)
            }
        }
        _ => None,
    };
    match total {
        Some(t) if -MAX_MANTISSA <= t && t <= MAX_MANTISSA => Some((t, scale)),
        _ => None,
    }
}

fn expected_sum(a: (i128, u32), b: (i128, u32)) -> Option<(i128, u32)> {
    if a.0 == 0 {
        Some(b)
    } else if b.0 == 0 {
        Some(a)
    } else {
        aligned(a, b, false)
    }
}

fn expected_difference(a: (i128, u32), b: (i128, u32)) -> Option<(i128, u32)> {
    if a.0 == 0 {
        Some((-b.0, b.1))
    } else if b.0 == 0 {
        Some(a)
    } else {
        aligned(a, b, true)
    }
}

fn sample() -> Vec<(i128, u32)> {
    let magnitudes: Vec<i128> = vec![
        0,
        1,
        5,
        12345,
        15000,
        4294967295,
        4294967296,
        18446744073709551615,
        18446744073709551616,
        10000000000000000000,
        100000000000000000000,
        7922816251426433759354395033,
        7922816251426433759354395034,
        39614081257132168796771975167,
        39614081257132168796771975168,
        MAX_MANTISSA - 1,
        MAX_MANTISSA,
    ];
    let scales: Vec<u32> = vec![0, 1, 4, 9, 10, 19, 20, 27, 28];
    let mut all = Vec::new();
    for magnitude in &magnitudes {
        for scale in &scales {
            all.push((*magnitude, *scale));
            if *magnitude != 0 {
                all.push((-*magnitude, *scale));
            }
        }
    }
    all
}

#[test]
fn new_amount_keeps_mantissa_and_scale() {
    let amount = Amount::new(12345, 4);
    assert_eq!(amount.mantissa(), 12345);
    assert_eq!(amount.scale(), 4);
    let negative = Amount::new(-7, 0);
    assert_eq!(parts(negative), (-7, 0));
    let extreme = Amount::new(i64::MIN, MAX_SCALE);
    assert_eq!(parts(extreme), (i64::MIN as i128, 28));
}

#[test]
fn try_new_accepts_exactly_the_representable() {
    assert_eq!(parts(Amount::try_new(MAX_MANTISSA, 28).unwrap()), (MAX_MANTISSA, 28));
    assert_eq!(parts(Amount::try_new(-MAX_MANTISSA, 0).unwrap()), (-MAX_MANTISSA, 0));
    assert!(Amount::try_new(MAX_MANTISSA + 1, 0).is_none());
    assert!(Amount::try_new(-MAX_MANTISSA - 1, 0).is_none());
    assert!(Amount::try_new(1, 29).is_none());
    assert!(Amount::try_new(i128::MAX, 0).is_none());
    assert!(Amount::try_new(i128::MIN, 0).is_none());
}

#[test]
fn try_new_agrees_with_the_decimal_crate() {
    for (mantissa, scale) in [
        (MAX_MANTISSA, 28u32),
        (MAX_MANTISSA + 1, 0),
        (-MAX_MANTISSA, 3),
        (-MAX_MANTISSA - 1, 3),
        (0, 28),
        (0, 29),
        (5, u32::MAX),
    ] {
        let ours = Amount::try_new(mantissa, scale).is_some();
        let theirs = Decimal::try_from_i128_with_scale(mantissa, scale).is_ok();
        assert_eq!(ours, theirs);
    }
}

#[test]
fn sum_is_written_at_the_larger_scale() {
    let sum = amount(12345, 4).checked_add(&amount(15, 1)).unwrap();
    assert_eq!(parts(sum), (27345, 4));
    let sum = amount(15, 1).checked_add(&amount(12345, 4)).unwrap();
    assert_eq!(parts(sum), (27345, 4));
    let sum = amount(-12345, 4).checked_add(&amount(12345, 4)).unwrap();
    assert_eq!(parts(sum), (0, 4));
}

#[test]
fn difference_is_written_at_the_larger_scale() {
    let difference = amount(12345, 4).checked_sub(&amount(10, 1)).unwrap();
    assert_eq!(parts(difference), (2345, 4));
    let difference = amount(10, 1).checked_sub(&amount(12345, 4)).unwrap();
    assert_eq!(parts(difference), (-2345, 4));
    let difference = amount(12345, 4).checked_sub(&amount(12345, 4)).unwrap();
    assert_eq!(parts(difference), (0, 4));
}

#[test]
fn zero_takes_the_other_operand_as_written() {
    assert_eq!(parts(amount(0, 4).checked_add(&amount(1500, 3)).unwrap()), (1500, 3));
    assert_eq!(parts(amount(1500, 3).checked_add(&amount(0, 4)).unwrap()), (1500, 3));
    assert_eq!(parts(amount(0, 4).checked_add(&amount(0, 2)).unwrap()), (0, 2));
    assert_eq!(parts(amount(0, 4).checked_sub(&amount(1500, 3)).unwrap()), (-1500, 3));
    assert_eq!(parts(amount(1500, 3).checked_sub(&amount(0, 4)).unwrap()), (1500, 3));
    assert_eq!(parts(amount(0, 4).checked_sub(&amount(0, 2)).unwrap()), (0, 2));
}

#[test]
fn sums_beyond_the_mantissa_are_refused() {
    assert!(amount(MAX_MANTISSA, 0).checked_add(&amount(1, 0)).is_none());
    assert!(!amount(MAX_MANTISSA, 0).can_add(&amount(1, 0)));
    assert!(amount(-MAX_MANTISSA, 0).checked_sub(&amount(1, 0)).is_none());
    assert!(!amount(-MAX_MANTISSA, 0).can_subtract(&amount(1, 0)));
    assert_eq!(
        parts(amount(MAX_MANTISSA, 0).checked_sub(&amount(1, 0)).unwrap()),
        (MAX_MANTISSA - 1, 0)
    );
    assert_eq!(
        parts(amount(MAX_MANTISSA - 1, 0).checked_add(&amount(1, 0)).unwrap()),
        (MAX_MANTISSA, 0)
    );
}

#[test]
fn sums_that_would_be_rounded_are_refused() {
    // 10^28 + 0.55 has 31 digits: the decimal crate would round it to a whole
    // number.
    let large = amount(pow10(28), 0);
    let small = amount(55, 2);
    assert!(!large.can_add(&small));
    assert!(large.checked_add(&small).is_none());
    assert!(large.checked_sub(&small).is_none());
    let rounded = Decimal::from_i128_with_scale(pow10(28), 0) + Decimal::from_i128_with_scale(55, 2);
    assert_eq!(rounded.scale(), 0);
}

#[test]
fn a_difference_can_fit_where_an_operand_at_the_larger_scale_does_not() {
    // 10^28 written with one decimal has a mantissa of 10^29, beyond 96 bits,
    // yet 10^28 - 7.9 * 10^27 fits.
    let left = amount(pow10(28), 0);
    let right = amount(79 * pow10(27), 1);
    let difference = left.checked_sub(&right).unwrap();
    assert_eq!(parts(difference), (21 * pow10(27), 1));
    let sum = left.checked_add(&amount(-79 * pow10(27), 1)).unwrap();
    assert_eq!(parts(sum), (21 * pow10(27), 1));
}

#[test]
fn checked_add_is_exact_on_a_grid() {
    let all = sample();
    for a in &all {
        for b in &all {
            let sum = amount(a.0, a.1).checked_add(&amount(b.0, b.1));
            assert_eq!(sum.map(parts), expected_sum(*a, *b), "{:?} + {:?}", a, b);
            assert_eq!(amount(a.0, a.1).can_add(&amount(b.0, b.1)), sum.is_some());
        }
    }
}

#[test]
fn checked_sub_is_exact_on_a_grid() {
    let all = sample();
    for a in &all {
        for b in &all {
            let difference = amount(a.0, a.1).checked_sub(&amount(b.0, b.1));
            assert_eq!(
                difference.map(parts),
                expected_difference(*a, *b),
                "{:?} - {:?}",
                a,
                b
            );
            assert_eq!(
                amount(a.0, a.1).can_subtract(&amount(b.0, b.1)),
                difference.is_some()
            );
        }
    }
}

#[test]
fn accepted_sums_are_what_the_decimal_crate_computes() {
    let all = sample();
    for a in &all {
        for b in &all {
            let left = Decimal::from_i128_with_scale(a.0, a.1);
            let right = Decimal::from_i128_with_scale(b.0, b.1);
            if let Some(sum) = amount(a.0, a.1).checked_add(&amount(b.0, b.1)) {
                let theirs = left.checked_add(right).unwrap();
                assert_eq!(parts(sum), (theirs.mantissa(), theirs.scale()));
            }
            if let Some(difference) = amount(a.0, a.1).checked_sub(&amount(b.0, b.1)) {
                let theirs = left.checked_sub(right).unwrap();
                assert_eq!(parts(difference), (theirs.mantissa(), theirs.scale()));
            }
        }
    }
}

#[test]
fn amounts_are_equal_when_they_are_the_same_number() {
    assert!(amount(15, 1) == amount(1500, 3));
    assert!(amount(1500, 3) == amount(15, 1));
    assert!(amount(0, 0) == amount(0, 28));
    assert!(amount(15, 1) != amount(1501, 3));
    assert!(amount(15, 1) != amount(-15, 1));
    assert!(amount(MAX_MANTISSA, 0) != amount(MAX_MANTISSA, 1));
    assert!(amount(MAX_MANTISSA, 28) == amount(MAX_MANTISSA, 28));
    for a in sample() {
        for b in sample() {
            let ours = amount(a.0, a.1) == amount(b.0, b.1);
            let theirs = Decimal::from_i128_with_scale(a.0, a.1)
                == Decimal::from_i128_with_scale(b.0, b.1);
            assert_eq!(ours, theirs, "{:?} == {:?}", a, b);
        }
    }
}
