use amm_math::{
    checked_mul_div_ceil, checked_mul_div_floor, div_ceil, integer_sqrt_floor, narrow_u64,
    AmmMathError,
};

#[test]
fn narrow_u64_within_range() {
    assert_eq!(narrow_u64(42).unwrap(), 42u64);
    assert_eq!(narrow_u64(u64::MAX as u128).unwrap(), u64::MAX);
}

#[test]
fn narrow_u64_overflow() {
    assert!(matches!(
        narrow_u64(u64::MAX as u128 + 1),
        Err(AmmMathError::Overflow)
    ));
}

// ⌈7/3⌉ = 3
#[test]
fn div_ceil_rounds_up() {
    assert_eq!(div_ceil(7, 3).unwrap(), 3);
}

// ⌈6/3⌉ = 2
#[test]
fn div_ceil_exact_division() {
    assert_eq!(div_ceil(6, 3).unwrap(), 2);
}

#[test]
fn div_ceil_zero_denominator_errors() {
    assert!(matches!(div_ceil(4, 0), Err(AmmMathError::ZeroDiv)));
}

#[test]
fn div_ceil_overflow() {
    assert!(matches!(
        div_ceil(u128::MAX, 2),
        Err(AmmMathError::Overflow)
    ));
}

#[test]
fn mul_div_floor() {
    assert_eq!(checked_mul_div_floor(99, 1000, 1099).unwrap(), 90);
    assert_eq!(checked_mul_div_floor(6, 4, 2).unwrap(), 12);
    assert_eq!(checked_mul_div_floor(7, 3, 4).unwrap(), 5);
    assert_eq!(checked_mul_div_floor(0, 42, 5).unwrap(), 0);
    assert!(matches!(
        checked_mul_div_floor(69, 5, 0),
        Err(AmmMathError::ZeroDiv)
    ));
    assert!(matches!(
        checked_mul_div_floor(u128::MAX, 2, 1),
        Err(AmmMathError::Overflow)
    ))
}

#[test]
fn mul_div_ceil() {
    assert_eq!(checked_mul_div_ceil(99, 1000, 1099).unwrap(), 91);
    assert_eq!(checked_mul_div_ceil(6, 4, 2).unwrap(), 12);
    assert_eq!(checked_mul_div_ceil(7, 3, 4).unwrap(), 6);
    assert_eq!(checked_mul_div_ceil(0, 42, 5).unwrap(), 0);
    assert!(matches!(
        checked_mul_div_ceil(1, 9, 0),
        Err(AmmMathError::ZeroDiv)
    ));
    assert!(matches!(
        checked_mul_div_ceil(u128::MAX, 2, 1),
        Err(AmmMathError::Overflow)
    ));
}

#[test]
fn test_integer_sqrt_floor() {
    assert_eq!(integer_sqrt_floor(0), 0);
    assert_eq!(integer_sqrt_floor(1), 1);
    assert_eq!(integer_sqrt_floor(4), 2);
    assert_eq!(integer_sqrt_floor(5), 2);
    assert_eq!(integer_sqrt_floor(9), 3);
    assert_eq!(integer_sqrt_floor(10), 3);
    assert_eq!(integer_sqrt_floor(15), 3);
    assert_eq!(integer_sqrt_floor(16), 4);
    assert_eq!(integer_sqrt_floor(u128::MAX), ((1u128 << 64) - 1));
}

// Overflow of the product is reported before a zero denominator.
#[test]
fn mul_div_ceil_checks_product_before_denominator() {
    assert!(matches!(
        checked_mul_div_ceil(u128::MAX, 2, 0),
        Err(AmmMathError::Overflow)
    ));
    assert!(matches!(
        checked_mul_div_floor(u128::MAX, 2, 0),
        Err(AmmMathError::ZeroDiv)
    ));
}

// The product fits but adding `d - 1` for the ceiling does not.
#[test]
fn mul_div_ceil_overflows_in_rounding() {
    assert!(matches!(
        checked_mul_div_ceil(u128::MAX, 1, 2),
        Err(AmmMathError::Overflow)
    ));
    assert_eq!(checked_mul_div_ceil(u128::MAX, 1, 1).unwrap(), u128::MAX);
}

#[test]
fn div_ceil_brackets_the_quotient() {
    let cases: [(u128, u128); 6] = [(0, 1), (1, 1), (10, 4), (12, 4), (1_000_001, 1_000), (u128::MAX - 5, 3)];
    for (n, d) in cases {
        let q = div_ceil(n, d).unwrap();
        assert!(q * d >= n);
        if q > 0 {
            assert!((q - 1) * d < n);
        }
    }
}

#[test]
fn mul_div_floor_brackets_and_is_exact_on_multiples() {
    let r = checked_mul_div_floor(1_234_567, 89, 1_000).unwrap();
    assert_eq!(r, 109_876);
    assert!(r * 1_000 <= 1_234_567 * 89);
    assert!((r + 1) * 1_000 > 1_234_567 * 89);
    // b = d * m gives exactly a * m
    assert_eq!(checked_mul_div_floor(77, 13 * 9, 13).unwrap(), 77 * 9);
}

#[test]
fn integer_sqrt_floor_on_squares_and_neighbours() {
    for r in [1u128, 2, 3, 1_000, 65_535, 1 << 32, (1 << 63) + 12_345, (1u128 << 64) - 1] {
        assert_eq!(integer_sqrt_floor(r * r), r);
        assert_eq!(integer_sqrt_floor(r * r - 1), r - 1);
        if r < (1u128 << 64) - 1 {
            assert_eq!(integer_sqrt_floor(r * r + 2 * r), r);
        }
    }
    assert_eq!(integer_sqrt_floor(1u128 << 127), 13_043_817_825_332_782_212);
}
