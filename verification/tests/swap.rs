use amm_math::{amount_after_fee, swap_exact_input, swap_exact_output, AmmMathError};

#[test]
fn amount_after_fee_thirty_bps() {
    assert_eq!(amount_after_fee(100, 30).unwrap(), 99); // 0.997 × 100 = 99.7 → 99
}

#[test]
fn amount_after_fee_zero_bps() {
    assert_eq!(amount_after_fee(100, 0).unwrap(), 100);
}

#[test]
fn amount_after_fee_one_bps_below_max() {
    assert_eq!(amount_after_fee(100, 9999).unwrap(), 0);
}

#[test]
fn amount_after_fee_invalid_fee_equal_to_denominator() {
    assert!(matches!(
        amount_after_fee(100, 10_000),
        Err(AmmMathError::InvalidFee)
    ));
}

#[test]
fn amount_after_fee_invalid_fee_above_denominator() {
    assert!(matches!(
        amount_after_fee(100, 10_001),
        Err(AmmMathError::InvalidFee)
    ));
}

#[test]
fn amount_after_fee_u64_max_does_not_overflow() {
    assert!(amount_after_fee(u64::MAX, 30).is_ok());
}

// The fee taken is the ceiling of x * bps / 10_000.
#[test]
fn amount_after_fee_complement_is_ceiling() {
    for (x, bps) in [(100u64, 30u16), (101, 30), (12_345, 1), (u64::MAX, 30), (7, 9_999), (0, 5)] {
        let after = amount_after_fee(x, bps).unwrap() as u128;
        let fee = (x as u128 * bps as u128).div_ceil(10_000);
        assert!(after <= x as u128);
        assert_eq!(x as u128 - after, fee);
    }
    assert_eq!(amount_after_fee(u64::MAX, 30).unwrap(), 18_391_403_841_488_422_960);
}

// Reserves (1000, 4000), 100 in at 30 bps: after = 99, out = floor(99 * 4000 / 1099) = 360.
#[test]
fn swap_exact_input_quote() {
    let q = swap_exact_input(1_000, 4_000, 100, 30).unwrap();
    assert_eq!(q.amount_in, 100);
    assert_eq!(q.amount_in_after_fee, 99);
    assert_eq!(q.fee_amount, 1);
    assert_eq!(q.amount_out, 360);
    assert_eq!(q.new_reserve_in, 1_100);
    assert_eq!(q.new_reserve_out, 3_640);
    assert!((q.new_reserve_in as u128) * (q.new_reserve_out as u128) > 1_000 * 4_000);
}

// Reserves (4000, 1000) for the reverse direction: floor(99 * 1000 / 4099) = 24.
#[test]
fn swap_exact_input_reverse_direction() {
    let q = swap_exact_input(4_000, 1_000, 100, 30).unwrap();
    assert_eq!(q.amount_out, 24);
    assert_eq!(q.new_reserve_in, 4_100);
    assert_eq!(q.new_reserve_out, 976);
}

// 360 out of (1000, 4000) at 30 bps: after = ceil(360000 / 3640) = 99,
// amount_in = ceil(99 * 10000 / 9970) = 100.
#[test]
fn swap_exact_output_quote() {
    let q = swap_exact_output(1_000, 4_000, 360, 30).unwrap();
    assert_eq!(q.amount_out, 360);
    assert_eq!(q.amount_in_after_fee, 99);
    assert_eq!(q.amount_in, 100);
    assert_eq!(q.fee_amount, 1);
    assert_eq!(q.new_reserve_in, 1_100);
    assert_eq!(q.new_reserve_out, 3_640);
}

#[test]
fn swap_exact_input_errors() {
    assert_eq!(swap_exact_input(1_000, 4_000, 0, 30), Err(AmmMathError::ZeroAmount));
    assert_eq!(swap_exact_input(0, 4_000, 100, 30), Err(AmmMathError::ZeroReserve));
    assert_eq!(swap_exact_input(1_000, 0, 100, 30), Err(AmmMathError::ZeroReserve));
    assert_eq!(swap_exact_input(1_000, 4_000, 100, 10_000), Err(AmmMathError::InvalidFee));
    // 1 in at 30 bps truncates to 0 after the fee
    assert_eq!(swap_exact_input(1_000, 4_000, 1, 30), Err(AmmMathError::InsufficientOutput));
    assert_eq!(swap_exact_input(u64::MAX - 50, u64::MAX, 100, 30), Err(AmmMathError::Overflow));
}

#[test]
fn swap_exact_output_errors() {
    assert_eq!(swap_exact_output(1_000, 4_000, 0, 30), Err(AmmMathError::ZeroAmount));
    assert_eq!(swap_exact_output(0, 4_000, 10, 30), Err(AmmMathError::ZeroReserve));
    assert_eq!(swap_exact_output(1_000, 0, 10, 30), Err(AmmMathError::ZeroReserve));
    assert_eq!(swap_exact_output(1_000, 4_000, 10, 10_000), Err(AmmMathError::InvalidFee));
    assert_eq!(swap_exact_output(1_000, 4_000, 4_000, 30), Err(AmmMathError::InsufficientLiquidity));
    assert_eq!(swap_exact_output(1_000, 4_000, 5_000, 30), Err(AmmMathError::InsufficientLiquidity));
    assert_eq!(swap_exact_output(u64::MAX, u64::MAX, u64::MAX - 1, 0), Err(AmmMathError::Overflow));
}

// Zero fee: output is the plain constant-product floor and k never shrinks.
#[test]
fn swap_exact_input_zero_fee_keeps_k() {
    let q = swap_exact_input(1_000, 1_000, 1_000, 0).unwrap();
    assert_eq!(q.amount_out, 500);
    assert_eq!(q.fee_amount, 0);
    assert!((q.new_reserve_in as u128) * (q.new_reserve_out as u128) >= 1_000_000);
}

// Exact output rounds the input up twice so the pre-fee product never shrinks.
#[test]
fn swap_exact_output_pre_fee_invariant() {
    let (rin, rout) = (12_345u64, 67_891u64);
    for out in [1u64, 2, 17, 999, 50_000, 67_890] {
        let q = swap_exact_output(rin, rout, out, 25).unwrap();
        assert!((rin as u128 + q.amount_in_after_fee as u128) * (q.new_reserve_out as u128) >= rin as u128 * rout as u128);
        assert!(q.amount_in as u128 * (10_000 - 25) >= q.amount_in_after_fee as u128 * 10_000);
    }
}
