use amm_math::{add_liquidity, initial_liquidity, remove_liquidity, AmmMathError, MINIMUM_LIQUIDITY};

// sqrt(10_000 * 10_000) = 10_000; 10_000 - 1_000 = 9_000
#[test]
fn balanced_pool() {
    let q = initial_liquidity(10_000, 10_000).expect("valid balanced pool");
    assert_eq!(q.lp_tokens, 9_000);
    assert_eq!(q.amount_a, 10_000);
    assert_eq!(q.amount_b, 10_000);
}

// A zero amount is rejected by the first deposit and by later deposits alike.
#[test]
fn liquidity_fails_with_zero_amount() {
    assert!(matches!(
        initial_liquidity(0, 10_000),
        Err(AmmMathError::ZeroAmount)
    ));
    assert!(matches!(
        initial_liquidity(10_000, 0),
        Err(AmmMathError::ZeroAmount)
    ));
    assert!(matches!(
        add_liquidity(1000, 1000, 1000, 0, 100),
        Err(AmmMathError::ZeroAmount)
    ));
    assert!(matches!(
        add_liquidity(1000, 1000, 1000, 100, 0),
        Err(AmmMathError::ZeroAmount)
    ));
}

#[test]
fn fails_with_insufficient_liquidity() {
    assert!(matches!(
        initial_liquidity(10, 10),
        Err(AmmMathError::InsufficientLiquidity)
    ));
}

// sqrt(1_001 * 1_001) - MINIMUM_LIQUIDITY = 1
#[test]
fn boundary_liquidity_is_exactly_one() {
    let q = initial_liquidity(1_001, 1_001).expect("lp pool");
    assert_eq!(q.lp_tokens, 1);
}

// sqrt(1_000 * 1_000) - MINIMUM_LIQUIDITY = 0  ->  Err(InsufficientLiquidity)
#[test]
fn boundary_fails_when_there_is_not_enough_to_reserve() {
    assert!(matches!(
        initial_liquidity(1_000, 1_000),
        Err(AmmMathError::InsufficientLiquidity)
    ));
}

#[test]
fn balanced_at_ratio() {
    let q = add_liquidity(1000, 1000, 1000, 100, 100).unwrap();
    assert_eq!(q.lp_tokens, 100);
    assert_eq!(q.amount_a, 100);
    assert_eq!(q.amount_b, 100);
}

#[test]
fn balanced_non_unit_ratio() {
    let q = add_liquidity(1000, 4000, 2000, 100, 400).unwrap();
    assert_eq!(q.lp_tokens, 200);
}

#[test]
fn excess_a_takes_min_from_b() {
    let q = add_liquidity(1000, 1000, 1000, 200, 100).unwrap();
    assert_eq!(q.lp_tokens, 100);
}

#[test]
fn excess_b_takes_min_from_a() {
    let q = add_liquidity(1000, 1000, 1000, 100, 200).unwrap();
    assert_eq!(q.lp_tokens, 100);
}

// A zero reserve is rejected when adding and when removing liquidity.
#[test]
fn liquidity_fails_with_zero_reserve() {
    assert!(matches!(
        add_liquidity(0, 1000, 1000, 100, 100),
        Err(AmmMathError::ZeroReserve)
    ));
    assert!(matches!(
        add_liquidity(1000, 0, 1000, 100, 100),
        Err(AmmMathError::ZeroReserve)
    ));
    assert!(matches!(
        remove_liquidity(0, 1000, 1000, 100),
        Err(AmmMathError::ZeroReserve)
    ));
    assert!(matches!(
        remove_liquidity(1000, 0, 1000, 100),
        Err(AmmMathError::ZeroReserve)
    ));
}

// Tiny amounts that round to zero are rejected on both sides.
#[test]
fn liquidity_fails_when_rounds_to_zero() {
    // floor(1 * 1000 / 1_000_001) = 0
    assert!(matches!(
        add_liquidity(1_000_001, 1_000_001, 1000, 1, 1),
        Err(AmmMathError::InsufficientLiquidity)
    ));
    assert!(matches!(
        remove_liquidity(1000, 1000, 1_000_001, 1),
        Err(AmmMathError::InsufficientLiquidity)
    ));
}

// A pool with no LP supply can be neither added to nor removed from.
#[test]
fn liquidity_fails_when_supply_is_zero() {
    assert!(matches!(
        add_liquidity(1000, 1000, 0, 100, 100),
        Err(AmmMathError::InsufficientLiquidity)
    ));
    assert!(matches!(
        remove_liquidity(1000, 1000, 0, 100),
        Err(AmmMathError::InsufficientLiquidity)
    ));
}

#[test]
fn balanced_withdrawal() {
    let q = remove_liquidity(1000, 1000, 1000, 100).unwrap();
    assert_eq!(q.lp_tokens, 100);
    assert_eq!(q.amount_a, 100);
    assert_eq!(q.amount_b, 100);
}

#[test]
fn non_unit_ratio_withdrawal() {
    let q = remove_liquidity(1000, 4000, 2000, 100).unwrap();
    assert_eq!(q.amount_a, 50);
    assert_eq!(q.amount_b, 200);
}

#[test]
fn full_withdrawal_returns_all_reserves() {
    let q = remove_liquidity(1000, 4000, 2000, 2000).unwrap();
    assert_eq!(q.amount_a, 1000);
    assert_eq!(q.amount_b, 4000);
}

#[test]
fn fails_with_zero_lp_tokens() {
    assert!(matches!(
        remove_liquidity(1000, 1000, 1000, 0),
        Err(AmmMathError::ZeroAmount)
    ));
}

#[test]
fn fails_when_burning_more_than_supply() {
    assert!(matches!(
        remove_liquidity(1000, 1000, 1000, 1001),
        Err(AmmMathError::InsufficientLiquidity)
    ));
}

// The minted share is rounded down: floor(sqrt(1000 * 4000)) = 2000.
#[test]
fn initial_liquidity_floors_the_square_root() {
    let q = initial_liquidity(1_000, 4_001).unwrap();
    // sqrt(4_001_000) = 2000.25
    assert_eq!(q.lp_tokens, 1_000);
    let q = initial_liquidity(u64::MAX, u64::MAX).unwrap();
    assert_eq!(q.lp_tokens, u64::MAX - MINIMUM_LIQUIDITY);
}

#[test]
fn initial_liquidity_is_symmetric() {
    for (a, b) in [(1_000u64, 4_000u64), (7, 1_000_000), (1_001, 1_001), (3, 5), (123_456, 789)] {
        match (initial_liquidity(a, b), initial_liquidity(b, a)) {
            (Ok(q1), Ok(q2)) => assert_eq!(q1.lp_tokens, q2.lp_tokens),
            (Err(e1), Err(e2)) => assert_eq!(e1, e2),
            _ => panic!("asymmetric Ok/Err"),
        }
    }
}

// A mint larger than u64 is reported as an overflow.
#[test]
fn add_liquidity_overflow() {
    assert!(matches!(
        add_liquidity(1, 1, u64::MAX, 2, 2),
        Err(AmmMathError::Overflow)
    ));
}

// floor(300 * 1000 / 999) = 300, floor(300 * 1000 / 1001) = 299: min is 299,
// and neither side is diluted.
#[test]
fn add_liquidity_does_not_dilute() {
    let q = add_liquidity(999, 1001, 1000, 300, 300).unwrap();
    assert_eq!(q.lp_tokens, 299);
    assert!(q.lp_tokens as u128 * 999 <= 300 * 1000);
    assert!(q.lp_tokens as u128 * 1001 <= 300 * 1000);
}

// floor(7 * 1000 / 3) = 2333, floor(7 * 1001 / 3) = 2335.
#[test]
fn remove_liquidity_does_not_overpay() {
    let q = remove_liquidity(1000, 1001, 3, 7).unwrap_err();
    assert_eq!(q, AmmMathError::InsufficientLiquidity);
    let q = remove_liquidity(1000, 1001, 7, 3).unwrap();
    assert_eq!(q.amount_a, 428);
    assert_eq!(q.amount_b, 429);
    assert!(q.amount_a as u128 * 7 <= 3 * 1000);
    assert!(q.amount_b as u128 * 7 <= 3 * 1001);
}

#[test]
fn add_then_remove_does_not_extract_value() {
    let (ra, rb, s, a, b) = (999u64, 4_001u64, 2_000u64, 333u64, 1_337u64);
    let add = add_liquidity(ra, rb, s, a, b).unwrap();
    let back = remove_liquidity(ra + a, rb + b, s + add.lp_tokens, add.lp_tokens).unwrap();
    assert!(back.amount_a <= a);
    assert!(back.amount_b <= b);
}

// Burning less than the whole supply never empties a reserve.
#[test]
fn partial_withdrawal_never_drains_the_pool() {
    let q = remove_liquidity(1000, 4000, 2000, 1999).unwrap();
    assert_eq!(q.amount_a, 999);
    assert_eq!(q.amount_b, 3998);
}
