//! Initial deposit, adding liquidity and removing liquidity.
use crate::error::AmmMathError;
use crate::math::{
    checked_mul_div_floor, integer_sqrt_floor, is_isqrt, isqrt, lemma_floor_div_bounds, lemma_isqrt,
    lemma_square_monotone, narrow_u64,
};
use crate::types::LiquidityQuote;
use vstd::prelude::*;

verus! {

/// LP tokens minted on the first deposit that are locked in the pool forever.
pub const MINIMUM_LIQUIDITY: u64 = 1_000;

/// The smaller of two integers.
pub open spec fn min_int(x: int, y: int) -> int {
    if x <= y {
        x
    } else {
        y
    }
}

/// The value that [`initial_liquidity`] returns: the first depositor is
/// minted `floor(sqrt(amount_a * amount_b)) - MINIMUM_LIQUIDITY`.
pub open spec fn initial_liquidity_result(amount_a: u64, amount_b: u64) -> Result<
    LiquidityQuote,
    AmmMathError,
> {
    if amount_a == 0 || amount_b == 0 {
        Err(AmmMathError::ZeroAmount)
    } else {
        let minted = isqrt((amount_a * amount_b) as nat);
        if minted <= MINIMUM_LIQUIDITY {
            Err(AmmMathError::InsufficientLiquidity)
        } else {
            Ok(
                LiquidityQuote {
                    lp_tokens: (minted - MINIMUM_LIQUIDITY) as u64,
                    amount_a,
                    amount_b,
                },
            )
        }
    }
}

/// LP tokens a later deposit mints:
/// `min(floor(amount_a * supply / reserve_a), floor(amount_b * supply / reserve_b))`.
pub open spec fn add_liquidity_lp(
    reserve_a: int,
    reserve_b: int,
    total_lp_supply: int,
    amount_a: int,
    amount_b: int,
) -> int {
    min_int(amount_a * total_lp_supply / reserve_a, amount_b * total_lp_supply / reserve_b)
}

/// The value that [`add_liquidity`] returns.
pub open spec fn add_liquidity_result(
    reserve_a: u64,
    reserve_b: u64,
    total_lp_supply: u64,
    amount_a: u64,
    amount_b: u64,
) -> Result<LiquidityQuote, AmmMathError> {
    if amount_a == 0 || amount_b == 0 {
        Err(AmmMathError::ZeroAmount)
    } else if reserve_a == 0 || reserve_b == 0 {
        Err(AmmMathError::ZeroReserve)
    } else {
        let lp = add_liquidity_lp(
            reserve_a as int,
            reserve_b as int,
            total_lp_supply as int,
            amount_a as int,
            amount_b as int,
        );
        if lp > u64::MAX {
            Err(AmmMathError::Overflow)
        } else if lp == 0 {
            Err(AmmMathError::InsufficientLiquidity)
        } else {
            Ok(LiquidityQuote { lp_tokens: lp as u64, amount_a, amount_b })
        }
    }
}

/// The value that [`remove_liquidity`] returns: a burner of `lp_tokens`
/// receives `floor(lp_tokens * reserve / total_lp_supply)` of each reserve.
pub open spec fn remove_liquidity_result(
    reserve_a: u64,
    reserve_b: u64,
    total_lp_supply: u64,
    lp_tokens: u64,
) -> Result<LiquidityQuote, AmmMathError> {
    if lp_tokens == 0 {
        Err(AmmMathError::ZeroAmount)
    } else if reserve_a == 0 || reserve_b == 0 {
        Err(AmmMathError::ZeroReserve)
    } else if total_lp_supply == 0 || lp_tokens > total_lp_supply {
        Err(AmmMathError::InsufficientLiquidity)
    } else {
        let out_a = lp_tokens * reserve_a / (total_lp_supply as int);
        let out_b = lp_tokens * reserve_b / (total_lp_supply as int);
        if out_a == 0 || out_b == 0 {
            Err(AmmMathError::InsufficientLiquidity)
        } else {
            Ok(LiquidityQuote { lp_tokens, amount_a: out_a as u64, amount_b: out_b as u64 })
        }
    }
}

/// The integer square root of a product of two `u64` values fits in a `u64`.
proof fn lemma_isqrt_of_u64_product(a: u64, b: u64)
    ensures
        isqrt((a * b) as nat) <= u64::MAX,
{
    let p = (a * b) as nat;
    assert(a * b >= 0) by (nonlinear_arith);
    lemma_isqrt(p);
    let r = isqrt(p) as int;
    if r > u64::MAX {
        lemma_square_monotone(0x1_0000_0000_0000_0000int, r);
        assert(a * b < 0x1_0000_0000_0000_0000int * 0x1_0000_0000_0000_0000int) by (nonlinear_arith)
            requires
                a <= u64::MAX,
                b <= u64::MAX,
        ;
    }
}

/// Initial deposit into an empty pool: mints `floor(sqrt(amount_a * amount_b))`
/// LP tokens, of which `MINIMUM_LIQUIDITY` stay locked in the pool and the
/// rest go to the depositor.
pub fn initial_liquidity(amount_a: u64, amount_b: u64) -> (r: Result<LiquidityQuote, AmmMathError>)
    ensures
        r == initial_liquidity_result(amount_a, amount_b),
        r matches Ok(q) ==> q.lp_tokens > 0,
        r matches Ok(q) ==> q.lp_tokens + MINIMUM_LIQUIDITY == isqrt((amount_a * amount_b) as nat),
        r matches Ok(q) ==> ({
            let minted = q.lp_tokens + MINIMUM_LIQUIDITY;
            &&& minted * minted <= amount_a * amount_b
            &&& amount_a * amount_b < (minted + 1) * (minted + 1)
        }),
{
    if amount_a == 0 || amount_b == 0 {
        return Err(AmmMathError::ZeroAmount);
    };
    proof {
        assert(amount_a * amount_b <= u128::MAX) by (nonlinear_arith)
            requires
                amount_a <= u64::MAX,
                amount_b <= u64::MAX,
        ;
        lemma_isqrt_of_u64_product(amount_a, amount_b);
    }
    let product = (amount_a as u128).checked_mul(amount_b as u128).ok_or(AmmMathError::Overflow)?;
    let minted = narrow_u64(integer_sqrt_floor(product))?;
    if minted <= MINIMUM_LIQUIDITY {
        return Err(AmmMathError::InsufficientLiquidity);
    }
    let lp_tokens = minted - MINIMUM_LIQUIDITY;
    Ok(LiquidityQuote { lp_tokens, amount_a, amount_b })
}

/// Which of two inputs is which does not matter to the first deposit: the
/// minted LP tokens, or the error, are the same either way.
pub proof fn lemma_initial_liquidity_symmetric(amount_a: u64, amount_b: u64)
    ensures
        match (
            initial_liquidity_result(amount_a, amount_b),
            initial_liquidity_result(amount_b, amount_a),
        ) {
            (Ok(q1), Ok(q2)) => q1.lp_tokens == q2.lp_tokens,
            (Err(e1), Err(e2)) => e1 == e2,
            _ => false,
        },
{
    assert(amount_a * amount_b == amount_b * amount_a) by (nonlinear_arith);
}

/// Facts about `floor(x * y / d)` on `u64` inputs.
proof fn lemma_share(x: int, y: int, d: int)
    requires
        0 <= x <= u64::MAX,
        0 <= y <= u64::MAX,
        d >= 1,
    ensures
        x * y <= u128::MAX,
        0 <= x * y / d,
        (x * y / d) * d <= x * y,
        x * y < (x * y / d + 1) * d,
{
    assert(0 <= x * y <= u128::MAX) by (nonlinear_arith)
        requires
            0 <= x <= u64::MAX,
            0 <= y <= u64::MAX,
    ;
    lemma_floor_div_bounds(x * y, d);
}

/// A mint no larger than `floor(amount * supply / reserve)` does not dilute
/// the existing providers: `lp * reserve <= amount * supply`.
proof fn lemma_no_dilution(lp: int, amount: int, supply: int, reserve: int)
    requires
        0 <= lp <= amount * supply / reserve,
        amount >= 0,
        supply >= 0,
        reserve >= 1,
    ensures
        lp * reserve <= amount * supply,
{
    assert(amount * supply >= 0) by (nonlinear_arith)
        requires
            amount >= 0,
            supply >= 0,
    ;
    lemma_floor_div_bounds(amount * supply, reserve);
    let q = amount * supply / reserve;
    assert(lp * reserve <= q * reserve) by (nonlinear_arith)
        requires
            0 <= lp <= q,
            reserve >= 1,
    ;
}

/// Deposit into a pool that already has liquidity. The depositor is minted
/// the smaller of the two pro-rata shares, rounded down, so no existing
/// provider is diluted.
pub fn add_liquidity(
    reserve_a: u64,
    reserve_b: u64,
    total_lp_supply: u64,
    amount_a: u64,
    amount_b: u64,
) -> (r: Result<LiquidityQuote, AmmMathError>)
    ensures
        r == add_liquidity_result(reserve_a, reserve_b, total_lp_supply, amount_a, amount_b),
        r matches Ok(q) ==> q.lp_tokens > 0,
        r matches Ok(q) ==> q.lp_tokens * reserve_a <= amount_a * total_lp_supply,
        r matches Ok(q) ==> q.lp_tokens * reserve_b <= amount_b * total_lp_supply,
{
    if amount_a == 0 || amount_b == 0 {
        return Err(AmmMathError::ZeroAmount);
    }
    if reserve_a == 0 || reserve_b == 0 {
        return Err(AmmMathError::ZeroReserve);
    }
    proof {
        lemma_share(amount_a as int, total_lp_supply as int, reserve_a as int);
        lemma_share(amount_b as int, total_lp_supply as int, reserve_b as int);
    }
    let lp_from_a = checked_mul_div_floor(
        amount_a as u128,
        total_lp_supply as u128,
        reserve_a as u128,
    )?;
    let lp_from_b = checked_mul_div_floor(
        amount_b as u128,
        total_lp_supply as u128,
        reserve_b as u128,
    )?;

    let lp_tokens = narrow_u64(lp_from_a.min(lp_from_b))?;
    if lp_tokens == 0 {
        return Err(AmmMathError::InsufficientLiquidity);
    }
    proof {
        lemma_no_dilution(lp_tokens as int, amount_a as int, total_lp_supply as int, reserve_a as int);
        lemma_no_dilution(lp_tokens as int, amount_b as int, total_lp_supply as int, reserve_b as int);
    }
    Ok(LiquidityQuote { lp_tokens, amount_a, amount_b })
}

/// Burn LP tokens for a pro-rata share of both reserves, each rounded down so
/// the exiting provider is never overpaid.
pub fn remove_liquidity(reserve_a: u64, reserve_b: u64, total_lp_supply: u64, lp_tokens: u64) -> (r:
    Result<LiquidityQuote, AmmMathError>)
    ensures
        r == remove_liquidity_result(reserve_a, reserve_b, total_lp_supply, lp_tokens),
        r matches Ok(q) ==> q.lp_tokens > 0 && q.amount_a > 0 && q.amount_b > 0,
        r matches Ok(q) ==> q.amount_a <= reserve_a && q.amount_b <= reserve_b,
        r matches Ok(q) ==> q.amount_a * total_lp_supply <= lp_tokens * reserve_a,
        r matches Ok(q) ==> q.amount_b * total_lp_supply <= lp_tokens * reserve_b,
        r matches Ok(q) ==> (lp_tokens == total_lp_supply ==> q.amount_a == reserve_a
            && q.amount_b == reserve_b),
        r matches Ok(q) ==> (lp_tokens < total_lp_supply ==> q.amount_a < reserve_a
            && q.amount_b < reserve_b),
{
    if lp_tokens == 0 {
        return Err(AmmMathError::ZeroAmount);
    }
    if reserve_a == 0 || reserve_b == 0 {
        return Err(AmmMathError::ZeroReserve);
    }
    if total_lp_supply == 0 || lp_tokens > total_lp_supply {
        return Err(AmmMathError::InsufficientLiquidity);
    }
    proof {
        lemma_withdrawal_share(lp_tokens as int, reserve_a as int, total_lp_supply as int);
        lemma_withdrawal_share(lp_tokens as int, reserve_b as int, total_lp_supply as int);
    }
    let amount_a = narrow_u64(
        checked_mul_div_floor(lp_tokens as u128, reserve_a as u128, total_lp_supply as u128)?,
    )?;
    let amount_b = narrow_u64(
        checked_mul_div_floor(lp_tokens as u128, reserve_b as u128, total_lp_supply as u128)?,
    )?;

    if amount_a == 0 || amount_b == 0 {
        return Err(AmmMathError::InsufficientLiquidity);
    }
    Ok(LiquidityQuote { lp_tokens, amount_a, amount_b })
}

/// A withdrawal share `floor(lp * reserve / supply)` with `lp <= supply` never
/// exceeds the reserve, equals it on a full burn and stays below it otherwise.
proof fn lemma_withdrawal_share(lp: int, reserve: int, supply: int)
    requires
        1 <= lp <= supply <= u64::MAX,
        0 <= reserve <= u64::MAX,
    ensures
        lp * reserve <= u128::MAX,
        0 <= lp * reserve / supply <= reserve,
        (lp * reserve / supply) * supply <= lp * reserve,
        lp == supply ==> lp * reserve / supply == reserve,
        lp < supply && reserve > 0 ==> lp * reserve / supply < reserve,
{
    lemma_share(lp, reserve, supply);
    let q = lp * reserve / supply;
    assert(q <= reserve) by (nonlinear_arith)
        requires
            q * supply <= lp * reserve,
            lp <= supply,
            reserve >= 0,
            supply >= 1,
    ;
    if lp == supply {
        assert(q == reserve) by (nonlinear_arith)
            requires
                q * supply <= lp * reserve,
                lp * reserve < (q + 1) * supply,
                lp == supply,
                supply >= 1,
        ;
    }
    if lp < supply && reserve > 0 {
        assert(lp * reserve < supply * reserve) by (nonlinear_arith)
            requires
                lp < supply,
                reserve > 0,
        ;
        assert(q < reserve) by (nonlinear_arith)
            requires
                q * supply < supply * reserve,
                supply >= 1,
        ;
    }
}

/// Adding liquidity and then burning exactly the LP tokens it minted never
/// returns more of either token than was deposited: the rounding remainders
/// stay in the pool.
pub proof fn lemma_add_then_remove_no_profit(
    reserve_a: u64,
    reserve_b: u64,
    total_lp_supply: u64,
    amount_a: u64,
    amount_b: u64,
)
    requires
        add_liquidity_result(reserve_a, reserve_b, total_lp_supply, amount_a, amount_b) is Ok,
        reserve_a + amount_a <= u64::MAX,
        reserve_b + amount_b <= u64::MAX,
        total_lp_supply + add_liquidity_result(
            reserve_a,
            reserve_b,
            total_lp_supply,
            amount_a,
            amount_b,
        )->Ok_0.lp_tokens <= u64::MAX,
    ensures
        ({
            let lp = add_liquidity_result(
                reserve_a,
                reserve_b,
                total_lp_supply,
                amount_a,
                amount_b,
            )->Ok_0.lp_tokens;
            remove_liquidity_result(
                (reserve_a + amount_a) as u64,
                (reserve_b + amount_b) as u64,
                (total_lp_supply + lp) as u64,
                lp,
            ) matches Ok(q) ==> q.amount_a <= amount_a && q.amount_b <= amount_b
        }),
{
    let lp = add_liquidity_result(
        reserve_a,
        reserve_b,
        total_lp_supply,
        amount_a,
        amount_b,
    )->Ok_0.lp_tokens as int;
    let s = total_lp_supply as int;
    lemma_share(amount_a as int, s, reserve_a as int);
    lemma_share(amount_b as int, s, reserve_b as int);
    lemma_no_dilution(lp, amount_a as int, s, reserve_a as int);
    lemma_no_dilution(lp, amount_b as int, s, reserve_b as int);
    lemma_no_profit_one_side(lp, reserve_a as int, amount_a as int, s);
    lemma_no_profit_one_side(lp, reserve_b as int, amount_b as int, s);
}

proof fn lemma_no_profit_one_side(lp: int, reserve: int, amount: int, supply: int)
    requires
        lp >= 1,
        reserve >= 1,
        amount >= 0,
        supply >= 0,
        lp * reserve <= amount * supply,
    ensures
        lp * (reserve + amount) / (supply + lp) <= amount,
{
    let n = lp * (reserve + amount);
    let d = supply + lp;
    assert(n >= 0) by (nonlinear_arith)
        requires
            lp >= 1,
            reserve >= 1,
            amount >= 0,
            n == lp * (reserve + amount),
    ;
    lemma_floor_div_bounds(n, d);
    let q = n / d;
    assert(q <= amount) by (nonlinear_arith)
        requires
            q * d <= n,
            n == lp * (reserve + amount),
            d == supply + lp,
            d >= 1,
            lp * reserve <= amount * supply,
    ;
}

/// First-deposit law. With both amounts nonzero, the depositor is minted
/// `r - MINIMUM_LIQUIDITY` where `r` is the integer square root of
/// `amount_a * amount_b` (taken in `u128`, never overflowing), and the deposit
/// is refused with `InsufficientLiquidity` exactly when that root is at most
/// `MINIMUM_LIQUIDITY`, that is when the product is below `1001 * 1001`.
pub proof fn lemma_initial_liquidity_quote(amount_a: u64, amount_b: u64)
    requires
        amount_a > 0,
        amount_b > 0,
    ensures
        ({
            let r = initial_liquidity_result(amount_a, amount_b);
            &&& amount_a * amount_b < 1001 * 1001 ==> r == Err::<LiquidityQuote, AmmMathError>(
                AmmMathError::InsufficientLiquidity,
            )
            &&& amount_a * amount_b >= 1001 * 1001 ==> (r matches Ok(q) && q.amount_a == amount_a
                && q.amount_b == amount_b && (q.lp_tokens + 1000) * (q.lp_tokens + 1000) <= amount_a
                * amount_b && amount_a * amount_b < (q.lp_tokens + 1001) * (q.lp_tokens + 1001))
        }),
{
    let p = (amount_a * amount_b) as nat;
    assert(amount_a * amount_b >= 1) by (nonlinear_arith)
        requires
            amount_a > 0,
            amount_b > 0,
    ;
    lemma_isqrt(p);
    lemma_isqrt_of_u64_product(amount_a, amount_b);
    let m = isqrt(p) as int;
    if amount_a * amount_b < 1001 * 1001 {
        if m > 1000 {
            lemma_square_monotone(1001, m);
        }
    } else {
        if m <= 1000 {
            lemma_square_monotone(m + 1, 1001);
        }
    }
}

/// Deposit law. With nonzero amounts and reserves, the depositor is minted
/// `m = min(floor(amount_a * supply / reserve_a), floor(amount_b * supply /
/// reserve_b))`, computed in `u128`: `Ok` whenever `0 < m <= u64::MAX`,
/// `InsufficientLiquidity` when `m` is zero, and `Overflow` only when `m`
/// exceeds `u64::MAX`. The minted amount is the largest that dilutes neither
/// side.
pub proof fn lemma_add_liquidity_quote(
    reserve_a: u64,
    reserve_b: u64,
    total_lp_supply: u64,
    amount_a: u64,
    amount_b: u64,
)
    requires
        amount_a > 0,
        amount_b > 0,
        reserve_a > 0,
        reserve_b > 0,
    ensures
        ({
            let la = amount_a * total_lp_supply / (reserve_a as int);
            let lb = amount_b * total_lp_supply / (reserve_b as int);
            let m = if la <= lb {
                la
            } else {
                lb
            };
            let r = add_liquidity_result(reserve_a, reserve_b, total_lp_supply, amount_a, amount_b);
            &&& 0 < m <= u64::MAX ==> (r matches Ok(q) && q.lp_tokens == m && q.amount_a == amount_a
                && q.amount_b == amount_b)
            &&& m == 0 ==> r == Err::<LiquidityQuote, AmmMathError>(
                AmmMathError::InsufficientLiquidity,
            )
            &&& m > u64::MAX ==> r == Err::<LiquidityQuote, AmmMathError>(AmmMathError::Overflow)
            &&& r == Err::<LiquidityQuote, AmmMathError>(AmmMathError::Overflow) ==> m > u64::MAX
            &&& r matches Ok(q) ==> q.lp_tokens * reserve_a <= amount_a * total_lp_supply
                && q.lp_tokens * reserve_b <= amount_b * total_lp_supply && ((q.lp_tokens + 1)
                * reserve_a > amount_a * total_lp_supply || (q.lp_tokens + 1) * reserve_b > amount_b
                * total_lp_supply)
        }),
{
    lemma_share(amount_a as int, total_lp_supply as int, reserve_a as int);
    lemma_share(amount_b as int, total_lp_supply as int, reserve_b as int);
    let la = amount_a * total_lp_supply / (reserve_a as int);
    let lb = amount_b * total_lp_supply / (reserve_b as int);
    let m = if la <= lb {
        la
    } else {
        lb
    };
    assert(m == add_liquidity_lp(
        reserve_a as int,
        reserve_b as int,
        total_lp_supply as int,
        amount_a as int,
        amount_b as int,
    ));
    if 0 < m <= u64::MAX {
        lemma_no_dilution(m, amount_a as int, total_lp_supply as int, reserve_a as int);
        lemma_no_dilution(m, amount_b as int, total_lp_supply as int, reserve_b as int);
    }
}

/// Withdrawal law. With `0 < lp_tokens <= total_lp_supply` and nonzero
/// reserves, a withdrawal never overflows: it pays
/// `floor(lp_tokens * reserve / total_lp_supply)` of each reserve, computed in
/// `u128`, and is refused with `InsufficientLiquidity` only when one of those
/// shares is zero.
pub proof fn lemma_remove_liquidity_quote(
    reserve_a: u64,
    reserve_b: u64,
    total_lp_supply: u64,
    lp_tokens: u64,
)
    requires
        0 < lp_tokens <= total_lp_supply,
        reserve_a > 0,
        reserve_b > 0,
    ensures
        ({
            let xa = lp_tokens * reserve_a / (total_lp_supply as int);
            let xb = lp_tokens * reserve_b / (total_lp_supply as int);
            let r = remove_liquidity_result(reserve_a, reserve_b, total_lp_supply, lp_tokens);
            &&& r != Err::<LiquidityQuote, AmmMathError>(AmmMathError::Overflow)
            &&& xa > 0 && xb > 0 ==> (r matches Ok(q) && q.lp_tokens == lp_tokens && q.amount_a
                == xa && q.amount_b == xb)
            &&& (xa == 0 || xb == 0) ==> r == Err::<LiquidityQuote, AmmMathError>(
                AmmMathError::InsufficientLiquidity,
            )
            &&& r matches Ok(q) ==> q.amount_a * total_lp_supply <= lp_tokens * reserve_a < (
            q.amount_a + 1) * total_lp_supply && q.amount_b * total_lp_supply <= lp_tokens
                * reserve_b < (q.amount_b + 1) * total_lp_supply
        }),
{
    lemma_withdrawal_share(lp_tokens as int, reserve_a as int, total_lp_supply as int);
    lemma_withdrawal_share(lp_tokens as int, reserve_b as int, total_lp_supply as int);
    lemma_share(lp_tokens as int, reserve_a as int, total_lp_supply as int);
    lemma_share(lp_tokens as int, reserve_b as int, total_lp_supply as int);
}

} // verus!
