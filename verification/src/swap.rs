//! Fee deduction and the two constant-product swap formulas.
use crate::error::AmmMathError;
use crate::math::{
    ceil_div, checked_mul_div_ceil, checked_mul_div_floor, lemma_ceil_div_bounds,
    lemma_floor_div_bounds, narrow_u64,
};
use crate::types::{ExactOutputQuote, SwapQuote};
use vstd::prelude::*;

verus! {

/// Basis-point denominator of the swap fee.
pub const FEE_DENOMINATOR: u64 = 10_000;

/// `floor(amount_in * (FEE_DENOMINATOR - fee_bps) / FEE_DENOMINATOR)`: what is
/// left of an input once the fee is taken.
pub open spec fn after_fee(amount_in: int, fee_bps: int) -> int {
    amount_in * (FEE_DENOMINATOR - fee_bps) / (FEE_DENOMINATOR as int)
}

/// The value that [`amount_after_fee`] returns.
pub open spec fn amount_after_fee_result(amount_in: u64, fee_bps: u16) -> Result<u64, AmmMathError> {
    if fee_bps >= FEE_DENOMINATOR {
        Err(AmmMathError::InvalidFee)
    } else {
        Ok(after_fee(amount_in as int, fee_bps as int) as u64)
    }
}

/// Output of an exact-input swap: `floor(after * reserve_out / (reserve_in + after))`.
pub open spec fn exact_input_out(reserve_in: int, reserve_out: int, after: int) -> int {
    after * reserve_out / (reserve_in + after)
}

/// The value that [`swap_exact_input`] returns.
pub open spec fn swap_exact_input_result(
    reserve_in: u64,
    reserve_out: u64,
    amount_in: u64,
    fee_bps: u16,
) -> Result<SwapQuote, AmmMathError> {
    if amount_in == 0 {
        Err(AmmMathError::ZeroAmount)
    } else if reserve_in == 0 || reserve_out == 0 {
        Err(AmmMathError::ZeroReserve)
    } else if fee_bps >= FEE_DENOMINATOR {
        Err(AmmMathError::InvalidFee)
    } else {
        let after = after_fee(amount_in as int, fee_bps as int);
        let out = exact_input_out(reserve_in as int, reserve_out as int, after);
        if out == 0 {
            Err(AmmMathError::InsufficientOutput)
        } else if reserve_in + amount_in > u64::MAX {
            Err(AmmMathError::Overflow)
        } else {
            Ok(
                SwapQuote {
                    amount_in,
                    amount_in_after_fee: after as u64,
                    fee_amount: (amount_in - after) as u64,
                    amount_out: out as u64,
                    new_reserve_in: (reserve_in + amount_in) as u64,
                    new_reserve_out: (reserve_out - out) as u64,
                },
            )
        }
    }
}

/// Net input an exact-output swap needs: `ceil(amount_out * reserve_in / (reserve_out - amount_out))`.
pub open spec fn exact_output_after_fee(reserve_in: int, reserve_out: int, amount_out: int) -> int {
    ceil_div(amount_out * reserve_in, reserve_out - amount_out)
}

/// Gross input once the fee is added back: `ceil(after * FEE_DENOMINATOR / (FEE_DENOMINATOR - fee_bps))`.
pub open spec fn gross_up(after: int, fee_bps: int) -> int {
    ceil_div(after * FEE_DENOMINATOR, FEE_DENOMINATOR - fee_bps)
}

/// The value that [`swap_exact_output`] returns.
pub open spec fn swap_exact_output_result(
    reserve_in: u64,
    reserve_out: u64,
    amount_out: u64,
    fee_bps: u16,
) -> Result<ExactOutputQuote, AmmMathError> {
    if amount_out == 0 {
        Err(AmmMathError::ZeroAmount)
    } else if reserve_in == 0 || reserve_out == 0 {
        Err(AmmMathError::ZeroReserve)
    } else if fee_bps >= FEE_DENOMINATOR {
        Err(AmmMathError::InvalidFee)
    } else if amount_out >= reserve_out {
        Err(AmmMathError::InsufficientLiquidity)
    } else {
        let after = exact_output_after_fee(reserve_in as int, reserve_out as int, amount_out as int);
        let amount_in = gross_up(after, fee_bps as int);
        if reserve_in + amount_in > u64::MAX {
            Err(AmmMathError::Overflow)
        } else {
            Ok(
                ExactOutputQuote {
                    amount_out,
                    amount_in_after_fee: after as u64,
                    amount_in: amount_in as u64,
                    fee_amount: (amount_in - after) as u64,
                    new_reserve_in: (reserve_in + amount_in) as u64,
                    new_reserve_out: (reserve_out - amount_out) as u64,
                },
            )
        }
    }
}

/// The fee taken from `x` is `ceil(x * fee_bps / FEE_DENOMINATOR)`, so the
/// rounding remainder of the fee stays with the pool.
pub proof fn lemma_fee_complement(x: int, fee_bps: int)
    requires
        x >= 0,
        0 <= fee_bps < FEE_DENOMINATOR,
    ensures
        0 <= after_fee(x, fee_bps) <= x,
        x - after_fee(x, fee_bps) == ceil_div(x * fee_bps, FEE_DENOMINATOR as int),
        fee_bps == 0 ==> after_fee(x, fee_bps) == x,
{
    let d = FEE_DENOMINATOR as int;
    let a = after_fee(x, fee_bps);
    let c = ceil_div(x * fee_bps, d);
    assert(x * fee_bps >= 0) by (nonlinear_arith)
        requires
            x >= 0,
            fee_bps >= 0,
    ;
    assert(x * (d - fee_bps) >= 0) by (nonlinear_arith)
        requires
            x >= 0,
            fee_bps < d,
    ;
    lemma_ceil_div_bounds(x * fee_bps, d);
    lemma_floor_div_bounds(x * (d - fee_bps), d);
    assert(a == x - c) by (nonlinear_arith)
        requires
            d == 10_000,
            a * d <= x * (d - fee_bps),
            x * (d - fee_bps) < (a + 1) * d,
            c * d >= x * fee_bps,
            (c - 1) * d < x * fee_bps,
    ;
    assert(0 <= a <= x) by (nonlinear_arith)
        requires
            d == 10_000,
            x >= 0,
            0 <= fee_bps < d,
            a * d <= x * (d - fee_bps),
            x * (d - fee_bps) < (a + 1) * d,
    ;
    if fee_bps == 0 {
        assert(c == 0) by (nonlinear_arith)
            requires
                d == 10_000,
                c * d >= 0,
                (c - 1) * d < 0,
        ;
    }
}

/// `floor(amount_in * (FEE_DENOMINATOR - fee_bps) / FEE_DENOMINATOR)`: the
/// input that remains once the fee is deducted, rounded down so that the pool
/// keeps the remainder.
pub fn amount_after_fee(amount_in: u64, fee_bps: u16) -> (r: Result<u64, AmmMathError>)
    ensures
        r == amount_after_fee_result(amount_in, fee_bps),
        r matches Ok(v) ==> v <= amount_in,
        r matches Ok(v) ==> amount_in - v == ceil_div(
            amount_in * fee_bps,
            FEE_DENOMINATOR as int,
        ),
        fee_bps == 0 ==> r == Ok::<u64, AmmMathError>(amount_in),
{
    if (fee_bps as u64) >= FEE_DENOMINATOR {
        return Err(AmmMathError::InvalidFee);
    }
    proof {
        lemma_fee_complement(amount_in as int, fee_bps as int);
        assert(amount_in * ((FEE_DENOMINATOR as u128) - (fee_bps as u128)) <= u128::MAX) by (nonlinear_arith)
            requires
                amount_in <= u64::MAX,
                fee_bps < FEE_DENOMINATOR,
        ;
    }
    // floor(amount_in * (FEE_DENOMINATOR - fee_bps) / FEE_DENOMINATOR), with u128 intermediates
    let multiplier = (FEE_DENOMINATOR as u128) - (fee_bps as u128);
    let widened = checked_mul_div_floor(amount_in as u128, multiplier, FEE_DENOMINATOR as u128)?;
    let narrow: u64 = narrow_u64(widened)?;
    Ok(narrow)
}

/// Facts about the exact-input output that keep every step in range and
/// the pool whole.
proof fn lemma_exact_input_out(reserve_in: int, reserve_out: int, after: int)
    requires
        reserve_in >= 1,
        reserve_out >= 1,
        after >= 0,
    ensures
        0 <= exact_input_out(reserve_in, reserve_out, after) < reserve_out,
        exact_input_out(reserve_in, reserve_out, after) * (reserve_in + after) <= after * reserve_out,
        (reserve_in + after) * (reserve_out - exact_input_out(reserve_in, reserve_out, after))
            >= reserve_in * reserve_out,
{
    let out = exact_input_out(reserve_in, reserve_out, after);
    let n = after * reserve_out;
    let d = reserve_in + after;
    assert(n >= 0) by (nonlinear_arith)
        requires
            after >= 0,
            reserve_out >= 1,
            n == after * reserve_out,
    ;
    lemma_floor_div_bounds(n, d);
    assert(out == n / d);
    assert(out * d <= n);
    assert(0 <= out < reserve_out) by (nonlinear_arith)
        requires
            reserve_in >= 1,
            reserve_out >= 1,
            after >= 0,
            d == reserve_in + after,
            n == after * reserve_out,
            out * d <= n,
            out >= 0,
    ;
    assert(d * (reserve_out - out) >= reserve_in * reserve_out) by (nonlinear_arith)
        requires
            d == reserve_in + after,
            n == after * reserve_out,
            out * d <= n,
    ;
}

/// Exact-input swap: the caller fixes `amount_in`, the pool pays
/// `floor(after * reserve_out / (reserve_in + after))` where `after` is the
/// input net of the fee. The full `amount_in` enters the reserve, so the fee
/// accrues to liquidity providers.
pub fn swap_exact_input(reserve_in: u64, reserve_out: u64, amount_in: u64, fee_bps: u16) -> (r:
    Result<SwapQuote, AmmMathError>)
    ensures
        r == swap_exact_input_result(reserve_in, reserve_out, amount_in, fee_bps),
        r matches Ok(q) ==> q.amount_in > 0 && 0 < q.amount_out < reserve_out,
        r matches Ok(q) ==> q.fee_amount == q.amount_in - q.amount_in_after_fee,
        r matches Ok(q) ==> q.new_reserve_in == reserve_in + q.amount_in && q.new_reserve_out
            == reserve_out - q.amount_out,
        r matches Ok(q) ==> q.amount_out * (reserve_in + q.amount_in_after_fee)
            <= q.amount_in_after_fee * reserve_out,
        r matches Ok(q) ==> (reserve_in + q.amount_in_after_fee) * q.new_reserve_out >= reserve_in
            * reserve_out,
        r matches Ok(q) ==> q.new_reserve_in * q.new_reserve_out >= reserve_in * reserve_out,
        r matches Ok(q) ==> (q.fee_amount > 0 ==> q.new_reserve_in * q.new_reserve_out > reserve_in
            * reserve_out),
{
    if amount_in == 0 {
        return Err(AmmMathError::ZeroAmount);
    }
    if reserve_in == 0 || reserve_out == 0 {
        return Err(AmmMathError::ZeroReserve);
    }
    let amount_in_after_fee = amount_after_fee(amount_in, fee_bps)?;
    let fee_amount = amount_in.checked_sub(amount_in_after_fee).ok_or(AmmMathError::Underflow)?;
    proof {
        lemma_fee_complement(amount_in as int, fee_bps as int);
        lemma_exact_input_out(reserve_in as int, reserve_out as int, amount_in_after_fee as int);
        assert(amount_in_after_fee * reserve_out <= u128::MAX) by (nonlinear_arith)
            requires
                amount_in_after_fee <= u64::MAX,
                reserve_out <= u64::MAX,
        ;
    }
    // floor: the trader receives at most what the invariant allows
    let amount_out = narrow_u64(
        checked_mul_div_floor(
            amount_in_after_fee as u128,
            reserve_out as u128,
            reserve_in as u128 + amount_in_after_fee as u128,
        )?,
    )?;
    if amount_out == 0 {
        return Err(AmmMathError::InsufficientOutput);
    }
    let new_reserve_in = reserve_in.checked_add(amount_in).ok_or(AmmMathError::Overflow)?;
    let new_reserve_out = reserve_out.checked_sub(amount_out).ok_or(AmmMathError::Underflow)?;
    proof {
        assert(new_reserve_in * new_reserve_out >= (reserve_in + amount_in_after_fee) * new_reserve_out) by (nonlinear_arith)
            requires
                new_reserve_in == reserve_in + amount_in,
                amount_in_after_fee <= amount_in,
                new_reserve_out >= 0,
        ;
        if fee_amount > 0 {
            assert(new_reserve_in * new_reserve_out > (reserve_in + amount_in_after_fee) * new_reserve_out) by (nonlinear_arith)
                requires
                    new_reserve_in == reserve_in + amount_in_after_fee + fee_amount,
                    fee_amount > 0,
                    new_reserve_out > 0,
            ;
        }
    }
    Ok(
        SwapQuote {
            amount_in,
            amount_in_after_fee,
            fee_amount,
            amount_out,
            new_reserve_in,
            new_reserve_out,
        },
    )
}

/// Facts about the exact-output amounts: every step stays in range, the
/// gross input covers the net input, and the pre-fee product does not shrink.
proof fn lemma_exact_output_amounts(reserve_in: int, reserve_out: int, amount_out: int, fee_bps: int)
    requires
        1 <= reserve_in <= u64::MAX,
        1 <= amount_out < reserve_out <= u64::MAX,
        0 <= fee_bps < FEE_DENOMINATOR,
    ensures
        amount_out * reserve_in + (reserve_out - amount_out) - 1 <= u128::MAX,
        exact_output_after_fee(reserve_in, reserve_out, amount_out) >= 1,
        exact_output_after_fee(reserve_in, reserve_out, amount_out) * (reserve_out - amount_out)
            >= amount_out * reserve_in,
        (reserve_in + exact_output_after_fee(reserve_in, reserve_out, amount_out)) * (reserve_out
            - amount_out) >= reserve_in * reserve_out,
        gross_up(exact_output_after_fee(reserve_in, reserve_out, amount_out), fee_bps)
            >= exact_output_after_fee(reserve_in, reserve_out, amount_out),
        gross_up(exact_output_after_fee(reserve_in, reserve_out, amount_out), fee_bps) * (
        FEE_DENOMINATOR - fee_bps) >= exact_output_after_fee(reserve_in, reserve_out, amount_out)
            * FEE_DENOMINATOR,
{
    let d = reserve_out - amount_out;
    let p = amount_out * reserve_in;
    let after = exact_output_after_fee(reserve_in, reserve_out, amount_out);
    let dd = FEE_DENOMINATOR as int;
    assert(p >= 1 && p + d - 1 <= u128::MAX) by (nonlinear_arith)
        requires
            1 <= reserve_in <= u64::MAX,
            1 <= amount_out < reserve_out <= u64::MAX,
            d == reserve_out - amount_out,
            p == amount_out * reserve_in,
    ;
    lemma_ceil_div_bounds(p, d);
    assert(after >= 1) by (nonlinear_arith)
        requires
            after * d >= p,
            p >= 1,
            d >= 1,
            after >= 0,
    ;
    assert((reserve_in + after) * d >= reserve_in * reserve_out) by (nonlinear_arith)
        requires
            d == reserve_out - amount_out,
            p == amount_out * reserve_in,
            after * d >= p,
    ;
    let g = gross_up(after, fee_bps);
    assert(after * dd >= 0) by (nonlinear_arith)
        requires
            after >= 1,
            dd == 10_000,
    ;
    lemma_ceil_div_bounds(after * dd, dd - fee_bps);
    assert(g >= after) by (nonlinear_arith)
        requires
            dd == 10_000,
            0 <= fee_bps < dd,
            after >= 1,
            g * (dd - fee_bps) >= after * dd,
    ;
}

/// Exact-output swap: the caller fixes `amount_out`, the pool charges the
/// least input that keeps the invariant, rounded up twice (once for the
/// invariant, once for the fee gross-up) so the trader cannot underpay.
pub fn swap_exact_output(reserve_in: u64, reserve_out: u64, amount_out: u64, fee_bps: u16) -> (r:
    Result<ExactOutputQuote, AmmMathError>)
    ensures
        r == swap_exact_output_result(reserve_in, reserve_out, amount_out, fee_bps),
        r matches Ok(q) ==> q.amount_in > 0 && 0 < q.amount_out < reserve_out,
        r matches Ok(q) ==> q.fee_amount == q.amount_in - q.amount_in_after_fee,
        r matches Ok(q) ==> q.new_reserve_in == reserve_in + q.amount_in && q.new_reserve_out
            == reserve_out - q.amount_out,
        r matches Ok(q) ==> q.amount_in * (FEE_DENOMINATOR - fee_bps) >= q.amount_in_after_fee
            * FEE_DENOMINATOR,
        r matches Ok(q) ==> (reserve_in + q.amount_in_after_fee) * q.new_reserve_out >= reserve_in
            * reserve_out,
        r matches Ok(q) ==> q.new_reserve_in * q.new_reserve_out >= reserve_in * reserve_out,
        r matches Ok(q) ==> (q.fee_amount > 0 ==> q.new_reserve_in * q.new_reserve_out > reserve_in
            * reserve_out),
{
    if amount_out == 0 {
        return Err(AmmMathError::ZeroAmount);
    }
    if reserve_in == 0 || reserve_out == 0 {
        return Err(AmmMathError::ZeroReserve);
    }
    if (fee_bps as u64) >= FEE_DENOMINATOR {
        return Err(AmmMathError::InvalidFee);
    }
    if amount_out >= reserve_out {
        return Err(AmmMathError::InsufficientLiquidity);
    }
    proof {
        lemma_exact_output_amounts(
            reserve_in as int,
            reserve_out as int,
            amount_out as int,
            fee_bps as int,
        );
        assert(amount_out * reserve_in <= u128::MAX) by (nonlinear_arith)
            requires
                amount_out <= u64::MAX,
                reserve_in <= u64::MAX,
        ;
    }
    // ceil: the net input covers the invariant
    let amount_in_after_fee = narrow_u64(
        checked_mul_div_ceil(
            amount_out as u128,
            reserve_in as u128,
            (reserve_out - amount_out) as u128,
        )?,
    )?;
    proof {
        assert(amount_in_after_fee * 10_000 + 10_000 <= u128::MAX) by (nonlinear_arith)
            requires
                amount_in_after_fee <= u64::MAX,
        ;
    }
    // ceil: grossing up for the fee never undercharges
    let amount_in = narrow_u64(
        checked_mul_div_ceil(
            amount_in_after_fee as u128,
            FEE_DENOMINATOR as u128,
            (FEE_DENOMINATOR - fee_bps as u64) as u128,
        )?,
    )?;
    let fee_amount = amount_in.checked_sub(amount_in_after_fee).ok_or(AmmMathError::Underflow)?;
    let new_reserve_in = reserve_in.checked_add(amount_in).ok_or(AmmMathError::Overflow)?;
    let new_reserve_out = reserve_out.checked_sub(amount_out).ok_or(AmmMathError::Underflow)?;
    proof {
        assert(new_reserve_in * new_reserve_out >= (reserve_in + amount_in_after_fee) * new_reserve_out) by (nonlinear_arith)
            requires
                new_reserve_in == reserve_in + amount_in,
                amount_in_after_fee <= amount_in,
                new_reserve_out >= 0,
        ;
        if fee_amount > 0 {
            assert(new_reserve_in * new_reserve_out > (reserve_in + amount_in_after_fee) * new_reserve_out) by (nonlinear_arith)
                requires
                    new_reserve_in == reserve_in + amount_in_after_fee + fee_amount,
                    fee_amount > 0,
                    new_reserve_out > 0,
            ;
        }
    }
    Ok(
        ExactOutputQuote {
            amount_out,
            amount_in_after_fee,
            amount_in,
            fee_amount,
            new_reserve_in,
            new_reserve_out,
        },
    )
}

/// Exact-input swap law. With a nonzero input, nonzero reserves and a fee
/// below the denominator, the quote keeps the whole input, takes the fee as
/// `after = floor(amount_in * (10_000 - fee_bps) / 10_000)` and pays
/// `floor(after * reserve_out / (reserve_in + after))`. It fails with
/// `InsufficientOutput` only when that payment is zero and with `Overflow`
/// only when `reserve_in + amount_in` exceeds `u64::MAX`: the products are
/// taken in `u128`, so their size is never a reason to fail.
pub proof fn lemma_swap_exact_input_quote(reserve_in: u64, reserve_out: u64, amount_in: u64, fee_bps: u16)
    requires
        amount_in > 0,
        reserve_in > 0,
        reserve_out > 0,
        fee_bps < 10_000,
    ensures
        ({
            let after = amount_in * (10_000 - fee_bps) / 10_000int;
            let out = after * reserve_out / (reserve_in + after);
            let r = swap_exact_input_result(reserve_in, reserve_out, amount_in, fee_bps);
            &&& out == 0 ==> r == Err::<SwapQuote, AmmMathError>(AmmMathError::InsufficientOutput)
            &&& out > 0 && reserve_in + amount_in > u64::MAX ==> r == Err::<SwapQuote, AmmMathError>(
                AmmMathError::Overflow,
            )
            &&& out > 0 && reserve_in + amount_in <= u64::MAX ==> (r matches Ok(q) && q.amount_in
                == amount_in && q.amount_in_after_fee == after && q.fee_amount == amount_in - after
                && q.amount_out == out && q.new_reserve_in == reserve_in + amount_in
                && q.new_reserve_out == reserve_out - out)
            &&& r == Err::<SwapQuote, AmmMathError>(AmmMathError::Overflow) ==> reserve_in
                + amount_in > u64::MAX
            &&& r matches Ok(q) ==> q.amount_in_after_fee * 10_000int <= amount_in * (10_000
                - fee_bps) < (q.amount_in_after_fee + 1) * 10_000int
            &&& r matches Ok(q) ==> q.amount_out * (reserve_in + q.amount_in_after_fee)
                <= q.amount_in_after_fee * reserve_out < (q.amount_out + 1) * (reserve_in
                + q.amount_in_after_fee)
        }),
{
    let after = amount_in * (10_000 - fee_bps) / 10_000int;
    lemma_fee_complement(amount_in as int, fee_bps as int);
    assert(after == after_fee(amount_in as int, fee_bps as int));
    assert(amount_in * (10_000 - fee_bps) >= 0) by (nonlinear_arith)
        requires
            fee_bps < 10_000,
    ;
    lemma_floor_div_bounds(amount_in * (10_000 - fee_bps), 10_000);
    lemma_exact_input_out(reserve_in as int, reserve_out as int, after);
    let out = after * reserve_out / (reserve_in + after);
    assert(after * reserve_out >= 0) by (nonlinear_arith)
        requires
            after >= 0,
    ;
    lemma_floor_div_bounds(after * reserve_out, reserve_in + after);
}

/// Exact-output swap law. With `0 < amount_out < reserve_out`, a nonzero
/// input reserve and a fee below the denominator, the quote charges the net
/// input `after = ceil(amount_out * reserve_in / (reserve_out - amount_out))`
/// grossed up to `ceil(after * 10_000 / (10_000 - fee_bps))`; it succeeds
/// whenever `reserve_in` plus that gross input fits in `u64` and otherwise
/// fails with `Overflow`. The products are taken in `u128`, so their size is
/// never a reason to fail.
pub proof fn lemma_swap_exact_output_quote(reserve_in: u64, reserve_out: u64, amount_out: u64, fee_bps: u16)
    requires
        0 < amount_out < reserve_out,
        reserve_in > 0,
        fee_bps < 10_000,
    ensures
        ({
            let d = reserve_out - amount_out;
            let after = (amount_out * reserve_in + d - 1) / d;
            let amount_in = (after * 10_000 + (10_000 - fee_bps) - 1) / (10_000 - fee_bps as int);
            let r = swap_exact_output_result(reserve_in, reserve_out, amount_out, fee_bps);
            &&& reserve_in + amount_in <= u64::MAX ==> (r matches Ok(q) && q.amount_out
                == amount_out && q.amount_in_after_fee == after && q.amount_in == amount_in
                && q.fee_amount == amount_in - after && q.new_reserve_in == reserve_in + amount_in
                && q.new_reserve_out == reserve_out - amount_out)
            &&& reserve_in + amount_in > u64::MAX ==> r == Err::<ExactOutputQuote, AmmMathError>(
                AmmMathError::Overflow,
            )
            &&& r matches Ok(q) ==> q.amount_in_after_fee * d >= amount_out * reserve_in && (
            q.amount_in_after_fee - 1) * d < amount_out * reserve_in
            &&& r matches Ok(q) ==> q.amount_in * (10_000 - fee_bps) >= q.amount_in_after_fee
                * 10_000int && (q.amount_in - 1) * (10_000 - fee_bps) < q.amount_in_after_fee
                * 10_000int
        }),
{
    let d = reserve_out - amount_out;
    let after = (amount_out * reserve_in + d - 1) / d;
    lemma_exact_output_amounts(reserve_in as int, reserve_out as int, amount_out as int, fee_bps as int);
    assert(after == exact_output_after_fee(reserve_in as int, reserve_out as int, amount_out as int));
    let amount_in = (after * 10_000 + (10_000 - fee_bps) - 1) / (10_000 - fee_bps as int);
    assert(amount_in == gross_up(after, fee_bps as int));
    assert(amount_out * reserve_in >= 0) by (nonlinear_arith)
        requires
            amount_out > 0,
            reserve_in > 0,
    ;
    lemma_ceil_div_bounds(amount_out * reserve_in, d);
    assert(after * 10_000 >= 0) by (nonlinear_arith)
        requires
            after >= 1,
    ;
    lemma_ceil_div_bounds(after * 10_000, 10_000 - fee_bps as int);
}

/// Fee law. A fee at or above the denominator is refused with `InvalidFee`;
/// otherwise the input net of the fee is the largest `v` with
/// `v * 10_000 <= amount_in * (10_000 - fee_bps)`, so the fee never adds
/// value and a zero fee keeps the whole input.
pub proof fn lemma_amount_after_fee(amount_in: u64, fee_bps: u16)
    ensures
        ({
            let r = amount_after_fee_result(amount_in, fee_bps);
            &&& fee_bps >= 10_000 <==> r == Err::<u64, AmmMathError>(AmmMathError::InvalidFee)
            &&& fee_bps < 10_000 ==> (r matches Ok(v) && v * 10_000int <= amount_in * (10_000
                - fee_bps) < (v + 1) * 10_000int && v <= amount_in)
            &&& fee_bps == 0 ==> r == Ok::<u64, AmmMathError>(amount_in)
        }),
{
    if fee_bps < 10_000 {
        lemma_fee_complement(amount_in as int, fee_bps as int);
        assert(amount_in * (10_000 - fee_bps) >= 0) by (nonlinear_arith)
            requires
                fee_bps < 10_000,
        ;
        lemma_floor_div_bounds(amount_in * (10_000 - fee_bps), 10_000);
    }
}

} // verus!
