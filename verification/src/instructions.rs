//! The pool's instructions: create a pool, add and remove liquidity, swap.
//!
//! Each takes the state it reads as plain values and decides, returning
//! either the error that rejects the instruction or the token movements that
//! carry it out. Every trade instruction is rejected with `PoolLocked` while
//! the pool is locked, and every one enforces the caller's slippage bound.
use crate::error::{program_error, AmmError};
use crate::math::isqrt;
use crate::liquidity::{
    add_liquidity, add_liquidity_result, initial_liquidity, initial_liquidity_result,
    remove_liquidity, remove_liquidity_result, MINIMUM_LIQUIDITY,
};
use crate::state::{Address, Config};
use crate::swap::{
    swap_exact_input, swap_exact_input_result, swap_exact_output, swap_exact_output_result,
    FEE_DENOMINATOR,
};
use crate::types::LiquidityQuote;
use vstd::prelude::*;

verus! {

/// Bump seeds found for the pool's program-derived addresses.
#[derive(Debug, Clone, Copy, PartialEq, Eq, Structural)]
pub struct InitializeBumps {
    pub config: u8,
    pub mint_lp: u8,
}

/// Accounts of `initialize` that the configuration records.
pub struct Initialize {
    pub initializer: Address,
    pub mint_x: Address,
    pub mint_y: Address,
}

/// The configuration `initialize` creates, or its error.
pub open spec fn init_result(
    mint_x: Address,
    mint_y: Address,
    seed: u64,
    fee_bps: u16,
    authority: Option<Address>,
    bumps: InitializeBumps,
) -> Result<Config, AmmError> {
    if fee_bps >= FEE_DENOMINATOR {
        Err(AmmError::InvalidFee)
    } else {
        Ok(
            Config {
                seed,
                authority,
                mint_x,
                mint_y,
                fee_bps,
                locked: false,
                config_bump: bumps.config,
                lp_bump: bumps.mint_lp,
            },
        )
    }
}

impl Initialize {
    /// The configuration of a new pool: unlocked, with the given fee and
    /// authority. The fee must be below `FEE_DENOMINATOR`.
    pub fn init(&self, seed: u64, fee_bps: u16, authority: Option<Address>, bumps: InitializeBumps) -> (r:
        Result<Config, AmmError>)
        ensures
            r == init_result(self.mint_x, self.mint_y, seed, fee_bps, authority, bumps),
    {
        if (fee_bps as u64) >= FEE_DENOMINATOR {
            return Err(AmmError::InvalidFee);
        }
        Ok(
            Config {
                seed,
                authority,
                mint_x: self.mint_x,
                mint_y: self.mint_y,
                fee_bps,
                locked: false,
                config_bump: bumps.config,
                lp_bump: bumps.mint_lp,
            },
        )
    }
}

/// Token movements of a deposit: what the user pays into each vault and the
/// LP tokens minted to the user and to the pool's permanent lock.
#[derive(Debug, Clone, Copy, PartialEq, Eq, Structural)]
pub struct Deposit {
    pub amount_x: u64,
    pub amount_y: u64,
    pub lp_to_user: u64,
    pub lp_to_lock: u64,
}

/// The state `add_liquidity` reads: the configuration, the LP supply and the
/// two vault balances.
pub struct AddLiquidity {
    pub config: Config,
    pub lp_supply: u64,
    pub vault_x: u64,
    pub vault_y: u64,
}

/// The deposit `add_liquidity` makes, or its error.
pub open spec fn add_liquidity_handle_result(
    config: Config,
    lp_supply: u64,
    vault_x: u64,
    vault_y: u64,
    amount_a: u64,
    amount_b: u64,
    min_lp_tokens: u64,
) -> Result<Deposit, AmmError> {
    if config.locked {
        Err(AmmError::PoolLocked)
    } else {
        let quote = if lp_supply == 0 {
            initial_liquidity_result(amount_a, amount_b)
        } else {
            add_liquidity_result(vault_x, vault_y, lp_supply, amount_a, amount_b)
        };
        match quote {
            Err(e) => Err(program_error(e)),
            Ok(q) => if q.lp_tokens < min_lp_tokens {
                Err(AmmError::SlippageExceeded)
            } else {
                Ok(
                    Deposit {
                        amount_x: q.amount_a,
                        amount_y: q.amount_b,
                        lp_to_user: q.lp_tokens,
                        lp_to_lock: if lp_supply == 0 {
                            MINIMUM_LIQUIDITY
                        } else {
                            0
                        },
                    },
                )
            },
        }
    }
}

impl AddLiquidity {
    /// Deposit `amount_a` of X and `amount_b` of Y. The first deposit into an
    /// empty pool mints `floor(sqrt(a * b))` LP tokens, `MINIMUM_LIQUIDITY` of
    /// them to the permanent lock; later deposits mint the smaller pro-rata
    /// share. Fails if fewer than `min_lp_tokens` would reach the user.
    pub fn handle(&self, amount_a: u64, amount_b: u64, min_lp_tokens: u64) -> (r: Result<
        Deposit,
        AmmError,
    >)
        ensures
            r == add_liquidity_handle_result(
                self.config,
                self.lp_supply,
                self.vault_x,
                self.vault_y,
                amount_a,
                amount_b,
                min_lp_tokens,
            ),
            self.config.locked ==> r == Err::<Deposit, AmmError>(AmmError::PoolLocked),
            r matches Ok(d) ==> d.amount_x == amount_a && d.amount_y == amount_b && d.lp_to_user
                >= min_lp_tokens && d.lp_to_user > 0,
            r matches Ok(d) ==> (self.lp_supply == 0 ==> d.lp_to_lock == MINIMUM_LIQUIDITY
                && d.lp_to_user + d.lp_to_lock == isqrt((amount_a * amount_b) as nat)),
            r matches Ok(d) ==> (self.lp_supply > 0 ==> d.lp_to_lock == 0 && d.lp_to_user
                * self.vault_x <= amount_a * self.lp_supply && d.lp_to_user * self.vault_y
                <= amount_b * self.lp_supply),
    {
        if self.config.locked {
            return Err(AmmError::PoolLocked);
        }
        let supply = self.lp_supply;
        let is_first = supply == 0;
        let quote = if is_first {
            match initial_liquidity(amount_a, amount_b) {
                Ok(q) => q,
                Err(e) => return Err(AmmError::from(e)),
            }
        } else {
            match add_liquidity(self.vault_x, self.vault_y, supply, amount_a, amount_b) {
                Ok(q) => q,
                Err(e) => return Err(AmmError::from(e)),
            }
        };
        if quote.lp_tokens < min_lp_tokens {
            return Err(AmmError::SlippageExceeded);
        }
        Ok(
            Deposit {
                amount_x: quote.amount_a,
                amount_y: quote.amount_b,
                lp_to_user: quote.lp_tokens,
                lp_to_lock: if is_first {
                    MINIMUM_LIQUIDITY
                } else {
                    0
                },
            },
        )
    }
}

/// The state `remove_liquidity` reads: the configuration, the LP supply and
/// the two vault balances.
pub struct RemoveLiquidity {
    pub config: Config,
    pub lp_supply: u64,
    pub vault_x: u64,
    pub vault_y: u64,
}

/// The withdrawal `remove_liquidity` makes, or its error.
pub open spec fn remove_liquidity_handle_result(
    config: Config,
    lp_supply: u64,
    vault_x: u64,
    vault_y: u64,
    lp_burn: u64,
    min_a: u64,
    min_b: u64,
) -> Result<LiquidityQuote, AmmError> {
    if config.locked {
        Err(AmmError::PoolLocked)
    } else {
        match remove_liquidity_result(vault_x, vault_y, lp_supply, lp_burn) {
            Err(e) => Err(program_error(e)),
            Ok(q) => if q.amount_a < min_a || q.amount_b < min_b {
                Err(AmmError::SlippageExceeded)
            } else {
                Ok(q)
            },
        }
    }
}

impl RemoveLiquidity {
    /// Burn `lp_burn` LP tokens for a pro-rata share of both vaults. Fails if
    /// either share falls below the caller's floor.
    pub fn handle(&self, lp_burn: u64, min_a: u64, min_b: u64) -> (r: Result<
        LiquidityQuote,
        AmmError,
    >)
        ensures
            r == remove_liquidity_handle_result(
                self.config,
                self.lp_supply,
                self.vault_x,
                self.vault_y,
                lp_burn,
                min_a,
                min_b,
            ),
            self.config.locked ==> r == Err::<LiquidityQuote, AmmError>(AmmError::PoolLocked),
            r matches Ok(q) ==> q.lp_tokens == lp_burn && q.amount_a >= min_a && q.amount_b
                >= min_b && q.amount_a <= self.vault_x && q.amount_b <= self.vault_y,
    {
        if self.config.locked {
            return Err(AmmError::PoolLocked);
        }
        let quote = match remove_liquidity(self.vault_x, self.vault_y, self.lp_supply, lp_burn) {
            Ok(q) => q,
            Err(e) => return Err(AmmError::from(e)),
        };
        if quote.amount_a < min_a {
            return Err(AmmError::SlippageExceeded);
        }
        if quote.amount_b < min_b {
            return Err(AmmError::SlippageExceeded);
        }
        Ok(quote)
    }
}

/// Which swap formula to run, with the caller's slippage bound.
#[derive(Debug, Clone, Copy, PartialEq, Eq, Structural)]
pub enum SwapKind {
    /// Pay exactly `amount_in`; receive at least `min_amount_out`.
    ExactInput { amount_in: u64, min_amount_out: u64 },
    /// Receive exactly `amount_out`; pay at most `max_amount_in`.
    ExactOutput { amount_out: u64, max_amount_in: u64 },
}

/// Token movements of a swap: what the user pays into the input vault and
/// receives from the output vault.
#[derive(Debug, Clone, Copy, PartialEq, Eq, Structural)]
pub struct SwapTransfer {
    pub amount_in: u64,
    pub amount_out: u64,
}

/// The state `swap` reads: the configuration and the two vault balances.
pub struct Swap {
    pub config: Config,
    pub vault_x: u64,
    pub vault_y: u64,
}

/// The (input, output) reserves of a swap in the given direction.
pub open spec fn swap_reserves(vault_x: u64, vault_y: u64, a_to_b: bool) -> (u64, u64) {
    if a_to_b {
        (vault_x, vault_y)
    } else {
        (vault_y, vault_x)
    }
}

/// The transfer `swap` makes, or its error.
pub open spec fn swap_handle_result(
    config: Config,
    vault_x: u64,
    vault_y: u64,
    kind: SwapKind,
    a_to_b: bool,
) -> Result<SwapTransfer, AmmError> {
    if config.locked {
        Err(AmmError::PoolLocked)
    } else {
        let (reserve_in, reserve_out) = swap_reserves(vault_x, vault_y, a_to_b);
        match kind {
            SwapKind::ExactInput { amount_in, min_amount_out } => match swap_exact_input_result(
                reserve_in,
                reserve_out,
                amount_in,
                config.fee_bps,
            ) {
                Err(e) => Err(program_error(e)),
                Ok(q) => if q.amount_out < min_amount_out {
                    Err(AmmError::SlippageExceeded)
                } else {
                    Ok(SwapTransfer { amount_in: q.amount_in, amount_out: q.amount_out })
                },
            },
            SwapKind::ExactOutput { amount_out, max_amount_in } => match swap_exact_output_result(
                reserve_in,
                reserve_out,
                amount_out,
                config.fee_bps,
            ) {
                Err(e) => Err(program_error(e)),
                Ok(q) => if q.amount_in > max_amount_in {
                    Err(AmmError::SlippageExceeded)
                } else {
                    Ok(SwapTransfer { amount_in: q.amount_in, amount_out: q.amount_out })
                },
            },
        }
    }
}

impl Swap {
    /// Trade X for Y (`a_to_b`) or Y for X, by either formula, under the
    /// pool's current fee. Fails if the caller's slippage bound is not met.
    pub fn swap(&self, kind: SwapKind, a_to_b: bool) -> (r: Result<SwapTransfer, AmmError>)
        ensures
            r == swap_handle_result(self.config, self.vault_x, self.vault_y, kind, a_to_b),
            self.config.locked ==> r == Err::<SwapTransfer, AmmError>(AmmError::PoolLocked),
            r matches Ok(t) ==> ({
                let (reserve_in, reserve_out) = swap_reserves(self.vault_x, self.vault_y, a_to_b);
                &&& t.amount_in > 0 && t.amount_out > 0
                &&& t.amount_out < reserve_out
                &&& reserve_in + t.amount_in <= u64::MAX
                &&& (reserve_in + t.amount_in) * (reserve_out - t.amount_out) >= reserve_in
                    * reserve_out
            }),
            r matches Ok(t) ==> match kind {
                SwapKind::ExactInput { amount_in, min_amount_out } => t.amount_in == amount_in
                    && t.amount_out >= min_amount_out,
                SwapKind::ExactOutput { amount_out, max_amount_in } => t.amount_out == amount_out
                    && t.amount_in <= max_amount_in,
            },
    {
        if self.config.locked {
            return Err(AmmError::PoolLocked);
        }
        // a_to_b: the user sends X and receives Y, so the input reserve is vault_x
        let (reserve_in, reserve_out) = if a_to_b {
            (self.vault_x, self.vault_y)
        } else {
            (self.vault_y, self.vault_x)
        };
        match kind {
            SwapKind::ExactInput { amount_in: target_in, min_amount_out } => {
                let quote = match swap_exact_input(
                    reserve_in,
                    reserve_out,
                    target_in,
                    self.config.fee_bps,
                ) {
                    Ok(q) => q,
                    Err(e) => return Err(AmmError::from(e)),
                };
                if quote.amount_out < min_amount_out {
                    return Err(AmmError::SlippageExceeded);
                }
                Ok(SwapTransfer { amount_in: quote.amount_in, amount_out: quote.amount_out })
            },
            SwapKind::ExactOutput { amount_out: target_out, max_amount_in } => {
                let quote = match swap_exact_output(
                    reserve_in,
                    reserve_out,
                    target_out,
                    self.config.fee_bps,
                ) {
                    Ok(q) => q,
                    Err(e) => return Err(AmmError::from(e)),
                };
                if quote.amount_in > max_amount_in {
                    return Err(AmmError::SlippageExceeded);
                }
                Ok(SwapTransfer { amount_in: quote.amount_in, amount_out: quote.amount_out })
            },
        }
    }
}

/// Swap slippage law. On an unlocked pool, once the quote for the chosen
/// direction succeeds, the swap goes through exactly when the caller's bound
/// holds (an exact-input swap needs `amount_out >= min_amount_out`, an
/// exact-output swap `amount_in <= max_amount_in`), moving the quoted
/// amounts; otherwise it fails with `SlippageExceeded`. A failing quote fails
/// the swap with the error of the same name.
pub proof fn lemma_swap_slippage(config: Config, vault_x: u64, vault_y: u64, kind: SwapKind, a_to_b: bool)
    requires
        !config.locked,
    ensures
        ({
            let reserve_in = if a_to_b {
                vault_x
            } else {
                vault_y
            };
            let reserve_out = if a_to_b {
                vault_y
            } else {
                vault_x
            };
            let r = swap_handle_result(config, vault_x, vault_y, kind, a_to_b);
            match kind {
                SwapKind::ExactInput { amount_in, min_amount_out } => match swap_exact_input_result(
                    reserve_in,
                    reserve_out,
                    amount_in,
                    config.fee_bps,
                ) {
                    Ok(q) => {
                        &&& (r is Ok <==> q.amount_out >= min_amount_out)
                        &&& q.amount_out < min_amount_out ==> r == Err::<SwapTransfer, AmmError>(
                            AmmError::SlippageExceeded,
                        )
                        &&& r matches Ok(t) ==> t.amount_in == q.amount_in && t.amount_out
                            == q.amount_out
                    },
                    Err(e) => r == Err::<SwapTransfer, AmmError>(program_error(e)),
                },
                SwapKind::ExactOutput { amount_out, max_amount_in } => match swap_exact_output_result(
                    reserve_in,
                    reserve_out,
                    amount_out,
                    config.fee_bps,
                ) {
                    Ok(q) => {
                        &&& (r is Ok <==> q.amount_in <= max_amount_in)
                        &&& q.amount_in > max_amount_in ==> r == Err::<SwapTransfer, AmmError>(
                            AmmError::SlippageExceeded,
                        )
                        &&& r matches Ok(t) ==> t.amount_in == q.amount_in && t.amount_out
                            == q.amount_out
                    },
                    Err(e) => r == Err::<SwapTransfer, AmmError>(program_error(e)),
                },
            }
        }),
{
}

/// Deposit slippage law. On an unlocked pool, once the quote succeeds (the
/// first deposit into an empty pool, a pro-rata deposit otherwise), the
/// deposit goes through exactly when it mints at least `min_lp_tokens` to the
/// user, and otherwise fails with `SlippageExceeded`.
pub proof fn lemma_add_liquidity_slippage(
    config: Config,
    lp_supply: u64,
    vault_x: u64,
    vault_y: u64,
    amount_a: u64,
    amount_b: u64,
    min_lp_tokens: u64,
)
    requires
        !config.locked,
    ensures
        ({
            let quote = if lp_supply == 0 {
                initial_liquidity_result(amount_a, amount_b)
            } else {
                add_liquidity_result(vault_x, vault_y, lp_supply, amount_a, amount_b)
            };
            let r = add_liquidity_handle_result(
                config,
                lp_supply,
                vault_x,
                vault_y,
                amount_a,
                amount_b,
                min_lp_tokens,
            );
            match quote {
                Ok(q) => {
                    &&& (r is Ok <==> q.lp_tokens >= min_lp_tokens)
                    &&& q.lp_tokens < min_lp_tokens ==> r == Err::<Deposit, AmmError>(
                        AmmError::SlippageExceeded,
                    )
                    &&& r matches Ok(d) ==> d.lp_to_user == q.lp_tokens && d.amount_x == q.amount_a
                        && d.amount_y == q.amount_b
                },
                Err(e) => r == Err::<Deposit, AmmError>(program_error(e)),
            }
        }),
{
}

/// Withdrawal slippage law. On an unlocked pool, once the quote succeeds,
/// the withdrawal goes through exactly when both shares meet the caller's
/// floors, and otherwise fails with `SlippageExceeded`.
pub proof fn lemma_remove_liquidity_slippage(
    config: Config,
    lp_supply: u64,
    vault_x: u64,
    vault_y: u64,
    lp_burn: u64,
    min_a: u64,
    min_b: u64,
)
    requires
        !config.locked,
    ensures
        ({
            let r = remove_liquidity_handle_result(
                config,
                lp_supply,
                vault_x,
                vault_y,
                lp_burn,
                min_a,
                min_b,
            );
            match remove_liquidity_result(vault_x, vault_y, lp_supply, lp_burn) {
                Ok(q) => {
                    &&& (r is Ok <==> q.amount_a >= min_a && q.amount_b >= min_b)
                    &&& !(q.amount_a >= min_a && q.amount_b >= min_b) ==> r == Err::<
                        LiquidityQuote,
                        AmmError,
                    >(AmmError::SlippageExceeded)
                    &&& r matches Ok(w) ==> w == q
                },
                Err(e) => r == Err::<LiquidityQuote, AmmError>(program_error(e)),
            }
        }),
{
}

} // verus!
