//! Constant-product (`x * y = k`) automated market maker.
//!
//! The integer math (fees, swaps, liquidity, rounding helpers) and the
//! decision logic of the pool's instructions, each stated and proved against
//! a mathematical model.
//!
//! Modules:
//! - `math`: `div_ceil`, `checked_mul_div_floor/ceil`, `integer_sqrt_floor`, `narrow_u64`
//! - `swap`: fee deduction, exact-input and exact-output swap formulas
//! - `liquidity`: initial deposit, add liquidity, remove liquidity
//! - `types`: quote types
//! - `error`: `AmmMathError` and the pool-level `AmmError`
//! - `state`: addresses and the pool's configuration
//! - `instructions`: create a pool, add and remove liquidity, swap
//! - `admin`: fee, lock and authority updates, and the authority laws
//! - `addresses`: the pool's program-derived and associated token addresses
mod addresses;
mod admin;
mod error;
mod instructions;
mod liquidity;
mod math;
mod state;
mod swap;
mod types;

pub use addresses::{
    associated_token_address, associated_token_address_of, derived_address, pool_addresses,
    program_address, Pool, UserAccounts, ASSOCIATED_TOKEN_PROGRAM_ID, CONFIG_SEED, LP_MINT_DECIMALS, LP_MINT_SEED,
    TOKEN_PROGRAM_ID,
};
pub use admin::{
    authorize_result, lemma_authority_acts_on_locked_pool, lemma_only_authority_administers,
    lemma_renounced_pool_is_immutable, lemma_rotation_transfers_privilege, set_locked_outcome,
    update_authority_outcome, update_fee_outcome, SetLocked, UpdateAuthority, UpdateFee,
};
pub use error::{program_error, AmmError, AmmMathError};
pub use instructions::{
    add_liquidity_handle_result, init_result, lemma_add_liquidity_slippage,
    lemma_remove_liquidity_slippage, lemma_swap_slippage, remove_liquidity_handle_result, swap_handle_result,
    swap_reserves, AddLiquidity, Deposit, Initialize, InitializeBumps, RemoveLiquidity, Swap,
    SwapKind, SwapTransfer,
};
pub use liquidity::{
    add_liquidity, add_liquidity_lp, add_liquidity_result, initial_liquidity,
    initial_liquidity_result, lemma_add_liquidity_quote, lemma_add_then_remove_no_profit,
    lemma_initial_liquidity_quote, lemma_remove_liquidity_quote, lemma_initial_liquidity_symmetric,
    min_int, remove_liquidity, remove_liquidity_result, MINIMUM_LIQUIDITY,
};
pub use math::{
    ceil_div, checked_mul_div_ceil, checked_mul_div_floor, div_ceil, integer_sqrt_floor, is_isqrt,
    isqrt, lemma_ceil_div_bounds, lemma_floor_div_bounds, lemma_isqrt, lemma_square_monotone,
    narrow_u64, narrow_u64_result,
};
pub use state::{Address, Config};
pub use swap::{
    after_fee, amount_after_fee, amount_after_fee_result, exact_input_out, exact_output_after_fee,
    gross_up, lemma_amount_after_fee, lemma_fee_complement, lemma_swap_exact_input_quote, lemma_swap_exact_output_quote, swap_exact_input, swap_exact_input_result, swap_exact_output,
    swap_exact_output_result, FEE_DENOMINATOR,
};
pub use types::{ExactOutputQuote, LiquidityQuote, SwapQuote};
