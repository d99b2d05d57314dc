//! Quote structs returned by swap and liquidity functions.
use vstd::prelude::*;

verus! {

/// Quote for an exact-input swap, returned by [`crate::swap_exact_input`].
///
/// `fee_amount` is informational and always equals `amount_in - amount_in_after_fee`.
#[derive(Debug, Clone, Copy, PartialEq, Eq, Structural)]
pub struct SwapQuote {
    pub amount_in: u64,
    pub amount_in_after_fee: u64,
    pub fee_amount: u64,
    pub amount_out: u64,
    pub new_reserve_in: u64,
    pub new_reserve_out: u64,
}

/// Quote for an exact-output swap, returned by [`crate::swap_exact_output`].
///
/// Mirror of [`SwapQuote`] for the inverse direction: the caller fixes
/// `amount_out`, the library computes the minimum `amount_in` that keeps the
/// invariant.
#[derive(Debug, Clone, Copy, PartialEq, Eq, Structural)]
pub struct ExactOutputQuote {
    pub amount_out: u64,
    pub amount_in_after_fee: u64,
    pub amount_in: u64,
    pub fee_amount: u64,
    pub new_reserve_in: u64,
    pub new_reserve_out: u64,
}

/// Quote for any liquidity operation (initial, add, remove).
///
/// For add/initial: `lp_tokens` is the amount minted to the user (the initial
/// mint excludes the protocol-locked `MINIMUM_LIQUIDITY`). For remove:
/// `lp_tokens` is the amount the user burns; `amount_a`, `amount_b` are what
/// they receive.
#[derive(Debug, Clone, Copy, PartialEq, Eq, Structural)]
pub struct LiquidityQuote {
    pub lp_tokens: u64,
    pub amount_a: u64,
    pub amount_b: u64,
}

} // verus!
