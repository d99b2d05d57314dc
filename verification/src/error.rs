use vstd::prelude::*;

verus! {

/// Error variants for AMM math operations.
#[derive(Debug, Clone, Copy, PartialEq, Eq, Structural)]
pub enum AmmMathError {
    /// An input amount was zero.
    ZeroAmount,
    /// A reserve was zero.
    ZeroReserve,
    /// Division by zero in a math helper.
    ZeroDiv,
    /// Fee parameter out of range (fee_bps >= fee_denominator).
    InvalidFee,
    /// Arithmetic overflow in a checked operation.
    Overflow,
    /// Arithmetic underflow in a checked operation.
    Underflow,
    /// Computed swap output rounded to zero.
    InsufficientOutput,
    /// Pool cannot satisfy the request (drain, tiny LP burn, uninitialized supply, etc.).
    InsufficientLiquidity,
}

/// Errors of the pool's instructions. The first eight mirror
/// [`AmmMathError`] one for one, so a math failure keeps its own code; the
/// rest are pool-level and have no math counterpart.
#[derive(Debug, Clone, Copy, PartialEq, Eq, Structural)]
pub enum AmmError {
    /// Input amount is zero.
    ZeroAmount,
    /// A reserve is zero.
    ZeroReserve,
    /// Division by zero.
    ZeroDiv,
    /// Fee bps is out of range (must be < FEE_DENOMINATOR).
    InvalidFee,
    /// Arithmetic overflow.
    Overflow,
    /// Arithmetic underflow.
    Underflow,
    /// Computed output rounded to zero.
    InsufficientOutput,
    /// Pool cannot satisfy the request.
    InsufficientLiquidity,
    /// Pool is locked.
    PoolLocked,
    /// Slippage tolerance exceeded.
    SlippageExceeded,
    /// Signer does not match the pool's authority.
    Unauthorized,
    /// Authority has been renounced; the pool is immutable.
    AuthorityRenounced,
}

/// The pool error that reports a math error: the variant of the same name.
pub open spec fn program_error(e: AmmMathError) -> AmmError {
    match e {
        AmmMathError::ZeroAmount => AmmError::ZeroAmount,
        AmmMathError::ZeroReserve => AmmError::ZeroReserve,
        AmmMathError::ZeroDiv => AmmError::ZeroDiv,
        AmmMathError::InvalidFee => AmmError::InvalidFee,
        AmmMathError::Overflow => AmmError::Overflow,
        AmmMathError::Underflow => AmmError::Underflow,
        AmmMathError::InsufficientOutput => AmmError::InsufficientOutput,
        AmmMathError::InsufficientLiquidity => AmmError::InsufficientLiquidity,
    }
}

impl From<AmmMathError> for AmmError {
    fn from(e: AmmMathError) -> (r: Self) {
        match e {
            AmmMathError::ZeroAmount => AmmError::ZeroAmount,
            AmmMathError::ZeroReserve => AmmError::ZeroReserve,
            AmmMathError::ZeroDiv => AmmError::ZeroDiv,
            AmmMathError::InvalidFee => AmmError::InvalidFee,
            AmmMathError::Overflow => AmmError::Overflow,
            AmmMathError::Underflow => AmmError::Underflow,
            AmmMathError::InsufficientOutput => AmmError::InsufficientOutput,
            AmmMathError::InsufficientLiquidity => AmmError::InsufficientLiquidity,
        }
    }
}

impl vstd::std_specs::convert::FromSpecImpl<AmmMathError> for AmmError {
    open spec fn obeys_from_spec() -> bool {
        true
    }

    open spec fn from_spec(v: AmmMathError) -> AmmError {
        program_error(v)
    }
}

} // verus!
