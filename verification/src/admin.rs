//! Admin instructions: rotate the fee, pause trading, rotate or renounce the
//! authority.
//!
//! Each requires the signer to be the pool's authority; once the authority is
//! renounced (`None`) every admin instruction fails with `AuthorityRenounced`.
//! None of them is gated by `Config.locked`, so the authority can always
//! unlock a locked pool.
use crate::error::AmmError;
use crate::state::{Address, Config};
use crate::swap::FEE_DENOMINATOR;
use vstd::prelude::*;

verus! {

/// Whether `signer` may run an admin instruction on `config`.
pub open spec fn authorize_result(config: Config, signer: Address) -> Result<(), AmmError> {
    match config.authority {
        None => Err(AmmError::AuthorityRenounced),
        Some(stored) => if stored == signer {
            Ok(())
        } else {
            Err(AmmError::Unauthorized)
        },
    }
}

/// The configuration after `signer` sets the fee to `new_fee_bps`, or the error.
pub open spec fn update_fee_outcome(config: Config, signer: Address, new_fee_bps: u16) -> Result<
    Config,
    AmmError,
> {
    match authorize_result(config, signer) {
        Err(e) => Err(e),
        Ok(_) => if new_fee_bps >= FEE_DENOMINATOR {
            Err(AmmError::InvalidFee)
        } else {
            Ok(Config { fee_bps: new_fee_bps, ..config })
        },
    }
}

/// The configuration after `signer` sets the lock flag to `locked`, or the error.
pub open spec fn set_locked_outcome(config: Config, signer: Address, locked: bool) -> Result<
    Config,
    AmmError,
> {
    match authorize_result(config, signer) {
        Err(e) => Err(e),
        Ok(_) => Ok(Config { locked, ..config }),
    }
}

/// The configuration after `signer` hands the authority to `new_authority`, or the error.
pub open spec fn update_authority_outcome(
    config: Config,
    signer: Address,
    new_authority: Option<Address>,
) -> Result<Config, AmmError> {
    match authorize_result(config, signer) {
        Err(e) => Err(e),
        Ok(_) => Ok(Config { authority: new_authority, ..config }),
    }
}

/// Accounts of `update_fee`: the signer and the pool's configuration.
pub struct UpdateFee {
    pub authority: Address,
    pub config: Config,
}

impl UpdateFee {
    /// Set the swap fee. The signer must be the authority and the new fee
    /// must be below `FEE_DENOMINATOR`.
    pub fn update_fee(&mut self, new_fee_bps: u16) -> (r: Result<(), AmmError>)
        ensures
            final(self).authority == old(self).authority,
            match update_fee_outcome(old(self).config, old(self).authority, new_fee_bps) {
                Ok(c) => r is Ok && final(self).config == c,
                Err(e) => r == Err::<(), AmmError>(e) && final(self).config == old(self).config,
            },
    {
        let stored = self.config.authority.ok_or(AmmError::AuthorityRenounced)?;
        if !self.authority.same_as(&stored) {
            return Err(AmmError::Unauthorized);
        }
        if (new_fee_bps as u64) >= FEE_DENOMINATOR {
            return Err(AmmError::InvalidFee);
        }
        self.config.fee_bps = new_fee_bps;
        Ok(())
    }
}

/// Accounts of `set_locked`: the signer and the pool's configuration.
pub struct SetLocked {
    pub authority: Address,
    pub config: Config,
}

impl SetLocked {
    /// Pause (`true`) or resume (`false`) trading. The signer must be the authority.
    pub fn set_locked(&mut self, locked: bool) -> (r: Result<(), AmmError>)
        ensures
            final(self).authority == old(self).authority,
            match set_locked_outcome(old(self).config, old(self).authority, locked) {
                Ok(c) => r is Ok && final(self).config == c,
                Err(e) => r == Err::<(), AmmError>(e) && final(self).config == old(self).config,
            },
    {
        let stored = self.config.authority.ok_or(AmmError::AuthorityRenounced)?;
        if !self.authority.same_as(&stored) {
            return Err(AmmError::Unauthorized);
        }
        self.config.locked = locked;
        Ok(())
    }
}

/// Accounts of `update_authority`: the signer and the pool's configuration.
pub struct UpdateAuthority {
    pub authority: Address,
    pub config: Config,
}

impl UpdateAuthority {
    /// Hand the authority to `new_authority`; `None` renounces it for good.
    /// The signer must be the current authority.
    pub fn update_authority(&mut self, new_authority: Option<Address>) -> (r: Result<(), AmmError>)
        ensures
            final(self).authority == old(self).authority,
            match update_authority_outcome(old(self).config, old(self).authority, new_authority) {
                Ok(c) => r is Ok && final(self).config == c,
                Err(e) => r == Err::<(), AmmError>(e) && final(self).config == old(self).config,
            },
    {
        let stored = self.config.authority.ok_or(AmmError::AuthorityRenounced)?;
        if !self.authority.same_as(&stored) {
            return Err(AmmError::Unauthorized);
        }
        self.config.authority = new_authority;
        Ok(())
    }
}

/// Renouncing is one-way: on a pool whose authority is `None`, every admin
/// instruction fails with `AuthorityRenounced`, whoever signs, so nothing can
/// ever change its configuration again.
pub proof fn lemma_renounced_pool_is_immutable(
    config: Config,
    signer: Address,
    new_fee_bps: u16,
    locked: bool,
    new_authority: Option<Address>,
)
    requires
        config.authority is None,
    ensures
        update_fee_outcome(config, signer, new_fee_bps) == Err::<Config, AmmError>(
            AmmError::AuthorityRenounced,
        ),
        set_locked_outcome(config, signer, locked) == Err::<Config, AmmError>(
            AmmError::AuthorityRenounced,
        ),
        update_authority_outcome(config, signer, new_authority) == Err::<Config, AmmError>(
            AmmError::AuthorityRenounced,
        ),
{
}

/// Only the authority changes the configuration: any other signer is
/// refused, with `Unauthorized` while an authority exists.
pub proof fn lemma_only_authority_administers(
    config: Config,
    signer: Address,
    new_fee_bps: u16,
    locked: bool,
    new_authority: Option<Address>,
)
    requires
        config.authority != Some(signer),
    ensures
        update_fee_outcome(config, signer, new_fee_bps) is Err,
        set_locked_outcome(config, signer, locked) is Err,
        update_authority_outcome(config, signer, new_authority) is Err,
        config.authority is Some ==> update_fee_outcome(config, signer, new_fee_bps) == Err::<
            Config,
            AmmError,
        >(AmmError::Unauthorized),
{
}

/// Rotating the authority transfers the privilege: afterwards the new
/// authority is accepted and every other signer, the old one included, is
/// refused with `Unauthorized`.
pub proof fn lemma_rotation_transfers_privilege(
    config: Config,
    current: Address,
    next: Address,
    other: Address,
)
    requires
        update_authority_outcome(config, current, Some(next)) is Ok,
        other != next,
    ensures
        ({
            let rotated = update_authority_outcome(config, current, Some(next))->Ok_0;
            &&& authorize_result(rotated, next) is Ok
            &&& authorize_result(rotated, other) == Err::<(), AmmError>(AmmError::Unauthorized)
        }),
{
}

/// The admin instructions are not gated by the lock: whether the pool is
/// locked or not, the authority can set the fee, rotate the authority and, in
/// particular, unlock it.
pub proof fn lemma_authority_acts_on_locked_pool(
    config: Config,
    signer: Address,
    new_fee_bps: u16,
    locked: bool,
    new_authority: Option<Address>,
)
    requires
        config.authority == Some(signer),
    ensures
        set_locked_outcome(config, signer, locked) == Ok::<Config, AmmError>(
            Config { locked, ..config },
        ),
        update_authority_outcome(config, signer, new_authority) == Ok::<Config, AmmError>(
            Config { authority: new_authority, ..config },
        ),
        new_fee_bps < FEE_DENOMINATOR ==> update_fee_outcome(config, signer, new_fee_bps) == Ok::<
            Config,
            AmmError,
        >(Config { fee_bps: new_fee_bps, ..config }),
{
}

} // verus!
