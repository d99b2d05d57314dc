//! Addresses of a pool's accounts, derived from its seed and mints.
use crate::state::Address;
use anchor_lang::prelude::Pubkey;
use vstd::bytes::{spec_u64_to_le_bytes, u64_to_le_bytes};
use vstd::prelude::*;

verus! {

broadcast use vstd::array::group_array_axioms;

/// Seed of the configuration's address, the bytes of `"config"`:
/// `[CONFIG_SEED, seed.to_le_bytes()]`.
pub const CONFIG_SEED: [u8; 6] = [99, 111, 110, 102, 105, 103];

/// Seed of the LP mint's address, the bytes of `"lp"`: `[LP_MINT_SEED, config]`.
pub const LP_MINT_SEED: [u8; 2] = [108, 112];

/// Decimals of the LP mint.
pub const LP_MINT_DECIMALS: u8 = 6;

/// The address and bump seed that a program-address search finds for `seeds`
/// under `program_id`, if any.
pub uninterp spec fn program_address(seeds: Seq<Seq<u8>>, program_id: Seq<u8>) -> Option<(Seq<u8>, u8)>;

/// `Pubkey::try_find_program_address`.
///
/// Trusted: the search is a deterministic function of the seeds and the
/// program id (hashes tried from bump 255 down); the contract names its result
/// and says nothing more of it.
#[verifier::external_body]
fn try_find_program_address(seeds: &[&[u8]], program_id: &Address) -> (r: Option<(Address, u8)>)
    ensures
        match r {
            Some((a, bump)) => program_address(seeds.deep_view(), program_id.bytes@) == Some((a.bytes@, bump)),
            None => program_address(seeds.deep_view(), program_id.bytes@) is None,
        },
{
    match Pubkey::try_find_program_address(seeds, &Pubkey::new_from_array(program_id.bytes)) {
        Some((a, bump)) => Some((Address { bytes: a.to_bytes() }, bump)),
        None => None,
    }
}

/// A byte slice is its own deep view.
proof fn lemma_bytes_deep_view(s: &[u8])
    ensures
        s.deep_view() == s@,
{
    assert(s.deep_view() =~= s@);
}

/// The SPL Token program's id, `TokenkegQfeZyiNwAJbNbGKPFXCWuBvf9Ss623VQ5DA`.
pub const TOKEN_PROGRAM_ID: [u8; 32] = [
    6, 221, 246, 225, 215, 101, 161, 147, 217, 203, 225, 70, 206, 235, 121, 172, 28, 180, 133, 237,
    95, 91, 55, 145, 58, 140, 245, 133, 126, 255, 0, 169,
];

/// The associated token account program's id, `ATokenGPvbdGVxr1b2hvZbsiqW5xWH25efTNsLJA8knL`.
pub const ASSOCIATED_TOKEN_PROGRAM_ID: [u8; 32] = [
    140, 151, 37, 143, 78, 36, 137, 241, 187, 61, 16, 41, 20, 142, 13, 131, 11, 90, 19, 153, 218,
    255, 16, 132, 4, 142, 123, 216, 219, 233, 248, 89,
];

/// The address a program-address search finds, without its bump seed.
pub open spec fn derived_address(seeds: Seq<Seq<u8>>, program_id: Seq<u8>) -> Option<Seq<u8>> {
    match program_address(seeds, program_id) {
        Some((a, _)) => Some(a),
        None => None,
    }
}

/// The associated token account of `wallet` for `mint` under the SPL Token
/// program: the program address of `[wallet, token program, mint]` under the
/// associated token account program.
pub open spec fn associated_token_address_of(wallet: Seq<u8>, mint: Seq<u8>) -> Option<Seq<u8>> {
    derived_address(seq![wallet, TOKEN_PROGRAM_ID@, mint], ASSOCIATED_TOKEN_PROGRAM_ID@)
}

/// Every address of a pool, in the order (config, LP mint, vault X, vault Y,
/// LP lock vault), or `None` where a search finds none.
pub open spec fn pool_addresses(seed: u64, mint_x: Seq<u8>, mint_y: Seq<u8>, program_id: Seq<u8>) -> Option<
    (Seq<u8>, Seq<u8>, Seq<u8>, Seq<u8>, Seq<u8>),
> {
    match derived_address(seq![CONFIG_SEED@, spec_u64_to_le_bytes(seed)], program_id) {
        None => None,
        Some(config) => match derived_address(seq![LP_MINT_SEED@, config], program_id) {
            None => None,
            Some(mint_lp) => match (
                associated_token_address_of(config, mint_x),
                associated_token_address_of(config, mint_y),
                associated_token_address_of(config, mint_lp),
            ) {
                (Some(vault_x), Some(vault_y), Some(lp_vault)) => Some(
                    (config, mint_lp, vault_x, vault_y, lp_vault),
                ),
                _ => None,
            },
        },
    }
}

/// The associated token account of `wallet` for `mint` under the SPL Token
/// program, or `None` in the event that no bump seed gives a valid address
/// (where `get_associated_token_address` would panic).
pub fn associated_token_address(wallet: &Address, mint: &Address) -> (r: Option<Address>)
    ensures
        match r {
            Some(a) => associated_token_address_of(wallet.bytes@, mint.bytes@) == Some(a.bytes@),
            None => associated_token_address_of(wallet.bytes@, mint.bytes@) is None,
        },
{
    let token_program = TOKEN_PROGRAM_ID;
    let seeds: [&[u8]; 3] = [wallet.bytes.as_slice(), token_program.as_slice(), mint.bytes.as_slice()];
    let seeds_slice = seeds.as_slice();
    let program_id = Address { bytes: ASSOCIATED_TOKEN_PROGRAM_ID };
    proof {
        lemma_bytes_deep_view(seeds@[0]);
        lemma_bytes_deep_view(seeds@[1]);
        lemma_bytes_deep_view(seeds@[2]);
        assert(seeds_slice.deep_view() =~= seq![wallet.bytes@, TOKEN_PROGRAM_ID@, mint.bytes@]);
    }
    match try_find_program_address(seeds_slice, &program_id) {
        Some((address, _bump)) => Some(address),
        None => None,
    }
}

/// Every address of a pool, derived once from its seed, its mints and the
/// program's id.
#[derive(Debug, Clone, Copy, PartialEq, Eq)]
pub struct Pool {
    pub seed: u64,
    pub mint_x: Address,
    pub mint_y: Address,
    pub mint_lp: Address,
    pub config: Address,
    pub vault_x: Address,
    pub vault_y: Address,
    pub lp_vault: Address,
}

impl Pool {
    /// Derive the configuration and LP mint program addresses and the three
    /// vaults owned by the configuration. `None` in the event that a search
    /// finds no valid bump seed.
    pub fn derive(seed: u64, mint_x: Address, mint_y: Address, program_id: Address) -> (r: Option<Self>)
        ensures
            match pool_addresses(seed, mint_x.bytes@, mint_y.bytes@, program_id.bytes@) {
                None => r is None,
                Some((config, mint_lp, vault_x, vault_y, lp_vault)) => r matches Some(p) && p.seed
                    == seed && p.mint_x == mint_x && p.mint_y == mint_y && p.config.bytes@ == config
                    && p.mint_lp.bytes@ == mint_lp && p.vault_x.bytes@ == vault_x
                    && p.vault_y.bytes@ == vault_y && p.lp_vault.bytes@ == lp_vault,
            },
    {
        let seed_bytes = u64_to_le_bytes(seed);
        let config_seed = CONFIG_SEED;
        let config_seeds: [&[u8]; 2] = [config_seed.as_slice(), seed_bytes.as_slice()];
        let config_seeds_slice = config_seeds.as_slice();
        proof {
            lemma_bytes_deep_view(config_seeds@[0]);
            lemma_bytes_deep_view(config_seeds@[1]);
            assert(config_seeds_slice.deep_view() =~= seq![CONFIG_SEED@, spec_u64_to_le_bytes(seed)]);
        }
        let (config, _config_bump) = match try_find_program_address(config_seeds_slice, &program_id) {
            Some(found) => found,
            None => return None,
        };
        let lp_mint_seed = LP_MINT_SEED;
        let mint_seeds: [&[u8]; 2] = [lp_mint_seed.as_slice(), config.bytes.as_slice()];
        let mint_seeds_slice = mint_seeds.as_slice();
        proof {
            lemma_bytes_deep_view(mint_seeds@[0]);
            lemma_bytes_deep_view(mint_seeds@[1]);
            assert(mint_seeds_slice.deep_view() =~= seq![LP_MINT_SEED@, config.bytes@]);
        }
        let (mint_lp, _lp_bump) = match try_find_program_address(mint_seeds_slice, &program_id) {
            Some(found) => found,
            None => return None,
        };
        let vault_x = match associated_token_address(&config, &mint_x) {
            Some(a) => a,
            None => return None,
        };
        let vault_y = match associated_token_address(&config, &mint_y) {
            Some(a) => a,
            None => return None,
        };
        let lp_vault = match associated_token_address(&config, &mint_lp) {
            Some(a) => a,
            None => return None,
        };
        Some(Pool { seed, mint_x, mint_y, mint_lp, config, vault_x, vault_y, lp_vault })
    }
}

/// A participant in a scenario: the public key that signs for it, the label
/// that names it, and its two token accounts. The LP token account is created
/// on its first deposit, so it is derived on demand.
pub struct UserAccounts {
    pub key: Address,
    pub label: String,
    pub ata_x: Address,
    pub ata_y: Address,
}

impl UserAccounts {
    /// The participant's public key.
    pub fn pubkey(&self) -> (r: Address)
        ensures
            r == self.key,
    {
        self.key
    }

    /// The participant's associated token account for the LP mint `mint_lp`.
    pub fn ata_lp(&self, mint_lp: &Address) -> (r: Option<Address>)
        ensures
            match r {
                Some(a) => associated_token_address_of(self.key.bytes@, mint_lp.bytes@) == Some(a.bytes@),
                None => associated_token_address_of(self.key.bytes@, mint_lp.bytes@) is None,
            },
    {
        associated_token_address(&self.key, mint_lp)
    }
}

} // verus!
