use std::str::FromStr;

use amm_math::{associated_token_address, Address, Pool, UserAccounts, CONFIG_SEED, LP_MINT_DECIMALS, LP_MINT_SEED};
use anchor_lang::prelude::Pubkey;
use anchor_spl::associated_token::get_associated_token_address;

fn addr(k: &Pubkey) -> Address {
    Address { bytes: k.to_bytes() }
}

fn program_id() -> Pubkey {
    Pubkey::from_str("CYbYnHW7SsnjGya616UuSintpEdezzJZCZuLZT6f2yf5").unwrap()
}

#[test]
fn seeds_are_the_program_constants() {
    assert_eq!(&CONFIG_SEED, b"config");
    assert_eq!(&LP_MINT_SEED, b"lp");
    assert_eq!(LP_MINT_DECIMALS, 6);
}

#[test]
fn pool_derive_matches_the_program_derivations() {
    let program_id = program_id();
    let mint_x = Pubkey::new_from_array([7; 32]);
    let mint_y = Pubkey::new_from_array([9; 32]);
    for seed in [0u64, 1, 42, u64::MAX] {
        let (config, _) = Pubkey::find_program_address(&[b"config", &seed.to_le_bytes()], &program_id);
        let (mint_lp, _) = Pubkey::find_program_address(&[b"lp", config.as_ref()], &program_id);
        let pool = Pool::derive(seed, addr(&mint_x), addr(&mint_y), addr(&program_id)).unwrap();
        assert_eq!(pool.seed, seed);
        assert_eq!(pool.mint_x, addr(&mint_x));
        assert_eq!(pool.mint_y, addr(&mint_y));
        assert_eq!(pool.config, addr(&config));
        assert_eq!(pool.mint_lp, addr(&mint_lp));
        assert_eq!(pool.vault_x, addr(&get_associated_token_address(&config, &mint_x)));
        assert_eq!(pool.vault_y, addr(&get_associated_token_address(&config, &mint_y)));
        assert_eq!(pool.lp_vault, addr(&get_associated_token_address(&config, &mint_lp)));
        assert_ne!(pool.config, addr(&program_id));
    }
}

#[test]
fn associated_token_address_matches_spl() {
    let wallet = Pubkey::new_from_array([3; 32]);
    let mint = Pubkey::new_from_array([4; 32]);
    let ata = associated_token_address(&addr(&wallet), &addr(&mint)).unwrap();
    assert_eq!(ata, addr(&get_associated_token_address(&wallet, &mint)));
    assert_ne!(ata, addr(&wallet));
    assert_ne!(ata, addr(&mint));
}

#[test]
fn user_lp_account_is_the_associated_token_account() {
    let wallet = Pubkey::new_from_array([5; 32]);
    let mint_x = Pubkey::new_from_array([7; 32]);
    let mint_y = Pubkey::new_from_array([9; 32]);
    let mint_lp = Pubkey::new_from_array([11; 32]);
    let user = UserAccounts {
        key: addr(&wallet),
        label: String::from("Alice"),
        ata_x: addr(&get_associated_token_address(&wallet, &mint_x)),
        ata_y: addr(&get_associated_token_address(&wallet, &mint_y)),
    };
    assert_eq!(user.pubkey(), addr(&wallet));
    assert_eq!(user.ata_lp(&addr(&mint_lp)).unwrap(), addr(&get_associated_token_address(&wallet, &mint_lp)));
    assert_ne!(user.ata_lp(&addr(&mint_lp)).unwrap(), user.ata_x);
}
