//! Deterministic addressing, checked against the platform's own derivation.

use solana_program::pubkey::Pubkey;

use solana_lottery_program::pda::{
    find_player_pda_account, find_player_token_pda_account, find_stake_pool_mint_pda,
    find_stake_pool_vault_pda,
};

const PROGRAM_ID: [u8; 32] = [7; 32];
const AUTHORITY: [u8; 32] = [1; 32];
const PLAYER: [u8; 32] = [2; 32];

fn reference_pda(seed: &[u8], owner: &[u8; 32]) -> ([u8; 32], u8) {
    let (address, nonce) = Pubkey::find_program_address(
        &[seed, owner],
        &Pubkey::new_from_array(PROGRAM_ID),
    );
    (address.to_bytes(), nonce)
}

#[test]
fn vault_address_matches_the_platform_derivation() {
    let (address, nonce) = find_stake_pool_vault_pda(&PROGRAM_ID, &AUTHORITY).unwrap();
    assert_eq!((address, nonce), reference_pda(b"StakePool", &AUTHORITY));
}

#[test]
fn mint_address_matches_the_platform_derivation() {
    let (address, nonce) = find_stake_pool_mint_pda(&PROGRAM_ID, &AUTHORITY).unwrap();
    assert_eq!((address, nonce), reference_pda(b"ReceiptMint", &AUTHORITY));
}

#[test]
fn player_record_address_matches_the_platform_derivation() {
    let (address, nonce) = find_player_pda_account(&PROGRAM_ID, &PLAYER).unwrap();
    assert_eq!((address, nonce), reference_pda(b"PlayerAccount", &PLAYER));
}

#[test]
fn player_token_address_matches_the_platform_derivation() {
    let (address, nonce) = find_player_token_pda_account(&PROGRAM_ID, &PLAYER).unwrap();
    assert_eq!((address, nonce), reference_pda(b"PlayerTokenAccount", &PLAYER));
}

#[test]
fn derived_addresses_are_reproducible_and_distinct() {
    let (vault, _) = find_stake_pool_vault_pda(&PROGRAM_ID, &AUTHORITY).unwrap();
    let (vault_again, _) = find_stake_pool_vault_pda(&PROGRAM_ID, &AUTHORITY).unwrap();
    let (mint, _) = find_stake_pool_mint_pda(&PROGRAM_ID, &AUTHORITY).unwrap();
    let (record, _) = find_player_pda_account(&PROGRAM_ID, &PLAYER).unwrap();
    let (token_record, _) = find_player_token_pda_account(&PROGRAM_ID, &PLAYER).unwrap();
    assert_eq!(vault, vault_again);
    assert_ne!(vault, AUTHORITY);
    assert_ne!(vault, mint);
    assert_ne!(record, PLAYER);
    assert_ne!(record, token_record);
}
