//! Deterministic record addressing.
//!
//! Every record of the program lives at an address derived from a seed
//! label, an owner identity and the program identity. The derivation itself
//! is the platform's one-way function; this module wraps it and gives each
//! seed label its `find_*` helper.

use vstd::prelude::*;

use crate::state::{spec_seed_bytes, PoolStorageSeed};

verus! {

/// What the platform's address derivation returns for the given seed label,
/// owner identity and program identity: a reproducible address plus the
/// disambiguation nonce, or nothing in the statistically improbable event
/// that no nonce works.
pub uninterp spec fn derived_program_address(
    seed: Seq<u8>,
    owner: Seq<u8>,
    program_id: Seq<u8>,
) -> Option<([u8; 32], u8)>;

/// Relies on `solana_program::pubkey::Pubkey::try_find_program_address`:
/// the derived address and nonce are a function of the seeds and the
/// program identity alone, and `None` is returned when no nonce works.
#[verifier::external_body]
fn try_find_program_address_raw(seed: &Vec<u8>, owner: &[u8; 32], program_id: &[u8; 32]) -> (r:
    Option<([u8; 32], u8)>)
    ensures
        r == derived_program_address(seed@, owner@, program_id@),
{
    let program = solana_program::pubkey::Pubkey::new_from_array(*program_id);
    solana_program::pubkey::Pubkey::try_find_program_address(
        &[seed.as_slice(), owner.as_slice()],
        &program,
    ).map(|(address, nonce)| (address.to_bytes(), nonce))
}

/// The derived stake-pool vault address of an authority.
pub open spec fn spec_vault_pda(program_id: [u8; 32], authority: [u8; 32]) -> Option<
    ([u8; 32], u8),
> {
    derived_program_address(
        spec_seed_bytes(PoolStorageSeed::StakePool),
        authority@,
        program_id@,
    )
}

/// The derived receipt-mint address of an authority.
pub open spec fn spec_mint_pda(program_id: [u8; 32], authority: [u8; 32]) -> Option<
    ([u8; 32], u8),
> {
    derived_program_address(
        spec_seed_bytes(PoolStorageSeed::ReceiptMint),
        authority@,
        program_id@,
    )
}

/// The derived ticket-record address of a player.
pub open spec fn spec_player_pda(program_id: [u8; 32], player: [u8; 32]) -> Option<([u8; 32], u8)> {
    derived_program_address(
        spec_seed_bytes(PoolStorageSeed::PlayerAccount),
        player@,
        program_id@,
    )
}

/// The derived receipt-balance address of a player.
pub open spec fn spec_player_token_pda(program_id: [u8; 32], player: [u8; 32]) -> Option<
    ([u8; 32], u8),
> {
    derived_program_address(
        spec_seed_bytes(PoolStorageSeed::PlayerTokenAccount),
        player@,
        program_id@,
    )
}

/// Derive the stake-pool vault address of `pool_authority_address`.
pub fn find_stake_pool_vault_pda(program_id: &[u8; 32], pool_authority_address: &[u8; 32]) -> (r:
    Option<([u8; 32], u8)>)
    ensures
        r == spec_vault_pda(*program_id, *pool_authority_address),
{
    let seed = PoolStorageSeed::StakePool.as_bytes();
    try_find_program_address_raw(&seed, pool_authority_address, program_id)
}

/// Derive the receipt-mint address of `pool_authority_address`.
pub fn find_stake_pool_mint_pda(program_id: &[u8; 32], pool_authority_address: &[u8; 32]) -> (r:
    Option<([u8; 32], u8)>)
    ensures
        r == spec_mint_pda(*program_id, *pool_authority_address),
{
    let seed = PoolStorageSeed::ReceiptMint.as_bytes();
    try_find_program_address_raw(&seed, pool_authority_address, program_id)
}

/// Derive the ticket-record address of `player_account`.
pub fn find_player_pda_account(program_id: &[u8; 32], player_account: &[u8; 32]) -> (r: Option<
    ([u8; 32], u8),
>)
    ensures
        r == spec_player_pda(*program_id, *player_account),
{
    let seed = PoolStorageSeed::PlayerAccount.as_bytes();
    try_find_program_address_raw(&seed, player_account, program_id)
}

/// Derive the receipt-balance address of `player_account`.
pub fn find_player_token_pda_account(program_id: &[u8; 32], player_account: &[u8; 32]) -> (r:
    Option<([u8; 32], u8)>)
    ensures
        r == spec_player_token_pda(*program_id, *player_account),
{
    let seed = PoolStorageSeed::PlayerTokenAccount.as_bytes();
    try_find_program_address_raw(&seed, player_account, program_id)
}

} // verus!
