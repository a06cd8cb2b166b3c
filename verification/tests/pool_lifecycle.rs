//! Pool initialization and deposits.

use solana_lottery_program::codec::encode_instruction;
use solana_lottery_program::error::LotteryError;
use solana_lottery_program::ledger::{Ledger, RecordData, RentFloors};
use solana_lottery_program::pda::{find_stake_pool_mint_pda, find_stake_pool_vault_pda};
use solana_lottery_program::processor::{processor, InstructionAccounts};
use solana_lottery_program::state::{Instruction, PoolStorageData};

const PROGRAM_ID: [u8; 32] = [7; 32];
const TOKEN_PROGRAM_ID: [u8; 32] = [8; 32];
const AUTHORITY: [u8; 32] = [1; 32];
const PLAYER: [u8; 32] = [2; 32];

fn new_ledger() -> Ledger {
    Ledger::new(
        PROGRAM_ID,
        TOKEN_PROGRAM_ID,
        RentFloors { pool_record: 1_000, mint_record: 800, ticket_record: 600, token_record: 400 },
    )
}

fn accounts() -> InstructionAccounts {
    let (vault, _) = find_stake_pool_vault_pda(&PROGRAM_ID, &AUTHORITY).unwrap();
    let (mint, _) = find_stake_pool_mint_pda(&PROGRAM_ID, &AUTHORITY).unwrap();
    InstructionAccounts {
        authority: AUTHORITY,
        authority_signed: true,
        player: PLAYER,
        player_signed: true,
        vault,
        mint,
        player_record: [0; 32],
        player_token_record: [0; 32],
    }
}

fn init_instruction(ticket_price: u64, initial_amount: u64) -> Vec<u8> {
    encode_instruction(&Instruction::InitializePool(PoolStorageData {
        ticket_price,
        draft_count: 0,
        vault_balance_floor: initial_amount,
    }))
}

#[test]
fn initialize_pool() {
    let mut ledger = new_ledger();
    let accounts = accounts();
    ledger.fund_wallet(&AUTHORITY, 10_000_000_000).unwrap();

    processor(&mut ledger, &accounts, &init_instruction(50_000_000, 200_000_000)).unwrap();

    let vault = ledger.record_at_address(&accounts.vault).unwrap();
    assert_eq!(vault.owner, PROGRAM_ID);
    match vault.data {
        RecordData::Pool(pool) => {
            assert_eq!(pool.ticket_price, 50_000_000);
            assert_eq!(pool.draft_count, 0);
            assert_eq!(pool.vault_balance_floor, 200_000_000);
        },
        _ => panic!("the vault record must hold pool data"),
    }
    assert_eq!(vault.lamports, 1_000 + 200_000_000);

    let mint = ledger.record_at_address(&accounts.mint).unwrap();
    assert_eq!(mint.owner, TOKEN_PROGRAM_ID);
    match mint.data {
        RecordData::Mint(state) => {
            assert_eq!(state.supply, 0);
            assert_eq!(state.decimals, 0);
            assert_eq!(state.mint_authority, accounts.mint);
        },
        _ => panic!("the mint record must hold mint data"),
    }

    assert_eq!(
        ledger.wallet_balance_at(&AUTHORITY),
        10_000_000_000 - 1_000 - 200_000_000 - 800
    );
}

#[test]
fn initialize_pool_twice_fails_without_mutation() {
    let mut ledger = new_ledger();
    let accounts = accounts();
    ledger.fund_wallet(&AUTHORITY, 10_000_000_000).unwrap();
    processor(&mut ledger, &accounts, &init_instruction(50_000_000, 200_000_000)).unwrap();

    let before = format!("{:?}", ledger);
    let second = processor(&mut ledger, &accounts, &init_instruction(60_000_000, 1));
    assert_eq!(second, Err(LotteryError::AccountAlreadyInitialized));
    assert_eq!(format!("{:?}", ledger), before);
}

#[test]
fn initialize_pool_still_fails_after_other_instructions() {
    let mut ledger = new_ledger();
    let accounts = accounts();
    ledger.fund_wallet(&AUTHORITY, 10_000_000_000).unwrap();
    processor(&mut ledger, &accounts, &init_instruction(50_000_000, 200_000_000)).unwrap();

    // The pool record survives deposits, so a later attempt still fails.
    ledger.fund_wallet(&PLAYER, 1_000_000_000).unwrap();
    let deposit = encode_instruction(&Instruction::Deposit(500_000_000));
    processor(&mut ledger, &accounts, &deposit).unwrap();

    let again = processor(&mut ledger, &accounts, &init_instruction(1, 1));
    assert_eq!(again, Err(LotteryError::AccountAlreadyInitialized));
}

#[test]
fn initialize_pool_needs_authority_signature() {
    let mut ledger = new_ledger();
    let mut accounts = accounts();
    accounts.authority_signed = false;
    ledger.fund_wallet(&AUTHORITY, 10_000_000_000).unwrap();
    let r = processor(&mut ledger, &accounts, &init_instruction(50_000_000, 0));
    assert_eq!(r, Err(LotteryError::AuthorityMustSign));
}

#[test]
fn initialize_pool_rejects_wrong_vault_address() {
    let mut ledger = new_ledger();
    let mut accounts = accounts();
    accounts.vault = [3; 32];
    ledger.fund_wallet(&AUTHORITY, 10_000_000_000).unwrap();
    let r = processor(&mut ledger, &accounts, &init_instruction(50_000_000, 0));
    assert_eq!(r, Err(LotteryError::InvalidStakePoolVault));
}

#[test]
fn initialize_pool_needs_funded_authority() {
    let mut ledger = new_ledger();
    let accounts = accounts();
    ledger.fund_wallet(&AUTHORITY, 10).unwrap();
    let r = processor(&mut ledger, &accounts, &init_instruction(50_000_000, 200_000_000));
    assert_eq!(r, Err(LotteryError::InsufficientFunds));
}

#[test]
fn deposit_moves_funds_into_vault() {
    let mut ledger = new_ledger();
    let accounts = accounts();
    ledger.fund_wallet(&AUTHORITY, 10_000_000_000).unwrap();
    processor(&mut ledger, &accounts, &init_instruction(50_000_000, 200_000_000)).unwrap();
    ledger.fund_wallet(&PLAYER, 1_000_000_000).unwrap();

    let vault_before = ledger.record_at_address(&accounts.vault).unwrap().lamports;
    let deposit = encode_instruction(&Instruction::Deposit(300_000_000));
    processor(&mut ledger, &accounts, &deposit).unwrap();

    let vault_after = ledger.record_at_address(&accounts.vault).unwrap().lamports;
    assert_eq!(vault_after, vault_before + 300_000_000);
    assert_eq!(ledger.wallet_balance_at(&PLAYER), 1_000_000_000 - 300_000_000);
}

#[test]
fn deposit_to_foreign_vault_is_illegal() {
    let mut ledger = new_ledger();
    let accounts = accounts();
    ledger.fund_wallet(&PLAYER, 1_000_000_000).unwrap();
    // No pool record exists at the claimed vault address.
    let deposit = encode_instruction(&Instruction::Deposit(1));
    let r = processor(&mut ledger, &accounts, &deposit);
    assert_eq!(r, Err(LotteryError::IllegalOwner));
}

#[test]
fn funding_a_wallet_past_the_counter_overflows() {
    let mut ledger = new_ledger();
    ledger.fund_wallet(&PLAYER, u64::MAX).unwrap();
    let r = ledger.fund_wallet(&PLAYER, 1);
    assert_eq!(r, Err(LotteryError::Overflow));
}
