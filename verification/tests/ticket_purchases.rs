//! Ticket purchases: record creation, overwriting, payment and receipts.

use solana_lottery_program::codec::encode_instruction;
use solana_lottery_program::error::LotteryError;
use solana_lottery_program::ledger::{Ledger, RecordData, RentFloors};
use solana_lottery_program::pda::{
    find_player_pda_account, find_player_token_pda_account, find_stake_pool_mint_pda,
    find_stake_pool_vault_pda,
};
use solana_lottery_program::processor::{processor, InstructionAccounts};
use solana_lottery_program::state::{Instruction, PoolStorageData, TicketAccountData};

const PROGRAM_ID: [u8; 32] = [7; 32];
const TOKEN_PROGRAM_ID: [u8; 32] = [8; 32];
const AUTHORITY: [u8; 32] = [1; 32];
const PLAYER: [u8; 32] = [2; 32];

fn accounts() -> InstructionAccounts {
    let (vault, _) = find_stake_pool_vault_pda(&PROGRAM_ID, &AUTHORITY).unwrap();
    let (mint, _) = find_stake_pool_mint_pda(&PROGRAM_ID, &AUTHORITY).unwrap();
    let (player_record, _) = find_player_pda_account(&PROGRAM_ID, &PLAYER).unwrap();
    let (player_token_record, _) = find_player_token_pda_account(&PROGRAM_ID, &PLAYER).unwrap();
    InstructionAccounts {
        authority: AUTHORITY,
        authority_signed: true,
        player: PLAYER,
        player_signed: true,
        vault,
        mint,
        player_record,
        player_token_record,
    }
}

fn initialized_ledger() -> (Ledger, InstructionAccounts) {
    let mut ledger = Ledger::new(
        PROGRAM_ID,
        TOKEN_PROGRAM_ID,
        RentFloors { pool_record: 1_000, mint_record: 800, ticket_record: 600, token_record: 400 },
    );
    let accounts = accounts();
    ledger.fund_wallet(&AUTHORITY, 10_000_000_000).unwrap();
    let init = encode_instruction(&Instruction::InitializePool(PoolStorageData {
        ticket_price: 50_000_000,
        draft_count: 0,
        vault_balance_floor: 200_000_000,
    }));
    processor(&mut ledger, &accounts, &init).unwrap();
    (ledger, accounts)
}

fn purchase(merkle_root: [u8; 32], total_tickets: u64) -> Vec<u8> {
    encode_instruction(&Instruction::PurchaseTicket(TicketAccountData {
        merkle_root,
        total_tickets,
    }))
}

#[test]
fn ticket_purchase() {
    let (mut ledger, accounts) = initialized_ledger();
    ledger.fund_wallet(&PLAYER, 1_000_000_000).unwrap();
    let vault_start = ledger.record_at_address(&accounts.vault).unwrap().lamports;

    processor(&mut ledger, &accounts, &purchase([0; 32], 1)).unwrap();

    let record = ledger.record_at_address(&accounts.player_record).unwrap();
    match record.data {
        RecordData::Ticket(t) => {
            assert_eq!(t.merkle_root, [0; 32]);
            assert_eq!(t.total_tickets, 1);
            assert_eq!(t.escrowed_balance, 50_000_000);
        },
        _ => panic!("the player record must hold ticket data"),
    }
    let receipt = ledger.record_at_address(&accounts.player_token_record).unwrap();
    match receipt.data {
        RecordData::TokenAccount(t) => assert_eq!(t.amount, 1),
        _ => panic!("the receipt record must hold a token balance"),
    }
    let vault_mid = ledger.record_at_address(&accounts.vault).unwrap().lamports;
    assert_eq!(vault_mid, vault_start + 50_000_000);

    // A second purchase replaces the committed root whole and adds a receipt.
    processor(&mut ledger, &accounts, &purchase([1; 32], 2)).unwrap();

    let record = ledger.record_at_address(&accounts.player_record).unwrap();
    match record.data {
        RecordData::Ticket(t) => {
            assert_eq!(t.merkle_root, [1; 32]);
            assert_eq!(t.total_tickets, 2);
            assert_eq!(t.escrowed_balance, 100_000_000);
        },
        _ => panic!("the player record must hold ticket data"),
    }
    let receipt = ledger.record_at_address(&accounts.player_token_record).unwrap();
    match receipt.data {
        RecordData::TokenAccount(t) => assert_eq!(t.amount, 2),
        _ => panic!("the receipt record must hold a token balance"),
    }
    let vault_end = ledger.record_at_address(&accounts.vault).unwrap().lamports;
    assert_eq!(vault_end, vault_mid + 50_000_000);

    let mint = ledger.record_at_address(&accounts.mint).unwrap();
    match mint.data {
        RecordData::Mint(state) => assert_eq!(state.supply, 2),
        _ => panic!("the mint record must hold mint data"),
    }
}

#[test]
fn purchase_reads_back_exactly_what_was_committed() {
    let (mut ledger, accounts) = initialized_ledger();
    ledger.fund_wallet(&PLAYER, 1_000_000_000).unwrap();
    let root = [0xAB; 32];
    processor(&mut ledger, &accounts, &purchase(root, 17)).unwrap();
    let record = ledger.record_at_address(&accounts.player_record).unwrap();
    match record.data {
        RecordData::Ticket(t) => {
            assert_eq!(t.merkle_root, root);
            assert_eq!(t.total_tickets, 17);
        },
        _ => panic!("the player record must hold ticket data"),
    }
}

#[test]
fn purchase_requires_player_signature() {
    let (mut ledger, mut accounts) = initialized_ledger();
    accounts.player_signed = false;
    ledger.fund_wallet(&PLAYER, 1_000_000_000).unwrap();
    let r = processor(&mut ledger, &accounts, &purchase([0; 32], 1));
    assert_eq!(r, Err(LotteryError::MissingRequiredSignature));
}

#[test]
fn purchase_without_pool_fails() {
    let mut ledger = Ledger::new(
        PROGRAM_ID,
        TOKEN_PROGRAM_ID,
        RentFloors { pool_record: 1_000, mint_record: 800, ticket_record: 600, token_record: 400 },
    );
    let accounts = accounts();
    ledger.fund_wallet(&PLAYER, 1_000_000_000).unwrap();
    let r = processor(&mut ledger, &accounts, &purchase([0; 32], 1));
    assert_eq!(r, Err(LotteryError::StakePoolNotInitialized));
}

#[test]
fn purchase_rejects_wrong_player_record_address() {
    let (mut ledger, mut accounts) = initialized_ledger();
    accounts.player_record = [9; 32];
    ledger.fund_wallet(&PLAYER, 1_000_000_000).unwrap();
    let r = processor(&mut ledger, &accounts, &purchase([0; 32], 1));
    assert_eq!(r, Err(LotteryError::InvalidPlayerPdaAccount));
}

#[test]
fn purchase_rolls_back_when_player_cannot_pay_the_price() {
    let (mut ledger, accounts) = initialized_ledger();
    // Enough for the two record floors, not for the ticket price.
    ledger.fund_wallet(&PLAYER, 2_000).unwrap();
    let before = format!("{:?}", ledger);
    let r = processor(&mut ledger, &accounts, &purchase([0; 32], 1));
    assert_eq!(r, Err(LotteryError::InsufficientFunds));
    assert_eq!(format!("{:?}", ledger), before);
}
