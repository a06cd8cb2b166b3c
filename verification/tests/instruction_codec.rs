//! The binary instruction codec: round trips, sizes and malformed input.

use solana_lottery_program::codec::{encode_instruction, parse_instruction};
use solana_lottery_program::error::LotteryError;
use solana_lottery_program::ledger::{Ledger, RentFloors};
use solana_lottery_program::processor::{processor, InstructionAccounts};
use solana_lottery_program::state::{
    DraftWinner, Instruction, PoolStorageData, TicketAccountData, POOL_STORAGE_SIZE,
    TICKET_ACCOUNT_DATA_SIZE,
};

fn round_trips(instruction: Instruction) {
    let bytes = encode_instruction(&instruction);
    assert_eq!(parse_instruction(&bytes), Some(instruction));
}

#[test]
fn initialize_pool_round_trips() {
    round_trips(Instruction::InitializePool(PoolStorageData {
        ticket_price: 50_000_000,
        draft_count: 3,
        vault_balance_floor: 7,
    }));
}

#[test]
fn deposit_round_trips() {
    round_trips(Instruction::Deposit(123_456_789));
}

#[test]
fn purchase_ticket_round_trips() {
    round_trips(Instruction::PurchaseTicket(TicketAccountData {
        merkle_root: [0xCD; 32],
        total_tickets: 42,
    }));
}

#[test]
fn withdraw_round_trips() {
    round_trips(Instruction::Withdraw(u64::MAX));
}

#[test]
fn close_player_account_round_trips() {
    round_trips(Instruction::ClosePlayerAccount);
}

#[test]
fn select_winners_round_trips() {
    let winners = vec![
        DraftWinner {
            amount: 100_000_000,
            proof: vec![1, 2, 3, 4, 5],
            ticket_indices: vec![4, 5],
            tickets: vec![[0x11; 32], [0x22; 32]],
            address: [3; 32],
            token_account: [4; 32],
        },
        DraftWinner {
            amount: 1,
            proof: Vec::new(),
            ticket_indices: Vec::new(),
            tickets: Vec::new(),
            address: [5; 32],
            token_account: [6; 32],
        },
    ];
    round_trips(Instruction::SelectWinnersAndAirdrop(winners));
}

#[test]
fn encoded_sizes_match_the_layout_constants() {
    let init = encode_instruction(&Instruction::InitializePool(PoolStorageData {
        ticket_price: 1,
        draft_count: 2,
        vault_balance_floor: 3,
    }));
    assert_eq!(init.len(), 1 + POOL_STORAGE_SIZE as usize);

    let buy = encode_instruction(&Instruction::PurchaseTicket(TicketAccountData {
        merkle_root: [9; 32],
        total_tickets: 1,
    }));
    assert_eq!(buy.len(), 1 + TICKET_ACCOUNT_DATA_SIZE as usize);
}

#[test]
fn deposit_encodes_little_endian_after_its_tag() {
    let bytes = encode_instruction(&Instruction::Deposit(0x0102030405060708));
    assert_eq!(bytes, vec![1, 0x08, 0x07, 0x06, 0x05, 0x04, 0x03, 0x02, 0x01]);
}

#[test]
fn malformed_encodings_are_rejected() {
    assert_eq!(parse_instruction(&Vec::new()), None);
    assert_eq!(parse_instruction(&vec![6]), None);
    assert_eq!(parse_instruction(&vec![1, 0, 0]), None);
    // A trailing byte after a whole payload is refused.
    let mut bytes = encode_instruction(&Instruction::Deposit(5));
    bytes.push(0);
    assert_eq!(parse_instruction(&bytes), None);
}

#[test]
fn router_rejects_malformed_bytes_before_any_component() {
    let mut ledger = Ledger::new(
        [7; 32],
        [8; 32],
        RentFloors { pool_record: 1, mint_record: 1, ticket_record: 1, token_record: 1 },
    );
    let accounts = InstructionAccounts {
        authority: [1; 32],
        authority_signed: true,
        player: [2; 32],
        player_signed: true,
        vault: [3; 32],
        mint: [4; 32],
        player_record: [5; 32],
        player_token_record: [6; 32],
    };
    let before = format!("{:?}", ledger);
    let r = processor(&mut ledger, &accounts, &vec![99, 1, 2]);
    assert_eq!(r, Err(LotteryError::InvalidInstruction));
    assert_eq!(format!("{:?}", ledger), before);
}
