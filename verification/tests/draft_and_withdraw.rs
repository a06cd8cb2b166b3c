//! Drafts, withdrawals and account closure.

use rs_merkle::algorithms::Sha256;
use rs_merkle::{Hasher, MerkleTree};

use solana_lottery_program::codec::encode_instruction;
use solana_lottery_program::error::LotteryError;
use solana_lottery_program::ledger::{Ledger, RecordData, RentFloors};
use solana_lottery_program::pda::{
    find_player_pda_account, find_player_token_pda_account, find_stake_pool_mint_pda,
    find_stake_pool_vault_pda,
};
use solana_lottery_program::processor::{processor, InstructionAccounts};
use solana_lottery_program::state::{DraftWinner, Instruction, PoolStorageData, TicketAccountData};

const PROGRAM_ID: [u8; 32] = [7; 32];
const TOKEN_PROGRAM_ID: [u8; 32] = [8; 32];
const AUTHORITY: [u8; 32] = [1; 32];
const PLAYER: [u8; 32] = [2; 32];

fn accounts() -> InstructionAccounts {
    let (vault, _) = find_stake_pool_vault_pda(&PROGRAM_ID, &AUTHORITY).unwrap();
    let (mint, _) = find_stake_pool_mint_pda(&PROGRAM_ID, &AUTHORITY).unwrap();
    let (player_record, _) = find_player_pda_account(&PROGRAM_ID, &PLAYER).unwrap();
    let (player_token_record, _) = find_player_token_pda_account(&PROGRAM_ID, &PLAYER).unwrap();
    InstructionAccounts {
        authority: AUTHORITY,
        authority_signed: true,
        player: PLAYER,
        player_signed: true,
        vault,
        mint,
        player_record,
        player_token_record,
    }
}

/// A ledger with an initialized pool, a funded vault, and one player who
/// purchased a ticket committing the sample tree's root. Returns the ledger,
/// the accounts, and a valid draft claim for the two winning leaves.
fn drafted_setup() -> (Ledger, InstructionAccounts, DraftWinner) {
    let mut ledger = Ledger::new(
        PROGRAM_ID,
        TOKEN_PROGRAM_ID,
        RentFloors { pool_record: 1_000, mint_record: 800, ticket_record: 600, token_record: 400 },
    );
    let accounts = accounts();
    ledger.fund_wallet(&AUTHORITY, 10_000_000_000).unwrap();
    let init = encode_instruction(&Instruction::InitializePool(PoolStorageData {
        ticket_price: 50_000_000,
        draft_count: 0,
        vault_balance_floor: 200_000_000,
    }));
    processor(&mut ledger, &accounts, &init).unwrap();

    let tickets = ["0", "1", "3", "6", "2", "6"];
    let leaves: Vec<[u8; 32]> = tickets.iter().map(|t| Sha256::hash(t.as_bytes())).collect();
    let indices = vec![4usize, 5];
    let tree = MerkleTree::<Sha256>::from_leaves(&leaves);
    let root = tree.root().expect("unable to get the root");

    ledger.fund_wallet(&PLAYER, 1_000_000_000).unwrap();
    let buy = encode_instruction(&Instruction::PurchaseTicket(TicketAccountData {
        merkle_root: root,
        total_tickets: leaves.len() as u64,
    }));
    processor(&mut ledger, &accounts, &buy).unwrap();

    let winner = DraftWinner {
        amount: 100_000_000,
        proof: tree.proof(&indices).to_bytes(),
        ticket_indices: indices.iter().map(|&i| i as u64).collect(),
        tickets: indices.iter().map(|&i| leaves[i]).collect(),
        address: PLAYER,
        token_account: accounts.player_token_record,
    };
    (ledger, accounts, winner)
}

fn draft(winner: &DraftWinner) -> Vec<u8> {
    encode_instruction(&Instruction::SelectWinnersAndAirdrop(vec![winner.clone()]))
}

#[test]
fn can_select_winners_and_widthdraw_prize() {
    let (mut ledger, accounts, winner) = drafted_setup();
    let vault_before = ledger.record_at_address(&accounts.vault).unwrap().lamports;
    let player_before = ledger.wallet_balance_at(&PLAYER);

    processor(&mut ledger, &accounts, &draft(&winner)).unwrap();

    // The winner was paid from the vault and one receipt was burned.
    let vault_after = ledger.record_at_address(&accounts.vault).unwrap().lamports;
    assert_eq!(vault_after, vault_before - 100_000_000);
    assert_eq!(ledger.wallet_balance_at(&PLAYER), player_before + 100_000_000);
    let receipt = ledger.record_at_address(&accounts.player_token_record).unwrap();
    match receipt.data {
        RecordData::TokenAccount(t) => assert_eq!(t.amount, 0),
        _ => panic!("the receipt record must hold a token balance"),
    }
    let vault = ledger.record_at_address(&accounts.vault).unwrap();
    match vault.data {
        RecordData::Pool(pool) => assert_eq!(pool.draft_count, 1),
        _ => panic!("the vault record must hold pool data"),
    }

    // The player draws down their escrowed balance.
    let wallet_before = ledger.wallet_balance_at(&PLAYER);
    let withdraw = encode_instruction(&Instruction::Withdraw(50_000_000));
    processor(&mut ledger, &accounts, &withdraw).unwrap();
    assert_eq!(ledger.wallet_balance_at(&PLAYER), wallet_before + 50_000_000);

    // With the receipt burned and the escrow drained, the records close.
    let close = encode_instruction(&Instruction::ClosePlayerAccount);
    processor(&mut ledger, &accounts, &close).unwrap();
    assert!(ledger.record_at_address(&accounts.player_record).is_none());
    assert!(ledger.record_at_address(&accounts.player_token_record).is_none());
}

#[test]
fn draft_pays_winner_and_burns_receipt() {
    let (mut ledger, accounts, winner) = drafted_setup();
    let vault_before = ledger.record_at_address(&accounts.vault).unwrap().lamports;
    let player_before = ledger.wallet_balance_at(&PLAYER);

    processor(&mut ledger, &accounts, &draft(&winner)).unwrap();

    assert_eq!(
        ledger.record_at_address(&accounts.vault).unwrap().lamports,
        vault_before - 100_000_000
    );
    assert_eq!(ledger.wallet_balance_at(&PLAYER), player_before + 100_000_000);
    match ledger.record_at_address(&accounts.player_token_record).unwrap().data {
        RecordData::TokenAccount(t) => assert_eq!(t.amount, 0),
        _ => panic!("the receipt record must hold a token balance"),
    }
    match ledger.record_at_address(&accounts.vault).unwrap().data {
        RecordData::Pool(pool) => assert_eq!(pool.draft_count, 1),
        _ => panic!("the vault record must hold pool data"),
    }
}

#[test]
fn draft_with_tampered_proof_rolls_everything_back() {
    let (mut ledger, accounts, mut winner) = drafted_setup();
    winner.proof[3] ^= 0x40;
    let before = format!("{:?}", ledger);

    let r = processor(&mut ledger, &accounts, &draft(&winner));

    assert_eq!(r, Err(LotteryError::InvalidTicket));
    // Vault balance, winner balance and draft count are all untouched.
    assert_eq!(format!("{:?}", ledger), before);
    match ledger.record_at_address(&accounts.vault).unwrap().data {
        RecordData::Pool(pool) => assert_eq!(pool.draft_count, 0),
        _ => panic!("the vault record must hold pool data"),
    }
}

#[test]
fn draft_exceeding_vault_balance_fails() {
    let (mut ledger, accounts, mut winner) = drafted_setup();
    let vault_before = ledger.record_at_address(&accounts.vault).unwrap().lamports;
    winner.amount = vault_before + 1;
    let before = format!("{:?}", ledger);

    let r = processor(&mut ledger, &accounts, &draft(&winner));

    assert_eq!(r, Err(LotteryError::InsufficientFunds));
    assert_eq!(format!("{:?}", ledger), before);
}

#[test]
fn failed_second_winner_rolls_back_the_first_payout() {
    let (mut ledger, accounts, winner) = drafted_setup();
    let mut bad = winner.clone();
    bad.amount = 1_000_000;
    bad.proof[0] ^= 0x01;
    let before = format!("{:?}", ledger);

    let instruction =
        encode_instruction(&Instruction::SelectWinnersAndAirdrop(vec![winner, bad]));
    let r = processor(&mut ledger, &accounts, &instruction);

    assert_eq!(r, Err(LotteryError::InvalidTicket));
    assert_eq!(format!("{:?}", ledger), before);
}

#[test]
fn draft_requires_authority_signature() {
    let (mut ledger, mut accounts, winner) = drafted_setup();
    accounts.authority_signed = false;
    let r = processor(&mut ledger, &accounts, &draft(&winner));
    assert_eq!(r, Err(LotteryError::AuthorityMustSign));
}

#[test]
fn draft_on_foreign_vault_fails() {
    let (mut ledger, accounts, winner) = drafted_setup();
    // A draft against a vault address holding no record of this program.
    let mut foreign = accounts;
    foreign.vault = [9; 32];
    let r = processor(&mut ledger, &foreign, &draft(&winner));
    assert_eq!(r, Err(LotteryError::IncorrectOwner));
}

#[test]
fn withdraw_more_than_escrowed_fails() {
    let (mut ledger, accounts, _) = drafted_setup();
    // The single purchase escrowed exactly one ticket price.
    let withdraw = encode_instruction(&Instruction::Withdraw(50_000_001));
    let before = format!("{:?}", ledger);
    let r = processor(&mut ledger, &accounts, &withdraw);
    assert_eq!(r, Err(LotteryError::InsufficientFunds));
    assert_eq!(format!("{:?}", ledger), before);
}

#[test]
fn withdraw_within_escrow_succeeds() {
    let (mut ledger, accounts, _) = drafted_setup();
    let wallet_before = ledger.wallet_balance_at(&PLAYER);
    let withdraw = encode_instruction(&Instruction::Withdraw(20_000_000));
    processor(&mut ledger, &accounts, &withdraw).unwrap();
    assert_eq!(ledger.wallet_balance_at(&PLAYER), wallet_before + 20_000_000);
    match ledger.record_at_address(&accounts.player_record).unwrap().data {
        RecordData::Ticket(t) => assert_eq!(t.escrowed_balance, 30_000_000),
        _ => panic!("the player record must hold ticket data"),
    }
}

#[test]
fn close_keeps_receipt_record_with_unredeemed_receipts() {
    let (mut ledger, accounts, _) = drafted_setup();
    // The receipt balance is still 1: the token record must survive, the
    // ticket record is reclaimed.
    let wallet_before = ledger.wallet_balance_at(&PLAYER);
    let close = encode_instruction(&Instruction::ClosePlayerAccount);
    processor(&mut ledger, &accounts, &close).unwrap();
    assert!(ledger.record_at_address(&accounts.player_record).is_none());
    assert!(ledger.record_at_address(&accounts.player_token_record).is_some());
    // Ticket-record floor plus the escrowed balance come back to the player.
    assert_eq!(ledger.wallet_balance_at(&PLAYER), wallet_before + 600 + 50_000_000);
}

#[test]
fn close_without_records_fails() {
    let mut ledger = Ledger::new(
        PROGRAM_ID,
        TOKEN_PROGRAM_ID,
        RentFloors { pool_record: 1_000, mint_record: 800, ticket_record: 600, token_record: 400 },
    );
    let accounts = accounts();
    let close = encode_instruction(&Instruction::ClosePlayerAccount);
    let r = processor(&mut ledger, &accounts, &close);
    assert_eq!(r, Err(LotteryError::InvalidAccount));
}

#[test]
fn close_requires_player_signature() {
    let (mut ledger, mut accounts, _) = drafted_setup();
    accounts.player_signed = false;
    let close = encode_instruction(&Instruction::ClosePlayerAccount);
    let r = processor(&mut ledger, &accounts, &close);
    assert_eq!(r, Err(LotteryError::InvalidSigner));
}
