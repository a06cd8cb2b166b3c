//! Seed labels, error messages and the intake service's data.

use solana_lottery_program::error::LotteryError;
use solana_lottery_program::intake::{CreateTicketInput, TicketStatus};
use solana_lottery_program::state::PoolStorageSeed;

#[test]
fn seed_labels_spell_their_names() {
    assert_eq!(PoolStorageSeed::StakePool.as_bytes(), b"StakePool".to_vec());
    assert_eq!(PoolStorageSeed::ReceiptMint.as_bytes(), b"ReceiptMint".to_vec());
    assert_eq!(PoolStorageSeed::StakeHouse.as_bytes(), b"StakeHouse".to_vec());
    assert_eq!(PoolStorageSeed::PlayerAccount.as_bytes(), b"PlayerAccount".to_vec());
    assert_eq!(
        PoolStorageSeed::PlayerTokenAccount.as_bytes(),
        b"PlayerTokenAccount".to_vec()
    );
}

#[test]
fn error_messages_name_their_cause() {
    assert_eq!(LotteryError::InvalidTicket.message(), "invalid ticket");
    assert_eq!(LotteryError::InsufficientFunds.message(), "insufficient funds");
    assert_eq!(
        LotteryError::AccountAlreadyInitialized.message(),
        "the record is already initialized"
    );
}

#[test]
fn ticket_status_names_persist() {
    assert_eq!(TicketStatus::PendingCreation.as_str(), "PendingCreation");
    assert_eq!(TicketStatus::Created.as_str(), "Created");
    assert_eq!(TicketStatus::Win.as_str(), "Win");
    assert_eq!(TicketStatus::Loss.as_str(), "Loss");
}

#[test]
fn intake_bundles_its_inputs() {
    let input = CreateTicketInput::new(String::from("player-address"), vec![[1, 2, 3, 4, 5, 6]]);
    assert_eq!(input.address, "player-address");
    assert_eq!(input.lucky_draft, vec![[1, 2, 3, 4, 5, 6]]);
}

#[test]
fn intake_merkle_helpers_are_stubs() {
    let input = CreateTicketInput::new(String::from("x"), Vec::new());
    assert_eq!(input.create_merkle_hash(), "");
    assert_eq!(input.get_merkle_root(), Vec::<u8>::new());
}
