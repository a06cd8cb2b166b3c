//! Data of the off-chain ticket intake service.
//!
//! The intake service receives a player's chosen numbers, stores them, and
//! is meant to publish the Merkle root of the player's ticket set. Its
//! hashing is an acknowledged stub: the merkle helpers return empty values.
//! The storage and transport around these types live outside the library.

use vstd::prelude::*;

verus! {

/// One drawn combination: six numbers.
pub type LuckyDraft = [u8; 6];

/// Lifecycle of a stored ticket.
#[derive(Clone, Copy, Debug, PartialEq, Eq, Structural)]
pub enum TicketStatus {
    /// Saved, not yet committed on the ledger.
    PendingCreation,
    /// Committed on the ledger.
    Created,
    /// Drawn as a winner.
    Win,
    /// Not drawn.
    Loss,
}

impl TicketStatus {
    /// The status name, as it is persisted.
    pub fn as_str(&self) -> (r: &'static str)
    {
        match self {
            TicketStatus::PendingCreation => "PendingCreation",
            TicketStatus::Created => "Created",
            TicketStatus::Win => "Win",
            TicketStatus::Loss => "Loss",
        }
    }
}

/// A stored ticket row.
pub struct TicketEntity {
    /// Row identifier.
    pub id: String,
    /// The player's ledger identity, in text.
    pub address: String,
    /// Hex Merkle hash of the ticket set.
    pub merkle_hash: String,
    /// Lifecycle state.
    pub status: TicketStatus,
    /// The drawn combinations.
    pub lucky_draft: Vec<LuckyDraft>,
    /// Creation timestamp, in text.
    pub created_at: String,
    /// Last-update timestamp, in text.
    pub updated_at: String,
}

/// What a save returns to the caller: the Merkle root to commit on the
/// ledger.
pub struct SaveTicketResponse {
    /// The root bytes; empty while the hashing is a stub.
    pub merkle_root: Vec<u8>,
}

/// A request to store a player's chosen numbers.
pub struct CreateTicketInput {
    /// The player's ledger identity, in text.
    pub address: String,
    /// The drawn combinations.
    pub lucky_draft: Vec<LuckyDraft>,
}

impl CreateTicketInput {
    /// Bundle an address and its drawn combinations.
    pub fn new(address: String, lucky_draft: Vec<LuckyDraft>) -> (r: CreateTicketInput)
        ensures
            r.address@ == address@,
            r.lucky_draft@ == lucky_draft@,
    {
        CreateTicketInput { address, lucky_draft }
    }

    /// The hex Merkle hash of the ticket set; the hashing is a stub and
    /// returns the empty string.
    pub fn create_merkle_hash(&self) -> (r: String)
        ensures
            r@ == Seq::<char>::empty(),
    {
        String::new()
    }

    /// The Merkle root of the ticket set; the hashing is a stub and returns
    /// no bytes.
    pub fn get_merkle_root(&self) -> (r: Vec<u8>)
        ensures
            r@ == Seq::<u8>::empty(),
    {
        Vec::new()
    }
}

/// Errors of the intake service.
#[derive(Clone, Copy, Debug, PartialEq, Eq, Structural)]
pub enum AppError {
    /// The request could not be served.
    ServerError,
}

impl AppError {
    /// A human-readable description of the error.
    pub fn message(&self) -> (r: &'static str)
    {
        match self {
            AppError::ServerError => "Server error",
        }
    }
}

} // verus!
