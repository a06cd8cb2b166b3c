//! Instruction payloads and persisted record layouts of the lottery program.

use vstd::prelude::*;

verus! {

/// Payload of a ticket purchase: the player's freshly recomputed Merkle root
/// over their whole ticket set, and the size of that set. Each purchase fully
/// replaces the values stored in the player's record.
#[derive(Clone, Copy, Debug, PartialEq, Eq)]
pub struct TicketAccountData {
    /// The Merkle root of the player's ticket set, computed off-chain.
    pub merkle_root: [u8; 32],
    /// The number of leaves of the tree behind `merkle_root`.
    pub total_tickets: u64,
}

/// Encoded size in bytes of a [`TicketAccountData`] payload.
pub const TICKET_ACCOUNT_DATA_SIZE: u32 = 40;

/// The pool record kept in the stake-pool vault: the price of one ticket,
/// how many drafts have been executed, and the amount the vault was opened
/// with. One per authority; `draft_count` only ever grows.
#[derive(Clone, Copy, Debug, PartialEq, Eq, Structural)]
pub struct PoolStorageData {
    /// Price in lamports of one ticket; the source of truth for purchases.
    pub ticket_price: u64,
    /// Number of drafts executed against this pool so far.
    pub draft_count: u64,
    /// The amount the vault was funded with at initialization, on top of the
    /// minimum-balance floor.
    pub vault_balance_floor: u64,
}

/// Encoded size in bytes of a [`PoolStorageData`] record.
pub const POOL_STORAGE_SIZE: u32 = 24;

/// One claimant of a draft: the payout amount, a Merkle proof that the named
/// leaves belong to the claimant's committed root, and the claimant's
/// identity and receipt-token record address.
#[derive(Clone, Debug, PartialEq, Eq)]
pub struct DraftWinner {
    /// Payout in lamports, drawn from the vault.
    pub amount: u64,
    /// Proof bytes: the sibling hashes of the audit path, 32 bytes each.
    pub proof: Vec<u8>,
    /// Positions of the proved leaves in the claimant's tree.
    pub ticket_indices: Vec<u64>,
    /// The leaf hashes being proved.
    pub tickets: Vec<[u8; 32]>,
    /// The winning player's identity; their ticket record sits at the
    /// address derived from it.
    pub address: [u8; 32],
    /// Address of the player's receipt-token balance record.
    pub token_account: [u8; 32],
}

/// The tagged instruction union. The discriminant is the position of the
/// variant, stable under the binary codec in [`crate::codec`].
#[derive(Clone, Debug, PartialEq, Eq)]
pub enum Instruction {
    /// Create the pool record and the receipt mint for an authority.
    /// `draft_count` in the payload is ignored: a new pool starts at zero.
    InitializePool(PoolStorageData),
    /// Transfer the given amount from the payer into the vault.
    Deposit(u64),
    /// Purchase one ticket: replace the player's committed root and ticket
    /// count, pay the ticket price into the vault, mint one receipt token.
    PurchaseTicket(TicketAccountData),
    /// Draw the given amount from the player's escrowed balance.
    Withdraw(u64),
    /// Execute a draft: pay each proved winner and burn their receipt.
    SelectWinnersAndAirdrop(Vec<DraftWinner>),
    /// Close the player's records and reclaim their balances.
    ClosePlayerAccount,
}

/// Seed labels for deterministic record addressing. Each label, combined
/// with an owner identity and the program identity, derives one record
/// address.
#[derive(Clone, Copy, Debug, PartialEq, Eq, Structural)]
pub enum PoolStorageSeed {
    /// The stake-pool vault record of an authority.
    StakePool,
    /// The receipt mint of an authority.
    ReceiptMint,
    /// The house pool; reserved, no record of this kind is created yet.
    StakeHouse,
    /// A player's ticket record.
    PlayerAccount,
    /// A player's receipt-token balance record.
    PlayerTokenAccount,
}

/// The byte string of a seed label, as a sequence.
pub open spec fn spec_seed_bytes(s: PoolStorageSeed) -> Seq<u8> {
    match s {
        PoolStorageSeed::StakePool => seq![83u8, 116, 97, 107, 101, 80, 111, 111, 108],
        PoolStorageSeed::ReceiptMint => seq![82u8, 101, 99, 101, 105, 112, 116, 77, 105, 110, 116],
        PoolStorageSeed::StakeHouse => seq![83u8, 116, 97, 107, 101, 72, 111, 117, 115, 101],
        PoolStorageSeed::PlayerAccount => seq![
            80u8, 108, 97, 121, 101, 114, 65, 99, 99, 111, 117, 110, 116,
        ],
        PoolStorageSeed::PlayerTokenAccount => seq![
            80u8, 108, 97, 121, 101, 114, 84, 111, 107, 101, 110, 65, 99, 99, 111, 117, 110, 116,
        ],
    }
}

impl PoolStorageSeed {
    /// The seed label as bytes, e.g. `StakePool` becomes `"StakePool"`.
    pub fn as_bytes(&self) -> (r: Vec<u8>)
        ensures
            r@ == spec_seed_bytes(*self),
    {
        let mut r: Vec<u8> = Vec::new();
        match self {
            PoolStorageSeed::StakePool => {
                r.push(83);
                r.push(116);
                r.push(97);
                r.push(107);
                r.push(101);
                r.push(80);
                r.push(111);
                r.push(111);
                r.push(108);
            },
            PoolStorageSeed::ReceiptMint => {
                r.push(82);
                r.push(101);
                r.push(99);
                r.push(101);
                r.push(105);
                r.push(112);
                r.push(116);
                r.push(77);
                r.push(105);
                r.push(110);
                r.push(116);
            },
            PoolStorageSeed::StakeHouse => {
                r.push(83);
                r.push(116);
                r.push(97);
                r.push(107);
                r.push(101);
                r.push(72);
                r.push(111);
                r.push(117);
                r.push(115);
                r.push(101);
            },
            PoolStorageSeed::PlayerAccount => {
                r.push(80);
                r.push(108);
                r.push(97);
                r.push(121);
                r.push(101);
                r.push(114);
                r.push(65);
                r.push(99);
                r.push(99);
                r.push(111);
                r.push(117);
                r.push(110);
                r.push(116);
            },
            PoolStorageSeed::PlayerTokenAccount => {
                r.push(80);
                r.push(108);
                r.push(97);
                r.push(121);
                r.push(101);
                r.push(114);
                r.push(84);
                r.push(111);
                r.push(107);
                r.push(101);
                r.push(110);
                r.push(65);
                r.push(99);
                r.push(99);
                r.push(111);
                r.push(117);
                r.push(110);
                r.push(116);
            },
        }
        proof {
            assert(r@ =~= spec_seed_bytes(*self));
        }
        r
    }
}

/// The house pool; a placeholder with no state of its own yet.
#[derive(Clone, Copy, Debug, PartialEq, Eq, Structural)]
pub struct HousePoolStorage {}

} // verus!
