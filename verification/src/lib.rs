//! A stake-pool lottery escrow: players deposit funds to purchase tickets,
//! an authority periodically drafts winners by proving ticket membership
//! against a committed Merkle root, and winners are paid from a shared vault.
//!
//! The heart of the crate is a model of the ledger platform's record store
//! (`ledger`) together with one transition function per instruction
//! (`process_*`). Each transition validates its preconditions, mutates the
//! records, and is specified exactly by a spec-level transition function.
//! The instruction router (`processor`) decodes a binary instruction and
//! commits the transition atomically: a failed instruction leaves the ledger
//! untouched.

pub mod codec;
pub mod error;
pub mod intake;
pub mod laws;
pub mod ledger;
pub mod merkle;
pub mod pda;
pub mod process_close_player_account;
pub mod process_deposit;
pub mod process_draft;
pub mod process_player_withdraw;
pub mod process_pool_initialization;
pub mod process_purchase_ticket;
pub mod processor;
pub mod state;
