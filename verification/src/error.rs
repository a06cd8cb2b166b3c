//! The domain errors of the lottery program.
//!
//! Every validation failure aborts the current instruction with one of these
//! errors and no partial state change; the router rolls the ledger back.

use vstd::prelude::*;

verus! {

/// Terminal error of an instruction. Each variant names the validation that
/// failed; none of them is retried internally.
#[derive(Clone, Copy, Debug, PartialEq, Eq, Structural)]
pub enum LotteryError {
    /// A record that must be owned by this program is owned by someone else.
    IncorrectOwner,
    /// A placeholder instruction variant was invoked.
    NotImplemented,
    /// The claimed stake-pool address does not match the derived one.
    InvalidStakePoolVault,
    /// A balance check failed: a payment, payout, burn or allocation would
    /// draw more than is available.
    InsufficientFunds,
    /// The receipt mint (and with it the pool) has not been initialized yet.
    StakePoolNotInitialized,
    /// The claimed player record address does not match the derived one.
    InvalidPlayerPdaAccount,
    /// The pool authority did not sign the instruction.
    AuthorityMustSign,
    /// The player did not sign the instruction.
    InvalidSigner,
    /// A record that the instruction needs is missing or of the wrong kind.
    InvalidAccount,
    /// A Merkle proof did not verify against the player's committed root.
    InvalidTicket,
    /// A required signature is missing.
    MissingRequiredSignature,
    /// The deposit target is not a vault of this program.
    IllegalOwner,
    /// A record was found where an empty address was required.
    AccountAlreadyInitialized,
    /// A balance update would overflow its 64-bit counter.
    Overflow,
    /// The instruction bytes are not a valid encoding of any instruction.
    InvalidInstruction,
}

impl LotteryError {
    /// A human-readable description of the error.
    pub fn message(&self) -> (r: &'static str)
    {
        match self {
            LotteryError::IncorrectOwner => "incorrect owner set",
            LotteryError::NotImplemented => "not implemented yet",
            LotteryError::InvalidStakePoolVault => "invalid stake pool vault",
            LotteryError::InsufficientFunds => "insufficient funds",
            LotteryError::StakePoolNotInitialized => "the stake pool is not initialized",
            LotteryError::InvalidPlayerPdaAccount => "invalid player record address",
            LotteryError::AuthorityMustSign => "the authority must sign the transaction",
            LotteryError::InvalidSigner => "invalid signer",
            LotteryError::InvalidAccount => "invalid account",
            LotteryError::InvalidTicket => "invalid ticket",
            LotteryError::MissingRequiredSignature => "a required signature is missing",
            LotteryError::IllegalOwner => "the vault is not owned by this program",
            LotteryError::AccountAlreadyInitialized => "the record is already initialized",
            LotteryError::Overflow => "a balance counter would overflow",
            LotteryError::InvalidInstruction => "malformed instruction encoding",
        }
    }
}

} // verus!
