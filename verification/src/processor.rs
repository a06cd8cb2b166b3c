//! The instruction router.
//!
//! [`processor`] decodes the instruction bytes, dispatches to the component
//! that handles the variant, and commits the transition atomically: it runs
//! the transition on a copy of the ledger, installs the copy only on
//! success, and leaves the ledger untouched on any failure — including the
//! draft-counter increment and partial payouts a failed draft had already
//! made.

use vstd::prelude::*;

use crate::codec::{instruction_view, parse_instruction, spec_parse_instruction};
use crate::error::LotteryError;
use crate::ledger::{Ledger, LedgerV, Record, Wallet};
use crate::process_close_player_account::{
    process_close_player_account, spec_process_close_player_account,
};
use crate::process_deposit::{process_deposit, spec_process_deposit};
use crate::process_draft::{process_draft, spec_process_draft};
use crate::process_player_withdraw::{process_player_withdraw, spec_process_player_withdraw};
use crate::process_pool_initialization::{
    process_pool_initialization, spec_process_pool_initialization,
};
use crate::process_purchase_ticket::{process_ticket_purchase, spec_process_ticket_purchase};
use crate::state::Instruction;

verus! {

/// The account addresses and signer flags an instruction runs with: what
/// the platform hands the program alongside the instruction bytes.
#[derive(Clone, Copy, Debug, PartialEq, Eq)]
pub struct InstructionAccounts {
    /// The pool authority's identity.
    pub authority: [u8; 32],
    /// Whether the authority signed the instruction.
    pub authority_signed: bool,
    /// The player or payer identity.
    pub player: [u8; 32],
    /// Whether the player signed the instruction.
    pub player_signed: bool,
    /// Claimed stake-pool vault address.
    pub vault: [u8; 32],
    /// Claimed receipt-mint address.
    pub mint: [u8; 32],
    /// Claimed player ticket-record address.
    pub player_record: [u8; 32],
    /// Claimed player receipt-balance address.
    pub player_token_record: [u8; 32],
}

/// The transition of one decoded instruction: the dispatch of the router,
/// before the atomic commit.
pub open spec fn spec_step(
    l: LedgerV,
    accounts: InstructionAccounts,
    instruction: Instruction,
) -> (LedgerV, Result<(), LotteryError>) {
    match instruction {
        Instruction::InitializePool(d) => spec_process_pool_initialization(
            l,
            accounts.authority,
            accounts.authority_signed,
            accounts.vault,
            accounts.mint,
            d,
        ),
        Instruction::Deposit(amount) => spec_process_deposit(
            l,
            accounts.player,
            accounts.vault,
            amount,
        ),
        Instruction::PurchaseTicket(t) => spec_process_ticket_purchase(
            l,
            accounts.player,
            accounts.player_signed,
            accounts.player_record,
            accounts.player_token_record,
            accounts.vault,
            accounts.mint,
            t,
        ),
        Instruction::Withdraw(amount) => spec_process_player_withdraw(
            l,
            accounts.player,
            accounts.player_signed,
            accounts.player_record,
            amount,
        ),
        Instruction::SelectWinnersAndAirdrop(ws) => spec_process_draft(
            l,
            accounts.authority,
            accounts.authority_signed,
            accounts.vault,
            accounts.mint,
            ws@,
        ),
        Instruction::ClosePlayerAccount => spec_process_close_player_account(
            l,
            accounts.player,
            accounts.player_signed,
            accounts.player_record,
            accounts.player_token_record,
        ),
    }
}

/// A deep copy of the ledger, equal to it as a value.
fn clone_ledger(ledger: &Ledger) -> (r: Ledger)
    ensures
        r@ == ledger@,
{
    let mut records: Vec<Record> = Vec::new();
    let mut i: usize = 0;
    while i < ledger.records.len()
        invariant
            i <= ledger.records@.len(),
            records@ == ledger.records@.subrange(0, i as int),
        decreases ledger.records@.len() - i,
    {
        records.push(ledger.records[i]);
        proof {
            assert(ledger.records@.subrange(0, i as int + 1) =~= ledger.records@.subrange(
                0,
                i as int,
            ).push(ledger.records@[i as int]));
        }
        i += 1;
    }
    let mut wallets: Vec<Wallet> = Vec::new();
    let mut i: usize = 0;
    while i < ledger.wallets.len()
        invariant
            i <= ledger.wallets@.len(),
            wallets@ == ledger.wallets@.subrange(0, i as int),
        decreases ledger.wallets@.len() - i,
    {
        wallets.push(ledger.wallets[i]);
        proof {
            assert(ledger.wallets@.subrange(0, i as int + 1) =~= ledger.wallets@.subrange(
                0,
                i as int,
            ).push(ledger.wallets@[i as int]));
        }
        i += 1;
    }
    let r = Ledger {
        program_id: ledger.program_id,
        token_program_id: ledger.token_program_id,
        floors: ledger.floors,
        records,
        wallets,
    };
    proof {
        assert(r.records@ =~= ledger.records@);
        assert(r.wallets@ =~= ledger.wallets@);
    }
    r
}

/// Run one decoded instruction against the ledger, without the atomic
/// commit: the ledger is left exactly in the transition's result state,
/// also on an error.
pub fn dispatch_instruction(
    ledger: &mut Ledger,
    accounts: &InstructionAccounts,
    instruction: &Instruction,
) -> (r: Result<(), LotteryError>)
    ensures
        final(ledger)@ == spec_step(old(ledger)@, *accounts, *instruction).0,
        r == spec_step(old(ledger)@, *accounts, *instruction).1,
{
    match instruction {
        Instruction::InitializePool(d) => process_pool_initialization(
            ledger,
            &accounts.authority,
            accounts.authority_signed,
            &accounts.vault,
            &accounts.mint,
            d,
        ),
        Instruction::Deposit(amount) => process_deposit(
            ledger,
            &accounts.player,
            &accounts.vault,
            *amount,
        ),
        Instruction::PurchaseTicket(t) => process_ticket_purchase(
            ledger,
            &accounts.player,
            accounts.player_signed,
            &accounts.player_record,
            &accounts.player_token_record,
            &accounts.vault,
            &accounts.mint,
            t,
        ),
        Instruction::Withdraw(amount) => process_player_withdraw(
            ledger,
            &accounts.player,
            accounts.player_signed,
            &accounts.player_record,
            *amount,
        ),
        Instruction::SelectWinnersAndAirdrop(ws) => process_draft(
            ledger,
            &accounts.authority,
            accounts.authority_signed,
            &accounts.vault,
            &accounts.mint,
            ws,
        ),
        Instruction::ClosePlayerAccount => process_close_player_account(
            ledger,
            &accounts.player,
            accounts.player_signed,
            &accounts.player_record,
            &accounts.player_token_record,
        ),
    }
}

/// Decode and execute one instruction atomically. Bytes that are not a
/// whole, well-formed encoding are rejected before any component runs. On
/// success the ledger holds the transition's result; on any error it is
/// untouched — the whole instruction commits or nothing does.
pub fn processor(
    ledger: &mut Ledger,
    accounts: &InstructionAccounts,
    instruction_data: &Vec<u8>,
) -> (r: Result<(), LotteryError>)
    ensures
        spec_parse_instruction(instruction_data@) is None ==> r == Err::<(), LotteryError>(
            LotteryError::InvalidInstruction,
        ),
        r is Err ==> final(ledger)@ == old(ledger)@,
        spec_parse_instruction(instruction_data@) is Some ==> exists|i: Instruction|
            spec_parse_instruction(instruction_data@) == Some(instruction_view(i))
                && #[trigger] spec_step(old(ledger)@, *accounts, i).1 == r && (r is Ok
                ==> final(ledger)@ == spec_step(old(ledger)@, *accounts, i).0),
{
    let instruction = match parse_instruction(instruction_data) {
        Some(i) => i,
        None => {
            return Err(LotteryError::InvalidInstruction);
        },
    };
    let mut work = clone_ledger(ledger);
    let result = dispatch_instruction(&mut work, accounts, &instruction);
    if result.is_ok() {
        *ledger = work;
    }
    proof {
        assert(spec_step(old(ledger)@, *accounts, instruction).1 == result);
    }
    result
}

} // verus!
