//! The deposit instruction: any principal moves lamports into the vault.

use vstd::prelude::*;

use crate::error::LotteryError;
use crate::ledger::{
    has_record, record_at, update_record, wallet_balance, set_wallet_balance,
    find_record, write_wallet_balance, Ledger, LedgerV, Record,
};

verus! {

/// The deposit transition: requires the vault record to exist and be owned
/// by this program, and the payer to hold the amount; moves the amount from
/// the payer's principal balance into the vault record. On an error the
/// ledger is returned unchanged.
pub open spec fn spec_process_deposit(
    l: LedgerV,
    payer: [u8; 32],
    vault: [u8; 32],
    amount: u64,
) -> (LedgerV, Result<(), LotteryError>) {
    if !has_record(l.records, vault@) || record_at(l.records, vault@).owner@ != l.program_id@ {
        (l, Err(LotteryError::IllegalOwner))
    } else if wallet_balance(l.wallets, payer@) < amount {
        (l, Err(LotteryError::InsufficientFunds))
    } else if record_at(l.records, vault@).lamports + amount > u64::MAX {
        (l, Err(LotteryError::Overflow))
    } else {
        let rec = record_at(l.records, vault@);
        (
            LedgerV {
                records: update_record(
                    l.records,
                    vault@,
                    Record { lamports: (rec.lamports + amount) as u64, ..rec },
                ),
                wallets: set_wallet_balance(
                    l.wallets,
                    payer,
                    (wallet_balance(l.wallets, payer@) - amount) as u64,
                ),
                ..l
            },
            Ok(()),
        )
    }
}

/// Transfer `amount` from the payer into the stake-pool vault.
pub fn process_deposit(ledger: &mut Ledger, payer: &[u8; 32], vault: &[u8; 32], amount: u64) -> (r:
    Result<(), LotteryError>)
    ensures
        final(ledger)@ == spec_process_deposit(old(ledger)@, *payer, *vault, amount).0,
        r == spec_process_deposit(old(ledger)@, *payer, *vault, amount).1,
{
    let vault_index = match find_record(&ledger.records, vault) {
        Some(i) => i,
        None => {
            return Err(LotteryError::IllegalOwner);
        },
    };
    let vault_record = ledger.records[vault_index];
    if !crate::ledger::key_eq(&vault_record.owner, &ledger.program_id) {
        return Err(LotteryError::IllegalOwner);
    }
    let payer_balance = ledger.wallet_balance_at(payer);
    if payer_balance < amount {
        return Err(LotteryError::InsufficientFunds);
    }
    let new_lamports = match vault_record.lamports.checked_add(amount) {
        Some(v) => v,
        None => {
            return Err(LotteryError::Overflow);
        },
    };
    ledger.records[vault_index] = Record { lamports: new_lamports, ..vault_record };
    write_wallet_balance(&mut ledger.wallets, payer, payer_balance - amount);
    Ok(())
}

} // verus!
