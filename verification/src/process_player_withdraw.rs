//! The withdraw instruction: a player draws down their escrowed balance.

use vstd::prelude::*;

use crate::error::LotteryError;
use crate::ledger::{
    find_record, has_record, record_at, set_wallet_balance, update_record, wallet_balance,
    write_wallet_balance, Ledger, LedgerV, Record, RecordData,
};

verus! {

/// The withdraw transition: requires the player's signature, a ticket record
/// at the given address, and `amount` at most the escrowed balance; debits
/// the escrow and credits the player's principal. On an error the ledger is
/// returned unchanged.
pub open spec fn spec_process_player_withdraw(
    l: LedgerV,
    player: [u8; 32],
    player_signed: bool,
    player_record: [u8; 32],
    amount: u64,
) -> (LedgerV, Result<(), LotteryError>) {
    if !player_signed {
        (l, Err(LotteryError::MissingRequiredSignature))
    } else if !has_record(l.records, player_record@) || !(record_at(
        l.records,
        player_record@,
    ).data is Ticket) {
        (l, Err(LotteryError::InvalidAccount))
    } else {
        let rec = record_at(l.records, player_record@);
        let ticket = rec.data->Ticket_0;
        if amount > ticket.escrowed_balance {
            (l, Err(LotteryError::InsufficientFunds))
        } else if wallet_balance(l.wallets, player@) + amount > u64::MAX {
            (l, Err(LotteryError::Overflow))
        } else {
            (
                LedgerV {
                    records: update_record(
                        l.records,
                        player_record@,
                        Record {
                            data: RecordData::Ticket(
                                crate::ledger::PlayerTicketRecord {
                                    escrowed_balance: (ticket.escrowed_balance - amount) as u64,
                                    ..ticket
                                },
                            ),
                            ..rec
                        },
                    ),
                    wallets: set_wallet_balance(
                        l.wallets,
                        player,
                        (wallet_balance(l.wallets, player@) + amount) as u64,
                    ),
                    ..l
                },
                Ok(()),
            )
        }
    }
}

/// Draw `amount` from the player's escrowed balance into their principal.
pub fn process_player_withdraw(
    ledger: &mut Ledger,
    player: &[u8; 32],
    player_signed: bool,
    player_record: &[u8; 32],
    amount: u64,
) -> (r: Result<(), LotteryError>)
    ensures
        final(ledger)@ == spec_process_player_withdraw(
            old(ledger)@,
            *player,
            player_signed,
            *player_record,
            amount,
        ).0,
        r == spec_process_player_withdraw(
            old(ledger)@,
            *player,
            player_signed,
            *player_record,
            amount,
        ).1,
{
    if !player_signed {
        return Err(LotteryError::MissingRequiredSignature);
    }
    let record_index = match find_record(&ledger.records, player_record) {
        Some(i) => i,
        None => {
            return Err(LotteryError::InvalidAccount);
        },
    };
    let rec = ledger.records[record_index];
    let ticket = match rec.data {
        RecordData::Ticket(t) => t,
        _ => {
            return Err(LotteryError::InvalidAccount);
        },
    };
    if amount > ticket.escrowed_balance {
        return Err(LotteryError::InsufficientFunds);
    }
    let player_balance = ledger.wallet_balance_at(player);
    let new_balance = match player_balance.checked_add(amount) {
        Some(v) => v,
        None => {
            return Err(LotteryError::Overflow);
        },
    };
    ledger.records[record_index] = Record {
        data: RecordData::Ticket(
            crate::ledger::PlayerTicketRecord {
                escrowed_balance: ticket.escrowed_balance - amount,
                ..ticket
            },
        ),
        ..rec
    };
    write_wallet_balance(&mut ledger.wallets, player, new_balance);
    Ok(())
}

} // verus!
