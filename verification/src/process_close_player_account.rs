//! The close instruction: a player releases their records and reclaims
//! their balances.

use vstd::prelude::*;

use crate::error::LotteryError;
use crate::ledger::{
    find_record, has_record, record_at, remove_record, set_wallet_balance, wallet_balance,
    write_wallet_balance, Ledger, LedgerV, RecordData,
};

verus! {

/// The close transition: the player signs; both the ticket record and the
/// receipt-balance record must exist. A receipt balance of zero is closed
/// and its lamports reclaimed; a nonzero one is kept, since unredeemed
/// receipts cannot be forcibly burned here. The ticket record's lamports and
/// remaining escrowed balance are reclaimed into the player's principal and
/// the record is released. On an error the ledger is returned unchanged.
pub open spec fn spec_process_close_player_account(
    l: LedgerV,
    player: [u8; 32],
    player_signed: bool,
    player_record: [u8; 32],
    player_token_record: [u8; 32],
) -> (LedgerV, Result<(), LotteryError>) {
    if !player_signed {
        (l, Err(LotteryError::InvalidSigner))
    } else if !has_record(l.records, player_record@) || !(record_at(
        l.records,
        player_record@,
    ).data is Ticket) {
        (l, Err(LotteryError::InvalidAccount))
    } else if !has_record(l.records, player_token_record@) || !(record_at(
        l.records,
        player_token_record@,
    ).data is TokenAccount) {
        (l, Err(LotteryError::InvalidAccount))
    } else {
        let ticket_rec = record_at(l.records, player_record@);
        let ticket = ticket_rec.data->Ticket_0;
        let token_rec = record_at(l.records, player_token_record@);
        let token = token_rec.data->TokenAccount_0;
        let token_reclaim: u64 = if token.amount == 0 {
            token_rec.lamports
        } else {
            0
        };
        if wallet_balance(l.wallets, player@) + token_reclaim + ticket_rec.lamports
            + ticket.escrowed_balance > u64::MAX {
            (l, Err(LotteryError::Overflow))
        } else {
            let reclaimed = (wallet_balance(l.wallets, player@) + token_reclaim
                + ticket_rec.lamports + ticket.escrowed_balance) as u64;
            let rs1 = if token.amount == 0 {
                remove_record(l.records, player_token_record@)
            } else {
                l.records
            };
            (
                LedgerV {
                    records: remove_record(rs1, player_record@),
                    wallets: set_wallet_balance(l.wallets, player, reclaimed),
                    ..l
                },
                Ok(()),
            )
        }
    }
}

/// Close the player's records: reclaim the receipt-balance record if its
/// balance is zero, then reclaim and release the ticket record.
pub fn process_close_player_account(
    ledger: &mut Ledger,
    player: &[u8; 32],
    player_signed: bool,
    player_record: &[u8; 32],
    player_token_record: &[u8; 32],
) -> (r: Result<(), LotteryError>)
    ensures
        final(ledger)@ == spec_process_close_player_account(
            old(ledger)@,
            *player,
            player_signed,
            *player_record,
            *player_token_record,
        ).0,
        r == spec_process_close_player_account(
            old(ledger)@,
            *player,
            player_signed,
            *player_record,
            *player_token_record,
        ).1,
{
    if !player_signed {
        return Err(LotteryError::InvalidSigner);
    }
    let ticket_index = match find_record(&ledger.records, player_record) {
        Some(i) => i,
        None => {
            return Err(LotteryError::InvalidAccount);
        },
    };
    let ticket_rec = ledger.records[ticket_index];
    let ticket = match ticket_rec.data {
        RecordData::Ticket(t) => t,
        _ => {
            return Err(LotteryError::InvalidAccount);
        },
    };
    let token_index = match find_record(&ledger.records, player_token_record) {
        Some(i) => i,
        None => {
            return Err(LotteryError::InvalidAccount);
        },
    };
    let token_rec = ledger.records[token_index];
    let token = match token_rec.data {
        RecordData::TokenAccount(t) => t,
        _ => {
            return Err(LotteryError::InvalidAccount);
        },
    };
    let token_reclaim: u64 = if token.amount == 0 {
        token_rec.lamports
    } else {
        0
    };
    let player_balance = ledger.wallet_balance_at(player);
    let partial = match player_balance.checked_add(token_reclaim) {
        Some(v) => v,
        None => {
            return Err(LotteryError::Overflow);
        },
    };
    let partial = match partial.checked_add(ticket_rec.lamports) {
        Some(v) => v,
        None => {
            return Err(LotteryError::Overflow);
        },
    };
    let reclaimed = match partial.checked_add(ticket.escrowed_balance) {
        Some(v) => v,
        None => {
            return Err(LotteryError::Overflow);
        },
    };
    proof {
        // The two records hold different kinds of data, so their addresses
        // differ and removing one leaves the other in place.
        crate::ledger::lemma_rec_index(ledger@.records, player_record@);
        crate::ledger::lemma_rec_index(ledger@.records, player_token_record@);
        assert(player_record@ != player_token_record@);
    }
    if token.amount == 0 {
        ledger.records.remove(token_index);
        proof {
            crate::ledger::lemma_rec_index_remove(old(ledger)@.records, player_token_record@);
        }
    }
    // The ticket record survived the removal: the two addresses differ.
    let ticket_index = find_record(&ledger.records, player_record).unwrap();
    ledger.records.remove(ticket_index);
    write_wallet_balance(&mut ledger.wallets, player, reclaimed);
    Ok(())
}

} // verus!
