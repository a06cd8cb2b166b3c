//! The ticket-purchase instruction.
//!
//! A signing player hands in the freshly recomputed Merkle root and leaf
//! count of their whole ticket set. The player's ticket record is created at
//! its derived address on the first purchase and overwritten afterwards; the
//! ticket price moves from the player into the vault, the price is added to
//! the player's escrowed balance, and exactly one receipt token is minted to
//! the player's receipt-balance record.

use vstd::prelude::*;

use crate::error::LotteryError;
use crate::ledger::{
    find_record, has_record, record_at, update_record, wallet_balance, write_wallet_balance,
    Ledger, LedgerV, PlayerTicketRecord, Record, RecordData, TokenAccountState,
};
use crate::pda::{find_player_pda_account, find_player_token_pda_account, spec_player_pda,
    spec_player_token_pda};
use crate::state::TicketAccountData;

verus! {

/// Overwriting of a ticket record: the record must exist and hold ticket
/// data; its Merkle root and ticket count are replaced whole by the payload,
/// its escrowed balance kept. On an error the ledger is returned unchanged.
pub open spec fn spec_update_player_account(
    l: LedgerV,
    player_record: [u8; 32],
    data: TicketAccountData,
) -> (LedgerV, Result<(), LotteryError>) {
    if !has_record(l.records, player_record@) || !(record_at(
        l.records,
        player_record@,
    ).data is Ticket) {
        (l, Err(LotteryError::InvalidAccount))
    } else {
        let rec = record_at(l.records, player_record@);
        let ticket = rec.data->Ticket_0;
        (
            LedgerV {
                records: update_record(
                    l.records,
                    player_record@,
                    Record {
                        data: RecordData::Ticket(
                            PlayerTicketRecord {
                                merkle_root: data.merkle_root,
                                total_tickets: data.total_tickets,
                                ..ticket
                            },
                        ),
                        ..rec
                    },
                ),
                ..l
            },
            Ok(()),
        )
    }
}

/// Creation of a ticket record on first purchase: the claimed address must
/// be the derived one and empty, and the player must hold the record's
/// minimum-balance floor. The record starts with the payload's root and
/// count and an empty escrow; settlement then adds the ticket price to it.
/// On an error the ledger is returned unchanged.
pub open spec fn spec_initialize_player_account(
    l: LedgerV,
    player: [u8; 32],
    player_record: [u8; 32],
    data: TicketAccountData,
) -> (LedgerV, Result<(), LotteryError>) {
    match spec_player_pda(l.program_id, player) {
        None => (l, Err(LotteryError::InvalidPlayerPdaAccount)),
        Some((derived, _nonce)) => {
            if player_record@ != derived@ {
                (l, Err(LotteryError::InvalidPlayerPdaAccount))
            } else if has_record(l.records, derived@) {
                (l, Err(LotteryError::AccountAlreadyInitialized))
            } else if wallet_balance(l.wallets, player@) < l.floors.ticket_record {
                (l, Err(LotteryError::InsufficientFunds))
            } else {
                (
                    LedgerV {
                        records: l.records.push(
                            Record {
                                address: derived,
                                owner: l.program_id,
                                lamports: l.floors.ticket_record,
                                data: RecordData::Ticket(
                                    PlayerTicketRecord {
                                        merkle_root: data.merkle_root,
                                        total_tickets: data.total_tickets,
                                        escrowed_balance: 0,
                                    },
                                ),
                            },
                        ),
                        wallets: crate::ledger::set_wallet_balance(
                            l.wallets,
                            player,
                            (wallet_balance(l.wallets, player@)
                                - l.floors.ticket_record) as u64,
                        ),
                        ..l
                    },
                    Ok(()),
                )
            }
        },
    }
}

/// Creation of a receipt-balance record: the claimed address must be the
/// derived one and empty, and the player must hold the record's floor. The
/// balance starts at zero. On an error the ledger is returned unchanged.
pub open spec fn spec_initialize_player_token_account(
    l: LedgerV,
    player: [u8; 32],
    player_token_record: [u8; 32],
    mint: [u8; 32],
) -> (LedgerV, Result<(), LotteryError>) {
    match spec_player_token_pda(l.program_id, player) {
        None => (l, Err(LotteryError::InvalidPlayerPdaAccount)),
        Some((derived, _nonce)) => {
            if player_token_record@ != derived@ {
                (l, Err(LotteryError::InvalidPlayerPdaAccount))
            } else if has_record(l.records, derived@) {
                (l, Err(LotteryError::AccountAlreadyInitialized))
            } else if wallet_balance(l.wallets, player@) < l.floors.token_record {
                (l, Err(LotteryError::InsufficientFunds))
            } else {
                (
                    LedgerV {
                        records: l.records.push(
                            Record {
                                address: derived,
                                owner: l.token_program_id,
                                lamports: l.floors.token_record,
                                data: RecordData::TokenAccount(
                                    TokenAccountState { mint, amount: 0 },
                                ),
                            },
                        ),
                        wallets: crate::ledger::set_wallet_balance(
                            l.wallets,
                            player,
                            (wallet_balance(l.wallets, player@) - l.floors.token_record) as u64,
                        ),
                        ..l
                    },
                    Ok(()),
                )
            }
        },
    }
}

/// Payment and minting shared by both purchase branches: the player pays the
/// ticket price into the vault, the price is added to the escrowed balance
/// of the ticket record, the receipt balance gains one unit and the mint's
/// supply grows by one. Every counter update is checked. On an error the
/// ledger is returned unchanged.
pub open spec fn spec_settle_purchase(
    l: LedgerV,
    player: [u8; 32],
    player_record: [u8; 32],
    player_token_record: [u8; 32],
    vault: [u8; 32],
    mint: [u8; 32],
    ticket_price: u64,
) -> (LedgerV, Result<(), LotteryError>) {
    if !has_record(l.records, vault@) || !(record_at(l.records, vault@).data is Pool)
        || !has_record(l.records, player_record@) || !(record_at(
        l.records,
        player_record@,
    ).data is Ticket) || !has_record(l.records, mint@) || !(record_at(
        l.records,
        mint@,
    ).data is Mint) || !has_record(l.records, player_token_record@) || !(record_at(
        l.records,
        player_token_record@,
    ).data is TokenAccount) {
        (l, Err(LotteryError::InvalidAccount))
    } else if wallet_balance(l.wallets, player@) < ticket_price {
        (l, Err(LotteryError::InsufficientFunds))
    } else {
        let vault_rec = record_at(l.records, vault@);
        let ticket_rec = record_at(l.records, player_record@);
        let ticket = ticket_rec.data->Ticket_0;
        let token_rec = record_at(l.records, player_token_record@);
        let token = token_rec.data->TokenAccount_0;
        let mint_rec = record_at(l.records, mint@);
        let mint_state = mint_rec.data->Mint_0;
        if vault_rec.lamports + ticket_price > u64::MAX || ticket.escrowed_balance + ticket_price
            > u64::MAX || token.amount + 1 > u64::MAX || mint_state.supply + 1 > u64::MAX {
            (l, Err(LotteryError::Overflow))
        } else {
            let rs1 = update_record(
                l.records,
                vault@,
                Record { lamports: (vault_rec.lamports + ticket_price) as u64, ..vault_rec },
            );
            let rs2 = update_record(
                rs1,
                player_record@,
                Record {
                    data: RecordData::Ticket(
                        PlayerTicketRecord {
                            escrowed_balance: (ticket.escrowed_balance + ticket_price) as u64,
                            ..ticket
                        },
                    ),
                    ..ticket_rec
                },
            );
            let rs3 = update_record(
                rs2,
                player_token_record@,
                Record {
                    data: RecordData::TokenAccount(
                        TokenAccountState { amount: (token.amount + 1) as u64, ..token },
                    ),
                    ..token_rec
                },
            );
            let rs4 = update_record(
                rs3,
                mint@,
                Record {
                    data: RecordData::Mint(
                        crate::ledger::MintState {
                            supply: (mint_state.supply + 1) as u64,
                            ..mint_state
                        },
                    ),
                    ..mint_rec
                },
            );
            (
                LedgerV {
                    records: rs4,
                    wallets: crate::ledger::set_wallet_balance(
                        l.wallets,
                        player,
                        (wallet_balance(l.wallets, player@) - ticket_price) as u64,
                    ),
                    ..l
                },
                Ok(()),
            )
        }
    }
}

/// The whole purchase transition, in the order the instruction performs it:
/// signature check; pool and mint must be initialized; the ticket record is
/// created or overwritten; the receipt-balance record is created if missing;
/// then payment, escrow and minting settle. A failure after the record
/// mutations leaves them in the returned state; the router rolls the whole
/// instruction back.
pub open spec fn spec_process_ticket_purchase(
    l: LedgerV,
    player: [u8; 32],
    player_signed: bool,
    player_record: [u8; 32],
    player_token_record: [u8; 32],
    vault: [u8; 32],
    mint: [u8; 32],
    data: TicketAccountData,
) -> (LedgerV, Result<(), LotteryError>) {
    if !player_signed {
        (l, Err(LotteryError::MissingRequiredSignature))
    } else if !has_record(l.records, vault@) || !(record_at(l.records, vault@).data is Pool) {
        (l, Err(LotteryError::StakePoolNotInitialized))
    } else if !has_record(l.records, mint@) || !(record_at(l.records, mint@).data is Mint) {
        (l, Err(LotteryError::StakePoolNotInitialized))
    } else {
        let ticket_price = record_at(l.records, vault@).data->Pool_0.ticket_price;
        let (l1, record_result) = if !has_record(l.records, player_record@) {
            spec_initialize_player_account(l, player, player_record, data)
        } else {
            spec_update_player_account(l, player_record, data)
        };
        match record_result {
            Err(e) => (l1, Err(e)),
            Ok(()) => {
                let (l2, token_result) = if !has_record(l1.records, player_token_record@) {
                    spec_initialize_player_token_account(l1, player, player_token_record, mint)
                } else {
                    (l1, Ok(()))
                };
                match token_result {
                    Err(e) => (l2, Err(e)),
                    Ok(()) => spec_settle_purchase(
                        l2,
                        player,
                        player_record,
                        player_token_record,
                        vault,
                        mint,
                        ticket_price,
                    ),
                }
            },
        }
    }
}

/// Overwrite the Merkle root and ticket count of an existing ticket record
/// with the supplied payload; the escrowed balance is kept.
pub fn update_player_account(
    ledger: &mut Ledger,
    player_record: &[u8; 32],
    data: &TicketAccountData,
) -> (r: Result<(), LotteryError>)
    ensures
        final(ledger)@ == spec_update_player_account(old(ledger)@, *player_record, *data).0,
        r == spec_update_player_account(old(ledger)@, *player_record, *data).1,
{
    let record_index = match find_record(&ledger.records, player_record) {
        Some(i) => i,
        None => {
            return Err(LotteryError::InvalidAccount);
        },
    };
    let rec = ledger.records[record_index];
    let ticket = match rec.data {
        RecordData::Ticket(t) => t,
        _ => {
            return Err(LotteryError::InvalidAccount);
        },
    };
    ledger.records[record_index] = Record {
        data: RecordData::Ticket(
            PlayerTicketRecord {
                merkle_root: data.merkle_root,
                total_tickets: data.total_tickets,
                ..ticket
            },
        ),
        ..rec
    };
    Ok(())
}

/// Create the player's ticket record at its derived address, funded to the
/// floor, holding the payload and an empty escrow.
pub fn initialize_player_account(
    ledger: &mut Ledger,
    player: &[u8; 32],
    player_record: &[u8; 32],
    data: &TicketAccountData,
) -> (r: Result<(), LotteryError>)
    ensures
        final(ledger)@ == spec_initialize_player_account(
            old(ledger)@,
            *player,
            *player_record,
            *data,
        ).0,
        r == spec_initialize_player_account(old(ledger)@, *player, *player_record, *data).1,
{
    let (derived, _nonce) = match find_player_pda_account(&ledger.program_id, player) {
        Some(p) => p,
        None => {
            return Err(LotteryError::InvalidPlayerPdaAccount);
        },
    };
    if !crate::ledger::key_eq(player_record, &derived) {
        return Err(LotteryError::InvalidPlayerPdaAccount);
    }
    if find_record(&ledger.records, &derived).is_some() {
        return Err(LotteryError::AccountAlreadyInitialized);
    }
    let player_balance = ledger.wallet_balance_at(player);
    let floor = ledger.floors.ticket_record;
    if player_balance < floor {
        return Err(LotteryError::InsufficientFunds);
    }
    let program_id = ledger.program_id;
    ledger.records.push(
        Record {
            address: derived,
            owner: program_id,
            lamports: floor,
            data: RecordData::Ticket(
                PlayerTicketRecord {
                    merkle_root: data.merkle_root,
                    total_tickets: data.total_tickets,
                    escrowed_balance: 0,
                },
            ),
        },
    );
    write_wallet_balance(&mut ledger.wallets, player, player_balance - floor);
    Ok(())
}

/// Create the player's receipt-balance record at its derived address,
/// funded to the floor, with a balance of zero.
pub fn initialize_player_token_account(
    ledger: &mut Ledger,
    player: &[u8; 32],
    player_token_record: &[u8; 32],
    mint: &[u8; 32],
) -> (r: Result<(), LotteryError>)
    ensures
        final(ledger)@ == spec_initialize_player_token_account(
            old(ledger)@,
            *player,
            *player_token_record,
            *mint,
        ).0,
        r == spec_initialize_player_token_account(
            old(ledger)@,
            *player,
            *player_token_record,
            *mint,
        ).1,
{
    let (derived, _nonce) = match find_player_token_pda_account(&ledger.program_id, player) {
        Some(p) => p,
        None => {
            return Err(LotteryError::InvalidPlayerPdaAccount);
        },
    };
    if !crate::ledger::key_eq(player_token_record, &derived) {
        return Err(LotteryError::InvalidPlayerPdaAccount);
    }
    if find_record(&ledger.records, &derived).is_some() {
        return Err(LotteryError::AccountAlreadyInitialized);
    }
    let player_balance = ledger.wallet_balance_at(player);
    let floor = ledger.floors.token_record;
    if player_balance < floor {
        return Err(LotteryError::InsufficientFunds);
    }
    let token_program_id = ledger.token_program_id;
    ledger.records.push(
        Record {
            address: derived,
            owner: token_program_id,
            lamports: floor,
            data: RecordData::TokenAccount(TokenAccountState { mint: *mint, amount: 0 }),
        },
    );
    write_wallet_balance(&mut ledger.wallets, player, player_balance - floor);
    Ok(())
}

/// Pay the ticket price into the vault, add it to the escrowed balance, and
/// mint one receipt unit to the player's receipt-balance record.
fn settle_purchase(
    ledger: &mut Ledger,
    player: &[u8; 32],
    player_record: &[u8; 32],
    player_token_record: &[u8; 32],
    vault: &[u8; 32],
    mint: &[u8; 32],
    ticket_price: u64,
) -> (r: Result<(), LotteryError>)
    ensures
        final(ledger)@ == spec_settle_purchase(
            old(ledger)@,
            *player,
            *player_record,
            *player_token_record,
            *vault,
            *mint,
            ticket_price,
        ).0,
        r == spec_settle_purchase(
            old(ledger)@,
            *player,
            *player_record,
            *player_token_record,
            *vault,
            *mint,
            ticket_price,
        ).1,
{
    let vault_index = match find_record(&ledger.records, vault) {
        Some(i) => i,
        None => {
            return Err(LotteryError::InvalidAccount);
        },
    };
    let vault_rec = ledger.records[vault_index];
    if !matches!(vault_rec.data, RecordData::Pool(_)) {
        return Err(LotteryError::InvalidAccount);
    }
    let ticket_index = match find_record(&ledger.records, player_record) {
        Some(i) => i,
        None => {
            return Err(LotteryError::InvalidAccount);
        },
    };
    let ticket_rec = ledger.records[ticket_index];
    let ticket = match ticket_rec.data {
        RecordData::Ticket(t) => t,
        _ => {
            return Err(LotteryError::InvalidAccount);
        },
    };
    let mint_index = match find_record(&ledger.records, mint) {
        Some(i) => i,
        None => {
            return Err(LotteryError::InvalidAccount);
        },
    };
    let mint_rec = ledger.records[mint_index];
    let mint_state = match mint_rec.data {
        RecordData::Mint(m) => m,
        _ => {
            return Err(LotteryError::InvalidAccount);
        },
    };
    let token_index = match find_record(&ledger.records, player_token_record) {
        Some(i) => i,
        None => {
            return Err(LotteryError::InvalidAccount);
        },
    };
    let token_rec = ledger.records[token_index];
    let token = match token_rec.data {
        RecordData::TokenAccount(t) => t,
        _ => {
            return Err(LotteryError::InvalidAccount);
        },
    };
    let player_balance = ledger.wallet_balance_at(player);
    if player_balance < ticket_price {
        return Err(LotteryError::InsufficientFunds);
    }
    let new_vault_lamports = vault_rec.lamports.checked_add(ticket_price);
    let new_escrow = ticket.escrowed_balance.checked_add(ticket_price);
    let new_amount = token.amount.checked_add(1);
    let new_supply = mint_state.supply.checked_add(1);
    if new_vault_lamports.is_none() || new_escrow.is_none() || new_amount.is_none()
        || new_supply.is_none() {
        return Err(LotteryError::Overflow);
    }
    proof {
        // The four records hold four different kinds of data, so their
        // addresses are pairwise distinct and the updates below leave each
        // other's positions untouched.
        crate::ledger::lemma_rec_index(ledger@.records, vault@);
        crate::ledger::lemma_rec_index(ledger@.records, player_record@);
        crate::ledger::lemma_rec_index(ledger@.records, player_token_record@);
        crate::ledger::lemma_rec_index(ledger@.records, mint@);
        assert(vault@ != player_record@ && vault@ != player_token_record@ && vault@ != mint@
            && player_record@ != player_token_record@ && player_record@ != mint@
            && player_token_record@ != mint@);
    }
    let rs0 = Ghost(ledger@.records);
    ledger.records[vault_index] = Record { lamports: new_vault_lamports.unwrap(), ..vault_rec };
    proof {
        crate::ledger::lemma_rec_index_update(rs0@, vault@, ledger@.records[vault_index as int]);
    }
    let rs1 = Ghost(ledger@.records);
    ledger.records[ticket_index] = Record {
        data: RecordData::Ticket(
            PlayerTicketRecord { escrowed_balance: new_escrow.unwrap(), ..ticket },
        ),
        ..ticket_rec
    };
    proof {
        crate::ledger::lemma_rec_index_update(
            rs1@,
            player_record@,
            ledger@.records[ticket_index as int],
        );
    }
    let rs2 = Ghost(ledger@.records);
    ledger.records[token_index] = Record {
        data: RecordData::TokenAccount(TokenAccountState { amount: new_amount.unwrap(), ..token }),
        ..token_rec
    };
    proof {
        crate::ledger::lemma_rec_index_update(
            rs2@,
            player_token_record@,
            ledger@.records[token_index as int],
        );
    }
    ledger.records[mint_index] = Record {
        data: RecordData::Mint(
            crate::ledger::MintState { supply: new_supply.unwrap(), ..mint_state },
        ),
        ..mint_rec
    };
    write_wallet_balance(&mut ledger.wallets, player, player_balance - ticket_price);
    Ok(())
}

/// Purchase one ticket: create or overwrite the player's ticket record with
/// the supplied Merkle root and count, ensure the receipt-balance record
/// exists, pay the ticket price into the vault, and mint one receipt unit.
pub fn process_ticket_purchase(
    ledger: &mut Ledger,
    player: &[u8; 32],
    player_signed: bool,
    player_record: &[u8; 32],
    player_token_record: &[u8; 32],
    vault: &[u8; 32],
    mint: &[u8; 32],
    data: &TicketAccountData,
) -> (r: Result<(), LotteryError>)
    ensures
        final(ledger)@ == spec_process_ticket_purchase(
            old(ledger)@,
            *player,
            player_signed,
            *player_record,
            *player_token_record,
            *vault,
            *mint,
            *data,
        ).0,
        r == spec_process_ticket_purchase(
            old(ledger)@,
            *player,
            player_signed,
            *player_record,
            *player_token_record,
            *vault,
            *mint,
            *data,
        ).1,
{
    if !player_signed {
        return Err(LotteryError::MissingRequiredSignature);
    }
    let ticket_price = match ledger.record_at_address(vault) {
        Some(rec) => match rec.data {
            RecordData::Pool(pool) => pool.ticket_price,
            _ => {
                return Err(LotteryError::StakePoolNotInitialized);
            },
        },
        None => {
            return Err(LotteryError::StakePoolNotInitialized);
        },
    };
    match ledger.record_at_address(mint) {
        Some(rec) => match rec.data {
            RecordData::Mint(_) => {},
            _ => {
                return Err(LotteryError::StakePoolNotInitialized);
            },
        },
        None => {
            return Err(LotteryError::StakePoolNotInitialized);
        },
    }
    if find_record(&ledger.records, player_record).is_none() {
        initialize_player_account(ledger, player, player_record, data)?;
    } else {
        update_player_account(ledger, player_record, data)?;
    }
    if find_record(&ledger.records, player_token_record).is_none() {
        initialize_player_token_account(ledger, player, player_token_record, mint)?;
    }
    settle_purchase(ledger, player, player_record, player_token_record, vault, mint, ticket_price)
}

} // verus!
