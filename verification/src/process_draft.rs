//! The draft instruction: the authority pays out proved winners.
//!
//! After the authority and vault checks, the pool's draft counter is
//! incremented, then every claimant is processed strictly in input order.
//! Each winner's Merkle proof is verified against the root committed in
//! their ticket record; a valid claim moves the amount from the vault to the
//! winner's principal and burns one receipt unit. Any failure aborts the
//! instruction; the router rolls the whole ledger back.

use vstd::prelude::*;

use crate::error::LotteryError;
use crate::ledger::{
    find_record, has_record, record_at, set_wallet_balance, update_record, wallet_balance,
    write_wallet_balance, Ledger, LedgerV, MintState, Record, RecordData,
    TokenAccountState,
};
use crate::merkle::{spec_proof_verifies, verify_ticket_proof};
use crate::pda::{find_player_pda_account, find_stake_pool_vault_pda, spec_player_pda,
    spec_vault_pda};
use crate::state::DraftWinner;

verus! {

/// Processing of one claimant: their ticket record is loaded from the
/// address derived from their identity, the proof is verified against the
/// committed root with the committed leaf count as tree size, the payout is
/// bounded by the vault's balance, and one receipt unit is burned. On an
/// error the ledger is returned unchanged.
pub open spec fn spec_process_winner(
    l: LedgerV,
    vault: [u8; 32],
    mint: [u8; 32],
    w: DraftWinner,
) -> (LedgerV, Result<(), LotteryError>) {
    match spec_player_pda(l.program_id, w.address) {
        None => (l, Err(LotteryError::InvalidPlayerPdaAccount)),
        Some((derived, _nonce)) => {
            if !has_record(l.records, derived@) || !(record_at(
                l.records,
                derived@,
            ).data is Ticket) {
                (l, Err(LotteryError::InvalidAccount))
            } else {
                let ticket = record_at(l.records, derived@).data->Ticket_0;
                if !spec_proof_verifies(
                    ticket.merkle_root@,
                    w.proof@,
                    w.ticket_indices@,
                    w.tickets@.map_values(|t: [u8; 32]| t@),
                    ticket.total_tickets as nat,
                ) {
                    (l, Err(LotteryError::InvalidTicket))
                } else if !has_record(l.records, vault@) || !(record_at(
                    l.records,
                    vault@,
                ).data is Pool) {
                    (l, Err(LotteryError::InvalidAccount))
                } else if w.amount > record_at(l.records, vault@).lamports {
                    (l, Err(LotteryError::InsufficientFunds))
                } else if wallet_balance(l.wallets, w.address@) + w.amount > u64::MAX {
                    (l, Err(LotteryError::Overflow))
                } else if !has_record(l.records, w.token_account@) || !(record_at(
                    l.records,
                    w.token_account@,
                ).data is TokenAccount) {
                    (l, Err(LotteryError::InvalidAccount))
                } else if record_at(l.records, w.token_account@).data->TokenAccount_0.amount
                    == 0 {
                    (l, Err(LotteryError::InsufficientFunds))
                } else if !has_record(l.records, mint@) || !(record_at(
                    l.records,
                    mint@,
                ).data is Mint) {
                    (l, Err(LotteryError::InvalidAccount))
                } else if record_at(l.records, mint@).data->Mint_0.supply == 0 {
                    (l, Err(LotteryError::InsufficientFunds))
                } else {
                    let vault_rec = record_at(l.records, vault@);
                    let token_rec = record_at(l.records, w.token_account@);
                    let token = token_rec.data->TokenAccount_0;
                    let mint_rec = record_at(l.records, mint@);
                    let mint_state = mint_rec.data->Mint_0;
                    let rs1 = update_record(
                        l.records,
                        vault@,
                        Record { lamports: (vault_rec.lamports - w.amount) as u64, ..vault_rec },
                    );
                    let rs2 = update_record(
                        rs1,
                        w.token_account@,
                        Record {
                            data: RecordData::TokenAccount(
                                TokenAccountState { amount: (token.amount - 1) as u64, ..token },
                            ),
                            ..token_rec
                        },
                    );
                    let rs3 = update_record(
                        rs2,
                        mint@,
                        Record {
                            data: RecordData::Mint(
                                MintState { supply: (mint_state.supply - 1) as u64, ..mint_state },
                            ),
                            ..mint_rec
                        },
                    );
                    (
                        LedgerV {
                            records: rs3,
                            wallets: set_wallet_balance(
                                l.wallets,
                                w.address,
                                (wallet_balance(l.wallets, w.address@) + w.amount) as u64,
                            ),
                            ..l
                        },
                        Ok(()),
                    )
                }
            }
        },
    }
}

/// Processing of the claimants in input order; the first failure stops the
/// run and returns the state reached so far.
pub open spec fn spec_process_winners(
    l: LedgerV,
    vault: [u8; 32],
    mint: [u8; 32],
    winners: Seq<DraftWinner>,
) -> (LedgerV, Result<(), LotteryError>)
    decreases winners.len(),
{
    if winners.len() == 0 {
        (l, Ok(()))
    } else {
        let (l1, first_result) = spec_process_winner(l, vault, mint, winners[0]);
        match first_result {
            Err(e) => (l1, Err(e)),
            Ok(()) => spec_process_winners(l1, vault, mint, winners.drop_first()),
        }
    }
}

/// The whole draft transition: the authority signs, the vault must be owned
/// by this program and sit at the derived address; the draft counter is
/// incremented, then the claimants run in order. A failure among them leaves
/// the counter and earlier payouts in the returned state; the router rolls
/// the whole instruction back.
pub open spec fn spec_process_draft(
    l: LedgerV,
    authority: [u8; 32],
    authority_signed: bool,
    vault: [u8; 32],
    mint: [u8; 32],
    winners: Seq<DraftWinner>,
) -> (LedgerV, Result<(), LotteryError>) {
    if !authority_signed {
        (l, Err(LotteryError::AuthorityMustSign))
    } else if !has_record(l.records, vault@) || record_at(l.records, vault@).owner@
        != l.program_id@ {
        (l, Err(LotteryError::IncorrectOwner))
    } else {
        match spec_vault_pda(l.program_id, authority) {
            None => (l, Err(LotteryError::InvalidStakePoolVault)),
            Some((derived, _nonce)) => {
                if vault@ != derived@ {
                    (l, Err(LotteryError::InvalidStakePoolVault))
                } else if !(record_at(l.records, vault@).data is Pool) {
                    (l, Err(LotteryError::InvalidAccount))
                } else {
                    let vault_rec = record_at(l.records, vault@);
                    let pool = vault_rec.data->Pool_0;
                    if pool.draft_count + 1 > u64::MAX {
                        (l, Err(LotteryError::Overflow))
                    } else {
                        let bumped = LedgerV {
                            records: update_record(
                                l.records,
                                vault@,
                                Record {
                                    data: RecordData::Pool(
                                        crate::state::PoolStorageData {
                                            draft_count: (pool.draft_count + 1) as u64,
                                            ..pool
                                        },
                                    ),
                                    ..vault_rec
                                },
                            ),
                            ..l
                        };
                        spec_process_winners(bumped, vault, mint, winners)
                    }
                }
            },
        }
    }
}

/// Pay one claimant and burn one of their receipt units, after verifying
/// their Merkle proof against the root committed in their ticket record.
pub fn process_winner(ledger: &mut Ledger, vault: &[u8; 32], mint: &[u8; 32], winner: &DraftWinner)
    -> (r: Result<(), LotteryError>)
    ensures
        final(ledger)@ == spec_process_winner(old(ledger)@, *vault, *mint, *winner).0,
        r == spec_process_winner(old(ledger)@, *vault, *mint, *winner).1,
{
    let (derived, _nonce) = match find_player_pda_account(&ledger.program_id, &winner.address) {
        Some(p) => p,
        None => {
            return Err(LotteryError::InvalidPlayerPdaAccount);
        },
    };
    let ticket_index = match find_record(&ledger.records, &derived) {
        Some(i) => i,
        None => {
            return Err(LotteryError::InvalidAccount);
        },
    };
    let ticket = match ledger.records[ticket_index].data {
        RecordData::Ticket(t) => t,
        _ => {
            return Err(LotteryError::InvalidAccount);
        },
    };
    if !verify_ticket_proof(
        &ticket.merkle_root,
        &winner.ticket_indices,
        &winner.tickets,
        ticket.total_tickets,
        &winner.proof,
    ) {
        return Err(LotteryError::InvalidTicket);
    }
    let vault_index = match find_record(&ledger.records, vault) {
        Some(i) => i,
        None => {
            return Err(LotteryError::InvalidAccount);
        },
    };
    let vault_rec = ledger.records[vault_index];
    if !matches!(vault_rec.data, RecordData::Pool(_)) {
        return Err(LotteryError::InvalidAccount);
    }
    if winner.amount > vault_rec.lamports {
        return Err(LotteryError::InsufficientFunds);
    }
    let winner_balance = ledger.wallet_balance_at(&winner.address);
    let new_balance = match winner_balance.checked_add(winner.amount) {
        Some(v) => v,
        None => {
            return Err(LotteryError::Overflow);
        },
    };
    let token_index = match find_record(&ledger.records, &winner.token_account) {
        Some(i) => i,
        None => {
            return Err(LotteryError::InvalidAccount);
        },
    };
    let token_rec = ledger.records[token_index];
    let token = match token_rec.data {
        RecordData::TokenAccount(t) => t,
        _ => {
            return Err(LotteryError::InvalidAccount);
        },
    };
    if token.amount == 0 {
        return Err(LotteryError::InsufficientFunds);
    }
    let mint_index = match find_record(&ledger.records, mint) {
        Some(i) => i,
        None => {
            return Err(LotteryError::InvalidAccount);
        },
    };
    let mint_rec = ledger.records[mint_index];
    let mint_state = match mint_rec.data {
        RecordData::Mint(m) => m,
        _ => {
            return Err(LotteryError::InvalidAccount);
        },
    };
    if mint_state.supply == 0 {
        return Err(LotteryError::InsufficientFunds);
    }
    proof {
        // Vault, receipt balance and mint hold different kinds of data, so
        // their addresses are pairwise distinct and the updates below leave
        // each other's positions untouched.
        crate::ledger::lemma_rec_index(ledger@.records, vault@);
        crate::ledger::lemma_rec_index(ledger@.records, winner.token_account@);
        crate::ledger::lemma_rec_index(ledger@.records, mint@);
        assert(vault@ != winner.token_account@ && vault@ != mint@ && winner.token_account@
            != mint@);
    }
    let rs0 = Ghost(ledger@.records);
    ledger.records[vault_index] = Record {
        lamports: vault_rec.lamports - winner.amount,
        ..vault_rec
    };
    proof {
        crate::ledger::lemma_rec_index_update(rs0@, vault@, ledger@.records[vault_index as int]);
    }
    let rs1 = Ghost(ledger@.records);
    ledger.records[token_index] = Record {
        data: RecordData::TokenAccount(TokenAccountState { amount: token.amount - 1, ..token }),
        ..token_rec
    };
    proof {
        crate::ledger::lemma_rec_index_update(
            rs1@,
            winner.token_account@,
            ledger@.records[token_index as int],
        );
    }
    ledger.records[mint_index] = Record {
        data: RecordData::Mint(MintState { supply: mint_state.supply - 1, ..mint_state }),
        ..mint_rec
    };
    write_wallet_balance(&mut ledger.wallets, &winner.address, new_balance);
    Ok(())
}

/// Execute a draft: increment the pool's draft counter, then pay each
/// proved claimant in input order.
#[verifier::loop_isolation(false)]
pub fn process_draft(
    ledger: &mut Ledger,
    authority: &[u8; 32],
    authority_signed: bool,
    vault: &[u8; 32],
    mint: &[u8; 32],
    winners: &Vec<DraftWinner>,
) -> (r: Result<(), LotteryError>)
    ensures
        final(ledger)@ == spec_process_draft(
            old(ledger)@,
            *authority,
            authority_signed,
            *vault,
            *mint,
            winners@,
        ).0,
        r == spec_process_draft(
            old(ledger)@,
            *authority,
            authority_signed,
            *vault,
            *mint,
            winners@,
        ).1,
{
    if !authority_signed {
        return Err(LotteryError::AuthorityMustSign);
    }
    let vault_index = match find_record(&ledger.records, vault) {
        Some(i) => i,
        None => {
            return Err(LotteryError::IncorrectOwner);
        },
    };
    let vault_rec = ledger.records[vault_index];
    if !crate::ledger::key_eq(&vault_rec.owner, &ledger.program_id) {
        return Err(LotteryError::IncorrectOwner);
    }
    let (derived, _nonce) = match find_stake_pool_vault_pda(&ledger.program_id, authority) {
        Some(p) => p,
        None => {
            return Err(LotteryError::InvalidStakePoolVault);
        },
    };
    if !crate::ledger::key_eq(vault, &derived) {
        return Err(LotteryError::InvalidStakePoolVault);
    }
    let pool = match vault_rec.data {
        RecordData::Pool(p) => p,
        _ => {
            return Err(LotteryError::InvalidAccount);
        },
    };
    let new_count = match pool.draft_count.checked_add(1) {
        Some(v) => v,
        None => {
            return Err(LotteryError::Overflow);
        },
    };
    ledger.records[vault_index] = Record {
        data: RecordData::Pool(
            crate::state::PoolStorageData { draft_count: new_count, ..pool },
        ),
        ..vault_rec
    };
    let ghost bumped = ledger@;
    proof {
        assert(winners@.skip(0) =~= winners@);
    }
    let mut k: usize = 0;
    while k < winners.len()
        invariant
            k <= winners@.len(),
            spec_process_winners(bumped, *vault, *mint, winners@) == spec_process_winners(
                ledger@,
                *vault,
                *mint,
                winners@.skip(k as int),
            ),
        decreases winners@.len() - k,
    {
        proof {
            assert(winners@.skip(k as int)[0] == winners@[k as int]);
        }
        let step = process_winner(ledger, vault, mint, &winners[k]);
        if let Err(e) = step {
            return Err(e);
        }
        proof {
            assert(winners@.skip(k as int).drop_first() =~= winners@.skip(k as int + 1));
        }
        k += 1;
    }
    proof {
        assert(winners@.skip(winners@.len() as int) =~= Seq::<DraftWinner>::empty());
    }
    Ok(())
}

} // verus!
