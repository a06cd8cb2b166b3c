//! Laws of the instruction state machine that span several transitions.

use vstd::prelude::*;

use crate::error::LotteryError;
use crate::ledger::{has_record, record_at, remove_record, update_record, LedgerV, Record};
use crate::ledger::{
    lemma_rec_index, lemma_rec_index_push, lemma_rec_index_remove, lemma_rec_index_update,
};
use crate::process_pool_initialization::{
    spec_initialize_pool_mint, spec_initialize_pool_vault, spec_process_pool_initialization,
};
use crate::process_purchase_ticket::spec_process_ticket_purchase;
use crate::processor::{spec_step, InstructionAccounts};
use crate::state::{Instruction, PoolStorageData, TicketAccountData};

verus! {

/// Initializing a pool twice for the same authority: once an initialization
/// has succeeded, a second signed attempt with the same claimed addresses
/// fails with `AccountAlreadyInitialized`, whatever its payload, and the
/// failed attempt leaves the ledger exactly as the first call left it.
pub proof fn lemma_reinitialize_pool_fails(
    l: LedgerV,
    authority: [u8; 32],
    signed: bool,
    vault: [u8; 32],
    mint: [u8; 32],
    first: PoolStorageData,
    second: PoolStorageData,
)
    requires
        spec_process_pool_initialization(l, authority, signed, vault, mint, first).1 is Ok,
    ensures
        ({
            let l1 = spec_process_pool_initialization(l, authority, signed, vault, mint, first).0;
            spec_process_pool_initialization(l1, authority, true, vault, mint, second) == (
                l1,
                Err::<(), LotteryError>(LotteryError::AccountAlreadyInitialized),
            )
        }),
{
    let (lv, vault_result) = spec_initialize_pool_vault(l, authority, vault, first);
    let derived_vault = crate::pda::spec_vault_pda(l.program_id, authority).unwrap().0;
    lemma_rec_index_push(l.records, lv.records.last());
    let (l1, mint_result) = spec_initialize_pool_mint(lv, authority, mint);
    let derived_mint = crate::pda::spec_mint_pda(lv.program_id, authority).unwrap().0;
    // The mint step succeeded, so the mint's derived address was still empty
    // after the vault record was created: the two addresses differ, and the
    // vault record survives the mint push unmoved.
    assert(!has_record(lv.records, derived_mint@));
    assert(derived_mint@ != derived_vault@);
    lemma_rec_index_push(lv.records, l1.records.last());
    assert(has_record(l1.records, derived_vault@));
}

/// Round trip of a purchase: when `PurchaseTicket` succeeds, the player's
/// ticket record afterwards holds exactly the supplied Merkle root and
/// ticket count.
pub proof fn lemma_purchase_round_trip(
    l: LedgerV,
    player: [u8; 32],
    player_record: [u8; 32],
    player_token_record: [u8; 32],
    vault: [u8; 32],
    mint: [u8; 32],
    data: TicketAccountData,
)
    requires
        spec_process_ticket_purchase(
            l,
            player,
            true,
            player_record,
            player_token_record,
            vault,
            mint,
            data,
        ).1 is Ok,
    ensures
        ({
            let l1 = spec_process_ticket_purchase(
                l,
                player,
                true,
                player_record,
                player_token_record,
                vault,
                mint,
                data,
            ).0;
            &&& has_record(l1.records, player_record@)
            &&& record_at(l1.records, player_record@).data is Ticket
            &&& record_at(l1.records, player_record@).data->Ticket_0.merkle_root
                == data.merkle_root
            &&& record_at(l1.records, player_record@).data->Ticket_0.total_tickets
                == data.total_tickets
        }),
{
    let ticket_price = record_at(l.records, vault@).data->Pool_0.ticket_price;
    let (l1, record_result) = if !has_record(l.records, player_record@) {
        crate::process_purchase_ticket::spec_initialize_player_account(
            l,
            player,
            player_record,
            data,
        )
    } else {
        crate::process_purchase_ticket::spec_update_player_account(l, player_record, data)
    };
    // After the record branch, the record at the claimed address holds the
    // supplied root and count.
    if !has_record(l.records, player_record@) {
        lemma_rec_index_push(l.records, l1.records.last());
    } else {
        crate::ledger::lemma_rec_index(l.records, player_record@);
        lemma_rec_index_update(
            l.records,
            player_record@,
            l1.records[crate::ledger::rec_index(l.records, player_record@)],
        );
    }
    assert(has_record(l1.records, player_record@));
    assert(record_at(l1.records, player_record@).data->Ticket_0.merkle_root == data.merkle_root);
    let (l2, token_result) = if !has_record(l1.records, player_token_record@) {
        crate::process_purchase_ticket::spec_initialize_player_token_account(
            l1,
            player,
            player_token_record,
            mint,
        )
    } else {
        (l1, Ok::<(), LotteryError>(()))
    };
    // A token-record creation pushes at an address that was empty, so it
    // cannot be the occupied ticket-record address.
    if !has_record(l1.records, player_token_record@) {
        assert(player_token_record@ != player_record@);
        lemma_rec_index_push(l1.records, l2.records.last());
    }
    assert(record_at(l2.records, player_record@).data->Ticket_0.merkle_root == data.merkle_root);
    // Settlement rewrites the escrowed balance only, and the vault, receipt
    // and mint updates touch records of other kinds at other addresses.
    let vault_rec = record_at(l2.records, vault@);
    let ticket_rec = record_at(l2.records, player_record@);
    let ticket = ticket_rec.data->Ticket_0;
    let token_rec = record_at(l2.records, player_token_record@);
    let mint_rec = record_at(l2.records, mint@);
    crate::ledger::lemma_rec_index(l2.records, vault@);
    crate::ledger::lemma_rec_index(l2.records, player_record@);
    crate::ledger::lemma_rec_index(l2.records, player_token_record@);
    crate::ledger::lemma_rec_index(l2.records, mint@);
    assert(vault@ != player_record@);
    assert(mint@ != player_record@);
    assert(player_token_record@ != player_record@);
    let rs1 = crate::ledger::update_record(
        l2.records,
        vault@,
        crate::ledger::Record { lamports: (vault_rec.lamports + ticket_price) as u64, ..vault_rec },
    );
    lemma_rec_index_update(
        l2.records,
        vault@,
        crate::ledger::Record { lamports: (vault_rec.lamports + ticket_price) as u64, ..vault_rec },
    );
    let updated_ticket = crate::ledger::Record {
        data: crate::ledger::RecordData::Ticket(
            crate::ledger::PlayerTicketRecord {
                escrowed_balance: (ticket.escrowed_balance + ticket_price) as u64,
                ..ticket
            },
        ),
        ..ticket_rec
    };
    let rs2 = crate::ledger::update_record(rs1, player_record@, updated_ticket);
    lemma_rec_index_update(rs1, player_record@, updated_ticket);
    let token = token_rec.data->TokenAccount_0;
    let updated_token = crate::ledger::Record {
        data: crate::ledger::RecordData::TokenAccount(
            crate::ledger::TokenAccountState { amount: (token.amount + 1) as u64, ..token },
        ),
        ..token_rec
    };
    let rs3 = crate::ledger::update_record(rs2, player_token_record@, updated_token);
    lemma_rec_index_update(rs2, player_token_record@, updated_token);
    let mint_state = mint_rec.data->Mint_0;
    let updated_mint = crate::ledger::Record {
        data: crate::ledger::RecordData::Mint(
            crate::ledger::MintState { supply: (mint_state.supply + 1) as u64, ..mint_state },
        ),
        ..mint_rec
    };
    let rs4 = crate::ledger::update_record(rs3, mint@, updated_mint);
    lemma_rec_index_update(rs3, mint@, updated_mint);
    assert(record_at(rs4, player_record@) == updated_ticket);
}

// ---------------------------------------------------------------------------
// Persistence of pool records: once created, a pool record survives every
// instruction, so a pool can never be re-initialized, however many
// instructions run in between.
// ---------------------------------------------------------------------------

/// Whether a pool record lives at address `a`.
pub open spec fn pool_record_at(rs: Seq<Record>, a: Seq<u8>) -> bool {
    has_record(rs, a) && record_at(rs, a).data is Pool
}

/// Replacing a record keeps the pool at `a`, as long as a replacement at
/// `a` itself still holds pool data.
proof fn lemma_pool_at_update(rs: Seq<Record>, b: Seq<u8>, r: Record, a: Seq<u8>)
    requires
        pool_record_at(rs, a),
        has_record(rs, b),
        r.address@ == b,
        b == a ==> r.data is Pool,
    ensures
        pool_record_at(update_record(rs, b, r), a),
{
    lemma_rec_index_update(rs, b, r);
}

/// Creating a record at an empty address keeps the pool at `a`.
proof fn lemma_pool_at_push(rs: Seq<Record>, r: Record, a: Seq<u8>)
    requires
        pool_record_at(rs, a),
        !has_record(rs, r.address@),
    ensures
        pool_record_at(rs.push(r), a),
{
    assert(r.address@ != a);
    lemma_rec_index_push(rs, r);
}

/// Removing a record that holds no pool data keeps the pool at `a`.
proof fn lemma_pool_at_remove(rs: Seq<Record>, b: Seq<u8>, a: Seq<u8>)
    requires
        pool_record_at(rs, a),
        has_record(rs, b),
        !(record_at(rs, b).data is Pool),
    ensures
        pool_record_at(remove_record(rs, b), a),
{
    assert(b != a);
    lemma_rec_index_remove(rs, b);
}

/// Pool initialization keeps the pool at `a`: it only creates records at
/// empty addresses.
proof fn lemma_pool_init_preserves_pool(
    l: LedgerV,
    authority: [u8; 32],
    signed: bool,
    vault: [u8; 32],
    mint: [u8; 32],
    d: PoolStorageData,
    a: Seq<u8>,
)
    requires
        pool_record_at(l.records, a),
    ensures
        pool_record_at(
            spec_process_pool_initialization(l, authority, signed, vault, mint, d).0.records,
            a,
        ),
{
    let (l1, vault_result) = spec_initialize_pool_vault(l, authority, vault, d);
    if signed {
        if vault_result is Ok {
            lemma_pool_at_push(l.records, l1.records.last(), a);
            let (l2, mint_result) = spec_initialize_pool_mint(l1, authority, mint);
            if mint_result is Ok {
                lemma_pool_at_push(l1.records, l2.records.last(), a);
            }
        }
    }
}

/// A deposit keeps the pool at `a`: it only raises a record's balance.
proof fn lemma_deposit_preserves_pool(
    l: LedgerV,
    payer: [u8; 32],
    vault: [u8; 32],
    amount: u64,
    a: Seq<u8>,
)
    requires
        pool_record_at(l.records, a),
    ensures
        pool_record_at(
            crate::process_deposit::spec_process_deposit(l, payer, vault, amount).0.records,
            a,
        ),
{
    let (l1, r) = crate::process_deposit::spec_process_deposit(l, payer, vault, amount);
    if r is Ok {
        let rec = record_at(l.records, vault@);
        lemma_rec_index(l.records, vault@);
        lemma_pool_at_update(
            l.records,
            vault@,
            Record { lamports: (rec.lamports + amount) as u64, ..rec },
            a,
        );
    }
}

/// A purchase keeps the pool at `a`: it creates player records at empty
/// addresses and rewrites records of other kinds, touching the vault's
/// balance only.
proof fn lemma_purchase_preserves_pool(
    l: LedgerV,
    player: [u8; 32],
    player_signed: bool,
    player_record: [u8; 32],
    player_token_record: [u8; 32],
    vault: [u8; 32],
    mint: [u8; 32],
    data: TicketAccountData,
    a: Seq<u8>,
)
    requires
        pool_record_at(l.records, a),
    ensures
        pool_record_at(
            spec_process_ticket_purchase(
                l,
                player,
                player_signed,
                player_record,
                player_token_record,
                vault,
                mint,
                data,
            ).0.records,
            a,
        ),
{
    if !player_signed || !pool_record_at(l.records, vault@) || !has_record(l.records, mint@) || !(
    record_at(l.records, mint@).data is Mint) {
        return ;
    }
    let ticket_price = record_at(l.records, vault@).data->Pool_0.ticket_price;
    let (l1, record_result) = if !has_record(l.records, player_record@) {
        crate::process_purchase_ticket::spec_initialize_player_account(
            l,
            player,
            player_record,
            data,
        )
    } else {
        crate::process_purchase_ticket::spec_update_player_account(l, player_record, data)
    };
    if !has_record(l.records, player_record@) {
        if record_result is Ok {
            lemma_pool_at_push(l.records, l1.records.last(), a);
        }
    } else {
        if record_result is Ok {
            let rec = record_at(l.records, player_record@);
            lemma_rec_index(l.records, player_record@);
            lemma_pool_at_update(
                l.records,
                player_record@,
                l1.records[crate::ledger::rec_index(l.records, player_record@)],
                a,
            );
        }
    }
    if record_result is Err {
        return ;
    }
    let (l2, token_result) = if !has_record(l1.records, player_token_record@) {
        crate::process_purchase_ticket::spec_initialize_player_token_account(
            l1,
            player,
            player_token_record,
            mint,
        )
    } else {
        (l1, Ok::<(), LotteryError>(()))
    };
    if !has_record(l1.records, player_token_record@) && token_result is Ok {
        lemma_pool_at_push(l1.records, l2.records.last(), a);
    }
    if token_result is Err {
        return ;
    }
    // Settlement: the vault keeps its pool data; the other three updates
    // rewrite records of other kinds.
    if !pool_record_at(l2.records, vault@) || !has_record(l2.records, player_record@) || !(
    record_at(l2.records, player_record@).data is Ticket) || !has_record(l2.records, mint@) || !(
    record_at(l2.records, mint@).data is Mint) || !has_record(l2.records, player_token_record@)
        || !(record_at(l2.records, player_token_record@).data is TokenAccount) {
        return ;
    }
    if crate::ledger::wallet_balance(l2.wallets, player@) < ticket_price {
        return ;
    }
    let vault_rec = record_at(l2.records, vault@);
    let ticket_rec = record_at(l2.records, player_record@);
    let ticket = ticket_rec.data->Ticket_0;
    let token_rec = record_at(l2.records, player_token_record@);
    let token = token_rec.data->TokenAccount_0;
    let mint_rec = record_at(l2.records, mint@);
    let mint_state = mint_rec.data->Mint_0;
    if vault_rec.lamports + ticket_price > u64::MAX || ticket.escrowed_balance + ticket_price
        > u64::MAX || token.amount + 1 > u64::MAX || mint_state.supply + 1 > u64::MAX {
        return ;
    }
    lemma_rec_index(l2.records, vault@);
    lemma_rec_index(l2.records, player_record@);
    lemma_rec_index(l2.records, player_token_record@);
    lemma_rec_index(l2.records, mint@);
    let r1 = Record { lamports: (vault_rec.lamports + ticket_price) as u64, ..vault_rec };
    let rs1 = update_record(l2.records, vault@, r1);
    lemma_pool_at_update(l2.records, vault@, r1, a);
    lemma_rec_index_update(l2.records, vault@, r1);
    let r2 = Record {
        data: crate::ledger::RecordData::Ticket(
            crate::ledger::PlayerTicketRecord {
                escrowed_balance: (ticket.escrowed_balance + ticket_price) as u64,
                ..ticket
            },
        ),
        ..ticket_rec
    };
    let rs2 = update_record(rs1, player_record@, r2);
    lemma_pool_at_update(rs1, player_record@, r2, a);
    lemma_rec_index_update(rs1, player_record@, r2);
    let r3 = Record {
        data: crate::ledger::RecordData::TokenAccount(
            crate::ledger::TokenAccountState { amount: (token.amount + 1) as u64, ..token },
        ),
        ..token_rec
    };
    let rs3 = update_record(rs2, player_token_record@, r3);
    lemma_pool_at_update(rs2, player_token_record@, r3, a);
    lemma_rec_index_update(rs2, player_token_record@, r3);
    let r4 = Record {
        data: crate::ledger::RecordData::Mint(
            crate::ledger::MintState { supply: (mint_state.supply + 1) as u64, ..mint_state },
        ),
        ..mint_rec
    };
    lemma_pool_at_update(rs3, mint@, r4, a);
}

/// A withdrawal keeps the pool at `a`: it rewrites a ticket record only.
proof fn lemma_withdraw_preserves_pool(
    l: LedgerV,
    player: [u8; 32],
    player_signed: bool,
    player_record: [u8; 32],
    amount: u64,
    a: Seq<u8>,
)
    requires
        pool_record_at(l.records, a),
    ensures
        pool_record_at(
            crate::process_player_withdraw::spec_process_player_withdraw(
                l,
                player,
                player_signed,
                player_record,
                amount,
            ).0.records,
            a,
        ),
{
    let (l1, r) = crate::process_player_withdraw::spec_process_player_withdraw(
        l,
        player,
        player_signed,
        player_record,
        amount,
    );
    if r is Ok {
        let rec = record_at(l.records, player_record@);
        lemma_rec_index(l.records, player_record@);
        lemma_pool_at_update(
            l.records,
            player_record@,
            l1.records[crate::ledger::rec_index(l.records, player_record@)],
            a,
        );
    }
}

/// One draft claimant keeps the pool at `a`: the vault keeps its pool data,
/// and the receipt and mint updates rewrite records of other kinds.
proof fn lemma_winner_preserves_pool(
    l: LedgerV,
    vault: [u8; 32],
    mint: [u8; 32],
    w: crate::state::DraftWinner,
    a: Seq<u8>,
)
    requires
        pool_record_at(l.records, a),
    ensures
        pool_record_at(
            crate::process_draft::spec_process_winner(l, vault, mint, w).0.records,
            a,
        ),
{
    let (l1, r) = crate::process_draft::spec_process_winner(l, vault, mint, w);
    if r is Ok {
        let vault_rec = record_at(l.records, vault@);
        let token_rec = record_at(l.records, w.token_account@);
        let token = token_rec.data->TokenAccount_0;
        let mint_rec = record_at(l.records, mint@);
        let mint_state = mint_rec.data->Mint_0;
        lemma_rec_index(l.records, vault@);
        lemma_rec_index(l.records, w.token_account@);
        lemma_rec_index(l.records, mint@);
        let r1 = Record { lamports: (vault_rec.lamports - w.amount) as u64, ..vault_rec };
        let rs1 = update_record(l.records, vault@, r1);
        lemma_pool_at_update(l.records, vault@, r1, a);
        lemma_rec_index_update(l.records, vault@, r1);
        let r2 = Record {
            data: crate::ledger::RecordData::TokenAccount(
                crate::ledger::TokenAccountState { amount: (token.amount - 1) as u64, ..token },
            ),
            ..token_rec
        };
        let rs2 = update_record(rs1, w.token_account@, r2);
        lemma_pool_at_update(rs1, w.token_account@, r2, a);
        lemma_rec_index_update(rs1, w.token_account@, r2);
        let r3 = Record {
            data: crate::ledger::RecordData::Mint(
                crate::ledger::MintState { supply: (mint_state.supply - 1) as u64, ..mint_state },
            ),
            ..mint_rec
        };
        lemma_pool_at_update(rs2, mint@, r3, a);
    }
}

/// A run of draft claimants keeps the pool at `a`.
proof fn lemma_winners_preserve_pool(
    l: LedgerV,
    vault: [u8; 32],
    mint: [u8; 32],
    winners: Seq<crate::state::DraftWinner>,
    a: Seq<u8>,
)
    requires
        pool_record_at(l.records, a),
    ensures
        pool_record_at(
            crate::process_draft::spec_process_winners(l, vault, mint, winners).0.records,
            a,
        ),
    decreases winners.len(),
{
    if winners.len() > 0 {
        let (l1, first_result) = crate::process_draft::spec_process_winner(
            l,
            vault,
            mint,
            winners[0],
        );
        lemma_winner_preserves_pool(l, vault, mint, winners[0], a);
        if first_result is Ok {
            lemma_winners_preserve_pool(l1, vault, mint, winners.drop_first(), a);
        }
    }
}

/// A draft keeps the pool at `a`: the counter bump keeps pool data in the
/// vault, and each claimant preserves the pool.
proof fn lemma_draft_preserves_pool(
    l: LedgerV,
    authority: [u8; 32],
    authority_signed: bool,
    vault: [u8; 32],
    mint: [u8; 32],
    winners: Seq<crate::state::DraftWinner>,
    a: Seq<u8>,
)
    requires
        pool_record_at(l.records, a),
    ensures
        pool_record_at(
            crate::process_draft::spec_process_draft(
                l,
                authority,
                authority_signed,
                vault,
                mint,
                winners,
            ).0.records,
            a,
        ),
{
    if authority_signed && has_record(l.records, vault@) && record_at(l.records, vault@).owner@
        == l.program_id@ && crate::pda::spec_vault_pda(l.program_id, authority) is Some {
        let (derived, _nonce) = crate::pda::spec_vault_pda(l.program_id, authority).unwrap();
        if vault@ == derived@ && record_at(l.records, vault@).data is Pool {
            let vault_rec = record_at(l.records, vault@);
            let pool = vault_rec.data->Pool_0;
            if pool.draft_count + 1 <= u64::MAX {
                let bumped_rec = Record {
                    data: crate::ledger::RecordData::Pool(
                        PoolStorageData { draft_count: (pool.draft_count + 1) as u64, ..pool },
                    ),
                    ..vault_rec
                };
                lemma_rec_index(l.records, vault@);
                lemma_pool_at_update(l.records, vault@, bumped_rec, a);
                let bumped = LedgerV {
                    records: update_record(l.records, vault@, bumped_rec),
                    ..l
                };
                lemma_winners_preserve_pool(bumped, vault, mint, winners, a);
            }
        }
    }
}

/// Closing player records keeps the pool at `a`: only a ticket record and a
/// receipt-balance record are removed.
proof fn lemma_close_preserves_pool(
    l: LedgerV,
    player: [u8; 32],
    player_signed: bool,
    player_record: [u8; 32],
    player_token_record: [u8; 32],
    a: Seq<u8>,
)
    requires
        pool_record_at(l.records, a),
    ensures
        pool_record_at(
            crate::process_close_player_account::spec_process_close_player_account(
                l,
                player,
                player_signed,
                player_record,
                player_token_record,
            ).0.records,
            a,
        ),
{
    let (l1, r) = crate::process_close_player_account::spec_process_close_player_account(
        l,
        player,
        player_signed,
        player_record,
        player_token_record,
    );
    if r is Ok {
        let token = record_at(l.records, player_token_record@).data->TokenAccount_0;
        let rs1 = if token.amount == 0 {
            lemma_pool_at_remove(l.records, player_token_record@, a);
            lemma_rec_index_remove(l.records, player_token_record@);
            remove_record(l.records, player_token_record@)
        } else {
            l.records
        };
        lemma_pool_at_remove(rs1, player_record@, a);
    }
}

/// Once a pool record exists at an address, every instruction leaves a pool
/// record there — in the state an instruction reaches, whether it succeeds
/// or fails.
pub proof fn lemma_pool_record_persists(
    l: LedgerV,
    accounts: InstructionAccounts,
    instruction: Instruction,
    a: Seq<u8>,
)
    requires
        pool_record_at(l.records, a),
    ensures
        pool_record_at(spec_step(l, accounts, instruction).0.records, a),
{
    match instruction {
        Instruction::InitializePool(d) => {
            lemma_pool_init_preserves_pool(
                l,
                accounts.authority,
                accounts.authority_signed,
                accounts.vault,
                accounts.mint,
                d,
                a,
            );
        },
        Instruction::Deposit(amount) => {
            lemma_deposit_preserves_pool(l, accounts.player, accounts.vault, amount, a);
        },
        Instruction::PurchaseTicket(t) => {
            lemma_purchase_preserves_pool(
                l,
                accounts.player,
                accounts.player_signed,
                accounts.player_record,
                accounts.player_token_record,
                accounts.vault,
                accounts.mint,
                t,
                a,
            );
        },
        Instruction::Withdraw(amount) => {
            lemma_withdraw_preserves_pool(
                l,
                accounts.player,
                accounts.player_signed,
                accounts.player_record,
                amount,
                a,
            );
        },
        Instruction::SelectWinnersAndAirdrop(ws) => {
            lemma_draft_preserves_pool(
                l,
                accounts.authority,
                accounts.authority_signed,
                accounts.vault,
                accounts.mint,
                ws@,
                a,
            );
        },
        Instruction::ClosePlayerAccount => {
            lemma_close_preserves_pool(
                l,
                accounts.player,
                accounts.player_signed,
                accounts.player_record,
                accounts.player_token_record,
                a,
            );
        },
    }
}

/// The state after one instruction is committed atomically: the reached
/// state on success, the starting state on failure.
pub open spec fn spec_committed_step(
    l: LedgerV,
    accounts: InstructionAccounts,
    instruction: Instruction,
) -> LedgerV {
    if spec_step(l, accounts, instruction).1 is Ok {
        spec_step(l, accounts, instruction).0
    } else {
        l
    }
}

/// The ledger after a sequence of committed instructions.
pub open spec fn spec_run(l: LedgerV, steps: Seq<(InstructionAccounts, Instruction)>) -> LedgerV
    decreases steps.len(),
{
    if steps.len() == 0 {
        l
    } else {
        spec_run(spec_committed_step(l, steps[0].0, steps[0].1), steps.drop_first())
    }
}

/// A run of draft claimants never changes the program identity.
proof fn lemma_winners_keep_identity(
    l: LedgerV,
    vault: [u8; 32],
    mint: [u8; 32],
    winners: Seq<crate::state::DraftWinner>,
)
    ensures
        crate::process_draft::spec_process_winners(l, vault, mint, winners).0.program_id
            == l.program_id,
    decreases winners.len(),
{
    if winners.len() > 0 {
        let (l1, first_result) = crate::process_draft::spec_process_winner(
            l,
            vault,
            mint,
            winners[0],
        );
        if first_result is Ok {
            lemma_winners_keep_identity(l1, vault, mint, winners.drop_first());
        }
    }
}

/// No instruction changes the program identity: transitions only touch
/// records and wallets.
pub proof fn lemma_step_keeps_identity(
    l: LedgerV,
    accounts: InstructionAccounts,
    instruction: Instruction,
)
    ensures
        spec_step(l, accounts, instruction).0.program_id == l.program_id,
{
    match instruction {
        Instruction::SelectWinnersAndAirdrop(ws) => {
            if accounts.authority_signed && has_record(l.records, accounts.vault@) && record_at(
                l.records,
                accounts.vault@,
            ).owner@ == l.program_id@ && crate::pda::spec_vault_pda(
                l.program_id,
                accounts.authority,
            ) is Some {
                let (derived, _nonce) = crate::pda::spec_vault_pda(
                    l.program_id,
                    accounts.authority,
                ).unwrap();
                if accounts.vault@ == derived@ && record_at(
                    l.records,
                    accounts.vault@,
                ).data is Pool {
                    let vault_rec = record_at(l.records, accounts.vault@);
                    let pool = vault_rec.data->Pool_0;
                    if pool.draft_count + 1 <= u64::MAX {
                        let bumped = LedgerV {
                            records: update_record(
                                l.records,
                                accounts.vault@,
                                Record {
                                    data: crate::ledger::RecordData::Pool(
                                        PoolStorageData {
                                            draft_count: (pool.draft_count + 1) as u64,
                                            ..pool
                                        },
                                    ),
                                    ..vault_rec
                                },
                            ),
                            ..l
                        };
                        lemma_winners_keep_identity(bumped, accounts.vault, accounts.mint, ws@);
                    }
                }
            }
        },
        _ => {},
    }
}

/// A pool record survives any sequence of committed instructions, and so
/// does the program identity.
pub proof fn lemma_pool_record_persists_through_run(
    l: LedgerV,
    steps: Seq<(InstructionAccounts, Instruction)>,
    a: Seq<u8>,
)
    requires
        pool_record_at(l.records, a),
    ensures
        pool_record_at(spec_run(l, steps).records, a),
        spec_run(l, steps).program_id == l.program_id,
    decreases steps.len(),
{
    if steps.len() > 0 {
        lemma_pool_record_persists(l, steps[0].0, steps[0].1, a);
        lemma_step_keeps_identity(l, steps[0].0, steps[0].1);
        lemma_pool_record_persists_through_run(
            spec_committed_step(l, steps[0].0, steps[0].1),
            steps.drop_first(),
            a,
        );
    }
}

/// Initializing a pool twice for the same authority, with any number of
/// committed instructions in between: once an initialization has succeeded,
/// a later signed attempt with the same claimed addresses fails with
/// `AccountAlreadyInitialized` and leaves the ledger it found unchanged.
pub proof fn lemma_reinitialize_pool_fails_after_any_run(
    l: LedgerV,
    authority: [u8; 32],
    signed: bool,
    vault: [u8; 32],
    mint: [u8; 32],
    first: PoolStorageData,
    steps: Seq<(InstructionAccounts, Instruction)>,
    second: PoolStorageData,
)
    requires
        spec_process_pool_initialization(l, authority, signed, vault, mint, first).1 is Ok,
    ensures
        ({
            let l1 = spec_process_pool_initialization(l, authority, signed, vault, mint, first).0;
            let l2 = spec_run(l1, steps);
            spec_process_pool_initialization(l2, authority, true, vault, mint, second) == (
                l2,
                Err::<(), LotteryError>(LotteryError::AccountAlreadyInitialized),
            )
        }),
{
    let (lv, vault_result) = spec_initialize_pool_vault(l, authority, vault, first);
    let derived_vault = crate::pda::spec_vault_pda(l.program_id, authority).unwrap().0;
    lemma_rec_index_push(l.records, lv.records.last());
    assert(pool_record_at(lv.records, derived_vault@));
    let (l1, mint_result) = spec_initialize_pool_mint(lv, authority, mint);
    lemma_pool_at_push(lv.records, l1.records.last(), derived_vault@);
    lemma_pool_record_persists_through_run(l1, steps, derived_vault@);
}

} // verus!
