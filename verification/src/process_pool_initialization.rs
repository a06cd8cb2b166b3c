//! Pool initialization: create the vault record and the receipt mint for an
//! authority.

use vstd::prelude::*;

use crate::error::LotteryError;
use crate::ledger::{
    find_record, has_record, wallet_balance, write_wallet_balance, Ledger, LedgerV, MintState,
    Record, RecordData,
};
use crate::pda::{find_stake_pool_mint_pda, find_stake_pool_vault_pda, spec_mint_pda,
    spec_vault_pda};
use crate::state::PoolStorageData;

verus! {

/// Creation of the vault record: the claimed address must be the derived
/// one, the address must be empty, and the authority must hold the record's
/// minimum-balance floor plus the initial amount. The new pool starts with
/// `draft_count` zero, whatever the payload says. On an error the ledger is
/// returned unchanged.
pub open spec fn spec_initialize_pool_vault(
    l: LedgerV,
    authority: [u8; 32],
    vault: [u8; 32],
    data: PoolStorageData,
) -> (LedgerV, Result<(), LotteryError>) {
    match spec_vault_pda(l.program_id, authority) {
        None => (l, Err(LotteryError::InvalidStakePoolVault)),
        Some((derived, _nonce)) => {
            if vault@ != derived@ {
                (l, Err(LotteryError::InvalidStakePoolVault))
            } else if has_record(l.records, derived@) {
                (l, Err(LotteryError::AccountAlreadyInitialized))
            } else if l.floors.pool_record + data.vault_balance_floor > u64::MAX {
                (l, Err(LotteryError::Overflow))
            } else if wallet_balance(l.wallets, authority@) < l.floors.pool_record
                + data.vault_balance_floor {
                (l, Err(LotteryError::InsufficientFunds))
            } else {
                let funding = (l.floors.pool_record + data.vault_balance_floor) as u64;
                (
                    LedgerV {
                        records: l.records.push(
                            Record {
                                address: derived,
                                owner: l.program_id,
                                lamports: funding,
                                data: RecordData::Pool(
                                    PoolStorageData {
                                        ticket_price: data.ticket_price,
                                        draft_count: 0,
                                        vault_balance_floor: data.vault_balance_floor,
                                    },
                                ),
                            },
                        ),
                        wallets: crate::ledger::set_wallet_balance(
                            l.wallets,
                            authority,
                            (wallet_balance(l.wallets, authority@) - funding) as u64,
                        ),
                        ..l
                    },
                    Ok(()),
                )
            }
        },
    }
}

/// Creation of the receipt mint: the claimed address must be the derived
/// one, the address must be empty, and the authority must hold the mint
/// record's floor. The mint starts with supply zero, zero decimals, and the
/// derived address itself as mint authority. On an error the ledger is
/// returned unchanged.
pub open spec fn spec_initialize_pool_mint(
    l: LedgerV,
    authority: [u8; 32],
    mint: [u8; 32],
) -> (LedgerV, Result<(), LotteryError>) {
    match spec_mint_pda(l.program_id, authority) {
        None => (l, Err(LotteryError::InvalidStakePoolVault)),
        Some((derived, _nonce)) => {
            if mint@ != derived@ {
                (l, Err(LotteryError::InvalidStakePoolVault))
            } else if has_record(l.records, derived@) {
                (l, Err(LotteryError::AccountAlreadyInitialized))
            } else if wallet_balance(l.wallets, authority@) < l.floors.mint_record {
                (l, Err(LotteryError::InsufficientFunds))
            } else {
                (
                    LedgerV {
                        records: l.records.push(
                            Record {
                                address: derived,
                                owner: l.token_program_id,
                                lamports: l.floors.mint_record,
                                data: RecordData::Mint(
                                    MintState { mint_authority: derived, decimals: 0, supply: 0 },
                                ),
                            },
                        ),
                        wallets: crate::ledger::set_wallet_balance(
                            l.wallets,
                            authority,
                            (wallet_balance(l.wallets, authority@) - l.floors.mint_record) as u64,
                        ),
                        ..l
                    },
                    Ok(()),
                )
            }
        },
    }
}

/// The whole initialization: the authority signs, the vault record is
/// created, then the receipt mint. A failure of the mint step leaves the
/// vault created in the returned state; the router rolls the whole
/// instruction back.
pub open spec fn spec_process_pool_initialization(
    l: LedgerV,
    authority: [u8; 32],
    authority_signed: bool,
    vault: [u8; 32],
    mint: [u8; 32],
    data: PoolStorageData,
) -> (LedgerV, Result<(), LotteryError>) {
    if !authority_signed {
        (l, Err(LotteryError::AuthorityMustSign))
    } else {
        let (l1, vault_result) = spec_initialize_pool_vault(l, authority, vault, data);
        match vault_result {
            Err(e) => (l1, Err(e)),
            Ok(()) => spec_initialize_pool_mint(l1, authority, mint),
        }
    }
}

/// Create the vault record at its derived address, funded with its floor
/// plus the initial amount, holding the pool data with `draft_count` zero.
pub fn initialize_pool_vault(
    ledger: &mut Ledger,
    authority: &[u8; 32],
    vault: &[u8; 32],
    data: &PoolStorageData,
) -> (r: Result<(), LotteryError>)
    ensures
        final(ledger)@ == spec_initialize_pool_vault(old(ledger)@, *authority, *vault, *data).0,
        r == spec_initialize_pool_vault(old(ledger)@, *authority, *vault, *data).1,
{
    let (derived, _nonce) = match find_stake_pool_vault_pda(&ledger.program_id, authority) {
        Some(p) => p,
        None => {
            return Err(LotteryError::InvalidStakePoolVault);
        },
    };
    if !crate::ledger::key_eq(vault, &derived) {
        return Err(LotteryError::InvalidStakePoolVault);
    }
    if find_record(&ledger.records, &derived).is_some() {
        return Err(LotteryError::AccountAlreadyInitialized);
    }
    let funding = match ledger.floors.pool_record.checked_add(data.vault_balance_floor) {
        Some(v) => v,
        None => {
            return Err(LotteryError::Overflow);
        },
    };
    let authority_balance = ledger.wallet_balance_at(authority);
    if authority_balance < funding {
        return Err(LotteryError::InsufficientFunds);
    }
    let program_id = ledger.program_id;
    ledger.records.push(
        Record {
            address: derived,
            owner: program_id,
            lamports: funding,
            data: RecordData::Pool(
                PoolStorageData {
                    ticket_price: data.ticket_price,
                    draft_count: 0,
                    vault_balance_floor: data.vault_balance_floor,
                },
            ),
        },
    );
    write_wallet_balance(&mut ledger.wallets, authority, authority_balance - funding);
    Ok(())
}

/// Create the receipt mint at its derived address: decimals zero, supply
/// zero, mint authority the derived address itself.
pub fn initialize_pool_mint(ledger: &mut Ledger, authority: &[u8; 32], mint: &[u8; 32]) -> (r:
    Result<(), LotteryError>)
    ensures
        final(ledger)@ == spec_initialize_pool_mint(old(ledger)@, *authority, *mint).0,
        r == spec_initialize_pool_mint(old(ledger)@, *authority, *mint).1,
{
    let (derived, _nonce) = match find_stake_pool_mint_pda(&ledger.program_id, authority) {
        Some(p) => p,
        None => {
            return Err(LotteryError::InvalidStakePoolVault);
        },
    };
    if !crate::ledger::key_eq(mint, &derived) {
        return Err(LotteryError::InvalidStakePoolVault);
    }
    if find_record(&ledger.records, &derived).is_some() {
        return Err(LotteryError::AccountAlreadyInitialized);
    }
    let authority_balance = ledger.wallet_balance_at(authority);
    let floor = ledger.floors.mint_record;
    if authority_balance < floor {
        return Err(LotteryError::InsufficientFunds);
    }
    let token_program_id = ledger.token_program_id;
    ledger.records.push(
        Record {
            address: derived,
            owner: token_program_id,
            lamports: floor,
            data: RecordData::Mint(MintState { mint_authority: derived, decimals: 0, supply: 0 }),
        },
    );
    write_wallet_balance(&mut ledger.wallets, authority, authority_balance - floor);
    Ok(())
}

/// Initialize a pool: the signing authority supplies the pool configuration
/// and the claimed vault and mint addresses; both records are created at
/// their derived addresses.
pub fn process_pool_initialization(
    ledger: &mut Ledger,
    authority: &[u8; 32],
    authority_signed: bool,
    vault: &[u8; 32],
    mint: &[u8; 32],
    data: &PoolStorageData,
) -> (r: Result<(), LotteryError>)
    ensures
        final(ledger)@ == spec_process_pool_initialization(
            old(ledger)@,
            *authority,
            authority_signed,
            *vault,
            *mint,
            *data,
        ).0,
        r == spec_process_pool_initialization(
            old(ledger)@,
            *authority,
            authority_signed,
            *vault,
            *mint,
            *data,
        ).1,
{
    if !authority_signed {
        return Err(LotteryError::AuthorityMustSign);
    }
    initialize_pool_vault(ledger, authority, vault, data)?;
    initialize_pool_mint(ledger, authority, mint)
}

} // verus!
