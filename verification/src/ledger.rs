//! A model of the ledger platform's record store, restricted to what the
//! lottery program touches.
//!
//! The platform stores records under derived addresses and principal
//! (wallet) balances under identities. Records and wallets are held in
//! vectors; every lookup, update and removal goes by the first entry whose
//! address matches, which the spec functions [`rec_index`] and [`wal_index`]
//! pin down exactly. The minimum-balance rule of the platform is modelled by
//! the configured [`RentFloors`].

use vstd::prelude::*;

use crate::state::PoolStorageData;

verus! {

/// A player's persisted ticket record: the committed Merkle root, the leaf
/// count behind it, and the balance the player has escrowed so far.
#[derive(Clone, Copy, Debug, PartialEq, Eq)]
pub struct PlayerTicketRecord {
    /// The player's committed Merkle root, replaced whole on each purchase.
    pub merkle_root: [u8; 32],
    /// The leaf count of the tree behind `merkle_root`.
    pub total_tickets: u64,
    /// Accumulated ticket payments, drawn down by withdrawal.
    pub escrowed_balance: u64,
}

/// A receipt-token balance record: one unit per purchased, unredeemed ticket.
#[derive(Clone, Copy, Debug, PartialEq, Eq)]
pub struct TokenAccountState {
    /// Address of the mint this balance belongs to.
    pub mint: [u8; 32],
    /// Whole receipt-token units held.
    pub amount: u64,
}

/// The receipt-mint configuration record.
#[derive(Clone, Copy, Debug, PartialEq, Eq)]
pub struct MintState {
    /// The derived identity allowed to mint and burn.
    pub mint_authority: [u8; 32],
    /// Always zero: one unit is one ticket.
    pub decimals: u8,
    /// Total receipt units in circulation.
    pub supply: u64,
}

/// The typed contents of a record.
#[derive(Clone, Copy, Debug, PartialEq, Eq)]
pub enum RecordData {
    /// A stake-pool vault record.
    Pool(PoolStorageData),
    /// A player's ticket record.
    Ticket(PlayerTicketRecord),
    /// A receipt-token balance record.
    TokenAccount(TokenAccountState),
    /// A receipt-mint record.
    Mint(MintState),
}

/// One record of the platform's store.
#[derive(Clone, Copy, Debug, PartialEq, Eq)]
pub struct Record {
    /// The derived address the record lives at.
    pub address: [u8; 32],
    /// The program that owns (may mutate) the record.
    pub owner: [u8; 32],
    /// Lamports held by the record itself.
    pub lamports: u64,
    /// The typed contents.
    pub data: RecordData,
}

/// A principal balance: an identity and the lamports it holds directly.
#[derive(Clone, Copy, Debug, PartialEq, Eq)]
pub struct Wallet {
    /// The principal's identity.
    pub address: [u8; 32],
    /// Lamports held by the principal.
    pub balance: u64,
}

/// The platform's minimum-balance floors, one per record layout the program
/// allocates. A record must be funded to its floor when created.
#[derive(Clone, Copy, Debug, PartialEq, Eq, Structural)]
pub struct RentFloors {
    /// Floor of a pool record.
    pub pool_record: u64,
    /// Floor of a mint record.
    pub mint_record: u64,
    /// Floor of a player ticket record.
    pub ticket_record: u64,
    /// Floor of a receipt-token balance record.
    pub token_record: u64,
}

/// The ledger as the lottery program sees it.
#[derive(Debug, PartialEq, Eq)]
pub struct Ledger {
    /// Identity of the lottery program itself.
    pub program_id: [u8; 32],
    /// Identity of the fungible-token sub-ledger program.
    pub token_program_id: [u8; 32],
    /// The platform's minimum-balance floors.
    pub floors: RentFloors,
    /// All records, looked up by first matching address.
    pub records: Vec<Record>,
    /// All principal balances, looked up by first matching identity.
    pub wallets: Vec<Wallet>,
}

/// The mathematical value of a [`Ledger`].
pub struct LedgerV {
    /// Identity of the lottery program itself.
    pub program_id: [u8; 32],
    /// Identity of the fungible-token sub-ledger program.
    pub token_program_id: [u8; 32],
    /// The platform's minimum-balance floors.
    pub floors: RentFloors,
    /// The record store.
    pub records: Seq<Record>,
    /// The principal balances.
    pub wallets: Seq<Wallet>,
}

impl View for Ledger {
    type V = LedgerV;

    open spec fn view(&self) -> LedgerV {
        LedgerV {
            program_id: self.program_id,
            token_program_id: self.token_program_id,
            floors: self.floors,
            records: self.records@,
            wallets: self.wallets@,
        }
    }
}

// ---------------------------------------------------------------------------
// Record lookup, update and removal, by first matching address.
// ---------------------------------------------------------------------------

/// Index of the first record at address `a`, or `rs.len()` if there is none.
pub open spec fn rec_index(rs: Seq<Record>, a: Seq<u8>) -> int
    decreases rs.len(),
{
    if rs.len() == 0 {
        0
    } else if rs[0].address@ == a {
        0
    } else {
        1 + rec_index(rs.drop_first(), a)
    }
}

/// Whether some record lives at address `a`.
pub open spec fn has_record(rs: Seq<Record>, a: Seq<u8>) -> bool {
    rec_index(rs, a) < rs.len()
}

/// The record at address `a`; meaningful only when `has_record(rs, a)`.
pub open spec fn record_at(rs: Seq<Record>, a: Seq<u8>) -> Record {
    rs[rec_index(rs, a)]
}

/// The store with the record at address `a` replaced by `r`.
pub open spec fn update_record(rs: Seq<Record>, a: Seq<u8>, r: Record) -> Seq<Record> {
    rs.update(rec_index(rs, a), r)
}

/// The store with the record at address `a` removed.
pub open spec fn remove_record(rs: Seq<Record>, a: Seq<u8>) -> Seq<Record> {
    rs.remove(rec_index(rs, a))
}

/// `rec_index` stays within bounds, lands on a record with the looked-up
/// address, and nothing before it matches.
pub proof fn lemma_rec_index(rs: Seq<Record>, a: Seq<u8>)
    ensures
        0 <= rec_index(rs, a) <= rs.len(),
        has_record(rs, a) ==> rs[rec_index(rs, a)].address@ == a,
        forall|j: int| 0 <= j < rec_index(rs, a) ==> rs[j].address@ != a,
    decreases rs.len(),
{
    if rs.len() > 0 && rs[0].address@ != a {
        lemma_rec_index(rs.drop_first(), a);
        assert forall|j: int| 0 <= j < rec_index(rs, a) implies rs[j].address@ != a by {
            if j > 0 {
                assert(rs[j] == rs.drop_first()[j - 1]);
            }
        }
    }
}

/// If nothing before `i` matches and `rs[i]` does, then `i` is the index
/// `rec_index` finds.
pub proof fn lemma_rec_index_is_first(rs: Seq<Record>, a: Seq<u8>, i: int)
    requires
        0 <= i < rs.len(),
        rs[i].address@ == a,
        forall|j: int| 0 <= j < i ==> rs[j].address@ != a,
    ensures
        rec_index(rs, a) == i,
    decreases rs.len(),
{
    if i > 0 {
        assert(rs[0].address@ != a);
        assert(rs.drop_first()[i - 1].address@ == a);
        assert forall|j: int| 0 <= j < i - 1 implies rs.drop_first()[j].address@ != a by {
            assert(rs.drop_first()[j] == rs[j + 1]);
        }
        lemma_rec_index_is_first(rs.drop_first(), a, i - 1);
    }
}

/// If no record matches anywhere, `rec_index` runs off the end.
pub proof fn lemma_rec_index_absent(rs: Seq<Record>, a: Seq<u8>)
    requires
        forall|j: int| 0 <= j < rs.len() ==> rs[j].address@ != a,
    ensures
        rec_index(rs, a) == rs.len(),
        !has_record(rs, a),
    decreases rs.len(),
{
    if rs.len() > 0 {
        assert forall|j: int| 0 <= j < rs.drop_first().len() implies rs.drop_first()[j].address@
            != a by {
            assert(rs.drop_first()[j] == rs[j + 1]);
        }
        lemma_rec_index_absent(rs.drop_first(), a);
    }
}

/// Pushing a record at a fresh address makes it the one `rec_index` finds,
/// and leaves every other lookup unchanged.
pub proof fn lemma_rec_index_push(rs: Seq<Record>, r: Record)
    requires
        !has_record(rs, r.address@),
    ensures
        rec_index(rs.push(r), r.address@) == rs.len(),
        has_record(rs.push(r), r.address@),
        record_at(rs.push(r), r.address@) == r,
        forall|b: Seq<u8>|
            b != r.address@ ==> (has_record(rs.push(r), b) <==> has_record(rs, b)),
        forall|b: Seq<u8>|
            b != r.address@ && has_record(rs, b) ==> rec_index(rs.push(r), b) == rec_index(rs, b)
                && record_at(rs.push(r), b) == record_at(rs, b),
{
    lemma_rec_index(rs, r.address@);
    assert(rs.push(r)[rs.len() as int] == r);
    assert forall|j: int| 0 <= j < rs.len() implies rs.push(r)[j].address@ != r.address@ by {
        assert(rs.push(r)[j] == rs[j]);
    }
    lemma_rec_index_is_first(rs.push(r), r.address@, rs.len() as int);
    assert forall|b: Seq<u8>| b != r.address@ implies (has_record(rs.push(r), b) <==> has_record(
        rs,
        b,
    )) && (has_record(rs, b) ==> rec_index(rs.push(r), b) == rec_index(rs, b) && record_at(
        rs.push(r),
        b,
    ) == record_at(rs, b)) by {
        lemma_rec_index(rs, b);
        if has_record(rs, b) {
            let i = rec_index(rs, b);
            assert(rs.push(r)[i] == rs[i]);
            assert forall|j: int| 0 <= j < i implies rs.push(r)[j].address@ != b by {
                assert(rs.push(r)[j] == rs[j]);
            }
            lemma_rec_index_is_first(rs.push(r), b, i);
        } else {
            assert forall|j: int| 0 <= j < rs.push(r).len() implies rs.push(r)[j].address@
                != b by {
                if j < rs.len() {
                    assert(rs.push(r)[j] == rs[j]);
                } else {
                    assert(rs.push(r)[j] == r);
                }
            }
            lemma_rec_index_absent(rs.push(r), b);
        }
    }
}

/// Replacing the record at an occupied address keeps its position and leaves
/// every other lookup unchanged, as long as the address is kept.
pub proof fn lemma_rec_index_update(rs: Seq<Record>, a: Seq<u8>, r: Record)
    requires
        has_record(rs, a),
        r.address@ == a,
    ensures
        rec_index(update_record(rs, a, r), a) == rec_index(rs, a),
        has_record(update_record(rs, a, r), a),
        record_at(update_record(rs, a, r), a) == r,
        forall|b: Seq<u8>| b != a ==> rec_index(update_record(rs, a, r), b) == rec_index(rs, b),
        forall|b: Seq<u8>|
            b != a ==> (has_record(update_record(rs, a, r), b) <==> has_record(rs, b)),
        forall|b: Seq<u8>|
            b != a && has_record(rs, b) ==> record_at(update_record(rs, a, r), b) == record_at(
                rs,
                b,
            ),
{
    lemma_rec_index(rs, a);
    let i = rec_index(rs, a);
    let rs2 = update_record(rs, a, r);
    assert forall|j: int| 0 <= j < i implies rs2[j].address@ != a by {
        assert(rs2[j] == rs[j]);
    }
    lemma_rec_index_is_first(rs2, a, i);
    assert forall|b: Seq<u8>| b != a implies rec_index(rs2, b) == rec_index(rs, b) && (has_record(
        rs2,
        b,
    ) <==> has_record(rs, b)) && (has_record(rs, b) ==> record_at(rs2, b) == record_at(rs, b)) by {
        lemma_rec_index(rs, b);
        if has_record(rs, b) {
            let k = rec_index(rs, b);
            assert(k != i);
            assert(rs2[k] == rs[k]);
            assert forall|j: int| 0 <= j < k implies rs2[j].address@ != b by {
                if j == i {
                    assert(rs2[j].address@ == a);
                } else {
                    assert(rs2[j] == rs[j]);
                }
            }
            lemma_rec_index_is_first(rs2, b, k);
        } else {
            assert forall|j: int| 0 <= j < rs2.len() implies rs2[j].address@ != b by {
                if j == i {
                    assert(rs2[j].address@ == a);
                } else {
                    assert(rs2[j] == rs[j]);
                }
            }
            lemma_rec_index_absent(rs2, b);
        }
    }
}

/// Removing the record at one address neither removes nor moves the record
/// any other address resolves to.
pub proof fn lemma_rec_index_remove(rs: Seq<Record>, a: Seq<u8>)
    requires
        has_record(rs, a),
    ensures
        forall|b: Seq<u8>|
            b != a ==> (has_record(remove_record(rs, a), b) <==> has_record(rs, b)),
        forall|b: Seq<u8>|
            b != a && has_record(rs, b) ==> record_at(remove_record(rs, a), b) == record_at(rs, b),
{
    lemma_rec_index(rs, a);
    let i = rec_index(rs, a);
    let rs2 = remove_record(rs, a);
    assert forall|b: Seq<u8>| b != a implies (has_record(rs2, b) <==> has_record(rs, b)) && (
    has_record(rs, b) ==> record_at(rs2, b) == record_at(rs, b)) by {
        lemma_rec_index(rs, b);
        if has_record(rs, b) {
            let k = rec_index(rs, b);
            assert(k != i);
            if k < i {
                assert(rs2[k] == rs[k]);
                assert forall|j: int| 0 <= j < k implies rs2[j].address@ != b by {
                    assert(rs2[j] == rs[j]);
                }
                lemma_rec_index_is_first(rs2, b, k);
            } else {
                assert(rs2[k - 1] == rs[k]);
                assert forall|j: int| 0 <= j < k - 1 implies rs2[j].address@ != b by {
                    if j < i {
                        assert(rs2[j] == rs[j]);
                    } else {
                        assert(rs2[j] == rs[j + 1]);
                    }
                }
                lemma_rec_index_is_first(rs2, b, k - 1);
            }
        } else {
            assert forall|j: int| 0 <= j < rs2.len() implies rs2[j].address@ != b by {
                if j < i {
                    assert(rs2[j] == rs[j]);
                } else {
                    assert(rs2[j] == rs[j + 1]);
                }
            }
            lemma_rec_index_absent(rs2, b);
        }
    }
}

// ---------------------------------------------------------------------------
// Wallet lookup and balance updates, by first matching identity.
// ---------------------------------------------------------------------------

/// Index of the first wallet of identity `a`, or `ws.len()` if there is none.
pub open spec fn wal_index(ws: Seq<Wallet>, a: Seq<u8>) -> int
    decreases ws.len(),
{
    if ws.len() == 0 {
        0
    } else if ws[0].address@ == a {
        0
    } else {
        1 + wal_index(ws.drop_first(), a)
    }
}

/// Whether identity `a` holds a wallet.
pub open spec fn has_wallet(ws: Seq<Wallet>, a: Seq<u8>) -> bool {
    wal_index(ws, a) < ws.len()
}

/// The balance of identity `a`; an identity without a wallet holds nothing.
pub open spec fn wallet_balance(ws: Seq<Wallet>, a: Seq<u8>) -> u64 {
    if has_wallet(ws, a) {
        ws[wal_index(ws, a)].balance
    } else {
        0
    }
}

/// The wallets with the balance of identity `a` set to `v`, creating the
/// wallet if the identity held none.
pub open spec fn set_wallet_balance(ws: Seq<Wallet>, a: [u8; 32], v: u64) -> Seq<Wallet> {
    if has_wallet(ws, a@) {
        ws.update(wal_index(ws, a@), Wallet { address: ws[wal_index(ws, a@)].address, balance: v })
    } else {
        ws.push(Wallet { address: a, balance: v })
    }
}

/// `wal_index` stays within bounds, lands on the looked-up identity, and
/// nothing before it matches.
pub proof fn lemma_wal_index(ws: Seq<Wallet>, a: Seq<u8>)
    ensures
        0 <= wal_index(ws, a) <= ws.len(),
        has_wallet(ws, a) ==> ws[wal_index(ws, a)].address@ == a,
        forall|j: int| 0 <= j < wal_index(ws, a) ==> ws[j].address@ != a,
    decreases ws.len(),
{
    if ws.len() > 0 && ws[0].address@ != a {
        lemma_wal_index(ws.drop_first(), a);
        assert forall|j: int| 0 <= j < wal_index(ws, a) implies ws[j].address@ != a by {
            if j > 0 {
                assert(ws[j] == ws.drop_first()[j - 1]);
            }
        }
    }
}

/// If nothing before `i` matches and `ws[i]` does, then `i` is the index
/// `wal_index` finds.
pub proof fn lemma_wal_index_is_first(ws: Seq<Wallet>, a: Seq<u8>, i: int)
    requires
        0 <= i < ws.len(),
        ws[i].address@ == a,
        forall|j: int| 0 <= j < i ==> ws[j].address@ != a,
    ensures
        wal_index(ws, a) == i,
    decreases ws.len(),
{
    if i > 0 {
        assert(ws.drop_first()[i - 1].address@ == a);
        assert forall|j: int| 0 <= j < i - 1 implies ws.drop_first()[j].address@ != a by {
            assert(ws.drop_first()[j] == ws[j + 1]);
        }
        lemma_wal_index_is_first(ws.drop_first(), a, i - 1);
    }
}

/// If no wallet matches anywhere, `wal_index` runs off the end.
pub proof fn lemma_wal_index_absent(ws: Seq<Wallet>, a: Seq<u8>)
    requires
        forall|j: int| 0 <= j < ws.len() ==> ws[j].address@ != a,
    ensures
        wal_index(ws, a) == ws.len(),
        !has_wallet(ws, a),
    decreases ws.len(),
{
    if ws.len() > 0 {
        assert forall|j: int| 0 <= j < ws.drop_first().len() implies ws.drop_first()[j].address@
            != a by {
            assert(ws.drop_first()[j] == ws[j + 1]);
        }
        lemma_wal_index_absent(ws.drop_first(), a);
    }
}

// ---------------------------------------------------------------------------
// Executable lookups.
// ---------------------------------------------------------------------------

/// Byte-wise equality of two 32-byte addresses.
pub fn key_eq(a: &[u8; 32], b: &[u8; 32]) -> (r: bool)
    ensures
        r == (a@ == b@),
{
    let mut i: usize = 0;
    while i < 32
        invariant
            i <= 32,
            forall|j: int| 0 <= j < i ==> a@[j] == b@[j],
        decreases 32 - i,
    {
        if a[i] != b[i] {
            return false;
        }
        i += 1;
    }
    proof {
        assert(a@ =~= b@);
    }
    true
}

/// Position of the record at address `a`, if any.
pub fn find_record(records: &Vec<Record>, a: &[u8; 32]) -> (r: Option<usize>)
    ensures
        match r {
            Some(i) => has_record(records@, a@) && i as int == rec_index(records@, a@),
            None => !has_record(records@, a@),
        },
{
    let mut i: usize = 0;
    while i < records.len()
        invariant
            i <= records@.len(),
            forall|j: int| 0 <= j < i ==> records@[j].address@ != a@,
        decreases records@.len() - i,
    {
        if key_eq(&records[i].address, a) {
            proof {
                lemma_rec_index_is_first(records@, a@, i as int);
            }
            return Some(i);
        }
        i += 1;
    }
    proof {
        lemma_rec_index_absent(records@, a@);
    }
    None
}

/// Position of the wallet of identity `a`, if any.
pub fn find_wallet(wallets: &Vec<Wallet>, a: &[u8; 32]) -> (r: Option<usize>)
    ensures
        match r {
            Some(i) => has_wallet(wallets@, a@) && i as int == wal_index(wallets@, a@),
            None => !has_wallet(wallets@, a@),
        },
{
    let mut i: usize = 0;
    while i < wallets.len()
        invariant
            i <= wallets@.len(),
            forall|j: int| 0 <= j < i ==> wallets@[j].address@ != a@,
        decreases wallets@.len() - i,
    {
        if key_eq(&wallets[i].address, a) {
            proof {
                lemma_wal_index_is_first(wallets@, a@, i as int);
            }
            return Some(i);
        }
        i += 1;
    }
    proof {
        lemma_wal_index_absent(wallets@, a@);
    }
    None
}

/// Set the balance of identity `a` to `v`, creating the wallet if missing.
pub fn write_wallet_balance(wallets: &mut Vec<Wallet>, a: &[u8; 32], v: u64)
    ensures
        final(wallets)@ == set_wallet_balance(old(wallets)@, *a, v),
{
    match find_wallet(wallets, a) {
        Some(i) => {
            let address = wallets[i].address;
            wallets[i] = Wallet { address, balance: v };
        },
        None => {
            wallets.push(Wallet { address: *a, balance: v });
        },
    }
}

impl Ledger {
    /// An empty ledger for the given program identities and floors.
    pub fn new(program_id: [u8; 32], token_program_id: [u8; 32], floors: RentFloors) -> (r:
        Ledger)
        ensures
            r@.program_id == program_id,
            r@.token_program_id == token_program_id,
            r@.floors == floors,
            r@.records == Seq::<Record>::empty(),
            r@.wallets == Seq::<Wallet>::empty(),
    {
        Ledger { program_id, token_program_id, floors, records: Vec::new(), wallets: Vec::new() }
    }

    /// The record at address `a`, if any.
    pub fn record_at_address(&self, a: &[u8; 32]) -> (r: Option<Record>)
        ensures
            r == if has_record(self@.records, a@) {
                Some(record_at(self@.records, a@))
            } else {
                None::<Record>
            },
    {
        match find_record(&self.records, a) {
            Some(i) => Some(self.records[i]),
            None => None,
        }
    }

    /// The principal balance of identity `a`; zero for an unknown identity.
    pub fn wallet_balance_at(&self, a: &[u8; 32]) -> (r: u64)
        ensures
            r == wallet_balance(self@.wallets, a@),
    {
        match find_wallet(&self.wallets, a) {
            Some(i) => self.wallets[i].balance,
            None => 0,
        }
    }

    /// Credit a principal out of thin air: the platform's airdrop, used to
    /// seed balances. Fails with [`crate::error::LotteryError::Overflow`]
    /// when the balance counter cannot take the amount.
    pub fn fund_wallet(&mut self, a: &[u8; 32], amount: u64) -> (r: Result<
        (),
        crate::error::LotteryError,
    >)
        ensures
            match r {
                Ok(()) => wallet_balance(old(self)@.wallets, a@) + amount <= u64::MAX
                    && final(self)@ == LedgerV {
                    wallets: set_wallet_balance(
                        old(self)@.wallets,
                        *a,
                        (wallet_balance(old(self)@.wallets, a@) + amount) as u64,
                    ),
                    ..old(self)@
                },
                Err(e) => e == crate::error::LotteryError::Overflow && wallet_balance(
                    old(self)@.wallets,
                    a@,
                ) + amount > u64::MAX && final(self)@ == old(self)@,
            },
    {
        let balance = self.wallet_balance_at(a);
        match balance.checked_add(amount) {
            Some(v) => {
                write_wallet_balance(&mut self.wallets, a, v);
                Ok(())
            },
            None => Err(crate::error::LotteryError::Overflow),
        }
    }
}

} // verus!
