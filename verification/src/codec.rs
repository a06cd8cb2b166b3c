//! The binary instruction codec.
//!
//! An instruction is one tag byte (the position of the variant) followed by
//! its payload: integers little-endian, addresses and hashes as raw 32
//! bytes, each list as a 32-bit little-endian count followed by its
//! elements. [`spec_encode_instruction`] and [`spec_parse_instruction`] give
//! the format mathematically; the executable encoder and parser return
//! exactly what they say.

use vstd::prelude::*;
use vstd::bytes::{
    spec_u32_from_le_bytes, spec_u32_to_le_bytes, spec_u64_from_le_bytes, spec_u64_to_le_bytes,
    u32_from_le_bytes, u32_to_le_bytes, u64_from_le_bytes, u64_to_le_bytes,
};
use vstd::slice::slice_subrange;

use crate::state::{DraftWinner, Instruction, PoolStorageData, TicketAccountData};

verus! {

// ---------------------------------------------------------------------------
// Mathematical values of the payload types.
// ---------------------------------------------------------------------------

/// The mathematical value of a [`TicketAccountData`].
pub struct TicketAccountDataV {
    /// The committed Merkle root, 32 bytes.
    pub merkle_root: Seq<u8>,
    /// The leaf count of the tree behind the root.
    pub total_tickets: u64,
}

/// The mathematical value of a [`DraftWinner`].
pub struct DraftWinnerV {
    /// Payout in lamports.
    pub amount: u64,
    /// Proof bytes.
    pub proof: Seq<u8>,
    /// Claimed leaf positions.
    pub ticket_indices: Seq<u64>,
    /// Claimed leaf hashes, 32 bytes each.
    pub tickets: Seq<Seq<u8>>,
    /// The winning player's identity, 32 bytes.
    pub address: Seq<u8>,
    /// The player's receipt-balance record address, 32 bytes.
    pub token_account: Seq<u8>,
}

/// The mathematical value of an [`Instruction`].
pub enum InstructionV {
    /// Create the pool record and receipt mint.
    InitializePool(PoolStorageData),
    /// Move the amount into the vault.
    Deposit(u64),
    /// Purchase one ticket.
    PurchaseTicket(TicketAccountDataV),
    /// Draw down the escrowed balance.
    Withdraw(u64),
    /// Execute a draft.
    SelectWinnersAndAirdrop(Seq<DraftWinnerV>),
    /// Close the player's records.
    ClosePlayerAccount,
}

/// The mathematical value of a ticket payload.
pub open spec fn ticket_data_view(t: TicketAccountData) -> TicketAccountDataV {
    TicketAccountDataV { merkle_root: t.merkle_root@, total_tickets: t.total_tickets }
}

/// The mathematical value of a draft winner.
pub open spec fn winner_view(w: DraftWinner) -> DraftWinnerV {
    DraftWinnerV {
        amount: w.amount,
        proof: w.proof@,
        ticket_indices: w.ticket_indices@,
        tickets: w.tickets@.map_values(|t: [u8; 32]| t@),
        address: w.address@,
        token_account: w.token_account@,
    }
}

/// The mathematical value of an instruction.
pub open spec fn instruction_view(i: Instruction) -> InstructionV {
    match i {
        Instruction::InitializePool(d) => InstructionV::InitializePool(d),
        Instruction::Deposit(a) => InstructionV::Deposit(a),
        Instruction::PurchaseTicket(t) => InstructionV::PurchaseTicket(ticket_data_view(t)),
        Instruction::Withdraw(a) => InstructionV::Withdraw(a),
        Instruction::SelectWinnersAndAirdrop(ws) => InstructionV::SelectWinnersAndAirdrop(
            ws@.map_values(|w: DraftWinner| winner_view(w)),
        ),
        Instruction::ClosePlayerAccount => InstructionV::ClosePlayerAccount,
    }
}

// ---------------------------------------------------------------------------
// Encoding.
// ---------------------------------------------------------------------------

/// Whether every list of the winner fits its 32-bit count.
pub open spec fn winner_encodable(w: DraftWinnerV) -> bool {
    w.proof.len() <= u32::MAX && w.ticket_indices.len() <= u32::MAX && w.tickets.len() <= u32::MAX
}

/// Whether the instruction fits the format: every list fits its 32-bit
/// count.
pub open spec fn instruction_encodable(v: InstructionV) -> bool {
    match v {
        InstructionV::SelectWinnersAndAirdrop(ws) => ws.len() <= u32::MAX && (forall|k: int|
            0 <= k < ws.len() ==> winner_encodable(#[trigger] ws[k])),
        _ => true,
    }
}

/// The bytes of a list of leaf positions, one u64 after the other.
pub open spec fn spec_encode_u64_seq(s: Seq<u64>) -> Seq<u8>
    decreases s.len(),
{
    if s.len() == 0 {
        Seq::empty()
    } else {
        spec_u64_to_le_bytes(s[0]) + spec_encode_u64_seq(s.drop_first())
    }
}

/// The bytes of a list of 32-byte hashes, one after the other.
pub open spec fn spec_encode_hash_seq(s: Seq<Seq<u8>>) -> Seq<u8>
    decreases s.len(),
{
    if s.len() == 0 {
        Seq::empty()
    } else {
        s[0] + spec_encode_hash_seq(s.drop_first())
    }
}

/// The bytes of one draft winner.
pub open spec fn spec_encode_winner(w: DraftWinnerV) -> Seq<u8> {
    spec_u64_to_le_bytes(w.amount) + spec_u32_to_le_bytes(w.proof.len() as u32) + w.proof
        + spec_u32_to_le_bytes(w.ticket_indices.len() as u32) + spec_encode_u64_seq(
        w.ticket_indices,
    ) + spec_u32_to_le_bytes(w.tickets.len() as u32) + spec_encode_hash_seq(w.tickets) + w.address
        + w.token_account
}

/// The bytes of a list of draft winners, one after the other.
pub open spec fn spec_encode_winner_seq(s: Seq<DraftWinnerV>) -> Seq<u8>
    decreases s.len(),
{
    if s.len() == 0 {
        Seq::empty()
    } else {
        spec_encode_winner(s[0]) + spec_encode_winner_seq(s.drop_first())
    }
}

/// The bytes of an instruction: the tag byte, then the payload.
pub open spec fn spec_encode_instruction(v: InstructionV) -> Seq<u8> {
    match v {
        InstructionV::InitializePool(d) => seq![0u8] + spec_u64_to_le_bytes(d.ticket_price)
            + spec_u64_to_le_bytes(d.draft_count) + spec_u64_to_le_bytes(d.vault_balance_floor),
        InstructionV::Deposit(a) => seq![1u8] + spec_u64_to_le_bytes(a),
        InstructionV::PurchaseTicket(t) => seq![2u8] + t.merkle_root + spec_u64_to_le_bytes(
            t.total_tickets,
        ),
        InstructionV::Withdraw(a) => seq![3u8] + spec_u64_to_le_bytes(a),
        InstructionV::SelectWinnersAndAirdrop(ws) => seq![4u8] + spec_u32_to_le_bytes(
            ws.len() as u32,
        ) + spec_encode_winner_seq(ws),
        InstructionV::ClosePlayerAccount => seq![5u8],
    }
}

// ---------------------------------------------------------------------------
// Parsing, mathematically: each piece yields its value and the position
// after it, or nothing where the bytes run short.
// ---------------------------------------------------------------------------

/// Read a little-endian u64 at `pos`.
pub open spec fn spec_parse_u64(b: Seq<u8>, pos: int) -> Option<(u64, int)> {
    if 0 <= pos && pos + 8 <= b.len() {
        Some((spec_u64_from_le_bytes(b.subrange(pos, pos + 8)), pos + 8))
    } else {
        None
    }
}

/// Read a little-endian u32 count at `pos`.
pub open spec fn spec_parse_u32(b: Seq<u8>, pos: int) -> Option<(u32, int)> {
    if 0 <= pos && pos + 4 <= b.len() {
        Some((spec_u32_from_le_bytes(b.subrange(pos, pos + 4)), pos + 4))
    } else {
        None
    }
}

/// Read 32 raw bytes at `pos`.
pub open spec fn spec_parse_hash(b: Seq<u8>, pos: int) -> Option<(Seq<u8>, int)> {
    if 0 <= pos && pos + 32 <= b.len() {
        Some((b.subrange(pos, pos + 32), pos + 32))
    } else {
        None
    }
}

/// Read `count` raw bytes at `pos`.
pub open spec fn spec_parse_bytes(b: Seq<u8>, pos: int, count: int) -> Option<(Seq<u8>, int)> {
    if 0 <= pos && 0 <= count && pos + count <= b.len() {
        Some((b.subrange(pos, pos + count), pos + count))
    } else {
        None
    }
}

/// Read `count` u64 values at `pos`.
pub open spec fn spec_parse_u64_seq(b: Seq<u8>, pos: int, count: int) -> Option<(Seq<u64>, int)>
    decreases count,
{
    if count <= 0 {
        Some((Seq::empty(), pos))
    } else {
        match spec_parse_u64(b, pos) {
            None => None,
            Some((x, p1)) => match spec_parse_u64_seq(b, p1, count - 1) {
                None => None,
                Some((s, p2)) => Some((seq![x] + s, p2)),
            },
        }
    }
}

/// Read `count` 32-byte hashes at `pos`.
pub open spec fn spec_parse_hash_seq(b: Seq<u8>, pos: int, count: int) -> Option<
    (Seq<Seq<u8>>, int),
>
    decreases count,
{
    if count <= 0 {
        Some((Seq::empty(), pos))
    } else {
        match spec_parse_hash(b, pos) {
            None => None,
            Some((h, p1)) => match spec_parse_hash_seq(b, p1, count - 1) {
                None => None,
                Some((s, p2)) => Some((seq![h] + s, p2)),
            },
        }
    }
}

/// Read one draft winner at `pos`.
pub open spec fn spec_parse_winner(b: Seq<u8>, pos: int) -> Option<(DraftWinnerV, int)> {
    match spec_parse_u64(b, pos) {
        None => None,
        Some((amount, p1)) => match spec_parse_u32(b, p1) {
            None => None,
            Some((proof_len, p2)) => match spec_parse_bytes(b, p2, proof_len as int) {
                None => None,
                Some((proof, p3)) => match spec_parse_u32(b, p3) {
                    None => None,
                    Some((idx_count, p4)) => match spec_parse_u64_seq(b, p4, idx_count as int) {
                        None => None,
                        Some((ticket_indices, p5)) => match spec_parse_u32(b, p5) {
                            None => None,
                            Some((ticket_count, p6)) => match spec_parse_hash_seq(
                                b,
                                p6,
                                ticket_count as int,
                            ) {
                                None => None,
                                Some((tickets, p7)) => match spec_parse_hash(b, p7) {
                                    None => None,
                                    Some((address, p8)) => match spec_parse_hash(b, p8) {
                                        None => None,
                                        Some((token_account, p9)) => Some(
                                            (
                                                DraftWinnerV {
                                                    amount,
                                                    proof,
                                                    ticket_indices,
                                                    tickets,
                                                    address,
                                                    token_account,
                                                },
                                                p9,
                                            ),
                                        ),
                                    },
                                },
                            },
                        },
                    },
                },
            },
        },
    }
}

/// Read `count` draft winners at `pos`.
pub open spec fn spec_parse_winner_seq(b: Seq<u8>, pos: int, count: int) -> Option<
    (Seq<DraftWinnerV>, int),
>
    decreases count,
{
    if count <= 0 {
        Some((Seq::empty(), pos))
    } else {
        match spec_parse_winner(b, pos) {
            None => None,
            Some((w, p1)) => match spec_parse_winner_seq(b, p1, count - 1) {
                None => None,
                Some((s, p2)) => Some((seq![w] + s, p2)),
            },
        }
    }
}

/// Read a whole instruction: the tag byte, the payload, and nothing after
/// it.
pub open spec fn spec_parse_instruction(b: Seq<u8>) -> Option<InstructionV> {
    if b.len() < 1 {
        None
    } else {
        let tag = b[0];
        if tag == 0 {
            match spec_parse_u64(b, 1) {
                None => None,
                Some((ticket_price, p1)) => match spec_parse_u64(b, p1) {
                    None => None,
                    Some((draft_count, p2)) => match spec_parse_u64(b, p2) {
                        None => None,
                        Some((vault_balance_floor, p3)) => if p3 == b.len() {
                            Some(
                                InstructionV::InitializePool(
                                    PoolStorageData {
                                        ticket_price,
                                        draft_count,
                                        vault_balance_floor,
                                    },
                                ),
                            )
                        } else {
                            None
                        },
                    },
                },
            }
        } else if tag == 1 {
            match spec_parse_u64(b, 1) {
                None => None,
                Some((amount, p1)) => if p1 == b.len() {
                    Some(InstructionV::Deposit(amount))
                } else {
                    None
                },
            }
        } else if tag == 2 {
            match spec_parse_hash(b, 1) {
                None => None,
                Some((merkle_root, p1)) => match spec_parse_u64(b, p1) {
                    None => None,
                    Some((total_tickets, p2)) => if p2 == b.len() {
                        Some(
                            InstructionV::PurchaseTicket(
                                TicketAccountDataV { merkle_root, total_tickets },
                            ),
                        )
                    } else {
                        None
                    },
                },
            }
        } else if tag == 3 {
            match spec_parse_u64(b, 1) {
                None => None,
                Some((amount, p1)) => if p1 == b.len() {
                    Some(InstructionV::Withdraw(amount))
                } else {
                    None
                },
            }
        } else if tag == 4 {
            match spec_parse_u32(b, 1) {
                None => None,
                Some((count, p1)) => match spec_parse_winner_seq(b, p1, count as int) {
                    None => None,
                    Some((ws, p2)) => if p2 == b.len() {
                        Some(InstructionV::SelectWinnersAndAirdrop(ws))
                    } else {
                        None
                    },
                },
            }
        } else if tag == 5 {
            if b.len() == 1 {
                Some(InstructionV::ClosePlayerAccount)
            } else {
                None
            }
        } else {
            None
        }
    }
}

// ---------------------------------------------------------------------------
// The codec round trip: parsing an encoding yields the encoded value.
// ---------------------------------------------------------------------------

/// Whether `x` is the contents of `b` from `pos` on.
pub open spec fn slice_at(b: Seq<u8>, pos: int, x: Seq<u8>) -> bool {
    0 <= pos && pos + x.len() <= b.len() && b.subrange(pos, pos + x.len()) == x
}

/// A slice made of two pieces is each piece in turn.
proof fn lemma_slice_at_split(b: Seq<u8>, pos: int, x: Seq<u8>, y: Seq<u8>)
    requires
        slice_at(b, pos, x + y),
    ensures
        slice_at(b, pos, x),
        slice_at(b, pos + x.len(), y),
{
    assert forall|i: int| 0 <= i < x.len() implies b[pos + i] == x[i] by {
        assert((x + y)[i] == x[i]);
        assert(b.subrange(pos, pos + (x + y).len())[i] == b[pos + i]);
    }
    assert forall|i: int| 0 <= i < y.len() implies b[pos + x.len() + i] == y[i] by {
        assert((x + y)[x.len() + i] == y[i]);
        assert(b.subrange(pos, pos + (x + y).len())[x.len() + i] == b[pos + x.len() + i]);
    }
    assert(b.subrange(pos, pos + x.len()) =~= x);
    assert(b.subrange(pos + x.len(), pos + x.len() + y.len()) =~= y);
}

/// Whether every hash of the list is 32 bytes.
pub open spec fn hashes_wf(s: Seq<Seq<u8>>) -> bool {
    forall|k: int| 0 <= k < s.len() ==> (#[trigger] s[k]).len() == 32
}

/// A winner that the format represents faithfully: its lists fit their
/// counts and its hashes and addresses are 32 bytes.
pub open spec fn winner_wf(w: DraftWinnerV) -> bool {
    winner_encodable(w) && w.address.len() == 32 && w.token_account.len() == 32 && hashes_wf(
        w.tickets,
    )
}

/// An instruction that the format represents faithfully.
pub open spec fn instruction_wf(v: InstructionV) -> bool {
    match v {
        InstructionV::PurchaseTicket(t) => t.merkle_root.len() == 32,
        InstructionV::SelectWinnersAndAirdrop(ws) => ws.len() <= u32::MAX && (forall|k: int|
            0 <= k < ws.len() ==> winner_wf(#[trigger] ws[k])),
        _ => true,
    }
}

/// An encoded u64 at `pos` parses back to its value.
proof fn lemma_parse_encoded_u64(b: Seq<u8>, pos: int, x: u64)
    requires
        slice_at(b, pos, spec_u64_to_le_bytes(x)),
    ensures
        spec_parse_u64(b, pos) == Some((x, pos + 8)),
{
    vstd::bytes::lemma_auto_spec_u64_to_from_le_bytes();
}

/// An encoded u32 at `pos` parses back to its value.
proof fn lemma_parse_encoded_u32(b: Seq<u8>, pos: int, x: u32)
    requires
        slice_at(b, pos, spec_u32_to_le_bytes(x)),
    ensures
        spec_parse_u32(b, pos) == Some((x, pos + 4)),
{
    vstd::bytes::lemma_auto_spec_u32_to_from_le_bytes();
}

/// An encoded u64 list at `pos` parses back to its values.
proof fn lemma_parse_encoded_u64_seq(b: Seq<u8>, pos: int, s: Seq<u64>)
    requires
        slice_at(b, pos, spec_encode_u64_seq(s)),
    ensures
        spec_parse_u64_seq(b, pos, s.len() as int) == Some(
            (s, pos + spec_encode_u64_seq(s).len()),
        ),
    decreases s.len(),
{
    vstd::bytes::lemma_auto_spec_u64_to_from_le_bytes();
    if s.len() == 0 {
        assert(Seq::<u64>::empty() =~= s);
    } else {
        lemma_slice_at_split(
            b,
            pos,
            spec_u64_to_le_bytes(s[0]),
            spec_encode_u64_seq(s.drop_first()),
        );
        lemma_parse_encoded_u64(b, pos, s[0]);
        lemma_parse_encoded_u64_seq(b, pos + 8, s.drop_first());
        assert(seq![s[0]] + s.drop_first() =~= s);
    }
}

/// An encoded hash list at `pos` parses back to its hashes.
proof fn lemma_parse_encoded_hash_seq(b: Seq<u8>, pos: int, s: Seq<Seq<u8>>)
    requires
        slice_at(b, pos, spec_encode_hash_seq(s)),
        hashes_wf(s),
    ensures
        spec_parse_hash_seq(b, pos, s.len() as int) == Some(
            (s, pos + spec_encode_hash_seq(s).len()),
        ),
    decreases s.len(),
{
    if s.len() == 0 {
        assert(Seq::<Seq<u8>>::empty() =~= s);
    } else {
        lemma_slice_at_split(b, pos, s[0], spec_encode_hash_seq(s.drop_first()));
        assert(spec_parse_hash(b, pos) == Some((s[0], pos + 32)));
        assert(hashes_wf(s.drop_first())) by {
            assert forall|k: int|
                0 <= k < s.drop_first().len() implies (#[trigger] s.drop_first()[k]).len()
                == 32 by {
                assert(s.drop_first()[k] == s[k + 1]);
            }
        }
        lemma_parse_encoded_hash_seq(b, pos + 32, s.drop_first());
        assert(seq![s[0]] + s.drop_first() =~= s);
    }
}

/// An encoded winner at `pos` parses back to its value.
proof fn lemma_parse_encoded_winner(b: Seq<u8>, pos: int, w: DraftWinnerV)
    requires
        slice_at(b, pos, spec_encode_winner(w)),
        winner_wf(w),
    ensures
        spec_parse_winner(b, pos) == Some((w, pos + spec_encode_winner(w).len())),
{
    vstd::bytes::lemma_auto_spec_u64_to_from_le_bytes();
    vstd::bytes::lemma_auto_spec_u32_to_from_le_bytes();
    let e1 = spec_u64_to_le_bytes(w.amount);
    let e2 = spec_u32_to_le_bytes(w.proof.len() as u32);
    let e3 = w.proof;
    let e4 = spec_u32_to_le_bytes(w.ticket_indices.len() as u32);
    let e5 = spec_encode_u64_seq(w.ticket_indices);
    let e6 = spec_u32_to_le_bytes(w.tickets.len() as u32);
    let e7 = spec_encode_hash_seq(w.tickets);
    let e8 = w.address;
    let e9 = w.token_account;
    lemma_slice_at_split(b, pos, e1 + e2 + e3 + e4 + e5 + e6 + e7 + e8, e9);
    let p8 = pos + (e1 + e2 + e3 + e4 + e5 + e6 + e7 + e8).len();
    lemma_slice_at_split(b, pos, e1 + e2 + e3 + e4 + e5 + e6 + e7, e8);
    let p7 = pos + (e1 + e2 + e3 + e4 + e5 + e6 + e7).len();
    lemma_slice_at_split(b, pos, e1 + e2 + e3 + e4 + e5 + e6, e7);
    let p6 = pos + (e1 + e2 + e3 + e4 + e5 + e6).len();
    lemma_slice_at_split(b, pos, e1 + e2 + e3 + e4 + e5, e6);
    let p5 = pos + (e1 + e2 + e3 + e4 + e5).len();
    lemma_slice_at_split(b, pos, e1 + e2 + e3 + e4, e5);
    let p4 = pos + (e1 + e2 + e3 + e4).len();
    lemma_slice_at_split(b, pos, e1 + e2 + e3, e4);
    let p3 = pos + (e1 + e2 + e3).len();
    lemma_slice_at_split(b, pos, e1 + e2, e3);
    let p2 = pos + (e1 + e2).len();
    lemma_slice_at_split(b, pos, e1, e2);
    let p1 = pos + e1.len();
    lemma_parse_encoded_u64(b, pos, w.amount);
    lemma_parse_encoded_u32(b, p1, w.proof.len() as u32);
    assert(spec_parse_bytes(b, p2, w.proof.len() as int) == Some((w.proof, p3)));
    lemma_parse_encoded_u32(b, p3, w.ticket_indices.len() as u32);
    lemma_parse_encoded_u64_seq(b, p4, w.ticket_indices);
    lemma_parse_encoded_u32(b, p5, w.tickets.len() as u32);
    lemma_parse_encoded_hash_seq(b, p6, w.tickets);
    assert(spec_parse_hash(b, p7) == Some((w.address, p8)));
    assert(spec_parse_hash(b, p8) == Some((w.token_account, p8 + 32)));
}

/// An encoded winner list at `pos` parses back to its values.
proof fn lemma_parse_encoded_winner_seq(b: Seq<u8>, pos: int, s: Seq<DraftWinnerV>)
    requires
        slice_at(b, pos, spec_encode_winner_seq(s)),
        forall|k: int| 0 <= k < s.len() ==> winner_wf(#[trigger] s[k]),
    ensures
        spec_parse_winner_seq(b, pos, s.len() as int) == Some(
            (s, pos + spec_encode_winner_seq(s).len()),
        ),
    decreases s.len(),
{
    if s.len() == 0 {
        assert(Seq::<DraftWinnerV>::empty() =~= s);
    } else {
        lemma_slice_at_split(
            b,
            pos,
            spec_encode_winner(s[0]),
            spec_encode_winner_seq(s.drop_first()),
        );
        lemma_parse_encoded_winner(b, pos, s[0]);
        assert forall|k: int| 0 <= k < s.drop_first().len() implies winner_wf(
            #[trigger] s.drop_first()[k],
        ) by {
            assert(s.drop_first()[k] == s[k + 1]);
        }
        lemma_parse_encoded_winner_seq(b, pos + spec_encode_winner(s[0]).len(), s.drop_first());
        assert(seq![s[0]] + s.drop_first() =~= s);
    }
}

/// The codec round trip at the mathematical level: parsing the encoding of
/// any well-formed instruction value returns exactly that value.
pub proof fn lemma_parse_encoded_instruction(v: InstructionV)
    requires
        instruction_wf(v),
    ensures
        spec_parse_instruction(spec_encode_instruction(v)) == Some(v),
{
    vstd::bytes::lemma_auto_spec_u64_to_from_le_bytes();
    vstd::bytes::lemma_auto_spec_u32_to_from_le_bytes();
    let b = spec_encode_instruction(v);
    match v {
        InstructionV::InitializePool(d) => {
            let e1 = spec_u64_to_le_bytes(d.ticket_price);
            let e2 = spec_u64_to_le_bytes(d.draft_count);
            let e3 = spec_u64_to_le_bytes(d.vault_balance_floor);
            assert(slice_at(b, 0, seq![0u8] + e1 + e2 + e3)) by {
                assert(b.subrange(0, b.len() as int) =~= b);
            }
            lemma_slice_at_split(b, 0, seq![0u8] + e1 + e2, e3);
            lemma_slice_at_split(b, 0, seq![0u8] + e1, e2);
            lemma_slice_at_split(b, 0, seq![0u8], e1);
            lemma_parse_encoded_u64(b, 1, d.ticket_price);
            lemma_parse_encoded_u64(b, 9, d.draft_count);
            lemma_parse_encoded_u64(b, 17, d.vault_balance_floor);
            assert(b[0] == 0);
        },
        InstructionV::Deposit(a) => {
            let e1 = spec_u64_to_le_bytes(a);
            assert(slice_at(b, 0, seq![1u8] + e1)) by {
                assert(b.subrange(0, b.len() as int) =~= b);
            }
            lemma_slice_at_split(b, 0, seq![1u8], e1);
            lemma_parse_encoded_u64(b, 1, a);
            assert(b[0] == 1);
        },
        InstructionV::PurchaseTicket(t) => {
            let e1 = t.merkle_root;
            let e2 = spec_u64_to_le_bytes(t.total_tickets);
            assert(slice_at(b, 0, seq![2u8] + e1 + e2)) by {
                assert(b.subrange(0, b.len() as int) =~= b);
            }
            lemma_slice_at_split(b, 0, seq![2u8] + e1, e2);
            lemma_slice_at_split(b, 0, seq![2u8], e1);
            assert(spec_parse_hash(b, 1) == Some((t.merkle_root, 33int)));
            lemma_parse_encoded_u64(b, 33, t.total_tickets);
            assert(b[0] == 2);
        },
        InstructionV::Withdraw(a) => {
            let e1 = spec_u64_to_le_bytes(a);
            assert(slice_at(b, 0, seq![3u8] + e1)) by {
                assert(b.subrange(0, b.len() as int) =~= b);
            }
            lemma_slice_at_split(b, 0, seq![3u8], e1);
            lemma_parse_encoded_u64(b, 1, a);
            assert(b[0] == 3);
        },
        InstructionV::SelectWinnersAndAirdrop(ws) => {
            let e1 = spec_u32_to_le_bytes(ws.len() as u32);
            let e2 = spec_encode_winner_seq(ws);
            assert(slice_at(b, 0, seq![4u8] + e1 + e2)) by {
                assert(b.subrange(0, b.len() as int) =~= b);
            }
            lemma_slice_at_split(b, 0, seq![4u8] + e1, e2);
            lemma_slice_at_split(b, 0, seq![4u8], e1);
            lemma_parse_encoded_u32(b, 1, ws.len() as u32);
            lemma_parse_encoded_winner_seq(b, 5, ws);
            assert(b[0] == 4);
        },
        InstructionV::ClosePlayerAccount => {
            assert(b[0] == 5);
            assert(b.len() == 1);
        },
    }
}

/// Every value that an executable [`Instruction`] can take is well-formed:
/// its addresses and hashes are 32-byte arrays.
pub proof fn lemma_instruction_view_wf(i: Instruction)
    requires
        instruction_encodable(instruction_view(i)),
    ensures
        instruction_wf(instruction_view(i)),
{
    broadcast use vstd::array::group_array_axioms;

    match i {
        Instruction::SelectWinnersAndAirdrop(ws) => {
            let wsv = ws@.map_values(|w: DraftWinner| winner_view(w));
            assert forall|k: int| 0 <= k < wsv.len() implies winner_wf(#[trigger] wsv[k]) by {
                assert(wsv[k] == winner_view(ws@[k]));
                let w = ws@[k];
                assert forall|m: int| 0 <= m < winner_view(w).tickets.len() implies (
                #[trigger] winner_view(w).tickets[m]).len() == 32 by {
                    assert(winner_view(w).tickets[m] == w.tickets@[m]@);
                }
            }
        },
        _ => {},
    }
}

/// The codec round trip: the bytes of any encodable instruction decode back
/// to a value with the same mathematical content.
pub proof fn lemma_codec_round_trip(i: Instruction)
    requires
        instruction_encodable(instruction_view(i)),
    ensures
        spec_parse_instruction(spec_encode_instruction(instruction_view(i))) == Some(
            instruction_view(i),
        ),
{
    lemma_instruction_view_wf(i);
    lemma_parse_encoded_instruction(instruction_view(i));
}

/// Two adjacent slices are one slice of the two pieces.
proof fn lemma_slice_at_join(b: Seq<u8>, pos: int, x: Seq<u8>, y: Seq<u8>)
    requires
        slice_at(b, pos, x),
        slice_at(b, pos + x.len(), y),
    ensures
        slice_at(b, pos, x + y),
{
    assert forall|i: int| 0 <= i < x.len() + y.len() implies b[pos + i] == (x + y)[i] by {
        if i < x.len() {
            assert(b.subrange(pos, pos + x.len())[i] == b[pos + i]);
        } else {
            assert(b.subrange(pos + x.len(), pos + x.len() + y.len())[i - x.len()] == b[pos + i]);
        }
    }
    assert(b.subrange(pos, pos + (x + y).len()) =~= x + y);
}

/// A parsed u64 sits in the bytes as its own encoding.
proof fn lemma_parsed_u64_encodes(b: Seq<u8>, pos: int, x: u64, p: int)
    requires
        spec_parse_u64(b, pos) == Some((x, p)),
    ensures
        p == pos + 8,
        slice_at(b, pos, spec_u64_to_le_bytes(x)),
{
    vstd::bytes::lemma_auto_spec_u64_to_from_le_bytes();
    assert(spec_u64_to_le_bytes(spec_u64_from_le_bytes(b.subrange(pos, pos + 8))) == b.subrange(
        pos,
        pos + 8,
    ));
}

/// A parsed u32 sits in the bytes as its own encoding.
proof fn lemma_parsed_u32_encodes(b: Seq<u8>, pos: int, x: u32, p: int)
    requires
        spec_parse_u32(b, pos) == Some((x, p)),
    ensures
        p == pos + 4,
        slice_at(b, pos, spec_u32_to_le_bytes(x)),
{
    vstd::bytes::lemma_auto_spec_u32_to_from_le_bytes();
    assert(spec_u32_to_le_bytes(spec_u32_from_le_bytes(b.subrange(pos, pos + 4))) == b.subrange(
        pos,
        pos + 4,
    ));
}

/// A parsed u64 list sits in the bytes as its own encoding.
proof fn lemma_parsed_u64_seq_encodes(b: Seq<u8>, pos: int, count: int, s: Seq<u64>, p: int)
    requires
        0 <= pos <= b.len(),
        spec_parse_u64_seq(b, pos, count) == Some((s, p)),
    ensures
        s.len() == if count >= 0 {
            count
        } else {
            0
        },
        p == pos + spec_encode_u64_seq(s).len(),
        slice_at(b, pos, spec_encode_u64_seq(s)),
    decreases count,
{
    vstd::bytes::lemma_auto_spec_u64_to_from_le_bytes();
    if count <= 0 {
        assert(s =~= Seq::<u64>::empty());
        assert(b.subrange(pos, pos) =~= Seq::<u8>::empty());
    } else {
        let (x, p1) = spec_parse_u64(b, pos).unwrap();
        let (rest, p2) = spec_parse_u64_seq(b, p1, count - 1).unwrap();
        lemma_parsed_u64_encodes(b, pos, x, p1);
        lemma_parsed_u64_seq_encodes(b, p1, count - 1, rest, p2);
        lemma_slice_at_join(b, pos, spec_u64_to_le_bytes(x), spec_encode_u64_seq(rest));
        assert(s == seq![x] + rest);
        assert(s[0] == x);
        assert(s.drop_first() =~= rest);
    }
}

/// A parsed hash list sits in the bytes as its own encoding, 32 bytes each.
proof fn lemma_parsed_hash_seq_encodes(b: Seq<u8>, pos: int, count: int, s: Seq<Seq<u8>>, p: int)
    requires
        0 <= pos <= b.len(),
        spec_parse_hash_seq(b, pos, count) == Some((s, p)),
    ensures
        s.len() == if count >= 0 {
            count
        } else {
            0
        },
        hashes_wf(s),
        p == pos + spec_encode_hash_seq(s).len(),
        slice_at(b, pos, spec_encode_hash_seq(s)),
    decreases count,
{
    if count <= 0 {
        assert(s =~= Seq::<Seq<u8>>::empty());
        assert(b.subrange(pos, pos) =~= Seq::<u8>::empty());
    } else {
        let (h, p1) = spec_parse_hash(b, pos).unwrap();
        let (rest, p2) = spec_parse_hash_seq(b, p1, count - 1).unwrap();
        lemma_parsed_hash_seq_encodes(b, p1, count - 1, rest, p2);
        lemma_slice_at_join(b, pos, h, spec_encode_hash_seq(rest));
        assert(s == seq![h] + rest);
        assert(s[0] == h);
        assert(s.drop_first() =~= rest);
        assert forall|k: int| 0 <= k < s.len() implies (#[trigger] s[k]).len() == 32 by {
            if k > 0 {
                assert(s[k] == rest[k - 1]);
            }
        }
    }
}

/// A parsed winner sits in the bytes as its own encoding and is
/// well-formed.
proof fn lemma_parsed_winner_encodes(b: Seq<u8>, pos: int, w: DraftWinnerV, p: int)
    requires
        spec_parse_winner(b, pos) == Some((w, p)),
    ensures
        winner_wf(w),
        p == pos + spec_encode_winner(w).len(),
        slice_at(b, pos, spec_encode_winner(w)),
{
    vstd::bytes::lemma_auto_spec_u64_to_from_le_bytes();
    vstd::bytes::lemma_auto_spec_u32_to_from_le_bytes();
    let (amount, p1) = spec_parse_u64(b, pos).unwrap();
    let (proof_len, p2) = spec_parse_u32(b, p1).unwrap();
    let (proof, p3) = spec_parse_bytes(b, p2, proof_len as int).unwrap();
    let (idx_count, p4) = spec_parse_u32(b, p3).unwrap();
    let (ticket_indices, p5) = spec_parse_u64_seq(b, p4, idx_count as int).unwrap();
    let (ticket_count, p6) = spec_parse_u32(b, p5).unwrap();
    let (tickets, p7) = spec_parse_hash_seq(b, p6, ticket_count as int).unwrap();
    let (address, p8) = spec_parse_hash(b, p7).unwrap();
    let (token_account, p9) = spec_parse_hash(b, p8).unwrap();
    lemma_parsed_u64_encodes(b, pos, amount, p1);
    lemma_parsed_u32_encodes(b, p1, proof_len, p2);
    lemma_parsed_u32_encodes(b, p3, idx_count, p4);
    lemma_parsed_u64_seq_encodes(b, p4, idx_count as int, ticket_indices, p5);
    lemma_parsed_u32_encodes(b, p5, ticket_count, p6);
    lemma_parsed_hash_seq_encodes(b, p6, ticket_count as int, tickets, p7);
    assert(proof_len == w.proof.len() as u32 && idx_count == w.ticket_indices.len() as u32
        && ticket_count == w.tickets.len() as u32);
    let e1 = spec_u64_to_le_bytes(w.amount);
    let e2 = spec_u32_to_le_bytes(w.proof.len() as u32);
    let e3 = w.proof;
    let e4 = spec_u32_to_le_bytes(w.ticket_indices.len() as u32);
    let e5 = spec_encode_u64_seq(w.ticket_indices);
    let e6 = spec_u32_to_le_bytes(w.tickets.len() as u32);
    let e7 = spec_encode_hash_seq(w.tickets);
    lemma_slice_at_join(b, pos, e1, e2);
    lemma_slice_at_join(b, pos, e1 + e2, e3);
    lemma_slice_at_join(b, pos, e1 + e2 + e3, e4);
    lemma_slice_at_join(b, pos, e1 + e2 + e3 + e4, e5);
    lemma_slice_at_join(b, pos, e1 + e2 + e3 + e4 + e5, e6);
    lemma_slice_at_join(b, pos, e1 + e2 + e3 + e4 + e5 + e6, e7);
    lemma_slice_at_join(b, pos, e1 + e2 + e3 + e4 + e5 + e6 + e7, w.address);
    lemma_slice_at_join(b, pos, e1 + e2 + e3 + e4 + e5 + e6 + e7 + w.address, w.token_account);
}

/// A parsed winner list sits in the bytes as its own encoding, all winners
/// well-formed.
proof fn lemma_parsed_winner_seq_encodes(
    b: Seq<u8>,
    pos: int,
    count: int,
    s: Seq<DraftWinnerV>,
    p: int,
)
    requires
        0 <= pos <= b.len(),
        spec_parse_winner_seq(b, pos, count) == Some((s, p)),
    ensures
        s.len() == if count >= 0 {
            count
        } else {
            0
        },
        forall|k: int| 0 <= k < s.len() ==> winner_wf(#[trigger] s[k]),
        p == pos + spec_encode_winner_seq(s).len(),
        slice_at(b, pos, spec_encode_winner_seq(s)),
    decreases count,
{
    if count <= 0 {
        assert(s =~= Seq::<DraftWinnerV>::empty());
        assert(b.subrange(pos, pos) =~= Seq::<u8>::empty());
    } else {
        let (w, p1) = spec_parse_winner(b, pos).unwrap();
        let (rest, p2) = spec_parse_winner_seq(b, p1, count - 1).unwrap();
        lemma_parsed_winner_encodes(b, pos, w, p1);
        lemma_parsed_winner_seq_encodes(b, p1, count - 1, rest, p2);
        lemma_slice_at_join(b, pos, spec_encode_winner(w), spec_encode_winner_seq(rest));
        assert(s == seq![w] + rest);
        assert(s[0] == w);
        assert(s.drop_first() =~= rest);
        assert forall|k: int| 0 <= k < s.len() implies winner_wf(#[trigger] s[k]) by {
            if k > 0 {
                assert(s[k] == rest[k - 1]);
            }
        }
    }
}

/// The format is unambiguous: bytes that parse are exactly the encoding of
/// what they parse to, so no two encodable values share an encoding and no
/// stray bytes are accepted.
pub proof fn lemma_parse_is_canonical(b: Seq<u8>, v: InstructionV)
    requires
        spec_parse_instruction(b) == Some(v),
    ensures
        instruction_wf(v),
        spec_encode_instruction(v) == b,
{
    vstd::bytes::lemma_auto_spec_u64_to_from_le_bytes();
    vstd::bytes::lemma_auto_spec_u32_to_from_le_bytes();
    let tag = b[0];
    if tag == 0 {
        let (ticket_price, p1) = spec_parse_u64(b, 1).unwrap();
        let (draft_count, p2) = spec_parse_u64(b, p1).unwrap();
        let (vault_balance_floor, p3) = spec_parse_u64(b, p2).unwrap();
        lemma_parsed_u64_encodes(b, 1, ticket_price, p1);
        lemma_parsed_u64_encodes(b, p1, draft_count, p2);
        lemma_parsed_u64_encodes(b, p2, vault_balance_floor, p3);
        assert(slice_at(b, 0, seq![0u8])) by {
            assert(b.subrange(0, 1) =~= seq![0u8]);
        }
        lemma_slice_at_join(b, 0, seq![0u8], spec_u64_to_le_bytes(ticket_price));
        lemma_slice_at_join(
            b,
            0,
            seq![0u8] + spec_u64_to_le_bytes(ticket_price),
            spec_u64_to_le_bytes(draft_count),
        );
        lemma_slice_at_join(
            b,
            0,
            seq![0u8] + spec_u64_to_le_bytes(ticket_price) + spec_u64_to_le_bytes(draft_count),
            spec_u64_to_le_bytes(vault_balance_floor),
        );
        assert(spec_encode_instruction(v) =~= b);
    } else if tag == 1 {
        let (amount, p1) = spec_parse_u64(b, 1).unwrap();
        lemma_parsed_u64_encodes(b, 1, amount, p1);
        assert(slice_at(b, 0, seq![1u8])) by {
            assert(b.subrange(0, 1) =~= seq![1u8]);
        }
        lemma_slice_at_join(b, 0, seq![1u8], spec_u64_to_le_bytes(amount));
        assert(spec_encode_instruction(v) =~= b);
    } else if tag == 2 {
        let (merkle_root, p1) = spec_parse_hash(b, 1).unwrap();
        let (total_tickets, p2) = spec_parse_u64(b, p1).unwrap();
        lemma_parsed_u64_encodes(b, p1, total_tickets, p2);
        assert(slice_at(b, 0, seq![2u8])) by {
            assert(b.subrange(0, 1) =~= seq![2u8]);
        }
        lemma_slice_at_join(b, 0, seq![2u8], merkle_root);
        lemma_slice_at_join(b, 0, seq![2u8] + merkle_root, spec_u64_to_le_bytes(total_tickets));
        assert(spec_encode_instruction(v) =~= b);
    } else if tag == 3 {
        let (amount, p1) = spec_parse_u64(b, 1).unwrap();
        lemma_parsed_u64_encodes(b, 1, amount, p1);
        assert(slice_at(b, 0, seq![3u8])) by {
            assert(b.subrange(0, 1) =~= seq![3u8]);
        }
        lemma_slice_at_join(b, 0, seq![3u8], spec_u64_to_le_bytes(amount));
        assert(spec_encode_instruction(v) =~= b);
    } else if tag == 4 {
        let (count, p1) = spec_parse_u32(b, 1).unwrap();
        let (ws, p2) = spec_parse_winner_seq(b, p1, count as int).unwrap();
        lemma_parsed_u32_encodes(b, 1, count, p1);
        lemma_parsed_winner_seq_encodes(b, p1, count as int, ws, p2);
        assert(count == ws.len() as u32);
        assert(slice_at(b, 0, seq![4u8])) by {
            assert(b.subrange(0, 1) =~= seq![4u8]);
        }
        lemma_slice_at_join(b, 0, seq![4u8], spec_u32_to_le_bytes(ws.len() as u32));
        lemma_slice_at_join(
            b,
            0,
            seq![4u8] + spec_u32_to_le_bytes(ws.len() as u32),
            spec_encode_winner_seq(ws),
        );
        assert(spec_encode_instruction(v) =~= b);
    } else {
        assert(tag == 5);
        assert(spec_encode_instruction(v) =~= b);
    }
}

// ---------------------------------------------------------------------------
// Executable encoding.
// ---------------------------------------------------------------------------

/// Append a little-endian u64.
fn encode_u64_into(out: &mut Vec<u8>, x: u64)
    ensures
        final(out)@ == old(out)@ + spec_u64_to_le_bytes(x),
{
    let mut piece = u64_to_le_bytes(x);
    out.append(&mut piece);
}

/// Append a little-endian u32.
fn encode_u32_into(out: &mut Vec<u8>, x: u32)
    ensures
        final(out)@ == old(out)@ + spec_u32_to_le_bytes(x),
{
    let mut piece = u32_to_le_bytes(x);
    out.append(&mut piece);
}

/// Append 32 raw bytes.
fn encode_hash_into(out: &mut Vec<u8>, h: &[u8; 32])
    ensures
        final(out)@ == old(out)@ + h@,
{
    let mut j: usize = 0;
    while j < 32
        invariant
            j <= 32,
            out@ == old(out)@ + h@.subrange(0, j as int),
        decreases 32 - j,
    {
        out.push(h[j]);
        proof {
            assert(old(out)@ + h@.subrange(0, j as int + 1) =~= (old(out)@ + h@.subrange(
                0,
                j as int,
            )).push(h@[j as int]));
        }
        j += 1;
    }
    proof {
        assert(h@.subrange(0, 32) =~= h@);
    }
}

/// Append one draft winner.
fn encode_winner_into(out: &mut Vec<u8>, w: &DraftWinner)
    requires
        winner_encodable(winner_view(*w)),
    ensures
        final(out)@ == old(out)@ + spec_encode_winner(winner_view(*w)),
{
    encode_u64_into(out, w.amount);
    encode_u32_into(out, w.proof.len() as u32);
    let mut j: usize = 0;
    while j < w.proof.len()
        invariant
            j <= w.proof@.len(),
            out@ == old(out)@ + spec_u64_to_le_bytes(w.amount) + spec_u32_to_le_bytes(
                w.proof@.len() as u32,
            ) + w.proof@.subrange(0, j as int),
        decreases w.proof@.len() - j,
    {
        out.push(w.proof[j]);
        proof {
            assert(w.proof@.subrange(0, j as int + 1) =~= w.proof@.subrange(0, j as int).push(
                w.proof@[j as int],
            ));
            assert(out@ =~= old(out)@ + spec_u64_to_le_bytes(w.amount) + spec_u32_to_le_bytes(
                w.proof@.len() as u32,
            ) + w.proof@.subrange(0, j as int + 1));
        }
        j += 1;
    }
    proof {
        assert(w.proof@.subrange(0, w.proof@.len() as int) =~= w.proof@);
    }
    encode_u32_into(out, w.ticket_indices.len() as u32);
    let ghost mid1 = out@;
    let mut j: usize = 0;
    while j < w.ticket_indices.len()
        invariant
            j <= w.ticket_indices@.len(),
            out@ == mid1 + spec_encode_u64_seq(w.ticket_indices@.subrange(0, j as int)),
        decreases w.ticket_indices@.len() - j,
    {
        encode_u64_into(out, w.ticket_indices[j]);
        proof {
            lemma_encode_u64_seq_snoc(w.ticket_indices@.subrange(0, j as int + 1));
            assert(w.ticket_indices@.subrange(0, j as int + 1).drop_last() =~= w.ticket_indices@
                .subrange(0, j as int));
        }
        j += 1;
    }
    proof {
        assert(w.ticket_indices@.subrange(0, w.ticket_indices@.len() as int) =~= w
            .ticket_indices@);
    }
    encode_u32_into(out, w.tickets.len() as u32);
    let ghost mid2 = out@;
    let mut j: usize = 0;
    while j < w.tickets.len()
        invariant
            j <= w.tickets@.len(),
            out@ == mid2 + spec_encode_hash_seq(
                w.tickets@.map_values(|t: [u8; 32]| t@).subrange(0, j as int),
            ),
        decreases w.tickets@.len() - j,
    {
        encode_hash_into(out, &w.tickets[j]);
        proof {
            lemma_encode_hash_seq_snoc(
                w.tickets@.map_values(|t: [u8; 32]| t@).subrange(0, j as int + 1),
            );
            assert(w.tickets@.map_values(|t: [u8; 32]| t@).subrange(0, j as int + 1).drop_last()
                =~= w.tickets@.map_values(|t: [u8; 32]| t@).subrange(0, j as int));
            assert(w.tickets@.map_values(|t: [u8; 32]| t@).subrange(0, j as int + 1).last() == w
                .tickets@[j as int]@);
        }
        j += 1;
    }
    proof {
        assert(w.tickets@.map_values(|t: [u8; 32]| t@).subrange(
            0,
            w.tickets@.len() as int,
        ) =~= w.tickets@.map_values(|t: [u8; 32]| t@));
    }
    encode_hash_into(out, &w.address);
    encode_hash_into(out, &w.token_account);
    proof {
        assert(out@ =~= old(out)@ + spec_encode_winner(winner_view(*w)));
    }
}

/// Appending one element to the back of a u64 list appends its bytes.
proof fn lemma_encode_u64_seq_snoc(s: Seq<u64>)
    requires
        s.len() > 0,
    ensures
        spec_encode_u64_seq(s) == spec_encode_u64_seq(s.drop_last()) + spec_u64_to_le_bytes(
            s.last(),
        ),
    decreases s.len(),
{
    if s.len() == 1 {
        assert(s.drop_last() =~= Seq::<u64>::empty());
        assert(spec_encode_u64_seq(s.drop_last()) == Seq::<u8>::empty());
        assert(s.drop_first() =~= Seq::<u64>::empty());
        assert(spec_encode_u64_seq(s) =~= spec_u64_to_le_bytes(s[0]));
        assert(spec_encode_u64_seq(s.drop_last()) + spec_u64_to_le_bytes(s.last())
            =~= spec_u64_to_le_bytes(s[0]));
    } else {
        lemma_encode_u64_seq_snoc(s.drop_first());
        assert(s.drop_first().drop_last() =~= s.drop_last().drop_first());
        assert(s.drop_first().last() == s.last());
        assert(spec_encode_u64_seq(s.drop_last()) == spec_u64_to_le_bytes(s[0])
            + spec_encode_u64_seq(s.drop_last().drop_first()));
        assert(spec_encode_u64_seq(s) =~= spec_encode_u64_seq(s.drop_last())
            + spec_u64_to_le_bytes(s.last()));
    }
}

/// Appending one hash to the back of a hash list appends its bytes.
proof fn lemma_encode_hash_seq_snoc(s: Seq<Seq<u8>>)
    requires
        s.len() > 0,
    ensures
        spec_encode_hash_seq(s) == spec_encode_hash_seq(s.drop_last()) + s.last(),
    decreases s.len(),
{
    if s.len() == 1 {
        assert(s.drop_last() =~= Seq::<Seq<u8>>::empty());
        assert(s.drop_first() =~= Seq::<Seq<u8>>::empty());
        assert(spec_encode_hash_seq(Seq::<Seq<u8>>::empty()) == Seq::<u8>::empty());
        assert(spec_encode_hash_seq(s) =~= s[0]);
        assert(spec_encode_hash_seq(s.drop_last()) + s.last() =~= s[0]);
    } else {
        lemma_encode_hash_seq_snoc(s.drop_first());
        assert(s.drop_first().drop_last() =~= s.drop_last().drop_first());
        assert(s.drop_first().last() == s.last());
        assert(spec_encode_hash_seq(s.drop_last()) == s[0] + spec_encode_hash_seq(
            s.drop_last().drop_first(),
        ));
        assert(spec_encode_hash_seq(s) =~= spec_encode_hash_seq(s.drop_last()) + s.last());
    }
}

/// Appending one winner to the back of a winner list appends its bytes.
proof fn lemma_encode_winner_seq_snoc(s: Seq<DraftWinnerV>)
    requires
        s.len() > 0,
    ensures
        spec_encode_winner_seq(s) == spec_encode_winner_seq(s.drop_last()) + spec_encode_winner(
            s.last(),
        ),
    decreases s.len(),
{
    if s.len() == 1 {
        assert(s.drop_last() =~= Seq::<DraftWinnerV>::empty());
        assert(s.drop_first() =~= Seq::<DraftWinnerV>::empty());
        assert(spec_encode_winner_seq(Seq::<DraftWinnerV>::empty()) == Seq::<u8>::empty());
        assert(spec_encode_winner_seq(s) =~= spec_encode_winner(s[0]));
        assert(spec_encode_winner_seq(s.drop_last()) + spec_encode_winner(s.last())
            =~= spec_encode_winner(s[0]));
    } else {
        lemma_encode_winner_seq_snoc(s.drop_first());
        assert(s.drop_first().drop_last() =~= s.drop_last().drop_first());
        assert(s.drop_first().last() == s.last());
        assert(spec_encode_winner_seq(s.drop_last()) == spec_encode_winner(s[0])
            + spec_encode_winner_seq(s.drop_last().drop_first()));
        assert(spec_encode_winner_seq(s) =~= spec_encode_winner_seq(s.drop_last())
            + spec_encode_winner(s.last()));
    }
}

/// Encode an instruction to its bytes.
pub fn encode_instruction(instruction: &Instruction) -> (r: Vec<u8>)
    requires
        instruction_encodable(instruction_view(*instruction)),
    ensures
        r@ == spec_encode_instruction(instruction_view(*instruction)),
{
    let mut out: Vec<u8> = Vec::new();
    match instruction {
        Instruction::InitializePool(d) => {
            out.push(0);
            proof {
                assert(out@ =~= seq![0u8]);
            }
            encode_u64_into(&mut out, d.ticket_price);
            encode_u64_into(&mut out, d.draft_count);
            encode_u64_into(&mut out, d.vault_balance_floor);
        },
        Instruction::Deposit(a) => {
            out.push(1);
            proof {
                assert(out@ =~= seq![1u8]);
            }
            encode_u64_into(&mut out, *a);
        },
        Instruction::PurchaseTicket(t) => {
            out.push(2);
            proof {
                assert(out@ =~= seq![2u8]);
            }
            encode_hash_into(&mut out, &t.merkle_root);
            encode_u64_into(&mut out, t.total_tickets);
        },
        Instruction::Withdraw(a) => {
            out.push(3);
            proof {
                assert(out@ =~= seq![3u8]);
            }
            encode_u64_into(&mut out, *a);
        },
        Instruction::SelectWinnersAndAirdrop(ws) => {
            out.push(4);
            proof {
                assert(out@ =~= seq![4u8]);
            }
            encode_u32_into(&mut out, ws.len() as u32);
            let ghost mid = out@;
            let ghost wsv = ws@.map_values(|w: DraftWinner| winner_view(w));
            let mut j: usize = 0;
            while j < ws.len()
                invariant
                    j <= ws@.len(),
                    wsv == ws@.map_values(|w: DraftWinner| winner_view(w)),
                    forall|k: int| 0 <= k < wsv.len() ==> winner_encodable(#[trigger] wsv[k]),
                    out@ == mid + spec_encode_winner_seq(wsv.subrange(0, j as int)),
                decreases ws@.len() - j,
            {
                proof {
                    assert(wsv[j as int] == winner_view(ws@[j as int]));
                    assert(winner_encodable(wsv[j as int]));
                }
                encode_winner_into(&mut out, &ws[j]);
                proof {
                    lemma_encode_winner_seq_snoc(wsv.subrange(0, j as int + 1));
                    assert(wsv.subrange(0, j as int + 1).drop_last() =~= wsv.subrange(
                        0,
                        j as int,
                    ));
                    assert(wsv.subrange(0, j as int + 1).last() == winner_view(ws@[j as int]));
                }
                j += 1;
            }
            proof {
                assert(wsv.subrange(0, wsv.len() as int) =~= wsv);
            }
        },
        Instruction::ClosePlayerAccount => {
            out.push(5);
            proof {
                assert(out@ =~= seq![5u8]);
            }
        },
    }
    proof {
        assert(out@ =~= spec_encode_instruction(instruction_view(*instruction)));
    }
    out
}

// ---------------------------------------------------------------------------
// Executable parsing.
// ---------------------------------------------------------------------------

/// Read a little-endian u64 at `pos`.
fn parse_u64_at(bytes: &Vec<u8>, pos: usize) -> (r: Option<(u64, usize)>)
    ensures
        match r {
            Some((x, next)) => spec_parse_u64(bytes@, pos as int) == Some((x, next as int)),
            None => spec_parse_u64(bytes@, pos as int) is None,
        },
{
    if bytes.len() < 8 || pos > bytes.len() - 8 {
        return None;
    }
    let piece = slice_subrange(bytes.as_slice(), pos, pos + 8);
    Some((u64_from_le_bytes(piece), pos + 8))
}

/// Read a little-endian u32 at `pos`.
fn parse_u32_at(bytes: &Vec<u8>, pos: usize) -> (r: Option<(u32, usize)>)
    ensures
        match r {
            Some((x, next)) => spec_parse_u32(bytes@, pos as int) == Some((x, next as int)),
            None => spec_parse_u32(bytes@, pos as int) is None,
        },
{
    if bytes.len() < 4 || pos > bytes.len() - 4 {
        return None;
    }
    let piece = slice_subrange(bytes.as_slice(), pos, pos + 4);
    Some((u32_from_le_bytes(piece), pos + 4))
}

/// Read 32 raw bytes at `pos`.
fn parse_hash_at(bytes: &Vec<u8>, pos: usize) -> (r: Option<([u8; 32], usize)>)
    ensures
        match r {
            Some((h, next)) => spec_parse_hash(bytes@, pos as int) == Some((h@, next as int)),
            None => spec_parse_hash(bytes@, pos as int) is None,
        },
{
    let n = bytes.len();
    if n < 32 || pos > n - 32 {
        return None;
    }
    let mut h = [0u8; 32];
    let mut j: usize = 0;
    while j < 32
        invariant
            j <= 32,
            pos + 32 <= n,
            n == bytes@.len(),
            forall|k: int| 0 <= k < j ==> h@[k] == bytes@[pos + k],
        decreases 32 - j,
    {
        h[j] = bytes[pos + j];
        j += 1;
    }
    proof {
        assert(h@ =~= bytes@.subrange(pos as int, pos as int + 32));
    }
    Some((h, pos + 32))
}

/// Read a length-prefixed byte list's contents at `pos`.
fn parse_bytes_at(bytes: &Vec<u8>, pos: usize, count: u32) -> (r: Option<(Vec<u8>, usize)>)
    ensures
        match r {
            Some((v, next)) => spec_parse_bytes(bytes@, pos as int, count as int) == Some(
                (v@, next as int),
            ),
            None => spec_parse_bytes(bytes@, pos as int, count as int) is None,
        },
{
    let count = count as usize;
    if pos > bytes.len() || count > bytes.len() - pos {
        return None;
    }
    let piece = slice_subrange(bytes.as_slice(), pos, pos + count);
    let v = vstd::slice::slice_to_vec(piece);
    Some((v, pos + count))
}

/// Read `count` u64 values at `pos`.
fn parse_u64_vec_at(bytes: &Vec<u8>, pos: usize, count: u32) -> (r: Option<(Vec<u64>, usize)>)
    ensures
        match r {
            Some((v, next)) => spec_parse_u64_seq(bytes@, pos as int, count as int) == Some(
                (v@, next as int),
            ),
            None => spec_parse_u64_seq(bytes@, pos as int, count as int) is None,
        },
{
    let mut acc: Vec<u64> = Vec::new();
    let mut cur: usize = pos;
    let mut remaining: u32 = count;
    while remaining > 0
        invariant
            spec_parse_u64_seq(bytes@, pos as int, count as int) == (match spec_parse_u64_seq(
                bytes@,
                cur as int,
                remaining as int,
            ) {
                None => None::<(Seq<u64>, int)>,
                Some((s, p)) => Some((acc@ + s, p)),
            }),
        decreases remaining,
    {
        match parse_u64_at(bytes, cur) {
            None => {
                return None;
            },
            Some((x, next)) => {
                proof {
                    let rest = spec_parse_u64_seq(bytes@, next as int, remaining as int - 1);
                    if rest is Some {
                        assert(acc@ + (seq![x] + rest.unwrap().0) =~= acc@.push(x) + rest.unwrap().0);
                    }
                }
                acc.push(x);
                cur = next;
                remaining = remaining - 1;
            },
        }
    }
    proof {
        assert(acc@ + Seq::<u64>::empty() =~= acc@);
    }
    Some((acc, cur))
}

/// Read `count` 32-byte hashes at `pos`.
fn parse_hash_vec_at(bytes: &Vec<u8>, pos: usize, count: u32) -> (r: Option<
    (Vec<[u8; 32]>, usize),
>)
    ensures
        match r {
            Some((v, next)) => spec_parse_hash_seq(bytes@, pos as int, count as int) == Some(
                (v@.map_values(|t: [u8; 32]| t@), next as int),
            ),
            None => spec_parse_hash_seq(bytes@, pos as int, count as int) is None,
        },
{
    let mut acc: Vec<[u8; 32]> = Vec::new();
    let mut cur: usize = pos;
    let mut remaining: u32 = count;
    while remaining > 0
        invariant
            spec_parse_hash_seq(bytes@, pos as int, count as int) == (match spec_parse_hash_seq(
                bytes@,
                cur as int,
                remaining as int,
            ) {
                None => None::<(Seq<Seq<u8>>, int)>,
                Some((s, p)) => Some((acc@.map_values(|t: [u8; 32]| t@) + s, p)),
            }),
        decreases remaining,
    {
        match parse_hash_at(bytes, cur) {
            None => {
                return None;
            },
            Some((h, next)) => {
                proof {
                    let rest = spec_parse_hash_seq(bytes@, next as int, remaining as int - 1);
                    if rest is Some {
                        assert(acc@.map_values(|t: [u8; 32]| t@) + (seq![h@] + rest.unwrap().0) =~= acc@
                            .push(h).map_values(|t: [u8; 32]| t@) + rest.unwrap().0);
                    }
                }
                acc.push(h);
                cur = next;
                remaining = remaining - 1;
            },
        }
    }
    proof {
        assert(acc@.map_values(|t: [u8; 32]| t@) + Seq::<Seq<u8>>::empty() =~= acc@.map_values(
            |t: [u8; 32]| t@,
        ));
    }
    Some((acc, cur))
}

/// Read one draft winner at `pos`.
fn parse_winner_at(bytes: &Vec<u8>, pos: usize) -> (r: Option<(DraftWinner, usize)>)
    ensures
        match r {
            Some((w, next)) => spec_parse_winner(bytes@, pos as int) == Some(
                (winner_view(w), next as int),
            ),
            None => spec_parse_winner(bytes@, pos as int) is None,
        },
{
    let (amount, p1) = match parse_u64_at(bytes, pos) {
        Some(v) => v,
        None => {
            return None;
        },
    };
    let (proof_len, p2) = match parse_u32_at(bytes, p1) {
        Some(v) => v,
        None => {
            return None;
        },
    };
    let (proof_bytes, p3) = match parse_bytes_at(bytes, p2, proof_len) {
        Some(v) => v,
        None => {
            return None;
        },
    };
    let (idx_count, p4) = match parse_u32_at(bytes, p3) {
        Some(v) => v,
        None => {
            return None;
        },
    };
    let (ticket_indices, p5) = match parse_u64_vec_at(bytes, p4, idx_count) {
        Some(v) => v,
        None => {
            return None;
        },
    };
    let (ticket_count, p6) = match parse_u32_at(bytes, p5) {
        Some(v) => v,
        None => {
            return None;
        },
    };
    let (tickets, p7) = match parse_hash_vec_at(bytes, p6, ticket_count) {
        Some(v) => v,
        None => {
            return None;
        },
    };
    let (address, p8) = match parse_hash_at(bytes, p7) {
        Some(v) => v,
        None => {
            return None;
        },
    };
    let (token_account, p9) = match parse_hash_at(bytes, p8) {
        Some(v) => v,
        None => {
            return None;
        },
    };
    Some(
        (
            DraftWinner { amount, proof: proof_bytes, ticket_indices, tickets, address, token_account },
            p9,
        ),
    )
}

/// Read `count` draft winners at `pos`.
fn parse_winner_vec_at(bytes: &Vec<u8>, pos: usize, count: u32) -> (r: Option<
    (Vec<DraftWinner>, usize),
>)
    ensures
        match r {
            Some((v, next)) => spec_parse_winner_seq(bytes@, pos as int, count as int) == Some(
                (v@.map_values(|w: DraftWinner| winner_view(w)), next as int),
            ),
            None => spec_parse_winner_seq(bytes@, pos as int, count as int) is None,
        },
{
    let mut acc: Vec<DraftWinner> = Vec::new();
    let mut cur: usize = pos;
    let mut remaining: u32 = count;
    while remaining > 0
        invariant
            spec_parse_winner_seq(bytes@, pos as int, count as int) == (match spec_parse_winner_seq(
                bytes@,
                cur as int,
                remaining as int,
            ) {
                None => None::<(Seq<DraftWinnerV>, int)>,
                Some((s, p)) => Some((acc@.map_values(|w: DraftWinner| winner_view(w)) + s, p)),
            }),
        decreases remaining,
    {
        match parse_winner_at(bytes, cur) {
            None => {
                return None;
            },
            Some((w, next)) => {
                proof {
                    let rest = spec_parse_winner_seq(bytes@, next as int, remaining as int - 1);
                    if rest is Some {
                        assert(acc@.map_values(|x: DraftWinner| winner_view(x)) + (seq![
                            winner_view(w),
                        ] + rest.unwrap().0) =~= acc@.push(w).map_values(|x: DraftWinner| winner_view(x))
                            + rest.unwrap().0);
                    }
                }
                acc.push(w);
                cur = next;
                remaining = remaining - 1;
            },
        }
    }
    proof {
        assert(acc@.map_values(|w: DraftWinner| winner_view(w)) + Seq::<DraftWinnerV>::empty()
            =~= acc@.map_values(|w: DraftWinner| winner_view(w)));
    }
    Some((acc, cur))
}

/// Decode an instruction from its bytes; `None` exactly where the bytes are
/// not a whole, well-formed encoding.
pub fn parse_instruction(bytes: &Vec<u8>) -> (r: Option<Instruction>)
    ensures
        match r {
            Some(i) => spec_parse_instruction(bytes@) == Some(instruction_view(i)),
            None => spec_parse_instruction(bytes@) is None,
        },
{
    if bytes.len() < 1 {
        return None;
    }
    let tag = bytes[0];
    if tag == 0 {
        let (ticket_price, p1) = match parse_u64_at(bytes, 1) {
            Some(v) => v,
            None => {
                return None;
            },
        };
        let (draft_count, p2) = match parse_u64_at(bytes, p1) {
            Some(v) => v,
            None => {
                return None;
            },
        };
        let (vault_balance_floor, p3) = match parse_u64_at(bytes, p2) {
            Some(v) => v,
            None => {
                return None;
            },
        };
        if p3 != bytes.len() {
            return None;
        }
        Some(
            Instruction::InitializePool(
                PoolStorageData { ticket_price, draft_count, vault_balance_floor },
            ),
        )
    } else if tag == 1 {
        let (amount, p1) = match parse_u64_at(bytes, 1) {
            Some(v) => v,
            None => {
                return None;
            },
        };
        if p1 != bytes.len() {
            return None;
        }
        Some(Instruction::Deposit(amount))
    } else if tag == 2 {
        let (merkle_root, p1) = match parse_hash_at(bytes, 1) {
            Some(v) => v,
            None => {
                return None;
            },
        };
        let (total_tickets, p2) = match parse_u64_at(bytes, p1) {
            Some(v) => v,
            None => {
                return None;
            },
        };
        if p2 != bytes.len() {
            return None;
        }
        Some(Instruction::PurchaseTicket(TicketAccountData { merkle_root, total_tickets }))
    } else if tag == 3 {
        let (amount, p1) = match parse_u64_at(bytes, 1) {
            Some(v) => v,
            None => {
                return None;
            },
        };
        if p1 != bytes.len() {
            return None;
        }
        Some(Instruction::Withdraw(amount))
    } else if tag == 4 {
        let (count, p1) = match parse_u32_at(bytes, 1) {
            Some(v) => v,
            None => {
                return None;
            },
        };
        let (winners, p2) = match parse_winner_vec_at(bytes, p1, count) {
            Some(v) => v,
            None => {
                return None;
            },
        };
        if p2 != bytes.len() {
            return None;
        }
        Some(Instruction::SelectWinnersAndAirdrop(winners))
    } else if tag == 5 {
        if bytes.len() != 1 {
            return None;
        }
        Some(Instruction::ClosePlayerAccount)
    } else {
        None
    }
}

} // verus!
