//! Merkle-proof verification for draft claims.
//!
//! A draft winner proves that the leaves at the claimed positions belong to
//! the tree behind the Merkle root committed in their ticket record. The
//! audit-path recomputation over SHA-256 is rs_merkle's; its result is named
//! by [`merkle_root_from_proof`], and verification succeeds exactly when
//! the positions and leaf count are in range and that recomputed root
//! equals the committed one.

use vstd::prelude::*;

verus! {

/// The root that rs_merkle recomputes from the proof's sibling hashes (32
/// bytes each), the claimed leaf positions, the claimed leaf hashes, and the
/// leaf count of the tree — a function of these arguments alone. `None`
/// when the recomputation rejects the input: proof bytes that are not a
/// whole number of hashes, a position/leaf count mismatch, or too few or
/// too many sibling hashes. It is only ever applied with positions and leaf
/// count at most `u32::MAX`, where the recomputation behaves alike on every
/// machine.
pub uninterp spec fn merkle_root_from_proof(
    proof: Seq<u8>,
    indices: Seq<u64>,
    leaves: Seq<Seq<u8>>,
    total: nat,
) -> Option<Seq<u8>>;

/// Whether every claimed position fits 32 bits.
pub open spec fn spec_indices_in_range(indices: Seq<u64>) -> bool {
    forall|k: int| 0 <= k < indices.len() ==> #[trigger] indices[k] <= u32::MAX
}

/// Whether the proof proves the claimed leaves against `root`: the
/// positions and leaf count are in range, and the recomputed root exists
/// and equals it.
pub open spec fn spec_proof_verifies(
    root: Seq<u8>,
    proof: Seq<u8>,
    indices: Seq<u64>,
    leaves: Seq<Seq<u8>>,
    total: nat,
) -> bool {
    total <= u32::MAX && spec_indices_in_range(indices) && merkle_root_from_proof(
        proof,
        indices,
        leaves,
        total,
    ) == Some(root)
}

/// Relies on `rs_merkle::MerkleProof::<Sha256>::from_bytes` and
/// `MerkleProof::verify`: `verify` returns true exactly when the root it
/// recomputes from the proof and leaves equals the given root; bytes that
/// do not parse never verify; and for positions and a leaf count within 32
/// bits the recomputation is a function of the arguments alone, the same on
/// every machine.
#[verifier::external_body]
fn rs_merkle_verify(
    root: &[u8; 32],
    indices: &Vec<u64>,
    leaves: &Vec<[u8; 32]>,
    total: u64,
    proof: &Vec<u8>,
) -> (r: bool)
    requires
        total <= u32::MAX,
        spec_indices_in_range(indices@),
    ensures
        r == (merkle_root_from_proof(
            proof@,
            indices@,
            leaves@.map_values(|l: [u8; 32]| l@),
            total as nat,
        ) == Some(root@)),
{
    let parsed = match rs_merkle::MerkleProof::<rs_merkle::algorithms::Sha256>::from_bytes(
        proof.as_slice(),
    ) {
        Ok(p) => p,
        Err(_) => return false,
    };
    let idx: Vec<usize> = indices.iter().map(|i| *i as usize).collect();
    parsed.verify(*root, &idx, leaves.as_slice(), total as usize)
}

/// Verify a draft claim: true exactly when the claimed positions and the
/// leaf count fit 32 bits and the root recomputed from the proof's sibling
/// hashes, the claimed positions and leaf hashes, over a tree of
/// `total_tickets` leaves, equals the committed `root`.
pub fn verify_ticket_proof(
    root: &[u8; 32],
    ticket_indices: &Vec<u64>,
    tickets: &Vec<[u8; 32]>,
    total_tickets: u64,
    proof: &Vec<u8>,
) -> (r: bool)
    ensures
        r == spec_proof_verifies(
            root@,
            proof@,
            ticket_indices@,
            tickets@.map_values(|l: [u8; 32]| l@),
            total_tickets as nat,
        ),
{
    if total_tickets > u32::MAX as u64 {
        return false;
    }
    let mut k: usize = 0;
    while k < ticket_indices.len()
        invariant
            k <= ticket_indices@.len(),
            forall|j: int| 0 <= j < k ==> #[trigger] ticket_indices@[j] <= u32::MAX,
        decreases ticket_indices@.len() - k,
    {
        if ticket_indices[k] > u32::MAX as u64 {
            return false;
        }
        k += 1;
    }
    rs_merkle_verify(root, ticket_indices, tickets, total_tickets, proof)
}

} // verus!
