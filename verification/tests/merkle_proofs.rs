//! Merkle-proof verification against real rs_merkle trees.

use rs_merkle::algorithms::Sha256;
use rs_merkle::{Hasher, MerkleTree};

use solana_lottery_program::merkle::verify_ticket_proof;

fn sample_tree() -> (Vec<[u8; 32]>, MerkleTree<Sha256>) {
    let tickets = ["0", "1", "3", "6", "2", "6"];
    let leaves: Vec<[u8; 32]> = tickets.iter().map(|t| Sha256::hash(t.as_bytes())).collect();
    let tree = MerkleTree::<Sha256>::from_leaves(&leaves);
    (leaves, tree)
}

#[test]
fn proof_verification_accepts_valid_proof() {
    let (leaves, tree) = sample_tree();
    let indices = vec![4usize, 5];
    let proof = tree.proof(&indices).to_bytes();
    let root = tree.root().expect("unable to get the root");
    let claimed: Vec<[u8; 32]> = indices.iter().map(|&i| leaves[i]).collect();
    let claimed_indices: Vec<u64> = indices.iter().map(|&i| i as u64).collect();
    assert!(verify_ticket_proof(
        &root,
        &claimed_indices,
        &claimed,
        leaves.len() as u64,
        &proof
    ));
}

#[test]
fn proof_verification_rejects_flipped_leaf_byte() {
    let (leaves, tree) = sample_tree();
    let indices = vec![4usize, 5];
    let proof = tree.proof(&indices).to_bytes();
    let root = tree.root().expect("unable to get the root");
    let mut claimed: Vec<[u8; 32]> = indices.iter().map(|&i| leaves[i]).collect();
    claimed[0][7] ^= 0x01;
    let claimed_indices: Vec<u64> = indices.iter().map(|&i| i as u64).collect();
    assert!(!verify_ticket_proof(
        &root,
        &claimed_indices,
        &claimed,
        leaves.len() as u64,
        &proof
    ));
}

#[test]
fn proof_verification_rejects_flipped_index() {
    let (leaves, tree) = sample_tree();
    let indices = vec![4usize, 5];
    let proof = tree.proof(&indices).to_bytes();
    let root = tree.root().expect("unable to get the root");
    let claimed: Vec<[u8; 32]> = indices.iter().map(|&i| leaves[i]).collect();
    let wrong_indices: Vec<u64> = vec![3, 5];
    assert!(!verify_ticket_proof(
        &root,
        &wrong_indices,
        &claimed,
        leaves.len() as u64,
        &proof
    ));
}

#[test]
fn proof_verification_rejects_wrong_root() {
    let (leaves, tree) = sample_tree();
    let indices = vec![0usize];
    let proof = tree.proof(&indices).to_bytes();
    let mut root = tree.root().expect("unable to get the root");
    root[0] ^= 0xff;
    let claimed: Vec<[u8; 32]> = vec![leaves[0]];
    let claimed_indices: Vec<u64> = vec![0];
    assert!(!verify_ticket_proof(
        &root,
        &claimed_indices,
        &claimed,
        leaves.len() as u64,
        &proof
    ));
}

#[test]
fn proof_verification_rejects_truncated_proof() {
    let (leaves, tree) = sample_tree();
    let indices = vec![4usize, 5];
    let mut proof = tree.proof(&indices).to_bytes();
    proof.pop();
    let root = tree.root().expect("unable to get the root");
    let claimed: Vec<[u8; 32]> = indices.iter().map(|&i| leaves[i]).collect();
    let claimed_indices: Vec<u64> = indices.iter().map(|&i| i as u64).collect();
    assert!(!verify_ticket_proof(
        &root,
        &claimed_indices,
        &claimed,
        leaves.len() as u64,
        &proof
    ));
}
