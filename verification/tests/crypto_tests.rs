//! Hashing, Merkle tree, and signing behavior.

use oracle_vm::hashing::sha256;
use oracle_vm::merkle::{verify_proof, MerkleTree};
use oracle_vm::signing::{generate_keypair, sign_data, verify_signature};

#[test]
fn test_sign_and_verify() {
    let (secret_key, public_key) = generate_keypair();
    let data = b"test message";

    let signature = sign_data(data, &secret_key).unwrap();
    let is_valid = verify_signature(data, &signature, &public_key).unwrap();

    assert!(is_valid);
}

#[test]
fn test_merkle_tree() {
    let leaves = vec![
        sha256(b"leaf1"),
        sha256(b"leaf2"),
        sha256(b"leaf3"),
        sha256(b"leaf4"),
    ];

    let tree = MerkleTree::new(leaves.clone());
    let _root = tree.root();

    // Test proof generation
    let proof = tree.membership_proof(0).unwrap();
    assert!(!proof.is_empty());
}

#[test]
fn sha256_matches_known_digest() {
    // SHA-256("abc"), as published in the standard's test vectors.
    let expected: [u8; 32] = [
        0xba, 0x78, 0x16, 0xbf, 0x8f, 0x01, 0xcf, 0xea, 0x41, 0x41, 0x40, 0xde, 0x5d, 0xae,
        0x22, 0x23, 0xb0, 0x03, 0x61, 0xa3, 0x96, 0x17, 0x7a, 0x9c, 0xb4, 0x10, 0xff, 0x61,
        0xf2, 0x00, 0x15, 0xad,
    ];
    assert_eq!(sha256(b"abc"), expected);
}

#[test]
fn empty_tree_root_is_all_zero() {
    let tree = MerkleTree::new(Vec::new());
    assert_eq!(tree.root(), [0u8; 32]);
    assert!(tree.membership_proof(0).is_none());
}

#[test]
fn single_leaf_root_is_the_leaf() {
    let leaf = sha256(b"only");
    let tree = MerkleTree::new(vec![leaf]);
    assert_eq!(tree.root(), leaf);
    let proof = tree.membership_proof(0).unwrap();
    assert!(proof.is_empty());
    assert_eq!(verify_proof(&leaf, 0, 1, &proof), leaf);
}

#[test]
fn proofs_recompute_root_for_every_index() {
    // Odd and even leaf counts, so carried nodes are exercised too.
    for count in 1..=8usize {
        let leaves: Vec<[u8; 32]> = (0..count)
            .map(|i| sha256(format!("leaf{}", i).as_bytes()))
            .collect();
        let tree = MerkleTree::new(leaves.clone());
        let root = tree.root();
        for (index, leaf) in leaves.iter().enumerate() {
            let proof = tree.membership_proof(index).unwrap();
            assert_eq!(
                verify_proof(leaf, index, count, &proof),
                root,
                "index {} of {} leaves",
                index,
                count
            );
        }
    }
}

#[test]
fn proof_out_of_range_is_none() {
    let tree = MerkleTree::new(vec![sha256(b"a"), sha256(b"b")]);
    assert!(tree.membership_proof(2).is_none());
}

#[test]
fn tampered_leaf_fails_verification() {
    let leaves = vec![sha256(b"a"), sha256(b"b"), sha256(b"c")];
    let tree = MerkleTree::new(leaves.clone());
    let root = tree.root();
    let proof = tree.membership_proof(1).unwrap();
    let wrong_leaf = sha256(b"x");
    assert_ne!(verify_proof(&wrong_leaf, 1, 3, &proof), root);
}

#[test]
fn verify_rejects_wrong_message() {
    let (secret_key, public_key) = generate_keypair();
    let signature = sign_data(b"genuine", &secret_key).unwrap();
    assert!(!verify_signature(b"forged", &signature, &public_key).unwrap());
}

#[test]
fn verify_rejects_wrong_key() {
    let (secret_key, _) = generate_keypair();
    let (_, other_public) = generate_keypair();
    let signature = sign_data(b"message", &secret_key).unwrap();
    assert!(!verify_signature(b"message", &signature, &other_public).unwrap());
}
