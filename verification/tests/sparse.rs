use aptosdb::crypto::hash::{sparse_merkle_placeholder_hash, CryptoHash, HashValue};
use aptosdb::ledger::StateValue;
use aptosdb::proofs::error::ProofError;
use aptosdb::proofs::node::{SparseMerkleInternalNode, SparseMerkleLeafNode};
use aptosdb::proofs::sparse::{SparseMerkleProof, SparseMerkleRangeProof};

fn h(b: u8) -> HashValue {
    HashValue::new([b; 32])
}

/// A key that starts with the given byte.
fn key(first: u8) -> HashValue {
    let mut bytes = [0u8; 32];
    bytes[0] = first;
    HashValue::new(bytes)
}

fn leaf(first: u8, value: u8) -> SparseMerkleLeafNode {
    SparseMerkleLeafNode::new(key(first), h(value))
}

fn node(left: HashValue, right: HashValue) -> HashValue {
    SparseMerkleInternalNode::new(left, right).hash()
}

/// Leaves at 000, 010 and 1, and nothing at 001.., 011...
fn tree() -> (HashValue, [SparseMerkleLeafNode; 3]) {
    let (a, b, c) = (leaf(0b0000_0000, 1), leaf(0b0100_0000, 2), leaf(0b1000_0000, 3));
    (node(node(a.hash(), b.hash()), c.hash()), [a, b, c])
}

#[test]
fn inclusion_proofs() {
    let (root, [a, b, c]) = tree();
    let of_a = SparseMerkleProof::new(Some(a), vec![b.hash(), c.hash()]);
    assert_eq!(of_a.verify_by_hash(root, a.key(), Some(h(1))), Ok(()));
    let value = StateValue::new(vec![1, 2]);
    let of_value = SparseMerkleLeafNode::new(key(1), value.hash());
    let alone = SparseMerkleProof::new(Some(of_value), vec![]);
    assert_eq!(alone.verify(of_value.hash(), key(1), Some(&value)), Ok(()));
    let of_b = SparseMerkleProof::new(Some(b), vec![a.hash(), c.hash()]);
    assert_eq!(of_b.verify_by_hash(root, b.key(), Some(h(2))), Ok(()));
    let of_c = SparseMerkleProof::new(Some(c), vec![node(a.hash(), b.hash())]);
    assert_eq!(of_c.verify_by_hash(root, c.key(), Some(h(3))), Ok(()));
    assert_eq!(of_c.leaf(), Some(c));
    assert_eq!(of_c.siblings(), &[node(a.hash(), b.hash())]);
    assert!(of_a == of_a.clone() && of_a != of_b);
}

#[test]
fn non_inclusion_by_another_leaf() {
    let (root, [a, b, c]) = tree();
    let of_a = SparseMerkleProof::new(Some(a), vec![b.hash(), c.hash()]);
    assert_eq!(of_a.verify_by_hash(root, key(0b0010_0000), None), Ok(()));
    assert_eq!(of_a.verify::<StateValue>(root, key(0b0010_0000), None), Ok(()));
    assert_eq!(
        of_a.verify_by_hash(root, key(0b0110_0000), None),
        Err(ProofError::KeyNotInSubtree)
    );
    assert_eq!(of_a.verify_by_hash(root, a.key(), None), Err(ProofError::KeyExistsInProof));
}

#[test]
fn non_inclusion_by_an_empty_place() {
    let a = leaf(0b1100_0000, 1);
    let b = leaf(0b1000_0000, 2);
    let empty = sparse_merkle_placeholder_hash();
    let inner = node(b.hash(), a.hash());
    let root = node(empty, inner);
    let proof = SparseMerkleProof::new(None, vec![inner]);
    assert_eq!(proof.verify_by_hash(root, key(0), None), Ok(()));
    assert_eq!(
        proof.verify_by_hash(root, key(0b1000_0000), None),
        Err(ProofError::RootHashMismatch { actual: node(inner, empty), expected: root })
    );
    assert_eq!(
        proof.verify_by_hash(root, key(0), Some(h(1))),
        Err(ProofError::ExpectedInclusionProof)
    );
    assert_eq!(SparseMerkleProof::new(None, vec![]).verify_by_hash(empty, key(1), None), Ok(()));
}

#[test]
fn sparse_proof_errors() {
    let (root, [a, b, c]) = tree();
    let proof = SparseMerkleProof::new(Some(a), vec![b.hash(), c.hash()]);
    assert_eq!(
        proof.verify_by_hash(root, b.key(), Some(h(1))),
        Err(ProofError::KeyMismatch { in_proof: a.key(), expected: b.key() })
    );
    assert_eq!(
        proof.verify_by_hash(root, a.key(), Some(h(7))),
        Err(ProofError::ValueHashMismatch { in_proof: h(1), expected: h(7) })
    );
    assert_eq!(
        proof.verify_by_hash(h(9), a.key(), Some(h(1))),
        Err(ProofError::RootHashMismatch { actual: root, expected: h(9) })
    );
    let long = SparseMerkleProof::new(Some(a), vec![h(1); 257]);
    assert_eq!(
        long.verify_by_hash(root, a.key(), Some(h(1))),
        Err(ProofError::TooManySiblings { max: 256, found: 257 })
    );
    let deepest = SparseMerkleProof::new(Some(a), vec![h(1); 256]);
    assert!(matches!(
        deepest.verify_by_hash(root, a.key(), Some(h(1))),
        Err(ProofError::RootHashMismatch { .. })
    ));
}

#[test]
fn left_part_up_to_a_leaf() {
    // The leaves a to e on the left, f, g and h on the right: X is above f and g.
    let a = leaf(0b0000_0000, 1);
    let b = leaf(0b0100_0000, 2);
    let c = leaf(0b0101_0000, 3);
    let d = leaf(0b0110_0000, 4);
    let e = leaf(0b1000_0000, 5);
    let f = leaf(0b1010_0000, 6);
    let g = leaf(0b1011_0000, 7);
    let last = leaf(0b1100_0000, 8);
    let bcd = node(node(b.hash(), c.hash()), d.hash());
    let left = node(a.hash(), bcd);
    let x = node(f.hash(), g.hash());
    let root = node(left, node(node(e.hash(), x), last.hash()));
    let proof = SparseMerkleRangeProof::new(vec![x, last.hash()]);
    assert_eq!(proof.verify(root, e, vec![left]), Ok(()));
    assert_eq!(proof.right_siblings(), &[x, last.hash()]);
    assert!(matches!(
        proof.verify(root, e, vec![h(1)]),
        Err(ProofError::RootHashMismatch { .. })
    ));
    let of_c = SparseMerkleRangeProof::new(vec![d.hash(), node(node(e.hash(), x), last.hash())]);
    assert_eq!(of_c.verify(root, c, vec![b.hash(), a.hash()]), Ok(()));
    assert!(proof == proof.clone() && proof != of_c);
}

#[test]
fn left_part_proof_errors() {
    let (root, [a, b, c]) = tree();
    assert_eq!(
        SparseMerkleRangeProof::new(vec![h(1)]).verify(root, c, vec![]),
        Err(ProofError::MissingSparseLeftSibling)
    );
    assert_eq!(
        SparseMerkleRangeProof::new(vec![]).verify(root, a, vec![h(1)]),
        Err(ProofError::MissingSparseRightSibling)
    );
    assert_eq!(
        SparseMerkleRangeProof::new(vec![b.hash(), c.hash()]).verify(h(9), a, vec![]),
        Err(ProofError::RootHashMismatch { actual: root, expected: h(9) })
    );
    assert_eq!(
        SparseMerkleRangeProof::new(vec![b.hash(), c.hash()]).verify(root, a, vec![]),
        Ok(())
    );
}
