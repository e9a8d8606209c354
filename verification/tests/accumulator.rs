use aptosdb::crypto::hash::{
    accumulator_placeholder_hash, CryptoHash, HashValue, TestOnlyHasher,
};
use aptosdb::proofs::accumulator::{
    InMemoryAccumulator, MAX_ACCUMULATOR_LEAVES, MAX_ACCUMULATOR_PROOF_DEPTH,
};
use aptosdb::proofs::accumulator_proof::TestAccumulatorProof;
use aptosdb::proofs::error::ProofError;
use aptosdb::proofs::node::MerkleTreeInternalNode;
use aptosdb::proofs::range_proof::TestAccumulatorRangeProof;
use aptosdb::proofs::summary::AccumulatorExtensionProof;

type Accumulator = InMemoryAccumulator<TestOnlyHasher>;

fn h(b: u8) -> HashValue {
    HashValue::new([b; 32])
}

fn hex(hash: HashValue) -> String {
    hash.hash.iter().map(|b| format!("{:02x}", b)).collect()
}

fn node(left: HashValue, right: HashValue) -> HashValue {
    MerkleTreeInternalNode::<TestOnlyHasher>::new(left, right).hash()
}

fn leaves(n: u8) -> Vec<HashValue> {
    (1..=n).map(h).collect()
}

fn levels(leaves: &[HashValue]) -> Vec<Vec<HashValue>> {
    let mut all = vec![leaves.to_vec()];
    while all.last().unwrap().len() > 1 {
        let next = all
            .last()
            .unwrap()
            .chunks(2)
            .map(|c| node(c[0], *c.get(1).unwrap_or(&accumulator_placeholder_hash())))
            .collect();
        all.push(next);
    }
    all
}

fn at(level: &[HashValue], i: usize) -> HashValue {
    *level.get(i).unwrap_or(&accumulator_placeholder_hash())
}

fn empty() -> Accumulator {
    InMemoryAccumulator::new(vec![], 0).unwrap()
}

fn siblings_of(leaves: &[HashValue], index: usize) -> Vec<HashValue> {
    let all = levels(leaves);
    (0..all.len() - 1).map(|l| at(&all[l], (index >> l) ^ 1)).collect()
}

fn range_proof(leaves: &[HashValue], first: usize, end: usize) -> TestAccumulatorRangeProof {
    let all = levels(leaves);
    let (mut left, mut right) = (vec![], vec![]);
    let (mut a, mut b) = (first, end - 1);
    for level in &all[..all.len() - 1] {
        if a % 2 == 1 {
            left.insert(0, level[a - 1]);
        }
        if b % 2 == 0 {
            right.insert(0, at(level, b + 1));
        }
        a /= 2;
        b /= 2;
    }
    TestAccumulatorRangeProof::new(left, right)
}

#[test]
fn root_hashes_of_small_accumulators() {
    let expected = [
        (0, "414343554d554c41544f525f504c414345484f4c4445525f4841534800000000"),
        (1, "0101010101010101010101010101010101010101010101010101010101010101"),
        (2, "adcb9583b7caa53aff2b8f4ed8aaf407399051b1b4f5a39aa2c97d5069b50657"),
        (3, "1848846d7fb47db1bbea66498d4b7c0017db0452f5ce1a9de0de27151e9e90a8"),
        (4, "2bbf977bdde9322d789dad44b4920f1de45f128dacebefdd1a31264253bdeae6"),
        (5, "9d2685cac5743bde355bf1bfb0383bd164c2bdf32e2cfc22c4043fb0be038007"),
        (7, "41d64ab6bc74f8b8e45f4c9e739ae70874eed5c71e106d0627188a4cf87dd860"),
        (8, "5473aa6343c21f57de040ea1201dae4ac5707d8073c5297236ee06395825a00f"),
        (10, "1b5258cdf3700552dc601d8c670c817e58d522b962e0ac9228bf2d316242cb22"),
    ];
    for (n, root) in expected {
        assert_eq!(hex(empty().append(&leaves(n)).root_hash()), root);
    }
}

#[test]
fn appending_in_parts_gives_the_same_accumulator() {
    let all = leaves(13);
    for split in 0..=13 {
        let in_parts = empty().append(&all[..split]).append(&all[split..]);
        assert!(in_parts == empty().append(&all));
        assert_eq!(in_parts.num_leaves(), 13);
        assert_eq!(in_parts.version(), 12);
        assert_eq!(in_parts.root_hash(), levels(&all).last().unwrap()[0]);
    }
}

#[test]
fn frozen_subtrees_of_an_accumulator() {
    let all = leaves(7);
    let accumulator = empty().append(&all);
    let four = node(node(h(1), h(2)), node(h(3), h(4)));
    assert_eq!(accumulator.frozen_subtree_roots(), &vec![four, node(h(5), h(6)), h(7)]);
    let again = Accumulator::new(accumulator.frozen_subtree_roots().clone(), 7).unwrap();
    assert!(again == accumulator && again == accumulator.clone());
    assert!(again != empty());
    assert!(empty().is_empty() && !again.is_empty());
    assert_eq!(empty().version(), 0);
}

#[test]
fn number_of_frozen_subtrees_must_match() {
    assert_eq!(
        Accumulator::new(vec![h(1)], 3).err(),
        Some(ProofError::FrozenSubtreeCountMismatch { found: 1, num_leaves: 3 })
    );
    assert!(Accumulator::new(vec![h(1), h(2)], 3).is_ok());
    assert!(Accumulator::new(vec![h(1); 64], u64::MAX).is_ok());
}

#[test]
fn subtrees_stand_for_new_leaves() {
    // Ten leaves, then seven more: two, four and one of them are in a subtree each.
    let ten = empty().append(&leaves(10));
    let n: Vec<HashValue> = (11..=17).map(h).collect();
    let subtrees = vec![node(n[0], n[1]), node(node(n[2], n[3]), node(n[4], n[5])), n[6]];
    let extended = ten.append_subtrees(&subtrees, 7).unwrap();
    assert!(extended == ten.append(&n));
    assert!(ten.append_subtrees(&[], 0).unwrap() == ten);
}

#[test]
fn wrong_subtrees_are_rejected() {
    let ten = empty().append(&leaves(10));
    assert_eq!(ten.append_subtrees(&[h(1)], 7).err(), Some(ProofError::TooFewSubtrees));
    assert_eq!(
        ten.append_subtrees(&[h(1), h(2), h(3), h(4)], 7).err(),
        Some(ProofError::FrozenSubtreeCountMismatch { found: 3, num_leaves: 17 })
    );
    assert_eq!(
        ten.append_subtrees(&[], MAX_ACCUMULATOR_LEAVES).err(),
        Some(ProofError::TooManyNewLeaves {
            num_leaves: 10,
            num_new_leaves: MAX_ACCUMULATOR_LEAVES
        })
    );
}

#[test]
fn every_leaf_can_be_proved() {
    for n in 1..=9u8 {
        let all = leaves(n);
        let root = empty().append(&all).root_hash();
        for i in 0..n as usize {
            let proof = TestAccumulatorProof::new(siblings_of(&all, i));
            assert_eq!(proof.verify(root, all[i], i as u64), Ok(()));
            assert!(proof.verify(root, h(99), i as u64).is_err());
            assert!(proof.verify(h(98), all[i], i as u64).is_err());
        }
    }
}

#[test]
fn accumulator_proof_errors() {
    let proof = TestAccumulatorProof::new(vec![h(2)]);
    assert_eq!(proof.siblings(), &[h(2)]);
    assert_eq!(
        proof.verify(h(9), h(1), 0),
        Err(ProofError::RootHashMismatch { actual: node(h(1), h(2)), expected: h(9) })
    );
    assert_eq!(
        proof.verify(h(9), h(1), 1),
        Err(ProofError::RootHashMismatch { actual: node(h(2), h(1)), expected: h(9) })
    );
    let long = TestAccumulatorProof::new(vec![h(2); 64]);
    assert_eq!(
        long.verify(h(9), h(1), 0),
        Err(ProofError::TooManySiblings { max: MAX_ACCUMULATOR_PROOF_DEPTH, found: 64 })
    );
    assert!(TestAccumulatorProof::new(vec![]).verify(h(1), h(1), 0).is_ok());
    assert!(proof == proof.clone() && proof != long);
}

#[test]
fn short_proof_shows_an_inner_node() {
    // A proof that is shorter than the accumulator is deep takes an inner node for the element.
    let root = empty().append(&leaves(4)).root_hash();
    let inner = node(h(1), h(2));
    let proof = TestAccumulatorProof::new(vec![node(h(3), h(4))]);
    assert_eq!(proof.verify(root, inner, 0), Ok(()));
    let range = TestAccumulatorRangeProof::new(vec![], vec![node(h(3), h(4))]);
    assert_eq!(range.verify(root, Some(0), &[inner]), Ok(()));
}

#[test]
fn every_range_can_be_proved() {
    for n in 1..=9u8 {
        let all = leaves(n);
        let root = empty().append(&all).root_hash();
        for first in 0..n as usize {
            for end in first + 1..=n as usize {
                let proof = range_proof(&all, first, end);
                assert_eq!(proof.verify(root, Some(first as u64), &all[first..end]), Ok(()));
                let before = empty().append(&all[..first]);
                assert_eq!(proof.left_siblings(), before.frozen_subtree_roots());
                let mut other = all[first..end].to_vec();
                other[0] = h(99);
                assert!(proof.verify(root, Some(first as u64), &other).is_err());
            }
        }
    }
}

#[test]
fn range_of_three_in_the_middle() {
    // The siblings near the root come first: on the right, `Y` is above `Z`.
    let all = leaves(8);
    let root = empty().append(&all).root_hash();
    let (x, y, z) = (node(h(1), h(2)), node(h(7), h(8)), h(6));
    let abc = [h(3), h(4), h(5)];
    let proof = TestAccumulatorRangeProof::new(vec![x], vec![y, z]);
    assert_eq!(proof.verify(root, Some(2), &abc), Ok(()));
    assert_eq!(proof.right_siblings(), &vec![y, z]);
    let turned = TestAccumulatorRangeProof::new(vec![x], vec![z, y]);
    assert!(matches!(
        turned.verify(root, Some(2), &abc),
        Err(ProofError::RootHashMismatch { .. })
    ));
    assert!(proof == proof.clone() && proof != turned);
}

#[test]
fn range_proof_errors() {
    let empty_proof = TestAccumulatorRangeProof::new_empty();
    assert_eq!(empty_proof.verify(h(9), None, &[]), Ok(()));
    assert_eq!(
        empty_proof.verify(h(9), None, &[h(1)]),
        Err(ProofError::LeavesWithoutFirstIndex)
    );
    let one_left = TestAccumulatorRangeProof::new(vec![h(1)], vec![]);
    assert_eq!(one_left.verify(h(9), None, &[]), Err(ProofError::SiblingsWithoutLeaves));
    assert_eq!(one_left.verify(h(9), Some(1), &[]), Err(ProofError::NoLeaves));
    assert_eq!(
        one_left.verify(h(9), Some(0), &[h(2)]),
        Err(ProofError::MissingRightSibling)
    );
    let one_right = TestAccumulatorRangeProof::new(vec![], vec![h(1)]);
    assert_eq!(
        one_right.verify(h(9), Some(1), &[h(2)]),
        Err(ProofError::MissingLeftSibling)
    );
    assert_eq!(
        TestAccumulatorRangeProof::new(vec![h(1); 64], vec![]).verify(h(9), Some(0), &[h(2)]),
        Err(ProofError::TooManyLeftSiblings { max: 63, found: 64 })
    );
    assert_eq!(
        TestAccumulatorRangeProof::new(vec![], vec![h(1); 65]).verify(h(9), Some(0), &[h(2)]),
        Err(ProofError::TooManyRightSiblings { max: 63, found: 65 })
    );
    assert_eq!(
        one_right.verify(h(9), Some(0), &[h(2)]),
        Err(ProofError::RootHashMismatch { actual: node(h(2), h(1)), expected: h(9) })
    );
}

#[test]
fn extension_proof_extends_the_accumulator() {
    let five = empty().append(&leaves(5));
    let new_leaves = vec![h(6), h(7), h(8)];
    let roots = five.frozen_subtree_roots().clone();
    let proof =
        AccumulatorExtensionProof::<TestOnlyHasher>::new(roots.clone(), 5, new_leaves.clone());
    assert!(proof.verify(five.root_hash()).unwrap() == empty().append(&leaves(8)));
    assert_eq!(
        proof.verify(h(9)).err(),
        Some(ProofError::RootHashMismatch { actual: five.root_hash(), expected: h(9) })
    );
    assert_eq!(
        AccumulatorExtensionProof::<TestOnlyHasher>::new(roots, 7, new_leaves)
            .verify(five.root_hash())
            .err(),
        Some(ProofError::FrozenSubtreeCountMismatch { found: 2, num_leaves: 7 })
    );
    assert!(proof == proof.clone());
}
