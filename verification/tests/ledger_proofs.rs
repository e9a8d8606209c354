use aptosdb::crypto::hash::{
    accumulator_placeholder_hash, CryptoHash, EventAccumulatorHasher, HashValue, TransactionAccumulatorHasher,
};
use aptosdb::ledger::{LedgerInfo, LedgerInfoWithSignatures, StateValue, TransactionInfo};
use aptosdb::proofs::accumulator::{InMemoryAccumulator, MAX_ACCUMULATOR_LEAVES};
use aptosdb::proofs::accumulator_proof::{EventAccumulatorProof, TransactionAccumulatorProof};
use aptosdb::proofs::error::ProofError;
use aptosdb::proofs::node::{MerkleTreeInternalNode, SparseMerkleLeafNode};
use aptosdb::proofs::range_proof::TransactionAccumulatorRangeProof;
use aptosdb::proofs::sparse::SparseMerkleProof;
use aptosdb::proofs::summary::{AccumulatorConsistencyProof, TransactionAccumulatorSummary};
use aptosdb::proofs::transaction::{
    EventProof, StateStoreValueProof, TransactionInfoListWithProof, TransactionInfoWithProof,
};

type Accumulator = InMemoryAccumulator<TransactionAccumulatorHasher>;

fn h(b: u8) -> HashValue {
    HashValue::new([b; 32])
}

fn hex(hash: HashValue) -> String {
    hash.hash.iter().map(|b| format!("{:02x}", b)).collect()
}

fn node(left: HashValue, right: HashValue) -> HashValue {
    MerkleTreeInternalNode::<TransactionAccumulatorHasher>::new(left, right).hash()
}

fn ledger(n: u8) -> Accumulator {
    let leaves: Vec<HashValue> = (1..=n).map(h).collect();
    InMemoryAccumulator::new(vec![], 0).unwrap().append(&leaves)
}

fn ledger_info(n: u8) -> LedgerInfo {
    LedgerInfo::new(n as u64 - 1, ledger(n).root_hash(), 1)
}

fn info(b: u8) -> TransactionInfo {
    TransactionInfo::new(b as u64, vec![0], h(b + 100), None, vec![b])
}

/// The ledger of the transaction infos from one on.
fn info_ledger(n: u8) -> Accumulator {
    let leaves: Vec<HashValue> = (1..=n).map(|b| info(b).hash()).collect();
    InMemoryAccumulator::new(vec![], 0).unwrap().append(&leaves)
}

fn info_ledger_info(n: u8) -> LedgerInfo {
    LedgerInfo::new(n as u64 - 1, info_ledger(n).root_hash(), 1)
}

fn with_roots(event_root: HashValue, checkpoint: Option<HashValue>) -> TransactionInfo {
    TransactionInfo::new(7, vec![1, 2], event_root, checkpoint, vec![3])
}

#[test]
fn transaction_accumulator_root_hashes() {
    assert_eq!(
        hex(ledger(3).root_hash()),
        "8f78b4226bf1f951b8f3aaf656886656cc7f0980cc7a4893cbc3e4cd0771f6ec"
    );
    assert_eq!(
        hex(ledger(5).root_hash()),
        "5e42b41e3a3efff950644c38bb0cc733eea15c93cf8e3ffcc4bf5a87407a40b3"
    );
}

#[test]
fn summary_of_an_empty_accumulator_is_refused() {
    assert_eq!(
        TransactionAccumulatorSummary::new(InMemoryAccumulator::new(vec![], 0).unwrap()).err(),
        Some(ProofError::EmptyAccumulator)
    );
    let summary = TransactionAccumulatorSummary::new(ledger(3)).unwrap();
    assert_eq!(summary.version(), 2);
    assert_eq!(summary.root_hash(), ledger(3).root_hash());
    assert!(summary == summary.clone());
}

#[test]
fn summary_is_compared_with_a_ledger_info() {
    let summary = TransactionAccumulatorSummary::new(ledger(3)).unwrap();
    assert_eq!(summary.verify_consistency(&ledger_info(3)), Ok(()));
    assert_eq!(
        summary.verify_consistency(&ledger_info(4)),
        Err(ProofError::LedgerVersionMismatch { ledger_info_version: 3, accumulator_version: 2 })
    );
    assert_eq!(
        summary.verify_consistency(&LedgerInfo::new(2, h(9), 1)),
        Err(ProofError::LedgerRootHashMismatch {
            ledger_info_root: h(9),
            accumulator_root: ledger(3).root_hash()
        })
    );
}

#[test]
fn summary_from_genesis_proof() {
    let subtrees = ledger(5).frozen_subtree_roots().clone();
    let proof = AccumulatorConsistencyProof::new(subtrees.clone());
    let summary = TransactionAccumulatorSummary::try_from_genesis_proof(proof.clone(), 4).unwrap();
    assert!(summary == TransactionAccumulatorSummary::new(ledger(5)).unwrap());
    assert_eq!(
        TransactionAccumulatorSummary::try_from_genesis_proof(proof.clone(), 6).err(),
        Some(ProofError::FrozenSubtreeCountMismatch { found: 2, num_leaves: 7 })
    );
    assert_eq!(
        TransactionAccumulatorSummary::try_from_genesis_proof(proof.clone(), u64::MAX).err(),
        Some(ProofError::FrozenSubtreeCountMismatch { found: 2, num_leaves: u64::MAX })
    );
    assert_eq!(proof.subtrees(), &subtrees[..]);
    assert!(!proof.is_empty() && AccumulatorConsistencyProof::new(vec![]).is_empty());
    assert_eq!(proof.into_subtrees(), subtrees);
}

#[test]
fn summary_is_extended_by_a_consistency_proof() {
    let summary = TransactionAccumulatorSummary::new(ledger(3)).unwrap();
    // From three to eight leaves: the fourth, and then four in one subtree.
    let proof = AccumulatorConsistencyProof::new(vec![
        h(4),
        node(node(h(5), h(6)), node(h(7), h(8))),
    ]);
    let extended = summary.try_extend_with_proof(&proof, &ledger_info(8)).unwrap();
    assert!(extended == TransactionAccumulatorSummary::new(ledger(8)).unwrap());
    let none = AccumulatorConsistencyProof::new(vec![]);
    assert!(summary.try_extend_with_proof(&none, &ledger_info(3)).unwrap() == summary);
}

#[test]
fn summary_is_not_extended_to_another_ledger() {
    let summary = TransactionAccumulatorSummary::new(ledger(3)).unwrap();
    let proof = AccumulatorConsistencyProof::new(vec![h(9)]);
    assert_eq!(
        summary.try_extend_with_proof(&proof, &ledger_info(2)).err(),
        Some(ProofError::TargetTooOld { target_version: 1, current_version: 2 })
    );
    assert!(matches!(
        summary.try_extend_with_proof(&proof, &ledger_info(4)).err(),
        Some(ProofError::LedgerRootHashMismatch { .. })
    ));
    let far = LedgerInfo::new(MAX_ACCUMULATOR_LEAVES, h(1), 1);
    assert_eq!(
        summary.try_extend_with_proof(&proof, &far).err(),
        Some(ProofError::TooManyNewLeaves {
            num_leaves: 3,
            num_new_leaves: MAX_ACCUMULATOR_LEAVES - 2
        })
    );
    let none = AccumulatorConsistencyProof::new(vec![]);
    assert_eq!(
        summary.try_extend_with_proof(&none, &ledger_info(4)).err(),
        Some(ProofError::TooFewSubtrees)
    );
}

fn info_with_proof(transaction_info: TransactionInfo) -> (LedgerInfo, TransactionInfoWithProof) {
    let root = node(h(1), transaction_info.hash());
    (
        LedgerInfo::new(1, root, 1),
        TransactionInfoWithProof::new(
            TransactionAccumulatorProof::new(vec![h(1)]),
            transaction_info,
        ),
    )
}

#[test]
fn transaction_info_is_in_the_ledger() {
    let (ledger_info, proof) = info_with_proof(info(2));
    assert_eq!(proof.verify(&ledger_info, 1), Ok(()));
    assert_eq!(
        proof.verify(&ledger_info, 2),
        Err(ProofError::TransactionTooNew { transaction_version: 2, ledger_version: 1 })
    );
    assert!(matches!(
        proof.verify(&ledger_info, 0),
        Err(ProofError::RootHashMismatch { .. })
    ));
    assert_eq!(*proof.transaction_info(), info(2));
    assert_eq!(proof.ledger_info_to_transaction_info_proof().siblings(), &[h(1)]);
    assert!(proof == proof.clone());
}

#[test]
fn state_value_is_in_the_ledger() {
    let value = StateValue::new(vec![1, 2, 3]);
    let leaf = SparseMerkleLeafNode::new(h(7), value.hash());
    let checkpoint = with_roots(h(3), Some(leaf.hash()));
    let (ledger_info, of_info) = info_with_proof(checkpoint);
    let proof =
        StateStoreValueProof::new(of_info.clone(), SparseMerkleProof::new(Some(leaf), vec![]));
    assert_eq!(proof.verify(&ledger_info, 1, h(7), Some(&value)), Ok(()));
    let other = StateValue::new(vec![1, 2, 4]);
    assert_eq!(
        proof.verify(&ledger_info, 1, h(7), Some(&other)),
        Err(ProofError::ValueHashMismatch { in_proof: value.hash(), expected: other.hash() })
    );
    assert_eq!(proof.verify(&ledger_info, 1, h(6), None), Ok(()));
    assert_eq!(
        proof.verify(&ledger_info, 1, h(7), None),
        Err(ProofError::KeyExistsInProof)
    );
    assert_eq!(
        proof.verify(&ledger_info, 2, h(7), Some(&value)),
        Err(ProofError::TransactionTooNew { transaction_version: 2, ledger_version: 1 })
    );
    assert!(*proof.transaction_info_with_proof() == of_info);
    assert_eq!(proof.transaction_info_to_account_proof().leaf(), Some(leaf));
    assert!(proof == proof.clone());
}

#[test]
fn state_value_needs_a_checkpoint() {
    let (ledger_info, of_info) = info_with_proof(info(2));
    let proof = StateStoreValueProof::new(of_info, SparseMerkleProof::new(None, vec![]));
    assert_eq!(
        proof.verify(&ledger_info, 1, h(7), None),
        Err(ProofError::MissingStateCheckpointHash)
    );
}

#[test]
fn event_is_in_the_ledger() {
    let events_root = MerkleTreeInternalNode::<EventAccumulatorHasher>::new(h(5), h(6)).hash();
    let (ledger_info, of_info) = info_with_proof(with_roots(events_root, None));
    let proof = EventProof::new(of_info.clone(), EventAccumulatorProof::new(vec![h(5)]));
    assert_eq!(proof.verify(&ledger_info, h(6), 1, 1), Ok(()));
    assert!(matches!(
        proof.verify(&ledger_info, h(5), 1, 1),
        Err(ProofError::RootHashMismatch { .. })
    ));
    assert_eq!(
        proof.verify(&ledger_info, h(6), 2, 1),
        Err(ProofError::TransactionTooNew { transaction_version: 2, ledger_version: 1 })
    );
    assert!(*proof.transaction_info_with_proof() == of_info);
    assert!(proof == proof.clone());
}

/// The infos of the transactions at versions 3 and 4 of a ledger of six.
fn list() -> TransactionInfoListWithProof {
    TransactionInfoListWithProof::new(
        TransactionAccumulatorRangeProof::new(
            vec![node(info(1).hash(), info(2).hash()), info(3).hash()],
            vec![accumulator_placeholder_hash(), info(6).hash()],
        ),
        vec![info(4), info(5)],
    )
}

#[test]
fn transaction_list_is_in_the_ledger() {
    assert_eq!(list().verify(&info_ledger_info(6), Some(3)), Ok(()));
    assert!(list().verify(&info_ledger_info(6), Some(2)).is_err());
    assert!(list().verify(&info_ledger_info(7), Some(3)).is_err());
    let none = TransactionInfoListWithProof::new_empty();
    assert_eq!(none.verify(&info_ledger_info(6), None), Ok(()));
    assert_eq!(none.verify(&info_ledger_info(6), Some(0)), Err(ProofError::NoLeaves));
    assert!(list() == list().clone() && list() != none);
}

#[test]
fn transaction_list_extends_the_ledger() {
    let list = list();
    for (num_txns, overlap) in [(3u8, 0), (4, 1), (5, 2)] {
        let root = info_ledger(num_txns).root_hash();
        assert_eq!(list.verify_extends_ledger(num_txns as u64, root, Some(3)), Ok(overlap));
        assert_eq!(
            list.verify_extends_ledger(num_txns as u64, h(9), Some(3)),
            Err(ProofError::Fork)
        );
    }
    // Entirely in the past.
    assert_eq!(list.verify_extends_ledger(6, h(9), Some(3)), Ok(2));
    assert_eq!(
        list.verify_extends_ledger(2, h(9), Some(3)),
        Err(ProofError::TransactionListTooNew { expected_version: 2, first_version: 3 })
    );
    assert_eq!(
        list.verify_extends_ledger(4, h(9), Some(4)),
        Err(ProofError::FrozenSubtreeCountMismatch { found: 2, num_leaves: 4 })
    );
    assert_eq!(
        list.verify_extends_ledger(3, h(9), None),
        Err(ProofError::TransactionsWithoutFirstVersion)
    );
    let none = TransactionInfoListWithProof::new_empty();
    assert_eq!(none.verify_extends_ledger(3, h(9), None), Ok(0));
}

#[test]
fn ledger_values_are_compared() {
    assert!(ledger_info(3) == ledger_info(3) && ledger_info(3) != ledger_info(4));
    assert!(LedgerInfo::new(1, h(1), 1) != LedgerInfo::new(1, h(1), 2));
    assert_eq!(LedgerInfo::new(1, h(1), 2).next_block_epoch(), 2);
    assert!(info(1) == info(1).clone() && info(1) != info(2));
    assert_eq!(info(1).event_root_hash(), h(101));
    assert_eq!((info(9).gas_used(), info(9).status()), (9, &vec![0]));
    let value = StateValue::new(vec![1]);
    assert!(value == value.clone() && value != StateValue::new(vec![2]));
    let signed = LedgerInfoWithSignatures::new(ledger_info(3), vec![1]);
    assert_eq!(*signed.ledger_info(), ledger_info(3));
}

#[test]
fn hashes_of_infos_and_values() {
    assert_eq!(hex(with_roots(h(3), None).hash()), "73c341da70b23c0d9705cdef2704f334c55601801d4ed23857bbc20ef2968cb0");
    assert_eq!(hex(with_roots(h(3), Some(h(4))).hash()), "0ff4b1dcca12e070ab20b04c451d04776a4b3465ea1029745f53173bfd7c7d7e");
    assert_eq!(hex(StateValue::new(vec![1, 2, 3]).hash()), "3bb35a97482c1f9c02579e810caaaffe2dbc3d0099e5b5f67f8ca3b387d00d5e");
}

#[test]
fn hash_covers_every_field() {
    let infos = vec![
        TransactionInfo::new(7, vec![1, 2], h(3), None, vec![3]),
        TransactionInfo::new(8, vec![1, 2], h(3), None, vec![3]),
        TransactionInfo::new(7, vec![1], h(3), None, vec![2, 3]),
        TransactionInfo::new(7, vec![1, 2, 3], h(3), None, vec![]),
        TransactionInfo::new(7, vec![1, 2], h(4), None, vec![3]),
        TransactionInfo::new(7, vec![1, 2], h(3), Some(h(0)), vec![3]),
        TransactionInfo::new(7, vec![1, 2], h(3), Some(h(1)), vec![3]),
        TransactionInfo::new(7, vec![1, 2], h(3), None, vec![4]),
    ];
    for (i, a) in infos.iter().enumerate() {
        for (j, b) in infos.iter().enumerate() {
            assert_eq!(a.hash() == b.hash(), i == j);
            assert_eq!(a == b, i == j);
        }
    }
}

#[test]
fn changed_info_is_not_in_the_ledger() {
    let (ledger_info, proof) = info_with_proof(with_roots(h(3), Some(h(4))));
    assert_eq!(proof.verify(&ledger_info, 1), Ok(()));
    // The same proof with another event root does not make another event part of the ledger.
    let forged = TransactionInfoWithProof::new(
        proof.ledger_info_to_transaction_info_proof.clone(),
        with_roots(h(9), Some(h(4))),
    );
    let event = EventProof::new(forged, EventAccumulatorProof::new(vec![]));
    assert!(matches!(
        event.verify(&ledger_info, h(9), 1, 0),
        Err(ProofError::RootHashMismatch { .. })
    ));
    // Nor does another state checkpoint make another value part of the state.
    let value = StateValue::new(vec![5]);
    let leaf = SparseMerkleLeafNode::new(h(7), value.hash());
    let forged = TransactionInfoWithProof::new(
        proof.ledger_info_to_transaction_info_proof.clone(),
        with_roots(h(3), Some(leaf.hash())),
    );
    let of_value = StateStoreValueProof::new(forged, SparseMerkleProof::new(Some(leaf), vec![]));
    assert!(matches!(
        of_value.verify(&ledger_info, 1, h(7), Some(&value)),
        Err(ProofError::RootHashMismatch { .. })
    ));
}
