//! The parts that values are made of are got back from them.

use vstd::prelude::*;
use vstd::utf8::encode_utf8;
use crate::crypto::hash::{
    accumulator_placeholder_hash, sha3_256, sparse_merkle_placeholder_hash, CryptoHash,
    CryptoHasher, HashValue, TransactionAccumulatorHasher, ACCUMULATOR_PLACEHOLDER_BYTES,
    SPARSE_MERKLE_PLACEHOLDER_BYTES,
};
use crate::ledger::{
    LedgerInfo, LedgerInfoWithSignatures, StateValue, TransactionInfo, Version,
};
use crate::proofs::accumulator::{InMemoryAccumulator, LeafCount};
use crate::proofs::accumulator_proof::{
    AccumulatorProof, EventAccumulatorProof, TransactionAccumulatorProof,
};
use crate::proofs::authentication::{
    info_hash_is_digest_of_encoding, info_input, value_hash_is_digest_of_bytes,
};
use crate::proofs::collision::node_hashes_are_digests;
use crate::proofs::error::ProofError;
use crate::proofs::merkle::accumulator_root;
use crate::proofs::node::{
    MerkleTreeInternalNode, SparseMerkleInternalNode, SparseMerkleLeafNode,
};
use crate::proofs::range_proof::{AccumulatorRangeProof, TransactionAccumulatorRangeProof};
use crate::proofs::sparse::{SparseMerkleProof, SparseMerkleRangeProof};
use crate::proofs::sparse_tree::SparseTree;
use crate::proofs::summary::{
    AccumulatorConsistencyProof, AccumulatorExtensionProof, TransactionAccumulatorSummary,
};
use crate::proofs::transaction::{
    EventProof, StateStoreValueProof, TransactionInfoListWithProof, TransactionInfoWithProof,
};

verus! {

/// A hash value has the bytes that it is made of. The placeholders are the root hashes of empty
/// trees.
pub proof fn hash_value_has_its_bytes(
    bytes: [u8; 32],
    r: HashValue,
    accumulator_placeholder: HashValue,
    sparse_placeholder: HashValue,
)
    requires
        call_ensures(HashValue::new, (bytes,), r),
        call_ensures(accumulator_placeholder_hash, (), accumulator_placeholder),
        call_ensures(sparse_merkle_placeholder_hash, (), sparse_placeholder),
    ensures
        r@ == bytes@,
        accumulator_placeholder == accumulator_root::<TransactionAccumulatorHasher>(Seq::empty()),
        accumulator_placeholder.hash == ACCUMULATOR_PLACEHOLDER_BYTES,
        sparse_placeholder == SparseTree::Empty.root_hash(),
        sparse_placeholder.hash == SPARSE_MERKLE_PLACEHOLDER_BYTES,
{
}

/// The hash that is computed of a transaction info is the SHA3-256 digest of all of its encoding,
/// and that of a state value is the digest of all of its bytes, each behind the digest of its
/// domain.
pub proof fn whole_values_are_hashed(
    info: TransactionInfo,
    info_hash: HashValue,
    value: StateValue,
    value_hash: HashValue,
)
    requires
        call_ensures(TransactionInfo::hash, (&info,), info_hash),
        call_ensures(StateValue::hash, (&value,), value_hash),
    ensures
        info_hash.hash == sha3_256(info_input(info)),
        value_hash.hash == sha3_256(
            sha3_256(encode_utf8("APTOS::StateValue"@))@ + value.bytes@,
        ),
{
    info_hash_is_digest_of_encoding(info);
    value_hash_is_digest_of_bytes(value);
}

/// The hash that is computed of a node is the SHA3-256 digest of its two parts, the left one or the
/// key first, behind the digest of its domain.
pub proof fn whole_nodes_are_hashed<H: CryptoHasher>(
    left: HashValue,
    right: HashValue,
    node: MerkleTreeInternalNode<H>,
    node_hash: HashValue,
    internal: SparseMerkleInternalNode,
    internal_hash: HashValue,
    leaf: SparseMerkleLeafNode,
    leaf_hash: HashValue,
    key: HashValue,
    value_hash: HashValue,
)
    requires
        call_ensures(MerkleTreeInternalNode::<H>::new, (left, right), node),
        call_ensures(MerkleTreeInternalNode::<H>::hash, (&node,), node_hash),
        call_ensures(SparseMerkleInternalNode::new, (left, right), internal),
        call_ensures(SparseMerkleInternalNode::hash, (&internal,), internal_hash),
        call_ensures(SparseMerkleLeafNode::new, (left, right), leaf),
        call_ensures(SparseMerkleLeafNode::hash, (&leaf,), leaf_hash),
        call_ensures(SparseMerkleLeafNode::key, (&leaf,), key),
        call_ensures(SparseMerkleLeafNode::value_hash, (&leaf,), value_hash),
    ensures
        node_hash.hash == sha3_256(H::spec_seed() + (left@ + right@)),
        internal_hash.hash == sha3_256(
            sha3_256(encode_utf8("APTOS::SparseMerkleInternal"@))@ + (left@ + right@),
        ),
        leaf_hash.hash == sha3_256(
            sha3_256(encode_utf8("APTOS::SparseMerkleLeafNode"@))@ + (left@ + right@),
        ),
        key == left,
        value_hash == right,
{
    node_hashes_are_digests(node, internal, leaf);
}

/// A ledger info has the version, the root hash and the epoch that it is made of.
pub proof fn ledger_info_has_its_parts(
    version: Version,
    root_hash: HashValue,
    epoch: u64,
    r: LedgerInfo,
    got_version: Version,
    got_root_hash: HashValue,
    got_epoch: u64,
    signatures: Vec<u8>,
    signed: LedgerInfoWithSignatures,
    got_info: &LedgerInfo,
)
    requires
        call_ensures(LedgerInfo::new, (version, root_hash, epoch), r),
        call_ensures(LedgerInfo::version, (&r,), got_version),
        call_ensures(LedgerInfo::transaction_accumulator_hash, (&r,), got_root_hash),
        call_ensures(LedgerInfo::next_block_epoch, (&r,), got_epoch),
        call_ensures(LedgerInfoWithSignatures::new, (r, signatures), signed),
        call_ensures(LedgerInfoWithSignatures::ledger_info, (&signed,), got_info),
    ensures
        got_version == version && r.version == version,
        got_root_hash == root_hash && r.transaction_accumulator_hash == root_hash,
        got_epoch == epoch && r.next_block_epoch == epoch,
        *got_info == r && signed.ledger_info == r,
        signed.signatures@ == signatures@,
{
}

/// A transaction info and a state value have the parts that they are made of.
pub proof fn transaction_info_has_its_parts(
    gas_used: u64,
    status: Vec<u8>,
    event_root_hash: HashValue,
    state_checkpoint_hash: Option<HashValue>,
    other_fields: Vec<u8>,
    r: TransactionInfo,
    got_gas: u64,
    got_status: &Vec<u8>,
    got_event_root: HashValue,
    got_state_root: Result<HashValue, ProofError>,
    bytes: Vec<u8>,
    value: StateValue,
)
    requires
        call_ensures(
            TransactionInfo::new,
            (gas_used, status, event_root_hash, state_checkpoint_hash, other_fields),
            r,
        ),
        call_ensures(TransactionInfo::gas_used, (&r,), got_gas),
        call_ensures(TransactionInfo::status, (&r,), got_status),
        call_ensures(TransactionInfo::event_root_hash, (&r,), got_event_root),
        call_ensures(TransactionInfo::ensure_state_checkpoint_hash, (&r,), got_state_root),
        call_ensures(StateValue::new, (bytes,), value),
    ensures
        got_gas == gas_used && r.gas_used == gas_used,
        got_status@ == status@ && r.status@ == status@,
        got_event_root == event_root_hash && r.event_root_hash == event_root_hash,
        r.state_checkpoint_hash == state_checkpoint_hash,
        state_checkpoint_hash is Some <==> got_state_root is Ok,
        got_state_root is Ok ==> got_state_root.unwrap() == state_checkpoint_hash.unwrap(),
        r.other_fields@ == other_fields@,
        value.bytes@ == bytes@,
{
}

/// A proof of a leaf has the siblings that it is made of, in order.
pub proof fn accumulator_proof_has_its_siblings<H: CryptoHasher>(
    siblings: Vec<HashValue>,
    r: AccumulatorProof<H>,
    got: &[HashValue],
)
    requires
        call_ensures(AccumulatorProof::<H>::new, (siblings,), r),
        call_ensures(AccumulatorProof::<H>::siblings, (&r,), got),
    ensures
        got@ == siblings@,
        r@ == siblings@,
{
}

/// A proof of a range of leaves has the siblings that it is made of, on both sides, and the empty one
/// has none.
pub proof fn range_proof_has_its_siblings<H: CryptoHasher>(
    left: Vec<HashValue>,
    right: Vec<HashValue>,
    r: AccumulatorRangeProof<H>,
    got_left: &Vec<HashValue>,
    got_right: &Vec<HashValue>,
    empty: AccumulatorRangeProof<H>,
    none_left: &Vec<HashValue>,
    none_right: &Vec<HashValue>,
)
    requires
        call_ensures(AccumulatorRangeProof::<H>::new, (left, right), r),
        call_ensures(AccumulatorRangeProof::<H>::left_siblings, (&r,), got_left),
        call_ensures(AccumulatorRangeProof::<H>::right_siblings, (&r,), got_right),
        call_ensures(AccumulatorRangeProof::<H>::new_empty, (), empty),
        call_ensures(AccumulatorRangeProof::<H>::left_siblings, (&empty,), none_left),
        call_ensures(AccumulatorRangeProof::<H>::right_siblings, (&empty,), none_right),
    ensures
        got_left@ == left@ && r.spec_left_siblings() == left@,
        got_right@ == right@ && r.spec_right_siblings() == right@,
        none_left@.len() == 0 && none_right@.len() == 0,
{
}

/// A sparse Merkle proof has the leaf and the siblings that it is made of, and a range proof has its
/// right siblings.
pub proof fn sparse_proof_has_its_parts(
    leaf: Option<SparseMerkleLeafNode>,
    siblings: Vec<HashValue>,
    r: SparseMerkleProof,
    got_leaf: Option<SparseMerkleLeafNode>,
    got_siblings: &[HashValue],
    range: SparseMerkleRangeProof,
    got_right: &[HashValue],
)
    requires
        call_ensures(SparseMerkleProof::new, (leaf, siblings), r),
        call_ensures(SparseMerkleProof::leaf, (&r,), got_leaf),
        call_ensures(SparseMerkleProof::siblings, (&r,), got_siblings),
        call_ensures(SparseMerkleRangeProof::new, (siblings,), range),
        call_ensures(SparseMerkleRangeProof::right_siblings, (&range,), got_right),
    ensures
        got_leaf == leaf && r.spec_leaf() == leaf,
        got_siblings@ == siblings@ && r.spec_siblings() == siblings@,
        got_right@ == siblings@ && range@ == siblings@,
{
}

/// A consistency proof has the subtrees that it is made of, and is empty if and only if there are
/// none.
pub proof fn consistency_proof_has_its_subtrees(
    subtrees: Vec<HashValue>,
    r: AccumulatorConsistencyProof,
    is_empty: bool,
    got: &[HashValue],
    given_up: Vec<HashValue>,
)
    requires
        call_ensures(AccumulatorConsistencyProof::new, (subtrees,), r),
        call_ensures(AccumulatorConsistencyProof::is_empty, (&r,), is_empty),
        call_ensures(AccumulatorConsistencyProof::subtrees, (&r,), got),
        call_ensures(AccumulatorConsistencyProof::into_subtrees, (r,), given_up),
    ensures
        got@ == subtrees@ && given_up@ == subtrees@ && r@ == subtrees@,
        is_empty <==> subtrees@.len() == 0,
{
}

/// An extension proof has the frozen subtrees, the number of leaves and the new leaves that it is
/// made of.
pub proof fn extension_proof_has_its_parts<H: CryptoHasher>(
    roots: Vec<HashValue>,
    num_leaves: LeafCount,
    leaves: Vec<HashValue>,
    r: AccumulatorExtensionProof<H>,
    got_roots: &[HashValue],
    got_num_leaves: LeafCount,
    got_leaves: &[HashValue],
)
    requires
        call_ensures(AccumulatorExtensionProof::<H>::new, (roots, num_leaves, leaves), r),
        call_ensures(AccumulatorExtensionProof::<H>::frozen_subtree_roots, (&r,), got_roots),
        call_ensures(AccumulatorExtensionProof::<H>::num_leaves, (&r,), got_num_leaves),
        call_ensures(AccumulatorExtensionProof::<H>::leaves, (&r,), got_leaves),
    ensures
        got_roots@ == roots@ && r.spec_frozen_subtree_roots() == roots@,
        got_num_leaves == num_leaves && r.spec_num_leaves() == num_leaves,
        got_leaves@ == leaves@ && r.spec_leaves() == leaves@,
{
}

/// An accumulator has the frozen subtrees that it is made of, and a summary has its accumulator.
pub proof fn accumulator_has_its_subtrees(
    roots: Vec<HashValue>,
    num_leaves: LeafCount,
    made: Result<InMemoryAccumulator<TransactionAccumulatorHasher>, ProofError>,
    got_roots: &Vec<HashValue>,
    summary: Result<TransactionAccumulatorSummary, ProofError>,
    got_accumulator: &InMemoryAccumulator<TransactionAccumulatorHasher>,
)
    requires
        call_ensures(
            InMemoryAccumulator::<TransactionAccumulatorHasher>::new,
            (roots, num_leaves),
            made,
        ),
        made is Ok,
        call_ensures(
            InMemoryAccumulator::<TransactionAccumulatorHasher>::frozen_subtree_roots,
            (&made.unwrap(),),
            got_roots,
        ),
        call_ensures(TransactionAccumulatorSummary::new, (made.unwrap(),), summary),
        summary is Ok,
        call_ensures(
            TransactionAccumulatorSummary::as_accumulator,
            (&summary.unwrap(),),
            got_accumulator,
        ),
    ensures
        got_roots@ == roots@,
        *got_accumulator == made.unwrap(),
{
}

/// A transaction info with its proof has the parts that it is made of, and so has a list of them. The
/// empty list has none.
pub proof fn info_with_proof_has_its_parts(
    p: TransactionAccumulatorProof,
    info: TransactionInfo,
    r: TransactionInfoWithProof,
    got_proof: &TransactionAccumulatorProof,
    got_info: &TransactionInfo,
    range: TransactionAccumulatorRangeProof,
    infos: Vec<TransactionInfo>,
    list: TransactionInfoListWithProof,
    empty: TransactionInfoListWithProof,
)
    requires
        call_ensures(TransactionInfoWithProof::new, (p, info), r),
        call_ensures(
            TransactionInfoWithProof::ledger_info_to_transaction_info_proof,
            (&r,),
            got_proof,
        ),
        call_ensures(TransactionInfoWithProof::transaction_info, (&r,), got_info),
        call_ensures(TransactionInfoListWithProof::new, (range, infos), list),
        call_ensures(TransactionInfoListWithProof::new_empty, (), empty),
    ensures
        *got_proof == p && r.ledger_info_to_transaction_info_proof == p,
        *got_info == info && r.transaction_info == info,
        list.ledger_info_to_transaction_infos_proof == range,
        list.transaction_infos@ == infos@,
        empty.transaction_infos@.len() == 0,
        empty.ledger_info_to_transaction_infos_proof.spec_left_siblings().len() == 0,
        empty.ledger_info_to_transaction_infos_proof.spec_right_siblings().len() == 0,
{
}

/// The proofs of a state value and of an event have the two proofs that they are made of.
pub proof fn value_and_event_proofs_have_their_parts(
    info: TransactionInfoWithProof,
    value_proof: SparseMerkleProof,
    of_value: StateStoreValueProof,
    got_value_info: &TransactionInfoWithProof,
    got_value_proof: &SparseMerkleProof,
    event_proof: EventAccumulatorProof,
    of_event: EventProof,
    got_event_info: &TransactionInfoWithProof,
    got_event_proof: &EventAccumulatorProof,
)
    requires
        call_ensures(StateStoreValueProof::new, (info, value_proof), of_value),
        call_ensures(
            StateStoreValueProof::transaction_info_with_proof,
            (&of_value,),
            got_value_info,
        ),
        call_ensures(
            StateStoreValueProof::transaction_info_to_account_proof,
            (&of_value,),
            got_value_proof,
        ),
        call_ensures(EventProof::new, (info, event_proof), of_event),
        call_ensures(EventProof::transaction_info_with_proof, (&of_event,), got_event_info),
        call_ensures(EventProof::transaction_info_to_event_proof, (&of_event,), got_event_proof),
    ensures
        *got_value_info == info && of_value.spec_transaction_info_with_proof() == info,
        *got_value_proof == value_proof && of_value.spec_value_proof() == value_proof,
        *got_event_info == info && of_event.spec_transaction_info_with_proof() == info,
        *got_event_proof == event_proof && of_event.spec_event_proof() == event_proof,
{
}

} // verus!
