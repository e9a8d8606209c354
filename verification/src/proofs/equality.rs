//! What it means that two values are equal, and what a copy of a value has, field by field.

use vstd::prelude::*;
use crate::crypto::hash::{CryptoHasher, HashValue};
use crate::ledger::{LedgerInfo, StateValue, TransactionInfo};
use crate::proofs::accumulator::InMemoryAccumulator;
use crate::proofs::accumulator_proof::AccumulatorProof;
use crate::proofs::node::{SparseMerkleInternalNode, SparseMerkleLeafNode};
use crate::proofs::range_proof::AccumulatorRangeProof;
use crate::proofs::sparse::{SparseMerkleProof, SparseMerkleRangeProof};
use crate::proofs::summary::{
    AccumulatorConsistencyProof, AccumulatorExtensionProof, TransactionAccumulatorSummary,
};
use crate::proofs::transaction::{
    EventProof, StateStoreValueProof, TransactionInfoListWithProof, TransactionInfoWithProof,
};

verus! {

/// Hash values are equal if and only if all their bytes are.
pub proof fn equal_hash_values(a: HashValue, b: HashValue, r: bool)
    requires
        call_ensures(HashValue::eq, (&a, &b), r),
    ensures
        r <==> forall|i: int| 0 <= i < 32 ==> #[trigger] a.hash[i] == b.hash[i],
{
    if forall|i: int| 0 <= i < 32 ==> #[trigger] a.hash[i] == b.hash[i] {
        assert(a.hash =~= b.hash);
    }
}

/// Ledger infos are equal if and only if all their fields are.
pub proof fn equal_ledger_infos(a: LedgerInfo, b: LedgerInfo, r: bool)
    requires
        call_ensures(LedgerInfo::eq, (&a, &b), r),
    ensures
        r <==> a.version == b.version && a.transaction_accumulator_hash
            == b.transaction_accumulator_hash && a.next_block_epoch == b.next_block_epoch,
{
}

/// Transaction infos are equal if and only if all their fields are, and a copy has the same fields.
pub proof fn equal_transaction_infos(
    a: TransactionInfo,
    b: TransactionInfo,
    r: bool,
    copy: TransactionInfo,
)
    requires
        call_ensures(TransactionInfo::eq, (&a, &b), r),
        call_ensures(TransactionInfo::clone, (&a,), copy),
    ensures
        r <==> a.gas_used == b.gas_used && a.status@ == b.status@ && a.event_root_hash
            == b.event_root_hash && a.state_checkpoint_hash == b.state_checkpoint_hash
            && a.other_fields@ == b.other_fields@,
        copy.gas_used == a.gas_used,
        copy.status@ == a.status@,
        copy.event_root_hash == a.event_root_hash,
        copy.state_checkpoint_hash == a.state_checkpoint_hash,
        copy.other_fields@ == a.other_fields@,
{
}

/// State values are equal if and only if their bytes are, and a copy has the same bytes.
pub proof fn equal_state_values(a: StateValue, b: StateValue, r: bool, copy: StateValue)
    requires
        call_ensures(StateValue::eq, (&a, &b), r),
        call_ensures(StateValue::clone, (&a,), copy),
    ensures
        r <==> a.bytes@ == b.bytes@,
        copy.bytes@ == a.bytes@,
{
}

/// Nodes of a sparse Merkle tree are equal if and only if both of their parts are.
pub proof fn equal_sparse_nodes(
    a: SparseMerkleInternalNode,
    b: SparseMerkleInternalNode,
    r: bool,
    leaf_a: SparseMerkleLeafNode,
    leaf_b: SparseMerkleLeafNode,
    leaf_r: bool,
)
    requires
        call_ensures(SparseMerkleInternalNode::eq, (&a, &b), r),
        call_ensures(SparseMerkleLeafNode::eq, (&leaf_a, &leaf_b), leaf_r),
    ensures
        r <==> a.left_child == b.left_child && a.right_child == b.right_child,
        leaf_r <==> leaf_a.key == leaf_b.key && leaf_a.value_hash == leaf_b.value_hash,
{
}

/// Proofs of a leaf are equal if and only if they have the same siblings in the same order, and a
/// copy has the same siblings.
pub proof fn equal_accumulator_proofs<H: CryptoHasher>(
    a: AccumulatorProof<H>,
    b: AccumulatorProof<H>,
    r: bool,
    copy: AccumulatorProof<H>,
)
    requires
        call_ensures(AccumulatorProof::<H>::eq, (&a, &b), r),
        call_ensures(AccumulatorProof::<H>::clone, (&a,), copy),
    ensures
        r <==> a@.len() == b@.len() && forall|i: int|
            0 <= i < a@.len() ==> #[trigger] a@[i] == b@[i],
        copy@ == a@,
{
    if a@.len() == b@.len() && forall|i: int| 0 <= i < a@.len() ==> #[trigger] a@[i] == b@[i] {
        assert(a@ =~= b@);
    }
}

/// Proofs of a range of leaves are equal if and only if they have the same siblings on both sides,
/// and a copy has the same siblings.
pub proof fn equal_range_proofs<H: CryptoHasher>(
    a: AccumulatorRangeProof<H>,
    b: AccumulatorRangeProof<H>,
    r: bool,
    copy: AccumulatorRangeProof<H>,
)
    requires
        call_ensures(AccumulatorRangeProof::<H>::eq, (&a, &b), r),
        call_ensures(AccumulatorRangeProof::<H>::clone, (&a,), copy),
    ensures
        r <==> a.spec_left_siblings() == b.spec_left_siblings() && a.spec_right_siblings()
            == b.spec_right_siblings(),
        copy.spec_left_siblings() == a.spec_left_siblings(),
        copy.spec_right_siblings() == a.spec_right_siblings(),
{
}

/// Sparse Merkle proofs are equal if and only if they have the same leaf and the same siblings, and
/// a copy has the same leaf and the same siblings.
pub proof fn equal_sparse_proofs(
    a: SparseMerkleProof,
    b: SparseMerkleProof,
    r: bool,
    copy: SparseMerkleProof,
)
    requires
        call_ensures(SparseMerkleProof::eq, (&a, &b), r),
        call_ensures(SparseMerkleProof::clone, (&a,), copy),
    ensures
        r <==> a.spec_leaf() == b.spec_leaf() && a.spec_siblings() == b.spec_siblings(),
        copy.spec_leaf() == a.spec_leaf(),
        copy.spec_siblings() == a.spec_siblings(),
{
}

/// Sparse Merkle range proofs and consistency proofs are equal if and only if they have the same
/// hashes, and a copy has the same hashes.
pub proof fn equal_hash_lists(
    a: SparseMerkleRangeProof,
    b: SparseMerkleRangeProof,
    r: bool,
    copy: SparseMerkleRangeProof,
    subtrees_a: AccumulatorConsistencyProof,
    subtrees_b: AccumulatorConsistencyProof,
    subtrees_r: bool,
    subtrees_copy: AccumulatorConsistencyProof,
)
    requires
        call_ensures(SparseMerkleRangeProof::eq, (&a, &b), r),
        call_ensures(SparseMerkleRangeProof::clone, (&a,), copy),
        call_ensures(AccumulatorConsistencyProof::eq, (&subtrees_a, &subtrees_b), subtrees_r),
        call_ensures(AccumulatorConsistencyProof::clone, (&subtrees_a,), subtrees_copy),
    ensures
        r <==> a@ == b@,
        copy@ == a@,
        subtrees_r <==> subtrees_a@ == subtrees_b@,
        subtrees_copy@ == subtrees_a@,
{
}

/// Accumulators are equal if and only if they have the same number of leaves and the same frozen
/// subtrees, and a copy has the same number of leaves and the same frozen subtrees.
pub proof fn equal_accumulators<H: CryptoHasher>(
    a: InMemoryAccumulator<H>,
    b: InMemoryAccumulator<H>,
    r: bool,
    copy: InMemoryAccumulator<H>,
)
    requires
        call_ensures(InMemoryAccumulator::<H>::eq, (&a, &b), r),
        call_ensures(InMemoryAccumulator::<H>::clone, (&a,), copy),
    ensures
        r <==> a.spec_num_leaves() == b.spec_num_leaves() && a.spec_frozen_subtree_roots()
            == b.spec_frozen_subtree_roots(),
        copy.spec_num_leaves() == a.spec_num_leaves(),
        copy.spec_frozen_subtree_roots() == a.spec_frozen_subtree_roots(),
{
}

/// Summaries are equal if and only if their accumulators are, and a copy has an equal accumulator.
pub proof fn equal_summaries(
    a: TransactionAccumulatorSummary,
    b: TransactionAccumulatorSummary,
    r: bool,
    copy: TransactionAccumulatorSummary,
)
    requires
        call_ensures(TransactionAccumulatorSummary::eq, (&a, &b), r),
        call_ensures(TransactionAccumulatorSummary::clone, (&a,), copy),
    ensures
        r <==> a.accumulator().spec_num_leaves() == b.accumulator().spec_num_leaves()
            && a.accumulator().spec_frozen_subtree_roots()
            == b.accumulator().spec_frozen_subtree_roots(),
        copy.accumulator().spec_num_leaves() == a.accumulator().spec_num_leaves(),
        copy.accumulator().spec_frozen_subtree_roots()
            == a.accumulator().spec_frozen_subtree_roots(),
{
}

/// Extension proofs are equal if and only if all their parts are, and a copy has the same parts.
pub proof fn equal_extension_proofs<H: CryptoHasher>(
    a: AccumulatorExtensionProof<H>,
    b: AccumulatorExtensionProof<H>,
    r: bool,
    copy: AccumulatorExtensionProof<H>,
)
    requires
        call_ensures(AccumulatorExtensionProof::<H>::eq, (&a, &b), r),
        call_ensures(AccumulatorExtensionProof::<H>::clone, (&a,), copy),
    ensures
        r <==> a.spec_num_leaves() == b.spec_num_leaves() && a.spec_frozen_subtree_roots()
            == b.spec_frozen_subtree_roots() && a.spec_leaves() == b.spec_leaves(),
        copy.spec_num_leaves() == a.spec_num_leaves(),
        copy.spec_frozen_subtree_roots() == a.spec_frozen_subtree_roots(),
        copy.spec_leaves() == a.spec_leaves(),
{
}

/// Whether all fields of the transaction infos are equal.
pub open spec fn equal_fields(a: TransactionInfo, b: TransactionInfo) -> bool {
    &&& a.gas_used == b.gas_used
    &&& a.status@ == b.status@
    &&& a.event_root_hash == b.event_root_hash
    &&& a.state_checkpoint_hash == b.state_checkpoint_hash
    &&& a.other_fields@ == b.other_fields@
}

/// Transaction infos with their proofs are equal if and only if the infos and the siblings are, and
/// a copy has equal ones.
pub proof fn equal_infos_with_proofs(
    a: TransactionInfoWithProof,
    b: TransactionInfoWithProof,
    r: bool,
    copy: TransactionInfoWithProof,
)
    requires
        call_ensures(TransactionInfoWithProof::eq, (&a, &b), r),
        call_ensures(TransactionInfoWithProof::clone, (&a,), copy),
    ensures
        r <==> equal_fields(a.transaction_info, b.transaction_info)
            && a.ledger_info_to_transaction_info_proof@ == b.ledger_info_to_transaction_info_proof@,
        equal_fields(copy.transaction_info, a.transaction_info),
        copy.ledger_info_to_transaction_info_proof@ == a.ledger_info_to_transaction_info_proof@,
{
}

/// Proofs of state values are equal if and only if the proofs of their transaction infos are and the
/// proofs of the values have the same leaf and the same siblings. A copy has equal ones.
pub proof fn equal_state_value_proofs(
    a: StateStoreValueProof,
    b: StateStoreValueProof,
    r: bool,
    infos_equal: bool,
    values_equal: bool,
    copy: StateStoreValueProof,
    info_copied: bool,
    value_copied: bool,
)
    requires
        call_ensures(StateStoreValueProof::eq, (&a, &b), r),
        call_ensures(
            TransactionInfoWithProof::eq,
            (&a.spec_transaction_info_with_proof(), &b.spec_transaction_info_with_proof()),
            infos_equal,
        ),
        call_ensures(
            SparseMerkleProof::eq,
            (&a.spec_value_proof(), &b.spec_value_proof()),
            values_equal,
        ),
        call_ensures(StateStoreValueProof::clone, (&a,), copy),
        call_ensures(
            TransactionInfoWithProof::eq,
            (&copy.spec_transaction_info_with_proof(), &a.spec_transaction_info_with_proof()),
            info_copied,
        ),
        call_ensures(
            SparseMerkleProof::eq,
            (&copy.spec_value_proof(), &a.spec_value_proof()),
            value_copied,
        ),
    ensures
        r <==> infos_equal && values_equal,
        info_copied && value_copied,
{
}

/// Proofs of events are equal if and only if the proofs of their transaction infos are and the proofs
/// of the events have the same siblings. A copy has equal ones.
pub proof fn equal_event_proofs(
    a: EventProof,
    b: EventProof,
    r: bool,
    infos_equal: bool,
    copy: EventProof,
    info_copied: bool,
)
    requires
        call_ensures(EventProof::eq, (&a, &b), r),
        call_ensures(
            TransactionInfoWithProof::eq,
            (&a.spec_transaction_info_with_proof(), &b.spec_transaction_info_with_proof()),
            infos_equal,
        ),
        call_ensures(EventProof::clone, (&a,), copy),
        call_ensures(
            TransactionInfoWithProof::eq,
            (&copy.spec_transaction_info_with_proof(), &a.spec_transaction_info_with_proof()),
            info_copied,
        ),
    ensures
        r <==> infos_equal && a.spec_event_proof()@ == b.spec_event_proof()@,
        info_copied && copy.spec_event_proof()@ == a.spec_event_proof()@,
{
}

/// Lists of transaction infos are equal if and only if they have the same number of infos, all of
/// them equal, and the same siblings on both sides. A copy has equal infos and the same siblings.
pub proof fn equal_info_lists(
    a: TransactionInfoListWithProof,
    b: TransactionInfoListWithProof,
    r: bool,
    copy: TransactionInfoListWithProof,
)
    requires
        call_ensures(TransactionInfoListWithProof::eq, (&a, &b), r),
        call_ensures(TransactionInfoListWithProof::clone, (&a,), copy),
    ensures
        r <==> {
            let proof_a = a.ledger_info_to_transaction_infos_proof;
            let proof_b = b.ledger_info_to_transaction_infos_proof;
            &&& proof_a.spec_left_siblings() == proof_b.spec_left_siblings()
            &&& proof_a.spec_right_siblings() == proof_b.spec_right_siblings()
            &&& a.transaction_infos@.len() == b.transaction_infos@.len()
            &&& forall|i: int|
                #![trigger a.transaction_infos@[i]]
                0 <= i < a.transaction_infos@.len() ==> equal_fields(
                    a.transaction_infos@[i],
                    b.transaction_infos@[i],
                )
        },
        copy.ledger_info_to_transaction_infos_proof.spec_left_siblings()
            == a.ledger_info_to_transaction_infos_proof.spec_left_siblings(),
        copy.ledger_info_to_transaction_infos_proof.spec_right_siblings()
            == a.ledger_info_to_transaction_infos_proof.spec_right_siblings(),
        copy.transaction_infos@.len() == a.transaction_infos@.len(),
        forall|i: int|
            #![trigger copy.transaction_infos@[i]]
            0 <= i < a.transaction_infos@.len() ==> equal_fields(
                copy.transaction_infos@[i],
                a.transaction_infos@[i],
            ),
{
}

} // verus!
