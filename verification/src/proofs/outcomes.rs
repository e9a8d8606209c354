//! What verifying proofs gives, stated of the results of the functions that verify them.

use vstd::prelude::*;
use crate::crypto::hash::{
    sha3_256, spec_sparse_merkle_placeholder, CryptoHash, CryptoHasher, HashValue,
    SparseMerkleInternalHasher,
};
use crate::ledger::{LedgerInfo, StateValue, TransactionInfo, Version};
use crate::proofs::accumulator_proof::{
    climb, AccumulatorProof, EventAccumulatorProof, TransactionAccumulatorProof,
};
use crate::proofs::collision::pair_hash_is_digest_of_pair;
use crate::proofs::error::ProofError;
use crate::proofs::merkle::full_pairs;
use crate::proofs::node::{spec_pair_hash, SparseMerkleLeafNode};
use crate::proofs::range_proof::{
    after_use, complete_range, needs_left, needs_right, range_root, AccumulatorRangeProof,
};
use crate::proofs::sparse::{
    sparse_climb, sparse_leaf_hash, sparse_range_climb, SparseMerkleProof, SparseMerkleRangeProof,
};
use crate::proofs::transaction::{
    transaction_info_hashes, verify_transaction_info, EventProof, StateStoreValueProof, TransactionInfoListWithProof,
    TransactionInfoWithProof,
};

verus! {

/// Whether `parent` is the hash of the two children in the trees of the hasher.
pub open spec fn is_parent<H: CryptoHasher>(
    parent: HashValue,
    left: HashValue,
    right: HashValue,
) -> bool {
    parent.hash == sha3_256(H::spec_seed() + (left@ + right@))
}

/// There is one parent, which the hash of the pair is.
proof fn lemma_parent<H: CryptoHasher>(parent: HashValue, left: HashValue, right: HashValue)
    requires
        is_parent::<H>(parent, left, right),
    ensures
        parent == spec_pair_hash::<H>(left, right),
{
    pair_hash_is_digest_of_pair::<H>(left, right);
}

// ---- One leaf of an accumulator ----

/// A proof of a leaf is refused for its siblings if and only if there are more than sixty-three of
/// them. Otherwise it is refused if and only if it leads to another root hash, and then it verifies
/// against that one. Without siblings it verifies the root itself.
pub proof fn accumulator_proof_leads_to_one_root<H: CryptoHasher>(
    p: AccumulatorProof<H>,
    expected: HashValue,
    element: HashValue,
    index: u64,
    r: Result<(), ProofError>,
    actual: HashValue,
    again: Result<(), ProofError>,
)
    requires
        call_ensures(AccumulatorProof::<H>::verify, (&p, expected, element, index), r),
        call_ensures(AccumulatorProof::<H>::verify, (&p, actual, element, index), again),
    ensures
        p@.len() > 63 <==> r == Err::<(), ProofError>(
            ProofError::TooManySiblings { max: 63, found: p@.len() as usize },
        ),
        p@.len() <= 63 && again is Ok ==> r == if expected == actual {
            Ok(())
        } else {
            Err(ProofError::RootHashMismatch { actual, expected })
        },
        r matches Err(ProofError::RootHashMismatch { actual: found, .. }) && found == actual
            ==> again is Ok,
        r is Ok || r.unwrap_err() is TooManySiblings || r.unwrap_err() is RootHashMismatch,
        p@.len() == 0 ==> (r is Ok <==> expected == element),
{
}

/// A proof of a leaf with one sibling more is the proof of the parent: the lowest sibling is the
/// right child where the index is even, and the left child where it is odd.
pub proof fn accumulator_proof_climbs_to_parent<H: CryptoHasher>(
    p: AccumulatorProof<H>,
    expected: HashValue,
    element: HashValue,
    index: u64,
    r: Result<(), ProofError>,
    shorter: AccumulatorProof<H>,
    parent: HashValue,
    shorter_result: Result<(), ProofError>,
)
    requires
        1 <= p@.len() <= 63,
        shorter@ == p@.skip(1),
        if index % 2 == 0 {
            is_parent::<H>(parent, element, p@[0])
        } else {
            is_parent::<H>(parent, p@[0], element)
        },
        call_ensures(AccumulatorProof::<H>::verify, (&p, expected, element, index), r),
        call_ensures(
            AccumulatorProof::<H>::verify,
            (&shorter, expected, parent, (index / 2) as u64),
            shorter_result,
        ),
    ensures
        r == shorter_result,
{
    if index % 2 == 0 {
        lemma_parent::<H>(parent, element, p@[0]);
    } else {
        lemma_parent::<H>(parent, p@[0], element);
    }
    assert(climb::<H>(element, index as nat, p@) == climb::<H>(parent, index as nat / 2, shorter@));
}

// ---- A range of leaves of an accumulator ----

/// Without a first leaf, a range proof verifies if and only if there are neither leaves nor
/// siblings.
pub proof fn range_proof_without_first_leaf<H: CryptoHasher>(
    p: AccumulatorRangeProof<H>,
    expected: HashValue,
    leaves: &[HashValue],
    r: Result<(), ProofError>,
)
    requires
        call_ensures(AccumulatorRangeProof::<H>::verify, (&p, expected, None, leaves), r),
    ensures
        r is Ok <==> leaves@.len() == 0 && p.spec_left_siblings().len() == 0
            && p.spec_right_siblings().len() == 0,
        r matches Err(e) ==> e == if leaves@.len() > 0 {
            ProofError::LeavesWithoutFirstIndex
        } else {
            ProofError::SiblingsWithoutLeaves
        },
{
}

/// A range proof with a first leaf is refused if there are more than sixty-three siblings on one
/// side, or if there are no leaves. The leaf that is alone and has no siblings is the root.
pub proof fn range_proof_leads_to_one_root<H: CryptoHasher>(
    p: AccumulatorRangeProof<H>,
    expected: HashValue,
    first: u64,
    leaves: &[HashValue],
    r: Result<(), ProofError>,
    actual: HashValue,
    again: Result<(), ProofError>,
)
    requires
        call_ensures(AccumulatorRangeProof::<H>::verify, (&p, expected, Some(first), leaves), r),
        call_ensures(AccumulatorRangeProof::<H>::verify, (&p, actual, Some(first), leaves), again),
    ensures
        ({
            let left = p.spec_left_siblings().len();
            let right = p.spec_right_siblings().len();
            &&& left > 63 <==> r == Err::<(), ProofError>(
                ProofError::TooManyLeftSiblings { max: 63, found: left as usize },
            )
            &&& left <= 63 ==> (right > 63 <==> r == Err::<(), ProofError>(
                ProofError::TooManyRightSiblings { max: 63, found: right as usize },
            ))
            &&& left <= 63 && right <= 63 ==> (leaves@.len() == 0 <==> r == Err::<(), ProofError>(
                ProofError::NoLeaves,
            ))
            &&& left == 0 && right == 0 && leaves@.len() == 1 ==> (r is Ok <==> leaves@[0]
                == expected)
        }),
        again is Ok ==> r == if expected == actual {
            Ok(())
        } else {
            Err(ProofError::RootHashMismatch { actual, expected })
        },
        r matches Err(ProofError::RootHashMismatch { actual: found, .. }) && found == actual
            ==> again is Ok,
{
    lemma_range_error::<H>(
        leaves@,
        first as nat,
        p.spec_left_siblings(),
        p.spec_right_siblings(),
    );
}

/// Combining a range of nodes fails only where a sibling is missing.
proof fn lemma_range_error<H: CryptoHasher>(
    nodes: Seq<HashValue>,
    first: nat,
    left: Seq<HashValue>,
    right: Seq<HashValue>,
)
    ensures
        range_root::<H>(nodes, first, left, right) matches Err(e) ==> e is MissingLeftSibling || e
            is MissingRightSibling,
    decreases nodes.len() + left.len() + right.len(),
{
    let ends = nodes.len() == 0 || (nodes.len() == 1 && left.len() == 0 && right.len() == 0);
    let misses_left = needs_left(first) && left.len() == 0;
    let misses_right = needs_right(nodes.len(), first) && right.len() == 0;
    if !ends && !misses_left && !misses_right {
        lemma_range_error::<H>(
            full_pairs::<H>(complete_range(nodes, first, left, right)),
            first / 2,
            after_use(left, needs_left(first)),
            after_use(right, needs_right(nodes.len(), first)),
        );
    }
}

/// Node `i` of a level, given a range of its nodes from node `first` on, the node before the range
/// and the node after it.
pub open spec fn node_around(
    nodes: Seq<HashValue>,
    first: int,
    before: HashValue,
    after: HashValue,
    i: int,
) -> HashValue {
    if i < first {
        before
    } else if i < first + nodes.len() {
        nodes[i - first]
    } else {
        after
    }
}

/// A range proof is refused where a sibling is missing: on the left where the first node is a right
/// child, on the right where the last node is a left child. Otherwise it is the proof of the
/// parents of the range, with the siblings that complete its ends used up.
pub proof fn range_proof_climbs_to_parents<H: CryptoHasher>(
    p: AccumulatorRangeProof<H>,
    expected: HashValue,
    first: u64,
    leaves: &[HashValue],
    r: Result<(), ProofError>,
    shorter: AccumulatorRangeProof<H>,
    parents: &[HashValue],
    shorter_result: Result<(), ProofError>,
)
    requires
        p.spec_left_siblings().len() <= 63,
        p.spec_right_siblings().len() <= 63,
        leaves@.len() > 0,
        leaves@.len() + p.spec_left_siblings().len() + p.spec_right_siblings().len() > 1,
        ({
            let left = p.spec_left_siblings();
            let right = p.spec_right_siblings();
            let uses_left = first % 2 == 1;
            let uses_right = (first + leaves@.len()) % 2 == 1;
            &&& shorter.spec_left_siblings() == if uses_left {
                left.take(left.len() - 1)
            } else {
                left
            }
            &&& shorter.spec_right_siblings() == if uses_right {
                right.take(right.len() - 1)
            } else {
                right
            }
            &&& parents@.len() == (first + leaves@.len() + 1) / 2 - first / 2
            &&& forall|k: int|
                #![trigger parents@[k]]
                0 <= k < parents@.len() ==> is_parent::<H>(
                    parents@[k],
                    node_around(
                        leaves@,
                        first as int,
                        left[left.len() - 1],
                        right[right.len() - 1],
                        2 * (first / 2 + k),
                    ),
                    node_around(
                        leaves@,
                        first as int,
                        left[left.len() - 1],
                        right[right.len() - 1],
                        2 * (first / 2 + k) + 1,
                    ),
                )
        }),
        call_ensures(AccumulatorRangeProof::<H>::verify, (&p, expected, Some(first), leaves), r),
        call_ensures(
            AccumulatorRangeProof::<H>::verify,
            (&shorter, expected, Some((first / 2) as u64), parents),
            shorter_result,
        ),
    ensures
        ({
            let misses_left = first % 2 == 1 && p.spec_left_siblings().len() == 0;
            let misses_right = (first + leaves@.len()) % 2 == 1 && p.spec_right_siblings().len()
                == 0;
            r == if misses_left {
                Err::<(), ProofError>(ProofError::MissingLeftSibling)
            } else if misses_right {
                Err(ProofError::MissingRightSibling)
            } else {
                shorter_result
            }
        }),
{
    let left = p.spec_left_siblings();
    let right = p.spec_right_siblings();
    let n = leaves@.len();
    let f = first as nat;
    let misses_left = needs_left(f) && left.len() == 0;
    let misses_right = needs_right(n, f) && right.len() == 0;
    if !misses_left && !misses_right {
        let whole = complete_range(leaves@, f, left, right);
        assert(after_use(left, needs_left(f)) =~= shorter.spec_left_siblings());
        assert(after_use(right, needs_right(n, f)) =~= shorter.spec_right_siblings());
        assert forall|j: int| 0 <= j < whole.len() implies #[trigger] whole[j] == node_around(
            leaves@,
            f as int,
            left[left.len() - 1],
            right[right.len() - 1],
            2 * (f as int / 2) + j,
        ) by {}
        assert(whole.len() == 2 * parents@.len());
        assert forall|k: int| 0 <= k < parents@.len() implies #[trigger] parents@[k]
            == full_pairs::<H>(whole)[k] by {
            lemma_parent::<H>(parents@[k], whole[2 * k], whole[2 * k + 1]);
        }
        assert(parents@ =~= full_pairs::<H>(whole));
        assert(range_root::<H>(leaves@, f, left, right) == range_root::<H>(
            parents@,
            f / 2,
            shorter.spec_left_siblings(),
            shorter.spec_right_siblings(),
        ));
    }
}

// ---- A leaf of a sparse Merkle tree ----

/// A sparse Merkle proof is refused for its siblings if and only if there are more than 256 of
/// them. Otherwise it is refused for its leaf if and only if the leaf cannot show what is claimed:
/// an element is shown by a leaf with its key and its hash, and that there is no element by an
/// empty place, or by a leaf with another key that starts with the same bits as far down as the
/// siblings reach.
pub proof fn sparse_proof_shows_leaf(
    p: SparseMerkleProof,
    expected: HashValue,
    key: HashValue,
    element: Option<HashValue>,
    r: Result<(), ProofError>,
)
    requires
        call_ensures(SparseMerkleProof::verify_by_hash, (&p, expected, key, element), r),
    ensures
        ({
            let siblings = p.spec_siblings();
            let shares_prefix = |other: HashValue|
                forall|i: int|
                    0 <= i < siblings.len() ==> key.spec_bit(i) == #[trigger] other.spec_bit(i);
            if siblings.len() > 256 {
                r == Err::<(), ProofError>(
                    ProofError::TooManySiblings { max: 256, found: siblings.len() as usize },
                )
            } else {
                match (element, p.spec_leaf()) {
                    (Some(hash), Some(leaf)) => {
                        &&& r is Ok ==> leaf.key == key && leaf.value_hash == hash
                        &&& r matches Err(e) ==> (e is RootHashMismatch <==> leaf.key == key
                            && leaf.value_hash == hash)
                        &&& leaf.key != key ==> r == Err::<(), ProofError>(
                            ProofError::KeyMismatch { in_proof: leaf.key, expected: key },
                        )
                        &&& leaf.key == key && leaf.value_hash != hash ==> r == Err::<
                            (),
                            ProofError,
                        >(
                            ProofError::ValueHashMismatch {
                                in_proof: leaf.value_hash,
                                expected: hash,
                            },
                        )
                    },
                    (Some(_), None) => r == Err::<(), ProofError>(
                        ProofError::ExpectedInclusionProof,
                    ),
                    (None, Some(leaf)) => {
                        &&& r is Ok ==> leaf.key != key && shares_prefix(leaf.key)
                        &&& r matches Err(e) ==> (e is RootHashMismatch <==> leaf.key != key
                            && shares_prefix(leaf.key))
                        &&& leaf.key == key ==> r == Err::<(), ProofError>(
                            ProofError::KeyExistsInProof,
                        )
                        &&& !shares_prefix(leaf.key) ==> r == Err::<(), ProofError>(
                            ProofError::KeyNotInSubtree,
                        ) || leaf.key == key
                    },
                    (None, None) => r is Ok || r.unwrap_err() is RootHashMismatch,
                }
            }
        }),
{
}

/// Where a sparse Merkle proof can show what is claimed, it verifies against the hash at the top of
/// the path from the leaf up, and against no other: on each level, the sibling is the left child
/// where the bit of the key is one, and the right child where it is zero.
pub proof fn sparse_proof_climbs_path(
    p: SparseMerkleProof,
    expected: HashValue,
    key: HashValue,
    element: Option<HashValue>,
    r: Result<(), ProofError>,
    path: Seq<HashValue>,
)
    requires
        call_ensures(SparseMerkleProof::verify_by_hash, (&p, expected, key, element), r),
        path.len() == p.spec_siblings().len() + 1,
        path[0] == match p.spec_leaf() {
            Some(leaf) => leaf.spec_hash(),
            None => spec_sparse_merkle_placeholder(),
        },
        forall|i: int|
            #![trigger path[i + 1]]
            0 <= i < p.spec_siblings().len() ==> if key.spec_bit(p.spec_siblings().len() - 1 - i) {
                is_parent::<SparseMerkleInternalHasher>(
                    path[i + 1],
                    p.spec_siblings()[i],
                    path[i],
                )
            } else {
                is_parent::<SparseMerkleInternalHasher>(
                    path[i + 1],
                    path[i],
                    p.spec_siblings()[i],
                )
            },
    ensures
        r is Ok ==> path[path.len() - 1] == expected,
        r matches Err(e) ==> (e is RootHashMismatch ==> path[path.len() - 1] != expected && e == (
        ProofError::RootHashMismatch { actual: path[path.len() - 1], expected })),
{
    let siblings = p.spec_siblings();
    lemma_sparse_path(key, siblings, path, 0);
    assert(siblings.skip(0) =~= siblings);
    assert(path[0] == sparse_leaf_hash(p.spec_leaf()));
}

/// Climbing from step `k` of a path leads to its top.
proof fn lemma_sparse_path(
    key: HashValue,
    siblings: Seq<HashValue>,
    path: Seq<HashValue>,
    k: int,
)
    requires
        0 <= k <= siblings.len(),
        path.len() == siblings.len() + 1,
        forall|i: int|
            #![trigger path[i + 1]]
            0 <= i < siblings.len() ==> if key.spec_bit(siblings.len() - 1 - i) {
                is_parent::<SparseMerkleInternalHasher>(path[i + 1], siblings[i], path[i])
            } else {
                is_parent::<SparseMerkleInternalHasher>(path[i + 1], path[i], siblings[i])
            },
    ensures
        sparse_climb(key, path[k], siblings.skip(k)) == path[siblings.len() as int],
    decreases siblings.len() - k,
{
    if k < siblings.len() {
        lemma_sparse_path(key, siblings, path, k + 1);
        assert(siblings.skip(k).skip(1) =~= siblings.skip(k + 1));
        if key.spec_bit(siblings.len() - 1 - k) {
            lemma_parent::<SparseMerkleInternalHasher>(path[k + 1], siblings[k], path[k]);
        } else {
            lemma_parent::<SparseMerkleInternalHasher>(path[k + 1], path[k], siblings[k]);
        }
    }
}

/// Verifying a value is verifying its hash.
pub proof fn sparse_proof_verifies_hash_of_value<V: CryptoHash>(
    p: SparseMerkleProof,
    expected: HashValue,
    key: HashValue,
    value: Option<&V>,
    hash: Option<HashValue>,
    r: Result<(), ProofError>,
    by_hash: Result<(), ProofError>,
)
    requires
        hash is Some <==> value is Some,
        value is Some ==> hash.unwrap() == value.unwrap().spec_hash(),
        call_ensures(SparseMerkleProof::verify::<V>, (&p, expected, key, value), r),
        call_ensures(SparseMerkleProof::verify_by_hash, (&p, expected, key, hash), by_hash),
    ensures
        r == by_hash,
{
}

// ---- The left part of a sparse Merkle tree ----

/// The number of ones among the first `n` bits of a key.
pub open spec fn ones(key: HashValue, n: nat) -> nat
    decreases n,
{
    if n == 0 {
        0
    } else if key.spec_bit(n - 1) {
        ones(key, (n - 1) as nat) + 1
    } else {
        ones(key, (n - 1) as nat)
    }
}

/// Where the siblings do not match the bits of the key, the one that is missing is named.
proof fn lemma_sparse_range_error(
    key: HashValue,
    hash: HashValue,
    left: Seq<HashValue>,
    right: Seq<HashValue>,
)
    ensures
        ({
            let climbed = sparse_range_climb(key, hash, left, right);
            let needed = ones(key, left.len() + right.len());
            &&& needed == left.len() ==> climbed is Ok
            &&& needed > left.len() ==> climbed == Err::<HashValue, ProofError>(
                ProofError::MissingSparseLeftSibling,
            )
            &&& needed < left.len() ==> climbed == Err::<HashValue, ProofError>(
                ProofError::MissingSparseRightSibling,
            )
        }),
    decreases left.len() + right.len(),
{
    let n = left.len() + right.len();
    if n > 0 {
        lemma_ones_bound(key, (n - 1) as nat);
        if key.spec_bit(n - 1) {
            if left.len() > 0 {
                lemma_sparse_range_error(
                    key,
                    spec_pair_hash::<SparseMerkleInternalHasher>(left[0], hash),
                    left.skip(1),
                    right,
                );
            }
        } else if right.len() > 0 {
            lemma_sparse_range_error(
                key,
                spec_pair_hash::<SparseMerkleInternalHasher>(hash, right[0]),
                left,
                right.skip(1),
            );
        }
    }
}

/// There are no more ones than bits.
proof fn lemma_ones_bound(key: HashValue, n: nat)
    ensures
        ones(key, n) <= n,
    decreases n,
{
    if n > 0 {
        lemma_ones_bound(key, (n - 1) as nat);
    }
}

/// A range proof needs a left sibling for each one among the bits of the rightmost key on its path,
/// and a right sibling for each zero: a left sibling is missing if and only if there are more ones,
/// and a right sibling if and only if there are fewer. Otherwise the proof leads to one root hash.
pub proof fn sparse_range_proof_needs_siblings(
    p: SparseMerkleRangeProof,
    expected: HashValue,
    leaf: SparseMerkleLeafNode,
    left: Vec<HashValue>,
    r: Result<(), ProofError>,
    actual: HashValue,
    again: Result<(), ProofError>,
)
    requires
        left@.len() + p@.len() <= 256,
        call_ensures(SparseMerkleRangeProof::verify, (&p, expected, leaf, left), r),
        call_ensures(SparseMerkleRangeProof::verify, (&p, actual, leaf, left), again),
    ensures
        ({
            let needed = ones(leaf.key, left@.len() + p@.len());
            &&& needed > left@.len() <==> r == Err::<(), ProofError>(
                ProofError::MissingSparseLeftSibling,
            )
            &&& needed < left@.len() <==> r == Err::<(), ProofError>(
                ProofError::MissingSparseRightSibling,
            )
            &&& r is Ok || r.unwrap_err() is RootHashMismatch || needed != left@.len()
        }),
        again is Ok ==> r == if expected == actual {
            Ok(())
        } else {
            Err(ProofError::RootHashMismatch { actual, expected })
        },
        r matches Err(ProofError::RootHashMismatch { actual: found, .. }) && found == actual
            ==> again is Ok,
        call_requires(SparseMerkleRangeProof::verify, (&p, expected, leaf, left)),
        left@.len() + p@.len() == 0 ==> (r is Ok <==> expected == leaf.spec_hash()),
{
    lemma_sparse_range_error(leaf.key, leaf.spec_hash(), left@, p@);
}

/// A range proof climbs the path of the rightmost key. On each level the next left sibling is the
/// left child where the bit of the key is one, and the next right sibling is the right child where
/// it is zero.
pub proof fn sparse_range_proof_climbs_path(
    p: SparseMerkleRangeProof,
    expected: HashValue,
    leaf: SparseMerkleLeafNode,
    left: Vec<HashValue>,
    r: Result<(), ProofError>,
    path: Seq<HashValue>,
    used: Seq<nat>,
)
    requires
        left@.len() + p@.len() <= 256,
        call_ensures(SparseMerkleRangeProof::verify, (&p, expected, leaf, left), r),
        path.len() == left@.len() + p@.len() + 1,
        path[0] == leaf.spec_hash(),
        used.len() == path.len(),
        used[0] == 0,
        used[path.len() - 1] == left@.len(),
        is_range_path(leaf.key, left@, p@, path, used),
    ensures
        r == if path[path.len() - 1] == expected {
            Ok::<(), ProofError>(())
        } else {
            Err(ProofError::RootHashMismatch { actual: path[path.len() - 1], expected })
        },
{
    lemma_sparse_range_path(leaf.key, left@, p@, path, used, 0);
    assert(left@.skip(0) =~= left@);
    assert(p@.skip(0) =~= p@);
}

/// Whether each node of the path is the parent of the one before and of the next sibling, where
/// `used` counts the left siblings that are used before each step.
pub open spec fn is_range_path(
    key: HashValue,
    left: Seq<HashValue>,
    right: Seq<HashValue>,
    path: Seq<HashValue>,
    used: Seq<nat>,
) -> bool {
    forall|i: int|
        #![trigger path[i + 1]]
        0 <= i < left.len() + right.len() ==> {
            &&& used[i] <= left.len()
            &&& i - used[i] <= right.len()
            &&& if key.spec_bit(left.len() + right.len() - 1 - i) {
                &&& used[i + 1] == used[i] + 1
                &&& used[i] < left.len()
                &&& is_parent::<SparseMerkleInternalHasher>(
                    path[i + 1],
                    left[used[i] as int],
                    path[i],
                )
            } else {
                &&& used[i + 1] == used[i]
                &&& 0 <= i - used[i] < right.len()
                &&& is_parent::<SparseMerkleInternalHasher>(
                    path[i + 1],
                    path[i],
                    right[i - used[i]],
                )
            }
        }
}

/// Climbing from step `k` of a path leads to its top.
proof fn lemma_sparse_range_path(
    key: HashValue,
    left: Seq<HashValue>,
    right: Seq<HashValue>,
    path: Seq<HashValue>,
    used: Seq<nat>,
    k: int,
)
    requires
        0 <= k <= left.len() + right.len(),
        path.len() == left.len() + right.len() + 1,
        used.len() == path.len(),
        used[path.len() - 1] == left.len(),
        used[k] <= left.len(),
        0 <= k - used[k] <= right.len(),
        is_range_path(key, left, right, path, used),
    ensures
        sparse_range_climb(key, path[k], left.skip(used[k] as int), right.skip(k - used[k])) == Ok::<
            HashValue,
            ProofError,
        >(path[path.len() - 1]),
    decreases path.len() - k,
{
    let n = left.len() + right.len();
    let u = used[k] as int;
    if k < n {
        let _ = path[k + 1];
        if key.spec_bit(n - 1 - k) {
            lemma_parent::<SparseMerkleInternalHasher>(path[k + 1], left[u], path[k]);
            assert(left.skip(u).skip(1) =~= left.skip(u + 1));
        } else {
            lemma_parent::<SparseMerkleInternalHasher>(path[k + 1], path[k], right[k - u]);
            assert(right.skip(k - u).skip(1) =~= right.skip(k - u + 1));
        }
        lemma_sparse_range_path(key, left, right, path, used, k + 1);
    }
}

// ---- Transactions, events and state values ----

/// A transaction info is refused as too new if and only if its version is newer than that of the
/// ledger info. Otherwise its proof decides: that of its hash at its version, against the root hash
/// of the ledger info.
pub proof fn transaction_info_is_verified_at_version(
    ledger_info: LedgerInfo,
    version: Version,
    info: TransactionInfo,
    p: TransactionAccumulatorProof,
    r: Result<(), ProofError>,
    leaf_result: Result<(), ProofError>,
)
    requires
        call_ensures(verify_transaction_info, (&ledger_info, version, &info, &p), r),
        call_ensures(
            TransactionAccumulatorProof::verify,
            (&p, ledger_info.transaction_accumulator_hash, info.spec_hash(), version),
            leaf_result,
        ),
    ensures
        r == if version <= ledger_info.version {
            leaf_result
        } else {
            Err(
                ProofError::TransactionTooNew {
                    transaction_version: version,
                    ledger_version: ledger_info.version,
                },
            )
        },
{
}

/// A transaction info that comes with its proof is verified with that proof.
pub proof fn transaction_info_is_verified_with_its_proof(
    p: TransactionInfoWithProof,
    ledger_info: LedgerInfo,
    version: Version,
    r: Result<(), ProofError>,
    info_result: Result<(), ProofError>,
)
    requires
        call_ensures(TransactionInfoWithProof::verify, (&p, &ledger_info, version), r),
        call_ensures(
            verify_transaction_info,
            (
                &ledger_info,
                version,
                &p.transaction_info,
                &p.ledger_info_to_transaction_info_proof,
            ),
            info_result,
        ),
    ensures
        r == info_result,
{
}

/// The root hash of the state is there if and only if the transaction is a state checkpoint.
pub proof fn state_root_is_that_of_checkpoint(
    info: TransactionInfo,
    r: Result<HashValue, ProofError>,
)
    requires
        call_ensures(TransactionInfo::ensure_state_checkpoint_hash, (&info,), r),
    ensures
        r is Ok <==> info.state_checkpoint_hash is Some,
        r matches Ok(hash) ==> hash == info.state_checkpoint_hash.unwrap(),
        r matches Err(e) ==> e == ProofError::MissingStateCheckpointHash,
{
}

/// A state value is verified if and only if the transaction is a state checkpoint, the value is
/// proved against the root hash of that checkpoint, and the transaction info is proved against the
/// ledger info. The first of these that fails gives the error.
pub proof fn state_value_is_verified_in_checkpoint(
    p: StateStoreValueProof,
    ledger_info: LedgerInfo,
    version: Version,
    key: HashValue,
    value: Option<&StateValue>,
    r: Result<(), ProofError>,
    state_root: Result<HashValue, ProofError>,
    value_result: Result<(), ProofError>,
    info_result: Result<(), ProofError>,
)
    requires
        call_ensures(StateStoreValueProof::verify, (&p, &ledger_info, version, key, value), r),
        call_ensures(
            TransactionInfo::ensure_state_checkpoint_hash,
            (&p.spec_transaction_info_with_proof().transaction_info,),
            state_root,
        ),
        state_root is Ok ==> call_ensures(
            SparseMerkleProof::verify::<StateValue>,
            (&p.spec_value_proof(), state_root.unwrap(), key, value),
            value_result,
        ),
        call_ensures(
            TransactionInfoWithProof::verify,
            (&p.spec_transaction_info_with_proof(), &ledger_info, version),
            info_result,
        ),
    ensures
        r is Ok <==> state_root is Ok && value_result is Ok && info_result is Ok,
        state_root matches Err(e) ==> r == Err::<(), ProofError>(e),
        state_root is Ok && value_result is Err ==> r == value_result,
        state_root is Ok && value_result is Ok ==> r == info_result,
{
}

/// An event is verified if and only if it is proved against the event root hash of the transaction,
/// and the transaction info is proved against the ledger info. The first of these that fails gives
/// the error.
pub proof fn event_is_verified_in_transaction(
    p: EventProof,
    ledger_info: LedgerInfo,
    event_hash: HashValue,
    version: Version,
    index: Version,
    r: Result<(), ProofError>,
    event_result: Result<(), ProofError>,
    info_result: Result<(), ProofError>,
)
    requires
        call_ensures(EventProof::verify, (&p, &ledger_info, event_hash, version, index), r),
        call_ensures(
            EventAccumulatorProof::verify,
            (
                &p.spec_event_proof(),
                p.spec_transaction_info_with_proof().transaction_info.event_root_hash,
                event_hash,
                index,
            ),
            event_result,
        ),
        call_ensures(
            TransactionInfoWithProof::verify,
            (&p.spec_transaction_info_with_proof(), &ledger_info, version),
            info_result,
        ),
    ensures
        r is Ok <==> event_result is Ok && info_result is Ok,
        event_result is Err ==> r == event_result,
        event_result is Ok ==> r == info_result,
{
}

/// A list of transaction infos is verified by the range proof of their hashes, in order, against
/// the root hash of the ledger info.
pub proof fn transaction_infos_are_verified_as_range(
    p: TransactionInfoListWithProof,
    ledger_info: LedgerInfo,
    first: Option<Version>,
    r: Result<(), ProofError>,
    hashes: &[HashValue],
    range_result: Result<(), ProofError>,
)
    requires
        hashes@.len() == p.transaction_infos@.len(),
        forall|i: int|
            0 <= i < hashes@.len() ==> #[trigger] hashes@[i]
                == p.transaction_infos@[i].spec_hash(),
        call_ensures(TransactionInfoListWithProof::verify, (&p, &ledger_info, first), r),
        call_ensures(
            AccumulatorRangeProof::verify,
            (
                &p.ledger_info_to_transaction_infos_proof,
                ledger_info.transaction_accumulator_hash,
                first,
                hashes,
            ),
            range_result,
        ),
    ensures
        r == range_result,
{
    assert(hashes@ =~= transaction_info_hashes(p.transaction_infos@));
}

} // verus!
