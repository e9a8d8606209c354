//! Proofs that a range of leaves is in an accumulator.

use vstd::prelude::*;
use vstd::slice::slice_to_vec;
use core::marker::PhantomData;
use crate::crypto::hash::{
    CryptoHash, CryptoHasher, HashValue, TestOnlyHasher, TransactionAccumulatorHasher,
};
use crate::proofs::accumulator::MAX_ACCUMULATOR_PROOF_DEPTH;
use crate::proofs::accumulator_proof::same_hashes;
use crate::proofs::error::ProofError;
use crate::proofs::merkle::full_pairs;
use crate::proofs::node::MerkleTreeInternalNode;

verus! {

/// A range of consecutive nodes of a level, the first of which is node `first`, with the siblings
/// that complete the pairs at both ends: a right child at the start needs the last of `left`, a
/// left child at the end needs the last of `right`.
pub open spec fn complete_range(
    nodes: Seq<HashValue>,
    first: nat,
    left: Seq<HashValue>,
    right: Seq<HashValue>,
) -> Seq<HashValue> {
    let start = if first % 2 == 1 {
        seq![left.last()] + nodes
    } else {
        nodes
    };
    if start.len() % 2 == 1 {
        start.push(right.last())
    } else {
        start
    }
}

/// Whether the first node of the range is a right child.
pub open spec fn needs_left(first: nat) -> bool {
    first % 2 == 1
}

/// Whether the last node of the range is a left child.
pub open spec fn needs_right(num_nodes: nat, first: nat) -> bool {
    (first + num_nodes) % 2 == 1
}

/// `siblings` without the last one, where that one is used.
pub open spec fn after_use(siblings: Seq<HashValue>, used: bool) -> Seq<HashValue> {
    if used {
        siblings.drop_last()
    } else {
        siblings
    }
}

/// The root that is reached from a range of nodes by combining pairs level by level, until one node
/// is left and all siblings are used.
pub open spec fn range_root<H: CryptoHasher>(
    nodes: Seq<HashValue>,
    first: nat,
    left: Seq<HashValue>,
    right: Seq<HashValue>,
) -> Result<HashValue, ProofError>
    decreases nodes.len() + left.len() + right.len(),
{
    if nodes.len() == 0 || (nodes.len() == 1 && left.len() == 0 && right.len() == 0) {
        Ok(nodes[0])
    } else if needs_left(first) && left.len() == 0 {
        Err(ProofError::MissingLeftSibling)
    } else if needs_right(nodes.len(), first) && right.len() == 0 {
        Err(ProofError::MissingRightSibling)
    } else {
        range_root::<H>(
            full_pairs::<H>(complete_range(nodes, first, left, right)),
            first / 2,
            after_use(left, needs_left(first)),
            after_use(right, needs_right(nodes.len(), first)),
        )
    }
}

/// A proof that is similar to `AccumulatorProof`, but can be used to authenticate a range of
/// leaves. For example, given the following accumulator:
///
/// ```text
///                 root
///                /     \
///              /         \
///            /             \
///           o               o
///         /   \           /   \
///        /     \         /     \
///       X       o       o       Y
///      / \     / \     / \     / \
///     o   o   a   b   c   Z   o   o
/// ```
///
/// if the proof wants to show that `[a, b, c]` exists in the accumulator, it would need `X` on the
/// left and `Y` and `Z` on the right.
#[derive(Debug)]
pub struct AccumulatorRangeProof<H> {
    /// The siblings on the left of the path from the first leaf to the root. Siblings near the root
    /// are at the beginning of the vector.
    left_siblings: Vec<HashValue>,
    /// The siblings on the right of the path from the last leaf to the root. Siblings near the root
    /// are at the beginning of the vector.
    right_siblings: Vec<HashValue>,
    phantom: PhantomData<H>,
}

impl<H> AccumulatorRangeProof<H> {
    /// The left siblings, the ones near the root first.
    pub closed spec fn spec_left_siblings(&self) -> Seq<HashValue> {
        self.left_siblings@
    }

    /// The right siblings, the ones near the root first.
    pub closed spec fn spec_right_siblings(&self) -> Seq<HashValue> {
        self.right_siblings@
    }
}

impl<H> Clone for AccumulatorRangeProof<H> {
    fn clone(&self) -> (r: Self)
        ensures
            r.spec_left_siblings() == self.spec_left_siblings(),
            r.spec_right_siblings() == self.spec_right_siblings(),
    {
        AccumulatorRangeProof {
            left_siblings: slice_to_vec(self.left_siblings.as_slice()),
            right_siblings: slice_to_vec(self.right_siblings.as_slice()),
            phantom: PhantomData,
        }
    }
}

impl<H> vstd::std_specs::cmp::PartialEqSpecImpl for AccumulatorRangeProof<H> {
    open spec fn obeys_eq_spec() -> bool {
        true
    }

    open spec fn eq_spec(&self, other: &AccumulatorRangeProof<H>) -> bool {
        self.spec_left_siblings() == other.spec_left_siblings() && self.spec_right_siblings()
            == other.spec_right_siblings()
    }
}

impl<H> PartialEq for AccumulatorRangeProof<H> {
    fn eq(&self, other: &AccumulatorRangeProof<H>) -> (r: bool) {
        same_hashes(&self.left_siblings, &other.left_siblings) && same_hashes(
            &self.right_siblings,
            &other.right_siblings,
        )
    }
}

impl<H> Eq for AccumulatorRangeProof<H> {
}

impl<H: CryptoHasher> AccumulatorRangeProof<H> {
    /// What verifying the proof gives. Without a first leaf index there must be neither leaves nor
    /// siblings. Otherwise there must be leaves and not too many siblings, and the leaves and the
    /// siblings must lead to the expected root hash.
    pub open spec fn spec_verify(
        &self,
        expected_root_hash: HashValue,
        first_leaf_index: Option<u64>,
        leaf_hashes: Seq<HashValue>,
    ) -> Result<(), ProofError> {
        let left = self.spec_left_siblings();
        let right = self.spec_right_siblings();
        let max = MAX_ACCUMULATOR_PROOF_DEPTH;
        match first_leaf_index {
            None => if leaf_hashes.len() > 0 {
                Err(ProofError::LeavesWithoutFirstIndex)
            } else if left.len() > 0 || right.len() > 0 {
                Err(ProofError::SiblingsWithoutLeaves)
            } else {
                Ok(())
            },
            Some(first) => if left.len() > max {
                Err(ProofError::TooManyLeftSiblings { max, found: left.len() as usize })
            } else if right.len() > max {
                Err(ProofError::TooManyRightSiblings { max, found: right.len() as usize })
            } else if leaf_hashes.len() == 0 {
                Err(ProofError::NoLeaves)
            } else {
                match range_root::<H>(leaf_hashes, first as nat, left, right) {
                    Err(e) => Err(e),
                    Ok(actual) => if actual != expected_root_hash {
                        Err(ProofError::RootHashMismatch { actual, expected: expected_root_hash })
                    } else {
                        Ok(())
                    },
                }
            },
        }
    }

    /// Constructs a new `AccumulatorRangeProof` using `left_siblings` and `right_siblings`.
    pub fn new(left_siblings: Vec<HashValue>, right_siblings: Vec<HashValue>) -> (r: Self)
        ensures
            r.spec_left_siblings() == left_siblings@,
            r.spec_right_siblings() == right_siblings@,
    {
        AccumulatorRangeProof { left_siblings, right_siblings, phantom: PhantomData }
    }

    /// Constructs a new `AccumulatorRangeProof` for an empty list of leaves.
    pub fn new_empty() -> (r: Self)
        ensures
            r.spec_left_siblings() == Seq::<HashValue>::empty(),
            r.spec_right_siblings() == Seq::<HashValue>::empty(),
    {
        Self::new(Vec::new(), Vec::new())
    }

    /// Get all the left siblings.
    pub fn left_siblings(&self) -> (r: &Vec<HashValue>)
        ensures
            r@ == self.spec_left_siblings(),
    {
        &self.left_siblings
    }

    /// Get all the right siblings.
    pub fn right_siblings(&self) -> (r: &Vec<HashValue>)
        ensures
            r@ == self.spec_right_siblings(),
    {
        &self.right_siblings
    }

    /// Computes the parents of a range of nodes. The siblings are those that complete the pairs at
    /// the two ends of the range, where they are needed.
    fn combine(
        nodes: &Vec<HashValue>,
        left_sibling: Option<HashValue>,
        right_sibling: Option<HashValue>,
    ) -> (r: Vec<HashValue>)
        requires
            nodes@.len() > 0,
            right_sibling is Some <==> (nodes@.len() + (if left_sibling is Some {
                1int
            } else {
                0int
            })) % 2 == 1,
        ensures
            ({
                let start = match left_sibling {
                    Some(left) => seq![left] + nodes@,
                    None => nodes@,
                };
                let whole = match right_sibling {
                    Some(right) => start.push(right),
                    None => start,
                };
                r@ == full_pairs::<H>(whole)
            }),
    {
        let ghost start = match left_sibling {
            Some(left) => seq![left] + nodes@,
            None => nodes@,
        };
        let ghost whole = match right_sibling {
            Some(right) => start.push(right),
            None => start,
        };
        let ghost offset = if left_sibling is Some {
            1int
        } else {
            0int
        };
        let ghost pairs = full_pairs::<H>(whole);
        let mut parents: Vec<HashValue> = Vec::new();
        let mut i: usize = 0;
        // If the first node is a right child, it needs to be combined with a sibling on the left.
        if let Some(left_hash) = left_sibling {
            let parent: HashValue = MerkleTreeInternalNode::<H>::new(left_hash, nodes[0]).hash();
            parents.push(parent);
            i = 1;
            assert(parents@[0] == pairs[0]);
        }
        // Next we take two children at a time and compute their parents.
        while i < nodes.len() && i + 1 < nodes.len()
            invariant
                i <= nodes@.len(),
                offset == 0 || offset == 1,
                i + offset == 2 * parents@.len(),
                2 * pairs.len() == whole.len(),
                whole.len() >= nodes@.len() + offset,
                pairs == full_pairs::<H>(whole),
                forall|k: int| 0 <= k < nodes@.len() ==> whole[k + offset] == #[trigger] nodes@[k],
                forall|k: int| 0 <= k < parents@.len() ==> parents@[k] == pairs[k],
            decreases nodes@.len() - i,
        {
            let parent: HashValue = MerkleTreeInternalNode::<H>::new(
                nodes[i],
                nodes[i + 1],
            ).hash();
            parents.push(parent);
            i = i + 2;
        }
        // Similarly, if the last node is a left child, it needs to be combined with a sibling on
        // the right.
        if let Some(right_hash) = right_sibling {
            let parent: HashValue = MerkleTreeInternalNode::<H>::new(nodes[i], right_hash).hash();
            parents.push(parent);
        }
        assert(parents@ =~= pairs);
        parents
    }

    /// Verifies the proof is correct. The verifier needs to have `expected_root_hash`, the index
    /// of the first leaf and all of the leaves in possession.
    pub fn verify(
        &self,
        expected_root_hash: HashValue,
        first_leaf_index: Option<u64>,
        leaf_hashes: &[HashValue],
    ) -> (r: Result<(), ProofError>)
        ensures
            r == self.spec_verify(expected_root_hash, first_leaf_index, leaf_hashes@),
    {
        let max: usize = MAX_ACCUMULATOR_PROOF_DEPTH;
        let first: u64 = match first_leaf_index {
            None => {
                if leaf_hashes.len() > 0 {
                    return Err(ProofError::LeavesWithoutFirstIndex);
                }
                if self.left_siblings.len() > 0 || self.right_siblings.len() > 0 {
                    return Err(ProofError::SiblingsWithoutLeaves);
                }
                return Ok(());
            },
            Some(first) => first,
        };
        if self.left_siblings.len() > max {
            return Err(
                ProofError::TooManyLeftSiblings { max, found: self.left_siblings.len() },
            );
        }
        if self.right_siblings.len() > max {
            return Err(
                ProofError::TooManyRightSiblings { max, found: self.right_siblings.len() },
            );
        }
        if leaf_hashes.len() == 0 {
            return Err(ProofError::NoLeaves);
        }
        let ghost left_siblings = self.left_siblings@;
        let ghost right_siblings = self.right_siblings@;
        let ghost outcome = range_root::<H>(
            leaf_hashes@,
            first as nat,
            left_siblings,
            right_siblings,
        );
        let mut current_hashes: Vec<HashValue> = slice_to_vec(leaf_hashes);
        // The index of the first node of the range at the current level.
        let mut index: u64 = first;
        // How many siblings are not used yet.
        let mut left: usize = self.left_siblings.len();
        let mut right: usize = self.right_siblings.len();
        assert(left_siblings.take(left as int) =~= left_siblings);
        assert(right_siblings.take(right as int) =~= right_siblings);
        // Keep reducing the list of hashes by combining all the children pairs, until there is
        // only one hash left.
        while current_hashes.len() > 1 || left > 0 || right > 0
            invariant
                left_siblings == self.left_siblings@,
                right_siblings == self.right_siblings@,
                left <= left_siblings.len() <= max,
                right <= right_siblings.len() <= max,
                max == MAX_ACCUMULATOR_PROOF_DEPTH,
                current_hashes@.len() > 0,
                leaf_hashes@.len() > 0,
                first_leaf_index == Some(first),
                outcome == range_root::<H>(
                    leaf_hashes@,
                    first as nat,
                    left_siblings,
                    right_siblings,
                ),
                outcome == range_root::<H>(
                    current_hashes@,
                    index as nat,
                    left_siblings.take(left as int),
                    right_siblings.take(right as int),
                ),
            decreases current_hashes@.len() + left + right,
        {
            let ghost nodes = current_hashes@;
            let ghost unused_left = left_siblings.take(left as int);
            let ghost unused_right = right_siblings.take(right as int);
            let mut left_sibling: Option<HashValue> = None;
            if index % 2 == 1 {
                if left == 0 {
                    return Err(ProofError::MissingLeftSibling);
                }
                left = left - 1;
                left_sibling = Some(self.left_siblings[left]);
            }
            let odd_end: bool = (index % 2 == 1) != (current_hashes.len() % 2 == 1);
            let mut right_sibling: Option<HashValue> = None;
            if odd_end {
                if right == 0 {
                    return Err(ProofError::MissingRightSibling);
                }
                right = right - 1;
                right_sibling = Some(self.right_siblings[right]);
            }
            let parent_hashes: Vec<HashValue> = Self::combine(
                &current_hashes,
                left_sibling,
                right_sibling,
            );
            proof {
                assert(parent_hashes@ == full_pairs::<H>(
                    complete_range(nodes, index as nat, unused_left, unused_right),
                ));
                assert(after_use(unused_left, needs_left(index as nat)) =~= left_siblings.take(
                    left as int,
                ));
                assert(after_use(unused_right, needs_right(nodes.len(), index as nat))
                    =~= right_siblings.take(right as int));
            }
            index = index / 2;
            current_hashes = parent_hashes;
        }
        if current_hashes[0] != expected_root_hash {
            return Err(
                ProofError::RootHashMismatch {
                    actual: current_hashes[0],
                    expected: expected_root_hash,
                },
            );
        }
        Ok(())
    }
}

/// A proof that a range of transaction infos is in the transaction accumulator.
pub type TransactionAccumulatorRangeProof = AccumulatorRangeProof<TransactionAccumulatorHasher>;

/// An accumulator range proof for tests.
pub type TestAccumulatorRangeProof = AccumulatorRangeProof<TestOnlyHasher>;

} // verus!
