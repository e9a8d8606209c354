//! Proofs about the leaves of a sparse Merkle tree.

use vstd::prelude::*;
use vstd::slice::slice_to_vec;
use crate::crypto::hash::{
    sparse_merkle_placeholder_hash, spec_sparse_merkle_placeholder, CryptoHash, HashValue,
    LENGTH_IN_BITS,
};
use crate::proofs::accumulator_proof::same_hashes;
use crate::proofs::error::ProofError;
use crate::proofs::node::{SparseMerkleInternalNode, SparseMerkleLeafNode};

verus! {

/// The hash of an internal node of a sparse Merkle tree.
pub open spec fn sparse_node_hash(left: HashValue, right: HashValue) -> HashValue {
    (SparseMerkleInternalNode { left_child: left, right_child: right }).spec_hash()
}

/// The hash of a subtree that is empty or holds a single leaf.
pub open spec fn sparse_leaf_hash(leaf: Option<SparseMerkleLeafNode>) -> HashValue {
    match leaf {
        Some(leaf) => leaf.spec_hash(),
        None => spec_sparse_merkle_placeholder(),
    }
}

/// The children of the node at depth `depth` on the path of `key`, given the child on that path and
/// the other one.
pub open spec fn sparse_children(
    key: HashValue,
    depth: int,
    child: HashValue,
    sibling: HashValue,
) -> (HashValue, HashValue) {
    if key.spec_bit(depth) {
        (sibling, child)
    } else {
        (child, sibling)
    }
}

/// The root that is reached from a node on the path of `key` by climbing up with the given
/// siblings, the lowest one first. The depth of the node is the number of the siblings.
pub open spec fn sparse_climb(
    key: HashValue,
    hash: HashValue,
    siblings: Seq<HashValue>,
) -> HashValue
    decreases siblings.len(),
{
    if siblings.len() == 0 {
        hash
    } else {
        let (left, right) = sparse_children(key, siblings.len() - 1, hash, siblings[0]);
        sparse_climb(key, sparse_node_hash(left, right), siblings.skip(1))
    }
}

/// A proof that can be used to authenticate an element in a Sparse Merkle Tree given trusted root
/// hash.
#[derive(Debug)]
pub struct SparseMerkleProof {
    /// This proof can be used to authenticate whether a given leaf exists in the tree or not.
    ///     - If this is `Some(leaf_node)`
    ///         - If `leaf_node.key` equals requested key, this is an inclusion proof and
    ///           `leaf_node.value_hash` equals the hash of the corresponding account blob.
    ///         - Otherwise this is a non-inclusion proof. `leaf_node.key` is the only key
    ///           that exists in the subtree and `leaf_node.value_hash` equals the hash of the
    ///           corresponding account blob.
    ///     - If this is `None`, this is also a non-inclusion proof which indicates the subtree is
    ///       empty.
    leaf: Option<SparseMerkleLeafNode>,
    /// All siblings in this proof, including the default ones. Siblings are ordered from the bottom
    /// level to the root level.
    siblings: Vec<HashValue>,
}

impl Clone for SparseMerkleProof {
    fn clone(&self) -> (r: Self)
        ensures
            r.spec_leaf() == self.spec_leaf(),
            r.spec_siblings() == self.spec_siblings(),
    {
        SparseMerkleProof {
            leaf: self.leaf,
            siblings: slice_to_vec(self.siblings.as_slice()),
        }
    }
}

impl vstd::std_specs::cmp::PartialEqSpecImpl for SparseMerkleProof {
    open spec fn obeys_eq_spec() -> bool {
        true
    }

    open spec fn eq_spec(&self, other: &SparseMerkleProof) -> bool {
        self.spec_leaf() == other.spec_leaf() && self.spec_siblings() == other.spec_siblings()
    }
}

impl PartialEq for SparseMerkleProof {
    fn eq(&self, other: &SparseMerkleProof) -> (r: bool) {
        let same_leaf: bool = match (self.leaf, other.leaf) {
            (Some(a), Some(b)) => a.key == b.key && a.value_hash == b.value_hash,
            (None, None) => true,
            _ => false,
        };
        same_leaf && same_hashes(&self.siblings, &other.siblings)
    }
}

impl Eq for SparseMerkleProof {
}

impl SparseMerkleProof {
    /// The leaf in this proof.
    pub closed spec fn spec_leaf(&self) -> Option<SparseMerkleLeafNode> {
        self.leaf
    }

    /// The siblings, from the bottom level to the root level.
    pub closed spec fn spec_siblings(&self) -> Seq<HashValue> {
        self.siblings@
    }

    /// Whether the leaf of the proof can show what is claimed of the key: that it is there with the
    /// given value, or that it is not there.
    pub open spec fn spec_check_leaf(
        &self,
        element_key: HashValue,
        element_hash: Option<HashValue>,
    ) -> Result<(), ProofError> {
        match (element_hash, self.spec_leaf()) {
            (Some(hash), Some(leaf)) => if element_key != leaf.key {
                Err(ProofError::KeyMismatch { in_proof: leaf.key, expected: element_key })
            } else if hash != leaf.value_hash {
                Err(ProofError::ValueHashMismatch { in_proof: leaf.value_hash, expected: hash })
            } else {
                Ok(())
            },
            (Some(_), None) => Err(ProofError::ExpectedInclusionProof),
            (None, Some(leaf)) => if element_key == leaf.key {
                Err(ProofError::KeyExistsInProof)
            } else if !element_key.same_prefix(leaf.key, self.spec_siblings().len() as int) {
                Err(ProofError::KeyNotInSubtree)
            } else {
                Ok(())
            },
            (None, None) => Ok(()),
        }
    }

    /// What verifying the proof gives.
    pub open spec fn spec_verify_by_hash(
        &self,
        expected_root_hash: HashValue,
        element_key: HashValue,
        element_hash: Option<HashValue>,
    ) -> Result<(), ProofError> {
        let siblings = self.spec_siblings();
        let actual = sparse_climb(element_key, sparse_leaf_hash(self.spec_leaf()), siblings);
        if siblings.len() > LENGTH_IN_BITS {
            Err(
                ProofError::TooManySiblings {
                    max: LENGTH_IN_BITS,
                    found: siblings.len() as usize,
                },
            )
        } else if self.spec_check_leaf(element_key, element_hash) is Err {
            self.spec_check_leaf(element_key, element_hash)
        } else if actual != expected_root_hash {
            Err(ProofError::RootHashMismatch { actual, expected: expected_root_hash })
        } else {
            Ok(())
        }
    }

    /// Constructs a new `SparseMerkleProof` using leaf and a list of siblings.
    pub fn new(leaf: Option<SparseMerkleLeafNode>, siblings: Vec<HashValue>) -> (r: Self)
        ensures
            r.spec_leaf() == leaf,
            r.spec_siblings() == siblings@,
    {
        SparseMerkleProof { leaf, siblings }
    }

    /// Returns the leaf node in this proof.
    pub fn leaf(&self) -> (r: Option<SparseMerkleLeafNode>)
        ensures
            r == self.spec_leaf(),
    {
        self.leaf
    }

    /// Returns the list of siblings in this proof.
    pub fn siblings(&self) -> (r: &[HashValue])
        ensures
            r@ == self.spec_siblings(),
    {
        self.siblings.as_slice()
    }

    /// Verifies an element whose key is `element_key` and value is `element_value`, or that there
    /// is no element with that key where `element_value` is `None`.
    pub fn verify<V: CryptoHash>(
        &self,
        expected_root_hash: HashValue,
        element_key: HashValue,
        element_value: Option<&V>,
    ) -> (r: Result<(), ProofError>)
        ensures
            r == self.spec_verify_by_hash(
                expected_root_hash,
                element_key,
                match element_value {
                    Some(value) => Some(value.spec_hash()),
                    None => None,
                },
            ),
    {
        let element_hash: Option<HashValue> = match element_value {
            Some(value) => Some(value.hash()),
            None => None,
        };
        self.verify_by_hash(expected_root_hash, element_key, element_hash)
    }

    /// Checks that the leaf of the proof can show what is claimed of the key.
    fn check_leaf(&self, element_key: HashValue, element_hash: Option<HashValue>) -> (r: Result<
        (),
        ProofError,
    >)
        requires
            self.spec_siblings().len() <= LENGTH_IN_BITS,
        ensures
            r == self.spec_check_leaf(element_key, element_hash),
    {
        match (element_hash, self.leaf) {
            (Some(hash), Some(leaf)) => {
                // This is an inclusion proof, so the key and value hash provided in the proof
                // should match element_key and element_value_hash. `siblings` should prove the
                // route from the leaf node to the root.
                if element_key != leaf.key {
                    return Err(
                        ProofError::KeyMismatch { in_proof: leaf.key, expected: element_key },
                    );
                }
                if hash != leaf.value_hash {
                    return Err(
                        ProofError::ValueHashMismatch { in_proof: leaf.value_hash, expected: hash },
                    );
                }
                Ok(())
            },
            (Some(_), None) => Err(ProofError::ExpectedInclusionProof),
            (None, Some(leaf)) => {
                // This is a non-inclusion proof. The proof intends to show that if a leaf node
                // representing `element_key` is inserted, it will break a currently existing leaf
                // node represented by `proof_key` into a branch. `siblings` should prove the
                // route from that leaf node to the root.
                if element_key == leaf.key {
                    return Err(ProofError::KeyExistsInProof);
                }
                let common: usize = element_key.common_prefix_bits_len(leaf.key);
                if common < self.siblings.len() {
                    assert(element_key.spec_bit(common as int) != leaf.key.spec_bit(
                        common as int,
                    ));
                    return Err(ProofError::KeyNotInSubtree);
                }
                Ok(())
            },
            (None, None) => {
                // This is a non-inclusion proof. The proof intends to show that if a leaf node
                // representing `element_key` is inserted, it will show up at a currently empty
                // position. `sibling` should prove the route from this empty position to the root.
                Ok(())
            },
        }
    }

    /// If `element_hash` is present, verifies an element whose key is `element_key` and value is
    /// authenticated by `element_hash` exists in the Sparse Merkle Tree using the provided proof.
    /// Otherwise verifies the proof is a valid non-inclusion proof that shows this key doesn't
    /// exist in the tree.
    pub fn verify_by_hash(
        &self,
        expected_root_hash: HashValue,
        element_key: HashValue,
        element_hash: Option<HashValue>,
    ) -> (r: Result<(), ProofError>)
        ensures
            r == self.spec_verify_by_hash(expected_root_hash, element_key, element_hash),
    {
        let count: usize = self.siblings.len();
        if count > LENGTH_IN_BITS {
            return Err(ProofError::TooManySiblings { max: LENGTH_IN_BITS, found: count });
        }
        if let Err(e) = self.check_leaf(element_key, element_hash) {
            return Err(e);
        }
        let ghost siblings = self.siblings@;
        let mut hash: HashValue = match self.leaf {
            Some(leaf) => leaf.hash(),
            None => sparse_merkle_placeholder_hash(),
        };
        let ghost start = hash;
        let mut i: usize = 0;
        assert(siblings.skip(0) =~= siblings);
        while i < count
            invariant
                siblings == self.siblings@,
                count == siblings.len(),
                count <= LENGTH_IN_BITS,
                i <= count,
                sparse_climb(element_key, hash, siblings.skip(i as int)) == sparse_climb(
                    element_key,
                    start,
                    siblings,
                ),
            decreases count - i,
        {
            assert(siblings.skip(i as int).skip(1) =~= siblings.skip(i + 1));
            if element_key.bit(count - 1 - i) {
                hash = SparseMerkleInternalNode::new(self.siblings[i], hash).hash();
            } else {
                hash = SparseMerkleInternalNode::new(hash, self.siblings[i]).hash();
            }
            i = i + 1;
        }
        if hash != expected_root_hash {
            return Err(ProofError::RootHashMismatch { actual: hash, expected: expected_root_hash });
        }
        Ok(())
    }
}

/// The root that is reached from the leaf with the given key by climbing up with the given left and
/// right siblings, the lowest ones first: the bits of the key say on which side the next one is.
pub open spec fn sparse_range_climb(
    key: HashValue,
    hash: HashValue,
    left: Seq<HashValue>,
    right: Seq<HashValue>,
) -> Result<HashValue, ProofError>
    decreases left.len() + right.len(),
{
    if left.len() + right.len() == 0 {
        Ok(hash)
    } else if key.spec_bit(left.len() + right.len() - 1) {
        if left.len() == 0 {
            Err(ProofError::MissingSparseLeftSibling)
        } else {
            sparse_range_climb(key, sparse_node_hash(left[0], hash), left.skip(1), right)
        }
    } else {
        if right.len() == 0 {
            Err(ProofError::MissingSparseRightSibling)
        } else {
            sparse_range_climb(key, sparse_node_hash(hash, right[0]), left, right.skip(1))
        }
    }
}

/// Note: this is not a range proof in the sense that a range of nodes is verified!
/// Instead, it verifies the entire left part of the tree up to a known rightmost node.
/// See the description below.
///
/// A proof that can be used to authenticate a range of consecutive leaves, from the leftmost leaf
/// to the rightmost known one, in a sparse Merkle tree. For example, given the following sparse
/// Merkle tree:
///
/// ```text
///                   root
///                  /     \
///                 /       \
///                /         \
///               o           o
///              / \         / \
///             a   o       o   h
///                / \     / \
///               o   d   e   X
///              / \         / \
///             b   c       f   g
/// ```
///
/// if the proof wants show that `[a, b, c, d, e]` exists in the tree, it would need the siblings
/// `X` and `h` on the right.
#[derive(Debug)]
pub struct SparseMerkleRangeProof {
    /// The vector of siblings on the right of the path from root to last leaf. The ones near the
    /// bottom are at the beginning of the vector. In the above example, it's `[X, h]`.
    right_siblings: Vec<HashValue>,
}

impl View for SparseMerkleRangeProof {
    type V = Seq<HashValue>;

    /// The right siblings, the ones near the bottom first.
    closed spec fn view(&self) -> Seq<HashValue> {
        self.right_siblings@
    }
}

impl Clone for SparseMerkleRangeProof {
    fn clone(&self) -> (r: Self)
        ensures
            r@ == self@,
    {
        SparseMerkleRangeProof { right_siblings: slice_to_vec(self.right_siblings.as_slice()) }
    }
}

impl vstd::std_specs::cmp::PartialEqSpecImpl for SparseMerkleRangeProof {
    open spec fn obeys_eq_spec() -> bool {
        true
    }

    open spec fn eq_spec(&self, other: &SparseMerkleRangeProof) -> bool {
        self@ == other@
    }
}

impl PartialEq for SparseMerkleRangeProof {
    fn eq(&self, other: &SparseMerkleRangeProof) -> (r: bool) {
        same_hashes(&self.right_siblings, &other.right_siblings)
    }
}

impl Eq for SparseMerkleRangeProof {
}

impl SparseMerkleRangeProof {
    /// What verifying the proof gives.
    pub open spec fn spec_verify(
        &self,
        expected_root_hash: HashValue,
        rightmost_known_leaf: SparseMerkleLeafNode,
        left_siblings: Seq<HashValue>,
    ) -> Result<(), ProofError> {
        match sparse_range_climb(
            rightmost_known_leaf.key,
            rightmost_known_leaf.spec_hash(),
            left_siblings,
            self@,
        ) {
            Err(e) => Err(e),
            Ok(actual) => if actual != expected_root_hash {
                Err(ProofError::RootHashMismatch { actual, expected: expected_root_hash })
            } else {
                Ok(())
            },
        }
    }

    /// Constructs a new `SparseMerkleRangeProof`.
    pub fn new(right_siblings: Vec<HashValue>) -> (r: Self)
        ensures
            r@ == right_siblings@,
    {
        SparseMerkleRangeProof { right_siblings }
    }

    /// Returns the right siblings.
    pub fn right_siblings(&self) -> (r: &[HashValue])
        ensures
            r@ == self@,
    {
        self.right_siblings.as_slice()
    }

    /// Verifies that the rightmost known leaf exists in the tree and that the resulting
    /// root hash matches the expected root hash.
    pub fn verify(
        &self,
        expected_root_hash: HashValue,
        rightmost_known_leaf: SparseMerkleLeafNode,
        left_siblings: Vec<HashValue>,
    ) -> (r: Result<(), ProofError>)
        requires
            left_siblings@.len() + self@.len() <= LENGTH_IN_BITS,
        ensures
            r == self.spec_verify(expected_root_hash, rightmost_known_leaf, left_siblings@),
    {
        let ghost left = left_siblings@;
        let ghost right = self.right_siblings@;
        let key: HashValue = rightmost_known_leaf.key();
        let mut remaining: usize = left_siblings.len() + self.right_siblings.len();
        let mut next_left: usize = 0;
        let mut next_right: usize = 0;
        let mut current_hash: HashValue = rightmost_known_leaf.hash();
        assert(left.skip(0) =~= left && right.skip(0) =~= right);
        while remaining > 0
            invariant
                left == left_siblings@,
                right == self.right_siblings@,
                key == rightmost_known_leaf.key,
                next_left <= left.len(),
                next_right <= right.len(),
                remaining == left.len() - next_left + right.len() - next_right,
                remaining <= LENGTH_IN_BITS,
                sparse_range_climb(
                    key,
                    current_hash,
                    left.skip(next_left as int),
                    right.skip(next_right as int),
                ) == sparse_range_climb(
                    rightmost_known_leaf.key,
                    rightmost_known_leaf.spec_hash(),
                    left,
                    right,
                ),
            decreases remaining,
        {
            if key.bit(remaining - 1) {
                if next_left >= left_siblings.len() {
                    return Err(ProofError::MissingSparseLeftSibling);
                }
                assert(left.skip(next_left as int).skip(1) =~= left.skip(next_left + 1));
                current_hash = SparseMerkleInternalNode::new(
                    left_siblings[next_left],
                    current_hash,
                ).hash();
                next_left = next_left + 1;
            } else {
                if next_right >= self.right_siblings.len() {
                    return Err(ProofError::MissingSparseRightSibling);
                }
                assert(right.skip(next_right as int).skip(1) =~= right.skip(next_right + 1));
                current_hash = SparseMerkleInternalNode::new(
                    current_hash,
                    self.right_siblings[next_right],
                ).hash();
                next_right = next_right + 1;
            }
            remaining = remaining - 1;
        }
        if current_hash != expected_root_hash {
            return Err(
                ProofError::RootHashMismatch { actual: current_hash, expected: expected_root_hash },
            );
        }
        Ok(())
    }
}

} // verus!
