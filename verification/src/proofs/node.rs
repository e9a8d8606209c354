//! Nodes of the Merkle trees.

use vstd::prelude::*;
use vstd::slice::slice_to_vec;
use core::marker::PhantomData;
use crate::crypto::hash::{
    CryptoHash, CryptoHasher, HashValue, SparseMerkleInternalHasher, SparseMerkleLeafNodeHasher,
};

verus! {

/// The hash of two hash values put together, left one first.
#[verifier::opaque]
pub open spec fn spec_pair_hash<H: CryptoHasher>(left: HashValue, right: HashValue) -> HashValue {
    H::spec_digest(left@ + right@)
}

/// Computes the hash of two hash values put together, left one first.
fn pair_hash<H: CryptoHasher>(left: HashValue, right: HashValue) -> (h: HashValue)
    ensures
        h == spec_pair_hash::<H>(left, right),
{
    let mut data: Vec<u8> = slice_to_vec(left.hash.as_slice());
    data.extend_from_slice(right.hash.as_slice());
    assert(data@ =~= left@ + right@);
    reveal(spec_pair_hash);
    H::digest(&data)
}

/// An internal node of an accumulator.
pub struct MerkleTreeInternalNode<H> {
    pub left_child: HashValue,
    pub right_child: HashValue,
    pub hasher: PhantomData<H>,
}

impl<H: CryptoHasher> MerkleTreeInternalNode<H> {
    /// Constructs an internal node from the hashes of its children.
    pub fn new(left_child: HashValue, right_child: HashValue) -> (r: Self)
        ensures
            r.left_child == left_child,
            r.right_child == right_child,
    {
        MerkleTreeInternalNode { left_child, right_child, hasher: PhantomData }
    }
}

impl<H: CryptoHasher> CryptoHash for MerkleTreeInternalNode<H> {
    open spec fn spec_hash(&self) -> HashValue {
        spec_pair_hash::<H>(self.left_child, self.right_child)
    }

    fn hash(&self) -> (h: HashValue) {
        pair_hash::<H>(self.left_child, self.right_child)
    }
}

/// An internal node of a sparse Merkle tree.
#[derive(Clone, Copy, Debug)]
pub struct SparseMerkleInternalNode {
    pub left_child: HashValue,
    pub right_child: HashValue,
}

impl vstd::std_specs::cmp::PartialEqSpecImpl for SparseMerkleInternalNode {
    open spec fn obeys_eq_spec() -> bool {
        true
    }

    open spec fn eq_spec(&self, other: &SparseMerkleInternalNode) -> bool {
        *self == *other
    }
}

impl PartialEq for SparseMerkleInternalNode {
    fn eq(&self, other: &SparseMerkleInternalNode) -> (r: bool) {
        self.left_child == other.left_child && self.right_child == other.right_child
    }
}

impl Eq for SparseMerkleInternalNode {
}

impl SparseMerkleInternalNode {
    /// Constructs an internal node from the hashes of its children.
    pub fn new(left_child: HashValue, right_child: HashValue) -> (r: Self)
        ensures
            r == (SparseMerkleInternalNode { left_child, right_child }),
    {
        SparseMerkleInternalNode { left_child, right_child }
    }
}

impl CryptoHash for SparseMerkleInternalNode {
    open spec fn spec_hash(&self) -> HashValue {
        spec_pair_hash::<SparseMerkleInternalHasher>(self.left_child, self.right_child)
    }

    fn hash(&self) -> (h: HashValue) {
        pair_hash::<SparseMerkleInternalHasher>(self.left_child, self.right_child)
    }
}

/// A leaf of a sparse Merkle tree: a key and the hash of the value stored under it.
#[derive(Clone, Copy, Debug)]
pub struct SparseMerkleLeafNode {
    pub key: HashValue,
    pub value_hash: HashValue,
}

impl vstd::std_specs::cmp::PartialEqSpecImpl for SparseMerkleLeafNode {
    open spec fn obeys_eq_spec() -> bool {
        true
    }

    open spec fn eq_spec(&self, other: &SparseMerkleLeafNode) -> bool {
        *self == *other
    }
}

impl PartialEq for SparseMerkleLeafNode {
    fn eq(&self, other: &SparseMerkleLeafNode) -> (r: bool) {
        self.key == other.key && self.value_hash == other.value_hash
    }
}

impl Eq for SparseMerkleLeafNode {
}

impl SparseMerkleLeafNode {
    /// Constructs a leaf.
    pub fn new(key: HashValue, value_hash: HashValue) -> (r: Self)
        ensures
            r == (SparseMerkleLeafNode { key, value_hash }),
    {
        SparseMerkleLeafNode { key, value_hash }
    }

    /// Returns the key of the leaf.
    pub fn key(&self) -> (r: HashValue)
        ensures
            r == self.key,
    {
        self.key
    }

    /// Returns the hash of the value stored in the leaf.
    pub fn value_hash(&self) -> (r: HashValue)
        ensures
            r == self.value_hash,
    {
        self.value_hash
    }
}

impl CryptoHash for SparseMerkleLeafNode {
    open spec fn spec_hash(&self) -> HashValue {
        spec_pair_hash::<SparseMerkleLeafNodeHasher>(self.key, self.value_hash)
    }

    fn hash(&self) -> (h: HashValue) {
        pair_hash::<SparseMerkleLeafNodeHasher>(self.key, self.value_hash)
    }
}

} // verus!
