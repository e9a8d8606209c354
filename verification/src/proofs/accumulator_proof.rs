//! Proofs that a leaf is in an accumulator.

use vstd::prelude::*;
use vstd::slice::slice_to_vec;
use core::marker::PhantomData;
use crate::crypto::hash::{
    CryptoHash, CryptoHasher, EventAccumulatorHasher, HashValue, TestOnlyHasher,
    TransactionAccumulatorHasher,
};
use crate::proofs::accumulator::MAX_ACCUMULATOR_PROOF_DEPTH;
use crate::proofs::error::ProofError;
use crate::proofs::node::{spec_pair_hash, MerkleTreeInternalNode};

verus! {

/// Compares two lists of hashes.
pub(crate) fn same_hashes(a: &Vec<HashValue>, b: &Vec<HashValue>) -> (r: bool)
    ensures
        r == (a@ == b@),
{
    if a.len() != b.len() {
        return false;
    }
    let mut i: usize = 0;
    while i < a.len()
        invariant
            i <= a@.len(),
            a@.len() == b@.len(),
            forall|j: int| 0 <= j < i ==> a@[j] == b@[j],
        decreases a@.len() - i,
    {
        if a[i] != b[i] {
            return false;
        }
        i = i + 1;
    }
    assert(a@ =~= b@);
    true
}

/// The pair that node `index` of a level and its sibling form.
pub open spec fn sibling_pair(hash: HashValue, index: nat, sibling: HashValue) -> (
    HashValue,
    HashValue,
) {
    if index % 2 == 0 {
        (hash, sibling)
    } else {
        (sibling, hash)
    }
}

/// The node that is reached from node `index` of a level by climbing up with the given siblings,
/// the lowest one first.
pub open spec fn climb<H: CryptoHasher>(
    hash: HashValue,
    index: nat,
    siblings: Seq<HashValue>,
) -> HashValue
    decreases siblings.len(),
{
    if siblings.len() == 0 {
        hash
    } else {
        let (left, right) = sibling_pair(hash, index, siblings[0]);
        climb::<H>(spec_pair_hash::<H>(left, right), index / 2, siblings.skip(1))
    }
}

/// A proof that can be used to authenticate an element in an accumulator given trusted root hash.
#[derive(Debug)]
pub struct AccumulatorProof<H> {
    /// All siblings in this proof, including the default ones. Siblings are ordered from the bottom
    /// level to the root level.
    siblings: Vec<HashValue>,
    phantom: PhantomData<H>,
}

impl<H> View for AccumulatorProof<H> {
    type V = Seq<HashValue>;

    /// The siblings, from the bottom level to the root level.
    closed spec fn view(&self) -> Seq<HashValue> {
        self.siblings@
    }
}

impl<H> Clone for AccumulatorProof<H> {
    fn clone(&self) -> (r: Self)
        ensures
            r@ == self@,
    {
        AccumulatorProof {
            siblings: slice_to_vec(self.siblings.as_slice()),
            phantom: PhantomData,
        }
    }
}

impl<H> vstd::std_specs::cmp::PartialEqSpecImpl for AccumulatorProof<H> {
    open spec fn obeys_eq_spec() -> bool {
        true
    }

    open spec fn eq_spec(&self, other: &AccumulatorProof<H>) -> bool {
        self@ == other@
    }
}

impl<H> PartialEq for AccumulatorProof<H> {
    fn eq(&self, other: &AccumulatorProof<H>) -> (r: bool) {
        same_hashes(&self.siblings, &other.siblings)
    }
}

impl<H> Eq for AccumulatorProof<H> {
}

impl<H: CryptoHasher> AccumulatorProof<H> {
    /// What verifying the proof gives: the siblings must not be too many, and climbing up with them
    /// must lead from the element to the expected root hash.
    pub open spec fn spec_verify(
        &self,
        expected_root_hash: HashValue,
        element_hash: HashValue,
        element_index: u64,
    ) -> Result<(), ProofError> {
        let actual = climb::<H>(element_hash, element_index as nat, self@);
        if self@.len() > MAX_ACCUMULATOR_PROOF_DEPTH {
            Err(
                ProofError::TooManySiblings {
                    max: MAX_ACCUMULATOR_PROOF_DEPTH,
                    found: self@.len() as usize,
                },
            )
        } else if actual != expected_root_hash {
            Err(ProofError::RootHashMismatch { actual, expected: expected_root_hash })
        } else {
            Ok(())
        }
    }

    /// Constructs a new `AccumulatorProof` using a list of siblings.
    pub fn new(siblings: Vec<HashValue>) -> (r: Self)
        ensures
            r@ == siblings@,
    {
        AccumulatorProof { siblings, phantom: PhantomData }
    }

    /// Returns the list of siblings in this proof.
    pub fn siblings(&self) -> (r: &[HashValue])
        ensures
            r@ == self@,
    {
        self.siblings.as_slice()
    }

    /// Verifies an element whose hash is `element_hash` and version is `element_index` exists in
    /// the accumulator whose root hash is `expected_root_hash` using the provided proof.
    pub fn verify(
        &self,
        expected_root_hash: HashValue,
        element_hash: HashValue,
        element_index: u64,
    ) -> (r: Result<(), ProofError>)
        ensures
            r == self.spec_verify(expected_root_hash, element_hash, element_index),
    {
        if self.siblings.len() > MAX_ACCUMULATOR_PROOF_DEPTH {
            return Err(
                ProofError::TooManySiblings {
                    max: MAX_ACCUMULATOR_PROOF_DEPTH,
                    found: self.siblings.len(),
                },
            );
        }
        let ghost siblings = self.siblings@;
        let mut hash: HashValue = element_hash;
        // The index of the ancestor of the element at the current level.
        let mut index: u64 = element_index;
        let mut level: usize = 0;
        assert(siblings.skip(0) =~= siblings);
        while level < self.siblings.len()
            invariant
                siblings == self.siblings@,
                level <= siblings.len(),
                climb::<H>(hash, index as nat, siblings.skip(level as int)) == climb::<H>(
                    element_hash,
                    element_index as nat,
                    siblings,
                ),
            decreases siblings.len() - level,
        {
            assert(siblings.skip(level as int).skip(1) =~= siblings.skip(level + 1));
            if index % 2 == 0 {
                // The current node is a left child.
                hash = MerkleTreeInternalNode::<H>::new(hash, self.siblings[level]).hash();
            } else {
                // The current node is a right child.
                hash = MerkleTreeInternalNode::<H>::new(self.siblings[level], hash).hash();
            }
            index = index / 2;
            level = level + 1;
        }
        if hash != expected_root_hash {
            return Err(ProofError::RootHashMismatch { actual: hash, expected: expected_root_hash });
        }
        Ok(())
    }
}

/// A proof that a transaction info is in the transaction accumulator.
pub type TransactionAccumulatorProof = AccumulatorProof<TransactionAccumulatorHasher>;

/// A proof that an event is in the event accumulator of a transaction.
pub type EventAccumulatorProof = AccumulatorProof<EventAccumulatorHasher>;

/// An accumulator proof for tests.
pub type TestAccumulatorProof = AccumulatorProof<TestOnlyHasher>;

} // verus!
