//! An accumulator that is held in memory.

use vstd::prelude::*;
use vstd::slice::{slice_subrange, slice_to_vec};
use core::marker::PhantomData;
use crate::crypto::hash::{
    accumulator_placeholder_hash, CryptoHash, CryptoHasher, HashValue,
};
use crate::proofs::accumulator_proof::same_hashes;
use crate::proofs::error::ProofError;
use crate::proofs::merkle::{
    absorb, absorb_leaves, absorb_subtrees, frozen_roots, is_power_of_two, lemma_absorb_len,
    lemma_double_size, lemma_low_bit_of_multiple, lemma_popcount_bound, popcount, right_spine,
    root_of_frozen,
};
use crate::proofs::node::MerkleTreeInternalNode;

verus! {

/// The number of leaves of an accumulator, or an index into them.
///
/// Because leaves can only take half the space in the tree, any numbering of the tree leaves must
/// not take the full width of the total space. Thus, for a 64-bit ordering, the maximum proof depth
/// is limited to 63.
pub type LeafCount = u64;

/// The maximum depth of a proof.
pub const MAX_ACCUMULATOR_PROOF_DEPTH: usize = 63;

/// The maximum number of leaves of an accumulator.
pub const MAX_ACCUMULATOR_LEAVES: LeafCount = 0x8000_0000_0000_0000;

/// An accumulator that only stores the roots of its maximal frozen subtrees rather than all leaves
/// and internal nodes.
#[derive(Debug)]
pub struct InMemoryAccumulator<H: CryptoHasher> {
    frozen_subtree_roots: Vec<HashValue>,
    num_leaves: LeafCount,
    root_hash: HashValue,
    phantom: PhantomData<H>,
}

/// Counts the one bits of `n`.
fn count_ones(n: u64) -> (r: u64)
    ensures
        r == popcount(n as nat),
{
    let mut rest: u64 = n;
    let mut count: u64 = 0;
    proof {
        lemma_popcount_bound(n as nat);
    }
    while rest > 0
        invariant
            count + popcount(rest as nat) == popcount(n as nat),
            popcount(n as nat) <= n,
        decreases rest,
    {
        count = count + rest % 2;
        rest = rest / 2;
    }
    count
}

impl<H: CryptoHasher> Clone for InMemoryAccumulator<H> {
    fn clone(&self) -> (r: Self)
        ensures
            r.spec_frozen_subtree_roots() == self.spec_frozen_subtree_roots(),
            r.spec_num_leaves() == self.spec_num_leaves(),
    {
        proof {
            use_type_invariant(self);
        }
        InMemoryAccumulator {
            frozen_subtree_roots: slice_to_vec(self.frozen_subtree_roots.as_slice()),
            num_leaves: self.num_leaves,
            root_hash: self.root_hash,
            phantom: PhantomData,
        }
    }
}

impl<H: CryptoHasher> vstd::std_specs::cmp::PartialEqSpecImpl for InMemoryAccumulator<H> {
    open spec fn obeys_eq_spec() -> bool {
        true
    }

    open spec fn eq_spec(&self, other: &InMemoryAccumulator<H>) -> bool {
        self.spec_num_leaves() == other.spec_num_leaves() && self.spec_frozen_subtree_roots()
            == other.spec_frozen_subtree_roots()
    }
}

impl<H: CryptoHasher> PartialEq for InMemoryAccumulator<H> {
    fn eq(&self, other: &InMemoryAccumulator<H>) -> (r: bool) {
        proof {
            use_type_invariant(self);
            use_type_invariant(other);
        }
        self.num_leaves == other.num_leaves && self.root_hash == other.root_hash && same_hashes(
            &self.frozen_subtree_roots,
            &other.frozen_subtree_roots,
        )
    }
}

impl<H: CryptoHasher> Eq for InMemoryAccumulator<H> {
}

impl<H: CryptoHasher> InMemoryAccumulator<H> {
    /// The roots of the maximal frozen subtrees, from left to right.
    pub closed spec fn spec_frozen_subtree_roots(&self) -> Seq<HashValue> {
        self.frozen_subtree_roots@
    }

    /// The number of leaves.
    pub closed spec fn spec_num_leaves(&self) -> LeafCount {
        self.num_leaves
    }

    #[verifier::type_invariant]
    spec fn well_formed(&self) -> bool {
        &&& self.frozen_subtree_roots@.len() == popcount(self.num_leaves as nat)
        &&& self.root_hash == root_of_frozen::<H>(
            self.frozen_subtree_roots@,
            self.num_leaves as nat,
        )
    }

    /// The root hash.
    pub open spec fn spec_root_hash(&self) -> HashValue {
        root_of_frozen::<H>(self.spec_frozen_subtree_roots(), self.spec_num_leaves() as nat)
    }

    /// The version of the last leaf, or zero where there is none.
    pub open spec fn spec_version(&self) -> u64 {
        if self.spec_num_leaves() == 0 {
            0
        } else {
            (self.spec_num_leaves() - 1) as u64
        }
    }

    /// Whether this is the accumulator with exactly the given leaves.
    pub open spec fn represents(&self, leaves: Seq<HashValue>) -> bool {
        &&& leaves.len() == self.spec_num_leaves()
        &&& self.spec_frozen_subtree_roots() == frozen_roots::<H>(leaves)
    }

    /// Constructs a new accumulator with roots of existing frozen subtrees. Returns an error if the
    /// number of frozen subtree roots does not match the number of leaves.
    pub fn new(frozen_subtree_roots: Vec<HashValue>, num_leaves: LeafCount) -> (r: Result<
        Self,
        ProofError,
    >)
        ensures
            r is Ok <==> frozen_subtree_roots@.len() == popcount(num_leaves as nat),
            r matches Ok(accumulator) ==> accumulator.spec_frozen_subtree_roots()
                == frozen_subtree_roots@ && accumulator.spec_num_leaves() == num_leaves,
            r matches Err(e) ==> e == (ProofError::FrozenSubtreeCountMismatch {
                found: frozen_subtree_roots.len(),
                num_leaves,
            }),
    {
        if frozen_subtree_roots.len() as u64 != count_ones(num_leaves) {
            return Err(
                ProofError::FrozenSubtreeCountMismatch {
                    found: frozen_subtree_roots.len(),
                    num_leaves,
                },
            );
        }
        let root_hash: HashValue = Self::compute_root_hash(&frozen_subtree_roots, num_leaves);
        Ok(InMemoryAccumulator { frozen_subtree_roots, num_leaves, root_hash, phantom: PhantomData })
    }

    /// Computes the root hash of an accumulator given the frozen subtree roots and the number of
    /// leaves in this accumulator.
    fn compute_root_hash(frozen_subtree_roots: &Vec<HashValue>, num_leaves: LeafCount) -> (r:
        HashValue)
        requires
            frozen_subtree_roots@.len() == popcount(num_leaves as nat),
        ensures
            r == root_of_frozen::<H>(frozen_subtree_roots@, num_leaves as nat),
    {
        if num_leaves == 0 {
            return accumulator_placeholder_hash();
        }
        let ghost roots = frozen_subtree_roots@;
        // Trailing zeros do not matter: what lies below the lowest frozen subtree is already
        // represented by its root.
        let mut bitmap: u64 = num_leaves;
        while bitmap % 2 == 0
            invariant
                bitmap > 0,
                roots.len() == popcount(bitmap as nat),
                root_of_frozen::<H>(roots, bitmap as nat) == root_of_frozen::<H>(
                    roots,
                    num_leaves as nat,
                ),
            decreases bitmap,
        {
            bitmap = bitmap / 2;
        }
        if bitmap == 1 {
            assert(popcount(1) == 1 + popcount(0));
            return frozen_subtree_roots[0];
        }
        let mut remaining: usize = frozen_subtree_roots.len() - 1;
        let mut current_hash: HashValue = MerkleTreeInternalNode::<H>::new(
            frozen_subtree_roots[remaining],
            accumulator_placeholder_hash(),
        ).hash();
        bitmap = bitmap / 2;
        assert(roots.drop_last() =~= roots.take(remaining as int));
        while bitmap > 0
            invariant
                roots == frozen_subtree_roots@,
                remaining <= roots.len(),
                remaining == popcount(bitmap as nat),
                right_spine::<H>(roots.take(remaining as int), bitmap as nat, current_hash)
                    == root_of_frozen::<H>(roots, num_leaves as nat),
            decreases bitmap,
        {
            if bitmap % 2 == 1 {
                assert(roots.take(remaining as int).drop_last() =~= roots.take(remaining - 1));
                remaining = remaining - 1;
                current_hash = MerkleTreeInternalNode::<H>::new(
                    frozen_subtree_roots[remaining],
                    current_hash,
                ).hash();
            } else {
                current_hash = MerkleTreeInternalNode::<H>::new(
                    current_hash,
                    accumulator_placeholder_hash(),
                ).hash();
            }
            bitmap = bitmap / 2;
        }
        current_hash
    }

    /// Puts one more frozen node to the right of `num_existing` frozen nodes of the same level.
    /// This will update `frozen_subtree_roots` to store new frozen root nodes and remove old nodes
    /// if they are now part of a larger frozen subtree.
    fn append_one(
        frozen_subtree_roots: &mut Vec<HashValue>,
        num_existing: LeafCount,
        node: HashValue,
    )
        requires
            old(frozen_subtree_roots)@.len() == popcount(num_existing as nat),
        ensures
            final(frozen_subtree_roots)@ == absorb::<H>(
                old(frozen_subtree_roots)@,
                num_existing as nat,
                node,
            ),
            final(frozen_subtree_roots)@.len() == popcount(num_existing as nat + 1),
    {
        proof {
            lemma_absorb_len::<H>(frozen_subtree_roots@, num_existing as nat, node);
        }
        let mut current_hash: HashValue = node;
        let mut existing: u64 = num_existing;
        while existing % 2 == 1
            invariant
                frozen_subtree_roots@.len() == popcount(existing as nat),
                absorb::<H>(frozen_subtree_roots@, existing as nat, current_hash) == absorb::<H>(
                    old(frozen_subtree_roots)@,
                    num_existing as nat,
                    node,
                ),
            decreases existing,
        {
            let left_hash: HashValue = match frozen_subtree_roots.pop() {
                Some(hash) => hash,
                None => current_hash,
            };
            current_hash = MerkleTreeInternalNode::<H>::new(left_hash, current_hash).hash();
            existing = existing / 2;
        }
        frozen_subtree_roots.push(current_hash);
    }

    /// Appends a list of new leaves to an existing accumulator. Since the accumulator is immutable,
    /// the existing one remains unchanged and a new one representing the result is returned.
    pub fn append(&self, leaves: &[HashValue]) -> (r: Self)
        requires
            self.spec_num_leaves() + leaves@.len() <= u64::MAX,
        ensures
            r.spec_num_leaves() == self.spec_num_leaves() + leaves@.len(),
            r.spec_frozen_subtree_roots() == absorb_leaves::<H>(
                self.spec_frozen_subtree_roots(),
                self.spec_num_leaves() as nat,
                leaves@,
            ),
    {
        proof {
            use_type_invariant(self);
        }
        let mut frozen_subtree_roots: Vec<HashValue> = slice_to_vec(
            self.frozen_subtree_roots.as_slice(),
        );
        let mut num_leaves: u64 = self.num_leaves;
        let mut i: usize = 0;
        while i < leaves.len()
            invariant
                i <= leaves@.len(),
                num_leaves == self.num_leaves + i,
                self.num_leaves + leaves@.len() <= u64::MAX,
                frozen_subtree_roots@.len() == popcount(num_leaves as nat),
                frozen_subtree_roots@ == absorb_leaves::<H>(
                    self.frozen_subtree_roots@,
                    self.num_leaves as nat,
                    leaves@.take(i as int),
                ),
            decreases leaves@.len() - i,
        {
            Self::append_one(&mut frozen_subtree_roots, num_leaves, leaves[i]);
            assert(leaves@.take(i + 1).drop_last() =~= leaves@.take(i as int));
            num_leaves = num_leaves + 1;
            i = i + 1;
        }
        assert(leaves@.take(i as int) =~= leaves@);
        let root_hash: HashValue = Self::compute_root_hash(&frozen_subtree_roots, num_leaves);
        InMemoryAccumulator { frozen_subtree_roots, num_leaves, root_hash, phantom: PhantomData }
    }

    /// The frozen roots after `num_new_leaves` leaves that are represented by `subtrees` are
    /// appended, or what is wrong with `subtrees`.
    pub open spec fn spec_append_subtrees(
        &self,
        subtrees: Seq<HashValue>,
        num_new_leaves: LeafCount,
    ) -> Result<Seq<HashValue>, ProofError> {
        let num_leaves = self.spec_num_leaves();
        if num_new_leaves > MAX_ACCUMULATOR_LEAVES - num_leaves {
            Err(ProofError::TooManyNewLeaves { num_leaves, num_new_leaves })
        } else {
            match absorb_subtrees::<H>(
                self.spec_frozen_subtree_roots(),
                num_leaves as nat,
                subtrees,
                num_new_leaves as nat,
            ) {
                None => Err(ProofError::TooFewSubtrees),
                Some(roots) => if roots.len() == popcount((num_leaves + num_new_leaves) as nat) {
                    Ok(roots)
                } else {
                    Err(
                        ProofError::FrozenSubtreeCountMismatch {
                            found: roots.len() as usize,
                            num_leaves: (num_leaves + num_new_leaves) as u64,
                        },
                    )
                },
            }
        }
    }

    /// Appends a list of new subtrees to the existing accumulator. This is similar to `append`
    /// except that the new leaves themselves are not known and they are represented by `subtrees`.
    /// As an example, an accumulator that currently has 10 leaves has two frozen subtrees, of eight
    /// and of two leaves. Where seven new leaves `A` to `G` are appended to it, `subtrees[0]`
    /// represents `A` and `B`, which fill up the frozen subtree of two leaves, `subtrees[1]`
    /// represents `C`, `D`, `E` and `F`, and the last `subtrees[2]` represents `G`.
    pub fn append_subtrees(&self, subtrees: &[HashValue], num_new_leaves: LeafCount) -> (r: Result<
        Self,
        ProofError,
    >)
        requires
            self.spec_num_leaves() <= MAX_ACCUMULATOR_LEAVES,
        ensures
            match (r, self.spec_append_subtrees(subtrees@, num_new_leaves)) {
                (Ok(accumulator), Ok(roots)) => {
                    &&& accumulator.spec_frozen_subtree_roots() == roots
                    &&& accumulator.spec_num_leaves() == self.spec_num_leaves() + num_new_leaves
                },
                (Err(e), Err(expected)) => e == expected,
                _ => false,
            },
    {
        proof {
            use_type_invariant(self);
        }
        if num_new_leaves > MAX_ACCUMULATOR_LEAVES - self.num_leaves {
            return Err(
                ProofError::TooManyNewLeaves { num_leaves: self.num_leaves, num_new_leaves },
            );
        }
        let ghost outcome = absorb_subtrees::<H>(
            self.frozen_subtree_roots@,
            self.num_leaves as nat,
            subtrees@,
            num_new_leaves as nat,
        );
        let mut roots: Vec<HashValue> = slice_to_vec(self.frozen_subtree_roots.as_slice());
        let mut next: usize = 0;
        if self.num_leaves > 0 {
            // The number of leaves of the rightmost frozen subtree, and how many subtrees of that
            // size there are.
            let mut size: u64 = 1;
            let mut units: u64 = self.num_leaves;
            let mut remaining: u64 = num_new_leaves;
            assert(units * 1 == units);
            while units % 2 == 0
                invariant
                    units > 0,
                    units * size == self.num_leaves,
                    is_power_of_two(size as nat),
                    roots@.len() == popcount(units as nat),
                decreases units,
            {
                proof {
                    lemma_double_size(units as nat, size as nat);
                }
                units = units / 2;
                size = size * 2;
            }
            assert(subtrees@.skip(0) =~= subtrees@);
            while remaining >= size
                invariant
                    next <= subtrees@.len(),
                    units % 2 == 1,
                    is_power_of_two(size as nat),
                    units * size + remaining == self.num_leaves + num_new_leaves,
                    self.num_leaves + num_new_leaves <= MAX_ACCUMULATOR_LEAVES,
                    outcome == absorb_subtrees::<H>(
                        self.frozen_subtree_roots@,
                        self.num_leaves as nat,
                        subtrees@,
                        num_new_leaves as nat,
                    ),
                    roots@.len() == popcount(units as nat),
                    outcome == absorb_subtrees::<H>(
                        roots@,
                        (units * size) as nat,
                        subtrees@.skip(next as int),
                        remaining as nat,
                    ),
                decreases remaining,
            {
                proof {
                    lemma_low_bit_of_multiple(units as nat, size as nat);
                }
                if next >= subtrees.len() {
                    return Err(ProofError::TooFewSubtrees);
                }
                Self::append_one(&mut roots, units, subtrees[next]);
                assert(subtrees@.skip(next as int).skip(1) =~= subtrees@.skip(next + 1));
                assert((units + 1) * size == units * size + size) by (nonlinear_arith);
                assert(units * size >= units) by (nonlinear_arith)
                    requires
                        size >= 1,
                ;
                next = next + 1;
                remaining = remaining - size;
                units = units + 1;
                while units % 2 == 0
                    invariant
                        units > 0,
                        units * size <= MAX_ACCUMULATOR_LEAVES,
                        is_power_of_two(size as nat),
                        units * size + remaining == self.num_leaves + num_new_leaves,
                        roots@.len() == popcount(units as nat),
                        outcome == absorb_subtrees::<H>(
                            roots@,
                            (units * size) as nat,
                            subtrees@.skip(next as int),
                            remaining as nat,
                        ),
                    decreases units,
                {
                    proof {
                        lemma_double_size(units as nat, size as nat);
                    }
                    units = units / 2;
                    size = size * 2;
                }
            }
            proof {
                lemma_low_bit_of_multiple(units as nat, size as nat);
            }
        } else {
            assert(subtrees@.skip(0) =~= subtrees@);
        }
        // Now all the new subtrees are smaller than the rightmost frozen subtree. We just append
        // all of them. If their number does not match the number of new leaves, `new` below
        // returns an error.
        assert(outcome == Some(roots@ + subtrees@.skip(next as int)));
        let ghost prefix = roots@;
        let mut rest: Vec<HashValue> = slice_to_vec(
            slice_subrange(subtrees, next, subtrees.len()),
        );
        roots.append(&mut rest);
        assert(roots@ =~= prefix + subtrees@.skip(next as int));
        Self::new(roots, self.num_leaves + num_new_leaves)
    }

    /// Returns the root hash of the accumulator.
    pub fn root_hash(&self) -> (r: HashValue)
        ensures
            r == self.spec_root_hash(),
    {
        proof {
            use_type_invariant(self);
        }
        self.root_hash
    }

    /// Returns the version of the last leaf, or zero where there is none.
    pub fn version(&self) -> (r: u64)
        ensures
            r == self.spec_version(),
    {
        if self.num_leaves == 0 {
            0
        } else {
            self.num_leaves - 1
        }
    }

    /// Returns the set of frozen subtree roots in this accumulator.
    pub fn frozen_subtree_roots(&self) -> (r: &Vec<HashValue>)
        ensures
            r@ == self.spec_frozen_subtree_roots(),
    {
        &self.frozen_subtree_roots
    }

    /// Returns the total number of leaves in this accumulator.
    pub fn num_leaves(&self) -> (r: LeafCount)
        ensures
            r == self.spec_num_leaves(),
    {
        self.num_leaves
    }

    /// Whether the accumulator has no leaves.
    pub fn is_empty(&self) -> (r: bool)
        ensures
            r == (self.spec_num_leaves() == 0),
    {
        self.num_leaves == 0
    }
}

} // verus!
