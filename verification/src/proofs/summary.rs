//! Summaries of the transaction accumulator and the proofs that extend them.

use vstd::prelude::*;
use vstd::slice::slice_to_vec;
use core::marker::PhantomData;
use crate::crypto::hash::{CryptoHasher, HashValue, TransactionAccumulatorHasher};
use crate::ledger::{LedgerInfo, Version};
use crate::proofs::accumulator::{InMemoryAccumulator, LeafCount, MAX_ACCUMULATOR_LEAVES};
use crate::proofs::accumulator_proof::same_hashes;
use crate::proofs::error::ProofError;
use crate::proofs::merkle::{absorb_leaves, popcount, root_of_frozen};

verus! {

/// A proof that can be used to show that two Merkle accumulators are consistent -- the big one can
/// be obtained by appending certain leaves to the small one. For example, at some point in time a
/// client knows that the root hash of the ledger at version 10 is `old_root` (it could be a
/// waypoint). If a server wants to prove that the new ledger at version `N` is derived from the
/// old ledger the client knows, it can show the subtrees that represent all the new leaves. If
/// the client can verify that it can indeed obtain the new root hash by appending these new
/// leaves, it can be convinced that the two accumulators are consistent.
///
/// See [`InMemoryAccumulator::append_subtrees`] for more details.
#[derive(Debug)]
pub struct AccumulatorConsistencyProof {
    /// The subtrees representing the newly appended leaves.
    subtrees: Vec<HashValue>,
}

impl View for AccumulatorConsistencyProof {
    type V = Seq<HashValue>;

    /// The subtrees, from left to right.
    closed spec fn view(&self) -> Seq<HashValue> {
        self.subtrees@
    }
}

impl Clone for AccumulatorConsistencyProof {
    fn clone(&self) -> (r: Self)
        ensures
            r@ == self@,
    {
        AccumulatorConsistencyProof { subtrees: slice_to_vec(self.subtrees.as_slice()) }
    }
}

impl vstd::std_specs::cmp::PartialEqSpecImpl for AccumulatorConsistencyProof {
    open spec fn obeys_eq_spec() -> bool {
        true
    }

    open spec fn eq_spec(&self, other: &AccumulatorConsistencyProof) -> bool {
        self@ == other@
    }
}

impl PartialEq for AccumulatorConsistencyProof {
    fn eq(&self, other: &AccumulatorConsistencyProof) -> (r: bool) {
        same_hashes(&self.subtrees, &other.subtrees)
    }
}

impl Eq for AccumulatorConsistencyProof {
}

impl AccumulatorConsistencyProof {
    /// Constructs a new `AccumulatorConsistencyProof` using given `subtrees`.
    pub fn new(subtrees: Vec<HashValue>) -> (r: Self)
        ensures
            r@ == subtrees@,
    {
        AccumulatorConsistencyProof { subtrees }
    }

    /// Whether there are no subtrees.
    pub fn is_empty(&self) -> (r: bool)
        ensures
            r == (self@.len() == 0),
    {
        self.subtrees.is_empty()
    }

    /// Returns the subtrees.
    pub fn subtrees(&self) -> (r: &[HashValue])
        ensures
            r@ == self@,
    {
        self.subtrees.as_slice()
    }

    /// Gives up the subtrees.
    pub fn into_subtrees(self) -> (r: Vec<HashValue>)
        ensures
            r@ == self@,
    {
        self.subtrees
    }
}

/// An in-memory accumulator for storing a summary of the core transaction info
/// accumulator. It is a summary in the sense that it only stores maximally
/// frozen subtree nodes rather than storing all leaves and internal nodes.
///
/// Light clients and light nodes use this type to store their currently verified
/// view of the transaction accumulator. When verifying state proofs, these clients
/// attempt to extend their accumulator summary with an [`AccumulatorConsistencyProof`]
/// to verifiably ratchet their trusted view of the accumulator to a newer state.
#[derive(Debug)]
pub struct TransactionAccumulatorSummary(InMemoryAccumulator<TransactionAccumulatorHasher>);

impl Clone for TransactionAccumulatorSummary {
    fn clone(&self) -> (r: Self)
        ensures
            r.accumulator().spec_frozen_subtree_roots()
                == self.accumulator().spec_frozen_subtree_roots(),
            r.accumulator().spec_num_leaves() == self.accumulator().spec_num_leaves(),
    {
        proof {
            use_type_invariant(self);
        }
        TransactionAccumulatorSummary(self.0.clone())
    }
}

impl vstd::std_specs::cmp::PartialEqSpecImpl for TransactionAccumulatorSummary {
    open spec fn obeys_eq_spec() -> bool {
        true
    }

    open spec fn eq_spec(&self, other: &TransactionAccumulatorSummary) -> bool {
        self.accumulator().spec_num_leaves() == other.accumulator().spec_num_leaves()
            && self.accumulator().spec_frozen_subtree_roots()
            == other.accumulator().spec_frozen_subtree_roots()
    }
}

impl PartialEq for TransactionAccumulatorSummary {
    fn eq(&self, other: &TransactionAccumulatorSummary) -> (r: bool) {
        self.0 == other.0
    }
}

impl Eq for TransactionAccumulatorSummary {
}

impl TransactionAccumulatorSummary {
    /// The accumulator.
    pub closed spec fn accumulator(&self) -> InMemoryAccumulator<TransactionAccumulatorHasher> {
        self.0
    }

    #[verifier::type_invariant]
    spec fn well_formed(&self) -> bool {
        self.0.spec_num_leaves() > 0
    }

    /// Constructs a summary from an accumulator that is not empty.
    pub fn new(accumulator: InMemoryAccumulator<TransactionAccumulatorHasher>) -> (r: Result<
        Self,
        ProofError,
    >)
        ensures
            r is Ok <==> accumulator.spec_num_leaves() > 0,
            r matches Ok(summary) ==> summary.accumulator() == accumulator,
            r matches Err(e) ==> e == ProofError::EmptyAccumulator,
    {
        if accumulator.is_empty() {
            return Err(ProofError::EmptyAccumulator);
        }
        Ok(TransactionAccumulatorSummary(accumulator))
    }

    /// Returns the accumulator.
    pub fn as_accumulator(&self) -> (r: &InMemoryAccumulator<TransactionAccumulatorHasher>)
        ensures
            *r == self.accumulator(),
    {
        &self.0
    }

    /// Returns the version of the last transaction.
    pub fn version(&self) -> (r: Version)
        ensures
            r == self.accumulator().spec_version(),
            r == self.accumulator().spec_num_leaves() - 1,
    {
        proof {
            use_type_invariant(self);
        }
        self.0.version()
    }

    /// Returns the root hash of the accumulator.
    pub fn root_hash(&self) -> (r: HashValue)
        ensures
            r == self.accumulator().spec_root_hash(),
    {
        self.0.root_hash()
    }

    /// What comparing the accumulator with a ledger info gives.
    pub open spec fn spec_verify_consistency(&self, ledger_info: LedgerInfo) -> Result<
        (),
        ProofError,
    > {
        let version = self.accumulator().spec_version();
        let root_hash = self.accumulator().spec_root_hash();
        if ledger_info.version != version {
            Err(
                ProofError::LedgerVersionMismatch {
                    ledger_info_version: ledger_info.version,
                    accumulator_version: version,
                },
            )
        } else if ledger_info.transaction_accumulator_hash != root_hash {
            Err(
                ProofError::LedgerRootHashMismatch {
                    ledger_info_root: ledger_info.transaction_accumulator_hash,
                    accumulator_root: root_hash,
                },
            )
        } else {
            Ok(())
        }
    }

    /// Verify that this accumulator summary is "consistent" with the given
    /// [`LedgerInfo`], i.e., they both have the same version and accumulator
    /// root hash.
    pub fn verify_consistency(&self, ledger_info: &LedgerInfo) -> (r: Result<(), ProofError>)
        ensures
            r == self.spec_verify_consistency(*ledger_info),
    {
        if ledger_info.version() != self.version() {
            return Err(
                ProofError::LedgerVersionMismatch {
                    ledger_info_version: ledger_info.version(),
                    accumulator_version: self.version(),
                },
            );
        }
        if ledger_info.transaction_accumulator_hash() != self.root_hash() {
            return Err(
                ProofError::LedgerRootHashMismatch {
                    ledger_info_root: ledger_info.transaction_accumulator_hash(),
                    accumulator_root: self.root_hash(),
                },
            );
        }
        Ok(())
    }

    /// Try to build an accumulator summary using a consistency proof starting
    /// from pre-genesis.
    pub fn try_from_genesis_proof(
        genesis_proof: AccumulatorConsistencyProof,
        target_version: Version,
    ) -> (r: Result<Self, ProofError>)
        ensures
            ({
                let num_txns = if target_version == u64::MAX {
                    u64::MAX
                } else {
                    (target_version + 1) as u64
                };
                &&& r is Ok <==> genesis_proof@.len() == popcount(num_txns as nat)
                &&& r matches Ok(summary) ==> {
                    &&& summary.accumulator().spec_frozen_subtree_roots() == genesis_proof@
                    &&& summary.accumulator().spec_num_leaves() == num_txns
                }
                &&& r matches Err(e) ==> e == (ProofError::FrozenSubtreeCountMismatch {
                    found: genesis_proof@.len() as usize,
                    num_leaves: num_txns,
                })
            }),
    {
        let num_txns: u64 = target_version.saturating_add(1);
        match InMemoryAccumulator::new(genesis_proof.into_subtrees(), num_txns) {
            Ok(accumulator) => Ok(TransactionAccumulatorSummary(accumulator)),
            Err(e) => Err(e),
        }
    }

    /// The frozen subtree roots of the accumulator at the target version, or the reason for which
    /// the summary cannot be extended to it.
    pub open spec fn spec_try_extend_with_proof(
        &self,
        subtrees: Seq<HashValue>,
        target_li: LedgerInfo,
    ) -> Result<Seq<HashValue>, ProofError> {
        let current = self.accumulator().spec_version();
        if target_li.version < current {
            Err(
                ProofError::TargetTooOld {
                    target_version: target_li.version,
                    current_version: current,
                },
            )
        } else {
            match self.accumulator().spec_append_subtrees(
                subtrees,
                (target_li.version - current) as u64,
            ) {
                Err(e) => Err(e),
                Ok(roots) => {
                    let root_hash = root_of_frozen::<TransactionAccumulatorHasher>(
                        roots,
                        target_li.version as nat + 1,
                    );
                    if target_li.transaction_accumulator_hash != root_hash {
                        Err(
                            ProofError::LedgerRootHashMismatch {
                                ledger_info_root: target_li.transaction_accumulator_hash,
                                accumulator_root: root_hash,
                            },
                        )
                    } else {
                        Ok(roots)
                    }
                },
            }
        }
    }

    /// Try to extend an existing accumulator summary with a consistency proof
    /// starting from our current version. Then validate that the resulting
    /// accumulator summary is consistent with the given target [`LedgerInfo`].
    pub fn try_extend_with_proof(
        &self,
        consistency_proof: &AccumulatorConsistencyProof,
        target_li: &LedgerInfo,
    ) -> (r: Result<Self, ProofError>)
        requires
            target_li.version >= self.accumulator().spec_version()
                ==> self.accumulator().spec_num_leaves() <= MAX_ACCUMULATOR_LEAVES,
        ensures
            match (r, self.spec_try_extend_with_proof(consistency_proof@, *target_li)) {
                (Ok(summary), Ok(roots)) => {
                    &&& summary.accumulator().spec_frozen_subtree_roots() == roots
                    &&& summary.accumulator().spec_num_leaves() == target_li.version + 1
                },
                (Err(e), Err(expected)) => e == expected,
                _ => false,
            },
    {
        proof {
            use_type_invariant(self);
        }
        if target_li.version() < self.0.version() {
            return Err(
                ProofError::TargetTooOld {
                    target_version: target_li.version(),
                    current_version: self.0.version(),
                },
            );
        }
        let num_new_txns: u64 = target_li.version() - self.0.version();
        let new_accumulator: TransactionAccumulatorSummary = match self.0.append_subtrees(
            consistency_proof.subtrees(),
            num_new_txns,
        ) {
            Ok(accumulator) => TransactionAccumulatorSummary(accumulator),
            Err(e) => {
                return Err(e);
            },
        };
        match new_accumulator.verify_consistency(target_li) {
            Ok(_) => Ok(new_accumulator),
            Err(e) => Err(e),
        }
    }
}

/// A proof that first verifies that establishes correct computation of the root and then
/// returns the new tree to acquire a new root and version.
#[derive(Debug)]
pub struct AccumulatorExtensionProof<H> {
    /// Represents the roots of all the full subtrees from left to right in the original
    /// accumulator.
    frozen_subtree_roots: Vec<HashValue>,
    /// The total number of leaves in original accumulator.
    num_leaves: LeafCount,
    /// The values representing the newly appended leaves.
    leaves: Vec<HashValue>,
    hasher: PhantomData<H>,
}

impl<H: CryptoHasher> Clone for AccumulatorExtensionProof<H> {
    fn clone(&self) -> (r: Self)
        ensures
            r.spec_frozen_subtree_roots() == self.spec_frozen_subtree_roots(),
            r.spec_num_leaves() == self.spec_num_leaves(),
            r.spec_leaves() == self.spec_leaves(),
    {
        AccumulatorExtensionProof {
            frozen_subtree_roots: slice_to_vec(self.frozen_subtree_roots.as_slice()),
            num_leaves: self.num_leaves,
            leaves: slice_to_vec(self.leaves.as_slice()),
            hasher: PhantomData,
        }
    }
}

impl<H: CryptoHasher> vstd::std_specs::cmp::PartialEqSpecImpl for AccumulatorExtensionProof<H> {
    open spec fn obeys_eq_spec() -> bool {
        true
    }

    open spec fn eq_spec(&self, other: &AccumulatorExtensionProof<H>) -> bool {
        self.spec_frozen_subtree_roots() == other.spec_frozen_subtree_roots()
            && self.spec_num_leaves() == other.spec_num_leaves() && self.spec_leaves()
            == other.spec_leaves()
    }
}

impl<H: CryptoHasher> PartialEq for AccumulatorExtensionProof<H> {
    fn eq(&self, other: &AccumulatorExtensionProof<H>) -> (r: bool) {
        self.num_leaves == other.num_leaves && same_hashes(
            &self.frozen_subtree_roots,
            &other.frozen_subtree_roots,
        ) && same_hashes(&self.leaves, &other.leaves)
    }
}

impl<H: CryptoHasher> Eq for AccumulatorExtensionProof<H> {
}

impl<H: CryptoHasher> AccumulatorExtensionProof<H> {
    /// The frozen subtree roots of the original accumulator.
    pub closed spec fn spec_frozen_subtree_roots(&self) -> Seq<HashValue> {
        self.frozen_subtree_roots@
    }

    /// The number of leaves of the original accumulator.
    pub closed spec fn spec_num_leaves(&self) -> LeafCount {
        self.num_leaves
    }

    /// The new leaves.
    pub closed spec fn spec_leaves(&self) -> Seq<HashValue> {
        self.leaves@
    }

    /// The frozen subtree roots of the extended accumulator, or what is wrong with the proof.
    pub open spec fn spec_verify(&self, original_root: HashValue) -> Result<
        Seq<HashValue>,
        ProofError,
    > {
        let roots = self.spec_frozen_subtree_roots();
        let num_leaves = self.spec_num_leaves();
        let actual = root_of_frozen::<H>(roots, num_leaves as nat);
        if roots.len() != popcount(num_leaves as nat) {
            Err(ProofError::FrozenSubtreeCountMismatch { found: roots.len() as usize, num_leaves })
        } else if actual != original_root {
            Err(ProofError::RootHashMismatch { actual, expected: original_root })
        } else {
            Ok(absorb_leaves::<H>(roots, num_leaves as nat, self.spec_leaves()))
        }
    }

    /// Constructs a new `AccumulatorExtensionProof`.
    pub fn new(
        frozen_subtree_roots: Vec<HashValue>,
        num_leaves: LeafCount,
        leaves: Vec<HashValue>,
    ) -> (r: Self)
        ensures
            r.spec_frozen_subtree_roots() == frozen_subtree_roots@,
            r.spec_num_leaves() == num_leaves,
            r.spec_leaves() == leaves@,
    {
        AccumulatorExtensionProof { frozen_subtree_roots, num_leaves, leaves, hasher: PhantomData }
    }

    /// Returns the frozen subtree roots of the original accumulator.
    pub fn frozen_subtree_roots(&self) -> (r: &[HashValue])
        ensures
            r@ == self.spec_frozen_subtree_roots(),
    {
        self.frozen_subtree_roots.as_slice()
    }

    /// Returns the number of leaves of the original accumulator.
    pub fn num_leaves(&self) -> (r: LeafCount)
        ensures
            r == self.spec_num_leaves(),
    {
        self.num_leaves
    }

    /// Returns the new leaves.
    pub fn leaves(&self) -> (r: &[HashValue])
        ensures
            r@ == self.spec_leaves(),
    {
        self.leaves.as_slice()
    }

    /// Verifies that the original accumulator has the given root hash, and returns it with the new
    /// leaves appended.
    pub fn verify(&self, original_root: HashValue) -> (r: Result<
        InMemoryAccumulator<H>,
        ProofError,
    >)
        requires
            self.spec_verify(original_root) is Ok ==> self.spec_num_leaves()
                + self.spec_leaves().len() <= u64::MAX,
        ensures
            match (r, self.spec_verify(original_root)) {
                (Ok(accumulator), Ok(roots)) => {
                    &&& accumulator.spec_frozen_subtree_roots() == roots
                    &&& accumulator.spec_num_leaves() == self.spec_num_leaves()
                        + self.spec_leaves().len()
                },
                (Err(e), Err(expected)) => e == expected,
                _ => false,
            },
    {
        let original_tree: InMemoryAccumulator<H> = match InMemoryAccumulator::new(
            slice_to_vec(self.frozen_subtree_roots.as_slice()),
            self.num_leaves,
        ) {
            Ok(accumulator) => accumulator,
            Err(e) => {
                return Err(e);
            },
        };
        if original_tree.root_hash() != original_root {
            return Err(
                ProofError::RootHashMismatch {
                    actual: original_tree.root_hash(),
                    expected: original_root,
                },
            );
        }
        Ok(original_tree.append(self.leaves.as_slice()))
    }
}

} // verus!
