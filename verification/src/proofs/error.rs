//! What can be wrong with a proof.

use vstd::prelude::*;
use crate::crypto::hash::HashValue;

verus! {

/// The reason for which a proof is rejected.
#[derive(Clone, Copy, Debug, PartialEq, Eq)]
pub enum ProofError {
    /// The proof has more siblings than the tree can have levels.
    TooManySiblings { max: usize, found: usize },
    /// The range proof has more left siblings than the tree can have levels.
    TooManyLeftSiblings { max: usize, found: usize },
    /// The range proof has more right siblings than the tree can have levels.
    TooManyRightSiblings { max: usize, found: usize },
    /// The proof leads to another root hash than the trusted one.
    RootHashMismatch { actual: HashValue, expected: HashValue },
    /// The proof is about another key.
    KeyMismatch { in_proof: HashValue, expected: HashValue },
    /// The proof is about another value.
    ValueHashMismatch { in_proof: HashValue, expected: HashValue },
    /// Expected an inclusion proof, found a non-inclusion proof.
    ExpectedInclusionProof,
    /// Expected a non-inclusion proof, but the key exists in the proof.
    KeyExistsInProof,
    /// The key would not have ended up in the subtree where the key in the proof is the only
    /// existing one.
    KeyNotInSubtree,
    /// A left sibling is missing from the sparse Merkle range proof.
    MissingSparseLeftSibling,
    /// A right sibling is missing from the sparse Merkle range proof.
    MissingSparseRightSibling,
    /// The first child is a right child, but there is no sibling on the left.
    MissingLeftSibling,
    /// The last child is a left child, but there is no sibling on the right.
    MissingRightSibling,
    /// There is no first leaf index, but there are leaves.
    LeavesWithoutFirstIndex,
    /// There is no first leaf index, but there are siblings.
    SiblingsWithoutLeaves,
    /// There is a first leaf index, but there are no leaves.
    NoLeaves,
    /// The number of frozen subtrees does not match the number of leaves.
    FrozenSubtreeCountMismatch { found: usize, num_leaves: u64 },
    /// The accumulator has no room for so many new leaves.
    TooManyNewLeaves { num_leaves: u64, num_new_leaves: u64 },
    /// The new leaves need more subtrees.
    TooFewSubtrees,
    /// Consistency proofs cannot be verified from an empty accumulator.
    EmptyAccumulator,
    /// The ledger info and the accumulator are at different versions.
    LedgerVersionMismatch { ledger_info_version: u64, accumulator_version: u64 },
    /// The ledger info and the accumulator have different root hashes.
    LedgerRootHashMismatch { ledger_info_root: HashValue, accumulator_root: HashValue },
    /// The target ledger info is older than the accumulator summary.
    TargetTooOld { target_version: u64, current_version: u64 },
    /// The transaction is newer than the ledger info.
    TransactionTooNew { transaction_version: u64, ledger_version: u64 },
    /// The transaction info has no state checkpoint hash.
    MissingStateCheckpointHash,
    /// The transaction list starts after the end of the ledger.
    TransactionListTooNew { expected_version: u64, first_version: u64 },
    /// The transactions that overlap with the ledger are not those of the ledger.
    Fork,
    /// There is no first version, but there are transactions.
    TransactionsWithoutFirstVersion,
}

} // verus!
