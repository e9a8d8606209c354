//! State values, and the state of the trees at some version.

use vstd::prelude::*;
use crate::crypto::hash::{
    sparse_merkle_placeholder_hash, spec_sparse_merkle_placeholder, HashValue,
};
use crate::ledger::{StateValue, Version};
use crate::proofs::accumulator::LeafCount;
use crate::proofs::sparse::SparseMerkleProof;
use crate::proofs::transaction::{StateStoreValueProof, TransactionInfoWithProof};
use crate::storage::error::AptosDbError;

verus! {

/// The value under a key at some version, if there is one, and its proof.
#[derive(Debug, PartialEq, Eq)]
pub struct StateValueWithProof {
    pub version: Version,
    pub value: Option<StateValue>,
    pub proof: StateStoreValueProof,
}

impl StateValueWithProof {
    /// Puts together what was read for a query.
    pub fn for_version(
        version: Version,
        value: Option<StateValue>,
        txn_info_with_proof: TransactionInfoWithProof,
        sparse_merkle_proof: SparseMerkleProof,
    ) -> (r: Self)
        ensures
            r.version == version,
            r.value == value,
            r.proof.spec_transaction_info_with_proof() == txn_info_with_proof,
            r.proof.spec_value_proof() == sparse_merkle_proof,
    {
        let proof_of_value: StateStoreValueProof = StateStoreValueProof::new(
            txn_info_with_proof,
            sparse_merkle_proof,
        );
        StateValueWithProof { version, value, proof: proof_of_value }
    }
}

/// Refuses a query for a version that is newer than the version of the ledger.
pub fn check_queried_version(version: Version, ledger_version: Version) -> (r: Result<
    (),
    AptosDbError,
>)
    ensures
        r == if version > ledger_version {
            Err::<(), AptosDbError>(AptosDbError::QueriedVersionTooNew { version, ledger_version })
        } else {
            Ok(())
        },
{
    if version > ledger_version {
        return Err(AptosDbError::QueriedVersionTooNew { version, ledger_version });
    }
    Ok(())
}

/// Refuses a query against a version of the ledger that is newer than what is committed.
pub fn check_ledger_version(ledger_version: Version, latest_version: Version) -> (r: Result<
    (),
    AptosDbError,
>)
    ensures
        r == if ledger_version > latest_version {
            Err::<(), AptosDbError>(
                AptosDbError::LedgerVersionTooNew { ledger_version, latest_version },
            )
        } else {
            Ok(())
        },
{
    if ledger_version > latest_version {
        return Err(AptosDbError::LedgerVersionTooNew { ledger_version, latest_version });
    }
    Ok(())
}

/// The number of transactions up to a version, or before the first one.
pub open spec fn spec_num_transactions(version: Option<Version>) -> int {
    match version {
        Some(version) => version + 1,
        None => 0,
    }
}

/// Returns the number of transactions up to a version, or before the first one.
pub fn num_transactions(version: Option<Version>) -> (r: LeafCount)
    requires
        spec_num_transactions(version) <= u64::MAX,
    ensures
        r == spec_num_transactions(version),
{
    match version {
        Some(version) => version + 1,
        None => 0,
    }
}

/// The state of the transaction accumulator after some transactions, and of the state tree at the
/// latest checkpoint up to there.
#[derive(Debug, PartialEq, Eq)]
pub struct TreeState {
    pub num_transactions: LeafCount,
    pub ledger_frozen_subtree_hashes: Vec<HashValue>,
    pub state_checkpoint_hash: HashValue,
    pub state_checkpoint_version: Option<Version>,
}

impl TreeState {
    /// Puts together what was read. Before the first checkpoint, the state tree is empty.
    pub fn at_checkpoint(
        num_transactions: LeafCount,
        ledger_frozen_subtree_hashes: Vec<HashValue>,
        checkpoint: Option<(Version, HashValue)>,
    ) -> (r: Self)
        ensures
            r.num_transactions == num_transactions,
            r.ledger_frozen_subtree_hashes == ledger_frozen_subtree_hashes,
            checkpoint matches Some((version, root_hash)) ==> r.state_checkpoint_version == Some(
                version,
            ) && r.state_checkpoint_hash == root_hash,
            checkpoint is None ==> r.state_checkpoint_version is None && r.state_checkpoint_hash
                == spec_sparse_merkle_placeholder(),
    {
        match checkpoint {
            Some((version, root_hash)) => TreeState {
                num_transactions,
                ledger_frozen_subtree_hashes,
                state_checkpoint_hash: root_hash,
                state_checkpoint_version: Some(version),
            },
            None => TreeState {
                num_transactions,
                ledger_frozen_subtree_hashes,
                state_checkpoint_hash: sparse_merkle_placeholder_hash(),
                state_checkpoint_version: None,
            },
        }
    }
}

} // verus!
