//! Why the database refuses a request.

use vstd::prelude::*;
use crate::crypto::hash::HashValue;

verus! {

/// The reason for which a request is refused, or for which what is stored cannot answer it.
#[derive(Clone, Copy, Debug, PartialEq, Eq)]
pub enum AptosDbError {
    /// More items are requested than allowed: the number requested and the maximum.
    TooManyRequested(u64, u64),
    /// A page of no items is requested.
    ZeroLimit,
    /// The range of epochs ends before it starts.
    BadEpochRange { start_epoch: u64, end_epoch: u64 },
    /// The range of epochs reaches into an epoch that is still open.
    EpochStillOpen { end_epoch: u64, last_sealed_epoch: u64 },
    /// What is stored has no ledger info for the end of the epoch.
    MissingEpochEnding { epoch: u64 },
    /// The client knows a newer version than that of the ledger info.
    KnownVersionTooNew { known_version: u64, ledger_version: u64 },
    /// The queried version is newer than the version of the ledger.
    QueriedVersionTooNew { version: u64, ledger_version: u64 },
    /// The version of the ledger is newer than what is committed.
    LedgerVersionTooNew { ledger_version: u64, latest_version: u64 },
    /// There are no proofs yet for the version.
    ProofVersionTooNew { proof_version: u64, latest_version: u64 },
    /// The version of the event is newer than the version of its proof.
    EventVersionTooNew { event_version: u64, proof_version: u64 },
    /// The event index points to an event with another sequence number.
    EventIndexBroken { indexed: u64, stored: u64 },
    /// There are neither transactions nor a ledger info to save.
    EmptyBatch,
    /// The transactions do not end at the version of the ledger info.
    BatchNotApplicable { first_version: u64, num_txns: u64, last_version: u64 },
    /// The transactions lead to another root hash than that of the ledger info.
    RootHashMismatch { actual: HashValue, expected: HashValue },
    /// There is not exactly one transaction output.
    WrongOutputCount { found: usize },
    /// There is not exactly one transaction info.
    WrongInfoCount { found: usize },
    /// Pruning is asked for while opening for reading only.
    PruneWhenReadonly,
}

} // verus!
