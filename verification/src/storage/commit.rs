//! Saving transactions.
//!
//! What is written is decided in two steps. `prepare_save` refuses a batch that cannot be applied,
//! and otherwise says what to gather in a change set. Gathering it gives the root hash of the
//! transaction accumulator. With that, `conclude_save` refuses a batch that does not lead to the
//! expected root hash, and otherwise says how to commit the change set and what to do after that.

use vstd::prelude::*;
use crate::crypto::hash::{HashValue, TransactionAccumulatorHasher};
use crate::ledger::{LedgerInfo, StateValue, TransactionInfo, Version};
use crate::proofs::accumulator::MAX_ACCUMULATOR_LEAVES;
use crate::proofs::authentication::is_ledger;
use crate::proofs::merkle::accumulator_root;
use crate::proofs::transaction::transaction_info_hashes;
use crate::storage::error::AptosDbError;
use crate::storage::events::ContractEvent;
use crate::storage::transactions::{Transaction, WriteSet};

verus! {

/// A transaction to save, with what it did.
#[derive(Debug, PartialEq, Eq)]
pub struct TransactionToCommit {
    pub transaction: Transaction,
    pub transaction_info: TransactionInfo,
    /// The state values that are updated, by the hashes of their keys. Only the transactions that
    /// are state checkpoints have any.
    pub state_updates: Vec<(HashValue, StateValue)>,
    /// The hashes of the new nodes of the state tree, by their encoded paths, where they are known.
    pub jf_node_hashes: Option<Vec<(Vec<u8>, HashValue)>>,
    pub write_set: WriteSet,
    pub events: Vec<ContractEvent>,
}

/// One step of saving transactions. A transaction is named by its index in the batch.
#[derive(Clone, Copy, Debug, PartialEq, Eq)]
pub enum SaveAction {
    /// Put the new nodes of the state trees, with the node hashes if they are known for all
    /// transactions.
    MerklizeValueSets { first_version: Version, with_node_hashes: bool },
    /// Put the updated state values.
    PutValueSets { first_version: Version },
    /// Put the events of a transaction.
    PutEvents { version: Version, index: usize },
    /// Put a transaction.
    PutTransaction { version: Version, index: usize },
    /// Put the write set of a transaction.
    PutWriteSet { version: Version, index: usize },
    /// Put the transaction infos, which gives the new root hash.
    PutTransactionInfos { first_version: Version },
    /// Put the ledger info.
    PutLedgerInfo,
    /// Add to the ledger counters.
    BumpLedgerCounters { first_version: Version, last_version: Version },
    /// Write all that was put, at once.
    Commit,
    /// Remember the latest state checkpoint.
    SetLatestStateCheckpoint { version: Version },
    /// Report the transactions that were committed.
    ReportCommitted { num_txns: u64, last_version: Version },
    /// Let the pruner look at the new version.
    WakePruner { version: Version },
    /// Remember the latest ledger info.
    SetLatestLedgerInfo,
    /// Report the latest ledger info.
    ReportLedgerInfo { version: Version, next_block_epoch: u64 },
}

impl SaveAction {
    /// Whether the action only gathers something in the change set.
    pub open spec fn gathers(self) -> bool {
        match self {
            SaveAction::MerklizeValueSets { .. } => true,
            SaveAction::PutValueSets { .. } => true,
            SaveAction::PutEvents { .. } => true,
            SaveAction::PutTransaction { .. } => true,
            SaveAction::PutWriteSet { .. } => true,
            SaveAction::PutTransactionInfos { .. } => true,
            SaveAction::PutLedgerInfo => true,
            SaveAction::BumpLedgerCounters { .. } => true,
            _ => false,
        }
    }
}

/// Whether the versions of the batch, and the version after the ledger info, are numbers of 64 bits.
pub open spec fn batch_fits(
    num_txns: nat,
    first_version: Version,
    ledger_info: Option<LedgerInfo>,
) -> bool {
    &&& first_version + num_txns <= u64::MAX
    &&& ledger_info matches Some(info) ==> info.version < u64::MAX
}

/// What is wrong with a batch, if anything. Without a ledger info, as in state synchronization,
/// there must be transactions; with one, the batch must end at its version.
pub open spec fn spec_check_batch(
    num_txns: nat,
    first_version: Version,
    ledger_info: Option<LedgerInfo>,
) -> Result<(), AptosDbError> {
    match ledger_info {
        None => if num_txns == 0 {
            Err(AptosDbError::EmptyBatch)
        } else {
            Ok(())
        },
        Some(info) => if info.version + 1 != first_version + num_txns {
            Err(
                AptosDbError::BatchNotApplicable {
                    first_version,
                    num_txns: num_txns as u64,
                    last_version: info.version,
                },
            )
        } else {
            Ok(())
        },
    }
}

/// Refuses a batch that cannot be applied.
pub fn check_batch(num_txns: u64, first_version: Version, ledger_info: Option<&LedgerInfo>) -> (r:
    Result<(), AptosDbError>)
    requires
        batch_fits(num_txns as nat, first_version, deref(ledger_info)),
    ensures
        r == spec_check_batch(num_txns as nat, first_version, deref(ledger_info)),
{
    match ledger_info {
        // There is no ledger info if we are doing state synchronization. In this case there should
        // be transactions. Otherwise it is okay to commit empty blocks.
        None => {
            if num_txns == 0 {
                return Err(AptosDbError::EmptyBatch);
            }
        },
        Some(info) => {
            let claimed_last_version: Version = info.version();
            if claimed_last_version + 1 != first_version + num_txns {
                return Err(
                    AptosDbError::BatchNotApplicable {
                        first_version,
                        num_txns,
                        last_version: claimed_last_version,
                    },
                );
            }
        },
    }
    Ok(())
}

/// What an optional reference refers to.
pub open spec fn deref<T>(value: Option<&T>) -> Option<T> {
    match value {
        Some(value) => Some(*value),
        None => None,
    }
}

/// The index of the last transaction that updates the state.
pub open spec fn last_with_state_updates(txns: Seq<TransactionToCommit>) -> Option<int>
    decreases txns.len(),
{
    if txns.len() == 0 {
        None
    } else if txns.last().state_updates@.len() > 0 {
        Some(txns.len() - 1)
    } else {
        last_with_state_updates(txns.drop_last())
    }
}

/// The version of the last transaction that updates the state.
pub open spec fn spec_latest_state_checkpoint(
    txns: Seq<TransactionToCommit>,
    first_version: Version,
) -> Option<Version> {
    match last_with_state_updates(txns) {
        Some(index) => Some((first_version + index) as Version),
        None => None,
    }
}

/// Finds the last version with state tree updates -- that's the latest state checkpoint.
pub fn latest_state_checkpoint_version(
    txns_to_commit: &Vec<TransactionToCommit>,
    first_version: Version,
) -> (r: Option<Version>)
    requires
        first_version + txns_to_commit@.len() <= u64::MAX,
    ensures
        r == spec_latest_state_checkpoint(txns_to_commit@, first_version),
{
    let ghost txns = txns_to_commit@;
    let mut i: usize = txns_to_commit.len();
    assert(txns.take(i as int) =~= txns);
    while i > 0
        invariant
            txns == txns_to_commit@,
            i <= txns.len(),
            first_version + txns.len() <= u64::MAX,
            last_with_state_updates(txns) == last_with_state_updates(txns.take(i as int)),
        decreases i,
    {
        if txns_to_commit[i - 1].state_updates.len() > 0 {
            return Some(first_version + (i - 1) as u64);
        }
        assert(txns.take(i as int).drop_last() =~= txns.take(i - 1));
        i = i - 1;
    }
    None
}

/// Whether the hashes of the new nodes are known for all transactions.
pub open spec fn spec_all_node_hashes_known(txns: Seq<TransactionToCommit>) -> bool {
    forall|i: int| 0 <= i < txns.len() ==> (#[trigger] txns[i]).jf_node_hashes is Some
}

/// Finds out whether the hashes of the new nodes are known for all transactions.
fn all_node_hashes_known(txns_to_commit: &Vec<TransactionToCommit>) -> (r: bool)
    ensures
        r == spec_all_node_hashes_known(txns_to_commit@),
{
    let mut i: usize = 0;
    while i < txns_to_commit.len()
        invariant
            i <= txns_to_commit@.len(),
            forall|j: int| 0 <= j < i ==> (#[trigger] txns_to_commit@[j]).jf_node_hashes is Some,
        decreases txns_to_commit@.len() - i,
    {
        if txns_to_commit[i].jf_node_hashes.is_none() {
            return false;
        }
        i = i + 1;
    }
    true
}

/// The version of the transaction with the given index in the batch.
pub open spec fn version_of(first_version: Version, index: int) -> Version {
    (first_version + index) as Version
}

/// Putting the events of all transactions.
pub open spec fn event_actions(first_version: Version, num_txns: nat) -> Seq<SaveAction> {
    Seq::new(
        num_txns,
        |i: int|
            SaveAction::PutEvents { version: version_of(first_version, i), index: i as usize },
    )
}

/// Putting all transactions, each followed by its write set.
pub open spec fn transaction_actions(first_version: Version, num_txns: nat) -> Seq<SaveAction> {
    Seq::new(
        2 * num_txns,
        |k: int|
            if k % 2 == 0 {
                SaveAction::PutTransaction {
                    version: version_of(first_version, k / 2),
                    index: (k / 2) as usize,
                }
            } else {
                SaveAction::PutWriteSet {
                    version: version_of(first_version, k / 2),
                    index: (k / 2) as usize,
                }
            },
    )
}

/// What is gathered in the change set for a batch, in this order.
pub open spec fn prepare_actions(txns: Seq<TransactionToCommit>, first_version: Version) -> Seq<
    SaveAction,
> {
    let state_actions = seq![
        SaveAction::MerklizeValueSets {
            first_version,
            with_node_hashes: spec_all_node_hashes_known(txns),
        },
        SaveAction::PutValueSets { first_version },
    ];
    state_actions + event_actions(first_version, txns.len()) + transaction_actions(
        first_version,
        txns.len(),
    ) + seq![SaveAction::PutTransactionInfos { first_version }]
}

/// Checks a batch and finds out what to gather in the change set for it.
///
/// `first_version` is the version of the first transaction in `txns_to_commit`. Note that even if
/// `txns_to_commit` is empty, `first_version` is checked to be the version of the ledger info plus
/// one if there is a ledger info.
pub fn prepare_save(
    txns_to_commit: &Vec<TransactionToCommit>,
    first_version: Version,
    ledger_info: Option<&LedgerInfo>,
) -> (r: Result<Vec<SaveAction>, AptosDbError>)
    requires
        batch_fits(txns_to_commit@.len(), first_version, deref(ledger_info)),
    ensures
        match (r, spec_check_batch(txns_to_commit@.len(), first_version, deref(ledger_info))) {
            (Err(e), Err(expected)) => e == expected,
            (Ok(actions), Ok(_)) => actions@ == prepare_actions(txns_to_commit@, first_version),
            _ => false,
        },
{
    let num_txns: usize = txns_to_commit.len();
    if let Err(e) = check_batch(num_txns as u64, first_version, ledger_info) {
        return Err(e);
    }
    let with_node_hashes: bool = all_node_hashes_known(txns_to_commit);
    let mut actions: Vec<SaveAction> = Vec::new();
    // Account state updates.
    actions.push(SaveAction::MerklizeValueSets { first_version, with_node_hashes });
    actions.push(SaveAction::PutValueSets { first_version });
    // Event updates.
    let ghost before = actions@;
    let ghost events = event_actions(first_version, num_txns as nat);
    let mut i: usize = 0;
    while i < num_txns
        invariant
            i <= num_txns,
            first_version + num_txns <= u64::MAX,
            events == event_actions(first_version, num_txns as nat),
            actions@ == before + events.take(i as int),
        decreases num_txns - i,
    {
        let version: Version = first_version + i as u64;
        actions.push(SaveAction::PutEvents { version, index: i });
        i = i + 1;
        assert(actions@ =~= before + events.take(i as int));
    }
    assert(events.take(num_txns as int) =~= events);
    // Transaction updates.
    let ghost before = actions@;
    let ghost transactions = transaction_actions(first_version, num_txns as nat);
    let mut i: usize = 0;
    while i < num_txns
        invariant
            i <= num_txns,
            first_version + num_txns <= u64::MAX,
            transactions == transaction_actions(first_version, num_txns as nat),
            actions@ == before + transactions.take(2 * i as int),
        decreases num_txns - i,
    {
        let version: Version = first_version + i as u64;
        actions.push(SaveAction::PutTransaction { version, index: i });
        actions.push(SaveAction::PutWriteSet { version, index: i });
        i = i + 1;
        assert(actions@ =~= before + transactions.take(2 * i as int));
    }
    assert(transactions.take(2 * num_txns as int) =~= transactions);
    // Transaction accumulator updates.
    actions.push(SaveAction::PutTransactionInfos { first_version });
    assert(actions@ =~= prepare_actions(txns_to_commit@, first_version));
    Ok(actions)
}

/// The actions that put a ledger info and add to the counters.
pub open spec fn sealing_actions(
    num_txns: nat,
    first_version: Version,
    ledger_info: Option<LedgerInfo>,
) -> Seq<SaveAction> {
    let put = if ledger_info is Some {
        seq![SaveAction::PutLedgerInfo]
    } else {
        Seq::empty()
    };
    let bump = if num_txns > 0 {
        seq![
            SaveAction::BumpLedgerCounters {
                first_version,
                last_version: version_of(first_version, num_txns - 1),
            },
        ]
    } else {
        Seq::empty()
    };
    put + bump
}

/// The actions after the commit.
pub open spec fn publishing_actions(
    txns: Seq<TransactionToCommit>,
    first_version: Version,
    ledger_info: Option<LedgerInfo>,
) -> Seq<SaveAction> {
    let last_version = version_of(first_version, txns.len() - 1);
    let checkpoint = match spec_latest_state_checkpoint(txns, first_version) {
        Some(version) => seq![SaveAction::SetLatestStateCheckpoint { version }],
        None => Seq::empty(),
    };
    let committed = if txns.len() > 0 {
        seq![
            SaveAction::ReportCommitted { num_txns: txns.len() as u64, last_version },
            SaveAction::WakePruner { version: last_version },
        ]
    } else {
        Seq::empty()
    };
    let latest = match ledger_info {
        Some(info) => seq![
            SaveAction::SetLatestLedgerInfo,
            SaveAction::ReportLedgerInfo {
                version: info.version,
                next_block_epoch: info.next_block_epoch,
            },
        ],
        None => Seq::empty(),
    };
    checkpoint + committed + latest
}

/// What is done once everything is gathered, in this order, or the reason for which the batch is
/// refused.
pub open spec fn spec_conclude_save(
    txns: Seq<TransactionToCommit>,
    first_version: Version,
    ledger_info: Option<LedgerInfo>,
    new_root_hash: HashValue,
) -> Result<Seq<SaveAction>, AptosDbError> {
    if ledger_info is Some && ledger_info.unwrap().transaction_accumulator_hash != new_root_hash {
        Err(
            AptosDbError::RootHashMismatch {
                actual: new_root_hash,
                expected: ledger_info.unwrap().transaction_accumulator_hash,
            },
        )
    } else {
        Ok(
            sealing_actions(txns.len(), first_version, ledger_info) + seq![SaveAction::Commit]
                + publishing_actions(txns, first_version, ledger_info),
        )
    }
}

/// Checks the root hash that gathering a batch gave, and finds out how to commit the change set and
/// what to do after that. When there is a ledger info, the transaction accumulator root hash it
/// carries must be the one after the batch is applied.
pub fn conclude_save(
    txns_to_commit: &Vec<TransactionToCommit>,
    first_version: Version,
    ledger_info: Option<&LedgerInfo>,
    new_root_hash: HashValue,
) -> (r: Result<Vec<SaveAction>, AptosDbError>)
    requires
        batch_fits(txns_to_commit@.len(), first_version, deref(ledger_info)),
    ensures
        match (r, spec_conclude_save(
            txns_to_commit@,
            first_version,
            deref(ledger_info),
            new_root_hash,
        )) {
            (Err(e), Err(expected)) => e == expected,
            (Ok(actions), Ok(expected)) => actions@ == expected,
            _ => false,
        },
{
    let num_txns: usize = txns_to_commit.len();
    let mut actions: Vec<SaveAction> = Vec::new();
    // If expected ledger info is provided, verify result root hash and save the ledger info.
    if let Some(info) = ledger_info {
        let expected_root_hash: HashValue = info.transaction_accumulator_hash();
        if new_root_hash != expected_root_hash {
            return Err(
                AptosDbError::RootHashMismatch {
                    actual: new_root_hash,
                    expected: expected_root_hash,
                },
            );
        }
        actions.push(SaveAction::PutLedgerInfo);
    }
    // Persist. Avoid reading base counter values when not necessary.
    if num_txns > 0 {
        let last_version: Version = first_version + (num_txns - 1) as u64;
        actions.push(SaveAction::BumpLedgerCounters { first_version, last_version });
    }
    assert(actions@ =~= sealing_actions(num_txns as nat, first_version, deref(ledger_info)));
    actions.push(SaveAction::Commit);
    let ghost before = actions@;
    if let Some(version) = latest_state_checkpoint_version(txns_to_commit, first_version) {
        actions.push(SaveAction::SetLatestStateCheckpoint { version });
    }
    // Only increment counter if commit succeeds and there are at least one transaction written
    // to the storage. That's also when we'd inform the pruner thread to work.
    if num_txns > 0 {
        let last_version: Version = first_version + (num_txns - 1) as u64;
        actions.push(SaveAction::ReportCommitted { num_txns: num_txns as u64, last_version });
        actions.push(SaveAction::WakePruner { version: last_version });
    }
    // Once everything is successfully persisted, update the latest in-memory ledger info.
    if let Some(info) = ledger_info {
        actions.push(SaveAction::SetLatestLedgerInfo);
        actions.push(
            SaveAction::ReportLedgerInfo {
                version: info.version(),
                next_block_epoch: info.next_block_epoch(),
            },
        );
    }
    assert(actions@ =~= before + publishing_actions(
        txns_to_commit@,
        first_version,
        deref(ledger_info),
    ));
    Ok(actions)
}

// ---- Laws ----

/// The latest state checkpoint is the last transaction of the batch that updates the state.
pub proof fn latest_checkpoint_is_last_update(txns: Seq<TransactionToCommit>)
    ensures
        match last_with_state_updates(txns) {
            Some(index) => {
                &&& 0 <= index < txns.len()
                &&& txns[index].state_updates@.len() > 0
                &&& forall|i: int|
                    index < i < txns.len() ==> (#[trigger] txns[i]).state_updates@.len() == 0
            },
            None => forall|i: int|
                0 <= i < txns.len() ==> (#[trigger] txns[i]).state_updates@.len() == 0,
        },
    decreases txns.len(),
{
    if txns.len() > 0 && txns.last().state_updates@.len() == 0 {
        let rest = txns.drop_last();
        latest_checkpoint_is_last_update(rest);
        assert forall|i: int| 0 <= i < txns.len() && (last_with_state_updates(
            txns,
        ) matches Some(index) ==> index < i) implies (#[trigger] txns[i]).state_updates@.len()
            == 0 by {
            if i < rest.len() {
                assert(rest[i] == txns[i]);
            }
        }
    }
}

/// Whether the action is in the list at exactly one place.
pub open spec fn occurs_once(actions: Seq<SaveAction>, action: SaveAction) -> bool {
    exists|k: int|
        #![trigger actions[k]]
        0 <= k < actions.len() && actions[k] == action && forall|j: int|
            #![trigger actions[j]]
            0 <= j < actions.len() && actions[j] == action ==> j == k
}

/// Whether the transaction with the given index in the batch gets the version.
pub open spec fn gets_version(
    num_txns: nat,
    first_version: Version,
    index: usize,
    version: Version,
) -> bool {
    index < num_txns && version == first_version + index
}

/// What action `k` of preparing a batch is.
proof fn lemma_prepare_action(txns: Seq<TransactionToCommit>, first_version: Version, k: int)
    requires
        0 <= k < prepare_actions(txns, first_version).len(),
    ensures
        ({
            let n = txns.len() as int;
            let action = prepare_actions(txns, first_version)[k];
            &&& 2 <= k < 2 + n ==> action == event_actions(first_version, txns.len())[k - 2]
            &&& 2 + n <= k < 2 + 3 * n ==> action == transaction_actions(
                first_version,
                txns.len(),
            )[k - 2 - n]
            &&& !(2 <= k < 2 + 3 * n) ==> action is MerklizeValueSets || action is PutValueSets
                || action is PutTransactionInfos
        }),
{
}

/// Where the events of a transaction are put.
proof fn lemma_put_events(
    txns: Seq<TransactionToCommit>,
    first_version: Version,
    index: usize,
    version: Version,
    k: int,
)
    requires
        first_version + txns.len() <= u64::MAX,
        txns.len() <= usize::MAX,
        0 <= k < prepare_actions(txns, first_version).len(),
    ensures
        prepare_actions(txns, first_version)[k] == (SaveAction::PutEvents { version, index })
            <==> gets_version(txns.len(), first_version, index, version) && k == 2 + index,
{
    lemma_prepare_action(txns, first_version, k);
}

/// Where a transaction and its write set are put.
proof fn lemma_put_transaction(
    txns: Seq<TransactionToCommit>,
    first_version: Version,
    index: usize,
    version: Version,
    k: int,
)
    requires
        first_version + txns.len() <= u64::MAX,
        txns.len() <= usize::MAX,
        0 <= k < prepare_actions(txns, first_version).len(),
    ensures
        prepare_actions(txns, first_version)[k] == (SaveAction::PutTransaction { version, index })
            <==> gets_version(txns.len(), first_version, index, version) && k == 2 + txns.len() + 2
            * index,
        prepare_actions(txns, first_version)[k] == (SaveAction::PutWriteSet { version, index })
            <==> gets_version(txns.len(), first_version, index, version) && k == 3 + txns.len() + 2
            * index,
{
    lemma_prepare_action(txns, first_version, k);
}

/// Every transaction of the batch is put once, at its version, with its write set and its events,
/// and no transaction is put at any other version.
pub proof fn every_transaction_is_put_once(
    txns: Seq<TransactionToCommit>,
    first_version: Version,
    index: usize,
    version: Version,
)
    requires
        first_version + txns.len() <= u64::MAX,
        txns.len() <= usize::MAX,
    ensures
        ({
            let actions = prepare_actions(txns, first_version);
            let put = [
                SaveAction::PutTransaction { version, index },
                SaveAction::PutWriteSet { version, index },
                SaveAction::PutEvents { version, index },
            ];
            forall|i: int|
                0 <= i < 3 ==> if gets_version(txns.len(), first_version, index, version) {
                    occurs_once(actions, #[trigger] put[i])
                } else {
                    !actions.contains(put[i])
                }
        }),
{
    let actions = prepare_actions(txns, first_version);
    let n = txns.len() as int;
    assert forall|k: int| #![trigger actions[k]] 0 <= k < actions.len() implies {
        &&& actions[k] == (SaveAction::PutEvents { version, index }) <==> gets_version(
            txns.len(),
            first_version,
            index,
            version,
        ) && k == 2 + index
        &&& actions[k] == (SaveAction::PutTransaction { version, index }) <==> gets_version(
            txns.len(),
            first_version,
            index,
            version,
        ) && k == 2 + n + 2 * index
        &&& actions[k] == (SaveAction::PutWriteSet { version, index }) <==> gets_version(
            txns.len(),
            first_version,
            index,
            version,
        ) && k == 3 + n + 2 * index
    } by {
        lemma_put_events(txns, first_version, index, version, k);
        lemma_put_transaction(txns, first_version, index, version, k);
    }
    if gets_version(txns.len(), first_version, index, version) {
        assert(actions.len() == 3 + 3 * n);
        assert(actions[2 + index] == (SaveAction::PutEvents { version, index }));
        assert(actions[2 + n + 2 * index] == (SaveAction::PutTransaction { version, index }));
        assert(actions[3 + n + 2 * index] == (SaveAction::PutWriteSet { version, index }));
    }
}

/// Nothing is committed, remembered or reported while a batch is prepared.
pub proof fn preparing_only_gathers(txns: Seq<TransactionToCommit>, first_version: Version)
    ensures
        forall|k: int|
            0 <= k < prepare_actions(txns, first_version).len() ==> (#[trigger] prepare_actions(
                txns,
                first_version,
            )[k]).gathers(),
{
    let actions = prepare_actions(txns, first_version);
    assert forall|k: int| 0 <= k < actions.len() implies (#[trigger] actions[k]).gathers() by {
        lemma_prepare_action(txns, first_version, k);
    }
}

/// There is one commit. Everything before it only gathers, and nothing is gathered after it: what is
/// remembered and reported is what was committed.
pub proof fn everything_is_committed_before_it_is_published(
    txns: Seq<TransactionToCommit>,
    first_version: Version,
    ledger_info: Option<LedgerInfo>,
    new_root_hash: HashValue,
)
    requires
        spec_conclude_save(txns, first_version, ledger_info, new_root_hash) is Ok,
    ensures
        ({
            let actions = spec_conclude_save(
                txns,
                first_version,
                ledger_info,
                new_root_hash,
            ).unwrap();
            let commit = sealing_actions(txns.len(), first_version, ledger_info).len() as int;
            &&& actions[commit] == SaveAction::Commit
            &&& forall|k: int| 0 <= k < commit ==> (#[trigger] actions[k]).gathers()
            &&& forall|k: int|
                commit < k < actions.len() ==> !(#[trigger] actions[k]).gathers() && actions[k]
                    != SaveAction::Commit
        }),
{
}

/// A ledger info is saved with a batch only if it is the ledger info of the ledger that the batch
/// extends: where the root hash that gathering the batch gives is that of the extended ledger, the
/// batch is accepted if and only if the ledger info has its last version and its root hash.
pub proof fn saved_ledger_info_is_that_of_extended_ledger(
    ledger: Seq<TransactionInfo>,
    txns: Seq<TransactionToCommit>,
    ledger_info: LedgerInfo,
)
    requires
        ledger.len() + txns.len() <= MAX_ACCUMULATOR_LEAVES,
    ensures
        ({
            let extended = ledger + txns.map_values(
                |txn: TransactionToCommit| txn.transaction_info,
            );
            let root_hash = accumulator_root::<TransactionAccumulatorHasher>(
                transaction_info_hashes(extended),
            );
            let first_version = ledger.len() as Version;
            (spec_check_batch(txns.len(), first_version, Some(ledger_info)) is Ok
                && spec_conclude_save(txns, first_version, Some(ledger_info), root_hash) is Ok)
                <==> is_ledger(extended, ledger_info)
        }),
{
}

} // verus!
