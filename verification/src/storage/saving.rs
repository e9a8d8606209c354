//! What the steps of saving a batch are, stated of the results of the functions that find them.

use vstd::prelude::*;
use crate::crypto::hash::HashValue;
use crate::ledger::{LedgerInfo, Version};
use crate::storage::commit::{
    check_batch, conclude_save, event_actions, last_with_state_updates,
    latest_checkpoint_is_last_update, latest_state_checkpoint_version, prepare_actions, prepare_save, publishing_actions,
    sealing_actions, spec_all_node_hashes_known, spec_latest_state_checkpoint, transaction_actions,
    version_of, SaveAction, TransactionToCommit,
};
use crate::storage::error::AptosDbError;

verus! {

/// A batch is refused if and only if there is neither a transaction nor a ledger info, or if its last
/// version is not that of the ledger info.
pub proof fn batch_ends_at_ledger_info(
    num_txns: u64,
    first_version: Version,
    ledger_info: Option<&LedgerInfo>,
    r: Result<(), AptosDbError>,
)
    requires
        first_version + num_txns <= u64::MAX,
        ledger_info is Some ==> ledger_info.unwrap().version < u64::MAX,
        call_ensures(check_batch, (num_txns, first_version, ledger_info), r),
    ensures
        ledger_info is None ==> (r is Ok <==> num_txns > 0),
        ledger_info is Some ==> (r is Ok <==> first_version + num_txns - 1
            == ledger_info.unwrap().version),
        r matches Err(e) ==> e == match ledger_info {
            None => AptosDbError::EmptyBatch,
            Some(info) => AptosDbError::BatchNotApplicable {
                first_version,
                num_txns,
                last_version: info.version,
            },
        },
{
}

/// The latest state checkpoint is the version of a transaction that updates the state, and no later
/// transaction does. There is none if and only if no transaction updates the state.
pub proof fn latest_checkpoint_updates_state(
    txns: Vec<TransactionToCommit>,
    first_version: Version,
    r: Option<Version>,
)
    requires
        first_version + txns@.len() <= u64::MAX,
        call_ensures(latest_state_checkpoint_version, (&txns, first_version), r),
    ensures
        match r {
            Some(version) => {
                &&& first_version <= version < first_version + txns@.len()
                &&& txns@[version - first_version].state_updates@.len() > 0
                &&& forall|i: int|
                    version - first_version < i < txns@.len() ==> (
                    #[trigger] txns@[i]).state_updates@.len() == 0
            },
            None => forall|i: int|
                0 <= i < txns@.len() ==> (#[trigger] txns@[i]).state_updates@.len() == 0,
        },
{
    latest_checkpoint_is_last_update(txns@);
}

/// The stage of saving that an action belongs to.
pub open spec fn stage(action: SaveAction) -> int {
    match action {
        SaveAction::MerklizeValueSets { .. } => 0,
        SaveAction::PutValueSets { .. } => 1,
        SaveAction::PutEvents { .. } => 2,
        SaveAction::PutTransaction { .. } => 3,
        SaveAction::PutWriteSet { .. } => 3,
        SaveAction::PutTransactionInfos { .. } => 4,
        SaveAction::PutLedgerInfo => 5,
        SaveAction::BumpLedgerCounters { .. } => 6,
        SaveAction::Commit => 7,
        SaveAction::SetLatestStateCheckpoint { .. } => 8,
        SaveAction::ReportCommitted { .. } => 9,
        SaveAction::WakePruner { .. } => 10,
        SaveAction::SetLatestLedgerInfo => 11,
        SaveAction::ReportLedgerInfo { .. } => 12,
    }
}

/// What is gathered for an accepted batch: the state trees once and the state values once, both from
/// the first version on, with the node hashes if and only if all transactions have them; the
/// events, the transaction and the write set of each transaction once, at its version; and the
/// transaction infos once, from the first version on. Nothing else is done, nothing is done twice,
/// earlier versions come first, each write set comes behind its transaction, and the transaction
/// infos, which give the root hash, come last.
pub proof fn prepared_batch_is_gathered(
    txns: Vec<TransactionToCommit>,
    first_version: Version,
    ledger_info: Option<&LedgerInfo>,
    r: Result<Vec<SaveAction>, AptosDbError>,
)
    requires
        first_version + txns@.len() <= u64::MAX,
        ledger_info is Some ==> ledger_info.unwrap().version < u64::MAX,
        call_ensures(prepare_save, (&txns, first_version, ledger_info), r),
    ensures
        r is Ok <==> match ledger_info {
            None => txns@.len() > 0,
            Some(info) => first_version + txns@.len() - 1 == info.version,
        },
        r matches Err(e) ==> e == match ledger_info {
            None => AptosDbError::EmptyBatch,
            Some(info) => AptosDbError::BatchNotApplicable {
                first_version,
                num_txns: txns@.len() as u64,
                last_version: info.version,
            },
        },
        r matches Ok(actions) ==> forall|action: SaveAction| #[trigger]
            actions@.contains(action) <==> match action {
                SaveAction::MerklizeValueSets { first_version: first, with_node_hashes } => {
                    &&& first == first_version
                    &&& with_node_hashes <==> forall|i: int|
                        0 <= i < txns@.len() ==> (#[trigger] txns@[i]).jf_node_hashes is Some
                },
                SaveAction::PutValueSets { first_version: first } => first == first_version,
                SaveAction::PutEvents { version, index } => index < txns@.len() && version
                    == first_version + index,
                SaveAction::PutTransaction { version, index } => index < txns@.len() && version
                    == first_version + index,
                SaveAction::PutWriteSet { version, index } => index < txns@.len() && version
                    == first_version + index,
                SaveAction::PutTransactionInfos { first_version: first } => first == first_version,
                _ => false,
            },
        r matches Ok(actions) ==> forall|j: int, k: int|
            0 <= j < k < actions@.len() ==> {
                &&& #[trigger] actions@[j] != #[trigger] actions@[k]
                &&& stage(actions@[j]) <= stage(actions@[k])
                &&& stage(actions@[j]) == stage(actions@[k]) ==> match (actions@[j], actions@[k]) {
                    (
                        SaveAction::PutEvents { version: earlier, .. },
                        SaveAction::PutEvents { version: later, .. },
                    ) => earlier < later,
                    (
                        SaveAction::PutTransaction { version: earlier, .. },
                        SaveAction::PutTransaction { version: later, .. },
                    ) => earlier < later,
                    (
                        SaveAction::PutTransaction { version: earlier, .. },
                        SaveAction::PutWriteSet { version: later, .. },
                    ) => earlier <= later,
                    (
                        SaveAction::PutWriteSet { version: earlier, .. },
                        SaveAction::PutTransaction { version: later, .. },
                    ) => earlier < later,
                    (
                        SaveAction::PutWriteSet { version: earlier, .. },
                        SaveAction::PutWriteSet { version: later, .. },
                    ) => earlier < later,
                    _ => false,
                }
            },
{
    if let Ok(found) = r {
        let actions = found@;
        let n = txns@.len() as int;
        assert(txns.len() == txns@.len());
        assert(actions == prepare_actions(txns@, first_version));
        assert(actions.len() == 3 + 3 * n);
        assert forall|k: int| 0 <= k < actions.len() implies #[trigger] actions[k]
            == place_of(txns@, first_version, k) by {
            lemma_place(txns@, first_version, k);
        }
        assert forall|action: SaveAction| #[trigger] actions.contains(action) == match action {
                SaveAction::MerklizeValueSets { first_version: first, with_node_hashes } => {
                    &&& first == first_version
                    &&& with_node_hashes <==> forall|i: int|
                        0 <= i < txns@.len() ==> (#[trigger] txns@[i]).jf_node_hashes is Some
                },
                SaveAction::PutValueSets { first_version: first } => first == first_version,
                SaveAction::PutEvents { version, index } => index < txns@.len() && version
                    == first_version + index,
                SaveAction::PutTransaction { version, index } => index < txns@.len() && version
                    == first_version + index,
                SaveAction::PutWriteSet { version, index } => index < txns@.len() && version
                    == first_version + index,
                SaveAction::PutTransactionInfos { first_version: first } => first == first_version,
                _ => false,
            } by {
            if actions.contains(action) {
                let k = choose|k: int| 0 <= k < actions.len() && actions[k] == action;
                assert(actions[k] == place_of(txns@, first_version, k));
            }
            let k = match action {
                SaveAction::MerklizeValueSets { .. } => 0,
                SaveAction::PutValueSets { .. } => 1,
                SaveAction::PutEvents { index, .. } => 2 + index,
                SaveAction::PutTransaction { index, .. } => 2 + n + 2 * index,
                SaveAction::PutWriteSet { index, .. } => 3 + n + 2 * index,
                _ => 2 + 3 * n,
            };
            if 0 <= k < actions.len() {
                assert(actions[k] == place_of(txns@, first_version, k));
            }
        }
    }
}

/// The action at place `k` of those that are gathered for a batch.
spec fn place_of(txns: Seq<TransactionToCommit>, first_version: Version, k: int) -> SaveAction {
    let n = txns.len() as int;
    if k == 0 {
        SaveAction::MerklizeValueSets {
            first_version,
            with_node_hashes: spec_all_node_hashes_known(txns),
        }
    } else if k == 1 {
        SaveAction::PutValueSets { first_version }
    } else if k < 2 + n {
        SaveAction::PutEvents {
            version: (first_version + (k - 2)) as Version,
            index: (k - 2) as usize,
        }
    } else if k < 2 + 3 * n {
        let i = (k - 2 - n) / 2;
        if (k - 2 - n) % 2 == 0 {
            SaveAction::PutTransaction { version: (first_version + i) as Version, index: i as usize }
        } else {
            SaveAction::PutWriteSet { version: (first_version + i) as Version, index: i as usize }
        }
    } else {
        SaveAction::PutTransactionInfos { first_version }
    }
}

/// The actions that are gathered for a batch are in their places.
proof fn lemma_place(txns: Seq<TransactionToCommit>, first_version: Version, k: int)
    requires
        0 <= k < 3 + 3 * txns.len(),
    ensures
        prepare_actions(txns, first_version)[k] == place_of(txns, first_version, k),
{
    let n = txns.len();
    assert(2 <= k < 2 + n ==> prepare_actions(txns, first_version)[k] == event_actions(
        first_version,
        n,
    )[k - 2]);
    assert(2 + n <= k < 2 + 3 * n ==> prepare_actions(txns, first_version)[k]
        == transaction_actions(first_version, n)[k - 2 - n]);
}

/// What is in the list of the actions after the commit.
proof fn lemma_publishing(
    txns: Seq<TransactionToCommit>,
    first_version: Version,
    info: Option<LedgerInfo>,
)
    requires
        first_version + txns.len() <= u64::MAX,
    ensures
        forall|action: SaveAction| #[trigger]
            publishing_actions(txns, first_version, info).contains(action) <==> {
                ||| spec_latest_state_checkpoint(txns, first_version) matches Some(version)
                    && action == SaveAction::SetLatestStateCheckpoint { version }
                ||| txns.len() > 0 && action == SaveAction::ReportCommitted {
                    num_txns: txns.len() as u64,
                    last_version: version_of(first_version, txns.len() - 1),
                }
                ||| txns.len() > 0 && action == SaveAction::WakePruner {
                    version: version_of(first_version, txns.len() - 1),
                }
                ||| info is Some && action == SaveAction::SetLatestLedgerInfo
                ||| info is Some && action == SaveAction::ReportLedgerInfo {
                    version: info.unwrap().version,
                    next_block_epoch: info.unwrap().next_block_epoch,
                }
            },
{
    let actions = publishing_actions(txns, first_version, info);
    let c = if spec_latest_state_checkpoint(txns, first_version) is Some {
        1int
    } else {
        0int
    };
    let d = if txns.len() > 0 {
        c + 2
    } else {
        c
    };
    if txns.len() > 0 {
        assert(actions[c] is ReportCommitted && actions[c + 1] is WakePruner);
    }
    if info is Some {
        assert(actions[d] is SetLatestLedgerInfo && actions[d + 1] is ReportLedgerInfo);
    }
    if c > 0 {
        assert(actions[0] is SetLatestStateCheckpoint);
    }
}

/// What is done to finish an accepted batch: the ledger info, if there is one, is put before the
/// commit, and so are the counters, if there are transactions. After the commit the latest
/// checkpoint is remembered, if a transaction updates the state; the transactions are reported and
/// the pruner is woken with the last version, if there are any; and the ledger info, if there is
/// one, is remembered and reported. Everything is done at most once and in this order. The batch is
/// refused if and only if there is a ledger info with another root hash.
pub proof fn concluded_batch_is_published(
    txns: Vec<TransactionToCommit>,
    first_version: Version,
    ledger_info: Option<&LedgerInfo>,
    new_root_hash: HashValue,
    r: Result<Vec<SaveAction>, AptosDbError>,
)
    requires
        first_version + txns@.len() <= u64::MAX,
        ledger_info is Some ==> ledger_info.unwrap().version < u64::MAX,
        call_ensures(conclude_save, (&txns, first_version, ledger_info, new_root_hash), r),
    ensures
        r is Err <==> ledger_info is Some && ledger_info.unwrap().transaction_accumulator_hash
            != new_root_hash,
        r matches Err(e) ==> e == (AptosDbError::RootHashMismatch {
            actual: new_root_hash,
            expected: ledger_info.unwrap().transaction_accumulator_hash,
        }),
        r matches Ok(actions) ==> forall|action: SaveAction| #[trigger]
            actions@.contains(action) <==> match action {
                SaveAction::PutLedgerInfo => ledger_info is Some,
                SaveAction::BumpLedgerCounters { first_version: first, last_version } => first
                    == first_version && first <= last_version && last_version - first_version + 1
                    == txns@.len(),
                SaveAction::Commit => true,
                SaveAction::SetLatestStateCheckpoint { version } => {
                    &&& first_version <= version < first_version + txns@.len()
                    &&& txns@[version - first_version].state_updates@.len() > 0
                    &&& forall|i: int|
                        version - first_version < i < txns@.len() ==> (
                        #[trigger] txns@[i]).state_updates@.len() == 0
                },
                SaveAction::ReportCommitted { num_txns, last_version } => num_txns > 0 && num_txns
                    == txns@.len() && last_version - first_version + 1 == num_txns,
                SaveAction::WakePruner { version } => version >= first_version && version
                    - first_version + 1 == txns@.len(),
                SaveAction::SetLatestLedgerInfo => ledger_info is Some,
                SaveAction::ReportLedgerInfo { version, next_block_epoch } => ledger_info is Some
                    && version == ledger_info.unwrap().version && next_block_epoch
                    == ledger_info.unwrap().next_block_epoch,
                _ => false,
            },
        r matches Ok(actions) ==> forall|j: int, k: int|
            0 <= j < k < actions@.len() ==> stage(#[trigger] actions@[j]) < stage(
                #[trigger] actions@[k],
            ),
{
    if let Ok(found) = r {
        let actions = found@;
        let n = txns@.len();
        let info = match ledger_info {
            Some(info) => Some(*info),
            None => None,
        };
        let sealing = sealing_actions(n, first_version, info);
        let publishing = publishing_actions(txns@, first_version, info);
        assert(actions == sealing + seq![SaveAction::Commit] + publishing);
        latest_checkpoint_is_last_update(txns@);
        lemma_publishing(txns@, first_version, info);
        let s = sealing.len() as int;
        assert(forall|k: int| 0 <= k < s ==> actions[k] == sealing[k]);
        assert(actions[s] == SaveAction::Commit);
        assert(forall|k: int|
            0 <= k < publishing.len() ==> #[trigger] actions[k + s + 1] == publishing[k]);
        assert forall|action: SaveAction| actions.contains(action) == (sealing.contains(action)
            || action == SaveAction::Commit || publishing.contains(action)) by {
            if actions.contains(action) {
                let k = choose|k: int| 0 <= k < actions.len() && actions[k] == action;
                if k > s {
                    assert(publishing[k - s - 1] == action);
                }
            }
            if sealing.contains(action) {
                let k = choose|k: int| 0 <= k < sealing.len() && sealing[k] == action;
                assert(actions[k] == action);
            }
            if publishing.contains(action) {
                let k = choose|k: int| 0 <= k < publishing.len() && publishing[k] == action;
                assert(actions[k + s + 1] == action);
            }
        }
        assert forall|version: Version| ({
            &&& first_version <= version < first_version + n
            &&& txns@[version - first_version].state_updates@.len() > 0
            &&& forall|i: int|
                version - first_version < i < n ==> (#[trigger] txns@[i]).state_updates@.len() == 0
        }) <==> spec_latest_state_checkpoint(txns@, first_version) == Some(version) by {
            if let Some(last) = last_with_state_updates(txns@) {
                assert(txns@[last].state_updates@.len() > 0);
            }
        }
        assert(forall|action: SaveAction| #[trigger]
            sealing.contains(action) <==> {
                ||| ledger_info is Some && action == SaveAction::PutLedgerInfo
                ||| n > 0 && action == SaveAction::BumpLedgerCounters {
                    first_version,
                    last_version: version_of(first_version, n - 1),
                }
            }) by {
            if ledger_info is Some {
                assert(sealing[0] is PutLedgerInfo);
            }
            if n > 0 {
                assert(sealing[sealing.len() - 1] is BumpLedgerCounters);
            }
        }
    }
}

/// Every batch whose versions can be counted with 64 bits can be saved.
pub proof fn batches_that_can_be_saved(
    num_txns: u64,
    txns: Vec<TransactionToCommit>,
    first_version: Version,
    ledger_info: Option<&LedgerInfo>,
    new_root_hash: HashValue,
)
    requires
        num_txns == txns@.len(),
        first_version + num_txns <= u64::MAX,
        ledger_info is Some ==> ledger_info.unwrap().version < u64::MAX,
    ensures
        call_requires(check_batch, (num_txns, first_version, ledger_info)),
        call_requires(latest_state_checkpoint_version, (&txns, first_version)),
        call_requires(prepare_save, (&txns, first_version, ledger_info)),
        call_requires(conclude_save, (&txns, first_version, ledger_info, new_root_hash)),
{
}

} // verus!
