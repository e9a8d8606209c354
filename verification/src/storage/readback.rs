//! What is read back of the transactions that were saved.
//!
//! The storage is modelled as what it holds under each version. Saving a batch performs its actions
//! in order; what they put is gathered first and becomes readable with the commit.

use vstd::prelude::*;
use crate::crypto::hash::{HashValue, TransactionAccumulatorHasher};
use crate::ledger::{LedgerInfo, StateValue, TransactionInfo, Version};
use crate::proofs::accumulator::MAX_ACCUMULATOR_LEAVES;
use crate::proofs::authentication::is_ledger;
use crate::proofs::membership::right_siblings_of;
use crate::proofs::merkle::{accumulator_root, frozen_roots};
use crate::proofs::transaction::{same_infos, transaction_info_hashes};
use crate::storage::commit::{
    event_actions, prepare_actions, publishing_actions, saved_ledger_info_is_that_of_extended_ledger,
    sealing_actions, spec_all_node_hashes_known, spec_check_batch, spec_conclude_save, transaction_actions, version_of,
    SaveAction, TransactionToCommit,
};
use crate::storage::error::AptosDbError;
use crate::storage::events::ContractEvent;
use crate::storage::paging::{spec_transaction_page, VersionRange, MAX_LIMIT};
use crate::storage::transactions::{
    answered_list_verifies, is_output_of, StoredOutput, TransactionListWithProof,
    TransactionOutput,
};

verus! {

/// What an event says: its sequence number and its encoding.
pub open spec fn event_contents(events: Seq<ContractEvent>) -> Seq<(u64, Seq<u8>)> {
    events.map_values(|event: ContractEvent| (event.sequence_number, event.event_data@))
}

/// What updates of the state say: the hashes of the keys and the bytes of the values.
pub open spec fn update_contents(updates: Seq<(HashValue, StateValue)>) -> Seq<
    (HashValue, Seq<u8>),
> {
    updates.map_values(|update: (HashValue, StateValue)| (update.0, update.1.bytes@))
}

/// What node hashes say: the encoded paths of the nodes and their hashes.
pub open spec fn node_hash_contents(node_hashes: Seq<(Vec<u8>, HashValue)>) -> Seq<
    (Seq<u8>, HashValue),
> {
    node_hashes.map_values(|node: (Vec<u8>, HashValue)| (node.0@, node.1))
}

/// How the state tree of a version is made from that of the version before.
pub struct TreeUpdate {
    /// The leaves that are updated.
    pub updates: Seq<(HashValue, Seq<u8>)>,
    /// The hashes of the new nodes, where they are not computed.
    pub node_hashes: Option<Seq<(Seq<u8>, HashValue)>>,
}

/// What is stored under each version.
#[verifier::ext_equal]
pub struct StoredLedger {
    pub state_trees: Map<int, TreeUpdate>,
    pub state_values: Map<int, Seq<(HashValue, Seq<u8>)>>,
    pub transactions: Map<int, Seq<u8>>,
    pub write_sets: Map<int, Seq<u8>>,
    pub events: Map<int, Seq<(u64, Seq<u8>)>>,
    pub infos: Map<int, TransactionInfo>,
}

/// The storage while a batch is saved.
#[verifier::ext_equal]
pub struct SavingState {
    /// What is gathered to be written.
    pub gathered: StoredLedger,
    /// What can be read.
    pub committed: StoredLedger,
}

/// `stored` with `items` under the versions from `first` on.
pub open spec fn put_all<T>(stored: Map<int, T>, first: int, items: Seq<T>) -> Map<int, T> {
    Map::new(
        |version: int| stored.dom().contains(version) || first <= version < first + items.len(),
        |version: int|
            if first <= version < first + items.len() {
                items[version - first]
            } else {
                stored[version]
            },
    )
}

/// The updates of the state that a batch makes.
pub open spec fn batch_updates(txns: Seq<TransactionToCommit>) -> Seq<Seq<(HashValue, Seq<u8>)>> {
    txns.map_values(|txn: TransactionToCommit| update_contents(txn.state_updates@))
}

/// The updates of the state tree that a batch makes, with the node hashes where they are used.
pub open spec fn batch_tree_updates(
    txns: Seq<TransactionToCommit>,
    with_node_hashes: bool,
) -> Seq<TreeUpdate> {
    txns.map_values(
        |txn: TransactionToCommit|
            TreeUpdate {
                updates: update_contents(txn.state_updates@),
                node_hashes: if with_node_hashes {
                    Some(node_hash_contents(txn.jf_node_hashes.unwrap()@))
                } else {
                    None
                },
            },
    )
}

/// The encoded transactions of a batch.
pub open spec fn batch_transactions(txns: Seq<TransactionToCommit>) -> Seq<Seq<u8>> {
    txns.map_values(|txn: TransactionToCommit| txn.transaction@)
}

/// The write sets of a batch.
pub open spec fn batch_write_sets(txns: Seq<TransactionToCommit>) -> Seq<Seq<u8>> {
    txns.map_values(|txn: TransactionToCommit| txn.write_set@)
}

/// The events of a batch.
pub open spec fn batch_events(txns: Seq<TransactionToCommit>) -> Seq<Seq<(u64, Seq<u8>)>> {
    txns.map_values(|txn: TransactionToCommit| event_contents(txn.events@))
}

/// The transaction infos of a batch.
pub open spec fn batch_infos(txns: Seq<TransactionToCommit>) -> Seq<TransactionInfo> {
    txns.map_values(|txn: TransactionToCommit| txn.transaction_info)
}

/// The storage after one action.
pub open spec fn perform(
    state: SavingState,
    txns: Seq<TransactionToCommit>,
    action: SaveAction,
) -> SavingState {
    let gathered = state.gathered;
    match action {
        SaveAction::MerklizeValueSets { first_version, with_node_hashes } => SavingState {
            gathered: StoredLedger {
                state_trees: put_all(
                    gathered.state_trees,
                    first_version as int,
                    batch_tree_updates(txns, with_node_hashes),
                ),
                ..gathered
            },
            ..state
        },
        SaveAction::PutValueSets { first_version } => SavingState {
            gathered: StoredLedger {
                state_values: put_all(
                    gathered.state_values,
                    first_version as int,
                    batch_updates(txns),
                ),
                ..gathered
            },
            ..state
        },
        SaveAction::PutEvents { version, index } => SavingState {
            gathered: StoredLedger {
                events: gathered.events.insert(
                    version as int,
                    event_contents(txns[index as int].events@),
                ),
                ..gathered
            },
            ..state
        },
        SaveAction::PutTransaction { version, index } => SavingState {
            gathered: StoredLedger {
                transactions: gathered.transactions.insert(
                    version as int,
                    txns[index as int].transaction@,
                ),
                ..gathered
            },
            ..state
        },
        SaveAction::PutWriteSet { version, index } => SavingState {
            gathered: StoredLedger {
                write_sets: gathered.write_sets.insert(
                    version as int,
                    txns[index as int].write_set@,
                ),
                ..gathered
            },
            ..state
        },
        SaveAction::PutTransactionInfos { first_version } => SavingState {
            gathered: StoredLedger {
                infos: put_all(gathered.infos, first_version as int, batch_infos(txns)),
                ..gathered
            },
            ..state
        },
        SaveAction::Commit => SavingState { committed: gathered, ..state },
        _ => state,
    }
}

/// The storage after some actions.
pub open spec fn perform_all(
    state: SavingState,
    txns: Seq<TransactionToCommit>,
    actions: Seq<SaveAction>,
) -> SavingState
    decreases actions.len(),
{
    if actions.len() == 0 {
        state
    } else {
        perform(perform_all(state, txns, actions.drop_last()), txns, actions.last())
    }
}

/// What can be read after a batch is saved: what could be read before, if it is refused.
pub open spec fn after_save(
    before: StoredLedger,
    txns: Seq<TransactionToCommit>,
    first_version: Version,
    ledger_info: Option<LedgerInfo>,
    new_root_hash: HashValue,
) -> StoredLedger {
    let start = SavingState { gathered: before, committed: before };
    if spec_check_batch(txns.len(), first_version, ledger_info) is Err {
        before
    } else {
        let prepared = perform_all(start, txns, prepare_actions(txns, first_version));
        match spec_conclude_save(txns, first_version, ledger_info, new_root_hash) {
            Err(_) => prepared.committed,
            Ok(actions) => perform_all(prepared, txns, actions).committed,
        }
    }
}

/// What a batch adds.
pub open spec fn with_batch(
    before: StoredLedger,
    txns: Seq<TransactionToCommit>,
    first_version: Version,
) -> StoredLedger {
    let first = first_version as int;
    StoredLedger {
        state_trees: put_all(
            before.state_trees,
            first,
            batch_tree_updates(
                txns,
                forall|i: int| 0 <= i < txns.len() ==> (#[trigger] txns[i]).jf_node_hashes is Some,
            ),
        ),
        state_values: put_all(before.state_values, first, batch_updates(txns)),
        transactions: put_all(before.transactions, first, batch_transactions(txns)),
        write_sets: put_all(before.write_sets, first, batch_write_sets(txns)),
        events: put_all(before.events, first, batch_events(txns)),
        infos: put_all(before.infos, first, batch_infos(txns)),
    }
}

/// Actions may be performed in two parts.
proof fn lemma_perform_parts(
    state: SavingState,
    txns: Seq<TransactionToCommit>,
    a: Seq<SaveAction>,
    b: Seq<SaveAction>,
)
    ensures
        perform_all(state, txns, a + b) == perform_all(perform_all(state, txns, a), txns, b),
    decreases b.len(),
{
    if b.len() == 0 {
        assert(a + b =~= a);
    } else {
        lemma_perform_parts(state, txns, a, b.drop_last());
        assert((a + b).drop_last() =~= a + b.drop_last());
        assert((a + b).last() == b.last());
    }
}

/// Putting nothing changes nothing.
proof fn lemma_put_none<T>(stored: Map<int, T>, first: int)
    ensures
        put_all(stored, first, Seq::empty()) == stored,
{
    assert(put_all(stored, first, Seq::empty()) =~= stored);
}

/// Putting one more item at the end.
proof fn lemma_put_one_more<T>(stored: Map<int, T>, first: int, items: Seq<T>, k: int)
    requires
        0 <= k < items.len(),
    ensures
        put_all(stored, first, items.take(k)).insert(first + k, items[k]) == put_all(
            stored,
            first,
            items.take(k + 1),
        ),
{
    assert(put_all(stored, first, items.take(k)).insert(first + k, items[k]) =~= put_all(
        stored,
        first,
        items.take(k + 1),
    ));
}

/// What putting the first events of a batch does.
proof fn lemma_perform_events(
    state: SavingState,
    txns: Seq<TransactionToCommit>,
    first_version: Version,
    k: int,
)
    requires
        first_version + txns.len() <= u64::MAX,
        txns.len() <= usize::MAX,
        0 <= k <= txns.len(),
    ensures
        perform_all(state, txns, event_actions(first_version, txns.len()).take(k)) == (SavingState {
            gathered: StoredLedger {
                events: put_all(
                    state.gathered.events,
                    first_version as int,
                    batch_events(txns).take(k),
                ),
                ..state.gathered
            },
            ..state
        }),
    decreases k,
{
    let actions = event_actions(first_version, txns.len());
    let items = batch_events(txns);
    let first = first_version as int;
    if k == 0 {
        lemma_put_none(state.gathered.events, first);
        assert(items.take(0) =~= Seq::empty());
    } else {
        lemma_perform_events(state, txns, first_version, k - 1);
        lemma_put_one_more(state.gathered.events, first, items, k - 1);
        assert(actions.take(k).drop_last() =~= actions.take(k - 1));
        assert(actions.take(k).last() == actions[k - 1]);
        assert(version_of(first_version, k - 1) == first + k - 1);
    }
}

/// What putting the first transactions of a batch, with their write sets, does.
proof fn lemma_perform_transactions(
    state: SavingState,
    txns: Seq<TransactionToCommit>,
    first_version: Version,
    k: int,
)
    requires
        first_version + txns.len() <= u64::MAX,
        txns.len() <= usize::MAX,
        0 <= k <= txns.len(),
    ensures
        perform_all(state, txns, transaction_actions(first_version, txns.len()).take(2 * k)) == (
        SavingState {
            gathered: StoredLedger {
                transactions: put_all(
                    state.gathered.transactions,
                    first_version as int,
                    batch_transactions(txns).take(k),
                ),
                write_sets: put_all(
                    state.gathered.write_sets,
                    first_version as int,
                    batch_write_sets(txns).take(k),
                ),
                ..state.gathered
            },
            ..state
        }),
    decreases k,
{
    let actions = transaction_actions(first_version, txns.len());
    let first = first_version as int;
    if k == 0 {
        lemma_put_none(state.gathered.transactions, first);
        lemma_put_none(state.gathered.write_sets, first);
        assert(batch_transactions(txns).take(0) =~= Seq::empty());
        assert(batch_write_sets(txns).take(0) =~= Seq::empty());
    } else {
        lemma_perform_transactions(state, txns, first_version, k - 1);
        lemma_put_one_more(state.gathered.transactions, first, batch_transactions(txns), k - 1);
        lemma_put_one_more(state.gathered.write_sets, first, batch_write_sets(txns), k - 1);
        let most = actions.take(2 * k).drop_last();
        assert(most.drop_last() =~= actions.take(2 * (k - 1)));
        assert(most.last() == actions[2 * (k - 1)]);
        assert(actions.take(2 * k).last() == actions[2 * (k - 1) + 1]);
        assert(version_of(first_version, k - 1) == first + k - 1);
        assert((2 * (k - 1) + 1) / 2 == k - 1 && (2 * (k - 1)) / 2 == k - 1);
        let earlier = perform_all(state, txns, actions.take(2 * (k - 1)));
        let with_transaction = perform(earlier, txns, actions[2 * (k - 1)]);
        assert(perform_all(state, txns, most) == with_transaction);
        assert(perform_all(state, txns, actions.take(2 * k)) == perform(
            with_transaction,
            txns,
            actions[2 * (k - 1) + 1],
        ));
    }
}

/// Whether the action neither puts anything under a version nor commits.
pub open spec fn leaves_ledger_alone(action: SaveAction) -> bool {
    match action {
        SaveAction::MerklizeValueSets { .. } => false,
        SaveAction::PutValueSets { .. } => false,
        SaveAction::PutEvents { .. } => false,
        SaveAction::PutTransaction { .. } => false,
        SaveAction::PutWriteSet { .. } => false,
        SaveAction::PutTransactionInfos { .. } => false,
        SaveAction::Commit => false,
        _ => true,
    }
}

/// Actions that leave what is stored alone change nothing.
proof fn lemma_perform_nothing(
    state: SavingState,
    txns: Seq<TransactionToCommit>,
    actions: Seq<SaveAction>,
)
    requires
        forall|i: int| 0 <= i < actions.len() ==> leaves_ledger_alone(#[trigger] actions[i]),
    ensures
        perform_all(state, txns, actions) == state,
    decreases actions.len(),
{
    if actions.len() > 0 {
        lemma_perform_nothing(state, txns, actions.drop_last());
        assert(leaves_ledger_alone(actions[actions.len() - 1]));
    }
}

/// What preparing a batch gathers.
proof fn lemma_perform_prepare(
    state: SavingState,
    txns: Seq<TransactionToCommit>,
    first_version: Version,
)
    requires
        first_version + txns.len() <= u64::MAX,
        txns.len() <= usize::MAX,
    ensures
        perform_all(state, txns, prepare_actions(txns, first_version)) == (SavingState {
            gathered: with_batch(state.gathered, txns, first_version),
            ..state
        }),
{
    let n = txns.len() as int;
    let events = event_actions(first_version, txns.len());
    let transactions = transaction_actions(first_version, txns.len());
    let infos = seq![SaveAction::PutTransactionInfos { first_version }];
    let actions = prepare_actions(txns, first_version);
    let merklize = SaveAction::MerklizeValueSets {
        first_version,
        with_node_hashes: spec_all_node_hashes_known(txns),
    };
    let put_values = SaveAction::PutValueSets { first_version };
    let state_actions = seq![merklize, put_values];
    assert(actions =~= state_actions + events + transactions + infos);
    lemma_perform_parts(state, txns, state_actions + events + transactions, infos);
    lemma_perform_parts(state, txns, state_actions + events, transactions);
    lemma_perform_parts(state, txns, state_actions, events);
    let start = state_actions.drop_last();
    assert(start.drop_last() =~= Seq::empty());
    assert(perform_all(state, txns, start.drop_last()) == state);
    assert(perform_all(state, txns, start) == perform(state, txns, merklize));
    let after_state = perform(perform(state, txns, merklize), txns, put_values);
    assert(perform_all(state, txns, state_actions) == after_state);
    let after_events = perform_all(after_state, txns, events);
    lemma_perform_events(after_state, txns, first_version, n);
    assert(events.take(n) =~= events);
    assert(batch_events(txns).take(n) =~= batch_events(txns));
    let after_transactions = perform_all(after_events, txns, transactions);
    lemma_perform_transactions(after_events, txns, first_version, n);
    assert(transactions.take(2 * n) =~= transactions);
    assert(batch_transactions(txns).take(n) =~= batch_transactions(txns));
    assert(batch_write_sets(txns).take(n) =~= batch_write_sets(txns));
    assert(infos.drop_last() =~= Seq::empty());
    assert(perform_all(after_transactions, txns, infos.drop_last()) == after_transactions);
    assert(perform_all(after_transactions, txns, infos) == perform(
        after_transactions,
        txns,
        infos.last(),
    ));
}

/// What concluding a batch makes readable.
proof fn lemma_perform_conclude(
    state: SavingState,
    txns: Seq<TransactionToCommit>,
    first_version: Version,
    ledger_info: Option<LedgerInfo>,
    new_root_hash: HashValue,
)
    requires
        spec_conclude_save(txns, first_version, ledger_info, new_root_hash) is Ok,
    ensures
        perform_all(
            state,
            txns,
            spec_conclude_save(txns, first_version, ledger_info, new_root_hash).unwrap(),
        ).committed == state.gathered,
{
    let sealing = sealing_actions(txns.len(), first_version, ledger_info);
    let publishing = publishing_actions(txns, first_version, ledger_info);
    let commit = seq![SaveAction::Commit];
    lemma_perform_parts(state, txns, sealing + commit, publishing);
    lemma_perform_parts(state, txns, sealing, commit);
    lemma_perform_nothing(state, txns, sealing);
    let committed = perform(state, txns, SaveAction::Commit);
    assert(commit.drop_last() =~= Seq::empty());
    assert(perform_all(state, txns, commit.drop_last()) == state);
    assert(perform_all(state, txns, commit) == committed);
    lemma_perform_nothing(committed, txns, publishing);
}

/// A batch that is accepted is stored under its versions, and what is stored under other versions
/// stays as it was. A batch that is refused changes nothing.
pub proof fn saved_batch_is_stored(
    before: StoredLedger,
    txns: Seq<TransactionToCommit>,
    first_version: Version,
    ledger_info: Option<LedgerInfo>,
    new_root_hash: HashValue,
)
    requires
        first_version + txns.len() <= u64::MAX,
        txns.len() <= usize::MAX,
    ensures
        after_save(before, txns, first_version, ledger_info, new_root_hash) == if spec_check_batch(
            txns.len(),
            first_version,
            ledger_info,
        ) is Ok && spec_conclude_save(txns, first_version, ledger_info, new_root_hash) is Ok {
            with_batch(before, txns, first_version)
        } else {
            before
        },
{
    let start = SavingState { gathered: before, committed: before };
    lemma_perform_prepare(start, txns, first_version);
    let prepared = perform_all(start, txns, prepare_actions(txns, first_version));
    if spec_conclude_save(txns, first_version, ledger_info, new_root_hash) is Ok {
        lemma_perform_conclude(prepared, txns, first_version, ledger_info, new_root_hash);
    }
}

/// Whether the list is what is stored under the versions of a page, with the events exactly where
/// they are asked for.
pub open spec fn reads_page(
    stored: StoredLedger,
    page: VersionRange,
    fetch_events: bool,
    list: TransactionListWithProof,
) -> bool {
    let infos = list.proof.transaction_infos@;
    &&& list.first_transaction_version == Some(page.start)
    &&& list.transactions@.len() == page.count
    &&& infos.len() == page.count
    &&& list.events is Some <==> fetch_events
    &&& list.events matches Some(events) ==> events@.len() == page.count
    &&& forall|i: int|
        #![trigger list.transactions@[i]]
        0 <= i < page.count ==> list.transactions@[i]@ == stored.transactions[page.start + i]
    &&& forall|i: int|
        0 <= i < page.count ==> (#[trigger] infos[i]).same_as(stored.infos[page.start + i])
    &&& list.events matches Some(events) ==> forall|i: int|
        0 <= i < page.count ==> event_contents((#[trigger] events@[i])@)
            == stored.events[page.start + i]
}

/// What is saved is read back: after a batch is saved with its ledger info, asking for its versions
/// gives its transactions, events and transaction infos, each in its place, with a proof that
/// verifies against that ledger info.
pub proof fn saved_batch_is_read_back(
    before: StoredLedger,
    ledger: Seq<TransactionInfo>,
    txns: Seq<TransactionToCommit>,
    ledger_info: LedgerInfo,
    page: VersionRange,
    list: TransactionListWithProof,
)
    requires
        1 <= txns.len() <= MAX_LIMIT,
        ledger.len() + txns.len() <= MAX_ACCUMULATOR_LEAVES,
        ({
            let first_version = ledger.len() as Version;
            let hashes = transaction_info_hashes(ledger + batch_infos(txns));
            let root_hash = accumulator_root::<TransactionAccumulatorHasher>(hashes);
            let stored = after_save(before, txns, first_version, Some(ledger_info), root_hash);
            let siblings = list.proof.ledger_info_to_transaction_infos_proof;
            &&& spec_check_batch(txns.len(), first_version, Some(ledger_info)) is Ok
            &&& spec_conclude_save(txns, first_version, Some(ledger_info), root_hash) is Ok
            &&& spec_transaction_page(first_version, txns.len() as u64, ledger_info.version) == Ok::<
                Option<VersionRange>,
                AptosDbError,
            >(Some(page))
            &&& reads_page(stored, page, true, list)
            &&& siblings.spec_left_siblings() == frozen_roots::<TransactionAccumulatorHasher>(
                hashes.take(page.start as int),
            )
            &&& siblings.spec_right_siblings() == right_siblings_of::<
                TransactionAccumulatorHasher,
            >(hashes, page.spec_end() as nat)
        }),
    ensures
        list.transactions@.len() == txns.len(),
        list.events matches Some(events) && events@.len() == txns.len(),
        forall|i: int|
            #![trigger txns[i]]
            0 <= i < txns.len() ==> {
                &&& list.transactions@[i]@ == txns[i].transaction@
                &&& event_contents(list.events.unwrap()@[i]@) == event_contents(txns[i].events@)
                &&& list.proof.transaction_infos@[i].same_as(txns[i].transaction_info)
            },
        list.proof.spec_verify(ledger_info, Some(ledger.len() as Version)) is Ok,
{
    let first_version = ledger.len() as Version;
    let infos = ledger + batch_infos(txns);
    let hashes = transaction_info_hashes(infos);
    let root_hash = accumulator_root::<TransactionAccumulatorHasher>(hashes);
    saved_batch_is_stored(before, txns, first_version, Some(ledger_info), root_hash);
    saved_ledger_info_is_that_of_extended_ledger(ledger, txns, ledger_info);
    assert(is_ledger(infos, ledger_info));
    assert(page == VersionRange { start: first_version, count: txns.len() as u64 });
    let events = list.events.unwrap();
    assert forall|i: int| #![trigger txns[i]] 0 <= i < txns.len() implies {
        &&& list.transactions@[i]@ == txns[i].transaction@
        &&& event_contents(list.events.unwrap()@[i]@) == event_contents(txns[i].events@)
        &&& list.proof.transaction_infos@[i].same_as(txns[i].transaction_info)
    } by {
        assert(event_contents(events@[i]@) == batch_events(txns)[i]);
        assert(list.transactions@[i]@ == batch_transactions(txns)[i]);
        assert(list.proof.transaction_infos@[i].same_as(batch_infos(txns)[i]));
    }
    let part = infos.subrange(page.start as int, page.spec_end());
    assert forall|i: int| 0 <= i < list.proof.transaction_infos@.len() implies (
    #[trigger] list.proof.transaction_infos@[i]).same_as(part[i]) by {
        assert(part[i] == txns[i].transaction_info);
    }
    assert(same_infos(list.proof.transaction_infos@, part));
    answered_list_verifies(
        infos,
        ledger_info,
        first_version,
        txns.len() as u64,
        page,
        list.proof,
    );
}

/// Whether the row is what is stored under a version.
pub open spec fn reads_row(stored: StoredLedger, version: int, row: StoredOutput) -> bool {
    &&& row.transaction@ == stored.transactions[version]
    &&& row.write_set@ == stored.write_sets[version]
    &&& event_contents(row.events@) == stored.events[version]
    &&& row.transaction_info.same_as(stored.infos[version])
}

/// The outputs of saved transactions are read back: after a batch is saved, the output that is
/// made for one of its versions has the write set and the events that were saved, and the gas
/// used and the status of the transaction info that was saved with them.
pub proof fn saved_outputs_are_read_back(
    before: StoredLedger,
    txns: Seq<TransactionToCommit>,
    first_version: Version,
    ledger_info: Option<LedgerInfo>,
    new_root_hash: HashValue,
    i: int,
    row: StoredOutput,
    output: TransactionOutput,
)
    requires
        first_version + txns.len() <= u64::MAX,
        txns.len() <= usize::MAX,
        spec_check_batch(txns.len(), first_version, ledger_info) is Ok,
        spec_conclude_save(txns, first_version, ledger_info, new_root_hash) is Ok,
        0 <= i < txns.len(),
        reads_row(
            after_save(before, txns, first_version, ledger_info, new_root_hash),
            first_version + i,
            row,
        ),
        is_output_of(output, row),
    ensures
        row.transaction@ == txns[i].transaction@,
        row.transaction_info.same_as(txns[i].transaction_info),
        output.write_set@ == txns[i].write_set@,
        event_contents(output.events@) == event_contents(txns[i].events@),
        output.gas_used == txns[i].transaction_info.gas_used,
        output.status@ == txns[i].transaction_info.status@,
{
    saved_batch_is_stored(before, txns, first_version, ledger_info, new_root_hash);
    assert(row.transaction@ == batch_transactions(txns)[i]);
    assert(row.write_set@ == batch_write_sets(txns)[i]);
    assert(event_contents(row.events@) == batch_events(txns)[i]);
    assert(row.transaction_info.same_as(batch_infos(txns)[i]));
}

/// The state is read back: after a batch is saved, the state values that are stored under one of its
/// versions are those that the transaction updates, and so are the leaves from which the state tree
/// of that version is made. The node hashes of the transaction are used if and only if all
/// transactions of the batch have them. What is stored under other versions stays as it was.
pub proof fn saved_state_is_read_back(
    before: StoredLedger,
    txns: Seq<TransactionToCommit>,
    first_version: Version,
    ledger_info: Option<LedgerInfo>,
    new_root_hash: HashValue,
    version: int,
)
    requires
        first_version + txns.len() <= u64::MAX,
        txns.len() <= usize::MAX,
        spec_check_batch(txns.len(), first_version, ledger_info) is Ok,
        spec_conclude_save(txns, first_version, ledger_info, new_root_hash) is Ok,
    ensures
        ({
            let stored = after_save(before, txns, first_version, ledger_info, new_root_hash);
            let i = version - first_version;
            if 0 <= i < txns.len() {
                let tree = stored.state_trees[version];
                &&& stored.state_values.dom().contains(version)
                &&& stored.state_values[version] == update_contents(txns[i].state_updates@)
                &&& stored.state_trees.dom().contains(version)
                &&& tree.updates == update_contents(txns[i].state_updates@)
                &&& tree.node_hashes is Some <==> forall|j: int|
                    0 <= j < txns.len() ==> (#[trigger] txns[j]).jf_node_hashes is Some
                &&& tree.node_hashes is Some ==> tree.node_hashes.unwrap() == node_hash_contents(
                    txns[i].jf_node_hashes.unwrap()@,
                )
            } else {
                &&& stored.state_values.dom().contains(version)
                    <==> before.state_values.dom().contains(version)
                &&& stored.state_trees.dom().contains(version)
                    <==> before.state_trees.dom().contains(version)
                &&& before.state_values.dom().contains(version) ==> stored.state_values[version]
                    == before.state_values[version]
                &&& before.state_trees.dom().contains(version) ==> stored.state_trees[version]
                    == before.state_trees[version]
            }
        }),
{
    saved_batch_is_stored(before, txns, first_version, ledger_info, new_root_hash);
}

} // verus!
