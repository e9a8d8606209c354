//! What requests are answered, stated of the results of the functions that answer them.

use vstd::prelude::*;
use crate::crypto::hash::HashValue;
use crate::ledger::{
    LedgerInfo, LedgerInfoWithSignatures, StateValue, TransactionInfo, Version,
};
use crate::proofs::accumulator::LeafCount;
use crate::proofs::accumulator_proof::EventAccumulatorProof;
use crate::proofs::range_proof::TransactionAccumulatorRangeProof;
use crate::proofs::sparse::SparseMerkleProof;
use crate::proofs::sparse_tree::SparseTree;
use crate::proofs::transaction::{
    EventProof, TransactionInfoListWithProof, TransactionInfoWithProof,
};
use crate::storage::epochs::{
    check_epoch_range, check_known_version, epoch_page, epochs_to_show, finish_epoch_page,
    EpochChangeProof, EpochPage, MAX_NUM_EPOCH_ENDING_LEDGER_INFO,
};
use crate::storage::error::AptosDbError;
use crate::storage::events::{
    check_event_by_version, event_at_entry, get_first_seq_num_and_limit, in_order,
    surrounding_events, ContractEvent, EventByVersionWithProof, EventIndexEntry, EventWithProof,
    EventsFetch, EventsLookup, EventsQuery, Order,
};
use crate::storage::history::{
    first_version, version_timestamp, FirstVersion, GENESIS_PRUNE_MAX_VERSIONS,
    GENESIS_PRUNE_TARGET, GENESIS_TIMESTAMP,
};
use crate::storage::options::{
    aptos_rocksdb_property_name, column_families, gen_rocksdb_options, open_options, open_plan,
    secondary_open_plan, ColumnFamily, OpenMode, OpenPlan, RocksdbConfig, RocksdbOptions,
};
use crate::storage::paging::{
    error_if_too_many_requested, transaction_page, VersionRange, MAX_LIMIT,
};
use crate::storage::snapshot::{same_events, snapshot_parts, SnapshotParts};
use crate::storage::state::{
    check_ledger_version, check_queried_version, num_transactions, StateValueWithProof, TreeState,
};
use crate::storage::transactions::{
    event_versions, is_output_of, StoredOutput, Transaction, TransactionListWithProof,
    TransactionOutput, TransactionOutputListWithProof, TransactionWithProof, WriteSet,
};

verus! {

// ---- Pages of versions ----

/// A request is refused if and only if it asks for more items than are allowed. The error has both
/// numbers.
pub proof fn too_many_items_are_refused(
    num_requested: u64,
    max_allowed: u64,
    r: Result<(), AptosDbError>,
)
    requires
        call_ensures(error_if_too_many_requested, (num_requested, max_allowed), r),
    ensures
        r is Ok <==> num_requested <= max_allowed,
        r matches Err(e) ==> e == AptosDbError::TooManyRequested(num_requested, max_allowed),
{
}

/// A request for transactions is refused if and only if it asks for more than five thousand. A
/// version is on the page if and only if it is one of those asked for and is in the ledger, and
/// there is no page where no version is.
pub proof fn page_has_versions_asked_for(
    start_version: Version,
    limit: u64,
    ledger_version: Version,
    version: Version,
    r: Result<Option<VersionRange>, AptosDbError>,
)
    requires
        call_ensures(transaction_page, (start_version, limit, ledger_version), r),
    ensures
        r is Ok <==> limit <= 5000,
        r matches Err(e) ==> e == AptosDbError::TooManyRequested(limit, 5000),
        r matches Ok(Some(page)) ==> page.start == start_version && page.count > 0,
        r matches Ok(page) ==> {
            (page is Some && page.unwrap().start <= version < page.unwrap().start
                + page.unwrap().count) <==> start_version <= version <= ledger_version && version
                - start_version < limit
        },
{
}

/// The version after a range is the first one after all those that are in it.
pub proof fn end_is_after_all_versions(range: VersionRange, version: int, r: Version)
    requires
        call_ensures(VersionRange::end, (&range,), r),
    ensures
        range.start <= version ==> (version < r <==> version - range.start < range.count),
        range.contains(version) <==> range.start <= version < r,
{
}

/// Where events are asked for, the events of a version are read if and only if the version is on
/// the page. Where they are not asked for, none are read.
pub proof fn events_are_read_for_page(
    page: VersionRange,
    fetch_events: bool,
    version: int,
    r: VersionRange,
)
    requires
        call_ensures(event_versions, (&page, fetch_events), r),
    ensures
        r.start <= version < r.start + r.count <==> fetch_events && page.start <= version
            < page.start + page.count,
        fetch_events ==> r.start == page.start && r.count == page.count,
{
}

/// The limits on what one request may ask for.
pub proof fn limits_of_requests()
    ensures
        MAX_LIMIT == 5000,
        MAX_NUM_EPOCH_ENDING_LEDGER_INFO == 100,
        GENESIS_PRUNE_TARGET == 1,
        GENESIS_PRUNE_MAX_VERSIONS == 1,
        GENESIS_TIMESTAMP == 0,
{
}

// ---- Epochs ----

/// A range of epochs is refused if and only if it starts after it ends. The error has both epochs.
pub proof fn backward_epoch_range_is_refused(
    start_epoch: u64,
    end_epoch: u64,
    r: Result<(), AptosDbError>,
)
    requires
        call_ensures(check_epoch_range, (start_epoch, end_epoch), r),
    ensures
        r is Err <==> start_epoch > end_epoch,
        r matches Err(e) ==> e == (AptosDbError::BadEpochRange { start_epoch, end_epoch }),
{
}

/// A page of epochs is refused if and only if the range reaches beyond the latest epoch. An epoch is
/// on the page if and only if it is one of those asked for and one of the first ones up to the
/// limit, and the page says that there are more if and only if an epoch that was asked for is not
/// on it.
pub proof fn epoch_page_has_epochs_asked_for(
    start_epoch: u64,
    end_epoch: u64,
    latest_epoch: u64,
    limit: usize,
    epoch: int,
    r: Result<EpochPage, AptosDbError>,
)
    requires
        start_epoch <= end_epoch,
        end_epoch > latest_epoch ==> latest_epoch >= 1,
        call_ensures(epoch_page, (start_epoch, end_epoch, latest_epoch, limit), r),
    ensures
        r is Err <==> end_epoch > latest_epoch,
        r matches Err(e) ==> (e matches AptosDbError::EpochStillOpen {
            end_epoch: end,
            last_sealed_epoch,
        } && end == end_epoch && last_sealed_epoch + 1 == latest_epoch),
        r matches Ok(page) ==> {
            &&& page.start_epoch == start_epoch
            &&& page.start_epoch <= page.paging_epoch
            &&& page.start_epoch <= epoch < page.paging_epoch <==> start_epoch <= epoch < end_epoch
                && epoch - start_epoch < limit
            &&& page.more <==> page.paging_epoch < end_epoch
        },
{
}

/// Every range of epochs that starts before it ends and does not reach beyond the latest epoch is
/// answered with a page: neither the check of the range nor the search for the page refuses it.
pub proof fn sealed_epoch_range_is_answered(
    start_epoch: u64,
    end_epoch: u64,
    latest_epoch: u64,
    limit: usize,
    checked: Result<(), AptosDbError>,
    r: Result<EpochPage, AptosDbError>,
)
    requires
        start_epoch <= end_epoch <= latest_epoch,
        call_ensures(check_epoch_range, (start_epoch, end_epoch), checked),
        call_ensures(epoch_page, (start_epoch, end_epoch, latest_epoch, limit), r),
    ensures
        checked is Ok,
        r is Ok,
        end_epoch - start_epoch <= limit ==> r.unwrap().paging_epoch == end_epoch
            && !r.unwrap().more,
        end_epoch - start_epoch > limit ==> r.unwrap().paging_epoch - start_epoch == limit
            && r.unwrap().more,
{
}

/// A page of epochs is answered if and only if there is one ledger info for each of its epochs. The
/// answer has all of them, in the order in which they are stored, and says whether there are more.
/// Otherwise the error names the epoch after the last one that is there.
pub proof fn complete_epoch_page_is_answered(
    page: EpochPage,
    ledger_infos: Vec<LedgerInfoWithSignatures>,
    r: Result<EpochChangeProof, AptosDbError>,
)
    requires
        page.start_epoch <= page.paging_epoch,
        call_ensures(finish_epoch_page, (&page, ledger_infos), r),
    ensures
        r is Ok <==> page.start_epoch + ledger_infos@.len() == page.paging_epoch,
        r matches Ok(answer) ==> {
            &&& answer.more <==> page.more
            &&& answer.ledger_info_with_sigs@.len() == ledger_infos@.len()
            &&& forall|i: int|
                0 <= i < ledger_infos@.len() ==> #[trigger] answer.ledger_info_with_sigs@[i]
                    == ledger_infos@[i]
        },
        r matches Err(e) ==> (e matches AptosDbError::MissingEpochEnding { epoch } && {
            &&& ledger_infos@.len() == 0 ==> epoch == page.start_epoch
            &&& ledger_infos@.len() > 0 ==> epoch == ledger_infos@[ledger_infos@.len()
                - 1].ledger_info.next_block_epoch
        }),
{
}

/// A client is refused if and only if it knows a newer version than that of the ledger info.
pub proof fn newer_client_is_refused(
    known_version: Version,
    ledger_info: LedgerInfo,
    r: Result<(), AptosDbError>,
)
    requires
        call_ensures(check_known_version, (known_version, &ledger_info), r),
    ensures
        r is Ok <==> known_version <= ledger_info.version,
        r matches Err(e) ==> e == (AptosDbError::KnownVersionTooNew {
            known_version,
            ledger_version: ledger_info.version,
        }),
{
}

/// The end of an epoch is shown to a client if and only if the client does not know it and the
/// ledger info is in a later epoch, and the range that is shown is never refused.
pub proof fn unknown_epochs_are_shown(
    known_epoch: u64,
    ledger_info: LedgerInfo,
    epoch: u64,
    shown: Option<(u64, u64)>,
    checked: Result<(), AptosDbError>,
)
    requires
        call_ensures(epochs_to_show, (known_epoch, &ledger_info), shown),
        shown matches Some((start_epoch, end_epoch)) ==> call_ensures(
            check_epoch_range,
            (start_epoch, end_epoch),
            checked,
        ),
    ensures
        (shown is Some && shown.unwrap().0 <= epoch < shown.unwrap().1) <==> known_epoch <= epoch
            < ledger_info.next_block_epoch,
        shown is Some ==> checked is Ok && shown.unwrap().0 < shown.unwrap().1,
{
}

// ---- The state and the ledger at some version ----

/// A query is refused if and only if its version is newer than that of the ledger.
pub proof fn newer_query_is_refused(
    version: Version,
    ledger_version: Version,
    r: Result<(), AptosDbError>,
)
    requires
        call_ensures(check_queried_version, (version, ledger_version), r),
    ensures
        r is Ok <==> version <= ledger_version,
        r matches Err(e) ==> e == (AptosDbError::QueriedVersionTooNew { version, ledger_version }),
{
}

/// A version of the ledger is refused if and only if it is newer than the latest one.
pub proof fn newer_ledger_is_refused(
    ledger_version: Version,
    latest_version: Version,
    r: Result<(), AptosDbError>,
)
    requires
        call_ensures(check_ledger_version, (ledger_version, latest_version), r),
    ensures
        r is Ok <==> ledger_version <= latest_version,
        r matches Err(e) ==> e == (AptosDbError::LedgerVersionTooNew {
            ledger_version,
            latest_version,
        }),
{
}

/// The number of transactions up to a version counts the versions from zero up to that one.
pub proof fn transactions_are_counted(version: Option<Version>, other: Version, r: LeafCount)
    requires
        version is Some ==> version.unwrap() < u64::MAX,
        call_ensures(num_transactions, (version,), r),
    ensures
        other < r <==> version is Some && other <= version.unwrap(),
{
}

/// The state of the trees is what was read of them. Before the first checkpoint, the root hash of
/// the state is that of an empty tree.
pub proof fn tree_state_is_that_of_checkpoint(
    num_leaves: LeafCount,
    subtrees: Vec<HashValue>,
    checkpoint: Option<(Version, HashValue)>,
    r: TreeState,
)
    requires
        call_ensures(TreeState::at_checkpoint, (num_leaves, subtrees, checkpoint), r),
    ensures
        r.num_transactions == num_leaves,
        r.ledger_frozen_subtree_hashes@ == subtrees@,
        r.state_checkpoint_version is Some <==> checkpoint is Some,
        checkpoint is Some ==> (r.state_checkpoint_version.unwrap(), r.state_checkpoint_hash)
            == checkpoint.unwrap(),
        checkpoint is None ==> r.state_checkpoint_hash == SparseTree::Empty.root_hash(),
{
}

/// The first version that can be read is the one that the pruner knows, if there is a pruner.
pub proof fn pruner_knows_first_version(least_readable: Option<Version>, r: FirstVersion)
    requires
        call_ensures(first_version, (least_readable,), r),
    ensures
        r is Stored <==> least_readable is None,
        r matches FirstVersion::Known(version) ==> least_readable == Some(version),
{
}

/// The timestamp of a version is that of its block, and zero where it is in no block.
pub proof fn timestamp_is_that_of_block(block_timestamp: Option<u64>, r: u64)
    requires
        call_ensures(version_timestamp, (block_timestamp,), r),
    ensures
        block_timestamp is Some ==> r == block_timestamp.unwrap(),
        block_timestamp is None ==> r == 0,
{
}

// ---- Events ----

/// A range of sequence numbers is refused if and only if it is empty. Otherwise a sequence number is
/// in the range if and only if it is one of those asked for: in ascending order the first ones from
/// the cursor on, in descending order the last ones up to the cursor.
pub proof fn events_asked_for_are_in_range(
    order: Order,
    cursor: u64,
    limit: u64,
    seq_num: int,
    r: Result<(u64, u64), AptosDbError>,
)
    requires
        call_ensures(get_first_seq_num_and_limit, (order, cursor, limit), r),
    ensures
        r is Err <==> limit == 0,
        r matches Err(e) ==> e == AptosDbError::ZeroLimit,
        r matches Ok((first, count)) ==> {
            &&& count > 0
            &&& first <= seq_num < first + count <==> match order {
                Order::Ascending => cursor <= seq_num && seq_num - cursor < limit,
                Order::Descending => 0 <= seq_num <= cursor && cursor - seq_num < limit,
            }
        },
{
}

/// A query for events is refused if and only if it asks for more than five thousand, and otherwise
/// kept as it is.
pub proof fn events_query_is_kept(
    order: Order,
    start_seq_num: u64,
    limit: u64,
    r: Result<EventsQuery, AptosDbError>,
)
    requires
        call_ensures(EventsQuery::new, (order, start_seq_num, limit), r),
    ensures
        r is Ok <==> limit <= 5000,
        r matches Err(e) ==> e == AptosDbError::TooManyRequested(limit, 5000),
        r matches Ok(query) ==> query.order == order && query.start_seq_num == start_seq_num
            && query.limit == limit,
{
}

/// The latest sequence number is needed if and only if the order is descending and starts at the
/// largest number.
pub proof fn latest_is_needed_for_largest_number(query: EventsQuery, r: bool)
    requires
        call_ensures(EventsQuery::needs_latest, (&query,), r),
    ensures
        r <==> query.order is Descending && query.start_seq_num == 0xffff_ffff_ffff_ffff,
{
}

/// The part of the event index that is read has a sequence number if and only if it is one of those
/// asked for. The latest sequence number is where the query starts if it is needed, and does not
/// matter otherwise.
pub proof fn lookup_reads_events_asked_for(
    query: EventsQuery,
    latest: Option<u64>,
    seq_num: int,
    needs_latest: bool,
    r: Result<EventsLookup, AptosDbError>,
)
    requires
        call_ensures(EventsQuery::needs_latest, (&query,), needs_latest),
        call_ensures(EventsQuery::lookup, (&query, latest), r),
    ensures
        r is Err <==> query.limit == 0,
        r matches Err(e) ==> e == AptosDbError::ZeroLimit,
        r matches Ok(lookup) ==> {
            &&& lookup.order == query.order
            &&& !needs_latest ==> lookup.cursor == query.start_seq_num
            &&& needs_latest && latest is Some ==> lookup.cursor == latest.unwrap()
            &&& needs_latest && latest is None ==> lookup.cursor == 0
            &&& lookup.real_limit > 0
            &&& lookup.first_seq <= seq_num < lookup.first_seq + lookup.real_limit
                <==> match query.order {
                Order::Ascending => lookup.cursor <= seq_num && seq_num - lookup.cursor
                    < query.limit,
                Order::Descending => 0 <= seq_num <= lookup.cursor && lookup.cursor - seq_num
                    < query.limit,
            }
        },
{
}

/// All entries that the index gave are answered, or none: none if and only if the order is
/// descending and the last entry is before the cursor. Nothing is read yet.
pub proof fn entries_up_to_cursor_are_answered(
    lookup: EventsLookup,
    entries: Vec<EventIndexEntry>,
    r: EventsFetch,
)
    requires
        call_ensures(EventsLookup::fetch, (&lookup, entries), r),
    ensures
        r.spec_order() == lookup.order,
        r.spec_events().len() == 0,
        r.spec_entries().len() == 0 || r.spec_entries() == entries@,
        entries@.len() > 0 ==> (r.spec_entries().len() == 0 <==> lookup.order is Descending
            && entries@[entries@.len() - 1].seq_num < lookup.cursor),
{
}

/// The next entry is the first one whose event is not read yet, as long as there is one.
pub proof fn next_entry_is_first_unread(fetch: EventsFetch, r: Option<EventIndexEntry>)
    requires
        call_ensures(EventsFetch::next_entry, (&fetch,), r),
    ensures
        r is None <==> fetch.spec_events().len() == fetch.spec_entries().len(),
        r matches Some(entry) ==> fetch.spec_events().len() < fetch.spec_entries().len() && entry
            == fetch.spec_entries()[fetch.spec_events().len() as int],
{
}

/// An event is refused if and only if its sequence number is not that of the entry of the index.
pub proof fn event_of_other_number_is_refused(
    entry: EventIndexEntry,
    event: ContractEvent,
    r: Result<(), AptosDbError>,
)
    requires
        call_ensures(EventsFetch::check_event, (&entry, &event), r),
    ensures
        r is Ok <==> entry.seq_num == event.sequence_number,
        r matches Err(e) ==> e == (AptosDbError::EventIndexBroken {
            indexed: entry.seq_num,
            stored: event.sequence_number,
        }),
{
}

/// An event that is added is put behind those that were read, at the place in the ledger that its
/// entry of the index points to, with the proofs that were read for it.
pub proof fn event_is_added_at_entry(
    fetch: &mut EventsFetch,
    event: ContractEvent,
    event_proof: EventAccumulatorProof,
    info_proof: TransactionInfoWithProof,
)
    requires
        call_ensures(EventsFetch::add_event, (fetch, event, event_proof, info_proof), ()),
    ensures
        ({
            let n = old(fetch).spec_events().len() as int;
            let entry = old(fetch).spec_entries()[n];
            let added = final(fetch).spec_events()[n];
            &&& final(fetch).spec_order() == old(fetch).spec_order()
            &&& final(fetch).spec_entries() == old(fetch).spec_entries()
            &&& final(fetch).spec_events().len() == n + 1
            &&& forall|i: int|
                0 <= i < n ==> #[trigger] final(fetch).spec_events()[i]
                    == old(fetch).spec_events()[i]
            &&& added.transaction_version == entry.version
            &&& added.event_index == entry.index
            &&& added.event == event
            &&& added.proof.spec_transaction_info_with_proof() == info_proof
            &&& added.proof.spec_event_proof() == event_proof
        }),
{
    let events = final(fetch).spec_events();
    let n = old(fetch).spec_events().len() as int;
    assert forall|i: int| 0 <= i < n implies #[trigger] events[i] == old(fetch).spec_events()[i] by {
        assert(events.drop_last()[i] == events[i]);
    }
}

/// The answer has the events that were read, each of them once: in ascending order as they were
/// read, in descending order the last one first. Each event is the one that its entry of the index
/// points to.
pub proof fn events_are_answered_in_order(fetch: EventsFetch, i: int, r: Vec<EventWithProof>)
    requires
        fetch.spec_events().len() == fetch.spec_entries().len(),
        call_ensures(EventsFetch::finish, (fetch,), r),
    ensures
        r@.len() == fetch.spec_events().len(),
        0 <= i < r@.len() ==> {
            &&& fetch.spec_order() is Ascending ==> r@[i] == fetch.spec_events()[i]
            &&& fetch.spec_order() is Descending ==> r@[r@.len() - 1 - i] == fetch.spec_events()[i]
        },
        0 <= i < r@.len() ==> {
            let entry = fetch.spec_entries()[i];
            let event = if fetch.spec_order() is Ascending {
                r@[i]
            } else {
                r@[r@.len() - 1 - i]
            };
            &&& event.transaction_version == entry.version
            &&& event.event_index == entry.index
            &&& event.event.sequence_number == entry.seq_num
        },
{
    let entries = fetch.spec_entries();
    let k = if fetch.spec_order() is Ascending {
        i
    } else {
        r@.len() - 1 - i
    };
    if 0 <= i < r@.len() {
        assert(event_at_entry(r@[k], in_order(fetch.spec_order(), entries)[k]));
        assert(in_order(fetch.spec_order(), entries)[k] == entries[i]);
    }
}

/// The events around a version are refused if and only if the version of the proof is not committed
/// yet, or is older than the version.
pub proof fn unprovable_events_are_refused(
    event_version: Version,
    proof_version: Version,
    latest_version: Version,
    r: Result<(), AptosDbError>,
)
    requires
        call_ensures(
            check_event_by_version,
            (event_version, proof_version, latest_version),
            r,
        ),
    ensures
        r is Ok <==> event_version <= proof_version <= latest_version,
        r matches Err(e) ==> (e is ProofVersionTooNew <==> latest_version < proof_version),
        r matches Err(e) ==> e == (AptosDbError::ProofVersionTooNew {
            proof_version,
            latest_version,
        }) || e == (AptosDbError::EventVersionTooNew { event_version, proof_version }),
{
}

/// The events that are asked for around a version are the latest one at or before it and the next
/// one, or the first one of all where there is none at or before it.
pub proof fn surrounding_events_are_neighbours(
    latest_at_version: Option<u64>,
    seq_num: int,
    r: (u64, u64),
)
    requires
        call_ensures(surrounding_events, (latest_at_version,), r),
    ensures
        r.0 <= seq_num < r.0 + r.1 <==> match latest_at_version {
            Some(latest) => seq_num == latest || seq_num == latest + 1,
            None => seq_num == 0,
        },
{
}

/// The events that were found around a version are answered, each of them once: the lower one is the
/// first one where there is an event at or before the version, and the upper one is the one that is
/// left.
pub proof fn surrounding_events_are_answered(
    latest_at_version: Option<u64>,
    events: Vec<EventWithProof>,
    asked_for: (u64, u64),
    r: EventByVersionWithProof,
)
    requires
        call_ensures(surrounding_events, (latest_at_version,), asked_for),
        events@.len() <= asked_for.1,
        call_ensures(
            EventByVersionWithProof::from_surrounding,
            (latest_at_version, events),
            r,
        ),
    ensures
        r.lower_bound_incl is Some <==> latest_at_version is Some && events@.len() >= 1,
        r.lower_bound_incl is Some ==> r.lower_bound_incl.unwrap() == events@[0],
        r.upper_bound_excl is Some ==> r.upper_bound_excl.unwrap() == events@[events@.len() - 1],
        events@.len() == (if r.lower_bound_incl is Some {
            1int
        } else {
            0
        }) + (if r.upper_bound_excl is Some {
            1int
        } else {
            0
        }),
{
}

// ---- Answers ----

/// A transaction is answered as it was read, with its events if and only if they are asked for.
pub proof fn transaction_is_answered(
    version: Version,
    transaction: Transaction,
    fetch_events: bool,
    events: Vec<ContractEvent>,
    proof_of_info: TransactionInfoWithProof,
    r: TransactionWithProof,
)
    requires
        call_ensures(
            TransactionWithProof::for_version,
            (version, transaction, fetch_events, events, proof_of_info),
            r,
        ),
    ensures
        r.version == version,
        r.transaction@ == transaction@,
        r.events is Some <==> fetch_events,
        r.events is Some ==> r.events.unwrap()@ == events@,
        r.proof == proof_of_info,
{
}

/// The transactions of a page are answered as they were read, from the first version of the page
/// on, with their events if and only if they are asked for.
pub proof fn transactions_are_answered(
    page: VersionRange,
    fetch_events: bool,
    transactions: Vec<Transaction>,
    transaction_infos: Vec<TransactionInfo>,
    events: Vec<Vec<ContractEvent>>,
    range_proof: TransactionAccumulatorRangeProof,
    r: TransactionListWithProof,
)
    requires
        transactions@.len() == page.count,
        transaction_infos@.len() == page.count,
        events@.len() == if fetch_events {
            page.count
        } else {
            0
        },
        call_ensures(
            TransactionListWithProof::for_page,
            (&page, fetch_events, transactions, transaction_infos, events, range_proof),
            r,
        ),
    ensures
        r.first_transaction_version == Some(page.start),
        r.transactions@ == transactions@,
        r.events is Some <==> fetch_events,
        r.events is Some ==> r.events.unwrap()@ == events@,
        r.proof.transaction_infos@ == transaction_infos@,
        r.proof.ledger_info_to_transaction_infos_proof == range_proof,
{
}

/// The outputs of a page are answered from the first version of the page on. Each one has the
/// transaction, the write set and the events of its own row, and the gas used and the status of the
/// transaction info of that row.
pub proof fn outputs_are_answered(
    page: VersionRange,
    stored: Vec<StoredOutput>,
    range_proof: TransactionAccumulatorRangeProof,
    i: int,
    r: TransactionOutputListWithProof,
)
    requires
        stored@.len() == page.count,
        call_ensures(TransactionOutputListWithProof::for_page, (&page, stored, range_proof), r),
    ensures
        r.first_transaction_output_version == Some(page.start),
        r.transactions_and_outputs@.len() == page.count,
        0 <= i < page.count ==> {
            let (transaction, output) = r.transactions_and_outputs@[i];
            &&& transaction@ == stored@[i].transaction@
            &&& output.write_set@ == stored@[i].write_set@
            &&& output.events@ == stored@[i].events@
            &&& output.gas_used == stored@[i].transaction_info.gas_used
            &&& output.status@ == stored@[i].transaction_info.status@
        },
        r.proof.transaction_infos@.len() == page.count,
        0 <= i < page.count ==> r.proof.transaction_infos@[i] == stored@[i].transaction_info,
        r.proof.ledger_info_to_transaction_infos_proof == range_proof,
{
    if 0 <= i < page.count {
        assert(is_output_of(r.transactions_and_outputs@[i].1, stored@[i]));
    }
}

/// The answers without any version have nothing in them.
pub proof fn empty_answers_have_nothing(
    list: TransactionListWithProof,
    outputs: TransactionOutputListWithProof,
)
    requires
        call_ensures(TransactionListWithProof::new_empty, (), list),
        call_ensures(TransactionOutputListWithProof::new_empty, (), outputs),
    ensures
        list.transactions@.len() == 0 && list.events is None,
        list.first_transaction_version is None,
        list.proof.transaction_infos@.len() == 0,
        list.proof.ledger_info_to_transaction_infos_proof.spec_left_siblings().len() == 0,
        list.proof.ledger_info_to_transaction_infos_proof.spec_right_siblings().len() == 0,
        outputs.transactions_and_outputs@.len() == 0,
        outputs.first_transaction_output_version is None,
        outputs.proof.transaction_infos@.len() == 0,
        outputs.proof.ledger_info_to_transaction_infos_proof.spec_left_siblings().len() == 0,
        outputs.proof.ledger_info_to_transaction_infos_proof.spec_right_siblings().len() == 0,
{
}

/// A state value is answered as it was read, with the proofs that were read.
pub proof fn state_value_is_answered(
    version: Version,
    value: Option<StateValue>,
    info_proof: TransactionInfoWithProof,
    value_proof: SparseMerkleProof,
    r: StateValueWithProof,
)
    requires
        call_ensures(
            StateValueWithProof::for_version,
            (version, value, info_proof, value_proof),
            r,
        ),
    ensures
        r.version == version,
        r.value is Some <==> value is Some,
        value is Some ==> r.value.unwrap().bytes@ == value.unwrap().bytes@,
        r.proof.spec_transaction_info_with_proof() == info_proof,
        r.proof.spec_value_proof() == value_proof,
{
}

/// A snapshot is accepted if and only if it comes with one output and one transaction info. What is
/// stored is then the transaction, its output with its events, and its transaction info, with the
/// left siblings of the proof as the frozen subtrees.
pub proof fn snapshot_of_one_transaction_is_accepted(
    list: TransactionOutputListWithProof,
    r: Result<SnapshotParts, AptosDbError>,
)
    requires
        call_ensures(snapshot_parts, (list,), r),
    ensures
        r is Ok <==> list.transactions_and_outputs@.len() == 1
            && list.proof.transaction_infos@.len() == 1,
        r matches Err(e) ==> (e is WrongOutputCount <==> list.transactions_and_outputs@.len() != 1),
        r matches Err(e) ==> e == (AptosDbError::WrongOutputCount {
            found: list.transactions_and_outputs@.len() as usize,
        }) || e == (AptosDbError::WrongInfoCount {
            found: list.proof.transaction_infos@.len() as usize,
        }),
        r matches Ok(parts) ==> {
            let (transaction, output) = list.transactions_and_outputs@[0];
            &&& parts.transactions@ == seq![transaction]
            &&& parts.outputs@ == seq![output]
            &&& parts.transaction_infos@ == seq![list.proof.transaction_infos@[0]]
            &&& parts.frozen_subtrees@
                == list.proof.ledger_info_to_transaction_infos_proof.spec_left_siblings()
            &&& parts.events@.len() == 1
            &&& parts.events@[0]@.len() == output.events@.len()
            &&& forall|i: int|
                #![trigger parts.events@[0]@[i]]
                0 <= i < output.events@.len() ==> {
                    &&& parts.events@[0]@[i].sequence_number == output.events@[i].sequence_number
                    &&& parts.events@[0]@[i].event_data@ == output.events@[i].event_data@
                }
        },
{
    if let Ok(parts) = r {
        let (transaction, output) = list.transactions_and_outputs@[0];
        assert(parts.transactions@ =~= seq![transaction]);
        assert(parts.outputs@ =~= seq![output]);
        assert(same_events(parts.events@[0]@, output.events@));
    }
}

/// Events, outputs, lists and epoch changes have the parts that they are made of, and the copy of an
/// event has the same parts.
pub proof fn answers_have_their_parts(
    sequence_number: u64,
    event_data: Vec<u8>,
    event: ContractEvent,
    got_number: u64,
    event_copy: ContractEvent,
    version: Version,
    index: u64,
    event_proof: EventProof,
    with_proof: EventWithProof,
    write_set: WriteSet,
    events: Vec<ContractEvent>,
    gas_used: u64,
    status: Vec<u8>,
    output: TransactionOutput,
    got_events: &Vec<ContractEvent>,
    infos: Vec<LedgerInfoWithSignatures>,
    more: bool,
    change: EpochChangeProof,
)
    requires
        call_ensures(ContractEvent::new, (sequence_number, event_data), event),
        call_ensures(ContractEvent::sequence_number, (&event,), got_number),
        call_ensures(ContractEvent::clone, (&event,), event_copy),
        call_ensures(EventWithProof::new, (version, index, event, event_proof), with_proof),
        call_ensures(TransactionOutput::new, (write_set, events, gas_used, status), output),
        call_ensures(TransactionOutput::events, (&output,), got_events),
        call_ensures(EpochChangeProof::new, (infos, more), change),
    ensures
        got_number == sequence_number && event.sequence_number == sequence_number,
        event.event_data@ == event_data@,
        event_copy.sequence_number == sequence_number,
        event_copy.event_data@ == event_data@,
        with_proof.transaction_version == version && with_proof.event_index == index,
        with_proof.event == event && with_proof.proof == event_proof,
        output.write_set@ == write_set@ && output.events@ == events@,
        output.gas_used == gas_used && output.status@ == status@,
        got_events@ == events@,
        change.ledger_info_with_sigs@ == infos@,
        change.more <==> more,
{
}

/// Lists of transactions and of outputs have the parts that they are made of.
pub proof fn lists_have_their_parts(
    transactions: Vec<Transaction>,
    events: Option<Vec<Vec<ContractEvent>>>,
    first_version: Option<Version>,
    infos: TransactionInfoListWithProof,
    list: TransactionListWithProof,
    outputs: Vec<(Transaction, TransactionOutput)>,
    output_list: TransactionOutputListWithProof,
)
    requires
        call_ensures(
            TransactionListWithProof::new,
            (transactions, events, first_version, infos),
            list,
        ),
        call_ensures(
            TransactionOutputListWithProof::new,
            (outputs, first_version, infos),
            output_list,
        ),
    ensures
        list.transactions@ == transactions@ && list.events == events,
        list.first_transaction_version == first_version && list.proof == infos,
        output_list.transactions_and_outputs@ == outputs@,
        output_list.first_transaction_output_version == first_version,
        output_list.proof == infos,
{
}

// ---- How the database is opened ----

/// The storage is created where it is missing if and only if it is opened for writing. All files are
/// kept open for a secondary, and as many as configured otherwise. The size of the logs is always as
/// configured.
pub proof fn storage_is_opened_as_configured(
    mode: OpenMode,
    config: RocksdbConfig,
    r: RocksdbOptions,
    plain: RocksdbOptions,
)
    requires
        call_ensures(open_options, (mode, &config), r),
        call_ensures(gen_rocksdb_options, (&config,), plain),
    ensures
        r.create_if_missing <==> mode is ReadWrite,
        r.create_missing_column_families <==> mode is ReadWrite,
        r.max_open_files == if mode is Secondary {
            -1
        } else {
            config.max_open_files as int
        },
        r.max_total_wal_size == config.max_total_wal_size,
        mode is Readonly ==> r == plain,
        !plain.create_if_missing && !plain.create_missing_column_families,
        plain.max_open_files == config.max_open_files,
        plain.max_total_wal_size == config.max_total_wal_size,
{
}

/// Opening is refused if and only if pruning is asked for while only reading. Otherwise the mode is
/// the one asked for, the options are those of the mode, and a pruner is started if and only if
/// pruning is asked for. A secondary never prunes.
pub proof fn database_is_opened_as_asked_for(
    readonly: bool,
    no_pruning: bool,
    config: RocksdbConfig,
    r: Result<OpenPlan, AptosDbError>,
    secondary: OpenPlan,
    options: RocksdbOptions,
    secondary_options: RocksdbOptions,
)
    requires
        call_ensures(open_plan, (readonly, no_pruning, &config), r),
        r is Ok ==> call_ensures(open_options, (r.unwrap().mode, &config), options),
        call_ensures(secondary_open_plan, (&config,), secondary),
        call_ensures(open_options, (secondary.mode, &config), secondary_options),
    ensures
        r is Err <==> readonly && !no_pruning,
        r matches Err(e) ==> e == AptosDbError::PruneWhenReadonly,
        r matches Ok(plan) ==> {
            &&& plan.mode is Readonly <==> readonly
            &&& plan.mode is ReadWrite <==> !readonly
            &&& plan.options == options
            &&& plan.starts_pruner <==> !no_pruning
        },
        secondary.mode is Secondary && !secondary.starts_pruner,
        secondary.options == secondary_options,
{
}

/// Every column family is opened, and none of them twice.
pub proof fn every_column_family_is_opened_once(family: ColumnFamily, r: Vec<ColumnFamily>)
    requires
        call_ensures(column_families, (), r),
    ensures
        exists|k: int| 0 <= k < r@.len() && #[trigger] r@[k] == family,
        forall|j: int, k: int|
            0 <= j < k < r@.len() ==> #[trigger] r@[j] != #[trigger] r@[k],
{
    let k: int = match family {
        ColumnFamily::Default => 0,
        ColumnFamily::EpochByVersion => 1,
        ColumnFamily::EventAccumulator => 2,
        ColumnFamily::EventByKey => 3,
        ColumnFamily::EventByVersion => 4,
        ColumnFamily::Event => 5,
        ColumnFamily::JellyfishMerkleNode => 6,
        ColumnFamily::LedgerCounters => 7,
        ColumnFamily::StaleNodeIndex => 8,
        ColumnFamily::StateValue => 9,
        ColumnFamily::Transaction => 10,
        ColumnFamily::TransactionAccumulator => 11,
        ColumnFamily::TransactionByAccount => 12,
        ColumnFamily::TransactionByHash => 13,
        ColumnFamily::TransactionInfo => 14,
        ColumnFamily::WriteSet => 15,
    };
    assert(r@[k] == family);
}

/// The name under which a property is reported is `aptos_` and the name of the property, with an
/// underscore in place of each dot and every other character as it is.
pub proof fn property_name_has_no_dots(property: &str, i: int, r: String)
    requires
        call_ensures(aptos_rocksdb_property_name, (property,), r),
    ensures
        r@.len() == 6 + property@.len(),
        r@.take(6) == seq!['a', 'p', 't', 'o', 's', '_'],
        0 <= i < property@.len() && property@[i] == '.' ==> r@[6 + i] == '_',
        0 <= i < property@.len() && property@[i] != '.' ==> r@[6 + i] == property@[i],
{
    reveal_strlit("aptos_");
    assert(r@.take(6) =~= "aptos_"@);
}

// ---- What can be asked for ----

/// A page can be asked for wherever its versions, and those up to the end of the ledger, can be
/// counted with 64 bits. A range ends, and transactions are counted, wherever the number fits.
pub proof fn pages_that_can_be_asked_for(
    start_version: Version,
    limit: u64,
    ledger_version: Version,
    range: VersionRange,
    version: Option<Version>,
)
    ensures
        ledger_version < u64::MAX ==> call_requires(
            transaction_page,
            (start_version, limit, ledger_version),
        ),
        limit == 0 || limit > 5000 || start_version > ledger_version ==> call_requires(
            transaction_page,
            (start_version, limit, ledger_version),
        ),
        range.start + range.count <= u64::MAX ==> call_requires(VersionRange::end, (&range,)),
        version is None || version.unwrap() < u64::MAX ==> call_requires(
            num_transactions,
            (version,),
        ),
{
}

/// Every range of epochs that passes its check can be asked for, and every page that is found can be
/// answered with whatever was read.
pub proof fn epochs_that_can_be_asked_for(
    start_epoch: u64,
    end_epoch: u64,
    latest_epoch: u64,
    limit: usize,
    checked: Result<(), AptosDbError>,
    found: Result<EpochPage, AptosDbError>,
    ledger_infos: Vec<LedgerInfoWithSignatures>,
)
    requires
        call_ensures(check_epoch_range, (start_epoch, end_epoch), checked),
        checked is Ok,
        call_ensures(epoch_page, (start_epoch, end_epoch, latest_epoch, limit), found),
    ensures
        latest_epoch >= 1 ==> call_requires(
            epoch_page,
            (start_epoch, end_epoch, latest_epoch, limit),
        ),
        found is Ok ==> call_requires(finish_epoch_page, (&found.unwrap(), ledger_infos)),
{
}

/// As long as there is a next entry, the event that passes its check can be added, and once there is
/// none, the answer can be put together. What was found around a version can be answered.
pub proof fn events_that_can_be_answered(
    fetch: &mut EventsFetch,
    next: Option<EventIndexEntry>,
    event: ContractEvent,
    checked: Result<(), AptosDbError>,
    event_proof: EventAccumulatorProof,
    info_proof: TransactionInfoWithProof,
    latest_at_version: Option<u64>,
    asked_for: (u64, u64),
    events: Vec<EventWithProof>,
)
    requires
        call_ensures(EventsFetch::next_entry, (&*fetch,), next),
        next is Some ==> call_ensures(
            EventsFetch::check_event,
            (&next.unwrap(), &event),
            checked,
        ),
        call_ensures(surrounding_events, (latest_at_version,), asked_for),
        events@.len() <= asked_for.1,
    ensures
        next is Some && checked is Ok ==> call_requires(
            EventsFetch::add_event,
            (fetch, event, event_proof, info_proof),
        ),
        next is None ==> call_requires(EventsFetch::finish, (*old(fetch),)),
        call_requires(EventByVersionWithProof::from_surrounding, (latest_at_version, events)),
{
}

/// What was read for a page can be answered wherever there is as much of it as there are versions.
pub proof fn pages_that_can_be_answered(
    page: VersionRange,
    fetch_events: bool,
    event_page: VersionRange,
    transactions: Vec<Transaction>,
    transaction_infos: Vec<TransactionInfo>,
    events: Vec<Vec<ContractEvent>>,
    stored: Vec<StoredOutput>,
    range_proof: TransactionAccumulatorRangeProof,
)
    requires
        call_ensures(event_versions, (&page, fetch_events), event_page),
        transactions@.len() == page.count,
        transaction_infos@.len() == page.count,
        events@.len() == event_page.count,
        stored@.len() == page.count,
    ensures
        call_requires(
            TransactionListWithProof::for_page,
            (&page, fetch_events, transactions, transaction_infos, events, range_proof),
        ),
        call_requires(TransactionOutputListWithProof::for_page, (&page, stored, range_proof)),
{
}

} // verus!
