use aptosdb::crypto::hash::{
    accumulator_placeholder_hash, sparse_merkle_placeholder_hash, CryptoHash, HashValue,
    TransactionAccumulatorHasher,
};
use aptosdb::ledger::{LedgerInfo, LedgerInfoWithSignatures, StateValue, TransactionInfo};
use aptosdb::proofs::accumulator::InMemoryAccumulator;
use aptosdb::proofs::accumulator_proof::{EventAccumulatorProof, TransactionAccumulatorProof};
use aptosdb::proofs::range_proof::TransactionAccumulatorRangeProof;
use aptosdb::proofs::sparse::SparseMerkleProof;
use aptosdb::proofs::transaction::{TransactionInfoListWithProof, TransactionInfoWithProof};
use aptosdb::storage::commit::{
    check_batch, conclude_save, latest_state_checkpoint_version, prepare_save, SaveAction,
    TransactionToCommit,
};
use aptosdb::storage::epochs::{
    check_epoch_range, check_known_version, epoch_page, epochs_to_show, finish_epoch_page,
    EpochPage, MAX_NUM_EPOCH_ENDING_LEDGER_INFO,
};
use aptosdb::storage::error::AptosDbError;
use aptosdb::storage::events::{
    check_event_by_version, get_first_seq_num_and_limit, surrounding_events, ContractEvent,
    EventByVersionWithProof, EventIndexEntry, EventWithProof, EventsFetch, EventsQuery, Order,
};
use aptosdb::storage::history::{
    first_version, version_timestamp, FirstVersion, GENESIS_PRUNE_TARGET,
};
use aptosdb::storage::options::{
    aptos_rocksdb_property_name, column_families, gen_rocksdb_options, open_options, open_plan,
    secondary_open_plan, ColumnFamily, OpenMode, OpenPlan, RocksdbConfig, RocksdbOptions,
};
use aptosdb::storage::paging::{
    error_if_too_many_requested, transaction_page, VersionRange, MAX_LIMIT,
};
use aptosdb::storage::snapshot::snapshot_parts;
use aptosdb::storage::state::{
    check_ledger_version, check_queried_version, num_transactions, StateValueWithProof, TreeState,
};
use aptosdb::storage::transactions::{
    event_versions, StoredOutput, TransactionListWithProof, TransactionOutput,
    TransactionOutputListWithProof, TransactionWithProof,
};
use itertools::zip_eq;
use std::collections::BTreeMap;

fn h(b: u8) -> HashValue {
    HashValue::new([b; 32])
}

fn info(b: u8) -> TransactionInfo {
    TransactionInfo::new(10 * b as u64, vec![b, b], h(b), None, vec![])
}

fn info_with_proof(b: u8) -> TransactionInfoWithProof {
    TransactionInfoWithProof::new(TransactionAccumulatorProof::new(vec![]), info(b))
}

#[test]
fn too_many_requested() {
    assert_eq!(MAX_LIMIT, 5000);
    assert_eq!(error_if_too_many_requested(5000, MAX_LIMIT), Ok(()));
    assert_eq!(
        error_if_too_many_requested(5001, MAX_LIMIT),
        Err(AptosDbError::TooManyRequested(5001, 5000))
    );
}

#[test]
fn pages_of_transactions() {
    let page = |start, count| Ok(Some(VersionRange { start, count }));
    assert_eq!(transaction_page(10, 5, 100), page(10, 5));
    assert_eq!(transaction_page(98, 5, 100), page(98, 3));
    assert_eq!(transaction_page(100, 5, 100), page(100, 1));
    assert_eq!(transaction_page(101, 5, 100), Ok(None));
    assert_eq!(transaction_page(10, 0, 100), Ok(None));
    assert_eq!(transaction_page(0, 5000, 100_000), page(0, 5000));
    assert_eq!(transaction_page(u64::MAX - 10, 5, u64::MAX), page(u64::MAX - 10, 5));
    assert_eq!(
        transaction_page(101, 5001, 100),
        Err(AptosDbError::TooManyRequested(5001, 5000))
    );
    assert_eq!(VersionRange { start: 10, count: 5 }.end(), 15);
}

#[test]
fn pages_follow_each_other() {
    let (mut start, mut seen) = (3u64, vec![]);
    while let Some(page) = transaction_page(start, 4, 20).unwrap() {
        seen.extend(page.start..page.end());
        start = page.end();
    }
    assert_eq!(seen, (3..=20).collect::<Vec<u64>>());
}

#[test]
fn epoch_ranges() {
    assert_eq!(check_epoch_range(3, 3), Ok(()));
    assert_eq!(
        check_epoch_range(4, 3),
        Err(AptosDbError::BadEpochRange { start_epoch: 4, end_epoch: 3 })
    );
    assert_eq!(
        epoch_page(0, 6, 5, 100),
        Err(AptosDbError::EpochStillOpen { end_epoch: 6, last_sealed_epoch: 4 })
    );
    let page = |paging_epoch, more| Ok(EpochPage { start_epoch: 2, paging_epoch, more });
    assert_eq!(epoch_page(2, 5, 5, 100), page(5, false));
    assert_eq!(epoch_page(2, 5, 5, 3), page(5, false));
    assert_eq!(epoch_page(2, 5, 5, 2), page(4, true));
    assert_eq!(epoch_page(2, 200, 500, MAX_NUM_EPOCH_ENDING_LEDGER_INFO), page(102, true));
}

#[test]
fn epoch_pages_follow_each_other() {
    let (mut start, mut pages) = (1, vec![]);
    loop {
        let page = epoch_page(start, 10, 12, 4).unwrap();
        pages.push((page.start_epoch, page.paging_epoch));
        if !page.more {
            break;
        }
        start = page.paging_epoch;
    }
    assert_eq!(pages, vec![(1, 5), (5, 9), (9, 10)]);
}

fn epoch_end(next_block_epoch: u64) -> LedgerInfoWithSignatures {
    LedgerInfoWithSignatures::new(LedgerInfo::new(0, h(0), next_block_epoch), vec![])
}

#[test]
fn epoch_endings_must_be_complete() {
    let page = EpochPage { start_epoch: 2, paging_epoch: 4, more: true };
    let answer = finish_epoch_page(&page, vec![epoch_end(3), epoch_end(4)]).unwrap();
    assert!(answer.more);
    assert_eq!(answer.ledger_info_with_sigs.len(), 2);
    assert_eq!(
        finish_epoch_page(&page, vec![epoch_end(3)]).err(),
        Some(AptosDbError::MissingEpochEnding { epoch: 3 })
    );
    assert_eq!(
        finish_epoch_page(&page, vec![]).err(),
        Some(AptosDbError::MissingEpochEnding { epoch: 2 })
    );
}

#[test]
fn state_proof_for_a_known_version() {
    let ledger_info = LedgerInfo::new(10, h(1), 5);
    assert_eq!(check_known_version(10, &ledger_info), Ok(()));
    assert_eq!(
        check_known_version(11, &ledger_info),
        Err(AptosDbError::KnownVersionTooNew { known_version: 11, ledger_version: 10 })
    );
    assert_eq!(epochs_to_show(3, &ledger_info), Some((3, 5)));
    assert_eq!(epochs_to_show(5, &ledger_info), None);
}

#[test]
fn sequence_number_ranges() {
    let range = get_first_seq_num_and_limit;
    assert_eq!(range(Order::Ascending, 7, 3), Ok((7, 3)));
    assert_eq!(range(Order::Descending, 7, 3), Ok((5, 3)));
    assert_eq!(range(Order::Descending, 2, 3), Ok((0, 3)));
    assert_eq!(range(Order::Descending, 3, 3), Ok((1, 3)));
    assert_eq!(range(Order::Descending, 1, 3), Ok((0, 2)));
    assert_eq!(range(Order::Descending, 0, 1), Ok((0, 1)));
    assert_eq!(range(Order::Descending, u64::MAX, u64::MAX), Ok((1, u64::MAX)));
    assert_eq!(range(Order::Ascending, 7, 0), Err(AptosDbError::ZeroLimit));
}

/// Runs a query against events with the sequence numbers below `count`.
fn query(order: Order, start: u64, limit: u64, count: u64) -> Result<Vec<u64>, AptosDbError> {
    let query = EventsQuery::new(order, start, limit)?;
    let latest = if query.needs_latest() { count.checked_sub(1) } else { None };
    let lookup = query.lookup(latest)?;
    let end = count.min(lookup.first_seq.saturating_add(lookup.real_limit));
    let entries = (lookup.first_seq..end)
        .map(|n| EventIndexEntry { seq_num: n, version: 10 * n, index: n % 3 })
        .collect();
    let mut fetch = lookup.fetch(entries);
    while let Some(entry) = fetch.next_entry() {
        let event = ContractEvent::new(entry.seq_num, vec![]);
        EventsFetch::check_event(&entry, &event)?;
        fetch.add_event(event, EventAccumulatorProof::new(vec![]), info_with_proof(1));
    }
    let answer = fetch.finish();
    for e in &answer {
        assert_eq!(e.transaction_version, 10 * e.event.sequence_number());
        assert_eq!(e.event_index, e.event.sequence_number() % 3);
    }
    Ok(answer.iter().map(|e| e.event.sequence_number()).collect())
}

#[test]
fn event_queries() {
    assert_eq!(query(Order::Ascending, 5, 3, 101), Ok(vec![5, 6, 7]));
    assert_eq!(query(Order::Ascending, 99, 5, 101), Ok(vec![99, 100]));
    assert_eq!(query(Order::Ascending, 101, 5, 101), Ok(vec![]));
    assert_eq!(query(Order::Descending, 5, 3, 101), Ok(vec![5, 4, 3]));
    assert_eq!(query(Order::Descending, 1, 3, 101), Ok(vec![1, 0]));
    // The latest sequence number is 100: what starts beyond it gets an empty answer.
    assert_eq!(query(Order::Descending, 110, 21, 101), Ok(vec![]));
    assert_eq!(query(Order::Descending, 200, 3, 101), Ok(vec![]));
    assert_eq!(query(Order::Descending, 100, 2, 101), Ok(vec![100, 99]));
}

#[test]
fn latest_events() {
    assert_eq!(query(Order::Descending, u64::MAX, 3, 101), Ok(vec![100, 99, 98]));
    assert_eq!(query(Order::Descending, u64::MAX, 3, 2), Ok(vec![1, 0]));
    assert_eq!(query(Order::Descending, u64::MAX, 3, 0), Ok(vec![]));
}

#[test]
fn refused_event_queries() {
    assert_eq!(
        query(Order::Ascending, 5, 5001, 101),
        Err(AptosDbError::TooManyRequested(5001, 5000))
    );
    assert_eq!(query(Order::Ascending, 5, 0, 101), Err(AptosDbError::ZeroLimit));
}

#[test]
fn broken_event_index() {
    let entry = EventIndexEntry { seq_num: 5, version: 1, index: 0 };
    assert_eq!(
        EventsFetch::check_event(&entry, &ContractEvent::new(6, vec![])),
        Err(AptosDbError::EventIndexBroken { indexed: 5, stored: 6 })
    );
}

fn event(seq_num: u64) -> EventWithProof {
    EventWithProof::new(
        seq_num,
        0,
        ContractEvent::new(seq_num, vec![1]),
        aptosdb::proofs::transaction::EventProof::new(
            info_with_proof(1),
            EventAccumulatorProof::new(vec![]),
        ),
    )
}

#[test]
fn events_around_a_version() {
    assert_eq!(surrounding_events(Some(7)), (7, 2));
    assert_eq!(surrounding_events(None), (0, 1));
    let both = EventByVersionWithProof::from_surrounding(Some(7), vec![event(7), event(8)]);
    assert!(both.lower_bound_incl == Some(event(7)) && both.upper_bound_excl == Some(event(8)));
    let lower = EventByVersionWithProof::from_surrounding(Some(7), vec![event(7)]);
    assert!(lower.lower_bound_incl == Some(event(7)) && lower.upper_bound_excl.is_none());
    let upper = EventByVersionWithProof::from_surrounding(None, vec![event(0)]);
    assert!(upper.lower_bound_incl.is_none() && upper.upper_bound_excl == Some(event(0)));
    let none = EventByVersionWithProof::from_surrounding(None, vec![]);
    assert!(none.lower_bound_incl.is_none() && none.upper_bound_excl.is_none());
}

#[test]
fn refused_event_by_version() {
    assert_eq!(check_event_by_version(5, 6, 7), Ok(()));
    assert_eq!(check_event_by_version(7, 7, 7), Ok(()));
    assert_eq!(
        check_event_by_version(9, 8, 7),
        Err(AptosDbError::ProofVersionTooNew { proof_version: 8, latest_version: 7 })
    );
    assert_eq!(
        check_event_by_version(7, 6, 7),
        Err(AptosDbError::EventVersionTooNew { event_version: 7, proof_version: 6 })
    );
}

#[test]
fn refused_state_queries() {
    assert_eq!(check_queried_version(5, 5), Ok(()));
    assert_eq!(
        check_queried_version(6, 5),
        Err(AptosDbError::QueriedVersionTooNew { version: 6, ledger_version: 5 })
    );
    assert_eq!(check_ledger_version(5, 5), Ok(()));
    assert_eq!(
        check_ledger_version(6, 5),
        Err(AptosDbError::LedgerVersionTooNew { ledger_version: 6, latest_version: 5 })
    );
}

#[test]
fn state_value_answer() {
    let answer = StateValueWithProof::for_version(
        4,
        Some(StateValue::new(vec![3])),
        info_with_proof(1),
        SparseMerkleProof::new(None, vec![h(5)]),
    );
    assert_eq!((answer.version, answer.value), (4, Some(StateValue::new(vec![3]))));
    assert_eq!(answer.proof.transaction_info_to_account_proof().siblings(), &[h(5)]);
}

#[test]
fn tree_states() {
    assert_eq!(num_transactions(None), 0);
    assert_eq!(num_transactions(Some(9)), 10);
    let at = TreeState::at_checkpoint(10, vec![h(1), h(2)], Some((7, h(3))));
    assert_eq!(at.state_checkpoint_version, Some(7));
    assert_eq!(at.state_checkpoint_hash, h(3));
    assert_eq!((at.num_transactions, at.ledger_frozen_subtree_hashes.len()), (10, 2));
    let before = TreeState::at_checkpoint(0, vec![], None);
    assert_eq!(before.state_checkpoint_version, None);
    assert_eq!(before.state_checkpoint_hash, sparse_merkle_placeholder_hash());
}

#[test]
fn transaction_lists() {
    let page = VersionRange { start: 4, count: 2 };
    assert_eq!(event_versions(&page, true), page);
    assert_eq!(event_versions(&page, false), VersionRange { start: 4, count: 0 });
    let with_events = TransactionListWithProof::for_page(
        &page,
        true,
        vec![vec![1], vec![2]],
        vec![info(1), info(2)],
        vec![vec![], vec![ContractEvent::new(3, vec![])]],
        TransactionAccumulatorRangeProof::new(vec![h(9)], vec![]),
    );
    assert_eq!(
        with_events.events,
        Some(vec![vec![], vec![ContractEvent::new(3, vec![])]])
    );
    let list = TransactionListWithProof::for_page(
        &page,
        false,
        vec![vec![1], vec![2]],
        vec![info(1), info(2)],
        vec![],
        TransactionAccumulatorRangeProof::new(vec![h(9)], vec![]),
    );
    assert_eq!(list.first_transaction_version, Some(4));
    assert_eq!(list.events, None);
    assert_eq!(list.transactions, vec![vec![1], vec![2]]);
    assert_eq!(list.proof.transaction_infos, vec![info(1), info(2)]);
    let empty = TransactionListWithProof::new_empty();
    assert_eq!(empty.first_transaction_version, None);
    assert!(empty.proof == TransactionInfoListWithProof::new_empty());
    assert!(TransactionOutputListWithProof::new_empty().transactions_and_outputs.is_empty());
}

fn output(b: u8) -> TransactionOutput {
    let events = vec![ContractEvent::new(b as u64, vec![b])];
    TransactionOutput::new(vec![b], events, 10 * b as u64, vec![b, b])
}

fn output_list(outputs: u8, infos: u8) -> TransactionOutputListWithProof {
    TransactionOutputListWithProof::new(
        (0..outputs).map(|b| (vec![b], output(b))).collect(),
        Some(4),
        TransactionInfoListWithProof::new(
            TransactionAccumulatorRangeProof::new(vec![h(8), h(9)], vec![h(7)]),
            (0..infos).map(info).collect(),
        ),
    )
}

#[test]
fn transaction_output_lists() {
    let stored = (0..2)
        .map(|b| StoredOutput {
            transaction_info: info(b),
            transaction: vec![b],
            write_set: vec![b],
            events: vec![ContractEvent::new(b as u64, vec![b])],
        })
        .collect();
    let list = TransactionOutputListWithProof::for_page(
        &VersionRange { start: 4, count: 2 },
        stored,
        TransactionAccumulatorRangeProof::new(vec![h(8), h(9)], vec![h(7)]),
    );
    assert!(list == output_list(2, 2));
}

#[test]
fn snapshots_have_one_output() {
    let parts = snapshot_parts(output_list(1, 1)).unwrap();
    assert_eq!(parts.frozen_subtrees, vec![h(8), h(9)]);
    assert_eq!(parts.transactions, vec![vec![0]]);
    assert_eq!(parts.outputs, vec![output(0)]);
    assert_eq!(parts.events, vec![vec![ContractEvent::new(0, vec![0])]]);
    assert_eq!(parts.transaction_infos, vec![info(0)]);
    assert_eq!(
        snapshot_parts(output_list(2, 1)).err(),
        Some(AptosDbError::WrongOutputCount { found: 2 })
    );
    assert_eq!(
        snapshot_parts(output_list(0, 0)).err(),
        Some(AptosDbError::WrongOutputCount { found: 0 })
    );
    assert_eq!(
        snapshot_parts(output_list(1, 3)).err(),
        Some(AptosDbError::WrongInfoCount { found: 3 })
    );
}

fn txn(b: u8, num_updates: u8, node_hashes: bool) -> TransactionToCommit {
    TransactionToCommit {
        transaction: vec![b],
        transaction_info: info(b),
        state_updates: (0..num_updates).map(|k| (h(k), StateValue::new(vec![b]))).collect(),
        jf_node_hashes: if node_hashes { Some(vec![]) } else { None },
        write_set: vec![b],
        events: vec![ContractEvent::new(b as u64, vec![b])],
    }
}

#[test]
fn batches_that_cannot_be_applied() {
    let info = LedgerInfo::new(9, h(1), 1);
    assert_eq!(check_batch(0, 10, None), Err(AptosDbError::EmptyBatch));
    assert_eq!(check_batch(1, 10, None), Ok(()));
    assert_eq!(check_batch(2, 8, Some(&info)), Ok(()));
    assert_eq!(check_batch(0, 10, Some(&info)), Ok(()));
    assert_eq!(
        check_batch(2, 9, Some(&info)),
        Err(AptosDbError::BatchNotApplicable { first_version: 9, num_txns: 2, last_version: 9 })
    );
    assert_eq!(
        check_batch(0, 9, Some(&info)),
        Err(AptosDbError::BatchNotApplicable { first_version: 9, num_txns: 0, last_version: 9 })
    );
    assert_eq!(prepare_save(&vec![], 10, None).err(), Some(AptosDbError::EmptyBatch));
}

#[test]
fn latest_checkpoint_of_a_batch() {
    let latest = latest_state_checkpoint_version;
    let batch = vec![txn(0, 2, true), txn(1, 1, true), txn(2, 0, true)];
    assert_eq!(latest(&batch, 10), Some(11));
    assert_eq!(latest(&vec![txn(0, 0, true)], 10), None);
    assert_eq!(latest(&vec![], 10), None);
}

#[test]
fn what_is_gathered_for_a_batch() {
    let batch = vec![txn(0, 1, true), txn(1, 0, true)];
    assert_eq!(
        prepare_save(&batch, 10, None).unwrap(),
        vec![
            SaveAction::MerklizeValueSets { first_version: 10, with_node_hashes: true },
            SaveAction::PutValueSets { first_version: 10 },
            SaveAction::PutEvents { version: 10, index: 0 },
            SaveAction::PutEvents { version: 11, index: 1 },
            SaveAction::PutTransaction { version: 10, index: 0 },
            SaveAction::PutWriteSet { version: 10, index: 0 },
            SaveAction::PutTransaction { version: 11, index: 1 },
            SaveAction::PutWriteSet { version: 11, index: 1 },
            SaveAction::PutTransactionInfos { first_version: 10 },
        ]
    );
    let batch = vec![txn(0, 1, true), txn(1, 0, false)];
    assert_eq!(
        prepare_save(&batch, 10, None).unwrap()[0],
        SaveAction::MerklizeValueSets { first_version: 10, with_node_hashes: false }
    );
}

#[test]
fn what_is_done_once_a_batch_is_gathered() {
    let batch = vec![txn(0, 1, true), txn(1, 0, true)];
    let info = LedgerInfo::new(11, h(1), 3);
    assert_eq!(
        conclude_save(&batch, 10, Some(&info), h(1)).unwrap(),
        vec![
            SaveAction::PutLedgerInfo,
            SaveAction::BumpLedgerCounters { first_version: 10, last_version: 11 },
            SaveAction::Commit,
            SaveAction::SetLatestStateCheckpoint { version: 10 },
            SaveAction::ReportCommitted { num_txns: 2, last_version: 11 },
            SaveAction::WakePruner { version: 11 },
            SaveAction::SetLatestLedgerInfo,
            SaveAction::ReportLedgerInfo { version: 11, next_block_epoch: 3 },
        ]
    );
    assert_eq!(
        conclude_save(&batch, 10, Some(&info), h(2)).err(),
        Some(AptosDbError::RootHashMismatch { actual: h(2), expected: h(1) })
    );
    assert_eq!(
        conclude_save(&vec![txn(1, 0, true)], 10, None, h(2)).unwrap(),
        vec![
            SaveAction::BumpLedgerCounters { first_version: 10, last_version: 10 },
            SaveAction::Commit,
            SaveAction::ReportCommitted { num_txns: 1, last_version: 10 },
            SaveAction::WakePruner { version: 10 },
        ]
    );
    assert_eq!(
        conclude_save(&vec![], 12, Some(&info), h(1)).unwrap(),
        vec![
            SaveAction::PutLedgerInfo,
            SaveAction::Commit,
            SaveAction::SetLatestLedgerInfo,
            SaveAction::ReportLedgerInfo { version: 11, next_block_epoch: 3 },
        ]
    );
}

#[test]
fn ways_to_open_the_database() {
    let config = RocksdbConfig { max_open_files: 1000, max_total_wal_size: 1 << 30 };
    let options = |max_open_files, create| RocksdbOptions {
        max_open_files,
        max_total_wal_size: 1 << 30,
        create_if_missing: create,
        create_missing_column_families: create,
    };
    assert_eq!(gen_rocksdb_options(&config), options(1000, false));
    assert_eq!(open_options(OpenMode::ReadWrite, &config), options(1000, true));
    assert_eq!(open_options(OpenMode::Readonly, &config), options(1000, false));
    assert_eq!(open_options(OpenMode::Secondary, &config), options(-1, false));
    let plan = |mode, starts_pruner| OpenPlan {
        mode,
        options: open_options(mode, &config),
        starts_pruner,
    };
    assert_eq!(open_plan(false, false, &config), Ok(plan(OpenMode::ReadWrite, true)));
    assert_eq!(open_plan(false, true, &config), Ok(plan(OpenMode::ReadWrite, false)));
    assert_eq!(open_plan(true, true, &config), Ok(plan(OpenMode::Readonly, false)));
    assert_eq!(open_plan(true, false, &config), Err(AptosDbError::PruneWhenReadonly));
    assert_eq!(secondary_open_plan(&config), plan(OpenMode::Secondary, false));
}

#[test]
fn column_families_in_order() {
    let families = column_families();
    assert_eq!(families.len(), 16);
    assert_eq!(families[0], ColumnFamily::Default);
    assert_eq!(families[6], ColumnFamily::JellyfishMerkleNode);
    assert_eq!(families[15], ColumnFamily::WriteSet);
}

#[test]
fn names_of_reported_properties() {
    assert_eq!(
        aptos_rocksdb_property_name("rocksdb.num-immutable-mem-table"),
        "aptos_rocksdb_num-immutable-mem-table"
    );
    assert_eq!(aptos_rocksdb_property_name(""), "aptos_");
    assert_eq!(aptos_rocksdb_property_name("a.b..c"), "aptos_a_b__c");
}

#[test]
fn how_far_the_past_goes_back() {
    assert_eq!(first_version(Some(7)), FirstVersion::Known(7));
    assert_eq!(first_version(None), FirstVersion::Stored);
    assert_eq!(version_timestamp(Some(99)), 99);
    assert_eq!(version_timestamp(None), 0);
    assert_eq!(GENESIS_PRUNE_TARGET, 1);
}

#[test]
fn events_come_where_they_are_asked_for() {
    let events = || vec![ContractEvent::new(1, vec![])];
    let with = TransactionWithProof::for_version(4, vec![1], true, events(), info_with_proof(1));
    assert_eq!((with.version, with.events), (4, Some(events())));
    let without = TransactionWithProof::for_version(4, vec![1], false, vec![], info_with_proof(1));
    assert_eq!(without.events, None);
}

/// What is stored under a version: a transaction, its write set, its events and its info.
type Row = (Vec<u8>, Vec<u8>, Vec<ContractEvent>, TransactionInfo);

fn row(rows: &mut BTreeMap<u64, Row>, version: u64) -> &mut Row {
    rows.entry(version).or_insert((vec![], vec![], vec![], info(0)))
}

#[test]
fn saved_batch_is_read_back() {
    let batch = vec![txn(1, 1, true), txn(2, 0, true), txn(3, 2, true)];
    let hashes: Vec<HashValue> = batch.iter().map(|t| t.transaction_info.hash()).collect();
    let accumulator =
        InMemoryAccumulator::<TransactionAccumulatorHasher>::new(vec![], 0).unwrap();
    let root = accumulator.append(&hashes).root_hash();
    let ledger_info = LedgerInfo::new(2, root, 1);

    let (mut gathered, mut committed) = (BTreeMap::<u64, Row>::new(), BTreeMap::new());
    let mut actions = prepare_save(&batch, 0, Some(&ledger_info)).unwrap();
    actions.extend(conclude_save(&batch, 0, Some(&ledger_info), root).unwrap());
    for action in actions {
        match action {
            SaveAction::PutTransaction { version, index } => {
                row(&mut gathered, version).0 = batch[index].transaction.clone()
            }
            SaveAction::PutWriteSet { version, index } => {
                row(&mut gathered, version).1 = batch[index].write_set.clone()
            }
            SaveAction::PutEvents { version, index } => {
                row(&mut gathered, version).2 = batch[index].events.clone()
            }
            SaveAction::PutTransactionInfos { first_version } => {
                for (version, t) in zip_eq(first_version..first_version + 3, &batch) {
                    row(&mut gathered, version).3 = t.transaction_info.clone();
                }
            }
            SaveAction::Commit => committed = gathered.clone(),
            _ => {}
        }
    }

    let page = transaction_page(0, 3, ledger_info.version()).unwrap().unwrap();
    assert_eq!((page.start, page.end()), (0, 3));
    let rows: Vec<Row> = (page.start..page.end()).map(|v| committed[&v].clone()).collect();
    let range_proof =
        || TransactionAccumulatorRangeProof::new(vec![], vec![accumulator_placeholder_hash()]);
    let list = TransactionListWithProof::for_page(
        &page,
        true,
        rows.iter().map(|r| r.0.clone()).collect(),
        rows.iter().map(|r| r.3.clone()).collect(),
        rows.iter().map(|r| r.2.clone()).collect(),
        range_proof(),
    );
    let events = list.events.unwrap();
    for (i, t) in batch.iter().enumerate() {
        assert_eq!(list.transactions[i], t.transaction);
        assert_eq!(events[i], t.events);
        assert_eq!(list.proof.transaction_infos[i], t.transaction_info);
    }
    assert_eq!(list.proof.verify(&ledger_info, Some(0)), Ok(()));

    let stored = rows
        .into_iter()
        .map(|(transaction, write_set, events, transaction_info)| StoredOutput {
            transaction_info,
            transaction,
            write_set,
            events,
        })
        .collect();
    let outputs = TransactionOutputListWithProof::for_page(&page, stored, range_proof());
    for ((transaction, output), t) in zip_eq(&outputs.transactions_and_outputs, &batch) {
        assert_eq!(*transaction, t.transaction);
        assert_eq!(output.write_set, t.write_set);
        assert_eq!(output.gas_used, t.transaction_info.gas_used());
        assert_eq!(output.status, *t.transaction_info.status());
    }
}
