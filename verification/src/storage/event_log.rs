//! What queries for events answer, given the events that there are.

use vstd::prelude::*;
use crate::ledger::Version;
use crate::storage::error::AptosDbError;
use crate::storage::events::{
    in_order, item_at, kept_entries, spec_cursor, spec_get_first_seq_num_and_limit,
    spec_surrounding_events, EventIndexEntry, Order,
};
use crate::storage::paging::{least, MAX_LIMIT};

verus! {

/// Whether these are the entries of the event index for one key: their sequence numbers count up
/// from zero, and no event is in an older transaction than the one before it.
pub open spec fn is_event_log(log: Seq<EventIndexEntry>) -> bool {
    &&& log.len() < u64::MAX
    &&& forall|i: int| 0 <= i < log.len() ==> (#[trigger] log[i]).seq_num == i
    &&& forall|i: int, j: int|
        0 <= i <= j < log.len() ==> (#[trigger] log[i]).version <= (#[trigger] log[j]).version
}

/// The number of events at or before a version.
pub open spec fn visible_count(log: Seq<EventIndexEntry>, version: Version) -> nat
    decreases log.len(),
{
    if log.len() == 0 {
        0
    } else if log.last().version <= version {
        log.len()
    } else {
        visible_count(log.drop_last(), version)
    }
}

/// The latest sequence number of an event at or before a version.
pub open spec fn latest_seq_num(log: Seq<EventIndexEntry>, version: Version) -> Option<u64> {
    let count = visible_count(log, version);
    if count == 0 {
        None
    } else {
        Some((count - 1) as u64)
    }
}

/// What the event index gives: at most `limit` entries from `first_seq` on, as far as they are at or
/// before the version of the ledger.
pub open spec fn index_lookup(
    log: Seq<EventIndexEntry>,
    first_seq: u64,
    limit: u64,
    ledger_version: Version,
) -> Seq<EventIndexEntry> {
    let count = visible_count(log, ledger_version) as int;
    log.subrange(least(first_seq as int, count), least(first_seq + limit, count))
}

/// The entries of the events that are answered to a query.
pub open spec fn query_answer(
    log: Seq<EventIndexEntry>,
    order: Order,
    start_seq_num: u64,
    limit: u64,
    ledger_version: Version,
) -> Result<Seq<EventIndexEntry>, AptosDbError> {
    let cursor = spec_cursor(order, start_seq_num, latest_seq_num(log, ledger_version));
    if limit > MAX_LIMIT {
        Err(AptosDbError::TooManyRequested(limit, MAX_LIMIT))
    } else {
        match spec_get_first_seq_num_and_limit(order, cursor, limit) {
            Err(e) => Err(e),
            Ok((first_seq, real_limit)) => {
                let found = index_lookup(log, first_seq, real_limit, ledger_version);
                Ok(in_order(order, kept_entries(order, cursor, found)))
            },
        }
    }
}

/// The events at or before a version come first.
proof fn lemma_visible_count(log: Seq<EventIndexEntry>, version: Version)
    requires
        is_event_log(log),
    ensures
        visible_count(log, version) <= log.len(),
        forall|i: int|
            0 <= i < visible_count(log, version) ==> (#[trigger] log[i]).version <= version,
        forall|i: int|
            visible_count(log, version) <= i < log.len() ==> (#[trigger] log[i]).version > version,
    decreases log.len(),
{
    if log.len() > 0 {
        let rest = log.drop_last();
        assert forall|i: int, j: int| 0 <= i <= j < rest.len() implies (
        #[trigger] rest[i]).version <= (#[trigger] rest[j]).version by {
            assert(log[i].version <= log[j].version);
        }
        if log.last().version > version {
            lemma_visible_count(rest, version);
            assert forall|i: int| 0 <= i < visible_count(log, version) implies (
            #[trigger] log[i]).version <= version by {
                assert(rest[i].version <= version);
            }
            assert forall|i: int| visible_count(log, version) <= i < log.len() implies (
            #[trigger] log[i]).version > version by {
                if i < rest.len() {
                    assert(rest[i].version > version);
                }
            }
        }
    }
}

/// Later versions see at least the same events.
proof fn lemma_visible_count_grows(log: Seq<EventIndexEntry>, a: Version, b: Version)
    requires
        is_event_log(log),
        a <= b,
    ensures
        visible_count(log, a) <= visible_count(log, b),
{
    lemma_visible_count(log, a);
    lemma_visible_count(log, b);
    let count = visible_count(log, b) as int;
    if visible_count(log, a) > count {
        assert(log[count].version <= a && log[count].version > b);
    }
}

/// In ascending order, the answer is the part of the visible events that starts at the sequence
/// number asked for, cut to the limit.
pub proof fn ascending_query_answer(
    log: Seq<EventIndexEntry>,
    start_seq_num: u64,
    limit: u64,
    ledger_version: Version,
)
    requires
        is_event_log(log),
        0 < limit <= MAX_LIMIT,
    ensures
        ({
            let count = visible_count(log, ledger_version) as int;
            let start = least(start_seq_num as int, count);
            query_answer(log, Order::Ascending, start_seq_num, limit, ledger_version) == Ok::<
                Seq<EventIndexEntry>,
                AptosDbError,
            >(log.subrange(start, least(start_seq_num + limit, count)))
        }),
{
}

/// In descending order, the answer starts at the sequence number asked for and goes down: it is the
/// ascending answer for the same events, turned around. What is beyond the latest visible event gets
/// an empty answer.
pub proof fn descending_query_answer(
    log: Seq<EventIndexEntry>,
    start_seq_num: u64,
    limit: u64,
    ledger_version: Version,
)
    requires
        is_event_log(log),
        0 < limit <= MAX_LIMIT,
        start_seq_num < u64::MAX,
    ensures
        ({
            let count = visible_count(log, ledger_version) as int;
            let end = start_seq_num + 1;
            let len = least(limit as int, end);
            query_answer(log, Order::Descending, start_seq_num, limit, ledger_version) == Ok::<
                Seq<EventIndexEntry>,
                AptosDbError,
            >(
                if start_seq_num >= count {
                    Seq::empty()
                } else {
                    log.subrange(end - len, end).reverse()
                },
            )
        }),
{
    lemma_descending_answer(log, start_seq_num, start_seq_num, limit, ledger_version);
}

/// The descending answer for a cursor.
proof fn lemma_descending_answer(
    log: Seq<EventIndexEntry>,
    start_seq_num: u64,
    cursor: u64,
    limit: u64,
    ledger_version: Version,
)
    requires
        is_event_log(log),
        0 < limit <= MAX_LIMIT,
        cursor == spec_cursor(
            Order::Descending,
            start_seq_num,
            latest_seq_num(log, ledger_version),
        ),
    ensures
        query_answer(log, Order::Descending, start_seq_num, limit, ledger_version) == Ok::<
            Seq<EventIndexEntry>,
            AptosDbError,
        >(
            if cursor >= visible_count(log, ledger_version) {
                Seq::empty()
            } else {
                log.subrange(cursor + 1 - least(limit as int, cursor + 1), cursor + 1).reverse()
            },
        ),
{
    lemma_visible_count(log, ledger_version);
    let count = visible_count(log, ledger_version) as int;
    let len = least(limit as int, cursor + 1);
    let first = (cursor + 1 - len) as u64;
    let found = index_lookup(log, first, len as u64, ledger_version);
    if cursor >= count {
        if found.len() > 0 {
            assert(found.last() == log[count - 1]);
        }
        assert(kept_entries(Order::Descending, cursor, found) =~= Seq::empty());
        assert(Seq::<EventIndexEntry>::empty().reverse() =~= Seq::empty());
    } else {
        assert(found =~= log.subrange(first as int, cursor + 1));
        assert(found.last() == log[cursor as int]);
    }
}

/// Asking for the latest events gives the newest visible ones, the latest one first, and nothing
/// where there are none.
pub proof fn latest_query_answer(
    log: Seq<EventIndexEntry>,
    limit: u64,
    ledger_version: Version,
)
    requires
        is_event_log(log),
        0 < limit <= MAX_LIMIT,
    ensures
        ({
            let count = visible_count(log, ledger_version) as int;
            query_answer(log, Order::Descending, u64::MAX, limit, ledger_version) == Ok::<
                Seq<EventIndexEntry>,
                AptosDbError,
            >(log.subrange(count - least(limit as int, count), count).reverse())
        }),
{
    lemma_visible_count(log, ledger_version);
    let count = visible_count(log, ledger_version) as int;
    let cursor = spec_cursor(Order::Descending, u64::MAX, latest_seq_num(log, ledger_version));
    lemma_descending_answer(log, u64::MAX, cursor, limit, ledger_version);
    if count == 0 {
        assert(log.subrange(0, 0).reverse() =~= Seq::empty());
    }
}

/// A query for no events or for too many is refused.
pub proof fn refused_query(
    log: Seq<EventIndexEntry>,
    order: Order,
    start_seq_num: u64,
    limit: u64,
    ledger_version: Version,
)
    requires
        is_event_log(log),
    ensures
        query_answer(log, order, start_seq_num, limit, ledger_version) is Ok <==> 0 < limit
            <= MAX_LIMIT,
        limit == 0 ==> query_answer(log, order, start_seq_num, limit, ledger_version) == Err::<
            Seq<EventIndexEntry>,
            AptosDbError,
        >(AptosDbError::ZeroLimit),
        limit > MAX_LIMIT ==> query_answer(log, order, start_seq_num, limit, ledger_version)
            == Err::<Seq<EventIndexEntry>, AptosDbError>(
            AptosDbError::TooManyRequested(limit, MAX_LIMIT),
        ),
{
}

/// The two events around a version show that there is none between them: the lower one is at or
/// before the version, the upper one after it, and their sequence numbers follow each other. Where
/// there is no lower one, the upper one is the first event there is.
pub proof fn surrounding_events_enclose_version(
    log: Seq<EventIndexEntry>,
    event_version: Version,
    proof_version: Version,
)
    requires
        is_event_log(log),
        event_version <= proof_version,
    ensures
        ({
            let latest = latest_seq_num(log, event_version);
            let (start, limit) = spec_surrounding_events(latest);
            let answer = query_answer(log, Order::Ascending, start, limit, proof_version);
            let found = answer.unwrap();
            let lower = if latest is Some {
                item_at(found, 0)
            } else {
                None
            };
            let upper = if latest is Some {
                item_at(found, 1)
            } else {
                item_at(found, 0)
            };
            let next = if latest is Some {
                latest.unwrap() + 1
            } else {
                0
            };
            &&& answer is Ok
            &&& found.len() <= limit
            &&& latest matches Some(seq_num) ==> lower == Some(log[seq_num as int])
                && log[seq_num as int].version <= event_version
            &&& upper matches Some(entry) ==> entry == log[next] && event_version < entry.version
                <= proof_version
            &&& upper is None ==> next >= visible_count(log, proof_version)
        }),
{
    lemma_visible_count(log, event_version);
    lemma_visible_count(log, proof_version);
    lemma_visible_count_grows(log, event_version, proof_version);
}

} // verus!
