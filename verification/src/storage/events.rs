//! Events, found by their sequence numbers or by a version.
//!
//! A query for events goes in steps. `EventsQuery` checks what is asked for, and says whether the
//! latest sequence number has to be read first. `EventsLookup` says which part of the event index to
//! read. `EventsFetch` takes what the index gave, says which events to read, and puts the answer
//! together.

use vstd::prelude::*;
use vstd::slice::slice_to_vec;
use crate::ledger::Version;
use crate::proofs::accumulator_proof::EventAccumulatorProof;
use crate::proofs::transaction::{EventProof, TransactionInfoWithProof};
use crate::storage::error::AptosDbError;
use crate::storage::paging::{error_if_too_many_requested, least, MAX_LIMIT};

verus! {

/// In which order events are asked for.
#[derive(Clone, Copy, Debug, PartialEq, Eq, Structural)]
pub enum Order {
    Ascending,
    Descending,
}

/// An event of a contract.
#[derive(Debug, PartialEq, Eq)]
pub struct ContractEvent {
    /// The number of the event among those with the same key.
    pub sequence_number: u64,
    /// The encoded event.
    pub event_data: Vec<u8>,
}

impl Clone for ContractEvent {
    fn clone(&self) -> (r: Self)
        ensures
            r.sequence_number == self.sequence_number,
            r.event_data@ == self.event_data@,
    {
        ContractEvent {
            sequence_number: self.sequence_number,
            event_data: slice_to_vec(self.event_data.as_slice()),
        }
    }
}

impl ContractEvent {
    /// Constructs an event.
    pub fn new(sequence_number: u64, event_data: Vec<u8>) -> (r: Self)
        ensures
            r.sequence_number == sequence_number,
            r.event_data == event_data,
    {
        ContractEvent { sequence_number, event_data }
    }

    /// Returns the number of the event among those with the same key.
    pub fn sequence_number(&self) -> (r: u64)
        ensures
            r == self.sequence_number,
    {
        self.sequence_number
    }
}

/// An event, where it is in the ledger, and the proof of it.
#[derive(Debug, PartialEq, Eq)]
pub struct EventWithProof {
    pub transaction_version: Version,
    pub event_index: u64,
    pub event: ContractEvent,
    pub proof: EventProof,
}

impl EventWithProof {
    /// Constructs an event with its proof.
    pub fn new(
        transaction_version: Version,
        event_index: u64,
        event: ContractEvent,
        proof: EventProof,
    ) -> (r: Self)
        ensures
            r == (EventWithProof { transaction_version, event_index, event, proof }),
    {
        EventWithProof { transaction_version, event_index, event, proof }
    }
}

/// An entry of the event index: the event with the sequence number is the one at `index` of the
/// transaction at `version`.
#[derive(Clone, Copy, Debug, PartialEq, Eq)]
pub struct EventIndexEntry {
    pub seq_num: u64,
    pub version: Version,
    pub index: u64,
}

/// The range of sequence numbers, in ascending order, that is asked for: the first one, and how
/// many. In descending order, the range ends at the cursor, and starts at zero where it would start
/// before that.
pub open spec fn spec_get_first_seq_num_and_limit(order: Order, cursor: u64, limit: u64) -> Result<
    (u64, u64),
    AptosDbError,
> {
    if limit == 0 {
        Err(AptosDbError::ZeroLimit)
    } else {
        match order {
            Order::Ascending => Ok((cursor, limit)),
            Order::Descending => {
                let count = least(limit as int, cursor + 1);
                Ok(((cursor + 1 - count) as u64, count as u64))
            },
        }
    }
}

/// Converts requested range and order to a range in ascending order.
pub fn get_first_seq_num_and_limit(order: Order, cursor: u64, limit: u64) -> (r: Result<
    (u64, u64),
    AptosDbError,
>)
    ensures
        r == spec_get_first_seq_num_and_limit(order, cursor, limit),
{
    if limit == 0 {
        return Err(AptosDbError::ZeroLimit);
    }
    if order == Order::Ascending {
        Ok((cursor, limit))
    } else if limit <= cursor {
        Ok((cursor - limit + 1, limit))
    } else {
        Ok((0, cursor + 1))
    }
}

/// What is asked for, once it is checked.
#[derive(Clone, Copy, Debug, PartialEq, Eq)]
pub struct EventsQuery {
    pub order: Order,
    pub start_seq_num: u64,
    pub limit: u64,
}

/// Whether the latest events are asked for, wherever they are.
pub open spec fn asks_for_latest(order: Order, start_seq_num: u64) -> bool {
    order == Order::Descending && start_seq_num == u64::MAX
}

/// The sequence number from which events are asked for. Where the latest ones are asked for and
/// there are none, zero is as good as any.
pub open spec fn spec_cursor(order: Order, start_seq_num: u64, latest: Option<u64>) -> u64 {
    if asks_for_latest(order, start_seq_num) {
        match latest {
            Some(seq_num) => seq_num,
            None => 0,
        }
    } else {
        start_seq_num
    }
}

impl EventsQuery {
    /// Checks what is asked for.
    pub fn new(order: Order, start_seq_num: u64, limit: u64) -> (r: Result<Self, AptosDbError>)
        ensures
            r == if limit > MAX_LIMIT {
                Err::<EventsQuery, AptosDbError>(AptosDbError::TooManyRequested(limit, MAX_LIMIT))
            } else {
                Ok(EventsQuery { order, start_seq_num, limit })
            },
    {
        match error_if_too_many_requested(limit, MAX_LIMIT) {
            Ok(_) => Ok(EventsQuery { order, start_seq_num, limit }),
            Err(e) => Err(e),
        }
    }

    /// Whether the latest sequence number has to be read first.
    pub fn needs_latest(&self) -> (r: bool)
        ensures
            r == asks_for_latest(self.order, self.start_seq_num),
    {
        self.order == Order::Descending && self.start_seq_num == u64::MAX
    }

    /// Finds the part of the event index to read. The latest sequence number does not matter where
    /// it is not needed.
    pub fn lookup(&self, latest: Option<u64>) -> (r: Result<EventsLookup, AptosDbError>)
        ensures
            ({
                let cursor = spec_cursor(self.order, self.start_seq_num, latest);
                r == match spec_get_first_seq_num_and_limit(self.order, cursor, self.limit) {
                    Err(e) => Err::<EventsLookup, AptosDbError>(e),
                    Ok((first_seq, real_limit)) => Ok(
                        EventsLookup { order: self.order, cursor, first_seq, real_limit },
                    ),
                }
            }),
    {
        let cursor: u64 = if self.needs_latest() {
            // Caller wants the latest. In the case of no events, use 0 and expect an empty result.
            match latest {
                Some(seq_num) => seq_num,
                None => 0,
            }
        } else {
            self.start_seq_num
        };
        match get_first_seq_num_and_limit(self.order, cursor, self.limit) {
            Ok((first_seq, real_limit)) => Ok(
                EventsLookup { order: self.order, cursor, first_seq, real_limit },
            ),
            Err(e) => Err(e),
        }
    }
}

/// The part of the event index to read: `real_limit` entries from `first_seq` on.
#[derive(Clone, Copy, Debug, PartialEq, Eq)]
pub struct EventsLookup {
    pub order: Order,
    pub cursor: u64,
    pub first_seq: u64,
    pub real_limit: u64,
}

/// Those entries of the index that are answered. In descending order, something beyond the latest
/// sequence number is a bad request and gets an empty list: the last entry is then before the
/// cursor.
pub open spec fn kept_entries(order: Order, cursor: u64, entries: Seq<EventIndexEntry>) -> Seq<
    EventIndexEntry,
> {
    if order == Order::Descending && entries.len() > 0 && entries.last().seq_num < cursor {
        Seq::empty()
    } else {
        entries
    }
}

impl EventsLookup {
    /// Takes what the index gave.
    pub fn fetch(&self, entries: Vec<EventIndexEntry>) -> (r: EventsFetch)
        ensures
            r.spec_order() == self.order,
            r.spec_entries() == kept_entries(self.order, self.cursor, entries@),
            r.spec_events() == Seq::<EventWithProof>::empty(),
    {
        // When descending, it's possible that user is asking for something beyond the latest
        // sequence number, in which case we will consider it a bad request and return an empty
        // list.
        // For example, if the latest sequence number is 100, and the caller is asking for 110 to
        // 90, we will get 90 to 100 from the index lookup above. Seeing that the last item
        // is 100 instead of 110 tells us 110 is out of bound.
        let count: usize = entries.len();
        if self.order == Order::Descending && count > 0 && entries[count - 1].seq_num
            < self.cursor {
            return EventsFetch { order: self.order, entries: Vec::new(), events: Vec::new() };
        }
        EventsFetch { order: self.order, entries, events: Vec::new() }
    }
}

/// Whether the event is the one that the entry of the index points to, as far as it says.
pub open spec fn event_at_entry(event: EventWithProof, entry: EventIndexEntry) -> bool {
    &&& event.transaction_version == entry.version
    &&& event.event_index == entry.index
    &&& event.event.sequence_number == entry.seq_num
}

/// The events of a query, as far as they are read.
#[derive(Debug)]
pub struct EventsFetch {
    order: Order,
    entries: Vec<EventIndexEntry>,
    events: Vec<EventWithProof>,
}

impl EventsFetch {
    /// The order that is asked for.
    pub closed spec fn spec_order(&self) -> Order {
        self.order
    }

    /// The entries of the index that are answered.
    pub closed spec fn spec_entries(&self) -> Seq<EventIndexEntry> {
        self.entries@
    }

    /// The events that are read so far.
    pub closed spec fn spec_events(&self) -> Seq<EventWithProof> {
        self.events@
    }

    #[verifier::type_invariant]
    spec fn well_formed(&self) -> bool {
        &&& self.events@.len() <= self.entries@.len()
        &&& forall|i: int|
            0 <= i < self.events@.len() ==> event_at_entry(
                #[trigger] self.events@[i],
                self.entries@[i],
            )
    }

    /// Which event to read next, if there is one left.
    pub fn next_entry(&self) -> (r: Option<EventIndexEntry>)
        ensures
            self.spec_events().len() <= self.spec_entries().len(),
            r == if self.spec_events().len() < self.spec_entries().len() {
                Some(self.spec_entries()[self.spec_events().len() as int])
            } else {
                None
            },
    {
        proof {
            use_type_invariant(self);
        }
        if self.events.len() < self.entries.len() {
            Some(self.entries[self.events.len()])
        } else {
            None
        }
    }

    /// Checks that the event that was read is the one that the entry of the index points to.
    pub fn check_event(entry: &EventIndexEntry, event: &ContractEvent) -> (r: Result<
        (),
        AptosDbError,
    >)
        ensures
            r == if event.sequence_number == entry.seq_num {
                Ok::<(), AptosDbError>(())
            } else {
                Err(
                    AptosDbError::EventIndexBroken {
                        indexed: entry.seq_num,
                        stored: event.sequence_number,
                    },
                )
            },
    {
        if entry.seq_num != event.sequence_number() {
            return Err(
                AptosDbError::EventIndexBroken {
                    indexed: entry.seq_num,
                    stored: event.sequence_number(),
                },
            );
        }
        Ok(())
    }

    /// Takes the next event with the two parts of its proof.
    pub fn add_event(
        &mut self,
        event: ContractEvent,
        event_proof: EventAccumulatorProof,
        txn_info_with_proof: TransactionInfoWithProof,
    )
        requires
            old(self).spec_events().len() < old(self).spec_entries().len(),
            event.sequence_number == old(self).spec_entries()[old(
                self,
            ).spec_events().len() as int].seq_num,
        ensures
            final(self).spec_order() == old(self).spec_order(),
            final(self).spec_entries() == old(self).spec_entries(),
            final(self).spec_events().len() == old(self).spec_events().len() + 1,
            final(self).spec_events().drop_last() == old(self).spec_events(),
            ({
                let entry = old(self).spec_entries()[old(self).spec_events().len() as int];
                let added = final(self).spec_events().last();
                &&& event_at_entry(added, entry)
                &&& added.transaction_version == entry.version
                &&& added.event_index == entry.index
                &&& added.event == event
                &&& added.proof.spec_transaction_info_with_proof() == txn_info_with_proof
                &&& added.proof.spec_event_proof() == event_proof
            }),
    {
        proof {
            use_type_invariant(&*self);
        }
        let entry: EventIndexEntry = self.entries[self.events.len()];
        let proof_of_event: EventProof = EventProof::new(txn_info_with_proof, event_proof);
        let added: EventWithProof = EventWithProof::new(
            entry.version,
            entry.index,
            event,
            proof_of_event,
        );
        let mut events: Vec<EventWithProof> = Vec::new();
        core::mem::swap(&mut events, &mut self.events);
        events.push(added);
        assert(events@.drop_last() =~= old(self).events@);
        self.events = events;
    }

    /// Answers with the events in the order that is asked for, once all of them are read.
    pub fn finish(self) -> (r: Vec<EventWithProof>)
        requires
            self.spec_events().len() == self.spec_entries().len(),
        ensures
            r@ == in_order(self.spec_order(), self.spec_events()),
            r@.len() == self.spec_entries().len(),
            forall|i: int|
                0 <= i < r@.len() ==> event_at_entry(
                    #[trigger] r@[i],
                    in_order(self.spec_order(), self.spec_entries())[i],
                ),
    {
        proof {
            use_type_invariant(&self);
        }
        if self.order == Order::Descending {
            reversed(self.events)
        } else {
            self.events
        }
    }
}

/// `items`, which are in ascending order, in the order that is asked for.
pub open spec fn in_order<T>(order: Order, items: Seq<T>) -> Seq<T> {
    match order {
        Order::Ascending => items,
        Order::Descending => items.reverse(),
    }
}

/// Turns a list around.
fn reversed(items: Vec<EventWithProof>) -> (r: Vec<EventWithProof>)
    ensures
        r@ == items@.reverse(),
{
    let mut rest: Vec<EventWithProof> = items;
    let mut turned: Vec<EventWithProof> = Vec::new();
    while rest.len() > 0
        invariant
            rest@.len() + turned@.len() == items@.len(),
            rest@ == items@.take(rest@.len() as int),
            forall|i: int| 0 <= i < turned@.len() ==> turned@[i] == items@[items@.len() - 1 - i],
        decreases rest@.len(),
    {
        if let Some(item) = rest.pop() {
            turned.push(item);
        }
        assert(rest@ =~= items@.take(rest@.len() as int));
    }
    assert(turned@ =~= items@.reverse());
    turned
}

/// What a request for the events around a version is refused with, if anything.
pub open spec fn spec_check_event_by_version(
    event_version: Version,
    proof_version: Version,
    latest_version: Version,
) -> Result<(), AptosDbError> {
    if proof_version > latest_version {
        Err(AptosDbError::ProofVersionTooNew { proof_version, latest_version })
    } else if event_version > proof_version {
        Err(AptosDbError::EventVersionTooNew { event_version, proof_version })
    } else {
        Ok(())
    }
}

/// Refuses a request for the events around a version where they cannot be proved.
pub fn check_event_by_version(
    event_version: Version,
    proof_version: Version,
    latest_version: Version,
) -> (r: Result<(), AptosDbError>)
    ensures
        r == spec_check_event_by_version(event_version, proof_version, latest_version),
{
    if proof_version > latest_version {
        return Err(AptosDbError::ProofVersionTooNew { proof_version, latest_version });
    }
    if event_version > proof_version {
        return Err(AptosDbError::EventVersionTooNew { event_version, proof_version });
    }
    Ok(())
}

/// The events to ask for, in ascending order, to find those around a version: the first sequence
/// number, and how many.
pub open spec fn spec_surrounding_events(latest_at_version: Option<u64>) -> (u64, u64) {
    match latest_at_version {
        Some(seq_num) => (seq_num, 2),
        None => (0, 1),
    }
}

/// Finds out which events to ask for, in ascending order, to find those around a version. What
/// decides is the latest sequence number of an event at or before that version.
pub fn surrounding_events(latest_at_version: Option<u64>) -> (r: (u64, u64))
    ensures
        r == spec_surrounding_events(latest_at_version),
{
    match latest_at_version {
        // We need to request the surrounding events (surrounding as in
        // E_i.version <= event_version < E_{i+1}.version) in order to prove that there are no
        // intermediate events, i.e., E_j, where E_i.version < E_j.version <= event_version.
        //
        // This limit also works for the case where `event_version` is after the latest event,
        // since the upper bound will just be None.
        Some(seq_num) => (seq_num, 2),
        // Since there is no event at or before `event_version`, we need to show that either (1.)
        // there are no events or (2.) events start at some later version.
        None => (0, 1),
    }
}

/// The events around a version: the last one at or before it, and the first one after it.
#[derive(Debug, PartialEq, Eq)]
pub struct EventByVersionWithProof {
    pub lower_bound_incl: Option<EventWithProof>,
    pub upper_bound_excl: Option<EventWithProof>,
}

/// Item `i` of a list, if it has so many.
pub open spec fn item_at<T>(items: Seq<T>, i: int) -> Option<T> {
    if 0 <= i < items.len() {
        Some(items[i])
    } else {
        None
    }
}

impl EventByVersionWithProof {
    /// Takes the events that were asked for apart: where there is an event at or before the
    /// version, the first one of them is that event.
    pub fn from_surrounding(
        latest_at_version: Option<u64>,
        events: Vec<EventWithProof>,
    ) -> (r: Self)
        requires
            events@.len() <= spec_surrounding_events(latest_at_version).1,
        ensures
            latest_at_version is Some ==> r.lower_bound_incl == item_at(events@, 0)
                && r.upper_bound_excl == item_at(events@, 1),
            latest_at_version is None ==> r.lower_bound_incl is None && r.upper_bound_excl
                == item_at(events@, 0),
    {
        let mut rest: Vec<EventWithProof> = events;
        match latest_at_version {
            Some(_) => {
                let upper_bound_excl: Option<EventWithProof> = if rest.len() > 1 {
                    rest.pop()
                } else {
                    None
                };
                let lower_bound_incl: Option<EventWithProof> = rest.pop();
                EventByVersionWithProof { lower_bound_incl, upper_bound_excl }
            },
            None => {
                let upper_bound_excl: Option<EventWithProof> = rest.pop();
                EventByVersionWithProof { lower_bound_incl: None, upper_bound_excl }
            },
        }
    }
}

} // verus!
