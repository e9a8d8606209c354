//! Lists of transactions and of their outputs.

use vstd::prelude::*;
use vstd::slice::slice_to_vec;
use crate::ledger::{LedgerInfo, TransactionInfo, Version};
use crate::crypto::hash::TransactionAccumulatorHasher;
use crate::proofs::authentication::{is_ledger, transaction_list_proof_verifies};
use crate::proofs::membership::right_siblings_of;
use crate::proofs::merkle::frozen_roots;
use crate::proofs::range_proof::TransactionAccumulatorRangeProof;
use crate::proofs::transaction::{
    same_infos, transaction_info_hashes, TransactionInfoListWithProof, TransactionInfoWithProof,
};
use crate::storage::error::AptosDbError;
use crate::storage::events::ContractEvent;
use crate::storage::paging::{spec_transaction_page, VersionRange};

verus! {

/// An encoded transaction.
pub type Transaction = Vec<u8>;

/// The encoded changes that a transaction makes.
pub type WriteSet = Vec<u8>;

/// A transaction with its events, where they are asked for, and its proof.
#[derive(Debug, PartialEq, Eq)]
pub struct TransactionWithProof {
    pub version: Version,
    pub transaction: Transaction,
    pub events: Option<Vec<ContractEvent>>,
    pub proof: TransactionInfoWithProof,
}

impl TransactionWithProof {
    /// Puts together what was read for a version. There are events exactly where they are asked for.
    pub fn for_version(
        version: Version,
        transaction: Transaction,
        fetch_events: bool,
        events: Vec<ContractEvent>,
        proof_of_info: TransactionInfoWithProof,
    ) -> (r: Self)
        ensures
            r.version == version,
            r.transaction == transaction,
            r.events == if fetch_events {
                Some(events)
            } else {
                None
            },
            r.proof == proof_of_info,
    {
        let events: Option<Vec<ContractEvent>> = if fetch_events {
            Some(events)
        } else {
            None
        };
        TransactionWithProof { version, transaction, events, proof: proof_of_info }
    }
}

/// Consecutive transactions with their events, where they are asked for, and their proof.
#[derive(Debug, PartialEq, Eq)]
pub struct TransactionListWithProof {
    pub transactions: Vec<Transaction>,
    pub events: Option<Vec<Vec<ContractEvent>>>,
    pub first_transaction_version: Option<Version>,
    pub proof: TransactionInfoListWithProof,
}

impl TransactionListWithProof {
    /// Constructs a list of transactions.
    pub fn new(
        transactions: Vec<Transaction>,
        events: Option<Vec<Vec<ContractEvent>>>,
        first_transaction_version: Option<Version>,
        proof_of_list: TransactionInfoListWithProof,
    ) -> (r: Self)
        ensures
            r.transactions == transactions,
            r.events == events,
            r.first_transaction_version == first_transaction_version,
            r.proof == proof_of_list,
    {
        TransactionListWithProof {
            transactions,
            events,
            first_transaction_version,
            proof: proof_of_list,
        }
    }

    /// Constructs an empty list of transactions.
    pub fn new_empty() -> (r: Self)
        ensures
            r.transactions@ == Seq::<Transaction>::empty(),
            r.events is None,
            r.first_transaction_version is None,
            is_empty_list(r.proof),
    {
        Self::new(Vec::new(), None, None, TransactionInfoListWithProof::new_empty())
    }

    /// Puts together what was read for a page: one transaction and one transaction info for each
    /// version, and the events of each version exactly where they are asked for.
    pub fn for_page(
        page: &VersionRange,
        fetch_events: bool,
        transactions: Vec<Transaction>,
        transaction_infos: Vec<TransactionInfo>,
        events: Vec<Vec<ContractEvent>>,
        range_proof: TransactionAccumulatorRangeProof,
    ) -> (r: Self)
        requires
            transactions@.len() == page.count,
            transaction_infos@.len() == page.count,
            events@.len() == spec_event_versions(*page, fetch_events).count,
        ensures
            r.transactions == transactions,
            r.events == if fetch_events {
                Some(events)
            } else {
                None
            },
            r.first_transaction_version == Some(page.start),
            r.proof.transaction_infos == transaction_infos,
            r.proof.ledger_info_to_transaction_infos_proof == range_proof,
            r.transactions@.len() == page.count,
            r.proof.transaction_infos@.len() == page.count,
            r.events matches Some(events) ==> events@.len() == page.count,
    {
        let proof_of_list: TransactionInfoListWithProof = TransactionInfoListWithProof::new(
            range_proof,
            transaction_infos,
        );
        let events: Option<Vec<Vec<ContractEvent>>> = if fetch_events {
            Some(events)
        } else {
            None
        };
        Self::new(transactions, events, Some(page.start), proof_of_list)
    }
}

/// The versions of a page whose events are read.
pub open spec fn spec_event_versions(page: VersionRange, fetch_events: bool) -> VersionRange {
    if fetch_events {
        page
    } else {
        VersionRange { start: page.start, count: 0 }
    }
}

/// Finds the versions of a page whose events are read: all of them where events are asked for, and
/// none otherwise.
pub fn event_versions(page: &VersionRange, fetch_events: bool) -> (r: VersionRange)
    ensures
        r == spec_event_versions(*page, fetch_events),
{
    if fetch_events {
        *page
    } else {
        VersionRange { start: page.start, count: 0 }
    }
}

/// Whether the proof is the one of an empty list.
pub open spec fn is_empty_list(p: TransactionInfoListWithProof) -> bool {
    &&& p.ledger_info_to_transaction_infos_proof.spec_left_siblings().len() == 0
    &&& p.ledger_info_to_transaction_infos_proof.spec_right_siblings().len() == 0
    &&& p.transaction_infos@.len() == 0
}

/// What a transaction did.
#[derive(Debug, PartialEq, Eq)]
pub struct TransactionOutput {
    pub write_set: WriteSet,
    pub events: Vec<ContractEvent>,
    pub gas_used: u64,
    /// The encoded status of the transaction.
    pub status: Vec<u8>,
}

impl TransactionOutput {
    /// Constructs the output of a transaction.
    pub fn new(
        write_set: WriteSet,
        events: Vec<ContractEvent>,
        gas_used: u64,
        status: Vec<u8>,
    ) -> (r: Self)
        ensures
            r == (TransactionOutput { write_set, events, gas_used, status }),
    {
        TransactionOutput { write_set, events, gas_used, status }
    }

    /// Returns the events.
    pub fn events(&self) -> (r: &Vec<ContractEvent>)
        ensures
            *r == self.events,
    {
        &self.events
    }
}

/// What is stored of one transaction and what it did.
#[derive(Debug, PartialEq, Eq)]
pub struct StoredOutput {
    pub transaction_info: TransactionInfo,
    pub transaction: Transaction,
    pub write_set: WriteSet,
    pub events: Vec<ContractEvent>,
}

/// Whether the output is the one of the stored transaction: it has the write set and the events that
/// are stored with it, and the gas used and the status of its transaction info.
pub open spec fn is_output_of(output: TransactionOutput, stored: StoredOutput) -> bool {
    &&& output.write_set == stored.write_set
    &&& output.events == stored.events
    &&& output.gas_used == stored.transaction_info.gas_used
    &&& output.status@ == stored.transaction_info.status@
}

/// Consecutive transactions with their outputs and their proof.
#[derive(Debug, PartialEq, Eq)]
pub struct TransactionOutputListWithProof {
    pub transactions_and_outputs: Vec<(Transaction, TransactionOutput)>,
    pub first_transaction_output_version: Option<Version>,
    pub proof: TransactionInfoListWithProof,
}

impl TransactionOutputListWithProof {
    /// Constructs a list of transactions and outputs.
    pub fn new(
        transactions_and_outputs: Vec<(Transaction, TransactionOutput)>,
        first_transaction_output_version: Option<Version>,
        proof_of_list: TransactionInfoListWithProof,
    ) -> (r: Self)
        ensures
            r.transactions_and_outputs == transactions_and_outputs,
            r.first_transaction_output_version == first_transaction_output_version,
            r.proof == proof_of_list,
    {
        TransactionOutputListWithProof {
            transactions_and_outputs,
            first_transaction_output_version,
            proof: proof_of_list,
        }
    }

    /// Constructs an empty list of transactions and outputs.
    pub fn new_empty() -> (r: Self)
        ensures
            r.transactions_and_outputs@ == Seq::<(Transaction, TransactionOutput)>::empty(),
            r.first_transaction_output_version is None,
            is_empty_list(r.proof),
    {
        Self::new(Vec::new(), None, TransactionInfoListWithProof::new_empty())
    }

    /// Puts together what was read for a page, which is one row for each version. The output of
    /// each transaction is made from its own row.
    pub fn for_page(
        page: &VersionRange,
        stored: Vec<StoredOutput>,
        range_proof: TransactionAccumulatorRangeProof,
    ) -> (r: Self)
        requires
            stored@.len() == page.count,
        ensures
            r.transactions_and_outputs@.len() == page.count,
            r.proof.transaction_infos@.len() == page.count,
            forall|i: int|
                #![trigger r.transactions_and_outputs@[i]]
                0 <= i < page.count ==> {
                    &&& r.transactions_and_outputs@[i].0 == stored@[i].transaction
                    &&& is_output_of(r.transactions_and_outputs@[i].1, stored@[i])
                },
            r.proof.transaction_infos@ == stored@.map_values(
                |row: StoredOutput| row.transaction_info,
            ),
            r.first_transaction_output_version == Some(page.start),
            r.proof.ledger_info_to_transaction_infos_proof == range_proof,
    {
        let ghost infos = stored@.map_values(|row: StoredOutput| row.transaction_info);
        let mut transaction_infos: Vec<TransactionInfo> = Vec::new();
        let mut transactions_and_outputs: Vec<(Transaction, TransactionOutput)> = Vec::new();
        for row in rows: stored
            invariant
                rows.seq() == stored@,
                infos == stored@.map_values(|row: StoredOutput| row.transaction_info),
                transaction_infos@ == infos.take(rows.index() as int),
                transactions_and_outputs@.len() == rows.index(),
                forall|i: int|
                    #![trigger transactions_and_outputs@[i]]
                    0 <= i < rows.index() ==> {
                        &&& transactions_and_outputs@[i].0 == stored@[i].transaction
                        &&& is_output_of(transactions_and_outputs@[i].1, stored@[i])
                    },
        {
            let output: TransactionOutput = TransactionOutput::new(
                row.write_set,
                row.events,
                row.transaction_info.gas_used(),
                slice_to_vec(row.transaction_info.status().as_slice()),
            );
            transactions_and_outputs.push((row.transaction, output));
            transaction_infos.push(row.transaction_info);
            assert(transaction_infos@ =~= infos.take(rows.index() as int + 1));
        }
        assert(infos.take(stored@.len() as int) =~= infos);
        let proof_of_list: TransactionInfoListWithProof = TransactionInfoListWithProof::new(
            range_proof,
            transaction_infos,
        );
        Self::new(transactions_and_outputs, Some(page.start), proof_of_list)
    }
}

/// The list that is answered for a page verifies against the ledger info, if what was read for the
/// page is what the ledger has there.
pub proof fn answered_list_verifies(
    infos: Seq<TransactionInfo>,
    ledger_info: LedgerInfo,
    start_version: Version,
    limit: u64,
    page: VersionRange,
    answer: TransactionInfoListWithProof,
)
    requires
        is_ledger(infos, ledger_info),
        spec_transaction_page(start_version, limit, ledger_info.version) == Ok::<
            Option<VersionRange>,
            AptosDbError,
        >(Some(page)),
        same_infos(
            answer.transaction_infos@,
            infos.subrange(page.start as int, page.spec_end()),
        ),
        answer.ledger_info_to_transaction_infos_proof.spec_left_siblings() == frozen_roots::<
            TransactionAccumulatorHasher,
        >(transaction_info_hashes(infos).take(page.start as int)),
        answer.ledger_info_to_transaction_infos_proof.spec_right_siblings() == right_siblings_of::<
            TransactionAccumulatorHasher,
        >(transaction_info_hashes(infos), page.spec_end() as nat),
    ensures
        answer.spec_verify(ledger_info, Some(start_version)) is Ok,
{
    transaction_list_proof_verifies(infos, ledger_info, start_version, answer);
}

/// The empty answer verifies without a first version, against any ledger info.
pub proof fn empty_answer_verifies(
    ledger_info: LedgerInfo,
    answer: TransactionInfoListWithProof,
)
    requires
        is_empty_list(answer),
    ensures
        answer.spec_verify(ledger_info, None) is Ok,
{
}

} // verus!
