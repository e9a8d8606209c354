//! Finishing a state snapshot that was received from another node.

use vstd::prelude::*;
use vstd::slice::slice_to_vec;
use crate::crypto::hash::{HashValue, TransactionAccumulatorHasher};
use crate::ledger::{LedgerInfo, TransactionInfo, Version};
use crate::proofs::authentication::is_ledger;
use crate::proofs::membership::{
    range_collides, range_height, verified_range_is_in_accumulator,
};
use crate::proofs::merkle::{accumulator_depth, frozen_roots};
use crate::proofs::transaction::{transaction_info_hashes, TransactionInfoListWithProof};
use crate::storage::error::AptosDbError;
use crate::storage::events::ContractEvent;
use crate::storage::transactions::{
    Transaction, TransactionOutput, TransactionOutputListWithProof,
};

verus! {

/// What is stored when a state snapshot is finished.
#[derive(Debug, PartialEq, Eq)]
pub struct SnapshotParts {
    /// The frozen subtrees of the transaction accumulator right before the transaction.
    pub frozen_subtrees: Vec<HashValue>,
    pub transactions: Vec<Transaction>,
    pub outputs: Vec<TransactionOutput>,
    pub events: Vec<Vec<ContractEvent>>,
    pub transaction_infos: Vec<TransactionInfo>,
}

/// Whether two lists of events are the same.
pub open spec fn same_events(a: Seq<ContractEvent>, b: Seq<ContractEvent>) -> bool {
    &&& a.len() == b.len()
    &&& forall|i: int|
        0 <= i < a.len() ==> (#[trigger] a[i]).sequence_number == b[i].sequence_number
            && a[i].event_data@ == b[i].event_data@
}

/// Copies a list of events.
fn copy_events(events: &Vec<ContractEvent>) -> (r: Vec<ContractEvent>)
    ensures
        same_events(r@, events@),
{
    let mut copies: Vec<ContractEvent> = Vec::new();
    let mut i: usize = 0;
    while i < events.len()
        invariant
            i <= events@.len(),
            copies@.len() == i,
            forall|j: int|
                0 <= j < i ==> (#[trigger] copies@[j]).sequence_number
                    == events@[j].sequence_number && copies@[j].event_data@
                    == events@[j].event_data@,
        decreases events@.len() - i,
    {
        copies.push(events[i].clone());
        i = i + 1;
    }
    copies
}

/// What is wrong with the outputs and infos that come with a snapshot: there must be exactly one of
/// each.
pub open spec fn spec_check_snapshot(num_outputs: nat, num_infos: nat) -> Result<
    (),
    AptosDbError,
> {
    if num_outputs != 1 {
        Err(AptosDbError::WrongOutputCount { found: num_outputs as usize })
    } else if num_infos != 1 {
        Err(AptosDbError::WrongInfoCount { found: num_infos as usize })
    } else {
        Ok(())
    }
}

/// Takes what comes with a snapshot apart.
pub fn snapshot_parts(output_with_proof: TransactionOutputListWithProof) -> (r: Result<
    SnapshotParts,
    AptosDbError,
>)
    ensures
        match (r, spec_check_snapshot(
            output_with_proof.transactions_and_outputs@.len(),
            output_with_proof.proof.transaction_infos@.len(),
        )) {
            (Err(e), Err(expected)) => e == expected,
            (Ok(parts), Ok(_)) => {
                let pairs = output_with_proof.transactions_and_outputs@;
                &&& parts.frozen_subtrees@
                    == output_with_proof.proof.ledger_info_to_transaction_infos_proof.spec_left_siblings()
                &&& parts.transactions@ == pairs.map_values(
                    |pair: (Transaction, TransactionOutput)| pair.0,
                )
                &&& parts.outputs@ == pairs.map_values(
                    |pair: (Transaction, TransactionOutput)| pair.1,
                )
                &&& parts.events@.len() == pairs.len()
                &&& forall|i: int|
                    0 <= i < pairs.len() ==> same_events(
                        #[trigger] parts.events@[i]@,
                        pairs[i].1.events@,
                    )
                &&& parts.transaction_infos == output_with_proof.proof.transaction_infos
            },
            _ => false,
        },
{
    let num_outputs: usize = output_with_proof.transactions_and_outputs.len();
    let num_infos: usize = output_with_proof.proof.transaction_infos.len();
    // Ensure the output with proof only contains a single transaction output and info
    if num_outputs != 1 {
        return Err(AptosDbError::WrongOutputCount { found: num_outputs });
    }
    if num_infos != 1 {
        return Err(AptosDbError::WrongInfoCount { found: num_infos });
    }
    let frozen_subtrees: Vec<HashValue> = slice_to_vec(
        output_with_proof.proof.ledger_info_to_transaction_infos_proof.left_siblings().as_slice(),
    );
    let ghost pairs = output_with_proof.transactions_and_outputs@;
    let ghost first_parts = pairs.map_values(|pair: (Transaction, TransactionOutput)| pair.0);
    let ghost second_parts = pairs.map_values(|pair: (Transaction, TransactionOutput)| pair.1);
    let mut transactions: Vec<Transaction> = Vec::new();
    let mut outputs: Vec<TransactionOutput> = Vec::new();
    let mut events: Vec<Vec<ContractEvent>> = Vec::new();
    for pair in rows: output_with_proof.transactions_and_outputs
        invariant
            rows.seq() == pairs,
            first_parts == pairs.map_values(|pair: (Transaction, TransactionOutput)| pair.0),
            second_parts == pairs.map_values(|pair: (Transaction, TransactionOutput)| pair.1),
            transactions@ == first_parts.take(rows.index() as int),
            outputs@ == second_parts.take(rows.index() as int),
            events@.len() == rows.index(),
            forall|i: int|
                0 <= i < rows.index() ==> same_events(
                    #[trigger] events@[i]@,
                    pairs[i].1.events@,
                ),
    {
        let (transaction, output) = pair;
        events.push(copy_events(output.events()));
        transactions.push(transaction);
        outputs.push(output);
        assert(transactions@ =~= first_parts.take(rows.index() as int + 1));
        assert(outputs@ =~= second_parts.take(rows.index() as int + 1));
    }
    assert(first_parts.take(pairs.len() as int) =~= first_parts);
    assert(second_parts.take(pairs.len() as int) =~= second_parts);
    Ok(
        SnapshotParts {
            frozen_subtrees,
            transactions,
            outputs,
            events,
            transaction_infos: output_with_proof.proof.transaction_infos,
        },
    )
}

/// Where the proof that comes with a snapshot verifies, the frozen subtrees that are stored are
/// those of the ledger right before the transaction, or the proof shows a collision.
pub proof fn snapshot_frozen_subtrees_are_those_of_ledger(
    infos: Seq<TransactionInfo>,
    ledger_info: LedgerInfo,
    version: Version,
    p: TransactionInfoListWithProof,
)
    requires
        is_ledger(infos, ledger_info),
        p.transaction_infos@.len() == 1,
        version < infos.len(),
        range_height(
            1,
            version as nat,
            p.ledger_info_to_transaction_infos_proof.spec_left_siblings().len(),
            p.ledger_info_to_transaction_infos_proof.spec_right_siblings().len(),
        ) == accumulator_depth(infos.len()),
        p.spec_verify(ledger_info, Some(version)) is Ok,
    ensures
        p.ledger_info_to_transaction_infos_proof.spec_left_siblings() == frozen_roots::<
            TransactionAccumulatorHasher,
        >(transaction_info_hashes(infos.take(version as int))) || range_collides::<
            TransactionAccumulatorHasher,
        >(
            transaction_info_hashes(infos),
            transaction_info_hashes(p.transaction_infos@),
            version as nat,
            p.ledger_info_to_transaction_infos_proof.spec_left_siblings(),
            p.ledger_info_to_transaction_infos_proof.spec_right_siblings(),
        ),
{
    let hashes = transaction_info_hashes(infos);
    verified_range_is_in_accumulator(
        hashes,
        version,
        transaction_info_hashes(p.transaction_infos@),
        p.ledger_info_to_transaction_infos_proof,
    );
    assert(transaction_info_hashes(infos.take(version as int)) =~= hashes.take(version as int));
}

} // verus!
