//! Proofs that connect transactions, events and state values to the ledger.

use vstd::prelude::*;
use vstd::slice::slice_to_vec;
use crate::crypto::hash::{CryptoHash, HashValue, TransactionAccumulatorHasher};
use crate::ledger::{LedgerInfo, StateValue, TransactionInfo, Version};
use crate::proofs::accumulator::{InMemoryAccumulator, LeafCount};
use crate::proofs::accumulator_proof::{EventAccumulatorProof, TransactionAccumulatorProof};
use crate::proofs::error::ProofError;
use crate::proofs::merkle::{absorb_leaves, popcount, root_of_frozen};
use crate::proofs::range_proof::{AccumulatorRangeProof, TransactionAccumulatorRangeProof};
use crate::proofs::sparse::SparseMerkleProof;

verus! {

/// What verifying that a transaction info is in the ledger at the given version gives.
pub open spec fn spec_verify_transaction_info(
    ledger_info: LedgerInfo,
    transaction_version: Version,
    transaction_info: TransactionInfo,
    ledger_info_to_transaction_info_proof: TransactionAccumulatorProof,
) -> Result<(), ProofError> {
    if transaction_version > ledger_info.version {
        Err(
            ProofError::TransactionTooNew {
                transaction_version,
                ledger_version: ledger_info.version,
            },
        )
    } else {
        ledger_info_to_transaction_info_proof.spec_verify(
            ledger_info.transaction_accumulator_hash,
            transaction_info.spec_hash(),
            transaction_version,
        )
    }
}

/// Verifies that a given `transaction_info` exists in the ledger using provided proof.
pub fn verify_transaction_info(
    ledger_info: &LedgerInfo,
    transaction_version: Version,
    transaction_info: &TransactionInfo,
    ledger_info_to_transaction_info_proof: &TransactionAccumulatorProof,
) -> (r: Result<(), ProofError>)
    ensures
        r == spec_verify_transaction_info(
            *ledger_info,
            transaction_version,
            *transaction_info,
            *ledger_info_to_transaction_info_proof,
        ),
{
    if transaction_version > ledger_info.version() {
        return Err(
            ProofError::TransactionTooNew {
                transaction_version,
                ledger_version: ledger_info.version(),
            },
        );
    }
    ledger_info_to_transaction_info_proof.verify(
        ledger_info.transaction_accumulator_hash(),
        transaction_info.hash(),
        transaction_version,
    )
}

/// `TransactionInfo` and a `TransactionAccumulatorProof` connecting it to the ledger root.
#[derive(Debug)]
pub struct TransactionInfoWithProof {
    /// The accumulator proof from ledger info root to leaf that authenticates the hash of the
    /// `TransactionInfo` object.
    pub ledger_info_to_transaction_info_proof: TransactionAccumulatorProof,
    /// The `TransactionInfo` object at the leaf of the accumulator.
    pub transaction_info: TransactionInfo,
}

impl Clone for TransactionInfoWithProof {
    fn clone(&self) -> (r: Self)
        ensures
            r.same_as(*self),
    {
        TransactionInfoWithProof {
            ledger_info_to_transaction_info_proof: self.ledger_info_to_transaction_info_proof.clone(),
            transaction_info: self.transaction_info.clone(),
        }
    }
}

impl vstd::std_specs::cmp::PartialEqSpecImpl for TransactionInfoWithProof {
    open spec fn obeys_eq_spec() -> bool {
        true
    }

    open spec fn eq_spec(&self, other: &TransactionInfoWithProof) -> bool {
        self.same_as(*other)
    }
}

impl PartialEq for TransactionInfoWithProof {
    fn eq(&self, other: &TransactionInfoWithProof) -> (r: bool) {
        self.ledger_info_to_transaction_info_proof == other.ledger_info_to_transaction_info_proof
            && self.transaction_info == other.transaction_info
    }
}

impl Eq for TransactionInfoWithProof {
}

impl TransactionInfoWithProof {
    /// Whether the two proofs have the same contents.
    pub open spec fn same_as(&self, other: TransactionInfoWithProof) -> bool {
        self.ledger_info_to_transaction_info_proof@ == other.ledger_info_to_transaction_info_proof@
            && self.transaction_info.same_as(other.transaction_info)
    }

    /// What verifying the proof gives.
    pub open spec fn spec_verify(
        &self,
        ledger_info: LedgerInfo,
        transaction_version: Version,
    ) -> Result<(), ProofError> {
        spec_verify_transaction_info(
            ledger_info,
            transaction_version,
            self.transaction_info,
            self.ledger_info_to_transaction_info_proof,
        )
    }

    /// Constructs a new `TransactionInfoWithProof` object using given
    /// `ledger_info_to_transaction_info_proof`.
    pub fn new(
        ledger_info_to_transaction_info_proof: TransactionAccumulatorProof,
        transaction_info: TransactionInfo,
    ) -> (r: Self)
        ensures
            r.ledger_info_to_transaction_info_proof == ledger_info_to_transaction_info_proof,
            r.transaction_info == transaction_info,
    {
        TransactionInfoWithProof { ledger_info_to_transaction_info_proof, transaction_info }
    }

    /// Returns the `ledger_info_to_transaction_info_proof` object in this proof.
    pub fn ledger_info_to_transaction_info_proof(&self) -> (r: &TransactionAccumulatorProof)
        ensures
            *r == self.ledger_info_to_transaction_info_proof,
    {
        &self.ledger_info_to_transaction_info_proof
    }

    /// Returns the `transaction_info` object in this proof.
    pub fn transaction_info(&self) -> (r: &TransactionInfo)
        ensures
            *r == self.transaction_info,
    {
        &self.transaction_info
    }

    /// Verifies that the `TransactionInfo` exists in the ledger represented by the `LedgerInfo`
    /// at specified version.
    pub fn verify(&self, ledger_info: &LedgerInfo, transaction_version: Version) -> (r: Result<
        (),
        ProofError,
    >)
        ensures
            r == self.spec_verify(*ledger_info, transaction_version),
    {
        verify_transaction_info(
            ledger_info,
            transaction_version,
            &self.transaction_info,
            &self.ledger_info_to_transaction_info_proof,
        )
    }
}

/// The complete proof used to authenticate the state of a resource in state store.
/// This structure consists of the `AccumulatorProof` from `LedgerInfo` to `TransactionInfo`,
/// the `TransactionInfo` object and the `SparseMerkleProof` from state root to the resource.
#[derive(Debug)]
pub struct StateStoreValueProof {
    transaction_info_with_proof: TransactionInfoWithProof,
    /// The sparse merkle proof from state root to the account state.
    transaction_info_to_value_proof: SparseMerkleProof,
}

impl Clone for StateStoreValueProof {
    fn clone(&self) -> (r: Self)
        ensures
            r.same_as(*self),
    {
        StateStoreValueProof {
            transaction_info_with_proof: self.transaction_info_with_proof.clone(),
            transaction_info_to_value_proof: self.transaction_info_to_value_proof.clone(),
        }
    }
}

impl vstd::std_specs::cmp::PartialEqSpecImpl for StateStoreValueProof {
    open spec fn obeys_eq_spec() -> bool {
        true
    }

    open spec fn eq_spec(&self, other: &StateStoreValueProof) -> bool {
        self.same_as(*other)
    }
}

impl PartialEq for StateStoreValueProof {
    fn eq(&self, other: &StateStoreValueProof) -> (r: bool) {
        self.transaction_info_with_proof == other.transaction_info_with_proof
            && self.transaction_info_to_value_proof == other.transaction_info_to_value_proof
    }
}

impl Eq for StateStoreValueProof {
}

impl StateStoreValueProof {
    /// Whether the two proofs have the same contents.
    pub open spec fn same_as(&self, other: StateStoreValueProof) -> bool {
        self.spec_transaction_info_with_proof().same_as(
            other.spec_transaction_info_with_proof(),
        ) && self.spec_value_proof().spec_leaf() == other.spec_value_proof().spec_leaf()
            && self.spec_value_proof().spec_siblings()
            == other.spec_value_proof().spec_siblings()
    }

    /// The proof that the transaction info is in the ledger.
    pub closed spec fn spec_transaction_info_with_proof(&self) -> TransactionInfoWithProof {
        self.transaction_info_with_proof
    }

    /// The proof that the value is in the state tree.
    pub closed spec fn spec_value_proof(&self) -> SparseMerkleProof {
        self.transaction_info_to_value_proof
    }

    /// What verifying the proof gives: the state tree is the one of a state checkpoint, the value
    /// is in it or not in it as claimed, and the checkpoint is in the ledger at the given version.
    pub open spec fn spec_verify(
        &self,
        ledger_info: LedgerInfo,
        state_version: Version,
        key_hash: HashValue,
        value_hash: Option<HashValue>,
    ) -> Result<(), ProofError> {
        let info = self.spec_transaction_info_with_proof();
        match info.transaction_info.spec_state_checkpoint_hash() {
            Err(e) => Err(e),
            Ok(state_root) => match self.spec_value_proof().spec_verify_by_hash(
                state_root,
                key_hash,
                value_hash,
            ) {
                Err(e) => Err(e),
                Ok(_) => info.spec_verify(ledger_info, state_version),
            },
        }
    }

    /// Constructs a new `StateStoreValueProof` using given `transaction_info_with_proof` and
    /// `transaction_info_to_value_proof`.
    pub fn new(
        transaction_info_with_proof: TransactionInfoWithProof,
        transaction_info_to_value_proof: SparseMerkleProof,
    ) -> (r: Self)
        ensures
            r.spec_transaction_info_with_proof() == transaction_info_with_proof,
            r.spec_value_proof() == transaction_info_to_value_proof,
    {
        StateStoreValueProof { transaction_info_with_proof, transaction_info_to_value_proof }
    }

    /// Returns the `transaction_info_with_proof` object in this proof.
    pub fn transaction_info_with_proof(&self) -> (r: &TransactionInfoWithProof)
        ensures
            *r == self.spec_transaction_info_with_proof(),
    {
        &self.transaction_info_with_proof
    }

    /// Returns the sparse Merkle proof of the value in this proof.
    pub fn transaction_info_to_account_proof(&self) -> (r: &SparseMerkleProof)
        ensures
            *r == self.spec_value_proof(),
    {
        &self.transaction_info_to_value_proof
    }

    /// Verifies that the state of an account at version `state_version` is correct using the
    /// provided proof. If `state_value` is present, we expect the account to exist,
    /// otherwise we expect the account to not exist.
    pub fn verify(
        &self,
        ledger_info: &LedgerInfo,
        state_version: Version,
        value_hash: HashValue,
        state_value: Option<&StateValue>,
    ) -> (r: Result<(), ProofError>)
        ensures
            r == self.spec_verify(
                *ledger_info,
                state_version,
                value_hash,
                match state_value {
                    Some(value) => Some(value.spec_hash()),
                    None => None,
                },
            ),
    {
        let state_root: HashValue = match self.transaction_info_with_proof.transaction_info.ensure_state_checkpoint_hash() {
            Ok(hash) => hash,
            Err(e) => {
                return Err(e);
            },
        };
        if let Err(e) = self.transaction_info_to_value_proof.verify(
            state_root,
            value_hash,
            state_value,
        ) {
            return Err(e);
        }
        self.transaction_info_with_proof.verify(ledger_info, state_version)
    }
}

/// The complete proof used to authenticate a contract event. This structure consists of the
/// `AccumulatorProof` from `LedgerInfo` to `TransactionInfo`, the `TransactionInfo` object and the
/// `AccumulatorProof` from event accumulator root to the event.
#[derive(Debug)]
pub struct EventProof {
    transaction_info_with_proof: TransactionInfoWithProof,
    /// The accumulator proof from event root to the actual event.
    transaction_info_to_event_proof: EventAccumulatorProof,
}

impl Clone for EventProof {
    fn clone(&self) -> (r: Self)
        ensures
            r.same_as(*self),
    {
        EventProof {
            transaction_info_with_proof: self.transaction_info_with_proof.clone(),
            transaction_info_to_event_proof: self.transaction_info_to_event_proof.clone(),
        }
    }
}

impl vstd::std_specs::cmp::PartialEqSpecImpl for EventProof {
    open spec fn obeys_eq_spec() -> bool {
        true
    }

    open spec fn eq_spec(&self, other: &EventProof) -> bool {
        self.same_as(*other)
    }
}

impl PartialEq for EventProof {
    fn eq(&self, other: &EventProof) -> (r: bool) {
        self.transaction_info_with_proof == other.transaction_info_with_proof
            && self.transaction_info_to_event_proof == other.transaction_info_to_event_proof
    }
}

impl Eq for EventProof {
}

impl EventProof {
    /// Whether the two proofs have the same contents.
    pub open spec fn same_as(&self, other: EventProof) -> bool {
        self.spec_transaction_info_with_proof().same_as(
            other.spec_transaction_info_with_proof(),
        ) && self.spec_event_proof()@ == other.spec_event_proof()@
    }

    /// The proof that the transaction info is in the ledger.
    pub closed spec fn spec_transaction_info_with_proof(&self) -> TransactionInfoWithProof {
        self.transaction_info_with_proof
    }

    /// The proof that the event is one of the transaction.
    pub closed spec fn spec_event_proof(&self) -> EventAccumulatorProof {
        self.transaction_info_to_event_proof
    }

    /// What verifying the proof gives.
    pub open spec fn spec_verify(
        &self,
        ledger_info: LedgerInfo,
        event_hash: HashValue,
        transaction_version: Version,
        event_version_within_transaction: Version,
    ) -> Result<(), ProofError> {
        let info = self.spec_transaction_info_with_proof();
        match self.spec_event_proof().spec_verify(
            info.transaction_info.event_root_hash,
            event_hash,
            event_version_within_transaction,
        ) {
            Err(e) => Err(e),
            Ok(_) => info.spec_verify(ledger_info, transaction_version),
        }
    }

    /// Constructs a new `EventProof` using given `transaction_info_with_proof` and
    /// `transaction_info_to_event_proof`.
    pub fn new(
        transaction_info_with_proof: TransactionInfoWithProof,
        transaction_info_to_event_proof: EventAccumulatorProof,
    ) -> (r: Self)
        ensures
            r.spec_transaction_info_with_proof() == transaction_info_with_proof,
            r.spec_event_proof() == transaction_info_to_event_proof,
    {
        EventProof { transaction_info_with_proof, transaction_info_to_event_proof }
    }

    /// Returns the `transaction_info_with_proof` object in this proof.
    pub fn transaction_info_with_proof(&self) -> (r: &TransactionInfoWithProof)
        ensures
            *r == self.spec_transaction_info_with_proof(),
    {
        &self.transaction_info_with_proof
    }

    /// Returns the accumulator proof of the event in this proof.
    pub fn transaction_info_to_event_proof(&self) -> (r: &EventAccumulatorProof)
        ensures
            *r == self.spec_event_proof(),
    {
        &self.transaction_info_to_event_proof
    }

    /// Verifies that a given event is correct using provided proof.
    pub fn verify(
        &self,
        ledger_info: &LedgerInfo,
        event_hash: HashValue,
        transaction_version: Version,
        event_version_within_transaction: Version,
    ) -> (r: Result<(), ProofError>)
        ensures
            r == self.spec_verify(
                *ledger_info,
                event_hash,
                transaction_version,
                event_version_within_transaction,
            ),
    {
        if let Err(e) = self.transaction_info_to_event_proof.verify(
            self.transaction_info_with_proof.transaction_info().event_root_hash(),
            event_hash,
            event_version_within_transaction,
        ) {
            return Err(e);
        }
        self.transaction_info_with_proof.verify(ledger_info, transaction_version)
    }
}

/// The hashes of some transaction infos.
pub open spec fn transaction_info_hashes(infos: Seq<TransactionInfo>) -> Seq<HashValue> {
    infos.map_values(|info: TransactionInfo| info.spec_hash())
}

/// Whether the transaction infos have the same contents.
pub open spec fn same_infos(a: Seq<TransactionInfo>, b: Seq<TransactionInfo>) -> bool {
    &&& a.len() == b.len()
    &&& forall|i: int| 0 <= i < a.len() ==> (#[trigger] a[i]).same_as(b[i])
}

/// Copies transaction infos.
fn copy_infos(infos: &Vec<TransactionInfo>) -> (r: Vec<TransactionInfo>)
    ensures
        same_infos(r@, infos@),
{
    let mut copies: Vec<TransactionInfo> = Vec::new();
    let mut i: usize = 0;
    while i < infos.len()
        invariant
            i <= infos@.len(),
            copies@.len() == i,
            forall|j: int| 0 <= j < i ==> (#[trigger] copies@[j]).same_as(infos@[j]),
        decreases infos@.len() - i,
    {
        copies.push(infos[i].clone());
        i = i + 1;
    }
    copies
}

/// Computes the hashes of the first `count` transaction infos.
fn hash_transaction_infos(infos: &Vec<TransactionInfo>, count: usize) -> (r: Vec<HashValue>)
    requires
        count <= infos@.len(),
    ensures
        r@ == transaction_info_hashes(infos@.take(count as int)),
{
    let mut hashes: Vec<HashValue> = Vec::new();
    let mut i: usize = 0;
    while i < count
        invariant
            i <= count <= infos@.len(),
            hashes@ == transaction_info_hashes(infos@.take(i as int)),
        decreases count - i,
    {
        hashes.push(infos[i].hash());
        i = i + 1;
        assert(hashes@ =~= transaction_info_hashes(infos@.take(i as int)));
    }
    hashes
}

/// The proof used to authenticate a list of consecutive transaction infos.
#[derive(Debug)]
pub struct TransactionInfoListWithProof {
    pub ledger_info_to_transaction_infos_proof: TransactionAccumulatorRangeProof,
    pub transaction_infos: Vec<TransactionInfo>,
}

impl Clone for TransactionInfoListWithProof {
    fn clone(&self) -> (r: Self)
        ensures
            r.same_as(*self),
    {
        TransactionInfoListWithProof {
            ledger_info_to_transaction_infos_proof: self.ledger_info_to_transaction_infos_proof.clone(),
            transaction_infos: copy_infos(&self.transaction_infos),
        }
    }
}

impl vstd::std_specs::cmp::PartialEqSpecImpl for TransactionInfoListWithProof {
    open spec fn obeys_eq_spec() -> bool {
        true
    }

    open spec fn eq_spec(&self, other: &TransactionInfoListWithProof) -> bool {
        self.same_as(*other)
    }
}

impl PartialEq for TransactionInfoListWithProof {
    fn eq(&self, other: &TransactionInfoListWithProof) -> (r: bool) {
        if self.transaction_infos.len() != other.transaction_infos.len() {
            return false;
        }
        let mut i: usize = 0;
        while i < self.transaction_infos.len()
            invariant
                i <= self.transaction_infos@.len(),
                self.transaction_infos@.len() == other.transaction_infos@.len(),
                forall|j: int|
                    0 <= j < i ==> (#[trigger] self.transaction_infos@[j]).same_as(
                        other.transaction_infos@[j],
                    ),
            decreases self.transaction_infos@.len() - i,
        {
            if self.transaction_infos[i] != other.transaction_infos[i] {
                return false;
            }
            i = i + 1;
        }
        self.ledger_info_to_transaction_infos_proof == other.ledger_info_to_transaction_infos_proof
    }
}

impl Eq for TransactionInfoListWithProof {
}

impl TransactionInfoListWithProof {
    /// Whether the two proofs have the same contents.
    pub open spec fn same_as(&self, other: TransactionInfoListWithProof) -> bool {
        &&& self.ledger_info_to_transaction_infos_proof.spec_left_siblings()
            == other.ledger_info_to_transaction_infos_proof.spec_left_siblings()
        &&& self.ledger_info_to_transaction_infos_proof.spec_right_siblings()
            == other.ledger_info_to_transaction_infos_proof.spec_right_siblings()
        &&& same_infos(self.transaction_infos@, other.transaction_infos@)
    }

    /// What verifying the proof gives.
    pub open spec fn spec_verify(
        &self,
        ledger_info: LedgerInfo,
        first_transaction_info_version: Option<Version>,
    ) -> Result<(), ProofError> {
        self.ledger_info_to_transaction_infos_proof.spec_verify(
            ledger_info.transaction_accumulator_hash,
            first_transaction_info_version,
            transaction_info_hashes(self.transaction_infos@),
        )
    }

    /// How many of the transactions are already in a ledger of `num_txns_in_ledger` transactions
    /// with the given root hash, or the reason for which the list does not extend that ledger.
    pub open spec fn spec_verify_extends_ledger(
        &self,
        num_txns_in_ledger: LeafCount,
        root_hash: HashValue,
        first_transaction_info_version: Option<Version>,
    ) -> Result<usize, ProofError> {
        let infos = self.transaction_infos@;
        match first_transaction_info_version {
            None => if infos.len() > 0 {
                Err(ProofError::TransactionsWithoutFirstVersion)
            } else {
                Ok(0)
            },
            Some(first_version) => {
                let num_overlap = num_txns_in_ledger - first_version;
                let roots = self.ledger_info_to_transaction_infos_proof.spec_left_siblings();
                if first_version > num_txns_in_ledger {
                    Err(
                        ProofError::TransactionListTooNew {
                            expected_version: num_txns_in_ledger,
                            first_version,
                        },
                    )
                } else if num_overlap > infos.len() {
                    Ok(infos.len() as usize)
                } else if roots.len() != popcount(first_version as nat) {
                    Err(
                        ProofError::FrozenSubtreeCountMismatch {
                            found: roots.len() as usize,
                            num_leaves: first_version,
                        },
                    )
                } else if root_of_frozen::<TransactionAccumulatorHasher>(
                    absorb_leaves::<TransactionAccumulatorHasher>(
                        roots,
                        first_version as nat,
                        transaction_info_hashes(infos.take(num_overlap)),
                    ),
                    num_txns_in_ledger as nat,
                ) != root_hash {
                    Err(ProofError::Fork)
                } else {
                    Ok(num_overlap as usize)
                }
            },
        }
    }

    /// Constructs a proof for a list of transaction infos.
    pub fn new(
        ledger_info_to_transaction_infos_proof: TransactionAccumulatorRangeProof,
        transaction_infos: Vec<TransactionInfo>,
    ) -> (r: Self)
        ensures
            r.ledger_info_to_transaction_infos_proof == ledger_info_to_transaction_infos_proof,
            r.transaction_infos == transaction_infos,
    {
        TransactionInfoListWithProof { ledger_info_to_transaction_infos_proof, transaction_infos }
    }

    /// Constructs a proof for an empty list of transaction infos. Mostly used for tests.
    pub fn new_empty() -> (r: Self)
        ensures
            r.ledger_info_to_transaction_infos_proof.spec_left_siblings() == Seq::<
                HashValue,
            >::empty(),
            r.ledger_info_to_transaction_infos_proof.spec_right_siblings() == Seq::<
                HashValue,
            >::empty(),
            r.transaction_infos@ == Seq::<TransactionInfo>::empty(),
    {
        Self::new(AccumulatorRangeProof::new_empty(), Vec::new())
    }

    /// Verifies the list of transaction infos are correct using the proof. The verifier
    /// needs to have the ledger info and the version of the first transaction in possession.
    pub fn verify(
        &self,
        ledger_info: &LedgerInfo,
        first_transaction_info_version: Option<Version>,
    ) -> (r: Result<(), ProofError>)
        ensures
            r == self.spec_verify(*ledger_info, first_transaction_info_version),
    {
        let hashes: Vec<HashValue> = hash_transaction_infos(
            &self.transaction_infos,
            self.transaction_infos.len(),
        );
        assert(self.transaction_infos@.take(self.transaction_infos@.len() as int)
            =~= self.transaction_infos@);
        self.ledger_info_to_transaction_infos_proof.verify(
            ledger_info.transaction_accumulator_hash(),
            first_transaction_info_version,
            hashes.as_slice(),
        )
    }

    /// Verifies that the list extends the ledger that has `num_txns_in_ledger` transactions and the
    /// given root hash, and returns the number of transactions that are already in that ledger.
    pub fn verify_extends_ledger(
        &self,
        num_txns_in_ledger: LeafCount,
        root_hash: HashValue,
        first_transaction_info_version: Option<Version>,
    ) -> (r: Result<usize, ProofError>)
        ensures
            r == self.spec_verify_extends_ledger(
                num_txns_in_ledger,
                root_hash,
                first_transaction_info_version,
            ),
    {
        let first_version: Version = match first_transaction_info_version {
            Some(first_version) => first_version,
            None => {
                // Assuming input is empty
                if self.transaction_infos.len() > 0 {
                    return Err(ProofError::TransactionsWithoutFirstVersion);
                }
                return Ok(0);
            },
        };
        if first_version > num_txns_in_ledger {
            return Err(
                ProofError::TransactionListTooNew {
                    expected_version: num_txns_in_ledger,
                    first_version,
                },
            );
        }
        let num_overlap_txns: u64 = num_txns_in_ledger - first_version;
        if num_overlap_txns > self.transaction_infos.len() as u64 {
            // Entire chunk is in the past, hard to verify if there's a fork.
            // A fork will need to be detected later.
            return Ok(self.transaction_infos.len());
        }
        let num_overlap: usize = num_overlap_txns as usize;
        // Left side of the proof happens to be the frozen subtree roots of the accumulator
        // right before the list of txns are applied.
        let frozen_subtree_roots_from_proof: Vec<HashValue> = slice_to_vec(
            self.ledger_info_to_transaction_infos_proof.left_siblings().as_slice(),
        );
        let accumulator: InMemoryAccumulator<TransactionAccumulatorHasher> =
            match InMemoryAccumulator::new(frozen_subtree_roots_from_proof, first_version) {
            Ok(accumulator) => accumulator,
            Err(e) => {
                return Err(e);
            },
        };
        let overlap_hashes: Vec<HashValue> = hash_transaction_infos(
            &self.transaction_infos,
            num_overlap,
        );
        let accu_from_proof: InMemoryAccumulator<TransactionAccumulatorHasher> =
            accumulator.append(overlap_hashes.as_slice());
        // The two accumulator root hashes should be identical.
        if accu_from_proof.root_hash() != root_hash {
            return Err(ProofError::Fork);
        }
        Ok(num_overlap)
    }
}

} // verus!
