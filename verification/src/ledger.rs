//! What the ledger's proofs read of ledger infos, transaction infos and state values.

use vstd::bytes::{
    lemma_auto_spec_u64_to_from_le_bytes, spec_u64_from_le_bytes, spec_u64_to_le_bytes,
    u64_to_le_bytes,
};
use vstd::prelude::*;
use vstd::slice::slice_to_vec;
use crate::crypto::hash::{
    CryptoHash, CryptoHasher, HashValue, StateValueHasher, TransactionInfoHasher,
};
use crate::proofs::error::ProofError;

verus! {

/// The version of a transaction: its index in the ledger.
pub type Version = u64;

/// The state of the ledger at some version.
#[derive(Clone, Copy, Debug)]
pub struct LedgerInfo {
    /// The version of the last transaction.
    pub version: Version,
    /// The root hash of the transaction accumulator after that transaction.
    pub transaction_accumulator_hash: HashValue,
    /// The epoch of the next block.
    pub next_block_epoch: u64,
}

impl vstd::std_specs::cmp::PartialEqSpecImpl for LedgerInfo {
    open spec fn obeys_eq_spec() -> bool {
        true
    }

    open spec fn eq_spec(&self, other: &LedgerInfo) -> bool {
        *self == *other
    }
}

impl PartialEq for LedgerInfo {
    fn eq(&self, other: &LedgerInfo) -> (r: bool) {
        self.version == other.version && self.transaction_accumulator_hash
            == other.transaction_accumulator_hash && self.next_block_epoch == other.next_block_epoch
    }
}

impl Eq for LedgerInfo {
}

impl LedgerInfo {
    /// Constructs a ledger info.
    pub fn new(
        version: Version,
        transaction_accumulator_hash: HashValue,
        next_block_epoch: u64,
    ) -> (r: Self)
        ensures
            r == (LedgerInfo { version, transaction_accumulator_hash, next_block_epoch }),
    {
        LedgerInfo { version, transaction_accumulator_hash, next_block_epoch }
    }

    /// Returns the version of the last transaction.
    pub fn version(&self) -> (r: Version)
        ensures
            r == self.version,
    {
        self.version
    }

    /// Returns the root hash of the transaction accumulator.
    pub fn transaction_accumulator_hash(&self) -> (r: HashValue)
        ensures
            r == self.transaction_accumulator_hash,
    {
        self.transaction_accumulator_hash
    }

    /// Returns the epoch of the next block.
    pub fn next_block_epoch(&self) -> (r: u64)
        ensures
            r == self.next_block_epoch,
    {
        self.next_block_epoch
    }
}

/// A ledger info and the signatures that certify it.
#[derive(Debug)]
pub struct LedgerInfoWithSignatures {
    /// The ledger info.
    pub ledger_info: LedgerInfo,
    /// The encoded signatures.
    pub signatures: Vec<u8>,
}

impl LedgerInfoWithSignatures {
    /// Constructs a ledger info with signatures.
    pub fn new(ledger_info: LedgerInfo, signatures: Vec<u8>) -> (r: Self)
        ensures
            r.ledger_info == ledger_info,
            r.signatures == signatures,
    {
        LedgerInfoWithSignatures { ledger_info, signatures }
    }

    /// Returns the ledger info.
    pub fn ledger_info(&self) -> (r: &LedgerInfo)
        ensures
            *r == self.ledger_info,
    {
        &self.ledger_info
    }
}

/// Compares two hashes that may be missing.
fn same_optional_hash(a: Option<HashValue>, b: Option<HashValue>) -> (r: bool)
    ensures
        r == (a == b),
{
    match (a, b) {
        (Some(a), Some(b)) => a == b,
        (None, None) => true,
        _ => false,
    }
}

/// Compares two byte strings.
fn same_bytes(a: &Vec<u8>, b: &Vec<u8>) -> (r: bool)
    ensures
        r == (a@ == b@),
{
    if a.len() != b.len() {
        return false;
    }
    let mut i: usize = 0;
    while i < a.len()
        invariant
            i <= a@.len(),
            a@.len() == b@.len(),
            forall|j: int| 0 <= j < i ==> a@[j] == b@[j],
        decreases a@.len() - i,
    {
        if a[i] != b[i] {
            return false;
        }
        i = i + 1;
    }
    assert(a@ =~= b@);
    true
}

/// The object whose hash is a leaf of the transaction accumulator.
#[derive(Debug)]
pub struct TransactionInfo {
    /// The gas that the transaction used.
    pub gas_used: u64,
    /// The encoded status of the transaction.
    pub status: Vec<u8>,
    /// The root hash of the event accumulator of the transaction.
    pub event_root_hash: HashValue,
    /// The root hash of the state tree after the transaction, where it is a state checkpoint.
    pub state_checkpoint_hash: Option<HashValue>,
    /// What else is known of the transaction, encoded.
    pub other_fields: Vec<u8>,
}

impl Clone for TransactionInfo {
    fn clone(&self) -> (r: Self)
        ensures
            r.same_as(*self),
    {
        TransactionInfo {
            gas_used: self.gas_used,
            status: slice_to_vec(self.status.as_slice()),
            event_root_hash: self.event_root_hash,
            state_checkpoint_hash: self.state_checkpoint_hash,
            other_fields: slice_to_vec(self.other_fields.as_slice()),
        }
    }
}

impl vstd::std_specs::cmp::PartialEqSpecImpl for TransactionInfo {
    open spec fn obeys_eq_spec() -> bool {
        true
    }

    open spec fn eq_spec(&self, other: &TransactionInfo) -> bool {
        self.same_as(*other)
    }
}

impl PartialEq for TransactionInfo {
    fn eq(&self, other: &TransactionInfo) -> (r: bool) {
        self.gas_used == other.gas_used && self.event_root_hash == other.event_root_hash
            && same_optional_hash(self.state_checkpoint_hash, other.state_checkpoint_hash)
            && same_bytes(&self.status, &other.status) && same_bytes(
            &self.other_fields,
            &other.other_fields,
        )
    }
}

impl Eq for TransactionInfo {
}

impl CryptoHash for TransactionInfo {
    open spec fn spec_hash(&self) -> HashValue {
        TransactionInfoHasher::spec_digest(self.spec_encoded())
    }

    fn hash(&self) -> (h: HashValue) {
        TransactionInfoHasher::digest(&self.encode())
    }
}

/// The encoding of a hash that may be missing: a zero, or a one and the hash.
pub open spec fn encoded_optional_hash(hash: Option<HashValue>) -> Seq<u8> {
    match hash {
        Some(hash) => seq![1u8] + hash@,
        None => seq![0u8],
    }
}

impl TransactionInfo {
    /// Whether the two transaction infos have the same contents.
    pub open spec fn same_as(&self, other: TransactionInfo) -> bool {
        &&& self.gas_used == other.gas_used
        &&& self.status@ == other.status@
        &&& self.event_root_hash == other.event_root_hash
        &&& self.state_checkpoint_hash == other.state_checkpoint_hash
        &&& self.other_fields@ == other.other_fields@
    }

    /// The bytes that are hashed: the gas used, the event root hash, the state checkpoint hash, the
    /// length of the status, the status, and the other fields.
    pub open spec fn spec_encoded(&self) -> Seq<u8> {
        spec_u64_to_le_bytes(self.gas_used) + self.event_root_hash@ + encoded_optional_hash(
            self.state_checkpoint_hash,
        ) + spec_u64_to_le_bytes(self.status@.len() as u64) + self.status@ + self.other_fields@
    }

    /// Constructs a transaction info.
    pub fn new(
        gas_used: u64,
        status: Vec<u8>,
        event_root_hash: HashValue,
        state_checkpoint_hash: Option<HashValue>,
        other_fields: Vec<u8>,
    ) -> (r: Self)
        ensures
            r == (TransactionInfo {
                gas_used,
                status,
                event_root_hash,
                state_checkpoint_hash,
                other_fields,
            }),
    {
        TransactionInfo { gas_used, status, event_root_hash, state_checkpoint_hash, other_fields }
    }

    /// Makes the bytes that are hashed.
    fn encode(&self) -> (r: Vec<u8>)
        ensures
            r@ == self.spec_encoded(),
    {
        let mut bytes: Vec<u8> = u64_to_le_bytes(self.gas_used);
        bytes.extend_from_slice(self.event_root_hash.hash.as_slice());
        assert(bytes@ =~= spec_u64_to_le_bytes(self.gas_used) + self.event_root_hash@);
        let ghost before = bytes@;
        match self.state_checkpoint_hash {
            Some(hash) => {
                bytes.push(1);
                bytes.extend_from_slice(hash.hash.as_slice());
            },
            None => {
                bytes.push(0);
            },
        }
        assert(bytes@ =~= before + encoded_optional_hash(self.state_checkpoint_hash));
        let ghost before = bytes@;
        let len: Vec<u8> = u64_to_le_bytes(self.status.len() as u64);
        bytes.extend_from_slice(len.as_slice());
        assert(bytes@ =~= before + spec_u64_to_le_bytes(self.status@.len() as u64));
        let ghost before = bytes@;
        bytes.extend_from_slice(self.status.as_slice());
        assert(bytes@ =~= before + self.status@);
        let ghost before = bytes@;
        bytes.extend_from_slice(self.other_fields.as_slice());
        assert(bytes@ =~= before + self.other_fields@);
        bytes
    }

    /// Returns the gas that the transaction used.
    pub fn gas_used(&self) -> (r: u64)
        ensures
            r == self.gas_used,
    {
        self.gas_used
    }

    /// Returns the encoded status of the transaction.
    pub fn status(&self) -> (r: &Vec<u8>)
        ensures
            *r == self.status,
    {
        &self.status
    }

    /// Returns the root hash of the event accumulator of the transaction.
    pub fn event_root_hash(&self) -> (r: HashValue)
        ensures
            r == self.event_root_hash,
    {
        self.event_root_hash
    }

    /// Returns the root hash of the state tree, or an error if the transaction is not a state
    /// checkpoint.
    pub fn ensure_state_checkpoint_hash(&self) -> (r: Result<HashValue, ProofError>)
        ensures
            r == self.spec_state_checkpoint_hash(),
    {
        match self.state_checkpoint_hash {
            Some(hash) => Ok(hash),
            None => Err(ProofError::MissingStateCheckpointHash),
        }
    }

    /// The root hash of the state tree, or an error if the transaction is not a state checkpoint.
    pub open spec fn spec_state_checkpoint_hash(&self) -> Result<HashValue, ProofError> {
        match self.state_checkpoint_hash {
            Some(hash) => Ok(hash),
            None => Err(ProofError::MissingStateCheckpointHash),
        }
    }
}

/// Equal byte strings that start with parts of the same length have equal parts and equal rests.
proof fn lemma_split(a: Seq<u8>, rest_a: Seq<u8>, b: Seq<u8>, rest_b: Seq<u8>)
    requires
        a.len() == b.len(),
        a + rest_a == b + rest_b,
    ensures
        a == b,
        rest_a == rest_b,
{
    assert(a =~= (a + rest_a).take(a.len() as int));
    assert(b =~= (b + rest_b).take(b.len() as int));
    assert(rest_a =~= (a + rest_a).skip(a.len() as int));
    assert(rest_b =~= (b + rest_b).skip(b.len() as int));
}

/// Hash values with the same bytes are the same.
proof fn lemma_same_hash(a: HashValue, b: HashValue)
    requires
        a@ == b@,
    ensures
        a == b,
{
    assert(a.hash =~= b.hash);
}

/// The hash of a transaction info covers all of it: transaction infos that are encoded alike have
/// the same contents.
pub proof fn info_encoding_is_injective(a: TransactionInfo, b: TransactionInfo)
    requires
        a.spec_encoded() == b.spec_encoded(),
    ensures
        a.same_as(b),
        a.gas_used == b.gas_used,
        a.status@ == b.status@,
        a.event_root_hash == b.event_root_hash,
        a.state_checkpoint_hash == b.state_checkpoint_hash,
        a.other_fields@ == b.other_fields@,
{
    lemma_auto_spec_u64_to_from_le_bytes();
    let tail_a = a.status@ + a.other_fields@;
    let tail_b = b.status@ + b.other_fields@;
    let sized_a = spec_u64_to_le_bytes(a.status@.len() as u64) + tail_a;
    let sized_b = spec_u64_to_le_bytes(b.status@.len() as u64) + tail_b;
    let state_a = encoded_optional_hash(a.state_checkpoint_hash) + sized_a;
    let state_b = encoded_optional_hash(b.state_checkpoint_hash) + sized_b;
    let event_a = a.event_root_hash@ + state_a;
    let event_b = b.event_root_hash@ + state_b;
    let gas_a = spec_u64_to_le_bytes(a.gas_used);
    let gas_b = spec_u64_to_le_bytes(b.gas_used);
    assert(a.spec_encoded() =~= gas_a + event_a);
    assert(b.spec_encoded() =~= gas_b + event_b);
    lemma_split(gas_a, event_a, gas_b, event_b);
    lemma_split(a.event_root_hash@, state_a, b.event_root_hash@, state_b);
    lemma_same_hash(a.event_root_hash, b.event_root_hash);
    assert(state_a[0] == encoded_optional_hash(a.state_checkpoint_hash)[0]);
    assert(state_b[0] == encoded_optional_hash(b.state_checkpoint_hash)[0]);
    let flag_a = encoded_optional_hash(a.state_checkpoint_hash);
    let flag_b = encoded_optional_hash(b.state_checkpoint_hash);
    lemma_split(flag_a, sized_a, flag_b, sized_b);
    if let (Some(hash_a), Some(hash_b)) = (a.state_checkpoint_hash, b.state_checkpoint_hash) {
        assert(hash_a@ =~= flag_a.skip(1));
        assert(hash_b@ =~= flag_b.skip(1));
        lemma_same_hash(hash_a, hash_b);
    }
    lemma_split(
        spec_u64_to_le_bytes(a.status@.len() as u64),
        tail_a,
        spec_u64_to_le_bytes(b.status@.len() as u64),
        tail_b,
    );
    assert(a.status.len() == a.status@.len() && b.status.len() == b.status@.len());
    lemma_split(a.status@, a.other_fields@, b.status@, b.other_fields@);
}

/// Every field of a transaction info can be read back from its encoding: the gas used, the event
/// root hash, whether there is a state checkpoint hash and which one, the length of the status and
/// the status, and the other fields up to the end.
pub proof fn encoded_fields_are_read_back(info: TransactionInfo)
    ensures
        ({
            let bytes = info.spec_encoded();
            let len = info.status@.len() as int;
            let rest: int = if info.state_checkpoint_hash is Some {
                73
            } else {
                41
            };
            &&& spec_u64_from_le_bytes(bytes.subrange(0, 8)) == info.gas_used
            &&& bytes.subrange(8, 40) == info.event_root_hash@
            &&& bytes[40] == 1 <==> info.state_checkpoint_hash is Some
            &&& bytes[40] == 0 <==> info.state_checkpoint_hash is None
            &&& info.state_checkpoint_hash is Some ==> bytes.subrange(41, 73)
                == info.state_checkpoint_hash.unwrap()@
            &&& spec_u64_from_le_bytes(bytes.subrange(rest, rest + 8)) == len
            &&& bytes.subrange(rest + 8, rest + 8 + len) == info.status@
            &&& bytes.skip(rest + 8 + len) == info.other_fields@
        }),
{
    lemma_auto_spec_u64_to_from_le_bytes();
    let bytes = info.spec_encoded();
    let len = info.status@.len() as int;
    assert(info.status.len() == len);
    let rest: int = if info.state_checkpoint_hash is Some {
        73
    } else {
        41
    };
    let state = encoded_optional_hash(info.state_checkpoint_hash);
    assert(state.len() == rest - 40);
    assert(bytes.subrange(0, 8) =~= spec_u64_to_le_bytes(info.gas_used));
    assert(bytes.subrange(8, 40) =~= info.event_root_hash@);
    assert(bytes.subrange(40, rest) =~= state);
    assert(bytes[40] == state[0]);
    if let Some(hash) = info.state_checkpoint_hash {
        assert(bytes.subrange(41, 73) =~= state.skip(1));
        assert(state.skip(1) =~= hash@);
    }
    assert(bytes.subrange(rest, rest + 8) =~= spec_u64_to_le_bytes(len as u64));
    assert(bytes.subrange(rest + 8, rest + 8 + len) =~= info.status@);
    assert(bytes.skip(rest + 8 + len) =~= info.other_fields@);
}

/// Transaction infos with the same contents have the same hash.
pub proof fn same_infos_hash_alike(a: TransactionInfo, b: TransactionInfo)
    requires
        a.same_as(b),
    ensures
        a.spec_encoded() == b.spec_encoded(),
        a.spec_hash() == b.spec_hash(),
{
}

/// A value of the state store.
#[derive(Debug)]
pub struct StateValue {
    /// The bytes of the value.
    pub bytes: Vec<u8>,
}

impl View for StateValue {
    type V = Seq<u8>;

    /// The bytes of the value.
    open spec fn view(&self) -> Seq<u8> {
        self.bytes@
    }
}

impl Clone for StateValue {
    fn clone(&self) -> (r: Self)
        ensures
            r@ == self@,
    {
        StateValue { bytes: slice_to_vec(self.bytes.as_slice()) }
    }
}

impl vstd::std_specs::cmp::PartialEqSpecImpl for StateValue {
    open spec fn obeys_eq_spec() -> bool {
        true
    }

    open spec fn eq_spec(&self, other: &StateValue) -> bool {
        self@ == other@
    }
}

impl PartialEq for StateValue {
    fn eq(&self, other: &StateValue) -> (r: bool) {
        same_bytes(&self.bytes, &other.bytes)
    }
}

impl Eq for StateValue {
}

impl CryptoHash for StateValue {
    open spec fn spec_hash(&self) -> HashValue {
        StateValueHasher::spec_digest(self@)
    }

    fn hash(&self) -> (h: HashValue) {
        StateValueHasher::digest(&self.bytes)
    }
}

impl StateValue {
    /// Constructs a state value.
    pub fn new(bytes: Vec<u8>) -> (r: Self)
        ensures
            r.bytes == bytes,
    {
        StateValue { bytes }
    }
}

} // verus!
