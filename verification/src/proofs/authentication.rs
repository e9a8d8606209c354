//! What the proofs about transactions, events and state values show about a ledger.
//!
//! Each kind of proof goes from the root hash in a ledger info to a transaction info, and some go on
//! from there to an event or to a state value. Proofs made from the ledger verify, and proofs that
//! verify show what is in the ledger, unless they make a collision known.

use vstd::prelude::*;
use vstd::utf8::encode_utf8;
use crate::crypto::digests::digests_are_salted_with_names;
use crate::crypto::hash::{
    sha3_256, sha3_collides, CryptoHash, EventAccumulatorHasher, HashValue,
    TransactionAccumulatorHasher,
};
use crate::ledger::{
    info_encoding_is_injective, same_infos_hash_alike, LedgerInfo, StateValue, TransactionInfo,
    Version,
};
use crate::proofs::accumulator::MAX_ACCUMULATOR_LEAVES;
use crate::proofs::membership::{
    leaf_proof_verifies, leaf_siblings, path_collides, range_collides, range_height,
    range_proof_verifies, right_siblings_of, verified_leaf_is_in_accumulator,
    verified_range_is_in_accumulator,
};
use crate::proofs::merkle::{accumulator_depth, accumulator_root, frozen_roots};
use crate::proofs::sparse_tree::{
    sparse_path_collides, sparse_proof_verifies, verified_exclusion_is_not_in_tree,
    verified_inclusion_is_in_tree, SparseTree,
};
use crate::proofs::transaction::{
    same_infos, transaction_info_hashes, EventProof, StateStoreValueProof,
    TransactionInfoListWithProof, TransactionInfoWithProof,
};

verus! {

/// Whether the ledger info is the one of the ledger with the given transaction infos.
pub open spec fn is_ledger(infos: Seq<TransactionInfo>, ledger_info: LedgerInfo) -> bool {
    &&& infos.len() == ledger_info.version + 1
    &&& infos.len() <= MAX_ACCUMULATOR_LEAVES
    &&& ledger_info.transaction_accumulator_hash == accumulator_root::<
        TransactionAccumulatorHasher,
    >(transaction_info_hashes(infos))
}

/// The bytes that are hashed for a transaction info.
pub open spec fn info_input(info: TransactionInfo) -> Seq<u8> {
    sha3_256(encode_utf8("APTOS::TransactionInfo"@))@ + info.spec_encoded()
}

/// The bytes that are hashed for a state value.
pub open spec fn value_input(value: StateValue) -> Seq<u8> {
    sha3_256(encode_utf8("APTOS::StateValue"@))@ + value.bytes@
}

/// Whether two different transaction infos have the same hash: the bytes that are hashed for them
/// are different and have the same SHA3-256 digest.
pub open spec fn infos_collide(a: TransactionInfo, b: TransactionInfo) -> bool {
    sha3_collides(info_input(a), info_input(b))
}

/// Whether two different state values have the same hash: the bytes that are hashed for them are
/// different and have the same SHA3-256 digest.
pub open spec fn values_collide(a: StateValue, b: StateValue) -> bool {
    sha3_collides(value_input(a), value_input(b))
}

/// The hash of a transaction info is the digest of all of its encoding, behind the digest of its
/// domain.
pub proof fn info_hash_is_digest_of_encoding(info: TransactionInfo)
    ensures
        info.spec_hash().hash == sha3_256(info_input(info)),
{
    digests_are_salted_with_names(info.spec_encoded());
}

/// The hash of a state value is the digest of all of its bytes, behind the digest of its domain.
pub proof fn value_hash_is_digest_of_bytes(value: StateValue)
    ensures
        value.spec_hash().hash == sha3_256(value_input(value)),
{
    digests_are_salted_with_names(value.bytes@);
}

/// The hash of a transaction info covers every field: transaction infos with the same hash agree in
/// all of them, or two different byte strings have the same SHA3-256 digest.
pub proof fn same_info_hash_same_fields(a: TransactionInfo, b: TransactionInfo)
    requires
        a.spec_hash() == b.spec_hash(),
    ensures
        ({
            &&& a.gas_used == b.gas_used
            &&& a.status@ == b.status@
            &&& a.event_root_hash == b.event_root_hash
            &&& a.state_checkpoint_hash == b.state_checkpoint_hash
            &&& a.other_fields@ == b.other_fields@
        }) || infos_collide(a, b),
{
    info_hash_is_digest_of_encoding(a);
    info_hash_is_digest_of_encoding(b);
    let seed = sha3_256(encode_utf8("APTOS::TransactionInfo"@))@;
    if info_input(a) == info_input(b) {
        assert(a.spec_encoded() =~= info_input(a).skip(seed.len() as int));
        assert(b.spec_encoded() =~= info_input(b).skip(seed.len() as int));
        info_encoding_is_injective(a, b);
    }
}

/// Transaction infos with the same hash have the same contents, or they collide.
proof fn lemma_same_hash_same_info(a: TransactionInfo, b: TransactionInfo)
    requires
        a.spec_hash() == b.spec_hash(),
    ensures
        a.same_as(b) || infos_collide(a, b),
{
    same_info_hash_same_fields(a, b);
}

/// The hash of a state value covers all of its bytes: state values with the same hash have the same
/// bytes, or two different byte strings have the same SHA3-256 digest.
pub proof fn same_value_hash_same_bytes(a: StateValue, b: StateValue)
    requires
        a.spec_hash() == b.spec_hash(),
    ensures
        a.bytes@ == b.bytes@ || values_collide(a, b),
{
    value_hash_is_digest_of_bytes(a);
    value_hash_is_digest_of_bytes(b);
    let seed = sha3_256(encode_utf8("APTOS::StateValue"@))@;
    if value_input(a) == value_input(b) {
        assert(a.bytes@ =~= value_input(a).skip(seed.len() as int));
        assert(b.bytes@ =~= value_input(b).skip(seed.len() as int));
    }
}

/// Whether the proof of a transaction info shows a collision, in the accumulator or between
/// transaction infos.
pub open spec fn info_proof_collides(
    infos: Seq<TransactionInfo>,
    version: Version,
    p: TransactionInfoWithProof,
) -> bool {
    ||| infos_collide(p.transaction_info, infos[version as int])
    ||| path_collides::<TransactionAccumulatorHasher>(
        transaction_info_hashes(infos),
        p.transaction_info.spec_hash(),
        version as nat,
        p.ledger_info_to_transaction_info_proof@,
    )
}

/// The proof that is made from the ledger for the transaction info at some version verifies.
pub proof fn transaction_info_proof_verifies(
    infos: Seq<TransactionInfo>,
    ledger_info: LedgerInfo,
    version: Version,
    p: TransactionInfoWithProof,
)
    requires
        is_ledger(infos, ledger_info),
        version <= ledger_info.version,
        p.transaction_info.same_as(infos[version as int]),
        p.ledger_info_to_transaction_info_proof@ == leaf_siblings::<TransactionAccumulatorHasher>(
            transaction_info_hashes(infos),
            version as nat,
        ),
    ensures
        p.spec_verify(ledger_info, version) is Ok,
{
    same_infos_hash_alike(p.transaction_info, infos[version as int]);
    leaf_proof_verifies(
        transaction_info_hashes(infos),
        version,
        p.ledger_info_to_transaction_info_proof,
    );
}

/// A transaction info whose proof verifies is in the ledger at that version, or the proof shows a
/// collision.
pub proof fn verified_transaction_info_is_in_ledger(
    infos: Seq<TransactionInfo>,
    ledger_info: LedgerInfo,
    version: Version,
    p: TransactionInfoWithProof,
)
    requires
        is_ledger(infos, ledger_info),
        p.ledger_info_to_transaction_info_proof@.len() == accumulator_depth(infos.len()),
        p.spec_verify(ledger_info, version) is Ok,
    ensures
        version <= ledger_info.version,
        p.transaction_info.same_as(infos[version as int]) || info_proof_collides(
            infos,
            version,
            p,
        ),
{
    verified_leaf_is_in_accumulator(
        transaction_info_hashes(infos),
        p.transaction_info.spec_hash(),
        version,
        p.ledger_info_to_transaction_info_proof,
    );
    if p.transaction_info.spec_hash() == infos[version as int].spec_hash() {
        lemma_same_hash_same_info(p.transaction_info, infos[version as int]);
    }
}

/// The proof that is made from the ledger and from the state tree of a checkpoint verifies what the
/// tree holds under a key: the value, or that there is none.
pub proof fn state_value_proof_verifies(
    ledger_info: LedgerInfo,
    version: Version,
    tree: SparseTree,
    key: HashValue,
    p: StateStoreValueProof,
)
    requires
        p.spec_transaction_info_with_proof().spec_verify(ledger_info, version) is Ok,
        p.spec_transaction_info_with_proof().transaction_info.state_checkpoint_hash == Some(
            tree.root_hash(),
        ),
        tree.well_placed(Seq::empty()),
        p.spec_value_proof().spec_leaf() == tree.leaf_for(key, 0),
        p.spec_value_proof().spec_siblings() == tree.siblings_for(key, 0),
    ensures
        p.spec_verify(ledger_info, version, key, tree.value_of(key)) is Ok,
{
    sparse_proof_verifies(tree, key, p.spec_value_proof());
}

/// A state value whose proof verifies is what the state tree at that version holds under the key,
/// or the proof shows a collision.
pub proof fn verified_state_value_is_in_ledger(
    infos: Seq<TransactionInfo>,
    ledger_info: LedgerInfo,
    version: Version,
    tree: SparseTree,
    key: HashValue,
    value_hash: Option<HashValue>,
    p: StateStoreValueProof,
)
    requires
        is_ledger(infos, ledger_info),
        version <= ledger_info.version,
        infos[version as int].state_checkpoint_hash == Some(tree.root_hash()),
        tree.well_placed(Seq::empty()),
        p.spec_transaction_info_with_proof().ledger_info_to_transaction_info_proof@.len()
            == accumulator_depth(infos.len()),
        p.spec_verify(ledger_info, version, key, value_hash) is Ok,
    ensures
        tree.value_of(key) == value_hash || info_proof_collides(
            infos,
            version,
            p.spec_transaction_info_with_proof(),
        ) || sparse_path_collides(
            tree,
            key,
            p.spec_value_proof().spec_leaf(),
            p.spec_value_proof().spec_siblings(),
            0,
        ),
{
    let info = p.spec_transaction_info_with_proof();
    verified_transaction_info_is_in_ledger(infos, ledger_info, version, info);
    if info.transaction_info.same_as(infos[version as int]) {
        match value_hash {
            Some(hash) => verified_inclusion_is_in_tree(tree, key, hash, p.spec_value_proof()),
            None => verified_exclusion_is_not_in_tree(tree, key, p.spec_value_proof()),
        }
    }
}

/// A state value whose proof verifies has the bytes that are stored under the key at that version,
/// and where a key is proved not to exist nothing is stored under it, or a collision is shown.
pub proof fn verified_state_value_has_stored_bytes(
    infos: Seq<TransactionInfo>,
    ledger_info: LedgerInfo,
    version: Version,
    tree: SparseTree,
    key: HashValue,
    stored: Option<StateValue>,
    value: Option<StateValue>,
    p: StateStoreValueProof,
)
    requires
        is_ledger(infos, ledger_info),
        version <= ledger_info.version,
        infos[version as int].state_checkpoint_hash == Some(tree.root_hash()),
        tree.well_placed(Seq::empty()),
        tree.value_of(key) == hash_of_value(stored),
        p.spec_transaction_info_with_proof().ledger_info_to_transaction_info_proof@.len()
            == accumulator_depth(infos.len()),
        p.spec_verify(ledger_info, version, key, hash_of_value(value)) is Ok,
    ensures
        (match (stored, value) {
            (Some(stored), Some(value)) => stored.bytes@ == value.bytes@ || values_collide(
                stored,
                value,
            ),
            (None, None) => true,
            _ => false,
        }) || info_proof_collides(infos, version, p.spec_transaction_info_with_proof())
            || sparse_path_collides(
            tree,
            key,
            p.spec_value_proof().spec_leaf(),
            p.spec_value_proof().spec_siblings(),
            0,
        ),
{
    verified_state_value_is_in_ledger(
        infos,
        ledger_info,
        version,
        tree,
        key,
        hash_of_value(value),
        p,
    );
    if let (Some(stored), Some(value)) = (stored, value) {
        if stored.spec_hash() == value.spec_hash() {
            same_value_hash_same_bytes(stored, value);
        }
    }
}

/// The hash of a value that may be missing.
pub open spec fn hash_of_value(value: Option<StateValue>) -> Option<HashValue> {
    match value {
        Some(value) => Some(value.spec_hash()),
        None => None,
    }
}

/// The proof that is made from the ledger and from the event accumulator of a transaction verifies
/// for each of its events.
pub proof fn event_proof_verifies(
    ledger_info: LedgerInfo,
    version: Version,
    events: Seq<HashValue>,
    index: u64,
    p: EventProof,
)
    requires
        p.spec_transaction_info_with_proof().spec_verify(ledger_info, version) is Ok,
        p.spec_transaction_info_with_proof().transaction_info.event_root_hash
            == accumulator_root::<EventAccumulatorHasher>(events),
        events.len() <= MAX_ACCUMULATOR_LEAVES,
        index < events.len(),
        p.spec_event_proof()@ == leaf_siblings::<EventAccumulatorHasher>(events, index as nat),
    ensures
        p.spec_verify(ledger_info, events[index as int], version, index) is Ok,
{
    leaf_proof_verifies(events, index, p.spec_event_proof());
}

/// An event whose proof verifies is the one at that index of the transaction at that version, or
/// the proof shows a collision.
pub proof fn verified_event_is_in_ledger(
    infos: Seq<TransactionInfo>,
    ledger_info: LedgerInfo,
    version: Version,
    events: Seq<HashValue>,
    event_hash: HashValue,
    index: u64,
    p: EventProof,
)
    requires
        is_ledger(infos, ledger_info),
        version <= ledger_info.version,
        infos[version as int].event_root_hash == accumulator_root::<EventAccumulatorHasher>(
            events,
        ),
        index < events.len(),
        p.spec_transaction_info_with_proof().ledger_info_to_transaction_info_proof@.len()
            == accumulator_depth(infos.len()),
        p.spec_event_proof()@.len() == accumulator_depth(events.len()),
        p.spec_verify(ledger_info, event_hash, version, index) is Ok,
    ensures
        event_hash == events[index as int] || info_proof_collides(
            infos,
            version,
            p.spec_transaction_info_with_proof(),
        ) || path_collides::<EventAccumulatorHasher>(
            events,
            event_hash,
            index as nat,
            p.spec_event_proof()@,
        ),
{
    let info = p.spec_transaction_info_with_proof();
    verified_transaction_info_is_in_ledger(infos, ledger_info, version, info);
    if info.transaction_info.same_as(infos[version as int]) {
        verified_leaf_is_in_accumulator(events, event_hash, index, p.spec_event_proof());
    }
}

/// The proof that is made from the ledger for a list of consecutive transaction infos verifies.
pub proof fn transaction_list_proof_verifies(
    infos: Seq<TransactionInfo>,
    ledger_info: LedgerInfo,
    first: Version,
    p: TransactionInfoListWithProof,
)
    requires
        is_ledger(infos, ledger_info),
        p.transaction_infos@.len() > 0,
        first + p.transaction_infos@.len() <= infos.len(),
        same_infos(
            p.transaction_infos@,
            infos.subrange(first as int, first + p.transaction_infos@.len()),
        ),
        p.ledger_info_to_transaction_infos_proof.spec_left_siblings() == frozen_roots::<
            TransactionAccumulatorHasher,
        >(transaction_info_hashes(infos).take(first as int)),
        p.ledger_info_to_transaction_infos_proof.spec_right_siblings() == right_siblings_of::<
            TransactionAccumulatorHasher,
        >(transaction_info_hashes(infos), (first + p.transaction_infos@.len()) as nat),
    ensures
        p.spec_verify(ledger_info, Some(first)) is Ok,
{
    let hashes = transaction_info_hashes(infos);
    let end = (first + p.transaction_infos@.len()) as nat;
    range_proof_verifies(hashes, first, end, p.ledger_info_to_transaction_infos_proof);
    assert forall|i: int| 0 <= i < p.transaction_infos@.len() implies (
    #[trigger] p.transaction_infos@[i]).spec_hash() == infos[first + i].spec_hash() by {
        assert(p.transaction_infos@[i].same_as(infos.subrange(first as int, end as int)[i]));
        same_infos_hash_alike(p.transaction_infos@[i], infos[first + i]);
    }
    assert(transaction_info_hashes(p.transaction_infos@) =~= hashes.subrange(
        first as int,
        end as int,
    ));
}

/// The transaction infos of a list whose proof verifies are those of the ledger from the first
/// version on, or the proof shows a collision.
pub proof fn verified_transaction_list_is_in_ledger(
    infos: Seq<TransactionInfo>,
    ledger_info: LedgerInfo,
    first: Version,
    p: TransactionInfoListWithProof,
)
    requires
        is_ledger(infos, ledger_info),
        first + p.transaction_infos@.len() <= infos.len(),
        range_height(
            p.transaction_infos@.len(),
            first as nat,
            p.ledger_info_to_transaction_infos_proof.spec_left_siblings().len(),
            p.ledger_info_to_transaction_infos_proof.spec_right_siblings().len(),
        ) == accumulator_depth(infos.len()),
        p.spec_verify(ledger_info, Some(first)) is Ok,
    ensures
        same_infos(
            p.transaction_infos@,
            infos.subrange(first as int, first + p.transaction_infos@.len()),
        ) || (exists|i: int|
            0 <= i < p.transaction_infos@.len() && infos_collide(
                #[trigger] p.transaction_infos@[i],
                infos[first + i],
            )) || range_collides::<TransactionAccumulatorHasher>(
            transaction_info_hashes(infos),
            transaction_info_hashes(p.transaction_infos@),
            first as nat,
            p.ledger_info_to_transaction_infos_proof.spec_left_siblings(),
            p.ledger_info_to_transaction_infos_proof.spec_right_siblings(),
        ),
{
    let hashes = transaction_info_hashes(infos);
    let list = p.transaction_infos@;
    let list_hashes = transaction_info_hashes(list);
    let part = infos.subrange(first as int, first + list.len());
    verified_range_is_in_accumulator(
        hashes,
        first,
        list_hashes,
        p.ledger_info_to_transaction_infos_proof,
    );
    if list_hashes == hashes.subrange(first as int, first + list.len()) && !same_infos(
        list,
        part,
    ) {
        let i = choose|i: int| 0 <= i < list.len() && !(#[trigger] list[i]).same_as(part[i]);
        assert(list_hashes[i] == hashes.subrange(first as int, first + list.len())[i]);
        lemma_same_hash_same_info(list[i], infos[first + i]);
    }
}

} // verus!
