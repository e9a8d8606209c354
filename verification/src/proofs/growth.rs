//! What accumulators and their summaries become, stated of the results of the functions that make
//! and extend them.

use vstd::prelude::*;
use crate::crypto::hash::{CryptoHash, CryptoHasher, HashValue, TransactionAccumulatorHasher};
use crate::ledger::{LedgerInfo, Version};
use crate::proofs::accumulator::{InMemoryAccumulator, LeafCount};
use crate::proofs::consistency::{
    append_extends_leaves, append_subtrees_extends_leaves, root_hash_is_root_of_leaves,
};
use crate::proofs::error::ProofError;
use crate::proofs::merkle::{
    absorb, absorb_leaves, absorb_subtrees, accumulator_root, frozen_roots, lemma_absorb_leaves,
    lemma_absorb_len, lemma_absorb_subtrees, lemma_frozen_roots_len, lemma_low_bit,
    lemma_popcount_of_multiple, lemma_root_of_frozen, low_bit, new_subtrees, popcount,
};
use crate::proofs::summary::{
    AccumulatorConsistencyProof, AccumulatorExtensionProof, TransactionAccumulatorSummary,
};
use crate::proofs::transaction::{transaction_info_hashes, TransactionInfoListWithProof};

verus! {

// ---- Accumulators ----

/// The number of frozen subtrees is the number of ones among the binary digits of the number of
/// leaves.
pub proof fn frozen_subtrees_are_counted_in_binary(n: nat)
    ensures
        popcount(0) == 0,
        popcount(2 * n) == popcount(n),
        popcount(2 * n + 1) == popcount(n) + 1,
{
    assert((2 * n) / 2 == n && (2 * n) % 2 == 0);
    assert((2 * n + 1) / 2 == n && (2 * n + 1) % 2 == 1);
}

/// An accumulator is made if and only if there are as many frozen subtrees as the number of leaves
/// needs, and it is made of these. With the frozen subtrees of some leaves, it is the accumulator of
/// these leaves.
pub proof fn accumulator_is_made_of_frozen_subtrees<H: CryptoHasher>(
    roots: Vec<HashValue>,
    num_leaves: LeafCount,
    r: Result<InMemoryAccumulator<H>, ProofError>,
    leaves: Seq<HashValue>,
)
    requires
        call_ensures(InMemoryAccumulator::<H>::new, (roots, num_leaves), r),
    ensures
        r is Ok <==> roots@.len() == popcount(num_leaves as nat),
        r matches Err(e) ==> e == (ProofError::FrozenSubtreeCountMismatch {
            found: roots@.len() as usize,
            num_leaves,
        }),
        r matches Ok(accumulator) ==> accumulator.spec_num_leaves() == num_leaves
            && accumulator.spec_frozen_subtree_roots() == roots@,
        leaves.len() == num_leaves && roots@ == frozen_roots::<H>(leaves) ==> r is Ok
            && r.unwrap().represents(leaves),
{
    lemma_frozen_roots_len::<H>(leaves);
    assert(roots.len() == roots@.len());
}

/// What is read of an accumulator of some leaves: its root hash is that of the leaves, its version is
/// that of the last leaf, or zero where there is none, and it is empty if and only if there are no
/// leaves.
pub proof fn accumulator_is_read<H: CryptoHasher>(
    accumulator: InMemoryAccumulator<H>,
    leaves: Seq<HashValue>,
    root_hash: HashValue,
    version: Version,
    num_leaves: LeafCount,
    is_empty: bool,
)
    requires
        accumulator.represents(leaves),
        call_ensures(InMemoryAccumulator::<H>::root_hash, (&accumulator,), root_hash),
        call_ensures(InMemoryAccumulator::<H>::version, (&accumulator,), version),
        call_ensures(InMemoryAccumulator::<H>::num_leaves, (&accumulator,), num_leaves),
        call_ensures(InMemoryAccumulator::<H>::is_empty, (&accumulator,), is_empty),
    ensures
        root_hash == accumulator_root::<H>(leaves),
        leaves.len() > 0 ==> version == leaves.len() - 1,
        leaves.len() == 0 ==> version == 0,
        num_leaves == leaves.len(),
        is_empty <==> leaves.len() == 0,
{
    root_hash_is_root_of_leaves(accumulator, leaves);
}

/// Appending leaves to the accumulator of some leaves gives the accumulator of all of them.
pub proof fn leaves_are_appended<H: CryptoHasher>(
    before: InMemoryAccumulator<H>,
    leaves: Seq<HashValue>,
    new_leaves: &[HashValue],
    after: InMemoryAccumulator<H>,
)
    requires
        before.represents(leaves),
        leaves.len() + new_leaves@.len() <= u64::MAX,
        call_ensures(InMemoryAccumulator::<H>::append, (&before, new_leaves), after),
    ensures
        after.represents(leaves + new_leaves@),
{
    append_extends_leaves(before, leaves, new_leaves@, after);
}

/// Leaves may be appended in two parts, and appending none changes nothing, whatever leaves the
/// accumulator has.
pub proof fn leaves_are_appended_in_parts<H: CryptoHasher>(
    before: InMemoryAccumulator<H>,
    first: &[HashValue],
    second: &[HashValue],
    both: &[HashValue],
    between: InMemoryAccumulator<H>,
    after: InMemoryAccumulator<H>,
    at_once: InMemoryAccumulator<H>,
)
    requires
        before.spec_num_leaves() + both@.len() <= u64::MAX,
        both@ == first@ + second@,
        call_ensures(InMemoryAccumulator::<H>::append, (&before, first), between),
        call_ensures(InMemoryAccumulator::<H>::append, (&between, second), after),
        call_ensures(InMemoryAccumulator::<H>::append, (&before, both), at_once),
    ensures
        after.spec_num_leaves() == at_once.spec_num_leaves(),
        after.spec_frozen_subtree_roots() == at_once.spec_frozen_subtree_roots(),
        at_once.spec_num_leaves() == before.spec_num_leaves() + first@.len() + second@.len(),
        first@.len() == 0 ==> between.spec_frozen_subtree_roots()
            == before.spec_frozen_subtree_roots(),
{
    lemma_absorb_parts::<H>(
        before.spec_frozen_subtree_roots(),
        before.spec_num_leaves() as nat,
        first@,
        second@,
    );
}

/// Leaves may be absorbed in two parts.
proof fn lemma_absorb_parts<H: CryptoHasher>(
    roots: Seq<HashValue>,
    n: nat,
    first: Seq<HashValue>,
    second: Seq<HashValue>,
)
    ensures
        absorb_leaves::<H>(absorb_leaves::<H>(roots, n, first), n + first.len(), second)
            == absorb_leaves::<H>(roots, n, first + second),
    decreases second.len(),
{
    if second.len() == 0 {
        assert(first + second =~= first);
    } else {
        lemma_absorb_parts::<H>(roots, n, first, second.drop_last());
        assert((first + second).drop_last() =~= first + second.drop_last());
        assert((first + second).last() == second.last());
    }
}

/// Absorbing subtrees goes as far as there are enough of them, whatever they are, and the number of
/// the roots then depends on their number alone.
proof fn lemma_absorb_subtrees_len<H: CryptoHasher>(
    roots: Seq<HashValue>,
    subtrees: Seq<HashValue>,
    other_roots: Seq<HashValue>,
    other_subtrees: Seq<HashValue>,
    n: nat,
    num_new: nat,
)
    requires
        roots.len() == popcount(n),
        other_roots.len() == popcount(n),
        absorb_subtrees::<H>(other_roots, n, other_subtrees, num_new) is Some,
    ensures
        ({
            let absorbed = absorb_subtrees::<H>(roots, n, subtrees, num_new);
            let other = absorb_subtrees::<H>(other_roots, n, other_subtrees, num_new).unwrap();
            &&& subtrees.len() >= other_subtrees.len() ==> absorbed is Some
            &&& absorbed is Some ==> absorbed.unwrap().len() - subtrees.len() == other.len()
                - other_subtrees.len()
        }),
    decreases num_new,
{
    let size = low_bit(n);
    if size > 0 && num_new >= size && subtrees.len() > 0 {
        lemma_low_bit(n);
        let units = n / size;
        lemma_popcount_of_multiple(units, size);
        lemma_popcount_of_multiple(units + 1, size);
        assert((units + 1) * size == n + size) by (nonlinear_arith)
            requires
                units * size == n,
        ;
        lemma_absorb_len::<H>(roots, units, subtrees[0]);
        lemma_absorb_len::<H>(other_roots, units, other_subtrees[0]);
        lemma_absorb_subtrees_len::<H>(
            absorb::<H>(roots, units, subtrees[0]),
            subtrees.skip(1),
            absorb::<H>(other_roots, units, other_subtrees[0]),
            other_subtrees.skip(1),
            n + size,
            (num_new - size) as nat,
        );
    }
}

/// Subtrees are appended if and only if the accumulator stays within its maximum and there are as
/// many subtrees as stand for so many new leaves there.
pub proof fn subtrees_are_appended_by_number<H: CryptoHasher>(
    before: InMemoryAccumulator<H>,
    subtrees: &[HashValue],
    num_new_leaves: LeafCount,
    new_leaves: Seq<HashValue>,
    r: Result<InMemoryAccumulator<H>, ProofError>,
)
    requires
        before.spec_num_leaves() <= 0x8000_0000_0000_0000,
        before.spec_frozen_subtree_roots().len() == popcount(before.spec_num_leaves() as nat),
        new_leaves.len() == num_new_leaves,
        call_ensures(
            InMemoryAccumulator::<H>::append_subtrees,
            (&before, subtrees, num_new_leaves),
            r,
        ),
    ensures
        before.spec_num_leaves() + num_new_leaves > 0x8000_0000_0000_0000 <==> r == Err::<
            InMemoryAccumulator<H>,
            ProofError,
        >(
            ProofError::TooManyNewLeaves { num_leaves: before.spec_num_leaves(), num_new_leaves },
        ),
        before.spec_num_leaves() + num_new_leaves <= 0x8000_0000_0000_0000 ==> (r is Ok
            <==> subtrees@.len() == new_subtrees::<H>(
            before.spec_num_leaves() as nat,
            new_leaves,
        ).len()),
        r matches Ok(after) ==> after.spec_num_leaves() == before.spec_num_leaves()
            + num_new_leaves,
{
    let n = before.spec_num_leaves() as nat;
    let old_leaves = Seq::new(n, |i: int| before.spec_root_hash());
    lemma_frozen_roots_len::<H>(old_leaves);
    lemma_frozen_roots_len::<H>(old_leaves + new_leaves);
    lemma_absorb_subtrees::<H>(old_leaves, new_leaves);
    lemma_absorb_subtrees_len::<H>(
        before.spec_frozen_subtree_roots(),
        subtrees@,
        frozen_roots::<H>(old_leaves),
        new_subtrees::<H>(n, new_leaves),
        n,
        num_new_leaves as nat,
    );
}

/// Appending the subtrees that stand for new leaves to the accumulator of some leaves gives the
/// accumulator of all of them.
pub proof fn subtrees_are_appended<H: CryptoHasher>(
    before: InMemoryAccumulator<H>,
    leaves: Seq<HashValue>,
    subtrees: &[HashValue],
    num_new_leaves: LeafCount,
    new_leaves: Seq<HashValue>,
    r: Result<InMemoryAccumulator<H>, ProofError>,
)
    requires
        before.represents(leaves),
        new_leaves.len() == num_new_leaves,
        leaves.len() + new_leaves.len() <= 0x8000_0000_0000_0000,
        subtrees@ == new_subtrees::<H>(leaves.len(), new_leaves),
        call_ensures(
            InMemoryAccumulator::<H>::append_subtrees,
            (&before, subtrees, num_new_leaves),
            r,
        ),
    ensures
        r is Ok && r.unwrap().represents(leaves + new_leaves),
{
    append_subtrees_extends_leaves(before, leaves, new_leaves, num_new_leaves);
}

// ---- Summaries ----

/// A summary is made of an accumulator if and only if that one is not empty, and has its version and
/// its root hash.
pub proof fn summary_is_that_of_accumulator(
    accumulator: InMemoryAccumulator<TransactionAccumulatorHasher>,
    r: Result<TransactionAccumulatorSummary, ProofError>,
    version: Version,
    root_hash: HashValue,
    summary_version: Version,
    summary_root_hash: HashValue,
)
    requires
        call_ensures(TransactionAccumulatorSummary::new, (accumulator,), r),
        call_ensures(
            InMemoryAccumulator::<TransactionAccumulatorHasher>::version,
            (&accumulator,),
            version,
        ),
        call_ensures(
            InMemoryAccumulator::<TransactionAccumulatorHasher>::root_hash,
            (&accumulator,),
            root_hash,
        ),
        r is Ok ==> call_ensures(
            TransactionAccumulatorSummary::version,
            (&r.unwrap(),),
            summary_version,
        ),
        r is Ok ==> call_ensures(
            TransactionAccumulatorSummary::root_hash,
            (&r.unwrap(),),
            summary_root_hash,
        ),
    ensures
        r is Ok <==> accumulator.spec_num_leaves() > 0,
        r matches Err(e) ==> e == ProofError::EmptyAccumulator,
        r is Ok ==> r.unwrap().accumulator() == accumulator,
        r is Ok ==> summary_version == version && summary_root_hash == root_hash,
{
}

/// A summary is consistent with a ledger info if and only if both have the same version and the same
/// root hash. Another version is found first.
pub proof fn consistent_summary_has_version_and_root_hash(
    summary: TransactionAccumulatorSummary,
    ledger_info: LedgerInfo,
    version: Version,
    root_hash: HashValue,
    r: Result<(), ProofError>,
)
    requires
        call_ensures(TransactionAccumulatorSummary::version, (&summary,), version),
        call_ensures(TransactionAccumulatorSummary::root_hash, (&summary,), root_hash),
        call_ensures(
            TransactionAccumulatorSummary::verify_consistency,
            (&summary, &ledger_info),
            r,
        ),
    ensures
        r is Ok <==> ledger_info.version == version && ledger_info.transaction_accumulator_hash
            == root_hash,
        r matches Err(e) ==> e == if ledger_info.version == version {
            ProofError::LedgerRootHashMismatch {
                ledger_info_root: ledger_info.transaction_accumulator_hash,
                accumulator_root: root_hash,
            }
        } else {
            ProofError::LedgerVersionMismatch {
                ledger_info_version: ledger_info.version,
                accumulator_version: version,
            }
        },
{
}

/// A proof from genesis gives a summary of the target version if and only if it has as many subtrees
/// as that version needs. With the subtrees of some leaves, it gives the summary of these leaves.
/// The number of leaves is at most the largest number of 64 bits.
pub proof fn summary_is_made_from_genesis(
    genesis_proof: AccumulatorConsistencyProof,
    target_version: Version,
    r: Result<TransactionAccumulatorSummary, ProofError>,
    leaves: Seq<HashValue>,
    version: Version,
)
    requires
        leaves.len() == target_version + 1 || leaves.len() == target_version == u64::MAX,
        leaves.len() <= u64::MAX,
        call_ensures(
            TransactionAccumulatorSummary::try_from_genesis_proof,
            (genesis_proof, target_version),
            r,
        ),
        r is Ok ==> call_ensures(TransactionAccumulatorSummary::version, (&r.unwrap(),), version),
    ensures
        r is Ok <==> genesis_proof@.len() == frozen_roots::<TransactionAccumulatorHasher>(
            leaves,
        ).len(),
        r matches Err(e) ==> e == (ProofError::FrozenSubtreeCountMismatch {
            found: genesis_proof@.len() as usize,
            num_leaves: leaves.len() as u64,
        }),
        r is Ok ==> version == leaves.len() - 1,
        r is Ok && target_version < u64::MAX ==> version == target_version,
        r is Ok ==> r.unwrap().accumulator().spec_frozen_subtree_roots() == genesis_proof@,
        genesis_proof@ == frozen_roots::<TransactionAccumulatorHasher>(leaves) ==> r is Ok
            && r.unwrap().accumulator().represents(leaves),
{
    lemma_frozen_roots_len::<TransactionAccumulatorHasher>(leaves);
}

/// Extending a summary is refused as going back if and only if the target is older. Otherwise it is
/// appending the subtrees for the versions in between, and comparing the root hash with that of the
/// target.
pub proof fn summary_is_extended_to_target(
    summary: TransactionAccumulatorSummary,
    consistency_proof: AccumulatorConsistencyProof,
    subtrees: &[HashValue],
    target: LedgerInfo,
    r: Result<TransactionAccumulatorSummary, ProofError>,
    version: Version,
    appended: Result<InMemoryAccumulator<TransactionAccumulatorHasher>, ProofError>,
    root_hash: HashValue,
)
    requires
        subtrees@ == consistency_proof@,
        call_ensures(
            TransactionAccumulatorSummary::try_extend_with_proof,
            (&summary, &consistency_proof, &target),
            r,
        ),
        call_ensures(TransactionAccumulatorSummary::version, (&summary,), version),
        target.version >= version ==> call_ensures(
            InMemoryAccumulator::<TransactionAccumulatorHasher>::append_subtrees,
            (&summary.accumulator(), subtrees, (target.version - version) as u64),
            appended,
        ),
        appended is Ok ==> call_ensures(
            InMemoryAccumulator::<TransactionAccumulatorHasher>::root_hash,
            (&appended.unwrap(),),
            root_hash,
        ),
    ensures
        target.version < version <==> r == Err::<TransactionAccumulatorSummary, ProofError>(
            ProofError::TargetTooOld { target_version: target.version, current_version: version },
        ),
        target.version >= version ==> {
            &&& r is Ok <==> appended is Ok && root_hash == target.transaction_accumulator_hash
            &&& appended matches Err(e) ==> r == Err::<TransactionAccumulatorSummary, ProofError>(e)
            &&& appended is Ok && r is Err ==> r.unwrap_err() == (
            ProofError::LedgerRootHashMismatch {
                ledger_info_root: target.transaction_accumulator_hash,
                accumulator_root: root_hash,
            })
            &&& r matches Ok(extended) ==> {
                &&& extended.accumulator().spec_num_leaves() == target.version + 1
                &&& extended.accumulator().spec_frozen_subtree_roots()
                    == appended.unwrap().spec_frozen_subtree_roots()
            }
        },
{
}

// ---- Extension proofs ----

/// An extension proof is verified by making the accumulator before it, and comparing the root hash
/// of that one. The result is that accumulator with the leaves appended.
pub proof fn extension_is_appended<H: CryptoHasher>(
    p: AccumulatorExtensionProof<H>,
    original_root: HashValue,
    r: Result<InMemoryAccumulator<H>, ProofError>,
    roots: Vec<HashValue>,
    original: Result<InMemoryAccumulator<H>, ProofError>,
    root_hash: HashValue,
    new_leaves: &[HashValue],
    after: InMemoryAccumulator<H>,
)
    requires
        call_ensures(AccumulatorExtensionProof::<H>::verify, (&p, original_root), r),
        roots@ == p.spec_frozen_subtree_roots(),
        call_ensures(InMemoryAccumulator::<H>::new, (roots, p.spec_num_leaves()), original),
        original is Ok ==> call_ensures(
            InMemoryAccumulator::<H>::root_hash,
            (&original.unwrap(),),
            root_hash,
        ),
        new_leaves@ == p.spec_leaves(),
        original is Ok && root_hash == original_root ==> call_ensures(
            InMemoryAccumulator::<H>::append,
            (&original.unwrap(), new_leaves),
            after,
        ),
    ensures
        r is Ok <==> original is Ok && root_hash == original_root,
        original matches Err(e) ==> r == Err::<InMemoryAccumulator<H>, ProofError>(e),
        original is Ok && root_hash != original_root ==> r == Err::<
            InMemoryAccumulator<H>,
            ProofError,
        >(ProofError::RootHashMismatch { actual: root_hash, expected: original_root }),
        r matches Ok(extended) ==> extended.spec_num_leaves() == after.spec_num_leaves()
            && extended.spec_frozen_subtree_roots() == after.spec_frozen_subtree_roots(),
{
    assert(roots.len() == roots@.len());
}

/// The extension proof that is made of some leaves and the new ones gives the accumulator of all of
/// them.
pub proof fn extension_of_leaves_verifies<H: CryptoHasher>(
    p: AccumulatorExtensionProof<H>,
    leaves: Seq<HashValue>,
    r: Result<InMemoryAccumulator<H>, ProofError>,
)
    requires
        p.spec_num_leaves() == leaves.len(),
        p.spec_frozen_subtree_roots() == frozen_roots::<H>(leaves),
        leaves.len() + p.spec_leaves().len() <= u64::MAX,
        call_ensures(
            AccumulatorExtensionProof::<H>::verify,
            (&p, accumulator_root::<H>(leaves)),
            r,
        ),
    ensures
        r is Ok && r.unwrap().represents(leaves + p.spec_leaves()),
{
    lemma_frozen_roots_len::<H>(leaves);
    lemma_root_of_frozen::<H>(leaves);
    lemma_absorb_leaves::<H>(leaves, p.spec_leaves());
}

// ---- Lists that extend a ledger ----

/// A list without a first version extends any ledger if and only if it is empty. A list that starts
/// after the end of the ledger is too new, and one that ends before the end of the ledger is taken
/// as being in it. Otherwise the accumulator that the left siblings stand for, with the overlapping
/// transactions appended, has the root hash of the ledger, or else there is a fork.
pub proof fn list_extends_ledger_by_overlap(
    list: TransactionInfoListWithProof,
    num_txns: LeafCount,
    ledger_root: HashValue,
    first: Option<Version>,
    r: Result<usize, ProofError>,
    roots: Vec<HashValue>,
    original: Result<InMemoryAccumulator<TransactionAccumulatorHasher>, ProofError>,
    overlap: &[HashValue],
    after: InMemoryAccumulator<TransactionAccumulatorHasher>,
    root_hash: HashValue,
)
    requires
        call_ensures(
            TransactionInfoListWithProof::verify_extends_ledger,
            (&list, num_txns, ledger_root, first),
            r,
        ),
        roots@ == list.ledger_info_to_transaction_infos_proof.spec_left_siblings(),
        match first {
            None => true,
            Some(first_version) => first_version <= num_txns <= first_version
                + list.transaction_infos@.len() ==> {
                &&& call_ensures(
                    InMemoryAccumulator::<TransactionAccumulatorHasher>::new,
                    (roots, first_version),
                    original,
                )
                &&& overlap@.len() == num_txns - first_version
                &&& forall|i: int|
                    0 <= i < overlap@.len() ==> #[trigger] overlap@[i]
                        == list.transaction_infos@[i].spec_hash()
                &&& original is Ok ==> call_ensures(
                    InMemoryAccumulator::<TransactionAccumulatorHasher>::append,
                    (&original.unwrap(), overlap),
                    after,
                ) && call_ensures(
                    InMemoryAccumulator::<TransactionAccumulatorHasher>::root_hash,
                    (&after,),
                    root_hash,
                )
            },
        },
    ensures
        first is None ==> {
            &&& list.transaction_infos@.len() == 0 ==> r == Ok::<usize, ProofError>(0)
            &&& list.transaction_infos@.len() > 0 ==> r == Err::<usize, ProofError>(
                ProofError::TransactionsWithoutFirstVersion,
            )
        },
        first matches Some(first_version) ==> {
            let len = list.transaction_infos@.len();
            &&& first_version > num_txns ==> r == Err::<usize, ProofError>(
                ProofError::TransactionListTooNew { expected_version: num_txns, first_version },
            )
            &&& first_version <= num_txns && first_version + len < num_txns ==> r == Ok::<
                usize,
                ProofError,
            >(len as usize)
            &&& first_version <= num_txns <= first_version + len ==> {
                &&& original matches Err(e) ==> r == Err::<usize, ProofError>(e)
                &&& original is Ok && root_hash != ledger_root ==> r == Err::<usize, ProofError>(
                    ProofError::Fork,
                )
                &&& original is Ok && root_hash == ledger_root ==> r is Ok && r.unwrap()
                    + first_version == num_txns
            }
        },
{
    if let Some(first_version) = first {
        let len = list.transaction_infos@.len();
        assert(list.transaction_infos.len() == len);
        assert(roots.len() == roots@.len());
        if first_version <= num_txns <= first_version + len {
            assert(overlap@ =~= transaction_info_hashes(
                list.transaction_infos@.take(num_txns - first_version),
            ));
        }
    }
}

// ---- What can be appended ----

/// Leaves can be appended wherever their number can be counted with 64 bits, and subtrees to every
/// accumulator that is not too large. A summary that is not too large can be extended to any target,
/// and so can any summary to an older target.
pub proof fn what_can_be_appended<H: CryptoHasher>(
    accumulator: InMemoryAccumulator<H>,
    leaves: &[HashValue],
    num_new_leaves: LeafCount,
    p: AccumulatorExtensionProof<H>,
    original_root: HashValue,
    summary: TransactionAccumulatorSummary,
    version: Version,
    consistency_proof: AccumulatorConsistencyProof,
    target: LedgerInfo,
)
    requires
        call_ensures(TransactionAccumulatorSummary::version, (&summary,), version),
    ensures
        accumulator.spec_num_leaves() + leaves@.len() <= u64::MAX ==> call_requires(
            InMemoryAccumulator::<H>::append,
            (&accumulator, leaves),
        ),
        accumulator.spec_num_leaves() <= 0x8000_0000_0000_0000 ==> call_requires(
            InMemoryAccumulator::<H>::append_subtrees,
            (&accumulator, leaves, num_new_leaves),
        ),
        p.spec_num_leaves() + p.spec_leaves().len() <= u64::MAX ==> call_requires(
            AccumulatorExtensionProof::<H>::verify,
            (&p, original_root),
        ),
        version < 0x8000_0000_0000_0000 || target.version < version ==> call_requires(
            TransactionAccumulatorSummary::try_extend_with_proof,
            (&summary, &consistency_proof, &target),
        ),
{
}

} // verus!
