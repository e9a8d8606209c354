//! What it means that accumulators are consistent, and what proofs of it show.
//!
//! Appending leaves to an accumulator, or the subtrees that stand for them, gives the accumulator
//! of the longer list of leaves. In the other direction, an accumulator that can be extended to the
//! root hash of a longer list holds the first leaves of that list, unless two different pairs of
//! nodes with the same hash become known.

use vstd::prelude::*;
use crate::crypto::hash::{
    spec_accumulator_placeholder, CryptoHasher, HashValue, TransactionAccumulatorHasher,
};
use crate::ledger::LedgerInfo;
use crate::proofs::accumulator::{InMemoryAccumulator, MAX_ACCUMULATOR_LEAVES};
use crate::proofs::collision::{collides, pairs_with_same_hash_collide};
use crate::proofs::error::ProofError;
use crate::proofs::merkle::{
    absorb, absorb_leaves, absorb_subtrees, accumulator_root, frozen_roots, full_pairs,
    lemma_absorb_leaves, lemma_absorb_len, lemma_absorb_subtrees, lemma_frozen_roots_len,
    lemma_low_bit, lemma_low_bit_of_multiple, lemma_popcount_of_multiple, lemma_root_of_frozen,
    low_bit, new_subtrees, popcount, right_spine, root_of_frozen,
};
use crate::proofs::node::spec_pair_hash;
use crate::proofs::summary::{AccumulatorExtensionProof, TransactionAccumulatorSummary};
use crate::proofs::transaction::{transaction_info_hashes, TransactionInfoListWithProof};

verus! {

broadcast use pairs_with_same_hash_collide;

// ---- Collisions between two computations of the same shape ----

/// Whether the computations of `right_spine` somewhere hash different pairs to the same value.
pub open spec fn spine_collides<H: CryptoHasher>(
    roots_a: Seq<HashValue>,
    last_a: HashValue,
    roots_b: Seq<HashValue>,
    last_b: HashValue,
    n: nat,
) -> bool
    decreases n,
{
    if n == 0 {
        false
    } else if n % 2 == 1 {
        ||| collides::<H>((roots_a.last(), last_a), (roots_b.last(), last_b))
        ||| spine_collides::<H>(
            roots_a.drop_last(),
            spec_pair_hash::<H>(roots_a.last(), last_a),
            roots_b.drop_last(),
            spec_pair_hash::<H>(roots_b.last(), last_b),
            n / 2,
        )
    } else {
        let placeholder = spec_accumulator_placeholder();
        ||| collides::<H>((last_a, placeholder), (last_b, placeholder))
        ||| spine_collides::<H>(
            roots_a,
            spec_pair_hash::<H>(last_a, placeholder),
            roots_b,
            spec_pair_hash::<H>(last_b, placeholder),
            n / 2,
        )
    }
}

/// Whether the computations of `root_of_frozen` somewhere hash different pairs to the same value.
pub open spec fn root_collides<H: CryptoHasher>(
    roots_a: Seq<HashValue>,
    roots_b: Seq<HashValue>,
    n: nat,
) -> bool
    decreases n,
{
    if n <= 1 {
        false
    } else if n % 2 == 0 {
        root_collides::<H>(roots_a, roots_b, n / 2)
    } else {
        let placeholder = spec_accumulator_placeholder();
        ||| collides::<H>((roots_a.last(), placeholder), (roots_b.last(), placeholder))
        ||| spine_collides::<H>(
            roots_a.drop_last(),
            spec_pair_hash::<H>(roots_a.last(), placeholder),
            roots_b.drop_last(),
            spec_pair_hash::<H>(roots_b.last(), placeholder),
            n / 2,
        )
    }
}

/// Whether the computations of `absorb` somewhere hash different pairs to the same value.
pub open spec fn absorb_collides<H: CryptoHasher>(
    roots_a: Seq<HashValue>,
    node_a: HashValue,
    roots_b: Seq<HashValue>,
    node_b: HashValue,
    n: nat,
) -> bool
    decreases n,
{
    n % 2 == 1 && {
        ||| collides::<H>((roots_a.last(), node_a), (roots_b.last(), node_b))
        ||| absorb_collides::<H>(
            roots_a.drop_last(),
            spec_pair_hash::<H>(roots_a.last(), node_a),
            roots_b.drop_last(),
            spec_pair_hash::<H>(roots_b.last(), node_b),
            n / 2,
        )
    }
}

/// Whether the computations of `absorb_leaves` somewhere hash different pairs to the same value.
pub open spec fn absorb_leaves_collides<H: CryptoHasher>(
    roots_a: Seq<HashValue>,
    leaves_a: Seq<HashValue>,
    roots_b: Seq<HashValue>,
    leaves_b: Seq<HashValue>,
    n: nat,
) -> bool
    decreases leaves_a.len(),
{
    leaves_a.len() > 0 && {
        ||| absorb_collides::<H>(
            absorb_leaves::<H>(roots_a, n, leaves_a.drop_last()),
            leaves_a.last(),
            absorb_leaves::<H>(roots_b, n, leaves_b.drop_last()),
            leaves_b.last(),
            (n + leaves_a.len() - 1) as nat,
        )
        ||| absorb_leaves_collides::<H>(
            roots_a,
            leaves_a.drop_last(),
            roots_b,
            leaves_b.drop_last(),
            n,
        )
    }
}

/// Whether the computations of `absorb_subtrees` somewhere hash different pairs to the same value.
pub open spec fn absorb_subtrees_collides<H: CryptoHasher>(
    roots_a: Seq<HashValue>,
    subtrees_a: Seq<HashValue>,
    roots_b: Seq<HashValue>,
    subtrees_b: Seq<HashValue>,
    n: nat,
    num_new: nat,
) -> bool
    decreases num_new,
{
    let size = low_bit(n);
    size > 0 && num_new >= size && subtrees_a.len() > 0 && subtrees_b.len() > 0 && {
        ||| absorb_collides::<H>(roots_a, subtrees_a[0], roots_b, subtrees_b[0], n / size)
        ||| absorb_subtrees_collides::<H>(
            absorb::<H>(roots_a, n / size, subtrees_a[0]),
            subtrees_a.skip(1),
            absorb::<H>(roots_b, n / size, subtrees_b[0]),
            subtrees_b.skip(1),
            n + size,
            (num_new - size) as nat,
        )
    }
}

/// Whether the frozen subtrees of two lists of leaves of the same length somewhere have different
/// pairs with the same hash.
pub open spec fn frozen_collides<H: CryptoHasher>(
    leaves_a: Seq<HashValue>,
    leaves_b: Seq<HashValue>,
) -> bool
    decreases leaves_a.len(),
{
    leaves_a.len() > 1 && {
        ||| exists|i: int|
            0 <= i < leaves_a.len() as int / 2 && #[trigger] collides::<H>(
                (leaves_a[2 * i], leaves_a[2 * i + 1]),
                (leaves_b[2 * i], leaves_b[2 * i + 1]),
            )
        ||| frozen_collides::<H>(full_pairs::<H>(leaves_a), full_pairs::<H>(leaves_b))
    }
}

proof fn lemma_spine_injective<H: CryptoHasher>(
    roots_a: Seq<HashValue>,
    last_a: HashValue,
    roots_b: Seq<HashValue>,
    last_b: HashValue,
    n: nat,
)
    requires
        roots_a.len() == popcount(n),
        roots_b.len() == popcount(n),
        right_spine::<H>(roots_a, n, last_a) == right_spine::<H>(roots_b, n, last_b),
        !spine_collides::<H>(roots_a, last_a, roots_b, last_b, n),
    ensures
        roots_a == roots_b,
        last_a == last_b,
    decreases n,
{
    let placeholder = spec_accumulator_placeholder();
    if n == 0 {
        assert(roots_a =~= roots_b);
    } else if n % 2 == 1 {
        lemma_spine_injective::<H>(
            roots_a.drop_last(),
            spec_pair_hash::<H>(roots_a.last(), last_a),
            roots_b.drop_last(),
            spec_pair_hash::<H>(roots_b.last(), last_b),
            n / 2,
        );
        assert((roots_a.last(), last_a) == (roots_b.last(), last_b));
        assert(roots_a =~= roots_a.drop_last().push(roots_a.last()));
        assert(roots_b =~= roots_b.drop_last().push(roots_b.last()));
    } else {
        lemma_spine_injective::<H>(
            roots_a,
            spec_pair_hash::<H>(last_a, placeholder),
            roots_b,
            spec_pair_hash::<H>(last_b, placeholder),
            n / 2,
        );
        assert((last_a, placeholder) == (last_b, placeholder));
    }
}

/// Accumulators of the same number of leaves with the same root hash have the same frozen subtree
/// roots, or there is a collision.
pub proof fn same_root_same_frozen_roots<H: CryptoHasher>(
    roots_a: Seq<HashValue>,
    roots_b: Seq<HashValue>,
    n: nat,
)
    requires
        roots_a.len() == popcount(n),
        roots_b.len() == popcount(n),
        root_of_frozen::<H>(roots_a, n) == root_of_frozen::<H>(roots_b, n),
    ensures
        roots_a == roots_b || root_collides::<H>(roots_a, roots_b, n),
    decreases n,
{
    let placeholder = spec_accumulator_placeholder();
    if n == 0 {
        assert(roots_a =~= roots_b);
    } else if n == 1 {
        assert(popcount(1) == 1 + popcount(0));
        assert(roots_a =~= roots_b);
    } else if n % 2 == 0 {
        same_root_same_frozen_roots::<H>(roots_a, roots_b, n / 2);
    } else if !root_collides::<H>(roots_a, roots_b, n) {
        lemma_spine_injective::<H>(
            roots_a.drop_last(),
            spec_pair_hash::<H>(roots_a.last(), placeholder),
            roots_b.drop_last(),
            spec_pair_hash::<H>(roots_b.last(), placeholder),
            n / 2,
        );
        assert((roots_a.last(), placeholder) == (roots_b.last(), placeholder));
        assert(roots_a =~= roots_a.drop_last().push(roots_a.last()));
        assert(roots_b =~= roots_b.drop_last().push(roots_b.last()));
    }
}

proof fn lemma_absorb_injective<H: CryptoHasher>(
    roots_a: Seq<HashValue>,
    node_a: HashValue,
    roots_b: Seq<HashValue>,
    node_b: HashValue,
    n: nat,
)
    requires
        roots_a.len() == popcount(n),
        roots_b.len() == popcount(n),
        absorb::<H>(roots_a, n, node_a) == absorb::<H>(roots_b, n, node_b),
        !absorb_collides::<H>(roots_a, node_a, roots_b, node_b, n),
    ensures
        roots_a == roots_b,
        node_a == node_b,
    decreases n,
{
    if n % 2 == 1 {
        lemma_absorb_injective::<H>(
            roots_a.drop_last(),
            spec_pair_hash::<H>(roots_a.last(), node_a),
            roots_b.drop_last(),
            spec_pair_hash::<H>(roots_b.last(), node_b),
            n / 2,
        );
        assert((roots_a.last(), node_a) == (roots_b.last(), node_b));
        assert(roots_a =~= roots_a.drop_last().push(roots_a.last()));
        assert(roots_b =~= roots_b.drop_last().push(roots_b.last()));
    } else {
        assert(roots_a.push(node_a).last() == roots_b.push(node_b).last());
        assert(roots_a =~= roots_a.push(node_a).drop_last());
        assert(roots_b =~= roots_b.push(node_b).drop_last());
    }
}

proof fn lemma_absorb_leaves_len<H: CryptoHasher>(
    roots: Seq<HashValue>,
    n: nat,
    leaves: Seq<HashValue>,
)
    requires
        roots.len() == popcount(n),
    ensures
        absorb_leaves::<H>(roots, n, leaves).len() == popcount(n + leaves.len()),
    decreases leaves.len(),
{
    if leaves.len() > 0 {
        let most = leaves.drop_last();
        lemma_absorb_leaves_len::<H>(roots, n, most);
        lemma_absorb_len::<H>(
            absorb_leaves::<H>(roots, n, most),
            (n + leaves.len() - 1) as nat,
            leaves.last(),
        );
    }
}

proof fn lemma_absorb_leaves_injective<H: CryptoHasher>(
    roots_a: Seq<HashValue>,
    leaves_a: Seq<HashValue>,
    roots_b: Seq<HashValue>,
    leaves_b: Seq<HashValue>,
    n: nat,
)
    requires
        roots_a.len() == popcount(n),
        roots_b.len() == popcount(n),
        leaves_a.len() == leaves_b.len(),
        absorb_leaves::<H>(roots_a, n, leaves_a) == absorb_leaves::<H>(roots_b, n, leaves_b),
        !absorb_leaves_collides::<H>(roots_a, leaves_a, roots_b, leaves_b, n),
    ensures
        roots_a == roots_b,
        leaves_a == leaves_b,
    decreases leaves_a.len(),
{
    if leaves_a.len() == 0 {
        assert(leaves_a =~= leaves_b);
    } else {
        let most_a = leaves_a.drop_last();
        let most_b = leaves_b.drop_last();
        lemma_absorb_leaves_len::<H>(roots_a, n, most_a);
        lemma_absorb_leaves_len::<H>(roots_b, n, most_b);
        lemma_absorb_injective::<H>(
            absorb_leaves::<H>(roots_a, n, most_a),
            leaves_a.last(),
            absorb_leaves::<H>(roots_b, n, most_b),
            leaves_b.last(),
            (n + leaves_a.len() - 1) as nat,
        );
        lemma_absorb_leaves_injective::<H>(roots_a, most_a, roots_b, most_b, n);
        assert(leaves_a =~= most_a.push(leaves_a.last()));
        assert(leaves_b =~= most_b.push(leaves_b.last()));
    }
}

proof fn lemma_absorb_subtrees_injective<H: CryptoHasher>(
    roots_a: Seq<HashValue>,
    subtrees_a: Seq<HashValue>,
    roots_b: Seq<HashValue>,
    subtrees_b: Seq<HashValue>,
    n: nat,
    num_new: nat,
)
    requires
        roots_a.len() == popcount(n),
        roots_b.len() == popcount(n),
        absorb_subtrees::<H>(roots_a, n, subtrees_a, num_new) is Some,
        absorb_subtrees::<H>(roots_a, n, subtrees_a, num_new) == absorb_subtrees::<H>(
            roots_b,
            n,
            subtrees_b,
            num_new,
        ),
        !absorb_subtrees_collides::<H>(roots_a, subtrees_a, roots_b, subtrees_b, n, num_new),
    ensures
        roots_a == roots_b,
        subtrees_a == subtrees_b,
    decreases num_new,
{
    let size = low_bit(n);
    if size == 0 || num_new < size {
        let all_a = roots_a + subtrees_a;
        let all_b = roots_b + subtrees_b;
        assert(roots_a =~= all_a.take(roots_a.len() as int));
        assert(roots_b =~= all_b.take(roots_b.len() as int));
        assert(subtrees_a =~= all_a.skip(roots_a.len() as int));
        assert(subtrees_b =~= all_b.skip(roots_b.len() as int));
    } else {
        let units = n / size;
        lemma_low_bit(n);
        lemma_low_bit_of_multiple(units, size);
        lemma_absorb_len::<H>(roots_a, units, subtrees_a[0]);
        lemma_absorb_len::<H>(roots_b, units, subtrees_b[0]);
        assert(n + size == (units + 1) * size) by (nonlinear_arith)
            requires
                n == units * size,
        ;
        lemma_popcount_of_multiple(units + 1, size);
        lemma_absorb_subtrees_injective::<H>(
            absorb::<H>(roots_a, units, subtrees_a[0]),
            subtrees_a.skip(1),
            absorb::<H>(roots_b, units, subtrees_b[0]),
            subtrees_b.skip(1),
            n + size,
            (num_new - size) as nat,
        );
        lemma_absorb_injective::<H>(roots_a, subtrees_a[0], roots_b, subtrees_b[0], units);
        assert(subtrees_a =~= seq![subtrees_a[0]] + subtrees_a.skip(1));
        assert(subtrees_b =~= seq![subtrees_b[0]] + subtrees_b.skip(1));
    }
}

proof fn lemma_frozen_injective<H: CryptoHasher>(
    leaves_a: Seq<HashValue>,
    leaves_b: Seq<HashValue>,
)
    requires
        leaves_a.len() == leaves_b.len(),
        frozen_roots::<H>(leaves_a) == frozen_roots::<H>(leaves_b),
        !frozen_collides::<H>(leaves_a, leaves_b),
    ensures
        leaves_a == leaves_b,
    decreases leaves_a.len(),
{
    let n = leaves_a.len();
    if n > 0 {
        let pairs_a = full_pairs::<H>(leaves_a);
        let pairs_b = full_pairs::<H>(leaves_b);
        if n % 2 == 1 {
            let roots_a = frozen_roots::<H>(leaves_a);
            let roots_b = frozen_roots::<H>(leaves_b);
            assert(roots_a.last() == roots_b.last());
            assert(frozen_roots::<H>(pairs_a) =~= roots_a.drop_last());
            assert(frozen_roots::<H>(pairs_b) =~= roots_b.drop_last());
        }
        lemma_frozen_injective::<H>(pairs_a, pairs_b);
        assert forall|k: int| 0 <= k < n implies leaves_a[k] == leaves_b[k] by {
            let i = k / 2;
            if 2 * i + 1 < n {
                assert(pairs_a[i] == pairs_b[i]);
                assert(!collides::<H>(
                    (leaves_a[2 * i], leaves_a[2 * i + 1]),
                    (leaves_b[2 * i], leaves_b[2 * i + 1]),
                ));
            } else {
                assert(leaves_a[k] == leaves_a.last() && leaves_b[k] == leaves_b.last());
            }
        }
    }
    assert(leaves_a =~= leaves_b);
}

// ---- Accumulators and their leaves ----

/// The root hash of an accumulator is the root hash of its leaves.
pub proof fn root_hash_is_root_of_leaves<H: CryptoHasher>(
    accumulator: InMemoryAccumulator<H>,
    leaves: Seq<HashValue>,
)
    requires
        accumulator.represents(leaves),
    ensures
        accumulator.spec_root_hash() == accumulator_root::<H>(leaves),
{
    lemma_root_of_frozen::<H>(leaves);
}

/// An accumulator of as many leaves as there are, with their root hash, is the accumulator of these
/// leaves, or there is a collision.
pub proof fn root_hash_determines_accumulator<H: CryptoHasher>(
    accumulator: InMemoryAccumulator<H>,
    leaves: Seq<HashValue>,
)
    requires
        accumulator.spec_frozen_subtree_roots().len() == popcount(
            accumulator.spec_num_leaves() as nat,
        ),
        accumulator.spec_num_leaves() == leaves.len(),
        accumulator.spec_root_hash() == accumulator_root::<H>(leaves),
    ensures
        accumulator.represents(leaves) || root_collides::<H>(
            accumulator.spec_frozen_subtree_roots(),
            frozen_roots::<H>(leaves),
            leaves.len(),
        ),
{
    lemma_root_of_frozen::<H>(leaves);
    lemma_frozen_roots_len::<H>(leaves);
    same_root_same_frozen_roots::<H>(
        accumulator.spec_frozen_subtree_roots(),
        frozen_roots::<H>(leaves),
        leaves.len(),
    );
}

/// Appending leaves to the accumulator of some leaves gives the accumulator of all of them.
pub proof fn append_extends_leaves<H: CryptoHasher>(
    before: InMemoryAccumulator<H>,
    leaves: Seq<HashValue>,
    new_leaves: Seq<HashValue>,
    after: InMemoryAccumulator<H>,
)
    requires
        before.represents(leaves),
        after.spec_num_leaves() == before.spec_num_leaves() + new_leaves.len(),
        after.spec_frozen_subtree_roots() == absorb_leaves::<H>(
            before.spec_frozen_subtree_roots(),
            before.spec_num_leaves() as nat,
            new_leaves,
        ),
    ensures
        after.represents(leaves + new_leaves),
{
    lemma_absorb_leaves::<H>(leaves, new_leaves);
}

/// Appending the subtrees that stand for new leaves succeeds, and gives the same accumulator as
/// appending the leaves.
pub proof fn append_subtrees_extends_leaves<H: CryptoHasher>(
    accumulator: InMemoryAccumulator<H>,
    leaves: Seq<HashValue>,
    new_leaves: Seq<HashValue>,
    num_new_leaves: u64,
)
    requires
        accumulator.represents(leaves),
        num_new_leaves == new_leaves.len(),
        leaves.len() + new_leaves.len() <= MAX_ACCUMULATOR_LEAVES,
    ensures
        accumulator.spec_append_subtrees(
            new_subtrees::<H>(leaves.len(), new_leaves),
            num_new_leaves,
        ) == Ok::<Seq<HashValue>, ProofError>(frozen_roots::<H>(leaves + new_leaves)),
        absorb_leaves::<H>(
            accumulator.spec_frozen_subtree_roots(),
            leaves.len(),
            new_leaves,
        ) == frozen_roots::<H>(leaves + new_leaves),
{
    lemma_absorb_subtrees::<H>(leaves, new_leaves);
    lemma_absorb_leaves::<H>(leaves, new_leaves);
    lemma_frozen_roots_len::<H>(leaves + new_leaves);
}

// ---- Consistency proofs ----

/// Whether extending the accumulator of `old_leaves` by `subtrees` to the root hash of `new_leaves`
/// shows a collision.
pub open spec fn extension_collides<H: CryptoHasher>(
    old_leaves: Seq<HashValue>,
    subtrees: Seq<HashValue>,
    new_leaves: Seq<HashValue>,
) -> bool {
    let n = old_leaves.len();
    let num_new = (new_leaves.len() - n) as nat;
    let prefix = new_leaves.take(n as int);
    let rest = new_leaves.skip(n as int);
    let roots = frozen_roots::<H>(old_leaves);
    ||| root_collides::<H>(
        absorb_subtrees::<H>(roots, n, subtrees, num_new).unwrap(),
        frozen_roots::<H>(new_leaves),
        new_leaves.len(),
    )
    ||| absorb_subtrees_collides::<H>(
        roots,
        subtrees,
        frozen_roots::<H>(prefix),
        new_subtrees::<H>(n, rest),
        n,
        num_new,
    )
    ||| frozen_collides::<H>(old_leaves, prefix)
}

/// The consistency proof that shows the new leaves takes a summary from the ledger it knows to the
/// longer ledger.
pub proof fn consistency_proof_extends_summary(
    summary: TransactionAccumulatorSummary,
    leaves: Seq<HashValue>,
    new_leaves: Seq<HashValue>,
    target: LedgerInfo,
)
    requires
        summary.accumulator().represents(leaves),
        leaves.len() > 0,
        leaves.len() + new_leaves.len() <= MAX_ACCUMULATOR_LEAVES,
        target.version == leaves.len() + new_leaves.len() - 1,
        target.transaction_accumulator_hash == accumulator_root::<TransactionAccumulatorHasher>(
            leaves + new_leaves,
        ),
    ensures
        summary.spec_try_extend_with_proof(
            new_subtrees::<TransactionAccumulatorHasher>(leaves.len(), new_leaves),
            target,
        ) == Ok::<Seq<HashValue>, ProofError>(
            frozen_roots::<TransactionAccumulatorHasher>(leaves + new_leaves),
        ),
{
    append_subtrees_extends_leaves(
        summary.accumulator(),
        leaves,
        new_leaves,
        (target.version - summary.accumulator().spec_version()) as u64,
    );
    lemma_root_of_frozen::<TransactionAccumulatorHasher>(leaves + new_leaves);
}

/// A consistency proof convinces: if a summary of a known ledger can be extended to the root hash
/// of another ledger, then that ledger starts with the known one and the extended summary is that
/// of the other ledger, or a collision becomes known.
pub proof fn extended_summary_is_consistent(
    summary: TransactionAccumulatorSummary,
    known: Seq<HashValue>,
    subtrees: Seq<HashValue>,
    target: LedgerInfo,
    ledger: Seq<HashValue>,
)
    requires
        summary.accumulator().represents(known),
        known.len() > 0,
        ledger.len() == target.version + 1,
        target.transaction_accumulator_hash == accumulator_root::<TransactionAccumulatorHasher>(
            ledger,
        ),
        summary.spec_try_extend_with_proof(subtrees, target) is Ok,
    ensures
        ({
            &&& known.len() <= ledger.len()
            &&& ledger.take(known.len() as int) == known
            &&& summary.spec_try_extend_with_proof(subtrees, target) == Ok::<
                Seq<HashValue>,
                ProofError,
            >(frozen_roots::<TransactionAccumulatorHasher>(ledger))
        }) || extension_collides::<TransactionAccumulatorHasher>(known, subtrees, ledger),
{
    let n = known.len();
    let num_new = (ledger.len() - n) as nat;
    let prefix = ledger.take(n as int);
    let rest = ledger.skip(n as int);
    let roots = frozen_roots::<TransactionAccumulatorHasher>(known);
    let extended = absorb_subtrees::<TransactionAccumulatorHasher>(
        roots,
        n,
        subtrees,
        num_new,
    ).unwrap();
    if !extension_collides::<TransactionAccumulatorHasher>(known, subtrees, ledger) {
        lemma_root_of_frozen::<TransactionAccumulatorHasher>(ledger);
        lemma_frozen_roots_len::<TransactionAccumulatorHasher>(ledger);
        lemma_frozen_roots_len::<TransactionAccumulatorHasher>(known);
        lemma_frozen_roots_len::<TransactionAccumulatorHasher>(prefix);
        same_root_same_frozen_roots::<TransactionAccumulatorHasher>(
            extended,
            frozen_roots::<TransactionAccumulatorHasher>(ledger),
            ledger.len(),
        );
        lemma_absorb_subtrees::<TransactionAccumulatorHasher>(prefix, rest);
        assert(prefix + rest =~= ledger);
        lemma_absorb_subtrees_injective::<TransactionAccumulatorHasher>(
            roots,
            subtrees,
            frozen_roots::<TransactionAccumulatorHasher>(prefix),
            new_subtrees::<TransactionAccumulatorHasher>(n, rest),
            n,
            num_new,
        );
        lemma_frozen_injective::<TransactionAccumulatorHasher>(known, prefix);
    }
}

/// The consistency proof from pre-genesis, which shows all leaves, has as many subtrees as the
/// accumulator of these leaves needs, and the summary that is built from it is the one of these
/// leaves.
pub proof fn genesis_proof_gives_summary(
    leaves: Seq<HashValue>,
    summary: TransactionAccumulatorSummary,
)
    requires
        summary.accumulator().spec_frozen_subtree_roots() == new_subtrees::<
            TransactionAccumulatorHasher,
        >(0, leaves),
        summary.accumulator().spec_num_leaves() == leaves.len(),
    ensures
        new_subtrees::<TransactionAccumulatorHasher>(0, leaves).len() == popcount(leaves.len()),
        summary.accumulator().represents(leaves),
{
    lemma_frozen_roots_len::<TransactionAccumulatorHasher>(leaves);
}

/// An extension proof that verifies against the root hash of some leaves gives the accumulator of
/// these leaves and the new ones, or a collision becomes known.
pub proof fn verified_extension_extends_leaves<H: CryptoHasher>(
    p: AccumulatorExtensionProof<H>,
    leaves: Seq<HashValue>,
    extended: InMemoryAccumulator<H>,
)
    requires
        p.spec_num_leaves() == leaves.len(),
        p.spec_verify(accumulator_root::<H>(leaves)) == Ok::<Seq<HashValue>, ProofError>(
            extended.spec_frozen_subtree_roots(),
        ),
        extended.spec_num_leaves() == leaves.len() + p.spec_leaves().len(),
    ensures
        extended.represents(leaves + p.spec_leaves()) || root_collides::<H>(
            p.spec_frozen_subtree_roots(),
            frozen_roots::<H>(leaves),
            leaves.len(),
        ),
{
    lemma_root_of_frozen::<H>(leaves);
    lemma_frozen_roots_len::<H>(leaves);
    same_root_same_frozen_roots::<H>(
        p.spec_frozen_subtree_roots(),
        frozen_roots::<H>(leaves),
        leaves.len(),
    );
    lemma_absorb_leaves::<H>(leaves, p.spec_leaves());
}

// ---- Lists of transactions that extend a ledger ----

/// Whether checking that a list of transactions extends a ledger shows a collision.
pub open spec fn overlap_collides<H: CryptoHasher>(
    roots: Seq<HashValue>,
    first: nat,
    overlap: Seq<HashValue>,
    ledger: Seq<HashValue>,
) -> bool {
    ||| root_collides::<H>(
        absorb_leaves::<H>(roots, first, overlap),
        frozen_roots::<H>(ledger),
        ledger.len(),
    )
    ||| absorb_leaves_collides::<H>(
        roots,
        overlap,
        frozen_roots::<H>(ledger.take(first as int)),
        ledger.skip(first as int),
        first,
    )
}

/// A list of transactions that starts in the ledger or right after it, and agrees with it where
/// they overlap, extends the ledger by what comes after the overlap.
pub proof fn agreeing_list_extends_ledger(
    list: TransactionInfoListWithProof,
    ledger: Seq<HashValue>,
    num_txns: u64,
    first_version: u64,
)
    requires
        ledger.len() == num_txns,
        first_version <= num_txns,
        num_txns - first_version <= list.transaction_infos@.len(),
        list.ledger_info_to_transaction_infos_proof.spec_left_siblings() == frozen_roots::<
            TransactionAccumulatorHasher,
        >(ledger.take(first_version as int)),
        transaction_info_hashes(list.transaction_infos@.take(num_txns - first_version))
            == ledger.skip(first_version as int),
    ensures
        list.spec_verify_extends_ledger(
            num_txns,
            accumulator_root::<TransactionAccumulatorHasher>(ledger),
            Some(first_version),
        ) == Ok::<usize, ProofError>((num_txns - first_version) as usize),
{
    let prefix = ledger.take(first_version as int);
    let rest = ledger.skip(first_version as int);
    assert(prefix + rest =~= ledger);
    lemma_absorb_leaves::<TransactionAccumulatorHasher>(prefix, rest);
    lemma_root_of_frozen::<TransactionAccumulatorHasher>(ledger);
    lemma_frozen_roots_len::<TransactionAccumulatorHasher>(prefix);
}

/// A fork is detected: if a list of transactions that reaches the end of the ledger is found to
/// extend it, then the transactions of the overlap are those of the ledger, or a collision becomes
/// known.
pub proof fn extending_list_agrees_with_ledger(
    list: TransactionInfoListWithProof,
    ledger: Seq<HashValue>,
    num_txns: u64,
    first_version: u64,
)
    requires
        ledger.len() == num_txns,
        num_txns - first_version <= list.transaction_infos@.len(),
        list.spec_verify_extends_ledger(
            num_txns,
            accumulator_root::<TransactionAccumulatorHasher>(ledger),
            Some(first_version),
        ) is Ok,
    ensures
        transaction_info_hashes(list.transaction_infos@.take(num_txns - first_version))
            == ledger.skip(first_version as int) || overlap_collides::<
            TransactionAccumulatorHasher,
        >(
            list.ledger_info_to_transaction_infos_proof.spec_left_siblings(),
            first_version as nat,
            transaction_info_hashes(list.transaction_infos@.take(num_txns - first_version)),
            ledger,
        ),
{
    let roots = list.ledger_info_to_transaction_infos_proof.spec_left_siblings();
    let overlap = transaction_info_hashes(
        list.transaction_infos@.take(num_txns - first_version),
    );
    let first = first_version as nat;
    let prefix = ledger.take(first as int);
    let rest = ledger.skip(first as int);
    if !overlap_collides::<TransactionAccumulatorHasher>(roots, first, overlap, ledger) {
        assert(prefix + rest =~= ledger);
        lemma_absorb_leaves::<TransactionAccumulatorHasher>(prefix, rest);
        lemma_root_of_frozen::<TransactionAccumulatorHasher>(ledger);
        lemma_frozen_roots_len::<TransactionAccumulatorHasher>(prefix);
        lemma_frozen_roots_len::<TransactionAccumulatorHasher>(ledger);
        lemma_absorb_leaves_len::<TransactionAccumulatorHasher>(roots, first, overlap);
        same_root_same_frozen_roots::<TransactionAccumulatorHasher>(
            absorb_leaves::<TransactionAccumulatorHasher>(roots, first, overlap),
            frozen_roots::<TransactionAccumulatorHasher>(ledger),
            ledger.len(),
        );
        lemma_absorb_leaves_injective::<TransactionAccumulatorHasher>(
            roots,
            overlap,
            frozen_roots::<TransactionAccumulatorHasher>(prefix),
            rest,
            first,
        );
    }
}

} // verus!
