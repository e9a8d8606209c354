//! The mathematical model of a Merkle accumulator.
//!
//! An accumulator is an append-only list of leaf hashes. The nodes of one level are paired up from
//! left to right to give the nodes of the next level; a node without a partner is paired with the
//! placeholder hash. The root is the only node of the last level.
//!
//! A subtree is frozen once all of its leaves exist: appending leaves does not change it any more.
//! Level by level, the frozen nodes are the parents of complete pairs.

use vstd::prelude::*;
use crate::crypto::hash::{spec_accumulator_placeholder, CryptoHasher, HashValue};
use crate::proofs::node::spec_pair_hash;

verus! {

/// Node `i` of a level, or the placeholder where the level does not reach so far.
pub open spec fn node_or_placeholder(level: Seq<HashValue>, i: int) -> HashValue {
    if 0 <= i < level.len() {
        level[i]
    } else {
        spec_accumulator_placeholder()
    }
}

/// The level above `level`.
pub open spec fn parent_level<H: CryptoHasher>(level: Seq<HashValue>) -> Seq<HashValue> {
    Seq::new(
        ((level.len() + 1) / 2) as nat,
        |i: int|
            spec_pair_hash::<H>(
                node_or_placeholder(level, 2 * i),
                node_or_placeholder(level, 2 * i + 1),
            ),
    )
}

/// The root hash of the accumulator with the given leaves.
pub open spec fn accumulator_root<H: CryptoHasher>(leaves: Seq<HashValue>) -> HashValue
    decreases leaves.len(),
{
    if leaves.len() == 0 {
        spec_accumulator_placeholder()
    } else if leaves.len() == 1 {
        leaves[0]
    } else {
        accumulator_root::<H>(parent_level::<H>(leaves))
    }
}

/// The number of levels above the leaves of an accumulator with `num_leaves` leaves.
pub open spec fn accumulator_depth(num_leaves: nat) -> nat
    decreases num_leaves,
{
    if num_leaves <= 1 {
        0
    } else {
        1 + accumulator_depth((num_leaves + 1) / 2)
    }
}

/// The parents of the complete pairs of a level.
pub open spec fn full_pairs<H: CryptoHasher>(level: Seq<HashValue>) -> Seq<HashValue> {
    Seq::new(level.len() / 2, |i: int| spec_pair_hash::<H>(level[2 * i], level[2 * i + 1]))
}

/// The roots of the maximal frozen subtrees of the accumulator with the given leaves, from left to
/// right.
pub open spec fn frozen_roots<H: CryptoHasher>(leaves: Seq<HashValue>) -> Seq<HashValue>
    decreases leaves.len(),
{
    if leaves.len() == 0 {
        Seq::empty()
    } else if leaves.len() % 2 == 1 {
        frozen_roots::<H>(full_pairs::<H>(leaves)).push(leaves.last())
    } else {
        frozen_roots::<H>(full_pairs::<H>(leaves))
    }
}

/// The number of one bits of `n`, which is the number of frozen subtrees of `n` leaves.
pub open spec fn popcount(n: nat) -> nat
    decreases n,
{
    if n == 0 {
        0
    } else {
        n % 2 + popcount(n / 2)
    }
}

/// The root above a level that has `n` frozen nodes, whose maximal frozen subtrees have the given
/// roots, and one more node `last` to the right of them.
pub open spec fn right_spine<H: CryptoHasher>(
    roots: Seq<HashValue>,
    n: nat,
    last: HashValue,
) -> HashValue
    decreases n,
{
    if n == 0 {
        last
    } else if n % 2 == 1 {
        right_spine::<H>(roots.drop_last(), n / 2, spec_pair_hash::<H>(roots.last(), last))
    } else {
        right_spine::<H>(
            roots,
            n / 2,
            spec_pair_hash::<H>(last, spec_accumulator_placeholder()),
        )
    }
}

/// The root hash of an accumulator of `n` leaves whose maximal frozen subtrees have the given
/// roots.
pub open spec fn root_of_frozen<H: CryptoHasher>(roots: Seq<HashValue>, n: nat) -> HashValue
    decreases n,
{
    if n == 0 {
        spec_accumulator_placeholder()
    } else if n == 1 {
        roots[0]
    } else if n % 2 == 0 {
        root_of_frozen::<H>(roots, n / 2)
    } else {
        right_spine::<H>(
            roots.drop_last(),
            n / 2,
            spec_pair_hash::<H>(roots.last(), spec_accumulator_placeholder()),
        )
    }
}

/// The frozen roots after one more frozen node is put to the right of `n` frozen nodes of the same
/// level: as in binary addition, equal subtrees merge and carry.
pub open spec fn absorb<H: CryptoHasher>(
    roots: Seq<HashValue>,
    n: nat,
    node: HashValue,
) -> Seq<HashValue>
    decreases n,
{
    if n % 2 == 1 {
        absorb::<H>(roots.drop_last(), n / 2, spec_pair_hash::<H>(roots.last(), node))
    } else {
        roots.push(node)
    }
}

/// The frozen roots after `leaves` are appended, one by one, to `n` leaves.
pub open spec fn absorb_leaves<H: CryptoHasher>(
    roots: Seq<HashValue>,
    n: nat,
    leaves: Seq<HashValue>,
) -> Seq<HashValue>
    decreases leaves.len(),
{
    if leaves.len() == 0 {
        roots
    } else {
        absorb::<H>(
            absorb_leaves::<H>(roots, n, leaves.drop_last()),
            (n + leaves.len() - 1) as nat,
            leaves.last(),
        )
    }
}

/// The largest power of two that divides `n`: the number of leaves of the rightmost frozen subtree
/// of `n` leaves.
pub open spec fn low_bit(n: nat) -> nat
    decreases n,
{
    if n == 0 {
        0
    } else if n % 2 == 1 {
        1
    } else {
        2 * low_bit(n / 2)
    }
}

/// The frozen roots after `num_new` leaves, of which only the subtree roots `subtrees` are known,
/// are appended to `n > 0` leaves. As long as the new leaves fill a subtree as large as the
/// rightmost frozen one, the next of `subtrees` stands for them and merges with it; what is left
/// then is smaller and is put at the end as it is. `None` where `subtrees` ends too soon.
pub open spec fn absorb_subtrees<H: CryptoHasher>(
    roots: Seq<HashValue>,
    n: nat,
    subtrees: Seq<HashValue>,
    num_new: nat,
) -> Option<Seq<HashValue>>
    decreases num_new,
{
    let size = low_bit(n);
    if size == 0 || num_new < size {
        Some(roots + subtrees)
    } else if subtrees.len() == 0 {
        None
    } else {
        absorb_subtrees::<H>(
            absorb::<H>(roots, n / size, subtrees[0]),
            n + size,
            subtrees.skip(1),
            (num_new - size) as nat,
        )
    }
}

/// The roots of the subtrees that stand for `leaves` where they follow `n` leaves.
pub open spec fn new_subtrees<H: CryptoHasher>(n: nat, leaves: Seq<HashValue>) -> Seq<HashValue>
    decreases leaves.len(),
{
    let size = low_bit(n);
    if size == 0 || leaves.len() < size {
        frozen_roots::<H>(leaves)
    } else {
        seq![accumulator_root::<H>(leaves.take(size as int))] + new_subtrees::<H>(
            n + size,
            leaves.skip(size as int),
        )
    }
}

/// No number has more one bits than its value.
pub proof fn lemma_popcount_bound(n: nat)
    ensures
        popcount(n) <= n,
    decreases n,
{
    if n > 0 {
        lemma_popcount_bound(n / 2);
    }
}

// ---- Frozen subtrees ----

/// There is one frozen subtree for each one bit of the number of leaves.
pub proof fn lemma_frozen_roots_len<H: CryptoHasher>(leaves: Seq<HashValue>)
    ensures
        frozen_roots::<H>(leaves).len() == popcount(leaves.len()),
    decreases leaves.len(),
{
    if leaves.len() > 0 {
        lemma_frozen_roots_len::<H>(full_pairs::<H>(leaves));
    }
}

/// The root above `level` and one more node comes from the frozen roots of `level` and that node.
proof fn lemma_right_spine<H: CryptoHasher>(level: Seq<HashValue>, last: HashValue)
    ensures
        right_spine::<H>(frozen_roots::<H>(level), level.len(), last) == accumulator_root::<H>(
            level.push(last),
        ),
    decreases level.len(),
{
    let whole = level.push(last);
    let pairs = full_pairs::<H>(level);
    if level.len() > 0 {
        if level.len() % 2 == 1 {
            let merged = spec_pair_hash::<H>(level.last(), last);
            assert(frozen_roots::<H>(level).drop_last() =~= frozen_roots::<H>(pairs));
            assert(parent_level::<H>(whole) =~= pairs.push(merged));
            lemma_right_spine::<H>(pairs, merged);
        } else {
            let merged = spec_pair_hash::<H>(last, spec_accumulator_placeholder());
            assert(parent_level::<H>(whole) =~= pairs.push(merged));
            lemma_right_spine::<H>(pairs, merged);
        }
    }
}

/// The root hash of an accumulator is determined by its frozen subtree roots and the number of its
/// leaves.
pub proof fn lemma_root_of_frozen<H: CryptoHasher>(leaves: Seq<HashValue>)
    ensures
        root_of_frozen::<H>(frozen_roots::<H>(leaves), leaves.len()) == accumulator_root::<H>(
            leaves,
        ),
    decreases leaves.len(),
{
    let pairs = full_pairs::<H>(leaves);
    if leaves.len() <= 1 {
        assert(frozen_roots::<H>(pairs) =~= Seq::empty());
    } else if leaves.len() % 2 == 0 {
        assert(parent_level::<H>(leaves) =~= pairs);
        lemma_root_of_frozen::<H>(pairs);
    } else {
        let merged = spec_pair_hash::<H>(leaves.last(), spec_accumulator_placeholder());
        assert(frozen_roots::<H>(leaves).drop_last() =~= frozen_roots::<H>(pairs));
        assert(parent_level::<H>(leaves) =~= pairs.push(merged));
        lemma_right_spine::<H>(pairs, merged);
    }
}

/// Absorbing a node gives the frozen roots of the level with that node at its end.
pub proof fn lemma_absorb<H: CryptoHasher>(level: Seq<HashValue>, node: HashValue)
    ensures
        absorb::<H>(frozen_roots::<H>(level), level.len(), node) == frozen_roots::<H>(
            level.push(node),
        ),
    decreases level.len(),
{
    let pairs = full_pairs::<H>(level);
    let whole = level.push(node);
    if level.len() % 2 == 1 {
        let merged = spec_pair_hash::<H>(level.last(), node);
        assert(frozen_roots::<H>(level).drop_last() =~= frozen_roots::<H>(pairs));
        assert(full_pairs::<H>(whole) =~= pairs.push(merged));
        lemma_absorb::<H>(pairs, merged);
    } else {
        assert(full_pairs::<H>(whole) =~= pairs);
        if level.len() == 0 {
            assert(pairs =~= level);
        }
    }
}

/// Absorbing leaves gives the frozen roots of the longer list.
pub proof fn lemma_absorb_leaves<H: CryptoHasher>(
    leaves: Seq<HashValue>,
    new_leaves: Seq<HashValue>,
)
    ensures
        absorb_leaves::<H>(frozen_roots::<H>(leaves), leaves.len(), new_leaves)
            == frozen_roots::<H>(leaves + new_leaves),
    decreases new_leaves.len(),
{
    if new_leaves.len() == 0 {
        assert(leaves + new_leaves =~= leaves);
    } else {
        let most = new_leaves.drop_last();
        lemma_absorb_leaves::<H>(leaves, most);
        lemma_absorb::<H>(leaves + most, new_leaves.last());
        assert((leaves + most).push(new_leaves.last()) =~= leaves + new_leaves);
    }
}

/// The number of frozen roots after a node is absorbed.
pub proof fn lemma_absorb_len<H: CryptoHasher>(roots: Seq<HashValue>, n: nat, node: HashValue)
    requires
        roots.len() == popcount(n),
    ensures
        absorb::<H>(roots, n, node).len() == popcount(n + 1),
    decreases n,
{
    if n % 2 == 1 {
        lemma_absorb_len::<H>(
            roots.drop_last(),
            n / 2,
            spec_pair_hash::<H>(roots.last(), node),
        );
        assert((n + 1) / 2 == n / 2 + 1);
    } else {
        assert((n + 1) / 2 == n / 2);
    }
}

// ---- Appending subtrees ----

/// Whether `n` is a power of two.
pub open spec fn is_power_of_two(n: nat) -> bool
    decreases n,
{
    n == 1 || (n > 1 && n % 2 == 0 && is_power_of_two(n / 2))
}

/// `n` is an odd multiple of `low_bit(n)`, which is a power of two.
pub proof fn lemma_low_bit(n: nat)
    requires
        n > 0,
    ensures
        0 < low_bit(n) <= n,
        is_power_of_two(low_bit(n)),
        n == (n / low_bit(n)) * low_bit(n),
        (n / low_bit(n)) % 2 == 1,
    decreases n,
{
    if n % 2 == 1 {
        assert((n / 1) * 1 == n);
    } else {
        let half = n / 2;
        let low = low_bit(half);
        lemma_low_bit(half);
        vstd::arithmetic::div_mod::lemma_div_denominator(n as int, 2, low as int);
        assert(n / (2 * low) == half / low);
        assert((half / low) * (2 * low) == 2 * ((half / low) * low)) by (nonlinear_arith);
        assert((2 * low) / 2 == low);
    }
}

/// An odd multiple of a power of two has that power as its low bit.
pub proof fn lemma_low_bit_of_multiple(units: nat, size: nat)
    requires
        units % 2 == 1,
        is_power_of_two(size),
    ensures
        low_bit(units * size) == size,
        (units * size) / size == units,
        popcount(units * size) == popcount(units),
    decreases size,
{
    vstd::arithmetic::div_mod::lemma_div_multiples_vanish(units as int, size as int);
    assert(units * size == size * units) by (nonlinear_arith);
    if size > 1 {
        let half = size / 2;
        lemma_low_bit_of_multiple(units, half);
        assert(units * size == 2 * (units * half)) by (nonlinear_arith)
            requires
                size == 2 * half,
        ;
        assert(units * half > 0) by (nonlinear_arith)
            requires
                units > 0,
                half > 0,
        ;
        assert((units * size) / 2 == units * half);
        assert((units * size) % 2 == 0);
    } else {
        assert(units * 1 == units);
    }
}

/// A power of two does not change the number of one bits of a product.
pub proof fn lemma_popcount_of_multiple(units: nat, size: nat)
    requires
        is_power_of_two(size),
    ensures
        popcount(units * size) == popcount(units),
    decreases size,
{
    if size > 1 {
        let half = size / 2;
        lemma_popcount_of_multiple(units, half);
        assert(units * size == 2 * (units * half)) by (nonlinear_arith)
            requires
                size == 2 * half,
        ;
        assert((units * size) / 2 == units * half);
    } else {
        assert(units * 1 == units);
    }
}

/// An even number of subtrees is half that number of subtrees of twice the size.
pub proof fn lemma_double_size(units: nat, size: nat)
    requires
        units > 0,
        units % 2 == 0,
        is_power_of_two(size),
    ensures
        (units / 2) * (size * 2) == units * size,
        size * 2 <= units * size,
        is_power_of_two(size * 2),
        popcount(units / 2) == popcount(units),
{
    let half = units / 2;
    assert(half * (size * 2) == (half * 2) * size) by (nonlinear_arith);
    assert(size * 2 <= half * (size * 2)) by (nonlinear_arith)
        requires
            half >= 1,
    ;
    assert((size * 2) / 2 == size);
}

/// Complete pairs of a list of even length followed by another list.
proof fn lemma_full_pairs_concat<H: CryptoHasher>(left: Seq<HashValue>, right: Seq<HashValue>)
    requires
        left.len() % 2 == 0,
    ensures
        full_pairs::<H>(left + right) == full_pairs::<H>(left) + full_pairs::<H>(right),
{
    assert(full_pairs::<H>(left + right) =~= full_pairs::<H>(left) + full_pairs::<H>(right));
}

/// An aligned run of leaves that is a power of two long is absorbed as one node, its root.
proof fn lemma_absorb_aligned<H: CryptoHasher>(
    leaves: Seq<HashValue>,
    run: Seq<HashValue>,
    units: nat,
    size: nat,
)
    requires
        is_power_of_two(size),
        run.len() == size,
        leaves.len() == units * size,
    ensures
        absorb::<H>(frozen_roots::<H>(leaves), units, accumulator_root::<H>(run))
            == frozen_roots::<H>(leaves + run),
    decreases size,
{
    if size == 1 {
        assert(run =~= seq![run[0]]);
        assert(leaves + run =~= leaves.push(run[0]));
        lemma_absorb::<H>(leaves, run[0]);
    } else {
        let half = size / 2;
        assert(units * size == 2 * (units * half)) by (nonlinear_arith)
            requires
                size == 2 * half,
        ;
        lemma_absorb_aligned::<H>(full_pairs::<H>(leaves), full_pairs::<H>(run), units, half);
        lemma_full_pairs_concat::<H>(leaves, run);
        assert(parent_level::<H>(run) =~= full_pairs::<H>(run));
        if leaves.len() == 0 {
            assert(full_pairs::<H>(leaves) =~= leaves);
        }
    }
}

/// A run of leaves that is shorter than the alignment of its start is frozen by itself.
proof fn lemma_frozen_roots_concat<H: CryptoHasher>(
    leaves: Seq<HashValue>,
    run: Seq<HashValue>,
    units: nat,
    size: nat,
)
    requires
        is_power_of_two(size),
        run.len() < size,
        leaves.len() == units * size,
    ensures
        frozen_roots::<H>(leaves + run) == frozen_roots::<H>(leaves) + frozen_roots::<H>(run),
    decreases size,
{
    if size == 1 {
        assert(leaves + run =~= leaves);
        assert(frozen_roots::<H>(leaves) + frozen_roots::<H>(run) =~= frozen_roots::<H>(leaves));
    } else {
        let half = size / 2;
        assert(units * size == 2 * (units * half)) by (nonlinear_arith)
            requires
                size == 2 * half,
        ;
        lemma_frozen_roots_concat::<H>(full_pairs::<H>(leaves), full_pairs::<H>(run), units, half);
        lemma_full_pairs_concat::<H>(leaves, run);
        if leaves.len() == 0 {
            assert(full_pairs::<H>(leaves) =~= leaves);
            assert(leaves + run =~= run);
            assert(frozen_roots::<H>(leaves) + frozen_roots::<H>(run) =~= frozen_roots::<H>(run));
        } else if run.len() == 0 {
            assert(leaves + run =~= leaves);
            assert(frozen_roots::<H>(leaves) + frozen_roots::<H>(run) =~= frozen_roots::<H>(
                leaves,
            ));
        } else {
            assert(frozen_roots::<H>(leaves + run) =~= frozen_roots::<H>(leaves)
                + frozen_roots::<H>(run));
        }
    }
}

/// Absorbing the subtrees that stand for new leaves gives the frozen roots of the longer list.
pub proof fn lemma_absorb_subtrees<H: CryptoHasher>(
    leaves: Seq<HashValue>,
    new_leaves: Seq<HashValue>,
)
    ensures
        absorb_subtrees::<H>(
            frozen_roots::<H>(leaves),
            leaves.len(),
            new_subtrees::<H>(leaves.len(), new_leaves),
            new_leaves.len(),
        ) == Some(frozen_roots::<H>(leaves + new_leaves)),
    decreases new_leaves.len(),
{
    let n = leaves.len();
    let size = low_bit(n);
    if n == 0 {
        assert(leaves + new_leaves =~= new_leaves);
        assert(frozen_roots::<H>(leaves) + frozen_roots::<H>(new_leaves) =~= frozen_roots::<H>(
            new_leaves,
        ));
    } else {
        lemma_low_bit(n);
        if new_leaves.len() < size {
            lemma_frozen_roots_concat::<H>(leaves, new_leaves, n / size, size);
        } else {
            let run = new_leaves.take(size as int);
            let rest = new_leaves.skip(size as int);
            let subtrees = new_subtrees::<H>(n, new_leaves);
            lemma_absorb_aligned::<H>(leaves, run, n / size, size);
            assert(subtrees.skip(1) =~= new_subtrees::<H>(n + size, rest));
            lemma_absorb_subtrees::<H>(leaves + run, rest);
            assert((leaves + run) + rest =~= leaves + new_leaves);
        }
    }
}

} // verus!
