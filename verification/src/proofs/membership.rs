//! What accumulator proofs and range proofs show about an accumulator.
//!
//! A proof that is made from the nodes of an accumulator verifies against its root hash. In the
//! other direction, a proof that verifies shows the leaves of the accumulator, unless it makes two
//! different pairs of nodes known that have the same hash.

use vstd::prelude::*;
use crate::crypto::hash::{CryptoHasher, HashValue};
use crate::proofs::accumulator::{MAX_ACCUMULATOR_LEAVES, MAX_ACCUMULATOR_PROOF_DEPTH};
use crate::proofs::accumulator_proof::{climb, sibling_pair, AccumulatorProof};
use crate::proofs::collision::{collides, pairs_with_same_hash_collide};
use crate::proofs::error::ProofError;
use crate::proofs::merkle::{
    accumulator_depth, accumulator_root, frozen_roots, full_pairs, node_or_placeholder,
    parent_level,
};
use crate::proofs::node::spec_pair_hash;
use crate::proofs::range_proof::{
    after_use, complete_range, needs_left, needs_right, range_root, AccumulatorRangeProof,
};

verus! {

broadcast use pairs_with_same_hash_collide;

/// Pair `i` of a level of an accumulator.
pub open spec fn pair_of_level(level: Seq<HashValue>, i: int) -> (HashValue, HashValue) {
    (node_or_placeholder(level, 2 * i), node_or_placeholder(level, 2 * i + 1))
}

/// The largest number of nodes of a level that is `depth` levels below the root.
pub open spec fn width(depth: nat) -> nat
    decreases depth,
{
    if depth == 0 {
        1
    } else {
        2 * width((depth - 1) as nat)
    }
}

/// An accumulator whose leaves fit into `depth` levels is not deeper than that.
proof fn lemma_depth_bound(num_leaves: nat, depth: nat)
    requires
        num_leaves <= width(depth),
    ensures
        accumulator_depth(num_leaves) <= depth,
    decreases depth,
{
    if num_leaves > 1 {
        lemma_depth_bound((num_leaves + 1) / 2, (depth - 1) as nat);
    }
}

/// Because leaves can only take half the space of a 64-bit numbering, no accumulator is deeper than
/// the longest proof.
pub proof fn accumulator_depth_is_bounded(num_leaves: nat)
    requires
        num_leaves <= MAX_ACCUMULATOR_LEAVES,
    ensures
        accumulator_depth(num_leaves) <= MAX_ACCUMULATOR_PROOF_DEPTH,
{
    reveal_with_fuel(width, 64);
    assert(width(63) == 0x8000_0000_0000_0000);
    lemma_depth_bound(num_leaves, 63);
}

/// The levels of an accumulator have room for all of its leaves.
proof fn lemma_depth_has_room(num_leaves: nat)
    ensures
        num_leaves <= width(accumulator_depth(num_leaves)),
    decreases num_leaves,
{
    if num_leaves > 1 {
        lemma_depth_has_room((num_leaves + 1) / 2);
    }
}

/// Deeper levels have room for more nodes.
proof fn lemma_width_grows(a: nat, b: nat)
    requires
        a <= b,
    ensures
        width(a) <= width(b),
    decreases b,
{
    if a < b {
        lemma_width_grows(a, (b - 1) as nat);
        assert(width((b - 1) as nat) <= width(b));
    }
}

/// An accumulator can be proved, with at most sixty-three siblings for each leaf, if and only if it
/// has at most the maximum number of leaves.
pub proof fn provable_accumulators_are_not_too_large(num_leaves: nat)
    ensures
        accumulator_depth(num_leaves) <= 63 <==> num_leaves <= MAX_ACCUMULATOR_LEAVES,
        MAX_ACCUMULATOR_PROOF_DEPTH == 63,
        MAX_ACCUMULATOR_LEAVES == 0x8000_0000_0000_0000,
{
    if num_leaves <= MAX_ACCUMULATOR_LEAVES {
        accumulator_depth_is_bounded(num_leaves);
    }
    if accumulator_depth(num_leaves) <= 63 {
        lemma_depth_has_room(num_leaves);
        lemma_width_grows(accumulator_depth(num_leaves), 63);
        reveal_with_fuel(width, 64);
        assert(width(63) == MAX_ACCUMULATOR_LEAVES);
    }
}

// ---- One leaf ----

/// The siblings of leaf `index` and of its ancestors, from the bottom level to the root level.
pub open spec fn leaf_siblings<H: CryptoHasher>(leaves: Seq<HashValue>, index: nat) -> Seq<
    HashValue,
>
    decreases leaves.len(),
{
    if leaves.len() <= 1 {
        Seq::empty()
    } else {
        let sibling = if index % 2 == 0 {
            index as int + 1
        } else {
            index - 1
        };
        seq![node_or_placeholder(leaves, sibling)] + leaf_siblings::<H>(
            parent_level::<H>(leaves),
            index / 2,
        )
    }
}

/// Whether the path of a proof and the path of leaf `index` in the accumulator somewhere have
/// different pairs of nodes with the same hash.
pub open spec fn path_collides<H: CryptoHasher>(
    leaves: Seq<HashValue>,
    hash: HashValue,
    index: nat,
    siblings: Seq<HashValue>,
) -> bool
    decreases siblings.len(),
{
    siblings.len() > 0 && {
        let pair = sibling_pair(hash, index, siblings[0]);
        ||| collides::<H>(pair, pair_of_level(leaves, index as int / 2))
        ||| path_collides::<H>(
            parent_level::<H>(leaves),
            spec_pair_hash::<H>(pair.0, pair.1),
            index / 2,
            siblings.skip(1),
        )
    }
}

proof fn lemma_climb_leaf<H: CryptoHasher>(leaves: Seq<HashValue>, index: nat)
    requires
        index < leaves.len(),
    ensures
        climb::<H>(leaves[index as int], index, leaf_siblings::<H>(leaves, index))
            == accumulator_root::<H>(leaves),
        leaf_siblings::<H>(leaves, index).len() == accumulator_depth(leaves.len()),
    decreases leaves.len(),
{
    if leaves.len() > 1 {
        let parents = parent_level::<H>(leaves);
        let siblings = leaf_siblings::<H>(leaves, index);
        lemma_climb_leaf::<H>(parents, index / 2);
        assert(siblings.skip(1) =~= leaf_siblings::<H>(parents, index / 2));
        let (left, right) = sibling_pair(leaves[index as int], index, siblings[0]);
        assert((left, right) == pair_of_level(leaves, index as int / 2));
    }
}

proof fn lemma_climb_shows_leaf<H: CryptoHasher>(
    leaves: Seq<HashValue>,
    hash: HashValue,
    index: nat,
    siblings: Seq<HashValue>,
)
    requires
        index < leaves.len(),
        siblings.len() == accumulator_depth(leaves.len()),
        climb::<H>(hash, index, siblings) == accumulator_root::<H>(leaves),
        !path_collides::<H>(leaves, hash, index, siblings),
    ensures
        hash == leaves[index as int],
        siblings == leaf_siblings::<H>(leaves, index),
    decreases leaves.len(),
{
    if leaves.len() > 1 {
        let parents = parent_level::<H>(leaves);
        let pair = sibling_pair(hash, index, siblings[0]);
        lemma_climb_shows_leaf::<H>(
            parents,
            spec_pair_hash::<H>(pair.0, pair.1),
            index / 2,
            siblings.skip(1),
        );
        assert(pair == pair_of_level(leaves, index as int / 2));
        assert(siblings =~= seq![siblings[0]] + siblings.skip(1));
    } else {
        assert(siblings =~= Seq::empty());
    }
}

/// Every leaf of an accumulator can be proved: the proof that holds the siblings on its way to the
/// root verifies.
pub proof fn leaf_proof_verifies<H: CryptoHasher>(
    leaves: Seq<HashValue>,
    index: u64,
    p: AccumulatorProof<H>,
)
    requires
        leaves.len() <= MAX_ACCUMULATOR_LEAVES,
        index < leaves.len(),
        p@ == leaf_siblings::<H>(leaves, index as nat),
    ensures
        p.spec_verify(accumulator_root::<H>(leaves), leaves[index as int], index) is Ok,
{
    lemma_climb_leaf::<H>(leaves, index as nat);
    accumulator_depth_is_bounded(leaves.len());
}

/// An accumulator proof authenticates a leaf: if a proof with as many siblings as the accumulator
/// has levels verifies against its root hash, then the element is the leaf at that index, or the
/// proof shows a collision of the hash function.
pub proof fn verified_leaf_is_in_accumulator<H: CryptoHasher>(
    leaves: Seq<HashValue>,
    element_hash: HashValue,
    index: u64,
    p: AccumulatorProof<H>,
)
    requires
        index < leaves.len(),
        p@.len() == accumulator_depth(leaves.len()),
        p.spec_verify(accumulator_root::<H>(leaves), element_hash, index) is Ok,
    ensures
        element_hash == leaves[index as int] || path_collides::<H>(
            leaves,
            element_hash,
            index as nat,
            p@,
        ),
{
    if !path_collides::<H>(leaves, element_hash, index as nat, p@) {
        lemma_climb_shows_leaf::<H>(leaves, element_hash, index as nat, p@);
    }
}

// ---- A range of leaves ----

/// The siblings on the right of the path from the leaf before `end` to the root, the ones near the
/// root first.
pub open spec fn right_siblings_of<H: CryptoHasher>(leaves: Seq<HashValue>, end: nat) -> Seq<
    HashValue,
>
    decreases leaves.len(),
{
    if leaves.len() <= 1 {
        Seq::empty()
    } else {
        let above = right_siblings_of::<H>(parent_level::<H>(leaves), (end + 1) / 2);
        if end % 2 == 1 {
            above.push(node_or_placeholder(leaves, end as int))
        } else {
            above
        }
    }
}

/// The number of levels that a range of nodes is combined over, until one node is left and all
/// siblings are used.
pub open spec fn range_height(
    num_nodes: nat,
    first: nat,
    num_left: nat,
    num_right: nat,
) -> nat
    decreases num_nodes + num_left + num_right,
{
    let left: nat = if needs_left(first) {
        1
    } else {
        0
    };
    let right: nat = if needs_right(num_nodes, first) {
        1
    } else {
        0
    };
    if num_nodes == 0 || (num_nodes == 1 && num_left == 0 && num_right == 0) || left > num_left
        || right > num_right {
        0
    } else {
        1 + range_height(
            (num_nodes + left + right) / 2,
            first / 2,
            (num_left - left) as nat,
            (num_right - right) as nat,
        )
    }
}

/// Whether the pairs that a range proof makes and the pairs of the accumulator at the same places
/// somewhere differ and have the same hash.
pub open spec fn range_collides<H: CryptoHasher>(
    leaves: Seq<HashValue>,
    nodes: Seq<HashValue>,
    first: nat,
    left: Seq<HashValue>,
    right: Seq<HashValue>,
) -> bool
    decreases leaves.len(),
{
    leaves.len() > 1 && {
        let range = complete_range(nodes, first, left, right);
        ||| exists|i: int|
            0 <= i < range.len() as int / 2 && #[trigger] collides::<H>(
                (range[2 * i], range[2 * i + 1]),
                pair_of_level(leaves, first as int / 2 + i),
            )
        ||| range_collides::<H>(
            parent_level::<H>(leaves),
            full_pairs::<H>(range),
            first / 2,
            after_use(left, needs_left(first)),
            after_use(right, needs_right(nodes.len(), first)),
        )
    }
}

proof fn lemma_frozen_of_parents<H: CryptoHasher>(leaves: Seq<HashValue>, first: nat)
    requires
        first <= leaves.len(),
    ensures
        full_pairs::<H>(leaves.take(first as int)) == parent_level::<H>(leaves).take(
            first as int / 2,
        ),
{
    assert(full_pairs::<H>(leaves.take(first as int)) =~= parent_level::<H>(leaves).take(
        first as int / 2,
    ));
}

proof fn lemma_range_level<H: CryptoHasher>(
    leaves: Seq<HashValue>,
    first: nat,
    end: nat,
    left: Seq<HashValue>,
    right: Seq<HashValue>,
)
    requires
        first < end <= leaves.len(),
        needs_left(first) ==> left.last() == leaves[first - 1],
        end % 2 == 1 ==> right.last() == node_or_placeholder(leaves, end as int),
    ensures
        full_pairs::<H>(
            complete_range(leaves.subrange(first as int, end as int), first, left, right),
        ) == parent_level::<H>(leaves).subrange(first as int / 2, (end as int + 1) / 2),
{
    let nodes = leaves.subrange(first as int, end as int);
    let range = complete_range(nodes, first, left, right);
    let parents = parent_level::<H>(leaves).subrange(first as int / 2, (end as int + 1) / 2);
    let base = 2 * (first as int / 2);
    assert forall|k: int| 0 <= k < range.len() implies #[trigger] range[k] == node_or_placeholder(
        leaves,
        base + k,
    ) by {}
    let above = full_pairs::<H>(range);
    assert(above.len() == parents.len());
    assert forall|i: int| 0 <= i < above.len() implies above[i] == parents[i] by {
        assert(range[2 * i] == node_or_placeholder(leaves, base + 2 * i));
        assert(range[2 * i + 1] == node_or_placeholder(leaves, base + 2 * i + 1));
    }
    assert(above =~= parents);
}

proof fn lemma_range_root<H: CryptoHasher>(leaves: Seq<HashValue>, first: nat, end: nat)
    requires
        first < end <= leaves.len(),
    ensures
        range_root::<H>(
            leaves.subrange(first as int, end as int),
            first,
            frozen_roots::<H>(leaves.take(first as int)),
            right_siblings_of::<H>(leaves, end),
        ) == Ok::<HashValue, ProofError>(accumulator_root::<H>(leaves)),
        frozen_roots::<H>(leaves.take(first as int)).len() <= accumulator_depth(leaves.len()),
        right_siblings_of::<H>(leaves, end).len() <= accumulator_depth(leaves.len()),
    decreases leaves.len(),
{
    let nodes = leaves.subrange(first as int, end as int);
    let left = frozen_roots::<H>(leaves.take(first as int));
    let right = right_siblings_of::<H>(leaves, end);
    if leaves.len() == 1 {
        assert(leaves.take(0) =~= Seq::empty());
        assert(left.len() == 0 && right.len() == 0);
    } else {
        let parents = parent_level::<H>(leaves);
        lemma_frozen_of_parents::<H>(leaves, first);
        lemma_range_root::<H>(parents, first / 2, (end + 1) / 2);
        lemma_range_level::<H>(leaves, first, end, left, right);
        let upper_left = frozen_roots::<H>(parents.take(first as int / 2));
        let upper_right = right_siblings_of::<H>(parents, (end + 1) / 2);
        assert(after_use(left, needs_left(first)) =~= upper_left);
        assert(after_use(right, needs_right(nodes.len(), first)) =~= upper_right);
    }
}

proof fn lemma_level_shows_nodes<H: CryptoHasher>(
    leaves: Seq<HashValue>,
    nodes: Seq<HashValue>,
    first: nat,
    left: Seq<HashValue>,
    right: Seq<HashValue>,
)
    requires
        nodes.len() > 0,
        first + nodes.len() <= leaves.len(),
        needs_left(first) ==> left.len() > 0,
        needs_right(nodes.len(), first) ==> right.len() > 0,
        full_pairs::<H>(complete_range(nodes, first, left, right)) == parent_level::<H>(
            leaves,
        ).subrange(first as int / 2, (first + nodes.len() + 1) as int / 2),
        ({
            let range = complete_range(nodes, first, left, right);
            forall|i: int|
                0 <= i < range.len() as int / 2 ==> !#[trigger] collides::<H>(
                    (range[2 * i], range[2 * i + 1]),
                    pair_of_level(leaves, first as int / 2 + i),
                )
        }),
    ensures
        nodes == leaves.subrange(first as int, (first + nodes.len()) as int),
        needs_left(first) ==> left == left.drop_last().push(leaves[first - 1]),
        needs_right(nodes.len(), first) ==> right == right.drop_last().push(
            node_or_placeholder(leaves, (first + nodes.len()) as int),
        ),
{
    let range = complete_range(nodes, first, left, right);
    let above = full_pairs::<H>(range);
    let parents = parent_level::<H>(leaves);
    let base = 2 * (first as int / 2);
    let offset = first as int - base;
    assert forall|k: int| 0 <= k < range.len() implies #[trigger] range[k] == node_or_placeholder(
        leaves,
        base + k,
    ) by {
        let i = k / 2;
        assert(above[i] == parents[first as int / 2 + i]);
        assert(!collides::<H>(
            (range[2 * i], range[2 * i + 1]),
            pair_of_level(leaves, first as int / 2 + i),
        ));
    }
    assert forall|k: int| 0 <= k < nodes.len() implies nodes[k] == leaves[first + k] by {
        assert(range[k + offset] == nodes[k]);
    }
    assert(nodes =~= leaves.subrange(first as int, (first + nodes.len()) as int));
    if needs_left(first) {
        assert(range[0] == left.last());
        assert(left =~= left.drop_last().push(left.last()));
    }
    if needs_right(nodes.len(), first) {
        assert(range[range.len() - 1] == right.last());
        assert(right =~= right.drop_last().push(right.last()));
    }
}

proof fn lemma_range_shows_leaves<H: CryptoHasher>(
    leaves: Seq<HashValue>,
    nodes: Seq<HashValue>,
    first: nat,
    left: Seq<HashValue>,
    right: Seq<HashValue>,
)
    requires
        nodes.len() > 0,
        first + nodes.len() <= leaves.len(),
        range_height(nodes.len(), first, left.len(), right.len()) == accumulator_depth(
            leaves.len(),
        ),
        range_root::<H>(nodes, first, left, right) == Ok::<HashValue, ProofError>(
            accumulator_root::<H>(leaves),
        ),
        !range_collides::<H>(leaves, nodes, first, left, right),
    ensures
        nodes == leaves.subrange(first as int, (first + nodes.len()) as int),
        left == frozen_roots::<H>(leaves.take(first as int)),
        right == right_siblings_of::<H>(leaves, first + nodes.len()),
    decreases leaves.len(),
{
    let end = first + nodes.len();
    if leaves.len() == 1 {
        assert(leaves.take(0) =~= Seq::empty());
        assert(left =~= Seq::empty());
        assert(right =~= Seq::empty());
        assert(nodes =~= leaves.subrange(0, 1));
    } else {
        let parents = parent_level::<H>(leaves);
        let range = complete_range(nodes, first, left, right);
        let above = full_pairs::<H>(range);
        let upper_left = after_use(left, needs_left(first));
        let upper_right = after_use(right, needs_right(nodes.len(), first));
        lemma_frozen_of_parents::<H>(leaves, first);
        lemma_range_shows_leaves::<H>(parents, above, first / 2, upper_left, upper_right);
        assert forall|i: int| 0 <= i < range.len() as int / 2 implies !#[trigger] collides::<H>(
            (range[2 * i], range[2 * i + 1]),
            pair_of_level(leaves, first as int / 2 + i),
        ) by {}
        lemma_level_shows_nodes::<H>(leaves, nodes, first, left, right);
        assert(left =~= frozen_roots::<H>(leaves.take(first as int)));
        assert(right =~= right_siblings_of::<H>(leaves, end));
    }
}

/// Every range of leaves of an accumulator can be proved. The left side of the proof is made of the
/// frozen subtree roots of the accumulator right before the range, from left to right.
pub proof fn range_proof_verifies<H: CryptoHasher>(
    leaves: Seq<HashValue>,
    first: u64,
    end: nat,
    p: AccumulatorRangeProof<H>,
)
    requires
        leaves.len() <= MAX_ACCUMULATOR_LEAVES,
        first < end <= leaves.len(),
        p.spec_left_siblings() == frozen_roots::<H>(leaves.take(first as int)),
        p.spec_right_siblings() == right_siblings_of::<H>(leaves, end),
    ensures
        p.spec_verify(
            accumulator_root::<H>(leaves),
            Some(first),
            leaves.subrange(first as int, end as int),
        ) is Ok,
{
    lemma_range_root::<H>(leaves, first as nat, end);
    accumulator_depth_is_bounded(leaves.len());
}

/// A range proof authenticates a range of leaves: if a proof that is combined over as many levels
/// as the accumulator has verifies against its root hash, then the hashes are the leaves of that
/// range and the left siblings are the frozen subtree roots right before it, or the proof shows a
/// collision of the hash function.
pub proof fn verified_range_is_in_accumulator<H: CryptoHasher>(
    leaves: Seq<HashValue>,
    first: u64,
    leaf_hashes: Seq<HashValue>,
    p: AccumulatorRangeProof<H>,
)
    requires
        first + leaf_hashes.len() <= leaves.len(),
        range_height(
            leaf_hashes.len(),
            first as nat,
            p.spec_left_siblings().len(),
            p.spec_right_siblings().len(),
        ) == accumulator_depth(leaves.len()),
        p.spec_verify(accumulator_root::<H>(leaves), Some(first), leaf_hashes) is Ok,
    ensures
        ({
            &&& leaf_hashes == leaves.subrange(first as int, first + leaf_hashes.len())
            &&& p.spec_left_siblings() == frozen_roots::<H>(leaves.take(first as int))
        }) || range_collides::<H>(
            leaves,
            leaf_hashes,
            first as nat,
            p.spec_left_siblings(),
            p.spec_right_siblings(),
        ),
{
    let left = p.spec_left_siblings();
    let right = p.spec_right_siblings();
    if !range_collides::<H>(leaves, leaf_hashes, first as nat, left, right) {
        lemma_range_shows_leaves::<H>(leaves, leaf_hashes, first as nat, left, right);
    }
}

/// The proof that has no siblings shows the empty list of leaves, and no other list.
pub proof fn empty_range_proof<H: CryptoHasher>(
    expected_root_hash: HashValue,
    leaf_hashes: Seq<HashValue>,
    p: AccumulatorRangeProof<H>,
)
    requires
        p.spec_left_siblings().len() == 0,
        p.spec_right_siblings().len() == 0,
    ensures
        p.spec_verify(expected_root_hash, None, leaf_hashes) is Ok <==> leaf_hashes.len() == 0,
{
}

} // verus!
