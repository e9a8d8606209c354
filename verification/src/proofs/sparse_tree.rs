//! The mathematical model of a sparse Merkle tree, and what proofs show about it.

use vstd::prelude::*;
use crate::crypto::hash::{CryptoHash, HashValue, LENGTH_IN_BITS};
use crate::proofs::collision::{nodes_collide, nodes_with_same_hash_collide, SparseNode};
use crate::proofs::error::ProofError;
use crate::proofs::node::SparseMerkleLeafNode;
use crate::proofs::sparse::{
    sparse_children, sparse_climb, sparse_leaf_hash, sparse_node_hash, sparse_range_climb,
    SparseMerkleProof, SparseMerkleRangeProof,
};

verus! {

/// A sparse Merkle tree. The bits of a key lead from the root to the place of its leaf: a zero bit
/// to the left, a one bit to the right. A subtree that holds a single leaf is that leaf.
pub enum SparseTree {
    Empty,
    Leaf(SparseMerkleLeafNode),
    Internal(Box<SparseTree>, Box<SparseTree>),
}

broadcast use nodes_with_same_hash_collide;

impl SparseTree {
    /// The root node.
    pub open spec fn node(self) -> SparseNode
        decreases self, 0nat,
    {
        match self {
            SparseTree::Empty => SparseNode::Empty,
            SparseTree::Leaf(leaf) => SparseNode::Leaf(leaf),
            SparseTree::Internal(left, right) => SparseNode::Internal(
                left.root_hash(),
                right.root_hash(),
            ),
        }
    }

    /// The root hash.
    pub open spec fn root_hash(self) -> HashValue
        decreases self, 1nat,
    {
        self.node().hash()
    }

    /// Whether the leaf is in the tree.
    pub open spec fn has_leaf(self, leaf: SparseMerkleLeafNode) -> bool
        decreases self,
    {
        match self {
            SparseTree::Empty => false,
            SparseTree::Leaf(other) => leaf == other,
            SparseTree::Internal(left, right) => left.has_leaf(leaf) || right.has_leaf(leaf),
        }
    }

    /// Whether every leaf of the tree is at the place where the bits of its key lead to, when the
    /// root is at the end of `path`.
    pub open spec fn well_placed(self, path: Seq<bool>) -> bool
        decreases self,
    {
        match self {
            SparseTree::Empty => true,
            SparseTree::Leaf(leaf) => follows(leaf.key, path),
            SparseTree::Internal(left, right) => {
                &&& path.len() < LENGTH_IN_BITS
                &&& left.well_placed(path.push(false))
                &&& right.well_placed(path.push(true))
            },
        }
    }

    /// The child of an internal node on the way of `key`, and the other one.
    pub open spec fn children_for(self, key: HashValue, depth: int) -> (SparseTree, SparseTree)
        recommends
            self is Internal,
    {
        match self {
            SparseTree::Internal(left, right) => if key.spec_bit(depth) {
                (*right, *left)
            } else {
                (*left, *right)
            },
            _ => (self, self),
        }
    }

    /// The leaf where the way of `key` ends, if there is one.
    pub open spec fn leaf_for(self, key: HashValue, depth: int) -> Option<SparseMerkleLeafNode>
        decreases self,
    {
        match self {
            SparseTree::Empty => None,
            SparseTree::Leaf(leaf) => Some(leaf),
            SparseTree::Internal(left, right) => if key.spec_bit(depth) {
                right.leaf_for(key, depth + 1)
            } else {
                left.leaf_for(key, depth + 1)
            },
        }
    }

    /// The siblings of the nodes on the way of `key`, from the bottom level to the root level.
    pub open spec fn siblings_for(self, key: HashValue, depth: int) -> Seq<HashValue>
        decreases self,
    {
        match self {
            SparseTree::Empty => Seq::empty(),
            SparseTree::Leaf(leaf) => Seq::empty(),
            SparseTree::Internal(left, right) => if key.spec_bit(depth) {
                right.siblings_for(key, depth + 1).push(left.root_hash())
            } else {
                left.siblings_for(key, depth + 1).push(right.root_hash())
            },
        }
    }

    /// The hash of the value that the tree holds under `key`, if there is one.
    pub open spec fn value_of(self, key: HashValue) -> Option<HashValue> {
        match self.leaf_for(key, 0) {
            Some(leaf) => if leaf.key == key {
                Some(leaf.value_hash)
            } else {
                None
            },
            None => None,
        }
    }
}

/// Whether the first bits of `key` are `path`.
pub open spec fn follows(key: HashValue, path: Seq<bool>) -> bool {
    forall|i: int| 0 <= i < path.len() ==> key.spec_bit(i) == #[trigger] path[i]
}

/// Like `sparse_climb`, up to a node at depth `base`.
pub open spec fn climb_to(
    key: HashValue,
    hash: HashValue,
    siblings: Seq<HashValue>,
    base: int,
) -> HashValue
    decreases siblings.len(),
{
    if siblings.len() == 0 {
        hash
    } else {
        let (left, right) = sparse_children(key, base, climb_to(
            key,
            hash,
            siblings.drop_last(),
            base + 1,
        ), siblings.last());
        sparse_node_hash(left, right)
    }
}

/// The first step of `climb_to` may be made first.
proof fn lemma_climb_first(
    key: HashValue,
    hash: HashValue,
    siblings: Seq<HashValue>,
    base: int,
)
    requires
        siblings.len() > 0,
    ensures
        ({
            let (left, right) = sparse_children(
                key,
                base + siblings.len() - 1,
                hash,
                siblings[0],
            );
            climb_to(key, hash, siblings, base) == climb_to(
                key,
                sparse_node_hash(left, right),
                siblings.skip(1),
                base,
            )
        }),
    decreases siblings.len(),
{
    let rest = siblings.skip(1);
    if siblings.len() == 1 {
        assert(climb_to(key, hash, siblings.drop_last(), base + 1) == hash);
        assert(siblings.last() == siblings[0]);
    } else {
        lemma_climb_first(key, hash, siblings.drop_last(), base + 1);
        assert(siblings.drop_last().skip(1) =~= rest.drop_last());
        assert(siblings.drop_last()[0] == siblings[0]);
        assert(rest.last() == siblings.last());
    }
}

/// Climbing up is the same from both ends.
proof fn lemma_climb_to(key: HashValue, hash: HashValue, siblings: Seq<HashValue>)
    ensures
        sparse_climb(key, hash, siblings) == climb_to(key, hash, siblings, 0),
    decreases siblings.len(),
{
    if siblings.len() > 0 {
        let (left, right) = sparse_children(key, siblings.len() - 1, hash, siblings[0]);
        lemma_climb_first(key, hash, siblings, 0);
        lemma_climb_to(key, sparse_node_hash(left, right), siblings.skip(1));
    }
}

/// The top node of a proof, up to depth `base`.
pub open spec fn proof_node(
    key: HashValue,
    leaf: Option<SparseMerkleLeafNode>,
    siblings: Seq<HashValue>,
    base: int,
) -> SparseNode {
    if siblings.len() == 0 {
        match leaf {
            Some(leaf) => SparseNode::Leaf(leaf),
            None => SparseNode::Empty,
        }
    } else {
        let (left, right) = sparse_children(key, base, climb_to(
            key,
            sparse_leaf_hash(leaf),
            siblings.drop_last(),
            base + 1,
        ), siblings.last());
        SparseNode::Internal(left, right)
    }
}

/// Whether the path of a proof and the way of `key` in the tree somewhere have different nodes with
/// the same hash.
pub open spec fn sparse_path_collides(
    tree: SparseTree,
    key: HashValue,
    leaf: Option<SparseMerkleLeafNode>,
    siblings: Seq<HashValue>,
    base: int,
) -> bool
    decreases siblings.len(),
{
    let top = proof_node(key, leaf, siblings, base);
    ||| nodes_collide(top, tree.node())
    ||| siblings.len() > 0 && tree is Internal && sparse_path_collides(
        tree.children_for(key, base).0,
        key,
        leaf,
        siblings.drop_last(),
        base + 1,
    )
}

/// The proof that is made from the way of `key` leads to the root hash.
proof fn lemma_climb_tree(tree: SparseTree, key: HashValue, base: int)
    ensures
        climb_to(
            key,
            sparse_leaf_hash(tree.leaf_for(key, base)),
            tree.siblings_for(key, base),
            base,
        ) == tree.root_hash(),
    decreases tree,
{
    match tree {
        SparseTree::Internal(left, right) => {
            let siblings = tree.siblings_for(key, base);
            if key.spec_bit(base) {
                lemma_climb_tree(*right, key, base + 1);
                assert(siblings.drop_last() =~= right.siblings_for(key, base + 1));
            } else {
                lemma_climb_tree(*left, key, base + 1);
                assert(siblings.drop_last() =~= left.siblings_for(key, base + 1));
            }
        },
        _ => {},
    }
}

/// A proof that leads to the root hash is the one that is made from the way of `key`.
proof fn lemma_climb_shows_way(
    tree: SparseTree,
    key: HashValue,
    leaf: Option<SparseMerkleLeafNode>,
    siblings: Seq<HashValue>,
    base: int,
)
    requires
        climb_to(key, sparse_leaf_hash(leaf), siblings, base) == tree.root_hash(),
        !sparse_path_collides(tree, key, leaf, siblings, base),
    ensures
        leaf == tree.leaf_for(key, base),
        siblings == tree.siblings_for(key, base),
    decreases siblings.len(),
{
    let top = proof_node(key, leaf, siblings, base);
    assert(top.hash() == tree.node().hash());
    assert(top == tree.node());
    if siblings.len() == 0 {
        assert(siblings =~= Seq::empty());
    } else {
        let (child, sibling) = tree.children_for(key, base);
        lemma_climb_shows_way(child, key, leaf, siblings.drop_last(), base + 1);
        assert(siblings =~= siblings.drop_last().push(siblings.last()));
    }
}

/// In a tree whose leaves are at their places, no way is longer than a key has bits.
proof fn lemma_siblings_bound(tree: SparseTree, key: HashValue, path: Seq<bool>)
    requires
        tree.well_placed(path),
        path.len() <= LENGTH_IN_BITS,
    ensures
        tree.siblings_for(key, path.len() as int).len() + path.len() <= LENGTH_IN_BITS,
    decreases tree,
{
    match tree {
        SparseTree::Internal(left, right) => {
            lemma_siblings_bound(*left, key, path.push(false));
            lemma_siblings_bound(*right, key, path.push(true));
        },
        _ => {},
    }
}

/// All leaves below a place have keys that lead there.
proof fn lemma_leaf_follows(tree: SparseTree, path: Seq<bool>, leaf: SparseMerkleLeafNode)
    requires
        tree.well_placed(path),
        tree.has_leaf(leaf),
    ensures
        follows(leaf.key, path),
    decreases tree,
{
    match tree {
        SparseTree::Internal(left, right) => {
            if left.has_leaf(leaf) {
                lemma_leaf_follows(*left, path.push(false), leaf);
                assert forall|i: int| 0 <= i < path.len() implies leaf.key.spec_bit(i)
                    == #[trigger] path[i] by {
                    assert(path.push(false)[i] == path[i]);
                }
            } else {
                lemma_leaf_follows(*right, path.push(true), leaf);
                assert forall|i: int| 0 <= i < path.len() implies leaf.key.spec_bit(i)
                    == #[trigger] path[i] by {
                    assert(path.push(true)[i] == path[i]);
                }
            }
        },
        _ => {},
    }
}

/// In a tree whose leaves are at their places, a leaf is found on the way of its key.
proof fn lemma_leaf_is_on_its_way(
    tree: SparseTree,
    path: Seq<bool>,
    leaf: SparseMerkleLeafNode,
)
    requires
        tree.well_placed(path),
    ensures
        tree.has_leaf(leaf) <==> tree.leaf_for(leaf.key, path.len() as int) == Some(leaf),
    decreases tree,
{
    match tree {
        SparseTree::Internal(left, right) => {
            let depth = path.len() as int;
            lemma_leaf_is_on_its_way(*left, path.push(false), leaf);
            lemma_leaf_is_on_its_way(*right, path.push(true), leaf);
            if left.has_leaf(leaf) {
                lemma_leaf_follows(*left, path.push(false), leaf);
                assert(path.push(false)[depth] == false);
            }
            if right.has_leaf(leaf) {
                lemma_leaf_follows(*right, path.push(true), leaf);
                assert(path.push(true)[depth] == true);
            }
        },
        _ => {},
    }
}

/// The leaf where the way of a key ends has the same bits as the key as far as the way is long.
proof fn lemma_leaf_shares_prefix(tree: SparseTree, key: HashValue, path: Seq<bool>)
    requires
        tree.well_placed(path),
        follows(key, path),
        tree.leaf_for(key, path.len() as int) is Some,
    ensures
        key.same_prefix(
            tree.leaf_for(key, path.len() as int).unwrap().key,
            (path.len() + tree.siblings_for(key, path.len() as int).len()) as int,
        ),
    decreases tree,
{
    match tree {
        SparseTree::Internal(left, right) => {
            let depth = path.len() as int;
            let longer = path.push(key.spec_bit(depth));
            assert(follows(key, longer));
            if key.spec_bit(depth) {
                lemma_leaf_shares_prefix(*right, key, longer);
            } else {
                lemma_leaf_shares_prefix(*left, key, longer);
            }
        },
        SparseTree::Leaf(leaf) => {
            assert forall|i: int| 0 <= i < path.len() implies key.spec_bit(i)
                == #[trigger] leaf.key.spec_bit(i) by {
                assert(key.spec_bit(i) == path[i] && leaf.key.spec_bit(i) == path[i]);
            }
        },
        SparseTree::Empty => {},
    }
}

/// Every key can be proved to be in the tree with its value, or not to be in it: the proof that is
/// made from the way of the key verifies.
pub proof fn sparse_proof_verifies(tree: SparseTree, key: HashValue, p: SparseMerkleProof)
    requires
        tree.well_placed(Seq::empty()),
        p.spec_leaf() == tree.leaf_for(key, 0),
        p.spec_siblings() == tree.siblings_for(key, 0),
    ensures
        p.spec_verify_by_hash(tree.root_hash(), key, tree.value_of(key)) is Ok,
{
    lemma_climb_tree(tree, key, 0);
    lemma_climb_to(key, sparse_leaf_hash(p.spec_leaf()), p.spec_siblings());
    lemma_siblings_bound(tree, key, Seq::empty());
    if p.spec_leaf() is Some {
        lemma_leaf_shares_prefix(tree, key, Seq::empty());
    }
}

/// An inclusion proof authenticates a value: if it verifies against the root hash of a tree, then
/// the tree has a leaf with that key and value, or the proof shows a collision.
pub proof fn verified_inclusion_is_in_tree(
    tree: SparseTree,
    key: HashValue,
    value_hash: HashValue,
    p: SparseMerkleProof,
)
    requires
        tree.well_placed(Seq::empty()),
        p.spec_verify_by_hash(tree.root_hash(), key, Some(value_hash)) is Ok,
    ensures
        ({
            &&& tree.has_leaf(SparseMerkleLeafNode { key, value_hash })
            &&& tree.value_of(key) == Some(value_hash)
        }) || sparse_path_collides(tree, key, p.spec_leaf(), p.spec_siblings(), 0),
{
    let leaf = p.spec_leaf();
    let siblings = p.spec_siblings();
    if !sparse_path_collides(tree, key, leaf, siblings, 0) {
        lemma_climb_to(key, sparse_leaf_hash(leaf), siblings);
        lemma_climb_shows_way(tree, key, leaf, siblings, 0);
        lemma_leaf_is_on_its_way(tree, Seq::empty(), SparseMerkleLeafNode { key, value_hash });
    }
}

/// A non-inclusion proof shows that a key does not exist: if it verifies against the root hash of a
/// tree, then the tree has no leaf with that key, or the proof shows a collision.
pub proof fn verified_exclusion_is_not_in_tree(
    tree: SparseTree,
    key: HashValue,
    p: SparseMerkleProof,
)
    requires
        tree.well_placed(Seq::empty()),
        p.spec_verify_by_hash(tree.root_hash(), key, None) is Ok,
    ensures
        ({
            &&& forall|leaf: SparseMerkleLeafNode| #[trigger]
                tree.has_leaf(leaf) ==> leaf.key != key
            &&& tree.value_of(key) is None
        }) || sparse_path_collides(tree, key, p.spec_leaf(), p.spec_siblings(), 0),
{
    let leaf = p.spec_leaf();
    let siblings = p.spec_siblings();
    if !sparse_path_collides(tree, key, leaf, siblings, 0) {
        lemma_climb_to(key, sparse_leaf_hash(leaf), siblings);
        lemma_climb_shows_way(tree, key, leaf, siblings, 0);
        assert forall|other: SparseMerkleLeafNode| #[trigger]
            tree.has_leaf(other) implies other.key != key by {
            lemma_leaf_is_on_its_way(tree, Seq::empty(), other);
        }
    }
}

// ---- The left part of a tree ----

/// Whether `a` is left of `b`: at the first bit where they differ, `a` has a zero.
pub open spec fn left_of(a: HashValue, b: HashValue) -> bool {
    exists|d: int| 0 <= d < LENGTH_IN_BITS && #[trigger] splits_at(a, b, d)
}

/// Whether the first bit where `a` and `b` differ is bit `d`, and `a` has a zero there.
pub open spec fn splits_at(a: HashValue, b: HashValue, d: int) -> bool {
    a.same_prefix(b, d) && !a.spec_bit(d) && b.spec_bit(d)
}

/// Those of the siblings on the way of `key` that are on one side of it: on the left where `bit` is
/// true, as the way then goes to the right.
pub open spec fn one_side(key: HashValue, siblings: Seq<HashValue>, bit: bool) -> Seq<HashValue>
    decreases siblings.len(),
{
    if siblings.len() == 0 {
        Seq::empty()
    } else {
        let rest = one_side(key, siblings.skip(1), bit);
        if key.spec_bit(siblings.len() - 1) == bit {
            seq![siblings[0]] + rest
        } else {
            rest
        }
    }
}

/// All siblings on the way of `key`, given those on the left and those on the right of it.
pub open spec fn both_sides(key: HashValue, left: Seq<HashValue>, right: Seq<HashValue>) -> Option<
    Seq<HashValue>,
>
    decreases left.len() + right.len(),
{
    if left.len() + right.len() == 0 {
        Some(Seq::empty())
    } else {
        let bit = key.spec_bit(left.len() + right.len() - 1);
        if bit && left.len() > 0 {
            match both_sides(key, left.skip(1), right) {
                Some(rest) => Some(seq![left[0]] + rest),
                None => None,
            }
        } else if !bit && right.len() > 0 {
            match both_sides(key, left, right.skip(1)) {
                Some(rest) => Some(seq![right[0]] + rest),
                None => None,
            }
        } else {
            None
        }
    }
}

/// Climbing up with left and right siblings is climbing up with both of them put together.
proof fn lemma_range_climb(
    key: HashValue,
    hash: HashValue,
    left: Seq<HashValue>,
    right: Seq<HashValue>,
)
    ensures
        match both_sides(key, left, right) {
            None => sparse_range_climb(key, hash, left, right) is Err,
            Some(siblings) => {
                &&& siblings.len() == left.len() + right.len()
                &&& one_side(key, siblings, true) == left
                &&& one_side(key, siblings, false) == right
                &&& sparse_range_climb(key, hash, left, right) == Ok::<HashValue, ProofError>(
                    sparse_climb(key, hash, siblings),
                )
            },
        },
    decreases left.len() + right.len(),
{
    let total = left.len() + right.len();
    if total == 0 {
        assert(left =~= Seq::empty() && right =~= Seq::empty());
    } else {
        let bit = key.spec_bit(total - 1);
        if bit && left.len() > 0 {
            lemma_range_climb(key, sparse_node_hash(left[0], hash), left.skip(1), right);
            if let Some(rest) = both_sides(key, left.skip(1), right) {
                let siblings = seq![left[0]] + rest;
                assert(siblings.skip(1) =~= rest);
                assert(left =~= seq![left[0]] + left.skip(1));
            }
        } else if !bit && right.len() > 0 {
            lemma_range_climb(key, sparse_node_hash(hash, right[0]), left, right.skip(1));
            if let Some(rest) = both_sides(key, left, right.skip(1)) {
                let siblings = seq![right[0]] + rest;
                assert(siblings.skip(1) =~= rest);
                assert(right =~= seq![right[0]] + right.skip(1));
            }
        }
    }
}

/// Taking siblings apart and putting them together again changes nothing.
proof fn lemma_both_sides(key: HashValue, siblings: Seq<HashValue>)
    ensures
        one_side(key, siblings, true).len() + one_side(key, siblings, false).len()
            == siblings.len(),
        both_sides(key, one_side(key, siblings, true), one_side(key, siblings, false)) == Some(
            siblings,
        ),
    decreases siblings.len(),
{
    if siblings.len() == 0 {
        assert(siblings =~= Seq::empty());
    } else {
        let rest = siblings.skip(1);
        lemma_both_sides(key, rest);
        let left = one_side(key, rest, true);
        let right = one_side(key, rest, false);
        assert((seq![siblings[0]] + left).skip(1) =~= left);
        assert((seq![siblings[0]] + right).skip(1) =~= right);
        assert(siblings =~= seq![siblings[0]] + rest);
    }
}

impl SparseTree {
    /// The subtrees on the left of the way of `key`, from the bottom level to the root level.
    pub open spec fn left_subtrees(self, key: HashValue, depth: int) -> Seq<SparseTree>
        decreases self,
    {
        match self {
            SparseTree::Internal(left, right) => if key.spec_bit(depth) {
                right.left_subtrees(key, depth + 1).push(*left)
            } else {
                left.left_subtrees(key, depth + 1)
            },
            _ => Seq::empty(),
        }
    }
}

/// The hashes of some trees.
pub open spec fn root_hashes(trees: Seq<SparseTree>) -> Seq<HashValue> {
    trees.map_values(|tree: SparseTree| tree.root_hash())
}

/// Whether one of the trees has the leaf.
pub open spec fn some_has_leaf(trees: Seq<SparseTree>, leaf: SparseMerkleLeafNode) -> bool {
    exists|i: int| 0 <= i < trees.len() && #[trigger] trees[i].has_leaf(leaf)
}

/// One more sibling at the root level is on its side of the way.
proof fn lemma_one_side_push(
    key: HashValue,
    siblings: Seq<HashValue>,
    last: HashValue,
    base: int,
    bit: bool,
)
    ensures
        one_side_at(key, siblings.push(last), base, bit) == if key.spec_bit(base) == bit {
            one_side_at(key, siblings, base + 1, bit).push(last)
        } else {
            one_side_at(key, siblings, base + 1, bit)
        },
{
    assert(siblings.push(last).drop_last() =~= siblings);
}

/// Like `one_side`, for the siblings below a node at depth `base`.
pub open spec fn one_side_at(
    key: HashValue,
    siblings: Seq<HashValue>,
    base: int,
    bit: bool,
) -> Seq<HashValue>
    decreases siblings.len(),
{
    if siblings.len() == 0 {
        Seq::empty()
    } else {
        let below = one_side_at(key, siblings.drop_last(), base + 1, bit);
        if key.spec_bit(base) == bit {
            below.push(siblings.last())
        } else {
            below
        }
    }
}

/// The lowest sibling comes first on its side.
proof fn lemma_one_side_first(key: HashValue, siblings: Seq<HashValue>, base: int, bit: bool)
    requires
        siblings.len() > 0,
    ensures
        one_side_at(key, siblings, base, bit) == if key.spec_bit(base + siblings.len() - 1) == bit {
            seq![siblings[0]] + one_side_at(key, siblings.skip(1), base, bit)
        } else {
            one_side_at(key, siblings.skip(1), base, bit)
        },
    decreases siblings.len(),
{
    let rest = siblings.skip(1);
    if siblings.len() == 1 {
        assert(one_side_at(key, siblings.drop_last(), base + 1, bit) =~= Seq::empty());
        assert(one_side_at(key, rest, base, bit) =~= Seq::empty());
        assert(one_side_at(key, siblings, base, bit) =~= if key.spec_bit(base) == bit {
            seq![siblings[0]]
        } else {
            Seq::empty()
        });
        assert(seq![siblings[0]] + Seq::<HashValue>::empty() =~= seq![siblings[0]]);
    } else {
        lemma_one_side_first(key, siblings.drop_last(), base + 1, bit);
        assert(siblings.drop_last().skip(1) =~= rest.drop_last());
        assert(siblings.drop_last()[0] == siblings[0]);
        assert(rest.last() == siblings.last());
        let below = one_side_at(key, rest.drop_last(), base + 1, bit);
        assert((seq![siblings[0]] + below).push(siblings.last()) =~= seq![siblings[0]]
            + below.push(siblings.last()));
    }
}

/// Both ways to take one side of the siblings are the same.
proof fn lemma_one_side_at(key: HashValue, siblings: Seq<HashValue>, bit: bool)
    ensures
        one_side(key, siblings, bit) == one_side_at(key, siblings, 0, bit),
    decreases siblings.len(),
{
    if siblings.len() > 0 {
        lemma_one_side_first(key, siblings, 0, bit);
        lemma_one_side_at(key, siblings.skip(1), bit);
    }
}

/// The siblings on the left of a way are the root hashes of the subtrees on the left of it.
proof fn lemma_left_subtrees(tree: SparseTree, key: HashValue, base: int)
    ensures
        one_side_at(key, tree.siblings_for(key, base), base, true) == root_hashes(
            tree.left_subtrees(key, base),
        ),
    decreases tree,
{
    match tree {
        SparseTree::Internal(left, right) => {
            if key.spec_bit(base) {
                let below = right.siblings_for(key, base + 1);
                lemma_left_subtrees(*right, key, base + 1);
                lemma_one_side_push(key, below, left.root_hash(), base, true);
                assert(root_hashes(tree.left_subtrees(key, base)) =~= root_hashes(
                    right.left_subtrees(key, base + 1),
                ).push(left.root_hash()));
            } else {
                let below = left.siblings_for(key, base + 1);
                lemma_left_subtrees(*left, key, base + 1);
                lemma_one_side_push(key, below, right.root_hash(), base, true);
            }
        },
        _ => {
            assert(root_hashes(tree.left_subtrees(key, base)) =~= Seq::empty());
        },
    }
}

/// The subtrees on the left of the way of a leaf hold the leaves that are left of it.
proof fn lemma_left_leaves(
    tree: SparseTree,
    path: Seq<bool>,
    leaf: SparseMerkleLeafNode,
    other: SparseMerkleLeafNode,
)
    requires
        tree.well_placed(path),
        path.len() <= LENGTH_IN_BITS,
        follows(leaf.key, path),
        tree.leaf_for(leaf.key, path.len() as int) == Some(leaf),
    ensures
        some_has_leaf(tree.left_subtrees(leaf.key, path.len() as int), other) <==> tree.has_leaf(
            other,
        ) && left_of(other.key, leaf.key),
    decreases tree,
{
    let depth = path.len() as int;
    let key = leaf.key;
    let trees = tree.left_subtrees(key, depth);
    match tree {
        SparseTree::Internal(left, right) => {
            if left.has_leaf(other) {
                lemma_leaf_follows(*left, path.push(false), other);
                assert(path.push(false)[depth] == false);
                assert(!other.key.spec_bit(depth));
                lemma_same_path(other.key, key, path, false);
            }
            if right.has_leaf(other) {
                lemma_leaf_follows(*right, path.push(true), other);
                assert(path.push(true)[depth] == true);
                assert(other.key.spec_bit(depth));
                lemma_same_path(other.key, key, path, true);
            }
            let longer = path.push(key.spec_bit(depth));
            assert(follows(key, longer));
            if key.spec_bit(depth) {
                let below = right.left_subtrees(key, depth + 1);
                lemma_left_leaves(*right, longer, leaf, other);
                assert(trees[below.len() as int] == *left);
                assert forall|i: int| 0 <= i < below.len() implies trees[i] == below[i] by {}
                if left.has_leaf(other) {
                    assert(splits_at(other.key, key, depth));
                    assert(trees[below.len() as int].has_leaf(other));
                }
                if some_has_leaf(below, other) {
                    let i = choose|i: int| 0 <= i < below.len() && below[i].has_leaf(other);
                    assert(trees[i].has_leaf(other));
                }
                if some_has_leaf(trees, other) && !left.has_leaf(other) {
                    let i = choose|i: int| 0 <= i < trees.len() && trees[i].has_leaf(other);
                    assert(below[i].has_leaf(other));
                }
            } else {
                lemma_left_leaves(*left, longer, leaf, other);
                if right.has_leaf(other) && left_of(other.key, key) {
                    let d = choose|d: int| 0 <= d < LENGTH_IN_BITS && splits_at(other.key, key, d);
                    assert(d > depth);
                    assert(other.key.spec_bit(depth) == key.spec_bit(depth));
                }
            }
        },
        _ => {
            assert(!left_of(leaf.key, leaf.key));
        },
    }
}

/// Keys that lead to the same place have the same first bits.
proof fn lemma_same_path(a: HashValue, b: HashValue, path: Seq<bool>, bit: bool)
    requires
        follows(a, path.push(bit)),
        follows(b, path),
    ensures
        a.same_prefix(b, path.len() as int),
{
    assert forall|i: int| 0 <= i < path.len() implies a.spec_bit(i) == #[trigger] b.spec_bit(i) by {
        assert(path.push(bit)[i] == path[i]);
    }
}

/// The left part of a tree up to any leaf can be proved: the proof that holds the siblings on the
/// right of the way of that leaf verifies with the siblings on the left of it.
pub proof fn sparse_range_proof_verifies(
    tree: SparseTree,
    leaf: SparseMerkleLeafNode,
    left_siblings: Seq<HashValue>,
    p: SparseMerkleRangeProof,
)
    requires
        tree.well_placed(Seq::empty()),
        tree.has_leaf(leaf),
        left_siblings == one_side(leaf.key, tree.siblings_for(leaf.key, 0), true),
        p@ == one_side(leaf.key, tree.siblings_for(leaf.key, 0), false),
    ensures
        p.spec_verify(tree.root_hash(), leaf, left_siblings) is Ok,
        left_siblings.len() + p@.len() <= LENGTH_IN_BITS,
{
    let siblings = tree.siblings_for(leaf.key, 0);
    lemma_leaf_is_on_its_way(tree, Seq::empty(), leaf);
    lemma_climb_tree(tree, leaf.key, 0);
    lemma_climb_to(leaf.key, leaf.spec_hash(), siblings);
    lemma_both_sides(leaf.key, siblings);
    lemma_range_climb(leaf.key, leaf.spec_hash(), left_siblings, p@);
    lemma_siblings_bound(tree, leaf.key, Seq::empty());
}

/// A range proof authenticates the entire left part of a tree up to the rightmost known leaf: if it
/// verifies against the root hash of a tree, then the leaf is in the tree, and the left siblings
/// are the root hashes of subtrees that hold exactly the leaves on the left of it, or the proof
/// shows a collision.
pub proof fn verified_left_part_is_in_tree(
    tree: SparseTree,
    leaf: SparseMerkleLeafNode,
    left_siblings: Seq<HashValue>,
    p: SparseMerkleRangeProof,
)
    requires
        tree.well_placed(Seq::empty()),
        p.spec_verify(tree.root_hash(), leaf, left_siblings) is Ok,
    ensures
        ({
            let trees = tree.left_subtrees(leaf.key, 0);
            &&& tree.has_leaf(leaf)
            &&& left_siblings == root_hashes(trees)
            &&& forall|other: SparseMerkleLeafNode| #[trigger]
                some_has_leaf(trees, other) <==> tree.has_leaf(other) && left_of(
                    other.key,
                    leaf.key,
                )
        }) || sparse_path_collides(
            tree,
            leaf.key,
            Some(leaf),
            both_sides(leaf.key, left_siblings, p@).unwrap(),
            0,
        ),
{
    let key = leaf.key;
    let siblings = both_sides(key, left_siblings, p@).unwrap();
    lemma_range_climb(key, leaf.spec_hash(), left_siblings, p@);
    if !sparse_path_collides(tree, key, Some(leaf), siblings, 0) {
        lemma_climb_to(key, leaf.spec_hash(), siblings);
        lemma_climb_shows_way(tree, key, Some(leaf), siblings, 0);
        lemma_leaf_is_on_its_way(tree, Seq::empty(), leaf);
        lemma_one_side_at(key, siblings, true);
        lemma_left_subtrees(tree, key, 0);
        assert forall|other: SparseMerkleLeafNode| #[trigger]
            some_has_leaf(tree.left_subtrees(key, 0), other) <==> tree.has_leaf(other) && left_of(
                other.key,
                key,
            ) by {
            lemma_left_leaves(tree, Seq::empty(), leaf, other);
        }
    }
}

} // verus!
