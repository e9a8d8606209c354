//! Collisions: different nodes of a Merkle tree that have the same hash.
//!
//! A collision is stated between the byte strings that are hashed.

use vstd::prelude::*;
use vstd::utf8::{encode_utf8, is_ascii_chars_encode_utf8};
use crate::crypto::hash::{
    sha3_256, sha3_collides, spec_domain_seed, spec_sparse_merkle_placeholder, CryptoHash,
    CryptoHasher, HashValue, SparseMerkleInternalHasher, SparseMerkleLeafNodeHasher,
    SPARSE_MERKLE_PLACEHOLDER_BYTES,
};
use crate::proofs::node::{
    spec_pair_hash, MerkleTreeInternalNode, SparseMerkleInternalNode, SparseMerkleLeafNode,
};
use crate::proofs::sparse::sparse_node_hash;

verus! {

/// The bytes that are hashed for a pair of nodes.
pub open spec fn pair_input<H: CryptoHasher>(pair: (HashValue, HashValue)) -> Seq<u8> {
    H::spec_seed() + (pair.0@ + pair.1@)
}

/// Whether two different pairs of nodes have the same hash: the bytes that are hashed for them are
/// different and have the same SHA3-256 digest.
#[verifier::opaque]
pub open spec fn collides<H: CryptoHasher>(
    a: (HashValue, HashValue),
    b: (HashValue, HashValue),
) -> bool {
    sha3_collides(pair_input::<H>(a), pair_input::<H>(b))
}

/// Two pairs of hash values with the same bytes are the same.
proof fn lemma_pair_of_bytes(a: (HashValue, HashValue), b: (HashValue, HashValue))
    requires
        a.0@ + a.1@ == b.0@ + b.1@,
    ensures
        a == b,
{
    let bytes = a.0@ + a.1@;
    assert(a.0@ =~= bytes.take(32) && b.0@ =~= (b.0@ + b.1@).take(32));
    assert(a.1@ =~= bytes.skip(32) && b.1@ =~= (b.0@ + b.1@).skip(32));
    assert(a.0.hash =~= b.0.hash);
    assert(a.1.hash =~= b.1.hash);
}

/// The hash of a pair is the SHA3-256 digest of the seed of the hasher, the left hash and the right
/// hash, in this order.
pub proof fn pair_hash_is_digest_of_pair<H: CryptoHasher>(left: HashValue, right: HashValue)
    ensures
        spec_pair_hash::<H>(left, right).hash == sha3_256(H::spec_seed() + (left@ + right@)),
{
    reveal(spec_pair_hash);
    H::digest_is_sha3(left@ + right@);
}

/// The nodes of the trees are hashed with their parts in order, each kind of node in its own domain.
pub proof fn node_hashes_are_digests<H: CryptoHasher>(
    node: MerkleTreeInternalNode<H>,
    internal: SparseMerkleInternalNode,
    leaf: SparseMerkleLeafNode,
)
    ensures
        node.spec_hash().hash == sha3_256(
            H::spec_seed() + (node.left_child@ + node.right_child@),
        ),
        internal.spec_hash().hash == sha3_256(
            sha3_256(encode_utf8("APTOS::SparseMerkleInternal"@))@ + (internal.left_child@
                + internal.right_child@),
        ),
        leaf.spec_hash().hash == sha3_256(
            sha3_256(encode_utf8("APTOS::SparseMerkleLeafNode"@))@ + (leaf.key@ + leaf.value_hash@),
        ),
{
    pair_hash_is_digest_of_pair::<H>(node.left_child, node.right_child);
    pair_hash_is_digest_of_pair::<SparseMerkleInternalHasher>(
        internal.left_child,
        internal.right_child,
    );
    pair_hash_is_digest_of_pair::<SparseMerkleLeafNodeHasher>(leaf.key, leaf.value_hash);
}

/// Different pairs with the same hash are a collision of SHA3-256, and the other way round.
pub broadcast proof fn pairs_with_same_hash_collide<H: CryptoHasher>(
    a: (HashValue, HashValue),
    b: (HashValue, HashValue),
)
    ensures
        #[trigger] collides::<H>(a, b) <==> a != b && spec_pair_hash::<H>(a.0, a.1)
            == spec_pair_hash::<H>(b.0, b.1),
{
    reveal(collides);
    reveal(spec_pair_hash);
    let bytes_a = a.0@ + a.1@;
    let bytes_b = b.0@ + b.1@;
    H::digest_is_sha3(bytes_a);
    H::digest_is_sha3(bytes_b);
    if pair_input::<H>(a) == pair_input::<H>(b) {
        let seed = H::spec_seed();
        assert(bytes_a =~= (seed + bytes_a).skip(seed.len() as int));
        assert(bytes_b =~= (seed + bytes_b).skip(seed.len() as int));
        lemma_pair_of_bytes(a, b);
    }
}

/// What is hashed to get the hash of a node.
pub enum SparseNode {
    Empty,
    Leaf(SparseMerkleLeafNode),
    Internal(HashValue, HashValue),
}

impl SparseNode {
    /// The hash of the node.
    pub open spec fn hash(self) -> HashValue {
        match self {
            SparseNode::Empty => spec_sparse_merkle_placeholder(),
            SparseNode::Leaf(leaf) => leaf.spec_hash(),
            SparseNode::Internal(left, right) => sparse_node_hash(left, right),
        }
    }
}

/// The bytes that are hashed for a node that is not empty.
pub open spec fn node_input(node: SparseNode) -> Seq<u8> {
    match node {
        SparseNode::Empty => Seq::empty(),
        SparseNode::Leaf(leaf) => spec_domain_seed("APTOS::SparseMerkleLeafNode"@) + (leaf.key@
            + leaf.value_hash@),
        SparseNode::Internal(left, right) => spec_domain_seed("APTOS::SparseMerkleInternal"@) + (
        left@ + right@),
    }
}

/// Whether two different nodes have the same hash: the bytes that are hashed for them are different
/// and have the same SHA3-256 digest, or the bytes of one of them have the placeholder as their
/// digest, or the names of the two kinds of nodes have the same digest.
#[verifier::opaque]
pub open spec fn nodes_collide(a: SparseNode, b: SparseNode) -> bool {
    match (a, b) {
        (SparseNode::Empty, SparseNode::Empty) => false,
        (SparseNode::Empty, _) => sha3_256(node_input(b)) == SPARSE_MERKLE_PLACEHOLDER_BYTES,
        (_, SparseNode::Empty) => sha3_256(node_input(a)) == SPARSE_MERKLE_PLACEHOLDER_BYTES,
        _ => {
            ||| sha3_collides(node_input(a), node_input(b))
            ||| a != b && node_input(a) == node_input(b) && sha3_collides(
                encode_utf8("APTOS::SparseMerkleLeafNode"@),
                encode_utf8("APTOS::SparseMerkleInternal"@),
            )
        },
    }
}

/// The names of the two kinds of nodes are different.
proof fn lemma_node_names_differ()
    ensures
        encode_utf8("APTOS::SparseMerkleLeafNode"@) != encode_utf8("APTOS::SparseMerkleInternal"@),
{
    reveal_strlit("APTOS::SparseMerkleLeafNode");
    reveal_strlit("APTOS::SparseMerkleInternal");
    let leaf = "APTOS::SparseMerkleLeafNode"@;
    let internal = "APTOS::SparseMerkleInternal"@;
    is_ascii_chars_encode_utf8(leaf);
    is_ascii_chars_encode_utf8(internal);
    assert(leaf[19] == 'L' && internal[19] == 'I');
    assert(encode_utf8(leaf)[19] != encode_utf8(internal)[19]);
}

/// The hash of a node that is not empty is the digest of its bytes.
proof fn lemma_node_digest(node: SparseNode)
    requires
        !(node is Empty),
    ensures
        node.hash().hash == sha3_256(node_input(node)),
{
    reveal(spec_pair_hash);
    match node {
        SparseNode::Leaf(leaf) => SparseMerkleLeafNodeHasher::digest_is_sha3(
            leaf.key@ + leaf.value_hash@,
        ),
        SparseNode::Internal(left, right) => SparseMerkleInternalHasher::digest_is_sha3(
            left@ + right@,
        ),
        SparseNode::Empty => {},
    }
}

/// Different nodes with the same hash are a collision of SHA3-256, and the other way round.
pub broadcast proof fn nodes_with_same_hash_collide(a: SparseNode, b: SparseNode)
    ensures
        #[trigger] nodes_collide(a, b) <==> a != b && a.hash() == b.hash(),
{
    reveal(nodes_collide);
    lemma_node_names_differ();
    if !(a is Empty) {
        lemma_node_digest(a);
    }
    if !(b is Empty) {
        lemma_node_digest(b);
    }
    if !(a is Empty) && !(b is Empty) && node_input(a) == node_input(b) {
        let input_a = node_input(a);
        let input_b = node_input(b);
        let leaf_seed = spec_domain_seed("APTOS::SparseMerkleLeafNode"@);
        let internal_seed = spec_domain_seed("APTOS::SparseMerkleInternal"@);
        let (a0, a1) = node_parts(a);
        let (b0, b1) = node_parts(b);
        assert(a0@ =~= input_a.subrange(32, 64) && a1@ =~= input_a.subrange(64, 96));
        assert(b0@ =~= input_b.subrange(32, 64) && b1@ =~= input_b.subrange(64, 96));
        assert(a0.hash =~= b0.hash && a1.hash =~= b1.hash);
        if a is Leaf != b is Leaf {
            assert(leaf_seed =~= internal_seed) by {
                let leaf_input = if a is Leaf {
                    input_a
                } else {
                    input_b
                };
                let internal_input = if a is Leaf {
                    input_b
                } else {
                    input_a
                };
                assert(leaf_seed =~= leaf_input.take(32));
                assert(internal_seed =~= internal_input.take(32));
            }
            assert(sha3_256(encode_utf8("APTOS::SparseMerkleLeafNode"@)) =~= sha3_256(
                encode_utf8("APTOS::SparseMerkleInternal"@),
            ));
        }
    }
}

/// The two hash values that a node is made of.
pub open spec fn node_parts(node: SparseNode) -> (HashValue, HashValue) {
    match node {
        SparseNode::Leaf(leaf) => (leaf.key, leaf.value_hash),
        SparseNode::Internal(left, right) => (left, right),
        SparseNode::Empty => (spec_sparse_merkle_placeholder(), spec_sparse_merkle_placeholder()),
    }
}

} // verus!
