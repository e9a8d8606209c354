use aptosdb::crypto::hash::{
    accumulator_placeholder_hash, sparse_merkle_placeholder_hash, CryptoHash, CryptoHasher,
    EventAccumulatorHasher, HashValue, SparseMerkleInternalHasher, SparseMerkleLeafNodeHasher,
    TestOnlyHasher, TransactionAccumulatorHasher,
};
use aptosdb::proofs::node::{
    MerkleTreeInternalNode, SparseMerkleInternalNode, SparseMerkleLeafNode,
};

fn hex(hash: HashValue) -> String {
    hash.hash.iter().map(|b| format!("{:02x}", b)).collect()
}

fn h(b: u8) -> HashValue {
    HashValue::new([b; 32])
}

fn pair() -> Vec<u8> {
    let mut data = vec![1u8; 32];
    data.extend_from_slice(&[2u8; 32]);
    data
}

#[test]
fn plain_hasher_is_sha3_256() {
    assert_eq!(
        hex(TestOnlyHasher::digest(&vec![])),
        "a7ffc6f8bf1ed76651c14756a061d662f580ff4de43b49fa82d80a4b80f8434a"
    );
    assert_eq!(
        hex(TestOnlyHasher::digest(&b"abc".to_vec())),
        "3a985da74fe225b2045c172d6bd390bd855f086e3e9d525b46bfe24511431532"
    );
    assert_eq!(
        hex(TestOnlyHasher::digest(&b"APTOS::RawTransaction".to_vec())),
        "b5e97db07fa0bd0e5598aa3643a9bc6f6693bddc1a9fec9e674a461eaa00b193"
    );
}

#[test]
fn digest_differs_from_its_input() {
    let data = vec![7u8; 32];
    assert_ne!(TestOnlyHasher::digest(&data), h(7));
}

#[test]
fn hashers_have_their_own_domains() {
    assert_eq!(
        hex(TransactionAccumulatorHasher::digest(&pair())),
        "8e096e39f3b8fa125e5d6280646ef5c0f3ac4a32a16191b638dbf418a1fcc0da"
    );
    assert_eq!(
        hex(EventAccumulatorHasher::digest(&pair())),
        "be195c4fe71d55c69c1cba8e1171f639f4446a6239d81e1dad467f679111b6fc"
    );
    assert_eq!(
        hex(SparseMerkleInternalHasher::digest(&pair())),
        "51ba92a1651087ffbe7be2f44b13b2ad8a203eff2b2e65645dd8b81409623ca3"
    );
    assert_eq!(
        hex(SparseMerkleLeafNodeHasher::digest(&pair())),
        "e819b639ae792ea3945859da4c4032310390c6303de62f5b2f224bc4dc5d4247"
    );
}

#[test]
fn nodes_hash_their_children_left_one_first() {
    let node = MerkleTreeInternalNode::<TransactionAccumulatorHasher>::new(h(1), h(2));
    assert_eq!(node.hash(), TransactionAccumulatorHasher::digest(&pair()));
    let swapped = MerkleTreeInternalNode::<TransactionAccumulatorHasher>::new(h(2), h(1));
    assert_ne!(node.hash(), swapped.hash());
    assert_eq!(
        SparseMerkleInternalNode::new(h(1), h(2)).hash(),
        SparseMerkleInternalHasher::digest(&pair())
    );
    let leaf = SparseMerkleLeafNode::new(h(1), h(2));
    assert_eq!(leaf.hash(), SparseMerkleLeafNodeHasher::digest(&pair()));
    assert_eq!((leaf.key(), leaf.value_hash()), (h(1), h(2)));
    assert!(leaf == SparseMerkleLeafNode::new(h(1), h(2)));
    assert!(leaf != SparseMerkleLeafNode::new(h(1), h(3)));
    assert!(SparseMerkleInternalNode::new(h(1), h(2)) != SparseMerkleInternalNode::new(h(2), h(1)));
}

#[test]
fn placeholders_are_padded_texts() {
    assert_eq!(&accumulator_placeholder_hash().hash[..28], b"ACCUMULATOR_PLACEHOLDER_HASH");
    assert_eq!(&accumulator_placeholder_hash().hash[28..], &[0u8; 4]);
    assert_eq!(&sparse_merkle_placeholder_hash().hash[..30], b"SPARSE_MERKLE_PLACEHOLDER_HASH");
    assert_eq!(&sparse_merkle_placeholder_hash().hash[30..], &[0u8; 2]);
}

#[test]
fn bits_start_at_the_most_significant_one() {
    let mut bytes = [0u8; 32];
    bytes[0] = 0b1010_0000;
    bytes[31] = 1;
    let value = HashValue::new(bytes);
    assert!(value.bit(0) && !value.bit(1) && value.bit(2) && !value.bit(3));
    assert!(value.bit(255) && !value.bit(254));
}

#[test]
fn common_prefix_length_in_bits() {
    let zero = h(0);
    let mut bytes = [0u8; 32];
    bytes[2] = 0b0001_0000;
    assert_eq!(zero.common_prefix_bits_len(HashValue::new(bytes)), 19);
    assert_eq!(zero.common_prefix_bits_len(h(0x80)), 0);
    assert_eq!(zero.common_prefix_bits_len(zero), 256);
}

#[test]
fn hash_values_compare_all_bytes() {
    let mut bytes = [5u8; 32];
    assert_eq!(HashValue::new(bytes), h(5));
    bytes[31] = 6;
    assert_ne!(HashValue::new(bytes), h(5));
}
