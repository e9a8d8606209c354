//! Hash values, hash functions with domain separation, and hashable things.

use vstd::prelude::*;
use vstd::slice::slice_to_vec;
use vstd::utf8::encode_utf8;
use tiny_keccak::Hasher;

verus! {

/// The number of bits of a [`HashValue`].
pub const LENGTH_IN_BITS: usize = 256;

/// Output value of a hash function: 32 bytes, the first byte being the most significant one.
#[derive(Clone, Copy, Debug)]
pub struct HashValue {
    pub hash: [u8; 32],
}

impl View for HashValue {
    type V = Seq<u8>;

    open spec fn view(&self) -> Seq<u8> {
        self.hash@
    }
}

impl vstd::std_specs::cmp::PartialEqSpecImpl for HashValue {
    open spec fn obeys_eq_spec() -> bool {
        true
    }

    open spec fn eq_spec(&self, other: &HashValue) -> bool {
        *self == *other
    }
}

impl PartialEq for HashValue {
    fn eq(&self, other: &HashValue) -> (r: bool) {
        let mut i: usize = 0;
        while i < 32
            invariant
                i <= 32,
                forall|j: int| 0 <= j < i ==> self.hash[j] == other.hash[j],
            decreases 32 - i,
        {
            if self.hash[i] != other.hash[i] {
                return false;
            }
            i = i + 1;
        }
        assert(self.hash =~= other.hash);
        true
    }
}

impl Eq for HashValue {
}

impl HashValue {
    /// Bit `i` of the value, counted from the most significant bit of the first byte.
    pub open spec fn spec_bit(self, i: int) -> bool {
        (self@[i / 8] >> ((7 - i % 8) as u8)) & 1u8 == 1u8
    }

    /// Whether the first `n` bits of the two values are the same.
    pub open spec fn same_prefix(self, other: HashValue, n: int) -> bool {
        forall|i: int| 0 <= i < n ==> self.spec_bit(i) == #[trigger] other.spec_bit(i)
    }

    /// Constructs a hash value from its bytes.
    pub fn new(hash: [u8; 32]) -> (r: HashValue)
        ensures
            r.hash == hash,
    {
        HashValue { hash }
    }

    /// Returns bit `i`, counted from the most significant bit of the first byte.
    pub fn bit(&self, i: usize) -> (r: bool)
        requires
            i < LENGTH_IN_BITS,
        ensures
            r == self.spec_bit(i as int),
    {
        let byte: u8 = self.hash[i / 8];
        let shift: u8 = (7 - i % 8) as u8;
        (byte >> shift) & 1u8 == 1u8
    }

    /// Returns the length of the common prefix of the two values, in bits.
    pub fn common_prefix_bits_len(&self, other: HashValue) -> (r: usize)
        ensures
            r <= LENGTH_IN_BITS,
            self.same_prefix(other, r as int),
            r < LENGTH_IN_BITS ==> self.spec_bit(r as int) != other.spec_bit(r as int),
    {
        let mut i: usize = 0;
        while i < LENGTH_IN_BITS
            invariant
                i <= LENGTH_IN_BITS,
                self.same_prefix(other, i as int),
            decreases LENGTH_IN_BITS - i,
        {
            if self.bit(i) != other.bit(i) {
                return i;
            }
            i = i + 1;
        }
        i
    }
}

/// The SHA3-256 digest of `data`.
pub uninterp spec fn sha3_256(data: Seq<u8>) -> [u8; 32];

/// Computes the SHA3-256 digest of `data` with `tiny_keccak`: `Sha3::v256`, one `update` with the
/// whole of `data` and one `finalize` into 32 bytes. What is claimed of them is that the digest is
/// a function of the bytes of `data` alone, named `sha3_256`.
#[verifier::external_body]
fn sha3_256_of(data: &Vec<u8>) -> (digest: [u8; 32])
    ensures
        digest == sha3_256(data@),
{
    let mut digest = [0u8; 32];
    let mut state = tiny_keccak::Sha3::v256();
    state.update(data.as_slice());
    state.finalize(&mut digest);
    digest
}

/// Whether two different byte strings have the same SHA3-256 digest.
pub open spec fn sha3_collides(a: Seq<u8>, b: Seq<u8>) -> bool {
    a != b && sha3_256(a) == sha3_256(b)
}

/// The bytes that are hashed before the data in the domain with the given name: the digest of the
/// name.
pub open spec fn spec_domain_seed(name: Seq<char>) -> Seq<u8> {
    sha3_256(encode_utf8(name))@
}

/// A hash function on byte strings. Each kind of node of an authenticated data structure has its
/// own, so that nodes of different kinds do not hash alike.
pub trait CryptoHasher: Sized {
    /// The hash of `data`.
    spec fn spec_digest(data: Seq<u8>) -> HashValue;

    /// The bytes that are hashed before the data.
    spec fn spec_seed() -> Seq<u8>;

    /// The hash is the SHA3-256 digest of the seed and all of the data.
    proof fn digest_is_sha3(data: Seq<u8>)
        ensures
            Self::spec_digest(data).hash == sha3_256(Self::spec_seed() + data),
    ;

    /// Computes the hash of `data`.
    fn digest(data: &Vec<u8>) -> (h: HashValue)
        ensures
            h == Self::spec_digest(data@),
    ;
}

/// Something that has a hash.
pub trait CryptoHash {
    /// The hash of this value.
    spec fn spec_hash(&self) -> HashValue;

    /// Computes the hash of this value.
    fn hash(&self) -> (h: HashValue)
        ensures
            h == self.spec_hash(),
    ;
}

/// The hash of `data` in the domain with the given name: SHA3-256 of the digest of the prefixed
/// name, followed by `data`.
pub open spec fn spec_prefixed_hash(name: Seq<char>, data: Seq<u8>) -> HashValue {
    HashValue { hash: sha3_256(sha3_256(encode_utf8(name))@ + data) }
}

/// Computes the hash of `data` in the domain with the given prefixed name.
fn prefixed_hash(name: &str, data: &Vec<u8>) -> (h: HashValue)
    ensures
        h == spec_prefixed_hash(name@, data@),
{
    let salt: Vec<u8> = slice_to_vec(name.as_bytes());
    let seed: [u8; 32] = sha3_256_of(&salt);
    let mut input: Vec<u8> = slice_to_vec(seed.as_slice());
    input.extend_from_slice(data.as_slice());
    assert(input@ =~= sha3_256(encode_utf8(name@))@ + data@);
    HashValue { hash: sha3_256_of(&input) }
}

/// Hashes the internal nodes of the transaction accumulator.
#[derive(Clone, Copy, Debug)]
pub struct TransactionAccumulatorHasher;

impl CryptoHasher for TransactionAccumulatorHasher {
    open spec fn spec_digest(data: Seq<u8>) -> HashValue {
        spec_prefixed_hash("APTOS::TransactionAccumulator"@, data)
    }

    open spec fn spec_seed() -> Seq<u8> {
        spec_domain_seed("APTOS::TransactionAccumulator"@)
    }

    proof fn digest_is_sha3(data: Seq<u8>) {
    }

    fn digest(data: &Vec<u8>) -> (h: HashValue) {
        prefixed_hash("APTOS::TransactionAccumulator", data)
    }
}

/// Hashes the internal nodes of an event accumulator.
#[derive(Clone, Copy, Debug)]
pub struct EventAccumulatorHasher;

impl CryptoHasher for EventAccumulatorHasher {
    open spec fn spec_digest(data: Seq<u8>) -> HashValue {
        spec_prefixed_hash("APTOS::EventAccumulator"@, data)
    }

    open spec fn spec_seed() -> Seq<u8> {
        spec_domain_seed("APTOS::EventAccumulator"@)
    }

    proof fn digest_is_sha3(data: Seq<u8>) {
    }

    fn digest(data: &Vec<u8>) -> (h: HashValue) {
        prefixed_hash("APTOS::EventAccumulator", data)
    }
}

/// Hashes the internal nodes of a sparse Merkle tree.
#[derive(Clone, Copy, Debug)]
pub struct SparseMerkleInternalHasher;

impl CryptoHasher for SparseMerkleInternalHasher {
    open spec fn spec_digest(data: Seq<u8>) -> HashValue {
        spec_prefixed_hash("APTOS::SparseMerkleInternal"@, data)
    }

    open spec fn spec_seed() -> Seq<u8> {
        spec_domain_seed("APTOS::SparseMerkleInternal"@)
    }

    proof fn digest_is_sha3(data: Seq<u8>) {
    }

    fn digest(data: &Vec<u8>) -> (h: HashValue) {
        prefixed_hash("APTOS::SparseMerkleInternal", data)
    }
}

/// Hashes the leaf nodes of a sparse Merkle tree.
#[derive(Clone, Copy, Debug)]
pub struct SparseMerkleLeafNodeHasher;

impl CryptoHasher for SparseMerkleLeafNodeHasher {
    open spec fn spec_digest(data: Seq<u8>) -> HashValue {
        spec_prefixed_hash("APTOS::SparseMerkleLeafNode"@, data)
    }

    open spec fn spec_seed() -> Seq<u8> {
        spec_domain_seed("APTOS::SparseMerkleLeafNode"@)
    }

    proof fn digest_is_sha3(data: Seq<u8>) {
    }

    fn digest(data: &Vec<u8>) -> (h: HashValue) {
        prefixed_hash("APTOS::SparseMerkleLeafNode", data)
    }
}

/// Hashes transaction infos.
#[derive(Clone, Copy, Debug)]
pub struct TransactionInfoHasher;

impl CryptoHasher for TransactionInfoHasher {
    open spec fn spec_digest(data: Seq<u8>) -> HashValue {
        spec_prefixed_hash("APTOS::TransactionInfo"@, data)
    }

    open spec fn spec_seed() -> Seq<u8> {
        spec_domain_seed("APTOS::TransactionInfo"@)
    }

    proof fn digest_is_sha3(data: Seq<u8>) {
    }

    fn digest(data: &Vec<u8>) -> (h: HashValue) {
        prefixed_hash("APTOS::TransactionInfo", data)
    }
}

/// Hashes state values.
#[derive(Clone, Copy, Debug)]
pub struct StateValueHasher;

impl CryptoHasher for StateValueHasher {
    open spec fn spec_digest(data: Seq<u8>) -> HashValue {
        spec_prefixed_hash("APTOS::StateValue"@, data)
    }

    open spec fn spec_seed() -> Seq<u8> {
        spec_domain_seed("APTOS::StateValue"@)
    }

    proof fn digest_is_sha3(data: Seq<u8>) {
    }

    fn digest(data: &Vec<u8>) -> (h: HashValue) {
        prefixed_hash("APTOS::StateValue", data)
    }
}

/// A hasher without domain separation, for tests.
#[derive(Clone, Copy, Debug)]
pub struct TestOnlyHasher;

impl CryptoHasher for TestOnlyHasher {
    open spec fn spec_digest(data: Seq<u8>) -> HashValue {
        HashValue { hash: sha3_256(data) }
    }

    open spec fn spec_seed() -> Seq<u8> {
        Seq::empty()
    }

    proof fn digest_is_sha3(data: Seq<u8>) {
        assert(Self::spec_seed() + data =~= data);
    }

    fn digest(data: &Vec<u8>) -> (h: HashValue) {
        HashValue { hash: sha3_256_of(data) }
    }
}

/// The text `ACCUMULATOR_PLACEHOLDER_HASH`, padded with zeros.
pub const ACCUMULATOR_PLACEHOLDER_BYTES: [u8; 32] = [
    65, 67, 67, 85, 77, 85, 76, 65, 84, 79, 82, 95, 80, 76, 65, 67,
    69, 72, 79, 76, 68, 69, 82, 95, 72, 65, 83, 72, 0, 0, 0, 0,
];

/// The text `SPARSE_MERKLE_PLACEHOLDER_HASH`, padded with zeros.
pub const SPARSE_MERKLE_PLACEHOLDER_BYTES: [u8; 32] = [
    83, 80, 65, 82, 83, 69, 95, 77, 69, 82, 75, 76, 69, 95, 80, 76,
    65, 67, 69, 72, 79, 76, 68, 69, 82, 95, 72, 65, 83, 72, 0, 0,
];

/// The hash that stands for an empty subtree of an accumulator.
pub open spec fn spec_accumulator_placeholder() -> HashValue {
    HashValue { hash: ACCUMULATOR_PLACEHOLDER_BYTES }
}

/// The hash that stands for an empty subtree of a sparse Merkle tree.
pub open spec fn spec_sparse_merkle_placeholder() -> HashValue {
    HashValue { hash: SPARSE_MERKLE_PLACEHOLDER_BYTES }
}

/// Returns the hash that stands for an empty subtree of an accumulator.
pub fn accumulator_placeholder_hash() -> (h: HashValue)
    ensures
        h == spec_accumulator_placeholder(),
{
    HashValue { hash: ACCUMULATOR_PLACEHOLDER_BYTES }
}

/// Returns the hash that stands for an empty subtree of a sparse Merkle tree.
pub fn sparse_merkle_placeholder_hash() -> (h: HashValue)
    ensures
        h == spec_sparse_merkle_placeholder(),
{
    HashValue { hash: SPARSE_MERKLE_PLACEHOLDER_BYTES }
}

} // verus!
