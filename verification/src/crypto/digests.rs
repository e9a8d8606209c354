//! What digests and the bits of hash values are, in terms of bytes.

use vstd::prelude::*;
use vstd::utf8::{encode_utf8, is_ascii_chars_encode_utf8};
use crate::crypto::hash::{
    sha3_256, sha3_collides, spec_accumulator_placeholder, spec_sparse_merkle_placeholder,
    CryptoHasher, EventAccumulatorHasher, HashValue, SparseMerkleInternalHasher,
    SparseMerkleLeafNodeHasher, StateValueHasher, TestOnlyHasher, TransactionAccumulatorHasher,
    TransactionInfoHasher, LENGTH_IN_BITS,
};

verus! {

/// Each hasher gives the SHA3-256 digest of all of the data, behind the digest of its own name.
pub proof fn digests_are_salted_with_names(data: Seq<u8>)
    ensures
        TransactionAccumulatorHasher::spec_digest(data).hash == sha3_256(
            sha3_256(encode_utf8("APTOS::TransactionAccumulator"@))@ + data,
        ),
        EventAccumulatorHasher::spec_digest(data).hash == sha3_256(
            sha3_256(encode_utf8("APTOS::EventAccumulator"@))@ + data,
        ),
        SparseMerkleInternalHasher::spec_digest(data).hash == sha3_256(
            sha3_256(encode_utf8("APTOS::SparseMerkleInternal"@))@ + data,
        ),
        SparseMerkleLeafNodeHasher::spec_digest(data).hash == sha3_256(
            sha3_256(encode_utf8("APTOS::SparseMerkleLeafNode"@))@ + data,
        ),
        TransactionInfoHasher::spec_digest(data).hash == sha3_256(
            sha3_256(encode_utf8("APTOS::TransactionInfo"@))@ + data,
        ),
        StateValueHasher::spec_digest(data).hash == sha3_256(
            sha3_256(encode_utf8("APTOS::StateValue"@))@ + data,
        ),
        TestOnlyHasher::spec_digest(data).hash == sha3_256(data),
{
}

/// Data with the same hash is the same, or two different byte strings have the same SHA3-256
/// digest.
pub proof fn same_digest_same_data<H: CryptoHasher>(a: Seq<u8>, b: Seq<u8>)
    requires
        H::spec_digest(a) == H::spec_digest(b),
    ensures
        a == b || sha3_collides(H::spec_seed() + a, H::spec_seed() + b),
{
    let seed = H::spec_seed();
    H::digest_is_sha3(a);
    H::digest_is_sha3(b);
    assert(a =~= (seed + a).skip(seed.len() as int));
    assert(b =~= (seed + b).skip(seed.len() as int));
}

/// The number that a bit stands for.
pub open spec fn bit_value(bit: bool) -> int {
    if bit {
        1
    } else {
        0
    }
}

/// The bits of a hash value, eight for each byte and the most significant one first, are the binary
/// digits of its bytes.
pub proof fn bytes_are_made_of_bits(value: HashValue, j: int)
    requires
        0 <= j < 32,
    ensures
        value@[j] == 128 * bit_value(value.spec_bit(8 * j)) + 64 * bit_value(
            value.spec_bit(8 * j + 1),
        ) + 32 * bit_value(value.spec_bit(8 * j + 2)) + 16 * bit_value(
            value.spec_bit(8 * j + 3),
        ) + 8 * bit_value(value.spec_bit(8 * j + 4)) + 4 * bit_value(value.spec_bit(8 * j + 5)) + 2
            * bit_value(value.spec_bit(8 * j + 6)) + bit_value(value.spec_bit(8 * j + 7)),
{
    let b: u8 = value@[j];
    assert(b == 128 * ((b >> 7u8) & 1u8) + 64 * ((b >> 6u8) & 1u8) + 32 * ((b >> 5u8) & 1u8) + 16
        * ((b >> 4u8) & 1u8) + 8 * ((b >> 3u8) & 1u8) + 4 * ((b >> 2u8) & 1u8) + 2 * ((b >> 1u8)
        & 1u8) + ((b >> 0u8) & 1u8)) by (bit_vector);
    assert(forall|s: u8| #[trigger] ((b >> s) & 1u8) == 0u8 || ((b >> s) & 1u8) == 1u8)
        by (bit_vector);
    assert(8 * j / 8 == j && (8 * j) % 8 == 0);
    assert((8 * j + 1) / 8 == j && (8 * j + 1) % 8 == 1);
    assert((8 * j + 2) / 8 == j && (8 * j + 2) % 8 == 2);
    assert((8 * j + 3) / 8 == j && (8 * j + 3) % 8 == 3);
    assert((8 * j + 4) / 8 == j && (8 * j + 4) % 8 == 4);
    assert((8 * j + 5) / 8 == j && (8 * j + 5) % 8 == 5);
    assert((8 * j + 6) / 8 == j && (8 * j + 6) % 8 == 6);
    assert((8 * j + 7) / 8 == j && (8 * j + 7) % 8 == 7);
}

/// All values share the empty prefix, and a prefix is shared exactly where a shorter one is shared
/// and the next bit is the same.
pub proof fn shared_prefix_grows_bit_by_bit(a: HashValue, b: HashValue, n: int)
    requires
        0 <= n < LENGTH_IN_BITS,
    ensures
        a.same_prefix(b, 0),
        a.same_prefix(b, n + 1) <==> a.same_prefix(b, n) && a.spec_bit(n) == b.spec_bit(n),
{
    if a.same_prefix(b, n + 1) {
        assert(a.spec_bit(n) == b.spec_bit(n));
    }
}

/// Only a value itself shares all of its bits.
pub proof fn values_with_all_bits_shared_are_equal(a: HashValue, b: HashValue)
    ensures
        a.same_prefix(b, LENGTH_IN_BITS as int) <==> a == b,
{
    if a.same_prefix(b, LENGTH_IN_BITS as int) {
        assert forall|j: int| 0 <= j < 32 implies a.hash[j] == b.hash[j] by {
            bytes_are_made_of_bits(a, j);
            bytes_are_made_of_bits(b, j);
            assert forall|k: int| 0 <= k < 8 implies a.spec_bit(8 * j + k) == #[trigger] b.spec_bit(
                8 * j + k,
            ) by {}
            assert(a.spec_bit(8 * j + 0) == b.spec_bit(8 * j + 0));
            assert(a.spec_bit(8 * j + 1) == b.spec_bit(8 * j + 1));
            assert(a.spec_bit(8 * j + 2) == b.spec_bit(8 * j + 2));
            assert(a.spec_bit(8 * j + 3) == b.spec_bit(8 * j + 3));
            assert(a.spec_bit(8 * j + 4) == b.spec_bit(8 * j + 4));
            assert(a.spec_bit(8 * j + 5) == b.spec_bit(8 * j + 5));
            assert(a.spec_bit(8 * j + 6) == b.spec_bit(8 * j + 6));
            assert(a.spec_bit(8 * j + 7) == b.spec_bit(8 * j + 7));
        }
        assert(a.hash =~= b.hash);
    }
}

/// A bit that is read is the binary digit of its byte, the most significant one first.
pub proof fn bit_is_binary_digit(value: HashValue, i: usize, r: bool)
    requires
        i < 256,
        call_ensures(HashValue::bit, (&value, i), r),
    ensures
        call_requires(HashValue::bit, (&value, i)),
        ({
            let byte = value@[i as int / 8] as int;
            let digit = i % 8;
            let weight: int = if digit == 0 {
                128
            } else if digit == 1 {
                64
            } else if digit == 2 {
                32
            } else if digit == 3 {
                16
            } else if digit == 4 {
                8
            } else if digit == 5 {
                4
            } else if digit == 6 {
                2
            } else {
                1
            };
            r <==> (byte / weight) % 2 == 1
        }),
{
    let j = i as int / 8;
    let b: u8 = value@[j];
    assert((b >> 7u8) & 1u8 == (b / 128u8) % 2u8 && (b >> 6u8) & 1u8 == (b / 64u8) % 2u8 && (b
        >> 5u8) & 1u8 == (b / 32u8) % 2u8 && (b >> 4u8) & 1u8 == (b / 16u8) % 2u8 && (b >> 3u8)
        & 1u8 == (b / 8u8) % 2u8 && (b >> 2u8) & 1u8 == (b / 4u8) % 2u8 && (b >> 1u8) & 1u8 == (b
        / 2u8) % 2u8 && (b >> 0u8) & 1u8 == (b / 1u8) % 2u8) by (bit_vector);
    assert(b / 1u8 == b);
}

/// The common prefix of two values has all the bits up to the first one that differs. It is the whole
/// of them if and only if they are the same, and does not depend on their order.
pub proof fn common_prefix_ends_at_first_difference(
    a: HashValue,
    b: HashValue,
    i: int,
    r: usize,
    turned: usize,
)
    requires
        0 <= i < 256,
        call_ensures(HashValue::common_prefix_bits_len, (&a, b), r),
        call_ensures(HashValue::common_prefix_bits_len, (&b, a), turned),
    ensures
        r <= 256,
        i < r ==> a.spec_bit(i) == b.spec_bit(i),
        r < 256 ==> a.spec_bit(r as int) != b.spec_bit(r as int),
        r == 256 <==> a == b,
        turned == r,
{
    values_with_all_bits_shared_are_equal(a, b);
    if r < turned {
        assert(a.spec_bit(r as int) == b.spec_bit(r as int));
    }
    if turned < r {
        assert(a.spec_bit(turned as int) == b.spec_bit(turned as int));
    }
}

/// The placeholders are texts, padded with zeros.
pub proof fn placeholders_are_padded_texts()
    ensures
        spec_accumulator_placeholder()@ == encode_utf8("ACCUMULATOR_PLACEHOLDER_HASH"@) + seq![
            0u8,
            0u8,
            0u8,
            0u8,
        ],
        spec_sparse_merkle_placeholder()@ == encode_utf8("SPARSE_MERKLE_PLACEHOLDER_HASH"@) + seq![
            0u8,
            0u8,
        ],
{
    reveal_strlit("ACCUMULATOR_PLACEHOLDER_HASH");
    reveal_strlit("SPARSE_MERKLE_PLACEHOLDER_HASH");
    is_ascii_chars_encode_utf8("ACCUMULATOR_PLACEHOLDER_HASH"@);
    is_ascii_chars_encode_utf8("SPARSE_MERKLE_PLACEHOLDER_HASH"@);
    assert(spec_accumulator_placeholder()@ =~= encode_utf8("ACCUMULATOR_PLACEHOLDER_HASH"@) + seq![
        0u8,
        0u8,
        0u8,
        0u8,
    ]);
    assert(spec_sparse_merkle_placeholder()@ =~= encode_utf8("SPARSE_MERKLE_PLACEHOLDER_HASH"@)
        + seq![0u8, 0u8]);
}

} // verus!
