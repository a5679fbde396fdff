//! Conversions between the 32-bit-word form of a SHA-256 digest and the
//! 64-bit-limb form consumed by the field embedding.
//!
//! A digest travels either as eight 32-bit words or as four 64-bit limbs;
//! within one limb the two words sit big-endian (the word with the lower
//! index is the more significant half).

use vstd::prelude::*;

verus! {

/// The 64-bit value of a big-endian pair of 32-bit words.
pub open spec fn spec_word_pair(hi: u32, lo: u32) -> u64 {
    (hi * 0x1_0000_0000 + lo) as u64
}

/// Packs eight 32-bit words into four 64-bit limbs, keeping the word order:
/// words `2k` and `2k + 1` become limb `k`, the even word on top.
pub fn convert_hash_u32_to_u64(hash_u32: [u32; 8]) -> (r: [u64; 4])
    ensures
        forall|k: int|
            0 <= k < 4 ==> r@[k] == spec_word_pair(hash_u32@[2 * k], hash_u32@[2 * k + 1]),
{
    [
        convert_u32_to_u64_BE([hash_u32[0], hash_u32[1]]),
        convert_u32_to_u64_BE([hash_u32[2], hash_u32[3]]),
        convert_u32_to_u64_BE([hash_u32[4], hash_u32[5]]),
        convert_u32_to_u64_BE([hash_u32[6], hash_u32[7]]),
    ]
}

/// Packs eight 32-bit words into four limbs as `convert_hash_u32_to_u64`
/// does, then reverses the limb order.
#[allow(non_snake_case)]
pub fn convert_hash_u32_to_u64_LE(hash_u32: [u32; 8]) -> (r: [u64; 4])
    ensures
        forall|k: int|
            0 <= k < 4 ==> r@[k] == spec_word_pair(
                hash_u32@[2 * (3 - k)],
                hash_u32@[2 * (3 - k) + 1],
            ),
{
    [
        convert_u32_to_u64_BE([hash_u32[6], hash_u32[7]]),
        convert_u32_to_u64_BE([hash_u32[4], hash_u32[5]]),
        convert_u32_to_u64_BE([hash_u32[2], hash_u32[3]]),
        convert_u32_to_u64_BE([hash_u32[0], hash_u32[1]]),
    ]
}

/// Joins two 32-bit words big-endian: the first word is the upper half.
#[allow(non_snake_case)]
pub fn convert_u32_to_u64_BE(u32_array: [u32; 2]) -> (r: u64)
    ensures
        r == spec_word_pair(u32_array@[0], u32_array@[1]),
{
    (u32_array[0] as u64) * 0x1_0000_0000 + (u32_array[1] as u64)
}

/// Splits four 64-bit limbs into eight 32-bit words, each limb giving its
/// upper word first.
pub fn convert_hash_u64_to_u32(hash_u64: [u64; 4]) -> (r: [u32; 8])
    ensures
        forall|k: int| 0 <= k < 4 ==> r@[2 * k] == hash_u64@[k] / 0x1_0000_0000,
        forall|k: int| 0 <= k < 4 ==> r@[2 * k + 1] == hash_u64@[k] % 0x1_0000_0000,
{
    let w0 = convert_u64_to_u32_BE(hash_u64[0]);
    let w1 = convert_u64_to_u32_BE(hash_u64[1]);
    let w2 = convert_u64_to_u32_BE(hash_u64[2]);
    let w3 = convert_u64_to_u32_BE(hash_u64[3]);
    [w0[0], w0[1], w1[0], w1[1], w2[0], w2[1], w3[0], w3[1]]
}

/// Splits one 64-bit value into its upper and lower 32-bit words, upper
/// first.
#[allow(non_snake_case)]
pub fn convert_u64_to_u32_BE(input: u64) -> (r: [u32; 2])
    ensures
        r@[0] == input / 0x1_0000_0000,
        r@[1] == input % 0x1_0000_0000,
{
    let upper: u32 = (input / 0x1_0000_0000) as u32;
    let lower: u32 = (input % 0x1_0000_0000) as u32;
    [upper, lower]
}

/// The first four entries of a slice of limbs, which must have at least
/// four.
pub fn convert_to_u64_array(input: &[u64]) -> (r: [u64; 4])
    requires
        input@.len() >= 4,
    ensures
        forall|k: int| 0 <= k < 4 ==> r@[k] == input@[k],
{
    [input[0], input[1], input[2], input[3]]
}

/// Splitting limbs into words undoes packing words into limbs: the two
/// conversions form a round trip on any eight-word digest.
pub proof fn lemma_word_pair_round_trip(hi: u32, lo: u32)
    ensures
        spec_word_pair(hi, lo) / 0x1_0000_0000 == hi,
        spec_word_pair(hi, lo) % 0x1_0000_0000 == lo,
{
    vstd::arithmetic::div_mod::lemma_fundamental_div_mod_converse(
        spec_word_pair(hi, lo) as int,
        0x1_0000_0000,
        hi as int,
        lo as int,
    );
}

} // verus!
