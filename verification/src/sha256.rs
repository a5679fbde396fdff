//! SHA-256 digests as four 64-bit limbs.
//!
//! The 32 digest bytes are split into four 8-byte blocks; within a block the
//! bytes are read big-endian (byte `8k` is the most significant byte of limb
//! `k`). The digest itself comes from the outside `sha2` crate; the packing
//! into limbs, and the parsing of a 64-digit hex string into the same four
//! limbs, are verified here.

use sha2::Digest;
use vstd::arithmetic::power::{lemma_pow_adds, pow};
use vstd::prelude::*;
use vstd::string::StringSliceAdditionalSpecFns;

verus! {

/// The 32-byte SHA-256 digest of a byte sequence; what the bytes are is
/// fixed by the SHA-256 standard and stated here only by name.
pub uninterp spec fn sha256_of(bytes: Seq<u8>) -> Seq<u8>;

/// Relies on sha2's `Sha256::digest`: the returned 32 bytes are a function
/// of the input bytes alone, the same in every process and on every machine.
#[verifier::external_body]
fn sha256_digest(input: &[u8]) -> (r: [u8; 32])
    ensures
        r@ == sha256_of(input@),
{
    let hashed = sha2::Sha256::digest(input);
    hashed.into()
}

/// The big-endian value of the eight bytes starting at `start`.
pub open spec fn spec_be_limb(b: Seq<u8>, start: int) -> nat {
    (b[start] * 0x100_0000_0000_0000 + b[start + 1] * 0x1_0000_0000_0000 + b[start + 2]
        * 0x100_0000_0000 + b[start + 3] * 0x1_0000_0000 + b[start + 4] * 0x100_0000 + b[start + 5]
        * 0x1_0000 + b[start + 6] * 0x100 + b[start + 7]) as nat
}

/// The four limbs of a byte sequence's SHA-256 digest.
pub open spec fn spec_sha_limbs(bytes: Seq<u8>) -> Seq<u64> {
    let d = sha256_of(bytes);
    seq![
        spec_be_limb(d, 0) as u64,
        spec_be_limb(d, 8) as u64,
        spec_be_limb(d, 16) as u64,
        spec_be_limb(d, 24) as u64,
    ]
}

/// Reads the eight digest bytes starting at `start` as one big-endian limb.
fn be_limb(d: &[u8; 32], start: usize) -> (r: u64)
    requires
        start + 8 <= 32,
    ensures
        r == spec_be_limb(d@, start as int),
{
    (d[start] as u64) * 0x100_0000_0000_0000 + (d[start + 1] as u64) * 0x1_0000_0000_0000 + (d[start
        + 2] as u64) * 0x100_0000_0000 + (d[start + 3] as u64) * 0x1_0000_0000 + (d[start
        + 4] as u64) * 0x100_0000 + (d[start + 5] as u64) * 0x1_0000 + (d[start + 6] as u64) * 0x100
        + (d[start + 7] as u64)
}

/// SHA-256 of a string's UTF-8 bytes, packed big-endian into four limbs.
pub fn get_sha256(input: &str) -> (r: [u64; 4])
    ensures
        r@ == spec_sha_limbs(input.spec_bytes()),
{
    let digest = sha256_digest(input.as_bytes());
    let r = [be_limb(&digest, 0), be_limb(&digest, 8), be_limb(&digest, 16), be_limb(&digest, 24)];
    proof {
        assert(r@ =~= spec_sha_limbs(input.spec_bytes()));
    }
    r
}

/// An ASCII hexadecimal digit, either case.
pub open spec fn is_hex_digit(b: u8) -> bool {
    (0x30 <= b <= 0x39) || (0x41 <= b <= 0x46) || (0x61 <= b <= 0x66)
}

/// The value of one hexadecimal digit.
pub open spec fn hex_digit_val(b: u8) -> nat {
    if 0x30 <= b <= 0x39 {
        (b - 0x30) as nat
    } else if 0x41 <= b <= 0x46 {
        (b - 0x41 + 10) as nat
    } else if 0x61 <= b <= 0x66 {
        (b - 0x61 + 10) as nat
    } else {
        0
    }
}

/// The value of a big-endian string of hexadecimal digits.
pub open spec fn spec_hex_nat(s: Seq<u8>) -> nat
    decreases s.len(),
{
    if s.len() == 0 {
        0
    } else {
        spec_hex_nat(s.drop_last()) * 16 + hex_digit_val(s.last())
    }
}

/// A hex string of `n` digits stays below `16^n`.
proof fn lemma_hex_nat_bound(s: Seq<u8>)
    ensures
        spec_hex_nat(s) < pow(16, s.len()),
    decreases s.len(),
{
    if s.len() == 0 {
        vstd::arithmetic::power::lemma_pow0(16);
    } else {
        lemma_hex_nat_bound(s.drop_last());
        lemma_pow_adds(16, (s.len() - 1) as nat, 1);
        vstd::arithmetic::power::lemma_pow1(16);
    }
}

/// The byte sequence with every leading literal `0x` removed.
pub open spec fn spec_strip_hex_prefix(s: Seq<u8>) -> Seq<u8>
    decreases s.len(),
{
    if s.len() >= 2 && s[0] == 0x30 && s[1] == 0x78 {
        spec_strip_hex_prefix(s.skip(2))
    } else {
        s
    }
}

/// The value of one hexadecimal digit byte.
fn hex_digit(b: u8) -> (r: u8)
    requires
        is_hex_digit(b),
    ensures
        r == hex_digit_val(b),
{
    if b >= 0x61 {
        b - 0x61 + 10
    } else if b >= 0x41 {
        b - 0x41 + 10
    } else {
        b - 0x30
    }
}

/// Parses the sixteen hex digits of `bytes` starting at `offset` into one
/// limb, most significant digit first.
fn parse_hex_limb(bytes: &[u8], offset: usize) -> (r: u64)
    requires
        offset + 16 <= bytes@.len(),
        forall|i: int| offset <= i < offset + 16 ==> is_hex_digit(bytes@[i]),
    ensures
        r == spec_hex_nat(bytes@.subrange(offset as int, offset as int + 16)),
{
    let n = bytes.len();
    let mut v: u64 = 0;
    let mut j: usize = 0;
    proof {
        vstd::arithmetic::power::lemma_pow0(16);
        assert(bytes@.subrange(offset as int, offset as int).len() == 0);
    }
    while j < 16
        invariant
            j <= 16,
            n == bytes@.len(),
            offset + 16 <= n,
            forall|i: int| offset <= i < offset + 16 ==> is_hex_digit(bytes@[i]),
            v == spec_hex_nat(bytes@.subrange(offset as int, offset as int + j)),
            v < pow(16, j as nat),
        decreases 16 - j,
    {
        proof {
            lemma_pow_adds(16, j as nat, 1);
            vstd::arithmetic::power::lemma_pow1(16);
            assert(pow(16, j as nat + 1) <= pow(16, 16)) by {
                vstd::arithmetic::power::lemma_pow_increases(16, j as nat + 1, 16);
            }
            assert(pow(16, 16) == 0x1_0000_0000_0000_0000) by {
                reveal_with_fuel(pow, 17);
            }
        }
        let d = hex_digit(bytes[offset + j]);
        v = v * 16 + (d as u64);
        j = j + 1;
        proof {
            let prefix = bytes@.subrange(offset as int, offset as int + j);
            assert(prefix.drop_last() =~= bytes@.subrange(offset as int, offset as int + j - 1));
            assert(v < pow(16, j as nat));
        }
    }
    proof {
        assert(bytes@.subrange(offset as int, offset as int + 16) =~= bytes@.subrange(
            offset as int,
            offset as int + j,
        ));
    }
    v
}

/// Parses the textual form of a SHA-256 digest — any number of leading `0x`
/// markers followed by exactly 64 hex digits — into four big-endian limbs,
/// sixteen digits each.
pub fn sha256_str_to_u64_arr(input: &str) -> (r: [u64; 4])
    requires
        spec_strip_hex_prefix(input.spec_bytes()).len() == 64,
        forall|i: int|
            0 <= i < 64 ==> is_hex_digit(#[trigger] spec_strip_hex_prefix(input.spec_bytes())[i]),
    ensures
        forall|k: int|
            0 <= k < 4 ==> r@[k] == spec_hex_nat(
                #[trigger] spec_strip_hex_prefix(input.spec_bytes()).subrange(16 * k, 16 * k + 16),
            ),
{
    let bytes = input.as_bytes();
    let ghost stripped = spec_strip_hex_prefix(bytes@);
    let mut start: usize = 0;
    proof {
        assert(bytes@.skip(0) =~= bytes@);
    }
    while bytes.len() - start >= 2 && bytes[start] == 0x30 && bytes[start + 1] == 0x78
        invariant
            start <= bytes@.len(),
            spec_strip_hex_prefix(bytes@.skip(start as int)) == spec_strip_hex_prefix(bytes@),
        decreases bytes@.len() - start,
    {
        proof {
            assert(bytes@.skip(start as int).skip(2) =~= bytes@.skip(start as int + 2));
        }
        start = start + 2;
    }
    proof {
        let rest = bytes@.skip(start as int);
        assert(rest.len() == bytes@.len() - start);
        if rest.len() >= 2 {
            assert(rest[0] == bytes@[start as int]);
            assert(rest[1] == bytes@[start as int + 1]);
        }
        assert(rest == stripped);
        assert(bytes@.len() == start + 64);
        assert forall|i: int| start <= i < bytes@.len() implies is_hex_digit(bytes@[i]) by {
            assert(bytes@[i] == rest[i - start]);
        }
    }
    let r = [
        parse_hex_limb(bytes, start),
        parse_hex_limb(bytes, start + 16),
        parse_hex_limb(bytes, start + 32),
        parse_hex_limb(bytes, start + 48),
    ];
    proof {
        assert forall|k: int| 0 <= k < 4 implies r@[k] == spec_hex_nat(
            #[trigger] stripped.subrange(16 * k, 16 * k + 16),
        ) by {
            assert(bytes@.subrange(
                start + 16 * k,
                start + 16 * k + 16,
            ) =~= stripped.subrange(16 * k, 16 * k + 16));
        }
    }
    r
}

} // verus!
