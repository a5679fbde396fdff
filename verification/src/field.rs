//! The scalar field of the proof system, held as four little-endian 64-bit
//! limbs in canonical (fully reduced) form.
//!
//! The modulus is the prime
//! `p = 0x40000000000000000000000000000000224698fc094cf91b992d30ed00000001`,
//! the base field of the Pallas curve, over which the Poseidon sponge and the
//! commitment arithmetic run. Addition and reduction are implemented and
//! verified here limb by limb; only the Poseidon permutation itself is done
//! by the outside library (see the `sponge` module).

use vstd::arithmetic::div_mod::{lemma_fundamental_div_mod, lemma_mod_multiples_vanish, lemma_small_mod};
use vstd::prelude::*;

verus! {

/// Least-significant limb of the modulus `p`.
pub const MODULUS_LIMB_0: u64 = 0x992d30ed00000001;
/// Second limb of the modulus `p`.
pub const MODULUS_LIMB_1: u64 = 0x224698fc094cf91b;
/// Third limb of the modulus `p`.
pub const MODULUS_LIMB_2: u64 = 0x0000000000000000;
/// Most-significant limb of the modulus `p`.
pub const MODULUS_LIMB_3: u64 = 0x4000000000000000;

/// `2^64`, the radix of the limb representation.
pub const LIMB_RADIX: u128 = 0x1_0000_0000_0000_0000;

/// Positional value of four little-endian base-2^64 limbs.
pub open spec fn limbs_nat(s: Seq<u64>) -> nat
    recommends
        s.len() == 4,
{
    (s[0] + s[1] * 0x1_0000_0000_0000_0000 + s[2] * 0x1_0000_0000_0000_0000_0000_0000_0000_0000
        + s[3] * 0x1_0000_0000_0000_0000_0000_0000_0000_0000_0000_0000_0000_0000) as nat
}

/// The field modulus as a natural number.
pub open spec fn p_nat() -> nat {
    (MODULUS_LIMB_0 + MODULUS_LIMB_1 * 0x1_0000_0000_0000_0000 + MODULUS_LIMB_3
        * 0x1_0000_0000_0000_0000_0000_0000_0000_0000_0000_0000_0000_0000) as nat
}

/// The little-endian limbs of a value below 2^256.
pub open spec fn limbs_of_nat(v: nat) -> Seq<u64> {
    let b = 0x1_0000_0000_0000_0000 as nat;
    seq![
        (v % b) as u64,
        ((v / b) % b) as u64,
        (((v / b) / b) % b) as u64,
        (((v / b) / b) / b) as u64,
    ]
}

/// Reading the limbs back out of a positional value restores them.
pub proof fn lemma_limbs_of_nat_roundtrip(s: Seq<u64>)
    requires
        s.len() == 4,
    ensures
        limbs_of_nat(limbs_nat(s)) =~= s,
{
    lemma_limb_extract(s);
}

/// A canonical element of the scalar field: its positional value is below `p`.
#[derive(Clone, Copy, Debug)]
pub struct Felt {
    pub limbs: [u64; 4],
}

/// Four limbs determine their positional value uniquely: equal values mean
/// equal limbs.
pub proof fn lemma_limbs_nat_injective(a: Seq<u64>, b: Seq<u64>)
    requires
        a.len() == 4,
        b.len() == 4,
        limbs_nat(a) == limbs_nat(b),
    ensures
        a =~= b,
{
    lemma_limb_extract(a);
    lemma_limb_extract(b);
    assert(a[0] == b[0] && a[1] == b[1] && a[2] == b[2] && a[3] == b[3]);
}

/// Each limb can be read back out of the positional value by division and
/// remainder.
proof fn lemma_limb_extract(s: Seq<u64>)
    requires
        s.len() == 4,
    ensures
        s[0] == limbs_nat(s) % 0x1_0000_0000_0000_0000,
        s[1] == (limbs_nat(s) / 0x1_0000_0000_0000_0000) % 0x1_0000_0000_0000_0000,
        s[2] == ((limbs_nat(s) / 0x1_0000_0000_0000_0000) / 0x1_0000_0000_0000_0000)
            % 0x1_0000_0000_0000_0000,
        s[3] == ((limbs_nat(s) / 0x1_0000_0000_0000_0000) / 0x1_0000_0000_0000_0000)
            / 0x1_0000_0000_0000_0000,
{
    let radix: int = 0x1_0000_0000_0000_0000;
    let v: int = limbs_nat(s) as int;
    let k1: int = s[1] + s[2] * radix + s[3] * radix * radix;
    let k2: int = s[2] + s[3] * radix;
    let k3: int = s[3] as int;
    assert(v == radix * k1 + s[0]);
    lemma_mod_multiples_vanish(k1, s[0] as int, radix);
    lemma_small_mod(s[0] as nat, radix as nat);
    assert(v % radix == s[0]);
    lemma_fundamental_div_mod(v, radix);
    assert(v / radix == k1);
    lemma_mod_multiples_vanish(k2, s[1] as int, radix);
    lemma_small_mod(s[1] as nat, radix as nat);
    lemma_fundamental_div_mod(k1, radix);
    assert(k1 % radix == s[1]);
    assert(k1 / radix == k2);
    lemma_mod_multiples_vanish(k3, s[2] as int, radix);
    lemma_small_mod(s[2] as nat, radix as nat);
    lemma_fundamental_div_mod(k2, radix);
    assert(k2 % radix == s[2]);
    assert(k2 / radix == k3);
}

impl Felt {
    /// The limbs of this element, least significant first.
    pub open spec fn spec_limbs(self) -> Seq<u64> {
        self.limbs@
    }

    /// The integer this element stands for.
    pub open spec fn value(self) -> nat {
        limbs_nat(self.limbs@)
    }

    /// Canonical form: the value is fully reduced.
    pub open spec fn wf(self) -> bool {
        self.value() < p_nat()
    }

    /// The limbs of this element, least significant first.
    pub fn limbs(&self) -> (r: [u64; 4])
        ensures
            r@ == self.spec_limbs(),
    {
        self.limbs
    }

    /// The additive identity.
    pub fn zero() -> (r: Felt)
        ensures
            r.wf(),
            r.value() == 0,
    {
        Felt { limbs: [0, 0, 0, 0] }
    }

    /// The multiplicative identity.
    pub fn one() -> (r: Felt)
        ensures
            r.wf(),
            r.value() == 1,
    {
        Felt { limbs: [1, 0, 0, 0] }
    }

    /// Embeds a 64-bit integer; every such integer is below `p`.
    pub fn from_u64(x: u64) -> (r: Felt)
        ensures
            r.wf(),
            r.value() == x,
    {
        Felt { limbs: [x, 0, 0, 0] }
    }

    /// Equality of canonical elements is equality of their values.
    pub fn equals(&self, other: &Felt) -> (r: bool)
        ensures
            r == (self.value() == other.value()),
    {
        let eq = self.limbs[0] == other.limbs[0] && self.limbs[1] == other.limbs[1]
            && self.limbs[2] == other.limbs[2] && self.limbs[3] == other.limbs[3];
        proof {
            if !eq {
                if self.value() == other.value() {
                    lemma_limbs_nat_injective(self.limbs@, other.limbs@);
                }
            }
        }
        eq
    }

    /// Interprets four little-endian limbs as an integer and reduces it
    /// modulo `p`.
    pub fn from_raw(l: [u64; 4]) -> (r: Felt)
        ensures
            r.wf(),
            r.value() == limbs_nat(l@) % p_nat(),
    {
        // any 256-bit value is below 4p, so three conditional subtractions reduce it
        let ghost orig: nat = limbs_nat(l@);
        let mut cur = l;
        proof {
            lemma_limbs_nat_bound(cur@);
            assert(limbs_nat(cur@) < 4 * p_nat());
        }
        if !limbs_lt(&cur, &modulus_limbs()) {
            cur = sub_modulus(cur);
            proof {
                lemma_mod_sub_p(orig as int, limbs_nat(cur@) as int);
            }
        }
        let ghost v1: nat = limbs_nat(cur@);
        proof {
            assert(v1 < 3 * p_nat());
            assert(v1 % p_nat() == orig % p_nat());
        }
        if !limbs_lt(&cur, &modulus_limbs()) {
            cur = sub_modulus(cur);
            proof {
                lemma_mod_sub_p(v1 as int, limbs_nat(cur@) as int);
            }
        }
        let ghost v2: nat = limbs_nat(cur@);
        proof {
            assert(v2 < 2 * p_nat());
            assert(v2 % p_nat() == orig % p_nat());
        }
        if !limbs_lt(&cur, &modulus_limbs()) {
            cur = sub_modulus(cur);
            proof {
                lemma_mod_sub_p(v2 as int, limbs_nat(cur@) as int);
            }
        }
        proof {
            assert(limbs_nat(cur@) < p_nat());
            lemma_small_mod(limbs_nat(cur@), p_nat());
            assert(limbs_nat(cur@) % p_nat() == orig % p_nat());
        }
        Felt { limbs: cur }
    }

    /// Field addition: the sum of the two values, reduced modulo `p`.
    pub fn add(&self, other: &Felt) -> (r: Felt)
        requires
            self.wf(),
            other.wf(),
        ensures
            r.wf(),
            r.value() == (self.value() + other.value()) % p_nat(),
    {
        let ghost total: nat = (self.value() + other.value()) as nat;
        let (sum, carry) = add_limbs(&self.limbs, &other.limbs);
        proof {
            // the carry is zero because a + b < 2p < 2^256
            assert(carry == 0);
            assert(limbs_nat(sum@) == total);
        }
        let mut cur = sum;
        if !limbs_lt(&cur, &modulus_limbs()) {
            cur = sub_modulus(cur);
            proof {
                lemma_mod_sub_p(total as int, limbs_nat(cur@) as int);
            }
        }
        proof {
            assert(limbs_nat(cur@) < p_nat());
            lemma_small_mod(limbs_nat(cur@), p_nat());
        }
        Felt { limbs: cur }
    }
}

/// Any four limbs stand for a value below 2^256, which is below 4p.
proof fn lemma_limbs_nat_bound(s: Seq<u64>)
    requires
        s.len() == 4,
    ensures
        limbs_nat(s)
            < 0x1_0000_0000_0000_0000_0000_0000_0000_0000_0000_0000_0000_0000_0000_0000_0000_0000,
        limbs_nat(s) < 4 * p_nat(),
{
}

/// Subtracting one multiple of `p` does not change the remainder modulo `p`.
proof fn lemma_mod_sub_p(before: int, after: int)
    requires
        after == before - p_nat(),
    ensures
        after % (p_nat() as int) == before % (p_nat() as int),
{
    lemma_mod_multiples_vanish(1, after, p_nat() as int);
}

/// The modulus as a limb quadruple.
fn modulus_limbs() -> (r: [u64; 4])
    ensures
        limbs_nat(r@) == p_nat(),
{
    [MODULUS_LIMB_0, MODULUS_LIMB_1, MODULUS_LIMB_2, MODULUS_LIMB_3]
}

/// Limb-wise comparison, most significant limb first.
fn limbs_lt(a: &[u64; 4], b: &[u64; 4]) -> (r: bool)
    ensures
        r == (limbs_nat(a@) < limbs_nat(b@)),
{
    if a[3] != b[3] {
        proof {
            lemma_lt_from_high_limb(a@, b@, 3);
        }
        a[3] < b[3]
    } else if a[2] != b[2] {
        proof {
            lemma_lt_from_high_limb(a@, b@, 2);
        }
        a[2] < b[2]
    } else if a[1] != b[1] {
        proof {
            lemma_lt_from_high_limb(a@, b@, 1);
        }
        a[1] < b[1]
    } else {
        a[0] < b[0]
    }
}

/// If all limbs above position `i` agree and the limbs at `i` differ, the
/// order of the values is the order of the limbs at `i`.
proof fn lemma_lt_from_high_limb(a: Seq<u64>, b: Seq<u64>, i: int)
    requires
        a.len() == 4,
        b.len() == 4,
        1 <= i < 4,
        forall|j: int| i < j < 4 ==> a[j] == b[j],
        a[i] != b[i],
    ensures
        (limbs_nat(a) < limbs_nat(b)) == (a[i] < b[i]),
{
}

/// Schoolbook addition of two limb quadruples; the second output is the
/// final carry, so the positional value is exact.
fn add_limbs(a: &[u64; 4], b: &[u64; 4]) -> (r: ([u64; 4], u64))
    ensures
        limbs_nat(r.0@) + r.1
            * 0x1_0000_0000_0000_0000_0000_0000_0000_0000_0000_0000_0000_0000_0000_0000_0000_0000
            == limbs_nat(a@) + limbs_nat(b@),
        r.1 <= 1,
{
    let s0: u128 = (a[0] as u128) + (b[0] as u128);
    let r0: u64 = (s0 % LIMB_RADIX) as u64;
    let c0: u128 = s0 / LIMB_RADIX;
    let s1: u128 = (a[1] as u128) + (b[1] as u128) + c0;
    let r1: u64 = (s1 % LIMB_RADIX) as u64;
    let c1: u128 = s1 / LIMB_RADIX;
    let s2: u128 = (a[2] as u128) + (b[2] as u128) + c1;
    let r2: u64 = (s2 % LIMB_RADIX) as u64;
    let c2: u128 = s2 / LIMB_RADIX;
    let s3: u128 = (a[3] as u128) + (b[3] as u128) + c2;
    let r3: u64 = (s3 % LIMB_RADIX) as u64;
    let c3: u128 = s3 / LIMB_RADIX;
    proof {
        lemma_fundamental_div_mod(s0 as int, LIMB_RADIX as int);
        lemma_fundamental_div_mod(s1 as int, LIMB_RADIX as int);
        lemma_fundamental_div_mod(s2 as int, LIMB_RADIX as int);
        lemma_fundamental_div_mod(s3 as int, LIMB_RADIX as int);
    }
    ([r0, r1, r2, r3], c3 as u64)
}

/// Subtracts the modulus from a limb quadruple known to be at least `p`.
fn sub_modulus(a: [u64; 4]) -> (r: [u64; 4])
    requires
        limbs_nat(a@) >= p_nat(),
    ensures
        limbs_nat(r@) == limbs_nat(a@) - p_nat(),
{
    let t0: u128 = (a[0] as u128) + LIMB_RADIX - (MODULUS_LIMB_0 as u128);
    let r0: u64 = (t0 % LIMB_RADIX) as u64;
    let w0: u128 = 1 - t0 / LIMB_RADIX;
    let t1: u128 = (a[1] as u128) + LIMB_RADIX - (MODULUS_LIMB_1 as u128) - w0;
    let r1: u64 = (t1 % LIMB_RADIX) as u64;
    let w1: u128 = 1 - t1 / LIMB_RADIX;
    let t2: u128 = (a[2] as u128) + LIMB_RADIX - (MODULUS_LIMB_2 as u128) - w1;
    let r2: u64 = (t2 % LIMB_RADIX) as u64;
    let w2: u128 = 1 - t2 / LIMB_RADIX;
    let t3: u128 = (a[3] as u128) + LIMB_RADIX - (MODULUS_LIMB_3 as u128) - w2;
    let r3: u64 = (t3 % LIMB_RADIX) as u64;
    let w3: u128 = 1 - t3 / LIMB_RADIX;
    proof {
        lemma_fundamental_div_mod(t0 as int, LIMB_RADIX as int);
        lemma_fundamental_div_mod(t1 as int, LIMB_RADIX as int);
        lemma_fundamental_div_mod(t2 as int, LIMB_RADIX as int);
        lemma_fundamental_div_mod(t3 as int, LIMB_RADIX as int);
        lemma_limbs_nat_bound(a@);
    }
    let out = [r0, r1, r2, r3];
    proof {
        // a final borrow would mean the value was below p
        assert(w3 == 0);
        assert(limbs_nat(out@) == limbs_nat(a@) - p_nat());
    }
    out
}

} // verus!
