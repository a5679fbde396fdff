//! Laws of the digest pipeline, stated over the spec functions of the
//! `services` module and proved once and for all.

use crate::field::p_nat;
use crate::services::{spec_accumulator, spec_quartet};
use vstd::arithmetic::div_mod::{lemma_add_mod_noop, lemma_mod_bound, lemma_small_mod};
use vstd::prelude::*;

verus! {

/// The SHA-to-field embedding is a function of the input bytes alone: equal
/// inputs give equal quartets, on every run and platform.
pub proof fn lemma_sha_to_field_function(a: Seq<u8>, b: Seq<u8>)
    requires
        a == b,
    ensures
        spec_quartet(a) == spec_quartet(b),
{
}

/// Every selector accumulator value is a canonical field element.
pub proof fn lemma_accumulator_bound(h: Seq<nat>, sel: Seq<u64>)
    ensures
        spec_accumulator(h, sel) < p_nat(),
    decreases h.len(),
{
    if h.len() == 0 {
    } else {
        lemma_accumulator_bound(h.drop_last(), sel.drop_last());
        if sel[h.len() - 1] == 1 {
            lemma_mod_bound(
                (spec_accumulator(h.drop_last(), sel.drop_last()) + h.last()) as int,
                p_nat() as int,
            );
        }
    }
}

/// With every selector zero the accumulator is zero.
pub proof fn lemma_accumulator_all_zero(h: Seq<nat>, sel: Seq<u64>)
    requires
        h.len() == sel.len(),
        forall|i: int| 0 <= i < sel.len() ==> sel[i] == 0,
    ensures
        spec_accumulator(h, sel) == 0,
    decreases h.len(),
{
    if h.len() > 0 {
        lemma_accumulator_all_zero(h.drop_last(), sel.drop_last());
    }
}

/// With exactly one selector set, the accumulator is exactly that row's
/// hash.
pub proof fn lemma_accumulator_single(h: Seq<nat>, sel: Seq<u64>, j: int)
    requires
        h.len() == sel.len(),
        0 <= j < h.len(),
        sel[j] == 1,
        forall|i: int| 0 <= i < sel.len() && i != j ==> sel[i] == 0,
        forall|i: int| 0 <= i < h.len() ==> h[i] < p_nat(),
    ensures
        spec_accumulator(h, sel) == h[j],
    decreases h.len(),
{
    if j == h.len() - 1 {
        lemma_accumulator_all_zero(h.drop_last(), sel.drop_last());
        lemma_small_mod(h[j] as nat, p_nat());
    } else {
        lemma_accumulator_single(h.drop_last(), sel.drop_last(), j);
    }
}

/// Selector accumulator linearity: for boolean selector vectors with no row
/// selected by both, the accumulator of their pointwise sum is the field sum
/// of their accumulators.
pub proof fn lemma_accumulator_linear(h: Seq<nat>, s1: Seq<u64>, s2: Seq<u64>, s3: Seq<u64>)
    requires
        h.len() == s1.len(),
        h.len() == s2.len(),
        h.len() == s3.len(),
        forall|i: int| 0 <= i < h.len() ==> (s1[i] == 0 || s1[i] == 1),
        forall|i: int| 0 <= i < h.len() ==> (s2[i] == 0 || s2[i] == 1),
        forall|i: int| 0 <= i < h.len() ==> !(s1[i] == 1 && s2[i] == 1),
        forall|i: int| 0 <= i < h.len() ==> s3[i] == s1[i] + s2[i],
        forall|i: int| 0 <= i < h.len() ==> h[i] < p_nat(),
    ensures
        spec_accumulator(h, s3) == (spec_accumulator(h, s1) + spec_accumulator(h, s2)) % p_nat(),
    decreases h.len(),
{
    let p = p_nat() as int;
    if h.len() == 0 {
        lemma_small_mod(0, p_nat());
    } else {
        let hp = h.drop_last();
        lemma_accumulator_linear(hp, s1.drop_last(), s2.drop_last(), s3.drop_last());
        let a = spec_accumulator(hp, s1.drop_last()) as int;
        let b = spec_accumulator(hp, s2.drop_last()) as int;
        let x = h.last() as int;
        lemma_accumulator_bound(hp, s1.drop_last());
        lemma_accumulator_bound(hp, s2.drop_last());
        lemma_small_mod(h.last(), p_nat());
        let last = h.len() - 1;
        if s1[last] == 1 {
            // left side adds x after reducing a + b; right side adds x to a first
            lemma_add_mod_noop(a + b, x, p);
            lemma_add_mod_noop(a + x, b, p);
            lemma_small_mod(b as nat, p_nat());
        } else if s2[last] == 1 {
            lemma_add_mod_noop(a + b, x, p);
            lemma_add_mod_noop(b + x, a, p);
            lemma_small_mod(a as nat, p_nat());
        }
    }
}

} // verus!
