//! The two-to-one Poseidon compression `H : F x F -> F`.
//!
//! The permutation (`P128Pow5T3`: width 3, rate 2, S-box `x^5`, the reference
//! round constants and MDS matrix over the Pallas base field) is computed by
//! the outside `halo2_poseidon` crate; its output on a pair of field elements
//! is a fixed value that this module only names. Everything built on top of
//! the compression — the row-hash tree, the commitment chain, the selector
//! accumulator — is verified against that name.

use crate::field::{limbs_nat, p_nat, Felt};
use ff::PrimeField;
use halo2_gadgets::poseidon::primitives::{ConstantLength, Hash as PoseidonHash, P128Pow5T3};
use halo2_proofs::pasta::Fp;
use vstd::prelude::*;

verus! {

/// The value of the Poseidon compression on two canonical field elements;
/// what it is, the permutation's specification fixes, and this crate only
/// names.
pub uninterp spec fn spec_hash2(a: nat, b: nat) -> nat;

/// Relies on halo2_poseidon's `Hash` with the `P128Pow5T3` parameters
/// (width 3, rate 2, constant input length 2) over the Pallas base field:
/// the output is a canonical field element determined by the two input
/// elements alone, the same in every process and on every machine.
#[verifier::external_body]
fn poseidon_compress(a: &[u64; 4], b: &[u64; 4]) -> (r: [u64; 4])
    requires
        limbs_nat(a@) < p_nat(),
        limbs_nat(b@) < p_nat(),
    ensures
        limbs_nat(r@) == spec_hash2(limbs_nat(a@), limbs_nat(b@)),
        limbs_nat(r@) < p_nat(),
{
    let out = PoseidonHash::<Fp, P128Pow5T3, ConstantLength<2>, 3, 2>::init().hash([
        Fp::from_raw(*a),
        Fp::from_raw(*b),
    ]);
    let repr = out.to_repr();
    [
        u64::from_le_bytes(repr[0..8].try_into().unwrap()),
        u64::from_le_bytes(repr[8..16].try_into().unwrap()),
        u64::from_le_bytes(repr[16..24].try_into().unwrap()),
        u64::from_le_bytes(repr[24..32].try_into().unwrap()),
    ]
}

/// The Poseidon compression of two field elements.
pub fn hash_two(a: &Felt, b: &Felt) -> (r: Felt)
    requires
        a.wf(),
        b.wf(),
    ensures
        r.wf(),
        r.value() == spec_hash2(a.value(), b.value()),
{
    let limbs = poseidon_compress(&a.limbs, &b.limbs);
    Felt { limbs }
}

} // verus!
