//! Cross-checks of the library against the outside crates it builds on: the
//! Poseidon compression against a direct call of the primitive, and the hex
//! form of a field element against the reference textual form.

use halo2_gadgets::poseidon::primitives::{ConstantLength, P128Pow5T3};
use halo2_proofs::pasta::Fp;
use zkdoc::field::Felt;
use zkdoc::services::{generate_row_hash, row_hash, to_hex_string};
use zkdoc::sha256::get_sha256;
use zkdoc::sponge::hash_two;

fn primitive_hash(a: Fp, b: Fp) -> Fp {
    halo2_gadgets::poseidon::primitives::Hash::<Fp, P128Pow5T3, ConstantLength<2>, 3, 2>::init()
        .hash([a, b])
}

#[test]
fn hash_two_matches_the_poseidon_primitive() {
    let expected = primitive_hash(Fp::from(5), Fp::from(7));
    let ours = hash_two(&Felt::from_u64(5), &Felt::from_u64(7));
    assert_eq!(format!("{:?}", expected), to_hex_string(&ours));
}

#[test]
fn hex_string_matches_the_reference_debug_form() {
    let value = Fp::from(1234567890123456789);
    let ours = Felt::from_u64(1234567890123456789);
    assert_eq!(format!("{:?}", value), to_hex_string(&ours));
}

#[test]
fn row_hash_matches_a_direct_primitive_computation() {
    let t = get_sha256("title").map(Fp::from);
    let c = get_sha256("content").map(Fp::from);
    let th = primitive_hash(primitive_hash(t[0], t[1]), primitive_hash(t[2], t[3]));
    let ch = primitive_hash(primitive_hash(c[0], c[1]), primitive_hash(c[2], c[3]));
    let expected = primitive_hash(th, ch);
    let ours = row_hash("title", "content");
    assert_eq!(format!("{:?}", expected), to_hex_string(&ours));
    assert_eq!(
        format!("{:?}", expected),
        generate_row_hash("title".to_string(), "content".to_string())
    );
}
