use zkdoc::field::Felt;
use zkdoc::services::to_hex_string;
use zkdoc::services::verify_input_element;

const P_LIMBS: [u64; 4] = [
    11037532056220336129,
    2469829653914515739,
    0,
    4611686018427387904,
];

#[test]
fn felt_from_u64_limbs() {
    assert_eq!(Felt::from_u64(5).limbs(), [5, 0, 0, 0]);
    assert_eq!(Felt::zero().limbs(), [0, 0, 0, 0]);
    assert_eq!(Felt::one().limbs(), [1, 0, 0, 0]);
}

#[test]
fn felt_from_raw_small_is_unchanged() {
    assert_eq!(Felt::from_raw([5, 6, 7, 8]).limbs(), [5, 6, 7, 8]);
}

#[test]
fn felt_from_raw_reduces_the_modulus_to_zero() {
    let r = Felt::from_raw(P_LIMBS);
    assert!(r.equals(&Felt::zero()));
}

#[test]
fn felt_from_raw_reduces_all_ones() {
    let r = Felt::from_raw([u64::MAX; 4]);
    assert_eq!(
        r.limbs(),
        [
            3780891978758094844,
            11037255111966004397,
            18446744073709551615,
            4611686018427387903
        ]
    );
}

#[test]
fn felt_add_wraps_at_the_modulus() {
    let mut almost = P_LIMBS;
    almost[0] -= 1;
    let p_minus_one = Felt::from_raw(almost);
    let two = Felt::from_u64(2);
    assert!(p_minus_one.add(&two).equals(&Felt::one()));
}

#[test]
fn felt_add_zero_is_identity() {
    let x = Felt::from_u64(123456789);
    assert!(x.add(&Felt::zero()).equals(&x));
}

#[test]
fn felt_equals_is_value_equality() {
    assert!(Felt::from_u64(3).equals(&Felt::from_u64(3)));
    assert!(!Felt::from_u64(3).equals(&Felt::from_u64(4)));
}

#[test]
fn hex_string_of_small_value() {
    let s = to_hex_string(&Felt::from_u64(255));
    assert_eq!(
        s,
        "0x00000000000000000000000000000000000000000000000000000000000000ff"
    );
    assert_eq!(s.len(), 66);
}

#[test]
fn verify_input_element_small_digest() {
    // the reversed digest of "hello" is already below the modulus
    let r = verify_input_element("hello");
    assert_eq!(
        r.limbs(),
        [
            8287805712743766052,
            1951780869528568414,
            2803555822930092702,
            3238736544897475342
        ]
    );
}

#[test]
fn verify_input_element_reduced_digest() {
    // the reversed digest of "a" is above the modulus and gets reduced
    let r = verify_input_element("a");
    assert_eq!(
        r.limbs(),
        [
            17147707088859711672,
            4662110738244264735,
            18069059302418799693,
            763220579562798538
        ]
    );
}

#[test]
fn verify_input_element_deterministic() {
    assert_eq!(
        verify_input_element("commitment").limbs(),
        verify_input_element("commitment").limbs()
    );
}
