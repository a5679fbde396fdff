use zkdoc::sha256::get_sha256;
use zkdoc::sha256::sha256_str_to_u64_arr;

const HELLO_LIMBS: [u64; 4] = [
    3238736544897475342,
    2803555822930092702,
    1951780869528568414,
    8287805712743766052,
];

#[test]
fn sha256_test() {
    get_sha256("hello");
}

#[test]
fn get_sha256_hello_exact() {
    assert_eq!(get_sha256("hello"), HELLO_LIMBS);
}

#[test]
fn get_sha256_empty_exact() {
    assert_eq!(
        get_sha256(""),
        [
            16406829232824261652,
            11167788843400149284,
            2859295262623109964,
            11859553537011923029
        ]
    );
}

#[test]
fn get_sha256_deterministic() {
    assert_eq!(get_sha256("determinism"), get_sha256("determinism"));
}

#[test]
fn sha256_str_parses_hello_digest() {
    let parsed =
        sha256_str_to_u64_arr("0x2cf24dba5fb0a30e26e83b2ac5b9e29e1b161e5c1fa7425e73043362938b9824");
    assert_eq!(parsed, HELLO_LIMBS);
}

#[test]
fn sha256_str_accepts_bare_and_uppercase() {
    let bare =
        sha256_str_to_u64_arr("2cf24dba5fb0a30e26e83b2ac5b9e29e1b161e5c1fa7425e73043362938b9824");
    let upper =
        sha256_str_to_u64_arr("0x2CF24DBA5FB0A30E26E83B2AC5B9E29E1B161E5C1FA7425E73043362938B9824");
    assert_eq!(bare, HELLO_LIMBS);
    assert_eq!(upper, HELLO_LIMBS);
}

#[test]
fn sha256_str_zero_digest() {
    let zeros = "0x0000000000000000000000000000000000000000000000000000000000000000";
    assert_eq!(sha256_str_to_u64_arr(zeros), [0, 0, 0, 0]);
}
