use zkdoc::conversion::convert_hash_u32_to_u64;
use zkdoc::conversion::convert_hash_u32_to_u64_LE;
use zkdoc::conversion::convert_hash_u64_to_u32;
use zkdoc::conversion::convert_to_u64_array;
use zkdoc::conversion::convert_u32_to_u64_BE;
use zkdoc::conversion::convert_u64_to_u32_BE;

const WORDS: [u32; 8] = [
    1803989619, 4281662689, 2641068110, 4284104535, 1202562282, 2720996681, 3223212765, 3079101259,
];

#[test]
fn convert_u32_to_u64_be_exact() {
    assert_eq!(
        convert_u32_to_u64_BE([1803989619, 4281662689]),
        7748076420210162913
    );
    assert_eq!(convert_u32_to_u64_BE([0, 1]), 1);
    assert_eq!(convert_u32_to_u64_BE([1, 0]), 1 << 32);
}

#[test]
fn convert_hash_u32_to_u64_packs_pairs() {
    let limbs = convert_hash_u32_to_u64(WORDS);
    for k in 0..4 {
        let expected = (WORDS[2 * k] as u64) * (1u64 << 32) + WORDS[2 * k + 1] as u64;
        assert_eq!(limbs[k], expected);
    }
}

#[test]
fn convert_hash_u32_to_u64_le_reverses() {
    let be = convert_hash_u32_to_u64(WORDS);
    let le = convert_hash_u32_to_u64_LE(WORDS);
    for k in 0..4 {
        assert_eq!(le[k], be[3 - k]);
    }
}

#[test]
fn convert_u64_to_u32_be_splits() {
    assert_eq!(
        convert_u64_to_u32_BE(7748076420210162913),
        [1803989619, 4281662689]
    );
    assert_eq!(convert_u64_to_u32_BE(1), [0, 1]);
}

#[test]
fn convert_words_limbs_round_trip() {
    assert_eq!(convert_hash_u64_to_u32(convert_hash_u32_to_u64(WORDS)), WORDS);
}

#[test]
fn convert_to_u64_array_takes_first_four() {
    let input: [u64; 6] = [9, 8, 7, 6, 5, 4];
    assert_eq!(convert_to_u64_array(&input), [9, 8, 7, 6]);
}
