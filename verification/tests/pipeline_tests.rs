use zkdoc::field::Felt;
use zkdoc::services::accumulate_selected;
use zkdoc::services::compute_row_hashes;
use zkdoc::services::generate_row_hash;
use zkdoc::services::get_file_commitment_and_selected_row;
use zkdoc::services::get_selected_row;
use zkdoc::services::proof_public_inputs;
use zkdoc::services::row_hash;
use zkdoc::services::selectors_are_boolean;
use zkdoc::services::sha_to_field;
use zkdoc::services::to_hex_string;
use zkdoc::sponge::hash_two;

fn ten_rows() -> (Vec<String>, Vec<String>) {
    let titles: Vec<String> = (0..10).map(|i| format!("t{}", i)).collect();
    let contents: Vec<String> = (0..10).map(|i| format!("c{}", i)).collect();
    (titles, contents)
}

#[test]
fn hash_two_is_not_the_identity() {
    let zero = Felt::zero();
    let h = hash_two(&zero, &zero);
    assert!(!h.equals(&zero));
}

#[test]
fn hash_two_deterministic() {
    let a = Felt::from_u64(5);
    let b = Felt::from_u64(7);
    assert!(hash_two(&a, &b).equals(&hash_two(&a, &b)));
}

#[test]
fn row_hash_matches_the_seven_compression_tree() {
    let t = sha_to_field("a");
    let c = sha_to_field("b");
    let t1 = hash_two(&t[0], &t[1]);
    let t2 = hash_two(&t[2], &t[3]);
    let th = hash_two(&t1, &t2);
    let c1 = hash_two(&c[0], &c[1]);
    let c2 = hash_two(&c[2], &c[3]);
    let ch = hash_two(&c1, &c2);
    let expected = hash_two(&th, &ch);
    assert!(row_hash("a", "b").equals(&expected));
}

#[test]
fn generate_row_hash_is_the_hex_of_the_row_hash() {
    let s = generate_row_hash("title".to_string(), "content".to_string());
    let h = row_hash("title", "content");
    assert_eq!(s, to_hex_string(&h));
    assert!(s.starts_with("0x"));
    assert_eq!(s.len(), 66);
}

#[test]
fn get_selected_row_matches_generate_row_hash() {
    assert_eq!(
        get_selected_row("t0".to_string(), "c0".to_string()),
        generate_row_hash("t0".to_string(), "c0".to_string())
    );
}

#[test]
fn row_hash_of_empty_strings_is_stable() {
    let a = row_hash("", "");
    let b = row_hash("", "");
    assert!(a.equals(&b));
}

#[test]
fn commitment_of_two_rows_is_one_compression() {
    let titles = vec!["t0".to_string(), "t1".to_string()];
    let contents = vec!["c0".to_string(), "c1".to_string()];
    let selectors = vec![0u64, 0u64];
    let s = get_file_commitment_and_selected_row(&titles, &contents, &selectors);
    let h0 = row_hash("t0", "c0");
    let h1 = row_hash("t1", "c1");
    assert_eq!(s, to_hex_string(&hash_two(&h0, &h1)));
}

#[test]
fn commitment_chain_is_left_leaning() {
    let titles = vec!["t0".to_string(), "t1".to_string(), "t2".to_string()];
    let contents = vec!["c0".to_string(), "c1".to_string(), "c2".to_string()];
    let selectors = vec![0u64, 0u64, 0u64];
    let s = get_file_commitment_and_selected_row(&titles, &contents, &selectors);
    let h0 = row_hash("t0", "c0");
    let h1 = row_hash("t1", "c1");
    let h2 = row_hash("t2", "c2");
    let chained = hash_two(&hash_two(&h0, &h1), &h2);
    assert_eq!(s, to_hex_string(&chained));
}

#[test]
fn commitment_is_deterministic() {
    let (titles, contents) = ten_rows();
    let selectors = vec![0u64; 10];
    let first = get_file_commitment_and_selected_row(&titles, &contents, &selectors);
    let second = get_file_commitment_and_selected_row(&titles, &contents, &selectors);
    assert_eq!(first, second);
}

#[test]
fn commitment_changes_when_rows_swap() {
    let (titles, contents) = ten_rows();
    let selectors = vec![0u64; 10];
    let baseline = get_file_commitment_and_selected_row(&titles, &contents, &selectors);
    let mut swapped_titles = titles.clone();
    let mut swapped_contents = contents.clone();
    swapped_titles.swap(0, 1);
    swapped_contents.swap(0, 1);
    let swapped = get_file_commitment_and_selected_row(&swapped_titles, &swapped_contents, &selectors);
    assert_ne!(baseline, swapped);
}

#[test]
fn accumulator_of_no_selected_rows_is_zero() {
    let (titles, contents) = ten_rows();
    let selectors = vec![0u64; 10];
    let (_, acc) = proof_public_inputs(&titles, &contents, &selectors);
    assert!(acc.equals(&Felt::zero()));
}

#[test]
fn accumulator_of_a_single_selected_row_is_its_hash() {
    let (titles, contents) = ten_rows();
    let mut selectors = vec![0u64; 10];
    selectors[0] = 1;
    let (_, acc) = proof_public_inputs(&titles, &contents, &selectors);
    assert!(acc.equals(&row_hash("t0", "c0")));
}

#[test]
fn accumulator_of_all_rows_is_the_field_sum() {
    let (titles, contents) = ten_rows();
    let selectors = vec![1u64; 10];
    let (_, acc) = proof_public_inputs(&titles, &contents, &selectors);
    let hashes = compute_row_hashes(&titles, &contents);
    let mut sum = Felt::zero();
    for h in &hashes {
        sum = sum.add(h);
    }
    assert!(acc.equals(&sum));
    // no single row hash coincides with the sum of all ten
    for h in &hashes {
        assert!(!h.equals(&acc));
    }
}

#[test]
fn accumulator_is_linear_in_disjoint_selectors() {
    let (titles, contents) = ten_rows();
    let hashes = compute_row_hashes(&titles, &contents);
    let s1: Vec<u64> = vec![1, 0, 1, 0, 0, 0, 0, 0, 0, 1];
    let s2: Vec<u64> = vec![0, 1, 0, 0, 1, 0, 0, 0, 1, 0];
    let s3: Vec<u64> = (0..10).map(|i| s1[i] + s2[i]).collect();
    let a1 = accumulate_selected(&hashes, &s1);
    let a2 = accumulate_selected(&hashes, &s2);
    let a3 = accumulate_selected(&hashes, &s3);
    assert!(a3.equals(&a1.add(&a2)));
}

#[test]
fn non_boolean_selectors_are_rejected_by_the_check() {
    assert!(selectors_are_boolean(&vec![0, 1, 1, 0]));
    assert!(!selectors_are_boolean(&vec![0, 1, 2, 0]));
    assert!(!selectors_are_boolean(&vec![u64::MAX]));
    assert!(selectors_are_boolean(&vec![]));
}

#[test]
fn row_hash_from_limbs_matches_row_hash() {
    let t = zkdoc::sha256::get_sha256("t0");
    let c = zkdoc::sha256::get_sha256("c0");
    let from_limbs = zkdoc::services::row_hash_from_limbs(&t, &c);
    assert!(from_limbs.equals(&row_hash("t0", "c0")));
}

#[test]
fn commitment_from_limbs_matches_the_string_pipeline() {
    let (titles, contents) = ten_rows();
    let selectors: Vec<u64> = vec![1, 0, 1, 0, 1, 0, 1, 0, 1, 0];
    let t_limbs: Vec<[u64; 4]> = titles.iter().map(|s| zkdoc::sha256::get_sha256(s)).collect();
    let c_limbs: Vec<[u64; 4]> = contents.iter().map(|s| zkdoc::sha256::get_sha256(s)).collect();
    let (c1, a1) = zkdoc::services::commitment_and_accumulator(&t_limbs, &c_limbs, &selectors);
    let (c2, a2) = proof_public_inputs(&titles, &contents, &selectors);
    assert!(c1.equals(&c2));
    assert!(a1.equals(&a2));
}

#[test]
fn proof_bytes_survive_a_serde_round_trip() {
    let proof: Vec<u8> = (0..255u8).collect();
    let text = serde_json::to_string(&proof).unwrap();
    let back: Vec<u8> = serde_json::from_str(&text).unwrap();
    assert_eq!(proof, back);
}
