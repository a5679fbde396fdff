//! The native digest pipeline: row hashes, the document commitment, the
//! selector accumulator, and the textual form of a field element.
//!
//! A row's hash is a seven-compression tree over the SHA-256 quartets of its
//! title and content. The commitment of a document is the left-leaning chain
//! `H(...H(H(h_0, h_1), h_2)..., h_{L-1})`; the selector accumulator is the
//! field sum of the hashes of the rows whose selector is one. Both are
//! computed here exactly as the constraint system re-computes them, and each
//! public function's contract pins its result to these spec functions.

use crate::field::{limbs_nat, limbs_of_nat, p_nat, Felt};
use crate::sha256::{get_sha256, spec_sha_limbs};
use crate::sponge::{hash_two, spec_hash2};
use vstd::arithmetic::power::{lemma_pow1, lemma_pow_adds, lemma_pow_increases, pow};
use vstd::prelude::*;
use vstd::string::StringSliceAdditionalSpecFns;
use vstd::utf8::encode_utf8;

verus! {

/// The four field elements a byte sequence's SHA-256 digest embeds to.
pub open spec fn spec_quartet(bytes: Seq<u8>) -> Seq<nat> {
    spec_sha_limbs(bytes).map(|i: int, x: u64| x as nat)
}

/// The three-compression tree over one digest quartet:
/// `H(H(d0, d1), H(d2, d3))`.
pub open spec fn spec_tree_hash(q: Seq<nat>) -> nat {
    spec_hash2(spec_hash2(q[0], q[1]), spec_hash2(q[2], q[3]))
}

/// The four field elements of a digest already given as limbs.
pub open spec fn spec_limb_quartet(limbs: Seq<u64>) -> Seq<nat> {
    limbs.map(|i: int, x: u64| x as nat)
}

/// The hash of one row given its two digest quartets: the compression of
/// the title tree and the content tree — seven compressions in all.
pub open spec fn spec_row_hash_quartets(title: Seq<nat>, content: Seq<nat>) -> nat {
    spec_hash2(spec_tree_hash(title), spec_tree_hash(content))
}

/// The hash of one row given its title and content bytes.
pub open spec fn spec_row_hash(title: Seq<u8>, content: Seq<u8>) -> nat {
    spec_row_hash_quartets(spec_quartet(title), spec_quartet(content))
}

/// The hashes of all rows of a document, titles and contents given as
/// character sequences.
pub open spec fn spec_doc_row_hashes(titles: Seq<Seq<char>>, contents: Seq<Seq<char>>) -> Seq<
    nat,
> {
    Seq::new(titles.len(), |i: int| spec_row_hash(encode_utf8(titles[i]), encode_utf8(contents[i])))
}

/// The left-leaning commitment chain over at least two row hashes:
/// `H(h_0, h_1)`, then each further hash folded in on the right.
pub open spec fn spec_commitment(h: Seq<nat>) -> nat
    recommends
        h.len() >= 2,
    decreases h.len(),
{
    if h.len() <= 2 {
        spec_hash2(h[0], h[1])
    } else {
        spec_hash2(spec_commitment(h.drop_last()), h.last())
    }
}

/// The selector accumulator: the field sum of the hashes whose selector is
/// exactly one.
pub open spec fn spec_accumulator(h: Seq<nat>, sel: Seq<u64>) -> nat
    recommends
        h.len() == sel.len(),
    decreases h.len(),
{
    if h.len() == 0 {
        0
    } else {
        let prev = spec_accumulator(h.drop_last(), sel.drop_last());
        if sel[h.len() - 1] == 1 {
            (prev + h.last()) % p_nat()
        } else {
            prev
        }
    }
}

/// The values of a sequence of field elements.
pub open spec fn felt_values(s: Seq<Felt>) -> Seq<nat> {
    s.map(|i: int, f: Felt| f.value())
}

/// All elements of a sequence are canonical.
pub open spec fn all_wf(s: Seq<Felt>) -> bool {
    forall|i: int| 0 <= i < s.len() ==> (#[trigger] s[i]).wf()
}

/// The lowercase hex character of one nibble.
pub open spec fn spec_hex_char(d: nat) -> char {
    if d < 10 {
        ((0x30 + d) as u8) as char
    } else {
        ((0x57 + d) as u8) as char
    }
}

/// The sixteen hex characters of one limb, most significant nibble first.
pub open spec fn spec_limb_hex(l: u64) -> Seq<char> {
    Seq::new(16, |j: int| spec_hex_char(((l as int / pow(16, (15 - j) as nat)) % 16) as nat))
}

/// The textual form of a field element given by its limbs: `0x` followed by
/// 64 hex digits, most significant byte first.
pub open spec fn spec_hex_string(limbs: Seq<u64>) -> Seq<char> {
    seq!['0', 'x'] + spec_limb_hex(limbs[3]) + spec_limb_hex(limbs[2]) + spec_limb_hex(limbs[1])
        + spec_limb_hex(limbs[0])
}

/// The textual form of a field value below `p`.
pub open spec fn spec_field_hex(v: nat) -> Seq<char> {
    spec_hex_string(limbs_of_nat(v))
}

/// Relies on String::push: it appends exactly the one character.
#[verifier::external_body]
fn push_char(s: &mut String, c: char)
    ensures
        final(s)@ == old(s)@.push(c),
{
    s.push(c);
}

/// `16^e` for exponents small enough that the power fits a limb.
fn pow16(e: usize) -> (r: u64)
    requires
        e <= 15,
    ensures
        r == pow(16, e as nat),
        r >= 1,
{
    let mut r: u64 = 1;
    let mut i: usize = 0;
    proof {
        vstd::arithmetic::power::lemma_pow0(16);
        assert(pow(16, 15) == 0x1000_0000_0000_0000) by {
            reveal_with_fuel(pow, 16);
        }
    }
    while i < e
        invariant
            i <= e <= 15,
            r == pow(16, i as nat),
            r >= 1,
            pow(16, 15) == 0x1000_0000_0000_0000,
        decreases e - i,
    {
        proof {
            lemma_pow_adds(16, i as nat, 1);
            lemma_pow1(16);
            lemma_pow_increases(16, (i + 1) as nat, 15);
        }
        r = r * 16;
        i = i + 1;
    }
    r
}

/// Appends the sixteen hex characters of one limb, most significant nibble
/// first.
fn push_limb_hex(s: &mut String, l: u64)
    ensures
        final(s)@ == old(s)@ + spec_limb_hex(l),
{
    let mut j: usize = 0;
    while j < 16
        invariant
            j <= 16,
            s@ == old(s)@ + spec_limb_hex(l).take(j as int),
        decreases 16 - j,
    {
        let d: u64 = (l / pow16(15 - j)) % 16;
        let c: u8 = if d < 10 {
            0x30 + (d as u8)
        } else {
            0x57 + (d as u8)
        };
        push_char(s, c as char);
        j = j + 1;
        proof {
            assert(spec_limb_hex(l)[j - 1] == (c as char));
            assert(spec_limb_hex(l).take(j as int) =~= spec_limb_hex(l).take(j - 1).push(
                (c as char),
            ));
        }
    }
    proof {
        assert(spec_limb_hex(l).take(16) =~= spec_limb_hex(l));
    }
}

/// The textual form of a field element: `0x` followed by its 64 hex digits,
/// most significant byte first.
pub fn to_hex_string(f: &Felt) -> (r: String)
    requires
        f.wf(),
    ensures
        r@ == spec_field_hex(f.value()),
{
    let mut s = String::new();
    push_char(&mut s, '0');
    push_char(&mut s, 'x');
    push_limb_hex(&mut s, f.limbs[3]);
    push_limb_hex(&mut s, f.limbs[2]);
    push_limb_hex(&mut s, f.limbs[1]);
    push_limb_hex(&mut s, f.limbs[0]);
    proof {
        crate::field::lemma_limbs_of_nat_roundtrip(f.spec_limbs());
        assert(s@ =~= spec_hex_string(f.spec_limbs()));
    }
    s
}

/// The SHA-256 digest of a string, embedded as four field elements.
pub fn sha_to_field(input: &str) -> (r: [Felt; 4])
    ensures
        forall|k: int| 0 <= k < 4 ==> (#[trigger] r@[k]).wf(),
        forall|k: int| 0 <= k < 4 ==> r@[k].value() == spec_quartet(input.spec_bytes())[k],
{
    let limbs = get_sha256(input);
    let r = [
        Felt::from_u64(limbs[0]),
        Felt::from_u64(limbs[1]),
        Felt::from_u64(limbs[2]),
        Felt::from_u64(limbs[3]),
    ];
    r
}

/// The hash of one row: SHA-256 of the title and of the content, each
/// embedded as a quartet, then the seven-compression tree.
pub fn row_hash(title: &str, content: &str) -> (r: Felt)
    ensures
        r.wf(),
        r.value() == spec_row_hash(title.spec_bytes(), content.spec_bytes()),
{
    let t = sha_to_field(title);
    let c = sha_to_field(content);
    let t1 = hash_two(&t[0], &t[1]);
    let t2 = hash_two(&t[2], &t[3]);
    let th = hash_two(&t1, &t2);
    let c1 = hash_two(&c[0], &c[1]);
    let c2 = hash_two(&c[2], &c[3]);
    let ch = hash_two(&c1, &c2);
    hash_two(&th, &ch)
}

/// The hashes of all rows of a document whose digests are already given as
/// limb quartets.
pub open spec fn spec_limb_doc_row_hashes(
    titles: Seq<[u64; 4]>,
    contents: Seq<[u64; 4]>,
) -> Seq<nat> {
    Seq::new(
        titles.len(),
        |i: int|
            spec_row_hash_quartets(spec_limb_quartet(titles[i]@), spec_limb_quartet(contents[i]@)),
    )
}

/// The hash of one row given the digest quartets of its title and content.
pub fn row_hash_from_limbs(title: &[u64; 4], content: &[u64; 4]) -> (r: Felt)
    ensures
        r.wf(),
        r.value() == spec_row_hash_quartets(
            spec_limb_quartet(title@),
            spec_limb_quartet(content@),
        ),
{
    let t1 = hash_two(&Felt::from_u64(title[0]), &Felt::from_u64(title[1]));
    let t2 = hash_two(&Felt::from_u64(title[2]), &Felt::from_u64(title[3]));
    let th = hash_two(&t1, &t2);
    let c1 = hash_two(&Felt::from_u64(content[0]), &Felt::from_u64(content[1]));
    let c2 = hash_two(&Felt::from_u64(content[2]), &Felt::from_u64(content[3]));
    let ch = hash_two(&c1, &c2);
    hash_two(&th, &ch)
}

/// The commitment and the selector accumulator of a document whose digests
/// are already given as limb quartets.
pub fn commitment_and_accumulator(
    row_title_limbs: &Vec<[u64; 4]>,
    row_content_limbs: &Vec<[u64; 4]>,
    row_selectors: &Vec<u64>,
) -> (r: (Felt, Felt))
    requires
        row_title_limbs@.len() == row_content_limbs@.len(),
        row_title_limbs@.len() == row_selectors@.len(),
        row_title_limbs@.len() >= 2,
    ensures
        r.0.wf(),
        r.1.wf(),
        r.0.value() == spec_commitment(
            spec_limb_doc_row_hashes(row_title_limbs@, row_content_limbs@),
        ),
        r.1.value() == spec_accumulator(
            spec_limb_doc_row_hashes(row_title_limbs@, row_content_limbs@),
            row_selectors@,
        ),
{
    let ghost spec_hashes = spec_limb_doc_row_hashes(row_title_limbs@, row_content_limbs@);
    let mut hashes: Vec<Felt> = Vec::new();
    let mut i: usize = 0;
    while i < row_title_limbs.len()
        invariant
            i <= row_title_limbs@.len(),
            row_title_limbs@.len() == row_content_limbs@.len(),
            hashes@.len() == i,
            all_wf(hashes@),
            spec_hashes == spec_limb_doc_row_hashes(row_title_limbs@, row_content_limbs@),
            forall|k: int| 0 <= k < i ==> (#[trigger] hashes@[k]).value() == spec_hashes[k],
        decreases row_title_limbs@.len() - i,
    {
        let h = row_hash_from_limbs(&row_title_limbs[i], &row_content_limbs[i]);
        hashes.push(h);
        i = i + 1;
    }
    proof {
        assert(felt_values(hashes@) =~= spec_hashes);
    }
    let c = fold_commitment(&hashes);
    let a = accumulate_selected(&hashes, row_selectors);
    (c, a)
}

/// The textual form of one row's hash.
pub fn generate_row_hash(row_title_str: String, row_content_str: String) -> (r: String)
    ensures
        r@ == spec_field_hex(
            spec_row_hash(encode_utf8(row_title_str@), encode_utf8(row_content_str@)),
        ),
{
    let h = row_hash(row_title_str.as_str(), row_content_str.as_str());
    to_hex_string(&h)
}

/// The textual form of one row's hash, as the verifier derives it for the
/// row it is handed.
pub fn get_selected_row(row_title_str: String, row_content_str: String) -> (r: String)
    ensures
        r@ == spec_field_hex(
            spec_row_hash(encode_utf8(row_title_str@), encode_utf8(row_content_str@)),
        ),
{
    generate_row_hash(row_title_str, row_content_str)
}

/// The hashes of all rows, in order.
pub fn compute_row_hashes(row_titles: &Vec<String>, row_contents: &Vec<String>) -> (r: Vec<Felt>)
    requires
        row_titles@.len() == row_contents@.len(),
    ensures
        r@.len() == row_titles@.len(),
        all_wf(r@),
        felt_values(r@) =~= spec_doc_row_hashes(row_titles.deep_view(), row_contents.deep_view()),
{
    let ghost spec_hashes = spec_doc_row_hashes(row_titles.deep_view(), row_contents.deep_view());
    let mut r: Vec<Felt> = Vec::new();
    let mut i: usize = 0;
    while i < row_titles.len()
        invariant
            i <= row_titles@.len(),
            row_titles@.len() == row_contents@.len(),
            r@.len() == i,
            all_wf(r@),
            spec_hashes == spec_doc_row_hashes(
                row_titles.deep_view(),
                row_contents.deep_view(),
            ),
            forall|k: int| 0 <= k < i ==> (#[trigger] r@[k]).value() == spec_hashes[k],
        decreases row_titles@.len() - i,
    {
        let h = row_hash(row_titles[i].as_str(), row_contents[i].as_str());
        proof {
            assert(row_titles.deep_view()[i as int] == row_titles@[i as int]@);
            assert(row_contents.deep_view()[i as int] == row_contents@[i as int]@);
        }
        r.push(h);
        i = i + 1;
    }
    proof {
        assert(felt_values(r@) =~= spec_hashes);
    }
    r
}

/// The left-leaning commitment chain over at least two row hashes.
pub fn fold_commitment(hashes: &Vec<Felt>) -> (r: Felt)
    requires
        hashes@.len() >= 2,
        all_wf(hashes@),
    ensures
        r.wf(),
        r.value() == spec_commitment(felt_values(hashes@)),
{
    let ghost vals = felt_values(hashes@);
    let mut acc = hash_two(&hashes[0], &hashes[1]);
    let mut i: usize = 2;
    proof {
        assert(vals.take(2)[0] == vals[0] && vals.take(2)[1] == vals[1]);
        assert(acc.value() == spec_commitment(vals.take(2)));
    }
    while i < hashes.len()
        invariant
            2 <= i <= hashes@.len(),
            all_wf(hashes@),
            vals == felt_values(hashes@),
            acc.wf(),
            acc.value() == spec_commitment(vals.take(i as int)),
        decreases hashes@.len() - i,
    {
        acc = hash_two(&acc, &hashes[i]);
        proof {
            assert(vals.take(i + 1).drop_last() =~= vals.take(i as int));
            assert(vals.take(i + 1).last() == vals[i as int]);
        }
        i = i + 1;
    }
    proof {
        assert(vals.take(vals.len() as int) =~= vals);
    }
    acc
}

/// The selector accumulator: each row whose selector is exactly one adds
/// its hash, in the field.
pub fn accumulate_selected(hashes: &Vec<Felt>, row_selectors: &Vec<u64>) -> (r: Felt)
    requires
        hashes@.len() == row_selectors@.len(),
        all_wf(hashes@),
    ensures
        r.wf(),
        r.value() == spec_accumulator(felt_values(hashes@), row_selectors@),
{
    let ghost vals = felt_values(hashes@);
    let mut acc = Felt::zero();
    let mut i: usize = 0;
    proof {
        assert(vals.take(0).len() == 0);
        assert(row_selectors@.take(0).len() == 0);
    }
    while i < hashes.len()
        invariant
            i <= hashes@.len(),
            hashes@.len() == row_selectors@.len(),
            all_wf(hashes@),
            vals == felt_values(hashes@),
            acc.wf(),
            acc.value() == spec_accumulator(vals.take(i as int), row_selectors@.take(i as int)),
        decreases hashes@.len() - i,
    {
        if row_selectors[i] == 1 {
            acc = acc.add(&hashes[i]);
        }
        proof {
            assert(vals.take(i + 1).drop_last() =~= vals.take(i as int));
            assert(row_selectors@.take(i + 1).drop_last() =~= row_selectors@.take(i as int));
            assert(vals.take(i + 1).last() == vals[i as int]);
            assert(row_selectors@.take(i + 1)[i as int] == row_selectors@[i as int]);
        }
        i = i + 1;
    }
    proof {
        assert(vals.take(vals.len() as int) =~= vals);
        assert(row_selectors@.take(row_selectors@.len() as int) =~= row_selectors@);
    }
    acc
}

/// The textual form of the commitment of a document of at least two rows.
pub fn get_file_commitment_and_selected_row(
    row_titles: &Vec<String>,
    row_contents: &Vec<String>,
    row_selectors: &Vec<u64>,
) -> (r: String)
    requires
        row_titles@.len() == row_contents@.len(),
        row_titles@.len() == row_selectors@.len(),
        row_titles@.len() >= 2,
    ensures
        r@ == spec_field_hex(
            spec_commitment(
                spec_doc_row_hashes(row_titles.deep_view(), row_contents.deep_view()),
            ),
        ),
{
    let hashes = compute_row_hashes(row_titles, row_contents);
    let c = fold_commitment(&hashes);
    to_hex_string(&c)
}

/// The two public inputs of a proof: the commitment and the selector
/// accumulator of the document.
pub fn proof_public_inputs(
    row_titles: &Vec<String>,
    row_contents: &Vec<String>,
    row_selectors: &Vec<u64>,
) -> (r: (Felt, Felt))
    requires
        row_titles@.len() == row_contents@.len(),
        row_titles@.len() == row_selectors@.len(),
        row_titles@.len() >= 2,
    ensures
        r.0.wf(),
        r.1.wf(),
        r.0.value() == spec_commitment(
            spec_doc_row_hashes(row_titles.deep_view(), row_contents.deep_view()),
        ),
        r.1.value() == spec_accumulator(
            spec_doc_row_hashes(row_titles.deep_view(), row_contents.deep_view()),
            row_selectors@,
        ),
{
    let hashes = compute_row_hashes(row_titles, row_contents);
    let c = fold_commitment(&hashes);
    let a = accumulate_selected(&hashes, row_selectors);
    (c, a)
}

/// What the verifier turns a public-input string into: the SHA-256 limbs of
/// the string, in reversed order, read as a little-endian integer and
/// reduced modulo `p`.
pub open spec fn spec_verify_element(bytes: Seq<u8>) -> nat {
    let l = spec_sha_limbs(bytes);
    limbs_nat(seq![l[3], l[2], l[1], l[0]]) % p_nat()
}

/// Derives the field element the verifier uses for one public-input string.
pub fn verify_input_element(s: &str) -> (r: Felt)
    ensures
        r.wf(),
        r.value() == spec_verify_element(s.spec_bytes()),
{
    let limbs = get_sha256(s);
    let raw = [limbs[3], limbs[2], limbs[1], limbs[0]];
    proof {
        let l = spec_sha_limbs(s.spec_bytes());
        assert(raw@ =~= seq![l[3], l[2], l[1], l[0]]);
    }
    Felt::from_raw(raw)
}

/// Whether every selector is boolean; proving rejects any other selector.
pub fn selectors_are_boolean(row_selectors: &Vec<u64>) -> (r: bool)
    ensures
        r == (forall|i: int|
            0 <= i < row_selectors@.len() ==> (#[trigger] row_selectors@[i] == 0
                || row_selectors@[i] == 1)),
{
    let mut i: usize = 0;
    while i < row_selectors.len()
        invariant
            i <= row_selectors@.len(),
            forall|k: int|
                0 <= k < i ==> (#[trigger] row_selectors@[k] == 0 || row_selectors@[k] == 1),
        decreases row_selectors@.len() - i,
    {
        let s = row_selectors[i];
        if s != 0 && s != 1 {
            return false;
        }
        i = i + 1;
    }
    true
}

} // verus!
