//! The metrics of a string: length, palindrome flag, distinct characters,
//! word count, content hash and character frequencies.

use std::collections::{HashMap, HashSet};

use vstd::prelude::*;
use vstd::string::StringSliceAdditionalSpecFns;

use crate::text::{char_vec, lower_of, to_lowercase};
use crate::tokenizer::{split_state, split_words, split_words_spec};

verus! {

broadcast use vstd::std_specs::hash::group_hash_axioms;

/// The metrics of one string.
#[derive(Debug, Clone, PartialEq, Eq)]
pub struct StringProperties {
    /// Length in bytes of the UTF-8 text.
    pub length: i32,
    /// Whether the lowercase text reads the same backwards.
    pub is_palindrome: bool,
    /// Number of distinct characters of the lowercase text.
    pub unique_characters: i32,
    /// Number of whitespace-separated words.
    pub word_count: i32,
    /// SHA-256 digest of the UTF-8 text, in lowercase hex.
    pub sha256_hash: String,
    /// Occurrences of each character of the lowercase text, keyed by its
    /// code point.
    pub character_frequency_map: HashMap<u32, i32>,
}

/// A stored string with its metrics.
#[derive(Debug, Clone, PartialEq, Eq)]
pub struct AnalysedString {
    /// The content hash, which identifies the record.
    pub id: String,
    pub value: String,
    pub properties: StringProperties,
    /// Creation time, RFC 3339 with milliseconds.
    pub created_at: String,
}

/// The code points that occur in `s`.
pub open spec fn code_points(s: Seq<char>) -> Set<u32> {
    s.map_values(|c: char| c as u32).to_set()
}

/// How often the character with code point `k` occurs in `s`.
pub open spec fn count_of(s: Seq<char>, k: u32) -> int
    decreases s.len(),
{
    if s.len() == 0 {
        0
    } else {
        count_of(s.drop_last(), k) + if s.last() as u32 == k {
            1int
        } else {
            0int
        }
    }
}

/// `m` maps each code point of `s`, and nothing else, to its number of
/// occurrences in `s`.
pub open spec fn is_frequency_map(m: Map<u32, i32>, s: Seq<char>) -> bool {
    &&& m.dom() == code_points(s)
    &&& forall|k: u32| #[trigger] m.contains_key(k) ==> m[k] as int == count_of(s, k)
}

/// The lowercase hex digit of a value below 16.
pub open spec fn hex_digit(n: int) -> char {
    if n < 10 {
        (('0' as int) + n) as char
    } else {
        (('a' as int) + n - 10) as char
    }
}

/// Two lowercase hex digits per byte, high half first.
pub open spec fn hex_spec(b: Seq<u8>) -> Seq<char>
    decreases b.len(),
{
    if b.len() == 0 {
        seq![]
    } else {
        hex_spec(b.drop_last()) + seq![
            hex_digit(b.last() as int / 16),
            hex_digit(b.last() as int % 16),
        ]
    }
}

/// The SHA-256 digest of a byte sequence.
pub uninterp spec fn sha256_of(b: Seq<u8>) -> Seq<u8>;

/// Relies on sha2's `Sha256::digest`: the SHA-256 digest, which is 32 bytes
/// long and depends on the input alone.
#[verifier::external_body]
fn sha256_digest(b: &[u8]) -> (r: Vec<u8>)
    ensures
        r@ == sha256_of(b@),
        r@.len() == 32,
{
    <sha2::Sha256 as sha2::Digest>::digest(b).to_vec()
}

/// Relies on `hex::encode`: two lowercase hex digits for each byte.
#[verifier::external_body]
fn hex_encode(b: &[u8]) -> (r: String)
    ensures
        r@ == hex_spec(b@),
{
    hex::encode(b)
}

/// The SHA-256 digest of the UTF-8 bytes of `input`, in lowercase hex.
pub fn compute_sha256(input: &str) -> (r: String)
    ensures
        r@ == hex_spec(sha256_of(input.spec_bytes())),
        r@.len() == 64,
{
    let digest = sha256_digest(input.as_bytes());
    proof {
        lemma_hex_len(digest@);
    }
    hex_encode(digest.as_slice())
}

proof fn lemma_hex_len(b: Seq<u8>)
    ensures
        hex_spec(b).len() == 2 * b.len(),
    decreases b.len(),
{
    if b.len() > 0 {
        lemma_hex_len(b.drop_last());
    }
}

/// Whether `s` reads the same backwards, character by character.
pub fn reads_same_backwards(s: &str) -> (r: bool)
    ensures
        r == (s@ == s@.reverse()),
{
    let v = char_vec(s);
    let n = v.len();
    let mut i: usize = 0;
    while i < n
        invariant
            n == v@.len(),
            v@ == s@,
            i <= n,
            forall|k: int| 0 <= k < i ==> v@[k] == #[trigger] v@[n - 1 - k],
        decreases n - i,
    {
        if v[i] != v[n - 1 - i] {
            assert(v@.reverse()[i as int] == v@[n - 1 - i]);
            return false;
        }
        i = i + 1;
    }
    assert(v@ =~= v@.reverse());
    true
}

proof fn lemma_code_points_push(s: Seq<char>, c: char)
    ensures
        code_points(s.push(c)) == code_points(s).insert(c as u32),
{
    let f = |x: char| x as u32;
    s.lemma_push_map_commute(f, c);
    s.map_values(f).lemma_push_to_set_commute(f(c));
}

proof fn lemma_code_points_len(s: Seq<char>)
    ensures
        code_points(s).len() <= s.len(),
        code_points(s).finite(),
{
    let m = s.map_values(|x: char| x as u32);
    m.lemma_cardinality_of_set();
    vstd::seq_lib::seq_to_set_is_finite(m);
}

/// Number of distinct characters of `s`, as given.
pub fn count_distinct_chars(s: &str) -> (r: i32)
    requires
        s@.len() <= i32::MAX,
    ensures
        r as int == code_points(s@).len(),
{
    let v = char_vec(s);
    let mut seen: HashSet<u32> = HashSet::new();
    let mut i: usize = 0;
    while i < v.len()
        invariant
            v@ == s@,
            i <= v@.len(),
            seen@ == code_points(v@.take(i as int)),
        decreases v.len() - i,
    {
        proof {
            assert(v@.take(i + 1) == v@.take(i as int).push(v@[i as int]));
            lemma_code_points_push(v@.take(i as int), v@[i as int]);
        }
        seen.insert(v[i] as u32);
        i = i + 1;
    }
    proof {
        assert(v@.take(v@.len() as int) == v@);
        lemma_code_points_len(v@);
    }
    seen.len() as i32
}

proof fn lemma_split_count(s: Seq<char>)
    ensures
        split_state(s).0.len() + (if split_state(s).1.len() > 0 {
            1int
        } else {
            0int
        }) <= s.len(),
        split_words_spec(s).len() <= s.len(),
    decreases s.len(),
{
    if s.len() > 0 {
        lemma_split_count(s.drop_last());
    }
}

/// Number of whitespace-separated words of `input`.
pub fn get_word_count(input: &str) -> (r: i32)
    requires
        input@.len() <= i32::MAX,
    ensures
        r as int == split_words_spec(input@).len(),
{
    let words = split_words(input);
    proof {
        lemma_split_count(input@);
        assert(words@.len() == crate::text::views(words@).len());
    }
    words.len() as i32
}

proof fn lemma_count_bound(s: Seq<char>, k: u32)
    ensures
        0 <= count_of(s, k) <= s.len(),
    decreases s.len(),
{
    if s.len() > 0 {
        lemma_count_bound(s.drop_last(), k);
    }
}

/// Occurrences of each character of `s`, as given, keyed by code
/// point.
pub fn count_chars(s: &str) -> (r: HashMap<u32, i32>)
    requires
        s@.len() <= i32::MAX,
    ensures
        is_frequency_map(r@, s@),
{
    let v = char_vec(s);
    let mut m: HashMap<u32, i32> = HashMap::new();
    let mut i: usize = 0;
    assert(m@.dom() =~= code_points(v@.take(0)));
    while i < v.len()
        invariant
            v@ == s@,
            v@.len() <= i32::MAX,
            i <= v@.len(),
            is_frequency_map(m@, v@.take(i as int)),
        decreases v.len() - i,
    {
        let ghost before = v@.take(i as int);
        let ghost after = v@.take(i + 1);
        let c = v[i];
        let k = c as u32;
        proof {
            assert(after == before.push(c));
            assert(after.drop_last() == before);
            lemma_code_points_push(before, c);
            lemma_count_bound(before, k);
        }
        let n: i32 = match m.get(&k) {
            Some(n) => *n,
            None => 0,
        };
        m.insert(k, n + 1);
        proof {
            assert forall|j: u32| #[trigger] m@.contains_key(j) implies m@[j] as int == count_of(
                after,
                j,
            ) by {
                if j != k {
                    assert(count_of(after, j) == count_of(before, j));
                } else if !code_points(before).contains(k) {
                    assert(count_of(before, k) == 0) by {
                        lemma_count_absent(before, k);
                    }
                }
            }
            assert(m@.dom() =~= code_points(after));
        }
        i = i + 1;
    }
    proof {
        assert(v@.take(v@.len() as int) == v@);
    }
    m
}

proof fn lemma_count_absent(s: Seq<char>, k: u32)
    requires
        !code_points(s).contains(k),
    ensures
        count_of(s, k) == 0,
    decreases s.len(),
{
    if s.len() > 0 {
        let t = s.drop_last();
        assert(s == t.push(s.last()));
        lemma_code_points_push(t, s.last());
        lemma_count_absent(t, k);
    }
}

proof fn lemma_count_present(s: Seq<char>, k: u32)
    requires
        code_points(s).contains(k),
    ensures
        count_of(s, k) >= 1,
    decreases s.len(),
{
    let t = s.drop_last();
    assert(s == t.push(s.last()));
    lemma_code_points_push(t, s.last());
    lemma_count_bound(t, k);
    if s.last() as u32 != k {
        lemma_count_present(t, k);
    }
}

/// Whether `input` reads the same backwards once lowercased; spaces and
/// punctuation count.
pub fn is_palindrome(input: &str) -> (r: bool)
    ensures
        r == (lower_of(input@) == lower_of(input@).reverse()),
{
    let lowered = to_lowercase(input);
    reads_same_backwards(lowered.as_str())
}

/// Number of distinct characters of `input` once lowercased.
pub fn get_unique_chars_count(input: &str) -> (r: i32)
    requires
        lower_of(input@).len() <= i32::MAX,
    ensures
        r as int == code_points(lower_of(input@)).len(),
{
    let lowered = to_lowercase(input);
    count_distinct_chars(lowered.as_str())
}

/// Occurrences of each character of `input` once lowercased, keyed by code
/// point: every key a character of the lowercase text, every count at least
/// one.
pub fn get_char_frequency_map(input: &str) -> (r: HashMap<u32, i32>)
    requires
        lower_of(input@).len() <= i32::MAX,
    ensures
        is_frequency_map(r@, lower_of(input@)),
        forall|k: u32| #[trigger] r@.contains_key(k) ==> r@[k] >= 1,
{
    let lowered = to_lowercase(input);
    let r = count_chars(lowered.as_str());
    proof {
        assert forall|k: u32| #[trigger] r@.contains_key(k) implies r@[k] >= 1 by {
            lemma_count_present(lowered@, k);
        }
    }
    r
}

/// The strings whose metrics fit the 32-bit fields of [`StringProperties`].
pub open spec fn metrics_fit(input: &str) -> bool {
    &&& input.len() <= i32::MAX
    &&& input@.len() <= i32::MAX
    &&& lower_of(input@).len() <= i32::MAX
}

impl StringProperties {
    /// These are the metrics of `input`.
    pub open spec fn describes(&self, input: &str) -> bool {
        let lowered = lower_of(input@);
        &&& self.length as int == input.len()
        &&& self.is_palindrome == (lowered == lowered.reverse())
        &&& self.unique_characters as int == code_points(lowered).len()
        &&& self.word_count as int == split_words_spec(input@).len()
        &&& self.sha256_hash@ == hex_spec(sha256_of(input.spec_bytes()))
        &&& self.sha256_hash@.len() == 64
        &&& is_frequency_map(self.character_frequency_map@, lowered)
    }
}

/// Computes the metrics of `input`; `None` when some count would not fit
/// in 32 bits.
pub fn analyse_string(input: &str) -> (r: Option<StringProperties>)
    ensures
        r is Some <==> metrics_fit(input),
        r matches Some(p) ==> p.describes(input),
        r matches Some(p) ==> p.unique_characters as int == p.character_frequency_map@.len(),
        r matches Some(p) ==> forall|k: u32| #[trigger]
            p.character_frequency_map@.contains_key(k) ==> p.character_frequency_map@[k] >= 1,
{
    let lowered = to_lowercase(input);
    let n = input.len();
    if n > i32::MAX as usize || input.unicode_len() > i32::MAX as usize || lowered.unicode_len()
        > i32::MAX as usize {
        return None;
    }
    let p = StringProperties {
        length: n as i32,
        is_palindrome: is_palindrome(input),
        unique_characters: get_unique_chars_count(input),
        word_count: get_word_count(input),
        sha256_hash: compute_sha256(input),
        character_frequency_map: get_char_frequency_map(input),
    };
    proof {
        lemma_code_points_len(lowered@);
        assert(p.character_frequency_map@.dom() == code_points(lowered@));
    }
    Some(p)
}

} // verus!
