//! The free-text filter parser: a left-to-right scan over lowercase words
//! that recognises phrase patterns and accumulates a [`StringFilters`].
//!
//! At each position the rules below are tried in order, each on the word at
//! that position as it was when the position was reached; a rule that uses
//! the words after it moves the position past them, and the rules after it
//! look ahead from there.

use vstd::prelude::*;

use crate::filters::{FilterModel, StringFilters};
use crate::text::{
    all_digits, char_string, contains, has_infix, has_suffix, is_all_digits, lower_of, parse_i32,
    parse_i32_spec, str_eq, strip_suffix, to_lowercase, views,
};
use crate::tokenizer::{split_words, split_words_spec};

verus! {

/// Why a text gives no filter.
#[derive(Debug, Clone, Copy, PartialEq, Eq, Structural)]
pub enum ParseError {
    /// No word of the text set any constraint.
    NoConstraintsRecognized,
    /// The text sets a lower length bound above its upper length bound.
    ConflictingFilters,
}

/// A text together with the filter that was read from it.
#[derive(Debug, Clone, PartialEq, Eq)]
pub struct ParsedQuery {
    /// The text, as it was given.
    pub original: String,
    pub filters: StringFilters,
}

// ---------------------------------------------------------------------------
// The rules, as spec functions over the words `toks`, the word `t` that the
// current position held when it was reached, and the position `i`.
// ---------------------------------------------------------------------------

/// Marks a palindrome constraint: a word containing "palindro".
pub open spec fn rule_palindrome(t: Seq<char>, f: FilterModel) -> FilterModel {
    if has_infix(t, "palindro"@) {
        FilterModel { is_palindrome: Some(true), ..f }
    } else {
        f
    }
}

/// Words that open an upper length bound: "... than n".
pub open spec fn is_upper_cue(t: Seq<char>) -> bool {
    has_infix(t, "short"@) || has_infix(t, "small"@) || has_infix(t, "less"@)
}

/// Words that open a lower length bound: "... than n".
pub open spec fn is_lower_cue(t: Seq<char>) -> bool {
    ||| has_infix(t, "long"@)
    ||| has_infix(t, "big"@)
    ||| has_infix(t, "great"@)
    ||| has_infix(t, "more"@)
    ||| has_infix(t, "large"@)
}

/// The number `n` of "than n" right after position `i`.
pub open spec fn than_operand(toks: Seq<Seq<char>>, i: int) -> Option<int> {
    if i + 2 < toks.len() && toks[i + 1] == "than"@ {
        parse_i32_spec(toks[i + 2])
    } else {
        None
    }
}

/// "shorter than n": lengths up to `n - 1`; moves past "than n".  An `n`
/// whose predecessor is no `i32` sets nothing.
pub open spec fn rule_upper(toks: Seq<Seq<char>>, t: Seq<char>, i: int, f: FilterModel) -> (
    int,
    FilterModel,
) {
    if is_upper_cue(t) {
        match than_operand(toks, i) {
            Some(n) => if i32::MIN <= n - 1 {
                (i + 2, FilterModel { max_length: Some(n - 1), ..f })
            } else {
                (i, f)
            },
            None => (i, f),
        }
    } else {
        (i, f)
    }
}

/// "longer than n": lengths from `n + 1`; moves past "than n".  An `n` whose
/// successor is no `i32` sets nothing.
pub open spec fn rule_lower(toks: Seq<Seq<char>>, t: Seq<char>, i: int, f: FilterModel) -> (
    int,
    FilterModel,
) {
    if is_lower_cue(t) {
        match than_operand(toks, i) {
            Some(n) => if n + 1 <= i32::MAX {
                (i + 2, FilterModel { min_length: Some(n + 1), ..f })
            } else {
                (i, f)
            },
            None => (i, f),
        }
    } else {
        (i, f)
    }
}

/// "exactly n" or "equals n": length `n` exactly; moves past `n`.
pub open spec fn rule_exact(toks: Seq<Seq<char>>, t: Seq<char>, i: int, f: FilterModel) -> (
    int,
    FilterModel,
) {
    if (t == "exactly"@ || t == "equals"@) && i + 1 < toks.len() {
        match parse_i32_spec(toks[i + 1]) {
            Some(n) => (i + 1, FilterModel { min_length: Some(n), max_length: Some(n), ..f }),
            None => (i, f),
        }
    } else {
        (i, f)
    }
}

/// The ordinal words "first" to "tenth" and "1st" to "10th".
pub open spec fn ordinal_word(t: Seq<char>) -> Option<int> {
    if t == "first"@ || t == "1st"@ {
        Some(1)
    } else if t == "second"@ || t == "2nd"@ {
        Some(2)
    } else if t == "third"@ || t == "3rd"@ {
        Some(3)
    } else if t == "fourth"@ || t == "4th"@ {
        Some(4)
    } else if t == "fifth"@ || t == "5th"@ {
        Some(5)
    } else if t == "sixth"@ || t == "6th"@ {
        Some(6)
    } else if t == "seventh"@ || t == "7th"@ {
        Some(7)
    } else if t == "eighth"@ || t == "8th"@ {
        Some(8)
    } else if t == "ninth"@ || t == "9th"@ {
        Some(9)
    } else if t == "tenth"@ || t == "10th"@ {
        Some(10)
    } else {
        None
    }
}

/// The two-letter endings of a numeral ordinal.
pub open spec fn is_ordinal_ending(e: Seq<char>) -> bool {
    e == "th"@ || e == "st"@ || e == "nd"@ || e == "rd"@
}

/// The number of a numeral ordinal: one or more ASCII digits followed by
/// "th", "st", "nd" or "rd" ("12th", "3rd"); nothing for a number beyond
/// `i32`, which picks no character anyway.
pub open spec fn numeral_ordinal(t: Seq<char>) -> Option<int> {
    let digits = t.subrange(0, t.len() - 2);
    if t.len() > 2 && is_ordinal_ending(t.subrange(t.len() - 2, t.len() as int)) && all_digits(
        digits,
    ) {
        parse_i32_spec(digits)
    } else {
        None
    }
}

/// The number an ordinal word stands for: one of the ordinal words, or a
/// numeral ordinal.
pub open spec fn ordinal_of(t: Seq<char>) -> Option<int> {
    match ordinal_word(t) {
        Some(k) => Some(k),
        None => numeral_ordinal(t),
    }
}

/// The `k`-th character of `table`, counting from 1.
pub open spec fn nth_of(table: Seq<char>, k: int) -> Option<char> {
    if 1 <= k <= table.len() {
        Some(table[k - 1])
    } else {
        None
    }
}

/// The character that "k-th vowel", "k-th consonant", "k-th letter" or
/// "k-th alphabet" names; nothing when `k` is out of range.
pub open spec fn ordinal_pick(k: int, next: Seq<char>) -> Option<char> {
    if next == "vowel"@ {
        nth_of("aeiou"@, k)
    } else if next == "consonant"@ {
        nth_of("bcdfghjklmnpqrstvwxyz"@, k)
    } else if next == "alphabet"@ || next == "letter"@ {
        nth_of("abcdefghijklmnopqrstuvwxyz"@, k)
    } else {
        None
    }
}

/// "third vowel" and the like: the named character must occur; moves past
/// the noun.
pub open spec fn rule_ordinal(toks: Seq<Seq<char>>, t: Seq<char>, i: int, f: FilterModel) -> (
    int,
    FilterModel,
) {
    if i + 1 < toks.len() {
        match ordinal_of(t) {
            Some(k) => match ordinal_pick(k, toks[i + 1]) {
                Some(c) => (i + 1, FilterModel { contains_character: Some(seq![c]), ..f }),
                None => (i, f),
            },
            None => (i, f),
        }
    } else {
        (i, f)
    }
}

/// Word counts: "single", "one word", "n word", "n words" and "n-word".
/// "single" counts on its own and moves past a following "word" only;
/// "one" counts only when "word" follows it; "n word" and "n words" move
/// past the noun; "n-word" moves past nothing.
pub open spec fn rule_word_count(toks: Seq<Seq<char>>, t: Seq<char>, i: int, f: FilterModel) -> (
    int,
    FilterModel,
) {
    let next_is_word = i + 1 < toks.len() && toks[i + 1] == "word"@;
    let prefix = t.subrange(0, t.len() - "-word"@.len());
    if t == "single"@ || (t == "one"@ && next_is_word) {
        (if next_is_word { i + 1 } else { i }, FilterModel { word_count: Some(1), ..f })
    } else if parse_i32_spec(t) is Some {
        if i + 1 < toks.len() && (toks[i + 1] == "word"@ || toks[i + 1] == "words"@) {
            (i + 1, FilterModel { word_count: parse_i32_spec(t), ..f })
        } else {
            (i, f)
        }
    } else if has_suffix(t, "-word"@) && parse_i32_spec(prefix) is Some {
        (i, FilterModel { word_count: parse_i32_spec(prefix), ..f })
    } else {
        (i, f)
    }
}

/// "contains the letter x", "with a character x", "containing x", "with x":
/// the first character of the value word must occur; moves past the value.
pub open spec fn rule_contains(toks: Seq<Seq<char>>, t: Seq<char>, i: int, f: FilterModel) -> (
    int,
    FilterModel,
) {
    if has_infix(t, "contain"@) || t == "with"@ {
        if i + 2 < toks.len() && (toks[i + 1] == "the"@ || toks[i + 1] == "a"@) {
            if (toks[i + 2] == "letter"@ || toks[i + 2] == "character"@) && i + 3 < toks.len()
                && toks[i + 3].len() > 0 {
                (i + 3, FilterModel { contains_character: Some(seq![toks[i + 3][0]]), ..f })
            } else {
                (i, f)
            }
        } else if i + 1 < toks.len() && toks[i + 1].len() > 0 {
            (i + 1, FilterModel { contains_character: Some(seq![toks[i + 1][0]]), ..f })
        } else {
            (i, f)
        }
    } else {
        (i, f)
    }
}

/// All rules, in order, at position `i`: the last position used and the
/// filter after them.
pub open spec fn step(toks: Seq<Seq<char>>, i: int, f: FilterModel) -> (int, FilterModel) {
    let t = toks[i];
    let f1 = rule_palindrome(t, f);
    let (i2, f2) = rule_upper(toks, t, i, f1);
    let (i3, f3) = rule_lower(toks, t, i2, f2);
    let (i4, f4) = rule_exact(toks, t, i3, f3);
    let (i5, f5) = rule_ordinal(toks, t, i4, f4);
    let (i6, f6) = rule_word_count(toks, t, i5, f5);
    rule_contains(toks, t, i6, f6)
}

/// The filter after scanning from position `i` on, starting from `f`.
pub open spec fn scan(toks: Seq<Seq<char>>, i: int, f: FilterModel) -> FilterModel
    decreases toks.len() - i,
{
    if 0 <= i < toks.len() {
        let (j, g) = step(toks, i, f);
        scan(toks, j + 1, g)
    } else {
        f
    }
}

/// What a sequence of words parses to.
pub open spec fn parse_tokens_spec(toks: Seq<Seq<char>>) -> Result<FilterModel, ParseError> {
    let f = scan(toks, 0, FilterModel::empty());
    if f.is_empty() {
        Err(ParseError::NoConstraintsRecognized)
    } else if f.has_conflict() {
        Err(ParseError::ConflictingFilters)
    } else {
        Ok(f)
    }
}

/// The words of a text: lowercased, then split on whitespace.
pub open spec fn tokenize_spec(text: Seq<char>) -> Seq<Seq<char>> {
    split_words_spec(lower_of(text))
}

// ---------------------------------------------------------------------------
// The rules, executable.
// ---------------------------------------------------------------------------

/// Whether word `k` is `lit`.
fn word_is(toks: &Vec<String>, k: usize, lit: &str) -> (r: bool)
    requires
        k < toks.len(),
    ensures
        r == (views(toks@)[k as int] == lit@),
{
    str_eq(toks[k].as_str(), lit)
}

fn apply_upper_bound(toks: &Vec<String>, t: &str, i: usize, f: &mut StringFilters) -> (r: usize)
    requires
        i < toks.len(),
    ensures
        (r as int, final(f)@) == rule_upper(views(toks@), t@, i as int, old(f)@),
{
    if contains(t, "short") || contains(t, "small") || contains(t, "less") {
        if toks.len() - i > 2 && word_is(toks, i + 1, "than") {
            if let Some(n) = parse_i32(toks[i + 2].as_str()) {
                if n > i32::MIN {
                    f.max_length = Some(n - 1);
                    return i + 2;
                }
            }
        }
    }
    i
}

fn apply_lower_bound(toks: &Vec<String>, t: &str, i: usize, f: &mut StringFilters) -> (r: usize)
    requires
        i < toks.len(),
    ensures
        (r as int, final(f)@) == rule_lower(views(toks@), t@, i as int, old(f)@),
{
    if contains(t, "long") || contains(t, "big") || contains(t, "great") || contains(t, "more")
        || contains(t, "large") {
        if toks.len() - i > 2 && word_is(toks, i + 1, "than") {
            if let Some(n) = parse_i32(toks[i + 2].as_str()) {
                if n < i32::MAX {
                    f.min_length = Some(n + 1);
                    return i + 2;
                }
            }
        }
    }
    i
}

fn apply_exact_length(toks: &Vec<String>, t: &str, i: usize, f: &mut StringFilters) -> (r: usize)
    requires
        i < toks.len(),
    ensures
        (r as int, final(f)@) == rule_exact(views(toks@), t@, i as int, old(f)@),
{
    if (str_eq(t, "exactly") || str_eq(t, "equals")) && toks.len() - i > 1 {
        if let Some(n) = parse_i32(toks[i + 1].as_str()) {
            f.min_length = Some(n);
            f.max_length = Some(n);
            return i + 1;
        }
    }
    i
}

fn ordinal_word_value(t: &str) -> (r: Option<i32>)
    ensures
        r matches Some(k) ==> ordinal_word(t@) == Some(k as int),
        r is None ==> ordinal_word(t@) is None,
{
    if str_eq(t, "first") || str_eq(t, "1st") {
        Some(1)
    } else if str_eq(t, "second") || str_eq(t, "2nd") {
        Some(2)
    } else if str_eq(t, "third") || str_eq(t, "3rd") {
        Some(3)
    } else if str_eq(t, "fourth") || str_eq(t, "4th") {
        Some(4)
    } else if str_eq(t, "fifth") || str_eq(t, "5th") {
        Some(5)
    } else if str_eq(t, "sixth") || str_eq(t, "6th") {
        Some(6)
    } else if str_eq(t, "seventh") || str_eq(t, "7th") {
        Some(7)
    } else if str_eq(t, "eighth") || str_eq(t, "8th") {
        Some(8)
    } else if str_eq(t, "ninth") || str_eq(t, "9th") {
        Some(9)
    } else if str_eq(t, "tenth") || str_eq(t, "10th") {
        Some(10)
    } else {
        None
    }
}

fn ordinal_value(t: &str) -> (r: Option<i32>)
    ensures
        r matches Some(k) ==> ordinal_of(t@) == Some(k as int),
        r is None ==> ordinal_of(t@) is None,
{
    if let Some(k) = ordinal_word_value(t) {
        return Some(k);
    }
    let n = t.unicode_len();
    if n > 2 {
        let ending = t.substring_char(n - 2, n);
        if str_eq(ending, "th") || str_eq(ending, "st") || str_eq(ending, "nd") || str_eq(
            ending,
            "rd",
        ) {
            let digits = t.substring_char(0, n - 2);
            if is_all_digits(digits) {
                return parse_i32(digits);
            }
        }
    }
    None
}

/// The `k`-th character of `table`, counting from 1.
fn nth_char(table: &str, k: i32) -> (r: Option<char>)
    ensures
        r == nth_of(table@, k as int),
{
    if 1 <= k && (k as usize) <= table.unicode_len() {
        Some(table.get_char((k - 1) as usize))
    } else {
        None
    }
}

fn ordinal_character(k: i32, next: &str) -> (r: Option<char>)
    ensures
        r == ordinal_pick(k as int, next@),
{
    if str_eq(next, "vowel") {
        nth_char("aeiou", k)
    } else if str_eq(next, "consonant") {
        nth_char("bcdfghjklmnpqrstvwxyz", k)
    } else if str_eq(next, "alphabet") || str_eq(next, "letter") {
        nth_char("abcdefghijklmnopqrstuvwxyz", k)
    } else {
        None
    }
}

fn apply_ordinal(toks: &Vec<String>, t: &str, i: usize, f: &mut StringFilters) -> (r: usize)
    requires
        i < toks.len(),
    ensures
        (r as int, final(f)@) == rule_ordinal(views(toks@), t@, i as int, old(f)@),
{
    if toks.len() - i > 1 {
        if let Some(k) = ordinal_value(t) {
            if let Some(c) = ordinal_character(k, toks[i + 1].as_str()) {
                f.contains_character = Some(char_string(c));
                return i + 1;
            }
        }
    }
    i
}

fn apply_word_count(toks: &Vec<String>, t: &str, i: usize, f: &mut StringFilters) -> (r: usize)
    requires
        i < toks.len(),
    ensures
        (r as int, final(f)@) == rule_word_count(views(toks@), t@, i as int, old(f)@),
{
    let next_is_word = toks.len() - i > 1 && word_is(toks, i + 1, "word");
    if str_eq(t, "single") || (str_eq(t, "one") && next_is_word) {
        f.word_count = Some(1);
        if next_is_word {
            i + 1
        } else {
            i
        }
    } else if let Some(n) = parse_i32(t) {
        if toks.len() - i > 1 && (word_is(toks, i + 1, "word") || word_is(toks, i + 1, "words")) {
            f.word_count = Some(n);
            i + 1
        } else {
            i
        }
    } else if let Some(p) = strip_suffix(t, "-word") {
        if let Some(n) = parse_i32(p) {
            f.word_count = Some(n);
        }
        i
    } else {
        i
    }
}

fn apply_contains(toks: &Vec<String>, t: &str, i: usize, f: &mut StringFilters) -> (r: usize)
    requires
        i < toks.len(),
    ensures
        (r as int, final(f)@) == rule_contains(views(toks@), t@, i as int, old(f)@),
{
    if contains(t, "contain") || str_eq(t, "with") {
        if toks.len() - i > 2 && (word_is(toks, i + 1, "the") || word_is(toks, i + 1, "a")) {
            if (word_is(toks, i + 2, "letter") || word_is(toks, i + 2, "character")) && toks.len()
                - i > 3 {
                let v = toks[i + 3].as_str();
                if v.unicode_len() > 0 {
                    f.contains_character = Some(char_string(v.get_char(0)));
                    return i + 3;
                }
            }
        } else if toks.len() - i > 1 {
            let v = toks[i + 1].as_str();
            if v.unicode_len() > 0 {
                f.contains_character = Some(char_string(v.get_char(0)));
                return i + 1;
            }
        }
    }
    i
}

/// Applies every rule at position `i`; returns the last position used.
fn apply_rules(toks: &Vec<String>, i: usize, f: &mut StringFilters) -> (r: usize)
    requires
        i < toks.len(),
    ensures
        (r as int, final(f)@) == step(views(toks@), i as int, old(f)@),
        i <= r < toks.len(),
{
    let t = toks[i].as_str();
    if contains(t, "palindro") {
        f.is_palindrome = Some(true);
    }
    let i = apply_upper_bound(toks, t, i, f);
    let i = apply_lower_bound(toks, t, i, f);
    let i = apply_exact_length(toks, t, i, f);
    let i = apply_ordinal(toks, t, i, f);
    let i = apply_word_count(toks, t, i, f);
    apply_contains(toks, t, i, f)
}

// ---------------------------------------------------------------------------
// Entry points.
// ---------------------------------------------------------------------------

/// Splits a text into its lowercase words.
pub fn tokenize(text: &str) -> (r: Vec<String>)
    ensures
        views(r@) == tokenize_spec(text@),
{
    let lowered = to_lowercase(text);
    split_words(lowered.as_str())
}

/// Reads a filter from a sequence of words, which are taken as they are.
pub fn parse_tokens(tokens: &Vec<String>) -> (r: Result<StringFilters, ParseError>)
    ensures
        r is Ok <==> parse_tokens_spec(views(tokens@)) is Ok,
        r matches Ok(f) ==> parse_tokens_spec(views(tokens@)) == Ok::<FilterModel, ParseError>(
            f@,
        ),
        r matches Err(e) ==> parse_tokens_spec(views(tokens@)) == Err::<FilterModel, ParseError>(
            e,
        ),
{
    let ghost toks = views(tokens@);
    let mut f = StringFilters::none();
    let mut i: usize = 0;
    while i < tokens.len()
        invariant
            toks == views(tokens@),
            i <= tokens.len(),
            scan(toks, i as int, f@) == scan(toks, 0, FilterModel::empty()),
        decreases tokens.len() - i,
    {
        let j = apply_rules(tokens, i, &mut f);
        i = j + 1;
    }
    if f.is_empty() {
        Err(ParseError::NoConstraintsRecognized)
    } else if f.has_conflict() {
        Err(ParseError::ConflictingFilters)
    } else {
        Ok(f)
    }
}

/// Reads a filter from free text: the text is lowercased and split into
/// words, and the words are scanned as [`parse_tokens`] does.  On success the
/// text is kept as it was given.
pub fn parse_natural_language(query: &str) -> (r: Result<ParsedQuery, ParseError>)
    ensures
        r is Ok <==> parse_tokens_spec(tokenize_spec(query@)) is Ok,
        r matches Ok(p) ==> p.original@ == query@ && parse_tokens_spec(tokenize_spec(query@))
            == Ok::<FilterModel, ParseError>(p.filters@),
        r matches Err(e) ==> parse_tokens_spec(tokenize_spec(query@)) == Err::<
            FilterModel,
            ParseError,
        >(e),
{
    let tokens = tokenize(query);
    match parse_tokens(&tokens) {
        Ok(filters) => Ok(ParsedQuery { original: query.to_owned(), filters }),
        Err(e) => Err(e),
    }
}

// ---------------------------------------------------------------------------
// Laws.
// ---------------------------------------------------------------------------

/// A recognisable keyword: a word containing "palindro", "short", "small",
/// "less", "long", "big", "great", "more", "large" or "contain"; the words
/// "exactly", "equals", "with", "single" and "one"; an integer; an ordinal
/// ("first" to "tenth", or digits followed by "th", "st", "nd" or "rd");
/// a word ending in "-word".  A rule can fire only at such a word.
pub open spec fn is_cue_word(t: Seq<char>) -> bool {
    ||| has_infix(t, "palindro"@)
    ||| is_upper_cue(t)
    ||| is_lower_cue(t)
    ||| t == "exactly"@
    ||| t == "equals"@
    ||| ordinal_of(t) is Some
    ||| t == "single"@
    ||| t == "one"@
    ||| parse_i32_spec(t) is Some
    ||| has_suffix(t, "-word"@)
    ||| has_infix(t, "contain"@)
    ||| t == "with"@
}

proof fn lemma_scan_without_cues(toks: Seq<Seq<char>>, i: int)
    requires
        0 <= i,
        forall|k: int| 0 <= k < toks.len() ==> !is_cue_word(#[trigger] toks[k]),
    ensures
        scan(toks, i, FilterModel::empty()) == FilterModel::empty(),
    decreases toks.len() - i,
{
    if i < toks.len() {
        assert(!is_cue_word(toks[i]));
        lemma_scan_without_cues(toks, i + 1);
    }
}

/// Words none of which is a cue word set no constraint, and so give
/// `NoConstraintsRecognized`.
pub proof fn words_without_cues_parse_to_nothing(toks: Seq<Seq<char>>)
    requires
        forall|k: int| 0 <= k < toks.len() ==> !is_cue_word(#[trigger] toks[k]),
    ensures
        parse_tokens_spec(toks) == Err::<FilterModel, ParseError>(
            ParseError::NoConstraintsRecognized,
        ),
{
    lemma_scan_without_cues(toks, 0);
}

/// A text none of whose words is a cue word gives `NoConstraintsRecognized`.
pub proof fn text_without_cues_parses_to_nothing(text: Seq<char>)
    requires
        forall|k: int|
            0 <= k < tokenize_spec(text).len() ==> !is_cue_word(#[trigger] tokenize_spec(text)[k]),
    ensures
        parse_tokens_spec(tokenize_spec(text)) == Err::<FilterModel, ParseError>(
            ParseError::NoConstraintsRecognized,
        ),
{
    words_without_cues_parse_to_nothing(tokenize_spec(text));
}

/// A parse depends on the characters of the text and on nothing else: two
/// calls on equal texts, in any order or at the same time, give equal results.
pub proof fn parse_depends_on_text_alone(a: Seq<char>, b: Seq<char>)
    requires
        a == b,
    ensures
        parse_tokens_spec(tokenize_spec(a)) == parse_tokens_spec(tokenize_spec(b)),
{
}

/// A successful parse sets at least one field and never a lower length bound
/// above the upper one.
pub proof fn parsed_filters_are_consistent(toks: Seq<Seq<char>>)
    requires
        parse_tokens_spec(toks) is Ok,
    ensures
        !parse_tokens_spec(toks)->Ok_0.is_empty(),
        !parse_tokens_spec(toks)->Ok_0.has_conflict(),
{
}

/// A character constraint holds exactly one character.
pub open spec fn single_character(f: FilterModel) -> bool {
    f.contains_character matches Some(s) ==> s.len() == 1
}

proof fn lemma_scan_single_character(toks: Seq<Seq<char>>, i: int, f: FilterModel)
    requires
        single_character(f),
    ensures
        single_character(scan(toks, i, f)),
    decreases toks.len() - i,
{
    if 0 <= i < toks.len() {
        let (j, g) = step(toks, i, f);
        lemma_scan_single_character(toks, j + 1, g);
    }
}

/// The character constraint that a parse sets is a single character.
pub proof fn parsed_character_is_single(toks: Seq<Seq<char>>)
    requires
        parse_tokens_spec(toks) is Ok,
    ensures
        single_character(parse_tokens_spec(toks)->Ok_0),
{
    lemma_scan_single_character(toks, 0, FilterModel::empty());
}

impl ParseError {
    /// The HTTP status that reports this error: 400 when nothing was
    /// recognised, 422 when the constraints contradict each other.
    pub fn http_status(&self) -> (r: u16)
        ensures
            *self == ParseError::NoConstraintsRecognized ==> r == 400,
            *self == ParseError::ConflictingFilters ==> r == 422,
    {
        match self {
            ParseError::NoConstraintsRecognized => 400,
            ParseError::ConflictingFilters => 422,
        }
    }
}

} // verus!
