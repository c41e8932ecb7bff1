use string_analyser::filters::StringFilters;
use string_analyser::nlp::{parse_natural_language, parse_tokens, tokenize, ParseError};

fn filters(q: &str) -> StringFilters {
    parse_natural_language(q).expect("query should parse").filters
}

fn empty() -> StringFilters {
    StringFilters::none()
}

#[test]
fn text_without_keywords_is_rejected() {
    assert_eq!(
        parse_natural_language("hello world").unwrap_err(),
        ParseError::NoConstraintsRecognized
    );
    assert_eq!(
        parse_natural_language("").unwrap_err(),
        ParseError::NoConstraintsRecognized
    );
    assert_eq!(
        parse_natural_language("   \t  ").unwrap_err(),
        ParseError::NoConstraintsRecognized
    );
}

#[test]
fn palindrome_strings() {
    let p = parse_natural_language("palindrome strings").unwrap();
    assert_eq!(p.original, "palindrome strings");
    assert_eq!(
        p.filters,
        StringFilters { is_palindrome: Some(true), ..empty() }
    );
}

#[test]
fn shorter_and_longer_than() {
    assert_eq!(
        filters("shorter than 10"),
        StringFilters { max_length: Some(9), ..empty() }
    );
    assert_eq!(
        filters("longer than 10"),
        StringFilters { min_length: Some(11), ..empty() }
    );
}

#[test]
fn exactly_sets_both_bounds() {
    assert_eq!(
        filters("exactly 5"),
        StringFilters { min_length: Some(5), max_length: Some(5), ..empty() }
    );
    assert_eq!(
        filters("equals +7"),
        StringFilters { min_length: Some(7), max_length: Some(7), ..empty() }
    );
}

#[test]
fn contradicting_bounds_conflict() {
    assert_eq!(
        filters("shorter than 5"),
        StringFilters { max_length: Some(4), ..empty() }
    );
    assert_eq!(
        parse_natural_language("shorter than 5 longer than 10").unwrap_err(),
        ParseError::ConflictingFilters
    );
}

#[test]
fn third_vowel() {
    assert_eq!(
        filters("third vowel"),
        StringFilters { contains_character: Some("i".to_string()), ..empty() }
    );
}

#[test]
fn single_and_one_word() {
    let one = StringFilters { word_count: Some(1), ..empty() };
    assert_eq!(filters("single word"), one);
    assert_eq!(filters("one word"), one);
}

#[test]
fn hyphenated_word_count() {
    assert_eq!(
        filters("3-word"),
        StringFilters { word_count: Some(3), ..empty() }
    );
}

#[test]
fn contains_letter_and_with() {
    let z = StringFilters { contains_character: Some("z".to_string()), ..empty() };
    assert_eq!(filters("contains the letter z"), z);
    assert_eq!(filters("with z"), z);
}

#[test]
fn repeated_interleaved_calls_agree() {
    let queries = ["palindrome strings", "shorter than 5 longer than 10", "nothing here"];
    let first: Vec<_> = queries.iter().map(|q| parse_natural_language(q)).collect();
    for _ in 0..3 {
        for (k, q) in queries.iter().enumerate().rev() {
            assert_eq!(parse_natural_language(q), first[k]);
        }
    }
}

#[test]
fn query_is_kept_verbatim() {
    let p = parse_natural_language("  Strings LONGER than 3 ").unwrap();
    assert_eq!(p.original, "  Strings LONGER than 3 ");
    assert_eq!(p.filters, StringFilters { min_length: Some(4), ..empty() });
}

#[test]
fn malformed_number_skips_the_phrase() {
    assert_eq!(
        parse_natural_language("shorter than abc").unwrap_err(),
        ParseError::NoConstraintsRecognized
    );
    assert_eq!(
        filters("shorter than abc palindrome"),
        StringFilters { is_palindrome: Some(true), ..empty() }
    );
}

#[test]
fn bound_at_the_edge_of_i32_sets_nothing() {
    assert_eq!(
        parse_natural_language("shorter than -2147483648").unwrap_err(),
        ParseError::NoConstraintsRecognized
    );
    assert_eq!(
        parse_natural_language("longer than 2147483647").unwrap_err(),
        ParseError::NoConstraintsRecognized
    );
    assert_eq!(
        filters("smaller than 2147483647"),
        StringFilters { max_length: Some(2147483646), ..empty() }
    );
}

#[test]
fn ordinal_forms() {
    let c = |s: &str| StringFilters { contains_character: Some(s.to_string()), ..empty() };
    assert_eq!(filters("first consonant"), c("b"));
    assert_eq!(filters("21st consonant"), c("z"));
    assert_eq!(filters("26th letter"), c("z"));
    assert_eq!(filters("2nd alphabet"), c("b"));
    assert_eq!(filters("5th vowel"), c("u"));
    assert_eq!(filters("tenth letter"), c("j"));
}

#[test]
fn ordinal_out_of_range_sets_nothing() {
    assert_eq!(
        parse_natural_language("sixth vowel").unwrap_err(),
        ParseError::NoConstraintsRecognized
    );
    assert_eq!(
        parse_natural_language("27th letter").unwrap_err(),
        ParseError::NoConstraintsRecognized
    );
    assert_eq!(
        parse_natural_language("0th vowel").unwrap_err(),
        ParseError::NoConstraintsRecognized
    );
}

#[test]
fn ordinal_with_non_ascii_numeral_is_no_number() {
    assert_eq!(
        parse_natural_language("5\u{bd}th letter").unwrap_err(),
        ParseError::NoConstraintsRecognized
    );
}

#[test]
fn numeral_ordinal_needs_digits_then_ending() {
    assert_eq!(
        parse_natural_language("5xth letter").unwrap_err(),
        ParseError::NoConstraintsRecognized
    );
    assert_eq!(
        parse_natural_language("+5th letter").unwrap_err(),
        ParseError::NoConstraintsRecognized
    );
    assert_eq!(
        parse_natural_language("th letter").unwrap_err(),
        ParseError::NoConstraintsRecognized
    );
    assert_eq!(
        filters("12th letter"),
        StringFilters { contains_character: Some("l".to_string()), ..empty() }
    );
}

#[test]
fn numeric_word_counts() {
    assert_eq!(
        filters("2 words"),
        StringFilters { word_count: Some(2), ..empty() }
    );
    assert_eq!(
        filters("strings of 4 word"),
        StringFilters { word_count: Some(4), ..empty() }
    );
}

#[test]
fn single_does_not_swallow_a_following_cue() {
    assert_eq!(
        filters("single palindrome"),
        StringFilters { word_count: Some(1), is_palindrome: Some(true), ..empty() }
    );
}

#[test]
fn combined_query() {
    assert_eq!(
        filters("single word palindromic strings containing the letter a"),
        StringFilters {
            is_palindrome: Some(true),
            word_count: Some(1),
            contains_character: Some("a".to_string()),
            ..empty()
        }
    );
    assert_eq!(
        filters("strings longer than 10 that contain the third vowel"),
        StringFilters {
            min_length: Some(11),
            contains_character: Some("i".to_string()),
            ..empty()
        }
    );
}

#[test]
fn tokenizer_lowercases_and_splits_on_whitespace() {
    assert_eq!(
        tokenize("  Hello\tWORLD\n\u{3000}x  "),
        vec!["hello".to_string(), "world".to_string(), "x".to_string()]
    );
    assert!(tokenize("").is_empty());
    assert!(tokenize(" \n\t ").is_empty());
}

#[test]
fn parse_tokens_reads_words_as_given() {
    let words = vec!["exactly".to_string(), "12".to_string()];
    assert_eq!(
        parse_tokens(&words).unwrap(),
        StringFilters { min_length: Some(12), max_length: Some(12), ..empty() }
    );
    let upper = vec!["EXACTLY".to_string(), "12".to_string()];
    assert_eq!(parse_tokens(&upper).unwrap_err(), ParseError::NoConstraintsRecognized);
}

#[test]
fn parse_error_statuses() {
    assert_eq!(ParseError::NoConstraintsRecognized.http_status(), 400);
    assert_eq!(ParseError::ConflictingFilters.http_status(), 422);
    let r = ParseError::ConflictingFilters.to_response();
    assert_eq!(r.status, 409);
    assert_eq!(r.code, "CONFLICT");
    assert_eq!(r.message, "Query parsed but resulted in conflicting filters");
    assert!(r.details.is_none());
    let r = ParseError::NoConstraintsRecognized.to_response();
    assert_eq!(r.status, 400);
    assert_eq!(r.code, "INVALID_INPUT");
    assert_eq!(r.message, "Unable to parse natural language query");
    assert!(r.details.is_none());
}
