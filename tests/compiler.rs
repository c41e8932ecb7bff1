use string_analyser::compiler::{compile, Clause};
use string_analyser::filters::StringFilters;
use string_analyser::nlp::parse_natural_language;

#[test]
fn empty_filter_compiles_to_no_clause() {
    let f = StringFilters::none();
    assert!(f.is_empty());
    assert!(compile(&f).is_empty());
}

#[test]
fn clauses_follow_field_order() {
    let f = StringFilters {
        is_palindrome: Some(false),
        min_length: Some(2),
        max_length: Some(8),
        word_count: Some(1),
        contains_character: Some("Q".to_string()),
    };
    assert_eq!(
        compile(&f),
        vec![
            Clause::IsPalindrome(false),
            Clause::MinLength(2),
            Clause::MaxLength(8),
            Clause::WordCount(1),
            Clause::ContainsCharacter("q".to_string()),
        ]
    );
}

#[test]
fn compiling_twice_gives_the_same_clauses() {
    let f = parse_natural_language("palindromes longer than 3 with x").unwrap().filters;
    let a = compile(&f);
    let b = compile(&f);
    assert_eq!(a, b);
    assert_eq!(
        a,
        vec![
            Clause::IsPalindrome(true),
            Clause::MinLength(4),
            Clause::ContainsCharacter("x".to_string()),
        ]
    );
}

#[test]
fn character_key_is_first_character_lowercased() {
    let mut f = StringFilters::none();
    f.contains_character = Some("\u{c9}tude".to_string());
    assert_eq!(compile(&f), vec![Clause::ContainsCharacter("\u{e9}".to_string())]);
}

#[test]
fn empty_character_constraint_compiles_to_nothing() {
    let mut f = StringFilters::none();
    f.contains_character = Some(String::new());
    assert!(compile(&f).is_empty());
}

#[test]
fn clause_conditions() {
    assert_eq!(Clause::IsPalindrome(true).condition(), " AND is_palindrome = ");
    assert_eq!(Clause::MinLength(1).condition(), " AND length >= ");
    assert_eq!(Clause::MaxLength(1).condition(), " AND length <= ");
    assert_eq!(Clause::WordCount(1).condition(), " AND word_count = ");
    assert_eq!(
        Clause::ContainsCharacter("a".to_string()).condition(),
        " AND char_frequency_map ? "
    );
}

#[test]
fn conflict_detection() {
    let mut f = StringFilters::none();
    f.min_length = Some(5);
    f.max_length = Some(4);
    assert!(f.has_conflict());
    f.max_length = Some(5);
    assert!(!f.has_conflict());
}
