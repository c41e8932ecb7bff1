use string_analyser::analyser::{
    analyse_string, compute_sha256, count_chars, count_distinct_chars, get_char_frequency_map,
    get_unique_chars_count, get_word_count, is_palindrome, reads_same_backwards,
};

#[test]
fn sha256_of_known_strings() {
    assert_eq!(
        compute_sha256("hello"),
        "2cf24dba5fb0a30e26e83b2ac5b9e29e1b161e5c1fa7425e73043362938b9824"
    );
    assert_eq!(
        compute_sha256(""),
        "e3b0c44298fc1c149afbf4c8996fb92427ae41e4649b934ca495991b7852b855"
    );
}

#[test]
fn palindrome_ignores_case() {
    assert!(is_palindrome("Racecar"));
    assert!(!is_palindrome("hello"));
    assert!(is_palindrome(""));
    assert!(!is_palindrome("A man a plan"));
}

#[test]
fn reads_same_backwards_keeps_case() {
    assert!(reads_same_backwards("racecar"));
    assert!(reads_same_backwards("a"));
    assert!(!reads_same_backwards("ab"));
    assert!(!reads_same_backwards("Racecar"));
}

#[test]
fn counts_of_lowercase_text() {
    assert_eq!(get_unique_chars_count("Hello"), 4);
    assert_eq!(get_unique_chars_count("AaBb"), 2);
    assert_eq!(get_unique_chars_count(""), 0);
    assert_eq!(get_word_count("  a b\tc  "), 3);
    assert_eq!(get_word_count(""), 0);
    let m = get_char_frequency_map("Hello");
    assert_eq!(m.len(), 4);
    assert_eq!(m[&('h' as u32)], 1);
    assert_eq!(m[&('e' as u32)], 1);
    assert_eq!(m[&('l' as u32)], 2);
    assert_eq!(m[&('o' as u32)], 1);
    assert!(m.get(&('H' as u32)).is_none());
}

#[test]
fn counts_of_text_as_given() {
    assert_eq!(count_distinct_chars("AaBb"), 4);
    let m = count_chars("Hello");
    assert_eq!(m[&('H' as u32)], 1);
    assert!(m.get(&('h' as u32)).is_none());
}

#[test]
fn analyse_mixed_case_text() {
    let p = analyse_string("Never odd or eveN").unwrap();
    assert_eq!(p.length, 17);
    assert!(!p.is_palindrome);
    assert_eq!(p.word_count, 4);
    assert_eq!(p.unique_characters, 7);
    assert_eq!(p.character_frequency_map[&('e' as u32)], 4);
    assert_eq!(p.character_frequency_map[&(' ' as u32)], 3);
    assert!(p.character_frequency_map.get(&('N' as u32)).is_none());
    assert_eq!(p.sha256_hash, compute_sha256("Never odd or eveN"));
    assert_eq!(p.sha256_hash.len(), 64);
    assert_eq!(p.unique_characters as usize, p.character_frequency_map.len());

    let q = analyse_string("RaceCar").unwrap();
    assert!(q.is_palindrome);
    assert_eq!(q.length, 7);
    assert_eq!(q.unique_characters, 4);
}

#[test]
fn length_counts_bytes() {
    let p = analyse_string("\u{e9}t\u{e9}").unwrap();
    assert_eq!(p.length, 5);
    assert_eq!(p.unique_characters, 2);
    assert!(p.is_palindrome);
}
