use orion_core::text::{
    contains_sub, find_char, join_range, parse_u64, replace_all, rfind_char, split_str,
    str_eq, to_lowercase, trim_str,
};

#[test]
fn substring_search_finds_needles() {
    assert!(contains_sub("Open calculator", "calc"));
    assert!(contains_sub("abc", ""));
    assert!(contains_sub("abc", "abc"));
    assert!(!contains_sub("abc", "abcd"));
    assert!(!contains_sub("", "a"));
}

#[test]
fn char_search_finds_first_and_last() {
    assert_eq!(find_char("a b c", ' '), Some(1));
    assert_eq!(rfind_char("a b c", ' '), Some(3));
    assert_eq!(find_char("abc", ' '), None);
    assert_eq!(rfind_char("abc", ' '), None);
}

#[test]
fn replacement_covers_every_occurrence() {
    assert_eq!(replace_all("a{{{s}}}b{{{s}}}", "{{{s}}}", "X"), "aXbX");
    assert_eq!(replace_all("no placeholder", "{{{s}}}", "X"), "no placeholder");
    assert_eq!(replace_all("aaa", "aa", "b"), "ba");
    assert_eq!(replace_all("x", "", "y"), "x");
}

#[test]
fn splitting_keeps_empty_segments() {
    let parts = split_str("a  b", ' ');
    assert_eq!(parts, vec!["a".to_string(), String::new(), "b".to_string()]);
    assert_eq!(split_str("", ' '), vec![String::new()]);
    assert_eq!(split_str("solo", ' '), vec!["solo".to_string()]);
}

#[test]
fn joining_restores_the_split() {
    let parts = split_str("one two three", ' ');
    assert_eq!(join_range(&parts, 0, parts.len(), ' '), "one two three");
    assert_eq!(join_range(&parts, 0, 2, ' '), "one two");
    assert_eq!(join_range(&parts, 1, 1, ' '), "");
}

#[test]
fn trimming_strips_both_ends() {
    assert_eq!(trim_str("  hello \t"), "hello");
    assert_eq!(trim_str("hello"), "hello");
    assert_eq!(trim_str("   "), "");
    assert_eq!(trim_str("a b"), "a b");
}

#[test]
fn decimal_parsing_is_exact() {
    assert_eq!(parse_u64("0"), Some(0));
    assert_eq!(parse_u64("42"), Some(42));
    assert_eq!(parse_u64("18446744073709551615"), Some(u64::MAX));
    assert_eq!(parse_u64("18446744073709551616"), None);
    assert_eq!(parse_u64(""), None);
    assert_eq!(parse_u64("12a"), None);
    assert_eq!(parse_u64("-1"), None);
}

#[test]
fn string_equality_is_by_characters() {
    assert!(str_eq("abc", "abc"));
    assert!(!str_eq("abc", "abd"));
    assert!(!str_eq("abc", "ab"));
}

#[test]
fn lowercasing_folds_case() {
    // Fails if the case-folding call handed its argument back unchanged.
    assert_eq!(to_lowercase("CALC"), "calc");
    assert_eq!(to_lowercase(""), "");
    assert_eq!(to_lowercase("\u{c9}cole"), "\u{e9}cole");
}
