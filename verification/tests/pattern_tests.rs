use ebus::pattern::{match_field, same_text};

#[test]
fn star_matches_any_string() {
    assert!(match_field("4B01", "*"));
    assert!(match_field("", "*"));
    assert!(match_field("anything at all", "*"));
}

#[test]
fn caret_matches_prefix() {
    assert!(match_field("4B01", "^4B"));
    assert!(!match_field("3A01", "^4B"));
    assert!(match_field("4B", "^4B"));
    assert!(!match_field("4", "^4B"));
    assert!(!match_field("", "^4B"));
    assert!(!match_field("04B", "^4B"));
}

#[test]
fn caret_alone_matches_everything() {
    assert!(match_field("4B01", "^"));
    assert!(match_field("", "^"));
}

#[test]
fn literal_with_wildcard_positions() {
    assert!(match_field("4F01", "4*01"));
    assert!(!match_field("4F02", "4*01"));
    assert!(match_field("4001", "4*01"));
    assert!(!match_field("5F01", "4*01"));
    assert!(match_field("AB", "**"));
    assert!(!match_field("A", "**"));
}

#[test]
fn literal_matches_exactly() {
    assert!(match_field("B509", "B509"));
    assert!(!match_field("B508", "B509"));
    assert!(!match_field("b509", "B509"));
}

#[test]
fn literal_must_have_the_length_of_the_value() {
    assert!(!match_field("4F011", "4*01"));
    assert!(!match_field("4F0", "4*01"));
    assert!(!match_field("10", "1"));
    assert!(!match_field("1", "10"));
}

#[test]
fn empty_pattern_matches_only_the_empty_value() {
    assert!(match_field("", ""));
    assert!(!match_field("0", ""));
}

#[test]
fn caret_inside_a_pattern_is_a_literal() {
    assert!(match_field("4^", "4^"));
    assert!(!match_field("4B", "4^"));
}

#[test]
fn same_text_compares_characters() {
    assert!(same_text("", ""));
    assert!(same_text("u16le", "u16le"));
    assert!(!same_text("u16le", "u16he"));
    assert!(!same_text("u8", "u8 "));
    assert!(same_text("gr\u{fc}n", "gr\u{fc}n"));
    assert!(!same_text("gr\u{fc}n", "grun"));
}
