use ada::strutil::{
    pad_left, sort_strings, str_contains, str_eq, str_index_of, str_lex_le, str_replace_all,
    str_replace_first, usize_string,
};

#[test]
fn contains_finds_inner_text() {
    assert!(str_contains("hello world", "lo w"));
    assert!(str_contains("hello", ""));
    assert!(!str_contains("abc", "abcd"));
    assert!(!str_contains("", "a"));
}

#[test]
fn index_of_finds_first_occurrence() {
    assert_eq!(str_index_of("abcabc", "bc", 0), Some(1));
    assert_eq!(str_index_of("abcabc", "bc", 2), Some(4));
    assert_eq!(str_index_of("abcabc", "zz", 0), None);
    assert_eq!(str_index_of("abc", "", 1), Some(1));
}

#[test]
fn replace_all_is_left_to_right_without_overlap() {
    assert_eq!(str_replace_all("aaa", "aa", "b"), "ba");
    assert_eq!(str_replace_all("one two one", "one", "1"), "1 two 1");
    assert_eq!(str_replace_all("abc", "z", "y"), "abc");
}

#[test]
fn replace_with_empty_needle_matches_every_boundary() {
    assert_eq!(str_replace_all("ab", "", "-"), "-a-b-");
    assert_eq!(str_replace_first("ab", "", "-"), "-ab");
}

#[test]
fn replace_first_stops_after_one() {
    assert_eq!(str_replace_first("aaa", "aa", "b"), "ba");
    assert_eq!(str_replace_first("x y x", "x", "z"), "z y x");
    assert_eq!(str_replace_first("abc", "z", "y"), "abc");
}

#[test]
fn numbers_render_in_decimal() {
    assert_eq!(usize_string(0), "0");
    assert_eq!(usize_string(7), "7");
    assert_eq!(usize_string(105), "105");
    assert_eq!(usize_string(98765), "98765");
}

#[test]
fn padding_right_aligns() {
    assert_eq!(pad_left("7".to_string(), 4), "   7");
    assert_eq!(pad_left("12345".to_string(), 4), "12345");
    assert_eq!(pad_left("".to_string(), 2), "  ");
}

#[test]
fn string_equality_is_by_characters() {
    assert!(str_eq("abc", "abc"));
    assert!(!str_eq("abc", "abd"));
    assert!(!str_eq("abc", "ab"));
    assert!(str_eq("", ""));
}

#[test]
fn lexicographic_order_on_texts() {
    assert!(str_lex_le("abc", "abd"));
    assert!(str_lex_le("ab", "abc"));
    assert!(!str_lex_le("abd", "abc"));
    assert!(str_lex_le("", "a"));
    assert!(str_lex_le("a", "a"));
}

#[test]
fn sorting_orders_and_keeps_everything() {
    let v = vec![
        "pear".to_string(),
        "apple".to_string(),
        "banana".to_string(),
        "apple".to_string(),
    ];
    let sorted = sort_strings(v);
    assert_eq!(sorted, vec!["apple", "apple", "banana", "pear"]);
    assert_eq!(sort_strings(Vec::new()), Vec::<String>::new());
}
