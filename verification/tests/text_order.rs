use tui_journal::text::{chars_contain, str_contains, str_lt, to_chars};

#[test]
fn chars_are_collected_in_order() {
    assert_eq!(to_chars("añb"), vec!['a', 'ñ', 'b']);
    assert_eq!(to_chars(""), Vec::<char>::new());
}

#[test]
fn dictionary_order_goes_by_the_first_difference() {
    assert!(str_lt("abc", "abd"));
    assert!(!str_lt("abd", "abc"));
    assert!(str_lt("Zebra", "apple"));
    assert!(str_lt("a", "b"));
}

#[test]
fn a_proper_prefix_comes_first() {
    assert!(str_lt("ab", "abc"));
    assert!(!str_lt("abc", "ab"));
    assert!(str_lt("", "a"));
    assert!(!str_lt("a", ""));
}

#[test]
fn no_string_precedes_itself() {
    assert!(!str_lt("", ""));
    assert!(!str_lt("same", "same"));
}

#[test]
fn dictionary_order_goes_by_code_point() {
    assert!(str_lt("z", "é"));
    assert!(str_lt("é", "中"));
    assert!(!str_lt("中", "é"));
}

#[test]
fn dictionary_order_is_total_and_transitive_on_samples() {
    let words = ["", "a", "ab", "abc", "abd", "b", "ba", "é"];
    for (i, a) in words.iter().enumerate() {
        for (j, b) in words.iter().enumerate() {
            assert_eq!(str_lt(a, b), i < j, "{a:?} before {b:?}");
            assert_eq!(str_lt(a, b), a < b);
        }
    }
}

#[test]
fn substring_is_found_anywhere() {
    assert!(str_contains("hello world", "hello"));
    assert!(str_contains("hello world", "lo w"));
    assert!(str_contains("hello world", "world"));
    assert!(str_contains("hello world", "hello world"));
}

#[test]
fn substring_is_not_found_where_it_is_not() {
    assert!(!str_contains("hello world", "worlds"));
    assert!(!str_contains("hello", "hello world"));
    assert!(!str_contains("hello", "H"));
    assert!(!str_contains("", "a"));
}

#[test]
fn the_empty_string_is_part_of_every_string() {
    assert!(str_contains("hello", ""));
    assert!(str_contains("", ""));
}

#[test]
fn substring_search_backs_up_after_a_partial_match() {
    assert!(str_contains("aaab", "aab"));
    assert!(str_contains("ababac", "abac"));
    assert!(!str_contains("ababab", "abac"));
}

#[test]
fn substring_of_characters() {
    let hay = to_chars("grüße aus köln");
    assert!(chars_contain(&hay, &to_chars("üße")));
    assert!(chars_contain(&hay, &to_chars("köln")));
    assert!(!chars_contain(&hay, &to_chars("koln")));
}
