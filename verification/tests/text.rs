use i18n::text::{chars_of, decimal_text, replace, same_text};

#[test]
fn same_text_compares_characters() {
    assert!(same_text("", ""));
    assert!(same_text("en", "en"));
    assert!(same_text("中文", "中文"));
    assert!(!same_text("en", "e"));
    assert!(!same_text("e", "en"));
    assert!(!same_text("en", "eN"));
    assert!(!same_text("", "x"));
    assert!(!same_text("中文", "中"));
    assert!(!same_text("zh-CN", "zh_CN"));
}

#[test]
fn chars_of_lists_every_character() {
    assert_eq!(chars_of(""), Vec::<char>::new());
    assert_eq!(chars_of("a{0}"), vec!['a', '{', '0', '}']);
    assert_eq!(chars_of("语ñ"), vec!['语', 'ñ']);
}

#[test]
fn decimal_text_writes_numerals() {
    assert_eq!(decimal_text(0), "0");
    assert_eq!(decimal_text(7), "7");
    assert_eq!(decimal_text(9), "9");
    assert_eq!(decimal_text(10), "10");
    assert_eq!(decimal_text(42), "42");
    assert_eq!(decimal_text(100), "100");
    assert_eq!(decimal_text(1234567890), "1234567890");
    assert_eq!(decimal_text(usize::MAX), usize::MAX.to_string());
}

#[test]
fn replace_replaces_every_occurrence() {
    assert_eq!(replace("a{0}b{0}c", "{0}", "X"), "aXbXc");
    assert_eq!(replace("{0}", "{0}", "whole"), "whole");
    assert_eq!(replace("{0}{0}", "{0}", ""), "");
    assert_eq!(replace("start {0}", "{0}", "end"), "start end");
    assert_eq!(replace("{0} end", "{0}", "start"), "start end");
}

#[test]
fn replace_leaves_text_without_occurrence_alone() {
    assert_eq!(replace("nothing here", "{0}", "X"), "nothing here");
    assert_eq!(replace("", "{0}", "X"), "");
    assert_eq!(replace("{0", "{0}", "X"), "{0");
    assert_eq!(replace("0}", "{0}", "X"), "0}");
    assert_eq!(replace("ab", "abc", "X"), "ab");
}

#[test]
fn replace_goes_left_to_right_without_overlap() {
    assert_eq!(replace("aaa", "aa", "b"), "ba");
    assert_eq!(replace("aaaa", "aa", "b"), "bb");
    assert_eq!(replace("ababa", "aba", "x"), "xba");
}

#[test]
fn replace_does_not_search_the_replacement_again() {
    assert_eq!(replace("{0}", "{0}", "{0}{0}"), "{0}{0}");
    assert_eq!(replace("ab", "a", "aa"), "aab");
}

#[test]
fn replace_with_empty_pattern_changes_nothing() {
    assert_eq!(replace("abc", "", "X"), "abc");
    assert_eq!(replace("", "", "X"), "");
}

#[test]
fn replace_handles_text_beyond_ascii() {
    assert_eq!(replace("你好 {0}！", "{0}", "世界"), "你好 世界！");
    assert_eq!(replace("ñ→ñ", "ñ", "n"), "n→n");
}

#[test]
fn replace_agrees_with_the_standard_library() {
    let cases = [
        ("Hello {0}, you have {1} items", "{0}", "Ann"),
        ("{1}{1}{10}", "{1}", "x"),
        ("a.b.c", ".", "::"),
        ("xxxx", "xx", "xxx"),
        ("tail{2", "{2}", "y"),
    ];
    for (text, pattern, with) in cases {
        assert_eq!(replace(text, pattern, with), text.replace(pattern, with));
    }
}
