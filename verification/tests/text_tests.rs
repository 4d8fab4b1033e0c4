use twitchy::text::{trim, split_whitespace, contains_str, join_strings, decimal_string, str_equal};
use twitchy::commands::parse_command;
use twitchy::unicode::{byte_index, clamp_cursor, is_whitespace, char_width, chars_of};

#[test]
fn byte_index_counts_utf8_bytes() {
    assert_eq!(byte_index("héllo", 0), 0);
    assert_eq!(byte_index("héllo", 1), 1);
    assert_eq!(byte_index("héllo", 2), 3);
    assert_eq!(byte_index("héllo", 5), 6);
    assert_eq!(byte_index("héllo", 9), 6);
    assert_eq!(byte_index("a😀b", 2), 5);
    assert_eq!(byte_index("", 3), 0);
}

#[test]
fn clamp_cursor_stays_within_characters() {
    assert_eq!(clamp_cursor("héllo", 3), 3);
    assert_eq!(clamp_cursor("héllo", 5), 5);
    assert_eq!(clamp_cursor("héllo", 6), 5);
    assert_eq!(clamp_cursor("", 1), 0);
}

#[test]
fn whitespace_follows_unicode() {
    assert!(is_whitespace(' '));
    assert!(is_whitespace('\t'));
    assert!(is_whitespace('\n'));
    assert!(is_whitespace('\u{3000}'));
    assert!(is_whitespace('\u{A0}'));
    assert!(!is_whitespace('a'));
    assert!(!is_whitespace('\u{200B}'));
    for c in ['x', ' ', '\u{85}', '\u{2028}', '\u{1680}', 'é', '\u{FEFF}'] {
        assert_eq!(is_whitespace(c), c.is_whitespace());
    }
}

#[test]
fn char_width_matches_utf8() {
    for c in ['a', 'é', '€', '😀'] {
        assert_eq!(char_width(c), c.len_utf8());
    }
    assert_eq!(chars_of("a😀b"), vec!['a', '😀', 'b']);
}

#[test]
fn trim_removes_outer_white_space() {
    assert_eq!(trim("  hello world \t\n"), "hello world");
    assert_eq!(trim("   "), "");
    assert_eq!(trim("x"), "x");
    assert_eq!(trim("\u{3000}wide\u{3000}"), "wide");
}

#[test]
fn split_whitespace_gives_words() {
    assert_eq!(split_whitespace("  a  bb\tccc \n"), vec!["a", "bb", "ccc"]);
    assert!(split_whitespace("   ").is_empty());
    assert_eq!(split_whitespace("one"), vec!["one"]);
}

#[test]
fn contains_finds_substrings() {
    assert!(contains_str("hello world", "lo w"));
    assert!(contains_str("hello", ""));
    assert!(!contains_str("hello", "hellos"));
    assert!(!contains_str("abc", "ac"));
}

#[test]
fn join_puts_separator_between() {
    let parts = vec!["a".to_string(), "b".to_string(), "c".to_string()];
    assert_eq!(join_strings(&parts, ", "), "a, b, c");
    assert_eq!(join_strings(&vec![], ", "), "");
    assert_eq!(join_strings(&vec!["solo".to_string()], ", "), "solo");
}

#[test]
fn decimal_renders_numbers() {
    assert_eq!(decimal_string(0), "0");
    assert_eq!(decimal_string(7), "7");
    assert_eq!(decimal_string(1234567890), "1234567890");
    assert_eq!(decimal_string(u64::MAX), u64::MAX.to_string());
}

#[test]
fn equality_and_lowercase() {
    assert!(str_equal("abc", "abc"));
    assert!(!str_equal("abc", "abd"));
    assert_eq!(parse_command("!HeLLo ÉCOLE"), Some(("hello".to_string(), vec!["ÉCOLE".to_string()])));
    assert_eq!(parse_command("!ÉCOLE"), Some(("école".to_string(), vec![])));
}
