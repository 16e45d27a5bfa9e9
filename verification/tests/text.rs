use dinit_dash::text::{
    leading_run, parse_leading_number, replace_all, same_text, split_lines, strip_prefix,
    tail_lines, trimmed, trimmed_front, Class,
};

#[test]
fn white_space_is_that_of_unicode() {
    for u in 0..=0x10ffffu32 {
        if let Some(c) = char::from_u32(u) {
            assert_eq!(Class::Space.contains(c), c.is_whitespace());
            assert_eq!(Class::Word.contains(c), !c.is_whitespace());
            assert_eq!(Class::Digit.contains(c), c.is_ascii_digit());
        }
    }
    assert!(Class::Quote.contains('"'));
    assert!(!Class::Quote.contains('\''));
}

#[test]
fn lines_are_those_of_std() {
    for s in [
        "", "a", "a\n", "\n", "\n\n", "a\nb", "a\r\nb\r\n", "a\r", "a\r\r\n", "\r\n", "\u{e9}\n\u{4e2d}",
        "a\rb\nc", "a\n\nb\n",
    ] {
        let expected: Vec<&str> = s.lines().collect();
        assert_eq!(split_lines(s), expected);
    }
}

#[test]
fn trimming_is_that_of_std() {
    for s in ["", " ", " a ", "\t\u{3000}a b\u{a0}\n", "a", "  \r\n"] {
        assert_eq!(trimmed(s, Class::Space), s.trim());
        assert_eq!(trimmed_front(s, Class::Space), s.trim_start());
    }
    assert_eq!(trimmed("\"\"a\"b\"", Class::Quote), "a\"b");
    assert_eq!(trimmed("\"", Class::Quote), "");
    assert_eq!(leading_run("12 3", Class::Digit), "12");
}

#[test]
fn prefixes_are_stripped_once() {
    assert_eq!(strip_prefix("File: x", "File:"), Some(" x"));
    assert_eq!(strip_prefix("aab", "a"), Some("ab"));
    assert_eq!(strip_prefix("Fil", "File:"), None);
    assert_eq!(strip_prefix("\u{e9}b", "\u{e9}"), Some("b"));
    assert!(same_text("a\u{e9}", "a\u{e9}"));
    assert!(!same_text("ab", "a"));
    assert!(!same_text("ab", "ac"));
}

#[test]
fn replacing_is_that_of_std() {
    for (s, p, w) in [
        ("$HOME/x", "$HOME", "/root"),
        ("aaaa", "aa", "b"),
        ("aaa", "aa", "aa"),
        ("", "a", "b"),
        ("abc", "c", ""),
        ("$HOM", "$HOME", "x"),
        ("\u{e9}$HOME$HOME", "$HOME", "\u{4e2d}"),
    ] {
        assert_eq!(replace_all(s, p, w), s.replace(p, w));
    }
}

#[test]
fn numbers_stand_at_the_front_and_fit() {
    assert_eq!(parse_leading_number("812 (x)"), Some(812));
    assert_eq!(parse_leading_number("0007"), Some(7));
    assert_eq!(parse_leading_number("4294967295"), Some(4294967295));
    assert_eq!(parse_leading_number("4294967296"), None);
    assert_eq!(parse_leading_number("99999999999999999999999999"), None);
    assert_eq!(parse_leading_number("-1"), None);
    assert_eq!(parse_leading_number(""), None);
}

#[test]
fn tails_are_whole_lines() {
    assert_eq!(tail_lines("a\nb\nc\n", 2), "b\nc");
    assert_eq!(tail_lines("a\nb\nc", 3), "a\nb\nc");
    assert_eq!(tail_lines("a\nb\nc", 100), "a\nb\nc");
    assert_eq!(tail_lines("a\nb", 0), "");
    assert_eq!(tail_lines("", 5), "");
    assert_eq!(tail_lines("a\r\n\r\nb", 2), "\nb");
}
