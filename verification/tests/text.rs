use kuaa::lines::{copy_range, split_lines};
use kuaa::text::{
    from_chars, is_whitespace, matches_at, remove_all, render_decimal, same_chars, to_chars,
    to_lower, trim,
};

fn chars(text: &str) -> Vec<char> {
    text.chars().collect()
}

fn lines(text: &str) -> Vec<String> {
    split_lines(&chars(text)).iter().map(|line| line.iter().collect()).collect()
}

#[test]
fn strings_and_characters_convert() {
    assert_eq!(to_chars("a\u{e9}\u{1f600}"), vec!['a', '\u{e9}', '\u{1f600}']);
    assert_eq!(to_chars(""), Vec::<char>::new());
    assert_eq!(from_chars(&['a', '\u{e9}', '\u{1f600}']), "a\u{e9}\u{1f600}");
    assert_eq!(from_chars(&[]), "");
}

#[test]
fn numbers_are_written_in_decimal() {
    assert_eq!(render_decimal(0), "0");
    assert_eq!(render_decimal(7), "7");
    assert_eq!(render_decimal(10), "10");
    assert_eq!(render_decimal(12345), "12345");
    assert_eq!(render_decimal(1000000), "1000000");
    assert_eq!(render_decimal(u64::MAX as u128), "18446744073709551615");
    assert_eq!(render_decimal(u128::MAX), "340282366920938463463374607431768211455");
}

#[test]
fn white_space_is_what_unicode_says() {
    for c in ['\t', '\n', '\u{b}', '\u{c}', '\r', ' ', '\u{85}', '\u{a0}', '\u{1680}', '\u{2000}',
        '\u{200a}', '\u{2028}', '\u{2029}', '\u{202f}', '\u{205f}', '\u{3000}']
    {
        assert!(is_whitespace(c));
    }
    for c in ['a', '0', '`', '\u{8}', '\u{e}', '\u{1f}', '\u{200b}', '\u{feff}', '\u{180e}'] {
        assert!(!is_whitespace(c));
    }
    for code in 0u32..0x3100 {
        if let Some(c) = char::from_u32(code) {
            assert_eq!(is_whitespace(c), c.is_whitespace());
        }
    }
}

#[test]
fn trimming_takes_the_white_space_around() {
    assert_eq!(trim(&chars("  a b \n")), chars("a b"));
    assert_eq!(trim(&chars("a")), chars("a"));
    assert_eq!(trim(&chars("")), chars(""));
    assert_eq!(trim(&chars(" \t\r\n")), chars(""));
    assert_eq!(trim(&chars("\u{3000}x\u{a0}")), chars("x"));
    for text in ["  a b \n", "x", "", "   ", "\ta\u{2003}", "a  "] {
        let kept: String = trim(&chars(text)).iter().collect();
        assert_eq!(kept, text.trim());
    }
}

#[test]
fn capital_letters_are_lowered() {
    assert_eq!(to_lower(&chars("AbC-xYZ09")), chars("abc-xyz09"));
    assert_eq!(to_lower(&chars("@[`{")), chars("@[`{"));
    assert_eq!(to_lower(&chars("\u{c9}")), chars("\u{c9}"));
    assert_eq!(to_lower(&chars("")), chars(""));
}

#[test]
fn patterns_are_found_where_they_stand() {
    assert!(matches_at(&chars("abcabc"), 0, &chars("abc")));
    assert!(matches_at(&chars("abcabc"), 3, &chars("abc")));
    assert!(!matches_at(&chars("abcabc"), 1, &chars("abc")));
    assert!(!matches_at(&chars("abcabc"), 4, &chars("abc")));
    assert!(!matches_at(&chars("abc"), 7, &chars("a")));
    assert!(matches_at(&chars("abc"), 3, &chars("")));
    assert!(!matches_at(&chars("abc"), 4, &chars("")));
    assert!(same_chars(&chars("abc"), &chars("abc")));
    assert!(!same_chars(&chars("abc"), &chars("abd")));
    assert!(!same_chars(&chars("abc"), &chars("ab")));
    assert!(same_chars(&chars(""), &chars("")));
}

#[test]
fn patterns_are_removed_from_left_to_right() {
    assert_eq!(remove_all(&chars("abcabc"), &chars("bc")), chars("aa"));
    assert_eq!(remove_all(&chars("aaaa"), &chars("aaa")), chars("a"));
    assert_eq!(remove_all(&chars("aabb"), &chars("ab")), chars("ab"));
    assert_eq!(remove_all(&chars("abc"), &chars("")), chars("abc"));
    assert_eq!(remove_all(&chars("ab"), &chars("abc")), chars("ab"));
    assert_eq!(remove_all(&chars(""), &chars("x")), chars(""));
    for (text, pattern) in [("a```b```", "```"), ("xxxxx", "xx"), ("abab", "ba"), ("none", "z")] {
        let kept: String = remove_all(&chars(text), &chars(pattern)).iter().collect();
        assert_eq!(kept, text.replace(pattern, ""));
    }
}

#[test]
fn texts_are_cut_into_lines() {
    assert_eq!(lines(""), Vec::<String>::new());
    assert_eq!(lines("a"), vec!["a"]);
    assert_eq!(lines("a\n"), vec!["a"]);
    assert_eq!(lines("a\nb"), vec!["a", "b"]);
    assert_eq!(lines("a\r\nb\r\n"), vec!["a", "b"]);
    assert_eq!(lines("\n"), vec![""]);
    assert_eq!(lines("a\n\n"), vec!["a", ""]);
    assert_eq!(lines("a\r"), vec!["a\r"]);
    assert_eq!(lines("a\r\r\nb"), vec!["a\r", "b"]);
    assert_eq!(lines("a\rb\n"), vec!["a\rb"]);
    for text in ["", "x", "x\n", "\n\n", "a\r\nb\rc\n\r\n", "one\ntwo\nthree"] {
        let expected: Vec<String> = text.lines().map(|line| line.to_string()).collect();
        assert_eq!(lines(text), expected);
    }
}

#[test]
fn a_range_is_copied() {
    assert_eq!(copy_range(&chars("abcdef"), 1, 4), chars("bcd"));
    assert_eq!(copy_range(&chars("abcdef"), 0, 6), chars("abcdef"));
    assert_eq!(copy_range(&chars("abcdef"), 3, 3), chars(""));
}
