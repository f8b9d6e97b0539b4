use kuaa::action::{clean_commit_message, parse_action, Action};
use kuaa::credential::{save_api_key, stored_api_key, StoreUpdate, STORE_FILE};
use kuaa::lines::split_lines;
use kuaa::text::{remove_all, render_decimal, to_lower, trim};

/// A small generator of numbers, the same on every run.
struct Numbers {
    state: u64,
}

impl Numbers {
    fn new(seed: u64) -> Numbers {
        Numbers { state: seed }
    }

    fn next(&mut self) -> u64 {
        self.state = self.state.wrapping_mul(6364136223846793005).wrapping_add(1442695040888963407);
        self.state >> 33
    }

    fn below(&mut self, bound: usize) -> usize {
        (self.next() % bound as u64) as usize
    }

    fn text(&mut self, pieces: &[&str], longest: usize) -> String {
        let count = self.below(longest + 1);
        let mut text = String::new();
        for _ in 0..count {
            text.push_str(pieces[self.below(pieces.len())]);
        }
        text
    }
}

fn chars(text: &str) -> Vec<char> {
    text.chars().collect()
}

fn string(chars: Vec<char>) -> String {
    chars.into_iter().collect()
}

#[test]
fn the_store_file_is_named() {
    assert_eq!(STORE_FILE, ".env");
}

#[test]
fn lines_are_cut_as_the_standard_library_cuts_them() {
    let mut numbers = Numbers::new(1);
    let pieces = ["a", "b", "\n", "\r", "\r\n", "=", " "];
    for _ in 0..4000 {
        let text = numbers.text(&pieces, 12);
        let expected: Vec<String> = text.lines().map(|line| line.to_string()).collect();
        let found: Vec<String> = split_lines(&chars(&text)).into_iter().map(string).collect();
        assert_eq!(found, expected);
    }
}

#[test]
fn texts_are_trimmed_as_the_standard_library_trims_them() {
    let mut numbers = Numbers::new(2);
    let pieces = ["a", " ", "\t", "\n", "\r", "\u{a0}", "\u{2003}", "\u{200b}", "\u{3000}", "`"];
    for _ in 0..4000 {
        let text = numbers.text(&pieces, 10);
        assert_eq!(string(trim(&chars(&text))), text.trim());
    }
}

#[test]
fn patterns_are_removed_as_the_standard_library_replaces_them() {
    let mut numbers = Numbers::new(3);
    let pieces = ["a", "b", "`", "``", "```", "plaintext", "```plaintext", " "];
    let patterns = ["```", "```plaintext", "ab", "aa", "a", "`", "ba b"];
    for _ in 0..4000 {
        let text = numbers.text(&pieces, 8);
        let pattern = patterns[numbers.below(patterns.len())];
        assert_eq!(string(remove_all(&chars(&text), &chars(pattern))), text.replace(pattern, ""));
    }
}

#[test]
fn numbers_are_written_as_the_standard_library_writes_them() {
    let mut numbers = Numbers::new(4);
    for _ in 0..4000 {
        let high = numbers.next() as u128;
        let low = numbers.next() as u128;
        let shift = numbers.below(128) as u32;
        let n = ((high << 64) | (low << 31) | numbers.next() as u128) >> shift;
        assert_eq!(render_decimal(n), n.to_string());
    }
    for n in 0u128..2000 {
        assert_eq!(render_decimal(n), n.to_string());
    }
}

#[test]
fn letters_are_lowered_as_ascii_letters_are() {
    for code in 0u32..0x250 {
        if let Some(c) = char::from_u32(code) {
            assert_eq!(to_lower(&[c]), vec![c.to_ascii_lowercase()]);
        }
    }
}

#[test]
fn messages_are_cleaned_by_replacing_twice_and_trimming() {
    let mut numbers = Numbers::new(5);
    let pieces = ["fix", "`", "``", "```", "plaintext", "```plaintext", " ", "\n", "\u{a0}", ":"];
    for _ in 0..4000 {
        let content = numbers.text(&pieces, 10);
        let expected = content.replace("```plaintext", "").replace("```", "").trim().to_string();
        let cleaned = clean_commit_message(&content);
        assert_eq!(cleaned, expected);
        assert_eq!(clean_commit_message(&cleaned), cleaned);
        assert!(!cleaned.contains("```"));
    }
}

#[test]
fn answers_are_read_after_trimming_and_lowering() {
    let mut numbers = Numbers::new(6);
    let pieces = [
        "c", "C", "commit", "COMMIT", "a", "A", "add-info", "Add-Info", "n", "N", "nothing", " ",
        "\n", "\r\n", "\t", "x", "-", "\u{212a}", "\u{130}", "o", "m",
    ];
    for _ in 0..4000 {
        let answer = numbers.text(&pieces, 4);
        let word = answer.trim().to_lowercase();
        let expected = match word.as_str() {
            "c" | "commit" => Action::Commit,
            "a" | "add-info" => Action::AddInfo,
            "n" | "nothing" => Action::Nothing,
            _ => Action::Invalid,
        };
        assert_eq!(parse_action(&answer), expected);
    }
}

#[test]
fn the_store_is_changed_line_by_line() {
    let mut numbers = Numbers::new(7);
    let pieces = ["KUAA_API_KEY=", "KUAA_API_KEY", "A=1", "x", "=", "\n", "\r\n", "\r", " ", "#"];
    let keys = ["k", "a=b", "", "with space", "sk-\u{e9}", "k\r", "\r"];
    for _ in 0..4000 {
        let contents = numbers.text(&pieces, 8);
        let key = keys[numbers.below(keys.len())];
        let entry = format!("KUAA_API_KEY={}", key);
        let before: Vec<&str> = contents.lines().collect();
        let found = before.iter().any(|line| line.starts_with("KUAA_API_KEY="));
        let mut expected: Vec<&str> = Vec::new();
        let mut seen = false;
        for line in before.iter() {
            if !line.starts_with("KUAA_API_KEY=") {
                expected.push(line);
            } else if !seen {
                expected.push(&entry);
                seen = true;
            }
        }
        if !seen {
            expected.push(&entry);
        }
        let after = match save_api_key(&contents, key) {
            StoreUpdate::Rewrite { contents: fresh } => {
                assert!(found);
                fresh
            }
            StoreUpdate::Append { text } => {
                assert!(!found);
                format!("{}{}", contents, text)
            }
        };
        let lines: Vec<&str> = after.lines().collect();
        assert_eq!(lines, expected);
        if contents.ends_with('\n') {
            assert!(after.ends_with('\n'));
        }
        assert_eq!(stored_api_key(&after), Some(key.to_string()));
        match save_api_key(&after, key) {
            StoreUpdate::Rewrite { contents: again } => assert_eq!(again, after),
            StoreUpdate::Append { .. } => panic!("the key was not found again"),
        }
    }
}
