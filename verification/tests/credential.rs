use kuaa::credential::{
    ensure_api_key, find_api_key, save_api_key, stored_api_key, StoreUpdate, API_KEY_NAME,
};

fn apply(contents: &str, update: StoreUpdate) -> String {
    match update {
        StoreUpdate::Rewrite { contents: fresh } => fresh,
        StoreUpdate::Append { text } => format!("{}{}", contents, text),
    }
}

fn store(contents: &str, key: &str) -> String {
    apply(contents, save_api_key(contents, key))
}

#[test]
fn the_variable_is_named() {
    assert_eq!(API_KEY_NAME, "KUAA_API_KEY");
}

#[test]
fn an_empty_store_gets_the_line_appended() {
    assert_eq!(
        save_api_key("", "abc"),
        StoreUpdate::Append { text: "KUAA_API_KEY=abc\n".to_string() }
    );
}

#[test]
fn a_store_without_the_key_gets_the_line_appended() {
    assert_eq!(
        save_api_key("FOO=bar\n", "abc"),
        StoreUpdate::Append { text: "KUAA_API_KEY=abc\n".to_string() }
    );
    assert_eq!(store("FOO=bar\n", "abc"), "FOO=bar\nKUAA_API_KEY=abc\n");
}

#[test]
fn an_unended_last_line_is_ended_before_the_key_is_appended() {
    assert_eq!(
        save_api_key("FOO=bar", "abc"),
        StoreUpdate::Append { text: "\nKUAA_API_KEY=abc\n".to_string() }
    );
    assert_eq!(store("FOO=bar", "abc"), "FOO=bar\nKUAA_API_KEY=abc\n");
}

#[test]
fn an_existing_key_is_replaced_in_place() {
    assert_eq!(
        save_api_key("A=1\nKUAA_API_KEY=old\nB=2\n", "new"),
        StoreUpdate::Rewrite { contents: "A=1\nKUAA_API_KEY=new\nB=2\n".to_string() }
    );
    assert_eq!(
        save_api_key("A=1\nKUAA_API_KEY=old", "new"),
        StoreUpdate::Rewrite { contents: "A=1\nKUAA_API_KEY=new".to_string() }
    );
}

#[test]
fn later_lines_with_the_key_are_taken_out() {
    assert_eq!(store("KUAA_API_KEY=a\nX=1\nKUAA_API_KEY=b", "c"), "KUAA_API_KEY=c\nX=1\n");
    assert_eq!(
        store("KUAA_API_KEY=a\nKUAA_API_KEY=b\nX=1\nKUAA_API_KEY=c\n", "d"),
        "KUAA_API_KEY=d\nX=1\n"
    );
}

#[test]
fn line_endings_stay_as_they_are() {
    assert_eq!(
        save_api_key("A=1\r\nKUAA_API_KEY=old\r\nB=2\r\n", "new"),
        StoreUpdate::Rewrite { contents: "A=1\r\nKUAA_API_KEY=new\r\nB=2\r\n".to_string() }
    );
    assert_eq!(
        save_api_key("A=1\r\nKUAA_API_KEY=old\nB=2", "new"),
        StoreUpdate::Rewrite { contents: "A=1\r\nKUAA_API_KEY=new\nB=2".to_string() }
    );
}

#[test]
fn blank_lines_stay_where_they_are() {
    assert_eq!(store("KUAA_API_KEY=old\n\n", "new"), "KUAA_API_KEY=new\n\n");
    assert_eq!(store("\n\nKUAA_API_KEY=old\n\n\n", "new"), "\n\nKUAA_API_KEY=new\n\n\n");
    assert_eq!(store("\n\n", "new"), "\n\nKUAA_API_KEY=new\n");
}

#[test]
fn storing_the_same_key_again_changes_nothing() {
    for contents in ["", "A=1", "A=1\r", "KUAA_API_KEY=old\n\n\n", "A\r\nKUAA_API_KEY=x\r\n\r\n"] {
        let once = store(contents, "key");
        assert_eq!(store(&once, "key"), once);
    }
}

#[test]
fn a_carriage_return_at_the_end_of_a_line_stays_in_the_line() {
    assert_eq!(
        save_api_key("FOO=bar\r", "abc"),
        StoreUpdate::Append { text: "\r\nKUAA_API_KEY=abc\n".to_string() }
    );
    assert_eq!(
        save_api_key("", "k\r"),
        StoreUpdate::Append { text: "KUAA_API_KEY=k\r\r\n".to_string() }
    );
    assert_eq!(store("KUAA_API_KEY=old\nB=2", "k\r"), "KUAA_API_KEY=k\r\r\nB=2");
    assert_eq!(stored_api_key(&store("FOO=bar\r", "k\r")), Some("k\r".to_string()));
    let lines: Vec<String> = store("FOO=bar\r", "k").lines().map(|l| l.to_string()).collect();
    assert_eq!(lines, vec!["FOO=bar\r", "KUAA_API_KEY=k"]);
}

#[test]
fn a_line_that_only_holds_the_name_elsewhere_is_no_entry() {
    assert_eq!(
        save_api_key("MY_KUAA_API_KEY=1\n KUAA_API_KEY=2\nKUAA_API_KEY\n", "k"),
        StoreUpdate::Append { text: "KUAA_API_KEY=k\n".to_string() }
    );
    assert_eq!(stored_api_key("MY_KUAA_API_KEY=1\n KUAA_API_KEY=2\nKUAA_API_KEY\n"), None);
}

#[test]
fn the_stored_key_is_read_back() {
    assert_eq!(stored_api_key(""), None);
    assert_eq!(stored_api_key("FOO=bar\n"), None);
    assert_eq!(stored_api_key("KUAA_API_KEY=abc"), Some("abc".to_string()));
    assert_eq!(stored_api_key("A=1\nKUAA_API_KEY=abc\nB=2\n"), Some("abc".to_string()));
    assert_eq!(stored_api_key("A=1\r\nKUAA_API_KEY=abc\r\n"), Some("abc".to_string()));
    assert_eq!(stored_api_key("KUAA_API_KEY=\n"), Some(String::new()));
    assert_eq!(stored_api_key("KUAA_API_KEY=one\nKUAA_API_KEY=two\n"), Some("one".to_string()));
}

#[test]
fn a_key_round_trips() {
    for contents in ["", "FOO=bar", "FOO=bar\n", "KUAA_API_KEY=old", "A=1\n\nKUAA_API_KEY=old\n\n"] {
        for key in ["k", "sk-12345", "a=b=c", "with space", "=", "caf\u{e9}", "#$\"'\\", "k\r"] {
            assert_eq!(stored_api_key(&store(contents, key)), Some(key.to_string()));
        }
    }
}

#[test]
fn storing_twice_leaves_one_line() {
    for contents in [
        "",
        "FOO=bar",
        "FOO=bar\nBAZ=1\n",
        "A=1\nKUAA_API_KEY=old\nB=2\n",
        "KUAA_API_KEY=a\nKUAA_API_KEY=b",
    ] {
        let twice = store(&store(contents, "first"), "second");
        let entries = twice.lines().filter(|line| line.starts_with("KUAA_API_KEY=")).count();
        assert_eq!(entries, 1);
        assert_eq!(stored_api_key(&twice), Some("second".to_string()));
    }
}

#[test]
fn other_lines_keep_their_text_and_order() {
    let contents = "# settings\nA=1\nKUAA_API_KEY=old\nB=2\nC=3";
    let after = store(contents, "new");
    let lines: Vec<&str> = after.lines().collect();
    assert_eq!(lines, vec!["# settings", "A=1", "KUAA_API_KEY=new", "B=2", "C=3"]);
    let contents = "A=1\nB=2\n";
    let after = store(contents, "new");
    let lines: Vec<&str> = after.lines().collect();
    assert_eq!(lines, vec!["A=1", "B=2", "KUAA_API_KEY=new"]);
}

#[test]
fn an_unset_or_empty_key_is_absent() {
    assert_eq!(ensure_api_key(None), None);
    assert_eq!(ensure_api_key(Some(String::new())), None);
    assert_eq!(ensure_api_key(Some("k".to_string())), Some("k".to_string()));
    assert_eq!(ensure_api_key(Some(" ".to_string())), Some(" ".to_string()));
}

#[test]
fn the_key_is_found_in_the_first_place_that_holds_one() {
    let store = Some("A=1\nKUAA_API_KEY=stored\n".to_string());
    let none: Option<String> = None;
    assert_eq!(
        find_api_key(Some("given".to_string()), store.clone(), Some("given".to_string())),
        Some("given".to_string())
    );
    assert_eq!(
        find_api_key(None, store.clone(), Some("loaded".to_string())),
        Some("stored".to_string())
    );
    assert_eq!(
        find_api_key(None, Some("A=1\n".to_string()), Some("loaded".to_string())),
        Some("loaded".to_string())
    );
    assert_eq!(find_api_key(None, None, Some("loaded".to_string())), Some("loaded".to_string()));
    assert_eq!(find_api_key(None, None, None), none);
    assert_eq!(find_api_key(Some(String::new()), store, None), Some(String::new()));
}

#[test]
fn a_stored_key_is_found_as_it_was_given() {
    for key in ["k", "with space", "\"quoted\"", "$HOME", "a#b", "a=b"] {
        let contents = store("A=1\n", key);
        assert_eq!(find_api_key(None, Some(contents), None), Some(key.to_string()));
    }
}
