//! The stored API credential.
//!
//! The credential lives in a line-oriented text store, one line per variable
//! in the form `NAME=value`. Only the variable of the API key is ever read or
//! written here; every other line stays as it is, character by character.

use crate::lines::{
    ending_of, ends_in_return, first_break, lemma_first_break_at, lemma_first_break_found,
    lemma_lines_of_closed, lemma_lines_of_closed_text, lemma_lines_of_concat,
    lemma_lines_of_ended, lemma_lines_of_unbroken, lines_of, split_lines, unbroken,
    without_return,
};
use crate::text::{from_chars, matches_at, occurs_at, to_chars, views};
use vstd::prelude::*;

verus! {

/// The name of the variable that holds the API key.
pub const API_KEY_NAME: &'static str = "KUAA_API_KEY";

/// The name of the file that is the store.
pub const STORE_FILE: &'static str = ".env";

/// What a line that holds the API key starts with: the variable's name and
/// the equals sign.
pub open spec fn entry_prefix() -> Seq<char> {
    API_KEY_NAME@.push('=')
}

/// Whether a line holds the API key.
pub open spec fn is_entry(line: Seq<char>) -> bool {
    occurs_at(line, 0, entry_prefix())
}

/// The line that holds `key`.
pub open spec fn entry(key: Seq<char>) -> Seq<char> {
    entry_prefix() + key
}

/// Whether one of the lines holds the API key.
pub open spec fn has_entry(lines: Seq<Seq<char>>) -> bool {
    exists|i: int| 0 <= i < lines.len() && is_entry(lines[i])
}

/// The number of lines that hold the API key.
pub open spec fn entries(lines: Seq<Seq<char>>) -> nat
    decreases lines.len(),
{
    if lines.len() == 0 {
        0
    } else if is_entry(lines[0]) {
        1 + entries(lines.skip(1))
    } else {
        entries(lines.skip(1))
    }
}

/// The lines that do not hold the API key, in their order.
pub open spec fn others(lines: Seq<Seq<char>>) -> Seq<Seq<char>>
    decreases lines.len(),
{
    if lines.len() == 0 {
        Seq::empty()
    } else if is_entry(lines[0]) {
        others(lines.skip(1))
    } else {
        seq![lines[0]] + others(lines.skip(1))
    }
}

/// The key in the first of the lines that holds one.
pub open spec fn first_entry(lines: Seq<Seq<char>>) -> Option<Seq<char>>
    decreases lines.len(),
{
    if lines.len() == 0 {
        None
    } else if is_entry(lines[0]) {
        Some(lines[0].skip(entry_prefix().len() as int))
    } else {
        first_entry(lines.skip(1))
    }
}

/// The key that the store holds, if any.
pub open spec fn stored_key(contents: Seq<char>) -> Option<Seq<char>> {
    first_entry(lines_of(contents))
}

/// The lines with `key` put in the first line that holds the API key, and
/// without the later lines that hold it; every other line stays in its
/// place. `seen` says that a line with the API key came before these lines.
pub open spec fn revised(lines: Seq<Seq<char>>, key: Seq<char>, seen: bool) -> Seq<Seq<char>>
    decreases lines.len(),
{
    if lines.len() == 0 {
        Seq::empty()
    } else if !is_entry(lines[0]) {
        seq![lines[0]] + revised(lines.skip(1), key, seen)
    } else if seen {
        revised(lines.skip(1), key, true)
    } else {
        seq![entry(key)] + revised(lines.skip(1), key, true)
    }
}

/// The lines with `key` put in every line that holds the API key.
pub open spec fn replaced(lines: Seq<Seq<char>>, key: Seq<char>) -> Seq<Seq<char>> {
    Seq::new(
        lines.len(),
        |i: int|
            if is_entry(lines[i]) {
                entry(key)
            } else {
                lines[i]
            },
    )
}

/// The lines of the store after `key` is stored, from its lines before: the
/// key stands in the first line that held the API key, or in a new last line
/// where none did.
pub open spec fn lines_after(lines: Seq<Seq<char>>, key: Seq<char>) -> Seq<Seq<char>> {
    if has_entry(lines) {
        revised(lines, key, false)
    } else {
        lines.push(entry(key))
    }
}

/// The line ending of the line that takes the place of one whose text, up
/// to the line feed, was `raw`: the ending that `raw` had, but with a
/// carriage return in any case where the new line ends in one itself.
pub open spec fn entry_ending(raw: Seq<char>, key: Seq<char>) -> Seq<char> {
    if ends_in_return(raw) {
        seq!['\r', '\n']
    } else {
        ending_of(entry(key))
    }
}

/// The store's contents with `key` put in the first line that holds the API
/// key and the later such lines taken out. Every other line stays as it is,
/// with its line ending. `seen` says that a line with the API key came
/// before these contents.
pub open spec fn rewritten(contents: Seq<char>, key: Seq<char>, seen: bool) -> Seq<char>
    decreases contents.len(),
{
    if contents.len() == 0 {
        Seq::empty()
    } else {
        let at = first_break(contents);
        if 0 <= at < contents.len() {
            let raw = contents.take(at);
            let rest = contents.skip(at + 1);
            if !is_entry(without_return(raw)) {
                contents.take(at + 1) + rewritten(rest, key, seen)
            } else if seen {
                rewritten(rest, key, true)
            } else {
                entry(key) + entry_ending(raw, key) + rewritten(rest, key, true)
            }
        } else if !is_entry(contents) {
            contents
        } else if seen {
            Seq::empty()
        } else {
            entry(key)
        }
    }
}

/// What closes the last line of the present contents before a line is added
/// behind them: nothing where they are empty or end in a line feed, else the
/// line ending that keeps the last line as it is.
pub open spec fn separator(contents: Seq<char>) -> Seq<char> {
    if contents.len() > 0 && contents.last() != '\n' {
        ending_of(contents)
    } else {
        Seq::empty()
    }
}

/// A change to the store.
#[derive(Clone, Debug, PartialEq, Eq)]
pub enum StoreUpdate {
    /// The store's contents are replaced by `contents`.
    Rewrite { contents: String },
    /// `text` is added behind the store's contents; a store that does not
    /// exist yet is created.
    Append { text: String },
}

/// A change to the store, over sequences of characters.
pub enum StoreUpdateView {
    Rewrite { contents: Seq<char> },
    Append { text: Seq<char> },
}

impl View for StoreUpdate {
    type V = StoreUpdateView;

    open spec fn view(&self) -> StoreUpdateView {
        match self {
            StoreUpdate::Rewrite { contents } => StoreUpdateView::Rewrite { contents: contents@ },
            StoreUpdate::Append { text } => StoreUpdateView::Append { text: text@ },
        }
    }
}

/// The change that stores `key`: where a line holds the API key already, the
/// store is rewritten with the key in the first such line and without the
/// later ones; otherwise a line with the key is added at the end.
pub open spec fn update_of(contents: Seq<char>, key: Seq<char>) -> StoreUpdateView {
    if has_entry(lines_of(contents)) {
        StoreUpdateView::Rewrite { contents: rewritten(contents, key, false) }
    } else {
        StoreUpdateView::Append {
            text: separator(contents) + entry(key) + ending_of(entry(key)),
        }
    }
}

/// The store's contents after a change.
pub open spec fn applied(contents: Seq<char>, change: StoreUpdateView) -> Seq<char> {
    match change {
        StoreUpdateView::Rewrite { contents: fresh } => fresh,
        StoreUpdateView::Append { text } => contents + text,
    }
}

/// The store's contents after `key` is stored.
pub open spec fn saved(contents: Seq<char>, key: Seq<char>) -> Seq<char> {
    applied(contents, update_of(contents, key))
}

/// The view of an optional string.
pub open spec fn option_view(value: Option<String>) -> Option<Seq<char>> {
    match value {
        Some(text) => Some(text@),
        None => None,
    }
}

/// A credential that was looked up counts only when it is set and not empty.
pub open spec fn usable(value: Option<Seq<char>>) -> bool {
    value matches Some(text) && text.len() > 0
}

/// The API key among the places where one may stand: the value that the
/// environment held from the start comes first, then the key in the store,
/// then the value that loading the store's variables left.
pub open spec fn found_key(
    environment: Option<Seq<char>>,
    store: Option<Seq<char>>,
    loaded: Option<Seq<char>>,
) -> Option<Seq<char>> {
    if environment is Some {
        environment
    } else if store is Some && stored_key(store->0) is Some {
        stored_key(store->0)
    } else {
        loaded
    }
}

/// Resolves a looked-up credential: absent when unset or empty, otherwise the
/// value itself.
pub fn ensure_api_key(value: Option<String>) -> (key: Option<String>)
    ensures
        usable(option_view(value)) ==> key == value,
        !usable(option_view(value)) ==> key is None,
{
    match value {
        Some(text) => {
            if text.as_str().is_empty() {
                None
            } else {
                Some(text)
            }
        },
        None => None,
    }
}

fn entry_prefix_chars() -> (prefix: Vec<char>)
    ensures
        prefix@ == entry_prefix(),
{
    let mut prefix = to_chars(API_KEY_NAME);
    prefix.push('=');
    prefix
}

fn append_range(text: &mut Vec<char>, chars: &[char], from: usize, to: usize)
    requires
        from <= to <= chars.len(),
    ensures
        final(text)@ == old(text)@ + chars@.subrange(from as int, to as int),
{
    let mut i: usize = from;
    proof {
        assert(text@ =~= old(text)@ + chars@.subrange(from as int, from as int));
    }
    while i < to
        invariant
            from <= i <= to <= chars.len(),
            text@ == old(text)@ + chars@.subrange(from as int, i as int),
        decreases to - i,
    {
        text.push(chars[i]);
        proof {
            assert(chars@.subrange(from as int, i + 1) =~= chars@.subrange(
                from as int,
                i as int,
            ).push(chars@[i as int]));
        }
        i += 1;
    }
}

fn rewrite(chars: &[char], prefix: &[char], key: &[char]) -> (fresh: Vec<char>)
    requires
        prefix@ == entry_prefix(),
    ensures
        fresh@ == rewritten(chars@, key@, false),
{
    let mut fresh: Vec<char> = Vec::new();
    let mut seen = false;
    let mut start: usize = 0;
    proof {
        assert(chars@.skip(0) =~= chars@);
        lemma_entry_prefix();
    }
    while start < chars.len()
        invariant
            start <= chars.len(),
            prefix@ == entry_prefix(),
            entry_prefix().len() == 13,
            entry_prefix().last() == '=',
            rewritten(chars@, key@, false) == fresh@ + rewritten(
                chars@.skip(start as int),
                key@,
                seen,
            ),
        decreases chars.len() - start,
    {
        let mut at: usize = start;
        while at < chars.len() && chars[at] != '\n'
            invariant
                start <= at <= chars.len(),
                forall|j: int| start <= j < at ==> chars@[j] != '\n',
            decreases chars.len() - at,
        {
            at += 1;
        }
        let closed = at < chars.len();
        let returned = closed && at > start && chars[at - 1] == '\r';
        let end: usize = if returned {
            at - 1
        } else {
            at
        };
        let next: usize = if closed {
            at + 1
        } else {
            at
        };
        let holds = prefix.len() <= end - start && matches_at(chars, start, prefix);
        let ghost rest = chars@.skip(start as int);
        let ghost raw = rest.take(at - start);
        let ghost line = chars@.subrange(start as int, end as int);
        let ghost before = fresh@;
        proof {
            lemma_first_break_at(rest, at - start);
            assert(raw =~= chars@.subrange(start as int, at as int));
            assert(rest.skip(next - start) =~= chars@.skip(next as int));
            assert(rest.take(next - start) =~= chars@.subrange(start as int, next as int));
            if closed {
                assert(line =~= without_return(raw));
            } else {
                assert(line =~= rest);
            }
            assert(holds == is_entry(line)) by {
                if prefix.len() <= end - start {
                    assert(line.subrange(0, prefix.len() as int) =~= chars@.subrange(
                        start as int,
                        start + prefix.len(),
                    ));
                }
            }
        }
        if !holds {
            append_range(&mut fresh, chars, start, next);
        } else if !seen {
            append_range(&mut fresh, prefix, 0, prefix.len());
            append_range(&mut fresh, key, 0, key.len());
            proof {
                assert(prefix@.subrange(0, prefix.len() as int) =~= prefix@);
                assert(key@.subrange(0, key.len() as int) =~= key@);
                assert(fresh@ =~= before + entry(key@));
            }
            if closed {
                let key_returned = key.len() > 0 && key[key.len() - 1] == '\r';
                proof {
                    if key@.len() > 0 {
                        assert(entry(key@).last() == key@.last());
                    } else {
                        assert(entry(key@) =~= entry_prefix());
                    }
                    assert(key_returned == ends_in_return(entry(key@)));
                    assert(returned == ends_in_return(raw));
                }
                if returned || key_returned {
                    fresh.push('\r');
                }
                fresh.push('\n');
                proof {
                    assert(fresh@ =~= before + (entry(key@) + entry_ending(raw, key@)));
                }
            }
        }
        proof {
            let tail = rewritten(chars@.skip(next as int), key@, seen || holds);
            assert(rewritten(rest, key@, seen) =~= (fresh@.skip(before.len() as int)) + tail);
            assert(before + (fresh@.skip(before.len() as int) + tail) =~= fresh@ + tail);
        }
        if holds {
            seen = true;
        }
        start = next;
    }
    proof {
        assert(fresh@ + Seq::<char>::empty() =~= fresh@);
    }
    fresh
}

/// Computes the change to the store that stores `key`, from the store's
/// present contents; a store that does not exist yet has empty contents.
///
/// For a key without a line feed, the store's lines are afterwards those
/// from before, with the key in the first line that held the API key and
/// without the later such lines, or with a new last line for the key where
/// none held it. Contents that ended in a line feed still do.
pub fn save_api_key(contents: &str, key: &str) -> (update: StoreUpdate)
    ensures
        update@ == update_of(contents@, key@),
        unbroken(key@) ==> lines_of(applied(contents@, update@)) == lines_after(
            lines_of(contents@),
            key@,
        ),
        contents@.len() > 0 && contents@.last() == '\n' ==> applied(contents@, update@).len() > 0
            && applied(contents@, update@).last() == '\n',
{
    let chars = to_chars(contents);
    let prefix = entry_prefix_chars();
    let lines = split_lines(&chars);
    let mut found = false;
    let mut i: usize = 0;
    while i < lines.len()
        invariant
            i <= lines.len(),
            prefix@ == entry_prefix(),
            views(lines@) == lines_of(contents@),
            found == has_entry(lines_of(contents@).take(i as int)),
        decreases lines.len() - i,
    {
        let ghost before = lines_of(contents@).take(i as int);
        let ghost after = lines_of(contents@).take(i + 1);
        proof {
            assert(views(lines@)[i as int] == lines@[i as int]@);
            assert(after[i as int] == lines@[i as int]@);
            assert forall|j: int| 0 <= j < before.len() implies before[j] == after[j] by {}
            if has_entry(after) && !has_entry(before) {
                let at = choose|at: int| 0 <= at < after.len() && is_entry(after[at]);
                if at < i {
                    assert(is_entry(before[at]));
                }
            }
            if has_entry(before) {
                let at = choose|at: int| 0 <= at < before.len() && is_entry(before[at]);
                assert(is_entry(after[at]));
            }
        }
        if matches_at(lines[i].as_slice(), 0, prefix.as_slice()) {
            found = true;
        }
        i += 1;
    }
    proof {
        assert(lines_of(contents@).take(lines.len() as int) =~= lines_of(contents@));
        lemma_saved_end(contents@, key@);
        if unbroken(key@) {
            lemma_saved_lines(contents@, key@);
        }
    }
    if found {
        let key_chars = to_chars(key);
        let text = rewrite(chars.as_slice(), prefix.as_slice(), key_chars.as_slice());
        StoreUpdate::Rewrite { contents: from_chars(text.as_slice()) }
    } else {
        let key_chars = to_chars(key);
        let mut text = String::new();
        let closed = chars.len() == 0 || chars[chars.len() - 1] == '\n';
        if !closed {
            if chars[chars.len() - 1] == '\r' {
                text.push('\r');
            }
            text.push('\n');
        }
        proof {
            assert(text@ =~= separator(contents@));
        }
        text.append(API_KEY_NAME);
        text.push('=');
        text.append(key);
        if key_chars.len() > 0 && key_chars[key_chars.len() - 1] == '\r' {
            text.push('\r');
        }
        text.push('\n');
        proof {
            lemma_entry_prefix();
            if key@.len() > 0 {
                assert(entry(key@).last() == key@.last());
            } else {
                assert(entry(key@) =~= entry_prefix());
            }
            assert(text@ =~= separator(contents@) + entry(key@) + ending_of(entry(key@)));
        }
        StoreUpdate::Append { text }
    }
}

/// Reads the API key from the store's contents: the text behind the equals
/// sign in the first line that holds the key.
pub fn stored_api_key(contents: &str) -> (key: Option<String>)
    ensures
        option_view(key) == stored_key(contents@),
{
    let chars = to_chars(contents);
    let prefix = entry_prefix_chars();
    let lines = split_lines(&chars);
    let mut i: usize = 0;
    proof {
        assert(lines_of(contents@).skip(0) =~= lines_of(contents@));
    }
    while i < lines.len()
        invariant
            i <= lines.len(),
            prefix@ == entry_prefix(),
            views(lines@) == lines_of(contents@),
            stored_key(contents@) == first_entry(lines_of(contents@).skip(i as int)),
        decreases lines.len() - i,
    {
        proof {
            assert(views(lines@)[i as int] == lines@[i as int]@);
            assert(lines_of(contents@).skip(i as int).skip(1) =~= lines_of(contents@).skip(i + 1));
        }
        if matches_at(lines[i].as_slice(), 0, prefix.as_slice()) {
            let line = lines[i].as_slice();
            let mut value: Vec<char> = Vec::new();
            append_range(&mut value, line, prefix.len(), line.len());
            proof {
                assert(line@.skip(prefix.len() as int) =~= line@.subrange(
                    prefix.len() as int,
                    line.len() as int,
                ));
                assert(value@ =~= line@.skip(prefix.len() as int));
            }
            return Some(from_chars(value.as_slice()));
        }
        i += 1;
    }
    None
}

/// Looks the API key up among the places where one may stand: the value that
/// the environment held from the start, the contents of the store, and the
/// value that loading the store's variables left. The first of them that
/// gives a key decides.
pub fn find_api_key(
    environment: Option<String>,
    store: Option<String>,
    loaded: Option<String>,
) -> (key: Option<String>)
    ensures
        option_view(key) == found_key(
            option_view(environment),
            option_view(store),
            option_view(loaded),
        ),
{
    match environment {
        Some(value) => Some(value),
        None => {
            let stored = match store {
                Some(contents) => stored_api_key(contents.as_str()),
                None => None,
            };
            match stored {
                Some(value) => Some(value),
                None => loaded,
            }
        },
    }
}

/// The prefix of an entry is thirteen characters long, holds no line feed and
/// ends in the equals sign.
pub proof fn lemma_entry_prefix()
    ensures
        entry_prefix().len() == 13,
        unbroken(entry_prefix()),
        entry_prefix().last() == '=',
{
    reveal_strlit("KUAA_API_KEY");
}

/// The line that holds a key is an entry and gives the key back; it holds no
/// line feed where the key holds none, and ends in a carriage return exactly
/// where the key does.
pub proof fn lemma_entry(key: Seq<char>)
    ensures
        is_entry(entry(key)),
        entry(key).len() > 0,
        entry(key).skip(entry_prefix().len() as int) == key,
        unbroken(key) ==> unbroken(entry(key)),
        ends_in_return(entry(key)) == ends_in_return(key),
{
    lemma_entry_prefix();
    assert(entry(key).subrange(0, entry_prefix().len() as int) =~= entry_prefix());
    assert(entry(key).skip(entry_prefix().len() as int) =~= key);
    if key.len() == 0 {
        assert(entry(key) =~= entry_prefix());
    } else {
        assert(entry(key).last() == key.last());
    }
}

/// Of two lists of lines put together, the entries are counted and the other
/// lines are kept list by list; where the first list holds no entry, the
/// first entry is that of the second, and the second alone is revised.
pub proof fn lemma_entries_concat(front: Seq<Seq<char>>, back: Seq<Seq<char>>)
    ensures
        entries(front + back) == entries(front) + entries(back),
        others(front + back) == others(front) + others(back),
        has_entry(front) <==> entries(front) > 0,
        !has_entry(front) ==> first_entry(front + back) == first_entry(back),
        !has_entry(front) ==> others(front) == front,
        forall|key: Seq<char>, seen: bool|
            !has_entry(front) ==> #[trigger] revised(front + back, key, seen) == front + revised(
                back,
                key,
                seen,
            ),
    decreases front.len(),
{
    if front.len() == 0 {
        assert(front + back =~= back);
        assert(others(front) + others(back) =~= others(back));
        assert forall|key: Seq<char>, seen: bool| #[trigger]
            revised(front + back, key, seen) == front + revised(back, key, seen) by {
            assert(front + revised(back, key, seen) =~= revised(back, key, seen));
        }
    } else {
        let rest = front.skip(1);
        lemma_entries_concat(rest, back);
        assert((front + back).skip(1) =~= rest + back);
        assert((front + back)[0] == front[0]);
        if has_entry(rest) {
            let at = choose|at: int| 0 <= at < rest.len() && is_entry(rest[at]);
            assert(is_entry(front[at + 1]));
        }
        if has_entry(front) && !is_entry(front[0]) {
            let at = choose|at: int| 0 <= at < front.len() && is_entry(front[at]);
            assert(is_entry(rest[at - 1]));
        }
        if !is_entry(front[0]) {
            assert(seq![front[0]] + (others(rest) + others(back)) =~= (seq![front[0]] + others(
                rest,
            )) + others(back));
        }
        if !has_entry(front) {
            assert(!is_entry(front[0]));
            assert(seq![front[0]] + rest =~= front);
            assert forall|key: Seq<char>, seen: bool| #[trigger]
                revised(front + back, key, seen) == front + revised(back, key, seen) by {
                assert(revised(rest + back, key, seen) == rest + revised(back, key, seen));
                assert(seq![front[0]] + (rest + revised(back, key, seen)) =~= front + revised(
                    back,
                    key,
                    seen,
                ));
            }
        }
    }
}

/// Revising lines keeps the lines that hold no API key, leaves one entry
/// where there was any and none had been seen, makes the key the first
/// entry, and changes nothing when done again.
pub proof fn lemma_revised(lines: Seq<Seq<char>>, key: Seq<char>, seen: bool)
    ensures
        others(revised(lines, key, seen)) == others(lines),
        entries(revised(lines, key, seen)) == if !seen && has_entry(lines) {
            1nat
        } else {
            0nat
        },
        !seen && has_entry(lines) ==> first_entry(revised(lines, key, seen)) == Some(key),
        revised(revised(lines, key, seen), key, seen) == revised(lines, key, seen),
    decreases lines.len(),
{
    lemma_entry(key);
    if lines.len() > 0 {
        let rest = lines.skip(1);
        let first = lines[0];
        if has_entry(lines) && !is_entry(first) {
            let at = choose|at: int| 0 <= at < lines.len() && is_entry(lines[at]);
            assert(is_entry(rest[at - 1]));
        }
        if has_entry(rest) {
            let at = choose|at: int| 0 <= at < rest.len() && is_entry(rest[at]);
            assert(is_entry(lines[at + 1]));
        }
        if !is_entry(first) {
            lemma_revised(rest, key, seen);
            let tail = revised(rest, key, seen);
            let fresh = seq![first] + tail;
            assert(fresh[0] == first);
            assert(fresh.skip(1) =~= tail);
        } else if seen {
            lemma_revised(rest, key, true);
        } else {
            lemma_revised(rest, key, true);
            let tail = revised(rest, key, true);
            let fresh = seq![entry(key)] + tail;
            assert(fresh[0] == entry(key));
            assert(fresh.skip(1) =~= tail);
            assert(is_entry(lines[0]));
        }
    }
}

/// Where at most one line holds the API key, revising the lines puts the key
/// in that line and leaves every line in its place: no line is added or
/// taken out.
pub proof fn lemma_revised_in_place(lines: Seq<Seq<char>>, key: Seq<char>, seen: bool)
    requires
        entries(lines) <= 1,
        seen ==> entries(lines) == 0,
    ensures
        revised(lines, key, seen) == replaced(lines, key),
    decreases lines.len(),
{
    if lines.len() == 0 {
        assert(replaced(lines, key) =~= Seq::<Seq<char>>::empty());
    } else {
        let rest = lines.skip(1);
        lemma_revised_in_place(rest, key, seen || is_entry(lines[0]));
        assert(replaced(lines, key) =~= seq![replaced(lines, key)[0]] + replaced(rest, key));
    }
}

/// The lines of the rewritten contents are the revised lines of the
/// contents, for every key without a line feed.
pub proof fn lemma_rewritten_lines(contents: Seq<char>, key: Seq<char>, seen: bool)
    requires
        unbroken(key),
    ensures
        lines_of(rewritten(contents, key, seen)) == revised(lines_of(contents), key, seen),
    decreases contents.len(),
{
    lemma_entry(key);
    if contents.len() > 0 {
        lemma_first_break_found(contents);
        let at = first_break(contents);
        let lines = lines_of(contents);
        if at < contents.len() {
            let raw = contents.take(at);
            let line = without_return(raw);
            let rest = contents.skip(at + 1);
            assert(unbroken(raw));
            assert(lines[0] == line);
            assert(lines.skip(1) =~= lines_of(rest));
            if !is_entry(line) {
                lemma_rewritten_lines(rest, key, seen);
                let head = contents.take(at + 1);
                assert(head.last() == '\n');
                lemma_lines_of_concat(head, rewritten(rest, key, seen));
                lemma_lines_of_ended(raw, Seq::empty());
                assert(raw + seq!['\n'] + Seq::<char>::empty() =~= head);
                assert(lines_of(head) =~= seq![line]);
            } else if seen {
                lemma_rewritten_lines(rest, key, true);
            } else {
                lemma_rewritten_lines(rest, key, true);
                lemma_lines_of_closed(
                    entry(key),
                    entry_ending(raw, key),
                    rewritten(rest, key, true),
                );
            }
        } else {
            assert(unbroken(contents));
            lemma_lines_of_unbroken(contents);
            assert(lines.skip(1) =~= Seq::<Seq<char>>::empty());
            assert(revised(lines.skip(1), key, seen) =~= Seq::<Seq<char>>::empty());
            assert(revised(lines.skip(1), key, true) =~= Seq::<Seq<char>>::empty());
            if !is_entry(contents) {
                assert(seq![contents] + Seq::<Seq<char>>::empty() =~= seq![contents]);
            } else if !seen {
                lemma_lines_of_unbroken(entry(key));
                assert(seq![entry(key)] + Seq::<Seq<char>>::empty() =~= seq![entry(key)]);
            } else {
                assert(lines_of(Seq::<char>::empty()) =~= Seq::<Seq<char>>::empty());
            }
        }
    }
}

/// Contents that end in a line feed still do when they are rewritten, unless
/// nothing is left of them; and something is left where a line holds the API
/// key and none was seen before.
pub proof fn lemma_rewritten_end(contents: Seq<char>, key: Seq<char>, seen: bool)
    ensures
        contents.len() > 0 && contents.last() == '\n' ==> rewritten(contents, key, seen).len() == 0
            || rewritten(contents, key, seen).last() == '\n',
        !seen && has_entry(lines_of(contents)) ==> rewritten(contents, key, seen).len() > 0,
    decreases contents.len(),
{
    lemma_entry(key);
    if contents.len() > 0 {
        lemma_first_break_found(contents);
        let at = first_break(contents);
        if at < contents.len() {
            let raw = contents.take(at);
            let rest = contents.skip(at + 1);
            lemma_rewritten_end(rest, key, seen);
            lemma_rewritten_end(rest, key, true);
            if rest.len() > 0 {
                assert(rest.last() == contents.last());
            }
            let fresh = rewritten(contents, key, seen);
            if !is_entry(without_return(raw)) {
                let head = contents.take(at + 1);
                let tail = rewritten(rest, key, seen);
                assert(head.last() == '\n');
                assert(fresh == head + tail);
                if tail.len() > 0 {
                    assert(fresh.last() == tail.last());
                } else {
                    assert(fresh =~= head);
                }
            } else if !seen {
                let head = entry(key) + entry_ending(raw, key);
                let tail = rewritten(rest, key, true);
                assert(head.last() == '\n');
                assert(fresh == head + tail);
                if tail.len() > 0 {
                    assert(fresh.last() == tail.last());
                } else {
                    assert(fresh =~= head);
                }
            }
        } else {
            assert(contents.last() != '\n');
            if !is_entry(contents) {
                assert(lines_of(contents) =~= seq![contents]);
                if has_entry(lines_of(contents)) {
                    let i = choose|i: int|
                        0 <= i < lines_of(contents).len() && is_entry(lines_of(contents)[i]);
                    assert(lines_of(contents)[i] == contents);
                }
            }
        }
    }
}

/// After a key without a line feed is stored, the store's lines are those
/// from before with the key in the first line that held the API key and
/// without the later such lines, or with a new last line for the key where
/// none held it. Every other line, an empty one too, keeps its place and its
/// text.
pub proof fn lemma_saved_lines(contents: Seq<char>, key: Seq<char>)
    requires
        unbroken(key),
    ensures
        lines_of(saved(contents, key)) == lines_after(lines_of(contents), key),
{
    lemma_entry(key);
    if has_entry(lines_of(contents)) {
        lemma_rewritten_lines(contents, key, false);
    } else {
        let line = entry(key);
        let added = line + ending_of(line);
        lemma_lines_of_closed(line, ending_of(line), Seq::empty());
        assert(line + ending_of(line) + Seq::<char>::empty() =~= added);
        assert(seq![line] + Seq::<Seq<char>>::empty() =~= seq![line]);
        if separator(contents).len() == 0 {
            assert(saved(contents, key) =~= contents + added);
            lemma_lines_of_concat(contents, added);
        } else {
            assert(saved(contents, key) =~= contents + ending_of(contents) + added);
            lemma_lines_of_closed_text(contents, added);
        }
        assert(lines_of(contents) + seq![line] =~= lines_of(contents).push(line));
    }
}

/// Contents that ended in a line feed still end in one after a key is
/// stored.
pub proof fn lemma_saved_end(contents: Seq<char>, key: Seq<char>)
    ensures
        contents.len() > 0 && contents.last() == '\n' ==> saved(contents, key).len() > 0 && saved(
            contents,
            key,
        ).last() == '\n',
{
    if has_entry(lines_of(contents)) {
        lemma_rewritten_end(contents, key, false);
    } else {
        let text = separator(contents) + entry(key) + ending_of(entry(key));
        assert(text.last() == '\n');
        assert((contents + text).last() == '\n');
    }
}

/// Storing a key and reading the store gives the key back, whatever the store
/// held before, for every key without a line feed. A key that is not empty is
/// then a usable credential, and it is the key that is found where the
/// environment held none from the start.
pub proof fn lemma_save_then_read(contents: Seq<char>, key: Seq<char>)
    requires
        unbroken(key),
    ensures
        stored_key(saved(contents, key)) == Some(key),
        key.len() > 0 ==> usable(stored_key(saved(contents, key))),
        forall|loaded: Option<Seq<char>>|
            #[trigger] found_key(None, Some(saved(contents, key)), loaded) == Some(key),
{
    let lines = lines_of(contents);
    lemma_saved_lines(contents, key);
    lemma_entry(key);
    if has_entry(lines) {
        lemma_revised(lines, key, false);
    } else {
        lemma_entries_concat(lines, seq![entry(key)]);
        assert(lines + seq![entry(key)] =~= lines.push(entry(key)));
    }
}

/// After a key without a line feed is stored, exactly one line holds the API
/// key, however many did before, and the lines that do not hold it are those
/// from before: the same texts, as many, in the same order.
pub proof fn lemma_save_one_entry(contents: Seq<char>, key: Seq<char>)
    requires
        unbroken(key),
    ensures
        entries(lines_of(saved(contents, key))) == 1,
        others(lines_of(saved(contents, key))) == others(lines_of(contents)),
{
    let lines = lines_of(contents);
    lemma_saved_lines(contents, key);
    lemma_entry(key);
    if has_entry(lines) {
        lemma_revised(lines, key, false);
    } else {
        let added = seq![entry(key)];
        lemma_entries_concat(lines, added);
        assert(lines + added =~= lines.push(entry(key)));
        assert(added.skip(1) =~= Seq::<Seq<char>>::empty());
        assert(entries(added.skip(1)) == 0);
        assert(others(added.skip(1)) =~= Seq::<Seq<char>>::empty());
        assert(others(lines) + others(added) =~= others(lines));
    }
}

/// Where exactly one line holds the API key, storing a key without a line
/// feed puts the key in that line: the store has as many lines as before,
/// and every other line is the line from before.
pub proof fn lemma_save_in_place(contents: Seq<char>, key: Seq<char>)
    requires
        unbroken(key),
        entries(lines_of(contents)) == 1,
    ensures
        lines_of(saved(contents, key)) == replaced(lines_of(contents), key),
        lines_of(saved(contents, key)).len() == lines_of(contents).len(),
        forall|i: int|
            0 <= i < lines_of(contents).len() ==> #[trigger] lines_of(saved(contents, key))[i]
                == if is_entry(lines_of(contents)[i]) {
                entry(key)
            } else {
                lines_of(contents)[i]
            },
{
    let lines = lines_of(contents);
    lemma_saved_lines(contents, key);
    lemma_entries_concat(lines, Seq::empty());
    lemma_revised_in_place(lines, key, false);
}

/// Storing the same key a second time changes no line of the store.
pub proof fn lemma_save_again(contents: Seq<char>, key: Seq<char>)
    requires
        unbroken(key),
    ensures
        lines_of(saved(saved(contents, key), key)) == lines_of(saved(contents, key)),
{
    let lines = lines_of(contents);
    let once = saved(contents, key);
    lemma_saved_lines(contents, key);
    lemma_saved_lines(once, key);
    lemma_save_one_entry(contents, key);
    lemma_entries_concat(lines_of(once), Seq::empty());
    lemma_entry(key);
    if has_entry(lines) {
        lemma_revised(lines, key, false);
    } else {
        let added = seq![entry(key)];
        lemma_entries_concat(lines, added);
        assert(lines + added =~= lines.push(entry(key)));
        assert(added.skip(1) =~= Seq::<Seq<char>>::empty());
        assert(revised(added.skip(1), key, true) =~= Seq::<Seq<char>>::empty());
        assert(revised(added, key, false) =~= added);
    }
}

/// Storing a key twice leaves exactly one line that holds the API key, and in
/// it the second key; the other lines are those from before the first.
pub proof fn lemma_save_twice(contents: Seq<char>, first: Seq<char>, second: Seq<char>)
    requires
        unbroken(first),
        unbroken(second),
    ensures
        entries(lines_of(saved(saved(contents, first), second))) == 1,
        stored_key(saved(saved(contents, first), second)) == Some(second),
        others(lines_of(saved(saved(contents, first), second))) == others(lines_of(contents)),
{
    lemma_save_one_entry(contents, first);
    lemma_save_one_entry(saved(contents, first), second);
    lemma_save_then_read(saved(contents, first), second);
}

} // verus!
