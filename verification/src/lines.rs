//! The lines of a text.
//!
//! A text is cut at every line feed. A carriage return that stands directly
//! before the line feed belongs to the line ending, and a last line need not
//! be ended.

use crate::text::views;
use vstd::prelude::*;

verus! {

/// The position of the first line feed of `s`, or the length of `s` where it
/// has none.
pub open spec fn first_break(s: Seq<char>) -> int
    decreases s.len(),
{
    if s.len() == 0 || s[0] == '\n' {
        0
    } else {
        1 + first_break(s.skip(1))
    }
}

/// Whether a text holds no line feed.
pub open spec fn unbroken(s: Seq<char>) -> bool {
    forall|i: int| 0 <= i < s.len() ==> s[i] != '\n'
}

/// Whether a text ends in a carriage return.
pub open spec fn ends_in_return(s: Seq<char>) -> bool {
    s.len() > 0 && s.last() == '\r'
}

/// A line without the carriage return that may end it.
pub open spec fn without_return(line: Seq<char>) -> Seq<char> {
    if ends_in_return(line) {
        line.drop_last()
    } else {
        line
    }
}

/// The lines of a text, without their line endings. An empty text has no
/// line, and a line ending at the very end of the text starts no further line.
pub open spec fn lines_of(s: Seq<char>) -> Seq<Seq<char>>
    decreases s.len(),
{
    if s.len() == 0 {
        Seq::empty()
    } else {
        let at = first_break(s);
        if 0 <= at < s.len() {
            seq![without_return(s.take(at))] + lines_of(s.skip(at + 1))
        } else {
            seq![s]
        }
    }
}

/// `first_break` is the position `at` when no line feed stands before `at`
/// and one stands there, or the text ends there.
pub proof fn lemma_first_break_at(s: Seq<char>, at: int)
    requires
        0 <= at <= s.len(),
        forall|i: int| 0 <= i < at ==> s[i] != '\n',
        at == s.len() || s[at] == '\n',
    ensures
        first_break(s) == at,
    decreases at,
{
    if at > 0 {
        lemma_first_break_at(s.skip(1), at - 1);
    }
}

/// `first_break` lies within the text, no line feed stands before it, and
/// one stands at it unless the text ends there.
pub proof fn lemma_first_break_found(s: Seq<char>)
    ensures
        0 <= first_break(s) <= s.len(),
        forall|i: int| 0 <= i < first_break(s) ==> s[i] != '\n',
        first_break(s) < s.len() ==> s[first_break(s)] == '\n',
    decreases s.len(),
{
    if s.len() == 0 || s[0] == '\n' {
    } else {
        lemma_first_break_found(s.skip(1));
        assert forall|i: int| 0 <= i < first_break(s) implies s[i] != '\n' by {
            if i > 0 {
                assert(s[i] == s.skip(1)[i - 1]);
            }
        }
    }
}

/// A copy of the characters from `from` up to `to`.
pub fn copy_range(chars: &[char], from: usize, to: usize) -> (part: Vec<char>)
    requires
        from <= to <= chars.len(),
    ensures
        part@ == chars@.subrange(from as int, to as int),
{
    let mut part: Vec<char> = Vec::new();
    let mut i: usize = from;
    while i < to
        invariant
            from <= i <= to <= chars.len(),
            part@ == chars@.subrange(from as int, i as int),
        decreases to - i,
    {
        part.push(chars[i]);
        i += 1;
    }
    part
}

/// Cuts a text into its lines.
pub fn split_lines(chars: &[char]) -> (lines: Vec<Vec<char>>)
    ensures
        views(lines@) == lines_of(chars@),
{
    let mut lines: Vec<Vec<char>> = Vec::new();
    let mut start: usize = 0;
    let mut i: usize = 0;
    proof {
        assert(chars@.skip(0) =~= chars@);
        assert(views(lines@) + lines_of(chars@) =~= lines_of(chars@));
    }
    while i < chars.len()
        invariant
            start <= i <= chars.len(),
            forall|j: int| start <= j < i ==> chars@[j] != '\n',
            lines_of(chars@) == views(lines@) + lines_of(chars@.skip(start as int)),
        decreases chars.len() - i,
    {
        if chars[i] == '\n' {
            let mut end: usize = i;
            if end > start && chars[end - 1] == '\r' {
                end -= 1;
            }
            let line = copy_range(chars, start, end);
            proof {
                let rest = chars@.skip(start as int);
                lemma_first_break_at(rest, i - start);
                assert(rest.take(i - start) =~= chars@.subrange(start as int, i as int));
                assert(rest.skip(i - start + 1) =~= chars@.skip(i + 1));
                assert(line@ =~= without_return(chars@.subrange(start as int, i as int)));
                assert(views(lines@.push(line)) =~= views(lines@).push(line@));
                assert(views(lines@).push(line@) + lines_of(chars@.skip(i + 1)) =~= views(
                    lines@,
                ) + (seq![line@] + lines_of(chars@.skip(i + 1))));
            }
            lines.push(line);
            start = i + 1;
        }
        i += 1;
    }
    if start < chars.len() {
        let line = copy_range(chars, start, chars.len());
        proof {
            let rest = chars@.skip(start as int);
            lemma_first_break_at(rest, rest.len() as int);
            assert(line@ =~= rest);
            assert(views(lines@.push(line)) =~= views(lines@).push(line@));
        }
        lines.push(line);
    } else {
        proof {
            assert(views(lines@) + Seq::<Seq<char>>::empty() =~= views(lines@));
        }
    }
    lines
}

/// A text that starts with an unbroken line, a line feed behind it, has that
/// line as its first line, and behind it the lines of what follows.
pub proof fn lemma_lines_of_ended(line: Seq<char>, rest: Seq<char>)
    requires
        unbroken(line),
    ensures
        lines_of(line + seq!['\n'] + rest) == seq![without_return(line)] + lines_of(rest),
{
    let s = line + seq!['\n'] + rest;
    lemma_first_break_at(s, line.len() as int);
    assert(s.take(line.len() as int) =~= line);
    assert(s.skip(line.len() as int + 1) =~= rest);
}

/// A text without a line feed, unless empty, is its own single line.
pub proof fn lemma_lines_of_unbroken(line: Seq<char>)
    requires
        line.len() > 0,
        unbroken(line),
    ensures
        lines_of(line) == seq![line],
{
    lemma_first_break_at(line, line.len() as int);
}

/// Behind a text that is empty or ends in a line feed, a second text adds its
/// own lines.
pub proof fn lemma_lines_of_concat(head: Seq<char>, tail: Seq<char>)
    requires
        head.len() == 0 || head.last() == '\n',
    ensures
        lines_of(head + tail) == lines_of(head) + lines_of(tail),
    decreases head.len(),
{
    if head.len() == 0 {
        assert(head + tail =~= tail);
        assert(lines_of(head) + lines_of(tail) =~= lines_of(tail));
    } else {
        lemma_first_break_found(head);
        let at = first_break(head);
        assert(at < head.len()) by {
            if at == head.len() {
                assert(head[head.len() - 1] != '\n');
            }
        }
        let whole = head + tail;
        lemma_first_break_at(whole, at);
        assert(whole.take(at) =~= head.take(at));
        assert(whole.skip(at + 1) =~= head.skip(at + 1) + tail);
        let next = head.skip(at + 1);
        if next.len() > 0 {
            assert(next.last() == head.last());
        }
        lemma_lines_of_concat(next, tail);
        let first = seq![without_return(head.take(at))];
        assert(first + (lines_of(next) + lines_of(tail)) =~= (first + lines_of(next)) + lines_of(
            tail,
        ));
    }
}

/// The line ending behind which a line is read back as it is: a line feed,
/// with a carriage return before it where the line itself ends in one.
pub open spec fn ending_of(line: Seq<char>) -> Seq<char> {
    if ends_in_return(line) {
        seq!['\r', '\n']
    } else {
        seq!['\n']
    }
}

/// A line without a line feed, closed by a line ending that holds a carriage
/// return wherever the line ends in one, is read back as it is, and behind
/// it the lines of what follows.
pub proof fn lemma_lines_of_closed(line: Seq<char>, ending: Seq<char>, rest: Seq<char>)
    requires
        unbroken(line),
        ending == seq!['\n'] && !ends_in_return(line) || ending == seq!['\r', '\n'],
    ensures
        lines_of(line + ending + rest) == seq![line] + lines_of(rest),
{
    if ending == seq!['\n'] {
        lemma_lines_of_ended(line, rest);
    } else {
        let longer = line.push('\r');
        lemma_lines_of_ended(longer, rest);
        assert(longer + seq!['\n'] + rest =~= line + ending + rest);
        assert(longer.drop_last() =~= line);
    }
}

/// Closing the last line of a text that is not closed leaves the text's lines
/// as they are; what follows adds its own lines.
pub proof fn lemma_lines_of_closed_text(s: Seq<char>, rest: Seq<char>)
    requires
        s.len() > 0,
        s.last() != '\n',
    ensures
        lines_of(s + ending_of(s) + rest) == lines_of(s) + lines_of(rest),
    decreases s.len(),
{
    lemma_first_break_found(s);
    let at = first_break(s);
    let whole = s + ending_of(s) + rest;
    if at < s.len() {
        let next = s.skip(at + 1);
        assert(next.len() > 0 && next.last() == s.last());
        lemma_first_break_at(whole, at);
        assert(whole.take(at) =~= s.take(at));
        assert(whole.skip(at + 1) =~= next + ending_of(next) + rest);
        lemma_lines_of_closed_text(next, rest);
        let first = seq![without_return(s.take(at))];
        assert(first + (lines_of(next) + lines_of(rest)) =~= (first + lines_of(next)) + lines_of(
            rest,
        ));
    } else {
        assert(unbroken(s));
        lemma_lines_of_closed(s, ending_of(s), rest);
        lemma_lines_of_unbroken(s);
    }
}

} // verus!
