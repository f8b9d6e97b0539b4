//! Character-level helpers shared by the other modules. Strings are read
//! through their view, a sequence of characters.

use vstd::prelude::*;

verus! {

/// `String::push` appends one character to the end of the string.
pub assume_specification[ String::push ](s: &mut String, ch: char)
    ensures
        final(s)@ == old(s)@.push(ch),
;

/// The views of a list of values.
pub open spec fn views<T: View>(items: Seq<T>) -> Seq<T::V> {
    Seq::new(items.len(), |i: int| items[i]@)
}

/// The characters of a string, in order.
pub fn to_chars(s: &str) -> (chars: Vec<char>)
    ensures
        chars@ == s@,
{
    let mut chars: Vec<char> = Vec::new();
    for c in it: s.chars()
        invariant
            chars@ == it.seq().take(it.index() as int),
            it.seq() == s@,
    {
        chars.push(c);
    }
    chars
}

/// The string made of the given characters, in order.
pub fn from_chars(chars: &[char]) -> (s: String)
    ensures
        s@ == chars@,
{
    let mut s = String::new();
    let mut i: usize = 0;
    while i < chars.len()
        invariant
            i <= chars.len(),
            s@ == chars@.take(i as int),
        decreases chars.len() - i,
    {
        s.push(chars[i]);
        i += 1;
    }
    s
}

/// The decimal digit for a value below ten.
pub open spec fn digit(d: nat) -> char {
    if d == 0 {
        '0'
    } else if d == 1 {
        '1'
    } else if d == 2 {
        '2'
    } else if d == 3 {
        '3'
    } else if d == 4 {
        '4'
    } else if d == 5 {
        '5'
    } else if d == 6 {
        '6'
    } else if d == 7 {
        '7'
    } else if d == 8 {
        '8'
    } else {
        '9'
    }
}

/// The decimal notation of a natural number, without leading zeros.
pub open spec fn decimal(n: nat) -> Seq<char>
    decreases n,
{
    if n < 10 {
        seq![digit(n)]
    } else {
        decimal(n / 10).push(digit(n % 10))
    }
}

fn digit_char(d: u8) -> (c: char)
    requires
        d < 10,
    ensures
        c == digit(d as nat),
{
    if d == 0 {
        '0'
    } else if d == 1 {
        '1'
    } else if d == 2 {
        '2'
    } else if d == 3 {
        '3'
    } else if d == 4 {
        '4'
    } else if d == 5 {
        '5'
    } else if d == 6 {
        '6'
    } else if d == 7 {
        '7'
    } else if d == 8 {
        '8'
    } else {
        '9'
    }
}

/// Writes a number in decimal notation.
pub fn render_decimal(n: u128) -> (s: String)
    ensures
        s@ == decimal(n as nat),
{
    // Digits are produced from the least significant one.
    let mut reversed: Vec<char> = Vec::new();
    let mut rest: u128 = n;
    while rest >= 10
        invariant
            decimal(n as nat) == decimal(rest as nat) + reversed@.reverse(),
        decreases rest,
    {
        let d: u8 = (rest % 10) as u8;
        let ghost before = reversed@;
        reversed.push(digit_char(d));
        proof {
            assert(reversed@.reverse() =~= seq![digit((rest % 10) as nat)] + before.reverse());
            assert(decimal(rest as nat) == decimal((rest / 10) as nat).push(
                digit((rest % 10) as nat),
            ));
            assert(decimal((rest / 10) as nat).push(digit((rest % 10) as nat)) + before.reverse()
                =~= decimal((rest / 10) as nat) + (seq![digit((rest % 10) as nat)]
                + before.reverse()));
        }
        rest = rest / 10;
    }
    let mut s = String::new();
    s.push(digit_char(rest as u8));
    let mut i: usize = reversed.len();
    while i > 0
        invariant
            i <= reversed.len(),
            s@ == decimal(rest as nat) + reversed@.reverse().take(reversed.len() - i),
            rest < 10,
        decreases i,
    {
        i -= 1;
        s.push(reversed[i]);
        proof {
            let r = reversed@.reverse();
            assert(r.take(reversed.len() - i) =~= r.take(reversed.len() - i - 1).push(
                reversed@[i as int],
            ));
        }
    }
    proof {
        assert(reversed@.reverse().take(reversed.len() as int) =~= reversed@.reverse());
    }
    s
}

/// Whether a character is white space as Unicode defines it (`White_Space`).
pub open spec fn is_space(c: char) -> bool {
    let u = c as u32;
    ||| 0x09 <= u <= 0x0D
    ||| u == 0x20
    ||| u == 0x85
    ||| u == 0xA0
    ||| u == 0x1680
    ||| 0x2000 <= u <= 0x200A
    ||| u == 0x2028
    ||| u == 0x2029
    ||| u == 0x202F
    ||| u == 0x205F
    ||| u == 0x3000
}

/// Tests a character for white space.
pub fn is_whitespace(c: char) -> (space: bool)
    ensures
        space == is_space(c),
{
    let u: u32 = c as u32;
    (0x09 <= u && u <= 0x0D) || u == 0x20 || u == 0x85 || u == 0xA0 || u == 0x1680 || (0x2000 <= u
        && u <= 0x200A) || u == 0x2028 || u == 0x2029 || u == 0x202F || u == 0x205F || u == 0x3000
}

/// A text without its leading white space.
pub open spec fn trim_start(s: Seq<char>) -> Seq<char>
    decreases s.len(),
{
    if s.len() > 0 && is_space(s[0]) {
        trim_start(s.skip(1))
    } else {
        s
    }
}

/// A text without its trailing white space.
pub open spec fn trim_end(s: Seq<char>) -> Seq<char>
    decreases s.len(),
{
    if s.len() > 0 && is_space(s.last()) {
        trim_end(s.drop_last())
    } else {
        s
    }
}

/// A text without the white space that surrounds it.
pub open spec fn trimmed(s: Seq<char>) -> Seq<char> {
    trim_end(trim_start(s))
}

/// Removes the white space around a text.
pub fn trim(chars: &[char]) -> (kept: Vec<char>)
    ensures
        kept@ == trimmed(chars@),
{
    let mut start: usize = 0;
    proof {
        assert(chars@.skip(0) =~= chars@);
    }
    while start < chars.len() && is_whitespace(chars[start])
        invariant
            start <= chars.len(),
            trim_start(chars@) == trim_start(chars@.skip(start as int)),
        decreases chars.len() - start,
    {
        proof {
            assert(chars@.skip(start as int).skip(1) =~= chars@.skip(start + 1));
        }
        start += 1;
    }
    let mut end: usize = chars.len();
    while end > start && is_whitespace(chars[end - 1])
        invariant
            start <= end <= chars.len(),
            trimmed(chars@) == trim_end(chars@.subrange(start as int, end as int)),
            trim_start(chars@) == chars@.skip(start as int),
        decreases end,
    {
        proof {
            assert(chars@.subrange(start as int, end as int).drop_last() =~= chars@.subrange(
                start as int,
                end - 1,
            ));
        }
        end -= 1;
    }
    let mut kept: Vec<char> = Vec::new();
    let mut i: usize = start;
    while i < end
        invariant
            start <= i <= end <= chars.len(),
            kept@ == chars@.subrange(start as int, i as int),
        decreases end - i,
    {
        kept.push(chars[i]);
        i += 1;
    }
    kept
}

/// The lower-case form of an ASCII capital letter; any other character is
/// left as it is.
pub open spec fn lower(c: char) -> char {
    if 'A' <= c && c <= 'Z' {
        ((c as u8) + 32) as char
    } else {
        c
    }
}

/// A text with its ASCII capital letters in lower case.
pub open spec fn lowered(s: Seq<char>) -> Seq<char> {
    Seq::new(s.len(), |i: int| lower(s[i]))
}

/// Puts the ASCII capital letters of a text in lower case.
pub fn to_lower(chars: &[char]) -> (folded: Vec<char>)
    ensures
        folded@ == lowered(chars@),
{
    let mut folded: Vec<char> = Vec::new();
    let mut i: usize = 0;
    while i < chars.len()
        invariant
            i <= chars.len(),
            folded@ == lowered(chars@).take(i as int),
        decreases chars.len() - i,
    {
        let c = chars[i];
        if 'A' <= c && c <= 'Z' {
            let b: u8 = c as u8;
            folded.push((b + 32) as char);
        } else {
            folded.push(c);
        }
        i += 1;
    }
    folded
}

/// Whether `pattern` stands in `s` at position `at`.
pub open spec fn occurs_at(s: Seq<char>, at: int, pattern: Seq<char>) -> bool {
    0 <= at && at + pattern.len() <= s.len() && s.subrange(at, at + pattern.len()) == pattern
}

/// Whether `pattern` stands anywhere in `s`.
pub open spec fn occurs_in(s: Seq<char>, pattern: Seq<char>) -> bool {
    exists|at: int| occurs_at(s, at, pattern)
}

/// Tests whether `pattern` stands in `chars` at position `at`.
pub fn matches_at(chars: &[char], at: usize, pattern: &[char]) -> (found: bool)
    ensures
        found == occurs_at(chars@, at as int, pattern@),
{
    if at > chars.len() || pattern.len() > chars.len() - at {
        return false;
    }
    let mut i: usize = 0;
    while i < pattern.len()
        invariant
            i <= pattern.len(),
            at + pattern.len() <= chars.len(),
            chars@.subrange(at as int, at + i) == pattern@.take(i as int),
        decreases pattern.len() - i,
    {
        if chars[at + i] != pattern[i] {
            proof {
                let whole = chars@.subrange(at as int, at + pattern.len());
                assert(whole[i as int] != pattern@[i as int]);
            }
            return false;
        }
        proof {
            assert(chars@.subrange(at as int, at + i + 1) =~= chars@.subrange(
                at as int,
                at + i,
            ).push(chars@[at + i]));
            assert(pattern@.take(i + 1) =~= pattern@.take(i as int).push(pattern@[i as int]));
        }
        i += 1;
    }
    proof {
        assert(pattern@.take(pattern.len() as int) =~= pattern@);
    }
    true
}

/// A text from which every occurrence of `pattern` is taken out, the
/// occurrences being found from left to right without overlap.
pub open spec fn without(s: Seq<char>, pattern: Seq<char>) -> Seq<char>
    decreases s.len(),
{
    if pattern.len() == 0 || s.len() < pattern.len() {
        s
    } else if occurs_at(s, 0, pattern) {
        without(s.skip(pattern.len() as int), pattern)
    } else {
        seq![s[0]] + without(s.skip(1), pattern)
    }
}

/// Takes every occurrence of `pattern` out of a text.
pub fn remove_all(chars: &[char], pattern: &[char]) -> (kept: Vec<char>)
    ensures
        kept@ == without(chars@, pattern@),
{
    let mut kept: Vec<char> = Vec::new();
    let mut i: usize = 0;
    proof {
        assert(chars@.skip(0) =~= chars@);
    }
    while i < chars.len()
        invariant
            i <= chars.len(),
            without(chars@, pattern@) == kept@ + without(chars@.skip(i as int), pattern@),
        decreases chars.len() - i,
    {
        let ghost rest = chars@.skip(i as int);
        if pattern.len() > 0 && matches_at(chars, i, pattern) {
            proof {
                assert(rest.subrange(0, pattern.len() as int) =~= chars@.subrange(
                    i as int,
                    i + pattern.len(),
                ));
                assert(rest.skip(pattern.len() as int) =~= chars@.skip(i + pattern.len()));
            }
            i += pattern.len();
        } else {
            proof {
                assert(rest.skip(1) =~= chars@.skip(i + 1));
                let tail = without(chars@.skip(i + 1), pattern@);
                if pattern.len() == 0 || rest.len() < pattern.len() {
                    lemma_without_short(chars@.skip(i + 1), pattern@);
                    assert(rest =~= seq![chars@[i as int]] + chars@.skip(i + 1));
                } else {
                    assert(rest.subrange(0, pattern.len() as int) =~= chars@.subrange(
                        i as int,
                        i + pattern.len(),
                    ));
                }
                assert(kept@.push(chars@[i as int]) + tail =~= kept@ + (seq![chars@[i as int]]
                    + tail));
            }
            kept.push(chars[i]);
            i += 1;
        }
    }
    proof {
        assert(chars@.skip(chars.len() as int) =~= Seq::<char>::empty());
    }
    kept
}

/// A text shorter than the pattern holds no occurrence of it and is left as
/// it is.
pub proof fn lemma_without_short(s: Seq<char>, pattern: Seq<char>)
    requires
        pattern.len() == 0 || s.len() < pattern.len(),
    ensures
        without(s, pattern) == s,
{
}

/// Tests whether two texts are the same.
pub fn same_chars(left: &[char], right: &[char]) -> (same: bool)
    ensures
        same == (left@ == right@),
{
    if left.len() != right.len() {
        return false;
    }
    let found = matches_at(left, 0, right);
    proof {
        assert(left@.subrange(0, left.len() as int) =~= left@);
    }
    found
}

/// A text in which the pattern does not occur is left as it is.
pub proof fn lemma_without_absent(s: Seq<char>, pattern: Seq<char>)
    requires
        !occurs_in(s, pattern),
    ensures
        without(s, pattern) == s,
    decreases s.len(),
{
    if pattern.len() == 0 || s.len() < pattern.len() {
    } else {
        assert(!occurs_at(s, 0, pattern));
        let rest = s.skip(1);
        assert(!occurs_in(rest, pattern)) by {
            if occurs_in(rest, pattern) {
                let at = choose|at: int| occurs_at(rest, at, pattern);
                assert(rest.subrange(at, at + pattern.len()) =~= s.subrange(
                    at + 1,
                    at + 1 + pattern.len(),
                ));
                assert(occurs_at(s, at + 1, pattern));
            }
        }
        lemma_without_absent(rest, pattern);
        assert(seq![s[0]] + rest =~= s);
    }
}

/// What occurs in a text after its leading white space is taken off occurs in
/// the text.
pub proof fn lemma_occurs_in_trim_start(s: Seq<char>, pattern: Seq<char>)
    requires
        occurs_in(trim_start(s), pattern),
    ensures
        occurs_in(s, pattern),
    decreases s.len(),
{
    if s.len() > 0 && is_space(s[0]) {
        let rest = s.skip(1);
        lemma_occurs_in_trim_start(rest, pattern);
        let at = choose|at: int| occurs_at(rest, at, pattern);
        assert(rest.subrange(at, at + pattern.len()) =~= s.subrange(
            at + 1,
            at + 1 + pattern.len(),
        ));
        assert(occurs_at(s, at + 1, pattern));
    }
}

/// What occurs in a text after its trailing white space is taken off occurs
/// in the text.
pub proof fn lemma_occurs_in_trim_end(s: Seq<char>, pattern: Seq<char>)
    requires
        occurs_in(trim_end(s), pattern),
    ensures
        occurs_in(s, pattern),
    decreases s.len(),
{
    if s.len() > 0 && is_space(s.last()) {
        let rest = s.drop_last();
        lemma_occurs_in_trim_end(rest, pattern);
        let at = choose|at: int| occurs_at(rest, at, pattern);
        assert(rest.subrange(at, at + pattern.len()) =~= s.subrange(at, at + pattern.len()));
        assert(occurs_at(s, at, pattern));
    }
}

/// A text without its leading white space is empty or starts with a
/// character that is no white space.
pub proof fn lemma_trim_start_first(s: Seq<char>)
    ensures
        trim_start(s).len() > 0 ==> !is_space(trim_start(s)[0]),
        trim_start(s).len() <= s.len(),
    decreases s.len(),
{
    if s.len() > 0 && is_space(s[0]) {
        lemma_trim_start_first(s.skip(1));
    }
}

/// A text without its trailing white space is empty or ends with a character
/// that is no white space, and starts as the text does.
pub proof fn lemma_trim_end_last(s: Seq<char>)
    ensures
        trim_end(s).len() > 0 ==> !is_space(trim_end(s).last()) && trim_end(s)[0] == s[0],
        trim_end(s).len() <= s.len(),
    decreases s.len(),
{
    if s.len() > 0 && is_space(s.last()) {
        lemma_trim_end_last(s.drop_last());
    }
}

/// A text with no white space around it is left as it is.
pub proof fn lemma_trimmed_bare(s: Seq<char>)
    requires
        s.len() > 0 ==> !is_space(s[0]) && !is_space(s.last()),
    ensures
        trimmed(s) == s,
{
}

/// Taking the surrounding white space off a second time changes nothing.
pub proof fn lemma_trimmed_twice(s: Seq<char>)
    ensures
        trimmed(trimmed(s)) == trimmed(s),
{
    lemma_trim_start_first(s);
    lemma_trim_end_last(trim_start(s));
    lemma_trimmed_bare(trimmed(s));
}

/// Lowering a text and taking the white space off its ends can be done in
/// either order: no letter is white space.
pub proof fn lemma_trimmed_lowered(s: Seq<char>)
    ensures
        trimmed(lowered(s)) == lowered(trimmed(s)),
{
    lemma_trim_start_lowered(s);
    lemma_trim_end_lowered(trim_start(s));
}

proof fn lemma_trim_start_lowered(s: Seq<char>)
    ensures
        trim_start(lowered(s)) == lowered(trim_start(s)),
    decreases s.len(),
{
    if s.len() > 0 && is_space(s[0]) {
        lemma_trim_start_lowered(s.skip(1));
        assert(lowered(s).skip(1) =~= lowered(s.skip(1)));
    }
}

proof fn lemma_trim_end_lowered(s: Seq<char>)
    ensures
        trim_end(lowered(s)) == lowered(trim_end(s)),
    decreases s.len(),
{
    if s.len() > 0 && is_space(s.last()) {
        lemma_trim_end_lowered(s.drop_last());
        assert(lowered(s).drop_last() =~= lowered(s.drop_last()));
    }
}

} // verus!
