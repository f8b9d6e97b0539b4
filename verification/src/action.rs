//! What may follow a generated commit message: the user is asked once what
//! to do with it.

use crate::text::{
    from_chars, is_space, lemma_occurs_in_trim_end, lemma_occurs_in_trim_start,
    lemma_trimmed_bare, lemma_trimmed_lowered, lemma_trimmed_twice, lemma_without_absent,
    lowered, occurs_at, occurs_in, remove_all, same_chars, to_chars, to_lower, trim, trim_start,
    trimmed, without,
};
use vstd::prelude::*;

verus! {

/// What the user chose to do with the generated message.
#[derive(Clone, Copy, Debug, PartialEq, Eq, Structural)]
pub enum Action {
    /// Commit with the generated message.
    Commit,
    /// Give more information.
    AddInfo,
    /// Do nothing.
    Nothing,
    /// The answer names none of the three.
    Invalid,
}

/// The action that an answer names. White space around the answer and the
/// case of its letters do not count; each action has a one-letter and a
/// full-word form.
pub open spec fn action_of(answer: Seq<char>) -> Action {
    let word = lowered(trimmed(answer));
    if word == "c"@ || word == "commit"@ {
        Action::Commit
    } else if word == "a"@ || word == "add-info"@ {
        Action::AddInfo
    } else if word == "n"@ || word == "nothing"@ {
        Action::Nothing
    } else {
        Action::Invalid
    }
}

fn is_word(chars: &[char], word: &str) -> (same: bool)
    ensures
        same == (chars@ == word@),
{
    let other = to_chars(word);
    same_chars(chars, other.as_slice())
}

/// Reads the user's answer to the question what to do.
pub fn parse_action(answer: &str) -> (action: Action)
    ensures
        action == action_of(answer@),
{
    let chars = to_chars(answer);
    let bare = trim(chars.as_slice());
    let word = to_lower(bare.as_slice());
    if is_word(word.as_slice(), "c") || is_word(word.as_slice(), "commit") {
        Action::Commit
    } else if is_word(word.as_slice(), "a") || is_word(word.as_slice(), "add-info") {
        Action::AddInfo
    } else if is_word(word.as_slice(), "n") || is_word(word.as_slice(), "nothing") {
        Action::Nothing
    } else {
        Action::Invalid
    }
}

/// The case of an answer's letters does not count: two answers that are the
/// same once their capital letters are lowered name the same action.
pub proof fn lemma_answer_case(left: Seq<char>, right: Seq<char>)
    requires
        lowered(left) == lowered(right),
    ensures
        action_of(left) == action_of(right),
{
    lemma_trimmed_lowered(left);
    lemma_trimmed_lowered(right);
}

/// The white space around an answer does not count: two answers that are the
/// same once it is taken off name the same action.
pub proof fn lemma_answer_space(left: Seq<char>, right: Seq<char>)
    requires
        trimmed(left) == trimmed(right),
    ensures
        action_of(left) == action_of(right),
{
}

/// The marker that opens or closes a block of code.
pub open spec fn fence() -> Seq<char> {
    "```"@
}

/// The marker that opens a block of plain text.
pub open spec fn tagged_fence() -> Seq<char> {
    "```plaintext"@
}

/// A generated message as it is committed: without the tagged markers,
/// without the markers left after that, and without the white space around
/// what remains.
pub open spec fn cleaned(content: Seq<char>) -> Seq<char> {
    trimmed(without(without(content, tagged_fence()), fence()))
}

/// Takes the code-block markers and the surrounding white space off a
/// generated message.
pub fn clean_commit_message(content: &str) -> (message: String)
    ensures
        message@ == cleaned(content@),
{
    let chars = to_chars(content);
    let tagged = to_chars("```plaintext");
    let plain = to_chars("```");
    let untagged = remove_all(chars.as_slice(), tagged.as_slice());
    let unfenced = remove_all(untagged.as_slice(), plain.as_slice());
    let bare = trim(unfenced.as_slice());
    from_chars(bare.as_slice())
}

/// The marker is three backticks, and the tagged marker starts with it.
pub proof fn lemma_fences()
    ensures
        fence() == seq!['`', '`', '`'],
        tagged_fence().len() == 12,
        tagged_fence().subrange(0, 3) == fence(),
{
    reveal_strlit("```");
    reveal_strlit("```plaintext");
    assert(fence() =~= seq!['`', '`', '`']);
    assert(tagged_fence().subrange(0, 3) =~= fence());
}

/// Where no marker occurs, no tagged marker occurs.
pub proof fn lemma_no_fence_no_tagged(s: Seq<char>)
    requires
        !occurs_in(s, fence()),
    ensures
        !occurs_in(s, tagged_fence()),
{
    lemma_fences();
    if occurs_in(s, tagged_fence()) {
        let at = choose|at: int| occurs_at(s, at, tagged_fence());
        assert(s.subrange(at, at + 3) =~= s.subrange(at, at + 12).subrange(0, 3));
        assert(occurs_at(s, at, fence()));
    }
}

proof fn lemma_without_fence_first(s: Seq<char>)
    requires
        s.len() > 0,
        !occurs_at(s, 0, fence()),
    ensures
        without(s, fence()).len() > 0,
        without(s, fence())[0] == s[0],
{
    lemma_fences();
}

proof fn lemma_without_fence_clear_at(s: Seq<char>, at: int)
    ensures
        !occurs_at(without(s, fence()), at, fence()),
    decreases s.len(),
{
    lemma_fences();
    let mark = fence();
    let kept = without(s, mark);
    if s.len() < 3 {
    } else if occurs_at(s, 0, mark) {
        lemma_without_fence_clear_at(s.skip(3), at);
    } else {
        let s1 = s.skip(1);
        let kept1 = without(s1, mark);
        assert(kept == seq![s[0]] + kept1);
        if occurs_at(kept, at, mark) {
            if at > 0 {
                lemma_without_fence_clear_at(s1, at - 1);
                assert(kept.subrange(at, at + 3) =~= kept1.subrange(at - 1, at + 2));
            } else {
                let head = kept.subrange(0, 3);
                assert(head[0] == '`' && head[1] == '`' && head[2] == '`');
                assert(s[0] == '`' && kept1[0] == '`' && kept1[1] == '`');
                if occurs_at(s1, 0, mark) {
                    let found = s1.subrange(0, 3);
                    assert(found[0] == '`' && found[1] == '`');
                    assert(s.subrange(0, 3) =~= mark);
                }
                lemma_without_fence_first(s1);
                assert(s[1] == '`');
                if s1.len() < 3 {
                    assert(s[2] == '`');
                    assert(s.subrange(0, 3) =~= mark);
                } else {
                    let s2 = s1.skip(1);
                    assert(kept1 == seq![s1[0]] + without(s2, mark));
                    assert(kept1[1] == without(s2, mark)[0]);
                    if occurs_at(s2, 0, mark) {
                        let found = s2.subrange(0, 3);
                        assert(found[0] == '`');
                        assert(s2[0] == s[2]);
                        assert(s.subrange(0, 3) =~= mark);
                    }
                    lemma_without_fence_first(s2);
                    assert(s2[0] == s[2]);
                    assert(s.subrange(0, 3) =~= mark);
                }
            }
        }
    }
}

/// Once the markers are taken out of a text, none occurs in what is left.
pub proof fn lemma_without_fence_clear(s: Seq<char>)
    ensures
        !occurs_in(without(s, fence()), fence()),
{
    assert forall|at: int| !occurs_at(without(s, fence()), at, fence()) by {
        lemma_without_fence_clear_at(s, at);
    }
}

/// No marker occurs in a cleaned message.
pub proof fn lemma_cleaned_clear(content: Seq<char>)
    ensures
        !occurs_in(cleaned(content), fence()),
{
    let unfenced = without(without(content, tagged_fence()), fence());
    lemma_without_fence_clear(without(content, tagged_fence()));
    if occurs_in(cleaned(content), fence()) {
        lemma_occurs_in_trim_end(trim_start(unfenced), fence());
        lemma_occurs_in_trim_start(unfenced, fence());
    }
}

/// A message in which no marker occurs loses only the white space around it,
/// and nothing at all where there is none.
pub proof fn lemma_cleaned_without_fence(content: Seq<char>)
    requires
        !occurs_in(content, fence()),
    ensures
        cleaned(content) == trimmed(content),
        (content.len() > 0 ==> !is_space(content[0]) && !is_space(content.last())) ==> cleaned(
            content,
        ) == content,
{
    lemma_no_fence_no_tagged(content);
    lemma_without_absent(content, tagged_fence());
    lemma_without_absent(content, fence());
    if content.len() > 0 ==> !is_space(content[0]) && !is_space(content.last()) {
        lemma_trimmed_bare(content);
    }
}

/// Cleaning a message a second time changes nothing.
pub proof fn lemma_cleaned_twice(content: Seq<char>)
    ensures
        cleaned(cleaned(content)) == cleaned(content),
{
    lemma_cleaned_clear(content);
    lemma_cleaned_without_fence(cleaned(content));
    lemma_trimmed_twice(without(without(content, tagged_fence()), fence()));
}

} // verus!
