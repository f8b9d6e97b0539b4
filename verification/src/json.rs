//! JSON text, by `serde_json`.

use vstd::prelude::*;

verus! {

/// The JSON string literal for a text, as `serde_json::to_string` writes it:
/// the text between double quotes, with the characters escaped that JSON
/// does not admit in a string.
pub uninterp spec fn json_quoted(text: Seq<char>) -> Seq<char>;

/// `serde_json::to_string` on a string slice. It always succeeds: a string
/// slice is written as a string literal into a vector of bytes, and neither
/// step can fail. The result is the JSON string literal for the text.
#[verifier::external_body]
pub(crate) fn quote(text: &str) -> (quoted: Option<String>)
    ensures
        quoted is Some,
        quoted matches Some(literal) ==> literal@ == json_quoted(text@),
{
    serde_json::to_string(text).ok()
}

} // verus!
