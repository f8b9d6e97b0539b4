//! Text styled for a terminal, by `ansi_term`.
//!
//! A styled text is the text between two escape sequences: one that switches
//! the style on, made of the style's codes, and one that resets it.

use ansi_term::{Colour, Style};
use vstd::prelude::*;

verus! {

/// A text between the sequence that switches on the style with the given
/// codes, and the sequence that resets the style.
pub open spec fn styled(codes: Seq<char>, text: Seq<char>) -> Seq<char> {
    seq!['\u{1b}', '['] + codes + seq!['m'] + text + seq!['\u{1b}', '[', '0', 'm']
}

/// A text in bold.
pub open spec fn bold(text: Seq<char>) -> Seq<char> {
    styled(seq!['1'], text)
}

/// A text in bold italics.
pub open spec fn bold_italic(text: Seq<char>) -> Seq<char> {
    styled(seq!['1', ';', '3'], text)
}

/// A text in yellow.
pub open spec fn yellow(text: Seq<char>) -> Seq<char> {
    styled(seq!['3', '3'], text)
}

/// A text in bold red.
pub open spec fn red_bold(text: Seq<char>) -> Seq<char> {
    styled(seq!['1', ';', '3', '1'], text)
}

/// `ansi_term::Style::paint` with the style `Style::new().bold()`, written
/// out as a string: the text behind the code 1 and before the reset sequence.
#[verifier::external_body]
pub(crate) fn paint_bold(text: &str) -> (painted: String)
    ensures
        painted@ == bold(text@),
{
    Style::new().bold().paint(text).to_string()
}

/// `ansi_term::Style::paint` with the style `Style::new().bold().italic()`,
/// written out as a string: the text behind the codes 1 and 3 and before the
/// reset sequence.
#[verifier::external_body]
pub(crate) fn paint_bold_italic(text: &str) -> (painted: String)
    ensures
        painted@ == bold_italic(text@),
{
    Style::new().bold().italic().paint(text).to_string()
}

/// `ansi_term::Colour::paint` on `Colour::Yellow`, written out as a string:
/// the text behind the code 33 and before the reset sequence.
#[verifier::external_body]
pub(crate) fn paint_yellow(text: &str) -> (painted: String)
    ensures
        painted@ == yellow(text@),
{
    Colour::Yellow.paint(text).to_string()
}

/// `ansi_term::Style::paint` with the style `Colour::Red.bold()`, written out
/// as a string: the text behind the codes 1 and 31 and before the reset
/// sequence.
#[verifier::external_body]
pub(crate) fn paint_red_bold(text: &str) -> (painted: String)
    ensures
        painted@ == red_bold(text@),
{
    Colour::Red.bold().paint(text).to_string()
}

} // verus!
