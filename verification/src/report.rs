//! What the program prints: each message as a line for one of the two output
//! streams.

use crate::api::{BalanceResult, GenerationResult, GenerationResultView};
use crate::paint::{
    bold, bold_italic, paint_bold, paint_bold_italic, paint_red_bold, paint_yellow, red_bold,
    yellow,
};
use crate::text::{decimal, render_decimal, views};
use vstd::prelude::*;

verus! {

/// One of the two output streams.
#[derive(Clone, Copy, Debug, PartialEq, Eq, Structural)]
pub enum Stream {
    /// Standard output.
    Stdout,
    /// Standard error.
    Stderr,
}

/// A line to print: the text, without the line ending that printing adds,
/// and the stream it goes to.
#[derive(Clone, Debug, PartialEq, Eq)]
pub struct Output {
    pub stream: Stream,
    pub text: String,
}

/// A line to print, over sequences of characters.
pub struct OutputView {
    pub stream: Stream,
    pub text: Seq<char>,
}

impl View for Output {
    type V = OutputView;

    open spec fn view(&self) -> OutputView {
        OutputView { stream: self.stream, text: self.text@ }
    }
}

/// A line for standard output.
pub open spec fn out(text: Seq<char>) -> OutputView {
    OutputView { stream: Stream::Stdout, text }
}

/// A line for standard error.
pub open spec fn err(text: Seq<char>) -> OutputView {
    OutputView { stream: Stream::Stderr, text }
}

/// Makes a line for standard output.
pub fn to_out(text: String) -> (line: Output)
    ensures
        line@ == out(text@),
{
    Output { stream: Stream::Stdout, text }
}

/// Makes a line for standard error.
pub fn to_err(text: String) -> (line: Output)
    ensures
        line@ == err(text@),
{
    Output { stream: Stream::Stderr, text }
}

/// A message made of a fixed text and a detail behind it.
pub fn with_detail(label: &str, detail: &str) -> (text: String)
    ensures
        text@ == label@ + detail@,
{
    let mut text = label.to_owned();
    text.append(detail);
    text
}

/// The line that shows a balance: the heading in bold, and behind a colon
/// the balance in decimal notation, in bold italics.
pub open spec fn balance_line(balance: nat) -> Seq<char> {
    bold("K-Tokens Balance\n"@) + ": "@ + bold_italic(decimal(balance))
}

/// What is printed for a balance.
pub open spec fn balance_report_of(result: BalanceResult) -> Seq<OutputView> {
    seq![out(balance_line(result.balance as nat))]
}

/// Writes out a balance.
pub fn balance_report(result: &BalanceResult) -> (lines: Vec<Output>)
    ensures
        views(lines@) == balance_report_of(*result),
{
    let mut text = paint_bold("K-Tokens Balance\n");
    text.append(": ");
    let figure = render_decimal(result.balance);
    let painted = paint_bold_italic(figure.as_str());
    text.append(painted.as_str());
    let mut lines: Vec<Output> = Vec::new();
    lines.push(to_out(text));
    proof {
        assert(views(lines@) =~= balance_report_of(*result));
    }
    lines
}

/// A line of the usage summary: a label, and a number in yellow.
pub open spec fn usage_line(label: Seq<char>, tokens: nat) -> Seq<char> {
    label + yellow(decimal(tokens))
}

/// What is printed for a generated message: the message in bold italics
/// under its heading, and the three numbers of the usage summary.
pub open spec fn generation_report_of(result: GenerationResultView) -> Seq<OutputView> {
    seq![
        out(bold("### Git Commit Message\n"@)),
        out(bold_italic(result.content)),
        out(bold("\n### Usage Summary\n"@)),
        out(usage_line("- Prompt Tokens: "@, result.usage.prompt_tokens as nat)),
        out(usage_line("- Completion Tokens: "@, result.usage.completion_tokens as nat)),
        out(usage_line("- Total Tokens: "@, result.usage.total_tokens as nat)),
    ]
}

fn usage_output(label: &str, tokens: u32) -> (line: Output)
    ensures
        line@ == out(usage_line(label@, tokens as nat)),
{
    let figure = render_decimal(tokens as u128);
    let painted = paint_yellow(figure.as_str());
    to_out(with_detail(label, painted.as_str()))
}

/// Writes out a generated message and its usage summary.
pub fn generation_report(result: &GenerationResult) -> (lines: Vec<Output>)
    ensures
        views(lines@) == generation_report_of(result@),
{
    let mut lines: Vec<Output> = Vec::new();
    lines.push(to_out(paint_bold("### Git Commit Message\n")));
    lines.push(to_out(paint_bold_italic(result.content.as_str())));
    lines.push(to_out(paint_bold("\n### Usage Summary\n")));
    lines.push(usage_output("- Prompt Tokens: ", result.usage.prompt_tokens));
    lines.push(usage_output("- Completion Tokens: ", result.usage.completion_tokens));
    lines.push(usage_output("- Total Tokens: ", result.usage.total_tokens));
    proof {
        assert(views(lines@) =~= generation_report_of(result@));
    }
    lines
}

/// The line that reports a status code that is no success: the label in bold
/// red, and the code in decimal notation.
pub open spec fn status_line(status: u16) -> Seq<char> {
    red_bold("Failed to send data. Status:"@) + " "@ + decimal(status as nat)
}

/// Writes out a status code that is no success.
pub fn status_report(status: u16) -> (line: Output)
    ensures
        line@ == out(status_line(status)),
{
    let mut text = paint_red_bold("Failed to send data. Status:");
    text.append(" ");
    let figure = render_decimal(status as u128);
    text.append(figure.as_str());
    to_out(text)
}

/// What is printed where no API key is set: how to set one, and where to get
/// one.
pub open spec fn guidance_of() -> Seq<OutputView> {
    seq![
        out("KUAA_API_KEY environment variable is not set."@),
        out("To set the API key, run: kuaa config api-key <YOUR_API_KEY>"@),
        out("The API key must be generated on https://kuaa.tools/dashboard/panel/api-keys."@),
    ]
}

/// Writes out how to set an API key.
pub fn guidance() -> (lines: Vec<Output>)
    ensures
        views(lines@) == guidance_of(),
{
    let mut lines: Vec<Output> = Vec::new();
    lines.push(to_out("KUAA_API_KEY environment variable is not set.".to_owned()));
    lines.push(to_out("To set the API key, run: kuaa config api-key <YOUR_API_KEY>".to_owned()));
    lines.push(
        to_out(
            "The API key must be generated on https://kuaa.tools/dashboard/panel/api-keys.".to_owned(),
        ),
    );
    proof {
        assert(views(lines@) =~= guidance_of());
    }
    lines
}

} // verus!
