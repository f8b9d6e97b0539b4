use kuaa::api::{BalanceResult, GenerationResult, Usage};
use kuaa::report::{
    balance_report, generation_report, guidance, status_report, to_err, to_out, with_detail,
    Output, Stream,
};

fn out(text: &str) -> Output {
    Output { stream: Stream::Stdout, text: text.to_string() }
}

#[test]
fn a_balance_is_shown_in_full() {
    let lines = balance_report(&BalanceResult { balance: 12345 });
    assert_eq!(lines, vec![out("\u{1b}[1mK-Tokens Balance\n\u{1b}[0m: \u{1b}[1;3m12345\u{1b}[0m")]);
}

#[test]
fn a_balance_beyond_sixty_four_bits_is_shown_in_full() {
    let lines = balance_report(&BalanceResult { balance: u128::MAX });
    assert_eq!(
        lines,
        vec![out(
            "\u{1b}[1mK-Tokens Balance\n\u{1b}[0m: \u{1b}[1;3m340282366920938463463374607431768211455\u{1b}[0m"
        )]
    );
}

#[test]
fn a_generated_message_is_shown_with_its_usage() {
    let result = GenerationResult {
        content: "fix: bug".to_string(),
        usage: Usage { prompt_tokens: 10, completion_tokens: 5, total_tokens: 15 },
    };
    assert_eq!(
        generation_report(&result),
        vec![
            out("\u{1b}[1m### Git Commit Message\n\u{1b}[0m"),
            out("\u{1b}[1;3mfix: bug\u{1b}[0m"),
            out("\u{1b}[1m\n### Usage Summary\n\u{1b}[0m"),
            out("- Prompt Tokens: \u{1b}[33m10\u{1b}[0m"),
            out("- Completion Tokens: \u{1b}[33m5\u{1b}[0m"),
            out("- Total Tokens: \u{1b}[33m15\u{1b}[0m"),
        ]
    );
}

#[test]
fn an_empty_message_is_still_styled() {
    let result = GenerationResult {
        content: String::new(),
        usage: Usage { prompt_tokens: 0, completion_tokens: 0, total_tokens: u32::MAX },
    };
    let lines = generation_report(&result);
    assert_eq!(lines[1], out("\u{1b}[1;3m\u{1b}[0m"));
    assert_eq!(lines[3], out("- Prompt Tokens: \u{1b}[33m0\u{1b}[0m"));
    assert_eq!(lines[5], out("- Total Tokens: \u{1b}[33m4294967295\u{1b}[0m"));
}

#[test]
fn a_failed_status_is_shown_in_red() {
    assert_eq!(status_report(401), out("\u{1b}[1;31mFailed to send data. Status:\u{1b}[0m 401"));
    assert_eq!(status_report(503), out("\u{1b}[1;31mFailed to send data. Status:\u{1b}[0m 503"));
}

#[test]
fn the_guidance_says_how_to_set_a_key() {
    assert_eq!(
        guidance(),
        vec![
            out("KUAA_API_KEY environment variable is not set."),
            out("To set the API key, run: kuaa config api-key <YOUR_API_KEY>"),
            out("The API key must be generated on https://kuaa.tools/dashboard/panel/api-keys."),
        ]
    );
}

#[test]
fn lines_go_to_their_streams() {
    assert_eq!(to_out("a".to_string()), Output { stream: Stream::Stdout, text: "a".to_string() });
    assert_eq!(to_err("b".to_string()), Output { stream: Stream::Stderr, text: "b".to_string() });
    assert_eq!(with_detail("label: ", "detail"), "label: detail");
}
