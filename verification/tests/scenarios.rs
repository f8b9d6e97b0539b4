use kuaa::action::{clean_commit_message, parse_action, Action};
use kuaa::api::{
    generation_request, BalanceResult, GenerationResult, PromptRequest, Usage, SERVER_URL,
};
use kuaa::credential::{save_api_key, StoreUpdate};
use kuaa::dispatch::{advance, Effect, Event, State};
use serde_json::Value;

fn balance_from(body: &str) -> BalanceResult {
    let value: Value = serde_json::from_str(body).unwrap();
    BalanceResult { balance: value["data"]["balance"].as_u64().unwrap() as u128 }
}

fn tokens(value: &Value, name: &str) -> u32 {
    value["result"]["usage"][name].as_u64().unwrap() as u32
}

fn generation_from(body: &str) -> GenerationResult {
    let value: Value = serde_json::from_str(body).unwrap();
    GenerationResult {
        content: value["result"]["content"].as_str().unwrap().to_string(),
        usage: Usage {
            prompt_tokens: tokens(&value, "prompt_tokens"),
            completion_tokens: tokens(&value, "completion_tokens"),
            total_tokens: tokens(&value, "total_tokens"),
        },
    }
}

#[test]
fn the_served_balance_is_displayed_exactly() {
    let balance = balance_from("{\"data\":{\"balance\":12345}}");
    let step = advance(State::ReadingBalance, Event::BalanceRead { balance: Ok(balance) });
    assert_eq!(step.state, State::Done);
    assert_eq!(step.effect, Effect::Halt);
    assert_eq!(step.output.len(), 1);
    assert!(step.output[0].text.ends_with(": \u{1b}[1;3m12345\u{1b}[0m"));
}

#[test]
fn the_served_generation_is_displayed_exactly() {
    let generation = generation_from(
        "{\"result\":{\"content\":\"fix: bug\",\"usage\":{\"prompt_tokens\":10,\"completion_tokens\":5,\"total_tokens\":15}}}",
    );
    let step =
        advance(State::ReadingGeneration, Event::GenerationRead { generation: Ok(generation) });
    assert_eq!(step.state, State::AwaitingAction { content: "fix: bug".to_string() });
    assert_eq!(step.effect, Effect::ReadLine);
    let texts: Vec<&str> = step.output.iter().map(|line| line.text.as_str()).collect();
    assert_eq!(texts[1], "\u{1b}[1;3mfix: bug\u{1b}[0m");
    assert_eq!(texts[3], "- Prompt Tokens: \u{1b}[33m10\u{1b}[0m");
    assert_eq!(texts[4], "- Completion Tokens: \u{1b}[33m5\u{1b}[0m");
    assert_eq!(texts[5], "- Total Tokens: \u{1b}[33m15\u{1b}[0m");
}

#[test]
fn a_status_of_401_never_leads_to_the_question() {
    let mut step = advance(State::Generating, Event::Responded { status: 401 });
    let mut printed = step.output.clone();
    let mut effects = vec![step.effect.clone()];
    for _ in 0..3 {
        step = advance(step.state, Event::LineRead { line: "c".to_string() });
        printed.extend(step.output.iter().cloned());
        effects.push(step.effect.clone());
    }
    assert!(printed.iter().all(|line| !line.text.contains("Would you like")));
    assert!(effects.iter().all(|effect| *effect == Effect::Halt));
    assert_eq!(printed.len(), 2);
}

#[test]
fn the_request_body_is_json_that_holds_the_diff_and_the_comment() {
    for (diff, comments) in [
        ("", ""),
        ("diff --git a/x b/x\n--- a/x\n+++ b/x\n@@ -1 +1 @@\n-old\n+new\n", "why not"),
        ("quote \" backslash \\ tab \t return \r bell \u{7} nul \u{0}", "{\"json\":true}"),
        ("caf\u{e9} \u{4e2d}\u{6587} \u{1f600} \u{2028}", "\u{7f}"),
    ] {
        let prompt = PromptRequest { diff: diff.to_string(), comments: comments.to_string() };
        let request = generation_request(SERVER_URL, "k", &prompt);
        let value: Value = serde_json::from_str(&request.body.unwrap()).unwrap();
        let model = &value["data"]["promptModel"];
        assert_eq!(model["type"].as_str(), Some("git-commit-message"));
        assert_eq!(model["data"]["diff"].as_str(), Some(diff));
        assert_eq!(model["data"]["comments"].as_str(), Some(comments));
        assert_eq!(value.as_object().unwrap().len(), 1);
        assert_eq!(value["data"].as_object().unwrap().len(), 1);
        assert_eq!(model.as_object().unwrap().len(), 2);
        assert_eq!(model["data"].as_object().unwrap().len(), 2);
    }
}

#[test]
fn answers_are_read_as_trimmed_and_lowered_words() {
    for answer in [
        "c", "C", "commit", "COMMIT\n", " cOmMiT\r\n", "a", "A ", "add-info", "ADD-INFO", "n",
        "nothing", "Nothing\t", "", " ", "x", "co", "commits", "add_info", "no", "\u{212a}",
        "\u{130}", "\u{ff23}", "c\u{307}", "n\u{200b}", "\u{feff}c", "\u{2003}a\u{2003}",
    ] {
        let word = answer.trim().to_lowercase();
        let expected = match word.as_str() {
            "c" | "commit" => Action::Commit,
            "a" | "add-info" => Action::AddInfo,
            "n" | "nothing" => Action::Nothing,
            _ => Action::Invalid,
        };
        assert_eq!(parse_action(answer), expected);
    }
}

#[test]
fn messages_are_cleaned_as_by_replacing_and_trimming() {
    for content in [
        "",
        "fix: bug",
        "```plaintext\nfix: bug\n```",
        "```\nfix: bug\n```\n",
        "```plaintext```",
        "````plaintext``",
        "``plaintext",
        "`` ` ```` `````plaintext",
        " \u{a0}```plain text``` \u{3000}",
        "a ```plaintext b ``` c ```plaintext",
        "```plaintex```t",
        "\n```rust\nfn main() {}\n```\n",
    ] {
        let expected = content.replace("```plaintext", "").replace("```", "").trim().to_string();
        assert_eq!(clean_commit_message(content), expected);
    }
}

#[test]
fn an_existing_key_is_rewritten_where_it_stands() {
    for (before, after) in [
        ("KUAA_API_KEY=old", "KUAA_API_KEY=new"),
        ("KUAA_API_KEY=old\n", "KUAA_API_KEY=new\n"),
        ("A=1\nKUAA_API_KEY=old\nB=2\n", "A=1\nKUAA_API_KEY=new\nB=2\n"),
        ("A=1\r\nKUAA_API_KEY=old\r\nB=2", "A=1\r\nKUAA_API_KEY=new\r\nB=2"),
        ("KUAA_API_KEY=a\nKUAA_API_KEY=b\n\n", "KUAA_API_KEY=new\n\n"),
        ("\n\nKUAA_API_KEY=\n# note\n", "\n\nKUAA_API_KEY=new\n# note\n"),
        ("x\r\r\nKUAA_API_KEY=1\ny\r", "x\r\r\nKUAA_API_KEY=new\ny\r"),
        ("KUAA_API_KEY=a\nX\nKUAA_API_KEY=b", "KUAA_API_KEY=new\nX\n"),
    ] {
        assert_eq!(
            save_api_key(before, "new"),
            StoreUpdate::Rewrite { contents: after.to_string() }
        );
    }
}
