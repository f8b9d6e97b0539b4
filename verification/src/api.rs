//! The two calls of the remote service: what is sent, and what a call
//! yields.

use crate::json::{json_quoted, quote};
use crate::text::{decimal, render_decimal};
use vstd::prelude::*;

verus! {

/// The address of the service.
pub const SERVER_URL: &'static str = "https://kuaa.tools";

/// How many tokens a generation took.
#[derive(Clone, Copy, Debug, PartialEq, Eq, Structural)]
pub struct Usage {
    pub prompt_tokens: u32,
    pub completion_tokens: u32,
    pub total_tokens: u32,
}

/// What a successful generation yields.
#[derive(Clone, Debug, PartialEq, Eq)]
pub struct GenerationResult {
    pub content: String,
    pub usage: Usage,
}

/// A generation result over sequences of characters.
pub struct GenerationResultView {
    pub content: Seq<char>,
    pub usage: Usage,
}

impl View for GenerationResult {
    type V = GenerationResultView;

    open spec fn view(&self) -> GenerationResultView {
        GenerationResultView { content: self.content@, usage: self.usage }
    }
}

/// What a successful balance query yields.
#[derive(Clone, Copy, Debug, PartialEq, Eq, Structural)]
pub struct BalanceResult {
    pub balance: u128,
}

/// What a generation is asked for: the staged changes and a free comment.
#[derive(Clone, Debug, PartialEq, Eq)]
pub struct PromptRequest {
    pub diff: String,
    pub comments: String,
}

/// The method of a request.
#[derive(Clone, Copy, Debug, PartialEq, Eq, Structural)]
pub enum Method {
    Get,
    Post,
}

/// A request to the service: where it goes, the two headers it carries, and
/// its body if it has one.
#[derive(Clone, Debug, PartialEq, Eq)]
pub struct HttpRequest {
    pub method: Method,
    pub url: String,
    pub authorization: String,
    pub content_type: String,
    pub body: Option<String>,
}

/// A request over sequences of characters.
pub struct HttpRequestView {
    pub method: Method,
    pub url: Seq<char>,
    pub authorization: Seq<char>,
    pub content_type: Seq<char>,
    pub body: Option<Seq<char>>,
}

impl View for HttpRequest {
    type V = HttpRequestView;

    open spec fn view(&self) -> HttpRequestView {
        HttpRequestView {
            method: self.method,
            url: self.url@,
            authorization: self.authorization@,
            content_type: self.content_type@,
            body: match self.body {
                Some(text) => Some(text@),
                None => None,
            },
        }
    }
}

/// The value of the authorization header for a key.
pub open spec fn bearer(key: Seq<char>) -> Seq<char> {
    "Bearer "@ + key
}

/// The request that asks for the balance.
pub open spec fn balance_request_of(base: Seq<char>, key: Seq<char>) -> HttpRequestView {
    HttpRequestView {
        method: Method::Get,
        url: base + "/api/ktokens/balance"@,
        authorization: bearer(key),
        content_type: "application/json"@,
        body: None,
    }
}

/// The body of a generation request, from the JSON string literals of the
/// staged changes and of the comment.
pub open spec fn prompt_body(diff_literal: Seq<char>, comments_literal: Seq<char>) -> Seq<char> {
    "{\"data\":{\"promptModel\":{\"type\":\"git-commit-message\",\"data\":{\"diff\":"@
        + diff_literal + ",\"comments\":"@ + comments_literal + "}}}}"@
}

/// The request that asks for a commit message, from the JSON string literals
/// of the staged changes and of the comment.
pub open spec fn generation_request_of(
    base: Seq<char>,
    key: Seq<char>,
    diff_literal: Seq<char>,
    comments_literal: Seq<char>,
) -> HttpRequestView {
    HttpRequestView {
        method: Method::Post,
        url: base + "/api/prompt"@,
        authorization: bearer(key),
        content_type: "application/json"@,
        body: Some(prompt_body(diff_literal, comments_literal)),
    }
}

/// Why a call of the service yielded nothing.
#[derive(Clone, Debug, PartialEq, Eq)]
pub enum ApiError {
    /// The service answered with a status code that is no success.
    Status { code: u16 },
    /// The service could not be reached, or its answer could not be read,
    /// for the reason given.
    Transport { reason: String },
}

/// An error over sequences of characters.
pub enum ApiErrorView {
    Status { code: u16 },
    Transport { reason: Seq<char> },
}

impl View for ApiError {
    type V = ApiErrorView;

    open spec fn view(&self) -> ApiErrorView {
        match self {
            ApiError::Status { code } => ApiErrorView::Status { code: *code },
            ApiError::Transport { reason } => ApiErrorView::Transport { reason: reason@ },
        }
    }
}

/// What an error is reported as: the status code in decimal notation, or the
/// reason as it was given.
pub open spec fn message_of(error: ApiErrorView) -> Seq<char> {
    match error {
        ApiErrorView::Status { code } => "HTTP status "@ + decimal(code as nat),
        ApiErrorView::Transport { reason } => reason,
    }
}

impl ApiError {
    /// Writes out what the error is reported as.
    pub fn message(&self) -> (text: String)
        ensures
            text@ == message_of(self@),
    {
        match self {
            ApiError::Status { code } => {
                let mut text = "HTTP status ".to_owned();
                let figure = render_decimal(*code as u128);
                text.append(figure.as_str());
                text
            },
            ApiError::Transport { reason } => reason.clone(),
        }
    }
}

/// Whether a status code reports success.
pub open spec fn is_success(status: u16) -> bool {
    200 <= status < 300
}

/// Tests a status code for success.
pub fn succeeded(status: u16) -> (success: bool)
    ensures
        success == is_success(status),
{
    200 <= status && status < 300
}

/// Judges the status code of an answer: a code that is no success is the
/// error of the call.
pub fn check_status(status: u16) -> (outcome: Result<(), ApiError>)
    ensures
        is_success(status) ==> outcome is Ok,
        !is_success(status) ==> (outcome matches Err(error) && error@ == (ApiErrorView::Status {
            code: status,
        })),
{
    if succeeded(status) {
        Ok(())
    } else {
        Err(ApiError::Status { code: status })
    }
}

fn bearer_header(key: &str) -> (value: String)
    ensures
        value@ == bearer(key@),
{
    let mut value = "Bearer ".to_owned();
    value.append(key);
    value
}

/// Builds the request that asks for the balance.
pub fn balance_request(base: &str, key: &str) -> (request: HttpRequest)
    ensures
        request@ == balance_request_of(base@, key@),
{
    let mut url = base.to_owned();
    url.append("/api/ktokens/balance");
    HttpRequest {
        method: Method::Get,
        url,
        authorization: bearer_header(key),
        content_type: "application/json".to_owned(),
        body: None,
    }
}

/// Builds the request that asks for a commit message, from the JSON string
/// literals of the staged changes and of the comment.
pub fn assemble_generation_request(
    base: &str,
    key: &str,
    diff_literal: &str,
    comments_literal: &str,
) -> (request: HttpRequest)
    ensures
        request@ == generation_request_of(base@, key@, diff_literal@, comments_literal@),
{
    let mut url = base.to_owned();
    url.append("/api/prompt");
    let mut body =
        "{\"data\":{\"promptModel\":{\"type\":\"git-commit-message\",\"data\":{\"diff\":".to_owned();
    body.append(diff_literal);
    body.append(",\"comments\":");
    body.append(comments_literal);
    body.append("}}}}");
    HttpRequest {
        method: Method::Post,
        url,
        authorization: bearer_header(key),
        content_type: "application/json".to_owned(),
        body: Some(body),
    }
}

/// Builds the request that asks for a commit message for the given staged
/// changes and comment.
pub fn generation_request(base: &str, key: &str, prompt: &PromptRequest) -> (request: HttpRequest)
    ensures
        request@ == generation_request_of(
            base@,
            key@,
            json_quoted(prompt.diff@),
            json_quoted(prompt.comments@),
        ),
{
    let diff_literal = quote(prompt.diff.as_str()).unwrap();
    let comments_literal = quote(prompt.comments.as_str()).unwrap();
    assemble_generation_request(base, key, diff_literal.as_str(), comments_literal.as_str())
}

} // verus!
