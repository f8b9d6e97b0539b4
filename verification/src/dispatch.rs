//! The course of one invocation, as a machine: each step says what to print
//! and what to do next, and the outcome of what was done is handed back as
//! an event. The machine itself reads and writes nothing.

use crate::action::{action_of, clean_commit_message, cleaned, parse_action, Action};
use crate::api::{
    balance_request, balance_request_of, check_status, generation_request,
    generation_request_of, is_success, message_of, ApiError, ApiErrorView, BalanceResult,
    GenerationResult, GenerationResultView, HttpRequest, HttpRequestView, PromptRequest,
};
use crate::credential::{
    ensure_api_key, option_view, save_api_key, update_of, usable, StoreUpdate, StoreUpdateView,
};
use crate::diff::{run_view, diff_of, staged_diff, DiffRun, DiffRunView};
use crate::json::json_quoted;
use crate::report::{
    balance_report, balance_report_of, err, generation_report, generation_report_of, guidance,
    guidance_of, out, status_line, status_report, to_err, to_out, with_detail, Output,
    OutputView,
};
use crate::text::views;
use vstd::prelude::*;

verus! {

/// What the program is asked to do.
#[derive(Clone, Debug, PartialEq, Eq)]
pub enum Command {
    /// Store the API key.
    SetApiKey { key: String },
    /// Generate a commit message for the staged changes, with an optional
    /// comment.
    GenerateCommitMessage { comment: Option<String> },
    /// Show the balance.
    Balance,
}

/// A command over sequences of characters.
pub enum CommandView {
    SetApiKey { key: Seq<char> },
    GenerateCommitMessage { comment: Option<Seq<char>> },
    Balance,
}

impl View for Command {
    type V = CommandView;

    open spec fn view(&self) -> CommandView {
        match self {
            Command::SetApiKey { key } => CommandView::SetApiKey { key: key@ },
            Command::GenerateCommitMessage { comment } => CommandView::GenerateCommitMessage {
                comment: option_view(*comment),
            },
            Command::Balance => CommandView::Balance,
        }
    }
}

/// Where the invocation stands: what it is waiting for.
#[derive(Clone, Debug, PartialEq, Eq)]
pub enum State {
    /// The store's contents, to put `key` in.
    ReadingStore { key: String },
    /// The outcome of writing the store.
    WritingStore,
    /// The staged changes, to ask the service at `base` with `key`.
    CapturingDiff { base: String, key: String, comment: String },
    /// The status of the generation call.
    Generating,
    /// The body of the service's answer to the generation call.
    ReadingGeneration,
    /// The user's choice of what to do with the message `content`.
    AwaitingAction { content: String },
    /// The user's further information.
    AwaitingInfo,
    /// The end of the commit.
    Committing,
    /// The status of the balance call.
    FetchingBalance,
    /// The body of the service's answer to the balance call.
    ReadingBalance,
    /// Nothing: the invocation is over.
    Done,
}

/// A state over sequences of characters.
pub enum StateView {
    ReadingStore { key: Seq<char> },
    WritingStore,
    CapturingDiff { base: Seq<char>, key: Seq<char>, comment: Seq<char> },
    Generating,
    ReadingGeneration,
    AwaitingAction { content: Seq<char> },
    AwaitingInfo,
    Committing,
    FetchingBalance,
    ReadingBalance,
    Done,
}

impl View for State {
    type V = StateView;

    open spec fn view(&self) -> StateView {
        match self {
            State::ReadingStore { key } => StateView::ReadingStore { key: key@ },
            State::WritingStore => StateView::WritingStore,
            State::CapturingDiff { base, key, comment } => StateView::CapturingDiff {
                base: base@,
                key: key@,
                comment: comment@,
            },
            State::Generating => StateView::Generating,
            State::ReadingGeneration => StateView::ReadingGeneration,
            State::AwaitingAction { content } => StateView::AwaitingAction { content: content@ },
            State::AwaitingInfo => StateView::AwaitingInfo,
            State::Committing => StateView::Committing,
            State::FetchingBalance => StateView::FetchingBalance,
            State::ReadingBalance => StateView::ReadingBalance,
            State::Done => StateView::Done,
        }
    }
}

/// What is to be done before the machine can go on.
#[derive(Clone, Debug, PartialEq, Eq)]
pub enum Effect {
    /// Read the store's contents.
    ReadStore,
    /// Change the store.
    WriteStore { update: StoreUpdate },
    /// Run the version-control tool for the staged changes.
    CaptureDiff,
    /// Send a request to the service.
    Send { request: HttpRequest },
    /// Read the body of the answer as a generation result.
    ReadGeneration,
    /// Read the body of the answer as a balance.
    ReadBalance,
    /// Read a line that the user types.
    ReadLine,
    /// Commit with the given message.
    Commit { message: String },
    /// Stop.
    Halt,
}

/// An effect over sequences of characters.
pub enum EffectView {
    ReadStore,
    WriteStore { update: StoreUpdateView },
    CaptureDiff,
    Send { request: HttpRequestView },
    ReadGeneration,
    ReadBalance,
    ReadLine,
    Commit { message: Seq<char> },
    Halt,
}

impl View for Effect {
    type V = EffectView;

    open spec fn view(&self) -> EffectView {
        match self {
            Effect::ReadStore => EffectView::ReadStore,
            Effect::WriteStore { update } => EffectView::WriteStore { update: update@ },
            Effect::CaptureDiff => EffectView::CaptureDiff,
            Effect::Send { request } => EffectView::Send { request: request@ },
            Effect::ReadGeneration => EffectView::ReadGeneration,
            Effect::ReadBalance => EffectView::ReadBalance,
            Effect::ReadLine => EffectView::ReadLine,
            Effect::Commit { message } => EffectView::Commit { message: message@ },
            Effect::Halt => EffectView::Halt,
        }
    }
}

/// The outcome of what was done.
#[derive(Debug, PartialEq, Eq)]
pub enum Event {
    /// The store was read; `None` where it could not be.
    StoreRead { contents: Option<String> },
    /// The store was written, or could not be, for the reason given.
    StoreWritten { failure: Option<String> },
    /// The version-control tool was run; `None` where it could not be.
    DiffCaptured { run: Option<DiffRun> },
    /// The service answered with a status code.
    Responded { status: u16 },
    /// The service could not be reached, for the reason given.
    Unreachable { reason: String },
    /// The body was read as a generation result, or could not be, for the
    /// reason given.
    GenerationRead { generation: Result<GenerationResult, String> },
    /// The body was read as a balance, or could not be, for the reason given.
    BalanceRead { balance: Result<BalanceResult, String> },
    /// The user typed a line.
    LineRead { line: String },
    /// The commit was made.
    Committed,
}

/// An event over sequences of characters.
pub enum EventView {
    StoreRead { contents: Option<Seq<char>> },
    StoreWritten { failure: Option<Seq<char>> },
    DiffCaptured { run: Option<DiffRunView> },
    Responded { status: u16 },
    Unreachable { reason: Seq<char> },
    GenerationRead { generation: Result<GenerationResultView, Seq<char>> },
    BalanceRead { balance: Result<BalanceResult, Seq<char>> },
    LineRead { line: Seq<char> },
    Committed,
}

impl View for Event {
    type V = EventView;

    open spec fn view(&self) -> EventView {
        match self {
            Event::StoreRead { contents } => EventView::StoreRead {
                contents: option_view(*contents),
            },
            Event::StoreWritten { failure } => EventView::StoreWritten {
                failure: option_view(*failure),
            },
            Event::DiffCaptured { run } => EventView::DiffCaptured {
                run: run_view(*run),
            },
            Event::Responded { status } => EventView::Responded { status: *status },
            Event::Unreachable { reason } => EventView::Unreachable { reason: reason@ },
            Event::GenerationRead { generation } => EventView::GenerationRead {
                generation: match generation {
                    Ok(result) => Ok(result@),
                    Err(reason) => Err(reason@),
                },
            },
            Event::BalanceRead { balance } => EventView::BalanceRead {
                balance: match balance {
                    Ok(result) => Ok(*result),
                    Err(reason) => Err(reason@),
                },
            },
            Event::LineRead { line } => EventView::LineRead { line: line@ },
            Event::Committed => EventView::Committed,
        }
    }
}

/// One step of the machine: the lines to print, then what to do, and the
/// state in which the outcome is awaited.
#[derive(Clone, Debug, PartialEq, Eq)]
pub struct Step {
    pub state: State,
    pub output: Vec<Output>,
    pub effect: Effect,
}

/// A step over sequences of characters.
pub struct StepView {
    pub state: StateView,
    pub output: Seq<OutputView>,
    pub effect: EffectView,
}

impl View for Step {
    type V = StepView;

    open spec fn view(&self) -> StepView {
        StepView { state: self.state@, output: views(self.output@), effect: self.effect@ }
    }
}

/// The step that prints the given lines and ends the invocation.
pub open spec fn halted(output: Seq<OutputView>) -> StepView {
    StepView { state: StateView::Done, output, effect: EffectView::Halt }
}

/// The question what to do with the generated message.
pub open spec fn question() -> Seq<char> {
    "Would you like to perform any actions? [[c]ommit, [a]dd-info, [n]othing]"@
}

/// The answer to a choice that names no action.
pub open spec fn invalid_action() -> Seq<char> {
    "Invalid action. Please choose [[c]ommit, [a]dd-info, [n]othing]"@
}

/// The report that the generation call failed.
pub open spec fn generation_failure(error: ApiErrorView) -> OutputView {
    err("Failed to send git diff: "@ + message_of(error))
}

/// The report that the balance call failed.
pub open spec fn balance_failure(error: ApiErrorView) -> OutputView {
    err("Failed to fetch balance: "@ + message_of(error))
}

/// The text of an optional string, empty where there is none.
pub open spec fn text_or_empty(text: Option<Seq<char>>) -> Seq<char> {
    match text {
        Some(given) => given,
        None => Seq::empty(),
    }
}

/// The first step of an invocation. The credential is the API key as it was
/// looked up; a command that calls the service goes no further than the
/// guidance where the key is unset or empty.
pub open spec fn begin(
    base: Seq<char>,
    command: CommandView,
    credential: Option<Seq<char>>,
) -> StepView {
    match command {
        CommandView::SetApiKey { key } => StepView {
            state: StateView::ReadingStore { key },
            output: seq![out("Setting API key to: "@ + key)],
            effect: EffectView::ReadStore,
        },
        CommandView::GenerateCommitMessage { comment } => if usable(credential) {
            StepView {
                state: StateView::CapturingDiff {
                    base,
                    key: credential->0,
                    comment: text_or_empty(comment),
                },
                output: Seq::empty(),
                effect: EffectView::CaptureDiff,
            }
        } else {
            halted(guidance_of())
        },
        CommandView::Balance => if usable(credential) {
            StepView {
                state: StateView::FetchingBalance,
                output: Seq::empty(),
                effect: EffectView::Send { request: balance_request_of(base, credential->0) },
            }
        } else {
            halted(guidance_of())
        },
    }
}

/// The step that follows a generated message once the user has answered.
pub open spec fn chosen(content: Seq<char>, answer: Seq<char>) -> StepView {
    match action_of(answer) {
        Action::Commit => StepView {
            state: StateView::Committing,
            output: seq![
                out("Committing with the generated message..."@),
                out("Commit message: "@ + cleaned(content)),
            ],
            effect: EffectView::Commit { message: cleaned(content) },
        },
        Action::AddInfo => StepView {
            state: StateView::AwaitingInfo,
            output: seq![out("Please input more information:"@)],
            effect: EffectView::ReadLine,
        },
        Action::Nothing => halted(seq![out("Finishing the process."@)]),
        Action::Invalid => halted(seq![out(invalid_action())]),
    }
}

/// The step that follows when `event` arrives in `state`. An event that the
/// state does not wait for ends the invocation.
pub open spec fn next(state: StateView, event: EventView) -> StepView {
    match (state, event) {
        (StateView::ReadingStore { key }, EventView::StoreRead { contents }) => StepView {
            state: StateView::WritingStore,
            output: Seq::empty(),
            effect: EffectView::WriteStore { update: update_of(text_or_empty(contents), key) },
        },
        (StateView::WritingStore, EventView::StoreWritten { failure }) => match failure {
            Some(reason) => halted(
                seq![err("Failed to save API key to .env file: "@ + reason)],
            ),
            None => halted(Seq::empty()),
        },
        (
            StateView::CapturingDiff { base, key, comment },
            EventView::DiffCaptured { run },
        ) => StepView {
            state: StateView::Generating,
            output: Seq::empty(),
            effect: EffectView::Send {
                request: generation_request_of(
                    base,
                    key,
                    json_quoted(diff_of(run)),
                    json_quoted(comment),
                ),
            },
        },
        (StateView::Generating, EventView::Responded { status }) => if is_success(status) {
            StepView {
                state: StateView::ReadingGeneration,
                output: Seq::empty(),
                effect: EffectView::ReadGeneration,
            }
        } else {
            halted(
                seq![
                    out(status_line(status)),
                    generation_failure(ApiErrorView::Status { code: status }),
                ],
            )
        },
        (StateView::Generating, EventView::Unreachable { reason }) => halted(
            seq![generation_failure(ApiErrorView::Transport { reason })],
        ),
        (StateView::ReadingGeneration, EventView::GenerationRead { generation }) => match generation {
            Ok(result) => StepView {
                state: StateView::AwaitingAction { content: result.content },
                output: generation_report_of(result).push(out(question())),
                effect: EffectView::ReadLine,
            },
            Err(reason) => halted(seq![generation_failure(ApiErrorView::Transport { reason })]),
        },
        (StateView::AwaitingAction { content }, EventView::LineRead { line }) => chosen(
            content,
            line,
        ),
        (StateView::AwaitingInfo, EventView::LineRead { line }) => halted(Seq::empty()),
        (StateView::Committing, EventView::Committed) => halted(Seq::empty()),
        (StateView::FetchingBalance, EventView::Responded { status }) => if is_success(status) {
            StepView {
                state: StateView::ReadingBalance,
                output: Seq::empty(),
                effect: EffectView::ReadBalance,
            }
        } else {
            halted(seq![out(status_line(status))])
        },
        (StateView::FetchingBalance, EventView::Unreachable { reason }) => halted(
            seq![balance_failure(ApiErrorView::Transport { reason })],
        ),
        (StateView::ReadingBalance, EventView::BalanceRead { balance }) => match balance {
            Ok(result) => halted(balance_report_of(result)),
            Err(reason) => halted(seq![balance_failure(ApiErrorView::Transport { reason })]),
        },
        _ => halted(Seq::empty()),
    }
}

fn halt(output: Vec<Output>) -> (step: Step)
    ensures
        step@ == halted(views(output@)),
{
    Step { state: State::Done, output, effect: Effect::Halt }
}

fn one(line: Output) -> (lines: Vec<Output>)
    ensures
        views(lines@) == seq![line@],
{
    let mut lines: Vec<Output> = Vec::new();
    lines.push(line);
    proof {
        assert(views(lines@) =~= seq![line@]);
    }
    lines
}

fn none() -> (lines: Vec<Output>)
    ensures
        views(lines@) == Seq::<OutputView>::empty(),
{
    let lines: Vec<Output> = Vec::new();
    proof {
        assert(views(lines@) =~= Seq::<OutputView>::empty());
    }
    lines
}

fn generation_failed(error: &ApiError) -> (line: Output)
    ensures
        line@ == generation_failure(error@),
{
    let detail = error.message();
    to_err(with_detail("Failed to send git diff: ", detail.as_str()))
}

fn balance_failed(error: &ApiError) -> (line: Output)
    ensures
        line@ == balance_failure(error@),
{
    let detail = error.message();
    to_err(with_detail("Failed to fetch balance: ", detail.as_str()))
}

/// Takes the first step of an invocation: for the service at `base`, the
/// given command, and the API key as it was looked up.
pub fn start(base: &str, command: Command, credential: Option<String>) -> (step: Step)
    ensures
        step@ == begin(base@, command@, option_view(credential)),
{
    match command {
        Command::SetApiKey { key } => {
            let line = to_out(with_detail("Setting API key to: ", key.as_str()));
            Step { state: State::ReadingStore { key }, output: one(line), effect: Effect::ReadStore }
        },
        Command::GenerateCommitMessage { comment } => match ensure_api_key(credential) {
            Some(key) => {
                let comment = match comment {
                    Some(given) => given,
                    None => String::new(),
                };
                Step {
                    state: State::CapturingDiff { base: base.to_owned(), key, comment },
                    output: none(),
                    effect: Effect::CaptureDiff,
                }
            },
            None => halt(guidance()),
        },
        Command::Balance => match ensure_api_key(credential) {
            Some(key) => Step {
                state: State::FetchingBalance,
                output: none(),
                effect: Effect::Send { request: balance_request(base, key.as_str()) },
            },
            None => halt(guidance()),
        },
    }
}

/// Takes the step that follows a generated message once the user has
/// answered the question what to do with it.
pub fn handle_commit_message(content: &str, answer: &str) -> (step: Step)
    ensures
        step@ == chosen(content@, answer@),
{
    match parse_action(answer) {
        Action::Commit => {
            let message = clean_commit_message(content);
            let mut lines: Vec<Output> = Vec::new();
            lines.push(to_out("Committing with the generated message...".to_owned()));
            lines.push(to_out(with_detail("Commit message: ", message.as_str())));
            proof {
                assert(views(lines@) =~= seq![
                    out("Committing with the generated message..."@),
                    out("Commit message: "@ + cleaned(content@)),
                ]);
            }
            Step { state: State::Committing, output: lines, effect: Effect::Commit { message } }
        },
        Action::AddInfo => Step {
            state: State::AwaitingInfo,
            output: one(to_out("Please input more information:".to_owned())),
            effect: Effect::ReadLine,
        },
        Action::Nothing => halt(one(to_out("Finishing the process.".to_owned()))),
        Action::Invalid => halt(
            one(to_out("Invalid action. Please choose [[c]ommit, [a]dd-info, [n]othing]".to_owned())),
        ),
    }
}

/// Takes the step that follows when `event` arrives in `state`.
pub fn advance(state: State, event: Event) -> (step: Step)
    ensures
        step@ == next(state@, event@),
{
    match state {
        State::ReadingStore { key } => match event {
            Event::StoreRead { contents } => {
                let contents = match contents {
                    Some(given) => given,
                    None => String::new(),
                };
                Step {
                    state: State::WritingStore,
                    output: none(),
                    effect: Effect::WriteStore {
                        update: save_api_key(contents.as_str(), key.as_str()),
                    },
                }
            },
            _ => halt(none()),
        },
        State::WritingStore => match event {
            Event::StoreWritten { failure } => match failure {
                Some(reason) => halt(
                    one(
                        to_err(
                            with_detail("Failed to save API key to .env file: ", reason.as_str()),
                        ),
                    ),
                ),
                None => halt(none()),
            },
            _ => halt(none()),
        },
        State::CapturingDiff { base, key, comment } => match event {
            Event::DiffCaptured { run } => {
                let prompt = PromptRequest { diff: staged_diff(run), comments: comment };
                Step {
                    state: State::Generating,
                    output: none(),
                    effect: Effect::Send {
                        request: generation_request(base.as_str(), key.as_str(), &prompt),
                    },
                }
            },
            _ => halt(none()),
        },
        State::Generating => match event {
            Event::Responded { status } => match check_status(status) {
                Ok(()) => Step {
                    state: State::ReadingGeneration,
                    output: none(),
                    effect: Effect::ReadGeneration,
                },
                Err(error) => {
                    let mut lines: Vec<Output> = Vec::new();
                    lines.push(status_report(status));
                    lines.push(generation_failed(&error));
                    proof {
                        assert(views(lines@) =~= seq![
                            out(status_line(status)),
                            generation_failure(ApiErrorView::Status { code: status }),
                        ]);
                    }
                    halt(lines)
                },
            },
            Event::Unreachable { reason } => halt(
                one(generation_failed(&ApiError::Transport { reason })),
            ),
            _ => halt(none()),
        },
        State::ReadingGeneration => match event {
            Event::GenerationRead { generation } => match generation {
                Ok(result) => {
                    let mut lines = generation_report(&result);
                    let ghost report = lines@;
                    lines.push(
                        to_out(
                            "Would you like to perform any actions? [[c]ommit, [a]dd-info, [n]othing]".to_owned(),
                        ),
                    );
                    proof {
                        assert(views(lines@) =~= views(report).push(out(question())));
                    }
                    Step {
                        state: State::AwaitingAction { content: result.content },
                        output: lines,
                        effect: Effect::ReadLine,
                    }
                },
                Err(reason) => halt(one(generation_failed(&ApiError::Transport { reason }))),
            },
            _ => halt(none()),
        },
        State::AwaitingAction { content } => match event {
            Event::LineRead { line } => handle_commit_message(content.as_str(), line.as_str()),
            _ => halt(none()),
        },
        State::AwaitingInfo => halt(none()),
        State::Committing => halt(none()),
        State::FetchingBalance => match event {
            Event::Responded { status } => match check_status(status) {
                Ok(()) => Step {
                    state: State::ReadingBalance,
                    output: none(),
                    effect: Effect::ReadBalance,
                },
                Err(_) => halt(one(status_report(status))),
            },
            Event::Unreachable { reason } => halt(
                one(balance_failed(&ApiError::Transport { reason })),
            ),
            _ => halt(none()),
        },
        State::ReadingBalance => match event {
            Event::BalanceRead { balance } => match balance {
                Ok(result) => halt(balance_report(&result)),
                Err(reason) => halt(one(balance_failed(&ApiError::Transport { reason }))),
            },
            _ => halt(none()),
        },
        State::Done => halt(none()),
    }
}

/// How many steps an invocation can take from a state, at most.
pub open spec fn remaining(state: StateView) -> nat {
    match state {
        StateView::Done => 0,
        StateView::WritingStore => 1,
        StateView::AwaitingInfo => 1,
        StateView::Committing => 1,
        StateView::ReadingBalance => 1,
        StateView::ReadingStore { .. } => 2,
        StateView::AwaitingAction { .. } => 2,
        StateView::FetchingBalance => 2,
        StateView::ReadingGeneration => 3,
        StateView::Generating => 4,
        StateView::CapturingDiff { .. } => 5,
    }
}

/// Every step brings the invocation nearer to its end, whatever the event:
/// no state is ever reached a second time. A step stops exactly when the
/// invocation is over, and once it is over it stays so, in silence.
pub proof fn lemma_steps_run_out(state: StateView, event: EventView)
    ensures
        !(state is Done) ==> remaining(next(state, event).state) < remaining(state),
        next(state, event).effect is Halt <==> next(state, event).state is Done,
        state is Done ==> next(state, event) == halted(Seq::empty()),
{
}

/// The user is asked what to do only once a generated message has been read:
/// no other step leads to the state that waits for the answer, and the
/// answer, whatever it is, leads away from it.
pub proof fn lemma_asked_once(state: StateView, event: EventView)
    ensures
        next(state, event).state is AwaitingAction ==> state is ReadingGeneration && (
        event matches EventView::GenerationRead { generation } && generation is Ok),
        state is AwaitingAction ==> !(next(state, event).state is AwaitingAction),
{
}

/// An answer that names no action ends the invocation with one line, which
/// says so; the question is not asked again.
pub proof fn lemma_invalid_answer(content: Seq<char>, answer: Seq<char>)
    requires
        action_of(answer) == Action::Invalid,
    ensures
        next(StateView::AwaitingAction { content }, EventView::LineRead { line: answer })
            == halted(seq![out(invalid_action())]),
{
}

/// Where the staged changes could not be captured, the generation request is
/// sent all the same, with no changes in it.
pub proof fn lemma_failed_capture(
    base: Seq<char>,
    key: Seq<char>,
    comment: Seq<char>,
    run: Option<DiffRunView>,
)
    requires
        run matches Some(taken) ==> !taken.success || taken.output.len() == 0,
    ensures
        next(StateView::CapturingDiff { base, key, comment }, EventView::DiffCaptured { run })
            == (StepView {
            state: StateView::Generating,
            output: Seq::empty(),
            effect: EffectView::Send {
                request: generation_request_of(
                    base,
                    key,
                    json_quoted(Seq::empty()),
                    json_quoted(comment),
                ),
            },
        }),
{
    assert(diff_of(run) =~= Seq::<char>::empty());
}

/// A generation call that the service answers with a status that is no
/// success ends the invocation: the failure is reported, the question what to
/// do is not among the lines printed, and nothing is read from the user.
pub proof fn lemma_rejected_generation(status: u16)
    requires
        !is_success(status),
    ensures
        next(StateView::Generating, EventView::Responded { status }) == halted(
            seq![
                out(status_line(status)),
                generation_failure(ApiErrorView::Status { code: status }),
            ],
        ),
        forall|i: int|
            0 <= i < next(StateView::Generating, EventView::Responded { status }).output.len()
                ==> #[trigger] next(
                StateView::Generating,
                EventView::Responded { status },
            ).output[i] != out(question()),
{
    reveal_strlit("Would you like to perform any actions? [[c]ommit, [a]dd-info, [n]othing]");
    let lines = next(StateView::Generating, EventView::Responded { status }).output;
    assert(status_line(status)[0] == '\u{1b}');
    assert(question()[0] == 'W');
}

} // verus!
