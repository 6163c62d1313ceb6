//! `chat`: a conversation, turn by turn.
//!
//! A turn is a chain of segments, as in `run`, but with no limit on its depth
//! other than that of the segments themselves. Lines that begin with a slash
//! are commands.
use vstd::prelude::*;

use crate::agent::handoff::{build_new_segment_prompt, HandoffDecision};
use crate::agent::handoff;
use crate::agent::loop_::{ResultModel, SegmentResult, SegmentStatus};
use crate::cli::chat_text::{
    available_models_text,
    endpoint_text,
    help_text,
    mcp_text,
    print_help,
    unknown_command,
};
use crate::cli::chat_text;
use crate::cli::run_cmd::{add_tokens, merge};
use crate::cli::run_cmd;
use crate::cli::stream::{render_content, strip_ansi};
use crate::cli::stream;
use crate::config::{Config, ConfigModel, EndpointConfig, EndpointModel};
use crate::endpoint::put_endpoint;
use crate::endpoint;
use crate::i18n::{say1, say2, translate, Language};
use crate::i18n;
use crate::llm::{ChatRequest, Message, RequestModel};
use crate::llm;
use crate::session::{Session, SessionModel, TurnModel, TurnRecord};
use crate::session;
use crate::slash;
use crate::text;

verus! {

/// The code of a conversation that was ended.
pub const EXIT_OK: i32 = 0;

/// The code of a conversation that could not go on.
pub const EXIT_ERROR: i32 = 1;

/// The code of a conversation that was interrupted.
pub const EXIT_INTERRUPTED: i32 = 130;

// ---------------------------------------------------------------------------
// A turn
// ---------------------------------------------------------------------------

/// What a turn came to.
pub struct TurnResult {
    pub exit_code: i32,
    pub assistant_content: String,
    pub reasoning_content: String,
    pub input_tokens: u64,
    pub output_tokens: u64,
    pub duration_ms: u64,
    pub files_touched: Vec<String>,
}

/// The model of what a turn came to.
pub struct TurnResultModel {
    pub exit_code: i32,
    pub content: Seq<char>,
    pub reasoning: Seq<char>,
    pub input_tokens: u64,
    pub output_tokens: u64,
    pub duration_ms: u64,
    pub files_touched: Seq<Seq<char>>,
}

impl View for TurnResult {
    type V = TurnResultModel;

    open spec fn view(&self) -> TurnResultModel {
        TurnResultModel {
            exit_code: self.exit_code,
            content: self.assistant_content@,
            reasoning: self.reasoning_content@,
            input_tokens: self.input_tokens,
            output_tokens: self.output_tokens,
            duration_ms: self.duration_ms,
            files_touched: text::views(self.files_touched@),
        }
    }
}

/// A turn in progress.
pub struct Turn {
    /// The handoffs so far, which is also the number of the next segment.
    pub depth: u32,
    /// The prompt of the next segment.
    pub prompt: String,
    /// The run that the next segment follows.
    pub parent_run_id: Option<i64>,
    pub run_ids: Vec<i64>,
    pub files_touched: Vec<String>,
    pub input_tokens: u64,
    pub output_tokens: u64,
    pub reasoning: String,
    /// The last answer that was not blank.
    pub content: String,
    pub statuses: Vec<SegmentStatus>,
}

/// The model of a turn in progress.
pub struct TurnStateModel {
    pub depth: u32,
    pub prompt: Seq<char>,
    pub parent_run_id: Option<i64>,
    pub run_ids: Seq<i64>,
    pub files_touched: Seq<Seq<char>>,
    pub input_tokens: u64,
    pub output_tokens: u64,
    pub reasoning: Seq<char>,
    pub content: Seq<char>,
    pub statuses: Seq<SegmentStatus>,
}

impl View for Turn {
    type V = TurnStateModel;

    open spec fn view(&self) -> TurnStateModel {
        TurnStateModel {
            depth: self.depth,
            prompt: self.prompt@,
            parent_run_id: self.parent_run_id,
            run_ids: self.run_ids@,
            files_touched: text::views(self.files_touched@),
            input_tokens: self.input_tokens,
            output_tokens: self.output_tokens,
            reasoning: self.reasoning@,
            content: self.content@,
            statuses: self.statuses@,
        }
    }
}

/// The beginning of a turn.
pub open spec fn turn_begun(prompt: Seq<char>) -> TurnStateModel {
    TurnStateModel {
        depth: 0,
        prompt,
        parent_run_id: None,
        run_ids: Seq::empty(),
        files_touched: Seq::empty(),
        input_tokens: 0,
        output_tokens: 0,
        reasoning: Seq::empty(),
        content: Seq::empty(),
        statuses: Seq::empty(),
    }
}

/// A turn after the run of its next segment was noted.
pub open spec fn turn_noted(t: TurnStateModel, run_id: i64) -> TurnStateModel {
    TurnStateModel { run_ids: t.run_ids.push(run_id), parent_run_id: Some(run_id), ..t }
}

/// A turn after a segment: its files, tokens, status, thoughts and answer are
/// added, and where it has handed over, the next prompt is made of the handoff.
pub open spec fn turn_after(t: TurnStateModel, r: ResultModel, touched: Seq<Seq<char>>) -> TurnStateModel {
    let added = TurnStateModel {
        files_touched: run_cmd::merged(t.files_touched, touched),
        input_tokens: run_cmd::sum_of(t.input_tokens, r.input_tokens),
        output_tokens: run_cmd::sum_of(t.output_tokens, r.output_tokens),
        statuses: t.statuses.push(r.status),
        content: if text::blank(r.content) {
            t.content
        } else {
            r.content
        },
        reasoning: if text::blank(r.reasoning) {
            t.reasoning
        } else {
            t.reasoning + r.reasoning
        },
        ..t
    };
    if run_cmd::hands_over(r) {
        TurnStateModel {
            depth: (t.depth + 1) as u32,
            prompt: handoff::segment_prompt(
                r.handoff_response->0.summary,
                r.handoff_response->0.next_task,
            ),
            ..added
        }
    } else {
        added
    }
}

/// A turn that has ended with an answer.
pub open spec fn turn_result(t: TurnStateModel, code: i32, content: Seq<char>, ms: u64) -> TurnResultModel {
    TurnResultModel {
        exit_code: code,
        content,
        reasoning: t.reasoning,
        input_tokens: t.input_tokens,
        output_tokens: t.output_tokens,
        duration_ms: ms,
        files_touched: t.files_touched,
    }
}

/// The notice about a turn whose segment failed.
pub const FAILED_NOTE: &'static str = "Segment failed — previous conversation context is preserved";

/// The notice about a turn whose segment was cut off.
pub const INCOMPLETE_NOTE: &'static str =
    "Segment incomplete — previous conversation context is preserved";

/// An answer with a notice behind it; the notice alone where there is no
/// answer.
pub open spec fn noted_content(content: Seq<char>, note: Seq<char>) -> Seq<char> {
    if text::blank(content) {
        note
    } else {
        content + "\n\n"@ + note
    }
}

/// An answer with a notice behind it.
pub fn with_status_note(content: String, note: &str) -> (r: String)
    ensures
        r@ == noted_content(content@, note@),
{
    if text::is_blank(&content) {
        note.to_string()
    } else {
        content.concat("\n\n").concat(note)
    }
}

/// The notice behind an answer; empty where there is none.
pub open spec fn note_of(lang: Language, content: Seq<char>) -> Seq<char> {
    let failed = i18n::message(lang, FAILED_NOTE@);
    let incomplete = i18n::message(lang, INCOMPLETE_NOTE@);
    if failed.is_suffix_of(content) {
        failed
    } else if incomplete.is_suffix_of(content) {
        incomplete
    } else {
        Seq::empty()
    }
}

/// The notice behind an answer.
pub fn strip_status_note(lang: Language, content: &str) -> (r: String)
    ensures
        r@ == note_of(lang, content@),
{
    let failed = translate(lang, FAILED_NOTE);
    if text::ends_with(content, failed) {
        return failed.to_string();
    }
    let incomplete = translate(lang, INCOMPLETE_NOTE);
    if text::ends_with(content, incomplete) {
        return incomplete.to_string();
    }
    String::new()
}

/// What a turn comes to after a segment; `None` where it goes on.
pub open spec fn turn_outcome(
    lang: Language,
    t: TurnStateModel,
    r: ResultModel,
    touched: Seq<Seq<char>>,
    ms: u64,
) -> Option<TurnResultModel> {
    let next = turn_after(t, r, touched);
    if run_cmd::hands_over(r) {
        None
    } else {
        Some(
            match r.status {
                SegmentStatus::Failed => turn_result(
                    next,
                    EXIT_OK,
                    noted_content(next.content, i18n::message(lang, FAILED_NOTE@)),
                    ms,
                ),
                SegmentStatus::Incomplete => turn_result(
                    next,
                    EXIT_OK,
                    noted_content(next.content, i18n::message(lang, INCOMPLETE_NOTE@)),
                    ms,
                ),
                SegmentStatus::Interrupted => turn_result(next, EXIT_INTERRUPTED, next.content, ms),
                SegmentStatus::Completed => turn_result(next, EXIT_OK, next.content, ms),
            },
        )
    }
}

impl Turn {
    /// The beginning of a turn.
    pub fn begin(prompt: &str) -> (r: Self)
        ensures
            r@ == turn_begun(prompt@),
    {
        let r = Turn {
            depth: 0,
            prompt: prompt.to_string(),
            parent_run_id: None,
            run_ids: Vec::new(),
            files_touched: Vec::new(),
            input_tokens: 0,
            output_tokens: 0,
            reasoning: String::new(),
            content: String::new(),
            statuses: Vec::new(),
        };
        proof {
            assert(r@.files_touched =~= Seq::empty());
        }
        r
    }

    /// Notes the run of the next segment; the segment after it follows this
    /// run.
    pub fn note_run(&mut self, run_id: i64)
        ensures
            final(self)@ == turn_noted(old(self)@, run_id),
    {
        self.run_ids.push(run_id);
        self.parent_run_id = Some(run_id);
    }

    /// The turn as one that has ended with an answer.
    fn result(&self, exit_code: i32, content: String, duration_ms: u64) -> (r: TurnResult)
        ensures
            r@ == turn_result(self@, exit_code, content@, duration_ms),
    {
        TurnResult {
            exit_code,
            assistant_content: content,
            reasoning_content: self.reasoning.clone(),
            input_tokens: self.input_tokens,
            output_tokens: self.output_tokens,
            duration_ms,
            files_touched: session::clone_texts(&self.files_touched),
        }
    }

    /// The turn as one that was interrupted between two segments.
    pub fn interrupted(&self, duration_ms: u64) -> (r: TurnResult)
        ensures
            r@ == turn_result(self@, EXIT_INTERRUPTED, self@.content, duration_ms),
    {
        self.result(EXIT_INTERRUPTED, self.content.clone(), duration_ms)
    }

    /// Takes what a segment came to and the files that its tools have touched.
    /// `None` means that the turn goes on with another segment.
    pub fn advance(
        &mut self,
        lang: Language,
        result: &SegmentResult,
        touched: &[String],
        duration_ms: u64,
    ) -> (r: Option<TurnResult>)
        requires
            old(self).depth < u32::MAX,
        ensures
            final(self)@ == turn_after(old(self)@, result@, text::views(touched@)),
            (match r {
                Some(t) => Some(t@),
                None => None,
            }) == turn_outcome(lang, old(self)@, result@, text::views(touched@), duration_ms),
    {
        merge(&mut self.files_touched, touched);
        self.input_tokens = add_tokens(self.input_tokens, result.input_tokens);
        self.output_tokens = add_tokens(self.output_tokens, result.output_tokens);
        self.statuses.push(result.status);
        if !text::is_blank(&result.content) {
            self.content = result.content.clone();
        }
        if !text::is_blank(&result.reasoning_content) {
            self.reasoning.append(&result.reasoning_content);
        }
        match result.status {
            SegmentStatus::Completed => {
                match result.handoff {
                    Some(HandoffDecision::Handoff) => {
                        match &result.handoff_response {
                            Some(h) => {
                                self.prompt = build_new_segment_prompt(h);
                                self.depth = self.depth + 1;
                                return None;
                            },
                            None => {},
                        }
                    },
                    _ => {},
                }
                Some(self.result(EXIT_OK, self.content.clone(), duration_ms))
            },
            SegmentStatus::Failed => {
                let content = with_status_note(self.content.clone(), translate(lang, FAILED_NOTE));
                Some(self.result(EXIT_OK, content, duration_ms))
            },
            SegmentStatus::Incomplete => {
                let content = with_status_note(
                    self.content.clone(),
                    translate(lang, INCOMPLETE_NOTE),
                );
                Some(self.result(EXIT_OK, content, duration_ms))
            },
            SegmentStatus::Interrupted => {
                Some(self.result(EXIT_INTERRUPTED, self.content.clone(), duration_ms))
            },
        }
    }
}

/// What is shown of a turn at the end, as lines. Where the answer was written
/// while it arrived, only a notice is left; otherwise the thoughts and the
/// answer are shown.
pub open spec fn turn_shown(lang: Language, t: TurnResultModel, written: bool, use_color: bool) -> Seq<
    Seq<char>,
> {
    if written {
        let note = note_of(lang, t.content);
        if note.len() == 0 {
            Seq::empty()
        } else if text::blank(t.content) {
            seq![run_cmd::colored(CYAN@, note, use_color)]
        } else {
            seq![Seq::empty(), run_cmd::colored(CYAN@, note, use_color)]
        }
    } else {
        (if text::blank(t.reasoning) {
            Seq::empty()
        } else if use_color {
            seq!["\n\x1b[2m[생각] "@ + t.reasoning + "\x1b[0m"@]
        } else {
            seq!["\n[생각] "@ + stream::plain_of(t.reasoning)]
        }) + (if text::blank(t.content) {
            Seq::empty()
        } else {
            seq!["\n"@ + stream::content_text(t.content, use_color), Seq::empty()]
        })
    }
}

/// The colour of what the conversation says itself.
pub const CYAN: &'static str = "\x1b[36m";

/// What is shown of a turn at the end.
pub fn turn_lines(lang: Language, turn: &TurnResult, written: bool, use_color: bool) -> (r: Vec<
    String,
>)
    ensures
        text::views(r@) == turn_shown(lang, turn@, written, use_color),
{
    let mut out: Vec<String> = Vec::new();
    if written {
        let note = strip_status_note(lang, &turn.assistant_content);
        if !note.as_str().is_empty() {
            if !text::is_blank(&turn.assistant_content) {
                out.push(String::new());
            }
            out.push(color(&note, use_color));
        }
        proof {
            assert(text::views(out@) =~= turn_shown(lang, turn@, written, use_color));
        }
        return out;
    }
    if !text::is_blank(&turn.reasoning_content) {
        if use_color {
            out.push(
                "\n\x1b[2m[생각] ".to_string().concat(&turn.reasoning_content).concat("\x1b[0m"),
            );
        } else {
            out.push("\n[생각] ".to_string().concat(&strip_ansi(&turn.reasoning_content)));
        }
    }
    if !text::is_blank(&turn.assistant_content) {
        out.push("\n".to_string().concat(&render_content(&turn.assistant_content, use_color)));
        out.push(String::new());
    }
    proof {
        assert(text::views(out@) =~= turn_shown(lang, turn@, written, use_color));
    }
    out
}

/// What the conversation says itself, in its colour.
pub fn color(s: &str, use_color: bool) -> (r: String)
    ensures
        r@ == run_cmd::colored(CYAN@, s@, use_color),
{
    if !use_color {
        return s.to_string();
    }
    CYAN.to_string().concat(s).concat("\x1b[0m")
}

// ---------------------------------------------------------------------------
// The first endpoint
// ---------------------------------------------------------------------------

/// What is asked for an endpoint.
#[derive(Debug, Clone, Copy, PartialEq, Eq, Structural)]
pub enum SetupStep {
    Name,
    Url,
    Model,
    Key,
}

/// What came from the console.
pub enum Input {
    /// A line.
    Line(String),
    /// It could not be read, and why.
    Failed(String),
    /// There is no more.
    Ended,
}

/// What came from the console.
pub enum InputModel {
    Line(Seq<char>),
    Failed(Seq<char>),
    Ended,
}

impl View for Input {
    type V = InputModel;

    open spec fn view(&self) -> InputModel {
        match self {
            Input::Line(s) => InputModel::Line(s@),
            Input::Failed(e) => InputModel::Failed(e@),
            Input::Ended => InputModel::Ended,
        }
    }
}

/// The answers so far, and what is asked next.
pub struct Setup {
    pub step: SetupStep,
    pub name: String,
    pub url: String,
    pub model: String,
}

/// The model of the answers so far.
pub struct SetupModel {
    pub step: SetupStep,
    pub name: Seq<char>,
    pub url: Seq<char>,
    pub model: Seq<char>,
}

impl View for Setup {
    type V = SetupModel;

    open spec fn view(&self) -> SetupModel {
        SetupModel { step: self.step, name: self.name@, url: self.url@, model: self.model@ }
    }
}

/// What an answer leads to.
pub enum SetupOutcome {
    /// The next question.
    Ask,
    /// The end without an endpoint, and why.
    Aborted(String),
    /// The endpoint and its name.
    Done(String, EndpointConfig),
}

/// The model of what an answer leads to.
pub enum SetupOutcomeModel {
    Ask,
    Aborted(Seq<char>),
    Done(Seq<char>, EndpointModel),
}

impl View for SetupOutcome {
    type V = SetupOutcomeModel;

    open spec fn view(&self) -> SetupOutcomeModel {
        match self {
            SetupOutcome::Ask => SetupOutcomeModel::Ask,
            SetupOutcome::Aborted(s) => SetupOutcomeModel::Aborted(s@),
            SetupOutcome::Done(name, ep) => SetupOutcomeModel::Done(name@, ep@),
        }
    }
}

/// The answer in a line: what stands in it, where it is not blank.
pub open spec fn answer_of(input: InputModel) -> Option<Seq<char>> {
    match input {
        InputModel::Line(s) => if text::blank(s) {
            None
        } else {
            Some(text::trimmed(s))
        },
        _ => None,
    }
}

/// An endpoint as it is first set up: its context is probed.
pub open spec fn first_endpoint(url: Seq<char>, model: Seq<char>, key: Option<Seq<char>>) -> EndpointModel {
    EndpointModel {
        url,
        api_key: key,
        model,
        context_tokens: 0,
        vision: false,
        thinking: false,
        max_iterations: 200,
        reasoning_effort: None,
        input_price_per_mtok: None,
        output_price_per_mtok: None,
    }
}

/// What an answer leads to, and the answers after it. The name has a default,
/// the address and the model are needed, and the key may be left out.
pub open spec fn setup_step(lang: Language, s: SetupModel, input: InputModel) -> (
    SetupModel,
    SetupOutcomeModel,
) {
    match s.step {
        SetupStep::Name => match input {
            InputModel::Line(_) => (
                SetupModel {
                    step: SetupStep::Url,
                    name: match answer_of(input) {
                        Some(a) => a,
                        None => "main"@,
                    },
                    ..s
                },
                SetupOutcomeModel::Ask,
            ),
            InputModel::Failed(e) => (
                s,
                SetupOutcomeModel::Aborted(i18n::message_fmt(lang, "Input error: {e}"@, seq![e])),
            ),
            InputModel::Ended => (
                s,
                SetupOutcomeModel::Aborted(i18n::message(lang, "EOF — configuration aborted"@)),
            ),
        },
        SetupStep::Url => match answer_of(input) {
            Some(a) => (
                SetupModel { step: SetupStep::Model, url: a, ..s },
                SetupOutcomeModel::Ask,
            ),
            None => (s, SetupOutcomeModel::Aborted(i18n::message(lang, "URL is required"@))),
        },
        SetupStep::Model => match answer_of(input) {
            Some(a) => (
                SetupModel { step: SetupStep::Key, model: a, ..s },
                SetupOutcomeModel::Ask,
            ),
            None => (s, SetupOutcomeModel::Aborted(i18n::message(lang, "Model name is required"@))),
        },
        SetupStep::Key => (
            s,
            SetupOutcomeModel::Done(s.name, first_endpoint(s.url, s.model, answer_of(input))),
        ),
    }
}

/// The answer in a line.
fn answer(input: &Input) -> (r: Option<String>)
    ensures
        text::opt_view(r) == answer_of(input@),
{
    match input {
        Input::Line(s) => {
            if text::is_blank(s) {
                None
            } else {
                Some(text::trim(s).to_string())
            }
        },
        _ => None,
    }
}

impl Setup {
    /// The first question. On anything but a terminal nothing is asked: the
    /// notice about the missing endpoint is the error.
    pub fn begin(lang: Language, terminal: bool) -> (r: Result<Self, String>)
        ensures
            match r {
                Ok(s) => terminal && s@ == (SetupModel {
                    step: SetupStep::Name,
                    name: Seq::empty(),
                    url: Seq::empty(),
                    model: Seq::empty(),
                }),
                Err(e) => !terminal && e@ == i18n::message(
                    lang,
                    "Endpoint is not configured (register one first with `bulti endpoint add`)"@,
                ),
            },
    {
        if !terminal {
            return Err(
                translate(
                    lang,
                    "Endpoint is not configured (register one first with `bulti endpoint add`)",
                ).to_string(),
            );
        }
        Ok(
            Setup {
                step: SetupStep::Name,
                name: String::new(),
                url: String::new(),
                model: String::new(),
            },
        )
    }

    /// The question.
    pub fn question(&self, lang: Language) -> (r: &'static str)
        ensures
            r@ == i18n::message(
                lang,
                match self@.step {
                    SetupStep::Name => "Endpoint name (default: main): "@,
                    SetupStep::Url => "Endpoint URL (e.g. http://127.0.0.1:8084/v1): "@,
                    SetupStep::Model => "Model name: "@,
                    SetupStep::Key => "API key (optional, Enter to skip): "@,
                },
            ),
    {
        translate(
            lang,
            match self.step {
                SetupStep::Name => "Endpoint name (default: main): ",
                SetupStep::Url => "Endpoint URL (e.g. http://127.0.0.1:8084/v1): ",
                SetupStep::Model => "Model name: ",
                SetupStep::Key => "API key (optional, Enter to skip): ",
            },
        )
    }

    /// Takes an answer.
    pub fn take(&mut self, lang: Language, input: &Input) -> (r: SetupOutcome)
        ensures
            (final(self)@, r@) == setup_step(lang, old(self)@, input@),
    {
        match self.step {
            SetupStep::Name => match input {
                Input::Line(_) => {
                    self.name = match answer(input) {
                        Some(a) => a,
                        None => "main".to_string(),
                    };
                    self.step = SetupStep::Url;
                    SetupOutcome::Ask
                },
                Input::Failed(e) => SetupOutcome::Aborted(say1(lang, "Input error: {e}", e)),
                Input::Ended => SetupOutcome::Aborted(
                    translate(lang, "EOF — configuration aborted").to_string(),
                ),
            },
            SetupStep::Url => match answer(input) {
                Some(a) => {
                    self.url = a;
                    self.step = SetupStep::Model;
                    SetupOutcome::Ask
                },
                None => SetupOutcome::Aborted(translate(lang, "URL is required").to_string()),
            },
            SetupStep::Model => match answer(input) {
                Some(a) => {
                    self.model = a;
                    self.step = SetupStep::Key;
                    SetupOutcome::Ask
                },
                None => SetupOutcome::Aborted(translate(lang, "Model name is required").to_string()),
            },
            SetupStep::Key => {
                let ep = EndpointConfig {
                    url: self.url.clone(),
                    api_key: answer(input),
                    model: self.model.clone(),
                    context_tokens: 0,
                    vision: false,
                    thinking: false,
                    max_iterations: 200,
                    reasoning_effort: None,
                    input_price_per_mtok: None,
                    output_price_per_mtok: None,
                };
                SetupOutcome::Done(self.name.clone(), ep)
            },
        }
    }
}

/// Registers the endpoint that was set up; it becomes the active one where
/// there was none.
pub fn register(cfg: &mut Config, lang: Language, name: &str, ep: &EndpointConfig) -> (r: String)
    requires
        old(cfg).wf(),
    ensures
        final(cfg).wf(),
        final(cfg)@ == endpoint::with_endpoint(old(cfg)@, name@, ep@),
        r@ == i18n::message_fmt(
            lang,
            "Registered and activated endpoint '{name}'.\n"@,
            seq![name@],
        ),
{
    put_endpoint(cfg, name.to_string(), ep.clone());
    say1(lang, "Registered and activated endpoint '{name}'.\n", name)
}

// ---------------------------------------------------------------------------
// A conversation
// ---------------------------------------------------------------------------

/// A conversation.
pub struct Chat {
    pub cfg: Config,
    pub endpoint_name: String,
    pub endpoint: EndpointConfig,
    pub session_id: String,
    pub session: Session,
    /// The conversation that was taken up, until the next turn.
    pub resume_context: Option<String>,
    /// The number of the next turn.
    pub turn: u32,
}

/// The model of a conversation.
pub struct ChatModel {
    pub cfg: ConfigModel,
    pub endpoint_name: Seq<char>,
    pub endpoint: EndpointModel,
    pub session_id: Seq<char>,
    pub session: SessionModel,
    pub resume_context: Option<Seq<char>>,
    pub turn: u32,
}

impl View for Chat {
    type V = ChatModel;

    open spec fn view(&self) -> ChatModel {
        ChatModel {
            cfg: self.cfg@,
            endpoint_name: self.endpoint_name@,
            endpoint: self.endpoint@,
            session_id: self.session_id@,
            session: self.session@,
            resume_context: text::opt_view(self.resume_context),
            turn: self.turn,
        }
    }
}

/// Where a conversation is shown.
#[derive(Debug, Clone, Copy, PartialEq, Eq, Structural)]
pub enum Surface {
    /// Line by line.
    Console,
    /// On the whole screen.
    Screen,
}

/// What a line leads to.
pub enum Action {
    /// Nothing.
    Nothing,
    /// The end of the conversation, with a word about it.
    Leave(String),
    /// A text to show.
    Say(String),
    /// Lines to show.
    Help(Vec<String>),
    /// Changed settings: they are saved, and the text is shown.
    SaveSettings(String),
    /// A new session.
    NewSession,
    /// The session with the given id is taken up.
    Resume(String),
    /// The sessions that can be taken up are shown, with a text behind them.
    SuggestSessions(String),
    /// The sessions are shown.
    ListSessions,
    /// The session is described.
    SessionInfo,
    /// The session is copied.
    Fork,
    /// The conversation is written to the given file.
    Export(String),
    /// The conversation is summarized.
    Compact,
    /// The tokens and the cost are shown.
    Usage,
    /// Earlier prompts are shown under a title; those that contain a text in
    /// lower case.
    History(String, String),
    /// The model answers a prompt.
    Answer(String),
}

/// The model of what a line leads to.
pub enum ActionModel {
    Nothing,
    Leave(Seq<char>),
    Say(Seq<char>),
    Help(Seq<Seq<char>>),
    SaveSettings(Seq<char>),
    NewSession,
    Resume(Seq<char>),
    SuggestSessions(Seq<char>),
    ListSessions,
    SessionInfo,
    Fork,
    Export(Seq<char>),
    Compact,
    Usage,
    History(Seq<char>, Seq<char>),
    Answer(Seq<char>),
}

impl View for Action {
    type V = ActionModel;

    open spec fn view(&self) -> ActionModel {
        match self {
            Action::Nothing => ActionModel::Nothing,
            Action::Leave(s) => ActionModel::Leave(s@),
            Action::Say(s) => ActionModel::Say(s@),
            Action::Help(v) => ActionModel::Help(text::views(v@)),
            Action::SaveSettings(s) => ActionModel::SaveSettings(s@),
            Action::NewSession => ActionModel::NewSession,
            Action::Resume(s) => ActionModel::Resume(s@),
            Action::SuggestSessions(s) => ActionModel::SuggestSessions(s@),
            Action::ListSessions => ActionModel::ListSessions,
            Action::SessionInfo => ActionModel::SessionInfo,
            Action::Fork => ActionModel::Fork,
            Action::Export(s) => ActionModel::Export(s@),
            Action::Compact => ActionModel::Compact,
            Action::Usage => ActionModel::Usage,
            Action::History(s, q) => ActionModel::History(s@, q@),
            Action::Answer(s) => ActionModel::Answer(s@),
        }
    }
}

/// Whether a word is a reasoning effort.
pub open spec fn effort(s: Seq<char>) -> bool {
    s == "low"@ || s == "medium"@ || s == "high"@
}

/// Whether a word is a reasoning effort.
pub fn is_effort(s: &str) -> (r: bool)
    ensures
        r == effort(s@),
{
    text::str_eq(s, "low") || text::str_eq(s, "medium") || text::str_eq(s, "high")
}

/// Settings in which an endpoint that they have has another model and another
/// effort.
pub open spec fn endpoint_stored(
    c: ConfigModel,
    name: Seq<char>,
    model: Seq<char>,
    effort: Option<Seq<char>>,
) -> ConfigModel {
    if c.endpoints.dom().contains(name) {
        ConfigModel {
            endpoints: c.endpoints.insert(
                name,
                EndpointModel { model, reasoning_effort: effort, ..c.endpoints[name] },
            ),
            ..c
        }
    } else {
        c
    }
}

/// The effort that is asked for behind the name of a model.
pub open spec fn asked_effort(words: Seq<Seq<char>>) -> Option<Seq<char>> {
    if words.len() > 1 {
        Some(text::lowercase(words[1]))
    } else {
        None
    }
}

/// A conversation after another model was chosen, and perhaps an effort.
pub open spec fn model_chosen(c: ChatModel, words: Seq<Seq<char>>) -> ChatModel {
    let asked = asked_effort(words);
    let chosen = if asked is Some && effort(asked->0) {
        asked
    } else {
        c.endpoint.reasoning_effort
    };
    ChatModel {
        endpoint: EndpointModel { model: words[0], reasoning_effort: chosen, ..c.endpoint },
        cfg: endpoint_stored(c.cfg, c.endpoint_name, words[0], chosen),
        ..c
    }
}

/// What is said about another model.
pub open spec fn model_message(lang: Language, words: Seq<Seq<char>>) -> Seq<char> {
    match asked_effort(words) {
        Some(e) => if effort(e) {
            i18n::message_fmt(
                lang,
                "Changed model to '{model}' and reasoning effort to '{effort}'."@,
                seq![words[0], e],
            )
        } else {
            i18n::message_fmt(
                lang,
                "Changed model to '{model}'. (effort '{effort}' ignored — low|medium|high)"@,
                seq![words[0], e],
            )
        },
        None => i18n::message_fmt(lang, "Changed model to '{model}'."@, seq![words[0]]),
    }
}

/// A conversation after an effort was chosen. The model of the settings stays.
pub open spec fn effort_chosen(c: ChatModel, e: Seq<char>) -> ChatModel {
    ChatModel {
        endpoint: EndpointModel { reasoning_effort: Some(e), ..c.endpoint },
        cfg: if c.cfg.endpoints.dom().contains(c.endpoint_name) {
            endpoint_stored(
                c.cfg,
                c.endpoint_name,
                c.cfg.endpoints[c.endpoint_name].model,
                Some(e),
            )
        } else {
            c.cfg
        },
        ..c
    }
}

/// What `/language` says: the language, where none is named; otherwise that it
/// was changed, in the new language, or that there is no such language.
pub open spec fn language_message(lang: Language, args: Seq<char>) -> Seq<char> {
    let arg = text::trimmed(args);
    if arg.len() == 0 {
        i18n::message_fmt(
            lang,
            "Language: {name} ({code})\nAvailable: en, ko, ja\nUsage: /language <en|ko|ja>"@,
            seq![lang.name_text(), lang.code_text()],
        )
    } else {
        match i18n::language_named(text::lowercase(text::trimmed(arg))) {
            Some(l) => i18n::message_fmt(
                l,
                "Language changed to {name} ({code})."@,
                seq![l.name_text(), l.code_text()],
            ),
            None => i18n::message_fmt(
                lang,
                "Unsupported language '{arg}'. Use en, ko, or ja."@,
                seq![arg],
            ),
        }
    }
}

/// The language that `/language` changes to.
pub open spec fn language_asked(args: Seq<char>) -> Option<Language> {
    let arg = text::trimmed(args);
    if arg.len() == 0 {
        None
    } else {
        i18n::language_named(text::lowercase(text::trimmed(arg)))
    }
}

/// The title over earlier prompts.
pub open spec fn history_heading(lang: Language, surface: Surface, args: Seq<char>) -> Seq<char> {
    let arg = text::trimmed(args);
    if text::lowercase(arg).len() > 0 {
        i18n::message_fmt(lang, "Prompt history — results for '{q}' (last 20):"@, seq![arg])
    } else {
        match surface {
            Surface::Console => i18n::message(lang, "Prompt history (last 20):"@),
            Surface::Screen => i18n::message(
                lang,
                "Prompt history (last 20) — you can also browse with ↑/↓ when the input is empty:"@,
            ),
        }
    }
}

/// The file that a conversation is written to: the one that is named, else one
/// with the id of the session.
pub open spec fn export_path(session_id: Seq<char>, args: Seq<char>) -> Seq<char> {
    if text::blank(args) {
        "./bulti-session-"@ + session_id + ".md"@
    } else {
        text::trimmed(args)
    }
}

/// What a command leads to.
pub open spec fn command_action(
    c: Chat,
    lang: Language,
    surface: Surface,
    line: Seq<char>,
    name: Seq<char>,
    args: Seq<char>,
) -> ActionModel {
    if name == "exit"@ {
        ActionModel::Leave(
            i18n::message(
                lang,
                match surface {
                    Surface::Console => "Ending conversation"@,
                    Surface::Screen => "Conversation ended."@,
                },
            ),
        )
    } else if name == "new"@ {
        match surface {
            Surface::Console => ActionModel::NewSession,
            Surface::Screen => ActionModel::Say(
                i18n::message(lang, "/new is not supported in the TUI (quit and start again)."@),
            ),
        }
    } else if name == "help"@ {
        match surface {
            Surface::Console => ActionModel::Help(chat_text::help_lines(lang)),
            Surface::Screen => ActionModel::Say(
                i18n::message(lang, "Available commands:"@) + chat_text::help_entries(
                    lang,
                    slash::COMMAND_COUNT as nat,
                ),
            ),
        }
    } else if name == "language"@ {
        match language_asked(args) {
            Some(_) => ActionModel::SaveSettings(language_message(lang, args)),
            None => ActionModel::Say(language_message(lang, args)),
        }
    } else if name == "resume"@ {
        if args.len() == 0 {
            ActionModel::SuggestSessions(
                match surface {
                    Surface::Console => Seq::empty(),
                    Surface::Screen => "\n"@ + i18n::message(
                        lang,
                        "Session resume is not supported in the TUI — quit and resume with bulti chat --resume <id>."@,
                    ),
                },
            )
        } else {
            match surface {
                Surface::Console => ActionModel::Resume(args),
                Surface::Screen => ActionModel::Say(
                    i18n::message_fmt(
                        lang,
                        "Session redirect is not supported in the TUI for '{id}' (quit and resume with bulti chat --resume {id})."@,
                        seq![args, args],
                    ),
                ),
            }
        }
    } else if name == "model"@ {
        if args.len() == 0 {
            ActionModel::Say(
                chat_text::models_shown(lang, c.endpoint@.model, c.cfg.endpoints.entries@),
            )
        } else {
            ActionModel::SaveSettings(model_message(lang, text::words_of(args)))
        }
    } else if name == "effort"@ {
        let e = text::lowercase(text::trimmed(args));
        if effort(e) {
            ActionModel::SaveSettings(
                i18n::message_fmt(lang, "Set reasoning effort to '{effort}'."@, seq![e]),
            )
        } else {
            ActionModel::Say(i18n::message(lang, "Usage: /effort <low|medium|high>"@))
        }
    } else if name == "endpoint"@ {
        ActionModel::Say(chat_text::endpoint_shown(lang, c.cfg, c.endpoint_name@, args))
    } else if name == "mcp"@ {
        ActionModel::Say(chat_text::servers_shown(lang, c.cfg, args))
    } else if name == "session-info"@ {
        ActionModel::SessionInfo
    } else if name == "sessions"@ {
        ActionModel::ListSessions
    } else if name == "fork"@ {
        ActionModel::Fork
    } else if name == "export"@ {
        ActionModel::Export(export_path(c.session@.session_id, args))
    } else if name == "compact"@ {
        if c.session@.turns.len() == 0 {
            ActionModel::Say(i18n::message(lang, "Nothing to compact. (0 turns)"@))
        } else {
            ActionModel::Compact
        }
    } else if name == "usage"@ {
        ActionModel::Usage
    } else if name == "history"@ {
        ActionModel::History(
            history_heading(lang, surface, args),
            text::lowercase(text::trimmed(args)),
        )
    } else {
        ActionModel::Say(chat_text::unknown_shown(lang, line))
    }
}

/// A conversation after a command: only a model, an effort or a language
/// changes it at once.
pub open spec fn command_after(c: ChatModel, name: Seq<char>, args: Seq<char>) -> ChatModel {
    if name == "language"@ {
        match language_asked(args) {
            Some(l) => ChatModel { cfg: ConfigModel { language: l, ..c.cfg }, ..c },
            None => c,
        }
    } else if name == "model"@ && args.len() > 0 {
        model_chosen(c, text::words_of(args))
    } else if name == "effort"@ && effort(text::lowercase(text::trimmed(args))) {
        effort_chosen(c, text::lowercase(text::trimmed(args)))
    } else {
        c
    }
}

/// The name and the arguments of a command.
pub open spec fn command_parts(line: Seq<char>) -> (Seq<char>, Seq<char>) {
    match slash::parsed(line) {
        Some(p) => p,
        None => (Seq::empty(), Seq::empty()),
    }
}

/// Arguments that are not empty hold a word.
proof fn lemma_arguments(line: Seq<char>)
    ensures
        command_parts(line).1.len() > 0 ==> text::words_of(command_parts(line).1).len() > 0,
{
    let t = text::trimmed(line);
    if t.len() > 0 && t[0] == '/' {
        let body = t.skip(1);
        let rest = body.skip(text::word_end(body, 0));
        text::lemma_tight(rest);
        let args = text::trimmed(rest);
        text::lemma_word_end(args, 0);
    }
}

/// What a line leads to: a blank one to nothing, one that begins with a slash
/// to what the command does, and any other one to an answer.
pub open spec fn line_action(c: Chat, lang: Language, surface: Surface, line: Seq<char>) -> ActionModel {
    let t = text::trimmed(line);
    if t.len() == 0 {
        ActionModel::Nothing
    } else if t[0] == '/' {
        command_action(c, lang, surface, t, command_parts(t).0, command_parts(t).1)
    } else {
        ActionModel::Answer(t)
    }
}

/// A conversation after a line.
pub open spec fn line_after(c: ChatModel, line: Seq<char>) -> ChatModel {
    let t = text::trimmed(line);
    if t.len() > 0 && t[0] == '/' {
        command_after(c, command_parts(t).0, command_parts(t).1)
    } else {
        c
    }
}

/// The prompt with the conversation before it: the one that was taken up, where
/// it is not blank, else the turns of the session.
pub open spec fn full_prompt(c: ChatModel, prompt: Seq<char>) -> Seq<char> {
    let before = match c.resume_context {
        Some(s) => if text::blank(s) {
            session::context_of(c.session.turns)
        } else {
            s
        },
        None => session::context_of(c.session.turns),
    };
    if text::blank(before) {
        prompt
    } else {
        before + "[이번 사용자 메시지]\n"@ + prompt
    }
}

/// The number of the first turn of a session that is taken up with `n` turns: on
/// the screen the numbers go on, and on the console they begin anew.
pub open spec fn first_turn(surface: Surface, n: nat) -> u32 {
    match surface {
        Surface::Console => 0,
        Surface::Screen => n as u32,
    }
}

/// A turn as it is kept in the session.
pub open spec fn kept_turn(
    c: ChatModel,
    user: Seq<char>,
    t: TurnResultModel,
    chain_id: Seq<char>,
) -> TurnModel {
    TurnModel {
        turn: c.turn,
        user,
        assistant: t.content,
        chain_id,
        files_touched: t.files_touched,
        input_tokens: t.input_tokens,
        output_tokens: t.output_tokens,
        model: c.endpoint.model,
    }
}

/// An endpoint for a session that is taken up: the one that the session was
/// held with, where the settings still have it, and its model.
pub open spec fn resumed_endpoint(
    endpoints: Map<Seq<char>, EndpointModel>,
    ep: EndpointModel,
    s: SessionModel,
) -> EndpointModel {
    let held = if endpoints.dom().contains(s.endpoint) {
        endpoints[s.endpoint]
    } else {
        ep
    };
    if s.model.len() == 0 {
        held
    } else {
        EndpointModel { model: s.model, ..held }
    }
}

/// A system prompt with a conversation behind it, where there is one.
pub open spec fn prompt_with_context(system_prompt: Seq<char>, context: Seq<char>) -> Seq<char> {
    if context.len() == 0 {
        system_prompt
    } else {
        system_prompt + "\n\n[이전 대화 기록]\n"@ + context
    }
}

/// A system prompt with a conversation behind it.
pub fn resumed_prompt(system_prompt: &str, context: &str) -> (r: String)
    ensures
        r@ == prompt_with_context(system_prompt@, context@),
{
    if context.is_empty() {
        return system_prompt.to_string();
    }
    system_prompt.to_string().concat("\n\n[이전 대화 기록]\n").concat(context)
}

impl Chat {
    /// Whether the settings are in order.
    pub open spec fn wf(self) -> bool {
        self.cfg.wf()
    }

    /// A conversation in a fresh session.
    pub fn begin(
        cfg: Config,
        endpoint_name: &str,
        endpoint: EndpointConfig,
        session_id: &str,
        now: &str,
    ) -> (r: Self)
        requires
            cfg.wf(),
        ensures
            r.wf(),
            r.cfg == cfg,
            r@ == (ChatModel {
                cfg: cfg@,
                endpoint_name: endpoint_name@,
                endpoint: endpoint@,
                session_id: session_id@,
                session: session::fresh_session(
                    session_id@,
                    endpoint_name@,
                    endpoint@.model,
                    now@,
                ),
                resume_context: None,
                turn: 0,
            }),
    {
        let session = Session::new(session_id, endpoint_name, &endpoint.model, now);
        Chat {
            cfg,
            endpoint_name: endpoint_name.to_string(),
            endpoint,
            session_id: session_id.to_string(),
            session,
            resume_context: None,
            turn: 0,
        }
    }

    /// Begins with a saved session: its endpoint and its model are used. On the
    /// screen its turns are counted on.
    pub fn restore(&mut self, surface: Surface, id: &str, saved: &Session)
        requires
            old(self).wf(),
        ensures
            final(self).wf(),
            final(self).cfg == old(self).cfg,
            final(self)@ == (ChatModel {
                endpoint: resumed_endpoint(
                    old(self)@.cfg.endpoints,
                    old(self)@.endpoint,
                    saved@,
                ),
                session_id: id@,
                session: saved@,
                resume_context: Some(session::context_of(saved@.turns)),
                turn: first_turn(surface, saved@.turns.len()),
                ..old(self)@
            }),
    {
        match self.cfg.endpoints.get(&saved.endpoint) {
            Some(ep) => {
                let held = ep.clone();
                self.endpoint = held;
            },
            None => {},
        }
        if !saved.model.as_str().is_empty() {
            self.endpoint.model = saved.model.clone();
        }
        self.session_id = id.to_string();
        self.resume_context = Some(saved.conversation_context());
        self.session = saved.clone();
        self.turn = match surface {
            Surface::Console => 0,
            Surface::Screen => #[verifier::truncate]
            (saved.turns.len() as u32),
        };
    }

    /// Begins a new session.
    pub fn start_session(&mut self, lang: Language, id: &str, now: &str) -> (r: String)
        requires
            old(self).wf(),
        ensures
            final(self).wf(),
            final(self).cfg == old(self).cfg,
            final(self)@ == (ChatModel {
                session_id: id@,
                session: session::fresh_session(
                    id@,
                    old(self)@.endpoint_name,
                    old(self)@.endpoint.model,
                    now@,
                ),
                resume_context: None,
                turn: 0,
                ..old(self)@
            }),
            r@ == i18n::message_fmt(
                lang,
                "Started a new session (session id: {id})"@,
                seq![id@],
            ),
    {
        self.session_id = id.to_string();
        self.session = Session::new(id, &self.endpoint_name, &self.endpoint.model, now);
        self.resume_context = None;
        self.turn = 0;
        say1(lang, "Started a new session (session id: {id})", id)
    }

    /// Takes up a saved session, where it could be loaded. The endpoint and the
    /// number of the turn stay.
    pub fn resume(&mut self, lang: Language, id: &str, saved: &Result<Session, String>) -> (r: String)
        requires
            old(self).wf(),
        ensures
            final(self).wf(),
            final(self).cfg == old(self).cfg,
            match *saved {
                Ok(s) => final(self)@ == (ChatModel {
                    session_id: id@,
                    session: s@,
                    resume_context: Some(session::context_of(s@.turns)),
                    ..old(self)@
                }) && r@ == i18n::message_fmt(lang, "Resuming session '{id}'."@, seq![id@]),
                Err(_) => final(self)@ == old(self)@ && r@ == i18n::message_fmt(
                    lang,
                    "Session '{id}' not found."@,
                    seq![id@],
                ),
            },
    {
        match saved {
            Ok(s) => {
                self.session_id = id.to_string();
                self.resume_context = Some(s.conversation_context());
                self.session = s.clone();
                say1(lang, "Resuming session '{id}'.", id)
            },
            Err(_) => say1(lang, "Session '{id}' not found.", id),
        }
    }

    /// The prompt with the conversation before it. A conversation that was
    /// taken up counts once.
    pub fn prompt(&mut self, prompt: &str) -> (r: String)
        requires
            old(self).wf(),
        ensures
            final(self).wf(),
            final(self).cfg == old(self).cfg,
            final(self)@ == (ChatModel { resume_context: None, ..old(self)@ }),
            r@ == full_prompt(old(self)@, prompt@),
    {
        let taken = self.resume_context.take();
        let before = match taken {
            Some(s) => {
                if text::is_blank(&s) {
                    self.session.conversation_context()
                } else {
                    s
                }
            },
            None => self.session.conversation_context(),
        };
        if text::is_blank(&before) {
            prompt.to_string()
        } else {
            before.concat("[이번 사용자 메시지]\n").concat(prompt)
        }
    }

    /// Keeps a turn in the session.
    pub fn record(&mut self, user: &str, turn: &TurnResult, chain_id: &str, now: &str)
        requires
            old(self).wf(),
            old(self).turn < u32::MAX,
        ensures
            final(self).wf(),
            final(self).cfg == old(self).cfg,
            final(self)@ == (ChatModel {
                session: session::with_turn(
                    old(self)@.session,
                    kept_turn(old(self)@, user@, turn@, chain_id@),
                    now@,
                ),
                turn: (old(self)@.turn + 1) as u32,
                ..old(self)@
            }),
    {
        let kept = TurnRecord {
            turn: self.turn,
            user: user.to_string(),
            assistant: turn.assistant_content.clone(),
            chain_id: chain_id.to_string(),
            files_touched: session::clone_texts(&turn.files_touched),
            input_tokens: turn.input_tokens,
            output_tokens: turn.output_tokens,
            model: self.endpoint.model.clone(),
        };
        self.session.push_turn(kept, now);
        self.turn = self.turn + 1;
    }

    /// Stores the model and the effort of the endpoint in the settings, where
    /// they have it.
    fn store_endpoint(&mut self, model: String, effort: Option<String>)
        requires
            old(self).wf(),
        ensures
            final(self).wf(),
            final(self)@ == (ChatModel {
                cfg: endpoint_stored(
                    old(self)@.cfg,
                    old(self)@.endpoint_name,
                    model@,
                    text::opt_view(effort),
                ),
                ..old(self)@
            }),
    {
        let found = match self.cfg.endpoints.get(&self.endpoint_name) {
            Some(ep) => Some(ep.clone()),
            None => None,
        };
        match found {
            Some(ep) => {
                let mut ep = ep;
                ep.model = model;
                ep.reasoning_effort = effort;
                self.cfg.endpoints.insert(self.endpoint_name.clone(), ep);
            },
            None => {},
        }
    }

    /// Chooses another model, and perhaps an effort.
    fn choose_model(&mut self, lang: Language, words: &Vec<String>) -> (r: String)
        requires
            old(self).wf(),
            words@.len() > 0,
        ensures
            final(self).wf(),
            final(self)@ == model_chosen(old(self)@, text::views(words@)),
            r@ == model_message(lang, text::views(words@)),
    {
        let ghost all = text::views(words@);
        proof {
            assert(all[0] == words@[0]@);
        }
        self.endpoint.model = words[0].clone();
        let message = if words.len() > 1 {
            proof {
                assert(all[1] == words@[1]@);
            }
            let e = text::to_lowercase(&words[1]);
            if is_effort(&e) {
                let m = say2(
                    lang,
                    "Changed model to '{model}' and reasoning effort to '{effort}'.",
                    &words[0],
                    &e,
                );
                self.endpoint.reasoning_effort = Some(e);
                m
            } else {
                say2(
                    lang,
                    "Changed model to '{model}'. (effort '{effort}' ignored — low|medium|high)",
                    &words[0],
                    &e,
                )
            }
        } else {
            say1(lang, "Changed model to '{model}'.", &words[0])
        };
        let model = self.endpoint.model.clone();
        let effort = text::clone_opt(&self.endpoint.reasoning_effort);
        self.store_endpoint(model, effort);
        message
    }

    /// Chooses an effort.
    fn choose_effort(&mut self, e: &str)
        requires
            old(self).wf(),
        ensures
            final(self).wf(),
            final(self)@ == effort_chosen(old(self)@, e@),
    {
        self.endpoint.reasoning_effort = Some(e.to_string());
        let stored = match self.cfg.endpoints.get(&self.endpoint_name) {
            Some(ep) => Some(ep.model.clone()),
            None => None,
        };
        match stored {
            Some(model) => {
                self.store_endpoint(model, Some(e.to_string()));
            },
            None => {},
        }
    }

    /// Shows or changes the language.
    fn choose_language(&mut self, lang: Language, args: &str) -> (r: Action)
        requires
            old(self).wf(),
        ensures
            final(self).wf(),
            final(self)@ == command_after(old(self)@, "language"@, args@),
            r@ == match language_asked(args@) {
                Some(_) => ActionModel::SaveSettings(language_message(lang, args@)),
                None => ActionModel::Say(language_message(lang, args@)),
            },
    {
        let arg = text::trim(args);
        if arg.is_empty() {
            return Action::Say(
                say2(
                    lang,
                    "Language: {name} ({code})\nAvailable: en, ko, ja\nUsage: /language <en|ko|ja>",
                    lang.native_name(),
                    lang.code(),
                ),
            );
        }
        match Language::from_code(arg) {
            Some(l) => {
                self.cfg.language = l;
                Action::SaveSettings(
                    say2(
                        l,
                        "Language changed to {name} ({code}).",
                        l.native_name(),
                        l.code(),
                    ),
                )
            },
            None => Action::Say(
                say1(lang, "Unsupported language '{arg}'. Use en, ko, or ja.", arg),
            ),
        }
    }
}

/// The title over earlier prompts.
fn heading(lang: Language, surface: Surface, args: &str) -> (r: String)
    ensures
        r@ == history_heading(lang, surface, args@),
{
    let arg = text::trim(args);
    if !text::to_lowercase(arg).as_str().is_empty() {
        return say1(lang, "Prompt history — results for '{q}' (last 20):", arg);
    }
    match surface {
        Surface::Console => translate(lang, "Prompt history (last 20):").to_string(),
        Surface::Screen => translate(
            lang,
            "Prompt history (last 20) — you can also browse with ↑/↓ when the input is empty:",
        ).to_string(),
    }
}

/// The file that a conversation is written to.
pub fn export_file(session_id: &str, args: &str) -> (r: String)
    ensures
        r@ == export_path(session_id@, args@),
{
    if text::is_blank(args) {
        "./bulti-session-".to_string().concat(session_id).concat(".md")
    } else {
        text::trim(args).to_string()
    }
}

impl Chat {
    /// Takes a command.
    fn command(&mut self, lang: Language, surface: Surface, line: &str) -> (r: Action)
        requires
            old(self).wf(),
        ensures
            final(self).wf(),
            final(self)@ == command_after(
                old(self)@,
                command_parts(line@).0,
                command_parts(line@).1,
            ),
            r@ == command_action(
                *old(self),
                lang,
                surface,
                line@,
                command_parts(line@).0,
                command_parts(line@).1,
            ),
    {
        let (name, args) = match slash::parse(line) {
            Some(p) => (p.name, p.args),
            None => (String::new(), String::new()),
        };
        proof {
            lemma_arguments(line@);
            lemma_names_differ(name@);
        }
        if text::str_eq(&name, "exit") {
            Action::Leave(
                match surface {
                    Surface::Console => translate(lang, "Ending conversation").to_string(),
                    Surface::Screen => translate(lang, "Conversation ended.").to_string(),
                },
            )
        } else if text::str_eq(&name, "new") {
            match surface {
                Surface::Console => Action::NewSession,
                Surface::Screen => Action::Say(
                    translate(
                        lang,
                        "/new is not supported in the TUI (quit and start again).",
                    ).to_string(),
                ),
            }
        } else if text::str_eq(&name, "help") {
            match surface {
                Surface::Console => Action::Help(print_help(lang)),
                Surface::Screen => Action::Say(help_text(lang)),
            }
        } else if text::str_eq(&name, "language") {
            self.choose_language(lang, &args)
        } else if text::str_eq(&name, "resume") {
            self.resume_command(lang, surface, &args)
        } else if text::str_eq(&name, "model") {
            if args.as_str().is_empty() {
                Action::Say(available_models_text(lang, &self.cfg, &self.endpoint.model))
            } else {
                let words = text::words(&args);
                proof {
                    assert(text::views(words@).len() == words@.len());
                }
                Action::SaveSettings(self.choose_model(lang, &words))
            }
        } else if text::str_eq(&name, "effort") {
            let e = text::to_lowercase(text::trim(&args));
            if is_effort(&e) {
                self.choose_effort(&e);
                Action::SaveSettings(say1(lang, "Set reasoning effort to '{effort}'.", &e))
            } else {
                Action::Say(translate(lang, "Usage: /effort <low|medium|high>").to_string())
            }
        } else if text::str_eq(&name, "endpoint") {
            Action::Say(endpoint_text(lang, &self.cfg, &self.endpoint_name, &args))
        } else if text::str_eq(&name, "mcp") {
            Action::Say(mcp_text(lang, &self.cfg, &args))
        } else {
            self.session_command(lang, surface, line, &name, &args)
        }
    }

    /// Takes a command to resume a session.
    fn resume_command(&self, lang: Language, surface: Surface, args: &str) -> (r: Action)
        ensures
            r@ == command_action(*self, lang, surface, Seq::empty(), "resume"@, args@),
    {
        proof {
            lemma_names_differ("resume"@);
        }
        if args.is_empty() {
            Action::SuggestSessions(
                match surface {
                    Surface::Console => String::new(),
                    Surface::Screen => "\n".to_string().concat(
                        translate(
                            lang,
                            "Session resume is not supported in the TUI — quit and resume with bulti chat --resume <id>.",
                        ),
                    ),
                },
            )
        } else {
            match surface {
                Surface::Console => Action::Resume(args.to_string()),
                Surface::Screen => Action::Say(
                    say2(
                        lang,
                        "Session redirect is not supported in the TUI for '{id}' (quit and resume with bulti chat --resume {id}).",
                        args,
                        args,
                    ),
                ),
            }
        }
    }

    /// Takes a command about the session or the earlier prompts.
    fn session_command(
        &self,
        lang: Language,
        surface: Surface,
        line: &str,
        name: &str,
        args: &str,
    ) -> (r: Action)
        requires
            name@ != "exit"@,
            name@ != "new"@,
            name@ != "help"@,
            name@ != "language"@,
            name@ != "resume"@,
            name@ != "model"@,
            name@ != "effort"@,
            name@ != "endpoint"@,
            name@ != "mcp"@,
        ensures
            r@ == command_action(*self, lang, surface, line@, name@, args@),
    {
        if text::str_eq(name, "session-info") {
            Action::SessionInfo
        } else if text::str_eq(name, "sessions") {
            Action::ListSessions
        } else if text::str_eq(name, "fork") {
            Action::Fork
        } else if text::str_eq(name, "export") {
            Action::Export(export_file(&self.session.session_id, args))
        } else if text::str_eq(name, "compact") {
            if self.session.turns.len() == 0 {
                Action::Say(translate(lang, "Nothing to compact. (0 turns)").to_string())
            } else {
                Action::Compact
            }
        } else if text::str_eq(name, "usage") {
            Action::Usage
        } else if text::str_eq(name, "history") {
            Action::History(heading(lang, surface, args), text::to_lowercase(text::trim(args)))
        } else {
            Action::Say(unknown_command(lang, line))
        }
    }

    /// Takes a line.
    pub fn input(&mut self, lang: Language, surface: Surface, line: &str) -> (r: Action)
        requires
            old(self).wf(),
        ensures
            final(self).wf(),
            final(self)@ == line_after(old(self)@, line@),
            r@ == line_action(*old(self), lang, surface, line@),
    {
        let t = text::trim(line);
        let v = text::chars_of(t);
        if v.len() == 0 {
            Action::Nothing
        } else if v[0] == '/' {
            self.command(lang, surface, t)
        } else {
            Action::Answer(t.to_string())
        }
    }
}

/// Names of commands that differ.
proof fn lemma_names_differ(s: Seq<char>)
    ensures
        "resume"@ != "exit"@,
        "resume"@ != "new"@,
        "resume"@ != "help"@,
        s == "exit"@ || s == "new"@ || s == "help"@ || s == "resume"@ ==> s != "language"@ && s
            != "model"@ && s != "effort"@,
        s == "model"@ ==> s != "effort"@,
{
    reveal_strlit("resume");
    reveal_strlit("exit");
    reveal_strlit("new");
    reveal_strlit("help");
    reveal_strlit("language");
    reveal_strlit("model");
    reveal_strlit("effort");
    assert("resume"@.len() == 6);
    assert("exit"@.len() == 4);
    assert("new"@.len() == 3);
    assert("help"@.len() == 4);
    assert("language"@.len() == 8);
    assert("model"@.len() == 5);
    assert("effort"@[0] == 'e');
    assert("resume"@[0] == 'r');
    assert("effort"@.len() == 6);
}

// ---------------------------------------------------------------------------
// Copies, exports and summaries
// ---------------------------------------------------------------------------

/// What is said about a copy of the session.
pub fn fork_message(lang: Language, id: &Result<String, String>) -> (r: String)
    ensures
        r@ == match *id {
            Ok(id) => i18n::message_fmt(
                lang,
                "Forked the session. New session id: {id} (resume: /resume {id})"@,
                seq![id@, id@],
            ),
            Err(e) => i18n::message_fmt(lang, "Session fork failed: {e}"@, seq![e@]),
        },
{
    match id {
        Ok(id) => say2(
            lang,
            "Forked the session. New session id: {id} (resume: /resume {id})",
            id,
            id,
        ),
        Err(e) => say1(lang, "Session fork failed: {e}", e),
    }
}

/// What is said about a conversation that was written to a file.
pub fn export_message(lang: Language, path: &Result<String, String>) -> (r: String)
    ensures
        r@ == match *path {
            Ok(p) => i18n::message_fmt(
                lang,
                "Exported conversation history to {path}."@,
                seq![p@],
            ),
            Err(e) => i18n::message_fmt(lang, "Export failed: {e}"@, seq![e@]),
        },
{
    match path {
        Ok(p) => say1(lang, "Exported conversation history to {path}.", p),
        Err(e) => say1(lang, "Export failed: {e}", e),
    }
}

/// What the model is asked to summarize a conversation with.
pub const COMPACT_INSTRUCTION: &'static str =
    "Summarize the conversation below concisely. Include all decisions, facts, changed files, and unresolved issues, but compress unnecessary dialogue. Output only the summary without extra explanation.\n\n[Conversation]\n";

/// The request for a summary of a conversation.
pub open spec fn summary_request(lang: Language, model: Seq<char>, transcript: Seq<char>) -> RequestModel {
    RequestModel {
        model,
        messages: seq![
            llm::text_message("user"@, i18n::message(lang, COMPACT_INSTRUCTION@) + transcript),
        ],
        tools: Seq::empty(),
        stream: true,
        max_tokens: 4096,
        temperature_pct: Some(20),
        reasoning_effort: None,
    }
}

/// The request for a summary of a conversation.
pub fn compact_request(lang: Language, model: &str, transcript: &str) -> (r: ChatRequest)
    ensures
        r@ == summary_request(lang, model@, transcript@),
{
    let content = translate(lang, COMPACT_INSTRUCTION).to_string().concat(transcript);
    let mut messages: Vec<Message> = Vec::new();
    messages.push(Message::text("user", content));
    let r = ChatRequest {
        model: model.to_string(),
        messages,
        tools: Vec::new(),
        stream: true,
        max_tokens: 4096,
        temperature_pct: Some(20),
        reasoning_effort: None,
    };
    proof {
        assert(r@.messages =~= summary_request(lang, model@, transcript@).messages);
        assert(r@.tools =~= Seq::empty());
    }
    r
}

/// The turn that holds a summary.
pub open spec fn summary_turn(lang: Language, summary: Seq<char>) -> TurnModel {
    TurnModel {
        turn: 0,
        user: i18n::message(lang, "[compacted conversation summary]"@),
        assistant: summary,
        chain_id: "compact"@,
        files_touched: Seq::empty(),
        input_tokens: 0,
        output_tokens: 0,
        model: Seq::empty(),
    }
}

/// Puts a summary in place of the turns of a session.
pub fn apply_compact(lang: Language, session: &mut Session, summary: String)
    ensures
        final(session)@ == (SessionModel {
            turns: seq![summary_turn(lang, summary@)],
            ..old(session)@
        }),
{
    let turn = TurnRecord {
        turn: 0,
        user: translate(lang, "[compacted conversation summary]").to_string(),
        assistant: summary,
        chain_id: "compact".to_string(),
        files_touched: Vec::new(),
        input_tokens: 0,
        output_tokens: 0,
        model: String::new(),
    };
    proof {
        assert(turn@.files_touched =~= Seq::empty());
        assert(turn@.model =~= Seq::empty());
    }
    let mut turns: Vec<TurnRecord> = Vec::new();
    turns.push(turn);
    session.turns = turns;
    proof {
        assert(session@.turns =~= seq![summary_turn(lang, summary@)]);
    }
}

/// A session after the reply to the request for a summary: a summary that is not
/// blank takes the place of the turns.
pub open spec fn compacted(lang: Language, s: SessionModel, reply: Result<Seq<char>, Seq<char>>) -> SessionModel {
    match reply {
        Ok(summary) => if text::blank(summary) {
            s
        } else {
            SessionModel { turns: seq![summary_turn(lang, summary)], ..s }
        },
        Err(_) => s,
    }
}

/// What is said about the reply to the request for a summary.
pub open spec fn compact_message(lang: Language, reply: Result<Seq<char>, Seq<char>>) -> Seq<char> {
    match reply {
        Ok(summary) => if text::blank(summary) {
            i18n::message(
                lang,
                "Summary was empty; compaction cancelled. (existing session kept)"@,
            )
        } else {
            i18n::message(lang, "Compacted the conversation into a summary."@)
        },
        Err(e) => i18n::message_fmt(
            lang,
            "Compaction failed (existing session kept): {e}"@,
            seq![e],
        ),
    }
}

/// What came of the request for a summary.
pub struct Compacted {
    /// Whether the session was changed: it is saved then.
    pub changed: bool,
    pub message: String,
}

/// Takes the reply to the request for a summary.
pub fn compact(lang: Language, session: &mut Session, reply: Result<String, String>) -> (r: Compacted)
    ensures
        final(session)@ == compacted(
            lang,
            old(session)@,
            match reply {
                Ok(s) => Ok(s@),
                Err(e) => Err(e@),
            },
        ),
        r.changed == (reply is Ok && !text::blank(reply->Ok_0@)),
        r.message@ == compact_message(
            lang,
            match reply {
                Ok(s) => Ok(s@),
                Err(e) => Err(e@),
            },
        ),
{
    match reply {
        Ok(summary) => {
            if text::is_blank(&summary) {
                Compacted {
                    changed: false,
                    message: translate(
                        lang,
                        "Summary was empty; compaction cancelled. (existing session kept)",
                    ).to_string(),
                }
            } else {
                apply_compact(lang, session, summary);
                Compacted {
                    changed: true,
                    message: translate(
                        lang,
                        "Compacted the conversation into a summary.",
                    ).to_string(),
                }
            }
        },
        Err(e) => Compacted {
            changed: false,
            message: say1(lang, "Compaction failed (existing session kept): {e}", &e),
        },
    }
}

/// What is said where a summary was made but could not be saved.
pub fn compact_unsaved(lang: Language, error: &str) -> (r: String)
    ensures
        r@ == i18n::message_fmt(
            lang,
            "Compacted the conversation into a summary. (save failed: {e})"@,
            seq![error@],
        ),
{
    say1(lang, "Compacted the conversation into a summary. (save failed: {e})", error)
}

// ---------------------------------------------------------------------------
// The loop
// ---------------------------------------------------------------------------

/// Who said something.
#[derive(Debug, Clone, Copy, PartialEq, Eq, Structural)]
pub enum Role {
    User,
    Assistant,
}

/// Something that was said.
#[derive(Debug, Clone)]
pub struct ChatLine {
    pub role: Role,
    pub text: String,
}

impl View for ChatLine {
    type V = (Role, Seq<char>);

    open spec fn view(&self) -> (Role, Seq<char>) {
        (self.role, self.text@)
    }
}

/// What was said in the turns of a session, in order.
pub open spec fn lines_said(turns: Seq<TurnModel>) -> Seq<(Role, Seq<char>)>
    decreases turns.len(),
{
    if turns.len() == 0 {
        Seq::empty()
    } else {
        lines_said(turns.drop_last()).push((Role::User, turns.last().user)).push(
            (Role::Assistant, turns.last().assistant),
        )
    }
}

/// What was said in the turns of a session, in order.
pub fn build_initial_lines(session: &Session) -> (r: Vec<ChatLine>)
    ensures
        r@.map_values(|l: ChatLine| l@) == lines_said(session@.turns),
{
    let turns = &session.turns;
    let ghost all = session@.turns;
    let mut out: Vec<ChatLine> = Vec::new();
    let mut i: usize = 0;
    proof {
        assert(all.take(0) =~= Seq::empty());
        assert(out@.map_values(|l: ChatLine| l@) =~= Seq::empty());
    }
    while i < turns.len()
        invariant
            i <= turns.len(),
            all == session::turn_views(turns@),
            out@.map_values(|l: ChatLine| l@) == lines_said(all.take(i as int)),
        decreases turns.len() - i,
    {
        let ghost before = out@.map_values(|l: ChatLine| l@);
        out.push(ChatLine { role: Role::User, text: turns[i].user.clone() });
        out.push(ChatLine { role: Role::Assistant, text: turns[i].assistant.clone() });
        proof {
            let next = all.take(i + 1);
            assert(next.drop_last() =~= all.take(i as int));
            assert(next.last() == turns@[i as int]@);
            assert(out@.map_values(|l: ChatLine| l@) =~= before.push(
                (Role::User, next.last().user),
            ).push((Role::Assistant, next.last().assistant)));
        }
        i = i + 1;
    }
    proof {
        assert(all.take(all.len() as int) =~= all);
    }
    out
}

/// The prompt of the first turn, where one was given that is not blank.
pub fn first_prompt(given: &Option<String>) -> (r: Option<String>)
    ensures
        text::opt_view(r) == match *given {
            Some(p) => if text::blank(p@) {
                None
            } else {
                Some(text::trimmed(p@))
            },
            None => None,
        },
{
    match given {
        Some(p) => {
            if text::is_blank(p) {
                None
            } else {
                Some(text::trim(p).to_string())
            }
        },
        None => None,
    }
}

/// Why a conversation ends at an input, and with which code; `None` where the
/// input is a line.
pub open spec fn input_end(lang: Language, input: InputModel) -> Option<(i32, Seq<char>)> {
    match input {
        InputModel::Line(_) => None,
        InputModel::Failed(e) => Some(
            (EXIT_ERROR, i18n::message_fmt(lang, "Input read error: {e}"@, seq![e])),
        ),
        InputModel::Ended => Some(
            (EXIT_OK, i18n::message(lang, "EOF (Ctrl-D) — ending conversation"@)),
        ),
    }
}

/// Why a conversation ends at an input, and with which code.
pub fn end_of_input(lang: Language, input: &Input) -> (r: Option<(i32, String)>)
    ensures
        (match r {
            Some((code, s)) => Some((code, s@)),
            None => None,
        }) == input_end(lang, input@),
{
    match input {
        Input::Line(_) => None,
        Input::Failed(e) => Some((EXIT_ERROR, say1(lang, "Input read error: {e}", e))),
        Input::Ended => Some(
            (EXIT_OK, translate(lang, "EOF (Ctrl-D) — ending conversation").to_string()),
        ),
    }
}

/// Why a conversation ends where the user interrupts it, and with which code;
/// `None` where nothing was interrupted.
pub fn end_of_interrupt(lang: Language, seen: bool) -> (r: Option<(i32, String)>)
    ensures
        (match r {
            Some((code, s)) => Some((code, s@)),
            None => None,
        }) == (if seen {
            Some(
                (EXIT_INTERRUPTED, i18n::message(lang, "SIGINT received — ending conversation"@)),
            )
        } else {
            None
        }),
{
    if seen {
        Some(
            (
                EXIT_INTERRUPTED,
                translate(lang, "SIGINT received — ending conversation").to_string(),
            ),
        )
    } else {
        None
    }
}

/// Why a conversation ends at an action, and with which code: leaving it is no
/// error. `None` where the conversation goes on.
pub fn end_of_action(action: &Action) -> (r: Option<(i32, String)>)
    ensures
        (match r {
            Some((code, s)) => Some((code, s@)),
            None => None,
        }) == (match action@ {
            ActionModel::Leave(s) => Some((EXIT_OK, s)),
            _ => None,
        }),
{
    match action {
        Action::Leave(s) => Some((EXIT_OK, s.clone())),
        _ => None,
    }
}

/// The code with which a conversation ends after a turn: one that was
/// interrupted ends it. `None` where the conversation goes on.
pub fn end_of_turn(turn: &TurnResult) -> (r: Option<i32>)
    ensures
        r == (if turn@.exit_code == EXIT_INTERRUPTED {
            Some(EXIT_INTERRUPTED)
        } else {
            None
        }),
{
    if turn.exit_code == EXIT_INTERRUPTED {
        Some(EXIT_INTERRUPTED)
    } else {
        None
    }
}

// ---------------------------------------------------------------------------
// Laws
// ---------------------------------------------------------------------------

/// A turn gets deeper by at most one with each segment, and loses none of its
/// runs, files and states.
pub proof fn law_turn_only_grows(t: TurnStateModel, r: ResultModel, touched: Seq<Seq<char>>)
    requires
        t.depth < u32::MAX,
        forall|j: int, k: int| 0 <= j < k < t.files_touched.len() ==> t.files_touched[j]
            != t.files_touched[k],
    ensures
        t.depth <= turn_after(t, r, touched).depth <= t.depth + 1,
        turn_after(t, r, touched).run_ids == t.run_ids,
        t.statuses.is_prefix_of(turn_after(t, r, touched).statuses),
        t.files_touched.is_prefix_of(turn_after(t, r, touched).files_touched),
        t.reasoning.is_prefix_of(turn_after(t, r, touched).reasoning),
{
    run_cmd::law_files_are_kept_once(t.files_touched, touched);
}

/// A turn is interrupted exactly where its last segment was.
pub proof fn law_interruption_is_told(
    lang: Language,
    t: TurnStateModel,
    r: ResultModel,
    touched: Seq<Seq<char>>,
    ms: u64,
)
    requires
        turn_outcome(lang, t, r, touched, ms) is Some,
    ensures
        turn_outcome(lang, t, r, touched, ms)->0.exit_code == EXIT_INTERRUPTED <==> r.status
            == SegmentStatus::Interrupted,
{
}

/// The notice that was put behind an answer is found there. In every language
/// that holds of the notice about a failure; of the other one it holds unless
/// the answer with it also ends with the first.
pub proof fn law_note_is_found(lang: Language, content: Seq<char>)
    ensures
        note_of(lang, noted_content(content, i18n::message(lang, FAILED_NOTE@))) == i18n::message(
            lang,
            FAILED_NOTE@,
        ),
        !i18n::message(lang, FAILED_NOTE@).is_suffix_of(
            noted_content(content, i18n::message(lang, INCOMPLETE_NOTE@)),
        ) ==> note_of(lang, noted_content(content, i18n::message(lang, INCOMPLETE_NOTE@)))
            == i18n::message(lang, INCOMPLETE_NOTE@),
{
    lemma_note_is_last(content, i18n::message(lang, FAILED_NOTE@));
    lemma_note_is_last(content, i18n::message(lang, INCOMPLETE_NOTE@));
}

/// An answer with a notice ends with the notice.
proof fn lemma_note_is_last(content: Seq<char>, note: Seq<char>)
    ensures
        note.is_suffix_of(noted_content(content, note)),
{
    let t = noted_content(content, note);
    assert(t.subrange(t.len() - note.len(), t.len() as int) =~= note);
}

/// A prompt stands at the end of what is sent, whatever came before it.
pub proof fn law_prompt_comes_last(c: ChatModel, prompt: Seq<char>)
    ensures
        prompt.is_suffix_of(full_prompt(c, prompt)),
{
    let t = full_prompt(c, prompt);
    assert(t.subrange(t.len() - prompt.len(), t.len() as int) =~= prompt);
}

/// In a new session nothing of earlier conversations is sent.
pub proof fn law_new_session_forgets(
    c: ChatModel,
    id: Seq<char>,
    now: Seq<char>,
    prompt: Seq<char>,
)
    ensures
        full_prompt(
            ChatModel {
                session_id: id,
                session: session::fresh_session(id, c.endpoint_name, c.endpoint.model, now),
                resume_context: None,
                turn: 0,
                ..c
            },
            prompt,
        ) == prompt,
{
}

/// A line changes neither the session nor the number of the turn, nor where the
/// endpoint is and the key for it; and the settings keep all their endpoints.
pub proof fn law_lines_keep_the_session(c: ChatModel, line: Seq<char>)
    ensures
        line_after(c, line).session == c.session,
        line_after(c, line).session_id == c.session_id,
        line_after(c, line).turn == c.turn,
        line_after(c, line).resume_context == c.resume_context,
        line_after(c, line).endpoint_name == c.endpoint_name,
        line_after(c, line).endpoint.url == c.endpoint.url,
        line_after(c, line).endpoint.api_key == c.endpoint.api_key,
        line_after(c, line).cfg.endpoints.dom() == c.cfg.endpoints.dom(),
        line_after(c, line).cfg.mcp == c.cfg.mcp,
{
    assert(line_after(c, line).cfg.endpoints.dom() =~= c.cfg.endpoints.dom());
}

/// Whether the answers so far are enough for the question at hand.
pub open spec fn answered(s: SetupModel) -> bool {
    &&& s.step != SetupStep::Name ==> s.name.len() > 0
    &&& s.step == SetupStep::Model || s.step == SetupStep::Key ==> s.url.len() > 0
    &&& s.step == SetupStep::Key ==> s.model.len() > 0
}

/// An endpoint is only set up with a name, an address and a model.
pub proof fn law_setup_is_complete(lang: Language, s: SetupModel, input: InputModel)
    requires
        answered(s),
    ensures
        answered(setup_step(lang, s, input).0),
        setup_step(lang, s, input).1 matches SetupOutcomeModel::Done(name, ep) ==> name.len() > 0
            && ep.url.len() > 0 && ep.model.len() > 0,
{
    reveal_strlit("main");
    assert("main"@.len() == 4);
}

/// A summary that came is all that is left of the conversation; without one the
/// conversation stays.
pub proof fn law_summary_takes_the_place(
    lang: Language,
    s: SessionModel,
    summary: Seq<char>,
    error: Seq<char>,
)
    ensures
        !text::blank(summary) ==> compacted(lang, s, Ok(summary)).turns == seq![
            summary_turn(lang, summary),
        ],
        text::blank(summary) ==> compacted(lang, s, Ok(summary)) == s,
        compacted(lang, s, Err(error)) == s,
        compacted(lang, s, Ok(summary)).session_id == s.session_id,
{
}

} // verus!
