//! `run`: a chain of segments for one task.
//!
//! A segment that hands over is followed by another one, with the summary and
//! the remaining task as its prompt. The chain ends when the task is complete,
//! when a segment fails, or when it has become too deep or has taken too long.
use vstd::prelude::*;

use crate::agent::context;
use crate::agent::handoff::{build_new_segment_prompt, HandoffDecision};
use crate::agent::handoff;
use crate::agent::loop_::{ResultModel, SegmentParams, SegmentResult, SegmentStatus};
use crate::config::{Config, ContextConfig, EndpointConfig, EndpointModel, McpConfig};
use crate::cli::RunArgs;
use crate::history::{RunFinish, RunStart, RunStatus};
use crate::json::{Json, JsonModel};
use crate::prompt::McpIndex;
use crate::prompt;
use crate::session;
use crate::text;

verus! {

/// What a chain came to.
#[derive(Debug, Clone, Copy, PartialEq, Eq, Structural)]
pub enum RunOutcome {
    Completed,
    Failed,
    Incomplete,
    Interrupted,
}

impl RunOutcome {
    /// The name of an outcome.
    pub open spec fn name(self) -> Seq<char> {
        match self {
            RunOutcome::Completed => "completed"@,
            RunOutcome::Failed => "failed"@,
            RunOutcome::Incomplete => "incomplete"@,
            RunOutcome::Interrupted => "interrupted"@,
        }
    }

    /// The code with which the program ends.
    pub fn exit_code(&self) -> (r: u8)
        ensures
            r == match self {
                RunOutcome::Completed => 0u8,
                RunOutcome::Failed => 1u8,
                RunOutcome::Incomplete => 2u8,
                RunOutcome::Interrupted => 130u8,
            },
    {
        match self {
            RunOutcome::Completed => 0,
            RunOutcome::Failed => 1,
            RunOutcome::Incomplete => 2,
            RunOutcome::Interrupted => 130,
        }
    }

    /// The name of the outcome.
    pub fn as_str(&self) -> (r: &'static str)
        ensures
            r@ == self.name(),
    {
        match self {
            RunOutcome::Completed => "completed",
            RunOutcome::Failed => "failed",
            RunOutcome::Incomplete => "incomplete",
            RunOutcome::Interrupted => "interrupted",
        }
    }
}

// ---------------------------------------------------------------------------
// The endpoint and the prompt of a run
// ---------------------------------------------------------------------------

/// The name of the endpoint to use: the one given, else the active one; empty
/// where there is neither.
pub open spec fn chosen_name(
    given: Option<Seq<char>>,
    active: Option<Seq<char>>,
) -> Seq<char> {
    match given {
        Some(n) => n,
        None => text::or_empty(active),
    }
}

/// An endpoint with another model, where one is given.
pub open spec fn with_model(ep: EndpointModel, model: Option<Seq<char>>) -> EndpointModel {
    match model {
        Some(m) => EndpointModel { model: m, ..ep },
        None => ep,
    }
}

/// The name of the endpoint to use.
pub fn endpoint_name(given: &Option<String>, cfg: &Config) -> (r: String)
    ensures
        r@ == chosen_name(text::opt_view(*given), cfg@.active_endpoint),
{
    match given {
        Some(n) => n.clone(),
        None => text::unwrap_or_empty(&cfg.active_endpoint),
    }
}

/// The endpoint to use, with the model that was given; `None` where the
/// settings have no such endpoint.
pub fn choose_endpoint(cfg: &Config, name: &str, model: &Option<String>) -> (r: Option<
    EndpointConfig,
>)
    requires
        cfg.wf(),
    ensures
        match r {
            Some(ep) => cfg@.endpoints.dom().contains(name@) && ep@ == with_model(
                cfg@.endpoints[name@],
                text::opt_view(*model),
            ),
            None => !cfg@.endpoints.dom().contains(name@),
        },
{
    match cfg.endpoints.get(name) {
        Some(ep) => {
            let mut chosen = ep.clone();
            match model {
                Some(m) => {
                    chosen.model = m.clone();
                },
                None => {},
            }
            Some(chosen)
        },
        None => None,
    }
}

/// The notice about an endpoint that the settings do not have.
pub fn unknown_endpoint(name: &str) -> (r: String)
    ensures
        r@ == "엔드포인트 '"@ + name@ + "' 이(가) 없습니다"@,
{
    let mut out = "엔드포인트 '".to_string();
    out.append(name);
    out.append("' 이(가) 없습니다");
    out
}

/// Whether the prompt of a run is read from the standard input.
pub fn reads_stdin(args: &RunArgs) -> (r: bool)
    ensures
        r == (args.prompt@ == "-"@),
{
    text::str_eq(&args.prompt, "-")
}

/// The prompt that was read from the standard input: without the white space
/// around it.
pub fn read_stdin_trimmed(input: &str) -> (r: String)
    ensures
        r@ == text::trimmed(input@),
{
    text::trim(input).to_string()
}

/// Whether progress is shown in colour: not where it is switched off, and only
/// on a terminal.
pub fn should_use_color(no_color: bool, terminal: bool) -> (r: bool)
    ensures
        r == (!no_color && terminal),
{
    !no_color && terminal
}

/// A line of progress in a colour.
pub open spec fn colored(code: Seq<char>, line: Seq<char>, use_color: bool) -> Seq<char> {
    if use_color {
        code + line + "\x1b[0m"@
    } else {
        line
    }
}

/// A line of progress in a colour.
fn color_line(code: &str, line: &str, use_color: bool) -> (r: String)
    ensures
        r@ == colored(code@, line@, use_color),
{
    if !use_color {
        return line.to_string();
    }
    let mut out = code.to_string();
    out.append(line);
    out.append("\x1b[0m");
    out
}

/// The line about a segment that begins.
pub fn segment_started(index: u32, depth: u32, use_color: bool) -> (r: String)
    ensures
        r@ == colored(
            "\x1b[36m"@,
            "세그먼트 "@ + text::decimal(index as nat) + " 시작 (depth "@ + text::decimal(
                depth as nat,
            ) + ")"@,
            use_color,
        ),
{
    let mut line = "세그먼트 ".to_string();
    text::push_decimal(&mut line, index as u64);
    line.append(" 시작 (depth ");
    text::push_decimal(&mut line, depth as u64);
    line.append(")");
    color_line("\x1b[36m", &line, use_color)
}

/// The line about a segment that has ended.
pub fn segment_ended(index: u32, status: SegmentStatus, use_color: bool) -> (r: String)
    ensures
        r@ == colored(
            "\x1b[32m"@,
            "세그먼트 "@ + text::decimal(index as nat) + " 종료: "@ + status.name(),
            use_color,
        ),
{
    let mut line = "세그먼트 ".to_string();
    text::push_decimal(&mut line, index as u64);
    line.append(" 종료: ");
    line.append(status.as_str());
    color_line("\x1b[32m", &line, use_color)
}

/// The line about a chain that has ended.
pub fn chain_ended(outcome: RunOutcome, use_color: bool) -> (r: String)
    ensures
        r@ == colored("\x1b[1m"@, "체인 종료: "@ + outcome.name(), use_color),
{
    let mut line = "체인 종료: ".to_string();
    line.append(outcome.as_str());
    color_line("\x1b[1m", &line, use_color)
}

/// The servers of the settings with what they are for, in the order of their
/// names; a server without a description is described by a given text.
pub open spec fn servers_of(entries: Seq<(String, McpConfig)>, none: Seq<char>) -> Seq<
    (Seq<char>, Seq<char>),
> {
    entries.map_values(
        |e: (String, McpConfig)|
            (
                e.0@,
                match e.1.description {
                    Some(d) => d@,
                    None => none,
                },
            ),
    )
}

/// The servers of the settings with what they are for.
pub fn mcp_index(cfg: &Config, none: &str) -> (r: Vec<McpIndex>)
    ensures
        prompt::server_views(r@) == servers_of(cfg.mcp.entries@, none@),
{
    let entries = &cfg.mcp.entries;
    let mut out: Vec<McpIndex> = Vec::new();
    let mut i: usize = 0;
    while i < entries.len()
        invariant
            i <= entries.len(),
            out@.len() == i,
            forall|k: int|
                0 <= k < i ==> (#[trigger] out@[k])@ == servers_of(entries@, none@)[k],
        decreases entries.len() - i,
    {
        let description = match &entries[i].1.description {
            Some(d) => d.clone(),
            None => none.to_string(),
        };
        out.push(McpIndex { name: entries[i].0.clone(), description });
        i = i + 1;
    }
    proof {
        assert(prompt::server_views(out@) =~= servers_of(entries@, none@));
    }
    out
}

// ---------------------------------------------------------------------------
// A segment of a chain
// ---------------------------------------------------------------------------

/// What the next segment is run with: the limits are those of the endpoint and
/// of the settings.
pub fn segment_params(
    endpoint: &EndpointConfig,
    system_prompt: &str,
    user_prompt: &str,
    context: &ContextConfig,
    max_depth: u32,
) -> (r: SegmentParams)
    ensures
        r.endpoint@ == endpoint@,
        r.temperature_pct is None,
        r.system_prompt@ == system_prompt@,
        r.user_prompt@ == user_prompt@,
        r.max_iterations == endpoint.max_iterations,
        r.context_tokens == endpoint.context_tokens,
        r.handoff_threshold_pct == context.handoff_threshold_pct,
        r.max_handoff_depth == max_depth,
        r.handoff_warn_depth == context.handoff_warn_depth,
{
    SegmentParams {
        endpoint: endpoint.clone(),
        temperature_pct: None,
        system_prompt: system_prompt.to_string(),
        user_prompt: user_prompt.to_string(),
        max_iterations: endpoint.max_iterations,
        context_tokens: endpoint.context_tokens,
        handoff_threshold_pct: context.handoff_threshold_pct,
        max_handoff_depth: max_depth,
        handoff_warn_depth: context.handoff_warn_depth,
    }
}

/// What is noted of a segment when it begins. Its number in the chain is its
/// depth.
pub fn run_start(
    cwd: &str,
    endpoint_name: &str,
    model: &str,
    prompt: &str,
    chain_id: &str,
    depth: u32,
    parent_run_id: Option<i64>,
) -> (r: RunStart)
    ensures
        r.cwd@ == cwd@,
        r.endpoint@ == endpoint_name@,
        text::opt_view(r.model) == Some(model@),
        r.prompt@ == prompt@,
        r.chain_id@ == chain_id@,
        r.segment_index == depth,
        r.handoff_depth == depth,
        r.parent_run_id == parent_run_id,
{
    RunStart {
        cwd: cwd.to_string(),
        endpoint: endpoint_name.to_string(),
        model: Some(model.to_string()),
        prompt: prompt.to_string(),
        chain_id: chain_id.to_string(),
        segment_index: depth,
        handoff_depth: depth,
        parent_run_id,
    }
}

/// What is noted of a segment when it has ended.
pub fn run_finish(result: &SegmentResult, duration_ms: u64) -> (r: RunFinish)
    ensures
        r.status == RunStatus::named(result.status.name()),
        text::opt_view(r.result) == Some(result@.content),
        r.input_tokens == Some(result.input_tokens),
        r.output_tokens == Some(result.output_tokens),
        text::views(r.files_touched@) == result@.files_touched,
        r.duration_ms == Some(duration_ms),
{
    RunFinish {
        status: RunStatus::from_str(result.status.as_str()),
        result: Some(result.content.clone()),
        input_tokens: Some(result.input_tokens),
        output_tokens: Some(result.output_tokens),
        files_touched: session::clone_texts(&result.files_touched),
        duration_ms: Some(duration_ms),
    }
}

// ---------------------------------------------------------------------------
// A chain
// ---------------------------------------------------------------------------

/// Texts with those added that are not among them yet.
pub open spec fn merged(files: Seq<Seq<char>>, more: Seq<Seq<char>>) -> Seq<Seq<char>>
    decreases more.len(),
{
    if more.len() == 0 {
        files
    } else {
        let before = merged(files, more.drop_last());
        if before.contains(more.last()) {
            before
        } else {
            before.push(more.last())
        }
    }
}

/// Adds the texts that are not in a list yet.
pub fn merge(files: &mut Vec<String>, more: &[String])
    ensures
        text::views(final(files)@) == merged(text::views(old(files)@), text::views(more@)),
{
    let ghost start = text::views(files@);
    let ghost all = text::views(more@);
    let mut i: usize = 0;
    proof {
        assert(all.take(0) =~= Seq::empty());
    }
    while i < more.len()
        invariant
            i <= more.len(),
            all == text::views(more@),
            text::views(files@) == merged(start, all.take(i as int)),
        decreases more.len() - i,
    {
        let ghost before = text::views(files@);
        proof {
            assert(all.take(i + 1).drop_last() =~= all.take(i as int));
            assert(all.take(i + 1).last() == more@[i as int]@);
        }
        if !text::is_in(files, &more[i]) {
            files.push(more[i].clone());
            proof {
                assert(text::views(files@) =~= before.push(more@[i as int]@));
            }
        }
        i = i + 1;
    }
    proof {
        assert(all.take(all.len() as int) =~= all);
    }
}

/// Adds tokens to a sum, up to the largest machine number.
pub open spec fn sum_of(a: u64, b: u64) -> u64 {
    context::capped(a as nat + b as nat)
}

/// Adds tokens to a sum, up to the largest machine number.
pub fn add_tokens(a: u64, b: u64) -> (r: u64)
    ensures
        r == sum_of(a, b),
{
    if a > u64::MAX - b {
        u64::MAX
    } else {
        a + b
    }
}

/// A chain in progress.
pub struct Chain {
    pub max_depth: u32,
    /// The time that the chain may take, in seconds.
    pub max_time: Option<u64>,
    /// The handoffs so far, which is also the number of the next segment.
    pub depth: u32,
    /// The prompt of the next segment.
    pub prompt: String,
    /// The run that the next segment follows.
    pub parent_run_id: Option<i64>,
    pub run_ids: Vec<i64>,
    pub files_touched: Vec<String>,
    pub input_tokens: u64,
    pub output_tokens: u64,
    pub statuses: Vec<SegmentStatus>,
}

/// The model of a chain in progress.
pub struct ChainModel {
    pub max_depth: u32,
    pub max_time: Option<u64>,
    pub depth: u32,
    pub prompt: Seq<char>,
    pub parent_run_id: Option<i64>,
    pub run_ids: Seq<i64>,
    pub files_touched: Seq<Seq<char>>,
    pub input_tokens: u64,
    pub output_tokens: u64,
    pub statuses: Seq<SegmentStatus>,
}

impl View for Chain {
    type V = ChainModel;

    open spec fn view(&self) -> ChainModel {
        ChainModel {
            max_depth: self.max_depth,
            max_time: self.max_time,
            depth: self.depth,
            prompt: self.prompt@,
            parent_run_id: self.parent_run_id,
            run_ids: self.run_ids@,
            files_touched: text::views(self.files_touched@),
            input_tokens: self.input_tokens,
            output_tokens: self.output_tokens,
            statuses: self.statuses@,
        }
    }
}

/// The beginning of a chain.
pub open spec fn begun(prompt: Seq<char>, max_depth: u32, max_time: Option<u64>) -> ChainModel {
    ChainModel {
        max_depth,
        max_time,
        depth: 0,
        prompt,
        parent_run_id: None,
        run_ids: Seq::empty(),
        files_touched: Seq::empty(),
        input_tokens: 0,
        output_tokens: 0,
        statuses: Seq::empty(),
    }
}

/// Why a chain does not go on: it is too deep, has taken too long, or was
/// interrupted. The first that holds counts.
pub open spec fn stop_of(c: ChainModel, elapsed_secs: u64, interrupted: bool) -> Option<RunOutcome> {
    if c.depth >= c.max_depth {
        Some(RunOutcome::Incomplete)
    } else if c.max_time is Some && elapsed_secs >= c.max_time->0 {
        Some(RunOutcome::Incomplete)
    } else if interrupted {
        Some(RunOutcome::Interrupted)
    } else {
        None
    }
}

/// A chain after the run of its next segment was noted.
pub open spec fn noted(c: ChainModel, run_id: i64) -> ChainModel {
    ChainModel { run_ids: c.run_ids.push(run_id), parent_run_id: Some(run_id), ..c }
}

/// Whether a segment has handed over.
pub open spec fn hands_over(r: ResultModel) -> bool {
    r.handoff == Some(HandoffDecision::Handoff) && r.status == SegmentStatus::Completed
        && r.handoff_response is Some
}

/// What a chain came to, where its last segment has not handed over.
pub open spec fn outcome_of(r: ResultModel) -> RunOutcome {
    if r.handoff == Some(HandoffDecision::Complete) && r.status == SegmentStatus::Completed {
        RunOutcome::Completed
    } else {
        match r.status {
            SegmentStatus::Failed => RunOutcome::Failed,
            SegmentStatus::Interrupted => RunOutcome::Interrupted,
            _ => RunOutcome::Incomplete,
        }
    }
}

/// A chain after a segment: its files, tokens and status are added, and where
/// it has handed over, the next prompt is made of the handoff.
pub open spec fn chain_after(c: ChainModel, r: ResultModel, touched: Seq<Seq<char>>) -> ChainModel {
    let added = ChainModel {
        files_touched: merged(c.files_touched, touched),
        input_tokens: sum_of(c.input_tokens, r.input_tokens),
        output_tokens: sum_of(c.output_tokens, r.output_tokens),
        statuses: c.statuses.push(r.status),
        ..c
    };
    if hands_over(r) {
        ChainModel {
            depth: (c.depth + 1) as u32,
            prompt: handoff::segment_prompt(
                r.handoff_response->0.summary,
                r.handoff_response->0.next_task,
            ),
            ..added
        }
    } else {
        added
    }
}

impl Chain {
    /// The beginning of a chain. A depth that was given goes before the one of
    /// the settings.
    pub fn begin(prompt: &str, args: &RunArgs, cfg: &Config) -> (r: Self)
        ensures
            r@ == begun(
                prompt@,
                match args.max_handoff_depth {
                    Some(d) => d,
                    None => cfg@.context.max_handoff_depth,
                },
                args.max_time,
            ),
    {
        let r = Chain {
            max_depth: match args.max_handoff_depth {
                Some(d) => d,
                None => cfg.context.max_handoff_depth,
            },
            max_time: args.max_time,
            depth: 0,
            prompt: prompt.to_string(),
            parent_run_id: None,
            run_ids: Vec::new(),
            files_touched: Vec::new(),
            input_tokens: 0,
            output_tokens: 0,
            statuses: Vec::new(),
        };
        proof {
            assert(r@.files_touched =~= Seq::empty());
            assert(r@.run_ids =~= Seq::empty());
            assert(r@.statuses =~= Seq::empty());
        }
        r
    }

    /// Whether the chain ends before its next segment, and with what.
    pub fn stop(&self, elapsed_secs: u64, interrupted: bool) -> (r: Option<RunOutcome>)
        ensures
            r == stop_of(self@, elapsed_secs, interrupted),
    {
        if self.depth >= self.max_depth {
            return Some(RunOutcome::Incomplete);
        }
        match self.max_time {
            Some(t) => {
                if elapsed_secs >= t {
                    return Some(RunOutcome::Incomplete);
                }
            },
            None => {},
        }
        if interrupted {
            return Some(RunOutcome::Interrupted);
        }
        None
    }

    /// Notes the run of the next segment; the segment after it follows this
    /// run.
    pub fn note_run(&mut self, run_id: i64)
        ensures
            final(self)@ == noted(old(self)@, run_id),
    {
        self.run_ids.push(run_id);
        self.parent_run_id = Some(run_id);
        proof {
            assert(self@.run_ids =~= old(self)@.run_ids.push(run_id));
        }
    }

    /// Takes what a segment came to and the files that its tools have touched.
    /// `None` means that the chain goes on with another segment.
    pub fn advance(&mut self, result: &SegmentResult, touched: &[String]) -> (r: Option<RunOutcome>)
        requires
            old(self).depth < old(self).max_depth,
        ensures
            final(self)@ == chain_after(old(self)@, result@, text::views(touched@)),
            r == if hands_over(result@) {
                None
            } else {
                Some(outcome_of(result@))
            },
    {
        merge(&mut self.files_touched, touched);
        self.input_tokens = add_tokens(self.input_tokens, result.input_tokens);
        self.output_tokens = add_tokens(self.output_tokens, result.output_tokens);
        self.statuses.push(result.status);
        proof {
            assert(self@.statuses =~= old(self)@.statuses.push(result.status));
        }
        let completed = match result.status {
            SegmentStatus::Completed => true,
            _ => false,
        };
        if completed {
            match result.handoff {
                Some(HandoffDecision::Handoff) => {
                    match &result.handoff_response {
                        Some(h) => {
                            self.prompt = build_new_segment_prompt(h);
                            self.depth = self.depth + 1;
                            return None;
                        },
                        None => {},
                    }
                },
                Some(HandoffDecision::Complete) => {
                    return Some(RunOutcome::Completed);
                },
                _ => {},
            }
        }
        match result.status {
            SegmentStatus::Failed => Some(RunOutcome::Failed),
            SegmentStatus::Interrupted => Some(RunOutcome::Interrupted),
            _ => Some(RunOutcome::Incomplete),
        }
    }
}

// ---------------------------------------------------------------------------
// The report
// ---------------------------------------------------------------------------

/// What a report says of a chain.
pub struct Report {
    pub version: String,
    pub status: String,
    pub chain_id: String,
    pub segments: usize,
    pub handoff_depth: u32,
    pub endpoint: String,
    pub model: String,
    pub input_tokens: u64,
    pub output_tokens: u64,
    pub duration_ms: u64,
    pub files_touched: Vec<String>,
    pub result: String,
    pub run_ids: Vec<i64>,
}

/// An integer as a JSON number.
pub open spec fn integer(n: i64) -> JsonModel {
    if n >= 0 {
        JsonModel::UInt(n as u64)
    } else {
        JsonModel::Int(n)
    }
}

/// A report as a JSON object.
pub open spec fn report_json(r: Report) -> JsonModel {
    JsonModel::Object(
        seq![
            ("version"@, JsonModel::Str(r.version@)),
            ("status"@, JsonModel::Str(r.status@)),
            ("chain_id"@, JsonModel::Str(r.chain_id@)),
            ("segments"@, JsonModel::UInt(r.segments as u64)),
            ("handoff_depth"@, JsonModel::UInt(r.handoff_depth as u64)),
            ("endpoint"@, JsonModel::Str(r.endpoint@)),
            ("model"@, JsonModel::Str(r.model@)),
            ("input_tokens"@, JsonModel::UInt(r.input_tokens)),
            ("output_tokens"@, JsonModel::UInt(r.output_tokens)),
            ("duration_ms"@, JsonModel::UInt(r.duration_ms)),
            (
                "files_touched"@,
                JsonModel::Array(
                    text::views(r.files_touched@).map_values(|s: Seq<char>| JsonModel::Str(s)),
                ),
            ),
            ("result"@, JsonModel::Str(r.result@)),
            ("runs"@, JsonModel::Array(r.run_ids@.map_values(|n: i64| integer(n)))),
        ],
    )
}

/// A report as a JSON object.
pub fn build_json_report(report: &Report) -> (r: Json)
    ensures
        r@ == report_json(*report),
{
    let mut files: Vec<Json> = Vec::new();
    let mut i: usize = 0;
    while i < report.files_touched.len()
        invariant
            i <= report.files_touched.len(),
            files@.len() == i,
            forall|k: int|
                0 <= k < i ==> (#[trigger] files@[k])@ == JsonModel::Str(
                    report.files_touched@[k]@,
                ),
        decreases report.files_touched.len() - i,
    {
        files.push(Json::string(&report.files_touched[i]));
        i = i + 1;
    }
    let mut runs: Vec<Json> = Vec::new();
    let mut j: usize = 0;
    while j < report.run_ids.len()
        invariant
            j <= report.run_ids.len(),
            runs@.len() == j,
            forall|k: int| 0 <= k < j ==> (#[trigger] runs@[k])@ == integer(report.run_ids@[k]),
        decreases report.run_ids.len() - j,
    {
        let n = report.run_ids[j];
        if n >= 0 {
            runs.push(Json::UInt(n as u64));
        } else {
            runs.push(Json::Int(n));
        }
        j = j + 1;
    }
    proof {
        assert(Json::items(files@) =~= text::views(report.files_touched@).map_values(
            |s: Seq<char>| JsonModel::Str(s),
        ));
        assert(Json::items(runs@) =~= report.run_ids@.map_values(|n: i64| integer(n)));
    }
    let mut v: Vec<(String, Json)> = Vec::new();
    v.push(("version".to_string(), Json::string(&report.version)));
    v.push(("status".to_string(), Json::string(&report.status)));
    v.push(("chain_id".to_string(), Json::string(&report.chain_id)));
    v.push(("segments".to_string(), Json::UInt(report.segments as u64)));
    v.push(("handoff_depth".to_string(), Json::UInt(report.handoff_depth as u64)));
    v.push(("endpoint".to_string(), Json::string(&report.endpoint)));
    v.push(("model".to_string(), Json::string(&report.model)));
    v.push(("input_tokens".to_string(), Json::UInt(report.input_tokens)));
    v.push(("output_tokens".to_string(), Json::UInt(report.output_tokens)));
    v.push(("duration_ms".to_string(), Json::UInt(report.duration_ms)));
    v.push(("files_touched".to_string(), Json::array(files)));
    v.push(("result".to_string(), Json::string(&report.result)));
    v.push(("runs".to_string(), Json::array(runs)));
    proof {
        assert(Json::members(v@) =~= report_json(*report)->Object_0);
    }
    Json::object(v)
}

/// The report of a chain that has ended. The status is that of the outcome.
pub fn finish_chain(
    chain: &Chain,
    outcome: RunOutcome,
    version: &str,
    chain_id: &str,
    endpoint_name: &str,
    model: &str,
    duration_ms: u64,
    result: &str,
) -> (r: Report)
    ensures
        r.version@ == version@,
        r.status@ == outcome.name(),
        r.chain_id@ == chain_id@,
        r.segments == chain@.statuses.len(),
        r.handoff_depth == chain@.depth,
        r.endpoint@ == endpoint_name@,
        r.model@ == model@,
        r.input_tokens == chain@.input_tokens,
        r.output_tokens == chain@.output_tokens,
        r.duration_ms == duration_ms,
        text::views(r.files_touched@) == chain@.files_touched,
        r.result@ == result@,
        r.run_ids@ == chain@.run_ids,
{
    let mut files: Vec<String> = Vec::new();
    let mut i: usize = 0;
    while i < chain.files_touched.len()
        invariant
            i <= chain.files_touched.len(),
            files@.len() == i,
            forall|k: int| 0 <= k < i ==> (#[trigger] files@[k])@ == chain.files_touched@[k]@,
        decreases chain.files_touched.len() - i,
    {
        files.push(chain.files_touched[i].clone());
        i = i + 1;
    }
    let mut runs: Vec<i64> = Vec::new();
    let mut j: usize = 0;
    while j < chain.run_ids.len()
        invariant
            j <= chain.run_ids.len(),
            runs@ =~= chain.run_ids@.take(j as int),
        decreases chain.run_ids.len() - j,
    {
        runs.push(chain.run_ids[j]);
        j = j + 1;
    }
    proof {
        assert(text::views(files@) =~= text::views(chain.files_touched@));
        assert(runs@ =~= chain.run_ids@);
    }
    Report {
        version: version.to_string(),
        status: outcome.as_str().to_string(),
        chain_id: chain_id.to_string(),
        segments: chain.statuses.len(),
        handoff_depth: chain.depth,
        endpoint: endpoint_name.to_string(),
        model: model.to_string(),
        input_tokens: chain.input_tokens,
        output_tokens: chain.output_tokens,
        duration_ms,
        files_touched: files,
        result: result.to_string(),
        run_ids: runs,
    }
}

/// What `run` writes to the standard output at the end: the report as JSON, or
/// the result.
pub fn final_output(report: &Report, json: bool) -> (r: String)
    ensures
        r@ == if json {
            crate::json::json_print(report_json(*report))
        } else {
            report.result@
        },
{
    if json {
        build_json_report(report).to_text()
    } else {
        report.result.clone()
    }
}

/// What `run` writes to the standard output where the chain stops before a
/// segment: the report as JSON, or nothing.
pub fn stop_output(report: &Report, json: bool) -> (r: Option<String>)
    ensures
        text::opt_view(r) == (if json {
            Some(crate::json::json_print(report_json(*report)))
        } else {
            None
        }),
{
    if json {
        Some(build_json_report(report).to_text())
    } else {
        None
    }
}

// ---------------------------------------------------------------------------
// Laws
// ---------------------------------------------------------------------------

/// A chain never becomes deeper than it may: a segment is only begun below the
/// limit, and it adds at most one handoff.
pub proof fn law_depth_is_bounded(
    c: ChainModel,
    elapsed_secs: u64,
    interrupted: bool,
    r: ResultModel,
    touched: Seq<Seq<char>>,
)
    requires
        stop_of(c, elapsed_secs, interrupted) is None,
    ensures
        chain_after(c, r, touched).depth <= c.max_depth,
        c.depth <= chain_after(c, r, touched).depth,
        chain_after(c, r, touched).max_depth == c.max_depth,
{
}

/// A chain is only complete where its last segment has said so itself.
pub proof fn law_complete_is_said(r: ResultModel)
    requires
        !hands_over(r),
        outcome_of(r) == RunOutcome::Completed,
    ensures
        r.status == SegmentStatus::Completed,
        r.handoff == Some(HandoffDecision::Complete),
{
}

/// A segment is noted under the state that it ended in, and never as one that
/// still runs.
pub proof fn law_segments_end(status: SegmentStatus)
    ensures
        RunStatus::named(status.name()).name() == status.name(),
        RunStatus::named(status.name()) != RunStatus::Running,
{
    reveal_strlit("completed");
    reveal_strlit("failed");
    reveal_strlit("incomplete");
    reveal_strlit("interrupted");
    assert("completed"@.len() == 9);
    assert("failed"@.len() == 6);
    assert("incomplete"@.len() == 10);
    assert("interrupted"@.len() == 11);
}

/// The files of a chain are listed once each, and none is forgotten.
pub proof fn law_files_are_kept_once(files: Seq<Seq<char>>, more: Seq<Seq<char>>)
    requires
        forall|j: int, k: int| 0 <= j < k < files.len() ==> files[j] != files[k],
    ensures
        forall|j: int, k: int|
            0 <= j < k < merged(files, more).len() ==> #[trigger] merged(files, more)[j]
                != #[trigger] merged(files, more)[k],
        files.is_prefix_of(merged(files, more)),
        forall|k: int| 0 <= k < more.len() ==> merged(files, more).contains(#[trigger] more[k]),
    decreases more.len(),
{
    if more.len() > 0 {
        let shorter = more.drop_last();
        law_files_are_kept_once(files, shorter);
        let before = merged(files, shorter);
        let out = merged(files, more);
        let n = before.len() as int;
        assert forall|j: int, k: int| 0 <= j < k < out.len() implies #[trigger] out[j]
            != #[trigger] out[k] by {
            assert(out[j] == before[j]);
            if k < n {
                assert(out[k] == before[k]);
            }
        }
        assert forall|k: int| 0 <= k < more.len() implies out.contains(#[trigger] more[k]) by {
            if k < shorter.len() {
                assert(shorter[k] == more[k]);
                let i = choose|i: int| 0 <= i < before.len() && before[i] == more[k];
                assert(out[i] == more[k]);
            } else if !before.contains(more.last()) {
                assert(out[n] == more[k]);
            }
        }
    }
}

} // verus!
