//! A segment of work.
//!
//! A segment is a conversation with the model in which the model calls tools
//! until it answers without calling one. `Segment` decides what is done next:
//! `next` says what to ask the model, `on_reply` and `on_handoff` take in what
//! came back, and `on_tool_result` takes in what a tool gave. Whoever runs the
//! segment sends the requests and runs the tools.
use vstd::prelude::*;

use crate::agent::context;
use crate::agent::guards;
use crate::agent::guards::{GuardContext, GuardModel, GuardOutcome};
use crate::agent::handoff;
use crate::agent::handoff::{HandoffDecision, HandoffDepthGuard, HandoffModel, HandoffResponse};
use crate::config::{EndpointConfig, EndpointModel};
use crate::json;
use crate::llm;
use crate::llm::{
    ChatRequest, ChatResponse, LlmError, Message, MessageModel, RequestModel, ResponseModel,
    ToolCall, ToolCallDelta, ToolCallDeltaModel, ToolCallFunctionDelta, ToolDef,
    ToolDefModel,
};
use crate::text;

verus! {

/// How a segment ended.
#[derive(Debug, Clone, Copy, PartialEq, Eq, Structural)]
pub enum SegmentStatus {
    /// The task is done, or handed over.
    Completed,
    /// The model could not be reached.
    Failed,
    /// A guard fired, or the iterations ran out.
    Incomplete,
    /// It was interrupted.
    Interrupted,
}

impl SegmentStatus {
    /// The name of a status.
    pub open spec fn name(self) -> Seq<char> {
        match self {
            SegmentStatus::Completed => "completed"@,
            SegmentStatus::Failed => "failed"@,
            SegmentStatus::Incomplete => "incomplete"@,
            SegmentStatus::Interrupted => "interrupted"@,
        }
    }

    /// The name of the status.
    pub fn as_str(&self) -> (r: &'static str)
        ensures
            r@ == self.name(),
    {
        match self {
            SegmentStatus::Completed => "completed",
            SegmentStatus::Failed => "failed",
            SegmentStatus::Incomplete => "incomplete",
            SegmentStatus::Interrupted => "interrupted",
        }
    }
}

/// What a segment came to.
pub struct SegmentResult {
    pub status: SegmentStatus,
    pub content: String,
    pub reasoning_content: String,
    pub input_tokens: u64,
    pub output_tokens: u64,
    pub files_touched: Vec<String>,
    pub depth: u32,
    /// What a handoff came to; a plain answer counts as complete.
    pub handoff: Option<HandoffDecision>,
    /// The summary and the task of a handoff.
    pub handoff_response: Option<HandoffResponse>,
}

/// The model of what a segment came to.
pub struct ResultModel {
    pub status: SegmentStatus,
    pub content: Seq<char>,
    pub reasoning: Seq<char>,
    pub input_tokens: u64,
    pub output_tokens: u64,
    pub files_touched: Seq<Seq<char>>,
    pub depth: u32,
    pub handoff: Option<HandoffDecision>,
    pub handoff_response: Option<HandoffModel>,
}

impl View for SegmentResult {
    type V = ResultModel;

    open spec fn view(&self) -> ResultModel {
        ResultModel {
            status: self.status,
            content: self.content@,
            reasoning: self.reasoning_content@,
            input_tokens: self.input_tokens,
            output_tokens: self.output_tokens,
            files_touched: text::views(self.files_touched@),
            depth: self.depth,
            handoff: self.handoff,
            handoff_response: match self.handoff_response {
                Some(h) => Some(h@),
                None => None,
            },
        }
    }
}

/// What a segment is run with. The temperature is in hundredths.
pub struct SegmentParams {
    pub endpoint: EndpointConfig,
    pub temperature_pct: Option<u32>,
    pub system_prompt: String,
    pub user_prompt: String,
    pub max_iterations: u32,
    pub context_tokens: u64,
    pub handoff_threshold_pct: u8,
    pub max_handoff_depth: u32,
    pub handoff_warn_depth: u32,
}

/// The model of what a segment is run with.
pub struct ParamsModel {
    pub endpoint: EndpointModel,
    pub temperature_pct: Option<u32>,
    pub system_prompt: Seq<char>,
    pub user_prompt: Seq<char>,
    pub max_iterations: u32,
    pub context_tokens: u64,
    pub handoff_threshold_pct: u8,
    pub max_handoff_depth: u32,
    pub handoff_warn_depth: u32,
}

impl View for SegmentParams {
    type V = ParamsModel;

    open spec fn view(&self) -> ParamsModel {
        ParamsModel {
            endpoint: self.endpoint@,
            temperature_pct: self.temperature_pct,
            system_prompt: self.system_prompt@,
            user_prompt: self.user_prompt@,
            max_iterations: self.max_iterations,
            context_tokens: self.context_tokens,
            handoff_threshold_pct: self.handoff_threshold_pct,
            max_handoff_depth: self.max_handoff_depth,
            handoff_warn_depth: self.handoff_warn_depth,
        }
    }
}

/// A segment in progress.
pub struct Segment {
    pub params: SegmentParams,
    pub tools: Vec<ToolDef>,
    /// The depth that the segment began with.
    pub depth: u32,
    /// The depth, one more after a handoff.
    pub depth_guard: HandoffDepthGuard,
    pub messages: Vec<Message>,
    pub guard: GuardContext,
    pub input_tokens: u64,
    pub output_tokens: u64,
    pub content: String,
    pub reasoning: String,
    /// The iterations that were begun.
    pub iterations: u32,
    /// Whether the work is to be handed over, however full the context is.
    pub handing_over: bool,
}

/// The model of a segment in progress.
pub struct SegmentModel {
    pub params: ParamsModel,
    pub tools: Seq<ToolDefModel>,
    pub depth: u32,
    pub guard_depth: u32,
    pub messages: Seq<MessageModel>,
    pub guard: GuardModel,
    pub input_tokens: u64,
    pub output_tokens: u64,
    pub content: Seq<char>,
    pub reasoning: Seq<char>,
    pub iterations: u32,
    pub handing_over: bool,
}

impl View for Segment {
    type V = SegmentModel;

    open spec fn view(&self) -> SegmentModel {
        SegmentModel {
            params: self.params@,
            tools: llm::tool_def_views(self.tools@),
            depth: self.depth,
            guard_depth: self.depth_guard.depth,
            messages: llm::message_views(self.messages@),
            guard: self.guard@,
            input_tokens: self.input_tokens,
            output_tokens: self.output_tokens,
            content: self.content@,
            reasoning: self.reasoning@,
            iterations: self.iterations,
            handing_over: self.handing_over,
        }
    }
}

/// What is done next in a segment.
pub enum SegmentStep {
    /// The model is asked for a handoff.
    AskHandoff(ChatRequest),
    /// The model is asked to go on.
    AskModel(ChatRequest),
    /// The segment has ended.
    Finished(SegmentResult),
}

/// What follows from a reply of the model.
pub enum Reaction {
    /// The segment has ended.
    Finished(SegmentResult),
    /// A guard ended the segment, for the given reason.
    Guarded(SegmentResult, String),
    /// The tools are called one after the other.
    RunTools(Vec<ToolCall>),
    /// The model is urged to go on, or to hand the work over, for the given
    /// reason.
    Nudged(String),
    /// The segment goes on.
    Again,
}

// ---------------------------------------------------------------------------
// The rules of a segment
// ---------------------------------------------------------------------------

/// The system prompt and the task.
pub open spec fn opening(p: ParamsModel) -> Seq<MessageModel> {
    seq![
        llm::text_message("system"@, p.system_prompt),
        llm::text_message("user"@, p.user_prompt),
    ]
}

/// A segment at its beginning.
pub open spec fn begun(p: ParamsModel, tools: Seq<ToolDefModel>, depth: u32) -> SegmentModel {
    SegmentModel {
        params: p,
        tools,
        depth,
        guard_depth: depth,
        messages: opening(p),
        guard: guards::fresh_guard(),
        input_tokens: 0,
        output_tokens: 0,
        content: Seq::empty(),
        reasoning: Seq::empty(),
        iterations: 0,
        handing_over: false,
    }
}

/// What a segment comes to when it ends in the given way.
pub open spec fn ended(
    s: SegmentModel,
    status: SegmentStatus,
    depth: u32,
    files: Seq<Seq<char>>,
    decision: Option<HandoffDecision>,
    response: Option<HandoffModel>,
) -> ResultModel {
    ResultModel {
        status,
        content: s.content,
        reasoning: s.reasoning,
        input_tokens: s.input_tokens,
        output_tokens: s.output_tokens,
        files_touched: files,
        depth,
        handoff: decision,
        handoff_response: response,
    }
}

/// A segment with one more question asked.
pub open spec fn asked(s: SegmentModel) -> SegmentModel {
    SegmentModel { iterations: (s.iterations + 1) as u32, ..s }
}

/// The request that goes on with the work.
pub open spec fn work_request(s: SegmentModel) -> RequestModel {
    RequestModel {
        model: s.params.endpoint.model,
        messages: s.messages,
        tools: s.tools,
        stream: true,
        max_tokens: 4096,
        temperature_pct: s.params.temperature_pct,
        reasoning_effort: s.params.endpoint.reasoning_effort,
    }
}

/// How many tokens a summary may take: a quarter of the context, or as many as
/// any answer where the size of the context is not known.
pub open spec fn handoff_tokens(context_tokens: u64) -> u64 {
    if context_tokens == 0 {
        4096
    } else {
        handoff::summary_tokens(context_tokens)
    }
}

/// The request for a handoff: the trimmed conversation and the instruction,
/// without tools.
pub open spec fn handoff_request(s: SegmentModel) -> RequestModel {
    RequestModel {
        model: s.params.endpoint.model,
        messages: context::trimmed_messages(s.messages, 4).push(
            llm::text_message("user"@, handoff::handoff_prompt()),
        ),
        tools: Seq::empty(),
        stream: true,
        max_tokens: handoff_tokens(s.params.context_tokens),
        temperature_pct: s.params.temperature_pct,
        reasoning_effort: s.params.endpoint.reasoning_effort,
    }
}

/// The text of a response that the user sees: its content, or its reasoning
/// where the content is blank.
pub open spec fn visible(content: Option<Seq<char>>, reasoning: Option<Seq<char>>) -> Seq<char> {
    if !text::blank(text::or_empty(content)) {
        text::or_empty(content)
    } else {
        text::or_empty(reasoning)
    }
}

/// A segment with a response taken down: the tokens that were used, the
/// reasoning, and the text. A response that calls tools adds its text, any
/// other takes the place of what was there.
pub open spec fn taken_down(s: SegmentModel, r: ResponseModel) -> SegmentModel {
    let v = visible(r.content, r.reasoning);
    SegmentModel {
        input_tokens: match r.usage.prompt_tokens {
            Some(n) => n,
            None => s.input_tokens,
        },
        output_tokens: match r.usage.completion_tokens {
            Some(n) => n,
            None => s.output_tokens,
        },
        reasoning: if text::blank(text::or_empty(r.reasoning)) {
            s.reasoning
        } else {
            s.reasoning + text::or_empty(r.reasoning)
        },
        content: if text::blank(v) {
            s.content
        } else if r.tool_calls.len() == 0 {
            v
        } else {
            s.content + v
        },
        ..s
    }
}

/// A segment with an answer counted: answers with a blank content in a row are
/// counted, also those with reasoning.
pub open spec fn counted(s: SegmentModel, content: Option<Seq<char>>) -> SegmentModel {
    SegmentModel {
        guard: GuardModel {
            empty_turns: if text::blank(text::or_empty(content)) {
                (s.guard.empty_turns + 1) as u32
            } else {
                0
            },
            ..s.guard
        },
        ..s
    }
}

/// The first of two reasons.
pub open spec fn either(a: Option<Seq<char>>, b: Option<Seq<char>>) -> Option<Seq<char>> {
    if a is Some {
        a
    } else {
        b
    }
}

/// The reason for which a guard ends the segment on an answer, if one does. The
/// guard of the build looks at an answer that calls no tool: only that one can
/// be the last.
pub open spec fn guard_reason(g: GuardModel, v: Seq<char>, tool_calls: nat) -> Option<Seq<char>> {
    either(
        guards::empty_loop(g),
        either(
            guards::stream_repetition(v),
            either(
                guards::stuck_signature(g),
                either(
                    guards::fffd_degenerate(v),
                    guards::build_guard(
                        g,
                        tool_calls == 0 && guards::speaks_of_build(text::lowercase(v)),
                    ),
                ),
            ),
        ),
    )
}

/// What is said to a model that answered nothing.
pub open spec fn nudge() -> MessageModel {
    llm::text_message("user"@, "이전 응답이 비었습니다. 도구가 필요 없으면 사용자에게 바로 답하세요."@)
}

/// What is said to a model that only announced what it is going to do.
pub const DO_IT_NOW: &'static str =
    "예고만 하지 말고 지금 도구를 호출해 작업하세요. 남은 일이 없으면 결과를 답하세요.";

/// What is said to a model that put the work off.
pub const DO_NOT_PAUSE: &'static str =
    "작업을 미루지 말고 계속 진행하세요. 모두 끝났으면 결과를 답하세요.";

/// A conversation with an answer, and what is said to it.
pub open spec fn answered(v: Seq<MessageModel>, answer: Seq<char>, advice: Seq<char>) -> Seq<
    MessageModel,
> {
    v.push(llm::text_message("assistant"@, answer)).push(llm::text_message("user"@, advice))
}

/// A segment in which an announcement was nudged.
pub open spec fn future_nudged(s: SegmentModel, v: Seq<char>) -> SegmentModel {
    SegmentModel {
        guard: guards::after_future_nudge(s.guard),
        messages: answered(s.messages, v, DO_IT_NOW@),
        ..s
    }
}

/// A segment in which a pause was nudged.
pub open spec fn pause_nudged(s: SegmentModel, v: Seq<char>) -> SegmentModel {
    SegmentModel {
        guard: guards::after_pause_nudge(s.guard),
        messages: answered(s.messages, v, DO_NOT_PAUSE@),
        ..s
    }
}

/// A segment that is going to hand the work over.
pub open spec fn to_hand_over(s: SegmentModel, v: Seq<char>) -> SegmentModel {
    SegmentModel {
        messages: s.messages.push(llm::text_message("assistant"@, v)),
        handing_over: true,
        ..s
    }
}

/// Whether calling a tool changes the state of the world.
pub open spec fn changes_state(name: Seq<char>) -> bool {
    ||| name == "write_file"@
    ||| name == "edit_file"@
    ||| name == "bash"@
    ||| name == "mcp_call"@
    ||| name == "skill_load"@
}

/// A tool call as the conversation keeps it.
pub open spec fn call_record(id: Option<Seq<char>>, name: Seq<char>, args: Seq<char>) ->
    ToolCallDeltaModel {
    ToolCallDeltaModel {
        index: Some(0),
        id,
        kind: Some("function"@),
        function: Some(llm::FunctionModel { name: Some(name), arguments: Some(args) }),
    }
}

/// The text of a tool's result, as the model sees it.
pub open spec fn result_text(result: Result<Seq<char>, Seq<char>>) -> Seq<char> {
    match result {
        Ok(t) => t,
        Err(e) => "오류: "@ + e,
    }
}

/// The two messages that record a tool call and its result.
pub open spec fn call_messages(
    id: Option<Seq<char>>,
    name: Seq<char>,
    args: Seq<char>,
    result: Result<Seq<char>, Seq<char>>,
) -> Seq<MessageModel> {
    seq![
        MessageModel {
            role: "assistant"@,
            content: None,
            tool_calls: Some(seq![call_record(id, name, args)]),
            tool_call_id: None,
            name: None,
        },
        MessageModel {
            role: "tool"@,
            content: Some(result_text(result)),
            tool_calls: None,
            tool_call_id: id,
            name: Some(name),
        },
    ]
}

/// A segment with a tool call and its result taken in. `args` is the text of
/// the call's arguments.
pub open spec fn with_tool_result(
    s: SegmentModel,
    id: Option<Seq<char>>,
    name: Seq<char>,
    args: Seq<char>,
    result: Result<Seq<char>, Seq<char>>,
) -> SegmentModel {
    SegmentModel {
        guard: guards::after_tool(
            guards::after_tool_call(
                s.guard,
                guards::progress_signature(name, args, result),
                changes_state(name),
            ),
            name,
        ),
        messages: s.messages + call_messages(id, name, args, result),
        ..s
    }
}

/// A segment that goes on with a trimmed conversation.
pub open spec fn trimmed_segment(s: SegmentModel) -> SegmentModel {
    SegmentModel {
        messages: context::trimmed_messages(s.messages, 4),
        handing_over: false,
        ..s
    }
}

// ---------------------------------------------------------------------------
// The segment
// ---------------------------------------------------------------------------

/// The text of a response that the user sees.
pub fn visible_text(resp: &ChatResponse) -> (r: String)
    ensures
        r@ == visible(resp@.content, resp@.reasoning),
{
    let content = text::unwrap_or_empty(&resp.content);
    if !text::is_blank(content.as_str()) {
        return content;
    }
    text::unwrap_or_empty(&resp.reasoning_content)
}

/// Whether calling a tool changes the state of the world.
pub fn is_state_change_tool(name: &str) -> (r: bool)
    ensures
        r == changes_state(name@),
{
    text::str_eq(name, "write_file") || text::str_eq(name, "edit_file") || text::str_eq(
        name,
        "bash",
    ) || text::str_eq(name, "mcp_call") || text::str_eq(name, "skill_load")
}

/// A tool call as the conversation keeps it.
pub fn tool_call_delta(tc: &ToolCall) -> (r: ToolCallDelta)
    ensures
        r@ == call_record(tc@.id, tc@.name, json::json_print(tc@.arguments)),
{
    ToolCallDelta {
        index: Some(0),
        id: text::clone_opt(&tc.id),
        kind: Some("function".to_string()),
        function: Some(
            ToolCallFunctionDelta {
                name: Some(tc.name.clone()),
                arguments: Some(tc.arguments.to_text()),
            },
        ),
    }
}

/// The reason of a guard that fired.
fn reason_of(o: GuardOutcome) -> (r: Option<String>)
    ensures
        text::opt_view(r) == o@,
{
    match o {
        GuardOutcome::Pass => None,
        GuardOutcome::Trigger(s) => Some(s),
    }
}

/// The reason for which a guard ends the segment on an answer, if one does.
pub fn first_trigger(guard: &GuardContext, v: &str, tool_calls: usize) -> (r: Option<String>)
    ensures
        text::opt_view(r) == guard_reason(guard@, v@, tool_calls as nat),
        text::lower_is_plain(v@),
{
    let speaks = guards::mentions_build(v);
    let a = reason_of(guards::check_empty_loop(guard));
    if a.is_some() {
        return a;
    }
    let b = reason_of(guards::check_stream_repetition(v));
    if b.is_some() {
        return b;
    }
    let c = reason_of(guards::check_stuck_signature(guard));
    if c.is_some() {
        return c;
    }
    let d = reason_of(guards::check_fffd_degenerate(v));
    if d.is_some() {
        return d;
    }
    reason_of(guards::judge_build(guard, tool_calls == 0 && speaks))
}

impl Segment {
    /// Whether the segment is in progress: its conversation begins with the
    /// system prompt and the task, and fewer than six answers with a blank
    /// content came in a row.
    pub open spec fn wf(self) -> bool {
        running(self@)
    }

    /// Begins a segment.
    pub fn begin(params: SegmentParams, tools: Vec<ToolDef>, depth: u32) -> (r: Self)
        ensures
            r.wf(),
            r@ == begun(params@, llm::tool_def_views(tools@), depth),
    {
        let mut messages: Vec<Message> = Vec::new();
        messages.push(Message::text("system", params.system_prompt.clone()));
        messages.push(Message::text("user", params.user_prompt.clone()));
        proof {
            assert(llm::message_views(messages@) =~= opening(params@));
            assert(opening(params@).take(2) =~= opening(params@));
        }
        Segment {
            params,
            tools,
            depth,
            depth_guard: HandoffDepthGuard { depth },
            messages,
            guard: GuardContext::default(),
            input_tokens: 0,
            output_tokens: 0,
            content: String::new(),
            reasoning: String::new(),
            iterations: 0,
            handing_over: false,
        }
    }

    /// What the segment comes to when it ends in the given way.
    fn end(
        &self,
        status: SegmentStatus,
        depth: u32,
        files: Vec<String>,
        decision: Option<HandoffDecision>,
        response: Option<HandoffResponse>,
    ) -> (r: SegmentResult)
        ensures
            r@ == ended(
                self@,
                status,
                depth,
                text::views(files@),
                decision,
                match response {
                    Some(h) => Some(h@),
                    None => None,
                },
            ),
    {
        SegmentResult {
            status,
            content: self.content.clone(),
            reasoning_content: self.reasoning.clone(),
            input_tokens: self.input_tokens,
            output_tokens: self.output_tokens,
            files_touched: files,
            depth,
            handoff: decision,
            handoff_response: response,
        }
    }

    /// Says what is done next. Every question to the model takes one of the
    /// iterations; when they have run out the segment is incomplete. Before
    /// the model is asked to go on, a conversation that fills its share of the
    /// context, or that was paused too often, is handed over, unless the chain
    /// has run away.
    pub fn next(&mut self, files: Vec<String>) -> (r: SegmentStep)
        requires
            old(self).wf(),
        ensures
            final(self).wf(),
            ({
                let s = old(self)@;
                let f = text::views(files@);
                if s.iterations >= s.params.max_iterations {
                    &&& final(self)@ == s
                    &&& r matches SegmentStep::Finished(res) && res@ == ended(
                        s,
                        SegmentStatus::Incomplete,
                        s.depth,
                        f,
                        None,
                        None,
                    )
                } else {
                    &&& final(self)@ == asked(s)
                    &&& if s.handing_over || handoff::handoff_due(
                        s.messages,
                        s.params.context_tokens,
                        s.params.handoff_threshold_pct,
                    ) {
                        if s.guard_depth >= handoff::DEFAULT_MAX_HANDOFF_DEPTH {
                            r matches SegmentStep::Finished(res) && res@ == ended(
                                s,
                                SegmentStatus::Incomplete,
                                s.guard_depth,
                                f,
                                None,
                                None,
                            )
                        } else {
                            r matches SegmentStep::AskHandoff(req) && req@ == handoff_request(s)
                        }
                    } else {
                        r matches SegmentStep::AskModel(req) && req@ == work_request(s)
                    }
                }
            }),
            r matches SegmentStep::AskModel(req) ==> req@.tools == old(self)@.tools && req@.messages
                == old(self)@.messages && req@.model == old(self)@.params.endpoint.model,
            r matches SegmentStep::AskHandoff(req) ==> {
                &&& req@.messages.len() >= 3
                &&& req@.messages.take(2) == opening(old(self)@.params)
                &&& req@.messages.drop_last() == context::trimmed_messages(old(self)@.messages, 4)
                &&& req@.messages.last().role == "user"@
                &&& req@.messages.last().content == Some(handoff::handoff_prompt())
            },
            final(self)@.tools == old(self)@.tools,
            final(self)@.params == old(self)@.params,
            final(self)@.messages == old(self)@.messages,
    {
        if self.iterations >= self.params.max_iterations {
            return SegmentStep::Finished(
                self.end(SegmentStatus::Incomplete, self.depth, files, None, None),
            );
        }
        self.iterations = self.iterations + 1;
        if self.handing_over || handoff::should_attempt_handoff(
            &self.messages,
            self.params.context_tokens,
            self.params.handoff_threshold_pct,
        ) {
            if self.depth_guard.runaway() {
                return SegmentStep::Finished(
                    self.end(
                        SegmentStatus::Incomplete,
                        self.depth_guard.depth,
                        files,
                        None,
                        None,
                    ),
                );
            }
            let copy = llm::clone_messages(&self.messages);
            let (trimmed, _) = context::trim_messages(copy, 4);
            let mut messages = trimmed;
            let ghost before = llm::message_views(messages@);
            messages.push(Message::text("user", handoff::build_handoff_prompt()));
            let tools: Vec<ToolDef> = Vec::new();
            let req = ChatRequest {
                model: self.params.endpoint.model.clone(),
                messages,
                tools,
                stream: true,
                max_tokens: if self.params.context_tokens == 0 {
                    4096
                } else {
                    handoff::handoff_max_tokens(self.params.context_tokens)
                },
                temperature_pct: self.params.temperature_pct,
                reasoning_effort: text::clone_opt(&self.params.endpoint.reasoning_effort),
            };
            proof {
                assert(llm::message_views(messages@) =~= before.push(
                    llm::text_message("user"@, handoff::handoff_prompt()),
                ));
                assert(llm::tool_def_views(tools@) =~= Seq::empty());
                lemma_trim_keeps_opening(old(self)@);
                assert(req@.messages.drop_last() =~= before);
                assert(req@.messages.take(2) =~= before.take(2));
            }
            return SegmentStep::AskHandoff(req);
        }
        SegmentStep::AskModel(
            ChatRequest {
                model: self.params.endpoint.model.clone(),
                messages: llm::clone_messages(&self.messages),
                tools: llm::clone_tools(&self.tools),
                stream: true,
                max_tokens: 4096,
                temperature_pct: self.params.temperature_pct,
                reasoning_effort: text::clone_opt(&self.params.endpoint.reasoning_effort),
            },
        )
    }

    /// Takes in the reply to a handoff request. An acceptable summary ends the
    /// segment; otherwise the conversation is trimmed and the segment goes on.
    pub fn on_handoff(&mut self, reply: Result<ChatResponse, LlmError>, files: Vec<String>) -> (r:
        Option<SegmentResult>)
        requires
            old(self).wf(),
        ensures
            r is None ==> final(self).wf(),
            ({
                let s = old(self)@;
                match handoff_outcome(s, reply_content(reply)) {
                    Some((decision, h)) => {
                        let deeper = SegmentModel { guard_depth: (s.guard_depth + 1) as u32, ..s };
                        &&& final(self)@ == deeper
                        &&& r matches Some(res) && res@ == ended(
                            s,
                            SegmentStatus::Completed,
                            deeper.guard_depth,
                            text::views(files@),
                            Some(decision),
                            Some(h),
                        )
                    },
                    None => r is None && final(self)@ == trimmed_segment(s),
                }
            }),
    {
        let ghost s = self@;
        if !self.depth_guard.runaway() {
            match reply {
                Ok(resp) => {
                    let content = text::unwrap_or_empty(&resp.content);
                    let parsed = handoff::parse_handoff_response(content.as_str());
                    let decision = handoff::decide_handoff(&parsed);
                    match decision {
                        HandoffDecision::Fallback => {},
                        _ => {
                            self.depth_guard.increment();
                            let res = self.end(
                                SegmentStatus::Completed,
                                self.depth_guard.depth,
                                files,
                                Some(decision),
                                Some(parsed),
                            );
                            return Some(res);
                        },
                    }
                },
                Err(_) => {},
            }
        }
        self.trim();
        None
    }

    /// Goes on with the beginning of the conversation and the whole turns among
    /// its last four messages.
    fn trim(&mut self)
        requires
            old(self).wf(),
        ensures
            final(self).wf(),
            final(self)@ == trimmed_segment(old(self)@),
    {
        let ghost s = self@;
        let mut messages: Vec<Message> = Vec::new();
        messages.append(&mut self.messages);
        proof {
            assert(llm::message_views(messages@) =~= s.messages);
        }
        let (trimmed, _) = context::trim_messages(messages, 4);
        self.messages = trimmed;
        self.handing_over = false;
        proof {
            lemma_trim_keeps_opening(s);
        }
    }

    /// Takes a response down: the tokens that were used, the reasoning, and the
    /// text that it shows.
    fn take_down(&mut self, resp: &ChatResponse, shown: &str)
        requires
            shown@ == visible(resp@.content, resp@.reasoning),
        ensures
            final(self)@ == taken_down(old(self)@, resp@),
    {
        proof {
            assert(llm::tool_views(resp.tool_calls@).len() == resp.tool_calls@.len());
        }
        match resp.usage.prompt_tokens {
            Some(n) => {
                self.input_tokens = n;
            },
            None => {},
        }
        match resp.usage.completion_tokens {
            Some(n) => {
                self.output_tokens = n;
            },
            None => {},
        }
        match &resp.reasoning_content {
            Some(t) => {
                if !text::is_blank(t.as_str()) {
                    self.reasoning.append(t.as_str());
                }
            },
            None => {
                proof {
                    text::lemma_tight(Seq::empty());
                }
            },
        }
        if !text::is_blank(shown) {
            if resp.tool_calls.len() == 0 {
                self.content = shown.to_string();
            } else {
                self.content.append(shown);
            }
        }
    }

    /// Answers a model that put the work off: it is told to go on, or, once it
    /// was told so twice, the work is going to be handed over.
    fn answer_pause(&mut self, shown: String)
        requires
            old(self).wf(),
        ensures
            final(self).wf(),
            final(self)@ == (if old(self)@.guard.pause_nudges >= 2 {
                to_hand_over(old(self)@, shown@)
            } else {
                pause_nudged(old(self)@, shown@)
            }),
    {
        let ghost s = self@;
        self.messages.push(Message::text("assistant", shown));
        proof {
            assert(self@.messages =~= to_hand_over(s, shown@).messages);
        }
        if self.guard.pause_nudges >= 2 {
            self.handing_over = true;
        } else {
            guards::note_pause_nudge(&mut self.guard);
            self.messages.push(Message::text("user", DO_NOT_PAUSE.to_string()));
            proof {
                assert(self@.messages =~= pause_nudged(s, shown@).messages);
            }
        }
        proof {
            assert(self@.messages.take(2) =~= s.messages.take(2));
        }
    }

    /// Answers a model that announced work: it is told to do it.
    fn answer_announcement(&mut self, shown: String)
        requires
            old(self).wf(),
            old(self).guard.state_change_called || old(self).guard.future_nudges < 2,
        ensures
            final(self).wf(),
            final(self)@ == future_nudged(old(self)@, shown@),
    {
        let ghost s = self@;
        guards::note_future_nudge(&mut self.guard);
        self.messages.push(Message::text("assistant", shown));
        self.messages.push(Message::text("user", DO_IT_NOW.to_string()));
        proof {
            assert(self@.messages =~= future_nudged(s, shown@).messages);
            assert(self@.messages.take(2) =~= s.messages.take(2));
        }
    }

    /// Takes in the reply to a request to go on.
    pub fn on_reply(&mut self, reply: Result<ChatResponse, LlmError>, files: Vec<String>) -> (r:
        Reaction)
        requires
            old(self).wf(),
        ensures
            r is RunTools || r is Nudged || r is Again ==> final(self).wf(),
            reply matches Ok(resp) ==> resp.incomplete || text::lower_is_plain(
                visible(resp@.content, resp@.reasoning),
            ),
            reply_rule(
                old(self)@,
                final(self)@,
                match reply {
                    Ok(resp) => Some(resp@),
                    Err(_) => None,
                },
                text::views(files@),
                r,
            ),
    {
        let ghost s = self@;
        let resp = match reply {
            Ok(resp) => resp,
            Err(_) => {
                return Reaction::Finished(
                    self.end(SegmentStatus::Failed, self.depth, files, None, None),
                );
            },
        };
        let shown = visible_text(&resp);
        let shown_is_blank = text::is_blank(shown.as_str());
        self.take_down(&resp, shown.as_str());
        let ghost s1 = self@;
        proof {
            assert(llm::tool_views(resp.tool_calls@).len() == resp.tool_calls@.len());
        }
        if resp.incomplete {
            return Reaction::Finished(
                self.end(SegmentStatus::Incomplete, self.depth, files, None, None),
            );
        }
        let content = text::unwrap_or_empty(&resp.content);
        if text::is_blank(content.as_str()) {
            self.guard.empty_turns = self.guard.empty_turns + 1;
        } else {
            self.guard.empty_turns = 0;
        }
        let ghost s2 = self@;
        proof {
            assert(s2 == counted(s1, resp@.content));
        }
        match first_trigger(&self.guard, shown.as_str(), resp.tool_calls.len()) {
            Some(reason) => {
                return Reaction::Guarded(
                    self.end(SegmentStatus::Incomplete, self.depth, files, None, None),
                    reason,
                );
            },
            None => {},
        }
        match reason_of(guards::check_pause_summary(&self.guard, shown.as_str())) {
            Some(reason) => {
                self.answer_pause(shown);
                return Reaction::Nudged(reason);
            },
            None => {},
        }
        match reason_of(
            guards::check_future_intention(&self.guard, resp.tool_calls.len(), shown.as_str()),
        ) {
            Some(reason) => {
                if !self.guard.state_change_called && self.guard.future_nudges >= 2 {
                    return Reaction::Guarded(
                        self.end(SegmentStatus::Incomplete, self.depth, files, None, None),
                        reason,
                    );
                }
                self.answer_announcement(shown);
                return Reaction::Nudged(reason);
            },
            None => {},
        }
        if resp.tool_calls.len() > 0 {
            return Reaction::RunTools(resp.tool_calls);
        }
        if shown_is_blank {
            self.messages.push(
                Message::text(
                    "user",
                    "이전 응답이 비었습니다. 도구가 필요 없으면 사용자에게 바로 답하세요.".to_string(),
                ),
            );
            proof {
                assert(self@.messages =~= s2.messages.push(nudge()));
                assert(self@.messages.take(2) =~= s2.messages.take(2));
            }
            return Reaction::Again;
        }
        Reaction::Finished(
            self.end(
                SegmentStatus::Completed,
                self.depth_guard.depth,
                files,
                Some(HandoffDecision::Complete),
                None,
            ),
        )
    }

    /// Takes in what a tool gave.
    pub fn on_tool_result(&mut self, call: &ToolCall, result: Result<String, String>)
        requires
            old(self).wf(),
        ensures
            final(self).wf(),
            final(self)@ == with_tool_result(
                old(self)@,
                call@.id,
                call@.name,
                json::json_print(call@.arguments),
                guards::result_view(result),
            ),
    {
        let ghost s = self@;
        let sig = guards::signature_with_progress(
            call.name.as_str(),
            &call.arguments,
            &result,
        );
        let change = is_state_change_tool(call.name.as_str());
        guards::update_after_tool_call(&mut self.guard, sig, change);
        guards::note_tool(&mut self.guard, call.name.as_str());
        let shown = match result {
            Ok(t) => t,
            Err(e) => "오류: ".to_string().concat(e.as_str()),
        };
        let mut calls: Vec<ToolCallDelta> = Vec::new();
        let record = tool_call_delta(call);
        calls.push(record);
        proof {
            assert(llm::delta_views(calls@) =~= seq![record@]);
        }
        self.messages.push(
            Message {
                role: "assistant".to_string(),
                content: None,
                tool_calls: Some(calls),
                tool_call_id: None,
                name: None,
            },
        );
        self.messages.push(
            Message {
                role: "tool".to_string(),
                content: Some(shown),
                tool_calls: None,
                tool_call_id: text::clone_opt(&call.id),
                name: Some(call.name.clone()),
            },
        );
        proof {
            assert(self@.messages =~= s.messages + call_messages(
                call@.id,
                call@.name,
                json::json_print(call@.arguments),
                guards::result_view(result),
            ));
            assert(self@.messages.take(2) =~= s.messages.take(2));
        }
    }
}

/// Whether a segment is in progress.
pub open spec fn running(s: SegmentModel) -> bool {
    &&& s.messages.len() >= 2
    &&& s.messages.take(2) == opening(s.params)
    &&& s.guard.empty_turns < 6
}

/// The content of a reply, empty where it has none; nothing where the request
/// failed.
pub open spec fn reply_content(reply: Result<ChatResponse, LlmError>) -> Option<Seq<char>> {
    match reply {
        Ok(resp) => Some(text::or_empty(resp@.content)),
        Err(_) => None,
    }
}

/// What a handoff comes to: the decision and what was handed over, or nothing
/// where the segment has to go on.
pub open spec fn handoff_outcome(s: SegmentModel, content: Option<Seq<char>>) -> Option<
    (HandoffDecision, HandoffModel),
> {
    match content {
        Some(c) => {
            let h = handoff::parsed_handoff(c);
            let d = handoff::decision_of(h);
            if s.guard_depth >= handoff::DEFAULT_MAX_HANDOFF_DEPTH || d
                == HandoffDecision::Fallback {
                None
            } else {
                Some((d, h))
            }
        },
        None => None,
    }
}

/// What a reply to a request to go on leads to. Without a reply the segment
/// has failed. A reply is taken down; one that was cut short, or on which a
/// guard fires, leaves the segment incomplete. One that puts the work off is
/// nudged twice, and then the work is handed over. One that announces work and
/// calls no tool is nudged twice, and then the segment is incomplete. One that
/// calls tools has them run. A blank one is nudged, and any other completes the
/// segment.
pub open spec fn reply_rule(
    s: SegmentModel,
    after: SegmentModel,
    reply: Option<ResponseModel>,
    files: Seq<Seq<char>>,
    r: Reaction,
) -> bool {
    match reply {
        None => {
            &&& after == s
            &&& r matches Reaction::Finished(res) && res@ == ended(
                s,
                SegmentStatus::Failed,
                s.depth,
                files,
                None,
                None,
            )
        },
        Some(resp) => {
            let v = visible(resp.content, resp.reasoning);
            let s1 = taken_down(s, resp);
            let s2 = counted(s1, resp.content);
            let reason = guard_reason(s2.guard, v, resp.tool_calls.len());
            let pause = guards::pause_guard(s2.guard, guards::puts_off(text::lowercase(v)));
            let announced = guards::future_guard(
                s2.guard,
                resp.tool_calls.len(),
                guards::future_intention(v),
            );
            if resp.incomplete {
                &&& after == s1
                &&& r matches Reaction::Finished(res) && res@ == ended(
                    s1,
                    SegmentStatus::Incomplete,
                    s.depth,
                    files,
                    None,
                    None,
                )
            } else if reason is Some {
                &&& after == s2
                &&& r matches Reaction::Guarded(res, why) && res@ == ended(
                    s2,
                    SegmentStatus::Incomplete,
                    s.depth,
                    files,
                    None,
                    None,
                ) && Some(why@) == reason
            } else if pause is Some {
                &&& after == (if s2.guard.pause_nudges >= 2 {
                    to_hand_over(s2, v)
                } else {
                    pause_nudged(s2, v)
                })
                &&& r matches Reaction::Nudged(why) && Some(why@) == pause
            } else if announced is Some {
                if !s2.guard.state_change_called && s2.guard.future_nudges >= 2 {
                    &&& after == s2
                    &&& r matches Reaction::Guarded(res, why) && res@ == ended(
                        s2,
                        SegmentStatus::Incomplete,
                        s.depth,
                        files,
                        None,
                        None,
                    ) && Some(why@) == announced
                } else {
                    &&& after == future_nudged(s2, v)
                    &&& r matches Reaction::Nudged(why) && Some(why@) == announced
                }
            } else if resp.tool_calls.len() > 0 {
                &&& after == s2
                &&& r matches Reaction::RunTools(calls) && llm::tool_views(calls@)
                    == resp.tool_calls
            } else if text::blank(v) {
                &&& after == (SegmentModel { messages: s2.messages.push(nudge()), ..s2 })
                &&& r is Again
            } else {
                &&& after == s2
                &&& r matches Reaction::Finished(res) && res@ == ended(
                    s2,
                    SegmentStatus::Completed,
                    s.guard_depth,
                    files,
                    Some(HandoffDecision::Complete),
                    None,
                )
            }
        },
    }
}

/// Trimming keeps the system prompt and the task.
proof fn lemma_trim_keeps_opening(s: SegmentModel)
    requires
        running(s),
    ensures
        running(trimmed_segment(s)),
{
    reveal_strlit("system");
    reveal_strlit("user");
    let v = s.messages;
    assert(v[0] == v.take(2)[0]);
    assert(v[1] == v.take(2)[1]);
    assert("system"@.len() != "user"@.len());
    assert(v.skip(1)[0] == v[1]);
    assert(context::leading_system(v.skip(1)) == 0);
    assert(context::leading_system(v) == 1);
    assert(context::first_user(v, 1) == Some(1int));
    context::lemma_kept_head(v);
    context::law_trim_keeps_both_ends(v, 4);
    let t = context::trimmed_messages(v, 4);
    assert(t.take(2) =~= v.take(2));
}

/// The status of a chain of segments.
pub fn chain_status(segment_statuses: &[SegmentStatus]) -> (r: &'static str)
    ensures
        r@ == handoff::status_of_chain(segment_statuses@.map_values(|s: SegmentStatus| s.name())),
{
    let mut names: Vec<&str> = Vec::new();
    let mut i: usize = 0;
    while i < segment_statuses.len()
        invariant
            i <= segment_statuses.len(),
            names.len() == i,
            forall|k: int| 0 <= k < i ==> (#[trigger] names@[k])@ == segment_statuses@[k].name(),
        decreases segment_statuses.len() - i,
    {
        names.push(segment_statuses[i].as_str());
        i = i + 1;
    }
    proof {
        assert(names@.map_values(|s: &str| s@) =~= segment_statuses@.map_values(
            |s: SegmentStatus| s.name(),
        ));
    }
    handoff::chain_status(names.as_slice())
}

// ---------------------------------------------------------------------------
// Laws
// ---------------------------------------------------------------------------

/// How many questions a segment may still ask.
pub open spec fn questions_left(s: SegmentModel) -> int {
    s.params.max_iterations - s.iterations
}

/// A segment ends: a fresh one has as many questions as it may have iterations,
/// every question takes one of them, and neither replies, nor tools, nor
/// trimming give any back.
pub proof fn law_segment_is_bounded(
    s: SegmentModel,
    after: SegmentModel,
    reply: Option<ResponseModel>,
    files: Seq<Seq<char>>,
    r: Reaction,
    id: Option<Seq<char>>,
    name: Seq<char>,
    args: Seq<char>,
    result: Result<Seq<char>, Seq<char>>,
)
    requires
        reply_rule(s, after, reply, files, r),
    ensures
        questions_left(begun(s.params, s.tools, s.depth)) == s.params.max_iterations,
        s.iterations < s.params.max_iterations ==> questions_left(asked(s)) == questions_left(s)
            - 1,
        questions_left(after) == questions_left(s),
        questions_left(trimmed_segment(s)) == questions_left(s),
        questions_left(with_tool_result(s, id, name, args, result)) == questions_left(s),
{
}

/// The sixth answer in a row with a blank content ends the segment, whatever
/// else was done, and whatever the model thought.
pub proof fn law_sixth_blank_answer_ends(
    s: SegmentModel,
    content: Option<Seq<char>>,
    reasoning: Option<Seq<char>>,
    tool_calls: nat,
)
    requires
        s.guard.empty_turns == 5,
        text::blank(text::or_empty(content)),
    ensures
        guard_reason(counted(s, content).guard, visible(content, reasoning), tool_calls) == Some(
            "incomplete: empty response loop"@,
        ),
{
}

/// Trimming and taking in tool results keep the system prompt and the task at
/// the head of the conversation.
pub proof fn law_opening_is_never_lost(
    s: SegmentModel,
    id: Option<Seq<char>>,
    name: Seq<char>,
    args: Seq<char>,
    result: Result<Seq<char>, Seq<char>>,
)
    requires
        running(s),
    ensures
        trimmed_segment(s).messages.take(2) == opening(s.params),
        with_tool_result(s, id, name, args, result).messages.take(2) == opening(s.params),
{
    lemma_trim_keeps_opening(s);
    let t = with_tool_result(s, id, name, args, result);
    assert(t.messages.take(2) =~= s.messages.take(2));
}

/// Four identical tool calls in a row leave the next answer to the guard
/// against standstill: whatever it says, the segment does not go on.
pub proof fn law_standstill_ends_the_segment(
    s: SegmentModel,
    sig: Seq<char>,
    change: bool,
    content: Option<Seq<char>>,
    v: Seq<char>,
    tool_calls: nat,
)
    requires
        s.guard.recent_signatures.len() <= 4,
    ensures
        guard_reason(
            counted(
                SegmentModel { guard: guards::after_same_calls(s.guard, sig, change, 4), ..s },
                content,
            ).guard,
            v,
            tool_calls,
        ) is Some,
{
    guards::law_four_same_calls_are_stuck(s.guard, sig, change);
}

/// Whether a reaction to a reply leaves the segment complete.
pub open spec fn completes(r: Reaction) -> bool {
    match r {
        Reaction::Finished(res) => res@.status == SegmentStatus::Completed,
        Reaction::Guarded(res, _) => res@.status == SegmentStatus::Completed,
        _ => false,
    }
}

/// Whether a reaction to a reply ends the segment as incomplete.
pub open spec fn leaves_incomplete(r: Reaction) -> bool {
    match r {
        Reaction::Finished(res) => res@.status == SegmentStatus::Incomplete,
        Reaction::Guarded(res, _) => res@.status == SegmentStatus::Incomplete,
        _ => false,
    }
}

/// A segment remembers whether code was modified and whether the shell was
/// called: a tool that does so is noted, and nothing makes it forget.
pub proof fn law_edits_are_remembered(
    s: SegmentModel,
    after: SegmentModel,
    reply: Option<ResponseModel>,
    files: Seq<Seq<char>>,
    r: Reaction,
    id: Option<Seq<char>>,
    name: Seq<char>,
    args: Seq<char>,
    result: Result<Seq<char>, Seq<char>>,
)
    requires
        reply_rule(s, after, reply, files, r),
    ensures
        with_tool_result(s, id, name, args, result).guard.code_modified == (s.guard.code_modified
            || name == "write_file"@ || name == "edit_file"@),
        with_tool_result(s, id, name, args, result).guard.bash_called == (s.guard.bash_called
            || name == "bash"@),
        after.guard.code_modified == s.guard.code_modified,
        after.guard.bash_called == s.guard.bash_called,
        trimmed_segment(s).guard == s.guard,
        asked(s).guard == s.guard,
{
}

/// A build that was never run is not claimed: a segment that modified code and
/// never called the shell does not complete on an answer that speaks of a
/// build. It is incomplete.
pub proof fn law_unrun_build_is_incomplete(
    s: SegmentModel,
    after: SegmentModel,
    resp: ResponseModel,
    files: Seq<Seq<char>>,
    r: Reaction,
)
    requires
        reply_rule(s, after, Some(resp), files, r),
        s.guard.code_modified,
        !s.guard.bash_called,
        resp.tool_calls.len() == 0,
        guards::speaks_of_build(text::lowercase(visible(resp.content, resp.reasoning))),
    ensures
        leaves_incomplete(r),
{
}

/// An answer that only announces work never completes a segment.
pub proof fn law_announcement_does_not_complete(
    s: SegmentModel,
    after: SegmentModel,
    resp: ResponseModel,
    files: Seq<Seq<char>>,
    r: Reaction,
)
    requires
        reply_rule(s, after, Some(resp), files, r),
        guards::future_intention(visible(resp.content, resp.reasoning)),
    ensures
        !completes(r),
{
}

/// Work that is put off is never completed in silence: the answer is nudged, or
/// the segment is incomplete. After two nudges the work is handed over.
pub proof fn law_pause_does_not_complete(
    s: SegmentModel,
    after: SegmentModel,
    resp: ResponseModel,
    files: Seq<Seq<char>>,
    r: Reaction,
)
    requires
        reply_rule(s, after, Some(resp), files, r),
        guards::puts_off(text::lowercase(visible(resp.content, resp.reasoning))),
    ensures
        r is Nudged || leaves_incomplete(r),
        r is Nudged && s.guard.pause_nudges >= 2 ==> after.handing_over,
        r is Nudged && s.guard.pause_nudges < 2 ==> after.guard.pause_nudges
            == s.guard.pause_nudges + 1,
{
}

/// The conversation of a segment always consists of whole turns: every tool
/// result stands behind the call that it answers.
pub proof fn law_turns_stay_whole(
    s: SegmentModel,
    after: SegmentModel,
    reply: Option<ResponseModel>,
    files: Seq<Seq<char>>,
    r: Reaction,
    id: Option<Seq<char>>,
    name: Seq<char>,
    args: Seq<char>,
    result: Result<Seq<char>, Seq<char>>,
)
    requires
        context::turns_are_whole(s.messages),
        reply_rule(s, after, reply, files, r),
    ensures
        context::turns_are_whole(opening(s.params)),
        context::turns_are_whole(with_tool_result(s, id, name, args, result).messages),
        context::turns_are_whole(trimmed_segment(s).messages),
        context::turns_are_whole(after.messages),
{
    reveal_strlit("system");
    reveal_strlit("user");
    reveal_strlit("tool");
    reveal_strlit("assistant");
    assert("user"@[0] != "tool"@[0]);
    assert("system"@.len() != "tool"@.len());
    assert("assistant"@.len() != "tool"@.len());
    context::law_trim_drops_whole_turns(s.messages, 4);
    let calls = call_messages(id, name, args, result);
    let t = s.messages + calls;
    assert forall|i: int| 0 <= i < t.len() && (#[trigger] t[i]).role == "tool"@ implies i > 0 && (
    t[i - 1].role == "assistant"@ || t[i - 1].role == "tool"@) by {
        if i < s.messages.len() {
            assert(t[i] == s.messages[i]);
            assert(t[i - 1] == s.messages[i - 1]);
        } else {
            assert(t[i] == calls[i - s.messages.len()]);
            assert(i == s.messages.len() + 1);
            assert(t[i - 1] == calls[0]);
        }
    }
    let m = after.messages;
    assert forall|i: int| 0 <= i < m.len() && (#[trigger] m[i]).role == "tool"@ implies i > 0 && (
    m[i - 1].role == "assistant"@ || m[i - 1].role == "tool"@) by {
        assert(i < s.messages.len());
        assert(m[i] == s.messages[i]);
        assert(m[i - 1] == s.messages[i - 1]);
    }
}

/// A segment offers the tools that it was begun with, and works on the task that
/// it was begun with: nothing that is done in it changes them, and a request to
/// go on shows them.
pub proof fn law_tools_stay_offered(
    p: ParamsModel,
    tools: Seq<ToolDefModel>,
    depth: u32,
    s: SegmentModel,
    after: SegmentModel,
    reply: Option<ResponseModel>,
    files: Seq<Seq<char>>,
    r: Reaction,
    id: Option<Seq<char>>,
    name: Seq<char>,
    args: Seq<char>,
    result: Result<Seq<char>, Seq<char>>,
)
    requires
        reply_rule(s, after, reply, files, r),
    ensures
        begun(p, tools, depth).tools == tools,
        begun(p, tools, depth).params == p,
        begun(p, tools, depth).depth == depth,
        work_request(s).tools == s.tools,
        asked(s).tools == s.tools && asked(s).params == s.params && asked(s).depth == s.depth,
        after.tools == s.tools && after.params == s.params && after.depth == s.depth,
        trimmed_segment(s).tools == s.tools && trimmed_segment(s).params == s.params,
        with_tool_result(s, id, name, args, result).tools == s.tools,
        with_tool_result(s, id, name, args, result).params == s.params,
{
}

/// A request to go on shows the whole conversation, to the model of the endpoint
/// and with its settings.
pub proof fn law_request_shows_the_conversation(s: SegmentModel)
    ensures
        work_request(s).messages == s.messages,
        work_request(s).model == s.params.endpoint.model,
        work_request(s).temperature_pct == s.params.temperature_pct,
        work_request(s).reasoning_effort == s.params.endpoint.reasoning_effort,
        work_request(s).stream,
        work_request(s).max_tokens > 0,
{
}

/// A segment begins with the system prompt and the task, as they are, with the
/// tools and at the depth that it is given, and with nothing done or used.
pub proof fn law_segment_begins_with_the_task(
    p: ParamsModel,
    tools: Seq<ToolDefModel>,
    depth: u32,
)
    ensures
        begun(p, tools, depth).messages.len() == 2,
        begun(p, tools, depth).messages[0].role == "system"@,
        begun(p, tools, depth).messages[0].content == Some(p.system_prompt),
        begun(p, tools, depth).messages[1].role == "user"@,
        begun(p, tools, depth).messages[1].content == Some(p.user_prompt),
        begun(p, tools, depth).params == p,
        begun(p, tools, depth).tools == tools,
        begun(p, tools, depth).depth == depth,
        begun(p, tools, depth).guard_depth == depth,
        begun(p, tools, depth).iterations == 0,
        begun(p, tools, depth).input_tokens == 0,
        begun(p, tools, depth).output_tokens == 0,
        begun(p, tools, depth).content == Seq::<char>::empty(),
        begun(p, tools, depth).reasoning == Seq::<char>::empty(),
        begun(p, tools, depth).guard.empty_turns == 0,
        begun(p, tools, depth).guard.future_nudges == 0,
        begun(p, tools, depth).guard.pause_nudges == 0,
        begun(p, tools, depth).guard.recent_signatures.len() == 0,
        !begun(p, tools, depth).guard.state_change_called,
        !begun(p, tools, depth).guard.code_modified,
        !begun(p, tools, depth).guard.bash_called,
        !begun(p, tools, depth).handing_over,
{
}

/// A request for a handoff shows the model the work: the system prompt and the
/// task, then the last whole turns of the conversation in their order, and then
/// the instruction.
pub proof fn law_handoff_request_shows_the_work(s: SegmentModel)
    requires
        running(s),
    ensures
        ({
            let m = handoff_request(s).messages;
            let n = m.len() - 1;
            &&& m.len() >= 3
            &&& m[0].role == "system"@ && m[0].content == Some(s.params.system_prompt)
            &&& m[1].role == "user"@ && m[1].content == Some(s.params.user_prompt)
            &&& m.take(n) == context::trimmed_messages(s.messages, 4)
            &&& m.subrange(2, n) == s.messages.skip(s.messages.len() - (n - 2))
            &&& s.messages.len() <= 6 ==> m.take(n) == s.messages
            &&& m.last().role == "user"@
            &&& m.last().content == Some(handoff::handoff_prompt())
            &&& handoff_request(s).model == s.params.endpoint.model
            &&& handoff_request(s).max_tokens > 0
        }),
{
    lemma_trim_keeps_opening(s);
    let v = s.messages;
    reveal_strlit("system");
    reveal_strlit("user");
    assert(v[0] == v.take(2)[0]);
    assert(v[1] == v.take(2)[1]);
    assert("system"@.len() != "user"@.len());
    assert(v.skip(1)[0] == v[1]);
    assert(context::leading_system(v.skip(1)) == 0);
    assert(context::leading_system(v) == 1);
    assert(context::first_user(v, 1) == Some(1int));
    assert(context::kept_head(v) == 2);
    context::law_trim_keeps_both_ends(v, 4);
    context::law_trim_never_grows(v, 4);
    let t = context::trimmed_messages(v, 4);
    let m = handoff_request(s).messages;
    let n = m.len() - 1;
    assert(m.take(n) =~= t);
    assert(t.take(2) == opening(s.params));
    assert(m[0] == t.take(2)[0]);
    assert(m[1] == t.take(2)[1]);
    assert(m.subrange(2, n) =~= t.skip(2));
    assert(t.skip(2) =~= v.skip(v.len() - (n - 2)));
}

/// What a tool gave reaches the model as it is, behind the call that it answers;
/// an error is told with its cause. Nothing that was said before is changed.
pub proof fn law_result_reaches_the_model(
    s: SegmentModel,
    id: Option<Seq<char>>,
    name: Seq<char>,
    args: Seq<char>,
    result: Result<Seq<char>, Seq<char>>,
)
    ensures
        ({
            let before = s.messages;
            let m = with_tool_result(s, id, name, args, result).messages;
            let n = before.len() as int;
            &&& m.len() == n + 2
            &&& m.take(n) == before
            &&& m[n].role == "assistant"@
            &&& m[n].tool_calls is Some && m[n].tool_calls->0.len() == 1
            &&& m[n].tool_calls->0[0].id == id
            &&& m[n].tool_calls->0[0].function is Some
            &&& m[n].tool_calls->0[0].function->0.name == Some(name)
            &&& m[n].tool_calls->0[0].function->0.arguments == Some(args)
            &&& m[n + 1].role == "tool"@
            &&& m[n + 1].tool_call_id == id
            &&& m[n + 1].name == Some(name)
            &&& m[n + 1].content is Some
            &&& result matches Ok(t) ==> m[n + 1].content->0 == t
            &&& result matches Err(e) ==> e.is_suffix_of(m[n + 1].content->0) && m[n
                + 1].content->0 != e
        }),
{
    let before = s.messages;
    let m = with_tool_result(s, id, name, args, result).messages;
    assert(m.take(before.len() as int) =~= before);
    match result {
        Ok(_) => {},
        Err(e) => {
            reveal_strlit("오류: ");
            let shown = "오류: "@ + e;
            assert(shown.skip(4) =~= e);
            assert(shown.subrange(shown.len() - e.len(), shown.len() as int) =~= e);
        },
    }
}

/// The calls of a reply are run as they came, all of them and in their order,
/// and only where the reply makes some.
pub proof fn law_calls_are_run_as_they_came(
    s: SegmentModel,
    after: SegmentModel,
    resp: ResponseModel,
    files: Seq<Seq<char>>,
    r: Reaction,
)
    requires
        reply_rule(s, after, Some(resp), files, r),
    ensures
        r matches Reaction::RunTools(calls) ==> calls@.len() > 0 && llm::tool_views(calls@)
            == resp.tool_calls && after.messages == s.messages,
        resp.tool_calls.len() > 0 ==> !completes(r) && !(r is Again),
{
}

/// A segment completes on a final answer: one that calls no tool, and whose text
/// is what the segment comes to, with the tokens and the files. The thoughts are
/// the answer only where there is no other text.
pub proof fn law_final_answer_is_the_result(
    s: SegmentModel,
    after: SegmentModel,
    resp: ResponseModel,
    files: Seq<Seq<char>>,
    r: Reaction,
)
    requires
        reply_rule(s, after, Some(resp), files, r),
        completes(r),
    ensures
        r is Finished,
        !resp.incomplete,
        resp.tool_calls.len() == 0,
        ({
            let res = r->Finished_0@;
            &&& !text::blank(res.content)
            &&& resp.content is Some && !text::blank(resp.content->0) ==> res.content
                == resp.content->0
            &&& text::blank(text::or_empty(resp.content)) ==> Some(res.content) == resp.reasoning
            &&& resp.usage.prompt_tokens is Some ==> res.input_tokens
                == resp.usage.prompt_tokens->0
            &&& resp.usage.prompt_tokens is None ==> res.input_tokens == s.input_tokens
            &&& resp.usage.completion_tokens is Some ==> res.output_tokens
                == resp.usage.completion_tokens->0
            &&& resp.usage.completion_tokens is None ==> res.output_tokens == s.output_tokens
            &&& res.files_touched == files
            &&& res.handoff_response is None
            &&& s.reasoning.is_prefix_of(res.reasoning)
        }),
{
    assert(text::blank(Seq::empty())) by {
        text::lemma_tight(Seq::empty());
    }
}

/// An answer that no guard objects to completes the segment: it says something,
/// calls no tool, came to its end, and neither announces work nor puts it off.
pub proof fn law_plain_answer_completes(
    s: SegmentModel,
    after: SegmentModel,
    resp: ResponseModel,
    files: Seq<Seq<char>>,
    r: Reaction,
)
    requires
        reply_rule(s, after, Some(resp), files, r),
        !resp.incomplete,
        resp.tool_calls.len() == 0,
        !text::blank(text::or_empty(resp.content)),
        s.guard.recent_signatures.len() < 4,
        guards::stream_repetition(text::or_empty(resp.content)) is None,
        guards::fffd_degenerate(text::or_empty(resp.content)) is None,
        !s.guard.code_modified || s.guard.bash_called,
        !guards::puts_off(text::lowercase(text::or_empty(resp.content))),
        !guards::future_intention(text::or_empty(resp.content)),
    ensures
        completes(r),
        r->Finished_0@.content == text::or_empty(resp.content),
        r->Finished_0@.depth == s.guard_depth,
        r->Finished_0@.handoff == Some(HandoffDecision::Complete),
{
}

/// A reply that never came fails the segment, and one that was cut off leaves it
/// incomplete; what was done before is told in both.
pub proof fn law_lost_reply_is_told(
    s: SegmentModel,
    unanswered: SegmentModel,
    cut_off: SegmentModel,
    resp: ResponseModel,
    files: Seq<Seq<char>>,
    r: Reaction,
    q: Reaction,
)
    requires
        reply_rule(s, unanswered, None, files, r),
        reply_rule(s, cut_off, Some(resp), files, q),
        resp.incomplete,
    ensures
        r is Finished && r->Finished_0@.status == SegmentStatus::Failed,
        r->Finished_0@.content == s.content,
        r->Finished_0@.files_touched == files,
        r->Finished_0@.input_tokens == s.input_tokens,
        r->Finished_0@.output_tokens == s.output_tokens,
        q is Finished && q->Finished_0@.status == SegmentStatus::Incomplete,
        q->Finished_0@.files_touched == files,
{
}

/// A handoff that is accepted completes the segment one step deeper, with the
/// summary and the task as they were read; a request that failed, and a summary
/// that is not acceptable, are no handoff.
pub proof fn law_handoff_goes_one_deeper(s: SegmentModel, content: Option<Seq<char>>)
    ensures
        content is None ==> handoff_outcome(s, content) is None,
        handoff_outcome(s, content) matches Some((d, h)) ==> {
            &&& content is Some
            &&& h == handoff::parsed_handoff(content->0)
            &&& d == handoff::decision_of(h)
            &&& d != HandoffDecision::Fallback
            &&& s.guard_depth < handoff::DEFAULT_MAX_HANDOFF_DEPTH
        },
        content is Some && s.guard_depth < handoff::DEFAULT_MAX_HANDOFF_DEPTH
            && handoff::decision_of(handoff::parsed_handoff(content->0))
            != HandoffDecision::Fallback ==> handoff_outcome(s, content) is Some,
{
}

/// What a segment comes to tells all that was done in it.
pub proof fn law_end_tells_what_was_done(
    s: SegmentModel,
    status: SegmentStatus,
    depth: u32,
    files: Seq<Seq<char>>,
    decision: Option<HandoffDecision>,
    response: Option<HandoffModel>,
)
    ensures
        ended(s, status, depth, files, decision, response).status == status,
        ended(s, status, depth, files, decision, response).content == s.content,
        ended(s, status, depth, files, decision, response).reasoning == s.reasoning,
        ended(s, status, depth, files, decision, response).input_tokens == s.input_tokens,
        ended(s, status, depth, files, decision, response).output_tokens == s.output_tokens,
        ended(s, status, depth, files, decision, response).files_touched == files,
        ended(s, status, depth, files, decision, response).depth == depth,
        ended(s, status, depth, files, decision, response).handoff == decision,
        ended(s, status, depth, files, decision, response).handoff_response == response,
{
}

/// The statuses have names of their own.
pub proof fn law_status_names_are_distinct(a: SegmentStatus, b: SegmentStatus)
    requires
        a.name() == b.name(),
    ensures
        a == b,
{
    reveal_strlit("completed");
    reveal_strlit("failed");
    reveal_strlit("incomplete");
    reveal_strlit("interrupted");
    assert("completed"@.len() == 9);
    assert("failed"@.len() == 6);
    assert("incomplete"@.len() == 10);
    assert("interrupted"@.len() == 11);
}

/// What a blank reply is answered with is a message of the user that says
/// something, and the answers to announcements and pauses stand behind the
/// model's own words.
pub proof fn law_nudges_speak(s: SegmentModel, v: Seq<char>)
    ensures
        nudge().role == "user"@ && nudge().content is Some && nudge().content->0.len() > 0,
        future_nudged(s, v).messages.take(s.messages.len() as int) == s.messages,
        future_nudged(s, v).messages.len() == s.messages.len() + 2,
        future_nudged(s, v).messages[s.messages.len() as int].role == "assistant"@,
        future_nudged(s, v).messages[s.messages.len() as int].content == Some(v),
        future_nudged(s, v).messages.last().role == "user"@,
        future_nudged(s, v).messages.last().content->0.len() > 0,
        pause_nudged(s, v).messages.take(s.messages.len() as int) == s.messages,
        pause_nudged(s, v).messages.len() == s.messages.len() + 2,
        pause_nudged(s, v).messages[s.messages.len() as int].content == Some(v),
        pause_nudged(s, v).messages.last().role == "user"@,
        pause_nudged(s, v).messages.last().content->0.len() > 0,
        to_hand_over(s, v).messages.drop_last() == s.messages,
        to_hand_over(s, v).messages.last().content == Some(v),
        to_hand_over(s, v).handing_over,
{
    reveal_strlit("이전 응답이 비었습니다. 도구가 필요 없으면 사용자에게 바로 답하세요.");
    reveal_strlit("예고만 하지 말고 지금 도구를 호출해 작업하세요. 남은 일이 없으면 결과를 답하세요.");
    reveal_strlit("작업을 미루지 말고 계속 진행하세요. 모두 끝났으면 결과를 답하세요.");
    let n = s.messages.len() as int;
    assert(future_nudged(s, v).messages.take(n) =~= s.messages);
    assert(pause_nudged(s, v).messages.take(n) =~= s.messages);
    assert(to_hand_over(s, v).messages.drop_last() =~= s.messages);
}

} // verus!
