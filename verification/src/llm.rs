//! Chat completions: the messages of a request and the accumulation of a
//! streamed response.
//!
//! A response arrives as a stream of events. `event_kind` tells what an event
//! is, `ChatAccumulator::push` takes in one chunk, and
//! `ChatAccumulator::finish` gives the response.
use vstd::prelude::*;

use crate::json;
use crate::json::{Json, JsonModel};
use crate::text;

verus! {

/// Why a chat request failed.
pub enum LlmError {
    /// The server answered with an HTTP error status.
    Api { status: u16, body: String },
    /// The connection was refused or timed out.
    Network(String),
    /// The event stream could not be read.
    Sse(String),
    /// A chunk was no valid JSON.
    Json(String),
    /// The stream held no choice.
    Empty,
    /// The stream ended before its time.
    Truncated,
}

impl LlmError {
    /// The message of the error.
    pub open spec fn text(self) -> Seq<char> {
        match self {
            LlmError::Api { status, body } => "API error: "@ + text::decimal(status as nat) + ": "@ + body@,
            LlmError::Network(e) => "네트워크 오류: "@ + e@,
            LlmError::Sse(e) => "SSE 파싱 오류: "@ + e@,
            LlmError::Json(e) => "응답 파싱 오류: "@ + e@,
            LlmError::Empty => "빈 응답"@,
            LlmError::Truncated => "스트림이 끝나기 전에 종료됨"@,
        }
    }

    /// The message of the error.
    pub fn message(&self) -> (r: String)
        ensures
            r@ == self.text(),
    {
        match self {
            LlmError::Api { status, body } => {
                let mut out = "API error: ".to_string();
                text::push_decimal(&mut out, *status as u64);
                out.append(": ");
                out.append(body.as_str());
                out
            },
            LlmError::Network(e) => "네트워크 오류: ".to_string().concat(e.as_str()),
            LlmError::Sse(e) => "SSE 파싱 오류: ".to_string().concat(e.as_str()),
            LlmError::Json(e) => "응답 파싱 오류: ".to_string().concat(e.as_str()),
            LlmError::Empty => "빈 응답".to_string(),
            LlmError::Truncated => "스트림이 끝나기 전에 종료됨".to_string(),
        }
    }
}

/// Whether a status says that a request was successful.
pub open spec fn successful(status: u16) -> bool {
    200 <= status <= 299
}

/// Whether a status says that a request was successful.
pub fn is_success(status: u16) -> (r: bool)
    ensures
        r == successful(status),
{
    200 <= status && status <= 299
}

/// Judges the status of an answer of a model: any but a successful one is an
/// error with the body of the answer.
pub fn accept(status: u16, body: String) -> (r: Result<(), LlmError>)
    ensures
        r is Ok <==> successful(status),
        r matches Err(e) ==> e == (LlmError::Api { status, body }),
{
    if is_success(status) {
        Ok(())
    } else {
        Err(LlmError::Api { status, body })
    }
}

/// A piece of the function of a tool call.
pub struct ToolCallFunctionDelta {
    pub name: Option<String>,
    pub arguments: Option<String>,
}

/// The model of a piece of a tool call's function.
pub struct FunctionModel {
    pub name: Option<Seq<char>>,
    pub arguments: Option<Seq<char>>,
}

impl View for ToolCallFunctionDelta {
    type V = FunctionModel;

    open spec fn view(&self) -> FunctionModel {
        FunctionModel { name: text::opt_view(self.name), arguments: text::opt_view(self.arguments) }
    }
}

/// A piece of a tool call: its place in the response, and what arrived of it.
pub struct ToolCallDelta {
    pub index: Option<u64>,
    pub id: Option<String>,
    pub kind: Option<String>,
    pub function: Option<ToolCallFunctionDelta>,
}

/// The model of a piece of a tool call.
pub struct ToolCallDeltaModel {
    pub index: Option<u64>,
    pub id: Option<Seq<char>>,
    pub kind: Option<Seq<char>>,
    pub function: Option<FunctionModel>,
}

impl View for ToolCallDelta {
    type V = ToolCallDeltaModel;

    open spec fn view(&self) -> ToolCallDeltaModel {
        ToolCallDeltaModel {
            index: self.index,
            id: text::opt_view(self.id),
            kind: text::opt_view(self.kind),
            function: match self.function {
                Some(f) => Some(f@),
                None => None,
            },
        }
    }
}

impl Clone for ToolCallDelta {
    fn clone(&self) -> (r: Self)
        ensures
            r@ == self@,
    {
        ToolCallDelta {
            index: self.index,
            id: text::clone_opt(&self.id),
            kind: text::clone_opt(&self.kind),
            function: match &self.function {
                Some(f) => Some(
                    ToolCallFunctionDelta {
                        name: text::clone_opt(&f.name),
                        arguments: text::clone_opt(&f.arguments),
                    },
                ),
                None => None,
            },
        }
    }
}

/// The models of a list of pieces.
pub open spec fn delta_views(v: Seq<ToolCallDelta>) -> Seq<ToolCallDeltaModel> {
    v.map_values(|d: ToolCallDelta| d@)
}

/// A message of a conversation.
pub struct Message {
    pub role: String,
    pub content: Option<String>,
    pub tool_calls: Option<Vec<ToolCallDelta>>,
    pub tool_call_id: Option<String>,
    pub name: Option<String>,
}

/// The model of a message.
pub struct MessageModel {
    pub role: Seq<char>,
    pub content: Option<Seq<char>>,
    pub tool_calls: Option<Seq<ToolCallDeltaModel>>,
    pub tool_call_id: Option<Seq<char>>,
    pub name: Option<Seq<char>>,
}

impl View for Message {
    type V = MessageModel;

    open spec fn view(&self) -> MessageModel {
        MessageModel {
            role: self.role@,
            content: text::opt_view(self.content),
            tool_calls: match self.tool_calls {
                Some(v) => Some(delta_views(v@)),
                None => None,
            },
            tool_call_id: text::opt_view(self.tool_call_id),
            name: text::opt_view(self.name),
        }
    }
}

/// The models of a list of messages.
pub open spec fn message_views(v: Seq<Message>) -> Seq<MessageModel> {
    v.map_values(|m: Message| m@)
}

/// A message that holds a role and a text.
pub open spec fn text_message(role: Seq<char>, content: Seq<char>) -> MessageModel {
    MessageModel { role, content: Some(content), tool_calls: None, tool_call_id: None, name: None }
}

/// Copies pieces of tool calls.
pub fn clone_deltas(v: &Vec<ToolCallDelta>) -> (r: Vec<ToolCallDelta>)
    ensures
        delta_views(r@) == delta_views(v@),
{
    let mut out: Vec<ToolCallDelta> = Vec::new();
    let mut i: usize = 0;
    while i < v.len()
        invariant
            i <= v.len(),
            out.len() == i,
            forall|k: int| 0 <= k < i ==> (#[trigger] out@[k])@ == v@[k]@,
        decreases v.len() - i,
    {
        out.push(v[i].clone());
        i = i + 1;
    }
    proof {
        assert(delta_views(out@) =~= delta_views(v@));
    }
    out
}

impl Clone for Message {
    fn clone(&self) -> (r: Self)
        ensures
            r@ == self@,
    {
        Message {
            role: self.role.clone(),
            content: text::clone_opt(&self.content),
            tool_calls: match &self.tool_calls {
                Some(v) => Some(clone_deltas(v)),
                None => None,
            },
            tool_call_id: text::clone_opt(&self.tool_call_id),
            name: text::clone_opt(&self.name),
        }
    }
}

impl Message {
    /// A message that holds a role and a text.
    pub fn text(role: &str, content: String) -> (r: Message)
        ensures
            r@ == text_message(role@, content@),
    {
        Message {
            role: role.to_string(),
            content: Some(content),
            tool_calls: None,
            tool_call_id: None,
            name: None,
        }
    }
}

/// Copies messages.
pub fn clone_messages(v: &[Message]) -> (r: Vec<Message>)
    ensures
        message_views(r@) == message_views(v@),
{
    let mut out: Vec<Message> = Vec::new();
    let mut i: usize = 0;
    while i < v.len()
        invariant
            i <= v.len(),
            out.len() == i,
            forall|k: int| 0 <= k < i ==> (#[trigger] out@[k])@ == v@[k]@,
        decreases v.len() - i,
    {
        out.push(v[i].clone());
        i = i + 1;
    }
    proof {
        assert(message_views(out@) =~= message_views(v@));
    }
    out
}

/// A tool function as the model sees it.
pub struct ToolFunction {
    pub name: String,
    pub description: String,
    pub parameters: Json,
}

/// A tool definition as the model sees it.
pub struct ToolDef {
    pub kind: String,
    pub function: ToolFunction,
}

/// The model of a tool definition.
pub struct ToolDefModel {
    pub kind: Seq<char>,
    pub name: Seq<char>,
    pub description: Seq<char>,
    pub parameters: JsonModel,
}

impl View for ToolDef {
    type V = ToolDefModel;

    open spec fn view(&self) -> ToolDefModel {
        ToolDefModel {
            kind: self.kind@,
            name: self.function.name@,
            description: self.function.description@,
            parameters: self.function.parameters@,
        }
    }
}

impl Clone for ToolDef {
    fn clone(&self) -> (r: Self)
        ensures
            r@ == self@,
    {
        ToolDef {
            kind: self.kind.clone(),
            function: ToolFunction {
                name: self.function.name.clone(),
                description: self.function.description.clone(),
                parameters: self.function.parameters.clone(),
            },
        }
    }
}

/// A tool call as it is shown while it runs: `ok` and no error while it runs
/// and when it has succeeded, an error when it has failed.
pub struct ToolEvent {
    pub name: String,
    pub args_summary: String,
    pub ok: bool,
    pub error: Option<String>,
}

/// What a choice of a chunk adds to the response. The tool event never comes
/// from the stream; it is for display only.
pub struct Delta {
    pub content: Option<String>,
    pub reasoning_content: Option<String>,
    pub tool_calls: Vec<ToolCallDelta>,
    pub tool_call_event: Option<ToolEvent>,
}

/// A choice of a chunk.
pub struct ChatChoice {
    pub delta: Delta,
    pub finish_reason: Option<String>,
}

/// The tokens that a request used.
#[derive(Clone, Copy)]
pub struct Usage {
    pub prompt_tokens: Option<u64>,
    pub completion_tokens: Option<u64>,
    pub total_tokens: Option<u64>,
}

impl Default for Usage {
    fn default() -> (r: Self)
        ensures
            r == (Usage { prompt_tokens: None, completion_tokens: None, total_tokens: None }),
    {
        Usage { prompt_tokens: None, completion_tokens: None, total_tokens: None }
    }
}

/// A chunk of a streamed response.
pub struct ChatChunk {
    pub choices: Option<Vec<ChatChoice>>,
    pub usage: Option<Usage>,
}

/// A tool call as far as it has arrived.
pub struct AccumulatedToolCall {
    pub index: u64,
    pub id: Option<String>,
    pub name: Option<String>,
    pub arguments: String,
}

/// The model of a tool call as far as it has arrived.
pub struct CallModel {
    pub index: u64,
    pub id: Option<Seq<char>>,
    pub name: Option<Seq<char>>,
    pub arguments: Seq<char>,
}

impl View for AccumulatedToolCall {
    type V = CallModel;

    open spec fn view(&self) -> CallModel {
        CallModel {
            index: self.index,
            id: text::opt_view(self.id),
            name: text::opt_view(self.name),
            arguments: self.arguments@,
        }
    }
}

/// The models of a list of accumulated calls.
pub open spec fn call_views(v: Seq<AccumulatedToolCall>) -> Seq<CallModel> {
    v.map_values(|c: AccumulatedToolCall| c@)
}

/// A finished tool call.
pub struct ToolCall {
    pub id: Option<String>,
    pub name: String,
    pub arguments: Json,
}

/// The model of a finished tool call.
pub struct ToolCallModel {
    pub id: Option<Seq<char>>,
    pub name: Seq<char>,
    pub arguments: JsonModel,
}

impl View for ToolCall {
    type V = ToolCallModel;

    open spec fn view(&self) -> ToolCallModel {
        ToolCallModel { id: text::opt_view(self.id), name: self.name@, arguments: self.arguments@ }
    }
}

/// The models of a list of finished calls.
pub open spec fn tool_views(v: Seq<ToolCall>) -> Seq<ToolCallModel> {
    v.map_values(|c: ToolCall| c@)
}

/// A complete response.
pub struct ChatResponse {
    pub content: Option<String>,
    pub reasoning_content: Option<String>,
    pub tool_calls: Vec<ToolCall>,
    pub finish_reason: String,
    pub usage: Usage,
    pub incomplete: bool,
}

/// The model of a response.
pub struct ResponseModel {
    pub content: Option<Seq<char>>,
    pub reasoning: Option<Seq<char>>,
    pub tool_calls: Seq<ToolCallModel>,
    pub finish_reason: Seq<char>,
    pub usage: Usage,
    pub incomplete: bool,
}

impl View for ChatResponse {
    type V = ResponseModel;

    open spec fn view(&self) -> ResponseModel {
        ResponseModel {
            content: text::opt_view(self.content),
            reasoning: text::opt_view(self.reasoning_content),
            tool_calls: tool_views(self.tool_calls@),
            finish_reason: self.finish_reason@,
            usage: self.usage,
            incomplete: self.incomplete,
        }
    }
}

/// A request for a chat completion. The temperature is in hundredths.
pub struct ChatRequest {
    pub model: String,
    pub messages: Vec<Message>,
    pub tools: Vec<ToolDef>,
    pub stream: bool,
    pub max_tokens: u64,
    pub temperature_pct: Option<u32>,
    pub reasoning_effort: Option<String>,
}

/// The model of a request.
pub struct RequestModel {
    pub model: Seq<char>,
    pub messages: Seq<MessageModel>,
    pub tools: Seq<ToolDefModel>,
    pub stream: bool,
    pub max_tokens: u64,
    pub temperature_pct: Option<u32>,
    pub reasoning_effort: Option<Seq<char>>,
}

impl View for ChatRequest {
    type V = RequestModel;

    open spec fn view(&self) -> RequestModel {
        RequestModel {
            model: self.model@,
            messages: message_views(self.messages@),
            tools: tool_def_views(self.tools@),
            stream: self.stream,
            max_tokens: self.max_tokens,
            temperature_pct: self.temperature_pct,
            reasoning_effort: text::opt_view(self.reasoning_effort),
        }
    }
}

/// The models of a list of tool definitions.
pub open spec fn tool_def_views(v: Seq<ToolDef>) -> Seq<ToolDefModel> {
    v.map_values(|t: ToolDef| t@)
}

/// Copies tool definitions.
pub fn clone_tools(v: &[ToolDef]) -> (r: Vec<ToolDef>)
    ensures
        tool_def_views(r@) == tool_def_views(v@),
{
    let mut out: Vec<ToolDef> = Vec::new();
    let mut i: usize = 0;
    while i < v.len()
        invariant
            i <= v.len(),
            out.len() == i,
            forall|k: int| 0 <= k < i ==> (#[trigger] out@[k])@ == v@[k]@,
        decreases v.len() - i,
    {
        out.push(v[i].clone());
        i = i + 1;
    }
    proof {
        assert(tool_def_views(out@) =~= tool_def_views(v@));
    }
    out
}

/// Once a call's arguments hold this many bytes, no more is added to them.
pub const MAX_TOOLCALL_ARGS: usize = 65536;

/// Without data for this many seconds a stream is given up.
pub const DEFAULT_STREAM_IDLE_TIMEOUT_SECS: u64 = 300;

/// The address of the chat completions of an endpoint.
pub open spec fn completions_address(base: Seq<char>) -> Seq<char> {
    without_slashes(base) + "/chat/completions"@
}

/// A text without the slashes at its end.
pub open spec fn without_slashes(s: Seq<char>) -> Seq<char>
    decreases s.len(),
{
    if s.len() > 0 && s.last() == '/' {
        without_slashes(s.drop_last())
    } else {
        s
    }
}

/// A text without the slashes at its end.
pub fn trim_slashes<'a>(s: &'a str) -> (r: &'a str)
    ensures
        r@ == without_slashes(s@),
{
    let v = text::chars_of(s);
    let mut n: usize = v.len();
    proof {
        assert(s@.take(s@.len() as int) =~= s@);
    }
    while n > 0 && v[n - 1] == '/'
        invariant
            v@ == s@,
            n <= v.len(),
            without_slashes(s@.take(n as int)) == without_slashes(s@),
        decreases n,
    {
        proof {
            assert(s@.take(n as int).drop_last() =~= s@.take(n - 1));
        }
        n = n - 1;
    }
    let r = text::slice(s, 0, n);
    proof {
        assert(s@.subrange(0, n as int) =~= s@.take(n as int));
    }
    r
}

/// The address of the chat completions of an endpoint.
pub fn completions_url(base: &str) -> (r: String)
    ensures
        r@ == completions_address(base@),
{
    let mut out = trim_slashes(base).to_string();
    out.append("/chat/completions");
    out
}

/// What the data of a stream event is.
#[derive(PartialEq, Eq, Structural, Clone, Copy, Debug)]
pub enum EventKind {
    /// Nothing: the event is passed over.
    Blank,
    /// The end of the response.
    Done,
    /// A chunk.
    Chunk,
}

/// What the data of a stream event is: blank data is passed over, `[DONE]`
/// ends the stream, and anything else is a chunk.
pub fn event_kind(data: &str) -> (r: EventKind)
    ensures
        r == (if text::blank(data@) {
            EventKind::Blank
        } else if text::trimmed(data@) == "[DONE]"@ {
            EventKind::Done
        } else {
            EventKind::Chunk
        }),
{
    let t = text::trim(data);
    if t.is_empty() {
        EventKind::Blank
    } else if text::str_eq(t, "[DONE]") {
        EventKind::Done
    } else {
        EventKind::Chunk
    }
}

// ---------------------------------------------------------------------------
// Accumulation
// ---------------------------------------------------------------------------

/// The response as far as it has arrived. The calls stand in the order of
/// their indices.
pub struct ChatAccumulator {
    pub content: Option<String>,
    pub reasoning: Option<String>,
    pub tool_calls: Vec<AccumulatedToolCall>,
    pub usage: Usage,
    pub finish_reason: Option<String>,
    pub saw_any_delta: bool,
}

/// The model of a response as far as it has arrived.
pub struct AccumulatorModel {
    pub content: Option<Seq<char>>,
    pub reasoning: Option<Seq<char>>,
    pub calls: Seq<CallModel>,
    pub usage: Usage,
    pub finish_reason: Option<Seq<char>>,
    pub saw_any_delta: bool,
}

impl View for ChatAccumulator {
    type V = AccumulatorModel;

    open spec fn view(&self) -> AccumulatorModel {
        AccumulatorModel {
            content: text::opt_view(self.content),
            reasoning: text::opt_view(self.reasoning),
            calls: call_views(self.tool_calls@),
            usage: self.usage,
            finish_reason: text::opt_view(self.finish_reason),
            saw_any_delta: self.saw_any_delta,
        }
    }
}

/// Whether calls stand in the strict order of their indices.
pub open spec fn in_index_order(calls: Seq<CallModel>) -> bool {
    forall|i: int, j: int| 0 <= i < j < calls.len() ==> calls[i].index < calls[j].index
}

/// An optional text with a piece added to it, where there is one.
pub open spec fn extended(s: Option<Seq<char>>, piece: Option<Seq<char>>) -> Option<Seq<char>> {
    match piece {
        Some(p) => Some(text::or_empty(s) + p),
        None => s,
    }
}

/// The number of leading calls with an index below the given one.
pub open spec fn slot(calls: Seq<CallModel>, index: u64) -> int
    decreases calls.len(),
{
    if calls.len() == 0 || calls[0].index >= index {
        0
    } else {
        1 + slot(calls.skip(1), index)
    }
}

/// A call with a piece added to it: the first id and the first name stay, and
/// arguments are appended until they have reached their limit.
pub open spec fn call_with(call: CallModel, piece: ToolCallDeltaModel) -> CallModel {
    CallModel {
        index: call.index,
        id: if call.id is Some {
            call.id
        } else {
            piece.id
        },
        name: if call.name is Some {
            call.name
        } else {
            match piece.function {
                Some(f) => f.name,
                None => None,
            }
        },
        arguments: match piece.function {
            Some(f) => match f.arguments {
                Some(a) => if text::byte_len(call.arguments) < MAX_TOOLCALL_ARGS {
                    call.arguments + a
                } else {
                    call.arguments
                },
                None => call.arguments,
            },
            None => call.arguments,
        },
    }
}

/// The index that a piece belongs to.
pub open spec fn index_of_piece(piece: ToolCallDeltaModel) -> u64 {
    match piece.index {
        Some(i) => i,
        None => 0,
    }
}

/// A call of which nothing has arrived.
pub open spec fn fresh_call(index: u64) -> CallModel {
    CallModel { index, id: None, name: None, arguments: Seq::empty() }
}

/// The calls with a piece added to the one that it belongs to.
pub open spec fn calls_with(calls: Seq<CallModel>, piece: ToolCallDeltaModel) -> Seq<CallModel> {
    let index = index_of_piece(piece);
    let k = slot(calls, index);
    if k < calls.len() && calls[k].index == index {
        calls.update(k, call_with(calls[k], piece))
    } else {
        calls.insert(k, call_with(fresh_call(index), piece))
    }
}

/// The calls with pieces added to them one after the other.
pub open spec fn calls_with_all(
    calls: Seq<CallModel>,
    pieces: Seq<ToolCallDeltaModel>,
) -> Seq<CallModel>
    decreases pieces.len(),
{
    if pieces.len() == 0 {
        calls
    } else {
        calls_with(calls_with_all(calls, pieces.drop_last()), pieces.last())
    }
}

/// The response with a chunk added to it. Only the first choice of the chunk
/// counts.
pub open spec fn accumulated(acc: AccumulatorModel, chunk: ChatChunk) -> AccumulatorModel {
    let usage = match chunk.usage {
        Some(u) => u,
        None => acc.usage,
    };
    match chunk.choices {
        Some(choices) if choices@.len() > 0 => {
            let choice = choices@[0];
            AccumulatorModel {
                content: extended(acc.content, text::opt_view(choice.delta.content)),
                reasoning: extended(acc.reasoning, text::opt_view(choice.delta.reasoning_content)),
                calls: calls_with_all(acc.calls, delta_views(choice.delta.tool_calls@)),
                usage,
                finish_reason: match choice.finish_reason {
                    Some(f) if f@.len() > 0 => Some(f@),
                    _ => acc.finish_reason,
                },
                saw_any_delta: true,
            }
        },
        _ => AccumulatorModel { usage, ..acc },
    }
}

/// The slot of an index is where the calls in front are below it.
pub proof fn lemma_slot(calls: Seq<CallModel>, index: u64)
    ensures
        0 <= slot(calls, index) <= calls.len(),
        forall|i: int| 0 <= i < slot(calls, index) ==> (#[trigger] calls[i]).index < index,
        slot(calls, index) < calls.len() ==> calls[slot(calls, index)].index >= index,
    decreases calls.len(),
{
    if calls.len() == 0 || calls[0].index >= index {
    } else {
        lemma_slot(calls.skip(1), index);
        assert forall|i: int| 0 <= i < slot(calls, index) implies (#[trigger] calls[i]).index
            < index by {
            if i > 0 {
                assert(calls[i] == calls.skip(1)[i - 1]);
            }
        }
    }
}

/// Adding a piece keeps the calls in order.
pub proof fn lemma_calls_with_order(calls: Seq<CallModel>, piece: ToolCallDeltaModel)
    requires
        in_index_order(calls),
    ensures
        in_index_order(calls_with(calls, piece)),
{
    let index = index_of_piece(piece);
    lemma_slot(calls, index);
    let k = slot(calls, index);
    let out = calls_with(calls, piece);
    if k < calls.len() && calls[k].index == index {
    } else {
        let c = call_with(fresh_call(index), piece);
        assert forall|i: int, j: int| 0 <= i < j < out.len() implies out[i].index < out[j].index by {
            assert(out[i] == (if i < k {
                calls[i]
            } else if i == k {
                c
            } else {
                calls[i - 1]
            }));
            assert(out[j] == (if j < k {
                calls[j]
            } else if j == k {
                c
            } else {
                calls[j - 1]
            }));
        }
    }
}

/// Adding pieces keeps the calls in order.
pub proof fn lemma_calls_with_all_order(calls: Seq<CallModel>, pieces: Seq<ToolCallDeltaModel>)
    requires
        in_index_order(calls),
    ensures
        in_index_order(calls_with_all(calls, pieces)),
    decreases pieces.len(),
{
    if pieces.len() > 0 {
        lemma_calls_with_all_order(calls, pieces.drop_last());
        lemma_calls_with_order(calls_with_all(calls, pieces.drop_last()), pieces.last());
    }
}

/// The call with the given index, where there is one.
pub open spec fn call_at(calls: Seq<CallModel>, index: u64) -> Option<CallModel> {
    if exists|i: int| 0 <= i < calls.len() && (#[trigger] calls[i]).index == index {
        let i = choose|i: int| 0 <= i < calls.len() && (#[trigger] calls[i]).index == index;
        Some(calls[i])
    } else {
        None
    }
}

/// A piece of a tool call reaches the call with its index and no other.
pub proof fn law_piece_reaches_its_call_only(
    calls: Seq<CallModel>,
    piece: ToolCallDeltaModel,
    index: u64,
)
    requires
        in_index_order(calls),
    ensures
        call_at(calls_with(calls, piece), index) == (if index == index_of_piece(piece) {
            Some(
                call_with(
                    match call_at(calls, index) {
                        Some(c) => c,
                        None => fresh_call(index),
                    },
                    piece,
                ),
            )
        } else {
            call_at(calls, index)
        }),
{
    let target = index_of_piece(piece);
    lemma_slot(calls, target);
    lemma_calls_with_order(calls, piece);
    let k = slot(calls, target);
    let out = calls_with(calls, piece);
    let hit = k < calls.len() && calls[k].index == target;
    if hit {
        assert(out[k] == call_with(calls[k], piece));
        assert forall|i: int| 0 <= i < calls.len() && i != k implies out[i] == calls[i] by {}
        if index == target {
            lemma_call_at(out, k);
            lemma_call_at(calls, k);
        } else if call_at(calls, index) is Some {
            let i = choose|i: int| 0 <= i < calls.len() && (#[trigger] calls[i]).index == index;
            assert(out[i] == calls[i]);
            lemma_call_at(calls, i);
            lemma_call_at(out, i);
        } else if call_at(out, index) is Some {
            let i = choose|i: int| 0 <= i < out.len() && (#[trigger] out[i]).index == index;
            assert(calls[i].index == index);
        }
    } else {
        assert(out[k] == call_with(fresh_call(target), piece));
        assert forall|i: int| 0 <= i < calls.len() implies #[trigger] calls[i] == out[if i < k {
            i
        } else {
            i + 1
        }] by {}
        if index == target {
            lemma_call_at(out, k);
            if call_at(calls, index) is Some {
                let i = choose|i: int| 0 <= i < calls.len() && (#[trigger] calls[i]).index == index;
                assert(calls[i].index == target);
                assert(i >= k);
                assert(calls[k].index <= calls[i].index);
            }
        } else if call_at(calls, index) is Some {
            let i = choose|i: int| 0 <= i < calls.len() && (#[trigger] calls[i]).index == index;
            let j = if i < k {
                i
            } else {
                i + 1
            };
            assert(out[j] == calls[i]);
            lemma_call_at(calls, i);
            lemma_call_at(out, j);
        } else if call_at(out, index) is Some {
            let i = choose|i: int| 0 <= i < out.len() && (#[trigger] out[i]).index == index;
            let j = if i < k {
                i
            } else {
                i - 1
            };
            assert(i != k);
            assert(calls[j] == out[i]);
            assert(calls[j].index == index);
        }
    }
}

/// Among calls in order, an index has one call.
pub proof fn lemma_call_at(calls: Seq<CallModel>, i: int)
    requires
        in_index_order(calls),
        0 <= i < calls.len(),
    ensures
        call_at(calls, calls[i].index) == Some(calls[i]),
{
    let j = choose|j: int| 0 <= j < calls.len() && (#[trigger] calls[j]).index == calls[i].index;
    assert(calls[i].index == calls[i].index);
    if i < j {
        assert(calls[i].index < calls[j].index);
    } else if j < i {
        assert(calls[j].index < calls[i].index);
    }
}

/// The response with chunks added to it one after the other.
pub open spec fn accumulated_all(acc: AccumulatorModel, chunks: Seq<ChatChunk>) -> AccumulatorModel
    decreases chunks.len(),
{
    if chunks.len() == 0 {
        acc
    } else {
        accumulated(accumulated_all(acc, chunks.drop_last()), chunks.last())
    }
}

/// The piece of the content that a chunk brings, empty where it brings none.
pub open spec fn content_piece(chunk: ChatChunk) -> Seq<char> {
    match chunk.choices {
        Some(choices) if choices@.len() > 0 => text::or_empty(
            text::opt_view(choices@[0].delta.content),
        ),
        _ => Seq::empty(),
    }
}

/// The piece of the reasoning that a chunk brings, empty where it brings none.
pub open spec fn reasoning_piece(chunk: ChatChunk) -> Seq<char> {
    match chunk.choices {
        Some(choices) if choices@.len() > 0 => text::or_empty(
            text::opt_view(choices@[0].delta.reasoning_content),
        ),
        _ => Seq::empty(),
    }
}

/// All that chunks bring of the content.
pub open spec fn content_pieces(chunks: Seq<ChatChunk>) -> Seq<char>
    decreases chunks.len(),
{
    if chunks.len() == 0 {
        Seq::empty()
    } else {
        content_pieces(chunks.drop_last()) + content_piece(chunks.last())
    }
}

/// All that chunks bring of the reasoning.
pub open spec fn reasoning_pieces(chunks: Seq<ChatChunk>) -> Seq<char>
    decreases chunks.len(),
{
    if chunks.len() == 0 {
        Seq::empty()
    } else {
        reasoning_pieces(chunks.drop_last()) + reasoning_piece(chunks.last())
    }
}

/// Nothing of a streamed text is lost or changes its place: the content is made
/// of the pieces of the content alone, in the order in which they came, and the
/// reasoning of its own.
pub proof fn law_pieces_are_joined(acc: AccumulatorModel, chunks: Seq<ChatChunk>)
    ensures
        text::or_empty(accumulated_all(acc, chunks).content) == text::or_empty(acc.content)
            + content_pieces(chunks),
        text::or_empty(accumulated_all(acc, chunks).reasoning) == text::or_empty(acc.reasoning)
            + reasoning_pieces(chunks),
    decreases chunks.len(),
{
    if chunks.len() == 0 {
        assert(text::or_empty(acc.content) + content_pieces(chunks) =~= text::or_empty(
            acc.content,
        ));
        assert(text::or_empty(acc.reasoning) + reasoning_pieces(chunks) =~= text::or_empty(
            acc.reasoning,
        ));
    } else {
        law_pieces_are_joined(acc, chunks.drop_last());
        let before = accumulated_all(acc, chunks.drop_last());
        let c = content_piece(chunks.last());
        let r = reasoning_piece(chunks.last());
        assert(text::or_empty(accumulated(before, chunks.last()).content) =~= text::or_empty(
            before.content,
        ) + c);
        assert(text::or_empty(accumulated(before, chunks.last()).reasoning) =~= text::or_empty(
            before.reasoning,
        ) + r);
        assert(text::or_empty(acc.content) + content_pieces(chunks.drop_last()) + c
            =~= text::or_empty(acc.content) + (content_pieces(chunks.drop_last()) + c));
        assert(text::or_empty(acc.reasoning) + reasoning_pieces(chunks.drop_last()) + r
            =~= text::or_empty(acc.reasoning) + (reasoning_pieces(chunks.drop_last()) + r));
    }
}

/// What a piece of a tool call brings of the arguments of an index, character
/// for character; nothing where it belongs to another one.
pub open spec fn argument_piece(piece: ToolCallDeltaModel, index: u64) -> Seq<char> {
    match (piece.index, piece.function) {
        (Some(i), Some(f)) if i == index => text::or_empty(f.arguments),
        (None, Some(f)) if index == 0 => text::or_empty(f.arguments),
        _ => Seq::empty(),
    }
}

/// All that pieces bring of the arguments of an index, in order.
pub open spec fn argument_pieces(pieces: Seq<ToolCallDeltaModel>, index: u64) -> Seq<char>
    decreases pieces.len(),
{
    if pieces.len() == 0 {
        Seq::empty()
    } else {
        argument_pieces(pieces.drop_last(), index) + argument_piece(pieces.last(), index)
    }
}

/// The arguments of the call with the given index, empty where there is none.
pub open spec fn arguments_at(calls: Seq<CallModel>, index: u64) -> Seq<char> {
    match call_at(calls, index) {
        Some(c) => c.arguments,
        None => Seq::empty(),
    }
}

/// Nothing of a call's arguments is lost: while they are below their limit, the
/// arguments of an index are the pieces that came with that index, character for
/// character and in order.
pub proof fn law_arguments_are_joined(
    calls: Seq<CallModel>,
    pieces: Seq<ToolCallDeltaModel>,
    index: u64,
)
    requires
        in_index_order(calls),
        forall|k: int|
            0 <= k < pieces.len() ==> text::byte_len(
                arguments_at(calls, index) + argument_pieces(#[trigger] pieces.take(k), index),
            ) < MAX_TOOLCALL_ARGS,
    ensures
        arguments_at(calls_with_all(calls, pieces), index) == arguments_at(calls, index)
            + argument_pieces(pieces, index),
    decreases pieces.len(),
{
    let old_args = arguments_at(calls, index);
    if pieces.len() == 0 {
        assert(old_args + argument_pieces(pieces, index) =~= old_args);
    } else {
        let init = pieces.drop_last();
        assert forall|k: int| 0 <= k < init.len() implies text::byte_len(
            old_args + argument_pieces(#[trigger] init.take(k), index),
        ) < MAX_TOOLCALL_ARGS by {
            assert(init.take(k) =~= pieces.take(k));
        }
        law_arguments_are_joined(calls, init, index);
        lemma_calls_with_all_order(calls, init);
        let before = calls_with_all(calls, init);
        law_piece_reaches_its_call_only(before, pieces.last(), index);
        assert(pieces.take(pieces.len() - 1) =~= init);
        let a = argument_piece(pieces.last(), index);
        assert(text::byte_len(arguments_at(before, index)) < MAX_TOOLCALL_ARGS);
        assert(arguments_at(calls_with_all(calls, pieces), index) =~= arguments_at(before, index)
            + a);
        assert(old_args + argument_pieces(init, index) + a =~= old_args + (argument_pieces(
            init,
            index,
        ) + a));
    }
}

/// All pieces of tool calls that chunks bring, in order.
pub open spec fn call_pieces(chunks: Seq<ChatChunk>) -> Seq<ToolCallDeltaModel>
    decreases chunks.len(),
{
    if chunks.len() == 0 {
        Seq::empty()
    } else {
        call_pieces(chunks.drop_last()) + (match chunks.last().choices {
            Some(choices) if choices@.len() > 0 => delta_views(choices@[0].delta.tool_calls@),
            _ => Seq::empty(),
        })
    }
}

/// Adding pieces in two runs is adding them in one.
proof fn lemma_pieces_in_runs(
    calls: Seq<CallModel>,
    p: Seq<ToolCallDeltaModel>,
    q: Seq<ToolCallDeltaModel>,
)
    ensures
        calls_with_all(calls, p + q) == calls_with_all(calls_with_all(calls, p), q),
    decreases q.len(),
{
    if q.len() == 0 {
        assert(p + q =~= p);
    } else {
        lemma_pieces_in_runs(calls, p, q.drop_last());
        assert((p + q).drop_last() =~= p + q.drop_last());
    }
}

/// The calls of a streamed response are made of the pieces of all chunks.
proof fn lemma_calls_of_chunks(acc: AccumulatorModel, chunks: Seq<ChatChunk>)
    ensures
        accumulated_all(acc, chunks).calls == calls_with_all(acc.calls, call_pieces(chunks)),
    decreases chunks.len(),
{
    if chunks.len() > 0 {
        lemma_calls_of_chunks(acc, chunks.drop_last());
        let p = call_pieces(chunks.drop_last());
        match chunks.last().choices {
            Some(choices) if choices@.len() > 0 => {
                lemma_pieces_in_runs(acc.calls, p, delta_views(choices@[0].delta.tool_calls@));
            },
            _ => {
                assert(p + Seq::<ToolCallDeltaModel>::empty() =~= p);
            },
        }
    }
}

/// Nothing of a streamed call is lost, over all chunks of a response.
pub proof fn law_streamed_arguments_are_joined(
    acc: AccumulatorModel,
    chunks: Seq<ChatChunk>,
    index: u64,
)
    requires
        in_index_order(acc.calls),
        forall|k: int|
            0 <= k < call_pieces(chunks).len() ==> text::byte_len(
                arguments_at(acc.calls, index) + argument_pieces(
                    #[trigger] call_pieces(chunks).take(k),
                    index,
                ),
            ) < MAX_TOOLCALL_ARGS,
    ensures
        arguments_at(accumulated_all(acc, chunks).calls, index) == arguments_at(acc.calls, index)
            + argument_pieces(call_pieces(chunks), index),
{
    lemma_calls_of_chunks(acc, chunks);
    law_arguments_are_joined(acc.calls, call_pieces(chunks), index);
}

/// The first id and the first name that come with an index are those of its
/// call, and an index of which a piece came has a call.
pub proof fn law_first_name_counts(
    calls: Seq<CallModel>,
    piece: ToolCallDeltaModel,
    index: u64,
)
    requires
        in_index_order(calls),
        piece.index == Some(index) || piece.index is None && index == 0,
    ensures
        ({
            let after = call_at(calls_with(calls, piece), index);
            &&& after is Some
            &&& after->0.index == index
            &&& call_at(calls, index) matches Some(c) ==> {
                &&& c.id is Some ==> after->0.id == c.id
                &&& c.id is None ==> after->0.id == piece.id
                &&& c.name is Some ==> after->0.name == c.name
                &&& c.name is None && piece.function is Some ==> after->0.name
                    == piece.function->0.name
                &&& c.arguments.is_prefix_of(after->0.arguments)
            }
            &&& call_at(calls, index) is None ==> {
                &&& after->0.id == piece.id
                &&& piece.function is Some ==> after->0.name == piece.function->0.name
                &&& piece.function is None ==> after->0.name is None
            }
        }),
{
    law_piece_reaches_its_call_only(calls, piece, index);
    if call_at(calls, index) is Some {
        let i = choose|i: int| 0 <= i < calls.len() && (#[trigger] calls[i]).index == index;
        assert(calls[i].index == index);
    }
}

/// Appends a piece to an optional text.
fn extend(s: Option<String>, piece: &Option<String>) -> (r: Option<String>)
    ensures
        text::opt_view(r) == extended(text::opt_view(s), text::opt_view(*piece)),
{
    match piece {
        Some(p) => {
            let mut out = match s {
                Some(t) => t,
                None => String::new(),
            };
            out.append(p.as_str());
            Some(out)
        },
        None => s,
    }
}

/// Adds a piece to a call.
fn add_to_call(call: AccumulatedToolCall, piece: &ToolCallDelta) -> (r: AccumulatedToolCall)
    ensures
        r@ == call_with(call@, piece@),
{
    let mut call = call;
    if call.id.is_none() {
        call.id = text::clone_opt(&piece.id);
    }
    match &piece.function {
        Some(f) => {
            if call.name.is_none() {
                call.name = text::clone_opt(&f.name);
            }
            match &f.arguments {
                Some(a) => {
                    if call.arguments.as_str().len() < MAX_TOOLCALL_ARGS {
                        call.arguments.append(a.as_str());
                    }
                },
                None => {},
            }
        },
        None => {},
    }
    call
}

/// Adds a piece to the call that it belongs to.
fn add_piece(calls: &mut Vec<AccumulatedToolCall>, piece: &ToolCallDelta)
    ensures
        call_views(final(calls)@) == calls_with(call_views(old(calls)@), piece@),
{
    let index: u64 = match piece.index {
        Some(i) => i,
        None => 0,
    };
    let ghost all = call_views(calls@);
    let mut k: usize = 0;
    proof {
        assert(all.skip(0) =~= all);
    }
    while k < calls.len() && calls[k].index < index
        invariant
            k <= calls.len(),
            all == call_views(calls@),
            k + slot(all.skip(k as int), index) == slot(all, index),
        decreases calls.len() - k,
    {
        proof {
            assert(all.skip(k as int)[0] == calls@[k as int]@);
            assert(all.skip(k as int).skip(1) =~= all.skip(k + 1));
        }
        k = k + 1;
    }
    proof {
        if k < calls.len() {
            assert(all.skip(k as int)[0] == calls@[k as int]@);
        }
        assert(slot(all, index) == k);
    }
    if k < calls.len() && calls[k].index == index {
        let call = calls.remove(k);
        let call = add_to_call(call, piece);
        calls.insert(k, call);
        proof {
            assert(call_views(calls@) =~= all.update(k as int, call@));
        }
    } else {
        let call = AccumulatedToolCall { index, id: None, name: None, arguments: String::new() };
        proof {
            assert(call@ == fresh_call(index));
        }
        let call = add_to_call(call, piece);
        calls.insert(k, call);
        proof {
            assert(call_views(calls@) =~= all.insert(k as int, call@));
        }
    }
}

/// Whether a response with the given end is left incomplete: one that stopped
/// or called tools is complete, one that ran out of tokens is complete if it
/// holds anything, and any other end is incomplete.
pub open spec fn left_incomplete(
    finish_reason: Seq<char>,
    content: Option<Seq<char>>,
    calls: nat,
) -> bool {
    if finish_reason == "stop"@ || finish_reason == "tool_calls"@ {
        false
    } else if finish_reason == "length"@ {
        text::blank(text::or_empty(content)) && calls == 0
    } else {
        true
    }
}

/// The arguments of a call: blank text is an empty object, text that is no
/// JSON is a string.
pub open spec fn arguments_of(raw: Seq<char>, parsed: Option<JsonModel>) -> JsonModel {
    if text::blank(raw) {
        JsonModel::Object(Seq::empty())
    } else {
        match parsed {
            Some(v) => v,
            None => JsonModel::Str(raw),
        }
    }
}

/// A finished call.
pub open spec fn finished_call(call: CallModel) -> ToolCallModel {
    ToolCallModel {
        id: call.id,
        name: text::or_empty(call.name),
        arguments: arguments_of(call.arguments, json::json_parse(call.arguments)),
    }
}

/// The finish reason of a response; one that names none has stopped.
pub open spec fn end_of(acc: AccumulatorModel) -> Seq<char> {
    match acc.finish_reason {
        Some(f) => f,
        None => "stop"@,
    }
}

/// The response that an accumulation amounts to.
pub open spec fn response_of(acc: AccumulatorModel) -> ResponseModel {
    ResponseModel {
        content: acc.content,
        reasoning: acc.reasoning,
        tool_calls: acc.calls.map_values(|c: CallModel| finished_call(c)),
        finish_reason: end_of(acc),
        usage: acc.usage,
        incomplete: left_incomplete(end_of(acc), acc.content, acc.calls.len()),
    }
}

/// The arguments of a call, from their text and what JSON reading made of it.
pub fn call_arguments(raw: &str, parsed: Option<Json>) -> (r: Json)
    ensures
        r@ == arguments_of(
            raw@,
            match parsed {
                Some(v) => Some(v@),
                None => None,
            },
        ),
{
    if text::is_blank(raw) {
        let none: Vec<(String, Json)> = Vec::new();
        proof {
            assert(Json::members(none@) =~= Seq::empty());
        }
        Json::object(none)
    } else {
        match parsed {
            Some(v) => v,
            None => Json::string(raw),
        }
    }
}

/// Whether a response with the given end is left incomplete.
pub fn is_incomplete(finish_reason: &str, content: &Option<String>, calls: usize) -> (r: bool)
    ensures
        r == left_incomplete(finish_reason@, text::opt_view(*content), calls as nat),
{
    if text::str_eq(finish_reason, "stop") || text::str_eq(finish_reason, "tool_calls") {
        false
    } else if text::str_eq(finish_reason, "length") {
        let c = text::unwrap_or_empty(content);
        text::is_blank(c.as_str()) && calls == 0
    } else {
        true
    }
}

impl ChatAccumulator {
    /// Whether the calls stand in the order of their indices.
    pub open spec fn wf(self) -> bool {
        in_index_order(self@.calls)
    }

    /// Nothing has arrived.
    pub fn new() -> (r: Self)
        ensures
            r.wf(),
            r@ == (AccumulatorModel {
                content: None,
                reasoning: None,
                calls: Seq::empty(),
                usage: Usage { prompt_tokens: None, completion_tokens: None, total_tokens: None },
                finish_reason: None,
                saw_any_delta: false,
            }),
    {
        let tool_calls: Vec<AccumulatedToolCall> = Vec::new();
        proof {
            assert(call_views(tool_calls@) =~= Seq::empty());
        }
        ChatAccumulator {
            content: None,
            reasoning: None,
            tool_calls,
            usage: Usage::default(),
            finish_reason: None,
            saw_any_delta: false,
        }
    }

    /// Takes in a chunk.
    pub fn push(&mut self, chunk: &ChatChunk)
        requires
            old(self).wf(),
        ensures
            final(self).wf(),
            final(self)@ == accumulated(old(self)@, *chunk),
    {
        let ghost before = self@;
        match chunk.usage {
            Some(u) => {
                self.usage = u;
            },
            None => {},
        }
        match &chunk.choices {
            Some(choices) => {
                if choices.len() > 0 {
                    let choice = &choices[0];
                    self.saw_any_delta = true;
                    self.content = extend(self.content.take(), &choice.delta.content);
                    self.reasoning = extend(self.reasoning.take(), &choice.delta.reasoning_content);
                    let pieces = &choice.delta.tool_calls;
                    let ghost all = delta_views(pieces@);
                    let mut i: usize = 0;
                    proof {
                        assert(all.take(0) =~= Seq::empty());
                    }
                    while i < pieces.len()
                        invariant
                            i <= pieces.len(),
                            all == delta_views(pieces@),
                            call_views(self.tool_calls@) == calls_with_all(
                                before.calls,
                                all.take(i as int),
                            ),
                            self.saw_any_delta,
                            self@.content == extended(
                                before.content,
                                text::opt_view(choice.delta.content),
                            ),
                            self@.reasoning == extended(
                                before.reasoning,
                                text::opt_view(choice.delta.reasoning_content),
                            ),
                            self@.finish_reason == before.finish_reason,
                            self@.usage == (match chunk.usage {
                                Some(u) => u,
                                None => before.usage,
                            }),
                        decreases pieces.len() - i,
                    {
                        add_piece(&mut self.tool_calls, &pieces[i]);
                        proof {
                            assert(all.take(i + 1).drop_last() =~= all.take(i as int));
                            assert(all.take(i + 1).last() == pieces@[i as int]@);
                        }
                        i = i + 1;
                    }
                    proof {
                        assert(all.take(i as int) =~= all);
                        lemma_calls_with_all_order(before.calls, all);
                    }
                    match &choice.finish_reason {
                        Some(f) => {
                            if !f.as_str().is_empty() {
                                self.finish_reason = Some(f.clone());
                            }
                        },
                        None => {},
                    }
                }
            },
            None => {},
        }
    }

    /// The response, or `Empty` where no choice has arrived.
    pub fn finish(self) -> (r: Result<ChatResponse, LlmError>)
        ensures
            match r {
                Ok(resp) => self@.saw_any_delta && resp@ == response_of(self@),
                Err(e) => !self@.saw_any_delta && e is Empty,
            },
    {
        if !self.saw_any_delta {
            return Err(LlmError::Empty);
        }
        let finish_reason = match &self.finish_reason {
            Some(f) => f.clone(),
            None => "stop".to_string(),
        };
        let incomplete = is_incomplete(
            finish_reason.as_str(),
            &self.content,
            self.tool_calls.len(),
        );
        let mut tools: Vec<ToolCall> = Vec::new();
        let mut i: usize = 0;
        let ghost want = self@.calls.map_values(|c: CallModel| finished_call(c));
        while i < self.tool_calls.len()
            invariant
                i <= self.tool_calls.len(),
                want == self@.calls.map_values(|c: CallModel| finished_call(c)),
                tool_views(tools@) == want.take(i as int),
            decreases self.tool_calls.len() - i,
        {
            let acc = &self.tool_calls[i];
            let parsed = Json::parse(acc.arguments.as_str());
            let arguments = call_arguments(acc.arguments.as_str(), parsed);
            let call = ToolCall {
                id: text::clone_opt(&acc.id),
                name: text::unwrap_or_empty(&acc.name),
                arguments,
            };
            tools.push(call);
            proof {
                assert(call@ == finished_call(acc@));
                assert(want[i as int] == finished_call(self@.calls[i as int]));
                assert(tool_views(tools@) =~= want.take(i as int).push(call@));
                assert(want.take(i + 1) =~= want.take(i as int).push(want[i as int]));
            }
            i = i + 1;
        }
        proof {
            assert(want.take(i as int) =~= want);
        }
        Ok(
            ChatResponse {
                content: self.content,
                reasoning_content: self.reasoning,
                tool_calls: tools,
                finish_reason,
                usage: self.usage,
                incomplete,
            },
        )
    }
}

// ---------------------------------------------------------------------------
// Laws
// ---------------------------------------------------------------------------

/// A response tells what came: the text, the thoughts and the tokens as they
/// are, and every call, in order, with its id, its name and its arguments.
/// Arguments that are JSON are read, and those that are none are kept as text.
pub proof fn law_response_tells_what_came(acc: AccumulatorModel, i: int)
    requires
        0 <= i < acc.calls.len(),
    ensures
        response_of(acc).content == acc.content,
        response_of(acc).reasoning == acc.reasoning,
        response_of(acc).usage == acc.usage,
        response_of(acc).tool_calls.len() == acc.calls.len(),
        response_of(acc).tool_calls[i].id == acc.calls[i].id,
        acc.calls[i].name is Some ==> response_of(acc).tool_calls[i].name
            == acc.calls[i].name->0,
        !text::blank(acc.calls[i].arguments) ==> match json::json_parse(acc.calls[i].arguments) {
            Some(j) => response_of(acc).tool_calls[i].arguments == j,
            None => response_of(acc).tool_calls[i].arguments == JsonModel::Str(
                acc.calls[i].arguments,
            ),
        },
{
}

/// A response without calls tells its text too.
pub proof fn law_response_without_calls(acc: AccumulatorModel)
    requires
        acc.calls.len() == 0,
    ensures
        response_of(acc).content == acc.content,
        response_of(acc).reasoning == acc.reasoning,
        response_of(acc).usage == acc.usage,
        response_of(acc).tool_calls.len() == 0,
{
}

/// A response that came to its end is whole, and one that was cut off is whole
/// only where it brought something. A response that ended for another reason is
/// not whole.
pub proof fn law_ends_are_told(acc: AccumulatorModel)
    ensures
        acc.finish_reason is Some ==> response_of(acc).finish_reason == acc.finish_reason->0,
        acc.finish_reason is None ==> !response_of(acc).incomplete,
        acc.finish_reason == Some("stop"@) ==> !response_of(acc).incomplete,
        acc.finish_reason == Some("tool_calls"@) ==> !response_of(acc).incomplete,
        acc.finish_reason == Some("length"@) ==> response_of(acc).incomplete == (text::blank(
            text::or_empty(acc.content),
        ) && acc.calls.len() == 0),
        acc.finish_reason is Some && acc.finish_reason->0 != "stop"@ && acc.finish_reason->0
            != "tool_calls"@ && acc.finish_reason->0 != "length"@ ==> response_of(acc).incomplete,
{
    reveal_strlit("stop");
    reveal_strlit("tool_calls");
    reveal_strlit("length");
    assert("stop"@.len() == 4);
    assert("tool_calls"@.len() == 10);
    assert("length"@.len() == 6);
}

/// The last usage and the last end that came count, and a chunk that brings none
/// keeps what was there. A response has begun once a choice came.
pub proof fn law_last_usage_counts(acc: AccumulatorModel, chunk: ChatChunk)
    ensures
        chunk.usage is Some ==> accumulated(acc, chunk).usage == chunk.usage->0,
        chunk.usage is None ==> accumulated(acc, chunk).usage == acc.usage,
        chunk.choices is None ==> accumulated(acc, chunk).content == acc.content && accumulated(
            acc,
            chunk,
        ).calls == acc.calls && accumulated(acc, chunk).finish_reason == acc.finish_reason
            && accumulated(acc, chunk).saw_any_delta == acc.saw_any_delta,
        chunk.choices is Some && chunk.choices->0@.len() > 0 ==> {
            &&& accumulated(acc, chunk).saw_any_delta
            &&& chunk.choices->0@[0].finish_reason is Some
                && chunk.choices->0@[0].finish_reason->0@.len() > 0 ==> accumulated(
                acc,
                chunk,
            ).finish_reason == Some(chunk.choices->0@[0].finish_reason->0@)
            &&& chunk.choices->0@[0].finish_reason is None ==> accumulated(acc, chunk).finish_reason
                == acc.finish_reason
        },
{
}

/// A message that is a text says that text in that role, and nothing else.
pub proof fn law_text_message(role: Seq<char>, content: Seq<char>)
    ensures
        text_message(role, content).role == role,
        text_message(role, content).content == Some(content),
        text_message(role, content).tool_calls is None,
        text_message(role, content).tool_call_id is None,
        text_message(role, content).name is None,
{
}

} // verus!
