//! Servers of tools (Model Context Protocol).
//!
//! A server is started when one of its tools is first asked for. This module
//! holds what is known of the servers, and how their answers are read; failures
//! are told to the model and do not end the run.
use vstd::prelude::*;

use crate::config::{McpConfig, McpModel};
use crate::json::{Json, JsonModel};
use crate::json;
use crate::table::Table;
use crate::text;
use crate::tools;

verus! {

/// The time a call may take, in seconds.
pub const MCP_TIMEOUT_SECS: u64 = 60;

/// What can go wrong with a server, with the cause in words.
#[derive(Debug, Clone, PartialEq, Eq)]
pub enum McpError {
    Spawn { name: String, source: String },
    Initialize { name: String, source: String },
    ListTools { name: String, source: String },
    Call { name: String, tool: String, source: String },
    Timeout,
    ToolNotFound { name: String, tool: String },
}

impl McpError {
    /// The message of an error.
    pub open spec fn text(self) -> Seq<char> {
        match self {
            McpError::Spawn { name, source } => "MCP 서버 '"@ + name@
                + "' 프로세스를 시작하지 못했습니다: "@ + source@,
            McpError::Initialize { name, source } => "MCP 서버 '"@ + name@ + "' 초기화에 실패했습니다: "@
                + source@,
            McpError::ListTools { name, source } => "MCP 서버 '"@ + name@ + "' 도구 목록 조회 실패: "@
                + source@,
            McpError::Call { name, tool, source } => "MCP 서버 '"@ + name@ + "' 툴 '"@ + tool@
                + "' 호출 실패: "@ + source@,
            McpError::Timeout => "MCP 도구 호출이 60초를 초과해 타임아웃되었습니다"@,
            McpError::ToolNotFound { name, tool } => "MCP 서버 '"@ + name@ + "'에 툴 '"@ + tool@
                + "'이 없습니다"@,
        }
    }

    /// The message of the error.
    pub fn message(&self) -> (r: String)
        ensures
            r@ == self.text(),
    {
        let mut out = "MCP 서버 '".to_string();
        match self {
            McpError::Spawn { name, source } => {
                out.append(name);
                out.append("' 프로세스를 시작하지 못했습니다: ");
                out.append(source);
            },
            McpError::Initialize { name, source } => {
                out.append(name);
                out.append("' 초기화에 실패했습니다: ");
                out.append(source);
            },
            McpError::ListTools { name, source } => {
                out.append(name);
                out.append("' 도구 목록 조회 실패: ");
                out.append(source);
            },
            McpError::Call { name, tool, source } => {
                out.append(name);
                out.append("' 툴 '");
                out.append(tool);
                out.append("' 호출 실패: ");
                out.append(source);
            },
            McpError::Timeout => {
                return "MCP 도구 호출이 60초를 초과해 타임아웃되었습니다".to_string();
            },
            McpError::ToolNotFound { name, tool } => {
                out.append(name);
                out.append("'에 툴 '");
                out.append(tool);
                out.append("'이 없습니다");
            },
        }
        out
    }
}

// ---------------------------------------------------------------------------
// Connections
// ---------------------------------------------------------------------------

/// A server and whether it runs.
pub struct McpClient {
    pub config: McpConfig,
    pub running: bool,
}

/// The model of a server and whether it runs.
pub struct ClientModel {
    pub config: McpModel,
    pub running: bool,
}

impl View for McpClient {
    type V = ClientModel;

    open spec fn view(&self) -> ClientModel {
        ClientModel { config: self.config@, running: self.running }
    }
}

impl McpClient {
    /// A server that was not started yet.
    pub fn new(config: McpConfig) -> (r: Self)
        ensures
            r@ == (ClientModel { config: config@, running: false }),
    {
        McpClient { config, running: false }
    }
}

/// The servers known so far, by name.
pub struct McpManager {
    pub clients: Table<McpClient>,
}

impl View for McpManager {
    type V = Map<Seq<char>, ClientModel>;

    open spec fn view(&self) -> Map<Seq<char>, ClientModel> {
        self.clients@
    }
}

/// The servers known after one more was named: one that is known already is
/// kept as it is, a new one does not run yet.
pub open spec fn known_after(
    clients: Map<Seq<char>, ClientModel>,
    name: Seq<char>,
    config: McpModel,
) -> Map<Seq<char>, ClientModel> {
    if clients.dom().contains(name) {
        clients
    } else {
        clients.insert(name, (ClientModel { config, running: false }))
    }
}

impl McpManager {
    /// Whether the table is in order.
    pub open spec fn wf(self) -> bool {
        self.clients.wf()
    }

    /// No server is known yet.
    pub fn new() -> (r: Self)
        ensures
            r.wf(),
            r@ == Map::<Seq<char>, ClientModel>::empty(),
    {
        McpManager { clients: Table::new() }
    }

    /// Makes a server known, where it is not yet. A server that is known keeps
    /// its settings and goes on running; none is started here. The result says
    /// whether the server runs.
    pub fn client(&mut self, name: &str, config: McpConfig) -> (r: bool)
        requires
            old(self).wf(),
        ensures
            final(self).wf(),
            final(self)@ == known_after(old(self)@, name@, config@),
            r == final(self)@[name@].running,
    {
        match self.clients.get(name) {
            Some(c) => c.running,
            None => {
                self.clients.insert(name.to_string(), McpClient::new(config));
                false
            },
        }
    }

    /// Notes that a server was started.
    pub fn started(&mut self, name: &str)
        requires
            old(self).wf(),
        ensures
            final(self).wf(),
            final(self)@ == if old(self)@.dom().contains(name@) {
                old(self)@.insert(
                    name@,
                    (ClientModel { config: old(self)@[name@].config, running: true }),
                )
            } else {
                old(self)@
            },
    {
        match self.clients.remove(name) {
            Some(c) => {
                self.clients.insert(
                    name.to_string(),
                    McpClient { config: c.config, running: true },
                );
                proof {
                    assert(self@ =~= old(self)@.insert(
                        name@,
                        (ClientModel { config: old(self)@[name@].config, running: true }),
                    ));
                }
            },
            None => {
                proof {
                    assert(self@ =~= old(self)@);
                }
            },
        }
    }
}

// ---------------------------------------------------------------------------
// Answers
// ---------------------------------------------------------------------------

/// A part of a tool's answer: a text, or something else.
#[derive(Debug, Clone, PartialEq, Eq)]
pub enum ContentBlock {
    Text(String),
    Other,
}

/// The texts of an answer, one behind the other; other parts are passed over.
pub open spec fn text_of(content: Seq<ContentBlock>) -> Seq<char>
    decreases content.len(),
{
    if content.len() == 0 {
        Seq::empty()
    } else {
        text_of(content.drop_last()) + match content.last() {
            ContentBlock::Text(s) => s@,
            ContentBlock::Other => Seq::empty(),
        }
    }
}

/// The texts of an answer, one behind the other.
pub fn extract_text(content: &[ContentBlock]) -> (r: String)
    ensures
        r@ == text_of(content@),
{
    let mut out = String::new();
    let mut i: usize = 0;
    proof {
        assert(content@.take(0) =~= Seq::empty());
    }
    while i < content.len()
        invariant
            i <= content.len(),
            out@ == text_of(content@.take(i as int)),
        decreases content.len() - i,
    {
        let ghost before = out@;
        proof {
            assert(content@.take(i + 1).drop_last() =~= content@.take(i as int));
        }
        match &content[i] {
            ContentBlock::Text(s) => {
                out.append(s);
            },
            ContentBlock::Other => {
                assert(before + Seq::<char>::empty() =~= before);
            },
        }
        i = i + 1;
    }
    proof {
        assert(content@.take(content@.len() as int) =~= content@);
    }
    out
}

/// An answer as text: its texts, else its structured value as JSON, else a
/// notice that there is none.
pub open spec fn result_text(content: Seq<ContentBlock>, structured: Option<JsonModel>) -> Seq<char> {
    if text_of(content).len() > 0 {
        text_of(content)
    } else {
        match structured {
            Some(j) => json::json_print_pretty(j),
            None => "(결과 없음)"@,
        }
    }
}

/// An answer as text.
pub fn parse_tool_result(content: &[ContentBlock], structured: Option<&Json>) -> (r: String)
    ensures
        r@ == result_text(content@, json::opt_model(structured)),
{
    let found = extract_text(content);
    if !found.as_str().is_empty() {
        return found;
    }
    match structured {
        Some(j) => j.to_pretty(),
        None => "(결과 없음)".to_string(),
    }
}

/// What a server says went wrong in a tool: its texts, else a plain notice.
pub fn failure_text(tool: &str, content: &[ContentBlock]) -> (r: String)
    ensures
        r@ == if text_of(content@).len() > 0 {
            text_of(content@)
        } else {
            "MCP 툴 '"@ + tool@ + "' 실행 오류"@
        },
{
    let found = extract_text(content);
    if !found.as_str().is_empty() {
        return found;
    }
    let mut out = "MCP 툴 '".to_string();
    out.append(tool);
    out.append("' 실행 오류");
    out
}

// ---------------------------------------------------------------------------
// Tools of a server
// ---------------------------------------------------------------------------

/// A tool of a server.
pub struct ToolSchema {
    pub name: String,
    pub description: Option<String>,
    pub input_schema: Json,
}

/// The names of the members of an object.
pub open spec fn keys_of(members: Seq<(Seq<char>, JsonModel)>) -> Seq<Seq<char>> {
    members.map_values(|e: (Seq<char>, JsonModel)| e.0)
}

/// The names of a schema's parameters, in the order of the schema.
pub open spec fn parameter_names(schema: JsonModel) -> Seq<Seq<char>> {
    match tools::normalized(schema).field("properties"@) {
        Some(JsonModel::Object(m)) => keys_of(m),
        _ => Seq::empty(),
    }
}

/// Whether a text lists names in order, with commas between them.
pub open spec fn lists(s: Seq<char>, names: Seq<Seq<char>>) -> bool {
    exists|sorted: Seq<Seq<char>>|
        text::in_order(sorted) && sorted.to_multiset() == names.to_multiset() && s
            == #[trigger] text::joined(sorted, ", "@)
}

/// The names of a schema's parameters, in order.
pub fn summarize_schema(schema: &Json) -> (r: String)
    ensures
        lists(r@, parameter_names(schema@)),
{
    let normalized = tools::normalize_schema(schema.clone());
    let mut names: Vec<String> = Vec::new();
    if let Some(props) = normalized.get("properties") {
        if let Some(members) = props.as_object() {
            let ghost model = Json::members(members@);
            let mut i: usize = 0;
            while i < members.len()
                invariant
                    i <= members.len(),
                    model == Json::members(members@),
                    names@.len() == i,
                    forall|k: int| 0 <= k < i ==> (#[trigger] names@[k])@ == model[k].0,
                decreases members.len() - i,
            {
                names.push(members[i].0.clone());
                i = i + 1;
            }
            proof {
                assert(text::views(names@) =~= keys_of(model));
            }
        }
    }
    proof {
        assert(names@.len() == 0 ==> text::views(names@) =~= Seq::empty());
        assert(text::views(names@) == parameter_names(schema@));
    }
    let sorted = text::sort(names);
    let r = text::join(&sorted, ", ");
    proof {
        assert(r@ == text::joined(text::views(sorted@), ", "@));
    }
    r
}

/// The beginning of a tool's line: its name and its description.
pub open spec fn tool_head(tool: ToolSchema) -> Seq<char> {
    "- "@ + tool.name@ + " — "@ + match tool.description {
        Some(d) => d@,
        None => "(설명 없음)"@,
    }
}

/// Whether a line describes a tool: its name, its description and its
/// parameters.
pub open spec fn tool_line(line: Seq<char>, tool: ToolSchema) -> bool {
    exists|params: Seq<char>| #[trigger]
        lists(params, parameter_names(tool.input_schema@)) && line == parenthesized(
            tool_head(tool),
            params,
        )
}

/// A tool's line with its parameters. Where their list is empty it is left out.
pub open spec fn parenthesized(start: Seq<char>, params: Seq<char>) -> Seq<char> {
    if params.len() == 0 {
        start + "\n"@
    } else {
        start + " (파라미터: "@ + params + ")"@ + "\n"@
    }
}

/// Whether a text is made of one line for each tool.
pub open spec fn tool_lines(s: Seq<char>, tools: Seq<ToolSchema>) -> bool
    decreases tools.len(),
{
    if tools.len() == 0 {
        s.len() == 0
    } else {
        exists|n: int|
            0 <= n <= s.len() && tool_lines(#[trigger] s.take(n), tools.drop_last()) && tool_line(
                s.skip(n),
                tools.last(),
            )
    }
}

/// The line of a tool.
fn describe(tool: &ToolSchema) -> (r: String)
    ensures
        tool_line(r@, *tool),
{
    let mut out = "- ".to_string();
    out.append(&tool.name);
    out.append(" — ");
    match &tool.description {
        Some(d) => {
            out.append(d);
        },
        None => {
            out.append("(설명 없음)");
        },
    }
    let ghost start = out@;
    let params = summarize_schema(&tool.input_schema);
    if !params.as_str().is_empty() {
        out.append(" (파라미터: ");
        out.append(&params);
        out.append(")");
    }
    out.append("\n");
    proof {
        assert(start == tool_head(*tool));
        assert(out@ =~= parenthesized(start, params@));
        assert(lists(params@, parameter_names(tool.input_schema@)));
    }
    out
}

/// The tools of a server, one line for each: name, description and parameters.
pub fn list_tools(tools: &[ToolSchema]) -> (r: String)
    ensures
        tool_lines(r@, tools@),
{
    let mut out = String::new();
    let mut i: usize = 0;
    proof {
        assert(tools@.take(0) =~= Seq::empty());
    }
    while i < tools.len()
        invariant
            i <= tools.len(),
            tool_lines(out@, tools@.take(i as int)),
        decreases tools.len() - i,
    {
        let ghost before = out@;
        let line = describe(&tools[i]);
        out.append(&line);
        proof {
            assert(tools@.take(i + 1).drop_last() =~= tools@.take(i as int));
            assert(out@.take(before.len() as int) =~= before);
            assert(out@.skip(before.len() as int) =~= line@);
        }
        i = i + 1;
    }
    proof {
        assert(tools@.take(tools@.len() as int) =~= tools@);
    }
    out
}

/// The name under which a tool of a server is offered to the model.
pub fn offered_name(server: &str, tool: &str) -> (r: String)
    ensures
        r@ == server@ + "__"@ + tool@,
{
    let mut out = server.to_string();
    out.append("__");
    out.append(tool);
    out
}

/// The description under which a tool of a server is offered to the model.
pub fn offered_description(server: &str, tool: &str, description: &str) -> (r: String)
    ensures
        r@ == "[MCP:"@ + server@ + "] "@ + tool@ + " — "@ + description@,
{
    let mut out = "[MCP:".to_string();
    out.append(server);
    out.append("] ");
    out.append(tool);
    out.append(" — ");
    out.append(description);
    out
}

// ---------------------------------------------------------------------------
// Laws
// ---------------------------------------------------------------------------

/// Naming a server again changes nothing: neither its settings nor whether it
/// runs.
pub proof fn law_server_is_kept(
    clients: Map<Seq<char>, ClientModel>,
    name: Seq<char>,
    first: McpModel,
    second: McpModel,
)
    ensures
        known_after(known_after(clients, name, first), name, second) == known_after(
            clients,
            name,
            first,
        ),
{
}

/// A text in an answer always comes before a structured value.
pub proof fn law_text_comes_first(content: Seq<ContentBlock>, a: Option<JsonModel>, b: Option<
    JsonModel,
>)
    requires
        text_of(content).len() > 0,
    ensures
        result_text(content, a) == result_text(content, b),
{
}

} // verus!
