//! The `mcp_call` tool: calls a tool of a server.
//!
//! Where the server refuses the arguments, the answer shows the schema of the
//! tool's parameters, so that the model can try again.
use vstd::prelude::*;

use crate::json::{Json, JsonModel};
use crate::json;
use crate::mcp::ToolSchema;
use crate::text;
use crate::tools::{SpecModel, Tool, ToolRegistry};
use crate::tools;
use crate::tools::util;

verus! {

/// The parameters: name, kind and description.
pub const PARAMETERS: [(&'static str, &'static str, &'static str); 3] = [
    ("server", "string", "MCP 서버 이름 (시스템 프롬프트의 서버 인덱스에서 확인)"),
    ("tool", "string", "호출할 서버 툴 이름"),
    ("args", "object", "툴에 전달할 인자 JSON 객체"),
];

/// The parameters that must be given.
pub const REQUIRED: [&'static str; 3] = ["server", "tool", "args"];

/// What the model reads about the tool.
pub const DESCRIPTION: &'static str =
    "MCP 서버의 툴을 직접 호출합니다. server, tool, args(JSON 객체)를 지정하세요. 옵트인 주입된 {server}__{tool} 툴이 없거나, 범용 호출이 필요할 때 사용합니다.";

/// The schema of the tool's parameters.
pub fn schema() -> (r: Json)
    ensures
        r@ == util::schema_of(PARAMETERS@, REQUIRED@),
{
    util::object_schema(&PARAMETERS, &REQUIRED)
}

/// Registers the tool.
pub fn register(reg: &mut ToolRegistry<Tool>)
    requires
        old(reg).wf(),
    ensures
        final(reg).wf(),
        final(reg).vision == old(reg).vision,
        final(reg).model() == old(reg).model().insert(
            "mcp_call"@,
            (SpecModel {
                def: tools::definition_of(
                    "mcp_call"@,
                    DESCRIPTION@,
                    util::schema_of(PARAMETERS@, REQUIRED@),
                ),
                handler: Tool::McpCall,
            }),
        ),
{
    reg.register("mcp_call", DESCRIPTION, schema(), Tool::McpCall);
}

/// A call of a server's tool.
pub struct McpRequest {
    pub server: String,
    pub tool: String,
    pub args: Json,
}

/// The arguments handed to the tool: an empty object where none are given.
pub open spec fn tool_arguments(args: JsonModel) -> JsonModel {
    match args.field("args"@) {
        Some(v) => v,
        None => JsonModel::Object(Seq::empty()),
    }
}

/// Reads a call's arguments. The server and the tool must not be blank, and
/// what is handed to the tool must be an object.
pub fn request(args: &Json) -> (r: Result<McpRequest, String>)
    ensures
        match r {
            Ok(call) => {
                &&& util::filled_text(args@, "server"@) == Some(call.server@)
                &&& util::filled_text(args@, "tool"@) == Some(call.tool@)
                &&& call.args@ == tool_arguments(args@)
                &&& tool_arguments(args@) is Object
            },
            Err(e) => if util::filled_text(args@, "server"@) is None {
                e@ == "server 은 MCP 서버 이름 문자열이어야 합니다"@
            } else if util::filled_text(args@, "tool"@) is None {
                e@ == "tool 은 호출할 서버 툴 이름 문자열이어야 합니다"@
            } else {
                !(tool_arguments(args@) is Object) && e@ == "args 는 JSON 객체여야 합니다"@
            },
        },
{
    let server = match util::filled_arg(args, "server") {
        Some(s) => s,
        None => {
            return Err("server 은 MCP 서버 이름 문자열이어야 합니다".to_string());
        },
    };
    let tool = match util::filled_arg(args, "tool") {
        Some(t) => t,
        None => {
            return Err("tool 은 호출할 서버 툴 이름 문자열이어야 합니다".to_string());
        },
    };
    let given = match args.get("args") {
        Some(v) => v.clone(),
        None => {
            let empty = Json::object(Vec::new());
            proof {
                assert(empty@->Object_0 =~= Seq::empty());
            }
            empty
        },
    };
    if given.as_object().is_none() {
        return Err("args 는 JSON 객체여야 합니다".to_string());
    }
    Ok(McpRequest { server, tool, args: given })
}

/// Words by which an error says that the arguments do not fit.
pub const HINTS: [&'static str; 10] = [
    "invalid",
    "invalid params",
    "invalid argument",
    "validation failed",
    "missing required",
    "unexpected",
    "type mismatch",
    "인자",
    "파라미터",
    "스키마",
];

/// Whether an error in lower case says that the arguments do not fit.
pub open spec fn mismatch(lower: Seq<char>) -> bool {
    exists|i: int| 0 <= i < 10 && text::contains(lower, #[trigger] HINTS@[i]@)
}

/// Whether an error in lower case says that the arguments do not fit.
pub fn lower_is_mismatch(lower: &str) -> (r: bool)
    ensures
        r == mismatch(lower@),
{
    let mut i: usize = 0;
    while i < 10
        invariant
            i <= 10,
            forall|k: int| 0 <= k < i ==> !text::contains(lower@, #[trigger] HINTS@[k]@),
        decreases 10 - i,
    {
        if text::has(lower, HINTS[i]) {
            return true;
        }
        i = i + 1;
    }
    false
}

/// Whether an error says that the arguments do not fit.
pub fn looks_like_schema_mismatch(err: &str) -> (r: bool)
    ensures
        r == mismatch(text::lowercase(err@)),
{
    lower_is_mismatch(&text::to_lowercase(err))
}

/// The position of the first tool with a name.
pub open spec fn tool_at(tools: Seq<ToolSchema>, name: Seq<char>, i: int) -> Option<int>
    decreases tools.len() - i,
{
    if i < 0 || i >= tools.len() {
        None
    } else if tools[i].name@ == name {
        Some(i)
    } else {
        tool_at(tools, name, i + 1)
    }
}

/// The schemas of a tool's parameters.
pub open spec fn parameters_of(schema: JsonModel) -> JsonModel {
    match schema.field("properties"@) {
        Some(p) => p,
        None => JsonModel::Object(Seq::empty()),
    }
}

/// An error with the schema of the tool's parameters, where the server has the
/// tool; else the error as it is.
pub open spec fn explained(err: Seq<char>, tool: Seq<char>, tools: Seq<ToolSchema>) -> Seq<char> {
    match tool_at(tools, tool, 0) {
        Some(i) => err + "\n"@ + tool + " 파라미터 스키마: "@ + json::json_print_pretty(
            parameters_of(tools[i].input_schema@),
        ),
        None => err,
    }
}

/// An error about arguments that do not fit, with the schema of the tool's
/// parameters where the server has the tool.
pub fn explain(err: &str, tool: &str, tools: &[ToolSchema]) -> (r: String)
    ensures
        r@ == explained(err@, tool@, tools@),
{
    let mut i: usize = 0;
    while i < tools.len()
        invariant
            i <= tools.len(),
            tool_at(tools@, tool@, i as int) == tool_at(tools@, tool@, 0),
        decreases tools.len() - i,
    {
        if text::str_eq(&tools[i].name, tool) {
            let mut out = err.to_string();
            out.append("\n");
            out.append(tool);
            out.append(" 파라미터 스키마: ");
            match tools[i].input_schema.get("properties") {
                Some(p) => {
                    out.append(&p.to_pretty());
                },
                None => {
                    let empty = Json::object(Vec::new());
                    proof {
                        assert(empty@->Object_0 =~= Seq::empty());
                    }
                    out.append(&empty.to_pretty());
                },
            }
            return out;
        }
        i = i + 1;
    }
    err.to_string()
}

} // verus!
