//! The `mcp_tools` tool: lists the tools of a server and offers them to the
//! model from then on.
use vstd::prelude::*;

use crate::json::Json;
use crate::mcp::{offered_description, offered_name, ToolSchema};
use crate::text;
use crate::tools::{SpecModel, Tool, ToolModel, ToolRegistry};
use crate::tools;
use crate::tools::util;

verus! {

/// The parameters: name, kind and description.
pub const PARAMETERS: [(&'static str, &'static str, &'static str); 1] = [
    ("server", "string", "MCP 서버 이름 (시스템 프롬프트의 서버 인덱스에서 확인)"),
];

/// The parameters that must be given.
pub const REQUIRED: [&'static str; 1] = ["server"];

/// What the model reads about the tool.
pub const DESCRIPTION: &'static str =
    "MCP 서버의 툴 목록을 조회합니다. 시스템 프롬프트의 MCP 서버 인덱스에서 해당 서버의 툴이 필요하다고 판단될 때 호출하세요.";

/// The schema of the tool's parameters.
pub fn schema() -> (r: Json)
    ensures
        r@ == util::schema_of(PARAMETERS@, REQUIRED@),
{
    util::object_schema(&PARAMETERS, &REQUIRED)
}

/// Registers the tool.
pub fn register(reg: &mut ToolRegistry<Tool>)
    requires
        old(reg).wf(),
    ensures
        final(reg).wf(),
        final(reg).vision == old(reg).vision,
        final(reg).model() == old(reg).model().insert(
            "mcp_tools"@,
            (SpecModel {
                def: tools::definition_of(
                    "mcp_tools"@,
                    DESCRIPTION@,
                    util::schema_of(PARAMETERS@, REQUIRED@),
                ),
                handler: Tool::McpTools,
            }),
        ),
{
    reg.register("mcp_tools", DESCRIPTION, schema(), Tool::McpTools);
}

/// Reads a call's arguments: the name of a server, which must not be blank.
pub fn request(args: &Json) -> (r: Result<String, String>)
    ensures
        match r {
            Ok(server) => util::filled_text(args@, "server"@) == Some(server@),
            Err(e) => {
                &&& util::filled_text(args@, "server"@) is None
                &&& e@ == "server 은 MCP 서버 이름 문자열이어야 합니다"@
            },
        },
{
    match util::filled_arg(args, "server") {
        Some(server) => Ok(server),
        None => Err("server 은 MCP 서버 이름 문자열이어야 합니다".to_string()),
    }
}

/// The error of a server that the settings do not name.
pub fn unknown_server(server: &str) -> (r: String)
    ensures
        r@ == "MCP 서버 '"@ + server@ + "'이 설정에 없습니다"@,
{
    let mut out = "MCP 서버 '".to_string();
    out.append(server);
    out.append("'이 설정에 없습니다");
    out
}

/// The list of a server's tools with a note that they could not be offered.
pub fn not_offered(list: &str, cause: &str) -> (r: String)
    ensures
        r@ == list@ + "\n(주의: 툴 스키마 옵트인 주입 실패: "@ + cause@ + ")"@,
{
    let mut out = list.to_string();
    out.append("\n(주의: 툴 스키마 옵트인 주입 실패: ");
    out.append(cause);
    out.append(")");
    out
}

/// The entry under which a tool of a server is offered.
pub open spec fn offered(server: Seq<char>, tool: ToolSchema) -> SpecModel<ToolModel> {
    SpecModel {
        def: tools::definition_of(
            server + "__"@ + tool.name@,
            "[MCP:"@ + server + "] "@ + tool.name@ + " — "@ + text::or_empty(
                text::opt_view(tool.description),
            ),
            tool.input_schema@,
        ),
        handler: ToolModel::Server { server, tool: tool.name@ },
    }
}

/// The tools of a registry after those of a server were added.
pub open spec fn offers_after(
    before: Map<Seq<char>, SpecModel<ToolModel>>,
    server: Seq<char>,
    tools: Seq<ToolSchema>,
) -> Map<Seq<char>, SpecModel<ToolModel>>
    decreases tools.len(),
{
    if tools.len() == 0 {
        before
    } else {
        offers_after(before, server, tools.drop_last()).insert(
            server + "__"@ + tools.last().name@,
            offered(server, tools.last()),
        )
    }
}

/// Offers the tools of a server to the model: definition and handler together.
pub fn offer(reg: &mut ToolRegistry<Tool>, server: &str, tools: &[ToolSchema])
    requires
        old(reg).wf(),
    ensures
        final(reg).wf(),
        final(reg).vision == old(reg).vision,
        tools::offers(final(reg).model()) == offers_after(
            tools::offers(old(reg).model()),
            server@,
            tools@,
        ),
{
    let ghost before = tools::offers(reg.model());
    let mut i: usize = 0;
    proof {
        assert(tools@.take(0) =~= Seq::empty());
    }
    while i < tools.len()
        invariant
            i <= tools.len(),
            reg.wf(),
            reg.vision == old(reg).vision,
            tools::offers(reg.model()) == offers_after(before, server@, tools@.take(i as int)),
        decreases tools.len() - i,
    {
        let ghost middle = reg.model();
        let tool = &tools[i];
        let name = offered_name(server, &tool.name);
        let about = text::unwrap_or_empty(&tool.description);
        let description = offered_description(server, &tool.name, &about);
        reg.register(
            &name,
            &description,
            tool.input_schema.clone(),
            Tool::Server { server: server.to_string(), tool: tool.name.clone() },
        );
        proof {
            let list = tools@.take(i + 1);
            assert(list.drop_last() =~= tools@.take(i as int));
            assert(list.last() == *tool);
            assert(tools::offers(reg.model()) =~= tools::offers(middle).insert(
                name@,
                offered(server@, *tool),
            ));
        }
        i = i + 1;
    }
    proof {
        assert(tools@.take(tools@.len() as int) =~= tools@);
    }
}

} // verus!
