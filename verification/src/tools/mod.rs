//! The tools of the agent, and the registry that holds them.
//!
//! A tool's definition, which the model sees, and its handler, which runs it,
//! stand in one entry of the registry: a tool that is offered can be run.
use vstd::prelude::*;

pub mod bash;
pub mod edit_file;
pub mod glob;
pub mod grep;
pub mod history;
pub mod laws;
pub mod mcp_call;
pub mod mcp_tools;
pub mod read_file;
pub mod skill_load;
pub mod util;
pub mod value_laws;
pub mod write_file;

use crate::json::{Json, JsonModel};
use crate::json;
use crate::llm::{ToolDef, ToolDefModel, ToolFunction};
use crate::llm;
use crate::table::Table;
use crate::table;
use crate::text;

verus! {

/// A tool of the registry: the definition that the model sees, and the handler
/// that runs it.
pub struct ToolSpec<H> {
    pub def: ToolDef,
    pub handler: H,
}

/// The model of a registered tool.
pub struct SpecModel<H> {
    pub def: ToolDefModel,
    pub handler: H,
}

impl<H> View for ToolSpec<H> {
    type V = SpecModel<H>;

    open spec fn view(&self) -> SpecModel<H> {
        SpecModel { def: self.def@, handler: self.handler }
    }
}

/// The registry of tools, by name.
pub struct ToolRegistry<H> {
    pub tools: Table<ToolSpec<H>>,
    pub vision: bool,
}

/// The handlers of the tools: what runs when a tool is called.
#[derive(Debug, Clone, PartialEq, Eq)]
pub enum Tool {
    Bash,
    ReadFile,
    WriteFile,
    EditFile,
    Glob,
    Grep,
    HistoryList,
    HistoryRead,
    SkillLoad,
    McpTools,
    McpCall,
    /// A tool of an MCP server, offered under a name of its own.
    Server { server: String, tool: String },
}

/// What a handler is, with its texts as characters.
pub enum ToolModel {
    Bash,
    ReadFile,
    WriteFile,
    EditFile,
    Glob,
    Grep,
    HistoryList,
    HistoryRead,
    SkillLoad,
    McpTools,
    McpCall,
    Server { server: Seq<char>, tool: Seq<char> },
}

impl View for Tool {
    type V = ToolModel;

    open spec fn view(&self) -> ToolModel {
        match self {
            Tool::Bash => ToolModel::Bash,
            Tool::ReadFile => ToolModel::ReadFile,
            Tool::WriteFile => ToolModel::WriteFile,
            Tool::EditFile => ToolModel::EditFile,
            Tool::Glob => ToolModel::Glob,
            Tool::Grep => ToolModel::Grep,
            Tool::HistoryList => ToolModel::HistoryList,
            Tool::HistoryRead => ToolModel::HistoryRead,
            Tool::SkillLoad => ToolModel::SkillLoad,
            Tool::McpTools => ToolModel::McpTools,
            Tool::McpCall => ToolModel::McpCall,
            Tool::Server { server, tool } => ToolModel::Server { server: server@, tool: tool@ },
        }
    }
}

/// The tools of a registry by name, with their handlers as models.
pub open spec fn offers(m: Map<Seq<char>, SpecModel<Tool>>) -> Map<Seq<char>, SpecModel<ToolModel>> {
    m.map_values(|s: SpecModel<Tool>| (SpecModel { def: s.def, handler: s.handler@ }))
}

/// Members with the first one of a name replaced.
pub open spec fn with_member(
    members: Seq<(Seq<char>, JsonModel)>,
    key: Seq<char>,
    value: JsonModel,
) -> Seq<(Seq<char>, JsonModel)>
    decreases members.len(),
{
    if members.len() == 0 {
        members
    } else if members[0].0 == key {
        seq![(members[0].0, value)] + members.skip(1)
    } else {
        seq![members[0]] + with_member(members.skip(1), key, value)
    }
}

/// A parameter schema with `required` a list: where it is `null`, it becomes
/// the empty list.
pub open spec fn normalized(schema: JsonModel) -> JsonModel {
    match schema {
        JsonModel::Object(m) => if json::member(m, "required"@) == Some(JsonModel::Null) {
            JsonModel::Object(with_member(m, "required"@, JsonModel::Array(Seq::empty())))
        } else {
            schema
        },
        _ => schema,
    }
}

/// The replaced member is the one that is found.
proof fn lemma_with_member(
    members: Seq<(Seq<char>, JsonModel)>,
    key: Seq<char>,
    value: JsonModel,
)
    requires
        json::member(members, key) is Some,
    ensures
        json::member(with_member(members, key, value), key) == Some(value),
    decreases members.len(),
{
    let out = with_member(members, key, value);
    if members.len() > 0 && members[0].0 != key {
        lemma_with_member(members.skip(1), key, value);
        assert(out.skip(1) =~= with_member(members.skip(1), key, value));
    }
}

/// Makes a parameter schema one that every server accepts: some refuse a
/// `required` that is `null`, so it becomes the empty list.
pub fn normalize_schema(schema: Json) -> (r: Json)
    ensures
        r@ == normalized(schema@),
{
    let is_null = match schema.get("required") {
        Some(Json::Null) => true,
        _ => false,
    };
    if !is_null {
        return schema;
    }
    match schema.as_object() {
        Some(members) => {
            let ghost all = Json::members(members@);
            let ghost empty = JsonModel::Array(Seq::empty());
            let mut out: Vec<(String, Json)> = Vec::new();
            let mut i: usize = 0;
            let mut found = false;
            proof {
                assert(all.skip(0) =~= all);
                assert(Json::members(out@) + with_member(all, "required"@, empty) =~= with_member(
                    all,
                    "required"@,
                    empty,
                ));
            }
            while i < members.len()
                invariant
                    i <= members.len(),
                    all == Json::members(members@),
                    empty == JsonModel::Array(Seq::empty()),
                    Json::members(out@) + (if found {
                        all.skip(i as int)
                    } else {
                        with_member(all.skip(i as int), "required"@, empty)
                    }) == with_member(all, "required"@, empty),
                decreases members.len() - i,
            {
                let ghost before = Json::members(out@);
                let ghost rest = all.skip(i as int);
                proof {
                    assert(rest[0] == (members@[i as int].0@, members@[i as int].1@));
                    assert(rest.skip(1) =~= all.skip(i + 1));
                    assert(rest =~= seq![rest[0]] + rest.skip(1));
                }
                let name = members[i].0.clone();
                if !found && text::str_eq(name.as_str(), "required") {
                    let list = Json::array(Vec::new());
                    proof {
                        assert(list@->Array_0 =~= Seq::empty());
                    }
                    out.push((name, list));
                    found = true;
                    proof {
                        let first = (rest[0].0, empty);
                        assert(Json::members(out@) =~= before + seq![first]);
                        assert(before + (seq![first] + rest.skip(1)) =~= before + seq![first]
                            + rest.skip(1));
                    }
                } else {
                    out.push((name, members[i].1.clone()));
                    proof {
                        assert(Json::members(out@) =~= before + seq![rest[0]]);
                        if found {
                            assert(before + rest =~= before + seq![rest[0]] + rest.skip(1));
                        } else {
                            let tail = with_member(rest.skip(1), "required"@, empty);
                            assert(before + (seq![rest[0]] + tail) =~= before + seq![rest[0]] + tail);
                        }
                    }
                }
                i = i + 1;
            }
            proof {
                let tail = all.skip(i as int);
                assert(tail =~= Seq::empty());
                assert(with_member(tail, "required"@, empty) =~= Seq::empty());
                assert(Json::members(out@) =~= with_member(all, "required"@, empty));
            }
            Json::object(out)
        },
        None => schema,
    }
}

/// The definition under which a tool is registered.
pub open spec fn definition_of(
    name: Seq<char>,
    description: Seq<char>,
    parameters: JsonModel,
) -> ToolDefModel {
    ToolDefModel { kind: "function"@, name, description, parameters: normalized(parameters) }
}

impl<H> ToolRegistry<H> {
    /// The tools by name.
    pub open spec fn model(self) -> Map<Seq<char>, SpecModel<H>> {
        self.tools@
    }

    /// The names, in order.
    pub open spec fn tool_names(self) -> Seq<Seq<char>> {
        self.tools.names()
    }

    /// Whether every tool stands under the name of its definition, with a
    /// normalized schema, and the names stand in order.
    pub open spec fn wf(self) -> bool {
        &&& self.tools.wf()
        &&& forall|name: Seq<char>| #[trigger]
            self.model().dom().contains(name) ==> self.model()[name].def == definition_of(
                name,
                self.model()[name].def.description,
                self.model()[name].def.parameters,
            )
    }

    /// An empty registry.
    pub fn new(vision: bool) -> (r: Self)
        ensures
            r.wf(),
            r.model() == Map::<Seq<char>, SpecModel<H>>::empty(),
            r.vision == vision,
    {
        ToolRegistry { tools: Table::new(), vision }
    }

    /// Registers a tool; one of the same name is replaced.
    pub fn register(&mut self, name: &str, description: &str, parameters: Json, handler: H)
        requires
            old(self).wf(),
        ensures
            final(self).wf(),
            final(self).model() == old(self).model().insert(
                name@,
                (SpecModel {
                    def: definition_of(name@, description@, parameters@),
                    handler,
                }),
            ),
            final(self).vision == old(self).vision,
    {
        proof {
            law_normalizing_is_idempotent(parameters@);
        }
        let def = ToolDef {
            kind: "function".to_string(),
            function: ToolFunction {
                name: name.to_string(),
                description: description.to_string(),
                parameters: normalize_schema(parameters),
            },
        };
        self.tools.insert(name.to_string(), ToolSpec { def, handler });
    }

    /// The definitions offered to the model, in the order of the names.
    pub fn definitions(&self) -> (r: Vec<ToolDef>)
        requires
            self.wf(),
        ensures
            llm::tool_def_views(r@) == self.tool_names().map_values(
                |name: Seq<char>| self.model()[name].def,
            ),
    {
        let mut out: Vec<ToolDef> = Vec::new();
        let mut i: usize = 0;
        while i < self.tools.entries.len()
            invariant
                i <= self.tools.entries.len(),
                self.wf(),
                out@.len() == i,
                forall|k: int|
                    0 <= k < i ==> (#[trigger] out@[k])@ == self.model()[self.tool_names()[k]].def,
            decreases self.tools.entries.len() - i,
        {
            proof {
                table::lemma_contents_at(self.tools.entries@, i as int);
            }
            out.push(self.tools.entries[i].1.def.clone());
            i = i + 1;
        }
        proof {
            assert(llm::tool_def_views(out@) =~= self.tool_names().map_values(
                |name: Seq<char>| self.model()[name].def,
            ));
        }
        out
    }

    /// The handler of a tool. A name that is not registered is an error, which
    /// is told to the model and does not end the run.
    pub fn dispatch(&self, name: &str) -> (r: Result<&H, String>)
        requires
            self.wf(),
        ensures
            match r {
                Ok(h) => self.model().dom().contains(name@) && self.model()[name@].handler == *h,
                Err(e) => !self.model().dom().contains(name@) && e@ == "unknown tool: "@ + name@,
            },
    {
        match self.tools.get(name) {
            Some(spec) => Ok(&spec.handler),
            None => {
                let mut e = "unknown tool: ".to_string();
                e.append(name);
                Err(e)
            },
        }
    }

    /// The names of the tools, in order.
    pub fn names(&self) -> (r: Vec<String>)
        ensures
            text::views(r@) == self.tool_names(),
    {
        let mut out: Vec<String> = Vec::new();
        let mut i: usize = 0;
        while i < self.tools.entries.len()
            invariant
                i <= self.tools.entries.len(),
                out@.len() == i,
                forall|k: int| 0 <= k < i ==> (#[trigger] out@[k])@ == self.tools.entries@[k].0@,
            decreases self.tools.entries.len() - i,
        {
            out.push(self.tools.entries[i].0.clone());
            i = i + 1;
        }
        proof {
            assert(text::views(out@) =~= self.tool_names());
        }
        out
    }

    /// Whether the endpoint takes images.
    pub fn vision(&self) -> (r: bool)
        ensures
            r == self.vision,
    {
        self.vision
    }
}

/// The registry with the six tools that are always there.
pub fn native_registry(vision: bool) -> (r: ToolRegistry<Tool>)
    ensures
        r.wf(),
        r.vision == vision,
        r.model().dom() == set![
            "bash"@,
            "read_file"@,
            "write_file"@,
            "edit_file"@,
            "glob"@,
            "grep"@,
        ],
        r.model()["bash"@].handler == Tool::Bash,
        r.model()["read_file"@].handler == Tool::ReadFile,
        r.model()["write_file"@].handler == Tool::WriteFile,
        r.model()["edit_file"@].handler == Tool::EditFile,
        r.model()["glob"@].handler == Tool::Glob,
        r.model()["grep"@].handler == Tool::Grep,
        r.model()["bash"@].def == definition_of(
            "bash"@,
            bash::DESCRIPTION@,
            util::schema_of(bash::PARAMETERS@, bash::REQUIRED@),
        ),
        r.model()["read_file"@].def == definition_of(
            "read_file"@,
            read_file::DESCRIPTION@,
            util::schema_of(read_file::PARAMETERS@, read_file::REQUIRED@),
        ),
        r.model()["write_file"@].def == definition_of(
            "write_file"@,
            write_file::DESCRIPTION@,
            util::schema_of(write_file::PARAMETERS@, write_file::REQUIRED@),
        ),
        r.model()["edit_file"@].def == definition_of(
            "edit_file"@,
            edit_file::DESCRIPTION@,
            util::schema_of(edit_file::PARAMETERS@, edit_file::REQUIRED@),
        ),
        r.model()["glob"@].def == definition_of(
            "glob"@,
            glob::DESCRIPTION@,
            util::schema_of(glob::PARAMETERS@, glob::REQUIRED@),
        ),
        r.model()["grep"@].def == definition_of(
            "grep"@,
            grep::DESCRIPTION@,
            util::schema_of(grep::PARAMETERS@, grep::REQUIRED@),
        ),
{
    let mut reg: ToolRegistry<Tool> = ToolRegistry::new(vision);
    bash::register(&mut reg);
    read_file::register(&mut reg);
    write_file::register(&mut reg);
    edit_file::register(&mut reg);
    glob::register(&mut reg);
    grep::register(&mut reg);
    proof {
        reveal_strlit("bash");
        reveal_strlit("read_file");
        reveal_strlit("write_file");
        reveal_strlit("edit_file");
        reveal_strlit("glob");
        reveal_strlit("grep");
        assert("bash"@.len() == 4);
        assert("glob"@.len() == 4);
        assert("grep"@.len() == 4);
        assert("bash"@[0] == 'b');
        assert("glob"@[1] == 'l');
        assert("grep"@[1] == 'r');
        assert("read_file"@[0] == 'r');
        assert("edit_file"@[0] == 'e');
        assert("write_file"@.len() == 10);
        assert("read_file"@.len() == 9);
        assert("edit_file"@.len() == 9);
        assert(reg.model().dom() =~= set![
            "bash"@,
            "read_file"@,
            "write_file"@,
            "edit_file"@,
            "glob"@,
            "grep"@,
        ]);
    }
    reg
}

// ---------------------------------------------------------------------------
// Laws
// ---------------------------------------------------------------------------

/// Normalizing a schema twice is normalizing it once.
pub proof fn law_normalizing_is_idempotent(schema: JsonModel)
    ensures
        normalized(normalized(schema)) == normalized(schema),
{
    if let JsonModel::Object(m) = schema {
        if json::member(m, "required"@) == Some(JsonModel::Null) {
            lemma_with_member(m, "required"@, JsonModel::Array(Seq::empty()));
        }
    }
}

/// The `required` of a normalized schema is never `null`.
pub proof fn law_required_is_never_null(schema: JsonModel)
    ensures
        normalized(schema).field("required"@) != Some(JsonModel::Null),
{
    if let JsonModel::Object(m) = schema {
        if json::member(m, "required"@) == Some(JsonModel::Null) {
            lemma_with_member(m, "required"@, JsonModel::Array(Seq::empty()));
        }
    }
}

/// The tools that are offered are the tools that can be run: a name stands
/// among the definitions exactly where it has a handler.
pub proof fn law_offered_tools_can_run<H>(reg: ToolRegistry<H>, name: Seq<char>)
    requires
        reg.wf(),
    ensures
        reg.model().dom().contains(name) <==> exists|i: int|
            0 <= i < reg.tool_names().len() && reg.model()[#[trigger] reg.tool_names()[i]].def.name
                == name,
{
    let names = reg.tool_names();
    table::lemma_contents_dom(reg.tools.entries@, name);
    if reg.model().dom().contains(name) {
        let i = choose|i: int|
            0 <= i < reg.tools.entries@.len() && (#[trigger] reg.tools.entries@[i]).0@ == name;
        assert(names[i] == name);
    }
    if exists|i: int|
        0 <= i < names.len() && reg.model()[#[trigger] names[i]].def.name == name {
        let i = choose|i: int|
            0 <= i < names.len() && reg.model()[#[trigger] names[i]].def.name == name;
        table::lemma_contents_at(reg.tools.entries@, i);
        assert(names[i] == reg.tools.entries@[i].0@);
        assert(reg.model().dom().contains(names[i]));
    }
}

} // verus!
