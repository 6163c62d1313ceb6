//! The system prompt.
//!
//! It is made of layers: the built-in base, the user's prompt, the project's
//! prompt, and an index of skills, servers and history tools. A prompt given
//! for a run replaces all layers but the index. Variables are filled in
//! everywhere but in the index.
use vstd::prelude::*;

use crate::config::{Config, EndpointConfig};
use crate::paths;
use crate::skills::SkillIndex;
use crate::skills;
use crate::text;

verus! {

/// The built-in base of the prompt.
pub const BASE_MD: &'static str =
    "# 불티(Bulti) — 로컬 LLM 코딩 에이전트\n\n당신은 사용자의 작업 디렉터리에서 일하는 코딩 에이전트입니다.\n\n- 작업 디렉터리: {{cwd}}\n- 운영체제: {{os}}\n- 엔드포인트: {{endpoint}} (모델: {{model}}, 컨텍스트: {{context_tokens}} 토큰)\n\n도구를 써서 직접 확인하고 고친 뒤, 결과를 간결하게 보고하세요.\n";

/// The title of the index.
pub const INDEX_HEADER: &'static str = "## 레이지 로딩 인덱스 (스킬·MCP·history)";

/// The file of the project's prompt.
pub const PROJECT_PROMPT_FILENAME: &'static str = ".bulti/system.md";

/// The file of the user's prompt.
pub const GLOBAL_PROMPT_FILENAME: &'static str = "prompts/default.md";

/// What can go wrong with a prompt, with the cause in words.
#[derive(Debug, Clone, PartialEq, Eq)]
pub enum PromptError {
    Io(String),
    HomeDirNotFound(String),
    Template(String),
}

impl PromptError {
    /// The message of an error.
    pub open spec fn text(self) -> Seq<char> {
        match self {
            PromptError::Io(e) => "시스템 프롬프트 파일을 읽는 데 실패했습니다: "@ + e@,
            PromptError::HomeDirNotFound(e) => "홈 디렉터리를 찾을 수 없습니다: "@ + e@,
            PromptError::Template(e) => "템플릿 변수 치환에 실패했습니다: "@ + e@,
        }
    }

    /// The message of the error.
    pub fn message(&self) -> (r: String)
        ensures
            r@ == self.text(),
    {
        match self {
            PromptError::Io(e) => "시스템 프롬프트 파일을 읽는 데 실패했습니다: ".to_string().concat(e),
            PromptError::HomeDirNotFound(e) => "홈 디렉터리를 찾을 수 없습니다: ".to_string().concat(e),
            PromptError::Template(e) => "템플릿 변수 치환에 실패했습니다: ".to_string().concat(e),
        }
    }
}

/// A server as the prompt lists it.
#[derive(Debug, Clone, PartialEq, Eq)]
pub struct McpIndex {
    pub name: String,
    pub description: String,
}

impl View for McpIndex {
    type V = (Seq<char>, Seq<char>);

    open spec fn view(&self) -> (Seq<char>, Seq<char>) {
        (self.name@, self.description@)
    }
}

/// The views of a list of servers.
pub open spec fn server_views(v: Seq<McpIndex>) -> Seq<(Seq<char>, Seq<char>)> {
    v.map_values(|s: McpIndex| s@)
}

/// What a prompt is made for.
pub struct PromptContext {
    pub cwd: String,
    pub endpoint: String,
    pub endpoint_config: Option<EndpointConfig>,
    pub global_dir: String,
    pub project_root: String,
    pub skills: Vec<SkillIndex>,
    pub mcp_servers: Vec<McpIndex>,
}

/// The values of the variables.
#[derive(Debug, Clone, PartialEq, Eq)]
pub struct TemplateValues {
    pub cwd: String,
    pub os: String,
    pub endpoint: String,
    pub model: String,
    pub context_tokens: String,
}

/// The values of the variables, as characters.
pub struct ValuesModel {
    pub cwd: Seq<char>,
    pub os: Seq<char>,
    pub endpoint: Seq<char>,
    pub model: Seq<char>,
    pub context_tokens: Seq<char>,
}

impl View for TemplateValues {
    type V = ValuesModel;

    open spec fn view(&self) -> ValuesModel {
        ValuesModel {
            cwd: self.cwd@,
            os: self.os@,
            endpoint: self.endpoint@,
            model: self.model@,
            context_tokens: self.context_tokens@,
        }
    }
}

/// A text with its variables filled in, one after the other.
pub open spec fn rendered(s: Seq<char>, values: ValuesModel) -> Seq<char> {
    text::replaced(
        text::replaced(
            text::replaced(
                text::replaced(
                    text::replaced(s, "{{cwd}}"@, values.cwd),
                    "{{os}}"@,
                    values.os,
                ),
                "{{endpoint}}"@,
                values.endpoint,
            ),
            "{{model}}"@,
            values.model,
        ),
        "{{context_tokens}}"@,
        values.context_tokens,
    )
}

/// Fills in the variables of a text. Other names in double braces stay as they
/// are.
pub fn render_template(text: &str, values: &TemplateValues) -> (r: String)
    ensures
        r@ == rendered(text@, values@),
{
    proof {
        reveal_strlit("{{cwd}}");
        reveal_strlit("{{os}}");
        reveal_strlit("{{endpoint}}");
        reveal_strlit("{{model}}");
        reveal_strlit("{{context_tokens}}");
    }
    let a = text::replace(text, "{{cwd}}", &values.cwd);
    let b = text::replace(&a, "{{os}}", &values.os);
    let c = text::replace(&b, "{{endpoint}}", &values.endpoint);
    let d = text::replace(&c, "{{model}}", &values.model);
    text::replace(&d, "{{context_tokens}}", &values.context_tokens)
}

/// An entry of the index.
pub open spec fn entry(e: (Seq<char>, Seq<char>)) -> Seq<char> {
    "  - "@ + e.0 + " — "@ + e.1 + "\n"@
}

/// Entries of the index, one behind the other.
pub open spec fn entries(v: Seq<(Seq<char>, Seq<char>)>) -> Seq<char>
    decreases v.len(),
{
    if v.len() == 0 {
        Seq::empty()
    } else {
        entries(v.drop_last()) + entry(v.last())
    }
}

/// The index of skills, servers and history tools.
pub open spec fn index_of(
    skills: Seq<(Seq<char>, Seq<char>)>,
    servers: Seq<(Seq<char>, Seq<char>)>,
) -> Seq<char> {
    INDEX_HEADER@ + "\n"@ + (if skills.len() == 0 {
        "- 스킬: 없음\n"@
    } else {
        "- 스킬 (필요할 때 `skill_load(name)` 로 로드):\n"@ + entries(skills)
    }) + (if servers.len() == 0 {
        "- MCP 서버: 없음\n"@
    } else {
        "- MCP 서버 (필요할 때 `mcp_tools(server)` 로 로드):\n"@ + entries(servers)
    }) + "- history (이전 작업 맥락 회수): `history_list(query?, limit?)`, `history_read(run_id)`\n"@
}

/// An entry of the index.
fn push_entry(out: &mut String, name: &str, description: &str)
    ensures
        final(out)@ == old(out)@ + entry((name@, description@)),
{
    let ghost start = out@;
    out.append("  - ");
    out.append(name);
    out.append(" — ");
    out.append(description);
    out.append("\n");
    proof {
        assert(out@ =~= start + entry((name@, description@)));
    }
}

/// The index: the names and descriptions of skills and servers, and how to
/// load them.
pub fn build_index(ctx: &PromptContext) -> (r: String)
    ensures
        r@ == index_of(skills::skill_views(ctx.skills@), server_views(ctx.mcp_servers@)),
{
    let ghost list = skills::skill_views(ctx.skills@);
    let ghost servers = server_views(ctx.mcp_servers@);
    let mut out = INDEX_HEADER.to_string();
    out.append("\n");
    let mut part = String::new();
    if ctx.skills.len() == 0 {
        part.append("- 스킬: 없음\n");
        assert(part@ =~= "- 스킬: 없음\n"@);
    } else {
        part.append("- 스킬 (필요할 때 `skill_load(name)` 로 로드):\n");
        let ghost title = part@;
        let mut i: usize = 0;
        proof {
            assert(title =~= "- 스킬 (필요할 때 `skill_load(name)` 로 로드):\n"@);
            assert(list.take(0) =~= Seq::empty());
            assert(title + entries(list.take(0)) =~= title);
        }
        while i < ctx.skills.len()
            invariant
                i <= ctx.skills.len(),
                list == skills::skill_views(ctx.skills@),
                part@ == title + entries(list.take(i as int)),
            decreases ctx.skills.len() - i,
        {
            proof {
                assert(list.take(i + 1).drop_last() =~= list.take(i as int));
                assert(list.take(i + 1).last() == ctx.skills@[i as int]@);
            }
            push_entry(&mut part, &ctx.skills[i].name, &ctx.skills[i].description);
            i = i + 1;
            proof {
                assert(part@ =~= title + entries(list.take(i as int)));
            }
        }
        proof {
            assert(list.take(list.len() as int) =~= list);
        }
    }
    out.append(&part);
    let mut other = String::new();
    if ctx.mcp_servers.len() == 0 {
        other.append("- MCP 서버: 없음\n");
        assert(other@ =~= "- MCP 서버: 없음\n"@);
    } else {
        other.append("- MCP 서버 (필요할 때 `mcp_tools(server)` 로 로드):\n");
        let ghost title = other@;
        let mut i: usize = 0;
        proof {
            assert(title =~= "- MCP 서버 (필요할 때 `mcp_tools(server)` 로 로드):\n"@);
            assert(servers.take(0) =~= Seq::empty());
            assert(title + entries(servers.take(0)) =~= title);
        }
        while i < ctx.mcp_servers.len()
            invariant
                i <= ctx.mcp_servers.len(),
                servers == server_views(ctx.mcp_servers@),
                other@ == title + entries(servers.take(i as int)),
            decreases ctx.mcp_servers.len() - i,
        {
            proof {
                assert(servers.take(i + 1).drop_last() =~= servers.take(i as int));
                assert(servers.take(i + 1).last() == ctx.mcp_servers@[i as int]@);
            }
            push_entry(&mut other, &ctx.mcp_servers[i].name, &ctx.mcp_servers[i].description);
            i = i + 1;
            proof {
                assert(other@ =~= title + entries(servers.take(i as int)));
            }
        }
        proof {
            assert(servers.take(servers.len() as int) =~= servers);
        }
    }
    out.append(&other);
    out.append(
        "- history (이전 작업 맥락 회수): `history_list(query?, limit?)`, `history_read(run_id)`\n",
    );
    out
}

/// The path of the user's prompt.
pub fn global_prompt_path(global_dir: &str) -> (r: String)
    ensures
        r@ == paths::below(global_dir@, GLOBAL_PROMPT_FILENAME@),
{
    paths::join(global_dir, GLOBAL_PROMPT_FILENAME)
}

/// The path of the project's prompt.
pub fn project_prompt_path(project_root: &str) -> (r: String)
    ensures
        r@ == paths::below(project_root@, PROJECT_PROMPT_FILENAME@),
{
    paths::join(project_root, PROJECT_PROMPT_FILENAME)
}

/// A prompt given for a run, in place of the layers.
#[derive(Debug, Clone, PartialEq, Eq)]
pub enum Override {
    /// The text itself.
    Inline(String),
    /// The file that holds the text.
    File(String),
}

/// What the body of a prompt is made of.
pub enum Body {
    /// The text given for the run.
    Replaced(String),
    /// The user's prompt and the project's; empty where there is none.
    Layers { global: String, project: String },
}

/// The body of a prompt before its variables are filled in. Blank layers are
/// left out.
pub open spec fn body_text(body: Body) -> Seq<char> {
    match body {
        Body::Replaced(s) => s@,
        Body::Layers { global, project } => text::joined(
            seq![BASE_MD@] + (if text::blank(global@) {
                Seq::empty()
            } else {
                seq![global@]
            }) + (if text::blank(project@) {
                Seq::empty()
            } else {
                seq![project@]
            }),
            "\n\n"@,
        ),
    }
}

/// The values of the variables.
pub open spec fn values_of(ctx: PromptContext, os: Seq<char>) -> ValuesModel {
    ValuesModel {
        cwd: ctx.cwd@,
        os,
        endpoint: ctx.endpoint@,
        model: match ctx.endpoint_config {
            Some(e) => e.model@,
            None => Seq::empty(),
        },
        context_tokens: match ctx.endpoint_config {
            Some(e) => text::decimal(e.context_tokens as nat),
            None => Seq::empty(),
        },
    }
}

/// The values of the variables, for the given operating system.
pub fn template_values(ctx: &PromptContext, os: &str) -> (r: TemplateValues)
    ensures
        r@ == values_of(*ctx, os@),
{
    let model = match &ctx.endpoint_config {
        Some(e) => e.model.clone(),
        None => String::new(),
    };
    let context_tokens = match &ctx.endpoint_config {
        Some(e) => text::show(e.context_tokens as u64),
        None => String::new(),
    };
    TemplateValues {
        cwd: ctx.cwd.clone(),
        os: os.to_string(),
        endpoint: ctx.endpoint.clone(),
        model,
        context_tokens,
    }
}

/// The system prompt: the body with its variables filled in, and the index.
pub fn assemble(ctx: &PromptContext, os: &str, body: &Body) -> (r: String)
    ensures
        r@ == rendered(body_text(*body), values_of(*ctx, os@)) + "\n\n"@ + index_of(
            skills::skill_views(ctx.skills@),
            server_views(ctx.mcp_servers@),
        ),
{
    let values = template_values(ctx, os);
    let whole = match body {
        Body::Replaced(s) => s.clone(),
        Body::Layers { global, project } => {
            let mut parts: Vec<String> = Vec::new();
            parts.push(BASE_MD.to_string());
            if !text::is_blank(global) {
                parts.push(global.clone());
            }
            if !text::is_blank(project) {
                parts.push(project.clone());
            }
            proof {
                assert(text::views(parts@) =~= seq![BASE_MD@] + (if text::blank(global@) {
                    Seq::empty()
                } else {
                    seq![global@]
                }) + (if text::blank(project@) {
                    Seq::empty()
                } else {
                    seq![project@]
                }));
            }
            text::join(&parts, "\n\n")
        },
    };
    let mut out = render_template(&whole, &values);
    out.append("\n\n");
    out.append(&build_index(ctx));
    out
}

/// The error of an editor that ended with a failure.
pub fn editor_failed(editor: &str, code: Option<i32>) -> (r: PromptError)
    ensures
        r matches PromptError::Template(e) && e@ == "편집기가 오류 상태로 종료되었습니다 (exit "@
            + text::signed_decimal(
            match code {
                Some(c) => c as int,
                None => -1,
            },
        ) + "): "@ + editor@,
{
    let mut out = "편집기가 오류 상태로 종료되었습니다 (exit ".to_string();
    let n: i64 = match code {
        Some(c) => c as i64,
        None => -1,
    };
    out.append(&text::show_signed(n));
    out.append("): ");
    out.append(editor);
    PromptError::Template(out)
}

/// The error of an editor that could not be started, by its cause.
pub fn editor_missing(editor: &str, cause: &str) -> (r: PromptError)
    ensures
        r matches PromptError::Template(e) && e@ == "편집기 실행 실패 ("@ + editor@ + "): "@ + cause@,
{
    let mut out = "편집기 실행 실패 (".to_string();
    out.append(editor);
    out.append("): ");
    out.append(cause);
    PromptError::Template(out)
}

/// What a prompt is made for, by the settings: the active endpoint, where one
/// is active and known.
pub fn context_from_config(
    cfg: &Config,
    global_dir: &str,
    cwd: &str,
    project_root: &str,
    skills: Vec<SkillIndex>,
    mcp_servers: Vec<McpIndex>,
) -> (r: PromptContext)
    requires
        cfg.wf(),
    ensures
        r.global_dir@ == global_dir@,
        r.cwd@ == cwd@,
        r.project_root@ == project_root@,
        r.skills == skills,
        r.mcp_servers == mcp_servers,
        match r.endpoint_config {
            Some(ep) => {
                &&& cfg@.active_endpoint == Some(r.endpoint@)
                &&& cfg@.endpoints.dom().contains(r.endpoint@)
                &&& cfg@.endpoints[r.endpoint@] == ep@
            },
            None => {
                &&& r.endpoint@ == "(없음)"@
                &&& match cfg@.active_endpoint {
                    Some(name) => !cfg@.endpoints.dom().contains(name),
                    None => true,
                }
            },
        },
{
    let (endpoint, endpoint_config) = match cfg.active_endpoint_config() {
        Some((name, ep)) => (name.to_string(), Some(ep.clone())),
        None => ("(없음)".to_string(), None),
    };
    PromptContext {
        cwd: cwd.to_string(),
        endpoint,
        endpoint_config,
        global_dir: global_dir.to_string(),
        project_root: project_root.to_string(),
        skills,
        mcp_servers,
    }
}

// ---------------------------------------------------------------------------
// Laws
// ---------------------------------------------------------------------------

/// A text without double braces has no variables: it stays as it is.
pub proof fn law_plain_text_is_kept(s: Seq<char>, values: ValuesModel)
    requires
        !text::contains(s, "{{"@),
    ensures
        rendered(s, values) == s,
{
    reveal_strlit("{{");
    reveal_strlit("{{cwd}}");
    reveal_strlit("{{os}}");
    reveal_strlit("{{endpoint}}");
    reveal_strlit("{{model}}");
    reveal_strlit("{{context_tokens}}");
    lemma_absent_variable(s, "{{cwd}}"@, values.cwd);
    lemma_absent_variable(s, "{{os}}"@, values.os);
    lemma_absent_variable(s, "{{endpoint}}"@, values.endpoint);
    lemma_absent_variable(s, "{{model}}"@, values.model);
    lemma_absent_variable(s, "{{context_tokens}}"@, values.context_tokens);
}

/// A variable that does not occur is not filled in.
proof fn lemma_absent_variable(s: Seq<char>, name: Seq<char>, value: Seq<char>)
    requires
        name.len() >= 2,
        name[0] == '{',
        name[1] == '{',
        !text::contains(s, "{{"@),
    ensures
        text::replaced(s, name, value) == s,
{
    reveal_strlit("{{");
    text::lemma_find_from(s, name, 0);
    if let Some(i) = text::find(s, name) {
        assert(s.subrange(i, i + name.len()) == name);
        assert(s[i] == s.subrange(i, i + name.len())[0]);
        assert(s[i + 1] == s.subrange(i, i + name.len())[1]);
        assert(s.subrange(i, i + 2) =~= "{{"@);
        assert(text::occurs_at(s, "{{"@, i));
    }
}

/// Where no prompt is given for a run, the base comes first, whatever the
/// user's and the project's prompt hold.
pub proof fn law_base_comes_first(global: String, project: String)
    ensures
        BASE_MD@.is_prefix_of(body_text(Body::Layers { global, project })),
{
    let parts = seq![BASE_MD@] + (if text::blank(global@) {
        Seq::empty()
    } else {
        seq![global@]
    }) + (if text::blank(project@) {
        Seq::empty()
    } else {
        seq![project@]
    });
    lemma_joined_begins(parts, "\n\n"@);
}

/// Joined texts begin with the first of them.
proof fn lemma_joined_begins(parts: Seq<Seq<char>>, sep: Seq<char>)
    requires
        parts.len() > 0,
    ensures
        parts[0].is_prefix_of(text::joined(parts, sep)),
    decreases parts.len(),
{
    if parts.len() > 1 {
        lemma_joined_begins(parts.drop_last(), sep);
    }
}

} // verus!
