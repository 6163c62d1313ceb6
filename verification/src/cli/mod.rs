//! The commands of the program: what they are given, what they decide and what
//! they say.
use vstd::prelude::*;

pub mod chat_cmd;
pub mod chat_text;
pub mod config_cmd;
pub mod endpoint_cmd;
pub mod history_cmd;
pub mod laws;
pub mod mcp_cmd;
pub mod notice_laws;
pub mod prompt_cmd;
pub mod run_cmd;
pub mod session_cmd;
pub mod settled;
pub mod shown_laws;
pub mod skill_cmd;
pub mod stream;
pub mod update_cmd;
pub mod version;

verus! {

/// What the program was called with.
#[derive(Debug, Clone, PartialEq, Eq)]
pub struct Cli {
    /// The command; a conversation where there is none.
    pub command: Option<Command>,
    /// The options of the conversation, without a command.
    pub chat: ChatArgs,
}

/// A command.
#[derive(Debug, Clone, PartialEq, Eq)]
pub enum Command {
    Chat(ChatArgs),
    Session(SessionArgs),
    Run(RunArgs),
    Endpoint(EndpointArgs),
    History(HistoryArgs),
    Skill(SkillArgs),
    Mcp(McpArgs),
    Prompt(PromptArgs),
    Config(ConfigArgs),
    Update(UpdateArgs),
    Version(VersionArgs),
}

/// The options of a conversation.
#[derive(Debug, Clone, PartialEq, Eq)]
pub struct ChatArgs {
    pub endpoint: Option<String>,
    pub model: Option<String>,
    pub system_file: Option<String>,
    pub system: Option<String>,
    pub no_color: bool,
    pub no_tui: bool,
    pub first: Option<String>,
    pub resume: Option<String>,
}

impl Default for ChatArgs {
    fn default() -> (r: Self)
        ensures
            r.endpoint is None,
            r.model is None,
            r.system_file is None,
            r.system is None,
            !r.no_color,
            !r.no_tui,
            r.first is None,
            r.resume is None,
    {
        ChatArgs {
            endpoint: None,
            model: None,
            system_file: None,
            system: None,
            no_color: false,
            no_tui: false,
            first: None,
            resume: None,
        }
    }
}

/// The options of `session`.
#[derive(Debug, Clone, PartialEq, Eq)]
pub struct SessionArgs {
    pub command: SessionCommand,
}

/// What `session` does.
#[derive(Debug, Clone, PartialEq, Eq)]
pub enum SessionCommand {
    List,
    Delete { id: String },
}

/// The options of `run`.
#[derive(Debug, Clone, PartialEq, Eq)]
pub struct RunArgs {
    /// The prompt; a dash for what is read from the standard input.
    pub prompt: String,
    pub endpoint: Option<String>,
    pub model: Option<String>,
    pub system_file: Option<String>,
    pub system: Option<String>,
    pub json: bool,
    pub quiet: bool,
    pub no_color: bool,
    /// The time that a chain may take, in seconds.
    pub max_time: Option<u64>,
    pub max_handoff_depth: Option<u32>,
}

/// The options of `endpoint`.
#[derive(Debug, Clone, PartialEq, Eq)]
pub struct EndpointArgs {
    pub command: EndpointCommand,
}

/// What `endpoint` does.
#[derive(Debug, Clone, PartialEq, Eq)]
pub enum EndpointCommand {
    Add(EndpointAddArgs),
    List,
    Use { name: String },
    Remove { name: String },
    SetField(EndpointSetArgs),
    Test { name: String },
    Probe { name: String },
}

/// The options of `endpoint add`.
#[derive(Debug, Clone, PartialEq, Eq)]
pub struct EndpointAddArgs {
    pub name: String,
    pub url: String,
    pub api_key: Option<String>,
    pub model: String,
    pub context_tokens: Option<u64>,
    pub vision: bool,
    pub thinking: bool,
}

/// The options of `endpoint set`.
#[derive(Debug, Clone, PartialEq, Eq)]
pub struct EndpointSetArgs {
    pub name: String,
    /// A field and its value, with an equals sign between them.
    pub field: String,
}

/// The options of `history`.
#[derive(Debug, Clone, PartialEq, Eq)]
pub struct HistoryArgs {
    pub command: HistoryCommand,
}

/// What `history` does.
#[derive(Debug, Clone, PartialEq, Eq)]
pub enum HistoryCommand {
    List(HistoryListArgs),
    Show { id: String },
    Last(HistoryLastArgs),
}

/// The options of `history list`.
#[derive(Debug, Clone, PartialEq, Eq)]
pub struct HistoryListArgs {
    pub n: Option<u64>,
    pub status: Option<String>,
    pub chain: Option<String>,
}

/// The options of `history last`.
#[derive(Debug, Clone, PartialEq, Eq)]
pub struct HistoryLastArgs {
    pub chain: bool,
}

/// The options of `skill`.
#[derive(Debug, Clone, PartialEq, Eq)]
pub struct SkillArgs {
    pub command: SkillCommand,
}

/// What `skill` does.
#[derive(Debug, Clone, PartialEq, Eq)]
pub enum SkillCommand {
    List,
    Show { name: String },
}

/// The options of `mcp`.
#[derive(Debug, Clone, PartialEq, Eq)]
pub struct McpArgs {
    pub command: McpCommand,
}

/// What `mcp` does.
#[derive(Debug, Clone, PartialEq, Eq)]
pub enum McpCommand {
    List,
}

/// The options of `prompt`.
#[derive(Debug, Clone, PartialEq, Eq)]
pub struct PromptArgs {
    pub command: PromptCommand,
}

/// What `prompt` does.
#[derive(Debug, Clone, PartialEq, Eq)]
pub enum PromptCommand {
    Show,
    Edit,
}

/// The options of `config`.
#[derive(Debug, Clone, PartialEq, Eq)]
pub struct ConfigArgs {
    pub command: ConfigCommand,
}

/// What `config` does.
#[derive(Debug, Clone, PartialEq, Eq)]
pub enum ConfigCommand {
    Get { key: String },
    SetValue { key: String, value: String },
    List,
}

/// The options of `update`.
#[derive(Debug, Clone, PartialEq, Eq)]
pub struct UpdateArgs {
    pub check: bool,
}

/// The options of `version`.
#[derive(Debug, Clone, PartialEq, Eq)]
pub struct VersionArgs {
    pub json: bool,
}

/// The command to run: the one given, else a conversation with the options
/// given beside it.
pub fn dispatch(cli: Cli) -> (r: Command)
    ensures
        r == match cli.command {
            Some(c) => c,
            None => Command::Chat(cli.chat),
        },
{
    match cli.command {
        Some(c) => c,
        None => Command::Chat(cli.chat),
    }
}

/// The code with which the program ends, by what the command came to: that of
/// the command, or one for an error.
pub fn exit_code(result: Result<i32, String>) -> (r: u8)
    ensures
        r == match result {
            Ok(code) => (code as int % 256) as u8,
            Err(_) => 1,
        },
{
    match result {
        Ok(code) => {
            if code >= 0 {
                (code % 256) as u8
            } else {
                let m: i64 = code as i64 + 4294967296;
                (m % 256) as u8
            }
        },
        Err(_) => 1,
    }
}

} // verus!
