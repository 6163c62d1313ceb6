//! Settings.
use vstd::prelude::*;

use crate::i18n::Language;
use crate::paths;
use crate::table::Table;
use crate::text;

verus! {

/// The version of the settings file.
pub const CONFIG_VERSION: u32 = 1;

/// The name of the settings file.
pub const CONFIG_FILENAME: &'static str = "config.toml";

/// The name of the settings directory.
pub const CONFIG_DIR_NAME: &'static str = ".bulti";

/// Why settings could not be loaded or saved.
#[derive(Debug)]
pub enum ConfigError {
    /// The home directory is not known.
    HomeDirNotFound(String),
    /// A file could not be read or written.
    Io(String),
    /// The settings could not be read.
    Toml(String),
    /// The settings could not be written.
    TomlSer(String),
}

impl ConfigError {
    /// The message of the error.
    pub open spec fn text(self) -> Seq<char> {
        match self {
            ConfigError::HomeDirNotFound(s) => "설정 디렉터리를 찾을 수 없습니다: "@ + s@,
            ConfigError::Io(s) => "설정 파일을 읽는 데 실패했습니다: "@ + s@,
            ConfigError::Toml(s) => "TOML 파싱에 실패했습니다: "@ + s@,
            ConfigError::TomlSer(s) => "TOML 직렬화에 실패했습니다: "@ + s@,
        }
    }

    /// The message of the error.
    pub fn message(&self) -> (r: String)
        ensures
            r@ == self.text(),
    {
        match self {
            ConfigError::HomeDirNotFound(s) => "설정 디렉터리를 찾을 수 없습니다: ".to_string().concat(
                s.as_str(),
            ),
            ConfigError::Io(s) => "설정 파일을 읽는 데 실패했습니다: ".to_string().concat(s.as_str()),
            ConfigError::Toml(s) => "TOML 파싱에 실패했습니다: ".to_string().concat(s.as_str()),
            ConfigError::TomlSer(s) => "TOML 직렬화에 실패했습니다: ".to_string().concat(s.as_str()),
        }
    }
}

/// An endpoint that serves a model. A context of zero tokens is one whose size
/// is probed. The prices, per million tokens, are kept as decimal text.
#[derive(Debug, PartialEq, Eq)]
pub struct EndpointConfig {
    pub url: String,
    pub api_key: Option<String>,
    pub model: String,
    pub context_tokens: u64,
    pub vision: bool,
    pub thinking: bool,
    pub max_iterations: u32,
    pub reasoning_effort: Option<String>,
    pub input_price_per_mtok: Option<String>,
    pub output_price_per_mtok: Option<String>,
}

/// The model of an endpoint.
pub struct EndpointModel {
    pub url: Seq<char>,
    pub api_key: Option<Seq<char>>,
    pub model: Seq<char>,
    pub context_tokens: u64,
    pub vision: bool,
    pub thinking: bool,
    pub max_iterations: u32,
    pub reasoning_effort: Option<Seq<char>>,
    pub input_price_per_mtok: Option<Seq<char>>,
    pub output_price_per_mtok: Option<Seq<char>>,
}

impl View for EndpointConfig {
    type V = EndpointModel;

    open spec fn view(&self) -> EndpointModel {
        EndpointModel {
            url: self.url@,
            api_key: text::opt_view(self.api_key),
            model: self.model@,
            context_tokens: self.context_tokens,
            vision: self.vision,
            thinking: self.thinking,
            max_iterations: self.max_iterations,
            reasoning_effort: text::opt_view(self.reasoning_effort),
            input_price_per_mtok: text::opt_view(self.input_price_per_mtok),
            output_price_per_mtok: text::opt_view(self.output_price_per_mtok),
        }
    }
}

impl Clone for EndpointConfig {
    fn clone(&self) -> (r: Self)
        ensures
            r@ == self@,
    {
        EndpointConfig {
            url: self.url.clone(),
            api_key: text::clone_opt(&self.api_key),
            model: self.model.clone(),
            context_tokens: self.context_tokens,
            vision: self.vision,
            thinking: self.thinking,
            max_iterations: self.max_iterations,
            reasoning_effort: text::clone_opt(&self.reasoning_effort),
            input_price_per_mtok: text::clone_opt(&self.input_price_per_mtok),
            output_price_per_mtok: text::clone_opt(&self.output_price_per_mtok),
        }
    }
}

/// The context size of an endpoint that names none: it is probed.
pub fn default_context_tokens() -> (r: u64)
    ensures
        r == 0,
{
    0
}

/// The iterations of a segment on an endpoint that names none.
pub fn default_max_iterations() -> (r: u32)
    ensures
        r == 200,
{
    200
}

/// A server of tools.
#[derive(Debug, Clone, PartialEq, Eq)]
pub struct McpConfig {
    pub command: String,
    pub args: Vec<String>,
    pub env: Table<String>,
    pub description: Option<String>,
}

/// The model of a server of tools.
pub struct McpModel {
    pub command: Seq<char>,
    pub args: Seq<Seq<char>>,
    pub env: Map<Seq<char>, Seq<char>>,
    pub env_names: Seq<Seq<char>>,
    pub description: Option<Seq<char>>,
}

impl View for McpConfig {
    type V = McpModel;

    open spec fn view(&self) -> McpModel {
        McpModel {
            command: self.command@,
            args: text::views(self.args@),
            env: self.env@,
            env_names: self.env.names(),
            description: text::opt_view(self.description),
        }
    }
}

/// When a segment hands over, and how deep a chain may go.
#[derive(Debug, Clone, Copy, PartialEq, Eq, Structural)]
pub struct ContextConfig {
    /// The share of the context, in percent, at which a handoff is due.
    pub handoff_threshold_pct: u8,
    /// The depth at which a chain is stopped.
    pub max_handoff_depth: u32,
    /// The depth from which on a chain is warned of.
    pub handoff_warn_depth: u32,
}

/// The share of the context at which a handoff is due unless set otherwise.
pub fn default_handoff_threshold_pct() -> (r: u8)
    ensures
        r == 75,
{
    75
}

/// The depth at which a chain is stopped unless set otherwise.
pub fn default_max_handoff_depth() -> (r: u32)
    ensures
        r == 12,
{
    12
}

/// The depth from which on a chain is warned of unless set otherwise.
pub fn default_handoff_warn_depth() -> (r: u32)
    ensures
        r == 8,
{
    8
}

/// The settings of a context that says nothing.
pub open spec fn default_context() -> ContextConfig {
    ContextConfig { handoff_threshold_pct: 75, max_handoff_depth: 12, handoff_warn_depth: 8 }
}

impl Default for ContextConfig {
    fn default() -> (r: Self)
        ensures
            r == default_context(),
    {
        ContextConfig {
            handoff_threshold_pct: default_handoff_threshold_pct(),
            max_handoff_depth: default_max_handoff_depth(),
            handoff_warn_depth: default_handoff_warn_depth(),
        }
    }
}

/// What is done about a newer version.
#[derive(Debug, Clone, Copy, PartialEq, Eq, Structural)]
pub enum UpdateMode {
    /// It is told of.
    Check,
    /// It is downloaded and put in place.
    Download,
    /// Nothing.
    Off,
}

impl Default for UpdateMode {
    fn default() -> (r: Self)
        ensures
            r == UpdateMode::Check,
    {
        UpdateMode::Check
    }
}

impl UpdateMode {
    /// The name of a mode.
    pub open spec fn name(self) -> Seq<char> {
        match self {
            UpdateMode::Check => "check"@,
            UpdateMode::Download => "download"@,
            UpdateMode::Off => "off"@,
        }
    }

    /// The name of the mode.
    pub fn as_str(&self) -> (r: &'static str)
        ensures
            r@ == self.name(),
    {
        match self {
            UpdateMode::Check => "check",
            UpdateMode::Download => "download",
            UpdateMode::Off => "off",
        }
    }
}

/// The mode that a name stands for.
pub open spec fn mode_named(s: Seq<char>) -> Option<UpdateMode> {
    if s == "check"@ {
        Some(UpdateMode::Check)
    } else if s == "download"@ {
        Some(UpdateMode::Download)
    } else if s == "off"@ {
        Some(UpdateMode::Off)
    } else {
        None
    }
}

/// The mode that a name stands for.
pub fn mode_from_name(s: &str) -> (r: Option<UpdateMode>)
    ensures
        r == mode_named(s@),
{
    if text::str_eq(s, "check") {
        Some(UpdateMode::Check)
    } else if text::str_eq(s, "download") {
        Some(UpdateMode::Download)
    } else if text::str_eq(s, "off") {
        Some(UpdateMode::Off)
    } else {
        None
    }
}

/// The name of a mode stands for it.
pub proof fn law_mode_names_roundtrip(mode: UpdateMode)
    ensures
        mode_named(mode.name()) == Some(mode),
{
    reveal_strlit("check");
    reveal_strlit("download");
    reveal_strlit("off");
    assert("check"@.len() == 5);
    assert("download"@.len() == 8);
    assert("off"@.len() == 3);
}

/// Where newer versions come from, and what is done about them.
#[derive(Debug, Clone)]
pub struct UpdateConfig {
    pub repo: String,
    pub mode: UpdateMode,
}

/// The model of the update settings.
pub struct UpdateModel {
    pub repo: Seq<char>,
    pub mode: UpdateMode,
}

impl View for UpdateConfig {
    type V = UpdateModel;

    open spec fn view(&self) -> UpdateModel {
        UpdateModel { repo: self.repo@, mode: self.mode }
    }
}

/// All settings.
#[derive(Debug, Clone)]
pub struct Config {
    pub version: u32,
    pub active_endpoint: Option<String>,
    pub endpoints: Table<EndpointConfig>,
    pub mcp: Table<McpConfig>,
    pub context: ContextConfig,
    pub update: Option<UpdateConfig>,
    pub language: Language,
}

/// The model of all settings.
pub struct ConfigModel {
    pub version: u32,
    pub active_endpoint: Option<Seq<char>>,
    pub endpoints: Map<Seq<char>, EndpointModel>,
    pub mcp: Map<Seq<char>, McpModel>,
    pub context: ContextConfig,
    pub update: Option<UpdateModel>,
    pub language: Language,
}

impl View for Config {
    type V = ConfigModel;

    open spec fn view(&self) -> ConfigModel {
        ConfigModel {
            version: self.version,
            active_endpoint: text::opt_view(self.active_endpoint),
            endpoints: self.endpoints@,
            mcp: self.mcp@,
            context: self.context,
            update: match self.update {
                Some(u) => Some(u@),
                None => None,
            },
            language: self.language,
        }
    }
}

/// The settings of a fresh installation.
pub open spec fn default_config() -> ConfigModel {
    ConfigModel {
        version: CONFIG_VERSION,
        active_endpoint: None,
        endpoints: Map::empty(),
        mcp: Map::empty(),
        context: default_context(),
        update: None,
        language: Language::En,
    }
}

impl Default for Config {
    fn default() -> (r: Self)
        ensures
            r.wf(),
            r@ == default_config(),
    {
        Config {
            version: CONFIG_VERSION,
            active_endpoint: None,
            endpoints: Table::new(),
            mcp: Table::new(),
            context: ContextConfig::default(),
            update: None,
            language: Language::default(),
        }
    }
}

/// The directory of the settings, below the home directory.
pub open spec fn dir_below(home: Seq<char>) -> Seq<char> {
    paths::below(home, CONFIG_DIR_NAME@)
}

impl Config {
    /// The directory of the settings, below the home directory.
    pub fn config_dir(home: &Option<String>) -> (r: Result<String, ConfigError>)
        ensures
            match r {
                Ok(p) => home is Some && p@ == dir_below(home->0@),
                Err(e) => home is None && e is HomeDirNotFound && e.text()
                    == "설정 디렉터리를 찾을 수 없습니다: "@ + "홈 디렉터리 미해석"@,
            },
    {
        match home {
            Some(h) => Ok(paths::join(h, CONFIG_DIR_NAME)),
            None => Err(ConfigError::HomeDirNotFound("홈 디렉터리 미해석".to_string())),
        }
    }

    /// The file of the settings, below the home directory.
    pub fn config_path(home: &Option<String>) -> (r: Result<String, ConfigError>)
        ensures
            match r {
                Ok(p) => home is Some && p@ == paths::below(dir_below(home->0@), CONFIG_FILENAME@),
                Err(e) => home is None && e is HomeDirNotFound && e.text()
                    == "설정 디렉터리를 찾을 수 없습니다: "@ + "홈 디렉터리 미해석"@,
            },
    {
        match Config::config_dir(home) {
            Ok(dir) => Ok(paths::join(&dir, CONFIG_FILENAME)),
            Err(e) => Err(e),
        }
    }

    /// Whether the tables are in order.
    pub open spec fn wf(self) -> bool {
        self.endpoints.wf() && self.mcp.wf()
    }

    /// The settings of a fresh installation.
    pub fn new() -> (r: Self)
        ensures
            r.wf(),
            r@ == default_config(),
    {
        Config::default()
    }

    /// The active endpoint and its name, where one is active and known.
    pub fn active_endpoint_config(&self) -> (r: Option<(&str, &EndpointConfig)>)
        requires
            self.wf(),
        ensures
            match r {
                Some((name, ep)) => self@.active_endpoint == Some(name@)
                    && self@.endpoints.dom().contains(name@) && self@.endpoints[name@] == ep@,
                None => match self@.active_endpoint {
                    Some(name) => !self@.endpoints.dom().contains(name),
                    None => true,
                },
            },
    {
        match &self.active_endpoint {
            Some(name) => match self.endpoints.get(name.as_str()) {
                Some(ep) => Some((name.as_str(), ep)),
                None => None,
            },
            None => None,
        }
    }
}

} // verus!
