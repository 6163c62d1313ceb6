//! Settings.
use bulti::cli::config_cmd::{get_value, list, set_value};
use bulti::cli::update_cmd::{update_config, DEFAULT_REPO};
use bulti::config::{
    default_context_tokens, default_handoff_threshold_pct, default_handoff_warn_depth,
    default_max_handoff_depth, default_max_iterations, mode_from_name, Config, ConfigError,
    ContextConfig, EndpointConfig, McpConfig, UpdateConfig, UpdateMode, CONFIG_VERSION,
};
use bulti::i18n::Language;
use bulti::table::Table;

fn sample_config() -> Config {
    let mut endpoints = Table::new();
    endpoints.insert(
        "main".to_string(),
        EndpointConfig {
            url: "http://127.0.0.1:8084/v1".to_string(),
            api_key: Some("sk-test".to_string()),
            model: "qwen3.8-27b-q2".to_string(),
            context_tokens: 0,
            vision: true,
            thinking: true,
            max_iterations: 200,
            reasoning_effort: None,
            input_price_per_mtok: None,
            output_price_per_mtok: None,
        },
    );
    let mut mcp = Table::new();
    mcp.insert(
        "files".to_string(),
        McpConfig {
            command: "npx".to_string(),
            args: vec![
                "-y".to_string(),
                "@modelcontextprotocol/server-filesystem".to_string(),
                "/home/me".to_string(),
            ],
            env: Table::new(),
            description: Some("파일시스템 접근".to_string()),
        },
    );
    Config {
        version: 1,
        active_endpoint: Some("main".to_string()),
        endpoints,
        mcp,
        context: ContextConfig {
            handoff_threshold_pct: 75,
            max_handoff_depth: 12,
            handoff_warn_depth: 8,
        },
        update: Some(UpdateConfig {
            repo: "agurrrrr/bulti".to_string(),
            mode: UpdateMode::Check,
        }),
        language: Language::En,
    }
}

fn cfg() -> Config {
    sample_config()
}

#[test]
fn default_has_sane_values() {
    let cfg = Config::new();
    assert_eq!(cfg.version, CONFIG_VERSION);
    assert_eq!(cfg.context.handoff_threshold_pct, 75);
    assert_eq!(cfg.context.max_handoff_depth, 12);
    assert_eq!(cfg.context.handoff_warn_depth, 8);
    assert!(cfg.active_endpoint.is_none());
}

#[test]
fn active_endpoint_config_returns_none_when_unset() {
    let cfg = Config::new();
    assert!(cfg.active_endpoint_config().is_none());
}

#[test]
fn active_endpoint_config_returns_the_active_one() {
    let cfg = sample_config();
    let (name, ep) = cfg.active_endpoint_config().unwrap();
    assert_eq!(name, "main");
    assert_eq!(ep.model, "qwen3.8-27b-q2");
    let mut other = sample_config();
    other.active_endpoint = Some("gone".to_string());
    assert!(other.active_endpoint_config().is_none());
}

#[test]
fn defaults_of_single_fields() {
    assert_eq!(default_context_tokens(), 0);
    assert_eq!(default_max_iterations(), 200);
    assert_eq!(default_handoff_threshold_pct(), 75);
    assert_eq!(default_max_handoff_depth(), 12);
    assert_eq!(default_handoff_warn_depth(), 8);
}

#[test]
fn settings_stand_below_the_home_directory() {
    let home = Some("/home/me".to_string());
    assert_eq!(Config::config_dir(&home).unwrap(), "/home/me/.bulti");
    assert_eq!(Config::config_path(&home).unwrap(), "/home/me/.bulti/config.toml");
    let err = Config::config_path(&None).unwrap_err();
    assert!(matches!(err, ConfigError::HomeDirNotFound(_)));
    assert_eq!(err.message(), "설정 디렉터리를 찾을 수 없습니다: 홈 디렉터리 미해석");
}

#[test]
fn config_errors_have_messages() {
    assert_eq!(
        ConfigError::Io("e".to_string()).message(),
        "설정 파일을 읽는 데 실패했습니다: e"
    );
    assert_eq!(ConfigError::Toml("e".to_string()).message(), "TOML 파싱에 실패했습니다: e");
    assert_eq!(ConfigError::TomlSer("e".to_string()).message(), "TOML 직렬화에 실패했습니다: e");
}

#[test]
fn update_modes_have_names() {
    for mode in [UpdateMode::Check, UpdateMode::Download, UpdateMode::Off] {
        assert_eq!(mode_from_name(mode.as_str()), Some(mode));
    }
    assert_eq!(mode_from_name("never"), None);
    assert_eq!(UpdateMode::default(), UpdateMode::Check);
}

#[test]
fn get_active_endpoint() {
    let cfg = cfg();
    assert_eq!(get_value(&cfg, "active_endpoint").as_deref(), Some("main"));
}

#[test]
fn get_endpoint_field() {
    let cfg = cfg();
    assert_eq!(
        get_value(&cfg, "endpoints.main.model").as_deref(),
        Some("qwen3.8-27b-q2")
    );
    assert_eq!(
        get_value(&cfg, "endpoints.main.api_key").as_deref(),
        Some("sk-test")
    );
}

#[test]
fn get_missing_returns_none() {
    let cfg = cfg();
    assert!(get_value(&cfg, "nope").is_none());
}

#[test]
fn set_and_save_roundtrip() {
    let mut cfg = Config::new();
    set_value(&mut cfg, "active_endpoint", "main");
    assert_eq!(cfg.active_endpoint.as_deref(), Some("main"));
    set_value(&mut cfg, "handoff_threshold_pct", "80");
    assert_eq!(cfg.context.handoff_threshold_pct, 80);
}

#[test]
fn unknown_keys_change_nothing() {
    let mut cfg = sample_config();
    let before = list(&cfg);
    assert!(!set_value(&mut cfg, "nope", "1"));
    assert_eq!(list(&cfg), before);
}

#[test]
fn default_config_uses_builtin_repo() {
    let cfg = Config::new();
    let (repo, mode) = update_config(&cfg);
    assert_eq!(repo, DEFAULT_REPO);
    assert_eq!(mode, UpdateMode::Check);
}

#[test]
fn configured_repo_is_used() {
    let mut cfg = Config::new();
    cfg.update = Some(UpdateConfig {
        repo: "owner/repo".to_string(),
        mode: UpdateMode::Download,
    });
    let (repo, mode) = update_config(&cfg);
    assert_eq!(repo, "owner/repo");
    assert_eq!(mode, UpdateMode::Download);
}

#[test]
fn tables_keep_their_names_in_order() {
    let mut t: Table<String> = Table::new();
    t.insert("b".to_string(), "2".to_string());
    t.insert("a".to_string(), "1".to_string());
    t.insert("b".to_string(), "3".to_string());
    assert_eq!(
        t.entries,
        vec![("a".to_string(), "1".to_string()), ("b".to_string(), "3".to_string())]
    );
    assert_eq!(t.get("b").unwrap(), "3");
    assert!(t.get("c").is_none());
}
