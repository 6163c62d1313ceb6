//! Subcommands.
use bulti::agent::handoff::{HandoffDecision, HandoffResponse};
use bulti::agent::loop_::{SegmentResult, SegmentStatus};
use bulti::cli::run_cmd::{
    build_json_report, choose_endpoint, endpoint_name, final_output, finish_chain, merge,
    read_stdin_trimmed, reads_stdin, run_finish, run_start, segment_params, should_use_color,
    stop_output, Chain, Report, RunOutcome,
};
use bulti::cli::{
    config_cmd, dispatch, endpoint_cmd, exit_code, history_cmd, mcp_cmd, skill_cmd, version,
    ChatArgs, Cli, Command, EndpointAddArgs, EndpointSetArgs, McpArgs, McpCommand, RunArgs,
    SkillArgs, SkillCommand, VersionArgs,
};
use bulti::config::{Config, EndpointConfig};
use bulti::endpoint::probe::ProbeOutcome;
use bulti::history::{RunRow, RunStatus};
use bulti::i18n::Language;
use bulti::json::Json;
use bulti::skills::SkillIndex;
use bulti::uuid::make_uuid;

fn run_args(prompt: &str) -> RunArgs {
    RunArgs {
        prompt: prompt.to_string(),
        endpoint: None,
        model: None,
        system_file: None,
        system: None,
        json: true,
        quiet: false,
        no_color: false,
        max_time: None,
        max_handoff_depth: None,
    }
}

fn endpoint(model: &str) -> EndpointConfig {
    EndpointConfig {
        url: "http://127.0.0.1:1/v1".to_string(),
        api_key: None,
        model: model.to_string(),
        context_tokens: 0,
        vision: false,
        thinking: false,
        max_iterations: 100,
        reasoning_effort: None,
        input_price_per_mtok: None,
        output_price_per_mtok: None,
    }
}

fn result(status: SegmentStatus, handoff: Option<HandoffDecision>) -> SegmentResult {
    let response = match handoff {
        Some(HandoffDecision::Handoff) => Some(HandoffResponse {
            summary: "요약".to_string(),
            next_task: "과제".to_string(),
            sections: vec![],
        }),
        _ => None,
    };
    SegmentResult {
        status,
        content: "answer".to_string(),
        reasoning_content: String::new(),
        input_tokens: 5,
        output_tokens: 7,
        files_touched: vec!["a.rs".to_string()],
        depth: 0,
        handoff,
        handoff_response: response,
    }
}

#[test]
fn exit_code_mapping_follows_contract() {
    assert_eq!(RunOutcome::Completed.exit_code(), 0);
    assert_eq!(RunOutcome::Failed.exit_code(), 1);
    assert_eq!(RunOutcome::Incomplete.exit_code(), 2);
    assert_eq!(RunOutcome::Interrupted.exit_code(), 130);
}

#[test]
fn outcome_as_str_matches_contract() {
    assert_eq!(RunOutcome::Completed.as_str(), "completed");
    assert_eq!(RunOutcome::Failed.as_str(), "failed");
    assert_eq!(RunOutcome::Incomplete.as_str(), "incomplete");
    assert_eq!(RunOutcome::Interrupted.as_str(), "interrupted");
}

#[test]
fn json_report_contains_required_fields() {
    let report = build_json_report(&Report {
        version: "0.1.0".to_string(),
        status: RunOutcome::Completed.as_str().to_string(),
        chain_id: "chain-1".to_string(),
        segments: 1,
        handoff_depth: 3,
        endpoint: "test-endpoint".to_string(),
        model: "test-model".to_string(),
        input_tokens: 10,
        output_tokens: 20,
        duration_ms: 1234,
        files_touched: vec!["a.rs".to_string()],
        result: "done".to_string(),
        run_ids: vec![1, 2],
    });
    for field in [
        "version",
        "status",
        "chain_id",
        "segments",
        "handoff_depth",
        "endpoint",
        "model",
        "input_tokens",
        "output_tokens",
        "duration_ms",
        "files_touched",
        "result",
        "runs",
    ] {
        assert!(report.get(field).is_some(), "missing field: {field}");
    }
    assert_eq!(report.get("status").unwrap().as_str(), Some("completed"));
    assert_eq!(report.get("handoff_depth").unwrap().as_u64(), Some(3));
    assert_eq!(report.get("segments").unwrap().as_u64(), Some(1));
    assert_eq!(report.get("model").unwrap().as_str(), Some("test-model"));
}

#[test]
fn read_stdin_trims_whitespace() {
    assert_eq!(read_stdin_trimmed("  hello  "), "hello");
}

#[test]
fn run_cmd_uuid_has_expected_shape() {
    let u = make_uuid(1757120400, 123456789, 0x1234_5678_9abc_def0, 0x0fed_cba9_8765_4321);
    assert_eq!(u.len(), 36);
    assert_eq!(u.chars().nth(8).unwrap(), '-');
    assert_eq!(u.chars().nth(13).unwrap(), '-');
    assert_eq!(u.chars().nth(14).unwrap(), '4');
    assert_eq!(u, "68bb8790-075b-4ef0-0fed-cba987654321");
}

#[test]
fn chat_cmd_uuid_has_expected_shape() {
    let u = make_uuid(u64::MAX, u32::MAX, u64::MAX, u64::MAX);
    assert_eq!(u.len(), 36);
    assert_eq!(u.chars().nth(8).unwrap(), '-');
    assert_eq!(u.chars().nth(13).unwrap(), '-');
    assert_eq!(u.chars().nth(14).unwrap(), '4');
    assert_eq!(u, "ffffffff-ffff-4fff-ffff-ffffffffffff");
}

#[test]
fn no_color_always_disables_color() {
    assert!(!should_use_color(true, true));
    assert!(!should_use_color(true, false));
}

#[test]
fn color_decision_follows_stderr_tty() {
    for terminal in [false, true] {
        assert_eq!(should_use_color(false, terminal), terminal);
    }
}

#[test]
fn mcp_args_list() {
    let args = McpArgs {
        command: McpCommand::List,
    };
    assert!(matches!(args.command, McpCommand::List));
}

#[test]
fn skill_args_list() {
    let args = SkillArgs {
        command: SkillCommand::List,
    };
    assert!(matches!(args.command, SkillCommand::List));
}

#[test]
fn skill_args_show() {
    let args = SkillArgs {
        command: SkillCommand::Show {
            name: "korean-report".to_string(),
        },
    };
    match args.command {
        SkillCommand::Show { name } => assert_eq!(name, "korean-report"),
        _ => panic!("show"),
    }
}

#[test]
fn version_plain_ok() {
    assert_eq!(version::run(&VersionArgs { json: false }, "0.1.0"), "bulti 0.1.0");
}

#[test]
fn version_json_ok() {
    let out = version::run(&VersionArgs { json: true }, "0.1.0");
    let parsed = Json::parse(&out).unwrap();
    assert_eq!(parsed.get("version").unwrap().as_str(), Some("0.1.0"));
}

#[test]
fn without_a_subcommand_a_conversation_begins() {
    let cli = Cli { command: None, chat: ChatArgs::default() };
    assert_eq!(dispatch(cli), Command::Chat(ChatArgs::default()));
    let cli = Cli {
        command: Some(Command::Version(VersionArgs { json: true })),
        chat: ChatArgs::default(),
    };
    assert_eq!(dispatch(cli), Command::Version(VersionArgs { json: true }));
    assert_eq!(exit_code(Ok(130)), 130);
    assert_eq!(exit_code(Err("e".to_string())), 1);
}

#[test]
fn endpoint_of_a_run_is_chosen() {
    let mut cfg = Config::new();
    cfg.endpoints.insert("main".to_string(), endpoint("m"));
    assert_eq!(endpoint_name(&None, &cfg), "");
    cfg.active_endpoint = Some("main".to_string());
    assert_eq!(endpoint_name(&None, &cfg), "main");
    assert_eq!(endpoint_name(&Some("x".to_string()), &cfg), "x");
    assert_eq!(choose_endpoint(&cfg, "main", &None).unwrap().model, "m");
    let other = choose_endpoint(&cfg, "main", &Some("m2".to_string())).unwrap();
    assert_eq!(other.model, "m2");
    assert!(choose_endpoint(&cfg, "x", &None).is_none());
    assert!(reads_stdin(&run_args("-")));
    assert!(!reads_stdin(&run_args("- x")));
}

#[test]
fn chain_goes_on_after_a_handoff() {
    let mut args = run_args("task");
    args.max_handoff_depth = Some(2);
    let mut chain = Chain::begin("task", &args, &Config::new());
    assert_eq!(chain.stop(0, false), None);
    chain.note_run(1);
    let handed = result(SegmentStatus::Completed, Some(HandoffDecision::Handoff));
    assert_eq!(chain.advance(&handed, &["a.rs".to_string()]), None);
    assert_eq!(chain.depth, 1);
    assert!(chain.prompt.contains("과제"));
    assert_eq!(chain.parent_run_id, Some(1));
    chain.note_run(2);
    assert_eq!(
        chain.advance(&handed, &["a.rs".to_string(), "b.rs".to_string()]),
        None
    );
    assert_eq!(chain.files_touched, vec!["a.rs", "b.rs"]);
    assert_eq!((chain.input_tokens, chain.output_tokens), (10, 14));
    assert_eq!(chain.stop(0, false), Some(RunOutcome::Incomplete));
}

#[test]
fn chain_ends_as_its_last_segment_says() {
    let cases = [
        (SegmentStatus::Completed, Some(HandoffDecision::Complete), RunOutcome::Completed),
        (SegmentStatus::Completed, Some(HandoffDecision::Fallback), RunOutcome::Incomplete),
        (SegmentStatus::Completed, None, RunOutcome::Incomplete),
        (SegmentStatus::Failed, None, RunOutcome::Failed),
        (SegmentStatus::Incomplete, None, RunOutcome::Incomplete),
        (SegmentStatus::Interrupted, None, RunOutcome::Interrupted),
    ];
    for (status, handoff, outcome) in cases {
        let mut chain = Chain::begin("task", &run_args("task"), &Config::new());
        assert_eq!(chain.advance(&result(status, handoff), &[]), Some(outcome));
    }
}

#[test]
fn chain_stops_before_a_segment() {
    let mut args = run_args("task");
    args.max_time = Some(10);
    let chain = Chain::begin("task", &args, &Config::new());
    assert_eq!(chain.max_depth, 12);
    assert_eq!(chain.stop(9, false), None);
    assert_eq!(chain.stop(10, false), Some(RunOutcome::Incomplete));
    assert_eq!(chain.stop(9, true), Some(RunOutcome::Interrupted));
}

#[test]
fn report_of_a_chain() {
    let mut chain = Chain::begin("task", &run_args("task"), &Config::new());
    chain.note_run(-1);
    chain.advance(&result(SegmentStatus::Failed, None), &["a.rs".to_string()]);
    let report = finish_chain(&chain, RunOutcome::Failed, "0.1.0", "c", "ep", "m", 9, "text");
    assert_eq!(final_output(&report, false), "text");
    assert_eq!(stop_output(&report, false), None);
    assert_eq!(stop_output(&report, true), Some(final_output(&report, true)));
    let parsed = Json::parse(&final_output(&report, true)).unwrap();
    assert_eq!(parsed.get("status").unwrap().as_str(), Some("failed"));
    assert_eq!(parsed.get("duration_ms").unwrap().as_u64(), Some(9));
    let runs = parsed.get("runs").unwrap().as_array().unwrap();
    assert_eq!(runs[0], Json::Int(-1));
}

#[test]
fn segments_are_noted() {
    let cfg = Config::new();
    let p = segment_params(&endpoint("m"), "sys", "user", &cfg.context, 3);
    assert_eq!((p.max_iterations, p.max_handoff_depth, p.handoff_warn_depth), (100, 3, 8));
    assert_eq!((p.system_prompt.as_str(), p.user_prompt.as_str()), ("sys", "user"));
    let s = run_start("/w", "ep", "m", "p", "c", 2, Some(7));
    assert_eq!((s.segment_index, s.handoff_depth, s.parent_run_id), (2, 2, Some(7)));
    let f = run_finish(&result(SegmentStatus::Interrupted, None), 11);
    assert_eq!(f.status, RunStatus::Interrupted);
    assert_eq!(f.files_touched, vec!["a.rs"]);
    let mut files = vec!["x".to_string()];
    merge(&mut files, &["x".to_string(), "y".to_string(), "y".to_string()]);
    assert_eq!(files, vec!["x", "y"]);
}

#[test]
fn endpoints_are_managed() {
    let mut cfg = Config::new();
    let args = EndpointAddArgs {
        name: "main".to_string(),
        url: "http://x/v1".to_string(),
        api_key: Some("sk-1234567890".to_string()),
        model: "m".to_string(),
        context_tokens: None,
        vision: false,
        thinking: false,
    };
    assert_eq!(
        endpoint_cmd::add(&mut cfg, &args, Language::En),
        "Registered endpoint 'main'"
    );
    assert!(endpoint_cmd::activate(&mut cfg, "nope", Language::En).is_err());
    assert!(endpoint_cmd::activate(&mut cfg, "main", Language::En).is_ok());
    let lines = endpoint_cmd::list(&cfg, Language::En);
    assert!(!lines.iter().any(|l| l.contains("sk-1234567890")));
    let set = EndpointSetArgs { name: "main".to_string(), field: "model=m2".to_string() };
    endpoint_cmd::set(&mut cfg, &set, Language::En).unwrap();
    assert_eq!(cfg.endpoints.get("main").unwrap().model, "m2");
    let bad = EndpointSetArgs { name: "main".to_string(), field: "nope=1".to_string() };
    assert!(endpoint_cmd::set(&mut cfg, &bad, Language::En).is_err());
    assert!(endpoint_cmd::remove(&mut cfg, "main", Language::En).is_ok());
    assert!(endpoint_cmd::remove(&mut cfg, "main", Language::En).is_err());
    let (ok, code) = endpoint_cmd::test_reply("main", &ProbeOutcome::Success, Language::En);
    assert!(ok.contains("main"));
    assert_eq!(code, 0);
    let refused = ProbeOutcome::HttpError(401, "no".to_string());
    assert_eq!(endpoint_cmd::test_reply("main", &refused, Language::En).1, 1);
}

#[test]
fn lists_are_shown() {
    let cfg = Config::new();
    assert_eq!(mcp_cmd::list(&cfg), vec!["(MCP 서버 없음)"]);
    assert!(!config_cmd::list(&cfg).is_empty());
    let skills = [SkillIndex { name: "s".to_string(), description: "d".to_string() }];
    assert!(skill_cmd::list(&skills)[0].contains("s"));
}

#[test]
fn runs_are_shown() {
    let row = RunRow {
        id: 3,
        started_at: "2026-09-06T01:00:00Z".to_string(),
        finished_at: None,
        cwd: "/w".to_string(),
        endpoint: "ep".to_string(),
        model: Some("m".to_string()),
        status: "completed".to_string(),
        prompt: "do it".to_string(),
        result: Some("done".to_string()),
        chain_id: "c".to_string(),
        segment_index: 0,
        handoff_depth: 0,
        parent_run_id: None,
        input_tokens: Some(1),
        output_tokens: Some(2),
        files_touched: Some("[\"a.rs\"]".to_string()),
        duration_ms: Some(5),
    };
    let lines = history_cmd::list(&[row.clone()], Language::En);
    assert_eq!(
        lines,
        vec!["#3    completed   2026-09-06T01:00:00 | ep | m | 1 files | 5ms"]
    );
    let (shown, code) = history_cmd::show(3, &Some(row.clone()), Language::En);
    assert_eq!(code, 0);
    assert!(shown.iter().any(|l| l.contains("done")));
    assert_eq!(history_cmd::show(4, &None, Language::En).1, 1);
    assert_eq!(history_cmd::asked_id("12", Language::En), Ok(12));
    assert!(history_cmd::asked_id("x", Language::En).is_err());
    let (last, code) = history_cmd::last(&Some(row), Language::En);
    assert_eq!(code, 0);
    assert!(!last.is_empty());
}
