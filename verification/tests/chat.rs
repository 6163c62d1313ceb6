//! Conversations.
use bulti::agent::handoff::{HandoffDecision, HandoffResponse};
use bulti::agent::loop_::{SegmentResult, SegmentStatus};
use bulti::cli::chat_cmd::{
    build_initial_lines, color, compact, compact_request, end_of_action, end_of_input,
    end_of_interrupt, end_of_turn, export_message, first_prompt, fork_message, register, resumed_prompt, strip_status_note, turn_lines,
    with_status_note, Action, Chat, Input, Role, Setup, SetupOutcome, SetupStep, Surface, Turn,
    EXIT_ERROR, EXIT_INTERRUPTED, EXIT_OK, FAILED_NOTE, INCOMPLETE_NOTE,
};
use bulti::cli::chat_text::{
    available_models_text, endpoint_list_text, endpoint_text, history_lines, mcp_text,
    print_help, resume_suggest_text, session_info_text, sessions_list_text, share_of_context,
    similar_suggestion_text, usage_text,
};
use bulti::cli::stream::{strip_ansi, StreamPrinter};
use bulti::config::{Config, EndpointConfig, McpConfig};
use bulti::i18n::Language;
use bulti::session::{meta_of, Session, TurnRecord};
use bulti::table::Table;

const EN: Language = Language::En;

fn main_endpoint() -> EndpointConfig {
    EndpointConfig {
        url: "http://127.0.0.1:8084/v1".to_string(),
        api_key: Some("sk-test".to_string()),
        model: "qwen3.8-27b-q2".to_string(),
        context_tokens: 0,
        vision: true,
        thinking: true,
        max_iterations: 200,
        reasoning_effort: None,
        input_price_per_mtok: None,
        output_price_per_mtok: None,
    }
}

fn sample_config() -> Config {
    let mut cfg = Config::new();
    cfg.active_endpoint = Some("main".to_string());
    cfg.endpoints.insert("main".to_string(), main_endpoint());
    cfg.mcp.insert(
        "files".to_string(),
        McpConfig {
            command: "npx".to_string(),
            args: vec![
                "-y".to_string(),
                "@modelcontextprotocol/server-filesystem".to_string(),
                "/home/me".to_string(),
            ],
            env: Table::new(),
            description: Some("파일시스템 접근".to_string()),
        },
    );
    cfg
}

fn chat() -> Chat {
    Chat::begin(sample_config(), "main", main_endpoint(), "id-1", "t0")
}

fn turn(user: &str, assistant: &str) -> TurnRecord {
    TurnRecord {
        turn: 0,
        user: user.to_string(),
        assistant: assistant.to_string(),
        chain_id: "c".to_string(),
        files_touched: vec![],
        input_tokens: 3,
        output_tokens: 4,
        model: "m".to_string(),
    }
}

fn segment(status: SegmentStatus, content: &str, handoff: Option<HandoffDecision>) -> SegmentResult {
    let response = match handoff {
        Some(HandoffDecision::Handoff) => Some(HandoffResponse {
            summary: "요약".to_string(),
            next_task: "과제".to_string(),
            sections: vec![],
        }),
        _ => None,
    };
    SegmentResult {
        status,
        content: content.to_string(),
        reasoning_content: "thought ".to_string(),
        input_tokens: 5,
        output_tokens: 7,
        files_touched: vec![],
        depth: 0,
        handoff,
        handoff_response: response,
    }
}

fn said(action: Action) -> String {
    match action {
        Action::Say(s) => s,
        Action::SaveSettings(s) => s,
        Action::Leave(s) => s,
        _ => panic!("a text was expected"),
    }
}

#[test]
fn exit_commands_are_recognized() {
    for cmd in ["/exit", "/quit", "/q"] {
        assert!(
            matches!(chat().input(EN, Surface::Console, cmd), Action::Leave(_)),
            "should exit on {cmd}"
        );
    }
    for cmd in ["/new", "/help", "hello", "안녕하세요"] {
        assert!(
            !matches!(chat().input(EN, Surface::Console, cmd), Action::Leave(_)),
            "should not exit on {cmd}"
        );
    }
}

#[test]
fn help_lists_commands() {
    let help = print_help(EN).join("\n");
    assert!(help.contains("/exit"));
    assert!(help.contains("/new"));
    assert!(help.contains("/resume"));
}

#[test]
fn endpoint_and_mcp_text_lists_and_details() {
    let mut cfg = sample_config();
    let mut files = cfg.mcp.get("files").unwrap().clone();
    files.env.insert("SECRET".to_string(), "topsecret".to_string());
    cfg.mcp.insert("files".to_string(), files);
    let list = endpoint_list_text(EN, &cfg, "main");
    assert!(list.contains("main (active)"));
    assert!(list.contains("qwen3.8-27b-q2"));
    let detail = endpoint_text(EN, &cfg, "main", "");
    assert!(detail.contains("Endpoint: main (active)"));
    assert!(detail.contains("context_tokens: auto (probe)"));
    assert!(detail.contains("vision: on"));
    assert!(!detail.contains("sk-test"));
    let missing = endpoint_text(EN, &cfg, "main", "nope");
    assert!(missing.contains("Endpoint not found: nope"));
    assert!(missing.contains("Endpoint list:"));
    let mcp = mcp_text(EN, &cfg, "");
    assert!(mcp.contains("files"));
    let mcp_detail = mcp_text(EN, &cfg, "files");
    assert!(mcp_detail.contains("command: npx"));
    assert!(mcp_detail.contains("파일시스템 접근"));
    assert!(mcp_detail.contains("env: SECRET"));
    assert!(!mcp_detail.contains("topsecret"));
    let mcp_missing = mcp_text(EN, &cfg, "nope");
    assert!(mcp_missing.contains("MCP server not found: nope"));
}

#[test]
fn available_models_text_marks_current() {
    let cfg = sample_config();
    let text = available_models_text(EN, &cfg, "qwen3.8-27b-q2");
    assert!(text.contains("qwen3.8-27b-q2 (current)"));
    let text = available_models_text(EN, &cfg, "other");
    assert!(text.contains("other (current)"));
    assert!(text.contains("qwen3.8-27b-q2"));
    assert!(!text.contains("qwen3.8-27b-q2 (current)"));
    assert!(available_models_text(EN, &Config::new(), "").contains("(no model configured"));
}

#[test]
fn models_and_efforts_are_chosen() {
    let mut c = chat();
    assert_eq!(
        said(c.input(EN, Surface::Console, "/model gpt-4 HIGH")),
        "Changed model to 'gpt-4' and reasoning effort to 'high'."
    );
    assert_eq!(c.endpoint.model, "gpt-4");
    assert_eq!(c.endpoint.reasoning_effort.as_deref(), Some("high"));
    let stored = c.cfg.endpoints.get("main").unwrap();
    assert_eq!(stored.model, "gpt-4");
    assert_eq!(stored.reasoning_effort.as_deref(), Some("high"));
    assert_eq!(stored.api_key.as_deref(), Some("sk-test"));
    assert_eq!(
        said(c.input(EN, Surface::Console, "/m x wild")),
        "Changed model to 'x'. (effort 'wild' ignored — low|medium|high)"
    );
    assert_eq!(c.endpoint.reasoning_effort.as_deref(), Some("high"));
    assert_eq!(said(c.input(EN, Surface::Screen, "/model y")), "Changed model to 'y'.");
    assert_eq!(
        said(c.input(EN, Surface::Console, "/effort low")),
        "Set reasoning effort to 'low'."
    );
    assert_eq!(c.endpoint.reasoning_effort.as_deref(), Some("low"));
    assert_eq!(
        said(c.input(EN, Surface::Console, "/effort")),
        "Usage: /effort <low|medium|high>"
    );
}

#[test]
fn languages_are_chosen() {
    let mut c = chat();
    assert!(said(c.input(EN, Surface::Console, "/language")).contains("English (en)"));
    assert!(matches!(
        c.input(EN, Surface::Console, "/language ko"),
        Action::SaveSettings(_)
    ));
    assert_eq!(c.cfg.language, Language::Ko);
    assert_eq!(
        said(c.input(EN, Surface::Console, "/lang xx")),
        "Unsupported language 'xx'. Use en, ko, or ja."
    );
    assert_eq!(c.cfg.language, Language::Ko);
}

#[test]
fn lines_lead_to_actions() {
    let mut c = chat();
    assert!(matches!(c.input(EN, Surface::Console, "  "), Action::Nothing));
    match c.input(EN, Surface::Console, "  do it ") {
        Action::Answer(p) => assert_eq!(p, "do it"),
        _ => panic!("an answer was expected"),
    }
    assert!(matches!(c.input(EN, Surface::Console, "/new"), Action::NewSession));
    assert!(matches!(c.input(EN, Surface::Screen, "/new"), Action::Say(_)));
    assert!(matches!(c.input(EN, Surface::Console, "/resume"), Action::SuggestSessions(_)));
    match c.input(EN, Surface::Console, "/resume abc") {
        Action::Resume(id) => assert_eq!(id, "abc"),
        _ => panic!("a session was expected"),
    }
    assert!(matches!(c.input(EN, Surface::Screen, "/resume abc"), Action::Say(_)));
    assert!(matches!(c.input(EN, Surface::Console, "/sessions"), Action::ListSessions));
    assert!(matches!(c.input(EN, Surface::Console, "/session-info"), Action::SessionInfo));
    assert!(matches!(c.input(EN, Surface::Console, "/fork"), Action::Fork));
    assert!(matches!(c.input(EN, Surface::Console, "/usage"), Action::Usage));
    assert!(matches!(c.input(EN, Surface::Console, "/help"), Action::Help(_)));
    match c.input(EN, Surface::Console, "/export") {
        Action::Export(p) => assert_eq!(p, "./bulti-session-id-1.md"),
        _ => panic!("a file was expected"),
    }
    match c.input(EN, Surface::Console, "/export  x.md ") {
        Action::Export(p) => assert_eq!(p, "x.md"),
        _ => panic!("a file was expected"),
    }
    match c.input(EN, Surface::Console, "/history Foo") {
        Action::History(heading, q) => {
            assert_eq!(heading, "Prompt history — results for 'Foo' (last 20):");
            assert_eq!(q, "foo");
        }
        _ => panic!("the history was expected"),
    }
    assert_eq!(
        said(c.input(EN, Surface::Console, "/compact")),
        "Nothing to compact. (0 turns)"
    );
    let unknown = said(c.input(EN, Surface::Console, "/modle x"));
    assert!(unknown.starts_with("Unknown command '/modle x'."));
    assert!(unknown.contains("/model"));
    assert_eq!(similar_suggestion_text(EN, "zzzzzzzz"), "");
}

#[test]
fn conversation_goes_before_the_prompt() {
    let mut c = chat();
    assert_eq!(c.prompt("first"), "first");
    let mut t = Turn::begin("first");
    let done = t
        .advance(EN, &segment(SegmentStatus::Completed, "answer", None), &[], 9)
        .unwrap();
    c.record("first", &done, "chain", "t1");
    assert_eq!(c.turn, 1);
    assert_eq!(c.session.turns[0].model, "qwen3.8-27b-q2");
    assert_eq!(
        c.prompt("second"),
        "[사용자]\nfirst\n\n[모델]\nanswer\n\n[이번 사용자 메시지]\nsecond"
    );
    assert_eq!(
        c.start_session(EN, "id-2", "t2"),
        "Started a new session (session id: id-2)"
    );
    assert_eq!(c.turn, 0);
    assert_eq!(c.prompt("third"), "third");
}

#[test]
fn sessions_are_taken_up() {
    let mut saved = Session::new("old", "main", "old-model", "t0");
    saved.push_turn(turn("q", "a"), "t1");
    let mut c = chat();
    assert_eq!(
        c.resume(EN, "old", &Err("no file".to_string())),
        "Session 'old' not found."
    );
    assert_eq!(c.session_id, "id-1");
    assert_eq!(c.resume(EN, "old", &Ok(saved.clone())), "Resuming session 'old'.");
    assert_eq!(c.endpoint.model, "qwen3.8-27b-q2");
    assert!(c.prompt("p").contains("[사용자]\nq"));
    let mut c = chat();
    c.restore(Surface::Console, "old", &saved);
    assert_eq!(c.endpoint.model, "old-model");
    assert_eq!(c.session_id, "old");
    assert_eq!(c.turn, 0);
    let mut c = chat();
    c.restore(Surface::Screen, "old", &saved);
    assert_eq!(c.turn as usize, saved.turns.len());
    assert_eq!(c.turn, 1);
    assert_eq!(resumed_prompt("sys", ""), "sys");
    assert_eq!(resumed_prompt("sys", "ctx"), "sys\n\n[이전 대화 기록]\nctx");
    let lines = build_initial_lines(&saved);
    assert_eq!(lines.len(), 2);
    assert_eq!((lines[0].role, lines[0].text.as_str()), (Role::User, "q"));
    assert_eq!((lines[1].role, lines[1].text.as_str()), (Role::Assistant, "a"));
}

#[test]
fn turn_goes_on_after_a_handoff() {
    let mut t = Turn::begin("task");
    t.note_run(1);
    let handed = segment(SegmentStatus::Completed, "part", Some(HandoffDecision::Handoff));
    assert!(t.advance(EN, &handed, &["a.rs".to_string()], 1).is_none());
    assert_eq!((t.depth, t.parent_run_id), (1, Some(1)));
    assert!(t.prompt.contains("과제"));
    let done = t
        .advance(EN, &segment(SegmentStatus::Completed, " ", None), &["a.rs".to_string()], 2)
        .unwrap();
    assert_eq!(done.exit_code, EXIT_OK);
    assert_eq!(done.assistant_content, "part");
    assert_eq!(done.reasoning_content, "thought thought ");
    assert_eq!((done.input_tokens, done.output_tokens), (10, 14));
    assert_eq!(done.files_touched, vec!["a.rs"]);
}

#[test]
fn turn_tells_how_it_ended() {
    let cases = [
        (SegmentStatus::Failed, EXIT_OK, format!("x\n\n{FAILED_NOTE}")),
        (SegmentStatus::Incomplete, EXIT_OK, format!("x\n\n{INCOMPLETE_NOTE}")),
        (SegmentStatus::Interrupted, EXIT_INTERRUPTED, "x".to_string()),
    ];
    for (status, code, content) in cases {
        let mut t = Turn::begin("task");
        let r = t.advance(EN, &segment(status, "x", None), &[], 1).unwrap();
        assert_eq!((r.exit_code, r.assistant_content), (code, content));
    }
    assert_eq!(Turn::begin("task").interrupted(3).exit_code, EXIT_INTERRUPTED);
}

#[test]
fn notes_are_found_behind_answers() {
    assert_eq!(with_status_note(" ".to_string(), "n"), "n");
    assert_eq!(with_status_note("a".to_string(), "n"), "a\n\nn");
    for lang in Language::ALL {
        for note in [FAILED_NOTE, INCOMPLETE_NOTE] {
            let shown = bulti::i18n::translate(lang, note);
            let content = with_status_note("a".to_string(), shown);
            assert_eq!(strip_status_note(lang, &content), shown);
        }
    }
    assert_eq!(strip_status_note(EN, "plain"), "");
}

#[test]
fn turns_are_shown_at_the_end() {
    let mut t = Turn::begin("task");
    let r = t.advance(EN, &segment(SegmentStatus::Failed, "x", None), &[], 1).unwrap();
    assert_eq!(turn_lines(EN, &r, true, false), vec!["", FAILED_NOTE]);
    let shown = turn_lines(EN, &r, false, false);
    assert_eq!(shown[0], "\n[생각] thought ");
    assert!(shown[1].contains("x"));
    assert_eq!(color("a", true), "\x1b[36ma\x1b[0m");
    assert_eq!(color("a", false), "a");
}

#[test]
fn first_endpoint_is_set_up() {
    let mut setup = Setup::begin(EN, true).ok().unwrap();
    assert!(Setup::begin(EN, false).is_err());
    assert_eq!(setup.question(EN), "Endpoint name (default: main): ");
    assert!(matches!(
        setup.take(EN, &Input::Line(" ".to_string())),
        SetupOutcome::Ask
    ));
    assert_eq!(setup.step, SetupStep::Url);
    setup.take(EN, &Input::Line(" http://x/v1 ".to_string()));
    setup.take(EN, &Input::Line("m".to_string()));
    match setup.take(EN, &Input::Ended) {
        SetupOutcome::Done(name, ep) => {
            assert_eq!((name.as_str(), ep.url.as_str(), ep.model.as_str()), ("main", "http://x/v1", "m"));
            assert_eq!(ep.api_key, None);
            let mut cfg = Config::new();
            register(&mut cfg, EN, &name, &ep);
            assert_eq!(cfg.active_endpoint.as_deref(), Some("main"));
        }
        _ => panic!("an endpoint was expected"),
    }
}

#[test]
fn setup_ends_without_its_answers() {
    let messages = |inputs: &[Input]| -> String {
        let mut setup = Setup::begin(EN, true).ok().unwrap();
        let mut last = String::new();
        for i in inputs {
            if let SetupOutcome::Aborted(s) = setup.take(EN, i) {
                last = s;
            }
        }
        last
    };
    assert_eq!(messages(&[Input::Ended]), "EOF — configuration aborted");
    assert_eq!(messages(&[Input::Failed("e".to_string())]), "Input error: e");
    assert_eq!(messages(&[Input::Line("n".to_string()), Input::Ended]), "URL is required");
    assert_eq!(
        messages(&[
            Input::Line("n".to_string()),
            Input::Line("u".to_string()),
            Input::Line(" ".to_string()),
        ]),
        "Model name is required"
    );
}

#[test]
fn conversations_are_summarized() {
    let mut s = Session::new("id", "main", "m", "t0");
    s.push_turn(turn("q", "a"), "t1");
    let request = compact_request(EN, "m", &s.conversation_context());
    assert_eq!((request.max_tokens, request.temperature_pct), (4096, Some(20)));
    assert!(request.messages[0].content.as_ref().unwrap().ends_with("[모델]\na\n\n"));
    let failed = compact(EN, &mut s, Err("e".to_string()));
    assert!(!failed.changed);
    assert_eq!(failed.message, "Compaction failed (existing session kept): e");
    let empty = compact(EN, &mut s, Ok(" ".to_string()));
    assert!(!empty.changed);
    assert_eq!(s.turns[0].user, "q");
    let done = compact(EN, &mut s, Ok("short".to_string()));
    assert!(done.changed);
    assert_eq!(s.turns.len(), 1);
    assert_eq!(s.turns[0].assistant, "short");
    assert_eq!(s.turns[0].user, "[compacted conversation summary]");
}

#[test]
fn sessions_are_described() {
    let mut s = Session::new("id", "main", "m", "t0");
    s.push_turn(turn("q", "a"), "t1");
    let info = session_info_text(EN, &s, 0, "/w");
    assert!(info.contains("Session id: id"));
    assert!(info.contains("cwd: /w"));
    assert!(info.contains("not set"));
    assert_eq!(share_of_context(50, 100), Some(50));
    assert_eq!(share_of_context(u64::MAX / 100, 1), Some(999));
    assert_eq!(share_of_context(u64::MAX, 1), None);
    assert_eq!(share_of_context(1, 0), None);
    let usage = usage_text(EN, &s, &Some("0.0001".to_string()));
    assert_eq!(usage, "Session total: ↑3 ↓4 (1 turns)\n  m: ↑3 ↓4\nCost: $0.0001");
    assert!(usage_text(EN, &s, &None).contains("Cost: —"));
    let metas = vec![meta_of("id", &s)];
    assert_eq!(
        sessions_list_text(EN, &Ok(metas.clone())),
        "id  Turn=1  Model=m  Updated=t1\n"
    );
    assert_eq!(sessions_list_text(EN, &Ok(vec![])), "No sessions.");
    assert_eq!(
        sessions_list_text(EN, &Err("e".to_string())),
        "Failed to list sessions: e"
    );
    let many: Vec<_> = (0..12).map(|_| metas[0].clone()).collect();
    let text = resume_suggest_text(EN, &Ok(many));
    assert_eq!(text.matches("/resume id").count(), 10);
    assert!(text.contains("and 2 more"));
    assert!(resume_suggest_text(EN, &Ok(vec![])).contains("(no sessions)"));
    assert!(resume_suggest_text(EN, &Err("e".to_string())).contains("e"));
}

#[test]
fn earlier_prompts_are_searched() {
    let mut prompts: Vec<String> = (0..30).map(|i| format!("Prompt {i}\nmore")).collect();
    prompts.push("x".repeat(80));
    let all = history_lines(EN, &prompts, "");
    assert_eq!(all.len(), 20);
    assert_eq!(all[0], "  Prompt 0");
    assert_eq!(history_lines(EN, &prompts, "prompt 29"), vec!["  Prompt 29"]);
    assert_eq!(history_lines(EN, &prompts, "xx"), vec![format!("  {}…", "x".repeat(70))]);
    assert_eq!(history_lines(EN, &prompts, "nope"), vec!["  (no history)"]);
}

#[test]
fn copies_and_exports_are_told_of() {
    assert_eq!(
        fork_message(EN, &Ok("n".to_string())),
        "Forked the session. New session id: n (resume: /resume n)"
    );
    assert_eq!(fork_message(EN, &Err("e".to_string())), "Session fork failed: e");
    assert_eq!(
        export_message(EN, &Ok("x.md".to_string())),
        "Exported conversation history to x.md."
    );
    assert_eq!(export_message(EN, &Err("e".to_string())), "Export failed: e");
}

#[test]
fn conversations_end_at_the_end_of_input() {
    assert!(end_of_input(EN, &Input::Line("x".to_string())).is_none());
    assert_eq!(
        end_of_input(EN, &Input::Failed("e".to_string())),
        Some((EXIT_ERROR, "Input read error: e".to_string()))
    );
    assert_eq!(end_of_input(EN, &Input::Ended).unwrap().0, EXIT_OK);
    assert_eq!(first_prompt(&Some(" hi ".to_string())).as_deref(), Some("hi"));
    assert_eq!(first_prompt(&Some("  ".to_string())), None);
    assert_eq!(first_prompt(&None), None);
}

#[test]
fn escape_sequences_are_removed() {
    assert_eq!(strip_ansi("\x1b[2mdim\x1b[0m"), "dim");
    assert_eq!(strip_ansi("a\x1bb"), "a\x1bb");
    assert_eq!(strip_ansi("\x1b[31"), "");
    let long = format!("\x1b[{}m", "1".repeat(70));
    assert_eq!(strip_ansi(&long), format!("{}m", "1".repeat(7)));
}

#[test]
fn replies_are_written_once() {
    let mut p = StreamPrinter::new(false);
    assert!(p.finalize().is_none());
    let mut written = String::new();
    for piece in ["Hello ", "world.\n", "\nSecond", " part.\n\n", "End"] {
        written.push_str(&p.print_content(piece));
    }
    assert!(written.contains("Hello world."));
    assert!(!written.contains("End"));
    written.push_str(&p.finalize().unwrap());
    assert_eq!(written.matches("Hello world.").count(), 1);
    assert_eq!(written.matches("Second part.").count(), 1);
    assert!(written.ends_with("\n"));
    assert!(written.contains("End"));
}

#[test]
fn lists_and_code_wait_for_their_end() {
    let mut p = StreamPrinter::new(false);
    assert_eq!(p.print_content("- a\n\n"), "");
    assert_eq!(p.print_content("- b\n\nText.\n\n"), "• a\n• b\n\nText.\n\n");
    assert_eq!(p.print_content("```\nx\n\ny"), "");
    let rest = p.finalize().unwrap();
    assert!(!rest.contains("Text."));
    assert!(rest.contains("x\n\ny\n"));
}

#[test]
fn thoughts_stand_under_their_title() {
    let mut p = StreamPrinter::new(false);
    let first = p.print_reasoning("one\n\n");
    assert_eq!(first, "[생각] one\n\n");
    assert_eq!(p.print_reasoning("two"), "");
    assert_eq!(p.print_content("Answer.\n\n"), "two\n\nAnswer.\n\n");
    assert_eq!(p.finalize().unwrap(), "\n");
    let mut colored = StreamPrinter::new(true);
    colored.print_reasoning("x");
    assert_eq!(colored.finalize().unwrap(), "\x1b[2m[생각] x\n\x1b[0m\n");
}

#[test]
fn conversations_end_with_a_code() {
    assert_eq!(
        end_of_interrupt(EN, true),
        Some((EXIT_INTERRUPTED, "SIGINT received — ending conversation".to_string()))
    );
    assert_eq!(end_of_interrupt(EN, false), None);
    let mut c = chat();
    let leave = c.input(EN, Surface::Console, "/exit");
    assert_eq!(end_of_action(&leave).map(|e| e.0), Some(EXIT_OK));
    let go_on = c.input(EN, Surface::Console, "hello");
    assert!(end_of_action(&go_on).is_none());
    assert_eq!(end_of_turn(&Turn::begin("task").interrupted(3)), Some(130));
    let mut answered = Turn::begin("task").interrupted(3);
    answered.exit_code = EXIT_OK;
    assert_eq!(end_of_turn(&answered), None);
}
