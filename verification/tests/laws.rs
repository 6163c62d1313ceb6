//! What holds of several functions together, on concrete values.
use bulti::agent::context::{estimate_messages_tokens, estimate_tokens, trim_messages};
use bulti::agent::guards::{
    check_future_intention, check_stream_repetition, check_stuck_signature,
    update_after_tool_call, GuardContext, GuardOutcome,
};
use bulti::agent::handoff::{
    build_new_segment_prompt, chain_status, handoff_report_json, parse_handoff_response,
    should_attempt_handoff, HandoffDecision, HandoffDepthGuard,
};
use bulti::agent::loop_::{Reaction, Segment, SegmentParams, SegmentStatus, SegmentStep};
use bulti::cli::chat_cmd::compact_unsaved;
use bulti::cli::run_cmd::merge;
use bulti::cli::stream::{strip_ansi, StreamPrinter};
use bulti::completion::load_history_sources;
use bulti::config::{mode_from_name, Config, EndpointConfig, UpdateMode};
use bulti::endpoint::{
    active_endpoint_name, add_endpoint, is_key_sentinel, mask_api_key, remove_endpoint,
    set_endpoint_field, EndpointAddSpec,
};
use bulti::history::{files_json, now_rfc3339, parse_files_touched, RunStatus};
use bulti::i18n::{
    set_language, tr, tr_fmt, translate, translate_fmt, CurrentLanguage, Language,
};
use bulti::json::Json;
use bulti::llm::{
    ChatAccumulator, ChatChoice, ChatChunk, ChatResponse, Delta, Message, ToolCall, Usage,
};
use bulti::mcp::{parse_tool_result, ContentBlock};
use bulti::render::{parse, parse_inline, Block, Inline};
use bulti::session::{Session, TurnRecord};
use bulti::skills;
use bulti::slash::{fuzzy_match, levenshtein, resolve_alias, suggest_similar};
use bulti::tools::edit_file::{edit, EditCall};
use bulti::tools::read_file::{read, ReadCall, ReadState};
use bulti::tools::util::truncate_tool_result;
use bulti::tools::{native_registry, normalize_schema};
use bulti::uuid::make_uuid;

fn msg(role: &str, content: &str) -> Message {
    Message::text(role, content.to_string())
}

fn params(max_iterations: u32) -> SegmentParams {
    SegmentParams {
        endpoint: endpoint(),
        temperature_pct: None,
        system_prompt: "s".to_string(),
        user_prompt: "u".to_string(),
        max_iterations,
        context_tokens: 0,
        handoff_threshold_pct: 75,
        max_handoff_depth: 12,
        handoff_warn_depth: 8,
    }
}

fn endpoint() -> EndpointConfig {
    EndpointConfig {
        url: "http://127.0.0.1:1/v1".to_string(),
        api_key: None,
        model: "m".to_string(),
        context_tokens: 0,
        vision: false,
        thinking: false,
        max_iterations: 10,
        reasoning_effort: None,
        input_price_per_mtok: None,
        output_price_per_mtok: None,
    }
}

fn blank_reply() -> ChatResponse {
    ChatResponse {
        content: Some("  ".to_string()),
        reasoning_content: None,
        tool_calls: vec![],
        finish_reason: "stop".to_string(),
        usage: Usage::default(),
        incomplete: false,
    }
}

#[test]
fn joined_texts_weigh_what_their_parts_weigh() {
    assert_eq!(estimate_tokens("abcdef"), 1);
    assert_eq!(estimate_tokens("gh"), 0);
    assert_eq!(estimate_tokens("abcdefgh"), 2);
}

#[test]
fn trimming_keeps_both_ends() {
    let v = vec![
        msg("system", "s"),
        msg("user", "task"),
        msg("assistant", "one"),
        msg("user", "two"),
        msg("assistant", "three"),
    ];
    let before = estimate_messages_tokens(&v);
    let (trimmed, removed) = trim_messages(v, 2);
    let texts: Vec<&str> = trimmed.iter().map(|m| m.content.as_deref().unwrap()).collect();
    assert_eq!(texts, vec!["s", "task", "two", "three"]);
    assert_eq!(removed, 1);
    assert!(estimate_messages_tokens(&trimmed) <= before);
}

#[test]
fn four_same_calls_are_stuck_whatever_came_before() {
    let mut ctx = GuardContext::default();
    for sig in ["a", "b", "c", "x", "x", "x"] {
        update_after_tool_call(&mut ctx, sig.to_string(), false);
        assert_eq!(check_stuck_signature(&ctx), GuardOutcome::Pass);
    }
    update_after_tool_call(&mut ctx, "x".to_string(), false);
    assert_eq!(ctx.recent_signatures.len(), 4);
    assert!(matches!(check_stuck_signature(&ctx), GuardOutcome::Trigger(_)));
    update_after_tool_call(&mut ctx, "y".to_string(), true);
    assert_eq!(check_stuck_signature(&ctx), GuardOutcome::Pass);
    assert_eq!(
        check_future_intention(&ctx, 0, "I will fix it next"),
        GuardOutcome::Trigger("nudge: future intention".to_string())
    );
}

#[test]
fn repetitions_are_looked_for_at_the_end() {
    let repeated = "again\n".repeat(8);
    assert!(matches!(check_stream_repetition(&repeated), GuardOutcome::Trigger(_)));
    let close = format!("{repeated}{}", "x".repeat(4048));
    assert!(matches!(check_stream_repetition(&close), GuardOutcome::Trigger(_)));
    let far = format!("{repeated}{}", "x".repeat(4049));
    assert_eq!(check_stream_repetition(&far), GuardOutcome::Pass);
    let wide = format!("{repeated}{}", "한".repeat(1350));
    assert_eq!(check_stream_repetition(&wide), GuardOutcome::Pass);
}

#[test]
fn handoffs_survive_being_read_again() {
    let first = parse_handoff_response("  summary \n===NEXT_TASK===\n old\n===NEXT_TASK===\n task ");
    assert_eq!(first.next_task, "task");
    let again = parse_handoff_response(&build_new_segment_prompt(&first));
    assert_eq!(again.summary, first.summary);
    assert_eq!(again.next_task, first.next_task);
}

#[test]
fn handoffs_stay_due() {
    let mut v = vec![msg("user", &"x".repeat(13000))];
    assert!(should_attempt_handoff(&v, 4096, 75));
    v.push(msg("assistant", "more"));
    assert!(should_attempt_handoff(&v, 4096, 75));
    assert!(HandoffDepthGuard { depth: 12 }.runaway());
    assert!(HandoffDepthGuard { depth: 12 }.should_warn());
    assert_eq!(chain_status(&["completed", "failed", "completed"]), "incomplete");
    assert_eq!(
        handoff_report_json(&HandoffDecision::Handoff).to_text(),
        "{\"decision\":\"Handoff\"}"
    );
}

#[test]
fn segments_end_after_their_questions() {
    let mut s = Segment::begin(params(2), vec![], 0);
    for _ in 0..2 {
        assert!(matches!(s.next(vec![]), SegmentStep::AskModel(_)));
        assert!(matches!(s.on_reply(Ok(blank_reply()), vec![]), Reaction::Again));
    }
    match s.next(vec![]) {
        SegmentStep::Finished(r) => assert_eq!(r.status, SegmentStatus::Incomplete),
        _ => panic!("the segment should end"),
    }
}

#[test]
fn sixth_blank_answer_ends_the_segment() {
    let mut s = Segment::begin(params(100), vec![], 0);
    for _ in 0..5 {
        assert!(matches!(s.next(vec![]), SegmentStep::AskModel(_)));
        assert!(matches!(s.on_reply(Ok(blank_reply()), vec![]), Reaction::Again));
    }
    assert!(matches!(s.next(vec![]), SegmentStep::AskModel(_)));
    match s.on_reply(Ok(blank_reply()), vec![]) {
        Reaction::Guarded(_, reason) => assert_eq!(reason, "incomplete: empty response loop"),
        _ => panic!("the guard should fire"),
    }
    assert_eq!(s.messages[0].content.as_deref(), Some("s"));
    assert_eq!(s.messages[1].content.as_deref(), Some("u"));
}

#[test]
fn thoughts_do_not_make_up_for_an_empty_content() {
    let mut s = Segment::begin(params(100), vec![], 0);
    let thinking = || ChatResponse {
        content: None,
        reasoning_content: Some("let me see".to_string()),
        tool_calls: vec![ToolCall {
            id: None,
            name: "glob".to_string(),
            arguments: Json::Null,
        }],
        ..blank_reply()
    };
    for _ in 0..5 {
        assert!(matches!(s.next(vec![]), SegmentStep::AskModel(_)));
        assert!(matches!(s.on_reply(Ok(thinking()), vec![]), Reaction::RunTools(_)));
    }
    assert!(matches!(s.next(vec![]), SegmentStep::AskModel(_)));
    match s.on_reply(Ok(thinking()), vec![]) {
        Reaction::Guarded(_, reason) => assert_eq!(reason, "incomplete: empty response loop"),
        _ => panic!("the guard should fire"),
    }
}

#[test]
fn pieces_of_a_reply_are_joined_in_order() {
    let mut acc = ChatAccumulator::new();
    for (content, reasoning) in [(Some("a"), None), (None, Some("x")), (Some("b"), Some("y"))] {
        acc.push(&ChatChunk {
            choices: Some(vec![ChatChoice {
                delta: Delta {
                    content: content.map(|s: &str| s.to_string()),
                    reasoning_content: reasoning.map(|s: &str| s.to_string()),
                    tool_calls: vec![],
                    tool_call_event: None,
                },
                finish_reason: None,
            }]),
            usage: None,
        });
    }
    acc.push(&ChatChunk { choices: None, usage: None });
    assert_eq!(acc.content.as_deref(), Some("ab"));
    assert_eq!(acc.reasoning.as_deref(), Some("xy"));
}

#[test]
fn days_follow_each_other() {
    assert_eq!(now_rfc3339(951782399), "2000-02-28T23:59:59Z");
    assert_eq!(now_rfc3339(951782400), "2000-02-29T00:00:00Z");
    assert_eq!(now_rfc3339(951868800), "2000-03-01T00:00:00Z");
    assert_eq!(now_rfc3339(253402300799), "9999-12-31T23:59:59Z");
    assert_eq!(now_rfc3339(4107542400), "2100-03-01T00:00:00Z");
}

#[test]
fn files_are_listed_once() {
    let mut files = vec!["a".to_string(), "b".to_string()];
    merge(&mut files, &["b".to_string(), "c".to_string(), "c".to_string()]);
    assert_eq!(files, vec!["a", "b", "c"]);
    let stored = files_json(&files);
    assert_eq!(parse_files_touched(Some(&stored)), files);
}

#[test]
fn replies_in_any_pieces_are_written_once() {
    let reply = "# Title\n\nfirst\n\n- one\n- two\n\n```\ncode\n\nmore\n```\n\nlast";
    let whole = {
        let mut p = StreamPrinter::new(false);
        let begun = p.print_content(reply);
        begun + &p.finalize().unwrap()
    };
    for size in [1, 3, 7] {
        let mut p = StreamPrinter::new(false);
        let mut out = p.print_reasoning("thinking\n\nmore");
        out.push_str(&p.print_reasoning(" and more"));
        let chars: Vec<char> = reply.chars().collect();
        for piece in chars.chunks(size) {
            out.push_str(&p.print_content(&piece.iter().collect::<String>()));
        }
        out.push_str(&p.finalize().unwrap());
        assert_eq!(out, format!("[생각] thinking\n\nmore and more\n\n{whole}"));
    }
    assert_eq!(strip_ansi("no escapes"), "no escapes");
}

#[test]
fn names_are_read_back() {
    for mode in [UpdateMode::Check, UpdateMode::Download, UpdateMode::Off] {
        assert_eq!(mode_from_name(mode.as_str()), Some(mode));
    }
    for status in [
        RunStatus::Running,
        RunStatus::Completed,
        RunStatus::Failed,
        RunStatus::Incomplete,
        RunStatus::Interrupted,
    ] {
        assert_eq!(RunStatus::from_str(status.as_str()), status);
    }
    for lang in [Language::En, Language::Ko, Language::Ja] {
        assert_eq!(Language::from_code(lang.code()), Some(lang));
    }
}

#[test]
fn removing_an_endpoint_undoes_adding_it() {
    let mut cfg = Config::new();
    let spec = EndpointAddSpec {
        name: "main".to_string(),
        url: "http://127.0.0.1:1/v1".to_string(),
        api_key: Some("sk-abcdefgh".to_string()),
        model: "m".to_string(),
        context_tokens: 0,
        vision: false,
        thinking: false,
    };
    assert!(add_endpoint(&mut cfg, &spec).is_ok());
    assert_eq!(active_endpoint_name(&cfg), Some("main"));
    let shown = mask_api_key("sk-abcdefgh");
    assert_eq!(shown, "sk-a…********");
    assert!(is_key_sentinel(&shown));
    assert!(!is_key_sentinel("sk-ab…********"));
    assert!(!is_key_sentinel("sk-a…*******x"));
    assert!(set_endpoint_field(&mut cfg, "main", "api_key", &shown).is_ok());
    let kept = cfg.endpoints.get("main").unwrap();
    assert_eq!(kept.api_key.as_deref(), Some("sk-abcdefgh"));
    assert!(remove_endpoint(&mut cfg, "main").is_ok());
    assert!(cfg.endpoints.is_empty());
    assert_eq!(active_endpoint_name(&cfg), None);
    assert_eq!(mask_api_key("sk-abcdefgh"), mask_api_key("sk-axyz"));
}

#[test]
fn messages_follow_the_language() {
    let mut cell = CurrentLanguage::default();
    assert_eq!(tr(&cell, "No sessions."), "No sessions.");
    set_language(&mut cell, Language::Ko);
    assert_eq!(tr(&cell, "No sessions."), translate(Language::Ko, "No sessions."));
    assert_ne!(tr(&cell, "No sessions."), "No sessions.");
    assert_eq!(tr(&cell, "not in any catalog"), "not in any catalog");
    assert_eq!(
        tr_fmt(&cell, "Settings save failed: {e}", &["x"]),
        translate_fmt(Language::Ko, "Settings save failed: {e}", &["x"])
    );
    assert_eq!(
        compact_unsaved(Language::En, "full"),
        "Compacted the conversation into a summary. (save failed: full)"
    );
    assert_eq!(
        Language::En.response_instruction(),
        translate(Language::En, Language::En.response_instruction())
    );
    assert_ne!(Language::Ko.response_instruction(), Language::Ja.response_instruction());
}

#[test]
fn texts_come_before_structured_values() {
    let content = [ContentBlock::Text("t".to_string())];
    let value = Json::parse("{\"a\":1}").unwrap();
    assert_eq!(parse_tool_result(&content, Some(&value)), parse_tool_result(&content, None));
}

#[test]
fn plain_text_is_one_part() {
    assert_eq!(parse_inline("plain"), vec![Inline::Text("plain".to_string())]);
    assert_eq!(
        parse("a\n\nb"),
        vec![
            Block::Paragraph(vec![Inline::Text("a".to_string())]),
            Block::Blank,
            Block::Paragraph(vec![Inline::Text("b".to_string())]),
        ]
    );
}

#[test]
fn conversations_go_on() {
    let mut session = Session::new("id", "e", "m", "t0");
    let turn = |n: u32| TurnRecord {
        turn: n,
        user: format!("q{n}"),
        assistant: format!("a{n}"),
        chain_id: "c".to_string(),
        files_touched: vec![],
        input_tokens: 1,
        output_tokens: 2,
        model: "m".to_string(),
    };
    session.push_turn(turn(0), "t1");
    let before = session.conversation_context();
    session.push_turn(turn(1), "t2");
    assert!(session.conversation_context().starts_with(&before));
    assert_eq!(session.updated_at, "t2");
}

#[test]
fn first_description_of_a_skill_counts() {
    let of = |d: &str| format!("---\nname: korean-report\ndescription: {d}\n---\n");
    let found = skills::discover(&[of("project")], &[of("global")]);
    let skill = found.iter().find(|s| s.name == "korean-report").unwrap();
    assert_eq!(skill.description, "project");
}

#[test]
fn distances_are_symmetric() {
    for (a, b, d) in [("model", "modle", 2), ("", "abc", 3), ("same", "same", 0), ("한국", "한글", 1)] {
        assert_eq!(levenshtein(a, b), d);
        assert_eq!(levenshtein(b, a), d);
    }
    assert!(fuzzy_match("session-info", "sni"));
    assert!(!fuzzy_match("session-info", "inz"));
    assert!(fuzzy_match("anything", ""));
    assert_eq!(resolve_alias("quit"), "exit");
    assert!(suggest_similar("sesions").len() <= 3);
}

#[test]
fn one_occurrence_is_all_occurrences() {
    let call = |replace_all: bool, with: &str| EditCall {
        path: "p".to_string(),
        find: "once".to_string(),
        replace: with.to_string(),
        replace_all,
    };
    let one = edit(&call(false, "twice"), "only once here").unwrap().content;
    let all = edit(&call(true, "twice"), "only once here").unwrap().content;
    assert_eq!(one, "only twice here");
    assert_eq!(one, all);
    let same = edit(&call(true, "once"), "once and once").unwrap().content;
    assert_eq!(same, "once and once");
}

#[test]
fn schemas_are_normalized_once() {
    let schema = Json::parse("{\"type\":\"object\",\"required\":null}").unwrap();
    let once = normalize_schema(schema);
    assert_eq!(once.to_text(), "{\"required\":[],\"type\":\"object\"}");
    assert_eq!(normalize_schema(once.clone()), once);
}

#[test]
fn offered_tools_can_be_called() {
    let reg = native_registry(false);
    for def in reg.definitions() {
        assert!(reg.dispatch(&def.function.name).is_ok());
    }
    assert!(reg.dispatch("none").is_err());
}

#[test]
fn files_are_read_on_their_own() {
    let mut state = ReadState::new();
    let call = |path: &str| ReadCall { path: path.to_string(), offset: None, limit: 2 };
    let content = "1\n2\n3\n";
    assert!(read(&mut state, &call("a"), content).starts_with("1→1\n2→2\n"));
    assert!(read(&mut state, &call("b"), content).starts_with("1→1\n2→2\n"));
    assert!(read(&mut state, &call("a"), content).starts_with("3→3\n"));
    assert!(read(&mut state, &call("a"), content).starts_with("(이미"));
    assert!(read(&mut state, &call("b"), content).starts_with("3→3\n"));
}

#[test]
fn shortened_results_begin_alike() {
    let cut = truncate_tool_result("abcdef", "grep", 3);
    assert!(cut.starts_with("abc"));
    assert!(!cut.starts_with("abcd"));
    assert_eq!(truncate_tool_result("abc", "grep", 3), "abc");
}

#[test]
fn earlier_prompts_are_distinct() {
    let runs = vec!["a".to_string(), " a ".to_string(), "/help".to_string(), "".to_string()];
    let turns = vec!["b".to_string(), "a".to_string()];
    assert_eq!(load_history_sources(&runs, &turns), vec!["a", "b"]);
}

#[test]
fn identifiers_have_their_shape() {
    let id = make_uuid(1, 2, 3, 4);
    assert_eq!(id, "00000001-0000-4003-0000-000000000004");
    assert_eq!(id.len(), 36);
}

#[test]
fn later_seconds_have_greater_texts() {
    let times = [0, 59, 60, 3599, 3600, 86399, 86400, 951782399, 951782400, 4107542400, 253402300799];
    for pair in times.windows(2) {
        let (a, b) = (now_rfc3339(pair[0]), now_rfc3339(pair[1]));
        assert!(a < b);
        assert_eq!((a.len(), b.len()), (20, 20));
    }
}
