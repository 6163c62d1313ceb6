//! Saved conversations.
use bulti::cli::session_cmd::{deleted, list};
use bulti::completion::load_history_sources;
use bulti::i18n::Language;
use bulti::session::{
    meta_of, session_path, sessions_dir, sort_newest_first, Session, SessionError, TurnRecord,
};

fn turn(n: u32, user: &str, assistant: &str, model: &str, tokens: (u64, u64)) -> TurnRecord {
    TurnRecord {
        turn: n,
        user: user.to_string(),
        assistant: assistant.to_string(),
        chain_id: "c".to_string(),
        files_touched: vec![],
        input_tokens: tokens.0,
        output_tokens: tokens.1,
        model: model.to_string(),
    }
}

fn temp_session() -> Session {
    Session::new("sess-1", "local", "model-x", "2026-09-06T01:00:00Z")
}

#[test]
fn conversation_context_includes_turns() {
    let mut session = temp_session();
    session.push_turn(turn(0, "질문1", "답변1", "", (0, 0)), "2026-09-06T01:00:01Z");
    let ctx = session.conversation_context();
    assert!(ctx.contains("질문1"));
    assert!(ctx.contains("답변1"));
    assert!(ctx.contains("[사용자]"));
    assert!(ctx.contains("[모델]"));
    assert_eq!(ctx, "[사용자]\n질문1\n\n[모델]\n답변1\n\n");
    assert_eq!(session.updated_at, "2026-09-06T01:00:01Z");
    assert_eq!(session.created_at, "2026-09-06T01:00:00Z");
}

#[test]
fn newest_session_comes_first() {
    let mut s1 = Session::new("a", "local", "m", "t");
    s1.updated_at = "2026-09-06T01:00:00Z".to_string();
    let mut s2 = Session::new("b", "local", "m", "t");
    s2.updated_at = "2026-09-06T02:00:00Z".to_string();
    let metas = sort_newest_first(vec![meta_of("a", &s1), meta_of("b", &s2)]);
    assert_eq!(metas[0].id, "b");
    assert_eq!(metas[1].id, "a");
    let lines = list(&metas, Language::En);
    assert_eq!(lines.len(), 3);
    assert!(lines[1].starts_with("b "));
    assert_eq!(list(&[], Language::En), vec!["No sessions.".to_string()]);
    assert_eq!(deleted("a", Language::En), "Deleted session 'a'.");
}

#[test]
fn tokens_are_summed_up_for_each_model() {
    let mut s = temp_session();
    s.push_turn(turn(0, "a", "b", "m1", (10, 1)), "t");
    s.push_turn(turn(1, "a", "b", "m2", (20, 2)), "t");
    s.push_turn(turn(2, "a", "b", "m1", (30, 3)), "t");
    s.push_turn(turn(3, "a", "b", "", (40, 4)), "t");
    assert_eq!(s.total_input_tokens(), 100);
    assert_eq!(s.total_output_tokens(), 10);
    let usage = s.per_model_usage();
    assert_eq!(usage.len(), 2);
    assert_eq!((usage[0].model.as_str(), usage[0].input_tokens), ("m1", 40));
    assert_eq!((usage[1].model.as_str(), usage[1].output_tokens), ("m2", 2));
    s.push_turn(turn(4, "a", "b", "m1", (u64::MAX, 0)), "t");
    assert_eq!(s.total_input_tokens(), u64::MAX);
}

#[test]
fn copies_and_exports_hold_the_turns() {
    let mut s = temp_session();
    s.push_turn(turn(0, "question", "answer", "m", (1, 1)), "t1");
    let copy = s.fork("sess-2", "t2");
    assert_eq!(copy.session_id, "sess-2");
    assert_eq!(copy.turns, s.turns);
    let text = s.export_markdown();
    assert!(text.contains("sess-1"));
    assert!(text.contains("question"));
    assert!(text.contains("answer"));
    assert_eq!(s.clone(), s);
    assert!(s.estimate_tokens() > 0);
}

#[test]
fn session_files_stand_in_their_directory() {
    assert_eq!(sessions_dir("/home/me/.bulti"), "/home/me/.bulti/sessions");
    assert_eq!(session_path("/home/me/.bulti", "x"), "/home/me/.bulti/sessions/x.json");
    assert_eq!(
        SessionError::NotFound("x".to_string()).message(),
        "세션 'x' 을(를) 찾을 수 없습니다"
    );
    assert_eq!(SessionError::Read("e".to_string()).message(), "세션 파일 읽기 실패: e");
    assert_eq!(SessionError::Write("e".to_string()).message(), "세션 파일 쓰기 실패: e");
    assert_eq!(SessionError::Json("e".to_string()).message(), "JSON 직렬화 실패: e");
    assert_eq!(
        SessionError::HomeDirNotFound("e".to_string()).message(),
        "홈 디렉터리를 찾을 수 없습니다: e"
    );
}

#[test]
fn earlier_prompts_are_listed_once() {
    let runs = vec![" a ".to_string(), "/help".to_string(), "b".to_string()];
    let turns = vec!["a".to_string(), "  ".to_string(), "c".to_string()];
    assert_eq!(load_history_sources(&runs, &turns), vec!["a", "b", "c"]);
}
