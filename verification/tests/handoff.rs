//! Handoffs between segments.
use bulti::agent::handoff::{
    build_handoff_messages, build_handoff_prompt, build_new_segment_prompt, chain_status, handoff_max_tokens,
    is_handoff_summary_acceptable, parse_handoff_response, should_attempt_handoff,
    HandoffDepthGuard, HandoffResponse, HANDOFF_SECTIONS, NEXT_TASK_MARKER,
};
use bulti::llm::{ChatAccumulator, ChatChoice, ChatChunk, Delta, Message, Usage};

fn msg(role: &str, content: &str) -> Message {
    Message::text(role, content.to_string())
}

fn good_summary() -> String {
    "1. 원 요청/의도: 자동 컨텍스트 핸드오프 구현.
2. 핵심 기술/개념: 토큰 추정, 9섹션 요약.
3. 열람·변경 파일: src/agent/handoff.rs.
4. 한 일: 트리거·파서·품질 게이트 구현.
5. 실패·수정: clippy 오류 수정.
6. 현재 진행: 단위 테스트 작성 중.
7. 남은 작업: e2e 테스트.
8. 하지 말 것: 세션 재사용 금지.
9. 다음 한 걸음: wiremock e2e 테스트.
"
    .to_string()
}

#[test]
fn trigger_when_estimate_reaches_threshold() {
    let messages = vec![
        msg("system", "s"),
        msg("user", &"x".repeat(300)),
    ];
    assert!(should_attempt_handoff(&messages, 100, 75));
}

#[test]
fn no_trigger_below_threshold() {
    let messages = vec![
        msg("system", "s"),
        msg("user", &"x".repeat(200)),
    ];
    assert!(!should_attempt_handoff(&messages, 100, 75));
}

#[test]
fn no_trigger_when_ctx_zero() {
    let messages = vec![msg("user", "hi")];
    assert!(!should_attempt_handoff(&messages, 0, 75));
}

#[test]
fn threshold_boundary_exact() {
    let messages = vec![msg("user", &"x".repeat(300))];
    assert!(should_attempt_handoff(&messages, 100, 75));
}

#[test]
fn parses_summary_and_next_task() {
    let content = format!(
        "9섹션 요약 내용\n\n{marker}\n다음 과제: 파일 수정",
        marker = NEXT_TASK_MARKER
    );
    let parsed = parse_handoff_response(&content);
    assert_eq!(parsed.summary, "9섹션 요약 내용");
    assert_eq!(parsed.next_task, "다음 과제: 파일 수정");
}

#[test]
fn parses_no_next_task_as_complete() {
    let content = "9섹션 요약 내용\n\n작업 완료".to_string();
    let parsed = parse_handoff_response(&content);
    assert_eq!(parsed.summary, "9섹션 요약 내용\n\n작업 완료");
    assert!(parsed.next_task.is_empty());
}

#[test]
fn detects_sections() {
    let parsed = parse_handoff_response(&good_summary());
    assert_eq!(parsed.sections.len(), 9);
}

#[test]
fn detects_no_sections() {
    let parsed = parse_handoff_response("아무 내용 없음");
    assert!(parsed.sections.is_empty());
}

#[test]
fn gate_accepts_good_summary() {
    assert!(is_handoff_summary_acceptable(&good_summary()));
}

#[test]
fn gate_rejects_short_summary() {
    let short = "원 요청 열람 한 일 남은 작업 하지 말 짧음";
    assert!(!is_handoff_summary_acceptable(short));
}

#[test]
fn gate_rejects_missing_keywords() {
    let mut s = "x".repeat(300);
    s.push_str("원 요청 열람 한 일");
    assert!(!is_handoff_summary_acceptable(&s));
}

#[test]
fn gate_rejects_degenerate_line_repeat() {
    let mut s = good_summary();
    for _ in 0..8 {
        s.push_str("반복 라인\n");
    }
    assert!(!is_handoff_summary_acceptable(&s));
}

#[test]
fn gate_rejects_degenerate_fffd() {
    let mut s = good_summary();
    s.push_str(&"\u{FFFD}".repeat(300));
    assert!(!is_handoff_summary_acceptable(&s));
}

#[test]
fn gate_accepts_fffd_below_ratio() {
    let mut s = good_summary();
    s.push_str("\u{FFFD}\u{FFFD}");
    assert!(is_handoff_summary_acceptable(&s));
}

#[test]
fn depth_warn_at_8() {
    let g = HandoffDepthGuard { depth: 8 };
    assert!(g.should_warn());
    assert!(!g.runaway());
}

#[test]
fn depth_runaway_at_12() {
    let g = HandoffDepthGuard { depth: 12 };
    assert!(g.should_warn());
    assert!(g.runaway());
}

#[test]
fn depth_below_warn() {
    let g = HandoffDepthGuard { depth: 0 };
    assert!(!g.should_warn());
    assert!(!g.runaway());
}

#[test]
fn depth_increment() {
    let mut g = HandoffDepthGuard::new();
    g.increment();
    assert_eq!(g.depth, 1);
}

#[test]
fn chain_all_completed() {
    assert_eq!(chain_status(&["completed", "completed"]), "completed");
}

#[test]
fn chain_inherits_failure() {
    assert_eq!(chain_status(&["completed", "failed"]), "incomplete");
    assert_eq!(chain_status(&["incomplete", "completed"]), "incomplete");
}

#[test]
fn handoff_max_tokens_is_ctx_div_4() {
    assert_eq!(handoff_max_tokens(4096), 1024);
    assert_eq!(handoff_max_tokens(1), 1);
}

#[test]
fn new_segment_prompt_contains_marker_and_task() {
    let h = HandoffResponse {
        summary: "요약".to_string(),
        next_task: "과제".to_string(),
        sections: vec![],
    };
    let p = build_new_segment_prompt(&h);
    assert!(p.contains(NEXT_TASK_MARKER));
    assert!(p.contains("과제"));
}

#[test]
fn handoff_prompt_has_all_9_sections() {
    let p = build_handoff_prompt();
    for (i, s) in HANDOFF_SECTIONS.iter().enumerate() {
        assert!(p.contains(&format!("{}. {}", i + 1, s)));
    }
    assert!(p.contains(NEXT_TASK_MARKER));
}

/// The reply whose only piece with a text is the given one.
fn streamed(content: &str) -> String {
    let delta = |content: Option<&str>| Delta {
        content: content.map(|s| s.to_string()),
        reasoning_content: None,
        tool_calls: vec![],
        tool_call_event: None,
    };
    let mut reply = ChatAccumulator::new();
    reply.push(&ChatChunk {
        choices: Some(vec![ChatChoice { delta: delta(Some(content)), finish_reason: None }]),
        usage: None,
    });
    reply.push(&ChatChunk {
        choices: Some(vec![ChatChoice {
            delta: delta(None),
            finish_reason: Some("stop".to_string()),
        }]),
        usage: Some(Usage {
            prompt_tokens: Some(10),
            completion_tokens: Some(5),
            total_tokens: Some(15),
        }),
    });
    match reply.finish() {
        Ok(r) => r.content.unwrap(),
        Err(e) => panic!("{}", e.message()),
    }
}

#[test]
fn e2e_handoff_trigger_and_next_task() {
    let big_user = "x".repeat(13000);
    let messages = vec![msg("system", "sys"), msg("user", &big_user)];
    assert!(should_attempt_handoff(&messages, 4096, 75));

    let asked = build_handoff_messages("시스템", &build_handoff_prompt());
    assert_eq!(asked.len(), 2);
    assert_eq!(asked[0].role, "system");
    assert_eq!(asked[0].content.as_deref(), Some("시스템"));
    assert_eq!(asked[1].content, Some(build_handoff_prompt()));

    let parsed = parse_handoff_response(&streamed("작업 진행"));
    assert_eq!(parsed.summary, "작업 진행");
    assert!(!is_handoff_summary_acceptable(&parsed.summary));
}

#[test]
fn e2e_handoff_gate_pass_and_new_segment() {
    let summary = format!(
        "{}{}\n다음 과제: e2e 테스트 작성 완료 후 커밋\n",
        good_summary(),
        NEXT_TASK_MARKER
    );
    let parsed = parse_handoff_response(&streamed(&summary));
    assert!(is_handoff_summary_acceptable(&parsed.summary));
    assert!(!parsed.next_task.is_empty());
    let new_prompt = build_new_segment_prompt(&parsed);
    assert!(new_prompt.contains(NEXT_TASK_MARKER));
    assert!(new_prompt.contains("다음 과제"));
}

#[test]
fn e2e_handoff_no_next_task_chain_complete() {
    let summary = "1. 원 요청/의도: 자동 컨텍스트 핸드오프 구현.
2. 핵심 기술/개념: 토큰 추정, 9섹션 요약.
3. 열람·변경 파일: src/agent/handoff.rs.
4. 한 일: 트리거·파서·품질 게이트 구현.
5. 실패·수정: clippy 오류 수정.
6. 현재 진행: 단위 테스트 작성 중.
7. 남은 작업: 없음.
8. 하지 말 것: 세션 재사용 금지.
9. 다음 한 걸음: 없음.
작업 완료
";
    let parsed = parse_handoff_response(&streamed(summary));
    assert!(is_handoff_summary_acceptable(&parsed.summary));
    assert!(parsed.next_task.is_empty());
    assert_eq!(chain_status(&["completed", "completed"]), "completed");
}
