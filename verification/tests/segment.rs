//! A segment: the model is asked, its tools are called, and it hands over.
use bulti::agent::handoff::HandoffDecision;
use bulti::agent::loop_::{
    chain_status, is_state_change_tool, Reaction, Segment, SegmentParams, SegmentStatus,
    SegmentStep, DO_IT_NOW, DO_NOT_PAUSE,
};
use bulti::config::EndpointConfig;
use bulti::json::Json;
use bulti::llm::{ChatResponse, LlmError, ToolCall, Usage};
use bulti::tools::read_file;
use bulti::tools::read_file::ReadState;

fn params(max_iterations: u32) -> SegmentParams {
    SegmentParams {
        endpoint: EndpointConfig {
            url: "http://127.0.0.1:1/v1".to_string(),
            api_key: None,
            model: "m".to_string(),
            context_tokens: 0,
            vision: false,
            thinking: false,
            max_iterations,
            reasoning_effort: None,
            input_price_per_mtok: None,
            output_price_per_mtok: None,
        },
        temperature_pct: None,
        system_prompt: "시스템".to_string(),
        user_prompt: "유저".to_string(),
        max_iterations,
        context_tokens: 0,
        handoff_threshold_pct: 75,
        max_handoff_depth: 12,
        handoff_warn_depth: 8,
    }
}

fn reply(content: Option<&str>, reasoning: Option<&str>, calls: Vec<ToolCall>) -> ChatResponse {
    ChatResponse {
        content: content.map(|s| s.to_string()),
        reasoning_content: reasoning.map(|s| s.to_string()),
        tool_calls: calls,
        finish_reason: "stop".to_string(),
        usage: Usage {
            prompt_tokens: Some(10),
            completion_tokens: Some(5),
            total_tokens: Some(15),
        },
        incomplete: false,
    }
}

fn call(name: &str, args: &str) -> ToolCall {
    ToolCall {
        id: Some("call_1".to_string()),
        name: name.to_string(),
        arguments: Json::parse(args).unwrap(),
    }
}

#[test]
fn segment_completes_when_stop_without_next_task() {
    let mut s = Segment::begin(params(100), vec![], 0);
    assert!(matches!(s.next(vec![]), SegmentStep::AskModel(_)));
    let text = "1. 원 요청/의도\n남은 작업: 없음, 모든 작업이 완료됨\n===NEXT_TASK===\n";
    match s.on_reply(Ok(reply(Some(text), None, vec![])), vec![]) {
        Reaction::Finished(r) => {
            assert_eq!(r.status, SegmentStatus::Completed);
            assert_eq!(r.handoff, Some(HandoffDecision::Complete));
        }
        _ => panic!("the segment should end"),
    }
}

#[test]
fn segment_failed_on_network_error() {
    let mut s = Segment::begin(params(100), vec![], 0);
    assert!(matches!(s.next(vec![]), SegmentStep::AskModel(_)));
    match s.on_reply(Err(LlmError::Network("refused".to_string())), vec![]) {
        Reaction::Finished(r) => assert_eq!(r.status, SegmentStatus::Failed),
        _ => panic!("the segment should end"),
    }
}

#[test]
fn segment_incomplete_on_max_iterations() {
    let mut s = Segment::begin(params(1), vec![], 0);
    assert!(matches!(s.next(vec![]), SegmentStep::AskModel(_)));
    assert!(matches!(
        s.on_reply(Ok(reply(Some(""), None, vec![])), vec![]),
        Reaction::Again
    ));
    match s.next(vec![]) {
        SegmentStep::Finished(r) => assert_eq!(r.status, SegmentStatus::Incomplete),
        _ => panic!("the segment should end"),
    }
}

#[test]
fn greeting_completes_without_handoff_request() {
    let mut p = params(10);
    p.context_tokens = 4096;
    p.user_prompt = "안녕?".to_string();
    let mut s = Segment::begin(p, vec![], 0);
    assert!(matches!(s.next(vec![]), SegmentStep::AskModel(_)));
    match s.on_reply(Ok(reply(Some("안녕하세요! 무엇을 도와드릴까요?"), None, vec![])), vec![]) {
        Reaction::Finished(r) => {
            assert_eq!(r.status, SegmentStatus::Completed);
            assert_eq!(r.handoff, Some(HandoffDecision::Complete));
            assert!(r.content.contains("안녕하세요"));
            assert!(r.handoff_response.is_none());
        }
        _ => panic!("the segment should end"),
    }
}

#[test]
fn reasoning_only_completes_as_reply() {
    let mut s = Segment::begin(params(10), vec![], 0);
    assert!(matches!(s.next(vec![]), SegmentStep::AskModel(_)));
    let r = reply(None, Some("안녕하세요, 도와드리겠습니다."), vec![]);
    match s.on_reply(Ok(r), vec![]) {
        Reaction::Finished(r) => {
            assert_eq!(r.status, SegmentStatus::Completed);
            assert!(r.content.contains("안녕하세요"));
        }
        _ => panic!("the segment should end"),
    }
}

#[test]
fn handoff_before_request_when_context_full() {
    let mut p = params(10);
    p.context_tokens = 100;
    p.handoff_threshold_pct = 50;
    p.user_prompt = "x".repeat(400);
    let mut s = Segment::begin(p, vec![], 0);
    match s.next(vec![]) {
        SegmentStep::AskHandoff(req) => {
            assert!(req.tools.is_empty());
            assert_eq!(req.max_tokens, 25);
        }
        _ => panic!("a handoff should be asked for"),
    }
    let summary = "1. 원 요청/의도\n\
컨텍스트가 임계를 넘긴 상태에서 핸드오프가 본 요청보다 먼저 일어나는지 검증한다.\n\
2. 핵심 기술/개념\n\
토큰 추정과 should_attempt_handoff 트리거, 9섹션 요약 게이트.\n\
3. 열람·변경 파일: src/agent/loop_.rs 를 열람하고 테스트를 추가한다.\n\
4. 한 일: 컨텍스트 임계에서 핸드오프를 시도하도록 루프 순서를 고친다.\n\
5. 실패·수정: 짧은 인사에서 핸드오프가 발동하던 문제를 제거한다.\n\
6. 현재 진행: 단위 테스트로 임계 초과 경로를 고정한다.\n\
7. 남은 작업: 후속 세그먼트에서 이어서 진행한다.\n\
8. 하지 말 것: 임계 미만에서 핸드오프하지 말 것, 테스트 mock 은 본 요청과 혼동하지 말 것.\n\
9. 다음 한 걸음: NEXT_TASK 의 과제를 실행한다.\n\
===NEXT_TASK===\n이어서 구현하라";
    let r = s.on_handoff(Ok(reply(Some(summary), None, vec![])), vec![]).unwrap();
    assert_eq!(r.status, SegmentStatus::Completed);
    assert_eq!(r.handoff, Some(HandoffDecision::Handoff));
    assert!(r.handoff_response.is_some());
    assert!(!r.handoff_response.unwrap().next_task.trim().is_empty());
}

#[test]
fn tools_are_called_and_answered() {
    let mut s = Segment::begin(params(10), vec![], 0);
    assert!(matches!(s.next(vec![]), SegmentStep::AskModel(_)));
    let calls = vec![call("bash", "{\"command\":\"ls\"}")];
    let calls = match s.on_reply(Ok(reply(Some("I will look."), None, calls)), vec![]) {
        Reaction::RunTools(calls) => calls,
        _ => panic!("tools should be called"),
    };
    assert_eq!(calls[0].name, "bash");
    let before = s.messages.len();
    s.on_tool_result(&calls[0], Ok("a.rs".to_string()));
    assert_eq!(s.messages.len(), before + 2);
    assert_eq!(s.messages[before].role, "assistant");
    assert_eq!(s.messages[before + 1].role, "tool");
    assert_eq!(s.messages[before + 1].content.as_deref(), Some("a.rs"));
    assert_eq!((s.input_tokens, s.output_tokens), (10, 5));
}

#[test]
fn same_call_again_and_again_is_stopped() {
    let mut s = Segment::begin(params(20), vec![], 0);
    let mut ended = false;
    for _ in 0..6 {
        if !matches!(s.next(vec![]), SegmentStep::AskModel(_)) {
            break;
        }
        let calls = vec![call("bash", "{\"command\":\"ls\"}")];
        match s.on_reply(Ok(reply(Some("again"), None, calls)), vec![]) {
            Reaction::RunTools(calls) => s.on_tool_result(&calls[0], Ok("x".to_string())),
            Reaction::Guarded(r, reason) => {
                assert_eq!(r.status, SegmentStatus::Incomplete);
                assert!(reason.contains("incomplete"));
                ended = true;
                break;
            }
            _ => panic!("unexpected"),
        }
    }
    assert!(ended);
}

#[test]
fn tools_that_change_the_state() {
    assert!(is_state_change_tool("write_file"));
    assert!(!is_state_change_tool("read_file"));
}

#[test]
fn chain_status_aggregates() {
    let completed = [
        SegmentStatus::Completed,
        SegmentStatus::Completed,
        SegmentStatus::Completed,
    ];
    assert_eq!(chain_status(&completed), "completed");
    let mixed = [
        SegmentStatus::Completed,
        SegmentStatus::Incomplete,
        SegmentStatus::Completed,
    ];
    assert_eq!(chain_status(&mixed), "incomplete");
}

#[test]
fn segment_status_as_str() {
    assert_eq!(SegmentStatus::Completed.as_str(), "completed");
    assert_eq!(SegmentStatus::Failed.as_str(), "failed");
    assert_eq!(SegmentStatus::Incomplete.as_str(), "incomplete");
    assert_eq!(SegmentStatus::Interrupted.as_str(), "interrupted");
}

fn answer(s: &mut Segment, content: &str) -> Reaction {
    assert!(matches!(s.next(vec![]), SegmentStep::AskModel(_)));
    s.on_reply(Ok(reply(Some(content), None, vec![])), vec![])
}

fn run_tool(s: &mut Segment, name: &str, args: &str, result: &str) {
    assert!(matches!(s.next(vec![]), SegmentStep::AskModel(_)));
    match s.on_reply(Ok(reply(Some("작업 중"), None, vec![call(name, args)])), vec![]) {
        Reaction::RunTools(calls) => s.on_tool_result(&calls[0], Ok(result.to_string())),
        _ => panic!("the tool should be called"),
    }
}

#[test]
fn build_that_was_never_run_is_incomplete() {
    for tool in ["write_file", "edit_file"] {
        let mut s = Segment::begin(params(4), vec![], 0);
        run_tool(&mut s, tool, "{\"path\":\"a.rs\"}", "ok");
        assert!(s.guard.code_modified && !s.guard.bash_called);
        match answer(&mut s, "빌드가 통과했습니다.") {
            Reaction::Guarded(r, reason) => {
                assert_eq!(r.status, SegmentStatus::Incomplete);
                assert_eq!(reason, "incomplete: build verification never run");
            }
            _ => panic!("the guard should fire"),
        }
    }
}

#[test]
fn build_that_was_run_may_be_spoken_of() {
    let mut s = Segment::begin(params(4), vec![], 0);
    run_tool(&mut s, "write_file", "{\"path\":\"a.rs\"}", "ok");
    assert!(matches!(s.next(vec![]), SegmentStep::AskModel(_)));
    let calls = vec![call("bash", "{\"command\":\"cargo build\"}")];
    match s.on_reply(Ok(reply(Some("빌드를 확인합니다"), None, calls)), vec![]) {
        Reaction::RunTools(calls) => s.on_tool_result(&calls[0], Ok("ok".to_string())),
        _ => panic!("a build that is begun should be run"),
    }
    match answer(&mut s, "빌드가 통과했습니다.") {
        Reaction::Finished(r) => assert_eq!(r.status, SegmentStatus::Completed),
        _ => panic!("the segment should complete"),
    }
}

#[test]
fn reading_on_is_progress() {
    let mut s = Segment::begin(params(20), vec![], 0);
    let mut state = ReadState::new();
    let content = "a\nb\nc\nd\ne\nf\n";
    let args = "{\"path\":\"f\",\"limit\":1}";
    let request = read_file::request(&Json::parse(args).unwrap()).ok().unwrap();
    for _ in 0..6 {
        let page = read_file::read(&mut state, &request, content);
        run_tool(&mut s, "read_file", args, &page);
    }
    let mut s = Segment::begin(params(20), vec![], 0);
    for _ in 0..4 {
        run_tool(&mut s, "read_file", args, "1→a\n");
    }
    match answer(&mut s, "다 읽었습니다") {
        Reaction::Guarded(_, reason) => assert_eq!(reason, "incomplete: no progress"),
        _ => panic!("the same page again and again is no progress"),
    }
}

#[test]
fn announcements_are_nudged_twice() {
    let mut s = Segment::begin(params(20), vec![], 0);
    for _ in 0..2 {
        let before = s.messages.len();
        match answer(&mut s, "파일을 수정하겠습니다.") {
            Reaction::Nudged(reason) => assert_eq!(reason, "nudge: future intention"),
            _ => panic!("the announcement should be nudged"),
        }
        assert_eq!(s.messages.len(), before + 2);
        assert_eq!(s.messages[before].role, "assistant");
        assert_eq!(s.messages[before].content.as_deref(), Some("파일을 수정하겠습니다."));
        assert_eq!(s.messages[before + 1].content.as_deref(), Some(DO_IT_NOW));
    }
    match answer(&mut s, "파일을 수정하겠습니다.") {
        Reaction::Guarded(r, reason) => {
            assert_eq!(r.status, SegmentStatus::Incomplete);
            assert_eq!(reason, "incomplete: future intention nudge limit");
        }
        _ => panic!("the third announcement should end the segment"),
    }
}

#[test]
fn change_of_state_gives_the_nudges_back() {
    let mut s = Segment::begin(params(20), vec![], 0);
    for _ in 0..2 {
        assert!(matches!(answer(&mut s, "Let me fix it"), Reaction::Nudged(_)));
    }
    run_tool(&mut s, "write_file", "{\"path\":\"a\"}", "ok");
    for _ in 0..2 {
        assert!(matches!(answer(&mut s, "Let me fix it"), Reaction::Nudged(_)));
    }
    assert!(matches!(answer(&mut s, "Let me fix it"), Reaction::Guarded(_, _)));
}

#[test]
fn pauses_are_nudged_twice_and_then_handed_over() {
    let mut s = Segment::begin(params(20), vec![], 3);
    for _ in 0..2 {
        match answer(&mut s, "다음 세션에 이어집니다") {
            Reaction::Nudged(reason) => assert_eq!(reason, "nudge: pause-summary"),
            _ => panic!("the pause should be nudged"),
        }
        assert_eq!(s.messages[s.messages.len() - 1].content.as_deref(), Some(DO_NOT_PAUSE));
    }
    match answer(&mut s, "다음 세션에 이어집니다") {
        Reaction::Nudged(reason) => assert_eq!(reason, "handoff: pause-summary"),
        _ => panic!("the work should be handed over"),
    }
    assert!(s.handing_over);
    match s.next(vec![]) {
        SegmentStep::AskHandoff(request) => {
            assert_eq!(request.max_tokens, 4096);
            assert!(request.tools.is_empty());
        }
        _ => panic!("a handoff should be asked for"),
    }
    assert!(s.on_handoff(Ok(reply(Some("짧음"), None, vec![])), vec![]).is_none());
    assert!(!s.handing_over);
    assert!(matches!(s.next(vec![]), SegmentStep::AskModel(_)));
}

#[test]
fn paused_chain_that_ran_away_is_incomplete() {
    let mut s = Segment::begin(params(20), vec![], 12);
    for _ in 0..3 {
        assert!(matches!(answer(&mut s, "To be continued"), Reaction::Nudged(_)));
    }
    match s.next(vec![]) {
        SegmentStep::Finished(r) => assert_eq!(r.status, SegmentStatus::Incomplete),
        _ => panic!("the segment should end"),
    }
}
