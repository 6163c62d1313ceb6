//! Guards against runaway answers.
use bulti::agent::guards::{
    check_build_gate, check_empty_loop, check_fffd_degenerate, check_future_intention,
    check_pause_summary, check_stream_repetition, check_stuck_signature, tool_signature,
    update_after_tool_call, GuardContext, GuardOutcome,
};
use bulti::json::Json;

#[test]
fn empty_loop_positive_at_6_turns() {
    let mut ctx = GuardContext::default();
    ctx.empty_turns = 6;
    let r = check_empty_loop(&ctx);
    assert!(matches!(r, GuardOutcome::Trigger(_)));
}

#[test]
fn empty_loop_negative_below_6_turns() {
    let mut ctx = GuardContext::default();
    ctx.empty_turns = 5;
    assert_eq!(check_empty_loop(&ctx), GuardOutcome::Pass);
}

#[test]
fn stream_repetition_positive_8_same_short_line() {
    let text = "ok\nok\nok\nok\nok\nok\nok\nok\n";
    assert!(matches!(check_stream_repetition(text), GuardOutcome::Trigger(_)));
}

#[test]
fn stream_repetition_negative_7_same_line() {
    let text = "ok\nok\nok\nok\nok\nok\nok\n";
    assert_eq!(check_stream_repetition(text), GuardOutcome::Pass);
}

#[test]
fn stream_repetition_negative_long_lines() {
    let text = "this is a long line that should not trigger\nthis is a long line that should not trigger\nthis is a long line that should not trigger\nthis is a long line that should not trigger\nthis is a long line that should not trigger\nthis is a long line that should not trigger\nthis is a long line that should not trigger\nthis is a long line that should not trigger\n";
    assert_eq!(check_stream_repetition(text), GuardOutcome::Pass);
}

#[test]
fn stuck_signature_positive_4_same() {
    let mut ctx = GuardContext::default();
    for _ in 0..4 {
        ctx.recent_signatures.push("bash:{command:ls}".to_string());
    }
    assert!(matches!(check_stuck_signature(&ctx), GuardOutcome::Trigger(_)));
}

#[test]
fn stuck_signature_negative_progress() {
    let mut ctx = GuardContext::default();
    ctx.recent_signatures.push("read_file:{path:a,offset:0}".to_string());
    ctx.recent_signatures.push("read_file:{path:a,offset:200}".to_string());
    ctx.recent_signatures.push("read_file:{path:a,offset:400}".to_string());
    ctx.recent_signatures.push("read_file:{path:a,offset:600}".to_string());
    assert_eq!(check_stuck_signature(&ctx), GuardOutcome::Pass);
}

#[test]
fn stuck_signature_negative_3_same() {
    let mut ctx = GuardContext::default();
    for _ in 0..3 {
        ctx.recent_signatures.push("bash:{command:ls}".to_string());
    }
    assert_eq!(check_stuck_signature(&ctx), GuardOutcome::Pass);
}

#[test]
fn fffd_positive_high_ratio() {
    let content = "\u{FFFD}".repeat(20);
    assert!(matches!(check_fffd_degenerate(&content), GuardOutcome::Trigger(_)));
}

#[test]
fn fffd_negative_low_ratio() {
    let mut content = "normal text ".repeat(10);
    content.push_str("\u{FFFD}\u{FFFD}\u{FFFD}");
    assert_eq!(check_fffd_degenerate(&content), GuardOutcome::Pass);
}

#[test]
fn fffd_negative_below_min_20() {
    let content = "\u{FFFD}\u{FFFD}";
    assert_eq!(check_fffd_degenerate(&content), GuardOutcome::Pass);
}

#[test]
fn future_intention_positive_korean() {
    let ctx = GuardContext::default();
    let r = check_future_intention(&ctx, 0, "코드를 수정하겠습니다.");
    assert!(matches!(r, GuardOutcome::Trigger(_)));
}

#[test]
fn future_intention_positive_english() {
    let ctx = GuardContext::default();
    let r = check_future_intention(&ctx, 0, "Let me fix the bug.");
    assert!(matches!(r, GuardOutcome::Trigger(_)));
}

#[test]
fn future_intention_negative_with_tool_call() {
    let ctx = GuardContext::default();
    assert_eq!(check_future_intention(&ctx, 1, "코드를 수정하겠습니다."), GuardOutcome::Pass);
}

#[test]
fn future_intention_negative_no_intent() {
    let ctx = GuardContext::default();
    assert_eq!(check_future_intention(&ctx, 0, "완료되었습니다."), GuardOutcome::Pass);
}

#[test]
fn future_intention_positive_limit_2() {
    let mut ctx = GuardContext::default();
    ctx.future_nudges = 2;
    let r = check_future_intention(&ctx, 0, "수정하겠습니다.");
    assert!(matches!(r, GuardOutcome::Trigger(_)));
}

#[test]
fn build_gate_positive() {
    let mut ctx = GuardContext::default();
    ctx.code_modified = true;
    ctx.bash_called = false;
    let r = check_build_gate(&ctx, "빌드가 통과했습니다.");
    assert!(matches!(r, GuardOutcome::Trigger(_)));
}

#[test]
fn build_gate_negative_bash_called() {
    let mut ctx = GuardContext::default();
    ctx.code_modified = true;
    ctx.bash_called = true;
    assert_eq!(check_build_gate(&ctx, "빌드가 통과했습니다."), GuardOutcome::Pass);
}

#[test]
fn build_gate_negative_no_code_modified() {
    let mut ctx = GuardContext::default();
    ctx.code_modified = false;
    assert_eq!(check_build_gate(&ctx, "빌드가 통과했습니다."), GuardOutcome::Pass);
}

#[test]
fn pause_summary_positive() {
    let ctx = GuardContext::default();
    let r = check_pause_summary(&ctx, "이 작업은 다음 세션에서 이어서 하겠습니다.");
    assert!(matches!(r, GuardOutcome::Trigger(_)));
}

#[test]
fn pause_summary_positive_english() {
    let ctx = GuardContext::default();
    let r = check_pause_summary(&ctx, "To be continued...");
    assert!(matches!(r, GuardOutcome::Trigger(_)));
}

#[test]
fn pause_summary_negative_normal() {
    let ctx = GuardContext::default();
    assert_eq!(check_pause_summary(&ctx, "모든 작업이 완료되었습니다."), GuardOutcome::Pass);
}

#[test]
fn pause_summary_positive_handoff_after_2() {
    let mut ctx = GuardContext::default();
    ctx.pause_nudges = 2;
    let r = check_pause_summary(&ctx, "중단 시점에서 이어서 하겠습니다.");
    assert!(matches!(r, GuardOutcome::Trigger(_)));
    if let GuardOutcome::Trigger(reason) = r {
        assert!(reason.contains("handoff"));
    }
}

#[test]
fn update_after_tool_call_tracks_signatures() {
    let mut ctx = GuardContext::default();
    update_after_tool_call(&mut ctx, "bash:ls".to_string(), false);
    update_after_tool_call(&mut ctx, "bash:ls".to_string(), false);
    update_after_tool_call(&mut ctx, "bash:ls".to_string(), false);
    update_after_tool_call(&mut ctx, "bash:ls".to_string(), false);
    assert_eq!(ctx.recent_signatures.len(), 4);
    assert!(matches!(check_stuck_signature(&ctx), GuardOutcome::Trigger(_)));
}

#[test]
fn update_after_tool_call_resets_future_on_state_change() {
    let mut ctx = GuardContext::default();
    ctx.future_nudges = 2;
    update_after_tool_call(&mut ctx, "write_file:x".to_string(), true);
    assert_eq!(ctx.future_nudges, 0);
    assert!(ctx.state_change_called);
}

#[test]
fn tool_signature_truncates_long_args() {
    let args = Json::object(vec![("command".to_string(), Json::string(&"a".repeat(200)))]);
    let sig = tool_signature("bash", &args);
    assert!(sig.starts_with("bash:"));
    assert!(sig.chars().count() <= 85);
    assert_eq!(sig, format!("bash:{{\"command\":\"{}", "a".repeat(68)));
}
