//! Replies that arrive in pieces.
use bulti::json::Json;
use bulti::llm::{
    accept, call_arguments, completions_url, event_kind, is_success, ChatAccumulator, ChatChoice, ChatChunk, Delta,
    EventKind, LlmError, Message, ToolCallDelta, ToolCallFunctionDelta, Usage,
};

fn delta(content: Option<&str>, reasoning: Option<&str>) -> Delta {
    Delta {
        content: content.map(|s| s.to_string()),
        reasoning_content: reasoning.map(|s| s.to_string()),
        tool_calls: vec![],
        tool_call_event: None,
    }
}

fn chunk(delta: Delta, finish: Option<&str>, usage: Option<Usage>) -> ChatChunk {
    ChatChunk {
        choices: Some(vec![ChatChoice {
            delta,
            finish_reason: finish.map(|s| s.to_string()),
        }]),
        usage,
    }
}

fn call(index: u64, id: Option<&str>, name: Option<&str>, arguments: &str) -> ToolCallDelta {
    ToolCallDelta {
        index: Some(index),
        id: id.map(|s| s.to_string()),
        kind: None,
        function: Some(ToolCallFunctionDelta {
            name: name.map(|s| s.to_string()),
            arguments: Some(arguments.to_string()),
        }),
    }
}

#[test]
fn streams_content_and_usage() {
    let mut acc = ChatAccumulator::new();
    acc.push(&chunk(delta(Some("안녕"), None), None, None));
    acc.push(&chunk(delta(Some("하세요"), None), None, None));
    let usage = Usage {
        prompt_tokens: Some(10),
        completion_tokens: Some(5),
        total_tokens: Some(15),
    };
    acc.push(&chunk(delta(None, None), Some("stop"), Some(usage)));
    let resp = match acc.finish() {
        Ok(r) => r,
        Err(e) => panic!("{}", e.message()),
    };
    assert_eq!(resp.content.as_deref(), Some("안녕하세요"));
    assert_eq!(resp.finish_reason, "stop");
    assert!(!resp.incomplete);
    assert_eq!(resp.usage.prompt_tokens, Some(10));
    assert_eq!(resp.usage.completion_tokens, Some(5));
    assert_eq!(resp.usage.total_tokens, Some(15));
}

#[test]
fn accumulates_tool_calls_by_index() {
    let mut acc = ChatAccumulator::new();
    let mut first = delta(None, None);
    first.tool_calls = vec![call(0, Some("call_1"), Some("read_file"), "")];
    acc.push(&chunk(first, None, None));
    let mut second = delta(None, None);
    second.tool_calls = vec![
        call(0, None, None, "{\"path\":"),
        call(1, Some("call_2"), Some("bash"), ""),
    ];
    acc.push(&chunk(second, None, None));
    let mut third = delta(None, None);
    third.tool_calls = vec![
        call(0, None, None, "\"src/main.rs\"}"),
        call(1, None, None, "{\"command\":\"ls\"}"),
    ];
    acc.push(&chunk(third, Some("tool_calls"), None));
    let resp = match acc.finish() {
        Ok(r) => r,
        Err(e) => panic!("{}", e.message()),
    };
    assert_eq!(resp.finish_reason, "tool_calls");
    assert!(!resp.incomplete);
    assert_eq!(resp.tool_calls.len(), 2);
    let t0 = &resp.tool_calls[0];
    assert_eq!(t0.id.as_deref(), Some("call_1"));
    assert_eq!(t0.name, "read_file");
    assert_eq!(t0.arguments.get("path").unwrap().as_str(), Some("src/main.rs"));
    let t1 = &resp.tool_calls[1];
    assert_eq!(t1.id.as_deref(), Some("call_2"));
    assert_eq!(t1.name, "bash");
    assert_eq!(t1.arguments.get("command").unwrap().as_str(), Some("ls"));
}

#[test]
fn separates_reasoning_content() {
    let mut acc = ChatAccumulator::new();
    acc.push(&chunk(delta(None, Some("생각")), None, None));
    acc.push(&chunk(delta(Some("답"), Some(" 더 하기")), None, None));
    acc.push(&chunk(delta(None, None), Some("stop"), None));
    let resp = match acc.finish() {
        Ok(r) => r,
        Err(e) => panic!("{}", e.message()),
    };
    assert_eq!(resp.content.as_deref(), Some("답"));
    assert_eq!(resp.reasoning_content.as_deref(), Some("생각 더 하기"));
}

#[test]
fn marks_length_without_content_incomplete() {
    let mut acc = ChatAccumulator::new();
    acc.push(&chunk(delta(None, None), Some("length"), None));
    let resp = match acc.finish() {
        Ok(r) => r,
        Err(e) => panic!("{}", e.message()),
    };
    assert_eq!(resp.finish_reason, "length");
    assert!(resp.incomplete);
    assert!(resp.content.is_none());
    assert!(resp.tool_calls.is_empty());
}

#[test]
fn maps_empty_stream_to_empty_error() {
    let acc = ChatAccumulator::new();
    assert!(matches!(acc.finish(), Err(LlmError::Empty)));
}

#[test]
fn events_are_told_apart() {
    assert_eq!(event_kind("  "), EventKind::Blank);
    assert_eq!(event_kind(" [DONE] "), EventKind::Done);
    assert_eq!(event_kind("{}"), EventKind::Chunk);
}

#[test]
fn arguments_that_are_no_json_stay_text() {
    assert_eq!(call_arguments("oops", None), Json::string("oops"));
    let parsed = Json::parse("{\"a\":1}");
    assert_eq!(call_arguments("{\"a\":1}", parsed), Json::parse("{\"a\":1}").unwrap());
}

#[test]
fn requests_go_to_the_completions() {
    assert_eq!(completions_url("http://x/v1/"), "http://x/v1/chat/completions");
    assert_eq!(completions_url("http://x/v1"), "http://x/v1/chat/completions");
}

#[test]
fn errors_of_a_model_have_messages() {
    let e = LlmError::Api { status: 400, body: "bad request".to_string() };
    assert!(e.message().contains("400"));
    assert!(e.message().contains("bad request"));
    for e in [
        LlmError::Network("cause".to_string()),
        LlmError::Sse("cause".to_string()),
        LlmError::Json("cause".to_string()),
    ] {
        assert!(e.message().contains("cause"));
    }
    assert!(!LlmError::Empty.message().is_empty());
    assert!(!LlmError::Truncated.message().is_empty());
    assert_eq!(Message::text("user", "hi".to_string()).content.as_deref(), Some("hi"));
}

#[test]
fn json_is_read_and_written() {
    let text = r#"{"a":[1,-2,true,null,"x\ny"],"b":{}}"#;
    let j = Json::parse(text).unwrap();
    assert_eq!(j.to_text(), text);
    assert_eq!(Json::parse("{"), None);
    assert_eq!(j.get("a").unwrap().as_array().unwrap()[1], Json::Int(-2));
    assert!(j.to_pretty().contains("\n  \"a\": ["));
}

#[test]
fn nested_decimals_do_not_change() {
    let mut seed: u64 = 88172645463325252;
    for _ in 0..3000 {
        seed ^= seed << 13;
        seed ^= seed >> 7;
        seed ^= seed << 17;
        let text = format!("[{{\"a\":[[{}.{}e{}]]}}]", seed % 10, seed, (seed % 600) as i64 - 300);
        let value: serde_json::Value = serde_json::from_str(&text).unwrap();
        let held = Json::parse(&text).unwrap();
        assert_eq!(held.to_text(), value.to_string());
        assert_eq!(held.to_pretty(), serde_json::to_string_pretty(&value).unwrap());
    }
    assert_eq!(Json::Float("1.5".to_string()).to_text(), "1.5");
    assert_eq!(Json::Float("no number".to_string()).to_text(), "null");
    assert_eq!(Json::Float("1e999".to_string()).to_text(), "null");
}

#[test]
fn statuses_are_judged() {
    for status in [200, 204, 299] {
        assert!(is_success(status));
        assert!(accept(status, "x".to_string()).is_ok());
    }
    for status in [0, 199, 300, 401, 500] {
        assert!(!is_success(status));
        match accept(status, "why".to_string()) {
            Err(LlmError::Api { status: s, body }) => {
                assert_eq!((s, body.as_str()), (status, "why"));
            }
            _ => panic!("the status should be refused"),
        }
    }
}
