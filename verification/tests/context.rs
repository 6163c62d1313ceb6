//! Token estimates and trimming.
use bulti::agent::context::{estimate_image_tokens, estimate_tokens, trim_messages};
use bulti::llm::Message;

fn msg(role: &str, content: &str) -> Message {
    Message::text(role, content.to_string())
}

#[test]
fn estimate_ascii_is_len_div_4() {
    let s = "hello world this is a test";
    assert_eq!(estimate_tokens(s), 25 / 4);
}

#[test]
fn estimate_korean_counts_each_char() {
    let s = "안녕하세요";
    assert_eq!(estimate_tokens(s), 5);
}

#[test]
fn estimate_korean_heavier_than_naive_byte_div4() {
    let korean = "한글한글한글한글한글";
    let est = estimate_tokens(korean);
    let naive = korean.len() as u64 / 4;
    assert!(est > naive);
}

#[test]
fn estimate_mixed_text() {
    let s = "hello 안녕 world";
    assert_eq!(estimate_tokens(s), 5);
}

#[test]
fn estimate_image_base64() {
    assert_eq!(estimate_image_tokens(100), 25);
}

#[test]
fn trim_preserves_system_and_first_user() {
    let messages = vec![
        msg("system", "sys"),
        msg("user", "first"),
        msg("assistant", "a1"),
        msg("tool", "t1"),
        msg("assistant", "a2"),
        msg("tool", "t2"),
    ];
    let (out, removed) = trim_messages(messages, 2);
    assert_eq!(out[0].role, "system");
    assert_eq!(out[1].content.as_deref(), Some("first"));
    assert_eq!(removed, 2);
    assert_eq!(out[out.len() - 1].content.as_deref(), Some("t2"));
}

#[test]
fn trim_removes_oldest_turns() {
    let mut messages = vec![msg("system", "sys"), msg("user", "first")];
    for i in 0..10 {
        messages.push(msg("assistant", &format!("a{i}")));
        messages.push(msg("tool", &format!("t{i}")));
    }
    let (out, removed) = trim_messages(messages, 4);
    assert_eq!(removed, 16);
    assert_eq!(out[out.len() - 1].content.as_deref(), Some("t9"));
    assert!(!out.iter().any(|m| m.content.as_deref() == Some("a0")));
}

#[test]
fn trim_no_removal_when_within_keep() {
    let messages = vec![
        msg("system", "sys"),
        msg("user", "first"),
        msg("assistant", "a1"),
        msg("tool", "t1"),
    ];
    let (out, removed) = trim_messages(messages, 10);
    assert_eq!(removed, 0);
    assert_eq!(out.len(), 4);
}

#[test]
fn trim_does_not_split_a_turn() {
    let turns = || {
        vec![
            msg("system", "sys"),
            msg("user", "first"),
            msg("assistant", "a1"),
            msg("tool", "t1"),
            msg("assistant", "a2"),
            msg("tool", "t2"),
        ]
    };
    for keep in 0..6 {
        let (out, removed) = trim_messages(turns(), keep);
        assert_eq!(out.len() + removed, 6);
        for i in 0..out.len() {
            if out[i].role == "tool" {
                assert_eq!(out[i - 1].role, "assistant");
            }
        }
    }
    assert_eq!(trim_messages(turns(), 3).1, 2);
    assert_eq!(trim_messages(turns(), 1).1, 4);
}
