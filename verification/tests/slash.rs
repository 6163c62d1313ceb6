//! Commands of a conversation.
use bulti::i18n::Language;
use bulti::slash::{
    fuzzy_match, is_supported, levenshtein, parse, raw_name, resolve_alias, suggest,
    suggest_similar, suggest_with, CompletionContext,
};

#[test]
fn suggests_all_commands_on_empty_query() {
    let s = suggest(Language::En, "");
    assert!(s.iter().any(|x| x.insert == "/exit"));
    assert!(s.iter().any(|x| x.insert == "/model"));
    assert!(s.iter().any(|x| x.insert == "/effort"));
}

#[test]
fn suggests_by_prefix() {
    let s = suggest(Language::En, "mo");
    assert!(s.iter().any(|x| x.insert == "/model"));
    let s = suggest(Language::En, "res");
    assert!(s.iter().any(|x| x.insert == "/resume"));
}

#[test]
fn suggests_by_alias() {
    let s = suggest(Language::En, "m");
    assert!(s.iter().any(|x| x.insert == "/m"));
}

#[test]
fn registry_has_endpoint_and_mcp() {
    assert!(suggest(Language::En, "").iter().any(|x| x.insert == "/endpoint"));
    assert!(suggest(Language::En, "").iter().any(|x| x.insert == "/mcp"));
    assert_eq!(resolve_alias("ep"), "endpoint");
    assert!(is_supported("mcp"));
}

#[test]
fn suggest_with_completes_model_args() {
    let ctx = CompletionContext {
        models: vec!["qwen3-32b".to_string(), "llama3".to_string()],
        ..Default::default()
    };
    let s = suggest_with(Language::En, "/model ", &ctx);
    assert_eq!(s.len(), 2);
    assert!(s.iter().any(|x| x.insert == "/model qwen3-32b"));
    let s = suggest_with(Language::En, "/model lla", &ctx);
    assert_eq!(s.len(), 1);
    assert_eq!(s[0].insert, "/model llama3");
    let s = suggest_with(Language::En, "/model", &ctx);
    assert!(s.iter().any(|x| x.insert == "/model"));
}

#[test]
fn suggest_with_completes_endpoint_and_mcp_args() {
    let ctx = CompletionContext {
        endpoints: vec!["main".to_string(), "backup".to_string()],
        mcp: vec!["files".to_string()],
        ..Default::default()
    };
    let s = suggest_with(Language::En, "/endpoint ", &ctx);
    assert_eq!(s.len(), 2);
    assert!(s.iter().any(|x| x.insert == "/endpoint main"));
    let s = suggest_with(Language::En, "/ep ma", &ctx);
    assert_eq!(s.len(), 1);
    assert_eq!(s[0].insert, "/endpoint main");
    let s = suggest_with(Language::En, "/mcp ", &ctx);
    assert_eq!(s.len(), 1);
    assert_eq!(s[0].insert, "/mcp files");
}

#[test]
fn suggest_with_no_args_command_returns_empty() {
    let ctx = CompletionContext::default();
    assert!(suggest_with(Language::En, "/help foo", &ctx).is_empty());
    assert!(suggest_with(Language::En, "/exit ", &ctx).is_empty());
}

#[test]
fn registry_has_language_and_completes() {
    assert!(suggest(Language::En, "").iter().any(|x| x.insert == "/language"));
    assert_eq!(resolve_alias("lang"), "language");
    assert!(is_supported("language"));
    let ctx = CompletionContext {
        languages: vec!["en".to_string(), "ko".to_string(), "ja".to_string()],
        ..Default::default()
    };
    let s = suggest_with(Language::En, "/language ", &ctx);
    assert_eq!(s.len(), 3);
    assert!(s.iter().any(|x| x.insert == "/language ko"));
}

#[test]
fn parses_commands() {
    let p = parse("/model gpt-4").unwrap();
    assert_eq!(p.name, "model");
    assert_eq!(p.args, "gpt-4");
    let p = parse("/m").unwrap();
    assert_eq!(p.name, "model");
    assert!(parse("hello").is_none());
    assert!(parse("/unknown").is_some());
    assert!(!is_supported("unknown"));
    assert!(is_supported("m"));
}

#[test]
fn parses_history() {
    let p = parse("/history").unwrap();
    assert_eq!(p.name, "history");
    assert_eq!(p.args, "");
    let p = parse("/history 검색어").unwrap();
    assert_eq!(p.name, "history");
    assert_eq!(p.args, "검색어");
    let p = parse("/h").unwrap();
    assert_eq!(p.name, "history");
    assert!(is_supported("history"));
    assert_eq!(resolve_alias("h"), "history");
}

#[test]
fn fuzzy_matching_works() {
    assert!(fuzzy_match("model", "mo"));
    assert!(fuzzy_match("model", "mdl"));
    assert!(fuzzy_match("resume", "rs"));
    assert!(!fuzzy_match("model", "xyz"));
}

#[test]
fn raw_name_extracts_first_token() {
    assert_eq!(raw_name("/model gpt-4"), "model");
    assert_eq!(raw_name("/xyz"), "xyz");
    assert_eq!(raw_name("  /help  "), "help");
    assert_eq!(raw_name("/"), "");
    assert_eq!(raw_name("/unknown args here"), "unknown");
}

#[test]
fn suggest_similar_finds_typo_commands() {
    let s = suggest_similar("resum");
    assert!(s.iter().any(|x| x == "resume"), "got {s:?}");
    let s = suggest_similar("hel");
    assert!(s.iter().any(|x| x == "help"), "got {s:?}");
    let s = suggest_similar("modle");
    assert!(s.iter().any(|x| x == "model"), "got {s:?}");
    assert!(suggest_similar("zzzzzzzz").is_empty());
    assert!(suggest_similar("").is_empty());
    assert!(suggest_similar("sessions").len() <= 3);
}

#[test]
fn levenshtein_distance_is_correct() {
    assert_eq!(levenshtein("kitten", "sitting"), 3);
    assert_eq!(levenshtein("abc", "abc"), 0);
    assert_eq!(levenshtein("", "abc"), 3);
    assert_eq!(levenshtein("abc", ""), 3);
    assert_eq!(levenshtein("model", "modle"), 2);
}
