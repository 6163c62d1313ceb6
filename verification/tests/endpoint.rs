//! Endpoints.
use bulti::config::Config;
use bulti::endpoint::probe::{
    extract_context_number, extract_host, parse_context_from_error, read_reply, ProbeReply,
};
use bulti::endpoint::{
    add_endpoint, apply_runtime_correction, is_key_sentinel, list_endpoints, mask_api_key,
    remove_endpoint, set_endpoint_field, use_endpoint, EndpointAddSpec, KEY_SENTINEL,
};

fn empty_cfg() -> Config {
    Config::new()
}

fn add_test(cfg: &mut Config, name: &str) {
    add_endpoint(
        cfg,
        &EndpointAddSpec {
            name: name.to_string(),
            url: "http://x/v1".to_string(),
            api_key: None,
            model: "m".to_string(),
            context_tokens: 0,
            vision: false,
            thinking: false,
        },
    )
    .unwrap();
}

#[test]
fn mask_api_key_hides_middle() {
    let masked = mask_api_key("sk-abcdef123456");
    assert!(masked.starts_with("sk-a"));
    assert!(masked.contains('*'));
    assert!(!masked.contains("abcdef"));
}

#[test]
fn mask_api_key_empty() {
    assert_eq!(mask_api_key(""), "");
}

#[test]
fn key_sentinel_detection() {
    assert!(is_key_sentinel(""));
    assert!(is_key_sentinel(KEY_SENTINEL));
    assert!(is_key_sentinel("****"));
    assert!(!is_key_sentinel("sk-real-key"));
}

#[test]
fn add_endpoint_auto_activates_first() {
    let mut cfg = empty_cfg();
    add_endpoint(
        &mut cfg,
        &EndpointAddSpec {
            name: "main".to_string(),
            url: "http://127.0.0.1:8084/v1".to_string(),
            api_key: Some("sk-test".to_string()),
            model: "qwen3".to_string(),
            context_tokens: 0,
            vision: true,
            thinking: true,
        },
    )
    .unwrap();
    assert_eq!(cfg.active_endpoint.as_deref(), Some("main"));
    assert_eq!(cfg.endpoints.get("main").unwrap().url, "http://127.0.0.1:8084/v1");
    assert_eq!(cfg.endpoints.get("main").unwrap().api_key.as_deref(), Some("sk-test"));
}

#[test]
fn set_api_key_sentinel_keeps_original() {
    let mut cfg = empty_cfg();
    add_endpoint(
        &mut cfg,
        &EndpointAddSpec {
            name: "main".to_string(),
            url: "http://x/v1".to_string(),
            api_key: Some("sk-original".to_string()),
            model: "m".to_string(),
            context_tokens: 0,
            vision: false,
            thinking: false,
        },
    )
    .unwrap();
    set_endpoint_field(&mut cfg, "main", "api_key", KEY_SENTINEL).unwrap();
    assert_eq!(
        cfg.endpoints.get("main").unwrap().api_key.as_deref(),
        Some("sk-original")
    );
    set_endpoint_field(&mut cfg, "main", "api_key", "").unwrap();
    assert_eq!(
        cfg.endpoints.get("main").unwrap().api_key.as_deref(),
        Some("sk-original")
    );
    set_endpoint_field(&mut cfg, "main", "api_key", "sk-new").unwrap();
    assert_eq!(cfg.endpoints.get("main").unwrap().api_key.as_deref(), Some("sk-new"));
}

#[test]
fn set_other_fields() {
    let mut cfg = empty_cfg();
    add_test(&mut cfg, "main");
    set_endpoint_field(&mut cfg, "main", "url", "http://y/v1").unwrap();
    set_endpoint_field(&mut cfg, "main", "model", "m2").unwrap();
    set_endpoint_field(&mut cfg, "main", "context_tokens", "16000").unwrap();
    assert_eq!(cfg.endpoints.get("main").unwrap().url, "http://y/v1");
    assert_eq!(cfg.endpoints.get("main").unwrap().model, "m2");
    assert_eq!(cfg.endpoints.get("main").unwrap().context_tokens, 16000);
}

#[test]
fn set_invalid_field_errors() {
    let mut cfg = empty_cfg();
    add_test(&mut cfg, "main");
    assert!(set_endpoint_field(&mut cfg, "main", "nope", "v").is_err());
    assert!(set_endpoint_field(&mut cfg, "missing", "url", "v").is_err());
}

#[test]
fn remove_endpoint_clears_active() {
    let mut cfg = empty_cfg();
    add_test(&mut cfg, "main");
    remove_endpoint(&mut cfg, "main").unwrap();
    assert!(cfg.endpoints.is_empty());
    assert!(cfg.active_endpoint.is_none());
}

#[test]
fn use_endpoint_requires_existing() {
    let mut cfg = empty_cfg();
    assert!(use_endpoint(&mut cfg, "nope").is_err());
    add_endpoint(
        &mut cfg,
        &EndpointAddSpec {
            name: "a".to_string(),
            url: "http://x/v1".to_string(),
            api_key: None,
            model: "m".to_string(),
            context_tokens: 0,
            vision: false,
            thinking: false,
        },
    )
    .unwrap();
    use_endpoint(&mut cfg, "a").unwrap();
    assert_eq!(cfg.active_endpoint.as_deref(), Some("a"));
}

#[test]
fn list_endpoints_masks_key() {
    let mut cfg = empty_cfg();
    add_endpoint(
        &mut cfg,
        &EndpointAddSpec {
            name: "main".to_string(),
            url: "http://x/v1".to_string(),
            api_key: Some("sk-super-secret".to_string()),
            model: "m".to_string(),
            context_tokens: 0,
            vision: false,
            thinking: false,
        },
    )
    .unwrap();
    let rows = list_endpoints(&cfg);
    assert_eq!(rows.len(), 1);
    assert!(rows[0].api_key_masked.contains('*'));
    assert!(!rows[0].api_key_masked.contains("super-secret"));
    assert!(rows[0].active);
}

#[test]
fn runtime_correction_parses_number() {
    let mut cfg = empty_cfg();
    add_endpoint(
        &mut cfg,
        &EndpointAddSpec {
            name: "main".to_string(),
            url: "http://x/v1".to_string(),
            api_key: None,
            model: "m".to_string(),
            context_tokens: 0,
            vision: false,
            thinking: false,
        },
    )
    .unwrap();
    let body = r#"{"error":{"message":"This model's maximum context length is 65536 tokens"}}"#;
    let parsed = apply_runtime_correction(&mut cfg, "main", body);
    assert_eq!(parsed, Some(65536));
    assert_eq!(cfg.endpoints.get("main").unwrap().context_tokens, 65536);
}

#[test]
fn runtime_correction_no_number_returns_none() {
    let mut cfg = empty_cfg();
    add_test(&mut cfg, "main");
    assert!(apply_runtime_correction(&mut cfg, "main", "some other error").is_none());
}

#[test]
fn extract_number_from_message() {
    assert_eq!(
        extract_context_number("This model's maximum context length is 65536 tokens"),
        Some(65536)
    );
    assert_eq!(
        extract_context_number("max_model_len: 131072"),
        Some(131072)
    );
    assert_eq!(extract_context_number("n_ctx = 60160"), Some(60160));
    assert_eq!(extract_context_number("context_length: 32768"), Some(32768));
}

#[test]
fn extract_number_no_match() {
    assert_eq!(extract_context_number("invalid api key"), None);
    assert_eq!(extract_context_number(""), None);
}

#[test]
fn parse_error_json() {
    let body = r#"{"error":{"message":"maximum context length is 65536 tokens"}}"#;
    assert_eq!(parse_context_from_error(body), Some(65536));
}

#[test]
fn parse_error_plain() {
    assert_eq!(
        parse_context_from_error("Error: max context length is 128000"),
        Some(128000)
    );
}

#[test]
fn extract_host_parses() {
    assert_eq!(
        extract_host("http://127.0.0.1:11434/v1").unwrap(),
        "http://127.0.0.1:11434"
    );
    assert_eq!(
        extract_host("https://api.example.com/v1").unwrap(),
        "https://api.example.com"
    );
}

#[test]
fn replies_to_a_probe_are_read() {
    assert!(matches!(read_reply(404, "{}"), ProbeReply::Refused));
    assert!(matches!(read_reply(199, "{}"), ProbeReply::Refused));
    assert!(matches!(read_reply(200, "{"), ProbeReply::Failed));
    match read_reply(200, "{\"n\":7}") {
        ProbeReply::Body(j) => assert_eq!(j.get("n").unwrap().as_u64(), Some(7)),
        _ => panic!("the body should be read"),
    }
}
