//! Servers of tools.
use bulti::config::McpConfig;
use bulti::json::Json;
use bulti::mcp::{
    extract_text, failure_text, list_tools, offered_description, offered_name,
    parse_tool_result, summarize_schema, ContentBlock, McpClient, McpError, McpManager,
    ToolSchema,
};
use bulti::table::Table;
use bulti::tools::mcp_call::{explain, looks_like_schema_mismatch};
use bulti::tools::mcp_tools::{not_offered, offer, unknown_server};
use bulti::tools::{mcp_call, mcp_tools, Tool, ToolRegistry};

fn echo() -> McpConfig {
    McpConfig {
        command: "echo".to_string(),
        args: vec![],
        env: Table::new(),
        description: None,
    }
}

fn text(s: &str) -> ContentBlock {
    ContentBlock::Text(s.to_string())
}

#[test]
fn summarize_schema_ignores_required_null() {
    let schema = Json::parse(
        r#"{"type":"object","properties":{"a":{"type":"string"},"b":{"type":"number"}},"required":null}"#,
    )
    .unwrap();
    let s = summarize_schema(&schema);
    assert_eq!(s, "a, b");
}

#[test]
fn summarize_schema_empty_when_no_properties() {
    let schema = Json::parse(r#"{"type":"object"}"#).unwrap();
    let s = summarize_schema(&schema);
    assert_eq!(s, "");
}

#[test]
fn extract_text_joins_text_blocks() {
    let content = vec![text("hello"), text(" world")];
    assert_eq!(extract_text(&content), "hello world");
}

#[test]
fn other_blocks_hold_no_text() {
    let content = vec![text("a"), ContentBlock::Other, text("b")];
    assert_eq!(extract_text(&content), "ab");
}

#[test]
fn parse_tool_result_prefers_text_content() {
    let content = vec![text("text result")];
    let structured = Json::parse(r#"{"key":"value"}"#).unwrap();
    assert_eq!(parse_tool_result(&content, Some(&structured)), "text result");
}

#[test]
fn parse_tool_result_falls_back_to_structured_content() {
    let structured = Json::parse(r#"{"sum":42,"items":[1,2,3]}"#).unwrap();
    let out = parse_tool_result(&[], Some(&structured));
    assert!(out.contains("\"sum\": 42"), "출력: {out}");
    assert!(out.contains("\"items\": ["));
}

#[test]
fn parse_tool_result_empty_returns_placeholder() {
    assert_eq!(parse_tool_result(&[], None), "(결과 없음)");
}

#[test]
fn parse_tool_result_ignores_structured_when_text_present() {
    let content = vec![text("hello")];
    let structured = Json::parse(r#"{"ignored":true}"#).unwrap();
    assert_eq!(parse_tool_result(&content, Some(&structured)), "hello");
}

#[test]
fn mcp_client_new_does_not_spawn() {
    let client = McpClient::new(echo());
    assert!(!client.running, "new() 시점에는 프로세스를 띄우지 않아야 한다");
}

#[test]
fn mcp_manager_client_returns_cached_instance() {
    let mut manager = McpManager::new();
    assert!(!manager.client("srv", echo()), "client() 는 spawn 을 수행하지 않아야 한다");
    manager.started("srv");
    assert!(manager.client("srv", echo()), "같은 서버는 같은 클라이언트 인스턴스를 반환해야 한다");
    assert_eq!(manager.clients.entries.len(), 1);
    assert!(!manager.client("other", echo()));
}

#[test]
fn failures_are_put_in_words() {
    assert!(failure_text("t", &[text("boom")]).contains("boom"));
    assert!(!McpError::Timeout.message().is_empty());
    let e = McpError::ToolNotFound { name: "s".to_string(), tool: "t".to_string() };
    assert!(e.message().contains("t"));
    let e = McpError::Call {
        name: "s".to_string(),
        tool: "t".to_string(),
        source: "cause".to_string(),
    };
    assert!(e.message().contains("cause"));
}

#[test]
fn schema_has_required_fields() {
    let s = mcp_call::schema();
    let required = s.get("required").unwrap().as_array().unwrap();
    let names: Vec<&str> = required.iter().filter_map(|v| v.as_str()).collect();
    assert!(names.contains(&"server"));
    assert!(names.contains(&"tool"));
    assert!(names.contains(&"args"));
}

#[test]
fn detects_schema_mismatch_hints() {
    assert!(looks_like_schema_mismatch("invalid params: missing required field"));
    assert!(looks_like_schema_mismatch("validation failed: unexpected value"));
    assert!(!looks_like_schema_mismatch("tool execution error"));
}

#[test]
fn mismatches_are_found_in_any_case() {
    assert!(looks_like_schema_mismatch("VALIDATION failed"));
}

#[test]
fn register_adds_mcp_call_tool() {
    let mut reg = ToolRegistry::new(false);
    mcp_call::register(&mut reg);
    assert!(reg.names().contains(&"mcp_call".to_string()));
}

#[test]
fn register_adds_mcp_tools_tool() {
    let mut reg = ToolRegistry::new(false);
    mcp_tools::register(&mut reg);
    assert!(reg.names().contains(&"mcp_tools".to_string()));
}

#[test]
fn schema_requires_server() {
    let s = mcp_tools::schema();
    let required = s.get("required").unwrap().as_array().unwrap();
    let names: Vec<&str> = required.iter().filter_map(|v| v.as_str()).collect();
    assert!(names.contains(&"server"));
}

#[test]
fn tools_of_a_server_are_offered_under_its_name() {
    let tools = vec![ToolSchema {
        name: "read".to_string(),
        description: Some("reads".to_string()),
        input_schema: Json::parse(r#"{"type":"object","properties":{"p":{}},"required":null}"#)
            .unwrap(),
    }];
    let mut reg = ToolRegistry::new(false);
    offer(&mut reg, "files", &tools);
    let name = offered_name("files", "read");
    assert_eq!(reg.names(), vec![name.clone()]);
    assert_eq!(
        reg.dispatch(&name).unwrap(),
        &Tool::Server { server: "files".to_string(), tool: "read".to_string() }
    );
    assert!(offered_description("files", "read", "reads").contains("reads"));
    let defs = reg.definitions();
    let required = defs[0].function.parameters.get("required").unwrap();
    assert_eq!(required.as_array().unwrap().len(), 0);
    assert!(list_tools(&tools).contains("read"));
    assert!(unknown_server("x").contains("x"));
    assert!(not_offered("list", "cause").contains("cause"));
}

#[test]
fn mismatches_are_explained_by_the_schema() {
    let tools = vec![ToolSchema {
        name: "read".to_string(),
        description: None,
        input_schema: Json::parse(r#"{"properties":{"path":{}}}"#).unwrap(),
    }];
    let out = explain("invalid params", "read", &tools);
    assert!(out.contains("invalid params"));
    assert!(out.contains("path"));
}
