//! Tools.
use bulti::history::RunRow;
use bulti::json::Json;
use bulti::skills;
use bulti::tools::edit_file::{edit, unicode_warning};
use bulti::tools::glob::GlobResults;
use bulti::tools::grep::GrepResults;
use bulti::tools::read_file::{
    image_content, is_image, read, reading, ReadCall, ReadState, Reading, Target,
};
use bulti::tools::util::{
    bool_arg, clip, int_arg, number_arg, str_arg, summarize_args, truncate_tool_result,
};
use bulti::tools::{
    bash, edit_file, glob, grep, history, native_registry, normalize_schema, read_file,
    skill_load, write_file, Tool, ToolRegistry,
};

fn args(text: &str) -> Json {
    Json::parse(text).unwrap()
}

fn lines(n: usize) -> String {
    (1..=n).map(|i| format!("line {i}")).collect::<Vec<_>>().join("\n")
}

fn reads(state: &mut ReadState, text: &str, content: &str) -> String {
    let call = match read_file::request(&args(text)) {
        Ok(c) => c,
        Err(e) => panic!("{e}"),
    };
    read(state, &call, content)
}

fn edits(text: &str, content: &str) -> Result<String, String> {
    let call = edit_file::request(&args(text))?;
    edit(&call, content).map(|e| e.content)
}

#[test]
fn echo_works() {
    assert!(bash::output_text("hello\n", "", Some(0)).contains("hello"));
}

#[test]
fn stderr_is_captured() {
    let out = bash::output_text("", "err\n", Some(0));
    assert!(out.contains("[stderr]"));
    assert!(out.contains("err"));
}

#[test]
fn exit_code_reported() {
    let out = bash::output_text("", "", Some(3));
    assert!(out.contains("[exit code: 3]"));
}

#[test]
fn missing_command_is_error() {
    assert!(bash::request(&args("{}")).is_err());
}

#[test]
fn long_output_is_cut_at_its_limit() {
    let out = bash::output_text(&"가".repeat(30000), "", Some(0));
    assert_eq!(out.chars().filter(|c| *c == '가').count(), 21845);
    assert!(out.contains("...truncated"));
    let whole = "a".repeat(65536);
    assert_eq!(bash::output_text(&whole, "", Some(0)), whole);
    assert_eq!(
        bash::output_text("", "", Some(0)),
        "(명령이 출력을 반환하지 않았습니다)"
    );
    let call = bash::request(&args(r#"{"command":"sleep 9","timeout":5}"#)).ok().unwrap();
    assert!(bash::timeout_error(&call).contains("5초"));
    assert_eq!(bash::failure("e"), "bash: 실행 실패: e");
}

#[test]
fn exact_replace_works() {
    let out = edits(r#"{"path":"e.txt","find":"hello","replace":"hi"}"#, "hello world");
    assert_eq!(out.unwrap(), "hi world");
}

#[test]
fn multiple_match_errors_without_replace_all() {
    let out = edits(r#"{"path":"m.txt","find":"a","replace":"x"}"#, "a b a c");
    assert!(out.is_err());
    assert!(out.unwrap_err().contains("replace_all"));
}

#[test]
fn replace_all_replaces_everywhere() {
    let out = edits(
        r#"{"path":"r.txt","find":"a","replace":"x","replace_all":true}"#,
        "a b a c",
    );
    assert_eq!(out.unwrap(), "x b x c");
}

#[test]
fn not_found_is_error() {
    let out = edits(r#"{"path":"n.txt","find":"zzz","replace":"x"}"#, "content");
    assert!(out.is_err());
}

#[test]
fn unicode_warning_detects_smart_quotes() {
    assert!(unicode_warning("‘hello’").is_some());
    assert!(unicode_warning("plain").is_none());
}

#[test]
fn edit_needs_its_arguments() {
    assert!(edit_file::request(&args(r#"{"find":"a","replace":"b"}"#)).is_err());
    assert!(edit_file::request(&args(r#"{"path":"a","replace":"b"}"#)).is_err());
}

#[test]
fn edit_file_missing_file_is_error() {
    assert!(edit_file::missing_error("/nonexistent").contains("/nonexistent"));
    assert!(edit_file::read_error("e").contains("e"));
    assert!(edit_file::write_error("e").contains("e"));
}

#[test]
fn glob_finds_rust_files() {
    let mut found = GlobResults::new();
    for p in ["src/main.rs", "src/tools/mod.rs"] {
        let parts: Vec<String> = p.split('/').map(|s| s.to_string()).collect();
        found.offer(&parts, p.to_string());
    }
    let out = found.finish();
    assert!(out.contains("src/main.rs"));
    assert!(out.contains("src/tools/mod.rs"));
}

#[test]
fn glob_no_match_returns_message() {
    assert!(GlobResults::new().finish().contains("매칭되는 파일이 없습니다"));
}

#[test]
fn glob_missing_pattern_is_error() {
    assert!(glob::request(&args("{}")).is_err());
}

#[test]
fn ignores_git_directory() {
    let mut found = GlobResults::new();
    let parts = vec!["w".to_string(), ".git".to_string(), "config".to_string()];
    found.offer(&parts, "w/.git/config".to_string());
    found.offer(&["w".to_string(), "real.txt".to_string()], "w/real.txt".to_string());
    let out = found.finish();
    assert!(!out.contains(".git"));
    assert!(out.contains("real.txt"));
}

#[test]
fn finds_line_with_file_and_number() {
    let mut found = GrepResults::new();
    found.search("fn main", "src/main.rs", "use x;\n\nfn main() {}\n");
    let out = found.finish();
    assert!(out.contains("src/main.rs"));
    assert!(out.contains("fn main"));
    assert!(out.contains("src/main.rs:3"));
}

#[test]
fn grep_no_match_returns_message() {
    let mut found = GrepResults::new();
    found.search("zzz_nonexistent_zzz", "a.txt", "nothing here\n");
    assert!(found.finish().contains("일치하는 결과가 없습니다"));
}

#[test]
fn invalid_regex_is_error() {
    assert!(grep::check_pattern("[").is_err());
    assert!(grep::check_pattern("fn \\w+").is_ok());
}

#[test]
fn grep_missing_pattern_is_error() {
    assert!(grep::request(&args("{}")).is_err());
}

#[test]
fn ignores_hidden_dirs() {
    assert!(grep::is_hidden(".git", 1));
    assert!(!grep::is_hidden("real.txt", 1));
}

#[test]
fn patterns_are_regular_expressions() {
    let mut found = GrepResults::new();
    found.search("^a.c$", "f", "abc\nabcd\na.c\n");
    let out = found.finish();
    assert!(out.contains("f:1"));
    assert!(!out.contains("f:2"));
    assert!(out.contains("f:3"));
}

#[test]
fn history_tools_registered() {
    let mut reg = ToolRegistry::new(false);
    history::register_list(&mut reg);
    history::register_read(&mut reg);
    let names = reg.names();
    assert!(names.contains(&"history_list".to_string()));
    assert!(names.contains(&"history_read".to_string()));
}

#[test]
fn truncate_works() {
    assert_eq!(clip("abc", 10), "abc");
    assert_eq!(clip("abcdef", 3), "abc…");
}

fn run_row(prompt: &str) -> RunRow {
    RunRow {
        id: 1,
        started_at: "2026-09-06T01:00:00Z".to_string(),
        finished_at: None,
        cwd: "/tmp/p".to_string(),
        endpoint: "local".to_string(),
        model: Some("m".to_string()),
        status: "completed".to_string(),
        prompt: prompt.to_string(),
        result: Some("결과".to_string()),
        chain_id: "chain-1".to_string(),
        segment_index: 0,
        handoff_depth: 0,
        parent_run_id: None,
        input_tokens: Some(10),
        output_tokens: Some(5),
        files_touched: Some("[\"a.rs\"]".to_string()),
        duration_ms: Some(100),
    }
}

#[test]
fn history_list_returns_rows() {
    let out = history::list_text(&[run_row("이전 작업 이어서 완료")], "");
    assert!(out.contains("completed"));
    assert!(out.contains("이전 작업 이어서 완료"));
    let none = history::list_text(&[run_row("other")], "zzz");
    assert!(!none.contains("other"));
    assert!(history::read_text(1, &Some(run_row("p"))).unwrap().contains("a.rs"));
    assert!(history::read_text(9, &None).is_err());
    assert!(history::read_request(&args("{}")).is_err());
    assert_eq!(history::read_request(&args(r#"{"run_id":7}"#)), Ok(7));
}

#[test]
fn registry_definitions_and_dispatch_from_same_source() {
    let mut reg: ToolRegistry<Tool> = ToolRegistry::new(false);
    let schema = args(
        r#"{"type":"object","properties":{"text":{"type":"string"}},"required":["text"]}"#,
    );
    reg.register("echo", "입력 그대로 반환", schema, Tool::Bash);
    let defs = reg.definitions();
    assert_eq!(defs.len(), 1);
    assert_eq!(defs[0].function.name, "echo");
    assert_eq!(reg.dispatch("echo").unwrap(), &Tool::Bash);
    let err = reg.dispatch("nope");
    assert!(err.is_err());
    assert!(err.unwrap_err().contains("unknown tool"));
}

#[test]
fn normalize_schema_required_null_to_empty() {
    let schema = args(
        r#"{"type":"object","properties":{"x":{"type":"string"}},"required":null}"#,
    );
    let normalized = normalize_schema(schema);
    let required = normalized.get("required").unwrap().as_array().unwrap();
    assert!(required.is_empty(), "required: null 은 [] 로 정규화되어야 함");
}

#[test]
fn normalize_schema_keeps_existing_required() {
    let schema = args(
        r#"{"type":"object","properties":{"x":{"type":"string"}},"required":["x"]}"#,
    );
    let normalized = normalize_schema(schema);
    let required = normalized.get("required").unwrap().as_array().unwrap();
    assert_eq!(required.len(), 1);
}

#[test]
fn normalize_schema_no_required_unchanged() {
    let schema = args(r#"{"type":"object","properties":{}}"#);
    let normalized = normalize_schema(schema);
    assert_eq!(normalized.get("type").unwrap().as_str(), Some("object"));
    assert!(normalized.get("required").is_none());
}

#[test]
fn native_registry_has_6_tools() {
    let reg = native_registry(false);
    let names = reg.names();
    assert_eq!(names.len(), 6);
    for name in ["bash", "read_file", "write_file", "edit_file", "glob", "grep"] {
        assert!(names.contains(&name.to_string()), "missing {name}");
    }
    assert!(!reg.vision());
}

#[test]
fn lines_are_prefixed_with_numbers() {
    let out = reads(&mut ReadState::new(), r#"{"path":"a.txt"}"#, &lines(5));
    assert!(out.contains("1→line 1"));
    assert!(out.contains("5→line 5"));
}

#[test]
fn pagination_footer_suggests_offset() {
    let out = reads(&mut ReadState::new(), r#"{"path":"b.txt"}"#, &lines(300));
    assert!(out.contains("Call read_file with offset=201 to read more"));
}

#[test]
fn offset_reads_from_line() {
    let out = reads(
        &mut ReadState::new(),
        r#"{"path":"c.txt","offset":201,"limit":10}"#,
        &lines(300),
    );
    assert!(out.contains("201→line 201"));
    assert!(!out.contains("1→line 1"));
    assert!(!out.contains("211→line 211"));
}

#[test]
fn read_file_missing_file_is_error() {
    assert!(read_file::missing_error("/nonexistent/xyz").contains("/nonexistent/xyz"));
    assert!(read_file::request(&args("{}")).is_err());
}

#[test]
fn directory_is_error() {
    assert!(read_file::directory_error("/tmp").contains("/tmp"));
    assert!(read_file::read_error("e").contains("e"));
    assert!(read_file::image_error("e").contains("e"));
}

#[test]
fn auto_advance_continues() {
    let mut state = ReadState::new();
    let content = lines(300);
    let first = reads(&mut state, r#"{"path":"d.txt","limit":10}"#, &content);
    assert!(first.contains("1→line 1"));
    let second = reads(&mut state, r#"{"path":"d.txt","limit":10}"#, &content);
    assert!(second.contains("11→line 11"));
    assert!(!second.contains("1→line 1\n"), "두 번째 호출이 1부터 다시 시작함");
    assert!(second.trim().starts_with("11→line 11"));
}

#[test]
fn last_page_is_not_lost() {
    let mut state = ReadState::new();
    let content = lines(11);
    reads(&mut state, r#"{"path":"d.txt","limit":10}"#, &content);
    let second = reads(&mut state, r#"{"path":"d.txt","limit":10}"#, &content);
    assert!(second.contains("11→line 11"));
}

#[test]
fn vision_image_returns_base64() {
    assert!(is_image(Some("png")));
    assert!(!is_image(Some("rs")));
    assert!(!is_image(None));
    let mut png: [u8; 164] = [0x00; 164];
    let head: [u8; 54] = [
        0x89, 0x50, 0x4E, 0x47, 0x0D, 0x0A, 0x1A, 0x0A, 0x00, 0x00, 0x00, 0x0D, 0x49, 0x48,
        0x44, 0x52, 0x00, 0x00, 0x00, 0x01, 0x00, 0x00, 0x00, 0x01, 0x08, 0x02, 0x00, 0x00,
        0x00, 0x90, 0xBB, 0x33, 0x7A, 0x00, 0x00, 0x00, 0x0C, 0x49, 0x44, 0x41, 0x54, 0x08,
        0xD7, 0x63, 0xF8, 0xCF, 0xC0, 0x00, 0x00, 0x00, 0x03, 0x00, 0x01, 0x00,
    ];
    png[..54].copy_from_slice(&head);
    let out = image_content(Some("png"), &png);
    assert!(out.contains("data:image/png;base64,"));
    assert!(out.starts_with("![image](data:image/png;base64,iVBORw0KGgoAAAANSUhEUg"));
}

#[test]
fn bytes_are_encoded_in_groups_of_three() {
    for (bytes, text) in [
        ("", ""),
        ("f", "Zg=="),
        ("fo", "Zm8="),
        ("foo", "Zm9v"),
        ("foob", "Zm9vYg=="),
        ("fooba", "Zm9vYmE="),
        ("foobar", "Zm9vYmFy"),
    ] {
        let expected = format!("![image](data:image/gif;base64,{text})");
        assert_eq!(image_content(Some("gif"), bytes.as_bytes()), expected);
    }
}

#[test]
fn loads_bundled_skill() {
    let name = skill_load::request(&args(r#"{"name":"korean-report"}"#)).unwrap();
    assert_eq!(name, "korean-report");
    let out = skills::load(&name, &[None, None, None, None]).unwrap();
    assert!(out.contains("한국어 보고"));
}

#[test]
fn missing_skill_returns_error() {
    let name = skill_load::request(&args(r#"{"name":"nope"}"#)).unwrap();
    let err = skills::load(&name, &[None, None, None, None]).unwrap_err();
    assert!(err.message().contains("찾을 수 없습니다"));
}

#[test]
fn missing_name_returns_error() {
    assert!(skill_load::request(&args("{}")).is_err());
}

#[test]
fn truncate_keeps_short() {
    let s = "short";
    assert_eq!(truncate_tool_result(s, "bash", 100), s);
}

#[test]
fn truncate_appends_hint() {
    let s = "x".repeat(100);
    let out = truncate_tool_result(&s, "bash", 50);
    assert!(out.contains("...truncated"));
    assert!(out.contains("파일로 redirect"));
}

#[test]
fn truncate_hint_differs_by_tool() {
    let s = "x".repeat(100);
    let grep_out = truncate_tool_result(&s, "grep", 50);
    assert!(grep_out.contains("패턴·glob 좁히기"));
}

#[test]
fn summarize_args_shortens_long_strings() {
    let a = Json::object(vec![("command".to_string(), Json::string(&"a".repeat(200)))]);
    let out = summarize_args(&a, 10);
    assert!(out.contains("command=a"));
    assert!(out.contains("…"));
}

#[test]
fn writes_are_asked_for_with_a_path() {
    let call = write_file::request(&args(r#"{"path":"out.txt","content":"hello"}"#)).ok().unwrap();
    assert_eq!((call.path.as_str(), call.content.as_str()), ("out.txt", "hello"));
    assert!(write_file::done(&call).contains("out.txt"));
    assert!(write_file::write_error("e").contains("e"));
    assert!(write_file::directory_error("e").contains("e"));
}

#[test]
fn missing_path_is_error() {
    assert!(write_file::request(&args(r#"{"content":"x"}"#)).is_err());
}

#[test]
fn arguments_have_defaults() {
    let a = args(r#"{"s":"x","n":3,"b":true,"neg":-1}"#);
    assert_eq!(str_arg(&a, "s").as_deref(), Some("x"));
    assert_eq!(str_arg(&a, "n"), None);
    assert_eq!(number_arg(&a, "n"), Some(3));
    assert_eq!(number_arg(&a, "neg"), None);
    assert_eq!(int_arg(&a, "missing", 9), 9);
    assert!(bool_arg(&a, "b", false));
    assert!(!bool_arg(&a, "s", false));
}

#[test]
fn only_files_are_read() {
    let call = ReadCall { path: "a.PNG".to_string(), offset: None, limit: 200 };
    assert_eq!(reading(&call, Target::File, true, Some("PNG")), Ok(Reading::Image));
    assert_eq!(reading(&call, Target::File, false, Some("PNG")), Ok(Reading::Text));
    assert_eq!(reading(&call, Target::File, true, Some("rs")), Ok(Reading::Text));
    assert_eq!(reading(&call, Target::File, true, None), Ok(Reading::Text));
    let missing = reading(&call, Target::Nothing, true, Some("PNG")).unwrap_err();
    assert!(missing.contains("찾을 수 없습니다"));
    assert!(missing.ends_with("a.PNG"));
    assert!(reading(&call, Target::Directory, true, None).unwrap_err().contains("디렉터리"));
}

#[test]
fn grep_names_a_missing_place() {
    assert_eq!(grep::missing_error("Some(\"x\")"), "grep: 경로를 찾을 수 없습니다: Some(\"x\")");
}
