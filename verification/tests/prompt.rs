//! The system prompt and the skills in it.
use bulti::cli::prompt_cmd::override_from_run_args;
use bulti::config::{Config, EndpointConfig};
use bulti::prompt::{
    assemble, build_index, context_from_config, editor_failed, editor_missing,
    global_prompt_path, project_prompt_path, render_template, template_values, Body, McpIndex,
    Override, PromptContext, TemplateValues, INDEX_HEADER,
};
use bulti::skills::{
    candidates, discover, entry_kind, global_skills_dir, load, parse_frontmatter,
    project_skills_dir, EntryKind, SkillError, SkillIndex,
};

fn test_ctx(root: &str, global: &str) -> PromptContext {
    PromptContext {
        cwd: root.to_string(),
        endpoint: "main".to_string(),
        endpoint_config: Some(EndpointConfig {
            url: "http://127.0.0.1:8084/v1".to_string(),
            api_key: None,
            model: "qwen3".to_string(),
            context_tokens: 16384,
            vision: false,
            thinking: false,
            max_iterations: 200,
            reasoning_effort: None,
            input_price_per_mtok: None,
            output_price_per_mtok: None,
        }),
        global_dir: global.to_string(),
        project_root: root.to_string(),
        skills: vec![SkillIndex {
            name: "korean-report".to_string(),
            description: "한국어 보고 스타일".to_string(),
        }],
        mcp_servers: vec![McpIndex {
            name: "files".to_string(),
            description: "파일시스템 접근".to_string(),
        }],
    }
}

fn layers(global: &str, project: &str) -> Body {
    Body::Layers { global: global.to_string(), project: project.to_string() }
}

#[test]
fn template_variable_substitution() {
    let values = TemplateValues {
        cwd: "/tmp/proj".to_string(),
        os: "linux".to_string(),
        endpoint: "main".to_string(),
        model: "qwen3".to_string(),
        context_tokens: "16384".to_string(),
    };
    let text = "cwd={{cwd}} os={{os}} ep={{endpoint}} m={{model}} c={{context_tokens}}";
    let out = render_template(text, &values);
    assert_eq!(out, "cwd=/tmp/proj os=linux ep=main m=qwen3 c=16384");
}

#[test]
fn template_unknown_variable_stays() {
    let values = TemplateValues {
        cwd: "c".to_string(),
        os: "o".to_string(),
        endpoint: "e".to_string(),
        model: "m".to_string(),
        context_tokens: "0".to_string(),
    };
    let out = render_template("{{unknown}}", &values);
    assert_eq!(out, "{{unknown}}");
}

#[test]
fn index_contains_skills_mcp_history() {
    let ctx = test_ctx("/tmp/proj", "/tmp");
    let index = build_index(&ctx);
    assert!(index.contains("korean-report"));
    assert!(index.contains("files"));
    assert!(index.contains("history_list"));
    assert!(index.contains("skill_load"));
    assert!(index.contains("mcp_tools"));
}

#[test]
fn index_empty_lists() {
    let mut ctx = test_ctx("/tmp/proj", "/tmp");
    ctx.skills.clear();
    ctx.mcp_servers.clear();
    let index = build_index(&ctx);
    assert!(index.contains("스킬: 없음"));
    assert!(index.contains("MCP 서버: 없음"));
    assert!(index.contains("history_list"));
}

#[test]
fn merge_layers_builtin_global_project_index() {
    let ctx = test_ctx("/tmp/proj", "/tmp/global");
    let out = assemble(&ctx, "linux", &layers("글로벌 지시 {{cwd}}", "프로젝트 지시"));
    assert!(out.contains("불티(Bulti) — 로컬 LLM 코딩 에이전트"));
    assert!(out.contains("글로벌 지시"));
    assert!(out.contains("프로젝트 지시"));
    assert!(out.contains(INDEX_HEADER));
    assert!(out.contains("글로벌 지시 /tmp/proj"));
    let base_pos = out.find("불티(Bulti)").unwrap();
    let global_pos = out.find("글로벌 지시").unwrap();
    let proj_pos = out.find("프로젝트 지시").unwrap();
    let idx_pos = out.find(INDEX_HEADER).unwrap();
    assert!(base_pos < global_pos);
    assert!(global_pos < proj_pos);
    assert!(proj_pos < idx_pos);
}

#[test]
fn merge_skips_missing_layers() {
    let ctx = test_ctx("/tmp/proj", "/tmp/global");
    let out = assemble(&ctx, "linux", &layers("", ""));
    assert!(out.contains("불티(Bulti)"));
    assert!(!out.contains("글로벌 지시"));
    assert!(!out.contains("프로젝트 지시"));
    assert!(out.contains(INDEX_HEADER));
}

#[test]
fn inline_override_replaces_all_keeps_index() {
    let ctx = test_ctx("/tmp/proj", "/tmp/global");
    let out = assemble(&ctx, "linux", &Body::Replaced("완전 교체 {{cwd}}".to_string()));
    assert!(!out.contains("불티(Bulti)"));
    assert!(!out.contains("글로벌 지시"));
    assert!(!out.contains("프로젝트 지시"));
    assert!(out.contains("완전 교체 /tmp/proj"));
    assert!(out.contains(INDEX_HEADER));
}

#[test]
fn file_override_replaces_all_keeps_index() {
    let ctx = test_ctx("/tmp/proj", "/tmp/global");
    let out = assemble(&ctx, "linux", &Body::Replaced("파일 교체 {{os}}".to_string()));
    assert!(!out.contains("불티(Bulti)"));
    assert!(out.contains("파일 교체 linux"));
    assert!(out.contains(INDEX_HEADER));
}

#[test]
fn template_values_from_context() {
    let ctx = test_ctx("/tmp/proj", "/tmp");
    let v = template_values(&ctx, "linux");
    assert_eq!(v.cwd, "/tmp/proj");
    assert_eq!(v.endpoint, "main");
    assert_eq!(v.model, "qwen3");
    assert_eq!(v.context_tokens, "16384");
    assert!(!v.os.is_empty());
}

#[test]
fn context_from_config_no_endpoint() {
    let cfg = Config::new();
    let ctx = context_from_config(&cfg, "/tmp", "/tmp", "/tmp", vec![], vec![]);
    assert_eq!(ctx.endpoint, "(없음)");
    assert!(ctx.endpoint_config.is_none());
}

#[test]
fn prompt_files_stand_in_their_directories() {
    assert!(global_prompt_path("/home/me/.bulti").starts_with("/home/me/.bulti/"));
    assert!(project_prompt_path("/work").starts_with("/work/.bulti/"));
}

#[test]
fn editors_that_fail_are_told_of() {
    assert_eq!(
        editor_failed("vi", Some(2)).message(),
        "템플릿 변수 치환에 실패했습니다: 편집기가 오류 상태로 종료되었습니다 (exit 2): vi"
    );
    assert!(editor_failed("vi", None).message().contains("(exit -1)"));
    assert!(editor_missing("vi", "없음").message().contains("편집기 실행 실패 (vi): 없음"));
}

#[test]
fn override_prefers_file_over_inline() {
    let o = override_from_run_args(&Some("f.md".to_string()), &Some("text".to_string()));
    match o {
        Some(Override::File(p)) => assert_eq!(p, "f.md"),
        _ => panic!("파일 우선이어야 함"),
    }
}

#[test]
fn override_inline_only() {
    let o = override_from_run_args(&None, &Some("text".to_string()));
    match o {
        Some(Override::Inline(t)) => assert_eq!(t, "text"),
        _ => panic!("인라인"),
    }
}

#[test]
fn override_none() {
    assert!(override_from_run_args(&None, &None).is_none());
}

#[test]
fn parses_frontmatter() {
    let body = "---\nname: korean-report\ndescription: 한국어 보고 스타일\n---\n본문";
    let (name, desc) = parse_frontmatter(body).unwrap();
    assert_eq!(name, "korean-report");
    assert_eq!(desc, "한국어 보고 스타일");
}

#[test]
fn frontmatter_quotes_trimmed() {
    let body = "---\nname: \"commit-message\"\ndescription: \"커밋 메시지 규약\"\n---\n본문";
    let (name, desc) = parse_frontmatter(body).unwrap();
    assert_eq!(name, "commit-message");
    assert_eq!(desc, "커밋 메시지 규약");
}

#[test]
fn missing_frontmatter_errors() {
    let body = "본문만 있는 스킬";
    assert!(parse_frontmatter(body).is_err());
}

#[test]
fn missing_field_errors() {
    let body = "---\nname: only-name\n---\n본문";
    assert!(parse_frontmatter(body).is_err());
}

#[test]
fn discover_project_then_global() {
    let global_only = "---\nname: global-only\ndescription: 글로벌 전용\n---\n글로벌 본문";
    let same_project = "---\nname: same-name\ndescription: 프로젝트 버전\n---\n프로젝트 본문";
    let same_global = "---\nname: same-name\ndescription: 글로벌 버전\n---\n글로벌 본문";
    let indices = discover(
        &[same_project.to_string()],
        &[global_only.to_string(), same_global.to_string()],
    );
    let names: Vec<&str> = indices.iter().map(|s| s.name.as_str()).collect();
    assert!(names.contains(&"global-only"));
    assert!(names.contains(&"same-name"));
    let same = indices.iter().find(|s| s.name == "same-name").unwrap();
    assert_eq!(same.description, "프로젝트 버전");
    let loaded = load(
        "same-name",
        &[Some(same_project.to_string()), Some(same_global.to_string())],
    )
    .unwrap();
    assert!(loaded.contains("프로젝트 본문"));
    assert!(names.contains(&"korean-report"));
    assert!(names.contains(&"commit-message"));
}

#[test]
fn load_bundled_skill() {
    let loaded = load("korean-report", &[None, None]).unwrap();
    assert!(loaded.contains("한국어 보고"));
}

#[test]
fn load_missing_skill_errors() {
    let err = load("nonexistent", &[None, None]).unwrap_err();
    assert!(matches!(err, SkillError::NotFound { .. }));
}

#[test]
fn directory_skill_discovered() {
    assert_eq!(entry_kind("res-skill", false, true, true), EntryKind::Directory);
    assert_eq!(entry_kind("asset.txt", true, false, false), EntryKind::Other);
    let body = "---\nname: res-skill\ndescription: 리소스 동반 스킬\n---\n본문";
    let indices = discover(&[body.to_string()], &[body.to_string()]);
    let skill = indices.iter().find(|s| s.name == "res-skill").unwrap();
    assert_eq!(skill.description, "리소스 동반 스킬");
    let loaded = load("res-skill", &[None, Some(body.to_string())]).unwrap();
    assert!(loaded.contains("본문"));
}

#[test]
fn skill_files_have_two_places() {
    assert_eq!(
        candidates("x"),
        ("x.md".to_string(), "x/SKILL.md".to_string())
    );
    assert_eq!(project_skills_dir("/work"), "/work/.bulti/skills");
    assert_eq!(global_skills_dir("/home/me/.bulti"), "/home/me/.bulti/skills");
    assert_eq!(entry_kind("x.md", true, false, false), EntryKind::File);
    assert_eq!(entry_kind("x", false, true, false), EntryKind::Other);
}
