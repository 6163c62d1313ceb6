//! Markdown on the console and on the screen.
use bulti::render::{parse, parse_inline, render_ansi, render_lines, Block, Inline};

#[test]
fn parses_code_block() {
    let blocks = parse("```rust\nfn main() {}\n```");
    assert_eq!(blocks.len(), 1);
    match &blocks[0] {
        Block::Code { lang, lines, open } => {
            assert_eq!(lang, "rust");
            assert_eq!(lines, &["fn main() {}"]);
            assert!(!open);
        }
        other => panic!("expected code, got {other:?}"),
    }
}

#[test]
fn unclosed_code_block_is_open() {
    let blocks = parse("```rust\nfn main() {");
    assert_eq!(blocks.len(), 1);
    match &blocks[0] {
        Block::Code { open, .. } => assert!(*open),
        other => panic!("expected open code, got {other:?}"),
    }
}

#[test]
fn parses_inline_code() {
    let inlines = parse_inline("use `std::io` here");
    assert!(inlines.iter().any(|i| matches!(i, Inline::Code(c) if c == "std::io")));
}

#[test]
fn unclosed_inline_code_still_renders() {
    let inlines = parse_inline("use `std");
    assert!(inlines.iter().any(|i| matches!(i, Inline::Code(c) if c == "std")));
}

#[test]
fn parses_table() {
    let blocks = parse("a | b\n--|---\n1 | 2");
    assert_eq!(blocks.len(), 1);
    match &blocks[0] {
        Block::Table { header, rows } => {
            assert_eq!(header, &["a", "b"]);
            assert_eq!(rows, &[vec!["1".to_string(), "2".to_string()]]);
        }
        other => panic!("expected table, got {other:?}"),
    }
}

#[test]
fn parses_list() {
    let blocks = parse("- one\n- two");
    assert_eq!(blocks.len(), 1);
    match &blocks[0] {
        Block::List { items } => {
            assert_eq!(items.len(), 2);
            assert_eq!(
                items[0],
                vec![Inline::Text("one".to_string())]
            );
            assert_eq!(
                items[1],
                vec![Inline::Text("two".to_string())]
            );
        }
        other => panic!("expected list, got {other:?}"),
    }
}

#[test]
fn parses_heading() {
    let blocks = parse("## 제목");
    assert_eq!(blocks.len(), 1);
    match &blocks[0] {
        Block::Heading { level, .. } => assert_eq!(*level, 2),
        other => panic!("expected heading, got {other:?}"),
    }
}

#[test]
fn render_ansi_contains_code_highlight() {
    let blocks = parse("```js\nlet x = 1;\n```\n`inline`");
    let out = render_ansi(&blocks);
    assert!(out.contains("let x = 1;"));
    assert!(out.contains("inline"));
}

#[test]
fn render_lines_has_code_frame() {
    let blocks = parse("```\ncode\n```");
    let lines = render_lines(&blocks);
    let all_text: Vec<String> = lines
        .iter()
        .map(|l| l.spans.iter().map(|s| s.content.as_str()).collect())
        .collect();
    assert!(all_text.iter().any(|t| t.contains("┌")));
    assert!(all_text.iter().any(|t| t.contains("code")));
}
