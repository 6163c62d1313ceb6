//! The history of runs, in a database in memory.
use bulti::history::{
    files_json, finish_run, get_run, history_db_path, last_run, list_runs, now_rfc3339,
    parse_files_touched, start_run, HistoryError, Param, RunFinish, RunQuery, RunRow, RunStart,
    RunStatus, CREATE_RUNS, INSERT_RUN, UPDATE_RUN,
};
use rusqlite::types::Value;
use rusqlite::{params_from_iter, Connection, Row};

fn value(p: &Param) -> Value {
    match p {
        Param::Null => Value::Null,
        Param::Text(s) => Value::Text(s.clone()),
        Param::Int(n) => Value::Integer(*n),
        Param::UInt(n) => Value::Integer(*n as i64),
    }
}

fn row_of(row: &Row) -> rusqlite::Result<RunRow> {
    Ok(RunRow {
        id: row.get(0)?,
        started_at: row.get(1)?,
        finished_at: row.get(2)?,
        cwd: row.get(3)?,
        endpoint: row.get(4)?,
        model: row.get(5)?,
        status: row.get(6)?,
        prompt: row.get(7)?,
        result: row.get(8)?,
        chain_id: row.get(9)?,
        segment_index: row.get(10)?,
        handoff_depth: row.get(11)?,
        parent_run_id: row.get(12)?,
        input_tokens: row.get(13)?,
        output_tokens: row.get(14)?,
        files_touched: row.get(15)?,
        duration_ms: row.get(16)?,
    })
}

fn temp_conn() -> Connection {
    let conn = Connection::open_in_memory().unwrap();
    conn.execute_batch(CREATE_RUNS).unwrap();
    conn
}

fn begin(conn: &Connection, info: &RunStart) -> i64 {
    let args = start_run(info, "2026-09-06T01:00:00Z");
    conn.execute(INSERT_RUN, params_from_iter(args.iter().map(value))).unwrap();
    conn.last_insert_rowid()
}

fn end(conn: &Connection, id: i64, info: &RunFinish) {
    let args = finish_run(id, info, "2026-09-06T01:00:09Z");
    conn.execute(UPDATE_RUN, params_from_iter(args.iter().map(value))).unwrap();
}

fn ask(conn: &Connection, query: &RunQuery) -> Vec<RunRow> {
    let mut stmt = conn.prepare(&query.sql).unwrap();
    let rows = stmt.query_map(params_from_iter(query.args.iter().map(value)), row_of).unwrap();
    rows.map(|r| r.unwrap()).collect()
}

fn run_start(conn: &Connection, chain: &str, seg: u32, depth: u32) -> i64 {
    begin(
        conn,
        &RunStart {
            cwd: "/tmp/proj".to_string(),
            endpoint: "local".to_string(),
            model: Some("m".to_string()),
            prompt: "프롬프트".to_string(),
            chain_id: chain.to_string(),
            segment_index: seg,
            handoff_depth: depth,
            parent_run_id: None,
        },
    )
}

fn finished(status: RunStatus, result: &str) -> RunFinish {
    RunFinish {
        status,
        result: Some(result.to_string()),
        input_tokens: None,
        output_tokens: None,
        files_touched: vec![],
        duration_ms: None,
    }
}

#[test]
fn init_schema_is_idempotent() {
    let conn = temp_conn();
    conn.execute_batch(CREATE_RUNS).unwrap();
    conn.execute_batch(CREATE_RUNS).unwrap();
}

#[test]
fn start_then_finish_run() {
    let conn = temp_conn();
    let id = run_start(&conn, "chain-1", 0, 0);
    assert!(id > 0);
    end(
        &conn,
        id,
        &RunFinish {
            status: RunStatus::Completed,
            result: Some("최종 결과".to_string()),
            input_tokens: Some(100),
            output_tokens: Some(50),
            files_touched: vec!["src/x.rs".to_string()],
            duration_ms: Some(1234),
        },
    );
    let rows = ask(&conn, &get_run(id));
    let row = &rows[0];
    assert_eq!(row.status, "completed");
    assert_eq!(row.result.as_deref(), Some("최종 결과"));
    assert_eq!(row.input_tokens, Some(100));
    assert_eq!(row.output_tokens, Some(50));
    assert_eq!(row.duration_ms, Some(1234));
    assert!(row.finished_at.is_some());
    assert_eq!(parse_files_touched(row.files_touched.as_deref()), vec!["src/x.rs"]);
}

#[test]
fn handoff_segment_links_parent() {
    let conn = temp_conn();
    let parent = run_start(&conn, "chain-1", 0, 0);
    let child = begin(
        &conn,
        &RunStart {
            cwd: "/tmp/proj".to_string(),
            endpoint: "local".to_string(),
            model: Some("m".to_string()),
            prompt: "핸드오프 요약+과제".to_string(),
            chain_id: "chain-1".to_string(),
            segment_index: 1,
            handoff_depth: 1,
            parent_run_id: Some(parent),
        },
    );
    assert!(child > parent);
    let rows = ask(&conn, &get_run(child));
    let child_row = &rows[0];
    assert_eq!(child_row.parent_run_id, Some(parent));
    assert_eq!(child_row.segment_index, 1);
    assert_eq!(child_row.handoff_depth, 1);
    assert_eq!(child_row.chain_id, "chain-1");
}

#[test]
fn list_runs_filters_and_limits() {
    let conn = temp_conn();
    let a = run_start(&conn, "chain-a", 0, 0);
    let b = run_start(&conn, "chain-b", 0, 0);
    let c = run_start(&conn, "chain-a", 1, 1);
    end(&conn, a, &finished(RunStatus::Completed, "r1"));
    end(&conn, b, &finished(RunStatus::Failed, "r2"));
    end(&conn, c, &finished(RunStatus::Completed, "r3"));
    let all = ask(&conn, &list_runs(None, None, None));
    assert_eq!(all.len(), 3);
    assert_eq!(all[0].id, c);
    assert_eq!(all[2].id, a);
    let completed = ask(&conn, &list_runs(None, Some("completed"), None));
    assert_eq!(completed.len(), 2);
    let chain_a = ask(&conn, &list_runs(None, None, Some("chain-a")));
    assert_eq!(chain_a.len(), 2);
    assert!(chain_a.iter().all(|r| r.chain_id == "chain-a"));
    let limited = ask(&conn, &list_runs(Some(2), None, None));
    assert_eq!(limited.len(), 2);
}

#[test]
fn both_conditions_hold_together() {
    let conn = temp_conn();
    let a = run_start(&conn, "chain-a", 0, 0);
    let b = run_start(&conn, "chain-b", 0, 0);
    run_start(&conn, "chain-a", 1, 1);
    end(&conn, a, &finished(RunStatus::Completed, "r1"));
    end(&conn, b, &finished(RunStatus::Completed, "r2"));
    let rows = ask(&conn, &list_runs(None, Some("completed"), Some("chain-a")));
    assert_eq!(rows.len(), 1);
    assert_eq!(rows[0].id, a);
    let running = ask(&conn, &list_runs(Some(5), Some("running"), None));
    assert_eq!(running.len(), 1);
}

#[test]
fn last_run_plain_and_chain() {
    let conn = temp_conn();
    let a = run_start(&conn, "chain-a", 0, 0);
    let b = run_start(&conn, "chain-b", 0, 0);
    end(&conn, a, &finished(RunStatus::Completed, "r1"));
    end(&conn, b, &finished(RunStatus::Completed, "r2"));
    let last = ask(&conn, &last_run(None));
    assert_eq!(last[0].id, b);
    let last_a = ask(&conn, &last_run(Some("chain-a")));
    assert_eq!(last_a[0].id, a);
}

#[test]
fn last_run_empty_returns_none() {
    let conn = temp_conn();
    assert!(ask(&conn, &last_run(None)).is_empty());
    assert!(ask(&conn, &get_run(999)).is_empty());
}

#[test]
fn rfc3339_is_well_formed() {
    let now = std::time::SystemTime::now()
        .duration_since(std::time::UNIX_EPOCH)
        .unwrap()
        .as_secs();
    let s = now_rfc3339(now);
    assert!(s.ends_with('Z'));
    assert!(s.contains('T'));
    assert_eq!(s.len(), 20);
}

#[test]
fn points_in_time_are_exact() {
    assert_eq!(now_rfc3339(0), "1970-01-01T00:00:00Z");
    assert_eq!(now_rfc3339(951782399), "2000-02-28T23:59:59Z");
    assert_eq!(now_rfc3339(951782400), "2000-02-29T00:00:00Z");
    assert_eq!(now_rfc3339(4107542400), "2100-03-01T00:00:00Z");
    assert_eq!(now_rfc3339(1767225599), "2025-12-31T23:59:59Z");
}

#[test]
fn parse_files_touched_handles_empty() {
    assert_eq!(parse_files_touched(None), Vec::<String>::new());
    assert_eq!(parse_files_touched(Some("")), Vec::<String>::new());
    assert_eq!(parse_files_touched(Some("[]")), Vec::<String>::new());
    assert_eq!(
        parse_files_touched(Some("[\"a.rs\",\"b.rs\"]")),
        vec!["a.rs".to_string(), "b.rs".to_string()]
    );
}

#[test]
fn files_come_back_as_they_were_stored() {
    let files = vec!["a \"b\".rs".to_string(), "줄\n바꿈".to_string(), String::new()];
    assert_eq!(parse_files_touched(Some(&files_json(&files))), files);
    assert_eq!(files_json(&["a.rs".to_string()]), "[\"a.rs\"]");
}

#[test]
fn states_have_names() {
    for s in [
        RunStatus::Running,
        RunStatus::Completed,
        RunStatus::Failed,
        RunStatus::Incomplete,
        RunStatus::Interrupted,
    ] {
        assert_eq!(RunStatus::from_str(s.as_str()), s);
    }
    assert_eq!(RunStatus::from_str("what"), RunStatus::Running);
}

#[test]
fn database_stands_below_the_home_directory() {
    assert_eq!(
        history_db_path(&Some("/home/me".to_string())).unwrap(),
        "/home/me/.bulti/history.db"
    );
    let err = history_db_path(&None).unwrap_err();
    assert!(matches!(err, HistoryError::HomeDirNotFound(_)));
    assert_eq!(
        err.message(),
        "홈 디렉터리를 찾을 수 없습니다: 설정 디렉터리를 찾을 수 없습니다: 홈 디렉터리 미해석"
    );
    assert_eq!(HistoryError::Db("e".to_string()).message(), "DB 작업 실패: e");
    assert_eq!(HistoryError::Open("e".to_string()).message(), "DB 열기 실패: e");
    assert_eq!(HistoryError::Json("e".to_string()).message(), "JSON 직렬화 실패: e");
}
