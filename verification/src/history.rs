//! The history of runs.
//!
//! Every run is a row of a database: it is inserted as running when it starts
//! and updated when it ends. A run that a handoff started points to the run
//! before it. This module holds the statements, what they are given, and what
//! the rows mean.
use vstd::prelude::*;

use crate::calendar::rfc3339;
use crate::calendar;
use crate::config::Config;
use crate::config;
use crate::json::{Json, JsonModel};
use crate::json;
use crate::paths;
use crate::text;

verus! {

/// The name of the database file.
pub const HISTORY_DB_FILENAME: &'static str = "history.db";

/// The state of a run.
#[derive(Debug, Clone, Copy, PartialEq, Eq, Structural)]
pub enum RunStatus {
    Running,
    Completed,
    Failed,
    Incomplete,
    Interrupted,
}

impl RunStatus {
    /// The name under which a state is stored.
    pub open spec fn name(self) -> Seq<char> {
        match self {
            RunStatus::Running => "running"@,
            RunStatus::Completed => "completed"@,
            RunStatus::Failed => "failed"@,
            RunStatus::Incomplete => "incomplete"@,
            RunStatus::Interrupted => "interrupted"@,
        }
    }

    /// The state that a name stands for; an unknown name stands for a run that
    /// still runs.
    pub open spec fn named(s: Seq<char>) -> RunStatus {
        if s == "completed"@ {
            RunStatus::Completed
        } else if s == "failed"@ {
            RunStatus::Failed
        } else if s == "incomplete"@ {
            RunStatus::Incomplete
        } else if s == "interrupted"@ {
            RunStatus::Interrupted
        } else {
            RunStatus::Running
        }
    }

    /// The name under which the state is stored.
    pub fn as_str(&self) -> (r: &'static str)
        ensures
            r@ == self.name(),
    {
        match self {
            RunStatus::Running => "running",
            RunStatus::Completed => "completed",
            RunStatus::Failed => "failed",
            RunStatus::Incomplete => "incomplete",
            RunStatus::Interrupted => "interrupted",
        }
    }

    /// The state that a name stands for.
    pub fn from_str(s: &str) -> (r: Self)
        ensures
            r == RunStatus::named(s@),
    {
        if text::str_eq(s, "completed") {
            RunStatus::Completed
        } else if text::str_eq(s, "failed") {
            RunStatus::Failed
        } else if text::str_eq(s, "incomplete") {
            RunStatus::Incomplete
        } else if text::str_eq(s, "interrupted") {
            RunStatus::Interrupted
        } else {
            RunStatus::Running
        }
    }
}

/// What can go wrong with the history, with the cause in words.
#[derive(Debug, Clone, PartialEq, Eq)]
pub enum HistoryError {
    HomeDirNotFound(String),
    Db(String),
    Open(String),
    Json(String),
}

impl HistoryError {
    /// The message of an error.
    pub open spec fn text(self) -> Seq<char> {
        match self {
            HistoryError::HomeDirNotFound(e) => "홈 디렉터리를 찾을 수 없습니다: "@ + e@,
            HistoryError::Db(e) => "DB 작업 실패: "@ + e@,
            HistoryError::Open(e) => "DB 열기 실패: "@ + e@,
            HistoryError::Json(e) => "JSON 직렬화 실패: "@ + e@,
        }
    }

    /// The message of the error.
    pub fn message(&self) -> (r: String)
        ensures
            r@ == self.text(),
    {
        match self {
            HistoryError::HomeDirNotFound(e) => "홈 디렉터리를 찾을 수 없습니다: ".to_string().concat(e),
            HistoryError::Db(e) => "DB 작업 실패: ".to_string().concat(e),
            HistoryError::Open(e) => "DB 열기 실패: ".to_string().concat(e),
            HistoryError::Json(e) => "JSON 직렬화 실패: ".to_string().concat(e),
        }
    }
}

/// The database file, below the home directory.
pub fn history_db_path(home: &Option<String>) -> (r: Result<String, HistoryError>)
    ensures
        match r {
            Ok(p) => home is Some && p@ == paths::below(
                config::dir_below(home->0@),
                HISTORY_DB_FILENAME@,
            ),
            Err(e) => home is None && e.text() == "홈 디렉터리를 찾을 수 없습니다: "@ + (
            "설정 디렉터리를 찾을 수 없습니다: "@ + "홈 디렉터리 미해석"@),
        },
{
    match Config::config_dir(home) {
        Ok(dir) => Ok(paths::join(&dir, HISTORY_DB_FILENAME)),
        Err(e) => Err(HistoryError::HomeDirNotFound(e.message())),
    }
}

/// A point in time in the form of RFC 3339, given in seconds since the first of
/// January 1970.
pub fn now_rfc3339(secs: u64) -> (r: String)
    ensures
        calendar::tells_time(secs as int, r@),
{
    rfc3339(secs)
}

/// The statement that makes the table where there is none.
pub const CREATE_RUNS: &'static str =
    "CREATE TABLE IF NOT EXISTS runs (
    id            INTEGER PRIMARY KEY,
    started_at    TEXT NOT NULL,
    finished_at   TEXT,
    cwd           TEXT NOT NULL,
    endpoint      TEXT NOT NULL,
    model         TEXT,
    status        TEXT NOT NULL,
    prompt        TEXT NOT NULL,
    result        TEXT,
    chain_id      TEXT NOT NULL,
    segment_index INTEGER NOT NULL DEFAULT 0,
    handoff_depth INTEGER NOT NULL DEFAULT 0,
    parent_run_id INTEGER,
    input_tokens  INTEGER,
    output_tokens INTEGER,
    files_touched TEXT,
    duration_ms   INTEGER
);";

/// The statement that inserts a run.
pub const INSERT_RUN: &'static str =
    "INSERT INTO runs (
    started_at, cwd, endpoint, model, status, prompt,
    chain_id, segment_index, handoff_depth, parent_run_id
) VALUES (?1, ?2, ?3, ?4, 'running', ?5, ?6, ?7, ?8, ?9)";

/// The statement that notes the end of a run.
pub const UPDATE_RUN: &'static str =
    "UPDATE runs SET
    finished_at = ?1, status = ?2, result = ?3,
    input_tokens = ?4, output_tokens = ?5,
    files_touched = ?6, duration_ms = ?7
WHERE id = ?8";

/// The beginning of every query: the columns in the order of a row's fields.
pub const SELECT_RUNS: &'static str =
    "SELECT id, started_at, finished_at, cwd, endpoint, model, status, prompt, result, chain_id, segment_index, handoff_depth, parent_run_id, input_tokens, output_tokens, files_touched, duration_ms FROM runs";

/// A value handed to a statement.
#[derive(Debug, Clone, PartialEq, Eq)]
pub enum Param {
    Null,
    Text(String),
    Int(i64),
    UInt(u64),
}

/// A value handed to a statement, with its text as characters.
pub enum ParamModel {
    Null,
    Text(Seq<char>),
    Int(i64),
    UInt(u64),
}

impl View for Param {
    type V = ParamModel;

    open spec fn view(&self) -> ParamModel {
        match self {
            Param::Null => ParamModel::Null,
            Param::Text(s) => ParamModel::Text(s@),
            Param::Int(n) => ParamModel::Int(*n),
            Param::UInt(n) => ParamModel::UInt(*n),
        }
    }
}

/// The views of a list of values.
pub open spec fn param_views(v: Seq<Param>) -> Seq<ParamModel> {
    v.map_values(|p: Param| p@)
}

/// An optional text as a value.
pub open spec fn text_or_null(s: Option<String>) -> ParamModel {
    match s {
        Some(t) => ParamModel::Text(t@),
        None => ParamModel::Null,
    }
}

/// An optional number as a value.
pub open spec fn number_or_null(n: Option<u64>) -> ParamModel {
    match n {
        Some(m) => ParamModel::UInt(m),
        None => ParamModel::Null,
    }
}

/// An optional text as a value.
fn text_param(s: &Option<String>) -> (r: Param)
    ensures
        r@ == text_or_null(*s),
{
    match s {
        Some(t) => Param::Text(t.clone()),
        None => Param::Null,
    }
}

/// An optional number as a value.
fn number_param(n: Option<u64>) -> (r: Param)
    ensures
        r@ == number_or_null(n),
{
    match n {
        Some(m) => Param::UInt(m),
        None => Param::Null,
    }
}

/// What is known of a run when it starts.
pub struct RunStart {
    pub cwd: String,
    pub endpoint: String,
    pub model: Option<String>,
    pub prompt: String,
    pub chain_id: String,
    pub segment_index: u32,
    pub handoff_depth: u32,
    pub parent_run_id: Option<i64>,
}

/// The values that insert a run, from what is known of it and the time.
pub fn start_run(info: &RunStart, now: &str) -> (r: Vec<Param>)
    ensures
        param_views(r@) == seq![
            ParamModel::Text(now@),
            ParamModel::Text(info.cwd@),
            ParamModel::Text(info.endpoint@),
            text_or_null(info.model),
            ParamModel::Text(info.prompt@),
            ParamModel::Text(info.chain_id@),
            ParamModel::UInt(info.segment_index as u64),
            ParamModel::UInt(info.handoff_depth as u64),
            match info.parent_run_id {
                Some(id) => ParamModel::Int(id),
                None => ParamModel::Null,
            },
        ],
{
    let mut v: Vec<Param> = Vec::new();
    v.push(Param::Text(now.to_string()));
    v.push(Param::Text(info.cwd.clone()));
    v.push(Param::Text(info.endpoint.clone()));
    v.push(text_param(&info.model));
    v.push(Param::Text(info.prompt.clone()));
    v.push(Param::Text(info.chain_id.clone()));
    v.push(Param::UInt(info.segment_index as u64));
    v.push(Param::UInt(info.handoff_depth as u64));
    v.push(
        match info.parent_run_id {
            Some(id) => Param::Int(id),
            None => Param::Null,
        },
    );
    proof {
        assert(param_views(v@) =~= seq![
            ParamModel::Text(now@),
            ParamModel::Text(info.cwd@),
            ParamModel::Text(info.endpoint@),
            text_or_null(info.model),
            ParamModel::Text(info.prompt@),
            ParamModel::Text(info.chain_id@),
            ParamModel::UInt(info.segment_index as u64),
            ParamModel::UInt(info.handoff_depth as u64),
            match info.parent_run_id {
                Some(id) => ParamModel::Int(id),
                None => ParamModel::Null,
            },
        ]);
    }
    v
}

/// What is known of a run when it ends.
pub struct RunFinish {
    pub status: RunStatus,
    pub result: Option<String>,
    pub input_tokens: Option<u64>,
    pub output_tokens: Option<u64>,
    pub files_touched: Vec<String>,
    pub duration_ms: Option<u64>,
}

/// A list of texts as a JSON array.
pub open spec fn text_array(v: Seq<Seq<char>>) -> JsonModel {
    JsonModel::Array(v.map_values(|s: Seq<char>| JsonModel::Str(s)))
}

/// The text under which a list of files is stored: a JSON array.
pub fn files_json(files: &[String]) -> (r: String)
    ensures
        r@ == json::json_print(text_array(text::views(files@))),
        json::json_parse(r@) == Some(text_array(text::views(files@))),
{
    let mut v: Vec<Json> = Vec::new();
    let mut i: usize = 0;
    while i < files.len()
        invariant
            i <= files.len(),
            v@.len() == i,
            forall|k: int| 0 <= k < i ==> (#[trigger] v@[k])@ == JsonModel::Str(files@[k]@),
        decreases files.len() - i,
    {
        v.push(Json::string(&files[i]));
        i = i + 1;
    }
    proof {
        assert(Json::items(v@) =~= text_array(text::views(files@))->Array_0);
    }
    let j = Json::array(v);
    j.to_text()
}

/// The values that note the end of a run, from what is known of it and the
/// time.
pub fn finish_run(id: i64, info: &RunFinish, now: &str) -> (r: Vec<Param>)
    ensures
        param_views(r@) == seq![
            ParamModel::Text(now@),
            ParamModel::Text(info.status.name()),
            text_or_null(info.result),
            number_or_null(info.input_tokens),
            number_or_null(info.output_tokens),
            ParamModel::Text(json::json_print(text_array(text::views(info.files_touched@)))),
            number_or_null(info.duration_ms),
            ParamModel::Int(id),
        ],
{
    let mut v: Vec<Param> = Vec::new();
    v.push(Param::Text(now.to_string()));
    v.push(Param::Text(info.status.as_str().to_string()));
    v.push(text_param(&info.result));
    v.push(number_param(info.input_tokens));
    v.push(number_param(info.output_tokens));
    v.push(Param::Text(files_json(&info.files_touched)));
    v.push(number_param(info.duration_ms));
    v.push(Param::Int(id));
    proof {
        assert(param_views(v@) =~= seq![
            ParamModel::Text(now@),
            ParamModel::Text(info.status.name()),
            text_or_null(info.result),
            number_or_null(info.input_tokens),
            number_or_null(info.output_tokens),
            ParamModel::Text(json::json_print(text_array(text::views(info.files_touched@)))),
            number_or_null(info.duration_ms),
            ParamModel::Int(id),
        ]);
    }
    v
}

/// A row of the history.
#[derive(Debug, Clone, PartialEq, Eq)]
pub struct RunRow {
    pub id: i64,
    pub started_at: String,
    pub finished_at: Option<String>,
    pub cwd: String,
    pub endpoint: String,
    pub model: Option<String>,
    pub status: String,
    pub prompt: String,
    pub result: Option<String>,
    pub chain_id: String,
    pub segment_index: u32,
    pub handoff_depth: u32,
    pub parent_run_id: Option<i64>,
    pub input_tokens: Option<u64>,
    pub output_tokens: Option<u64>,
    pub files_touched: Option<String>,
    pub duration_ms: Option<u64>,
}

/// A query with the values handed to it.
pub struct RunQuery {
    pub sql: String,
    pub args: Vec<Param>,
}

/// The conditions of a query for runs.
pub open spec fn conditions(status: bool, chain: bool) -> Seq<char> {
    if status && chain {
        " WHERE status = ? AND chain_id = ?"@
    } else if status {
        " WHERE status = ?"@
    } else if chain {
        " WHERE chain_id = ?"@
    } else {
        ""@
    }
}

/// The values of a query's conditions.
pub open spec fn condition_values(
    status: Option<Seq<char>>,
    chain: Option<Seq<char>>,
) -> Seq<ParamModel> {
    (match status {
        Some(s) => seq![ParamModel::Text(s)],
        None => Seq::empty(),
    }) + match chain {
        Some(c) => seq![ParamModel::Text(c)],
        None => Seq::empty(),
    }
}

/// The view of an optional text.
pub open spec fn opt_text(s: Option<&str>) -> Option<Seq<char>> {
    match s {
        Some(t) => Some(t@),
        None => None,
    }
}

/// The query for runs, the newest first: those in a state and of a chain, where
/// these are given, and no more than a limit, where it is given.
pub fn list_runs(limit: Option<u64>, status: Option<&str>, chain_id: Option<&str>) -> (r: RunQuery)
    ensures
        r.sql@ == SELECT_RUNS@ + conditions(status is Some, chain_id is Some)
            + " ORDER BY id DESC"@ + match limit {
            Some(n) => " LIMIT "@ + text::decimal(n as nat),
            None => Seq::empty(),
        },
        param_views(r.args@) == condition_values(opt_text(status), opt_text(chain_id)),
{
    let mut sql = SELECT_RUNS.to_string();
    let mut args: Vec<Param> = Vec::new();
    if status.is_some() && chain_id.is_some() {
        sql.append(" WHERE status = ? AND chain_id = ?");
    } else if status.is_some() {
        sql.append(" WHERE status = ?");
    } else if chain_id.is_some() {
        sql.append(" WHERE chain_id = ?");
    } else {
        sql.append("");
    }
    sql.append(" ORDER BY id DESC");
    let ghost before = sql@;
    match limit {
        Some(n) => {
            sql.append(" LIMIT ");
            text::push_decimal(&mut sql, n);
            proof {
                assert(sql@ =~= before + (" LIMIT "@ + text::decimal(n as nat)));
            }
        },
        None => {
            proof {
                assert(sql@ =~= before + Seq::<char>::empty());
            }
        },
    }
    match status {
        Some(s) => {
            args.push(Param::Text(s.to_string()));
        },
        None => {},
    }
    match chain_id {
        Some(c) => {
            args.push(Param::Text(c.to_string()));
        },
        None => {},
    }
    proof {
        assert(param_views(args@) =~= condition_values(opt_text(status), opt_text(chain_id)));
    }
    RunQuery { sql, args }
}

/// The query for one run, by its number.
pub fn get_run(id: i64) -> (r: RunQuery)
    ensures
        r.sql@ == SELECT_RUNS@ + " WHERE id = ?"@,
        param_views(r.args@) == seq![ParamModel::Int(id)],
{
    let mut sql = SELECT_RUNS.to_string();
    sql.append(" WHERE id = ?");
    let mut args: Vec<Param> = Vec::new();
    args.push(Param::Int(id));
    proof {
        assert(param_views(args@) =~= seq![ParamModel::Int(id)]);
    }
    RunQuery { sql, args }
}

/// The query for the newest run, of a chain where one is given.
pub fn last_run(chain: Option<&str>) -> (r: RunQuery)
    ensures
        r.sql@ == SELECT_RUNS@ + conditions(false, chain is Some) + " ORDER BY id DESC"@
            + (" LIMIT "@ + text::decimal(1)),
        param_views(r.args@) == condition_values(None, opt_text(chain)),
{
    list_runs(Some(1), None, chain)
}

/// The texts of a JSON array of strings; nothing where the value is no such
/// array.
pub open spec fn texts_of(j: Option<JsonModel>) -> Seq<Seq<char>> {
    match j {
        Some(JsonModel::Array(items)) => if forall|i: int|
            0 <= i < items.len() ==> (#[trigger] items[i]) is Str {
            items.map_values(|v: JsonModel| v->Str_0)
        } else {
            Seq::empty()
        },
        _ => Seq::empty(),
    }
}

/// The texts of a JSON array of strings.
pub fn files_of(j: &Option<Json>) -> (r: Vec<String>)
    ensures
        text::views(r@) == texts_of(
            match j {
                Some(v) => Some(v@),
                None => None,
            },
        ),
{
    let mut out: Vec<String> = Vec::new();
    match j {
        Some(v) => match v.as_array() {
            Some(items) => {
                let ghost model = Json::items(items@);
                let mut i: usize = 0;
                while i < items.len()
                    invariant
                        i <= items.len(),
                        *j == Some(*v),
                        model == Json::items(items@),
                        v@ == JsonModel::Array(model),
                        out@.len() == i,
                        forall|k: int| 0 <= k < i ==> (#[trigger] model[k]) is Str,
                        forall|k: int| 0 <= k < i ==> (#[trigger] out@[k])@ == model[k]->Str_0,
                    decreases items.len() - i,
                {
                    assert(model[i as int] == items@[i as int]@);
                    match items[i].as_str() {
                        Some(s) => {
                            out.push(s.to_string());
                        },
                        None => {
                            let none: Vec<String> = Vec::new();
                            proof {
                                assert(!(model[i as int] is Str));
                                assert(text::views(none@) =~= Seq::empty());
                            }
                            return none;
                        },
                    }
                    i = i + 1;
                }
                proof {
                    assert(text::views(out@) =~= texts_of(Some(v@)));
                }
            },
            None => {},
        },
        None => {},
    }
    proof {
        assert(out@.len() == 0 ==> text::views(out@) =~= Seq::empty());
    }
    out
}

/// The files that a run has touched, from the text under which they are stored.
pub fn parse_files_touched(json: Option<&str>) -> (r: Vec<String>)
    ensures
        text::views(r@) == match json {
            Some(s) => if s@.len() == 0 {
                Seq::empty()
            } else {
                texts_of(json::json_parse(s@))
            },
            None => Seq::empty(),
        },
{
    let none: Vec<String> = Vec::new();
    proof {
        assert(text::views(none@) =~= Seq::empty());
    }
    match json {
        Some(s) => if s.is_empty() {
            none
        } else {
            files_of(&Json::parse(s))
        },
        None => none,
    }
}

// ---------------------------------------------------------------------------
// Laws
// ---------------------------------------------------------------------------

/// A state is read back from its name.
pub proof fn law_status_names_roundtrip(status: RunStatus)
    ensures
        RunStatus::named(status.name()) == status,
{
    reveal_strlit("running");
    reveal_strlit("completed");
    reveal_strlit("failed");
    reveal_strlit("incomplete");
    reveal_strlit("interrupted");
    assert("running"@.len() == 7);
    assert("completed"@.len() == 9);
    assert("failed"@.len() == 6);
    assert("incomplete"@.len() == 10);
    assert("interrupted"@.len() == 11);
}

/// The files of a run are read back from the array that stores them.
pub proof fn law_files_roundtrip(files: Seq<Seq<char>>)
    ensures
        texts_of(Some(text_array(files))) == files,
{
    assert(texts_of(Some(text_array(files))) =~= files);
}

} // verus!
