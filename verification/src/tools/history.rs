//! The `history_list` and `history_read` tools: earlier runs, for the model to
//! take up work again.
use vstd::prelude::*;

use crate::history::{parse_files_touched, RunRow};
use crate::history;
use crate::json::Json;
use crate::json;
use crate::text;
use crate::tools::{SpecModel, Tool, ToolRegistry};
use crate::tools;
use crate::tools::util;

verus! {

/// The parameters of `history_list`: name, kind and description.
pub const LIST_PARAMETERS: [(&'static str, &'static str, &'static str); 2] = [
    ("query", "string", "프롬프트/결과 부분일치 검색어 (선택)"),
    ("limit", "integer", "최대 조회 개수 (선택, 기본 10)"),
];

/// The parameters of `history_read`: name, kind and description.
pub const READ_PARAMETERS: [(&'static str, &'static str, &'static str); 1] = [
    ("run_id", "integer", "조회할 run id"),
];

/// The parameters of `history_read` that must be given.
pub const READ_REQUIRED: [&'static str; 1] = ["run_id"];

/// What the model reads about `history_list`.
pub const LIST_DESCRIPTION: &'static str =
    "이전 작업 히스토리를 조회합니다. '이전 작업 이어서' 같은 지시를 받으면 이 도구로 맥락을 회수하세요.";

/// What the model reads about `history_read`.
pub const READ_DESCRIPTION: &'static str =
    "특정 작업의 상세 내용(프롬프트·결과·토큰·파일)을 조회합니다.";

/// The schema of the parameters of `history_list`.
pub fn list_schema() -> (r: Json)
    ensures
        r@ == util::open_schema_of(LIST_PARAMETERS@),
{
    util::open_schema(&LIST_PARAMETERS)
}

/// The schema of the parameters of `history_read`.
pub fn read_schema() -> (r: Json)
    ensures
        r@ == util::schema_of(READ_PARAMETERS@, READ_REQUIRED@),
{
    util::object_schema(&READ_PARAMETERS, &READ_REQUIRED)
}

/// Registers `history_list`.
pub fn register_list(reg: &mut ToolRegistry<Tool>)
    requires
        old(reg).wf(),
    ensures
        final(reg).wf(),
        final(reg).vision == old(reg).vision,
        final(reg).model() == old(reg).model().insert(
            "history_list"@,
            (SpecModel {
                def: tools::definition_of(
                    "history_list"@,
                    LIST_DESCRIPTION@,
                    util::open_schema_of(LIST_PARAMETERS@),
                ),
                handler: Tool::HistoryList,
            }),
        ),
{
    reg.register("history_list", LIST_DESCRIPTION, list_schema(), Tool::HistoryList);
}

/// Registers `history_read`.
pub fn register_read(reg: &mut ToolRegistry<Tool>)
    requires
        old(reg).wf(),
    ensures
        final(reg).wf(),
        final(reg).vision == old(reg).vision,
        final(reg).model() == old(reg).model().insert(
            "history_read"@,
            (SpecModel {
                def: tools::definition_of(
                    "history_read"@,
                    READ_DESCRIPTION@,
                    util::schema_of(READ_PARAMETERS@, READ_REQUIRED@),
                ),
                handler: Tool::HistoryRead,
            }),
        ),
{
    reg.register("history_read", READ_DESCRIPTION, read_schema(), Tool::HistoryRead);
}

/// A search of the history.
pub struct ListCall {
    pub query: String,
    pub limit: u64,
}

/// Reads the arguments of `history_list`: nothing to search for and ten runs
/// where the call says nothing.
pub fn list_request(args: &Json) -> (r: ListCall)
    ensures
        r.query@ == text::or_empty(util::text_of(args@, "query"@)),
        r.limit == match util::number_of(args@, "limit"@) {
            Some(n) => n,
            None => 10,
        },
{
    let query = util::str_arg(args, "query");
    ListCall {
        query: text::unwrap_or_empty(&query),
        limit: util::int_arg(args, "limit", 10),
    }
}

/// A number of 64 bits read as one with a sign.
pub open spec fn as_signed(n: u64) -> int {
    if n < 0x8000_0000_0000_0000 {
        n as int
    } else {
        n - 0x1_0000_0000_0000_0000
    }
}

/// Reads the arguments of `history_read`: the number of a run, which must be
/// given and not zero.
pub fn read_request(args: &Json) -> (r: Result<i64, String>)
    ensures
        match r {
            Ok(id) => {
                &&& util::number_of(args@, "run_id"@) matches Some(n)
                &&& n != 0
                &&& id == as_signed(n)
            },
            Err(e) => {
                &&& util::number_of(args@, "run_id"@) matches Some(n) ==> n == 0
                &&& e@ == "run_id 는 정수여야 합니다"@
            },
        },
{
    let n = util::int_arg(args, "run_id", 0);
    if n == 0 {
        return Err("run_id 는 정수여야 합니다".to_string());
    }
    if n < 0x8000_0000_0000_0000 {
        Ok(n as i64)
    } else {
        Ok((n - 0x8000_0000_0000_0000) as i64 + i64::MIN)
    }
}

/// Whether a run is one that is searched for: its prompt or its result holds
/// the text.
pub open spec fn found(row: RunRow, query: Seq<char>) -> bool {
    query.len() == 0 || text::contains(row.prompt@, query) || text::contains(
        text::or_empty(text::opt_view(row.result)),
        query,
    )
}

/// The model of a run, or a dash.
pub open spec fn or_dash(s: Option<String>) -> Seq<char> {
    match s {
        Some(t) => t@,
        None => "-"@,
    }
}

/// An optional number in decimal, or a dash.
pub open spec fn number_or_dash(n: Option<u64>) -> Seq<char> {
    match n {
        Some(m) => text::decimal(m as nat),
        None => "-"@,
    }
}

/// An optional integer in decimal, or a dash.
pub open spec fn integer_or_dash(n: Option<i64>) -> Seq<char> {
    match n {
        Some(m) => text::signed_decimal(m as int),
        None => "-"@,
    }
}

/// A run in a list: two lines.
pub open spec fn summary(row: RunRow) -> Seq<char> {
    "#"@ + text::signed_decimal(row.id as int) + " ["@ + row.status@ + "] "@ + text::within(
        row.started_at@,
        19,
    ) + " | "@ + row.endpoint@ + " | "@ + or_dash(row.model) + " | seg "@ + text::decimal(
        row.segment_index as nat,
    ) + " | depth "@ + text::decimal(row.handoff_depth as nat) + "\n"@ + "  prompt: "@ + util::clipped(
        row.prompt@,
        120,
    ) + "\n"@
}

/// The runs that are searched for, one behind the other.
pub open spec fn summaries(rows: Seq<RunRow>, query: Seq<char>) -> Seq<char>
    decreases rows.len(),
{
    if rows.len() == 0 {
        Seq::empty()
    } else {
        summaries(rows.drop_last(), query) + if found(rows.last(), query) {
            summary(rows.last())
        } else {
            Seq::empty()
        }
    }
}

/// A text, or a dash where there is none.
pub fn text_or_dash(s: &Option<String>) -> (r: String)
    ensures
        r@ == or_dash(*s),
{
    match s {
        Some(t) => t.clone(),
        None => "-".to_string(),
    }
}

/// A number in decimal, or a dash where there is none.
pub fn show_or_dash(n: Option<u64>) -> (r: String)
    ensures
        r@ == number_or_dash(n),
{
    match n {
        Some(m) => text::show(m),
        None => "-".to_string(),
    }
}

/// An integer in decimal, or a dash where there is none.
pub fn show_signed_or_dash(n: Option<i64>) -> (r: String)
    ensures
        r@ == integer_or_dash(n),
{
    match n {
        Some(m) => text::show_signed(m),
        None => "-".to_string(),
    }
}

/// A run in a list. The time is shown up to the second.
fn summarize(row: &RunRow) -> (r: String)
    ensures
        r@ == summary(*row),
{
    let mut out = "#".to_string();
    out.append(&text::show_signed(row.id));
    out.append(" [");
    out.append(&row.status);
    out.append("] ");
    out.append(text::take_within(&row.started_at, 19));
    out.append(" | ");
    out.append(&row.endpoint);
    out.append(" | ");
    out.append(&text_or_dash(&row.model));
    out.append(" | seg ");
    text::push_decimal(&mut out, row.segment_index as u64);
    out.append(" | depth ");
    text::push_decimal(&mut out, row.handoff_depth as u64);
    out.append("\n");
    out.append("  prompt: ");
    out.append(&util::clip(&row.prompt, 120));
    out.append("\n");
    out
}

/// The answer of `history_list`: the runs that are searched for, or a notice
/// that there are none.
pub fn list_text(rows: &[RunRow], query: &str) -> (r: String)
    ensures
        r@ == if summaries(rows@, query@).len() == 0 {
            "기록된 작업이 없습니다."@
        } else {
            summaries(rows@, query@)
        },
{
    let mut out = String::new();
    let mut i: usize = 0;
    proof {
        assert(rows@.take(0) =~= Seq::empty());
    }
    while i < rows.len()
        invariant
            i <= rows.len(),
            out@ == summaries(rows@.take(i as int), query@),
        decreases rows.len() - i,
    {
        let ghost before = out@;
        proof {
            assert(rows@.take(i + 1).drop_last() =~= rows@.take(i as int));
        }
        let row = &rows[i];
        let result = text::unwrap_or_empty(&row.result);
        if query.is_empty() || text::has(&row.prompt, query) || text::has(&result, query) {
            out.append(&summarize(row));
        } else {
            assert(before + Seq::<char>::empty() =~= before);
        }
        i = i + 1;
    }
    proof {
        assert(rows@.take(rows@.len() as int) =~= rows@);
    }
    if out.as_str().is_empty() {
        return "기록된 작업이 없습니다.".to_string();
    }
    out
}

/// The files of a run, with commas between them.
pub open spec fn files_text(row: RunRow) -> Seq<char> {
    text::joined(
        match row.files_touched {
            Some(s) => if s@.len() == 0 {
                Seq::empty()
            } else {
                history::texts_of(json::json_parse(s@))
            },
            None => Seq::empty(),
        },
        ", "@,
    )
}

/// The head of a run's details.
pub open spec fn details_head(row: RunRow) -> Seq<char> {
    "작업 #"@ + text::signed_decimal(row.id as int) + "\n상태: "@ + row.status@ + "\n시작: "@
        + row.started_at@ + "\n종료: "@ + or_dash(row.finished_at) + "\ncwd: "@ + row.cwd@
        + "\nendpoint: "@ + row.endpoint@ + "\nmodel: "@ + or_dash(row.model) + "\nchain_id: "@
        + row.chain_id@ + "\nsegment: "@ + text::decimal(row.segment_index as nat) + "\ndepth: "@
        + text::decimal(row.handoff_depth as nat) + "\nparent_run: "@ + integer_or_dash(
        row.parent_run_id,
    ) + "\ntokens: "@ + number_or_dash(row.input_tokens) + "/"@ + number_or_dash(row.output_tokens)
        + "\nfiles: "@ + files_text(row) + "\nduration: "@ + number_or_dash(row.duration_ms)
        + "ms"@
}

/// The details of a run: its fields, its prompt, and its result where it has
/// one.
pub open spec fn details(row: RunRow) -> Seq<char> {
    details_head(row) + "\n\n프롬프트:\n"@ + row.prompt@ + match row.result {
        Some(s) => "\n\n결과:\n"@ + s@,
        None => Seq::empty(),
    }
}

/// The files of a run, with commas between them.
pub fn show_files(row: &RunRow) -> (r: String)
    ensures
        r@ == files_text(*row),
{
    let files = match &row.files_touched {
        Some(s) => parse_files_touched(Some(s.as_str())),
        None => parse_files_touched(None),
    };
    text::join(&files, ", ")
}

/// The head of a run's details.
fn read_head(row: &RunRow) -> (r: String)
    ensures
        r@ == details_head(*row),
{
    let mut out = "작업 #".to_string();
    out.append(&text::show_signed(row.id));
    out.append("\n상태: ");
    out.append(&row.status);
    out.append("\n시작: ");
    out.append(&row.started_at);
    out.append("\n종료: ");
    out.append(&text_or_dash(&row.finished_at));
    out.append("\ncwd: ");
    out.append(&row.cwd);
    out.append("\nendpoint: ");
    out.append(&row.endpoint);
    out.append("\nmodel: ");
    out.append(&text_or_dash(&row.model));
    out.append("\nchain_id: ");
    out.append(&row.chain_id);
    out.append("\nsegment: ");
    text::push_decimal(&mut out, row.segment_index as u64);
    out.append("\ndepth: ");
    text::push_decimal(&mut out, row.handoff_depth as u64);
    out.append("\nparent_run: ");
    out.append(&show_signed_or_dash(row.parent_run_id));
    out.append("\ntokens: ");
    out.append(&show_or_dash(row.input_tokens));
    out.append("/");
    out.append(&show_or_dash(row.output_tokens));
    out.append("\nfiles: ");
    out.append(&show_files(row));
    out.append("\nduration: ");
    out.append(&show_or_dash(row.duration_ms));
    out.append("ms");
    out
}

/// The answer of `history_read`: the details of a run, or an error where there
/// is no run of that number.
pub fn read_text(id: i64, row: &Option<RunRow>) -> (r: Result<String, String>)
    ensures
        match r {
            Ok(s) => *row matches Some(x) && s@ == details(x),
            Err(e) => row is None && e@ == "run #"@ + text::signed_decimal(id as int)
                + " 을 찾을 수 없습니다"@,
        },
{
    match row {
        Some(x) => {
            let mut out = read_head(x);
            out.append("\n\n프롬프트:\n");
            out.append(&x.prompt);
            let ghost before = out@;
            match &x.result {
                Some(s) => {
                    out.append("\n\n결과:\n");
                    out.append(s);
                    proof {
                        assert(out@ =~= before + ("\n\n결과:\n"@ + s@));
                    }
                },
                None => {
                    assert(out@ =~= before + Seq::<char>::empty());
                },
            }
            Ok(out)
        },
        None => {
            let mut e = "run #".to_string();
            e.append(&text::show_signed(id));
            e.append(" 을 찾을 수 없습니다");
            Err(e)
        },
    }
}

} // verus!
