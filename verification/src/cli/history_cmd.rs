//! `history`: earlier runs.
use vstd::prelude::*;

use crate::history::{parse_files_touched, RunRow};
use crate::history;
use crate::i18n::{say1, say2, translate, Language};
use crate::i18n;
use crate::json;
use crate::text;
use crate::tools::history::{
    show_files,
    show_or_dash,
    show_signed_or_dash,
    text_or_dash,
};
use crate::tools;

verus! {

/// The number of files that a run has touched.
pub open spec fn file_count(row: RunRow) -> nat {
    match row.files_touched {
        Some(s) => if s@.len() == 0 {
            0
        } else {
            history::texts_of(json::json_parse(s@)).len()
        },
        None => 0,
    }
}

/// A run in the list. A segment is named where it is not the first of its
/// chain.
pub open spec fn list_line(lang: Language, row: RunRow) -> Seq<char> {
    "#"@ + text::padded_right(text::signed_decimal(row.id as int), 4) + " "@ + text::padded_right(
        row.status@,
        11,
    ) + " "@ + text::within(row.started_at@, 19) + (if row.segment_index == 0 {
        ""@
    } else {
        " [seg "@ + text::decimal(row.segment_index as nat) + "]"@
    }) + " | "@ + row.endpoint@ + " | "@ + tools::history::or_dash(row.model) + " | "@
        + text::decimal(file_count(row)) + " "@ + i18n::message(lang, "files"@) + " | "@
        + tools::history::number_or_dash(row.duration_ms) + "ms"@
}

/// A run in the list.
fn line_of(lang: Language, row: &RunRow) -> (r: String)
    ensures
        r@ == list_line(lang, *row),
{
    let mut out = "#".to_string();
    out.append(&text::pad_right(&text::show_signed(row.id), 4));
    out.append(" ");
    out.append(&text::pad_right(&row.status, 11));
    out.append(" ");
    out.append(text::take_within(&row.started_at, 19));
    let mut seg = "".to_string();
    if row.segment_index != 0 {
        seg = " [seg ".to_string();
        text::push_decimal(&mut seg, row.segment_index as u64);
        seg.append("]");
    }
    out.append(&seg);
    out.append(" | ");
    out.append(&row.endpoint);
    out.append(" | ");
    out.append(&text_or_dash(&row.model));
    out.append(" | ");
    let files = match &row.files_touched {
        Some(s) => parse_files_touched(Some(s.as_str())),
        None => parse_files_touched(None),
    };
    proof {
        assert(text::views(files@).len() == files@.len());
    }
    text::push_decimal(&mut out, files.len() as u64);
    out.append(" ");
    out.append(translate(lang, "files"));
    out.append(" | ");
    out.append(&show_or_dash(row.duration_ms));
    out.append("ms");
    out
}

/// The lines of the list; a notice where there are no runs.
pub fn list(rows: &[RunRow], lang: Language) -> (r: Vec<String>)
    ensures
        text::views(r@) == if rows@.len() == 0 {
            seq![i18n::message(lang, "No recorded tasks."@)]
        } else {
            rows@.map_values(|row: RunRow| list_line(lang, row))
        },
{
    let mut out: Vec<String> = Vec::new();
    if rows.len() == 0 {
        out.push(translate(lang, "No recorded tasks.").to_string());
        proof {
            assert(text::views(out@) =~= seq![i18n::message(lang, "No recorded tasks."@)]);
        }
        return out;
    }
    let mut i: usize = 0;
    while i < rows.len()
        invariant
            i <= rows.len(),
            out@.len() == i,
            forall|k: int| 0 <= k < i ==> (#[trigger] out@[k])@ == list_line(lang, rows@[k]),
        decreases rows.len() - i,
    {
        out.push(line_of(lang, &rows[i]));
        i = i + 1;
    }
    proof {
        assert(text::views(out@) =~= rows@.map_values(|row: RunRow| list_line(lang, row)));
    }
    out
}

/// The number of a run that was asked for: an integer, with or without white
/// space around it.
pub fn asked_id(id: &str, lang: Language) -> (r: Result<i64, String>)
    ensures
        match r {
            Ok(n) => text::parsed_integer(text::trimmed(id@)) == Some(n as int),
            Err(e) => {
                &&& text::parsed_integer(text::trimmed(id@)) is None
                &&& e@ == i18n::message_fmt(
                    lang,
                    "id must be a number: {id}"@,
                    seq![text::trimmed(id@)],
                )
            },
        },
{
    let t = text::trim(id);
    match text::parse_integer(t) {
        Some(n) => Ok(n),
        None => Err(say1(lang, "id must be a number: {id}", t)),
    }
}

/// A message with one argument.
pub open spec fn with_arg(lang: Language, key: Seq<char>, a: Seq<char>) -> Seq<char> {
    i18n::message_fmt(lang, key, seq![a])
}

/// The details of a run, without its result.
pub open spec fn detail_lines(lang: Language, row: RunRow) -> Seq<Seq<char>> {
    seq![
        with_arg(lang, "Task #{id}\n"@, text::signed_decimal(row.id as int)),
        with_arg(lang, "  status:      {}"@, row.status@),
        with_arg(lang, "  started:     {}"@, row.started_at@),
        with_arg(lang, "  finished:    {}"@, tools::history::or_dash(row.finished_at)),
        with_arg(lang, "  cwd:         {}"@, row.cwd@),
        with_arg(lang, "  endpoint:    {}"@, row.endpoint@),
        with_arg(lang, "  model:       {}"@, tools::history::or_dash(row.model)),
        with_arg(lang, "  chain_id:    {}"@, row.chain_id@),
        with_arg(lang, "  segment:     {}"@, text::decimal(row.segment_index as nat)),
        with_arg(lang, "  depth:       {}"@, text::decimal(row.handoff_depth as nat)),
        with_arg(lang, "  parent_run:  {}"@, tools::history::integer_or_dash(row.parent_run_id)),
        i18n::message_fmt(
            lang,
            "  tokens:      {}/{}"@,
            seq![
                tools::history::number_or_dash(row.input_tokens),
                tools::history::number_or_dash(row.output_tokens),
            ],
        ),
        with_arg(lang, "  files:       {}"@, tools::history::files_text(row)),
        with_arg(lang, "  duration:    {}ms"@, tools::history::number_or_dash(row.duration_ms)),
        with_arg(lang, "\n  prompt:\n{}"@, row.prompt@),
    ]
}

/// The result of a run as a line, where it has one.
pub open spec fn result_lines(lang: Language, result: Option<Seq<char>>) -> Seq<Seq<char>> {
    match result {
        Some(s) => seq![with_arg(lang, "\n  result:\n{res}"@, s)],
        None => Seq::empty(),
    }
}

/// The details of a run, and the code with which the program ends; a notice
/// where there is no run of that number.
pub fn show(id: i64, row: &Option<RunRow>, lang: Language) -> (r: (Vec<String>, i32))
    ensures
        match *row {
            Some(x) => r.1 == 0 && text::views(r.0@) == detail_lines(lang, x) + result_lines(
                lang,
                text::opt_view(x.result),
            ),
            None => r.1 == 1 && text::views(r.0@) == seq![
                with_arg(lang, "Task #{id} not found."@, text::signed_decimal(id as int)),
            ],
        },
{
    let mut out: Vec<String> = Vec::new();
    match row {
        Some(x) => {
            out.push(say1(lang, "Task #{id}\n", &text::show_signed(x.id)));
            out.push(say1(lang, "  status:      {}", &x.status));
            out.push(say1(lang, "  started:     {}", &x.started_at));
            out.push(say1(lang, "  finished:    {}", &text_or_dash(&x.finished_at)));
            out.push(say1(lang, "  cwd:         {}", &x.cwd));
            out.push(say1(lang, "  endpoint:    {}", &x.endpoint));
            out.push(say1(lang, "  model:       {}", &text_or_dash(&x.model)));
            out.push(say1(lang, "  chain_id:    {}", &x.chain_id));
            out.push(say1(lang, "  segment:     {}", &text::show(x.segment_index as u64)));
            out.push(say1(lang, "  depth:       {}", &text::show(x.handoff_depth as u64)));
            out.push(say1(lang, "  parent_run:  {}", &show_signed_or_dash(x.parent_run_id)));
            out.push(
                say2(
                    lang,
                    "  tokens:      {}/{}",
                    &show_or_dash(x.input_tokens),
                    &show_or_dash(x.output_tokens),
                ),
            );
            out.push(say1(lang, "  files:       {}", &show_files(x)));
            out.push(say1(lang, "  duration:    {}ms", &show_or_dash(x.duration_ms)));
            out.push(say1(lang, "\n  prompt:\n{}", &x.prompt));
            proof {
                assert(text::views(out@) =~= detail_lines(lang, *x));
            }
            match &x.result {
                Some(s) => {
                    out.push(say1(lang, "\n  result:\n{res}", s));
                },
                None => {},
            }
            proof {
                assert(text::views(out@) =~= detail_lines(lang, *x) + result_lines(
                    lang,
                    text::opt_view(x.result),
                ));
            }
            (out, 0)
        },
        None => {
            out.push(say1(lang, "Task #{id} not found.", &text::show_signed(id)));
            proof {
                assert(text::views(out@) =~= seq![
                    with_arg(lang, "Task #{id} not found."@, text::signed_decimal(id as int)),
                ]);
            }
            (out, 1)
        },
    }
}

/// The lines about the newest run, without its result.
pub open spec fn last_lines(lang: Language, row: RunRow) -> Seq<Seq<char>> {
    seq![
        with_arg(lang, "Last task: #{id}\n"@, text::signed_decimal(row.id as int)),
        with_arg(lang, "  status:      {}"@, row.status@),
        with_arg(lang, "  started:     {}"@, row.started_at@),
        with_arg(lang, "  chain_id:    {}"@, row.chain_id@),
        with_arg(lang, "  endpoint:    {}"@, row.endpoint@),
        with_arg(lang, "  model:       {}"@, tools::history::or_dash(row.model)),
    ]
}

/// The newest run, and the code with which the program ends; a notice where
/// there is none. Of a long result only the first 500 bytes are shown.
pub fn last(row: &Option<RunRow>, lang: Language) -> (r: (Vec<String>, i32))
    ensures
        match *row {
            Some(x) => r.1 == 0 && text::views(r.0@) == last_lines(lang, x) + result_lines(
                lang,
                match x.result {
                    Some(s) => Some(text::within(s@, 500)),
                    None => None,
                },
            ),
            None => r.1 == 1 && text::views(r.0@) == seq![
                i18n::message(lang, "No recorded tasks."@),
            ],
        },
{
    let mut out: Vec<String> = Vec::new();
    match row {
        Some(x) => {
            out.push(say1(lang, "Last task: #{id}\n", &text::show_signed(x.id)));
            out.push(say1(lang, "  status:      {}", &x.status));
            out.push(say1(lang, "  started:     {}", &x.started_at));
            out.push(say1(lang, "  chain_id:    {}", &x.chain_id));
            out.push(say1(lang, "  endpoint:    {}", &x.endpoint));
            out.push(say1(lang, "  model:       {}", &text_or_dash(&x.model)));
            proof {
                assert(text::views(out@) =~= last_lines(lang, *x));
            }
            match &x.result {
                Some(s) => {
                    out.push(say1(lang, "\n  result:\n{res}", text::take_within(s, 500)));
                },
                None => {},
            }
            proof {
                assert(text::views(out@) =~= last_lines(lang, *x) + result_lines(
                    lang,
                    match x.result {
                        Some(s) => Some(text::within(s@, 500)),
                        None => None,
                    },
                ));
            }
            (out, 0)
        },
        None => {
            out.push(translate(lang, "No recorded tasks.").to_string());
            proof {
                assert(text::views(out@) =~= seq![i18n::message(lang, "No recorded tasks."@)]);
            }
            (out, 1)
        },
    }
}

} // verus!
