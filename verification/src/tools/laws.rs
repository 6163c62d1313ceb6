//! What the tools do with what they are given.
use vstd::prelude::*;

use crate::history::RunRow;
use crate::json;
use crate::json::JsonModel;
use crate::mcp::ToolSchema;
use crate::text;
use crate::tools;
use crate::tools::{bash, glob, grep, history, mcp_call, mcp_tools, read_file, util};
use crate::tools::{SpecModel, ToolModel};

verus! {

// ---------------------------------------------------------------------------
// Texts within texts
// ---------------------------------------------------------------------------

/// A text between two others is held by the whole.
pub proof fn lemma_between(a: Seq<char>, s: Seq<char>, b: Seq<char>)
    ensures
        text::contains(a + s + b, s),
{
    let t = a + s + b;
    assert(t.subrange(a.len() as int, (a.len() + s.len()) as int) =~= s);
    assert(text::occurs_at(t, s, a.len() as int));
}

/// What a text holds is held by a longer one.
pub proof fn lemma_held(a: Seq<char>, b: Seq<char>, s: Seq<char>)
    requires
        text::contains(a, s),
    ensures
        text::contains(a + b, s),
        text::contains(b + a, s),
{
    let i = choose|i: int| text::occurs_at(a, s, i);
    assert((a + b).subrange(i, i + s.len()) =~= a.subrange(i, i + s.len()));
    assert(text::occurs_at(a + b, s, i));
    let k = b.len() + i;
    assert((b + a).subrange(k, k + s.len()) =~= a.subrange(i, i + s.len()));
    assert(text::occurs_at(b + a, s, k));
}

/// A text holds what stands at its end.
pub proof fn lemma_at_the_end(a: Seq<char>, s: Seq<char>)
    ensures
        text::contains(a + s, s),
{
    lemma_between(a, s, Seq::empty());
    assert(a + s + Seq::<char>::empty() =~= a + s);
}

/// Every part is held by the parts put together.
pub proof fn lemma_joined_holds(parts: Seq<Seq<char>>, sep: Seq<char>, i: int)
    requires
        0 <= i < parts.len(),
    ensures
        text::contains(text::joined(parts, sep), parts[i]),
    decreases parts.len(),
{
    if parts.len() == 1 {
        lemma_between(Seq::empty(), parts[0], Seq::empty());
        assert(Seq::<char>::empty() + parts[0] + Seq::<char>::empty() =~= parts[0]);
    } else if i == parts.len() - 1 {
        let a = text::joined(parts.drop_last(), sep) + sep;
        lemma_between(a, parts[i], Seq::empty());
        assert(a + parts[i] + Seq::<char>::empty() =~= a + parts[i]);
    } else {
        lemma_joined_holds(parts.drop_last(), sep, i);
        assert(parts.drop_last()[i] == parts[i]);
        let a = text::joined(parts.drop_last(), sep);
        lemma_held(a, sep + parts.last(), parts[i]);
        assert(a + (sep + parts.last()) =~= a + sep + parts.last());
    }
}

// ---------------------------------------------------------------------------
// Arguments
// ---------------------------------------------------------------------------

/// The member of an object is the value of the first member with that name.
pub proof fn law_first_member_counts(m: Seq<(Seq<char>, JsonModel)>, i: int)
    requires
        0 <= i < m.len(),
        forall|j: int| 0 <= j < i ==> (#[trigger] m[j]).0 != m[i].0,
    ensures
        JsonModel::Object(m).field(m[i].0) == Some(m[i].1),
    decreases i,
{
    if i > 0 {
        assert(m[0].0 != m[i].0);
        let rest = m.skip(1);
        assert forall|j: int| 0 <= j < i - 1 implies (#[trigger] rest[j]).0 != rest[i - 1].0 by {
            assert(rest[j] == m[j + 1]);
        }
        law_first_member_counts(rest, i - 1);
    }
}

/// An object has no member of a name that none of its members has.
pub proof fn law_absent_member(m: Seq<(Seq<char>, JsonModel)>, key: Seq<char>)
    requires
        forall|j: int| 0 <= j < m.len() ==> (#[trigger] m[j]).0 != key,
    ensures
        JsonModel::Object(m).field(key) is None,
    decreases m.len(),
{
    if m.len() > 0 {
        assert(m[0].0 != key);
        let rest = m.skip(1);
        assert forall|j: int| 0 <= j < rest.len() implies (#[trigger] rest[j]).0 != key by {
            assert(rest[j] == m[j + 1]);
        }
        law_absent_member(rest, key);
    }
}

/// A tool gets its arguments as the model wrote them: a text character for
/// character, a number and a truth value as they are. A text that must be filled
/// is refused only where it is blank, and nothing else stands in for an argument
/// that is missing.
pub proof fn law_arguments_are_taken_as_given(
    args: JsonModel,
    key: Seq<char>,
    s: Seq<char>,
    n: u64,
    b: bool,
)
    ensures
        args.field(key) == Some(JsonModel::Str(s)) ==> {
            &&& util::text_of(args, key) == Some(s)
            &&& !text::blank(s) ==> util::filled_text(args, key) == Some(s)
            &&& text::blank(s) ==> util::filled_text(args, key) is None
        },
        args.field(key) == Some(JsonModel::UInt(n)) ==> util::number_of(args, key) == Some(n),
        args.field(key) == Some(JsonModel::Bool(b)) ==> util::flag_of(args, key) == Some(b),
        args.field(key) is None ==> {
            &&& util::text_of(args, key) is None
            &&& util::filled_text(args, key) is None
            &&& util::number_of(args, key) is None
            &&& util::flag_of(args, key) is None
        },
{
}

// ---------------------------------------------------------------------------
// Definitions
// ---------------------------------------------------------------------------

proof fn lemma_other_members(
    m: Seq<(Seq<char>, JsonModel)>,
    key: Seq<char>,
    value: JsonModel,
    other: Seq<char>,
)
    requires
        other != key,
    ensures
        json::member(tools::with_member(m, key, value), other) == json::member(m, other),
    decreases m.len(),
{
    if m.len() > 0 {
        let w = tools::with_member(m, key, value);
        if m[0].0 == key {
            assert(w.skip(1) =~= m.skip(1));
        } else {
            lemma_other_members(m.skip(1), key, value, other);
            assert(w.skip(1) =~= tools::with_member(m.skip(1), key, value));
            assert(w[0] == m[0]);
        }
    }
}

/// A tool is defined by its own name and description, and its parameters are
/// described as they were given; only a `required` that is `null` changes.
pub proof fn law_definition_keeps_the_tool(
    name: Seq<char>,
    description: Seq<char>,
    parameters: JsonModel,
    key: Seq<char>,
)
    requires
        key != "required"@,
    ensures
        tools::definition_of(name, description, parameters).name == name,
        tools::definition_of(name, description, parameters).description == description,
        tools::definition_of(name, description, parameters).parameters.field(key)
            == parameters.field(key),
        parameters.field("required"@) != Some(JsonModel::Null) ==> tools::definition_of(
            name,
            description,
            parameters,
        ).parameters == parameters,
{
    match parameters {
        JsonModel::Object(m) => {
            lemma_other_members(m, "required"@, JsonModel::Array(Seq::empty()), key);
        },
        _ => {},
    }
}

/// A schema names every parameter with its kind and its description, and every
/// parameter that is required.
pub proof fn law_schema_names_the_parameters(
    parameters: Seq<(&'static str, &'static str, &'static str)>,
    required: Seq<&'static str>,
    i: int,
    k: int,
)
    ensures
        ({
            let schema = util::schema_of(parameters, required);
            &&& schema.field("properties"@) matches Some(JsonModel::Object(p))
            &&& p.len() == parameters.len()
            &&& 0 <= i < parameters.len() ==> {
                &&& p[i].0 == parameters[i].0@
                &&& p[i].1.field("type"@) == Some(JsonModel::Str(parameters[i].1@))
                &&& p[i].1.field("description"@) == Some(JsonModel::Str(parameters[i].2@))
            }
        }),
        ({
            let schema = util::schema_of(parameters, required);
            &&& schema.field("required"@) matches Some(JsonModel::Array(r))
            &&& r.len() == required.len()
            &&& 0 <= k < required.len() ==> r[k] == JsonModel::Str(required[k]@)
        }),
{
    reveal_strlit("type");
    reveal_strlit("properties");
    reveal_strlit("required");
    reveal_strlit("description");
    assert("type"@.len() == 4);
    assert("properties"@.len() == 10);
    assert("required"@.len() == 8);
    assert("description"@.len() == 11);
    let schema = util::schema_of(parameters, required);
    let m = schema->Object_0;
    law_first_member_counts(m, 1);
    law_first_member_counts(m, 2);
    if 0 <= i < parameters.len() {
        let p = util::parameter_schema(parameters[i].1@, parameters[i].2@);
        law_first_member_counts(p->Object_0, 0);
        law_first_member_counts(p->Object_0, 1);
    }
}

// ---------------------------------------------------------------------------
// Reading files
// ---------------------------------------------------------------------------

/// Lines `a` to `b`, each behind its number and an arrow.
pub open spec fn numbered_lines(lines: Seq<Seq<char>>, a: int, b: int) -> Seq<char>
    decreases b - a,
{
    if a >= b {
        Seq::empty()
    } else {
        numbered_lines(lines, a, b - 1) + text::decimal(b as nat) + "→"@ + lines[b - 1] + "\n"@
    }
}

proof fn lemma_page(lines: Seq<Seq<char>>, first: int, i: int, n: nat)
    requires
        0 <= first <= i,
    ensures
        ({
            let (t, end) = read_file::page_from(lines, i, n, numbered_lines(lines, first, i));
            &&& t == numbered_lines(lines, first, end)
            &&& i <= end <= i + n
            &&& i <= lines.len() ==> end <= lines.len()
            &&& end < lines.len() && end < i + n ==> t.len() > 0 && t.len() + text::decimal(
                (end + 1) as nat,
            ).len() + 1 + lines[end].len() > read_file::OUTPUT_CHAR_LIMIT
        }),
    decreases n,
{
    let buf = numbered_lines(lines, first, i);
    if i < lines.len() && n > 0 && read_file::fits(buf, lines[i], i) {
        assert(numbered_lines(lines, first, i + 1) =~= buf + read_file::numbered(lines[i], i));
        lemma_page(lines, first, i + 1, (n - 1) as nat);
    }
}

/// A page shows the lines of the file, each as it is behind its number and in
/// order, from the line that was asked for to the last one that is named. It
/// ends at the end of the file, at the limit, or where the next line would make
/// it too long. Behind the lines stands how many the file has.
pub proof fn law_page_shows_the_lines(
    marks: Map<Seq<char>, read_file::Mark>,
    path: Seq<char>,
    offset: Option<u64>,
    limit: nat,
    content: Seq<char>,
)
    requires
        !read_file::exhausted(marks, path, offset),
        read_file::start_of(marks, path, offset) <= text::lines_of(content).len(),
        limit > 0,
    ensures
        ({
            let lines = text::lines_of(content);
            let start = read_file::start_of(marks, path, offset);
            let last = read_file::last_of(lines, start, limit);
            let shown = numbered_lines(lines, start - 1, last as int);
            let t = read_file::read_text(marks, path, offset, limit, content);
            &&& start <= last <= lines.len()
            &&& last - start < limit
            &&& shown.is_prefix_of(t)
            &&& last < lines.len() && last - start + 1 < limit ==> shown.len() + text::decimal(
                last + 1,
            ).len() + 1 + lines[last as int].len() > read_file::OUTPUT_CHAR_LIMIT
            &&& text::contains(t.skip(shown.len() as int), text::decimal(lines.len()))
            &&& last < lines.len() ==> text::contains(
                t.skip(shown.len() as int),
                text::decimal(last + 1),
            )
            &&& offset matches Some(o) ==> start == (if o == 0 {
                1
            } else {
                o as nat
            })
            &&& offset is None && !marks.dom().contains(path) ==> start == 1
        }),
{
    let lines = text::lines_of(content);
    let start = read_file::start_of(marks, path, offset);
    let none = Seq::<char>::empty();
    assert(numbered_lines(lines, start - 1, start - 1) =~= none);
    lemma_page(lines, start - 1, start - 1, limit);
    read_file::law_page_makes_progress(lines, start, limit);
    let last = read_file::last_of(lines, start, limit);
    let shown = numbered_lines(lines, start - 1, last as int);
    let f = read_file::footer(lines.len(), start, last);
    let t = read_file::read_text(marks, path, offset, limit, content);
    assert(t == shown + f);
    assert(t.skip(shown.len() as int) =~= f);
    let total = text::decimal(lines.len());
    let a = "[File has "@;
    let tail = if last >= lines.len() {
        total + "]"@
    } else {
        text::decimal(last) + ". Call read_file with offset="@ + text::decimal(last + 1)
            + " to read more.]"@
    };
    let b = " lines. Showing lines "@ + text::decimal(start) + "-"@ + tail;
    lemma_between(a, total, b);
    assert(f =~= a + total + b);
    if last < lines.len() {
        let c = a + total + " lines. Showing lines "@ + text::decimal(start) + "-"@
            + text::decimal(last) + ". Call read_file with offset="@;
        lemma_between(c, text::decimal(last + 1), " to read more.]"@);
        assert(f =~= c + text::decimal(last + 1) + " to read more.]"@);
    }
}

/// A file that fits is read whole: every line of a file that is read for the
/// first time is shown where the limit and the length allow it, and the next
/// call says that the end was reached.
pub proof fn law_whole_file_is_shown(
    marks: Map<Seq<char>, read_file::Mark>,
    path: Seq<char>,
    limit: nat,
    content: Seq<char>,
)
    requires
        !marks.dom().contains(path),
        0 < text::lines_of(content).len() <= limit,
        text::lines_of(content).len() < u64::MAX,
        numbered_lines(text::lines_of(content), 0, text::lines_of(content).len() as int).len()
            <= read_file::OUTPUT_CHAR_LIMIT,
    ensures
        numbered_lines(
            text::lines_of(content),
            0,
            text::lines_of(content).len() as int,
        ).is_prefix_of(read_file::read_text(marks, path, None, limit, content)),
        read_file::read_text(
            read_file::marks_after(marks, path, None, limit, content),
            path,
            None,
            limit,
            content,
        ) == read_file::EXHAUSTED@,
{
    let lines = text::lines_of(content);
    law_page_shows_the_lines(marks, path, None, limit, content);
    let last = read_file::last_of(lines, 1, limit);
    if last < lines.len() {
        lemma_numbered_grows(lines, 0, last as int + 1, lines.len() as int);
        reveal_strlit("→");
        reveal_strlit("\n");
    }
    assert(last == lines.len());
    read_file::law_end_is_told(marks, path, None, limit, content, 0);
}

proof fn lemma_numbered_grows(lines: Seq<Seq<char>>, a: int, b: int, c: int)
    requires
        a <= b <= c,
    ensures
        numbered_lines(lines, a, b).len() <= numbered_lines(lines, a, c).len(),
    decreases c - b,
{
    if b < c {
        lemma_numbered_grows(lines, a, b, c - 1);
    }
}

// ---------------------------------------------------------------------------
// Commands
// ---------------------------------------------------------------------------

/// Nothing that a command wrote is lost or changed: its output stands first, its
/// errors behind it, and the code where it failed. Output alone is told as it
/// is, and a command that wrote nothing is told so.
pub proof fn law_output_is_told(stdout: Seq<char>, stderr: Seq<char>, code: Option<i32>)
    ensures
        stdout.is_prefix_of(bash::full_output(stdout, stderr, code)) || stdout.len() == 0,
        stderr.len() > 0 ==> text::contains(bash::full_output(stdout, stderr, code), stderr),
        code matches Some(c) ==> c != 0 ==> text::contains(
            bash::full_output(stdout, stderr, code),
            text::signed_decimal(c as int),
        ),
        stdout.len() > 0 && stderr.len() == 0 && (code is None || code == Some(0i32))
            ==> bash::full_output(stdout, stderr, code) == stdout,
        bash::full_output(stdout, stderr, code).len() > 0,
{
    let none = Seq::<char>::empty();
    let head = if stdout.len() == 0 {
        none
    } else {
        "\n"@
    };
    let errors = if stderr.len() == 0 {
        none
    } else {
        head + "[stderr]\n"@ + stderr
    };
    let end = match code {
        Some(c) => if c == 0 {
            none
        } else {
            "\n[exit code: "@ + text::signed_decimal(c as int) + "]"@
        },
        None => none,
    };
    let w = bash::written(stdout, stderr, code);
    assert(w == stdout + errors + end);
    reveal_strlit("(명령이 출력을 반환하지 않았습니다)");
    if stdout.len() > 0 {
        assert(w.take(stdout.len() as int) =~= stdout);
    }
    if stderr.len() > 0 {
        let a = stdout + (head + "[stderr]\n"@);
        lemma_between(a, stderr, end);
        assert(a + stderr + end =~= w);
    }
    match code {
        Some(c) => {
            if c != 0 {
                let n = text::signed_decimal(c as int);
                let a = stdout + errors + "\n[exit code: "@;
                lemma_between(a, n, "]"@);
                assert(a + n + "]"@ =~= w);
                reveal_strlit("]");
                assert(w.len() > 0);
            }
        },
        None => {},
    }
    if stderr.len() == 0 && (code is None || code == Some(0i32)) {
        assert(stdout + none + none =~= stdout);
    }
}

/// What is left out of a long result is told: its length stands in the note, the
/// result begins with what was kept, and the note leads to another call.
pub proof fn law_cut_is_told(s: Seq<char>, tool: Seq<char>, max: nat)
    requires
        s.len() > max,
    ensures
        util::shortened(s, tool, max).take(max as int) == s.take(max as int),
        util::shortened(s, tool, max).len() > max,
        text::contains(util::shortened(s, tool, max).skip(max as int), text::decimal(
            (s.len() - max) as nat,
        )),
        util::hint_for(tool).len() > 0,
{
    let r = util::shortened(s, tool, max);
    let n = text::decimal((s.len() - max) as nat);
    let a = "\n...truncated "@;
    let b = " chars — 힌트: "@ + util::hint_for(tool);
    assert(r.take(max as int) =~= s.take(max as int));
    lemma_between(a, n, b);
    assert(r.skip(max as int) =~= a + n + b);
    reveal_strlit("\n...truncated ");
    reveal_strlit("파일로 redirect 후 read_file 페이징 또는 head/grep으로 좁히기");
    reveal_strlit("패턴·glob 좁히기");
    reveal_strlit("offset·limit으로 페이징 좁히기");
    reveal_strlit("패턴을 더 구체적으로 좁히기");
    reveal_strlit("결과를 좁혀서 재시도");
}

/// A text that is clipped is its beginning with an ellipsis; one that fits is
/// kept.
pub proof fn law_clipped_begins_alike(s: Seq<char>, max: nat)
    ensures
        s.len() <= max ==> util::clipped(s, max) == s,
        s.len() > max ==> util::clipped(s, max) == s.take(max as int).push('…'),
{
    reveal_strlit("…");
    assert(s.take(max as int) + "…"@ =~= s.take(max as int).push('…')) by {
        assert("…"@ =~= seq!['…']);
    }
}

// ---------------------------------------------------------------------------
// Searching
// ---------------------------------------------------------------------------

/// The lines of a file that match, each behind its file and its number, without
/// any limit.
pub open spec fn matching(
    path: Seq<char>,
    lines: Seq<Seq<char>>,
    matched: Seq<bool>,
    n: nat,
) -> Seq<Seq<char>>
    decreases n,
{
    if n == 0 {
        Seq::empty()
    } else if matched[n - 1] {
        matching(path, lines, matched, (n - 1) as nat).push(
            path + ":"@ + text::decimal(n) + ":"@ + lines[n - 1],
        )
    } else {
        matching(path, lines, matched, (n - 1) as nat)
    }
}

/// Every line that matches is found, with its file, its number and its text, in
/// order, up to the limit: what was found before stays, and only what is beyond
/// the limit is left out.
pub proof fn law_every_match_is_found(
    found: Seq<Seq<char>>,
    path: Seq<char>,
    lines: Seq<Seq<char>>,
    matched: Seq<bool>,
    n: nat,
)
    requires
        found.len() <= grep::MAX_RESULTS,
        lines.len() == matched.len(),
        n <= lines.len(),
    ensures
        ({
            let all = found + matching(path, lines, matched, n);
            let got = grep::hits_after(found, path, lines, matched, n);
            &&& all.len() <= grep::MAX_RESULTS ==> got == all
            &&& all.len() > grep::MAX_RESULTS ==> got == all.take(grep::MAX_RESULTS as int)
        }),
    decreases n,
{
    let all = found + matching(path, lines, matched, n);
    let got = grep::hits_after(found, path, lines, matched, n);
    if n == 0 {
        assert(all =~= found);
    } else {
        let m = (n - 1) as nat;
        law_every_match_is_found(found, path, lines, matched, m);
        let before = found + matching(path, lines, matched, m);
        let max = grep::MAX_RESULTS as int;
        if matched[n - 1] {
            let h = path + ":"@ + text::decimal(n) + ":"@ + lines[n - 1];
            assert(all =~= before.push(h));
            assert(grep::hit(path, n - 1, lines[n - 1]) == h);
            if before.len() >= max {
                assert(all.take(max) =~= before.take(max));
                assert(before.take(max).len() == max);
                if before.len() == max {
                    assert(before.take(max) =~= before);
                }
            }
        } else {
            assert(all =~= before);
        }
    }
}

/// The answer of a search shows every line that was found, and says where there
/// may be more.
pub proof fn law_search_shows_every_hit(found: Seq<Seq<char>>, i: int)
    requires
        0 <= i < found.len(),
    ensures
        text::contains(grep::listing(found), found[i]),
        text::contains(glob::listing(found), found[i]),
        found.len() < grep::MAX_RESULTS ==> grep::listing(found) == text::joined(found, "\n"@),
        found.len() < glob::MAX_RESULTS ==> glob::listing(found) == text::joined(found, "\n"@),
        found.len() >= grep::MAX_RESULTS ==> grep::listing(found) != text::joined(found, "\n"@),
        found.len() >= glob::MAX_RESULTS ==> glob::listing(found) != text::joined(found, "\n"@),
{
    lemma_joined_holds(found, "\n"@, i);
    let t = text::joined(found, "\n"@);
    let a = "\n...[결과 상한 200개 도달] 힌트: 패턴·glob을 더 좁히세요"@;
    let b = "\n...[결과 상한 200개 도달] 힌트: 패턴을 더 구체적으로 좁히세요 (예: src/**/*.rs)"@;
    lemma_held(t, a, found[i]);
    lemma_held(t, b, found[i]);
    reveal_strlit("\n...[결과 상한 200개 도달] 힌트: 패턴·glob을 더 좁히세요");
    reveal_strlit(
        "\n...[결과 상한 200개 도달] 힌트: 패턴을 더 구체적으로 좁히세요 (예: src/**/*.rs)",
    );
    assert((t + a).len() > t.len());
    assert((t + b).len() > t.len());
}

/// A file that is matched is found, unless it lies in a `.git` directory or the
/// limit was reached.
pub proof fn law_matched_file_is_found(
    matches: Seq<(Seq<Seq<char>>, Seq<char>)>,
    components: Seq<Seq<char>>,
    path: Seq<char>,
)
    ensures
        ({
            let before = glob::found_in(matches);
            let after = glob::found_in(matches.push((components, path)));
            &&& before.len() < glob::MAX_RESULTS && !components.contains(".git"@) ==> after
                == before.push(path)
            &&& components.contains(".git"@) ==> after == before
            &&& before.len() >= glob::MAX_RESULTS ==> after == before
        }),
{
    let more = matches.push((components, path));
    assert(more.drop_last() =~= matches);
    if components.contains(".git"@) {
        let i = choose|i: int| 0 <= i < components.len() && components[i] == ".git"@;
        assert(components[i] == ".git"@);
    }
}

// ---------------------------------------------------------------------------
// The history
// ---------------------------------------------------------------------------

/// A run that is searched for is listed, as it is told, and a run that is not is
/// left out.
pub proof fn law_found_runs_are_listed(rows: Seq<RunRow>, query: Seq<char>, i: int)
    requires
        0 <= i < rows.len(),
        query.len() == 0 || text::contains(rows[i].prompt@, query),
    ensures
        text::contains(history::summaries(rows, query), history::summary(rows[i])),
        text::contains(history::summary(rows[i]), text::signed_decimal(rows[i].id as int)),
        text::contains(history::summary(rows[i]), rows[i].status@),
        rows[i].prompt@.len() <= 120 ==> text::contains(
            history::summary(rows[i]),
            rows[i].prompt@,
        ),
    decreases rows.len(),
{
    let row = rows[i];
    let d = rows.drop_last();
    let before = history::summaries(d, query);
    if i == rows.len() - 1 {
        lemma_between(before, history::summary(row), Seq::empty());
        assert(before + history::summary(row) + Seq::<char>::empty() =~= before + history::summary(
            row,
        ));
    } else {
        law_found_runs_are_listed(d, query, i);
        lemma_held(
            before,
            if history::found(rows.last(), query) {
                history::summary(rows.last())
            } else {
                Seq::empty()
            },
            history::summary(row),
        );
    }
    lemma_summary_holds(row);
}

/// A run in a list is told with its number, its state and its prompt.
proof fn lemma_summary_holds(row: RunRow)
    ensures
        text::contains(history::summary(row), text::signed_decimal(row.id as int)),
        text::contains(history::summary(row), row.status@),
        text::contains(history::summary(row), util::clipped(row.prompt@, 120)),
{
    let id = text::signed_decimal(row.id as int);
    let time = text::within(row.started_at@, 19);
    let p = util::clipped(row.prompt@, 120);
    let t0 = "#"@;
    let t1 = t0 + id;
    lemma_at_the_end(t0, id);
    let t2 = t1 + " ["@;
    lemma_held(t1, " ["@, id);
    let t3 = t2 + row.status@;
    lemma_held(t2, row.status@, id);
    lemma_at_the_end(t2, row.status@);
    let t4 = t3 + "] "@;
    lemma_held(t3, "] "@, id);
    lemma_held(t3, "] "@, row.status@);
    let t5 = t4 + time;
    lemma_held(t4, time, id);
    lemma_held(t4, time, row.status@);
    let t6 = t5 + " | "@;
    lemma_held(t5, " | "@, id);
    lemma_held(t5, " | "@, row.status@);
    let t7 = t6 + row.endpoint@;
    lemma_held(t6, row.endpoint@, id);
    lemma_held(t6, row.endpoint@, row.status@);
    let t8 = t7 + " | "@;
    lemma_held(t7, " | "@, id);
    lemma_held(t7, " | "@, row.status@);
    let t9 = t8 + history::or_dash(row.model);
    lemma_held(t8, history::or_dash(row.model), id);
    lemma_held(t8, history::or_dash(row.model), row.status@);
    let t10 = t9 + " | seg "@;
    lemma_held(t9, " | seg "@, id);
    lemma_held(t9, " | seg "@, row.status@);
    let t11 = t10 + text::decimal(row.segment_index as nat);
    lemma_held(t10, text::decimal(row.segment_index as nat), id);
    lemma_held(t10, text::decimal(row.segment_index as nat), row.status@);
    let t12 = t11 + " | depth "@;
    lemma_held(t11, " | depth "@, id);
    lemma_held(t11, " | depth "@, row.status@);
    let t13 = t12 + text::decimal(row.handoff_depth as nat);
    lemma_held(t12, text::decimal(row.handoff_depth as nat), id);
    lemma_held(t12, text::decimal(row.handoff_depth as nat), row.status@);
    let t14 = t13 + "\n"@;
    lemma_held(t13, "\n"@, id);
    lemma_held(t13, "\n"@, row.status@);
    let t15 = t14 + "  prompt: "@;
    lemma_held(t14, "  prompt: "@, id);
    lemma_held(t14, "  prompt: "@, row.status@);
    let t16 = t15 + p;
    lemma_held(t15, p, id);
    lemma_held(t15, p, row.status@);
    lemma_at_the_end(t15, p);
    let t17 = t16 + "\n"@;
    lemma_held(t16, "\n"@, id);
    lemma_held(t16, "\n"@, row.status@);
    lemma_held(t16, "\n"@, p);
    assert(history::summary(row) == t17);
}

/// The runs of a list are told one behind the other, and those that hold the
/// text neither in the prompt nor in the result are not.
pub proof fn law_other_runs_are_left_out(rows: Seq<RunRow>, row: RunRow, query: Seq<char>)
    requires
        query.len() > 0,
        !text::contains(row.prompt@, query),
        row.result matches Some(s) ==> !text::contains(s@, query),
    ensures
        history::summaries(rows.push(row), query) == history::summaries(rows, query),
{
    assert(rows.push(row).drop_last() =~= rows);
    let none = Seq::<char>::empty();
    assert(history::summaries(rows, query) + none =~= history::summaries(rows, query));
    if text::contains(none, query) {
        let i = choose|i: int| text::occurs_at(none, query, i);
    }
}

/// The details of a run hold its prompt and its result as they are.
pub proof fn law_details_hold_the_run(row: RunRow)
    ensures
        text::contains(history::details(row), row.prompt@),
        row.result matches Some(s) ==> s@.is_suffix_of(history::details(row)),
        history::details_head(row).is_prefix_of(history::details(row)),
        text::contains(history::details_head(row), row.status@),
        text::contains(history::details_head(row), text::signed_decimal(row.id as int)),
        text::contains(history::details_head(row), row.chain_id@),
{
    let h = history::details_head(row);
    let tail = match row.result {
        Some(s) => "\n\n결과:\n"@ + s@,
        None => Seq::empty(),
    };
    let d = history::details(row);
    lemma_between(h + "\n\n프롬프트:\n"@, row.prompt@, tail);
    assert(d.take(h.len() as int) =~= h);
    match row.result {
        Some(s) => {
            assert(d.subrange(d.len() - s@.len(), d.len() as int) =~= s@);
        },
        None => {},
    }
    lemma_head_holds(row);
}

/// The head of a run's details holds its number, its state and its chain.
proof fn lemma_head_holds(row: RunRow)
    ensures
        text::contains(history::details_head(row), text::signed_decimal(row.id as int)),
        text::contains(history::details_head(row), row.status@),
        text::contains(history::details_head(row), row.chain_id@),
{
    let id = text::signed_decimal(row.id as int);
    let t0 = "작업 #"@;
    let t1 = t0 + id;
    lemma_at_the_end(t0, id);
    let t2 = t1 + "\n상태: "@;
    lemma_held(t1, "\n상태: "@, id);
    let t3 = t2 + row.status@;
    lemma_held(t2, row.status@, id);
    lemma_at_the_end(t2, row.status@);
    let t4 = t3 + "\n시작: "@;
    lemma_held(t3, "\n시작: "@, id);
    lemma_held(t3, "\n시작: "@, row.status@);
    let t5 = t4 + row.started_at@;
    lemma_held(t4, row.started_at@, id);
    lemma_held(t4, row.started_at@, row.status@);
    let t6 = t5 + "\n종료: "@;
    lemma_held(t5, "\n종료: "@, id);
    lemma_held(t5, "\n종료: "@, row.status@);
    let t7 = t6 + history::or_dash(row.finished_at);
    lemma_held(t6, history::or_dash(row.finished_at), id);
    lemma_held(t6, history::or_dash(row.finished_at), row.status@);
    let t8 = t7 + "\ncwd: "@;
    lemma_held(t7, "\ncwd: "@, id);
    lemma_held(t7, "\ncwd: "@, row.status@);
    let t9 = t8 + row.cwd@;
    lemma_held(t8, row.cwd@, id);
    lemma_held(t8, row.cwd@, row.status@);
    let t10 = t9 + "\nendpoint: "@;
    lemma_held(t9, "\nendpoint: "@, id);
    lemma_held(t9, "\nendpoint: "@, row.status@);
    let t11 = t10 + row.endpoint@;
    lemma_held(t10, row.endpoint@, id);
    lemma_held(t10, row.endpoint@, row.status@);
    let t12 = t11 + "\nmodel: "@;
    lemma_held(t11, "\nmodel: "@, id);
    lemma_held(t11, "\nmodel: "@, row.status@);
    let t13 = t12 + history::or_dash(row.model);
    lemma_held(t12, history::or_dash(row.model), id);
    lemma_held(t12, history::or_dash(row.model), row.status@);
    let t14 = t13 + "\nchain_id: "@;
    lemma_held(t13, "\nchain_id: "@, id);
    lemma_held(t13, "\nchain_id: "@, row.status@);
    let t15 = t14 + row.chain_id@;
    lemma_held(t14, row.chain_id@, id);
    lemma_held(t14, row.chain_id@, row.status@);
    lemma_at_the_end(t14, row.chain_id@);
    let t16 = t15 + "\nsegment: "@;
    lemma_held(t15, "\nsegment: "@, id);
    lemma_held(t15, "\nsegment: "@, row.status@);
    lemma_held(t15, "\nsegment: "@, row.chain_id@);
    let t17 = t16 + text::decimal(row.segment_index as nat);
    lemma_held(t16, text::decimal(row.segment_index as nat), id);
    lemma_held(t16, text::decimal(row.segment_index as nat), row.status@);
    lemma_held(t16, text::decimal(row.segment_index as nat), row.chain_id@);
    let t18 = t17 + "\ndepth: "@;
    lemma_held(t17, "\ndepth: "@, id);
    lemma_held(t17, "\ndepth: "@, row.status@);
    lemma_held(t17, "\ndepth: "@, row.chain_id@);
    let t19 = t18 + text::decimal(row.handoff_depth as nat);
    lemma_held(t18, text::decimal(row.handoff_depth as nat), id);
    lemma_held(t18, text::decimal(row.handoff_depth as nat), row.status@);
    lemma_held(t18, text::decimal(row.handoff_depth as nat), row.chain_id@);
    let t20 = t19 + "\nparent_run: "@;
    lemma_held(t19, "\nparent_run: "@, id);
    lemma_held(t19, "\nparent_run: "@, row.status@);
    lemma_held(t19, "\nparent_run: "@, row.chain_id@);
    let t21 = t20 + history::integer_or_dash(row.parent_run_id);
    lemma_held(t20, history::integer_or_dash(row.parent_run_id), id);
    lemma_held(t20, history::integer_or_dash(row.parent_run_id), row.status@);
    lemma_held(t20, history::integer_or_dash(row.parent_run_id), row.chain_id@);
    let t22 = t21 + "\ntokens: "@;
    lemma_held(t21, "\ntokens: "@, id);
    lemma_held(t21, "\ntokens: "@, row.status@);
    lemma_held(t21, "\ntokens: "@, row.chain_id@);
    let t23 = t22 + history::number_or_dash(row.input_tokens);
    lemma_held(t22, history::number_or_dash(row.input_tokens), id);
    lemma_held(t22, history::number_or_dash(row.input_tokens), row.status@);
    lemma_held(t22, history::number_or_dash(row.input_tokens), row.chain_id@);
    let t24 = t23 + "/"@;
    lemma_held(t23, "/"@, id);
    lemma_held(t23, "/"@, row.status@);
    lemma_held(t23, "/"@, row.chain_id@);
    let t25 = t24 + history::number_or_dash(row.output_tokens);
    lemma_held(t24, history::number_or_dash(row.output_tokens), id);
    lemma_held(t24, history::number_or_dash(row.output_tokens), row.status@);
    lemma_held(t24, history::number_or_dash(row.output_tokens), row.chain_id@);
    let t26 = t25 + "\nfiles: "@;
    lemma_held(t25, "\nfiles: "@, id);
    lemma_held(t25, "\nfiles: "@, row.status@);
    lemma_held(t25, "\nfiles: "@, row.chain_id@);
    let t27 = t26 + history::files_text(row);
    lemma_held(t26, history::files_text(row), id);
    lemma_held(t26, history::files_text(row), row.status@);
    lemma_held(t26, history::files_text(row), row.chain_id@);
    let t28 = t27 + "\nduration: "@;
    lemma_held(t27, "\nduration: "@, id);
    lemma_held(t27, "\nduration: "@, row.status@);
    lemma_held(t27, "\nduration: "@, row.chain_id@);
    let t29 = t28 + history::number_or_dash(row.duration_ms);
    lemma_held(t28, history::number_or_dash(row.duration_ms), id);
    lemma_held(t28, history::number_or_dash(row.duration_ms), row.status@);
    lemma_held(t28, history::number_or_dash(row.duration_ms), row.chain_id@);
    let t30 = t29 + "ms"@;
    lemma_held(t29, "ms"@, id);
    lemma_held(t29, "ms"@, row.status@);
    lemma_held(t29, "ms"@, row.chain_id@);
    assert(history::details_head(row) == t30);
}

// ---------------------------------------------------------------------------
// Tools of servers
// ---------------------------------------------------------------------------

/// A tool of a server is offered under the names of both, with the parameters
/// that the server names, and a call of it goes to that tool of that server.
pub proof fn law_server_tool_is_offered(
    before: Map<Seq<char>, SpecModel<ToolModel>>,
    server: Seq<char>,
    tools: Seq<ToolSchema>,
    i: int,
)
    requires
        0 <= i < tools.len(),
        forall|j: int| i < j < tools.len() ==> (#[trigger] tools[j]).name@ != tools[i].name@,
    ensures
        ({
            let name = server + "__"@ + tools[i].name@;
            let m = mcp_tools::offers_after(before, server, tools);
            &&& m.dom().contains(name)
            &&& m[name].def.name == name
            &&& m[name].def.parameters == tools::normalized(tools[i].input_schema@)
            &&& m[name].handler == (ToolModel::Server { server, tool: tools[i].name@ })
            &&& tools[i].description matches Some(d) ==> d@.is_suffix_of(m[name].def.description)
        }),
    decreases tools.len(),
{
    let name = server + "__"@ + tools[i].name@;
    if i == tools.len() - 1 {
        match tools[i].description {
            Some(d) => {
                let t = mcp_tools::offered(server, tools[i]).def.description;
                assert(t.subrange(t.len() - d@.len(), t.len() as int) =~= d@);
            },
            None => {},
        }
    } else {
        let d = tools.drop_last();
        assert forall|j: int| i < j < d.len() implies (#[trigger] d[j]).name@ != d[i].name@ by {
            assert(d[j] == tools[j]);
        }
        law_server_tool_is_offered(before, server, d, i);
        let last = server + "__"@ + tools.last().name@;
        if last == name {
            let k = (server + "__"@).len() as int;
            assert(last.skip(k) =~= tools.last().name@);
            assert(name.skip(k) =~= tools[i].name@);
            assert(tools[tools.len() - 1].name@ != tools[i].name@);
        }
    }
}

/// Tools that were offered before stay, unless a tool of the server has their
/// name.
pub proof fn law_other_tools_stay(
    before: Map<Seq<char>, SpecModel<ToolModel>>,
    server: Seq<char>,
    tools: Seq<ToolSchema>,
    name: Seq<char>,
)
    requires
        forall|j: int| 0 <= j < tools.len() ==> server + "__"@ + (#[trigger] tools[j]).name@ != name,
    ensures
        mcp_tools::offers_after(before, server, tools).dom().contains(name) == before.dom().contains(
            name,
        ),
        before.dom().contains(name) ==> mcp_tools::offers_after(before, server, tools)[name]
            == before[name],
    decreases tools.len(),
{
    if tools.len() > 0 {
        let d = tools.drop_last();
        assert forall|j: int| 0 <= j < d.len() implies server + "__"@ + (#[trigger] d[j]).name@
            != name by {
            assert(d[j] == tools[j]);
        }
        law_other_tools_stay(before, server, d, name);
        assert(server + "__"@ + tools[tools.len() - 1].name@ != name);
    }
}

/// What a tool of a server is called with is what the model wrote, and an error
/// of the call is told as it is, with the parameters of the tool behind it.
pub proof fn law_server_call_is_passed_on(
    args: JsonModel,
    given: JsonModel,
    err: Seq<char>,
    tool: Seq<char>,
    tools: Seq<ToolSchema>,
)
    ensures
        args.field("args"@) == Some(given) ==> mcp_call::tool_arguments(args) == given,
        err.is_prefix_of(mcp_call::explained(err, tool, tools)),
{
    let t = mcp_call::explained(err, tool, tools);
    assert(t.take(err.len() as int) =~= err);
}

} // verus!
