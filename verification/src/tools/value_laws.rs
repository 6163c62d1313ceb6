//! What images, servers' tools and arguments keep when they are put in words.
use vstd::prelude::*;

use crate::history as run_history;
use crate::history::ParamModel;
use crate::json;
use crate::json::JsonModel;
use crate::mcp;
use crate::mcp::ToolSchema;
use crate::paths;
use crate::text;
use crate::tools::edit_file;
use crate::tools::edit_file::EditCall;
use crate::tools::history;
use crate::tools::laws;
use crate::tools::mcp_call;
use crate::tools::read_file;
use crate::tools::util;

verus! {

// ---------------------------------------------------------------------------
// Images
// ---------------------------------------------------------------------------

/// The number of six bits that a base64 character stands for.
pub open spec fn six_bits(c: char) -> int {
    if 'A' <= c <= 'Z' {
        c as int - 'A' as int
    } else if 'a' <= c <= 'z' {
        c as int - 'a' as int + 26
    } else if '0' <= c <= '9' {
        c as int - '0' as int + 52
    } else if c == '+' {
        62
    } else {
        63
    }
}

/// The bytes that a base64 text stands for.
pub open spec fn bytes_of(s: Seq<char>) -> Seq<int>
    decreases s.len(),
{
    if s.len() < 4 {
        Seq::empty()
    } else {
        let (a, b, c, d) = (six_bits(s[0]), six_bits(s[1]), six_bits(s[2]), six_bits(s[3]));
        if s[2] == '=' {
            seq![a * 4 + b / 16]
        } else if s[3] == '=' {
            seq![a * 4 + b / 16, b % 16 * 16 + c / 4]
        } else {
            seq![a * 4 + b / 16, b % 16 * 16 + c / 4, c % 4 * 64 + d] + bytes_of(s.skip(4))
        }
    }
}

proof fn lemma_digit(n: int)
    requires
        0 <= n < 64,
    ensures
        six_bits(read_file::base64_digit(n)) == n,
        read_file::base64_digit(n) != '=',
{
}

/// An image is passed on byte for byte: its base64 text stands for its bytes.
pub proof fn law_image_keeps_its_bytes(b: Seq<u8>)
    ensures
        bytes_of(read_file::base64_of(b)) == b.map_values(|x: u8| x as int),
        read_file::base64_of(b).len() == (b.len() + 2) / 3 * 4,
    decreases b.len(),
{
    let s = read_file::base64_of(b);
    if b.len() == 0 {
        assert(bytes_of(s) =~= b.map_values(|x: u8| x as int));
    } else {
        let x = b[0] as int;
        lemma_digit(x / 4);
        if b.len() == 1 {
            lemma_digit(x % 4 * 16);
            assert(s[2] == '=');
            assert(bytes_of(s) =~= b.map_values(|x: u8| x as int));
        } else {
            let y = b[1] as int;
            lemma_digit(x % 4 * 16 + y / 16);
            if b.len() == 2 {
                lemma_digit(y % 16 * 4);
                assert(s[3] == '=');
                assert(bytes_of(s) =~= b.map_values(|x: u8| x as int));
            } else {
                let z = b[2] as int;
                lemma_digit(y % 16 * 4 + z / 64);
                lemma_digit(z % 64);
                law_image_keeps_its_bytes(b.skip(3));
                assert(s.skip(4) =~= read_file::base64_of(b.skip(3)));
                assert(bytes_of(s) =~= b.map_values(|x: u8| x as int));
            }
        }
    }
}

// ---------------------------------------------------------------------------
// Tools of servers
// ---------------------------------------------------------------------------

proof fn lemma_listed_name(s: Seq<char>, names: Seq<Seq<char>>, k: int)
    requires
        mcp::lists(s, names),
        0 <= k < names.len(),
    ensures
        text::contains(s, names[k]),
{
    broadcast use vstd::seq_lib::group_to_multiset_ensures;

    let sorted = choose|sorted: Seq<Seq<char>>|
        text::in_order(sorted) && sorted.to_multiset() == names.to_multiset() && s
            == #[trigger] text::joined(sorted, ", "@);
    assert(names.contains(names[k]));
    assert(names.to_multiset().count(names[k]) > 0);
    assert(sorted.contains(names[k]));
    let j = choose|j: int| 0 <= j < sorted.len() && sorted[j] == names[k];
    laws::lemma_joined_holds(sorted, ", "@, j);
}

proof fn lemma_tool_line(line: Seq<char>, tool: ToolSchema)
    requires
        mcp::tool_line(line, tool),
    ensures
        text::contains(line, tool.name@),
        tool.description matches Some(d) ==> text::contains(line, d@),
        forall|k: int|
            0 <= k < mcp::parameter_names(tool.input_schema@).len() && mcp::parameter_names(
                tool.input_schema@,
            )[k].len() > 0 ==> text::contains(
                line,
                #[trigger] mcp::parameter_names(tool.input_schema@)[k],
            ),
{
    let names = mcp::parameter_names(tool.input_schema@);
    let params = choose|params: Seq<char>| #[trigger]
        mcp::lists(params, names) && line == mcp::parenthesized(mcp::tool_head(tool), params);
    let about = match tool.description {
        Some(d) => d@,
        None => "(설명 없음)"@,
    };
    let a = "- "@ + tool.name@;
    let b = a + " — "@;
    let head = b + about;
    laws::lemma_at_the_end("- "@, tool.name@);
    laws::lemma_held(a, " — "@, tool.name@);
    laws::lemma_held(b, about, tool.name@);
    laws::lemma_at_the_end(b, about);
    if params.len() == 0 {
        laws::lemma_held(head, "\n"@, tool.name@);
        laws::lemma_held(head, "\n"@, about);
        assert forall|k: int| 0 <= k < names.len() && names[k].len() > 0 implies text::contains(
            line,
            #[trigger] names[k],
        ) by {
            lemma_listed_name(params, names, k);
        }
    } else {
        let c = head + " (파라미터: "@;
        let d = c + params;
        let e = d + ")"@;
        laws::lemma_held(head, " (파라미터: "@, tool.name@);
        laws::lemma_held(head, " (파라미터: "@, about);
        laws::lemma_held(c, params, tool.name@);
        laws::lemma_held(c, params, about);
        laws::lemma_held(d, ")"@, tool.name@);
        laws::lemma_held(d, ")"@, about);
        laws::lemma_held(e, "\n"@, tool.name@);
        laws::lemma_held(e, "\n"@, about);
        assert forall|k: int| 0 <= k < names.len() && names[k].len() > 0 implies text::contains(
            line,
            #[trigger] names[k],
        ) by {
            lemma_listed_name(params, names, k);
            laws::lemma_held(params, c, names[k]);
            laws::lemma_held(d, ")"@, names[k]);
            laws::lemma_held(e, "\n"@, names[k]);
        }
    }
}

/// Every tool of a server is listed, with its name, its description and the names
/// of its parameters.
pub proof fn law_every_tool_is_listed(s: Seq<char>, tools: Seq<ToolSchema>, i: int)
    requires
        mcp::tool_lines(s, tools),
        0 <= i < tools.len(),
    ensures
        text::contains(s, tools[i].name@),
        tools[i].description matches Some(d) ==> text::contains(s, d@),
        forall|k: int|
            0 <= k < mcp::parameter_names(tools[i].input_schema@).len() && mcp::parameter_names(
                tools[i].input_schema@,
            )[k].len() > 0 ==> text::contains(
                s,
                #[trigger] mcp::parameter_names(tools[i].input_schema@)[k],
            ),
    decreases tools.len(),
{
    let d = tools.drop_last();
    let n = choose|n: int|
        0 <= n <= s.len() && mcp::tool_lines(#[trigger] s.take(n), d) && mcp::tool_line(
            s.skip(n),
            tools.last(),
        );
    let (a, b) = (s.take(n), s.skip(n));
    assert(s =~= a + b);
    let names = mcp::parameter_names(tools[i].input_schema@);
    let part = if i < d.len() {
        a
    } else {
        b
    };
    let other = if i < d.len() {
        b
    } else {
        a
    };
    if i < d.len() {
        law_every_tool_is_listed(a, d, i);
        assert(d[i] == tools[i]);
    } else {
        lemma_tool_line(b, tools[i]);
    }
    laws::lemma_held(part, other, tools[i].name@);
    if let Some(t) = tools[i].description {
        laws::lemma_held(part, other, t@);
    }
    assert forall|k: int| 0 <= k < names.len() && names[k].len() > 0 implies text::contains(
        s,
        #[trigger] names[k],
    ) by {
        laws::lemma_held(part, other, names[k]);
    }
}

/// The parameters of a tool are those that its schema describes.
pub proof fn law_parameters_are_those_of_the_schema(
    schema: JsonModel,
    m: Seq<(Seq<char>, JsonModel)>,
    k: int,
)
    requires
        crate::tools::normalized(schema).field("properties"@) == Some(JsonModel::Object(m)),
        0 <= k < m.len(),
    ensures
        mcp::parameter_names(schema).len() == m.len(),
        mcp::parameter_names(schema)[k] == m[k].0,
{
}

proof fn lemma_first_tool(tools: Seq<ToolSchema>, name: Seq<char>, k: int, i: int)
    requires
        0 <= k <= i < tools.len(),
        tools[i].name@ == name,
        forall|j: int| k <= j < i ==> (#[trigger] tools[j]).name@ != name,
    ensures
        mcp_call::tool_at(tools, name, k) == Some(i),
    decreases i - k,
{
    if k < i {
        assert(tools[k].name@ != name);
        lemma_first_tool(tools, name, k + 1, i);
    }
}

proof fn lemma_no_tool(tools: Seq<ToolSchema>, name: Seq<char>, k: int)
    requires
        0 <= k,
        forall|j: int| k <= j < tools.len() ==> (#[trigger] tools[j]).name@ != name,
    ensures
        mcp_call::tool_at(tools, name, k) is None,
    decreases tools.len() - k,
{
    if k < tools.len() {
        assert(tools[k].name@ != name);
        lemma_no_tool(tools, name, k + 1);
    }
}

/// An error about arguments is told whole, with the schemas of the parameters
/// behind it where the server has the tool, and alone where it has not.
pub proof fn law_error_tells_the_parameters(
    err: Seq<char>,
    tool: Seq<char>,
    tools: Seq<ToolSchema>,
    i: int,
    properties: JsonModel,
)
    ensures
        err.is_prefix_of(mcp_call::explained(err, tool, tools)),
        0 <= i < tools.len() && tools[i].name@ == tool && (forall|j: int|
            0 <= j < i ==> (#[trigger] tools[j]).name@ != tool)
            && tools[i].input_schema@.field("properties"@) == Some(properties)
            ==> json::json_print_pretty(properties).is_suffix_of(
            mcp_call::explained(err, tool, tools),
        ),
        (forall|j: int| 0 <= j < tools.len() ==> (#[trigger] tools[j]).name@ != tool)
            ==> mcp_call::explained(err, tool, tools) == err,
{
    let r = mcp_call::explained(err, tool, tools);
    assert(r.take(err.len() as int) =~= err);
    if 0 <= i < tools.len() && tools[i].name@ == tool && (forall|j: int|
        0 <= j < i ==> (#[trigger] tools[j]).name@ != tool)
        && tools[i].input_schema@.field("properties"@) == Some(properties) {
        lemma_first_tool(tools, tool, 0, i);
        let p = json::json_print_pretty(properties);
        assert(r.subrange(r.len() - p.len(), r.len() as int) =~= p);
    }
    if forall|j: int| 0 <= j < tools.len() ==> (#[trigger] tools[j]).name@ != tool {
        lemma_no_tool(tools, tool, 0);
    }
}

// ---------------------------------------------------------------------------
// Summaries of calls
// ---------------------------------------------------------------------------

/// The summary of a call names every argument with its value: a number, a truth
/// value and a short text as they are, and a long text by its beginning.
pub proof fn law_summary_names_every_argument(
    m: Seq<(Seq<char>, JsonModel)>,
    max: nat,
    i: int,
)
    requires
        0 <= i < m.len(),
    ensures
        text::contains(
            util::args_summary(JsonModel::Object(m), max),
            m[i].0 + "="@ + util::value_summary(m[i].1, max),
        ),
        m[i].1 matches JsonModel::Str(s) ==> (s.len() <= max ==> util::value_summary(m[i].1, max)
            == s) && (s.len() > max ==> s.take(max as int).is_prefix_of(
            util::value_summary(m[i].1, max),
        )),
        m[i].1 matches JsonModel::UInt(n) ==> util::value_summary(m[i].1, max) == text::decimal(
            n as nat,
        ),
        m[i].1 matches JsonModel::Int(n) ==> util::value_summary(m[i].1, max)
            == text::signed_decimal(n as int),
        m[i].1 == JsonModel::Bool(true) ==> util::value_summary(m[i].1, max) == "true"@,
        m[i].1 == JsonModel::Bool(false) ==> util::value_summary(m[i].1, max) == "false"@,
{
    let parts = m.map_values(
        |e: (Seq<char>, JsonModel)| e.0 + "="@ + util::value_summary(e.1, max),
    );
    laws::lemma_joined_holds(parts, " "@, i);
    if let JsonModel::Str(s) = m[i].1 {
        if s.len() > max {
            assert(util::value_summary(m[i].1, max).take(max as int) =~= s.take(max as int));
        }
    }
}

// ---------------------------------------------------------------------------
// Messages of edits and calls
// ---------------------------------------------------------------------------

/// What is said about an edit names the file and how often the text was found.
pub proof fn law_edit_is_told(call: EditCall, count: nat)
    ensures
        text::contains(edit_file::edit_message(call, count), call.path@),
        text::contains(edit_file::edit_message(call, count), text::decimal(count)),
        call.replace_all ==> text::contains(
            edit_file::edit_message(call, count),
            "(replace_all="@ + "true"@,
        ),
        !call.replace_all ==> text::contains(
            edit_file::edit_message(call, count),
            "(replace_all="@ + "false"@,
        ),
{
    let n = text::decimal(count);
    let word = if call.replace_all {
        "true"@
    } else {
        "false"@
    };
    let end = if edit_file::has_look_alike(call.find@) {
        "\n"@ + edit_file::WARNING@
    } else {
        ""@
    };
    let a = "편집 완료: "@ + call.path@;
    let b = a + " — "@;
    let c = b + n;
    let middle = "곳 치환 (replace_all="@;
    let d = c + middle;
    let e = d + word;
    let f = e + ")"@;
    laws::lemma_at_the_end("편집 완료: "@, call.path@);
    laws::lemma_held(a, " — "@, call.path@);
    laws::lemma_held(b, n, call.path@);
    laws::lemma_at_the_end(b, n);
    laws::lemma_held(c, middle, call.path@);
    laws::lemma_held(c, middle, n);
    laws::lemma_held(d, word, call.path@);
    laws::lemma_held(d, word, n);
    reveal_strlit("곳 치환 (replace_all=");
    reveal_strlit("(replace_all=");
    reveal_strlit("곳 치환 ");
    let said = "(replace_all="@ + word;
    assert(middle =~= "곳 치환 "@ + "(replace_all="@);
    assert(e =~= c + "곳 치환 "@ + said);
    laws::lemma_at_the_end(c + "곳 치환 "@, said);
    laws::lemma_held(e, ")"@, call.path@);
    laws::lemma_held(e, ")"@, n);
    laws::lemma_held(e, ")"@, said);
    laws::lemma_held(f, end, call.path@);
    laws::lemma_held(f, end, n);
    laws::lemma_held(f, end, said);
    assert(f + end == edit_file::edit_message(call, count));
}

/// The error of a text that is not found, or is found too often, names the text,
/// and the latter how often.
pub proof fn law_failed_edit_is_told(find: Seq<char>, count: nat)
    ensures
        text::contains(edit_file::absent_message(find), find),
        text::contains(edit_file::ambiguous_message(find, count), find),
        text::contains(edit_file::ambiguous_message(find, count), text::decimal(count)),
        edit_file::has_look_alike(find) ==> text::contains(
            edit_file::absent_message(find),
            edit_file::WARNING@,
        ),
{
    let n = text::decimal(count);
    let head = "edit_file: '"@;
    let a = head + find;
    let end = if edit_file::has_look_alike(find) {
        "\n"@ + edit_file::WARNING@
    } else {
        ""@
    };
    let absent = "'을(를) 찾을 수 없습니다."@;
    laws::lemma_at_the_end(head, find);
    laws::lemma_held(a, absent, find);
    laws::lemma_held(a + absent, end, find);
    if edit_file::has_look_alike(find) {
        laws::lemma_at_the_end("\n"@, edit_file::WARNING@);
        laws::lemma_held(end, a + absent, edit_file::WARNING@);
    }
    let b = a + "'이(가) "@;
    let c = b + n;
    let rest = "곳에서 발견되었습니다. replace_all=true를 쓰거나 find를 더 구체적으로 지정하세요."@;
    laws::lemma_held(a, "'이(가) "@, find);
    laws::lemma_held(b, n, find);
    laws::lemma_at_the_end(b, n);
    laws::lemma_held(c, rest, find);
    laws::lemma_held(c, rest, n);
}

/// Every hint that the arguments do not fit is heeded, and without one nothing is
/// suspected.
pub proof fn law_every_hint_counts(lower: Seq<char>, i: int)
    ensures
        0 <= i < 10 && text::contains(lower, mcp_call::HINTS@[i]@) ==> mcp_call::mismatch(lower),
        (forall|j: int| 0 <= j < 10 ==> !text::contains(lower, #[trigger] mcp_call::HINTS@[j]@))
            ==> !mcp_call::mismatch(lower),
{
}

/// The arguments for a server are those that are given, and none where none are.
pub proof fn law_given_arguments_are_handed_on(args: JsonModel, v: JsonModel)
    ensures
        args.field("args"@) == Some(v) ==> mcp_call::tool_arguments(args) == v,
        args.field("args"@) is None ==> mcp_call::tool_arguments(args) == JsonModel::Object(
            Seq::empty(),
        ),
{
}

// ---------------------------------------------------------------------------
// Queries and paths
// ---------------------------------------------------------------------------

/// A query for runs asks for a state where one is given, and for a chain where one
/// is.
pub proof fn law_query_asks_for_what_is_given()
    ensures
        run_history::conditions(false, false) == ""@,
        run_history::conditions(true, false) == " WHERE status = ?"@,
        run_history::conditions(false, true) == " WHERE chain_id = ?"@,
        run_history::conditions(true, true) == " WHERE status = ? AND chain_id = ?"@,
{
}

/// A query for runs has a value for each of its conditions, in their order.
pub proof fn law_query_has_a_value_for_each_condition(status: Seq<char>, chain: Seq<char>)
    ensures
        run_history::condition_values(None, None).len() == 0,
        run_history::condition_values(Some(status), None) == seq![ParamModel::Text(status)],
        run_history::condition_values(None, Some(chain)) == seq![ParamModel::Text(chain)],
        run_history::condition_values(Some(status), Some(chain)) == seq![
            ParamModel::Text(status),
            ParamModel::Text(chain),
        ],
{
    assert(run_history::condition_values(Some(status), None) =~= seq![ParamModel::Text(status)]);
    assert(run_history::condition_values(None, Some(chain)) =~= seq![ParamModel::Text(chain)]);
    assert(run_history::condition_values(Some(status), Some(chain)) =~= seq![
        ParamModel::Text(status),
        ParamModel::Text(chain),
    ]);
}

/// A path is put below another with one slash between them; one that begins with
/// a slash stands for itself.
pub proof fn law_path_is_put_below(base: Seq<char>, part: Seq<char>)
    ensures
        part.len() > 0 && part[0] == '/' ==> paths::below(base, part) == part,
        (part.len() == 0 || part[0] != '/') && base.len() > 0 && base.last() != '/'
            ==> paths::below(base, part) == base + seq!['/'] + part,
        (part.len() == 0 || part[0] != '/') && base.len() > 0 && base.last() == '/'
            ==> paths::below(base, part) == base + part,
{
    reveal_strlit("/");
    assert("/"@ =~= seq!['/']);
}

/// The number of a run is read as a signed number of sixty-four bits: a small one
/// as it is, and any other one as the number with the same bits.
pub proof fn law_number_of_a_run_is_signed(n: u64)
    ensures
        history::as_signed(n) >= -0x8000_0000_0000_0000 && history::as_signed(n)
            < 0x8000_0000_0000_0000,
        history::as_signed(n) == n || history::as_signed(n) == n - 0x1_0000_0000_0000_0000,
{
}

/// A look-alike is noticed wherever it stands in a text, and without one nothing
/// is.
pub proof fn law_look_alike_is_noticed(s: Seq<char>, i: int)
    ensures
        0 <= i < s.len() && edit_file::look_alike(s[i]) ==> edit_file::has_look_alike(s),
        (forall|j: int| 0 <= j < s.len() ==> !edit_file::look_alike(#[trigger] s[j]))
            ==> !edit_file::has_look_alike(s),
{
}

/// The files of a run are read from a list of texts, and only from one.
pub proof fn law_files_are_read_from_texts(items: Seq<JsonModel>, i: int)
    requires
        0 <= i < items.len(),
    ensures
        !(items[i] is Str) ==> run_history::texts_of(Some(JsonModel::Array(items))).len() == 0,
        (forall|j: int| 0 <= j < items.len() ==> (#[trigger] items[j]) is Str) ==> {
            let files = run_history::texts_of(Some(JsonModel::Array(items)));
            files.len() == items.len() && JsonModel::Str(files[i]) == items[i]
        },
        run_history::texts_of(None).len() == 0,
{
}

} // verus!
