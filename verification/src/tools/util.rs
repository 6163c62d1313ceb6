//! What the tools share: reading arguments and shortening results.
use vstd::prelude::*;

use crate::json::{Json, JsonModel};
use crate::json;
use crate::text;

verus! {

/// The text of an argument; `None` where it is absent or no string.
pub open spec fn text_of(args: JsonModel, key: Seq<char>) -> Option<Seq<char>> {
    match args.field(key) {
        Some(v) => v.text(),
        None => None,
    }
}

/// The text of an argument that must not be blank.
pub open spec fn filled_text(args: JsonModel, key: Seq<char>) -> Option<Seq<char>> {
    match text_of(args, key) {
        Some(s) => if text::blank(s) {
            None
        } else {
            Some(s)
        },
        None => None,
    }
}

/// The number of an argument; `None` where it is absent or no unsigned integer.
pub open spec fn number_of(args: JsonModel, key: Seq<char>) -> Option<u64> {
    match args.field(key) {
        Some(v) => v.unsigned(),
        None => None,
    }
}

/// The truth value of an argument; `None` where it is absent or no boolean.
pub open spec fn flag_of(args: JsonModel, key: Seq<char>) -> Option<bool> {
    match args.field(key) {
        Some(v) => v.boolean(),
        None => None,
    }
}

/// The text of an argument.
pub fn str_arg(args: &Json, key: &str) -> (r: Option<String>)
    ensures
        text::opt_view(r) == text_of(args@, key@),
{
    match args.get(key) {
        Some(v) => match v.as_str() {
            Some(s) => Some(s.to_string()),
            None => None,
        },
        None => None,
    }
}

/// The text of an argument that must not be blank.
pub fn filled_arg(args: &Json, key: &str) -> (r: Option<String>)
    ensures
        text::opt_view(r) == filled_text(args@, key@),
{
    match str_arg(args, key) {
        Some(s) => if text::is_blank(&s) {
            None
        } else {
            Some(s)
        },
        None => None,
    }
}

/// The number of an argument, where it is given.
pub fn number_arg(args: &Json, key: &str) -> (r: Option<u64>)
    ensures
        r == number_of(args@, key@),
{
    match args.get(key) {
        Some(v) => v.as_u64(),
        None => None,
    }
}

/// The number of an argument, or a default.
pub fn int_arg(args: &Json, key: &str, default: u64) -> (r: u64)
    ensures
        r == match number_of(args@, key@) {
            Some(n) => n,
            None => default,
        },
{
    match number_arg(args, key) {
        Some(n) => n,
        None => default,
    }
}

/// The truth value of an argument, or a default.
pub fn bool_arg(args: &Json, key: &str, default: bool) -> (r: bool)
    ensures
        r == match flag_of(args@, key@) {
            Some(b) => b,
            None => default,
        },
{
    match args.get(key) {
        Some(v) => match v.as_bool() {
            Some(b) => b,
            None => default,
        },
        None => default,
    }
}

/// What to do about a result that was cut off, by tool.
pub open spec fn hint_for(tool: Seq<char>) -> Seq<char> {
    if tool == "bash"@ {
        "파일로 redirect 후 read_file 페이징 또는 head/grep으로 좁히기"@
    } else if tool == "grep"@ {
        "패턴·glob 좁히기"@
    } else if tool == "read_file"@ {
        "offset·limit으로 페이징 좁히기"@
    } else if tool == "glob"@ {
        "패턴을 더 구체적으로 좁히기"@
    } else {
        "결과를 좁혀서 재시도"@
    }
}

/// A result of at most `max` characters; a longer one is cut off there, and a
/// note says how much is missing and how to ask for less.
pub open spec fn shortened(s: Seq<char>, tool: Seq<char>, max: nat) -> Seq<char> {
    if s.len() <= max {
        s
    } else {
        s.take(max as int) + "\n...truncated "@ + text::decimal((s.len() - max) as nat)
            + " chars — 힌트: "@ + hint_for(tool)
    }
}

/// What to do about a result that was cut off, by tool.
fn hint(tool: &str) -> (r: &'static str)
    ensures
        r@ == hint_for(tool@),
{
    if text::str_eq(tool, "bash") {
        "파일로 redirect 후 read_file 페이징 또는 head/grep으로 좁히기"
    } else if text::str_eq(tool, "grep") {
        "패턴·glob 좁히기"
    } else if text::str_eq(tool, "read_file") {
        "offset·limit으로 페이징 좁히기"
    } else if text::str_eq(tool, "glob") {
        "패턴을 더 구체적으로 좁히기"
    } else {
        "결과를 좁혀서 재시도"
    }
}

/// Shortens a tool's result before it becomes part of the conversation. The
/// note behind a shortened result leads to another call rather than the same
/// one again.
pub fn truncate_tool_result(s: &str, tool: &str, max_chars: usize) -> (r: String)
    ensures
        r@ == shortened(s@, tool@, max_chars as nat),
{
    let v = text::chars_of(s);
    if v.len() <= max_chars {
        return s.to_string();
    }
    let mut out = text::take_chars(s, max_chars).to_string();
    out.append("\n...truncated ");
    text::push_decimal(&mut out, (v.len() - max_chars) as u64);
    out.append(" chars — 힌트: ");
    out.append(hint(tool));
    out
}

/// A text of at most `max` characters; a longer one is cut off there, with an
/// ellipsis.
pub open spec fn clipped(s: Seq<char>, max: nat) -> Seq<char> {
    if s.len() <= max {
        s
    } else {
        s.take(max as int) + "…"@
    }
}

/// A text of at most `max` characters, with an ellipsis where it is cut off.
pub fn clip(s: &str, max: usize) -> (r: String)
    ensures
        r@ == clipped(s@, max as nat),
{
    let v = text::chars_of(s);
    if v.len() <= max {
        s.to_string()
    } else {
        let mut out = text::take_chars(s, max).to_string();
        out.append("…");
        out
    }
}

/// The value of an argument in a summary. Long strings are cut off; arrays and
/// objects are written as JSON.
pub open spec fn value_summary(v: JsonModel, max: nat) -> Seq<char> {
    match v {
        JsonModel::Null => "null"@,
        JsonModel::Bool(b) => if b {
            "true"@
        } else {
            "false"@
        },
        JsonModel::UInt(n) => text::decimal(n as nat),
        JsonModel::Int(n) => text::signed_decimal(n as int),
        JsonModel::Float(s) => s,
        JsonModel::Str(s) => clipped(s, max),
        _ => json::json_print(v),
    }
}

/// A short text of a call's arguments: `name=value` for each.
pub open spec fn args_summary(args: JsonModel, max: nat) -> Seq<char> {
    match args {
        JsonModel::Object(m) => text::joined(
            m.map_values(|e: (Seq<char>, JsonModel)| e.0 + "="@ + value_summary(e.1, max)),
            " "@,
        ),
        _ => json::json_print(args),
    }
}

/// The value of an argument in a summary.
fn summarize_value(v: &Json, max_len: usize) -> (r: String)
    ensures
        r@ == value_summary(v@, max_len as nat),
{
    match v {
        Json::Null => "null".to_string(),
        Json::Bool(b) => if *b {
            "true".to_string()
        } else {
            "false".to_string()
        },
        Json::UInt(n) => text::show(*n),
        Json::Int(n) => text::show_signed(*n),
        Json::Float(s) => s.clone(),
        Json::Str(s) => clip(s, max_len),
        _ => v.to_text(),
    }
}

/// A short text of a call's arguments.
pub fn summarize_args(args: &Json, max_len: usize) -> (r: String)
    ensures
        r@ == args_summary(args@, max_len as nat),
{
    match args.as_object() {
        Some(members) => {
            let mut parts: Vec<String> = Vec::new();
            let mut i: usize = 0;
            while i < members.len()
                invariant
                    i <= members.len(),
                    parts@.len() == i,
                    forall|k: int|
                        0 <= k < i ==> (#[trigger] parts@[k])@ == members@[k].0@ + "="@
                            + value_summary(members@[k].1@, max_len as nat),
                decreases members.len() - i,
            {
                let mut part = members[i].0.clone();
                part.append("=");
                part.append(&summarize_value(&members[i].1, max_len));
                parts.push(part);
                i = i + 1;
            }
            proof {
                let m = Json::members(members@);
                assert(text::views(parts@) =~= m.map_values(
                    |e: (Seq<char>, JsonModel)|
                        e.0 + "="@ + value_summary(e.1, max_len as nat),
                ));
            }
            text::join(&parts, " ")
        },
        None => args.to_text(),
    }
}

/// The schema of one parameter.
pub open spec fn parameter_schema(kind: Seq<char>, description: Seq<char>) -> JsonModel {
    JsonModel::Object(
        seq![
            ("type"@, JsonModel::Str(kind)),
            ("description"@, JsonModel::Str(description)),
        ],
    )
}

/// The schema of an object with the given parameters (name, kind and
/// description) and the names of those that are required.
pub open spec fn schema_of(
    parameters: Seq<(&'static str, &'static str, &'static str)>,
    required: Seq<&'static str>,
) -> JsonModel {
    JsonModel::Object(
        seq![
            ("type"@, JsonModel::Str("object"@)),
            (
                "properties"@,
                JsonModel::Object(
                    parameters.map_values(
                        |p: (&'static str, &'static str, &'static str)|
                            (p.0@, parameter_schema(p.1@, p.2@)),
                    ),
                ),
            ),
            (
                "required"@,
                JsonModel::Array(required.map_values(|n: &'static str| JsonModel::Str(n@))),
            ),
        ],
    )
}

/// The schema of an object with the given parameters, none of which is
/// required.
pub open spec fn open_schema_of(
    parameters: Seq<(&'static str, &'static str, &'static str)>,
) -> JsonModel {
    match schema_of(parameters, Seq::empty()) {
        JsonModel::Object(m) => JsonModel::Object(m.take(2)),
        other => other,
    }
}

/// The schema of one parameter.
fn describe(kind: &str, description: &str) -> (r: Json)
    ensures
        r@ == parameter_schema(kind@, description@),
{
    let mut v: Vec<(String, Json)> = Vec::new();
    v.push(("type".to_string(), Json::string(kind)));
    v.push(("description".to_string(), Json::string(description)));
    proof {
        assert(Json::members(v@) =~= parameter_schema(kind@, description@)->Object_0);
    }
    Json::object(v)
}

/// The schemas of parameters, by name.
fn properties(parameters: &[(&'static str, &'static str, &'static str)]) -> (r: Json)
    ensures
        r@ == JsonModel::Object(
            parameters@.map_values(
                |p: (&'static str, &'static str, &'static str)|
                    (p.0@, parameter_schema(p.1@, p.2@)),
            ),
        ),
{
    let mut props: Vec<(String, Json)> = Vec::new();
    let mut i: usize = 0;
    while i < parameters.len()
        invariant
            i <= parameters.len(),
            props@.len() == i,
            forall|k: int|
                0 <= k < i ==> (#[trigger] props@[k]).0@ == parameters@[k].0@ && props@[k].1@
                    == parameter_schema(parameters@[k].1@, parameters@[k].2@),
        decreases parameters.len() - i,
    {
        props.push((parameters[i].0.to_string(), describe(parameters[i].1, parameters[i].2)));
        i = i + 1;
    }
    proof {
        assert(Json::members(props@) =~= parameters@.map_values(
            |p: (&'static str, &'static str, &'static str)|
                (p.0@, parameter_schema(p.1@, p.2@)),
        ));
    }
    Json::object(props)
}

/// The schema of an object with the given parameters.
pub fn object_schema(
    parameters: &[(&'static str, &'static str, &'static str)],
    required: &[&'static str],
) -> (r: Json)
    ensures
        r@ == schema_of(parameters@, required@),
{
    let mut names: Vec<Json> = Vec::new();
    let mut j: usize = 0;
    while j < required.len()
        invariant
            j <= required.len(),
            names@.len() == j,
            forall|k: int| 0 <= k < j ==> (#[trigger] names@[k])@ == JsonModel::Str(required@[k]@),
        decreases required.len() - j,
    {
        names.push(Json::string(required[j]));
        j = j + 1;
    }
    proof {
        assert(Json::items(names@) =~= required@.map_values(
            |n: &'static str| JsonModel::Str(n@),
        ));
    }
    let mut v: Vec<(String, Json)> = Vec::new();
    v.push(("type".to_string(), Json::string("object")));
    v.push(("properties".to_string(), properties(parameters)));
    v.push(("required".to_string(), Json::array(names)));
    proof {
        assert(Json::members(v@) =~= schema_of(parameters@, required@)->Object_0);
    }
    Json::object(v)
}

/// The schema of an object with the given parameters, none of which is
/// required.
pub fn open_schema(parameters: &[(&'static str, &'static str, &'static str)]) -> (r: Json)
    ensures
        r@ == open_schema_of(parameters@),
{
    let mut v: Vec<(String, Json)> = Vec::new();
    v.push(("type".to_string(), Json::string("object")));
    v.push(("properties".to_string(), properties(parameters)));
    proof {
        assert(Json::members(v@) =~= open_schema_of(parameters@)->Object_0);
    }
    Json::object(v)
}

/// A shortened result is the beginning of the result, whole where it fits.
pub proof fn law_shortened_begins_alike(s: Seq<char>, tool: Seq<char>, max: nat)
    ensures
        text::first_chars(s, max).is_prefix_of(shortened(s, tool, max)),
        s.len() <= max ==> shortened(s, tool, max) == s,
        s.len() > max ==> text::contains(shortened(s, tool, max), hint_for(tool)),
{
    if s.len() > max {
        let r = shortened(s, tool, max);
        let h = hint_for(tool);
        assert(text::occurs_at(r, h, r.len() - h.len())) by {
            assert(r.subrange(r.len() - h.len(), r.len() as int) =~= h);
        }
    }
}

} // verus!
