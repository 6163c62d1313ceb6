//! The `write_file` tool: writes a file, with the directories above it.
use vstd::prelude::*;

use crate::json::Json;
use crate::text;
use crate::tools::{SpecModel, Tool, ToolRegistry};
use crate::tools;
use crate::tools::util;

verus! {

/// The parameters: name, kind and description.
pub const PARAMETERS: [(&'static str, &'static str, &'static str); 2] = [
    ("path", "string", "쓸 파일 경로 (프로젝트 루트 기준 상대경로)"),
    ("content", "string", "파일 내용 (빈 문자열도 명시적 생성으로 취급)"),
];

/// The parameters that must be given.
pub const REQUIRED: [&'static str; 2] = ["path", "content"];

/// What the model reads about the tool.
pub const DESCRIPTION: &'static str = "파일 작성 (부모 디렉터리 자동 생성, 빈 content도 생성 처리)";

/// The schema of the tool's parameters.
pub fn schema() -> (r: Json)
    ensures
        r@ == util::schema_of(PARAMETERS@, REQUIRED@),
{
    util::object_schema(&PARAMETERS, &REQUIRED)
}

/// Registers the tool.
pub fn register(reg: &mut ToolRegistry<Tool>)
    requires
        old(reg).wf(),
    ensures
        final(reg).wf(),
        final(reg).vision == old(reg).vision,
        final(reg).model() == old(reg).model().insert(
            "write_file"@,
            (SpecModel {
                def: tools::definition_of(
                    "write_file"@,
                    DESCRIPTION@,
                    util::schema_of(PARAMETERS@, REQUIRED@),
                ),
                handler: Tool::WriteFile,
            }),
        ),
{
    reg.register("write_file", DESCRIPTION, schema(), Tool::WriteFile);
}

/// A file to write.
pub struct WriteCall {
    pub path: String,
    pub content: String,
}

/// Reads a call's arguments. The path must not be blank; content that is not
/// given is empty.
pub fn request(args: &Json) -> (r: Result<WriteCall, String>)
    ensures
        match r {
            Ok(call) => {
                &&& util::filled_text(args@, "path"@) == Some(call.path@)
                &&& call.content@ == text::or_empty(util::text_of(args@, "content"@))
            },
            Err(e) => {
                &&& util::filled_text(args@, "path"@) is None
                &&& e@ == "write_file: path 인자가 필요합니다"@
            },
        },
{
    match util::filled_arg(args, "path") {
        Some(path) => {
            let content = util::str_arg(args, "content");
            Ok(WriteCall { path, content: text::unwrap_or_empty(&content) })
        },
        None => Err("write_file: path 인자가 필요합니다".to_string()),
    }
}

/// The error of a directory that could not be made, by its cause.
pub fn directory_error(cause: &str) -> (r: String)
    ensures
        r@ == "write_file: 디렉터리 생성 실패: "@ + cause@,
{
    let mut out = "write_file: 디렉터리 생성 실패: ".to_string();
    out.append(cause);
    out
}

/// The error of a file that could not be written, by its cause.
pub fn write_error(cause: &str) -> (r: String)
    ensures
        r@ == "write_file: 쓰기 실패: "@ + cause@,
{
    let mut out = "write_file: 쓰기 실패: ".to_string();
    out.append(cause);
    out
}

/// The result of a call whose file was written: its path and the number of its
/// characters.
pub fn done(call: &WriteCall) -> (r: String)
    ensures
        r@ == "파일을 작성했습니다: "@ + call.path@ + " ("@ + text::decimal(call.content@.len())
            + "자)"@,
{
    let mut out = "파일을 작성했습니다: ".to_string();
    out.append(&call.path);
    out.append(" (");
    let v = text::chars_of(&call.content);
    text::push_decimal(&mut out, v.len() as u64);
    out.append("자)");
    out
}

} // verus!
