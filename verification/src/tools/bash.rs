//! The `bash` tool: runs a shell command in the project's root.
//!
//! No shell outlives its command. The output is cut off at 64 KB, between two
//! characters.
use vstd::prelude::*;

use crate::json::Json;
use crate::text;
use crate::tools::{SpecModel, Tool, ToolRegistry};
use crate::tools;
use crate::tools::util;

verus! {

/// The parameters: name, kind and description.
pub const PARAMETERS: [(&'static str, &'static str, &'static str); 2] = [
    ("command", "string", "실행할 셸 명령 (cwd는 프로젝트 루트 고정)"),
    ("timeout", "integer", "타임아웃(초), 기본 120"),
];

/// The parameters that must be given.
pub const REQUIRED: [&'static str; 1] = ["command"];

/// What the model reads about the tool.
pub const DESCRIPTION: &'static str = "셸 명령 실행 (cwd: 프로젝트 루트, 세션 없음, 출력 64KB 상한)";

/// The largest output, in bytes.
pub const MAX_OUTPUT_BYTES: usize = 65536;

/// The time a command may take, in seconds, where the call says nothing.
pub const DEFAULT_TIMEOUT_SECS: u64 = 120;

/// The schema of the tool's parameters.
pub fn schema() -> (r: Json)
    ensures
        r@ == util::schema_of(PARAMETERS@, REQUIRED@),
{
    util::object_schema(&PARAMETERS, &REQUIRED)
}

/// Registers the tool.
pub fn register(reg: &mut ToolRegistry<Tool>)
    requires
        old(reg).wf(),
    ensures
        final(reg).wf(),
        final(reg).vision == old(reg).vision,
        final(reg).model() == old(reg).model().insert(
            "bash"@,
            (SpecModel {
                def: tools::definition_of(
                    "bash"@,
                    DESCRIPTION@,
                    util::schema_of(PARAMETERS@, REQUIRED@),
                ),
                handler: Tool::Bash,
            }),
        ),
{
    reg.register("bash", DESCRIPTION, schema(), Tool::Bash);
}

/// A command to run.
pub struct BashCall {
    pub command: String,
    pub timeout: u64,
}

/// Reads a call's arguments. The command must not be blank.
pub fn request(args: &Json) -> (r: Result<BashCall, String>)
    ensures
        match r {
            Ok(call) => {
                &&& util::filled_text(args@, "command"@) == Some(call.command@)
                &&& call.timeout == match util::number_of(args@, "timeout"@) {
                    Some(n) => n,
                    None => DEFAULT_TIMEOUT_SECS,
                }
            },
            Err(e) => {
                &&& util::filled_text(args@, "command"@) is None
                &&& e@ == "bash: command 인자가 필요합니다"@
            },
        },
{
    match util::filled_arg(args, "command") {
        Some(command) => Ok(
            BashCall { command, timeout: util::int_arg(args, "timeout", DEFAULT_TIMEOUT_SECS) },
        ),
        None => Err("bash: command 인자가 필요합니다".to_string()),
    }
}

/// The error of a command that took too long.
pub fn timeout_error(call: &BashCall) -> (r: String)
    ensures
        r@ == "bash: 타임아웃 ("@ + text::decimal(call.timeout as nat)
            + "초). 명령이 너무 오래 걸립니다: "@ + call.command@,
{
    let mut out = "bash: 타임아웃 (".to_string();
    text::push_decimal(&mut out, call.timeout);
    out.append("초). 명령이 너무 오래 걸립니다: ");
    out.append(&call.command);
    out
}

/// The error of a command that could not be run, by its cause.
pub fn failure(cause: &str) -> (r: String)
    ensures
        r@ == "bash: 실행 실패: "@ + cause@,
{
    let mut out = "bash: 실행 실패: ".to_string();
    out.append(cause);
    out
}

/// What a command wrote: its output, its errors under a title, and its exit
/// code where it is not zero.
pub open spec fn written(stdout: Seq<char>, stderr: Seq<char>, code: Option<i32>) -> Seq<char> {
    stdout + (if stderr.len() == 0 {
        Seq::empty()
    } else {
        (if stdout.len() == 0 {
            Seq::empty()
        } else {
            "\n"@
        }) + "[stderr]\n"@ + stderr
    }) + match code {
        Some(c) => if c == 0 {
            Seq::empty()
        } else {
            "\n[exit code: "@ + text::signed_decimal(c as int) + "]"@
        },
        None => Seq::empty(),
    }
}

/// The whole text of a command that has ended.
pub open spec fn full_output(stdout: Seq<char>, stderr: Seq<char>, code: Option<i32>) -> Seq<char> {
    let body = written(stdout, stderr, code);
    if body.len() == 0 {
        "(명령이 출력을 반환하지 않았습니다)"@
    } else {
        body
    }
}

/// The result of a command that has ended, from what it wrote and its exit
/// code.
pub fn output_text(stdout: &str, stderr: &str, code: Option<i32>) -> (r: String)
    ensures
        r@ == util::shortened(
            full_output(stdout@, stderr@, code),
            "bash"@,
            text::within(full_output(stdout@, stderr@, code), MAX_OUTPUT_BYTES as nat).len(),
        ),
{
    let mut body = stdout.to_string();
    if !stderr.is_empty() {
        if !stdout.is_empty() {
            body.append("\n");
        }
        body.append("[stderr]\n");
        body.append(stderr);
        proof {
            let tail = (if stdout@.len() == 0 {
                Seq::empty()
            } else {
                "\n"@
            }) + "[stderr]\n"@ + stderr@;
            assert(body@ =~= stdout@ + tail);
        }
    } else {
        proof {
            assert(body@ =~= stdout@ + Seq::<char>::empty());
        }
    }
    let ghost before = body@;
    match code {
        Some(c) => {
            if c != 0 {
                body.append("\n[exit code: ");
                body.append(&text::show_signed(c as i64));
                body.append("]");
                proof {
                    assert(body@ =~= before + ("\n[exit code: "@ + text::signed_decimal(c as int)
                        + "]"@));
                }
            }
        },
        None => {},
    }
    proof {
        assert(body@ =~= written(stdout@, stderr@, code));
    }
    if body.as_str().is_empty() {
        body = "(명령이 출력을 반환하지 않았습니다)".to_string();
    }
    let n = text::chars_within(&body, MAX_OUTPUT_BYTES);
    util::truncate_tool_result(&body, "bash", n)
}

/// An output within the limit is never cut off, and what is kept of a longer
/// one stays within it.
pub proof fn law_output_limit(s: Seq<char>)
    ensures
        text::text_bytes(s) <= MAX_OUTPUT_BYTES ==> util::shortened(
            s,
            "bash"@,
            text::within(s, MAX_OUTPUT_BYTES as nat).len(),
        ) == s,
        text::text_bytes(text::within(s, MAX_OUTPUT_BYTES as nat)) <= MAX_OUTPUT_BYTES,
        text::within(s, MAX_OUTPUT_BYTES as nat).is_prefix_of(s),
{
    text::lemma_within(s, MAX_OUTPUT_BYTES as nat);
}

} // verus!
