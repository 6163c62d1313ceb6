//! The `grep` tool: searches the lines of files for a regular expression.
//!
//! Hidden files and directories are left out. At most 200 lines are listed,
//! with a hint to narrow the search.
use vstd::prelude::*;

use crate::json::Json;
use crate::text;
use crate::tools::{SpecModel, Tool, ToolRegistry};
use crate::tools;
use crate::tools::util;

use regex::Regex;

verus! {

/// The parameters: name, kind and description.
pub const PARAMETERS: [(&'static str, &'static str, &'static str); 3] = [
    ("pattern", "string", "검색할 정규식 패턴"),
    ("glob", "string", "파일 필터 glob (선택, 예: **/*.rs)"),
    ("path", "string", "검색 시작 경로 (선택, 기본 프로젝트 루트)"),
];

/// The parameters that must be given.
pub const REQUIRED: [&'static str; 1] = ["pattern"];

/// What the model reads about the tool.
pub const DESCRIPTION: &'static str =
    "정규식 검색 (자체 구현 walkdir+regex, .git 무시, 결과 상한 + 힌트)";

/// The schema of the tool's parameters.
pub fn schema() -> (r: Json)
    ensures
        r@ == util::schema_of(PARAMETERS@, REQUIRED@),
{
    util::object_schema(&PARAMETERS, &REQUIRED)
}

/// Registers the tool.
pub fn register(reg: &mut ToolRegistry<Tool>)
    requires
        old(reg).wf(),
    ensures
        final(reg).wf(),
        final(reg).vision == old(reg).vision,
        final(reg).model() == old(reg).model().insert(
            "grep"@,
            (SpecModel {
                def: tools::definition_of(
                    "grep"@,
                    DESCRIPTION@,
                    util::schema_of(PARAMETERS@, REQUIRED@),
                ),
                handler: Tool::Grep,
            }),
        ),
{
    reg.register("grep", DESCRIPTION, schema(), Tool::Grep);
}

/// The largest number of lines listed.
pub const MAX_RESULTS: usize = 200;

/// A search to make.
pub struct GrepCall {
    pub pattern: String,
    pub glob: Option<String>,
    pub path: Option<String>,
}

/// Reads a call's arguments. The pattern must not be blank.
pub fn request(args: &Json) -> (r: Result<GrepCall, String>)
    ensures
        match r {
            Ok(call) => {
                &&& util::filled_text(args@, "pattern"@) == Some(call.pattern@)
                &&& text::opt_view(call.glob) == util::text_of(args@, "glob"@)
                &&& text::opt_view(call.path) == util::text_of(args@, "path"@)
            },
            Err(e) => {
                &&& util::filled_text(args@, "pattern"@) is None
                &&& e@ == "grep: pattern 인자가 필요합니다"@
            },
        },
{
    match util::filled_arg(args, "pattern") {
        Some(pattern) => Ok(
            GrepCall {
                pattern,
                glob: util::str_arg(args, "glob"),
                path: util::str_arg(args, "path"),
            },
        ),
        None => Err("grep: pattern 인자가 필요합니다".to_string()),
    }
}

/// The error of a place to search that is not there, by how it is shown.
pub fn missing_error(shown: &str) -> (r: String)
    ensures
        r@ == "grep: 경로를 찾을 수 없습니다: "@ + shown@,
{
    let mut out = "grep: 경로를 찾을 수 없습니다: ".to_string();
    out.append(shown);
    out
}

/// Whether a file or directory is left out, by its name and how far below the
/// start of the search it lies. The start itself may be hidden.
pub fn is_hidden(name: &str, depth: usize) -> (r: bool)
    ensures
        r == ("."@.is_prefix_of(name@) && depth > 0),
{
    text::starts_with(name, ".") && depth > 0
}

/// What is wrong with a regular expression, in the words of `regex`; `None`
/// where nothing is.
pub uninterp spec fn regex_problem(pattern: Seq<char>) -> Option<Seq<char>>;

/// Whether a regular expression matches somewhere in a text.
pub uninterp spec fn regex_matches(pattern: Seq<char>, s: Seq<char>) -> bool;

/// `regex::Regex::new` and, where it succeeds, `Regex::is_match` on each line:
/// what is wrong with the pattern depends on the pattern alone, and whether a
/// line matches depends on the pattern and the line alone.
#[verifier::external_body]
fn match_lines(pattern: &str, lines: &[String]) -> (r: Result<Vec<bool>, String>)
    ensures
        match r {
            Ok(v) => {
                &&& regex_problem(pattern@) is None
                &&& v@ == lines@.map_values(|l: String| regex_matches(pattern@, l@))
            },
            Err(e) => regex_problem(pattern@) == Some(e@),
        },
{
    let re = Regex::new(pattern).map_err(|e| e.to_string())?;
    Ok(lines.iter().map(|line| re.is_match(line)).collect())
}

/// Checks a regular expression.
pub fn check_pattern(pattern: &str) -> (r: Result<(), String>)
    ensures
        match r {
            Ok(_) => regex_problem(pattern@) is None,
            Err(e) => regex_problem(pattern@) is Some && e@ == "grep: 정규식 파싱 실패: "@
                + regex_problem(pattern@)->0,
        },
{
    let none: Vec<String> = Vec::new();
    match match_lines(pattern, &none) {
        Ok(_) => Ok(()),
        Err(e) => {
            let mut out = "grep: 정규식 파싱 실패: ".to_string();
            out.append(&e);
            Err(out)
        },
    }
}

/// A line that was found: its file, its number and its text.
pub open spec fn hit(path: Seq<char>, i: int, line: Seq<char>) -> Seq<char> {
    path + ":"@ + text::decimal((i + 1) as nat) + ":"@ + line
}

/// The lines found after the first `n` lines of a file, up to the limit.
pub open spec fn hits_after(
    found: Seq<Seq<char>>,
    path: Seq<char>,
    lines: Seq<Seq<char>>,
    matched: Seq<bool>,
    n: nat,
) -> Seq<Seq<char>>
    decreases n,
{
    if n == 0 {
        found
    } else {
        let before = hits_after(found, path, lines, matched, (n - 1) as nat);
        if before.len() < MAX_RESULTS && matched[n - 1] {
            before.push(hit(path, n - 1, lines[n - 1]))
        } else {
            before
        }
    }
}

/// The lines found so far.
pub struct GrepResults {
    pub found: Vec<String>,
}

impl View for GrepResults {
    type V = Seq<Seq<char>>;

    open spec fn view(&self) -> Seq<Seq<char>> {
        text::views(self.found@)
    }
}

/// The answer of the tool: one line for each line found, with a hint where
/// there may be more.
pub open spec fn listing(found: Seq<Seq<char>>) -> Seq<char> {
    if found.len() == 0 {
        "(일치하는 결과가 없습니다)"@
    } else if found.len() >= MAX_RESULTS {
        text::joined(found, "\n"@) + "\n...[결과 상한 200개 도달] 힌트: 패턴·glob을 더 좁히세요"@
    } else {
        text::joined(found, "\n"@)
    }
}

impl GrepResults {
    /// Nothing found yet.
    pub fn new() -> (r: Self)
        ensures
            r@ == Seq::<Seq<char>>::empty(),
    {
        let r = GrepResults { found: Vec::new() };
        proof {
            assert(r@ =~= Seq::<Seq<char>>::empty());
        }
        r
    }

    /// Whether the search ends here.
    pub fn is_full(&self) -> (r: bool)
        ensures
            r == (self@.len() >= MAX_RESULTS),
    {
        self.found.len() >= MAX_RESULTS
    }

    /// Takes the lines of a file that matched.
    pub fn take(&mut self, path: &str, lines: &[String], matched: &[bool])
        requires
            lines@.len() == matched@.len(),
        ensures
            final(self)@ == hits_after(
                old(self)@,
                path@,
                text::views(lines@),
                matched@,
                lines@.len(),
            ),
    {
        let ghost start = self@;
        let ghost model = text::views(lines@);
        let mut i: usize = 0;
        while i < lines.len()
            invariant
                i <= lines.len(),
                lines@.len() == matched@.len(),
                model == text::views(lines@),
                self@ == hits_after(start, path@, model, matched@, i as nat),
            decreases lines.len() - i,
        {
            assert(model[i as int] == lines@[i as int]@);
            let ghost before = self@;
            if self.found.len() < MAX_RESULTS && matched[i] {
                let mut line = path.to_string();
                line.append(":");
                text::push_decimal(&mut line, i as u64 + 1);
                line.append(":");
                line.append(&lines[i]);
                self.found.push(line);
                proof {
                    assert(self@ =~= before.push(hit(path@, i as int, model[i as int])));
                }
            }
            i = i + 1;
        }
    }

    /// Searches a file, by its path and its content.
    pub fn search(&mut self, pattern: &str, path: &str, content: &str)
        ensures
            final(self)@ == if regex_problem(pattern@) is None {
                let lines = text::lines_of(content@);
                hits_after(
                    old(self)@,
                    path@,
                    lines,
                    lines.map_values(|l: Seq<char>| regex_matches(pattern@, l)),
                    lines.len(),
                )
            } else {
                old(self)@
            },
    {
        let lines = text::lines(content);
        match match_lines(pattern, &lines) {
            Ok(matched) => {
                proof {
                    assert(matched@ =~= text::lines_of(content@).map_values(
                        |l: Seq<char>| regex_matches(pattern@, l),
                    )) by {
                        assert forall|k: int| 0 <= k < lines@.len() implies lines@[k]@
                            == #[trigger] text::lines_of(content@)[k] by {
                            assert(text::views(lines@)[k] == lines@[k]@);
                        }
                    }
                }
                self.take(path, &lines, &matched);
            },
            Err(_) => {},
        }
    }

    /// The answer of the tool.
    pub fn finish(&self) -> (r: String)
        ensures
            r@ == listing(self@),
    {
        if self.found.len() == 0 {
            return "(일치하는 결과가 없습니다)".to_string();
        }
        let mut out = text::join(&self.found, "\n");
        if self.found.len() >= MAX_RESULTS {
            out.append("\n...[결과 상한 200개 도달] 힌트: 패턴·glob을 더 좁히세요");
        }
        out
    }
}

/// No more lines are found than the limit, and every line found in a file is
/// one that matched.
pub proof fn law_hits_matched(
    found: Seq<Seq<char>>,
    path: Seq<char>,
    lines: Seq<Seq<char>>,
    matched: Seq<bool>,
    n: nat,
)
    requires
        found.len() <= MAX_RESULTS,
        lines.len() == matched.len(),
        n <= lines.len(),
    ensures
        hits_after(found, path, lines, matched, n).len() <= MAX_RESULTS,
        found.is_prefix_of(hits_after(found, path, lines, matched, n)),
        forall|k: int|
            found.len() <= k < hits_after(found, path, lines, matched, n).len() ==> exists|i: int|
                0 <= i < n && #[trigger] matched[i] && #[trigger] hits_after(
                    found,
                    path,
                    lines,
                    matched,
                    n,
                )[k] == hit(path, i, lines[i]),
    decreases n,
{
    if n > 0 {
        let m = (n - 1) as nat;
        law_hits_matched(found, path, lines, matched, m);
        let all = hits_after(found, path, lines, matched, n);
        let before = hits_after(found, path, lines, matched, m);
        assert forall|k: int| found.len() <= k < all.len() implies exists|i: int|
            0 <= i < n && #[trigger] matched[i] && #[trigger] all[k] == hit(path, i, lines[i]) by {
            if k < before.len() {
                let i = choose|i: int|
                    0 <= i < m && #[trigger] matched[i] && before[k] == hit(path, i, lines[i]);
                assert(matched[i] && all[k] == hit(path, i, lines[i]));
            } else {
                assert(matched[n - 1] && all[k] == hit(path, n - 1, lines[n - 1]));
            }
        }
    }
}

} // verus!
