//! The `glob` tool: lists the files that match a pattern.
//!
//! What lies in a `.git` directory is left out. At most 200 files are listed,
//! with a hint to narrow the pattern.
use vstd::prelude::*;

use crate::json::Json;
use crate::text;
use crate::tools::{SpecModel, Tool, ToolRegistry};
use crate::tools;
use crate::tools::util;

verus! {

/// The parameters: name, kind and description.
pub const PARAMETERS: [(&'static str, &'static str, &'static str); 1] = [
    ("pattern", "string", "매칭할 glob 패턴 (예: **/*.rs)"),
];

/// The parameters that must be given.
pub const REQUIRED: [&'static str; 1] = ["pattern"];

/// What the model reads about the tool.
pub const DESCRIPTION: &'static str =
    "파일 패턴 검색 (.git 무시, 결과 상한 + 좁히기 힌트)";

/// The schema of the tool's parameters.
pub fn schema() -> (r: Json)
    ensures
        r@ == util::schema_of(PARAMETERS@, REQUIRED@),
{
    util::object_schema(&PARAMETERS, &REQUIRED)
}

/// Registers the tool.
pub fn register(reg: &mut ToolRegistry<Tool>)
    requires
        old(reg).wf(),
    ensures
        final(reg).wf(),
        final(reg).vision == old(reg).vision,
        final(reg).model() == old(reg).model().insert(
            "glob"@,
            (SpecModel {
                def: tools::definition_of(
                    "glob"@,
                    DESCRIPTION@,
                    util::schema_of(PARAMETERS@, REQUIRED@),
                ),
                handler: Tool::Glob,
            }),
        ),
{
    reg.register("glob", DESCRIPTION, schema(), Tool::Glob);
}

/// The largest number of files listed.
pub const MAX_RESULTS: usize = 200;

/// Reads a call's arguments: the pattern, which must not be blank.
pub fn request(args: &Json) -> (r: Result<String, String>)
    ensures
        match r {
            Ok(pattern) => util::filled_text(args@, "pattern"@) == Some(pattern@),
            Err(e) => {
                &&& util::filled_text(args@, "pattern"@) is None
                &&& e@ == "glob: pattern 인자가 필요합니다"@
            },
        },
{
    match util::filled_arg(args, "pattern") {
        Some(pattern) => Ok(pattern),
        None => Err("glob: pattern 인자가 필요합니다".to_string()),
    }
}

/// The error of a pattern that cannot be read, by its cause.
pub fn pattern_error(cause: &str) -> (r: String)
    ensures
        r@ == "glob: 패턴 파싱 실패: "@ + cause@,
{
    let mut out = "glob: 패턴 파싱 실패: ".to_string();
    out.append(cause);
    out
}

/// The error of a match that cannot be followed, by its cause.
pub fn match_error(cause: &str) -> (r: String)
    ensures
        r@ == "glob: 매칭 오류: "@ + cause@,
{
    let mut out = "glob: 매칭 오류: ".to_string();
    out.append(cause);
    out
}

/// Whether a path leads through a `.git` directory, by its components.
pub open spec fn in_git(components: Seq<Seq<char>>) -> bool {
    exists|i: int| 0 <= i < components.len() && #[trigger] components[i] == ".git"@
}

/// Whether a path leads through a `.git` directory, by its components.
pub fn is_in_git(components: &[String]) -> (r: bool)
    ensures
        r == in_git(text::views(components@)),
{
    let mut i: usize = 0;
    while i < components.len()
        invariant
            i <= components.len(),
            forall|k: int| 0 <= k < i ==> (#[trigger] text::views(components@)[k]) != ".git"@,
        decreases components.len() - i,
    {
        if text::str_eq(&components[i], ".git") {
            assert(text::views(components@)[i as int] == ".git"@);
            return true;
        }
        i = i + 1;
    }
    false
}

/// The files found so far.
pub struct GlobResults {
    pub matches: Vec<String>,
}

impl View for GlobResults {
    type V = Seq<Seq<char>>;

    open spec fn view(&self) -> Seq<Seq<char>> {
        text::views(self.matches@)
    }
}

/// The files found after one more match: it is taken where it does not lie in a
/// `.git` directory.
pub open spec fn found_after(
    found: Seq<Seq<char>>,
    components: Seq<Seq<char>>,
    path: Seq<char>,
) -> Seq<Seq<char>> {
    if in_git(components) {
        found
    } else {
        found.push(path)
    }
}

/// The answer of the tool: the files in order, one on each line, with a hint
/// where there may be more.
pub open spec fn listing(sorted: Seq<Seq<char>>) -> Seq<char> {
    if sorted.len() == 0 {
        "(매칭되는 파일이 없습니다)"@
    } else if sorted.len() >= MAX_RESULTS {
        text::joined(sorted, "\n"@)
            + "\n...[결과 상한 200개 도달] 힌트: 패턴을 더 구체적으로 좁히세요 (예: src/**/*.rs)"@
    } else {
        text::joined(sorted, "\n"@)
    }
}

impl GlobResults {
    /// Nothing found yet.
    pub fn new() -> (r: Self)
        ensures
            r@ == Seq::<Seq<char>>::empty(),
    {
        let r = GlobResults { matches: Vec::new() };
        proof {
            assert(r@ =~= Seq::<Seq<char>>::empty());
        }
        r
    }

    /// Whether the search ends here.
    pub fn is_full(&self) -> (r: bool)
        ensures
            r == (self@.len() >= MAX_RESULTS),
    {
        self.matches.len() >= MAX_RESULTS
    }

    /// Takes one more match, by the components of its path and its path from
    /// the project's root.
    pub fn offer(&mut self, components: &[String], path: String)
        ensures
            final(self)@ == found_after(old(self)@, text::views(components@), path@),
    {
        if !is_in_git(components) {
            self.matches.push(path);
            proof {
                assert(self@ =~= old(self)@.push(path@));
            }
        }
    }

    /// The answer of the tool.
    pub fn finish(self) -> (r: String)
        ensures
            exists|sorted: Seq<Seq<char>>|
                text::in_order(sorted) && sorted.to_multiset() == self@.to_multiset() && r@
                    == #[trigger] listing(sorted),
    {
        let sorted = text::sort(self.matches);
        let n = sorted.len();
        let r = if n == 0 {
            "(매칭되는 파일이 없습니다)".to_string()
        } else {
            let mut out = text::join(&sorted, "\n");
            if n >= MAX_RESULTS {
                out.append(
                    "\n...[결과 상한 200개 도달] 힌트: 패턴을 더 구체적으로 좁히세요 (예: src/**/*.rs)",
                );
            }
            out
        };
        proof {
            assert(r@ == listing(text::views(sorted@)));
        }
        r
    }
}

/// The files found after a list of matches, up to the limit.
pub open spec fn found_in(matches: Seq<(Seq<Seq<char>>, Seq<char>)>) -> Seq<Seq<char>>
    decreases matches.len(),
{
    if matches.len() == 0 {
        Seq::empty()
    } else {
        let before = found_in(matches.drop_last());
        if before.len() >= MAX_RESULTS {
            before
        } else {
            found_after(before, matches.last().0, matches.last().1)
        }
    }
}

/// No more files are found than the limit, and none that lies in a `.git`
/// directory.
pub proof fn law_found_files(matches: Seq<(Seq<Seq<char>>, Seq<char>)>)
    ensures
        found_in(matches).len() <= MAX_RESULTS,
        forall|k: int|
            0 <= k < found_in(matches).len() ==> exists|i: int|
                0 <= i < matches.len() && !in_git((#[trigger] matches[i]).0) && matches[i].1
                    == #[trigger] found_in(matches)[k],
    decreases matches.len(),
{
    if matches.len() > 0 {
        let shorter = matches.drop_last();
        law_found_files(shorter);
        let found = found_in(matches);
        let before = found_in(shorter);
        assert forall|k: int| 0 <= k < found.len() implies exists|i: int|
            0 <= i < matches.len() && !in_git((#[trigger] matches[i]).0) && matches[i].1
                == #[trigger] found[k] by {
            if k < before.len() {
                let i = choose|i: int|
                    0 <= i < shorter.len() && !in_git((#[trigger] shorter[i]).0) && shorter[i].1
                        == before[k];
                assert(matches[i] == shorter[i]);
            } else {
                assert(matches[matches.len() - 1] == matches.last());
            }
        }
    }
}

} // verus!
