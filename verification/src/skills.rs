//! Skills: texts that the model loads when it needs them.
//!
//! A skill is a Markdown text with a head that names and describes it. Skills
//! of the project come before those of the user, and both before the bundled
//! ones. The prompt holds only their names and descriptions.
use vstd::prelude::*;

use crate::paths;
use crate::table::Table;
use crate::table;
use crate::text;

verus! {

/// The name of the directories that hold skills.
pub const SKILLS_DIR_NAME: &'static str = "skills";

/// The name of the file of a skill that is a directory.
pub const SKILL_FILENAME: &'static str = "SKILL.md";

/// The skills that come with the program: name and text.
pub const BUNDLED: [(&'static str, &'static str); 2] = [
    (
        "korean-report",
        "---\nname: korean-report\ndescription: 한국어 보고 스타일\n---\n# 한국어 보고\n\n- 결론부터 한국어로 간결하게 보고한다.\n- 변경한 파일과 확인한 내용을 목록으로 적는다.\n- 남은 일과 위험은 따로 적는다.\n",
    ),
    (
        "commit-message",
        "---\nname: commit-message\ndescription: 커밋 메시지 규약\n---\n# 커밋 메시지\n\n- 제목은 한 줄, 본문은 한 줄 띄우고 쓴다.\n- 무엇을 왜 바꾸었는지 적는다.\n",
    ),
];

/// What can go wrong with a skill.
#[derive(Debug, Clone, PartialEq, Eq)]
pub enum SkillError {
    Io(String),
    NotFound { name: String },
    MissingFrontmatter(String),
    MissingField(String),
}

impl SkillError {
    /// The message of an error.
    pub open spec fn text(self) -> Seq<char> {
        match self {
            SkillError::Io(e) => "스킬 디렉터리를 읽는 데 실패했습니다: "@ + e@,
            SkillError::NotFound { name } => "스킬을 찾을 수 없습니다: "@ + name@,
            SkillError::MissingFrontmatter(e) => "스킬 파일에 frontmatter가 없습니다: "@ + e@,
            SkillError::MissingField(e) => "스킬 frontmatter에 name/description이 없습니다: "@ + e@,
        }
    }

    /// The message of the error.
    pub fn message(&self) -> (r: String)
        ensures
            r@ == self.text(),
    {
        match self {
            SkillError::Io(e) => "스킬 디렉터리를 읽는 데 실패했습니다: ".to_string().concat(e),
            SkillError::NotFound { name } => "스킬을 찾을 수 없습니다: ".to_string().concat(name),
            SkillError::MissingFrontmatter(e) => "스킬 파일에 frontmatter가 없습니다: ".to_string().concat(e),
            SkillError::MissingField(e) => "스킬 frontmatter에 name/description이 없습니다: ".to_string().concat(
                e,
            ),
        }
    }
}

/// A skill as the prompt lists it.
#[derive(Debug, Clone, PartialEq, Eq)]
pub struct SkillIndex {
    pub name: String,
    pub description: String,
}

/// The name and the description of a skill.
pub type SkillModel = (Seq<char>, Seq<char>);

impl View for SkillIndex {
    type V = SkillModel;

    open spec fn view(&self) -> SkillModel {
        (self.name@, self.description@)
    }
}

/// The views of a list of skills.
pub open spec fn skill_views(v: Seq<SkillIndex>) -> Seq<SkillModel> {
    v.map_values(|s: SkillIndex| s@)
}

/// The directory of the project's skills.
pub fn project_skills_dir(project_root: &str) -> (r: String)
    ensures
        r@ == paths::below(paths::below(project_root@, ".bulti"@), SKILLS_DIR_NAME@),
{
    paths::join(&paths::join(project_root, ".bulti"), SKILLS_DIR_NAME)
}

/// The directory of the user's skills.
pub fn global_skills_dir(global_dir: &str) -> (r: String)
    ensures
        r@ == paths::below(global_dir@, SKILLS_DIR_NAME@),
{
    paths::join(global_dir, SKILLS_DIR_NAME)
}

/// Where the text of an entry of a skill directory stands.
#[derive(Debug, Clone, Copy, PartialEq, Eq, Structural)]
pub enum EntryKind {
    /// In the entry itself, a Markdown file.
    File,
    /// In the skill file of the entry, a directory.
    Directory,
    /// The entry is no skill.
    Other,
}

/// What an entry of a skill directory is, by its name, by whether it is a file
/// or a directory, and by whether it holds a skill file.
pub fn entry_kind(file_name: &str, is_file: bool, is_dir: bool, has_skill_file: bool) -> (r:
    EntryKind)
    ensures
        r == if is_file && ".md"@.is_suffix_of(file_name@) {
            EntryKind::File
        } else if is_dir && has_skill_file {
            EntryKind::Directory
        } else {
            EntryKind::Other
        },
{
    if is_file && text::ends_with(file_name, ".md") {
        EntryKind::File
    } else if is_dir && has_skill_file {
        EntryKind::Directory
    } else {
        EntryKind::Other
    }
}

// ---------------------------------------------------------------------------
// The head of a skill
// ---------------------------------------------------------------------------

/// A skill's text without a byte order mark and leading white space.
pub open spec fn opened(body: Seq<char>) -> Seq<char> {
    text::trimmed_start(
        if body.len() > 0 && body[0] == '\u{feff}' {
            body.skip(1)
        } else {
            body
        },
    )
}

/// Whether a skill's text begins with a head.
pub open spec fn has_head(body: Seq<char>) -> bool {
    "---"@.is_prefix_of(opened(body))
}

/// Where the head of a skill ends, counted from behind its first three dashes.
pub open spec fn head_end(body: Seq<char>) -> Option<int> {
    text::find(opened(body).skip(3), "\n---"@)
}

/// The lines of a skill's head.
pub open spec fn head_lines(body: Seq<char>) -> Seq<Seq<char>> {
    text::lines_of(opened(body).skip(3).take(head_end(body)->0))
}

/// A value of the head without the white space and the quotes around it.
pub open spec fn bare_value(v: Seq<char>) -> Seq<char> {
    text::without_trailing(text::without_leading(text::trimmed(v), '"'), '"')
}

/// The value of a key of the head: that of the last line that begins with it.
pub open spec fn head_value(lines: Seq<Seq<char>>, key: Seq<char>) -> Option<Seq<char>>
    decreases lines.len(),
{
    if lines.len() == 0 {
        None
    } else {
        match text::after_prefix(text::trimmed(lines.last()), key) {
            Some(v) => Some(bare_value(v)),
            None => head_value(lines.drop_last(), key),
        }
    }
}

/// The name and the description in a skill's head, or what is missing.
pub open spec fn frontmatter(body: Seq<char>) -> Result<SkillModel, Seq<char>> {
    if !has_head(body) || head_end(body) is None {
        Err("frontmatter"@)
    } else {
        match (head_value(head_lines(body), "name:"@), head_value(
            head_lines(body),
            "description:"@,
        )) {
            (None, _) => Err("name"@),
            (_, None) => Err("description"@),
            (Some(n), Some(d)) => Ok((n, d)),
        }
    }
}

/// A value of the head without the white space and the quotes around it.
fn bare(v: &str) -> (r: String)
    ensures
        r@ == bare_value(v@),
{
    text::trim_trailing(text::trim_leading(text::trim(v), '"'), '"').to_string()
}

/// The value of a key of the head.
fn value_of(lines: &[String], key: &str) -> (r: Option<String>)
    ensures
        text::opt_view(r) == head_value(text::views(lines@), key@),
{
    let ghost model = text::views(lines@);
    let mut i: usize = lines.len();
    proof {
        assert(model.take(model.len() as int) =~= model);
    }
    while i > 0
        invariant
            i <= lines.len(),
            model == text::views(lines@),
            head_value(model.take(i as int), key@) == head_value(model, key@),
        decreases i,
    {
        proof {
            assert(model.take(i as int).last() == lines@[i - 1]@);
            assert(model.take(i as int).drop_last() =~= model.take(i - 1));
        }
        if let Some(v) = text::strip_prefix(text::trim(&lines[i - 1]), key) {
            return Some(bare(v));
        }
        i = i - 1;
    }
    None
}

/// Reads the name and the description from the head of a skill's text. The head
/// stands between two lines of three dashes at the start of the text.
pub fn parse_frontmatter(body: &str) -> (r: Result<(String, String), SkillError>)
    ensures
        match r {
            Ok((name, description)) => frontmatter(body@) == Ok::<SkillModel, Seq<char>>(
                (name@, description@),
            ),
            Err(SkillError::MissingFrontmatter(e)) => {
                &&& frontmatter(body@) == Err::<SkillModel, Seq<char>>("frontmatter"@)
                &&& e@ == if has_head(body@) {
                    "닫는 --- 를 찾을 수 없음"@
                } else {
                    "--- 로 시작해야 함"@
                }
            },
            Err(SkillError::MissingField(e)) => {
                &&& has_head(body@) && head_end(body@) is Some
                &&& frontmatter(body@) == Err::<SkillModel, Seq<char>>(e@)
            },
            Err(_) => false,
        },
{
    let v = text::chars_of(body);
    let start: usize = if v.len() > 0 && v[0] == '\u{feff}' {
        1
    } else {
        0
    };
    proof {
        assert(body@.skip(0) =~= body@);
    }
    let trimmed = text::trim_start(text::after(body, start));
    assert(trimmed@ == opened(body@));
    if !text::starts_with(trimmed, "---") {
        return Err(SkillError::MissingFrontmatter("--- 로 시작해야 함".to_string()));
    }
    proof {
        reveal_strlit("---");
        reveal_strlit("\n---");
    }
    let rest = text::after(trimmed, 3);
    let chars = text::chars_of(rest);
    let mark = text::chars_of("\n---");
    match text::search(&chars, &mark, 0) {
        Some(end) => {
            let block = text::slice(rest, 0, end);
            proof {
                assert(rest@.subrange(0, end as int) =~= rest@.take(end as int));
            }
            let lines = text::lines(block);
            let name = value_of(&lines, "name:");
            let description = value_of(&lines, "description:");
            match name {
                Some(n) => match description {
                    Some(d) => Ok((n, d)),
                    None => Err(SkillError::MissingField("description".to_string())),
                },
                None => Err(SkillError::MissingField("name".to_string())),
            }
        },
        None => Err(SkillError::MissingFrontmatter("닫는 --- 를 찾을 수 없음".to_string())),
    }
}

// ---------------------------------------------------------------------------
// Discovering and loading
// ---------------------------------------------------------------------------

/// The descriptions by name after a list of texts: the first text with a name
/// counts, and a text without a head is passed over.
pub open spec fn described(bodies: Seq<Seq<char>>) -> Map<Seq<char>, Seq<char>>
    decreases bodies.len(),
{
    if bodies.len() == 0 {
        Map::empty()
    } else {
        let before = described(bodies.drop_last());
        match frontmatter(bodies.last()) {
            Ok((name, description)) => if before.dom().contains(name) {
                before
            } else {
                before.insert(name, description)
            },
            Err(_) => before,
        }
    }
}

/// The texts of the bundled skills.
pub open spec fn bundled_bodies() -> Seq<Seq<char>> {
    BUNDLED@.map_values(|b: (&'static str, &'static str)| b.1@)
}

/// Adds a skill, where its text has a head and its name is new.
fn note(known: &mut Table<String>, body: &str, Ghost(bodies): Ghost<Seq<Seq<char>>>)
    requires
        old(known).wf(),
        old(known)@ == described(bodies),
    ensures
        final(known).wf(),
        final(known)@ == described(bodies.push(body@)),
{
    proof {
        assert(bodies.push(body@).drop_last() =~= bodies);
    }
    match parse_frontmatter(body) {
        Ok((name, description)) => {
            if !known.contains_key(&name) {
                known.insert(name, description);
            }
        },
        Err(_) => {},
    }
}

/// The skills that can be loaded, from the texts found in the project's
/// directory and in the user's, in this order, and the bundled ones. Of skills
/// with the same name the first is listed. The list is in the order of the
/// names.
pub fn discover(project: &[String], global: &[String]) -> (r: Vec<SkillIndex>)
    ensures
        table::ascending(skill_views(r@).map_values(|s: SkillModel| s.0)),
        ({
            let known = described(
                text::views(project@) + text::views(global@) + bundled_bodies(),
            );
            &&& forall|i: int|
                0 <= i < r@.len() ==> known.dom().contains((#[trigger] r@[i])@.0)
                    && known[r@[i]@.0] == r@[i]@.1
            &&& forall|name: Seq<char>|
                known.dom().contains(name) ==> exists|i: int|
                    0 <= i < r@.len() && (#[trigger] r@[i])@.0 == name
        }),
{
    let mut known: Table<String> = Table::new();
    let ghost mut seen: Seq<Seq<char>> = Seq::empty();
    let mut i: usize = 0;
    while i < project.len()
        invariant
            i <= project.len(),
            known.wf(),
            known@ == described(seen),
            seen =~= text::views(project@).take(i as int),
        decreases project.len() - i,
    {
        note(&mut known, &project[i], Ghost(seen));
        proof {
            seen = seen.push(project@[i as int]@);
        }
        i = i + 1;
    }
    let mut j: usize = 0;
    while j < global.len()
        invariant
            j <= global.len(),
            known.wf(),
            known@ == described(seen),
            seen =~= text::views(project@) + text::views(global@).take(j as int),
        decreases global.len() - j,
    {
        note(&mut known, &global[j], Ghost(seen));
        proof {
            seen = seen.push(global@[j as int]@);
        }
        j = j + 1;
    }
    let mut k: usize = 0;
    while k < 2
        invariant
            k <= 2,
            known.wf(),
            known@ == described(seen),
            seen =~= text::views(project@) + text::views(global@) + bundled_bodies().take(k as int),
        decreases 2 - k,
    {
        note(&mut known, BUNDLED[k].1, Ghost(seen));
        proof {
            seen = seen.push(BUNDLED@[k as int].1@);
        }
        k = k + 1;
    }
    proof {
        assert(seen =~= text::views(project@) + text::views(global@) + bundled_bodies());
    }
    let mut out: Vec<SkillIndex> = Vec::new();
    let mut n: usize = 0;
    while n < known.entries.len()
        invariant
            n <= known.entries.len(),
            out@.len() == n,
            forall|m: int|
                0 <= m < n ==> (#[trigger] out@[m])@ == (
                    known.entries@[m].0@,
                    known.entries@[m].1@,
                ),
        decreases known.entries.len() - n,
    {
        out.push(
            SkillIndex {
                name: known.entries[n].0.clone(),
                description: known.entries[n].1.clone(),
            },
        );
        n = n + 1;
    }
    proof {
        assert(skill_views(out@).map_values(|s: SkillModel| s.0) =~= known.names());
        assert forall|m: int| 0 <= m < out@.len() implies known@.dom().contains(
            (#[trigger] out@[m])@.0,
        ) && known@[out@[m]@.0] == out@[m]@.1 by {
            table::lemma_contents_at(known.entries@, m);
        }
        assert forall|name: Seq<char>| known@.dom().contains(name) implies exists|m: int|
            0 <= m < out@.len() && (#[trigger] out@[m])@.0 == name by {
            table::lemma_contents_dom(known.entries@, name);
            let m = choose|m: int|
                0 <= m < known.entries@.len() && (#[trigger] known.entries@[m]).0@ == name;
            assert(out@[m]@.0 == name);
        }
    }
    out
}

/// The paths at which the text of a skill may stand, below a skill directory:
/// a Markdown file of its name, or the skill file in a directory of its name.
pub fn candidates(name: &str) -> (r: (String, String))
    ensures
        r.0@ == name@ + ".md"@,
        r.1@ == paths::below(name@, SKILL_FILENAME@),
{
    (name.to_string().concat(".md"), paths::join(name, SKILL_FILENAME))
}

/// The bundled text of a skill.
pub open spec fn bundled_from(name: Seq<char>, i: int) -> Option<Seq<char>>
    decreases 2 - i,
{
    if i < 0 || i >= 2 {
        None
    } else if BUNDLED@[i].0@ == name {
        Some(BUNDLED@[i].1@)
    } else {
        bundled_from(name, i + 1)
    }
}

/// The text of the first file found.
pub open spec fn first_found(found: Seq<Option<String>>) -> Option<Seq<char>>
    decreases found.len(),
{
    if found.len() == 0 {
        None
    } else {
        match found[0] {
            Some(s) => Some(s@),
            None => first_found(found.skip(1)),
        }
    }
}

/// The text of a skill, from the texts found at its candidates in the project's
/// directory and then in the user's: the first of them, else the bundled one.
pub fn load(name: &str, found: &[Option<String>]) -> (r: Result<String, SkillError>)
    ensures
        match r {
            Ok(body) => match first_found(found@) {
                Some(s) => body@ == s,
                None => bundled_from(name@, 0) == Some(body@),
            },
            Err(SkillError::NotFound { name: n }) => {
                &&& first_found(found@) is None
                &&& bundled_from(name@, 0) is None
                &&& n@ == name@
            },
            Err(_) => false,
        },
{
    let mut i: usize = 0;
    proof {
        assert(found@.skip(0) =~= found@);
    }
    while i < found.len()
        invariant
            i <= found.len(),
            first_found(found@.skip(i as int)) == first_found(found@),
        decreases found.len() - i,
    {
        proof {
            assert(found@.skip(i as int).skip(1) =~= found@.skip(i + 1));
        }
        if let Some(s) = &found[i] {
            return Ok(s.clone());
        }
        i = i + 1;
    }
    let mut k: usize = 0;
    while k < 2
        invariant
            k <= 2,
            first_found(found@) is None,
            bundled_from(name@, k as int) == bundled_from(name@, 0),
        decreases 2 - k,
    {
        if text::str_eq(BUNDLED[k].0, name) {
            return Ok(BUNDLED[k].1.to_string());
        }
        k = k + 1;
    }
    Err(SkillError::NotFound { name: name.to_string() })
}

// ---------------------------------------------------------------------------
// Laws
// ---------------------------------------------------------------------------

/// Texts found later do not change what is known of a skill.
pub proof fn law_first_description_counts(
    bodies: Seq<Seq<char>>,
    later: Seq<Seq<char>>,
    name: Seq<char>,
)
    requires
        described(bodies).dom().contains(name),
    ensures
        described(bodies + later).dom().contains(name),
        described(bodies + later)[name] == described(bodies)[name],
    decreases later.len(),
{
    if later.len() == 0 {
        assert(bodies + later =~= bodies);
    } else {
        assert((bodies + later).drop_last() =~= bodies + later.drop_last());
        law_first_description_counts(bodies, later.drop_last(), name);
    }
}

/// A skill of the project is listed with the project's description, whatever
/// the user's directory and the program hold under the same name.
pub proof fn law_project_comes_first(
    project: Seq<Seq<char>>,
    global: Seq<Seq<char>>,
    name: Seq<char>,
)
    requires
        described(project).dom().contains(name),
    ensures
        described(project + global + bundled_bodies()).dom().contains(name),
        described(project + global + bundled_bodies())[name] == described(project)[name],
{
    law_first_description_counts(project, global, name);
    law_first_description_counts(project + global, bundled_bodies(), name);
}

} // verus!
