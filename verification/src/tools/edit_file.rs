//! The `edit_file` tool: replaces an exact text in a file.
//!
//! A text that occurs more than once is replaced only where the call asks for
//! all of its occurrences. Look-alike characters in the text are warned of.
use vstd::prelude::*;

use crate::json::Json;
use crate::text;
use crate::tools::{SpecModel, Tool, ToolRegistry};
use crate::tools;
use crate::tools::util;

verus! {

/// The parameters: name, kind and description.
pub const PARAMETERS: [(&'static str, &'static str, &'static str); 4] = [
    ("path", "string", "편집할 파일 경로"),
    ("find", "string", "정확히 치환할 문자열"),
    ("replace", "string", "교체할 문자열"),
    ("replace_all", "boolean", "모든 발견 지점 교체 (기본 false)"),
];

/// The parameters that must be given.
pub const REQUIRED: [&'static str; 3] = ["path", "find", "replace"];

/// What the model reads about the tool.
pub const DESCRIPTION: &'static str =
    "정확 문자열 치환 편집 (다중 발견 시 오류, replace_all로 전체 치환, 유니코드 경고)";

/// The warning about look-alike characters.
pub const WARNING: &'static str =
    "경고: find 문자열에 유니코드 혼동 문자(스마트 따옴표·대시·줄바꿈 등)가 있습니다. 정확히 일치하지 않으면 유니코드 정규화 버전을 확인하세요.";

/// The schema of the tool's parameters.
pub fn schema() -> (r: Json)
    ensures
        r@ == util::schema_of(PARAMETERS@, REQUIRED@),
{
    util::object_schema(&PARAMETERS, &REQUIRED)
}

/// Registers the tool.
pub fn register(reg: &mut ToolRegistry<Tool>)
    requires
        old(reg).wf(),
    ensures
        final(reg).wf(),
        final(reg).vision == old(reg).vision,
        final(reg).model() == old(reg).model().insert(
            "edit_file"@,
            (SpecModel {
                def: tools::definition_of(
                    "edit_file"@,
                    DESCRIPTION@,
                    util::schema_of(PARAMETERS@, REQUIRED@),
                ),
                handler: Tool::EditFile,
            }),
        ),
{
    reg.register("edit_file", DESCRIPTION, schema(), Tool::EditFile);
}

/// Whether a character is easily taken for another one: curly quotes, long
/// dashes, the ellipsis, the middle dot, and unusual spaces and line ends.
pub open spec fn look_alike(c: char) -> bool {
    ||| c == '‘'
    ||| c == '’'
    ||| c == '“'
    ||| c == '”'
    ||| c == '–'
    ||| c == '—'
    ||| c == '…'
    ||| c == '·'
    ||| c == '\u{00A0}'
    ||| c == '\u{2028}'
    ||| c == '\u{2029}'
}

/// Whether a text holds a look-alike character.
pub open spec fn has_look_alike(s: Seq<char>) -> bool {
    exists|i: int| 0 <= i < s.len() && look_alike(#[trigger] s[i])
}

/// The warning about look-alike characters, where the text holds one.
pub fn unicode_warning(find: &str) -> (r: Option<String>)
    ensures
        r is Some == has_look_alike(find@),
        r matches Some(w) ==> w@ == WARNING@,
{
    let v = text::chars_of(find);
    let mut i: usize = 0;
    while i < v.len()
        invariant
            i <= v.len(),
            v@ == find@,
            forall|k: int| 0 <= k < i ==> !look_alike(#[trigger] v@[k]),
        decreases v.len() - i,
    {
        let c = v[i];
        if c == '‘' || c == '’' || c == '“' || c == '”' || c == '–' || c == '—' || c == '…' || c
            == '·' || c == '\u{00A0}' || c == '\u{2028}' || c == '\u{2029}' {
            assert(look_alike(find@[i as int]));
            return Some(WARNING.to_string());
        }
        i = i + 1;
    }
    None
}

/// An edit to make.
pub struct EditCall {
    pub path: String,
    pub find: String,
    pub replace: String,
    pub replace_all: bool,
}

/// Reads a call's arguments. The path must not be blank and the text to find
/// must not be empty; a replacement that is not given is empty.
pub fn request(args: &Json) -> (r: Result<EditCall, String>)
    ensures
        match r {
            Ok(call) => {
                &&& util::filled_text(args@, "path"@) == Some(call.path@)
                &&& util::text_of(args@, "find"@) == Some(call.find@)
                &&& call.find@.len() > 0
                &&& call.replace@ == text::or_empty(util::text_of(args@, "replace"@))
                &&& call.replace_all == match util::flag_of(args@, "replace_all"@) {
                    Some(b) => b,
                    None => false,
                }
            },
            Err(e) => if util::filled_text(args@, "path"@) is None {
                e@ == "edit_file: path 인자가 필요합니다"@
            } else {
                &&& text::or_empty(util::text_of(args@, "find"@)).len() == 0
                &&& e@ == "edit_file: find 인자가 필요합니다"@
            },
        },
{
    let path = match util::filled_arg(args, "path") {
        Some(path) => path,
        None => {
            return Err("edit_file: path 인자가 필요합니다".to_string());
        },
    };
    let find = match util::str_arg(args, "find") {
        Some(find) => find,
        None => {
            return Err("edit_file: find 인자가 필요합니다".to_string());
        },
    };
    if find.as_str().is_empty() {
        return Err("edit_file: find 인자가 필요합니다".to_string());
    }
    let replace = util::str_arg(args, "replace");
    Ok(
        EditCall {
            path,
            find,
            replace: text::unwrap_or_empty(&replace),
            replace_all: util::bool_arg(args, "replace_all", false),
        },
    )
}

/// The error of a file that does not exist.
pub fn missing_error(path: &str) -> (r: String)
    ensures
        r@ == "edit_file: 파일을 찾을 수 없습니다: "@ + path@,
{
    let mut out = "edit_file: 파일을 찾을 수 없습니다: ".to_string();
    out.append(path);
    out
}

/// The error of a file that could not be read, by its cause.
pub fn read_error(cause: &str) -> (r: String)
    ensures
        r@ == "edit_file: 읽기 실패: "@ + cause@,
{
    let mut out = "edit_file: 읽기 실패: ".to_string();
    out.append(cause);
    out
}

/// The error of a file that could not be written, by its cause.
pub fn write_error(cause: &str) -> (r: String)
    ensures
        r@ == "edit_file: 쓰기 실패: "@ + cause@,
{
    let mut out = "edit_file: 쓰기 실패: ".to_string();
    out.append(cause);
    out
}

/// How often a text occurs in another, without overlaps; an empty text never
/// occurs.
pub open spec fn occurrences(content: Seq<char>, find: Seq<char>) -> nat {
    if find.len() == 0 {
        0
    } else {
        text::occurrences(content, find)
    }
}

/// How often a text occurs in another, without overlaps.
pub fn count_occurrences(haystack: &str, needle: &str) -> (r: usize)
    ensures
        r == occurrences(haystack@, needle@),
{
    if needle.is_empty() {
        return 0;
    }
    text::count(haystack, needle)
}

/// An edit that was made: the new content and the result told to the model.
pub struct Edited {
    pub content: String,
    pub message: String,
}

/// The content after an edit.
pub open spec fn edited(content: Seq<char>, find: Seq<char>, with: Seq<char>, all: bool) -> Seq<char> {
    if all {
        text::replaced(content, find, with)
    } else {
        text::replaced_first(content, find, with)
    }
}

/// The result of an edit: how often the text was found.
pub open spec fn edit_message(call: EditCall, count: nat) -> Seq<char> {
    "편집 완료: "@ + call.path@ + " — "@ + text::decimal(count) + "곳 치환 (replace_all="@
        + (if call.replace_all {
        "true"@
    } else {
        "false"@
    }) + ")"@ + (if has_look_alike(call.find@) {
        "\n"@ + WARNING@
    } else {
        ""@
    })
}

/// The error of a text that occurs more than once.
pub open spec fn ambiguous_message(find: Seq<char>, count: nat) -> Seq<char> {
    "edit_file: '"@ + find + "'이(가) "@ + text::decimal(count)
        + "곳에서 발견되었습니다. replace_all=true를 쓰거나 find를 더 구체적으로 지정하세요."@
}

/// The error of a text that does not occur.
pub open spec fn absent_message(find: Seq<char>) -> Seq<char> {
    "edit_file: '"@ + find + "'을(를) 찾을 수 없습니다."@ + (if has_look_alike(find) {
        "\n"@ + WARNING@
    } else {
        ""@
    })
}

/// Edits the content of a file.
pub fn edit(call: &EditCall, content: &str) -> (r: Result<Edited, String>)
    ensures
        ({
            let count = occurrences(content@, call.find@);
            match r {
                Ok(e) => {
                    &&& count == 1 || (count > 1 && call.replace_all)
                    &&& e.content@ == edited(content@, call.find@, call.replace@, call.replace_all)
                    &&& e.message@ == edit_message(*call, count)
                    &&& text::contains(content@, call.find@)
                    &&& !call.replace_all ==> exists|i: int| #[trigger]
                        text::occurs_at(content@, call.find@, i) && e.content@ == content@.take(i)
                            + call.replace@ + content@.skip(i + call.find@.len())
                },
                Err(e) => if count > 1 {
                    !call.replace_all && e@ == ambiguous_message(call.find@, count)
                } else {
                    count == 0 && e@ == absent_message(call.find@)
                },
            }
        }),
{
    let warning = unicode_warning(&call.find);
    let count = count_occurrences(content, &call.find);
    if count > 1 && !call.replace_all {
        let mut e = "edit_file: '".to_string();
        e.append(&call.find);
        e.append("'이(가) ");
        text::push_decimal(&mut e, count as u64);
        e.append("곳에서 발견되었습니다. replace_all=true를 쓰거나 find를 더 구체적으로 지정하세요.");
        return Err(e);
    }
    if count == 0 {
        let mut e = "edit_file: '".to_string();
        e.append(&call.find);
        e.append("'을(를) 찾을 수 없습니다.");
        let ghost before = e@;
        match warning {
            Some(w) => {
                e.append("\n");
                e.append(&w);
                proof {
                    assert(e@ =~= before + ("\n"@ + WARNING@));
                }
            },
            None => {
                e.append("");
            },
        }
        return Err(e);
    }
    proof {
        text::lemma_find_from(content@, call.find@, 0);
        let i = text::find(content@, call.find@)->0;
        assert(text::occurs_at(content@, call.find@, i));
    }
    let new_content = if call.replace_all {
        text::replace(content, &call.find, &call.replace)
    } else {
        text::replace_first(content, &call.find, &call.replace)
    };
    let mut message = "편집 완료: ".to_string();
    message.append(&call.path);
    message.append(" — ");
    text::push_decimal(&mut message, count as u64);
    message.append("곳 치환 (replace_all=");
    if call.replace_all {
        message.append("true");
    } else {
        message.append("false");
    }
    message.append(")");
    let ghost before = message@;
    match warning {
        Some(w) => {
            message.append("\n");
            message.append(&w);
            proof {
                assert(message@ =~= before + ("\n"@ + WARNING@));
            }
        },
        None => {
            message.append("");
        },
    }
    Ok(Edited { content: new_content, message })
}

/// Where a text occurs exactly once, replacing it and replacing all of its
/// occurrences are the same.
pub proof fn law_single_occurrence(content: Seq<char>, find: Seq<char>, with: Seq<char>)
    requires
        find.len() > 0,
        occurrences(content, find) == 1,
    ensures
        edited(content, find, with, true) == edited(content, find, with, false),
{
    let i = text::find(content, find)->0;
    text::lemma_find_from(content, find, 0);
    let rest = content.skip(i + find.len());
    assert(text::occurrences(rest, find) == 0);
    lemma_absent_is_kept(rest, find, with);
    assert(edited(content, find, with, true) =~= edited(content, find, with, false));
}

/// A text without the one to find stays as it is.
proof fn lemma_absent_is_kept(s: Seq<char>, find: Seq<char>, with: Seq<char>)
    requires
        find.len() > 0,
        text::occurrences(s, find) == 0,
    ensures
        text::replaced(s, find, with) == s,
{
}

/// Replacing a text by itself changes nothing.
pub proof fn law_replacing_by_itself(content: Seq<char>, find: Seq<char>, all: bool)
    requires
        find.len() > 0,
    ensures
        edited(content, find, find, all) == content,
    decreases content.len(),
{
    match text::find(content, find) {
        Some(i) => {
            text::lemma_find_from(content, find, 0);
            let rest = content.skip(i + find.len());
            assert(content.subrange(i, i + find.len()) =~= find);
            assert(content.take(i) + find + rest =~= content);
            if all {
                law_replacing_by_itself(rest, find, all);
            }
        },
        None => {},
    }
}

/// Where a text first occurs between two others, it is found there.
proof fn lemma_found_between(a: Seq<char>, find: Seq<char>, b: Seq<char>)
    requires
        find.len() > 0,
        forall|j: int| 0 <= j < a.len() ==> !text::occurs_at(a + find + b, find, j),
    ensures
        text::find(a + find + b, find) == Some(a.len() as int),
        (a + find + b).take(a.len() as int) == a,
        (a + find + b).skip((a.len() + find.len()) as int) == b,
{
    let s = a + find + b;
    let n = a.len() as int;
    assert(s.subrange(n, n + find.len()) =~= find);
    assert(text::occurs_at(s, find, n));
    text::lemma_find_from(s, find, 0);
    assert(s.take(n) =~= a);
    assert(s.skip(n + find.len()) =~= b);
}

/// An edit puts the replacement, whatever it is and also where it is empty, in
/// the place of the text that was found, and touches nothing else. An edit of
/// all occurrences goes on in the same way behind it.
pub proof fn law_replacement_takes_the_place(
    a: Seq<char>,
    find: Seq<char>,
    b: Seq<char>,
    with: Seq<char>,
)
    requires
        find.len() > 0,
        forall|j: int| 0 <= j < a.len() ==> !text::occurs_at(a + find + b, find, j),
    ensures
        edited(a + find + b, find, with, false) == a + with + b,
        edited(a + find + b, find, with, true) == a + with + edited(b, find, with, true),
        occurrences(a + find + b, find) == 1 + occurrences(b, find),
{
    lemma_found_between(a, find, b);
}

/// A text that does not hold what is to be found has no occurrence of it, and an
/// edit would leave it as it is.
pub proof fn law_nothing_found_nothing_changed(
    content: Seq<char>,
    find: Seq<char>,
    with: Seq<char>,
    all: bool,
)
    requires
        find.len() > 0,
        forall|j: int| !text::occurs_at(content, find, j),
    ensures
        edited(content, find, with, all) == content,
        occurrences(content, find) == 0,
{
    text::lemma_find_from(content, find, 0);
}

/// Every place that is replaced changes the length by the same: the result is
/// as long as the content, with the replacement counted in for each occurrence
/// and what was found counted out.
pub proof fn law_length_of_an_edit(content: Seq<char>, find: Seq<char>, with: Seq<char>)
    requires
        find.len() > 0,
    ensures
        edited(content, find, with, true).len() == content.len() + occurrences(content, find) * (
        with.len() - find.len()),
        occurrences(content, find) >= 1 ==> edited(content, find, with, false).len()
            == content.len() + with.len() - find.len(),
    decreases content.len(),
{
    text::lemma_find_from(content, find, 0);
    match text::find(content, find) {
        Some(i) => {
            let rest = content.skip(i + find.len());
            law_length_of_an_edit(rest, find, with);
            let n = occurrences(rest, find) as int;
            let d = with.len() - find.len();
            assert((n + 1) * d == n * d + d) by (nonlinear_arith);
        },
        None => {
            let d = with.len() - find.len();
            assert(0 * d == 0) by (nonlinear_arith);
        },
    }
}

/// Where one occurrence is counted there is one place: no two occurrences lie
/// apart from each other.
pub proof fn law_one_place_is_meant(content: Seq<char>, find: Seq<char>, i: int, j: int)
    requires
        find.len() > 0,
        occurrences(content, find) == 1,
        text::occurs_at(content, find, i),
        text::occurs_at(content, find, j),
    ensures
        -(find.len() as int) < i - j < find.len(),
{
    text::lemma_find_from(content, find, 0);
    let k = text::find(content, find)->0;
    let rest = content.skip(k + find.len());
    assert(occurrences(rest, find) == 0);
    text::lemma_find_from(rest, find, 0);
    let m = k + find.len();
    if i >= m {
        assert(rest.subrange(i - m, i - m + find.len()) =~= content.subrange(i, i + find.len()));
        assert(text::occurs_at(rest, find, i - m));
    }
    if j >= m {
        assert(rest.subrange(j - m, j - m + find.len()) =~= content.subrange(j, j + find.len()));
        assert(text::occurs_at(rest, find, j - m));
    }
}

} // verus!
