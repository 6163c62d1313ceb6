//! The `read_file` tool: reads a file page by page.
//!
//! Lines carry their numbers, a page has at most 200 lines where the call says
//! nothing else, and the text of a page stays within a budget of characters. A
//! file that is read again without an offset goes on behind the last line
//! shown; once its end was reached, a fixed notice is the answer. On an
//! endpoint that takes images, an image file is handed over in base64.
use vstd::prelude::*;

use crate::json::Json;
use crate::table::Table;
use crate::text;
use crate::tools::{SpecModel, Tool, ToolRegistry};
use crate::tools;
use crate::tools::util;

use base64::Engine;

verus! {

/// The parameters: name, kind and description.
pub const PARAMETERS: [(&'static str, &'static str, &'static str); 3] = [
    ("path", "string", "읽을 파일 경로 (프로젝트 루트 기준 상대경로)"),
    ("offset", "integer", "시작 줄 번호 (1-based). 생략 시 auto-advance"),
    ("limit", "integer", "읽을 줄 수, 기본 200"),
];

/// The parameters that must be given.
pub const REQUIRED: [&'static str; 1] = ["path"];

/// What the model reads about the tool.
pub const DESCRIPTION: &'static str =
    "파일 읽기 (줄 번호 프리픽스, 200줄 페이징, offset으로 계속 읽기, 비전 시 이미지 반환)";

/// The number of lines of a page, where the call says nothing.
pub const DEFAULT_LIMIT: u64 = 200;

/// The characters that the lines of a page may take.
pub const OUTPUT_CHAR_LIMIT: usize = 6000;

/// The answer for a file whose end was reached.
pub const EXHAUSTED: &'static str =
    "(이미 파일 전체를 읽었습니다. 편집 후 재읽기는 offset을 명시하세요.)";

/// The schema of the tool's parameters.
pub fn schema() -> (r: Json)
    ensures
        r@ == util::schema_of(PARAMETERS@, REQUIRED@),
{
    util::object_schema(&PARAMETERS, &REQUIRED)
}

/// Registers the tool.
pub fn register(reg: &mut ToolRegistry<Tool>)
    requires
        old(reg).wf(),
    ensures
        final(reg).wf(),
        final(reg).vision == old(reg).vision,
        final(reg).model() == old(reg).model().insert(
            "read_file"@,
            (SpecModel {
                def: tools::definition_of(
                    "read_file"@,
                    DESCRIPTION@,
                    util::schema_of(PARAMETERS@, REQUIRED@),
                ),
                handler: Tool::ReadFile,
            }),
        ),
{
    reg.register("read_file", DESCRIPTION, schema(), Tool::ReadFile);
}

/// A file to read.
pub struct ReadCall {
    pub path: String,
    pub offset: Option<u64>,
    pub limit: u64,
}

/// Reads a call's arguments. The path must not be blank.
pub fn request(args: &Json) -> (r: Result<ReadCall, String>)
    ensures
        match r {
            Ok(call) => {
                &&& util::filled_text(args@, "path"@) == Some(call.path@)
                &&& call.offset == util::number_of(args@, "offset"@)
                &&& call.limit == match util::number_of(args@, "limit"@) {
                    Some(n) => n,
                    None => DEFAULT_LIMIT,
                }
            },
            Err(e) => {
                &&& util::filled_text(args@, "path"@) is None
                &&& e@ == "read_file: path 인자가 필요합니다"@
            },
        },
{
    match util::filled_arg(args, "path") {
        Some(path) => Ok(
            ReadCall {
                path,
                offset: util::number_arg(args, "offset"),
                limit: util::int_arg(args, "limit", DEFAULT_LIMIT),
            },
        ),
        None => Err("read_file: path 인자가 필요합니다".to_string()),
    }
}

/// The error of a file that does not exist.
pub fn missing_error(path: &str) -> (r: String)
    ensures
        r@ == "read_file: 파일을 찾을 수 없습니다: "@ + path@,
{
    let mut out = "read_file: 파일을 찾을 수 없습니다: ".to_string();
    out.append(path);
    out
}

/// The error of a path that is a directory.
pub fn directory_error(path: &str) -> (r: String)
    ensures
        r@ == "read_file: 디렉터리는 읽을 수 없습니다: "@ + path@,
{
    let mut out = "read_file: 디렉터리는 읽을 수 없습니다: ".to_string();
    out.append(path);
    out
}

/// The error of a file that could not be read, by its cause.
pub fn read_error(cause: &str) -> (r: String)
    ensures
        r@ == "read_file: 읽기 실패: "@ + cause@,
{
    let mut out = "read_file: 읽기 실패: ".to_string();
    out.append(cause);
    out
}

/// The error of an image that could not be read, by its cause.
pub fn image_error(cause: &str) -> (r: String)
    ensures
        r@ == "read_file: 이미지 읽기 실패: "@ + cause@,
{
    let mut out = "read_file: 이미지 읽기 실패: ".to_string();
    out.append(cause);
    out
}

// ---------------------------------------------------------------------------
// Images
// ---------------------------------------------------------------------------

/// Whether a file name extension is one of an image, in upper or lower case.
pub open spec fn image_extension(ext: Option<Seq<char>>) -> bool {
    match ext {
        Some(e) => {
            let lower = text::ascii_lower(e);
            lower == "png"@ || lower == "jpg"@ || lower == "jpeg"@ || lower == "gif"@ || lower
                == "webp"@
        },
        None => false,
    }
}

/// ASCII letters in lower case, everything else as it is.
fn lower_ascii(s: &str) -> (r: String)
    ensures
        r@ == text::ascii_lower(s@),
{
    let v = text::chars_of(s);
    let mut out: Vec<char> = Vec::new();
    let mut i: usize = 0;
    while i < v.len()
        invariant
            i <= v.len(),
            out@.len() == i,
            forall|k: int| 0 <= k < i ==> #[trigger] out@[k] == text::ascii_lower_char(v@[k]),
        decreases v.len() - i,
    {
        let c = v[i];
        if 'A' <= c && c <= 'Z' {
            let b: u8 = (c as u32 + 32) as u8;
            out.push(b as char);
        } else {
            out.push(c);
        }
        i = i + 1;
    }
    proof {
        assert(out@ =~= text::ascii_lower(s@));
    }
    text::string_of(&out)
}

/// Whether a file is an image, by the extension of its name.
pub fn is_image(ext: Option<&str>) -> (r: bool)
    ensures
        r == image_extension(
            match ext {
                Some(e) => Some(e@),
                None => None,
            },
        ),
{
    match ext {
        Some(e) => {
            let lower = lower_ascii(e);
            text::str_eq(&lower, "png") || text::str_eq(&lower, "jpg") || text::str_eq(
                &lower,
                "jpeg",
            ) || text::str_eq(&lower, "gif") || text::str_eq(&lower, "webp")
        },
        None => false,
    }
}

/// What a path leads to.
#[derive(Debug, Clone, Copy, PartialEq, Eq, Structural)]
pub enum Target {
    Nothing,
    Directory,
    File,
}

/// How a file is read.
#[derive(Debug, Clone, Copy, PartialEq, Eq, Structural)]
pub enum Reading {
    Image,
    Text,
}

/// How the file of a call is read: an image is shown to a model that sees, and
/// everything else is text. Only a file can be read.
pub fn reading(call: &ReadCall, target: Target, vision: bool, ext: Option<&str>) -> (r: Result<
    Reading,
    String,
>)
    ensures
        match target {
            Target::Nothing => r matches Err(e) && e@ == "read_file: 파일을 찾을 수 없습니다: "@ + call.path@,
            Target::Directory => r matches Err(e) && e@ == "read_file: 디렉터리는 읽을 수 없습니다: "@
                + call.path@,
            Target::File => r matches Ok(how) && how == (if vision && image_extension(
                match ext {
                    Some(e) => Some(e@),
                    None => None,
                },
            ) {
                Reading::Image
            } else {
                Reading::Text
            }),
        },
{
    match target {
        Target::Nothing => Err(missing_error(&call.path)),
        Target::Directory => Err(directory_error(&call.path)),
        Target::File => {
            if vision && is_image(ext) {
                Ok(Reading::Image)
            } else {
                Ok(Reading::Text)
            }
        },
    }
}

/// The base64 character of a number of six bits.
pub open spec fn base64_digit(n: int) -> char {
    if n < 26 {
        (65 + n) as char
    } else if n < 52 {
        (71 + n) as char
    } else if n < 62 {
        (n - 4) as char
    } else if n == 62 {
        '+'
    } else {
        '/'
    }
}

/// Bytes in base64 with the standard alphabet: four characters for three bytes,
/// the last group filled up with equals signs.
pub open spec fn base64_of(b: Seq<u8>) -> Seq<char>
    decreases b.len(),
{
    if b.len() == 0 {
        Seq::empty()
    } else if b.len() == 1 {
        seq![base64_digit(b[0] as int / 4), base64_digit(b[0] as int % 4 * 16), '=', '=']
    } else if b.len() == 2 {
        seq![
            base64_digit(b[0] as int / 4),
            base64_digit(b[0] as int % 4 * 16 + b[1] as int / 16),
            base64_digit(b[1] as int % 16 * 4),
            '=',
        ]
    } else {
        seq![
            base64_digit(b[0] as int / 4),
            base64_digit(b[0] as int % 4 * 16 + b[1] as int / 16),
            base64_digit(b[1] as int % 16 * 4 + b[2] as int / 64),
            base64_digit(b[2] as int % 64),
        ] + base64_of(b.skip(3))
    }
}

/// `base64::Engine::encode` of the engine `general_purpose::STANDARD`: base64
/// with the standard alphabet and padding.
#[verifier::external_body]
fn encode_base64(bytes: &[u8]) -> (r: String)
    ensures
        r@ == base64_of(bytes@),
{
    base64::engine::general_purpose::STANDARD.encode(bytes)
}

/// An image as a part of the conversation, from the extension of its file's
/// name and its bytes.
pub fn image_content(ext: Option<&str>, bytes: &[u8]) -> (r: String)
    ensures
        r@ == "![image](data:image/"@ + (match ext {
            Some(e) => e@,
            None => "png"@,
        }) + ";base64,"@ + base64_of(bytes@) + ")"@,
{
    let mut out = "![image](data:image/".to_string();
    match ext {
        Some(e) => {
            out.append(e);
        },
        None => {
            out.append("png");
        },
    }
    out.append(";base64,");
    out.append(&encode_base64(bytes));
    out.append(")");
    out
}

// ---------------------------------------------------------------------------
// Pages
// ---------------------------------------------------------------------------

/// How far a file was read: the line to go on with, and the number of its lines
/// at that time.
#[derive(Debug, Clone, Copy, PartialEq, Eq)]
pub struct Mark {
    pub next: u64,
    pub total: u64,
}

impl View for Mark {
    type V = Mark;

    open spec fn view(&self) -> Mark {
        *self
    }
}

/// How far each file was read.
pub struct ReadState {
    pub marks: Table<Mark>,
}

impl View for ReadState {
    type V = Map<Seq<char>, Mark>;

    open spec fn view(&self) -> Map<Seq<char>, Mark> {
        self.marks@
    }
}

impl ReadState {
    /// Whether the table is in order and no file has more lines than can be
    /// numbered.
    pub open spec fn wf(self) -> bool {
        &&& self.marks.wf()
        &&& forall|path: Seq<char>| #[trigger]
            self@.dom().contains(path) ==> self@[path].total < u64::MAX
    }

    /// Nothing was read yet.
    pub fn new() -> (r: Self)
        ensures
            r.wf(),
            r@ == Map::<Seq<char>, Mark>::empty(),
    {
        ReadState { marks: Table::new() }
    }
}

/// The line at which a call begins: the one it names, else the one to go on
/// with, else the first.
pub open spec fn start_of(
    marks: Map<Seq<char>, Mark>,
    path: Seq<char>,
    offset: Option<u64>,
) -> nat {
    let o = match offset {
        Some(o) => o as nat,
        None => if marks.dom().contains(path) {
            marks[path].next as nat
        } else {
            1
        },
    };
    if o < 1 {
        1
    } else {
        o
    }
}

/// Whether a call without an offset comes after the end of the file was shown.
pub open spec fn exhausted(
    marks: Map<Seq<char>, Mark>,
    path: Seq<char>,
    offset: Option<u64>,
) -> bool {
    offset is None && marks.dom().contains(path) && marks[path].next > 1 && marks[path].next
        > marks[path].total
}

/// A line with its number, counted from zero here and from one in the text.
pub open spec fn numbered(line: Seq<char>, i: int) -> Seq<char> {
    text::decimal((i + 1) as nat) + "→"@ + line + "\n"@
}

/// Whether line `i` still fits behind the text of a page. The first line of a
/// page always does.
pub open spec fn fits(buf: Seq<char>, line: Seq<char>, i: int) -> bool {
    buf.len() == 0 || buf.len() + text::decimal((i + 1) as nat).len() + 1 + line.len()
        <= OUTPUT_CHAR_LIMIT
}

/// The text of a page and the line at which it ends, from line `i` on with at
/// most `n` more lines.
pub open spec fn page_from(lines: Seq<Seq<char>>, i: int, n: nat, buf: Seq<char>) -> (
    Seq<char>,
    int,
)
    decreases n,
{
    if i < 0 || i >= lines.len() || n == 0 || !fits(buf, lines[i], i) {
        (buf, i)
    } else {
        page_from(lines, i + 1, (n - 1) as nat, buf + numbered(lines[i], i))
    }
}

/// The number of the last line of a page that begins at line `start`; `start`
/// itself where the page is empty.
pub open spec fn last_of(lines: Seq<Seq<char>>, start: nat, limit: nat) -> nat {
    let end = page_from(lines, start - 1, limit, Seq::empty()).1;
    if end >= start {
        end as nat
    } else {
        start
    }
}

/// The line below a page: what was shown, and where to go on.
pub open spec fn footer(total: nat, start: nat, last: nat) -> Seq<char> {
    "[File has "@ + text::decimal(total) + " lines. Showing lines "@ + text::decimal(start) + "-"@
        + (if last >= total {
        text::decimal(total) + "]"@
    } else {
        text::decimal(last) + ". Call read_file with offset="@ + text::decimal(last + 1)
            + " to read more.]"@
    })
}

/// The end of a page does not go back, and goes on by at most `n` lines.
proof fn lemma_page_from(lines: Seq<Seq<char>>, i: int, n: nat, buf: Seq<char>)
    requires
        0 <= i,
    ensures
        i <= page_from(lines, i, n, buf).1,
        page_from(lines, i, n, buf).1 <= i + n,
        i <= lines.len() ==> page_from(lines, i, n, buf).1 <= lines.len(),
        i >= lines.len() ==> page_from(lines, i, n, buf) == (buf, i),
    decreases n,
{
    if i < lines.len() && n > 0 && fits(buf, lines[i], i) {
        lemma_page_from(lines, i + 1, (n - 1) as nat, buf + numbered(lines[i], i));
    }
}

/// The lines of a page, and the number of the last one.
fn page(lines: &[String], start: u64, limit: u64) -> (r: (String, u64))
    requires
        start >= 1,
        lines@.len() < u64::MAX,
    ensures
        r.0@ == page_from(text::views(lines@), start - 1, limit as nat, Seq::empty()).0,
        r.1 == last_of(text::views(lines@), start as nat, limit as nat),
        r.1 >= start,
        r.1 <= lines@.len() || r.1 == start,
{
    let ghost model = text::views(lines@);
    let mut buf = String::new();
    let mut last: u64 = start;
    if start > lines.len() as u64 {
        proof {
            lemma_page_from(model, start - 1, limit as nat, Seq::empty());
        }
        return (buf, last);
    }
    let first: usize = (start - 1) as usize;
    let mut i: usize = first;
    let mut left: u64 = limit;
    while i < lines.len() && left > 0
        invariant
            first == start - 1,
            start >= 1,
            first <= i <= lines.len(),
            lines.len() < u64::MAX,
            model == text::views(lines@),
            page_from(model, i as int, left as nat, buf@) == page_from(
                model,
                start - 1,
                limit as nat,
                Seq::empty(),
            ),
            last == if i > first {
                i as int
            } else {
                start as int
            },
        ensures
            first <= i <= lines.len(),
            last == if i > first {
                i as int
            } else {
                start as int
            },
            (buf@, i as int) == page_from(model, start - 1, limit as nat, Seq::empty()),
        decreases left,
    {
        assert(model[i as int] == lines@[i as int]@);
        let number: u64 = i as u64 + 1;
        let shown = text::show(number);
        let taken: u128 = text::chars_of(&buf).len() as u128;
        let cost: u128 = text::chars_of(&shown).len() as u128 + 1 + text::chars_of(&lines[i]).len() as u128;
        if taken > 0 && taken + cost > OUTPUT_CHAR_LIMIT as u128 {
            break;
        }
        let ghost before = buf@;
        buf.append(&shown);
        buf.append("→");
        buf.append(&lines[i]);
        buf.append("\n");
        proof {
            assert(buf@ =~= before + numbered(model[i as int], i as int));
        }
        last = number;
        i = i + 1;
        left = left - 1;
    }
    (buf, last)
}

/// The result of reading a file: a page with its footer, or the notice that the
/// end was reached.
pub open spec fn read_text(
    marks: Map<Seq<char>, Mark>,
    path: Seq<char>,
    offset: Option<u64>,
    limit: nat,
    content: Seq<char>,
) -> Seq<char> {
    if exhausted(marks, path, offset) {
        EXHAUSTED@
    } else {
        let lines = text::lines_of(content);
        let start = start_of(marks, path, offset);
        page_from(lines, start - 1, limit, Seq::empty()).0 + footer(
            lines.len(),
            start,
            last_of(lines, start, limit),
        )
    }
}

/// How far the file was read after a call.
pub open spec fn marks_after(
    marks: Map<Seq<char>, Mark>,
    path: Seq<char>,
    offset: Option<u64>,
    limit: nat,
    content: Seq<char>,
) -> Map<Seq<char>, Mark> {
    if exhausted(marks, path, offset) {
        marks
    } else {
        let lines = text::lines_of(content);
        let last = last_of(lines, start_of(marks, path, offset), limit);
        marks.insert(path, Mark { next: (last + 1) as u64, total: lines.len() as u64 })
    }
}

/// Reads a page of a file, and notes how far it was read. Lines are numbered by
/// 64 bits: the largest number can be neither a line's nor asked for.
pub fn read(state: &mut ReadState, call: &ReadCall, content: &str) -> (r: String)
    requires
        old(state).wf(),
        call.offset != Some(u64::MAX),
        text::lines_of(content@).len() < u64::MAX,
    ensures
        final(state).wf(),
        r@ == read_text(old(state)@, call.path@, call.offset, call.limit as nat, content@),
        final(state)@ == marks_after(
            old(state)@,
            call.path@,
            call.offset,
            call.limit as nat,
            content@,
        ),
{
    let known: Option<Mark> = match state.marks.get(&call.path) {
        Some(m) => Some(*m),
        None => None,
    };
    let asked: u64 = match call.offset {
        Some(o) => o,
        None => match known {
            Some(m) => {
                assert(state@.dom().contains(call.path@));
                if m.next > 1 && m.next > m.total {
                    return EXHAUSTED.to_string();
                }
                m.next
            },
            None => 1,
        },
    };
    let start: u64 = if asked < 1 {
        1
    } else {
        asked
    };
    let lines = text::lines(content);
    let total: u64 = lines.len() as u64;
    assert(text::views(lines@).len() == total);
    let (mut out, last) = page(&lines, start, call.limit);
    let ghost before = *state;
    state.marks.insert(call.path.clone(), Mark { next: last + 1, total });
    proof {
        assert forall|path: Seq<char>| #[trigger] state@.dom().contains(path) implies state@[path].total
            < u64::MAX by {
            if path != call.path@ {
                assert(before@.dom().contains(path));
            }
        }
    }
    let mut foot = "[File has ".to_string();
    text::push_decimal(&mut foot, total);
    foot.append(" lines. Showing lines ");
    text::push_decimal(&mut foot, start);
    foot.append("-");
    let ghost head = foot@;
    if last >= total {
        text::push_decimal(&mut foot, total);
        foot.append("]");
        proof {
            assert(foot@ =~= head + (text::decimal(total as nat) + "]"@));
        }
    } else {
        text::push_decimal(&mut foot, last);
        foot.append(". Call read_file with offset=");
        text::push_decimal(&mut foot, last + 1);
        foot.append(" to read more.]");
        proof {
            assert(foot@ =~= head + (text::decimal(last as nat) + ". Call read_file with offset="@
                + text::decimal(last as nat + 1) + " to read more.]"@));
        }
    }
    out.append(&foot);
    out
}

// ---------------------------------------------------------------------------
// Laws
// ---------------------------------------------------------------------------

/// A page that begins within the file and may have lines shows at least one.
pub proof fn law_page_makes_progress(lines: Seq<Seq<char>>, start: nat, limit: nat)
    requires
        1 <= start <= lines.len(),
        limit > 0,
    ensures
        page_from(lines, start - 1, limit, Seq::empty()).1 >= start,
        start <= last_of(lines, start, limit) <= lines.len(),
{
    let buf = numbered(lines[start - 1], start - 1);
    assert(Seq::<char>::empty() + buf =~= buf);
    lemma_page_from(lines, start as int, (limit - 1) as nat, buf);
    lemma_page_from(lines, start - 1, limit, Seq::empty());
}

/// What a page holds already stays at its beginning.
proof fn lemma_page_grows(lines: Seq<Seq<char>>, i: int, n: nat, buf: Seq<char>)
    ensures
        buf.is_prefix_of(page_from(lines, i, n, buf).0),
    decreases n,
{
    if !(i < 0 || i >= lines.len() || n == 0 || !fits(buf, lines[i], i)) {
        let more = buf + numbered(lines[i], i);
        lemma_page_grows(lines, i + 1, (n - 1) as nat, more);
        assert(buf.is_prefix_of(more));
    }
}

/// A page that shows a line begins with the number of its first line: what
/// stands before the first arrow is the line at which the call began.
pub proof fn law_page_tells_its_start(
    marks: Map<Seq<char>, Mark>,
    path: Seq<char>,
    offset: Option<u64>,
    limit: nat,
    content: Seq<char>,
)
    requires
        !exhausted(marks, path, offset),
        start_of(marks, path, offset) <= text::lines_of(content).len(),
        limit > 0,
    ensures
        ({
            let t = read_text(marks, path, offset, limit, content);
            &&& text::find(t, "→"@) matches Some(i)
            &&& 0 <= i <= t.len()
            &&& t.take(i) == text::decimal(start_of(marks, path, offset))
        }),
{
    let lines = text::lines_of(content);
    let start = start_of(marks, path, offset);
    let t = read_text(marks, path, offset, limit, content);
    let number = text::decimal(start);
    let first = numbered(lines[start - 1], start - 1);
    let page = page_from(lines, start - 1, limit, Seq::empty()).0;
    assert(Seq::<char>::empty() + first =~= first);
    lemma_page_grows(lines, start as int, (limit - 1) as nat, first);
    assert(page == page_from(lines, start as int, (limit - 1) as nat, first).0);
    reveal_strlit("→");
    text::lemma_decimal_digits(start);
    text::lemma_find_from(t, "→"@, 0);
    let n = number.len() as int;
    assert forall|j: int| 0 <= j < first.len() implies t[j] == first[j] by {
        assert(page[j] == first[j]);
    }
    assert(t.subrange(n, n + 1) =~= "→"@);
    assert(text::occurs_at(t, "→"@, n));
    assert forall|j: int| 0 <= j < n implies !text::occurs_at(t, "→"@, j) by {
        assert(t[j] == number[j]);
        assert(text::is_digit(number[j]));
        assert(t.subrange(j, j + 1)[0] == t[j]);
    }
    assert(t.take(n) =~= number);
}

/// Reading on without an offset begins right behind the last line shown.
pub proof fn law_reading_goes_on(
    marks: Map<Seq<char>, Mark>,
    path: Seq<char>,
    offset: Option<u64>,
    limit: nat,
    content: Seq<char>,
)
    requires
        !exhausted(marks, path, offset),
        last_of(text::lines_of(content), start_of(marks, path, offset), limit) < u64::MAX,
    ensures
        start_of(marks_after(marks, path, offset, limit, content), path, None) == last_of(
            text::lines_of(content),
            start_of(marks, path, offset),
            limit,
        ) + 1,
{
}

/// Once the last line was shown, reading on without an offset is answered by
/// the notice, and only an offset reads the file again.
pub proof fn law_end_is_told(
    marks: Map<Seq<char>, Mark>,
    path: Seq<char>,
    offset: Option<u64>,
    limit: nat,
    content: Seq<char>,
    o: u64,
)
    requires
        !exhausted(marks, path, offset),
        text::lines_of(content).len() <= last_of(
            text::lines_of(content),
            start_of(marks, path, offset),
            limit,
        ) < u64::MAX,
    ensures
        exhausted(marks_after(marks, path, offset, limit, content), path, None),
        !exhausted(marks_after(marks, path, offset, limit, content), path, Some(o)),
{
    let start = start_of(marks, path, offset);
    assert(start >= 1);
    lemma_page_from(text::lines_of(content), start - 1, limit, Seq::empty());
}

/// While lines are left, reading on is not answered by the notice.
pub proof fn law_rest_is_shown(
    marks: Map<Seq<char>, Mark>,
    path: Seq<char>,
    offset: Option<u64>,
    limit: nat,
    content: Seq<char>,
)
    requires
        !exhausted(marks, path, offset),
        last_of(text::lines_of(content), start_of(marks, path, offset), limit) < text::lines_of(
            content,
        ).len() < u64::MAX,
    ensures
        !exhausted(marks_after(marks, path, offset, limit, content), path, None),
{
}

/// Reading one file does not change how far another one was read.
pub proof fn law_files_are_independent(
    marks: Map<Seq<char>, Mark>,
    path: Seq<char>,
    other: Seq<char>,
    offset: Option<u64>,
    limit: nat,
    content: Seq<char>,
)
    requires
        path != other,
    ensures
        start_of(marks_after(marks, path, offset, limit, content), other, None) == start_of(
            marks,
            other,
            None,
        ),
        exhausted(marks_after(marks, path, offset, limit, content), other, None) == exhausted(
            marks,
            other,
            None,
        ),
{
}

} // verus!
