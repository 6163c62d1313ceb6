//! Markdown in the terminal.
//!
//! A small parser turns a text into blocks: code, tables, lists, headings,
//! quotes and paragraphs. It takes any text, so that a reply can be shown while
//! it still arrives: a code block that nothing closes yet is kept as an open
//! one. The blocks are then written with ANSI colours or as styled lines.
use vstd::prelude::*;

use crate::text;

verus! {

/// A part of a paragraph.
#[derive(Debug, Clone, PartialEq)]
pub enum Inline {
    Text(String),
    /// Code between backquotes.
    Code(String),
    /// Bold text between double asterisks.
    Bold(String),
    /// Italic text between asterisks.
    Italic(String),
}

/// What an inline part is, with its text as characters.
pub enum InlineModel {
    Text(Seq<char>),
    Code(Seq<char>),
    Bold(Seq<char>),
    Italic(Seq<char>),
}

impl View for Inline {
    type V = InlineModel;

    open spec fn view(&self) -> InlineModel {
        match self {
            Inline::Text(s) => InlineModel::Text(s@),
            Inline::Code(s) => InlineModel::Code(s@),
            Inline::Bold(s) => InlineModel::Bold(s@),
            Inline::Italic(s) => InlineModel::Italic(s@),
        }
    }
}

/// The views of a list of inline parts.
pub open spec fn inline_views(v: Seq<Inline>) -> Seq<InlineModel> {
    v.map_values(|x: Inline| x@)
}

/// A block of a document.
#[derive(Debug, Clone, PartialEq)]
pub enum Block {
    /// A paragraph.
    Paragraph(Vec<Inline>),
    /// A code block between fences. It is open when nothing closes it.
    Code { lang: String, lines: Vec<String>, open: bool },
    /// A table of cells between pipes.
    Table { header: Vec<String>, rows: Vec<Vec<String>> },
    /// A list.
    List { items: Vec<Vec<Inline>> },
    /// A heading of level one to six.
    Heading { level: u8, text: Vec<Inline> },
    /// A quotation.
    Quote { text: Vec<Inline> },
    /// An empty line.
    Blank,
}

/// What a block is, with its texts as characters.
pub enum BlockModel {
    Paragraph(Seq<InlineModel>),
    Code { lang: Seq<char>, lines: Seq<Seq<char>>, open: bool },
    Table { header: Seq<Seq<char>>, rows: Seq<Seq<Seq<char>>> },
    List { items: Seq<Seq<InlineModel>> },
    Heading { level: nat, text: Seq<InlineModel> },
    Quote { text: Seq<InlineModel> },
    Blank,
}

impl View for Block {
    type V = BlockModel;

    open spec fn view(&self) -> BlockModel {
        match self {
            Block::Paragraph(v) => BlockModel::Paragraph(inline_views(v@)),
            Block::Code { lang, lines, open } => BlockModel::Code {
                lang: lang@,
                lines: text::views(lines@),
                open: *open,
            },
            Block::Table { header, rows } => BlockModel::Table {
                header: text::views(header@),
                rows: rows@.map_values(|r: Vec<String>| text::views(r@)),
            },
            Block::List { items } => BlockModel::List {
                items: items@.map_values(|v: Vec<Inline>| inline_views(v@)),
            },
            Block::Heading { level, text } => BlockModel::Heading {
                level: *level as nat,
                text: inline_views(text@),
            },
            Block::Quote { text } => BlockModel::Quote { text: inline_views(text@) },
            Block::Blank => BlockModel::Blank,
        }
    }
}

/// The views of a list of blocks.
pub open spec fn block_views(v: Seq<Block>) -> Seq<BlockModel> {
    v.map_values(|x: Block| x@)
}

// ---------------------------------------------------------------------------
// Kinds of lines
// ---------------------------------------------------------------------------

/// How many digits stand at the start of a text.
pub open spec fn digit_run(s: Seq<char>) -> nat
    decreases s.len(),
{
    if s.len() > 0 && text::is_digit(s[0]) {
        1 + digit_run(s.skip(1))
    } else {
        0
    }
}

/// How many digits stand at the start of a text.
fn leading_digits(v: &[char]) -> (n: usize)
    ensures
        n == digit_run(v@),
        n <= v@.len(),
{
    let mut n: usize = 0;
    proof {
        assert(v@.skip(0) =~= v@);
    }
    while n < v.len() && '0' <= v[n] && v[n] <= '9'
        invariant
            n <= v.len(),
            n + digit_run(v@.skip(n as int)) == digit_run(v@),
        decreases v.len() - n,
    {
        proof {
            assert(v@.skip(n as int).skip(1) =~= v@.skip(n + 1));
        }
        n = n + 1;
    }
    n
}

/// Whether a line is a code fence.
pub open spec fn fence(line: Seq<char>) -> bool {
    "```"@.is_prefix_of(text::trimmed(line)) || "~~~"@.is_prefix_of(text::trimmed(line))
}

/// The language that a code fence names.
pub open spec fn language_of(line: Seq<char>) -> Seq<char> {
    text::trimmed(text::without_leading(text::without_leading(text::trimmed(line), '`'), '~'))
}

/// The level and the text of a heading: one to six number signs and a text that
/// is not empty.
pub open spec fn heading_of(line: Seq<char>) -> Option<(nat, Seq<char>)> {
    let t = text::trimmed(line);
    let level = text::run_length(t, '#');
    let content = text::trimmed(t.skip(level as int));
    if 1 <= level <= 6 && content.len() > 0 {
        Some((level, content))
    } else {
        None
    }
}

/// The text of a quotation, behind a greater-than sign.
pub open spec fn quote_of(line: Seq<char>) -> Option<Seq<char>> {
    let t = text::trimmed(line);
    if t.len() > 0 && t[0] == '>' {
        Some(text::trimmed(t.skip(1)))
    } else {
        None
    }
}

/// Whether a cell is one of a table's separator line: dashes, colons and spaces.
pub open spec fn separator_cell(cell: Seq<char>) -> bool {
    forall|i: int|
        0 <= i < cell.len() ==> (#[trigger] cell[i] == '-' || cell[i] == ':' || cell[i] == ' ')
}

/// Whether a line separates a table's header from its rows.
pub open spec fn table_separator(line: Seq<char>) -> bool {
    let t = text::trimmed(line);
    let cells = text::split_on(t, '|');
    t.contains('|') && forall|i: int|
        0 <= i < cells.len() ==> separator_cell(text::trimmed(#[trigger] cells[i]))
}

/// The text of a list item, behind a bullet or a number with a dot.
pub open spec fn item_of(line: Seq<char>) -> Option<Seq<char>> {
    let t = text::trimmed(line);
    let digits = digit_run(t) as int;
    let content = if t.len() > 0 && (t[0] == '-' || t[0] == '*' || t[0] == '+') {
        text::trimmed(t.skip(1))
    } else if 0 < digits < t.len() && t[digits] == '.' {
        text::trimmed(t.skip(digits + 1))
    } else {
        Seq::empty()
    };
    if !table_separator(t) && content.len() > 0 {
        Some(content)
    } else {
        None
    }
}

/// The cells of a table's line, without the outer pipes.
pub open spec fn cells_of(line: Seq<char>) -> Seq<Seq<char>> {
    text::split_on(
        text::without_trailing(text::without_leading(text::trimmed(line), '|'), '|'),
        '|',
    ).map_values(|c: Seq<char>| text::trimmed(c))
}

/// Whether a line is a row of a table: it holds a pipe and is no separator.
pub open spec fn table_row(line: Seq<char>) -> bool {
    let t = text::trimmed(line);
    t.len() > 0 && !table_separator(t) && t.contains('|')
}

/// Whether a line is a code fence.
fn is_fence(line: &str) -> (r: bool)
    ensures
        r == fence(line@),
{
    let t = text::trim(line);
    text::starts_with(t, "```") || text::starts_with(t, "~~~")
}

/// The language that a code fence names.
fn fence_lang(line: &str) -> (r: String)
    ensures
        r@ == language_of(line@),
{
    text::trim(text::trim_leading(text::trim_leading(text::trim(line), '`'), '~')).to_string()
}

/// The level and the text of a heading.
fn heading<'a>(line: &'a str) -> (r: Option<(u8, &'a str)>)
    ensures
        match r {
            Some((level, content)) => heading_of(line@) == Some((level as nat, content@)),
            None => heading_of(line@) is None,
        },
{
    let t = text::trim(line);
    let v = text::chars_of(t);
    let level = text::leading_run(&v, '#');
    if level == 0 || level > 6 {
        return None;
    }
    let content = text::trim(text::after(t, level));
    if content.is_empty() {
        return None;
    }
    Some((level as u8, content))
}

/// The text of a quotation.
fn quote<'a>(line: &'a str) -> (r: Option<&'a str>)
    ensures
        match r {
            Some(content) => quote_of(line@) == Some(content@),
            None => quote_of(line@) is None,
        },
{
    let t = text::trim(line);
    let v = text::chars_of(t);
    if v.len() > 0 && v[0] == '>' {
        return Some(text::trim(text::after(t, 1)));
    }
    None
}

/// Whether a line separates a table's header from its rows.
fn is_table_sep(line: &str) -> (r: bool)
    ensures
        r == table_separator(line@),
{
    let t = text::trim(line);
    if !text::holds(t, '|') {
        return false;
    }
    let cells = text::split(t, '|');
    let mut i: usize = 0;
    while i < cells.len()
        invariant
            i <= cells.len(),
            text::views(cells@) == text::split_on(t@, '|'),
            t@ == text::trimmed(line@),
            forall|k: int|
                0 <= k < i ==> separator_cell(
                    text::trimmed(#[trigger] text::split_on(t@, '|')[k]),
                ),
        decreases cells.len() - i,
    {
        let cell = text::trim(&cells[i]);
        let v = text::chars_of(cell);
        assert(cells@[i as int]@ == text::views(cells@)[i as int]);
        let mut j: usize = 0;
        while j < v.len()
            invariant
                i < cells.len(),
                j <= v.len(),
                v@ == cell@,
                cell@ == text::trimmed(text::split_on(t@, '|')[i as int]),
                text::views(cells@) == text::split_on(t@, '|'),
                t@ == text::trimmed(line@),
                forall|k: int| 0 <= k < j ==> v@[k] == '-' || v@[k] == ':' || v@[k] == ' ',
            decreases v.len() - j,
        {
            if v[j] != '-' && v[j] != ':' && v[j] != ' ' {
                assert(!separator_cell(text::trimmed(text::split_on(t@, '|')[i as int])));
                return false;
            }
            j = j + 1;
        }
        i = i + 1;
    }
    true
}

/// The text of a list item.
fn list_item<'a>(line: &'a str) -> (r: Option<&'a str>)
    ensures
        match r {
            Some(content) => item_of(line@) == Some(content@),
            None => item_of(line@) is None,
        },
{
    let t = text::trim(line);
    if is_table_sep(t) {
        return None;
    }
    let v = text::chars_of(t);
    if v.len() > 0 && (v[0] == '-' || v[0] == '*' || v[0] == '+') {
        let rest = text::trim(text::after(t, 1));
        if rest.is_empty() {
            return None;
        }
        return Some(rest);
    }
    let digits = leading_digits(&v);
    if digits > 0 && digits < v.len() && v[digits] == '.' {
        let rest = text::trim(text::after(t, digits + 1));
        if rest.is_empty() {
            return None;
        }
        return Some(rest);
    }
    None
}

/// The cells of a table's line.
fn split_table(line: &str) -> (r: Vec<String>)
    ensures
        text::views(r@) == cells_of(line@),
{
    let inner = text::trim_trailing(text::trim_leading(text::trim(line), '|'), '|');
    let parts = text::split(inner, '|');
    let mut out: Vec<String> = Vec::new();
    let mut i: usize = 0;
    while i < parts.len()
        invariant
            i <= parts.len(),
            out@.len() == i,
            forall|k: int| 0 <= k < i ==> (#[trigger] out@[k])@ == text::trimmed(parts@[k]@),
        decreases parts.len() - i,
    {
        out.push(text::trim(&parts[i]).to_string());
        i = i + 1;
    }
    proof {
        let pieces = text::split_on(inner@, '|');
        assert forall|k: int| 0 <= k < pieces.len() implies text::views(out@)[k]
            == text::trimmed(#[trigger] pieces[k]) by {
            assert(text::views(parts@)[k] == parts@[k]@);
        }
        assert(text::views(out@) =~= cells_of(line@));
    }
    out
}

/// Whether a line is a row of a table.
fn is_table_row(line: &str) -> (r: bool)
    ensures
        r == table_row(line@),
{
    let t = text::trim(line);
    !t.is_empty() && !is_table_sep(t) && text::holds(t, '|')
}

// ---------------------------------------------------------------------------
// Inline parts
// ---------------------------------------------------------------------------

/// Where a character stands from position `i` on; the length of the text where
/// it does not.
pub open spec fn next_at(s: Seq<char>, c: char, i: int) -> int
    decreases s.len() - i,
{
    if i < 0 || i >= s.len() {
        s.len() as int
    } else if s[i] == c {
        i
    } else {
        next_at(s, c, i + 1)
    }
}

/// Where a double asterisk stands from position `i` on.
pub open spec fn next_double(s: Seq<char>, i: int) -> Option<int>
    decreases s.len() - i,
{
    if i < 0 || i + 1 >= s.len() {
        None
    } else if s[i] == '*' && s[i + 1] == '*' {
        Some(i)
    } else {
        next_double(s, i + 1)
    }
}

/// The position found lies within the text and not before the start.
pub proof fn lemma_next_at(s: Seq<char>, c: char, i: int)
    requires
        0 <= i <= s.len(),
    ensures
        i <= next_at(s, c, i) <= s.len(),
        next_at(s, c, i) < s.len() ==> s[next_at(s, c, i)] == c,
        forall|k: int| i <= k < next_at(s, c, i) ==> s[k] != c,
    decreases s.len() - i,
{
    if i < s.len() && s[i] != c {
        lemma_next_at(s, c, i + 1);
    }
}

/// The position found lies within the text and not before the start.
pub proof fn lemma_next_double(s: Seq<char>, i: int)
    requires
        0 <= i,
    ensures
        next_double(s, i) matches Some(j) ==> i <= j && j + 1 < s.len() && s[j] == '*' && s[j + 1]
            == '*',
    decreases s.len() - i,
{
    if i + 1 < s.len() && !(s[i] == '*' && s[i + 1] == '*') {
        lemma_next_double(s, i + 1);
    }
}

/// The plain text gathered so far as a part, nothing where there is none.
pub open spec fn gathered(buf: Seq<char>) -> Seq<InlineModel> {
    if buf.len() > 0 {
        seq![InlineModel::Text(buf)]
    } else {
        Seq::empty()
    }
}

/// The special part that begins at position `i`, and where it ends: code up to
/// the next backquote or the end of the text, bold text up to the next double
/// asterisk, italic text up to the next asterisk.
pub open spec fn mark_at(s: Seq<char>, i: int) -> Option<(InlineModel, int)> {
    if s[i] == '`' {
        let j = next_at(s, '`', i + 1);
        Some((
            InlineModel::Code(s.subrange(i + 1, j)),
            if j < s.len() {
                j + 1
            } else {
                j
            },
        ))
    } else if s[i] == '*' && i + 1 < s.len() && s[i + 1] == '*' && next_double(s, i + 2) is Some {
        let j = next_double(s, i + 2)->0;
        Some((InlineModel::Bold(s.subrange(i + 2, j)), j + 2))
    } else if s[i] == '*' && next_at(s, '*', i + 1) < s.len() {
        let j = next_at(s, '*', i + 1);
        Some((InlineModel::Italic(s.subrange(i + 1, j)), j + 1))
    } else {
        None
    }
}

/// A special part ends behind its beginning and within the text.
pub proof fn lemma_mark_at(s: Seq<char>, i: int)
    requires
        0 <= i < s.len(),
    ensures
        mark_at(s, i) matches Some((_, n)) ==> i < n <= s.len(),
{
    lemma_next_at(s, '`', i + 1);
    lemma_next_at(s, '*', i + 1);
    lemma_next_double(s, i + 2);
}

/// The parts of a text from position `i` on, behind plain text gathered so far.
pub open spec fn inlines_from(s: Seq<char>, i: int, buf: Seq<char>) -> Seq<InlineModel>
    decreases s.len() - i,
{
    if i < 0 || i >= s.len() {
        gathered(buf)
    } else {
        proof {
            lemma_mark_at(s, i);
        }
        match mark_at(s, i) {
            Some((part, n)) => gathered(buf) + seq![part] + inlines_from(s, n, Seq::empty()),
            None => inlines_from(s, i + 1, buf.push(s[i])),
        }
    }
}

/// The parts of a text.
pub open spec fn inlines_of(s: Seq<char>) -> Seq<InlineModel> {
    inlines_from(s, 0, Seq::empty())
}

/// Where a character stands from position `i` on.
fn find_next(v: &[char], c: char, i: usize) -> (j: usize)
    requires
        i <= v@.len(),
    ensures
        j == next_at(v@, c, i as int),
        i <= j <= v@.len(),
{
    let mut j: usize = i;
    while j < v.len() && v[j] != c
        invariant
            i <= j <= v.len(),
            next_at(v@, c, j as int) == next_at(v@, c, i as int),
        decreases v.len() - j,
    {
        j = j + 1;
    }
    j
}

/// Where a double asterisk stands from position `i` on.
fn find_double(v: &[char], i: usize) -> (r: Option<usize>)
    ensures
        match r {
            Some(j) => next_double(v@, i as int) == Some(j as int) && i <= j && j + 1 < v@.len(),
            None => next_double(v@, i as int) is None,
        },
{
    let mut j: usize = i;
    while j < v.len() && v.len() - j > 1
        invariant
            i <= j,
            next_double(v@, j as int) == next_double(v@, i as int),
        decreases v.len() - j,
    {
        if v[j] == '*' && v[j + 1] == '*' {
            return Some(j);
        }
        j = j + 1;
    }
    None
}

/// The characters from `a` to `b` as a string.
fn part_of(v: &[char], a: usize, b: usize) -> (r: String)
    requires
        a <= b <= v@.len(),
    ensures
        r@ == v@.subrange(a as int, b as int),
{
    text::string_of(vstd::slice::slice_subrange(v, a, b))
}

/// The special part that begins at position `i`, and where it ends.
fn mark(v: &[char], i: usize) -> (r: Option<(Inline, usize)>)
    requires
        i < v@.len(),
    ensures
        match r {
            Some((part, n)) => mark_at(v@, i as int) == Some((part@, n as int)) && i < n <= v@.len(),
            None => mark_at(v@, i as int) is None,
        },
{
    proof {
        lemma_mark_at(v@, i as int);
    }
    if v[i] == '`' {
        let j = find_next(v, '`', i + 1);
        let code = part_of(v, i + 1, j);
        let n: usize = if j < v.len() {
            j + 1
        } else {
            j
        };
        return Some((Inline::Code(code), n));
    }
    if v[i] == '*' && v.len() - i > 2 && v[i + 1] == '*' {
        if let Some(j) = find_double(v, i + 2) {
            return Some((Inline::Bold(part_of(v, i + 2, j)), j + 2));
        }
    }
    if v[i] == '*' {
        let j = find_next(v, '*', i + 1);
        if j < v.len() {
            return Some((Inline::Italic(part_of(v, i + 1, j)), j + 1));
        }
    }
    None
}

/// Moves the plain text gathered so far to the parts.
fn flush_text(buf: &mut String, out: &mut Vec<Inline>)
    ensures
        final(buf)@ == Seq::<char>::empty(),
        inline_views(final(out)@) == inline_views(old(out)@) + gathered(old(buf)@),
{
    if !buf.as_str().is_empty() {
        out.push(Inline::Text(buf.clone()));
        *buf = String::new();
    }
    proof {
        assert(inline_views(out@) =~= inline_views(old(out)@) + gathered(old(buf)@));
        assert(buf@ =~= Seq::<char>::empty());
    }
}

/// Splits a text into its inline parts. Code that no backquote closes reaches to
/// the end of the text; asterisks that nothing closes are plain text.
pub fn parse_inline(text: &str) -> (r: Vec<Inline>)
    ensures
        inline_views(r@) == inlines_of(text@),
{
    let v = text::chars_of(text);
    let mut out: Vec<Inline> = Vec::new();
    let mut buf = String::new();
    let mut i: usize = 0;
    proof {
        assert(inline_views(out@) + inlines_of(text@) =~= inlines_of(text@));
    }
    while i < v.len()
        invariant
            i <= v.len(),
            v@ == text@,
            inline_views(out@) + inlines_from(v@, i as int, buf@) == inlines_of(text@),
        decreases v.len() - i,
    {
        match mark(&v, i) {
            Some((part, n)) => {
                let ghost before = inline_views(out@);
                let ghost plain = gathered(buf@);
                let ghost rest = inlines_from(v@, n as int, Seq::empty());
                flush_text(&mut buf, &mut out);
                let ghost piece = part@;
                out.push(part);
                i = n;
                proof {
                    assert(inline_views(out@) =~= before + plain + seq![piece]);
                    assert(before + (plain + seq![piece] + rest) =~= before + plain + seq![piece]
                        + rest);
                }
            },
            None => {
                buf.push(v[i]);
                i = i + 1;
            },
        }
    }
    flush_text(&mut buf, &mut out);
    out
}

// ---------------------------------------------------------------------------
// Blocks
// ---------------------------------------------------------------------------

/// The next code fence from line `i` on; the number of lines where none comes.
pub open spec fn next_fence(lines: Seq<Seq<char>>, i: int) -> int
    decreases lines.len() - i,
{
    if i < 0 || i >= lines.len() {
        lines.len() as int
    } else if fence(lines[i]) {
        i
    } else {
        next_fence(lines, i + 1)
    }
}

/// The next line from `i` on that is not blank.
pub open spec fn next_filled(lines: Seq<Seq<char>>, i: int) -> int
    decreases lines.len() - i,
{
    if i < 0 || i >= lines.len() {
        lines.len() as int
    } else if !text::blank(lines[i]) {
        i
    } else {
        next_filled(lines, i + 1)
    }
}

/// The next line from `i` on that is no row of a table.
pub open spec fn rows_end(lines: Seq<Seq<char>>, i: int) -> int
    decreases lines.len() - i,
{
    if i < 0 || i >= lines.len() {
        lines.len() as int
    } else if !table_row(lines[i]) {
        i
    } else {
        rows_end(lines, i + 1)
    }
}

/// Whether a line ends the paragraph before it: it is blank or begins another
/// block.
pub open spec fn paragraph_stop(lines: Seq<Seq<char>>, i: int) -> bool {
    ||| text::blank(lines[i])
    ||| fence(lines[i])
    ||| heading_of(lines[i]) is Some
    ||| quote_of(lines[i]) is Some
    ||| item_of(lines[i]) is Some
    ||| i + 1 < lines.len() && table_separator(lines[i + 1]) && lines[i].contains('|')
}

/// The next line from `i` on that ends a paragraph.
pub open spec fn paragraph_end(lines: Seq<Seq<char>>, i: int) -> int
    decreases lines.len() - i,
{
    if i < 0 || i >= lines.len() {
        lines.len() as int
    } else if paragraph_stop(lines, i) {
        i
    } else {
        paragraph_end(lines, i + 1)
    }
}

pub proof fn lemma_next_fence(lines: Seq<Seq<char>>, i: int)
    requires
        0 <= i <= lines.len(),
    ensures
        i <= next_fence(lines, i) <= lines.len(),
        forall|k: int| i <= k < next_fence(lines, i) ==> !fence(#[trigger] lines[k]),
        next_fence(lines, i) < lines.len() ==> fence(lines[next_fence(lines, i)]),
    decreases lines.len() - i,
{
    if i < lines.len() && !fence(lines[i]) {
        lemma_next_fence(lines, i + 1);
    }
}

pub proof fn lemma_next_filled(lines: Seq<Seq<char>>, i: int)
    requires
        0 <= i <= lines.len(),
    ensures
        i <= next_filled(lines, i) <= lines.len(),
    decreases lines.len() - i,
{
    if i < lines.len() && text::blank(lines[i]) {
        lemma_next_filled(lines, i + 1);
    }
}

pub proof fn lemma_rows_end(lines: Seq<Seq<char>>, i: int)
    requires
        0 <= i <= lines.len(),
    ensures
        i <= rows_end(lines, i) <= lines.len(),
    decreases lines.len() - i,
{
    if i < lines.len() && table_row(lines[i]) {
        lemma_rows_end(lines, i + 1);
    }
}

pub proof fn lemma_paragraph_end(lines: Seq<Seq<char>>, i: int)
    requires
        0 <= i <= lines.len(),
    ensures
        i <= paragraph_end(lines, i) <= lines.len(),
    decreases lines.len() - i,
{
    if i < lines.len() && !paragraph_stop(lines, i) {
        lemma_paragraph_end(lines, i + 1);
    }
}

/// The items of a list that goes on at line `i`, and the line behind it. Blank
/// lines belong to the list where another item follows them.
pub open spec fn items_from(lines: Seq<Seq<char>>, i: int) -> (Seq<Seq<InlineModel>>, int)
    decreases lines.len() - i,
{
    if i < 0 || i >= lines.len() {
        (Seq::empty(), i)
    } else {
        let j = next_filled(lines, i);
        proof {
            lemma_next_filled(lines, i);
        }
        if j < lines.len() && item_of(lines[j]) is Some {
            let (items, end) = items_from(lines, j + 1);
            (seq![inlines_of(item_of(lines[j])->0)] + items, end)
        } else {
            (Seq::empty(), i)
        }
    }
}

pub proof fn lemma_items_from(lines: Seq<Seq<char>>, i: int)
    requires
        0 <= i <= lines.len(),
    ensures
        i <= items_from(lines, i).1 <= lines.len(),
    decreases lines.len() - i,
{
    if i < lines.len() {
        lemma_next_filled(lines, i);
        let j = next_filled(lines, i);
        if j < lines.len() && item_of(lines[j]) is Some {
            lemma_items_from(lines, j + 1);
        }
    }
}

/// Whether a table begins at line `i`: a header whose cells are all filled,
/// with a separator line below it.
pub open spec fn table_at(lines: Seq<Seq<char>>, i: int) -> bool {
    &&& i + 1 < lines.len()
    &&& table_separator(lines[i + 1])
    &&& lines[i].contains('|')
    &&& forall|k: int|
        0 <= k < cells_of(lines[i]).len() ==> !text::blank(#[trigger] cells_of(lines[i])[k])
}

/// The block that begins at line `i`, and the line behind it.
pub open spec fn block_at(lines: Seq<Seq<char>>, i: int) -> (BlockModel, int) {
    if fence(lines[i]) {
        let end = next_fence(lines, i + 1);
        let open = end >= lines.len();
        (
            BlockModel::Code { lang: language_of(lines[i]), lines: lines.subrange(i + 1, end), open },
            if open {
                end
            } else {
                end + 1
            },
        )
    } else if heading_of(lines[i]) is Some {
        let (level, content) = heading_of(lines[i])->0;
        (BlockModel::Heading { level, text: inlines_of(content) }, i + 1)
    } else if quote_of(lines[i]) is Some {
        (BlockModel::Quote { text: inlines_of(quote_of(lines[i])->0) }, i + 1)
    } else if item_of(lines[i]) is Some {
        let (items, end) = items_from(lines, i + 1);
        (BlockModel::List { items: seq![inlines_of(item_of(lines[i])->0)] + items }, end)
    } else if table_at(lines, i) {
        let end = rows_end(lines, i + 2);
        (
            BlockModel::Table {
                header: cells_of(lines[i]),
                rows: lines.subrange(i + 2, end).map_values(|l: Seq<char>| cells_of(text::trimmed(l))),
            },
            end,
        )
    } else if text::blank(lines[i]) {
        (BlockModel::Blank, i + 1)
    } else {
        let end = paragraph_end(lines, i + 1);
        (BlockModel::Paragraph(inlines_of(text::joined(lines.subrange(i, end), "\n"@))), end)
    }
}

/// A block takes at least one line and ends within the document.
pub proof fn lemma_block_at(lines: Seq<Seq<char>>, i: int)
    requires
        0 <= i < lines.len(),
    ensures
        i < block_at(lines, i).1 <= lines.len(),
{
    lemma_next_fence(lines, i + 1);
    lemma_items_from(lines, i + 1);
    lemma_paragraph_end(lines, i + 1);
    if i + 1 < lines.len() {
        lemma_rows_end(lines, i + 2);
    }
}

/// The blocks of a document from line `i` on.
pub open spec fn blocks_from(lines: Seq<Seq<char>>, i: int) -> Seq<BlockModel>
    decreases lines.len() - i,
{
    if i < 0 || i >= lines.len() {
        Seq::empty()
    } else {
        proof {
            lemma_block_at(lines, i);
        }
        let (block, end) = block_at(lines, i);
        seq![block] + blocks_from(lines, end)
    }
}

/// The blocks of a document.
pub open spec fn blocks_of(s: Seq<char>) -> Seq<BlockModel> {
    blocks_from(text::split_on(s, '\n'), 0)
}

/// The code block that begins at line `i`.
fn code_block(lines: &[String], i: usize) -> (r: (Block, usize))
    requires
        i < lines@.len(),
        fence(lines@[i as int]@),
    ensures
        (r.0@, r.1 as int) == block_at(text::views(lines@), i as int),
{
    let ghost model = text::views(lines@);
    let lang = fence_lang(&lines[i]);
    let mut code: Vec<String> = Vec::new();
    let mut j: usize = i + 1;
    while j < lines.len() && !is_fence(&lines[j])
        invariant
            i < j <= lines.len(),
            model == text::views(lines@),
            next_fence(model, j as int) == next_fence(model, i + 1),
            text::views(code@) =~= model.subrange(i + 1, j as int),
        decreases lines.len() - j,
    {
        let line = lines[j].clone();
        code.push(line);
        j = j + 1;
        proof {
            assert(line@ == model[j - 1]);
            assert(model.subrange(i + 1, j as int) =~= model.subrange(i + 1, j - 1).push(line@));
        }
    }
    let open = j >= lines.len();
    let end: usize = if open {
        j
    } else {
        j + 1
    };
    (Block::Code { lang, lines: code, open }, end)
}

/// The list that begins at line `i` with the given first item.
fn list_block(lines: &[String], i: usize, first: &str) -> (r: (Block, usize))
    requires
        i < lines.len(),
        !fence(lines@[i as int]@),
        heading_of(lines@[i as int]@) is None,
        quote_of(lines@[i as int]@) is None,
        item_of(lines@[i as int]@) == Some(first@),
    ensures
        (r.0@, r.1 as int) == block_at(text::views(lines@), i as int),
{
    let ghost model = text::views(lines@);
    let mut items: Vec<Vec<Inline>> = Vec::new();
    items.push(parse_inline(first));
    let mut n: usize = i + 1;
    let ghost whole = seq![inlines_of(first@)] + items_from(model, i + 1).0;
    proof {
        assert(items@.map_values(|v: Vec<Inline>| inline_views(v@)) + items_from(model, i + 1).0
            =~= whole);
    }
    loop
        invariant
            i < n <= lines.len(),
            model == text::views(lines@),
            items_from(model, n as int).1 == items_from(model, i + 1).1,
            items@.map_values(|v: Vec<Inline>| inline_views(v@)) + items_from(model, n as int).0
                == whole,
        ensures
            n <= lines.len(),
            n == items_from(model, i + 1).1,
            items@.map_values(|v: Vec<Inline>| inline_views(v@)) == whole,
        decreases lines.len() - n,
    {
        let mut j: usize = n;
        while j < lines.len() && text::is_blank(&lines[j])
            invariant
                n <= j <= lines.len(),
                model == text::views(lines@),
                next_filled(model, j as int) == next_filled(model, n as int),
            decreases lines.len() - j,
        {
            j = j + 1;
        }
        if j >= lines.len() {
            proof {
                assert(items@.map_values(|v: Vec<Inline>| inline_views(v@)) =~= whole);
            }
            break;
        }
        match list_item(&lines[j]) {
            Some(content) => {
                let ghost before = items@.map_values(|v: Vec<Inline>| inline_views(v@));
                items.push(parse_inline(content));
                proof {
                    let after = items@.map_values(|v: Vec<Inline>| inline_views(v@));
                    assert(after =~= before.push(inlines_of(content@)));
                    let rest = items_from(model, j + 1).0;
                    assert(before + (seq![inlines_of(content@)] + rest) =~= after + rest);
                }
                n = j + 1;
            },
            None => {
                proof {
                    assert(items@.map_values(|v: Vec<Inline>| inline_views(v@)) =~= whole);
                }
                break;
            },
        }
    }
    (Block::List { items }, n)
}

/// Whether every cell of a header is filled.
fn all_filled(cells: &[String]) -> (r: bool)
    ensures
        r == forall|k: int| 0 <= k < cells@.len() ==> !text::blank(#[trigger] text::views(cells@)[k]),
{
    let mut i: usize = 0;
    while i < cells.len()
        invariant
            i <= cells.len(),
            forall|k: int| 0 <= k < i ==> !text::blank(#[trigger] text::views(cells@)[k]),
        decreases cells.len() - i,
    {
        if text::is_blank(&cells[i]) {
            assert(text::blank(text::views(cells@)[i as int]));
            return false;
        }
        i = i + 1;
    }
    true
}

/// The table that begins at line `i`, where one does.
fn table_block(lines: &[String], i: usize) -> (r: Option<(Block, usize)>)
    requires
        i < lines@.len(),
        !fence(lines@[i as int]@),
        heading_of(lines@[i as int]@) is None,
        quote_of(lines@[i as int]@) is None,
        item_of(lines@[i as int]@) is None,
    ensures
        match r {
            Some((block, end)) => table_at(text::views(lines@), i as int) && (block@, end as int)
                == block_at(text::views(lines@), i as int),
            None => !table_at(text::views(lines@), i as int),
        },
{
    let ghost model = text::views(lines@);
    if lines.len() - i < 2 || !is_table_sep(&lines[i + 1]) || !text::holds(&lines[i], '|') {
        return None;
    }
    let header = split_table(&lines[i]);
    assert(text::views(header@) == cells_of(model[i as int]));
    if !all_filled(&header) {
        return None;
    }
    let mut rows: Vec<Vec<String>> = Vec::new();
    let mut j: usize = i + 2;
    while j < lines.len() && is_table_row(&lines[j])
        invariant
            i + 2 <= j <= lines.len(),
            model == text::views(lines@),
            rows_end(model, j as int) == rows_end(model, i + 2),
            rows@.len() == j - i - 2,
            forall|k: int|
                0 <= k < rows@.len() ==> text::views((#[trigger] rows@[k])@) == cells_of(
                    text::trimmed(model[i + 2 + k]),
                ),
        decreases lines.len() - j,
    {
        let row = split_table(text::trim(&lines[j]));
        rows.push(row);
        j = j + 1;
    }
    proof {
        let expected = model.subrange(i + 2, j as int).map_values(
            |l: Seq<char>| cells_of(text::trimmed(l)),
        );
        assert(rows@.map_values(|r: Vec<String>| text::views(r@)) =~= expected);
    }
    Some((Block::Table { header, rows }, j))
}

/// Whether line `i` ends the paragraph before it.
fn stops_paragraph(lines: &[String], i: usize) -> (r: bool)
    requires
        i < lines@.len(),
    ensures
        r == paragraph_stop(text::views(lines@), i as int),
{
    let line = &lines[i];
    assert(line@ == text::views(lines@)[i as int]);
    text::is_blank(line) || is_fence(line) || heading(line).is_some() || quote(line).is_some()
        || list_item(line).is_some() || (lines.len() - i > 1 && is_table_sep(&lines[i + 1]) && text::holds(
        line,
        '|',
    ))
}

/// The paragraph that begins at line `i`.
fn paragraph_block(lines: &[String], i: usize) -> (r: (Block, usize))
    requires
        i < lines@.len(),
    ensures
        r.1 == paragraph_end(text::views(lines@), i + 1),
        r.0@ == BlockModel::Paragraph(
            inlines_of(
                text::joined(
                    text::views(lines@).subrange(i as int, paragraph_end(text::views(lines@), i + 1)),
                    "\n"@,
                ),
            ),
        ),
{
    let ghost model = text::views(lines@);
    let mut para: Vec<String> = Vec::new();
    para.push(lines[i].clone());
    let mut j: usize = i + 1;
    while j < lines.len() && !stops_paragraph(lines, j)
        invariant
            i < j <= lines.len(),
            model == text::views(lines@),
            paragraph_end(model, j as int) == paragraph_end(model, i + 1),
            text::views(para@) =~= model.subrange(i as int, j as int),
        decreases lines.len() - j,
    {
        let line = lines[j].clone();
        para.push(line);
        j = j + 1;
        proof {
            assert(line@ == model[j - 1]);
            assert(model.subrange(i as int, j as int) =~= model.subrange(i as int, j - 1).push(
                line@,
            ));
        }
    }
    let joined = text::join(&para, "\n");
    (Block::Paragraph(parse_inline(&joined)), j)
}

/// The block that begins at line `i`, and the line behind it.
fn next_block(lines: &[String], i: usize) -> (r: (Block, usize))
    requires
        i < lines@.len(),
    ensures
        (r.0@, r.1 as int) == block_at(text::views(lines@), i as int),
{
    let line = &lines[i];
    assert(line@ == text::views(lines@)[i as int]);
    if is_fence(line) {
        return code_block(lines, i);
    }
    if let Some((level, content)) = heading(line) {
        return (Block::Heading { level, text: parse_inline(content) }, i + 1);
    }
    if let Some(content) = quote(line) {
        return (Block::Quote { text: parse_inline(content) }, i + 1);
    }
    if let Some(content) = list_item(line) {
        return list_block(lines, i, content);
    }
    if let Some(table) = table_block(lines, i) {
        return table;
    }
    if text::is_blank(line) {
        return (Block::Blank, i + 1);
    }
    paragraph_block(lines, i)
}

/// Splits a document into blocks. Every text has blocks: a code block that no
/// fence closes reaches to the end of the text and is open.
pub fn parse(text: &str) -> (r: Vec<Block>)
    ensures
        block_views(r@) == blocks_of(text@),
{
    let lines = text::split(text, '\n');
    let ghost model = text::views(lines@);
    let mut out: Vec<Block> = Vec::new();
    let mut i: usize = 0;
    proof {
        assert(block_views(out@) + blocks_of(text@) =~= blocks_of(text@));
    }
    while i < lines.len()
        invariant
            i <= lines.len(),
            model == text::views(lines@),
            block_views(out@) + blocks_from(model, i as int) == blocks_of(text@),
        decreases lines.len() - i,
    {
        let ghost before = block_views(out@);
        let (block, end) = next_block(&lines, i);
        let ghost piece = block@;
        out.push(block);
        proof {
            lemma_block_at(model, i as int);
            let rest = blocks_from(model, end as int);
            assert(block_views(out@) =~= before.push(piece));
            assert(before + (seq![piece] + rest) =~= before.push(piece) + rest);
        }
        i = end;
    }
    proof {
        assert(block_views(out@) =~= block_views(out@) + blocks_from(model, i as int));
    }
    out
}

// ---------------------------------------------------------------------------
// Widths
// ---------------------------------------------------------------------------

/// The columns a text takes: one for an ASCII character, two for another.
pub open spec fn width(s: Seq<char>) -> nat
    decreases s.len(),
{
    if s.len() == 0 {
        0
    } else {
        width(s.drop_last()) + if (s.last() as u32) < 128 {
            1nat
        } else {
            2nat
        }
    }
}

/// The wider of two widths.
pub open spec fn wider(a: nat, b: nat) -> nat {
    if a >= b {
        a
    } else {
        b
    }
}

/// Column widths after a row: a column grows to the row's cell, and the row's
/// further cells are columns of their own.
pub open spec fn widened(widths: Seq<nat>, row: Seq<Seq<char>>) -> Seq<nat> {
    Seq::new(
        wider(widths.len(), row.len()),
        |i: int|
            if i >= row.len() {
                widths[i]
            } else if i >= widths.len() {
                width(row[i])
            } else {
                wider(widths[i], width(row[i]))
            },
    )
}

/// Column widths after the rows of a table.
pub open spec fn widths_after(widths: Seq<nat>, rows: Seq<Seq<Seq<char>>>) -> Seq<nat>
    decreases rows.len(),
{
    if rows.len() == 0 {
        widths
    } else {
        widened(widths_after(widths, rows.drop_last()), rows.last())
    }
}

/// The widths of a table's columns.
pub open spec fn column_widths(header: Seq<Seq<char>>, rows: Seq<Seq<Seq<char>>>) -> Seq<nat> {
    widths_after(header.map_values(|c: Seq<char>| width(c)), rows)
}

/// A character a number of times.
pub open spec fn repeated(c: char, n: nat) -> Seq<char> {
    Seq::new(n, |i: int| c)
}

/// The widths as mathematical numbers.
pub open spec fn nats(v: Seq<u128>) -> Seq<nat> {
    v.map_values(|w: u128| w as nat)
}

/// The columns a text takes.
fn cell_width(s: &str) -> (n: u128)
    ensures
        n == width(s@),
{
    let v = text::chars_of(s);
    let mut n: u128 = 0;
    let mut i: usize = 0;
    while i < v.len()
        invariant
            i <= v.len(),
            n == width(v@.take(i as int)),
            n <= 2 * i,
        decreases v.len() - i,
    {
        proof {
            assert(v@.take(i + 1).drop_last() =~= v@.take(i as int));
        }
        n = n + if (v[i] as u32) < 128 {
            1
        } else {
            2
        };
        i = i + 1;
    }
    proof {
        assert(v@.take(v@.len() as int) =~= v@);
    }
    n
}

/// Widens columns to a row.
fn widen(widths: &mut Vec<u128>, row: &[String])
    ensures
        nats(final(widths)@) == widened(nats(old(widths)@), text::views(row@)),
{
    let ghost start = nats(widths@);
    let ghost cells = text::views(row@);
    let mut i: usize = 0;
    while i < row.len()
        invariant
            i <= row.len(),
            cells == text::views(row@),
            widths@.len() == wider(start.len(), i as nat),
            forall|k: int| i <= k < start.len() ==> #[trigger] widths@[k] == start[k],
            forall|k: int|
                0 <= k < i ==> #[trigger] widths@[k] == if k < start.len() {
                    wider(start[k], width(cells[k]))
                } else {
                    width(cells[k])
                },
        decreases row.len() - i,
    {
        let w = cell_width(&row[i]);
        assert(w == width(cells[i as int]));
        if i < widths.len() {
            if widths[i] < w {
                widths.set(i, w);
            }
        } else {
            widths.push(w);
        }
        i = i + 1;
    }
    proof {
        assert(nats(widths@) =~= widened(start, cells));
    }
}

/// The widths of a table's columns.
fn table_widths(header: &[String], rows: &[Vec<String>]) -> (r: Vec<u128>)
    ensures
        nats(r@) == column_widths(
            text::views(header@),
            rows@.map_values(|row: Vec<String>| text::views(row@)),
        ),
{
    let ghost model = rows@.map_values(|row: Vec<String>| text::views(row@));
    let ghost first = text::views(header@).map_values(|c: Seq<char>| width(c));
    let mut widths: Vec<u128> = Vec::new();
    let mut i: usize = 0;
    while i < header.len()
        invariant
            i <= header.len(),
            widths@.len() == i,
            forall|k: int| 0 <= k < i ==> #[trigger] widths@[k] == width(header@[k]@),
        decreases header.len() - i,
    {
        widths.push(cell_width(&header[i]));
        i = i + 1;
    }
    proof {
        assert(nats(widths@) =~= first);
        assert(model.take(0) =~= Seq::empty());
    }
    let mut j: usize = 0;
    while j < rows.len()
        invariant
            j <= rows.len(),
            model == rows@.map_values(|row: Vec<String>| text::views(row@)),
            nats(widths@) == widths_after(first, model.take(j as int)),
        decreases rows.len() - j,
    {
        proof {
            assert(model.take(j + 1).drop_last() =~= model.take(j as int));
            assert(model.take(j + 1).last() == text::views(rows@[j as int]@));
        }
        widen(&mut widths, &rows[j]);
        j = j + 1;
    }
    proof {
        assert(model.take(model.len() as int) =~= model);
    }
    widths
}

/// Appends a character a number of times.
fn push_repeated(out: &mut String, c: char, n: u128)
    ensures
        final(out)@ == old(out)@ + repeated(c, n as nat),
{
    let ghost start = out@;
    let mut i: u128 = 0;
    proof {
        assert(start + repeated(c, 0) =~= start);
    }
    while i < n
        invariant
            i <= n,
            out@ == start + repeated(c, i as nat),
        decreases n - i,
    {
        out.push(c);
        i = i + 1;
        proof {
            assert(out@ =~= start + repeated(c, i as nat));
        }
    }
}

// ---------------------------------------------------------------------------
// ANSI
// ---------------------------------------------------------------------------

/// Back to the terminal's own colours.
pub const ANSI_RESET: &'static str = "\x1b[0m";

/// The colours of a code block.
pub const ANSI_CODE: &'static str = "\x1b[48;2;30;30;30m\x1b[38;2;200;200;200m";

/// The colours of code within a line.
pub const ANSI_INLINE_CODE: &'static str = "\x1b[48;2;40;40;40m\x1b[38;2;220;120;120m";

/// Bold text.
pub const ANSI_BOLD: &'static str = "\x1b[1m";

/// Italic text.
pub const ANSI_ITALIC: &'static str = "\x1b[3m";

/// The colour of a quotation, with its mark.
pub const ANSI_QUOTE: &'static str = "\x1b[38;2;100;150;100m> ";

/// An inline part with ANSI colours.
pub open spec fn ansi_inline(part: InlineModel) -> Seq<char> {
    match part {
        InlineModel::Text(s) => s,
        InlineModel::Code(s) => ANSI_INLINE_CODE@ + s + ANSI_RESET@,
        InlineModel::Bold(s) => ANSI_BOLD@ + s + ANSI_RESET@,
        InlineModel::Italic(s) => ANSI_ITALIC@ + s + ANSI_RESET@,
    }
}

/// Inline parts with ANSI colours, one behind the other.
pub open spec fn ansi_inlines(parts: Seq<InlineModel>) -> Seq<char>
    decreases parts.len(),
{
    if parts.len() == 0 {
        Seq::empty()
    } else {
        ansi_inlines(parts.drop_last()) + ansi_inline(parts.last())
    }
}

/// Lines, each with a line feed.
pub open spec fn ansi_lines(lines: Seq<Seq<char>>) -> Seq<char>
    decreases lines.len(),
{
    if lines.len() == 0 {
        Seq::empty()
    } else {
        ansi_lines(lines.drop_last()) + lines.last() + "\n"@
    }
}

/// A cell of a row: its text, the spaces behind it, and a bar where another
/// cell follows.
pub open spec fn cell_text(cell: Seq<char>, pad: nat, more: bool) -> Seq<char> {
    cell + repeated(' ', pad) + if more {
        " │ "@
    } else {
        ""@
    }
}

/// Appends a cell of a row.
fn push_cell(out: &mut String, cell: &str, pad: u128, more: bool)
    ensures
        final(out)@ == old(out)@ + cell_text(cell@, pad as nat, more),
{
    let ghost start = out@;
    out.append(cell);
    push_repeated(out, ' ', pad);
    if more {
        out.append(" │ ");
    } else {
        out.append("");
    }
    proof {
        assert(out@ =~= start + cell_text(cell@, pad as nat, more));
    }
}

/// The first `n` cells of a row, each padded to its column by its number of
/// characters, with bars between them.
pub open spec fn ansi_cells(row: Seq<Seq<char>>, widths: Seq<nat>, n: nat) -> Seq<char>
    decreases n,
{
    if n == 0 {
        Seq::empty()
    } else {
        let i = n - 1;
        let w = if i < widths.len() {
            widths[i]
        } else {
            0
        };
        ansi_cells(row, widths, i as nat) + cell_text(
            row[i],
            if w > row[i].len() {
                (w - row[i].len()) as nat
            } else {
                0
            },
            n < row.len(),
        )
    }
}

/// A row of a table between bars.
pub open spec fn ansi_row(row: Seq<Seq<char>>, widths: Seq<nat>) -> Seq<char> {
    "│ "@ + ansi_cells(row, widths, row.len()) + " │\n"@
}

/// Rows of a table.
pub open spec fn ansi_rows(rows: Seq<Seq<Seq<char>>>, widths: Seq<nat>) -> Seq<char>
    decreases rows.len(),
{
    if rows.len() == 0 {
        Seq::empty()
    } else {
        ansi_rows(rows.drop_last(), widths) + ansi_row(rows.last(), widths)
    }
}

/// The items of a list.
pub open spec fn ansi_items(items: Seq<Seq<InlineModel>>) -> Seq<char>
    decreases items.len(),
{
    if items.len() == 0 {
        Seq::empty()
    } else {
        ansi_items(items.drop_last()) + "• "@ + ansi_inlines(items.last()) + "\n"@
    }
}

/// The colour of a heading.
pub open spec fn heading_color(level: nat) -> Seq<char> {
    if level == 1 {
        "\x1b[1;36m"@
    } else if level == 2 {
        "\x1b[1;35m"@
    } else if level == 3 {
        "\x1b[1;34m"@
    } else {
        "\x1b[1;33m"@
    }
}

/// A block with ANSI colours.
pub open spec fn ansi_block(block: BlockModel) -> Seq<char> {
    match block {
        BlockModel::Paragraph(parts) => ansi_inlines(parts) + "\n"@,
        BlockModel::Code { lang, lines, open } => ANSI_CODE@ + ansi_lines(lines) + (if open {
            "▌"@
        } else {
            "```"@
        }) + ANSI_RESET@ + "\n"@,
        BlockModel::Table { header, rows } => {
            let widths = column_widths(header, rows);
            ansi_row(header, widths) + ansi_rows(rows, widths)
        },
        BlockModel::List { items } => ansi_items(items),
        BlockModel::Heading { level, text } => heading_color(level) + repeated('#', level) + " "@
            + ansi_inlines(text) + ANSI_RESET@ + "\n"@,
        BlockModel::Quote { text } => ANSI_QUOTE@ + ansi_inlines(text) + ANSI_RESET@ + "\n"@,
        BlockModel::Blank => "\n"@,
    }
}

/// A document with ANSI colours.
pub open spec fn ansi_of(blocks: Seq<BlockModel>) -> Seq<char>
    decreases blocks.len(),
{
    if blocks.len() == 0 {
        Seq::empty()
    } else {
        ansi_of(blocks.drop_last()) + ansi_block(blocks.last())
    }
}

/// Inline parts with ANSI colours.
fn render_inline_ansi(parts: &[Inline]) -> (r: String)
    ensures
        r@ == ansi_inlines(inline_views(parts@)),
{
    let ghost model = inline_views(parts@);
    let mut out = String::new();
    let mut i: usize = 0;
    proof {
        assert(model.take(0) =~= Seq::empty());
    }
    while i < parts.len()
        invariant
            i <= parts.len(),
            model == inline_views(parts@),
            out@ == ansi_inlines(model.take(i as int)),
        decreases parts.len() - i,
    {
        let ghost start = out@;
        proof {
            assert(model.take(i + 1).drop_last() =~= model.take(i as int));
            assert(model.take(i + 1).last() == parts@[i as int]@);
        }
        match &parts[i] {
            Inline::Text(t) => {
                out.append(t);
            },
            Inline::Code(t) => {
                out.append(ANSI_INLINE_CODE);
                out.append(t);
                out.append(ANSI_RESET);
                assert(out@ =~= start + (ANSI_INLINE_CODE@ + t@ + ANSI_RESET@));
            },
            Inline::Bold(t) => {
                out.append(ANSI_BOLD);
                out.append(t);
                out.append(ANSI_RESET);
                assert(out@ =~= start + (ANSI_BOLD@ + t@ + ANSI_RESET@));
            },
            Inline::Italic(t) => {
                out.append(ANSI_ITALIC);
                out.append(t);
                out.append(ANSI_RESET);
                assert(out@ =~= start + (ANSI_ITALIC@ + t@ + ANSI_RESET@));
            },
        }
        i = i + 1;
    }
    proof {
        assert(model.take(model.len() as int) =~= model);
    }
    out
}

/// Appends a row of a table between bars.
fn push_ansi_row(out: &mut String, row: &[String], widths: &[u128])
    ensures
        final(out)@ == old(out)@ + ansi_row(text::views(row@), nats(widths@)),
{
    let ghost start = out@;
    let ghost cells = text::views(row@);
    let ghost columns = nats(widths@);
    out.append("│ ");
    let mut i: usize = 0;
    proof {
        assert(start + "│ "@ + ansi_cells(cells, columns, 0) =~= start + "│ "@);
    }
    while i < row.len()
        invariant
            i <= row.len(),
            cells == text::views(row@),
            columns == nats(widths@),
            out@ == start + "│ "@ + ansi_cells(cells, columns, i as nat),
        decreases row.len() - i,
    {
        let w: u128 = if i < widths.len() {
            widths[i]
        } else {
            0
        };
        let len: u128 = text::chars_of(&row[i]).len() as u128;
        let pad: u128 = if w > len {
            w - len
        } else {
            0
        };
        push_cell(out, &row[i], pad, row.len() - i > 1);
        i = i + 1;
        proof {
            assert(cells[i - 1] == row@[i - 1]@);
            assert(out@ =~= start + "│ "@ + ansi_cells(cells, columns, i as nat));
        }
    }
    out.append(" │\n");
    proof {
        assert(out@ =~= start + ansi_row(cells, columns));
    }
}

/// A table with ANSI colours.
fn ansi_table(header: &[String], rows: &[Vec<String>]) -> (r: String)
    ensures
        r@ == ansi_block(
            BlockModel::Table {
                header: text::views(header@),
                rows: rows@.map_values(|row: Vec<String>| text::views(row@)),
            },
        ),
{
    let ghost model = rows@.map_values(|row: Vec<String>| text::views(row@));
    let widths = table_widths(header, rows);
    let ghost columns = nats(widths@);
    let mut out = String::new();
    push_ansi_row(&mut out, header, &widths);
    let ghost first = ansi_row(text::views(header@), columns);
    let mut i: usize = 0;
    proof {
        assert(model.take(0) =~= Seq::empty());
        assert(out@ =~= first + ansi_rows(model.take(0), columns));
    }
    while i < rows.len()
        invariant
            i <= rows.len(),
            model == rows@.map_values(|row: Vec<String>| text::views(row@)),
            columns == nats(widths@),
            out@ == first + ansi_rows(model.take(i as int), columns),
        decreases rows.len() - i,
    {
        proof {
            assert(model.take(i + 1).drop_last() =~= model.take(i as int));
            assert(model.take(i + 1).last() == text::views(rows@[i as int]@));
        }
        push_ansi_row(&mut out, &rows[i], &widths);
        i = i + 1;
        proof {
            assert(out@ =~= first + ansi_rows(model.take(i as int), columns));
        }
    }
    proof {
        assert(model.take(model.len() as int) =~= model);
    }
    out
}

/// The lines of a code block, each with a line feed.
fn code_lines(lines: &[String]) -> (r: String)
    ensures
        r@ == ansi_lines(text::views(lines@)),
{
    let ghost model = text::views(lines@);
    let mut out = String::new();
    let mut i: usize = 0;
    proof {
        assert(model.take(0) =~= Seq::empty());
    }
    while i < lines.len()
        invariant
            i <= lines.len(),
            model == text::views(lines@),
            out@ == ansi_lines(model.take(i as int)),
        decreases lines.len() - i,
    {
        proof {
            assert(model.take(i + 1).drop_last() =~= model.take(i as int));
            assert(model.take(i + 1).last() == lines@[i as int]@);
        }
        out.append(&lines[i]);
        out.append("\n");
        i = i + 1;
    }
    proof {
        assert(model.take(model.len() as int) =~= model);
    }
    out
}

/// The items of a list with ANSI colours.
fn ansi_list(items: &[Vec<Inline>]) -> (r: String)
    ensures
        r@ == ansi_items(items@.map_values(|v: Vec<Inline>| inline_views(v@))),
{
    let ghost model = items@.map_values(|v: Vec<Inline>| inline_views(v@));
    let mut out = String::new();
    let mut i: usize = 0;
    proof {
        assert(model.take(0) =~= Seq::empty());
    }
    while i < items.len()
        invariant
            i <= items.len(),
            model == items@.map_values(|v: Vec<Inline>| inline_views(v@)),
            out@ == ansi_items(model.take(i as int)),
        decreases items.len() - i,
    {
        proof {
            assert(model.take(i + 1).drop_last() =~= model.take(i as int));
            assert(model.take(i + 1).last() == inline_views(items@[i as int]@));
        }
        out.append("• ");
        out.append(&render_inline_ansi(&items[i]));
        out.append("\n");
        i = i + 1;
    }
    proof {
        assert(model.take(model.len() as int) =~= model);
    }
    out
}

/// A block with ANSI colours.
fn block_ansi(block: &Block) -> (r: String)
    ensures
        r@ == ansi_block(block@),
{
    let mut out = String::new();
    match block {
        Block::Paragraph(parts) => {
            out = render_inline_ansi(parts);
        },
        Block::Code { lang: _, lines, open } => {
            out = ANSI_CODE.to_string();
            out.append(&code_lines(lines));
            if *open {
                out.append("▌");
            } else {
                out.append("```");
            }
            out.append(ANSI_RESET);
        },
        Block::Table { header, rows } => {
            return ansi_table(header, rows);
        },
        Block::List { items } => {
            return ansi_list(items);
        },
        Block::Heading { level, text } => {
            if *level == 1 {
                out = "\x1b[1;36m".to_string();
            } else if *level == 2 {
                out = "\x1b[1;35m".to_string();
            } else if *level == 3 {
                out = "\x1b[1;34m".to_string();
            } else {
                out = "\x1b[1;33m".to_string();
            }
            push_repeated(&mut out, '#', *level as u128);
            out.append(" ");
            out.append(&render_inline_ansi(text));
            out.append(ANSI_RESET);
        },
        Block::Quote { text } => {
            out = ANSI_QUOTE.to_string();
            out.append(&render_inline_ansi(text));
            out.append(ANSI_RESET);
        },
        Block::Blank => {
            return "\n".to_string();
        },
    }
    out.append("\n");
    out
}

/// Writes a document with ANSI colours.
pub fn render_ansi(blocks: &[Block]) -> (r: String)
    ensures
        r@ == ansi_of(block_views(blocks@)),
{
    let ghost model = block_views(blocks@);
    let mut out = String::new();
    let mut i: usize = 0;
    proof {
        assert(model.take(0) =~= Seq::empty());
    }
    while i < blocks.len()
        invariant
            i <= blocks.len(),
            model == block_views(blocks@),
            out@ == ansi_of(model.take(i as int)),
        decreases blocks.len() - i,
    {
        proof {
            assert(model.take(i + 1).drop_last() =~= model.take(i as int));
            assert(model.take(i + 1).last() == blocks@[i as int]@);
        }
        out.append(&block_ansi(&blocks[i]));
        i = i + 1;
    }
    proof {
        assert(model.take(model.len() as int) =~= model);
    }
    out
}

// ---------------------------------------------------------------------------
// Styled lines
// ---------------------------------------------------------------------------

/// A colour of a terminal.
#[derive(Debug, Clone, Copy, PartialEq, Eq)]
pub enum Color {
    Yellow,
    Cyan,
    Magenta,
    Blue,
    Rgb(u8, u8, u8),
}

/// How a piece of text is shown.
#[derive(Debug, Clone, Copy, PartialEq, Eq)]
pub struct Style {
    pub fg: Option<Color>,
    pub bg: Option<Color>,
    pub bold: bool,
    pub italic: bool,
    pub dim: bool,
}

/// A piece of text with its style.
#[derive(Debug, Clone, PartialEq)]
pub struct Span {
    pub content: String,
    pub style: Style,
}

/// A piece of text with its style, as characters.
pub struct SpanModel {
    pub content: Seq<char>,
    pub style: Style,
}

impl View for Span {
    type V = SpanModel;

    open spec fn view(&self) -> SpanModel {
        SpanModel { content: self.content@, style: self.style }
    }
}

/// A line of styled pieces.
#[derive(Debug, Clone, PartialEq)]
pub struct Line {
    pub spans: Vec<Span>,
}

impl View for Line {
    type V = Seq<SpanModel>;

    open spec fn view(&self) -> Seq<SpanModel> {
        self.spans@.map_values(|x: Span| x@)
    }
}

/// The views of a list of lines.
pub open spec fn line_views(v: Seq<Line>) -> Seq<Seq<SpanModel>> {
    v.map_values(|x: Line| x@)
}

/// The terminal's own style.
pub open spec fn plain() -> Style {
    Style { fg: None, bg: None, bold: false, italic: false, dim: false }
}

/// A style with only a colour.
pub open spec fn colored(c: Color) -> Style {
    Style { fg: Some(c), bg: None, bold: false, italic: false, dim: false }
}

/// The style of a code block's lines.
pub open spec fn code_line_style() -> Style {
    colored(Color::Rgb(200, 200, 200))
}

/// The style of a code block's frame.
pub open spec fn frame_style() -> Style {
    Style { fg: Some(Color::Rgb(120, 120, 120)), bg: None, bold: false, italic: false, dim: true }
}

/// The style of code within a line.
pub open spec fn mono_style() -> Style {
    Style {
        fg: Some(Color::Rgb(220, 120, 120)),
        bg: Some(Color::Rgb(40, 40, 40)),
        bold: false,
        italic: false,
        dim: false,
    }
}

/// The style of a heading.
pub open spec fn title_style(level: nat) -> Style {
    Style {
        fg: Some(
            if level == 1 {
                Color::Cyan
            } else if level == 2 {
                Color::Magenta
            } else if level == 3 {
                Color::Blue
            } else {
                Color::Yellow
            },
        ),
        bg: None,
        bold: true,
        italic: false,
        dim: false,
    }
}

/// An inline part as a styled piece.
pub open spec fn span_of(part: InlineModel) -> SpanModel {
    match part {
        InlineModel::Text(s) => SpanModel { content: s, style: plain() },
        InlineModel::Code(s) => SpanModel { content: s, style: mono_style() },
        InlineModel::Bold(s) => SpanModel {
            content: s,
            style: Style { bold: true, ..plain() },
        },
        InlineModel::Italic(s) => SpanModel {
            content: s,
            style: Style { italic: true, ..plain() },
        },
    }
}

/// Inline parts as styled pieces.
pub open spec fn spans_of(parts: Seq<InlineModel>) -> Seq<SpanModel> {
    parts.map_values(|p: InlineModel| span_of(p))
}

/// The text of an inline part.
pub open spec fn inline_text(part: InlineModel) -> Seq<char> {
    match part {
        InlineModel::Text(s) => s,
        InlineModel::Code(s) => s,
        InlineModel::Bold(s) => s,
        InlineModel::Italic(s) => s,
    }
}

/// The text of inline parts without their marks.
pub open spec fn plain_of(parts: Seq<InlineModel>) -> Seq<char>
    decreases parts.len(),
{
    if parts.len() == 0 {
        Seq::empty()
    } else {
        plain_of(parts.drop_last()) + inline_text(parts.last())
    }
}

/// A line of one piece.
pub open spec fn line_of(content: Seq<char>, style: Style) -> Seq<SpanModel> {
    seq![SpanModel { content, style }]
}

/// The sum of numbers.
pub open spec fn total(v: Seq<nat>) -> nat
    decreases v.len(),
{
    if v.len() == 0 {
        0
    } else {
        total(v.drop_last()) + v.last()
    }
}

/// The length of a table's horizontal lines.
pub open spec fn rule_length(widths: Seq<nat>) -> nat {
    total(widths) + 3 * (if widths.len() > 0 {
        (widths.len() - 1) as nat
    } else {
        0
    }) + 2
}

/// The first `n` cells of a row, each padded to its column, with bars between
/// them.
pub open spec fn row_cells(row: Seq<Seq<char>>, widths: Seq<nat>, n: nat) -> Seq<char>
    decreases n,
{
    if n == 0 {
        Seq::empty()
    } else {
        let i = n - 1;
        let w = if i < widths.len() {
            widths[i]
        } else {
            0
        };
        row_cells(row, widths, i as nat) + cell_text(
            row[i],
            if w > width(row[i]) {
                (w - width(row[i])) as nat
            } else {
                0
            },
            n < row.len(),
        )
    }
}

/// A row of a table between bars.
pub open spec fn row_text(row: Seq<Seq<char>>, widths: Seq<nat>) -> Seq<char> {
    "│ "@ + row_cells(row, widths, row.len()) + " │"@
}

/// A horizontal line of a table between two corners.
pub open spec fn rule(left: Seq<char>, right: Seq<char>, n: nat) -> Seq<char> {
    left + repeated('─', n) + right
}

/// A block as styled lines.
pub open spec fn lines_of_block(block: BlockModel) -> Seq<Seq<SpanModel>> {
    match block {
        BlockModel::Paragraph(parts) => seq![spans_of(parts)],
        BlockModel::Code { lang, lines, open } => seq![
            line_of(
                "┌─ "@ + (if lang.len() == 0 {
                    "code"@
                } else {
                    lang
                }) + " "@,
                frame_style(),
            ),
        ] + lines.map_values(|l: Seq<char>| line_of("│ "@ + l, code_line_style())) + seq![
            line_of(
                if open {
                    "▌"@
                } else {
                    "└──────"@
                },
                frame_style(),
            ),
        ],
        BlockModel::Table { header, rows } => {
            let widths = column_widths(header, rows);
            let n = rule_length(widths);
            let style = colored(Color::Cyan);
            seq![
                line_of(rule("┌"@, "┐"@, n), style),
                line_of(row_text(header, widths), style),
                line_of(rule("├"@, "┤"@, n), style),
            ] + rows.map_values(|r: Seq<Seq<char>>| line_of(row_text(r, widths), style)) + seq![
                line_of(rule("└"@, "┘"@, n), style),
            ]
        },
        BlockModel::List { items } => items.map_values(
            |item: Seq<InlineModel>|
                seq![
                    SpanModel { content: "•"@, style: colored(Color::Yellow) },
                    SpanModel { content: " "@, style: plain() },
                ] + spans_of(item),
        ),
        BlockModel::Heading { level, text } => seq![
            line_of(repeated('#', level) + " "@ + plain_of(text), title_style(level)),
        ],
        BlockModel::Quote { text } => seq![
            line_of("> "@ + plain_of(text), colored(Color::Rgb(100, 150, 100))),
        ],
        BlockModel::Blank => seq![line_of(""@, plain())],
    }
}

/// A document as styled lines.
pub open spec fn styled_lines(blocks: Seq<BlockModel>) -> Seq<Seq<SpanModel>>
    decreases blocks.len(),
{
    if blocks.len() == 0 {
        Seq::empty()
    } else {
        styled_lines(blocks.drop_last()) + lines_of_block(blocks.last())
    }
}

/// A style with only a colour.
fn color_style(c: Color) -> (r: Style)
    ensures
        r == colored(c),
{
    Style { fg: Some(c), bg: None, bold: false, italic: false, dim: false }
}

/// The terminal's own style.
fn plain_style() -> (r: Style)
    ensures
        r == plain(),
{
    Style { fg: None, bg: None, bold: false, italic: false, dim: false }
}

/// The style of a code block's lines.
fn code_style() -> (r: Style)
    ensures
        r == code_line_style(),
{
    color_style(Color::Rgb(200, 200, 200))
}

/// The style of a code block's frame.
fn code_box_style() -> (r: Style)
    ensures
        r == frame_style(),
{
    Style { fg: Some(Color::Rgb(120, 120, 120)), bg: None, bold: false, italic: false, dim: true }
}

/// The style of code within a line.
fn inline_code_style() -> (r: Style)
    ensures
        r == mono_style(),
{
    Style {
        fg: Some(Color::Rgb(220, 120, 120)),
        bg: Some(Color::Rgb(40, 40, 40)),
        bold: false,
        italic: false,
        dim: false,
    }
}

/// The style of a heading.
fn heading_style(level: u8) -> (r: Style)
    ensures
        r == title_style(level as nat),
{
    let color = if level == 1 {
        Color::Cyan
    } else if level == 2 {
        Color::Magenta
    } else if level == 3 {
        Color::Blue
    } else {
        Color::Yellow
    };
    Style { fg: Some(color), bg: None, bold: true, italic: false, dim: false }
}

/// Inline parts as styled pieces.
fn inline_spans(parts: &[Inline]) -> (r: Vec<Span>)
    ensures
        r@.map_values(|x: Span| x@) == spans_of(inline_views(parts@)),
{
    let mut spans: Vec<Span> = Vec::new();
    let mut i: usize = 0;
    while i < parts.len()
        invariant
            i <= parts.len(),
            spans@.len() == i,
            forall|k: int| 0 <= k < i ==> (#[trigger] spans@[k])@ == span_of(parts@[k]@),
        decreases parts.len() - i,
    {
        let span = match &parts[i] {
            Inline::Text(t) => Span { content: t.clone(), style: plain_style() },
            Inline::Code(t) => Span { content: t.clone(), style: inline_code_style() },
            Inline::Bold(t) => Span {
                content: t.clone(),
                style: Style { fg: None, bg: None, bold: true, italic: false, dim: false },
            },
            Inline::Italic(t) => Span {
                content: t.clone(),
                style: Style { fg: None, bg: None, bold: false, italic: true, dim: false },
            },
        };
        spans.push(span);
        i = i + 1;
    }
    proof {
        assert(spans@.map_values(|x: Span| x@) =~= spans_of(inline_views(parts@)));
    }
    spans
}

/// The text of inline parts without their marks.
fn inline_plain(parts: &[Inline]) -> (r: String)
    ensures
        r@ == plain_of(inline_views(parts@)),
{
    let ghost model = inline_views(parts@);
    let mut out = String::new();
    let mut i: usize = 0;
    proof {
        assert(model.take(0) =~= Seq::empty());
    }
    while i < parts.len()
        invariant
            i <= parts.len(),
            model == inline_views(parts@),
            out@ == plain_of(model.take(i as int)),
        decreases parts.len() - i,
    {
        proof {
            assert(model.take(i + 1).drop_last() =~= model.take(i as int));
            assert(model.take(i + 1).last() == parts@[i as int]@);
        }
        match &parts[i] {
            Inline::Text(t) => {
                out.append(t);
            },
            Inline::Code(t) => {
                out.append(t);
            },
            Inline::Bold(t) => {
                out.append(t);
            },
            Inline::Italic(t) => {
                out.append(t);
            },
        }
        i = i + 1;
    }
    proof {
        assert(model.take(model.len() as int) =~= model);
    }
    out
}

/// A row of a table between bars.
fn format_table_row(row: &[String], widths: &[u128]) -> (r: String)
    ensures
        r@ == row_text(text::views(row@), nats(widths@)),
{
    let ghost cells = text::views(row@);
    let ghost columns = nats(widths@);
    let mut out = "│ ".to_string();
    let mut i: usize = 0;
    proof {
        assert("│ "@ + row_cells(cells, columns, 0) =~= "│ "@);
    }
    while i < row.len()
        invariant
            i <= row.len(),
            cells == text::views(row@),
            columns == nats(widths@),
            out@ == "│ "@ + row_cells(cells, columns, i as nat),
        decreases row.len() - i,
    {
        let w: u128 = if i < widths.len() {
            widths[i]
        } else {
            0
        };
        let taken = cell_width(&row[i]);
        let pad: u128 = if w > taken {
            w - taken
        } else {
            0
        };
        push_cell(&mut out, &row[i], pad, row.len() - i > 1);
        i = i + 1;
        proof {
            assert(cells[i - 1] == row@[i - 1]@);
            assert(out@ =~= "│ "@ + row_cells(cells, columns, i as nat));
        }
    }
    out.append(" │");
    out
}

/// The characters repeated by parts are the characters repeated at once.
proof fn lemma_repeated(c: char, a: nat, b: nat)
    ensures
        repeated(c, a) + repeated(c, b) == repeated(c, a + b),
{
    assert(repeated(c, a) + repeated(c, b) =~= repeated(c, a + b));
}

/// A horizontal line of a table between two corners.
fn table_rule(widths: &[u128], left: &str, right: &str) -> (r: String)
    ensures
        r@ == rule(left@, right@, rule_length(nats(widths@))),
{
    let ghost columns = nats(widths@);
    let mut out = left.to_string();
    let mut i: usize = 0;
    proof {
        assert(columns.take(0) =~= Seq::empty());
        assert(left@ + repeated('─', 0) =~= left@);
    }
    while i < widths.len()
        invariant
            i <= widths.len(),
            columns == nats(widths@),
            out@ == left@ + repeated(
                '─',
                total(columns.take(i as int)) + 3 * (if i > 0 {
                    (i - 1) as nat
                } else {
                    0
                }),
            ),
        decreases widths.len() - i,
    {
        let ghost n = total(columns.take(i as int)) + 3 * (if i > 0 {
            (i - 1) as nat
        } else {
            0
        });
        let ghost w = widths@[i as int] as nat;
        proof {
            assert(columns.take(i + 1).drop_last() =~= columns.take(i as int));
            assert(columns.take(i + 1).last() == w);
        }
        let gap: u128 = if i > 0 {
            3
        } else {
            0
        };
        push_repeated(&mut out, '─', gap);
        push_repeated(&mut out, '─', widths[i]);
        i = i + 1;
        proof {
            lemma_repeated('─', n, gap as nat);
            lemma_repeated('─', n + gap as nat, w);
            assert(left@ + repeated('─', n) + repeated('─', gap as nat) + repeated('─', w) =~= left@
                + (repeated('─', n) + repeated('─', gap as nat) + repeated('─', w)));
        }
    }
    push_repeated(&mut out, '─', 2);
    proof {
        assert(columns.take(columns.len() as int) =~= columns);
        let n = (rule_length(columns) - 2) as nat;
        lemma_repeated('─', n, 2);
        assert(left@ + repeated('─', n) + repeated('─', 2) =~= left@ + (repeated('─', n) + repeated(
            '─',
            2,
        )));
    }
    out.append(right);
    out
}

/// A line of one piece.
fn single(content: String, style: Style) -> (r: Line)
    ensures
        r@ == line_of(content@, style),
{
    let mut spans: Vec<Span> = Vec::new();
    spans.push(Span { content, style });
    let r = Line { spans };
    proof {
        assert(r@ =~= line_of(content@, style));
    }
    r
}

/// A code block as styled lines.
fn code_box(lang: &str, lines: &[String], open: bool) -> (r: Vec<Line>)
    ensures
        line_views(r@) == lines_of_block(
            BlockModel::Code { lang: lang@, lines: text::views(lines@), open },
        ),
{
    let mut out: Vec<Line> = Vec::new();
    let mut head = "┌─ ".to_string();
    if lang.is_empty() {
        head.append("code");
    } else {
        head.append(lang);
    }
    head.append(" ");
    let ghost top = head@;
    out.push(single(head, code_box_style()));
    let mut i: usize = 0;
    while i < lines.len()
        invariant
            i <= lines.len(),
            out@.len() == i + 1,
            out@[0]@ == line_of(top, frame_style()),
            forall|k: int|
                1 <= k <= i ==> (#[trigger] out@[k])@ == line_of(
                    "│ "@ + lines@[k - 1]@,
                    code_line_style(),
                ),
        decreases lines.len() - i,
    {
        let mut line = "│ ".to_string();
        line.append(&lines[i]);
        out.push(single(line, code_style()));
        i = i + 1;
    }
    let bottom = if open {
        "▌"
    } else {
        "└──────"
    };
    out.push(single(bottom.to_string(), code_box_style()));
    proof {
        assert(line_views(out@) =~= lines_of_block(
            BlockModel::Code { lang: lang@, lines: text::views(lines@), open },
        ));
    }
    out
}

/// A table as styled lines.
fn table_box(header: &[String], rows: &[Vec<String>]) -> (r: Vec<Line>)
    ensures
        line_views(r@) == lines_of_block(
            BlockModel::Table {
                header: text::views(header@),
                rows: rows@.map_values(|row: Vec<String>| text::views(row@)),
            },
        ),
{
    let ghost model = rows@.map_values(|row: Vec<String>| text::views(row@));
    let widths = table_widths(header, rows);
    let style = color_style(Color::Cyan);
    let ghost columns = nats(widths@);
    let ghost n = rule_length(columns);
    let ghost top = line_of(rule("┌"@, "┐"@, n), style);
    let ghost title = line_of(row_text(text::views(header@), columns), style);
    let ghost middle = line_of(rule("├"@, "┤"@, n), style);
    let mut out: Vec<Line> = Vec::new();
    out.push(single(table_rule(&widths, "┌", "┐"), style));
    out.push(single(format_table_row(header, &widths), style));
    out.push(single(table_rule(&widths, "├", "┤"), style));
    let mut i: usize = 0;
    while i < rows.len()
        invariant
            i <= rows.len(),
            columns == nats(widths@),
            out@.len() == i + 3,
            out@[0]@ == top,
            out@[1]@ == title,
            out@[2]@ == middle,
            forall|k: int|
                3 <= k < i + 3 ==> (#[trigger] out@[k])@ == line_of(
                    row_text(text::views(rows@[k - 3]@), columns),
                    style,
                ),
        decreases rows.len() - i,
    {
        out.push(single(format_table_row(&rows[i], &widths), style));
        i = i + 1;
    }
    out.push(single(table_rule(&widths, "└", "┘"), style));
    proof {
        assert(line_views(out@) =~= lines_of_block(
            BlockModel::Table { header: text::views(header@), rows: model },
        ));
    }
    out
}

/// A list as styled lines.
fn list_lines(items: &[Vec<Inline>]) -> (r: Vec<Line>)
    ensures
        line_views(r@) == lines_of_block(
            BlockModel::List { items: items@.map_values(|v: Vec<Inline>| inline_views(v@)) },
        ),
{
    let ghost model = items@.map_values(|v: Vec<Inline>| inline_views(v@));
    let mut out: Vec<Line> = Vec::new();
    let mut i: usize = 0;
    while i < items.len()
        invariant
            i <= items.len(),
            out@.len() == i,
            model == items@.map_values(|v: Vec<Inline>| inline_views(v@)),
            forall|k: int|
                0 <= k < i ==> (#[trigger] out@[k])@ == seq![
                    SpanModel { content: "•"@, style: colored(Color::Yellow) },
                    SpanModel { content: " "@, style: plain() },
                ] + spans_of(model[k]),
        decreases items.len() - i,
    {
        let mut spans: Vec<Span> = Vec::new();
        spans.push(Span { content: "•".to_string(), style: color_style(Color::Yellow) });
        spans.push(Span { content: " ".to_string(), style: plain_style() });
        let mut parts = inline_spans(&items[i]);
        let ghost marks = spans@;
        let ghost tail = parts@;
        spans.append(&mut parts);
        let line = Line { spans };
        proof {
            assert(tail.map_values(|x: Span| x@) == spans_of(model[i as int]));
            assert(line@ =~= marks.map_values(|x: Span| x@) + tail.map_values(|x: Span| x@));
            assert(marks.map_values(|x: Span| x@) =~= seq![
                SpanModel { content: "•"@, style: colored(Color::Yellow) },
                SpanModel { content: " "@, style: plain() },
            ]);
        }
        out.push(line);
        i = i + 1;
    }
    proof {
        assert(line_views(out@) =~= lines_of_block(BlockModel::List { items: model }));
    }
    out
}

/// A block as styled lines.
fn block_lines(block: &Block) -> (r: Vec<Line>)
    ensures
        line_views(r@) == lines_of_block(block@),
{
    let mut out: Vec<Line> = Vec::new();
    match block {
        Block::Paragraph(parts) => {
            out.push(Line { spans: inline_spans(parts) });
        },
        Block::Code { lang, lines, open } => {
            return code_box(lang, lines, *open);
        },
        Block::Table { header, rows } => {
            return table_box(header, rows);
        },
        Block::List { items } => {
            return list_lines(items);
        },
        Block::Heading { level, text } => {
            let mut content = String::new();
            push_repeated(&mut content, '#', *level as u128);
            content.append(" ");
            content.append(&inline_plain(text));
            proof {
                assert(Seq::<char>::empty() + repeated('#', *level as nat) =~= repeated(
                    '#',
                    *level as nat,
                ));
            }
            out.push(single(content, heading_style(*level)));
        },
        Block::Quote { text } => {
            let mut content = "> ".to_string();
            content.append(&inline_plain(text));
            out.push(single(content, color_style(Color::Rgb(100, 150, 100))));
        },
        Block::Blank => {
            out.push(single("".to_string(), plain_style()));
        },
    }
    proof {
        assert(line_views(out@) =~= lines_of_block(block@));
    }
    out
}

/// Writes a document as styled lines.
pub fn render_lines(blocks: &[Block]) -> (r: Vec<Line>)
    ensures
        line_views(r@) == styled_lines(block_views(blocks@)),
{
    let ghost model = block_views(blocks@);
    let mut out: Vec<Line> = Vec::new();
    let mut i: usize = 0;
    proof {
        assert(model.take(0) =~= Seq::empty());
        assert(line_views(out@) =~= Seq::empty());
    }
    while i < blocks.len()
        invariant
            i <= blocks.len(),
            model == block_views(blocks@),
            line_views(out@) == styled_lines(model.take(i as int)),
        decreases blocks.len() - i,
    {
        proof {
            assert(model.take(i + 1).drop_last() =~= model.take(i as int));
            assert(model.take(i + 1).last() == blocks@[i as int]@);
        }
        let mut lines = block_lines(&blocks[i]);
        let ghost before = out@;
        let ghost added = lines@;
        out.append(&mut lines);
        proof {
            assert(line_views(out@) =~= line_views(before) + line_views(added));
        }
        i = i + 1;
    }
    proof {
        assert(model.take(model.len() as int) =~= model);
    }
    out
}

// ---------------------------------------------------------------------------
// Laws
// ---------------------------------------------------------------------------

/// A code block that nothing closes takes the rest of the document and is open.
pub proof fn law_unclosed_code_is_open(lines: Seq<Seq<char>>)
    requires
        lines.len() > 0,
        fence(lines[0]),
        forall|i: int| 0 < i < lines.len() ==> !fence(#[trigger] lines[i]),
    ensures
        blocks_from(lines, 0) == seq![
            BlockModel::Code { lang: language_of(lines[0]), lines: lines.skip(1), open: true },
        ],
{
    lemma_next_fence(lines, 1);
    let end = next_fence(lines, 1);
    assert(end == lines.len());
    assert(lines.subrange(1, end) =~= lines.skip(1));
    assert(blocks_from(lines, end) =~= Seq::empty());
    assert(blocks_from(lines, 0) =~= seq![
        BlockModel::Code { lang: language_of(lines[0]), lines: lines.skip(1), open: true },
    ]);
}

/// A closed code block keeps its lines as they are, whatever they look like,
/// and the document goes on behind its closing fence.
pub proof fn law_closed_code_is_kept(lines: Seq<Seq<char>>, n: int)
    requires
        0 < n < lines.len(),
        fence(lines[0]),
        fence(lines[n]),
        forall|i: int| 0 < i < n ==> !fence(#[trigger] lines[i]),
    ensures
        blocks_from(lines, 0) == seq![
            BlockModel::Code {
                lang: language_of(lines[0]),
                lines: lines.subrange(1, n),
                open: false,
            },
        ] + blocks_from(lines, n + 1),
{
    lemma_next_fence(lines, 1);
    let end = next_fence(lines, 1);
    if end < n {
        assert(!fence(lines[end]));
    }
    if end > n {
        assert(!fence(lines[n]));
    }
}

/// Text without backquotes and asterisks is one plain part.
pub proof fn law_plain_text_is_one_part(s: Seq<char>)
    requires
        s.len() > 0,
        !s.contains('`'),
        !s.contains('*'),
    ensures
        inlines_of(s) == seq![InlineModel::Text(s)],
{
    lemma_plain_from(s, 0);
    assert(s.take(0) =~= Seq::empty());
}

/// Plain text is gathered character by character.
proof fn lemma_plain_from(s: Seq<char>, i: int)
    requires
        s.len() > 0,
        0 <= i <= s.len(),
        !s.contains('`'),
        !s.contains('*'),
    ensures
        inlines_from(s, i, s.take(i)) == seq![InlineModel::Text(s)],
    decreases s.len() - i,
{
    if i < s.len() {
        assert(s[i] != '`' && s[i] != '*');
        assert(s.take(i).push(s[i]) =~= s.take(i + 1));
        lemma_plain_from(s, i + 1);
    } else {
        assert(s.take(i) =~= s);
    }
}

/// The width of joined texts is the sum of their widths.
pub proof fn law_width_adds_up(a: Seq<char>, b: Seq<char>)
    ensures
        width(a + b) == width(a) + width(b),
    decreases b.len(),
{
    if b.len() == 0 {
        assert(a + b =~= a);
    } else {
        assert((a + b).drop_last() =~= a + b.drop_last());
        law_width_adds_up(a, b.drop_last());
    }
}

/// Spaces are as wide as they are many.
proof fn lemma_width_of_spaces(n: nat)
    ensures
        width(repeated(' ', n)) == n,
    decreases n,
{
    if n > 0 {
        assert(repeated(' ', n).drop_last() =~= repeated(' ', (n - 1) as nat));
        lemma_width_of_spaces((n - 1) as nat);
    }
}

/// The width of a cell with its spaces and its bar.
proof fn lemma_cell_width(cell: Seq<char>, pad: nat, more: bool)
    ensures
        width(cell_text(cell, pad, more)) == width(cell) + pad + width(
            if more {
                " │ "@
            } else {
                ""@
            },
        ),
{
    let bar = if more {
        " │ "@
    } else {
        ""@
    };
    lemma_width_of_spaces(pad);
    law_width_adds_up(cell, repeated(' ', pad));
    law_width_adds_up(cell + repeated(' ', pad), bar);
}

/// Whether a row fits the columns: no more cells than columns, and no cell
/// wider than its column.
pub open spec fn fits(row: Seq<Seq<char>>, widths: Seq<nat>) -> bool {
    row.len() <= widths.len() && forall|i: int|
        0 <= i < row.len() ==> width(#[trigger] row[i]) <= widths[i]
}

/// The first cells of two rows that fit the columns are equally wide.
proof fn lemma_cells_align(a: Seq<Seq<char>>, b: Seq<Seq<char>>, widths: Seq<nat>, n: nat)
    requires
        fits(a, widths),
        fits(b, widths),
        a.len() == b.len(),
        n <= a.len(),
    ensures
        width(row_cells(a, widths, n)) == width(row_cells(b, widths, n)),
    decreases n,
{
    if n > 0 {
        let i = n - 1;
        lemma_cells_align(a, b, widths, i as nat);
        let pa = (widths[i] - width(a[i])) as nat;
        let pb = (widths[i] - width(b[i])) as nat;
        lemma_cell_width(a[i], pa, n < a.len());
        lemma_cell_width(b[i], pb, n < a.len());
        law_width_adds_up(row_cells(a, widths, i as nat), cell_text(a[i], pa, n < a.len()));
        law_width_adds_up(row_cells(b, widths, i as nat), cell_text(b[i], pb, n < b.len()));
    }
}

/// The rows of a table with equally many cells are shown equally wide.
pub proof fn law_rows_align(header: Seq<Seq<char>>, rows: Seq<Seq<Seq<char>>>, i: int, j: int)
    requires
        0 <= i < rows.len(),
        0 <= j < rows.len(),
        rows[i].len() == rows[j].len(),
    ensures
        ({
            let widths = column_widths(header, rows);
            width(row_text(rows[i], widths)) == width(row_text(rows[j], widths))
        }),
{
    let first = header.map_values(|c: Seq<char>| width(c));
    let widths = column_widths(header, rows);
    lemma_rows_fit(first, rows, i);
    lemma_rows_fit(first, rows, j);
    let n = rows[i].len();
    lemma_cells_align(rows[i], rows[j], widths, n);
    let a = row_cells(rows[i], widths, n);
    let b = row_cells(rows[j], widths, n);
    law_width_adds_up("│ "@, a);
    law_width_adds_up("│ "@ + a, " │"@);
    law_width_adds_up("│ "@, b);
    law_width_adds_up("│ "@ + b, " │"@);
}

/// Every row fits the columns of its table.
proof fn lemma_rows_fit(first: Seq<nat>, rows: Seq<Seq<Seq<char>>>, i: int)
    requires
        0 <= i < rows.len(),
    ensures
        fits(rows[i], widths_after(first, rows)),
    decreases rows.len(),
{
    let before = widths_after(first, rows.drop_last());
    if i < rows.len() - 1 {
        lemma_rows_fit(first, rows.drop_last(), i);
        assert(fits(rows.drop_last()[i], before));
    }
}

} // verus!
