//! What the user sees of a Markdown text.
//!
//! Rendering adds colours, frames and marks. The laws here say what it may not
//! do: lose a word of the text, or change one.
use vstd::prelude::*;

use crate::cli::stream;
use crate::render;
use crate::render::{BlockModel, InlineModel, SpanModel};
use crate::text;
use crate::text_laws;

verus! {

/// The words of an inline part, whatever it is marked as.
pub open spec fn words(part: InlineModel) -> Seq<char> {
    match part {
        InlineModel::Text(s) => s,
        InlineModel::Code(s) => s,
        InlineModel::Bold(s) => s,
        InlineModel::Italic(s) => s,
    }
}

/// The words of inline parts, one behind the other.
pub open spec fn all_words(parts: Seq<InlineModel>) -> Seq<char>
    decreases parts.len(),
{
    if parts.len() == 0 {
        Seq::empty()
    } else {
        all_words(parts.drop_last()) + words(parts.last())
    }
}

/// Whether a text holds no escape character.
pub open spec fn calm(s: Seq<char>) -> bool {
    forall|i: int| 0 <= i < s.len() ==> #[trigger] s[i] != '\x1b'
}

/// Whether inline parts hold no escape character.
pub open spec fn calm_parts(parts: Seq<InlineModel>) -> bool {
    forall|i: int| 0 <= i < parts.len() ==> calm(words(#[trigger] parts[i]))
}

// ---------------------------------------------------------------------------
// Removing escape sequences
// ---------------------------------------------------------------------------

/// Whether what stands behind a text does not change what is seen of it.
spec fn neat(a: Seq<char>) -> bool {
    forall|b: Seq<char>| #[trigger]
        stream::plain_of(a + b) == stream::plain_of(a) + stream::plain_of(b)
}

proof fn lemma_end_shifts(p: Seq<char>, b: Seq<char>, i: int, left: nat)
    requires
        0 <= i,
    ensures
        stream::sequence_end(p + b, p.len() + i, left) == p.len() + stream::sequence_end(b, i, left),
    decreases left,
{
    if left > 0 && i < b.len() {
        assert((p + b)[p.len() + i] == b[i]);
        lemma_end_shifts(p, b, i + 1, (left - 1) as nat);
    }
}

proof fn lemma_plain_shifts(p: Seq<char>, b: Seq<char>, i: int)
    requires
        0 <= i <= b.len(),
    ensures
        stream::plain_from(p + b, p.len() + i) == stream::plain_from(b, i),
    decreases b.len() - i,
{
    if i < b.len() {
        let s = p + b;
        let k = p.len() + i;
        assert(s[k] == b[i]);
        if i + 1 < b.len() {
            assert(s[k + 1] == b[i + 1]);
        }
        assert(stream::sequence_at(s, k) == stream::sequence_at(b, i));
        if stream::sequence_at(b, i) {
            lemma_end_shifts(p, b, i + 1, 64);
            stream::lemma_sequence_end(b, i + 1, 64);
            reveal_with_fuel(stream::sequence_end, 2);
            let e = stream::sequence_end(b, i + 1, 64);
            lemma_plain_shifts(p, b, e);
        } else {
            lemma_plain_shifts(p, b, i + 1);
        }
    }
}

proof fn lemma_calm_from(a: Seq<char>, b: Seq<char>, i: int)
    requires
        calm(a),
        0 <= i <= a.len(),
    ensures
        stream::plain_from(a + b, i) == a.skip(i) + stream::plain_of(b),
    decreases a.len() - i,
{
    if i < a.len() {
        assert((a + b)[i] == a[i]);
        lemma_calm_from(a, b, i + 1);
        assert(seq![a[i]] + (a.skip(i + 1) + stream::plain_of(b)) =~= a.skip(i)
            + stream::plain_of(b));
    } else {
        lemma_plain_shifts(a, b, 0);
        assert(a.skip(i) + stream::plain_of(b) =~= stream::plain_of(b));
    }
}

/// A text without the escape character is seen as it is.
proof fn lemma_calm_is_neat(a: Seq<char>)
    requires
        calm(a),
    ensures
        neat(a),
        stream::plain_of(a) == a,
{
    let none = Seq::<char>::empty();
    lemma_calm_from(a, none, 0);
    assert(a + none =~= a);
    assert(a.skip(0) + none =~= a);
    assert(stream::plain_of(none) =~= none);
    assert forall|b: Seq<char>| #[trigger]
        stream::plain_of(a + b) == stream::plain_of(a) + stream::plain_of(b) by {
        lemma_calm_from(a, b, 0);
        assert(a.skip(0) =~= a);
    }
}

/// What is seen of two texts, one behind the other.
proof fn lemma_neat_join(a: Seq<char>, b: Seq<char>)
    requires
        neat(a),
        neat(b),
    ensures
        neat(a + b),
        stream::plain_of(a + b) == stream::plain_of(a) + stream::plain_of(b),
{
    assert forall|c: Seq<char>| #[trigger]
        stream::plain_of(a + b + c) == stream::plain_of(a + b) + stream::plain_of(c) by {
        assert(a + b + c =~= a + (b + c));
        assert(stream::plain_of(a) + (stream::plain_of(b) + stream::plain_of(c))
            =~= stream::plain_of(a) + stream::plain_of(b) + stream::plain_of(c));
    }
}

proof fn lemma_end_at(s: Seq<char>, i: int, j: int, left: nat)
    requires
        0 <= i <= j < s.len(),
        j - i < left,
        s[j] == 'm',
        forall|k: int|
            i <= k < j ==> #[trigger] s[k] != 'm' && s[k] != 'K' && s[k] != 'H' && s[k] != 'n',
    ensures
        stream::sequence_end(s, i, left) == j + 1,
    decreases left,
{
    if i < j {
        lemma_end_at(s, i + 1, j, (left - 1) as nat);
    }
}

/// Nothing is seen of an escape sequence.
proof fn lemma_escape(e: Seq<char>)
    requires
        3 <= e.len() <= 60,
        e[0] == '\x1b',
        e[1] == '[',
        e.last() == 'm',
        forall|k: int|
            1 <= k < e.len() - 1 ==> #[trigger] e[k] != 'm' && e[k] != 'K' && e[k] != 'H' && e[k]
                != 'n',
    ensures
        neat(e),
        stream::plain_of(e) == Seq::<char>::empty(),
{
    let none = Seq::<char>::empty();
    assert forall|b: Seq<char>| #[trigger] stream::plain_of(e + b) == stream::plain_of(b) by {
        let s = e + b;
        assert(s[0] == e[0] && s[1] == e[1]);
        assert forall|k: int| 1 <= k < e.len() - 1 implies #[trigger] s[k] != 'm' && s[k] != 'K'
            && s[k] != 'H' && s[k] != 'n' by {
            assert(s[k] == e[k]);
        }
        assert(s[e.len() - 1] == e.last());
        lemma_end_at(s, 1, e.len() - 1, 64);
        assert(stream::sequence_at(s, 0));
        lemma_plain_shifts(e, b, 0);
    }
    assert(e + none =~= e);
    assert(stream::plain_of(none) =~= none);
    assert(stream::plain_of(e) == none);
    assert forall|b: Seq<char>| #[trigger]
        stream::plain_of(e + b) == stream::plain_of(e) + stream::plain_of(b) by {
        assert(none + stream::plain_of(b) =~= stream::plain_of(b));
    }
}

/// Nothing is seen of the colours.
proof fn lemma_colors_are_unseen()
    ensures
        neat(render::ANSI_RESET@) && stream::plain_of(render::ANSI_RESET@) == Seq::<char>::empty(),
        neat(render::ANSI_BOLD@) && stream::plain_of(render::ANSI_BOLD@) == Seq::<char>::empty(),
        neat(render::ANSI_ITALIC@) && stream::plain_of(render::ANSI_ITALIC@)
            == Seq::<char>::empty(),
        neat(render::ANSI_CODE@) && stream::plain_of(render::ANSI_CODE@) == Seq::<char>::empty(),
        neat(render::ANSI_INLINE_CODE@) && stream::plain_of(render::ANSI_INLINE_CODE@)
            == Seq::<char>::empty(),
        neat(render::ANSI_QUOTE@) && stream::plain_of(render::ANSI_QUOTE@) == "> "@,
        forall|level: nat| #[trigger]
            neat(render::heading_color(level)) && stream::plain_of(render::heading_color(level))
                == Seq::<char>::empty(),
{
    reveal_strlit("\x1b[0m");
    reveal_strlit("\x1b[1m");
    reveal_strlit("\x1b[3m");
    reveal_strlit("\x1b[48;2;30;30;30m\x1b[38;2;200;200;200m");
    reveal_strlit("\x1b[48;2;40;40;40m\x1b[38;2;220;120;120m");
    reveal_strlit("\x1b[38;2;100;150;100m> ");
    reveal_strlit("> ");
    reveal_strlit("\x1b[1;36m");
    reveal_strlit("\x1b[1;35m");
    reveal_strlit("\x1b[1;34m");
    reveal_strlit("\x1b[1;33m");
    lemma_escape(render::ANSI_RESET@);
    lemma_escape(render::ANSI_BOLD@);
    lemma_escape(render::ANSI_ITALIC@);
    let none = Seq::<char>::empty();
    let code = render::ANSI_CODE@;
    lemma_escape(code.take(16));
    lemma_escape(code.skip(16));
    lemma_neat_join(code.take(16), code.skip(16));
    assert(code.take(16) + code.skip(16) =~= code);
    assert(none + none =~= none);
    let mono = render::ANSI_INLINE_CODE@;
    lemma_escape(mono.take(16));
    lemma_escape(mono.skip(16));
    lemma_neat_join(mono.take(16), mono.skip(16));
    assert(mono.take(16) + mono.skip(16) =~= mono);
    let quote = render::ANSI_QUOTE@;
    let n = quote.len() - 2;
    lemma_escape(quote.take(n));
    lemma_calm_is_neat(quote.skip(n));
    lemma_neat_join(quote.take(n), quote.skip(n));
    assert(quote.take(n) + quote.skip(n) =~= quote);
    assert(none + quote.skip(n) =~= "> "@);
    assert forall|level: nat| #[trigger]
        neat(render::heading_color(level)) && stream::plain_of(render::heading_color(level))
            == none by {
        lemma_escape(render::heading_color(level));
    }
}

// ---------------------------------------------------------------------------
// Colours keep the text
// ---------------------------------------------------------------------------

/// A coloured part is seen as its words.
proof fn lemma_part(part: InlineModel)
    requires
        calm(words(part)),
    ensures
        neat(render::ansi_inline(part)),
        stream::plain_of(render::ansi_inline(part)) == words(part),
{
    lemma_colors_are_unseen();
    let w = words(part);
    lemma_calm_is_neat(w);
    let none = Seq::<char>::empty();
    let reset = render::ANSI_RESET@;
    assert(none + w + none =~= w);
    match part {
        InlineModel::Text(_) => {},
        InlineModel::Code(_) => {
            lemma_neat_join(render::ANSI_INLINE_CODE@, w);
            lemma_neat_join(render::ANSI_INLINE_CODE@ + w, reset);
        },
        InlineModel::Bold(_) => {
            lemma_neat_join(render::ANSI_BOLD@, w);
            lemma_neat_join(render::ANSI_BOLD@ + w, reset);
        },
        InlineModel::Italic(_) => {
            lemma_neat_join(render::ANSI_ITALIC@, w);
            lemma_neat_join(render::ANSI_ITALIC@ + w, reset);
        },
    }
}

proof fn lemma_parts(parts: Seq<InlineModel>)
    requires
        calm_parts(parts),
    ensures
        neat(render::ansi_inlines(parts)),
        stream::plain_of(render::ansi_inlines(parts)) == all_words(parts),
    decreases parts.len(),
{
    if parts.len() == 0 {
        lemma_calm_is_neat(Seq::empty());
    } else {
        assert forall|i: int| 0 <= i < parts.drop_last().len() implies calm(
            words(#[trigger] parts.drop_last()[i]),
        ) by {
            assert(parts.drop_last()[i] == parts[i]);
        }
        lemma_parts(parts.drop_last());
        assert(calm(words(parts[parts.len() - 1])));
        lemma_part(parts.last());
        lemma_neat_join(render::ansi_inlines(parts.drop_last()), render::ansi_inline(parts.last()));
    }
}

/// Colouring keeps the text: of coloured parts, with the escape sequences
/// removed, the words of all parts are left, whether they are plain, code, bold
/// or italic.
pub proof fn law_colors_keep_the_words(parts: Seq<InlineModel>)
    requires
        calm_parts(parts),
    ensures
        stream::plain_of(render::ansi_inlines(parts)) == all_words(parts),
{
    lemma_parts(parts);
}

/// The lines of a code block, each with a line feed.
pub open spec fn line_by_line(lines: Seq<Seq<char>>) -> Seq<char>
    decreases lines.len(),
{
    if lines.len() == 0 {
        Seq::empty()
    } else {
        line_by_line(lines.drop_last()) + lines.last() + "\n"@
    }
}

/// The items of a list as they are seen, each on a line of its own.
pub open spec fn item_by_item(items: Seq<Seq<InlineModel>>) -> Seq<char>
    decreases items.len(),
{
    if items.len() == 0 {
        Seq::empty()
    } else {
        item_by_item(items.drop_last()) + "• "@ + all_words(items.last()) + "\n"@
    }
}

/// What is seen of a block: its words behind the marks of its kind. A table is
/// seen as its rows.
pub open spec fn seen(block: BlockModel) -> Seq<char> {
    match block {
        BlockModel::Paragraph(parts) => all_words(parts) + "\n"@,
        BlockModel::Code { lang, lines, open } => line_by_line(lines) + (if open {
            "▌"@
        } else {
            "```"@
        }) + "\n"@,
        BlockModel::Table { header, rows } => render::ansi_row(
            header,
            render::column_widths(header, rows),
        ) + render::ansi_rows(rows, render::column_widths(header, rows)),
        BlockModel::List { items } => item_by_item(items),
        BlockModel::Heading { level, text } => render::repeated('#', level) + " "@ + all_words(text)
            + "\n"@,
        BlockModel::Quote { text } => "> "@ + all_words(text) + "\n"@,
        BlockModel::Blank => "\n"@,
    }
}

/// What is seen of a document.
pub open spec fn all_seen(blocks: Seq<BlockModel>) -> Seq<char>
    decreases blocks.len(),
{
    if blocks.len() == 0 {
        Seq::empty()
    } else {
        all_seen(blocks.drop_last()) + seen(blocks.last())
    }
}

/// Whether texts hold no escape character.
pub open spec fn calm_all(v: Seq<Seq<char>>) -> bool {
    forall|i: int| 0 <= i < v.len() ==> calm(#[trigger] v[i])
}

/// Whether a block holds no escape character.
pub open spec fn calm_block(block: BlockModel) -> bool {
    match block {
        BlockModel::Paragraph(parts) => calm_parts(parts),
        BlockModel::Code { lang, lines, open } => calm_all(lines),
        BlockModel::Table { header, rows } => calm_all(header) && forall|i: int|
            0 <= i < rows.len() ==> calm_all(#[trigger] rows[i]),
        BlockModel::List { items } => forall|i: int|
            0 <= i < items.len() ==> calm_parts(#[trigger] items[i]),
        BlockModel::Heading { level, text } => calm_parts(text),
        BlockModel::Quote { text } => calm_parts(text),
        BlockModel::Blank => true,
    }
}

proof fn lemma_calm_join(a: Seq<char>, b: Seq<char>)
    requires
        calm(a),
        calm(b),
    ensures
        calm(a + b),
{
    assert forall|i: int| 0 <= i < (a + b).len() implies #[trigger] (a + b)[i] != '\x1b' by {
        if i < a.len() {
            assert((a + b)[i] == a[i]);
        } else {
            assert((a + b)[i] == b[i - a.len()]);
        }
    }
}

/// The marks that rendering adds hold no escape character.
proof fn lemma_marks_are_calm()
    ensures
        calm("\n"@),
        calm(" "@),
        calm("• "@),
        calm("▌"@),
        calm("```"@),
        calm("│ "@),
        calm(" │ "@),
        calm(" │\n"@),
        calm(""@),
        calm("> "@),
{
    reveal_strlit("\n");
    reveal_strlit(" ");
    reveal_strlit("• ");
    reveal_strlit("▌");
    reveal_strlit("```");
    reveal_strlit("│ ");
    reveal_strlit(" │ ");
    reveal_strlit(" │\n");
    reveal_strlit("");
    reveal_strlit("> ");
}

proof fn lemma_calm_lines(lines: Seq<Seq<char>>)
    requires
        calm_all(lines),
    ensures
        render::ansi_lines(lines) == line_by_line(lines),
        calm(line_by_line(lines)),
    decreases lines.len(),
{
    lemma_marks_are_calm();
    if lines.len() > 0 {
        assert forall|i: int| 0 <= i < lines.drop_last().len() implies calm(
            #[trigger] lines.drop_last()[i],
        ) by {
            assert(lines.drop_last()[i] == lines[i]);
        }
        lemma_calm_lines(lines.drop_last());
        assert(calm(lines[lines.len() - 1]));
        lemma_calm_join(line_by_line(lines.drop_last()), lines.last());
        lemma_calm_join(line_by_line(lines.drop_last()) + lines.last(), "\n"@);
    }
}

proof fn lemma_calm_cells(row: Seq<Seq<char>>, widths: Seq<nat>, n: nat)
    requires
        calm_all(row),
        n <= row.len(),
    ensures
        calm(render::ansi_cells(row, widths, n)),
    decreases n,
{
    lemma_marks_are_calm();
    if n > 0 {
        let i = n - 1;
        lemma_calm_cells(row, widths, i as nat);
        let w = if i < widths.len() {
            widths[i]
        } else {
            0
        };
        let pad = if w > row[i].len() {
            (w - row[i].len()) as nat
        } else {
            0
        };
        let more = n < row.len();
        assert(calm(row[i]));
        assert(calm(render::repeated(' ', pad)));
        lemma_calm_join(row[i], render::repeated(' ', pad));
        lemma_calm_join(
            row[i] + render::repeated(' ', pad),
            if more {
                " │ "@
            } else {
                ""@
            },
        );
        lemma_calm_join(
            render::ansi_cells(row, widths, i as nat),
            render::cell_text(row[i], pad, more),
        );
    }
}

proof fn lemma_calm_row(row: Seq<Seq<char>>, widths: Seq<nat>)
    requires
        calm_all(row),
    ensures
        calm(render::ansi_row(row, widths)),
{
    lemma_marks_are_calm();
    lemma_calm_cells(row, widths, row.len());
    let cells = render::ansi_cells(row, widths, row.len());
    lemma_calm_join("│ "@, cells);
    lemma_calm_join("│ "@ + cells, " │\n"@);
}

proof fn lemma_calm_rows(rows: Seq<Seq<Seq<char>>>, widths: Seq<nat>)
    requires
        forall|i: int| 0 <= i < rows.len() ==> calm_all(#[trigger] rows[i]),
    ensures
        calm(render::ansi_rows(rows, widths)),
    decreases rows.len(),
{
    if rows.len() > 0 {
        assert forall|i: int| 0 <= i < rows.drop_last().len() implies calm_all(
            #[trigger] rows.drop_last()[i],
        ) by {
            assert(rows.drop_last()[i] == rows[i]);
        }
        lemma_calm_rows(rows.drop_last(), widths);
        assert(calm_all(rows[rows.len() - 1]));
        lemma_calm_row(rows.last(), widths);
        lemma_calm_join(
            render::ansi_rows(rows.drop_last(), widths),
            render::ansi_row(rows.last(), widths),
        );
    }
}

proof fn lemma_items(items: Seq<Seq<InlineModel>>)
    requires
        forall|i: int| 0 <= i < items.len() ==> calm_parts(#[trigger] items[i]),
    ensures
        neat(render::ansi_items(items)),
        stream::plain_of(render::ansi_items(items)) == item_by_item(items),
    decreases items.len(),
{
    if items.len() == 0 {
        lemma_calm_is_neat(Seq::empty());
    } else {
        assert forall|i: int| 0 <= i < items.drop_last().len() implies calm_parts(
            #[trigger] items.drop_last()[i],
        ) by {
            assert(items.drop_last()[i] == items[i]);
        }
        lemma_items(items.drop_last());
        assert(calm_parts(items[items.len() - 1]));
        lemma_parts(items.last());
        lemma_marks_are_calm();
        lemma_calm_is_neat("• "@);
        lemma_calm_is_neat("\n"@);
        let a = render::ansi_items(items.drop_last());
        let b = render::ansi_inlines(items.last());
        lemma_neat_join(a, "• "@);
        lemma_neat_join(a + "• "@, b);
        lemma_neat_join(a + "• "@ + b, "\n"@);
    }
}

proof fn lemma_block(block: BlockModel)
    requires
        calm_block(block),
    ensures
        neat(render::ansi_block(block)),
        stream::plain_of(render::ansi_block(block)) == seen(block),
{
    lemma_marks_are_calm();
    lemma_colors_are_unseen();
    lemma_calm_is_neat("\n"@);
    let none = Seq::<char>::empty();
    let reset = render::ANSI_RESET@;
    match block {
        BlockModel::Paragraph(parts) => {
            lemma_parts(parts);
            lemma_neat_join(render::ansi_inlines(parts), "\n"@);
        },
        BlockModel::Code { lang, lines, open } => {
            lemma_calm_lines(lines);
            let t = line_by_line(lines);
            let mark = if open {
                "▌"@
            } else {
                "```"@
            };
            lemma_calm_is_neat(t);
            lemma_calm_is_neat(mark);
            lemma_neat_join(render::ANSI_CODE@, t);
            lemma_neat_join(render::ANSI_CODE@ + t, mark);
            lemma_neat_join(render::ANSI_CODE@ + t + mark, reset);
            lemma_neat_join(render::ANSI_CODE@ + t + mark + reset, "\n"@);
            assert(none + t + mark + none + "\n"@ =~= t + mark + "\n"@);
        },
        BlockModel::Table { header, rows } => {
            let widths = render::column_widths(header, rows);
            lemma_calm_row(header, widths);
            lemma_calm_rows(rows, widths);
            lemma_calm_join(render::ansi_row(header, widths), render::ansi_rows(rows, widths));
            lemma_calm_is_neat(seen(block));
        },
        BlockModel::List { items } => {
            lemma_items(items);
        },
        BlockModel::Heading { level, text } => {
            lemma_parts(text);
            let color = render::heading_color(level);
            assert(neat(color));
            let signs = render::repeated('#', level);
            assert(calm(signs));
            lemma_calm_is_neat(signs);
            lemma_calm_is_neat(" "@);
            let t = render::ansi_inlines(text);
            lemma_neat_join(color, signs);
            lemma_neat_join(color + signs, " "@);
            lemma_neat_join(color + signs + " "@, t);
            lemma_neat_join(color + signs + " "@ + t, reset);
            lemma_neat_join(color + signs + " "@ + t + reset, "\n"@);
            assert(none + signs + " "@ + all_words(text) + none + "\n"@ =~= signs + " "@
                + all_words(text) + "\n"@);
        },
        BlockModel::Quote { text } => {
            lemma_parts(text);
            let t = render::ansi_inlines(text);
            lemma_neat_join(render::ANSI_QUOTE@, t);
            lemma_neat_join(render::ANSI_QUOTE@ + t, reset);
            lemma_neat_join(render::ANSI_QUOTE@ + t + reset, "\n"@);
            assert("> "@ + all_words(text) + none + "\n"@ =~= "> "@ + all_words(text) + "\n"@);
        },
        BlockModel::Blank => {},
    }
}

proof fn lemma_blocks(blocks: Seq<BlockModel>)
    requires
        forall|i: int| 0 <= i < blocks.len() ==> calm_block(#[trigger] blocks[i]),
    ensures
        neat(render::ansi_of(blocks)),
        stream::plain_of(render::ansi_of(blocks)) == all_seen(blocks),
    decreases blocks.len(),
{
    if blocks.len() == 0 {
        lemma_calm_is_neat(Seq::empty());
    } else {
        assert forall|i: int| 0 <= i < blocks.drop_last().len() implies calm_block(
            #[trigger] blocks.drop_last()[i],
        ) by {
            assert(blocks.drop_last()[i] == blocks[i]);
        }
        lemma_blocks(blocks.drop_last());
        assert(calm_block(blocks[blocks.len() - 1]));
        lemma_block(blocks.last());
        lemma_neat_join(render::ansi_of(blocks.drop_last()), render::ansi_block(blocks.last()));
    }
}

/// Of a coloured document, with the escape sequences removed, the words of all
/// blocks are left, one block behind the other, behind the marks of their kinds.
pub proof fn law_colors_keep_the_document(blocks: Seq<BlockModel>)
    requires
        forall|i: int| 0 <= i < blocks.len() ==> calm_block(#[trigger] blocks[i]),
    ensures
        stream::plain_of(render::ansi_of(blocks)) == all_seen(blocks),
{
    lemma_blocks(blocks);
}

// ---------------------------------------------------------------------------
// Tables
// ---------------------------------------------------------------------------

proof fn lemma_occurs_behind(a: Seq<char>, b: Seq<char>, pat: Seq<char>)
    requires
        text::contains(a, pat),
    ensures
        text::contains(a + b, pat),
        text::contains(b + a, pat),
{
    let i = choose|i: int| text::occurs_at(a, pat, i);
    assert((a + b).subrange(i, i + pat.len()) =~= a.subrange(i, i + pat.len()));
    assert(text::occurs_at(a + b, pat, i));
    let k = b.len() + i;
    assert((b + a).subrange(k, k + pat.len()) =~= a.subrange(i, i + pat.len()));
    assert(text::occurs_at(b + a, pat, k));
}

proof fn lemma_cell_shows(cell: Seq<char>, pad: nat, more: bool)
    ensures
        text::contains(render::cell_text(cell, pad, more), cell),
{
    let t = render::cell_text(cell, pad, more);
    assert(t.subrange(0, cell.len() as int) =~= cell);
    assert(text::occurs_at(t, cell, 0));
}

proof fn lemma_cells_show(row: Seq<Seq<char>>, widths: Seq<nat>, n: nat, k: int)
    requires
        0 <= k < n <= row.len(),
    ensures
        text::contains(render::ansi_cells(row, widths, n), row[k]),
        text::contains(render::row_cells(row, widths, n), row[k]),
    decreases n,
{
    let i = n - 1;
    let w = if i < widths.len() {
        widths[i]
    } else {
        0
    };
    let pad = if w > row[i].len() {
        (w - row[i].len()) as nat
    } else {
        0
    };
    let wide = if w > render::width(row[i]) {
        (w - render::width(row[i])) as nat
    } else {
        0
    };
    let more = n < row.len();
    let a = render::ansi_cells(row, widths, i as nat);
    let b = render::row_cells(row, widths, i as nat);
    if k < i {
        lemma_cells_show(row, widths, i as nat, k);
        lemma_occurs_behind(a, render::cell_text(row[i], pad, more), row[k]);
        lemma_occurs_behind(b, render::cell_text(row[i], wide, more), row[k]);
    } else {
        lemma_cell_shows(row[i], pad, more);
        lemma_cell_shows(row[i], wide, more);
        lemma_occurs_behind(render::cell_text(row[i], pad, more), a, row[k]);
        lemma_occurs_behind(render::cell_text(row[i], wide, more), b, row[k]);
    }
}

/// Every cell of a table's row is shown in it as it is, in the terminal's colours
/// and as styled lines.
pub proof fn law_rows_show_their_cells(row: Seq<Seq<char>>, widths: Seq<nat>, k: int)
    requires
        0 <= k < row.len(),
    ensures
        text::contains(render::ansi_row(row, widths), row[k]),
        text::contains(render::row_text(row, widths), row[k]),
{
    lemma_cells_show(row, widths, row.len(), k);
    let a = render::ansi_cells(row, widths, row.len());
    let b = render::row_cells(row, widths, row.len());
    lemma_occurs_behind(a, "│ "@, row[k]);
    lemma_occurs_behind("│ "@ + a, " │\n"@, row[k]);
    lemma_occurs_behind(b, "│ "@, row[k]);
    lemma_occurs_behind("│ "@ + b, " │"@, row[k]);
}

// ---------------------------------------------------------------------------
// Styled lines
// ---------------------------------------------------------------------------

/// The text of a styled line.
pub open spec fn line_words(line: Seq<SpanModel>) -> Seq<char>
    decreases line.len(),
{
    if line.len() == 0 {
        Seq::empty()
    } else {
        line_words(line.drop_last()) + line.last().content
    }
}

proof fn lemma_spans(parts: Seq<InlineModel>)
    ensures
        line_words(render::spans_of(parts)) == all_words(parts),
        render::plain_of(parts) == all_words(parts),
    decreases parts.len(),
{
    if parts.len() > 0 {
        lemma_spans(parts.drop_last());
        assert(render::spans_of(parts).drop_last() =~= render::spans_of(parts.drop_last()));
    }
}

proof fn lemma_single(content: Seq<char>, style: render::Style)
    ensures
        line_words(render::line_of(content, style)) == content,
{
    let l = render::line_of(content, style);
    assert(l.drop_last() =~= Seq::empty());
    assert(line_words(l.drop_last()) =~= Seq::empty());
    assert(Seq::<char>::empty() + content =~= content);
}

proof fn lemma_words_join(a: Seq<SpanModel>, b: Seq<SpanModel>)
    ensures
        line_words(a + b) == line_words(a) + line_words(b),
    decreases b.len(),
{
    if b.len() == 0 {
        assert(a + b =~= a);
        assert(line_words(a) + line_words(b) =~= line_words(a));
    } else {
        lemma_words_join(a, b.drop_last());
        assert((a + b).drop_last() =~= a + b.drop_last());
        assert(line_words(a) + (line_words(b.drop_last()) + b.last().content) =~= line_words(a)
            + line_words(b.drop_last()) + b.last().content);
    }
}

/// Styled lines keep the text: a paragraph, a heading, a quotation and an item of
/// a list are shown with all of their words at the end of a line, and a code
/// block with every one of its lines.
pub proof fn law_styled_lines_keep_the_words(
    parts: Seq<InlineModel>,
    level: nat,
    lang: Seq<char>,
    lines: Seq<Seq<char>>,
    open: bool,
    items: Seq<Seq<InlineModel>>,
    k: int,
)
    ensures
        ({
            let p = render::lines_of_block(BlockModel::Paragraph(parts));
            p.len() == 1 && line_words(p[0]) == all_words(parts)
        }),
        ({
            let h = render::lines_of_block(BlockModel::Heading { level, text: parts });
            h.len() == 1 && all_words(parts).is_suffix_of(line_words(h[0]))
        }),
        ({
            let q = render::lines_of_block(BlockModel::Quote { text: parts });
            q.len() == 1 && all_words(parts).is_suffix_of(line_words(q[0]))
        }),
        ({
            let c = render::lines_of_block(BlockModel::Code { lang, lines, open });
            &&& c.len() == lines.len() + 2
            &&& 0 <= k < lines.len() ==> lines[k].is_suffix_of(line_words(c[k + 1]))
        }),
        ({
            let l = render::lines_of_block(BlockModel::List { items });
            &&& l.len() == items.len()
            &&& 0 <= k < items.len() ==> all_words(items[k]).is_suffix_of(line_words(l[k]))
        }),
{
    lemma_spans(parts);
    let w = all_words(parts);
    let heading = render::repeated('#', level) + " "@ + w;
    lemma_single(heading, render::title_style(level));
    assert(heading.subrange(heading.len() - w.len(), heading.len() as int) =~= w);
    let quote = "> "@ + w;
    lemma_single(quote, render::colored(render::Color::Rgb(100, 150, 100)));
    assert(quote.subrange(quote.len() - w.len(), quote.len() as int) =~= w);
    if 0 <= k < lines.len() {
        let c = render::lines_of_block(BlockModel::Code { lang, lines, open });
        let t = "│ "@ + lines[k];
        lemma_single(t, render::code_line_style());
        assert(c[k + 1] == render::line_of(t, render::code_line_style()));
        assert(t.subrange(t.len() - lines[k].len(), t.len() as int) =~= lines[k]);
    }
    if 0 <= k < items.len() {
        let l = render::lines_of_block(BlockModel::List { items });
        let mark = seq![
            SpanModel { content: "•"@, style: render::colored(render::Color::Yellow) },
            SpanModel { content: " "@, style: render::plain() },
        ];
        assert(l[k] == mark + render::spans_of(items[k]));
        lemma_words_join(mark, render::spans_of(items[k]));
        lemma_spans(items[k]);
        let t = line_words(mark) + all_words(items[k]);
        assert(t.subrange(t.len() - all_words(items[k]).len(), t.len() as int) =~= all_words(
            items[k],
        ));
    }
}

/// A table is shown as its header and one line for each of its rows, in order and
/// within a frame.
pub proof fn law_tables_are_shown_row_by_row(
    header: Seq<Seq<char>>,
    rows: Seq<Seq<Seq<char>>>,
    r: int,
    k: int,
)
    ensures
        ({
            let t = render::lines_of_block(BlockModel::Table { header, rows });
            &&& t.len() == rows.len() + 4
            &&& 0 <= k < header.len() ==> text::contains(line_words(t[1]), header[k])
            &&& 0 <= r < rows.len() && 0 <= k < rows[r].len() ==> text::contains(
                line_words(t[r + 3]),
                rows[r][k],
            )
        }),
{
    let t = render::lines_of_block(BlockModel::Table { header, rows });
    let widths = render::column_widths(header, rows);
    let style = render::colored(render::Color::Cyan);
    assert(t[1] == render::line_of(render::row_text(header, widths), style));
    lemma_single(render::row_text(header, widths), style);
    if 0 <= k < header.len() {
        law_rows_show_their_cells(header, widths, k);
    }
    if 0 <= r < rows.len() {
        assert(t[r + 3] == render::line_of(render::row_text(rows[r], widths), style));
        lemma_single(render::row_text(rows[r], widths), style);
        if 0 <= k < rows[r].len() {
            law_rows_show_their_cells(rows[r], widths, k);
        }
    }
}

/// The marks of a text are shown by its style: bold text is bold, italic text is
/// italic, code stands out, and plain text has no style of its own.
pub proof fn law_marks_are_styles(s: Seq<char>)
    ensures
        render::span_of(InlineModel::Text(s)).style == render::plain(),
        render::span_of(InlineModel::Bold(s)).style.bold,
        !render::span_of(InlineModel::Bold(s)).style.italic,
        render::span_of(InlineModel::Italic(s)).style.italic,
        !render::span_of(InlineModel::Italic(s)).style.bold,
        render::span_of(InlineModel::Code(s)).style != render::plain(),
        render::ansi_inline(InlineModel::Text(s)) == s,
        render::ansi_inline(InlineModel::Bold(s)) != s,
        render::ansi_inline(InlineModel::Italic(s)) != s,
        render::ansi_inline(InlineModel::Code(s)) != s,
{
    reveal_strlit("\x1b[1m");
    reveal_strlit("\x1b[3m");
    reveal_strlit("\x1b[48;2;40;40;40m\x1b[38;2;220;120;120m");
    assert(render::ansi_inline(InlineModel::Bold(s)).len() > s.len());
    assert(render::ansi_inline(InlineModel::Italic(s)).len() > s.len());
    assert(render::ansi_inline(InlineModel::Code(s)).len() > s.len());
}

// ---------------------------------------------------------------------------
// Marks
// ---------------------------------------------------------------------------

/// How an inline part is written in Markdown.
pub open spec fn source(part: InlineModel) -> Seq<char> {
    match part {
        InlineModel::Text(s) => s,
        InlineModel::Code(s) => seq!['`'] + s + seq!['`'],
        InlineModel::Bold(s) => seq!['*', '*'] + s + seq!['*', '*'],
        InlineModel::Italic(s) => seq!['*'] + s + seq!['*'],
    }
}

/// How inline parts are written in Markdown.
pub open spec fn source_of(parts: Seq<InlineModel>) -> Seq<char>
    decreases parts.len(),
{
    if parts.len() == 0 {
        Seq::empty()
    } else {
        source(parts[0]) + source_of(parts.skip(1))
    }
}

proof fn lemma_source_join(a: Seq<InlineModel>, b: Seq<InlineModel>)
    ensures
        source_of(a + b) == source_of(a) + source_of(b),
    decreases a.len(),
{
    if a.len() == 0 {
        assert(a + b =~= b);
        assert(source_of(a) + source_of(b) =~= source_of(b));
    } else {
        lemma_source_join(a.skip(1), b);
        assert((a + b).skip(1) =~= a.skip(1) + b);
        assert(source(a[0]) + (source_of(a.skip(1)) + source_of(b)) =~= source(a[0]) + source_of(
            a.skip(1),
        ) + source_of(b));
    }
}

proof fn lemma_source_single(part: InlineModel)
    ensures
        source_of(seq![part]) == source(part),
{
    assert(seq![part].skip(1) =~= Seq::empty());
    assert(source_of(seq![part].skip(1)) =~= Seq::empty());
    assert(source(part) + Seq::<char>::empty() =~= source(part));
}

proof fn lemma_gathered(buf: Seq<char>)
    ensures
        source_of(render::gathered(buf)) == buf,
{
    if buf.len() > 0 {
        lemma_source_single(InlineModel::Text(buf));
    } else {
        assert(source_of(render::gathered(buf)) =~= buf);
    }
}

/// A special part is written as the text that it was read from; code that
/// nothing closes lacks its backquote.
proof fn lemma_mark_source(s: Seq<char>, i: int)
    requires
        0 <= i < s.len(),
    ensures
        render::mark_at(s, i) matches Some((part, n)) ==> {
            &&& i < n <= s.len()
            &&& source(part) == s.subrange(i, n) || n == s.len() && source(part) == s.subrange(
                i,
                n,
            ).push('`')
        },
{
    render::lemma_mark_at(s, i);
    render::lemma_next_at(s, '`', i + 1);
    render::lemma_next_at(s, '*', i + 1);
    render::lemma_next_double(s, i + 2);
    match render::mark_at(s, i) {
        Some((part, n)) => {
            match part {
                InlineModel::Code(c) => {
                    let j = render::next_at(s, '`', i + 1);
                    if j < s.len() {
                        assert(source(part) =~= s.subrange(i, n));
                    } else {
                        assert(source(part) =~= s.subrange(i, n).push('`'));
                    }
                },
                InlineModel::Bold(c) => {
                    assert(source(part) =~= s.subrange(i, n));
                },
                InlineModel::Italic(c) => {
                    assert(source(part) =~= s.subrange(i, n));
                },
                InlineModel::Text(c) => {},
            }
        },
        None => {},
    }
}

proof fn lemma_source_from(s: Seq<char>, i: int, buf: Seq<char>)
    requires
        0 <= i <= s.len(),
    ensures
        ({
            let t = source_of(render::inlines_from(s, i, buf));
            t == buf + s.skip(i) || t == (buf + s.skip(i)).push('`')
        }),
    decreases s.len() - i,
{
    if i >= s.len() {
        lemma_gathered(buf);
        assert(buf + s.skip(i) =~= buf);
    } else {
        lemma_mark_source(s, i);
        match render::mark_at(s, i) {
            Some((part, n)) => {
                let none = Seq::<char>::empty();
                let rest = render::inlines_from(s, n, none);
                lemma_source_from(s, n, none);
                lemma_gathered(buf);
                lemma_source_single(part);
                lemma_source_join(render::gathered(buf), seq![part]);
                lemma_source_join(render::gathered(buf) + seq![part], rest);
                assert(s.subrange(i, n) + s.skip(n) =~= s.skip(i));
                let t = source_of(render::inlines_from(s, i, buf));
                assert(t == buf + source(part) + source_of(rest));
                if source(part) == s.subrange(i, n) {
                    if source_of(rest) == none + s.skip(n) {
                        assert(t =~= buf + s.skip(i));
                    } else {
                        assert(t =~= (buf + s.skip(i)).push('`'));
                    }
                } else {
                    assert(rest == render::gathered(none));
                    lemma_gathered(none);
                    assert(t =~= (buf + s.skip(i)).push('`'));
                }
            },
            None => {
                lemma_source_from(s, i + 1, buf.push(s[i]));
                assert(buf.push(s[i]) + s.skip(i + 1) =~= buf + s.skip(i));
            },
        }
    }
}

/// Reading the marks of a text loses nothing: the parts, written with their marks
/// one behind the other, are the text again, but for a backquote behind code that
/// nothing closes.
pub proof fn law_parts_make_up_the_text(s: Seq<char>)
    ensures
        source_of(render::inlines_of(s)) == s || source_of(render::inlines_of(s)) == s.push('`'),
{
    lemma_source_from(s, 0, Seq::empty());
    assert(Seq::<char>::empty() + s.skip(0) =~= s);
}

/// Whether a text holds no mark.
pub open spec fn unmarked(s: Seq<char>) -> bool {
    forall|i: int| 0 <= i < s.len() ==> #[trigger] s[i] != '`' && s[i] != '*'
}

proof fn lemma_gather_plain(s: Seq<char>, i: int, n: int)
    requires
        0 <= i <= n <= s.len(),
        forall|k: int| 0 <= k < n ==> #[trigger] s[k] != '`' && s[k] != '*',
    ensures
        render::inlines_from(s, i, s.take(i)) == render::inlines_from(s, n, s.take(n)),
    decreases n - i,
{
    if i < n {
        assert(s[i] != '`' && s[i] != '*');
        assert(s.take(i).push(s[i]) =~= s.take(i + 1));
        lemma_gather_plain(s, i + 1, n);
    }
}

proof fn lemma_next_mark(s: Seq<char>, c: char, i: int, j: int)
    requires
        0 <= i <= j < s.len(),
        s[j] == c,
        forall|k: int| i <= k < j ==> #[trigger] s[k] != c,
    ensures
        render::next_at(s, c, i) == j,
    decreases j - i,
{
    if i < j {
        assert(s[i] != c);
        lemma_next_mark(s, c, i + 1, j);
    }
}

proof fn lemma_next_pair(s: Seq<char>, i: int, j: int)
    requires
        0 <= i <= j,
        j + 1 < s.len(),
        s[j] == '*',
        s[j + 1] == '*',
        forall|k: int| i <= k < j ==> #[trigger] s[k] != '*',
    ensures
        render::next_double(s, i) == Some(j),
    decreases j - i,
{
    if i < j {
        assert(s[i] != '*');
        lemma_next_pair(s, i + 1, j);
    }
}

proof fn lemma_one_mark(s: Seq<char>, a: Seq<char>, part: InlineModel)
    requires
        unmarked(a),
        s.len() > a.len(),
        s.take(a.len() as int) == a,
        render::mark_at(s, a.len() as int) == Some((part, s.len() as int)),
    ensures
        render::inlines_of(s) == render::gathered(a) + seq![part],
{
    let n = a.len() as int;
    assert forall|k: int| 0 <= k < n implies #[trigger] s[k] != '`' && s[k] != '*' by {
        assert(s.take(n)[k] == s[k]);
        assert(a[k] != '`' && a[k] != '*');
    }
    assert(s.take(0) =~= Seq::empty());
    lemma_gather_plain(s, 0, n);
    assert(render::inlines_from(s, s.len() as int, Seq::empty()) =~= Seq::empty());
    assert(render::gathered(a) + seq![part] + Seq::<InlineModel>::empty() =~= render::gathered(a)
        + seq![part]);
}

/// Marks are read as what they mean: text between backquotes is code, between
/// double asterisks bold, and between single ones italic, behind the plain text
/// before them.
pub proof fn law_marks_are_read(a: Seq<char>, w: Seq<char>)
    requires
        unmarked(a),
        unmarked(w),
    ensures
        render::inlines_of(a + seq!['`'] + w + seq!['`']) == render::gathered(a) + seq![
            InlineModel::Code(w),
        ],
        render::inlines_of(a + seq!['*', '*'] + w + seq!['*', '*']) == render::gathered(a) + seq![
            InlineModel::Bold(w),
        ],
        w.len() > 0 ==> render::inlines_of(a + seq!['*'] + w + seq!['*']) == render::gathered(a)
            + seq![InlineModel::Italic(w)],
        a.len() > 0 ==> render::gathered(a) == seq![InlineModel::Text(a)],
        a.len() == 0 ==> render::gathered(a).len() == 0,
{
    let n = a.len() as int;
    let m = w.len() as int;
    let code = a + seq!['`'] + w + seq!['`'];
    assert forall|k: int| n + 1 <= k < n + 1 + m implies #[trigger] code[k] != '`' by {
        assert(code[k] == w[k - n - 1]);
    }
    lemma_next_mark(code, '`', n + 1, n + 1 + m);
    assert(code.subrange(n + 1, n + 1 + m) =~= w);
    assert(code.take(n) =~= a);
    lemma_one_mark(code, a, InlineModel::Code(w));
    let bold = a + seq!['*', '*'] + w + seq!['*', '*'];
    assert forall|k: int| n + 2 <= k < n + 2 + m implies #[trigger] bold[k] != '*' by {
        assert(bold[k] == w[k - n - 2]);
    }
    lemma_next_pair(bold, n + 2, n + 2 + m);
    assert(bold.subrange(n + 2, n + 2 + m) =~= w);
    assert(bold.take(n) =~= a);
    lemma_one_mark(bold, a, InlineModel::Bold(w));
    if m > 0 {
        let italic = a + seq!['*'] + w + seq!['*'];
        assert forall|k: int| n + 1 <= k < n + 1 + m implies #[trigger] italic[k] != '*' by {
            assert(italic[k] == w[k - n - 1]);
        }
        assert(italic[n + 1] == w[0]);
        lemma_next_mark(italic, '*', n + 1, n + 1 + m);
        assert(italic.subrange(n + 1, n + 1 + m) =~= w);
        assert(italic.take(n) =~= a);
        lemma_one_mark(italic, a, InlineModel::Italic(w));
    }
}

// ---------------------------------------------------------------------------
// Lines
// ---------------------------------------------------------------------------

proof fn lemma_run(c: char, n: nat, rest: Seq<char>)
    requires
        rest.len() == 0 || rest[0] != c,
    ensures
        text::run_length(render::repeated(c, n) + rest, c) == n,
    decreases n,
{
    let s = render::repeated(c, n) + rest;
    if n > 0 {
        assert(s[0] == c);
        assert(s.skip(1) =~= render::repeated(c, (n - 1) as nat) + rest);
        lemma_run(c, (n - 1) as nat, rest);
    } else {
        assert(s =~= rest);
    }
}

proof fn lemma_space_before(c: Seq<char>)
    requires
        text::tight(c),
    ensures
        text::trimmed(seq![' '] + c) == c,
        text::trimmed(seq![' '] + c + seq![' ']) == c,
{
    let one = seq![' '];
    let none = Seq::<char>::empty();
    text::lemma_trim_pads(one, c, none);
    text::lemma_trim_pads(one, c, one);
    assert(one + c + none =~= one + c);
}

/// A line with one to six number signs and a text is a heading of that level
/// with that text.
pub proof fn law_heading_is_read(level: nat, c: Seq<char>, lines: Seq<Seq<char>>, i: int)
    requires
        1 <= level <= 6,
        c.len() > 0,
        text::tight(c),
        0 <= i < lines.len(),
        lines[i] == render::repeated('#', level) + (seq![' '] + c),
    ensures
        render::block_at(lines, i) == (
            BlockModel::Heading { level, text: render::inlines_of(c) },
            i + 1,
        ),
{
    let line = lines[i];
    let rest = seq![' '] + c;
    lemma_run('#', level, rest);
    lemma_space_before(c);
    assert(line[0] == '#');
    assert(line.last() == c.last());
    text::lemma_tight(line);
    assert(line.skip(level as int) =~= rest);
    reveal_strlit("```");
    reveal_strlit("~~~");
    assert("```"@[0] == '`' && "~~~"@[0] == '~');
}

/// A line behind a greater-than sign is a quotation of that text.
pub proof fn law_quote_is_read(c: Seq<char>, lines: Seq<Seq<char>>, i: int)
    requires
        c.len() > 0,
        text::tight(c),
        0 <= i < lines.len(),
        lines[i] == seq!['>', ' '] + c,
    ensures
        render::block_at(lines, i) == (BlockModel::Quote { text: render::inlines_of(c) }, i + 1),
{
    let line = lines[i];
    lemma_space_before(c);
    assert(line[0] == '>');
    assert(line.last() == c.last());
    text::lemma_tight(line);
    assert(line.skip(1) =~= seq![' '] + c);
    reveal_strlit("```");
    reveal_strlit("~~~");
    assert("```"@[0] == '`' && "~~~"@[0] == '~');
}

/// A line behind a dash is an item of a list with that text, which stands first
/// in its list.
pub proof fn law_item_is_read(c: Seq<char>, lines: Seq<Seq<char>>, i: int)
    requires
        c.len() > 0,
        text::tight(c),
        !c.contains('|'),
        0 <= i < lines.len(),
        lines[i] == seq!['-', ' '] + c,
    ensures
        render::item_of(lines[i]) == Some(c),
        render::block_at(lines, i).0 is List,
        render::block_at(lines, i).0->items.len() > 0,
        render::block_at(lines, i).0->items[0] == render::inlines_of(c),
        i + 1 < lines.len() && render::item_of(lines[i + 1]) is Some ==> {
            &&& render::block_at(lines, i).0->items.len() > 1
            &&& render::block_at(lines, i).0->items[1] == render::inlines_of(
                render::item_of(lines[i + 1])->0,
            )
        },
{
    let line = lines[i];
    lemma_space_before(c);
    assert(line[0] == '-');
    assert(line.last() == c.last());
    text::lemma_tight(line);
    assert(line.skip(1) =~= seq![' '] + c);
    reveal_strlit("```");
    reveal_strlit("~~~");
    assert("```"@[0] == '`' && "~~~"@[0] == '~');
    if line.contains('|') {
        let k = choose|k: int| 0 <= k < line.len() && line[k] == '|';
        assert(c[k - 2] == '|');
    }
    assert(!render::table_separator(line));
    assert(render::heading_of(line) is None);
    if i + 1 < lines.len() && render::item_of(lines[i + 1]) is Some {
        let t = text::trimmed(lines[i + 1]);
        assert(!text::blank(lines[i + 1])) by {
            if t.len() == 0 {
                assert(render::digit_run(t) == 0);
            }
        }
    }
}

/// Lines without any mark of a block are one paragraph that holds them all, with
/// line feeds between them.
pub proof fn law_paragraph_is_read(lines: Seq<Seq<char>>)
    requires
        lines.len() > 0,
        forall|i: int|
            0 <= i < lines.len() ==> !text::blank(#[trigger] lines[i]) && !render::fence(lines[i])
                && render::heading_of(lines[i]) is None && render::quote_of(lines[i]) is None
                && render::item_of(lines[i]) is None && !lines[i].contains('|'),
    ensures
        render::blocks_from(lines, 0) == seq![
            BlockModel::Paragraph(render::inlines_of(text::joined(lines, "\n"@))),
        ],
{
    lemma_no_stop(lines, 1);
    assert(!text::blank(lines[0]));
    let end = render::paragraph_end(lines, 1);
    assert(end == lines.len());
    assert(lines.subrange(0, end) =~= lines);
    let rest = render::blocks_from(lines, end);
    assert(rest =~= Seq::empty());
    let p = BlockModel::Paragraph(render::inlines_of(text::joined(lines, "\n"@)));
    assert(render::block_at(lines, 0) == (p, end));
    assert(seq![p] + rest =~= seq![p]);
}

proof fn lemma_no_stop(lines: Seq<Seq<char>>, i: int)
    requires
        0 <= i <= lines.len(),
        forall|i: int|
            0 <= i < lines.len() ==> !text::blank(#[trigger] lines[i]) && !render::fence(lines[i])
                && render::heading_of(lines[i]) is None && render::quote_of(lines[i]) is None
                && render::item_of(lines[i]) is None && !lines[i].contains('|'),
    ensures
        render::paragraph_end(lines, i) == lines.len(),
    decreases lines.len() - i,
{
    if i < lines.len() {
        assert(!text::blank(lines[i]));
        lemma_no_stop(lines, i + 1);
    }
}

/// The cells of a row with a space on either side.
spec fn spaced(cells: Seq<Seq<char>>) -> Seq<Seq<char>> {
    cells.map_values(|c: Seq<char>| seq![' '] + c + seq![' '])
}

proof fn lemma_spaced_join(cells: Seq<Seq<char>>)
    requires
        cells.len() > 0,
    ensures
        seq![' '] + text::joined(cells, seq![' ', '|', ' ']) + seq![' '] == text::joined(
            spaced(cells),
            seq!['|'],
        ),
    decreases cells.len(),
{
    let bar = seq![' ', '|', ' '];
    if cells.len() == 1 {
        assert(text::joined(cells, bar) == cells[0]);
        assert(spaced(cells)[0] == seq![' '] + cells[0] + seq![' ']);
    } else {
        let d = cells.drop_last();
        lemma_spaced_join(d);
        assert(spaced(cells).drop_last() =~= spaced(d));
        assert(spaced(cells).last() == seq![' '] + cells.last() + seq![' ']);
        assert(seq![' '] + (text::joined(d, bar) + bar + cells.last()) + seq![' '] =~= (seq![' ']
            + text::joined(d, bar) + seq![' ']) + seq!['|'] + (seq![' '] + cells.last() + seq![
            ' ',
        ]));
    }
}

proof fn lemma_no_run_behind(s: Seq<char>, c: char)
    requires
        s.len() > 0,
        s.last() != c,
    ensures
        text::without_trailing(s, c) == s,
        text::without_trailing(s.push(c), c) == s,
{
    assert(s.push(c).drop_last() =~= s);
}

/// A row of a table is read cell by cell: cells between bars, with a space on
/// either side, are those cells again.
pub proof fn law_cells_are_read(cells: Seq<Seq<char>>)
    requires
        cells.len() > 0,
        forall|i: int|
            0 <= i < cells.len() ==> text::tight(#[trigger] cells[i]) && !cells[i].contains('|'),
    ensures
        render::cells_of(
            seq!['|', ' '] + text::joined(cells, seq![' ', '|', ' ']) + seq![' ', '|'],
        ) == cells,
{
    let body = text::joined(cells, seq![' ', '|', ' ']);
    let line = seq!['|', ' '] + body + seq![' ', '|'];
    assert(line[0] == '|');
    assert(line.last() == '|');
    text::lemma_tight(line);
    let inner = seq![' '] + body + seq![' '];
    lemma_run('|', 1, inner.push('|'));
    assert(render::repeated('|', 1) + inner.push('|') =~= line);
    assert(text::without_leading(line, '|') =~= inner.push('|'));
    lemma_no_run_behind(inner, '|');
    lemma_spaced_join(cells);
    let v = spaced(cells);
    assert forall|i: int| 0 <= i < v.len() implies !(#[trigger] v[i]).contains('|') by {
        let w = seq![' '] + cells[i] + seq![' '];
        assert(v[i] == w);
        assert(!cells[i].contains('|'));
        if w.contains('|') {
            let k = choose|k: int| 0 <= k < w.len() && w[k] == '|';
            assert(cells[i][k - 1] == '|');
        }
    }
    text_laws::law_joined_parts_are_split(v, '|');
    let got = render::cells_of(line);
    assert forall|i: int| 0 <= i < cells.len() implies got[i] == cells[i] by {
        assert(text::tight(cells[i]));
        lemma_space_before(cells[i]);
        assert(v[i] == seq![' '] + cells[i] + seq![' ']);
    }
    assert(got =~= cells);
}

/// A table is read from its header, the separator and the rows below, each with
/// its cells, up to the first line that is no row.
pub proof fn law_table_is_read(lines: Seq<Seq<char>>, i: int, k: int)
    requires
        0 <= i,
        i + 1 < lines.len(),
        render::table_at(lines, i),
        !render::fence(lines[i]),
        render::heading_of(lines[i]) is None,
        render::quote_of(lines[i]) is None,
        render::item_of(lines[i]) is None,
    ensures
        ({
            let (block, end) = render::block_at(lines, i);
            &&& block is Table
            &&& block->header == render::cells_of(lines[i])
            &&& i + 2 <= end <= lines.len()
            &&& block->rows.len() == end - i - 2
            &&& 0 <= k < block->rows.len() ==> block->rows[k] == render::cells_of(lines[i + 2 + k])
                && render::table_row(lines[i + 2 + k])
            &&& end < lines.len() ==> !render::table_row(lines[end])
        }),
{
    lemma_all_rows(lines, i + 2);
    let end = render::rows_end(lines, i + 2);
    let block = render::block_at(lines, i).0;
    if 0 <= k < end - i - 2 {
        let l = lines[i + 2 + k];
        assert(lines.subrange(i + 2, end)[k] == l);
        text::law_trim_idempotent(l);
    }
}

proof fn lemma_all_rows(lines: Seq<Seq<char>>, i: int)
    requires
        0 <= i <= lines.len(),
    ensures
        i <= render::rows_end(lines, i) <= lines.len(),
        forall|k: int| i <= k < render::rows_end(lines, i) ==> render::table_row(#[trigger] lines[k]),
        render::rows_end(lines, i) < lines.len() ==> !render::table_row(
            lines[render::rows_end(lines, i)],
        ),
    decreases lines.len() - i,
{
    if i < lines.len() && render::table_row(lines[i]) {
        lemma_all_rows(lines, i + 1);
    }
}

/// A document is read line by line and block by block: no line is left out
/// between a block and the next.
pub proof fn law_blocks_follow_each_other(lines: Seq<Seq<char>>, i: int)
    requires
        0 <= i < lines.len(),
    ensures
        ({
            let (block, end) = render::block_at(lines, i);
            &&& i < end <= lines.len()
            &&& render::blocks_from(lines, i).len() == 1 + render::blocks_from(lines, end).len()
            &&& render::blocks_from(lines, i)[0] == block
            &&& render::blocks_from(lines, i).skip(1) == render::blocks_from(lines, end)
        }),
        text::blank(lines[i]) ==> render::block_at(lines, i) == (BlockModel::Blank, i + 1),
{
    render::lemma_block_at(lines, i);
    let (block, end) = render::block_at(lines, i);
    let rest = render::blocks_from(lines, end);
    assert((seq![block] + rest).skip(1) =~= rest);
    if text::blank(lines[i]) {
        let t = text::trimmed(lines[i]);
        assert(t.len() == 0);
        reveal_strlit("```");
        reveal_strlit("~~~");
        assert(!render::fence(lines[i]));
        assert(text::run_length(t, '#') == 0);
        assert(render::digit_run(t) == 0);
        if render::table_at(lines, i) {
            text::lemma_blank(lines[i]);
            let k = choose|k: int| 0 <= k < lines[i].len() && lines[i][k] == '|';
            assert(text::space(lines[i][k]));
        }
    }
}

/// What the user sees of a reply is the reply, rendered, behind the thoughts;
/// colours are the only difference that the terminal makes.
pub proof fn law_reply_is_shown(m: stream::PrinterModel)
    ensures
        text::blank(m.reasoning) && !text::blank(m.content) && m.use_color ==> stream::shown(m)
            == render::ansi_of(render::blocks_of(m.content)),
        text::blank(m.reasoning) && !text::blank(m.content) && !m.use_color ==> stream::shown(m)
            == stream::plain_of(render::ansi_of(render::blocks_of(m.content))),
        !text::blank(m.reasoning) ==> text::contains(
            stream::shown(m),
            stream::plain_of(m.reasoning),
        ),
{
    let none = Seq::<char>::empty();
    let body = stream::content_text(m.content, m.use_color);
    assert(none + body =~= body);
    if !text::blank(m.reasoning) {
        let p = stream::plain_of(m.reasoning);
        let t = stream::shown(m);
        let head = (if m.use_color {
            "\x1b[2m"@
        } else {
            ""@
        }) + "[생각] "@;
        assert(t.subrange(head.len() as int, (head.len() + p.len()) as int) =~= p);
        assert(text::occurs_at(t, p, head.len() as int));
    }
}

} // verus!
