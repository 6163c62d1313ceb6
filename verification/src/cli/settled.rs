//! Beginnings of a document whose blocks do not change by what follows.
//!
//! An empty line ends a paragraph, a table, a heading and a quotation. Only an
//! open code block and a list may go on behind it.
use vstd::prelude::*;

use crate::render::{Block, BlockModel};
use crate::render;
use crate::text;

verus! {

/// Whether blocks end with a blank line that lies in no code block and follows
/// no list.
pub open spec fn closed(blocks: Seq<BlockModel>) -> bool {
    blocks.len() > 0 && blocks.last() is Blank && !ends_with_list(blocks)
}

/// Whether the last block that is not a blank line is a list.
pub open spec fn ends_with_list(blocks: Seq<BlockModel>) -> bool
    decreases blocks.len(),
{
    if blocks.len() == 0 {
        false
    } else if blocks.last() is Blank {
        ends_with_list(blocks.drop_last())
    } else {
        blocks.last() is List
    }
}

/// Whether blocks end with a blank line that lies in no code block and follows
/// no list.
pub fn is_closed(blocks: &[Block]) -> (r: bool)
    ensures
        r == closed(render::block_views(blocks@)),
{
    let ghost all = render::block_views(blocks@);
    if blocks.len() == 0 {
        return false;
    }
    match &blocks[blocks.len() - 1] {
        Block::Blank => {},
        _ => {
            return false;
        },
    }
    let mut n: usize = blocks.len();
    proof {
        assert(all.take(n as int) =~= all);
    }
    while n > 0
        invariant
            n <= blocks.len(),
            all == render::block_views(blocks@),
            ends_with_list(all.take(n as int)) == ends_with_list(all),
            all.len() > 0,
            all.last() is Blank,
        decreases n,
    {
        proof {
            assert(all.take(n as int).drop_last() =~= all.take(n - 1));
            assert(all.take(n as int).last() == blocks@[n - 1]@);
        }
        match &blocks[n - 1] {
            Block::Blank => {},
            Block::List { .. } => {
                return false;
            },
            _ => {
                return true;
            },
        }
        n = n - 1;
    }
    true
}

// ---------------------------------------------------------------------------
// Lines
// ---------------------------------------------------------------------------

/// Where a character occurs first.
proof fn lemma_first(s: Seq<char>, c: char, i: int)
    requires
        0 <= i < s.len(),
        s[i] == c,
        forall|j: int| 0 <= j < i ==> s[j] != c,
    ensures
        text::find(s, seq![c]) == Some(i),
{
    text::lemma_find_from(s, seq![c], 0);
    assert(s.subrange(i, i + 1) =~= seq![c]);
    assert(text::occurs_at(s, seq![c], i));
    if let Some(k) = text::find(s, seq![c]) {
        assert(s.subrange(k, k + 1)[0] == s[k]);
    }
}

/// The lines of two texts with a separator between them are the lines of the
/// first and those of the second.
pub proof fn lemma_split_between(a: Seq<char>, b: Seq<char>, c: char)
    ensures
        text::split_on(a + seq![c] + b, c) == text::split_on(a, c) + text::split_on(b, c),
    decreases a.len(),
{
    let s = a + seq![c] + b;
    text::lemma_find_from(a, seq![c], 0);
    match text::find(a, seq![c]) {
        Some(i) => {
            assert(a.subrange(i, i + 1)[0] == a[i]);
            assert forall|j: int| 0 <= j < i implies s[j] != c by {
                assert(a.subrange(j, j + 1) =~= seq![a[j]]);
                assert(!text::occurs_at(a, seq![c], j));
                assert(s[j] == a[j]);
                if a[j] == c {
                    assert(a.subrange(j, j + 1) =~= seq![c]);
                }
            }
            assert(s[i] == a[i]);
            lemma_first(s, c, i);
            assert(s.take(i) =~= a.take(i));
            assert(s.skip(i + 1) =~= a.skip(i + 1) + seq![c] + b);
            lemma_split_between(a.skip(i + 1), b, c);
            assert(text::split_on(s, c) =~= text::split_on(a, c) + text::split_on(b, c));
        },
        None => {
            let n = a.len() as int;
            assert forall|j: int| 0 <= j < n implies s[j] != c by {
                assert(!text::occurs_at(a, seq![c], j));
                assert(s[j] == a[j]);
                if a[j] == c {
                    assert(a.subrange(j, j + 1) =~= seq![c]);
                }
            }
            assert(s[n] == c);
            lemma_first(s, c, n);
            assert(s.take(n) =~= a);
            assert(s.skip(n + 1) =~= b);
            assert(text::split_on(a, c) =~= seq![a]);
            assert(text::split_on(s, c) =~= seq![a] + text::split_on(b, c));
        },
    }
}

// ---------------------------------------------------------------------------
// Blocks
// ---------------------------------------------------------------------------

/// A blank line begins no block but a blank one, and is no part of a table.
proof fn lemma_blank_line(line: Seq<char>)
    requires
        text::blank(line),
    ensures
        !render::fence(line),
        render::heading_of(line) is None,
        render::quote_of(line) is None,
        render::item_of(line) is None,
        !render::table_separator(line),
        !render::table_row(line),
        !line.contains('|'),
{
    reveal_strlit("```");
    reveal_strlit("~~~");
    assert("```"@.len() == 3);
    assert("~~~"@.len() == 3);
    text::lemma_blank(line);
    let t = text::trimmed(line);
    assert(t.skip(0) =~= t);
    assert(!t.contains('|'));
    if line.contains('|') {
        let i = choose|i: int| 0 <= i < line.len() && line[i] == '|';
        assert(text::space(line[i]));
    }
}

/// A fence within the beginning of a document is the next one in the document.
proof fn lemma_fence_cut(lines: Seq<Seq<char>>, n: int, i: int)
    requires
        0 <= i <= n <= lines.len(),
        render::next_fence(lines.take(n), i) < n,
    ensures
        render::next_fence(lines, i) == render::next_fence(lines.take(n), i),
    decreases n - i,
{
    if i < n {
        assert(lines.take(n)[i] == lines[i]);
        if !render::fence(lines[i]) {
            lemma_fence_cut(lines, n, i + 1);
        }
    }
}

/// Rows end before a blank line.
proof fn lemma_rows_cut(lines: Seq<Seq<char>>, n: int, i: int)
    requires
        0 <= i < n <= lines.len(),
        text::blank(lines[n - 1]),
    ensures
        render::rows_end(lines, i) == render::rows_end(lines.take(n), i),
        render::rows_end(lines, i) < n,
    decreases n - i,
{
    assert(lines.take(n)[i] == lines[i]);
    lemma_blank_line(lines[n - 1]);
    if render::table_row(lines[i]) {
        lemma_rows_cut(lines, n, i + 1);
    }
}

/// A paragraph ends before a blank line.
proof fn lemma_paragraph_cut(lines: Seq<Seq<char>>, n: int, i: int)
    requires
        0 <= i < n <= lines.len(),
        text::blank(lines[n - 1]),
    ensures
        render::paragraph_end(lines, i) == render::paragraph_end(lines.take(n), i),
        render::paragraph_end(lines, i) < n,
    decreases n - i,
{
    let short = lines.take(n);
    assert(short[i] == lines[i]);
    if i < n - 1 {
        assert(short[i + 1] == lines[i + 1]);
        assert(render::paragraph_stop(short, i) == render::paragraph_stop(lines, i));
        if !render::paragraph_stop(lines, i) {
            lemma_paragraph_cut(lines, n, i + 1);
        }
    }
}

/// The next line that is not blank, where it lies in the beginning.
proof fn lemma_filled_cut(lines: Seq<Seq<char>>, n: int, i: int)
    requires
        0 <= i <= n <= lines.len(),
    ensures
        render::next_filled(lines.take(n), i) < n ==> render::next_filled(lines, i)
            == render::next_filled(lines.take(n), i),
        render::next_filled(lines.take(n), i) >= n ==> forall|k: int|
            i <= k < n ==> text::blank(#[trigger] lines[k]),
    decreases n - i,
{
    if i < n {
        assert(lines.take(n)[i] == lines[i]);
        if text::blank(lines[i]) {
            lemma_filled_cut(lines, n, i + 1);
        }
    }
}

/// The items of a list are those of the beginning, unless only blank lines
/// follow the list there.
proof fn lemma_items_cut(lines: Seq<Seq<char>>, n: int, i: int)
    requires
        0 <= i <= n <= lines.len(),
        n > 0,
        text::blank(lines[n - 1]),
    ensures
        render::items_from(lines, i) == render::items_from(lines.take(n), i) || forall|k: int|
            render::items_from(lines.take(n), i).1 <= k < n ==> text::blank(#[trigger] lines[k]),
    decreases n - i,
{
    let short = lines.take(n);
    if i < n {
        render::lemma_next_filled(short, i);
        lemma_filled_cut(lines, n, i);
        let j = render::next_filled(short, i);
        if j < n {
            assert(short[j] == lines[j]);
            if render::item_of(lines[j]) is Some {
                lemma_items_cut(lines, n, j + 1);
            }
        }
    }
}

/// Blank lines are blank blocks.
proof fn lemma_only_blanks(lines: Seq<Seq<char>>, i: int)
    requires
        0 <= i <= lines.len(),
        forall|k: int| i <= k < lines.len() ==> text::blank(#[trigger] lines[k]),
    ensures
        forall|k: int|
            0 <= k < render::blocks_from(lines, i).len() ==> (#[trigger] render::blocks_from(
                lines,
                i,
            )[k]) is Blank,
    decreases lines.len() - i,
{
    if i < lines.len() {
        lemma_blank_line(lines[i]);
        lemma_only_blanks(lines, i + 1);
        let rest = render::blocks_from(lines, i + 1);
        let all = render::blocks_from(lines, i);
        assert(all =~= seq![BlockModel::Blank] + rest);
        assert forall|k: int| 0 <= k < all.len() implies (#[trigger] all[k]) is Blank by {
            if k > 0 {
                assert(all[k] == rest[k - 1]);
            }
        }
    }
}

/// Blocks that are a list and blank lines end with the list.
proof fn lemma_list_and_blanks(list: BlockModel, blanks: Seq<BlockModel>)
    requires
        list is List,
        forall|k: int| 0 <= k < blanks.len() ==> (#[trigger] blanks[k]) is Blank,
    ensures
        ends_with_list(seq![list] + blanks),
    decreases blanks.len(),
{
    let all = seq![list] + blanks;
    if blanks.len() > 0 {
        assert(all.last() == blanks.last());
        assert(all.drop_last() =~= seq![list] + blanks.drop_last());
        lemma_list_and_blanks(list, blanks.drop_last());
    } else {
        assert(all.last() == list);
    }
}

/// Blocks that are closed are closed without their first one, unless there is
/// no other.
proof fn lemma_closed_rest(first: BlockModel, rest: Seq<BlockModel>)
    requires
        rest.len() > 0,
    ensures
        closed(seq![first] + rest) ==> closed(rest),
{
    let all = seq![first] + rest;
    assert(all.last() == rest.last());
    lemma_list_in_rest(first, rest);
}

/// Blocks whose end is a list end with it whatever comes first.
proof fn lemma_list_in_rest(first: BlockModel, rest: Seq<BlockModel>)
    ensures
        ends_with_list(rest) ==> ends_with_list(seq![first] + rest),
    decreases rest.len(),
{
    if rest.len() > 0 {
        let all = seq![first] + rest;
        assert(all.last() == rest.last());
        assert(all.drop_last() =~= seq![first] + rest.drop_last());
        lemma_list_in_rest(first, rest.drop_last());
    }
}

/// The block at a line of the beginning of a document is the block at that line
/// of the document, where the beginning is closed.
proof fn lemma_block_cut(lines: Seq<Seq<char>>, n: int, i: int)
    requires
        0 <= i < n <= lines.len(),
        text::blank(lines[n - 1]),
        closed(render::blocks_from(lines.take(n), i)),
    ensures
        render::block_at(lines, i) == render::block_at(lines.take(n), i),
{
    let short = lines.take(n);
    let (block, end) = render::block_at(short, i);
    let rest = render::blocks_from(short, end);
    assert(render::blocks_from(short, i) == seq![block] + rest);
    render::lemma_block_at(short, i);
    assert(short[i] == lines[i]);
    lemma_blank_line(lines[n - 1]);
    if render::fence(lines[i]) {
        render::lemma_next_fence(short, i + 1);
        let e = render::next_fence(short, i + 1);
        if e >= n {
            assert(rest =~= Seq::empty());
            assert((seq![block] + rest).last() == block);
        } else {
            lemma_fence_cut(lines, n, i + 1);
            assert(short.subrange(i + 1, e) =~= lines.subrange(i + 1, e));
        }
    } else if render::heading_of(lines[i]) is Some {
    } else if render::quote_of(lines[i]) is Some {
    } else if render::item_of(lines[i]) is Some {
        lemma_items_cut(lines, n, i + 1);
        if render::items_from(lines, i + 1) != render::items_from(short, i + 1) {
            render::lemma_items_from(short, i + 1);
            assert forall|k: int| end <= k < short.len() implies text::blank(
                #[trigger] short[k],
            ) by {
                assert(short[k] == lines[k]);
            }
            lemma_only_blanks(short, end);
            lemma_list_and_blanks(block, rest);
        }
    } else {
        if i < n - 1 {
            assert(short[i + 1] == lines[i + 1]);
        }
        assert(render::table_at(short, i) == render::table_at(lines, i));
        if render::table_at(lines, i) {
            assert(i + 1 < n - 1);
            lemma_rows_cut(lines, n, i + 2);
            render::lemma_rows_end(short, i + 2);
            let e = render::rows_end(short, i + 2);
            assert(short.subrange(i + 2, e) =~= lines.subrange(i + 2, e));
        } else if !text::blank(lines[i]) {
            lemma_paragraph_cut(lines, n, i + 1);
            render::lemma_paragraph_end(short, i + 1);
            let e = render::paragraph_end(short, i + 1);
            assert(short.subrange(i, e) =~= lines.subrange(i, e));
        }
    }
}

/// The blocks of a closed beginning are the first blocks of the document.
proof fn lemma_blocks_cut(lines: Seq<Seq<char>>, n: int, i: int)
    requires
        0 <= i < n <= lines.len(),
        text::blank(lines[n - 1]),
        closed(render::blocks_from(lines.take(n), i)),
    ensures
        render::blocks_from(lines.take(n), i).is_prefix_of(render::blocks_from(lines, i)),
    decreases n - i,
{
    let short = lines.take(n);
    lemma_block_cut(lines, n, i);
    render::lemma_block_at(short, i);
    let (block, end) = render::block_at(short, i);
    let a = render::blocks_from(short, end);
    let b = render::blocks_from(lines, end);
    assert(render::blocks_from(short, i) == seq![block] + a);
    assert(render::blocks_from(lines, i) == seq![block] + b);
    if end < n {
        render::lemma_block_at(short, end);
        assert(a.len() > 0);
        lemma_closed_rest(block, a);
        lemma_blocks_cut(lines, n, end);
    } else {
        assert(a =~= Seq::empty());
    }
    assert((seq![block] + b).take(1 + a.len() as int) =~= seq![block] + a);
}

/// A document up to an empty line is rendered as the beginning of whatever it
/// goes on to, where its blocks are closed.
pub proof fn law_closed_blocks_stay(begun: Seq<char>, more: Seq<char>)
    requires
        begun.len() > 0,
        begun.last() == '\n',
        closed(render::blocks_of(begun)),
    ensures
        render::blocks_of(begun).is_prefix_of(render::blocks_of(begun + seq!['\n'] + more)),
        render::ansi_of(render::blocks_of(begun)).is_prefix_of(
            render::ansi_of(render::blocks_of(begun + seq!['\n'] + more)),
        ),
{
    let whole = begun + seq!['\n'] + more;
    let lines = text::split_on(whole, '\n');
    let short = text::split_on(begun, '\n');
    let n = short.len() as int;
    lemma_split_between(begun, more, '\n');
    assert(lines.take(n) =~= short);
    let head = begun.drop_last();
    assert(begun =~= head + seq!['\n'] + Seq::<char>::empty());
    lemma_split_between(head, Seq::empty(), '\n');
    text::lemma_find_from(Seq::<char>::empty(), seq!['\n'], 0);
    assert(text::split_on(Seq::<char>::empty(), '\n') =~= seq![Seq::<char>::empty()]);
    assert(n > 0);
    assert(short.last() == Seq::<char>::empty());
    assert(lines[n - 1] == short.last());
    assert(text::trimmed(lines[n - 1]).len() == 0);
    lemma_blocks_cut(lines, n, 0);
    lemma_ansi_prefix(render::blocks_of(begun), render::blocks_of(whole));
}

/// The text of the first blocks is the beginning of the text.
proof fn lemma_ansi_prefix(a: Seq<BlockModel>, b: Seq<BlockModel>)
    requires
        a.is_prefix_of(b),
    ensures
        render::ansi_of(a).is_prefix_of(render::ansi_of(b)),
    decreases b.len() - a.len(),
{
    if a.len() < b.len() {
        let c = b.drop_last();
        assert(a.is_prefix_of(c)) by {
            assert(c.take(a.len() as int) =~= b.take(a.len() as int));
        }
        lemma_ansi_prefix(a, c);
        let x = render::ansi_of(a);
        let y = render::ansi_of(c);
        let z = render::ansi_of(b);
        assert(z == y + render::ansi_block(b.last()));
        assert(z.take(x.len() as int) =~= y.take(x.len() as int));
    } else {
        assert(a =~= b);
    }
}

/// A closed beginning ends with a line feed.
pub proof fn lemma_closed_end(blocks: Seq<BlockModel>)
    requires
        closed(blocks),
    ensures
        render::ansi_of(blocks).len() > 0,
        render::ansi_of(blocks).last() == '\n',
{
    reveal_strlit("\n");
    let a = render::ansi_of(blocks.drop_last());
    assert(render::ansi_of(blocks) == a + "\n"@);
    assert((a + "\n"@).last() == "\n"@[0]);
}

} // verus!
