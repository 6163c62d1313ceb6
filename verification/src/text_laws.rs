//! What the operations on texts keep.
//!
//! Texts are taken apart and put together in many places. The laws here say that
//! nothing gets lost on the way.
use vstd::prelude::*;

use crate::text;

verus! {

/// A character that is searched for is found where it stands first.
pub proof fn lemma_find_char(s: Seq<char>, c: char)
    ensures
        match text::find(s, seq![c]) {
            Some(i) => 0 <= i < s.len() && s[i] == c && forall|j: int|
                0 <= j < i ==> #[trigger] s[j] != c,
            None => forall|j: int| 0 <= j < s.len() ==> #[trigger] s[j] != c,
        },
{
    text::lemma_find_from(s, seq![c], 0);
    assert forall|j: int| 0 <= j < s.len() implies text::occurs_at(s, seq![c], j) == (s[j] == c) by {
        let t = s.subrange(j, j + 1);
        assert(t[0] == s[j]);
        if s[j] == c {
            assert(t =~= seq![c]);
        }
    }
    match text::find(s, seq![c]) {
        Some(i) => {
            assert forall|j: int| 0 <= j < i implies #[trigger] s[j] != c by {
                assert(!text::occurs_at(s, seq![c], j));
            }
        },
        None => {
            assert forall|j: int| 0 <= j < s.len() implies #[trigger] s[j] != c by {
                assert(!text::occurs_at(s, seq![c], j));
            }
        },
    }
}

/// Parts behind a first one are put together behind it and the separator.
pub proof fn lemma_joined_first(first: Seq<char>, parts: Seq<Seq<char>>, sep: Seq<char>)
    requires
        parts.len() > 0,
    ensures
        text::joined(seq![first] + parts, sep) == first + sep + text::joined(parts, sep),
    decreases parts.len(),
{
    let all = seq![first] + parts;
    assert(all.drop_last() =~= seq![first] + parts.drop_last());
    if parts.len() == 1 {
        assert(all.drop_last() =~= seq![first]);
        assert(text::joined(seq![first], sep) == first);
        assert(text::joined(parts, sep) == parts[0]);
        assert(all.last() == parts[0]);
        assert(text::joined(all, sep) == text::joined(all.drop_last(), sep) + sep + all.last());
    } else {
        lemma_joined_first(first, parts.drop_last(), sep);
        assert(all.last() == parts.last());
        assert(text::joined(all, sep) == text::joined(all.drop_last(), sep) + sep + all.last());
        assert(first + sep + text::joined(parts.drop_last(), sep) + sep + parts.last() =~= first
            + sep + (text::joined(parts.drop_last(), sep) + sep + parts.last()));
    }
}

/// Splitting a text at a character loses nothing: the parts with the character
/// between them are the text again. No part holds the character, and there is
/// one part at least.
pub proof fn law_split_keeps_the_text(s: Seq<char>, c: char)
    ensures
        text::joined(text::split_on(s, c), seq![c]) == s,
        text::split_on(s, c).len() >= 1,
        forall|i: int|
            0 <= i < text::split_on(s, c).len() ==> !(#[trigger] text::split_on(s, c)[i]).contains(
                c,
            ),
    decreases s.len(),
{
    lemma_find_char(s, c);
    match text::find(s, seq![c]) {
        Some(i) => {
            let rest = text::split_on(s.skip(i + 1), c);
            law_split_keeps_the_text(s.skip(i + 1), c);
            lemma_joined_first(s.take(i), rest, seq![c]);
            assert(s.take(i) + seq![c] + s.skip(i + 1) =~= s);
            let all = text::split_on(s, c);
            assert forall|k: int| 0 <= k < all.len() implies !(#[trigger] all[k]).contains(c) by {
                if k == 0 {
                    assert(all[0] == s.take(i));
                } else {
                    assert(all[k] == rest[k - 1]);
                }
            }
        },
        None => {},
    }
}

/// Parts that do not hold the character, with it between them, are split into
/// the same parts again.
pub proof fn law_joined_parts_are_split(parts: Seq<Seq<char>>, c: char)
    requires
        parts.len() > 0,
        forall|i: int| 0 <= i < parts.len() ==> !(#[trigger] parts[i]).contains(c),
    ensures
        text::split_on(text::joined(parts, seq![c]), c) == parts,
    decreases parts.len(),
{
    if parts.len() == 1 {
        let s = parts[0];
        assert(!parts[0].contains(c));
        lemma_find_char(s, c);
        match text::find(s, seq![c]) {
            Some(i) => {
                assert(s.contains(s[i]));
            },
            None => {},
        }
        assert(parts =~= seq![s]);
    } else {
        let rest = parts.skip(1);
        assert forall|i: int| 0 <= i < rest.len() implies !(#[trigger] rest[i]).contains(c) by {
            assert(rest[i] == parts[i + 1]);
        }
        law_joined_parts_are_split(rest, c);
        assert(parts =~= seq![parts[0]] + rest);
        lemma_joined_first(parts[0], rest, seq![c]);
        let first = parts[0];
        assert(!parts[0].contains(c));
        let s = text::joined(parts, seq![c]);
        assert(s == first + seq![c] + text::joined(rest, seq![c]));
        lemma_find_char(s, c);
        let n = first.len() as int;
        assert(s[n] == c);
        let i = text::find(s, seq![c])->0;
        if i < n {
            assert(s[i] == first[i]);
            assert(first.contains(first[i]));
        }
        assert(i == n);
        assert(s.take(n) =~= first);
        assert(s.skip(n + 1) =~= text::joined(rest, seq![c]));
    }
}

/// The lines of a text make up the text: without carriage returns, the lines with
/// line feeds between them are the text, but for a line feed at its end. No line
/// holds a line feed.
pub proof fn law_lines_keep_the_text(s: Seq<char>)
    requires
        !s.contains('\r'),
    ensures
        ({
            let t = text::joined(text::lines_of(s), seq!['\n']);
            t == s || t.push('\n') == s
        }),
        s.len() > 0 ==> text::lines_of(s).len() > 0,
        forall|i: int|
            0 <= i < text::lines_of(s).len() ==> !(#[trigger] text::lines_of(s)[i]).contains('\n'),
    decreases s.len(),
{
    if s.len() == 0 {
        assert(text::joined(text::lines_of(s), seq!['\n']) =~= s);
    } else {
        lemma_find_char(s, '\n');
        match text::find(s, seq!['\n']) {
            Some(i) => {
                let first = s.take(i);
                let tail = s.skip(i + 1);
                assert forall|k: int| 0 <= k < tail.len() implies tail[k] != '\r' by {
                    assert(s.contains(s[i + 1 + k]));
                }
                assert forall|k: int| 0 <= k < first.len() implies first[k] != '\r' by {
                    assert(s.contains(s[k]));
                }
                assert(text::without_cr(first) == first);
                law_lines_keep_the_text(tail);
                let rest = text::lines_of(tail);
                let all = text::lines_of(s);
                assert(all == seq![first] + rest);
                assert(first + seq!['\n'] + tail =~= s);
                if tail.len() == 0 {
                    assert(all =~= seq![first]);
                    assert(first.push('\n') =~= s);
                } else {
                    lemma_joined_first(first, rest, seq!['\n']);
                    let t = text::joined(rest, seq!['\n']);
                    if t != tail {
                        assert((first + seq!['\n'] + t).push('\n') =~= first + seq!['\n'] + t.push(
                            '\n',
                        ));
                    }
                }
                assert forall|k: int| 0 <= k < all.len() implies !(#[trigger] all[k]).contains(
                    '\n',
                ) by {
                    if k > 0 {
                        assert(all[k] == rest[k - 1]);
                    } else {
                        assert(all[0] == first);
                    }
                }
            },
            None => {
                assert(text::lines_of(s) =~= seq![s]);
            },
        }
    }
}

/// A text that ends with a line feed has as many lines as line feeds, and one
/// more line comes with every line that is put before it.
pub proof fn law_line_before_a_text(line: Seq<char>, s: Seq<char>)
    requires
        !line.contains('\n'),
        line.len() == 0 || line.last() != '\r',
    ensures
        text::lines_of(line + seq!['\n'] + s) == seq![line] + text::lines_of(s),
{
    let t = line + seq!['\n'] + s;
    lemma_find_char(t, '\n');
    let n = line.len() as int;
    assert(t[n] == '\n');
    let i = text::find(t, seq!['\n'])->0;
    if i < n {
        assert(t[i] == line[i]);
        assert(line.contains(line[i]));
    }
    assert(t.take(n) =~= line);
    assert(t.skip(n + 1) =~= s);
}

/// The characters of a text that are no white space.
pub open spec fn ink(s: Seq<char>) -> Seq<char>
    decreases s.len(),
{
    if s.len() == 0 {
        Seq::empty()
    } else if text::space(s[0]) {
        ink(s.skip(1))
    } else {
        seq![s[0]] + ink(s.skip(1))
    }
}

/// Words one behind the other.
pub open spec fn run_together(v: Seq<Seq<char>>) -> Seq<char>
    decreases v.len(),
{
    if v.len() == 0 {
        Seq::empty()
    } else {
        v[0] + run_together(v.skip(1))
    }
}

/// A word at the beginning of a text is all ink.
proof fn lemma_ink_of_word(s: Seq<char>, e: int)
    requires
        0 <= e <= s.len(),
        forall|i: int| 0 <= i < e ==> !text::space(#[trigger] s[i]),
    ensures
        ink(s) == s.take(e) + ink(s.skip(e)),
    decreases e,
{
    if e == 0 {
        assert(s.skip(0) =~= s);
        assert(s.take(0) + ink(s) =~= ink(s));
    } else {
        let t = s.skip(1);
        assert forall|i: int| 0 <= i < e - 1 implies !text::space(#[trigger] t[i]) by {
            assert(t[i] == s[i + 1]);
        }
        lemma_ink_of_word(t, e - 1);
        assert(!text::space(s[0]));
        assert(t.skip(e - 1) =~= s.skip(e));
        assert(seq![s[0]] + (t.take(e - 1) + ink(s.skip(e))) =~= s.take(e) + ink(s.skip(e)));
    }
}

proof fn lemma_word_is_ink(s: Seq<char>, i: int)
    requires
        0 <= i <= s.len(),
    ensures
        forall|k: int| i <= k < text::word_end(s, i) ==> !text::space(#[trigger] s[k]),
    decreases s.len() - i,
{
    if i < s.len() && !text::space(s[i]) {
        lemma_word_is_ink(s, i + 1);
    }
}

/// Taking a text apart into words loses white space only: the words one behind
/// the other are the other characters of the text, in order. No word is empty or
/// holds white space.
pub proof fn law_words_keep_the_ink(s: Seq<char>)
    ensures
        run_together(text::words_of(s)) == ink(s),
        forall|i: int|
            0 <= i < text::words_of(s).len() ==> (#[trigger] text::words_of(s)[i]).len() > 0
                && forall|k: int|
                0 <= k < text::words_of(s)[i].len() ==> !text::space(
                    #[trigger] text::words_of(s)[i][k],
                ),
    decreases s.len(),
{
    if s.len() == 0 {
    } else if text::space(s[0]) {
        law_words_keep_the_ink(s.skip(1));
    } else {
        let e = text::word_end(s, 0);
        text::lemma_word_end(s, 0);
        lemma_word_is_ink(s, 0);
        lemma_ink_of_word(s, e);
        law_words_keep_the_ink(s.skip(e));
        let rest = text::words_of(s.skip(e));
        let all = text::words_of(s);
        assert(all == seq![s.take(e)] + rest);
        assert(all.skip(1) =~= rest);
        assert forall|i: int| 0 <= i < all.len() implies (#[trigger] all[i]).len() > 0 && forall|
            k: int,
        |
            0 <= k < all[i].len() ==> !text::space(#[trigger] all[i][k]) by {
            if i > 0 {
                assert(all[i] == rest[i - 1]);
            } else {
                assert(all[0] == s.take(e));
                assert forall|k: int| 0 <= k < all[0].len() implies !text::space(
                    #[trigger] all[0][k],
                ) by {
                    assert(all[0][k] == s[k]);
                }
            }
        }
    }
}

proof fn lemma_start_is_space(s: Seq<char>)
    ensures
        ({
            let n = s.len() - text::trimmed_start(s).len();
            &&& n >= 0
            &&& s.skip(n) == text::trimmed_start(s)
            &&& forall|i: int| 0 <= i < n ==> text::space(#[trigger] s[i])
        }),
    decreases s.len(),
{
    if s.len() > 0 && text::space(s[0]) {
        lemma_start_is_space(s.skip(1));
        let n = s.len() - text::trimmed_start(s).len();
        assert(s.skip(1).skip(n - 1) =~= s.skip(n));
        assert forall|i: int| 0 <= i < n implies text::space(#[trigger] s[i]) by {
            if i > 0 {
                assert(s.skip(1)[i - 1] == s[i]);
            }
        }
    } else {
        assert(s.skip(0) =~= s);
    }
}

proof fn lemma_end_is_space(s: Seq<char>)
    ensures
        ({
            let n = text::trimmed_end(s).len() as int;
            &&& n <= s.len()
            &&& s.take(n) == text::trimmed_end(s)
            &&& forall|i: int| n <= i < s.len() ==> text::space(#[trigger] s[i])
        }),
    decreases s.len(),
{
    if s.len() > 0 && text::space(s.last()) {
        lemma_end_is_space(s.drop_last());
        let n = text::trimmed_end(s).len() as int;
        assert(s.drop_last().take(n) =~= s.take(n));
        assert forall|i: int| n <= i < s.len() implies text::space(#[trigger] s[i]) by {
            if i < s.len() - 1 {
                assert(s.drop_last()[i] == s[i]);
            }
        }
    } else {
        assert(s.take(s.len() as int) =~= s);
    }
}

/// Trimming takes white space away from both ends, and nothing else.
pub proof fn law_trimming_takes_space_only(s: Seq<char>)
    ensures
        text::tight(text::trimmed(s)),
        exists|a: int, b: int|
            0 <= a <= b <= s.len() && #[trigger] s.subrange(a, b) == text::trimmed(s) && (forall|
                i: int,
            |
                0 <= i < a || b <= i < s.len() ==> text::space(#[trigger] s[i])),
{
    text::lemma_tight(s);
    lemma_start_is_space(s);
    let a = s.len() - text::trimmed_start(s).len();
    let t = text::trimmed_start(s);
    lemma_end_is_space(t);
    let n = text::trimmed(s).len() as int;
    let b = a + n;
    assert(s.subrange(a, b) =~= text::trimmed(s)) by {
        assert(s.subrange(a, b) =~= s.skip(a).take(n));
    }
    assert forall|i: int| 0 <= i < a || b <= i < s.len() implies text::space(#[trigger] s[i]) by {
        if i >= b {
            assert(t[i - a] == s[i]);
        }
    }
}

/// The beginning of a text within a number of bytes is the longest one: one more
/// character would be too much. A text that fits is kept whole.
pub proof fn law_beginning_is_the_longest(s: Seq<char>, max: nat)
    ensures
        text::within(s, max).is_prefix_of(s),
        text::text_bytes(text::within(s, max)) <= max,
        text::text_bytes(s) <= max ==> text::within(s, max) == s,
        text::within(s, max).len() < s.len() ==> text::text_bytes(
            s.take(text::within(s, max).len() as int + 1),
        ) > max,
    decreases s.len(),
{
    text::lemma_within(s, max);
    if s.len() > 0 && text::text_bytes(s) > max {
        let d = s.drop_last();
        law_beginning_is_the_longest(d, max);
        let n = text::within(s, max).len() as int;
        if n < d.len() {
            assert(d.take(n + 1) =~= s.take(n + 1));
        } else {
            assert(s.take(n + 1) =~= s);
        }
    }
}

proof fn lemma_bytes_join(a: Seq<char>, b: Seq<char>)
    ensures
        text::text_bytes(a + b) == text::text_bytes(a) + text::text_bytes(b),
    decreases b.len(),
{
    if b.len() == 0 {
        assert(a + b =~= a);
    } else {
        lemma_bytes_join(a, b.drop_last());
        assert((a + b).drop_last() =~= a + b.drop_last());
    }
}

/// The end of a text within a number of bytes is the longest one: one more
/// character would be too much.
pub proof fn law_end_is_the_longest(s: Seq<char>, max: nat)
    ensures
        text::tail_within(s, max).is_suffix_of(s),
        text::text_bytes(text::tail_within(s, max)) <= max,
        text::tail_within(s, max).len() < s.len() ==> text::text_bytes(
            s.skip(s.len() - text::tail_within(s, max).len() - 1),
        ) > max,
    decreases s.len(),
{
    let t = text::tail_within(s, max);
    if s.len() == 0 {
        assert(t =~= s.skip(0));
        assert(t.is_suffix_of(s));
    } else if text::char_bytes(s.last()) > max {
        assert(s.skip(s.len() as int) =~= t);
        assert(t.is_suffix_of(s));
        let one = s.skip(s.len() - 1);
        assert(one.drop_last() =~= Seq::empty());
        assert(one.last() == s.last());
        assert(text::text_bytes(one.drop_last()) == 0);
    } else {
        let d = s.drop_last();
        let m = (max - text::char_bytes(s.last())) as nat;
        law_end_is_the_longest(d, m);
        let u = text::tail_within(d, m);
        assert(t.drop_last() =~= u);
        assert(t =~= s.skip(s.len() - t.len()));
        assert(t.is_suffix_of(s));
        if t.len() < s.len() {
            let k = s.len() - t.len() - 1;
            assert(s.skip(k).drop_last() =~= d.skip(d.len() - u.len() - 1));
            assert(s.skip(k).last() == s.last());
        }
    }
}

/// The first characters of a text are its beginning, as many as were asked for
/// or all that there are.
pub proof fn law_first_characters(s: Seq<char>, n: nat)
    ensures
        text::first_chars(s, n).is_prefix_of(s),
        text::first_chars(s, n).len() == (if s.len() <= n {
            s.len()
        } else {
            n
        }),
{
    assert(s =~= s.take(s.len() as int));
}

/// Texts are in the order of their first characters that differ, and a text comes
/// before all that begin with it and are longer.
pub proof fn law_order_of_texts(p: Seq<char>, x: char, a: Seq<char>, y: char, b: Seq<char>)
    requires
        x < y,
    ensures
        text::before(p + (seq![x] + a), p + (seq![y] + b)),
        !text::before(p + (seq![y] + b), p + (seq![x] + a)),
        text::before(p, p + (seq![x] + a)),
        !text::before(p + (seq![x] + a), p),
{
    let (s, t) = (seq![x] + a, seq![y] + b);
    assert(s[0] == x && t[0] == y);
    assert(text::before(s, t));
    text::lemma_before_prefix(p, s, t);
    let none = Seq::<char>::empty();
    assert(text::before(none, s));
    text::lemma_before_prefix(p, none, s);
    assert(p + none =~= p);
    if text::before(p + t, p + s) {
        text::lemma_before_transitive(p + s, p + t, p + s);
        text::lemma_before_irreflexive(p + s);
    }
    if text::before(p + s, p) {
        text::lemma_before_transitive(p, p + s, p);
        text::lemma_before_irreflexive(p);
    }
}

/// The last occurrence of a text is found: none begins behind it.
pub proof fn law_last_occurrence_is_found(s: Seq<char>, pat: Seq<char>, i: int)
    requires
        text::occurs_at(s, pat, i),
        forall|j: int| i < j ==> !text::occurs_at(s, pat, j),
    ensures
        text::rfind(s, pat) == Some(i),
{
    text::lemma_rfind_from(s, pat, s.len() - pat.len());
}

/// Only the letters from A to Z change in lower case, each to its small letter.
pub proof fn law_small_letters(s: Seq<char>, i: int)
    requires
        0 <= i < s.len(),
    ensures
        text::ascii_lower(s).len() == s.len(),
        'A' <= s[i] <= 'Z' ==> text::ascii_lower(s)[i] as int - 'a' as int == s[i] as int
            - 'A' as int,
        !('A' <= s[i] <= 'Z') ==> text::ascii_lower(s)[i] == s[i],
{
}

} // verus!
