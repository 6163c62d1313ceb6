//! Replies that are written while they arrive.
//!
//! A reply is rendered anew with every piece. What has been written must not
//! change by what comes later, so only the beginning up to the last empty line
//! is written while pieces arrive; the rest follows at the end.
use vstd::prelude::*;

use crate::cli::settled::is_closed;
use crate::cli::settled;
use crate::render::{parse, render_ansi};
use crate::render;
use crate::text;

verus! {

/// Where an escape sequence ends, from position `i` on: behind its last
/// character, or after `left` characters.
pub open spec fn sequence_end(s: Seq<char>, i: int, left: nat) -> int
    decreases left,
{
    if left == 0 || i < 0 || i >= s.len() {
        i
    } else if s[i] == 'm' || s[i] == 'K' || s[i] == 'H' || s[i] == 'n' {
        i + 1
    } else {
        sequence_end(s, i + 1, (left - 1) as nat)
    }
}

/// An escape sequence ends within the text and not before it begins.
pub proof fn lemma_sequence_end(s: Seq<char>, i: int, left: nat)
    requires
        0 <= i <= s.len(),
    ensures
        i <= sequence_end(s, i, left) <= s.len(),
    decreases left,
{
    if left > 0 && i < s.len() && !(s[i] == 'm' || s[i] == 'K' || s[i] == 'H' || s[i] == 'n') {
        lemma_sequence_end(s, i + 1, (left - 1) as nat);
    }
}

/// Whether an escape sequence begins at position `i`.
pub open spec fn sequence_at(s: Seq<char>, i: int) -> bool {
    s[i] == '\x1b' && i + 1 < s.len() && s[i + 1] == '['
}

/// A text from position `i` on without escape sequences. A sequence is taken to
/// have at most 64 characters behind the escape character.
pub open spec fn plain_from(s: Seq<char>, i: int) -> Seq<char>
    decreases s.len() - i,
{
    if i < 0 || i >= s.len() {
        Seq::empty()
    } else if sequence_at(s, i) {
        proof {
            lemma_sequence_end(s, i + 1, 64);
        }
        plain_from(s, sequence_end(s, i + 1, 64))
    } else {
        seq![s[i]] + plain_from(s, i + 1)
    }
}

/// A text without escape sequences.
pub open spec fn plain_of(s: Seq<char>) -> Seq<char> {
    plain_from(s, 0)
}

/// Removes the escape sequences from a text.
pub fn strip_ansi(s: &str) -> (r: String)
    ensures
        r@ == plain_of(s@),
{
    let v = text::chars_of(s);
    let mut out = String::new();
    let mut i: usize = 0;
    proof {
        assert(Seq::<char>::empty() + plain_of(s@) =~= plain_of(s@));
    }
    while i < v.len()
        invariant
            i <= v.len(),
            v@ == s@,
            out@ + plain_from(v@, i as int) == plain_of(s@),
        decreases v.len() - i,
    {
        if v[i] == '\x1b' && v.len() - i > 1 && v[i + 1] == '[' {
            let start: usize = i + 1;
            let mut j: usize = start;
            let mut left: usize = 64;
            while j < v.len() && left > 0
                invariant_except_break
                    sequence_end(v@, j as int, left as nat) == sequence_end(v@, start as int, 64),
                invariant
                    start <= j <= v.len(),
                ensures
                    j == sequence_end(v@, start as int, 64),
                decreases left,
            {
                let c = v[j];
                j = j + 1;
                if c == 'm' || c == 'K' || c == 'H' || c == 'n' {
                    break;
                }
                left = left - 1;
            }
            i = j;
        } else {
            let ghost before = out@;
            let ghost rest = plain_from(v@, i + 1);
            out.push(v[i]);
            proof {
                assert(before + (seq![v@[i as int]] + rest) =~= out@ + rest);
            }
            i = i + 1;
        }
    }
    proof {
        assert(out@ + plain_from(v@, i as int) =~= out@);
    }
    out
}

// ---------------------------------------------------------------------------
// The printer
// ---------------------------------------------------------------------------

/// Writes a reply while it arrives.
pub struct StreamPrinter {
    pub use_color: bool,
    pub reasoning: String,
    pub content: String,
    /// What has been written.
    pub printed: String,
    /// How much of the content has been written.
    pub stable_len: usize,
    /// How much of the reasoning has been written.
    pub reasoning_stable_len: usize,
    /// Whether any piece has arrived.
    pub active: bool,
}

/// The model of a printer.
pub struct PrinterModel {
    pub use_color: bool,
    pub reasoning: Seq<char>,
    pub content: Seq<char>,
    pub printed: Seq<char>,
    pub stable_len: nat,
    pub reasoning_stable_len: nat,
    pub active: bool,
}

impl View for StreamPrinter {
    type V = PrinterModel;

    open spec fn view(&self) -> PrinterModel {
        PrinterModel {
            use_color: self.use_color,
            reasoning: self.reasoning@,
            content: self.content@,
            printed: self.printed@,
            stable_len: self.stable_len as nat,
            reasoning_stable_len: self.reasoning_stable_len as nat,
            active: self.active,
        }
    }
}

/// The length of the beginning of a text up to its last empty line.
pub open spec fn stable_prefix(s: Seq<char>) -> nat {
    match text::rfind(s, "\n\n"@) {
        Some(i) => (i + 2) as nat,
        None => 0,
    }
}

/// The model's thoughts under their title; nothing where there are none.
pub open spec fn reasoning_text(s: Seq<char>, use_color: bool) -> Seq<char> {
    if text::blank(s) {
        Seq::empty()
    } else {
        (if use_color {
            "\x1b[2m"@
        } else {
            ""@
        }) + "[생각] "@ + plain_of(s) + "\n"@ + (if use_color {
            "\x1b[0m"@
        } else {
            ""@
        }) + "\n"@
    }
}

/// A reply as it is shown: rendered, with or without colours.
pub open spec fn content_text(s: Seq<char>, use_color: bool) -> Seq<char> {
    let body = render::ansi_of(render::blocks_of(s));
    if use_color {
        body
    } else {
        plain_of(body)
    }
}

/// All that is shown of a reply so far.
pub open spec fn shown(m: PrinterModel) -> Seq<char> {
    reasoning_text(m.reasoning, m.use_color) + if text::blank(m.content) {
        Seq::empty()
    } else {
        content_text(m.content, m.use_color)
    }
}

/// The beginning of the model's thoughts under their title, while more of them
/// may follow.
pub open spec fn open_reasoning(s: Seq<char>, use_color: bool) -> Seq<char> {
    if text::blank(s) {
        Seq::empty()
    } else {
        (if use_color {
            "\x1b[2m"@
        } else {
            ""@
        }) + "[생각] "@ + plain_of(s)
    }
}

/// The beginning of the thoughts up to their last empty line.
pub open spec fn settled_reasoning(s: Seq<char>) -> Seq<char> {
    s.take(stable_prefix(s) as int)
}

/// The lines of a reply up to its last empty line, without the line feed behind
/// that line.
pub open spec fn settled_content(s: Seq<char>) -> Seq<char> {
    if stable_prefix(s) > 0 {
        s.take(stable_prefix(s) - 1)
    } else {
        Seq::empty()
    }
}

/// Whether the lines of a reply up to its last empty line can be written: they
/// hold something, and what follows does not change how they look.
pub open spec fn ready(s: Seq<char>) -> bool {
    !text::blank(settled_content(s)) && settled::closed(render::blocks_of(settled_content(s)))
}

/// What of a reply may be written while pieces arrive: the thoughts up to their
/// last empty line, or, once the content has got so far, all thoughts and the
/// content up to its last empty line.
pub open spec fn settled_shown(m: PrinterModel) -> Seq<char> {
    if ready(m.content) {
        reasoning_text(m.reasoning, m.use_color) + content_text(
            settled_content(m.content),
            m.use_color,
        )
    } else {
        open_reasoning(settled_reasoning(m.reasoning), m.use_color)
    }
}

/// What is left of a text, where what has been written is its beginning.
pub open spec fn pending(m: PrinterModel, whole: Seq<char>) -> Option<Seq<char>> {
    text::after_prefix(whole, m.printed)
}

/// A printer after a piece of the content, and what it writes.
pub open spec fn content_step(m: PrinterModel, piece: Seq<char>) -> (PrinterModel, Seq<char>) {
    let grown = PrinterModel { active: true, content: m.content + piece, ..m };
    let stable = stable_prefix(grown.content);
    if stable <= m.stable_len {
        (grown, Seq::empty())
    } else {
        match pending(grown, settled_shown(grown)) {
            Some(rest) => (
                PrinterModel { printed: settled_shown(grown), stable_len: stable, ..grown },
                rest,
            ),
            None => (grown, Seq::empty()),
        }
    }
}

/// A printer after a piece of the reasoning, and what it writes.
pub open spec fn reasoning_step(m: PrinterModel, piece: Seq<char>) -> (PrinterModel, Seq<char>) {
    let grown = PrinterModel { active: true, reasoning: m.reasoning + piece, ..m };
    let stable = stable_prefix(grown.reasoning);
    if stable <= m.reasoning_stable_len {
        (grown, Seq::empty())
    } else {
        match pending(grown, settled_shown(grown)) {
            Some(rest) => (
                PrinterModel {
                    printed: settled_shown(grown),
                    reasoning_stable_len: stable,
                    ..grown
                },
                rest,
            ),
            None => (grown, Seq::empty()),
        }
    }
}

/// What a printer writes at the end: what is left, with a line feed at its end.
/// Nothing is written where no piece has arrived.
pub open spec fn last_words(m: PrinterModel) -> Option<Seq<char>> {
    if m.active {
        let rest = match pending(m, shown(m)) {
            Some(rest) => rest,
            None => shown(m),
        };
        Some(
            if "\n"@.is_suffix_of(rest) {
                rest
            } else {
                rest + "\n"@
            },
        )
    } else {
        None
    }
}

/// The length of the beginning of a text up to its last empty line.
pub fn stable_prefix_len(s: &str) -> (r: usize)
    ensures
        r == stable_prefix(s@),
        r <= s@.len(),
{
    let v = text::chars_of(s);
    let pat = text::chars_of("\n\n");
    proof {
        reveal_strlit("\n\n");
        assert(pat@.len() == 2);
        assert(v.len() <= usize::MAX);
    }
    match text::search_last(&v, &pat) {
        Some(i) => i + 2,
        None => 0,
    }
}

impl StreamPrinter {
    /// A printer to which no piece has come yet.
    pub fn new(use_color: bool) -> (r: Self)
        ensures
            r@ == (PrinterModel {
                use_color,
                reasoning: Seq::empty(),
                content: Seq::empty(),
                printed: Seq::empty(),
                stable_len: 0,
                reasoning_stable_len: 0,
                active: false,
            }),
    {
        StreamPrinter {
            use_color,
            reasoning: String::new(),
            content: String::new(),
            printed: String::new(),
            stable_len: 0,
            reasoning_stable_len: 0,
            active: false,
        }
    }

    /// The model's thoughts under their title.
    fn render_reasoning(&self) -> (r: String)
        ensures
            r@ == reasoning_text(self@.reasoning, self@.use_color),
    {
        if text::is_blank(&self.reasoning) {
            return String::new();
        }
        let mut out = if self.use_color {
            "\x1b[2m".to_string()
        } else {
            "".to_string()
        };
        out.append("[생각] ");
        out.append(&strip_ansi(&self.reasoning));
        out.append("\n");
        if self.use_color {
            out.append("\x1b[0m");
        } else {
            out.append("");
        }
        out.append("\n");
        out
    }

    /// All that is shown of the reply so far.
    fn render(&self) -> (r: String)
        ensures
            r@ == shown(self@),
    {
        let mut out = self.render_reasoning();
        if !text::is_blank(&self.content) {
            out.append(&render_content(&self.content, self.use_color));
        } else {
            proof {
                assert(out@ + Seq::<char>::empty() =~= out@);
            }
        }
        out
    }

    /// What of the reply may be written while pieces arrive.
    fn render_settled(&self) -> (r: String)
        ensures
            r@ == settled_shown(self@),
    {
        let stable = stable_prefix_len(&self.content);
        if stable > 0 {
            let content = text::slice(&self.content, 0, stable - 1);
            proof {
                assert(content@ =~= settled_content(self@.content));
            }
            let blocks = parse(content);
            if !text::is_blank(content) && is_closed(&blocks) {
                let mut out = self.render_reasoning();
                out.append(&render_content(content, self.use_color));
                return out;
            }
        } else {
            proof {
                assert(!ready(self@.content));
            }
        }
        let reasoning = text::slice(&self.reasoning, 0, stable_prefix_len(&self.reasoning));
        proof {
            assert(reasoning@ =~= settled_reasoning(self@.reasoning));
        }
        if text::is_blank(reasoning) {
            return String::new();
        }
        let mut out = if self.use_color {
            "\x1b[2m".to_string()
        } else {
            "".to_string()
        };
        out.append("[생각] ");
        out.append(&strip_ansi(reasoning));
        out
    }

    /// Takes a piece of the model's thoughts, and returns what is to be written.
    pub fn print_reasoning(&mut self, piece: &str) -> (r: String)
        ensures
            (final(self)@, r@) == reasoning_step(old(self)@, piece@),
    {
        self.active = true;
        self.reasoning.append(piece);
        let stable = stable_prefix_len(&self.reasoning);
        if stable <= self.reasoning_stable_len {
            return String::new();
        }
        let rendered = self.render_settled();
        let rest = match text::strip_prefix(&rendered, &self.printed) {
            Some(rest) => rest.to_string(),
            None => {
                return String::new();
            },
        };
        self.printed = rendered;
        self.reasoning_stable_len = stable;
        rest
    }

    /// Takes a piece of the reply, and returns what is to be written.
    pub fn print_content(&mut self, piece: &str) -> (r: String)
        ensures
            (final(self)@, r@) == content_step(old(self)@, piece@),
    {
        self.active = true;
        self.content.append(piece);
        let stable = stable_prefix_len(&self.content);
        if stable <= self.stable_len {
            return String::new();
        }
        let rendered = self.render_settled();
        let rest = match text::strip_prefix(&rendered, &self.printed) {
            Some(rest) => rest.to_string(),
            None => {
                return String::new();
            },
        };
        self.printed = rendered;
        self.stable_len = stable;
        rest
    }

    /// What is to be written at the end; `None` where no piece has arrived.
    pub fn finalize(&mut self) -> (r: Option<String>)
        ensures
            text::opt_view(r) == last_words(old(self)@),
            final(self)@ == if old(self)@.active {
                PrinterModel { printed: shown(old(self)@), ..old(self)@ }
            } else {
                old(self)@
            },
    {
        if !self.active {
            return None;
        }
        let rendered = self.render();
        let mut rest = match text::strip_prefix(&rendered, &self.printed) {
            Some(rest) => rest.to_string(),
            None => rendered.clone(),
        };
        if !text::ends_with(&rest, "\n") {
            rest.append("\n");
        }
        self.printed = rendered;
        Some(rest)
    }
}

/// A reply as it is shown.
pub fn render_content(content: &str, use_color: bool) -> (r: String)
    ensures
        r@ == content_text(content@, use_color),
{
    let blocks = parse(content);
    let body = render_ansi(&blocks);
    if use_color {
        body
    } else {
        strip_ansi(&body)
    }
}

// ---------------------------------------------------------------------------
// Laws
// ---------------------------------------------------------------------------

/// A text without the escape character stays as it is.
pub proof fn law_plain_text_is_kept(s: Seq<char>)
    requires
        !s.contains('\x1b'),
    ensures
        plain_of(s) == s,
{
    lemma_plain_from(s, 0);
    assert(s.skip(0) =~= s);
}

/// A text without the escape character is kept from every position on.
proof fn lemma_plain_from(s: Seq<char>, i: int)
    requires
        0 <= i <= s.len(),
        !s.contains('\x1b'),
    ensures
        plain_from(s, i) == s.skip(i),
    decreases s.len() - i,
{
    if i < s.len() {
        assert(s[i] != '\x1b');
        lemma_plain_from(s, i + 1);
        assert(seq![s[i]] + s.skip(i + 1) =~= s.skip(i));
    } else {
        assert(s.skip(i) =~= Seq::empty());
    }
}

/// Nothing is written twice: what has been written is always what the printer
/// took to be written, piece by piece.
pub proof fn law_nothing_is_written_twice(m: PrinterModel, piece: Seq<char>)
    ensures
        content_step(m, piece).0.printed == m.printed + content_step(m, piece).1,
        reasoning_step(m, piece).0.printed == m.printed + reasoning_step(m, piece).1,
{
    let a = PrinterModel { active: true, content: m.content + piece, ..m };
    let b = PrinterModel { active: true, reasoning: m.reasoning + piece, ..m };
    assert(m.printed + Seq::<char>::empty() =~= m.printed);
    if let Some(rest) = pending(a, settled_shown(a)) {
        assert(settled_shown(a) =~= m.printed + rest);
    }
    if let Some(rest) = pending(b, settled_shown(b)) {
        assert(settled_shown(b) =~= m.printed + rest);
    }
}

/// A printer after more thoughts and more of the reply.
pub open spec fn later(m: PrinterModel, thoughts: Seq<char>, content: Seq<char>) -> PrinterModel {
    PrinterModel { reasoning: m.reasoning + thoughts, content: m.content + content, ..m }
}

/// Whether what has been written is the beginning of all that may be shown,
/// however the thoughts and the reply go on.
pub open spec fn thinking_on_course(m: PrinterModel) -> bool {
    forall|t: Seq<char>, c: Seq<char>| m.printed.is_prefix_of(#[trigger] shown(later(m, t, c)))
}

/// Whether what has been written is the beginning of all that may be shown,
/// however the reply goes on.
pub open spec fn answering_on_course(m: PrinterModel) -> bool {
    forall|c: Seq<char>| m.printed.is_prefix_of(#[trigger] shown(later(m, Seq::empty(), c)))
}

/// As long as the answer has not been begun, thoughts keep a printer on course;
/// a fresh printer is on course.
pub proof fn law_thoughts_keep_the_course(m: PrinterModel, piece: Seq<char>)
    requires
        !ready(m.content),
    ensures
        m.printed.len() == 0 ==> thinking_on_course(m),
        thinking_on_course(m) ==> thinking_on_course(reasoning_step(m, piece).0),
{
    if m.printed.len() == 0 {
        assert forall|t: Seq<char>, c: Seq<char>| m.printed.is_prefix_of(
            #[trigger] shown(later(m, t, c)),
        ) by {
            assert(shown(later(m, t, c)).take(0) =~= m.printed);
        }
    }
    let grown = PrinterModel { active: true, reasoning: m.reasoning + piece, ..m };
    let next = reasoning_step(m, piece).0;
    if thinking_on_course(m) {
        assert forall|t: Seq<char>, c: Seq<char>| next.printed.is_prefix_of(
            #[trigger] shown(later(next, t, c)),
        ) by {
            let l = later(next, t, c);
            if next.printed == m.printed {
                let same = later(m, piece + t, c);
                assert(same.reasoning =~= l.reasoning);
                assert(shown(same) == shown(l));
            } else {
                lemma_thoughts_stay(grown, t, l.content);
                assert(shown(l) == shown(
                    PrinterModel { reasoning: grown.reasoning + t, content: l.content, ..grown },
                ));
            }
        }
    }
}

/// However the answer goes on, a printer that is on course stays so; and one
/// that is on course for thoughts is so for the answer.
pub proof fn law_answer_keeps_the_course(m: PrinterModel, piece: Seq<char>)
    ensures
        thinking_on_course(m) ==> answering_on_course(m),
        answering_on_course(m) ==> answering_on_course(content_step(m, piece).0),
{
    let none = Seq::<char>::empty();
    if thinking_on_course(m) {
        assert forall|c: Seq<char>| m.printed.is_prefix_of(#[trigger] shown(later(m, none, c))) by {
        }
    }
    let grown = PrinterModel { active: true, content: m.content + piece, ..m };
    let next = content_step(m, piece).0;
    if answering_on_course(m) {
        assert forall|c: Seq<char>| next.printed.is_prefix_of(
            #[trigger] shown(later(next, none, c)),
        ) by {
            let l = later(next, none, c);
            if next.printed == m.printed {
                let same = later(m, none, piece + c);
                assert(same.content =~= l.content);
                assert(shown(same) == shown(l));
            } else if ready(grown.content) {
                assert(l.reasoning =~= grown.reasoning);
                lemma_content_stays(grown, c);
                assert(l.content == grown.content + c);
            } else {
                lemma_thoughts_stay(grown, none, l.content);
                assert(shown(l) == shown(
                    PrinterModel {
                        reasoning: grown.reasoning + none,
                        content: l.content,
                        ..grown
                    },
                ));
            }
        }
    }
}

/// The whole reply is written exactly once: what a printer on course has written
/// and what it writes at the end make up all that is shown, with a line feed at
/// the end.
pub proof fn law_whole_reply_is_written(m: PrinterModel)
    requires
        m.active,
        answering_on_course(m),
    ensures
        m.printed + last_words(m)->0 == shown(m) || m.printed + last_words(m)->0 == shown(m)
            + "\n"@,
        "\n"@.is_suffix_of(last_words(m)->0),
{
    let none = Seq::<char>::empty();
    let l = later(m, none, none);
    assert(l.reasoning =~= m.reasoning);
    assert(l.content =~= m.content);
    assert(shown(l) == shown(m));
    let rest = pending(m, shown(m))->0;
    assert(m.printed + rest =~= shown(m));
    assert(m.printed + (rest + "\n"@) =~= shown(m) + "\n"@);
    assert("\n"@.is_suffix_of(rest + "\n"@)) by {
        let t = rest + "\n"@;
        assert(t.subrange(t.len() - "\n"@.len(), t.len() as int) =~= "\n"@);
    }
}

/// Where the last empty line of a text is, there are two line feeds.
proof fn lemma_stable_prefix(s: Seq<char>)
    requires
        stable_prefix(s) > 0,
    ensures
        2 <= stable_prefix(s) <= s.len(),
        s[stable_prefix(s) - 1] == '\n',
        s[stable_prefix(s) - 2] == '\n',
{
    reveal_strlit("\n\n");
    assert("\n\n"@ =~= seq!['\n', '\n']);
    text::lemma_rfind_from(s, "\n\n"@, s.len() - "\n\n"@.len());
    let k = text::rfind(s, "\n\n"@)->0;
    assert(text::occurs_at(s, "\n\n"@, k));
    assert(s.subrange(k, k + 2)[0] == s[k]);
    assert(s.subrange(k, k + 2)[1] == s[k + 1]);
}

/// Thoughts that have been written do not change by what comes later: however
/// they go on, and whatever the answer is, they stand at the beginning.
proof fn lemma_thoughts_stay(m: PrinterModel, more: Seq<char>, content: Seq<char>)
    requires
        !ready(m.content),
    ensures
        settled_shown(m).is_prefix_of(
            shown(PrinterModel { reasoning: m.reasoning + more, content, ..m }),
        ),
{
    let l = PrinterModel { reasoning: m.reasoning + more, content, ..m };
    let begun = settled_reasoning(m.reasoning);
    let n = stable_prefix(m.reasoning) as int;
    if n > 0 {
        lemma_stable_prefix(m.reasoning);
    }
    if text::blank(begun) {
        assert(settled_shown(m) =~= Seq::empty());
        assert(shown(l).take(0) =~= Seq::empty());
    } else {
        assert((m.reasoning + more).take(n) =~= begun);
        lemma_plain_prefix(m.reasoning + more, n);
        lemma_not_blank(begun, m.reasoning + more);
        let head = (if m.use_color {
            "\x1b[2m"@
        } else {
            ""@
        }) + "[생각] "@;
        let whole = plain_of(l.reasoning);
        assert(whole =~= plain_of(begun) + whole.skip(plain_of(begun).len() as int));
        assert(settled_shown(m) == head + plain_of(begun));
        assert(shown(l).take((head + plain_of(begun)).len() as int) =~= head + plain_of(begun));
    }
}

/// An answer that has been written does not change by what comes later.
proof fn lemma_content_stays(m: PrinterModel, more: Seq<char>)
    requires
        ready(m.content),
    ensures
        settled_shown(m).is_prefix_of(shown(PrinterModel { content: m.content + more, ..m })),
{
    let n = stable_prefix(m.content) as int;
    text::lemma_blank(settled_content(m.content));
    lemma_stable_prefix(m.content);
    let begun = settled_content(m.content);
    let whole = m.content + more;
    let rest = whole.skip(n);
    assert(begun.last() == '\n');
    assert(whole =~= begun + seq!['\n'] + rest);
    settled::law_closed_blocks_stay(begun, rest);
    assert(begun.is_prefix_of(whole)) by {
        assert(whole.take(begun.len() as int) =~= begun);
    }
    lemma_not_blank(begun, whole);
    let a = render::ansi_of(render::blocks_of(begun));
    let b = render::ansi_of(render::blocks_of(whole));
    settled::lemma_closed_end(render::blocks_of(begun));
    assert(b.take(a.len() as int) =~= a);
    assert(b[a.len() - 1] == a.last());
    lemma_plain_prefix(b, a.len() as int);
    let x = content_text(begun, m.use_color);
    let y = content_text(whole, m.use_color);
    assert(x.is_prefix_of(y));
    let head = reasoning_text(m.reasoning, m.use_color);
    assert((head + y).take((head + x).len() as int) =~= head + x);
}

/// A text that goes on a text that is not blank is not blank.
proof fn lemma_not_blank(s: Seq<char>, t: Seq<char>)
    requires
        s.is_prefix_of(t),
        !text::blank(s),
    ensures
        !text::blank(t),
{
    if text::blank(t) {
        text::lemma_blank(t);
        assert(text::all_space(s)) by {
            assert forall|i: int| 0 <= i < s.len() implies text::space(#[trigger] s[i]) by {
                assert(t[i] == s[i]);
            }
        }
        text::lemma_blank(s);
    }
}

/// Where an escape sequence ends in a beginning of a text: where it ends in the
/// text, or with the beginning.
proof fn lemma_sequence_cut(s: Seq<char>, n: int, i: int, left: nat)
    requires
        0 <= i <= n <= s.len(),
    ensures
        sequence_end(s.take(n), i, left) == sequence_end(s, i, left) || sequence_end(
            s.take(n),
            i,
            left,
        ) == n,
    decreases left,
{
    if left > 0 && i < n {
        assert(s.take(n)[i] == s[i]);
        if !(s[i] == 'm' || s[i] == 'K' || s[i] == 'H' || s[i] == 'n') {
            lemma_sequence_cut(s, n, i + 1, (left - 1) as nat);
        }
    }
}

/// The beginning of a text without escape sequences is a beginning of the text
/// without them, unless it ends with the escape character.
proof fn lemma_plain_prefix(s: Seq<char>, n: int)
    requires
        0 <= n <= s.len(),
        n > 0 ==> s[n - 1] != '\x1b',
    ensures
        plain_of(s.take(n)).is_prefix_of(plain_of(s)),
{
    lemma_plain_prefix_from(s, n, 0);
}

/// The same from a position on.
proof fn lemma_plain_prefix_from(s: Seq<char>, n: int, i: int)
    requires
        0 <= i <= n <= s.len(),
        n > 0 ==> s[n - 1] != '\x1b',
    ensures
        plain_from(s.take(n), i).is_prefix_of(plain_from(s, i)),
    decreases n - i,
{
    let t = s.take(n);
    if i < n {
        assert(t[i] == s[i]);
        if i + 1 < n {
            assert(t[i + 1] == s[i + 1]);
        }
        if sequence_at(t, i) {
            lemma_sequence_end(t, i + 1, 64);
            lemma_sequence_end(s, i + 1, 64);
            lemma_sequence_cut(s, n, i + 1, 64);
            let e = sequence_end(t, i + 1, 64);
            if e == sequence_end(s, i + 1, 64) {
                lemma_plain_prefix_from(s, n, e);
            } else {
                assert(plain_from(t, e) =~= Seq::empty());
            }
        } else {
            lemma_plain_prefix_from(s, n, i + 1);
            let a = plain_from(t, i + 1);
            let b = plain_from(s, i + 1);
            assert(b.take(a.len() as int) =~= a);
            assert((seq![s[i]] + b).take(1 + a.len() as int) =~= seq![s[i]] + a);
        }
    } else {
        assert(plain_from(t, i) =~= Seq::empty());
    }
}

} // verus!
