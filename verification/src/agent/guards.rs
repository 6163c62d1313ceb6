//! Guards against the ways in which a model goes astray: it answers nothing,
//! repeats itself, calls the same tool over and over, emits garbage, announces
//! work without doing it, claims a build that never ran, or stops half way.
use vstd::prelude::*;

use crate::json;
use crate::json::Json;
use crate::text;
use crate::tools::read_file;
use crate::tools::read_file::Mark;

verus! {

/// What a guard found.
#[derive(Debug, Clone, PartialEq)]
pub enum GuardOutcome {
    /// Nothing.
    Pass,
    /// It fired, for the given reason.
    Trigger(String),
}

impl View for GuardOutcome {
    type V = Option<Seq<char>>;

    open spec fn view(&self) -> Option<Seq<char>> {
        match self {
            GuardOutcome::Pass => None,
            GuardOutcome::Trigger(s) => Some(s@),
        }
    }
}

/// What the guards remember of a segment.
#[derive(Debug, Clone)]
pub struct GuardContext {
    /// The number of empty answers in a row.
    pub empty_turns: u32,
    /// The signatures of the last tool calls, four at most.
    pub recent_signatures: Vec<String>,
    /// How often an announcement was nudged.
    pub future_nudges: u32,
    /// How often a pause was nudged.
    pub pause_nudges: u32,
    /// Whether a tool that changes state was called.
    pub state_change_called: bool,
    /// Whether code was modified.
    pub code_modified: bool,
    /// Whether the shell was called.
    pub bash_called: bool,
}

/// The model of what the guards remember.
pub struct GuardModel {
    pub empty_turns: u32,
    pub recent_signatures: Seq<Seq<char>>,
    pub future_nudges: u32,
    pub pause_nudges: u32,
    pub state_change_called: bool,
    pub code_modified: bool,
    pub bash_called: bool,
}

impl View for GuardContext {
    type V = GuardModel;

    open spec fn view(&self) -> GuardModel {
        GuardModel {
            empty_turns: self.empty_turns,
            recent_signatures: text::views(self.recent_signatures@),
            future_nudges: self.future_nudges,
            pause_nudges: self.pause_nudges,
            state_change_called: self.state_change_called,
            code_modified: self.code_modified,
            bash_called: self.bash_called,
        }
    }
}

/// Nothing is remembered.
pub open spec fn fresh_guard() -> GuardModel {
    GuardModel {
        empty_turns: 0,
        recent_signatures: Seq::empty(),
        future_nudges: 0,
        pause_nudges: 0,
        state_change_called: false,
        code_modified: false,
        bash_called: false,
    }
}

impl Default for GuardContext {
    fn default() -> (r: Self)
        ensures
            r@ == fresh_guard(),
    {
        let recent_signatures: Vec<String> = Vec::new();
        proof {
            assert(text::views(recent_signatures@) =~= Seq::empty());
        }
        GuardContext {
            empty_turns: 0,
            recent_signatures,
            future_nudges: 0,
            pause_nudges: 0,
            state_change_called: false,
            code_modified: false,
            bash_called: false,
        }
    }
}

/// A guard that fires for a reason, or does not.
fn outcome(fires: bool, reason: &str) -> (r: GuardOutcome)
    ensures
        r@ == (if fires {
            Some(reason@)
        } else {
            None
        }),
{
    if fires {
        GuardOutcome::Trigger(reason.to_string())
    } else {
        GuardOutcome::Pass
    }
}

// ---------------------------------------------------------------------------
// Empty answers
// ---------------------------------------------------------------------------

/// Six empty answers in a row are a loop.
pub open spec fn empty_loop(g: GuardModel) -> Option<Seq<char>> {
    if g.empty_turns >= 6 {
        Some("incomplete: empty response loop"@)
    } else {
        None
    }
}

/// Fires on six empty answers in a row.
pub fn check_empty_loop(ctx: &GuardContext) -> (r: GuardOutcome)
    ensures
        r@ == empty_loop(ctx@),
{
    outcome(ctx.empty_turns >= 6, "incomplete: empty response loop")
}

// ---------------------------------------------------------------------------
// Repetition
// ---------------------------------------------------------------------------

/// How often a text stands in a list.
pub open spec fn times(v: Seq<Seq<char>>, s: Seq<char>) -> nat
    decreases v.len(),
{
    if v.len() == 0 {
        0
    } else {
        times(v.drop_last(), s) + (if v.last() == s {
            1nat
        } else {
            0nat
        })
    }
}

/// The lines of a text without white space around them.
pub open spec fn trimmed_lines(s: Seq<char>) -> Seq<Seq<char>> {
    text::lines_of(s).map_values(|l: Seq<char>| text::trimmed(l))
}

/// Whether a length is within a bound, if there is one.
pub open spec fn within(n: nat, bound: Option<usize>) -> bool {
    match bound {
        Some(b) => n <= b,
        None => true,
    }
}

/// Whether a line that is not empty, and no longer than `max_len` if that is
/// given, stands at least `limit` times in a text, white space around lines
/// aside.
pub open spec fn line_repeats(s: Seq<char>, max_len: Option<usize>, limit: nat) -> bool {
    exists|l: Seq<char>|
        0 < l.len() && within(l.len(), max_len) && #[trigger] times(trimmed_lines(s), l) >= limit
}

/// A text that stands in no item of a list is counted zero times, and one that
/// is counted stands in some item.
proof fn lemma_times_positive(v: Seq<Seq<char>>, s: Seq<char>)
    requires
        times(v, s) > 0,
    ensures
        exists|i: int| 0 <= i < v.len() && v[i] == s,
    decreases v.len(),
{
    if v.last() == s {
        assert(v[v.len() - 1] == s);
    } else {
        lemma_times_positive(v.drop_last(), s);
        let i = choose|i: int| 0 <= i < v.drop_last().len() && v.drop_last()[i] == s;
        assert(v[i] == s);
    }
}

/// Counts how often a text stands in a list.
fn count_equal(v: &[String], s: &str) -> (r: usize)
    ensures
        r == times(text::views(v@), s@),
{
    let ghost all = text::views(v@);
    let mut n: usize = 0;
    let mut i: usize = 0;
    while i < v.len()
        invariant
            i <= v.len(),
            all == text::views(v@),
            n <= i,
            n == times(all.take(i as int), s@),
        decreases v.len() - i,
    {
        proof {
            assert(all.take(i + 1).drop_last() =~= all.take(i as int));
            assert(all.take(i + 1).last() == v@[i as int]@);
        }
        if text::str_eq(v[i].as_str(), s) {
            n = n + 1;
        }
        i = i + 1;
    }
    proof {
        assert(all.take(i as int) =~= all);
    }
    n
}

/// The lines of a text without white space around them.
fn lines_trimmed(s: &str) -> (r: Vec<String>)
    ensures
        text::views(r@) == trimmed_lines(s@),
{
    let lines = text::lines(s);
    let ghost all = text::views(lines@);
    let mut out: Vec<String> = Vec::new();
    let mut i: usize = 0;
    while i < lines.len()
        invariant
            i <= lines.len(),
            all == text::views(lines@),
            all == text::lines_of(s@),
            out.len() == i,
            forall|k: int| 0 <= k < i ==> (#[trigger] out@[k])@ == text::trimmed(all[k]),
        decreases lines.len() - i,
    {
        out.push(text::trim(lines[i].as_str()).to_string());
        i = i + 1;
    }
    proof {
        assert(text::views(out@) =~= trimmed_lines(s@));
    }
    out
}

/// Whether a line that is not empty, and no longer than `max_len` if that is
/// given, stands at least `limit` times in a text.
pub(crate) fn has_repeated_line(s: &str, max_len: Option<usize>, limit: usize) -> (r: bool)
    requires
        limit > 0,
    ensures
        r == line_repeats(s@, max_len, limit as nat),
{
    let lines = lines_trimmed(s);
    let ghost all = trimmed_lines(s@);
    let mut i: usize = 0;
    while i < lines.len()
        invariant
            i <= lines.len(),
            limit > 0,
            all == text::views(lines@),
            all == trimmed_lines(s@),
            forall|k: int|
                0 <= k < i ==> !(0 < (#[trigger] all[k]).len() && within(all[k].len(), max_len)
                    && times(all, all[k]) >= limit),
        decreases lines.len() - i,
    {
        let n: usize = lines[i].as_str().unicode_len();
        let fits = match max_len {
            Some(m) => n <= m,
            None => true,
        };
        if n > 0 && fits {
            let c: usize = count_equal(&lines, lines[i].as_str());
            if c >= limit {
                proof {
                    assert(times(all, lines@[i as int]@) >= limit);
                }
                return true;
            }
        }
        i = i + 1;
    }
    proof {
        if line_repeats(s@, max_len, limit as nat) {
            let l = choose|l: Seq<char>|
                0 < l.len() && within(l.len(), max_len) && #[trigger] times(trimmed_lines(s@), l)
                    >= limit;
            lemma_times_positive(all, l);
            let k = choose|k: int| 0 <= k < all.len() && all[k] == l;
            assert(all[k] == l);
        }
    }
    false
}

/// How many bytes at the end of an answer are searched for repetitions.
pub const REPETITION_WINDOW: usize = 4096;

/// A short line that stands eight times in the last part of an answer is a
/// repetition.
pub open spec fn stream_repetition(s: Seq<char>) -> Option<Seq<char>> {
    if line_repeats(text::tail_within(s, REPETITION_WINDOW as nat), Some(20), 8) {
        Some("incomplete: stream repetition"@)
    } else {
        None
    }
}

/// Fires on a line of at most twenty characters that stands eight times in the
/// last four kilobytes.
pub fn check_stream_repetition(text: &str) -> (r: GuardOutcome)
    ensures
        r@ == stream_repetition(text@),
{
    let tail = text::take_tail_within(text, REPETITION_WINDOW);
    outcome(has_repeated_line(tail, Some(20), 8), "incomplete: stream repetition")
}

// ---------------------------------------------------------------------------
// Tool signatures
// ---------------------------------------------------------------------------

/// The signature of a tool call: its name and the beginning of its arguments.
pub open spec fn signature(name: Seq<char>, args: Seq<char>) -> Seq<char> {
    name + ":"@ + text::first_chars(args, 80)
}

/// The signature of a tool call from the text of its arguments.
pub fn signature_of(name: &str, args: &str) -> (r: String)
    ensures
        r@ == signature(name@, args@),
{
    let mut out = name.to_string();
    out.append(":");
    out.append(text::take_chars(args, 80));
    out
}

/// The page that a result of `read_file` shows, which is the number that its
/// first line begins with. Other results show none.
pub open spec fn page_shown(name: Seq<char>, result: Result<Seq<char>, Seq<char>>) -> Option<
    Seq<char>,
> {
    match result {
        Ok(t) => if name == "read_file"@ {
            match text::find(t, "→"@) {
                Some(i) => Some(t.take(i)),
                None => None,
            }
        } else {
            None
        },
        Err(_) => None,
    }
}

/// The signature of a tool call that was made: to that of the call, the page
/// that was shown is added, so that reading on in a file is progress.
pub open spec fn progress_signature(
    name: Seq<char>,
    args: Seq<char>,
    result: Result<Seq<char>, Seq<char>>,
) -> Seq<char> {
    match page_shown(name, result) {
        Some(page) => signature(name, args) + "@"@ + page,
        None => signature(name, args),
    }
}

/// The view of a result of a tool.
pub open spec fn result_view(r: Result<String, String>) -> Result<Seq<char>, Seq<char>> {
    match r {
        Ok(t) => Ok(t@),
        Err(e) => Err(e@),
    }
}

/// The signature of a tool call that was made.
pub fn signature_with_progress(name: &str, args: &Json, result: &Result<String, String>) -> (r:
    String)
    ensures
        r@ == progress_signature(name@, json::json_print(args@), result_view(*result)),
{
    let mut sig = tool_signature(name, args);
    match result {
        Ok(t) => {
            if text::str_eq(name, "read_file") {
                match text::find_first(t.as_str(), "→") {
                    Some(i) => {
                        sig.append("@");
                        sig.append(text::slice(t.as_str(), 0, i));
                        proof {
                            assert(t@.subrange(0, i as int) =~= t@.take(i as int));
                        }
                    },
                    None => {},
                }
            }
        },
        Err(_) => {},
    }
    sig
}

/// The signature of a tool call.
pub fn tool_signature(name: &str, args: &Json) -> (r: String)
    ensures
        r@ == signature(name@, json::json_print(args@)),
{
    let t = args.to_text();
    signature_of(name, t.as_str())
}

/// Four calls that are all the same are no progress.
pub open spec fn stuck_signature(g: GuardModel) -> Option<Seq<char>> {
    let sigs = g.recent_signatures;
    if sigs.len() >= 4 && forall|i: int| 0 <= i < sigs.len() ==> #[trigger] sigs[i] == sigs.last() {
        Some("incomplete: no progress"@)
    } else {
        None
    }
}

/// Fires when at least four tool calls are remembered and all are the same.
pub fn check_stuck_signature(ctx: &GuardContext) -> (r: GuardOutcome)
    ensures
        r@ == stuck_signature(ctx@),
{
    let n: usize = ctx.recent_signatures.len();
    let ghost sigs = ctx@.recent_signatures;
    if n < 4 {
        return GuardOutcome::Pass;
    }
    let mut i: usize = 0;
    while i < n
        invariant
            i <= n,
            n >= 4,
            n == ctx.recent_signatures.len(),
            sigs == ctx@.recent_signatures,
            forall|k: int| 0 <= k < i ==> #[trigger] sigs[k] == sigs.last(),
        decreases n - i,
    {
        if !text::str_eq(
            ctx.recent_signatures[i].as_str(),
            ctx.recent_signatures[n - 1].as_str(),
        ) {
            proof {
                assert(sigs[i as int] != sigs.last());
            }
            return GuardOutcome::Pass;
        }
        i = i + 1;
    }
    outcome(true, "incomplete: no progress")
}

/// The guards after a tool call: its signature is remembered, the oldest one
/// is forgotten beyond four, and a change of state resets the nudges.
pub open spec fn after_tool_call(
    g: GuardModel,
    sig: Seq<char>,
    is_state_change: bool,
) -> GuardModel {
    let sigs = g.recent_signatures.push(sig);
    GuardModel {
        recent_signatures: if sigs.len() > 4 {
            sigs.skip(1)
        } else {
            sigs
        },
        state_change_called: g.state_change_called || is_state_change,
        future_nudges: if is_state_change {
            0
        } else {
            g.future_nudges
        },
        ..g
    }
}

/// Remembers a tool call.
pub fn update_after_tool_call(ctx: &mut GuardContext, sig: String, is_state_change: bool)
    ensures
        final(ctx)@ == after_tool_call(old(ctx)@, sig@, is_state_change),
{
    let ghost before = ctx@;
    ctx.recent_signatures.push(sig);
    proof {
        assert(text::views(ctx.recent_signatures@) =~= before.recent_signatures.push(sig@));
    }
    if ctx.recent_signatures.len() > 4 {
        let ghost grown = ctx.recent_signatures@;
        ctx.recent_signatures.remove(0);
        proof {
            assert(text::views(ctx.recent_signatures@) =~= text::views(grown).skip(1));
        }
    }
    if is_state_change {
        ctx.state_change_called = true;
        ctx.future_nudges = 0;
    }
}

/// Whether a tool modifies code.
pub open spec fn modifies_code(name: Seq<char>) -> bool {
    name == "write_file"@ || name == "edit_file"@
}

/// The guards after a tool was called, as the guard of the build sees it.
pub open spec fn after_tool(g: GuardModel, name: Seq<char>) -> GuardModel {
    GuardModel {
        code_modified: g.code_modified || modifies_code(name),
        bash_called: g.bash_called || name == "bash"@,
        ..g
    }
}

/// Remembers which tool was called.
pub fn note_tool(ctx: &mut GuardContext, name: &str)
    ensures
        final(ctx)@ == after_tool(old(ctx)@, name@),
{
    if text::str_eq(name, "write_file") || text::str_eq(name, "edit_file") {
        ctx.code_modified = true;
    }
    if text::str_eq(name, "bash") {
        ctx.bash_called = true;
    }
}

// ---------------------------------------------------------------------------
// Garbage
// ---------------------------------------------------------------------------

/// The number of replacement characters of a text.
pub open spec fn replacement_chars(s: Seq<char>) -> nat
    decreases s.len(),
{
    if s.len() == 0 {
        0
    } else {
        replacement_chars(s.drop_last()) + (if s.last() == '\u{FFFD}' {
            1nat
        } else {
            0nat
        })
    }
}

/// Whether a text of at least twenty characters is made of replacement
/// characters to a fifth or more.
pub open spec fn garbled(s: Seq<char>) -> bool {
    s.len() >= 20 && 5 * replacement_chars(s) >= s.len()
}

/// Whether a text is garbled.
pub(crate) fn is_garbled(s: &str) -> (r: bool)
    ensures
        r == garbled(s@),
{
    let v = text::chars_of(s);
    let mut n: usize = 0;
    let mut i: usize = 0;
    while i < v.len()
        invariant
            i <= v.len(),
            n <= i,
            n == replacement_chars(v@.take(i as int)),
        decreases v.len() - i,
    {
        proof {
            assert(v@.take(i + 1).drop_last() =~= v@.take(i as int));
        }
        if v[i] == '\u{FFFD}' {
            n = n + 1;
        }
        i = i + 1;
    }
    proof {
        assert(v@.take(i as int) =~= v@);
    }
    v.len() >= 20 && 5 * (n as u128) >= v.len() as u128
}

/// A garbled answer means that the context has overflowed silently.
pub open spec fn fffd_degenerate(s: Seq<char>) -> Option<Seq<char>> {
    if garbled(s) {
        Some("incomplete: silent context overflow"@)
    } else {
        None
    }
}

/// Fires on a garbled answer.
pub fn check_fffd_degenerate(content: &str) -> (r: GuardOutcome)
    ensures
        r@ == fffd_degenerate(content@),
{
    outcome(is_garbled(content), "incomplete: silent context overflow")
}

// ---------------------------------------------------------------------------
// What an answer says
// ---------------------------------------------------------------------------

/// Whether a text, in lower case and trimmed, announces work instead of doing it.
pub open spec fn announces(t: Seq<char>) -> bool {
    ||| text::contains(t, "하겠습니다"@)
    ||| text::contains(t, "하겠어요"@)
    ||| text::contains(t, "할게요"@)
    ||| text::contains(t, "let me"@)
    ||| text::contains(t, "i will"@)
    ||| text::contains(t, "i'll"@)
    ||| ("."@.is_suffix_of(t) || "\n"@.is_suffix_of(t)) && (text::contains(t, "will"@)
        || text::contains(t, "going to"@))
}

/// Whether a text, in lower case and trimmed, announces work.
pub fn is_announcement(t: &str) -> (r: bool)
    ensures
        r == announces(t@),
{
    text::has(t, "하겠습니다") || text::has(t, "하겠어요") || text::has(t, "할게요")
        || text::has(t, "let me") || text::has(t, "i will") || text::has(t, "i'll") || ((
    text::ends_with(t, ".") || text::ends_with(t, "\n")) && (text::has(t, "will") || text::has(
        t,
        "going to",
    )))
}

/// Whether a text announces work instead of doing it.
pub open spec fn future_intention(s: Seq<char>) -> bool {
    announces(text::lowercase(text::trimmed(s)))
}

/// Whether a text announces work instead of doing it.
pub fn is_future_intention(s: &str) -> (r: bool)
    ensures
        r == future_intention(s@),
        text::lower_is_plain(text::trimmed(s@)),
{
    let t = text::to_lowercase(text::trim(s));
    is_announcement(t.as_str())
}

/// An announcement without a tool call is nudged twice, and then it is over.
pub open spec fn future_guard(g: GuardModel, tool_calls: nat, announced: bool) -> Option<Seq<char>> {
    if tool_calls == 0 && announced {
        if !g.state_change_called && g.future_nudges >= 2 {
            Some("incomplete: future intention nudge limit"@)
        } else {
            Some("nudge: future intention"@)
        }
    } else {
        None
    }
}

/// Judges an answer by whether it announces work.
pub fn judge_announcement(ctx: &GuardContext, tool_calls: usize, announced: bool) -> (r:
    GuardOutcome)
    ensures
        r@ == future_guard(ctx@, tool_calls as nat, announced),
{
    if tool_calls == 0 && announced {
        if !ctx.state_change_called && ctx.future_nudges >= 2 {
            return outcome(true, "incomplete: future intention nudge limit");
        }
        return outcome(true, "nudge: future intention");
    }
    GuardOutcome::Pass
}

/// Fires on an answer that announces work and calls no tool.
pub fn check_future_intention(ctx: &GuardContext, tool_calls: usize, text: &str) -> (r: GuardOutcome)
    ensures
        r@ == future_guard(ctx@, tool_calls as nat, future_intention(text@)),
        text::lower_is_plain(text::trimmed(text@)),
{
    judge_announcement(ctx, tool_calls, is_future_intention(text))
}

/// The guards after an announcement was nudged. A change of state gives the
/// nudges back once.
pub open spec fn after_future_nudge(g: GuardModel) -> GuardModel {
    GuardModel {
        future_nudges: (if g.state_change_called {
            1
        } else {
            g.future_nudges + 1
        }) as u32,
        state_change_called: false,
        ..g
    }
}

/// Counts a nudge of an announcement.
pub fn note_future_nudge(ctx: &mut GuardContext)
    requires
        old(ctx).state_change_called || old(ctx).future_nudges < 2,
    ensures
        final(ctx)@ == after_future_nudge(old(ctx)@),
{
    if ctx.state_change_called {
        ctx.future_nudges = 1;
    } else {
        ctx.future_nudges = ctx.future_nudges + 1;
    }
    ctx.state_change_called = false;
}

/// Whether a text in lower case speaks of a build.
pub open spec fn speaks_of_build(t: Seq<char>) -> bool {
    ||| text::contains(t, "build"@)
    ||| text::contains(t, "cargo"@)
    ||| text::contains(t, "컴파일"@)
    ||| text::contains(t, "빌드"@)
}

/// Whether a text in lower case speaks of a build.
pub fn lower_mentions_build(t: &str) -> (r: bool)
    ensures
        r == speaks_of_build(t@),
{
    text::has(t, "build") || text::has(t, "cargo") || text::has(t, "컴파일") || text::has(
        t,
        "빌드",
    )
}

/// Whether a text speaks of a build.
pub fn mentions_build(s: &str) -> (r: bool)
    ensures
        r == speaks_of_build(text::lowercase(s@)),
        text::lower_is_plain(s@),
{
    let t = text::to_lowercase(s);
    lower_mentions_build(t.as_str())
}

/// A build that is spoken of after code was modified must have been run.
pub open spec fn build_guard(g: GuardModel, speaks: bool) -> Option<Seq<char>> {
    if g.code_modified && !g.bash_called && speaks {
        Some("incomplete: build verification never run"@)
    } else {
        None
    }
}

/// Judges an answer by whether it speaks of a build.
pub fn judge_build(ctx: &GuardContext, speaks: bool) -> (r: GuardOutcome)
    ensures
        r@ == build_guard(ctx@, speaks),
{
    outcome(
        ctx.code_modified && !ctx.bash_called && speaks,
        "incomplete: build verification never run",
    )
}

/// Fires on an answer that speaks of a build when code was modified and the
/// shell was never called.
pub fn check_build_gate(ctx: &GuardContext, final_text: &str) -> (r: GuardOutcome)
    ensures
        r@ == build_guard(ctx@, speaks_of_build(text::lowercase(final_text@))),
        text::lower_is_plain(final_text@),
{
    judge_build(ctx, mentions_build(final_text))
}

/// Whether a text in lower case puts the work off.
pub open spec fn puts_off(t: Seq<char>) -> bool {
    ||| text::contains(t, "to be continued"@)
    ||| text::contains(t, "다음 세션"@)
    ||| text::contains(t, "중단 시점"@)
    ||| text::contains(t, "이어서 하겠"@)
    ||| text::contains(t, "continue later"@)
    ||| text::contains(t, "다음에 이어서"@)
}

/// Whether a text in lower case puts the work off.
pub fn lower_is_pause(t: &str) -> (r: bool)
    ensures
        r == puts_off(t@),
{
    text::has(t, "to be continued") || text::has(t, "다음 세션") || text::has(t, "중단 시점")
        || text::has(t, "이어서 하겠") || text::has(t, "continue later") || text::has(
        t,
        "다음에 이어서",
    )
}

/// Whether a text puts the work off.
pub fn is_pause_summary(s: &str) -> (r: bool)
    ensures
        r == puts_off(text::lowercase(s@)),
        text::lower_is_plain(s@),
{
    let t = text::to_lowercase(s);
    lower_is_pause(t.as_str())
}

/// Work that is put off is nudged twice, and then it is handed off.
pub open spec fn pause_guard(g: GuardModel, paused: bool) -> Option<Seq<char>> {
    if paused {
        if g.pause_nudges >= 2 {
            Some("handoff: pause-summary"@)
        } else {
            Some("nudge: pause-summary"@)
        }
    } else {
        None
    }
}

/// Judges an answer by whether it puts the work off.
pub fn judge_pause(ctx: &GuardContext, paused: bool) -> (r: GuardOutcome)
    ensures
        r@ == pause_guard(ctx@, paused),
{
    if paused {
        if ctx.pause_nudges >= 2 {
            return outcome(true, "handoff: pause-summary");
        }
        return outcome(true, "nudge: pause-summary");
    }
    GuardOutcome::Pass
}

/// Fires on an answer that puts the work off.
pub fn check_pause_summary(ctx: &GuardContext, text: &str) -> (r: GuardOutcome)
    ensures
        r@ == pause_guard(ctx@, puts_off(text::lowercase(text@))),
        text::lower_is_plain(text@),
{
    judge_pause(ctx, is_pause_summary(text))
}

/// The guards after a pause was nudged.
pub open spec fn after_pause_nudge(g: GuardModel) -> GuardModel {
    GuardModel { pause_nudges: (g.pause_nudges + 1) as u32, ..g }
}

/// Counts a nudge of a pause.
pub fn note_pause_nudge(ctx: &mut GuardContext)
    requires
        old(ctx).pause_nudges < 2,
    ensures
        final(ctx)@ == after_pause_nudge(old(ctx)@),
{
    ctx.pause_nudges = ctx.pause_nudges + 1;
}

// ---------------------------------------------------------------------------
// Laws
// ---------------------------------------------------------------------------

/// The guards after the same tool call was made `n` times.
pub open spec fn after_same_calls(g: GuardModel, sig: Seq<char>, change: bool, n: nat) -> GuardModel
    decreases n,
{
    if n == 0 {
        g
    } else {
        after_tool_call(after_same_calls(g, sig, change, (n - 1) as nat), sig, change)
    }
}

/// No more than four signatures are ever remembered, and the last of them is
/// the one of the last call.
pub proof fn law_signature_window(g: GuardModel, sig: Seq<char>, change: bool)
    requires
        g.recent_signatures.len() <= 4,
    ensures
        after_tool_call(g, sig, change).recent_signatures.len() <= 4,
        after_tool_call(g, sig, change).recent_signatures.last() == sig,
{
}

/// Whatever was called before, four calls with one signature in a row are
/// found to be stuck.
pub proof fn law_four_same_calls_are_stuck(g: GuardModel, sig: Seq<char>, change: bool)
    requires
        g.recent_signatures.len() <= 4,
    ensures
        stuck_signature(after_same_calls(g, sig, change, 4)) is Some,
{
    let g1 = after_tool_call(g, sig, change);
    let g2 = after_tool_call(g1, sig, change);
    let g3 = after_tool_call(g2, sig, change);
    let g4 = after_tool_call(g3, sig, change);
    assert(after_same_calls(g, sig, change, 4) == g4) by {
        reveal_with_fuel(after_same_calls, 5);
    }
    let sigs = g4.recent_signatures;
    assert(sigs.len() == 4);
    assert(sigs =~= seq![sig, sig, sig, sig]);
}

/// A call that differs from the one before it is progress: the guard does not
/// fire.
pub proof fn law_a_different_call_is_progress(g: GuardModel, sig: Seq<char>, change: bool)
    requires
        0 < g.recent_signatures.len() <= 4,
        g.recent_signatures.last() != sig,
    ensures
        stuck_signature(after_tool_call(g, sig, change)) is None,
{
    let sigs = after_tool_call(g, sig, change).recent_signatures;
    if sigs.len() >= 4 {
        assert(sigs[sigs.len() - 2] == g.recent_signatures.last());
        assert(sigs.last() == sig);
    }
}

/// Reading on in a file is progress: while lines are left, the next page has
/// another signature than the one before it, though the calls are the same.
pub proof fn law_the_next_page_is_progress(
    g: GuardModel,
    args: Seq<char>,
    marks: Map<Seq<char>, Mark>,
    path: Seq<char>,
    offset: Option<u64>,
    limit: nat,
    content: Seq<char>,
    change: bool,
)
    requires
        limit > 0,
        g.recent_signatures.len() <= 4,
        !read_file::exhausted(marks, path, offset),
        read_file::last_of(
            text::lines_of(content),
            read_file::start_of(marks, path, offset),
            limit,
        ) < text::lines_of(content).len() < u64::MAX,
    ensures
        ({
            let later = read_file::marks_after(marks, path, offset, limit, content);
            let first = read_file::read_text(marks, path, offset, limit, content);
            let second = read_file::read_text(later, path, None, limit, content);
            let g1 = after_tool_call(
                g,
                progress_signature("read_file"@, args, Ok(first)),
                change,
            );
            stuck_signature(
                after_tool_call(
                    g1,
                    progress_signature("read_file"@, args, Ok(second)),
                    change,
                ),
            ) is None
        }),
{
    let lines = text::lines_of(content);
    let start = read_file::start_of(marks, path, offset);
    let later = read_file::marks_after(marks, path, offset, limit, content);
    let next = read_file::start_of(later, path, None);
    read_file::law_page_makes_progress(lines, start, limit);
    read_file::law_reading_goes_on(marks, path, offset, limit, content);
    read_file::law_rest_is_shown(marks, path, offset, limit, content);
    read_file::law_page_tells_its_start(marks, path, offset, limit, content);
    read_file::law_page_tells_its_start(later, path, None, limit, content);
    let a = text::decimal(start);
    let b = text::decimal(next);
    text::lemma_decimal_digits(start);
    text::lemma_decimal_digits(next);
    let head = signature("read_file"@, args) + "@"@;
    let first: Result<Seq<char>, Seq<char>> = Ok(
        read_file::read_text(marks, path, offset, limit, content),
    );
    let second: Result<Seq<char>, Seq<char>> = Ok(
        read_file::read_text(later, path, None, limit, content),
    );
    assert(progress_signature("read_file"@, args, first) == head + a);
    assert(progress_signature("read_file"@, args, second) == head + b);
    if head + a == head + b {
        assert((head + a).skip(head.len() as int) =~= a);
        assert((head + b).skip(head.len() as int) =~= b);
    }
    let g1 = after_tool_call(g, head + a, change);
    law_signature_window(g, head + a, change);
    law_a_different_call_is_progress(g1, head + b, change);
}

/// An announcement is never passed over in silence: while a nudge is left it
/// is nudged, and a change of state gives the nudges back.
pub proof fn law_state_change_restores_nudges(g: GuardModel, sig: Seq<char>)
    ensures
        future_guard(after_tool_call(g, sig, true), 0, true) == Some("nudge: future intention"@),
{
}

/// An announcement is nudged twice at most: without a change of state in
/// between, the third one is over.
pub proof fn law_announcements_are_nudged_twice(g: GuardModel)
    requires
        future_guard(g, 0, true) == Some("nudge: future intention"@),
        future_guard(after_future_nudge(g), 0, true) == Some("nudge: future intention"@),
    ensures
        future_guard(after_future_nudge(after_future_nudge(g)), 0, true) == Some(
            "incomplete: future intention nudge limit"@,
        ),
{
    reveal_strlit("nudge: future intention");
    reveal_strlit("incomplete: future intention nudge limit");
}

/// Two pauses are nudged, and the next one is handed over.
pub proof fn law_pauses_are_nudged_twice(g: GuardModel)
    requires
        g.pause_nudges == 0,
    ensures
        pause_guard(g, true) == Some("nudge: pause-summary"@),
        pause_guard(after_pause_nudge(g), true) == Some("nudge: pause-summary"@),
        pause_guard(after_pause_nudge(after_pause_nudge(g)), true) == Some(
            "handoff: pause-summary"@,
        ),
{
}

} // verus!
