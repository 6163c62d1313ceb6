//! What guards, handoffs and estimates promise of what they look at.
use vstd::prelude::*;

use crate::agent::context;
use crate::agent::guards;
use crate::agent::guards::GuardModel;
use crate::agent::handoff;
use crate::agent::handoff::{HandoffDecision, HandoffModel};
use crate::agent::loop_;
use crate::agent::loop_::SegmentModel;
use crate::llm;
use crate::llm::MessageModel;
use crate::text;
use crate::tools::laws;

verus! {

// ---------------------------------------------------------------------------
// Handoffs
// ---------------------------------------------------------------------------

/// The instruction of a handoff names every section of the summary, and the
/// marker below which the task that remains is looked for.
pub proof fn law_instruction_names_what_is_read(i: int)
    requires
        0 <= i < 9,
    ensures
        text::contains(handoff::handoff_prompt(), handoff::NEXT_TASK_MARKER@),
        text::contains(handoff::handoff_prompt(), handoff::section_heading(i)),
        text::contains(handoff::section_heading(i), handoff::HANDOFF_SECTIONS@[i]@),
{
    let a =
        "컨텍스트 한계에 도달했습니다. 도구를 사용하지 말고, 지금까지의 작업을 아래 9개 섹션으로 정리한 구조화 요약을 작성하라.\n\n반드시 파일 경로·결정사항·주의점·현재 상태를 모두 포함하라. 후속 세그먼트는 이전 대화를 볼 수 없다.\n\n"@;
    let h = text::joined(handoff::section_headings(), "\n"@);
    let m = handoff::NEXT_TASK_MARKER@;
    let t1 = a + h;
    let t2 = t1 + "\n\n그 아래 `"@;
    let t3 = t2 + m;
    let t4 = t3
        + "` 마커에 \"후속 세그먼트가 바로 이어서 실행할 수 있는 완결형 작업 프롬프트\"를 작성하라. 남은 작업이 없으면 `"@;
    let t5 = t4 + m;
    let last = "` 아래를 비워 두고 체인 완료를 선언하라.\n"@;
    assert(handoff::handoff_prompt() == t5 + last);
    laws::lemma_at_the_end(t4, m);
    laws::lemma_held(t5, last, m);
    let s = handoff::section_heading(i);
    assert(handoff::section_headings()[i] == s);
    laws::lemma_joined_holds(handoff::section_headings(), "\n"@, i);
    laws::lemma_held(h, a, s);
    laws::lemma_held(t1, "\n\n그 아래 `"@, s);
    laws::lemma_held(t2, m, s);
    laws::lemma_held(
        t3,
        "` 마커에 \"후속 세그먼트가 바로 이어서 실행할 수 있는 완결형 작업 프롬프트\"를 작성하라. 남은 작업이 없으면 `"@,
        s,
    );
    laws::lemma_held(t4, m, s);
    laws::lemma_held(t5, last, s);
    laws::lemma_at_the_end(
        text::decimal((i + 1) as nat) + ". "@,
        handoff::HANDOFF_SECTIONS@[i]@,
    );
}

/// The last marker divides an answer: the summary is all that stands before it,
/// and the task is all that stands behind it, but for white space around them.
pub proof fn law_marker_divides_the_answer(a: Seq<char>, b: Seq<char>)
    requires
        forall|j: int|
            j > a.len() ==> !text::occurs_at(
                a + handoff::NEXT_TASK_MARKER@ + b,
                handoff::NEXT_TASK_MARKER@,
                j,
            ),
    ensures
        handoff::parsed_handoff(a + handoff::NEXT_TASK_MARKER@ + b).summary == text::trimmed(a),
        handoff::parsed_handoff(a + handoff::NEXT_TASK_MARKER@ + b).next_task == text::trimmed(b),
{
    reveal_strlit("===NEXT_TASK===");
    let m = handoff::NEXT_TASK_MARKER@;
    let c = a + m + b;
    let k = a.len() as int;
    assert(c.subrange(k, k + m.len()) =~= m);
    assert(text::occurs_at(c, m, k));
    text::lemma_rfind_from(c, m, c.len() - m.len());
    match text::rfind(c, m) {
        Some(i) => {
            if i < k {
                assert(!text::occurs_at(c, m, k));
            }
            assert(i == k);
        },
        None => {
            assert(!text::occurs_at(c, m, k));
        },
    }
    assert(c.take(k) =~= a);
    assert(c.skip(k + m.len()) =~= b);
}

/// An answer without the marker is all summary, and no task remains.
pub proof fn law_answer_without_a_marker(content: Seq<char>)
    requires
        !text::contains(content, handoff::NEXT_TASK_MARKER@),
    ensures
        handoff::parsed_handoff(content).summary == text::trimmed(content),
        handoff::parsed_handoff(content).next_task == Seq::<char>::empty(),
{
    let m = handoff::NEXT_TASK_MARKER@;
    text::lemma_rfind_from(content, m, content.len() - m.len());
    match text::rfind(content, m) {
        Some(i) => {
            assert(text::occurs_at(content, m, i));
        },
        None => {},
    }
}

/// The sections of an answer are those whose heading stands in it.
pub proof fn law_sections_are_those_with_a_heading(content: Seq<char>, n: nat, i: usize)
    requires
        n <= 9,
    ensures
        handoff::sections_of(content, n).contains(i) <==> i < n && text::contains(
            content,
            handoff::section_heading(i as int),
        ),
    decreases n,
{
    let all = handoff::sections_of(content, n);
    if n > 0 {
        let rest = handoff::sections_of(content, (n - 1) as nat);
        law_sections_are_those_with_a_heading(content, (n - 1) as nat, i);
        if text::contains(content, handoff::section_heading(n - 1)) {
            let last = (n - 1) as usize;
            assert(all == rest.push(last));
            assert(all[rest.len() as int] == last);
            if rest.contains(i) {
                let k = choose|k: int| 0 <= k < rest.len() && rest[k] == i;
                assert(all[k] == i);
            }
            if all.contains(i) && i != last {
                let k = choose|k: int| 0 <= k < all.len() && all[k] == i;
                assert(rest[k] == i);
            }
        }
    }
}

/// A line stands no more often in a list than the list is long.
proof fn lemma_times_bounded(v: Seq<Seq<char>>, s: Seq<char>)
    ensures
        guards::times(v, s) <= v.len(),
    decreases v.len(),
{
    if v.len() > 0 {
        lemma_times_bounded(v.drop_last(), s);
    }
}

/// A text without the replacement character is not garbled.
proof fn lemma_clean(s: Seq<char>)
    requires
        !s.contains('\u{FFFD}'),
    ensures
        guards::replacement_chars(s) == 0,
        !guards::garbled(s),
    decreases s.len(),
{
    if s.len() > 0 {
        let d = s.drop_last();
        assert(!d.contains('\u{FFFD}')) by {
            if d.contains('\u{FFFD}') {
                let k = choose|k: int| 0 <= k < d.len() && d[k] == '\u{FFFD}';
                assert(s[k] == '\u{FFFD}');
            }
        }
        lemma_clean(d);
        assert(s.last() != '\u{FFFD}') by {
            assert(s[s.len() - 1] == s.last());
        }
    }
}

/// A good summary is accepted: one that is long enough, holds the words that are
/// asked for, repeats nothing because it has but a few lines, and is clean. One
/// that is too short, or lacks a word, is not.
pub proof fn law_good_summary_is_accepted(s: Seq<char>, i: int)
    ensures
        s.len() >= 200 && (forall|k: int|
            0 <= k < 5 ==> text::contains(s, #[trigger] handoff::REQUIRED_KEYWORDS@[k]@))
            && text::lines_of(s).len() < 8 && !s.contains('\u{FFFD}') ==> handoff::acceptable(s),
        s.len() < 200 ==> !handoff::acceptable(s),
        0 <= i < 5 && !text::contains(s, handoff::REQUIRED_KEYWORDS@[i]@) ==> !handoff::acceptable(
            s,
        ),
{
    if text::lines_of(s).len() < 8 {
        assert forall|l: Seq<char>| #[trigger]
            guards::times(guards::trimmed_lines(s), l) < 8 by {
            lemma_times_bounded(guards::trimmed_lines(s), l);
        }
        assert(!guards::line_repeats(s, None, 8));
    }
    if !s.contains('\u{FFFD}') {
        lemma_clean(s);
    }
}

/// A task that remains goes on in a new segment, a summary without one ends the
/// chain, and a summary that is not acceptable does neither.
pub proof fn law_decision_follows_the_answer(h: HandoffModel)
    ensures
        handoff::acceptable(h.summary) && !text::blank(h.next_task) ==> handoff::decision_of(h)
            == HandoffDecision::Handoff,
        handoff::acceptable(h.summary) && text::blank(h.next_task) ==> handoff::decision_of(h)
            == HandoffDecision::Complete,
        !handoff::acceptable(h.summary) ==> handoff::decision_of(h) == HandoffDecision::Fallback,
{
}

/// The next segment is told the summary first and the task last, as they are.
pub proof fn law_next_segment_is_told_all(summary: Seq<char>, next_task: Seq<char>)
    ensures
        summary.is_prefix_of(handoff::segment_prompt(summary, next_task)),
        next_task.is_suffix_of(handoff::segment_prompt(summary, next_task)),
        text::contains(
            handoff::segment_prompt(summary, next_task),
            handoff::NEXT_TASK_MARKER@,
        ),
{
    let p = handoff::segment_prompt(summary, next_task);
    let m = handoff::NEXT_TASK_MARKER@;
    assert(p.take(summary.len() as int) =~= summary);
    assert(p.subrange(p.len() - next_task.len(), p.len() as int) =~= next_task);
    laws::lemma_between(summary + "\n\n"@, m, "\n"@ + next_task);
    assert(p =~= summary + "\n\n"@ + m + ("\n"@ + next_task));
}

/// A handoff is due where the conversation takes its share of the context, and
/// not before. Where the size of the context is not known, it never is.
pub proof fn law_handoff_is_due_when_full(v: Seq<MessageModel>, context_tokens: u64, pct: u8)
    ensures
        context_tokens == 0 ==> !handoff::handoff_due(v, context_tokens, pct),
        context_tokens > 0 && pct <= 100 && context::messages_tokens(v) >= context_tokens
            ==> handoff::handoff_due(v, context_tokens, pct),
        context::messages_tokens(v) * 100 + 100 <= context_tokens * pct ==> !handoff::handoff_due(
            v,
            context_tokens,
            pct,
        ),
        context_tokens > 0 && context::messages_tokens(v) <= u64::MAX
            && context::messages_tokens(v) * 100 >= context_tokens * pct ==> handoff::handoff_due(
            v,
            context_tokens,
            pct,
        ),
{
    let share = context_tokens * pct;
    if pct <= 100 {
        assert(share <= context_tokens * 100) by (nonlinear_arith)
            requires
                share == context_tokens * pct,
                pct <= 100,
        ;
    }
}

/// A chain all of whose segments came through is complete.
pub proof fn law_chain_without_failure_is_complete(statuses: Seq<Seq<char>>)
    requires
        forall|i: int|
            0 <= i < statuses.len() ==> #[trigger] statuses[i] != "failed"@ && statuses[i]
                != "incomplete"@,
    ensures
        handoff::status_of_chain(statuses) == "completed"@,
{
    if exists|i: int| 0 <= i < statuses.len() && handoff::spoils(#[trigger] statuses[i]) {
        let i = choose|i: int| 0 <= i < statuses.len() && handoff::spoils(#[trigger] statuses[i]);
        assert(statuses[i] != "failed"@);
    }
}

/// One segment that failed, or was left incomplete, makes its chain incomplete.
pub proof fn law_failed_segment_is_told(statuses: Seq<Seq<char>>, i: int)
    requires
        0 <= i < statuses.len(),
        statuses[i] == "failed"@ || statuses[i] == "incomplete"@,
    ensures
        handoff::status_of_chain(statuses) == "incomplete"@,
{
    handoff::law_chain_inherits_failure(statuses, i);
}

// ---------------------------------------------------------------------------
// Estimates
// ---------------------------------------------------------------------------

/// Four ASCII characters are a token, and every other character is one.
pub proof fn law_tokens_of_a_text(s: Seq<char>)
    ensures
        (forall|i: int|
            0 <= i < s.len() ==> (#[trigger] s[i] as u32) < 128 && s[i] != '\n')
            ==> context::tokens(s) == s.len() / 4,
        (forall|i: int| 0 <= i < s.len() ==> (#[trigger] s[i] as u32) >= 128) ==> context::tokens(
            s,
        ) == s.len(),
{
    lemma_weight(s);
}

proof fn lemma_weight(s: Seq<char>)
    ensures
        (forall|i: int|
            0 <= i < s.len() ==> (#[trigger] s[i] as u32) < 128 && s[i] != '\n')
            ==> context::quarter_tokens(s) == s.len(),
        (forall|i: int| 0 <= i < s.len() ==> (#[trigger] s[i] as u32) >= 128)
            ==> context::quarter_tokens(s) == 4 * s.len(),
    decreases s.len(),
{
    if s.len() > 0 {
        let d = s.drop_last();
        lemma_weight(d);
        assert(s[s.len() - 1] == s.last());
        assert forall|i: int| 0 <= i < d.len() implies #[trigger] d[i] == s[i] by {}
    }
}

/// The estimate of a conversation grows with every message, by the text that the
/// message brings at least.
pub proof fn law_every_message_counts(v: Seq<MessageModel>, m: MessageModel)
    ensures
        context::messages_tokens(v.push(m)) >= context::messages_tokens(v),
        m.content matches Some(c) ==> context::messages_tokens(v.push(m))
            >= context::messages_tokens(v) + context::tokens(c),
        m.content is None && m.tool_calls is None && m.name is None ==> context::messages_tokens(
            v.push(m),
        ) == context::messages_tokens(v),
{
    assert(v.push(m).drop_last() =~= v);
}

/// A message of plain text is estimated by its text alone.
pub proof fn law_text_message_counts_its_text(role: Seq<char>, content: Seq<char>)
    requires
        !text::contains(content, "data:image/"@),
    ensures
        context::message_tokens(llm::text_message(role, content)) == context::tokens(content),
{
}

// ---------------------------------------------------------------------------
// Guards
// ---------------------------------------------------------------------------

/// A guard fires on what it is for, and on nothing else: on the sixth empty
/// answer and not before, and on tool calls only once four are the same.
pub proof fn law_guards_wait_for_their_limit(g: GuardModel)
    ensures
        guards::empty_loop(g) is Some <==> g.empty_turns >= 6,
        g.recent_signatures.len() < 4 ==> guards::stuck_signature(g) is None,
        g.recent_signatures.len() == 4 && g.recent_signatures[0] != g.recent_signatures[3]
            ==> guards::stuck_signature(g) is None,
        g.recent_signatures.len() == 4 && g.recent_signatures[0] == g.recent_signatures[1]
            && g.recent_signatures[1] == g.recent_signatures[2] && g.recent_signatures[2]
            == g.recent_signatures[3] ==> guards::stuck_signature(g) is Some,
{
    let v = g.recent_signatures;
    if v.len() == 4 {
        assert(v.last() == v[3]);
        if v[0] != v[3] {
            assert(v[0] != v.last());
        }
    }
}

/// An answer of few lines is no repetition, and a clean answer is not garbled.
pub proof fn law_ordinary_answers_pass(s: Seq<char>)
    ensures
        text::lines_of(text::tail_within(s, 4096)).len() < 8 ==> guards::stream_repetition(s)
            is None,
        !s.contains('\u{FFFD}') ==> guards::fffd_degenerate(s) is None,
        s.len() < 20 ==> guards::fffd_degenerate(s) is None,
{
    let t = text::tail_within(s, 4096);
    if text::lines_of(t).len() < 8 {
        assert forall|l: Seq<char>| #[trigger]
            guards::times(guards::trimmed_lines(t), l) < 8 by {
            lemma_times_bounded(guards::trimmed_lines(t), l);
        }
    }
    if !s.contains('\u{FFFD}') {
        lemma_clean(s);
    }
}

proof fn lemma_all_replaced(s: Seq<char>)
    requires
        forall|i: int| 0 <= i < s.len() ==> #[trigger] s[i] == '\u{FFFD}',
    ensures
        guards::replacement_chars(s) == s.len(),
    decreases s.len(),
{
    if s.len() > 0 {
        let d = s.drop_last();
        assert forall|i: int| 0 <= i < d.len() implies #[trigger] d[i] == '\u{FFFD}' by {
            assert(d[i] == s[i]);
        }
        lemma_all_replaced(d);
        assert(s[s.len() - 1] == s.last());
    }
}

/// An answer of replacement characters is found to be garbled, and one that says
/// the same short line again and again is found to be a repetition.
pub proof fn law_garbage_is_found(s: Seq<char>, l: Seq<char>)
    ensures
        s.len() >= 20 && (forall|i: int| 0 <= i < s.len() ==> #[trigger] s[i] == '\u{FFFD}')
            ==> guards::fffd_degenerate(s) is Some,
        0 < l.len() <= 20 && guards::times(
            guards::trimmed_lines(text::tail_within(s, 4096)),
            l,
        ) >= 8 ==> guards::stream_repetition(s) is Some,
{
    if forall|i: int| 0 <= i < s.len() ==> #[trigger] s[i] == '\u{FFFD}' {
        lemma_all_replaced(s);
    }
}

/// How often a line stands in a list grows by one with every time that it is
/// added, and by nothing else.
pub proof fn law_lines_are_counted(v: Seq<Seq<char>>, l: Seq<char>, s: Seq<char>)
    ensures
        guards::times(Seq::empty(), s) == 0,
        guards::times(v.push(l), s) == guards::times(v, s) + (if l == s {
            1nat
        } else {
            0
        }),
{
    assert(v.push(l).drop_last() =~= v);
}

/// The words by which an answer gives itself away: it announces work, speaks of a
/// build, or puts work off, where it holds one of them, whatever stands around
/// it.
pub proof fn law_words_give_answers_away(a: Seq<char>, b: Seq<char>)
    ensures
        guards::announces(a + "하겠습니다"@ + b),
        guards::announces(a + "할게요"@ + b),
        guards::announces(a + "let me"@ + b),
        guards::announces(a + "i will"@ + b),
        guards::announces(a + "i'll"@ + b),
        guards::speaks_of_build(a + "build"@ + b),
        guards::speaks_of_build(a + "cargo"@ + b),
        guards::speaks_of_build(a + "컴파일"@ + b),
        guards::speaks_of_build(a + "빌드"@ + b),
        guards::puts_off(a + "to be continued"@ + b),
        guards::puts_off(a + "다음 세션"@ + b),
        guards::puts_off(a + "중단 시점"@ + b),
        guards::puts_off(a + "continue later"@ + b),
        guards::puts_off(a + "다음에 이어서"@ + b),
{
    laws::lemma_between(a, "하겠습니다"@, b);
    laws::lemma_between(a, "할게요"@, b);
    laws::lemma_between(a, "let me"@, b);
    laws::lemma_between(a, "i will"@, b);
    laws::lemma_between(a, "i'll"@, b);
    laws::lemma_between(a, "build"@, b);
    laws::lemma_between(a, "cargo"@, b);
    laws::lemma_between(a, "컴파일"@, b);
    laws::lemma_between(a, "빌드"@, b);
    laws::lemma_between(a, "to be continued"@, b);
    laws::lemma_between(a, "다음 세션"@, b);
    laws::lemma_between(a, "중단 시점"@, b);
    laws::lemma_between(a, "continue later"@, b);
    laws::lemma_between(a, "다음에 이어서"@, b);
}

/// An answer without any of the words is taken at its word.
pub proof fn law_plain_answers_are_not_suspected(t: Seq<char>)
    ensures
        !text::contains(t, "하겠습니다"@) && !text::contains(t, "하겠어요"@) && !text::contains(
            t,
            "할게요"@,
        ) && !text::contains(t, "let me"@) && !text::contains(t, "i will"@) && !text::contains(
            t,
            "i'll"@,
        ) && !text::contains(t, "will"@) && !text::contains(t, "going to"@) ==> !guards::announces(
            t,
        ),
        !text::contains(t, "build"@) && !text::contains(t, "cargo"@) && !text::contains(
            t,
            "컴파일"@,
        ) && !text::contains(t, "빌드"@) ==> !guards::speaks_of_build(t),
        !text::contains(t, "to be continued"@) && !text::contains(t, "다음 세션"@)
            && !text::contains(t, "중단 시점"@) && !text::contains(t, "이어서 하겠"@)
            && !text::contains(t, "continue later"@) && !text::contains(t, "다음에 이어서"@)
            ==> !guards::puts_off(t),
{
}

/// The guard of the build fires only where code was modified, the shell was not
/// called, and the answer speaks of a build.
pub proof fn law_build_guard(g: GuardModel, speaks: bool)
    ensures
        guards::build_guard(g, speaks) is Some <==> g.code_modified && !g.bash_called && speaks,
        !speaks ==> guards::build_guard(g, speaks) is None,
{
}

/// Calls of one tool with different arguments have different signatures, as far
/// as the beginning of the arguments tells them apart; and calls that are the
/// same have the same.
pub proof fn law_signatures_tell_calls_apart(name: Seq<char>, a: Seq<char>, b: Seq<char>)
    ensures
        a.len() <= 80 && b.len() <= 80 && guards::signature(name, a) == guards::signature(name, b)
            ==> a == b,
        name.is_prefix_of(guards::signature(name, a)),
{
    let h = name + ":"@;
    let n = h.len() as int;
    assert(guards::signature(name, a).skip(n) =~= text::first_chars(a, 80));
    assert(guards::signature(name, b).skip(n) =~= text::first_chars(b, 80));
    assert(guards::signature(name, a).take(name.len() as int) =~= name);
}

/// Tools that write, run or load change the state of the world, and tools that
/// only look do not.
pub proof fn law_tools_that_change_the_state()
    ensures
        loop_::changes_state("write_file"@),
        loop_::changes_state("edit_file"@),
        loop_::changes_state("bash"@),
        loop_::changes_state("mcp_call"@),
        loop_::changes_state("skill_load"@),
        !loop_::changes_state("read_file"@),
        !loop_::changes_state("glob"@),
        !loop_::changes_state("grep"@),
        guards::modifies_code("write_file"@),
        guards::modifies_code("edit_file"@),
        !guards::modifies_code("read_file"@),
        !guards::modifies_code("bash"@),
{
    reveal_strlit("write_file");
    reveal_strlit("edit_file");
    reveal_strlit("bash");
    reveal_strlit("mcp_call");
    reveal_strlit("skill_load");
    reveal_strlit("read_file");
    reveal_strlit("glob");
    reveal_strlit("grep");
    assert("write_file"@.len() == 10 && "skill_load"@.len() == 10);
    assert("edit_file"@.len() == 9 && "read_file"@.len() == 9);
    assert("edit_file"@[0] == 'e' && "read_file"@[0] == 'r');
    assert("bash"@.len() == 4 && "glob"@.len() == 4 && "grep"@.len() == 4);
    assert("bash"@[0] == 'b' && "glob"@[0] == 'g' && "grep"@[0] == 'g');
    assert("mcp_call"@.len() == 8);
}

// ---------------------------------------------------------------------------
// Reasons and shares
// ---------------------------------------------------------------------------

/// A guard that fires ends the segment with its reason, unless one before it has
/// fired; where none fires, the segment goes on.
pub proof fn law_guard_that_fires_is_heard(g: GuardModel, v: Seq<char>, tool_calls: nat)
    ensures
        guards::empty_loop(g) is Some ==> loop_::guard_reason(g, v, tool_calls)
            == guards::empty_loop(g),
        guards::stream_repetition(v) is Some ==> loop_::guard_reason(g, v, tool_calls) is Some,
        guards::stuck_signature(g) is Some ==> loop_::guard_reason(g, v, tool_calls) is Some,
        guards::fffd_degenerate(v) is Some ==> loop_::guard_reason(g, v, tool_calls) is Some,
        tool_calls == 0 && guards::build_guard(g, guards::speaks_of_build(text::lowercase(v)))
            is Some ==> loop_::guard_reason(g, v, tool_calls) is Some,
        loop_::guard_reason(g, v, tool_calls) is Some ==> guards::empty_loop(g) is Some
            || guards::stream_repetition(v) is Some || guards::stuck_signature(g) is Some
            || guards::fffd_degenerate(v) is Some || guards::build_guard(
            g,
            tool_calls == 0 && guards::speaks_of_build(text::lowercase(v)),
        ) is Some,
{
}

/// A summary may take a quarter of the context, and one token at least.
pub proof fn law_summary_takes_a_quarter(context_tokens: u64)
    ensures
        1 <= handoff::summary_tokens(context_tokens),
        context_tokens >= 4 ==> 4 * handoff::summary_tokens(context_tokens) <= context_tokens < 4 * (
        handoff::summary_tokens(context_tokens) + 1),
        context_tokens > 0 ==> loop_::handoff_tokens(context_tokens) == handoff::summary_tokens(
            context_tokens,
        ),
        loop_::handoff_tokens(0) > 0,
{
}

/// The decisions have different names.
pub proof fn law_decisions_are_told_apart(a: HandoffDecision, b: HandoffDecision)
    ensures
        handoff::decision_name(a) == handoff::decision_name(b) ==> a == b,
{
    reveal_strlit("Handoff");
    reveal_strlit("Complete");
    reveal_strlit("Fallback");
    assert("Handoff"@[0] == 'H' && "Complete"@[0] == 'C' && "Fallback"@[0] == 'F');
}

/// Blank answers in a row are counted, one by one, and an answer that says
/// something begins the count anew; nothing else of the segment changes.
pub proof fn law_blank_answers_are_counted(s: SegmentModel, content: Option<Seq<char>>)
    requires
        s.guard.empty_turns < u32::MAX,
    ensures
        text::blank(text::or_empty(content)) ==> loop_::counted(s, content).guard.empty_turns
            == s.guard.empty_turns + 1,
        !text::blank(text::or_empty(content)) ==> loop_::counted(s, content).guard.empty_turns == 0,
        loop_::counted(s, content).messages == s.messages,
        loop_::counted(s, content).content == s.content,
        loop_::counted(s, content).tools == s.tools,
        loop_::counted(s, content).guard.recent_signatures == s.guard.recent_signatures,
{
}

/// An image in a message counts by the length of its data, a token for four
/// bytes.
pub proof fn law_image_counts_by_its_data(before: Seq<char>, data: Seq<char>)
    requires
        text::find(before + "base64,"@ + data, "base64,"@) == Some(before.len() as int),
        text::contains(before, "data:image/"@),
    ensures
        context::image_tokens(before + "base64,"@ + data) == text::byte_len(data) as u64 / 4,
{
    reveal_strlit("base64,");
    let s = before + "base64,"@ + data;
    laws::lemma_held(before, "base64,"@, "data:image/"@);
    laws::lemma_held(before + "base64,"@, data, "data:image/"@);
    assert(s.skip(before.len() as int + 7) =~= data);
}

/// A text that holds no image counts nothing for images.
pub proof fn law_no_image_counts_nothing(s: Seq<char>)
    requires
        !text::contains(s, "data:image/"@) || text::find(s, "base64,"@) is None,
    ensures
        context::image_tokens(s) == 0,
{
}

} // verus!
