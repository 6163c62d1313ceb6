//! Handing a task over to a fresh context.
//!
//! When a conversation nears the limit of its context, the model is asked for
//! a structured summary and for the task that remains. A summary that passes
//! the quality gate starts a new segment; one without a remaining task ends
//! the chain.
use vstd::prelude::*;

use crate::agent::context;
use crate::agent::guards;
use crate::json::{Json, JsonModel};
use crate::llm;
use crate::llm::{Message, MessageModel};
use crate::text;

verus! {

/// The share of the context, in percent, at which a handoff is due.
pub const DEFAULT_HANDOFF_THRESHOLD_PCT: u8 = 75;

/// The depth from which on a chain is warned of.
pub const DEFAULT_HANDOFF_WARN_DEPTH: u32 = 8;

/// The depth at which a chain is stopped.
pub const DEFAULT_MAX_HANDOFF_DEPTH: u32 = 12;

/// The sections of a summary.
pub const HANDOFF_SECTIONS: [&'static str; 9] = [
    "원 요청/의도",
    "핵심 기술/개념",
    "열람·변경 파일",
    "한 일",
    "실패·수정",
    "현재 진행",
    "남은 작업",
    "하지 말 것",
    "다음 한 걸음",
];

/// The words that an acceptable summary holds.
pub const REQUIRED_KEYWORDS: [&'static str; 5] = ["원 요청", "열람", "한 일", "남은 작업", "하지 말"];

/// What stands between a summary and the task that remains.
pub const NEXT_TASK_MARKER: &'static str = "===NEXT_TASK===";

/// The number of characters that an acceptable summary has at least.
pub const MIN_SUMMARY_LEN: usize = 200;

/// A summary in which a line stands this often is not acceptable.
pub const MAX_DUPLICATE_LINE: u32 = 8;

/// What a handoff came to.
#[derive(Debug, Clone, Copy, PartialEq, Eq, Structural)]
pub enum HandoffDecision {
    /// A task remains: a new segment begins.
    Handoff,
    /// Nothing remains: the chain is complete.
    Complete,
    /// The summary was not acceptable: the segment goes on, trimmed.
    Fallback,
}

/// A summary, the task that remains, and the sections that were found.
#[derive(Debug, Clone)]
pub struct HandoffResponse {
    pub summary: String,
    pub next_task: String,
    pub sections: Vec<usize>,
}

impl Default for HandoffResponse {
    fn default() -> (r: Self)
        ensures
            r.summary@.len() == 0,
            r.next_task@.len() == 0,
            r.sections@.len() == 0,
    {
        HandoffResponse { summary: String::new(), next_task: String::new(), sections: Vec::new() }
    }
}

/// The model of a handoff response.
pub struct HandoffModel {
    pub summary: Seq<char>,
    pub next_task: Seq<char>,
    pub sections: Seq<usize>,
}

impl View for HandoffResponse {
    type V = HandoffModel;

    open spec fn view(&self) -> HandoffModel {
        HandoffModel {
            summary: self.summary@,
            next_task: self.next_task@,
            sections: self.sections@,
        }
    }
}

// ---------------------------------------------------------------------------
// Depth
// ---------------------------------------------------------------------------

/// How many handoffs lie behind a segment.
#[derive(Debug, Clone)]
pub struct HandoffDepthGuard {
    pub depth: u32,
}

impl Default for HandoffDepthGuard {
    fn default() -> (r: Self)
        ensures
            r.depth == 0,
    {
        HandoffDepthGuard { depth: 0 }
    }
}

impl HandoffDepthGuard {
    /// The beginning of a chain.
    pub fn new() -> (r: Self)
        ensures
            r.depth == 0,
    {
        HandoffDepthGuard { depth: 0 }
    }

    /// One handoff deeper.
    pub fn increment(&mut self)
        requires
            old(self).depth < u32::MAX,
        ensures
            final(self).depth == old(self).depth + 1,
    {
        self.depth = self.depth + 1;
    }

    /// Whether the depth is to be warned of.
    pub fn should_warn(&self) -> (r: bool)
        ensures
            r == (self.depth >= DEFAULT_HANDOFF_WARN_DEPTH),
    {
        self.depth >= DEFAULT_HANDOFF_WARN_DEPTH
    }

    /// Whether the chain has run away: no further handoff is made.
    pub fn runaway(&self) -> (r: bool)
        ensures
            r == (self.depth >= DEFAULT_MAX_HANDOFF_DEPTH),
    {
        self.depth >= DEFAULT_MAX_HANDOFF_DEPTH
    }
}

// ---------------------------------------------------------------------------
// When a handoff is due, and what is asked
// ---------------------------------------------------------------------------

/// Whether a conversation takes up the given share of a context. A context of
/// unknown size is never full.
pub open spec fn handoff_due(v: Seq<MessageModel>, context_tokens: u64, pct: u8) -> bool {
    context_tokens != 0 && context::capped(context::messages_tokens(v)) >= context_tokens * pct / 100
}

/// Whether a handoff is to be made before the next request.
pub fn should_attempt_handoff(
    messages: &[Message],
    context_tokens: u64,
    threshold_pct: u8,
) -> (r: bool)
    ensures
        r == handoff_due(llm::message_views(messages@), context_tokens, threshold_pct),
{
    if context_tokens == 0 {
        return false;
    }
    proof {
        assert(context_tokens * threshold_pct <= u64::MAX * 255) by (nonlinear_arith)
            requires
                context_tokens <= u64::MAX,
                threshold_pct <= 255,
        ;
    }
    let threshold: u128 = (context_tokens as u128) * (threshold_pct as u128) / 100;
    let estimated: u128 = context::estimate_messages_tokens(messages) as u128;
    estimated >= threshold
}

/// The heading of a section.
pub open spec fn section_heading(i: int) -> Seq<char> {
    text::decimal((i + 1) as nat) + ". "@ + HANDOFF_SECTIONS@[i]@
}

/// The headings of all sections.
pub open spec fn section_headings() -> Seq<Seq<char>> {
    Seq::new(9, |i: int| section_heading(i))
}

/// The heading of a section.
fn heading(i: usize) -> (r: String)
    requires
        i < 9,
    ensures
        r@ == section_heading(i as int),
{
    let mut out = text::show(i as u64 + 1);
    out.append(". ");
    out.append(HANDOFF_SECTIONS[i]);
    out
}

/// The instruction that asks for a summary and the task that remains.
pub open spec fn handoff_prompt() -> Seq<char> {
    "컨텍스트 한계에 도달했습니다. 도구를 사용하지 말고, 지금까지의 작업을 아래 9개 섹션으로 정리한 구조화 요약을 작성하라.\n\n반드시 파일 경로·결정사항·주의점·현재 상태를 모두 포함하라. 후속 세그먼트는 이전 대화를 볼 수 없다.\n\n"@
        + text::joined(section_headings(), "\n"@) + "\n\n그 아래 `"@ + NEXT_TASK_MARKER@
        + "` 마커에 \"후속 세그먼트가 바로 이어서 실행할 수 있는 완결형 작업 프롬프트\"를 작성하라. 남은 작업이 없으면 `"@
        + NEXT_TASK_MARKER@ + "` 아래를 비워 두고 체인 완료를 선언하라.\n"@
}

/// The instruction that asks for a summary and the task that remains.
pub fn build_handoff_prompt() -> (r: String)
    ensures
        r@ == handoff_prompt(),
{
    let mut sections: Vec<String> = Vec::new();
    let mut i: usize = 0;
    while i < 9
        invariant
            i <= 9,
            text::views(sections@) == section_headings().take(i as int),
        decreases 9 - i,
    {
        let h = heading(i);
        sections.push(h);
        proof {
            assert(text::views(sections@) =~= section_headings().take(i as int).push(h@));
            assert(section_headings().take(i + 1) =~= section_headings().take(i as int).push(
                section_headings()[i as int],
            ));
        }
        i = i + 1;
    }
    proof {
        assert(section_headings().take(9) =~= section_headings());
    }
    let mut out =
        "컨텍스트 한계에 도달했습니다. 도구를 사용하지 말고, 지금까지의 작업을 아래 9개 섹션으로 정리한 구조화 요약을 작성하라.\n\n반드시 파일 경로·결정사항·주의점·현재 상태를 모두 포함하라. 후속 세그먼트는 이전 대화를 볼 수 없다.\n\n".to_string();
    let list = text::join(&sections, "\n");
    out.append(list.as_str());
    out.append("\n\n그 아래 `");
    out.append(NEXT_TASK_MARKER);
    out.append(
        "` 마커에 \"후속 세그먼트가 바로 이어서 실행할 수 있는 완결형 작업 프롬프트\"를 작성하라. 남은 작업이 없으면 `",
    );
    out.append(NEXT_TASK_MARKER);
    out.append("` 아래를 비워 두고 체인 완료를 선언하라.\n");
    out
}

/// The messages of a handoff request: the system prompt and the instruction.
pub fn build_handoff_messages(system_prompt: &str, user_prompt: &str) -> (r: Vec<Message>)
    ensures
        llm::message_views(r@) == seq![
            llm::text_message("system"@, system_prompt@),
            llm::text_message("user"@, user_prompt@),
        ],
{
    let mut out: Vec<Message> = Vec::new();
    out.push(Message::text("system", system_prompt.to_string()));
    out.push(Message::text("user", user_prompt.to_string()));
    proof {
        assert(llm::message_views(out@) =~= seq![
            llm::text_message("system"@, system_prompt@),
            llm::text_message("user"@, user_prompt@),
        ]);
    }
    out
}

/// The number of tokens that a summary may take: a quarter of the context.
pub open spec fn summary_tokens(context_tokens: u64) -> u64 {
    if context_tokens / 4 >= 1 {
        context_tokens / 4
    } else {
        1
    }
}

/// The number of tokens that a summary may take: a quarter of the context, and
/// one at least.
pub fn handoff_max_tokens(context_tokens: u64) -> (r: u64)
    ensures
        r == summary_tokens(context_tokens),
{
    if context_tokens / 4 >= 1 {
        context_tokens / 4
    } else {
        1
    }
}

// ---------------------------------------------------------------------------
// Reading the answer
// ---------------------------------------------------------------------------

/// The summary of an answer: what stands before the last marker, or all of it.
pub open spec fn summary_of(content: Seq<char>) -> Seq<char> {
    match text::rfind(content, NEXT_TASK_MARKER@) {
        Some(i) => text::trimmed(content.take(i)),
        None => text::trimmed(content),
    }
}

/// The task that remains by an answer: what stands behind the last marker.
pub open spec fn next_task_of(content: Seq<char>) -> Seq<char> {
    match text::rfind(content, NEXT_TASK_MARKER@) {
        Some(i) => text::trimmed(content.skip(i + NEXT_TASK_MARKER@.len())),
        None => Seq::empty(),
    }
}

/// The sections below `n` whose heading stands in an answer, in order.
pub open spec fn sections_of(content: Seq<char>, n: nat) -> Seq<usize>
    decreases n,
{
    if n == 0 {
        Seq::empty()
    } else {
        let rest = sections_of(content, (n - 1) as nat);
        if text::contains(content, section_heading(n - 1)) {
            rest.push((n - 1) as usize)
        } else {
            rest
        }
    }
}

/// What an answer holds.
pub open spec fn parsed_handoff(content: Seq<char>) -> HandoffModel {
    HandoffModel {
        summary: summary_of(content),
        next_task: next_task_of(content),
        sections: sections_of(content, 9),
    }
}

/// Reads the answer to a handoff request.
pub fn parse_handoff_response(content: &str) -> (r: HandoffResponse)
    ensures
        r@ == parsed_handoff(content@),
{
    let v = text::chars_of(content);
    let p = text::chars_of(NEXT_TASK_MARKER);
    let summary: String;
    let next_task: String;
    match text::search_last(&v, &p) {
        Some(i) => {
            let n: usize = v.len();
            let before = text::slice(content, 0, i);
            let after = text::slice(content, i + p.len(), n);
            proof {
                assert(content@.subrange(0, i as int) =~= content@.take(i as int));
                assert(content@.subrange(i + p@.len(), n as int) =~= content@.skip(i + p@.len()));
            }
            summary = text::trim(before).to_string();
            next_task = text::trim(after).to_string();
        },
        None => {
            summary = text::trim(content).to_string();
            next_task = String::new();
        },
    }
    let mut sections: Vec<usize> = Vec::new();
    let mut i: usize = 0;
    while i < 9
        invariant
            i <= 9,
            sections@ == sections_of(content@, i as nat),
        decreases 9 - i,
    {
        let h = heading(i);
        if text::has(content, h.as_str()) {
            sections.push(i);
        }
        i = i + 1;
    }
    HandoffResponse { summary, next_task, sections }
}

/// Whether a summary is acceptable: it is long enough, holds every required
/// word, repeats no line too often and is not garbled.
pub open spec fn acceptable(s: Seq<char>) -> bool {
    &&& s.len() >= MIN_SUMMARY_LEN
    &&& forall|i: int| 0 <= i < 5 ==> text::contains(s, #[trigger] REQUIRED_KEYWORDS@[i]@)
    &&& !guards::line_repeats(s, None, MAX_DUPLICATE_LINE as nat)
    &&& !guards::garbled(s)
}

/// Whether a line stands too often in a text.
fn degenerate_line_repeat(text: &str) -> (r: bool)
    ensures
        r == guards::line_repeats(text@, None, MAX_DUPLICATE_LINE as nat),
{
    guards::has_repeated_line(text, None, MAX_DUPLICATE_LINE as usize)
}

/// Whether a text is garbled.
fn degenerate_fffd(text: &str) -> (r: bool)
    ensures
        r == guards::garbled(text@),
{
    guards::is_garbled(text)
}

/// The quality gate of a summary.
pub fn is_handoff_summary_acceptable(summary: &str) -> (r: bool)
    ensures
        r == acceptable(summary@),
{
    if summary.unicode_len() < MIN_SUMMARY_LEN {
        return false;
    }
    let mut i: usize = 0;
    while i < 5
        invariant
            i <= 5,
            forall|k: int|
                0 <= k < i ==> text::contains(summary@, #[trigger] REQUIRED_KEYWORDS@[k]@),
        decreases 5 - i,
    {
        if !text::has(summary, REQUIRED_KEYWORDS[i]) {
            proof {
                assert(!text::contains(summary@, REQUIRED_KEYWORDS@[i as int]@));
            }
            return false;
        }
        i = i + 1;
    }
    if degenerate_line_repeat(summary) {
        return false;
    }
    if degenerate_fffd(summary) {
        return false;
    }
    true
}

/// What an answer comes to: without an acceptable summary the segment goes on,
/// without a remaining task the chain is complete.
pub open spec fn decision_of(h: HandoffModel) -> HandoffDecision {
    if !acceptable(h.summary) {
        HandoffDecision::Fallback
    } else if text::blank(h.next_task) {
        HandoffDecision::Complete
    } else {
        HandoffDecision::Handoff
    }
}

/// What an answer comes to.
pub fn decide_handoff(h: &HandoffResponse) -> (r: HandoffDecision)
    ensures
        r == decision_of(h@),
{
    if !is_handoff_summary_acceptable(h.summary.as_str()) {
        HandoffDecision::Fallback
    } else if text::is_blank(h.next_task.as_str()) {
        HandoffDecision::Complete
    } else {
        HandoffDecision::Handoff
    }
}

/// The prompt of a new segment: the summary, the marker, and the task.
pub open spec fn segment_prompt(summary: Seq<char>, next_task: Seq<char>) -> Seq<char> {
    summary + "\n\n"@ + NEXT_TASK_MARKER@ + "\n"@ + next_task
}

/// The prompt of a new segment.
pub fn build_new_segment_prompt(handoff: &HandoffResponse) -> (r: String)
    ensures
        r@ == segment_prompt(handoff.summary@, handoff.next_task@),
{
    let mut out = handoff.summary.clone();
    out.append("\n\n");
    out.append(NEXT_TASK_MARKER);
    out.append("\n");
    out.append(handoff.next_task.as_str());
    out
}

// ---------------------------------------------------------------------------
// The chain
// ---------------------------------------------------------------------------

/// Whether the status of a segment spoils its chain.
pub open spec fn spoils(status: Seq<char>) -> bool {
    status == "failed"@ || status == "incomplete"@
}

/// The status of a chain: incomplete as soon as one segment failed or was left
/// incomplete.
pub open spec fn status_of_chain(statuses: Seq<Seq<char>>) -> Seq<char> {
    if exists|i: int| 0 <= i < statuses.len() && spoils(#[trigger] statuses[i]) {
        "incomplete"@
    } else {
        "completed"@
    }
}

/// The status of a chain from the statuses of its segments.
pub fn chain_status(segment_statuses: &[&str]) -> (r: &'static str)
    ensures
        r@ == status_of_chain(segment_statuses@.map_values(|s: &str| s@)),
{
    let ghost all = segment_statuses@.map_values(|s: &str| s@);
    let mut i: usize = 0;
    while i < segment_statuses.len()
        invariant
            i <= segment_statuses.len(),
            all == segment_statuses@.map_values(|s: &str| s@),
            forall|k: int| 0 <= k < i ==> !spoils(#[trigger] all[k]),
        decreases segment_statuses.len() - i,
    {
        let s = segment_statuses[i];
        if text::str_eq(s, "failed") || text::str_eq(s, "incomplete") {
            proof {
                assert(spoils(all[i as int]));
            }
            return "incomplete";
        }
        i = i + 1;
    }
    "completed"
}

/// The name of a decision.
pub open spec fn decision_name(d: HandoffDecision) -> Seq<char> {
    match d {
        HandoffDecision::Handoff => "Handoff"@,
        HandoffDecision::Complete => "Complete"@,
        HandoffDecision::Fallback => "Fallback"@,
    }
}

/// The report of a decision.
pub fn handoff_report_json(decision: &HandoffDecision) -> (r: Json)
    ensures
        r@ == JsonModel::Object(
            seq![("decision"@, JsonModel::Str(decision_name(*decision)))],
        ),
{
    let name = match decision {
        HandoffDecision::Handoff => "Handoff",
        HandoffDecision::Complete => "Complete",
        HandoffDecision::Fallback => "Fallback",
    };
    let mut members: Vec<(String, Json)> = Vec::new();
    members.push(("decision".to_string(), Json::string(name)));
    proof {
        assert(Json::members(members@) =~= seq![
            ("decision"@, JsonModel::Str(decision_name(*decision))),
        ]);
    }
    Json::object(members)
}

// ---------------------------------------------------------------------------
// Laws
// ---------------------------------------------------------------------------

/// The last occurrence of the marker in the prompt of a new segment is the one
/// that the prompt was built with.
proof fn lemma_marker_position(summary: Seq<char>, next_task: Seq<char>)
    requires
        !text::contains(next_task, NEXT_TASK_MARKER@),
    ensures
        text::rfind(segment_prompt(summary, next_task), NEXT_TASK_MARKER@) == Some(
            summary.len() as int + 2,
        ),
        segment_prompt(summary, next_task).take(summary.len() as int + 2) == summary + "\n\n"@,
        segment_prompt(summary, next_task).skip(summary.len() as int + 2 + NEXT_TASK_MARKER@.len())
            == "\n"@ + next_task,
{
    reveal_strlit("\n\n");
    reveal_strlit("\n");
    reveal_strlit("===NEXT_TASK===");
    let m = NEXT_TASK_MARKER@;
    let c = segment_prompt(summary, next_task);
    let k = summary.len() as int + 2;
    let end = k + m.len();
    assert(m.len() == 15);
    assert(c.subrange(k, end) =~= m);
    assert(c.take(k) =~= summary + "\n\n"@);
    assert(c.skip(end) =~= "\n"@ + next_task);
    assert(c[end] == '\n');
    text::lemma_rfind_from(c, m, c.len() - m.len());
    assert(text::occurs_at(c, m, k));
    assert forall|j: int| k < j implies !text::occurs_at(c, m, j) by {
        if text::occurs_at(c, m, j) {
            if j <= end {
                let d = end - j;
                assert(c.subrange(j, j + m.len())[d] == c[end]);
                assert(m[d] == '\n');
                assert(forall|i: int| 0 <= i < 15 ==> m[i] != '\n');
            } else {
                let p = j - end - 1;
                assert(next_task.subrange(p, p + m.len()) =~= c.subrange(j, j + m.len()));
                assert(text::occurs_at(next_task, m, p));
            }
        }
    }
    match text::rfind(c, m) {
        Some(i) => {
            if i < k {
                assert(!text::occurs_at(c, m, k));
            }
        },
        None => {},
    }
}

/// Reading the prompt of a new segment gives back the summary and the task that
/// it was built from, where neither has white space around it and the task does
/// not hold the marker.
pub proof fn law_segment_prompt_roundtrip(summary: Seq<char>, next_task: Seq<char>)
    requires
        text::tight(summary),
        text::tight(next_task),
        !text::contains(next_task, NEXT_TASK_MARKER@),
    ensures
        summary_of(segment_prompt(summary, next_task)) == summary,
        next_task_of(segment_prompt(summary, next_task)) == next_task,
{
    reveal_strlit("\n\n");
    reveal_strlit("\n");
    lemma_marker_position(summary, next_task);
    let none = Seq::<char>::empty();
    assert(none + summary + "\n\n"@ =~= summary + "\n\n"@);
    text::lemma_trim_pads(none, summary, "\n\n"@);
    assert("\n"@ + next_task + none =~= "\n"@ + next_task);
    text::lemma_trim_pads("\n"@, next_task, none);
}

/// What is read from an answer has no white space around it, so that it comes
/// through a further handoff unchanged.
pub proof fn law_parsed_parts_are_tight(content: Seq<char>)
    ensures
        text::tight(summary_of(content)),
        text::tight(next_task_of(content)),
{
    match text::rfind(content, NEXT_TASK_MARKER@) {
        Some(i) => {
            text::lemma_tight(content.take(i));
            text::lemma_tight(content.skip(i + NEXT_TASK_MARKER@.len()));
        },
        None => {
            text::lemma_tight(content);
        },
    }
}

/// The task that is read from an answer never holds the marker: it stands
/// behind the last one.
pub proof fn law_next_task_holds_no_marker(content: Seq<char>)
    ensures
        !text::contains(next_task_of(content), NEXT_TASK_MARKER@),
{
    reveal_strlit("===NEXT_TASK===");
    let m = NEXT_TASK_MARKER@;
    match text::rfind(content, m) {
        Some(i) => {
            text::lemma_rfind_from(content, m, content.len() - m.len());
            let rest = content.skip(i + m.len());
            text::lemma_trimmed_start(rest);
            text::lemma_trimmed_end(text::trimmed_start(rest));
            let a = text::trimmed_start(rest);
            let t = next_task_of(content);
            let off = rest.len() - a.len();
            if text::contains(t, m) {
                let p = choose|p: int| text::occurs_at(t, m, p);
                let q = i + m.len() + off + p;
                assert(t.subrange(p, p + m.len()) =~= content.subrange(q, q + m.len())) by {
                    assert(a =~= rest.skip(off));
                    assert(t =~= a.take(t.len() as int));
                }
                assert(text::occurs_at(content, m, q));
                assert(q > i);
            }
        },
        None => {
            if text::contains(next_task_of(content), m) {
                let p = choose|p: int| text::occurs_at(next_task_of(content), m, p);
                assert(text::occurs_at(next_task_of(content), m, p));
            }
        },
    }
}

/// A handoff survives being read, built into the prompt of the next segment and
/// read again: whatever the model answered, the summary and the task stay.
pub proof fn law_handoff_is_stable(content: Seq<char>)
    ensures
        summary_of(segment_prompt(summary_of(content), next_task_of(content))) == summary_of(
            content,
        ),
        next_task_of(segment_prompt(summary_of(content), next_task_of(content))) == next_task_of(
            content,
        ),
{
    law_parsed_parts_are_tight(content);
    law_next_task_holds_no_marker(content);
    law_segment_prompt_roundtrip(summary_of(content), next_task_of(content));
}

/// Once a handoff is due it stays due while the conversation grows.
pub proof fn law_handoff_stays_due(
    v: Seq<MessageModel>,
    more: Seq<MessageModel>,
    context_tokens: u64,
    pct: u8,
)
    requires
        handoff_due(v, context_tokens, pct),
    ensures
        handoff_due(v + more, context_tokens, pct),
{
    context::lemma_messages_tokens_concat(v, more);
}

/// A chain that has run away was warned of before.
pub proof fn law_runaway_was_warned_of(guard: HandoffDepthGuard)
    requires
        guard.depth >= DEFAULT_MAX_HANDOFF_DEPTH,
    ensures
        guard.depth >= DEFAULT_HANDOFF_WARN_DEPTH,
{
}

/// One failed or incomplete segment decides the status of its chain, wherever
/// it stands; without one the chain is complete.
pub proof fn law_chain_inherits_failure(statuses: Seq<Seq<char>>, i: int)
    requires
        0 <= i < statuses.len(),
        spoils(statuses[i]),
    ensures
        status_of_chain(statuses) == "incomplete"@,
{
}

} // verus!
