//! What the commands keep of what they are given, and what they tell.
use vstd::prelude::*;

use crate::agent::handoff::HandoffDecision;
use crate::agent::laws as agent_laws;
use crate::agent::loop_::{ResultModel, SegmentStatus};
use crate::cli::chat_cmd;
use crate::cli::chat_cmd::{
    ActionModel, Chat, ChatModel, InputModel, SetupModel, SetupOutcomeModel, SetupStep, Surface,
    TurnResultModel, TurnStateModel,
};
use crate::cli::run_cmd;
use crate::cli::run_cmd::{ChainModel, Report, RunOutcome};
use crate::cli::stream;
use crate::config::EndpointModel;
use crate::i18n;
use crate::i18n::Language;
use crate::json::JsonModel;
use crate::llm;
use crate::session;
use crate::session::{SessionModel, TurnModel};
use crate::session_laws;
use crate::slash;
use crate::text;
use crate::tools::laws;

verus! {

// ---------------------------------------------------------------------------
// Runs
// ---------------------------------------------------------------------------

/// A chain begins with the prompt and the limits that it is given, and with
/// nothing done.
pub proof fn law_chain_begins_with_the_prompt(
    prompt: Seq<char>,
    max_depth: u32,
    max_time: Option<u64>,
)
    ensures
        ({
            let c = run_cmd::begun(prompt, max_depth, max_time);
            &&& c.prompt == prompt && c.max_depth == max_depth && c.max_time == max_time
            &&& c.depth == 0 && c.parent_run_id is None
            &&& c.run_ids.len() == 0 && c.files_touched.len() == 0 && c.statuses.len() == 0
            &&& c.input_tokens == 0 && c.output_tokens == 0
        }),
{
}

/// A run that is noted is kept behind those before it, the next segment follows
/// it, and nothing else changes.
pub proof fn law_run_is_noted(c: ChainModel, run_id: i64)
    ensures
        ({
            let d = run_cmd::noted(c, run_id);
            &&& d.run_ids.last() == run_id && d.run_ids.drop_last() == c.run_ids
            &&& d.parent_run_id == Some(run_id)
            &&& d.prompt == c.prompt && d.depth == c.depth && d.statuses == c.statuses
            &&& d.files_touched == c.files_touched
        }),
{
    assert(run_cmd::noted(c, run_id).run_ids.drop_last() =~= c.run_ids);
}

/// A chain keeps the status of every segment, in order, adds up the tokens, and
/// keeps every file that was touched.
pub proof fn law_chain_keeps_what_was_done(c: ChainModel, r: ResultModel, touched: Seq<Seq<char>>)
    requires
        forall|j: int, k: int| 0 <= j < k < c.files_touched.len() ==> c.files_touched[j]
            != c.files_touched[k],
    ensures
        ({
            let d = run_cmd::chain_after(c, r, touched);
            &&& d.statuses == c.statuses.push(r.status)
            &&& c.input_tokens + r.input_tokens <= u64::MAX ==> d.input_tokens == c.input_tokens
                + r.input_tokens
            &&& c.output_tokens + r.output_tokens <= u64::MAX ==> d.output_tokens
                == c.output_tokens + r.output_tokens
            &&& c.input_tokens + r.input_tokens > u64::MAX ==> d.input_tokens == u64::MAX
            &&& c.output_tokens + r.output_tokens > u64::MAX ==> d.output_tokens == u64::MAX
            &&& c.files_touched.is_prefix_of(d.files_touched)
            &&& forall|k: int|
                0 <= k < touched.len() ==> d.files_touched.contains(#[trigger] touched[k])
            &&& d.run_ids == c.run_ids && d.parent_run_id == c.parent_run_id
        }),
{
    run_cmd::law_files_are_kept_once(c.files_touched, touched);
}

/// A segment that hands over is followed by another, one deeper, which is told
/// the whole summary and the whole next task; any other one ends the chain and
/// leaves the prompt as it was.
pub proof fn law_chain_hands_on(c: ChainModel, r: ResultModel, touched: Seq<Seq<char>>)
    requires
        c.depth < c.max_depth,
    ensures
        r.handoff == Some(HandoffDecision::Handoff) && r.status == SegmentStatus::Completed
            && r.handoff_response is Some ==> {
            let d = run_cmd::chain_after(c, r, touched);
            &&& run_cmd::hands_over(r)
            &&& d.depth == c.depth + 1
            &&& r.handoff_response->0.summary.is_prefix_of(d.prompt)
            &&& r.handoff_response->0.next_task.is_suffix_of(d.prompt)
        },
        !(r.handoff == Some(HandoffDecision::Handoff) && r.status == SegmentStatus::Completed
            && r.handoff_response is Some) ==> {
            let d = run_cmd::chain_after(c, r, touched);
            &&& !run_cmd::hands_over(r)
            &&& d.depth == c.depth
            &&& d.prompt == c.prompt
        },
{
    if run_cmd::hands_over(r) {
        agent_laws::law_next_segment_is_told_all(
            r.handoff_response->0.summary,
            r.handoff_response->0.next_task,
        );
    }
}

/// What a chain comes to is what its last segment came to: it is completed where
/// that says so, failed where that failed, interrupted where that was, and
/// otherwise incomplete.
pub proof fn law_outcome_is_that_of_the_last_segment(r: ResultModel)
    ensures
        r.status == SegmentStatus::Completed && r.handoff == Some(HandoffDecision::Complete)
            <==> run_cmd::outcome_of(r) == RunOutcome::Completed,
        r.status == SegmentStatus::Failed <==> run_cmd::outcome_of(r) == RunOutcome::Failed,
        r.status == SegmentStatus::Interrupted <==> run_cmd::outcome_of(r)
            == RunOutcome::Interrupted,
{
}

/// A chain goes on while it is not too deep, has time left and was not
/// interrupted, and only then.
pub proof fn law_chain_goes_on(c: ChainModel, elapsed_secs: u64, interrupted: bool)
    ensures
        run_cmd::stop_of(c, elapsed_secs, interrupted) is None <==> c.depth < c.max_depth && (
        c.max_time is None || elapsed_secs < c.max_time->0) && !interrupted,
        run_cmd::stop_of(c, elapsed_secs, interrupted) == Some(RunOutcome::Interrupted) ==> interrupted,
        run_cmd::stop_of(c, elapsed_secs, interrupted) != Some(RunOutcome::Completed),
        run_cmd::stop_of(c, elapsed_secs, interrupted) != Some(RunOutcome::Failed),
{
}

/// The outcomes have different names.
pub proof fn law_outcomes_are_told_apart(a: RunOutcome, b: RunOutcome)
    ensures
        a.name() == b.name() ==> a == b,
{
    reveal_strlit("completed");
    reveal_strlit("failed");
    reveal_strlit("incomplete");
    reveal_strlit("interrupted");
    assert("completed"@.len() == 9);
    assert("failed"@.len() == 6);
    assert("incomplete"@.len() == 10);
    assert("interrupted"@.len() == 11);
}

/// A file is kept where it was known or touched, and no other is.
pub proof fn law_no_other_file_is_kept(
    files: Seq<Seq<char>>,
    more: Seq<Seq<char>>,
    f: Seq<char>,
)
    ensures
        run_cmd::merged(files, more).contains(f) ==> files.contains(f) || more.contains(f),
    decreases more.len(),
{
    if more.len() > 0 {
        let d = more.drop_last();
        law_no_other_file_is_kept(files, d, f);
        let before = run_cmd::merged(files, d);
        let after = run_cmd::merged(files, more);
        if after.contains(f) {
            let k = choose|k: int| 0 <= k < after.len() && after[k] == f;
            if k < before.len() {
                assert(before[k] == f);
                assert(before.contains(f));
                if d.contains(f) {
                    let j = choose|j: int| 0 <= j < d.len() && d[j] == f;
                    assert(more[j] == f);
                }
            } else {
                assert(more[more.len() - 1] == f);
            }
        }
    }
}

/// The endpoint of a run is the one that is named, else the active one; its model
/// is the one that is given, else its own, and all else of it stays.
pub proof fn law_endpoint_of_a_run(
    given: Seq<char>,
    active: Seq<char>,
    ep: EndpointModel,
    model: Seq<char>,
)
    ensures
        run_cmd::chosen_name(Some(given), Some(active)) == given,
        run_cmd::chosen_name(Some(given), None) == given,
        run_cmd::chosen_name(None, Some(active)) == active,
        run_cmd::chosen_name(None, None).len() == 0,
        run_cmd::with_model(ep, Some(model)).model == model,
        run_cmd::with_model(ep, Some(model)).url == ep.url,
        run_cmd::with_model(ep, Some(model)).api_key == ep.api_key,
        run_cmd::with_model(ep, Some(model)).context_tokens == ep.context_tokens,
        run_cmd::with_model(ep, Some(model)).max_iterations == ep.max_iterations,
        run_cmd::with_model(ep, None) == ep,
{
}

proof fn lemma_member_at(
    m: Seq<(Seq<char>, JsonModel)>,
    i: int,
)
    requires
        0 <= i < m.len(),
        forall|j: int| 0 <= j < i ==> (#[trigger] m[j]).0.len() != m[i].0.len() || m[j].0[0]
            != m[i].0[0],
    ensures
        crate::json::member(m, m[i].0) == Some(m[i].1),
    decreases i,
{
    if i > 0 {
        assert(m[0].0.len() != m[i].0.len() || m[0].0[0] != m[i].0[0]);
        let rest = m.skip(1);
        assert forall|j: int| 0 <= j < i - 1 implies (#[trigger] rest[j]).0.len()
            != rest[i - 1].0.len() || rest[j].0[0] != rest[i - 1].0[0] by {
            assert(rest[j] == m[j + 1]);
        }
        lemma_member_at(rest, i - 1);
    }
}

/// The report of a run tells what the run came to, under the name of each thing.
pub proof fn law_report_tells_the_run(r: Report)
    ensures
        run_cmd::report_json(r).field("version"@) == Some(JsonModel::Str(r.version@)),
        run_cmd::report_json(r).field("status"@) == Some(JsonModel::Str(r.status@)),
        run_cmd::report_json(r).field("chain_id"@) == Some(JsonModel::Str(r.chain_id@)),
        run_cmd::report_json(r).field("segments"@) == Some(JsonModel::UInt(r.segments as u64)),
        run_cmd::report_json(r).field("handoff_depth"@) == Some(
            JsonModel::UInt(r.handoff_depth as u64),
        ),
        run_cmd::report_json(r).field("endpoint"@) == Some(JsonModel::Str(r.endpoint@)),
        run_cmd::report_json(r).field("model"@) == Some(JsonModel::Str(r.model@)),
        run_cmd::report_json(r).field("input_tokens"@) == Some(JsonModel::UInt(r.input_tokens)),
        run_cmd::report_json(r).field("output_tokens"@) == Some(JsonModel::UInt(r.output_tokens)),
        run_cmd::report_json(r).field("duration_ms"@) == Some(JsonModel::UInt(r.duration_ms)),
        run_cmd::report_json(r).field("result"@) == Some(JsonModel::Str(r.result@)),
{
    reveal_strlit("version");
    reveal_strlit("status");
    reveal_strlit("chain_id");
    reveal_strlit("segments");
    reveal_strlit("handoff_depth");
    reveal_strlit("endpoint");
    reveal_strlit("model");
    reveal_strlit("input_tokens");
    reveal_strlit("output_tokens");
    reveal_strlit("duration_ms");
    reveal_strlit("files_touched");
    reveal_strlit("result");
    let m = run_cmd::report_json(r)->Object_0;
    assert("version"@.len() == 7);
    assert("status"@.len() == 6 && "status"@[0] == 's');
    assert("chain_id"@.len() == 8 && "chain_id"@[0] == 'c');
    assert("segments"@.len() == 8 && "segments"@[0] == 's');
    assert("handoff_depth"@.len() == 13 && "handoff_depth"@[0] == 'h');
    assert("endpoint"@.len() == 8 && "endpoint"@[0] == 'e');
    assert("model"@.len() == 5);
    assert("input_tokens"@.len() == 12);
    assert("output_tokens"@.len() == 13 && "output_tokens"@[0] == 'o');
    assert("duration_ms"@.len() == 11);
    assert("files_touched"@.len() == 13 && "files_touched"@[0] == 'f');
    assert("result"@.len() == 6 && "result"@[0] == 'r');
    lemma_member_at(m, 0);
    lemma_member_at(m, 1);
    lemma_member_at(m, 2);
    lemma_member_at(m, 3);
    lemma_member_at(m, 4);
    lemma_member_at(m, 5);
    lemma_member_at(m, 6);
    lemma_member_at(m, 7);
    lemma_member_at(m, 8);
    lemma_member_at(m, 9);
    lemma_member_at(m, 11);
}

// ---------------------------------------------------------------------------
// Turns of a conversation
// ---------------------------------------------------------------------------

/// A turn begins with its prompt and with nothing done.
pub proof fn law_turn_begins_with_the_prompt(prompt: Seq<char>)
    ensures
        ({
            let t = chat_cmd::turn_begun(prompt);
            &&& t.prompt == prompt && t.depth == 0 && t.parent_run_id is None
            &&& t.content.len() == 0 && t.reasoning.len() == 0
            &&& t.run_ids.len() == 0 && t.files_touched.len() == 0 && t.statuses.len() == 0
            &&& t.input_tokens == 0 && t.output_tokens == 0
        }),
{
}

/// A turn keeps the answer and the thoughts of its segments: the last answer
/// that says something, and all thoughts, one behind the other. Its tokens add
/// up, and every file that was touched is kept.
pub proof fn law_turn_keeps_what_was_said(
    t: TurnStateModel,
    r: ResultModel,
    touched: Seq<Seq<char>>,
)
    requires
        forall|j: int, k: int| 0 <= j < k < t.files_touched.len() ==> t.files_touched[j]
            != t.files_touched[k],
    ensures
        ({
            let u = chat_cmd::turn_after(t, r, touched);
            &&& !text::blank(r.content) ==> u.content == r.content
            &&& text::blank(r.content) ==> u.content == t.content
            &&& !text::blank(r.reasoning) ==> u.reasoning == t.reasoning + r.reasoning
            &&& text::blank(r.reasoning) ==> u.reasoning == t.reasoning
            &&& u.statuses == t.statuses.push(r.status)
            &&& t.input_tokens + r.input_tokens <= u64::MAX ==> u.input_tokens == t.input_tokens
                + r.input_tokens
            &&& t.output_tokens + r.output_tokens <= u64::MAX ==> u.output_tokens
                == t.output_tokens + r.output_tokens
            &&& t.files_touched.is_prefix_of(u.files_touched)
            &&& forall|k: int|
                0 <= k < touched.len() ==> u.files_touched.contains(#[trigger] touched[k])
            &&& u.run_ids == t.run_ids && u.parent_run_id == t.parent_run_id
        }),
{
    run_cmd::law_files_are_kept_once(t.files_touched, touched);
}

/// A segment that hands over lets the turn go on, one deeper, with a prompt that
/// holds the whole summary and the whole next task; any other one ends it.
pub proof fn law_turn_hands_on(
    lang: Language,
    t: TurnStateModel,
    r: ResultModel,
    touched: Seq<Seq<char>>,
    ms: u64,
)
    requires
        t.depth < u32::MAX,
    ensures
        chat_cmd::turn_outcome(lang, t, r, touched, ms) is None <==> r.handoff == Some(
            HandoffDecision::Handoff,
        ) && r.status == SegmentStatus::Completed && r.handoff_response is Some,
        chat_cmd::turn_outcome(lang, t, r, touched, ms) is None ==> {
            let u = chat_cmd::turn_after(t, r, touched);
            &&& u.depth == t.depth + 1
            &&& r.handoff_response->0.summary.is_prefix_of(u.prompt)
            &&& r.handoff_response->0.next_task.is_suffix_of(u.prompt)
        },
{
    if run_cmd::hands_over(r) {
        agent_laws::law_next_segment_is_told_all(
            r.handoff_response->0.summary,
            r.handoff_response->0.next_task,
        );
    }
}

/// A turn that ends tells the answer that was given, with a notice behind it only
/// where the work failed or is not done, and with all that was used.
pub proof fn law_end_of_a_turn_tells_the_answer(
    lang: Language,
    t: TurnStateModel,
    r: ResultModel,
    touched: Seq<Seq<char>>,
    ms: u64,
)
    requires
        chat_cmd::turn_outcome(lang, t, r, touched, ms) is Some,
        !text::blank(r.content),
    ensures
        ({
            let u = chat_cmd::turn_after(t, r, touched);
            let o = chat_cmd::turn_outcome(lang, t, r, touched, ms)->0;
            &&& r.content.is_prefix_of(o.content)
            &&& r.status == SegmentStatus::Completed || r.status == SegmentStatus::Interrupted
                ==> o.content == r.content
            &&& r.status == SegmentStatus::Failed ==> i18n::message(
                lang,
                chat_cmd::FAILED_NOTE@,
            ).is_suffix_of(o.content)
            &&& r.status == SegmentStatus::Incomplete ==> i18n::message(
                lang,
                chat_cmd::INCOMPLETE_NOTE@,
            ).is_suffix_of(o.content)
            &&& o.reasoning == u.reasoning
            &&& o.input_tokens == u.input_tokens && o.output_tokens == u.output_tokens
            &&& o.files_touched == u.files_touched
            &&& o.duration_ms == ms
        }),
{
    let o = chat_cmd::turn_outcome(lang, t, r, touched, ms)->0;
    let a = i18n::message(lang, chat_cmd::FAILED_NOTE@);
    let b = i18n::message(lang, chat_cmd::INCOMPLETE_NOTE@);
    assert(o.content.take(r.content.len() as int) =~= r.content);
    if r.status == SegmentStatus::Failed {
        assert(o.content.subrange(o.content.len() - a.len(), o.content.len() as int) =~= a);
    }
    if r.status == SegmentStatus::Incomplete {
        assert(o.content.subrange(o.content.len() - b.len(), o.content.len() as int) =~= b);
    }
}

/// A turn that is recorded is the last of the session: what the user said, what
/// was answered, with which model, and what it took.
pub proof fn law_turn_is_recorded(
    c: ChatModel,
    user: Seq<char>,
    t: TurnResultModel,
    chain_id: Seq<char>,
    now: Seq<char>,
)
    ensures
        ({
            let s = session::with_turn(
                c.session,
                chat_cmd::kept_turn(c, user, t, chain_id),
                now,
            );
            &&& s.turns.drop_last() == c.session.turns
            &&& s.turns.last().user == user
            &&& s.turns.last().assistant == t.content
            &&& s.turns.last().chain_id == chain_id
            &&& s.turns.last().files_touched == t.files_touched
            &&& s.turns.last().input_tokens == t.input_tokens
            &&& s.turns.last().output_tokens == t.output_tokens
            &&& s.turns.last().model == c.endpoint.model
            &&& s.turns.last().turn == c.turn
            &&& s.session_id == c.session.session_id
        }),
{
    let s = session::with_turn(c.session, chat_cmd::kept_turn(c, user, t, chain_id), now);
    assert(s.turns.drop_last() =~= c.session.turns);
}

/// The next prompt holds every turn so far, or the conversation that was taken
/// up, before what the user says now.
pub proof fn law_prompt_holds_the_conversation(
    c: ChatModel,
    prompt: Seq<char>,
    before: Seq<char>,
    i: int,
)
    ensures
        !text::blank(before) ==> before.is_prefix_of(
            chat_cmd::full_prompt(ChatModel { resume_context: Some(before), ..c }, prompt),
        ),
        0 <= i < c.session.turns.len() && c.resume_context is None && !text::blank(
            session::context_of(c.session.turns),
        ) ==> text::contains(chat_cmd::full_prompt(c, prompt), c.session.turns[i].user)
            && text::contains(chat_cmd::full_prompt(c, prompt), c.session.turns[i].assistant),
{
    let taken = ChatModel { resume_context: Some(before), ..c };
    let p = chat_cmd::full_prompt(taken, prompt);
    if !text::blank(before) {
        assert(p.take(before.len() as int) =~= before);
    }
    let turns = c.session.turns;
    let context = session::context_of(turns);
    if 0 <= i < turns.len() && c.resume_context is None && !text::blank(context) {
        session_laws::law_conversation_holds_every_turn(turns, i);
        let head = "[이번 사용자 메시지]\n"@;
        laws::lemma_held(context, head, turns[i].user);
        laws::lemma_held(context, head, turns[i].assistant);
        laws::lemma_held(context + head, prompt, turns[i].user);
        laws::lemma_held(context + head, prompt, turns[i].assistant);
    }
}

/// A session that is taken up is held with its endpoint and its model, where
/// they are known, and otherwise with those at hand.
pub proof fn law_session_keeps_its_endpoint(
    endpoints: Map<Seq<char>, EndpointModel>,
    ep: EndpointModel,
    s: SessionModel,
)
    ensures
        s.model.len() > 0 ==> chat_cmd::resumed_endpoint(endpoints, ep, s).model == s.model,
        endpoints.dom().contains(s.endpoint) ==> chat_cmd::resumed_endpoint(endpoints, ep, s).url
            == endpoints[s.endpoint].url && chat_cmd::resumed_endpoint(endpoints, ep, s).api_key
            == endpoints[s.endpoint].api_key,
        !endpoints.dom().contains(s.endpoint) ==> chat_cmd::resumed_endpoint(endpoints, ep, s).url
            == ep.url && chat_cmd::resumed_endpoint(endpoints, ep, s).api_key == ep.api_key,
{
}

/// A conversation that is taken up stands behind the system prompt.
pub proof fn law_context_follows_the_system_prompt(system_prompt: Seq<char>, context: Seq<char>)
    ensures
        system_prompt.is_prefix_of(chat_cmd::prompt_with_context(system_prompt, context)),
        context.is_suffix_of(chat_cmd::prompt_with_context(system_prompt, context)),
        chat_cmd::prompt_with_context(system_prompt, Seq::empty()) == system_prompt,
{
    let p = chat_cmd::prompt_with_context(system_prompt, context);
    assert(p.take(system_prompt.len() as int) =~= system_prompt);
    assert(p.subrange(p.len() - context.len(), p.len() as int) =~= context);
}

/// What was said in a session is shown turn by turn: first the user, then the
/// answer.
pub proof fn law_turns_are_shown_in_order(turns: Seq<TurnModel>, i: int)
    requires
        0 <= i < turns.len(),
    ensures
        chat_cmd::lines_said(turns).len() == 2 * turns.len(),
        chat_cmd::lines_said(turns)[2 * i] == (chat_cmd::Role::User, turns[i].user),
        chat_cmd::lines_said(turns)[2 * i + 1] == (chat_cmd::Role::Assistant, turns[i].assistant),
    decreases turns.len(),
{
    let d = turns.drop_last();
    if d.len() > 0 {
        law_turns_are_shown_in_order(
            d,
            if i < d.len() {
                i
            } else {
                0
            },
        );
        if i < d.len() {
            assert(d[i] == turns[i]);
        }
    } else {
        assert(chat_cmd::lines_said(d).len() == 0);
    }
}

// ---------------------------------------------------------------------------
// Summaries
// ---------------------------------------------------------------------------

/// The request for a summary shows the model the whole conversation, and nothing
/// can be called in answer.
pub proof fn law_summary_is_asked_of_everything(
    lang: Language,
    model: Seq<char>,
    transcript: Seq<char>,
)
    ensures
        ({
            let r = chat_cmd::summary_request(lang, model, transcript);
            &&& r.model == model && r.tools.len() == 0 && r.messages.len() == 1
            &&& r.messages[0] == llm::text_message(
                "user"@,
                i18n::message(lang, chat_cmd::COMPACT_INSTRUCTION@) + transcript,
            )
        }),
{
}

/// It is said that a conversation was put into a summary exactly where it was.
pub proof fn law_summary_is_announced(lang: Language, summary: Seq<char>)
    ensures
        !text::blank(summary) ==> chat_cmd::compact_message(lang, Ok(summary)) == i18n::message(
            lang,
            "Compacted the conversation into a summary."@,
        ),
        text::blank(summary) ==> chat_cmd::compact_message(lang, Ok(summary)) == i18n::message(
            lang,
            "Summary was empty; compaction cancelled. (existing session kept)"@,
        ),
{
}

/// The summary is what the model is told of the conversation from then on, and
/// the session is the same otherwise.
pub proof fn law_summary_is_told(lang: Language, s: SessionModel, summary: Seq<char>)
    requires
        !text::blank(summary),
    ensures
        ({
            let after = chat_cmd::compacted(lang, s, Ok(summary));
            &&& after.turns.len() == 1
            &&& after.turns[0].assistant == summary
            &&& after.turns[0].input_tokens == 0 && after.turns[0].output_tokens == 0
            &&& after.turns[0].files_touched.len() == 0
            &&& text::contains(session::context_of(after.turns), summary)
            &&& after.session_id == s.session_id && after.endpoint == s.endpoint && after.model
                == s.model
        }),
{
    let after = chat_cmd::compacted(lang, s, Ok(summary));
    session_laws::law_conversation_holds_every_turn(after.turns, 0);
}

// ---------------------------------------------------------------------------
// Lines of a conversation
// ---------------------------------------------------------------------------

/// What the user types is answered as it is, without white space around it; only
/// a line that begins with a slash is a command, and a blank one does nothing.
pub proof fn law_lines_are_answered(c: Chat, lang: Language, surface: Surface, line: Seq<char>)
    ensures
        text::trimmed(line).len() > 0 && text::trimmed(line)[0] != '/' ==> chat_cmd::line_action(
            c,
            lang,
            surface,
            line,
        ) == ActionModel::Answer(text::trimmed(line)),
        text::trimmed(line).len() == 0 ==> chat_cmd::line_action(c, lang, surface, line)
            == ActionModel::Nothing,
        text::trimmed(line).len() == 0 || text::trimmed(line)[0] != '/' ==> chat_cmd::line_after(
            c@,
            line,
        ) == c@,
{
}

/// A command does what its name says.
pub proof fn law_commands_do_what_they_say(
    c: Chat,
    lang: Language,
    surface: Surface,
    line: Seq<char>,
    args: Seq<char>,
)
    ensures
        chat_cmd::command_action(c, lang, surface, line, "exit"@, args) is Leave,
        chat_cmd::command_action(c, lang, Surface::Console, line, "new"@, args)
            == ActionModel::NewSession,
        chat_cmd::command_action(c, lang, Surface::Console, line, "help"@, args) is Help,
        args.len() > 0 ==> chat_cmd::command_action(
            c,
            lang,
            Surface::Console,
            line,
            "resume"@,
            args,
        ) == ActionModel::Resume(args),
        args.len() == 0 ==> chat_cmd::command_action(c, lang, surface, line, "resume"@, args)
            is SuggestSessions,
        args.len() > 0 ==> chat_cmd::command_action(c, lang, surface, line, "model"@, args)
            is SaveSettings,
        chat_cmd::command_action(c, lang, surface, line, "session-info"@, args)
            == ActionModel::SessionInfo,
        chat_cmd::command_action(c, lang, surface, line, "sessions"@, args)
            == ActionModel::ListSessions,
        chat_cmd::command_action(c, lang, surface, line, "fork"@, args) == ActionModel::Fork,
        !text::blank(args) ==> chat_cmd::command_action(c, lang, surface, line, "export"@, args)
            == ActionModel::Export(text::trimmed(args)),
        c.session@.turns.len() > 0 ==> chat_cmd::command_action(
            c,
            lang,
            surface,
            line,
            "compact"@,
            args,
        ) == ActionModel::Compact,
        c.session@.turns.len() == 0 ==> chat_cmd::command_action(
            c,
            lang,
            surface,
            line,
            "compact"@,
            args,
        ) is Say,
        chat_cmd::command_action(c, lang, surface, line, "usage"@, args) == ActionModel::Usage,
        chat_cmd::command_action(c, lang, surface, line, "history"@, args) is History,
{
    reveal_strlit("exit");
    reveal_strlit("new");
    reveal_strlit("help");
    reveal_strlit("language");
    reveal_strlit("resume");
    reveal_strlit("model");
    reveal_strlit("effort");
    reveal_strlit("endpoint");
    reveal_strlit("mcp");
    reveal_strlit("session-info");
    reveal_strlit("sessions");
    reveal_strlit("fork");
    reveal_strlit("export");
    reveal_strlit("compact");
    reveal_strlit("usage");
    reveal_strlit("history");
    assert("exit"@.len() == 4 && "exit"@[0] == 'e');
    assert("new"@.len() == 3 && "new"@[0] == 'n');
    assert("help"@.len() == 4 && "help"@[0] == 'h');
    assert("language"@.len() == 8 && "language"@[0] == 'l');
    assert("resume"@.len() == 6 && "resume"@[0] == 'r');
    assert("model"@.len() == 5 && "model"@[0] == 'm');
    assert("effort"@.len() == 6 && "effort"@[1] == 'f');
    assert("endpoint"@.len() == 8 && "endpoint"@[0] == 'e');
    assert("mcp"@.len() == 3 && "mcp"@[0] == 'm');
    assert("session-info"@.len() == 12);
    assert("sessions"@.len() == 8 && "sessions"@[0] == 's');
    assert("fork"@.len() == 4 && "fork"@[0] == 'f');
    assert("export"@.len() == 6 && "export"@[0] == 'e' && "export"@[1] == 'x');
    assert("compact"@.len() == 7 && "compact"@[0] == 'c');
    assert("usage"@.len() == 5 && "usage"@[0] == 'u');
    assert("history"@.len() == 7 && "history"@[0] == 'h');
}

/// A model that is chosen is used from then on and stored for the endpoint, with
/// the effort that is named behind it, and no other endpoint changes.
pub proof fn law_chosen_model_is_used(c: ChatModel, words: Seq<Seq<char>>, other: Seq<char>)
    requires
        words.len() > 0,
        other != c.endpoint_name,
    ensures
        ({
            let d = chat_cmd::model_chosen(c, words);
            &&& d.endpoint.model == words[0]
            &&& d.endpoint.url == c.endpoint.url && d.endpoint.api_key == c.endpoint.api_key
            &&& c.cfg.endpoints.dom().contains(c.endpoint_name)
                ==> d.cfg.endpoints[c.endpoint_name].model == words[0]
                && d.cfg.endpoints[c.endpoint_name].reasoning_effort
                == d.endpoint.reasoning_effort && d.cfg.endpoints[c.endpoint_name].url
                == c.cfg.endpoints[c.endpoint_name].url
            &&& c.cfg.endpoints.dom().contains(other) ==> d.cfg.endpoints[other]
                == c.cfg.endpoints[other]
            &&& words.len() == 1 ==> d.endpoint.reasoning_effort == c.endpoint.reasoning_effort
            &&& words.len() > 1 && chat_cmd::effort(text::lowercase(words[1]))
                ==> d.endpoint.reasoning_effort == Some(text::lowercase(words[1]))
            &&& words.len() > 1 && !chat_cmd::effort(text::lowercase(words[1]))
                ==> d.endpoint.reasoning_effort == c.endpoint.reasoning_effort
        }),
{
}

/// An effort that is chosen is used from then on and stored for the endpoint; the
/// models stay.
pub proof fn law_chosen_effort_is_used(c: ChatModel, e: Seq<char>)
    ensures
        ({
            let d = chat_cmd::effort_chosen(c, e);
            &&& d.endpoint.reasoning_effort == Some(e)
            &&& d.endpoint.model == c.endpoint.model
            &&& c.cfg.endpoints.dom().contains(c.endpoint_name)
                ==> d.cfg.endpoints[c.endpoint_name].reasoning_effort == Some(e)
                && d.cfg.endpoints[c.endpoint_name].model
                == c.cfg.endpoints[c.endpoint_name].model
        }),
{
}

/// A command changes the conversation only where it chooses a model, an effort or
/// a language, and then as it says.
pub proof fn law_commands_change_what_they_name(c: ChatModel, args: Seq<char>, name: Seq<char>)
    ensures
        args.len() > 0 ==> chat_cmd::command_after(c, "model"@, args) == chat_cmd::model_chosen(
            c,
            text::words_of(args),
        ),
        args.len() == 0 ==> chat_cmd::command_after(c, "model"@, args) == c,
        chat_cmd::effort(text::lowercase(text::trimmed(args))) ==> chat_cmd::command_after(
            c,
            "effort"@,
            args,
        ) == chat_cmd::effort_chosen(c, text::lowercase(text::trimmed(args))),
        !chat_cmd::effort(text::lowercase(text::trimmed(args))) ==> chat_cmd::command_after(
            c,
            "effort"@,
            args,
        ) == c,
        name != "model"@ && name != "effort"@ && name != "language"@ ==> chat_cmd::command_after(
            c,
            name,
            args,
        ) == c,
        chat_cmd::effort("low"@) && chat_cmd::effort("medium"@) && chat_cmd::effort("high"@),
{
    reveal_strlit("model");
    reveal_strlit("effort");
    reveal_strlit("language");
    assert("model"@.len() == 5 && "effort"@.len() == 6 && "language"@.len() == 8);
}

/// Only the three efforts are accepted.
pub proof fn law_efforts_are_three(s: Seq<char>)
    requires
        chat_cmd::effort(s),
    ensures
        s == "low"@ || s == "medium"@ || s == "high"@,
{
}

/// A language that is asked for by its code is the one that the settings hold
/// then, and nothing else of the conversation changes.
pub proof fn law_chosen_language_is_used(c: ChatModel, args: Seq<char>, l: Language)
    requires
        chat_cmd::language_asked(args) == Some(l),
    ensures
        chat_cmd::command_after(c, "language"@, args).cfg.language == l,
        chat_cmd::command_after(c, "language"@, args).cfg.endpoints == c.cfg.endpoints,
        chat_cmd::command_after(c, "language"@, args).endpoint == c.endpoint,
        chat_cmd::command_after(c, "language"@, args).session == c.session,
{
}

/// A command is found by its name and what stands behind it.
pub proof fn law_command_line_is_divided(cmd: Seq<char>, args: Seq<char>)
    requires
        forall|i: int| 0 <= i < cmd.len() ==> !text::space(#[trigger] cmd[i]),
        args.len() > 0,
        text::tight(args),
    ensures
        chat_cmd::command_parts(seq!['/'] + cmd + seq![' '] + args) == (
            slash::resolved(cmd),
            args,
        ),
{
    crate::setup_laws::law_commands_are_read(cmd, args, args);
}

// ---------------------------------------------------------------------------
// The first endpoint
// ---------------------------------------------------------------------------

/// The endpoint that is set up by answers is the one that the answers name.
pub proof fn law_answers_make_the_endpoint(
    lang: Language,
    name: Seq<char>,
    url: Seq<char>,
    model: Seq<char>,
    key: Seq<char>,
)
    requires
        !text::blank(name),
        !text::blank(url),
        !text::blank(model),
        !text::blank(key),
    ensures
        ({
            let s = SetupModel {
                step: SetupStep::Name,
                name: Seq::empty(),
                url: Seq::empty(),
                model: Seq::empty(),
            };
            let a = chat_cmd::setup_step(lang, s, InputModel::Line(name)).0;
            let b = chat_cmd::setup_step(lang, a, InputModel::Line(url)).0;
            let c = chat_cmd::setup_step(lang, b, InputModel::Line(model)).0;
            let end = chat_cmd::setup_step(lang, c, InputModel::Line(key)).1;
            let left = chat_cmd::setup_step(lang, c, InputModel::Ended).1;
            &&& end matches SetupOutcomeModel::Done(n, ep) && n == text::trimmed(name) && ep.url
                == text::trimmed(url) && ep.model == text::trimmed(model) && ep.api_key == Some(
                text::trimmed(key),
            )
            &&& left matches SetupOutcomeModel::Done(n, ep) && n == text::trimmed(name) && ep.url
                == text::trimmed(url) && ep.model == text::trimmed(model) && ep.api_key is None
        }),
{
}

// ---------------------------------------------------------------------------
// What is shown at the end of a turn
// ---------------------------------------------------------------------------

/// A turn that was not written while it arrived is shown at its end: its thoughts
/// where there are some, then its answer as a reply is shown.
pub proof fn law_unwritten_turn_is_shown(lang: Language, t: TurnResultModel, use_color: bool)
    ensures
        ({
            let v = chat_cmd::turn_shown(lang, t, false, use_color);
            &&& !text::blank(t.content) ==> v.len() >= 2 && v[v.len() - 2] == "\n"@
                + stream::content_text(t.content, use_color)
            &&& !text::blank(t.reasoning) && (use_color || !t.reasoning.contains('\x1b'))
                ==> v.len() >= 1 && text::contains(v[0], t.reasoning)
            &&& text::blank(t.content) && text::blank(t.reasoning) ==> v.len() == 0
        }),
{
    if !text::blank(t.reasoning) {
        if use_color {
            laws::lemma_between("\n\x1b[2m[생각] "@, t.reasoning, "\x1b[0m"@);
        } else if !t.reasoning.contains('\x1b') {
            stream::law_plain_text_is_kept(t.reasoning);
            laws::lemma_at_the_end("\n[생각] "@, t.reasoning);
        }
    }
}

/// Of a turn that was written while it arrived only its notice is left to show.
pub proof fn law_written_turn_shows_its_notice(
    lang: Language,
    t: TurnResultModel,
    use_color: bool,
)
    ensures
        ({
            let v = chat_cmd::turn_shown(lang, t, true, use_color);
            let note = chat_cmd::note_of(lang, t.content);
            &&& note.len() == 0 ==> v.len() == 0
            &&& note.len() > 0 ==> v.len() > 0 && text::contains(v.last(), note)
        }),
{
    let note = chat_cmd::note_of(lang, t.content);
    laws::lemma_between(chat_cmd::CYAN@, note, "\x1b[0m"@);
    let none = Seq::<char>::empty();
    laws::lemma_between(none, note, none);
    assert(none + note + none =~= note);
}

/// A line in a colour holds the line, and without colours it is the line.
pub proof fn law_colored_line_keeps_its_text(code: Seq<char>, line: Seq<char>)
    ensures
        run_cmd::colored(code, line, false) == line,
        text::contains(run_cmd::colored(code, line, true), line),
        code.is_prefix_of(run_cmd::colored(code, line, true)),
{
    let c = run_cmd::colored(code, line, true);
    laws::lemma_between(code, line, "\x1b[0m"@);
    assert(c.take(code.len() as int) =~= code);
}

/// A run that is noted in a turn is kept behind those before it, the next segment
/// follows it, and nothing else changes.
pub proof fn law_run_of_a_turn_is_noted(t: TurnStateModel, run_id: i64)
    ensures
        ({
            let u = chat_cmd::turn_noted(t, run_id);
            &&& u.run_ids == t.run_ids.push(run_id) && u.parent_run_id == Some(run_id)
            &&& u.prompt == t.prompt && u.depth == t.depth && u.statuses == t.statuses
            &&& u.content == t.content && u.reasoning == t.reasoning
            &&& u.files_touched == t.files_touched
        }),
{
}

/// A conversation ends where the input ends, without an error, and where it
/// cannot be read, with one; a line never ends it here.
pub proof fn law_end_of_the_input(lang: Language, line: Seq<char>, error: Seq<char>)
    ensures
        chat_cmd::input_end(lang, InputModel::Line(line)) is None,
        chat_cmd::input_end(lang, InputModel::Ended) matches Some(e) && e.0 == 0,
        chat_cmd::input_end(lang, InputModel::Failed(error)) matches Some(e) && e.0 == 1,
{
}

/// A conversation is written to the file that is named, else to one whose name
/// holds the id of the session.
pub proof fn law_export_names_its_file(id: Seq<char>, args: Seq<char>)
    ensures
        !text::blank(args) ==> chat_cmd::export_path(id, args) == text::trimmed(args),
        text::blank(args) ==> text::contains(chat_cmd::export_path(id, args), id),
{
    laws::lemma_between("./bulti-session-"@, id, ".md"@);
}

/// The numbers of turns go on in a session that is taken up on the screen.
pub proof fn law_turns_are_counted_on(n: nat)
    requires
        n <= u32::MAX,
    ensures
        chat_cmd::first_turn(Surface::Screen, n) == n,
        chat_cmd::first_turn(Surface::Console, n) == 0,
{
}

/// A report names every run and every file, in order, each as it is.
pub proof fn law_report_names_runs_and_files(r: Report, i: int)
    ensures
        0 <= i < r.run_ids@.len() ==> {
            let runs = run_cmd::report_json(r)->Object_0[12];
            &&& runs.0 == "runs"@
            &&& runs.1->Array_0.len() == r.run_ids@.len()
            &&& r.run_ids@[i] >= 0 ==> runs.1->Array_0[i] == JsonModel::UInt(r.run_ids@[i] as u64)
            &&& r.run_ids@[i] < 0 ==> runs.1->Array_0[i] == JsonModel::Int(r.run_ids@[i])
        },
        0 <= i < r.files_touched@.len() ==> {
            let files = run_cmd::report_json(r)->Object_0[10];
            &&& files.0 == "files_touched"@
            &&& files.1->Array_0.len() == r.files_touched@.len()
            &&& files.1->Array_0[i] == JsonModel::Str(r.files_touched@[i]@)
        },
{
}

} // verus!
