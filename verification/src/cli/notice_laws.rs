//! What the notices of the commands say in English.
use vstd::prelude::*;

use crate::agent::context;
use crate::cli::chat_text;
use crate::cli::history_cmd;
use crate::history::RunRow;
use crate::i18n;
use crate::i18n::Language;
use crate::session;
use crate::session::{SessionMeta, SessionModel};
use crate::text;
use crate::tools::history;
use crate::tools::laws;

verus! {

/// A message with one placeholder says its argument in the place of it.
proof fn lemma_one_place(before: Seq<char>, name: Seq<char>, after: Seq<char>, a: Seq<char>)
    requires
        !before.contains('{'),
        !name.contains('}'),
        !after.contains('{'),
    ensures
        i18n::filled(before + seq!['{'] + name + seq!['}'] + after, seq![a], 0) == before + a
            + after,
{
    i18n::law_placeholders_are_filled_in_order(before, name, after, seq![a], 0);
    i18n::law_no_placeholder_no_change(after, seq![a], 1);
}

proof fn lemma_says_session_id(a: Seq<char>)
    ensures
        i18n::message_fmt(Language::En, "Session id: {id}"@, seq![a]) == "Session id: "@ + a,
{
    reveal_strlit("Session id: {id}");
    reveal_strlit("Session id: ");
    let name: Seq<char> = seq!['i', 'd'];
    let after: Seq<char> = Seq::<char>::empty();
    assert("Session id: {id}"@ =~= "Session id: "@ + seq!['{'] + name + seq!['}'] + after);
    lemma_one_place("Session id: "@, name, after, a);
    assert("Session id: "@ + a =~= "Session id: "@ + a + after);
}

proof fn lemma_says_cwd(a: Seq<char>)
    ensures
        i18n::message_fmt(Language::En, "cwd: {cwd}"@, seq![a]) == "cwd: "@ + a,
{
    reveal_strlit("cwd: {cwd}");
    reveal_strlit("cwd: ");
    let name: Seq<char> = seq!['c', 'w', 'd'];
    let after: Seq<char> = Seq::<char>::empty();
    assert("cwd: {cwd}"@ =~= "cwd: "@ + seq!['{'] + name + seq!['}'] + after);
    lemma_one_place("cwd: "@, name, after, a);
    assert("cwd: "@ + a =~= "cwd: "@ + a + after);
}

proof fn lemma_says_endpoint(a: Seq<char>)
    ensures
        i18n::message_fmt(Language::En, "Endpoint: {ep}"@, seq![a]) == "Endpoint: "@ + a,
{
    reveal_strlit("Endpoint: {ep}");
    reveal_strlit("Endpoint: ");
    let name: Seq<char> = seq!['e', 'p'];
    let after: Seq<char> = Seq::<char>::empty();
    assert("Endpoint: {ep}"@ =~= "Endpoint: "@ + seq!['{'] + name + seq!['}'] + after);
    lemma_one_place("Endpoint: "@, name, after, a);
    assert("Endpoint: "@ + a =~= "Endpoint: "@ + a + after);
}

proof fn lemma_says_model(a: Seq<char>)
    ensures
        i18n::message_fmt(Language::En, "Model: {m}"@, seq![a]) == "Model: "@ + a,
{
    reveal_strlit("Model: {m}");
    reveal_strlit("Model: ");
    let name: Seq<char> = seq!['m'];
    let after: Seq<char> = Seq::<char>::empty();
    assert("Model: {m}"@ =~= "Model: "@ + seq!['{'] + name + seq!['}'] + after);
    lemma_one_place("Model: "@, name, after, a);
    assert("Model: "@ + a =~= "Model: "@ + a + after);
}

proof fn lemma_says_turns(a: Seq<char>)
    ensures
        i18n::message_fmt(Language::En, "Turns: {n}"@, seq![a]) == "Turns: "@ + a,
{
    reveal_strlit("Turns: {n}");
    reveal_strlit("Turns: ");
    let name: Seq<char> = seq!['n'];
    let after: Seq<char> = Seq::<char>::empty();
    assert("Turns: {n}"@ =~= "Turns: "@ + seq!['{'] + name + seq!['}'] + after);
    lemma_one_place("Turns: "@, name, after, a);
    assert("Turns: "@ + a =~= "Turns: "@ + a + after);
}

proof fn lemma_says_created(a: Seq<char>)
    ensures
        i18n::message_fmt(Language::En, "Created: {t}"@, seq![a]) == "Created: "@ + a,
{
    reveal_strlit("Created: {t}");
    reveal_strlit("Created: ");
    let name: Seq<char> = seq!['t'];
    let after: Seq<char> = Seq::<char>::empty();
    assert("Created: {t}"@ =~= "Created: "@ + seq!['{'] + name + seq!['}'] + after);
    lemma_one_place("Created: "@, name, after, a);
    assert("Created: "@ + a =~= "Created: "@ + a + after);
}

proof fn lemma_says_updated(a: Seq<char>)
    ensures
        i18n::message_fmt(Language::En, "Last updated: {t}"@, seq![a]) == "Last updated: "@ + a,
{
    reveal_strlit("Last updated: {t}");
    reveal_strlit("Last updated: ");
    let name: Seq<char> = seq!['t'];
    let after: Seq<char> = Seq::<char>::empty();
    assert("Last updated: {t}"@ =~= "Last updated: "@ + seq!['{'] + name + seq!['}'] + after);
    lemma_one_place("Last updated: "@, name, after, a);
    assert("Last updated: "@ + a =~= "Last updated: "@ + a + after);
}

proof fn lemma_says_task(a: Seq<char>)
    ensures
        i18n::message_fmt(Language::En, "Task #{id}\n"@, seq![a]) == "Task #"@ + a + "\n"@,
{
    reveal_strlit("Task #{id}\n");
    reveal_strlit("Task #");
    reveal_strlit("\n");
    let name: Seq<char> = seq!['i', 'd'];
    let after: Seq<char> = "\n"@;
    assert("Task #{id}\n"@ =~= "Task #"@ + seq!['{'] + name + seq!['}'] + after);
    lemma_one_place("Task #"@, name, after, a);
    assert("Task #"@ + a + "\n"@ =~= "Task #"@ + a + after);
}

proof fn lemma_says_last_task(a: Seq<char>)
    ensures
        i18n::message_fmt(Language::En, "Last task: #{id}\n"@, seq![a]) == "Last task: #"@ + a + "\n"@,
{
    reveal_strlit("Last task: #{id}\n");
    reveal_strlit("Last task: #");
    reveal_strlit("\n");
    let name: Seq<char> = seq!['i', 'd'];
    let after: Seq<char> = "\n"@;
    assert("Last task: #{id}\n"@ =~= "Last task: #"@ + seq!['{'] + name + seq!['}'] + after);
    lemma_one_place("Last task: #"@, name, after, a);
    assert("Last task: #"@ + a + "\n"@ =~= "Last task: #"@ + a + after);
}

proof fn lemma_says_run_status(a: Seq<char>)
    ensures
        i18n::message_fmt(Language::En, "  status:      {}"@, seq![a]) == "  status:      "@ + a,
{
    reveal_strlit("  status:      {}");
    reveal_strlit("  status:      ");
    let name: Seq<char> = Seq::<char>::empty();
    let after: Seq<char> = Seq::<char>::empty();
    assert("  status:      {}"@ =~= "  status:      "@ + seq!['{'] + name + seq!['}'] + after);
    lemma_one_place("  status:      "@, name, after, a);
    assert("  status:      "@ + a =~= "  status:      "@ + a + after);
}

proof fn lemma_says_run_started(a: Seq<char>)
    ensures
        i18n::message_fmt(Language::En, "  started:     {}"@, seq![a]) == "  started:     "@ + a,
{
    reveal_strlit("  started:     {}");
    reveal_strlit("  started:     ");
    let name: Seq<char> = Seq::<char>::empty();
    let after: Seq<char> = Seq::<char>::empty();
    assert("  started:     {}"@ =~= "  started:     "@ + seq!['{'] + name + seq!['}'] + after);
    lemma_one_place("  started:     "@, name, after, a);
    assert("  started:     "@ + a =~= "  started:     "@ + a + after);
}

proof fn lemma_says_run_finished(a: Seq<char>)
    ensures
        i18n::message_fmt(Language::En, "  finished:    {}"@, seq![a]) == "  finished:    "@ + a,
{
    reveal_strlit("  finished:    {}");
    reveal_strlit("  finished:    ");
    let name: Seq<char> = Seq::<char>::empty();
    let after: Seq<char> = Seq::<char>::empty();
    assert("  finished:    {}"@ =~= "  finished:    "@ + seq!['{'] + name + seq!['}'] + after);
    lemma_one_place("  finished:    "@, name, after, a);
    assert("  finished:    "@ + a =~= "  finished:    "@ + a + after);
}

proof fn lemma_says_run_cwd(a: Seq<char>)
    ensures
        i18n::message_fmt(Language::En, "  cwd:         {}"@, seq![a]) == "  cwd:         "@ + a,
{
    reveal_strlit("  cwd:         {}");
    reveal_strlit("  cwd:         ");
    let name: Seq<char> = Seq::<char>::empty();
    let after: Seq<char> = Seq::<char>::empty();
    assert("  cwd:         {}"@ =~= "  cwd:         "@ + seq!['{'] + name + seq!['}'] + after);
    lemma_one_place("  cwd:         "@, name, after, a);
    assert("  cwd:         "@ + a =~= "  cwd:         "@ + a + after);
}

proof fn lemma_says_run_endpoint(a: Seq<char>)
    ensures
        i18n::message_fmt(Language::En, "  endpoint:    {}"@, seq![a]) == "  endpoint:    "@ + a,
{
    reveal_strlit("  endpoint:    {}");
    reveal_strlit("  endpoint:    ");
    let name: Seq<char> = Seq::<char>::empty();
    let after: Seq<char> = Seq::<char>::empty();
    assert("  endpoint:    {}"@ =~= "  endpoint:    "@ + seq!['{'] + name + seq!['}'] + after);
    lemma_one_place("  endpoint:    "@, name, after, a);
    assert("  endpoint:    "@ + a =~= "  endpoint:    "@ + a + after);
}

proof fn lemma_says_run_model(a: Seq<char>)
    ensures
        i18n::message_fmt(Language::En, "  model:       {}"@, seq![a]) == "  model:       "@ + a,
{
    reveal_strlit("  model:       {}");
    reveal_strlit("  model:       ");
    let name: Seq<char> = Seq::<char>::empty();
    let after: Seq<char> = Seq::<char>::empty();
    assert("  model:       {}"@ =~= "  model:       "@ + seq!['{'] + name + seq!['}'] + after);
    lemma_one_place("  model:       "@, name, after, a);
    assert("  model:       "@ + a =~= "  model:       "@ + a + after);
}

proof fn lemma_says_run_chain(a: Seq<char>)
    ensures
        i18n::message_fmt(Language::En, "  chain_id:    {}"@, seq![a]) == "  chain_id:    "@ + a,
{
    reveal_strlit("  chain_id:    {}");
    reveal_strlit("  chain_id:    ");
    let name: Seq<char> = Seq::<char>::empty();
    let after: Seq<char> = Seq::<char>::empty();
    assert("  chain_id:    {}"@ =~= "  chain_id:    "@ + seq!['{'] + name + seq!['}'] + after);
    lemma_one_place("  chain_id:    "@, name, after, a);
    assert("  chain_id:    "@ + a =~= "  chain_id:    "@ + a + after);
}

proof fn lemma_says_run_segment(a: Seq<char>)
    ensures
        i18n::message_fmt(Language::En, "  segment:     {}"@, seq![a]) == "  segment:     "@ + a,
{
    reveal_strlit("  segment:     {}");
    reveal_strlit("  segment:     ");
    let name: Seq<char> = Seq::<char>::empty();
    let after: Seq<char> = Seq::<char>::empty();
    assert("  segment:     {}"@ =~= "  segment:     "@ + seq!['{'] + name + seq!['}'] + after);
    lemma_one_place("  segment:     "@, name, after, a);
    assert("  segment:     "@ + a =~= "  segment:     "@ + a + after);
}

proof fn lemma_says_run_depth(a: Seq<char>)
    ensures
        i18n::message_fmt(Language::En, "  depth:       {}"@, seq![a]) == "  depth:       "@ + a,
{
    reveal_strlit("  depth:       {}");
    reveal_strlit("  depth:       ");
    let name: Seq<char> = Seq::<char>::empty();
    let after: Seq<char> = Seq::<char>::empty();
    assert("  depth:       {}"@ =~= "  depth:       "@ + seq!['{'] + name + seq!['}'] + after);
    lemma_one_place("  depth:       "@, name, after, a);
    assert("  depth:       "@ + a =~= "  depth:       "@ + a + after);
}

proof fn lemma_says_run_parent(a: Seq<char>)
    ensures
        i18n::message_fmt(Language::En, "  parent_run:  {}"@, seq![a]) == "  parent_run:  "@ + a,
{
    reveal_strlit("  parent_run:  {}");
    reveal_strlit("  parent_run:  ");
    let name: Seq<char> = Seq::<char>::empty();
    let after: Seq<char> = Seq::<char>::empty();
    assert("  parent_run:  {}"@ =~= "  parent_run:  "@ + seq!['{'] + name + seq!['}'] + after);
    lemma_one_place("  parent_run:  "@, name, after, a);
    assert("  parent_run:  "@ + a =~= "  parent_run:  "@ + a + after);
}

proof fn lemma_says_run_files(a: Seq<char>)
    ensures
        i18n::message_fmt(Language::En, "  files:       {}"@, seq![a]) == "  files:       "@ + a,
{
    reveal_strlit("  files:       {}");
    reveal_strlit("  files:       ");
    let name: Seq<char> = Seq::<char>::empty();
    let after: Seq<char> = Seq::<char>::empty();
    assert("  files:       {}"@ =~= "  files:       "@ + seq!['{'] + name + seq!['}'] + after);
    lemma_one_place("  files:       "@, name, after, a);
    assert("  files:       "@ + a =~= "  files:       "@ + a + after);
}

proof fn lemma_says_run_duration(a: Seq<char>)
    ensures
        i18n::message_fmt(Language::En, "  duration:    {}ms"@, seq![a]) == "  duration:    "@ + a + "ms"@,
{
    reveal_strlit("  duration:    {}ms");
    reveal_strlit("  duration:    ");
    reveal_strlit("ms");
    let name: Seq<char> = Seq::<char>::empty();
    let after: Seq<char> = "ms"@;
    assert("  duration:    {}ms"@ =~= "  duration:    "@ + seq!['{'] + name + seq!['}'] + after);
    lemma_one_place("  duration:    "@, name, after, a);
    assert("  duration:    "@ + a + "ms"@ =~= "  duration:    "@ + a + after);
}

proof fn lemma_says_run_prompt(a: Seq<char>)
    ensures
        i18n::message_fmt(Language::En, "\n  prompt:\n{}"@, seq![a]) == "\n  prompt:\n"@ + a,
{
    reveal_strlit("\n  prompt:\n{}");
    reveal_strlit("\n  prompt:\n");
    let name: Seq<char> = Seq::<char>::empty();
    let after: Seq<char> = Seq::<char>::empty();
    assert("\n  prompt:\n{}"@ =~= "\n  prompt:\n"@ + seq!['{'] + name + seq!['}'] + after);
    lemma_one_place("\n  prompt:\n"@, name, after, a);
    assert("\n  prompt:\n"@ + a =~= "\n  prompt:\n"@ + a + after);
}

proof fn lemma_says_run_result(a: Seq<char>)
    ensures
        i18n::message_fmt(Language::En, "\n  result:\n{res}"@, seq![a]) == "\n  result:\n"@ + a,
{
    reveal_strlit("\n  result:\n{res}");
    reveal_strlit("\n  result:\n");
    let name: Seq<char> = seq!['r', 'e', 's'];
    let after: Seq<char> = Seq::<char>::empty();
    assert("\n  result:\n{res}"@ =~= "\n  result:\n"@ + seq!['{'] + name + seq!['}'] + after);
    lemma_one_place("\n  result:\n"@, name, after, a);
    assert("\n  result:\n"@ + a =~= "\n  result:\n"@ + a + after);
}

proof fn lemma_says_cost(a: Seq<char>)
    ensures
        i18n::message_fmt(Language::En, "Cost: ${amount}"@, seq![a]) == "Cost: $"@ + a,
{
    reveal_strlit("Cost: ${amount}");
    reveal_strlit("Cost: $");
    let name: Seq<char> = seq!['a', 'm', 'o', 'u', 'n', 't'];
    let after: Seq<char> = Seq::<char>::empty();
    assert("Cost: ${amount}"@ =~= "Cost: $"@ + seq!['{'] + name + seq!['}'] + after);
    lemma_one_place("Cost: $"@, name, after, a);
    assert("Cost: $"@ + a =~= "Cost: $"@ + a + after);
}
/// The details of a run say each thing behind its name.
pub proof fn law_details_say_the_run(row: RunRow)
    ensures
        ({
            let v = history_cmd::detail_lines(Language::En, row);
            &&& v.len() == 15
            &&& v[0] == "Task #"@ + text::signed_decimal(row.id as int) + "\n"@
            &&& v[1] == "  status:      "@ + row.status@
            &&& v[2] == "  started:     "@ + row.started_at@
            &&& v[3] == "  finished:    "@ + history::or_dash(row.finished_at)
            &&& v[4] == "  cwd:         "@ + row.cwd@
            &&& v[5] == "  endpoint:    "@ + row.endpoint@
            &&& v[6] == "  model:       "@ + history::or_dash(row.model)
            &&& v[7] == "  chain_id:    "@ + row.chain_id@
            &&& v[8] == "  segment:     "@ + text::decimal(row.segment_index as nat)
            &&& v[9] == "  depth:       "@ + text::decimal(row.handoff_depth as nat)
            &&& v[10] == "  parent_run:  "@ + history::integer_or_dash(row.parent_run_id)
            &&& v[12] == "  files:       "@ + history::files_text(row)
            &&& v[13] == "  duration:    "@ + history::number_or_dash(row.duration_ms) + "ms"@
            &&& v[14] == "\n  prompt:\n"@ + row.prompt@
        }),
{
    lemma_says_task(text::signed_decimal(row.id as int));
    lemma_says_run_status(row.status@);
    lemma_says_run_started(row.started_at@);
    lemma_says_run_finished(history::or_dash(row.finished_at));
    lemma_says_run_cwd(row.cwd@);
    lemma_says_run_endpoint(row.endpoint@);
    lemma_says_run_model(history::or_dash(row.model));
    lemma_says_run_chain(row.chain_id@);
    lemma_says_run_segment(text::decimal(row.segment_index as nat));
    lemma_says_run_depth(text::decimal(row.handoff_depth as nat));
    lemma_says_run_parent(history::integer_or_dash(row.parent_run_id));
    lemma_says_run_files(history::files_text(row));
    lemma_says_run_duration(history::number_or_dash(row.duration_ms));
    lemma_says_run_prompt(row.prompt@);
}

/// The result of a run is said whole, and nothing is where there is none.
pub proof fn law_result_is_said(s: Seq<char>)
    ensures
        history_cmd::result_lines(Language::En, Some(s)) == seq!["\n  result:\n"@ + s],
        history_cmd::result_lines(Language::En, None).len() == 0,
{
    lemma_says_run_result(s);
}

/// The lines about the newest run say each thing behind its name.
pub proof fn law_last_run_is_said(row: RunRow)
    ensures
        ({
            let v = history_cmd::last_lines(Language::En, row);
            &&& v.len() == 6
            &&& v[0] == "Last task: #"@ + text::signed_decimal(row.id as int) + "\n"@
            &&& v[1] == "  status:      "@ + row.status@
            &&& v[2] == "  started:     "@ + row.started_at@
            &&& v[3] == "  chain_id:    "@ + row.chain_id@
            &&& v[4] == "  endpoint:    "@ + row.endpoint@
            &&& v[5] == "  model:       "@ + history::or_dash(row.model)
        }),
{
    lemma_says_last_task(text::signed_decimal(row.id as int));
    lemma_says_run_status(row.status@);
    lemma_says_run_started(row.started_at@);
    lemma_says_run_chain(row.chain_id@);
    lemma_says_run_endpoint(row.endpoint@);
    lemma_says_run_model(history::or_dash(row.model));
}

/// What is held by one of eight parts is held by all of them put together.
proof fn lemma_eight(
    a: Seq<char>,
    b: Seq<char>,
    c: Seq<char>,
    d: Seq<char>,
    e: Seq<char>,
    f: Seq<char>,
    g: Seq<char>,
    h: Seq<char>,
    n: Seq<char>,
)
    ensures
        ({
            let all = a + n + b + n + c + n + d + n + e + n + f + n + g + n + h;
            &&& text::contains(all, a) && text::contains(all, b) && text::contains(all, c)
            &&& text::contains(all, d) && text::contains(all, e) && text::contains(all, f)
            &&& text::contains(all, g) && text::contains(all, h)
        }),
{
    let s2 = seq![a, b];
    let s3 = s2.push(c);
    let s4 = s3.push(d);
    let s5 = s4.push(e);
    let s6 = s5.push(f);
    let s7 = s6.push(g);
    let s8 = s7.push(h);
    assert(seq![a].drop_last() =~= Seq::empty());
    assert(text::joined(seq![a], n) == a);
    assert(s2.drop_last() =~= seq![a]);
    assert(text::joined(s2, n) == a + n + b);
    assert(s3.drop_last() =~= s2);
    assert(s4.drop_last() =~= s3);
    assert(s5.drop_last() =~= s4);
    assert(s6.drop_last() =~= s5);
    assert(s7.drop_last() =~= s6);
    assert(s8.drop_last() =~= s7);
    assert(text::joined(s3, n) == text::joined(s2, n) + n + c);
    assert(text::joined(s4, n) == text::joined(s3, n) + n + d);
    assert(text::joined(s5, n) == text::joined(s4, n) + n + e);
    assert(text::joined(s6, n) == text::joined(s5, n) + n + f);
    assert(text::joined(s7, n) == text::joined(s6, n) + n + g);
    assert(text::joined(s8, n) == text::joined(s7, n) + n + h);
    laws::lemma_joined_holds(s8, n, 0);
    laws::lemma_joined_holds(s8, n, 1);
    laws::lemma_joined_holds(s8, n, 2);
    laws::lemma_joined_holds(s8, n, 3);
    laws::lemma_joined_holds(s8, n, 4);
    laws::lemma_joined_holds(s8, n, 5);
    laws::lemma_joined_holds(s8, n, 6);
    laws::lemma_joined_holds(s8, n, 7);
}

/// What is shown of a session says each thing behind its name.
pub proof fn law_session_is_said(s: SessionModel, tokens: u64, cwd: Seq<char>)
    ensures
        ({
            let v = chat_text::session_shown(Language::En, s, tokens, cwd);
            &&& text::contains(v, "Session id: "@ + s.session_id)
            &&& text::contains(v, "cwd: "@ + cwd)
            &&& text::contains(v, "Endpoint: "@ + s.endpoint)
            &&& text::contains(v, "Model: "@ + s.model)
            &&& text::contains(v, "Turns: "@ + text::decimal(s.turns.len()))
            &&& text::contains(
                v,
                chat_text::context_line(
                    Language::En,
                    context::tokens(session::context_of(s.turns)),
                    tokens,
                ),
            )
            &&& text::contains(v, "Created: "@ + s.created_at)
            &&& text::contains(v, "Last updated: "@ + s.updated_at)
        }),
{
    lemma_says_session_id(s.session_id);
    lemma_says_cwd(cwd);
    lemma_says_endpoint(s.endpoint);
    lemma_says_model(s.model);
    lemma_says_turns(text::decimal(s.turns.len()));
    lemma_says_created(s.created_at);
    lemma_says_updated(s.updated_at);
    lemma_eight(
        "Session id: "@ + s.session_id,
        "cwd: "@ + cwd,
        "Endpoint: "@ + s.endpoint,
        "Model: "@ + s.model,
        "Turns: "@ + text::decimal(s.turns.len()),
        chat_text::context_line(
            Language::En,
            context::tokens(session::context_of(s.turns)),
            tokens,
        ),
        "Created: "@ + s.created_at,
        "Last updated: "@ + s.updated_at,
        "\n"@,
    );
}

/// How full the context is is said in tokens and in percent.
pub proof fn law_share_is_said(estimate: nat, tokens: u64, pct: u64)
    requires
        chat_text::context_share(estimate, tokens) == Some(pct),
    ensures
        chat_text::context_line(Language::En, estimate, tokens) == "Context usage: ~"@
            + text::decimal(estimate) + " / "@ + text::decimal(tokens as nat) + " tokens (~"@
            + text::decimal(pct as nat) + "%)"@,
{
    reveal_strlit("Context usage: ~{est} / {ctx} tokens (~{pct}%)");
    reveal_strlit("Context usage: ~");
    reveal_strlit(" / ");
    reveal_strlit(" tokens (~");
    reveal_strlit("%)");
    let a = text::decimal(estimate);
    let b = text::decimal(tokens as nat);
    let c = text::decimal(pct as nat);
    let args = seq![a, b, c];
    let last = " tokens (~"@ + seq!['{'] + seq!['p', 'c', 't'] + seq!['}'] + "%)"@;
    let second = " / "@ + seq!['{'] + seq!['c', 't', 'x'] + seq!['}'] + last;
    let whole = "Context usage: ~"@ + seq!['{'] + seq!['e', 's', 't'] + seq!['}'] + second;
    assert("Context usage: ~{est} / {ctx} tokens (~{pct}%)"@ =~= whole);
    i18n::law_placeholders_are_filled_in_order(
        "Context usage: ~"@,
        seq!['e', 's', 't'],
        second,
        args,
        0,
    );
    i18n::law_placeholders_are_filled_in_order(" / "@, seq!['c', 't', 'x'], last, args, 1);
    i18n::law_placeholders_are_filled_in_order(" tokens (~"@, seq!['p', 'c', 't'], "%)"@, args, 2);
    i18n::law_no_placeholder_no_change("%)"@, args, 3);
    assert(i18n::filled(whole, args, 0) =~= "Context usage: ~"@ + a + " / "@ + b + " tokens (~"@ + c
        + "%)"@);
}

/// A session in the list is said with its id, the number of its turns, its model
/// and the time of its last change, and every session is.
pub proof fn law_listed_session_is_said(metas: Seq<SessionMeta>, m: SessionMeta)
    ensures
        chat_text::session_list_lines(Language::En, metas.push(m))
            == chat_text::session_list_lines(Language::En, metas) + (m.id@ + "  Turn="@
            + text::decimal(m.turns as nat) + "  Model="@ + m.model@ + "  Updated="@ + m.updated_at@
            + "\n"@),
        chat_text::sessions_shown(Language::En, Ok(metas.push(m)))
            == chat_text::session_list_lines(Language::En, metas.push(m)),
{
    assert(metas.push(m).drop_last() =~= metas);
    lemma_says_listed(m.id@, text::decimal(m.turns as nat), m.model@, m.updated_at@);
}

proof fn lemma_says_listed(a: Seq<char>, b: Seq<char>, c: Seq<char>, d: Seq<char>)
    ensures
        i18n::message_fmt(
            Language::En,
            "{id}  Turn={t}  Model={m}  Updated={u}\n"@,
            seq![a, b, c, d],
        ) == a + "  Turn="@ + b + "  Model="@ + c + "  Updated="@ + d + "\n"@,
{
    let args = seq![a, b, c, d];
    let none = Seq::<char>::empty();
    let r3 = "  Updated="@ + seq!['{'] + seq!['u'] + seq!['}'] + "\n"@;
    let r2 = "  Model="@ + seq!['{'] + seq!['m'] + seq!['}'] + r3;
    let r1 = "  Turn="@ + seq!['{'] + seq!['t'] + seq!['}'] + r2;
    let r0 = none + seq!['{'] + seq!['i', 'd'] + seq!['}'] + r1;
    assert("{id}  Turn={t}  Model={m}  Updated={u}\n"@ =~= r0) by {
        reveal_strlit("{id}  Turn={t}  Model={m}  Updated={u}\n");
        reveal_strlit("  Turn=");
        reveal_strlit("  Model=");
        reveal_strlit("  Updated=");
        reveal_strlit("\n");
    }
    assert(!"  Turn="@.contains('{')) by {
        reveal_strlit("  Turn=");
    }
    assert(!"  Model="@.contains('{')) by {
        reveal_strlit("  Model=");
    }
    assert(!"  Updated="@.contains('{')) by {
        reveal_strlit("  Updated=");
    }
    assert(!"\n"@.contains('{')) by {
        reveal_strlit("\n");
    }
    i18n::law_placeholders_are_filled_in_order(none, seq!['i', 'd'], r1, args, 0);
    i18n::law_placeholders_are_filled_in_order("  Turn="@, seq!['t'], r2, args, 1);
    i18n::law_placeholders_are_filled_in_order("  Model="@, seq!['m'], r3, args, 2);
    i18n::law_placeholders_are_filled_in_order("  Updated="@, seq!['u'], "\n"@, args, 3);
    i18n::law_no_placeholder_no_change("\n"@, args, 4);
    let t3 = "  Updated="@ + d + "\n"@;
    let t2 = "  Model="@ + c + t3;
    let t1 = "  Turn="@ + b + t2;
    assert(i18n::filled(r0, args, 0) == none + a + t1);
    assert(none + a + t1 =~= a + t1);
    assert(a + t1 =~= a + "  Turn="@ + b + t2);
    assert(a + "  Turn="@ + b + t2 =~= a + "  Turn="@ + b + "  Model="@ + c + t3);
    assert(a + "  Turn="@ + b + "  Model="@ + c + t3 =~= a + "  Turn="@ + b + "  Model="@ + c
        + "  Updated="@ + d + "\n"@);
}

/// A session to resume is said with its id, the number of its turns and its
/// model.
pub proof fn law_resumable_session_is_said(metas: Seq<SessionMeta>, m: SessionMeta)
    ensures
        chat_text::resume_lines(Language::En, metas.push(m)) == chat_text::resume_lines(
            Language::En,
            metas,
        ) + ("\n"@ + ("  /resume "@ + m.id@ + "  (turn="@ + text::decimal(m.turns as nat)
            + " model="@ + m.model@ + ")"@)),
{
    assert(metas.push(m).drop_last() =~= metas);
    reveal_strlit("  /resume {id}  (turn={t} model={m})");
    reveal_strlit("  /resume ");
    reveal_strlit("  (turn=");
    reveal_strlit(" model=");
    reveal_strlit(")");
    let args = seq![m.id@, text::decimal(m.turns as nat), m.model@];
    let r2 = " model="@ + seq!['{'] + seq!['m'] + seq!['}'] + ")"@;
    let r1 = "  (turn="@ + seq!['{'] + seq!['t'] + seq!['}'] + r2;
    let r0 = "  /resume "@ + seq!['{'] + seq!['i', 'd'] + seq!['}'] + r1;
    assert("  /resume {id}  (turn={t} model={m})"@ =~= r0);
    i18n::law_placeholders_are_filled_in_order("  /resume "@, seq!['i', 'd'], r1, args, 0);
    i18n::law_placeholders_are_filled_in_order("  (turn="@, seq!['t'], r2, args, 1);
    i18n::law_placeholders_are_filled_in_order(" model="@, seq!['m'], ")"@, args, 2);
    i18n::law_no_placeholder_no_change(")"@, args, 3);
    assert(i18n::filled(r0, args, 0) =~= "  /resume "@ + m.id@ + "  (turn="@ + text::decimal(
        m.turns as nat,
    ) + " model="@ + m.model@ + ")"@);
}

/// The sessions to resume are shown: all of a few, and the first ten of many.
pub proof fn law_sessions_to_resume_are_shown(lang: Language, metas: Seq<SessionMeta>)
    requires
        metas.len() > 0,
    ensures
        metas.len() <= 10 ==> chat_text::resume_lines(lang, metas).is_suffix_of(
            chat_text::resume_shown(lang, Ok(metas)),
        ),
        metas.len() > 10 ==> text::contains(
            chat_text::resume_shown(lang, Ok(metas)),
            chat_text::resume_lines(lang, metas.take(10)),
        ),
{
    let head = i18n::message(lang, "Specify a session id. Available sessions:"@);
    let v = chat_text::resume_shown(lang, Ok(metas));
    if metas.len() <= 10 {
        let r = chat_text::resume_lines(lang, metas);
        assert(v.subrange(v.len() - r.len(), v.len() as int) =~= r);
    } else {
        let r = chat_text::resume_lines(lang, metas.take(10));
        let more = "\n"@ + i18n::message_fmt(
            lang,
            "  … and {n} more (full list: /sessions)"@,
            seq![text::decimal((metas.len() - 10) as nat)],
        );
        laws::lemma_between(head, r, more);
        assert(v =~= head + r + more);
    }
}

/// The use of a session is said as the tokens of all its turns and their number,
/// then model by model, and the cost where it is known.
pub proof fn law_usage_is_said(s: SessionModel, cost: Seq<char>)
    ensures
        text::contains(
            chat_text::usage_shown(Language::En, s, Some(cost)),
            "Session total: ↑"@ + text::decimal(
                context::capped(session::input_of(s.turns)) as nat,
            ) + " ↓"@ + text::decimal(context::capped(session::output_of(s.turns)) as nat) + " ("@
                + text::decimal(s.turns.len()) + " turns)"@,
        ),
        text::contains(
            chat_text::usage_shown(Language::En, s, Some(cost)),
            chat_text::usage_lines(session::usage_of(s.turns)),
        ),
        text::contains(chat_text::usage_shown(Language::En, s, Some(cost)), "Cost: $"@ + cost),
{
    reveal_strlit("Session total: ↑{in} ↓{out} ({turns} turns)");
    reveal_strlit("Session total: ↑");
    reveal_strlit(" ↓");
    reveal_strlit(" (");
    reveal_strlit(" turns)");
    let a = text::decimal(context::capped(session::input_of(s.turns)) as nat);
    let b = text::decimal(context::capped(session::output_of(s.turns)) as nat);
    let c = text::decimal(s.turns.len());
    let args = seq![a, b, c];
    let r2 = " ("@ + seq!['{'] + seq!['t', 'u', 'r', 'n', 's'] + seq!['}'] + " turns)"@;
    let r1 = " ↓"@ + seq!['{'] + seq!['o', 'u', 't'] + seq!['}'] + r2;
    let r0 = "Session total: ↑"@ + seq!['{'] + seq!['i', 'n'] + seq!['}'] + r1;
    assert("Session total: ↑{in} ↓{out} ({turns} turns)"@ =~= r0);
    i18n::law_placeholders_are_filled_in_order("Session total: ↑"@, seq!['i', 'n'], r1, args, 0);
    i18n::law_placeholders_are_filled_in_order(" ↓"@, seq!['o', 'u', 't'], r2, args, 1);
    i18n::law_placeholders_are_filled_in_order(
        " ("@,
        seq!['t', 'u', 'r', 'n', 's'],
        " turns)"@,
        args,
        2,
    );
    i18n::law_no_placeholder_no_change(" turns)"@, args, 3);
    let told = "Session total: ↑"@ + a + " ↓"@ + b + " ("@ + c + " turns)"@;
    assert(i18n::filled(r0, args, 0) =~= told);
    let lines = chat_text::usage_lines(session::usage_of(s.turns));
    lemma_says_cost(cost);
    let end = "Cost: $"@ + cost;
    assert(chat_text::usage_shown(Language::En, s, Some(cost)) == told + lines + "\n"@ + end);
    laws::lemma_between(Seq::empty(), told, Seq::empty());
    assert(Seq::<char>::empty() + told + Seq::<char>::empty() =~= told);
    laws::lemma_held(told, lines, told);
    laws::lemma_at_the_end(told, lines);
    laws::lemma_held(told + lines, "\n"@, told);
    laws::lemma_held(told + lines, "\n"@, lines);
    laws::lemma_held(told + lines + "\n"@, end, told);
    laws::lemma_held(told + lines + "\n"@, end, lines);
    laws::lemma_at_the_end(told + lines + "\n"@, end);
}

} // verus!
