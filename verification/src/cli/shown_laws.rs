//! What the lists and notices of the commands show.
use vstd::prelude::*;

use crate::cli::chat_text;
use crate::cli::config_cmd;
use crate::cli::endpoint_cmd;
use crate::cli::EndpointAddArgs;
use crate::cli::history_cmd;
use crate::cli::mcp_cmd;
use crate::cli::session_cmd;
use crate::config::{
    Config, ConfigModel, EndpointConfig, EndpointModel, McpConfig, McpModel, UpdateMode,
};
use crate::endpoint;
use crate::endpoint::RowModel;
use crate::history::RunRow;
use crate::i18n;
use crate::i18n::Language;
use crate::session::{SessionMeta, UsageModel};
use crate::slash::{COMMANDS, COMMAND_COUNT};
use crate::text;
use crate::text_laws;
use crate::tools::laws;

verus! {

// ---------------------------------------------------------------------------
// Endpoints, models and servers
// ---------------------------------------------------------------------------

/// The details of an endpoint show its address, its model, the size of its
/// context and its limit.
pub proof fn law_endpoint_is_shown(lang: Language, name: Seq<char>, ep: EndpointModel, active: bool)
    ensures
        text::contains(chat_text::endpoint_detail(lang, name, ep, active), ep.url),
        text::contains(chat_text::endpoint_detail(lang, name, ep, active), ep.model),
        ep.context_tokens > 0 ==> text::contains(
            chat_text::endpoint_detail(lang, name, ep, active),
            text::decimal(ep.context_tokens as nat),
        ),
        text::contains(
            chat_text::endpoint_detail(lang, name, ep, active),
            text::decimal(ep.max_iterations as nat),
        ),
        ep.reasoning_effort matches Some(e) ==> text::contains(
            chat_text::endpoint_detail(lang, name, ep, active),
            e,
        ),
{
    let a = i18n::message_fmt(
        lang,
        "Endpoint: {name}{active}"@,
        seq![name, chat_text::mark_of(lang, " (active)"@, active)],
    ) + "\n  url: "@;
    let b = a + ep.url;
    let c = b + "\n  model: "@;
    let d = c + ep.model;
    let e = d + "\n  context_tokens: "@;
    let size = chat_text::context_shown(lang, ep.context_tokens);
    let f = e + size;
    let g = f + "\n  vision: "@;
    let h = g + chat_text::on_off(ep.vision);
    let i = h + "\n  thinking: "@;
    let j = i + chat_text::on_off(ep.thinking);
    let k = j + "\n  reasoning_effort: "@;
    let effort = match ep.reasoning_effort {
        Some(e) => e,
        None => "—"@,
    };
    let l = k + effort;
    let m = l + "\n  max_iterations: "@;
    let n = m + text::decimal(ep.max_iterations as nat);
    assert(n == chat_text::endpoint_detail(lang, name, ep, active));
    laws::lemma_at_the_end(a, ep.url);
    laws::lemma_held(b, "\n  model: "@, ep.url);
    laws::lemma_held(c, ep.model, ep.url);
    laws::lemma_at_the_end(c, ep.model);
    laws::lemma_held(d, "\n  context_tokens: "@, ep.url);
    laws::lemma_held(d, "\n  context_tokens: "@, ep.model);
    laws::lemma_held(e, size, ep.url);
    laws::lemma_held(e, size, ep.model);
    laws::lemma_at_the_end(e, size);
    lemma_three_held(f, "\n  vision: "@, ep.url, ep.model, size);
    lemma_three_held(g, chat_text::on_off(ep.vision), ep.url, ep.model, size);
    lemma_three_held(h, "\n  thinking: "@, ep.url, ep.model, size);
    lemma_three_held(i, chat_text::on_off(ep.thinking), ep.url, ep.model, size);
    lemma_three_held(j, "\n  reasoning_effort: "@, ep.url, ep.model, size);
    lemma_three_held(k, effort, ep.url, ep.model, size);
    laws::lemma_at_the_end(k, effort);
    lemma_three_held(l, "\n  max_iterations: "@, ep.url, ep.model, size);
    laws::lemma_held(l, "\n  max_iterations: "@, effort);
    let limit = text::decimal(ep.max_iterations as nat);
    lemma_three_held(m, limit, ep.url, ep.model, size);
    laws::lemma_held(m, limit, effort);
    laws::lemma_at_the_end(m, limit);
}

proof fn lemma_three_held(a: Seq<char>, b: Seq<char>, x: Seq<char>, y: Seq<char>, z: Seq<char>)
    requires
        text::contains(a, x),
        text::contains(a, y),
        text::contains(a, z),
    ensures
        text::contains(a + b, x),
        text::contains(a + b, y),
        text::contains(a + b, z),
{
    laws::lemma_held(a, b, x);
    laws::lemma_held(a, b, y);
    laws::lemma_held(a, b, z);
}

/// Every endpoint is in the list, with its name, its model and its address.
pub proof fn law_every_endpoint_is_shown(
    lang: Language,
    entries: Seq<(String, EndpointConfig)>,
    active: Seq<char>,
    i: int,
)
    requires
        0 <= i < entries.len(),
    ensures
        text::contains(chat_text::endpoint_list(lang, entries, active), entries[i].0@),
        text::contains(chat_text::endpoint_list(lang, entries, active), entries[i].1.model@),
        text::contains(chat_text::endpoint_list(lang, entries, active), entries[i].1.url@),
{
    lemma_endpoint_line(lang, entries, active, i);
    let body = chat_text::endpoint_lines(lang, entries, active);
    let head = i18n::message(lang, "Endpoint list:"@);
    laws::lemma_held(body, head, entries[i].0@);
    laws::lemma_held(body, head, entries[i].1.model@);
    laws::lemma_held(body, head, entries[i].1.url@);
}

proof fn lemma_endpoint_line(
    lang: Language,
    entries: Seq<(String, EndpointConfig)>,
    active: Seq<char>,
    i: int,
)
    requires
        0 <= i < entries.len(),
    ensures
        text::contains(chat_text::endpoint_lines(lang, entries, active), entries[i].0@),
        text::contains(chat_text::endpoint_lines(lang, entries, active), entries[i].1.model@),
        text::contains(chat_text::endpoint_lines(lang, entries, active), entries[i].1.url@),
    decreases entries.len(),
{
    let d = entries.drop_last();
    let before = chat_text::endpoint_lines(lang, d, active);
    let line = chat_text::endpoint_line(lang, entries.last(), active);
    let (x, y, z) = (entries[i].0@, entries[i].1.model@, entries[i].1.url@);
    if i < d.len() {
        lemma_endpoint_line(lang, d, active, i);
        assert(d[i] == entries[i]);
        lemma_three_held(before, line, x, y, z);
    } else {
        let mark = chat_text::mark_of(lang, " (active)"@, x == active);
        let a = "\n  "@ + x;
        let b = a + mark;
        let c = b + " — "@;
        let e = c + y;
        let f = e + " ("@;
        let g = f + z;
        assert(line == g + ")"@);
        laws::lemma_at_the_end("\n  "@, x);
        laws::lemma_held(a, mark, x);
        laws::lemma_held(b, " — "@, x);
        laws::lemma_held(c, y, x);
        laws::lemma_at_the_end(c, y);
        laws::lemma_held(e, " ("@, x);
        laws::lemma_held(e, " ("@, y);
        laws::lemma_held(f, z, x);
        laws::lemma_held(f, z, y);
        laws::lemma_at_the_end(f, z);
        lemma_three_held(g, ")"@, x, y, z);
        laws::lemma_held(line, before, x);
        laws::lemma_held(line, before, y);
        laws::lemma_held(line, before, z);
    }
}

/// The current model and the model of every endpoint can be chosen, and no other
/// is offered.
pub proof fn law_every_model_is_offered(
    current: Seq<char>,
    entries: Seq<(String, EndpointConfig)>,
    i: int,
    m: Seq<char>,
)
    ensures
        current.len() > 0 ==> chat_text::models_known(current, entries).contains(current),
        0 <= i < entries.len() && entries[i].1.model@.len() > 0 ==> chat_text::models_known(
            current,
            entries,
        ).contains(entries[i].1.model@),
        chat_text::models_known(current, entries).contains(m) ==> m == current || exists|j: int|
            0 <= j < entries.len() && (#[trigger] entries[j]).1.model@ == m,
    decreases entries.len(),
{
    let all = chat_text::models_known(current, entries);
    if entries.len() == 0 {
        if current.len() > 0 {
            assert(all[0] == current);
        }
    } else {
        let d = entries.drop_last();
        let before = chat_text::models_known(current, d);
        let last = entries.last().1.model@;
        law_every_model_is_offered(current, d, i, m);
        if current.len() > 0 {
            let k = choose|k: int| 0 <= k < before.len() && before[k] == current;
            assert(all[k] == current);
        }
        if 0 <= i < d.len() && entries[i].1.model@.len() > 0 {
            assert(d[i] == entries[i]);
            let k = choose|k: int| 0 <= k < before.len() && before[k] == entries[i].1.model@;
            assert(all[k] == entries[i].1.model@);
        }
        if i == d.len() && last.len() > 0 && !before.contains(last) {
            assert(all[before.len() as int] == last);
        }
        if all.contains(m) {
            let k = choose|k: int| 0 <= k < all.len() && all[k] == m;
            if k < before.len() {
                assert(before[k] == m);
                assert(before.contains(m));
                if m != current {
                    let j = choose|j: int| 0 <= j < d.len() && (#[trigger] d[j]).1.model@ == m;
                    assert(entries[j].1.model@ == m);
                }
            } else {
                assert(entries[entries.len() - 1].1.model@ == m);
            }
        }
    }
}

/// Every model that can be chosen is shown.
pub proof fn law_every_model_is_shown(
    lang: Language,
    current: Seq<char>,
    entries: Seq<(String, EndpointConfig)>,
    i: int,
)
    requires
        0 <= i < chat_text::models_known(current, entries).len(),
    ensures
        text::contains(
            chat_text::models_shown(lang, current, entries),
            chat_text::models_known(current, entries)[i],
        ),
{
    let models = chat_text::models_known(current, entries);
    lemma_model_line(lang, models, current, i);
    let head = i18n::message(lang, "Available models (from configured endpoints):"@);
    let body = chat_text::model_lines(lang, models, current);
    let usage = i18n::message(lang, "Usage: /model <name> [low|medium|high]"@);
    laws::lemma_held(body, head, models[i]);
    laws::lemma_held(head + body, "\n"@, models[i]);
    laws::lemma_held(head + body + "\n"@, usage, models[i]);
}

proof fn lemma_model_line(lang: Language, models: Seq<Seq<char>>, current: Seq<char>, i: int)
    requires
        0 <= i < models.len(),
    ensures
        text::contains(chat_text::model_lines(lang, models, current), models[i]),
    decreases models.len(),
{
    let d = models.drop_last();
    let before = chat_text::model_lines(lang, d, current);
    let mark = chat_text::mark_of(lang, " (current)"@, models.last() == current);
    let line = "\n  "@ + models.last() + mark;
    if i < d.len() {
        lemma_model_line(lang, d, current, i);
        assert(d[i] == models[i]);
        laws::lemma_held(before, line, models[i]);
    } else {
        laws::lemma_between("\n  "@, models[i], mark);
        laws::lemma_held(line, before, models[i]);
    }
}

/// Every server is in the list, with its description where it has one.
pub proof fn law_every_server_is_shown(lang: Language, entries: Seq<(String, McpConfig)>, i: int)
    requires
        0 <= i < entries.len(),
    ensures
        text::contains(chat_text::server_list(lang, entries), entries[i].0@),
        entries[i].1.description matches Some(d) ==> text::contains(
            chat_text::server_list(lang, entries),
            d@,
        ),
{
    lemma_server_line(lang, entries, i);
    let body = chat_text::server_lines(lang, entries);
    let head = i18n::message(lang, "MCP servers:"@);
    laws::lemma_held(body, head, entries[i].0@);
    if let Some(d) = entries[i].1.description {
        laws::lemma_held(body, head, d@);
    }
}

proof fn lemma_server_line(lang: Language, entries: Seq<(String, McpConfig)>, i: int)
    requires
        0 <= i < entries.len(),
    ensures
        text::contains(chat_text::server_lines(lang, entries), entries[i].0@),
        entries[i].1.description matches Some(d) ==> text::contains(
            chat_text::server_lines(lang, entries),
            d@,
        ),
    decreases entries.len(),
{
    let d = entries.drop_last();
    let before = chat_text::server_lines(lang, d);
    let e = entries.last();
    let about = match e.1.description {
        Some(d) => d@,
        None => i18n::message(lang, "(no description)"@),
    };
    let line = "\n  "@ + e.0@ + " — "@ + about;
    if i < d.len() {
        lemma_server_line(lang, d, i);
        assert(d[i] == entries[i]);
        laws::lemma_held(before, line, entries[i].0@);
        if let Some(t) = entries[i].1.description {
            laws::lemma_held(before, line, t@);
        }
    } else {
        laws::lemma_at_the_end("\n  "@, e.0@);
        laws::lemma_held("\n  "@ + e.0@, " — "@, e.0@);
        laws::lemma_held("\n  "@ + e.0@ + " — "@, about, e.0@);
        laws::lemma_at_the_end("\n  "@ + e.0@ + " — "@, about);
        laws::lemma_held(line, before, e.0@);
        laws::lemma_held(line, before, about);
    }
}

/// A server in the list of the command line has its name and its description.
pub proof fn law_server_line_names_the_server(e: (String, McpConfig))
    ensures
        e.0@.is_prefix_of(mcp_cmd::server_line(e)),
        e.1.description matches Some(d) ==> d@.is_suffix_of(mcp_cmd::server_line(e)),
{
    let line = mcp_cmd::server_line(e);
    assert(line.take(e.0@.len() as int) =~= e.0@);
    if let Some(d) = e.1.description {
        assert(line.subrange(line.len() - d@.len(), line.len() as int) =~= d@);
    }
}

/// Commands that are similar are shown with their slash.
pub proof fn law_similar_commands_have_their_slash(names: Seq<Seq<char>>, i: int)
    requires
        0 <= i < names.len(),
    ensures
        chat_text::slashed(names).len() == names.len(),
        chat_text::slashed(names)[i] == seq!['/'] + names[i],
{
    reveal_strlit("/");
    assert("/"@ + names[i] =~= seq!['/'] + names[i]);
}

/// The details of a server show its command, each of its arguments and the name
/// of each variable of its environment.
pub proof fn law_server_is_shown(lang: Language, name: Seq<char>, m: McpModel, i: int)
    ensures
        text::contains(chat_text::server_detail(lang, name, m), m.command),
        0 <= i < m.args.len() ==> text::contains(
            chat_text::server_detail(lang, name, m),
            m.args[i],
        ),
        0 <= i < m.env_names.len() ==> text::contains(
            chat_text::server_detail(lang, name, m),
            m.env_names[i],
        ),
{
    let a = i18n::message_fmt(lang, "MCP server: {name}"@, seq![name]) + (match m.description {
        Some(d) => "\n"@ + i18n::message_fmt(lang, "  description: {d}"@, seq![d]),
        None => Seq::empty(),
    }) + "\n  command: "@;
    let b = a + m.command;
    let args = if m.args.len() > 0 {
        "\n  args: "@ + text::joined(m.args, " "@)
    } else {
        Seq::empty()
    };
    let env = if m.env_names.len() > 0 {
        "\n  env: "@ + text::joined(m.env_names, ", "@)
    } else {
        Seq::empty()
    };
    assert(chat_text::server_detail(lang, name, m) == b + args + env);
    laws::lemma_at_the_end(a, m.command);
    laws::lemma_held(b, args, m.command);
    laws::lemma_held(b + args, env, m.command);
    if 0 <= i < m.args.len() {
        laws::lemma_joined_holds(m.args, " "@, i);
        laws::lemma_held(text::joined(m.args, " "@), "\n  args: "@, m.args[i]);
        laws::lemma_held(args, b, m.args[i]);
        laws::lemma_held(b + args, env, m.args[i]);
    }
    if 0 <= i < m.env_names.len() {
        laws::lemma_joined_holds(m.env_names, ", "@, i);
        laws::lemma_held(text::joined(m.env_names, ", "@), "\n  env: "@, m.env_names[i]);
        laws::lemma_held(env, b + args, m.env_names[i]);
    }
}

/// What each model has taken in and put out is shown beside its name.
pub proof fn law_usage_of_every_model_is_shown(usage: Seq<UsageModel>, i: int)
    requires
        0 <= i < usage.len(),
    ensures
        text::contains(
            chat_text::usage_lines(usage),
            usage[i].model + ": ↑"@ + text::decimal(usage[i].input_tokens as nat) + " ↓"@
                + text::decimal(usage[i].output_tokens as nat),
        ),
    decreases usage.len(),
{
    let d = usage.drop_last();
    let u = usage.last();
    let before = chat_text::usage_lines(d);
    let x = text::decimal(u.input_tokens as nat);
    let y = text::decimal(u.output_tokens as nat);
    let told = u.model + ": ↑"@ + x + " ↓"@ + y;
    let line = "\n  "@ + u.model + ": ↑"@ + x + " ↓"@ + y;
    assert(line =~= "\n  "@ + told);
    if i < d.len() {
        law_usage_of_every_model_is_shown(d, i);
        assert(d[i] == usage[i]);
        laws::lemma_held(
            before,
            line,
            usage[i].model + ": ↑"@ + text::decimal(usage[i].input_tokens as nat) + " ↓"@
                + text::decimal(usage[i].output_tokens as nat),
        );
    } else {
        laws::lemma_at_the_end("\n  "@, told);
        laws::lemma_held(line, before, told);
    }
}

/// An endpoint that is asked for is shown in detail, and without a name the active
/// one is, with the list of all behind it.
pub proof fn law_asked_endpoint_is_shown(
    lang: Language,
    cfg: Config,
    active: Seq<char>,
    args: Seq<char>,
)
    ensures
        ({
            let name = text::trimmed(args);
            let shown = chat_text::endpoint_shown(lang, cfg, active, args);
            let list = chat_text::endpoint_list(lang, cfg.endpoints.entries@, active);
            &&& name.len() > 0 && cfg@.endpoints.dom().contains(name) ==> shown
                == chat_text::endpoint_detail(lang, name, cfg@.endpoints[name], name == active)
            &&& name.len() == 0 && cfg@.endpoints.dom().contains(active)
                ==> chat_text::endpoint_detail(
                lang,
                active,
                cfg@.endpoints[active],
                true,
            ).is_prefix_of(shown)
            &&& name.len() == 0 ==> list.is_suffix_of(shown)
        }),
{
    let shown = chat_text::endpoint_shown(lang, cfg, active, args);
    let list = chat_text::endpoint_list(lang, cfg.endpoints.entries@, active);
    if text::trimmed(args).len() == 0 {
        assert(shown.subrange(shown.len() - list.len(), shown.len() as int) =~= list);
        if cfg@.endpoints.dom().contains(active) {
            let d = chat_text::endpoint_detail(lang, active, cfg@.endpoints[active], true);
            assert(shown.take(d.len() as int) =~= d);
        }
    }
}

/// A server that is asked for is shown in detail, and without a name all are
/// listed.
pub proof fn law_asked_server_is_shown(lang: Language, cfg: Config, args: Seq<char>)
    ensures
        text::trimmed(args).len() == 0 ==> chat_text::servers_shown(lang, cfg, args)
            == chat_text::server_list(lang, cfg.mcp.entries@),
        text::trimmed(args).len() > 0 && cfg@.mcp.dom().contains(text::trimmed(args))
            ==> chat_text::servers_shown(lang, cfg, args) == chat_text::server_detail(
            lang,
            text::trimmed(args),
            cfg@.mcp[text::trimmed(args)],
        ),
{
}

/// The help has a line for every command, with how it is used and what it does.
pub proof fn law_help_names_every_command(lang: Language, i: int)
    requires
        0 <= i < COMMAND_COUNT,
    ensures
        text::contains(
            chat_text::help_lines(lang)[i + 1],
            i18n::message(lang, COMMANDS@[i].3@),
        ),
        text::contains(
            chat_text::help_lines(lang)[i + 1],
            i18n::message(lang, COMMANDS@[i].2@),
        ),
        chat_text::help_lines(lang).len() == COMMAND_COUNT + 3,
{
    let usage = i18n::message(lang, COMMANDS@[i].3@);
    let about = i18n::message(lang, COMMANDS@[i].2@);
    let line = chat_text::help_lines(lang)[i + 1];
    let p = text::padded_right(usage, 18);
    assert(line == chat_text::help_line(usage, about));
    lemma_padding(usage, 18);
    laws::lemma_held(p, "  "@, usage);
    laws::lemma_held("  "@ + p, " — "@, usage);
    laws::lemma_held("  "@ + p + " — "@, about, usage);
    laws::lemma_at_the_end("  "@ + p + " — "@, about);
}

/// The help in one text names every command too.
pub proof fn law_help_text_names_every_command(lang: Language, n: nat, i: int)
    requires
        0 <= i < n <= COMMAND_COUNT,
    ensures
        text::contains(
            chat_text::help_entries(lang, n),
            i18n::message(lang, COMMANDS@[i].3@),
        ),
        text::contains(
            chat_text::help_entries(lang, n),
            i18n::message(lang, COMMANDS@[i].2@),
        ),
    decreases n,
{
    let usage = i18n::message(lang, COMMANDS@[i].3@);
    let about = i18n::message(lang, COMMANDS@[i].2@);
    let before = chat_text::help_entries(lang, (n - 1) as nat);
    let line = "\n  "@ + i18n::message(lang, COMMANDS@[n - 1].3@) + "  — "@ + i18n::message(
        lang,
        COMMANDS@[n - 1].2@,
    );
    if i < n - 1 {
        law_help_text_names_every_command(lang, (n - 1) as nat, i);
        laws::lemma_held(before, line, usage);
        laws::lemma_held(before, line, about);
    } else {
        laws::lemma_at_the_end("\n  "@, usage);
        laws::lemma_held("\n  "@ + usage, "  — "@, usage);
        laws::lemma_held("\n  "@ + usage + "  — "@, about, usage);
        laws::lemma_at_the_end("\n  "@ + usage + "  — "@, about);
        laws::lemma_held(line, before, usage);
        laws::lemma_held(line, before, about);
    }
}

/// The share of a context is the whole percentage that an estimate fills.
pub proof fn law_share_is_the_percentage(estimate: nat, tokens: u64, pct: u64)
    requires
        chat_text::context_share(estimate, tokens) == Some(pct),
    ensures
        pct <= 999,
        pct * tokens <= estimate * 100,
        pct < 999 ==> estimate * 100 < (pct + 1) * tokens,
{
    let n = (estimate * 100) as int;
    let t = tokens as int;
    let q = n / t;
    assert(q * t <= n < (q + 1) * t) by (nonlinear_arith)
        requires
            t > 0,
            n >= 0,
            q == n / t,
    ;
    if pct < q {
        assert(pct * t <= q * t) by (nonlinear_arith)
            requires
                pct < q,
                t > 0,
        ;
    }
}

// ---------------------------------------------------------------------------
// Earlier prompts
// ---------------------------------------------------------------------------

/// A prompt is found where it contains what is looked for, and only there; those
/// that are found stay in their order.
pub proof fn law_prompts_are_searched(prompts: Seq<Seq<char>>, p: Seq<char>, q: Seq<char>)
    ensures
        q.len() == 0 || text::contains(text::lowercase(p), q) ==> chat_text::prompts_with(
            prompts.push(p),
            q,
        ) == chat_text::prompts_with(prompts, q).push(p),
        !(q.len() == 0 || text::contains(text::lowercase(p), q)) ==> chat_text::prompts_with(
            prompts.push(p),
            q,
        ) == chat_text::prompts_with(prompts, q),
        chat_text::prompts_with(Seq::empty(), q).len() == 0,
{
    assert(prompts.push(p).drop_last() =~= prompts);
}

/// A short prompt of one line is shown as it is; of a long one its beginning is.
pub proof fn law_prompt_is_shown(p: Seq<char>)
    requires
        text::lines_of(p) == seq![p],
        text::trimmed(p) == p,
        p.len() > 0,
    ensures
        p.len() <= 70 ==> chat_text::prompt_shown(p) == p,
        p.len() > 70 ==> p.take(70).is_prefix_of(chat_text::prompt_shown(p)),
        p.len() <= 70 ==> chat_text::prompt_lines(seq![p]) == seq!["  "@ + p],
{
    if p.len() > 70 {
        assert(chat_text::prompt_shown(p).take(70) =~= p.take(70));
    } else {
        assert(seq![p].drop_last() =~= Seq::empty());
        assert(chat_text::prompt_lines(Seq::empty()).len() == 0);
        assert(chat_text::prompt_lines(seq![p]) =~= seq!["  "@ + p]);
    }
}

/// Every prompt that has a first line is listed, in order.
pub proof fn law_prompts_are_listed(prompts: Seq<Seq<char>>, p: Seq<char>)
    requires
        chat_text::prompt_shown(p).len() > 0,
    ensures
        chat_text::prompt_lines(prompts.push(p)).drop_last() == chat_text::prompt_lines(prompts),
        chat_text::prompt_lines(prompts.push(p)).last() == "  "@ + chat_text::prompt_shown(p),
{
    assert(prompts.push(p).drop_last() =~= prompts);
    let after = chat_text::prompt_lines(prompts.push(p));
    assert(after.drop_last() =~= chat_text::prompt_lines(prompts));
}

// ---------------------------------------------------------------------------
// Settings
// ---------------------------------------------------------------------------

/// A setting that is changed is read back as it was given, and a value that
/// cannot be read changes nothing.
pub proof fn law_settings_are_read_back(
    c: ConfigModel,
    pct: u8,
    depth: u32,
    value: Seq<char>,
    mode: UpdateMode,
)
    ensures
        config_cmd::value_of(
            config_cmd::config_with(
                c,
                "handoff_threshold_pct"@,
                text::decimal(pct as nat),
            ),
            "handoff_threshold_pct"@,
        ) == Some(text::decimal(pct as nat)),
        config_cmd::config_with(
            c,
            "handoff_threshold_pct"@,
            text::decimal(pct as nat),
        ).context.handoff_threshold_pct == pct,
        config_cmd::config_with(
            c,
            "max_handoff_depth"@,
            text::decimal(depth as nat),
        ).context.max_handoff_depth == depth,
        config_cmd::value_of(
            config_cmd::config_with(c, "max_handoff_depth"@, text::decimal(depth as nat)),
            "max_handoff_depth"@,
        ) == Some(text::decimal(depth as nat)),
        config_cmd::config_with(
            c,
            "handoff_warn_depth"@,
            text::decimal(depth as nat),
        ).context.handoff_warn_depth == depth,
        config_cmd::value_of(
            config_cmd::config_with(c, "handoff_warn_depth"@, text::decimal(depth as nat)),
            "handoff_warn_depth"@,
        ) == Some(text::decimal(depth as nat)),
        config_cmd::value_of(
            config_cmd::config_with(c, "update.repo"@, value),
            "update.repo"@,
        ) == Some(value),
        config_cmd::value_of(
            config_cmd::config_with(c, "update.mode"@, mode.name()),
            "update.mode"@,
        ) == Some(mode.name()),
        text::parsed_number(value, u32::MAX as nat) is None ==> config_cmd::config_with(
            c,
            "max_handoff_depth"@,
            value,
        ) == c,
{
    lemma_keys();
    text::law_decimal_roundtrip(pct as nat, u8::MAX as nat);
    text::law_decimal_roundtrip(depth as nat, u32::MAX as nat);
    crate::config::law_mode_names_roundtrip(mode);
}

/// The keys of settings are told apart by their lengths or their letters.
proof fn lemma_keys()
    ensures
        "version"@.len() == 7,
        "active_endpoint"@.len() == 15,
        "handoff_threshold_pct"@.len() == 21,
        "max_handoff_depth"@.len() == 17,
        "handoff_warn_depth"@.len() == 18,
        "update.repo"@.len() == 11,
        "update.mode"@.len() == 11,
        "update.repo"@[7] == 'r',
        "update.mode"@[7] == 'm',
{
    reveal_strlit("version");
    reveal_strlit("active_endpoint");
    reveal_strlit("handoff_threshold_pct");
    reveal_strlit("max_handoff_depth");
    reveal_strlit("handoff_warn_depth");
    reveal_strlit("update.repo");
    reveal_strlit("update.mode");
}

/// A field of an endpoint or of a server is read under its key: the group, the
/// name and the field, with dots between them.
pub proof fn law_fields_are_read_by_key(c: ConfigModel, name: Seq<char>)
    requires
        !name.contains('.'),
    ensures
        c.endpoints.dom().contains(name) ==> {
            let ep = c.endpoints[name];
            let key = |f: Seq<char>| "endpoints."@ + name + seq!['.'] + f;
            &&& config_cmd::value_of(c, key("url"@)) == Some(ep.url)
            &&& config_cmd::value_of(c, key("model"@)) == Some(ep.model)
            &&& config_cmd::value_of(c, key("api_key"@)) == ep.api_key
            &&& config_cmd::value_of(c, key("context_tokens"@)) == Some(
                text::decimal(ep.context_tokens as nat),
            )
            &&& config_cmd::value_of(c, key("max_iterations"@)) == Some(
                text::decimal(ep.max_iterations as nat),
            )
            &&& ep.vision ==> config_cmd::value_of(c, key("vision"@)) == Some("true"@)
            &&& !ep.vision ==> config_cmd::value_of(c, key("vision"@)) == Some("false"@)
            &&& ep.thinking ==> config_cmd::value_of(c, key("thinking"@)) == Some("true"@)
            &&& !ep.thinking ==> config_cmd::value_of(c, key("thinking"@)) == Some("false"@)
        },
        c.mcp.dom().contains(name) ==> {
            let m = c.mcp[name];
            let key = |f: Seq<char>| "mcp."@ + name + seq!['.'] + f;
            &&& config_cmd::value_of(c, key("command"@)) == Some(m.command)
            &&& config_cmd::value_of(c, key("args"@)) == Some(text::joined(m.args, " "@))
            &&& config_cmd::value_of(c, key("description"@)) == m.description
        },
        !c.endpoints.dom().contains(name) ==> config_cmd::value_of(
            c,
            "endpoints."@ + name + seq!['.'] + "url"@,
        ) is None,
{
    assert("url"@.len() == 3 && "url"@[0] == 'u') by {
        reveal_strlit("url");
    }
    assert("model"@.len() == 5 && "model"@[0] == 'm') by {
        reveal_strlit("model");
    }
    assert("api_key"@.len() == 7) by {
        reveal_strlit("api_key");
    }
    assert("context_tokens"@.len() == 14 && "context_tokens"@[0] == 'c') by {
        reveal_strlit("context_tokens");
    }
    assert("max_iterations"@.len() == 14 && "max_iterations"@[0] == 'm') by {
        reveal_strlit("max_iterations");
    }
    assert("vision"@.len() == 6) by {
        reveal_strlit("vision");
    }
    assert("thinking"@.len() == 8) by {
        reveal_strlit("thinking");
    }
    assert("command"@.len() == 7) by {
        reveal_strlit("command");
    }
    assert("args"@.len() == 4) by {
        reveal_strlit("args");
    }
    assert("description"@.len() == 11) by {
        reveal_strlit("description");
    }
    lemma_endpoint_key(c, name, "url"@);
    lemma_endpoint_key(c, name, "model"@);
    lemma_endpoint_key(c, name, "api_key"@);
    lemma_endpoint_key(c, name, "context_tokens"@);
    lemma_endpoint_key(c, name, "max_iterations"@);
    lemma_endpoint_key(c, name, "vision"@);
    lemma_endpoint_key(c, name, "thinking"@);
    lemma_server_key(c, name, "command"@);
    lemma_server_key(c, name, "args"@);
    lemma_server_key(c, name, "description"@);
}

proof fn lemma_name_and_field(name: Seq<char>, field: Seq<char>)
    requires
        !name.contains('.'),
    ensures
        config_cmd::name_and_field(name + seq!['.'] + field) == (name, field),
{
    let s = name + seq!['.'] + field;
    let n = name.len() as int;
    text_laws::lemma_find_char(s, '.');
    assert(s[n] == '.');
    let i = text::find(s, seq!['.'])->0;
    if i < n {
        assert(s[i] == name[i]);
        assert(name.contains(name[i]));
    }
    assert(s.take(n) =~= name);
    assert(s.skip(n + 1) =~= field);
}

proof fn lemma_endpoint_key(c: ConfigModel, name: Seq<char>, field: Seq<char>)
    requires
        !name.contains('.'),
    ensures
        config_cmd::value_of(c, "endpoints."@ + name + seq!['.'] + field) == if c.endpoints.dom().contains(
            name,
        ) {
            config_cmd::endpoint_value(c.endpoints[name], field)
        } else {
            None
        },
{
    let key = "endpoints."@ + name + seq!['.'] + field;
    lemma_key_of_a_group();
    assert(key[0] == 'e' && key[1] == 'n');
    assert(key.take(10) =~= "endpoints."@);
    assert(key.skip(10) =~= name + seq!['.'] + field);
    lemma_name_and_field(name, field);
}

proof fn lemma_server_key(c: ConfigModel, name: Seq<char>, field: Seq<char>)
    requires
        !name.contains('.'),
    ensures
        config_cmd::value_of(c, "mcp."@ + name + seq!['.'] + field) == if c.mcp.dom().contains(name) {
            config_cmd::server_value(c.mcp[name], field)
        } else {
            None
        },
{
    let key = "mcp."@ + name + seq!['.'] + field;
    lemma_key_of_a_group();
    assert(key[0] == 'm' && key[1] == 'c');
    assert(!"endpoints."@.is_prefix_of(key));
    assert(key.take(4) =~= "mcp."@);
    assert(key.skip(4) =~= name + seq!['.'] + field);
    lemma_name_and_field(name, field);
}

/// The keys of endpoints and servers begin otherwise than all other keys.
proof fn lemma_key_of_a_group()
    ensures
        "version"@[0] == 'v',
        "active_endpoint"@[0] == 'a',
        "handoff_threshold_pct"@[0] == 'h',
        "max_handoff_depth"@[0] == 'm',
        "max_handoff_depth"@[1] == 'a',
        "handoff_warn_depth"@[0] == 'h',
        "update.repo"@[0] == 'u',
        "update.mode"@[0] == 'u',
        "endpoints."@.len() == 10,
        "endpoints."@[0] == 'e',
        "endpoints."@[1] == 'n',
        "mcp."@.len() == 4,
        "mcp."@[0] == 'm',
        "mcp."@[1] == 'c',
{
    reveal_strlit("version");
    reveal_strlit("active_endpoint");
    reveal_strlit("handoff_threshold_pct");
    reveal_strlit("max_handoff_depth");
    reveal_strlit("handoff_warn_depth");
    reveal_strlit("update.repo");
    reveal_strlit("update.mode");
    reveal_strlit("endpoints.");
    reveal_strlit("mcp.");
}

proof fn lemma_keys_differ(n: Seq<char>, f: Seq<char>, k: Seq<char>, g: Seq<char>)
    requires
        !n.contains('.'),
        !k.contains('.'),
        n != k,
        f.len() > 0,
        f[0] == '.',
        g.len() > 0,
        g[0] == '.',
    ensures
        config_cmd::key_of("endpoints."@, n, f) != config_cmd::key_of("endpoints."@, k, g),
{
    let (a, b) = (config_cmd::key_of("endpoints."@, n, f), config_cmd::key_of("endpoints."@, k, g));
    if a == b {
        let e = "endpoints."@.len() as int;
        assert(a.skip(e) =~= n + seq!['.'] + f.skip(1));
        assert(b.skip(e) =~= k + seq!['.'] + g.skip(1));
        lemma_name_and_field(n, f.skip(1));
        lemma_name_and_field(k, g.skip(1));
    }
}

proof fn lemma_fields()
    ensures
        ".url"@.len() == 4 && ".url"@[0] == '.',
        ".model"@.len() == 6 && ".model"@[0] == '.',
        ".context_tokens"@.len() == 15 && ".context_tokens"@[0] == '.' && ".context_tokens"@[1]
            == 'c',
        ".vision"@.len() == 7 && ".vision"@[0] == '.',
        ".thinking"@.len() == 9 && ".thinking"@[0] == '.',
        ".max_iterations"@.len() == 15 && ".max_iterations"@[0] == '.' && ".max_iterations"@[1]
            == 'm',
{
    reveal_strlit(".url");
    reveal_strlit(".model");
    reveal_strlit(".context_tokens");
    reveal_strlit(".vision");
    reveal_strlit(".thinking");
    reveal_strlit(".max_iterations");
}

proof fn lemma_other_endpoint(
    m: Map<Seq<char>, Seq<char>>,
    entries: Seq<(String, EndpointConfig)>,
    name: Seq<char>,
    f: Seq<char>,
)
    requires
        entries.len() > 0,
        !name.contains('.'),
        !entries.last().0@.contains('.'),
        name != entries.last().0@,
        f.len() > 0,
        f[0] == '.',
    ensures
        ({
            let all = config_cmd::with_endpoints(m, entries);
            let before = config_cmd::with_endpoints(m, entries.drop_last());
            let key = config_cmd::key_of("endpoints."@, name, f);
            &&& all.dom().contains(key) == before.dom().contains(key)
            &&& all[key] == before[key]
        }),
{
    lemma_fields();
    let k = entries.last().0@;
    lemma_keys_differ(name, f, k, ".url"@);
    lemma_keys_differ(name, f, k, ".model"@);
    lemma_keys_differ(name, f, k, ".context_tokens"@);
    lemma_keys_differ(name, f, k, ".vision"@);
    lemma_keys_differ(name, f, k, ".thinking"@);
    lemma_keys_differ(name, f, k, ".max_iterations"@);
}

/// The list of all settings holds the address, the model and the limits of every
/// endpoint, each under its key.
pub proof fn law_endpoints_are_listed_with_their_settings(
    m: Map<Seq<char>, Seq<char>>,
    entries: Seq<(String, EndpointConfig)>,
    i: int,
)
    requires
        0 <= i < entries.len(),
        forall|j: int| 0 <= j < entries.len() ==> !(#[trigger] entries[j]).0@.contains('.'),
        forall|j: int| i < j < entries.len() ==> (#[trigger] entries[j]).0@ != entries[i].0@,
    ensures
        ({
            let all = config_cmd::with_endpoints(m, entries);
            let key = |f: Seq<char>| config_cmd::key_of("endpoints."@, entries[i].0@, f);
            let ep = entries[i].1@;
            &&& all.dom().contains(key(".url"@)) && all[key(".url"@)] == ep.url
            &&& all.dom().contains(key(".model"@)) && all[key(".model"@)] == ep.model
            &&& all.dom().contains(key(".context_tokens"@)) && all[key(".context_tokens"@)]
                == text::decimal(ep.context_tokens as nat)
            &&& all.dom().contains(key(".max_iterations"@)) && all[key(".max_iterations"@)]
                == text::decimal(ep.max_iterations as nat)
        }),
    decreases entries.len(),
{
    let d = entries.drop_last();
    let name = entries[i].0@;
    lemma_fields();
    assert(!name.contains('.'));
    if i < d.len() {
        assert forall|j: int| 0 <= j < d.len() implies !(#[trigger] d[j]).0@.contains('.') by {
            assert(d[j] == entries[j]);
        }
        assert forall|j: int| i < j < d.len() implies (#[trigger] d[j]).0@ != d[i].0@ by {
            assert(d[j] == entries[j]);
        }
        law_endpoints_are_listed_with_their_settings(m, d, i);
        let last = entries[entries.len() - 1];
        assert(last.0@ != name && !last.0@.contains('.'));
        lemma_other_endpoint(m, entries, name, ".url"@);
        lemma_other_endpoint(m, entries, name, ".model"@);
        lemma_other_endpoint(m, entries, name, ".context_tokens"@);
        lemma_other_endpoint(m, entries, name, ".max_iterations"@);
    } else {
        let p = "endpoints."@ + name;
        let key = |f: Seq<char>| config_cmd::key_of("endpoints."@, name, f);
        assert(key(".url"@).len() == p.len() + 4);
        assert(key(".model"@).len() == p.len() + 6);
        assert(key(".context_tokens"@).len() == p.len() + 15);
        assert(key(".context_tokens"@)[p.len() as int + 1] == 'c');
        assert(key(".vision"@).len() == p.len() + 7);
        assert(key(".thinking"@).len() == p.len() + 9);
        assert(key(".max_iterations"@).len() == p.len() + 15);
        assert(key(".max_iterations"@)[p.len() as int + 1] == 'm');
    }
}

/// The settings that belong to no endpoint and no server are in the list.
pub proof fn law_plain_settings_are_listed(c: ConfigModel)
    ensures
        ({
            let m = config_cmd::plain_settings(c);
            &&& m.dom().contains("handoff_threshold_pct"@) && m["handoff_threshold_pct"@]
                == text::decimal(c.context.handoff_threshold_pct as nat)
            &&& m.dom().contains("max_handoff_depth"@) && m["max_handoff_depth"@]
                == text::decimal(c.context.max_handoff_depth as nat)
            &&& m.dom().contains("handoff_warn_depth"@) && m["handoff_warn_depth"@]
                == text::decimal(c.context.handoff_warn_depth as nat)
            &&& m.dom().contains("version"@) && m["version"@] == text::decimal(c.version as nat)
            &&& c.active_endpoint matches Some(n) ==> m.dom().contains("active_endpoint"@)
                && m["active_endpoint"@] == n
            &&& c.active_endpoint is None ==> !m.dom().contains("active_endpoint"@)
        }),
{
    lemma_keys();
}

/// An endpoint is registered with what was given on the command line.
pub proof fn law_arguments_make_the_endpoint(args: EndpointAddArgs)
    ensures
        endpoint_cmd::add_spec(args).url == args.url@,
        endpoint_cmd::add_spec(args).model == args.model@,
        endpoint_cmd::add_spec(args).api_key == text::opt_view(args.api_key),
        endpoint_cmd::add_spec(args).vision == args.vision,
        endpoint_cmd::add_spec(args).thinking == args.thinking,
        args.context_tokens matches Some(n) ==> endpoint_cmd::add_spec(args).context_tokens == n,
        args.context_tokens is None ==> endpoint_cmd::add_spec(args).context_tokens == 0,
{
}

/// Changing a field of an endpoint changes that endpoint as the field says, and
/// no other; an endpoint that is not there is an error.
pub proof fn law_field_of_an_endpoint_is_set(
    c: ConfigModel,
    name: Seq<char>,
    field: Seq<char>,
    value: Seq<char>,
    other: Seq<char>,
)
    requires
        other != name,
    ensures
        !c.endpoints.dom().contains(name) ==> (endpoint_cmd::set_result(c, name, field, value)
            matches Err(e) && text::contains(e, name)),
        c.endpoints.dom().contains(name) && endpoint::with_field(c.endpoints[name], field, value)
            is Err ==> endpoint_cmd::set_result(c, name, field, value) is Err,
        c.endpoints.dom().contains(name) ==> (endpoint::with_field(
            c.endpoints[name],
            field,
            value,
        ) matches Ok(ep) ==> (endpoint_cmd::set_result(c, name, field, value) matches Ok(d)
            && d.endpoints[name] == ep && d.endpoints.dom() == c.endpoints.dom() && (
        c.endpoints.dom().contains(other) ==> d.endpoints[other] == c.endpoints[other])
            && d.active_endpoint == c.active_endpoint && d.mcp == c.mcp)),
{
    laws::lemma_at_the_end("엔드포인트를 찾을 수 없습니다: "@, name);
    if c.endpoints.dom().contains(name) {
        if let Ok(ep) = endpoint::with_field(c.endpoints[name], field, value) {
            assert(c.endpoints.insert(name, ep).dom() =~= c.endpoints.dom());
        }
    }
}

/// An endpoint is listed with its name, its address and its model.
pub proof fn law_row_shows_the_endpoint(lang: Language, row: RowModel)
    ensures
        row.name.is_prefix_of(endpoint_cmd::row_text(lang, row)),
        text::contains(endpoint_cmd::row_text(lang, row), row.url),
        text::contains(endpoint_cmd::row_text(lang, row), row.model),
{
    let mark = if row.active {
        i18n::message(lang, " (active)"@)
    } else {
        ""@
    };
    let key = if row.api_key_masked.len() == 0 {
        "-"@
    } else {
        row.api_key_masked
    };
    let size = if row.context_tokens > 0 {
        text::decimal(row.context_tokens as nat)
    } else {
        i18n::message(lang, "auto (probe)"@)
    };
    let a = row.name + mark + "\n  url: "@;
    let b = a + row.url;
    let c = b + "\n  api_key: "@;
    let d = c + key;
    let e = d + "\n  model: "@;
    let f = e + row.model;
    let g = f + "\n  context_tokens: "@;
    let h = g + size;
    let all = h + "\n"@;
    assert(all == endpoint_cmd::row_text(lang, row));
    assert(all.take(row.name.len() as int) =~= row.name);
    laws::lemma_at_the_end(a, row.url);
    laws::lemma_held(b, "\n  api_key: "@, row.url);
    laws::lemma_held(c, key, row.url);
    laws::lemma_held(d, "\n  model: "@, row.url);
    laws::lemma_held(e, row.model, row.url);
    laws::lemma_at_the_end(e, row.model);
    laws::lemma_held(f, "\n  context_tokens: "@, row.url);
    laws::lemma_held(f, "\n  context_tokens: "@, row.model);
    laws::lemma_held(g, size, row.url);
    laws::lemma_held(g, size, row.model);
    laws::lemma_held(h, "\n"@, row.url);
    laws::lemma_held(h, "\n"@, row.model);
}

// ---------------------------------------------------------------------------
// Sessions and runs
// ---------------------------------------------------------------------------

/// Every session is in the list, with its id, its times and the number of its
/// turns.
pub proof fn law_every_session_is_listed(lang: Language, metas: Seq<SessionMeta>, i: int)
    requires
        0 <= i < metas.len(),
    ensures
        session_cmd::session_lines(lang, metas).len() == metas.len() + 1,
        metas[i].id@.is_prefix_of(session_cmd::session_lines(lang, metas)[i + 1]),
        text::contains(session_cmd::session_lines(lang, metas)[i + 1], metas[i].created_at@),
        text::contains(
            session_cmd::session_lines(lang, metas)[i + 1],
            text::decimal(metas[i].turns as nat),
        ),
        text::contains(session_cmd::session_lines(lang, metas)[i + 1], metas[i].updated_at@),
{
    let line = session_cmd::session_lines(lang, metas)[i + 1];
    let m = metas[i];
    assert(line == session_cmd::columns(
        m.id@,
        m.created_at@,
        text::decimal(m.turns as nat),
        m.updated_at@,
    ));
    assert(line.take(m.id@.len() as int) =~= m.id@);
    let n = text::decimal(m.turns as nat);
    let a = text::padded_right(m.id@, 40) + "  "@;
    let p = text::padded_right(m.created_at@, 24);
    let q = text::padded_right(n, 6);
    let r = text::padded_right(m.updated_at@, 24);
    lemma_padding(m.created_at@, 24);
    lemma_padding(n, 6);
    lemma_padding(m.updated_at@, 24);
    laws::lemma_held(p, a, m.created_at@);
    laws::lemma_held(a + p, "  "@, m.created_at@);
    laws::lemma_held(a + p + "  "@, q, m.created_at@);
    laws::lemma_held(q, a + p + "  "@, n);
    let b = a + p + "  "@ + q;
    laws::lemma_held(b, "  "@, m.created_at@);
    laws::lemma_held(b, "  "@, n);
    laws::lemma_held(b + "  "@, r, m.created_at@);
    laws::lemma_held(b + "  "@, r, n);
    laws::lemma_held(r, b + "  "@, m.updated_at@);
}

/// A run is listed with its number, its status, its endpoint and its model.
pub proof fn law_run_is_listed(lang: Language, row: RunRow)
    ensures
        text::contains(
            history_cmd::list_line(lang, row),
            text::signed_decimal(row.id as int),
        ),
        text::contains(history_cmd::list_line(lang, row), row.status@),
        text::contains(history_cmd::list_line(lang, row), row.endpoint@),
{
    let id = text::signed_decimal(row.id as int);
    let p = text::padded_right(id, 4);
    let q = text::padded_right(row.status@, 11);
    let segment = if row.segment_index == 0 {
        ""@
    } else {
        " [seg "@ + text::decimal(row.segment_index as nat) + "]"@
    };
    let at = text::within(row.started_at@, 19);
    let model = crate::tools::history::or_dash(row.model);
    let count = text::decimal(history_cmd::file_count(row));
    let files = i18n::message(lang, "files"@);
    let ms = crate::tools::history::number_or_dash(row.duration_ms);
    let a = "#"@ + p;
    let b = a + " "@;
    let c = b + q;
    let d = c + " "@ + at + segment + " | "@;
    let e = d + row.endpoint@;
    let tail = " | "@ + model + " | "@ + count + " "@ + files + " | "@ + ms + "ms"@;
    lemma_padding(id, 4);
    lemma_padding(row.status@, 11);
    laws::lemma_held(p, "#"@, id);
    laws::lemma_held(a, " "@, id);
    laws::lemma_held(b, q, id);
    laws::lemma_held(q, b, row.status@);
    laws::lemma_held(c, " "@, id);
    laws::lemma_held(c, " "@, row.status@);
    laws::lemma_held(c + " "@, at, id);
    laws::lemma_held(c + " "@, at, row.status@);
    laws::lemma_held(c + " "@ + at, segment, id);
    laws::lemma_held(c + " "@ + at, segment, row.status@);
    laws::lemma_held(c + " "@ + at + segment, " | "@, id);
    laws::lemma_held(c + " "@ + at + segment, " | "@, row.status@);
    laws::lemma_held(d, row.endpoint@, id);
    laws::lemma_held(d, row.endpoint@, row.status@);
    laws::lemma_at_the_end(d, row.endpoint@);
    let f = e + " | "@;
    let g = f + model;
    let h = g + " | "@;
    let i = h + count;
    let j = i + " "@;
    let k = j + files;
    let l = k + " | "@;
    let m = l + ms;
    lemma_three_held(e, " | "@, id, row.status@, row.endpoint@);
    lemma_three_held(f, model, id, row.status@, row.endpoint@);
    lemma_three_held(g, " | "@, id, row.status@, row.endpoint@);
    lemma_three_held(h, count, id, row.status@, row.endpoint@);
    lemma_three_held(i, " "@, id, row.status@, row.endpoint@);
    lemma_three_held(j, files, id, row.status@, row.endpoint@);
    lemma_three_held(k, " | "@, id, row.status@, row.endpoint@);
    lemma_three_held(l, ms, id, row.status@, row.endpoint@);
    lemma_three_held(m, "ms"@, id, row.status@, row.endpoint@);
    assert(m + "ms"@ == history_cmd::list_line(lang, row));
}

/// The files of a run are counted: all that are noted, and none where none are.
pub proof fn law_files_of_a_run_are_counted(row: RunRow)
    ensures
        row.files_touched is None ==> history_cmd::file_count(row) == 0,
        row.files_touched matches Some(s) ==> s@.len() > 0 ==> history_cmd::file_count(row)
            == crate::history::texts_of(crate::json::json_parse(s@)).len(),
        row.files_touched matches Some(s) ==> s@.len() == 0 ==> history_cmd::file_count(row) == 0,
{
}

/// A text is held by itself with spaces behind it.
proof fn lemma_padding(s: Seq<char>, n: nat)
    ensures
        text::contains(text::padded_right(s, n), s),
{
    let p = text::padded_right(s, n);
    let none = Seq::<char>::empty();
    laws::lemma_between(none, s, p.skip(s.len() as int));
    assert(none + s + p.skip(s.len() as int) =~= p);
}

/// A setting is listed as its key and its value, with an equals sign between them.
pub proof fn law_setting_line_has_key_and_value(rows: Seq<(String, String)>, i: int)
    requires
        0 <= i < rows.len(),
    ensures
        config_cmd::setting_lines(rows).len() == rows.len(),
        rows[i].0@.is_prefix_of(config_cmd::setting_lines(rows)[i]),
        rows[i].1@.is_suffix_of(config_cmd::setting_lines(rows)[i]),
        config_cmd::setting_lines(rows)[i].len() == rows[i].0@.len() + 3 + rows[i].1@.len(),
        config_cmd::setting_lines(rows)[i][rows[i].0@.len() as int + 1] == '=',
{
    reveal_strlit(" = ");
    let line = config_cmd::setting_lines(rows)[i];
    let (k, v) = (rows[i].0@, rows[i].1@);
    assert(line == k + " = "@ + v);
    assert(line.take(k.len() as int) =~= k);
    assert(line.subrange(line.len() - v.len(), line.len() as int) =~= v);
}

/// A switch is shown as on where it is on, and as off where it is not.
pub proof fn law_switch_is_shown()
    ensures
        chat_text::on_off(true) == "on"@,
        chat_text::on_off(false) == "off"@,
{
}

} // verus!
