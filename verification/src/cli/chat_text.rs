//! The texts of a conversation's commands.
use vstd::prelude::*;

use crate::agent::context;
use crate::config::{Config, EndpointConfig, EndpointModel, McpConfig, McpModel};
use crate::i18n::{say1, say2, say3, say4, translate, Language};
use crate::i18n;
use crate::session::{Session, SessionMeta, SessionModel, UsageModel};
use crate::session;
use crate::slash::{suggest_similar, COMMAND_COUNT, COMMANDS};
use crate::slash;
use crate::text;

verus! {

// ---------------------------------------------------------------------------
// Endpoints
// ---------------------------------------------------------------------------

/// A switch in words.
pub open spec fn on_off(v: bool) -> Seq<char> {
    if v {
        "on"@
    } else {
        "off"@
    }
}

/// A switch in words.
pub fn yes_no(v: bool) -> (r: &'static str)
    ensures
        r@ == on_off(v),
{
    if v {
        "on"
    } else {
        "off"
    }
}

/// A mark, where there is something to mark.
pub open spec fn mark_of(lang: Language, key: Seq<char>, marked: bool) -> Seq<char> {
    if marked {
        i18n::message(lang, key)
    } else {
        ""@
    }
}

/// A mark, where there is something to mark.
fn mark(lang: Language, key: &'static str, marked: bool) -> (r: &'static str)
    ensures
        r@ == mark_of(lang, key@, marked),
{
    if marked {
        translate(lang, key)
    } else {
        ""
    }
}

/// The size of a context: zero is one that is probed.
pub open spec fn context_shown(lang: Language, tokens: u64) -> Seq<char> {
    if tokens > 0 {
        text::decimal(tokens as nat)
    } else {
        i18n::message(lang, "auto (probe)"@)
    }
}

/// All about an endpoint but its key.
pub open spec fn endpoint_detail(
    lang: Language,
    name: Seq<char>,
    ep: EndpointModel,
    active: bool,
) -> Seq<char> {
    i18n::message_fmt(
        lang,
        "Endpoint: {name}{active}"@,
        seq![name, mark_of(lang, " (active)"@, active)],
    ) + "\n  url: "@ + ep.url + "\n  model: "@ + ep.model + "\n  context_tokens: "@ + context_shown(
        lang,
        ep.context_tokens,
    ) + "\n  vision: "@ + on_off(ep.vision) + "\n  thinking: "@ + on_off(ep.thinking)
        + "\n  reasoning_effort: "@ + (match ep.reasoning_effort {
        Some(e) => e,
        None => "—"@,
    }) + "\n  max_iterations: "@ + text::decimal(ep.max_iterations as nat)
}

/// All about an endpoint but its key.
pub fn endpoint_detail_text(lang: Language, name: &str, ep: &EndpointConfig, active: bool) -> (r:
    String)
    ensures
        r@ == endpoint_detail(lang, name@, ep@, active),
{
    let shown = mark(lang, " (active)", active);
    let mut out = say2(lang, "Endpoint: {name}{active}", name, shown);
    out.append("\n  url: ");
    out.append(&ep.url);
    out.append("\n  model: ");
    out.append(&ep.model);
    out.append("\n  context_tokens: ");
    if ep.context_tokens > 0 {
        out.append(&text::show(ep.context_tokens));
    } else {
        out.append(translate(lang, "auto (probe)"));
    }
    out.append("\n  vision: ");
    out.append(yes_no(ep.vision));
    out.append("\n  thinking: ");
    out.append(yes_no(ep.thinking));
    out.append("\n  reasoning_effort: ");
    match &ep.reasoning_effort {
        Some(e) => {
            out.append(e);
        },
        None => {
            out.append("—");
        },
    }
    out.append("\n  max_iterations: ");
    out.append(&text::show(ep.max_iterations as u64));
    out
}

/// An endpoint in a list.
pub open spec fn endpoint_line(lang: Language, e: (String, EndpointConfig), active: Seq<char>) -> Seq<
    char,
> {
    "\n  "@ + e.0@ + mark_of(lang, " (active)"@, e.0@ == active) + " — "@ + e.1.model@ + " ("@
        + e.1.url@ + ")"@
}

/// Endpoints in a list.
pub open spec fn endpoint_lines(
    lang: Language,
    entries: Seq<(String, EndpointConfig)>,
    active: Seq<char>,
) -> Seq<char>
    decreases entries.len(),
{
    if entries.len() == 0 {
        Seq::empty()
    } else {
        endpoint_lines(lang, entries.drop_last(), active) + endpoint_line(
            lang,
            entries.last(),
            active,
        )
    }
}

/// The list of the endpoints, in the order of their names.
pub open spec fn endpoint_list(
    lang: Language,
    entries: Seq<(String, EndpointConfig)>,
    active: Seq<char>,
) -> Seq<char> {
    if entries.len() == 0 {
        i18n::message(lang, "No endpoints registered."@)
    } else {
        i18n::message(lang, "Endpoint list:"@) + endpoint_lines(lang, entries, active)
    }
}

/// The list of the endpoints, in the order of their names.
pub fn endpoint_list_text(lang: Language, cfg: &Config, active: &str) -> (r: String)
    ensures
        r@ == endpoint_list(lang, cfg.endpoints.entries@, active@),
{
    let entries = &cfg.endpoints.entries;
    if entries.len() == 0 {
        return translate(lang, "No endpoints registered.").to_string();
    }
    let mut out = translate(lang, "Endpoint list:").to_string();
    let ghost head = out@;
    let ghost all = entries@;
    let mut i: usize = 0;
    proof {
        assert(all.take(0) =~= Seq::empty());
        assert(head + Seq::<char>::empty() =~= head);
    }
    while i < entries.len()
        invariant
            i <= entries.len(),
            all == entries@,
            out@ == head + endpoint_lines(lang, all.take(i as int), active@),
        decreases entries.len() - i,
    {
        let ghost before = out@;
        let e = &entries[i];
        let current = text::str_eq(&e.0, active);
        out.append("\n  ");
        out.append(&e.0);
        out.append(mark(lang, " (active)", current));
        out.append(" — ");
        out.append(&e.1.model);
        out.append(" (");
        out.append(&e.1.url);
        out.append(")");
        proof {
            let next = all.take(i + 1);
            assert(next.drop_last() =~= all.take(i as int));
            assert(next.last() == all[i as int]);
            assert(out@ =~= before + endpoint_line(lang, all[i as int], active@));
            assert(out@ =~= head + endpoint_lines(lang, next, active@));
        }
        i = i + 1;
    }
    proof {
        assert(all.take(all.len() as int) =~= all);
    }
    out
}

/// What `/endpoint` shows: the endpoint that is named, or the active one and
/// the list.
pub open spec fn endpoint_shown(lang: Language, cfg: Config, active: Seq<char>, args: Seq<char>) -> Seq<
    char,
> {
    let name = text::trimmed(args);
    let list = endpoint_list(lang, cfg.endpoints.entries@, active);
    let known = cfg@.endpoints;
    if name.len() > 0 {
        if known.dom().contains(name) {
            endpoint_detail(lang, name, known[name], name == active)
        } else {
            i18n::message_fmt(lang, "Endpoint not found: {name}\n{list}"@, seq![name, list])
        }
    } else if known.dom().contains(active) {
        endpoint_detail(lang, active, known[active], true) + "\n\n"@ + list
    } else {
        list
    }
}

/// What `/endpoint` shows.
pub fn endpoint_text(lang: Language, cfg: &Config, active: &str, args: &str) -> (r: String)
    requires
        cfg.wf(),
    ensures
        r@ == endpoint_shown(lang, *cfg, active@, args@),
{
    let name = text::trim(args);
    let list = endpoint_list_text(lang, cfg, active);
    if !name.is_empty() {
        match cfg.endpoints.get(name) {
            Some(ep) => endpoint_detail_text(lang, name, ep, text::str_eq(name, active)),
            None => say2(lang, "Endpoint not found: {name}\n{list}", name, &list),
        }
    } else {
        match cfg.endpoints.get(active) {
            Some(ep) => endpoint_detail_text(lang, active, ep, true).concat("\n\n").concat(&list),
            None => list,
        }
    }
}

// ---------------------------------------------------------------------------
// Models
// ---------------------------------------------------------------------------

/// The models to choose from: the current one, then those of the endpoints,
/// each one once.
pub open spec fn models_known(current: Seq<char>, entries: Seq<(String, EndpointConfig)>) -> Seq<
    Seq<char>,
>
    decreases entries.len(),
{
    if entries.len() == 0 {
        if current.len() == 0 {
            Seq::empty()
        } else {
            seq![current]
        }
    } else {
        let before = models_known(current, entries.drop_last());
        let m = entries.last().1.model@;
        if m.len() == 0 || before.contains(m) {
            before
        } else {
            before.push(m)
        }
    }
}

/// The models to choose from.
pub fn known_models(cfg: &Config, current: &str) -> (r: Vec<String>)
    ensures
        text::views(r@) == models_known(current@, cfg.endpoints.entries@),
{
    let entries = &cfg.endpoints.entries;
    let ghost all = entries@;
    let mut out: Vec<String> = Vec::new();
    if !current.is_empty() {
        out.push(current.to_string());
    }
    let mut i: usize = 0;
    proof {
        assert(all.take(0) =~= Seq::empty());
        assert(text::views(out@) =~= models_known(current@, all.take(0)));
    }
    while i < entries.len()
        invariant
            i <= entries.len(),
            all == entries@,
            text::views(out@) == models_known(current@, all.take(i as int)),
        decreases entries.len() - i,
    {
        let ghost before = text::views(out@);
        proof {
            assert(all.take(i + 1).drop_last() =~= all.take(i as int));
            assert(all.take(i + 1).last() == all[i as int]);
        }
        let m = &entries[i].1.model;
        if !m.as_str().is_empty() && !text::is_in(&out, m) {
            out.push(m.clone());
            proof {
                assert(text::views(out@) =~= before.push(m@));
            }
        }
        i = i + 1;
    }
    proof {
        assert(all.take(all.len() as int) =~= all);
    }
    out
}

/// Models in a list.
pub open spec fn model_lines(lang: Language, models: Seq<Seq<char>>, current: Seq<char>) -> Seq<char>
    decreases models.len(),
{
    if models.len() == 0 {
        Seq::empty()
    } else {
        model_lines(lang, models.drop_last(), current) + ("\n  "@ + models.last() + mark_of(
            lang,
            " (current)"@,
            models.last() == current,
        ))
    }
}

/// What `/model` shows: the models to choose from.
pub open spec fn models_shown(
    lang: Language,
    current: Seq<char>,
    entries: Seq<(String, EndpointConfig)>,
) -> Seq<char> {
    let models = models_known(current, entries);
    if models.len() == 0 {
        i18n::message(lang, "Available models (from configured endpoints):"@) + "\n"@
            + i18n::message(lang, "  (no model configured — set one with /model <name>)"@)
    } else {
        i18n::message(lang, "Available models (from configured endpoints):"@) + model_lines(
            lang,
            models,
            current,
        ) + "\n"@ + i18n::message(lang, "Usage: /model <name> [low|medium|high]"@)
    }
}

/// What `/model` shows.
pub fn available_models_text(lang: Language, cfg: &Config, current: &str) -> (r: String)
    ensures
        r@ == models_shown(lang, current@, cfg.endpoints.entries@),
{
    let mut out = translate(lang, "Available models (from configured endpoints):").to_string();
    let models = known_models(cfg, current);
    if models.len() == 0 {
        out.append("\n");
        out.append(translate(lang, "  (no model configured — set one with /model <name>)"));
        return out;
    }
    let ghost head = out@;
    let ghost all = text::views(models@);
    let mut i: usize = 0;
    proof {
        assert(all.take(0) =~= Seq::empty());
        assert(head + Seq::<char>::empty() =~= head);
    }
    while i < models.len()
        invariant
            i <= models.len(),
            all == text::views(models@),
            out@ == head + model_lines(lang, all.take(i as int), current@),
        decreases models.len() - i,
    {
        let same = text::str_eq(&models[i], current);
        out.append("\n  ");
        out.append(&models[i]);
        out.append(mark(lang, " (current)", same));
        proof {
            let next = all.take(i + 1);
            assert(next.drop_last() =~= all.take(i as int));
            assert(next.last() == models@[i as int]@);
            assert(out@ =~= head + model_lines(lang, next, current@));
        }
        i = i + 1;
    }
    proof {
        assert(all.take(all.len() as int) =~= all);
    }
    out.append("\n");
    out.append(translate(lang, "Usage: /model <name> [low|medium|high]"));
    out
}

// ---------------------------------------------------------------------------
// Servers of tools
// ---------------------------------------------------------------------------

/// Servers in a list.
pub open spec fn server_lines(lang: Language, entries: Seq<(String, McpConfig)>) -> Seq<char>
    decreases entries.len(),
{
    if entries.len() == 0 {
        Seq::empty()
    } else {
        server_lines(lang, entries.drop_last()) + ("\n  "@ + entries.last().0@ + " — "@ + (
        match entries.last().1.description {
            Some(d) => d@,
            None => i18n::message(lang, "(no description)"@),
        }))
    }
}

/// The list of the servers, in the order of their names.
pub open spec fn server_list(lang: Language, entries: Seq<(String, McpConfig)>) -> Seq<char> {
    if entries.len() == 0 {
        i18n::message(lang, "(no MCP server)"@)
    } else {
        i18n::message(lang, "MCP servers:"@) + server_lines(lang, entries)
    }
}

/// The list of the servers, in the order of their names.
pub fn mcp_list_text(lang: Language, cfg: &Config) -> (r: String)
    ensures
        r@ == server_list(lang, cfg.mcp.entries@),
{
    let entries = &cfg.mcp.entries;
    if entries.len() == 0 {
        return translate(lang, "(no MCP server)").to_string();
    }
    let mut out = translate(lang, "MCP servers:").to_string();
    let ghost head = out@;
    let ghost all = entries@;
    let mut i: usize = 0;
    proof {
        assert(all.take(0) =~= Seq::empty());
        assert(head + Seq::<char>::empty() =~= head);
    }
    while i < entries.len()
        invariant
            i <= entries.len(),
            all == entries@,
            out@ == head + server_lines(lang, all.take(i as int)),
        decreases entries.len() - i,
    {
        out.append("\n  ");
        out.append(&entries[i].0);
        out.append(" — ");
        match &entries[i].1.description {
            Some(d) => {
                out.append(d);
            },
            None => {
                out.append(translate(lang, "(no description)"));
            },
        }
        proof {
            let next = all.take(i + 1);
            assert(next.drop_last() =~= all.take(i as int));
            assert(next.last() == all[i as int]);
            assert(out@ =~= head + server_lines(lang, next));
        }
        i = i + 1;
    }
    proof {
        assert(all.take(all.len() as int) =~= all);
    }
    out
}

/// All about a server but the values of its environment.
pub open spec fn server_detail(lang: Language, name: Seq<char>, m: McpModel) -> Seq<char> {
    i18n::message_fmt(lang, "MCP server: {name}"@, seq![name]) + (match m.description {
        Some(d) => "\n"@ + i18n::message_fmt(lang, "  description: {d}"@, seq![d]),
        None => Seq::empty(),
    }) + "\n  command: "@ + m.command + (if m.args.len() > 0 {
        "\n  args: "@ + text::joined(m.args, " "@)
    } else {
        Seq::empty()
    }) + (if m.env_names.len() > 0 {
        "\n  env: "@ + text::joined(m.env_names, ", "@)
    } else {
        Seq::empty()
    })
}

/// All about a server but the values of its environment.
pub fn mcp_detail_text(lang: Language, name: &str, m: &McpConfig) -> (r: String)
    ensures
        r@ == server_detail(lang, name@, m@),
{
    let mut out = say1(lang, "MCP server: {name}", name);
    let ghost head = out@;
    match &m.description {
        Some(d) => {
            out.append("\n");
            out.append(&say1(lang, "  description: {d}", d));
        },
        None => {},
    }
    let ghost described = match m@.description {
        Some(d) => "\n"@ + i18n::message_fmt(lang, "  description: {d}"@, seq![d]),
        None => Seq::<char>::empty(),
    };
    proof {
        assert(out@ =~= head + described);
    }
    out.append("\n  command: ");
    out.append(&m.command);
    let ghost before_args = out@;
    if m.args.len() > 0 {
        out.append("\n  args: ");
        out.append(&text::join(&m.args, " "));
    }
    let ghost args = if m@.args.len() > 0 {
        "\n  args: "@ + text::joined(m@.args, " "@)
    } else {
        Seq::<char>::empty()
    };
    proof {
        assert(out@ =~= before_args + args);
    }
    let ghost before_env = out@;
    let entries = &m.env.entries;
    if entries.len() > 0 {
        let mut keys: Vec<String> = Vec::new();
        let mut i: usize = 0;
        while i < entries.len()
            invariant
                i <= entries.len(),
                entries@ == m.env.entries@,
                keys@.len() == i,
                forall|k: int| 0 <= k < i ==> (#[trigger] keys@[k])@ == entries@[k].0@,
            decreases entries.len() - i,
        {
            keys.push(entries[i].0.clone());
            i = i + 1;
        }
        proof {
            assert(text::views(keys@) =~= m@.env_names);
        }
        out.append("\n  env: ");
        out.append(&text::join(&keys, ", "));
    }
    let ghost env = if m@.env_names.len() > 0 {
        "\n  env: "@ + text::joined(m@.env_names, ", "@)
    } else {
        Seq::<char>::empty()
    };
    proof {
        assert(out@ =~= before_env + env);
    }
    out
}

/// What `/mcp` shows: the server that is named, or the list.
pub open spec fn servers_shown(lang: Language, cfg: Config, args: Seq<char>) -> Seq<char> {
    let name = text::trimmed(args);
    let list = server_list(lang, cfg.mcp.entries@);
    let known = cfg@.mcp;
    if name.len() == 0 {
        list
    } else if known.dom().contains(name) {
        server_detail(lang, name, known[name])
    } else {
        i18n::message_fmt(lang, "MCP server not found: {name}\n{list}"@, seq![name, list])
    }
}

/// What `/mcp` shows.
pub fn mcp_text(lang: Language, cfg: &Config, args: &str) -> (r: String)
    requires
        cfg.wf(),
    ensures
        r@ == servers_shown(lang, *cfg, args@),
{
    let name = text::trim(args);
    if name.is_empty() {
        return mcp_list_text(lang, cfg);
    }
    match cfg.mcp.get(name) {
        Some(m) => mcp_detail_text(lang, name, m),
        None => say2(
            lang,
            "MCP server not found: {name}\n{list}",
            name,
            &mcp_list_text(lang, cfg),
        ),
    }
}

// ---------------------------------------------------------------------------
// Sessions
// ---------------------------------------------------------------------------

/// What models have taken in and put out, in a list.
pub open spec fn usage_lines(usage: Seq<UsageModel>) -> Seq<char>
    decreases usage.len(),
{
    if usage.len() == 0 {
        Seq::empty()
    } else {
        let u = usage.last();
        usage_lines(usage.drop_last()) + ("\n  "@ + u.model + ": ↑"@ + text::decimal(
            u.input_tokens as nat,
        ) + " ↓"@ + text::decimal(u.output_tokens as nat))
    }
}

/// What `/usage` shows: the tokens of all turns and of each model, and the
/// cost, where it is known.
pub open spec fn usage_shown(lang: Language, s: SessionModel, cost: Option<Seq<char>>) -> Seq<char> {
    i18n::message_fmt(
        lang,
        "Session total: ↑{in} ↓{out} ({turns} turns)"@,
        seq![
            text::decimal(context::capped(session::input_of(s.turns)) as nat),
            text::decimal(context::capped(session::output_of(s.turns)) as nat),
            text::decimal(s.turns.len()),
        ],
    ) + usage_lines(session::usage_of(s.turns)) + "\n"@ + match cost {
        Some(amount) => i18n::message_fmt(lang, "Cost: ${amount}"@, seq![amount]),
        None => i18n::message(
            lang,
            "Cost: — (input_price_per_mtok / output_price_per_mtok not set in bulti.toml)"@,
        ),
    }
}

/// What `/usage` shows. The cost is given as an amount in words.
pub fn usage_text(lang: Language, session: &Session, cost: &Option<String>) -> (r: String)
    ensures
        r@ == usage_shown(lang, session@, text::opt_view(*cost)),
{
    let mut out = say3(
        lang,
        "Session total: ↑{in} ↓{out} ({turns} turns)",
        &text::show(session.total_input_tokens()),
        &text::show(session.total_output_tokens()),
        &text::show(session.turns.len() as u64),
    );
    let usage = session.per_model_usage();
    let ghost head = out@;
    let ghost all = session::usage_views(usage@);
    let mut i: usize = 0;
    proof {
        assert(all.take(0) =~= Seq::empty());
        assert(head + Seq::<char>::empty() =~= head);
    }
    while i < usage.len()
        invariant
            i <= usage.len(),
            all == session::usage_views(usage@),
            out@ == head + usage_lines(all.take(i as int)),
        decreases usage.len() - i,
    {
        out.append("\n  ");
        out.append(&usage[i].model);
        out.append(": ↑");
        out.append(&text::show(usage[i].input_tokens));
        out.append(" ↓");
        out.append(&text::show(usage[i].output_tokens));
        proof {
            let next = all.take(i + 1);
            assert(next.drop_last() =~= all.take(i as int));
            assert(next.last() == usage@[i as int]@);
            assert(out@ =~= head + usage_lines(next));
        }
        i = i + 1;
    }
    proof {
        assert(all.take(all.len() as int) =~= all);
    }
    out.append("\n");
    match cost {
        Some(amount) => {
            out.append(&say1(lang, "Cost: ${amount}", amount));
        },
        None => {
            out.append(
                translate(
                    lang,
                    "Cost: — (input_price_per_mtok / output_price_per_mtok not set in bulti.toml)",
                ),
            );
        },
    }
    out
}

/// The share of a context that an estimate fills, in percent, up to 999; `None`
/// where the size of the context is not known, or where the estimate times
/// hundred is no machine number.
pub open spec fn context_share(estimate: nat, tokens: u64) -> Option<u64> {
    if estimate * 100 > u64::MAX || tokens == 0 {
        None
    } else {
        let pct = (estimate * 100) / (tokens as nat);
        Some(
            if pct > 999 {
                999
            } else {
                pct as u64
            },
        )
    }
}

/// The share of a context that an estimate fills.
pub fn share_of_context(estimate: u64, tokens: u64) -> (r: Option<u64>)
    ensures
        r == context_share(estimate as nat, tokens),
{
    match estimate.checked_mul(100) {
        Some(v) => {
            if tokens == 0 {
                None
            } else {
                let pct: u64 = v / tokens;
                if pct > 999 {
                    Some(999)
                } else {
                    Some(pct)
                }
            }
        },
        None => None,
    }
}

/// How much of the context a session fills.
pub open spec fn context_line(lang: Language, estimate: nat, tokens: u64) -> Seq<char> {
    match context_share(estimate, tokens) {
        Some(pct) => i18n::message_fmt(
            lang,
            "Context usage: ~{est} / {ctx} tokens (~{pct}%)"@,
            seq![
                text::decimal(estimate),
                text::decimal(tokens as nat),
                text::decimal(pct as nat),
            ],
        ),
        None => i18n::message_fmt(
            lang,
            "Context usage: ~{est} tokens (estimated — endpoint context_tokens not set)"@,
            seq![text::decimal(estimate)],
        ),
    }
}

/// What `/session-info` shows.
pub open spec fn session_shown(lang: Language, s: SessionModel, tokens: u64, cwd: Seq<char>) -> Seq<
    char,
> {
    let estimate = context::tokens(session::context_of(s.turns));
    i18n::message_fmt(lang, "Session id: {id}"@, seq![s.session_id]) + "\n"@ + i18n::message_fmt(
        lang,
        "cwd: {cwd}"@,
        seq![cwd],
    ) + "\n"@ + i18n::message_fmt(lang, "Endpoint: {ep}"@, seq![s.endpoint]) + "\n"@
        + i18n::message_fmt(lang, "Model: {m}"@, seq![s.model]) + "\n"@ + i18n::message_fmt(
        lang,
        "Turns: {n}"@,
        seq![text::decimal(s.turns.len())],
    ) + "\n"@ + context_line(lang, estimate, tokens) + "\n"@ + i18n::message_fmt(
        lang,
        "Created: {t}"@,
        seq![s.created_at],
    ) + "\n"@ + i18n::message_fmt(lang, "Last updated: {t}"@, seq![s.updated_at])
}

/// What `/session-info` shows.
pub fn session_info_text(lang: Language, session: &Session, tokens: u64, cwd: &str) -> (r: String)
    ensures
        r@ == session_shown(lang, session@, tokens, cwd@),
{
    let estimate = session.estimate_tokens();
    let mut out = say1(lang, "Session id: {id}", &session.session_id);
    out.append("\n");
    out.append(&say1(lang, "cwd: {cwd}", cwd));
    out.append("\n");
    out.append(&say1(lang, "Endpoint: {ep}", &session.endpoint));
    out.append("\n");
    out.append(&say1(lang, "Model: {m}", &session.model));
    out.append("\n");
    out.append(&say1(lang, "Turns: {n}", &text::show(session.turns.len() as u64)));
    out.append("\n");
    match share_of_context(estimate, tokens) {
        Some(pct) => {
            out.append(
                &say3(
                    lang,
                    "Context usage: ~{est} / {ctx} tokens (~{pct}%)",
                    &text::show(estimate),
                    &text::show(tokens),
                    &text::show(pct),
                ),
            );
        },
        None => {
            out.append(
                &say1(
                    lang,
                    "Context usage: ~{est} tokens (estimated — endpoint context_tokens not set)",
                    &text::show(estimate),
                ),
            );
        },
    }
    out.append("\n");
    out.append(&say1(lang, "Created: {t}", &session.created_at));
    out.append("\n");
    out.append(&say1(lang, "Last updated: {t}", &session.updated_at));
    out
}

/// Sessions in a list, one on a line.
pub open spec fn session_list_lines(lang: Language, metas: Seq<SessionMeta>) -> Seq<char>
    decreases metas.len(),
{
    if metas.len() == 0 {
        Seq::empty()
    } else {
        let m = metas.last();
        session_list_lines(lang, metas.drop_last()) + i18n::message_fmt(
            lang,
            "{id}  Turn={t}  Model={m}  Updated={u}\n"@,
            seq![m.id@, text::decimal(m.turns as nat), m.model@, m.updated_at@],
        )
    }
}

/// What `/sessions` shows: the sessions, or why they cannot be listed.
pub open spec fn sessions_shown(lang: Language, found: Result<Seq<SessionMeta>, Seq<char>>) -> Seq<
    char,
> {
    match found {
        Ok(metas) => if metas.len() == 0 {
            i18n::message(lang, "No sessions."@)
        } else {
            session_list_lines(lang, metas)
        },
        Err(e) => i18n::message_fmt(lang, "Failed to list sessions: {e}"@, seq![e]),
    }
}

/// The sessions that were found, or why there are none.
pub open spec fn found_view(found: Result<Vec<SessionMeta>, String>) -> Result<
    Seq<SessionMeta>,
    Seq<char>,
> {
    match found {
        Ok(v) => Ok(v@),
        Err(e) => Err(e@),
    }
}

/// What `/sessions` shows.
pub fn sessions_list_text(lang: Language, found: &Result<Vec<SessionMeta>, String>) -> (r: String)
    ensures
        r@ == sessions_shown(lang, found_view(*found)),
{
    let metas = match found {
        Ok(v) => v,
        Err(e) => {
            return say1(lang, "Failed to list sessions: {e}", e);
        },
    };
    if metas.len() == 0 {
        return translate(lang, "No sessions.").to_string();
    }
    let mut out = String::new();
    let ghost all = metas@;
    let mut i: usize = 0;
    proof {
        assert(all.take(0) =~= Seq::empty());
        assert(out@ =~= Seq::empty());
    }
    while i < metas.len()
        invariant
            i <= metas.len(),
            all == metas@,
            out@ == session_list_lines(lang, all.take(i as int)),
        decreases metas.len() - i,
    {
        let m = &metas[i];
        out.append(
            &say4(
                lang,
                "{id}  Turn={t}  Model={m}  Updated={u}\n",
                &m.id,
                &text::show(m.turns as u64),
                &m.model,
                &m.updated_at,
            ),
        );
        proof {
            assert(all.take(i + 1).drop_last() =~= all.take(i as int));
            assert(all.take(i + 1).last() == all[i as int]);
        }
        i = i + 1;
    }
    proof {
        assert(all.take(all.len() as int) =~= all);
    }
    out
}

/// Sessions to resume, one on a line.
pub open spec fn resume_lines(lang: Language, metas: Seq<SessionMeta>) -> Seq<char>
    decreases metas.len(),
{
    if metas.len() == 0 {
        Seq::empty()
    } else {
        let m = metas.last();
        resume_lines(lang, metas.drop_last()) + ("\n"@ + i18n::message_fmt(
            lang,
            "  /resume {id}  (turn={t} model={m})"@,
            seq![m.id@, text::decimal(m.turns as nat), m.model@],
        ))
    }
}

/// What `/resume` shows where no session is named: the first ten sessions and
/// how many more there are.
pub open spec fn resume_shown(lang: Language, found: Result<Seq<SessionMeta>, Seq<char>>) -> Seq<
    char,
> {
    i18n::message(lang, "Specify a session id. Available sessions:"@) + match found {
        Ok(metas) => if metas.len() == 0 {
            "\n"@ + i18n::message(lang, "  (no sessions)"@)
        } else if metas.len() <= 10 {
            resume_lines(lang, metas)
        } else {
            resume_lines(lang, metas.take(10)) + "\n"@ + i18n::message_fmt(
                lang,
                "  … and {n} more (full list: /sessions)"@,
                seq![text::decimal((metas.len() - 10) as nat)],
            )
        },
        Err(e) => "\n"@ + i18n::message_fmt(lang, "  (failed to list sessions: {e})"@, seq![e]),
    }
}

/// What `/resume` shows where no session is named.
pub fn resume_suggest_text(lang: Language, found: &Result<Vec<SessionMeta>, String>) -> (r: String)
    ensures
        r@ == resume_shown(lang, found_view(*found)),
{
    let mut out = translate(lang, "Specify a session id. Available sessions:").to_string();
    let ghost head = out@;
    let metas = match found {
        Ok(v) => v,
        Err(e) => {
            out.append("\n");
            out.append(&say1(lang, "  (failed to list sessions: {e})", e));
            proof {
                assert(out@ =~= resume_shown(lang, found_view(*found)));
            }
            return out;
        },
    };
    if metas.len() == 0 {
        out.append("\n");
        out.append(translate(lang, "  (no sessions)"));
        proof {
            assert(out@ =~= resume_shown(lang, found_view(*found)));
        }
        return out;
    }
    let n: usize = if metas.len() > 10 {
        10
    } else {
        metas.len()
    };
    let ghost all = metas@;
    let mut i: usize = 0;
    proof {
        assert(all.take(0) =~= Seq::empty());
        assert(head + Seq::<char>::empty() =~= head);
    }
    while i < n
        invariant
            i <= n <= metas.len(),
            all == metas@,
            out@ == head + resume_lines(lang, all.take(i as int)),
        decreases n - i,
    {
        let m = &metas[i];
        out.append("\n");
        out.append(
            &say3(
                lang,
                "  /resume {id}  (turn={t} model={m})",
                &m.id,
                &text::show(m.turns as u64),
                &m.model,
            ),
        );
        proof {
            let next = all.take(i + 1);
            assert(next.drop_last() =~= all.take(i as int));
            assert(next.last() == all[i as int]);
            assert(out@ =~= head + resume_lines(lang, next));
        }
        i = i + 1;
    }
    if metas.len() > 10 {
        out.append("\n");
        out.append(
            &say1(
                lang,
                "  … and {n} more (full list: /sessions)",
                &text::show((metas.len() - 10) as u64),
            ),
        );
        proof {
            assert(out@ =~= resume_shown(lang, found_view(*found)));
        }
    } else {
        proof {
            assert(all.take(all.len() as int) =~= all);
        }
    }
    out
}

// ---------------------------------------------------------------------------
// Commands
// ---------------------------------------------------------------------------

/// Names as commands: each with its slash.
pub open spec fn slashed(names: Seq<Seq<char>>) -> Seq<Seq<char>> {
    names.map_values(|s: Seq<char>| "/"@ + s)
}

/// The commands that are similar to a word, behind a notice about an unknown
/// command; nothing where there are none.
pub open spec fn similar_shown(lang: Language, raw: Seq<char>) -> Seq<char> {
    let names = slash::similar(text::lowercase(text::trimmed(raw)));
    if names.len() == 0 {
        Seq::empty()
    } else {
        i18n::message_fmt(
            lang,
            "\nSimilar commands: {list}"@,
            seq![text::joined(slashed(names), ", "@)],
        )
    }
}

/// The commands that are similar to a word.
pub fn similar_suggestion_text(lang: Language, raw: &str) -> (r: String)
    ensures
        r@ == similar_shown(lang, raw@),
{
    let names = suggest_similar(raw);
    if names.len() == 0 {
        return String::new();
    }
    let mut list: Vec<String> = Vec::new();
    let mut i: usize = 0;
    while i < names.len()
        invariant
            i <= names.len(),
            list@.len() == i,
            forall|k: int| 0 <= k < i ==> (#[trigger] list@[k])@ == "/"@ + names@[k]@,
        decreases names.len() - i,
    {
        list.push("/".to_string().concat(&names[i]));
        i = i + 1;
    }
    proof {
        assert(text::views(list@) =~= slashed(text::views(names@)));
    }
    say1(lang, "\nSimilar commands: {list}", &text::join(&list, ", "))
}

/// What is said about a line that is no known command.
pub open spec fn unknown_shown(lang: Language, line: Seq<char>) -> Seq<char> {
    i18n::message_fmt(
        lang,
        "Unknown command '{line}'. Type /help to see available commands.{}"@,
        seq![line, similar_shown(lang, slash::first_word(line))],
    )
}

/// What is said about a line that is no known command.
pub fn unknown_command(lang: Language, line: &str) -> (r: String)
    ensures
        r@ == unknown_shown(lang, line@),
{
    let similar = similar_suggestion_text(lang, slash::raw_name(line));
    say2(
        lang,
        "Unknown command '{line}'. Type /help to see available commands.{}",
        line,
        &similar,
    )
}

/// A line of the help on the console.
pub open spec fn help_line(usage: Seq<char>, description: Seq<char>) -> Seq<char> {
    "  "@ + text::padded_right(usage, 18) + " — "@ + description
}

/// The lines of the help on the console: a title, each command, and the two
/// keys that end a conversation.
pub open spec fn help_lines(lang: Language) -> Seq<Seq<char>> {
    seq![i18n::message(lang, "Internal commands:"@)] + Seq::new(
        COMMAND_COUNT as nat,
        |i: int|
            help_line(
                i18n::message(lang, COMMANDS@[i].3@),
                i18n::message(lang, COMMANDS@[i].2@),
            ),
    ) + seq![
        help_line("Ctrl-D"@, i18n::message(lang, "Quit conversation (EOF)"@)),
        help_line("Ctrl+C"@, i18n::message(lang, "Interrupt and quit"@)),
    ]
}

/// A line of the help on the console.
fn help_row(usage: &str, description: &str) -> (r: String)
    ensures
        r@ == help_line(usage@, description@),
{
    let mut out = "  ".to_string();
    out.append(&text::pad_right(usage, 18));
    out.append(" — ");
    out.append(description);
    out
}

/// The lines of the help on the console.
pub fn print_help(lang: Language) -> (r: Vec<String>)
    ensures
        text::views(r@) == help_lines(lang),
{
    let mut out: Vec<String> = Vec::new();
    out.push(translate(lang, "Internal commands:").to_string());
    let mut i: usize = 0;
    while i < COMMAND_COUNT
        invariant
            i <= COMMAND_COUNT,
            out@.len() == i + 1,
            forall|k: int| 0 <= k <= i ==> (#[trigger] out@[k])@ == help_lines(lang)[k],
        decreases COMMAND_COUNT - i,
    {
        let c = slash::command(i);
        out.push(help_row(translate(lang, c.usage), translate(lang, c.description)));
        i = i + 1;
    }
    out.push(help_row("Ctrl-D", translate(lang, "Quit conversation (EOF)")));
    out.push(help_row("Ctrl+C", translate(lang, "Interrupt and quit")));
    proof {
        assert(text::views(out@) =~= help_lines(lang));
    }
    out
}

/// The first commands with what they do, in one text.
pub open spec fn help_entries(lang: Language, n: nat) -> Seq<char>
    decreases n,
{
    if n == 0 {
        Seq::empty()
    } else {
        help_entries(lang, (n - 1) as nat) + ("\n  "@ + i18n::message(
            lang,
            COMMANDS@[n - 1].3@,
        ) + "  — "@ + i18n::message(lang, COMMANDS@[n - 1].2@))
    }
}

/// The help in one text.
pub fn help_text(lang: Language) -> (r: String)
    ensures
        r@ == i18n::message(lang, "Available commands:"@) + help_entries(lang, COMMAND_COUNT as nat),
{
    let mut out = translate(lang, "Available commands:").to_string();
    let ghost head = out@;
    let mut i: usize = 0;
    proof {
        assert(head + Seq::<char>::empty() =~= head);
    }
    while i < COMMAND_COUNT
        invariant
            i <= COMMAND_COUNT,
            out@ == head + help_entries(lang, i as nat),
        decreases COMMAND_COUNT - i,
    {
        let ghost before = out@;
        let c = slash::command(i);
        out.append("\n  ");
        out.append(translate(lang, c.usage));
        out.append("  — ");
        out.append(translate(lang, c.description));
        proof {
            assert(out@ =~= head + help_entries(lang, (i + 1) as nat));
        }
        i = i + 1;
    }
    out
}

// ---------------------------------------------------------------------------
// Earlier prompts
// ---------------------------------------------------------------------------

/// Whether a prompt contains what is looked for, in lower case.
pub open spec fn found_in(prompt: Seq<char>, q: Seq<char>) -> bool {
    q.len() == 0 || text::contains(text::lowercase(prompt), q)
}

/// The prompts that contain what is looked for.
pub open spec fn prompts_with(prompts: Seq<Seq<char>>, q: Seq<char>) -> Seq<Seq<char>>
    decreases prompts.len(),
{
    if prompts.len() == 0 {
        Seq::empty()
    } else if found_in(prompts.last(), q) {
        prompts_with(prompts.drop_last(), q).push(prompts.last())
    } else {
        prompts_with(prompts.drop_last(), q)
    }
}

/// A prompt in a list: its first line, up to 70 characters.
pub open spec fn prompt_shown(prompt: Seq<char>) -> Seq<char> {
    let lines = text::lines_of(prompt);
    let line = text::trimmed(
        if lines.len() > 0 {
            lines[0]
        } else {
            Seq::empty()
        },
    );
    if line.len() > 70 {
        line.take(70) + "…"@
    } else {
        line
    }
}

/// The lines about prompts. One whose first line is blank has none.
pub open spec fn prompt_lines(prompts: Seq<Seq<char>>) -> Seq<Seq<char>>
    decreases prompts.len(),
{
    if prompts.len() == 0 {
        Seq::empty()
    } else {
        let before = prompt_lines(prompts.drop_last());
        let p = prompt_shown(prompts.last());
        if p.len() == 0 {
            before
        } else {
            before.push("  "@ + p)
        }
    }
}

/// The lines about the first twenty prompts that contain what is looked for, or
/// a notice where there is nothing to show.
pub open spec fn history_entries(lang: Language, prompts: Seq<Seq<char>>, q: Seq<char>) -> Seq<
    Seq<char>,
> {
    let found = prompts_with(prompts, q);
    let lines = prompt_lines(
        if found.len() > 20 {
            found.take(20)
        } else {
            found
        },
    );
    if lines.len() == 0 {
        seq![i18n::message(lang, "  (no history)"@)]
    } else {
        lines
    }
}

/// A prompt in a list.
fn show_prompt(prompt: &str) -> (r: String)
    ensures
        r@ == prompt_shown(prompt@),
{
    let lines = text::lines(prompt);
    let line = if lines.len() > 0 {
        text::trim(&lines[0])
    } else {
        text::trim("")
    };
    proof {
        reveal_strlit("");
        assert(""@ =~= Seq::empty());
        if lines.len() > 0 {
            assert(text::views(lines@)[0] == lines@[0]@);
        }
    }
    let v = text::chars_of(line);
    if v.len() > 70 {
        text::take_chars(line, 70).to_string().concat("…")
    } else {
        line.to_string()
    }
}

/// The lines about earlier prompts. What is looked for is in lower case.
pub fn history_lines(lang: Language, prompts: &[String], q: &str) -> (r: Vec<String>)
    ensures
        text::views(r@) == history_entries(lang, text::views(prompts@), q@),
{
    let ghost all = text::views(prompts@);
    let mut found: Vec<String> = Vec::new();
    let mut i: usize = 0;
    proof {
        assert(all.take(0) =~= Seq::empty());
        assert(text::views(found@) =~= Seq::empty());
    }
    while i < prompts.len()
        invariant
            i <= prompts.len(),
            all == text::views(prompts@),
            text::views(found@) == prompts_with(all.take(i as int), q@),
        decreases prompts.len() - i,
    {
        let ghost before = text::views(found@);
        proof {
            assert(all.take(i + 1).drop_last() =~= all.take(i as int));
            assert(all.take(i + 1).last() == prompts@[i as int]@);
        }
        if q.is_empty() || text::has(&text::to_lowercase(&prompts[i]), q) {
            found.push(prompts[i].clone());
            proof {
                assert(text::views(found@) =~= before.push(prompts@[i as int]@));
            }
        }
        i = i + 1;
    }
    proof {
        assert(all.take(all.len() as int) =~= all);
    }
    let n: usize = if found.len() > 20 {
        20
    } else {
        found.len()
    };
    let ghost hits = text::views(found@);
    let mut out: Vec<String> = Vec::new();
    let mut j: usize = 0;
    proof {
        assert(hits.take(0) =~= Seq::empty());
        assert(text::views(out@) =~= Seq::empty());
    }
    while j < n
        invariant
            j <= n <= found.len(),
            hits == text::views(found@),
            text::views(out@) == prompt_lines(hits.take(j as int)),
        decreases n - j,
    {
        let ghost before = text::views(out@);
        proof {
            assert(hits.take(j + 1).drop_last() =~= hits.take(j as int));
            assert(hits.take(j + 1).last() == found@[j as int]@);
        }
        let p = show_prompt(&found[j]);
        if !p.as_str().is_empty() {
            let line = "  ".to_string().concat(&p);
            let ghost shown = line@;
            out.push(line);
            proof {
                assert(text::views(out@) =~= before.push(shown));
            }
        }
        j = j + 1;
    }
    proof {
        assert(hits.len() <= 20 ==> hits.take(n as int) =~= hits);
    }
    if out.len() == 0 {
        out.push(translate(lang, "  (no history)").to_string());
        proof {
            assert(text::views(out@) =~= seq![i18n::message(lang, "  (no history)"@)]);
        }
    }
    out
}

// ---------------------------------------------------------------------------
// Laws
// ---------------------------------------------------------------------------

/// Nothing that is shown of an endpoint depends on its key.
pub proof fn law_endpoint_key_is_not_shown(
    lang: Language,
    name: Seq<char>,
    ep: EndpointModel,
    other_key: Option<Seq<char>>,
    active: bool,
)
    ensures
        endpoint_detail(lang, name, ep, active) == endpoint_detail(
            lang,
            name,
            EndpointModel { api_key: other_key, ..ep },
            active,
        ),
{
}

/// Of the environment of a server only the names are shown: servers whose
/// environments have the same names are shown alike.
pub proof fn law_environment_is_not_shown(
    lang: Language,
    name: Seq<char>,
    m: McpModel,
    other: Map<Seq<char>, Seq<char>>,
)
    ensures
        server_detail(lang, name, m) == server_detail(lang, name, McpModel { env: other, ..m }),
{
}

/// The current model comes first among the models to choose from, and none is
/// listed twice.
pub proof fn law_models_are_distinct(current: Seq<char>, entries: Seq<(String, EndpointConfig)>)
    ensures
        current.len() > 0 ==> models_known(current, entries).len() > 0 && models_known(
            current,
            entries,
        )[0] == current,
        forall|j: int, k: int|
            0 <= j < k < models_known(current, entries).len() ==> #[trigger] models_known(
                current,
                entries,
            )[j] != #[trigger] models_known(current, entries)[k],
    decreases entries.len(),
{
    if entries.len() > 0 {
        law_models_are_distinct(current, entries.drop_last());
        let before = models_known(current, entries.drop_last());
        let out = models_known(current, entries);
        let n = before.len() as int;
        assert forall|j: int, k: int| 0 <= j < k < out.len() implies #[trigger] out[j]
            != #[trigger] out[k] by {
            assert(out[j] == before[j]);
            if k < n {
                assert(out[k] == before[k]);
            }
        }
    }
}

/// At most twenty earlier prompts are shown.
pub proof fn law_history_is_short(lang: Language, prompts: Seq<Seq<char>>, q: Seq<char>)
    ensures
        1 <= history_entries(lang, prompts, q).len() <= 20,
{
    let found = prompts_with(prompts, q);
    lemma_prompt_lines(
        if found.len() > 20 {
            found.take(20)
        } else {
            found
        },
    );
}

/// There are at most as many lines as prompts.
proof fn lemma_prompt_lines(prompts: Seq<Seq<char>>)
    ensures
        prompt_lines(prompts).len() <= prompts.len(),
    decreases prompts.len(),
{
    if prompts.len() > 0 {
        lemma_prompt_lines(prompts.drop_last());
    }
}

} // verus!
