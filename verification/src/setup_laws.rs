//! What endpoints, prompts, skills and commands keep of what they are given.
use vstd::prelude::*;

use crate::completion;
use crate::config::{ConfigModel, EndpointModel, McpModel};
use crate::endpoint;
use crate::endpoint::EndpointAddSpec;
use crate::i18n::Language;
use crate::json::JsonModel;
use crate::mcp;
use crate::mcp::{ClientModel, ContentBlock};
use crate::prompt;
use crate::prompt::{Body, ValuesModel};
use crate::skills;
use crate::slash;
use crate::slash::CompletionContext;
use crate::text;
use crate::text_laws;
use crate::tools::laws;

verus! {

// ---------------------------------------------------------------------------
// Endpoints
// ---------------------------------------------------------------------------

/// An endpoint is registered with what was given for it, and may take 200 steps.
pub proof fn law_endpoint_is_registered_as_given(spec: EndpointAddSpec)
    ensures
        endpoint::registered(spec).url == spec.url@,
        endpoint::registered(spec).model == spec.model@,
        endpoint::registered(spec).api_key == text::opt_view(spec.api_key),
        endpoint::registered(spec).context_tokens == spec.context_tokens,
        endpoint::registered(spec).vision == spec.vision,
        endpoint::registered(spec).thinking == spec.thinking,
        endpoint::registered(spec).max_iterations == 200,
        endpoint::registered(spec).reasoning_effort is None,
{
}

/// An endpoint that was put under a name is found under it, and all others stay.
/// The first one becomes active, and a later one does not take its place.
pub proof fn law_endpoint_is_found_again(
    c: ConfigModel,
    name: Seq<char>,
    ep: EndpointModel,
    other: Seq<char>,
)
    requires
        other != name,
    ensures
        ({
            let d = endpoint::with_endpoint(c, name, ep);
            &&& d.endpoints.dom().contains(name) && d.endpoints[name] == ep
            &&& d.endpoints.dom().contains(other) == c.endpoints.dom().contains(other)
            &&& c.endpoints.dom().contains(other) ==> d.endpoints[other] == c.endpoints[other]
            &&& c.active_endpoint is None ==> d.active_endpoint == Some(name)
            &&& c.active_endpoint is Some ==> d.active_endpoint == c.active_endpoint
            &&& d.mcp == c.mcp && d.context == c.context && d.language == c.language
        }),
{
}

/// An endpoint that was removed is gone, and all others stay. It does not stay
/// active, and another one that is active does.
pub proof fn law_removed_endpoint_is_gone(c: ConfigModel, name: Seq<char>, other: Seq<char>)
    requires
        other != name,
    ensures
        ({
            let d = endpoint::without_endpoint(c, name);
            &&& !d.endpoints.dom().contains(name)
            &&& d.endpoints.dom().contains(other) == c.endpoints.dom().contains(other)
            &&& c.endpoints.dom().contains(other) ==> d.endpoints[other] == c.endpoints[other]
            &&& d.active_endpoint != Some(name)
            &&& c.active_endpoint == Some(other) ==> d.active_endpoint == Some(other)
            &&& d.mcp == c.mcp && d.context == c.context && d.language == c.language
        }),
{
}

/// Setting a field of an endpoint sets that field to the value, and no other.
/// A number is read as it is written, and a new key is taken.
pub proof fn law_field_is_set(ep: EndpointModel, value: Seq<char>, n: u64, m: u32)
    ensures
        endpoint::with_field(ep, "url"@, value) == Ok::<EndpointModel, Seq<char>>(
            (EndpointModel { url: value, ..ep }),
        ),
        endpoint::with_field(ep, "model"@, value) == Ok::<EndpointModel, Seq<char>>(
            (EndpointModel { model: value, ..ep }),
        ),
        endpoint::with_field(ep, "context_tokens"@, text::decimal(n as nat)) == Ok::<
            EndpointModel,
            Seq<char>,
        >((EndpointModel { context_tokens: n, ..ep })),
        endpoint::with_field(ep, "max_iterations"@, text::decimal(m as nat)) == Ok::<
            EndpointModel,
            Seq<char>,
        >((EndpointModel { max_iterations: m, ..ep })),
        endpoint::with_field(ep, "vision"@, "true"@) == Ok::<EndpointModel, Seq<char>>(
            (EndpointModel { vision: true, ..ep }),
        ),
        endpoint::with_field(ep, "thinking"@, "true"@) == Ok::<EndpointModel, Seq<char>>(
            (EndpointModel { thinking: true, ..ep }),
        ),
        value.len() > 13 ==> endpoint::with_field(ep, "api_key"@, value) == Ok::<
            EndpointModel,
            Seq<char>,
        >((EndpointModel { api_key: Some(value), ..ep })),
{
    reveal_strlit("url");
    reveal_strlit("model");
    reveal_strlit("context_tokens");
    reveal_strlit("vision");
    reveal_strlit("thinking");
    reveal_strlit("max_iterations");
    reveal_strlit("api_key");
    reveal_strlit("key");
    reveal_strlit("********");
    reveal_strlit("****");
    assert("url"@.len() == 3);
    assert("model"@.len() == 5);
    assert("context_tokens"@.len() == 14 && "context_tokens"@[0] == 'c');
    assert("vision"@.len() == 6);
    assert("thinking"@.len() == 8);
    assert("max_iterations"@.len() == 14 && "max_iterations"@[0] == 'm');
    assert("api_key"@.len() == 7);
    text::law_decimal_roundtrip(n as nat, u64::MAX as nat);
    text::law_decimal_roundtrip(m as nat, u32::MAX as nat);
}

/// An endpoint is listed with its name, its address, its model and the size of
/// its context, and as active only where it is.
pub proof fn law_endpoint_is_listed_as_it_is(
    name: Seq<char>,
    ep: EndpointModel,
    active: Option<Seq<char>>,
)
    ensures
        endpoint::row_of(name, ep, active).name == name,
        endpoint::row_of(name, ep, active).url == ep.url,
        endpoint::row_of(name, ep, active).model == ep.model,
        endpoint::row_of(name, ep, active).context_tokens == ep.context_tokens,
        endpoint::row_of(name, ep, active).active <==> active == Some(name),
{
}

/// Every endpoint is listed, once and in the order of the names.
pub proof fn law_every_endpoint_is_listed(
    names: Seq<Seq<char>>,
    endpoints: Map<Seq<char>, EndpointModel>,
    active: Option<Seq<char>>,
    i: int,
)
    requires
        0 <= i < names.len(),
    ensures
        endpoint::rows_of(names, endpoints, active).len() == names.len(),
        endpoint::rows_of(names, endpoints, active)[i].name == names[i],
        endpoint::rows_of(names, endpoints, active)[i].url == endpoints[names[i]].url,
{
}

/// A size that is learnt is kept for its endpoint, and nothing else changes;
/// without a size nothing does.
pub proof fn law_learnt_size_is_kept(c: ConfigModel, name: Seq<char>, n: u64, other: Seq<char>)
    requires
        other != name,
    ensures
        endpoint::corrected(c, name, None) == c,
        c.endpoints.dom().contains(name) ==> {
            let d = endpoint::corrected(c, name, Some(n));
            &&& d.endpoints[name].context_tokens == n
            &&& d.endpoints[name].url == c.endpoints[name].url
            &&& d.endpoints[name].model == c.endpoints[name].model
            &&& d.endpoints[name].api_key == c.endpoints[name].api_key
            &&& d.endpoints.dom() == c.endpoints.dom()
            &&& c.endpoints.dom().contains(other) ==> d.endpoints[other] == c.endpoints[other]
            &&& d.active_endpoint == c.active_endpoint
        },
        !c.endpoints.dom().contains(name) ==> endpoint::corrected(c, name, Some(n)) == c,
{
    if c.endpoints.dom().contains(name) {
        let d = endpoint::corrected(c, name, Some(n));
        assert(d.endpoints.dom() =~= c.endpoints.dom());
    }
}

// ---------------------------------------------------------------------------
// The system prompt
// ---------------------------------------------------------------------------

/// Whether a text holds no brace that opens a variable.
pub open spec fn braceless(s: Seq<char>) -> bool {
    forall|i: int| 0 <= i < s.len() ==> #[trigger] s[i] != '{'
}

proof fn lemma_braceless_join(a: Seq<char>, b: Seq<char>)
    requires
        braceless(a),
        braceless(b),
    ensures
        braceless(a + b),
{
    assert forall|i: int| 0 <= i < (a + b).len() implies #[trigger] (a + b)[i] != '{' by {
        if i < a.len() {
            assert((a + b)[i] == a[i]);
        } else {
            assert((a + b)[i] == b[i - a.len()]);
        }
    }
}

proof fn lemma_no_variable(s: Seq<char>, pat: Seq<char>, with: Seq<char>)
    requires
        braceless(s),
        pat.len() > 0,
        pat[0] == '{',
    ensures
        text::replaced(s, pat, with) == s,
{
    text::lemma_find_from(s, pat, 0);
    if let Some(i) = text::find(s, pat) {
        assert(s.subrange(i, i + pat.len())[0] == s[i]);
    }
}

/// Another variable than the one that stands in a text is not filled in.
proof fn lemma_other_variable(
    a: Seq<char>,
    x: Seq<char>,
    b: Seq<char>,
    pat: Seq<char>,
    with: Seq<char>,
    k: int,
)
    requires
        braceless(a),
        braceless(b),
        2 <= k < pat.len(),
        k < x.len(),
        pat[0] == '{',
        pat[1] == '{',
        x[0] == '{',
        x[1] == '{',
        pat[k] != x[k],
        forall|i: int| 2 <= i < x.len() ==> #[trigger] x[i] != '{',
    ensures
        text::replaced(a + x + b, pat, with) == a + x + b,
{
    let s = a + x + b;
    let n = a.len() as int;
    text::lemma_find_from(s, pat, 0);
    if let Some(i) = text::find(s, pat) {
        let t = s.subrange(i, i + pat.len());
        assert(t[0] == s[i] && t[1] == s[i + 1] && t[k] == s[i + k]);
        if i < n {
            assert(s[i] == a[i]);
        } else if i >= n + x.len() {
            assert(s[i] == b[i - n - x.len()]);
        } else if i > n + 1 {
            assert(s[i] == x[i - n]);
        } else if i == n + 1 {
            if x.len() > 2 {
                assert(s[i + 1] == x[2]);
            }
        } else {
            assert(s[i + k] == x[k]);
        }
    }
}

/// A variable that stands in a text is filled in.
proof fn lemma_this_variable(a: Seq<char>, x: Seq<char>, b: Seq<char>, with: Seq<char>)
    requires
        braceless(a),
        braceless(b),
        x.len() > 0,
        x[0] == '{',
    ensures
        text::replaced(a + x + b, x, with) == a + with + b,
{
    let s = a + x + b;
    let n = a.len() as int;
    assert(s.subrange(n, n + x.len()) =~= x);
    assert(text::occurs_at(s, x, n));
    text::lemma_find_from(s, x, 0);
    let i = text::find(s, x)->0;
    if i < n {
        assert(s.subrange(i, i + x.len())[0] == s[i]);
        assert(s[i] == a[i]);
    }
    assert(i == n);
    assert(s.take(n) =~= a);
    assert(s.skip(n + x.len()) =~= b);
    lemma_no_variable(b, x, with);
}

/// Every variable of a prompt is filled in with its value, and the text around it
/// stays.
pub proof fn law_variables_are_filled_in(a: Seq<char>, b: Seq<char>, v: ValuesModel)
    requires
        braceless(a),
        braceless(b),
        braceless(v.cwd),
        braceless(v.os),
        braceless(v.endpoint),
        braceless(v.model),
        braceless(v.context_tokens),
    ensures
        prompt::rendered(a + "{{cwd}}"@ + b, v) == a + v.cwd + b,
        prompt::rendered(a + "{{os}}"@ + b, v) == a + v.os + b,
        prompt::rendered(a + "{{endpoint}}"@ + b, v) == a + v.endpoint + b,
        prompt::rendered(a + "{{model}}"@ + b, v) == a + v.model + b,
        prompt::rendered(a + "{{context_tokens}}"@ + b, v) == a + v.context_tokens + b,
{
    reveal_strlit("{{cwd}}");
    reveal_strlit("{{os}}");
    reveal_strlit("{{endpoint}}");
    reveal_strlit("{{model}}");
    reveal_strlit("{{context_tokens}}");
    let c = "{{cwd}}"@;
    let o = "{{os}}"@;
    let e = "{{endpoint}}"@;
    let m = "{{model}}"@;
    let t = "{{context_tokens}}"@;
    lemma_braceless_join(a, v.cwd);
    lemma_braceless_join(a + v.cwd, b);
    lemma_braceless_join(a, v.os);
    lemma_braceless_join(a + v.os, b);
    lemma_braceless_join(a, v.endpoint);
    lemma_braceless_join(a + v.endpoint, b);
    lemma_braceless_join(a, v.model);
    lemma_braceless_join(a + v.model, b);
    // The working directory.
    lemma_this_variable(a, c, b, v.cwd);
    lemma_no_variable(a + v.cwd + b, o, v.os);
    lemma_no_variable(a + v.cwd + b, e, v.endpoint);
    lemma_no_variable(a + v.cwd + b, m, v.model);
    lemma_no_variable(a + v.cwd + b, t, v.context_tokens);
    // The operating system.
    lemma_other_variable(a, o, b, c, v.cwd, 2);
    lemma_this_variable(a, o, b, v.os);
    lemma_no_variable(a + v.os + b, e, v.endpoint);
    lemma_no_variable(a + v.os + b, m, v.model);
    lemma_no_variable(a + v.os + b, t, v.context_tokens);
    // The endpoint.
    lemma_other_variable(a, e, b, c, v.cwd, 2);
    lemma_other_variable(a, e, b, o, v.os, 2);
    lemma_this_variable(a, e, b, v.endpoint);
    lemma_no_variable(a + v.endpoint + b, m, v.model);
    lemma_no_variable(a + v.endpoint + b, t, v.context_tokens);
    // The model.
    lemma_other_variable(a, m, b, c, v.cwd, 2);
    lemma_other_variable(a, m, b, o, v.os, 2);
    lemma_other_variable(a, m, b, e, v.endpoint, 2);
    lemma_this_variable(a, m, b, v.model);
    lemma_no_variable(a + v.model + b, t, v.context_tokens);
    // The size of the context.
    lemma_other_variable(a, t, b, c, v.cwd, 3);
    lemma_other_variable(a, t, b, o, v.os, 2);
    lemma_other_variable(a, t, b, e, v.endpoint, 2);
    lemma_other_variable(a, t, b, m, v.model, 2);
    lemma_this_variable(a, t, b, v.context_tokens);
}

proof fn lemma_entry_holds(e: (Seq<char>, Seq<char>))
    ensures
        text::contains(prompt::entry(e), e.0),
        text::contains(prompt::entry(e), e.1),
{
    laws::lemma_between("  - "@, e.0, " — "@ + e.1 + "\n"@);
    assert(prompt::entry(e) =~= "  - "@ + e.0 + (" — "@ + e.1 + "\n"@));
    laws::lemma_between("  - "@ + e.0 + " — "@, e.1, "\n"@);
}

proof fn lemma_entries_hold(v: Seq<(Seq<char>, Seq<char>)>, i: int)
    requires
        0 <= i < v.len(),
    ensures
        text::contains(prompt::entries(v), v[i].0),
        text::contains(prompt::entries(v), v[i].1),
    decreases v.len(),
{
    let d = v.drop_last();
    if i == v.len() - 1 {
        lemma_entry_holds(v[i]);
        laws::lemma_held(prompt::entry(v[i]), prompt::entries(d), v[i].0);
        laws::lemma_held(prompt::entry(v[i]), prompt::entries(d), v[i].1);
    } else {
        lemma_entries_hold(d, i);
        assert(d[i] == v[i]);
        laws::lemma_held(prompt::entries(d), prompt::entry(v.last()), v[i].0);
        laws::lemma_held(prompt::entries(d), prompt::entry(v.last()), v[i].1);
    }
}

/// The index names every skill and every server, with its description.
pub proof fn law_index_names_everything(
    skills: Seq<(Seq<char>, Seq<char>)>,
    servers: Seq<(Seq<char>, Seq<char>)>,
    i: int,
)
    ensures
        0 <= i < skills.len() ==> text::contains(prompt::index_of(skills, servers), skills[i].0)
            && text::contains(prompt::index_of(skills, servers), skills[i].1),
        0 <= i < servers.len() ==> text::contains(prompt::index_of(skills, servers), servers[i].0)
            && text::contains(prompt::index_of(skills, servers), servers[i].1),
{
    let head = prompt::INDEX_HEADER@ + "\n"@;
    let a = if skills.len() == 0 {
        "- 스킬: 없음\n"@
    } else {
        "- 스킬 (필요할 때 `skill_load(name)` 로 로드):\n"@ + prompt::entries(skills)
    };
    let b = if servers.len() == 0 {
        "- MCP 서버: 없음\n"@
    } else {
        "- MCP 서버 (필요할 때 `mcp_tools(server)` 로 로드):\n"@ + prompt::entries(servers)
    };
    let tail = "- history (이전 작업 맥락 회수): `history_list(query?, limit?)`, `history_read(run_id)`\n"@;
    assert(prompt::index_of(skills, servers) == head + a + b + tail);
    if 0 <= i < skills.len() {
        lemma_entries_hold(skills, i);
        let s = skills[i];
        laws::lemma_held(
            prompt::entries(skills),
            "- 스킬 (필요할 때 `skill_load(name)` 로 로드):\n"@,
            s.0,
        );
        laws::lemma_held(
            prompt::entries(skills),
            "- 스킬 (필요할 때 `skill_load(name)` 로 로드):\n"@,
            s.1,
        );
        laws::lemma_held(a, head, s.0);
        laws::lemma_held(a, head, s.1);
        laws::lemma_held(head + a, b, s.0);
        laws::lemma_held(head + a, b, s.1);
        laws::lemma_held(head + a + b, tail, s.0);
        laws::lemma_held(head + a + b, tail, s.1);
    }
    if 0 <= i < servers.len() {
        lemma_entries_hold(servers, i);
        let s = servers[i];
        laws::lemma_held(
            prompt::entries(servers),
            "- MCP 서버 (필요할 때 `mcp_tools(server)` 로 로드):\n"@,
            s.0,
        );
        laws::lemma_held(
            prompt::entries(servers),
            "- MCP 서버 (필요할 때 `mcp_tools(server)` 로 로드):\n"@,
            s.1,
        );
        laws::lemma_held(b, head + a, s.0);
        laws::lemma_held(b, head + a, s.1);
        laws::lemma_held(head + a + b, tail, s.0);
        laws::lemma_held(head + a + b, tail, s.1);
    }
}

/// The user's and the project's prompt are part of the system prompt where they
/// say something, and a prompt that is given for a run takes the place of all.
pub proof fn law_layers_are_kept(global: String, project: String, given: String)
    ensures
        !text::blank(global@) ==> text::contains(
            prompt::body_text(Body::Layers { global, project }),
            global@,
        ),
        !text::blank(project@) ==> text::contains(
            prompt::body_text(Body::Layers { global, project }),
            project@,
        ),
        prompt::body_text(Body::Replaced(given)) == given@,
{
    let parts = seq![prompt::BASE_MD@] + (if text::blank(global@) {
        Seq::empty()
    } else {
        seq![global@]
    }) + (if text::blank(project@) {
        Seq::empty()
    } else {
        seq![project@]
    });
    if !text::blank(global@) {
        assert(parts[1] == global@);
        laws::lemma_joined_holds(parts, "\n\n"@, 1);
    }
    if !text::blank(project@) {
        assert(parts[parts.len() - 1] == project@);
        laws::lemma_joined_holds(parts, "\n\n"@, parts.len() - 1);
    }
}

// ---------------------------------------------------------------------------
// Skills
// ---------------------------------------------------------------------------

/// The first text that is found for a skill is the one that counts.
pub proof fn law_first_text_counts(found: Seq<Option<String>>, i: int)
    requires
        0 <= i < found.len(),
        found[i] is Some,
        forall|j: int| 0 <= j < i ==> (#[trigger] found[j]) is None,
    ensures
        skills::first_found(found) == Some(found[i]->0@),
    decreases i,
{
    if i > 0 {
        assert(found[0] is None);
        let rest = found.skip(1);
        assert forall|j: int| 0 <= j < i - 1 implies (#[trigger] rest[j]) is None by {
            assert(rest[j] == found[j + 1]);
        }
        law_first_text_counts(rest, i - 1);
    }
}

/// A skill is listed with the name and the description of its head, where the
/// name is new; a text without a head is passed over.
pub proof fn law_skill_is_listed_by_its_head(
    bodies: Seq<Seq<char>>,
    body: Seq<char>,
    name: Seq<char>,
    description: Seq<char>,
)
    ensures
        skills::frontmatter(body) == Ok::<(Seq<char>, Seq<char>), Seq<char>>((name, description))
            && !skills::described(bodies).dom().contains(name) ==> {
            let after = skills::described(bodies.push(body));
            after.dom().contains(name) && after[name] == description
        },
        skills::frontmatter(body) is Err ==> skills::described(bodies.push(body))
            == skills::described(bodies),
{
    assert(bodies.push(body).drop_last() =~= bodies);
}

/// The value of a key in a head is what stands behind the key, without white
/// space around it; the last line with the key counts.
pub proof fn law_head_value_is_read(lines: Seq<Seq<char>>, key: Seq<char>, v: Seq<char>)
    requires
        key.len() > 0,
        !text::space(key[0]),
        v.len() > 0,
        text::tight(v),
        v[0] != '"',
        v.last() != '"',
    ensures
        skills::head_value(lines.push(key + seq![' '] + v), key) == Some(v),
{
    let line = key + seq![' '] + v;
    assert(line[0] == key[0]);
    assert(line.last() == v.last());
    text::lemma_tight(line);
    assert(lines.push(line).last() == line);
    assert(line.take(key.len() as int) =~= key);
    assert(line.skip(key.len() as int) =~= seq![' '] + v);
    let none = Seq::<char>::empty();
    text::lemma_trim_pads(seq![' '], v, none);
    assert(seq![' '] + v + none =~= seq![' '] + v);
    assert(text::run_length(v, '"') == 0);
    assert(v.skip(0) =~= v);
}

/// A skill is read from a text that begins with its head: the name and the
/// description are those that stand behind their keys, whatever follows the head.
pub proof fn law_skill_is_read(name: Seq<char>, description: Seq<char>, rest: Seq<char>)
    requires
        name.len() > 0,
        text::tight(name),
        !name.contains('\n'),
        name[0] != '"',
        name.last() != '"',
        description.len() > 0,
        text::tight(description),
        !description.contains('\n'),
        description[0] != '"',
        description.last() != '"',
    ensures
        skills::frontmatter(
            "---"@ + (seq!['\n'] + ("name: "@ + name) + seq!['\n'] + ("description: "@
                + description)) + "\n---"@ + rest,
        ) == Ok::<(Seq<char>, Seq<char>), Seq<char>>((name, description)),
{
    reveal_strlit("---");
    reveal_strlit("\n---");
    reveal_strlit("name: ");
    reveal_strlit("name:");
    reveal_strlit("description: ");
    reveal_strlit("description:");
    let l1 = "name: "@ + name;
    let l2 = "description: "@ + description;
    let head = seq!['\n'] + l1 + seq!['\n'] + l2;
    let body = "---"@ + head + "\n---"@ + rest;
    assert(body[0] == '-');
    assert(text::trimmed_start(body) == body);
    assert(skills::opened(body) == body);
    assert(body.take(3) =~= "---"@);
    assert(skills::has_head(body));
    let after = body.skip(3);
    let pat = "\n---"@;
    assert(after =~= head + pat + rest);
    let n = head.len() as int;
    assert(after.subrange(n, n + 4) =~= pat);
    assert(text::occurs_at(after, pat, n));
    text::lemma_find_from(after, pat, 0);
    let i = text::find(after, pat)->0;
    if i < n {
        let t = after.subrange(i, i + 4);
        assert(t[0] == after[i] && t[1] == after[i + 1]);
        assert(after[i] == head[i]);
        let k = 1 + l1.len() as int;
        if i == 0 {
            assert(after[1] == head[1]);
            assert(head[1] == l1[0]);
        } else if i < k {
            assert(head[i] == l1[i - 1]);
            if i - 1 >= 6 {
                assert(l1[i - 1] == name[i - 7]);
                assert(name.contains(name[i - 7]));
            }
        } else if i == k {
            assert(after[k + 1] == head[k + 1]);
            assert(head[k + 1] == l2[0]);
        } else {
            assert(head[i] == l2[i - k - 1]);
            if i - k - 1 >= 13 {
                assert(l2[i - k - 1] == description[i - k - 14]);
                assert(description.contains(description[i - k - 14]));
            }
        }
    }
    assert(skills::head_end(body) == Some(n));
    assert(after.take(n) =~= head);
    let none = Seq::<char>::empty();
    assert forall|k: int| 0 <= k < l1.len() implies #[trigger] l1[k] != '\n' by {
        if k >= 6 {
            assert(l1[k] == name[k - 6]);
            assert(name.contains(name[k - 6]));
        }
    }
    assert forall|k: int| 0 <= k < l2.len() implies #[trigger] l2[k] != '\n' by {
        if k >= 13 {
            assert(l2[k] == description[k - 13]);
            assert(description.contains(description[k - 13]));
        }
    }
    assert(l1.last() == name.last());
    assert(!text::space(name.last()));
    assert(text::space('\r'));
    text_laws::law_line_before_a_text(l1, l2);
    text_laws::law_line_before_a_text(none, l1 + seq!['\n'] + l2);
    assert(none + seq!['\n'] + (l1 + seq!['\n'] + l2) =~= head);
    text_laws::lemma_find_char(l2, '\n');
    assert(text::lines_of(l2) =~= seq![l2]);
    let lines = text::lines_of(head);
    assert(lines =~= seq![none, l1, l2]);
    assert(l1 =~= "name:"@ + seq![' '] + name);
    assert(l2 =~= "description:"@ + seq![' '] + description);
    law_head_value_is_read(seq![none, l1], "description:"@, description);
    assert(seq![none, l1].push(l2) =~= lines);
    law_head_value_is_read(seq![none], "name:"@, name);
    assert(seq![none].push(l1) =~= lines.drop_last());
    assert(l2[0] == 'd');
    assert(l2.last() == description.last());
    text::lemma_tight(l2);
    assert("name:"@[0] == 'n');
}

// ---------------------------------------------------------------------------
// Servers
// ---------------------------------------------------------------------------

/// A server that is named becomes known with its settings and does not run yet;
/// one that is known keeps its settings and goes on as it is, and so do others.
pub proof fn law_servers_become_known(
    clients: Map<Seq<char>, ClientModel>,
    name: Seq<char>,
    config: McpModel,
    other: Seq<char>,
)
    requires
        other != name,
    ensures
        ({
            let after = mcp::known_after(clients, name, config);
            &&& after.dom().contains(name)
            &&& !clients.dom().contains(name) ==> after[name].config == config
                && !after[name].running
            &&& clients.dom().contains(name) ==> after[name] == clients[name]
            &&& after.dom().contains(other) == clients.dom().contains(other)
            &&& clients.dom().contains(other) ==> after[other] == clients[other]
        }),
{
}

/// All texts of a server's answer are told, one behind the other; only where
/// there is none, the structured value is.
pub proof fn law_answer_of_a_server_is_told(
    content: Seq<ContentBlock>,
    s: String,
    structured: Option<JsonModel>,
)
    ensures
        mcp::text_of(content.push(ContentBlock::Text(s))) == mcp::text_of(content) + s@,
        mcp::text_of(content.push(ContentBlock::Other)) == mcp::text_of(content),
        mcp::text_of(content).len() > 0 ==> mcp::result_text(content, structured) == mcp::text_of(
            content,
        ),
        mcp::text_of(content).len() == 0 && structured is Some ==> mcp::result_text(
            content,
            structured,
        ) == crate::json::json_print_pretty(structured->0),
        mcp::text_of(content).len() == 0 && structured is None ==> mcp::result_text(
            content,
            structured,
        ).len() > 0,
{
    assert(content.push(ContentBlock::Text(s)).drop_last() =~= content);
    assert(content.push(ContentBlock::Other).drop_last() =~= content);
    assert(mcp::text_of(content) + Seq::<char>::empty() =~= mcp::text_of(content));
    reveal_strlit("(결과 없음)");
}

// ---------------------------------------------------------------------------
// Commands
// ---------------------------------------------------------------------------

proof fn lemma_word_ends(s: Seq<char>, i: int, n: int)
    requires
        0 <= i <= n <= s.len(),
        forall|k: int| i <= k < n ==> !text::space(#[trigger] s[k]),
        n < s.len() ==> text::space(s[n]),
    ensures
        text::word_end(s, i) == n,
    decreases n - i,
{
    if i < n {
        assert(!text::space(s[i]));
        lemma_word_ends(s, i + 1, n);
    }
}

/// A line is a command where it begins with a slash, and only there: the word
/// behind the slash says which, and what follows is handed to it as it is.
pub proof fn law_commands_are_read(cmd: Seq<char>, args: Seq<char>, line: Seq<char>)
    requires
        forall|i: int| 0 <= i < cmd.len() ==> !text::space(#[trigger] cmd[i]),
        args.len() > 0,
        text::tight(args),
    ensures
        slash::parsed(seq!['/'] + cmd + seq![' '] + args) == Some((slash::resolved(cmd), args)),
        slash::parsed(seq!['/'] + cmd) == Some((slash::resolved(cmd), Seq::<char>::empty())),
        text::trimmed(line).len() > 0 && text::trimmed(line)[0] != '/' ==> slash::parsed(line)
            is None,
{
    let one = seq!['/'] + cmd + seq![' '] + args;
    assert(one[0] == '/');
    assert(one.last() == args.last());
    text::lemma_tight(one);
    let body = one.skip(1);
    let n = cmd.len() as int;
    assert(body =~= cmd + seq![' '] + args);
    assert forall|k: int| 0 <= k < n implies !text::space(#[trigger] body[k]) by {
        assert(body[k] == cmd[k]);
    }
    assert(body[n] == ' ');
    lemma_word_ends(body, 0, n);
    assert(body.take(n) =~= cmd);
    assert(body.skip(n) =~= seq![' '] + args);
    let none = Seq::<char>::empty();
    text::lemma_trim_pads(seq![' '], args, none);
    assert(seq![' '] + args + none =~= seq![' '] + args);
    let two = seq!['/'] + cmd;
    assert(two[0] == '/');
    if n > 0 {
        assert(two.last() == cmd[n - 1]);
        assert(!text::space(cmd[n - 1]));
    }
    text::lemma_tight(two);
    let b = two.skip(1);
    assert(b =~= cmd);
    assert forall|k: int| 0 <= k < n implies !text::space(#[trigger] b[k]) by {
        assert(b[k] == cmd[k]);
    }
    lemma_word_ends(b, 0, n);
    assert(b.take(n) =~= cmd);
    assert(b.skip(n) =~= none);
    text::lemma_tight(none);
}

/// Without anything typed, every command is suggested by its name, in order.
pub proof fn law_all_commands_are_suggested(lang: Language, n: nat, i: int)
    requires
        n <= slash::COMMAND_COUNT,
        0 <= i < n,
    ensures
        slash::suggestions(lang, Seq::empty(), n).len() == n,
        slash::suggestions(lang, Seq::empty(), n)[i].insert == "/"@ + slash::name_of(i),
        slash::suggestions(lang, Seq::empty(), n)[i].display == "/"@ + slash::name_of(i),
    decreases n,
{
    if n > 1 {
        let m = (n - 1) as nat;
        law_all_commands_are_suggested(
            lang,
            m,
            if i < m {
                i
            } else {
                0
            },
        );
    } else {
        assert(slash::suggestions(lang, Seq::empty(), 0).len() == 0);
    }
}

/// A command that is suggested is one whose name, or another name, fits what was
/// typed, and a name that fits is suggested.
pub proof fn law_fitting_commands_are_suggested(i: int, q: Seq<char>)
    requires
        q.len() > 0,
    ensures
        slash::matched(slash::lowered(slash::name_of(i)), q) ==> slash::suggested_word(i, q)
            is Some,
        slash::suggested_word(i, q) matches Some(w) ==> slash::matched(slash::lowered(w), q) && (w
            == slash::name_of(i) || w == slash::alias_of(i, 0) || w == slash::alias_of(i, 1)),
{
}

/// A name that holds what was typed completes the argument of its command, and
/// another name does not.
pub proof fn law_arguments_are_completed(
    lang: Language,
    cmd: Seq<char>,
    names: Seq<Seq<char>>,
    c: Seq<char>,
    label: Seq<char>,
    q: Seq<char>,
)
    ensures
        ({
            let before = slash::argument_suggestions(lang, cmd, names, label, q);
            let after = slash::argument_suggestions(lang, cmd, names.push(c), label, q);
            &&& text::contains(text::lowercase(c), q) ==> after.len() == before.len() + 1
                && after.drop_last() == before && after.last().display == c && after.last().insert
                == "/"@ + cmd + " "@ + c
            &&& !text::contains(text::lowercase(c), q) ==> after == before
        }),
{
    assert(names.push(c).drop_last() =~= names);
    let before = slash::argument_suggestions(lang, cmd, names, label, q);
    let after = slash::argument_suggestions(lang, cmd, names.push(c), label, q);
    if text::contains(text::lowercase(c), q) {
        assert(after.drop_last() =~= before);
    }
}

proof fn lemma_common_end(p: Seq<char>, q: Seq<char>, s: Seq<char>)
    ensures
        slash::distance(p + s, q + s) <= slash::distance(p, q),
    decreases s.len(),
{
    if s.len() == 0 {
        assert(p + s =~= p);
        assert(q + s =~= q);
    } else {
        let d = s.drop_last();
        lemma_common_end(p, q, d);
        let a = p + s;
        let b = q + s;
        assert(a.drop_last() =~= p + d);
        assert(b.drop_last() =~= q + d);
        assert(a.last() == b.last());
    }
}

/// One character that is replaced, added or left out makes a distance of one,
/// wherever it stands.
pub proof fn law_one_edit_is_a_distance_of_one(a: Seq<char>, b: Seq<char>, x: char, y: char)
    ensures
        x != y ==> slash::distance(a.push(x) + b, a.push(y) + b) == 1,
        slash::distance(a.push(x) + b, a + b) == 1,
        slash::distance(a + b, a.push(x) + b) == 1,
{
    slash::law_distance_zero_iff_equal(a, a);
    assert(slash::distance(a, a) == 0);
    assert(a.push(x).drop_last() =~= a);
    assert(a.push(y).drop_last() =~= a);
    assert(slash::distance(a.push(x), a.push(y)) <= 1) by {
        assert(a.push(x).len() > 0 && a.push(y).len() > 0);
    }
    lemma_common_end(a.push(x), a.push(y), b);
    if x != y {
        slash::law_distance_zero_iff_equal(a.push(x) + b, a.push(y) + b);
        assert((a.push(x) + b)[a.len() as int] == x);
        assert((a.push(y) + b)[a.len() as int] == y);
    }
    assert(slash::distance(a.push(x), a) <= 1) by {
        if a.len() == 0 {
            assert(slash::distance(a.push(x), a) == 1);
        }
    }
    lemma_common_end(a.push(x), a, b);
    slash::law_distance_length_difference(a.push(x) + b, a + b);
    slash::law_distance_symmetric(a.push(x) + b, a + b);
}

/// A command that is near enough to what was typed is among those that are
/// ranked, with its distance, and no other one is.
pub proof fn law_near_commands_are_ranked(q: Seq<char>, n: nat, i: int, e: (nat, Seq<char>))
    requires
        n <= slash::COMMAND_COUNT,
        0 <= i < n,
    ensures
        slash::command_distance(i, q) <= slash::tolerance(q) ==> slash::ranked(q, n).contains(
            (slash::command_distance(i, q), slash::name_of(i)),
        ),
        slash::ranked(q, n).contains(e) ==> e.0 <= slash::tolerance(q) && exists|j: int|
            0 <= j < n && e == (slash::command_distance(j, q), #[trigger] slash::name_of(j)),
    decreases n,
{
    let rest = slash::ranked(q, (n - 1) as nat);
    let all = slash::ranked(q, n);
    let d = slash::command_distance(n - 1, q);
    let last = (d, slash::name_of(n - 1));
    let r = slash::rank_of(rest, last);
    lemma_rank_in_range(rest, last);
    if n > 1 {
        law_near_commands_are_ranked(
            q,
            (n - 1) as nat,
            if i < n - 1 {
                i
            } else {
                0
            },
            e,
        );
    } else {
        assert(rest.len() == 0);
    }
    if d <= slash::tolerance(q) {
        assert(all == rest.insert(r, last));
        assert(all[r] == last);
        let found = (slash::command_distance(i, q), slash::name_of(i));
        if i < n - 1 && slash::command_distance(i, q) <= slash::tolerance(q) {
            let k = choose|k: int| 0 <= k < rest.len() && rest[k] == found;
            if k < r {
                assert(all[k] == found);
            } else {
                assert(all[k + 1] == found);
            }
        }
        if all.contains(e) {
            let k = choose|k: int| 0 <= k < all.len() && all[k] == e;
            if k == r {
                assert(e == (slash::command_distance(n - 1, q), slash::name_of(n - 1)));
            } else {
                if k < r {
                    assert(rest[k] == e);
                } else {
                    assert(rest[k - 1] == e);
                }
                assert(rest.contains(e));
            }
        }
    }
}

proof fn lemma_rank_in_range(v: Seq<(nat, Seq<char>)>, e: (nat, Seq<char>))
    ensures
        0 <= slash::rank_of(v, e) <= v.len(),
    decreases v.len(),
{
    if v.len() > 0 {
        lemma_rank_in_range(v.skip(1), e);
    }
}

/// A command that is near enough to what was typed is shown as similar, where no
/// more than three are.
pub proof fn law_near_command_is_similar(q: Seq<char>, i: int)
    requires
        q.len() > 0,
        0 <= i < slash::COMMAND_COUNT,
        slash::command_distance(i, q) <= slash::tolerance(q),
        slash::ranked(q, slash::COMMAND_COUNT as nat).len() <= 3,
    ensures
        slash::similar(q).contains(slash::name_of(i)),
{
    let all = slash::ranked(q, slash::COMMAND_COUNT as nat);
    let e = (slash::command_distance(i, q), slash::name_of(i));
    law_near_commands_are_ranked(q, slash::COMMAND_COUNT as nat, i, e);
    let k = choose|k: int| 0 <= k < all.len() && all[k] == e;
    assert(slash::similar(q)[k] == slash::name_of(i));
}

/// The distance of a command is that of the nearest of its names.
pub proof fn law_distance_of_a_command(i: int, q: Seq<char>)
    ensures
        slash::command_distance(i, q) <= slash::distance(slash::name_of(i), q),
        slash::alias_of(i, 0).len() > 0 ==> slash::command_distance(i, q) <= slash::distance(
            slash::alias_of(i, 0),
            q,
        ),
        slash::alias_of(i, 1).len() > 0 ==> slash::command_distance(i, q) <= slash::distance(
            slash::alias_of(i, 1),
            q,
        ),
        slash::command_distance(i, q) == slash::distance(slash::name_of(i), q)
            || slash::command_distance(i, q) == slash::distance(slash::alias_of(i, 0), q)
            || slash::command_distance(i, q) == slash::distance(slash::alias_of(i, 1), q),
{
}

/// What is typed behind a command is completed with the names that the command
/// takes: a model, an endpoint, a server or a language.
pub proof fn law_names_complete_their_command(
    lang: Language,
    cmd: Seq<char>,
    rest: Seq<char>,
    ctx: CompletionContext,
)
    requires
        cmd.len() > 0,
        forall|i: int| 0 <= i < cmd.len() ==> !text::space(#[trigger] cmd[i]) && cmd[i] != '/',
    ensures
        ({
            let words = text::words_of(rest);
            let q = text::lowercase(
                if words.len() > 0 {
                    words[0]
                } else {
                    Seq::empty()
                },
            );
            let shown = slash::completions(lang, seq!['/'] + cmd + seq![' '] + rest, ctx);
            let name = slash::resolved(cmd);
            &&& name == "model"@ ==> shown == slash::argument_suggestions(
                lang,
                name,
                text::views(ctx.models@),
                "model"@,
                q,
            )
            &&& name == "endpoint"@ ==> shown == slash::argument_suggestions(
                lang,
                name,
                text::views(ctx.endpoints@),
                "endpoint"@,
                q,
            )
            &&& name == "mcp"@ ==> shown == slash::argument_suggestions(
                lang,
                name,
                text::views(ctx.mcp@),
                "MCP server"@,
                q,
            )
            &&& name == "language"@ ==> shown == slash::argument_suggestions(
                lang,
                name,
                text::views(ctx.languages@),
                "language"@,
                q,
            )
        }),
{
    let query = seq!['/'] + cmd + seq![' '] + rest;
    let body = slash::without_slash(query);
    let n = cmd.len() as int;
    assert(query.skip(1) =~= cmd + seq![' '] + rest);
    assert(body =~= cmd + seq![' '] + rest);
    assert forall|k: int| 0 <= k < n implies !text::space(#[trigger] body[k]) by {
        assert(body[k] == cmd[k]);
    }
    assert(body[n] == ' ');
    lemma_word_ends(body, 0, n);
    assert(body.take(n) =~= cmd);
    assert(body.skip(n + 1) =~= rest);
    reveal_strlit("model");
    reveal_strlit("endpoint");
    reveal_strlit("mcp");
    reveal_strlit("language");
    assert("model"@.len() == 5);
    assert("endpoint"@.len() == 8 && "endpoint"@[0] == 'e');
    assert("mcp"@.len() == 3);
    assert("language"@.len() == 8 && "language"@[0] == 'l');
}

/// A prompt that was typed before is kept once, without white space around it; a
/// blank one and a command are not.
pub proof fn law_prompts_are_kept(prompts: Seq<Seq<char>>, p: Seq<char>)
    ensures
        ({
            let before = completion::sources_of(prompts);
            let after = completion::sources_of(prompts.push(p));
            let t = text::trimmed(p);
            &&& t.len() > 0 && t[0] != '/' ==> after.contains(t)
            &&& t.len() > 0 && t[0] != '/' && !before.contains(t) ==> after == before.push(t)
            &&& t.len() == 0 || t[0] == '/' ==> after == before
            &&& before.is_prefix_of(after)
        }),
{
    assert(prompts.push(p).drop_last() =~= prompts);
    let before = completion::sources_of(prompts);
    let after = completion::sources_of(prompts.push(p));
    let t = text::trimmed(p);
    assert(after.take(before.len() as int) =~= before);
    if t.len() > 0 && t[0] != '/' && !before.contains(t) {
        assert(after[before.len() as int] == t);
    }
}

/// A key that is typed in is taken, unless it is empty, the word that stands for
/// the key at hand, or a key as it is shown.
pub proof fn law_new_key_is_taken(ep: EndpointModel, value: Seq<char>)
    requires
        value.len() > 0,
        value != endpoint::KEY_SENTINEL@,
        value.len() != 13,
        value.len() != 4,
    ensures
        endpoint::with_field(ep, "api_key"@, value) == Ok::<EndpointModel, Seq<char>>(
            (EndpointModel { api_key: Some(value), ..ep }),
        ),
        endpoint::with_field(ep, "api_key"@, Seq::empty()) == Ok::<EndpointModel, Seq<char>>(ep),
{
    reveal_strlit("url");
    reveal_strlit("model");
    reveal_strlit("context_tokens");
    reveal_strlit("vision");
    reveal_strlit("thinking");
    reveal_strlit("max_iterations");
    reveal_strlit("api_key");
    reveal_strlit("****");
    assert("url"@.len() == 3);
    assert("model"@.len() == 5);
    assert("context_tokens"@.len() == 14);
    assert("vision"@.len() == 6);
    assert("thinking"@.len() == 8);
    assert("max_iterations"@.len() == 14);
    assert("api_key"@.len() == 7);
    assert("****"@.len() == 4);
}

/// A mark of the byte order before a skill changes nothing.
pub proof fn law_byte_order_mark_is_passed_over(body: Seq<char>)
    requires
        body.len() > 0,
        body[0] != '\u{feff}',
    ensures
        skills::frontmatter(seq!['\u{feff}'] + body) == skills::frontmatter(body),
{
    assert((seq!['\u{feff}'] + body).skip(1) =~= body);
}

} // verus!
