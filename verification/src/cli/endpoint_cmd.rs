//! `endpoint`: registers, lists and changes endpoints.
use vstd::prelude::*;

use crate::cli::{EndpointAddArgs, EndpointSetArgs};
use crate::config::{Config, ConfigModel};
use crate::endpoint::probe::{ProbeOutcome, ProbeReport};
use crate::endpoint::{
    add_endpoint,
    list_endpoints,
    remove_endpoint,
    set_endpoint_field,
    use_endpoint,
    EndpointAddSpec,
    RowModel,
};
use crate::endpoint;
use crate::i18n::{say1, say3, translate, Language};
use crate::i18n;
use crate::text;

verus! {

/// What an endpoint is registered with: a context that is not given is probed.
pub open spec fn add_spec(args: EndpointAddArgs) -> crate::config::EndpointModel {
    crate::config::EndpointModel {
        url: args.url@,
        api_key: text::opt_view(args.api_key),
        model: args.model@,
        context_tokens: match args.context_tokens {
            Some(n) => n,
            None => 0,
        },
        vision: args.vision,
        thinking: args.thinking,
        max_iterations: 200,
        reasoning_effort: None,
        input_price_per_mtok: None,
        output_price_per_mtok: None,
    }
}

/// Registers an endpoint.
pub fn add(cfg: &mut Config, args: &EndpointAddArgs, lang: Language) -> (r: String)
    requires
        old(cfg).wf(),
    ensures
        final(cfg).wf(),
        final(cfg)@ == endpoint::with_endpoint(old(cfg)@, args.name@, add_spec(*args)),
        r@ == i18n::message_fmt(lang, "Registered endpoint '{name}'"@, seq![args.name@]),
{
    let spec = EndpointAddSpec {
        name: args.name.clone(),
        url: args.url.clone(),
        api_key: text::clone_opt(&args.api_key),
        model: args.model.clone(),
        context_tokens: match args.context_tokens {
            Some(n) => n,
            None => 0,
        },
        vision: args.vision,
        thinking: args.thinking,
    };
    let _ = add_endpoint(cfg, &spec);
    say1(lang, "Registered endpoint '{name}'", &args.name)
}

/// Makes an endpoint the active one.
pub fn activate(cfg: &mut Config, name: &str, lang: Language) -> (r: Result<String, String>)
    requires
        old(cfg).wf(),
    ensures
        final(cfg).wf(),
        match r {
            Ok(s) => {
                &&& old(cfg)@.endpoints.dom().contains(name@)
                &&& final(cfg)@ == (ConfigModel { active_endpoint: Some(name@), ..old(cfg)@ })
                &&& s@ == i18n::message_fmt(lang, "Activated endpoint '{name}'"@, seq![name@])
            },
            Err(e) => {
                &&& !old(cfg)@.endpoints.dom().contains(name@)
                &&& final(cfg)@ == old(cfg)@
                &&& e@ == "엔드포인트를 찾을 수 없습니다: "@ + name@
            },
        },
{
    match use_endpoint(cfg, name) {
        Ok(_) => Ok(say1(lang, "Activated endpoint '{name}'", name)),
        Err(e) => Err(e.message()),
    }
}

/// Removes an endpoint.
pub fn remove(cfg: &mut Config, name: &str, lang: Language) -> (r: Result<String, String>)
    requires
        old(cfg).wf(),
    ensures
        final(cfg).wf(),
        match r {
            Ok(s) => {
                &&& old(cfg)@.endpoints.dom().contains(name@)
                &&& final(cfg)@ == endpoint::without_endpoint(old(cfg)@, name@)
                &&& s@ == i18n::message_fmt(lang, "Removed endpoint '{name}'"@, seq![name@])
            },
            Err(e) => {
                &&& !old(cfg)@.endpoints.dom().contains(name@)
                &&& final(cfg)@ == old(cfg)@
                &&& e@ == "엔드포인트를 찾을 수 없습니다: "@ + name@
            },
        },
{
    match remove_endpoint(cfg, name) {
        Ok(_) => Ok(say1(lang, "Removed endpoint '{name}'", name)),
        Err(e) => Err(e.message()),
    }
}

/// The settings after a field of an endpoint was changed, or what went wrong.
pub open spec fn set_result(c: ConfigModel, name: Seq<char>, field: Seq<char>, value: Seq<char>) -> Result<
    ConfigModel,
    Seq<char>,
> {
    if !c.endpoints.dom().contains(name) {
        Err("엔드포인트를 찾을 수 없습니다: "@ + name)
    } else {
        match endpoint::with_field(c.endpoints[name], field, value) {
            Ok(ep) => Ok(ConfigModel { endpoints: c.endpoints.insert(name, ep), ..c }),
            Err(e) => Err("필드 수정 실패: "@ + e),
        }
    }
}

/// What is said about a field that was changed. A key is not shown.
pub open spec fn set_message(
    lang: Language,
    name: Seq<char>,
    field: Seq<char>,
    value: Seq<char>,
) -> Seq<char> {
    if field == "api_key"@ || field == "key"@ {
        i18n::message_fmt(lang, "Endpoint '{name}' api_key unchanged"@, seq![name])
    } else {
        i18n::message_fmt(lang, "Endpoint '{name}' {field} = {value}"@, seq![name, field, value])
    }
}

/// Changes a field of an endpoint, given as the field and its value with an
/// equals sign between them.
pub fn set(cfg: &mut Config, args: &EndpointSetArgs, lang: Language) -> (r: Result<String, String>)
    requires
        old(cfg).wf(),
    ensures
        final(cfg).wf(),
        match text::around_first(args.field@, '=') {
            Some((field, value)) => match set_result(old(cfg)@, args.name@, field, value) {
                Ok(c) => final(cfg)@ == c && (r matches Ok(s) && s@ == set_message(
                    lang,
                    args.name@,
                    field,
                    value,
                )),
                Err(m) => final(cfg)@ == old(cfg)@ && (r matches Err(e) && e@ == m),
            },
            None => final(cfg)@ == old(cfg)@ && (r matches Err(e) && e@ == i18n::message(
                lang,
                "set must be in `key=value` form"@,
            )),
        },
{
    match text::split_once(&args.field, '=') {
        Some((field, value)) => match set_endpoint_field(cfg, &args.name, field, value) {
            Ok(_) => {
                if text::str_eq(field, "api_key") || text::str_eq(field, "key") {
                    Ok(say1(lang, "Endpoint '{name}' api_key unchanged", &args.name))
                } else {
                    Ok(
                        say3(
                            lang,
                            "Endpoint '{name}' {field} = {value}",
                            &args.name,
                            field,
                            value,
                        ),
                    )
                }
            },
            Err(e) => Err(e.message()),
        },
        None => Err(translate(lang, "set must be in `key=value` form").to_string()),
    }
}

/// An endpoint in the list.
pub open spec fn row_text(lang: Language, row: RowModel) -> Seq<char> {
    row.name + (if row.active {
        i18n::message(lang, " (active)"@)
    } else {
        ""@
    }) + "\n  url: "@ + row.url + "\n  api_key: "@ + (if row.api_key_masked.len() == 0 {
        "-"@
    } else {
        row.api_key_masked
    }) + "\n  model: "@ + row.model + "\n  context_tokens: "@ + (if row.context_tokens > 0 {
        text::decimal(row.context_tokens as nat)
    } else {
        i18n::message(lang, "auto (probe)"@)
    }) + "\n"@
}

/// The endpoints in the order of their names, with masked keys; a notice where
/// there are none.
pub fn list(cfg: &Config, lang: Language) -> (r: Vec<String>)
    requires
        cfg.wf(),
    ensures
        text::views(r@) == ({
            let rows = endpoint::rows_of(
                cfg.endpoints.names(),
                cfg@.endpoints,
                cfg@.active_endpoint,
            );
            if rows.len() == 0 {
                seq![i18n::message(lang, "No endpoints registered."@)]
            } else {
                rows.map_values(|row: RowModel| row_text(lang, row))
            }
        }),
{
    let rows = list_endpoints(cfg);
    let ghost model = endpoint::rows_of(
        cfg.endpoints.names(),
        cfg@.endpoints,
        cfg@.active_endpoint,
    );
    let mut out: Vec<String> = Vec::new();
    if rows.len() == 0 {
        out.push(translate(lang, "No endpoints registered.").to_string());
        proof {
            assert(text::views(out@) =~= seq![i18n::message(lang, "No endpoints registered."@)]);
            assert(model.len() == 0);
        }
        return out;
    }
    let mut i: usize = 0;
    while i < rows.len()
        invariant
            i <= rows.len(),
            out@.len() == i,
            model == rows@.map_values(|row: endpoint::EndpointRow| row@),
            forall|k: int| 0 <= k < i ==> (#[trigger] out@[k])@ == row_text(lang, model[k]),
        decreases rows.len() - i,
    {
        let row = &rows[i];
        assert(model[i as int] == row@);
        let mut line = row.name.clone();
        if row.active {
            line.append(translate(lang, " (active)"));
        } else {
            line.append("");
        }
        line.append("\n  url: ");
        line.append(&row.url);
        line.append("\n  api_key: ");
        if row.api_key_masked.as_str().is_empty() {
            line.append("-");
        } else {
            line.append(&row.api_key_masked);
        }
        line.append("\n  model: ");
        line.append(&row.model);
        line.append("\n  context_tokens: ");
        if row.context_tokens > 0 {
            text::push_decimal(&mut line, row.context_tokens);
        } else {
            line.append(translate(lang, "auto (probe)"));
        }
        line.append("\n");
        out.push(line);
        i = i + 1;
    }
    proof {
        assert(text::views(out@) =~= model.map_values(|row: RowModel| row_text(lang, row)));
    }
    out
}

/// The error of an endpoint that the settings do not have.
pub fn not_found(name: &str, lang: Language) -> (r: String)
    ensures
        r@ == i18n::message_fmt(lang, "Endpoint not found: {name}"@, seq![name@]),
{
    say1(lang, "Endpoint not found: {name}", name)
}

/// What is said about a test of an endpoint, and the code with which the
/// program ends.
pub fn test_reply(name: &str, outcome: &ProbeOutcome, lang: Language) -> (r: (String, i32))
    ensures
        match outcome {
            ProbeOutcome::Success => r.1 == 0 && r.0@ == i18n::message_fmt(
                lang,
                "Endpoint '{name}' connection/auth succeeded"@,
                seq![name@],
            ),
            ProbeOutcome::HttpError(status, body) => r.1 == 1 && r.0@ == i18n::message_fmt(
                lang,
                "⚠️  Endpoint '{name}' error {status}: {body}"@,
                seq![name@, text::decimal(*status as nat), body@],
            ),
        },
{
    match outcome {
        ProbeOutcome::Success => (
            say1(lang, "Endpoint '{name}' connection/auth succeeded", name),
            0,
        ),
        ProbeOutcome::HttpError(status, body) => (
            say3(
                lang,
                "⚠️  Endpoint '{name}' error {status}: {body}",
                name,
                &text::show(*status as u64),
                body,
            ),
            1,
        ),
    }
}

/// What is said about the size of an endpoint's context.
pub fn probe_reply(name: &str, report: &ProbeReport, lang: Language) -> (r: String)
    ensures
        r@ == i18n::message_fmt(
            lang,
            "Endpoint '{name}' context length: {tokens} (source: {source})"@,
            seq![name@, text::decimal(report.context_tokens as nat), report.source@],
        ),
{
    say3(
        lang,
        "Endpoint '{name}' context length: {tokens} (source: {source})",
        name,
        &text::show(report.context_tokens),
        &report.source,
    )
}

/// What is said about a key never shows its value.
pub proof fn law_key_is_not_shown(lang: Language, name: Seq<char>, a: Seq<char>, b: Seq<char>)
    ensures
        set_message(lang, name, "api_key"@, a) == set_message(lang, name, "api_key"@, b),
{
}

} // verus!
