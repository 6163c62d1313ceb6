//! `config`: reads and changes single settings.
use vstd::prelude::*;

use crate::config::{
    mode_from_name,
    Config,
    ConfigModel,
    EndpointConfig,
    EndpointModel,
    McpConfig,
    McpModel,
    UpdateConfig,
    UpdateMode,
    UpdateModel,
};
use crate::config;
use crate::table::Table;
use crate::table;
use crate::text;

verus! {

/// A truth value in words.
pub open spec fn truth(b: bool) -> Seq<char> {
    if b {
        "true"@
    } else {
        "false"@
    }
}

/// A truth value in words.
fn show_truth(b: bool) -> (r: String)
    ensures
        r@ == truth(b),
{
    if b {
        "true".to_string()
    } else {
        "false".to_string()
    }
}

/// A field of an endpoint.
pub open spec fn endpoint_value(ep: EndpointModel, field: Seq<char>) -> Option<Seq<char>> {
    if field == "url"@ {
        Some(ep.url)
    } else if field == "api_key"@ {
        ep.api_key
    } else if field == "model"@ {
        Some(ep.model)
    } else if field == "context_tokens"@ {
        Some(text::decimal(ep.context_tokens as nat))
    } else if field == "vision"@ {
        Some(truth(ep.vision))
    } else if field == "thinking"@ {
        Some(truth(ep.thinking))
    } else if field == "max_iterations"@ {
        Some(text::decimal(ep.max_iterations as nat))
    } else {
        None
    }
}

/// A field of a server.
pub open spec fn server_value(m: McpModel, field: Seq<char>) -> Option<Seq<char>> {
    if field == "command"@ {
        Some(m.command)
    } else if field == "args"@ {
        Some(text::joined(m.args, " "@))
    } else if field == "description"@ {
        m.description
    } else {
        None
    }
}

/// The name and the field in the rest of a key; the field is empty where there
/// is no dot.
pub open spec fn name_and_field(rest: Seq<char>) -> (Seq<char>, Seq<char>) {
    match text::around_first(rest, '.') {
        Some(p) => p,
        None => (rest, Seq::empty()),
    }
}

/// The value of a setting.
pub open spec fn value_of(c: ConfigModel, key: Seq<char>) -> Option<Seq<char>> {
    if key == "version"@ {
        Some(text::decimal(c.version as nat))
    } else if key == "active_endpoint"@ {
        c.active_endpoint
    } else if key == "handoff_threshold_pct"@ {
        Some(text::decimal(c.context.handoff_threshold_pct as nat))
    } else if key == "max_handoff_depth"@ {
        Some(text::decimal(c.context.max_handoff_depth as nat))
    } else if key == "handoff_warn_depth"@ {
        Some(text::decimal(c.context.handoff_warn_depth as nat))
    } else if key == "update.repo"@ {
        match c.update {
            Some(u) => Some(u.repo),
            None => None,
        }
    } else if key == "update.mode"@ {
        match c.update {
            Some(u) => Some(u.mode.name()),
            None => None,
        }
    } else {
        match text::after_prefix(key, "endpoints."@) {
            Some(rest) => {
                let (name, field) = name_and_field(rest);
                if c.endpoints.dom().contains(name) {
                    endpoint_value(c.endpoints[name], field)
                } else {
                    None
                }
            },
            None => match text::after_prefix(key, "mcp."@) {
                Some(rest) => {
                    let (name, field) = name_and_field(rest);
                    if c.mcp.dom().contains(name) {
                        server_value(c.mcp[name], field)
                    } else {
                        None
                    }
                },
                None => None,
            },
        }
    }
}

/// A field of an endpoint.
pub fn endpoint_field(ep: &EndpointConfig, field: &str) -> (r: Option<String>)
    ensures
        text::opt_view(r) == endpoint_value(ep@, field@),
{
    if text::str_eq(field, "url") {
        Some(ep.url.clone())
    } else if text::str_eq(field, "api_key") {
        text::clone_opt(&ep.api_key)
    } else if text::str_eq(field, "model") {
        Some(ep.model.clone())
    } else if text::str_eq(field, "context_tokens") {
        Some(text::show(ep.context_tokens))
    } else if text::str_eq(field, "vision") {
        Some(show_truth(ep.vision))
    } else if text::str_eq(field, "thinking") {
        Some(show_truth(ep.thinking))
    } else if text::str_eq(field, "max_iterations") {
        Some(text::show(ep.max_iterations as u64))
    } else {
        None
    }
}

/// A field of a server.
pub fn mcp_field(m: &McpConfig, field: &str) -> (r: Option<String>)
    ensures
        text::opt_view(r) == server_value(m@, field@),
{
    if text::str_eq(field, "command") {
        Some(m.command.clone())
    } else if text::str_eq(field, "args") {
        Some(text::join(&m.args, " "))
    } else if text::str_eq(field, "description") {
        text::clone_opt(&m.description)
    } else {
        None
    }
}

/// The name and the field in the rest of a key.
fn split_key<'a>(rest: &'a str) -> (r: (&'a str, &'a str))
    ensures
        (r.0@, r.1@) == name_and_field(rest@),
{
    match text::split_once(rest, '.') {
        Some(p) => p,
        None => {
            let none = text::take_chars(rest, 0);
            proof {
                assert(none@ =~= Seq::empty());
            }
            (rest, none)
        },
    }
}

/// The value of a setting; `None` for a key that there is not, or that is not
/// set.
pub fn get_value(cfg: &Config, key: &str) -> (r: Option<String>)
    requires
        cfg.wf(),
    ensures
        text::opt_view(r) == value_of(cfg@, key@),
{
    if text::str_eq(key, "version") {
        return Some(text::show(cfg.version as u64));
    }
    if text::str_eq(key, "active_endpoint") {
        return text::clone_opt(&cfg.active_endpoint);
    }
    if text::str_eq(key, "handoff_threshold_pct") {
        return Some(text::show(cfg.context.handoff_threshold_pct as u64));
    }
    if text::str_eq(key, "max_handoff_depth") {
        return Some(text::show(cfg.context.max_handoff_depth as u64));
    }
    if text::str_eq(key, "handoff_warn_depth") {
        return Some(text::show(cfg.context.handoff_warn_depth as u64));
    }
    if text::str_eq(key, "update.repo") {
        return match &cfg.update {
            Some(u) => Some(u.repo.clone()),
            None => None,
        };
    }
    if text::str_eq(key, "update.mode") {
        return match &cfg.update {
            Some(u) => Some(u.mode.as_str().to_string()),
            None => None,
        };
    }
    if let Some(rest) = text::strip_prefix(key, "endpoints.") {
        let (name, field) = split_key(rest);
        return match cfg.endpoints.get(name) {
            Some(ep) => endpoint_field(ep, field),
            None => None,
        };
    }
    if let Some(rest) = text::strip_prefix(key, "mcp.") {
        let (name, field) = split_key(rest);
        return match cfg.mcp.get(name) {
            Some(m) => mcp_field(m, field),
            None => None,
        };
    }
    None
}

/// The update settings to change: those that are set, else empty ones.
pub open spec fn update_or_new(u: Option<UpdateModel>) -> UpdateModel {
    match u {
        Some(v) => v,
        None => UpdateModel { repo: Seq::empty(), mode: UpdateMode::Check },
    }
}

/// The settings after one was changed. A value that cannot be read and a key
/// that cannot be changed change nothing.
pub open spec fn config_with(c: ConfigModel, key: Seq<char>, value: Seq<char>) -> ConfigModel {
    if key == "active_endpoint"@ {
        ConfigModel { active_endpoint: Some(value), ..c }
    } else if key == "handoff_threshold_pct"@ {
        match text::parsed_number(value, u8::MAX as nat) {
            Some(n) => ConfigModel {
                context: config::ContextConfig { handoff_threshold_pct: n as u8, ..c.context },
                ..c
            },
            None => c,
        }
    } else if key == "max_handoff_depth"@ {
        match text::parsed_number(value, u32::MAX as nat) {
            Some(n) => ConfigModel {
                context: config::ContextConfig { max_handoff_depth: n as u32, ..c.context },
                ..c
            },
            None => c,
        }
    } else if key == "handoff_warn_depth"@ {
        match text::parsed_number(value, u32::MAX as nat) {
            Some(n) => ConfigModel {
                context: config::ContextConfig { handoff_warn_depth: n as u32, ..c.context },
                ..c
            },
            None => c,
        }
    } else if key == "update.repo"@ {
        ConfigModel {
            update: Some(UpdateModel { repo: value, ..update_or_new(c.update) }),
            ..c
        }
    } else if key == "update.mode"@ {
        match config::mode_named(value) {
            Some(mode) => ConfigModel {
                update: Some(UpdateModel { mode, ..update_or_new(c.update) }),
                ..c
            },
            None => c,
        }
    } else {
        c
    }
}

/// Whether a setting can be changed.
pub open spec fn changeable(key: Seq<char>) -> bool {
    key == "active_endpoint"@ || key == "handoff_threshold_pct"@ || key == "max_handoff_depth"@ || key
        == "handoff_warn_depth"@ || key == "update.repo"@ || key == "update.mode"@
}

/// Changes a setting. The result says whether the key is one that can be
/// changed.
pub fn set_value(cfg: &mut Config, key: &str, value: &str) -> (r: bool)
    requires
        old(cfg).wf(),
    ensures
        final(cfg).wf(),
        final(cfg)@ == config_with(old(cfg)@, key@, value@),
        r == changeable(key@),
{
    if text::str_eq(key, "active_endpoint") {
        cfg.active_endpoint = Some(value.to_string());
        return true;
    }
    if text::str_eq(key, "handoff_threshold_pct") {
        match text::parse_number(value, 255) {
            Some(n) => {
                cfg.context.handoff_threshold_pct = n as u8;
            },
            None => {},
        }
        return true;
    }
    if text::str_eq(key, "max_handoff_depth") {
        match text::parse_number(value, u32::MAX as u64) {
            Some(n) => {
                cfg.context.max_handoff_depth = n as u32;
            },
            None => {},
        }
        return true;
    }
    if text::str_eq(key, "handoff_warn_depth") {
        match text::parse_number(value, u32::MAX as u64) {
            Some(n) => {
                cfg.context.handoff_warn_depth = n as u32;
            },
            None => {},
        }
        return true;
    }
    if text::str_eq(key, "update.repo") {
        let mode = match &cfg.update {
            Some(u) => u.mode,
            None => UpdateMode::Check,
        };
        cfg.update = Some(UpdateConfig { repo: value.to_string(), mode });
        return true;
    }
    if text::str_eq(key, "update.mode") {
        match mode_from_name(value) {
            Some(mode) => {
                let repo = match &cfg.update {
                    Some(u) => u.repo.clone(),
                    None => String::new(),
                };
                cfg.update = Some(UpdateConfig { repo, mode });
            },
            None => {},
        }
        return true;
    }
    false
}

// ---------------------------------------------------------------------------
// The list of settings
// ---------------------------------------------------------------------------

/// The key of a field of an endpoint or a server.
pub open spec fn key_of(group: Seq<char>, name: Seq<char>, field: Seq<char>) -> Seq<char> {
    group + name + field
}

/// The settings of endpoints, added to others.
pub open spec fn with_endpoints(
    m: Map<Seq<char>, Seq<char>>,
    entries: Seq<(String, EndpointConfig)>,
) -> Map<Seq<char>, Seq<char>>
    decreases entries.len(),
{
    if entries.len() == 0 {
        m
    } else {
        let name = entries.last().0@;
        let ep = entries.last().1@;
        with_endpoints(m, entries.drop_last()).insert(
            key_of("endpoints."@, name, ".url"@),
            ep.url,
        ).insert(key_of("endpoints."@, name, ".model"@), ep.model).insert(
            key_of("endpoints."@, name, ".context_tokens"@),
            text::decimal(ep.context_tokens as nat),
        ).insert(key_of("endpoints."@, name, ".vision"@), truth(ep.vision)).insert(
            key_of("endpoints."@, name, ".thinking"@),
            truth(ep.thinking),
        ).insert(
            key_of("endpoints."@, name, ".max_iterations"@),
            text::decimal(ep.max_iterations as nat),
        )
    }
}

/// The settings of servers, added to others.
pub open spec fn with_servers(
    m: Map<Seq<char>, Seq<char>>,
    entries: Seq<(String, McpConfig)>,
) -> Map<Seq<char>, Seq<char>>
    decreases entries.len(),
{
    if entries.len() == 0 {
        m
    } else {
        let name = entries.last().0@;
        let server = entries.last().1@;
        with_servers(m, entries.drop_last()).insert(
            key_of("mcp."@, name, ".command"@),
            server.command,
        ).insert(key_of("mcp."@, name, ".args"@), text::joined(server.args, " "@))
    }
}

/// The settings that belong to no endpoint and no server.
pub open spec fn plain_settings(c: ConfigModel) -> Map<Seq<char>, Seq<char>> {
    let m = Map::<Seq<char>, Seq<char>>::empty().insert(
        "version"@,
        text::decimal(c.version as nat),
    );
    let n = match c.active_endpoint {
        Some(name) => m.insert("active_endpoint"@, name),
        None => m,
    };
    n.insert(
        "handoff_threshold_pct"@,
        text::decimal(c.context.handoff_threshold_pct as nat),
    ).insert("max_handoff_depth"@, text::decimal(c.context.max_handoff_depth as nat)).insert(
        "handoff_warn_depth"@,
        text::decimal(c.context.handoff_warn_depth as nat),
    )
}

/// All settings by key, without the keys of endpoints.
pub open spec fn all_settings(cfg: Config) -> Map<Seq<char>, Seq<char>> {
    let m = with_servers(
        with_endpoints(plain_settings(cfg@), cfg.endpoints.entries@),
        cfg.mcp.entries@,
    );
    match cfg@.update {
        Some(u) => m.insert("update.repo"@, u.repo).insert("update.mode"@, u.mode.name()),
        None => m,
    }
}

/// The lines of settings in the order of their keys.
pub open spec fn setting_lines(rows: Seq<(String, String)>) -> Seq<Seq<char>> {
    rows.map_values(|e: (String, String)| e.0@ + " = "@ + e.1@)
}

/// The key of a field.
fn make_key(group: &str, name: &str, field: &str) -> (r: String)
    ensures
        r@ == key_of(group@, name@, field@),
{
    group.to_string().concat(name).concat(field)
}

/// Adds the settings of endpoints.
fn add_endpoints(keys: &mut Table<String>, entries: &[(String, EndpointConfig)])
    requires
        old(keys).wf(),
    ensures
        final(keys).wf(),
        final(keys)@ == with_endpoints(old(keys)@, entries@),
{
    let ghost start = keys@;
    let mut i: usize = 0;
    proof {
        assert(entries@.take(0) =~= Seq::empty());
    }
    while i < entries.len()
        invariant
            i <= entries.len(),
            keys.wf(),
            keys@ == with_endpoints(start, entries@.take(i as int)),
        decreases entries.len() - i,
    {
        proof {
            assert(entries@.take(i + 1).drop_last() =~= entries@.take(i as int));
        }
        let name = &entries[i].0;
        let ep = &entries[i].1;
        keys.insert(make_key("endpoints.", name, ".url"), ep.url.clone());
        keys.insert(make_key("endpoints.", name, ".model"), ep.model.clone());
        keys.insert(
            make_key("endpoints.", name, ".context_tokens"),
            text::show(ep.context_tokens),
        );
        keys.insert(make_key("endpoints.", name, ".vision"), show_truth(ep.vision));
        keys.insert(make_key("endpoints.", name, ".thinking"), show_truth(ep.thinking));
        keys.insert(
            make_key("endpoints.", name, ".max_iterations"),
            text::show(ep.max_iterations as u64),
        );
        i = i + 1;
    }
    proof {
        assert(entries@.take(entries@.len() as int) =~= entries@);
    }
}

/// Adds the settings of servers.
fn add_servers(keys: &mut Table<String>, entries: &[(String, McpConfig)])
    requires
        old(keys).wf(),
    ensures
        final(keys).wf(),
        final(keys)@ == with_servers(old(keys)@, entries@),
{
    let ghost start = keys@;
    let mut i: usize = 0;
    proof {
        assert(entries@.take(0) =~= Seq::empty());
    }
    while i < entries.len()
        invariant
            i <= entries.len(),
            keys.wf(),
            keys@ == with_servers(start, entries@.take(i as int)),
        decreases entries.len() - i,
    {
        proof {
            assert(entries@.take(i + 1).drop_last() =~= entries@.take(i as int));
        }
        let name = &entries[i].0;
        let server = &entries[i].1;
        keys.insert(make_key("mcp.", name, ".command"), server.command.clone());
        keys.insert(make_key("mcp.", name, ".args"), text::join(&server.args, " "));
        i = i + 1;
    }
    proof {
        assert(entries@.take(entries@.len() as int) =~= entries@);
    }
}

/// The lines of all settings, in the order of their keys. The keys of endpoints
/// are not among them.
pub fn list(cfg: &Config) -> (r: Vec<String>)
    requires
        cfg.wf(),
    ensures
        exists|rows: Seq<(String, String)>|
            table::ascending(table::names_of(rows)) && table::contents(rows) == all_settings(*cfg)
                && text::views(r@) == #[trigger] setting_lines(rows),
{
    let mut keys: Table<String> = Table::new();
    keys.insert("version".to_string(), text::show(cfg.version as u64));
    match &cfg.active_endpoint {
        Some(name) => {
            keys.insert("active_endpoint".to_string(), name.clone());
        },
        None => {},
    }
    keys.insert(
        "handoff_threshold_pct".to_string(),
        text::show(cfg.context.handoff_threshold_pct as u64),
    );
    keys.insert(
        "max_handoff_depth".to_string(),
        text::show(cfg.context.max_handoff_depth as u64),
    );
    keys.insert(
        "handoff_warn_depth".to_string(),
        text::show(cfg.context.handoff_warn_depth as u64),
    );
    assert(keys@ == plain_settings(cfg@));
    add_endpoints(&mut keys, &cfg.endpoints.entries);
    add_servers(&mut keys, &cfg.mcp.entries);
    match &cfg.update {
        Some(u) => {
            keys.insert("update.repo".to_string(), u.repo.clone());
            keys.insert("update.mode".to_string(), u.mode.as_str().to_string());
        },
        None => {},
    }
    let rows = &keys.entries;
    let mut out: Vec<String> = Vec::new();
    let mut i: usize = 0;
    while i < rows.len()
        invariant
            i <= rows.len(),
            out@.len() == i,
            forall|k: int|
                0 <= k < i ==> (#[trigger] out@[k])@ == rows@[k].0@ + " = "@ + rows@[k].1@,
        decreases rows.len() - i,
    {
        let mut line = rows[i].0.clone();
        line.append(" = ");
        line.append(&rows[i].1);
        out.push(line);
        i = i + 1;
    }
    proof {
        assert(text::views(out@) =~= setting_lines(rows@));
        assert(keys@ == table::contents(rows@));
    }
    out
}

// ---------------------------------------------------------------------------
// Laws
// ---------------------------------------------------------------------------

/// Setting the active endpoint is read back, whatever it was before.
pub proof fn law_active_endpoint_is_read_back(c: ConfigModel, value: Seq<char>)
    ensures
        value_of(config_with(c, "active_endpoint"@, value), "active_endpoint"@) == Some(value),
{
    reveal_strlit("version");
    reveal_strlit("active_endpoint");
    assert("version"@.len() == 7);
    assert("active_endpoint"@.len() == 15);
}

/// A key that cannot be changed changes nothing.
pub proof fn law_other_keys_change_nothing(c: ConfigModel, key: Seq<char>, value: Seq<char>)
    requires
        !changeable(key),
    ensures
        config_with(c, key, value) == c,
{
}

/// Changing a setting never touches the endpoints and the servers.
pub proof fn law_endpoints_are_kept(c: ConfigModel, key: Seq<char>, value: Seq<char>)
    ensures
        config_with(c, key, value).endpoints == c.endpoints,
        config_with(c, key, value).mcp == c.mcp,
        config_with(c, key, value).version == c.version,
{
}

} // verus!
