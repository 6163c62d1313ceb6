//! Endpoints: registering them, changing them, and showing them without their
//! keys.
use vstd::prelude::*;

pub mod laws;
pub mod probe;

use crate::config::{Config, ConfigError, ConfigModel, EndpointConfig, EndpointModel};
use crate::table;
use crate::text;

verus! {

/// Why an operation on endpoints failed.
#[derive(Debug)]
pub enum EndpointError {
    /// There is no endpoint of that name.
    NotFound(String),
    /// A field could not be changed.
    InvalidField(String),
    /// The settings could not be saved.
    Config(ConfigError),
    /// A request failed.
    Http(String),
}

impl EndpointError {
    /// The message of the error.
    pub open spec fn text(self) -> Seq<char> {
        match self {
            EndpointError::NotFound(s) => "엔드포인트를 찾을 수 없습니다: "@ + s@,
            EndpointError::InvalidField(s) => "필드 수정 실패: "@ + s@,
            EndpointError::Config(e) => "설정 저장 실패: "@ + e.text(),
            EndpointError::Http(s) => "HTTP 오류: "@ + s@,
        }
    }

    /// The message of the error.
    pub fn message(&self) -> (r: String)
        ensures
            r@ == self.text(),
    {
        match self {
            EndpointError::NotFound(s) => "엔드포인트를 찾을 수 없습니다: ".to_string().concat(
                s.as_str(),
            ),
            EndpointError::InvalidField(s) => "필드 수정 실패: ".to_string().concat(s.as_str()),
            EndpointError::Config(e) => {
                let m = e.message();
                "설정 저장 실패: ".to_string().concat(m.as_str())
            },
            EndpointError::Http(s) => "HTTP 오류: ".to_string().concat(s.as_str()),
        }
    }
}

// ---------------------------------------------------------------------------
// Keys
// ---------------------------------------------------------------------------

/// A key as it is shown: its first four characters and nothing more, and not
/// even those of a key that has no more than four.
pub open spec fn masked(key: Seq<char>) -> Seq<char> {
    if key.len() == 0 {
        Seq::empty()
    } else if key.len() <= 4 {
        "****"@
    } else {
        key.take(4) + "…"@ + "********"@
    }
}

/// A key as it is shown.
pub fn mask_api_key(key: &str) -> (r: String)
    ensures
        r@ == masked(key@),
{
    let n: usize = key.unicode_len();
    if n == 0 {
        return String::new();
    }
    if n <= 4 {
        return "****".to_string();
    }
    let mut out = text::take_chars(key, 4).to_string();
    out.append("…");
    out.append("********");
    out
}

/// What stands for a key that is not to be changed.
pub const KEY_SENTINEL: &'static str = "********";

/// Whether a value has the form in which a key is shown.
pub open spec fn looks_masked(value: Seq<char>) -> bool {
    value == "****"@ || (value.len() == 13 && value.skip(4) == "…********"@)
}

/// Whether a value means that the key is not to be changed: it is empty, the
/// sentinel, or a masked key.
pub open spec fn keeps_key(value: Seq<char>) -> bool {
    value.len() == 0 || value == KEY_SENTINEL@ || looks_masked(value)
}

/// Whether a value means that the key is not to be changed.
pub fn is_key_sentinel(value: &str) -> (r: bool)
    ensures
        r == keeps_key(value@),
{
    if value.is_empty() || text::str_eq(value, KEY_SENTINEL) || text::str_eq(value, "****") {
        return true;
    }
    let v = text::chars_of(value);
    v.len() == 13 && text::str_eq(text::after(value, 4), "…********")
}

// ---------------------------------------------------------------------------
// Registering, removing, activating
// ---------------------------------------------------------------------------

/// What an endpoint is registered with.
#[derive(Debug, Clone)]
pub struct EndpointAddSpec {
    pub name: String,
    pub url: String,
    pub api_key: Option<String>,
    pub model: String,
    pub context_tokens: u64,
    pub vision: bool,
    pub thinking: bool,
}

/// The endpoint that a registration makes.
pub open spec fn registered(spec: EndpointAddSpec) -> EndpointModel {
    EndpointModel {
        url: spec.url@,
        api_key: text::opt_view(spec.api_key),
        model: spec.model@,
        context_tokens: spec.context_tokens,
        vision: spec.vision,
        thinking: spec.thinking,
        max_iterations: 200,
        reasoning_effort: None,
        input_price_per_mtok: None,
        output_price_per_mtok: None,
    }
}

/// Settings with an endpoint put under a name. The first endpoint becomes the
/// active one.
pub open spec fn with_endpoint(c: ConfigModel, name: Seq<char>, ep: EndpointModel) -> ConfigModel {
    ConfigModel {
        endpoints: c.endpoints.insert(name, ep),
        active_endpoint: match c.active_endpoint {
            Some(a) => Some(a),
            None => Some(name),
        },
        ..c
    }
}

/// Registers an endpoint, in place of the one that had its name.
pub fn add_endpoint(cfg: &mut Config, spec: &EndpointAddSpec) -> (r: Result<(), EndpointError>)
    requires
        old(cfg).wf(),
    ensures
        final(cfg).wf(),
        r is Ok,
        final(cfg)@ == with_endpoint(old(cfg)@, spec.name@, registered(*spec)),
{
    let ep = EndpointConfig {
        url: spec.url.clone(),
        api_key: text::clone_opt(&spec.api_key),
        model: spec.model.clone(),
        context_tokens: spec.context_tokens,
        vision: spec.vision,
        thinking: spec.thinking,
        max_iterations: 200,
        reasoning_effort: None,
        input_price_per_mtok: None,
        output_price_per_mtok: None,
    };
    put_endpoint(cfg, spec.name.clone(), ep);
    Ok(())
}

/// Puts an endpoint under a name.
pub fn put_endpoint(cfg: &mut Config, name: String, ep: EndpointConfig)
    requires
        old(cfg).wf(),
    ensures
        final(cfg).wf(),
        final(cfg)@ == with_endpoint(old(cfg)@, name@, ep@),
{
    if cfg.active_endpoint.is_none() {
        cfg.active_endpoint = Some(name.clone());
    }
    cfg.endpoints.insert(name, ep);
}

/// Settings without an endpoint. If it was the active one, none is.
pub open spec fn without_endpoint(c: ConfigModel, name: Seq<char>) -> ConfigModel {
    ConfigModel {
        endpoints: c.endpoints.remove(name),
        active_endpoint: if c.active_endpoint == Some(name) {
            None
        } else {
            c.active_endpoint
        },
        ..c
    }
}

/// Whether an optional name is the given one.
fn is_name(a: &Option<String>, name: &str) -> (r: bool)
    ensures
        r == (text::opt_view(*a) == Some(name@)),
{
    match a {
        Some(s) => text::str_eq(s.as_str(), name),
        None => false,
    }
}

/// Removes an endpoint.
pub fn remove_endpoint(cfg: &mut Config, name: &str) -> (r: Result<(), EndpointError>)
    requires
        old(cfg).wf(),
    ensures
        final(cfg).wf(),
        match r {
            Ok(_) => old(cfg)@.endpoints.dom().contains(name@) && final(cfg)@ == without_endpoint(
                old(cfg)@,
                name@,
            ),
            Err(e) => !old(cfg)@.endpoints.dom().contains(name@) && final(cfg)@ == old(cfg)@ && (e
                matches EndpointError::NotFound(n) && n@ == name@),
        },
{
    match cfg.endpoints.remove(name) {
        None => {
            proof {
                assert(old(cfg)@.endpoints.remove(name@) =~= old(cfg)@.endpoints);
            }
            return Err(EndpointError::NotFound(name.to_string()));
        },
        Some(_) => {},
    }
    if is_name(&cfg.active_endpoint, name) {
        cfg.active_endpoint = None;
    }
    Ok(())
}

/// Makes an endpoint the active one.
pub fn use_endpoint(cfg: &mut Config, name: &str) -> (r: Result<(), EndpointError>)
    requires
        old(cfg).wf(),
    ensures
        final(cfg).wf(),
        match r {
            Ok(_) => old(cfg)@.endpoints.dom().contains(name@) && final(cfg)@ == (ConfigModel {
                active_endpoint: Some(name@),
                ..old(cfg)@
            }),
            Err(e) => !old(cfg)@.endpoints.dom().contains(name@) && final(cfg)@ == old(cfg)@ && (e
                matches EndpointError::NotFound(n) && n@ == name@),
        },
{
    if !cfg.endpoints.contains_key(name) {
        return Err(EndpointError::NotFound(name.to_string()));
    }
    cfg.active_endpoint = Some(name.to_string());
    Ok(())
}

// ---------------------------------------------------------------------------
// Changing a field
// ---------------------------------------------------------------------------

/// An endpoint with a field set from text, or why it cannot be.
pub open spec fn with_field(ep: EndpointModel, field: Seq<char>, value: Seq<char>) -> Result<
    EndpointModel,
    Seq<char>,
> {
    if field == "url"@ {
        Ok(EndpointModel { url: value, ..ep })
    } else if field == "model"@ {
        Ok(EndpointModel { model: value, ..ep })
    } else if field == "context_tokens"@ {
        match text::parsed_number(value, u64::MAX as nat) {
            Some(n) => Ok(EndpointModel { context_tokens: n as u64, ..ep }),
            None => Err("context_tokens 는 숫자여야 합니다"@),
        }
    } else if field == "vision"@ {
        Ok(EndpointModel { vision: value == "true"@, ..ep })
    } else if field == "thinking"@ {
        Ok(EndpointModel { thinking: value == "true"@, ..ep })
    } else if field == "max_iterations"@ {
        match text::parsed_number(value, u32::MAX as nat) {
            Some(n) => Ok(EndpointModel { max_iterations: n as u32, ..ep }),
            None => Err("max_iterations 는 숫자여야 합니다"@),
        }
    } else if field == "api_key"@ || field == "key"@ {
        if keeps_key(value) {
            Ok(ep)
        } else {
            Ok(EndpointModel { api_key: Some(value), ..ep })
        }
    } else {
        Err("지원하지 않는 필드입니다: "@ + field)
    }
}

/// Sets a field of an endpoint from text.
fn set_field(ep: EndpointConfig, field: &str, value: &str) -> (r: (EndpointConfig, Option<String>))
    ensures
        match with_field(ep@, field@, value@) {
            Ok(m) => r.0@ == m && r.1 is None,
            Err(e) => r.0@ == ep@ && text::opt_view(r.1) == Some(e),
        },
{
    let mut ep = ep;
    if text::str_eq(field, "url") {
        ep.url = value.to_string();
    } else if text::str_eq(field, "model") {
        ep.model = value.to_string();
    } else if text::str_eq(field, "context_tokens") {
        match text::parse_number(value, u64::MAX) {
            Some(n) => {
                ep.context_tokens = n;
            },
            None => {
                return (ep, Some("context_tokens 는 숫자여야 합니다".to_string()));
            },
        }
    } else if text::str_eq(field, "vision") {
        ep.vision = text::str_eq(value, "true");
    } else if text::str_eq(field, "thinking") {
        ep.thinking = text::str_eq(value, "true");
    } else if text::str_eq(field, "max_iterations") {
        match text::parse_number(value, u32::MAX as u64) {
            Some(n) => {
                ep.max_iterations = n as u32;
            },
            None => {
                return (ep, Some("max_iterations 는 숫자여야 합니다".to_string()));
            },
        }
    } else if text::str_eq(field, "api_key") || text::str_eq(field, "key") {
        if !is_key_sentinel(value) {
            ep.api_key = Some(value.to_string());
        }
    } else {
        return (ep, Some("지원하지 않는 필드입니다: ".to_string().concat(field)));
    }
    (ep, None)
}

/// Changes a field of an endpoint. A key that is blank or masked is left as it
/// is.
pub fn set_endpoint_field(cfg: &mut Config, name: &str, field: &str, value: &str) -> (r: Result<
    (),
    EndpointError,
>)
    requires
        old(cfg).wf(),
    ensures
        final(cfg).wf(),
        if !old(cfg)@.endpoints.dom().contains(name@) {
            &&& final(cfg)@ == old(cfg)@
            &&& r matches Err(EndpointError::NotFound(n)) && n@ == name@
        } else {
            match with_field(old(cfg)@.endpoints[name@], field@, value@) {
                Ok(ep) => r is Ok && final(cfg)@ == (ConfigModel {
                    endpoints: old(cfg)@.endpoints.insert(name@, ep),
                    ..old(cfg)@
                }),
                Err(e) => final(cfg)@ == old(cfg)@ && (r matches Err(
                    EndpointError::InvalidField(m),
                ) && m@ == e),
            }
        },
{
    let ghost eps = cfg@.endpoints;
    match cfg.endpoints.remove(name) {
        None => {
            proof {
                assert(eps.remove(name@) =~= eps);
            }
            Err(EndpointError::NotFound(name.to_string()))
        },
        Some(ep) => {
            let (ep, error) = set_field(ep, field, value);
            cfg.endpoints.insert(name.to_string(), ep);
            proof {
                assert(eps.remove(name@).insert(name@, ep@) =~= eps.insert(name@, ep@));
            }
            match error {
                None => Ok(()),
                Some(e) => {
                    proof {
                        assert(eps.insert(name@, ep@) =~= eps);
                    }
                    Err(EndpointError::InvalidField(e))
                },
            }
        },
    }
}

// ---------------------------------------------------------------------------
// Listing
// ---------------------------------------------------------------------------

/// An endpoint as it is listed.
#[derive(Debug)]
pub struct EndpointRow {
    pub name: String,
    pub url: String,
    pub api_key_masked: String,
    pub model: String,
    pub context_tokens: u64,
    pub active: bool,
}

/// The model of an endpoint as it is listed.
pub struct RowModel {
    pub name: Seq<char>,
    pub url: Seq<char>,
    pub api_key_masked: Seq<char>,
    pub model: Seq<char>,
    pub context_tokens: u64,
    pub active: bool,
}

impl View for EndpointRow {
    type V = RowModel;

    open spec fn view(&self) -> RowModel {
        RowModel {
            name: self.name@,
            url: self.url@,
            api_key_masked: self.api_key_masked@,
            model: self.model@,
            context_tokens: self.context_tokens,
            active: self.active,
        }
    }
}

/// An endpoint as it is listed: its key is masked.
pub open spec fn row_of(name: Seq<char>, ep: EndpointModel, active: Option<Seq<char>>) -> RowModel {
    RowModel {
        name,
        url: ep.url,
        api_key_masked: match ep.api_key {
            Some(k) => masked(k),
            None => Seq::empty(),
        },
        model: ep.model,
        context_tokens: ep.context_tokens,
        active: active == Some(name),
    }
}

/// The endpoints as they are listed, in the order of their names.
pub open spec fn rows_of(
    names: Seq<Seq<char>>,
    endpoints: Map<Seq<char>, EndpointModel>,
    active: Option<Seq<char>>,
) -> Seq<RowModel> {
    names.map_values(|name: Seq<char>| row_of(name, endpoints[name], active))
}

/// Lists the endpoints in the order of their names, with masked keys.
pub fn list_endpoints(cfg: &Config) -> (r: Vec<EndpointRow>)
    requires
        cfg.wf(),
    ensures
        r@.map_values(|row: EndpointRow| row@) == rows_of(
            cfg.endpoints.names(),
            cfg@.endpoints,
            cfg@.active_endpoint,
        ),
{
    let mut rows: Vec<EndpointRow> = Vec::new();
    let ghost want = rows_of(cfg.endpoints.names(), cfg@.endpoints, cfg@.active_endpoint);
    let entries = &cfg.endpoints.entries;
    let mut i: usize = 0;
    while i < entries.len()
        invariant
            i <= entries.len(),
            cfg.wf(),
            *entries == cfg.endpoints.entries,
            want == rows_of(cfg.endpoints.names(), cfg@.endpoints, cfg@.active_endpoint),
            rows.len() == i,
            forall|k: int| 0 <= k < i ==> (#[trigger] rows@[k])@ == want[k],
        decreases entries.len() - i,
    {
        let name = &entries[i].0;
        let ep = &entries[i].1;
        proof {
            table::lemma_contents_at(entries@, i as int);
            assert(cfg.endpoints.names()[i as int] == name@);
        }
        let row = EndpointRow {
            name: name.clone(),
            url: ep.url.clone(),
            api_key_masked: match &ep.api_key {
                Some(k) => mask_api_key(k.as_str()),
                None => String::new(),
            },
            model: ep.model.clone(),
            context_tokens: ep.context_tokens,
            active: is_name(&cfg.active_endpoint, name.as_str()),
        };
        proof {
            assert(row@ == want[i as int]);
        }
        rows.push(row);
        i = i + 1;
    }
    proof {
        assert(rows@.map_values(|row: EndpointRow| row@) =~= want);
    }
    rows
}

/// The name of the active endpoint.
pub fn active_endpoint_name(cfg: &Config) -> (r: Option<&str>)
    ensures
        (match r {
            Some(s) => Some(s@),
            None => None,
        }) == cfg@.active_endpoint,
{
    match &cfg.active_endpoint {
        Some(s) => Some(s.as_str()),
        None => None,
    }
}

// ---------------------------------------------------------------------------
// Correcting the context size
// ---------------------------------------------------------------------------

/// Settings with the context size of an endpoint corrected, where a size is
/// known and the endpoint too.
pub open spec fn corrected(c: ConfigModel, name: Seq<char>, size: Option<u64>) -> ConfigModel {
    match size {
        Some(n) if c.endpoints.dom().contains(name) => ConfigModel {
            endpoints: c.endpoints.insert(
                name,
                EndpointModel { context_tokens: n, ..c.endpoints[name] },
            ),
            ..c
        },
        _ => c,
    }
}

/// Corrects the context size of an endpoint, and gives the size where it did.
pub fn correct_context(cfg: &mut Config, name: &str, size: Option<u64>) -> (r: Option<u64>)
    requires
        old(cfg).wf(),
    ensures
        final(cfg).wf(),
        final(cfg)@ == corrected(old(cfg)@, name@, size),
        r == (if old(cfg)@.endpoints.dom().contains(name@) {
            size
        } else {
            None
        }),
{
    let ghost eps = cfg@.endpoints;
    match size {
        Some(n) => match cfg.endpoints.remove(name) {
            Some(ep) => {
                let mut ep = ep;
                ep.context_tokens = n;
                cfg.endpoints.insert(name.to_string(), ep);
                proof {
                    assert(eps.remove(name@).insert(name@, ep@) =~= eps.insert(name@, ep@));
                }
                Some(n)
            },
            None => {
                proof {
                    assert(eps.remove(name@) =~= eps);
                }
                None
            },
        },
        None => None,
    }
}

/// Corrects the context size of an endpoint by the body of an error that names
/// it.
pub fn apply_runtime_correction(cfg: &mut Config, name: &str, err_body: &str) -> (r: Option<u64>)
    requires
        old(cfg).wf(),
    ensures
        final(cfg).wf(),
        final(cfg)@ == corrected(old(cfg)@, name@, probe::context_in_error(err_body@)),
        r == (if old(cfg)@.endpoints.dom().contains(name@) {
            probe::context_in_error(err_body@)
        } else {
            None
        }),
{
    let size = probe::parse_context_from_error(err_body);
    correct_context(cfg, name, size)
}

// ---------------------------------------------------------------------------
// Laws
// ---------------------------------------------------------------------------

/// A masked key shows four characters at most: keys with the same first four
/// characters, and more than that, look the same.
pub proof fn law_mask_hides_the_rest(a: Seq<char>, b: Seq<char>)
    requires
        a.len() > 4,
        b.len() > 4,
        a.take(4) == b.take(4),
    ensures
        masked(a) == masked(b),
{
}

/// A key is shown in a form that is known as such, and what has this form can
/// be what is shown of a key.
proof fn lemma_masked_form(value: Seq<char>)
    ensures
        masked(value).len() == 0 || looks_masked(masked(value)),
        looks_masked(value) ==> masked(value) == value,
{
    reveal_strlit("****");
    reveal_strlit("…");
    reveal_strlit("********");
    reveal_strlit("…********");
    assert("…"@ + "********"@ =~= "…********"@);
    if value.len() > 4 {
        assert(masked(value).skip(4) =~= "…********"@);
    }
    if looks_masked(value) && value.len() == 13 {
        assert(value =~= value.take(4) + value.skip(4));
        assert(masked(value) =~= value.take(4) + ("…"@ + "********"@));
    }
}

/// What is shown for a key never overwrites one: setting the key of an endpoint
/// to any key as it is shown, to the sentinel or to nothing leaves the endpoint
/// as it is.
pub proof fn law_masked_key_is_no_change(ep: EndpointModel, key: Seq<char>)
    ensures
        with_field(ep, "api_key"@, masked(key)) == Ok::<EndpointModel, Seq<char>>(ep),
        with_field(ep, "key"@, masked(key)) == Ok::<EndpointModel, Seq<char>>(ep),
        with_field(ep, "api_key"@, KEY_SENTINEL@) == Ok::<EndpointModel, Seq<char>>(ep),
        with_field(ep, "api_key"@, Seq::empty()) == Ok::<EndpointModel, Seq<char>>(ep),
{
    lemma_masked_form(key);
    reveal_strlit("key");
    assert("key"@.len() == 3);
    assert("key"@[0] == 'k');
    assert("url"@[0] == 'u') by {
        reveal_strlit("url");
    }
    reveal_strlit("api_key");
    reveal_strlit("url");
    reveal_strlit("model");
    reveal_strlit("context_tokens");
    reveal_strlit("vision");
    reveal_strlit("thinking");
    reveal_strlit("max_iterations");
    assert("api_key"@.len() == 7);
    assert("url"@.len() == 3);
    assert("model"@.len() == 5);
    assert("context_tokens"@.len() == 14);
    assert("vision"@.len() == 6);
    assert("thinking"@.len() == 8);
    assert("max_iterations"@.len() == 14);
}

/// Removing an endpoint that was just registered gives back the endpoints that
/// were there without it, and it is never left active.
pub proof fn law_remove_undoes_add(c: ConfigModel, name: Seq<char>, ep: EndpointModel)
    requires
        !c.endpoints.dom().contains(name),
    ensures
        without_endpoint(with_endpoint(c, name, ep), name).endpoints == c.endpoints,
        without_endpoint(with_endpoint(c, name, ep), name).active_endpoint != Some(name),
        c.active_endpoint != Some(name) ==> without_endpoint(with_endpoint(c, name, ep), name)
            == c,
{
    assert(c.endpoints.insert(name, ep).remove(name) =~= c.endpoints);
}

} // verus!
