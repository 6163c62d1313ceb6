//! Finding out the size of an endpoint's context.
//!
//! A size that was set by hand comes first. Otherwise the endpoint is asked in
//! the ways of the servers that are known: the extended fields of its list of
//! models, the properties of llama.cpp, and the model information of Ollama.
//! `probe_context` begins and `probe_chain` goes on after each reply; whoever
//! probes sends the requests.
use vstd::prelude::*;

use crate::config::{EndpointConfig, EndpointModel};
use crate::json;
use crate::json::{Json, JsonModel};
use crate::llm;
use crate::text;

verus! {

/// What a test of an endpoint came to.
#[derive(Debug, Clone, PartialEq, Eq)]
pub enum ProbeOutcome {
    /// The endpoint answered with success.
    Success,
    /// The endpoint answered with an error status and a body.
    HttpError(u16, String),
}

/// Whether an HTTP status means success.
pub open spec fn success(status: u16) -> bool {
    200 <= status <= 299
}

/// Judges the reply to a test of an endpoint.
pub fn test_endpoint(status: u16, body: String) -> (r: ProbeOutcome)
    ensures
        success(status) ==> r is Success,
        !success(status) ==> (r matches ProbeOutcome::HttpError(s, b) && s == status && b@ == body@),
{
    if 200 <= status && status <= 299 {
        ProbeOutcome::Success
    } else {
        ProbeOutcome::HttpError(status, body)
    }
}

/// The size of a context and where it was found.
#[derive(Debug)]
pub struct ProbeReport {
    pub context_tokens: u64,
    pub source: String,
}

/// The model of a size and where it was found.
pub struct FoundModel {
    pub context_tokens: u64,
    pub source: Seq<char>,
}

impl View for ProbeReport {
    type V = FoundModel;

    open spec fn view(&self) -> FoundModel {
        FoundModel { context_tokens: self.context_tokens, source: self.source@ }
    }
}

/// A way of asking for the size of a context.
#[derive(Debug, Clone, Copy, PartialEq, Eq, Structural)]
pub enum ProbeStage {
    Models,
    Props,
    Ollama,
}

/// What came back from asking.
pub enum ProbeReply {
    /// The request failed, or its body was no JSON.
    Failed,
    /// The server answered with an error status.
    Refused,
    /// The body of the answer.
    Body(Json),
}

/// What a reply means for probing, by its status and its body: one without
/// success is refused, and one whose body is no JSON has failed.
pub fn read_reply(status: u16, body: &str) -> (r: ProbeReply)
    ensures
        !success(status) ==> r is Refused,
        success(status) ==> match json::json_parse(body@) {
            Some(j) => r matches ProbeReply::Body(b) && b@ == j,
            None => r is Failed,
        },
{
    if status < 200 || status > 299 {
        return ProbeReply::Refused;
    }
    match Json::parse(body) {
        Some(j) => ProbeReply::Body(j),
        None => ProbeReply::Failed,
    }
}

/// What is done next in probing.
pub enum ProbeStep {
    /// The address is asked.
    Ask(ProbeStage, String),
    /// The probing has ended.
    Done(ProbeReport),
}

// ---------------------------------------------------------------------------
// Addresses
// ---------------------------------------------------------------------------

/// The address of the list of models.
pub open spec fn models_address(base: Seq<char>) -> Seq<char> {
    llm::without_slashes(base) + "/models"@
}

/// The address of the list of models.
pub fn models_url(base: &str) -> (r: String)
    ensures
        r@ == models_address(base@),
{
    let mut out = llm::trim_slashes(base).to_string();
    out.append("/models");
    out
}

/// A text without the version steps at its end.
pub open spec fn without_version(s: Seq<char>) -> Seq<char>
    decreases s.len(),
{
    if "/v1"@.is_suffix_of(s) && s.len() >= 3 {
        without_version(s.take(s.len() - 3))
    } else {
        s
    }
}

/// The address of the properties, beside the versioned interface.
pub open spec fn props_address(base: Seq<char>) -> Seq<char> {
    without_version(llm::without_slashes(base)) + "/props"@
}

/// The address of the properties.
pub fn props_url(base: &str) -> (r: String)
    ensures
        r@ == props_address(base@),
{
    let mut s = llm::trim_slashes(base);
    proof {
        reveal_strlit("/v1");
    }
    while text::ends_with(s, "/v1")
        invariant
            "/v1"@.len() == 3,
            without_version(s@) == without_version(llm::without_slashes(base@)),
        decreases s@.len(),
    {
        let n: usize = s.unicode_len();
        let t = text::slice(s, 0, n - 3);
        proof {
            assert(s@.subrange(0, n - 3) =~= s@.take(n - 3));
        }
        s = t;
    }
    let mut out = s.to_string();
    out.append("/props");
    out
}

/// The scheme and the host of an address.
pub open spec fn host_of(url: Seq<char>) -> Option<Seq<char>> {
    match text::find(url, "://"@) {
        Some(i) => {
            let after = url.skip(i + 3);
            let part = match text::find(after, "://"@) {
                Some(j) => after.take(j),
                None => after,
            };
            let host = match text::find(part, "/"@) {
                Some(k) => part.take(k),
                None => part,
            };
            Some(url.take(i) + "://"@ + host)
        },
        None => None,
    }
}

/// What stands before the first occurrence of a pattern, or all of a text.
fn up_to<'a>(s: &'a str, pat: &str) -> (r: &'a str)
    ensures
        r@ == (match text::find(s@, pat@) {
            Some(j) => s@.take(j),
            None => s@,
        }),
{
    let v = text::chars_of(s);
    let p = text::chars_of(pat);
    match text::search(&v, &p, 0) {
        Some(j) => {
            let r = text::slice(s, 0, j);
            proof {
                assert(s@.subrange(0, j as int) =~= s@.take(j as int));
            }
            r
        },
        None => s,
    }
}

/// The scheme and the host of an address.
pub fn extract_host(url: &str) -> (r: Option<String>)
    ensures
        text::opt_view(r) == host_of(url@),
{
    let v = text::chars_of(url);
    let p = text::chars_of("://");
    proof {
        reveal_strlit("://");
    }
    match text::search(&v, &p, 0) {
        Some(i) => {
            let n: usize = v.len();
            let after = text::slice(url, i + 3, n);
            proof {
                assert(url@.subrange(i + 3, n as int) =~= url@.skip(i + 3));
                assert(url@.subrange(0, i as int) =~= url@.take(i as int));
            }
            let part = up_to(after, "://");
            let host = up_to(part, "/");
            let mut out = text::slice(url, 0, i).to_string();
            out.append("://");
            out.append(host);
            Some(out)
        },
        None => None,
    }
}

/// The address of the model information.
pub open spec fn ollama_address(base: Seq<char>, model: Seq<char>) -> Seq<char> {
    let b = llm::without_slashes(base);
    (match host_of(b) {
        Some(h) => h,
        None => b,
    }) + "/api/show?model="@ + model
}

/// The address of the model information.
pub fn ollama_url(base: &str, model: &str) -> (r: String)
    ensures
        r@ == ollama_address(base@, model@),
{
    let b = llm::trim_slashes(base);
    let mut out = match extract_host(b) {
        Some(h) => h,
        None => b.to_string(),
    };
    out.append("/api/show?model=");
    out.append(model);
    out
}

// ---------------------------------------------------------------------------
// Reading the replies
// ---------------------------------------------------------------------------

/// The unsigned number of a member of a value.
pub open spec fn number_at(j: JsonModel, key: Seq<char>) -> Option<u64> {
    match j.field(key) {
        Some(v) => v.unsigned(),
        None => None,
    }
}

/// The unsigned number of a member of a member of a value.
pub open spec fn number_below(j: JsonModel, outer: Seq<char>, key: Seq<char>) -> Option<u64> {
    match j.field(outer) {
        Some(m) => number_at(m, key),
        None => None,
    }
}

fn get_number(j: &Json, key: &str) -> (r: Option<u64>)
    ensures
        r == number_at(j@, key@),
{
    match j.get(key) {
        Some(v) => v.as_u64(),
        None => None,
    }
}

fn get_number_below(j: &Json, outer: &str, key: &str) -> (r: Option<u64>)
    ensures
        r == number_below(j@, outer@, key@),
{
    match j.get(outer) {
        Some(m) => get_number(m, key),
        None => None,
    }
}

/// A size found at an address, and the field that held it.
pub open spec fn found(n: u64, url: Seq<char>, field: Seq<char>) -> FoundModel {
    FoundModel { context_tokens: n, source: url + field }
}

fn report(n: u64, url: &str, field: &str) -> (r: ProbeReport)
    ensures
        r@ == found(n, url@, field@),
{
    let mut source = url.to_string();
    source.append(field);
    ProbeReport { context_tokens: n, source }
}

/// The view of an optional report.
pub open spec fn report_view(r: Option<ProbeReport>) -> Option<FoundModel> {
    match r {
        Some(p) => Some(p@),
        None => None,
    }
}

/// The size that an item of the list of models gives.
pub open spec fn size_in_item(item: JsonModel, url: Seq<char>) -> Option<FoundModel> {
    if number_at(item, "max_model_len"@) is Some {
        Some(found(number_at(item, "max_model_len"@)->0, url, " data[].max_model_len"@))
    } else if number_below(item, "meta"@, "n_ctx"@) is Some {
        Some(found(number_below(item, "meta"@, "n_ctx"@)->0, url, " data[].meta.n_ctx"@))
    } else if number_at(item, "max_context_length"@) is Some {
        Some(found(number_at(item, "max_context_length"@)->0, url, " data[].max_context_length"@))
    } else {
        None
    }
}

fn item_size(item: &Json, url: &str) -> (r: Option<ProbeReport>)
    ensures
        report_view(r) == size_in_item(item@, url@),
{
    match get_number(item, "max_model_len") {
        Some(n) => {
            return Some(report(n, url, " data[].max_model_len"));
        },
        None => {},
    }
    match get_number_below(item, "meta", "n_ctx") {
        Some(n) => {
            return Some(report(n, url, " data[].meta.n_ctx"));
        },
        None => {},
    }
    match get_number(item, "max_context_length") {
        Some(n) => Some(report(n, url, " data[].max_context_length")),
        None => None,
    }
}

/// Whether an item of the list of models is the given model.
pub open spec fn is_model(item: JsonModel, model: Seq<char>) -> bool {
    match item.field("id"@) {
        Some(v) => v.text() == Some(model),
        None => false,
    }
}

fn item_is_model(item: &Json, model: &str) -> (r: bool)
    ensures
        r == is_model(item@, model@),
{
    match item.get("id") {
        Some(v) => match v.as_str() {
            Some(s) => text::str_eq(s, model),
            None => false,
        },
        None => false,
    }
}

/// The first size that items give, from `i` on. Only items of the given model
/// count, if it is given.
pub open spec fn first_size(
    items: Seq<JsonModel>,
    i: int,
    only: Option<Seq<char>>,
    url: Seq<char>,
) -> Option<FoundModel>
    decreases items.len() - i,
{
    if i >= items.len() {
        None
    } else {
        let counts = match only {
            Some(m) => is_model(items[i], m),
            None => true,
        };
        if counts && size_in_item(items[i], url) is Some {
            size_in_item(items[i], url)
        } else {
            first_size(items, i + 1, only, url)
        }
    }
}

/// The size that a list of models gives for a model: that of the items with
/// its name, or of any item where none has its name.
pub open spec fn size_in_models(body: JsonModel, model: Seq<char>, url: Seq<char>) -> Option<
    FoundModel,
> {
    match body.field("data"@) {
        Some(JsonModel::Array(items)) => if exists|i: int|
            0 <= i < items.len() && is_model(#[trigger] items[i], model) {
            first_size(items, 0, Some(model), url)
        } else {
            first_size(items, 0, None, url)
        },
        _ => None,
    }
}

fn search_items(items: &Vec<Json>, only: Option<&str>, url: &str) -> (r: Option<ProbeReport>)
    ensures
        report_view(r) == first_size(
            Json::items(items@),
            0,
            match only {
                Some(m) => Some(m@),
                None => None,
            },
            url@,
        ),
{
    let ghost all = Json::items(items@);
    let ghost o = match only {
        Some(m) => Some(m@),
        None => None,
    };
    let mut i: usize = 0;
    while i < items.len()
        invariant
            i <= items.len(),
            all == Json::items(items@),
            o == (match only {
                Some(m) => Some(m@),
                None => None,
            }),
            first_size(all, i as int, o, url@) == first_size(all, 0, o, url@),
        decreases items.len() - i,
    {
        let item = &items[i];
        proof {
            assert(all[i as int] == item@);
        }
        let counts = match only {
            Some(m) => item_is_model(item, m),
            None => true,
        };
        if counts {
            let found = item_size(item, url);
            if found.is_some() {
                return found;
            }
        }
        i = i + 1;
    }
    None
}

/// Reads the size for a model from a list of models.
pub fn probe_models(body: &Json, model: &str, url: &str) -> (r: Option<ProbeReport>)
    ensures
        report_view(r) == size_in_models(body@, model@, url@),
{
    match body.get("data") {
        Some(data) => match data.as_array() {
            Some(items) => {
                let ghost all = Json::items(items@);
                let mut named = false;
                let mut i: usize = 0;
                while i < items.len()
                    invariant
                        i <= items.len(),
                        all == Json::items(items@),
                        named == exists|k: int| 0 <= k < i && is_model(#[trigger] all[k], model@),
                    decreases items.len() - i,
                {
                    let hit = item_is_model(&items[i], model);
                    proof {
                        assert(all[i as int] == items@[i as int]@);
                        if hit {
                            assert(is_model(all[i as int], model@));
                        }
                    }
                    if hit {
                        named = true;
                    }
                    i = i + 1;
                }
                if named {
                    search_items(items, Some(model), url)
                } else {
                    search_items(items, None, url)
                }
            },
            None => None,
        },
        None => None,
    }
}

/// The size that the properties of a server give.
pub open spec fn size_in_props(body: JsonModel, url: Seq<char>) -> Option<FoundModel> {
    if number_below(body, "default_generation_settings"@, "n_ctx"@) is Some {
        Some(
            found(
                number_below(body, "default_generation_settings"@, "n_ctx"@)->0,
                url,
                " default_generation_settings.n_ctx"@,
            ),
        )
    } else if number_at(body, "n_ctx"@) is Some {
        Some(found(number_at(body, "n_ctx"@)->0, url, " n_ctx"@))
    } else {
        None
    }
}

/// Reads the size from the properties of a server.
pub fn probe_props(body: &Json, url: &str) -> (r: Option<ProbeReport>)
    ensures
        report_view(r) == size_in_props(body@, url@),
{
    match get_number_below(body, "default_generation_settings", "n_ctx") {
        Some(n) => {
            return Some(report(n, url, " default_generation_settings.n_ctx"));
        },
        None => {},
    }
    match get_number(body, "n_ctx") {
        Some(n) => Some(report(n, url, " n_ctx")),
        None => None,
    }
}

/// The first size among members from `i` on: that of one whose name speaks of
/// a context length and whose value is a number.
pub open spec fn size_in_members(
    members: Seq<(Seq<char>, JsonModel)>,
    i: int,
    url: Seq<char>,
) -> Option<FoundModel>
    decreases members.len() - i,
{
    if i >= members.len() {
        None
    } else if text::contains(members[i].0, "context_length"@) && members[i].1.unsigned() is Some {
        Some(found(members[i].1.unsigned()->0, url, " model_info."@ + members[i].0))
    } else {
        size_in_members(members, i + 1, url)
    }
}

/// The size that the information on a model gives.
pub open spec fn size_in_info(body: JsonModel, url: Seq<char>) -> Option<FoundModel> {
    match body.field("model_info"@) {
        Some(JsonModel::Object(members)) => size_in_members(members, 0, url),
        _ => None,
    }
}

/// Reads the size from the information on a model.
pub fn probe_ollama(body: &Json, url: &str) -> (r: Option<ProbeReport>)
    ensures
        report_view(r) == size_in_info(body@, url@),
{
    match body.get("model_info") {
        Some(info) => match info.as_object() {
            Some(v) => {
                let ghost all = Json::members(v@);
                let mut i: usize = 0;
                while i < v.len()
                    invariant
                        i <= v.len(),
                        all == Json::members(v@),
                        size_in_members(all, i as int, url@) == size_in_info(body@, url@),
                    decreases v.len() - i,
                {
                    proof {
                        assert(all[i as int] == (v@[i as int].0@, v@[i as int].1@));
                    }
                    if text::has(v[i].0.as_str(), "context_length") {
                        match v[i].1.as_u64() {
                            Some(n) => {
                                let field = " model_info.".to_string().concat(v[i].0.as_str());
                                return Some(report(n, url, field.as_str()));
                            },
                            None => {},
                        }
                    }
                    i = i + 1;
                }
                None
            },
            None => None,
        },
        None => None,
    }
}

// ---------------------------------------------------------------------------
// The chain
// ---------------------------------------------------------------------------

/// What is used where nothing gives a size.
pub open spec fn fallback() -> FoundModel {
    FoundModel { context_tokens: 32768, source: "fallback 32768"@ }
}

/// The address that a stage asks.
pub open spec fn stage_address(ep: EndpointModel, stage: ProbeStage) -> Seq<char> {
    match stage {
        ProbeStage::Models => models_address(ep.url),
        ProbeStage::Props => props_address(ep.url),
        ProbeStage::Ollama => ollama_address(ep.url, ep.model),
    }
}

/// The size that the reply to a stage gives.
pub open spec fn size_in_reply(ep: EndpointModel, stage: ProbeStage, body: JsonModel) -> Option<
    FoundModel,
> {
    let url = stage_address(ep, stage);
    match stage {
        ProbeStage::Models => size_in_models(body, ep.model, url),
        ProbeStage::Props => size_in_props(body, url),
        ProbeStage::Ollama => size_in_info(body, url),
    }
}

/// The stage that follows a stage.
pub open spec fn stage_after(stage: ProbeStage) -> Option<ProbeStage> {
    match stage {
        ProbeStage::Models => Some(ProbeStage::Props),
        ProbeStage::Props => Some(ProbeStage::Ollama),
        ProbeStage::Ollama => None,
    }
}

/// Whether a step asks what a stage asks.
pub open spec fn asks(step: ProbeStep, ep: EndpointModel, stage: ProbeStage) -> bool {
    step matches ProbeStep::Ask(s, url) && s == stage && url@ == stage_address(ep, stage)
}

/// Whether a step ends the probing with a result.
pub open spec fn ends_with(step: ProbeStep, result: FoundModel) -> bool {
    step matches ProbeStep::Done(p) && p@ == result
}

fn ask(ep: &EndpointConfig, stage: ProbeStage) -> (r: ProbeStep)
    ensures
        asks(r, ep@, stage),
{
    let url = match stage {
        ProbeStage::Models => models_url(ep.url.as_str()),
        ProbeStage::Props => props_url(ep.url.as_str()),
        ProbeStage::Ollama => ollama_url(ep.url.as_str(), ep.model.as_str()),
    };
    ProbeStep::Ask(stage, url)
}

fn give_up() -> (r: ProbeStep)
    ensures
        ends_with(r, fallback()),
{
    ProbeStep::Done(
        ProbeReport { context_tokens: 32768, source: "fallback 32768".to_string() },
    )
}

/// Begins to probe: a size that was set by hand is taken, and otherwise the
/// list of models is asked for.
pub fn probe_context(ep: &EndpointConfig) -> (r: ProbeStep)
    ensures
        if ep.context_tokens > 0 {
            ends_with(
                r,
                FoundModel {
                    context_tokens: ep.context_tokens,
                    source: "manual context_tokens"@,
                },
            )
        } else {
            asks(r, ep@, ProbeStage::Models)
        },
{
    if ep.context_tokens > 0 {
        return ProbeStep::Done(
            ProbeReport {
                context_tokens: ep.context_tokens,
                source: "manual context_tokens".to_string(),
            },
        );
    }
    ask(ep, ProbeStage::Models)
}

/// Goes on after a reply: a size that it gives is taken, a failed request ends
/// the probing, and otherwise the next stage is asked; after the last one, and
/// after a failure, the fallback is taken.
pub fn probe_chain(ep: &EndpointConfig, stage: ProbeStage, reply: &ProbeReply) -> (r: ProbeStep)
    ensures
        match reply {
            ProbeReply::Failed => ends_with(r, fallback()),
            ProbeReply::Body(j) if size_in_reply(ep@, stage, j@) is Some => ends_with(
                r,
                size_in_reply(ep@, stage, j@)->0,
            ),
            _ => match stage_after(stage) {
                Some(next) => asks(r, ep@, next),
                None => ends_with(r, fallback()),
            },
        },
{
    match reply {
        ProbeReply::Failed => {
            return give_up();
        },
        ProbeReply::Refused => {},
        ProbeReply::Body(j) => {
            let result = match stage {
                ProbeStage::Models => {
                    let url = models_url(ep.url.as_str());
                    probe_models(j, ep.model.as_str(), url.as_str())
                },
                ProbeStage::Props => {
                    let url = props_url(ep.url.as_str());
                    probe_props(j, url.as_str())
                },
                ProbeStage::Ollama => {
                    let url = ollama_url(ep.url.as_str(), ep.model.as_str());
                    probe_ollama(j, url.as_str())
                },
            };
            match result {
                Some(p) => {
                    return ProbeStep::Done(p);
                },
                None => {},
            }
        },
    }
    match stage {
        ProbeStage::Models => ask(ep, ProbeStage::Props),
        ProbeStage::Props => ask(ep, ProbeStage::Ollama),
        ProbeStage::Ollama => give_up(),
    }
}

// ---------------------------------------------------------------------------
// Sizes in error messages
// ---------------------------------------------------------------------------

/// The first digit from `i` on, or the end.
pub open spec fn digit_start(s: Seq<char>, i: int) -> int
    decreases s.len() - i,
{
    if i < s.len() && !text::is_digit(s[i]) {
        digit_start(s, i + 1)
    } else {
        i
    }
}

/// The first character from `i` on that is no digit, or the end.
pub open spec fn digit_end(s: Seq<char>, i: int) -> int
    decreases s.len() - i,
{
    if i < s.len() && text::is_digit(s[i]) {
        digit_end(s, i + 1)
    } else {
        i
    }
}

/// The number that the first digits of a text write; none where there are no
/// digits, or the number is too large for the machine.
pub open spec fn number_in(s: Seq<char>) -> Option<u64> {
    let a = digit_start(s, 0);
    if a >= s.len() {
        None
    } else {
        match text::parsed_number(s.subrange(a, digit_end(s, a)), u64::MAX as nat) {
            Some(n) => Some(n as u64),
            None => None,
        }
    }
}

/// The first number in a text.
pub fn first_number(s: &str) -> (r: Option<u64>)
    ensures
        r == number_in(s@),
{
    let v = text::chars_of(s);
    let mut a: usize = 0;
    while a < v.len() && !('0' <= v[a] && v[a] <= '9')
        invariant
            v@ == s@,
            a <= v.len(),
            digit_start(s@, a as int) == digit_start(s@, 0),
        decreases v.len() - a,
    {
        a = a + 1;
    }
    if a >= v.len() {
        return None;
    }
    let mut b: usize = a;
    while b < v.len() && '0' <= v[b] && v[b] <= '9'
        invariant
            v@ == s@,
            a <= b <= v.len(),
            digit_end(s@, b as int) == digit_end(s@, a as int),
            forall|k: int| a <= k < b ==> text::is_digit(#[trigger] v@[k]),
        decreases v.len() - b,
    {
        b = b + 1;
    }
    let run = &v[a..b];
    proof {
        assert(run@[0] == v@[a as int]);
        assert(run@ =~= s@.subrange(a as int, b as int));
    }
    text::parse_digits(run, u64::MAX)
}

/// The phrases behind which a size stands, in the order in which they are
/// looked for.
pub const SIZE_PHRASES: [&'static str; 7] = [
    "maximum context length is",
    "max context length is",
    "max_context_length",
    "context_length",
    "maximum context length",
    "max_model_len",
    "n_ctx",
];

/// The number behind the first occurrence of a phrase.
pub open spec fn size_behind(s: Seq<char>, phrase: Seq<char>) -> Option<u64> {
    match text::find(s, phrase) {
        Some(i) => number_in(s.skip(i + phrase.len())),
        None => None,
    }
}

/// The number behind the first phrase from number `i` on that has one.
pub open spec fn size_by_phrases(s: Seq<char>, i: int) -> Option<u64>
    decreases 7 - i,
{
    if i >= 7 {
        None
    } else if size_behind(s, SIZE_PHRASES@[i]@) is Some {
        size_behind(s, SIZE_PHRASES@[i]@)
    } else {
        size_by_phrases(s, i + 1)
    }
}

/// Finds the size of a context in a message.
pub fn extract_context_number(text: &str) -> (r: Option<u64>)
    ensures
        r == size_by_phrases(text@, 0),
{
    let v = text::chars_of(text);
    let mut i: usize = 0;
    while i < 7
        invariant
            v@ == text@,
            i <= 7,
            size_by_phrases(text@, i as int) == size_by_phrases(text@, 0),
        decreases 7 - i,
    {
        let p = text::chars_of(SIZE_PHRASES[i]);
        match text::search(&v, &p, 0) {
            Some(k) => {
                let n: usize = v.len();
                let tail = text::slice(text, k + p.len(), n);
                proof {
                    assert(text@.subrange(k + p@.len(), n as int) =~= text@.skip(k + p@.len()));
                }
                let found = first_number(tail);
                if found.is_some() {
                    return found;
                }
            },
            None => {},
        }
        i = i + 1;
    }
    None
}

/// The text of a member of a value.
pub open spec fn text_at(j: JsonModel, key: Seq<char>) -> Option<Seq<char>> {
    match j.field(key) {
        Some(v) => v.text(),
        None => None,
    }
}

/// The message of an error body.
pub open spec fn error_message(body: JsonModel) -> Option<Seq<char>> {
    let inner = match body.field("error"@) {
        Some(e) => text_at(e, "message"@),
        None => None,
    };
    if inner is Some {
        inner
    } else {
        text_at(body, "message"@)
    }
}

fn get_text<'a>(j: &'a Json, key: &str) -> (r: Option<&'a str>)
    ensures
        (match r {
            Some(s) => Some(s@),
            None => None,
        }) == text_at(j@, key@),
{
    match j.get(key) {
        Some(v) => v.as_str(),
        None => None,
    }
}

fn message_of<'a>(body: &'a Json) -> (r: Option<&'a str>)
    ensures
        (match r {
            Some(s) => Some(s@),
            None => None,
        }) == error_message(body@),
{
    match body.get("error") {
        Some(e) => {
            let m = get_text(e, "message");
            if m.is_some() {
                return m;
            }
        },
        None => {},
    }
    get_text(body, "message")
}

/// The size that an error body names: in its message where the body is JSON
/// with a message that names one, and otherwise in its text.
pub open spec fn size_in_error(parsed: Option<JsonModel>, body: Seq<char>) -> Option<u64> {
    let by_message = match parsed {
        Some(j) => match error_message(j) {
            Some(m) => size_by_phrases(m, 0),
            None => None,
        },
        None => None,
    };
    if by_message is Some {
        by_message
    } else {
        size_by_phrases(body, 0)
    }
}

/// Finds the size that an error body names, from what JSON reading made of it
/// and its text.
pub fn context_from_error(parsed: &Option<Json>, body: &str) -> (r: Option<u64>)
    ensures
        r == size_in_error(
            match parsed {
                Some(j) => Some(j@),
                None => None,
            },
            body@,
        ),
{
    match parsed {
        Some(j) => match message_of(j) {
            Some(m) => {
                let found = extract_context_number(m);
                if found.is_some() {
                    return found;
                }
            },
            None => {},
        },
        None => {},
    }
    extract_context_number(body)
}

/// The size that an error body names.
pub open spec fn context_in_error(body: Seq<char>) -> Option<u64> {
    size_in_error(json::json_parse(body), body)
}

/// Finds the size that an error body names.
pub fn parse_context_from_error(body: &str) -> (r: Option<u64>)
    ensures
        r == context_in_error(body@),
{
    let parsed = Json::parse(body);
    context_from_error(&parsed, body)
}

} // verus!
