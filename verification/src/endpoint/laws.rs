//! What is learnt of an endpoint, and where it is asked for.
use vstd::prelude::*;

use crate::endpoint::probe;
use crate::endpoint::probe::ProbeStage;
use crate::config::EndpointModel;
use crate::json::JsonModel;
use crate::llm;
use crate::text;

verus! {

proof fn lemma_digits_begin(s: Seq<char>, i: int, a: int)
    requires
        0 <= i <= a <= s.len(),
        forall|j: int| i <= j < a ==> !text::is_digit(#[trigger] s[j]),
        a < s.len() ==> text::is_digit(s[a]),
    ensures
        probe::digit_start(s, i) == a,
    decreases a - i,
{
    if i < a {
        assert(!text::is_digit(s[i]));
        lemma_digits_begin(s, i + 1, a);
    }
}

proof fn lemma_digits_end(s: Seq<char>, i: int, b: int)
    requires
        0 <= i <= b <= s.len(),
        forall|j: int| i <= j < b ==> text::is_digit(#[trigger] s[j]),
        b < s.len() ==> !text::is_digit(s[b]),
    ensures
        probe::digit_end(s, i) == b,
    decreases b - i,
{
    if i < b {
        assert(text::is_digit(s[i]));
        lemma_digits_end(s, i + 1, b);
    }
}

/// A number that stands in a text is found, whatever stands before and behind it,
/// as long as no other digit comes before it.
pub proof fn law_number_is_found(a: Seq<char>, n: u64, b: Seq<char>)
    requires
        forall|i: int| 0 <= i < a.len() ==> !text::is_digit(#[trigger] a[i]),
        b.len() > 0 ==> !text::is_digit(b[0]),
    ensures
        probe::number_in(a + text::decimal(n as nat) + b) == Some(n),
{
    let d = text::decimal(n as nat);
    let s = a + d + b;
    let from = a.len() as int;
    let to = from + d.len();
    text::lemma_decimal_digits(n as nat);
    text::law_decimal_roundtrip(n as nat, u64::MAX as nat);
    assert(d.len() > 0);
    assert forall|j: int| 0 <= j < from implies !text::is_digit(#[trigger] s[j]) by {
        assert(s[j] == a[j]);
    }
    assert forall|j: int| from <= j < to implies text::is_digit(#[trigger] s[j]) by {
        assert(s[j] == d[j - from]);
    }
    if to < s.len() {
        assert(s[to] == b[0]);
    }
    lemma_digits_begin(s, 0, from);
    lemma_digits_end(s, from, to);
    assert(s.subrange(from, to) =~= d);
}

/// A text without digits holds no number.
pub proof fn law_no_digits_no_number(s: Seq<char>)
    requires
        forall|i: int| 0 <= i < s.len() ==> !text::is_digit(#[trigger] s[i]),
    ensures
        probe::number_in(s) is None,
{
    lemma_digits_begin(s, 0, s.len() as int);
}

/// The size of a context is the number behind the phrase that speaks of it.
pub proof fn law_size_stands_behind_the_phrase(
    before: Seq<char>,
    phrase: Seq<char>,
    between: Seq<char>,
    n: u64,
    rest: Seq<char>,
)
    requires
        text::find(before + phrase + between + text::decimal(n as nat) + rest, phrase) == Some(
            before.len() as int,
        ),
        forall|i: int| 0 <= i < between.len() ==> !text::is_digit(#[trigger] between[i]),
        rest.len() > 0 ==> !text::is_digit(rest[0]),
    ensures
        probe::size_behind(
            before + phrase + between + text::decimal(n as nat) + rest,
            phrase,
        ) == Some(n),
{
    let d = text::decimal(n as nat);
    let s = before + phrase + between + d + rest;
    assert(s.skip((before.len() + phrase.len()) as int) =~= between + d + rest);
    law_number_is_found(between, n, rest);
}

proof fn lemma_phrase_counts(s: Seq<char>, k: int, i: int, n: u64)
    requires
        0 <= k <= i < 7,
        probe::size_behind(s, probe::SIZE_PHRASES@[i]@) == Some(n),
        forall|j: int|
            k <= j < i ==> probe::size_behind(s, #[trigger] probe::SIZE_PHRASES@[j]@) is None,
    ensures
        probe::size_by_phrases(s, k) == Some(n),
    decreases i - k,
{
    if k < i {
        assert(probe::size_behind(s, probe::SIZE_PHRASES@[k]@) is None);
        lemma_phrase_counts(s, k + 1, i, n);
    }
}

/// The first phrase with a number behind it gives the size.
pub proof fn law_first_phrase_counts(s: Seq<char>, i: int, n: u64)
    requires
        0 <= i < 7,
        probe::size_behind(s, probe::SIZE_PHRASES@[i]@) == Some(n),
        forall|j: int|
            0 <= j < i ==> probe::size_behind(s, #[trigger] probe::SIZE_PHRASES@[j]@) is None,
    ensures
        probe::size_by_phrases(s, 0) == Some(n),
{
    lemma_phrase_counts(s, 0, i, n);
}

/// The message of an error is read first, and its text where the message names no
/// size.
pub proof fn law_message_of_an_error_counts(
    body: JsonModel,
    error: JsonModel,
    message: Seq<char>,
    s: Seq<char>,
)
    requires
        body.field("error"@) == Some(error),
        error.field("message"@) == Some(JsonModel::Str(message)),
    ensures
        probe::size_by_phrases(message, 0) is Some ==> probe::size_in_error(Some(body), s)
            == probe::size_by_phrases(message, 0),
        probe::size_by_phrases(message, 0) is None ==> probe::size_in_error(Some(body), s)
            == probe::size_by_phrases(s, 0),
        probe::size_in_error(None, s) == probe::size_by_phrases(s, 0),
{
}

proof fn lemma_first_item(
    items: Seq<JsonModel>,
    k: int,
    i: int,
    model: Seq<char>,
    url: Seq<char>,
)
    requires
        0 <= k <= i < items.len(),
        probe::is_model(items[i], model),
        probe::size_in_item(items[i], url) is Some,
        forall|j: int| k <= j < i ==> !probe::is_model(#[trigger] items[j], model),
    ensures
        probe::first_size(items, k, Some(model), url) == probe::size_in_item(items[i], url),
    decreases i - k,
{
    if k < i {
        assert(!probe::is_model(items[k], model));
        lemma_first_item(items, k + 1, i, model, url);
    }
}

/// In a list of models the size of the model in use counts, not that of another.
pub proof fn law_size_of_the_model_counts(
    body: JsonModel,
    items: Seq<JsonModel>,
    i: int,
    model: Seq<char>,
    url: Seq<char>,
    n: u64,
)
    requires
        body.field("data"@) == Some(JsonModel::Array(items)),
        0 <= i < items.len(),
        items[i].field("id"@) == Some(JsonModel::Str(model)),
        items[i].field("max_model_len"@) == Some(JsonModel::UInt(n)),
        forall|j: int| 0 <= j < i ==> !probe::is_model(#[trigger] items[j], model),
    ensures
        probe::size_in_models(body, model, url) matches Some(f) && f.context_tokens == n
            && url.is_prefix_of(f.source),
{
    assert(probe::is_model(items[i], model));
    lemma_first_item(items, 0, i, model, url);
    let f = probe::size_in_item(items[i], url)->0;
    assert(f.source.take(url.len() as int) =~= url);
}

/// The sizes that servers give under their own names are read.
pub proof fn law_sizes_of_servers_are_read(
    item: JsonModel,
    meta: JsonModel,
    url: Seq<char>,
    n: u64,
)
    requires
        meta.field("n_ctx"@) == Some(JsonModel::UInt(n)),
    ensures
        item.field("max_model_len"@) is None && item.field("meta"@) == Some(meta)
            ==> (probe::size_in_item(item, url) matches Some(f) && f.context_tokens == n),
        item.field("max_model_len"@) is None && item.field("meta"@) is None && item.field(
            "max_context_length"@,
        ) == Some(JsonModel::UInt(n)) ==> (probe::size_in_item(item, url) matches Some(f)
            && f.context_tokens == n),
        item.field("default_generation_settings"@) == Some(meta) ==> (probe::size_in_props(item, url)
            matches Some(f) && f.context_tokens == n),
        item.field("default_generation_settings"@) is None && item.field("n_ctx"@) == Some(
            JsonModel::UInt(n),
        ) ==> (probe::size_in_props(item, url) matches Some(f) && f.context_tokens == n),
{
}

proof fn lemma_first_member(
    members: Seq<(Seq<char>, JsonModel)>,
    k: int,
    i: int,
    url: Seq<char>,
    n: u64,
)
    requires
        0 <= k <= i < members.len(),
        text::contains(members[i].0, "context_length"@),
        members[i].1 == JsonModel::UInt(n),
        forall|j: int|
            k <= j < i ==> !text::contains((#[trigger] members[j]).0, "context_length"@),
    ensures
        probe::size_in_members(members, k, url) matches Some(f) && f.context_tokens == n,
    decreases i - k,
{
    if k < i {
        assert(!text::contains(members[k].0, "context_length"@));
        lemma_first_member(members, k + 1, i, url, n);
    }
}

/// The size in the information on a model is the number of the member whose name
/// speaks of the length of a context.
pub proof fn law_size_in_the_information(
    body: JsonModel,
    members: Seq<(Seq<char>, JsonModel)>,
    i: int,
    url: Seq<char>,
    n: u64,
)
    requires
        body.field("model_info"@) == Some(JsonModel::Object(members)),
        0 <= i < members.len(),
        text::contains(members[i].0, "context_length"@),
        members[i].1 == JsonModel::UInt(n),
        forall|j: int|
            0 <= j < i ==> !text::contains((#[trigger] members[j]).0, "context_length"@),
    ensures
        probe::size_in_info(body, url) matches Some(f) && f.context_tokens == n,
{
    lemma_first_member(members, 0, i, url, n);
}

/// An address with a slash at its end is the same as one without.
pub proof fn law_slash_at_the_end_changes_nothing(base: Seq<char>)
    ensures
        llm::without_slashes(base.push('/')) == llm::without_slashes(base),
        probe::models_address(base.push('/')) == probe::models_address(base),
        probe::props_address(base.push('/')) == probe::props_address(base),
        base.len() > 0 && base.last() != '/' ==> probe::models_address(base) == base + "/models"@,
{
    assert(base.push('/').drop_last() =~= base);
}

/// The properties are asked for beside the versioned interface.
pub proof fn law_properties_stand_beside_the_version(base: Seq<char>)
    requires
        base.len() > 0,
        !"/v1"@.is_suffix_of(base),
        base.last() != '/',
    ensures
        probe::props_address(base + "/v1"@) == base + "/props"@,
        probe::props_address(base) == base + "/props"@,
{
    reveal_strlit("/v1");
    let s = base + "/v1"@;
    assert(s.last() == '1');
    assert(llm::without_slashes(s) == s);
    assert(s.subrange(s.len() - 3, s.len() as int) =~= "/v1"@);
    assert(s.take(s.len() - 3) =~= base);
    assert(probe::without_version(base) == base);
    assert(probe::without_version(s) == base);
}

/// The host of an address is what stands up to the first slash behind its scheme.
pub proof fn law_host_of_an_address(scheme: Seq<char>, host: Seq<char>, path: Seq<char>)
    requires
        forall|i: int| 0 <= i < scheme.len() ==> #[trigger] scheme[i] != ':',
        forall|i: int| 0 <= i < host.len() ==> #[trigger] host[i] != '/',
        !text::contains(host + seq!['/'] + path, "://"@),
    ensures
        probe::host_of(scheme + "://"@ + host + seq!['/'] + path) == Some(
            scheme + "://"@ + host,
        ),
{
    reveal_strlit("://");
    reveal_strlit("/");
    let url = scheme + "://"@ + host + seq!['/'] + path;
    let n = scheme.len() as int;
    assert(url.subrange(n, n + 3) =~= "://"@);
    assert(text::occurs_at(url, "://"@, n));
    text::lemma_find_from(url, "://"@, 0);
    let i = text::find(url, "://"@)->0;
    if i < n {
        assert(url.subrange(i, i + 3)[0] == url[i]);
        assert(url[i] == scheme[i]);
    }
    assert(i == n);
    let after = url.skip(n + 3);
    assert(after =~= host + seq!['/'] + path);
    text::lemma_find_from(after, "://"@, 0);
    if let Some(j) = text::find(after, "://"@) {
        assert(text::occurs_at(after, "://"@, j));
    }
    let k = host.len() as int;
    assert(after.subrange(k, k + 1) =~= "/"@);
    assert(text::occurs_at(after, "/"@, k));
    text::lemma_find_from(after, "/"@, 0);
    let j = text::find(after, "/"@)->0;
    if j < k {
        assert(after.subrange(j, j + 1)[0] == after[j]);
        assert(after[j] == host[j]);
    }
    assert(after.take(k) =~= host);
    assert(url.take(n) =~= scheme);
}

/// The model is part of the address at which its information is asked for.
pub proof fn law_model_is_asked_for(ep: EndpointModel)
    ensures
        ep.model.is_suffix_of(probe::stage_address(ep, ProbeStage::Ollama)),
        "/models"@.is_suffix_of(probe::stage_address(ep, ProbeStage::Models)),
        "/props"@.is_suffix_of(probe::stage_address(ep, ProbeStage::Props)),
{
    let a = probe::stage_address(ep, ProbeStage::Ollama);
    let b = probe::stage_address(ep, ProbeStage::Models);
    let c = probe::stage_address(ep, ProbeStage::Props);
    assert(a.subrange(a.len() - ep.model.len(), a.len() as int) =~= ep.model);
    assert(b.subrange(b.len() - "/models"@.len(), b.len() as int) =~= "/models"@);
    assert(c.subrange(c.len() - "/props"@.len(), c.len() as int) =~= "/props"@);
}

/// All sources of a size are asked, one after the other.
pub proof fn law_every_source_is_asked()
    ensures
        probe::stage_after(ProbeStage::Models) == Some(ProbeStage::Props),
        probe::stage_after(ProbeStage::Props) == Some(ProbeStage::Ollama),
        probe::stage_after(ProbeStage::Ollama) is None,
{
}

} // verus!
