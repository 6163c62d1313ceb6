//! Earlier prompts, for browsing and searching them.
use vstd::prelude::*;

use crate::text;

verus! {

/// How many of the last runs are searched for prompts.
pub const RUNS_SEARCHED: u64 = 200;

/// How many of the last sessions are searched for prompts.
pub const SESSIONS_SEARCHED: usize = 20;

/// Earlier prompts.
pub type CompletionSource = Vec<String>;

/// Whether a text is a prompt worth keeping: not blank, and no command.
pub open spec fn worth_keeping(s: Seq<char>) -> bool {
    let t = text::trimmed(s);
    t.len() > 0 && t[0] != '/'
}

/// The prompts worth keeping without the white space around them, each one
/// once, in the order of their first occurrence.
pub open spec fn sources_of(prompts: Seq<Seq<char>>) -> Seq<Seq<char>>
    decreases prompts.len(),
{
    if prompts.len() == 0 {
        Seq::empty()
    } else {
        let before = sources_of(prompts.drop_last());
        let t = text::trimmed(prompts.last());
        if worth_keeping(prompts.last()) && !before.contains(t) {
            before.push(t)
        } else {
            before
        }
    }
}

/// Adds a prompt, where it is worth keeping and new.
fn keep(out: &mut Vec<String>, prompt: &str)
    ensures
        text::views(final(out)@) == ({
            let t = text::trimmed(prompt@);
            if worth_keeping(prompt@) && !text::views(old(out)@).contains(t) {
                text::views(old(out)@).push(t)
            } else {
                text::views(old(out)@)
            }
        }),
{
    let t = text::trim(prompt);
    let v = text::chars_of(t);
    if v.len() == 0 || v[0] == '/' {
        return;
    }
    if !text::is_in(out, t) {
        out.push(t.to_string());
        proof {
            assert(text::views(out@) =~= text::views(old(out)@).push(t@));
        }
    }
}

/// The prompts of earlier runs, then those of earlier conversations, without
/// blank ones, commands and repetitions.
pub fn load_history_sources(runs: &[String], turns: &[String]) -> (r: CompletionSource)
    ensures
        text::views(r@) == sources_of(text::views(runs@) + text::views(turns@)),
{
    let ghost all = text::views(runs@) + text::views(turns@);
    let mut out: Vec<String> = Vec::new();
    let mut i: usize = 0;
    proof {
        assert(all.take(0) =~= Seq::empty());
        assert(text::views(out@) =~= Seq::empty());
    }
    while i < runs.len()
        invariant
            i <= runs.len(),
            all == text::views(runs@) + text::views(turns@),
            text::views(out@) == sources_of(all.take(i as int)),
        decreases runs.len() - i,
    {
        proof {
            assert(all.take(i + 1).drop_last() =~= all.take(i as int));
            assert(all.take(i + 1).last() == runs@[i as int]@);
        }
        keep(&mut out, &runs[i]);
        i = i + 1;
    }
    let mut j: usize = 0;
    while j < turns.len()
        invariant
            j <= turns.len(),
            all == text::views(runs@) + text::views(turns@),
            text::views(out@) == sources_of(all.take(runs@.len() + j)),
        decreases turns.len() - j,
    {
        proof {
            let n = runs@.len() + j;
            assert(all.take(n + 1).drop_last() =~= all.take(n));
            assert(all.take(n + 1).last() == turns@[j as int]@);
        }
        keep(&mut out, &turns[j]);
        j = j + 1;
    }
    proof {
        assert(all.take(all.len() as int) =~= all);
    }
    out
}

/// No prompt is listed twice, and none that is blank or a command.
pub proof fn law_sources_are_distinct(prompts: Seq<Seq<char>>)
    ensures
        forall|j: int, k: int|
            0 <= j < k < sources_of(prompts).len() ==> #[trigger] sources_of(prompts)[j]
                != #[trigger] sources_of(prompts)[k],
        forall|k: int|
            0 <= k < sources_of(prompts).len() ==> worth_keeping(#[trigger] sources_of(prompts)[k]),
    decreases prompts.len(),
{
    if prompts.len() > 0 {
        law_sources_are_distinct(prompts.drop_last());
        text::law_trim_idempotent(prompts.last());
        let out = sources_of(prompts);
        let before = sources_of(prompts.drop_last());
        let n = before.len() as int;
        assert forall|k: int| 0 <= k < out.len() implies worth_keeping(#[trigger] out[k]) by {
            if k < n {
                assert(out[k] == before[k]);
            }
        }
        assert forall|j: int, k: int| 0 <= j < k < out.len() implies #[trigger] out[j]
            != #[trigger] out[k] by {
            assert(out[j] == before[j]);
            if k < n {
                assert(out[k] == before[k]);
            }
        }
    }
}

} // verus!
