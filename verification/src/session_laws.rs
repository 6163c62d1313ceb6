//! What a session keeps of a conversation.
use vstd::prelude::*;

use crate::session;
use crate::session::{SessionModel, TurnModel};
use crate::text;
use crate::tools::laws;

verus! {

/// A turn is kept whole, behind those before it, and nothing else of the session
/// changes but the time of its last change.
pub proof fn law_turn_is_kept(s: SessionModel, t: TurnModel, now: Seq<char>)
    ensures
        ({
            let after = session::with_turn(s, t, now);
            &&& after.turns.len() == s.turns.len() + 1
            &&& after.turns.last() == t
            &&& after.turns.drop_last() == s.turns
            &&& after.updated_at == now
            &&& after.session_id == s.session_id
            &&& after.created_at == s.created_at
            &&& after.endpoint == s.endpoint
            &&& after.model == s.model
        }),
{
    assert(s.turns.push(t).drop_last() =~= s.turns);
}

/// A session begins without turns, with the name, the endpoint and the model that
/// it is given.
pub proof fn law_session_begins_empty(
    id: Seq<char>,
    endpoint: Seq<char>,
    model: Seq<char>,
    now: Seq<char>,
)
    ensures
        session::fresh_session(id, endpoint, model, now).turns.len() == 0,
        session::fresh_session(id, endpoint, model, now).session_id == id,
        session::fresh_session(id, endpoint, model, now).endpoint == endpoint,
        session::fresh_session(id, endpoint, model, now).model == model,
        session::fresh_session(id, endpoint, model, now).created_at == now,
        session::fresh_session(id, endpoint, model, now).updated_at == now,
{
}

proof fn lemma_turn_holds(t: TurnModel)
    ensures
        text::contains(session::turn_text(t), t.user),
        text::contains(session::turn_text(t), t.assistant),
        text::contains(session::exported_turn(t), t.user),
        text::contains(session::exported_turn(t), t.assistant),
{
    let a = "[사용자]\n"@;
    let b = "\n\n"@ + "[모델]\n"@;
    laws::lemma_between(a, t.user, b + t.assistant + "\n\n"@);
    assert(session::turn_text(t) =~= a + t.user + (b + t.assistant + "\n\n"@));
    laws::lemma_between(a + t.user + b, t.assistant, "\n\n"@);
    assert(session::turn_text(t) =~= a + t.user + b + t.assistant + "\n\n"@);
    let c = "## User\n\n"@;
    let d = "\n\n## Assistant\n\n"@;
    laws::lemma_between(c, t.user, d + t.assistant + "\n\n"@);
    assert(session::exported_turn(t) =~= c + t.user + (d + t.assistant + "\n\n"@));
    laws::lemma_between(c + t.user + d, t.assistant, "\n\n"@);
}

proof fn lemma_held_whole(a: Seq<char>, whole: Seq<char>, s: Seq<char>)
    requires
        text::contains(whole, a),
        text::contains(a, s),
    ensures
        text::contains(whole, s),
{
    let i = choose|i: int| text::occurs_at(whole, a, i);
    let k = choose|k: int| text::occurs_at(a, s, k);
    assert(whole.subrange(i + k, i + k + s.len()) =~= a.subrange(k, k + s.len())) by {
        assert(whole.subrange(i, i + a.len()) == a);
    }
    assert(text::occurs_at(whole, s, i + k));
}

/// The conversation so far holds what was said in every turn, by the user and by
/// the model, as it was said.
pub proof fn law_conversation_holds_every_turn(turns: Seq<TurnModel>, i: int)
    requires
        0 <= i < turns.len(),
    ensures
        text::contains(session::context_of(turns), turns[i].user),
        text::contains(session::context_of(turns), turns[i].assistant),
        text::contains(session::exported_turns(turns), turns[i].user),
        text::contains(session::exported_turns(turns), turns[i].assistant),
    decreases turns.len(),
{
    let d = turns.drop_last();
    let t = turns.last();
    let a = session::context_of(d);
    let b = session::exported_turns(d);
    if i == turns.len() - 1 {
        lemma_turn_holds(t);
        laws::lemma_held(session::turn_text(t), a, t.user);
        laws::lemma_held(session::turn_text(t), a, t.assistant);
        laws::lemma_held(session::exported_turn(t), b, t.user);
        laws::lemma_held(session::exported_turn(t), b, t.assistant);
    } else {
        law_conversation_holds_every_turn(d, i);
        assert(d[i] == turns[i]);
        laws::lemma_held(a, session::turn_text(t), turns[i].user);
        laws::lemma_held(a, session::turn_text(t), turns[i].assistant);
        laws::lemma_held(b, session::exported_turn(t), turns[i].user);
        laws::lemma_held(b, session::exported_turn(t), turns[i].assistant);
    }
}

/// An exported session names itself and holds all of its turns.
pub proof fn law_export_holds_the_session(s: SessionModel)
    ensures
        text::contains(session::exported(s), s.session_id),
        session::exported_turns(s.turns).is_suffix_of(session::exported(s)),
{
    let e = session::exported(s);
    let t = session::exported_turns(s.turns);
    let rest = "\n\n- endpoint: "@ + s.endpoint + "\n- model: "@ + s.model + "\n- created: "@
        + s.created_at + "\n- updated: "@ + s.updated_at + "\n\n"@;
    let head = "# Session "@;
    assert(e =~= head + s.session_id + (rest + t));
    laws::lemma_between(head, s.session_id, rest + t);
    assert(e.subrange(e.len() - t.len(), e.len() as int) =~= t);
}

/// Every turn counts with its tokens, in the sums over all turns and in those of
/// its model alone.
pub proof fn law_tokens_add_up(turns: Seq<TurnModel>, t: TurnModel, model: Seq<char>)
    ensures
        session::input_of(turns.push(t)) == session::input_of(turns) + t.input_tokens,
        session::output_of(turns.push(t)) == session::output_of(turns) + t.output_tokens,
        session::input_of(Seq::empty()) == 0,
        session::output_of(Seq::empty()) == 0,
        t.model == model ==> session::turns_by(turns.push(t), model) == session::turns_by(
            turns,
            model,
        ).push(t),
        t.model != model ==> session::turns_by(turns.push(t), model) == session::turns_by(
            turns,
            model,
        ),
{
    assert(turns.push(t).drop_last() =~= turns);
}

/// Every model that answered a turn is told once, and no other.
pub proof fn law_models_are_told_once(turns: Seq<TurnModel>)
    ensures
        forall|i: int|
            0 <= i < turns.len() && (#[trigger] turns[i]).model.len() > 0 ==> session::models_of(
                turns,
            ).contains(turns[i].model),
        forall|j: int, k: int|
            0 <= j < k < session::models_of(turns).len() ==> session::models_of(turns)[j]
                != session::models_of(turns)[k],
        forall|j: int|
            0 <= j < session::models_of(turns).len() ==> exists|i: int|
                0 <= i < turns.len() && (#[trigger] turns[i]).model == #[trigger]
                    session::models_of(turns)[j],
        session::usage_of(turns).len() == session::models_of(turns).len(),
    decreases turns.len(),
{
    if turns.len() > 0 {
        let d = turns.drop_last();
        law_models_are_told_once(d);
        let before = session::models_of(d);
        let all = session::models_of(turns);
        let m = turns.last().model;
        assert forall|i: int| 0 <= i < turns.len() && (#[trigger] turns[i]).model.len()
            > 0 implies all.contains(turns[i].model) by {
            if i < d.len() {
                assert(d[i] == turns[i]);
                let k = choose|k: int| 0 <= k < before.len() && before[k] == turns[i].model;
                assert(all[k] == before[k]);
            } else if !before.contains(m) {
                assert(all.last() == m);
                assert(all[all.len() - 1] == m);
            } else {
                let k = choose|k: int| 0 <= k < before.len() && before[k] == m;
                assert(all[k] == m);
            }
        }
        assert forall|j: int, k: int| 0 <= j < k < all.len() implies all[j] != all[k] by {
            if k == before.len() {
                assert(before.contains(before[j]));
            }
        }
        assert forall|j: int| 0 <= j < all.len() implies exists|i: int|
            0 <= i < turns.len() && (#[trigger] turns[i]).model == #[trigger] all[j] by {
            if j < before.len() {
                let i = choose|i: int|
                    0 <= i < d.len() && (#[trigger] d[i]).model == before[j];
                assert(turns[i] == d[i]);
            } else {
                assert(turns[turns.len() - 1].model == m);
            }
        }
    }
}

/// What a turn has used is added to its own model, input to input and output to
/// output; the other models keep what they have.
pub proof fn law_usage_is_added_to_its_model(turns: Seq<TurnModel>, t: TurnModel, i: int)
    requires
        0 <= i < session::models_of(turns).len(),
        session::input_of(turns.push(t)) <= u64::MAX,
        session::output_of(turns.push(t)) <= u64::MAX,
    ensures
        ({
            let before = session::usage_of(turns)[i];
            let after = session::usage_of(turns.push(t))[i];
            &&& before.model == session::models_of(turns)[i] && after.model == before.model
            &&& t.model != before.model ==> after.input_tokens == before.input_tokens
                && after.output_tokens == before.output_tokens
            &&& t.model == before.model ==> after.input_tokens == before.input_tokens
                + t.input_tokens && after.output_tokens == before.output_tokens + t.output_tokens
        }),
{
    let all = turns.push(t);
    let m = session::models_of(turns)[i];
    assert(all.drop_last() =~= turns);
    assert(session::models_of(all)[i] == m);
    lemma_part_of_the_use(all, m);
    lemma_part_of_the_use(turns, m);
    law_tokens_add_up(turns, t, m);
    law_tokens_add_up(session::turns_by(turns, m), t, m);
}

/// The first turn of a model is told as it is.
pub proof fn law_first_use_is_told(t: TurnModel)
    requires
        t.model.len() > 0,
    ensures
        session::usage_of(seq![t]).len() == 1,
        session::usage_of(seq![t])[0].model == t.model,
        session::usage_of(seq![t])[0].input_tokens == t.input_tokens,
        session::usage_of(seq![t])[0].output_tokens == t.output_tokens,
{
    let none = Seq::<TurnModel>::empty();
    assert(seq![t].drop_last() =~= none);
    assert(session::models_of(none).len() == 0);
    assert(session::turns_by(none, t.model).len() == 0);
    assert(session::turns_by(seq![t], t.model) =~= seq![t]);
    assert(session::input_of(none) == 0 && session::output_of(none) == 0);
    assert(session::models_of(seq![t]) =~= seq![t.model]);
}

proof fn lemma_part_of_the_use(turns: Seq<TurnModel>, m: Seq<char>)
    ensures
        session::input_of(session::turns_by(turns, m)) <= session::input_of(turns),
        session::output_of(session::turns_by(turns, m)) <= session::output_of(turns),
    decreases turns.len(),
{
    if turns.len() > 0 {
        let d = turns.drop_last();
        let by = session::turns_by(d, m);
        lemma_part_of_the_use(d, m);
        assert(by.push(turns.last()).drop_last() =~= by);
    }
}

} // verus!
