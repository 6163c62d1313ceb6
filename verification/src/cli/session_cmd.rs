//! `session`: saved conversations.
use vstd::prelude::*;

use crate::i18n::{say1, translate, Language};
use crate::i18n;
use crate::session::SessionMeta;
use crate::text;

verus! {

/// A line of the list: four columns.
pub open spec fn columns(a: Seq<char>, b: Seq<char>, c: Seq<char>, d: Seq<char>) -> Seq<char> {
    text::padded_right(a, 40) + "  "@ + text::padded_right(b, 24) + "  "@ + text::padded_right(c, 6)
        + "  "@ + text::padded_right(d, 24)
}

/// A line of the list.
fn column_line(a: &str, b: &str, c: &str, d: &str) -> (r: String)
    ensures
        r@ == columns(a@, b@, c@, d@),
{
    let mut out = text::pad_right(a, 40);
    out.append("  ");
    out.append(&text::pad_right(b, 24));
    out.append("  ");
    out.append(&text::pad_right(c, 6));
    out.append("  ");
    out.append(&text::pad_right(d, 24));
    out
}

/// The lines about sessions: a title, then one for each.
pub open spec fn session_lines(lang: Language, metas: Seq<SessionMeta>) -> Seq<Seq<char>> {
    if metas.len() == 0 {
        seq![i18n::message(lang, "No sessions."@)]
    } else {
        seq![
            columns(
                "ID"@,
                i18n::message(lang, "Created"@),
                i18n::message(lang, "Turns"@),
                i18n::message(lang, "Updated"@),
            ),
        ] + metas.map_values(
            |m: SessionMeta|
                columns(m.id@, m.created_at@, text::decimal(m.turns as nat), m.updated_at@),
        )
    }
}

/// The lines about sessions.
pub fn list(metas: &[SessionMeta], lang: Language) -> (r: Vec<String>)
    ensures
        text::views(r@) == session_lines(lang, metas@),
{
    let mut out: Vec<String> = Vec::new();
    if metas.len() == 0 {
        out.push(translate(lang, "No sessions.").to_string());
        proof {
            assert(text::views(out@) =~= session_lines(lang, metas@));
        }
        return out;
    }
    out.push(
        column_line(
            "ID",
            translate(lang, "Created"),
            translate(lang, "Turns"),
            translate(lang, "Updated"),
        ),
    );
    let ghost head = out@[0]@;
    let mut i: usize = 0;
    while i < metas.len()
        invariant
            i <= metas.len(),
            out@.len() == i + 1,
            out@[0]@ == head,
            forall|k: int|
                1 <= k <= i ==> (#[trigger] out@[k])@ == columns(
                    metas@[k - 1].id@,
                    metas@[k - 1].created_at@,
                    text::decimal(metas@[k - 1].turns as nat),
                    metas@[k - 1].updated_at@,
                ),
        decreases metas.len() - i,
    {
        let m = &metas[i];
        out.push(column_line(&m.id, &m.created_at, &text::show(m.turns as u64), &m.updated_at));
        i = i + 1;
    }
    proof {
        assert(text::views(out@) =~= session_lines(lang, metas@));
    }
    out
}

/// What is said about a session that was deleted.
pub fn deleted(id: &str, lang: Language) -> (r: String)
    ensures
        r@ == i18n::message_fmt(lang, "Deleted session '{id}'."@, seq![id@]),
{
    say1(lang, "Deleted session '{id}'.", id)
}

} // verus!
