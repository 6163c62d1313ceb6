//! The size of a conversation: how many tokens it takes, and how it is trimmed.
use vstd::prelude::*;

use crate::llm;
use crate::llm::{Message, MessageModel};
use crate::text;

verus! {

/// The weight of a text in quarter tokens: an ASCII character counts one, any
/// other character four, a line feed nothing.
pub open spec fn quarter_tokens(s: Seq<char>) -> nat
    decreases s.len(),
{
    if s.len() == 0 {
        0
    } else {
        quarter_tokens(s.drop_last()) + char_weight(s.last())
    }
}

/// The weight of a character in quarter tokens.
pub open spec fn char_weight(c: char) -> nat {
    if c == '\n' {
        0
    } else if (c as u32) < 128 {
        1
    } else {
        4
    }
}

/// The estimated number of tokens of a text.
pub open spec fn tokens(s: Seq<char>) -> nat {
    quarter_tokens(s) / 4
}

/// A text weighs at most four quarter tokens a character.
pub proof fn lemma_quarter_tokens_bound(s: Seq<char>)
    ensures
        quarter_tokens(s) <= 4 * s.len(),
    decreases s.len(),
{
    if s.len() > 0 {
        lemma_quarter_tokens_bound(s.drop_last());
    }
}

/// The weight of a joined text is the sum of the weights of its parts.
pub proof fn lemma_quarter_tokens_concat(a: Seq<char>, b: Seq<char>)
    ensures
        quarter_tokens(a + b) == quarter_tokens(a) + quarter_tokens(b),
    decreases b.len(),
{
    if b.len() == 0 {
        assert(a + b =~= a);
    } else {
        assert((a + b).drop_last() =~= a + b.drop_last());
        lemma_quarter_tokens_concat(a, b.drop_last());
    }
}

/// The estimate of a joined text is the sum of the estimates of its parts, or
/// one more where their remainders make up a token.
pub proof fn law_tokens_of_joined_text(a: Seq<char>, b: Seq<char>)
    ensures
        tokens(a) + tokens(b) <= tokens(a + b) <= tokens(a) + tokens(b) + 1,
{
    lemma_quarter_tokens_concat(a, b);
}

/// Estimates the number of tokens of a text. Four ASCII characters make a
/// token, and so does any other character; line feeds are free.
pub fn estimate_tokens(text: &str) -> (r: u64)
    ensures
        r == tokens(text@),
{
    let v = text::chars_of(text);
    let mut n: u128 = 0;
    let mut i: usize = 0;
    while i < v.len()
        invariant
            i <= v.len(),
            n == quarter_tokens(v@.take(i as int)),
            n <= 4 * i,
        decreases v.len() - i,
    {
        let c = v[i];
        proof {
            assert(v@.take(i + 1).drop_last() =~= v@.take(i as int));
            assert(v@.take(i + 1).last() == c);
        }
        if c != '\n' {
            if (c as u32) < 128 {
                n = n + 1;
            } else {
                n = n + 4;
            }
        }
        i = i + 1;
    }
    proof {
        assert(v@.take(i as int) =~= v@);
    }
    (n / 4) as u64
}

/// Estimates the number of tokens of an image from the length of its base64
/// text.
pub fn estimate_image_tokens(base64_len: u64) -> (r: u64)
    ensures
        r == base64_len / 4,
{
    base64_len / 4
}

/// The tokens of the image that a text carries inline, if it carries one: a
/// quarter of the bytes behind the first `base64,`.
pub open spec fn image_tokens(content: Seq<char>) -> nat {
    match text::find(content, "base64,"@) {
        Some(i) if text::contains(content, "data:image/"@) => (text::byte_len(content.skip(i + 7))
            as u64 / 4) as nat,
        _ => 0,
    }
}

/// The tokens of the function name of a piece of a tool call.
pub open spec fn call_name_tokens(d: llm::ToolCallDeltaModel) -> nat {
    match d.function {
        Some(f) => match f.name {
            Some(n) => tokens(n),
            None => 0,
        },
        None => 0,
    }
}

/// The tokens of the function names of tool calls.
pub open spec fn call_names_tokens(v: Seq<llm::ToolCallDeltaModel>) -> nat
    decreases v.len(),
{
    if v.len() == 0 {
        0
    } else {
        call_names_tokens(v.drop_last()) + call_name_tokens(v.last())
    }
}

/// The estimated tokens of a message: its text, the image in it, the names of
/// the functions it calls, and its name.
pub open spec fn message_tokens(m: MessageModel) -> nat {
    (match m.content {
        Some(c) => tokens(c) + image_tokens(c),
        None => 0,
    }) + (match m.tool_calls {
        Some(v) => call_names_tokens(v),
        None => 0,
    }) + (match m.name {
        Some(n) => tokens(n),
        None => 0,
    })
}

/// The estimated tokens of a conversation.
pub open spec fn messages_tokens(v: Seq<MessageModel>) -> nat
    decreases v.len(),
{
    if v.len() == 0 {
        0
    } else {
        messages_tokens(v.drop_last()) + message_tokens(v.last())
    }
}

/// A number, or the largest machine number where it is larger.
pub open spec fn capped(n: nat) -> u64 {
    if n > u64::MAX {
        u64::MAX
    } else {
        n as u64
    }
}

/// The tokens of the inline image of a text.
fn estimate_inline_image(content: &str) -> (r: u64)
    ensures
        r == image_tokens(content@),
{
    let v = text::chars_of(content);
    let p = text::chars_of("base64,");
    let is_image = text::has(content, "data:image/");
    match text::search(&v, &p, 0) {
        Some(i) => {
            if is_image {
                proof {
                    reveal_strlit("base64,");
                }
                let n: usize = v.len();
                let body = text::slice(content, i + 7, n);
                proof {
                    assert(content@.subrange(i + 7, n as int) =~= content@.skip(i + 7));
                }
                estimate_image_tokens(body.len() as u64)
            } else {
                0
            }
        },
        None => 0,
    }
}

/// Adds two estimates, up to the largest machine number.
fn plus(a: u64, b: u64, Ghost(x): Ghost<nat>, Ghost(y): Ghost<nat>) -> (r: u64)
    requires
        a == capped(x),
        b == capped(y),
    ensures
        r == capped(x + y),
{
    if a > u64::MAX - b {
        u64::MAX
    } else {
        a + b
    }
}

/// The tokens of the function names of tool calls.
fn estimate_call_names(v: &Vec<llm::ToolCallDelta>) -> (r: u64)
    ensures
        r == capped(call_names_tokens(llm::delta_views(v@))),
{
    let ghost all = llm::delta_views(v@);
    let mut total: u64 = 0;
    let mut i: usize = 0;
    while i < v.len()
        invariant
            i <= v.len(),
            all == llm::delta_views(v@),
            total == capped(call_names_tokens(all.take(i as int))),
        decreases v.len() - i,
    {
        let n: u64 = match &v[i].function {
            Some(f) => match &f.name {
                Some(n) => estimate_tokens(n.as_str()),
                None => 0,
            },
            None => 0,
        };
        proof {
            assert(all.take(i + 1).drop_last() =~= all.take(i as int));
            assert(all.take(i + 1).last() == v@[i as int]@);
        }
        total = plus(
            total,
            n,
            Ghost(call_names_tokens(all.take(i as int))),
            Ghost(call_name_tokens(v@[i as int]@)),
        );
        i = i + 1;
    }
    proof {
        assert(all.take(i as int) =~= all);
    }
    total
}

/// The estimated tokens of a message.
fn estimate_message(m: &Message) -> (r: u64)
    ensures
        r == capped(message_tokens(m@)),
{
    let ghost a = match m@.content {
        Some(c) => tokens(c) + image_tokens(c),
        None => 0,
    };
    let ghost b = match m@.tool_calls {
        Some(v) => call_names_tokens(v),
        None => 0,
    };
    let ghost c = match m@.name {
        Some(n) => tokens(n),
        None => 0,
    };
    let x: u64 = match &m.content {
        Some(s) => {
            let t: u64 = estimate_tokens(s.as_str());
            let g: u64 = estimate_inline_image(s.as_str());
            plus(t, g, Ghost(tokens(s@)), Ghost(image_tokens(s@)))
        },
        None => 0,
    };
    let y: u64 = match &m.tool_calls {
        Some(v) => estimate_call_names(v),
        None => 0,
    };
    let z: u64 = match &m.name {
        Some(n) => estimate_tokens(n.as_str()),
        None => 0,
    };
    let xy: u64 = plus(x, y, Ghost(a), Ghost(b));
    plus(xy, z, Ghost(a + b), Ghost(c))
}

/// Estimates the number of tokens of a conversation. An estimate beyond the
/// largest machine number is that number.
pub fn estimate_messages_tokens(messages: &[Message]) -> (r: u64)
    ensures
        r == capped(messages_tokens(llm::message_views(messages@))),
{
    let ghost all = llm::message_views(messages@);
    let mut total: u64 = 0;
    let mut i: usize = 0;
    while i < messages.len()
        invariant
            i <= messages.len(),
            all == llm::message_views(messages@),
            total == capped(messages_tokens(all.take(i as int))),
        decreases messages.len() - i,
    {
        let n: u64 = estimate_message(&messages[i]);
        proof {
            assert(all.take(i + 1).drop_last() =~= all.take(i as int));
            assert(all.take(i + 1).last() == messages@[i as int]@);
        }
        total = plus(
            total,
            n,
            Ghost(messages_tokens(all.take(i as int))),
            Ghost(message_tokens(messages@[i as int]@)),
        );
        i = i + 1;
    }
    proof {
        assert(all.take(i as int) =~= all);
    }
    total
}

// ---------------------------------------------------------------------------
// Trimming
// ---------------------------------------------------------------------------

/// The number of system messages that a conversation begins with.
pub open spec fn leading_system(v: Seq<MessageModel>) -> int
    decreases v.len(),
{
    if v.len() > 0 && v[0].role == "system"@ {
        1 + leading_system(v.skip(1))
    } else {
        0
    }
}

/// The position of the first user message from `i` on, if there is one.
pub open spec fn first_user(v: Seq<MessageModel>, i: int) -> Option<int>
    decreases v.len() - i,
{
    if i >= v.len() {
        None
    } else if v[i].role == "user"@ {
        Some(i)
    } else {
        first_user(v, i + 1)
    }
}

/// The number of messages at the beginning that trimming keeps: the system
/// messages, and everything up to the first user message behind them.
pub open spec fn kept_head(v: Seq<MessageModel>) -> int {
    let s = leading_system(v);
    match first_user(v, s) {
        Some(u) => u + 1,
        None => s,
    }
}

/// The position of the first message from `i` on that is no tool result, or the
/// end of the conversation: where a turn can be cut off.
pub open spec fn turn_start(v: Seq<MessageModel>, i: int) -> int
    decreases v.len() - i,
{
    if i >= v.len() {
        v.len() as int
    } else if v[i].role != "tool"@ {
        i
    } else {
        turn_start(v, i + 1)
    }
}

/// The number of messages that trimming to the last `keep` removes. A turn, that
/// is an answer and the tool results behind it, is removed as a whole: where the
/// cut falls among the results of a turn, they are removed too.
pub open spec fn removed_by_trim(v: Seq<MessageModel>, keep: nat) -> int {
    let h = kept_head(v);
    let rest = v.len() - h;
    if rest > keep {
        turn_start(v, v.len() - keep) - h
    } else {
        0
    }
}

/// A conversation trimmed to its head and the whole turns among its last `keep`
/// messages.
pub open spec fn trimmed_messages(v: Seq<MessageModel>, keep: nat) -> Seq<MessageModel> {
    let h = kept_head(v);
    v.take(h) + v.skip(h + removed_by_trim(v, keep))
}

/// A cut does not go back, and everything that it passes is a tool result.
proof fn lemma_turn_start(v: Seq<MessageModel>, i: int)
    requires
        0 <= i <= v.len(),
    ensures
        i <= turn_start(v, i) <= v.len(),
        turn_start(v, i) < v.len() ==> v[turn_start(v, i)].role != "tool"@,
        forall|k: int| i <= k < turn_start(v, i) ==> (#[trigger] v[k]).role == "tool"@,
    decreases v.len() - i,
{
    if i < v.len() && v[i].role == "tool"@ {
        lemma_turn_start(v, i + 1);
    }
}

/// The head lies within the conversation.
pub proof fn lemma_kept_head(v: Seq<MessageModel>)
    ensures
        0 <= leading_system(v) <= kept_head(v) <= v.len(),
{
    lemma_leading_system(v);
    lemma_first_user(v, leading_system(v));
}

proof fn lemma_leading_system(v: Seq<MessageModel>)
    ensures
        0 <= leading_system(v) <= v.len(),
    decreases v.len(),
{
    if v.len() > 0 && v[0].role == "system"@ {
        lemma_leading_system(v.skip(1));
    }
}

proof fn lemma_first_user(v: Seq<MessageModel>, i: int)
    ensures
        first_user(v, i) matches Some(u) ==> i <= u < v.len() && v[u].role == "user"@,
    decreases v.len() - i,
{
    if i >= v.len() {
    } else if v[i].role == "user"@ {
    } else {
        lemma_first_user(v, i + 1);
    }
}

/// Trims a conversation: the system messages and everything up to the first
/// user message are kept, and of the rest the whole turns among the last
/// `keep_turns` messages. Gives the trimmed conversation and how many messages
/// were removed.
pub fn trim_messages(messages: Vec<Message>, keep_turns: usize) -> (r: (Vec<Message>, usize))
    ensures
        llm::message_views(r.0@) == trimmed_messages(
            llm::message_views(messages@),
            keep_turns as nat,
        ),
        r.1 == removed_by_trim(llm::message_views(messages@), keep_turns as nat),
{
    let ghost all = llm::message_views(messages@);
    let mut i: usize = 0;
    proof {
        assert(all.skip(0) =~= all);
        lemma_leading_system(all);
    }
    while i < messages.len() && text::str_eq(messages[i].role.as_str(), "system")
        invariant
            i <= messages.len(),
            all == llm::message_views(messages@),
            i + leading_system(all.skip(i as int)) == leading_system(all),
        decreases messages.len() - i,
    {
        proof {
            assert(all.skip(i as int)[0] == messages@[i as int]@);
            assert(all.skip(i as int).skip(1) =~= all.skip(i + 1));
        }
        i = i + 1;
    }
    proof {
        if i < messages.len() {
            assert(all.skip(i as int)[0] == messages@[i as int]@);
        }
    }
    let mut head: usize = i;
    let mut j: usize = i;
    while j < messages.len()
        invariant_except_break
            i <= j <= messages.len(),
            head == i,
            all == llm::message_views(messages@),
            i == leading_system(all),
            first_user(all, j as int) == first_user(all, i as int),
        ensures
            head == kept_head(all),
            head <= messages.len(),
        decreases messages.len() - j,
    {
        if text::str_eq(messages[j].role.as_str(), "user") {
            head = j + 1;
            break;
        }
        j = j + 1;
    }
    let mut cut: usize = head;
    if messages.len() - head > keep_turns {
        cut = messages.len() - keep_turns;
        let ghost first = cut as int;
        while cut < messages.len() && text::str_eq(messages[cut].role.as_str(), "tool")
            invariant
                head <= cut <= messages.len(),
                all == llm::message_views(messages@),
                turn_start(all, cut as int) == turn_start(all, first),
            decreases messages.len() - cut,
        {
            cut = cut + 1;
        }
    }
    let removed: usize = cut - head;
    let mut result = messages;
    let mut rest = result.split_off(head);
    let mut tail = rest.split_off(removed);
    result.append(&mut tail);
    proof {
        assert(removed == removed_by_trim(all, keep_turns as nat));
        assert(llm::message_views(result@) =~= trimmed_messages(all, keep_turns as nat));
    }
    (result, removed)
}

// ---------------------------------------------------------------------------
// Laws
// ---------------------------------------------------------------------------

/// The tokens of a joined conversation are the sum of the tokens of its parts.
pub proof fn lemma_messages_tokens_concat(a: Seq<MessageModel>, b: Seq<MessageModel>)
    ensures
        messages_tokens(a + b) == messages_tokens(a) + messages_tokens(b),
    decreases b.len(),
{
    if b.len() == 0 {
        assert(a + b =~= a);
    } else {
        assert((a + b).drop_last() =~= a + b.drop_last());
        lemma_messages_tokens_concat(a, b.drop_last());
    }
}

/// What trimming removes lies behind the head.
proof fn lemma_removed(v: Seq<MessageModel>, keep: nat)
    ensures
        0 <= kept_head(v) <= kept_head(v) + removed_by_trim(v, keep) <= v.len(),
{
    lemma_kept_head(v);
    if v.len() - kept_head(v) > keep {
        lemma_turn_start(v, v.len() - keep);
    }
}

/// Trimming never makes a conversation heavier, and it removes exactly as many
/// messages as it says.
pub proof fn law_trim_never_grows(v: Seq<MessageModel>, keep: nat)
    ensures
        messages_tokens(trimmed_messages(v, keep)) <= messages_tokens(v),
        trimmed_messages(v, keep).len() + removed_by_trim(v, keep) == v.len(),
{
    lemma_removed(v, keep);
    let h = kept_head(v);
    let k = h + removed_by_trim(v, keep);
    assert(v =~= v.take(h) + (v.subrange(h, k) + v.skip(k)));
    lemma_messages_tokens_concat(v.take(h), v.subrange(h, k) + v.skip(k));
    lemma_messages_tokens_concat(v.subrange(h, k), v.skip(k));
    lemma_messages_tokens_concat(v.take(h), v.skip(k));
}

/// Trimming keeps the beginning of the conversation up to the first user
/// message, and of the rest an end: all of it where it has at most `keep`
/// messages, and otherwise no more than `keep`, fewer only by the tool results
/// of a turn that is cut off.
pub proof fn law_trim_keeps_both_ends(v: Seq<MessageModel>, keep: nat)
    ensures
        trimmed_messages(v, keep).take(kept_head(v)) == v.take(kept_head(v)),
        trimmed_messages(v, keep).skip(kept_head(v)) == v.skip(
            kept_head(v) + removed_by_trim(v, keep),
        ),
        keep >= v.len() - kept_head(v) ==> trimmed_messages(v, keep) == v,
        keep < v.len() - kept_head(v) ==> {
            let first = v.len() - keep;
            let cut = kept_head(v) + removed_by_trim(v, keep);
            &&& first <= cut <= v.len()
            &&& cut < v.len() ==> v[cut].role != "tool"@
            &&& forall|k: int| first <= k < cut ==> (#[trigger] v[k]).role == "tool"@
        },
{
    lemma_removed(v, keep);
    let h = kept_head(v);
    let t = trimmed_messages(v, keep);
    assert(t.take(h) =~= v.take(h));
    assert(t.skip(h) =~= v.skip(h + removed_by_trim(v, keep)));
    if keep >= v.len() - h {
        assert(t =~= v);
    } else {
        lemma_turn_start(v, v.len() - keep);
    }
}

/// Whether every tool result of a conversation stands right behind an answer or
/// another tool result.
pub open spec fn turns_are_whole(v: Seq<MessageModel>) -> bool {
    forall|i: int|
        0 <= i < v.len() && (#[trigger] v[i]).role == "tool"@ ==> i > 0 && (v[i - 1].role
            == "assistant"@ || v[i - 1].role == "tool"@)
}

/// Old turns are dropped whole: trimming never leaves a tool result without the
/// answer that it belongs to.
pub proof fn law_trim_drops_whole_turns(v: Seq<MessageModel>, keep: nat)
    requires
        turns_are_whole(v),
    ensures
        turns_are_whole(trimmed_messages(v, keep)),
{
    lemma_removed(v, keep);
    law_trim_keeps_both_ends(v, keep);
    let h = kept_head(v);
    let cut = h + removed_by_trim(v, keep);
    let t = trimmed_messages(v, keep);
    assert forall|i: int| 0 <= i < t.len() && (#[trigger] t[i]).role == "tool"@ implies i > 0 && (
    t[i - 1].role == "assistant"@ || t[i - 1].role == "tool"@) by {
        if i < h {
            assert(t[i] == v[i]);
            assert(t[i - 1] == v[i - 1]);
        } else {
            let k = i - h + cut;
            assert(t[i] == v[k]);
            if keep >= v.len() - h {
                assert(t == v);
            } else {
                assert(i > h);
                assert(t[i - 1] == v[k - 1]);
            }
        }
    }
}

} // verus!
