//! Identifiers in the form of a UUID, from the time and two random numbers.
use vstd::prelude::*;

verus! {

/// A digit of a number to the base sixteen.
pub open spec fn hex_digit(d: int) -> char {
    if d < 10 {
        (48 + d) as char
    } else {
        (87 + d) as char
    }
}

/// The last `n` digits of a number to the base sixteen.
pub open spec fn hex(value: nat, n: nat) -> Seq<char>
    decreases n,
{
    if n == 0 {
        Seq::empty()
    } else {
        hex(value / 16, (n - 1) as nat).push(hex_digit((value % 16) as int))
    }
}

/// Digits to the base sixteen are as many as asked for.
proof fn lemma_hex_len(value: nat, n: nat)
    ensures
        hex(value, n).len() == n,
    decreases n,
{
    if n > 0 {
        lemma_hex_len(value / 16, (n - 1) as nat);
    }
}

/// A digit of a number to the base sixteen.
fn digit(d: u64) -> (r: char)
    requires
        d < 16,
    ensures
        r == hex_digit(d as int),
{
    let b: u8 = if d < 10 {
        48 + d as u8
    } else {
        87 + d as u8
    };
    b as char
}

/// Appends the last `n` digits of a number to the base sixteen.
fn push_hex(out: &mut String, value: u64, n: usize)
    ensures
        final(out)@ == old(out)@ + hex(value as nat, n as nat),
    decreases n,
{
    let ghost start = out@;
    if n > 0 {
        push_hex(out, value / 16, n - 1);
        out.push(digit(value % 16));
        proof {
            assert(out@ =~= start + hex(value as nat, n as nat));
        }
    } else {
        proof {
            assert(out@ =~= start + hex(value as nat, 0));
        }
    }
}

/// An identifier from the seconds and nanoseconds of the time and two random
/// numbers.
pub open spec fn uuid_of(secs: nat, nanos: nat, r1: nat, r2: nat) -> Seq<char> {
    hex(secs, 8) + "-"@ + hex(nanos / 65536, 4) + "-4"@ + hex(r1, 3) + "-"@ + hex(
        r2 / 281474976710656,
        4,
    ) + "-"@ + hex(r2, 12)
}

/// An identifier from the seconds and nanoseconds of the time and two random
/// numbers.
pub fn make_uuid(secs: u64, nanos: u32, r1: u64, r2: u64) -> (r: String)
    ensures
        r@ == uuid_of(secs as nat, nanos as nat, r1 as nat, r2 as nat),
{
    let mut out = String::new();
    push_hex(&mut out, secs, 8);
    proof {
        assert(Seq::<char>::empty() + hex(secs as nat, 8) =~= hex(secs as nat, 8));
    }
    out.append("-");
    push_hex(&mut out, (nanos / 65536) as u64, 4);
    out.append("-4");
    push_hex(&mut out, r1, 3);
    out.append("-");
    push_hex(&mut out, r2 / 281474976710656, 4);
    out.append("-");
    push_hex(&mut out, r2, 12);
    out
}

/// An identifier has 36 characters, in groups of 8, 4, 4, 4 and 12 with dashes
/// between them, and the third group begins with a four.
pub proof fn law_uuid_shape(secs: nat, nanos: nat, r1: nat, r2: nat)
    ensures
        uuid_of(secs, nanos, r1, r2).len() == 36,
        uuid_of(secs, nanos, r1, r2)[8] == '-',
        uuid_of(secs, nanos, r1, r2)[13] == '-',
        uuid_of(secs, nanos, r1, r2)[14] == '4',
        uuid_of(secs, nanos, r1, r2)[18] == '-',
        uuid_of(secs, nanos, r1, r2)[23] == '-',
{
    lemma_hex_len(secs, 8);
    lemma_hex_len(nanos / 65536, 4);
    lemma_hex_len(r1, 3);
    lemma_hex_len(r2 / 281474976710656, 4);
    lemma_hex_len(r2, 12);
    reveal_strlit("-");
    reveal_strlit("-4");
}

} // verus!
