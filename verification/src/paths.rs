//! Paths as texts, with slashes between their parts.
use vstd::prelude::*;

use crate::text;

verus! {

/// A path below another one. A path that begins with a slash stands for itself.
pub open spec fn below(base: Seq<char>, part: Seq<char>) -> Seq<char> {
    if part.len() > 0 && part[0] == '/' {
        part
    } else if base.len() == 0 || base.last() == '/' {
        base + part
    } else {
        base + "/"@ + part
    }
}

/// A path below another one.
pub fn join(base: &str, part: &str) -> (r: String)
    ensures
        r@ == below(base@, part@),
{
    let p = text::chars_of(part);
    if p.len() > 0 && p[0] == '/' {
        return part.to_string();
    }
    let b = text::chars_of(base);
    let mut out = base.to_string();
    if b.len() > 0 && b[b.len() - 1] != '/' {
        out.append("/");
    }
    out.append(part);
    out
}

} // verus!
