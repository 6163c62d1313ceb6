//! `mcp`: the servers of tools in the settings.
use vstd::prelude::*;

use crate::config::{Config, McpConfig};
use crate::text;

verus! {

/// A server in the list: its name and its description.
pub open spec fn server_line(e: (String, McpConfig)) -> Seq<char> {
    e.0@ + " — "@ + match e.1.description {
        Some(d) => d@,
        None => "(설명 없음)"@,
    }
}

/// The lines about servers, in the order of their names; a notice where there
/// are none.
pub fn list(cfg: &Config) -> (r: Vec<String>)
    ensures
        text::views(r@) == if cfg.mcp.entries@.len() == 0 {
            seq!["(MCP 서버 없음)"@]
        } else {
            cfg.mcp.entries@.map_values(|e: (String, McpConfig)| server_line(e))
        },
{
    let entries = &cfg.mcp.entries;
    let mut out: Vec<String> = Vec::new();
    if entries.len() == 0 {
        out.push("(MCP 서버 없음)".to_string());
        proof {
            assert(text::views(out@) =~= seq!["(MCP 서버 없음)"@]);
        }
        return out;
    }
    let mut i: usize = 0;
    while i < entries.len()
        invariant
            i <= entries.len(),
            out@.len() == i,
            forall|k: int| 0 <= k < i ==> (#[trigger] out@[k])@ == server_line(entries@[k]),
        decreases entries.len() - i,
    {
        let mut line = entries[i].0.clone();
        line.append(" — ");
        match &entries[i].1.description {
            Some(d) => {
                line.append(d);
            },
            None => {
                line.append("(설명 없음)");
            },
        }
        out.push(line);
        i = i + 1;
    }
    proof {
        assert(text::views(out@) =~= entries@.map_values(
            |e: (String, McpConfig)| server_line(e),
        ));
    }
    out
}

} // verus!
