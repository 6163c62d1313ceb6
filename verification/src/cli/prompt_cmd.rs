//! `prompt`: the system prompt.
use vstd::prelude::*;

use crate::prompt::Override;
use crate::text;

verus! {

/// The prompt given for a run: a file goes before a text.
pub fn override_from_run_args(system_file: &Option<String>, system: &Option<String>) -> (r: Option<
    Override,
>)
    ensures
        match r {
            Some(Override::File(path)) => text::opt_view(*system_file) == Some(path@),
            Some(Override::Inline(s)) => system_file is None && text::opt_view(*system) == Some(s@),
            None => system_file is None && system is None,
        },
{
    match system_file {
        Some(path) => Some(Override::File(path.clone())),
        None => match system {
            Some(s) => Some(Override::Inline(s.clone())),
            None => None,
        },
    }
}

} // verus!
