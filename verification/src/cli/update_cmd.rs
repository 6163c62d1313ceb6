//! `update`: newer versions of the program.
use vstd::prelude::*;

use crate::config::{Config, UpdateMode};

verus! {

/// The repository that newer versions come from, where the settings say
/// nothing.
pub const DEFAULT_REPO: &'static str = "agurrrrr/bulti";

/// The repository that newer versions come from, and what is done about them.
pub fn update_config(cfg: &Config) -> (r: (String, UpdateMode))
    ensures
        match cfg@.update {
            Some(u) => r.0@ == u.repo && r.1 == u.mode,
            None => r.0@ == DEFAULT_REPO@ && r.1 == UpdateMode::Check,
        },
{
    match &cfg.update {
        Some(u) => (u.repo.clone(), u.mode),
        None => (DEFAULT_REPO.to_string(), UpdateMode::Check),
    }
}

} // verus!
