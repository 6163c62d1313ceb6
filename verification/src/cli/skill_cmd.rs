//! `skill`: the skills that can be loaded.
use vstd::prelude::*;

use crate::skills::SkillIndex;
use crate::text;

verus! {

/// The lines about skills: name and description of each; a notice where there
/// are none.
pub fn list(skills: &[SkillIndex]) -> (r: Vec<String>)
    ensures
        text::views(r@) == if skills@.len() == 0 {
            seq!["(스킬 없음)"@]
        } else {
            skills@.map_values(|s: SkillIndex| s.name@ + " — "@ + s.description@)
        },
{
    let mut out: Vec<String> = Vec::new();
    if skills.len() == 0 {
        out.push("(스킬 없음)".to_string());
        proof {
            assert(text::views(out@) =~= seq!["(스킬 없음)"@]);
        }
        return out;
    }
    let mut i: usize = 0;
    while i < skills.len()
        invariant
            i <= skills.len(),
            out@.len() == i,
            forall|k: int|
                0 <= k < i ==> (#[trigger] out@[k])@ == skills@[k].name@ + " — "@
                    + skills@[k].description@,
        decreases skills.len() - i,
    {
        let mut line = skills[i].name.clone();
        line.append(" — ");
        line.append(&skills[i].description);
        out.push(line);
        i = i + 1;
    }
    proof {
        assert(text::views(out@) =~= skills@.map_values(
            |s: SkillIndex| s.name@ + " — "@ + s.description@,
        ));
    }
    out
}

} // verus!
