//! The `skill_load` tool: hands the text of a skill to the model.
use vstd::prelude::*;

use crate::json::Json;
use crate::tools::{SpecModel, Tool, ToolRegistry};
use crate::tools;
use crate::tools::util;

verus! {

/// The parameters: name, kind and description.
pub const PARAMETERS: [(&'static str, &'static str, &'static str); 1] = [
    ("name", "string", "로드할 스킬 이름 (프로젝트 → 글로벌 → 번들 순으로 찾음)"),
];

/// The parameters that must be given.
pub const REQUIRED: [&'static str; 1] = ["name"];

/// What the model reads about the tool.
pub const DESCRIPTION: &'static str =
    "스킬 본문 전체를 로드합니다. 시스템 프롬프트의 스킬 인덱스에서 본문이 필요하다고 판단될 때 호출하세요.";

/// The schema of the tool's parameters.
pub fn schema() -> (r: Json)
    ensures
        r@ == util::schema_of(PARAMETERS@, REQUIRED@),
{
    util::object_schema(&PARAMETERS, &REQUIRED)
}

/// Registers the tool.
pub fn register(reg: &mut ToolRegistry<Tool>)
    requires
        old(reg).wf(),
    ensures
        final(reg).wf(),
        final(reg).vision == old(reg).vision,
        final(reg).model() == old(reg).model().insert(
            "skill_load"@,
            (SpecModel {
                def: tools::definition_of(
                    "skill_load"@,
                    DESCRIPTION@,
                    util::schema_of(PARAMETERS@, REQUIRED@),
                ),
                handler: Tool::SkillLoad,
            }),
        ),
{
    reg.register("skill_load", DESCRIPTION, schema(), Tool::SkillLoad);
}

/// Reads a call's arguments: the name of a skill, which must not be blank.
pub fn request(args: &Json) -> (r: Result<String, String>)
    ensures
        match r {
            Ok(name) => util::filled_text(args@, "name"@) == Some(name@),
            Err(e) => {
                &&& util::filled_text(args@, "name"@) is None
                &&& e@ == "name 은 스킬 이름 문자열이어야 합니다"@
            },
        },
{
    match util::filled_arg(args, "name") {
        Some(name) => Ok(name),
        None => Err("name 은 스킬 이름 문자열이어야 합니다".to_string()),
    }
}

} // verus!
