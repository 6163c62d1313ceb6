//! `version`: the version of the program.
use vstd::prelude::*;

use crate::cli::VersionArgs;
use crate::json::{Json, JsonModel};
use crate::json;

verus! {

/// The version as a JSON object.
pub open spec fn version_json(version: Seq<char>) -> JsonModel {
    JsonModel::Object(
        seq![
            ("name"@, JsonModel::Str("bulti"@)),
            ("version"@, JsonModel::Str(version)),
            ("edition"@, JsonModel::Str("2024"@)),
        ],
    )
}

/// What `version` writes, for the given version.
pub fn run(args: &VersionArgs, version: &str) -> (r: String)
    ensures
        r@ == if args.json {
            json::json_print(version_json(version@))
        } else {
            "bulti "@ + version@
        },
{
    if args.json {
        let mut v: Vec<(String, Json)> = Vec::new();
        v.push(("name".to_string(), Json::string("bulti")));
        v.push(("version".to_string(), Json::string(version)));
        v.push(("edition".to_string(), Json::string("2024")));
        proof {
            assert(Json::members(v@) =~= version_json(version@)->Object_0);
        }
        Json::object(v).to_text()
    } else {
        "bulti ".to_string().concat(version)
    }
}

} // verus!
