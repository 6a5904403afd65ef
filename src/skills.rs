use vstd::prelude::*;

use vstd::string::StringExecFns;

use crate::text::{is_substring, str_contains};

verus! {

/// The settings a skill menu's option line shows as selected: training
/// mode, which skills are listed, and what the columns show.
pub open spec fn skill_settings(options: Seq<char>) -> (Seq<char>, Seq<char>, Seq<char>) {
    let mode = if is_substring("<span class=\"fg15 bg0\">auto</span>"@, options) {
        "auto"@
    } else {
        "manual"@
    };
    let scope = if is_substring("<span class=\"fg15 bg0\">useful</span>"@, options) {
        "useful"@
    } else {
        "all"@
    };
    let view = if is_substring("<span class=\"fg15 bg0\">training</span>"@, options) {
        "training"@
    } else if is_substring("<span class=\"fg15 bg0\">cost</span>"@, options) {
        "cost"@
    } else {
        "targets"@
    };
    (mode, scope, view)
}

/// Reads the selected settings off a skill menu's option line.
pub fn skills_options(options: String) -> (r: (String, String, String))
    ensures
        (r.0@, r.1@, r.2@) == skill_settings(options@),
{
    let mode = if str_contains(options.as_str(), "<span class=\"fg15 bg0\">auto</span>") {
        "auto"
    } else {
        "manual"
    };
    let scope = if str_contains(options.as_str(), "<span class=\"fg15 bg0\">useful</span>") {
        "useful"
    } else {
        "all"
    };
    let view = if str_contains(options.as_str(), "<span class=\"fg15 bg0\">training</span>") {
        "training"
    } else if str_contains(options.as_str(), "<span class=\"fg15 bg0\">cost</span>") {
        "cost"
    } else {
        "targets"
    };
    (String::from_str(mode), String::from_str(scope), String::from_str(view))
}

}
