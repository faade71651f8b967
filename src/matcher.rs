//! The rule matcher: does one running process fall under one block rule?

use vstd::prelude::*;

use crate::records::{BlockRule, ProcessDescriptor};
use crate::text::{
    chars_of, contains_text, ends_with_text, has_suffix, is_substring, lower_of, lowercase,
    same_text,
};

verus! {

/// The suffix that executable names carry.
pub open spec fn exe_suffix() -> Seq<char> {
    ".exe"@
}

pub open spec fn is_separator(c: char) -> bool {
    c == '\\' || c == '/'
}

pub open spec fn has_separator(s: Seq<char>) -> bool {
    exists|i: int| 0 <= i < s.len() && is_separator(#[trigger] s[i])
}

/// What follows the last path separator (the whole text when there is none).
pub open spec fn last_component(s: Seq<char>) -> Seq<char>
    decreases s.len(),
{
    if s.len() == 0 {
        s
    } else if is_separator(s.last()) {
        Seq::empty()
    } else {
        last_component(s.drop_last()).push(s.last())
    }
}

/// The executable name a rule's target stands for, before any suffix is added.
pub open spec fn target_base(app_id: Seq<char>) -> Seq<char> {
    if has_separator(app_id) {
        last_component(app_id)
    } else {
        app_id
    }
}

/// The suffix rule: keep a name whose lowercase form ends in `.exe`, else append it.
pub open spec fn with_exe_suffix(base: Seq<char>, folded_base: Seq<char>) -> Seq<char> {
    if has_suffix(folded_base, exe_suffix()) {
        base
    } else {
        base + exe_suffix()
    }
}

/// A rule's target normalised to an executable name.
pub open spec fn normalized_target(app_id: Seq<char>) -> Seq<char> {
    with_exe_suffix(target_base(app_id), lower_of(target_base(app_id)))
}

/// The path a process descriptor reports, empty when it has none.
pub open spec fn path_text(p: ProcessDescriptor) -> Seq<char> {
    match p.path {
        Some(s) => s@,
        None => Seq::empty(),
    }
}

/// The verdict of a rule on a process with the given name and path.
pub open spec fn rule_verdict(
    name: Seq<char>,
    path: Seq<char>,
    app_id: Seq<char>,
    match_kind: Seq<char>,
) -> bool {
    if match_kind == "exe"@ {
        lower_of(name) == lower_of(normalized_target(app_id))
    } else if match_kind == "path"@ {
        path.len() > 0 && is_substring(lower_of(app_id), lower_of(path))
    } else {
        is_substring(lower_of(normalized_target(app_id)), lower_of(name))
    }
}

/// Whether `rule` applies to `process`.
pub open spec fn process_matches(process: ProcessDescriptor, rule: BlockRule) -> bool {
    rule_verdict(process.name@, path_text(process), rule.app_id@, rule.match_kind@)
}

proof fn lemma_last_component_from(s: Seq<char>, k: int)
    requires
        -1 <= k < s.len(),
        k == -1 || is_separator(s[k]),
        forall|j: int| k < j < s.len() ==> !is_separator(#[trigger] s[j]),
    ensures
        last_component(s) == s.subrange(k + 1, s.len() as int),
    decreases s.len(),
{
    if s.len() == 0 {
    } else if k == s.len() - 1 {
        assert(s.subrange(k + 1, s.len() as int) =~= Seq::<char>::empty());
    } else {
        let t = s.drop_last();
        assert forall|j: int| k < j < t.len() implies !is_separator(#[trigger] t[j]) by {
            assert(t[j] == s[j]);
        }
        assert(!is_separator(s[s.len() - 1]));
        lemma_last_component_from(t, k);
        assert(s.subrange(k + 1, s.len() as int) =~= t.subrange(k + 1, t.len() as int).push(
            s.last(),
        ));
    }
}

/// The part of `app_id` after its last `\` or `/`; all of it when it has neither.
pub fn target_base_of(app_id: &str) -> (r: String)
    ensures
        r@ == target_base(app_id@),
{
    let cs = chars_of(app_id);
    let n = cs.len();
    let mut i: usize = n;
    while i > 0
        invariant
            cs@ == app_id@,
            n == cs.len(),
            i <= n,
            forall|j: int| i <= j < n ==> !is_separator(#[trigger] app_id@[j]),
        decreases i,
    {
        let c = cs[i - 1];
        if c == '\\' || c == '/' {
            proof {
                lemma_last_component_from(app_id@, i - 1);
            }
            let r = String::from_str(app_id.substring_char(i, n));
            return r;
        }
        i = i - 1;
    }
    proof {
        lemma_last_component_from(app_id@, -1);
        assert(app_id@.subrange(0, app_id@.len() as int) =~= app_id@);
    }
    String::from_str(app_id)
}

/// Appends `.exe` to `base` unless `folded_base` (its lowercase form) already ends in it.
pub fn add_exe_suffix(base: &str, folded_base: &str) -> (r: String)
    ensures
        r@ == with_exe_suffix(base@, folded_base@),
{
    let mut r = String::from_str(base);
    if !ends_with_text(folded_base, ".exe") {
        r.append(".exe");
    }
    r
}

/// A rule's target as an executable name: its last path component, with
/// `.exe` appended unless it ends in that suffix in any case.
pub fn normalize_target(app_id: &str) -> (r: String)
    ensures
        r@ == normalized_target(app_id@),
{
    let base = target_base_of(app_id);
    let folded = lowercase(base.as_str());
    add_exe_suffix(base.as_str(), folded.as_str())
}

/// The path test on lowercase forms: the path is non-empty and holds the target.
pub fn path_hit(path: &str, folded_path: &str, folded_app_id: &str) -> (r: bool)
    ensures
        r == (path@.len() > 0 && is_substring(folded_app_id@, folded_path@)),
{
    let cs = chars_of(path);
    if cs.len() == 0 {
        return false;
    }
    contains_text(folded_path, folded_app_id)
}

/// Whether `rule` applies to `process`.
///
/// By `match_kind`: "exe" compares the lowercase forms of the process name
/// and of the normalised target; "path" looks for the rule's `app_id` in the
/// process's path, ignoring case, and never matches an empty or absent path;
/// any other kind looks for the normalised target in the process name,
/// ignoring case.
pub fn matches(process: &ProcessDescriptor, rule: &BlockRule) -> (r: bool)
    ensures
        r == process_matches(*process, *rule),
{
    let kind = rule.match_kind.as_str();
    if same_text(kind, "exe") {
        let target = normalize_target(rule.app_id.as_str());
        let folded_target = lowercase(target.as_str());
        let folded_name = lowercase(process.name.as_str());
        same_text(folded_name.as_str(), folded_target.as_str())
    } else if same_text(kind, "path") {
        let path: &str = match &process.path {
            Some(p) => p.as_str(),
            None => "",
        };
        proof {
            reveal_strlit("");
        }
        let folded_path = lowercase(path);
        let folded_app_id = lowercase(rule.app_id.as_str());
        path_hit(path, folded_path.as_str(), folded_app_id.as_str())
    } else {
        let target = normalize_target(rule.app_id.as_str());
        let folded_target = lowercase(target.as_str());
        let folded_name = lowercase(process.name.as_str());
        contains_text(folded_name.as_str(), folded_target.as_str())
    }
}

/// An "exe" rule matches a process exactly when the lowercase form of the
/// process name equals the lowercase form of the rule's normalised target.
pub proof fn lemma_exe_rule_matches(process: ProcessDescriptor, rule: BlockRule)
    requires
        rule.match_kind@ == "exe"@,
    ensures
        process_matches(process, rule) <==> lower_of(process.name@) == lower_of(
            normalized_target(rule.app_id@),
        ),
{
}

/// A "path" rule matches a process exactly when the process reports a
/// non-empty path whose lowercase form holds the lowercase form of the
/// rule's `app_id`.
pub proof fn lemma_path_rule_matches(process: ProcessDescriptor, rule: BlockRule)
    requires
        rule.match_kind@ == "path"@,
    ensures
        process_matches(process, rule) <==> (path_text(process).len() > 0 && is_substring(
            lower_of(rule.app_id@),
            lower_of(path_text(process)),
        )),
{
    reveal_strlit("exe");
    reveal_strlit("path");
    assert("exe"@ != "path"@) by {
        assert("exe"@[0] != "path"@[0]);
    }
}

} // verus!
