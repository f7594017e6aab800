//! A warning when a bundle's `name` differs from the one in the previous
//! commit of its `bundle.json`: renaming a bundle can break deployments that
//! use the old name. The caller asks git; this module reads its answers.
use vstd::prelude::*;
use crate::json::Json;
use crate::text::{chars_of, concat, append, owned, str_eq, str_trim, trim, split_char, split_chars, string_of, trim_chars};

verus! {

broadcast use vstd::string::group_string_axioms;

/// The path of `bundle.json` relative to the repository root, given the
/// bundle directory relative to it.
pub fn git_path(rel_dir: &str) -> (r: String)
    ensures
        r@ == if rel_dir@.len() == 0 {
            "bundle.json"@
        } else {
            rel_dir@ + "/bundle.json"@
        },
{
    if rel_dir.is_empty() {
        owned("bundle.json")
    } else {
        concat(rel_dir, "/bundle.json")
    }
}

/// The commit before the latest in a `git log --format=%H -2` answer: its
/// second line, trimmed; none when there is no second line.
pub open spec fn previous_commit_spec(log: Seq<char>) -> Option<Seq<char>> {
    let lines = split_char(trim(log), '\n');
    if trim(log).len() == 0 || lines.len() < 2 {
        None
    } else {
        Some(trim(lines[1]))
    }
}

/// The commit to compare with, from git's log.
pub fn previous_commit(log: &str) -> (r: Option<String>)
    ensures
        match r {
            Some(h) => previous_commit_spec(log@) == Some(h@),
            None => previous_commit_spec(log@) is None,
        },
{
    let t = str_trim(log);
    let cs = chars_of(t.as_str());
    if cs.len() == 0 {
        return None;
    }
    let lines = split_chars(cs.as_slice(), '\n');
    if lines.len() < 2 {
        return None;
    }
    let second = trim_chars(lines[1].as_slice());
    Some(string_of(second.as_slice()))
}

pub open spec fn rename_message(old_name: Seq<char>, current: Seq<char>) -> Seq<char> {
    "bundle.json name was changed from '"@ + old_name + "' to '"@ + current
        + "' in the latest commit. Renaming a bundle can break existing customer deployments."@
}

/// The warning when the previous `bundle.json` (parsed) names the bundle
/// otherwise than `current_name` does now.
pub fn rename_warning(previous: &Json, current_name: &str) -> (r: Option<String>)
    ensures
        match previous.get_spec("name"@) {
            Some(n) => match n.str_spec() {
                Some(old) => if old != current_name@ {
                    r matches Some(w) && w@ == rename_message(old, current_name@)
                } else {
                    r is None
                },
                None => r is None,
            },
            None => r is None,
        },
{
    match previous.get("name") {
        Some(n) => match n.as_str() {
            Some(old) => {
                if !str_eq(old.as_str(), current_name) {
                    let mut w = concat("bundle.json name was changed from '", old.as_str());
                    append(&mut w, "' to '");
                    append(&mut w, current_name);
                    append(&mut w, "' in the latest commit. Renaming a bundle can break existing customer deployments.");
                    Some(w)
                } else {
                    None
                }
            },
            None => None,
        },
        None => None,
    }
}

} // verus!
