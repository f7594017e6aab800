//! Which bundles of the repository a run checks.
use vstd::prelude::*;
use crate::text::{contains, decimal, is_blank, replace, str_contains, str_eq, str_replace, views};
use crate::grafana::plugins::{join, join_strings};

verus! {

broadcast use vstd::string::group_string_axioms;

/// Whether a bundle's name matches the positional filter: everything
/// matches an empty filter; when some bundle is named exactly as the filter,
/// only that name matches; otherwise any name that contains the filter.
pub open spec fn matches_filter_spec(name: Seq<char>, filter: Seq<char>, exact_match_present: bool) -> bool {
    if filter.len() == 0 {
        true
    } else if exact_match_present {
        name == filter
    } else {
        contains(name, filter)
    }
}

/// Decides whether a bundle's name matches the user's positional filter.
pub fn bundle_matches_filter(name: &str, filter: &str, exact_match_present: bool) -> (b: bool)
    ensures
        b == matches_filter_spec(name@, filter@, exact_match_present),
{
    if filter.is_empty() {
        return true;
    }
    if exact_match_present {
        str_eq(name, filter)
    } else {
        str_contains(name, filter)
    }
}

/// An empty filter selects every bundle.
pub proof fn lemma_empty_filter_matches_all(name: Seq<char>, exact_match_present: bool)
    ensures
        matches_filter_spec(name, Seq::empty(), exact_match_present),
{
}

/// Whether some bundle is named exactly as the (non-empty) filter.
pub open spec fn exact_match_spec(names: Seq<Seq<char>>, filter: Seq<char>) -> bool {
    filter.len() > 0 && names.contains(filter)
}

/// Whether some bundle is named exactly as the filter; never for an empty
/// filter.
pub fn exact_match_in_filter(names: &Vec<String>, filter: &str) -> (b: bool)
    ensures
        b == exact_match_spec(views(names@), filter@),
{
    if filter.is_empty() {
        return false;
    }
    crate::text::list_contains(names, filter)
}

/// When a bundle is named exactly as the filter, the filter selects that
/// name and nothing else; where none is, every name that contains the filter.
pub proof fn lemma_filter_selection(names: Seq<Seq<char>>, filter: Seq<char>, name: Seq<char>)
    requires
        filter.len() > 0,
    ensures
        exact_match_spec(names, filter) ==> (matches_filter_spec(name, filter, exact_match_spec(names, filter))
            <==> name == filter),
        !exact_match_spec(names, filter) ==> (matches_filter_spec(name, filter, exact_match_spec(names, filter))
            <==> contains(name, filter)),
{
}

/// The names among `names` that the filter selects, in order.
pub open spec fn selected_names(names: Seq<Seq<char>>, filter: Seq<char>) -> Seq<Seq<char>> {
    names.filter(|n: Seq<char>| matches_filter_spec(n, filter, exact_match_spec(names, filter)))
}

/// The error of a remote run whose filter selects no bundle, or more than
/// one.
pub open spec fn remote_filter_error(matched: Seq<Seq<char>>, filter: Seq<char>) -> Option<Seq<char>> {
    if matched.len() == 0 {
        Some("--remote: no bundles match filter '"@ + filter + "'"@)
    } else if matched.len() > 1 {
        Some("--remote: filter '"@ + filter + "' matches multiple bundles ("@ + join(matched, ", "@)
            + "); narrow the filter"@)
    } else {
        None
    }
}

/// A remote run deploys exactly one bundle: fails when the names that the
/// filter selected are none or several.
pub fn check_remote_selection(matched_names: &Vec<String>, filter: &str) -> (r: Result<(), String>)
    ensures
        match r {
            Ok(()) => remote_filter_error(views(matched_names@), filter@) is None,
            Err(e) => remote_filter_error(views(matched_names@), filter@) == Some(e@),
        },
{
    if matched_names.len() == 0 {
        let mut e = "--remote: no bundles match filter '".to_string();
        crate::text::append(&mut e, filter);
        crate::text::append(&mut e, "'");
        return Err(e);
    }
    if matched_names.len() > 1 {
        let mut e = "--remote: filter '".to_string();
        crate::text::append(&mut e, filter);
        crate::text::append(&mut e, "' matches multiple bundles (");
        let j = join_strings(matched_names, ", ");
        crate::text::append(&mut e, j.as_str());
        crate::text::append(&mut e, "); narrow the filter");
        assert(e@ =~= "--remote: filter '"@ + filter@ + "' matches multiple bundles ("@ + join(
            views(matched_names@),
            ", "@,
        ) + "); narrow the filter"@);
        return Err(e);
    }
    Ok(())
}

/// The directory of a bundle from the path of its `bundle.json`: every
/// `./` and `/bundle.json` removed.
pub open spec fn base_dir_spec(file_path: Seq<char>) -> Seq<char> {
    replace(replace(file_path, "./"@, ""@), "/bundle.json"@, ""@)
}

/// The directory of a bundle from the path of its `bundle.json`.
pub fn base_dir_of(file_path: &str) -> (r: String)
    ensures
        r@ == base_dir_spec(file_path@),
{
    let a = str_replace(file_path, "./", "");
    str_replace(a.as_str(), "/bundle.json", "")
}

} // verus!
