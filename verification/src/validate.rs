//! The checks that a bundle must pass before it is deployed.
use vstd::prelude::*;

pub mod no_global_duplicates;
pub mod raw_logs_timestamp;
pub mod summary_table;
pub mod summary_table_references;
pub mod template_variable_consistency;
pub mod datasource_uid_consistency;
pub mod template_variable_datasource;
pub mod valid_base_url;
pub mod no_duplicate_tokens;
pub mod naming_is_valid;
pub mod files;
pub mod summary_column_schema;
pub mod dashboard_column_usage;
pub mod transform_dryrun;
pub mod transform_sql;
pub mod sample_data_freshness;
pub mod check_dependencies;
pub mod alert_rules_are_valid;
pub mod bundle_name_history;

use crate::ext::{all_captures_view, captures_view, regex_captures, regex_captures_spec, Captures};
use crate::text::views;

verus! {

broadcast use vstd::string::group_string_axioms;

/// The texts of group `g` of the matches, in order (matches where the group
/// took no part skipped).
pub open spec fn group_texts(caps: Seq<Seq<Option<(Seq<char>, usize)>>>, g: int) -> Seq<Seq<char>>
    decreases caps.len(),
{
    if caps.len() == 0 {
        Seq::empty()
    } else {
        let c = caps.last();
        let rest = group_texts(caps.drop_last(), g);
        if 0 <= g < c.len() && c[g] is Some {
            rest.push(c[g]->Some_0.0)
        } else {
            rest
        }
    }
}

/// The texts of group `g` of the matches of `pattern` in `text`; none when
/// the pattern does not compile.
pub open spec fn regex_group_spec(pattern: Seq<char>, text: Seq<char>, g: int) -> Seq<Seq<char>> {
    match regex_captures_spec(pattern, text) {
        Some(caps) => group_texts(caps, g),
        None => Seq::empty(),
    }
}

/// The first match of `pattern` in `text`, as `Regex::captures` finds it:
/// `None` when there is none (or the pattern does not compile).
pub open spec fn first_match_spec(pattern: Seq<char>, text: Seq<char>) -> Option<Seq<Option<(Seq<char>, usize)>>> {
    match regex_captures_spec(pattern, text) {
        Some(caps) => if caps.len() > 0 {
            Some(caps[0])
        } else {
            None
        },
        None => None,
    }
}

/// The text of group `g` of a match, when the group took part.
pub open spec fn group_text(m: Seq<Option<(Seq<char>, usize)>>, g: int) -> Option<Seq<char>> {
    if 0 <= g < m.len() && m[g] is Some {
        Some(m[g]->Some_0.0)
    } else {
        None
    }
}

/// The first match of `pattern` in `text`: for each group, its text when
/// the group took part.
pub fn regex_first(pattern: &str, text: &str) -> (r: Option<Vec<Option<String>>>)
    ensures
        match r {
            Some(m) => first_match_spec(pattern@, text@) is Some && m@.len() == first_match_spec(pattern@, text@)->Some_0.len()
                && forall|g: int| 0 <= g < m@.len() ==> match #[trigger] m@[g] {
                    Some(t) => group_text(first_match_spec(pattern@, text@)->Some_0, g) == Some(t@),
                    None => group_text(first_match_spec(pattern@, text@)->Some_0, g) is None,
                },
            None => first_match_spec(pattern@, text@) is None,
        },
{
    let caps = match regex_captures(pattern, text) {
        Some(c) => c,
        None => return None,
    };
    if caps.len() == 0 {
        return None;
    }
    let c = &caps[0];
    assert(all_captures_view(caps)[0] == captures_view(*c));
    let mut out: Vec<Option<String>> = Vec::new();
    let mut g: usize = 0;
    while g < c.len()
        invariant
            g <= c@.len(),
            out@.len() == g,
            all_captures_view(caps)[0] == captures_view(*c),
            first_match_spec(pattern@, text@) == Some(captures_view(*c)),
            forall|k: int| 0 <= k < g ==> match #[trigger] out@[k] {
                Some(t) => group_text(captures_view(*c), k) == Some(t@),
                None => group_text(captures_view(*c), k) is None,
            },
        decreases c.len() - g,
    {
        match &c[g] {
            Some(m) => {
                assert(captures_view(*c)[g as int] == Some((m.text@, m.start)));
                out.push(Some(m.text.clone()));
            },
            None => {
                assert(captures_view(*c)[g as int] is None);
                out.push(None);
            },
        }
        g = g + 1;
    }
    Some(out)
}

/// The texts of group `g` of the matches.
pub fn group_of(caps: &Vec<Captures>, g: usize) -> (r: Vec<String>)
    ensures
        views(r@) == group_texts(all_captures_view(*caps), g as int),
{
    let ghost all = all_captures_view(*caps);
    let mut r: Vec<String> = Vec::new();
    let mut i: usize = 0;
    assert(all.take(0) =~= Seq::<Seq<Option<(Seq<char>, usize)>>>::empty());
    assert(views(r@) =~= Seq::<Seq<char>>::empty());
    while i < caps.len()
        invariant
            i <= caps@.len(),
            all == all_captures_view(*caps),
            views(r@) == group_texts(all.take(i as int), g as int),
        decreases caps.len() - i,
    {
        assert(all.take(i + 1).drop_last() =~= all.take(i as int));
        assert(all.take(i + 1).last() == captures_view(caps@[i as int]));
        let c = &caps[i];
        if g < c.len() {
            match &c[g] {
                Some(m) => {
                    assert(captures_view(*c)[g as int] == Some((m.text@, m.start)));
                    let ghost before = views(r@);
                    r.push(m.text.clone());
                    assert(views(r@) =~= before.push(m.text@));
                },
                None => {
                    assert(captures_view(*c)[g as int] is None);
                },
            }
        }
        i = i + 1;
    }
    assert(all.take(i as int) =~= all);
    r
}

/// The texts of group `g` of the matches of `pattern` in `text`.
pub fn regex_group(pattern: &str, text: &str, g: usize) -> (r: Vec<String>)
    ensures
        views(r@) == regex_group_spec(pattern@, text@, g as int),
{
    match regex_captures(pattern, text) {
        Some(caps) => group_of(&caps, g),
        None => {
            let r: Vec<String> = Vec::new();
            assert(views(r@) =~= Seq::<Seq<char>>::empty());
            r
        },
    }
}

/// The first error that `f` gives at the indices from `i` up to `n`.
pub open spec fn first_error_from(f: spec_fn(int) -> Option<Seq<char>>, i: int, n: int) -> Option<Seq<char>>
    decreases n - i,
{
    if i >= n {
        None
    } else {
        match f(i) {
            Some(e) => Some(e),
            None => first_error_from(f, i + 1, n),
        }
    }
}

} // verus!
