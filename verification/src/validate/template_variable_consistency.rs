//! The `__NAME__` template variables of the dashboards must be ones that the
//! bundle declares, and links to sibling dashboards must go through macros.
use vstd::prelude::*;
use crate::ext::{all_captures_view, debug_strings, debug_strings_spec, regex_captures, regex_captures_spec, Captures};
use crate::grafana::dashboard::{macro_spec, slug_to_macro};
use crate::models::bundle::{Bundle, SummaryTable, Table};
use crate::text::{append, lemma_take_contains, list_contains, push_unique, starts_with, str_eq, str_starts_with, views};

verus! {

broadcast use vstd::string::group_string_axioms;

/// A standard Grafana variable, allowed in any dashboard.
pub open spec fn grafana_variable_spec(var: Seq<char>) -> bool {
    starts_with(var, "__time"@) || starts_with(var, "__from"@) || starts_with(var, "__to"@)
        || var == "__dashboard"@ || var == "__user"@ || starts_with(var, "__interval"@)
}

/// Whether a variable is a standard Grafana variable.
pub fn is_grafana_variable(var: &str) -> (b: bool)
    ensures
        b == grafana_variable_spec(var@),
{
    str_starts_with(var, "__time") || str_starts_with(var, "__from") || str_starts_with(var, "__to")
        || str_eq(var, "__dashboard") || str_eq(var, "__user") || str_starts_with(var, "__interval")
}

/// The variables that a dashboard of the bundle may use: the project,
/// datasource and own-uid placeholders, each table's and summary table's
/// dashboard variable, and the macro of each sibling dashboard.
pub open spec fn expected_spec(b: Bundle, slugs: Seq<Seq<char>>, x: Seq<char>) -> bool {
    ||| x == "__PROJECT_NAME__"@
    ||| x == "__DATASOURCE__"@
    ||| x == "__DASHBOARD_UUID__"@
    ||| exists|i: int| 0 <= i < b.tables@.len() && b.tables@[i].dashboard_var@ == x
    ||| (b.summary_tables is Some && exists|i: int| 0 <= i < b.summary_tables->Some_0@.len() && b.summary_tables->Some_0@[i].dashboard_var@ == x)
    ||| exists|i: int| 0 <= i < slugs.len() && slugs[i].len() > 0 && macro_spec(slugs[i]) == x
}

/// The variables that the bundle's dashboards may use, each once, in the
/// order they are declared.
pub fn expected_variables(b: &Bundle, slugs: &Vec<String>) -> (r: Vec<String>)
    ensures
        views(r@).no_duplicates(),
        forall|x: Seq<char>| #[trigger] views(r@).contains(x) <==> expected_spec(*b, views(slugs@), x),
{
    let mut r: Vec<String> = Vec::new();
    assert(views(r@) =~= Seq::<Seq<char>>::empty());
    push_unique(&mut r, "__PROJECT_NAME__");
    push_unique(&mut r, "__DATASOURCE__");
    let mut i: usize = 0;
    while i < b.tables.len()
        invariant
            i <= b.tables@.len(),
            views(r@).no_duplicates(),
            forall|x: Seq<char>| #[trigger] views(r@).contains(x) <==> (x == "__PROJECT_NAME__"@ || x == "__DATASOURCE__"@
                || exists|k: int| 0 <= k < i && b.tables@[k].dashboard_var@ == x),
        decreases b.tables.len() - i,
    {
        push_unique(&mut r, b.tables[i].dashboard_var.as_str());
        i = i + 1;
    }
    let ghost after_tables = views(r@);
    match &b.summary_tables {
        Some(st) => {
            let mut i: usize = 0;
            while i < st.len()
                invariant
                    i <= st@.len(),
                    views(r@).no_duplicates(),
                    forall|x: Seq<char>| #[trigger] views(r@).contains(x) <==> (after_tables.contains(x)
                        || exists|k: int| 0 <= k < i && st@[k].dashboard_var@ == x),
                decreases st.len() - i,
            {
                push_unique(&mut r, st[i].dashboard_var.as_str());
                i = i + 1;
            }
        },
        None => {},
    }
    let ghost after_summaries = views(r@);
    push_unique(&mut r, "__DASHBOARD_UUID__");
    let ghost before_slugs = views(r@);
    let mut i: usize = 0;
    while i < slugs.len()
        invariant
            i <= slugs@.len(),
            views(r@).no_duplicates(),
            forall|x: Seq<char>| #[trigger] views(r@).contains(x) <==> (before_slugs.contains(x)
                || exists|k: int| 0 <= k < i && slugs@[k]@.len() > 0 && macro_spec(slugs@[k]@) == x),
        decreases slugs.len() - i,
    {
        if !slugs[i].as_str().is_empty() {
            let m = slug_to_macro(slugs[i].as_str());
            push_unique(&mut r, m.as_str());
        }
        i = i + 1;
    }
    assert forall|x: Seq<char>| #[trigger] views(r@).contains(x) <==> expected_spec(*b, views(slugs@), x) by {
        if exists|k: int| 0 <= k < slugs@.len() && slugs@[k]@.len() > 0 && macro_spec(slugs@[k]@) == x {
            let k = choose|k: int| 0 <= k < slugs@.len() && slugs@[k]@.len() > 0 && macro_spec(slugs@[k]@) == x;
            assert(views(slugs@)[k] == slugs@[k]@);
        }
        if exists|k: int| 0 <= k < views(slugs@).len() && views(slugs@)[k].len() > 0 && macro_spec(views(slugs@)[k]) == x {
            let k = choose|k: int| 0 <= k < views(slugs@).len() && views(slugs@)[k].len() > 0 && macro_spec(views(slugs@)[k]) == x;
            assert(views(slugs@)[k] == slugs@[k]@);
        }
    }
    r
}

/// The pattern of a template variable: `__`, a name of upper-case letters,
/// digits and `_` (as short as possible), `__`.
pub open spec fn variable_pattern() -> Seq<char> {
    "__([A-Z_][A-Z0-9_]*?)__"@
}

/// The whole-match texts of the matches, in order.
pub open spec fn whole_matches(caps: Seq<Seq<Option<(Seq<char>, usize)>>>) -> Seq<Seq<char>>
    decreases caps.len(),
{
    if caps.len() == 0 {
        Seq::empty()
    } else {
        let c = caps.last();
        let rest = whole_matches(caps.drop_last());
        if c.len() > 0 && c[0] is Some {
            rest.push(c[0]->Some_0.0)
        } else {
            rest
        }
    }
}

/// The template variables that a dashboard's text uses.
pub open spec fn found_variables_spec(content: Seq<char>) -> Seq<Seq<char>> {
    match regex_captures_spec(variable_pattern(), content) {
        Some(caps) => whole_matches(caps),
        None => Seq::empty(),
    }
}

fn whole_match_texts(caps: &Vec<Captures>) -> (r: Vec<String>)
    ensures
        views(r@) == whole_matches(all_captures_view(*caps)),
{
    let ghost all = all_captures_view(*caps);
    let mut r: Vec<String> = Vec::new();
    let mut i: usize = 0;
    assert(all.take(0) =~= Seq::<Seq<Option<(Seq<char>, usize)>>>::empty());
    assert(views(r@) =~= Seq::<Seq<char>>::empty());
    while i < caps.len()
        invariant
            i <= caps@.len(),
            all == all_captures_view(*caps),
            views(r@) == whole_matches(all.take(i as int)),
        decreases caps.len() - i,
    {
        assert(all.take(i + 1).drop_last() =~= all.take(i as int));
        assert(all.take(i + 1).last() == crate::ext::captures_view(caps@[i as int]));
        let c = &caps[i];
        if c.len() > 0 {
            match &c[0] {
                Some(g) => {
                    assert(crate::ext::captures_view(*c)[0] == Some((g.text@, g.start)));
                    let ghost before = views(r@);
                    r.push(g.text.clone());
                    assert(views(r@) =~= before.push(g.text@));
                },
                None => {
                    assert(crate::ext::captures_view(*c)[0] is None);
                },
            }
        }
        i = i + 1;
    }
    assert(all.take(i as int) =~= all);
    r
}

/// The template variables that a dashboard's text uses, in order.
pub fn found_variables(content: &str) -> (r: Vec<String>)
    ensures
        views(r@) == found_variables_spec(content@),
{
    match regex_captures("__([A-Z_][A-Z0-9_]*?)__", content) {
        Some(caps) => whole_match_texts(&caps),
        None => {
            let r: Vec<String> = Vec::new();
            assert(views(r@) =~= Seq::<Seq<char>>::empty());
            r
        },
    }
}

pub open spec fn unexpected_variable_message(dashboard_name: Seq<char>, var: Seq<char>, expected: Seq<Seq<char>>) -> Seq<char> {
    "ERROR: Dashboard "@ + dashboard_name + " uses unexpected template variable '"@ + var
        + "'.\n  This might be a typo. Expected variables from bundle.json: "@ + debug_strings_spec(expected)
        + "\n  Note: Standard Grafana variables like __time*, __from*, __to*, __user, __interval* are allowed.\n"@
}

/// Checks the variables that a dashboard uses: the first that is neither
/// expected nor a standard Grafana variable is an error.
pub fn check_variables(dashboard_name: &str, found: &Vec<String>, expected: &Vec<String>) -> (r: Result<(), String>)
    ensures
        match r {
            Ok(()) => forall|i: int| 0 <= i < found@.len() ==> views(expected@).contains(#[trigger] found@[i]@) || grafana_variable_spec(found@[i]@),
            Err(e) => exists|i: int| 0 <= i < found@.len() && !views(expected@).contains(#[trigger] found@[i]@) && !grafana_variable_spec(found@[i]@)
                && (forall|k: int| 0 <= k < i ==> views(expected@).contains(#[trigger] found@[k]@) || grafana_variable_spec(found@[k]@))
                && e@ == unexpected_variable_message(dashboard_name@, found@[i]@, views(expected@)),
        },
{
    let mut i: usize = 0;
    while i < found.len()
        invariant
            i <= found@.len(),
            forall|k: int| 0 <= k < i ==> views(expected@).contains(#[trigger] found@[k]@) || grafana_variable_spec(found@[k]@),
        decreases found.len() - i,
    {
        let v = found[i].as_str();
        if !list_contains(expected, v) && !is_grafana_variable(v) {
            let mut e = "ERROR: Dashboard ".to_string();
            append(&mut e, dashboard_name);
            append(&mut e, " uses unexpected template variable '");
            append(&mut e, v);
            append(&mut e, "'.\n  This might be a typo. Expected variables from bundle.json: ");
            let d = debug_strings(expected);
            append(&mut e, d.as_str());
            append(&mut e, "\n  Note: Standard Grafana variables like __time*, __from*, __to*, __user, __interval* are allowed.\n");
            assert(e@ =~= unexpected_variable_message(dashboard_name@, found@[i as int]@, views(expected@)));
            return Err(e);
        }
        i = i + 1;
    }
    Ok(())
}

/// The pattern of a hardcoded dashboard link: a uuid, `/`, and a slug.
pub open spec fn uid_slug_pattern() -> Seq<char> {
    "[0-9a-f]{8}-[0-9a-f]{4}-[0-9a-f]{4}-[0-9a-f]{4}-[0-9a-f]{12}/([a-z0-9][a-z0-9-]*)"@
}

/// The slugs of the hardcoded dashboard links of the matches, in order.
pub open spec fn linked_slugs(caps: Seq<Seq<Option<(Seq<char>, usize)>>>) -> Seq<Seq<char>>
    decreases caps.len(),
{
    if caps.len() == 0 {
        Seq::empty()
    } else {
        let c = caps.last();
        let rest = linked_slugs(caps.drop_last());
        if c.len() > 1 && c[1] is Some {
            rest.push(c[1]->Some_0.0)
        } else {
            rest
        }
    }
}

/// The warning for a hardcoded link to a sibling dashboard (or to the
/// dashboard itself).
pub open spec fn hardcoded_uid_warning(dashboard_name: Seq<char>, slug: Seq<char>, own_slug: Seq<char>) -> Seq<char> {
    let own = slug == own_slug;
    "WARNING: Dashboard '"@ + dashboard_name + "' contains a hardcoded UID for slug '"@ + slug + "' ("@
        + (if own { "self-reference"@ } else { "sibling reference"@ }) + ").\n  Expected macro: '"@
        + (if own { "__DASHBOARD_UUID__"@ } else { macro_spec(slug) })
        + "'\n  Run the configurator pipeline to fix this.\n"@
}

/// The warnings for the hardcoded links of one dashboard: one per link
/// whose slug is a dashboard of the bundle, in order.
pub open spec fn hardcoded_warnings_spec(content: Seq<char>, dashboard_name: Seq<char>, own_slug: Seq<char>, all_slugs: Seq<Seq<char>>) -> Seq<Seq<char>> {
    let slugs = match regex_captures_spec(uid_slug_pattern(), content) {
        Some(caps) => linked_slugs(caps),
        None => Seq::empty(),
    };
    slugs.filter(|s: Seq<char>| all_slugs.contains(s)).map_values(|s: Seq<char>| hardcoded_uid_warning(dashboard_name, s, own_slug))
}

/// The warnings for the hardcoded sibling links of one dashboard.
pub fn hardcoded_uid_warnings(content: &str, dashboard_name: &str, own_slug: &str, all_slugs: &Vec<String>) -> (r: Vec<String>)
    ensures
        views(r@) == hardcoded_warnings_spec(content@, dashboard_name@, own_slug@, views(all_slugs@)),
{
    let ghost slugs = match regex_captures_spec(uid_slug_pattern(), content@) {
        Some(caps) => linked_slugs(caps),
        None => Seq::empty(),
    };
    let ghost pred = |s: Seq<char>| views(all_slugs@).contains(s);
    let ghost f = |s: Seq<char>| hardcoded_uid_warning(dashboard_name@, s, own_slug@);
    let mut found: Vec<String> = Vec::new();
    match regex_captures("[0-9a-f]{8}-[0-9a-f]{4}-[0-9a-f]{4}-[0-9a-f]{4}-[0-9a-f]{12}/([a-z0-9][a-z0-9-]*)", content) {
        Some(caps) => {
            let ghost all = all_captures_view(caps);
            let mut i: usize = 0;
            assert(all.take(0) =~= Seq::<Seq<Option<(Seq<char>, usize)>>>::empty());
            assert(views(found@) =~= Seq::<Seq<char>>::empty());
            while i < caps.len()
                invariant
                    i <= caps@.len(),
                    all == all_captures_view(caps),
                    views(found@) == linked_slugs(all.take(i as int)),
                decreases caps.len() - i,
            {
                assert(all.take(i + 1).drop_last() =~= all.take(i as int));
                assert(all.take(i + 1).last() == crate::ext::captures_view(caps@[i as int]));
                let c = &caps[i];
                if c.len() > 1 {
                    match &c[1] {
                        Some(g) => {
                            assert(crate::ext::captures_view(*c)[1] == Some((g.text@, g.start)));
                            let ghost before = views(found@);
                            found.push(g.text.clone());
                            assert(views(found@) =~= before.push(g.text@));
                        },
                        None => {
                            assert(crate::ext::captures_view(*c)[1] is None);
                        },
                    }
                }
                i = i + 1;
            }
            assert(all.take(i as int) =~= all);
        },
        None => {
            assert(views(found@) =~= Seq::<Seq<char>>::empty());
        },
    }
    assert(views(found@) == slugs);
    let mut r: Vec<String> = Vec::new();
    let mut i: usize = 0;
    assert(slugs.take(0).filter(pred) =~= Seq::<Seq<char>>::empty()) by {
        reveal(Seq::filter);
    }
    assert(views(r@) =~= slugs.take(0).filter(pred).map_values(f));
    while i < found.len()
        invariant
            i <= found@.len(),
            views(found@) == slugs,
            pred == (|s: Seq<char>| views(all_slugs@).contains(s)),
            f == (|s: Seq<char>| hardcoded_uid_warning(dashboard_name@, s, own_slug@)),
            views(r@) == slugs.take(i as int).filter(pred).map_values(f),
        decreases found.len() - i,
    {
        let s = found[i].as_str();
        let ghost pre = slugs.take(i as int);
        assert(slugs.take(i + 1) =~= pre.push(slugs[i as int]));
        proof {
            pre.lemma_filter_push(slugs[i as int], pred);
        }
        if list_contains(all_slugs, s) {
            let own = str_eq(s, own_slug);
            let mut w = "WARNING: Dashboard '".to_string();
            append(&mut w, dashboard_name);
            append(&mut w, "' contains a hardcoded UID for slug '");
            append(&mut w, s);
            append(&mut w, "' (");
            if own {
                append(&mut w, "self-reference");
            } else {
                append(&mut w, "sibling reference");
            }
            append(&mut w, ").\n  Expected macro: '");
            if own {
                append(&mut w, "__DASHBOARD_UUID__");
            } else {
                let m = slug_to_macro(s);
                append(&mut w, m.as_str());
            }
            append(&mut w, "'\n  Run the configurator pipeline to fix this.\n");
            assert(w@ =~= f(s@));
            let ghost before = views(r@);
            r.push(w);
            assert(views(r@) =~= before.push(f(s@)));
            assert(pre.filter(pred).push(s@).map_values(f) =~= pre.filter(pred).map_values(f).push(f(s@)));
        }
        i = i + 1;
    }
    assert(slugs.take(i as int) =~= slugs);
    r
}

} // verus!
