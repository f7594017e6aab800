//! Dashboard queries may only name summary tables that the bundle defines.
use vstd::prelude::*;
use crate::ext::{debug_strings, debug_strings_spec, regex_captures, regex_captures_spec, Captures};
use crate::models::bundle::{Bundle, Dashboard, SummaryTable};
use crate::text::{append, concat, ends_with, last_piece, last_piece_exec, chars_of, list_contains, push_unique, starts_with, str_ends_with, str_starts_with, string_of, views};

verus! {

broadcast use vstd::string::group_string_axioms;

/// The pattern of a summary-table reference: `__PROJECT_NAME__.` and a name.
pub open spec fn table_ref_pattern() -> Seq<char> {
    "__PROJECT_NAME__\\.([a-zA-Z0-9_]+)"@
}

/// A `__NAME__` template variable rather than a table name.
pub open spec fn is_template_var(t: Seq<char>) -> bool {
    starts_with(t, "__"@) && ends_with(t, "__"@)
}

/// The table names that the matches of the pattern capture, template
/// variables left out, in order (with repetitions).
pub open spec fn captured_tables(caps: Seq<Seq<Option<(Seq<char>, usize)>>>) -> Seq<Seq<char>>
    decreases caps.len(),
{
    if caps.len() == 0 {
        Seq::empty()
    } else {
        let c = caps.last();
        let rest = captured_tables(caps.drop_last());
        if c.len() > 1 && c[1] is Some && !is_template_var(c[1]->Some_0.0) {
            rest.push(c[1]->Some_0.0)
        } else {
            rest
        }
    }
}

/// The distinct table names captured, template variables left out.
pub fn tables_from_captures(caps: &Vec<Captures>) -> (r: Vec<String>)
    ensures
        views(r@).no_duplicates(),
        forall|x: Seq<char>| #[trigger] views(r@).contains(x) <==> captured_tables(crate::ext::all_captures_view(*caps)).contains(x),
{
    let ghost all = crate::ext::all_captures_view(*caps);
    let mut r: Vec<String> = Vec::new();
    let mut i: usize = 0;
    assert(views(r@) =~= Seq::<Seq<char>>::empty());
    assert(all.take(0) =~= Seq::<Seq<Option<(Seq<char>, usize)>>>::empty());
    while i < caps.len()
        invariant
            i <= caps@.len(),
            all == crate::ext::all_captures_view(*caps),
            views(r@).no_duplicates(),
            forall|x: Seq<char>| #[trigger] views(r@).contains(x) <==> captured_tables(all.take(i as int)).contains(x),
        decreases caps.len() - i,
    {
        let ghost pre = all.take(i as int);
        let ghost next = all.take(i + 1);
        assert(next.drop_last() =~= pre);
        assert(next.last() == crate::ext::captures_view(caps@[i as int]));
        let c = &caps[i];
        if c.len() > 1 {
            match &c[1] {
                Some(g) => {
                    let t = g.text.as_str();
                    assert(crate::ext::captures_view(*c)[1] == Some((g.text@, g.start)));
                    if !(str_starts_with(t, "__") && str_ends_with(t, "__")) {
                        push_unique(&mut r, t);
                        assert forall|x: Seq<char>| #[trigger] captured_tables(next).contains(x) <==> (captured_tables(pre).contains(x) || x == t@) by {
                            let a = captured_tables(pre);
                            assert(captured_tables(next) == a.push(t@));
                            if a.push(t@).contains(x) && x != t@ {
                                let w = choose|w: int| 0 <= w < a.push(t@).len() && a.push(t@)[w] == x;
                                assert(a[w] == x);
                            }
                            if a.contains(x) {
                                let w = choose|w: int| 0 <= w < a.len() && a[w] == x;
                                assert(a.push(t@)[w] == x);
                            }
                            if x == t@ {
                                assert(a.push(t@)[a.len() as int] == x);
                            }
                        }
                    } else {
                        assert(captured_tables(next) == captured_tables(pre));
                    }
                },
                None => {
                    assert(crate::ext::captures_view(*c)[1] is None);
                    assert(captured_tables(next) == captured_tables(pre));
                },
            }
        } else {
            assert(captured_tables(next) == captured_tables(pre));
        }
        i = i + 1;
    }
    assert(all.take(i as int) =~= all);
    r
}

/// The summary tables that a dashboard's text names, each once. A pattern
/// that does not compile names none.
pub open spec fn referenced_tables_spec(content: Seq<char>) -> Seq<Seq<char>> {
    match regex_captures_spec(table_ref_pattern(), content) {
        Some(caps) => captured_tables(caps),
        None => Seq::empty(),
    }
}

/// The summary tables that a dashboard's text names, each once.
pub fn referenced_tables(content: &str) -> (r: Vec<String>)
    ensures
        views(r@).no_duplicates(),
        forall|x: Seq<char>| #[trigger] views(r@).contains(x) <==> referenced_tables_spec(content@).contains(x),
{
    match regex_captures("__PROJECT_NAME__\\.([a-zA-Z0-9_]+)", content) {
        Some(caps) => tables_from_captures(&caps),
        None => Vec::new(),
    }
}

/// The error for a dashboard that names a summary table the bundle lacks.
pub open spec fn missing_table_message(dashboard_name: Seq<char>, table: Seq<char>, available: Seq<Seq<char>>) -> Seq<char> {
    "ERROR: Dashboard "@ + dashboard_name + " references '__PROJECT_NAME__."@ + table
        + "' but no summary table with that name exists in bundle.json.\n  Available summary tables: "@
        + debug_strings_spec(available)
        + "\n  Make sure the summary table is defined in bundle.json or the dashboard query uses the correct table name.\n"@
}

/// Checks the names that a dashboard references against the summary
/// tables: the first name that is not one of them is an error.
pub fn check_references(dashboard_name: &str, referenced: &Vec<String>, summary_table_names: &Vec<String>) -> (r: Result<(), String>)
    ensures
        match r {
            Ok(()) => forall|i: int| 0 <= i < referenced@.len() ==> views(summary_table_names@).contains(#[trigger] referenced@[i]@),
            Err(e) => exists|i: int| 0 <= i < referenced@.len() && !views(summary_table_names@).contains(#[trigger] referenced@[i]@)
                && e@ == missing_table_message(dashboard_name@, referenced@[i]@, views(summary_table_names@)),
        },
{
    let mut i: usize = 0;
    while i < referenced.len()
        invariant
            i <= referenced@.len(),
            forall|k: int| 0 <= k < i ==> views(summary_table_names@).contains(#[trigger] referenced@[k]@),
        decreases referenced.len() - i,
    {
        if !list_contains(summary_table_names, referenced[i].as_str()) {
            let mut e = "ERROR: Dashboard ".to_string();
            append(&mut e, dashboard_name);
            append(&mut e, " references '__PROJECT_NAME__.");
            append(&mut e, referenced[i].as_str());
            append(&mut e, "' but no summary table with that name exists in bundle.json.\n  Available summary tables: ");
            let d = debug_strings(summary_table_names);
            append(&mut e, d.as_str());
            append(&mut e, "\n  Make sure the summary table is defined in bundle.json or the dashboard query uses the correct table name.\n");
            assert(e@ =~= missing_table_message(dashboard_name@, referenced@[i as int]@, views(summary_table_names@)));
            return Err(e);
        }
        i = i + 1;
    }
    Ok(())
}

/// `base/path` for each dashboard of the bundle: the primary one first,
/// then the others in order.
pub open spec fn dashboard_paths_spec(base: Seq<char>, b: Bundle) -> Seq<Seq<char>> {
    let primary = seq![base + "/"@ + b.dashboard.path@];
    match b.other_dashboards {
        Some(v) => primary + v@.map_values(|d: Dashboard| base + "/"@ + d.path@),
        None => primary,
    }
}

/// The paths of the bundle's dashboards under `base`.
pub fn dashboard_paths(base: &str, b: &Bundle) -> (r: Vec<String>)
    ensures
        views(r@) == dashboard_paths_spec(base@, *b),
{
    let mut r: Vec<String> = Vec::new();
    let head = concat(base, "/");
    r.push(concat(head.as_str(), b.dashboard.path.as_str()));
    match &b.other_dashboards {
        Some(v) => {
            let mut i: usize = 0;
            while i < v.len()
                invariant
                    i <= v@.len(),
                    head@ == base@ + "/"@,
                    views(r@) =~= seq![base@ + "/"@ + b.dashboard.path@] + v@.map_values(|d: Dashboard| base@ + "/"@ + d.path@).take(i as int),
                decreases v.len() - i,
            {
                let ghost before = r@;
                r.push(concat(head.as_str(), v[i].path.as_str()));
                assert(views(r@) =~= seq![base@ + "/"@ + b.dashboard.path@] + v@.map_values(|d: Dashboard| base@ + "/"@ + d.path@).take(i + 1)) by {
                    assert(views(r@) =~= views(before).push(r@[i + 1]@));
                }
                i = i + 1;
            }
            assert(v@.map_values(|d: Dashboard| base@ + "/"@ + d.path@).take(i as int) =~= v@.map_values(|d: Dashboard| base@ + "/"@ + d.path@));
        },
        None => {
            assert(views(r@) =~= seq![base@ + "/"@ + b.dashboard.path@]);
        },
    }
    r
}

/// The names of the bundle's summary tables, when it has any.
pub fn summary_table_names(b: &Bundle) -> (r: Option<Vec<String>>)
    ensures
        match r {
            Some(v) => b.summary_tables is Some && b.summary_tables->Some_0@.len() > 0 && views(v@)
                == b.summary_tables->Some_0@.map_values(|st: SummaryTable| st.name@),
            None => b.summary_tables is None || b.summary_tables->Some_0@.len() == 0,
        },
{
    match &b.summary_tables {
        Some(st) => {
            if st.len() == 0 {
                return None;
            }
            let mut r: Vec<String> = Vec::new();
            let mut i: usize = 0;
            while i < st.len()
                invariant
                    i <= st@.len(),
                    views(r@) =~= st@.map_values(|s: SummaryTable| s.name@).take(i as int),
                decreases st.len() - i,
            {
                let ghost before = r@;
                r.push(st[i].name.clone());
                assert(views(r@) =~= st@.map_values(|s: SummaryTable| s.name@).take(i + 1)) by {
                    assert(views(r@) =~= views(before).push(r@[i as int]@));
                }
                i = i + 1;
            }
            assert(st@.map_values(|s: SummaryTable| s.name@).take(i as int) =~= st@.map_values(|s: SummaryTable| s.name@));
            Some(r)
        },
        None => None,
    }
}

/// Checks one dashboard's text: every summary table it names must be one of
/// the bundle's. The dashboard is named in the error by the last part of
/// its path.
pub fn check_dashboard(full_path: &str, content: &str, summary_names: &Vec<String>) -> (r: Result<(), String>)
    ensures
        match r {
            Ok(()) => forall|x: Seq<char>| #[trigger] referenced_tables_spec(content@).contains(x) ==> views(summary_names@).contains(x),
            Err(e) => exists|x: Seq<char>| #[trigger] referenced_tables_spec(content@).contains(x) && !views(summary_names@).contains(x)
                && e@ == missing_table_message(last_piece(full_path@, '/'), x, views(summary_names@)),
        },
{
    let p = chars_of(full_path);
    let name_chars = last_piece_exec(p.as_slice(), '/');
    let name = string_of(name_chars.as_slice());
    let refs = referenced_tables(content);
    let r = check_references(name.as_str(), &refs, summary_names);
    proof {
        if r is Ok {
            assert forall|x: Seq<char>| #[trigger] referenced_tables_spec(content@).contains(x) implies views(summary_names@).contains(x) by {
                assert(views(refs@).contains(x));
                let w = choose|w: int| 0 <= w < views(refs@).len() && views(refs@)[w] == x;
                assert(refs@[w]@ == x);
            }
        } else {
            let i = choose|i: int| 0 <= i < refs@.len() && !views(summary_names@).contains(#[trigger] refs@[i]@)
                && r->Err_0@ == missing_table_message(name@, refs@[i]@, views(summary_names@));
            assert(views(refs@)[i] == refs@[i]@);
            assert(views(refs@).contains(refs@[i]@));
            assert(referenced_tables_spec(content@).contains(refs@[i]@));
        }
    }
    r
}

} // verus!
