//! Summary tables of a bundle: their dashboard variables and parent tables.
use vstd::prelude::*;
use crate::models::bundle::{Bundle, SummaryTable, Table};
use crate::text::{append, list_contains, str_eq, views};
use super::first_error_from;

verus! {

broadcast use vstd::string::group_string_axioms;

pub open spec fn table_names(ts: Seq<Table>) -> Seq<Seq<char>> {
    ts.map_values(|t: Table| t.name@)
}

/// Summary table `i` has the dashboard variable of an earlier one.
pub open spec fn dashboard_var_clash(b: Bundle, st: Seq<SummaryTable>, i: int) -> Option<Seq<char>> {
    if exists|j: int| 0 <= j < i && st[j].dashboard_var@ == st[i].dashboard_var@ {
        Some("ERROR: Duplicated-Summary-Dashboard-Var bundle="@ + b.name@ + " summary_table="@
            + st[i].name@ + " dashboard_var="@ + st[i].dashboard_var@ + " url="@ + b.base_url@)
    } else {
        None
    }
}

/// Summary table `i` names a parent table that the bundle does not have.
pub open spec fn parent_missing(b: Bundle, st: Seq<SummaryTable>, i: int) -> Option<Seq<char>> {
    if !table_names(b.tables@).contains(st[i].parent_table_name@) {
        Some("ERROR: Invalid-Parent-Table-Reference bundle="@ + b.name@ + " summary_table="@
            + st[i].name@ + " parent_table_name="@ + st[i].parent_table_name@ + " url="@ + b.base_url@)
    } else {
        None
    }
}

/// The first problem of a bundle's summary tables: a dashboard variable
/// used twice, then a parent table that is not one of the bundle's tables.
pub open spec fn summary_table_error(b: Bundle) -> Option<Seq<char>> {
    match b.summary_tables {
        None => None,
        Some(v) => {
            let st = v@;
            match first_error_from(|i: int| dashboard_var_clash(b, st, i), 0, st.len() as int) {
                Some(e) => Some(e),
                None => first_error_from(|i: int| parent_missing(b, st, i), 0, st.len() as int),
            }
        },
    }
}

fn table_name_list(tables: &Vec<Table>) -> (r: Vec<String>)
    ensures
        views(r@) == table_names(tables@),
{
    let mut r: Vec<String> = Vec::new();
    let mut i: usize = 0;
    while i < tables.len()
        invariant
            i <= tables@.len(),
            r@.len() == i,
            views(r@) =~= table_names(tables@).take(i as int),
        decreases tables.len() - i,
    {
        let ghost before = r@;
        r.push(tables[i].name.clone());
        assert(views(r@) =~= table_names(tables@).take(i + 1)) by {
            assert forall|k: int| 0 <= k < i + 1 implies #[trigger] views(r@)[k] == table_names(tables@)[k] by {
                if k < i {
                    assert(r@[k] == before[k]);
                    assert(views(before)[k] == table_names(tables@).take(i as int)[k]);
                }
            }
        }
        i = i + 1;
    }
    assert(table_names(tables@).take(i as int) =~= table_names(tables@));
    r
}

/// Checks that no two summary tables share a dashboard variable and that
/// each names one of the bundle's tables as its parent.
pub fn run(b: &Bundle) -> (r: Result<(), String>)
    ensures
        match r {
            Ok(()) => summary_table_error(*b) is None,
            Err(e) => summary_table_error(*b) == Some(e@),
        },
{
    let summary_tables = match &b.summary_tables {
        Some(st) => st,
        None => return Ok(()),
    };
    let ghost st = summary_tables@;
    let ghost fvar = |i: int| dashboard_var_clash(*b, st, i);
    let ghost fparent = |i: int| parent_missing(*b, st, i);
    let valid_tables = table_name_list(&b.tables);
    let n = summary_tables.len();
    let mut i: usize = 0;
    while i < n
        invariant
            i <= n == st.len(),
            st == summary_tables@,
            b.summary_tables == Some(*summary_tables),
            fvar == (|i: int| dashboard_var_clash(*b, st, i)),
            first_error_from(fvar, 0, n as int) == first_error_from(fvar, i as int, n as int),
        decreases n - i,
    {
        let mut j: usize = 0;
        let mut dup = false;
        while j < i
            invariant
                j <= i < n == st.len(),
                st == summary_tables@,
                !dup ==> forall|k: int| 0 <= k < j ==> st[k].dashboard_var@ != st[i as int].dashboard_var@,
                dup ==> exists|k: int| 0 <= k < i && st[k].dashboard_var@ == st[i as int].dashboard_var@,
            decreases i - j,
        {
            if !dup && str_eq(summary_tables[j].dashboard_var.as_str(), summary_tables[i].dashboard_var.as_str()) {
                dup = true;
            }
            j = j + 1;
        }
        if dup {
            let mut e = "ERROR: Duplicated-Summary-Dashboard-Var bundle=".to_string();
            append(&mut e, b.name.as_str());
            append(&mut e, " summary_table=");
            append(&mut e, summary_tables[i].name.as_str());
            append(&mut e, " dashboard_var=");
            append(&mut e, summary_tables[i].dashboard_var.as_str());
            append(&mut e, " url=");
            append(&mut e, b.base_url.as_str());
            assert(dashboard_var_clash(*b, st, i as int) == Some(e@));
            return Err(e);
        }
        i = i + 1;
    }
    let mut i: usize = 0;
    while i < n
        invariant
            i <= n == st.len(),
            st == summary_tables@,
            b.summary_tables == Some(*summary_tables),
            views(valid_tables@) == table_names(b.tables@),
            fvar == (|i: int| dashboard_var_clash(*b, st, i)),
            fparent == (|i: int| parent_missing(*b, st, i)),
            first_error_from(fvar, 0, n as int) is None,
            first_error_from(fparent, 0, n as int) == first_error_from(fparent, i as int, n as int),
        decreases n - i,
    {
        if !list_contains(&valid_tables, summary_tables[i].parent_table_name.as_str()) {
            let mut e = "ERROR: Invalid-Parent-Table-Reference bundle=".to_string();
            append(&mut e, b.name.as_str());
            append(&mut e, " summary_table=");
            append(&mut e, summary_tables[i].name.as_str());
            append(&mut e, " parent_table_name=");
            append(&mut e, summary_tables[i].parent_table_name.as_str());
            append(&mut e, " url=");
            append(&mut e, b.base_url.as_str());
            assert(parent_missing(*b, st, i as int) == Some(e@));
            return Err(e);
        }
        i = i + 1;
    }
    Ok(())
}

} // verus!
