//! Table names and dashboard variables of a bundle.
use vstd::prelude::*;
use crate::ext::{alphabetic_spec, alphanumeric_spec, debug_str, debug_str_spec, is_alphabetic, is_alphanumeric};
use crate::models::bundle::{opt_view, Bundle, Table, Transform};
use crate::text::{append, byte_len_below, chars_of, str_eq, utf8_len};
use super::first_error_from;

verus! {

broadcast use vstd::string::group_string_axioms;

/// Every character is alphanumeric or `_`.
pub open spec fn table_name_chars_ok(name: Seq<char>) -> bool {
    forall|i: int| 0 <= i < name.len() ==> alphanumeric_spec(#[trigger] name[i]) || name[i] == '_'
}

/// `{:?}` of an optional string.
pub open spec fn debug_opt(o: Option<Seq<char>>) -> Seq<char> {
    match o {
        Some(s) => "Some("@ + debug_str_spec(s) + ")"@,
        None => "None"@,
    }
}

/// `{:?}` of a transform entry.
pub open spec fn debug_transform(t: Transform) -> Seq<char> {
    "Transform { path: "@ + debug_str_spec(t.path@) + ", sha256: "@ + debug_opt(opt_view(t.sha256)) + ", sample: "@
        + debug_opt(opt_view(t.sample)) + ", method: "@ + debug_opt(opt_view(t.method)) + " }"@
}

/// The transform entries, each as `{:?}` writes it, separated by `, `.
pub open spec fn debug_transform_list(ts: Seq<Transform>) -> Seq<char>
    decreases ts.len(),
{
    if ts.len() == 0 {
        Seq::empty()
    } else if ts.len() == 1 {
        debug_transform(ts[0])
    } else {
        debug_transform_list(ts.drop_last()) + ", "@ + debug_transform(ts.last())
    }
}

/// `{:?}` of a table entry, as the derived `Debug` writes it.
pub open spec fn debug_table(t: Table) -> Seq<char> {
    "Table { dashboard_var: "@ + debug_str_spec(t.dashboard_var@) + ", name: "@ + debug_str_spec(t.name@)
        + ", transforms: ["@ + debug_transform_list(t.transforms@) + "] }"@
}

fn debug_opt_exec(o: &Option<String>) -> (r: String)
    ensures
        r@ == debug_opt(opt_view(*o)),
{
    match o {
        Some(s) => {
            let mut r = "Some(".to_string();
            let d = debug_str(s.as_str());
            append(&mut r, d.as_str());
            append(&mut r, ")");
            r
        },
        None => "None".to_string(),
    }
}

fn debug_transform_exec(t: &Transform) -> (r: String)
    ensures
        r@ == debug_transform(*t),
{
    let mut r = "Transform { path: ".to_string();
    append(&mut r, debug_str(t.path.as_str()).as_str());
    append(&mut r, ", sha256: ");
    append(&mut r, debug_opt_exec(&t.sha256).as_str());
    append(&mut r, ", sample: ");
    append(&mut r, debug_opt_exec(&t.sample).as_str());
    append(&mut r, ", method: ");
    append(&mut r, debug_opt_exec(&t.method).as_str());
    append(&mut r, " }");
    r
}

/// Writes a table entry as `{:?}` does.
pub fn debug_table_exec(t: &Table) -> (r: String)
    ensures
        r@ == debug_table(*t),
{
    let mut r = "Table { dashboard_var: ".to_string();
    append(&mut r, debug_str(t.dashboard_var.as_str()).as_str());
    append(&mut r, ", name: ");
    append(&mut r, debug_str(t.name.as_str()).as_str());
    append(&mut r, ", transforms: [");
    let ghost ts = t.transforms@;
    let mut list = String::new();
    let mut i: usize = 0;
    while i < t.transforms.len()
        invariant
            i <= ts.len(),
            ts == t.transforms@,
            list@ == debug_transform_list(ts.take(i as int)),
        decreases t.transforms.len() - i,
    {
        let d = debug_transform_exec(&t.transforms[i]);
        assert(ts.take(i + 1).drop_last() =~= ts.take(i as int));
        assert(ts.take(i + 1).last() == ts[i as int]);
        if i > 0 {
            append(&mut list, ", ");
        } else {
            assert(ts.take(1) =~= seq![ts[0]]);
        }
        append(&mut list, d.as_str());
        i = i + 1;
    }
    assert(ts.take(i as int) =~= ts);
    append(&mut r, list.as_str());
    append(&mut r, "] }");
    r
}

/// What is wrong with table `i`: its name is shorter than three bytes, does
/// not start with a letter, holds another character than letters, digits
/// and `_`, or repeats an earlier table's name.
pub open spec fn table_problem(ts: Seq<Table>, i: int) -> Option<Seq<char>> {
    let name = ts[i].name@;
    if utf8_len(name) < 3 {
        Some("ERROR: Missing or truncated table name '"@ + debug_table(ts[i]) + "'"@)
    } else if !alphabetic_spec(name[0]) {
        Some("ERROR: Invalid table name '"@ + name + "' - must start with a letter"@)
    } else if !table_name_chars_ok(name) {
        Some("ERROR: Invalid table name '"@ + name + "' - only letters, digits, and underscores allowed"@)
    } else if exists|j: int| 0 <= j < i && ts[j].name@ == name {
        Some("ERROR: Duplicate table name "@ + name)
    } else {
        None
    }
}

/// Table `i` repeats an earlier table's dashboard variable.
pub open spec fn var_problem(ts: Seq<Table>, i: int) -> Option<Seq<char>> {
    if exists|j: int| 0 <= j < i && ts[j].dashboard_var@ == ts[i].dashboard_var@ {
        Some("ERROR: Duplicate database_var "@ + ts[i].dashboard_var@)
    } else {
        None
    }
}

/// The first problem of the bundle's tables: names first, then dashboard
/// variables.
pub open spec fn tokens_error(b: Bundle) -> Option<Seq<char>> {
    let ts = b.tables@;
    match first_error_from(|i: int| table_problem(ts, i), 0, ts.len() as int) {
        Some(e) => Some(e),
        None => first_error_from(|i: int| var_problem(ts, i), 0, ts.len() as int),
    }
}

fn name_chars_ok(name: &str) -> (b: bool)
    ensures
        b == table_name_chars_ok(name@),
{
    let cs = chars_of(name);
    let mut i: usize = 0;
    while i < cs.len()
        invariant
            i <= cs@.len(),
            cs@ == name@,
            forall|k: int| 0 <= k < i ==> alphanumeric_spec(#[trigger] cs@[k]) || cs@[k] == '_',
        decreases cs.len() - i,
    {
        if !(is_alphanumeric(cs[i]) || cs[i] == '_') {
            return false;
        }
        i = i + 1;
    }
    true
}

fn earlier_same(ts: &Vec<Table>, i: usize, vars: bool) -> (b: bool)
    requires
        i < ts@.len(),
    ensures
        !vars ==> (b == exists|j: int| 0 <= j < i && ts@[j].name@ == ts@[i as int].name@),
        vars ==> (b == exists|j: int| 0 <= j < i && ts@[j].dashboard_var@ == ts@[i as int].dashboard_var@),
{
    let mut j: usize = 0;
    while j < i
        invariant
            j <= i < ts@.len(),
            !vars ==> forall|k: int| 0 <= k < j ==> ts@[k].name@ != ts@[i as int].name@,
            vars ==> forall|k: int| 0 <= k < j ==> ts@[k].dashboard_var@ != ts@[i as int].dashboard_var@,
        decreases i - j,
    {
        let same = if vars {
            str_eq(ts[j].dashboard_var.as_str(), ts[i].dashboard_var.as_str())
        } else {
            str_eq(ts[j].name.as_str(), ts[i].name.as_str())
        };
        if same {
            return true;
        }
        j = j + 1;
    }
    false
}

/// Checks the names and dashboard variables of the bundle's tables.
pub fn run(bundle: &Bundle) -> (r: Result<(), String>)
    ensures
        match r {
            Ok(()) => tokens_error(*bundle) is None,
            Err(e) => tokens_error(*bundle) == Some(e@),
        },
{
    let ghost ts = bundle.tables@;
    let ghost fname = |i: int| table_problem(ts, i);
    let ghost fvar = |i: int| var_problem(ts, i);
    let n = bundle.tables.len();
    let mut i: usize = 0;
    while i < n
        invariant
            i <= n == ts.len(),
            ts == bundle.tables@,
            fname == (|i: int| table_problem(ts, i)),
            first_error_from(fname, 0, n as int) == first_error_from(fname, i as int, n as int),
        decreases n - i,
    {
        let t = &bundle.tables[i];
        let name = t.name.as_str();
        let cs = chars_of(name);
        if cs.len() == 0 || byte_len_below(name, 3) {
            let mut e = "ERROR: Missing or truncated table name '".to_string();
            append(&mut e, debug_table_exec(t).as_str());
            append(&mut e, "'");
            assert(utf8_len(name@) < 3);
            assert(e@ =~= table_problem(ts, i as int)->Some_0);
            return Err(e);
        }
        if !is_alphabetic(cs[0]) {
            let mut e = "ERROR: Invalid table name '".to_string();
            append(&mut e, name);
            append(&mut e, "' - must start with a letter");
            assert(e@ =~= table_problem(ts, i as int)->Some_0);
            return Err(e);
        }
        if !name_chars_ok(name) {
            let mut e = "ERROR: Invalid table name '".to_string();
            append(&mut e, name);
            append(&mut e, "' - only letters, digits, and underscores allowed");
            assert(e@ =~= table_problem(ts, i as int)->Some_0);
            return Err(e);
        }
        if earlier_same(&bundle.tables, i, false) {
            let mut e = "ERROR: Duplicate table name ".to_string();
            append(&mut e, name);
            assert(e@ =~= table_problem(ts, i as int)->Some_0);
            return Err(e);
        }
        i = i + 1;
    }
    let mut i: usize = 0;
    while i < n
        invariant
            i <= n == ts.len(),
            ts == bundle.tables@,
            fname == (|i: int| table_problem(ts, i)),
            fvar == (|i: int| var_problem(ts, i)),
            first_error_from(fname, 0, n as int) is None,
            first_error_from(fvar, 0, n as int) == first_error_from(fvar, i as int, n as int),
        decreases n - i,
    {
        if earlier_same(&bundle.tables, i, true) {
            let mut e = "ERROR: Duplicate database_var ".to_string();
            append(&mut e, bundle.tables[i].dashboard_var.as_str());
            assert(e@ =~= var_problem(ts, i as int)->Some_0);
            return Err(e);
        }
        i = i + 1;
    }
    Ok(())
}

} // verus!
