//! Template variables whose query needs ClickHouse to run must have a
//! datasource.
use vstd::prelude::*;
use crate::json::Json;
use crate::text::{lemma_take_utf8_step, lemma_take_utf8_strict, append, char_utf8_len, contains, list_contains, str_contains, str_eq, utf8_len, views, chars_of, string_of};
use super::{regex_group, regex_group_spec};
use crate::validate::raw_logs_timestamp::at;

verus! {

broadcast use vstd::string::group_string_axioms;

/// The pattern of a variable reference `${name}`.
pub open spec fn var_ref_pattern() -> Seq<char> {
    "\\$\\{([a-zA-Z_][a-zA-Z0-9_]*)\\}"@
}

/// The names of the variables that a dashboard's text references as
/// `${name}`, in order.
pub fn find_referenced_variables(content: &str) -> (r: Vec<String>)
    ensures
        views(r@) == regex_group_spec(var_ref_pattern(), content@, 1),
{
    regex_group("\\$\\{([a-zA-Z_][a-zA-Z0-9_]*)\\}", content, 1)
}

/// The ClickHouse functions that only the database can evaluate.
pub open spec fn complex_functions() -> Seq<Seq<char>> {
    seq![
        "arrayFilter"@, "arrayConcat"@, "arrayMap"@, "arrayStringConcat"@, "arrayElement"@,
        "toStartOfMinute"@, "toStartOfHour"@, "toStartOfDay"@, "quantiles"@, "countMerge"@,
        "sumMerge"@, "avgMerge"@, "dictGet"@, "dictHas"@,
    ]
}

/// Whether a query calls a ClickHouse function that only the database can
/// evaluate.
pub open spec fn uses_complex_spec(query: Seq<char>) -> bool {
    exists|i: int| 0 <= i < complex_functions().len() && contains(query, #[trigger] complex_functions()[i])
}

/// Whether a query calls a ClickHouse function that only the database can
/// evaluate.
pub fn uses_complex_functions(query: &str) -> (b: bool)
    ensures
        b == uses_complex_spec(query@),
{
    let funcs = vec![
        "arrayFilter", "arrayConcat", "arrayMap", "arrayStringConcat", "arrayElement",
        "toStartOfMinute", "toStartOfHour", "toStartOfDay", "quantiles", "countMerge",
        "sumMerge", "avgMerge", "dictGet", "dictHas",
    ];
    assert(crate::text::str_views(funcs@) =~= complex_functions());
    let mut i: usize = 0;
    while i < funcs.len()
        invariant
            i <= funcs@.len(),
            crate::text::str_views(funcs@) == complex_functions(),
            forall|k: int| 0 <= k < i ==> !contains(query@, #[trigger] complex_functions()[k]),
        decreases funcs.len() - i,
    {
        assert(complex_functions()[i as int] == funcs@[i as int]@);
        if str_contains(query, funcs[i]) {
            return true;
        }
        i = i + 1;
    }
    false
}

/// A query that needs a datasource: it uses such a function and is not a
/// simple string template.
pub open spec fn needs_datasource_spec(query: Seq<char>) -> bool {
    let complex = uses_complex_spec(query);
    let simple_template = contains(query, "$$"@) || (contains(query, "SELECT"@) && contains(query, "'${"@) && !complex);
    complex && !simple_template
}

/// Whether a variable's query needs a datasource.
pub fn needs_datasource(query: &str) -> (b: bool)
    ensures
        b == needs_datasource_spec(query@),
{
    let complex = uses_complex_functions(query);
    let simple_template = str_contains(query, "$$") || (str_contains(query, "SELECT") && str_contains(query, "'${") && !complex);
    complex && !simple_template
}

/// Whether the first 100 bytes of `q` end on a character boundary (or `q` is
/// shorter).
pub open spec fn excerpt_ok(q: Seq<char>) -> bool {
    utf8_len(q) <= 100 || exists|k: int| 0 <= k <= q.len() && utf8_len(#[trigger] q.take(k)) == 100
}

/// The first 100 bytes of `q` (all of it when shorter).
pub open spec fn excerpt_spec(q: Seq<char>) -> Seq<char> {
    if utf8_len(q) <= 100 {
        q
    } else {
        q.take(choose|k: int| 0 <= k <= q.len() && utf8_len(#[trigger] q.take(k)) == 100)
    }
}

/// The number of bytes of the UTF-8 encoding of `c`.
fn char_bytes(c: char) -> (n: usize)
    ensures
        n == char_utf8_len(c),
{
    if (c as u32) < 0x80 {
        1
    } else if (c as u32) < 0x800 {
        2
    } else if (c as u32) < 0x10000 {
        3
    } else {
        4
    }
}

/// The first 100 bytes of a query, for an error message.
pub fn excerpt(q: &str) -> (r: String)
    requires
        excerpt_ok(q@),
    ensures
        r@ == excerpt_spec(q@),
{
    let cs = chars_of(q);
    let mut k: usize = 0;
    let mut bytes: usize = 0;
    assert(cs@.take(0) =~= Seq::<char>::empty());
    while k < cs.len() && bytes + char_bytes(cs[k]) <= 100
        invariant
            k <= cs@.len(),
            cs@ == q@,
            bytes == utf8_len(cs@.take(k as int)),
            bytes <= 100,
        decreases cs.len() - k,
    {
        proof {
            lemma_take_utf8_step(cs@, k as int);
        }
        bytes = bytes + char_bytes(cs[k]);
        k = k + 1;
    }
    proof {
        if k < cs@.len() {
            lemma_take_utf8_step(cs@, k as int);
        }
        if utf8_len(q@) <= 100 {
            if k < cs@.len() {
                lemma_take_utf8_strict(cs@, k as int + 1, cs@.len() as int);
                assert(cs@.take(cs@.len() as int) =~= cs@);
            }
            assert(k == cs@.len());
            assert(cs@.take(k as int) =~= cs@);
        } else {
            let w = choose|w: int| 0 <= w <= q@.len() && utf8_len(#[trigger] q@.take(w)) == 100;
            if w > k {
                if k < cs@.len() {
                    if k + 1 < w {
                        lemma_take_utf8_strict(cs@, k as int + 1, w);
                    }
                } else {
                    assert(cs@.take(k as int) =~= cs@);
                }
            } else if w < k {
                lemma_take_utf8_strict(cs@, w, k as int);
            }
            assert(w == k);
        }
    }
    let mut out: Vec<char> = Vec::new();
    let mut j: usize = 0;
    while j < k
        invariant
            j <= k <= cs@.len(),
            out@ == cs@.take(j as int),
        decreases k - j,
    {
        out.push(cs[j]);
        assert(cs@.take(j + 1) =~= cs@.take(j as int).push(cs@[j as int]));
        j = j + 1;
    }
    string_of(out.as_slice())
}

/// A string member of `v`, or `default` when there is none.
pub open spec fn str_or(v: Json, key: Seq<char>, default: Seq<char>) -> Seq<char> {
    match v.at(key).str_spec() {
        Some(s) => s,
        None => default,
    }
}

/// A query variable that the dashboard references and whose query needs a
/// datasource that it lacks.
pub open spec fn var_fails(var: Json, referenced: Seq<Seq<char>>) -> bool {
    &&& var.at("type"@).str_spec() == Some("query"@)
    &&& referenced.contains(str_or(var, "name"@, "unknown"@))
    &&& needs_datasource_spec(str_or(var, "query"@, ""@))
    &&& var.at("datasource"@) is Null
}

pub open spec fn no_datasource_message(dashboard_name: Seq<char>, var_name: Seq<char>, query_excerpt: Seq<char>) -> Seq<char> {
    "ERROR: Dashboard "@ + dashboard_name + " variable '"@ + var_name
        + "' uses complex ClickHouse functions but has no datasource.\n  Query: "@ + query_excerpt
        + "\n  Add 'datasource': {'type': 'hydrolix-hydrolix-datasource', 'uid': '__DATASOURCE__'} to this variable.\n"@
}

/// The template variables of a dashboard document
/// (`dashboard.templating.list`).
pub open spec fn template_vars(doc: Json) -> Seq<Json> {
    match doc.at("dashboard"@).at("templating"@).at("list"@).array_spec() {
        Some(v) => v,
        None => Seq::empty(),
    }
}

/// The index of the first failing variable, or the number of variables.
pub open spec fn first_failing(vars: Seq<Json>, referenced: Seq<Seq<char>>) -> int
    decreases vars.len(),
{
    if vars.len() == 0 {
        0
    } else if var_fails(vars[0], referenced) {
        0
    } else {
        1 + first_failing(vars.skip(1), referenced)
    }
}

proof fn lemma_first_failing(vars: Seq<Json>, referenced: Seq<Seq<char>>)
    ensures
        0 <= first_failing(vars, referenced) <= vars.len(),
        forall|k: int| 0 <= k < first_failing(vars, referenced) ==> !var_fails(#[trigger] vars[k], referenced),
        first_failing(vars, referenced) < vars.len() ==> var_fails(vars[first_failing(vars, referenced)], referenced),
    decreases vars.len(),
{
    if vars.len() > 0 && !var_fails(vars[0], referenced) {
        lemma_first_failing(vars.skip(1), referenced);
        assert forall|k: int| 0 <= k < first_failing(vars, referenced) implies !var_fails(#[trigger] vars[k], referenced) by {
            if k > 0 {
                assert(vars[k] == vars.skip(1)[k - 1]);
            }
        }
    }
}

/// The error for a dashboard's template variables: the first that fails.
pub open spec fn template_vars_error(dashboard_name: Seq<char>, doc: Json, referenced: Seq<Seq<char>>) -> Option<Seq<char>> {
    let vars = template_vars(doc);
    let k = first_failing(vars, referenced);
    if k < vars.len() {
        Some(no_datasource_message(dashboard_name, str_or(vars[k], "name"@, "unknown"@), excerpt_spec(str_or(vars[k], "query"@, ""@))))
    } else {
        None
    }
}

/// The cut of the reported query falls on a character boundary.
pub open spec fn report_cut_ok(doc: Json, referenced: Seq<Seq<char>>) -> bool {
    let vars = template_vars(doc);
    let k = first_failing(vars, referenced);
    k < vars.len() ==> excerpt_ok(str_or(vars[k], "query"@, ""@))
}

fn str_or_exec(v: &Json, key: &str, default: &str) -> (r: String)
    ensures
        r@ == str_or(*v, key@, default@),
{
    match at(v, key).as_str() {
        Some(s) => s.clone(),
        None => default.to_string(),
    }
}

/// Checks the template variables of a dashboard: a query variable that the
/// dashboard references, whose query needs a datasource and that has none,
/// is an error.
pub fn check_template_variables(dashboard_name: &str, doc: &Json, referenced: &Vec<String>) -> (r: Result<(), String>)
    requires
        report_cut_ok(*doc, views(referenced@)),
    ensures
        match r {
            Ok(()) => template_vars_error(dashboard_name@, *doc, views(referenced@)) is None,
            Err(e) => template_vars_error(dashboard_name@, *doc, views(referenced@)) == Some(e@),
        },
{
    let ghost vars = template_vars(*doc);
    proof {
        lemma_first_failing(vars, views(referenced@));
    }
    let list = at(at(at(doc, "dashboard"), "templating"), "list");
    match list.as_array() {
        Some(items) => {
            let mut i: usize = 0;
            while i < items.len()
                invariant
                    i <= items@.len(),
                    vars == items@,
                    0 <= first_failing(vars, views(referenced@)) <= vars.len(),
                    forall|k: int| 0 <= k < first_failing(vars, views(referenced@)) ==> !var_fails(#[trigger] vars[k], views(referenced@)),
                    first_failing(vars, views(referenced@)) < vars.len() ==> var_fails(vars[first_failing(vars, views(referenced@))], views(referenced@)),
                    forall|k: int| 0 <= k < i ==> !var_fails(#[trigger] vars[k], views(referenced@)),
                    report_cut_ok(*doc, views(referenced@)),
                    vars == template_vars(*doc),
                decreases items.len() - i,
            {
                let var = &items[i];
                let is_query = match at(var, "type").as_str() {
                    Some(t) => str_eq(t.as_str(), "query"),
                    None => false,
                };
                if is_query {
                    let name = str_or_exec(var, "name", "unknown");
                    let query = str_or_exec(var, "query", "");
                    if list_contains(referenced, name.as_str()) && needs_datasource(query.as_str()) && at(var, "datasource").is_null() {
                        assert(var_fails(vars[i as int], views(referenced@)));
                        assert(first_failing(vars, views(referenced@)) == i);
                        let q = excerpt(query.as_str());
                        let mut e = "ERROR: Dashboard ".to_string();
                        append(&mut e, dashboard_name);
                        append(&mut e, " variable '");
                        append(&mut e, name.as_str());
                        append(&mut e, "' uses complex ClickHouse functions but has no datasource.\n  Query: ");
                        append(&mut e, q.as_str());
                        append(&mut e, "\n  Add 'datasource': {'type': 'hydrolix-hydrolix-datasource', 'uid': '__DATASOURCE__'} to this variable.\n");
                        assert(e@ =~= no_datasource_message(dashboard_name@, name@, q@));
                        return Err(e);
                    }
                }
                assert(!var_fails(vars[i as int], views(referenced@)));
                i = i + 1;
            }
            assert(first_failing(vars, views(referenced@)) == vars.len());
            Ok(())
        },
        None => {
            assert(vars.len() == 0);
            Ok(())
        },
    }
}

/// Whether the first 100 bytes of `q` end on a character boundary (or `q` is
/// shorter).
pub fn excerpt_ok_exec(q: &str) -> (b: bool)
    ensures
        b == excerpt_ok(q@),
{
    if crate::text::byte_len_below(q, 101) {
        return true;
    }
    let cs = chars_of(q);
    let k = crate::text::char_index_of_byte(cs.as_slice(), 100);
    proof {
        if k is None && excerpt_ok(q@) {
            assert(exists|j: int| 0 <= j <= cs@.len() && utf8_len(#[trigger] cs@.take(j)) == 100);
        }
    }
    k.is_some()
}

/// Whether the query that would be reported can be cut at 100 bytes.
pub fn report_cut_ok_exec(doc: &Json, referenced: &Vec<String>) -> (b: bool)
    ensures
        b == report_cut_ok(*doc, views(referenced@)),
{
    let ghost vars = template_vars(*doc);
    proof {
        lemma_first_failing(vars, views(referenced@));
    }
    let list = at(at(at(doc, "dashboard"), "templating"), "list");
    match list.as_array() {
        Some(items) => {
            let mut i: usize = 0;
            while i < items.len()
                invariant
                    i <= items@.len(),
                    vars == items@,
                    vars == template_vars(*doc),
                    0 <= first_failing(vars, views(referenced@)) <= vars.len(),
                    forall|k: int| 0 <= k < first_failing(vars, views(referenced@)) ==> !var_fails(#[trigger] vars[k], views(referenced@)),
                    first_failing(vars, views(referenced@)) < vars.len() ==> var_fails(vars[first_failing(vars, views(referenced@))], views(referenced@)),
                    forall|k: int| 0 <= k < i ==> !var_fails(#[trigger] vars[k], views(referenced@)),
                decreases items.len() - i,
            {
                let var = &items[i];
                let is_query = match at(var, "type").as_str() {
                    Some(t) => str_eq(t.as_str(), "query"),
                    None => false,
                };
                if is_query {
                    let name = str_or_exec(var, "name", "unknown");
                    let query = str_or_exec(var, "query", "");
                    if list_contains(referenced, name.as_str()) && needs_datasource(query.as_str()) && at(var, "datasource").is_null() {
                        assert(var_fails(vars[i as int], views(referenced@)));
                        assert(first_failing(vars, views(referenced@)) == i);
                        return excerpt_ok_exec(query.as_str());
                    }
                }
                assert(!var_fails(vars[i as int], views(referenced@)));
                i = i + 1;
            }
            assert(first_failing(vars, views(referenced@)) == vars.len());
            true
        },
        None => {
            assert(vars.len() == 0);
            true
        },
    }
}

/// Checks the template variables of a dashboard; `None` when the query that
/// would be reported cannot be cut at 100 bytes on a character boundary.
pub fn check_template_variables_guarded(dashboard_name: &str, doc: &Json, referenced: &Vec<String>) -> (r: Option<Result<(), String>>)
    ensures
        match r {
            None => !report_cut_ok(*doc, views(referenced@)),
            Some(Ok(())) => report_cut_ok(*doc, views(referenced@)) && template_vars_error(dashboard_name@, *doc, views(referenced@)) is None,
            Some(Err(e)) => report_cut_ok(*doc, views(referenced@)) && template_vars_error(dashboard_name@, *doc, views(referenced@)) == Some(e@),
        },
{
    if !report_cut_ok_exec(doc, referenced) {
        return None;
    }
    Some(check_template_variables(dashboard_name, doc, referenced))
}

} // verus!
