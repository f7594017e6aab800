//! Warnings about a bundle's declared functions and dictionaries: whether
//! the transforms' SQL uses them, and whether it uses dictionaries that are
//! not declared. None of these fail validation. The caller reads the
//! transforms and checks which local files exist.
use vstd::prelude::*;
use crate::ext::{regex_captures, regex_captures_spec, regex_escape, regex_escape_spec};
use crate::models::bundle::Bundle;
use crate::text::{concat, append, list_contains, push_unique, views};
use crate::validate::{regex_group, regex_group_spec};

verus! {

broadcast use vstd::string::group_string_axioms;

/// The names a bundle lists, each once, in the order of their first
/// occurrence.
pub open spec fn unique(v: Seq<Seq<char>>) -> Seq<Seq<char>>
    decreases v.len(),
{
    if v.len() == 0 {
        Seq::empty()
    } else if unique(v.drop_last()).contains(v.last()) {
        unique(v.drop_last())
    } else {
        unique(v.drop_last()).push(v.last())
    }
}

/// The functions a bundle declares in `dependencies.hydrolix.required_functions`.
pub open spec fn required_functions(b: Bundle) -> Seq<Seq<char>> {
    match b.dependencies {
        Some(d) => match d.hydrolix {
            Some(h) => match h.required_functions {
                Some(f) => views(f@),
                None => Seq::empty(),
            },
            None => Seq::empty(),
        },
        None => Seq::empty(),
    }
}

/// The dictionaries a bundle declares in `dependencies.hydrolix.required_dictionaries`.
pub open spec fn required_dictionaries(b: Bundle) -> Seq<Seq<char>> {
    match b.dependencies {
        Some(d) => match d.hydrolix {
            Some(h) => match h.required_dictionaries {
                Some(f) => views(f@),
                None => Seq::empty(),
            },
            None => Seq::empty(),
        },
        None => Seq::empty(),
    }
}

fn unique_of(v: &Vec<String>) -> (r: Vec<String>)
    ensures
        views(r@) == unique(views(v@)),
{
    let mut out: Vec<String> = Vec::new();
    let mut i: usize = 0;
    while i < v.len()
        invariant
            i <= v@.len(),
            views(out@) == unique(views(v@).take(i as int)),
        decreases v.len() - i,
    {
        let ghost before = views(out@);
        assert(views(v@).take(i + 1).drop_last() =~= views(v@).take(i as int));
        assert(views(v@).take(i + 1).last() == v@[i as int]@);
        if !list_contains(&out, v[i].as_str()) {
            out.push(v[i].clone());
            assert(views(out@) =~= before.push(v@[i as int]@));
        }
        i = i + 1;
    }
    assert(views(v@).take(v@.len() as int) =~= views(v@));
    out
}

/// The functions a bundle declares, each once.
pub fn declared_functions(bundle: &Bundle) -> (r: Vec<String>)
    ensures
        views(r@) == unique(required_functions(*bundle)),
{
    match &bundle.dependencies {
        Some(d) => match &d.hydrolix {
            Some(h) => match &h.required_functions {
                Some(f) => unique_of(f),
                None => {
                    let r: Vec<String> = Vec::new();
                    assert(views(r@) =~= unique(Seq::empty()));
                    r
                },
            },
            None => {
                let r: Vec<String> = Vec::new();
                assert(views(r@) =~= unique(Seq::empty()));
                r
            },
        },
        None => {
            let r: Vec<String> = Vec::new();
            assert(views(r@) =~= unique(Seq::empty()));
            r
        },
    }
}

/// The dictionaries a bundle declares, each once.
pub fn declared_dictionaries(bundle: &Bundle) -> (r: Vec<String>)
    ensures
        views(r@) == unique(required_dictionaries(*bundle)),
{
    match &bundle.dependencies {
        Some(d) => match &d.hydrolix {
            Some(h) => match &h.required_dictionaries {
                Some(f) => unique_of(f),
                None => {
                    let r: Vec<String> = Vec::new();
                    assert(views(r@) =~= unique(Seq::empty()));
                    r
                },
            },
            None => {
                let r: Vec<String> = Vec::new();
                assert(views(r@) =~= unique(Seq::empty()));
                r
            },
        },
        None => {
            let r: Vec<String> = Vec::new();
            assert(views(r@) =~= unique(Seq::empty()));
            r
        },
    }
}

/// Whether `pattern` compiles and matches somewhere in `text`.
pub open spec fn regex_matches(pattern: Seq<char>, text: Seq<char>) -> bool {
    match regex_captures_spec(pattern, text) {
        Some(c) => c.len() > 0,
        None => false,
    }
}

/// The pattern of a call of function `name`: the escaped name at a word
/// boundary, then optional white space and an opening parenthesis.
pub open spec fn call_pattern(name: Seq<char>) -> Seq<char> {
    "\\b"@ + regex_escape_spec(name) + "\\s*\\("@
}

/// Whether `sql` calls function `name`.
pub fn function_is_called(sql: &str, name: &str) -> (b: bool)
    ensures
        b == regex_matches(call_pattern(name@), sql@),
{
    let escaped = regex_escape(name);
    let mut pattern = concat("\\b", escaped.as_str());
    append(&mut pattern, "\\s*\\(");
    match regex_captures(pattern.as_str(), sql) {
        Some(c) => c.len() > 0,
        None => false,
    }
}

/// The pattern of a dictionary lookup (`dictGet`, `dictGetString` or
/// `dictGetOrDefault` with a quoted dictionary name first).
pub open spec fn dict_get_pattern() -> Seq<char> {
    "dict(?:Get|GetString|GetOrDefault)\\s*\\(\\s*['\"]([^'\"]+)['\"]"@
}

/// The dictionaries that `sql` looks up, in order of appearance.
pub fn dictionaries_used(sql: &str) -> (r: Vec<String>)
    ensures
        views(r@) == regex_group_spec(dict_get_pattern(), sql@, 1),
{
    regex_group("dict(?:Get|GetString|GetOrDefault)\\s*\\(\\s*['\"]([^'\"]+)['\"]", sql, 1)
}

pub open spec fn undeclared_message(transform_path: Seq<char>, dict: Seq<char>) -> Seq<char> {
    "  ⚠️  WARNING: Transform "@ + transform_path + " uses dictionary '"@ + dict
        + "' but it's not declared in dependencies.hydrolix.required_dictionaries"@
}

/// The warnings for the dictionaries that a transform's SQL looks up without
/// the bundle declaring them, one per lookup, in order.
pub open spec fn undeclared_warnings(transform_path: Seq<char>, used: Seq<Seq<char>>, declared: Seq<Seq<char>>) -> Seq<Seq<char>>
    decreases used.len(),
{
    if used.len() == 0 {
        Seq::empty()
    } else {
        let rest = undeclared_warnings(transform_path, used.drop_last(), declared);
        if declared.contains(used.last()) {
            rest
        } else {
            rest.push(undeclared_message(transform_path, used.last()))
        }
    }
}

/// The warnings for one transform's SQL.
pub fn transform_warnings(transform_path: &str, used: &Vec<String>, declared_dictionaries: &Vec<String>) -> (r: Vec<String>)
    ensures
        views(r@) == undeclared_warnings(transform_path@, views(used@), views(declared_dictionaries@)),
{
    let mut out: Vec<String> = Vec::new();
    let mut i: usize = 0;
    while i < used.len()
        invariant
            i <= used@.len(),
            views(out@) == undeclared_warnings(transform_path@, views(used@).take(i as int), views(declared_dictionaries@)),
        decreases used.len() - i,
    {
        let ghost before = views(out@);
        assert(views(used@).take(i + 1).drop_last() =~= views(used@).take(i as int));
        assert(views(used@).take(i + 1).last() == used@[i as int]@);
        if !list_contains(declared_dictionaries, used[i].as_str()) {
            let mut w = concat("  ⚠️  WARNING: Transform ", transform_path);
            append(&mut w, " uses dictionary '");
            append(&mut w, used[i].as_str());
            append(&mut w, "' but it's not declared in dependencies.hydrolix.required_dictionaries");
            assert(w@ =~= undeclared_message(transform_path@, used@[i as int]@));
            out.push(w);
            assert(views(out@) =~= before.push(undeclared_message(transform_path@, used@[i as int]@)));
        }
        i = i + 1;
    }
    assert(views(used@).take(used@.len() as int) =~= views(used@));
    out
}

/// The notes for declared names that no transform uses, in declaration
/// order; `kind` is `Function` or `Dictionary`.
pub open spec fn unused_notes(kind: Seq<char>, declared: Seq<Seq<char>>, used: Seq<Seq<char>>) -> Seq<Seq<char>>
    decreases declared.len(),
{
    if declared.len() == 0 {
        Seq::empty()
    } else {
        let rest = unused_notes(kind, declared.drop_last(), used);
        if used.contains(declared.last()) {
            rest
        } else {
            rest.push("  ⚠️  INFO: "@ + kind + " '"@ + declared.last() + "' is declared but not used in any transforms"@)
        }
    }
}

/// The notes for declared names that no transform uses.
pub fn unused_declarations(kind: &str, declared: &Vec<String>, used: &Vec<String>) -> (r: Vec<String>)
    ensures
        views(r@) == unused_notes(kind@, views(declared@), views(used@)),
{
    let mut out: Vec<String> = Vec::new();
    let mut i: usize = 0;
    while i < declared.len()
        invariant
            i <= declared@.len(),
            views(out@) == unused_notes(kind@, views(declared@).take(i as int), views(used@)),
        decreases declared.len() - i,
    {
        let ghost before = views(out@);
        assert(views(declared@).take(i + 1).drop_last() =~= views(declared@).take(i as int));
        assert(views(declared@).take(i + 1).last() == declared@[i as int]@);
        if !list_contains(used, declared[i].as_str()) {
            let mut w = concat("  ⚠️  INFO: ", kind);
            append(&mut w, " '");
            append(&mut w, declared[i].as_str());
            append(&mut w, "' is declared but not used in any transforms");
            let ghost expected = "  ⚠️  INFO: "@ + kind@ + " '"@ + declared@[i as int]@ + "' is declared but not used in any transforms"@;
            assert(w@ =~= expected);
            out.push(w);
            assert(views(out@) =~= before.push(expected));
        }
        i = i + 1;
    }
    assert(views(declared@).take(declared@.len() as int) =~= views(declared@));
    out
}

/// The functions among `declared` that `sql` calls, added to `used`.
pub fn record_function_calls(used: &mut Vec<String>, sql: &str, declared: &Vec<String>)
    ensures
        views(old(used)@).no_duplicates() ==> views(final(used)@).no_duplicates(),
        forall|x: Seq<char>| #[trigger] views(final(used)@).contains(x) <==> (views(old(used)@).contains(x)
            || (views(declared@).contains(x) && regex_matches(call_pattern(x), sql@))),
{
    let ghost start = views(used@);
    let mut i: usize = 0;
    while i < declared.len()
        invariant
            i <= declared@.len(),
            start.no_duplicates() ==> views(used@).no_duplicates(),
            forall|x: Seq<char>| #[trigger] views(used@).contains(x) <==> (start.contains(x)
                || (views(declared@).take(i as int).contains(x) && regex_matches(call_pattern(x), sql@))),
        decreases declared.len() - i,
    {
        let ghost prev = views(used@);
        let name = declared[i].as_str();
        let called = function_is_called(sql, name);
        if called {
            push_unique(used, name);
        }
        proof {
            let t1 = views(declared@).take(i + 1);
            let t0 = views(declared@).take(i as int);
            assert(t1 =~= t0.push(declared@[i as int]@));
            assert forall|x: Seq<char>| #[trigger] views(used@).contains(x) <==> (start.contains(x)
                || (t1.contains(x) && regex_matches(call_pattern(x), sql@))) by {
                if t1.contains(x) && !t0.contains(x) {
                    let k = choose|k: int| 0 <= k < t1.len() && t1[k] == x;
                    if k < i {
                        assert(t0[k] == x);
                    }
                }
                if t0.contains(x) {
                    let k = choose|k: int| 0 <= k < t0.len() && t0[k] == x;
                    assert(t1[k] == x);
                }
                if x == declared@[i as int]@ {
                    assert(t1[i as int] == x);
                }
            }
        }
        i = i + 1;
    }
    assert(views(declared@).take(declared@.len() as int) =~= views(declared@));
}

} // verus!
