//! Functions and dictionaries that a bundle needs on the cluster: whether
//! a listing already holds one, and the definition that creates it.
use vstd::prelude::*;
use crate::json::{copy_json, json_view, Json, JsonV};
use crate::text::{append, concat, replace, str_eq, str_replace, str_views, views};

verus! {

broadcast use vstd::string::group_string_axioms;

/// The entries of a listing: the response when it is an array, else the
/// array under the first of `keys` that the response has (nothing when that
/// member is no array).
pub open spec fn listing_by(response: Json, keys: Seq<Seq<char>>) -> Seq<Json>
    decreases keys.len(),
{
    if response.array_spec() is Some {
        response.array_spec()->Some_0
    } else if keys.len() == 0 {
        Seq::empty()
    } else {
        match response.get_spec(keys[0]) {
            Some(m) => match m.array_spec() {
                Some(a) => a,
                None => Seq::empty(),
            },
            None => listing_by(response, keys.skip(1)),
        }
    }
}

/// The entries of a listing (`None` when there are none).
pub fn listing_entries<'a>(response: &'a Json, keys: &[&str]) -> (r: Option<&'a Vec<Json>>)
    ensures
        match r {
            Some(v) => v@ == listing_by(*response, str_views(keys@)),
            None => listing_by(*response, str_views(keys@)) == Seq::<Json>::empty(),
        },
{
    if response.is_array() {
        return response.as_array();
    }
    let ghost ks = str_views(keys@);
    let mut i: usize = 0;
    assert(ks.skip(0) =~= ks);
    while i < keys.len()
        invariant
            i <= keys@.len(),
            ks == str_views(keys@),
            !(response.array_spec() is Some),
            listing_by(*response, ks) == listing_by(*response, ks.skip(i as int)),
        decreases keys.len() - i,
    {
        assert(ks.skip(i as int)[0] == keys@[i as int]@);
        assert(ks.skip(i as int).skip(1) =~= ks.skip(i + 1));
        match response.get(keys[i]) {
            Some(m) => {
                return m.as_array();
            },
            None => {},
        }
        i = i + 1;
    }
    assert(ks.skip(i as int) =~= Seq::<Seq<char>>::empty());
    None
}

/// The name that the cluster gives a project's resource: the project name,
/// `_`, the resource name.
pub open spec fn qualified_name(project: Seq<char>, name: Seq<char>) -> Seq<char> {
    project + "_"@ + name
}

/// An entry with a string `name` equal to the resource's name or to its
/// qualified name.
pub open spec fn names_resource(entry: Json, name: Seq<char>, qualified: Seq<char>) -> bool {
    match entry.get_spec("name"@) {
        Some(n) => n.str_spec() == Some(name) || n.str_spec() == Some(qualified),
        None => false,
    }
}

/// Whether a listing already holds the resource, under its own or its
/// qualified name.
pub fn resource_listed(entries: &Vec<Json>, name: &str, qualified: &str) -> (b: bool)
    ensures
        b == exists|i: int| 0 <= i < entries@.len() && names_resource(#[trigger] entries@[i], name@, qualified@),
{
    let mut i: usize = 0;
    while i < entries.len()
        invariant
            i <= entries@.len(),
            forall|k: int| 0 <= k < i ==> !names_resource(#[trigger] entries@[k], name@, qualified@),
        decreases entries.len() - i,
    {
        match entries[i].get("name") {
            Some(n) => match n.as_str() {
                Some(s) => {
                    if str_eq(s.as_str(), name) || str_eq(s.as_str(), qualified) {
                        assert(names_resource(entries@[i as int], name@, qualified@));
                        return true;
                    }
                },
                None => {},
            },
            None => {},
        }
        i = i + 1;
    }
    false
}

/// The qualified name of a resource.
pub fn qualify(project: &str, name: &str) -> (r: String)
    ensures
        r@ == qualified_name(project@, name@),
{
    let mut r = concat(project, "_");
    append(&mut r, name);
    r
}

/// Where a bundle keeps the definition of a function.
pub open spec fn function_file_spec(base_dir: Seq<char>, name: Seq<char>) -> Seq<char> {
    base_dir + "/functions/"@ + name + ".json"@
}

/// Where a bundle keeps the definition of a function.
pub fn function_file_path(base_dir: &str, name: &str) -> (r: String)
    ensures
        r@ == function_file_spec(base_dir@, name@),
{
    let mut r = concat(base_dir, "/functions/");
    append(&mut r, name);
    append(&mut r, ".json");
    r
}

/// The error for a declared function whose definition file is missing.
pub open spec fn missing_function_file_message(name: Seq<char>, path: Seq<char>) -> Seq<char> {
    "Bundle-specific function '"@ + name + "' declared but file not found.\n  Expected: "@ + path
        + "\n  Actions:\n    1. Add "@ + name + ".json to functions/ folder, OR\n    2. Remove '"@ + name
        + "' from required_functions in bundle.json if not needed"@
}

/// The error for a declared function whose definition file is missing.
pub fn missing_function_file(name: &str, path: &str) -> (r: String)
    ensures
        r@ == missing_function_file_message(name@, path@),
{
    let mut r = "Bundle-specific function '".to_string();
    append(&mut r, name);
    append(&mut r, "' declared but file not found.\n  Expected: ");
    append(&mut r, path);
    append(&mut r, "\n  Actions:\n    1. Add ");
    append(&mut r, name);
    append(&mut r, ".json to functions/ folder, OR\n    2. Remove '");
    append(&mut r, name);
    append(&mut r, "' from required_functions in bundle.json if not needed");
    assert(r@ =~= missing_function_file_message(name@, path@));
    r
}

/// The error for a failed creation request.
pub fn http_failure(status: &str, body: &str) -> (r: String)
    ensures
        r@ == "HTTP "@ + status@ + ": "@ + body@,
{
    let mut r = "HTTP ".to_string();
    append(&mut r, status);
    append(&mut r, ": ");
    append(&mut r, body);
    r
}

/// A definition's members with the project placeholder of a string `sql`
/// member filled in.
pub open spec fn sql_filled(m: Seq<(Seq<char>, JsonV)>, project: Seq<char>) -> Seq<(Seq<char>, JsonV)> {
    m.map_values(|e: (Seq<char>, JsonV)| if e.0 == "sql"@ && e.1 is Str {
        (e.0, JsonV::Str(replace(e.1->Str_0, "__PROJECT_NAME__"@, project)))
    } else {
        e
    })
}

/// Members with `key` set to `v`: every such member replaced, or one added
/// at the end when there is none.
pub open spec fn with_member(m: Seq<(Seq<char>, JsonV)>, key: Seq<char>, v: JsonV) -> Seq<(Seq<char>, JsonV)> {
    if exists|i: int| 0 <= i < m.len() && m[i].0 == key {
        m.map_values(|e: (Seq<char>, JsonV)| if e.0 == key { (e.0, v) } else { e })
    } else {
        m.push((key, v))
    }
}

/// The definition sent to create a function: the project placeholder of
/// its SQL filled in and its `name` set to the function's name.
pub open spec fn function_definition_spec(def: JsonV, name: Seq<char>, project: Seq<char>) -> JsonV {
    match def {
        JsonV::Object(m) => JsonV::Object(with_member(sql_filled(m, project), "name"@, JsonV::Str(name))),
        _ => def,
    }
}

/// Builds the definition that creates a function from its file.
pub fn prepare_function_definition(def: &Json, name: &str, project: &str) -> (r: Json)
    ensures
        r@ == function_definition_spec(def@, name@, project@),
{
    match def {
        Json::Object(m) => {
            let ghost mv = json_view(*def)->Object_0;
            let ghost filled = sql_filled(mv, project@);
            let mut out: Vec<(String, Json)> = Vec::new();
            let mut has_name = false;
            let mut i: usize = 0;
            while i < m.len()
                invariant
                    i <= m@.len() == mv.len(),
                    mv == json_view(*def)->Object_0,
                    *def == Json::Object(*m),
                    filled == sql_filled(mv, project@),
                    out@.len() == i,
                    has_name == exists|k: int| 0 <= k < i && mv[k].0 == "name"@,
                    forall|k: int| 0 <= k < i ==> (#[trigger] out@[k]).0@ == mv[k].0 && json_view(out@[k].1) == (
                        if mv[k].0 == "name"@ { JsonV::Str(name@) } else { filled[k].1 }),
                decreases m.len() - i,
            {
                let key = &m[i].0;
                assert(mv[i as int] == (key@, json_view(m@[i as int].1)));
                if str_eq(key.as_str(), "name") {
                    out.push((key.clone(), Json::Str(name.to_string())));
                    has_name = true;
                } else if str_eq(key.as_str(), "sql") && m[i].1.as_str().is_some() {
                    let s = m[i].1.as_str().unwrap();
                    let replaced = str_replace(s.as_str(), "__PROJECT_NAME__", project);
                    out.push((key.clone(), Json::Str(replaced)));
                } else {
                    out.push((key.clone(), copy_json(&m[i].1)));
                }
                i = i + 1;
            }
            if !has_name {
                out.push(("name".to_string(), Json::Str(name.to_string())));
            }
            let r = Json::Object(out);
            proof {
                let a = json_view(r)->Object_0;
                let b = with_member(filled, "name"@, JsonV::Str(name@));
                if has_name {
                    assert(exists|k: int| 0 <= k < filled.len() && filled[k].0 == "name"@) by {
                        let k = choose|k: int| 0 <= k < mv.len() && mv[k].0 == "name"@;
                        assert(filled[k].0 == "name"@);
                    }
                } else {
                    assert(!exists|k: int| 0 <= k < filled.len() && filled[k].0 == "name"@) by {
                        if exists|k: int| 0 <= k < filled.len() && filled[k].0 == "name"@ {
                            let k = choose|k: int| 0 <= k < filled.len() && filled[k].0 == "name"@;
                            assert(mv[k].0 == "name"@);
                        }
                    }
                }
                assert(a =~= b);
            }
            r
        },
        _ => copy_json(def),
    }
}

} // verus!
