//! The shared project (`commons` unless configured otherwise) that holds
//! the functions and dictionaries common to all bundles: finding it in a
//! project listing, the body that creates it, and the definitions of shared
//! functions. The requests are the caller's.
use vstd::prelude::*;
use crate::json::{copy_json, json_view, Json, JsonV, members_view, object_of, member, json_str};
use crate::hdx::resources::{listing_by, function_definition_spec, prepare_function_definition};
use crate::text::{append, concat, replace, str_eq, str_replace, str_views, owned};

verus! {

broadcast use vstd::string::group_string_axioms;

/// A listed project's uuid when it has the name `name`.
pub open spec fn uuid_if_project(p: Json, name: Seq<char>) -> Option<Seq<char>> {
    match p.get_spec("name"@) {
        Some(n) => if n.str_spec() == Some(name) {
            match p.get_spec("uuid"@) {
                Some(u) => u.str_spec(),
                None => None,
            }
        } else {
            None
        },
        None => None,
    }
}

pub open spec fn first_project(list: Seq<Json>, name: Seq<char>, i: int) -> Option<Seq<char>>
    decreases list.len() - i,
{
    if i < 0 || i >= list.len() {
        None
    } else {
        match uuid_if_project(list[i], name) {
            Some(u) => Some(u),
            None => first_project(list, name, i + 1),
        }
    }
}

/// The keys under which a project listing may hold its projects.
pub open spec fn project_keys() -> Seq<Seq<char>> {
    seq!["results"@, "projects"@, "data"@]
}

/// The uuid of the shared project in a project listing, when it is there.
pub fn shared_project_uuid(listing: &Json, shared_name: &str) -> (r: Option<String>)
    ensures
        match r {
            Some(u) => first_project(listing_by(*listing, project_keys()), shared_name@, 0) == Some(u@),
            None => first_project(listing_by(*listing, project_keys()), shared_name@, 0) is None,
        },
{
    let keys: [&str; 3] = ["results", "projects", "data"];
    assert(str_views(keys@) =~= project_keys());
    let items = match crate::hdx::resources::listing_entries(listing, &keys) {
        Some(a) => a,
        None => {
            return None;
        },
    };
    let mut i: usize = 0;
    while i < items.len()
        invariant
            i <= items@.len(),
            items@ == listing_by(*listing, project_keys()),
            first_project(items@, shared_name@, 0) == first_project(items@, shared_name@, i as int),
        decreases items.len() - i,
    {
        let p = &items[i];
        let mut hit: Option<String> = None;
        match p.get("name") {
            Some(n) => match n.as_str() {
                Some(s) => {
                    if str_eq(s.as_str(), shared_name) {
                        match p.get("uuid") {
                            Some(u) => match u.as_str() {
                                Some(us) => {
                                    hit = Some(us.clone());
                                },
                                None => {},
                            },
                            None => {},
                        }
                    }
                },
                None => {},
            },
            None => {},
        }
        assert(match hit {
            Some(h) => uuid_if_project(items@[i as int], shared_name@) == Some(h@),
            None => uuid_if_project(items@[i as int], shared_name@) is None,
        });
        if hit.is_some() {
            assert(first_project(items@, shared_name@, i as int) == Some(hit->0@));
            return hit;
        }
        i = i + 1;
    }
    None
}

/// The body that creates the shared project.
pub open spec fn shared_project_payload_spec(name: Seq<char>) -> JsonV {
    JsonV::Object(seq![
        ("name"@, JsonV::Str(name)),
        ("description"@, JsonV::Str("Shared resources for all bundles (functions, dictionaries)"@)),
    ])
}

/// The body that creates the shared project.
pub fn shared_project_payload(name: &str) -> (r: Json)
    ensures
        r@ == shared_project_payload_spec(name@),
{
    let mut m: Vec<(String, Json)> = Vec::new();
    m.push(member("name", json_str(name)));
    m.push(member("description", json_str("Shared resources for all bundles (functions, dictionaries)")));
    let ghost mv = members_view(m@);
    let r = object_of(m);
    assert(mv =~= shared_project_payload_spec(name@)->Object_0);
    r
}

/// The uuid of the shared project that was created.
pub fn created_project_uuid(answer: &Json) -> (r: Result<String, String>)
    ensures
        match r {
            Ok(u) => answer.at("uuid"@).str_spec() == Some(u@),
            Err(e) => answer.at("uuid"@).str_spec() is None && e@ == "No UUID in response"@,
        },
{
    match answer.get("uuid") {
        Some(u) => match u.as_str() {
            Some(s) => Ok(s.clone()),
            None => Err(owned("No UUID in response")),
        },
        None => Err(owned("No UUID in response")),
    }
}

/// A definition's members with `__SHARED_PROJECT__` in a string `sql`
/// member filled in.
pub open spec fn shared_sql_filled(m: Seq<(Seq<char>, JsonV)>, shared: Seq<char>) -> Seq<(Seq<char>, JsonV)> {
    m.map_values(|e: (Seq<char>, JsonV)| if e.0 == "sql"@ && e.1 is Str {
        (e.0, JsonV::Str(replace(e.1->Str_0, "__SHARED_PROJECT__"@, shared)))
    } else {
        e
    })
}

pub open spec fn shared_filled(def: JsonV, shared: Seq<char>) -> JsonV {
    match def {
        JsonV::Object(m) => JsonV::Object(shared_sql_filled(m, shared)),
        _ => def,
    }
}

fn fill_shared(def: &Json, shared: &str) -> (r: Json)
    ensures
        r@ == shared_filled(def@, shared@),
{
    match def {
        Json::Object(m) => {
            let ghost mv = json_view(*def)->Object_0;
            let mut out: Vec<(String, Json)> = Vec::new();
            let mut i: usize = 0;
            while i < m.len()
                invariant
                    i <= m@.len() == mv.len(),
                    mv == json_view(*def)->Object_0,
                    *def == Json::Object(*m),
                    out@.len() == i,
                    forall|k: int| 0 <= k < i ==> (#[trigger] out@[k]).0@ == mv[k].0
                        && json_view(out@[k].1) == shared_sql_filled(mv, shared@)[k].1,
                decreases m.len() - i,
            {
                let key = &m[i].0;
                assert(mv[i as int] == (key@, json_view(m@[i as int].1)));
                if str_eq(key.as_str(), "sql") && m[i].1.as_str().is_some() {
                    let s = m[i].1.as_str().unwrap();
                    let replaced = str_replace(s.as_str(), "__SHARED_PROJECT__", shared);
                    out.push((key.clone(), Json::Str(replaced)));
                } else {
                    out.push((key.clone(), copy_json(&m[i].1)));
                }
                i = i + 1;
            }
            let r = Json::Object(out);
            assert(json_view(r)->Object_0 =~= shared_sql_filled(mv, shared@));
            r
        },
        _ => copy_json(def),
    }
}

/// The definition sent to create a shared function: in its SQL,
/// `__SHARED_PROJECT__` and then `__PROJECT_NAME__` become the shared
/// project's name, and its `name` is set to the function's name.
pub fn shared_function_definition(def: &Json, name: &str, shared: &str) -> (r: Json)
    ensures
        r@ == function_definition_spec(shared_filled(def@, shared@), name@, shared@),
{
    let filled = fill_shared(def, shared);
    prepare_function_definition(&filled, name, shared)
}

pub open spec fn missing_shared_function_message(name: Seq<char>, path: Seq<char>) -> Seq<char> {
    "Shared function '"@ + name + "' declared but file not found.\n  Expected: "@ + path
        + "\n  Actions:\n    1. Add "@ + name + ".json to functions/ folder, OR\n    2. Remove '"@ + name
        + "' from shared_functions in bundle.json if not needed"@
}

/// The error for a shared function whose definition file is missing.
pub fn missing_shared_function(name: &str, path: &str) -> (r: String)
    ensures
        r@ == missing_shared_function_message(name@, path@),
{
    let mut r = concat("Shared function '", name);
    append(&mut r, "' declared but file not found.\n  Expected: ");
    append(&mut r, path);
    append(&mut r, "\n  Actions:\n    1. Add ");
    append(&mut r, name);
    append(&mut r, ".json to functions/ folder, OR\n    2. Remove '");
    append(&mut r, name);
    append(&mut r, "' from shared_functions in bundle.json if not needed");
    assert(r@ =~= missing_shared_function_message(name@, path@));
    r
}

/// The url of a project's functions (or, with `kind` `dictionaries`, its
/// dictionaries).
pub fn project_resource_url(cluster: &str, org_uuid: &str, project_uuid: &str, kind: &str) -> (r: String)
    ensures
        r@ == "https://"@ + cluster@ + "/config/v1/orgs/"@ + org_uuid@ + "/projects/"@ + project_uuid@ + "/"@ + kind@ + "/"@,
{
    let mut r = concat("https://", cluster);
    append(&mut r, "/config/v1/orgs/");
    append(&mut r, org_uuid);
    append(&mut r, "/projects/");
    append(&mut r, project_uuid);
    append(&mut r, "/");
    append(&mut r, kind);
    append(&mut r, "/");
    r
}

} // verus!
