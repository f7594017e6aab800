//! Projects on a cluster: the body that creates a test project, and finding
//! a project by name in a listing. The requests are the caller's.
use vstd::prelude::*;
use crate::json::{Json, JsonV, members_view, object_of, member, json_str};
use crate::hdx::resources::{listing_by, listing_entries};
use crate::hdx::shared::{first_project, uuid_if_project};
use crate::text::{concat, append, str_eq, str_views};

verus! {

broadcast use vstd::string::group_string_axioms;

/// The body that creates a test project.
pub open spec fn project_payload_spec(name: Seq<char>) -> JsonV {
    JsonV::Object(seq![
        ("name"@, JsonV::Str(name)),
        ("description"@, JsonV::Str("GUID test project for bundle validation ("@ + name + ")"@)),
    ])
}

/// The body that creates test project `name`.
pub fn project_payload(name: &str) -> (r: Json)
    ensures
        r@ == project_payload_spec(name@),
{
    let mut d = concat("GUID test project for bundle validation (", name);
    append(&mut d, ")");
    let mut m: Vec<(String, Json)> = Vec::new();
    m.push(member("name", json_str(name)));
    m.push(member("description", json_str(d.as_str())));
    let ghost mv = members_view(m@);
    let r = object_of(m);
    assert(mv =~= project_payload_spec(name@)->Object_0);
    r
}

/// The keys under which a project listing may hold its projects.
pub open spec fn listing_keys() -> Seq<Seq<char>> {
    seq!["results"@, "data"@]
}

/// The uuid of project `name` in a project listing.
pub fn find_project_uuid(listing: &Json, name: &str) -> (r: Result<String, String>)
    ensures
        match first_project(listing_by(*listing, listing_keys()), name@, 0) {
            Some(u) => r matches Ok(s) && s@ == u,
            None => r matches Err(e) && e@ == "Project '"@ + name@ + "' not found"@,
        },
{
    let keys: [&str; 2] = ["results", "data"];
    assert(str_views(keys@) =~= listing_keys());
    let mut not_found = concat("Project '", name);
    append(&mut not_found, "' not found");
    let items = match listing_entries(listing, &keys) {
        Some(a) => a,
        None => {
            return Err(not_found);
        },
    };
    let mut i: usize = 0;
    while i < items.len()
        invariant
            i <= items@.len(),
            items@ == listing_by(*listing, listing_keys()),
            first_project(items@, name@, 0) == first_project(items@, name@, i as int),
        decreases items.len() - i,
    {
        let p = &items[i];
        let mut hit: Option<String> = None;
        match p.get("name") {
            Some(n) => match n.as_str() {
                Some(s) => {
                    if str_eq(s.as_str(), name) {
                        match p.get("uuid") {
                            Some(u) => match u.as_str() {
                                Some(us) => {
                                    hit = Some(us.clone());
                                },
                                None => {},
                            },
                            None => {},
                        }
                    }
                },
                None => {},
            },
            None => {},
        }
        assert(match hit {
            Some(h) => uuid_if_project(items@[i as int], name@) == Some(h@),
            None => uuid_if_project(items@[i as int], name@) is None,
        });
        match hit {
            Some(h) => {
                assert(first_project(items@, name@, i as int) == Some(h@));
                return Ok(h);
            },
            None => {},
        }
        i = i + 1;
    }
    Err(not_found)
}

/// The url of a project (`uuid`) of an organization.
pub fn project_url(cluster: &str, org_uuid: &str, uuid: &str) -> (r: String)
    ensures
        r@ == "https://"@ + cluster@ + "/config/v1/orgs/"@ + org_uuid@ + "/projects/"@ + uuid@,
{
    let mut r = concat("https://", cluster);
    append(&mut r, "/config/v1/orgs/");
    append(&mut r, org_uuid);
    append(&mut r, "/projects/");
    append(&mut r, uuid);
    r
}

} // verus!
