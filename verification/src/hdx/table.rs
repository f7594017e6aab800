//! Tables on the testing cluster: the bodies of the requests that create
//! tables, summary tables and transforms, what the answers say, and when a
//! failed request is tried again. The requests and waits are the caller's.
use vstd::prelude::*;
use crate::json::{Json, JsonV, NumberV, members_view, object_of, member, json_str, json_uint, json_bool};
use crate::deploy::remote::{listed_tables, first_named};
use crate::text::{concat, append, str_eq, owned};

verus! {

broadcast use vstd::string::group_string_axioms;

/// An object with one member.
pub open spec fn obj1(k: Seq<char>, v: JsonV) -> JsonV {
    JsonV::Object(seq![(k, v)])
}

/// The settings of a new testing table: data kept one day, merging off and,
/// for the marketplace, the default query limits (30 days of range,
/// 5000000 rows, 180 seconds).
pub open spec fn table_settings_spec(for_marketplace: bool) -> JsonV {
    let age = obj1("max_age_days"@, JsonV::Number(NumberV::PosInt(1)));
    let merge = obj1("enabled"@, JsonV::Bool(false));
    if for_marketplace {
        JsonV::Object(seq![
            ("age"@, age),
            ("merge"@, merge),
            ("default_query_options"@, JsonV::Object(seq![
                ("hdx_query_max_timerange_sec"@, JsonV::Number(NumberV::PosInt(2592000))),
                ("hdx_query_max_result_rows"@, JsonV::Number(NumberV::PosInt(5000000))),
                ("hdx_query_max_execution_time"@, JsonV::Number(NumberV::PosInt(180))),
            ])),
        ])
    } else {
        JsonV::Object(seq![("age"@, age), ("merge"@, merge)])
    }
}

/// The body that creates a testing table.
pub open spec fn table_payload_spec(name: Seq<char>, for_marketplace: bool) -> JsonV {
    JsonV::Object(seq![
        ("name"@, JsonV::Str(name)),
        ("description"@, JsonV::Str("testing"@)),
        ("settings"@, table_settings_spec(for_marketplace)),
    ])
}

fn single(k: &str, v: Json) -> (r: Json)
    ensures
        r@ == obj1(k@, v@),
{
    let mut m: Vec<(String, Json)> = Vec::new();
    m.push(member(k, v));
    let r = object_of(m);
    assert(members_view(m@) =~= seq![(k@, v@)]);
    r
}

/// The body that creates a testing table named `name`.
pub fn table_payload(name: &str, for_marketplace: bool) -> (r: Json)
    ensures
        r@ == table_payload_spec(name@, for_marketplace),
{
    let age = single("max_age_days", json_uint(1));
    let merge = single("enabled", json_bool(false));
    let ghost agev = age@;
    let ghost mergev = merge@;
    let mut s: Vec<(String, Json)> = Vec::new();
    s.push(member("age", age));
    s.push(member("merge", merge));
    if for_marketplace {
        let mut q: Vec<(String, Json)> = Vec::new();
        q.push(member("hdx_query_max_timerange_sec", json_uint(2592000)));
        q.push(member("hdx_query_max_result_rows", json_uint(5000000)));
        q.push(member("hdx_query_max_execution_time", json_uint(180)));
        let ghost qv = members_view(q@);
        let qo = object_of(q);
        assert(qv =~= seq![
            ("hdx_query_max_timerange_sec"@, JsonV::Number(NumberV::PosInt(2592000))),
            ("hdx_query_max_result_rows"@, JsonV::Number(NumberV::PosInt(5000000))),
            ("hdx_query_max_execution_time"@, JsonV::Number(NumberV::PosInt(180))),
        ]);
        s.push(member("default_query_options", qo));
    }
    let ghost sv = members_view(s@);
    let settings = object_of(s);
    assert(sv =~= table_settings_spec(for_marketplace)->Object_0);
    let ghost setv = settings@;
    let mut t: Vec<(String, Json)> = Vec::new();
    t.push(member("name", json_str(name)));
    t.push(member("description", json_str("testing")));
    t.push(member("settings", settings));
    let ghost tv = members_view(t@);
    let r = object_of(t);
    assert(tv =~= table_payload_spec(name@, for_marketplace)->Object_0);
    r
}

/// The body that creates a summary table with this SQL.
pub open spec fn summary_payload_spec(name: Seq<char>, sql: Seq<char>) -> JsonV {
    JsonV::Object(seq![
        ("name"@, JsonV::Str(name)),
        ("type"@, JsonV::Str("summary"@)),
        ("settings"@, obj1("summary"@, JsonV::Object(seq![
            ("enabled"@, JsonV::Bool(true)),
            ("sql"@, JsonV::Str(sql)),
        ]))),
    ])
}

/// The body that creates summary table `name` from `sql`.
pub fn summary_payload(name: &str, sql: &str) -> (r: Json)
    ensures
        r@ == summary_payload_spec(name@, sql@),
{
    let mut inner: Vec<(String, Json)> = Vec::new();
    inner.push(member("enabled", json_bool(true)));
    inner.push(member("sql", json_str(sql)));
    let ghost iv = members_view(inner@);
    let io = object_of(inner);
    assert(iv =~= seq![("enabled"@, JsonV::Bool(true)), ("sql"@, JsonV::Str(sql@))]);
    let settings = single("summary", io);
    let mut t: Vec<(String, Json)> = Vec::new();
    t.push(member("name", json_str(name)));
    t.push(member("type", json_str("summary")));
    t.push(member("settings", settings));
    let ghost tv = members_view(t@);
    let r = object_of(t);
    assert(tv =~= summary_payload_spec(name@, sql@)->Object_0);
    r
}

/// The url of a project's tables.
pub fn tables_url(cluster: &str, org_uuid: &str, project_uuid: &str) -> (r: String)
    ensures
        r@ == "https://"@ + cluster@ + "/config/v1/orgs/"@ + org_uuid@ + "/projects/"@ + project_uuid@ + "/tables"@,
{
    let mut r = concat("https://", cluster);
    append(&mut r, "/config/v1/orgs/");
    append(&mut r, org_uuid);
    append(&mut r, "/projects/");
    append(&mut r, project_uuid);
    append(&mut r, "/tables");
    r
}

/// The uuid of the table that was created, from the answer.
pub fn created_table_uuid(answer: &Json) -> (r: Result<String, String>)
    ensures
        match r {
            Ok(u) => answer.at("uuid"@).str_spec() == Some(u@),
            Err(e) => answer.at("uuid"@).str_spec() is None && e@ == "table UUID not found"@,
        },
{
    match answer.get("uuid") {
        Some(u) => match u.as_str() {
            Some(s) => Ok(s.clone()),
            None => Err(owned("table UUID not found")),
        },
        None => Err(owned("table UUID not found")),
    }
}

/// Whether a listed table has the name `name`.
pub open spec fn has_name(t: Json, name: Seq<char>) -> bool {
    match t.get_spec("name"@) {
        Some(n) => n.str_spec() == Some(name),
        None => false,
    }
}

/// Whether a table listing holds a table named `name`.
pub fn table_listed(listing: &Json, name: &str) -> (b: bool)
    ensures
        b == exists|i: int| 0 <= i < listed_tables(*listing).len() && #[trigger] has_name(listed_tables(*listing)[i], name@),
{
    let items = match listing {
        Json::Array(a) => Some(a),
        _ => match listing.get("results") {
            Some(r) => r.as_array(),
            None => match listing.get("data") {
                Some(d) => d.as_array(),
                None => None,
            },
        },
    };
    let items = match items {
        Some(a) => a,
        None => {
            return false;
        },
    };
    let mut i: usize = 0;
    while i < items.len()
        invariant
            i <= items@.len(),
            items@ == listed_tables(*listing),
            forall|j: int| 0 <= j < i ==> !#[trigger] has_name(items@[j], name@),
        decreases items.len() - i,
    {
        let hit = match items[i].get("name") {
            Some(n) => match n.as_str() {
                Some(s) => str_eq(s.as_str(), name),
                None => false,
            },
            None => false,
        };
        assert(hit == has_name(items@[i as int], name@));
        if hit {
            return true;
        }
        i = i + 1;
    }
    false
}

/// How many times the check for a new table looks for it (five seconds
/// apart) before giving up.
pub const TABLE_LOOKUP_ATTEMPTS: u32 = 12;

/// The error when a table did not show up.
pub fn table_not_found(table_name: &str) -> (r: String)
    ensures
        r@ == "Table '"@ + table_name@ + "' not found after 12 attempts"@,
{
    let mut r = concat("Table '", table_name);
    append(&mut r, "' not found after 12 attempts");
    r
}

/// The name of a transform, which its creation is reported under.
pub fn transform_name(transform: &Json) -> (r: Option<String>)
    ensures
        match r {
            Some(n) => transform.at("name"@).str_spec() == Some(n@),
            None => transform.at("name"@).str_spec() is None,
        },
{
    match transform.get("name") {
        Some(n) => match n.as_str() {
            Some(s) => Some(s.clone()),
            None => None,
        },
        None => None,
    }
}

/// The retries of adding a transform.
pub const TRANSFORM_RETRIES: u32 = 5;

/// Whether adding a transform is tried again after attempt `attempt` (the
/// first is 1): after a failed request or a server error (5xx), while no
/// more than five retries were made.
pub fn retry_add_transform(attempt: u32, request_failed: bool, status: u16) -> (b: bool)
    ensures
        b == (attempt <= 5 && (request_failed || (500 <= status && status < 600))),
{
    attempt <= 5 && (request_failed || (500 <= status && status < 600))
}

/// The attempts of a sample insert.
pub const INSERT_ATTEMPTS: u32 = 20;

/// The body of a sample insert: the sample as a one-element array.
pub fn insert_payload(sample: &Json) -> (r: Json)
    ensures
        r is Array && r->Array_0@.len() == 1 && r->Array_0@[0]@ == sample@,
{
    let mut v: Vec<Json> = Vec::new();
    v.push(crate::json::copy_json(sample));
    Json::Array(v)
}

} // verus!
