//! The Grafana datasource that points at the testing cluster, and the
//! payloads and answers of Grafana's datasource and dashboard-import APIs.
use vstd::prelude::*;
use crate::json::{Json, JsonV, JsonNumber, json_view};
use crate::text::{owned, str_eq, is_blank, concat, append};
use crate::ext::{base64_encode, base64_spec};

verus! {

broadcast use vstd::string::group_string_axioms;

/// The connection settings of the datasource.
pub struct JsonData {
    pub default_database: String,
    pub host: String,
    pub port: String,
    pub protocol: String,
    pub query_timeout: String,
    pub secure: bool,
    pub timeout: String,
    pub username: String,
}

/// The datasource's secret settings.
pub struct SecureJsonData {
    pub password: String,
}

/// The body of Grafana's create-datasource request.
#[allow(non_snake_case)]
pub struct CreateDataSourceRequest {
    pub name: String,
    pub datasource_type: String,
    pub access: String,
    pub jsonData: JsonData,
    pub secureJsonData: SecureJsonData,
    pub readOnly: bool,
}

/// The name under which the testing datasource is created.
pub open spec fn testing_datasource_name() -> Seq<char> {
    "Bundle Testing"@
}

/// The request that creates the testing datasource for a project: the
/// Hydrolix plugin over the native protocol on port 9440, secure, read-only,
/// with the cluster's credentials.
pub fn datasource_request(project_name: &str, cluster: &str, username: &str, password: &str) -> (r: CreateDataSourceRequest)
    ensures
        r.name@ == "Bundle Testing"@,
        r.datasource_type@ == "hydrolix-hydrolix-datasource"@,
        r.access@ == "proxy"@,
        r.jsonData.default_database@ == project_name@,
        r.jsonData.host@ == cluster@,
        r.jsonData.port@ == "9440"@,
        r.jsonData.protocol@ == "native"@,
        r.jsonData.query_timeout@ == "600"@,
        r.jsonData.secure,
        r.jsonData.timeout@ == "10"@,
        r.jsonData.username@ == username@,
        r.secureJsonData.password@ == password@,
        r.readOnly,
{
    CreateDataSourceRequest {
        name: owned("Bundle Testing"),
        datasource_type: owned("hydrolix-hydrolix-datasource"),
        access: owned("proxy"),
        jsonData: JsonData {
            default_database: owned(project_name),
            host: owned(cluster),
            port: owned("9440"),
            protocol: owned("native"),
            query_timeout: owned("600"),
            secure: true,
            timeout: owned("10"),
            username: owned(username),
        },
        secureJsonData: SecureJsonData { password: owned(password) },
        readOnly: true,
    }
}

/// `Value::as_i64`.
pub open spec fn i64_spec(v: Json) -> Option<i64> {
    match v {
        Json::Number(JsonNumber::PosInt(u)) => if u <= i64::MAX {
            Some(u as i64)
        } else {
            None
        },
        Json::Number(JsonNumber::NegInt(i)) => Some(i),
        _ => None,
    }
}

fn as_i64(v: &Json) -> (r: Option<i64>)
    ensures
        r == i64_spec(*v),
{
    match v {
        Json::Number(JsonNumber::PosInt(u)) => if *u <= 9223372036854775807u64 {
            Some(*u as i64)
        } else {
            None
        },
        Json::Number(JsonNumber::NegInt(i)) => Some(*i),
        _ => None,
    }
}

/// The id of a listed datasource when it has the name `name`.
pub open spec fn id_if_named(ds: Json, name: Seq<char>) -> Option<i64> {
    match ds.get_spec("name"@) {
        Some(n) => if n.str_spec() == Some(name) {
            match ds.get_spec("id"@) {
                Some(i) => i64_spec(i),
                None => None,
            }
        } else {
            None
        },
        None => None,
    }
}

/// The ids of the listed datasources named `name`, in listing order.
pub open spec fn ids_named(list: Seq<Json>, name: Seq<char>) -> Seq<i64>
    decreases list.len(),
{
    if list.len() == 0 {
        Seq::empty()
    } else {
        let rest = ids_named(list.drop_last(), name);
        match id_if_named(list.last(), name) {
            Some(id) => rest.push(id),
            None => rest,
        }
    }
}

/// The datasources to delete before the testing one is created again: those
/// of a datasource listing that carry its name (none when the listing is not
/// an array).
pub fn datasource_ids_to_delete(listing: &Json, name: &str) -> (r: Vec<i64>)
    ensures
        r@ == match listing.array_spec() {
            Some(a) => ids_named(a, name@),
            None => Seq::empty(),
        },
{
    let mut out: Vec<i64> = Vec::new();
    let items = match listing.as_array() {
        Some(a) => a,
        None => {
            return out;
        },
    };
    let mut i: usize = 0;
    while i < items.len()
        invariant
            i <= items@.len(),
            out@ == ids_named(items@.take(i as int), name@),
        decreases items.len() - i,
    {
        assert(items@.take(i + 1).drop_last() =~= items@.take(i as int));
        assert(items@.take(i + 1).last() == items@[i as int]);
        let ds = &items[i];
        let mut id: Option<i64> = None;
        match ds.get("name") {
            Some(n) => match n.as_str() {
                Some(s) => {
                    if str_eq(s.as_str(), name) {
                        match ds.get("id") {
                            Some(v) => {
                                id = as_i64(v);
                            },
                            None => {},
                        }
                    }
                },
                None => {},
            },
            None => {},
        }
        assert(id == id_if_named(*ds, name@));
        match id {
            Some(x) => out.push(x),
            None => {},
        }
        i = i + 1;
    }
    assert(items@.take(items@.len() as int) =~= items@);
    out
}

/// The uid of the datasource that Grafana created, from its answer.
pub fn datasource_uid(answer: &Json) -> (r: Result<String, String>)
    ensures
        match r {
            Ok(uid) => answer.at("datasource"@).at("uid"@).str_spec() == Some(uid@),
            Err(e) => answer.at("datasource"@).at("uid"@).str_spec() is None
                && e@ == "Failed to create Grafana Datalink "@,
        },
{
    let uid = match answer.get("datasource") {
        Some(d) => match d.get("uid") {
            Some(u) => u.as_str(),
            None => None,
        },
        None => None,
    };
    match uid {
        Some(u) => Ok(u.clone()),
        None => Err(owned("Failed to create Grafana Datalink ")),
    }
}

/// The uid of the dashboard that Grafana imported, from its answer.
pub fn imported_dashboard_uid(answer: &Json) -> (r: Result<String, String>)
    ensures
        match r {
            Ok(uid) => answer.at("uid"@).str_spec() == Some(uid@),
            Err(e) => answer.at("uid"@).str_spec() is None && e@ == "ERROR: No UID in the dashboard"@,
        },
{
    match answer.get("uid") {
        Some(u) => match u.as_str() {
            Some(s) => Ok(s.clone()),
            None => Err(owned("ERROR: No UID in the dashboard")),
        },
        None => Err(owned("ERROR: No UID in the dashboard")),
    }
}

/// The first position of `key` among members.
pub open spec fn key_position(m: Seq<(Seq<char>, JsonV)>, key: Seq<char>, i: int) -> Option<int>
    decreases m.len() - i,
{
    if i < 0 || i >= m.len() {
        None
    } else if m[i].0 == key {
        Some(i)
    } else {
        key_position(m, key, i + 1)
    }
}

proof fn lemma_key_position_range(m: Seq<(Seq<char>, JsonV)>, key: Seq<char>, i: int)
    ensures
        key_position(m, key, i) matches Some(k) ==> i <= k < m.len() && m[k].0 == key,
    decreases m.len() - i,
{
    if 0 <= i < m.len() && m[i].0 != key {
        lemma_key_position_range(m, key, i + 1);
    }
}

/// `object[key] = value` on an object: the member under `key` takes the
/// value, or a new member is added at the end. Anything else is unchanged.
pub open spec fn with_member(v: JsonV, key: Seq<char>, value: JsonV) -> JsonV {
    match v {
        JsonV::Object(m) => match key_position(m, key, 0) {
            Some(k) => JsonV::Object(m.update(k, (key, value))),
            None => JsonV::Object(m.push((key, value))),
        },
        _ => v,
    }
}

/// Sets `key` to `value` in an object.
pub fn set_member(obj: Json, key: &str, value: Json) -> (r: Json)
    ensures
        r@ == with_member(obj@, key@, value@),
{
    let ghost ov = obj@;
    let ghost vv = value@;
    match obj {
        Json::Object(mut m) => {
            let ghost before = m@;
            let ghost mv = ov->Object_0;
            assert(mv.len() == before.len());
            assert forall|j: int| 0 <= j < before.len() implies #[trigger] mv[j] == (before[j].0@, json_view(before[j].1)) by {}
            let mut i: usize = 0;
            let mut found: Option<usize> = None;
            while i < m.len()
                invariant
                    i <= m@.len(),
                    m@ == before,
                    mv.len() == before.len(),
                    forall|j: int| 0 <= j < before.len() ==> #[trigger] mv[j] == (before[j].0@, json_view(before[j].1)),
                    match found {
                        Some(p) => p < before.len() && key_position(mv, key@, 0) == Some(p as int),
                        None => key_position(mv, key@, 0) == key_position(mv, key@, i as int),
                    },
                decreases m.len() - i,
            {
                assert(mv[i as int].0 == m@[i as int].0@);
                if found.is_none() && str_eq(m[i].0.as_str(), key) {
                    found = Some(i);
                }
                i = i + 1;
            }
            proof {
                lemma_key_position_range(mv, key@, 0);
            }
            let k = owned(key);
            match found {
                Some(p) => {
                    assert(key_position(mv, key@, 0) == Some(p as int));
                    m.set(p, (k, value));
                    let r = Json::Object(m);
                    assert(json_view(r)->Object_0 =~= mv.update(p as int, (key@, vv)));
                    r
                },
                None => {
                    assert(key_position(mv, key@, 0) is None);
                    m.push((k, value));
                    let r = Json::Object(m);
                    assert(json_view(r)->Object_0 =~= mv.push((key@, vv)));
                    r
                },
            }
        },
        other => other,
    }
}

/// The body of Grafana's dashboard-import request: a body that already
/// holds a `dashboard` is sent as it is, anything else is wrapped as the
/// dashboard to import, with overwriting and no inputs. A folder, when one
/// is configured, is set on it.
pub open spec fn import_request_spec(dashboard: Json, folder_uid: Seq<char>) -> JsonV {
    let base = if dashboard.get_spec("dashboard"@) is Some {
        dashboard@
    } else {
        JsonV::Object(seq![
            ("dashboard"@, dashboard@),
            ("overwrite"@, JsonV::Bool(true)),
            ("inputs"@, JsonV::Array(Seq::empty())),
        ])
    };
    if folder_uid.len() > 0 {
        with_member(base, "folderUid"@, JsonV::Str(folder_uid))
    } else {
        base
    }
}

/// The body of the dashboard-import request for `dashboard`.
pub fn import_request(dashboard: Json, folder_uid: &str) -> (r: Json)
    ensures
        r@ == import_request_spec(dashboard, folder_uid@),
{
    let ghost d = dashboard;
    let has_dashboard = dashboard.get("dashboard").is_some();
    let base = if has_dashboard {
        dashboard
    } else {
        let mut m: Vec<(String, Json)> = Vec::new();
        m.push((owned("dashboard"), dashboard));
        m.push((owned("overwrite"), Json::Bool(true)));
        let inner: Vec<Json> = Vec::new();
        let empty = Json::Array(inner);
        assert(json_view(empty)->Array_0 =~= Seq::<JsonV>::empty());
        m.push((owned("inputs"), empty));
        let w = Json::Object(m);
        proof {
            let wv = json_view(w)->Object_0;
            assert(wv.len() == 3);
            assert(m@[0].1 == d);
            assert(wv[0].0 == "dashboard"@);
            assert(wv[0].1 == json_view(d));
            assert(wv[0] == ("dashboard"@, d@));
            assert(m@[1].1 == Json::Bool(true));
            assert(json_view(Json::Bool(true)) == JsonV::Bool(true));
            assert(wv[1].0 == "overwrite"@);
            assert(wv[1] == ("overwrite"@, JsonV::Bool(true)));
            assert(m@[2].1 == empty);
            assert(wv[2].0 == "inputs"@);
            assert(wv[2].1 == JsonV::Array(Seq::empty()));
            assert(json_view(w)->Object_0 =~= seq![
                ("dashboard"@, d@),
                ("overwrite"@, JsonV::Bool(true)),
                ("inputs"@, JsonV::Array(Seq::empty())),
            ]);
        }
        w
    };
    if folder_uid.is_empty() {
        base
    } else {
        set_member(base, "folderUid", Json::Str(owned(folder_uid)))
    }
}

/// The `Authorization` header for the Grafana API: the token as a bearer
/// when one is configured, else basic authentication with the username and
/// password.
pub fn authorization_header(token: &str, username: &str, password: &str) -> (r: String)
    ensures
        r@ == if token@.len() > 0 {
            "Bearer "@ + token@
        } else {
            "Basic "@ + base64_spec(username@ + ":"@ + password@)
        },
{
    if !token.is_empty() {
        concat("Bearer ", token)
    } else {
        let mut creds = concat(username, ":");
        append(&mut creds, password);
        let encoded = base64_encode(creds.as_str());
        concat("Basic ", encoded.as_str())
    }
}

} // verus!
