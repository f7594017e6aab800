//! The persistent review Grafana: its configuration, and the payloads and
//! answers of its folder and dashboard APIs. The requests themselves are
//! the caller's.
use vstd::prelude::*;
use crate::json::{Json, JsonV};
use crate::text::{owned, concat, append, str_eq};
use crate::grafana::datasource::{set_member, with_member};

verus! {

broadcast use vstd::string::group_string_axioms;

/// Where the review Grafana is and how to reach it.
#[derive(Debug)]
pub struct RemoteConfig {
    pub url: String,
    pub token: String,
    pub bundling_folder_uid: String,
    pub datasource_uid: String,
}

pub open spec fn default_grafana_url() -> Seq<char> {
    "https://dashboards.trafficpeak.live"@
}

pub open spec fn default_bundling_folder_uid() -> Seq<char> {
    "efko87db3by0we"@
}

pub open spec fn default_datasource_uid() -> Seq<char> {
    "aelocpydfc9vke"@
}

pub open spec fn or_default(v: Option<String>, d: Seq<char>) -> Seq<char> {
    match v {
        Some(s) => s@,
        None => d,
    }
}

impl RemoteConfig {
    /// The configuration from the values of `REMOTE_GRAFANA_TOKEN`,
    /// `REMOTE_GRAFANA_URL`, `REMOTE_BUNDLING_FOLDER_UID` and
    /// `REMOTE_GRAFANA_DATASOURCE_UID` (`None` where a variable is unset).
    /// The token is required; the others have defaults.
    pub fn from_env(
        token: Option<String>,
        url: Option<String>,
        bundling_folder_uid: Option<String>,
        datasource_uid: Option<String>,
    ) -> (r: Result<RemoteConfig, String>)
        ensures
            match r {
                Ok(c) => token matches Some(t) && c.token@ == t@
                    && c.url@ == or_default(url, default_grafana_url())
                    && c.bundling_folder_uid@ == or_default(bundling_folder_uid, default_bundling_folder_uid())
                    && c.datasource_uid@ == or_default(datasource_uid, default_datasource_uid()),
                Err(e) => token is None
                    && e@ == "REMOTE_GRAFANA_TOKEN is required for --remote mode (Grafana service-account or API token)"@,
            },
    {
        let token = match token {
            Some(t) => t,
            None => {
                return Err(owned("REMOTE_GRAFANA_TOKEN is required for --remote mode (Grafana service-account or API token)"));
            },
        };
        let url = match url {
            Some(u) => u,
            None => owned("https://dashboards.trafficpeak.live"),
        };
        let bundling_folder_uid = match bundling_folder_uid {
            Some(u) => u,
            None => owned("efko87db3by0we"),
        };
        let datasource_uid = match datasource_uid {
            Some(u) => u,
            None => owned("aelocpydfc9vke"),
        };
        Ok(RemoteConfig { url, token, bundling_folder_uid, datasource_uid })
    }
}

/// The uid of a listed folder when it has the title `name` (a folder without
/// a title counts as titled with the empty string).
pub open spec fn uid_if_titled(f: Json, name: Seq<char>) -> Option<Seq<char>> {
    let title = match f.get_spec("title"@) {
        Some(t) => match t.str_spec() {
            Some(s) => s,
            None => Seq::empty(),
        },
        None => Seq::empty(),
    };
    if title == name {
        match f.get_spec("uid"@) {
            Some(u) => u.str_spec(),
            None => None,
        }
    } else {
        None
    }
}

/// The first listed folder titled `name` that has a uid.
pub open spec fn first_titled(list: Seq<Json>, name: Seq<char>, i: int) -> Option<Seq<char>>
    decreases list.len() - i,
{
    if i < 0 || i >= list.len() {
        None
    } else {
        match uid_if_titled(list[i], name) {
            Some(u) => Some(u),
            None => first_titled(list, name, i + 1),
        }
    }
}

/// The uid of the subfolder titled `name` in a folder listing (none when
/// the listing is not an array).
pub fn subfolder_uid(listing: &Json, name: &str) -> (r: Option<String>)
    ensures
        match r {
            Some(u) => listing.array_spec() matches Some(a) && first_titled(a, name@, 0) == Some(u@),
            None => match listing.array_spec() {
                Some(a) => first_titled(a, name@, 0) is None,
                None => true,
            },
        },
{
    let items = match listing.as_array() {
        Some(a) => a,
        None => {
            return None;
        },
    };
    let mut i: usize = 0;
    while i < items.len()
        invariant
            i <= items@.len(),
            listing.array_spec() == Some(items@),
            first_titled(items@, name@, 0) == first_titled(items@, name@, i as int),
        decreases items.len() - i,
    {
        let f = &items[i];
        let title: &str = match f.get("title") {
            Some(t) => match t.as_str() {
                Some(s) => s.as_str(),
                None => "",
            },
            None => "",
        };
        proof {
            reveal_strlit("");
            assert(""@ =~= Seq::<char>::empty());
        }
        let mut hit: Option<String> = None;
        if str_eq(title, name) {
            match f.get("uid") {
                Some(u) => match u.as_str() {
                    Some(s) => {
                        hit = Some(s.clone());
                    },
                    None => {},
                },
                None => {},
            }
        }
        assert(match hit {
            Some(h) => uid_if_titled(items@[i as int], name@) == Some(h@),
            None => uid_if_titled(items@[i as int], name@) is None,
        });
        if hit.is_some() {
            assert(first_titled(items@, name@, i as int) == Some(hit->0@));
            return hit;
        }
        i = i + 1;
    }
    None
}

/// The url that lists the subfolders of `parent_uid`.
pub fn folders_url(base_url: &str, parent_uid: &str) -> (r: String)
    ensures
        r@ == base_url@ + "/api/folders?parentUid="@ + parent_uid@,
{
    let mut r = concat(base_url, "/api/folders?parentUid=");
    append(&mut r, parent_uid);
    r
}

/// The url that deletes folder `uid` with its alert rules.
pub fn folder_delete_url(base_url: &str, uid: &str) -> (r: String)
    ensures
        r@ == base_url@ + "/api/folders/"@ + uid@ + "?forceDeleteRules=true"@,
{
    let mut r = concat(base_url, "/api/folders/");
    append(&mut r, uid);
    append(&mut r, "?forceDeleteRules=true");
    r
}

/// The body that creates folder `name` under `parent_uid`.
pub fn create_folder_payload(parent_uid: &str, name: &str) -> (r: Json)
    ensures
        r@ == JsonV::Object(seq![("parentUid"@, JsonV::Str(parent_uid@)), ("title"@, JsonV::Str(name@))]),
{
    proof {
        reveal_strlit("parentUid");
        reveal_strlit("title");
    }
    let empty: Vec<(String, Json)> = Vec::new();
    let o = Json::Object(empty);
    assert(o@->Object_0 =~= Seq::<(Seq<char>, JsonV)>::empty());
    let v1 = Json::Str(owned(parent_uid));
    assert(v1@ == JsonV::Str(parent_uid@));
    let v2 = Json::Str(owned(name));
    assert(v2@ == JsonV::Str(name@));
    let o = set_member(o, "parentUid", v1);
    assert(o@ is Object);
    assert(o@->Object_0 =~= seq![("parentUid"@, JsonV::Str(parent_uid@))]);
    assert(crate::grafana::datasource::key_position(o@->Object_0, "title"@, 1) is None);
    assert("parentUid"@.len() == 9 && "title"@.len() == 5);
    assert(o@->Object_0[0].0 != "title"@);
    assert(crate::grafana::datasource::key_position(o@->Object_0, "title"@, 0) is None);
    let ghost o1 = o@;
    let o = set_member(o, "title", v2);
    assert(o@ == JsonV::Object(o1->Object_0.push(("title"@, JsonV::Str(name@)))));
    assert(o@->Object_0 =~= seq![("parentUid"@, JsonV::Str(parent_uid@)), ("title"@, JsonV::Str(name@))]);
    o
}

/// The uid of the folder that was created, from the answer (`text` is the
/// answer's text, quoted in the error).
pub fn created_folder_uid(answer: &Json, text: &str) -> (r: Result<String, String>)
    ensures
        match r {
            Ok(u) => answer.at("uid"@).str_spec() == Some(u@),
            Err(e) => answer.at("uid"@).str_spec() is None && e@ == "create-folder response missing uid: "@ + text@,
        },
{
    match answer.get("uid") {
        Some(u) => match u.as_str() {
            Some(s) => Ok(s.clone()),
            None => Err(concat("create-folder response missing uid: ", text)),
        },
        None => Err(concat("create-folder response missing uid: ", text)),
    }
}

/// The body that upserts `dashboard` into `folder_uid`, overwriting.
pub open spec fn upsert_payload_spec(dashboard: JsonV, folder_uid: Seq<char>, message: Seq<char>) -> JsonV {
    JsonV::Object(seq![
        ("dashboard"@, dashboard),
        ("folderUid"@, JsonV::Str(folder_uid)),
        ("overwrite"@, JsonV::Bool(true)),
        ("message"@, JsonV::Str(message)),
    ])
}

/// The body that upserts `dashboard` into `folder_uid`.
pub fn upsert_payload(dashboard: Json, folder_uid: &str, message: &str) -> (r: Json)
    ensures
        r@ == upsert_payload_spec(dashboard@, folder_uid@, message@),
{
    let ghost dv = dashboard@;
    let mut m: Vec<(String, Json)> = Vec::new();
    m.push((owned("dashboard"), dashboard));
    let fv = Json::Str(owned(folder_uid));
    assert(fv@ == JsonV::Str(folder_uid@));
    let mv = Json::Str(owned(message));
    assert(mv@ == JsonV::Str(message@));
    m.push((owned("folderUid"), fv));
    m.push((owned("overwrite"), Json::Bool(true)));
    m.push((owned("message"), mv));
    let r = Json::Object(m);
    proof {
        let rv = r@->Object_0;
        assert(rv[0] == ("dashboard"@, dv));
        assert(rv[1] == ("folderUid"@, JsonV::Str(folder_uid@)));
        assert(m@[2].1 == Json::Bool(true));
        assert(crate::json::json_view(Json::Bool(true)) == JsonV::Bool(true));
        assert(rv[2] == ("overwrite"@, JsonV::Bool(true)));
        assert(rv[3] == ("message"@, JsonV::Str(message@)));
        assert(rv =~= upsert_payload_spec(dv, folder_uid@, message@)->Object_0);
    }
    r
}

/// The dashboard's url from the upsert answer (empty when it has none).
pub fn upserted_dashboard_url(answer: &Json) -> (r: String)
    ensures
        r@ == match answer.at("url"@).str_spec() {
            Some(u) => u,
            None => Seq::empty(),
        },
{
    match answer.get("url") {
        Some(u) => match u.as_str() {
            Some(s) => s.clone(),
            None => String::new(),
        },
        None => String::new(),
    }
}

/// Whether deleting a folder went as wanted: it was deleted, or it was not
/// there (404).
pub fn folder_delete_ok(success: bool, status: u16) -> (b: bool)
    ensures
        b == (success || status == 404),
{
    success || status == 404
}

} // verus!
