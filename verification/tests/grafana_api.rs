use bundle_validator::grafana::browser::{dashboard_page_url, event_findings, parse_session_cookie};
use bundle_validator::grafana::datasource::{
    authorization_header, datasource_ids_to_delete, datasource_request, datasource_uid, import_request, imported_dashboard_uid, set_member,
};
use bundle_validator::grafana::remote::{
    create_folder_payload, created_folder_uid, folder_delete_ok, folder_delete_url, folders_url, subfolder_uid,
    upsert_payload, upserted_dashboard_url, RemoteConfig,
};
use bundle_validator::json::{Json, JsonNumber};

fn to_json(v: &serde_json::Value) -> Json {
    match v {
        serde_json::Value::Null => Json::Null,
        serde_json::Value::Bool(b) => Json::Bool(*b),
        serde_json::Value::Number(n) => {
            if let Some(u) = n.as_u64() {
                Json::Number(JsonNumber::PosInt(u))
            } else if let Some(i) = n.as_i64() {
                Json::Number(JsonNumber::NegInt(i))
            } else {
                let f = n.as_f64().unwrap_or(0.0);
                Json::Number(JsonNumber::Float { text: n.to_string(), saturated_u64: f as u64 })
            }
        }
        serde_json::Value::String(s) => Json::Str(s.clone()),
        serde_json::Value::Array(a) => Json::Array(a.iter().map(to_json).collect()),
        serde_json::Value::Object(m) => Json::Object(m.iter().map(|(k, v)| (k.clone(), to_json(v))).collect()),
    }
}

fn j(text: &str) -> Json {
    to_json(&serde_json::from_str::<serde_json::Value>(text).unwrap())
}

fn s(x: &str) -> String {
    x.to_string()
}

fn obj(members: Vec<(&str, Json)>) -> Json {
    Json::Object(members.into_iter().map(|(k, v)| (k.to_string(), v)).collect())
}

#[test]
fn testing_datasource_request() {
    let r = datasource_request("proj", "cluster.example", "user", "secret");
    assert_eq!(r.name, "Bundle Testing");
    assert_eq!(r.datasource_type, "hydrolix-hydrolix-datasource");
    assert_eq!(r.jsonData.default_database, "proj");
    assert_eq!(r.jsonData.host, "cluster.example");
    assert_eq!(r.jsonData.port, "9440");
    assert_eq!(r.jsonData.protocol, "native");
    assert!(r.jsonData.secure && r.readOnly);
    assert_eq!(r.secureJsonData.password, "secret");
}

#[test]
fn old_testing_datasources_are_deleted_by_name() {
    let listing = j(r#"[{"name":"Bundle Testing","id":3},{"name":"other","id":4},{"name":"Bundle Testing","id":"x"},{"name":"Bundle Testing","id":-2}]"#);
    assert_eq!(datasource_ids_to_delete(&listing, "Bundle Testing"), vec![3, -2]);
    assert!(datasource_ids_to_delete(&j("{}"), "Bundle Testing").is_empty());
}

#[test]
fn created_uids_are_read_from_answers() {
    assert_eq!(datasource_uid(&j(r#"{"datasource":{"uid":"abc"}}"#)), Ok(s("abc")));
    assert_eq!(datasource_uid(&j("{}")), Err(s("Failed to create Grafana Datalink ")));
    assert_eq!(imported_dashboard_uid(&j(r#"{"uid":"d1"}"#)), Ok(s("d1")));
    assert_eq!(imported_dashboard_uid(&j(r#"{"uid":1}"#)), Err(s("ERROR: No UID in the dashboard")));
}

#[test]
fn import_payload_wraps_raw_dashboards() {
    let raw = j(r#"{"title":"T"}"#);
    assert_eq!(
        import_request(raw, ""),
        obj(vec![("dashboard", j(r#"{"title":"T"}"#)), ("overwrite", Json::Bool(true)), ("inputs", Json::Array(vec![]))])
    );
    let wrapped = j(r#"{"dashboard":{"title":"T"},"folderUid":"old"}"#);
    assert_eq!(import_request(wrapped, "f1"), j(r#"{"dashboard":{"title":"T"},"folderUid":"f1"}"#));
    assert_eq!(set_member(j("[1]"), "k", j("2")), j("[1]"));
}

#[test]
fn review_grafana_configuration() {
    assert_eq!(RemoteConfig::from_env(None, None, None, None).unwrap_err(),
        "REMOTE_GRAFANA_TOKEN is required for --remote mode (Grafana service-account or API token)");
    let c = RemoteConfig::from_env(Some(s("t")), Some(s("https://g")), None, Some(s("ds"))).unwrap();
    assert_eq!((c.url, c.token, c.bundling_folder_uid, c.datasource_uid), (s("https://g"), s("t"), s("efko87db3by0we"), s("ds")));
}

#[test]
fn folders_are_found_by_title() {
    let listing = j(r#"[{"title":"a","uid":"1"},{"uid":"2"},{"title":"b"},{"title":"b","uid":"3"}]"#);
    assert_eq!(subfolder_uid(&listing, "b"), Some(s("3")));
    assert_eq!(subfolder_uid(&listing, ""), Some(s("2")));
    assert_eq!(subfolder_uid(&j(r#"{"title":"b"}"#), "b"), None);
}

#[test]
fn folder_and_dashboard_requests() {
    assert_eq!(folders_url("https://g", "p"), "https://g/api/folders?parentUid=p");
    assert_eq!(folder_delete_url("https://g", "u"), "https://g/api/folders/u?forceDeleteRules=true");
    assert_eq!(create_folder_payload("p", "n"), j(r#"{"parentUid":"p","title":"n"}"#));
    assert_eq!(created_folder_uid(&j(r#"{"uid":"f"}"#), "body"), Ok(s("f")));
    assert_eq!(created_folder_uid(&j("{}"), "body"), Err(s("create-folder response missing uid: body")));
    assert_eq!(
        upsert_payload(j(r#"{"title":"T"}"#), "f", "m"),
        obj(vec![
            ("dashboard", j(r#"{"title":"T"}"#)),
            ("folderUid", j(r#""f""#)),
            ("overwrite", Json::Bool(true)),
            ("message", j(r#""m""#)),
        ])
    );
    assert_eq!(upserted_dashboard_url(&j(r#"{"url":"/d/x"}"#)), "/d/x");
    assert_eq!(upserted_dashboard_url(&j("{}")), "");
    assert!(folder_delete_ok(false, 404));
    assert!(!folder_delete_ok(false, 500));
}

#[test]
fn session_cookie_is_read_from_the_header() {
    assert_eq!(parse_session_cookie("grafana_session=abc123; Path=/; HttpOnly"), Ok((s("grafana_session"), s("abc123"))));
    assert_eq!(parse_session_cookie("novalue; Path=/"), Err(s("Invalid cookie format")));
    assert_eq!(parse_session_cookie("a=b=c"), Err(s("Invalid cookie format")));
}

#[test]
fn browser_events_are_classified() {
    assert_eq!(event_findings("Datasource abc123 was not found"), (true, false));
    assert_eq!(event_findings("GET api/ds/query?ds_type=grafana-clickhouse-datasource&x=1"), (false, true));
    assert_eq!(event_findings("nothing"), (false, false));
    assert_eq!(dashboard_page_url("localhost:3000", "d1"), "http://localhost:3000/d/d1?from=now-14d&to=now");
}

#[test]
fn grafana_authorization_prefers_the_token() {
    assert_eq!(authorization_header("tok", "admin", "admin"), "Bearer tok");
    assert_eq!(authorization_header("", "admin", "admin"), "Basic YWRtaW46YWRtaW4=");
}
