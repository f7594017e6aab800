use bundle_validator::hdx::auth::{login_payload, login_url, token_from_answer};
use bundle_validator::hdx::dictionaries::{
    base_file_name, data_extensions, data_file_name, dictionary_definition, dictionary_dirs, file_already_uploaded,
    mime_type, missing_data_file, missing_dictionary_files,
};
use bundle_validator::hdx::project::{find_project_uuid, project_payload, project_url};
use bundle_validator::hdx::shared::{
    created_project_uuid, missing_shared_function, project_resource_url, shared_function_definition,
    shared_project_payload, shared_project_uuid,
};
use bundle_validator::hdx::table::{
    created_table_uuid, insert_payload, retry_add_transform, summary_payload, table_listed, table_not_found,
    table_payload, tables_url, transform_name,
};
use bundle_validator::json::{copy_json, Json, JsonNumber};

fn to_json(v: &serde_json::Value) -> Json {
    match v {
        serde_json::Value::Null => Json::Null,
        serde_json::Value::Bool(b) => Json::Bool(*b),
        serde_json::Value::Number(n) => {
            if let Some(u) = n.as_u64() {
                Json::Number(JsonNumber::PosInt(u))
            } else if let Some(i) = n.as_i64() {
                Json::Number(JsonNumber::NegInt(i))
            } else {
                let f = n.as_f64().unwrap_or(0.0);
                Json::Number(JsonNumber::Float { text: n.to_string(), saturated_u64: f as u64 })
            }
        }
        serde_json::Value::String(s) => Json::Str(s.clone()),
        serde_json::Value::Array(a) => Json::Array(a.iter().map(to_json).collect()),
        serde_json::Value::Object(m) => Json::Object(m.iter().map(|(k, v)| (k.clone(), to_json(v))).collect()),
    }
}

fn j(text: &str) -> Json {
    to_json(&serde_json::from_str::<serde_json::Value>(text).unwrap())
}

fn s(x: &str) -> String {
    x.to_string()
}

fn obj(members: Vec<(&str, Json)>) -> Json {
    Json::Object(members.into_iter().map(|(k, v)| (k.to_string(), v)).collect())
}

#[test]
fn testing_table_payloads() {
    let age = obj(vec![("max_age_days", j("1"))]);
    let merge = obj(vec![("enabled", Json::Bool(false))]);
    let plain = table_payload("t1", false);
    assert_eq!(
        plain,
        obj(vec![
            ("name", j(r#""t1""#)),
            ("description", j(r#""testing""#)),
            ("settings", obj(vec![("age", copy_json(&age)), ("merge", copy_json(&merge))])),
        ])
    );
    let market = table_payload("t1", true);
    let opts = obj(vec![
        ("hdx_query_max_timerange_sec", j("2592000")),
        ("hdx_query_max_result_rows", j("5000000")),
        ("hdx_query_max_execution_time", j("180")),
    ]);
    assert_eq!(
        market,
        obj(vec![
            ("name", j(r#""t1""#)),
            ("description", j(r#""testing""#)),
            ("settings", obj(vec![("age", age), ("merge", merge), ("default_query_options", opts)])),
        ])
    );
}

#[test]
fn summary_payload_carries_the_sql() {
    assert_eq!(
        summary_payload("s", "SELECT 1"),
        obj(vec![
            ("name", j(r#""s""#)),
            ("type", j(r#""summary""#)),
            ("settings", obj(vec![("summary", obj(vec![("enabled", Json::Bool(true)), ("sql", j(r#""SELECT 1""#))]))])),
        ])
    );
}

#[test]
fn table_answers_and_listings() {
    assert_eq!(created_table_uuid(&j(r#"{"uuid":"u"}"#)), Ok(s("u")));
    assert_eq!(created_table_uuid(&j("{}")), Err(s("table UUID not found")));
    assert!(table_listed(&j(r#"{"results":[{"name":"a"},{"name":"b"}]}"#), "b"));
    assert!(!table_listed(&j(r#"{"results":[{"name":"a"}]}"#), "b"));
    assert!(table_listed(&j(r#"[{"name":"b"}]"#), "b"));
    assert_eq!(table_not_found("t"), "Table 't' not found after 12 attempts");
    assert_eq!(tables_url("c", "o", "p"), "https://c/config/v1/orgs/o/projects/p/tables");
    assert_eq!(transform_name(&j(r#"{"name":"tr"}"#)), Some(s("tr")));
    assert_eq!(transform_name(&j("{}")), None);
    assert_eq!(insert_payload(&j(r#"{"a":1}"#)), j(r#"[{"a":1}]"#));
}

#[test]
fn transforms_are_retried_after_server_errors_only() {
    assert!(retry_add_transform(1, false, 503));
    assert!(retry_add_transform(5, true, 0));
    assert!(!retry_add_transform(6, true, 0));
    assert!(!retry_add_transform(1, false, 400));
}

#[test]
fn dictionary_file_names() {
    assert_eq!(base_file_name("geo.csv"), "geo");
    assert_eq!(base_file_name("geo.yaml"), "geo");
    assert_eq!(base_file_name("geo.csv.csv"), "geo");
    assert_eq!(base_file_name("geo.tsv.csv"), "geo");
    assert_eq!(base_file_name("geo.csv.tsv"), "geo.csv");
    assert_eq!(base_file_name("geo"), "geo");
    assert_eq!(data_file_name("a/b/dictionaries/geo.csv"), "geo.csv");
    assert_eq!(mime_type("geo.YML"), "application/x-yaml");
    assert_eq!(mime_type("geo.csv"), "text/csv");
    assert_eq!(mime_type("geo"), "text/csv");
}

#[test]
fn uploaded_files_are_recognized() {
    let listing = j(r#"["geo", {"name":"asn.csv"}, {"id":1}]"#);
    assert!(file_already_uploaded(&listing, "geo.csv", "geo"));
    assert!(file_already_uploaded(&listing, "asn.csv", "asn"));
    assert!(!file_already_uploaded(&listing, "x.csv", "x"));
    assert!(file_already_uploaded(&listing, "x.csv", ""));
    assert!(!file_already_uploaded(&j("{}"), "geo.csv", "geo"));
}

#[test]
fn dictionary_messages_and_paths() {
    assert!(missing_dictionary_files("geo", "b").starts_with("Bundle-specific dictionary 'geo' declared but files not found.\n  Expected:\n    - b/dictionaries/geo.json (definition)"));
    assert_eq!(missing_data_file("b/dictionaries/geo.json"), "Found b/dictionaries/geo.json but no matching data file");
    assert_eq!(dictionary_dirs("b"), vec![s("b/dictionaries"), s("b/dictionaries/.extracted")]);
    assert_eq!(data_extensions(), vec!["csv", "yaml", "yml", "tsv"]);
    assert_eq!(dictionary_definition(j(r#"{"name":"old","x":1}"#), "geo"), j(r#"{"name":"geo","x":1}"#));
    assert_eq!(dictionary_definition(j(r#"{"x":1}"#), "geo"), obj(vec![("x", j("1")), ("name", j(r#""geo""#))]));
}

#[test]
fn shared_project_lookup_and_creation() {
    let listing = j(r#"{"projects":[{"name":"x","uuid":"1"},{"name":"commons","uuid":"2"}]}"#);
    assert_eq!(shared_project_uuid(&listing, "commons"), Some(s("2")));
    assert_eq!(shared_project_uuid(&listing, "none"), None);
    assert_eq!(
        shared_project_payload("commons"),
        obj(vec![
            ("name", j(r#""commons""#)),
            ("description", j(r#""Shared resources for all bundles (functions, dictionaries)""#)),
        ])
    );
    assert_eq!(created_project_uuid(&j("{}")), Err(s("No UUID in response")));
    assert_eq!(project_resource_url("c", "o", "p", "functions"), "https://c/config/v1/orgs/o/projects/p/functions/");
}

#[test]
fn shared_function_sql_uses_the_shared_project() {
    let def = j(r#"{"sql":"SELECT __SHARED_PROJECT__.a, __PROJECT_NAME__.b"}"#);
    assert_eq!(
        shared_function_definition(&def, "f", "commons"),
        obj(vec![("sql", j(r#""SELECT commons.a, commons.b""#)), ("name", j(r#""f""#))])
    );
    assert!(missing_shared_function("f", "b/functions/f.json").starts_with("Shared function 'f' declared but file not found.\n  Expected: b/functions/f.json"));
}

#[test]
fn logins() {
    assert_eq!(login_url("c"), "https://c/config/v1/login");
    assert_eq!(login_payload("u", "p"), obj(vec![("username", j(r#""u""#)), ("password", j(r#""p""#))]));
    let ok = j(r#"{"auth_token":{"access_token":"tok"}}"#);
    assert_eq!(token_from_answer(&ok, true, "200 OK", "{}"), Ok(s("tok")));
    assert_eq!(token_from_answer(&ok, false, "401 Unauthorized", "{..}"), Err(s("Authentication failed (HTTP 401 Unauthorized): {..}")));
    assert_eq!(token_from_answer(&j("{}"), true, "200 OK", "{}"), Err(s("Could not find token in payload. Response was: {}")));
}

#[test]
fn projects_by_name() {
    let listing = j(r#"{"data":[{"name":"p1","uuid":"u1"}]}"#);
    assert_eq!(find_project_uuid(&listing, "p1"), Ok(s("u1")));
    assert_eq!(find_project_uuid(&listing, "p2"), Err(s("Project 'p2' not found")));
    assert_eq!(
        project_payload("g1"),
        obj(vec![("name", j(r#""g1""#)), ("description", j(r#""GUID test project for bundle validation (g1)""#))])
    );
    assert_eq!(project_url("c", "o", "u"), "https://c/config/v1/orgs/o/projects/u");
}
