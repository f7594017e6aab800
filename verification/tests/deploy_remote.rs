use bundle_validator::deploy::default::{
    dashboard_only_text, get_sample_data_as_json, get_transformation_name, get_transformation_subtype,
    get_transformation_type, name_summary, name_tables, output_transformation, replace_transform_variables,
};
use bundle_validator::deploy::remote::{
    dashboard_paths, push_message, remove_member, retry_summary, review_project_name, review_url, stable_dashboard_uid,
    substitute_dashboard_placeholders, substitute_transform_template_vars, summary_sql, table_uuid_by_name,
    unwrap_dashboard,
};
use bundle_validator::grafana::remote::RemoteConfig;
use bundle_validator::json::{Json, JsonNumber};
use bundle_validator::models::bundle::{Bundle, Dashboard, Graphics, Metadata, SummarySqlFile, SummaryTable, Table, Ui};

fn to_json(v: &serde_json::Value) -> Json {
    match v {
        serde_json::Value::Null => Json::Null,
        serde_json::Value::Bool(b) => Json::Bool(*b),
        serde_json::Value::Number(n) => {
            if let Some(u) = n.as_u64() {
                Json::Number(JsonNumber::PosInt(u))
            } else if let Some(i) = n.as_i64() {
                Json::Number(JsonNumber::NegInt(i))
            } else {
                let f = n.as_f64().unwrap_or(0.0);
                Json::Number(JsonNumber::Float { text: n.to_string(), saturated_u64: f as u64 })
            }
        }
        serde_json::Value::String(s) => Json::Str(s.clone()),
        serde_json::Value::Array(a) => Json::Array(a.iter().map(to_json).collect()),
        serde_json::Value::Object(m) => Json::Object(m.iter().map(|(k, v)| (k.clone(), to_json(v))).collect()),
    }
}

fn j(text: &str) -> Json {
    to_json(&serde_json::from_str::<serde_json::Value>(text).unwrap())
}
fn s(x: &str) -> String {
    x.to_string()
}

fn bundle_with(tables: Vec<Table>, summaries: Option<Vec<SummaryTable>>) -> Bundle {
    Bundle {
        name: s("akamai_s3"),
        source: s("akamai"),
        method: s("s3"),
        method_overrides: None,
        solution: false,
        beta: false,
        base_url: s("u"),
        dashboard: Dashboard { path: s("dashboards/main.json"), project_var: s("__PROJECT_NAME__"), sha256: None },
        other_dashboards: Some(vec![Dashboard { path: s("dashboards/other.json"), project_var: s("__PROJECT_NAME__"), sha256: None }]),
        tables,
        summary_tables: summaries,
        ui: Ui {
            primary_url: s("https://example.com"),
            method: Graphics { full_title: s("Amazon S3"), icon_url: s("https://example.com/i.png") },
            source: Graphics { full_title: s("Akamai"), icon_url: s("https://example.com/i.png") },
            data_category: s("cdn"),
            folder: None,
            subfolder: None,
        },
        metadata: Metadata { version: s("1.0.0"), maintainer: s("a@b.c"), description: s("d"), channel_type: s("AWS") },
        dependencies: None,
        alert_rules: None,
    }
}

fn config() -> RemoteConfig {
    RemoteConfig::from_env(Some(s("tok")), None, None, None).unwrap()
}

#[test]
fn dashboard_uid_is_stable_and_fits_grafana() {
    let a = stable_dashboard_uid("akamai_s3", "dashboards/main.json");
    let b = stable_dashboard_uid("akamai_s3", "dashboards/main.json");
    assert_eq!(a, b);
    assert_eq!(a.len(), 40);
    assert!(a.chars().all(|c| c.is_ascii_hexdigit() && !c.is_ascii_uppercase()));
    assert_ne!(a, stable_dashboard_uid("akamai_s3", "dashboards/other.json"));
    assert_eq!(a, sha256::digest("akamai_s3:dashboards/main.json")[..40]);
}

#[test]
fn placeholders_are_qualified_once() {
    let tables = vec![Table { dashboard_var: s("__TABLE__"), name: s("logs"), transforms: vec![] }];
    let summaries = Some(vec![SummaryTable {
        name: s("logs_summary"),
        parent_table_name: s("logs"),
        dashboard_var: s("__SUMMARY__"),
        sql: SummarySqlFile { path: s("s.sql"), sha256: None },
    }]);
    let b = bundle_with(tables, summaries);
    let raw = "__DATASOURCE__|__PROJECT_NAME__.__TABLE__|__TABLE__|__PROJECT_NAME__.__SUMMARY__|__SHARED_PROJECT__|__PROJECT_NAME__";
    let out = substitute_dashboard_placeholders(raw, &b, "akamai_s3", "dashboards/main.json", &config(), "commons");
    assert_eq!(
        out,
        "aelocpydfc9vke|akamai_s3.logs|akamai_s3.logs|akamai_s3.logs_summary|commons|akamai_s3"
    );
    let uid = substitute_dashboard_placeholders("__DASHBOARD_UUID__", &b, "p", "d.json", &config(), "c");
    assert_eq!(uid, stable_dashboard_uid("p", "d.json"));
}

#[test]
fn transform_sql_gets_the_project_names() {
    let t = j(r#"{"name":"t","settings":{"sql_transform":"SELECT * FROM __PROJECT_NAME__.x JOIN __SHARED_PROJECT__.d","other":1}}"#);
    let out = substitute_transform_template_vars(t, "proj", "commons");
    assert_eq!(out, j(r#"{"name":"t","settings":{"sql_transform":"SELECT * FROM proj.x JOIN commons.d","other":1}}"#));
    let untouched = j(r#"{"settings":{"sql_transform":5}}"#);
    assert_eq!(replace_transform_variables(untouched, "p", "c"), j(r#"{"settings":{"sql_transform":5}}"#));
}

#[test]
fn summary_sql_fills_project_then_parent() {
    assert_eq!(summary_sql("FROM __PROJECT_NAME__.__TABLE_NAME__", "p", "logs"), "FROM p.logs");
}

#[test]
fn tables_are_found_by_name_in_any_listing_shape() {
    let listing = j(r#"{"results":[{"name":"a","uuid":"u1"},{"name":"b"},{"name":"b","uuid":"u2"}]}"#);
    assert_eq!(table_uuid_by_name(&listing, "b"), Some(s("u2")));
    assert_eq!(table_uuid_by_name(&j(r#"[{"name":"a","uuid":"u1"}]"#), "a"), Some(s("u1")));
    assert_eq!(table_uuid_by_name(&j(r#"{"data":[{"name":"a","uuid":"u3"}]}"#), "a"), Some(s("u3")));
    assert_eq!(table_uuid_by_name(&listing, "c"), None);
}

#[test]
fn wrapped_dashboards_are_unwrapped_and_lose_their_id() {
    let d = unwrap_dashboard(j(r#"{"dashboard":{"id":7,"title":"T"}}"#));
    assert_eq!(d, j(r#"{"id":7,"title":"T"}"#));
    assert_eq!(remove_member(d, "id"), j(r#"{"title":"T"}"#));
    let two = j(r#"{"dashboard":{"a":1},"meta":{}}"#);
    assert_eq!(unwrap_dashboard(two), j(r#"{"dashboard":{"a":1},"meta":{}}"#));
}

#[test]
fn review_texts() {
    assert_eq!(review_url("https://g", "f1", "p"), "https://g/dashboards/f/f1/p");
    assert_eq!(push_message("b", "p"), "review push: b (p)");
    assert!(retry_summary(5));
    assert!(!retry_summary(6));
    assert_eq!(review_project_name("  Akamai S3 "), Ok(s("akamai_s3")));
    assert!(review_project_name("   ").unwrap_err().starts_with("invalid bundle name '   ': "));
}

#[test]
fn main_dashboard_comes_first() {
    let b = bundle_with(vec![], None);
    assert_eq!(dashboard_paths(&b), vec![s("dashboards/main.json"), s("dashboards/other.json")]);
}

#[test]
fn transform_details_for_the_report() {
    let t = j(r#"{"name":"n","type":"json","settings":{"format_details":{"subtype":"firehose"},"sample_data":{"a":1}}}"#);
    assert_eq!(get_transformation_name(&t), "n");
    assert_eq!(get_transformation_type(&t), "json");
    assert_eq!(get_transformation_subtype(&t), "firehose");
    assert_eq!(get_sample_data_as_json(&t), j(r#"{"a":1}"#));
    assert_eq!(get_sample_data_as_json(&j(r#"{"settings":{"sample_data":{}}}"#)), Json::Null);
    assert_eq!(get_transformation_subtype(&j("{}")), "");
    let o = output_transformation(s("n"), &t);
    assert_eq!((o.name, o.data_type, o.data_sub_type), (s("n"), s("json"), s("firehose")));
}

#[test]
fn local_dashboards_get_table_names() {
    let tables = vec![
        Table { dashboard_var: s("__A__"), name: s("alpha"), transforms: vec![] },
        Table { dashboard_var: s("__B__"), name: s("beta"), transforms: vec![] },
    ];
    let b = bundle_with(tables, None);
    assert_eq!(name_tables("__A__ __B__", &b), "alpha beta");
    assert_eq!(name_summary("x __S__", "__S__", "p", "sum"), "x p.sum");
}

#[test]
fn dashboard_only_text_gets_a_fresh_uuid() {
    let t = dashboard_only_text("__PROJECT_NAME__/__DASHBOARD_UUID__");
    assert!(t.starts_with("JUST GRAFANA/"));
    assert_eq!(t.len(), "JUST GRAFANA/".len() + 36);
}
