use bundle_validator::grafana::dashboard::slugify_grafana_title;
use bundle_validator::json::{Json, JsonNumber};
use bundle_validator::validate::datasource_uid_consistency::{check_dashboard as check_uids, datasource_uids, is_allowed_uid};
use bundle_validator::validate::files::{check_sample_data_shape, check_transform_json, generate_sha256, check_checksum};
use bundle_validator::validate::raw_logs_timestamp::{check_raw_logs, primary_timestamp_column};
use bundle_validator::validate::summary_column_schema::{
    check_summary_sql, parse_primary_key, parse_select_columns, remove_sql_comments,
};
use bundle_validator::validate::summary_table_references::{check_dashboard as check_refs, referenced_tables};
use bundle_validator::validate::template_variable_consistency::{
    check_variables, found_variables, hardcoded_uid_warnings, is_grafana_variable,
};
use bundle_validator::validate::template_variable_datasource::{
    check_template_variables, find_referenced_variables, needs_datasource, uses_complex_functions,
};

fn to_json(v: &serde_json::Value) -> Json {
    match v {
        serde_json::Value::Null => Json::Null,
        serde_json::Value::Bool(b) => Json::Bool(*b),
        serde_json::Value::Number(n) => {
            if let Some(u) = n.as_u64() {
                Json::Number(JsonNumber::PosInt(u))
            } else if let Some(i) = n.as_i64() {
                Json::Number(JsonNumber::NegInt(i))
            } else {
                let f = n.as_f64().unwrap_or(0.0);
                Json::Number(JsonNumber::Float { text: n.to_string(), saturated_u64: f as u64 })
            }
        }
        serde_json::Value::String(s) => Json::Str(s.clone()),
        serde_json::Value::Array(a) => Json::Array(a.iter().map(to_json).collect()),
        serde_json::Value::Object(m) => Json::Object(m.iter().map(|(k, v)| (k.clone(), to_json(v))).collect()),
    }
}

fn j(text: &str) -> Json {
    to_json(&serde_json::from_str::<serde_json::Value>(text).unwrap())
}

#[test]
fn test_timestamp_detection() {
    let dashboard = r#"
        {
            "rawSql": "SELECT * FROM table WHERE timestamp > now() ORDER BY timestamp DESC"
        }
        "#;
    assert!(dashboard.contains("WHERE timestamp"));
    assert!(dashboard.contains("ORDER BY timestamp"));
    let err = check_raw_logs(dashboard, "reqTimeSec").unwrap_err();
    assert!(err.starts_with("Raw Logs dashboard uses 'timestamp' in WHERE clause, ORDER BY clause but"));
    assert_eq!(check_raw_logs(dashboard, "timestamp"), Ok(true));
}

#[test]
fn test_pattern_matching() {
    let dashboard_content =
        r#"{"query": "SELECT * FROM __PROJECT_NAME__.summary_min WHERE timestamp > now()"}"#;
    let refs = referenced_tables(dashboard_content);
    assert!(refs.contains(&"summary_min".to_string()));
    assert!(!refs.contains(&"nonexistent_table".to_string()));
}

#[test]
fn test_summary_table_name_extraction() {
    let query = "__PROJECT_NAME__.mcdn_summary_min";
    let refs = referenced_tables(query);
    assert_eq!(refs, vec!["mcdn_summary_min".to_string()]);
}

#[test]
fn test_allows_grafana_variables() {
    let grafana_vars = vec![
        "__timeFrom", "__timeTo", "__from", "__to", "__dashboard", "__user", "__interval", "__interval_ms",
    ];
    for var in grafana_vars {
        assert!(is_grafana_variable(var), "Standard Grafana variable {} should be allowed", var);
    }
}

#[test]
fn test_slugify_parity_with_python() {
    let cases = [
        ("Cache Analysis Treemap", "cache-analysis-treemap"),
        ("Raw Logs", "raw-logs"),
        ("CDN Global View", "cdn-global-view"),
        ("CDN Dashboard Default", "cdn-dashboard-default"),
        ("Home", "home"),
        ("Foo  --  Bar", "foo-bar"),
    ];
    for (title, expected) in &cases {
        assert_eq!(slugify_grafana_title(title), *expected, "slug mismatch for '{}'", title);
    }
}

#[test]
fn test_clickhouse_function_detection() {
    assert!(uses_complex_functions("SELECT arrayFilter(x -> x > 0, [1,2,3])"));
    assert!(uses_complex_functions("SELECT toStartOfMinute(timestamp)"));
    assert!(!uses_complex_functions("SELECT name FROM table"));
}

#[test]
fn test_find_referenced_variables() {
    let json = r#"
            {
                "panels": [
                    {
                        "targets": [
                            {
                                "rawSql": "SELECT * FROM ${table} WHERE time > ${__from}"
                            }
                        ]
                    }
                ]
            }
        "#;
    let vars = find_referenced_variables(json);
    assert!(vars.contains(&"table".to_string()));
    assert!(vars.contains(&"__from".to_string()));
}

#[test]
fn test_uid_pattern_matching() {
    let json1 = r#"{"datasource": {"type": "hydrolix", "uid": "__DATASOURCE__"}}"#;
    assert_eq!(datasource_uids(json1), vec!["__DATASOURCE__".to_string()]);
    let json2 = r#"{"datasource": {"type": "hydrolix", "uid": "abc123xyz"}}"#;
    assert_eq!(datasource_uids(json2), vec!["abc123xyz".to_string()]);
}

#[test]
fn test_detects_hardcoded_uid() {
    let dashboard_content = r#"{
            "panels": [
                {
                    "datasource": {
                        "type": "hydrolix-hydrolix-datasource",
                        "uid": "Pz8kLqC4z"
                    },
                    "title": "Test Panel"
                }
            ]
        }"#;
    let err = check_uids("d.json", dashboard_content).unwrap_err();
    assert!(err.contains("'Pz8kLqC4z'"));
}

#[test]
fn test_allows_special_grafana_datasources() {
    let dashboard_content = r#"{
            "panels": [
                {"datasource": {"type": "grafana", "uid": "-- Grafana --"}},
                {"datasource": {"type": "mixed", "uid": "-- Mixed --"}},
                {"datasource": {"type": "dashboard", "uid": "-- Dashboard --"}}
            ]
        }"#;
    for uid in datasource_uids(dashboard_content) {
        assert!(is_allowed_uid(&uid), "Special Grafana datasource UIDs should be allowed");
    }
    assert!(check_uids("d.json", dashboard_content).is_ok());
}

#[test]
fn test_variable_pattern_matching() {
    let json = r#"{"query": "SELECT * FROM __PROJECT_NAME__.table WHERE time > __from"}"#;
    assert!(found_variables(json).contains(&"__PROJECT_NAME__".to_string()));
}

#[test]
fn test_detects_typo_in_variable() {
    let json = r#"{"query": "SELECT * FROM __PROJECTNAME__.table"}"#;
    let vars = found_variables(json);
    assert!(vars.contains(&"__PROJECTNAME__".to_string()));
    assert!(!vars.contains(&"__PROJECT_NAME__".to_string()));
    let expected = vec!["__PROJECT_NAME__".to_string()];
    let err = check_variables("d.json", &vars, &expected).unwrap_err();
    assert!(err.contains("uses unexpected template variable '__PROJECTNAME__'"));
}

#[test]
fn test_project_name_with_uid_suffix() {
    for input in &[
        r#"{"uid": "__PROJECT_NAME___raw"}"#,
        r#"{"uid": "__PROJECT_NAME___default"}"#,
        r#"{"query": "__PROJECT_NAME___raw/raw-logs"}"#,
    ] {
        let vars = found_variables(input);
        assert!(vars.contains(&"__PROJECT_NAME__".to_string()), "in {input}: {vars:?}");
        assert!(!vars.iter().any(|v| v.contains("___")), "in {input}: {vars:?}");
    }
}

#[test]
fn test_sibling_macro_in_expected_set() {
    let content = r#"{"query": "__DASHBOARD_UID_RAW_LOGS__/raw-logs"}"#;
    assert!(found_variables(content).contains(&"__DASHBOARD_UID_RAW_LOGS__".to_string()));
}

#[test]
fn test_uid_slug_pattern_matches_hardcoded_uid() {
    let content = r#""/d/c44c5f0c-badf-4794-94a7-2ca3c6f37ade/raw-logs?var-x=1""#;
    let warnings = hardcoded_uid_warnings(content, "d.json", "home", &vec!["raw-logs".to_string()]);
    assert_eq!(warnings.len(), 1);
    assert!(warnings[0].contains("slug 'raw-logs' (sibling reference)"));
    assert!(warnings[0].contains("Expected macro: '__DASHBOARD_UID_RAW_LOGS__'"));
}

#[test]
fn test_uid_slug_pattern_does_not_match_macro() {
    let content = r#""__DASHBOARD_UID_RAW_LOGS__/raw-logs""#;
    assert!(hardcoded_uid_warnings(content, "d.json", "raw-logs", &vec!["raw-logs".to_string()]).is_empty());
}

#[test]
fn test_parse_primary_key() {
    let sql = "SELECT timestamp FROM table SETTINGS hdx_primary_key = 'timestamp'";
    assert_eq!(parse_primary_key(sql), Some("timestamp".to_string()));
    let sql2 = "SELECT reqTimeSec FROM table SETTINGS hdx_primary_key='reqTimeSec'";
    assert_eq!(parse_primary_key(sql2), Some("reqTimeSec".to_string()));
}

#[test]
fn test_parse_select_with_alias() {
    let sql = "SELECT toStartOfMinute(reqTimeSec) as timestamp_min, count() as cnt FROM table";
    let columns = parse_select_columns(sql).unwrap();
    assert!(columns.contains(&"timestamp_min".to_string()));
    assert!(columns.contains(&"cnt".to_string()));
}

#[test]
fn test_matching_primary_key() {
    let sql = "SELECT toStartOfHour(reqTimeSec) AS reqTimeSec FROM t GROUP BY reqTimeSec SETTINGS hdx_primary_key = 'reqTimeSec'";
    let columns = parse_select_columns(sql).unwrap();
    let pk = parse_primary_key(sql).unwrap();
    assert!(columns.contains(&pk));
    assert!(check_summary_sql("s", sql).is_ok());
}

#[test]
fn summary_sql_with_unknown_primary_key_fails() {
    let sql = "SELECT a, b AS c FROM t -- note\nSETTINGS hdx_primary_key = 'z'";
    let err = check_summary_sql("summary", sql).unwrap_err();
    assert!(err.starts_with("ERROR: Summary table summary has hdx_primary_key='z' but this column is not in the SELECT output.\n  Available columns: a, c\n"));
}

#[test]
fn comments_become_spaces() {
    assert_eq!(remove_sql_comments("a -- x\nb /* y */c /* open"), "a  \nb  c  ");
    assert_eq!(remove_sql_comments("1 - 2 / 3"), "1 - 2 / 3");
}

#[test]
fn template_variable_without_datasource_fails() {
    let doc = j(r#"{"dashboard":{"templating":{"list":[
        {"type":"query","name":"hosts","query":"SELECT arrayMap(x -> x, [1])"},
        {"type":"query","name":"unused","query":"SELECT dictGet('a','b',1)"}]}}}"#);
    let refs = vec!["hosts".to_string()];
    let err = check_template_variables("d.json", &doc, &refs).unwrap_err();
    assert_eq!(
        err,
        "ERROR: Dashboard d.json variable 'hosts' uses complex ClickHouse functions but has no datasource.\n  Query: SELECT arrayMap(x -> x, [1])\n  Add 'datasource': {'type': 'hydrolix-hydrolix-datasource', 'uid': '__DATASOURCE__'} to this variable.\n"
    );
    assert!(!needs_datasource("SELECT $$ arrayMap"));
}

#[test]
fn summary_references_must_exist() {
    let content = r#"{"q":"SELECT * FROM __PROJECT_NAME__.summary_hour, __PROJECT_NAME__.__TABLE__"}"#;
    let names = vec!["summary_min".to_string()];
    let err = check_refs("base/dashboards/Main.json", content, &names).unwrap_err();
    assert!(err.starts_with("ERROR: Dashboard Main.json references '__PROJECT_NAME__.summary_hour'"));
    assert!(err.contains("Available summary tables: [\"summary_min\"]"));
}

#[test]
fn non_empty_object_passes() {
    let doc = j(r#"{"name":"t","settings":{"sample_data":{"a":1}}}"#);
    assert!(check_sample_data_shape("transformations/t.json", &doc).is_ok());
}

#[test]
fn missing_sample_data_passes() {
    let doc = j(r#"{"name":"t","settings":{}}"#);
    assert!(check_sample_data_shape("transformations/t.json", &doc).is_ok());
}

#[test]
fn empty_object_fails() {
    let doc = j(r#"{"name":"t","settings":{"sample_data":{}}}"#);
    let err = check_sample_data_shape("transformations/t.json", &doc).unwrap_err();
    assert!(err.contains("empty object"));
    assert!(err.contains("transformations/t.json"));
}

#[test]
fn scalar_fails() {
    let doc = j(r#"{"name":"t","settings":{"sample_data":"a string"}}"#);
    let err = check_sample_data_shape("transformations/t.json", &doc).unwrap_err();
    assert!(err.contains("a string"));
    assert!(err.contains("single object"));
}

#[test]
fn array_form_fails() {
    let doc = j(r#"{"name":"t","settings":{"sample_data":[{"a":1}]}}"#);
    let err = check_sample_data_shape("transformations/t.json", &doc).unwrap_err();
    assert!(err.contains("JSON array"));
    assert!(err.contains("single object"));
    assert!(err.contains("configure_bundle.py"));
}

#[test]
fn transform_files_need_a_unique_name() {
    let doc = j(r#"{"name":"logs","subtype":"firehose"}"#);
    assert_eq!(check_transform_json("p", &doc, &vec![]), Ok("logs".to_string()));
    assert_eq!(
        check_transform_json("p", &doc, &vec!["logs".to_string()]).unwrap_err(),
        "ERROR: Duplicated transform name 'logs' path=p"
    );
    let bad = j(r#"{"name":"x","subtype":"kafka"}"#);
    assert_eq!(
        check_transform_json("p", &bad, &vec![]).unwrap_err(),
        "ERROR: Transform file has invalid subtype 'kafka', must be 'firehose': path=p"
    );
}

#[test]
fn checksums_are_lower_case_hex_sha256() {
    assert_eq!(generate_sha256("abc"), "ba7816bf8f01cfea414140de5dae2223b00361a396177a9cb410ff61f20015ad");
    assert!(check_checksum("f", "abc", &Some(generate_sha256("abc"))).is_ok());
    assert!(check_checksum("f", "abc", &Some("00".to_string())).is_err());
}

#[test]
fn primary_column_of_transform() {
    let t = j(r#"{"settings":{"output_columns":[{"name":"a","datatype":{"primary":false}},{"name":"ts","datatype":{"primary":true}}]}}"#);
    assert_eq!(primary_timestamp_column(&t), Some("ts".to_string()));
}
