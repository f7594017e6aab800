use bundle_validator::json::{Json, JsonNumber};
use bundle_validator::validate::dashboard_column_usage::{
    base_table_columns, check_dashboard_columns, extract_column_references, extract_template_variables,
};

fn to_json(v: &serde_json::Value) -> Json {
    match v {
        serde_json::Value::Null => Json::Null,
        serde_json::Value::Bool(b) => Json::Bool(*b),
        serde_json::Value::Number(n) => {
            if let Some(u) = n.as_u64() {
                Json::Number(JsonNumber::PosInt(u))
            } else if let Some(i) = n.as_i64() {
                Json::Number(JsonNumber::NegInt(i))
            } else {
                let f = n.as_f64().unwrap_or(0.0);
                Json::Number(JsonNumber::Float { text: n.to_string(), saturated_u64: f as u64 })
            }
        }
        serde_json::Value::String(s) => Json::Str(s.clone()),
        serde_json::Value::Array(a) => Json::Array(a.iter().map(to_json).collect()),
        serde_json::Value::Object(m) => Json::Object(m.iter().map(|(k, v)| (k.clone(), to_json(v))).collect()),
    }
}

fn j(text: &str) -> Json {
    to_json(&serde_json::from_str::<serde_json::Value>(text).unwrap())
}

fn sorted(mut v: Vec<String>) -> Vec<String> {
    v.sort();
    v
}

fn strings(v: &[&str]) -> Vec<String> {
    v.iter().map(|s| s.to_string()).collect()
}

#[test]
fn template_variable_pairs_name_with_following_query() {
    let text = r#"{"templating":{"list":[{"name": "host", "query": "SELECT host FROM logs"}]}}"#;
    assert_eq!(
        extract_template_variables(text),
        vec![("host".to_string(), "SELECT host FROM logs".to_string())]
    );
}

#[test]
fn template_variable_without_near_query_is_left_out() {
    let gap = " ".repeat(600);
    let text = format!(r#"{{"name": "far",{gap}"query": "SELECT a FROM t"}}"#);
    assert!(extract_template_variables(&text).is_empty());
}

#[test]
fn column_references_skip_keywords_aliases_macros_and_settings() {
    let text = r#"{"panels":[{"targets":[{"rawSql": "SELECT status, count() AS hits FROM t WHERE $__timeFilter(ts) SETTINGS max_threads=1"}]}]}"#;
    let cols = extract_column_references(text).unwrap();
    assert_eq!(sorted(cols), strings(&["status", "t", "ts"]));
}

#[test]
fn column_references_resolve_template_variables() {
    let text = r#"{"templating":{"list":[{"name": "pick", "query": "SELECT DISTINCT region FROM logs"}]},
        "panels":[{"targets":[{"rawSql": "SELECT pick FROM t"}]}]}"#;
    let cols = extract_column_references(text).unwrap();
    assert_eq!(sorted(cols), strings(&["logs", "region", "t"]));
}

#[test]
fn column_references_skip_variables_that_use_other_variables() {
    let text = r#"{"templating":{"list":[{"name": "tbl", "query": "${project}.logs"}]},
        "panels":[{"targets":[{"rawSql": "SELECT a FROM tbl"}]}]}"#;
    let cols = extract_column_references(text).unwrap();
    assert_eq!(cols, strings(&["a"]));
}

#[test]
fn base_table_columns_are_output_column_names() {
    let doc = j(r#"{"settings": {"output_columns": [{"name": "timestamp"}, {"datatype": {}}, {"name": "status"}]}}"#);
    assert_eq!(base_table_columns(&doc), strings(&["timestamp", "status"]));
    assert!(base_table_columns(&j(r#"{"settings": {}}"#)).is_empty());
}

#[test]
fn raw_logs_dashboard_needs_base_columns() {
    let r = check_dashboard_columns("Raw Logs.json", &strings(&["status", "ts"]), &strings(&["ts"]), &strings(&["status"]));
    assert_eq!(
        r,
        Err("Dashboard Raw Logs.json queries column 'ts' but it doesn't exist in base table.\n  Available base table columns: [\"status\"]".to_string())
    );
}

#[test]
fn other_dashboards_may_use_summary_or_base_columns() {
    let ok = check_dashboard_columns("Overview.json", &strings(&["status", "count", "hits"]), &strings(&["hits"]), &strings(&["status"]));
    assert_eq!(ok, Ok(()));
    let err = check_dashboard_columns("Overview.json", &strings(&["hits", "bytes"]), &strings(&["hits"]), &strings(&[]));
    assert_eq!(
        err,
        Err("Dashboard Overview.json queries column 'bytes' but it doesn't exist in summary tables.\n  Available summary columns: [\"hits\"]".to_string())
    );
}
