use bundle_validator::json::{copy_json, Json, JsonNumber};
use bundle_validator::remote::dashboard_rewrite::rewrite_datasource_uid;

fn to_json(v: &serde_json::Value) -> Json {
    match v {
        serde_json::Value::Null => Json::Null,
        serde_json::Value::Bool(b) => Json::Bool(*b),
        serde_json::Value::Number(n) => {
            if let Some(u) = n.as_u64() {
                Json::Number(JsonNumber::PosInt(u))
            } else if let Some(i) = n.as_i64() {
                Json::Number(JsonNumber::NegInt(i))
            } else {
                let f = n.as_f64().unwrap_or(0.0);
                Json::Number(JsonNumber::Float { text: n.to_string(), saturated_u64: f as u64 })
            }
        }
        serde_json::Value::String(s) => Json::Str(s.clone()),
        serde_json::Value::Array(a) => Json::Array(a.iter().map(to_json).collect()),
        serde_json::Value::Object(m) => Json::Object(m.iter().map(|(k, v)| (k.clone(), to_json(v))).collect()),
    }
}

fn load(text: &str) -> Json {
    to_json(&serde_json::from_str::<serde_json::Value>(text).unwrap())
}

fn uid_at<'a>(v: &'a Json, path: &str) -> &'a str {
    v.pointer(path).unwrap().as_str().unwrap().as_str()
}

const SINGLE_PANEL: &str = r#"{"panels":[{"type":"timeseries","datasource":{"type":"hydrolix","uid":"old-uid"}}]}"#;
const TEMPLATE_VARIABLES: &str = r#"{"templating":{"list":[{"name":"host","type":"query","datasource":{"type":"hydrolix","uid":"old-uid"}}]}}"#;
const WITH_INPUTS: &str = r#"{"__inputs":[{"name":"DS","type":"datasource","datasource":{"type":"hydrolix","uid":"old-uid"}}],"panels":[]}"#;
const MIXED_TYPES: &str = r#"{"panels":[
    {"datasource":{"type":"hydrolix","uid":"a"}},
    {"datasource":{"type":"grafana","uid":"-- Grafana --"}},
    {"datasource":{"type":"prometheus","uid":"p1"}}]}"#;
const NESTED_ROWS: &str = r#"{"panels":[
    {"type":"row","panels":[{"datasource":{"type":"hydrolix","uid":"x"}},{"datasource":{"type":"hydrolix","uid":"y"}}]},
    {"type":"stat","datasource":{"type":"hydrolix","uid":"z"}}]}"#;
const WITH_ELEMENTS: &str = r#"{"__elements":{"lib_abc":{"model":{"datasource":{"type":"hydrolix","uid":"m"},
    "targets":[{"datasource":{"type":"hydrolix","uid":"t"}}]}}},"panels":[]}"#;

#[test]
fn rewrites_single_panel_datasource_uid() {
    let mut dashboard = load(SINGLE_PANEL);
    rewrite_datasource_uid(&mut dashboard, "aelocpydfc9vke");
    assert_eq!(uid_at(&dashboard, "/panels/0/datasource/uid"), "aelocpydfc9vke");
}

#[test]
fn rewrites_template_variable_datasource_uid() {
    let mut dashboard = load(TEMPLATE_VARIABLES);
    rewrite_datasource_uid(&mut dashboard, "aelocpydfc9vke");
    assert_eq!(uid_at(&dashboard, "/templating/list/0/datasource/uid"), "aelocpydfc9vke");
}

#[test]
fn rewrites_inputs_block_datasource_uid() {
    let mut dashboard = load(WITH_INPUTS);
    rewrite_datasource_uid(&mut dashboard, "aelocpydfc9vke");
    assert_eq!(uid_at(&dashboard, "/__inputs/0/datasource/uid"), "aelocpydfc9vke");
}

#[test]
fn rewrite_is_idempotent_when_already_target() {
    let mut dashboard = load(MIXED_TYPES);
    rewrite_datasource_uid(&mut dashboard, "aelocpydfc9vke");
    let after_first = copy_json(&dashboard);
    rewrite_datasource_uid(&mut dashboard, "aelocpydfc9vke");
    assert_eq!(dashboard, after_first);
}

#[test]
fn rewrites_all_uids_preserves_types_for_mixed_datasources() {
    let mut dashboard = load(MIXED_TYPES);
    rewrite_datasource_uid(&mut dashboard, "aelocpydfc9vke");
    for i in 0..3 {
        assert_eq!(uid_at(&dashboard, &format!("/panels/{i}/datasource/uid")), "aelocpydfc9vke");
    }
    assert_eq!(uid_at(&dashboard, "/panels/0/datasource/type"), "hydrolix");
    assert_eq!(uid_at(&dashboard, "/panels/1/datasource/type"), "grafana");
    assert_eq!(uid_at(&dashboard, "/panels/2/datasource/type"), "prometheus");
}

#[test]
fn rewrites_panels_nested_in_row() {
    let mut dashboard = load(NESTED_ROWS);
    rewrite_datasource_uid(&mut dashboard, "aelocpydfc9vke");
    assert_eq!(uid_at(&dashboard, "/panels/0/panels/0/datasource/uid"), "aelocpydfc9vke");
    assert_eq!(uid_at(&dashboard, "/panels/0/panels/1/datasource/uid"), "aelocpydfc9vke");
    assert_eq!(uid_at(&dashboard, "/panels/1/datasource/uid"), "aelocpydfc9vke");
}

#[test]
fn rewrites_elements_block_datasource_uid() {
    let mut dashboard = load(WITH_ELEMENTS);
    rewrite_datasource_uid(&mut dashboard, "aelocpydfc9vke");
    assert_eq!(uid_at(&dashboard, "/__elements/lib_abc/model/datasource/uid"), "aelocpydfc9vke");
    assert_eq!(uid_at(&dashboard, "/__elements/lib_abc/model/targets/0/datasource/uid"), "aelocpydfc9vke");
}

#[test]
fn datasource_without_uid_is_left_alone() {
    let mut dashboard = load(r#"{"panels":[{"datasource":{"type":"hydrolix"}},{"datasource":"plain"}]}"#);
    let before = copy_json(&dashboard);
    rewrite_datasource_uid(&mut dashboard, "aelocpydfc9vke");
    assert_eq!(dashboard, before);
}
