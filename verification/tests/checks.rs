use bundle_validator::json::{Json, JsonNumber};
use bundle_validator::models::bundle::{
    Bundle, Dashboard, Dependencies, Graphics, HydrolixDependencies, Metadata, SummaryTable, Table, Ui,
};
use bundle_validator::validate::alert_rules_are_valid::{check_alert_rules, get_total_rules, AlertGroup, AlertRule, AlertRulesFile};
use bundle_validator::validate::bundle_name_history::{git_path, previous_commit, rename_warning};
use bundle_validator::validate::check_dependencies::{
    declared_dictionaries, declared_functions, dictionaries_used, function_is_called, record_function_calls,
    transform_warnings, unused_declarations,
};

fn to_json(v: &serde_json::Value) -> Json {
    match v {
        serde_json::Value::Null => Json::Null,
        serde_json::Value::Bool(b) => Json::Bool(*b),
        serde_json::Value::Number(n) => {
            if let Some(u) = n.as_u64() {
                Json::Number(JsonNumber::PosInt(u))
            } else if let Some(i) = n.as_i64() {
                Json::Number(JsonNumber::NegInt(i))
            } else {
                let f = n.as_f64().unwrap_or(0.0);
                Json::Number(JsonNumber::Float { text: n.to_string(), saturated_u64: f as u64 })
            }
        }
        serde_json::Value::String(s) => Json::Str(s.clone()),
        serde_json::Value::Array(a) => Json::Array(a.iter().map(to_json).collect()),
        serde_json::Value::Object(m) => Json::Object(m.iter().map(|(k, v)| (k.clone(), to_json(v))).collect()),
    }
}

fn j(text: &str) -> Json {
    to_json(&serde_json::from_str::<serde_json::Value>(text).unwrap())
}
fn s(x: &str) -> String {
    x.to_string()
}

fn bundle_with(tables: Vec<Table>, summaries: Option<Vec<SummaryTable>>) -> Bundle {
    Bundle {
        name: s("akamai_s3"),
        source: s("akamai"),
        method: s("s3"),
        method_overrides: None,
        solution: false,
        beta: false,
        base_url: s("u"),
        dashboard: Dashboard { path: s("dashboards/main.json"), project_var: s("__PROJECT_NAME__"), sha256: None },
        other_dashboards: Some(vec![Dashboard { path: s("dashboards/other.json"), project_var: s("__PROJECT_NAME__"), sha256: None }]),
        tables,
        summary_tables: summaries,
        ui: Ui {
            primary_url: s("https://example.com"),
            method: Graphics { full_title: s("Amazon S3"), icon_url: s("https://example.com/i.png") },
            source: Graphics { full_title: s("Akamai"), icon_url: s("https://example.com/i.png") },
            data_category: s("cdn"),
            folder: None,
            subfolder: None,
        },
        metadata: Metadata { version: s("1.0.0"), maintainer: s("a@b.c"), description: s("d"), channel_type: s("AWS") },
        dependencies: None,
        alert_rules: None,
    }
}

fn with_deps(functions: Vec<&str>, dictionaries: Vec<&str>) -> Bundle {
    let mut b = bundle_with(vec![], None);
    b.dependencies = Some(Dependencies {
        grafana: None,
        hydrolix: Some(HydrolixDependencies {
            cluster_version: None,
            required_dictionaries: Some(dictionaries.into_iter().map(s).collect()),
            required_functions: Some(functions.into_iter().map(s).collect()),
            shared_dictionaries: None,
            shared_functions: None,
        }),
        data_sources: None,
    });
    b
}

#[test]
fn declarations_are_listed_once_in_order() {
    let b = with_deps(vec!["f", "g", "f"], vec!["d"]);
    assert_eq!(declared_functions(&b), vec![s("f"), s("g")]);
    assert_eq!(declared_dictionaries(&b), vec![s("d")]);
    assert!(declared_functions(&bundle_with(vec![], None)).is_empty());
}

#[test]
fn function_calls_are_found_at_word_boundaries() {
    assert!(function_is_called("SELECT parse_ua (x)", "parse_ua"));
    assert!(!function_is_called("SELECT my_parse_ua(x)", "parse_ua"));
    assert!(!function_is_called("SELECT parse_ua", "parse_ua"));
    assert!(function_is_called("SELECT a.b(1)", "a.b"));
}

#[test]
fn dictionary_lookups_are_found() {
    let sql = "SELECT dictGet('geo', 'c', ip), dictGetString(\"asn\", 'n', ip), dictGetOrDefault('geo','x',1,2)";
    assert_eq!(dictionaries_used(sql), vec![s("geo"), s("asn"), s("geo")]);
}

#[test]
fn undeclared_dictionaries_warn_per_lookup() {
    let used = vec![s("geo"), s("asn"), s("geo")];
    let w = transform_warnings("t.json", &used, &vec![s("geo")]);
    assert_eq!(w, vec![s("  ⚠️  WARNING: Transform t.json uses dictionary 'asn' but it's not declared in dependencies.hydrolix.required_dictionaries")]);
}

#[test]
fn unused_declarations_are_noted() {
    let notes = unused_declarations("Function", &vec![s("f"), s("g")], &vec![s("g")]);
    assert_eq!(notes, vec![s("  ⚠️  INFO: Function 'f' is declared but not used in any transforms")]);
}

#[test]
fn calls_are_recorded_once() {
    let mut used = vec![s("g")];
    record_function_calls(&mut used, "SELECT f(1), g(2), f(3)", &vec![s("f"), s("g"), s("h")]);
    assert_eq!(used, vec![s("g"), s("f")]);
}

fn rule(uid: &str, title: &str, condition: &str) -> AlertRule {
    AlertRule { uid: s(uid), title: s(title), condition: s(condition), data: vec![] }
}

fn group(name: &str, folder: &str, interval: &str, rules: Vec<AlertRule>) -> AlertGroup {
    AlertGroup { org_id: Some(1), name: s(name), folder: s(folder), interval: s(interval), rules }
}

#[test]
fn alert_rules_structure() {
    let good = AlertRulesFile { api_version: Some(1), groups: vec![group("g", "f", "1m", vec![rule("u", "t", "C")])] };
    assert_eq!(check_alert_rules(&good), Ok(()));
    assert_eq!(get_total_rules(&good), 1);
    let no_version = AlertRulesFile { api_version: None, groups: vec![] };
    assert_eq!(check_alert_rules(&no_version), Err(s("alert_rules.apiVersion is required")));
    let no_groups = AlertRulesFile { api_version: Some(1), groups: vec![] };
    assert_eq!(check_alert_rules(&no_groups), Err(s("alert_rules.groups must contain at least one group")));
    let bad_group = AlertRulesFile {
        api_version: Some(1),
        groups: vec![group("g", "f", "1m", vec![rule("u", "t", "C")]), group("h", "", "1m", vec![])],
    };
    assert_eq!(check_alert_rules(&bad_group), Err(s("Group 1 (h): folder is required")));
    let unnamed = AlertRulesFile { api_version: Some(1), groups: vec![group("", "f", "1m", vec![])] };
    assert_eq!(check_alert_rules(&unnamed), Err(s("Group 0: name is required")));
    let bad_rule = AlertRulesFile {
        api_version: Some(1),
        groups: vec![group("g", "f", "1m", vec![rule("u", "t", "C"), rule("u2", "", "C")])],
    };
    assert_eq!(check_alert_rules(&bad_rule), Err(s("Group g, Rule 1: title is required")));
    let empty = AlertRulesFile { api_version: Some(1), groups: vec![group("g", "f", "1m", vec![])] };
    assert_eq!(check_alert_rules(&empty), Err(s("Group 0 (g): rules must contain at least one rule")));
}

#[test]
fn renames_are_noticed() {
    assert_eq!(git_path(""), "bundle.json");
    assert_eq!(git_path("bundles/a"), "bundles/a/bundle.json");
    assert_eq!(previous_commit("abc\ndef\n"), Some(s("def")));
    assert_eq!(previous_commit("abc\n"), None);
    assert_eq!(previous_commit(""), None);
    assert_eq!(
        rename_warning(&j(r#"{"name":"old"}"#), "new"),
        Some(s("bundle.json name was changed from 'old' to 'new' in the latest commit. Renaming a bundle can break existing customer deployments."))
    );
    assert_eq!(rename_warning(&j(r#"{"name":"same"}"#), "same"), None);
    assert_eq!(rename_warning(&j(r#"{}"#), "x"), None);
}
