use bundle_validator::grafana::dashboard::{
    apply_sibling_uid_subs, fill_primary_dashboard, own_uuid_from_map, slug_to_macro,
    slugify_grafana_title,
};
use bundle_validator::grafana::plugins::{
    categorize_plugins, extract_plugins_from_dashboard, is_builtin_panel_type, is_builtin_plugin,
    plugin_check_outcome, DashboardPluginUsage, PluginInfo,
};
use bundle_validator::json::Json;

fn s(x: &str) -> String {
    x.to_string()
}

fn obj(members: Vec<(&str, Json)>) -> Json {
    Json::Object(members.into_iter().map(|(k, v)| (k.to_string(), v)).collect())
}

#[test]
fn test_slugify_grafana_title_ascii() {
    assert_eq!(slugify_grafana_title("Raw Logs"), "raw-logs");
    assert_eq!(slugify_grafana_title("CDN Dashboard Default"), "cdn-dashboard-default");
    assert_eq!(slugify_grafana_title("Cache Analysis Treemap"), "cache-analysis-treemap");
    assert_eq!(slugify_grafana_title("CDN Global View"), "cdn-global-view");
    assert_eq!(slugify_grafana_title("Home"), "home");
}

#[test]
fn test_slugify_grafana_title_punctuation() {
    assert_eq!(slugify_grafana_title("Foo  --  Bar"), "foo-bar");
}

#[test]
fn test_slugify_grafana_title_accented() {
    assert_eq!(slugify_grafana_title("Café Bar"), "caf-bar");
}

#[test]
fn test_slug_to_macro() {
    assert_eq!(slug_to_macro("raw-logs"), "__DASHBOARD_UID_RAW_LOGS__");
    assert_eq!(slug_to_macro("cdn-dashboard-default"), "__DASHBOARD_UID_CDN_DASHBOARD_DEFAULT__");
}

#[test]
fn test_apply_sibling_uid_subs() {
    let mut content =
        "uid: __DASHBOARD_UID_RAW_LOGS__ and __DASHBOARD_UID_CDN_DASHBOARD_DEFAULT__".to_string();
    let map = vec![
        (s("raw-logs"), s("uuid-raw")),
        (s("cdn-dashboard-default"), s("uuid-cdn")),
    ];
    apply_sibling_uid_subs(&mut content, &map);
    assert_eq!(content, "uid: uuid-raw and uuid-cdn");
}

#[test]
fn slug_has_no_leading_trailing_or_double_hyphens() {
    let slug = slugify_grafana_title("--Hello,   World!!--");
    assert_eq!(slug, "hello-world");
    assert!(!slug.starts_with('-') && !slug.ends_with('-') && !slug.contains("--"));
}

#[test]
fn own_uuid_comes_from_the_map_or_is_fresh() {
    let doc = obj(vec![("dashboard", obj(vec![("title", Json::Str(s("Raw Logs")))]))]);
    let map = vec![(s("raw-logs"), s("uuid-raw"))];
    assert_eq!(own_uuid_from_map(&doc, &map), "uuid-raw");
    let other = obj(vec![("title", Json::Str(s("Something Else")))]);
    let fresh = own_uuid_from_map(&other, &map);
    assert_eq!(fresh.len(), 36);
    assert_eq!(fresh.matches('-').count(), 4);
}

#[test]
fn primary_template_is_filled_in() {
    let map = vec![(s("raw-logs"), s("uuid-raw"))];
    let out = fill_primary_dashboard(
        "__PROJECT_NAME__.t __DATASOURCE__ __DASHBOARD_UUID__ __DASHBOARD_UID_RAW_LOGS__",
        "own",
        "proj",
        "ds1",
        &map,
    );
    assert_eq!(out, "proj.t ds1 own uuid-raw");
}

#[test]
fn builtin_panels_and_plugins() {
    assert!(is_builtin_panel_type("timeseries"));
    assert!(is_builtin_panel_type("graph-old"));
    assert!(!is_builtin_panel_type("marcusolsson-treemap-panel"));
    assert!(is_builtin_plugin("grafana-clickhouse-datasource"));
    assert!(is_builtin_plugin("grafana-testdata-datasource"));
    assert!(is_builtin_plugin("grafana-builtin-thing"));
    assert!(!is_builtin_plugin("grafana-piechart-panel"));
    assert!(!is_builtin_plugin("hydrolix-datasource"));
}

#[test]
fn plugin_counts_include_nested_rows() {
    let panel = |t: &str| obj(vec![("type", Json::Str(s(t)))]);
    let row = obj(vec![
        ("type", Json::Str(s("row"))),
        ("panels", Json::Array(vec![panel("treemap"), panel("stat"), panel("treemap")])),
    ]);
    let doc = obj(vec![(
        "dashboard",
        obj(vec![("panels", Json::Array(vec![panel("treemap"), row, panel("sankey")]))]),
    )]);
    let mut counts = extract_plugins_from_dashboard(&doc);
    counts.sort();
    assert_eq!(counts, vec![(s("sankey"), 1), (s("treemap"), 3)]);
}

#[test]
fn missing_plugins_fail_only_in_strict_mode() {
    let usage = |id: &str| DashboardPluginUsage {
        dashboard_uid: s("u1"),
        dashboard_title: s("T"),
        plugin_id: s(id),
        plugin_type: s("panel"),
        panel_count: 2,
    };
    let installed = vec![PluginInfo {
        id: s("treemap"),
        name: s("Treemap"),
        plugin_type: s("panel"),
        enabled: true,
        version: None,
    }];
    let (external, missing) = categorize_plugins(&vec![usage("treemap"), usage("sankey"), usage("sankey")], &installed);
    assert_eq!(external, vec![s("treemap")]);
    assert_eq!(missing, vec![s("sankey")]);
    assert!(plugin_check_outcome(&missing, false).is_ok());
    assert_eq!(
        plugin_check_outcome(&missing, true).unwrap_err(),
        "Plugin validation failed: 1 required plugin(s) missing. Please install: sankey"
    );
}
