use bundle_validator::models::bundle::{Bundle, Dashboard, Graphics, Metadata, SummarySqlFile, SummaryTable, Table, Transform, Ui};
use bundle_validator::validate::{no_duplicate_tokens, no_global_duplicates, summary_table, valid_base_url, naming_is_valid};

fn s(x: &str) -> String {
    x.to_string()
}

fn bundle(name: &str, url: &str, title: &str) -> Bundle {
    Bundle {
        name: s(name),
        source: s("akamai"),
        method: s("s3"),
        method_overrides: None,
        solution: false,
        beta: false,
        base_url: s(url),
        dashboard: Dashboard { path: s("dashboards/a.json"), project_var: s("__PROJECT_NAME__"), sha256: None },
        other_dashboards: None,
        tables: vec![Table { dashboard_var: s("__TABLE__"), name: s("logs"), transforms: vec![] }],
        summary_tables: None,
        ui: Ui {
            primary_url: s("https://example.com"),
            method: Graphics { full_title: s("Amazon S3"), icon_url: s("https://example.com/i.png") },
            source: Graphics { full_title: s(title), icon_url: s("https://example.com/i.png") },
            data_category: s("cdn"),
            folder: None,
            subfolder: None,
        },
        metadata: Metadata { version: s("1.0.0"), maintainer: s("a@b.c"), description: s("d"), channel_type: s("AWS") },
        dependencies: None,
        alert_rules: None,
    }
}

#[test]
fn duplicated_names_with_the_same_url_fail() {
    let bs = vec![bundle("akamai_s3", "u1", "A"), bundle("akamai_s3", "u1", "A")];
    assert_eq!(no_global_duplicates::run(&bs).unwrap_err(), "ERROR: Duplicated-Bundle-Name url=u1 error=akamai_s3");
}

#[test]
fn versions_of_one_bundle_may_share_a_name() {
    let bs = vec![bundle("akamai_s3", "u1", "A"), bundle("akamai_s3", "u2", "A")];
    assert!(no_global_duplicates::run(&bs).is_ok());
}

#[test]
fn source_titles_belong_to_one_bundle() {
    let bs = vec![bundle("akamai_s3", "u1", "A"), bundle("other_s3", "u2", "A")];
    assert_eq!(no_global_duplicates::run(&bs).unwrap_err(), "ERROR: Duplicated-UI-Source-Name url=u2 error=A");
}

#[test]
fn summary_tables_need_known_parents_and_distinct_vars() {
    let mut b = bundle("akamai_s3", "u1", "A");
    let st = |name: &str, parent: &str, var: &str| SummaryTable {
        name: s(name),
        parent_table_name: s(parent),
        dashboard_var: s(var),
        sql: SummarySqlFile { path: s("summary/x.sql"), sha256: None },
    };
    b.summary_tables = Some(vec![st("m", "logs", "__M__"), st("h", "logs", "__M__")]);
    assert_eq!(
        summary_table::run(&b).unwrap_err(),
        "ERROR: Duplicated-Summary-Dashboard-Var bundle=akamai_s3 summary_table=h dashboard_var=__M__ url=u1"
    );
    b.summary_tables = Some(vec![st("m", "nope", "__M__")]);
    assert_eq!(
        summary_table::run(&b).unwrap_err(),
        "ERROR: Invalid-Parent-Table-Reference bundle=akamai_s3 summary_table=m parent_table_name=nope url=u1"
    );
    b.summary_tables = Some(vec![st("m", "logs", "__M__")]);
    assert!(summary_table::run(&b).is_ok());
}

#[test]
fn base_url_names_the_bundle_directory() {
    let b = bundle("akamai_s3", "https://github.com/hydrolix/integration-deployment-templates/blob/main/akamai", "A");
    assert!(valid_base_url::run("akamai", &b).is_ok());
    assert_eq!(
        valid_base_url::run("other", &b).unwrap_err(),
        "ERROR: Invalid akamai_s3 base_url should be this: 'https://github.com/hydrolix/integration-deployment-templates/blob/main/other'"
    );
}

#[test]
fn table_names_are_checked() {
    let mut b = bundle("akamai_s3", "u", "A");
    assert!(no_duplicate_tokens::run(&b).is_ok());
    b.tables.push(Table { dashboard_var: s("__T2__"), name: s("1abc"), transforms: vec![] });
    assert_eq!(no_duplicate_tokens::run(&b).unwrap_err(), "ERROR: Invalid table name '1abc' - must start with a letter");
    b.tables[1].name = s("logs");
    assert_eq!(no_duplicate_tokens::run(&b).unwrap_err(), "ERROR: Duplicate table name logs");
}

#[test]
fn truncated_table_name_is_reported_with_the_whole_entry() {
    let mut b = bundle("akamai_s3", "u", "A");
    b.tables.push(Table {
        dashboard_var: s("__T2__"),
        name: s("ab"),
        transforms: vec![Transform { path: s("t/x.json"), sha256: Some(s("f\"0")), sample: None, method: None }],
    });
    assert_eq!(
        no_duplicate_tokens::run(&b).unwrap_err(),
        r#"ERROR: Missing or truncated table name 'Table { dashboard_var: "__T2__", name: "ab", transforms: [Transform { path: "t/x.json", sha256: Some("f\"0"), sample: None, method: None }] }'"#
    );
}

#[test]
fn naming_rules_hold() {
    let b = bundle("akamai_s3", "u", "A");
    assert!(naming_is_valid::run(&b).is_ok());
    let mut b2 = bundle("akamai_s3", "u", "A");
    b2.metadata.version = s("1.0");
    assert!(naming_is_valid::run(&b2).unwrap_err().contains("semantic versioning"));
}
