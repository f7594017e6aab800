use bundle_validator::grafana::dashboard::slugify_grafana_title;
use bundle_validator::remote::sanitize::sanitize_project_name;
use bundle_validator::validate::check_dependencies::function_is_called;
use bundle_validator::validate::summary_column_schema::remove_sql_comments;

#[test]
fn slug_of_a_slug_is_itself() {
    let once = slugify_grafana_title("  CDN -- Overview (Beta) ");
    assert_eq!(once, "cdn-overview-beta");
    assert_eq!(slugify_grafana_title(&once), once);
}

#[test]
fn removing_comments_leaves_no_marker() {
    let sql = "SELECT a -- x\n, b /* y */ FROM t -/* z */- /* open";
    let once = remove_sql_comments(sql);
    assert!(!once.contains("--") && !once.contains("/*"));
    assert_eq!(remove_sql_comments(&once), once);
    assert_eq!(remove_sql_comments("SELECT a FROM t"), "SELECT a FROM t");
}

#[test]
fn sanitized_names_follow_the_character_rule() {
    assert_eq!(sanitize_project_name("  Akamai-S3 Logs "), Ok("akamai_s3_logs".to_string()));
    assert!(sanitize_project_name("9lives").is_err());
    assert!(sanitize_project_name("a.b").is_err());
    assert_eq!(sanitize_project_name("akamai_s3_logs"), Ok("akamai_s3_logs".to_string()));
}

#[test]
fn function_names_are_matched_literally() {
    assert!(function_is_called("SELECT a.b (x)", "a.b"));
    assert!(!function_is_called("SELECT axb(x)", "a.b"));
}
