use bundle_validator::hdx::GuidProject;
use bundle_validator::hdx::{
    calculate_backoff, cluster, create_project_name, create_table_name, generate_guid_project_name,
    get_project_name, get_project_uuid, get_shared_project_name, is_insert_retryable, org_uuid,
    parse_count, password, username, HdxEnv,
};

fn env(is_remote: bool, remote: &str) -> HdxEnv {
    HdxEnv {
        is_remote,
        testing_cluster: "test.example".to_string(),
        testing_username: "tu".to_string(),
        testing_password: "tp".to_string(),
        remote_cluster: remote.to_string(),
        remote_org_uuid: remote.to_string(),
        remote_username: remote.to_string(),
        remote_password: remote.to_string(),
    }
}

#[test]
fn unknown_transform_400_is_retryable() {
    let body = r#"{"code":400,"message":"unknown transform 'akamai'"}"#;
    assert!(is_insert_retryable(400, body));
}

#[test]
fn other_400_is_not_retryable() {
    assert!(!is_insert_retryable(400, r#"{"code":400,"message":"bad input"}"#));
    assert!(!is_insert_retryable(404, "not found"));
}

#[test]
fn rate_limit_and_timeout_are_retryable() {
    assert!(is_insert_retryable(408, ""));
    assert!(is_insert_retryable(429, "rate limited"));
}

#[test]
fn server_errors_are_retryable() {
    assert!(is_insert_retryable(500, ""));
    assert!(is_insert_retryable(503, ""));
}

#[test]
fn test_guid_project_name_has_correct_prefix() {
    let name = generate_guid_project_name();
    assert!(name.starts_with("bundle_verification_"), "got: {}", name);
}

#[test]
fn test_guid_project_name_has_correct_length() {
    let name = generate_guid_project_name();
    let suffix = name.strip_prefix("bundle_verification_").unwrap();
    assert_eq!(suffix.len(), 10, "got {}: '{}'", suffix.len(), suffix);
}

#[test]
fn test_guid_project_name_suffix_is_alphanumeric() {
    let name = generate_guid_project_name();
    let suffix = name.strip_prefix("bundle_verification_").unwrap();
    assert!(suffix.chars().all(|c| c.is_ascii_alphanumeric()), "got: {}", suffix);
}

#[test]
fn test_guid_project_names_are_unique() {
    let name1 = generate_guid_project_name();
    let name2 = generate_guid_project_name();
    assert_ne!(name1, name2, "Two generated names should differ");
}

#[test]
fn table_names_have_prefix_and_ten_characters() {
    let name = create_table_name();
    let suffix = name.strip_prefix("testing_").unwrap();
    assert_eq!(suffix.len(), 10);
    assert!(suffix.chars().all(|c| c.is_ascii_hexdigit()));
}

#[test]
fn cluster_settings_follow_the_mode() {
    assert_eq!(cluster(&env(false, "r.example")), "test.example");
    assert_eq!(cluster(&env(true, "r.example")), "r.example");
    assert_eq!(cluster(&env(true, "")), "demo.trafficpeak.live");
    assert_eq!(username(&env(true, "")), "tu");
    assert_eq!(password(&env(true, "rp")), "rp");
    assert_eq!(org_uuid(&env(false, "x")), "x");
    assert_eq!(org_uuid(&env(false, "")), "25a47323-9d41-40f7-b2a2-de3fe500135a");
    assert_eq!(org_uuid(&env(true, "r-org")), "r-org");
    assert_eq!(org_uuid(&env(true, "")), "c1834e11-9716-4971-9a5f-d8c07f4f6b3a");
}

#[test]
fn project_names_and_ids() {
    assert_eq!(create_project_name(), "bundle_verification");
    assert_eq!(get_project_name(&None), "bundle_verification");
    assert_eq!(get_project_name(&Some("p1".to_string())), "p1");
    assert_eq!(get_project_uuid(&None), "3338ec5e-39f5-496d-a36d-d0ae97216ecb");
    assert_eq!(get_shared_project_name(&None), "commons");
    assert_eq!(get_shared_project_name(&Some("shared".to_string())), "shared");
}

#[test]
fn backoff_doubles_up_to_the_cap() {
    assert_eq!(calculate_backoff(1, 500, 10_000), 500);
    assert_eq!(calculate_backoff(3, 500, 10_000), 2_000);
    assert_eq!(calculate_backoff(6, 500, 10_000), 10_000);
}

#[test]
fn count_bodies_are_parsed() {
    assert_eq!(parse_count(" 42\n"), Ok(42));
    assert_eq!(
        parse_count("x1"),
        Err("query_count could not parse 'x1' as u64: invalid digit found in string".to_string())
    );
}

#[test]
fn guid_project_is_set_once() {
    let mut g = GuidProject::new();
    assert_eq!(g.project_name(), "bundle_verification");
    assert_eq!(g.project_uuid(), "3338ec5e-39f5-496d-a36d-d0ae97216ecb");
    assert_eq!(g.set("p1".to_string(), "u1".to_string()), Ok(()));
    assert_eq!(g.set("p2".to_string(), "u2".to_string()), Err("GUID project name already set".to_string()));
    assert_eq!(g.project_name(), "p1");
    assert_eq!(g.project_uuid(), "u1");
}
