use bundle_validator::flags::Flags;

fn args(slice: &[&str]) -> Vec<String> {
    std::iter::once("bundle-validator").chain(slice.iter().copied()).map(String::from).collect()
}

fn parse(slice: &[&str]) -> Result<Flags, String> {
    Flags::parse(&args(slice), "")
}

#[test]
fn test_guid_requires_local() {
    let result = parse(&["--guid"]);
    assert!(result.is_err(), "--guid without --local should fail");
    let err = result.err().unwrap();
    assert!(err.contains("--local"), "Error should mention --local, got: {}", err);
}

#[test]
fn test_guid_with_local_succeeds() {
    let flags = parse(&["--local", "--guid"]).ok().unwrap();
    assert!(flags.use_guid);
    assert!(flags.is_local);
}

#[test]
fn test_cleanup_captures_project_name() {
    let flags = parse(&["--cleanup", "bundle_verification_abc123"]).ok().unwrap();
    assert_eq!(flags.cleanup_project, Some("bundle_verification_abc123".to_string()));
}

#[test]
fn test_cleanup_without_name_fails() {
    assert!(parse(&["--cleanup"]).is_err(), "--cleanup without project name should fail");
}

#[test]
fn test_cleanup_rejects_flag_as_name() {
    assert!(parse(&["--cleanup", "--local"]).is_err(), "--cleanup followed by another flag should fail");
}

#[test]
fn test_delay_requires_local_or_remote() {
    let result = parse(&["--delay"]);
    assert!(result.is_err(), "--delay without --local/--remote should fail");
    let err = result.err().unwrap();
    assert!(err.contains("--local") || err.contains("--remote"), "got: {}", err);
}

#[test]
fn test_delay_with_local_succeeds() {
    let flags = parse(&["--local", "--delay"]).ok().unwrap();
    assert!(flags.delay_mode);
    assert!(flags.is_local);
}

#[test]
fn test_delay_with_remote_succeeds() {
    let flags = parse(&["--remote", "--delay", "mcdn"]).ok().unwrap();
    assert!(flags.delay_mode);
    assert!(flags.is_remote);
}

#[test]
fn test_default_flags() {
    let flags = parse(&[]).ok().unwrap();
    assert!(!flags.use_guid);
    assert!(!flags.delay_mode);
    assert!(!flags.is_local);
    assert!(!flags.is_remote);
    assert!(flags.cleanup_project.is_none());
    assert!(flags.match_only.is_empty());
}

#[test]
fn test_remote_with_filter_succeeds() {
    let flags = parse(&["--remote", "mcdn_insights"]).ok().unwrap();
    assert!(flags.is_remote);
    assert_eq!(flags.match_only, "mcdn_insights");
}

#[test]
fn test_remote_without_filter_fails() {
    let result = parse(&["--remote"]);
    assert!(result.is_err(), "--remote without filter should fail");
    let err = result.err().unwrap();
    assert!(err.contains("filter") || err.contains("bundle"), "got: {}", err);
}

#[test]
fn test_remote_rejects_local() {
    let result = parse(&["--remote", "--local", "x"]);
    assert!(result.is_err());
    assert!(result.err().unwrap().contains("--local"));
}

#[test]
fn test_remote_rejects_local_dashboard_only() {
    let result = parse(&["--remote", "--local-dashboard-only", "x"]);
    assert!(result.is_err());
    assert!(result.err().unwrap().contains("--local-dashboard-only"));
}

#[test]
fn test_remote_rejects_guid() {
    let result = parse(&["--remote", "--local", "--guid", "x"]);
    assert!(result.is_err());
}

#[test]
fn test_remote_rejects_cleanup() {
    let result = parse(&["--remote", "--cleanup", "some_proj"]);
    assert!(result.is_err());
    assert!(result.err().unwrap().contains("--cleanup"));
}

#[test]
fn test_match_only_captures_positional_arg() {
    let flags = parse(&["--local", "trafficpeak"]).ok().unwrap();
    assert_eq!(flags.match_only, "trafficpeak");
}

#[test]
fn test_cleanup_skips_positional_arg() {
    let flags = parse(&["--cleanup", "bundle_verification_abc123"]).ok().unwrap();
    assert!(flags.match_only.is_empty(), "cleanup arg should not be treated as match_only");
}

#[test]
fn strict_plugins_from_the_environment() {
    let flags = Flags::parse(&args(&[]), "true").ok().unwrap();
    assert!(flags.strict_plugins);
    let flags = Flags::parse(&args(&[]), "yes").ok().unwrap();
    assert!(!flags.strict_plugins);
}

#[test]
fn only_the_first_positional_argument_filters() {
    let flags = parse(&["first", "second", "--unknown"]).ok().unwrap();
    assert_eq!(flags.match_only, "first");
}
