use bundle_validator::remote::sanitize::sanitize_project_name;

#[test]
fn passes_through_clean_name() {
    assert_eq!(sanitize_project_name("mcdn_insights").unwrap(), "mcdn_insights");
}

#[test]
fn hyphens_become_underscores() {
    assert_eq!(sanitize_project_name("mcdn-insights").unwrap(), "mcdn_insights");
}

#[test]
fn uppercase_normalized_to_lowercase() {
    assert_eq!(sanitize_project_name("MCDN_Insights").unwrap(), "mcdn_insights");
}

#[test]
fn internal_whitespace_becomes_underscore() {
    assert_eq!(sanitize_project_name("mcdn insights").unwrap(), "mcdn_insights");
}

#[test]
fn leading_and_trailing_whitespace_stripped() {
    assert_eq!(sanitize_project_name("  mcdn_insights  ").unwrap(), "mcdn_insights");
}

#[test]
fn leading_digit_rejected() {
    let err = sanitize_project_name("1mcdn").unwrap_err();
    assert!(
        err.to_lowercase().contains("letter"),
        "error should mention leading-letter requirement, got: {err}"
    );
}

#[test]
fn empty_input_rejected() {
    let err = sanitize_project_name("").unwrap_err();
    assert!(err.to_lowercase().contains("empty"), "error should mention empty, got: {err}");
}

#[test]
fn whitespace_only_input_rejected() {
    let err = sanitize_project_name("   ").unwrap_err();
    assert!(err.to_lowercase().contains("empty"), "error should mention empty, got: {err}");
}

#[test]
fn non_ascii_rejected() {
    let err = sanitize_project_name("mcdn_insîghts").unwrap_err();
    let lower = err.to_lowercase();
    assert!(
        lower.contains("ascii") || lower.contains("invalid character"),
        "error should mention invalid/ascii, got: {err}"
    );
}

#[test]
fn punctuation_rejected() {
    let err = sanitize_project_name("mcdn_insights!").unwrap_err();
    let lower = err.to_lowercase();
    assert!(
        lower.contains("invalid character") || lower.contains("ascii"),
        "error should mention invalid character, got: {err}"
    );
}

#[test]
fn sanitize_messages_are_exact() {
    assert_eq!(sanitize_project_name("").unwrap_err(), "project name is empty");
    assert_eq!(
        sanitize_project_name("ab!c").unwrap_err(),
        "project name has invalid character '!' (must be ASCII letters, digits, or underscores): ab!c"
    );
    assert_eq!(
        sanitize_project_name(" 9x ").unwrap_err(),
        "project name must start with a letter, got '9':  9x "
    );
}

#[test]
fn sanitizing_twice_changes_nothing() {
    let once = sanitize_project_name(" Web-Logs Prod ").unwrap();
    assert_eq!(once, "web_logs_prod");
    assert_eq!(sanitize_project_name(&once).unwrap(), once);
}
