use bundle_validator::select::{base_dir_of, bundle_matches_filter, check_remote_selection, exact_match_in_filter};

#[test]
fn empty_filter_matches_every_bundle() {
    assert!(bundle_matches_filter("bot_insights", "", false));
    assert!(bundle_matches_filter("trafficpeak_bot_insights_ds2", "", false));
    assert!(bundle_matches_filter("anything", "", true));
}

#[test]
fn exact_match_wins_when_exact_match_exists() {
    assert!(bundle_matches_filter("bot_insights", "bot_insights", true));
    assert!(!bundle_matches_filter("trafficpeak_bot_insights_ds2", "bot_insights", true));
}

#[test]
fn substring_fallback_when_no_exact_match() {
    assert!(bundle_matches_filter("bot_insights", "bot", false));
    assert!(bundle_matches_filter("trafficpeak_bot_insights_ds2", "bot", false));
    assert!(!bundle_matches_filter("cdn_insights", "bot", false));
}

#[test]
fn full_trafficpeak_filter_targets_only_that_bundle() {
    assert!(bundle_matches_filter("trafficpeak_bot_insights_ds2", "trafficpeak_bot_insights_ds2", true));
    assert!(!bundle_matches_filter("bot_insights", "trafficpeak_bot_insights_ds2", true));
}

#[test]
fn exact_match_is_found_among_names() {
    let names = vec!["bot_insights".to_string(), "trafficpeak_bot_insights_ds2".to_string()];
    assert!(exact_match_in_filter(&names, "bot_insights"));
    assert!(!exact_match_in_filter(&names, "bot"));
    assert!(!exact_match_in_filter(&names, ""));
}

#[test]
fn remote_runs_need_exactly_one_bundle() {
    assert_eq!(
        check_remote_selection(&vec![], "x").unwrap_err(),
        "--remote: no bundles match filter 'x'"
    );
    assert_eq!(
        check_remote_selection(&vec!["a_x".to_string(), "b_x".to_string()], "x").unwrap_err(),
        "--remote: filter 'x' matches multiple bundles (a_x, b_x); narrow the filter"
    );
    assert!(check_remote_selection(&vec!["a_x".to_string()], "x").is_ok());
}

#[test]
fn base_dir_drops_prefix_and_file_name() {
    assert_eq!(base_dir_of("./akamai/bundle.json"), "akamai");
}
