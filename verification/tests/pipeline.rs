use bundle_validator::pipeline::{browser_findings, first_stage, next_stage, verdict, Modes, Stage, Verdict};

fn modes(production: bool, dashboard_only: bool, local: bool, strict: bool) -> Modes {
    Modes { production, local_dashboard_only: dashboard_only, local, strict_plugins: strict }
}

fn run_order(m: Modes) -> Vec<Stage> {
    let mut out = vec![first_stage()];
    while let Some(s) = next_stage(*out.last().unwrap(), m) {
        out.push(s);
    }
    out
}

#[test]
fn plain_run_checks_the_bundle_only() {
    let order = run_order(modes(false, false, false, false));
    assert_eq!(order.len(), 16);
    assert_eq!(order[0], Stage::BaseUrl);
    assert_eq!(order[7], Stage::SampleFreshness);
    assert_eq!(order[15], Stage::Dependencies);
}

#[test]
fn local_run_deploys_then_checks_plugins_and_browser() {
    let order = run_order(modes(false, false, true, false));
    assert_eq!(order.len(), 20);
    assert_eq!(&order[16..], &[Stage::LocalDeploy, Stage::Plugins, Stage::Browser, Stage::BrowserFindings]);
}

#[test]
fn production_and_dashboard_only_add_their_steps_in_order() {
    let order = run_order(modes(true, true, false, false));
    assert_eq!(
        &order[16..],
        &[Stage::ProductionAuth, Stage::ProductionResources, Stage::DashboardOnlyDeploy]
    );
}

#[test]
fn the_last_step_has_no_successor() {
    assert_eq!(next_stage(Stage::BrowserFindings, modes(true, true, true, true)), None);
    assert_eq!(next_stage(Stage::Dependencies, modes(false, false, false, false)), None);
}

#[test]
fn failed_checks_stop_the_run_with_their_message() {
    match verdict(Stage::BaseUrl, &Err("bad".to_string()), false) {
        Verdict::Abort(m) => assert_eq!(m, "Found invalid base url: error=bad"),
        _ => panic!("expected abort"),
    }
    match verdict(Stage::Dashboards, &Err("x".to_string()), false) {
        Verdict::Abort(m) => assert_eq!(m, "Found bad dasboard: error=x"),
        _ => panic!("expected abort"),
    }
    match verdict(Stage::LocalDeploy, &Err("y".to_string()), false) {
        Verdict::Abort(m) => assert_eq!(m, "Failed to deploy error=y"),
        _ => panic!("expected abort"),
    }
}

#[test]
fn dependency_problems_only_warn() {
    match verdict(Stage::Dependencies, &Err("missing".to_string()), true) {
        Verdict::Warn(m) => assert_eq!(m, "WARNING: Dependency check failed: missing"),
        _ => panic!("expected warning"),
    }
}

#[test]
fn plugin_problems_fail_only_in_strict_mode() {
    match verdict(Stage::Plugins, &Err("p".to_string()), true) {
        Verdict::Abort(m) => assert_eq!(m, "Plugin validation failed: p"),
        _ => panic!("expected abort"),
    }
    match verdict(Stage::Plugins, &Err("p".to_string()), false) {
        Verdict::Warn(m) => assert_eq!(m, "Plugin check warning: p"),
        _ => panic!("expected warning"),
    }
}

#[test]
fn passed_steps_proceed() {
    assert!(matches!(verdict(Stage::Naming, &Ok(()), false), Verdict::Proceed));
}

#[test]
fn browser_errors_fail_the_run() {
    assert_eq!(browser_findings(0, 0), Ok(()));
    assert_eq!(browser_findings(2, 0), Err("Dashboard Errors=2 NoDataErrors=0".to_string()));
    match verdict(Stage::BrowserFindings, &browser_findings(0, 3), false) {
        Verdict::Abort(m) => assert_eq!(m, "Dashboard Errors=0 NoDataErrors=3"),
        _ => panic!("expected abort"),
    }
}
