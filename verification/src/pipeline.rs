//! The order of a bundle's validation and what each step's outcome means.
//!
//! Every step does outside work (reading files, talking to a cluster or to
//! Grafana); the caller performs it and hands the outcome back. This module
//! decides which step comes next and whether an outcome stops the run.
use vstd::prelude::*;
use crate::text::{concat, u64_to_string, append, decimal};

verus! {

broadcast use vstd::string::group_string_axioms;

/// One step of a bundle's validation.
#[derive(Clone, Copy, PartialEq, Eq, Structural, Debug)]
pub enum Stage {
    BaseUrl,
    DuplicateTokens,
    Naming,
    Checksums,
    Transforms,
    Dashboards,
    SampleData,
    SampleFreshness,
    SummaryTable,
    AlertRules,
    DatasourceUids,
    SummaryColumns,
    SummaryReferences,
    TemplateVariables,
    TemplateDatasources,
    Dependencies,
    ProductionAuth,
    ProductionResources,
    DashboardOnlyDeploy,
    LocalDeploy,
    Plugins,
    Browser,
    BrowserFindings,
}

/// The switches that add steps to a run.
#[derive(Clone, Copy)]
pub struct Modes {
    pub production: bool,
    pub local_dashboard_only: bool,
    pub local: bool,
    pub strict_plugins: bool,
}

/// What a step's outcome means for the run.
pub enum Verdict {
    Proceed,
    Warn(String),
    Abort(String),
}

/// The number of steps.
pub open spec fn stage_count() -> int {
    23
}

/// The position of a step in the run.
pub open spec fn stage_index(s: Stage) -> int {
    match s {
        Stage::BaseUrl => 0,
        Stage::DuplicateTokens => 1,
        Stage::Naming => 2,
        Stage::Checksums => 3,
        Stage::Transforms => 4,
        Stage::Dashboards => 5,
        Stage::SampleData => 6,
        Stage::SampleFreshness => 7,
        Stage::SummaryTable => 8,
        Stage::AlertRules => 9,
        Stage::DatasourceUids => 10,
        Stage::SummaryColumns => 11,
        Stage::SummaryReferences => 12,
        Stage::TemplateVariables => 13,
        Stage::TemplateDatasources => 14,
        Stage::Dependencies => 15,
        Stage::ProductionAuth => 16,
        Stage::ProductionResources => 17,
        Stage::DashboardOnlyDeploy => 18,
        Stage::LocalDeploy => 19,
        Stage::Plugins => 20,
        Stage::Browser => 21,
        Stage::BrowserFindings => 22,
    }
}

/// The step at a position of the run.
pub open spec fn stage_at(i: int) -> Stage
    recommends
        0 <= i < stage_count(),
{
    if i <= 0 {
        Stage::BaseUrl
    } else if i == 1 {
        Stage::DuplicateTokens
    } else if i == 2 {
        Stage::Naming
    } else if i == 3 {
        Stage::Checksums
    } else if i == 4 {
        Stage::Transforms
    } else if i == 5 {
        Stage::Dashboards
    } else if i == 6 {
        Stage::SampleData
    } else if i == 7 {
        Stage::SampleFreshness
    } else if i == 8 {
        Stage::SummaryTable
    } else if i == 9 {
        Stage::AlertRules
    } else if i == 10 {
        Stage::DatasourceUids
    } else if i == 11 {
        Stage::SummaryColumns
    } else if i == 12 {
        Stage::SummaryReferences
    } else if i == 13 {
        Stage::TemplateVariables
    } else if i == 14 {
        Stage::TemplateDatasources
    } else if i == 15 {
        Stage::Dependencies
    } else if i == 16 {
        Stage::ProductionAuth
    } else if i == 17 {
        Stage::ProductionResources
    } else if i == 18 {
        Stage::DashboardOnlyDeploy
    } else if i == 19 {
        Stage::LocalDeploy
    } else if i == 20 {
        Stage::Plugins
    } else if i == 21 {
        Stage::Browser
    } else {
        Stage::BrowserFindings
    }
}

/// Whether a step belongs to a run with these switches.
pub open spec fn enabled(s: Stage, m: Modes) -> bool {
    match s {
        Stage::ProductionAuth | Stage::ProductionResources => m.production,
        Stage::DashboardOnlyDeploy => m.local_dashboard_only,
        Stage::LocalDeploy | Stage::Plugins | Stage::Browser | Stage::BrowserFindings => m.local,
        _ => true,
    }
}

/// The first step at position `i` or later that belongs to the run.
pub open spec fn next_enabled(i: int, m: Modes) -> Option<Stage>
    decreases stage_count() - i,
{
    if i < 0 || i >= stage_count() {
        None
    } else if enabled(stage_at(i), m) {
        Some(stage_at(i))
    } else {
        next_enabled(i + 1, m)
    }
}

fn stage_at_exec(i: usize) -> (s: Stage)
    requires
        i < 23,
    ensures
        s == stage_at(i as int),
{
    if i == 0 {
        Stage::BaseUrl
    } else if i == 1 {
        Stage::DuplicateTokens
    } else if i == 2 {
        Stage::Naming
    } else if i == 3 {
        Stage::Checksums
    } else if i == 4 {
        Stage::Transforms
    } else if i == 5 {
        Stage::Dashboards
    } else if i == 6 {
        Stage::SampleData
    } else if i == 7 {
        Stage::SampleFreshness
    } else if i == 8 {
        Stage::SummaryTable
    } else if i == 9 {
        Stage::AlertRules
    } else if i == 10 {
        Stage::DatasourceUids
    } else if i == 11 {
        Stage::SummaryColumns
    } else if i == 12 {
        Stage::SummaryReferences
    } else if i == 13 {
        Stage::TemplateVariables
    } else if i == 14 {
        Stage::TemplateDatasources
    } else if i == 15 {
        Stage::Dependencies
    } else if i == 16 {
        Stage::ProductionAuth
    } else if i == 17 {
        Stage::ProductionResources
    } else if i == 18 {
        Stage::DashboardOnlyDeploy
    } else if i == 19 {
        Stage::LocalDeploy
    } else if i == 20 {
        Stage::Plugins
    } else if i == 21 {
        Stage::Browser
    } else {
        Stage::BrowserFindings
    }
}

fn stage_index_exec(s: Stage) -> (i: usize)
    ensures
        i as int == stage_index(s),
{
    match s {
        Stage::BaseUrl => 0,
        Stage::DuplicateTokens => 1,
        Stage::Naming => 2,
        Stage::Checksums => 3,
        Stage::Transforms => 4,
        Stage::Dashboards => 5,
        Stage::SampleData => 6,
        Stage::SampleFreshness => 7,
        Stage::SummaryTable => 8,
        Stage::AlertRules => 9,
        Stage::DatasourceUids => 10,
        Stage::SummaryColumns => 11,
        Stage::SummaryReferences => 12,
        Stage::TemplateVariables => 13,
        Stage::TemplateDatasources => 14,
        Stage::Dependencies => 15,
        Stage::ProductionAuth => 16,
        Stage::ProductionResources => 17,
        Stage::DashboardOnlyDeploy => 18,
        Stage::LocalDeploy => 19,
        Stage::Plugins => 20,
        Stage::Browser => 21,
        Stage::BrowserFindings => 22,
    }
}

/// Whether a step belongs to a run with these switches.
pub fn is_enabled(s: Stage, m: Modes) -> (b: bool)
    ensures
        b == enabled(s, m),
{
    match s {
        Stage::ProductionAuth | Stage::ProductionResources => m.production,
        Stage::DashboardOnlyDeploy => m.local_dashboard_only,
        Stage::LocalDeploy | Stage::Plugins | Stage::Browser | Stage::BrowserFindings => m.local,
        _ => true,
    }
}

/// The step a run starts with.
pub fn first_stage() -> (s: Stage)
    ensures
        stage_index(s) == 0,
        forall|m: Modes| next_enabled(0, m) == Some(s),
{
    Stage::BaseUrl
}

/// The step that follows `s` in a run with switches `m`, or `None` when the
/// run is over.
pub fn next_stage(s: Stage, m: Modes) -> (r: Option<Stage>)
    ensures
        r == next_enabled(stage_index(s) + 1, m),
{
    let mut i: usize = stage_index_exec(s) + 1;
    while i < 23
        invariant
            1 <= i <= 23,
            next_enabled(stage_index(s) + 1, m) == next_enabled(i as int, m),
        decreases 23 - i,
    {
        let t = stage_at_exec(i);
        if is_enabled(t, m) {
            return Some(t);
        }
        i = i + 1;
    }
    None
}

/// Whether a failed step stops the run.
pub open spec fn is_fatal(s: Stage, strict_plugins: bool) -> bool {
    match s {
        Stage::SampleFreshness | Stage::Dependencies => false,
        Stage::Plugins => strict_plugins,
        _ => true,
    }
}

/// The text put before a failed step's error.
pub open spec fn failure_prefix(s: Stage, strict_plugins: bool) -> Seq<char> {
    match s {
        Stage::BaseUrl => "Found invalid base url: error="@,
        Stage::DuplicateTokens => "Found duplicate tokens: error="@,
        Stage::Naming => "Found bad naming: error="@,
        Stage::Checksums => "Found bad checksum: error="@,
        Stage::Transforms => "Found bad transform: error="@,
        Stage::Dashboards => "Found bad dasboard: error="@,
        Stage::SampleData => "No sample data: error="@,
        Stage::SampleFreshness => "WARNING: "@,
        Stage::SummaryTable => "Bad summary table: error="@,
        Stage::AlertRules => "Alert rules validation failed: error="@,
        Stage::DatasourceUids => "Datasource UID consistency failed: error="@,
        Stage::SummaryColumns => "Summary column schema validation failed: error="@,
        Stage::SummaryReferences => "Summary table references validation failed: error="@,
        Stage::TemplateVariables => "Template variable consistency failed: error="@,
        Stage::TemplateDatasources => "Template variable datasource validation failed: error="@,
        Stage::Dependencies => "WARNING: Dependency check failed: "@,
        Stage::ProductionAuth => "Production auth failed: "@,
        Stage::ProductionResources => "Production dependency check failed: "@,
        Stage::DashboardOnlyDeploy => "Failed to deploy dashboard error="@,
        Stage::LocalDeploy => "Failed to deploy error="@,
        Stage::Plugins => if strict_plugins {
            "Plugin validation failed: "@
        } else {
            "Plugin check warning: "@
        },
        Stage::Browser => "Failed to run headless browser error="@,
        Stage::BrowserFindings => Seq::empty(),
    }
}

/// What the outcome of step `s` means: a passed step lets the run go on; a
/// failed one stops it with its error behind the step's text, or, for a step
/// that only warns, gives that text as a warning.
pub fn verdict(s: Stage, outcome: &Result<(), String>, strict_plugins: bool) -> (v: Verdict)
    ensures
        match outcome {
            Ok(()) => v is Proceed,
            Err(e) => match v {
                Verdict::Proceed => false,
                Verdict::Warn(w) => !is_fatal(s, strict_plugins) && w@ == failure_prefix(s, strict_plugins) + e@,
                Verdict::Abort(a) => is_fatal(s, strict_plugins) && a@ == failure_prefix(s, strict_plugins) + e@,
            },
        },
{
    let e = match outcome {
        Ok(()) => {
            return Verdict::Proceed;
        },
        Err(e) => e.as_str(),
    };
    let message = match s {
        Stage::BaseUrl => concat("Found invalid base url: error=", e),
        Stage::DuplicateTokens => concat("Found duplicate tokens: error=", e),
        Stage::Naming => concat("Found bad naming: error=", e),
        Stage::Checksums => concat("Found bad checksum: error=", e),
        Stage::Transforms => concat("Found bad transform: error=", e),
        Stage::Dashboards => concat("Found bad dasboard: error=", e),
        Stage::SampleData => concat("No sample data: error=", e),
        Stage::SampleFreshness => concat("WARNING: ", e),
        Stage::SummaryTable => concat("Bad summary table: error=", e),
        Stage::AlertRules => concat("Alert rules validation failed: error=", e),
        Stage::DatasourceUids => concat("Datasource UID consistency failed: error=", e),
        Stage::SummaryColumns => concat("Summary column schema validation failed: error=", e),
        Stage::SummaryReferences => concat("Summary table references validation failed: error=", e),
        Stage::TemplateVariables => concat("Template variable consistency failed: error=", e),
        Stage::TemplateDatasources => concat("Template variable datasource validation failed: error=", e),
        Stage::Dependencies => concat("WARNING: Dependency check failed: ", e),
        Stage::ProductionAuth => concat("Production auth failed: ", e),
        Stage::ProductionResources => concat("Production dependency check failed: ", e),
        Stage::DashboardOnlyDeploy => concat("Failed to deploy dashboard error=", e),
        Stage::LocalDeploy => concat("Failed to deploy error=", e),
        Stage::Plugins => if strict_plugins {
            concat("Plugin validation failed: ", e)
        } else {
            concat("Plugin check warning: ", e)
        },
        Stage::Browser => concat("Failed to run headless browser error=", e),
        Stage::BrowserFindings => concat("", e),
    };
    proof {
        reveal_strlit("");
        assert(failure_prefix(Stage::BrowserFindings, strict_plugins) =~= ""@);
    }
    match s {
        Stage::SampleFreshness | Stage::Dependencies => Verdict::Warn(message),
        Stage::Plugins => if strict_plugins {
            Verdict::Abort(message)
        } else {
            Verdict::Warn(message)
        },
        _ => Verdict::Abort(message),
    }
}

/// The text of the browser's findings on a deployed dashboard.
pub open spec fn findings_message(datasource_errors: nat, nodata_errors: nat) -> Seq<char> {
    "Dashboard Errors="@ + decimal(datasource_errors) + " NoDataErrors="@ + decimal(nodata_errors)
}

/// The outcome of the browser's look at a dashboard: it fails when the page
/// showed any datasource or no-data error.
pub fn browser_findings(datasource_errors: u64, nodata_errors: u64) -> (r: Result<(), String>)
    ensures
        match r {
            Ok(()) => datasource_errors == 0 && nodata_errors == 0,
            Err(e) => (datasource_errors > 0 || nodata_errors > 0)
                && e@ == findings_message(datasource_errors as nat, nodata_errors as nat),
        },
{
    if datasource_errors > 0 || nodata_errors > 0 {
        let a = u64_to_string(datasource_errors);
        let b = u64_to_string(nodata_errors);
        let mut e = concat("Dashboard Errors=", a.as_str());
        append(&mut e, " NoDataErrors=");
        append(&mut e, b.as_str());
        assert(e@ =~= findings_message(datasource_errors as nat, nodata_errors as nat));
        Err(e)
    } else {
        Ok(())
    }
}

/// A run visits its steps in order: the step after `s` lies further on, is
/// one that the switches enable, and every step in between is one that they
/// leave out; when there is none, every later step is left out.
pub proof fn lemma_run_order(i: int, m: Modes)
    requires
        0 <= i,
    ensures
        match next_enabled(i, m) {
            Some(t) => 0 <= i <= stage_index(t) < stage_count() && enabled(t, m)
                && forall|j: int| i <= j < stage_index(t) ==> !enabled(#[trigger] stage_at(j), m),
            None => forall|j: int| i <= j < stage_count() ==> !enabled(#[trigger] stage_at(j), m),
        },
    decreases stage_count() - i,
{
    if i < stage_count() && !enabled(stage_at(i), m) {
        lemma_run_order(i + 1, m);
    }
}

/// The checks on the bundle's own files run in every mode: the steps before
/// the production check are never left out.
pub proof fn lemma_checks_always_run(s: Stage, m: Modes)
    requires
        stage_index(s) < 16,
    ensures
        enabled(s, m),
{
}

} // verus!
