//! Preparing a bundle for a remote Grafana: project names and dashboard
//! datasource references.
pub mod dashboard_rewrite;
pub mod sanitize;
