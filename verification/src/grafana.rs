//! Grafana: dashboard templates, plugins, datasources and the review instance.
pub mod dashboard;
pub mod plugins;
pub mod datasource;
pub mod remote;
pub mod browser;
