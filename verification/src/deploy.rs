//! Deployment: what is sent to the cluster and to Grafana, and how a
//! deployment that ingested nothing is diagnosed.
pub mod verify;
pub mod remote;
pub mod default;
