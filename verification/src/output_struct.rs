//! What a validation run reports for traffic generation: the bundle, where
//! it was deployed, and its tables and transforms.
use vstd::prelude::*;

verus! {

/// A transform of an output table.
pub struct OutputTransformation {
    pub name: String,
    pub data_type: String,
    pub data_sub_type: String,
}

/// A table with its transforms.
pub struct OutputTable {
    pub table_name: String,
    pub transforms: Vec<OutputTransformation>,
}

/// The report of a run.
pub struct Output {
    pub bundle_url: String,
    pub name: String,
    pub project_name: String,
    pub cluster_domain: String,
    pub grafana_domain: String,
    pub datalink: String,
    pub dashboard_id: String,
    pub tables: Vec<OutputTable>,
}

impl Default for OutputTransformation {
    fn default() -> (r: Self)
        ensures
            r.name@.len() == 0,
            r.data_type@.len() == 0,
            r.data_sub_type@.len() == 0,
    {
        OutputTransformation { name: String::new(), data_type: String::new(), data_sub_type: String::new() }
    }
}

impl Default for OutputTable {
    fn default() -> (r: Self)
        ensures
            r.table_name@.len() == 0,
            r.transforms@.len() == 0,
    {
        OutputTable { table_name: String::new(), transforms: Vec::new() }
    }
}

impl Default for Output {
    fn default() -> (r: Self)
        ensures
            r.bundle_url@.len() == 0,
            r.name@.len() == 0,
            r.project_name@.len() == 0,
            r.cluster_domain@.len() == 0,
            r.grafana_domain@.len() == 0,
            r.datalink@.len() == 0,
            r.dashboard_id@.len() == 0,
            r.tables@.len() == 0,
    {
        Output {
            bundle_url: String::new(),
            name: String::new(),
            project_name: String::new(),
            cluster_domain: String::new(),
            grafana_domain: String::new(),
            datalink: String::new(),
            dashboard_id: String::new(),
            tables: Vec::new(),
        }
    }
}

} // verus!
