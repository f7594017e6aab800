pub mod text;
pub mod validate;
pub mod json;
pub mod ext;
pub mod deploy;
pub mod cleanup;
pub mod models;
pub mod flags;
pub mod grafana;
pub mod hdx;
pub mod remote;
pub mod select;
pub mod pipeline;
pub mod output_struct;
