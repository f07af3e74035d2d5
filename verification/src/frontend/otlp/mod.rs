//! The OTLP metrics exporter: snapshots become metric requests, cut into batches.

pub mod attributes;
pub mod batch;
pub mod budget;
pub mod contents;
pub mod export;
pub mod exporter;
pub mod model;
pub mod request;
