//! The frontend: polls the backend, answers clients and feeds the exporters.

pub mod control;
pub mod exporter;
pub mod lifecycle;
pub mod logging;
pub mod otlp;
pub mod poller;
pub mod vapi_control_client;
pub mod vapi_stats_client;
