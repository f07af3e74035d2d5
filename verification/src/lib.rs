//! Flow monitoring: configuration rules, flow statistics and their export.

pub mod cli;
pub mod config;
pub mod duration;
pub mod frontend;
pub mod ipc;
pub mod net;
pub mod pairs;
pub mod text;
pub mod yaml;
