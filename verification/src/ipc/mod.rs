//! What the frontend, its backend and its clients tell each other.

pub mod control_client;
pub mod decode;
pub mod error;
pub mod protocol;
pub mod stats_client;
pub mod types;

pub use control_client::{ExporterStatus, InFMonControlClient};
pub use error::{CtlError, IpcError};
pub use stats_client::{RawDescriptor, RawSlot, RawSnapshot};
pub use types::{
    FieldId, FieldValue, FlowCounters, FlowRuleCounters, FlowRuleId, FlowRuleStats, FlowStats,
    FlowStatsSnapshot,
};
