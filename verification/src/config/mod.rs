//! The configuration: its model, its rules, and the live set of flow rules.

pub mod crud;
pub mod model;
pub mod parse;
pub mod timeout;
pub mod validate;

pub use crud::{CrudError, FlowRuleSet, FLOW_RULE_SET_MAX};
pub use model::{
    Config, EvictionPolicy, ExporterEntry, ExtraValue, Field, FlowRule, FrontendConfig,
    LogFileConfig, LogLevel, LogType, LoggingConfig, Rotation,
};
pub use parse::{load_config, ConfigError, ParseError};
pub use validate::{
    validate_config, validate_exporter, validate_frontend, validate_rule, ValidationError,
    MAX_KEYS_BUDGET, MAX_KEY_WIDTH,
};
