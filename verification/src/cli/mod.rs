//! The command line client: what each command sends, says and exits with.

pub mod args;
pub mod exit_codes;
pub mod install;
pub mod output;
pub mod rule_spec;
pub mod run;
pub mod status;
