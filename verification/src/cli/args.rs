//! The command line, read.

use vstd::prelude::*;

verus! {

/// Options that every command takes, and the command.
#[derive(Debug)]
pub struct Cli {
    pub command: Commands,
    pub output: OutputFormat,
    pub json: bool,
    pub compact: bool,
    pub raw_bytes: bool,
    pub config: String,
    pub socket: String,
    pub timeout: u64,
    pub no_color: bool,
    pub quiet: bool,
    pub verbose: u8,
}

#[derive(Clone, Copy, Debug, PartialEq, Eq, Structural)]
pub enum OutputFormat {
    Table,
    Json,
}

#[allow(inconsistent_fields)]
#[derive(Debug)]
pub enum Commands {
    Install { force: bool },
    Uninstall { purge: bool },
    Start,
    Stop,
    Restart,
    Status,
    Config { command: ConfigCommands },
    FlowRule { command: FlowRuleCommands },
    Flow { command: FlowCommands },
    Stats { command: StatsCommands },
    Log { command: LogCommands },
    Health,
}

#[derive(Debug)]
pub enum ConfigCommands {
    Get { key: String },
    SetKey { key: String, value: String, value_type: Option<String> },
    Reload,
    Show { annotate: bool },
}

#[derive(Debug)]
pub enum FlowRuleCommands {
    Add { spec_items: Vec<String> },
    Rm { target: String, all: bool },
    List,
    Show { target: String },
}

#[derive(Debug)]
pub enum FlowCommands {
    List { rule: String, top: usize, sort: FlowSortField },
    Show { rule: String, key: String },
}

#[derive(Clone, Copy, Debug, PartialEq, Eq, Structural)]
pub enum FlowSortField {
    Bytes,
    Packets,
    LastSeen,
}

#[derive(Debug)]
pub enum StatsCommands {
    Show { name: Option<String>, top: usize, watch: Option<u64> },
    Export { format: ExportFormat },
}

#[derive(Clone, Copy, Debug, PartialEq, Eq, Structural)]
pub enum ExportFormat {
    Prom,
    Otlp,
    Json,
}

#[derive(Debug)]
pub enum LogCommands {
    Tail { follow: bool, since: Option<String>, n: u64 },
}

impl Cli {
    /// The output format: `--json` goes before `--output`.
    pub fn effective_output(&self) -> (r: OutputFormat)
        ensures
            r == (if self.json {
                OutputFormat::Json
            } else {
                self.output
            }),
    {
        if self.json {
            OutputFormat::Json
        } else {
            self.output
        }
    }
}

} // verus!
