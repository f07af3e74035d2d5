//! What a configuration holds.

use vstd::prelude::*;

use crate::pairs::Pairs;

verus! {

/// A packet field that a flow key is made of.
#[derive(Clone, Copy, Debug, PartialEq, Eq, Structural)]
pub enum Field {
    SrcIp,
    DstIp,
    IpProto,
    Dscp,
    MirrorSrcIp,
    SrcPort,
    DstPort,
}

impl Field {
    /// How many bytes the field takes in a key.
    pub open spec fn bytes(self) -> nat {
        match self {
            Field::SrcIp | Field::DstIp | Field::MirrorSrcIp => 16,
            Field::IpProto | Field::Dscp => 1,
            Field::SrcPort | Field::DstPort => 2,
        }
    }

    /// How many bytes the field takes in a key.
    pub fn width(self) -> (r: u32)
        ensures
            r == self.bytes(),
    {
        match self {
            Field::SrcIp | Field::DstIp | Field::MirrorSrcIp => 16,
            Field::IpProto | Field::Dscp => 1,
            Field::SrcPort | Field::DstPort => 2,
        }
    }

    /// The name of the variant.
    pub open spec fn label(self) -> Seq<char> {
        match self {
            Field::SrcIp => "SrcIp"@,
            Field::DstIp => "DstIp"@,
            Field::IpProto => "IpProto"@,
            Field::Dscp => "Dscp"@,
            Field::MirrorSrcIp => "MirrorSrcIp"@,
            Field::SrcPort => "SrcPort"@,
            Field::DstPort => "DstPort"@,
        }
    }

    /// The name of the variant.
    pub fn label_text(self) -> (r: &'static str)
        ensures
            r@ == self.label(),
    {
        match self {
            Field::SrcIp => "SrcIp",
            Field::DstIp => "DstIp",
            Field::IpProto => "IpProto",
            Field::Dscp => "Dscp",
            Field::MirrorSrcIp => "MirrorSrcIp",
            Field::SrcPort => "SrcPort",
            Field::DstPort => "DstPort",
        }
    }
}

/// What happens when a flow table is full.
#[derive(Clone, Copy, Debug, PartialEq, Eq, Structural)]
pub enum EvictionPolicy {
    LruDrop,
}

/// A flow rule: which fields make the key, and how many keys may be tracked.
#[derive(Debug, PartialEq, Eq)]
pub struct FlowRule {
    pub name: String,
    pub fields: Vec<Field>,
    pub max_keys: u32,
    pub eviction_policy: EvictionPolicy,
}

/// A flow rule as plain mathematical values.
#[verifier::ext_equal]
pub struct FlowRuleView {
    pub name: Seq<char>,
    pub fields: Seq<Field>,
    pub max_keys: u32,
    pub eviction_policy: EvictionPolicy,
}

impl View for FlowRule {
    type V = FlowRuleView;

    open spec fn view(&self) -> FlowRuleView {
        FlowRuleView {
            name: self.name@,
            fields: self.fields@,
            max_keys: self.max_keys,
            eviction_policy: self.eviction_policy,
        }
    }
}

/// A copy of a field list.
pub fn copy_fields(v: &Vec<Field>) -> (r: Vec<Field>)
    ensures
        r@ == v@,
{
    let mut r: Vec<Field> = Vec::new();
    let mut i: usize = 0;
    while i < v.len()
        invariant
            i <= v.len(),
            r@ == v@.take(i as int),
        decreases v.len() - i,
    {
        r.push(v[i]);
        i = i + 1;
        assert(v@.take(i as int) =~= v@.take(i - 1).push(v@[i - 1]));
    }
    assert(v@.take(v@.len() as int) =~= v@);
    r
}

impl Clone for FlowRule {
    fn clone(&self) -> (r: FlowRule)
        ensures
            r@ == self@,
    {
        FlowRule {
            name: self.name.clone(),
            fields: copy_fields(&self.fields),
            max_keys: self.max_keys,
            eviction_policy: self.eviction_policy,
        }
    }
}

/// The views of a list of flow rules.
pub open spec fn rule_views(s: Seq<FlowRule>) -> Seq<FlowRuleView> {
    s.map_values(|r: FlowRule| r@)
}

/// A copy of a list of flow rules.
pub fn copy_rules(v: &Vec<FlowRule>) -> (r: Vec<FlowRule>)
    ensures
        rule_views(r@) == rule_views(v@),
{
    let mut r: Vec<FlowRule> = Vec::new();
    let mut i: usize = 0;
    while i < v.len()
        invariant
            i <= v.len(),
            r.len() == i,
            forall|k: int| 0 <= k < i ==> (#[trigger] r@[k])@ == v@[k]@,
        decreases v.len() - i,
    {
        r.push(v[i].clone());
        i = i + 1;
    }
    assert(rule_views(r@) =~= rule_views(v@));
    r
}

/// How the frontend runs.
#[derive(Debug, PartialEq, Eq)]
pub struct FrontendConfig {
    pub polling_interval_ms: u64,
    pub backend_socket: String,
    pub control_socket: String,
    pub vpp_stats_socket: String,
    pub startup_timeout: String,
    pub shutdown_grace_ms: u64,
}

impl FrontendConfig {
    /// Whether every setting has its default.
    pub open spec fn is_default(&self) -> bool {
        &&& self.polling_interval_ms == 1000
        &&& self.backend_socket@ == "/run/infmon/backend.sock"@
        &&& self.control_socket@ == "/run/infmon/frontend.sock"@
        &&& self.vpp_stats_socket@ == "/run/vpp/stats.sock"@
        &&& self.startup_timeout@ == "5s"@
        &&& self.shutdown_grace_ms == 5000
    }
}

impl Default for FrontendConfig {
    fn default() -> (r: FrontendConfig)
        ensures
            r.is_default(),
    {
        FrontendConfig {
            polling_interval_ms: 1000,
            backend_socket: "/run/infmon/backend.sock".to_owned(),
            control_socket: "/run/infmon/frontend.sock".to_owned(),
            vpp_stats_socket: "/run/vpp/stats.sock".to_owned(),
            startup_timeout: "5s".to_owned(),
            shutdown_grace_ms: 5000,
        }
    }
}

/// The value of a free-form exporter setting.
#[derive(Debug, PartialEq, Eq)]
pub enum ExtraValue {
    /// A plain string.
    Text(String),
    /// Any other value, as YAML source.
    Yaml(String),
}

/// One exporter of the configuration.
pub struct ExporterEntry {
    pub kind: String,
    pub name: String,
    pub queue_depth: usize,
    pub export_timeout: String,
    pub on_overflow: String,
    pub extra: Pairs<ExtraValue>,
}

/// How much is logged.
#[derive(Clone, Copy, Debug, PartialEq, Eq, Structural)]
pub enum LogLevel {
    Trace,
    Debug,
    Info,
    Warn,
    Error,
}

/// Where the log goes.
#[derive(Clone, Copy, Debug, PartialEq, Eq, Structural)]
pub enum LogType {
    Syslog,
    File,
}

/// How often a log file is replaced.
#[derive(Clone, Copy, Debug, PartialEq, Eq, Structural)]
pub enum Rotation {
    Daily,
    Hourly,
    Never,
}

/// The log file.
#[derive(Debug, PartialEq, Eq)]
pub struct LogFileConfig {
    pub path: String,
    pub rotation: Rotation,
}

/// How the frontend logs.
#[derive(Debug, PartialEq, Eq)]
pub struct LoggingConfig {
    pub level: LogLevel,
    pub destination: LogType,
    pub file: Option<LogFileConfig>,
}

/// A whole configuration.
pub struct Config {
    pub frontend: Option<FrontendConfig>,
    pub flow_rules: Vec<FlowRule>,
    pub exporters: Option<Vec<ExporterEntry>>,
    pub logging: Option<LoggingConfig>,
}

/// The view of a rule tells it field by field.
pub proof fn rule_is_told_by_field(r: FlowRule)
    ensures
        r@.name == r.name@,
        r@.fields == r.fields@,
        r@.max_keys == r.max_keys,
        r@.eviction_policy == r.eviction_policy,
{
}

/// An address takes sixteen bytes of a key, a port two, and a protocol or a class one.
pub proof fn fields_take_their_room(f: Field)
    ensures
        f is SrcIp || f is DstIp || f is MirrorSrcIp ==> f.bytes() == 16,
        f is SrcPort || f is DstPort ==> f.bytes() == 2,
        f is IpProto || f is Dscp ==> f.bytes() == 1,
{
}

/// A frontend that is left to its defaults polls once a second, has five seconds to start and to
/// stop, and finds its sockets under `/run`.
pub proof fn frontend_defaults(f: FrontendConfig)
    requires
        f.is_default(),
    ensures
        f.polling_interval_ms == 1_000,
        f.shutdown_grace_ms == 5_000,
        f.startup_timeout@ == "5s"@,
        f.backend_socket@ == "/run/infmon/backend.sock"@,
        f.control_socket@ == "/run/infmon/frontend.sock"@,
        f.vpp_stats_socket@ == "/run/vpp/stats.sock"@,
{
}

} // verus!
