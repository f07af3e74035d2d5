//! What each command does: what it asks of the frontend or of systemd, what it says, and how it
//! exits.

use vstd::prelude::*;

use super::args::{
    Cli, Commands, ConfigCommands, FlowCommands, FlowRuleCommands, LogCommands, StatsCommands,
};
use super::exit_codes::{
    self, EXIT_FAILURE, EXIT_PERMISSION_DENIED, EXIT_SUCCESS, EXIT_USAGE,
};
use super::install::{no_lines, one_line, StepResult};
use super::output::{FlowRuleListOutput, FlowRuleShowOutput, StatsShowOutput, TableDisplay};
use super::rule_spec;
use crate::config::model::{self, Field, FlowRule, FlowRuleView};
use crate::duration::Duration;
use crate::frontend::control;
use crate::frontend::exporter;
use crate::ipc::control_client::{self, InFMonControlClient};
use crate::ipc::error::{CtlError, CtlErrorView};
use crate::ipc::protocol::{
    self, DataView, DetailView, EntryView, FlowRuleCountersData, FlowRuleData, FlowRuleDetailData,
    Request, RequestView, Response, ResponseView, StatsRowView,
};
use crate::ipc::types::{
    self, FieldId, FieldValue, FlowRuleId, FlowRuleStats, FlowRuleStatsView, FlowStatsView,
};
use crate::text;

verus! {

// ---------------------------------------------------------------- what a command ends in

/// What goes to standard output.
#[derive(Debug)]
pub enum Output {
    Added { id: FlowRuleId, name: String },
    Rules(FlowRuleListOutput),
    Detail(FlowRuleShowOutput),
    Totals(StatsShowOutput),
}

/// What goes to standard output, as plain mathematical values.
pub enum OutputView {
    Added { id: FlowRuleId, name: Seq<char> },
    Rules(Seq<FlowRuleView>),
    Detail(DetailView),
    Totals(Seq<StatsRowView>),
}

impl View for Output {
    type V = OutputView;

    open spec fn view(&self) -> OutputView {
        match self {
            Output::Added { id, name } => OutputView::Added { id: *id, name: name@ },
            Output::Rules(r) => OutputView::Rules(protocol::rule_data_views(r.0@)),
            Output::Detail(d) => OutputView::Detail(d.0@),
            Output::Totals(t) => OutputView::Totals(protocol::row_views(t.0.flow_rules@)),
        }
    }
}

impl TableDisplay for Output {
    open spec fn table(&self) -> Seq<char> {
        match self {
            Output::Added { id, name } => "Added flow rule '"@ + name@ + "' (id: "@
                + types::id_text(*id) + ")\n"@,
            Output::Rules(r) => r.table(),
            Output::Detail(d) => d.table(),
            Output::Totals(t) => t.table(),
        }
    }

    fn print_table(&self) -> (r: String) {
        match self {
            Output::Added { id, name } => {
                let mut r = text::cat3("Added flow rule '", name.as_str(), "' (id: ");
                r.append(id.to_text().as_str());
                r.append(")\n");
                r
            },
            Output::Rules(r) => r.print_table(),
            Output::Detail(d) => d.print_table(),
            Output::Totals(t) => t.print_table(),
        }
    }
}

/// How a command ends: the exit code, the lines for standard error, and what goes to standard
/// output.
#[derive(Debug)]
pub struct Outcome {
    pub code: i32,
    pub lines: Vec<String>,
    pub output: Option<Output>,
}

/// How a command ends, as plain mathematical values.
#[verifier::ext_equal]
pub struct OutcomeView {
    pub code: i32,
    pub lines: Seq<Seq<char>>,
    pub output: Option<OutputView>,
}

impl View for Outcome {
    type V = OutcomeView;

    open spec fn view(&self) -> OutcomeView {
        OutcomeView {
            code: self.code,
            lines: exporter::texts(self.lines@),
            output: match self.output {
                Some(o) => Some(o@),
                None => None,
            },
        }
    }
}

/// What to make of the reply to a request.
#[derive(Debug)]
pub enum Pending<S = String> {
    Added { name: S },
    Removed { target: S, quiet: bool },
    Listed,
    Shown,
    Totals,
}

impl View for Pending<String> {
    type V = Pending<Seq<char>>;

    open spec fn view(&self) -> Pending<Seq<char>> {
        match self {
            Pending::Added { name } => Pending::Added { name: name@ },
            Pending::Removed { target, quiet } => Pending::Removed {
                target: target@,
                quiet: *quiet,
            },
            Pending::Listed => Pending::Listed,
            Pending::Shown => Pending::Shown,
            Pending::Totals => Pending::Totals,
        }
    }
}

/// What a command does next.
#[derive(Debug)]
pub enum Step {
    /// Say the lines and exit.
    Exit(Outcome),
    /// Say the lines, send the request, and finish with the reply.
    Send { lines: Vec<String>, request: Request, pending: Pending },
    /// Install the service.
    Install { force: bool },
    /// Have systemd start, stop or restart the service.
    Service { action: String },
    /// Gather the status of the service.
    Status,
    /// Say the lines, wait for a day, and exit with the code.
    Wait { lines: Vec<String>, code: i32 },
}

/// What a command does next, as plain mathematical values.
pub enum StepView {
    Exit(OutcomeView),
    Send { lines: Seq<Seq<char>>, request: RequestView, pending: Pending<Seq<char>> },
    Install { force: bool },
    Service { action: Seq<char> },
    Status,
    Wait { lines: Seq<Seq<char>>, code: i32 },
}

impl View for Step {
    type V = StepView;

    open spec fn view(&self) -> StepView {
        match self {
            Step::Exit(o) => StepView::Exit(o@),
            Step::Send { lines, request, pending } => StepView::Send {
                lines: exporter::texts(lines@),
                request: request@,
                pending: pending@,
            },
            Step::Install { force } => StepView::Install { force: *force },
            Step::Service { action } => StepView::Service { action: action@ },
            Step::Status => StepView::Status,
            Step::Wait { lines, code } => StepView::Wait {
                lines: exporter::texts(lines@),
                code: *code,
            },
        }
    }
}

/// One line, and an exit.
pub open spec fn said(code: i32, line: Seq<char>) -> OutcomeView {
    OutcomeView { code, lines: seq![line], output: None }
}

fn say(code: i32, line: String) -> (r: Outcome)
    ensures
        r@ == said(code, line@),
{
    Outcome { code, lines: one_line(line), output: None }
}

fn show(output: Output) -> (r: Outcome)
    ensures
        r@ == (OutcomeView { code: EXIT_SUCCESS, lines: Seq::empty(), output: Some(output@) }),
{
    Outcome { code: EXIT_SUCCESS, lines: no_lines(), output: Some(output) }
}

// ---------------------------------------------------------------- the service

/// The end of `uninstall`.
pub open spec fn uninstalled(is_root: bool) -> OutcomeView {
    if is_root {
        said(EXIT_FAILURE, "infmonctl: uninstall: not yet implemented (stub)"@)
    } else {
        said(EXIT_PERMISSION_DENIED, "infmonctl: uninstall requires root privileges"@)
    }
}

/// Removes the service; not to be had yet.
pub fn run_uninstall(is_root: bool) -> (r: Outcome)
    ensures
        r@ == uninstalled(is_root),
{
    if !is_root {
        return say(
            EXIT_PERMISSION_DENIED,
            "infmonctl: uninstall requires root privileges".to_owned(),
        );
    }
    say(EXIT_FAILURE, "infmonctl: uninstall: not yet implemented (stub)".to_owned())
}

/// The step of `start`, `stop` and `restart`.
pub open spec fn lifecycle_step(action: Seq<char>, is_root: bool) -> StepView {
    if is_root {
        StepView::Service { action }
    } else {
        StepView::Exit(
            said(
                EXIT_PERMISSION_DENIED,
                "infmonctl: "@ + action + " requires root privileges"@,
            ),
        )
    }
}

/// Starts, stops or restarts the service.
pub fn run_lifecycle(action: &str, is_root: bool) -> (r: Step)
    ensures
        r@ == lifecycle_step(action@, is_root),
{
    if !is_root {
        return Step::Exit(
            say(
                EXIT_PERMISSION_DENIED,
                text::cat3("infmonctl: ", action, " requires root privileges"),
            ),
        );
    }
    Step::Service { action: action.to_owned() }
}

/// The end of `start`, `stop` and `restart`, by how `systemctl` came out.
pub open spec fn lifecycle_end(action: Seq<char>, result: StepResult) -> OutcomeView {
    let head = "infmonctl: "@ + action;
    match result {
        StepResult::Refused(e) => said(
            EXIT_FAILURE,
            head + ": systemctl failed: "@ + text::trimmed(e@),
        ),
        StepResult::Failed(e) => said(EXIT_FAILURE, head + ": failed to run systemctl: "@ + e@),
        _ => said(EXIT_SUCCESS, head + ": OK"@),
    }
}

/// Takes what `systemctl` said.
pub fn finish_lifecycle(action: &str, result: StepResult) -> (r: Outcome)
    ensures
        r@ == lifecycle_end(action@, result),
{
    let mut line = text::cat("infmonctl: ", action);
    match result {
        StepResult::Refused(e) => {
            line.append(": systemctl failed: ");
            line.append(text::trim(e.as_str()));
            say(EXIT_FAILURE, line)
        },
        StepResult::Failed(e) => {
            line.append(": failed to run systemctl: ");
            line.append(e.as_str());
            say(EXIT_FAILURE, line)
        },
        _ => {
            line.append(": OK");
            say(EXIT_SUCCESS, line)
        },
    }
}

// ---------------------------------------------------------------- configuration

/// The end of a `config` command.
pub open spec fn config_end(cmd: ConfigCommands, is_root: bool) -> OutcomeView {
    match cmd {
        ConfigCommands::Get { .. } => said(
            EXIT_FAILURE,
            "infmonctl: config get: not yet implemented (stub)"@,
        ),
        ConfigCommands::SetKey { .. } => if is_root {
            said(EXIT_FAILURE, "infmonctl: config set: not yet implemented (stub)"@)
        } else {
            said(EXIT_PERMISSION_DENIED, "infmonctl: config set requires root privileges"@)
        },
        ConfigCommands::Reload => if is_root {
            said(EXIT_FAILURE, "infmonctl: config reload: not yet implemented (stub)"@)
        } else {
            said(EXIT_PERMISSION_DENIED, "infmonctl: config reload requires root privileges"@)
        },
        ConfigCommands::Show { .. } => said(
            EXIT_FAILURE,
            "infmonctl: config show: not yet implemented (stub)"@,
        ),
    }
}

/// Reads or changes the configuration; not to be had yet.
pub fn run_config(cmd: &ConfigCommands, is_root: bool) -> (r: Outcome)
    ensures
        r@ == config_end(*cmd, is_root),
{
    match cmd {
        ConfigCommands::Get { .. } => say(
            EXIT_FAILURE,
            "infmonctl: config get: not yet implemented (stub)".to_owned(),
        ),
        ConfigCommands::SetKey { .. } => if is_root {
            say(EXIT_FAILURE, "infmonctl: config set: not yet implemented (stub)".to_owned())
        } else {
            say(
                EXIT_PERMISSION_DENIED,
                "infmonctl: config set requires root privileges".to_owned(),
            )
        },
        ConfigCommands::Reload => if is_root {
            say(EXIT_FAILURE, "infmonctl: config reload: not yet implemented (stub)".to_owned())
        } else {
            say(
                EXIT_PERMISSION_DENIED,
                "infmonctl: config reload requires root privileges".to_owned(),
            )
        },
        ConfigCommands::Show { .. } => say(
            EXIT_FAILURE,
            "infmonctl: config show: not yet implemented (stub)".to_owned(),
        ),
    }
}

// ---------------------------------------------------------------- flow rules

/// The step of a `flow-rule` command.
pub open spec fn flow_rule_step(cmd: FlowRuleCommands, is_root: bool, quiet: bool) -> StepView {
    match cmd {
        FlowRuleCommands::Add { spec_items } => if !is_root {
            StepView::Exit(
                said(
                    EXIT_PERMISSION_DENIED,
                    "infmonctl: flow-rule add requires root privileges"@,
                ),
            )
        } else {
            match rule_spec::rule_of(exporter::texts(spec_items@)) {
                Err(e) => StepView::Exit(said(EXIT_USAGE, e.text())),
                Ok(rule) => StepView::Send {
                    lines: Seq::empty(),
                    request: RequestView::FlowRuleAdd(rule),
                    pending: Pending::Added { name: rule.name },
                },
            }
        },
        FlowRuleCommands::Rm { target, all } => if !is_root {
            StepView::Exit(
                said(
                    EXIT_PERMISSION_DENIED,
                    "infmonctl: flow-rule rm requires root privileges"@,
                ),
            )
        } else if all {
            StepView::Exit(
                said(EXIT_FAILURE, "infmonctl: flow-rule rm --all: not yet implemented"@),
            )
        } else {
            StepView::Send {
                lines: Seq::empty(),
                request: RequestView::FlowRuleRm(target@),
                pending: Pending::Removed { target: target@, quiet },
            }
        },
        FlowRuleCommands::List => StepView::Send {
            lines: Seq::empty(),
            request: RequestView::FlowRuleList,
            pending: Pending::Listed,
        },
        FlowRuleCommands::Show { target } => StepView::Send {
            lines: Seq::empty(),
            request: RequestView::FlowRuleShow(target@),
            pending: Pending::Shown,
        },
    }
}

/// Adds, removes, lists or shows flow rules.
pub fn run_flow_rule(
    cmd: &FlowRuleCommands,
    client: &InFMonControlClient,
    is_root: bool,
    quiet: bool,
) -> (r: Step)
    ensures
        r@ == flow_rule_step(*cmd, is_root, quiet),
{
    match cmd {
        FlowRuleCommands::Add { spec_items } => {
            if !is_root {
                return Step::Exit(
                    say(
                        EXIT_PERMISSION_DENIED,
                        "infmonctl: flow-rule add requires root privileges".to_owned(),
                    ),
                );
            }
            assert(exporter::texts(spec_items@) =~= spec_items@.map_values(|x: String| x@));
            match rule_spec::parse_rule_spec(spec_items) {
                Err(e) => Step::Exit(say(EXIT_USAGE, e.message())),
                Ok(rule) => {
                    let name = rule.name.clone();
                    Step::Send {
                        lines: no_lines(),
                        request: client.flow_rule_add(rule),
                        pending: Pending::Added { name },
                    }
                },
            }
        },
        FlowRuleCommands::Rm { target, all } => {
            if !is_root {
                return Step::Exit(
                    say(
                        EXIT_PERMISSION_DENIED,
                        "infmonctl: flow-rule rm requires root privileges".to_owned(),
                    ),
                );
            }
            if *all {
                return Step::Exit(
                    say(
                        EXIT_FAILURE,
                        "infmonctl: flow-rule rm --all: not yet implemented".to_owned(),
                    ),
                );
            }
            Step::Send {
                lines: no_lines(),
                request: client.flow_rule_rm(target.as_str()),
                pending: Pending::Removed { target: target.clone(), quiet },
            }
        },
        FlowRuleCommands::List => Step::Send {
            lines: no_lines(),
            request: client.flow_rule_list(),
            pending: Pending::Listed,
        },
        FlowRuleCommands::Show { target } => Step::Send {
            lines: no_lines(),
            request: client.flow_rule_show(target.as_str()),
            pending: Pending::Shown,
        },
    }
}

// ---------------------------------------------------------------- flows, totals, logs, health

/// The end of a `flow` command.
pub open spec fn flow_end(cmd: FlowCommands) -> OutcomeView {
    said(
        EXIT_FAILURE,
        match cmd {
            FlowCommands::List { .. } => "infmonctl: flow list: not yet implemented (stub)"@,
            FlowCommands::Show { .. } => "infmonctl: flow show: not yet implemented (stub)"@,
        },
    )
}

/// Looks at flows; not to be had yet.
pub fn run_flow(cmd: &FlowCommands) -> (r: Outcome)
    ensures
        r@ == flow_end(*cmd),
{
    match cmd {
        FlowCommands::List { .. } => say(
            EXIT_FAILURE,
            "infmonctl: flow list: not yet implemented (stub)".to_owned(),
        ),
        FlowCommands::Show { .. } => say(
            EXIT_FAILURE,
            "infmonctl: flow show: not yet implemented (stub)".to_owned(),
        ),
    }
}

/// What is said of options of `stats show` that are not to be had yet.
pub open spec fn stats_lines(top: usize, watch: Option<u64>) -> Seq<Seq<char>> {
    (if top > 0 {
        seq!["infmonctl: stats show --top: not yet implemented, showing all"@]
    } else {
        Seq::empty()
    }) + (if watch is Some {
        seq!["infmonctl: stats show --watch: not yet implemented, showing once"@]
    } else {
        Seq::empty()
    })
}

/// The step of a `stats` command.
pub open spec fn stats_step(cmd: StatsCommands) -> StepView {
    match cmd {
        StatsCommands::Show { name, top, watch } => StepView::Send {
            lines: stats_lines(top, watch),
            request: RequestView::StatsShow(text::opt(name)),
            pending: Pending::Totals,
        },
        StatsCommands::Export { .. } => StepView::Exit(
            said(EXIT_FAILURE, "infmonctl: stats export: not yet implemented (stub)"@),
        ),
    }
}

/// Shows totals.
pub fn run_stats(cmd: &StatsCommands, client: &InFMonControlClient) -> (r: Step)
    ensures
        r@ == stats_step(*cmd),
{
    match cmd {
        StatsCommands::Show { name, top, watch } => {
            let mut lines: Vec<String> = Vec::new();
            if *top > 0 {
                lines.push(
                    "infmonctl: stats show --top: not yet implemented, showing all".to_owned(),
                );
            }
            if watch.is_some() {
                lines.push(
                    "infmonctl: stats show --watch: not yet implemented, showing once".to_owned(),
                );
            }
            assert(exporter::texts(lines@) =~= stats_lines(*top, *watch));
            let request = client.stats_show(
                match name {
                    Some(n) => Some(n.as_str()),
                    None => None,
                },
            );
            Step::Send { lines, request, pending: Pending::Totals }
        },
        StatsCommands::Export { .. } => Step::Exit(
            say(EXIT_FAILURE, "infmonctl: stats export: not yet implemented (stub)".to_owned()),
        ),
    }
}

/// The step of a `log` command.
pub open spec fn log_step(cmd: LogCommands) -> StepView {
    match cmd {
        LogCommands::Tail { follow, .. } => if follow {
            StepView::Wait {
                lines: seq!["infmonctl: log tail: waiting for logs (stub)"@],
                code: EXIT_FAILURE,
            }
        } else {
            StepView::Exit(
                said(EXIT_FAILURE, "infmonctl: log tail: not yet implemented (stub)"@),
            )
        },
    }
}

/// Shows logs; not to be had yet.
pub fn run_log(cmd: &LogCommands) -> (r: Step)
    ensures
        r@ == log_step(*cmd),
{
    match cmd {
        LogCommands::Tail { follow, .. } => if *follow {
            Step::Wait {
                lines: one_line("infmonctl: log tail: waiting for logs (stub)".to_owned()),
                code: EXIT_FAILURE,
            }
        } else {
            Step::Exit(
                say(EXIT_FAILURE, "infmonctl: log tail: not yet implemented (stub)".to_owned()),
            )
        },
    }
}

/// Asks for the health of the service; not to be had yet.
pub fn run_health() -> (r: Outcome)
    ensures
        r@ == said(EXIT_FAILURE, "infmonctl: health: not yet implemented (stub)"@),
{
    say(EXIT_FAILURE, "infmonctl: health: not yet implemented (stub)".to_owned())
}

// ---------------------------------------------------------------- every command

/// A client for the options.
pub fn make_client(cli: &Cli) -> (r: InFMonControlClient)
    ensures
        r.socket() == cli.socket@,
        r.patience().nanos == cli.timeout * 1_000_000_000,
{
    InFMonControlClient::with_timeout(cli.socket.as_str(), Duration::from_secs(cli.timeout))
}

/// The first step of a command.
pub open spec fn step_of(cli: Cli, is_root: bool) -> StepView {
    match cli.command {
        Commands::Install { force } => StepView::Install { force },
        Commands::Uninstall { .. } => StepView::Exit(uninstalled(is_root)),
        Commands::Start => lifecycle_step("start"@, is_root),
        Commands::Stop => lifecycle_step("stop"@, is_root),
        Commands::Restart => lifecycle_step("restart"@, is_root),
        Commands::Status => StepView::Status,
        Commands::Config { command } => StepView::Exit(config_end(command, is_root)),
        Commands::FlowRule { command } => flow_rule_step(command, is_root, cli.quiet),
        Commands::Flow { command } => StepView::Exit(flow_end(command)),
        Commands::Stats { command } => stats_step(command),
        Commands::Log { command } => log_step(command),
        Commands::Health => StepView::Exit(
            said(EXIT_FAILURE, "infmonctl: health: not yet implemented (stub)"@),
        ),
    }
}

/// Begins a command.
pub fn run(cli: &Cli, is_root: bool) -> (r: Step)
    ensures
        r@ == step_of(*cli, is_root),
{
    let client = make_client(cli);
    match &cli.command {
        Commands::Install { force } => Step::Install { force: *force },
        Commands::Uninstall { .. } => Step::Exit(run_uninstall(is_root)),
        Commands::Start => run_lifecycle("start", is_root),
        Commands::Stop => run_lifecycle("stop", is_root),
        Commands::Restart => run_lifecycle("restart", is_root),
        Commands::Status => Step::Status,
        Commands::Config { command } => Step::Exit(run_config(command, is_root)),
        Commands::FlowRule { command } => run_flow_rule(command, &client, is_root, cli.quiet),
        Commands::Flow { command } => Step::Exit(run_flow(command)),
        Commands::Stats { command } => run_stats(command, &client),
        Commands::Log { command } => run_log(command),
        Commands::Health => Step::Exit(run_health()),
    }
}

// ---------------------------------------------------------------- replies

/// The field of an identifier.
pub open spec fn field_of_id(id: FieldId) -> Field {
    match id {
        FieldId::SrcIp => Field::SrcIp,
        FieldId::DstIp => Field::DstIp,
        FieldId::IpProto => Field::IpProto,
        FieldId::Dscp => Field::Dscp,
        FieldId::MirrorSrcIp => Field::MirrorSrcIp,
        FieldId::SrcPort => Field::SrcPort,
        FieldId::DstPort => Field::DstPort,
    }
}

/// The field of an identifier.
pub fn field_id_to_field(id: &FieldId) -> (r: Field)
    ensures
        r == field_of_id(*id),
{
    match id {
        FieldId::SrcIp => Field::SrcIp,
        FieldId::DstIp => Field::DstIp,
        FieldId::IpProto => Field::IpProto,
        FieldId::Dscp => Field::Dscp,
        FieldId::MirrorSrcIp => Field::MirrorSrcIp,
        FieldId::SrcPort => Field::SrcPort,
        FieldId::DstPort => Field::DstPort,
    }
}

/// A flow as it is shown.
pub open spec fn entry_of_flow(f: FlowStatsView) -> EntryView {
    EntryView {
        key: f.key.map_values(|v: FieldValue| v.labelled()),
        packets: f.counters.packets,
        bytes: f.counters.bytes,
        first_seen_ns: f.counters.first_seen_ns,
        last_seen_ns: f.counters.last_seen_ns,
    }
}

/// A rule with its flows as it is shown.
pub open spec fn detail_of_stats(s: FlowRuleStatsView) -> DetailView {
    DetailView {
        rule: FlowRuleView {
            name: s.name,
            fields: s.fields.map_values(|f: FieldId| field_of_id(f)),
            max_keys: s.max_keys,
            eviction_policy: s.eviction_policy,
        },
        counters: FlowRuleCountersData {
            packets: s.counters.packets,
            bytes: s.counters.bytes,
            evictions: s.counters.evictions,
            drops: s.counters.drops,
        },
        flows: s.flows.map_values(|f: FlowStatsView| entry_of_flow(f)),
    }
}

/// A rule with its flows as it is shown.
pub fn rule_detail(s: FlowRuleStats) -> (r: FlowRuleDetailData)
    ensures
        r@ == detail_of_stats(s@),
{
    let mut fields: Vec<Field> = Vec::new();
    let mut i: usize = 0;
    while i < s.fields.len()
        invariant
            i <= s.fields.len(),
            fields.len() == i,
            forall|k: int| 0 <= k < i ==> #[trigger] fields@[k] == field_of_id(s.fields@[k]),
        decreases s.fields.len() - i,
    {
        fields.push(field_id_to_field(&s.fields[i]));
        i = i + 1;
    }
    let flows = control::flow_entries(&s.flows);
    assert(fields@ =~= s@.fields.map_values(|f: FieldId| field_of_id(f)));
    assert(protocol::entry_views(flows@) =~= s@.flows.map_values(
        |f: FlowStatsView| entry_of_flow(f),
    ));
    FlowRuleDetailData {
        name: s.name,
        fields,
        max_keys: s.max_keys,
        eviction_policy: s.eviction_policy,
        counters: FlowRuleCountersData {
            packets: s.counters.packets,
            bytes: s.counters.bytes,
            evictions: s.counters.evictions,
            drops: s.counters.drops,
        },
        flows,
    }
}

fn rule_data(rules: &Vec<FlowRule>) -> (r: Vec<FlowRuleData>)
    ensures
        protocol::rule_data_views(r@) == model::rule_views(rules@),
{
    let mut r: Vec<FlowRuleData> = Vec::new();
    let mut i: usize = 0;
    while i < rules.len()
        invariant
            i <= rules.len(),
            r.len() == i,
            forall|k: int| 0 <= k < i ==> (#[trigger] r@[k])@ == rules@[k]@,
        decreases rules.len() - i,
    {
        r.push(FlowRuleData::of(&rules[i]));
        i = i + 1;
    }
    assert(protocol::rule_data_views(r@) =~= model::rule_views(rules@));
    r
}

/// What the reply comes to: the data of a response, or the error of the exchange or of the
/// frontend.
pub open spec fn replied(reply: Result<ResponseView, CtlErrorView>) -> Result<
    Option<DataView>,
    CtlErrorView,
> {
    match reply {
        Ok(r) => control_client::reply_view(r),
        Err(e) => Err(e),
    }
}

/// What a command is called in messages.
pub open spec fn command_text<S>(p: Pending<S>) -> Seq<char> {
    match p {
        Pending::Added { .. } => "flow-rule add"@,
        Pending::Removed { .. } => "flow-rule rm"@,
        Pending::Listed => "flow-rule list"@,
        Pending::Shown => "flow-rule show"@,
        Pending::Totals => "stats show"@,
    }
}

/// The end of a command that failed.
pub open spec fn failed<S>(p: Pending<S>, e: CtlErrorView) -> OutcomeView {
    said(exit_codes::code_of(e), "infmonctl: "@ + command_text(p) + ": "@ + e.text())
}

/// The end of a command that shows something.
pub open spec fn shown(output: OutputView) -> OutcomeView {
    OutcomeView { code: EXIT_SUCCESS, lines: Seq::empty(), output: Some(output) }
}

/// The end of a command, by the reply to its request.
pub open spec fn finished(
    p: Pending<Seq<char>>,
    reply: Result<ResponseView, CtlErrorView>,
) -> OutcomeView {
    match replied(reply) {
        Err(e) => failed(p, e),
        Ok(data) => match p {
            Pending::Added { name } => match data {
                Some(DataView::FlowRuleId(t)) => match types::parse_id(t) {
                    Ok(id) => shown(OutputView::Added { id, name }),
                    Err(e) => failed(p, CtlError::Protocol("invalid FlowRuleId: "@ + e)),
                },
                _ => failed(p, control_client::unexpected()),
            },
            Pending::Removed { target, quiet } => OutcomeView {
                code: EXIT_SUCCESS,
                lines: if quiet {
                    Seq::empty()
                } else {
                    seq!["Removed flow rule '"@ + target + "'"@]
                },
                output: None,
            },
            Pending::Listed => match data {
                Some(DataView::FlowRuleList(rules)) => shown(OutputView::Rules(rules)),
                _ => failed(p, control_client::unexpected()),
            },
            Pending::Shown => match data {
                Some(DataView::FlowRuleDetail(d)) => shown(
                    OutputView::Detail(detail_of_stats(control_client::stats_of_detail(d))),
                ),
                _ => failed(p, control_client::unexpected()),
            },
            Pending::Totals => match data {
                Some(DataView::StatsShow(rows)) => shown(OutputView::Totals(rows)),
                _ => failed(p, control_client::unexpected()),
            },
        },
    }
}

fn fail(command: &str, e: CtlError) -> (r: Outcome)
    ensures
        r@ == said(exit_codes::code_of(e@), "infmonctl: "@ + command@ + ": "@ + e@.text()),
{
    let mut line = text::cat3("infmonctl: ", command, ": ");
    line.append(e.message().as_str());
    say(exit_codes::ctl_error_to_exit_code(&e), line)
}

/// The view of a reply.
pub open spec fn reply_of(reply: Result<Response, CtlError>) -> Result<ResponseView, CtlErrorView> {
    match reply {
        Ok(r) => Ok(r@),
        Err(e) => Err(e@),
    }
}

/// Ends a command with the reply to its request.
pub fn finish(pending: Pending, reply: Result<Response, CtlError>) -> (r: Outcome)
    ensures
        r@ == finished(pending@, reply_of(reply)),
{
    match pending {
        Pending::Added { name } => {
            let result = match reply {
                Ok(resp) => InFMonControlClient::flow_rule_add_reply(resp),
                Err(e) => Err(e),
            };
            match result {
                Ok(id) => show(Output::Added { id, name }),
                Err(e) => fail("flow-rule add", e),
            }
        },
        Pending::Removed { target, quiet } => {
            let result = match reply {
                Ok(resp) => InFMonControlClient::flow_rule_rm_reply(resp),
                Err(e) => Err(e),
            };
            match result {
                Ok(_) => Outcome {
                    code: EXIT_SUCCESS,
                    lines: if quiet {
                        no_lines()
                    } else {
                        one_line(text::cat3("Removed flow rule '", target.as_str(), "'"))
                    },
                    output: None,
                },
                Err(e) => fail("flow-rule rm", e),
            }
        },
        Pending::Listed => {
            let result = match reply {
                Ok(resp) => InFMonControlClient::flow_rule_list_reply(resp),
                Err(e) => Err(e),
            };
            match result {
                Ok(rules) => show(Output::Rules(FlowRuleListOutput(rule_data(&rules)))),
                Err(e) => fail("flow-rule list", e),
            }
        },
        Pending::Shown => {
            let result = match reply {
                Ok(resp) => InFMonControlClient::flow_rule_show_reply(resp),
                Err(e) => Err(e),
            };
            match result {
                Ok(stats) => show(Output::Detail(FlowRuleShowOutput(rule_detail(stats)))),
                Err(e) => fail("flow-rule show", e),
            }
        },
        Pending::Totals => {
            let result = match reply {
                Ok(resp) => InFMonControlClient::stats_show_reply(resp),
                Err(e) => Err(e),
            };
            match result {
                Ok(data) => show(Output::Totals(StatsShowOutput(data))),
                Err(e) => fail("stats show", e),
            }
        },
    }
}

// ---------------------------------------------------------------- laws

/// A field and its identifier stand for each other.
pub proof fn fields_and_ids_match(f: Field, id: FieldId)
    ensures
        field_of_id(control_client::id_of_field(f)) == f,
        control_client::id_of_field(field_of_id(id)) == id,
{
}

/// A rule is shown as the frontend sent it, and so are its counters and those of each of its
/// flows.
pub proof fn shown_rule_is_sent_rule(d: DetailView)
    ensures
        ({
            let s = detail_of_stats(control_client::stats_of_detail(d));
            &&& s.rule == d.rule
            &&& s.counters == d.counters
            &&& s.flows.len() == d.flows.len()
            &&& forall|i: int|
                0 <= i < d.flows.len() ==> {
                    &&& (#[trigger] s.flows[i]).packets == d.flows[i].packets
                    &&& s.flows[i].bytes == d.flows[i].bytes
                    &&& s.flows[i].first_seen_ns == d.flows[i].first_seen_ns
                    &&& s.flows[i].last_seen_ns == d.flows[i].last_seen_ns
                    &&& s.flows[i].key.len() == d.flows[i].key.len()
                }
        }),
{
    let s = detail_of_stats(control_client::stats_of_detail(d));
    assert(s.rule.fields =~= d.rule.fields);
}

/// Without root privileges no command changes a rule, and none but `install`, which looks at the
/// privileges itself, goes to the system.
pub proof fn unprivileged_commands_only_ask(cli: Cli)
    ensures
        match step_of(cli, false) {
            StepView::Send { request, .. } => request is FlowRuleList || request is FlowRuleShow
                || request is StatsShow,
            StepView::Service { .. } => false,
            _ => true,
        },
{
}

/// A command that sent a request exits with success only where the frontend said that all is
/// well.
pub proof fn success_only_after_ok(
    p: Pending<Seq<char>>,
    reply: Result<ResponseView, CtlErrorView>,
)
    requires
        finished(p, reply).code == EXIT_SUCCESS,
    ensures
        reply is Ok,
        reply->Ok_0.ok,
{
    match replied(reply) {
        Err(e) => {
            exit_codes::failures_do_not_exit_with_success(e);
        },
        Ok(_) => {},
    }
}

/// Every command does what it is named after: those of the service go to systemd, those of rules
/// and totals send the request of the same name with what they were given.
pub proof fn commands_do_what_they_name(cli: Cli)
    ensures
        match cli.command {
            Commands::Install { force } => step_of(cli, true) == (StepView::Install { force }),
            Commands::Start => step_of(cli, true) == (StepView::Service { action: "start"@ }),
            Commands::Stop => step_of(cli, true) == (StepView::Service { action: "stop"@ }),
            Commands::Restart => step_of(cli, true) == (StepView::Service { action: "restart"@ }),
            Commands::Status => step_of(cli, true) is Status,
            Commands::FlowRule { command: FlowRuleCommands::Add { spec_items } } => {
                match rule_spec::rule_of(exporter::texts(spec_items@)) {
                    Ok(rule) => {
                        &&& step_of(cli, true) matches StepView::Send { request, pending, .. }
                        &&& request == RequestView::FlowRuleAdd(rule)
                        &&& pending == (Pending::Added { name: rule.name })
                    },
                    Err(e) => step_of(cli, true) matches StepView::Exit(o) && o.code == 2,
                }
            },
            Commands::FlowRule { command: FlowRuleCommands::Rm { target, all } } => !all ==> {
                &&& step_of(cli, true) matches StepView::Send { request, pending, .. }
                &&& request == RequestView::FlowRuleRm(target@)
                &&& pending == (Pending::Removed { target: target@, quiet: cli.quiet })
            },
            Commands::FlowRule { command: FlowRuleCommands::List } => {
                &&& step_of(cli, true) matches StepView::Send { request, pending, .. }
                &&& request is FlowRuleList
                &&& pending is Listed
            },
            Commands::FlowRule { command: FlowRuleCommands::Show { target } } => {
                &&& step_of(cli, true) matches StepView::Send { request, pending, .. }
                &&& request == RequestView::FlowRuleShow(target@)
                &&& pending is Shown
            },
            Commands::Stats { command: StatsCommands::Show { name, .. } } => {
                &&& step_of(cli, true) matches StepView::Send { request, pending, .. }
                &&& request matches RequestView::StatsShow(n)
                &&& n is Some == name is Some
                &&& name matches Some(x) ==> n == Some(x@)
                &&& pending is Totals
            },
            _ => true,
        },
{
}

/// A command that needs root privileges exits with 13 where there are none; those that only ask do
/// the same with and without them.
pub proof fn missing_privileges_exit_with_13(cli: Cli)
    ensures
        match cli.command {
            Commands::Start | Commands::Stop | Commands::Restart | Commands::Uninstall { .. }
            | Commands::FlowRule { command: FlowRuleCommands::Add { .. } }
            | Commands::FlowRule { command: FlowRuleCommands::Rm { .. } }
            | Commands::Config { command: ConfigCommands::SetKey { .. } }
            | Commands::Config { command: ConfigCommands::Reload } => step_of(
                cli,
                false,
            ) matches StepView::Exit(o) && o.code == 13 && o.output is None,
            _ => step_of(cli, false) == step_of(cli, true),
        },
{
}

/// What the service manager said is what the command says of it: it succeeds where nothing was
/// refused and nothing failed, and exits with 1 otherwise.
pub proof fn service_commands_exit_by_result(action: Seq<char>, result: StepResult)
    ensures
        result is Refused || result is Failed ==> lifecycle_end(action, result).code == 1,
        !(result is Refused) && !(result is Failed) ==> lifecycle_end(action, result).code == 0,
{
}

/// The data of a reply are shown as they came, and the command exits with success.
pub proof fn replies_are_shown(
    rules: Seq<FlowRuleView>,
    rows: Seq<StatsRowView>,
    id: FlowRuleId,
    name: Seq<char>,
)
    ensures
        ({
            let o = finished(
                Pending::Listed,
                Ok(ResponseView {
                    ok: true,
                    data: Some(DataView::FlowRuleList(rules)),
                    error: None,
                }),
            );
            o.code == 0 && o.lines.len() == 0 && o.output == Some(OutputView::Rules(rules))
        }),
        ({
            let o = finished(
                Pending::Totals,
                Ok(ResponseView { ok: true, data: Some(DataView::StatsShow(rows)), error: None }),
            );
            o.code == 0 && o.lines.len() == 0 && o.output == Some(OutputView::Totals(rows))
        }),
        ({
            let o = finished(
                Pending::Added { name },
                Ok(ResponseView {
                    ok: true,
                    data: Some(DataView::FlowRuleId(types::id_text(id))),
                    error: None,
                }),
            );
            o.code == 0 && o.lines.len() == 0 && o.output == Some(OutputView::Added { id, name })
        }),
        ({
            let o = finished(
                Pending::Removed { target: name, quiet: true },
                Ok(ResponseView { ok: true, data: None, error: None }),
            );
            o.code == 0 && o.lines.len() == 0 && o.output is None
        }),
        ({
            let o = finished(
                Pending::Removed { target: name, quiet: false },
                Ok(ResponseView { ok: true, data: None, error: None }),
            );
            o.code == 0 && o.lines.len() == 1 && o.output is None
        }),
{
    types::id_round_trip(id);
}

/// A refusal is said on one line that ends with the error in full, and shows nothing.
pub proof fn refusals_are_said(p: Pending<Seq<char>>, e: CtlErrorView)
    ensures
        ({
            let o = finished(p, Err(e));
            &&& o.output is None
            &&& o.lines.len() == 1
            &&& o.lines[0].len() >= e.text().len()
            &&& o.lines[0].skip(o.lines[0].len() - e.text().len()) == e.text()
            &&& e is Connect ==> o.code == 4
            &&& e matches CtlError::Backend { code, .. } ==> (code == 3 || code == 6 ==> o.code
                == code)
            &&& o.code != 0
        }),
{
    let o = finished(p, Err(e));
    assert(o.lines[0].skip(o.lines[0].len() - e.text().len()) =~= e.text());
}

/// Listing the rules shows the rules that the frontend knows; asking for one that it does not know
/// exits with 3, and adding one that it knows with 6.
pub proof fn client_shows_what_the_frontend_knows(
    v: control::ControlView,
    list: Request,
    show: Request,
    add: Request,
    rule: FlowRuleView,
    name: Seq<char>,
)
    requires
        list@ is FlowRuleList,
        show@ == RequestView::FlowRuleShow(name),
        add@ == RequestView::FlowRuleAdd(rule),
        !control::knows(v, name),
        control::knows(v, rule.name),
    ensures
        ({
            &&& control::handled(v, list).1 matches control::ReplyView::Respond(r)
            &&& finished(Pending::Listed, Ok(r)).output == Some(OutputView::Rules(v.rules))
        }),
        ({
            &&& control::handled(v, show).1 matches control::ReplyView::Respond(r)
            &&& finished(Pending::Shown, Ok(r)).code == 3
        }),
        ({
            &&& control::handled(v, add).1 matches control::ReplyView::Respond(r)
            &&& finished(Pending::Added { name: rule.name }, Ok(r)).code == 6
        }),
{
}

/// The view of what a command ends in tells its code, its lines in order, and what is shown.
pub proof fn outcome_is_told_by_field(o: Outcome)
    ensures
        o@.code == o.code,
        o@.lines.len() == o.lines@.len(),
        forall|i: int| 0 <= i < o.lines@.len() ==> #[trigger] o@.lines[i] == o.lines@[i]@,
        o@.output is Some == o.output is Some,
        o.output matches Some(Output::Added { id, name }) ==> o@.output == Some(
            OutputView::Added { id, name: name@ },
        ),
        o.output matches Some(Output::Rules(r)) ==> o@.output == Some(
            OutputView::Rules(protocol::rule_data_views(r.0@)),
        ),
        o.output matches Some(Output::Detail(d)) ==> o@.output == Some(OutputView::Detail(d.0@)),
        o.output matches Some(Output::Totals(t)) ==> o@.output == Some(
            OutputView::Totals(protocol::row_views(t.0.flow_rules@)),
        ),
{
}

/// Commands that are not to be had yet exit with 1, show nothing, and say which of them was asked
/// for.
pub proof fn missing_commands_say_so(cli: Cli)
    ensures
        match cli.command {
            Commands::Uninstall { .. } => step_of(cli, true) == StepView::Exit(
                said(1, "infmonctl: uninstall: not yet implemented (stub)"@),
            ),
            Commands::Config { command: ConfigCommands::Get { .. } } => step_of(cli, true)
                == StepView::Exit(said(1, "infmonctl: config get: not yet implemented (stub)"@)),
            Commands::Config { command: ConfigCommands::SetKey { .. } } => step_of(cli, true)
                == StepView::Exit(said(1, "infmonctl: config set: not yet implemented (stub)"@)),
            Commands::Config { command: ConfigCommands::Reload } => step_of(cli, true)
                == StepView::Exit(
                said(1, "infmonctl: config reload: not yet implemented (stub)"@),
            ),
            Commands::Config { command: ConfigCommands::Show { .. } } => step_of(cli, true)
                == StepView::Exit(said(1, "infmonctl: config show: not yet implemented (stub)"@)),
            Commands::Flow { command: FlowCommands::List { .. } } => step_of(cli, true)
                == StepView::Exit(said(1, "infmonctl: flow list: not yet implemented (stub)"@)),
            Commands::Flow { command: FlowCommands::Show { .. } } => step_of(cli, true)
                == StepView::Exit(said(1, "infmonctl: flow show: not yet implemented (stub)"@)),
            Commands::Stats { command: StatsCommands::Export { .. } } => step_of(cli, true)
                == StepView::Exit(said(1, "infmonctl: stats export: not yet implemented (stub)"@)),
            Commands::Log { command: LogCommands::Tail { follow, .. } } => if follow {
                step_of(cli, true) matches StepView::Wait { lines, code } && code == 1 && lines
                    == seq!["infmonctl: log tail: waiting for logs (stub)"@]
            } else {
                step_of(cli, true) == StepView::Exit(
                    said(1, "infmonctl: log tail: not yet implemented (stub)"@),
                )
            },
            Commands::Health => step_of(cli, true) == StepView::Exit(
                said(1, "infmonctl: health: not yet implemented (stub)"@),
            ),
            _ => true,
        },
{
}

/// What is said, and nothing else, is the one line, and the code is the one given.
pub proof fn saying_shows_nothing(code: i32, line: Seq<char>)
    ensures
        said(code, line).code == code,
        said(code, line).lines == seq![line],
        said(code, line).output is None,
{
}

/// Options of the totals that are not to be had yet are told of, one line for each that is given.
pub proof fn missing_options_are_told(top: usize, watch: Option<u64>)
    ensures
        top == 0 && watch is None ==> stats_lines(top, watch).len() == 0,
        top > 0 && watch is None ==> stats_lines(top, watch)
            == seq!["infmonctl: stats show --top: not yet implemented, showing all"@],
        top == 0 && watch is Some ==> stats_lines(top, watch)
            == seq!["infmonctl: stats show --watch: not yet implemented, showing once"@],
        top > 0 && watch is Some ==> stats_lines(top, watch) == seq![
            "infmonctl: stats show --top: not yet implemented, showing all"@,
            "infmonctl: stats show --watch: not yet implemented, showing once"@,
        ],
{
    if top > 0 && watch is Some {
        assert(stats_lines(top, watch) =~= seq![
            "infmonctl: stats show --top: not yet implemented, showing all"@,
            "infmonctl: stats show --watch: not yet implemented, showing once"@,
        ]);
    }
}

/// A failure is said with the name of the command that failed.
pub proof fn failures_name_the_command(p: Pending<Seq<char>>, e: CtlErrorView)
    ensures
        ({
            let line = finished(p, Err(e)).lines[0];
            &&& p is Added ==> line == "infmonctl: "@ + "flow-rule add"@ + ": "@ + e.text()
            &&& p is Removed ==> line == "infmonctl: "@ + "flow-rule rm"@ + ": "@ + e.text()
            &&& p is Listed ==> line == "infmonctl: "@ + "flow-rule list"@ + ": "@ + e.text()
            &&& p is Shown ==> line == "infmonctl: "@ + "flow-rule show"@ + ": "@ + e.text()
            &&& p is Totals ==> line == "infmonctl: "@ + "stats show"@ + ": "@ + e.text()
        }),
{
}

} // verus!
