//! The commands of the client.

use infmon::cli::args::{
    Cli, Commands, ConfigCommands, ExportFormat, FlowCommands, FlowRuleCommands, FlowSortField,
    LogCommands, OutputFormat, StatsCommands,
};
use infmon::cli::exit_codes::{
    ctl_error_to_exit_code, EXIT_CONFLICT, EXIT_DEGRADED, EXIT_FAILURE, EXIT_FRONTEND_UNREACHABLE,
    EXIT_NOT_FOUND, EXIT_PERMISSION_DENIED, EXIT_SERVICE_UNAVAILABLE, EXIT_SUCCESS, EXIT_USAGE,
};
use infmon::cli::install::{
    config_file, default_config, next_install, start_install, Dir, InstallStep, StepResult,
};
use infmon::cli::output::TableDisplay;
use infmon::cli::rule_spec::{parse_rule_spec, SpecError};
use infmon::cli::run::{
    field_id_to_field, finish, finish_lifecycle, make_client, run, Outcome, Output, Pending, Step,
};
use infmon::cli::status::read_status;
use infmon::config::model::{EvictionPolicy, Field};
use infmon::duration::Duration;
use infmon::ipc::error::CtlError;
use infmon::ipc::protocol::{
    FlowEntryData, FlowRuleCountersData, FlowRuleData, FlowRuleDetailData, FlowRuleIdData,
    FlowRuleListData, FlowRuleStatsData, Request, Response, ResponseData, StatsShowData,
};
use infmon::ipc::types::FieldId;

fn cli(command: Commands) -> Cli {
    Cli {
        command,
        output: OutputFormat::Table,
        json: false,
        compact: false,
        raw_bytes: false,
        config: "/etc/infmon/config.yaml".to_string(),
        socket: "/run/infmon/frontend.sock".to_string(),
        timeout: 5,
        no_color: false,
        quiet: false,
        verbose: 0,
    }
}

fn exit(step: Step) -> (i32, Vec<String>) {
    match step {
        Step::Exit(o) => {
            assert!(o.output.is_none());
            (o.code, o.lines)
        }
        other => panic!("{other:?}"),
    }
}

fn ends(command: Commands, is_root: bool, code: i32, line: &str) {
    assert_eq!(exit(run(&cli(command), is_root)), (code, vec![line.to_string()]));
}

fn add(items: &[&str]) -> Commands {
    let spec_items = items.iter().map(|s| s.to_string()).collect();
    Commands::FlowRule { command: FlowRuleCommands::Add { spec_items } }
}

// ---- options

#[test]
fn json_goes_before_output() {
    let mut c = cli(Commands::Health);
    assert_eq!(c.effective_output(), OutputFormat::Table);
    c.output = OutputFormat::Json;
    assert_eq!(c.effective_output(), OutputFormat::Json);
    c.output = OutputFormat::Table;
    c.json = true;
    assert_eq!(c.effective_output(), OutputFormat::Json);
}

#[test]
fn clients_are_made_of_the_options() {
    let mut c = cli(Commands::Health);
    c.timeout = 9;
    c.socket = "/tmp/x.sock".to_string();
    let client = make_client(&c);
    assert_eq!(client.path(), "/tmp/x.sock");
    assert_eq!(client.timeout(), Duration::from_secs(9));
}

// ---- commands without a request

#[test]
fn commands_that_need_root() {
    let denied = EXIT_PERMISSION_DENIED;
    let set = || ConfigCommands::SetKey {
        key: "k".to_string(),
        value: "v".to_string(),
        value_type: None,
    };
    ends(
        Commands::Uninstall { purge: true },
        false,
        denied,
        "infmonctl: uninstall requires root privileges",
    );
    ends(Commands::Start, false, denied, "infmonctl: start requires root privileges");
    ends(Commands::Stop, false, denied, "infmonctl: stop requires root privileges");
    ends(Commands::Restart, false, denied, "infmonctl: restart requires root privileges");
    ends(
        Commands::Config { command: set() },
        false,
        denied,
        "infmonctl: config set requires root privileges",
    );
    ends(
        Commands::Config { command: ConfigCommands::Reload },
        false,
        denied,
        "infmonctl: config reload requires root privileges",
    );
    ends(
        add(&["name=ab", "fields=dscp"]),
        false,
        denied,
        "infmonctl: flow-rule add requires root privileges",
    );
    let rm = FlowRuleCommands::Rm { target: "ab".to_string(), all: false };
    ends(
        Commands::FlowRule { command: rm },
        false,
        denied,
        "infmonctl: flow-rule rm requires root privileges",
    );
}

#[test]
fn commands_that_are_not_to_be_had_yet() {
    let config = |command: ConfigCommands| Commands::Config { command };
    let set = ConfigCommands::SetKey {
        key: "k".to_string(),
        value: "v".to_string(),
        value_type: Some("int".to_string()),
    };
    let cases = [
        (Commands::Uninstall { purge: false }, "uninstall: not yet implemented (stub)"),
        (config(ConfigCommands::Get { key: "k".to_string() }), "config get: not yet implemented (stub)"),
        (config(set), "config set: not yet implemented (stub)"),
        (config(ConfigCommands::Reload), "config reload: not yet implemented (stub)"),
        (config(ConfigCommands::Show { annotate: true }), "config show: not yet implemented (stub)"),
        (
            Commands::FlowRule {
                command: FlowRuleCommands::Rm { target: "ab".to_string(), all: true },
            },
            "flow-rule rm --all: not yet implemented",
        ),
        (
            Commands::Flow {
                command: FlowCommands::List {
                    rule: "ab".to_string(),
                    top: 50,
                    sort: FlowSortField::Bytes,
                },
            },
            "flow list: not yet implemented (stub)",
        ),
        (
            Commands::Flow {
                command: FlowCommands::Show { rule: "ab".to_string(), key: "k".to_string() },
            },
            "flow show: not yet implemented (stub)",
        ),
        (
            Commands::Stats { command: StatsCommands::Export { format: ExportFormat::Prom } },
            "stats export: not yet implemented (stub)",
        ),
        (
            Commands::Log {
                command: LogCommands::Tail { follow: false, since: None, n: 100 },
            },
            "log tail: not yet implemented (stub)",
        ),
        (Commands::Health, "health: not yet implemented (stub)"),
    ];
    for (command, line) in cases {
        ends(command, true, EXIT_FAILURE, &format!("infmonctl: {line}"));
    }
    let follow = LogCommands::Tail { follow: true, since: None, n: 100 };
    match run(&cli(Commands::Log { command: follow }), false) {
        Step::Wait { lines, code } => {
            assert_eq!(lines, vec!["infmonctl: log tail: waiting for logs (stub)"]);
            assert_eq!(code, EXIT_FAILURE);
        }
        other => panic!("{other:?}"),
    }
    assert!(matches!(
        run(&cli(Commands::Install { force: true }), false),
        Step::Install { force: true }
    ));
    assert!(matches!(run(&cli(Commands::Status), false), Step::Status));
}

#[test]
fn services_are_started_and_stopped() {
    match run(&cli(Commands::Restart), true) {
        Step::Service { action } => assert_eq!(action, "restart"),
        other => panic!("{other:?}"),
    }
    let end = |r: StepResult| {
        let o = finish_lifecycle("start", r);
        (o.code, o.lines)
    };
    assert_eq!(end(StepResult::Done), (EXIT_SUCCESS, vec!["infmonctl: start: OK".to_string()]));
    assert_eq!(
        end(StepResult::Refused(" no unit\n".to_string())),
        (EXIT_FAILURE, vec!["infmonctl: start: systemctl failed: no unit".to_string()])
    );
    assert_eq!(
        end(StepResult::Failed("not found".to_string())),
        (EXIT_FAILURE, vec!["infmonctl: start: failed to run systemctl: not found".to_string()])
    );
}

// ---- flow rules on the command line

fn spec(items: &[&str]) -> Result<infmon::config::model::FlowRule, SpecError> {
    parse_rule_spec(&items.iter().map(|s| s.to_string()).collect())
}

#[test]
fn rules_are_read_from_the_command_line() {
    let r = spec(&["name=ab", "fields=src_ip, dst_ip", "fields=dscp", "max_keys=7"]).unwrap();
    assert_eq!(r.name, "ab");
    assert_eq!(r.fields, vec![Field::SrcIp, Field::DstIp, Field::Dscp]);
    assert_eq!(r.max_keys, 7);
    let r = spec(&["fields=ip_proto,mirror_src_ip", "name=a=b", "eviction_policy=lru_drop"]).unwrap();
    assert_eq!(r.name, "a=b");
    assert_eq!(r.max_keys, 1024);
    assert_eq!(r.eviction_policy, EvictionPolicy::LruDrop);
}

#[test]
fn wrong_rules_on_the_command_line() {
    let message = |items: &[&str]| spec(items).unwrap_err().message();
    assert_eq!(message(&["fields=port"]), "infmonctl: unknown field: port");
    assert_eq!(message(&["max_keys=4294967296"]), "infmonctl: invalid max_keys: 4294967296");
    assert_eq!(
        message(&["eviction_policy=fifo"]),
        "infmonctl: unknown eviction_policy: fifo (supported: lru_drop)"
    );
    assert_eq!(message(&["size=3"]), "infmonctl: unknown spec key: size");
    assert_eq!(
        message(&["name"]),
        "infmonctl: invalid spec format, expected key=value: name"
    );
    assert_eq!(
        message(&["fields=dscp"]),
        "infmonctl: flow-rule add: name=<name> is required"
    );
    assert_eq!(
        message(&["name=ab"]),
        "infmonctl: flow-rule add: fields=<field,...> is required"
    );
    ends(add(&["x"]), true, EXIT_USAGE, "infmonctl: invalid spec format, expected key=value: x");
}

// ---- requests and replies

fn sent(command: Commands) -> (Vec<String>, Request, Pending) {
    match run(&cli(command), true) {
        Step::Send { lines, request, pending } => (lines, request, pending),
        other => panic!("{other:?}"),
    }
}

fn outcome(pending: Pending, resp: Response) -> Outcome {
    finish(pending, Ok(resp))
}

#[test]
fn adding_a_rule() {
    let (lines, request, pending) = sent(add(&["name=ab", "fields=dscp"]));
    assert!(lines.is_empty());
    assert!(matches!(request, Request::FlowRuleAdd(p) if p.name == "ab" && p.max_keys == 1024));
    let id = ResponseData::FlowRuleId(FlowRuleIdData { id: "1-2".to_string() });
    let o = outcome(pending, Response::ok(id));
    assert_eq!(o.code, EXIT_SUCCESS);
    assert_eq!(
        o.output.unwrap().print_table(),
        "Added flow rule 'ab' (id: 0000000000000001-0000000000000002)\n"
    );
    let o = outcome(
        Pending::Added { name: "ab".to_string() },
        Response::err(6, "flow rule 'ab' already exists".to_string()),
    );
    assert_eq!(o.code, EXIT_CONFLICT);
    assert_eq!(
        o.lines,
        vec!["infmonctl: flow-rule add: backend returned error: 6 flow rule 'ab' already exists"]
    );
}

#[test]
fn removing_a_rule() {
    let rm = FlowRuleCommands::Rm { target: "ab".to_string(), all: false };
    let (_, request, pending) = sent(Commands::FlowRule { command: rm });
    assert!(matches!(request, Request::FlowRuleRm(p) if p.name == "ab"));
    let o = outcome(pending, Response::ok_empty());
    assert_eq!((o.code, o.lines), (EXIT_SUCCESS, vec!["Removed flow rule 'ab'".to_string()]));
    let quiet = Pending::Removed { target: "ab".to_string(), quiet: true };
    assert!(outcome(quiet, Response::ok_empty()).lines.is_empty());
    let gone = Pending::Removed { target: "ab".to_string(), quiet: false };
    let o = outcome(gone, Response::err(3, "flow rule 'ab' not found".to_string()));
    assert_eq!(o.code, EXIT_NOT_FOUND);
}

#[test]
fn listing_rules() {
    let (_, request, pending) =
        sent(Commands::FlowRule { command: FlowRuleCommands::List });
    assert!(matches!(request, Request::FlowRuleList));
    let rules = vec![FlowRuleData {
        name: "by-src".to_string(),
        fields: vec![Field::SrcIp, Field::MirrorSrcIp],
        max_keys: 1000,
        eviction_policy: EvictionPolicy::LruDrop,
    }];
    let o = outcome(
        pending,
        Response::ok(ResponseData::FlowRuleList(FlowRuleListData { rules })),
    );
    let want = format!(
        "{:<20} {:<30} {:>10}\n{:<20} {:<30} {:>10}\n",
        "NAME", "FIELDS", "MAX_KEYS", "by-src", "srcip,mirrorsrcip", 1000
    );
    assert_eq!(o.output.unwrap().print_table(), want);
    let none = ResponseData::FlowRuleList(FlowRuleListData { rules: vec![] });
    let o = outcome(Pending::Listed, Response::ok(none));
    assert_eq!(o.output.unwrap().print_table(), "No flow rules configured.\n");
    let o = finish(Pending::Listed, Err(CtlError::Connect("refused".to_string())));
    assert_eq!(o.code, EXIT_FRONTEND_UNREACHABLE);
    assert_eq!(o.lines, vec!["infmonctl: flow-rule list: connection failed: refused"]);
}

#[test]
fn showing_a_rule() {
    let show = FlowRuleCommands::Show { target: "ab".to_string() };
    let (_, request, pending) = sent(Commands::FlowRule { command: show });
    assert!(matches!(request, Request::FlowRuleShow(p) if p.name == "ab"));
    let detail = FlowRuleDetailData {
        name: "ab".to_string(),
        fields: vec![Field::SrcIp, Field::Dscp],
        max_keys: 64,
        eviction_policy: EvictionPolicy::LruDrop,
        counters: FlowRuleCountersData { packets: 1, bytes: 2, evictions: 3, drops: 4 },
        flows: vec![FlowEntryData {
            key: vec!["Ip(10.0.0.1)".to_string(), "Dscp(1)".to_string()],
            packets: 5,
            bytes: 6,
            first_seen_ns: 7,
            last_seen_ns: 8,
        }],
    };
    let o = outcome(pending, Response::ok(ResponseData::FlowRuleDetail(detail)));
    assert_eq!(
        o.output.unwrap().print_table(),
        "Name:       ab\nFields:     srcip, dscp\nMax keys:   64\nCounters:\n  Packets:    1\n  \
         Bytes:      2\n  Evictions:  3\n  Drops:      4\nFlows (1):\n  Key: Proto(0),Proto(0)  \
         Pkts: 5  Bytes: 6\n"
    );
    let o = outcome(Pending::Shown, Response::ok_empty());
    assert_eq!(o.code, EXIT_FAILURE);
    assert_eq!(
        o.lines,
        vec!["infmonctl: flow-rule show: protocol error: unexpected response data"]
    );
    assert_eq!(field_id_to_field(&FieldId::DstPort), Field::DstPort);
}

#[test]
fn showing_totals() {
    let show = StatsCommands::Show { name: Some("ab".to_string()), top: 20, watch: Some(2) };
    let (lines, request, pending) = sent(Commands::Stats { command: show });
    assert_eq!(
        lines,
        vec![
            "infmonctl: stats show --top: not yet implemented, showing all",
            "infmonctl: stats show --watch: not yet implemented, showing once",
        ]
    );
    assert!(matches!(request, Request::StatsShow(p) if p.name.as_deref() == Some("ab")));
    let data = StatsShowData {
        flow_rules: vec![FlowRuleStatsData {
            name: "ab".to_string(),
            packets: 1,
            bytes: 2,
            evictions: 4,
            drops: 5,
            active_flows: 3,
        }],
    };
    let o = outcome(pending, Response::ok(ResponseData::StatsShow(data)));
    let want = format!(
        "{:<20} {:>12} {:>12} {:>10} {:>8} {:>8}\n{:<20} {:>12} {:>12} {:>10} {:>8} {:>8}\n",
        "RULE", "PACKETS", "BYTES", "FLOWS", "EVICT", "DROPS", "ab", 1, 2, 3, 4, 5
    );
    assert_eq!(o.output.unwrap().print_table(), want);
    let none = ResponseData::StatsShow(StatsShowData { flow_rules: vec![] });
    let o = outcome(Pending::Totals, Response::ok(none));
    match o.output {
        Some(Output::Totals(t)) => {
            assert_eq!(t.print_table(), "No flow rule stats available.\n")
        }
        other => panic!("{other:?}"),
    }
    let plain = StatsCommands::Show { name: None, top: 0, watch: None };
    assert!(sent(Commands::Stats { command: plain }).0.is_empty());
}

#[test]
fn failures_have_exit_codes() {
    let code = |e: CtlError| ctl_error_to_exit_code(&e);
    let backend = |code: i32| CtlError::Backend { code, message: String::new() };
    assert_eq!(code(CtlError::Connect(String::new())), 4);
    assert_eq!(code(backend(3)), 3);
    assert_eq!(code(backend(6)), 6);
    assert_eq!(code(backend(7)), 1);
    assert_eq!(code(CtlError::Io(String::new())), 1);
    assert_eq!(code(CtlError::Protocol(String::new())), 1);
    assert_eq!(code(CtlError::Request(String::new())), 1);
}

// ---- status

#[test]
fn status_of_the_service() {
    let s = read_status(Some("active\n"), Some("active\nrunning\n"), true);
    assert_eq!(s.systemd_state, "active/running");
    assert_eq!(s.exit_code(), EXIT_SUCCESS);
    assert_eq!(
        s.table(),
        "\u{25cf} systemd: active/running\n\u{25cf} frontend: responsive\n"
    );
    let s = read_status(Some("active\n"), Some(" odd \n"), false);
    assert_eq!(s.systemd_state, "odd");
    assert_eq!(s.exit_code(), EXIT_DEGRADED);
    let s = read_status(None, None, false);
    assert_eq!(s.systemd_state, "unknown");
    assert_eq!(s.exit_code(), EXIT_SERVICE_UNAVAILABLE);
    assert_eq!(
        s.table(),
        "\u{25cb} systemd: unknown\n\u{25cb} frontend: not responding\n"
    );
    let s = read_status(Some("inactive"), Some("inactive\r\ndead"), true);
    assert_eq!(s.systemd_state, "inactive/dead");
    assert_eq!(s.exit_code(), EXIT_SERVICE_UNAVAILABLE);
}

// ---- installing

fn walk(force: bool, answers: &[StepResult<&str>]) -> (Vec<InstallStep>, Vec<String>) {
    let (mut step, mut lines) = start_install(true);
    let mut steps = vec![step];
    for a in answers {
        let result = match a {
            StepResult::Done => StepResult::Done,
            StepResult::Missing => StepResult::Missing,
            StepResult::Refused(e) => StepResult::Refused(e.to_string()),
            StepResult::Failed(e) => StepResult::Failed(e.to_string()),
        };
        let (next, said) = next_install(step, force, result);
        step = next;
        steps.push(step);
        lines.extend(said);
    }
    (steps, lines)
}

#[test]
fn installing_needs_root() {
    let (step, lines) = start_install(false);
    assert_eq!(step, InstallStep::Exit(EXIT_PERMISSION_DENIED));
    assert_eq!(lines, vec!["infmonctl: install requires root privileges"]);
}

#[test]
fn installing_from_scratch() {
    let done = || StepResult::Done;
    let (steps, lines) = walk(
        false,
        &[
            StepResult::Missing,
            done(),
            done(),
            StepResult::Missing,
            done(),
            done(),
            done(),
            done(),
            done(),
            done(),
            done(),
            StepResult::Missing,
            done(),
            done(),
        ],
    );
    assert_eq!(
        steps,
        vec![
            InstallStep::CheckUser,
            InstallStep::CreateUser,
            InstallStep::MakeConfigDir,
            InstallStep::ProbeConfig,
            InstallStep::WriteConfig,
            InstallStep::RestrictConfig,
            InstallStep::MakeDir(Dir::State),
            InstallStep::OwnDir(Dir::State),
            InstallStep::MakeDir(Dir::Runtime),
            InstallStep::OwnDir(Dir::Runtime),
            InstallStep::ReadUnit,
            InstallStep::ProbeUnit,
            InstallStep::WriteUnit,
            InstallStep::ReloadDaemon,
            InstallStep::Exit(EXIT_SUCCESS),
        ]
    );
    assert_eq!(lines, vec!["infmonctl: install: completed successfully"]);
}

#[test]
fn installing_over_what_is_there() {
    let done = || StepResult::Done;
    let refused = || StepResult::Refused("");
    let (steps, lines) = walk(
        false,
        &[done(), done(), done(), done(), refused(), done(), done(), done(), done()],
    );
    assert_eq!(steps.last(), Some(&InstallStep::Exit(EXIT_SUCCESS)));
    assert!(!steps.contains(&InstallStep::WriteConfig));
    assert!(!steps.contains(&InstallStep::WriteUnit));
    assert_eq!(
        lines,
        vec![
            "infmonctl: install: skipping config (already exists at /etc/infmon/config.yaml; use --force to overwrite)",
            "infmonctl: install: warning: failed to chown /var/lib/infmon to infmon:infmon",
            "infmonctl: install: service unit already exists at /etc/systemd/system/infmon.service; use --force to overwrite",
            "infmonctl: install: completed successfully",
        ]
    );
    let (steps, _) = walk(true, &[done(), done(), done()]);
    assert_eq!(steps.last(), Some(&InstallStep::WriteConfig));
}

#[test]
fn installing_breaks_off() {
    let done = || StepResult::Done;
    let (steps, lines) = walk(false, &[StepResult::Missing, StepResult::Refused(" why\n")]);
    assert_eq!(steps.last(), Some(&InstallStep::Exit(EXIT_FAILURE)));
    assert_eq!(lines, vec!["infmonctl: install: failed to create user 'infmon': why"]);
    let (_, lines) = walk(false, &[StepResult::Missing, StepResult::Failed("why")]);
    assert_eq!(lines, vec!["infmonctl: install: failed to run useradd: why"]);
    let (_, lines) = walk(false, &[done(), StepResult::Failed("why")]);
    assert_eq!(lines, vec!["infmonctl: install: failed to create /etc/infmon: why"]);
    let upto = [done(), done(), StepResult::Missing, StepResult::Refused("why")];
    let (_, lines) = walk(false, &upto);
    assert_eq!(lines, vec!["infmonctl: install: failed to serialize default config: why"]);
    let upto = [done(), done(), StepResult::Missing, StepResult::Failed("why")];
    let (_, lines) = walk(false, &upto);
    assert_eq!(lines, vec!["infmonctl: install: failed to write /etc/infmon/config.yaml: why"]);
    let upto = [
        done(),
        done(),
        StepResult::Missing,
        done(),
        StepResult::Failed("why"),
        StepResult::Failed("full"),
    ];
    let (_, lines) = walk(false, &upto);
    assert_eq!(
        lines,
        vec![
            "infmonctl: install: warning: failed to set permissions on /etc/infmon/config.yaml: why",
            "infmonctl: install: failed to create /var/lib/infmon: full",
        ]
    );
}

#[test]
fn unit_file_troubles() {
    let next = |step: InstallStep, r: StepResult| next_install(step, false, r);
    let ok = InstallStep::Exit(EXIT_SUCCESS);
    let (step, lines) = next(InstallStep::ReadUnit, StepResult::Missing);
    assert_eq!(step, ok);
    assert_eq!(
        lines[0],
        "infmonctl: install: systemd unit file not found; skipping service installation (you can install it manually)"
    );
    let (step, lines) = next(InstallStep::WriteUnit, StepResult::Failed("why".to_string()));
    assert_eq!(step, InstallStep::Exit(EXIT_FAILURE));
    assert_eq!(
        lines,
        vec!["infmonctl: install: failed to write /etc/systemd/system/infmon.service: why"]
    );
    let (step, lines) = next(InstallStep::ReloadDaemon, StepResult::Refused(String::new()));
    assert_eq!(step, ok);
    assert_eq!(
        lines[0],
        "infmonctl: install: warning: systemctl daemon-reload failed; the new unit file may not be recognized until a manual reload"
    );
    let (_, lines) = next(InstallStep::ReloadDaemon, StepResult::Failed("why".to_string()));
    assert_eq!(lines[0], "infmonctl: install: warning: daemon-reload: why");
    let (step, lines) =
        next(InstallStep::OwnDir(Dir::Runtime), StepResult::Failed("why".to_string()));
    assert_eq!(step, InstallStep::ReadUnit);
    assert_eq!(lines, vec!["infmonctl: install: warning: chown /run/infmon: why"]);
}

#[test]
fn installed_configuration() {
    let c = default_config();
    assert_eq!(c.frontend.unwrap().polling_interval_ms, 1000);
    assert!(c.flow_rules.is_empty());
    assert!(c.exporters.is_none());
    assert_eq!(
        config_file("a: 1\n"),
        "# InFMon default configuration\n# See https://github.com/r12f/InFMon for documentation\n\na: 1\n"
    );
}
