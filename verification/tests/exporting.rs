//! Exporters in general: their settings, their errors and their threads.

use infmon::config::model::{
    Config, ExporterEntry, ExtraValue, FrontendConfig, LogFileConfig, LogLevel, LogType,
    LoggingConfig, Rotation,
};
use infmon::duration::Duration;
use infmon::frontend::exporter::{
    channel_capacity, find_factory, validate_registrations, ConfigError, Dispatch, Exporter,
    ExporterConfig, ExporterError, ExporterMetrics, Failure, Next, Outcome,
};
use infmon::frontend::lifecycle::{
    check_reload, entry_to_exporter_config, exporter_factory, exporter_not_made,
    exporter_not_started, is_span, parse_duration, plan_start, probe_step, reload_failure,
    setting_string, start_failure, startup_timed_out, unreachable_backend, LifecycleError,
    LoadFailure, ProbeAction, ProbeEvent,
};
use infmon::frontend::logging::{init_logging, level_name, plan_logging, LogPlan};
use infmon::pairs::Pairs;

fn kinds(names: &[&str]) -> Vec<String> {
    names.iter().map(|s| s.to_string()).collect()
}

/// A minimal test exporter.
struct CountingExporter {
    instance_name: String,
}

impl CountingExporter {
    fn new(name: &str) -> Self {
        Self { instance_name: name.to_string() }
    }
}

impl Exporter for CountingExporter {
    fn kind(&self) -> &'static str {
        "test"
    }
    fn name(&self) -> &str {
        &self.instance_name
    }
    fn reload(&self, _cfg: &ExporterConfig) -> Result<(), ConfigError> {
        Ok(())
    }
}

#[test]
fn counting_exporter_trait_methods() {
    let exp = CountingExporter::new("my-exp");
    assert_eq!(exp.kind(), "test");
    assert_eq!(exp.name(), "my-exp");
    assert!(exp.reload(&ExporterConfig::default()).is_ok());
    assert!(exp.metrics().is_none());
}

#[test]
fn find_factory_returns_none_for_unknown() {
    assert!(find_factory(&kinds(&["otlp"]), "nonexistent_exporter_type").is_none());
}

#[test]
fn first_registration_serves() {
    let k = kinds(&["a", "otlp", "a", "otlp", "a"]);
    assert_eq!(find_factory(&k, "otlp"), Some(1));
    assert_eq!(find_factory(&k, "a"), Some(0));
    assert_eq!(validate_registrations(&k), vec!["a", "otlp", "a"]);
    assert!(validate_registrations(&kinds(&["a", "b"])).is_empty());
}

#[test]
fn exporter_config_default_values() {
    let cfg = ExporterConfig::default();
    assert_eq!(cfg.kind, "");
    assert_eq!(cfg.name, "");
    assert_eq!(cfg.queue_depth, 2);
    assert_eq!(cfg.export_timeout, Duration::from_millis(800));
    assert!(cfg.extra.is_empty());
}

#[test]
fn exporter_error_display_transient() {
    let e = ExporterError::Transient("network down".to_string());
    assert_eq!(e.message(), "transient: network down");
}

#[test]
fn exporter_error_display_permanent() {
    let e = ExporterError::Permanent("bad auth".to_string());
    assert_eq!(e.message(), "permanent: bad auth");
}

#[test]
fn exporter_error_display_timeout() {
    let e: ExporterError = ExporterError::Timeout;
    assert_eq!(e.message(), "timeout");
}

#[test]
fn config_error_display() {
    let e = ConfigError("missing field".to_string());
    assert_eq!(e.message(), "config error: missing field");
}

#[test]
fn queues_hold_at_least_one() {
    assert_eq!(channel_capacity(0), 1);
    assert_eq!(channel_capacity(1), 1);
    assert_eq!(channel_capacity(4), 4);
}

#[test]
fn threads_go_on_after_transient_failures() {
    let mut d = Dispatch::new();
    let mut m = ExporterMetrics::default();
    let mut pauses = Vec::new();
    for o in [Outcome::Transient, Outcome::SelfTimeout, Outcome::DeadlineExceeded] {
        let (failure, next) = d.step(o);
        m.count_failure(failure);
        match next {
            Next::Sleep(p) => pauses.push(p.as_millis()),
            other => panic!("{other:?}"),
        }
    }
    assert_eq!(pauses, vec![100, 200, 400]);
    assert_eq!(m.batches_failed_transient, 3);
    assert_eq!(d.step(Outcome::Sent), (Failure::Nothing, Next::Receive));
    assert_eq!(d, Dispatch::new());
    let (failure, next) = d.step(Outcome::Permanent);
    m.count_failure(failure);
    assert_eq!(next, Next::Stop);
    assert_eq!(m.batches_failed_non_retryable, 1);
}

#[test]
fn pauses_grow_to_thirty_seconds() {
    let mut d = Dispatch::new();
    let mut last = Duration::from_secs(0);
    for _ in 0..20 {
        if let (_, Next::Sleep(p)) = d.step(Outcome::Transient) {
            assert!(p.nanos >= last.nanos);
            last = p;
        }
    }
    assert_eq!(last, Duration::from_secs(30));
}

// ---- time spans

#[test]
fn parse_duration_ms() {
    assert_eq!(parse_duration("800ms"), Some(Duration::from_millis(800)));
}

#[test]
fn parse_duration_s() {
    assert_eq!(parse_duration("5s"), Some(Duration::from_secs(5)));
}

#[test]
fn parse_duration_m() {
    assert_eq!(parse_duration("2m"), Some(Duration::from_secs(120)));
}

#[test]
fn parse_duration_h() {
    assert_eq!(parse_duration("1h"), Some(Duration::from_secs(3600)));
}

#[test]
fn parse_duration_bare_number() {
    assert_eq!(parse_duration("1000"), Some(Duration::from_millis(1000)));
}

#[test]
fn parse_duration_invalid() {
    assert_eq!(parse_duration("abc"), None);
}

#[test]
fn parse_duration_zero_ms() {
    assert_eq!(parse_duration("0ms"), Some(Duration::from_millis(0)));
}

#[test]
fn parse_duration_zero_bare() {
    assert_eq!(parse_duration("0"), Some(Duration::from_millis(0)));
}

#[test]
fn parse_duration_whitespace_trimmed() {
    assert_eq!(parse_duration("  5s  "), Some(Duration::from_secs(5)));
}

#[test]
fn parse_duration_large_value() {
    assert_eq!(parse_duration("86400s"), Some(Duration::from_secs(86400)));
}

#[test]
fn parse_duration_hours() {
    assert_eq!(parse_duration("24h"), Some(Duration::from_secs(24 * 3600)));
}

#[test]
fn parse_duration_empty_string() {
    // Empty string after trim has no digits, treated as invalid
    assert_eq!(parse_duration(""), None);
}

#[test]
fn parse_duration_negative_is_invalid() {
    assert_eq!(parse_duration("-5s"), None);
}

#[test]
fn parse_duration_float_is_invalid() {
    assert_eq!(parse_duration("1.5s"), None);
}

#[test]
fn parse_duration_unknown_suffix() {
    assert_eq!(parse_duration("100x"), None);
}

#[test]
fn spans_of_seconds_may_be_longer_than_spans_of_milliseconds() {
    assert!(is_span("18446744073709551615s"));
    assert_eq!(
        parse_duration("18446744073709551615s"),
        Some(Duration::from_secs(u64::MAX))
    );
    assert!(!is_span("18446744073709551615h"));
    assert!(!is_span("18446744073709551615m"));
}

// ---- exporter entries

fn entry(name: &str, timeout: &str, extra: Pairs<ExtraValue>) -> ExporterEntry {
    ExporterEntry {
        kind: "otlp".to_string(),
        name: name.to_string(),
        queue_depth: 2,
        export_timeout: timeout.to_string(),
        on_overflow: "drop_newest".to_string(),
        extra,
    }
}

#[test]
fn entry_to_config_basic() {
    let entry = entry("primary", "800ms", Pairs::new());
    let cfg = entry_to_exporter_config(&entry);
    assert_eq!(cfg.kind, "otlp");
    assert_eq!(cfg.name, "primary");
    assert_eq!(cfg.queue_depth, 2);
    assert_eq!(cfg.export_timeout, Duration::from_millis(800));
}

#[test]
fn entry_to_config_with_extra_fields() {
    let mut extra = Pairs::new();
    extra.insert(
        "endpoint".to_string(),
        ExtraValue::Text("http://localhost:4317".to_string()),
    );
    let thirty = serde_yaml::Value::Number(serde_yaml::Number::from(30));
    extra.insert(
        "timeout".to_string(),
        ExtraValue::Yaml(serde_yaml::to_string(&thirty).unwrap()),
    );

    let mut entry = entry("with-extras", "5s", extra);
    entry.queue_depth = 4;
    let cfg = entry_to_exporter_config(&entry);
    assert_eq!(cfg.kind, "otlp");
    assert_eq!(cfg.name, "with-extras");
    assert_eq!(cfg.queue_depth, 4);
    assert_eq!(cfg.export_timeout, Duration::from_secs(5));
    assert_eq!(cfg.extra.get("endpoint").unwrap(), "http://localhost:4317");
    assert_eq!(cfg.extra.get("timeout").unwrap(), "30");
}

#[test]
fn entry_to_config_invalid_timeout_uses_default() {
    let mut entry = entry("bad-timeout", "invalid", Pairs::new());
    entry.kind = "test".to_string();
    let cfg = entry_to_exporter_config(&entry);
    // Should fallback to 800ms
    assert_eq!(cfg.export_timeout, Duration::from_millis(800));
}

#[test]
fn settings_are_written_as_yaml() {
    let mut extra = Pairs::new();
    extra.insert("list".to_string(), ExtraValue::Yaml("{b: [1, 'x'],   a: null}".to_string()));
    extra.insert("broken".to_string(), ExtraValue::Yaml("[".to_string()));
    let cfg = entry_to_exporter_config(&entry("e1", "1s", extra));
    assert_eq!(cfg.extra.get("list").unwrap(), "b:\n- 1\n- x\na: null");
    assert_eq!(cfg.extra.get("broken").unwrap(), "");
    let v = ExtraValue::Yaml("1".to_string());
    assert_eq!(setting_string(&v, Some(" 1\n")), "1");
    assert_eq!(setting_string(&v, None), "");
    assert_eq!(setting_string(&ExtraValue::Text(" t ".to_string()), Some("u")), " t ");
}

// ---- starting and reloading

#[test]
fn lifecycle_error_display() {
    assert_eq!(
        LifecycleError::ConfigError("bad yaml".to_string()).message(),
        "config error: bad yaml"
    );
    assert_eq!(
        LifecycleError::BackendUnreachable("timeout".to_string()).message(),
        "backend unreachable: timeout"
    );
    assert_eq!(
        LifecycleError::UnknownExporter("foo".to_string()).message(),
        "unknown exporter type: foo"
    );
    assert_eq!(
        LifecycleError::ExporterInit("fail".to_string()).message(),
        "exporter init failed: fail"
    );
    assert_eq!(
        LifecycleError::ReloadFailed("oops".to_string()).message(),
        "reload failed: oops"
    );
}

#[test]
fn reload_failed_error_contains_reason() {
    let err = LifecycleError::ReloadFailed("cannot read config: No such file".to_string());
    assert!(err.message().contains("cannot read config"));
}

#[test]
fn load_failures() {
    let read = || LoadFailure::Read { path: "/c".to_string(), reason: "gone".to_string() };
    let parse = || LoadFailure::Parse("odd".to_string());
    assert_eq!(start_failure(read()).message(), "config error: cannot read /c: gone");
    assert_eq!(start_failure(parse()).message(), "config error: YAML parse error: odd");
    assert_eq!(reload_failure(read()).message(), "reload failed: cannot read config: gone");
    assert_eq!(reload_failure(parse()).message(), "reload failed: YAML parse error: odd");
}

fn config(frontend: Option<FrontendConfig>, exporters: Option<Vec<ExporterEntry>>) -> Config {
    Config { frontend, flow_rules: vec![], exporters, logging: None }
}

#[test]
fn starts_are_planned() {
    let plan = plan_start(&config(None, None)).unwrap().unwrap();
    assert_eq!(plan.stats_socket, "/run/vpp/stats.sock");
    assert_eq!(plan.control_socket, "/run/infmon/frontend.sock");
    assert_eq!(plan.startup_timeout, Duration::from_secs(5));
    assert_eq!(plan.interval, Duration::from_millis(1000));
    assert!(plan.exporters.is_empty());

    let f = FrontendConfig {
        polling_interval_ms: 100,
        vpp_stats_socket: "/tmp/s.sock".to_string(),
        startup_timeout: "100ms".to_string(),
        ..FrontendConfig::default()
    };
    let mut extra = Pairs::new();
    extra.insert("endpoint".to_string(), ExtraValue::Text("c:4317".to_string()));
    let c = config(Some(f), Some(vec![entry("main", "1s", extra)]));
    let plan = plan_start(&c).unwrap().unwrap();
    assert_eq!(plan.stats_socket, "/tmp/s.sock");
    assert_eq!(plan.startup_timeout, Duration::from_millis(100));
    assert_eq!(plan.interval, Duration::from_millis(100));
    assert_eq!(plan.exporters.len(), 1);
    assert_eq!(plan.exporters[0].extra.get("endpoint").unwrap(), "c:4317");
    assert_eq!(check_reload(&c), Some(Ok(())));
}

#[test]
fn starts_and_reloads_check_the_configuration() {
    let f = FrontendConfig { polling_interval_ms: 0, ..FrontendConfig::default() };
    let c = config(Some(f), None);
    assert_eq!(
        plan_start(&c).unwrap().unwrap_err().message(),
        "config error: validation error: frontend: polling_interval_ms must be > 0"
    );
    assert_eq!(
        check_reload(&c).unwrap().unwrap_err().message(),
        "reload failed: validation error: frontend: polling_interval_ms must be > 0"
    );
    let long = "18446744073709551615h".to_string();
    let f = FrontendConfig { startup_timeout: long, ..FrontendConfig::default() };
    let c = config(Some(f), None);
    assert!(plan_start(&c).is_none());
    assert!(check_reload(&c).is_none());
}

#[test]
fn backend_is_tried_until_the_time_is_up() {
    let t = Duration::from_millis(100);
    let at = |ms: u64| probe_step(t, ProbeEvent::Elapsed(Duration::from_millis(ms)));
    assert_eq!(at(0), ProbeAction::Probe);
    assert_eq!(at(99), ProbeAction::Probe);
    assert_eq!(at(100), ProbeAction::GiveUp);
    assert_eq!(probe_step(t, ProbeEvent::Probed(true)), ProbeAction::Ready);
    assert_eq!(
        probe_step(t, ProbeEvent::Probed(false)),
        ProbeAction::Sleep(Duration::from_millis(200))
    );
    assert_eq!(
        unreachable_backend("/s", "1s").message(),
        "backend unreachable: stats socket at /s not reachable within 1s"
    );
    assert_eq!(
        startup_timed_out("/s", Duration::from_millis(1500)).message(),
        "backend unreachable: stats socket at /s not reachable within 1.5s"
    );
    assert_eq!(
        startup_timed_out("/s", t).message(),
        "backend unreachable: stats socket at /s not reachable within 100ms"
    );
}

#[test]
fn exporters_that_cannot_be_made() {
    let cfg = ExporterConfig { kind: "kafka".to_string(), ..ExporterConfig::default() };
    assert_eq!(
        exporter_factory(&kinds(&["otlp"]), &cfg),
        Err(LifecycleError::UnknownExporter("kafka".to_string()))
    );
    assert_eq!(exporter_factory(&kinds(&["otlp", "kafka"]), &cfg), Ok(1));
    assert_eq!(exporter_not_made("main", "why").message(), "exporter init failed: main: why");
    assert_eq!(
        exporter_not_started("main", "why").message(),
        "exporter init failed: spawn main: why"
    );
}

// ---- logging

#[test]
fn test_init_logging_file_missing_config() {
    let config = LoggingConfig {
        level: LogLevel::Info,
        destination: LogType::File,
        file: None,
    };
    let result = init_logging(&config);
    assert!(result.is_err());
    let err = result.unwrap_err();
    assert!(err.contains("no file config"), "unexpected error: {err}");
}

#[test]
fn test_file_destination_with_config() {
    let config = LoggingConfig {
        level: LogLevel::Debug,
        destination: LogType::File,
        file: Some(LogFileConfig {
            path: "/tmp/infmon/test.log".to_string(),
            rotation: Rotation::Never,
        }),
    };
    assert_eq!(
        init_logging(&config),
        Ok(LogPlan::File {
            dir: "/tmp/infmon".to_string(),
            filename: "test.log".to_string(),
            rotation: Rotation::Never,
        })
    );
}

#[test]
fn log_files_have_a_directory_and_a_name() {
    let config = LoggingConfig {
        level: LogLevel::Debug,
        destination: LogType::File,
        file: Some(LogFileConfig { path: "x.log".to_string(), rotation: Rotation::Hourly }),
    };
    let plan = |dir: &str, filename: &str| LogPlan::File {
        dir: dir.to_string(),
        filename: filename.to_string(),
        rotation: Rotation::Hourly,
    };
    assert_eq!(plan_logging(&config, Some(""), Some("x.log")), Ok(plan(".", "x.log")));
    assert_eq!(plan_logging(&config, Some("/var/log"), Some("x")), Ok(plan("/var/log", "x")));
    assert_eq!(plan_logging(&config, None, None), Ok(plan(".", "infmon.log")));
    assert_eq!(init_logging(&config), Ok(plan(".", "x.log")));
    let at = |path: &str| LoggingConfig {
        level: LogLevel::Debug,
        destination: LogType::File,
        file: Some(LogFileConfig { path: path.to_string(), rotation: Rotation::Hourly }),
    };
    assert_eq!(init_logging(&at("/var/log/infmon/x.log")), Ok(plan("/var/log/infmon", "x.log")));
    assert_eq!(init_logging(&at("/x.log")), Ok(plan("/", "x.log")));
    assert_eq!(init_logging(&at("/var/log/")), Ok(plan("/var", "log")));
    assert_eq!(init_logging(&at("logs/..")), Ok(plan("logs", "infmon.log")));
    assert_eq!(init_logging(&at("/")), Ok(plan(".", "infmon.log")));
    assert_eq!(init_logging(&at("")), Ok(plan(".", "infmon.log")));
    let syslog = LoggingConfig {
        level: LogLevel::Warn,
        destination: LogType::Syslog,
        file: None,
    };
    assert_eq!(init_logging(&syslog), Ok(LogPlan::Syslog));
    assert_eq!(level_name(LogLevel::Warn), "warn");
    assert_eq!(level_name(LogLevel::Trace), "trace");
}
