//! Flow rules, their validation and the set of those in force.

use infmon::config::crud::{CrudError, FlowRuleSet, FLOW_RULE_SET_MAX};
use infmon::config::model::{
    Config, EvictionPolicy, ExporterEntry, ExtraValue, Field, FlowRule, FrontendConfig,
};
use infmon::config::parse::{load_config, ConfigError, ParseError};
use infmon::config::timeout::{is_countable, parse_duration_str};
use infmon::config::validate::{
    is_valid_name, try_validate_config, validate_config, validate_exporter, validate_frontend,
    validate_rule, ValidationError, MAX_KEYS_BUDGET,
};
use infmon::pairs::Pairs;

fn make_rule(name: &str, fields: Vec<Field>, max_keys: u32) -> FlowRule {
    FlowRule {
        name: name.to_string(),
        fields,
        max_keys,
        eviction_policy: EvictionPolicy::LruDrop,
    }
}

fn make_entry(name: &str, endpoint: ExtraValue) -> ExporterEntry {
    let mut extra = Pairs::new();
    extra.insert("endpoint".to_string(), endpoint);
    ExporterEntry {
        kind: "otlp".to_string(),
        name: name.to_string(),
        queue_depth: 2,
        export_timeout: "800ms".to_string(),
        on_overflow: "drop_newest".to_string(),
        extra,
    }
}

fn text(s: &str) -> ExtraValue {
    ExtraValue::Text(s.to_string())
}

fn rules_only(flow_rules: Vec<FlowRule>) -> Config {
    Config { frontend: None, flow_rules, exporters: None, logging: None }
}

// ---- the set of rules

#[test]
fn crud_add_list_show() {
    let mut set = FlowRuleSet::new(MAX_KEYS_BUDGET);
    let rule = make_rule("ab", vec![Field::SrcIp], 10);
    set.add(rule.clone()).unwrap();
    assert_eq!(set.list().len(), 1);
    assert_eq!(set.show("ab").unwrap(), &rule);
}

#[test]
fn crud_rm() {
    let mut set = FlowRuleSet::new(MAX_KEYS_BUDGET);
    set.add(make_rule("ab", vec![Field::SrcIp], 10)).unwrap();
    let removed = set.rm("ab").unwrap();
    assert_eq!(removed.name, "ab");
    assert!(set.list().is_empty());
}

#[test]
fn crud_add_duplicate_fails() {
    let mut set = FlowRuleSet::new(MAX_KEYS_BUDGET);
    set.add(make_rule("ab", vec![Field::SrcIp], 10)).unwrap();
    assert!(matches!(
        set.add(make_rule("ab", vec![Field::DstIp], 10)),
        Err(CrudError::NameExists(_))
    ));
}

#[test]
fn crud_rm_not_found() {
    let mut set = FlowRuleSet::new(MAX_KEYS_BUDGET);
    assert!(matches!(set.rm("nope"), Err(CrudError::NotFound(_))));
}

#[test]
fn crud_budget_enforcement() {
    let mut set = FlowRuleSet::new(100);
    set.add(make_rule("ab", vec![Field::SrcIp], 90)).unwrap();
    assert!(matches!(
        set.add(make_rule("cd", vec![Field::DstIp], 20)),
        Err(CrudError::BudgetExceeded { .. })
    ));
}

#[test]
fn crud_set_full() {
    let mut set = FlowRuleSet::new(MAX_KEYS_BUDGET);
    for i in 0..FLOW_RULE_SET_MAX {
        set.add(make_rule(&format!("rule-{i:02}"), vec![Field::SrcIp], 1))
            .unwrap();
    }
    assert!(matches!(
        set.add(make_rule("overflow", vec![Field::SrcIp], 1)),
        Err(CrudError::SetFull { .. })
    ));
}

#[test]
fn add_is_undone_by_rm() {
    let mut set = FlowRuleSet::new(1000);
    set.add(make_rule("ab", vec![Field::SrcIp], 10)).unwrap();
    let rule = make_rule("cd", vec![Field::DstIp], 20);
    set.add(rule.clone()).unwrap();
    assert_eq!(set.used_keys(), 30);
    assert_eq!(set.rm("cd").unwrap(), rule);
    assert_eq!(set.list().len(), 1);
    assert_eq!(set.used_keys(), 10);
    assert!(set.show("cd").is_err());
    assert!(set.show("ab").is_ok());
}

#[test]
fn crud_error_messages() {
    let mut set = FlowRuleSet::new(100);
    set.add(make_rule("ab", vec![Field::SrcIp], 90)).unwrap();
    assert_eq!(
        set.add(make_rule("cd", vec![Field::SrcIp], 20)).unwrap_err().message(),
        "budget exceeded: adding 20 keys would exceed budget 100 (used: 90)"
    );
    assert_eq!(
        set.add(make_rule("ab", vec![Field::SrcIp], 1)).unwrap_err().message(),
        "flow-rule name already exists: ab"
    );
    assert_eq!(set.rm("zz").unwrap_err().message(), "flow-rule not found: zz");
    assert_eq!(
        CrudError::SetFull { max: 16 }.message(),
        "flow-rule set is full (max 16)"
    );
    assert_eq!(
        set.add(make_rule("x", vec![Field::SrcIp], 1)).unwrap_err().message(),
        "validation error: flow-rule name 'x' is invalid: must match ^[a-z0-9][a-z0-9_-]{1,30}$"
    );
}

// ---- single rules

#[test]
fn names_of_two_to_thirty_one_characters() {
    assert!(is_valid_name("ab"));
    assert!(is_valid_name("0-_"));
    assert!(is_valid_name(&"a".repeat(31)));
    assert!(!is_valid_name("a"));
    assert!(!is_valid_name(&"a".repeat(32)));
    assert!(!is_valid_name("-a"));
    assert!(!is_valid_name("aB"));
    assert!(!is_valid_name("a\u{e9}"));
    assert!(!is_valid_name(""));
}

#[test]
fn rule_errors() {
    assert_eq!(validate_rule(&make_rule("ok", vec![Field::SrcIp], 1)), Ok(()));
    assert_eq!(
        validate_rule(&make_rule("Bad", vec![], 0)),
        Err(ValidationError::InvalidName { name: "Bad".to_string() })
    );
    assert_eq!(
        validate_rule(&make_rule("ok", vec![], 0)),
        Err(ValidationError::EmptyFields { name: "ok".to_string() })
    );
    assert_eq!(
        validate_rule(&make_rule("ok", vec![Field::Dscp, Field::SrcIp, Field::Dscp], 0)),
        Err(ValidationError::DuplicateField { name: "ok".to_string(), field: Field::Dscp })
    );
    assert_eq!(
        validate_rule(&make_rule("ok", vec![Field::Dscp], 0)),
        Err(ValidationError::ZeroMaxKeys { name: "ok".to_string() })
    );
    assert_eq!(
        validate_rule(&make_rule("ok", vec![Field::Dscp], MAX_KEYS_BUDGET + 1)),
        Err(ValidationError::MaxKeysExceedsBudget {
            name: "ok".to_string(),
            max_keys: 16_777_217
        })
    );
}

#[test]
fn every_field_at_once_fits_a_key() {
    let all = vec![
        Field::SrcIp,
        Field::DstIp,
        Field::IpProto,
        Field::Dscp,
        Field::MirrorSrcIp,
        Field::SrcPort,
        Field::DstPort,
    ];
    let width: u32 = all.iter().map(|f| f.width()).sum();
    assert_eq!(width, 54);
    assert_eq!(validate_rule(&make_rule("all", all, 1)), Ok(()));
}

#[test]
fn rule_error_messages() {
    let e = ValidationError::DuplicateField { name: "r1".to_string(), field: Field::SrcIp };
    assert_eq!(e.message(), "flow-rule 'r1': duplicate field SrcIp");
    let e = ValidationError::MaxKeysExceedsBudget { name: "r1".to_string(), max_keys: 20_000_000 };
    assert_eq!(
        e.message(),
        "flow-rule 'r1': max_keys 20000000 exceeds per-rule budget 16777216"
    );
    let e = ValidationError::KeyWidthExceeded { name: "r1".to_string(), width: 65 };
    assert_eq!(e.message(), "flow-rule 'r1': key width 65 exceeds maximum 64");
    let e = ValidationError::InvalidStartupTimeout { value: "a\"b\n".to_string() };
    assert_eq!(e.message(), "frontend: invalid startup_timeout format: \"a\\\"b\\n\"");
}

// ---- time spans

#[test]
fn spans_in_milliseconds() {
    assert_eq!(parse_duration_str("800ms"), Some(800));
    assert_eq!(parse_duration_str(" 5 s "), Some(5000));
    assert_eq!(parse_duration_str("2m"), Some(120_000));
    assert_eq!(parse_duration_str("1h"), Some(3_600_000));
    assert_eq!(parse_duration_str("1000"), Some(1000));
    assert_eq!(parse_duration_str("+7s"), Some(7000));
    assert_eq!(parse_duration_str("+7"), None);
    assert_eq!(parse_duration_str(""), None);
    assert_eq!(parse_duration_str("-5s"), None);
    assert_eq!(parse_duration_str("1.5s"), None);
    assert_eq!(parse_duration_str("99999999999999999999"), None);
    assert!(is_countable("18446744073709551615ms"));
    assert!(!is_countable("18446744073709551615s"));
}

// ---- the frontend section

#[test]
fn frontend_errors() {
    let mut f = FrontendConfig::default();
    assert_eq!(validate_frontend(&f), Ok(()));
    f.startup_timeout = "0s".to_string();
    assert_eq!(validate_frontend(&f), Err(ValidationError::ZeroStartupTimeout));
    f.startup_timeout = "soon".to_string();
    assert_eq!(
        validate_frontend(&f),
        Err(ValidationError::InvalidStartupTimeout { value: "soon".to_string() })
    );
    f.shutdown_grace_ms = 0;
    assert_eq!(validate_frontend(&f), Err(ValidationError::ZeroShutdownGrace));
    f.polling_interval_ms = 0;
    assert_eq!(validate_frontend(&f), Err(ValidationError::ZeroPollingInterval));
}

// ---- exporter entries

#[test]
fn exporter_errors() {
    assert_eq!(validate_exporter(&make_entry("main", text("http://c:4317")), 0), Ok(()));
    let name = || "main".to_string();

    let mut e = make_entry("", text("x"));
    assert_eq!(validate_exporter(&e, 3), Err(ValidationError::EmptyExporterName { index: 3 }));
    e.name = "Main".to_string();
    assert_eq!(
        validate_exporter(&e, 0),
        Err(ValidationError::InvalidExporterName { name: "Main".to_string() })
    );
    e = make_entry("main", text("x"));
    e.kind = String::new();
    assert_eq!(validate_exporter(&e, 0), Err(ValidationError::EmptyExporterType { name: name() }));
    e.kind = "kafka".to_string();
    let err = validate_exporter(&e, 0).unwrap_err();
    assert_eq!(err.message(), "exporter 'main': unknown type 'kafka' (known: otlp)");
    e = make_entry("main", text("x"));
    e.queue_depth = 0;
    assert_eq!(validate_exporter(&e, 0), Err(ValidationError::ZeroQueueDepth { name: name() }));
    e.queue_depth = 10_001;
    assert_eq!(
        validate_exporter(&e, 0).unwrap_err().message(),
        "exporter 'main': queue_depth 10001 exceeds maximum 10000"
    );
    e = make_entry("main", text("x"));
    e.export_timeout = "0".to_string();
    assert_eq!(validate_exporter(&e, 0), Err(ValidationError::ZeroExportTimeout { name: name() }));
    e.export_timeout = "later".to_string();
    assert_eq!(
        validate_exporter(&e, 0).unwrap_err().message(),
        "exporter 'main': invalid export_timeout format: \"later\""
    );
    e = make_entry("main", text(""));
    assert_eq!(
        validate_exporter(&e, 0),
        Err(ValidationError::MissingOtlpEndpoint { name: name() })
    );
    e = make_entry("main", text("x"));
    e.on_overflow = "block".to_string();
    assert_eq!(
        validate_exporter(&e, 0).unwrap_err().message(),
        "exporter 'main': unknown on_overflow policy 'block' (valid: drop_newest)"
    );
}

#[test]
fn endpoint_is_read_as_a_yaml_string() {
    // A tagged string is a string; a number is none.
    let tagged = make_entry("main", ExtraValue::Yaml("!here 'c:4317'".to_string()));
    assert_eq!(validate_exporter(&tagged, 0), Ok(()));
    let empty = make_entry("main", ExtraValue::Yaml("''".to_string()));
    assert!(matches!(
        validate_exporter(&empty, 0),
        Err(ValidationError::MissingOtlpEndpoint { .. })
    ));
    let number = make_entry("main", ExtraValue::Yaml("4317".to_string()));
    assert!(matches!(
        validate_exporter(&number, 0),
        Err(ValidationError::MissingOtlpEndpoint { .. })
    ));
}

// ---- whole configurations

#[test]
fn config_errors() {
    let a = || make_rule("ab", vec![Field::SrcIp], 1);
    assert_eq!(validate_config(&rules_only(vec![a()])), Ok(()));
    assert_eq!(
        validate_config(&rules_only(vec![a(), a()])),
        Err(ValidationError::DuplicateName("ab".to_string()))
    );
    let many: Vec<FlowRule> =
        (0..17).map(|i| make_rule(&format!("r{i:02}"), vec![Field::SrcIp], 1)).collect();
    assert_eq!(
        validate_config(&rules_only(many)),
        Err(ValidationError::TooManyRules { count: 17, max: 16 })
    );
    let heavy = vec![
        make_rule("ab", vec![Field::SrcIp], MAX_KEYS_BUDGET),
        make_rule("cd", vec![Field::SrcIp], 1),
    ];
    assert_eq!(
        validate_config(&rules_only(heavy)),
        Err(ValidationError::BudgetExceeded { total: 16_777_217 })
    );
    let mut c = rules_only(vec![]);
    c.exporters = Some(vec![make_entry("main", text("x")), make_entry("main", text("y"))]);
    assert_eq!(
        validate_config(&c),
        Err(ValidationError::DuplicateExporterName("main".to_string()))
    );
    // The rules come before the exporters, the frontend before both.
    c.flow_rules = vec![a(), a()];
    c.frontend = Some(FrontendConfig { polling_interval_ms: 0, ..FrontendConfig::default() });
    assert_eq!(validate_config(&c), Err(ValidationError::ZeroPollingInterval));
    c.frontend = None;
    assert_eq!(validate_config(&c), Err(ValidationError::DuplicateName("ab".to_string())));
}

#[test]
fn config_with_a_span_too_long_to_count() {
    let mut c = rules_only(vec![]);
    let long = "18446744073709551615h".to_string();
    c.frontend = Some(FrontendConfig { startup_timeout: long, ..FrontendConfig::default() });
    assert_eq!(try_validate_config(&c), None);
    assert!(load_config(Ok(c)).is_none());
}

#[test]
fn configs_are_taken_whole_or_not_at_all() {
    let good = rules_only(vec![
        make_rule("ab", vec![Field::SrcIp], 1),
        make_rule("cd", vec![Field::DstIp], 2),
    ]);
    let set = FlowRuleSet::from_config(&good).unwrap();
    assert_eq!(set.list().len(), 2);
    let bad = rules_only(vec![
        make_rule("ab", vec![Field::SrcIp], 1),
        make_rule("cd", vec![], 2),
    ]);
    assert!(matches!(
        FlowRuleSet::from_config(&bad),
        Err(CrudError::InvalidSpec(ValidationError::EmptyFields { .. }))
    ));
    let loaded = load_config(Ok(good)).unwrap();
    assert_eq!(loaded.unwrap().list().len(), 2);
    let failed = load_config(Err(ParseError::Io("gone".to_string()))).unwrap();
    assert!(matches!(failed, Err(ConfigError::Parse(ParseError::Io(_)))));
}

// ---- configurations as they are written

const VALID_YAML: &str = r#"
flow-rules:
  - name: by_5tuple_l3
    fields: [mirror_src_ip, src_ip, dst_ip, ip_proto, dscp]
    max_keys: 1048576
    eviction_policy: lru_drop
  - name: by_dscp
    fields: [dscp]
    max_keys: 64
    eviction_policy: lru_drop
"#;

fn field_of(name: &str) -> Field {
    match name {
        "src_ip" => Field::SrcIp,
        "dst_ip" => Field::DstIp,
        "ip_proto" => Field::IpProto,
        "dscp" => Field::Dscp,
        "mirror_src_ip" => Field::MirrorSrcIp,
        other => panic!("no field: {other}"),
    }
}

fn string_at(v: &serde_yaml::Value, key: &str) -> String {
    v.get(key).and_then(|x| x.as_str()).unwrap().to_string()
}

fn number_at(v: &serde_yaml::Value, key: &str) -> u64 {
    v.get(key).and_then(|x| x.as_u64()).unwrap()
}

fn parse_yaml(source: &str) -> Config {
    let doc: serde_yaml::Value = serde_yaml::from_str(source).unwrap();
    let flow_rules = doc
        .get("flow-rules")
        .and_then(|x| x.as_sequence())
        .unwrap()
        .iter()
        .map(|r| {
            let fields = r
                .get("fields")
                .and_then(|x| x.as_sequence())
                .unwrap()
                .iter()
                .map(|f| field_of(f.as_str().unwrap()))
                .collect();
            make_rule(&string_at(r, "name"), fields, number_at(r, "max_keys") as u32)
        })
        .collect();
    let frontend = doc.get("frontend").map(|f| FrontendConfig {
        polling_interval_ms: number_at(f, "polling_interval_ms"),
        backend_socket: string_at(f, "backend_socket"),
        control_socket: string_at(f, "control_socket"),
        vpp_stats_socket: string_at(f, "vpp_stats_socket"),
        startup_timeout: string_at(f, "startup_timeout"),
        shutdown_grace_ms: number_at(f, "shutdown_grace_ms"),
    });
    let exporters = doc.get("exporters").and_then(|x| x.as_sequence()).map(|es| {
        es.iter()
            .map(|e| {
                let mut entry = make_entry(&string_at(e, "name"), text(&string_at(e, "endpoint")));
                entry.kind = string_at(e, "type");
                entry.export_timeout = string_at(e, "export_timeout");
                entry.queue_depth = number_at(e, "queue_depth") as usize;
                entry.on_overflow = string_at(e, "on_overflow");
                entry
            })
            .collect()
    });
    Config { frontend, flow_rules, exporters, logging: None }
}

#[test]
fn roundtrip_parse_validate_crud() {
    let config = parse_yaml(VALID_YAML);
    validate_config(&config).unwrap();
    let set = FlowRuleSet::from_config(&config).unwrap();
    assert_eq!(set.list().len(), 2);
    assert_eq!(set.show("by_dscp").unwrap().max_keys, 64);
}

#[test]
fn parse_full_yaml_with_frontend_and_exporters() {
    let yaml = r#"
frontend:
  polling_interval_ms: 500
  backend_socket: "/run/infmon/backend.sock"
  control_socket: "/run/infmon/frontend.sock"
  vpp_stats_socket: "/run/vpp/stats.sock"
  startup_timeout: "10s"
  shutdown_grace_ms: 3000

flow-rules:
  - name: by-src
    fields: [src_ip]
    max_keys: 1000
    eviction_policy: lru_drop

exporters:
  - type: "otlp"
    name: "primary"
    endpoint: "http://collector.local:4317"
    export_timeout: "800ms"
    queue_depth: 2
    on_overflow: "drop_newest"
"#;
    let config = parse_yaml(yaml);
    validate_config(&config).unwrap();
    assert!(config.frontend.is_some());
    assert_eq!(config.frontend.unwrap().polling_interval_ms, 500);
    assert_eq!(config.exporters.as_ref().unwrap().len(), 1);
    assert_eq!(config.exporters.as_ref().unwrap()[0].kind, "otlp");
    assert_eq!(
        config.exporters.as_ref().unwrap()[0].extra.get("endpoint"),
        Some(&text("http://collector.local:4317"))
    );
}
