//! From snapshots to OTLP requests.

use infmon::config::model::EvictionPolicy;
use infmon::duration::Duration;
use infmon::frontend::exporter::{
    ConfigError, Exporter, ExporterConfig, ExporterError, ExporterMetrics,
};
use infmon::frontend::otlp::attributes::{
    build_flow_attributes, kv_int, kv_string, kv_string_counted, truncate_utf8_counted,
};
use infmon::frontend::otlp::batch::{
    count_metric_data_points, count_request, slice_request, split_metric_data_points,
};
use infmon::frontend::otlp::budget::{flow_budgets, is_countable};
use infmon::frontend::otlp::export::{
    backoff_max, endpoint_uri, is_retryable, load_or_create_instance_id, retry_step, Attempt, Code,
    ExportRun, RetryStep,
};
use infmon::frontend::otlp::exporter::{
    endpoint_setting, instance_id_path, HostInfo, OtlpExporter,
};
use infmon::frontend::otlp::model::{
    AggregationTemporality, AnyValue, Data, ExportMetricsServiceRequest, Metric, NumberDataPoint,
    NumberValue, Sum,
};
use infmon::frontend::otlp::request::saturating_i64;
use infmon::ipc::types::{
    FieldId, FieldValue, FlowCounters, FlowRuleCounters, FlowRuleStats, FlowStats,
    FlowStatsSnapshot,
};
use infmon::net::IpAddr;
use infmon::pairs::Pairs;

fn host() -> HostInfo {
    HostInfo {
        version: "0.1.0".to_string(),
        hostname: Some("box".to_string()),
        arch: "x86_64".to_string(),
        machine_id: Some(" abc\n".to_string()),
        instance_id: "id-1".to_string(),
    }
}

fn config_with(name: &str, settings: &[(&str, &str)]) -> ExporterConfig {
    let mut extra = Pairs::new();
    for (k, v) in settings {
        extra.insert(k.to_string(), v.to_string());
    }
    ExporterConfig {
        kind: "otlp".to_string(),
        name: name.to_string(),
        extra,
        ..Default::default()
    }
}

fn make_config() -> ExporterConfig {
    config_with("test-otlp", &[("endpoint", "localhost:4317")])
}

fn make_exporter() -> OtlpExporter {
    OtlpExporter::new(&make_config(), &host()).unwrap()
}

fn ip(a: u8, b: u8, c: u8, d: u8) -> FieldValue {
    FieldValue::Ip(IpAddr::V4(u32::from_be_bytes([a, b, c, d])))
}

fn rule(
    name: &str,
    fields: Vec<FieldId>,
    flows: Vec<FlowStats>,
    counters: FlowRuleCounters,
) -> FlowRuleStats {
    FlowRuleStats {
        name: name.to_string(),
        fields,
        max_keys: 1024,
        eviction_policy: EvictionPolicy::LruDrop,
        flows,
        counters,
    }
}

fn snapshot(flow_rules: Vec<FlowRuleStats>) -> FlowStatsSnapshot {
    FlowStatsSnapshot {
        tick_id: 1,
        wall_clock_ns: 1_000_000_000,
        monotonic_ns: 1_000_000_000,
        interval_ns: 1_000_000_000,
        flow_rules,
    }
}

fn points(m: &Metric) -> &Vec<NumberDataPoint> {
    match &m.data {
        Some(Data::Sum(s)) => &s.data_points,
        Some(Data::Gauge(g)) => &g.data_points,
        None => panic!("no data"),
    }
}

fn metrics_of(req: &ExportMetricsServiceRequest) -> &Vec<Metric> {
    &req.resource_metrics[0].scope_metrics[0].metrics
}

fn named<'a>(metrics: &'a [Metric], name: &str) -> &'a Metric {
    metrics.iter().find(|m| m.name == name).unwrap()
}

// ---- making an exporter

#[test]
fn new_requires_endpoint() {
    let cfg = ExporterConfig {
        kind: "otlp".to_string(),
        name: "test".to_string(),
        ..Default::default()
    };
    assert!(OtlpExporter::new(&cfg, &host()).is_err());
}

#[test]
fn new_succeeds_with_endpoint() {
    let exporter = make_exporter();
    assert_eq!(exporter.kind(), "otlp");
    assert_eq!(exporter.name(), "test-otlp");
}

#[test]
fn settings_have_defaults() {
    let x = make_exporter();
    assert_eq!(x.max_export_points_per_tick, 2_000_000);
    assert_eq!(x.max_batch_points, 8192);
    assert_eq!(x.instance_id_path, None);
    let cfg = config_with(
        "x",
        &[
            ("endpoint", "h:1"),
            ("max_batch_points", "7"),
            ("max_export_points_per_tick", "many"),
            ("instance_id_path", "/i"),
        ],
    );
    let x = OtlpExporter::new(&cfg, &host()).unwrap();
    assert_eq!(x.max_batch_points, 7);
    assert_eq!(x.max_export_points_per_tick, 2_000_000);
    assert_eq!(x.instance_id_path.as_deref(), Some("/i"));
    assert_eq!(
        OtlpExporter::new(&config_with("x", &[("endpoint", "")]), &host()).unwrap_err(),
        "OTLP exporter requires a non-empty 'endpoint'"
    );
}

#[test]
fn reload_is_refused() {
    assert_eq!(
        make_exporter().reload(&make_config()),
        Err(ConfigError("OTLP exporter requires restart to apply config changes".to_string()))
    );
}

// ---- attributes

#[test]
fn truncate_utf8_no_truncation() {
    let s = "hello";
    assert_eq!(truncate_utf8_counted(s, 256, None), "hello");
}

#[test]
fn truncate_utf8_truncates() {
    let s = "a".repeat(300);
    let result = truncate_utf8_counted(&s, 256, None);
    assert!(result.len() <= 256);
    assert!(result.ends_with('\u{2026}'));
}

#[test]
fn truncate_utf8_respects_char_boundaries() {
    // The euro sign is 3 bytes in UTF-8
    let s = "\u{20ac}".repeat(100); // 300 bytes
    let result = truncate_utf8_counted(&s, 10, None);
    // Should truncate to a valid UTF-8 string
    assert!(result.len() <= 10);
    assert!(result.ends_with('\u{2026}'));
}

#[test]
fn cuts_are_counted() {
    let mut n: u64 = 0;
    assert_eq!(truncate_utf8_counted("abcdef", 5, Some(&mut n)), "ab\u{2026}");
    assert_eq!(n, 1);
    assert_eq!(truncate_utf8_counted("abcde", 5, Some(&mut n)), "abcde");
    assert_eq!(n, 1);
    assert_eq!(truncate_utf8_counted("abcdef", 2, Some(&mut n)), "\u{2026}");
    assert_eq!(n, 2);
    let again = truncate_utf8_counted("ab\u{2026}", 5, Some(&mut n));
    assert_eq!(again, "ab\u{2026}");
    assert_eq!(n, 2);
    kv_string_counted("k", &"x".repeat(257), Some(&mut n));
    assert_eq!(n, 3);
}

#[test]
fn flow_attributes_only_for_declared_fields() {
    // A flow-rule with only Dscp should produce only flow-rule + flow.dscp attrs
    let fr = rule("dscp-only", vec![FieldId::Dscp], vec![], FlowRuleCounters::default());
    let flow = FlowStats {
        key: vec![FieldValue::Dscp(46)],
        counters: FlowCounters::default(),
    };
    let attrs = build_flow_attributes(&fr, &flow, &fr.fields, None);

    let keys: Vec<&str> = attrs.iter().map(|kv| kv.key.as_str()).collect();
    assert!(keys.contains(&"flow-rule"));
    assert!(keys.contains(&"flow.dscp"));
    assert!(!keys.contains(&"flow.src_ip"));
    assert!(!keys.contains(&"flow.dst_ip"));
}

#[test]
fn flow_attributes_sorted_by_key() {
    let fr = rule(
        "multi",
        vec![
            FieldId::SrcIp,
            FieldId::DstIp,
            FieldId::IpProto,
            FieldId::Dscp,
        ],
        vec![],
        FlowRuleCounters::default(),
    );
    let flow = FlowStats {
        key: vec![
            ip(10, 0, 0, 1),
            ip(10, 0, 0, 2),
            FieldValue::Proto(6),
            FieldValue::Dscp(0),
        ],
        counters: FlowCounters::default(),
    };
    let attrs = build_flow_attributes(&fr, &flow, &fr.fields, None);
    let keys: Vec<&str> = attrs.iter().map(|kv| kv.key.as_str()).collect();

    // Should be sorted
    let mut sorted = keys.clone();
    sorted.sort();
    assert_eq!(keys, sorted);
}

#[test]
fn flow_attributes_match_values_to_fields() {
    let fr = rule(
        &"r".repeat(300),
        vec![FieldId::MirrorSrcIp, FieldId::Dscp, FieldId::SrcPort, FieldId::IpProto],
        vec![],
        FlowRuleCounters::default(),
    );
    let flow = FlowStats {
        key: vec![ip(10, 0, 0, 9), FieldValue::Proto(1), FieldValue::Port(80)],
        counters: FlowCounters::default(),
    };
    let mut n: u64 = u64::MAX;
    let attrs = build_flow_attributes(&fr, &flow, &fr.fields, Some(&mut n));
    assert_eq!(attrs.len(), 2);
    assert_eq!(attrs[0].key, "flow-rule");
    assert_eq!(attrs[1], kv_string("flow.mirror_src_ip", "10.0.0.9"));
    assert_eq!(n, 0);
    assert_eq!(kv_int("k", 5).value, AnyValue::IntValue(5));
}

// ---- budgets

fn flows(n: usize) -> Vec<FlowStats> {
    (0..n).map(|_| FlowStats { key: vec![], counters: FlowCounters::default() }).collect()
}

fn plain(n: usize) -> FlowRuleStats {
    rule("r", vec![], flows(n), FlowRuleCounters::default())
}

#[test]
fn budgets_share_what_is_left_after_the_rules() {
    // Two rules take ten points; the rest is for flows of three points each.
    assert_eq!(flow_budgets(&vec![plain(10), plain(20)], 10 + 3 * 30), vec![10, 20]);
    assert_eq!(flow_budgets(&vec![plain(10), plain(20)], 10 + 3 * 10), vec![4, 6]);
    assert_eq!(flow_budgets(&vec![plain(10), plain(20)], 9), vec![0, 0]);
    assert_eq!(flow_budgets(&vec![plain(0)], 0), vec![0]);
    assert!(is_countable(&vec![plain(10)]));
}

// ---- requests

#[test]
fn build_request_empty_snapshot() {
    let mut exporter = make_exporter();
    let snap = snapshot(vec![]);
    let req = exporter.build_request(&snap).0;
    assert_eq!(req.resource_metrics.len(), 1);
    let rm = &req.resource_metrics[0];
    assert!(rm.resource.is_some());
    assert_eq!(rm.scope_metrics.len(), 1);
    assert_eq!(rm.scope_metrics[0].metrics.len(), 9); // 9 self-observability metrics only
}

fn snapshot_with_flows() -> FlowStatsSnapshot {
    snapshot(vec![rule(
        "test-rule",
        vec![FieldId::SrcIp, FieldId::DstIp],
        vec![FlowStats {
            key: vec![ip(10, 0, 0, 1), ip(10, 0, 0, 2)],
            counters: FlowCounters {
                packets: 100,
                bytes: 5000,
                first_seen_ns: 500_000_000,
                last_seen_ns: 900_000_000,
            },
        }],
        FlowRuleCounters {
            evictions: 0,
            drops: 0,
            packets: 100,
            bytes: 5000,
        },
    )])
}

#[test]
fn build_request_with_flows() {
    let mut exporter = make_exporter();
    let snap = snapshot_with_flows();
    let req = exporter.build_request(&snap).0;
    let metrics = metrics_of(&req);

    // 3 per-flow + 5 per-flow-rule + 9 self-observability = 17
    assert_eq!(metrics.len(), 17);

    // Check metric names
    let names: Vec<&str> = metrics.iter().map(|m| m.name.as_str()).collect();
    assert!(names.contains(&"infmon.flow.packets"));
    assert!(names.contains(&"infmon.flow.bytes"));
    assert!(names.contains(&"infmon.flow.last_seen"));
    assert!(names.contains(&"infmon.flow-rule.flows"));
    assert!(names.contains(&"infmon.flow-rule.evictions"));
    assert!(names.contains(&"infmon.flow-rule.drops"));
    assert!(names.contains(&"infmon.flow-rule.packets"));
    assert!(names.contains(&"infmon.flow-rule.bytes"));
}

#[test]
fn points_carry_the_counters() {
    let mut exporter = make_exporter();
    let req = exporter.build_request(&snapshot_with_flows()).0;
    let metrics = metrics_of(&req);

    let packets = named(metrics, "infmon.flow.packets");
    assert_eq!(packets.description, "Total packets attributed to this flow");
    assert_eq!(packets.unit, "{packets}");
    match &packets.data {
        Some(Data::Sum(s)) => {
            assert_eq!(s.aggregation_temporality, AggregationTemporality::Cumulative);
            assert!(s.is_monotonic);
        }
        other => panic!("{other:?}"),
    }
    let p = &points(packets)[0];
    assert_eq!(p.value, NumberValue::AsInt(100));
    assert_eq!((p.start_time_unix_nano, p.time_unix_nano), (500_000_000, 1_000_000_000));
    assert_eq!(
        p.attributes,
        vec![
            kv_string("flow-rule", "test-rule"),
            kv_string("flow.dst_ip", "10.0.0.2"),
            kv_string("flow.src_ip", "10.0.0.1"),
        ]
    );
    let seen = named(metrics, "infmon.flow.last_seen");
    assert!(matches!(seen.data, Some(Data::Gauge(_))));
    assert_eq!(points(seen)[0].value, NumberValue::AsInt(900_000_000));
    assert_eq!(points(seen)[0].start_time_unix_nano, 0);
    let drops = named(metrics, "infmon.flow-rule.drops");
    assert_eq!(
        points(drops)[0].attributes,
        vec![kv_string("flow-rule", "test-rule"), kv_string("reason", "eviction_failed")]
    );
    assert_eq!(points(named(metrics, "infmon.flow-rule.flows"))[0].value, NumberValue::AsInt(1));
    assert_eq!(saturating_i64(u64::MAX), i64::MAX);
    assert_eq!(saturating_i64(5), 5);
}

#[test]
fn build_request_cardinality_cap() {
    // Cap at 21 points: 5 per-flow-rule + 16 remaining = 5 flows (3 pts each = 15, cap 5)
    let cfg = config_with(
        "test-cap",
        &[("endpoint", "localhost:4317"), ("max_export_points_per_tick", "21")],
    );
    let mut exporter = OtlpExporter::new(&cfg, &host()).unwrap();

    let mut flows = Vec::new();
    for i in 0..10 {
        flows.push(FlowStats {
            key: vec![ip(10, 0, 0, i)],
            counters: FlowCounters {
                packets: 10,
                bytes: 100,
                first_seen_ns: 0,
                last_seen_ns: 0,
            },
        });
    }

    let snap = snapshot(vec![rule(
        "big-rule",
        vec![FieldId::SrcIp],
        flows,
        FlowRuleCounters::default(),
    )]);

    let req = exporter.build_request(&snap).0;
    let metrics = metrics_of(&req);

    // Count per-flow metrics
    let flow_metric_count = metrics
        .iter()
        .filter(|m| m.name.starts_with("infmon.flow."))
        .count();
    // 3 grouped Metric objects (packets, bytes, last_seen) each with 5 data points
    assert_eq!(flow_metric_count, 3);

    // Verify capped data point count: 5 flows x 3 metrics = 15 data points total
    let flow_data_points: usize = metrics
        .iter()
        .filter(|m| m.name.starts_with("infmon.flow."))
        .map(|m| match &m.data {
            Some(Data::Sum(s)) => s.data_points.len(),
            Some(Data::Gauge(g)) => g.data_points.len(),
            _ => 0,
        })
        .sum();
    assert_eq!(flow_data_points, 15);

    // Plus 5 per-flow-rule metrics
    let fr_metric_count = metrics
        .iter()
        .filter(|m| m.name.starts_with("infmon.flow-rule."))
        .count();
    assert_eq!(fr_metric_count, 5);
}

#[test]
fn resource_attributes_include_required() {
    let exporter = make_exporter();
    let attr_keys: Vec<&str> = exporter
        .resource_attrs
        .iter()
        .map(|kv| kv.key.as_str())
        .collect();

    assert!(attr_keys.contains(&"service.name"));
    assert!(attr_keys.contains(&"service.namespace"));
    assert!(attr_keys.contains(&"service.version"));
    assert!(attr_keys.contains(&"host.arch"));
    assert!(attr_keys.contains(&"service.instance.id"));
}

#[test]
fn resource_attributes_tell_of_the_machine() {
    let exporter = make_exporter();
    assert!(exporter.resource_attrs.contains(&kv_string("host.id", "abc")));
    assert!(exporter.resource_attrs.contains(&kv_string("host.name", "box")));
    let bare = HostInfo { hostname: None, machine_id: Some(" ".to_string()), ..host() };
    let exporter = OtlpExporter::new(&make_config(), &bare).unwrap();
    assert_eq!(exporter.resource_attrs.len(), 5);
}

#[test]
fn resource_attrs_from_extra_config() {
    let cfg = config_with(
        "test-res",
        &[("endpoint", "localhost:4317"), ("resource.infmon.dpu.id", "bf3-rack17")],
    );
    let exporter = OtlpExporter::new(&cfg, &host()).unwrap();
    let has_dpu_id = exporter
        .resource_attrs
        .iter()
        .any(|kv| kv.key == "infmon.dpu.id");
    assert!(has_dpu_id);
}

#[test]
fn self_observability_metrics_present_in_empty_snapshot() {
    let mut exporter = make_exporter();
    let snap = snapshot(vec![]);
    let req = exporter.build_request(&snap).0;
    let metrics = metrics_of(&req);
    let names: Vec<&str> = metrics.iter().map(|m| m.name.as_str()).collect();

    // All 9 self-observability metrics must be present
    assert!(names.contains(&"infmon.exporter.ticks_dropped"));
    assert!(names.contains(&"infmon.exporter.batches_sent"));
    assert!(names.contains(&"infmon.exporter.batches_dropped"));
    assert!(names.contains(&"infmon.exporter.batches_failed"));
    assert!(names.contains(&"infmon.exporter.points_emitted"));
    assert!(names.contains(&"infmon.exporter.points_dropped"));
    assert!(names.contains(&"infmon.exporter.attrs_truncated"));
    assert!(names.contains(&"infmon.exporter.export_duration"));
    assert!(names.contains(&"infmon.exporter.queue_depth"));
}

#[test]
fn self_observability_no_flow_attributes() {
    let mut exporter = make_exporter();
    let snap = snapshot(vec![]);
    let req = exporter.build_request(&snap).0;
    let metrics = metrics_of(&req);

    // Self-observability metrics must NOT have flow-rule or flow attributes
    for m in metrics {
        if m.name.starts_with("infmon.exporter.") {
            let points = match &m.data {
                Some(Data::Sum(s)) => &s.data_points,
                Some(Data::Gauge(g)) => &g.data_points,
                _ => continue,
            };
            for dp in points {
                for attr in &dp.attributes {
                    assert_ne!(
                        attr.key, "flow-rule",
                        "self-obs metric {} has flow-rule attr",
                        m.name
                    );
                    assert!(
                        !attr.key.starts_with("flow."),
                        "self-obs metric {} has flow attr {}",
                        m.name,
                        attr.key
                    );
                }
            }
        }
    }
}

#[test]
fn self_observability_points_emitted_tracks_correctly() {
    let mut exporter = make_exporter();
    let snap = snapshot(vec![rule(
        "test-rule",
        vec![FieldId::SrcIp],
        vec![FlowStats {
            key: vec![ip(10, 0, 0, 1)],
            counters: FlowCounters {
                packets: 100,
                bytes: 5000,
                first_seen_ns: 500_000_000,
                last_seen_ns: 900_000_000,
            },
        }],
        FlowRuleCounters::default(),
    )]);

    // First build: 1 flow x 3 per-flow + 5 per-flow-rule = 8 data points
    let (_, points1) = exporter.build_request(&snap);
    assert_eq!(points1, 8);
    // points_emitted is NOT incremented by build_request (only on successful export)
    assert_eq!(exporter.metrics.points_emitted, 0);

    // Second build: also 8 points
    let (_, points2) = exporter.build_request(&snap);
    assert_eq!(points2, 8);
}

#[test]
fn self_observability_points_dropped_on_cap() {
    // Cap at 8 points: 5 flow-rule + 3 remaining = 1 flow max
    let cfg = config_with(
        "test-drop",
        &[("endpoint", "localhost:4317"), ("max_export_points_per_tick", "8")],
    );
    let mut exporter = OtlpExporter::new(&cfg, &host()).unwrap();

    let flow = |d: u8| FlowStats {
        key: vec![ip(10, 0, 0, d)],
        counters: FlowCounters::default(),
    };
    let snap = snapshot(vec![rule(
        "test-rule",
        vec![FieldId::SrcIp],
        vec![flow(1), flow(2), flow(3)],
        FlowRuleCounters::default(),
    )]);

    let _ = exporter.build_request(&snap);
    // 3 flows, but cap allows only 1: 2 dropped x 3 points_per_flow = 6
    assert_eq!(exporter.metrics.points_dropped, 6);
}

#[test]
fn self_observability_batches_failed_has_reason() {
    let mut exporter = make_exporter();
    let snap = snapshot(vec![]);
    let req = exporter.build_request(&snap).0;
    let metrics = metrics_of(&req);
    let bf = metrics
        .iter()
        .find(|m| m.name == "infmon.exporter.batches_failed")
        .unwrap();
    if let Some(Data::Sum(s)) = &bf.data {
        assert_eq!(s.data_points.len(), 2);
        let reasons: Vec<&str> = s
            .data_points
            .iter()
            .map(|dp| {
                match &dp.attributes.iter().find(|a| a.key == "reason").unwrap().value {
                    AnyValue::StringValue(s) => s.as_str(),
                    _ => "",
                }
            })
            .collect();
        assert!(reasons.contains(&"non_retryable"));
        assert!(reasons.contains(&"transient"));
    } else {
        panic!("batches_failed should be a Sum");
    }
}

#[test]
fn self_observability_metrics_returns_some() {
    let exporter = make_exporter();
    assert!(exporter.metrics().is_some());
}

#[test]
fn own_metrics_follow_the_counters() {
    let mut exporter = make_exporter();
    exporter.metrics.batches_sent = 4;
    exporter.metrics.queue_depth = 3;
    exporter.metrics.export_duration_bits = 1.5f64.to_bits();
    let req = exporter.build_request(&snapshot(vec![])).0;
    let metrics = metrics_of(&req);
    let value = |name: &str| points(named(metrics, name))[0].value;
    assert_eq!(value("infmon.exporter.batches_sent"), NumberValue::AsInt(4));
    assert_eq!(value("infmon.exporter.queue_depth"), NumberValue::AsDoubleOf(3));
    assert_eq!(
        value("infmon.exporter.export_duration"),
        NumberValue::AsDoubleBits(1.5f64.to_bits())
    );
}

// ---- batches

fn metric(name: &str, n: usize) -> Metric {
    Metric {
        name: name.to_string(),
        description: String::new(),
        unit: String::new(),
        data: Some(Data::Sum(Sum {
            data_points: (0..n)
                .map(|i| NumberDataPoint {
                    attributes: vec![],
                    start_time_unix_nano: 0,
                    time_unix_nano: 0,
                    value: NumberValue::AsInt(i as i64),
                })
                .collect(),
            aggregation_temporality: AggregationTemporality::Cumulative,
            is_monotonic: true,
        })),
    }
}

fn request(metrics: Vec<Metric>) -> ExportMetricsServiceRequest {
    let mut x = make_exporter();
    let mut req = x.build_request(&snapshot(vec![])).0;
    req.resource_metrics[0].scope_metrics[0].metrics = metrics;
    req
}

fn sizes(max: usize, counts: &[usize]) -> Vec<Vec<(String, usize)>> {
    let metrics = counts.iter().enumerate().map(|(i, n)| metric(&format!("m{i}"), *n)).collect();
    slice_request(request(metrics), max)
        .iter()
        .map(|b| {
            metrics_of(b).iter().map(|m| (m.name.clone(), count_metric_data_points(m))).collect()
        })
        .collect()
}

fn batch(pairs: &[(&str, usize)]) -> Vec<(String, usize)> {
    pairs.iter().map(|(n, c)| (n.to_string(), *c)).collect()
}

#[test]
fn batches_hold_no_more_than_told() {
    assert_eq!(sizes(10, &[3, 4]), vec![batch(&[("m0", 3), ("m1", 4)])]);
    assert_eq!(sizes(0, &[3, 4]), vec![batch(&[("m0", 3), ("m1", 4)])]);
    assert_eq!(
        sizes(5, &[3, 4, 1]),
        vec![batch(&[("m0", 3)]), batch(&[("m1", 4), ("m2", 1)])]
    );
    assert_eq!(
        sizes(4, &[1, 9, 2]),
        vec![
            batch(&[("m0", 1)]),
            batch(&[("m1", 4)]),
            batch(&[("m1", 4)]),
            batch(&[("m1", 1), ("m2", 2)]),
        ]
    );
    // A metric without points travels with what stands before it.
    assert_eq!(
        sizes(2, &[2, 0, 2]),
        vec![batch(&[("m0", 2), ("m1", 0)]), batch(&[("m2", 2)])]
    );
}

#[test]
fn batches_keep_every_point_in_order() {
    let whole = request(vec![metric("a", 7), metric("b", 5)]);
    assert_eq!(count_request(&whole), 12);
    let mut seen = Vec::new();
    for b in slice_request(whole, 3) {
        assert!(count_request(&b) <= 3);
        assert!(b.resource_metrics[0].resource.is_some());
        for m in metrics_of(&b) {
            for p in points(m) {
                seen.push((m.name.clone(), p.value));
            }
        }
    }
    let want: Vec<(String, NumberValue)> = (0..7)
        .map(|i| ("a".to_string(), NumberValue::AsInt(i)))
        .chain((0..5).map(|i| ("b".to_string(), NumberValue::AsInt(i))))
        .collect();
    assert_eq!(seen, want);
}

#[test]
fn metrics_are_split_into_runs() {
    let parts = split_metric_data_points(metric("a", 5), 2);
    let counts: Vec<usize> = parts.iter().map(|p| p.1).collect();
    assert_eq!(counts, vec![2, 2, 1]);
    assert_eq!(points(&parts[2].0)[0].value, NumberValue::AsInt(4));
    assert_eq!(split_metric_data_points(metric("a", 2), 0).len(), 2);
    let none = Metric { data: None, ..metric("n", 0) };
    let parts = split_metric_data_points(none, 2);
    assert_eq!((parts.len(), parts[0].1), (1, 0));
}

#[test]
fn exports_are_prepared() {
    let cfg = config_with("x", &[("endpoint", "h:1"), ("max_batch_points", "6")]);
    let mut x = OtlpExporter::new(&cfg, &host()).unwrap();
    let p = x.prepare(&snapshot_with_flows());
    assert_eq!(p.points_built, 8);
    assert_eq!(p.batches.len(), 4);
    assert_eq!(p.batch_points, vec![6, 5, 6, 1]);
}

// ---- sending

#[test]
fn endpoints_get_a_scheme() {
    assert_eq!(endpoint_uri("localhost:4317"), "http://localhost:4317");
    assert_eq!(endpoint_uri("https://c:4317"), "https://c:4317");
    assert_eq!(endpoint_uri("http://c"), "http://c");
}

#[test]
fn instance_ids_are_kept_or_made() {
    assert_eq!(load_or_create_instance_id(Some(" abc \n")), ("abc".to_string(), false));
    let (a, new_a) = load_or_create_instance_id(Some(" \n"));
    let (b, new_b) = load_or_create_instance_id(None);
    assert!(new_a && new_b);
    assert_ne!(a, b);
    for id in [a, b] {
        assert_eq!(id.len(), 36);
        let parts: Vec<usize> = id.split('-').map(|p| p.len()).collect();
        assert_eq!(parts, vec![8, 4, 4, 4, 12]);
        assert!(id.chars().all(|c| c == '-' || c.is_ascii_digit() || ('a'..='f').contains(&c)));
        assert_eq!(id.as_bytes()[14], b'4');
    }
}

#[test]
fn batches_are_tried_four_times() {
    for (attempt, pause) in [(0u32, 2u64), (1, 4), (2, 8)] {
        match retry_step(attempt, Attempt::TimedOut) {
            RetryStep::Again { drop_client, pause: p } => {
                assert!(drop_client);
                assert_eq!(p, Duration::from_secs(pause));
            }
            other => panic!("{other:?}"),
        }
    }
    match retry_step(3, Attempt::TimedOut) {
        RetryStep::Fail { drop_client, error } => {
            assert!(drop_client);
            assert_eq!(error, ExporterError::Timeout);
        }
        other => panic!("{other:?}"),
    }
    match retry_step(3, Attempt::NoClient("down".to_string())) {
        RetryStep::Fail { drop_client, error } => {
            assert!(!drop_client);
            assert_eq!(error, ExporterError::Transient("down".to_string()));
        }
        other => panic!("{other:?}"),
    }
    let refused = |code: Code| Attempt::Refused { code, reason: "no".to_string() };
    match retry_step(0, refused(Code::InvalidArgument)) {
        RetryStep::Fail { error, .. } => {
            assert_eq!(error, ExporterError::Permanent("no".to_string()))
        }
        other => panic!("{other:?}"),
    }
    assert!(matches!(retry_step(0, refused(Code::Unavailable)), RetryStep::Again { .. }));
    assert!(matches!(retry_step(2, Attempt::Sent), RetryStep::Done));
    assert_eq!(backoff_max(5), Duration::from_secs(30));
    assert_eq!(backoff_max(0), Duration::from_secs(1));
    let retryable = [Code::Unavailable, Code::DeadlineExceeded, Code::ResourceExhausted, Code::Aborted];
    for c in retryable {
        assert!(is_retryable(c));
    }
    for c in [Code::Success, Code::Internal, Code::Unauthenticated, Code::DataLoss] {
        assert!(!is_retryable(c));
    }
}

#[test]
fn sent_points_are_counted() {
    let mut m = ExporterMetrics::default();
    let mut run = ExportRun::new();
    assert_eq!(run.batch_done(&mut m, 6, Ok(())), None);
    assert_eq!(run.batch_done(&mut m, 2, Ok(())), None);
    assert_eq!(run.finish(&mut m, 7), Ok(()));
    assert_eq!((m.batches_sent, m.points_emitted), (2, 7));

    let mut m = ExporterMetrics::default();
    let mut run = ExportRun::new();
    assert_eq!(run.batch_done(&mut m, 6, Ok(())), None);
    assert_eq!(run.batch_done(&mut m, 2, Err(ExporterError::Timeout)), None);
    assert_eq!(
        run.finish(&mut m, 7),
        Err(ExporterError::Transient("some batches failed after retries".to_string()))
    );
    assert_eq!((m.batches_failed_transient, m.points_emitted), (1, 6));

    let mut m = ExporterMetrics::default();
    let mut run = ExportRun::new();
    assert_eq!(run.batch_done(&mut m, 6, Ok(())), None);
    let fatal = || ExporterError::Permanent("x".to_string());
    assert_eq!(run.batch_done(&mut m, 2, Err(fatal())), Some(fatal()));
    assert_eq!((m.batches_failed_non_retryable, m.points_emitted), (1, 6));
}

#[test]
fn settings_name_the_endpoint_and_the_instance_id_file() {
    let bare = config_with("main", &[]);
    assert_eq!(
        endpoint_setting(&bare),
        Err("OTLP exporter requires a non-empty 'endpoint'".to_string())
    );
    assert_eq!(instance_id_path(&bare), "/var/lib/infmon/instance_id");
    assert!(endpoint_setting(&config_with("main", &[("endpoint", "")])).is_err());
    let full = config_with("main", &[("endpoint", "c:4317"), ("instance_id_path", "/tmp/id")]);
    assert_eq!(endpoint_setting(&full), Ok("c:4317".to_string()));
    assert_eq!(instance_id_path(&full), "/tmp/id");
}

#[test]
fn whole_exports_end_as_their_batches_do() {
    let gone = || ExporterError::Timeout;
    let fatal = || ExporterError::Permanent("x".to_string());
    let export = |results: Vec<Result<(), ExporterError>>| {
        let mut m = ExporterMetrics::default();
        let mut run = ExportRun::new();
        for result in results {
            if let Some(e) = run.batch_done(&mut m, 4, result) {
                return (Err(e), m);
            }
        }
        let end = run.finish(&mut m, 9);
        (end, m)
    };
    let (end, m) = export(vec![Ok(()), Ok(())]);
    assert_eq!(end, Ok(()));
    assert_eq!((m.batches_sent, m.points_emitted), (2, 9));
    let (end, m) = export(vec![Ok(()), Err(gone()), Ok(())]);
    assert!(matches!(end, Err(ExporterError::Transient(_))));
    assert_eq!((m.batches_sent, m.batches_failed_transient, m.points_emitted), (2, 1, 8));
    let (end, m) = export(vec![Ok(()), Err(gone()), Err(fatal()), Ok(())]);
    assert_eq!(end, Err(fatal()));
    assert_eq!((m.batches_sent, m.batches_failed_transient), (1, 1));
    assert_eq!((m.batches_failed_non_retryable, m.points_emitted), (1, 4));
}

#[test]
fn the_first_final_try_decides() {
    let send = |outcomes: Vec<Attempt>| {
        for (attempt, outcome) in outcomes.into_iter().enumerate() {
            match retry_step(attempt as u32, outcome) {
                RetryStep::Done => return Ok(()),
                RetryStep::Fail { error, .. } => return Err(error),
                RetryStep::Again { .. } => {}
            }
        }
        panic!("tries never ended");
    };
    let busy = |reason: &str| Attempt::Refused {
        code: Code::Unavailable,
        reason: reason.to_string(),
    };
    let never = || Attempt::Refused { code: Code::InvalidArgument, reason: "no".to_string() };
    assert_eq!(send(vec![busy("a"), Attempt::TimedOut, Attempt::Sent, never()]), Ok(()));
    assert_eq!(
        send(vec![busy("a"), never(), Attempt::Sent, Attempt::Sent]),
        Err(ExporterError::Permanent("no".to_string()))
    );
    assert_eq!(
        send(vec![busy("a"), Attempt::TimedOut, busy("c"), busy("d")]),
        Err(ExporterError::Transient("d".to_string()))
    );
}
