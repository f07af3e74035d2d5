//! What the request of a snapshot says, metric by metric and flow by flow.

use vstd::prelude::*;

use super::attributes;
use super::budget;
use super::exporter::OtlpExporter;
use super::model::{
    self, AggregationTemporality, AnyValue, KeyValue, MetricView, NumberValue, PointView, Shape,
};
use super::request::{self, FlowMeasure, RuleMeasure};
use crate::ipc::types::{self, FlowRuleStats};

verus! {

/// The metrics of the request of a snapshot.
pub open spec fn sent_metrics(
    x: OtlpExporter,
    rules: Seq<FlowRuleStats>,
    wall: u64,
) -> Seq<MetricView> {
    x.request_of(rules, wall)[0].scope_metrics[0].metrics
}

/// Whether a data point holds a count, or the largest signed number where the count is larger.
pub open spec fn counts_to(p: PointView, count: nat) -> bool {
    p.value == NumberValue::AsInt(
        if count <= 0x7fff_ffff_ffff_ffff {
            count as i64
        } else {
            0x7fff_ffff_ffff_ffffi64
        },
    )
}

/// A running total that never goes down.
pub open spec fn is_running_total(m: MetricView) -> bool {
    m.shape == Shape::Sum { temporality: AggregationTemporality::Cumulative, monotonic: true }
}

/// The place of flow `f` of rule `r` among the flows that are sent.
pub open spec fn flow_place(rules: Seq<FlowRuleStats>, limit: u64, r: int, f: int) -> int {
    budget::emitted_in(rules, limit, r as nat) + f
}

/// A number that tells the names of metrics apart.
spec fn tag(s: Seq<char>) -> int {
    if s.len() == 19 {
        0
    } else if s.len() == 17 {
        1
    } else if s.len() == 21 {
        2
    } else if s.len() == 22 {
        if s[17] == 'f' {
            3
        } else if s[17] == 'd' {
            4
        } else {
            5
        }
    } else if s.len() == 26 {
        6
    } else if s.len() == 24 {
        7
    } else if s.len() == 29 {
        8
    } else if s.len() == 28 {
        9
    } else if s.len() == 27 {
        10
    } else if s.len() == 30 {
        if s[16] == 'b' {
            11
        } else if s[23] == 'e' {
            12
        } else {
            13
        }
    } else if s[16] == 'b' {
        14
    } else if s[16] == 'a' {
        15
    } else {
        16
    }
}

proof fn names_differ()
    ensures
        tag("infmon.flow.packets"@) == 0,
        tag("infmon.flow.bytes"@) == 1,
        tag("infmon.flow.last_seen"@) == 2,
        tag("infmon.flow-rule.flows"@) == 3,
        tag("infmon.flow-rule.evictions"@) == 6,
        tag("infmon.flow-rule.drops"@) == 4,
        tag("infmon.flow-rule.packets"@) == 7,
        tag("infmon.flow-rule.bytes"@) == 5,
        tag("infmon.exporter.ticks_dropped"@) == 8,
        tag("infmon.exporter.batches_sent"@) == 9,
        tag("infmon.exporter.batches_dropped"@) == 14,
        tag("infmon.exporter.batches_failed"@) == 11,
        tag("infmon.exporter.points_emitted"@) == 12,
        tag("infmon.exporter.points_dropped"@) == 13,
        tag("infmon.exporter.attrs_truncated"@) == 15,
        tag("infmon.exporter.export_duration"@) == 16,
        tag("infmon.exporter.queue_depth"@) == 10,
{
    reveal_strlit("infmon.flow.packets");
    reveal_strlit("infmon.flow.bytes");
    reveal_strlit("infmon.flow.last_seen");
    reveal_strlit("infmon.flow-rule.flows");
    reveal_strlit("infmon.flow-rule.evictions");
    reveal_strlit("infmon.flow-rule.drops");
    reveal_strlit("infmon.flow-rule.packets");
    reveal_strlit("infmon.flow-rule.bytes");
    reveal_strlit("infmon.exporter.ticks_dropped");
    reveal_strlit("infmon.exporter.batches_sent");
    reveal_strlit("infmon.exporter.batches_dropped");
    reveal_strlit("infmon.exporter.batches_failed");
    reveal_strlit("infmon.exporter.points_emitted");
    reveal_strlit("infmon.exporter.points_dropped");
    reveal_strlit("infmon.exporter.attrs_truncated");
    reveal_strlit("infmon.exporter.export_duration");
    reveal_strlit("infmon.exporter.queue_depth");
}

proof fn flow_points_at(
    rules: Seq<FlowRuleStats>,
    limit: u64,
    wall: u64,
    what: FlowMeasure,
    r: int,
    f: int,
    n: nat,
)
    requires
        0 <= r < n <= rules.len(),
        0 <= f < budget::emitted(rules, limit, r),
    ensures
        request::flow_points(rules, limit, wall, what, n).len() == budget::emitted_in(
            rules,
            limit,
            n,
        ),
        flow_place(rules, limit, r, f) < budget::emitted_in(rules, limit, n),
        request::flow_points(rules, limit, wall, what, n)[flow_place(rules, limit, r, f)]
            == request::flow_point(rules[r], rules[r].flows@[f], wall, what),
    decreases n,
{
    flow_points_count(rules, limit, wall, what, n);
    flow_points_count(rules, limit, wall, what, (n - 1) as nat);
    if r < n - 1 {
        flow_points_at(rules, limit, wall, what, r, f, (n - 1) as nat);
    }
}

proof fn flow_points_count(
    rules: Seq<FlowRuleStats>,
    limit: u64,
    wall: u64,
    what: FlowMeasure,
    n: nat,
)
    ensures
        request::flow_points(rules, limit, wall, what, n).len() == budget::emitted_in(
            rules,
            limit,
            n,
        ),
    decreases n,
{
    if n > 0 {
        flow_points_count(rules, limit, wall, what, (n - 1) as nat);
    }
}

/// The metrics of a request are those of flows, of rules and of the exporter, without the empty
/// ones of the first two kinds.
proof fn sent_metrics_are(x: OtlpExporter, rules: Seq<FlowRuleStats>, wall: u64, i: int)
    requires
        0 <= i < sent_metrics(x, rules, wall).len(),
    ensures
        ({
            let m = sent_metrics(x, rules, wall)[i];
            let limit = x.max_export_points_per_tick;
            ||| m == request::flow_metric(rules, limit, wall, FlowMeasure::Packets)
            ||| m == request::flow_metric(rules, limit, wall, FlowMeasure::Bytes)
            ||| m == request::flow_metric(rules, limit, wall, FlowMeasure::LastSeen)
            ||| m == request::rule_metric(rules, wall, RuleMeasure::Flows)
            ||| m == request::rule_metric(rules, wall, RuleMeasure::Evictions)
            ||| m == request::rule_metric(rules, wall, RuleMeasure::Drops)
            ||| m == request::rule_metric(rules, wall, RuleMeasure::Packets)
            ||| m == request::rule_metric(rules, wall, RuleMeasure::Bytes)
            ||| exists|j: int|
                0 <= j < 9 && m == #[trigger] request::self_metrics(
                    x.after_build(rules).metrics,
                    wall,
                )[j]
        }),
{
    let own = request::self_metrics(x.after_build(rules).metrics, wall);
    let data = request::data_metrics(rules, x.max_export_points_per_tick, wall);
    let m = sent_metrics(x, rules, wall)[i];
    if i >= data.len() {
        assert(m == own[i - data.len()]);
    }
}

/// Each flow that is sent has a data point in the metric of its packets, in that of its bytes and in
/// that of the time it was last seen, and the data point tells just that of the flow, at the time of
/// the snapshot. The first two are running totals since the flow was first seen.
pub proof fn flows_are_told_by_name(
    x: OtlpExporter,
    rules: Seq<FlowRuleStats>,
    wall: u64,
    i: int,
    r: int,
    f: int,
)
    requires
        0 <= i < sent_metrics(x, rules, wall).len(),
        0 <= r < rules.len(),
        0 <= f < budget::emitted(rules, x.max_export_points_per_tick, r),
    ensures
        ({
            let m = sent_metrics(x, rules, wall)[i];
            let limit = x.max_export_points_per_tick;
            let total = budget::emitted_in(rules, limit, rules.len());
            let p = m.points[flow_place(rules, limit, r, f)];
            let flow = rules[r].flows@[f];
            &&& 0 <= flow_place(rules, limit, r, f) < total
            &&& m.name == "infmon.flow.packets"@ ==> {
                &&& m.points.len() == total
                &&& counts_to(p, flow.counters.packets as nat)
                &&& p.start_time_unix_nano == flow.counters.first_seen_ns
                &&& is_running_total(m)
                &&& m.unit == "{packets}"@
            }
            &&& m.name == "infmon.flow.bytes"@ ==> {
                &&& m.points.len() == total
                &&& counts_to(p, flow.counters.bytes as nat)
                &&& p.start_time_unix_nano == flow.counters.first_seen_ns
                &&& is_running_total(m)
                &&& m.unit == "By"@
            }
            &&& m.name == "infmon.flow.last_seen"@ ==> {
                &&& m.points.len() == total
                &&& counts_to(p, flow.counters.last_seen_ns as nat)
                &&& p.start_time_unix_nano == 0
                &&& m.shape == Shape::Gauge
                &&& m.unit == "ns"@
            }
            &&& m.name == "infmon.flow.packets"@ || m.name == "infmon.flow.bytes"@ || m.name
                == "infmon.flow.last_seen"@ ==> p.time_unix_nano == wall && p.attributes
                == attributes::flow_attributes(rules[r].name@, rules[r].fields@, flow.key@)
        }),
{
    names_differ();
    sent_metrics_are(x, rules, wall, i);
    let limit = x.max_export_points_per_tick;
    flow_points_at(rules, limit, wall, FlowMeasure::Packets, r, f, rules.len());
    flow_points_at(rules, limit, wall, FlowMeasure::Bytes, r, f, rules.len());
    flow_points_at(rules, limit, wall, FlowMeasure::LastSeen, r, f, rules.len());
}

/// Each rule has a data point in the metric of its flows, in that of its evictions, in that of its
/// drops, in that of its packets and in that of its bytes, and the data point tells just that of the
/// rule, under its name and at the time of the snapshot.
pub proof fn rules_are_told_by_name(
    x: OtlpExporter,
    rules: Seq<FlowRuleStats>,
    wall: u64,
    i: int,
    r: int,
)
    requires
        0 <= i < sent_metrics(x, rules, wall).len(),
        0 <= r < rules.len(),
    ensures
        ({
            let m = sent_metrics(x, rules, wall)[i];
            let p = m.points[r];
            let rule = rules[r];
            &&& m.name == "infmon.flow-rule.flows"@ ==> {
                &&& m.points.len() == rules.len()
                &&& counts_to(p, rule.flows@.len())
                &&& m.shape == Shape::Gauge
                &&& m.unit == "{flows}"@
            }
            &&& m.name == "infmon.flow-rule.evictions"@ ==> {
                &&& m.points.len() == rules.len()
                &&& counts_to(p, rule.counters.evictions as nat)
                &&& is_running_total(m)
                &&& m.unit == "{evictions}"@
            }
            &&& m.name == "infmon.flow-rule.drops"@ ==> {
                &&& m.points.len() == rules.len()
                &&& counts_to(p, rule.counters.drops as nat)
                &&& is_running_total(m)
                &&& m.unit == "{drops}"@
            }
            &&& m.name == "infmon.flow-rule.packets"@ ==> {
                &&& m.points.len() == rules.len()
                &&& counts_to(p, rule.counters.packets as nat)
                &&& is_running_total(m)
                &&& m.unit == "{packets}"@
            }
            &&& m.name == "infmon.flow-rule.bytes"@ ==> {
                &&& m.points.len() == rules.len()
                &&& counts_to(p, rule.counters.bytes as nat)
                &&& is_running_total(m)
                &&& m.unit == "By"@
            }
            &&& m.name == "infmon.flow-rule.flows"@ || m.name == "infmon.flow-rule.evictions"@ || m.name == "infmon.flow-rule.drops"@ || m.name == "infmon.flow-rule.packets"@ || m.name == "infmon.flow-rule.bytes"@ ==> {
                &&& p.time_unix_nano == wall
                &&& p.start_time_unix_nano == 0
                &&& p.attributes[0].key == "flow-rule"@
                &&& p.attributes[0].value == AnyValue::StringValue(
                    attributes::cut(rule.name@, 256),
                )
                &&& p.attributes.len() == if m.name == "infmon.flow-rule.drops"@ {
                    2int
                } else {
                    1int
                }
                &&& m.name == "infmon.flow-rule.drops"@ ==> p.attributes[1].key == "reason"@
                    && p.attributes[1].value == AnyValue::StringValue(
                    attributes::cut("eviction_failed"@, 256),
                )
            }
        }),
{
    names_differ();
    sent_metrics_are(x, rules, wall, i);
}

/// Each of the metrics of flows is in the request exactly where a flow is sent, and each of the
/// metrics of rules exactly where there is a rule.
pub proof fn metrics_are_there(x: OtlpExporter, rules: Seq<FlowRuleStats>, wall: u64, name: Seq<char>)
    ensures
        ({
            let total = budget::emitted_in(rules, x.max_export_points_per_tick, rules.len());
            let there = exists|i: int|
                0 <= i < sent_metrics(x, rules, wall).len() && (#[trigger] sent_metrics(
                    x,
                    rules,
                    wall,
                )[i]).name == name;
            &&& name == "infmon.flow.packets"@ || name == "infmon.flow.bytes"@ || name
                == "infmon.flow.last_seen"@ ==> (there <==> total > 0)
            &&& name == "infmon.flow-rule.flows"@ || name == "infmon.flow-rule.evictions"@ || name
                == "infmon.flow-rule.drops"@ || name == "infmon.flow-rule.packets"@ || name
                == "infmon.flow-rule.bytes"@ ==> (there <==> rules.len() > 0)
        }),
{
    names_differ();
    let limit = x.max_export_points_per_tick;
    let ms = sent_metrics(x, rules, wall);
    let total = budget::emitted_in(rules, limit, rules.len());
    flow_points_count(rules, limit, wall, FlowMeasure::Packets, rules.len());
    flow_points_count(rules, limit, wall, FlowMeasure::Bytes, rules.len());
    flow_points_count(rules, limit, wall, FlowMeasure::LastSeen, rules.len());
    let f: int = if total > 0 {
        1
    } else {
        0
    };
    let g: int = if rules.len() > 0 {
        1
    } else {
        0
    };
    if total > 0 {
        assert(ms[0].name == "infmon.flow.packets"@);
        assert(ms[1].name == "infmon.flow.bytes"@);
        assert(ms[2].name == "infmon.flow.last_seen"@);
    }
    if rules.len() > 0 {
        assert(ms[3 * f].name == "infmon.flow-rule.flows"@);
        assert(ms[3 * f + 1].name == "infmon.flow-rule.evictions"@);
        assert(ms[3 * f + 2].name == "infmon.flow-rule.drops"@);
        assert(ms[3 * f + 3].name == "infmon.flow-rule.packets"@);
        assert(ms[3 * f + 4].name == "infmon.flow-rule.bytes"@);
    }
    assert(ms.len() == 3 * f + 5 * g + 9);
    assert forall|i: int| 0 <= i < ms.len() implies (
    (#[trigger] ms[i]).name == "infmon.flow.packets"@ || ms[i].name == "infmon.flow.bytes"@
        || ms[i].name == "infmon.flow.last_seen"@ ==> total > 0) && (ms[i].name
        == "infmon.flow-rule.flows"@ || ms[i].name == "infmon.flow-rule.evictions"@ || ms[i].name
        == "infmon.flow-rule.drops"@ || ms[i].name == "infmon.flow-rule.packets"@ || ms[i].name
        == "infmon.flow-rule.bytes"@ ==> rules.len() > 0) by {
        if i >= 3 * f + 5 * g {
            let own = request::self_metrics(x.after_build(rules).metrics, wall);
            assert(ms[i] == own[i - (3 * f + 5 * g)]);
        }
    }
}

/// The exporter tells of itself what it has counted, each under its own name: running totals for
/// what it counts, and readings for the length of the last export and the snapshots that wait. The
/// failed batches are told apart by whether they may go through later.
pub proof fn exporter_is_told_by_name(
    x: OtlpExporter,
    rules: Seq<FlowRuleStats>,
    wall: u64,
    i: int,
)
    requires
        0 <= i < sent_metrics(x, rules, wall).len(),
    ensures
        ({
            let m = sent_metrics(x, rules, wall)[i];
            let own = x.after_build(rules).metrics;
            &&& m.name == "infmon.exporter.ticks_dropped"@ ==> {
                &&& m.points.len() == 1
                &&& m.points[0].time_unix_nano == wall
                &&& counts_to(m.points[0], own.ticks_dropped as nat)
                &&& is_running_total(m)
            }
            &&& m.name == "infmon.exporter.batches_sent"@ ==> {
                &&& m.points.len() == 1
                &&& m.points[0].time_unix_nano == wall
                &&& counts_to(m.points[0], own.batches_sent as nat)
                &&& is_running_total(m)
            }
            &&& m.name == "infmon.exporter.batches_dropped"@ ==> {
                &&& m.points.len() == 1
                &&& m.points[0].time_unix_nano == wall
                &&& counts_to(m.points[0], own.batches_dropped as nat)
                &&& is_running_total(m)
            }
            &&& m.name == "infmon.exporter.points_emitted"@ ==> {
                &&& m.points.len() == 1
                &&& m.points[0].time_unix_nano == wall
                &&& counts_to(m.points[0], own.points_emitted as nat)
                &&& is_running_total(m)
            }
            &&& m.name == "infmon.exporter.points_dropped"@ ==> {
                &&& m.points.len() == 1
                &&& m.points[0].time_unix_nano == wall
                &&& counts_to(m.points[0], own.points_dropped as nat)
                &&& is_running_total(m)
            }
            &&& m.name == "infmon.exporter.attrs_truncated"@ ==> {
                &&& m.points.len() == 1
                &&& m.points[0].time_unix_nano == wall
                &&& counts_to(m.points[0], own.attrs_truncated as nat)
                &&& is_running_total(m)
            }
            &&& m.name == "infmon.exporter.batches_failed"@ ==> {
                &&& m.points.len() == 2
                &&& counts_to(m.points[0], own.batches_failed_non_retryable as nat)
                &&& m.points[0].attributes == seq![
                    KeyValue {
                        key: "reason"@,
                        value: AnyValue::StringValue(
                            attributes::cut("non_retryable"@, 256),
                        ),
                    },
                ]
                &&& counts_to(m.points[1], own.batches_failed_transient as nat)
                &&& m.points[1].attributes == seq![
                    KeyValue {
                        key: "reason"@,
                        value: AnyValue::StringValue(attributes::cut("transient"@, 256)),
                    },
                ]
                &&& is_running_total(m)
            }
            &&& m.name == "infmon.exporter.export_duration"@ ==> {
                &&& m.points.len() == 1
                &&& m.points[0].time_unix_nano == wall
                &&& m.points[0].value == NumberValue::AsDoubleBits(own.export_duration_bits)
                &&& m.shape == Shape::Gauge
            }
            &&& m.name == "infmon.exporter.queue_depth"@ ==> {
                &&& m.points.len() == 1
                &&& m.points[0].time_unix_nano == wall
                &&& m.points[0].value == NumberValue::AsDoubleOf(own.queue_depth)
                &&& m.shape == Shape::Gauge
            }
        }),
{
    names_differ();
    sent_metrics_are(x, rules, wall, i);
}

/// The counters after a request was built are those before it but for two: the data points of the
/// flows that were left out count as dropped, three for each, and the attribute values that were cut
/// count as cut.
pub proof fn building_counts_what_it_leaves_out(x: OtlpExporter, rules: Seq<FlowRuleStats>)
    requires
        budget::countable(rules),
    ensures
        ({
            let after = x.after_build(rules).metrics;
            let limit = x.max_export_points_per_tick;
            let left_out = budget::flows_in(rules, rules.len()) - budget::emitted_in(
                rules,
                limit,
                rules.len(),
            );
            &&& left_out >= 0
            &&& after.points_dropped == (x.metrics.points_dropped + 3 * left_out)
                % 0x1_0000_0000_0000_0000
            &&& after.attrs_truncated == (x.metrics.attrs_truncated + request::cuts(
                rules,
                limit,
                rules.len(),
            )) % 0x1_0000_0000_0000_0000
            &&& after.ticks_dropped == x.metrics.ticks_dropped
            &&& after.batches_sent == x.metrics.batches_sent
            &&& after.batches_dropped == x.metrics.batches_dropped
            &&& after.batches_failed_non_retryable == x.metrics.batches_failed_non_retryable
            &&& after.batches_failed_transient == x.metrics.batches_failed_transient
            &&& after.points_emitted == x.metrics.points_emitted
            &&& after.export_duration_bits == x.metrics.export_duration_bits
            &&& after.queue_depth == x.metrics.queue_depth
        }),
{
    budget::emitted_within_flows(rules, x.max_export_points_per_tick, rules.len());
}

/// A request comes from one resource, which is described as the exporter was told to, and from one
/// scope, which bears the name of the program and its version.
pub proof fn requests_bear_their_origin(x: OtlpExporter, rules: Seq<FlowRuleStats>, wall: u64)
    ensures
        ({
            let req = x.request_of(rules, wall);
            &&& req.len() == 1
            &&& req[0].resource == Some(model::attr_views(x.resource_attrs@))
            &&& req[0].schema_url.len() == 0
            &&& req[0].scope_metrics.len() == 1
            &&& req[0].scope_metrics[0].schema_url.len() == 0
            &&& req[0].scope_metrics[0].scope matches Some(s) && s.name == "infmon"@ && s.version
                == x.version@
        }),
{
}

/// Building a request changes nothing of the exporter but its counters.
pub proof fn building_keeps_settings(x: OtlpExporter, rules: Seq<FlowRuleStats>)
    ensures
        ({
            let y = x.after_build(rules);
            &&& y.name == x.name
            &&& y.endpoint == x.endpoint
            &&& y.instance_id_path == x.instance_id_path
            &&& y.max_export_points_per_tick == x.max_export_points_per_tick
            &&& y.max_batch_points == x.max_batch_points
            &&& y.export_timeout == x.export_timeout
            &&& y.resource_attrs == x.resource_attrs
            &&& y.version == x.version
        }),
{
}

/// Whether some metric of the request bears the name and the unit.
pub open spec fn is_sent(ms: Seq<MetricView>, name: Seq<char>, unit: Seq<char>) -> bool {
    exists|i: int| 0 <= i < ms.len() && (#[trigger] ms[i]).name == name && ms[i].unit == unit
}

/// Every request tells what the exporter counts about itself, each count under its name and in its
/// unit.
pub proof fn exporter_metrics_are_there(x: OtlpExporter, rules: Seq<FlowRuleStats>, wall: u64)
    ensures
        ({
            let ms = sent_metrics(x, rules, wall);
            &&& is_sent(ms, "infmon.exporter.ticks_dropped"@, "{ticks}"@)
            &&& is_sent(ms, "infmon.exporter.batches_sent"@, "{batches}"@)
            &&& is_sent(ms, "infmon.exporter.batches_dropped"@, "{batches}"@)
            &&& is_sent(ms, "infmon.exporter.batches_failed"@, "{batches}"@)
            &&& is_sent(ms, "infmon.exporter.points_emitted"@, "{points}"@)
            &&& is_sent(ms, "infmon.exporter.points_dropped"@, "{points}"@)
            &&& is_sent(ms, "infmon.exporter.attrs_truncated"@, "{attrs}"@)
            &&& is_sent(ms, "infmon.exporter.export_duration"@, "s"@)
            &&& is_sent(ms, "infmon.exporter.queue_depth"@, "{batches}"@)
        }),
{
    let ms = sent_metrics(x, rules, wall);
    let data = request::data_metrics(rules, x.max_export_points_per_tick, wall);
    let own = request::self_metrics(x.after_build(rules).metrics, wall);
    assert(ms == data + own);
    let n = data.len() as int;
    assert(ms[n] == own[0]);
    assert(ms[n + 1] == own[1]);
    assert(ms[n + 2] == own[2]);
    assert(ms[n + 3] == own[3]);
    assert(ms[n + 4] == own[4]);
    assert(ms[n + 5] == own[5]);
    assert(ms[n + 6] == own[6]);
    assert(ms[n + 7] == own[7]);
    assert(ms[n + 8] == own[8]);
}

/// The data points that are left out are told with the reason that the cap left them out.
pub proof fn left_out_points_give_the_reason(
    x: OtlpExporter,
    rules: Seq<FlowRuleStats>,
    wall: u64,
    i: int,
)
    requires
        0 <= i < sent_metrics(x, rules, wall).len(),
        sent_metrics(x, rules, wall)[i].name == "infmon.exporter.points_dropped"@,
    ensures
        ({
            let a = sent_metrics(x, rules, wall)[i].points[0].attributes;
            a.len() == 1 && attributes::tells_text(a[0], "reason"@, "export_cap"@)
        }),
{
    names_differ();
    let ms = sent_metrics(x, rules, wall);
    let data = request::data_metrics(rules, x.max_export_points_per_tick, wall);
    let own = request::self_metrics(x.after_build(rules).metrics, wall);
    assert(ms == data + own);
    assert(i >= data.len());
    assert(ms[i] == own[i - data.len()]);
}

/// How many texts of a flow are longer than an attribute may be: the name of its rule, and
/// addresses, which never are.
pub proof fn only_long_names_are_cut(rules: Seq<FlowRuleStats>, limit: u64, n: nat)
    requires
        n <= rules.len(),
        forall|r: int|
            0 <= r < n ==> attributes::text_bytes((#[trigger] rules[r]).name@) <= 256,
        forall|r: int, f: int, k: int|
            0 <= r < n && 0 <= f < rules[r].flows@.len() && 0 <= k
                < rules[r].flows@[f].key@.len() ==> (#[trigger] rules[r].flows@[f].key@[k] matches
                types::FieldValue::Ip(a) ==> attributes::text_bytes(a.rendered()) <= 256),
    ensures
        request::cuts(rules, limit, n) == 0,
    decreases n,
{
    if n > 0 {
        only_long_names_are_cut(rules, limit, (n - 1) as nat);
        let r = n - 1;
        no_cuts_in(rules, r, budget::emitted(rules, limit, r));
    }
}

proof fn no_cuts_in(rules: Seq<FlowRuleStats>, r: int, n: nat)
    requires
        0 <= r < rules.len(),
        n <= rules[r].flows@.len(),
        attributes::text_bytes(rules[r].name@) <= 256,
        forall|f: int, k: int|
            0 <= f < rules[r].flows@.len() && 0 <= k < rules[r].flows@[f].key@.len() ==> (
            #[trigger] rules[r].flows@[f].key@[k] matches types::FieldValue::Ip(a)
                ==> attributes::text_bytes(a.rendered()) <= 256),
    ensures
        request::first_flow_cuts(rules[r], n) == 0,
    decreases n,
{
    if n > 0 {
        no_cuts_in(rules, r, (n - 1) as nat);
        no_field_cuts(rules[r].fields@, rules[r].flows@[n - 1].key@, rules[r].fields@.len());
    }
}

proof fn no_field_cuts(fields: Seq<types::FieldId>, key: Seq<types::FieldValue>, n: nat)
    requires
        n <= fields.len(),
        forall|k: int|
            0 <= k < key.len() ==> (#[trigger] key[k] matches types::FieldValue::Ip(a)
                ==> attributes::text_bytes(a.rendered()) <= 256),
    ensures
        attributes::field_cuts(fields, key, n) == 0,
    decreases n,
{
    if n > 0 {
        no_field_cuts(fields, key, (n - 1) as nat);
    }
}

/// Where the names of all rules are too long for an attribute and no address is, every flow that is
/// sent counts one text as cut.
pub proof fn long_names_are_cut_once_a_flow(rules: Seq<FlowRuleStats>, limit: u64, n: nat)
    requires
        n <= rules.len(),
        forall|r: int| 0 <= r < n ==> attributes::text_bytes((#[trigger] rules[r]).name@) > 256,
        forall|r: int, f: int, k: int|
            0 <= r < n && 0 <= f < rules[r].flows@.len() && 0 <= k
                < rules[r].flows@[f].key@.len() ==> (#[trigger] rules[r].flows@[f].key@[k] matches
                types::FieldValue::Ip(a) ==> attributes::text_bytes(a.rendered()) <= 256),
    ensures
        request::cuts(rules, limit, n) == budget::emitted_in(rules, limit, n),
    decreases n,
{
    if n > 0 {
        long_names_are_cut_once_a_flow(rules, limit, (n - 1) as nat);
        let r = n - 1;
        one_cut_each(rules, r, budget::emitted(rules, limit, r));
    }
}

proof fn one_cut_each(rules: Seq<FlowRuleStats>, r: int, n: nat)
    requires
        0 <= r < rules.len(),
        n <= rules[r].flows@.len(),
        attributes::text_bytes(rules[r].name@) > 256,
        forall|f: int, k: int|
            0 <= f < rules[r].flows@.len() && 0 <= k < rules[r].flows@[f].key@.len() ==> (
            #[trigger] rules[r].flows@[f].key@[k] matches types::FieldValue::Ip(a)
                ==> attributes::text_bytes(a.rendered()) <= 256),
    ensures
        request::first_flow_cuts(rules[r], n) == n,
    decreases n,
{
    if n > 0 {
        one_cut_each(rules, r, (n - 1) as nat);
        no_field_cuts(rules[r].fields@, rules[r].flows@[n - 1].key@, rules[r].fields@.len());
    }
}

/// The metrics of flows and rules are described in words that fit their names.
pub proof fn metrics_are_described(x: OtlpExporter, rules: Seq<FlowRuleStats>, wall: u64, i: int)
    requires
        0 <= i < sent_metrics(x, rules, wall).len(),
    ensures
        ({
            let m = sent_metrics(x, rules, wall)[i];
            &&& m.name == "infmon.flow.packets"@ ==> m.description
                == "Total packets attributed to this flow"@
            &&& m.name == "infmon.flow.bytes"@ ==> m.description
                == "Total bytes attributed to this flow"@
            &&& m.name == "infmon.flow.last_seen"@ ==> m.description
                == "Wall-clock ns of the most recent packet"@
            &&& m.name == "infmon.flow-rule.flows"@ ==> m.description
                == "Number of live flows in this flow-rule"@
            &&& m.name == "infmon.flow-rule.evictions"@ ==> m.description
                == "Total evictions for this flow-rule"@
            &&& m.name == "infmon.flow-rule.drops"@ ==> m.description
                == "Total drops for this flow-rule"@
            &&& m.name == "infmon.flow-rule.packets"@ ==> m.description
                == "Total packets for this flow-rule"@
            &&& m.name == "infmon.flow-rule.bytes"@ ==> m.description
                == "Total bytes for this flow-rule"@
        }),
{
    names_differ();
    sent_metrics_are(x, rules, wall, i);
}

} // verus!
