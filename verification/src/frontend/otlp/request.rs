//! Building the metrics request of a snapshot.

use vstd::prelude::*;

use super::attributes::{self, kv_string};
use super::budget;
use super::model::{
    self, AggregationTemporality, Data, Gauge, KeyValue, KeyValueView, Metric, MetricView,
    NumberDataPoint, NumberValue, PointView, Shape, Sum,
};
use crate::frontend::exporter::ExporterMetrics;
use crate::ipc::types::{FlowRuleStats, FlowStats};

verus! {

/// A count as a signed number, the largest one where it does not fit.
pub open spec fn clamped(v: nat) -> i64 {
    if v <= i64::MAX {
        v as i64
    } else {
        i64::MAX
    }
}

/// A count as a signed number, the largest one where it does not fit.
pub fn saturating_i64(v: u64) -> (r: i64)
    ensures
        r == clamped(v as nat),
{
    if v <= i64::MAX as u64 {
        v as i64
    } else {
        i64::MAX
    }
}

/// What is measured of each flow.
#[derive(Clone, Copy, Debug, PartialEq, Eq, Structural)]
pub enum FlowMeasure {
    Packets,
    Bytes,
    LastSeen,
}

/// What is measured of each flow rule.
#[derive(Clone, Copy, Debug, PartialEq, Eq, Structural)]
pub enum RuleMeasure {
    Flows,
    Evictions,
    Drops,
    Packets,
    Bytes,
}

// ---------------------------------------------------------------- data points

/// The data point of one flow.
pub open spec fn flow_point(
    fr: FlowRuleStats,
    flow: FlowStats,
    wall: u64,
    what: FlowMeasure,
) -> PointView {
    PointView {
        attributes: attributes::flow_attributes(fr.name@, fr.fields@, flow.key@),
        start_time_unix_nano: match what {
            FlowMeasure::Packets | FlowMeasure::Bytes => flow.counters.first_seen_ns,
            FlowMeasure::LastSeen => 0,
        },
        time_unix_nano: wall,
        value: NumberValue::AsInt(
            clamped(
                match what {
                    FlowMeasure::Packets => flow.counters.packets as nat,
                    FlowMeasure::Bytes => flow.counters.bytes as nat,
                    FlowMeasure::LastSeen => flow.counters.last_seen_ns as nat,
                },
            ),
        ),
    }
}

/// The data points of the first `n` flows of a rule.
pub open spec fn first_flow_points(
    fr: FlowRuleStats,
    wall: u64,
    what: FlowMeasure,
    n: nat,
) -> Seq<PointView> {
    Seq::new(n, |i: int| flow_point(fr, fr.flows@[i], wall, what))
}

/// The data points of the flows that the first `n` rules send.
pub open spec fn flow_points(
    rules: Seq<FlowRuleStats>,
    limit: u64,
    wall: u64,
    what: FlowMeasure,
    n: nat,
) -> Seq<PointView>
    decreases n,
{
    if n == 0 {
        Seq::empty()
    } else {
        flow_points(rules, limit, wall, what, (n - 1) as nat) + first_flow_points(
            rules[n - 1],
            wall,
            what,
            budget::emitted(rules, limit, n - 1),
        )
    }
}

/// The data point of one flow rule.
pub open spec fn rule_point(fr: FlowRuleStats, wall: u64, what: RuleMeasure) -> PointView {
    let name = seq![attributes::text_attr("flow-rule"@, fr.name@)];
    PointView {
        attributes: match what {
            RuleMeasure::Drops => name.push(
                attributes::text_attr("reason"@, "eviction_failed"@),
            ),
            _ => name,
        },
        start_time_unix_nano: 0,
        time_unix_nano: wall,
        value: NumberValue::AsInt(
            clamped(
                match what {
                    RuleMeasure::Flows => fr.flows@.len(),
                    RuleMeasure::Evictions => fr.counters.evictions as nat,
                    RuleMeasure::Drops => fr.counters.drops as nat,
                    RuleMeasure::Packets => fr.counters.packets as nat,
                    RuleMeasure::Bytes => fr.counters.bytes as nat,
                },
            ),
        ),
    }
}

/// The data points of the flow rules.
pub open spec fn rule_points(
    rules: Seq<FlowRuleStats>,
    wall: u64,
    what: RuleMeasure,
) -> Seq<PointView> {
    Seq::new(rules.len(), |i: int| rule_point(rules[i], wall, what))
}

/// How many attributes of the first `n` flows of a rule are cut.
pub open spec fn first_flow_cuts(fr: FlowRuleStats, n: nat) -> nat
    decreases n,
{
    if n == 0 {
        0
    } else {
        first_flow_cuts(fr, (n - 1) as nat) + attributes::flow_cuts(
            fr.name@,
            fr.fields@,
            fr.flows@[n - 1].key@,
        )
    }
}

/// How many attributes are cut in the flows that the first `n` rules send.
pub open spec fn cuts(rules: Seq<FlowRuleStats>, limit: u64, n: nat) -> nat
    decreases n,
{
    if n == 0 {
        0
    } else {
        cuts(rules, limit, (n - 1) as nat) + first_flow_cuts(
            rules[n - 1],
            budget::emitted(rules, limit, n - 1),
        )
    }
}

/// How many data points of flows the first `n` rules leave out.
pub open spec fn dropped(rules: Seq<FlowRuleStats>, limit: u64, n: nat) -> nat {
    (3 * (budget::flows_in(rules, n) - budget::emitted_in(rules, limit, n))) as nat
}

/// The counters of the exporter after the request for `rules` was built.
pub open spec fn counted_in(
    m: ExporterMetrics,
    rules: Seq<FlowRuleStats>,
    limit: u64,
) -> ExporterMetrics {
    ExporterMetrics {
        attrs_truncated: attributes::counted(m.attrs_truncated, cuts(rules, limit, rules.len())),
        points_dropped: m.points_dropped.wrapping_add(dropped(rules, limit, rules.len()) as u64),
        ..m
    }
}

// ---------------------------------------------------------------- metrics

/// A sum over all time.
pub open spec fn total_shape() -> Shape {
    Shape::Sum { temporality: AggregationTemporality::Cumulative, monotonic: true }
}

/// The metric of a measure of flows.
pub open spec fn flow_metric(
    rules: Seq<FlowRuleStats>,
    limit: u64,
    wall: u64,
    what: FlowMeasure,
) -> MetricView {
    let points = flow_points(rules, limit, wall, what, rules.len());
    match what {
        FlowMeasure::Packets => MetricView {
            name: "infmon.flow.packets"@,
            description: "Total packets attributed to this flow"@,
            unit: "{packets}"@,
            shape: total_shape(),
            points,
        },
        FlowMeasure::Bytes => MetricView {
            name: "infmon.flow.bytes"@,
            description: "Total bytes attributed to this flow"@,
            unit: "By"@,
            shape: total_shape(),
            points,
        },
        FlowMeasure::LastSeen => MetricView {
            name: "infmon.flow.last_seen"@,
            description: "Wall-clock ns of the most recent packet"@,
            unit: "ns"@,
            shape: Shape::Gauge,
            points,
        },
    }
}

/// The metric of a measure of flow rules.
pub open spec fn rule_metric(
    rules: Seq<FlowRuleStats>,
    wall: u64,
    what: RuleMeasure,
) -> MetricView {
    let points = rule_points(rules, wall, what);
    match what {
        RuleMeasure::Flows => MetricView {
            name: "infmon.flow-rule.flows"@,
            description: "Number of live flows in this flow-rule"@,
            unit: "{flows}"@,
            shape: Shape::Gauge,
            points,
        },
        RuleMeasure::Evictions => MetricView {
            name: "infmon.flow-rule.evictions"@,
            description: "Total evictions for this flow-rule"@,
            unit: "{evictions}"@,
            shape: total_shape(),
            points,
        },
        RuleMeasure::Drops => MetricView {
            name: "infmon.flow-rule.drops"@,
            description: "Total drops for this flow-rule"@,
            unit: "{drops}"@,
            shape: total_shape(),
            points,
        },
        RuleMeasure::Packets => MetricView {
            name: "infmon.flow-rule.packets"@,
            description: "Total packets for this flow-rule"@,
            unit: "{packets}"@,
            shape: total_shape(),
            points,
        },
        RuleMeasure::Bytes => MetricView {
            name: "infmon.flow-rule.bytes"@,
            description: "Total bytes for this flow-rule"@,
            unit: "By"@,
            shape: total_shape(),
            points,
        },
    }
}

/// A metric with data points, or nothing.
pub open spec fn unless_empty(m: MetricView) -> Seq<MetricView> {
    if m.points.len() == 0 {
        Seq::empty()
    } else {
        seq![m]
    }
}

/// The metrics of flows and flow rules; one without data points is left out.
pub open spec fn data_metrics(
    rules: Seq<FlowRuleStats>,
    limit: u64,
    wall: u64,
) -> Seq<MetricView> {
    unless_empty(flow_metric(rules, limit, wall, FlowMeasure::Packets)) + unless_empty(
        flow_metric(rules, limit, wall, FlowMeasure::Bytes),
    ) + unless_empty(flow_metric(rules, limit, wall, FlowMeasure::LastSeen)) + unless_empty(
        rule_metric(rules, wall, RuleMeasure::Flows),
    ) + unless_empty(rule_metric(rules, wall, RuleMeasure::Evictions)) + unless_empty(
        rule_metric(rules, wall, RuleMeasure::Drops),
    ) + unless_empty(rule_metric(rules, wall, RuleMeasure::Packets)) + unless_empty(
        rule_metric(rules, wall, RuleMeasure::Bytes),
    )
}

/// A data point that is the same for the whole exporter.
pub open spec fn own_point(attributes: Seq<KeyValueView>, wall: u64, value: NumberValue) -> PointView {
    PointView { attributes, start_time_unix_nano: 0, time_unix_nano: wall, value }
}

/// A counter of the exporter as a metric.
pub open spec fn sum_metric(
    name: Seq<char>,
    unit: Seq<char>,
    value: u64,
    attributes: Seq<KeyValueView>,
    wall: u64,
) -> MetricView {
    MetricView {
        name,
        description: Seq::empty(),
        unit,
        shape: total_shape(),
        points: seq![own_point(attributes, wall, NumberValue::AsInt(clamped(value as nat)))],
    }
}

/// A reading of the exporter as a metric.
pub open spec fn gauge_metric(
    name: Seq<char>,
    unit: Seq<char>,
    value: NumberValue,
    wall: u64,
) -> MetricView {
    MetricView {
        name,
        description: Seq::empty(),
        unit,
        shape: Shape::Gauge,
        points: seq![own_point(Seq::empty(), wall, value)],
    }
}

/// The failed batches, counted apart by what made them fail.
pub open spec fn failed_metric(m: ExporterMetrics, wall: u64) -> MetricView {
    MetricView {
        name: "infmon.exporter.batches_failed"@,
        description: Seq::empty(),
        unit: "{batches}"@,
        shape: total_shape(),
        points: seq![
            own_point(
                seq![attributes::text_attr("reason"@, "non_retryable"@)],
                wall,
                NumberValue::AsInt(clamped(m.batches_failed_non_retryable as nat)),
            ),
            own_point(
                seq![attributes::text_attr("reason"@, "transient"@)],
                wall,
                NumberValue::AsInt(clamped(m.batches_failed_transient as nat)),
            ),
        ],
    }
}

/// The metrics of the exporter about itself.
pub open spec fn self_metrics(m: ExporterMetrics, wall: u64) -> Seq<MetricView> {
    seq![
        sum_metric("infmon.exporter.ticks_dropped"@, "{ticks}"@, m.ticks_dropped, Seq::empty(), wall),
        sum_metric("infmon.exporter.batches_sent"@, "{batches}"@, m.batches_sent, Seq::empty(), wall),
        sum_metric(
            "infmon.exporter.batches_dropped"@,
            "{batches}"@,
            m.batches_dropped,
            Seq::empty(),
            wall,
        ),
        failed_metric(m, wall),
        sum_metric(
            "infmon.exporter.points_emitted"@,
            "{points}"@,
            m.points_emitted,
            Seq::empty(),
            wall,
        ),
        sum_metric(
            "infmon.exporter.points_dropped"@,
            "{points}"@,
            m.points_dropped,
            seq![attributes::text_attr("reason"@, "export_cap"@)],
            wall,
        ),
        sum_metric(
            "infmon.exporter.attrs_truncated"@,
            "{attrs}"@,
            m.attrs_truncated,
            Seq::empty(),
            wall,
        ),
        gauge_metric(
            "infmon.exporter.export_duration"@,
            "s"@,
            NumberValue::AsDoubleBits(m.export_duration_bits),
            wall,
        ),
        gauge_metric(
            "infmon.exporter.queue_depth"@,
            "{batches}"@,
            NumberValue::AsDoubleOf(m.queue_depth),
            wall,
        ),
    ]
}

// ---------------------------------------------------------------- building

fn point(attributes: Vec<KeyValue>, start: u64, wall: u64, value: NumberValue) -> (r:
    NumberDataPoint)
    ensures
        r@ == (PointView {
            attributes: model::attr_views(attributes@),
            start_time_unix_nano: start,
            time_unix_nano: wall,
            value,
        }),
{
    NumberDataPoint { attributes, start_time_unix_nano: start, time_unix_nano: wall, value }
}

/// Adds a data point to a list.
fn push_point(v: &mut Vec<NumberDataPoint>, p: NumberDataPoint)
    ensures
        model::point_views(final(v)@) == model::point_views(old(v)@).push(p@),
{
    let ghost before = v@;
    v.push(p);
    assert(model::point_views(v@) =~= model::point_views(before).push(p@));
}

/// Adds a metric to a list.
fn push_metric(v: &mut Vec<Metric>, m: Metric)
    ensures
        model::metric_views(final(v)@) == model::metric_views(old(v)@).push(m@),
{
    let ghost before = v@;
    v.push(m);
    assert(model::metric_views(v@) =~= model::metric_views(before).push(m@));
}

/// A list of one attribute.
fn one_attr(a: KeyValue) -> (r: Vec<KeyValue>)
    ensures
        model::attr_views(r@) == seq![a@],
{
    let mut r: Vec<KeyValue> = Vec::new();
    r.push(a);
    assert(model::attr_views(r@) =~= seq![a@]);
    r
}

/// No attributes.
fn no_attrs() -> (r: Vec<KeyValue>)
    ensures
        model::attr_views(r@) == Seq::<KeyValueView>::empty(),
{
    let r: Vec<KeyValue> = Vec::new();
    assert(model::attr_views(r@) =~= Seq::<KeyValueView>::empty());
    r
}

/// A metric of the given shape.
fn metric(
    name: &str,
    description: &str,
    unit: &str,
    sum: bool,
    data_points: Vec<NumberDataPoint>,
) -> (r: Metric)
    ensures
        r@ == (MetricView {
            name: name@,
            description: description@,
            unit: unit@,
            shape: if sum {
                total_shape()
            } else {
                Shape::Gauge
            },
            points: model::point_views(data_points@),
        }),
{
    Metric {
        name: name.to_owned(),
        description: description.to_owned(),
        unit: unit.to_owned(),
        data: Some(
            if sum {
                Data::Sum(
                    Sum {
                        data_points,
                        aggregation_temporality: AggregationTemporality::Cumulative,
                        is_monotonic: true,
                    },
                )
            } else {
                Data::Gauge(Gauge { data_points })
            },
        ),
    }
}

/// Adds a metric to a list unless it has no data points.
fn push_unless_empty(v: &mut Vec<Metric>, m: Metric)
    ensures
        model::metric_views(final(v)@) == model::metric_views(old(v)@) + unless_empty(m@),
{
    let empty = match &m.data {
        None => true,
        Some(Data::Sum(s)) => s.data_points.len() == 0,
        Some(Data::Gauge(g)) => g.data_points.len() == 0,
    };
    if empty {
        assert(model::metric_views(v@) + unless_empty(m@) =~= model::metric_views(v@));
    } else {
        push_metric(v, m);
    }
}

/// A counter of the exporter as a metric.
pub fn make_sum_metric(
    name: &str,
    unit: &str,
    value: u64,
    attrs: Vec<KeyValue>,
    time_unix_nano: u64,
) -> (r: Metric)
    ensures
        r@ == sum_metric(name@, unit@, value, model::attr_views(attrs@), time_unix_nano),
{
    let mut points: Vec<NumberDataPoint> = Vec::new();
    push_point(
        &mut points,
        point(attrs, 0, time_unix_nano, NumberValue::AsInt(saturating_i64(value))),
    );
    let r = metric(name, "", unit, true, points);
    proof {
        reveal_strlit("");
        assert(""@ =~= Seq::<char>::empty());
        assert(r@.points =~= sum_metric(
            name@,
            unit@,
            value,
            model::attr_views(attrs@),
            time_unix_nano,
        ).points);
    }
    r
}

/// A reading of the exporter as a metric.
pub fn make_gauge_metric(name: &str, unit: &str, value: NumberValue, time_unix_nano: u64) -> (r:
    Metric)
    ensures
        r@ == gauge_metric(name@, unit@, value, time_unix_nano),
{
    let mut points: Vec<NumberDataPoint> = Vec::new();
    push_point(&mut points, point(no_attrs(), 0, time_unix_nano, value));
    let r = metric(name, "", unit, false, points);
    proof {
        reveal_strlit("");
        assert(""@ =~= Seq::<char>::empty());
        assert(r@.points =~= gauge_metric(name@, unit@, value, time_unix_nano).points);
    }
    r
}

fn make_failed_metric(m: &ExporterMetrics, wall: u64) -> (r: Metric)
    ensures
        r@ == failed_metric(*m, wall),
{
    let mut points: Vec<NumberDataPoint> = Vec::new();
    push_point(
        &mut points,
        point(
            one_attr(kv_string("reason", "non_retryable")),
            0,
            wall,
            NumberValue::AsInt(saturating_i64(m.batches_failed_non_retryable)),
        ),
    );
    push_point(
        &mut points,
        point(
            one_attr(kv_string("reason", "transient")),
            0,
            wall,
            NumberValue::AsInt(saturating_i64(m.batches_failed_transient)),
        ),
    );
    let r = metric("infmon.exporter.batches_failed", "", "{batches}", true, points);
    proof {
        reveal_strlit("");
        assert(""@ =~= Seq::<char>::empty());
        assert(r@.points =~= failed_metric(*m, wall).points);
    }
    r
}

/// Adds the metrics of the exporter about itself.
pub fn push_self_metrics(v: &mut Vec<Metric>, m: &ExporterMetrics, wall: u64)
    ensures
        model::metric_views(final(v)@) == model::metric_views(old(v)@) + self_metrics(*m, wall),
{
    let ghost before = model::metric_views(v@);
    push_metric(
        v,
        make_sum_metric(
            "infmon.exporter.ticks_dropped",
            "{ticks}",
            m.ticks_dropped,
            no_attrs(),
            wall,
        ),
    );
    push_metric(
        v,
        make_sum_metric(
            "infmon.exporter.batches_sent",
            "{batches}",
            m.batches_sent,
            no_attrs(),
            wall,
        ),
    );
    push_metric(
        v,
        make_sum_metric(
            "infmon.exporter.batches_dropped",
            "{batches}",
            m.batches_dropped,
            no_attrs(),
            wall,
        ),
    );
    push_metric(v, make_failed_metric(m, wall));
    push_metric(
        v,
        make_sum_metric(
            "infmon.exporter.points_emitted",
            "{points}",
            m.points_emitted,
            no_attrs(),
            wall,
        ),
    );
    push_metric(
        v,
        make_sum_metric(
            "infmon.exporter.points_dropped",
            "{points}",
            m.points_dropped,
            one_attr(kv_string("reason", "export_cap")),
            wall,
        ),
    );
    push_metric(
        v,
        make_sum_metric(
            "infmon.exporter.attrs_truncated",
            "{attrs}",
            m.attrs_truncated,
            no_attrs(),
            wall,
        ),
    );
    push_metric(
        v,
        make_gauge_metric(
            "infmon.exporter.export_duration",
            "s",
            NumberValue::AsDoubleBits(m.export_duration_bits),
            wall,
        ),
    );
    push_metric(
        v,
        make_gauge_metric(
            "infmon.exporter.queue_depth",
            "{batches}",
            NumberValue::AsDoubleOf(m.queue_depth),
            wall,
        ),
    );
    assert(model::metric_views(v@) =~= before + self_metrics(*m, wall));
}

// ---------------------------------------------------------------- collecting data points

/// The data points of flows, by measure.
struct FlowPoints {
    packets: Vec<NumberDataPoint>,
    bytes: Vec<NumberDataPoint>,
    last_seen: Vec<NumberDataPoint>,
}

impl FlowPoints {
    spec fn of(self, what: FlowMeasure) -> Seq<PointView> {
        match what {
            FlowMeasure::Packets => model::point_views(self.packets@),
            FlowMeasure::Bytes => model::point_views(self.bytes@),
            FlowMeasure::LastSeen => model::point_views(self.last_seen@),
        }
    }
}

/// The data points of flow rules, by measure.
struct RulePoints {
    flows: Vec<NumberDataPoint>,
    evictions: Vec<NumberDataPoint>,
    drops: Vec<NumberDataPoint>,
    packets: Vec<NumberDataPoint>,
    bytes: Vec<NumberDataPoint>,
}

impl RulePoints {
    spec fn of(self, what: RuleMeasure) -> Seq<PointView> {
        match what {
            RuleMeasure::Flows => model::point_views(self.flows@),
            RuleMeasure::Evictions => model::point_views(self.evictions@),
            RuleMeasure::Drops => model::point_views(self.drops@),
            RuleMeasure::Packets => model::point_views(self.packets@),
            RuleMeasure::Bytes => model::point_views(self.bytes@),
        }
    }
}

proof fn counted_twice(c: u64, a: nat, b: nat)
    ensures
        attributes::counted(attributes::counted(c, a), b) == attributes::counted(c, a + b),
{
}

/// Adds the data points of one flow.
fn push_flow(out: &mut FlowPoints, fr: &FlowRuleStats, flow: &FlowStats, wall: u64, cut: &mut u64)
    ensures
        forall|what: FlowMeasure| #[trigger]
            final(out).of(what) == old(out).of(what).push(flow_point(*fr, *flow, wall, what)),
        *final(cut) == attributes::counted(
            *old(cut),
            attributes::flow_cuts(fr.name@, fr.fields@, flow.key@),
        ),
{
    let attrs = attributes::build_flow_attributes(fr, flow, &fr.fields, Some(cut));
    push_point(
        &mut out.packets,
        point(
            model::copy_attrs(&attrs),
            flow.counters.first_seen_ns,
            wall,
            NumberValue::AsInt(saturating_i64(flow.counters.packets)),
        ),
    );
    push_point(
        &mut out.bytes,
        point(
            model::copy_attrs(&attrs),
            flow.counters.first_seen_ns,
            wall,
            NumberValue::AsInt(saturating_i64(flow.counters.bytes)),
        ),
    );
    push_point(
        &mut out.last_seen,
        point(attrs, 0, wall, NumberValue::AsInt(saturating_i64(flow.counters.last_seen_ns))),
    );
}

/// Adds the data points of the first `n` flows of a rule.
fn push_flows(out: &mut FlowPoints, fr: &FlowRuleStats, n: usize, wall: u64, cut: &mut u64)
    requires
        n <= fr.flows.len(),
    ensures
        forall|what: FlowMeasure| #[trigger]
            final(out).of(what) == old(out).of(what) + first_flow_points(
                *fr,
                wall,
                what,
                n as nat,
            ),
        *final(cut) == attributes::counted(*old(cut), first_flow_cuts(*fr, n as nat)),
{
    let ghost before = *out;
    let ghost start = *cut;
    let mut i: usize = 0;
    assert forall|what: FlowMeasure| #[trigger]
        out.of(what) == before.of(what) + first_flow_points(*fr, wall, what, 0) by {
        assert(before.of(what) + first_flow_points(*fr, wall, what, 0) =~= before.of(what));
    }
    while i < n
        invariant
            i <= n <= fr.flows.len(),
            forall|what: FlowMeasure| #[trigger]
                out.of(what) == before.of(what) + first_flow_points(*fr, wall, what, i as nat),
            *cut == attributes::counted(start, first_flow_cuts(*fr, i as nat)),
        decreases n - i,
    {
        let ghost mid = *out;
        push_flow(out, fr, &fr.flows[i], wall, cut);
        proof {
            assert forall|what: FlowMeasure| #[trigger]
                out.of(what) == before.of(what) + first_flow_points(
                    *fr,
                    wall,
                    what,
                    i as nat + 1,
                ) by {
                assert(mid.of(what) == before.of(what) + first_flow_points(
                    *fr,
                    wall,
                    what,
                    i as nat,
                ));
                assert((before.of(what) + first_flow_points(*fr, wall, what, i as nat)).push(
                    flow_point(*fr, fr.flows@[i as int], wall, what),
                ) =~= before.of(what) + first_flow_points(*fr, wall, what, i as nat + 1));
            }
            counted_twice(
                start,
                first_flow_cuts(*fr, i as nat),
                attributes::flow_cuts(fr.name@, fr.fields@, fr.flows@[i as int].key@),
            );
        }
        i = i + 1;
    }
}

/// Adds the data points of one rule.
fn push_rule(out: &mut RulePoints, fr: &FlowRuleStats, wall: u64)
    ensures
        forall|what: RuleMeasure| #[trigger]
            final(out).of(what) == old(out).of(what).push(rule_point(*fr, wall, what)),
{
    push_point(
        &mut out.flows,
        point(
            one_attr(kv_string("flow-rule", fr.name.as_str())),
            0,
            wall,
            NumberValue::AsInt(saturating_i64(fr.flows.len() as u64)),
        ),
    );
    push_point(
        &mut out.evictions,
        point(
            one_attr(kv_string("flow-rule", fr.name.as_str())),
            0,
            wall,
            NumberValue::AsInt(saturating_i64(fr.counters.evictions)),
        ),
    );
    let mut drop_attrs = one_attr(kv_string("flow-rule", fr.name.as_str()));
    let ghost named = drop_attrs@;
    let reason = kv_string("reason", "eviction_failed");
    let ghost reason_view = reason@;
    drop_attrs.push(reason);
    assert(model::attr_views(drop_attrs@) =~= model::attr_views(named).push(reason_view));
    push_point(
        &mut out.drops,
        point(drop_attrs, 0, wall, NumberValue::AsInt(saturating_i64(fr.counters.drops))),
    );
    push_point(
        &mut out.packets,
        point(
            one_attr(kv_string("flow-rule", fr.name.as_str())),
            0,
            wall,
            NumberValue::AsInt(saturating_i64(fr.counters.packets)),
        ),
    );
    push_point(
        &mut out.bytes,
        point(
            one_attr(kv_string("flow-rule", fr.name.as_str())),
            0,
            wall,
            NumberValue::AsInt(saturating_i64(fr.counters.bytes)),
        ),
    );
}

/// What a snapshot makes: its metrics, how many data points they hold, and how many were left
/// out.
pub struct Built {
    pub metrics: Vec<Metric>,
    pub points: u64,
    pub dropped: u64,
}

/// Builds the metrics of flows and flow rules, and counts in `cut` the attributes that were cut.
pub fn build_metrics(rules: &Vec<FlowRuleStats>, limit: u64, wall: u64, cut: &mut u64) -> (r:
    Built)
    requires
        budget::countable(rules@),
    ensures
        model::metric_views(r.metrics@) == data_metrics(rules@, limit, wall),
        r.points == 3 * budget::emitted_in(rules@, limit, rules@.len()) + 5 * rules@.len(),
        r.dropped == dropped(rules@, limit, rules@.len()),
        *final(cut) == attributes::counted(*old(cut), cuts(rules@, limit, rules@.len())),
{
    let budgets = budget::flow_budgets(rules, limit);
    let ghost start = *cut;
    let mut flows = FlowPoints { packets: Vec::new(), bytes: Vec::new(), last_seen: Vec::new() };
    let mut own = RulePoints {
        flows: Vec::new(),
        evictions: Vec::new(),
        drops: Vec::new(),
        packets: Vec::new(),
        bytes: Vec::new(),
    };
    let mut sent: u64 = 0;
    let mut left_out: u64 = 0;
    let mut i: usize = 0;
    assert forall|what: FlowMeasure| #[trigger]
        flows.of(what) == flow_points(rules@, limit, wall, what, 0) by {
        assert(flows.of(what) =~= Seq::<PointView>::empty());
    }
    assert forall|what: RuleMeasure| #[trigger]
        own.of(what) == rule_points(rules@, wall, what).take(0) by {
        assert(own.of(what) =~= rule_points(rules@, wall, what).take(0));
    }
    while i < rules.len()
        invariant
            i <= rules.len(),
            budgets.len() == rules.len(),
            budget::countable(rules@),
            forall|k: int|
                0 <= k < budgets.len() ==> #[trigger] budgets@[k] == budget::budget(
                    rules@,
                    limit,
                    k,
                ),
            forall|what: FlowMeasure| #[trigger]
                flows.of(what) == flow_points(rules@, limit, wall, what, i as nat),
            forall|what: RuleMeasure| #[trigger]
                own.of(what) == rule_points(rules@, wall, what).take(i as int),
            sent == budget::emitted_in(rules@, limit, i as nat),
            left_out == dropped(rules@, limit, i as nat),
            *cut == attributes::counted(start, cuts(rules@, limit, i as nat)),
        decreases rules.len() - i,
    {
        let fr = &rules[i];
        let allowed: u64 = budgets[i];
        let have: u64 = fr.flows.len() as u64;
        let emit: u64 = if allowed <= have {
            allowed
        } else {
            have
        };
        proof {
            budget::emitted_within_flows(rules@, limit, i as nat);
            budget::emitted_within_flows(rules@, limit, i as nat + 1);
            flows_upto(rules@, i as nat + 1);
            counted_twice(
                start,
                cuts(rules@, limit, i as nat),
                first_flow_cuts(*fr, emit as nat),
            );
        }
        let ghost flows_before = flows;
        let ghost own_before = own;
        push_flows(&mut flows, fr, emit as usize, wall, cut);
        push_rule(&mut own, fr, wall);
        sent = sent + emit;
        left_out = left_out + (have - emit) * budget::POINTS_PER_FLOW;
        proof {
            assert forall|what: FlowMeasure| #[trigger]
                flows.of(what) == flow_points(rules@, limit, wall, what, i as nat + 1) by {
                assert(flows_before.of(what) == flow_points(rules@, limit, wall, what, i as nat));
            }
            assert forall|what: RuleMeasure| #[trigger]
                own.of(what) == rule_points(rules@, wall, what).take(i as int + 1) by {
                assert(own_before.of(what) == rule_points(rules@, wall, what).take(i as int));
                assert(rule_points(rules@, wall, what).take(i as int + 1) =~= rule_points(
                    rules@,
                    wall,
                    what,
                ).take(i as int).push(rule_point(*fr, wall, what)));
            }
        }
        i = i + 1;
    }
    proof {
        budget::emitted_within_flows(rules@, limit, rules@.len());
        assert forall|what: RuleMeasure| #[trigger] own.of(what) == rule_points(
            rules@,
            wall,
            what,
        ) by {
            assert(rule_points(rules@, wall, what).take(rules@.len() as int) =~= rule_points(
                rules@,
                wall,
                what,
            ));
        }
    }
    let points: u64 = sent * budget::POINTS_PER_FLOW + rules.len() as u64
        * budget::POINTS_PER_FLOW_RULE;
    let metrics = group_metrics(flows, own, Ghost(rules@), Ghost(limit), Ghost(wall));
    Built { metrics, points, dropped: left_out }
}

proof fn flows_upto(rules: Seq<FlowRuleStats>, n: nat)
    requires
        n <= rules.len(),
    ensures
        budget::flows_in(rules, n) <= budget::flows_in(rules, rules.len()),
    decreases rules.len() - n,
{
    if n < rules.len() {
        flows_upto(rules, n + 1);
    }
}

/// Makes one metric per measure.
fn group_metrics(
    flows: FlowPoints,
    own: RulePoints,
    Ghost(rules): Ghost<Seq<FlowRuleStats>>,
    Ghost(limit): Ghost<u64>,
    Ghost(wall): Ghost<u64>,
) -> (r: Vec<Metric>)
    requires
        forall|what: FlowMeasure| #[trigger]
            flows.of(what) == flow_points(rules, limit, wall, what, rules.len()),
        forall|what: RuleMeasure| #[trigger] own.of(what) == rule_points(rules, wall, what),
    ensures
        model::metric_views(r@) == data_metrics(rules, limit, wall),
{
    proof {
        assert(flows.of(FlowMeasure::Packets) == model::point_views(flows.packets@));
        assert(flows.of(FlowMeasure::Bytes) == model::point_views(flows.bytes@));
        assert(flows.of(FlowMeasure::LastSeen) == model::point_views(flows.last_seen@));
        assert(own.of(RuleMeasure::Flows) == model::point_views(own.flows@));
        assert(own.of(RuleMeasure::Evictions) == model::point_views(own.evictions@));
        assert(own.of(RuleMeasure::Drops) == model::point_views(own.drops@));
        assert(own.of(RuleMeasure::Packets) == model::point_views(own.packets@));
        assert(own.of(RuleMeasure::Bytes) == model::point_views(own.bytes@));
    }
    let mut r: Vec<Metric> = Vec::new();
    assert(model::metric_views(r@) =~= Seq::<MetricView>::empty());
    push_unless_empty(
        &mut r,
        metric(
            "infmon.flow.packets",
            "Total packets attributed to this flow",
            "{packets}",
            true,
            flows.packets,
        ),
    );
    push_unless_empty(
        &mut r,
        metric(
            "infmon.flow.bytes",
            "Total bytes attributed to this flow",
            "By",
            true,
            flows.bytes,
        ),
    );
    push_unless_empty(
        &mut r,
        metric(
            "infmon.flow.last_seen",
            "Wall-clock ns of the most recent packet",
            "ns",
            false,
            flows.last_seen,
        ),
    );
    push_unless_empty(
        &mut r,
        metric(
            "infmon.flow-rule.flows",
            "Number of live flows in this flow-rule",
            "{flows}",
            false,
            own.flows,
        ),
    );
    push_unless_empty(
        &mut r,
        metric(
            "infmon.flow-rule.evictions",
            "Total evictions for this flow-rule",
            "{evictions}",
            true,
            own.evictions,
        ),
    );
    push_unless_empty(
        &mut r,
        metric(
            "infmon.flow-rule.drops",
            "Total drops for this flow-rule",
            "{drops}",
            true,
            own.drops,
        ),
    );
    push_unless_empty(
        &mut r,
        metric(
            "infmon.flow-rule.packets",
            "Total packets for this flow-rule",
            "{packets}",
            true,
            own.packets,
        ),
    );
    push_unless_empty(
        &mut r,
        metric(
            "infmon.flow-rule.bytes",
            "Total bytes for this flow-rule",
            "By",
            true,
            own.bytes,
        ),
    );
    proof {
        assert(Seq::<MetricView>::empty() + unless_empty(
            flow_metric(rules, limit, wall, FlowMeasure::Packets),
        ) =~= unless_empty(flow_metric(rules, limit, wall, FlowMeasure::Packets)));
    }
    r
}

} // verus!
