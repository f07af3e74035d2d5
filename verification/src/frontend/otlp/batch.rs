//! Cutting a request into batches of limited size.

use vstd::prelude::*;

use super::model::{
    self, Data, ExportMetricsServiceRequest, Gauge, InstrumentationScope, KeyValueView, Metric,
    MetricView, NumberDataPoint, PointView, Resource, ResourceMetrics, ResourceMetricsView,
    ScopeMetrics, ScopeMetricsView, Shape, Sum,
};

verus! {

// ---------------------------------------------------------------- splitting one metric

/// `points` cut into runs of `max`, the last one shorter where they do not come out even.
pub open spec fn runs(points: Seq<PointView>, max: nat) -> Seq<Seq<PointView>>
    decreases points.len(),
{
    if points.len() == 0 || max == 0 {
        Seq::empty()
    } else if points.len() <= max {
        seq![points]
    } else {
        seq![points.take(max as int)] + runs(points.skip(max as int), max)
    }
}

/// The metric with other data points.
pub open spec fn with_points(m: MetricView, points: Seq<PointView>) -> MetricView {
    MetricView { points, ..m }
}

/// The metric cut into metrics of at most `max` data points (at least one each).
pub open spec fn split_metric(m: MetricView, max: nat) -> Seq<MetricView> {
    let size = if max == 0 {
        1
    } else {
        max
    };
    if m.shape == Shape::NoData {
        seq![m]
    } else {
        runs(m.points, size).map_values(|p: Seq<PointView>| with_points(m, p))
    }
}

/// All data points of a list of metrics, in order.
pub open spec fn all_points(s: Seq<MetricView>) -> Seq<PointView>
    decreases s.len(),
{
    if s.len() == 0 {
        Seq::empty()
    } else {
        all_points(s.drop_last()) + s.last().points
    }
}

/// The runs in a row.
pub open spec fn joined(s: Seq<Seq<PointView>>) -> Seq<PointView>
    decreases s.len(),
{
    if s.len() == 0 {
        Seq::empty()
    } else {
        s[0] + joined(s.drop_first())
    }
}

/// Cutting data points into runs keeps all of them in order, and no run is empty or too long.
pub proof fn runs_keep_points(points: Seq<PointView>, max: nat)
    requires
        max > 0,
    ensures
        joined(runs(points, max)) == points,
        forall|i: int|
            0 <= i < runs(points, max).len() ==> 0 < (#[trigger] runs(points, max)[i]).len()
                <= max,
    decreases points.len(),
{
    reveal_with_fuel(joined, 2);
    let r = runs(points, max);
    if points.len() == 0 {
    } else if points.len() <= max {
        assert(r.drop_first() =~= Seq::<Seq<PointView>>::empty());
        assert(joined(r) =~= points);
    } else {
        let rest = points.skip(max as int);
        runs_keep_points(rest, max);
        assert(r.drop_first() =~= runs(rest, max));
        assert(points.take(max as int) + rest =~= points);
        assert forall|i: int| 0 <= i < r.len() implies 0 < (#[trigger] r[i]).len() <= max by {
            if i > 0 {
                assert(r[i] == runs(rest, max)[i - 1]);
            }
        }
    }
}

/// How many data points a metric holds.
pub fn count_metric_data_points(m: &Metric) -> (r: usize)
    ensures
        r == m@.points.len(),
{
    match &m.data {
        None => 0,
        Some(Data::Sum(s)) => s.data_points.len(),
        Some(Data::Gauge(g)) => g.data_points.len(),
    }
}

/// Copies of the data points from `from` up to `to`.
fn copy_range(v: &Vec<NumberDataPoint>, from: usize, to: usize) -> (r: Vec<NumberDataPoint>)
    requires
        from <= to <= v.len(),
    ensures
        model::point_views(r@) == model::point_views(v@).subrange(from as int, to as int),
{
    let mut r: Vec<NumberDataPoint> = Vec::new();
    let mut i: usize = from;
    while i < to
        invariant
            from <= i <= to <= v.len(),
            r.len() == i - from,
            forall|k: int| 0 <= k < i - from ==> (#[trigger] r@[k])@ == v@[from + k]@,
        decreases to - i,
    {
        r.push(model::copy_point(&v[i]));
        i = i + 1;
    }
    assert(model::point_views(r@) =~= model::point_views(v@).subrange(from as int, to as int));
    r
}

/// The metrics of a list of metrics with their sizes.
pub open spec fn piece_views(s: Seq<(Metric, usize)>) -> Seq<MetricView> {
    s.map_values(|p: (Metric, usize)| p.0@)
}

/// Each size is that of its metric.
pub open spec fn sizes_true(s: Seq<(Metric, usize)>) -> bool {
    forall|i: int| 0 <= i < s.len() ==> (#[trigger] s[i]).1 == s[i].0@.points.len()
}

fn cut_points(name: &String, description: &String, unit: &String, like: &Data, max: usize) -> (r:
    Vec<(Metric, usize)>)
    requires
        max > 0,
    ensures
        sizes_true(r@),
        ({
            let m = MetricView {
                name: name@,
                description: description@,
                unit: unit@,
                shape: like.shape(),
                points: like.points(),
            };
            piece_views(r@) == split_metric(m, max as nat)
        }),
{
    let data_points = match like {
        Data::Sum(s) => &s.data_points,
        Data::Gauge(g) => &g.data_points,
    };
    let ghost points = model::point_views(data_points@);
    let ghost m = MetricView {
        name: name@,
        description: description@,
        unit: unit@,
        shape: like.shape(),
        points,
    };
    let mut r: Vec<(Metric, usize)> = Vec::new();
    let mut from: usize = 0;
    let n: usize = data_points.len();
    assert(points.skip(0) =~= points);
    assert(piece_views(r@) + runs(points, max as nat).map_values(
        |p: Seq<PointView>| with_points(m, p),
    ) =~= split_metric(m, max as nat));
    while from < n
        invariant
            from <= n == data_points.len(),
            max > 0,
            points == model::point_views(data_points@),
            m == (MetricView {
                name: name@,
                description: description@,
                unit: unit@,
                shape: like.shape(),
                points,
            }),
            sizes_true(r@),
            piece_views(r@) + runs(points.skip(from as int), max as nat).map_values(
                |p: Seq<PointView>| with_points(m, p),
            ) == split_metric(m, max as nat),
        decreases n - from,
    {
        let to: usize = if n - from <= max {
            n
        } else {
            from + max
        };
        let chunk = copy_range(data_points, from, to);
        let count: usize = chunk.len();
        let piece = Metric {
            name: name.clone(),
            description: description.clone(),
            unit: unit.clone(),
            data: Some(
                match like {
                    Data::Sum(s) => Data::Sum(
                        Sum {
                            data_points: chunk,
                            aggregation_temporality: s.aggregation_temporality,
                            is_monotonic: s.is_monotonic,
                        },
                    ),
                    Data::Gauge(_) => Data::Gauge(Gauge { data_points: chunk }),
                },
            ),
        };
        let ghost rest = points.skip(from as int);
        let ghost mine = points.subrange(from as int, to as int);
        let ghost before = piece_views(r@);
        assert(piece@ == with_points(m, mine));
        r.push((piece, count));
        proof {
            assert(piece_views(r@) =~= before.push(with_points(m, mine)));
            let f = |p: Seq<PointView>| with_points(m, p);
            if n - from <= max {
                assert(mine =~= rest);
                assert(points.skip(to as int) =~= Seq::<PointView>::empty());
                assert(piece_views(r@) + runs(points.skip(to as int), max as nat).map_values(f)
                    =~= before + runs(rest, max as nat).map_values(f));
            } else {
                assert(mine =~= rest.take(max as int));
                assert(points.skip(to as int) =~= rest.skip(max as int));
                assert(piece_views(r@) + runs(points.skip(to as int), max as nat).map_values(f)
                    =~= before + runs(rest, max as nat).map_values(f));
            }
        }
        from = to;
    }
    assert(points.skip(n as int) =~= Seq::<PointView>::empty());
    assert(piece_views(r@) =~= split_metric(m, max as nat));
    r
}

/// Cuts a metric into metrics of at most `max_points` data points, each with its size.
pub fn split_metric_data_points(m: Metric, max_points: usize) -> (r: Vec<(Metric, usize)>)
    ensures
        piece_views(r@) == split_metric(m@, max_points as nat),
        sizes_true(r@),
{
    let max: usize = if max_points == 0 {
        1
    } else {
        max_points
    };
    match &m.data {
        None => {
            let mut r: Vec<(Metric, usize)> = Vec::new();
            let ghost v = m@;
            r.push((m, 0));
            assert(piece_views(r@) =~= seq![v]);
            r
        },
        Some(d) => cut_points(&m.name, &m.description, &m.unit, d, max),
    }
}

// ---------------------------------------------------------------- packing

/// Batches that are full, and the one that is being filled with its number of data points.
#[verifier::ext_equal]
pub struct Packing {
    pub done: Seq<Seq<MetricView>>,
    pub open: Seq<MetricView>,
    pub count: nat,
}

/// Closes the open batch.
pub open spec fn flushed(p: Packing) -> Packing {
    Packing { done: p.done.push(p.open), open: Seq::empty(), count: 0 }
}

/// Puts a metric that fits in a batch into the open one, or into the next where it is too full.
pub open spec fn placed(p: Packing, m: MetricView, max: nat) -> Packing {
    let q = if m.points.len() > 0 && p.count + m.points.len() > max {
        flushed(p)
    } else {
        p
    };
    Packing { done: q.done, open: q.open.push(m), count: q.count + m.points.len() }
}

/// Puts metrics that fit in a batch one after the other.
pub open spec fn placed_all(p: Packing, ms: Seq<MetricView>, max: nat) -> Packing
    decreases ms.len(),
{
    if ms.len() == 0 {
        p
    } else {
        placed(placed_all(p, ms.drop_last(), max), ms.last(), max)
    }
}

/// Puts a metric: one that no batch can hold is split and starts a batch of its own.
pub open spec fn packed_one(p: Packing, m: MetricView, max: nat) -> Packing {
    if m.points.len() <= max {
        placed(p, m, max)
    } else {
        let q = if p.open.len() > 0 {
            flushed(p)
        } else {
            p
        };
        placed_all(q, split_metric(m, max), max)
    }
}

/// Nothing packed.
pub open spec fn unpacked() -> Packing {
    Packing { done: Seq::empty(), open: Seq::empty(), count: 0 }
}

/// Packs metrics in order.
pub open spec fn packed(ms: Seq<MetricView>, max: nat) -> Packing
    decreases ms.len(),
{
    if ms.len() == 0 {
        unpacked()
    } else {
        packed_one(packed(ms.drop_last(), max), ms.last(), max)
    }
}

/// The batches that metrics make.
pub open spec fn batches(ms: Seq<MetricView>, max: nat) -> Seq<Seq<MetricView>> {
    let p = packed(ms, max);
    if p.open.len() > 0 {
        p.done.push(p.open)
    } else {
        p.done
    }
}

/// The open batch holds what is counted, nothing is too large, and `points` is what went in.
pub open spec fn packing_sound(p: Packing, max: nat, points: Seq<PointView>) -> bool {
    &&& p.count == all_points(p.open).len()
    &&& p.count <= max
    &&& forall|i: int|
        0 <= i < p.done.len() ==> all_points(#[trigger] p.done[i]).len() <= max && p.done[i].len()
            > 0
    &&& batch_points(p.done) + all_points(p.open) == points
}

/// All data points of a list of batches, in order.
pub open spec fn batch_points(bs: Seq<Seq<MetricView>>) -> Seq<PointView>
    decreases bs.len(),
{
    if bs.len() == 0 {
        Seq::empty()
    } else {
        batch_points(bs.drop_last()) + all_points(bs.last())
    }
}

proof fn flushed_sound(p: Packing, max: nat, points: Seq<PointView>)
    requires
        packing_sound(p, max, points),
        p.open.len() > 0,
    ensures
        packing_sound(flushed(p), max, points),
{
    let q = flushed(p);
    assert(q.done.drop_last() =~= p.done);
    assert(batch_points(q.done) + all_points(q.open) =~= points);
}

proof fn placed_sound(p: Packing, m: MetricView, max: nat, points: Seq<PointView>)
    requires
        packing_sound(p, max, points),
        m.points.len() <= max,
    ensures
        packing_sound(placed(p, m, max), max, points + m.points),
{
    let full = m.points.len() > 0 && p.count + m.points.len() > max;
    let q = if full {
        assert(p.open.len() > 0);
        flushed_sound(p, max, points);
        flushed(p)
    } else {
        p
    };
    let r = placed(p, m, max);
    assert(r.open.drop_last() =~= q.open);
    assert(batch_points(r.done) + all_points(r.open) =~= points + m.points);
}

proof fn placed_all_sound(p: Packing, ms: Seq<MetricView>, max: nat, points: Seq<PointView>)
    requires
        packing_sound(p, max, points),
        forall|i: int| 0 <= i < ms.len() ==> (#[trigger] ms[i]).points.len() <= max,
    ensures
        packing_sound(placed_all(p, ms, max), max, points + all_points(ms)),
    decreases ms.len(),
{
    if ms.len() == 0 {
        assert(points + all_points(ms) =~= points);
    } else {
        placed_all_sound(p, ms.drop_last(), max, points);
        placed_sound(
            placed_all(p, ms.drop_last(), max),
            ms.last(),
            max,
            points + all_points(ms.drop_last()),
        );
        assert(points + all_points(ms) =~= points + all_points(ms.drop_last()) + ms.last().points);
    }
}

proof fn all_points_front(s: Seq<MetricView>)
    requires
        s.len() > 0,
    ensures
        all_points(s) == s[0].points + all_points(s.drop_first()),
    decreases s.len(),
{
    if s.len() == 1 {
        assert(s.drop_last() =~= Seq::<MetricView>::empty());
        assert(s.drop_first() =~= Seq::<MetricView>::empty());
        assert(all_points(s) =~= s[0].points + all_points(s.drop_first()));
    } else {
        all_points_front(s.drop_last());
        assert(s.drop_last().drop_first() =~= s.drop_first().drop_last());
        assert(all_points(s) =~= s[0].points + all_points(s.drop_first()));
    }
}

proof fn joined_is_all_points(m: MetricView, rs: Seq<Seq<PointView>>)
    ensures
        all_points(rs.map_values(|p: Seq<PointView>| with_points(m, p))) == joined(rs),
    decreases rs.len(),
{
    let f = |p: Seq<PointView>| with_points(m, p);
    let s = rs.map_values(f);
    if rs.len() > 0 {
        joined_is_all_points(m, rs.drop_first());
        all_points_front(s);
        assert(s.drop_first() =~= rs.drop_first().map_values(f));
    }
}

/// Splitting a metric keeps all its data points in order; no piece is too large, and every piece
/// has the name, the description, the unit, the kind of data, the temporality and the monotonicity
/// of the metric.
pub proof fn split_keeps_points(m: MetricView, max: nat)
    requires
        max > 0,
        m.shape == Shape::NoData ==> m.points.len() == 0,
    ensures
        all_points(split_metric(m, max)) == m.points,
        forall|i: int|
            0 <= i < split_metric(m, max).len() ==> ({
                let piece = #[trigger] split_metric(m, max)[i];
                &&& piece.points.len() <= max
                &&& piece.name == m.name
                &&& piece.description == m.description
                &&& piece.unit == m.unit
                &&& piece.shape == m.shape
                &&& with_points(piece, m.points) == m
            }),
{
    runs_keep_points(m.points, max);
    if m.shape == Shape::NoData {
        reveal_with_fuel(all_points, 2);
        let s = seq![m];
        assert(s.drop_last() =~= Seq::<MetricView>::empty());
        assert(all_points(s) =~= m.points);
    } else {
        joined_is_all_points(m, runs(m.points, max));
        assert forall|i: int| 0 <= i < split_metric(m, max).len() implies ({
            let piece = #[trigger] split_metric(m, max)[i];
            &&& piece.points.len() <= max
            &&& piece.name == m.name
            &&& piece.description == m.description
            &&& piece.unit == m.unit
            &&& piece.shape == m.shape
            &&& with_points(piece, m.points) == m
        }) by {
            assert(split_metric(m, max)[i].points == runs(m.points, max)[i]);
        }
    }
}

proof fn packed_one_sound(p: Packing, m: MetricView, max: nat, points: Seq<PointView>)
    requires
        max > 0,
        packing_sound(p, max, points),
        m.shape == Shape::NoData ==> m.points.len() == 0,
    ensures
        packing_sound(packed_one(p, m, max), max, points + m.points),
{
    if m.points.len() <= max {
        placed_sound(p, m, max, points);
    } else {
        let q = if p.open.len() > 0 {
            flushed_sound(p, max, points);
            flushed(p)
        } else {
            p
        };
        split_keeps_points(m, max);
        placed_all_sound(q, split_metric(m, max), max, points);
    }
}

/// A metric without data holds no data points.
pub open spec fn shapes_true(ms: Seq<MetricView>) -> bool {
    forall|i: int|
        0 <= i < ms.len() ==> ((#[trigger] ms[i]).shape == Shape::NoData ==> ms[i].points.len()
            == 0)
}

proof fn packed_sound(ms: Seq<MetricView>, max: nat)
    requires
        max > 0,
        shapes_true(ms),
    ensures
        packing_sound(packed(ms, max), max, all_points(ms)),
    decreases ms.len(),
{
    if ms.len() == 0 {
        assert(batch_points(unpacked().done) + all_points(unpacked().open) =~= all_points(ms));
    } else {
        packed_sound(ms.drop_last(), max);
        packed_one_sound(packed(ms.drop_last(), max), ms.last(), max, all_points(ms.drop_last()));
    }
}

/// No batch holds more data points than allowed or none of the metrics, and together the batches
/// hold all data points in order.
pub proof fn batches_keep_points(ms: Seq<MetricView>, max: nat)
    requires
        max > 0,
        shapes_true(ms),
    ensures
        forall|i: int|
            0 <= i < batches(ms, max).len() ==> all_points(#[trigger] batches(ms, max)[i]).len()
                <= max && batches(ms, max)[i].len() > 0,
        batch_points(batches(ms, max)) == all_points(ms),
{
    packed_sound(ms, max);
    let p = packed(ms, max);
    if p.open.len() > 0 {
        assert(p.done.push(p.open).drop_last() =~= p.done);
    } else {
        assert(batch_points(p.done) + all_points(p.open) =~= batch_points(p.done));
    }
}

/// The number of data points is the length of their list.
pub proof fn points_in_is_length(ms: Seq<MetricView>)
    ensures
        model::points_in(ms) == all_points(ms).len(),
    decreases ms.len(),
{
    if ms.len() > 0 {
        points_in_is_length(ms.drop_last());
    }
}

// ---------------------------------------------------------------- slicing a request

/// A request for one batch of metrics.
pub open spec fn wrapped(
    metrics: Seq<MetricView>,
    like: ResourceMetricsView,
) -> Seq<ResourceMetricsView> {
    seq![
        ResourceMetricsView {
            resource: like.resource,
            scope_metrics: seq![
                ScopeMetricsView {
                    scope: like.scope_metrics[0].scope,
                    metrics,
                    schema_url: like.scope_metrics[0].schema_url,
                },
            ],
            schema_url: like.schema_url,
        },
    ]
}

/// Whether a request goes out as it is: batching is off, there is nothing to batch, or one batch
/// holds it all.
pub open spec fn whole(req: Seq<ResourceMetricsView>, max: nat) -> bool {
    ||| max == 0
    ||| req.len() == 0
    ||| req[0].scope_metrics.len() == 0
    ||| model::points_in(model::request_metrics(req)) <= max
}

/// The batches of a request.
pub open spec fn sliced(
    req: Seq<ResourceMetricsView>,
    max: nat,
) -> Seq<Seq<ResourceMetricsView>> {
    if whole(req, max) {
        seq![req]
    } else {
        batches(model::request_metrics(req), max).map_values(
            |ms: Seq<MetricView>| wrapped(ms, req[0]),
        )
    }
}

/// One resource with one scope.
pub open spec fn single(req: Seq<ResourceMetricsView>) -> bool {
    req.len() == 1 && req[0].scope_metrics.len() == 1
}

/// A request for one batch of metrics.
pub fn wrap_batch(
    metrics: Vec<Metric>,
    resource: Option<Resource>,
    scope: Option<InstrumentationScope>,
    schema_url_rm: String,
    schema_url_sm: String,
) -> (r: ExportMetricsServiceRequest)
    ensures
        r@ == seq![
            ResourceMetricsView {
                resource: match resource {
                    None => None,
                    Some(x) => Some(model::attr_views(x.attributes@)),
                },
                scope_metrics: seq![
                    ScopeMetricsView {
                        scope: match scope {
                            None => None,
                            Some(s) => Some(s@),
                        },
                        metrics: model::metric_views(metrics@),
                        schema_url: schema_url_sm@,
                    },
                ],
                schema_url: schema_url_rm@,
            },
        ],
{
    let sm = ScopeMetrics { scope, metrics, schema_url: schema_url_sm };
    let ghost sm_view = sm@;
    let mut scopes: Vec<ScopeMetrics> = Vec::new();
    scopes.push(sm);
    assert(model::scope_views(scopes@) =~= seq![sm_view]);
    let rm = ResourceMetrics { resource, scope_metrics: scopes, schema_url: schema_url_rm };
    let ghost rm_view = rm@;
    let mut resource_metrics: Vec<ResourceMetrics> = Vec::new();
    resource_metrics.push(rm);
    let r = ExportMetricsServiceRequest { resource_metrics };
    assert(r@ =~= seq![rm_view]);
    r
}

/// The views of a list of batches.
pub open spec fn batch_views(s: Seq<Vec<Metric>>) -> Seq<Seq<MetricView>> {
    s.map_values(|b: Vec<Metric>| model::metric_views(b@))
}

/// Batches that are full, and the one that is being filled.
struct Packer {
    done: Vec<Vec<Metric>>,
    open: Vec<Metric>,
    count: usize,
}

impl Packer {
    spec fn model(self) -> Packing {
        Packing {
            done: batch_views(self.done@),
            open: model::metric_views(self.open@),
            count: self.count as nat,
        }
    }

    fn new() -> (r: Packer)
        ensures
            r.model() == unpacked(),
    {
        let r = Packer { done: Vec::new(), open: Vec::new(), count: 0 };
        assert(r.model() =~= unpacked());
        r
    }

    fn flush(self) -> (r: Packer)
        ensures
            r.model() == flushed(self.model()),
    {
        let mut done = self.done;
        done.push(self.open);
        let r = Packer { done, open: Vec::new(), count: 0 };
        assert(r.model() =~= flushed(self.model()));
        r
    }

    fn place(self, m: Metric, pts: usize, max: usize) -> (r: Packer)
        requires
            pts == m@.points.len(),
            pts <= max,
            self.count <= max,
        ensures
            r.model() == placed(self.model(), m@, max as nat),
            r.count <= max,
    {
        let start = if pts > max - self.count {
            self.flush()
        } else {
            self
        };
        let mut open = start.open;
        let ghost before = open@;
        let ghost mv = m@;
        open.push(m);
        assert(model::metric_views(open@) =~= model::metric_views(before).push(mv));
        Packer { done: start.done, open, count: start.count + pts }
    }

    fn place_all(self, ms: Vec<(Metric, usize)>, max: usize) -> (r: Packer)
        requires
            sizes_true(ms@),
            forall|i: int| 0 <= i < ms.len() ==> (#[trigger] ms@[i]).1 <= max,
            self.count <= max,
        ensures
            r.model() == placed_all(self.model(), piece_views(ms@), max as nat),
            r.count <= max,
    {
        let ghost all = ms@;
        let ghost views = piece_views(ms@);
        let mut p = self;
        assert(views.take(0) =~= Seq::<MetricView>::empty());
        for piece in it: ms
            invariant
                it.seq() == all,
                views == piece_views(all),
                sizes_true(all),
                forall|i: int| 0 <= i < all.len() ==> (#[trigger] all[i]).1 <= max,
                p.count <= max,
                p.model() == placed_all(self.model(), views.take(it.index() as int), max as nat),
        {
            let ghost k = it.index() as int;
            assert(piece == all[k]);
            assert(views.take(k + 1).drop_last() =~= views.take(k));
            assert(views.take(k + 1).last() == piece.0@);
            p = p.place(piece.0, piece.1, max);
        }
        assert(views.take(views.len() as int) =~= views);
        p
    }

    fn pack(self, m: Metric, max: usize) -> (r: Packer)
        requires
            self.count <= max,
            max > 0,
        ensures
            r.model() == packed_one(self.model(), m@, max as nat),
            r.count <= max,
    {
        let pts: usize = count_metric_data_points(&m);
        if pts <= max {
            return self.place(m, pts, max);
        }
        let start = if self.open.len() > 0 {
            self.flush()
        } else {
            self
        };
        proof {
            runs_keep_points(m@.points, max as nat);
            assert(m.data is Some);
            assert(m.data->Some_0.shape() != Shape::NoData);
        }
        let ghost mv = m@;
        let pieces = split_metric_data_points(m, max);
        proof {
            let rs = runs(mv.points, max as nat);
            assert(piece_views(pieces@) == rs.map_values(
                |p: Seq<PointView>| with_points(mv, p),
            ));
            assert(piece_views(pieces@).len() == rs.len());
            assert forall|i: int| 0 <= i < pieces.len() implies (#[trigger] pieces@[i]).1
                <= max by {
                assert(piece_views(pieces@)[i] == pieces@[i].0@);
                assert(rs[i].len() <= max);
            }
        }
        start.place_all(pieces, max)
    }
}

/// Packs metrics into batches.
fn make_batches(metrics: Vec<Metric>, max: usize) -> (r: Vec<Vec<Metric>>)
    requires
        max > 0,
    ensures
        batch_views(r@) == batches(model::metric_views(metrics@), max as nat),
{
    let ghost all = metrics@;
    let ghost views = model::metric_views(all);
    let mut p = Packer::new();
    assert(views.take(0) =~= Seq::<MetricView>::empty());
    for m in it: metrics
        invariant
            it.seq() == all,
            max > 0,
            views == model::metric_views(all),
            p.count <= max,
            p.model() == packed(views.take(it.index() as int), max as nat),
    {
        let ghost k = it.index() as int;
        assert(m == all[k]);
        assert(views.take(k + 1).drop_last() =~= views.take(k));
        assert(views.take(k + 1).last() == m@);
        p = p.pack(m, max);
    }
    assert(views.take(views.len() as int) =~= views);
    if p.open.len() > 0 {
        p = p.flush();
    }
    p.done
}

proof fn points_in_bound(ms: Seq<MetricView>, n: int)
    requires
        0 <= n <= ms.len(),
    ensures
        model::points_in(ms.take(n)) <= model::points_in(ms),
    decreases ms.len(),
{
    if n < ms.len() {
        points_in_bound(ms.drop_last(), n);
        assert(ms.drop_last().take(n) =~= ms.take(n));
    } else {
        assert(ms.take(n) =~= ms);
    }
}

/// The data points of two lists in a row are those of both.
pub proof fn points_in_add(a: Seq<MetricView>, b: Seq<MetricView>)
    ensures
        model::points_in(a + b) == model::points_in(a) + model::points_in(b),
    decreases b.len(),
{
    if b.len() == 0 {
        assert(a + b =~= a);
    } else {
        points_in_add(a, b.drop_last());
        assert((a + b).drop_last() =~= a + b.drop_last());
    }
}

/// The metrics of the first `n` scopes are part of those of all.
proof fn scopes_prefix(s: Seq<ScopeMetricsView>, n: int)
    requires
        0 <= n <= s.len(),
    ensures
        model::points_in(model::scopes_metrics(s.take(n))) <= model::points_in(
            model::scopes_metrics(s),
        ),
    decreases s.len(),
{
    if n < s.len() {
        scopes_prefix(s.drop_last(), n);
        assert(s.drop_last().take(n) =~= s.take(n));
        points_in_add(model::scopes_metrics(s.drop_last()), s.last().metrics);
    } else {
        assert(s.take(n) =~= s);
    }
}

proof fn request_prefix(s: Seq<ResourceMetricsView>, n: int)
    requires
        0 <= n <= s.len(),
    ensures
        model::points_in(model::request_metrics(s.take(n))) <= model::points_in(
            model::request_metrics(s),
        ),
    decreases s.len(),
{
    if n < s.len() {
        request_prefix(s.drop_last(), n);
        assert(s.drop_last().take(n) =~= s.take(n));
        points_in_add(
            model::request_metrics(s.drop_last()),
            model::scopes_metrics(s.last().scope_metrics),
        );
    } else {
        assert(s.take(n) =~= s);
    }
}

fn count_scope(metrics: &Vec<Metric>) -> (r: usize)
    requires
        model::points_in(model::metric_views(metrics@)) <= usize::MAX,
    ensures
        r == model::points_in(model::metric_views(metrics@)),
{
    let ghost views = model::metric_views(metrics@);
    let mut total: usize = 0;
    let mut i: usize = 0;
    assert(views.take(0) =~= Seq::<MetricView>::empty());
    while i < metrics.len()
        invariant
            i <= metrics.len(),
            views == model::metric_views(metrics@),
            model::points_in(views) <= usize::MAX,
            total == model::points_in(views.take(i as int)),
        decreases metrics.len() - i,
    {
        proof {
            points_in_bound(views, i as int + 1);
            assert(views.take(i as int + 1).drop_last() =~= views.take(i as int));
            assert(views.take(i as int + 1).last() == metrics@[i as int]@);
        }
        total = total + count_metric_data_points(&metrics[i]);
        i = i + 1;
    }
    assert(views.take(views.len() as int) =~= views);
    total
}

fn count_scopes(scopes: &Vec<ScopeMetrics>) -> (r: usize)
    requires
        model::points_in(model::scopes_metrics(model::scope_views(scopes@))) <= usize::MAX,
    ensures
        r == model::points_in(model::scopes_metrics(model::scope_views(scopes@))),
{
    let ghost views = model::scope_views(scopes@);
    let mut total: usize = 0;
    let mut i: usize = 0;
    assert(views.take(0) =~= Seq::<ScopeMetricsView>::empty());
    while i < scopes.len()
        invariant
            i <= scopes.len(),
            views == model::scope_views(scopes@),
            model::points_in(model::scopes_metrics(views)) <= usize::MAX,
            total == model::points_in(model::scopes_metrics(views.take(i as int))),
        decreases scopes.len() - i,
    {
        proof {
            scopes_prefix(views, i as int + 1);
            assert(views.take(i as int + 1).drop_last() =~= views.take(i as int));
            assert(views.take(i as int + 1).last() == scopes@[i as int]@);
            points_in_add(
                model::scopes_metrics(views.take(i as int)),
                scopes@[i as int]@.metrics,
            );
        }
        total = total + count_scope(&scopes[i].metrics);
        i = i + 1;
    }
    assert(views.take(views.len() as int) =~= views);
    total
}

/// How many data points a request holds.
pub fn count_request(request: &ExportMetricsServiceRequest) -> (r: usize)
    requires
        model::points_in(model::request_metrics(request@)) <= usize::MAX,
    ensures
        r == model::points_in(model::request_metrics(request@)),
{
    let ghost views = request@;
    let mut total: usize = 0;
    let mut i: usize = 0;
    assert(views.take(0) =~= Seq::<ResourceMetricsView>::empty());
    while i < request.resource_metrics.len()
        invariant
            i <= request.resource_metrics.len(),
            views == request@,
            model::points_in(model::request_metrics(views)) <= usize::MAX,
            total == model::points_in(model::request_metrics(views.take(i as int))),
        decreases request.resource_metrics.len() - i,
    {
        proof {
            request_prefix(views, i as int + 1);
            assert(views.take(i as int + 1).drop_last() =~= views.take(i as int));
            assert(views.take(i as int + 1).last() == request.resource_metrics@[i as int]@);
            points_in_add(
                model::request_metrics(views.take(i as int)),
                model::scopes_metrics(request.resource_metrics@[i as int]@.scope_metrics),
            );
        }
        total = total + count_scopes(&request.resource_metrics[i].scope_metrics);
        i = i + 1;
    }
    assert(views.take(views.len() as int) =~= views);
    total
}

/// The views of a list of requests.
pub open spec fn request_views(
    s: Seq<ExportMetricsServiceRequest>,
) -> Seq<Seq<ResourceMetricsView>> {
    s.map_values(|r: ExportMetricsServiceRequest| r@)
}

fn only(request: ExportMetricsServiceRequest) -> (r: Vec<ExportMetricsServiceRequest>)
    ensures
        request_views(r@) == seq![request@],
{
    let ghost v = request@;
    let mut r: Vec<ExportMetricsServiceRequest> = Vec::new();
    r.push(request);
    assert(request_views(r@) =~= seq![v]);
    r
}

/// Cuts a request into batches of at most `max` data points.
///
/// A request that has to be cut comes from one resource and one scope.
pub fn slice_request(request: ExportMetricsServiceRequest, max: usize) -> (r: Vec<
    ExportMetricsServiceRequest,
>)
    requires
        model::points_in(model::request_metrics(request@)) <= usize::MAX,
        whole(request@, max as nat) || single(request@),
    ensures
        request_views(r@) == sliced(request@, max as nat),
{
    if max == 0 || request.resource_metrics.len() == 0 {
        return only(request);
    }
    let ghost req = request@;
    assert(req[0] == request.resource_metrics@[0]@);
    if request.resource_metrics[0].scope_metrics.len() == 0 {
        return only(request);
    }
    if count_request(&request) <= max {
        return only(request);
    }
    let mut resources = request.resource_metrics;
    let mut rm = resources.pop().unwrap();
    assert(rm@ == req[0]);
    assert(req[0].scope_metrics[0] == rm.scope_metrics@[0]@);
    let sm = rm.scope_metrics.pop().unwrap();
    assert(sm@ == req[0].scope_metrics[0]);
    proof {
        reveal_with_fuel(model::request_metrics, 2);
        reveal_with_fuel(model::scopes_metrics, 2);
        assert(req.drop_last() =~= Seq::<ResourceMetricsView>::empty());
        assert(req[0].scope_metrics.drop_last() =~= Seq::<ScopeMetricsView>::empty());
        assert(model::request_metrics(req) =~= sm@.metrics);
    }
    let groups = make_batches(sm.metrics, max);
    let ghost bs = batches(model::request_metrics(req), max as nat);
    let ghost all = groups@;
    let mut r: Vec<ExportMetricsServiceRequest> = Vec::new();
    for ms in it: groups
        invariant
            it.seq() == all,
            bs == batch_views(all),
            r.len() == it.index(),
            rm.schema_url@ == req[0].schema_url,
            sm.schema_url@ == req[0].scope_metrics[0].schema_url,
            req[0].resource == (match rm.resource {
                None => None::<Seq<KeyValueView>>,
                Some(x) => Some(model::attr_views(x.attributes@)),
            }),
            req[0].scope_metrics[0].scope == (match sm.scope {
                None => None::<InstrumentationScope<Seq<char>>>,
                Some(x) => Some(x@),
            }),
            forall|i: int|
                0 <= i < r.len() ==> (#[trigger] r@[i])@ == wrapped(bs[i], req[0]),
    {
        let ghost k = it.index() as int;
        assert(ms == all[k]);
        assert(bs[k] == model::metric_views(ms@));
        r.push(
            wrap_batch(
                ms,
                model::copy_resource(&rm.resource),
                model::copy_scope(&sm.scope),
                rm.schema_url.clone(),
                sm.schema_url.clone(),
            ),
        );
    }
    assert(request_views(r@) =~= sliced(req, max as nat));
    r
}

// ---------------------------------------------------------------- what a receiver sees

/// A data point with all that its metric says about it.
pub struct LabelledPoint {
    pub name: Seq<char>,
    pub description: Seq<char>,
    pub unit: Seq<char>,
    pub shape: Shape,
    pub point: PointView,
}

/// A data point under the heading of `m`.
pub open spec fn under(m: MetricView, p: PointView) -> LabelledPoint {
    LabelledPoint {
        name: m.name,
        description: m.description,
        unit: m.unit,
        shape: m.shape,
        point: p,
    }
}

/// The data points of a metric, each with all that the metric says about it.
pub open spec fn labelled(m: MetricView) -> Seq<LabelledPoint> {
    Seq::new(m.points.len(), |i: int| under(m, m.points[i]))
}

/// The data points of a list of metrics, in order.
pub open spec fn all_labelled(ms: Seq<MetricView>) -> Seq<LabelledPoint>
    decreases ms.len(),
{
    if ms.len() == 0 {
        Seq::empty()
    } else {
        all_labelled(ms.drop_last()) + labelled(ms.last())
    }
}

/// The data points of a list of batches, in order.
pub open spec fn batch_labelled(bs: Seq<Seq<MetricView>>) -> Seq<LabelledPoint>
    decreases bs.len(),
{
    if bs.len() == 0 {
        Seq::empty()
    } else {
        batch_labelled(bs.drop_last()) + all_labelled(bs.last())
    }
}

proof fn all_labelled_add(a: Seq<MetricView>, b: Seq<MetricView>)
    ensures
        all_labelled(a + b) == all_labelled(a) + all_labelled(b),
    decreases b.len(),
{
    if b.len() == 0 {
        assert(a + b =~= a);
        assert(all_labelled(a) + all_labelled(b) =~= all_labelled(a));
    } else {
        all_labelled_add(a, b.drop_last());
        assert((a + b).drop_last() =~= a + b.drop_last());
        assert(all_labelled(a + b) =~= all_labelled(a) + all_labelled(b));
    }
}

proof fn all_labelled_one(m: MetricView)
    ensures
        all_labelled(seq![m]) == labelled(m),
{
    reveal_with_fuel(all_labelled, 2);
    assert(seq![m].drop_last() =~= Seq::<MetricView>::empty());
    assert(all_labelled(seq![m]) =~= labelled(m));
}

proof fn runs_labelled(m: MetricView, points: Seq<PointView>, max: nat)
    requires
        max > 0,
    ensures
        all_labelled(runs(points, max).map_values(|p: Seq<PointView>| with_points(m, p)))
            == labelled(with_points(m, points)),
    decreases points.len(),
{
    let f = |p: Seq<PointView>| with_points(m, p);
    let s = runs(points, max).map_values(f);
    if points.len() == 0 {
        assert(s =~= Seq::<MetricView>::empty());
        assert(labelled(with_points(m, points)) =~= Seq::<LabelledPoint>::empty());
    } else if points.len() <= max {
        assert(s =~= seq![with_points(m, points)]);
        all_labelled_one(with_points(m, points));
    } else {
        let head = points.take(max as int);
        let rest = points.skip(max as int);
        runs_labelled(m, rest, max);
        let tail = runs(rest, max).map_values(f);
        assert(s =~= seq![with_points(m, head)] + tail);
        all_labelled_add(seq![with_points(m, head)], tail);
        all_labelled_one(with_points(m, head));
        assert(labelled(with_points(m, points)) =~= labelled(with_points(m, head)) + labelled(
            with_points(m, rest),
        ));
    }
}

proof fn split_labelled(m: MetricView, max: nat)
    requires
        max > 0,
    ensures
        all_labelled(split_metric(m, max)) == labelled(m),
{
    if m.shape == Shape::NoData {
        all_labelled_one(m);
    } else {
        runs_labelled(m, m.points, max);
        assert(with_points(m, m.points) == m);
    }
}

/// What went in is what the batches hold.
spec fn holds(p: Packing, points: Seq<LabelledPoint>) -> bool {
    batch_labelled(p.done) + all_labelled(p.open) == points
}

proof fn flushed_holds(p: Packing, points: Seq<LabelledPoint>)
    requires
        holds(p, points),
    ensures
        holds(flushed(p), points),
{
    let q = flushed(p);
    assert(q.done.drop_last() =~= p.done);
    assert(batch_labelled(q.done) + all_labelled(q.open) =~= points);
}

proof fn placed_holds(p: Packing, m: MetricView, max: nat, points: Seq<LabelledPoint>)
    requires
        holds(p, points),
    ensures
        holds(placed(p, m, max), points + labelled(m)),
{
    let q = if m.points.len() > 0 && p.count + m.points.len() > max {
        flushed_holds(p, points);
        flushed(p)
    } else {
        p
    };
    let r = placed(p, m, max);
    assert(r.open.drop_last() =~= q.open);
    assert(batch_labelled(r.done) + all_labelled(r.open) =~= points + labelled(m));
}

proof fn placed_all_holds(p: Packing, ms: Seq<MetricView>, max: nat, points: Seq<LabelledPoint>)
    requires
        holds(p, points),
    ensures
        holds(placed_all(p, ms, max), points + all_labelled(ms)),
    decreases ms.len(),
{
    if ms.len() == 0 {
        assert(points + all_labelled(ms) =~= points);
    } else {
        placed_all_holds(p, ms.drop_last(), max, points);
        placed_holds(
            placed_all(p, ms.drop_last(), max),
            ms.last(),
            max,
            points + all_labelled(ms.drop_last()),
        );
        assert(points + all_labelled(ms) =~= points + all_labelled(ms.drop_last()) + labelled(
            ms.last(),
        ));
    }
}

proof fn packed_holds(ms: Seq<MetricView>, max: nat)
    requires
        max > 0,
    ensures
        holds(packed(ms, max), all_labelled(ms)),
    decreases ms.len(),
{
    if ms.len() == 0 {
        assert(batch_labelled(unpacked().done) + all_labelled(unpacked().open) =~= all_labelled(
            ms,
        ));
    } else {
        packed_holds(ms.drop_last(), max);
        let p = packed(ms.drop_last(), max);
        let m = ms.last();
        let before = all_labelled(ms.drop_last());
        if m.points.len() <= max {
            placed_holds(p, m, max, before);
        } else {
            let q = if p.open.len() > 0 {
                flushed_holds(p, before);
                flushed(p)
            } else {
                p
            };
            split_labelled(m, max);
            placed_all_holds(q, split_metric(m, max), max, before);
        }
    }
}

/// What a receiver sees of the batches is what it would have seen of the metrics uncut: every data
/// point, once and in order, under the name, the description, the unit and the kind of data that it
/// was given.
pub proof fn batches_keep_headings(ms: Seq<MetricView>, max: nat)
    requires
        max > 0,
    ensures
        batch_labelled(batches(ms, max)) == all_labelled(ms),
{
    packed_holds(ms, max);
    let p = packed(ms, max);
    if p.open.len() > 0 {
        assert(p.done.push(p.open).drop_last() =~= p.done);
    } else {
        assert(batch_labelled(p.done) + all_labelled(p.open) =~= batch_labelled(p.done));
    }
}

/// The metrics of each request in a list.
pub open spec fn metrics_of_each(rs: Seq<Seq<ResourceMetricsView>>) -> Seq<Seq<MetricView>> {
    Seq::new(rs.len(), |i: int| rs[i][0].scope_metrics[0].metrics)
}

/// A request that is small enough, or that batching is off for, goes out alone and as it is. One
/// that is too large goes out in requests that each bear its resource, its scope and its schemas,
/// none of them without metrics or with more data points than allowed, and that hold together what
/// it held.
pub proof fn slices_make_up_the_request(req: Seq<ResourceMetricsView>, max: nat)
    requires
        req.len() == 1,
        req[0].scope_metrics.len() == 1,
        shapes_true(req[0].scope_metrics[0].metrics),
    ensures
        ({
            let metrics = req[0].scope_metrics[0].metrics;
            let out = sliced(req, max);
            if max == 0 || all_points(metrics).len() <= max {
                out == seq![req]
            } else {
                &&& batch_labelled(metrics_of_each(out)) == all_labelled(metrics)
                &&& forall|i: int|
                    0 <= i < out.len() ==> {
                        let b = #[trigger] out[i];
                        &&& b.len() == 1
                        &&& b[0].resource == req[0].resource
                        &&& b[0].schema_url == req[0].schema_url
                        &&& b[0].scope_metrics.len() == 1
                        &&& b[0].scope_metrics[0].scope == req[0].scope_metrics[0].scope
                        &&& b[0].scope_metrics[0].schema_url == req[0].scope_metrics[0].schema_url
                        &&& 0 < b[0].scope_metrics[0].metrics.len()
                        &&& all_points(b[0].scope_metrics[0].metrics).len() <= max
                    }
            }
        }),
{
    let metrics = req[0].scope_metrics[0].metrics;
    reveal_with_fuel(model::request_metrics, 2);
    reveal_with_fuel(model::scopes_metrics, 2);
    assert(req.drop_last() =~= Seq::<ResourceMetricsView>::empty());
    assert(req[0].scope_metrics.drop_last() =~= Seq::<ScopeMetricsView>::empty());
    assert(model::request_metrics(req) =~= metrics);
    points_in_is_length(metrics);
    if max > 0 && all_points(metrics).len() > max {
        batches_keep_points(metrics, max);
        batches_keep_headings(metrics, max);
        let out = sliced(req, max);
        let bs = batches(metrics, max);
        assert forall|i: int| 0 <= i < out.len() implies {
            let b = #[trigger] out[i];
            &&& b.len() == 1
            &&& b[0].resource == req[0].resource
            &&& b[0].schema_url == req[0].schema_url
            &&& b[0].scope_metrics.len() == 1
            &&& b[0].scope_metrics[0].scope == req[0].scope_metrics[0].scope
            &&& b[0].scope_metrics[0].schema_url == req[0].scope_metrics[0].schema_url
            &&& 0 < b[0].scope_metrics[0].metrics.len()
            &&& all_points(b[0].scope_metrics[0].metrics).len() <= max
        } by {
            assert(out[i] == wrapped(bs[i], req[0]));
        }
        assert(metrics_of_each(out) =~= bs);
    }
}

// ---------------------------------------------------------------- how full batches are

/// Every piece of a metric but the last is as large as a piece may be.
pub proof fn pieces_are_full(points: Seq<PointView>, max: nat, i: int)
    requires
        max > 0,
        0 <= i < runs(points, max).len() - 1,
    ensures
        runs(points, max)[i].len() == max,
    decreases points.len(),
{
    if points.len() > max {
        let rest = runs(points.skip(max as int), max);
        if i > 0 {
            assert(runs(points, max)[i] == rest[i - 1]);
            pieces_are_full(points.skip(max as int), max, i - 1);
        }
    }
}

/// Whether a batch has no room for the first metric of the next.
pub open spec fn no_room(a: Seq<MetricView>, b: Seq<MetricView>, max: nat) -> bool {
    all_points(a).len() + b[0].points.len() > max
}

spec fn tight(p: Packing, max: nat) -> bool {
    &&& p.count == all_points(p.open).len()
    &&& p.open.len() > 0 ==> p.count > 0
    &&& forall|i: int|
        0 <= i < p.done.len() ==> (#[trigger] p.done[i]).len() > 0 && all_points(p.done[i]).len()
            > 0
    &&& forall|i: int, j: int|
        #![trigger p.done[i], p.done[j]]
        0 <= i && j == i + 1 && j < p.done.len() ==> no_room(p.done[i], p.done[j], max)
    &&& p.open.len() > 0 && p.done.len() > 0 ==> no_room(p.done.last(), p.open, max)
}

proof fn placed_tight(p: Packing, m: MetricView, max: nat)
    requires
        tight(p, max),
        0 < m.points.len() <= max,
        p.open.len() == 0 && p.done.len() > 0 ==> m.points.len() == max,
    ensures
        tight(placed(p, m, max), max),
        placed(p, m, max).open.len() > 0,
{
    let r = placed(p, m, max);
    reveal_with_fuel(all_points, 2);
    if p.count + m.points.len() > max {
        assert(p.open.len() > 0) by {
            if p.open.len() == 0 {
                assert(all_points(p.open).len() == 0);
            }
        }
        let one = seq![m];
        assert(r.open =~= one);
        assert(one.drop_last() =~= Seq::<MetricView>::empty());
        assert forall|i: int, j: int|
            #![trigger r.done[i], r.done[j]]
            0 <= i && j == i + 1 && j < r.done.len() implies no_room(
            r.done[i],
            r.done[j],
            max,
        ) by {
            assert(r.done[i] == p.done[i]);
            if j < p.done.len() {
                assert(r.done[j] == p.done[j]);
            } else {
                assert(r.done[j] == p.open);
            }
        }
    } else {
        assert(r.open.drop_last() =~= p.open);
    }
}

proof fn flushed_tight(p: Packing, max: nat)
    requires
        tight(p, max),
        p.open.len() > 0,
    ensures
        tight(flushed(p), max),
{
    let r = flushed(p);
    assert forall|i: int, j: int|
        #![trigger r.done[i], r.done[j]]
        0 <= i && j == i + 1 && j < r.done.len() implies no_room(r.done[i], r.done[j], max) by {
        assert(r.done[i] == p.done[i]);
        if j < p.done.len() {
            assert(r.done[j] == p.done[j]);
        } else {
            assert(r.done[j] == p.open);
        }
    }
}

proof fn placed_all_tight(p: Packing, ms: Seq<MetricView>, max: nat)
    requires
        tight(p, max),
        ms.len() > 0,
        forall|i: int| 0 <= i < ms.len() ==> 0 < (#[trigger] ms[i]).points.len() <= max,
        ms[0].points.len() == max,
    ensures
        tight(placed_all(p, ms, max), max),
        placed_all(p, ms, max).open.len() > 0,
    decreases ms.len(),
{
    let front = ms.drop_last();
    assert(0 < ms[ms.len() - 1].points.len() <= max);
    if front.len() > 0 {
        assert forall|i: int| 0 <= i < front.len() implies 0 < (#[trigger] front[i]).points.len()
            <= max by {
            assert(front[i] == ms[i]);
        }
        placed_all_tight(p, front, max);
    } else {
        assert(placed_all(p, front, max) == p);
    }
    placed_tight(placed_all(p, front, max), ms.last(), max);
}

proof fn packed_tight(ms: Seq<MetricView>, max: nat)
    requires
        max > 0,
        forall|i: int|
            0 <= i < ms.len() ==> (#[trigger] ms[i]).points.len() > 0 && ms[i].shape
                != Shape::NoData,
    ensures
        tight(packed(ms, max), max),
        packed(ms, max).open.len() == 0 ==> packed(ms, max).done.len() == 0,
    decreases ms.len(),
{
    if ms.len() > 0 {
        let front = ms.drop_last();
        let m = ms.last();
        let p = packed(front, max);
        assert forall|i: int| 0 <= i < front.len() implies (#[trigger] front[i]).points.len() > 0
            && front[i].shape != Shape::NoData by {
            assert(front[i] == ms[i]);
        }
        packed_tight(front, max);
        assert(ms[ms.len() - 1].points.len() > 0);
        if m.points.len() <= max {
            placed_tight(p, m, max);
        } else {
            let q = if p.open.len() > 0 {
                flushed(p)
            } else {
                p
            };
            if p.open.len() > 0 {
                flushed_tight(p, max);
            }
            let pieces = split_metric(m, max);
            runs_keep_points(m.points, max);
            let rs = runs(m.points, max);
            assert(rs.len() > 0);
            assert(rs[0].len() == max);
            assert forall|i: int| 0 <= i < pieces.len() implies 0 < (
            #[trigger] pieces[i]).points.len() <= max by {
                assert(pieces[i].points == rs[i]);
            }
            assert(pieces[0].points == rs[0]);
            placed_all_tight(q, pieces, max);
        }
    }
}

/// Batches are as few as filling them in order allows: none but the last has room for the first
/// metric of the next.
pub proof fn batches_are_filled(ms: Seq<MetricView>, max: nat, i: int)
    requires
        max > 0,
        forall|k: int|
            0 <= k < ms.len() ==> (#[trigger] ms[k]).points.len() > 0 && ms[k].shape
                != Shape::NoData,
        0 <= i < batches(ms, max).len() - 1,
    ensures
        no_room(batches(ms, max)[i], batches(ms, max)[i + 1], max),
{
    packed_tight(ms, max);
    let p = packed(ms, max);
    let bs = batches(ms, max);
    if p.open.len() > 0 {
        assert(bs[i] == p.done[i]);
        if i + 1 < p.done.len() {
            assert(bs[i + 1] == p.done[i + 1]);
        } else {
            assert(bs[i + 1] == p.open);
        }
    } else {
        assert(p.done.len() == 0);
    }
}

/// Whether a packing holds the metric as it is.
spec fn keeps(p: Packing, m: MetricView) -> bool {
    p.open.contains(m) || exists|i: int| 0 <= i < p.done.len() && (#[trigger] p.done[i]).contains(m)
}

proof fn flushed_keeps(p: Packing, m: MetricView)
    requires
        keeps(p, m),
    ensures
        keeps(flushed(p), m),
{
    let r = flushed(p);
    if p.open.contains(m) {
        assert(r.done[p.done.len() as int] == p.open);
    } else {
        let i = choose|i: int| 0 <= i < p.done.len() && (#[trigger] p.done[i]).contains(m);
        assert(r.done[i] == p.done[i]);
    }
}

proof fn placed_keeps(p: Packing, x: MetricView, max: nat, m: MetricView)
    requires
        keeps(p, m) || x == m,
    ensures
        keeps(placed(p, x, max), m),
{
    let q = if x.points.len() > 0 && p.count + x.points.len() > max {
        flushed(p)
    } else {
        p
    };
    let r = placed(p, x, max);
    if x == m {
        assert(r.open[q.open.len() as int] == m);
    } else {
        if x.points.len() > 0 && p.count + x.points.len() > max {
            flushed_keeps(p, m);
        }
        if q.open.contains(m) {
            let j = choose|j: int| 0 <= j < q.open.len() && q.open[j] == m;
            assert(r.open[j] == m);
        } else {
            let i = choose|i: int| 0 <= i < q.done.len() && (#[trigger] q.done[i]).contains(m);
            assert(r.done[i].contains(m));
        }
    }
}

proof fn placed_all_keeps(p: Packing, xs: Seq<MetricView>, max: nat, m: MetricView)
    requires
        keeps(p, m),
    ensures
        keeps(placed_all(p, xs, max), m),
    decreases xs.len(),
{
    if xs.len() > 0 {
        placed_all_keeps(p, xs.drop_last(), max, m);
        placed_keeps(placed_all(p, xs.drop_last(), max), xs.last(), max, m);
    }
}

proof fn packed_keeps(ms: Seq<MetricView>, max: nat, k: int)
    requires
        0 <= k < ms.len(),
        ms[k].points.len() <= max,
    ensures
        keeps(packed(ms, max), ms[k]),
    decreases ms.len(),
{
    let front = ms.drop_last();
    let p = packed(front, max);
    let x = ms.last();
    let m = ms[k];
    if k < front.len() {
        packed_keeps(front, max, k);
        if x.points.len() <= max {
            placed_keeps(p, x, max, m);
        } else {
            let q = if p.open.len() > 0 {
                flushed(p)
            } else {
                p
            };
            if p.open.len() > 0 {
                flushed_keeps(p, m);
            }
            placed_all_keeps(q, split_metric(x, max), max, m);
        }
    } else {
        placed_keeps(p, x, max, m);
    }
}

/// A metric that a batch can hold is not cut: some batch holds it as it is.
pub proof fn small_metrics_stay_whole(ms: Seq<MetricView>, max: nat, k: int)
    requires
        0 <= k < ms.len(),
        ms[k].points.len() <= max,
    ensures
        exists|i: int|
            0 <= i < batches(ms, max).len() && (#[trigger] batches(ms, max)[i]).contains(ms[k]),
{
    packed_keeps(ms, max, k);
    let p = packed(ms, max);
    let bs = batches(ms, max);
    if p.open.contains(ms[k]) {
        assert(bs[p.done.len() as int] == p.open);
    } else {
        let i = choose|i: int| 0 <= i < p.done.len() && (#[trigger] p.done[i]).contains(ms[k]);
        assert(bs[i] == p.done[i]);
    }
}

} // verus!
