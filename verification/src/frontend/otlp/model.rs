//! The parts of an OTLP metrics request.
//!
//! Each type has a view in which strings and vectors are sequences; contracts speak of the views.

use vstd::prelude::*;

verus! {

/// The value of an attribute.
#[derive(Debug, PartialEq, Eq)]
pub enum AnyValue<S = String> {
    StringValue(S),
    IntValue(i64),
}

/// A named attribute.
#[derive(Debug, PartialEq, Eq)]
pub struct KeyValue<S = String> {
    pub key: S,
    pub value: AnyValue<S>,
}

pub type KeyValueView = KeyValue<Seq<char>>;

impl View for AnyValue<String> {
    type V = AnyValue<Seq<char>>;

    open spec fn view(&self) -> AnyValue<Seq<char>> {
        match self {
            AnyValue::StringValue(s) => AnyValue::StringValue(s@),
            AnyValue::IntValue(i) => AnyValue::IntValue(*i),
        }
    }
}

impl View for KeyValue<String> {
    type V = KeyValueView;

    open spec fn view(&self) -> KeyValueView {
        KeyValue { key: self.key@, value: self.value@ }
    }
}

/// The views of an attribute list.
pub open spec fn attr_views(s: Seq<KeyValue>) -> Seq<KeyValueView> {
    s.map_values(|a: KeyValue| a@)
}

/// A copy of an attribute.
pub fn copy_attr(a: &KeyValue) -> (r: KeyValue)
    ensures
        r@ == a@,
{
    KeyValue {
        key: a.key.clone(),
        value: match &a.value {
            AnyValue::StringValue(s) => AnyValue::StringValue(s.clone()),
            AnyValue::IntValue(i) => AnyValue::IntValue(*i),
        },
    }
}

/// A copy of an attribute list.
pub fn copy_attrs(v: &Vec<KeyValue>) -> (r: Vec<KeyValue>)
    ensures
        attr_views(r@) == attr_views(v@),
{
    let mut r: Vec<KeyValue> = Vec::new();
    let mut i: usize = 0;
    while i < v.len()
        invariant
            i <= v.len(),
            r.len() == i,
            forall|k: int| 0 <= k < i ==> (#[trigger] r@[k])@ == v@[k]@,
        decreases v.len() - i,
    {
        r.push(copy_attr(&v[i]));
        i = i + 1;
    }
    assert(attr_views(r@) =~= attr_views(v@));
    r
}

/// The value of a data point.
#[derive(Clone, Copy, Debug, PartialEq, Eq, Structural)]
pub enum NumberValue {
    AsInt(i64),
    /// A double, given by its bits.
    AsDoubleBits(u64),
    /// The double that is nearest to a count.
    AsDoubleOf(u64),
}

/// One measured value.
#[derive(Debug, PartialEq, Eq)]
pub struct NumberDataPoint {
    pub attributes: Vec<KeyValue>,
    pub start_time_unix_nano: u64,
    pub time_unix_nano: u64,
    pub value: NumberValue,
}

/// One measured value as plain mathematical values.
#[verifier::ext_equal]
pub struct PointView {
    pub attributes: Seq<KeyValueView>,
    pub start_time_unix_nano: u64,
    pub time_unix_nano: u64,
    pub value: NumberValue,
}

impl View for NumberDataPoint {
    type V = PointView;

    open spec fn view(&self) -> PointView {
        PointView {
            attributes: attr_views(self.attributes@),
            start_time_unix_nano: self.start_time_unix_nano,
            time_unix_nano: self.time_unix_nano,
            value: self.value,
        }
    }
}

/// The views of a list of data points.
pub open spec fn point_views(s: Seq<NumberDataPoint>) -> Seq<PointView> {
    s.map_values(|p: NumberDataPoint| p@)
}

/// Whether a sum covers all time so far or the time since the last report.
#[derive(Clone, Copy, Debug, PartialEq, Eq, Structural)]
pub enum AggregationTemporality {
    Unspecified,
    Delta,
    Cumulative,
}

/// A metric that adds up.
#[derive(Debug, PartialEq, Eq)]
pub struct Sum {
    pub data_points: Vec<NumberDataPoint>,
    pub aggregation_temporality: AggregationTemporality,
    pub is_monotonic: bool,
}

/// A metric that goes up and down.
#[derive(Debug, PartialEq, Eq)]
pub struct Gauge {
    pub data_points: Vec<NumberDataPoint>,
}

/// The data of a metric.
#[derive(Debug, PartialEq, Eq)]
pub enum Data {
    Sum(Sum),
    Gauge(Gauge),
}

/// A metric.
#[derive(Debug, PartialEq, Eq)]
pub struct Metric {
    pub name: String,
    pub description: String,
    pub unit: String,
    pub data: Option<Data>,
}

/// What a metric is, apart from its data points.
#[derive(Clone, Copy, Debug, PartialEq, Eq, Structural)]
pub enum Shape {
    NoData,
    Sum { temporality: AggregationTemporality, monotonic: bool },
    Gauge,
}

impl Data {
    /// What the data is, apart from the data points.
    pub open spec fn shape(self) -> Shape {
        match self {
            Data::Sum(s) => Shape::Sum {
                temporality: s.aggregation_temporality,
                monotonic: s.is_monotonic,
            },
            Data::Gauge(_) => Shape::Gauge,
        }
    }

    /// The data points.
    pub open spec fn points(self) -> Seq<PointView> {
        match self {
            Data::Sum(s) => point_views(s.data_points@),
            Data::Gauge(g) => point_views(g.data_points@),
        }
    }
}

/// A metric as plain mathematical values.
#[verifier::ext_equal]
pub struct MetricView {
    pub name: Seq<char>,
    pub description: Seq<char>,
    pub unit: Seq<char>,
    pub shape: Shape,
    pub points: Seq<PointView>,
}

impl View for Metric {
    type V = MetricView;

    open spec fn view(&self) -> MetricView {
        MetricView {
            name: self.name@,
            description: self.description@,
            unit: self.unit@,
            shape: match self.data {
                None => Shape::NoData,
                Some(d) => d.shape(),
            },
            points: match self.data {
                None => Seq::empty(),
                Some(d) => d.points(),
            },
        }
    }
}

/// The views of a list of metrics.
pub open spec fn metric_views(s: Seq<Metric>) -> Seq<MetricView> {
    s.map_values(|m: Metric| m@)
}

/// How many data points a list of metrics holds.
pub open spec fn points_in(s: Seq<MetricView>) -> nat
    decreases s.len(),
{
    if s.len() == 0 {
        0
    } else {
        points_in(s.drop_last()) + s.last().points.len()
    }
}

/// What produced the metrics.
#[derive(Debug, PartialEq, Eq)]
pub struct Resource {
    pub attributes: Vec<KeyValue>,
}

/// Which library made the metrics.
#[derive(Debug, PartialEq, Eq)]
pub struct InstrumentationScope<S = String> {
    pub name: S,
    pub version: S,
}

impl View for InstrumentationScope<String> {
    type V = InstrumentationScope<Seq<char>>;

    open spec fn view(&self) -> InstrumentationScope<Seq<char>> {
        InstrumentationScope { name: self.name@, version: self.version@ }
    }
}

/// The metrics of one library.
#[derive(Debug, PartialEq, Eq)]
pub struct ScopeMetrics {
    pub scope: Option<InstrumentationScope>,
    pub metrics: Vec<Metric>,
    pub schema_url: String,
}

/// The metrics of one resource.
#[derive(Debug, PartialEq, Eq)]
pub struct ResourceMetrics {
    pub resource: Option<Resource>,
    pub scope_metrics: Vec<ScopeMetrics>,
    pub schema_url: String,
}

/// A request to store metrics.
#[derive(Debug, PartialEq, Eq)]
pub struct ExportMetricsServiceRequest {
    pub resource_metrics: Vec<ResourceMetrics>,
}

/// The metrics of one library as plain mathematical values.
#[verifier::ext_equal]
pub struct ScopeMetricsView {
    pub scope: Option<InstrumentationScope<Seq<char>>>,
    pub metrics: Seq<MetricView>,
    pub schema_url: Seq<char>,
}

/// The metrics of one resource as plain mathematical values.
#[verifier::ext_equal]
pub struct ResourceMetricsView {
    pub resource: Option<Seq<KeyValueView>>,
    pub scope_metrics: Seq<ScopeMetricsView>,
    pub schema_url: Seq<char>,
}

impl View for ScopeMetrics {
    type V = ScopeMetricsView;

    open spec fn view(&self) -> ScopeMetricsView {
        ScopeMetricsView {
            scope: match self.scope {
                None => None,
                Some(s) => Some(s@),
            },
            metrics: metric_views(self.metrics@),
            schema_url: self.schema_url@,
        }
    }
}

/// The views of a list of scopes.
pub open spec fn scope_views(s: Seq<ScopeMetrics>) -> Seq<ScopeMetricsView> {
    s.map_values(|m: ScopeMetrics| m@)
}

impl View for ResourceMetrics {
    type V = ResourceMetricsView;

    open spec fn view(&self) -> ResourceMetricsView {
        ResourceMetricsView {
            resource: match self.resource {
                None => None,
                Some(r) => Some(attr_views(r.attributes@)),
            },
            scope_metrics: scope_views(self.scope_metrics@),
            schema_url: self.schema_url@,
        }
    }
}

impl View for ExportMetricsServiceRequest {
    type V = Seq<ResourceMetricsView>;

    open spec fn view(&self) -> Seq<ResourceMetricsView> {
        self.resource_metrics@.map_values(|m: ResourceMetrics| m@)
    }
}

/// All metrics of the scopes, in order.
pub open spec fn scopes_metrics(s: Seq<ScopeMetricsView>) -> Seq<MetricView>
    decreases s.len(),
{
    if s.len() == 0 {
        Seq::empty()
    } else {
        scopes_metrics(s.drop_last()) + s.last().metrics
    }
}

/// All metrics of a request, in order.
pub open spec fn request_metrics(s: Seq<ResourceMetricsView>) -> Seq<MetricView>
    decreases s.len(),
{
    if s.len() == 0 {
        Seq::empty()
    } else {
        request_metrics(s.drop_last()) + scopes_metrics(s.last().scope_metrics)
    }
}

/// A copy of a data point.
pub fn copy_point(p: &NumberDataPoint) -> (r: NumberDataPoint)
    ensures
        r@ == p@,
{
    NumberDataPoint {
        attributes: copy_attrs(&p.attributes),
        start_time_unix_nano: p.start_time_unix_nano,
        time_unix_nano: p.time_unix_nano,
        value: p.value,
    }
}

/// A copy of a resource.
pub fn copy_resource(r: &Option<Resource>) -> (c: Option<Resource>)
    ensures
        c is Some == r is Some,
        c is Some ==> attr_views(c->Some_0.attributes@) == attr_views(r->Some_0.attributes@),
{
    match r {
        None => None,
        Some(x) => Some(Resource { attributes: copy_attrs(&x.attributes) }),
    }
}

/// A copy of a scope.
pub fn copy_scope(s: &Option<InstrumentationScope>) -> (c: Option<InstrumentationScope>)
    ensures
        c is Some == s is Some,
        c is Some ==> c->Some_0@ == s->Some_0@,
{
    match s {
        None => None,
        Some(x) => Some(
            InstrumentationScope { name: x.name.clone(), version: x.version.clone() },
        ),
    }
}

// ---------------------------------------------------------------- laws

/// The view of an attribute tells its key and its value.
pub proof fn attribute_is_told_by_field(a: KeyValue)
    ensures
        a@.key == a.key@,
        a.value matches AnyValue::StringValue(s) ==> a@.value == AnyValue::StringValue(s@),
        a.value matches AnyValue::IntValue(i) ==> a@.value == AnyValue::<Seq<char>>::IntValue(i),
{
}

/// The view of a data point tells its attributes in order, its times and its value.
pub proof fn point_is_told_by_field(p: NumberDataPoint)
    ensures
        p@.attributes.len() == p.attributes@.len(),
        forall|i: int|
            0 <= i < p.attributes@.len() ==> #[trigger] p@.attributes[i] == p.attributes@[i]@,
        p@.start_time_unix_nano == p.start_time_unix_nano,
        p@.time_unix_nano == p.time_unix_nano,
        p@.value == p.value,
{
}

/// The view of a metric tells its name, its description, its unit, what kind of metric it is, and
/// its data points in order.
pub proof fn metric_is_told_by_field(m: Metric)
    ensures
        m@.name == m.name@,
        m@.description == m.description@,
        m@.unit == m.unit@,
        m.data is None ==> m@.shape == Shape::NoData && m@.points.len() == 0,
        m.data matches Some(Data::Sum(s)) ==> {
            &&& m@.shape matches Shape::Sum { temporality, monotonic }
            &&& temporality == s.aggregation_temporality
            &&& monotonic == s.is_monotonic
            &&& m@.points.len() == s.data_points@.len()
            &&& forall|i: int|
                0 <= i < s.data_points@.len() ==> #[trigger] m@.points[i] == s.data_points@[i]@
        },
        m.data matches Some(Data::Gauge(g)) ==> {
            &&& m@.shape == Shape::Gauge
            &&& m@.points.len() == g.data_points@.len()
            &&& forall|i: int|
                0 <= i < g.data_points@.len() ==> #[trigger] m@.points[i] == g.data_points@[i]@
        },
{
}

/// The view of a request tells its resources in order, each with its attributes and its scopes, and
/// those with their names, their versions and their metrics.
pub proof fn request_is_told_by_field(q: ExportMetricsServiceRequest)
    ensures
        q@.len() == q.resource_metrics@.len(),
        forall|i: int|
            0 <= i < q@.len() ==> {
                let r = q.resource_metrics@[i];
                &&& (#[trigger] q@[i]).schema_url == r.schema_url@
                &&& q@[i].resource is Some == r.resource is Some
                &&& r.resource matches Some(x) ==> q@[i].resource->Some_0.len()
                    == x.attributes@.len() && forall|k: int|
                    0 <= k < x.attributes@.len() ==> #[trigger] q@[i].resource->Some_0[k]
                        == x.attributes@[k]@
                &&& q@[i].scope_metrics.len() == r.scope_metrics@.len()
                &&& forall|j: int|
                    0 <= j < r.scope_metrics@.len() ==> {
                        let s = r.scope_metrics@[j];
                        let v = #[trigger] q@[i].scope_metrics[j];
                        &&& v.schema_url == s.schema_url@
                        &&& v.scope is Some == s.scope is Some
                        &&& s.scope matches Some(x) ==> v.scope->Some_0.name == x.name@
                            && v.scope->Some_0.version == x.version@
                        &&& v.metrics.len() == s.metrics@.len()
                        &&& forall|k: int|
                            0 <= k < s.metrics@.len() ==> #[trigger] v.metrics[k] == s.metrics@[k]@
                    }
            },
{
}

} // verus!
