//! The messages between a client and the frontend: one request and one response per line.

use vstd::prelude::*;

use crate::config::model::{self, EvictionPolicy, Field, FlowRule, FlowRuleView};
use crate::frontend::exporter;
use crate::text;

verus! {

#[derive(Debug)]
pub enum Request {
    FlowRuleAdd(FlowRuleAddParams),
    FlowRuleRm(FlowRuleRmParams),
    FlowRuleList,
    FlowRuleShow(FlowRuleShowParams),
    StatsShow(StatsShowParams),
    StatsPull,
}

/// A request as plain mathematical values.
pub enum RequestView {
    FlowRuleAdd(FlowRuleView),
    FlowRuleRm(Seq<char>),
    FlowRuleList,
    FlowRuleShow(Seq<char>),
    StatsShow(Option<Seq<char>>),
    StatsPull,
}

impl View for Request {
    type V = RequestView;

    open spec fn view(&self) -> RequestView {
        match self {
            Request::FlowRuleAdd(p) => RequestView::FlowRuleAdd(p@),
            Request::FlowRuleRm(p) => RequestView::FlowRuleRm(p.name@),
            Request::FlowRuleList => RequestView::FlowRuleList,
            Request::FlowRuleShow(p) => RequestView::FlowRuleShow(p.name@),
            Request::StatsShow(p) => RequestView::StatsShow(
                text::opt(p.name),
            ),
            Request::StatsPull => RequestView::StatsPull,
        }
    }
}

#[derive(Debug)]
pub struct FlowRuleAddParams {
    pub name: String,
    pub fields: Vec<Field>,
    pub max_keys: u32,
    pub eviction_policy: EvictionPolicy,
}

impl View for FlowRuleAddParams {
    type V = FlowRuleView;

    open spec fn view(&self) -> FlowRuleView {
        FlowRuleView {
            name: self.name@,
            fields: self.fields@,
            max_keys: self.max_keys,
            eviction_policy: self.eviction_policy,
        }
    }
}

#[derive(Debug)]
pub struct FlowRuleRmParams {
    pub name: String,
}

#[derive(Debug)]
pub struct FlowRuleShowParams {
    pub name: String,
}

#[derive(Debug)]
pub struct StatsShowParams {
    pub name: Option<String>,
}

#[derive(Debug)]
pub struct Response {
    pub ok: bool,
    pub data: Option<ResponseData>,
    pub error: Option<ErrorData>,
}

/// A response as plain mathematical values.
pub struct ResponseView {
    pub ok: bool,
    pub data: Option<DataView>,
    pub error: Option<ErrorData<Seq<char>>>,
}

impl View for Response {
    type V = ResponseView;

    open spec fn view(&self) -> ResponseView {
        ResponseView {
            ok: self.ok,
            data: match self.data {
                Some(d) => Some(d@),
                None => None,
            },
            error: match self.error {
                Some(e) => Some(e@),
                None => None,
            },
        }
    }
}

#[derive(Debug)]
pub struct ErrorData<S = String> {
    pub code: i32,
    pub message: S,
}

impl View for ErrorData<String> {
    type V = ErrorData<Seq<char>>;

    open spec fn view(&self) -> ErrorData<Seq<char>> {
        ErrorData { code: self.code, message: self.message@ }
    }
}

#[derive(Debug)]
pub enum ResponseData {
    FlowRuleId(FlowRuleIdData),
    FlowRuleList(FlowRuleListData),
    FlowRuleDetail(FlowRuleDetailData),
    StatsShow(StatsShowData),
    StatsPull(StatsPullData),
}

/// The data of a response as plain mathematical values.
pub enum DataView {
    FlowRuleId(Seq<char>),
    FlowRuleList(Seq<FlowRuleView>),
    FlowRuleDetail(DetailView),
    StatsShow(Seq<StatsRowView>),
    StatsPull { tick_id: u64, wall_clock_ns: u64, stats: Seq<StatsRowView> },
}

impl View for ResponseData {
    type V = DataView;

    open spec fn view(&self) -> DataView {
        match self {
            ResponseData::FlowRuleId(d) => DataView::FlowRuleId(d.id@),
            ResponseData::FlowRuleList(d) => DataView::FlowRuleList(rule_data_views(d.rules@)),
            ResponseData::FlowRuleDetail(d) => DataView::FlowRuleDetail(d@),
            ResponseData::StatsShow(d) => DataView::StatsShow(row_views(d.flow_rules@)),
            ResponseData::StatsPull(d) => DataView::StatsPull {
                tick_id: d.tick_id,
                wall_clock_ns: d.wall_clock_ns,
                stats: row_views(d.stats.flow_rules@),
            },
        }
    }
}

#[derive(Debug)]
pub struct FlowRuleListData {
    pub rules: Vec<FlowRuleData>,
}

#[derive(Debug)]
pub struct FlowRuleIdData {
    pub id: String,
}

#[derive(Debug, PartialEq, Eq)]
pub struct FlowRuleData {
    pub name: String,
    pub fields: Vec<Field>,
    pub max_keys: u32,
    pub eviction_policy: EvictionPolicy,
}

impl View for FlowRuleData {
    type V = FlowRuleView;

    open spec fn view(&self) -> FlowRuleView {
        FlowRuleView {
            name: self.name@,
            fields: self.fields@,
            max_keys: self.max_keys,
            eviction_policy: self.eviction_policy,
        }
    }
}

/// The views of a list of rules.
pub open spec fn rule_data_views(s: Seq<FlowRuleData>) -> Seq<FlowRuleView> {
    s.map_values(|d: FlowRuleData| d@)
}

impl FlowRuleData {
    /// The rule as it is sent.
    pub fn of(r: &FlowRule) -> (d: FlowRuleData)
        ensures
            d@ == r@,
    {
        FlowRuleData {
            name: r.name.clone(),
            fields: model::copy_fields(&r.fields),
            max_keys: r.max_keys,
            eviction_policy: r.eviction_policy,
        }
    }
}

#[derive(Debug)]
pub struct FlowRuleDetailData {
    pub name: String,
    pub fields: Vec<Field>,
    pub max_keys: u32,
    pub eviction_policy: EvictionPolicy,
    pub counters: FlowRuleCountersData,
    pub flows: Vec<FlowEntryData>,
}

/// The details of a rule as plain mathematical values.
#[verifier::ext_equal]
pub struct DetailView {
    pub rule: FlowRuleView,
    pub counters: FlowRuleCountersData,
    pub flows: Seq<EntryView>,
}

impl View for FlowRuleDetailData {
    type V = DetailView;

    open spec fn view(&self) -> DetailView {
        DetailView {
            rule: FlowRuleView {
                name: self.name@,
                fields: self.fields@,
                max_keys: self.max_keys,
                eviction_policy: self.eviction_policy,
            },
            counters: self.counters,
            flows: entry_views(self.flows@),
        }
    }
}

#[derive(Clone, Copy, Debug, PartialEq, Eq, Structural)]
pub struct FlowRuleCountersData {
    pub packets: u64,
    pub bytes: u64,
    pub evictions: u64,
    pub drops: u64,
}

#[derive(Debug)]
pub struct FlowEntryData {
    pub key: Vec<String>,
    pub packets: u64,
    pub bytes: u64,
    pub first_seen_ns: u64,
    pub last_seen_ns: u64,
}

/// A flow as it is sent, as plain mathematical values.
#[verifier::ext_equal]
pub struct EntryView {
    pub key: Seq<Seq<char>>,
    pub packets: u64,
    pub bytes: u64,
    pub first_seen_ns: u64,
    pub last_seen_ns: u64,
}

impl View for FlowEntryData {
    type V = EntryView;

    open spec fn view(&self) -> EntryView {
        EntryView {
            key: exporter::texts(self.key@),
            packets: self.packets,
            bytes: self.bytes,
            first_seen_ns: self.first_seen_ns,
            last_seen_ns: self.last_seen_ns,
        }
    }
}

/// The views of a list of flows.
pub open spec fn entry_views(s: Seq<FlowEntryData>) -> Seq<EntryView> {
    s.map_values(|d: FlowEntryData| d@)
}

#[derive(Debug)]
pub struct StatsShowData {
    pub flow_rules: Vec<FlowRuleStatsData>,
}

#[derive(Debug)]
pub struct FlowRuleStatsData<S = String> {
    pub name: S,
    pub packets: u64,
    pub bytes: u64,
    pub evictions: u64,
    pub drops: u64,
    pub active_flows: u64,
}

pub type StatsRowView = FlowRuleStatsData<Seq<char>>;

impl View for FlowRuleStatsData<String> {
    type V = StatsRowView;

    open spec fn view(&self) -> StatsRowView {
        FlowRuleStatsData {
            name: self.name@,
            packets: self.packets,
            bytes: self.bytes,
            evictions: self.evictions,
            drops: self.drops,
            active_flows: self.active_flows,
        }
    }
}

/// The views of a list of rule statistics.
pub open spec fn row_views(s: Seq<FlowRuleStatsData>) -> Seq<StatsRowView> {
    s.map_values(|d: FlowRuleStatsData| d@)
}

#[derive(Debug)]
pub struct StatsPullData {
    pub tick_id: u64,
    pub wall_clock_ns: u64,
    pub stats: StatsShowData,
}

/// A response with data.
pub open spec fn ok_view(data: DataView) -> ResponseView {
    ResponseView { ok: true, data: Some(data), error: None }
}

/// A response that only says that all is well.
pub open spec fn ok_empty_view() -> ResponseView {
    ResponseView { ok: true, data: None, error: None }
}

/// A response that says what went wrong.
pub open spec fn err_view(code: i32, message: Seq<char>) -> ResponseView {
    ResponseView { ok: false, data: None, error: Some(ErrorData { code, message }) }
}

impl Response {
    /// A response with data.
    pub fn ok(data: ResponseData) -> (r: Response)
        ensures
            r@ == ok_view(data@),
    {
        Response { ok: true, data: Some(data), error: None }
    }

    /// A response that only says that all is well.
    pub fn ok_empty() -> (r: Response)
        ensures
            r@ == ok_empty_view(),
    {
        Response { ok: true, data: None, error: None }
    }

    /// A response that says what went wrong.
    pub fn err(code: i32, message: String) -> (r: Response)
        ensures
            r@ == err_view(code, message@),
    {
        Response { ok: false, data: None, error: Some(ErrorData { code, message }) }
    }
}

// ---------------------------------------------------------------- laws

/// The view of a request tells what it asks for and of which rule.
pub proof fn request_is_told_by_field(q: Request)
    ensures
        match q {
            Request::FlowRuleAdd(p) => {
                &&& q@ matches RequestView::FlowRuleAdd(r)
                &&& r.name == p.name@
                &&& r.fields == p.fields@
                &&& r.max_keys == p.max_keys
                &&& r.eviction_policy == p.eviction_policy
            },
            Request::FlowRuleRm(p) => q@ == RequestView::FlowRuleRm(p.name@),
            Request::FlowRuleList => q@ is FlowRuleList,
            Request::FlowRuleShow(p) => q@ == RequestView::FlowRuleShow(p.name@),
            Request::StatsShow(p) => {
                &&& q@ matches RequestView::StatsShow(n)
                &&& n is Some == p.name is Some
                &&& p.name matches Some(x) ==> n == Some(x@)
            },
            Request::StatsPull => q@ is StatsPull,
        },
{
}

/// The view of a response tells whether all is well, its data and its error.
pub proof fn response_is_told_by_field(r: Response)
    ensures
        r@.ok == r.ok,
        r@.data is Some == r.data is Some,
        r.data matches Some(d) ==> r@.data == Some(d@),
        r@.error is Some == r.error is Some,
        r.error matches Some(e) ==> r@.error is Some && r@.error->Some_0.code == e.code
            && r@.error->Some_0.message == e.message@,
{
}

/// The view of a rule that is sent tells it field by field.
pub proof fn rule_is_told_by_field(d: FlowRuleData)
    ensures
        d@.name == d.name@,
        d@.fields == d.fields@,
        d@.max_keys == d.max_keys,
        d@.eviction_policy == d.eviction_policy,
{
}

/// The view of a rule's totals tells each of them under its own name.
pub proof fn row_is_told_by_field(d: FlowRuleStatsData)
    ensures
        d@.name == d.name@,
        d@.packets == d.packets,
        d@.bytes == d.bytes,
        d@.evictions == d.evictions,
        d@.drops == d.drops,
        d@.active_flows == d.active_flows,
{
}

/// The view of a rule's details tells the rule, its counters and its flows in order.
pub proof fn detail_is_told_by_field(d: FlowRuleDetailData)
    ensures
        d@.rule.name == d.name@,
        d@.rule.fields == d.fields@,
        d@.rule.max_keys == d.max_keys,
        d@.rule.eviction_policy == d.eviction_policy,
        d@.counters.packets == d.counters.packets,
        d@.counters.bytes == d.counters.bytes,
        d@.counters.evictions == d.counters.evictions,
        d@.counters.drops == d.counters.drops,
        d@.flows.len() == d.flows@.len(),
        forall|i: int|
            0 <= i < d.flows@.len() ==> {
                let f = d.flows@[i];
                &&& (#[trigger] d@.flows[i]).packets == f.packets
                &&& d@.flows[i].bytes == f.bytes
                &&& d@.flows[i].first_seen_ns == f.first_seen_ns
                &&& d@.flows[i].last_seen_ns == f.last_seen_ns
                &&& d@.flows[i].key.len() == f.key@.len()
                &&& forall|k: int| 0 <= k < f.key@.len() ==> #[trigger] d@.flows[i].key[k]
                    == f.key@[k]@
            },
{
}

/// The view of the data of a response tells which kind it is and what stands in it, in order.
pub proof fn data_is_told_by_field(d: ResponseData)
    ensures
        match d {
            ResponseData::FlowRuleId(x) => d@ == DataView::FlowRuleId(x.id@),
            ResponseData::FlowRuleList(x) => {
                &&& d@ matches DataView::FlowRuleList(s)
                &&& s.len() == x.rules@.len()
                &&& forall|i: int| 0 <= i < x.rules@.len() ==> #[trigger] s[i] == x.rules@[i]@
            },
            ResponseData::FlowRuleDetail(x) => d@ == DataView::FlowRuleDetail(x@),
            ResponseData::StatsShow(x) => {
                &&& d@ matches DataView::StatsShow(s)
                &&& s.len() == x.flow_rules@.len()
                &&& forall|i: int|
                    0 <= i < x.flow_rules@.len() ==> #[trigger] s[i] == x.flow_rules@[i]@
            },
            ResponseData::StatsPull(x) => {
                &&& d@ matches DataView::StatsPull { tick_id, wall_clock_ns, stats }
                &&& tick_id == x.tick_id
                &&& wall_clock_ns == x.wall_clock_ns
                &&& stats.len() == x.stats.flow_rules@.len()
                &&& forall|i: int|
                    0 <= i < x.stats.flow_rules@.len() ==> #[trigger] stats[i]
                        == x.stats.flow_rules@[i]@
            },
        },
{
}

/// A response either says that all is well and holds no error, or holds the error and no data.
pub proof fn responses_are_clear(data: DataView, code: i32, message: Seq<char>)
    ensures
        ok_view(data).ok && ok_view(data).data == Some(data) && ok_view(data).error is None,
        ok_empty_view().ok && ok_empty_view().data is None && ok_empty_view().error is None,
        !err_view(code, message).ok && err_view(code, message).data is None,
        err_view(code, message).error matches Some(e) && e.code == code && e.message == message,
{
}

} // verus!
