//! The client side of the control socket: which request each call sends, and what it makes of the
//! response.

use vstd::prelude::*;

use super::error::{CtlError, CtlErrorView};
use super::protocol::{
    self, DataView, DetailView, EntryView, FlowEntryData, FlowRuleAddParams, FlowRuleRmParams,
    FlowRuleShowParams, Request, RequestView, Response, ResponseData, ResponseView, StatsPullData,
    StatsShowData, StatsShowParams,
};
use super::types::{
    self, FieldId, FieldValue, FlowCounters, FlowRuleCounters, FlowRuleId, FlowRuleStats,
    FlowRuleStatsView, FlowStats, FlowStatsView,
};
use crate::config::model::{self, Field, FlowRule};
use crate::duration::Duration;
use crate::text;

verus! {

/// The longest response that is read, in bytes.
pub const MAX_RESPONSE: u64 = 64 * 1024;

/// How one exporter is doing.
#[derive(Debug)]
pub struct ExporterStatus {
    pub name: String,
    pub kind: String,
    pub healthy: bool,
    pub ticks_exported: u64,
    pub ticks_dropped: u64,
}

/// A client of the control socket.
#[derive(Debug)]
pub struct InFMonControlClient {
    socket_path: String,
    timeout: Duration,
}

/// Where an exchange with the frontend broke off, and why.
#[derive(Debug)]
pub enum RpcFailure<S = String> {
    ConnectTimedOut,
    Connect(S),
    Serialize(S),
    WriteTimedOut,
    Write(S),
    ReadTimedOut,
    Read(S),
    Deserialize(S),
}

/// The error of an exchange that broke off.
pub open spec fn rpc_error_view(f: RpcFailure<String>) -> CtlErrorView {
    match f {
        RpcFailure::ConnectTimedOut => CtlError::Connect("connection timed out"@),
        RpcFailure::Connect(e) => CtlError::Connect(e@),
        RpcFailure::Serialize(e) => CtlError::Protocol("serialize request: "@ + e@),
        RpcFailure::WriteTimedOut => CtlError::Io("write timed out"@),
        RpcFailure::Write(e) => CtlError::Io(e@),
        RpcFailure::ReadTimedOut => CtlError::Io("read timed out"@),
        RpcFailure::Read(e) => CtlError::Io(e@),
        RpcFailure::Deserialize(e) => CtlError::Protocol("deserialize response: "@ + e@),
    }
}

/// The error of an exchange that broke off.
pub fn rpc_error(f: RpcFailure) -> (r: CtlError)
    ensures
        r@ == rpc_error_view(f),
{
    match f {
        RpcFailure::ConnectTimedOut => CtlError::Connect("connection timed out".to_owned()),
        RpcFailure::Connect(e) => CtlError::Connect(e),
        RpcFailure::Serialize(e) => CtlError::Protocol(
            text::cat("serialize request: ", e.as_str()),
        ),
        RpcFailure::WriteTimedOut => CtlError::Io("write timed out".to_owned()),
        RpcFailure::Write(e) => CtlError::Io(e),
        RpcFailure::ReadTimedOut => CtlError::Io("read timed out".to_owned()),
        RpcFailure::Read(e) => CtlError::Io(e),
        RpcFailure::Deserialize(e) => CtlError::Protocol(
            text::cat("deserialize response: ", e.as_str()),
        ),
    }
}

/// The line that carries a message.
pub fn message_line(json: &str) -> (r: String)
    ensures
        r@ == json@.push('\n'),
{
    let mut r = json.to_owned();
    r.push('\n');
    r
}

/// The data of a response, or the error that it tells of.
pub open spec fn reply_view(r: ResponseView) -> Result<Option<DataView>, CtlErrorView> {
    if r.ok {
        Ok(r.data)
    } else {
        match r.error {
            Some(e) => Err(CtlError::Backend { code: e.code, message: e.message }),
            None => Err(CtlError::Backend { code: -1i32, message: "unknown error"@ }),
        }
    }
}

/// The data of a response, or the error that it tells of.
pub fn rpc_ok(resp: Response) -> (r: Result<Option<ResponseData>, CtlError>)
    ensures
        match reply_view(resp@) {
            Ok(None) => r is Ok && r->Ok_0 is None,
            Ok(Some(d)) => r is Ok && r->Ok_0 is Some && r->Ok_0->Some_0@ == d,
            Err(e) => r is Err && r->Err_0@ == e,
        },
        resp.ok ==> r is Ok && r->Ok_0 == resp.data,
{
    if !resp.ok {
        return match resp.error {
            Some(e) => Err(CtlError::Backend { code: e.code, message: e.message }),
            None => Err(CtlError::Backend { code: -1, message: "unknown error".to_owned() }),
        };
    }
    Ok(resp.data)
}

/// The error of a response that does not fit its request.
pub open spec fn unexpected() -> CtlErrorView {
    CtlError::Protocol("unexpected response data"@)
}

fn unexpected_data() -> (r: CtlError)
    ensures
        r@ == unexpected(),
{
    CtlError::Protocol("unexpected response data".to_owned())
}

/// The identifier of a field.
pub open spec fn id_of_field(f: Field) -> FieldId {
    match f {
        Field::SrcIp => FieldId::SrcIp,
        Field::DstIp => FieldId::DstIp,
        Field::IpProto => FieldId::IpProto,
        Field::Dscp => FieldId::Dscp,
        Field::MirrorSrcIp => FieldId::MirrorSrcIp,
        Field::SrcPort => FieldId::SrcPort,
        Field::DstPort => FieldId::DstPort,
    }
}

/// The identifier of a field; every field has one.
pub fn field_to_field_id(f: &Field) -> (r: Option<FieldId>)
    ensures
        r == Some(id_of_field(*f)),
{
    match f {
        Field::SrcIp => Some(FieldId::SrcIp),
        Field::DstIp => Some(FieldId::DstIp),
        Field::IpProto => Some(FieldId::IpProto),
        Field::Dscp => Some(FieldId::Dscp),
        Field::MirrorSrcIp => Some(FieldId::MirrorSrcIp),
        Field::SrcPort => Some(FieldId::SrcPort),
        Field::DstPort => Some(FieldId::DstPort),
    }
}

/// The flows of a response as statistics. A key travels as text, one piece per field; the values
/// behind the pieces are not read back.
pub open spec fn flows_of_entries(s: Seq<EntryView>) -> Seq<FlowStatsView> {
    s.map_values(
        |f: EntryView|
            FlowStatsView {
                key: Seq::new(f.key.len(), |i: int| FieldValue::Proto(0)),
                counters: FlowCounters {
                    packets: f.packets,
                    bytes: f.bytes,
                    first_seen_ns: f.first_seen_ns,
                    last_seen_ns: f.last_seen_ns,
                },
            },
    )
}

/// The details of a response as statistics.
pub open spec fn stats_of_detail(d: DetailView) -> FlowRuleStatsView {
    FlowRuleStatsView {
        name: d.rule.name,
        fields: d.rule.fields.map_values(|f: Field| id_of_field(f)),
        max_keys: d.rule.max_keys,
        eviction_policy: d.rule.eviction_policy,
        flows: flows_of_entries(d.flows),
        counters: FlowRuleCounters {
            packets: d.counters.packets,
            bytes: d.counters.bytes,
            evictions: d.counters.evictions,
            drops: d.counters.drops,
        },
    }
}

fn field_ids(fields: &Vec<Field>) -> (r: Vec<FieldId>)
    ensures
        r@ == fields@.map_values(|f: Field| id_of_field(f)),
{
    let mut r: Vec<FieldId> = Vec::new();
    let mut i: usize = 0;
    while i < fields.len()
        invariant
            i <= fields.len(),
            r.len() == i,
            forall|k: int| 0 <= k < i ==> #[trigger] r@[k] == id_of_field(fields@[k]),
        decreases fields.len() - i,
    {
        if let Some(id) = field_to_field_id(&fields[i]) {
            r.push(id);
        }
        i = i + 1;
    }
    assert(r@ =~= fields@.map_values(|f: Field| id_of_field(f)));
    r
}

fn placeholder_key(n: usize) -> (r: Vec<FieldValue>)
    ensures
        r@ == Seq::new(n as nat, |i: int| FieldValue::Proto(0)),
{
    let mut r: Vec<FieldValue> = Vec::new();
    let mut i: usize = 0;
    while i < n
        invariant
            i <= n,
            r@ == Seq::new(i as nat, |k: int| FieldValue::Proto(0)),
        decreases n - i,
    {
        r.push(FieldValue::Proto(0));
        i = i + 1;
        assert(r@ =~= Seq::new(i as nat, |k: int| FieldValue::Proto(0)));
    }
    r
}

fn read_entries(entries: &Vec<FlowEntryData>) -> (r: Vec<FlowStats>)
    ensures
        types::flow_views(r@) == flows_of_entries(protocol::entry_views(entries@)),
{
    let ghost sent = protocol::entry_views(entries@);
    let mut r: Vec<FlowStats> = Vec::new();
    let mut i: usize = 0;
    while i < entries.len()
        invariant
            i <= entries.len(),
            sent == protocol::entry_views(entries@),
            r.len() == i,
            forall|k: int| 0 <= k < i ==> (#[trigger] r@[k])@ == flows_of_entries(sent)[k],
        decreases entries.len() - i,
    {
        let f = &entries[i];
        assert(sent[i as int] == f@);
        r.push(
            FlowStats {
                key: placeholder_key(f.key.len()),
                counters: FlowCounters {
                    packets: f.packets,
                    bytes: f.bytes,
                    first_seen_ns: f.first_seen_ns,
                    last_seen_ns: f.last_seen_ns,
                },
            },
        );
        i = i + 1;
    }
    assert(types::flow_views(r@) =~= flows_of_entries(sent));
    r
}

/// The rules of a response.
fn read_rules(rules: Vec<protocol::FlowRuleData>) -> (r: Vec<FlowRule>)
    ensures
        model::rule_views(r@) == protocol::rule_data_views(rules@),
{
    let ghost all = rules@;
    let mut r: Vec<FlowRule> = Vec::new();
    for d in it: rules
        invariant
            it.seq() == all,
            r.len() == it.index(),
            forall|k: int| 0 <= k < it.index() ==> (#[trigger] r@[k])@ == all[k]@,
    {
        assert(d == all[it.index() as int]);
        r.push(
            FlowRule {
                name: d.name,
                fields: d.fields,
                max_keys: d.max_keys,
                eviction_policy: d.eviction_policy,
            },
        );
    }
    assert(model::rule_views(r@) =~= protocol::rule_data_views(all));
    r
}

impl InFMonControlClient {
    /// The path of the control socket.
    pub closed spec fn socket(&self) -> Seq<char> {
        self.socket_path@
    }

    /// How long each step of a call may take.
    pub closed spec fn patience(&self) -> Duration {
        self.timeout
    }

    /// A client that waits five seconds. No connection is made before the first call.
    pub fn new(path: &str) -> (r: InFMonControlClient)
        ensures
            r.socket() == path@,
            r.patience().nanos == 5_000_000_000,
    {
        InFMonControlClient { socket_path: path.to_owned(), timeout: Duration::from_secs(5) }
    }

    /// A client that waits as long as told.
    pub fn with_timeout(path: &str, timeout: Duration) -> (r: InFMonControlClient)
        ensures
            r.socket() == path@,
            r.patience() == timeout,
    {
        InFMonControlClient { socket_path: path.to_owned(), timeout }
    }

    /// A client of a socket that has to be there.
    pub fn connect(path: &str, exists: bool) -> (r: Result<InFMonControlClient, CtlError>)
        ensures
            match r {
                Ok(c) => exists && c.socket() == path@ && c.patience().nanos == 5_000_000_000,
                Err(e) => !exists && e@ == CtlError::<Seq<char>>::Connect(
                    "control socket not found: "@ + path@,
                ),
            },
    {
        if !exists {
            return Err(CtlError::Connect(text::cat("control socket not found: ", path)));
        }
        Ok(InFMonControlClient::new(path))
    }

    /// The path of the control socket.
    pub fn path(&self) -> (r: &str)
        ensures
            r@ == self.socket(),
    {
        self.socket_path.as_str()
    }

    /// How long each step of a call may take.
    pub fn timeout(&self) -> (r: Duration)
        ensures
            r == self.patience(),
    {
        self.timeout
    }

    /// The request that adds a flow rule.
    pub fn flow_rule_add(&self, def: FlowRule) -> (r: Request)
        ensures
            r@ == RequestView::FlowRuleAdd(def@),
    {
        Request::FlowRuleAdd(
            FlowRuleAddParams {
                name: def.name,
                fields: def.fields,
                max_keys: def.max_keys,
                eviction_policy: def.eviction_policy,
            },
        )
    }

    /// The identifier of the rule that was added.
    pub fn flow_rule_add_reply(resp: Response) -> (r: Result<FlowRuleId, CtlError>)
        ensures
            match reply_view(resp@) {
                Err(e) => r is Err && r->Err_0@ == e,
                Ok(Some(DataView::FlowRuleId(id))) => match types::parse_id(id) {
                    Ok(x) => r is Ok && r->Ok_0 == x,
                    Err(e) => r is Err && r->Err_0@ == CtlError::<Seq<char>>::Protocol(
                        "invalid FlowRuleId: "@ + e,
                    ),
                },
                Ok(_) => r is Err && r->Err_0@ == unexpected(),
            },
    {
        match rpc_ok(resp) {
            Err(e) => Err(e),
            Ok(Some(ResponseData::FlowRuleId(d))) => match FlowRuleId::parse(d.id.as_str()) {
                Ok(id) => Ok(id),
                Err(e) => Err(
                    CtlError::Protocol(text::cat("invalid FlowRuleId: ", e.as_str())),
                ),
            },
            Ok(_) => Err(unexpected_data()),
        }
    }

    /// The request that removes a flow rule.
    pub fn flow_rule_rm(&self, name: &str) -> (r: Request)
        ensures
            r@ == RequestView::FlowRuleRm(name@),
    {
        Request::FlowRuleRm(FlowRuleRmParams { name: name.to_owned() })
    }

    /// Whether the rule was removed.
    pub fn flow_rule_rm_reply(resp: Response) -> (r: Result<(), CtlError>)
        ensures
            match reply_view(resp@) {
                Err(e) => r is Err && r->Err_0@ == e,
                Ok(_) => r is Ok,
            },
    {
        match rpc_ok(resp) {
            Err(e) => Err(e),
            Ok(_) => Ok(()),
        }
    }

    /// The request for all flow rules.
    pub fn flow_rule_list(&self) -> (r: Request)
        ensures
            r@ == RequestView::FlowRuleList,
    {
        Request::FlowRuleList
    }

    /// All flow rules.
    pub fn flow_rule_list_reply(resp: Response) -> (r: Result<Vec<FlowRule>, CtlError>)
        ensures
            match reply_view(resp@) {
                Err(e) => r is Err && r->Err_0@ == e,
                Ok(Some(DataView::FlowRuleList(rules))) => r is Ok && model::rule_views(
                    r->Ok_0@,
                ) == rules,
                Ok(_) => r is Err && r->Err_0@ == unexpected(),
            },
    {
        match rpc_ok(resp) {
            Err(e) => Err(e),
            Ok(Some(ResponseData::FlowRuleList(d))) => Ok(read_rules(d.rules)),
            Ok(_) => Err(unexpected_data()),
        }
    }

    /// The request for one flow rule and its flows.
    pub fn flow_rule_show(&self, name: &str) -> (r: Request)
        ensures
            r@ == RequestView::FlowRuleShow(name@),
    {
        Request::FlowRuleShow(FlowRuleShowParams { name: name.to_owned() })
    }

    /// One flow rule and its flows.
    pub fn flow_rule_show_reply(resp: Response) -> (r: Result<FlowRuleStats, CtlError>)
        ensures
            match reply_view(resp@) {
                Err(e) => r is Err && r->Err_0@ == e,
                Ok(Some(DataView::FlowRuleDetail(d))) => r is Ok && r->Ok_0@ == stats_of_detail(d),
                Ok(_) => r is Err && r->Err_0@ == unexpected(),
            },
    {
        match rpc_ok(resp) {
            Err(e) => Err(e),
            Ok(Some(ResponseData::FlowRuleDetail(d))) => Ok(
                FlowRuleStats {
                    fields: field_ids(&d.fields),
                    max_keys: d.max_keys,
                    eviction_policy: d.eviction_policy,
                    flows: read_entries(&d.flows),
                    counters: FlowRuleCounters {
                        packets: d.counters.packets,
                        bytes: d.counters.bytes,
                        evictions: d.counters.evictions,
                        drops: d.counters.drops,
                    },
                    name: d.name,
                },
            ),
            Ok(_) => Err(unexpected_data()),
        }
    }

    /// The request for the totals of all rules, or of one.
    pub fn stats_show(&self, name: Option<&str>) -> (r: Request)
        ensures
            r@ == RequestView::StatsShow(
                match name {
                    Some(n) => Some(n@),
                    None => None,
                },
            ),
    {
        Request::StatsShow(
            StatsShowParams {
                name: match name {
                    Some(n) => Some(n.to_owned()),
                    None => None,
                },
            },
        )
    }

    /// The totals of the rules.
    pub fn stats_show_reply(resp: Response) -> (r: Result<StatsShowData, CtlError>)
        ensures
            match reply_view(resp@) {
                Err(e) => r is Err && r->Err_0@ == e,
                Ok(Some(DataView::StatsShow(rows))) => r is Ok && protocol::row_views(
                    r->Ok_0.flow_rules@,
                ) == rows,
                Ok(_) => r is Err && r->Err_0@ == unexpected(),
            },
    {
        match rpc_ok(resp) {
            Err(e) => Err(e),
            Ok(Some(ResponseData::StatsShow(d))) => Ok(d),
            Ok(_) => Err(unexpected_data()),
        }
    }

    /// The request for a fresh snapshot.
    pub fn stats_pull(&self) -> (r: Request)
        ensures
            r@ == RequestView::StatsPull,
    {
        Request::StatsPull
    }

    /// The totals of a fresh snapshot.
    pub fn stats_pull_reply(resp: Response) -> (r: Result<StatsPullData, CtlError>)
        ensures
            match reply_view(resp@) {
                Err(e) => r is Err && r->Err_0@ == e,
                Ok(Some(DataView::StatsPull { tick_id, wall_clock_ns, stats })) => {
                    &&& r is Ok
                    &&& r->Ok_0.tick_id == tick_id
                    &&& r->Ok_0.wall_clock_ns == wall_clock_ns
                    &&& protocol::row_views(r->Ok_0.stats.flow_rules@) == stats
                },
                Ok(_) => r is Err && r->Err_0@ == unexpected(),
            },
    {
        match rpc_ok(resp) {
            Err(e) => Err(e),
            Ok(Some(ResponseData::StatsPull(d))) => Ok(d),
            Ok(_) => Err(unexpected_data()),
        }
    }

    /// Asks for the configuration to be read again; not to be had yet.
    pub fn reload(&self) -> (r: Result<(), CtlError>)
        ensures
            r is Err,
            r->Err_0@ == CtlError::<Seq<char>>::Request("not implemented (stub)"@),
    {
        Err(CtlError::Request("not implemented (stub)".to_owned()))
    }

    /// Asks how the exporters are doing; not to be had yet.
    pub fn exporter_list(&self) -> (r: Result<Vec<ExporterStatus>, CtlError>)
        ensures
            r is Err,
            r->Err_0@ == CtlError::<Seq<char>>::Request("not implemented (stub)"@),
    {
        Err(CtlError::Request("not implemented (stub)".to_owned()))
    }
}

// ---------------------------------------------------------------- laws

/// A field and its identifier bear the same name.
pub proof fn ids_bear_the_names_of_fields(f: Field)
    ensures
        super::decode::field_label(id_of_field(f)) == f.label(),
        id_of_field(f).bytes() == f.bytes(),
{
}

/// The statistics that are read from the details of a rule tell the rule, each counter under its own
/// name, and each flow with its own counters.
pub proof fn stats_tell_the_details(d: DetailView)
    ensures
        ({
            let s = stats_of_detail(d);
            &&& s.name == d.rule.name
            &&& s.max_keys == d.rule.max_keys
            &&& s.eviction_policy == d.rule.eviction_policy
            &&& s.fields.len() == d.rule.fields.len()
            &&& s.counters.packets == d.counters.packets
            &&& s.counters.bytes == d.counters.bytes
            &&& s.counters.evictions == d.counters.evictions
            &&& s.counters.drops == d.counters.drops
            &&& s.flows.len() == d.flows.len()
            &&& forall|i: int|
                0 <= i < d.flows.len() ==> {
                    &&& (#[trigger] s.flows[i]).counters.packets == d.flows[i].packets
                    &&& s.flows[i].counters.bytes == d.flows[i].bytes
                    &&& s.flows[i].counters.first_seen_ns == d.flows[i].first_seen_ns
                    &&& s.flows[i].counters.last_seen_ns == d.flows[i].last_seen_ns
                    &&& s.flows[i].key.len() == d.flows[i].key.len()
                }
        }),
{
}

/// A response that says that all is well hands its data over; any other is an error of the other
/// side, with the code and the message that it gives.
pub proof fn refusals_are_told(r: ResponseView)
    ensures
        r.ok ==> reply_view(r) == Ok::<Option<DataView>, CtlErrorView>(r.data),
        !r.ok ==> {
            &&& reply_view(r) matches Err(CtlError::Backend { code, message })
            &&& r.error matches Some(e) ==> code == e.code && message == e.message
            &&& r.error is None ==> code == -1
        },
{
}

/// An exchange that does not get as far as a connection failed to connect; one that breaks off
/// later is a broken connection or a message that cannot be written or read.
pub proof fn failures_are_told_by_place(f: RpcFailure)
    ensures
        rpc_error_view(f) is Connect <==> f is ConnectTimedOut || f is Connect,
        rpc_error_view(f) is Io <==> f is WriteTimedOut || f is Write || f is ReadTimedOut || f
            is Read,
        rpc_error_view(f) is Protocol <==> f is Serialize || f is Deserialize,
        f matches RpcFailure::Connect(e) ==> rpc_error_view(f) == CtlError::Connect(e@),
        f matches RpcFailure::Write(e) ==> rpc_error_view(f) == CtlError::Io(e@),
        f matches RpcFailure::Read(e) ==> rpc_error_view(f) == CtlError::Io(e@),
{
}

} // verus!
