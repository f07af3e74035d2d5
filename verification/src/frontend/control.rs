//! The control server: the rules in force, the latest snapshot, and how requests are answered.
//!
//! Where there is a backend, changes to the rules are put to it first: a request then gives a call
//! for the backend, and what the backend answers gives the response.

use std::sync::Arc;

use vstd::prelude::*;

use super::otlp::attributes;
use super::vapi_stats_client::VapiError;
use crate::config::crud;
use crate::config::model::{self, FlowRule, FlowRuleView};
use crate::ipc::control_client;
use crate::ipc::error::CtlErrorView;
use crate::ipc::protocol::{
    self, DataView, DetailView, EntryView, FlowEntryData, FlowRuleAddParams, FlowRuleCountersData,
    FlowRuleData, FlowRuleDetailData, FlowRuleIdData, FlowRuleListData, FlowRuleStatsData, Request,
    RequestView, Response, ResponseData, ResponseView, StatsPullData, StatsRowView, StatsShowData,
};
use crate::ipc::types::{
    self, FieldValue, FlowRuleId, FlowRuleStats, FlowStats, FlowStatsSnapshot,
};
use crate::pairs::{self, Pairs};
use crate::text;

verus! {

/// What the control server knows.
#[derive(Debug)]
pub struct ControlState {
    /// The flow rules in force.
    pub flow_rules: Vec<FlowRule>,
    /// The latest snapshot of the poller.
    pub latest_snapshot: Option<Arc<FlowStatsSnapshot>>,
    /// The number of the next rule that gets its identifier here.
    pub next_rule_id: u64,
    /// Whether changes are put to a backend.
    pub has_backend: bool,
    /// The identifiers that the backend assigned, by rule name.
    pub rule_id_map: Pairs<FlowRuleId>,
}

/// What a request gives.
#[derive(Debug)]
pub enum Reply {
    /// The response.
    Respond(Response),
    /// The backend has to add the rule first.
    AddToBackend(FlowRule),
    /// The backend has to remove the rule first.
    RemoveFromBackend(FlowRuleId),
    /// The poller has to make a snapshot first.
    PullSnapshot,
}

/// What a request gives, as plain mathematical values.
pub enum ReplyView {
    Respond(ResponseView),
    AddToBackend(FlowRuleView),
    RemoveFromBackend(FlowRuleId),
    PullSnapshot,
}

impl View for Reply {
    type V = ReplyView;

    open spec fn view(&self) -> ReplyView {
        match self {
            Reply::Respond(r) => ReplyView::Respond(r@),
            Reply::AddToBackend(r) => ReplyView::AddToBackend(r@),
            Reply::RemoveFromBackend(id) => ReplyView::RemoveFromBackend(*id),
            Reply::PullSnapshot => ReplyView::PullSnapshot,
        }
    }
}

/// What the control server knows, as plain mathematical values.
#[verifier::ext_equal]
pub struct ControlView {
    pub rules: Seq<FlowRuleView>,
    pub snapshot: Option<Arc<FlowStatsSnapshot>>,
    pub next_rule_id: u64,
    pub has_backend: bool,
    pub ids: Seq<(Seq<char>, FlowRuleId)>,
}

impl View for ControlState {
    type V = ControlView;

    open spec fn view(&self) -> ControlView {
        ControlView {
            rules: model::rule_views(self.flow_rules@),
            snapshot: self.latest_snapshot,
            next_rule_id: self.next_rule_id,
            has_backend: self.has_backend,
            ids: self.rule_id_map@,
        }
    }
}

// ---------------------------------------------------------------- statistics of a rule

/// The statistics of the rule with this name.
pub open spec fn find_stats(s: Seq<FlowRuleStats>, name: Seq<char>) -> Option<FlowRuleStats>
    decreases s.len(),
{
    if s.len() == 0 {
        None
    } else if s[0].name@ == name {
        Some(s[0])
    } else {
        find_stats(s.drop_first(), name)
    }
}

/// The statistics of the rule with this name in the snapshot, if there are any.
pub open spec fn stats_in(snap: Option<Arc<FlowStatsSnapshot>>, name: Seq<char>) -> Option<
    FlowRuleStats,
> {
    match snap {
        Some(s) => find_stats(s.flow_rules@, name),
        None => None,
    }
}

/// A flow as it is sent: each value of its key with the name of its kind.
pub open spec fn entry_of(f: FlowStats) -> EntryView {
    EntryView {
        key: f.key@.map_values(|v: FieldValue| v.labelled()),
        packets: f.counters.packets,
        bytes: f.counters.bytes,
        first_seen_ns: f.counters.first_seen_ns,
        last_seen_ns: f.counters.last_seen_ns,
    }
}

/// The details of a rule: its counters and flows in the snapshot, or none.
pub open spec fn detail_of(rule: FlowRuleView, stats: Option<FlowRuleStats>) -> DetailView {
    DetailView {
        rule,
        counters: match stats {
            Some(s) => FlowRuleCountersData {
                packets: s.counters.packets,
                bytes: s.counters.bytes,
                evictions: s.counters.evictions,
                drops: s.counters.drops,
            },
            None => FlowRuleCountersData { packets: 0, bytes: 0, evictions: 0, drops: 0 },
        },
        flows: match stats {
            Some(s) => s.flows@.map_values(|f: FlowStats| entry_of(f)),
            None => Seq::empty(),
        },
    }
}

/// The totals of a rule in the snapshot, or zeros.
pub open spec fn row_of(name: Seq<char>, stats: Option<FlowRuleStats>) -> StatsRowView {
    match stats {
        Some(s) => FlowRuleStatsData {
            name,
            packets: s.counters.packets,
            bytes: s.counters.bytes,
            evictions: s.counters.evictions,
            drops: s.counters.drops,
            active_flows: s.flows@.len() as u64,
        },
        None => FlowRuleStatsData {
            name,
            packets: 0,
            bytes: 0,
            evictions: 0,
            drops: 0,
            active_flows: 0,
        },
    }
}

/// The totals of the first `n` rules, or of those with the given name among them.
pub open spec fn rows_of(
    rules: Seq<FlowRuleView>,
    snap: Option<Arc<FlowStatsSnapshot>>,
    filter: Option<Seq<char>>,
    n: nat,
) -> Seq<StatsRowView>
    decreases n,
{
    if n == 0 {
        Seq::empty()
    } else {
        let before = rows_of(rules, snap, filter, (n - 1) as nat);
        let name = rules[n - 1].name;
        if filter is None || filter->Some_0 == name {
            before.push(row_of(name, stats_in(snap, name)))
        } else {
            before
        }
    }
}

// ---------------------------------------------------------------- changes

/// The rules without those of this name.
pub open spec fn without(rules: Seq<FlowRuleView>, name: Seq<char>) -> Seq<FlowRuleView>
    decreases rules.len(),
{
    if rules.len() == 0 {
        Seq::empty()
    } else if rules.last().name == name {
        without(rules.drop_last(), name)
    } else {
        without(rules.drop_last(), name).push(rules.last())
    }
}

/// The pairs with `value` under `key`.
pub open spec fn ids_with(
    ids: Seq<(Seq<char>, FlowRuleId)>,
    key: Seq<char>,
    value: FlowRuleId,
) -> Seq<(Seq<char>, FlowRuleId)> {
    let k = pairs::key_position(ids, key);
    if k < ids.len() {
        ids.update(k as int, (key, value))
    } else {
        ids.push((key, value))
    }
}

/// The pairs without `key`.
pub open spec fn ids_without(
    ids: Seq<(Seq<char>, FlowRuleId)>,
    key: Seq<char>,
) -> Seq<(Seq<char>, FlowRuleId)> {
    let k = pairs::key_position(ids, key);
    if k < ids.len() {
        ids.remove(k as int)
    } else {
        ids
    }
}

/// Whether a rule bears this name.
pub open spec fn knows(v: ControlView, name: Seq<char>) -> bool {
    crud::position(v.rules, name) < v.rules.len()
}

/// The response about a rule that is not there.
pub open spec fn not_found(name: Seq<char>) -> ResponseView {
    protocol::err_view(3, "flow rule '"@ + name + "' not found"@)
}

/// The state without a rule.
pub open spec fn removed(v: ControlView, name: Seq<char>) -> ControlView {
    ControlView { rules: without(v.rules, name), ids: ids_without(v.ids, name), ..v }
}

/// Adding a rule: refused where its name is taken, put to the backend where there is one, and
/// otherwise done, with the next number as its identifier.
pub open spec fn added(v: ControlView, rule: FlowRuleView) -> (ControlView, ReplyView) {
    if knows(v, rule.name) {
        (
            v,
            ReplyView::Respond(
                protocol::err_view(6, "flow rule '"@ + rule.name + "' already exists"@),
            ),
        )
    } else if v.has_backend {
        (v, ReplyView::AddToBackend(rule))
    } else {
        (
            ControlView {
                rules: v.rules.push(rule),
                next_rule_id: v.next_rule_id.wrapping_add(1),
                ..v
            },
            ReplyView::Respond(
                protocol::ok_view(
                    DataView::FlowRuleId(
                        types::id_text(FlowRuleId { hi: v.next_rule_id, lo: 0 }),
                    ),
                ),
            ),
        )
    }
}

/// Removing a rule: refused where it is not there, put to the backend where that knows the rule,
/// and otherwise done.
pub open spec fn asked_to_remove(v: ControlView, name: Seq<char>) -> (ControlView, ReplyView) {
    if !knows(v, name) {
        (v, ReplyView::Respond(not_found(name)))
    } else if v.has_backend && pairs::lookup(v.ids, name) is Some {
        (v, ReplyView::RemoveFromBackend(pairs::lookup(v.ids, name)->Some_0))
    } else {
        (removed(v, name), ReplyView::Respond(protocol::ok_empty_view()))
    }
}

/// What a request gives, and the state after it.
pub open spec fn handled(v: ControlView, req: Request) -> (ControlView, ReplyView) {
    match req {
        Request::FlowRuleAdd(p) => added(v, p@),
        Request::FlowRuleRm(p) => asked_to_remove(v, p.name@),
        Request::FlowRuleList => (
            v,
            ReplyView::Respond(protocol::ok_view(DataView::FlowRuleList(v.rules))),
        ),
        Request::FlowRuleShow(p) => (
            v,
            ReplyView::Respond(
                if knows(v, p.name@) {
                    protocol::ok_view(
                        DataView::FlowRuleDetail(
                            detail_of(
                                v.rules[crud::position(v.rules, p.name@) as int],
                                stats_in(v.snapshot, p.name@),
                            ),
                        ),
                    )
                } else {
                    not_found(p.name@)
                },
            ),
        ),
        Request::StatsShow(p) => (
            v,
            ReplyView::Respond(
                protocol::ok_view(
                    DataView::StatsShow(
                        rows_of(
                            v.rules,
                            v.snapshot,
                            text::opt(p.name),
                            v.rules.len(),
                        ),
                    ),
                ),
            ),
        ),
        Request::StatsPull => (v, ReplyView::PullSnapshot),
    }
}

/// What the backend's answer to adding a rule gives, and the state after it.
pub open spec fn added_by_backend(
    v: ControlView,
    rule: FlowRuleView,
    result: Result<FlowRuleId, VapiError>,
) -> (ControlView, ResponseView) {
    match result {
        Ok(id) => (
            ControlView { rules: v.rules.push(rule), ids: ids_with(v.ids, rule.name, id), ..v },
            protocol::ok_view(DataView::FlowRuleId(types::id_text(id))),
        ),
        Err(e) => (
            v,
            protocol::err_view(
                7,
                "backend rejected flow rule '"@ + rule.name + "': "@ + e@.text(),
            ),
        ),
    }
}

/// What the backend's answer to removing a rule gives, and the state after it.
pub open spec fn removed_by_backend(
    v: ControlView,
    name: Seq<char>,
    result: Result<(), VapiError>,
) -> (ControlView, ResponseView) {
    match result {
        Ok(_) => (removed(v, name), protocol::ok_empty_view()),
        Err(e) => (
            v,
            protocol::err_view(
                7,
                "backend failed to delete flow rule '"@ + name + "': "@ + e@.text(),
            ),
        ),
    }
}

// ---------------------------------------------------------------- code

fn named(name: &str, before: &str, after: &str) -> (r: String)
    ensures
        r@ == before@ + name@ + after@,
{
    text::cat3(before, name, after)
}

fn find_rule(rules: &Vec<FlowRule>, name: &str) -> (r: usize)
    ensures
        r == crud::position(model::rule_views(rules@), name@),
        r <= rules.len(),
{
    let ghost views = model::rule_views(rules@);
    let mut i: usize = 0;
    while i < rules.len() && !text::same(rules[i].name.as_str(), name)
        invariant
            i <= rules.len(),
            views == model::rule_views(rules@),
            forall|k: int| 0 <= k < i ==> (#[trigger] views[k]).name != name@,
        decreases rules.len() - i,
    {
        assert(views[i as int] == rules@[i as int]@);
        i = i + 1;
    }
    assert(i < rules.len() ==> views[i as int] == rules@[i as int]@);
    proof {
        crud::position_first(views, name@);
        if crud::position(views, name@) < i {
            assert(views[crud::position(views, name@) as int].name == name@);
        }
    }
    i
}

fn find_stats_of<'a>(snap: &'a FlowStatsSnapshot, name: &str) -> (r: Option<&'a FlowRuleStats>)
    ensures
        match r {
            Some(s) => find_stats(snap.flow_rules@, name@) == Some(*s),
            None => find_stats(snap.flow_rules@, name@) is None,
        },
{
    let ghost all = snap.flow_rules@;
    let mut i: usize = 0;
    assert(all.skip(0) =~= all);
    while i < snap.flow_rules.len()
        invariant
            i <= snap.flow_rules.len(),
            all == snap.flow_rules@,
            find_stats(all, name@) == find_stats(all.skip(i as int), name@),
        decreases snap.flow_rules.len() - i,
    {
        assert(all.skip(i as int)[0] == all[i as int]);
        if text::same(snap.flow_rules[i].name.as_str(), name) {
            return Some(&snap.flow_rules[i]);
        }
        assert(all.skip(i as int).drop_first() =~= all.skip(i as int + 1));
        i = i + 1;
    }
    None
}

fn stats_of<'a>(snap: &'a Option<Arc<FlowStatsSnapshot>>, name: &str) -> (r: Option<
    &'a FlowRuleStats,
>)
    ensures
        match r {
            Some(s) => stats_in(*snap, name@) == Some(*s),
            None => stats_in(*snap, name@) is None,
        },
{
    match snap {
        Some(s) => find_stats_of(s, name),
        None => None,
    }
}

fn key_texts(key: &Vec<FieldValue>) -> (r: Vec<String>)
    ensures
        super::exporter::texts(r@) == key@.map_values(|v: FieldValue| v.labelled()),
{
    let mut r: Vec<String> = Vec::new();
    let mut i: usize = 0;
    while i < key.len()
        invariant
            i <= key.len(),
            r.len() == i,
            forall|k: int| 0 <= k < i ==> (#[trigger] r@[k])@ == key@[k].labelled(),
        decreases key.len() - i,
    {
        r.push(key[i].labelled_text());
        i = i + 1;
    }
    assert(super::exporter::texts(r@) =~= key@.map_values(|v: FieldValue| v.labelled()));
    r
}

/// The flows of a rule as they are sent.
pub fn flow_entries(flows: &Vec<FlowStats>) -> (r: Vec<FlowEntryData>)
    ensures
        protocol::entry_views(r@) == flows@.map_values(|f: FlowStats| entry_of(f)),
{
    let mut r: Vec<FlowEntryData> = Vec::new();
    let mut i: usize = 0;
    while i < flows.len()
        invariant
            i <= flows.len(),
            r.len() == i,
            forall|k: int| 0 <= k < i ==> (#[trigger] r@[k])@ == entry_of(flows@[k]),
        decreases flows.len() - i,
    {
        let f = &flows[i];
        r.push(
            FlowEntryData {
                key: key_texts(&f.key),
                packets: f.counters.packets,
                bytes: f.counters.bytes,
                first_seen_ns: f.counters.first_seen_ns,
                last_seen_ns: f.counters.last_seen_ns,
            },
        );
        i = i + 1;
    }
    assert(protocol::entry_views(r@) =~= flows@.map_values(|f: FlowStats| entry_of(f)));
    r
}

fn make_detail(rule: &FlowRule, stats: Option<&FlowRuleStats>) -> (r: FlowRuleDetailData)
    ensures
        r@ == detail_of(
            rule@,
            match stats {
                Some(s) => Some(*s),
                None => None,
            },
        ),
{
    let (counters, flows) = match stats {
        Some(s) => (
            FlowRuleCountersData {
                packets: s.counters.packets,
                bytes: s.counters.bytes,
                evictions: s.counters.evictions,
                drops: s.counters.drops,
            },
            flow_entries(&s.flows),
        ),
        None => (
            FlowRuleCountersData { packets: 0, bytes: 0, evictions: 0, drops: 0 },
            Vec::new(),
        ),
    };
    let r = FlowRuleDetailData {
        name: rule.name.clone(),
        fields: model::copy_fields(&rule.fields),
        max_keys: rule.max_keys,
        eviction_policy: rule.eviction_policy,
        counters,
        flows,
    };
    assert(r@ =~= detail_of(
        rule@,
        match stats {
            Some(s) => Some(*s),
            None => None,
        },
    ));
    r
}

fn make_row(name: &String, stats: Option<&FlowRuleStats>) -> (r: FlowRuleStatsData)
    ensures
        r@ == row_of(
            name@,
            match stats {
                Some(s) => Some(*s),
                None => None,
            },
        ),
{
    match stats {
        Some(s) => FlowRuleStatsData {
            name: name.clone(),
            packets: s.counters.packets,
            bytes: s.counters.bytes,
            evictions: s.counters.evictions,
            drops: s.counters.drops,
            active_flows: s.flows.len() as u64,
        },
        None => FlowRuleStatsData {
            name: name.clone(),
            packets: 0,
            bytes: 0,
            evictions: 0,
            drops: 0,
            active_flows: 0,
        },
    }
}

fn make_rows(
    rules: &Vec<FlowRule>,
    snap: &Option<Arc<FlowStatsSnapshot>>,
    filter: &Option<String>,
) -> (r: Vec<FlowRuleStatsData>)
    ensures
        protocol::row_views(r@) == rows_of(
            model::rule_views(rules@),
            *snap,
            text::opt(*filter),
            rules@.len(),
        ),
{
    let ghost views = model::rule_views(rules@);
    let ghost f = text::opt(*filter);
    let mut r: Vec<FlowRuleStatsData> = Vec::new();
    let mut i: usize = 0;
    assert(protocol::row_views(r@) =~= rows_of(views, *snap, f, 0));
    while i < rules.len()
        invariant
            i <= rules.len(),
            views == model::rule_views(rules@),
            f == text::opt(*filter),
            protocol::row_views(r@) == rows_of(views, *snap, f, i as nat),
        decreases rules.len() - i,
    {
        let rule = &rules[i];
        assert(views[i as int] == rule@);
        let wanted = match filter {
            Some(n) => text::same(n.as_str(), rule.name.as_str()),
            None => true,
        };
        if wanted {
            let row = make_row(&rule.name, stats_of(snap, rule.name.as_str()));
            let ghost before = r@;
            let ghost rv = row@;
            r.push(row);
            assert(protocol::row_views(r@) =~= protocol::row_views(before).push(rv));
        }
        i = i + 1;
    }
    r
}

/// The longest request that is read, in bytes.
pub const MAX_LINE: usize = 64 * 1024;

/// Whether a line was cut off at the limit.
pub open spec fn cut_off(line: Seq<char>) -> bool {
    attributes::text_bytes(line) >= MAX_LINE && !(line.len() > 0 && line.last() == '\n')
}

/// The response to a line that was cut off at the limit, or nothing where it was not.
pub fn check_line(line: &str) -> (r: Option<Response>)
    ensures
        r is Some == cut_off(line@),
        r is Some ==> r->Some_0@ == protocol::err_view(-1i32, "request too large"@),
{
    proof {
        attributes::text_bytes_is_utf8_length(line@);
    }
    if line.as_bytes().len() < MAX_LINE {
        return None;
    }
    let cs = text::chars_of(line);
    if cs.len() > 0 && cs[cs.len() - 1] == '\n' {
        return None;
    }
    Some(Response::err(-1, "request too large".to_owned()))
}

/// The response to a line that is no request.
pub fn invalid_request(reason: &str) -> (r: Response)
    ensures
        r@ == protocol::err_view(-1i32, "invalid request: "@ + reason@),
{
    Response::err(-1, text::cat("invalid request: ", reason))
}

impl ControlState {
    /// A server with these rules and no backend.
    pub fn new(initial_rules: Vec<FlowRule>) -> (r: ControlState)
        requires
            initial_rules.len() < u64::MAX,
        ensures
            r@ == (ControlView {
                rules: model::rule_views(initial_rules@),
                snapshot: None,
                next_rule_id: (initial_rules.len() + 1) as u64,
                has_backend: false,
                ids: Seq::empty(),
            }),
    {
        let count: u64 = initial_rules.len() as u64;
        ControlState {
            flow_rules: initial_rules,
            latest_snapshot: None,
            next_rule_id: count + 1,
            has_backend: false,
            rule_id_map: Pairs::new(),
        }
    }

    /// A server with these rules that puts changes to a backend.
    pub fn with_vapi(initial_rules: Vec<FlowRule>) -> (r: ControlState)
        requires
            initial_rules.len() < u64::MAX,
        ensures
            r@ == (ControlView {
                rules: model::rule_views(initial_rules@),
                snapshot: None,
                next_rule_id: (initial_rules.len() + 1) as u64,
                has_backend: true,
                ids: Seq::empty(),
            }),
    {
        let mut r = ControlState::new(initial_rules);
        r.has_backend = true;
        r
    }

    /// Takes a new snapshot in place of the latest.
    pub fn update_snapshot(&mut self, snap: Arc<FlowStatsSnapshot>)
        ensures
            final(self)@ == (ControlView { snapshot: Some(snap), ..old(self)@ }),
    {
        self.latest_snapshot = Some(snap);
    }

    fn push_rule(&mut self, rule: FlowRule)
        ensures
            final(self)@ == (ControlView { rules: old(self)@.rules.push(rule@), ..old(self)@ }),
    {
        let ghost before = self@;
        let ghost rv = rule@;
        self.flow_rules.push(rule);
        assert(self@.rules =~= before.rules.push(rv));
    }

    fn remove_rule(&mut self, name: &str)
        ensures
            final(self)@ == removed(old(self)@, name@),
    {
        let ghost before = self@;
        let ghost views = self@.rules;
        let mut kept: Vec<FlowRule> = Vec::new();
        let mut i: usize = 0;
        assert(model::rule_views(kept@) =~= without(views.take(0), name@));
        while i < self.flow_rules.len()
            invariant
                i <= self.flow_rules.len(),
                self@ == before,
                views == model::rule_views(self.flow_rules@),
                model::rule_views(kept@) == without(views.take(i as int), name@),
            decreases self.flow_rules.len() - i,
        {
            let rule = &self.flow_rules[i];
            proof {
                assert(views.take(i as int + 1).drop_last() =~= views.take(i as int));
                assert(views.take(i as int + 1).last() == rule@);
            }
            if !text::same(rule.name.as_str(), name) {
                let ghost k = kept@;
                let ghost rv = rule@;
                kept.push(rule.clone());
                assert(model::rule_views(kept@) =~= model::rule_views(k).push(rv));
            }
            i = i + 1;
        }
        assert(views.take(views.len() as int) =~= views);
        self.flow_rules = kept;
        self.rule_id_map.remove(name);
    }

    /// Adds a rule, or gives the call for the backend that has to add it.
    pub fn handle_flow_rule_add(&mut self, params: &FlowRuleAddParams) -> (r: Reply)
        ensures
            (final(self)@, r@) == added(old(self)@, params@),
    {
        if find_rule(&self.flow_rules, params.name.as_str()) < self.flow_rules.len() {
            return Reply::Respond(
                Response::err(6, named(params.name.as_str(), "flow rule '", "' already exists")),
            );
        }
        let rule = FlowRule {
            name: params.name.clone(),
            fields: model::copy_fields(&params.fields),
            max_keys: params.max_keys,
            eviction_policy: params.eviction_policy,
        };
        if self.has_backend {
            return Reply::AddToBackend(rule);
        }
        self.push_rule(rule);
        let id = FlowRuleId { hi: self.next_rule_id, lo: 0 };
        self.next_rule_id = self.next_rule_id.wrapping_add(1);
        Reply::Respond(Response::ok(ResponseData::FlowRuleId(FlowRuleIdData { id: id.to_text() })))
    }

    /// Removes a rule, or gives the call for the backend that has to remove it.
    pub fn handle_flow_rule_rm(&mut self, name: &str) -> (r: Reply)
        ensures
            (final(self)@, r@) == asked_to_remove(old(self)@, name@),
    {
        if find_rule(&self.flow_rules, name) == self.flow_rules.len() {
            return Reply::Respond(Response::err(3, named(name, "flow rule '", "' not found")));
        }
        if self.has_backend {
            if let Some(id) = self.rule_id_map.get(name) {
                return Reply::RemoveFromBackend(*id);
            }
        }
        self.remove_rule(name);
        Reply::Respond(Response::ok_empty())
    }

    /// Lists the rules.
    pub fn handle_flow_rule_list(&self) -> (r: Response)
        ensures
            r@ == protocol::ok_view(DataView::FlowRuleList(self@.rules)),
    {
        let mut rules: Vec<FlowRuleData> = Vec::new();
        let mut i: usize = 0;
        while i < self.flow_rules.len()
            invariant
                i <= self.flow_rules.len(),
                rules.len() == i,
                forall|k: int| 0 <= k < i ==> (#[trigger] rules@[k])@ == self.flow_rules@[k]@,
            decreases self.flow_rules.len() - i,
        {
            rules.push(FlowRuleData::of(&self.flow_rules[i]));
            i = i + 1;
        }
        assert(protocol::rule_data_views(rules@) =~= self@.rules);
        Response::ok(ResponseData::FlowRuleList(FlowRuleListData { rules }))
    }

    /// Shows a rule with its counters and flows.
    pub fn handle_flow_rule_show(&self, name: &str) -> (r: Response)
        ensures
            r@ == (if knows(self@, name@) {
                protocol::ok_view(
                    DataView::FlowRuleDetail(
                        detail_of(
                            self@.rules[crud::position(self@.rules, name@) as int],
                            stats_in(self@.snapshot, name@),
                        ),
                    ),
                )
            } else {
                not_found(name@)
            }),
    {
        let k: usize = find_rule(&self.flow_rules, name);
        if k == self.flow_rules.len() {
            return Response::err(3, named(name, "flow rule '", "' not found"));
        }
        assert(self@.rules[k as int] == self.flow_rules@[k as int]@);
        Response::ok(
            ResponseData::FlowRuleDetail(
                make_detail(&self.flow_rules[k], stats_of(&self.latest_snapshot, name)),
            ),
        )
    }

    /// Shows the totals of all rules, or of one.
    pub fn handle_stats_show(&self, filter: &Option<String>) -> (r: Response)
        ensures
            r@ == protocol::ok_view(
                DataView::StatsShow(
                    rows_of(
                        self@.rules,
                        self@.snapshot,
                        text::opt(*filter),
                        self@.rules.len(),
                    ),
                ),
            ),
    {
        Response::ok(
            ResponseData::StatsShow(
                StatsShowData {
                    flow_rules: make_rows(&self.flow_rules, &self.latest_snapshot, filter),
                },
            ),
        )
    }

    /// Handles a request.
    pub fn handle_request(&mut self, req: &Request) -> (r: Reply)
        ensures
            (final(self)@, r@) == handled(old(self)@, *req),
    {
        match req {
            Request::FlowRuleAdd(p) => self.handle_flow_rule_add(p),
            Request::FlowRuleRm(p) => self.handle_flow_rule_rm(p.name.as_str()),
            Request::FlowRuleList => Reply::Respond(self.handle_flow_rule_list()),
            Request::FlowRuleShow(p) => Reply::Respond(
                self.handle_flow_rule_show(p.name.as_str()),
            ),
            Request::StatsShow(p) => Reply::Respond(self.handle_stats_show(&p.name)),
            Request::StatsPull => Reply::PullSnapshot,
        }
    }

    /// Takes the backend's answer to adding a rule.
    pub fn backend_added(&mut self, rule: FlowRule, result: Result<FlowRuleId, VapiError>) -> (r:
        Response)
        ensures
            (final(self)@, r@) == added_by_backend(old(self)@, rule@, result),
    {
        match result {
            Ok(id) => {
                let name = rule.name.clone();
                self.push_rule(rule);
                self.rule_id_map.insert(name, id);
                Response::ok(ResponseData::FlowRuleId(FlowRuleIdData { id: id.to_text() }))
            },
            Err(e) => {
                let mut s = named(rule.name.as_str(), "backend rejected flow rule '", "': ");
                s.append(e.message().as_str());
                Response::err(7, s)
            },
        }
    }

    /// Takes the backend's answer to removing a rule.
    pub fn backend_removed(&mut self, name: &str, result: Result<(), VapiError>) -> (r: Response)
        ensures
            (final(self)@, r@) == removed_by_backend(old(self)@, name@, result),
    {
        match result {
            Ok(_) => {
                self.remove_rule(name);
                Response::ok_empty()
            },
            Err(e) => {
                let mut s = named(name, "backend failed to delete flow rule '", "': ");
                s.append(e.message().as_str());
                Response::err(7, s)
            },
        }
    }

    /// The totals of a snapshot that was made on request.
    pub fn stats_pulled(&self, snap: Arc<FlowStatsSnapshot>) -> (r: Response)
        ensures
            r@ == protocol::ok_view(
                DataView::StatsPull {
                    tick_id: snap.tick_id,
                    wall_clock_ns: snap.wall_clock_ns,
                    stats: rows_of(self@.rules, Some(snap), None, self@.rules.len()),
                },
            ),
    {
        let tick_id: u64 = snap.tick_id;
        let wall_clock_ns: u64 = snap.wall_clock_ns;
        let stats = StatsShowData { flow_rules: make_rows(&self.flow_rules, &Some(snap), &None) };
        Response::ok(ResponseData::StatsPull(StatsPullData { tick_id, wall_clock_ns, stats }))
    }
}

// ---------------------------------------------------------------- laws

/// A request that is refused changes nothing, and neither does one that only asks.
pub proof fn refusals_and_questions_change_nothing(v: ControlView, req: Request)
    ensures
        (handled(v, req).1 matches ReplyView::Respond(r) && !r.ok) ==> handled(v, req).0 == v,
        !(req is FlowRuleAdd) && !(req is FlowRuleRm) ==> handled(v, req).0 == v,
        !(handled(v, req).1 is Respond) ==> handled(v, req).0 == v,
{
}

/// A failure of the backend changes nothing.
pub proof fn backend_failures_change_nothing(
    v: ControlView,
    rule: FlowRuleView,
    name: Seq<char>,
    e: VapiError,
)
    ensures
        added_by_backend(v, rule, Err(e)).0 == v,
        !added_by_backend(v, rule, Err(e)).1.ok,
        removed_by_backend(v, name, Err(e)).0 == v,
        !removed_by_backend(v, name, Err(e)).1.ok,
{
}

proof fn position_after_push(rules: Seq<FlowRuleView>, rule: FlowRuleView)
    requires
        crud::position(rules, rule.name) == rules.len(),
    ensures
        crud::position(rules.push(rule), rule.name) == rules.len(),
{
    let after = rules.push(rule);
    crud::position_first(rules, rule.name);
    crud::position_first(after, rule.name);
    let k = crud::position(after, rule.name) as int;
    if k < rules.len() {
        assert(after[k] == rules[k]);
    } else if k > rules.len() {
        assert(after[rules.len() as int].name != rule.name);
    }
}

/// A rule that was added, here or by the backend, is the last of the list, is shown under its
/// name, and cannot be added again.
pub proof fn added_rule_is_known(v: ControlView, rule: FlowRuleView, id: FlowRuleId)
    requires
        !knows(v, rule.name),
    ensures
        !v.has_backend ==> added(v, rule).0.rules == v.rules.push(rule),
        added_by_backend(v, rule, Ok(id)).0.rules == v.rules.push(rule),
        forall|w: ControlView|
            #![trigger knows(w, rule.name)]
            w.rules == v.rules.push(rule) ==> {
                &&& knows(w, rule.name)
                &&& w.rules[crud::position(w.rules, rule.name) as int] == rule
                &&& added(w, rule) == (
                    w,
                    ReplyView::Respond(
                        protocol::err_view(6, "flow rule '"@ + rule.name + "' already exists"@),
                    ),
                )
            },
{
    crud::position_first(v.rules, rule.name);
    position_after_push(v.rules, rule);
}

/// Taking out the rules of a name leaves none of that name and all others in their order.
pub proof fn without_leaves_others(rules: Seq<FlowRuleView>, name: Seq<char>)
    ensures
        forall|i: int|
            0 <= i < without(rules, name).len() ==> (#[trigger] without(rules, name)[i]).name
                != name,
        without(rules, name) == rules.filter(|r: FlowRuleView| r.name != name),
    decreases rules.len(),
{
    reveal(Seq::filter);
    if rules.len() > 0 {
        without_leaves_others(rules.drop_last(), name);
    }
}

/// A rule that was removed is not there any more.
pub proof fn removed_rule_is_unknown(v: ControlView, name: Seq<char>)
    ensures
        !knows(removed(v, name), name),
{
    let after = without(v.rules, name);
    without_leaves_others(v.rules, name);
    crud::position_first(after, name);
    if crud::position(after, name) < after.len() {
        assert(after[crud::position(after, name) as int].name != name);
    }
}

/// Removing a rule that was just added brings the rules back to what they were.
pub proof fn rm_undoes_add(v: ControlView, rule: FlowRuleView)
    requires
        !knows(v, rule.name),
    ensures
        without(v.rules.push(rule), rule.name) == v.rules,
{
    crud::position_first(v.rules, rule.name);
    assert(v.rules.push(rule).drop_last() =~= v.rules);
    without_absent(v.rules, rule.name);
}

/// Without a backend, removing a rule that was just added is answered with a plain yes and brings
/// the rules back to what they were; asking for it once more is refused and changes nothing.
pub proof fn rm_answers_add(v: ControlView, add: Request, rm: Request, rule: FlowRuleView)
    requires
        !v.has_backend,
        add@ == RequestView::FlowRuleAdd(rule),
        rm@ == RequestView::FlowRuleRm(rule.name),
        handled(v, add).1 matches ReplyView::Respond(r) && r.ok,
    ensures
        ({
            let (added, _) = handled(v, add);
            let (removed, told) = handled(added, rm);
            let (again, refused) = handled(removed, rm);
            &&& told == ReplyView::Respond(ResponseView { ok: true, data: None, error: None })
            &&& removed.rules == v.rules
            &&& refused == ReplyView::Respond(
                protocol::err_view(3, "flow rule '"@ + rule.name + "' not found"@),
            )
            &&& again == removed
        }),
{
    let after = handled(v, add).0;
    crud::position_first(v.rules, rule.name);
    position_after_push(v.rules, rule);
    rm_undoes_add(v, rule);
    removed_rule_is_unknown(after, rule.name);
}

proof fn without_absent(rules: Seq<FlowRuleView>, name: Seq<char>)
    requires
        forall|i: int| 0 <= i < rules.len() ==> (#[trigger] rules[i]).name != name,
    ensures
        without(rules, name) == rules,
    decreases rules.len(),
{
    if rules.len() > 0 {
        let front = rules.drop_last();
        assert forall|i: int| 0 <= i < front.len() implies (#[trigger] front[i]).name != name by {
            assert(front[i] == rules[i]);
        }
        without_absent(front, name);
        assert(rules[rules.len() - 1].name != name);
        assert(front.push(rules.last()) =~= rules);
    } else {
        assert(without(rules, name) =~= rules);
    }
}

/// Two rules that get their identifiers here one after the other get different ones.
pub proof fn local_ids_differ(v: ControlView, a: FlowRuleView, b: FlowRuleView)
    requires
        !v.has_backend,
        !knows(v, a.name),
        !knows(added(v, a).0, b.name),
    ensures
        added(v, a).1 != added(added(v, a).0, b).1,
{
    let first = FlowRuleId { hi: v.next_rule_id, lo: 0 };
    let second = FlowRuleId { hi: added(v, a).0.next_rule_id, lo: 0 };
    if types::id_text(first) == types::id_text(second) {
        types::id_text_injective(first, second);
    }
    if added(v, a).1 == added(added(v, a).0, b).1 {
        let r1 = added(v, a).1->Respond_0.data;
        let r2 = added(added(v, a).0, b).1->Respond_0.data;
        assert(r1->Some_0->FlowRuleId_0 == types::id_text(first));
        assert(r2->Some_0->FlowRuleId_0 == types::id_text(second));
    }
}

/// No name stands twice.
pub open spec fn names_differ(rules: Seq<FlowRuleView>) -> bool {
    forall|i: int, j: int|
        0 <= i < j < rules.len() ==> (#[trigger] rules[i]).name != (#[trigger] rules[j]).name
}

/// Where no name stands twice, none does after any request.
pub proof fn names_stay_different(v: ControlView, req: Request)
    requires
        names_differ(v.rules),
    ensures
        names_differ(handled(v, req).0.rules),
{
    match req {
        Request::FlowRuleAdd(p) => {
            crud::position_first(v.rules, p@.name);
        },
        Request::FlowRuleRm(p) => {
            without_names_differ(v.rules, p.name@);
        },
        _ => {},
    }
}

proof fn without_names_differ(rules: Seq<FlowRuleView>, name: Seq<char>)
    requires
        names_differ(rules),
    ensures
        names_differ(without(rules, name)),
        forall|i: int|
            0 <= i < without(rules, name).len() ==> exists|j: int|
                0 <= j < rules.len() && rules[j] == #[trigger] without(rules, name)[i],
    decreases rules.len(),
{
    if rules.len() > 0 {
        let front = rules.drop_last();
        let last = rules.last();
        let n = rules.len() - 1;
        assert forall|i: int, j: int| 0 <= i < j < front.len() implies (#[trigger] front[i]).name
            != (#[trigger] front[j]).name by {
            assert(front[i] == rules[i] && front[j] == rules[j]);
        }
        without_names_differ(front, name);
        let w = without(front, name);
        let r = without(rules, name);
        assert forall|i: int| 0 <= i < r.len() implies exists|j: int|
            0 <= j < rules.len() && rules[j] == #[trigger] r[i] by {
            if i < w.len() {
                assert(r[i] == w[i]);
                let j = choose|j: int| 0 <= j < front.len() && front[j] == w[i];
                assert(rules[j] == r[i]);
            } else {
                assert(rules[n] == r[i]);
            }
        }
        assert forall|i: int, j: int| 0 <= i < j < r.len() implies (#[trigger] r[i]).name != (
        #[trigger] r[j]).name by {
            assert(r[i] == w[i]);
            if j < w.len() {
                assert(r[j] == w[j]);
            } else {
                let k = choose|k: int| 0 <= k < front.len() && front[k] == w[i];
                assert(rules[k].name != rules[n].name);
            }
        }
    }
}

// ---------------------------------------------------------------- client and server

/// What a request asks for, where a response to it says that all is well: an answer to another
/// question does not fit.
pub open spec fn answers(req: RequestView, data: Option<DataView>) -> bool {
    match req {
        RequestView::FlowRuleAdd(_) => data matches Some(DataView::FlowRuleId(_)),
        RequestView::FlowRuleRm(_) => data is None,
        RequestView::FlowRuleList => data matches Some(DataView::FlowRuleList(_)),
        RequestView::FlowRuleShow(_) => data matches Some(DataView::FlowRuleDetail(_)),
        RequestView::StatsShow(_) => data matches Some(DataView::StatsShow(_)),
        RequestView::StatsPull => data matches Some(DataView::StatsPull { .. }),
    }
}

/// A client never gets data that it did not ask for: a response either tells of an error of the
/// server or answers the request, whether the server responds itself or after the backend has
/// done its part.
pub proof fn responses_fit_requests(
    v: ControlView,
    req: Request,
    add: Result<FlowRuleId, VapiError>,
    rm: Result<(), VapiError>,
)
    ensures
        ({
            let fits = |r: ResponseView|
                match control_client::reply_view(r) {
                    Ok(data) => answers(req@, data),
                    Err(e) => e is Backend,
                };
            match handled(v, req).1 {
                ReplyView::Respond(r) => fits(r),
                ReplyView::AddToBackend(rule) => req@ == RequestView::FlowRuleAdd(rule) && fits(
                    added_by_backend(v, rule, add).1,
                ),
                ReplyView::RemoveFromBackend(_) => req@ matches RequestView::FlowRuleRm(name)
                    && fits(removed_by_backend(v, name, rm).1),
                ReplyView::PullSnapshot => req@ == RequestView::StatsPull,
            }
        }),
{
}

/// A client that adds a rule reads back the identifier that the rule was given, here or by the
/// backend, and a client that then asks for the rules finds it as it was sent, behind the others.
pub proof fn added_rule_is_listed(
    v: ControlView,
    add: Request,
    list: Request,
    rule: FlowRuleView,
    id: FlowRuleId,
)
    requires
        add@ == RequestView::FlowRuleAdd(rule),
        list@ == RequestView::FlowRuleList,
        !knows(v, rule.name),
        !v.has_backend ==> id == (FlowRuleId { hi: v.next_rule_id, lo: 0 }),
    ensures
        v.has_backend ==> handled(v, add) == (v, ReplyView::AddToBackend(rule)),
        ({
            let (after, told) = if v.has_backend {
                added_by_backend(v, rule, Ok(id))
            } else {
                (handled(v, add).0, handled(v, add).1->Respond_0)
            };
            &&& v.has_backend || handled(v, add).1 is Respond
            &&& control_client::reply_view(told) matches Ok(Some(DataView::FlowRuleId(text)))
                && types::parse_id(text) == Ok::<FlowRuleId, Seq<char>>(id)
            &&& handled(after, list).1 matches ReplyView::Respond(r)
                && control_client::reply_view(r) == Ok::<Option<DataView>, CtlErrorView>(
                Some(DataView::FlowRuleList(v.rules.push(rule))),
            )
        }),
{
    types::id_round_trip(id);
}

/// A rule that a client removes is not in the list any more, all others are, and asking for it is
/// an error.
pub proof fn removed_rule_is_not_listed(
    v: ControlView,
    list: Request,
    show: Request,
    name: Seq<char>,
)
    requires
        list@ == RequestView::FlowRuleList,
        show@ == RequestView::FlowRuleShow(name),
    ensures
        ({
            let after = removed(v, name);
            &&& handled(after, list).1 matches ReplyView::Respond(r)
                && control_client::reply_view(r) == Ok::<Option<DataView>, CtlErrorView>(
                Some(DataView::FlowRuleList(v.rules.filter(|x: FlowRuleView| x.name != name))),
            )
            &&& handled(after, show).1 matches ReplyView::Respond(r)
                && control_client::reply_view(r) is Err
        }),
{
    without_leaves_others(v.rules, name);
    removed_rule_is_unknown(v, name);
}

// ---------------------------------------------------------------- what the statistics say

proof fn found_stats(s: Seq<FlowRuleStats>, name: Seq<char>, k: int)
    requires
        0 <= k < s.len(),
        s[k].name@ == name,
        forall|j: int| 0 <= j < k ==> (#[trigger] s[j]).name@ != name,
    ensures
        find_stats(s, name) == Some(s[k]),
    decreases s.len(),
{
    if k > 0 {
        assert(s[0].name@ != name);
        let rest = s.drop_first();
        assert forall|j: int| 0 <= j < k - 1 implies (#[trigger] rest[j]).name@ != name by {
            assert(rest[j] == s[j + 1]);
        }
        found_stats(rest, name, k - 1);
    }
}

proof fn missed_stats(s: Seq<FlowRuleStats>, name: Seq<char>)
    requires
        forall|j: int| 0 <= j < s.len() ==> (#[trigger] s[j]).name@ != name,
    ensures
        find_stats(s, name) is None,
    decreases s.len(),
{
    if s.len() > 0 {
        assert(s[0].name@ != name);
        let rest = s.drop_first();
        assert forall|j: int| 0 <= j < rest.len() implies (#[trigger] rest[j]).name@ != name by {
            assert(rest[j] == s[j + 1]);
        }
        missed_stats(rest, name);
    }
}

/// Whether a snapshot has nothing about a rule.
pub open spec fn unknown_in(snap: Option<Arc<FlowStatsSnapshot>>, name: Seq<char>) -> bool {
    snap matches Some(s) ==> forall|j: int|
        0 <= j < s.flow_rules@.len() ==> (#[trigger] s.flow_rules@[j]).name@ != name
}

/// Whether `k` is where a snapshot first has something about a rule.
pub open spec fn known_at(
    snap: Option<Arc<FlowStatsSnapshot>>,
    name: Seq<char>,
    k: int,
) -> bool {
    &&& snap matches Some(s)
    &&& 0 <= k < s.flow_rules@.len()
    &&& s.flow_rules@[k].name@ == name
    &&& forall|j: int| 0 <= j < k ==> (#[trigger] s.flow_rules@[j]).name@ != name
}

proof fn rows_one_each(rules: Seq<FlowRuleView>, snap: Option<Arc<FlowStatsSnapshot>>, n: nat)
    requires
        n <= rules.len(),
    ensures
        rows_of(rules, snap, None, n).len() == n,
        forall|i: int|
            0 <= i < n ==> #[trigger] rows_of(rules, snap, None, n)[i] == row_of(
                rules[i].name,
                stats_in(snap, rules[i].name),
            ),
    decreases n,
{
    if n > 0 {
        rows_one_each(rules, snap, (n - 1) as nat);
    }
}

/// The statistics of all rules have one row per rule, in order and under its name. Each row tells
/// the packets, the bytes, the evictions and the drops that the snapshot counted for the rule, and
/// the number of its flows; all are zero where the snapshot has nothing about the rule.
pub proof fn rows_tell_the_snapshot(
    rules: Seq<FlowRuleView>,
    snap: Option<Arc<FlowStatsSnapshot>>,
    i: int,
    k: int,
)
    requires
        0 <= i < rules.len(),
    ensures
        ({
            let rows = rows_of(rules, snap, None, rules.len());
            let row = rows[i];
            &&& rows.len() == rules.len()
            &&& row.name == rules[i].name
            &&& known_at(snap, rules[i].name, k) ==> {
                let s = snap->Some_0.flow_rules@[k];
                &&& row.packets == s.counters.packets
                &&& row.bytes == s.counters.bytes
                &&& row.evictions == s.counters.evictions
                &&& row.drops == s.counters.drops
                &&& s.flows@.len() <= u64::MAX ==> row.active_flows == s.flows@.len()
            }
            &&& unknown_in(snap, rules[i].name) ==> {
                &&& row.packets == 0
                &&& row.bytes == 0
                &&& row.evictions == 0
                &&& row.drops == 0
                &&& row.active_flows == 0
            }
        }),
{
    rows_one_each(rules, snap, rules.len());
    if known_at(snap, rules[i].name, k) {
        found_stats(snap->Some_0.flow_rules@, rules[i].name, k);
    }
    if unknown_in(snap, rules[i].name) && snap is Some {
        missed_stats(snap->Some_0.flow_rules@, rules[i].name);
    }
}

/// The statistics of one rule are the rows with its name among those of all rules.
pub proof fn rows_of_one_rule(
    rules: Seq<FlowRuleView>,
    snap: Option<Arc<FlowStatsSnapshot>>,
    name: Seq<char>,
    n: nat,
)
    requires
        n <= rules.len(),
    ensures
        rows_of(rules, snap, Some(name), n) == rows_of(rules, snap, None, n).filter(
            |r: StatsRowView| r.name == name,
        ),
    decreases n,
{
    reveal(Seq::filter);
    let all = rows_of(rules, snap, None, n);
    if n > 0 {
        rows_of_one_rule(rules, snap, name, (n - 1) as nat);
        rows_one_each(rules, snap, n);
        assert(all.drop_last() =~= rows_of(rules, snap, None, (n - 1) as nat));
    }
}

/// The details of a rule are those of the rule that was added under the name: they tell its name,
/// its fields, how many keys it may track and what happens when there are more, the packets, the
/// bytes, the evictions and the drops that the snapshot counted, and each of its flows with its
/// counters, its times and as many pieces of key as the flow has values.
pub proof fn details_tell_rule_and_snapshot(v: ControlView, show: Request, name: Seq<char>, i: int, k: int)
    requires
        show@ == RequestView::FlowRuleShow(name),
        0 <= i < v.rules.len(),
        v.rules[i].name == name,
        forall|j: int| 0 <= j < i ==> (#[trigger] v.rules[j]).name != name,
    ensures
        handled(v, show).1 matches ReplyView::Respond(r) && r.ok && r.error is None && (
        r.data matches Some(DataView::FlowRuleDetail(d)) && {
            &&& d.rule.name == name
            &&& d.rule.fields == v.rules[i].fields
            &&& d.rule.max_keys == v.rules[i].max_keys
            &&& d.rule.eviction_policy == v.rules[i].eviction_policy
            &&& known_at(v.snapshot, name, k) ==> {
                let s = v.snapshot->Some_0.flow_rules@[k];
                &&& d.counters.packets == s.counters.packets
                &&& d.counters.bytes == s.counters.bytes
                &&& d.counters.evictions == s.counters.evictions
                &&& d.counters.drops == s.counters.drops
                &&& d.flows.len() == s.flows@.len()
                &&& forall|f: int|
                    0 <= f < d.flows.len() ==> {
                        let flow = s.flows@[f];
                        &&& (#[trigger] d.flows[f]).packets == flow.counters.packets
                        &&& d.flows[f].bytes == flow.counters.bytes
                        &&& d.flows[f].first_seen_ns == flow.counters.first_seen_ns
                        &&& d.flows[f].last_seen_ns == flow.counters.last_seen_ns
                        &&& d.flows[f].key.len() == flow.key@.len()
                        &&& forall|p: int|
                            0 <= p < flow.key@.len() ==> #[trigger] d.flows[f].key[p]
                                == flow.key@[p].labelled()
                    }
            }
            &&& unknown_in(v.snapshot, name) ==> {
                &&& d.counters.packets == 0
                &&& d.counters.bytes == 0
                &&& d.counters.evictions == 0
                &&& d.counters.drops == 0
                &&& d.flows.len() == 0
            }
        }),
{
    crud::position_first(v.rules, name);
    let p = crud::position(v.rules, name) as int;
    if p < i {
        assert(v.rules[p].name == name);
    }
    if known_at(v.snapshot, name, k) {
        found_stats(v.snapshot->Some_0.flow_rules@, name, k);
    }
    if unknown_in(v.snapshot, name) && v.snapshot is Some {
        missed_stats(v.snapshot->Some_0.flow_rules@, name);
    }
}

/// What is shown of a rule and what is shown of all rules agree: the four counters are the same,
/// and there are as many flows as are said to be active.
pub proof fn details_agree_with_rows(v: ControlView, show: Request, stats: Request, i: int)
    requires
        0 <= i < v.rules.len(),
        forall|j: int| 0 <= j < i ==> (#[trigger] v.rules[j]).name != v.rules[i].name,
        show@ == RequestView::FlowRuleShow(v.rules[i].name),
        stats@ == RequestView::StatsShow(None),
    ensures
        handled(v, show).1 matches ReplyView::Respond(a) && handled(
            v,
            stats,
        ).1 matches ReplyView::Respond(b) && a.ok && b.ok && (
        a.data matches Some(DataView::FlowRuleDetail(d)) && b.data matches Some(
            DataView::StatsShow(rows),
        ) && {
            &&& rows[i].name == d.rule.name
            &&& rows[i].packets == d.counters.packets
            &&& rows[i].bytes == d.counters.bytes
            &&& rows[i].evictions == d.counters.evictions
            &&& rows[i].drops == d.counters.drops
            &&& d.flows.len() <= u64::MAX ==> rows[i].active_flows == d.flows.len()
        }),
{
    let name = v.rules[i].name;
    rows_one_each(v.rules, v.snapshot, v.rules.len());
    crud::position_first(v.rules, name);
    let p = crud::position(v.rules, name) as int;
    if p < i {
        assert(v.rules[p].name == name);
    }
}

/// A backend that fails to add or to delete a rule is told of with code 7 and the reason in full.
pub proof fn backend_failures_are_told(
    v: ControlView,
    rule: FlowRuleView,
    name: Seq<char>,
    e: VapiError,
)
    ensures
        ({
            &&& added_by_backend(v, rule, Err(e)).1.error matches Some(d)
            &&& d.code == 7
            &&& d.message.len() >= e@.text().len()
            &&& d.message.skip(d.message.len() - e@.text().len()) == e@.text()
        }),
        ({
            &&& removed_by_backend(v, name, Err(e)).1.error matches Some(d)
            &&& d.code == 7
            &&& d.message.len() >= e@.text().len()
            &&& d.message.skip(d.message.len() - e@.text().len()) == e@.text()
        }),
{
    let a = added_by_backend(v, rule, Err(e)).1.error->Some_0.message;
    assert(a.skip(a.len() - e@.text().len()) =~= e@.text());
    let b = removed_by_backend(v, name, Err(e)).1.error->Some_0.message;
    assert(b.skip(b.len() - e@.text().len()) =~= e@.text());
}

/// A rule that the backend added is removed by the identifier that the backend gave it, and is gone
/// once the backend has removed it.
pub proof fn backend_is_asked_for_the_id_it_gave(
    v: ControlView,
    rule: FlowRuleView,
    id: FlowRuleId,
    rm: Request,
)
    requires
        v.has_backend,
        !knows(v, rule.name),
        rm@ == RequestView::FlowRuleRm(rule.name),
    ensures
        ({
            let w = added_by_backend(v, rule, Ok(id)).0;
            &&& handled(w, rm).1 matches ReplyView::RemoveFromBackend(asked)
            &&& asked == id
            &&& removed_by_backend(w, rule.name, Ok(())).0.rules == v.rules
            &&& removed_by_backend(w, rule.name, Ok(())).1.ok
        }),
{
    let w = added_by_backend(v, rule, Ok(id)).0;
    added_rule_is_known(v, rule, id);
    assert(knows(w, rule.name));
    rm_undoes_add(v, rule);
    pairs::key_position_first(v.ids, rule.name);
    pairs::key_position_first(w.ids, rule.name);
    let p = pairs::key_position(v.ids, rule.name) as int;
    let q = pairs::key_position(w.ids, rule.name) as int;
    assert(w.ids[p] == (rule.name, id));
    if q < p {
        assert(w.ids[q] == v.ids[q]);
    }
    assert(q == p);
}

/// Without a backend a rule gets the next number as the high half of its identifier, and the number
/// after that is kept for the next one.
pub proof fn local_rules_are_numbered(v: ControlView, rule: FlowRuleView)
    requires
        !v.has_backend,
        !knows(v, rule.name),
        v.next_rule_id < u64::MAX,
    ensures
        ({
            let (w, reply) = added(v, rule);
            &&& w.next_rule_id == v.next_rule_id + 1
            &&& reply matches ReplyView::Respond(r)
            &&& r.ok
            &&& r.data matches Some(DataView::FlowRuleId(t))
            &&& types::parse_id(t) == Ok::<FlowRuleId, Seq<char>>(
                FlowRuleId { hi: v.next_rule_id, lo: 0 },
            )
        }),
{
    types::id_round_trip(FlowRuleId { hi: v.next_rule_id, lo: 0 });
}

/// A line is too long where it fills the limit of 65536 bytes and has not come to its end.
pub proof fn long_lines_are_cut_off(line: Seq<char>)
    ensures
        cut_off(line) <==> attributes::text_bytes(line) >= 65536 && (line.len() == 0
            || line[line.len() - 1] != '\n'),
{
}

/// A name is known exactly where a rule bears it.
pub proof fn rules_are_known_by_name(v: ControlView, name: Seq<char>)
    ensures
        knows(v, name) <==> exists|i: int|
            0 <= i < v.rules.len() && (#[trigger] v.rules[i]).name == name,
{
    crud::names_lead_to_rules(v.rules, name);
}

/// The identifier of a rule that is removed is forgotten, and those of the other rules are kept.
pub proof fn removing_forgets_one_id(v: ControlView, name: Seq<char>, other: Seq<char>)
    requires
        pairs::distinct_keys(v.ids),
        other != name,
    ensures
        pairs::lookup(removed(v, name).ids, name) is None,
        pairs::lookup(removed(v, name).ids, other) == pairs::lookup(v.ids, other),
        removed(v, name).next_rule_id == v.next_rule_id,
        removed(v, name).has_backend == v.has_backend,
        removed(v, name).snapshot == v.snapshot,
{
    let ids = v.ids;
    let after = removed(v, name).ids;
    pairs::key_position_first(ids, name);
    pairs::key_position_first(ids, other);
    pairs::key_position_first(after, name);
    pairs::key_position_first(after, other);
    let k = pairs::key_position(ids, name) as int;
    let p = pairs::key_position(ids, other) as int;
    let q = pairs::key_position(after, name) as int;
    let r = pairs::key_position(after, other) as int;
    if k < ids.len() {
        assert forall|i: int| 0 <= i < after.len() implies #[trigger] after[i] == (if i < k {
            ids[i]
        } else {
            ids[i + 1]
        }) by {}
        if q < after.len() {
            let at = if q < k {
                q
            } else {
                q + 1
            };
            assert(after[q] == ids[at]);
            if at < k {
                assert(ids[at].0 != ids[k].0);
            } else {
                assert(ids[k].0 != ids[at].0);
            }
        }
        if p < ids.len() {
            let at = if p < k {
                p
            } else {
                p - 1
            };
            assert(after[at] == ids[p]);
            if r < at {
                assert(after[r] == ids[r] || after[r] == ids[r + 1]);
                let from = if r < k {
                    r
                } else {
                    r + 1
                };
                assert(after[r] == ids[from]);
                assert(from < p);
            }
            assert(r == at);
        } else if r < after.len() {
            let from = if r < k {
                r
            } else {
                r + 1
            };
            assert(after[r] == ids[from]);
        }
    }
}

} // verus!
