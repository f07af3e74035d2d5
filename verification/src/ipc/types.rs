//! Flow statistics and the identifiers in them.

use vstd::prelude::*;

use crate::config::model::EvictionPolicy;
use crate::net::{self, IpAddr};
use crate::text;

verus! {

/// Identifies a flow rule in the backend.
#[derive(Clone, Copy, Debug, PartialEq, Eq, Hash, Structural)]
pub struct FlowRuleId {
    pub hi: u64,
    pub lo: u64,
}

/// The text of an identifier: two groups of sixteen hexadecimal digits with a hyphen between.
pub open spec fn id_text(id: FlowRuleId) -> Seq<char> {
    text::hex_fixed(id.hi as nat, 16).push('-') + text::hex_fixed(id.lo as nat, 16)
}

/// Reads an identifier: two hexadecimal numbers, parted by the first hyphen.
pub open spec fn parse_id(s: Seq<char>) -> Result<FlowRuleId, Seq<char>> {
    let k = text::find(s, '-') as int;
    if k >= s.len() {
        Err("invalid FlowRuleId: missing '-' in '"@ + s + "'"@)
    } else {
        match text::parse_uint(s.take(k), 16, u64::MAX as nat) {
            Err(e) => Err("invalid FlowRuleId hi: "@ + e.text()),
            Ok(hi) => match text::parse_uint(s.skip(k + 1), 16, u64::MAX as nat) {
                Err(e) => Err("invalid FlowRuleId lo: "@ + e.text()),
                Ok(lo) => Ok(FlowRuleId { hi: hi as u64, lo: lo as u64 }),
            },
        }
    }
}

impl FlowRuleId {
    /// The text of the identifier.
    pub fn to_text(&self) -> (r: String)
        ensures
            r@ == id_text(*self),
    {
        let mut s = String::new();
        text::push_hex(&mut s, self.hi, 16);
        s.push('-');
        text::push_hex(&mut s, self.lo, 16);
        assert(s@ =~= id_text(*self));
        s
    }

    /// Reads an identifier from its text.
    pub fn parse(s: &str) -> (r: Result<FlowRuleId, String>)
        ensures
            match parse_id(s@) {
                Ok(id) => r is Ok && r->Ok_0 == id,
                Err(e) => r is Err && r->Err_0@ == e,
            },
    {
        let cs = text::chars_of(s);
        assert(cs@.skip(0) =~= cs@);
        let k: usize = text::find_char(&cs, 0, '-');
        if k == cs.len() {
            return Err(text::cat3("invalid FlowRuleId: missing '-' in '", s, "'"));
        }
        let hi_chars = text::chars_of(s.substring_char(0, k));
        let lo_chars = text::chars_of(s.substring_char(k + 1, cs.len()));
        assert(hi_chars@ =~= s@.take(k as int));
        assert(lo_chars@ =~= s@.skip(k + 1));
        let hi: u64 = match text::parse_chars(&hi_chars, 16, u64::MAX) {
            Ok(v) => v,
            Err(e) => {
                return Err(text::cat("invalid FlowRuleId hi: ", e.message().as_str()));
            },
        };
        let lo: u64 = match text::parse_chars(&lo_chars, 16, u64::MAX) {
            Ok(v) => v,
            Err(e) => {
                return Err(text::cat("invalid FlowRuleId lo: ", e.message().as_str()));
            },
        };
        Ok(FlowRuleId { hi, lo })
    }
}

impl std::str::FromStr for FlowRuleId {
    type Err = String;

    fn from_str(s: &str) -> (r: Result<FlowRuleId, String>)
        ensures
            match parse_id(s@) {
                Ok(id) => r is Ok && r->Ok_0 == id,
                Err(e) => r is Err && r->Err_0@ == e,
            },
    {
        FlowRuleId::parse(s)
    }
}

/// Reading the text of an identifier gives the identifier back.
pub proof fn id_round_trip(id: FlowRuleId)
    ensures
        parse_id(id_text(id)) == Ok::<FlowRuleId, Seq<char>>(id),
{
    reveal_with_fuel(text::pow16, 17);
    text::hex_round_trip(id.hi as nat, 16, u64::MAX as nat);
    text::hex_round_trip(id.lo as nat, 16, u64::MAX as nat);
    let h = text::hex_fixed(id.hi as nat, 16);
    let l = text::hex_fixed(id.lo as nat, 16);
    let s = id_text(id);
    text::find_first(s, '-');
    assert forall|i: int| 0 <= i < 16 implies s[i] != '-' by {
        assert(s[i] == h[i]);
    }
    assert(s[16] == '-');
    assert(text::find(s, '-') == 16);
    assert(s.take(16) =~= h);
    assert(s.skip(17) =~= l);
}

/// Identifiers with the same text are the same.
pub proof fn id_text_injective(a: FlowRuleId, b: FlowRuleId)
    requires
        id_text(a) == id_text(b),
    ensures
        a == b,
{
    id_round_trip(a);
    id_round_trip(b);
}

/// The field identifiers of the backend.
#[derive(Clone, Copy, Debug, PartialEq, Eq, Hash, Structural)]
pub enum FieldId {
    SrcIp,
    DstIp,
    IpProto,
    Dscp,
    MirrorSrcIp,
    SrcPort,
    DstPort,
}

impl FieldId {
    /// How many bytes the field takes in a key.
    pub open spec fn bytes(self) -> nat {
        match self {
            FieldId::SrcIp | FieldId::DstIp | FieldId::MirrorSrcIp => 16,
            FieldId::IpProto | FieldId::Dscp => 1,
            FieldId::SrcPort | FieldId::DstPort => 2,
        }
    }
}

/// A field value out of a flow key.
#[derive(Clone, Copy, Debug, PartialEq, Eq, Structural)]
pub enum FieldValue {
    Ip(IpAddr),
    Proto(u8),
    Dscp(u8),
    Port(u16),
}

impl FieldValue {
    /// The value with the name of its variant, as in `Proto(6)`.
    pub open spec fn labelled(self) -> Seq<char> {
        match self {
            FieldValue::Ip(a) => "Ip("@ + a.shown() + ")"@,
            FieldValue::Proto(p) => "Proto("@ + text::decimal(p as nat) + ")"@,
            FieldValue::Dscp(d) => "Dscp("@ + text::decimal(d as nat) + ")"@,
            FieldValue::Port(p) => "Port("@ + text::decimal(p as nat) + ")"@,
        }
    }

    /// The value with the name of its variant.
    pub fn labelled_text(&self) -> (r: String)
        ensures
            r@ == self.labelled(),
    {
        match self {
            FieldValue::Ip(a) => text::cat3("Ip(", net::show_ip(a).as_str(), ")"),
            FieldValue::Proto(p) => text::cat3(
                "Proto(",
                text::decimal_text(*p as u64).as_str(),
                ")",
            ),
            FieldValue::Dscp(d) => text::cat3("Dscp(", text::decimal_text(*d as u64).as_str(), ")"),
            FieldValue::Port(p) => text::cat3("Port(", text::decimal_text(*p as u64).as_str(), ")"),
        }
    }
}

/// The counters of one flow.
#[derive(Clone, Copy, Debug, PartialEq, Eq, Structural)]
pub struct FlowCounters {
    pub packets: u64,
    pub bytes: u64,
    /// On the clock of `FlowStatsSnapshot::monotonic_ns`.
    pub first_seen_ns: u64,
    /// On the clock of `FlowStatsSnapshot::monotonic_ns`.
    pub last_seen_ns: u64,
}

impl Default for FlowCounters {
    fn default() -> (r: FlowCounters)
        ensures
            r == (FlowCounters { packets: 0, bytes: 0, first_seen_ns: 0, last_seen_ns: 0 }),
    {
        FlowCounters { packets: 0, bytes: 0, first_seen_ns: 0, last_seen_ns: 0 }
    }
}

/// One flow.
#[derive(Debug)]
pub struct FlowStats {
    pub key: Vec<FieldValue>,
    pub counters: FlowCounters,
}

/// One flow as plain mathematical values.
#[verifier::ext_equal]
pub struct FlowStatsView {
    pub key: Seq<FieldValue>,
    pub counters: FlowCounters,
}

impl View for FlowStats {
    type V = FlowStatsView;

    open spec fn view(&self) -> FlowStatsView {
        FlowStatsView { key: self.key@, counters: self.counters }
    }
}

/// The views of a list of flows.
pub open spec fn flow_views(s: Seq<FlowStats>) -> Seq<FlowStatsView> {
    s.map_values(|f: FlowStats| f@)
}

/// The counters of one flow rule as a whole.
#[derive(Clone, Copy, Debug, PartialEq, Eq, Structural)]
pub struct FlowRuleCounters {
    pub evictions: u64,
    pub drops: u64,
    pub packets: u64,
    pub bytes: u64,
}

impl Default for FlowRuleCounters {
    fn default() -> (r: FlowRuleCounters)
        ensures
            r == (FlowRuleCounters { evictions: 0, drops: 0, packets: 0, bytes: 0 }),
    {
        FlowRuleCounters { evictions: 0, drops: 0, packets: 0, bytes: 0 }
    }
}

/// The flows of one flow rule.
#[derive(Debug)]
pub struct FlowRuleStats {
    pub name: String,
    pub fields: Vec<FieldId>,
    pub max_keys: u32,
    pub eviction_policy: EvictionPolicy,
    pub flows: Vec<FlowStats>,
    pub counters: FlowRuleCounters,
}

/// The flows of one flow rule as plain mathematical values.
#[verifier::ext_equal]
pub struct FlowRuleStatsView {
    pub name: Seq<char>,
    pub fields: Seq<FieldId>,
    pub max_keys: u32,
    pub eviction_policy: EvictionPolicy,
    pub flows: Seq<FlowStatsView>,
    pub counters: FlowRuleCounters,
}

impl View for FlowRuleStats {
    type V = FlowRuleStatsView;

    open spec fn view(&self) -> FlowRuleStatsView {
        FlowRuleStatsView {
            name: self.name@,
            fields: self.fields@,
            max_keys: self.max_keys,
            eviction_policy: self.eviction_policy,
            flows: flow_views(self.flows@),
            counters: self.counters,
        }
    }
}

/// The views of a list of flow rule statistics.
pub open spec fn rule_stats_views(s: Seq<FlowRuleStats>) -> Seq<FlowRuleStatsView> {
    s.map_values(|f: FlowRuleStats| f@)
}

/// Everything that was read in one tick.
#[derive(Debug)]
pub struct FlowStatsSnapshot {
    pub tick_id: u64,
    pub wall_clock_ns: u64,
    pub monotonic_ns: u64,
    pub interval_ns: u64,
    pub flow_rules: Vec<FlowRuleStats>,
}

/// Everything that was read in one tick as plain mathematical values.
#[verifier::ext_equal]
pub struct FlowStatsSnapshotView {
    pub tick_id: u64,
    pub wall_clock_ns: u64,
    pub monotonic_ns: u64,
    pub interval_ns: u64,
    pub flow_rules: Seq<FlowRuleStatsView>,
}

impl View for FlowStatsSnapshot {
    type V = FlowStatsSnapshotView;

    open spec fn view(&self) -> FlowStatsSnapshotView {
        FlowStatsSnapshotView {
            tick_id: self.tick_id,
            wall_clock_ns: self.wall_clock_ns,
            monotonic_ns: self.monotonic_ns,
            interval_ns: self.interval_ns,
            flow_rules: rule_stats_views(self.flow_rules@),
        }
    }
}

// ---------------------------------------------------------------- laws

/// The text of an identifier is its high half in hexadecimal, a hyphen, and its low half.
pub proof fn id_text_tells_both_halves(id: FlowRuleId)
    ensures
        id_text(id).len() == 33,
        id_text(id)[16] == '-',
        text::parse_uint(id_text(id).take(16), 16, u64::MAX as nat) == Ok::<
            nat,
            text::ParseIntError,
        >(id.hi as nat),
        text::parse_uint(id_text(id).skip(17), 16, u64::MAX as nat) == Ok::<
            nat,
            text::ParseIntError,
        >(id.lo as nat),
{
    reveal_with_fuel(text::pow16, 17);
    text::hex_round_trip(id.hi as nat, 16, u64::MAX as nat);
    text::hex_round_trip(id.lo as nat, 16, u64::MAX as nat);
    assert(id_text(id).take(16) =~= text::hex_fixed(id.hi as nat, 16));
    assert(id_text(id).skip(17) =~= text::hex_fixed(id.lo as nat, 16));
}

/// Two hexadecimal numbers with a hyphen between them read as an identifier, the first as its high
/// half.
pub proof fn ids_are_read_high_half_first(hi: u64, lo: u64)
    ensures
        parse_id(text::hex(hi as nat) + seq!['-'] + text::hex(lo as nat)) == Ok::<
            FlowRuleId,
            Seq<char>,
        >(FlowRuleId { hi, lo }),
{
    let h = text::hex(hi as nat);
    let l = text::hex(lo as nat);
    let s = h + seq!['-'] + l;
    text::hex_reads_back(hi as nat, u64::MAX as nat);
    text::hex_reads_back(lo as nat, u64::MAX as nat);
    text::find_first(s, '-');
    assert forall|i: int| 0 <= i < h.len() implies s[i] != '-' by {
        assert(s[i] == h[i]);
    }
    assert(s[h.len() as int] == '-');
    assert(text::find(s, '-') == h.len());
    assert(s.take(h.len() as int) =~= h);
    assert(s.skip(h.len() as int + 1) =~= l);
}

/// A value is labelled with the name of its kind, and the number or address stands in brackets.
pub proof fn labels_tell_the_kind(v: FieldValue)
    ensures
        v matches FieldValue::Ip(a) ==> v.labelled() == seq!['I', 'p', '('] + a.shown() + seq![')'],
        v matches FieldValue::Proto(p) ==> v.labelled() == seq!['P', 'r', 'o', 't', 'o', '(']
            + text::decimal(p as nat) + seq![')'],
        v matches FieldValue::Dscp(d) ==> v.labelled() == seq!['D', 's', 'c', 'p', '(']
            + text::decimal(d as nat) + seq![')'],
        v matches FieldValue::Port(p) ==> v.labelled() == seq!['P', 'o', 'r', 't', '(']
            + text::decimal(p as nat) + seq![')'],
{
    reveal_strlit("Ip(");
    reveal_strlit("Proto(");
    reveal_strlit("Dscp(");
    reveal_strlit("Port(");
    reveal_strlit(")");
    assert("Ip("@ =~= seq!['I', 'p', '(']);
    assert("Proto("@ =~= seq!['P', 'r', 'o', 't', 'o', '(']);
    assert("Dscp("@ =~= seq!['D', 's', 'c', 'p', '(']);
    assert("Port("@ =~= seq!['P', 'o', 'r', 't', '(']);
    assert(")"@ =~= seq![')']);
}

/// The view of a flow tells its key and its counters.
pub proof fn flow_is_told_by_field(f: FlowStats)
    ensures
        f@.key == f.key@,
        f@.counters.packets == f.counters.packets,
        f@.counters.bytes == f.counters.bytes,
        f@.counters.first_seen_ns == f.counters.first_seen_ns,
        f@.counters.last_seen_ns == f.counters.last_seen_ns,
{
}

/// The view of a rule's statistics tells them field by field, and its flows in order.
pub proof fn rule_stats_are_told_by_field(s: FlowRuleStats)
    ensures
        s@.name == s.name@,
        s@.fields == s.fields@,
        s@.max_keys == s.max_keys,
        s@.eviction_policy == s.eviction_policy,
        s@.counters.packets == s.counters.packets,
        s@.counters.bytes == s.counters.bytes,
        s@.counters.evictions == s.counters.evictions,
        s@.counters.drops == s.counters.drops,
        s@.flows.len() == s.flows@.len(),
        forall|i: int| 0 <= i < s.flows@.len() ==> #[trigger] s@.flows[i] == s.flows@[i]@,
{
}

/// The view of a snapshot tells its number, its times and its rules in order.
pub proof fn snapshot_is_told_by_field(s: FlowStatsSnapshot)
    ensures
        s@.tick_id == s.tick_id,
        s@.wall_clock_ns == s.wall_clock_ns,
        s@.monotonic_ns == s.monotonic_ns,
        s@.interval_ns == s.interval_ns,
        s@.flow_rules.len() == s.flow_rules@.len(),
        forall|i: int|
            0 <= i < s.flow_rules@.len() ==> #[trigger] s@.flow_rules[i] == s.flow_rules@[i]@,
{
}

} // verus!
