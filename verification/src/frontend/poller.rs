//! The poller: how the tick loop goes, and how a tick's flow tables become a snapshot.

use vstd::prelude::*;

use crate::config::model::EvictionPolicy;
use crate::duration::Duration;
use crate::frontend::vapi_stats_client::{self, same_bytes, EntryView};
use crate::ipc::decode::{self, decode_key};
use crate::ipc::stats_client::{self, RawDescriptor, RawDescriptorView, RawSlot, RawSnapshot};
use crate::ipc::types::{
    self, FieldId, FlowCounters, FlowRuleCounters, FlowRuleId, FlowRuleStats, FlowRuleStatsView,
    FlowStats, FlowStatsSnapshot, FlowStatsSnapshotView, FlowStatsView,
};

verus! {

/// How the poller runs.
#[derive(Debug)]
pub struct PollerConfig {
    /// The socket of the backend.
    pub stats_socket: String,
    /// The time from one tick to the next.
    pub interval: Duration,
}

impl Default for PollerConfig {
    fn default() -> (r: PollerConfig)
        ensures
            r.stats_socket@ == "/run/vpp/stats.sock"@,
            r.interval.nanos == 1_000_000_000,
    {
        PollerConfig {
            stats_socket: "/run/vpp/stats.sock".to_owned(),
            interval: Duration::from_millis(1000),
        }
    }
}

/// The nanoseconds of a clock reading.
pub fn clock_ns(secs: u64, nanos: u64) -> (r: u64)
    requires
        secs * 1_000_000_000 + nanos <= u64::MAX,
    ensures
        r == secs * 1_000_000_000 + nanos,
{
    secs * 1_000_000_000 + nanos
}

// ---------------------------------------------------------------- merging slots

/// The slots of one key in one.
#[derive(Debug)]
pub struct MergedSlot<B = Vec<u8>> {
    pub key: B,
    pub packets: u64,
    pub bytes: u64,
    pub last_update: u64,
}

pub type MergedView = MergedSlot<Seq<u8>>;

impl View for MergedSlot<Vec<u8>> {
    type V = MergedView;

    open spec fn view(&self) -> MergedView {
        MergedSlot {
            key: self.key@,
            packets: self.packets,
            bytes: self.bytes,
            last_update: self.last_update,
        }
    }
}

/// The views of a list of merged slots.
pub open spec fn merged_views(s: Seq<MergedSlot>) -> Seq<MergedView> {
    s.map_values(|m: MergedSlot| m@)
}

/// The key of a slot; an empty slot, and one that points past the arena, has none.
pub open spec fn slot_key(arena: Seq<u8>, slot: RawSlot) -> Option<Seq<u8>> {
    let end = slot.key_offset + slot.key_len;
    if slot.key_len == 0 || end > arena.len() {
        None
    } else {
        Some(arena.subrange(slot.key_offset as int, end))
    }
}

/// The position of a key, or the number of slots where it is missing.
pub open spec fn key_position(s: Seq<MergedView>, key: Seq<u8>) -> nat
    decreases s.len(),
{
    if s.len() == 0 || s[0].key == key {
        0
    } else {
        1 + key_position(s.drop_first(), key)
    }
}

proof fn key_position_is(s: Seq<MergedView>, key: Seq<u8>, k: int)
    requires
        0 <= k <= s.len(),
        k < s.len() ==> s[k].key == key,
        forall|i: int| 0 <= i < k ==> (#[trigger] s[i]).key != key,
    ensures
        key_position(s, key) == k,
    decreases s.len(),
{
    if s.len() > 0 && s[0].key != key {
        assert forall|i: int| 0 <= i < k - 1 implies (#[trigger] s.drop_first()[i]).key != key by {
            assert(s.drop_first()[i] == s[i + 1]);
        }
        key_position_is(s.drop_first(), key, k - 1);
    }
}

/// `s` with a slot merged in: counters add up, times keep the later.
pub open spec fn with_slot(s: Seq<MergedView>, key: Seq<u8>, slot: RawSlot) -> Seq<MergedView> {
    let k = key_position(s, key);
    if k < s.len() {
        let m = s[k as int];
        s.update(
            k as int,
            MergedSlot {
                key: m.key,
                packets: vapi_stats_client::sat_sum(m.packets, slot.packets),
                bytes: vapi_stats_client::sat_sum(m.bytes, slot.bytes),
                last_update: vapi_stats_client::larger(m.last_update, slot.last_update),
            },
        )
    } else {
        s.push(
            MergedSlot {
                key,
                packets: slot.packets,
                bytes: slot.bytes,
                last_update: slot.last_update,
            },
        )
    }
}

/// The slots merged by key, in the order in which the keys first came.
pub open spec fn merged_slots(arena: Seq<u8>, slots: Seq<RawSlot>) -> Seq<MergedView>
    decreases slots.len(),
{
    if slots.len() == 0 {
        Seq::empty()
    } else {
        let before = merged_slots(arena, slots.drop_last());
        match slot_key(arena, slots.last()) {
            Some(key) => with_slot(before, key, slots.last()),
            None => before,
        }
    }
}

/// No merged slot is without a key, and no key stands twice.
pub proof fn merged_slots_keys(arena: Seq<u8>, slots: Seq<RawSlot>)
    ensures
        forall|i: int|
            0 <= i < merged_slots(arena, slots).len() ==> (#[trigger] merged_slots(
                arena,
                slots,
            )[i]).key.len() > 0,
        forall|i: int, j: int|
            0 <= i < j < merged_slots(arena, slots).len() ==> (#[trigger] merged_slots(
                arena,
                slots,
            )[i]).key != (#[trigger] merged_slots(arena, slots)[j]).key,
    decreases slots.len(),
{
    if slots.len() > 0 {
        merged_slots_keys(arena, slots.drop_last());
        let before = merged_slots(arena, slots.drop_last());
        if let Some(key) = slot_key(arena, slots.last()) {
            key_position_first(before, key);
        }
    }
}

/// The key of an entry that was packed into a descriptor is the key that its slot is merged by, as
/// long as the keys and the arena are not longer than a slot can say.
pub proof fn packed_keys_are_read(id: FlowRuleId, entries: Seq<EntryView>, i: int)
    requires
        0 <= i < vapi_stats_client::merged(entries).len(),
        0 < vapi_stats_client::merged(entries)[i].key_bytes.len() <= u16::MAX,
        vapi_stats_client::descriptor_of(id, entries).key_arena.len() <= u32::MAX,
    ensures
        ({
            let d = vapi_stats_client::descriptor_of(id, entries);
            slot_key(d.key_arena, d.slots[i]) == Some(
                vapi_stats_client::merged(entries)[i].key_bytes,
            )
        }),
{
    vapi_stats_client::slots_lead_to_keys(id, entries, i);
}

proof fn key_position_first(s: Seq<MergedView>, key: Seq<u8>)
    ensures
        key_position(s, key) <= s.len(),
        key_position(s, key) < s.len() ==> s[key_position(s, key) as int].key == key,
        forall|i: int| 0 <= i < key_position(s, key) ==> (#[trigger] s[i]).key != key,
    decreases s.len(),
{
    if s.len() > 0 && s[0].key != key {
        key_position_first(s.drop_first(), key);
        assert forall|i: int| 0 <= i < key_position(s, key) implies (#[trigger] s[i]).key != key by {
            if i > 0 {
                assert(s.drop_first()[i - 1] == s[i]);
            }
        }
    }
}

fn find_key(s: &Vec<MergedSlot>, key: &Vec<u8>) -> (r: usize)
    ensures
        r == key_position(merged_views(s@), key@),
        r <= s.len(),
{
    let ghost views = merged_views(s@);
    let mut i: usize = 0;
    while i < s.len() && !same_bytes(s[i].key.as_slice(), key.as_slice())
        invariant
            i <= s.len(),
            views == merged_views(s@),
            forall|k: int| 0 <= k < i ==> (#[trigger] views[k]).key != key@,
        decreases s.len() - i,
    {
        assert(views[i as int] == s@[i as int]@);
        i = i + 1;
    }
    assert(i < s.len() ==> views[i as int] == s@[i as int]@);
    proof {
        key_position_is(views, key@, i as int);
    }
    i
}

fn copy_key(arena: &Vec<u8>, from: usize, to: usize) -> (r: Vec<u8>)
    requires
        from <= to <= arena.len(),
    ensures
        r@ == arena@.subrange(from as int, to as int),
{
    let mut r: Vec<u8> = Vec::new();
    let mut i: usize = from;
    while i < to
        invariant
            from <= i <= to <= arena.len(),
            r@ == arena@.subrange(from as int, i as int),
        decreases to - i,
    {
        r.push(arena[i]);
        i = i + 1;
        assert(arena@.subrange(from as int, i as int) =~= arena@.subrange(
            from as int,
            i - 1,
        ).push(arena@[i - 1]));
    }
    r
}

/// Merges the slots of a descriptor by key.
pub fn merge_slots(desc: &RawDescriptor) -> (r: Vec<MergedSlot>)
    ensures
        merged_views(r@) == merged_slots(desc.key_arena@, desc.slots@),
{
    let ghost arena = desc.key_arena@;
    let mut m: Vec<MergedSlot> = Vec::new();
    let mut i: usize = 0;
    assert(merged_views(m@) =~= merged_slots(arena, desc.slots@.take(0)));
    while i < desc.slots.len()
        invariant
            i <= desc.slots.len(),
            arena == desc.key_arena@,
            merged_views(m@) == merged_slots(arena, desc.slots@.take(i as int)),
        decreases desc.slots.len() - i,
    {
        let slot = desc.slots[i];
        let ghost before = merged_views(m@);
        proof {
            assert(desc.slots@.take(i as int + 1).drop_last() =~= desc.slots@.take(i as int));
            assert(desc.slots@.take(i as int + 1).last() == slot);
        }
        let end: u64 = slot.key_offset as u64 + slot.key_len as u64;
        if slot.key_len != 0 && end <= desc.key_arena.len() as u64 {
            let key = copy_key(&desc.key_arena, slot.key_offset as usize, end as usize);
            let k: usize = find_key(&m, &key);
            if k < m.len() {
                let old_slot = &m[k];
                assert(before[k as int] == old_slot@);
                let joined = MergedSlot {
                    packets: old_slot.packets.saturating_add(slot.packets),
                    bytes: old_slot.bytes.saturating_add(slot.bytes),
                    last_update: if slot.last_update > old_slot.last_update {
                        slot.last_update
                    } else {
                        old_slot.last_update
                    },
                    key,
                };
                let ghost joined_view = joined@;
                m.set(k, joined);
                assert(merged_views(m@) =~= before.update(k as int, joined_view));
                proof {
                    key_position_first(before, joined_view.key);
                }
            } else {
                let fresh = MergedSlot {
                    key,
                    packets: slot.packets,
                    bytes: slot.bytes,
                    last_update: slot.last_update,
                };
                let ghost fresh_view = fresh@;
                m.push(fresh);
                assert(merged_views(m@) =~= before.push(fresh_view));
            }
        }
        i = i + 1;
    }
    assert(desc.slots@.take(desc.slots@.len() as int) =~= desc.slots@);
    m
}

// ---------------------------------------------------------------- decoding a tick

/// The flows of merged slots; one whose key does not decode is left out.
pub open spec fn decoded_flows(fields: Seq<FieldId>, s: Seq<MergedView>) -> Seq<FlowStatsView>
    decreases s.len(),
{
    if s.len() == 0 {
        Seq::empty()
    } else {
        let before = decoded_flows(fields, s.drop_last());
        let m = s.last();
        match decode::decoded(fields, m.key) {
            Ok(key) => before.push(
                FlowStatsView {
                    key,
                    counters: FlowCounters {
                        packets: m.packets,
                        bytes: m.bytes,
                        first_seen_ns: 0,
                        last_seen_ns: m.last_update,
                    },
                },
            ),
            Err(_) => before,
        }
    }
}

/// Decodes the flows of merged slots.
pub fn decode_flows(fields: &Vec<FieldId>, s: &Vec<MergedSlot>) -> (r: Vec<FlowStats>)
    ensures
        types::flow_views(r@) == decoded_flows(fields@, merged_views(s@)),
{
    let ghost views = merged_views(s@);
    let mut r: Vec<FlowStats> = Vec::new();
    let mut i: usize = 0;
    assert(types::flow_views(r@) =~= decoded_flows(fields@, views.take(0)));
    while i < s.len()
        invariant
            i <= s.len(),
            views == merged_views(s@),
            types::flow_views(r@) == decoded_flows(fields@, views.take(i as int)),
        decreases s.len() - i,
    {
        let m = &s[i];
        proof {
            assert(views.take(i as int + 1).drop_last() =~= views.take(i as int));
            assert(views.take(i as int + 1).last() == m@);
        }
        if let Ok(key) = decode_key(fields, m.key.as_slice()) {
            let ghost before = r@;
            let flow = FlowStats {
                key,
                counters: FlowCounters {
                    packets: m.packets,
                    bytes: m.bytes,
                    first_seen_ns: 0,
                    last_seen_ns: m.last_update,
                },
            };
            let ghost fv = flow@;
            r.push(flow);
            assert(types::flow_views(r@) =~= types::flow_views(before).push(fv));
        }
        i = i + 1;
    }
    assert(views.take(views.len() as int) =~= views);
    r
}

/// The statistics of one flow table. The table does not say which fields its keys are made of, so
/// they are read as keys without fields.
pub open spec fn rule_stats_of(d: RawDescriptorView) -> FlowRuleStatsView {
    FlowRuleStatsView {
        name: types::id_text(d.flow_rule_id),
        fields: Seq::empty(),
        max_keys: u32::MAX,
        eviction_policy: EvictionPolicy::LruDrop,
        flows: decoded_flows(Seq::empty(), merged_slots(d.key_arena, d.slots)),
        counters: FlowRuleCounters { evictions: 0, drops: d.insert_failed, packets: 0, bytes: 0 },
    }
}

/// The time since the tick before; nothing where there was none.
pub open spec fn interval_of(tick_id: u64, mono: u64, prev_mono: u64) -> u64 {
    if tick_id == 1 || prev_mono == 0 || mono < prev_mono {
        0
    } else {
        (mono - prev_mono) as u64
    }
}

/// The snapshot of a tick.
pub open spec fn snapshot_of(
    raw: Seq<RawDescriptorView>,
    tick_id: u64,
    wall: u64,
    mono: u64,
    prev_mono: u64,
) -> FlowStatsSnapshotView {
    FlowStatsSnapshotView {
        tick_id,
        wall_clock_ns: wall,
        monotonic_ns: mono,
        interval_ns: interval_of(tick_id, mono, prev_mono),
        flow_rules: raw.map_values(|d: RawDescriptorView| rule_stats_of(d)),
    }
}

/// Without fields no flow can be told, so a rule shows none.
pub proof fn no_flows_without_fields(d: RawDescriptorView)
    ensures
        rule_stats_of(d).flows.len() == 0,
{
    merged_slots_keys(d.key_arena, d.slots);
    no_flows(merged_slots(d.key_arena, d.slots));
}

proof fn no_flows(s: Seq<MergedView>)
    requires
        forall|i: int| 0 <= i < s.len() ==> (#[trigger] s[i]).key.len() > 0,
    ensures
        decoded_flows(Seq::empty(), s).len() == 0,
    decreases s.len(),
{
    if s.len() > 0 {
        let front = s.drop_last();
        assert forall|i: int| 0 <= i < front.len() implies (#[trigger] front[i]).key.len() > 0 by {
            assert(front[i] == s[i]);
        }
        no_flows(front);
        assert(s[s.len() - 1].key.len() > 0);
        decode::no_fields_no_values(s.last().key);
    }
}

fn decode_rule(desc: &RawDescriptor) -> (r: FlowRuleStats)
    ensures
        r@ == rule_stats_of(desc@),
{
    let fields: Vec<FieldId> = Vec::new();
    let slots = merge_slots(desc);
    let flows = decode_flows(&fields, &slots);
    let r = FlowRuleStats {
        name: desc.flow_rule_id.to_text(),
        fields,
        max_keys: u32::MAX,
        eviction_policy: EvictionPolicy::LruDrop,
        flows,
        counters: FlowRuleCounters {
            evictions: 0,
            drops: desc.insert_failed,
            packets: 0,
            bytes: 0,
        },
    };
    assert(r@ =~= rule_stats_of(desc@));
    r
}

/// Decodes the flow tables of a tick.
pub fn decode_snapshot(raw: RawSnapshot, tick_id: u64, wall: u64, mono: u64, prev_mono: u64) -> (r:
    FlowStatsSnapshot)
    ensures
        r@ == snapshot_of(
            stats_client::descriptor_views(raw.descriptors@),
            tick_id,
            wall,
            mono,
            prev_mono,
        ),
{
    let interval_ns: u64 = if tick_id == 1 || prev_mono == 0 {
        0
    } else {
        mono.saturating_sub(prev_mono)
    };
    let mut flow_rules: Vec<FlowRuleStats> = Vec::new();
    let mut i: usize = 0;
    while i < raw.descriptors.len()
        invariant
            i <= raw.descriptors.len(),
            flow_rules.len() == i,
            forall|k: int|
                0 <= k < i ==> (#[trigger] flow_rules@[k])@ == rule_stats_of(
                    raw.descriptors@[k]@,
                ),
        decreases raw.descriptors.len() - i,
    {
        flow_rules.push(decode_rule(&raw.descriptors[i]));
        i = i + 1;
    }
    let r = FlowStatsSnapshot {
        tick_id,
        wall_clock_ns: wall,
        monotonic_ns: mono,
        interval_ns,
        flow_rules,
    };
    assert(r@ =~= snapshot_of(
        stats_client::descriptor_views(raw.descriptors@),
        tick_id,
        wall,
        mono,
        prev_mono,
    ));
    r
}

// ---------------------------------------------------------------- the tick loop

/// What the loop waits for.
#[derive(Clone, Copy, Debug, PartialEq, Eq, Structural)]
pub enum Phase {
    /// The start of the next tick.
    Tick,
    /// A connection to the backend.
    Connect,
    /// The flow tables of the tick.
    Read,
    /// The number of those who ask for a snapshot of their own.
    Drain,
    /// The flow tables for those who ask.
    Pull,
    /// The time at the end of the tick.
    Rest,
}

/// The flow tables, and when they were read.
#[derive(Debug)]
pub struct Reading {
    pub raw: RawSnapshot,
    pub wall: u64,
    pub mono: u64,
}

/// What happened outside.
#[derive(Debug)]
pub enum PollEvent {
    /// A tick starts at the given time, unless the poller is to stop.
    Tick { stop: bool, now: u64 },
    /// The connection was made, or not.
    Connected(bool),
    /// The flow tables of the tick, or nothing where they could not be read.
    Read(Option<Reading>),
    /// So many ask for a snapshot.
    Waiting(usize),
    /// The flow tables for those who ask, or nothing.
    Pulled(Option<Reading>),
    /// The work of the tick ended at the given time.
    Done { now: u64 },
}

/// What is to be done next; the event that answers it stands behind.
#[derive(Debug)]
pub enum PollAction<T = FlowStatsSnapshot> {
    /// Leave the loop.
    Stop,
    /// Connect to the backend: `Connected`.
    Connect,
    /// Read and clear the flow tables: `Read`.
    Read,
    /// Hand the snapshot to the exporters and see who asks for one: `Waiting`.
    Deliver(T),
    /// Read and clear the flow tables once more: `Pulled`.
    Pull,
    /// Hand the snapshot to the exporters and to those who asked, and look at the clock: `Done`.
    Answer(T),
    /// Look at the clock: `Done`.
    LookAtClock,
    /// Sleep, and start the next tick: `Tick`.
    Sleep(Duration),
    /// Start the next tick at once: `Tick`.
    Again,
}

/// What an action says.
pub open spec fn action_view(a: PollAction) -> PollAction<FlowStatsSnapshotView> {
    match a {
        PollAction::Stop => PollAction::Stop,
        PollAction::Connect => PollAction::Connect,
        PollAction::Read => PollAction::Read,
        PollAction::Deliver(s) => PollAction::Deliver(s@),
        PollAction::Pull => PollAction::Pull,
        PollAction::Answer(s) => PollAction::Answer(s@),
        PollAction::LookAtClock => PollAction::LookAtClock,
        PollAction::Sleep(d) => PollAction::Sleep(d),
        PollAction::Again => PollAction::Again,
    }
}

/// The state of the tick loop.
#[derive(Clone, Copy, Debug, PartialEq, Eq, Structural)]
pub struct Poller {
    pub phase: Phase,
    pub interval: Duration,
    /// Whether there is a connection.
    pub connected: bool,
    /// How many snapshots were made.
    pub tick_id: u64,
    /// When the last snapshot of this connection was made; zero where there was none.
    pub prev_mono: u64,
    /// The pause after the next failure to connect.
    pub backoff: Duration,
    /// When the tick started.
    pub tick_start: u64,
}

/// The first pause after a failure to connect.
pub open spec fn first_pause() -> Duration {
    Duration { nanos: 100_000_000 }
}

/// The longest pause after a failure to connect.
pub open spec fn longest_pause() -> Duration {
    Duration { nanos: 5_000_000_000 }
}

/// What is left of the interval at the end of a tick.
pub open spec fn left_of(interval: Duration, start: u64, now: u64) -> Option<Duration> {
    let elapsed: nat = if now >= start {
        (now - start) as nat
    } else {
        0
    };
    if elapsed <= interval.nanos {
        Some(Duration { nanos: (interval.nanos - elapsed) as u128 })
    } else {
        None
    }
}

/// Whether the event brings flow tables to make a snapshot of.
pub open spec fn makes_snapshot(event: PollEvent) -> bool {
    event matches PollEvent::Read(Some(_)) || event matches PollEvent::Pulled(Some(_))
}

impl Poller {
    /// The pause lies between the shortest and the longest one, and flow tables are read only
    /// where there is a connection.
    pub open spec fn wf(self) -> bool {
        &&& first_pause().nanos <= self.backoff.nanos <= longest_pause().nanos
        &&& (self.phase == Phase::Connect ==> !self.connected)
        &&& (self.phase == Phase::Read || self.phase == Phase::Drain || self.phase == Phase::Pull
            || self.phase == Phase::Rest ==> self.connected)
    }

    /// Whether the event is the one that the loop waits for.
    pub open spec fn expects(self, event: PollEvent) -> bool {
        match event {
            PollEvent::Tick { .. } => self.phase == Phase::Tick,
            PollEvent::Connected(_) => self.phase == Phase::Connect,
            PollEvent::Read(_) => self.phase == Phase::Read,
            PollEvent::Waiting(_) => self.phase == Phase::Drain,
            PollEvent::Pulled(_) => self.phase == Phase::Pull,
            PollEvent::Done { .. } => self.phase == Phase::Rest,
        }
    }

    /// The state after a snapshot was made of a reading.
    pub open spec fn ticked(self, phase: Phase, reading: Reading) -> Poller {
        Poller {
            phase,
            tick_id: (self.tick_id + 1) as u64,
            prev_mono: reading.mono,
            ..self
        }
    }

    /// The snapshot of a reading.
    pub open spec fn snapshot(self, reading: Reading) -> FlowStatsSnapshotView {
        snapshot_of(
            stats_client::descriptor_views(reading.raw.descriptors@),
            (self.tick_id + 1) as u64,
            reading.wall,
            reading.mono,
            self.prev_mono,
        )
    }

    /// The state after an event, and what is to be done next.
    pub open spec fn after(self, event: PollEvent) -> (Poller, PollAction<FlowStatsSnapshotView>) {
        match event {
            PollEvent::Tick { stop, now } => if stop {
                (self, PollAction::Stop)
            } else if self.connected {
                (Poller { phase: Phase::Read, tick_start: now, ..self }, PollAction::Read)
            } else {
                (Poller { phase: Phase::Connect, tick_start: now, ..self }, PollAction::Connect)
            },
            PollEvent::Connected(true) => (
                Poller {
                    phase: Phase::Read,
                    connected: true,
                    backoff: first_pause(),
                    prev_mono: 0,
                    ..self
                },
                PollAction::Read,
            ),
            PollEvent::Connected(false) => (
                Poller {
                    phase: Phase::Tick,
                    backoff: self.backoff.doubled_up_to(longest_pause()),
                    ..self
                },
                PollAction::Sleep(self.backoff),
            ),
            PollEvent::Read(Some(reading)) => (
                self.ticked(Phase::Drain, reading),
                PollAction::Deliver(self.snapshot(reading)),
            ),
            PollEvent::Read(None) => (
                Poller { phase: Phase::Tick, connected: false, ..self },
                PollAction::Again,
            ),
            PollEvent::Waiting(n) => if n > 0 {
                (Poller { phase: Phase::Pull, ..self }, PollAction::Pull)
            } else {
                (Poller { phase: Phase::Rest, ..self }, PollAction::LookAtClock)
            },
            PollEvent::Pulled(Some(reading)) => (
                self.ticked(Phase::Rest, reading),
                PollAction::Answer(self.snapshot(reading)),
            ),
            PollEvent::Pulled(None) => (
                Poller { phase: Phase::Rest, ..self },
                PollAction::LookAtClock,
            ),
            PollEvent::Done { now } => (
                Poller { phase: Phase::Tick, ..self },
                match left_of(self.interval, self.tick_start, now) {
                    Some(d) => PollAction::Sleep(d),
                    None => PollAction::Again,
                },
            ),
        }
    }

    /// A loop that has yet to connect.
    pub fn new(interval: Duration) -> (r: Poller)
        ensures
            r.wf(),
            r == (Poller {
                phase: Phase::Tick,
                interval,
                connected: false,
                tick_id: 0,
                prev_mono: 0,
                backoff: first_pause(),
                tick_start: 0,
            }),
    {
        Poller {
            phase: Phase::Tick,
            interval,
            connected: false,
            tick_id: 0,
            prev_mono: 0,
            backoff: Duration::from_millis(100),
            tick_start: 0,
        }
    }

    fn tick(&mut self, phase: Phase, reading: Reading) -> (r: FlowStatsSnapshot)
        requires
            old(self).tick_id < u64::MAX,
        ensures
            *final(self) == old(self).ticked(phase, reading),
            r@ == old(self).snapshot(reading),
    {
        self.tick_id = self.tick_id + 1;
        let r = decode_snapshot(
            reading.raw,
            self.tick_id,
            reading.wall,
            reading.mono,
            self.prev_mono,
        );
        self.prev_mono = reading.mono;
        self.phase = phase;
        r
    }

    /// Takes the event that the loop waits for, and says what is to be done next.
    pub fn step(&mut self, event: PollEvent) -> (r: PollAction)
        requires
            old(self).wf(),
            old(self).expects(event),
            makes_snapshot(event) ==> old(self).tick_id < u64::MAX,
        ensures
            final(self).wf(),
            (*final(self), action_view(r)) == old(self).after(event),
    {
        match event {
            PollEvent::Tick { stop, now } => {
                if stop {
                    return PollAction::Stop;
                }
                self.tick_start = now;
                if self.connected {
                    self.phase = Phase::Read;
                    PollAction::Read
                } else {
                    self.phase = Phase::Connect;
                    PollAction::Connect
                }
            },
            PollEvent::Connected(ok) => {
                if ok {
                    self.phase = Phase::Read;
                    self.connected = true;
                    self.backoff = Duration::from_millis(100);
                    self.prev_mono = 0;
                    PollAction::Read
                } else {
                    let pause = self.backoff;
                    self.phase = Phase::Tick;
                    self.backoff = pause.doubled(Duration::from_secs(5));
                    PollAction::Sleep(pause)
                }
            },
            PollEvent::Read(Some(reading)) => PollAction::Deliver(
                self.tick(Phase::Drain, reading),
            ),
            PollEvent::Read(None) => {
                self.phase = Phase::Tick;
                self.connected = false;
                PollAction::Again
            },
            PollEvent::Waiting(n) => {
                if n > 0 {
                    self.phase = Phase::Pull;
                    PollAction::Pull
                } else {
                    self.phase = Phase::Rest;
                    PollAction::LookAtClock
                }
            },
            PollEvent::Pulled(Some(reading)) => PollAction::Answer(self.tick(Phase::Rest, reading)),
            PollEvent::Pulled(None) => {
                self.phase = Phase::Rest;
                PollAction::LookAtClock
            },
            PollEvent::Done { now } => {
                self.phase = Phase::Tick;
                let elapsed = Duration::from_nanos(now.saturating_sub(self.tick_start));
                match self.interval.checked_sub(elapsed) {
                    Some(d) => PollAction::Sleep(d),
                    None => PollAction::Again,
                }
            },
        }
    }
}

/// Snapshots are numbered in order: each one that is handed out bears the next number, and the
/// number stays where none is handed out.
pub proof fn ticks_count_snapshots(p: Poller, event: PollEvent)
    requires
        p.tick_id < u64::MAX,
    ensures
        match p.after(event).1 {
            PollAction::Deliver(s) => s.tick_id == p.tick_id + 1 && p.after(event).0.tick_id
                == p.tick_id + 1,
            PollAction::Answer(s) => s.tick_id == p.tick_id + 1 && p.after(event).0.tick_id
                == p.tick_id + 1,
            _ => p.after(event).0.tick_id == p.tick_id,
        },
{
}

/// The first snapshot of a connection covers no interval.
pub proof fn first_snapshot_has_no_interval(p: Poller, reading: Reading)
    requires
        p.tick_id < u64::MAX,
    ensures
        p.after(PollEvent::Connected(true)).0.snapshot(reading).interval_ns == 0,
{
}

/// A snapshot covers the time since the one before it on the same connection.
pub proof fn interval_spans_ticks(p: Poller, a: Reading, b: Reading)
    requires
        p.tick_id < u64::MAX - 1,
        0 < a.mono <= b.mono,
    ensures
        p.ticked(Phase::Drain, a).snapshot(b).interval_ns == b.mono - a.mono,
{
}

/// A connection that fails to give the flow tables is made anew before anything else is read.
pub proof fn failed_read_reconnects(p: Poller, now: u64)
    ensures
        ({
            let q = p.after(PollEvent::Read(None)).0;
            q.after(PollEvent::Tick { stop: false, now }).1 is Connect
        }),
{
}

// ---------------------------------------------------------------- sleeping

/// The next slice of a sleep that may be cut short: at most fifty milliseconds, and what is left
/// after it.
pub open spec fn slice_of(remaining: Duration) -> Option<(Duration, Duration)> {
    if remaining.nanos == 0 {
        None
    } else if remaining.nanos <= 50_000_000 {
        Some((remaining, Duration { nanos: 0 }))
    } else {
        Some(
            (
                Duration { nanos: 50_000_000 },
                Duration { nanos: (remaining.nanos - 50_000_000) as u128 },
            ),
        )
    }
}

/// The next slice of a sleep, and what is left after it.
pub fn next_slice(remaining: Duration) -> (r: Option<(Duration, Duration)>)
    ensures
        r == slice_of(remaining),
{
    if remaining.is_zero() {
        return None;
    }
    let check = Duration::from_millis(50);
    match remaining.checked_sub(check) {
        Some(rest) => Some((check, rest)),
        None => Some((remaining, Duration { nanos: 0 })),
    }
}

/// How long the slices of a sleep take together.
pub open spec fn slept(remaining: Duration) -> nat
    decreases remaining.nanos,
{
    match slice_of(remaining) {
        None => 0,
        Some(s) => s.0.nanos as nat + slept(s.1),
    }
}

/// A sleep that is not cut short takes as long as it should, and no slice of it takes more than
/// fifty milliseconds.
pub proof fn slices_add_up(d: Duration)
    ensures
        slept(d) == d.nanos,
        slice_of(d) matches Some(s) ==> s.0.nanos <= 50_000_000,
    decreases d.nanos,
{
    if let Some(s) = slice_of(d) {
        slices_add_up(s.1);
    }
}

// ---------------------------------------------------------------- laws

/// Whether a slot is one of the given key: not empty, within the arena, and made of its bytes.
pub open spec fn is_of(arena: Seq<u8>, slot: RawSlot, key: Seq<u8>) -> bool {
    &&& slot.key_len > 0
    &&& slot.key_offset + slot.key_len <= arena.len()
    &&& arena.subrange(slot.key_offset as int, slot.key_offset + slot.key_len) == key
}

/// The packets of all slots of the key together.
pub open spec fn packets_under(arena: Seq<u8>, slots: Seq<RawSlot>, key: Seq<u8>) -> nat
    decreases slots.len(),
{
    if slots.len() == 0 {
        0
    } else {
        packets_under(arena, slots.drop_last(), key) + if is_of(arena, slots.last(), key) {
            slots.last().packets as nat
        } else {
            0
        }
    }
}

/// The bytes of all slots of the key together.
pub open spec fn bytes_under(arena: Seq<u8>, slots: Seq<RawSlot>, key: Seq<u8>) -> nat
    decreases slots.len(),
{
    if slots.len() == 0 {
        0
    } else {
        bytes_under(arena, slots.drop_last(), key) + if is_of(arena, slots.last(), key) {
            slots.last().bytes as nat
        } else {
            0
        }
    }
}

/// The number, or the largest that a counter can hold.
pub open spec fn up_to_max(n: nat) -> u64 {
    if n <= 0xffff_ffff_ffff_ffff {
        n as u64
    } else {
        0xffff_ffff_ffff_ffff
    }
}

/// Whether `t` is the time of the last update among the slots of the key.
pub open spec fn is_last_update(t: u64, arena: Seq<u8>, slots: Seq<RawSlot>, key: Seq<u8>) -> bool {
    &&& forall|j: int|
        0 <= j < slots.len() && is_of(arena, #[trigger] slots[j], key) ==> slots[j].last_update <= t
    &&& exists|j: int|
        0 <= j < slots.len() && is_of(arena, #[trigger] slots[j], key) && slots[j].last_update == t
}

/// Slots of one key become one: its packets and bytes are the sums of theirs, up to the largest
/// number a counter can hold, and its time is the latest of theirs. There is one for every key
/// that a slot has, and for no other.
pub proof fn slots_add_up_by_key(arena: Seq<u8>, slots: Seq<RawSlot>)
    ensures
        forall|i: int|
            0 <= i < merged_slots(arena, slots).len() ==> {
                let m = #[trigger] merged_slots(arena, slots)[i];
                &&& m.packets == up_to_max(packets_under(arena, slots, m.key))
                &&& m.bytes == up_to_max(bytes_under(arena, slots, m.key))
                &&& is_last_update(m.last_update, arena, slots, m.key)
            },
        forall|j: int, key: Seq<u8>|
            0 <= j < slots.len() && #[trigger] is_of(arena, slots[j], key) ==> exists|i: int|
                0 <= i < merged_slots(arena, slots).len() && (#[trigger] merged_slots(
                    arena,
                    slots,
                )[i]).key == key,
    decreases slots.len(),
{
    if slots.len() > 0 {
        let front = slots.drop_last();
        let last = slots.last();
        let n = front.len() as int;
        let before = merged_slots(arena, front);
        let after = merged_slots(arena, slots);
        slots_add_up_by_key(arena, front);
        merged_slots_keys(arena, front);
        assert(forall|j: int| 0 <= j < n ==> slots[j] == front[j]);
        assert(slots[n] == last);
        let k = slot_key(arena, last);
        if let Some(key) = k {
            key_position_first(before, key);
            assert(is_of(arena, last, key));
            let p = key_position(before, key) as int;
            if p == before.len() {
                nothing_under(arena, front, key);
            }
        }
        assert forall|i: int| 0 <= i < after.len() implies {
            let m = #[trigger] after[i];
            &&& m.packets == up_to_max(packets_under(arena, slots, m.key))
            &&& m.bytes == up_to_max(bytes_under(arena, slots, m.key))
            &&& is_last_update(m.last_update, arena, slots, m.key)
        } by {
            let m = after[i];
            let hit = is_of(arena, last, m.key);
            if i < before.len() {
                let b = before[i];
                assert(b.key == m.key);
                assert(is_last_update(b.last_update, arena, front, b.key));
                let j = choose|j: int|
                    0 <= j < front.len() && is_of(arena, #[trigger] front[j], b.key)
                        && front[j].last_update == b.last_update;
                assert(slots[j] == front[j]);
                if hit {
                    assert(k == Some(m.key));
                    assert(key_position(before, m.key) == i);
                    assert(is_of(arena, slots[n], m.key));
                }
            } else {
                assert(hit);
                assert(is_of(arena, slots[n], m.key));
            }
            assert forall|j: int|
                0 <= j < slots.len() && is_of(
                    arena,
                    #[trigger] slots[j],
                    m.key,
                ) implies slots[j].last_update <= m.last_update by {
                if j < n {
                    assert(is_of(arena, front[j], m.key));
                    if i >= before.len() {
                        nothing_under(arena, front, m.key);
                    }
                }
            }
        }
        assert forall|j: int, key: Seq<u8>|
            0 <= j < slots.len() && #[trigger] is_of(arena, slots[j], key) implies exists|i: int|
            0 <= i < after.len() && (#[trigger] after[i]).key == key by {
            if j < n {
                assert(is_of(arena, front[j], key));
                let i = choose|i: int| 0 <= i < before.len() && (#[trigger] before[i]).key == key;
                assert(after[i].key == key);
            } else {
                assert(k == Some(key));
                let p = key_position(before, key) as int;
                assert(after[p].key == key);
            }
        }
    }
}

/// Where no merged slot has the key, no slot has.
proof fn nothing_under(arena: Seq<u8>, slots: Seq<RawSlot>, key: Seq<u8>)
    requires
        forall|i: int|
            0 <= i < merged_slots(arena, slots).len() ==> (#[trigger] merged_slots(
                arena,
                slots,
            )[i]).key != key,
    ensures
        packets_under(arena, slots, key) == 0,
        bytes_under(arena, slots, key) == 0,
        forall|j: int| 0 <= j < slots.len() ==> !is_of(arena, #[trigger] slots[j], key),
    decreases slots.len(),
{
    if slots.len() > 0 {
        let front = slots.drop_last();
        let before = merged_slots(arena, front);
        let after = merged_slots(arena, slots);
        if let Some(k) = slot_key(arena, slots.last()) {
            key_position_first(before, k);
            let p = key_position(before, k) as int;
            assert(after[p].key == k);
        }
        assert forall|i: int| 0 <= i < before.len() implies (#[trigger] before[i]).key != key by {
            assert(after[i].key == before[i].key);
        }
        nothing_under(arena, front, key);
        assert forall|j: int| 0 <= j < slots.len() implies !is_of(
            arena,
            #[trigger] slots[j],
            key,
        ) by {
            if j < front.len() {
                assert(slots[j] == front[j]);
            }
        }
    }
}

/// Whether the flow is the one that the slot tells of.
pub open spec fn is_flow_of(fields: Seq<FieldId>, m: MergedView, f: FlowStatsView) -> bool {
    &&& decode::decoded(fields, m.key) == Ok::<Seq<types::FieldValue>, Seq<char>>(f.key)
    &&& f.counters.packets == m.packets
    &&& f.counters.bytes == m.bytes
    &&& f.counters.last_seen_ns == m.last_update
    &&& f.counters.first_seen_ns == 0
}

/// Every merged slot whose key can be read is told as one flow, with the packets, the bytes and the
/// time of the slot, and every flow is told by such a slot.
pub proof fn flows_tell_their_slots(fields: Seq<FieldId>, s: Seq<MergedView>)
    ensures
        forall|i: int|
            0 <= i < s.len() && decode::decoded(fields, (#[trigger] s[i]).key) is Ok
                ==> exists|j: int|
                0 <= j < decoded_flows(fields, s).len() && is_flow_of(
                    fields,
                    s[i],
                    #[trigger] decoded_flows(fields, s)[j],
                ),
        forall|j: int|
            0 <= j < decoded_flows(fields, s).len() ==> exists|i: int|
                0 <= i < s.len() && is_flow_of(
                    fields,
                    #[trigger] s[i],
                    #[trigger] decoded_flows(fields, s)[j],
                ),
        decoded_flows(fields, s).len() <= s.len(),
        (forall|i: int| 0 <= i < s.len() ==> decode::decoded(fields, (#[trigger] s[i]).key) is Ok)
            ==> decoded_flows(fields, s).len() == s.len(),
    decreases s.len(),
{
    if s.len() > 0 {
        let front = s.drop_last();
        let n = front.len() as int;
        let before = decoded_flows(fields, front);
        let after = decoded_flows(fields, s);
        flows_tell_their_slots(fields, front);
        assert(forall|i: int| 0 <= i < n ==> front[i] == s[i]);
        assert(s[n] == s.last());
        assert forall|i: int|
            0 <= i < s.len() && decode::decoded(
                fields,
                (#[trigger] s[i]).key,
            ) is Ok implies exists|j: int|
            0 <= j < after.len() && is_flow_of(fields, s[i], #[trigger] after[j]) by {
            if i < n {
                assert(decode::decoded(fields, front[i].key) is Ok);
                let j = choose|j: int|
                    0 <= j < before.len() && is_flow_of(fields, front[i], #[trigger] before[j]);
                assert(after[j] == before[j]);
            } else {
                assert(is_flow_of(fields, s[i], after[before.len() as int]));
            }
        }
        assert forall|j: int| 0 <= j < after.len() implies exists|i: int|
            0 <= i < s.len() && is_flow_of(fields, #[trigger] s[i], #[trigger] after[j]) by {
            if j < before.len() {
                assert(after[j] == before[j]);
                let i = choose|i: int|
                    0 <= i < front.len() && is_flow_of(
                        fields,
                        #[trigger] front[i],
                        #[trigger] before[j],
                    );
                assert(is_flow_of(fields, s[i], after[j]));
            } else {
                assert(is_flow_of(fields, s[n], after[j]));
            }
        }
    }
}

/// A snapshot tells every flow table under the name of its rule, in order, with the failed inserts
/// as what was dropped, and bears the number and the times that it was made with.
pub proof fn snapshots_tell_tables(
    raw: Seq<RawDescriptorView>,
    tick_id: u64,
    wall: u64,
    mono: u64,
    prev_mono: u64,
)
    ensures
        ({
            let s = snapshot_of(raw, tick_id, wall, mono, prev_mono);
            &&& s.tick_id == tick_id
            &&& s.wall_clock_ns == wall
            &&& s.monotonic_ns == mono
            &&& s.flow_rules.len() == raw.len()
            &&& forall|i: int|
                0 <= i < raw.len() ==> {
                    let r = #[trigger] s.flow_rules[i];
                    &&& r.name == types::id_text(raw[i].flow_rule_id)
                    &&& r.counters.drops == raw[i].insert_failed
                    &&& r.counters.evictions == 0
                    &&& r.counters.packets == 0
                    &&& r.counters.bytes == 0
                    &&& r.max_keys == 0xffff_ffff
                    &&& r.eviction_policy is LruDrop
                }
        }),
{
}

/// The view of a descriptor tells what stands in it, field by field.
pub proof fn descriptor_is_told_by_field(d: RawDescriptor)
    ensures
        d@.flow_rule_id == d.flow_rule_id,
        d@.flow_rule_index == d.flow_rule_index,
        d@.generation == d.generation,
        d@.epoch_ns == d.epoch_ns,
        d@.slots == d.slots@,
        d@.key_arena == d.key_arena@,
        d@.insert_failed == d.insert_failed,
        d@.table_full == d.table_full,
{
}

/// The view of a merged slot tells what stands in it, field by field.
pub proof fn merged_slot_is_told_by_field(m: MergedSlot)
    ensures
        m@.key == m.key@,
        m@.packets == m.packets,
        m@.bytes == m.bytes,
        m@.last_update == m.last_update,
{
}

/// Failures to connect are slept off for the pause that the loop holds, a tenth of a second to five
/// seconds, and each doubles the next one; a connection brings the tenth of a second back.
pub proof fn connect_pauses_double(p: Poller)
    requires
        p.wf(),
    ensures
        100_000_000 <= p.backoff.nanos <= 5_000_000_000,
        p.after(PollEvent::Connected(false)).1 == PollAction::<FlowStatsSnapshotView>::Sleep(
            p.backoff,
        ),
        p.after(PollEvent::Connected(false)).0.backoff.nanos == if 2 * p.backoff.nanos
            <= 5_000_000_000 {
            2 * p.backoff.nanos
        } else {
            5_000_000_000
        },
        p.after(PollEvent::Connected(true)).0.backoff.nanos == 100_000_000,
{
}

/// The rest at the end of a tick lasts until one interval has passed since the tick started; where
/// more than that has passed, the next tick starts at once.
pub proof fn ticks_keep_the_pace(p: Poller, now: u64)
    requires
        p.tick_start <= now,
    ensures
        now <= p.tick_start + p.interval.nanos ==> {
            &&& p.after(PollEvent::Done { now }).1 matches PollAction::Sleep(d)
            &&& now + d.nanos == p.tick_start + p.interval.nanos
        },
        now > p.tick_start + p.interval.nanos ==> p.after(PollEvent::Done { now }).1 is Again,
{
}

/// Only the start of a tick sets when the tick started, and nothing changes the interval.
pub proof fn only_ticks_set_the_start(p: Poller, event: PollEvent)
    ensures
        p.after(event).0.interval == p.interval,
        match event {
            PollEvent::Tick { stop, now } => !stop ==> p.after(event).0.tick_start == now,
            _ => p.after(event).0.tick_start == p.tick_start,
        },
{
}

/// The loop is left when it is told to stop and never otherwise, and whoever asks for a snapshot
/// has one read for them.
pub proof fn loop_stops_when_told(p: Poller, event: PollEvent)
    ensures
        p.after(event).1 is Stop <==> (event matches PollEvent::Tick { stop, .. } && stop),
        event matches PollEvent::Waiting(n) && n > 0 ==> p.after(event).1 is Pull,
        event matches PollEvent::Waiting(n) && n == 0 ==> p.after(event).1 is LookAtClock,
        event matches PollEvent::Read(Some(_)) ==> p.after(event).1 is Deliver,
        event matches PollEvent::Pulled(Some(_)) ==> p.after(event).1 is Answer,
{
}

/// What the loop hands out tells the flow tables that it read and when it read them.
pub proof fn snapshots_tell_the_reading(p: Poller, reading: Reading)
    requires
        p.tick_id < u64::MAX,
    ensures
        ({
            &&& p.after(PollEvent::Read(Some(reading))).1 matches PollAction::Deliver(s)
            &&& s.wall_clock_ns == reading.wall
            &&& s.monotonic_ns == reading.mono
            &&& s.flow_rules.len() == reading.raw.descriptors@.len()
        }),
        ({
            &&& p.after(PollEvent::Pulled(Some(reading))).1 matches PollAction::Answer(s)
            &&& s.wall_clock_ns == reading.wall
            &&& s.monotonic_ns == reading.mono
            &&& s.flow_rules.len() == reading.raw.descriptors@.len()
        }),
{
}

/// The very first snapshot covers no interval, whatever was read before.
pub proof fn very_first_snapshot_has_no_interval(p: Poller, reading: Reading)
    requires
        p.tick_id == 0,
    ensures
        p.snapshot(reading).interval_ns == 0,
{
}

} // verus!
