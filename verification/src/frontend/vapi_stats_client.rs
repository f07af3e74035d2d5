//! Statistics out of the backend's flow tables.
//!
//! Every worker of the backend keeps a table of its own, so one key may come once per worker. The
//! entries of a rule are merged by key and packed into a descriptor.

use vstd::prelude::*;

use crate::ipc::stats_client::{self, RawDescriptor, RawDescriptorView, RawSlot, RawSnapshot};
use crate::ipc::types::FlowRuleId;
use crate::text;

verus! {

/// Why a call into the backend failed.
#[derive(Debug, PartialEq, Eq)]
pub enum VapiError<S = String> {
    ConnectFailed,
    SnapshotFailed(S),
    ListFailed,
    FlowRuleFailed(S),
}

impl View for VapiError<String> {
    type V = VapiError<Seq<char>>;

    open spec fn view(&self) -> VapiError<Seq<char>> {
        match self {
            VapiError::ConnectFailed => VapiError::ConnectFailed,
            VapiError::SnapshotFailed(s) => VapiError::SnapshotFailed(s@),
            VapiError::ListFailed => VapiError::ListFailed,
            VapiError::FlowRuleFailed(s) => VapiError::FlowRuleFailed(s@),
        }
    }
}

impl VapiError<Seq<char>> {
    /// The wording of the error.
    pub open spec fn text(self) -> Seq<char> {
        match self {
            VapiError::ConnectFailed => "failed to connect to VPP API"@,
            VapiError::SnapshotFailed(s) => "snapshot_inline_dump failed: "@ + s,
            VapiError::ListFailed => "list_flow_rules failed"@,
            VapiError::FlowRuleFailed(s) => "flow rule operation failed: "@ + s,
        }
    }
}

impl VapiError<String> {
    /// The wording of the error.
    pub fn message(&self) -> (r: String)
        ensures
            r@ == self@.text(),
    {
        match self {
            VapiError::ConnectFailed => "failed to connect to VPP API".to_owned(),
            VapiError::SnapshotFailed(s) => text::cat("snapshot_inline_dump failed: ", s.as_str()),
            VapiError::ListFailed => "list_flow_rules failed".to_owned(),
            VapiError::FlowRuleFailed(s) => text::cat("flow rule operation failed: ", s.as_str()),
        }
    }
}

/// The rules that the backend lists, unless it failed.
pub fn listed(rv: i32, ids: Vec<FlowRuleId>) -> (r: Result<Vec<FlowRuleId>, VapiError>)
    ensures
        if rv != 0 {
            r is Err && r->Err_0@ == VapiError::<Seq<char>>::ListFailed
        } else {
            r is Ok && r->Ok_0 == ids
        },
{
    if rv != 0 {
        return Err(VapiError::ListFailed);
    }
    Ok(ids)
}

// ---------------------------------------------------------------- merging

/// An entry of a flow table of one worker.
#[derive(Debug, PartialEq, Eq)]
pub struct CollectedEntry<B = Vec<u8>> {
    pub flow_rule_id_hi: u64,
    pub flow_rule_id_lo: u64,
    pub generation: u64,
    pub epoch_ns: u64,
    pub insert_failed: u64,
    pub table_full: u64,
    pub key_hash: u64,
    pub packets: u64,
    pub bytes: u64,
    pub last_update: u64,
    pub key_bytes: B,
}

pub type EntryView = CollectedEntry<Seq<u8>>;

impl View for CollectedEntry<Vec<u8>> {
    type V = EntryView;

    open spec fn view(&self) -> EntryView {
        CollectedEntry {
            flow_rule_id_hi: self.flow_rule_id_hi,
            flow_rule_id_lo: self.flow_rule_id_lo,
            generation: self.generation,
            epoch_ns: self.epoch_ns,
            insert_failed: self.insert_failed,
            table_full: self.table_full,
            key_hash: self.key_hash,
            packets: self.packets,
            bytes: self.bytes,
            last_update: self.last_update,
            key_bytes: self.key_bytes@,
        }
    }
}

/// The views of a list of entries.
pub open spec fn entry_views(s: Seq<CollectedEntry>) -> Seq<EntryView> {
    s.map_values(|e: CollectedEntry| e@)
}

/// Whether two entries are of the same key.
pub open spec fn same_key(a: EntryView, b: EntryView) -> bool {
    a.key_hash == b.key_hash && a.key_bytes == b.key_bytes
}

/// The sum of two counters, the largest one where it does not fit.
pub open spec fn sat_sum(a: u64, b: u64) -> u64 {
    if a + b > u64::MAX {
        u64::MAX
    } else {
        (a + b) as u64
    }
}

/// The larger of two numbers.
pub open spec fn larger(a: u64, b: u64) -> u64 {
    if b > a {
        b
    } else {
        a
    }
}

/// Two entries of the same key in one: counters add up, times keep the later.
pub open spec fn combined(m: EntryView, e: EntryView) -> EntryView {
    CollectedEntry {
        packets: sat_sum(m.packets, e.packets),
        bytes: sat_sum(m.bytes, e.bytes),
        last_update: larger(m.last_update, e.last_update),
        epoch_ns: larger(m.epoch_ns, e.epoch_ns),
        insert_failed: sat_sum(m.insert_failed, e.insert_failed),
        table_full: sat_sum(m.table_full, e.table_full),
        ..m
    }
}

/// The position of the entry with the key of `e`, or the number of entries where there is none.
pub open spec fn position(s: Seq<EntryView>, e: EntryView) -> nat
    decreases s.len(),
{
    if s.len() == 0 || same_key(s[0], e) {
        0
    } else {
        1 + position(s.drop_first(), e)
    }
}

/// `s` with `e` merged in: into the entry of its key, or behind the others where it is the first.
pub open spec fn merged_with(s: Seq<EntryView>, e: EntryView) -> Seq<EntryView> {
    let k = position(s, e);
    if k < s.len() {
        s.update(k as int, combined(s[k as int], e))
    } else {
        s.push(e)
    }
}

/// The entries merged by key, in the order in which the keys first came.
pub open spec fn merged(s: Seq<EntryView>) -> Seq<EntryView>
    decreases s.len(),
{
    if s.len() == 0 {
        Seq::empty()
    } else {
        merged_with(merged(s.drop_last()), s.last())
    }
}

proof fn position_is(s: Seq<EntryView>, e: EntryView, k: int)
    requires
        0 <= k <= s.len(),
        k < s.len() ==> same_key(s[k], e),
        forall|i: int| 0 <= i < k ==> !same_key(#[trigger] s[i], e),
    ensures
        position(s, e) == k,
    decreases s.len(),
{
    if s.len() > 0 && !same_key(s[0], e) {
        assert forall|i: int| 0 <= i < k - 1 implies !same_key(#[trigger] s.drop_first()[i], e) by {
            assert(s.drop_first()[i] == s[i + 1]);
        }
        position_is(s.drop_first(), e, k - 1);
    }
}

proof fn position_first(s: Seq<EntryView>, e: EntryView)
    ensures
        position(s, e) <= s.len(),
        position(s, e) < s.len() ==> same_key(s[position(s, e) as int], e),
        forall|i: int| 0 <= i < position(s, e) ==> !same_key(#[trigger] s[i], e),
    decreases s.len(),
{
    if s.len() > 0 && !same_key(s[0], e) {
        position_first(s.drop_first(), e);
        assert forall|i: int| 0 <= i < position(s, e) implies !same_key(#[trigger] s[i], e) by {
            if i > 0 {
                assert(s.drop_first()[i - 1] == s[i]);
            }
        }
    }
}

/// What the entries of one key count together.
pub open spec fn total(s: Seq<EntryView>, key: EntryView, count: spec_fn(EntryView) -> nat) -> nat
    decreases s.len(),
{
    if s.len() == 0 {
        0
    } else {
        total(s.drop_last(), key, count) + if same_key(s.last(), key) {
            count(s.last())
        } else {
            0
        }
    }
}

/// A count that stops at the largest.
pub open spec fn clamped(n: nat) -> u64 {
    if n > u64::MAX {
        u64::MAX
    } else {
        n as u64
    }
}

/// The packets of an entry.
pub open spec fn packets_of() -> spec_fn(EntryView) -> nat {
    |e: EntryView| e.packets as nat
}

/// The bytes of an entry.
pub open spec fn bytes_of() -> spec_fn(EntryView) -> nat {
    |e: EntryView| e.bytes as nat
}

proof fn total_same_key(s: Seq<EntryView>, a: EntryView, b: EntryView, f: spec_fn(EntryView) -> nat)
    requires
        same_key(a, b),
    ensures
        total(s, a, f) == total(s, b, f),
    decreases s.len(),
{
    if s.len() > 0 {
        total_same_key(s.drop_last(), a, b, f);
    }
}

proof fn total_none(s: Seq<EntryView>, e: EntryView, f: spec_fn(EntryView) -> nat)
    requires
        forall|i: int| 0 <= i < s.len() ==> !same_key(#[trigger] s[i], e),
    ensures
        total(s, e, f) == 0,
    decreases s.len(),
{
    if s.len() > 0 {
        assert(!same_key(s[s.len() - 1], e));
        assert forall|i: int| 0 <= i < s.drop_last().len() implies !same_key(
            #[trigger] s.drop_last()[i],
            e,
        ) by {
            assert(s.drop_last()[i] == s[i]);
        }
        total_none(s.drop_last(), e, f);
    }
}

/// No key stands twice.
pub open spec fn distinct(m: Seq<EntryView>) -> bool {
    forall|i: int, j: int| 0 <= i < j < m.len() ==> !same_key(#[trigger] m[i], #[trigger] m[j])
}

/// Every key of `s` stands in `m`.
pub open spec fn covers(m: Seq<EntryView>, s: Seq<EntryView>) -> bool {
    forall|i: int|
        0 <= i < s.len() ==> position(m, #[trigger] s[i]) < m.len()
}

/// Each entry of `m` counts what the entries of its key count in `s` together.
pub open spec fn counts(m: Seq<EntryView>, s: Seq<EntryView>) -> bool {
    forall|j: int|
        0 <= j < m.len() ==> (#[trigger] m[j]).packets == clamped(total(s, m[j], packets_of()))
            && m[j].bytes == clamped(total(s, m[j], bytes_of()))
}

/// No entry of `s` was updated later than the entry of its key in `m`.
pub open spec fn latest(m: Seq<EntryView>, s: Seq<EntryView>) -> bool {
    forall|i: int, j: int|
        0 <= i < s.len() && 0 <= j < m.len() && same_key(s[i], m[j]) ==> (
        #[trigger] s[i]).last_update <= (#[trigger] m[j]).last_update
}

proof fn merged_with_keys(m: Seq<EntryView>, e: EntryView)
    ensures
        ({
            let k = position(m, e) as int;
            let r = merged_with(m, e);
            &&& k < r.len()
            &&& same_key(r[k], e)
            &&& r.len() == if k < m.len() {
                m.len()
            } else {
                m.len() + 1
            }
            &&& forall|j: int| 0 <= j < m.len() ==> same_key(#[trigger] r[j], m[j])
            &&& forall|j: int| 0 <= j < m.len() && j != k ==> #[trigger] r[j] == m[j]
        }),
{
    position_first(m, e);
}

proof fn distinct_step(m: Seq<EntryView>, e: EntryView)
    requires
        distinct(m),
    ensures
        distinct(merged_with(m, e)),
{
    let r = merged_with(m, e);
    merged_with_keys(m, e);
    position_first(m, e);
    assert forall|i: int, j: int| 0 <= i < j < r.len() implies !same_key(
        #[trigger] r[i],
        #[trigger] r[j],
    ) by {
        assert(same_key(r[i], m[i]));
        if j < m.len() {
            assert(same_key(r[j], m[j]));
            assert(!same_key(m[i], m[j]));
        } else {
            assert(!same_key(m[i], e));
        }
    }
}

proof fn position_same_key(m: Seq<EntryView>, a: EntryView, b: EntryView)
    requires
        same_key(a, b),
    ensures
        position(m, a) == position(m, b),
{
    position_first(m, a);
    position_is(m, b, position(m, a) as int);
}

proof fn covers_step(m: Seq<EntryView>, s: Seq<EntryView>)
    requires
        s.len() > 0,
        covers(m, s.drop_last()),
    ensures
        covers(merged_with(m, s.last()), s),
{
    let e = s.last();
    let r = merged_with(m, e);
    merged_with_keys(m, e);
    assert forall|i: int| 0 <= i < s.len() implies position(r, #[trigger] s[i]) < r.len() by {
        position_first(r, s[i]);
        if i == s.len() - 1 {
            let k = position(m, e) as int;
            assert(same_key(r[k], s[i]));
        } else {
            assert(s.drop_last()[i] == s[i]);
            position_first(m, s[i]);
            let j = position(m, s[i]) as int;
            assert(same_key(r[j], m[j]));
            assert(same_key(r[j], s[i]));
        }
    }
}

proof fn uncovered_total(
    m: Seq<EntryView>,
    s: Seq<EntryView>,
    e: EntryView,
    f: spec_fn(EntryView) -> nat,
)
    requires
        covers(m, s),
        position(m, e) == m.len(),
    ensures
        total(s, e, f) == 0,
{
    assert forall|i: int| 0 <= i < s.len() implies !same_key(#[trigger] s[i], e) by {
        if same_key(s[i], e) {
            position_same_key(m, s[i], e);
        }
    }
    total_none(s, e, f);
}

proof fn counts_step(m: Seq<EntryView>, s: Seq<EntryView>)
    requires
        s.len() > 0,
        distinct(m),
        covers(m, s.drop_last()),
        counts(m, s.drop_last()),
    ensures
        counts(merged_with(m, s.last()), s),
{
    let front = s.drop_last();
    let e = s.last();
    let r = merged_with(m, e);
    let k = position(m, e) as int;
    merged_with_keys(m, e);
    position_first(m, e);
    assert forall|j: int| 0 <= j < r.len() implies (#[trigger] r[j]).packets == clamped(
        total(s, r[j], packets_of()),
    ) && r[j].bytes == clamped(total(s, r[j], bytes_of())) by {
        if j == k {
            total_same_key(front, r[j], e, packets_of());
            total_same_key(front, r[j], e, bytes_of());
            if k < m.len() {
                total_same_key(front, m[k], e, packets_of());
                total_same_key(front, m[k], e, bytes_of());
                assert(m[k].packets == clamped(total(front, m[k], packets_of())));
            } else {
                uncovered_total(m, front, e, packets_of());
                uncovered_total(m, front, e, bytes_of());
            }
        } else {
            assert(r[j] == m[j]);
            if same_key(e, m[j]) {
                if k < m.len() {
                    if j < k {
                        assert(!same_key(m[j], m[k]));
                    } else {
                        assert(!same_key(m[k], m[j]));
                    }
                } else {
                    assert(!same_key(m[j], e));
                }
            }
        }
    }
}

proof fn latest_step(m: Seq<EntryView>, s: Seq<EntryView>)
    requires
        s.len() > 0,
        distinct(m),
        covers(m, s.drop_last()),
        latest(m, s.drop_last()),
    ensures
        latest(merged_with(m, s.last()), s),
{
    let front = s.drop_last();
    let e = s.last();
    let r = merged_with(m, e);
    let k = position(m, e) as int;
    merged_with_keys(m, e);
    distinct_step(m, e);
    position_first(m, e);
    assert forall|i: int, j: int|
        0 <= i < s.len() && 0 <= j < r.len() && same_key(s[i], r[j]) implies (
    #[trigger] s[i]).last_update <= (#[trigger] r[j]).last_update by {
        if i == s.len() - 1 {
            if j < k {
                assert(!same_key(r[j], r[k]));
            } else if j > k {
                assert(!same_key(r[k], r[j]));
            }
        } else {
            assert(front[i] == s[i]);
            if j < m.len() {
                assert(same_key(r[j], m[j]));
                assert(same_key(front[i], m[j]));
                assert(front[i].last_update <= m[j].last_update);
            } else {
                assert(same_key(front[i], e));
                position_same_key(m, front[i], e);
            }
        }
    }
}

/// Merging loses nothing and counts nothing twice: every key that came stands in the result
/// exactly once, with the packets and bytes of all its entries together and the latest of their
/// times.
pub proof fn merged_is_faithful(s: Seq<EntryView>)
    ensures
        distinct(merged(s)),
        covers(merged(s), s),
        counts(merged(s), s),
        latest(merged(s), s),
    decreases s.len(),
{
    if s.len() > 0 {
        let front = s.drop_last();
        merged_is_faithful(front);
        distinct_step(merged(front), s.last());
        covers_step(merged(front), s);
        counts_step(merged(front), s);
        latest_step(merged(front), s);
    }
}

/// Entries whose keys are all different stay as they are.
pub proof fn distinct_entries_unchanged(s: Seq<EntryView>)
    requires
        distinct(s),
    ensures
        merged(s) == s,
    decreases s.len(),
{
    if s.len() > 0 {
        let front = s.drop_last();
        assert(distinct(front)) by {
            assert forall|i: int, j: int| 0 <= i < j < front.len() implies !same_key(
                #[trigger] front[i],
                #[trigger] front[j],
            ) by {
                assert(front[i] == s[i] && front[j] == s[j]);
            }
        }
        distinct_entries_unchanged(front);
        assert forall|i: int| 0 <= i < front.len() implies !same_key(
            #[trigger] front[i],
            s.last(),
        ) by {
            assert(front[i] == s[i] && !same_key(s[i], s[s.len() - 1]));
        }
        position_is(front, s.last(), front.len() as int);
        assert(front.push(s.last()) =~= s);
    } else {
        assert(merged(s) =~= s);
    }
}

/// Merging what was merged changes nothing.
pub proof fn merged_idempotent(s: Seq<EntryView>)
    ensures
        merged(merged(s)) == merged(s),
{
    merged_is_faithful(s);
    distinct_entries_unchanged(merged(s));
}

// ---------------------------------------------------------------- merging, in code

/// Whether two byte strings are the same.
pub fn same_bytes(a: &[u8], b: &[u8]) -> (r: bool)
    ensures
        r == (a@ == b@),
{
    if a.len() != b.len() {
        return false;
    }
    let mut i: usize = 0;
    while i < a.len()
        invariant
            i <= a.len(),
            a@.len() == b@.len(),
            forall|k: int| 0 <= k < i ==> a@[k] == b@[k],
        decreases a.len() - i,
    {
        if a[i] != b[i] {
            assert(a@[i as int] != b@[i as int]);
            return false;
        }
        i = i + 1;
    }
    assert(a@ =~= b@);
    true
}

/// A copy of a byte string.
pub fn copy_bytes(v: &Vec<u8>) -> (r: Vec<u8>)
    ensures
        r@ == v@,
{
    let mut r: Vec<u8> = Vec::new();
    push_bytes(&mut r, v);
    assert(Seq::<u8>::empty() + v@ =~= v@);
    r
}

/// Appends a byte string.
fn push_bytes(r: &mut Vec<u8>, v: &Vec<u8>)
    ensures
        final(r)@ == old(r)@ + v@,
{
    let ghost start = r@;
    let mut i: usize = 0;
    assert(start + v@.take(0) =~= start);
    while i < v.len()
        invariant
            i <= v.len(),
            r@ == start + v@.take(i as int),
        decreases v.len() - i,
    {
        r.push(v[i]);
        i = i + 1;
        assert(start + v@.take(i as int) =~= (start + v@.take(i - 1)).push(v@[i - 1]));
    }
    assert(v@.take(v@.len() as int) =~= v@);
}

fn find_entry(m: &Vec<CollectedEntry>, e: &CollectedEntry) -> (r: usize)
    ensures
        r == position(entry_views(m@), e@),
        r <= m.len(),
{
    let ghost views = entry_views(m@);
    let mut i: usize = 0;
    while i < m.len() && !(m[i].key_hash == e.key_hash && same_bytes(
        m[i].key_bytes.as_slice(),
        e.key_bytes.as_slice(),
    ))
        invariant
            i <= m.len(),
            views == entry_views(m@),
            forall|k: int| 0 <= k < i ==> !same_key(#[trigger] views[k], e@),
        decreases m.len() - i,
    {
        assert(views[i as int] == m@[i as int]@);
        i = i + 1;
    }
    assert(i < m.len() ==> views[i as int] == m@[i as int]@);
    proof {
        position_is(views, e@, i as int);
    }
    i
}

fn later(a: u64, b: u64) -> (r: u64)
    ensures
        r == larger(a, b),
{
    if b > a {
        b
    } else {
        a
    }
}

/// Merges the entries of all workers by key.
pub fn merge_worker_entries(entries: &Vec<CollectedEntry>) -> (r: Vec<CollectedEntry>)
    ensures
        entry_views(r@) == merged(entry_views(entries@)),
{
    let ghost views = entry_views(entries@);
    let mut m: Vec<CollectedEntry> = Vec::new();
    let mut i: usize = 0;
    assert(entry_views(m@) =~= merged(views.take(0)));
    while i < entries.len()
        invariant
            i <= entries.len(),
            views == entry_views(entries@),
            entry_views(m@) == merged(views.take(i as int)),
        decreases entries.len() - i,
    {
        let e = &entries[i];
        let ghost before = entry_views(m@);
        proof {
            assert(views.take(i as int + 1).drop_last() =~= views.take(i as int));
            assert(views.take(i as int + 1).last() == e@);
        }
        let k: usize = find_entry(&m, e);
        if k < m.len() {
            let old_entry = &m[k];
            assert(before[k as int] == old_entry@);
            let joined = CollectedEntry {
                flow_rule_id_hi: old_entry.flow_rule_id_hi,
                flow_rule_id_lo: old_entry.flow_rule_id_lo,
                generation: old_entry.generation,
                epoch_ns: later(old_entry.epoch_ns, e.epoch_ns),
                insert_failed: old_entry.insert_failed.saturating_add(e.insert_failed),
                table_full: old_entry.table_full.saturating_add(e.table_full),
                key_hash: old_entry.key_hash,
                packets: old_entry.packets.saturating_add(e.packets),
                bytes: old_entry.bytes.saturating_add(e.bytes),
                last_update: later(old_entry.last_update, e.last_update),
                key_bytes: copy_bytes(&old_entry.key_bytes),
            };
            let ghost joined_view = joined@;
            m.set(k, joined);
            assert(entry_views(m@) =~= before.update(k as int, joined_view));
        } else {
            let fresh = CollectedEntry {
                flow_rule_id_hi: e.flow_rule_id_hi,
                flow_rule_id_lo: e.flow_rule_id_lo,
                generation: e.generation,
                epoch_ns: e.epoch_ns,
                insert_failed: e.insert_failed,
                table_full: e.table_full,
                key_hash: e.key_hash,
                packets: e.packets,
                bytes: e.bytes,
                last_update: e.last_update,
                key_bytes: copy_bytes(&e.key_bytes),
            };
            let ghost fresh_view = fresh@;
            m.push(fresh);
            assert(entry_views(m@) =~= before.push(fresh_view));
        }
        i = i + 1;
    }
    assert(views.take(views.len() as int) =~= views);
    m
}

// ---------------------------------------------------------------- descriptors

/// The keys of the first `n` entries in a row.
pub open spec fn arena(m: Seq<EntryView>, n: nat) -> Seq<u8>
    decreases n,
{
    if n == 0 {
        Seq::empty()
    } else {
        arena(m, (n - 1) as nat) + m[n - 1].key_bytes
    }
}

/// The slot of entry `i`: its counters, and where its key lies in the arena.
pub open spec fn slot_of(m: Seq<EntryView>, i: int) -> RawSlot {
    RawSlot {
        key_hash: m[i].key_hash,
        packets: m[i].packets,
        bytes: m[i].bytes,
        key_offset: arena(m, i as nat).len() as u32,
        key_len: m[i].key_bytes.len() as u16,
        flags: 1,
        last_update: m[i].last_update,
    }
}

/// Failed inserts of the first `n` entries together.
pub open spec fn failed_in(m: Seq<EntryView>, n: nat) -> u64
    decreases n,
{
    if n == 0 {
        0
    } else {
        sat_sum(failed_in(m, (n - 1) as nat), m[n - 1].insert_failed)
    }
}

/// Full tables of the first `n` entries together.
pub open spec fn full_in(m: Seq<EntryView>, n: nat) -> u64
    decreases n,
{
    if n == 0 {
        0
    } else {
        sat_sum(full_in(m, (n - 1) as nat), m[n - 1].table_full)
    }
}

/// The descriptor of a rule with these entries.
pub open spec fn descriptor_of(id: FlowRuleId, entries: Seq<EntryView>) -> RawDescriptorView {
    let m = merged(entries);
    RawDescriptorView {
        flow_rule_id: id,
        flow_rule_index: 0,
        generation: entries[0].generation,
        epoch_ns: entries[0].epoch_ns,
        slots: Seq::new(m.len(), |i: int| slot_of(m, i)),
        key_arena: arena(m, m.len()),
        insert_failed: failed_in(m, m.len()),
        table_full: full_in(m, m.len()),
    }
}

/// The key of a slot, as it lies in the arena.
pub open spec fn key_at(d: RawDescriptorView, slot: RawSlot) -> Seq<u8> {
    d.key_arena.subrange(slot.key_offset as int, slot.key_offset + slot.key_len)
}

proof fn arena_prefix(m: Seq<EntryView>, i: nat, n: nat)
    requires
        i <= n <= m.len(),
    ensures
        arena(m, i).len() <= arena(m, n).len(),
        arena(m, n).take(arena(m, i).len() as int) == arena(m, i),
    decreases n,
{
    if i < n {
        arena_prefix(m, i, (n - 1) as nat);
        let a = arena(m, (n - 1) as nat);
        let l = arena(m, i).len() as int;
        assert(arena(m, n).take(l) =~= a.take(l));
    } else {
        assert(arena(m, n).take(arena(m, i).len() as int) =~= arena(m, i));
    }
}

/// Every slot leads to the key of its entry, as long as the keys and the arena are not longer than
/// a slot can say.
pub proof fn slots_lead_to_keys(id: FlowRuleId, entries: Seq<EntryView>, i: int)
    requires
        0 <= i < merged(entries).len(),
        merged(entries)[i].key_bytes.len() <= u16::MAX,
        arena(merged(entries), merged(entries).len()).len() <= u32::MAX,
    ensures
        ({
            let d = descriptor_of(id, entries);
            &&& d.slots[i].key_offset + d.slots[i].key_len <= d.key_arena.len()
            &&& key_at(d, d.slots[i]) == merged(entries)[i].key_bytes
        }),
{
    let m = merged(entries);
    let d = descriptor_of(id, entries);
    arena_prefix(m, i as nat, m.len());
    arena_prefix(m, i as nat + 1, m.len());
    let from = arena(m, i as nat).len() as int;
    let to = arena(m, i as nat + 1).len() as int;
    assert(d.key_arena.subrange(from, to) =~= d.key_arena.take(to).subrange(from, to));
    assert(arena(m, i as nat + 1).subrange(from, to) =~= m[i].key_bytes);
}

/// The descriptor of a rule, unless it has no entries.
pub fn collect_descriptor(id: FlowRuleId, entries: &Vec<CollectedEntry>) -> (r: Option<
    RawDescriptor,
>)
    ensures
        r is None == (entries.len() == 0),
        r is Some ==> r->Some_0@ == descriptor_of(id, entry_views(entries@)),
{
    if entries.len() == 0 {
        return None;
    }
    let m = merge_worker_entries(entries);
    let ghost views = entry_views(m@);
    let mut key_arena: Vec<u8> = Vec::new();
    let mut slots: Vec<RawSlot> = Vec::new();
    let mut insert_failed: u64 = 0;
    let mut table_full: u64 = 0;
    let mut i: usize = 0;
    assert(key_arena@ =~= arena(views, 0));
    while i < m.len()
        invariant
            i <= m.len(),
            views == entry_views(m@),
            key_arena@ == arena(views, i as nat),
            slots.len() == i,
            forall|k: int| 0 <= k < i ==> #[trigger] slots@[k] == slot_of(views, k),
            insert_failed == failed_in(views, i as nat),
            table_full == full_in(views, i as nat),
        decreases m.len() - i,
    {
        let e = &m[i];
        assert(views[i as int] == e@);
        let key_offset: u32 = #[verifier::truncate] (key_arena.len() as u32);
        let key_len: u16 = #[verifier::truncate] (e.key_bytes.len() as u16);
        push_bytes(&mut key_arena, &e.key_bytes);
        slots.push(
            RawSlot {
                key_hash: e.key_hash,
                packets: e.packets,
                bytes: e.bytes,
                key_offset,
                key_len,
                flags: 1,
                last_update: e.last_update,
            },
        );
        insert_failed = insert_failed.saturating_add(e.insert_failed);
        table_full = table_full.saturating_add(e.table_full);
        i = i + 1;
    }
    assert(entry_views(entries@)[0] == entries@[0]@);
    let r = RawDescriptor {
        flow_rule_id: id,
        flow_rule_index: 0,
        generation: entries[0].generation,
        epoch_ns: entries[0].epoch_ns,
        slots,
        key_arena,
        insert_failed,
        table_full,
    };
    assert(r@ =~= descriptor_of(id, entry_views(entries@)));
    Some(r)
}

/// What the backend gave for one rule: its return value, and the entries.
#[derive(Debug)]
pub struct RuleDump {
    pub id: FlowRuleId,
    pub rv: i32,
    pub entries: Vec<CollectedEntry>,
}

/// The descriptors of the first `n` rules; one that failed or has no entries is left out.
pub open spec fn descriptors_of(dumps: Seq<RuleDump>, n: nat) -> Seq<RawDescriptorView>
    decreases n,
{
    if n == 0 {
        Seq::empty()
    } else {
        let before = descriptors_of(dumps, (n - 1) as nat);
        let d = dumps[n - 1];
        if d.rv != 0 || d.entries@.len() == 0 {
            before
        } else {
            before.push(descriptor_of(d.id, entry_views(d.entries@)))
        }
    }
}

/// The flow tables of all rules.
pub fn snapshot_and_clear(dumps: &Vec<RuleDump>) -> (r: RawSnapshot)
    ensures
        stats_client::descriptor_views(r.descriptors@) == descriptors_of(dumps@, dumps@.len()),
{
    let mut descriptors: Vec<RawDescriptor> = Vec::new();
    let mut i: usize = 0;
    assert(stats_client::descriptor_views(descriptors@) =~= descriptors_of(dumps@, 0));
    while i < dumps.len()
        invariant
            i <= dumps.len(),
            stats_client::descriptor_views(descriptors@) == descriptors_of(dumps@, i as nat),
        decreases dumps.len() - i,
    {
        let dump = &dumps[i];
        if dump.rv == 0 {
            if let Some(d) = collect_descriptor(dump.id, &dump.entries) {
                let ghost before = descriptors@;
                let ghost dv = d@;
                descriptors.push(d);
                assert(stats_client::descriptor_views(descriptors@)
                    =~= stats_client::descriptor_views(before).push(dv));
            }
        }
        i = i + 1;
    }
    RawSnapshot { descriptors }
}

// ---------------------------------------------------------------- what a descriptor tells

/// The packets of the entries with this hash and key together.
pub open spec fn packets_with(s: Seq<EntryView>, hash: u64, key: Seq<u8>) -> nat
    decreases s.len(),
{
    if s.len() == 0 {
        0
    } else {
        packets_with(s.drop_last(), hash, key) + if s.last().key_hash == hash
            && s.last().key_bytes == key {
            s.last().packets as nat
        } else {
            0
        }
    }
}

/// The bytes of the entries with this hash and key together.
pub open spec fn bytes_with(s: Seq<EntryView>, hash: u64, key: Seq<u8>) -> nat
    decreases s.len(),
{
    if s.len() == 0 {
        0
    } else {
        bytes_with(s.drop_last(), hash, key) + if s.last().key_hash == hash && s.last().key_bytes
            == key {
            s.last().bytes as nat
        } else {
            0
        }
    }
}

/// The failed inserts of all entries together.
pub open spec fn all_failed(s: Seq<EntryView>) -> nat
    decreases s.len(),
{
    if s.len() == 0 {
        0
    } else {
        all_failed(s.drop_last()) + s.last().insert_failed as nat
    }
}

/// The full tables of all entries together.
pub open spec fn all_full(s: Seq<EntryView>) -> nat
    decreases s.len(),
{
    if s.len() == 0 {
        0
    } else {
        all_full(s.drop_last()) + s.last().table_full as nat
    }
}

proof fn totals_with(s: Seq<EntryView>, e: EntryView)
    ensures
        total(s, e, packets_of()) == packets_with(s, e.key_hash, e.key_bytes),
        total(s, e, bytes_of()) == bytes_with(s, e.key_hash, e.key_bytes),
    decreases s.len(),
{
    if s.len() > 0 {
        totals_with(s.drop_last(), e);
    }
}

/// Some entry of the key of `m[j]` was updated when `m[j]` was.
spec fn attained(m: Seq<EntryView>, s: Seq<EntryView>, j: int) -> bool {
    exists|i: int|
        0 <= i < s.len() && same_key(#[trigger] s[i], m[j]) && s[i].last_update
            == m[j].last_update
}

proof fn latest_attained(s: Seq<EntryView>, j: int)
    requires
        0 <= j < merged(s).len(),
    ensures
        attained(merged(s), s, j),
    decreases s.len(),
{
    let front = s.drop_last();
    let e = s.last();
    let m = merged(front);
    let r = merged(s);
    let k = position(m, e) as int;
    merged_with_keys(m, e);
    position_first(m, e);
    let n = s.len() - 1;
    if j < m.len() {
        latest_attained(front, j);
        let i = choose|i: int|
            0 <= i < front.len() && same_key(#[trigger] front[i], m[j]) && front[i].last_update
                == m[j].last_update;
        assert(s[i] == front[i]);
        assert(same_key(r[j], m[j]));
        if r[j].last_update != m[j].last_update {
            assert(j == k);
            assert(same_key(s[n], r[j]));
        } else {
            assert(same_key(s[i], r[j]));
        }
    } else {
        assert(same_key(s[n], r[j]));
    }
}

proof fn failed_after_update(m: Seq<EntryView>, k: int, x: EntryView, e: EntryView, n: nat)
    requires
        0 <= k < m.len(),
        n <= m.len(),
        x.insert_failed == sat_sum(m[k].insert_failed, e.insert_failed),
        x.table_full == sat_sum(m[k].table_full, e.table_full),
    ensures
        failed_in(m.update(k, x), n) == (if k < n {
            sat_sum(failed_in(m, n), e.insert_failed)
        } else {
            failed_in(m, n)
        }),
        full_in(m.update(k, x), n) == (if k < n {
            sat_sum(full_in(m, n), e.table_full)
        } else {
            full_in(m, n)
        }),
    decreases n,
{
    if n > 0 {
        failed_after_update(m, k, x, e, (n - 1) as nat);
    }
}

proof fn failed_of_push(m: Seq<EntryView>, e: EntryView, n: nat)
    requires
        n <= m.len(),
    ensures
        failed_in(m.push(e), n) == failed_in(m, n),
        full_in(m.push(e), n) == full_in(m, n),
    decreases n,
{
    if n > 0 {
        failed_of_push(m, e, (n - 1) as nat);
    }
}

proof fn failures_add_up(s: Seq<EntryView>)
    ensures
        failed_in(merged(s), merged(s).len()) == clamped(all_failed(s)),
        full_in(merged(s), merged(s).len()) == clamped(all_full(s)),
    decreases s.len(),
{
    if s.len() > 0 {
        let front = s.drop_last();
        let e = s.last();
        let m = merged(front);
        failures_add_up(front);
        position_first(m, e);
        let k = position(m, e) as int;
        if k < m.len() {
            failed_after_update(m, k, combined(m[k], e), e, m.len());
        } else {
            failed_of_push(m, e, m.len());
        }
    }
}

/// Whether a number is the latest time at which an entry with this hash and key was updated.
pub open spec fn is_latest(t: u64, s: Seq<EntryView>, hash: u64, key: Seq<u8>) -> bool {
    &&& exists|i: int|
        0 <= i < s.len() && (#[trigger] s[i]).key_hash == hash && s[i].key_bytes == key
            && s[i].last_update == t
    &&& forall|i: int|
        0 <= i < s.len() && (#[trigger] s[i]).key_hash == hash && s[i].key_bytes == key
            ==> s[i].last_update <= t
}

/// A slot of a descriptor tells of all entries that the workers had for its key: their packets
/// together, their bytes together, as far as these can be counted, and the latest time at which one
/// of them was updated. It is marked as in use.
pub proof fn slots_tell_sums(id: FlowRuleId, entries: Seq<EntryView>, i: int)
    requires
        0 <= i < descriptor_of(id, entries).slots.len(),
        merged(entries)[i].key_bytes.len() <= u16::MAX,
        arena(merged(entries), merged(entries).len()).len() <= u32::MAX,
    ensures
        ({
            let d = descriptor_of(id, entries);
            let slot = d.slots[i];
            let key = d.key_arena.subrange(
                slot.key_offset as int,
                slot.key_offset + slot.key_len,
            );
            let packets = packets_with(entries, slot.key_hash, key);
            let bytes = bytes_with(entries, slot.key_hash, key);
            &&& slot.packets == if packets <= u64::MAX {
                packets as int
            } else {
                u64::MAX as int
            }
            &&& slot.bytes == if bytes <= u64::MAX {
                bytes as int
            } else {
                u64::MAX as int
            }
            &&& is_latest(slot.last_update, entries, slot.key_hash, key)
            &&& slot.flags == 1
        }),
{
    let m = merged(entries);
    let d = descriptor_of(id, entries);
    slots_lead_to_keys(id, entries, i);
    merged_is_faithful(entries);
    totals_with(entries, m[i]);
    latest_attained(entries, i);
    assert(m[i].packets == clamped(total(entries, m[i], packets_of())));
    let t = m[i].last_update;
    let hash = m[i].key_hash;
    let key = m[i].key_bytes;
    let w = choose|j: int|
        0 <= j < entries.len() && same_key(#[trigger] entries[j], m[i]) && entries[j].last_update
            == t;
    assert(entries[w].key_hash == hash && entries[w].key_bytes == key);
    assert forall|j: int|
        0 <= j < entries.len() && (#[trigger] entries[j]).key_hash == hash && entries[j].key_bytes
            == key implies entries[j].last_update <= t by {
        assert(same_key(entries[j], m[i]));
        assert(entries[j].last_update <= m[i].last_update);
    }
}

/// Every entry that a worker had is told of by exactly one slot.
pub proof fn every_entry_has_one_slot(id: FlowRuleId, entries: Seq<EntryView>, e: int)
    requires
        0 <= e < entries.len(),
        arena(merged(entries), merged(entries).len()).len() <= u32::MAX,
        forall|i: int|
            0 <= i < merged(entries).len() ==> (#[trigger] merged(entries)[i]).key_bytes.len()
                <= u16::MAX,
    ensures
        ({
            let d = descriptor_of(id, entries);
            let of_entry = |i: int|
                d.slots[i].key_hash == entries[e].key_hash && key_at(d, d.slots[i])
                    == entries[e].key_bytes;
            &&& exists|i: int| 0 <= i < d.slots.len() && #[trigger] of_entry(i)
            &&& forall|i: int, j: int|
                0 <= i < d.slots.len() && 0 <= j < d.slots.len() && #[trigger] of_entry(i)
                    && #[trigger] of_entry(j) ==> i == j
        }),
{
    let m = merged(entries);
    let d = descriptor_of(id, entries);
    let of_entry = |i: int|
        d.slots[i].key_hash == entries[e].key_hash && key_at(d, d.slots[i])
            == entries[e].key_bytes;
    merged_is_faithful(entries);
    position_first(m, entries[e]);
    assert forall|i: int| 0 <= i < m.len() implies key_at(d, #[trigger] d.slots[i])
        == m[i].key_bytes && d.slots[i].key_hash == m[i].key_hash by {
        slots_lead_to_keys(id, entries, i);
    }
    let k = position(m, entries[e]) as int;
    assert(position(m, entries[e]) < m.len());
    assert(d.slots[k].key_hash == m[k].key_hash);
    assert(of_entry(k));
    assert forall|i: int, j: int|
        0 <= i < d.slots.len() && 0 <= j < d.slots.len() && #[trigger] of_entry(i)
            && #[trigger] of_entry(j) implies i == j by {
        assert(d.slots[i].key_hash == m[i].key_hash);
        assert(d.slots[j].key_hash == m[j].key_hash);
        if i < j {
            assert(!same_key(m[i], m[j]));
        } else if j < i {
            assert(!same_key(m[j], m[i]));
        }
    }
}

/// A descriptor is that of its rule and of the generation and epoch that the entries were read in,
/// and it counts the failures that all entries tell of together, as far as these can be counted.
pub proof fn descriptors_tell_failures(id: FlowRuleId, entries: Seq<EntryView>)
    requires
        entries.len() > 0,
    ensures
        ({
            let d = descriptor_of(id, entries);
            &&& d.flow_rule_id == id
            &&& d.generation == entries[0].generation
            &&& d.epoch_ns == entries[0].epoch_ns
            &&& d.insert_failed == if all_failed(entries) <= u64::MAX {
                all_failed(entries) as int
            } else {
                u64::MAX as int
            }
            &&& d.table_full == if all_full(entries) <= u64::MAX {
                all_full(entries) as int
            } else {
                u64::MAX as int
            }
        }),
{
    failures_add_up(entries);
}

/// A snapshot holds a descriptor for each rule that was read without failure and has entries, in
/// the order of the rules, and no other.
pub proof fn snapshots_hold_rules_with_entries(dumps: Seq<RuleDump>, n: nat)
    requires
        n <= dumps.len(),
    ensures
        descriptors_of(dumps, n) == dumps.take(n as int).filter(
            |d: RuleDump| d.rv == 0 && d.entries@.len() > 0,
        ).map_values(|d: RuleDump| descriptor_of(d.id, entry_views(d.entries@))),
    decreases n,
{
    let keep = |d: RuleDump| d.rv == 0 && d.entries@.len() > 0;
    let f = |d: RuleDump| descriptor_of(d.id, entry_views(d.entries@));
    reveal(Seq::filter);
    if n > 0 {
        snapshots_hold_rules_with_entries(dumps, (n - 1) as nat);
        assert(dumps.take(n as int).drop_last() =~= dumps.take(n - 1));
        let before = dumps.take(n - 1).filter(keep);
        if keep(dumps[n - 1]) {
            assert(before.push(dumps[n - 1]).map_values(f) =~= before.map_values(f).push(
                f(dumps[n - 1]),
            ));
        }
    } else {
        assert(dumps.take(0).filter(keep) =~= Seq::<RuleDump>::empty());
        assert(Seq::<RuleDump>::empty().map_values(f) =~= Seq::<RawDescriptorView>::empty());
    }
}

/// The view of an entry tells it field by field.
pub proof fn entry_is_told_by_field(e: CollectedEntry)
    ensures
        e@.flow_rule_id_hi == e.flow_rule_id_hi,
        e@.flow_rule_id_lo == e.flow_rule_id_lo,
        e@.generation == e.generation,
        e@.epoch_ns == e.epoch_ns,
        e@.insert_failed == e.insert_failed,
        e@.table_full == e.table_full,
        e@.key_hash == e.key_hash,
        e@.packets == e.packets,
        e@.bytes == e.bytes,
        e@.last_update == e.last_update,
        e@.key_bytes == e.key_bytes@,
{
}

/// What failed in the backend is told apart, with the reason in full where there is one.
pub proof fn errors_tell_their_reason(e: VapiError<Seq<char>>)
    ensures
        e is ConnectFailed ==> e.text() == "failed to connect to VPP API"@,
        e is ListFailed ==> e.text() == "list_flow_rules failed"@,
        e matches VapiError::SnapshotFailed(s) ==> e.text()[0] == 's' && e.text().skip(29) == s,
        e matches VapiError::FlowRuleFailed(s) ==> e.text()[0] == 'f' && e.text().skip(28) == s,
{
    reveal_strlit("snapshot_inline_dump failed: ");
    reveal_strlit("flow rule operation failed: ");
}

} // verus!
