//! From the flow tables of the backend to snapshots.

use infmon::duration::Duration;
use infmon::frontend::poller::{
    clock_ns, decode_flows, decode_snapshot, merge_slots, next_slice, PollAction, PollEvent,
    Poller, PollerConfig, Reading,
};
use infmon::frontend::vapi_control_client::{
    eviction_code, field_bytes, field_to_u8, flow_rule_added, flow_rule_deleted,
};
use infmon::frontend::vapi_stats_client::{
    collect_descriptor, listed, merge_worker_entries, snapshot_and_clear, CollectedEntry, RuleDump,
    VapiError,
};
use infmon::config::model::{EvictionPolicy, Field};
use infmon::ipc::stats_client::{RawDescriptor, RawSlot, RawSnapshot};
use infmon::ipc::types::{FieldId, FieldValue, FlowRuleId};

fn empty() -> RawSnapshot {
    RawSnapshot { descriptors: Vec::new() }
}

#[test]
fn poller_tests_decode_empty_raw_snapshot() {
    let raw = empty();
    let snap = decode_snapshot(raw, 1, 1000, 2000, 0);
    assert_eq!(snap.tick_id, 1);
    assert_eq!(snap.interval_ns, 0); // first tick
    assert!(snap.flow_rules.is_empty());
}

#[test]
fn poller_tests_decode_second_tick_has_interval() {
    let raw = empty();
    let snap = decode_snapshot(raw, 2, 1000, 3_000_000_000, 2_000_000_000);
    assert_eq!(snap.tick_id, 2);
    assert_eq!(snap.interval_ns, 1_000_000_000);
}

#[test]
fn poller_decode_empty_raw_snapshot() {
    let raw = RawSnapshot { descriptors: Vec::new() };
    let snap = decode_snapshot(raw, 1, 1000, 2000, 0);
    assert_eq!(snap.tick_id, 1);
    assert_eq!(snap.interval_ns, 0); // first tick
    assert!(snap.flow_rules.is_empty());
}

#[test]
fn poller_decode_second_tick_has_interval() {
    let raw = RawSnapshot { descriptors: Vec::new() };
    let snap = decode_snapshot(raw, 2, 1000, 3_000_000_000, 2_000_000_000);
    assert_eq!(snap.tick_id, 2);
    assert_eq!(snap.interval_ns, 1_000_000_000);
}

#[test]
fn poller_config_default() {
    let cfg = PollerConfig::default();
    assert_eq!(cfg.stats_socket, "/run/vpp/stats.sock");
    assert_eq!(cfg.interval, Duration::from_millis(1000));
}

#[test]
fn decode_snapshot_with_descriptor_but_no_slots() {
    let raw = RawSnapshot {
        descriptors: vec![RawDescriptor {
            flow_rule_id: FlowRuleId { hi: 1, lo: 2 },
            flow_rule_index: 0,
            generation: 1,
            epoch_ns: 0,
            slots: vec![],
            key_arena: vec![],
            insert_failed: 5,
            table_full: 0,
        }],
    };
    let snap = decode_snapshot(raw, 3, 1000, 3000, 2000);
    assert_eq!(snap.tick_id, 3);
    assert_eq!(snap.interval_ns, 1000); // 3000 - 2000
    assert_eq!(snap.flow_rules.len(), 1);
    assert!(snap.flow_rules[0].flows.is_empty());
    assert_eq!(snap.flow_rules[0].counters.drops, 5);
}

#[test]
fn decode_snapshot_skips_zero_key_len_slots() {
    let raw = RawSnapshot {
        descriptors: vec![RawDescriptor {
            flow_rule_id: FlowRuleId { hi: 0, lo: 1 },
            flow_rule_index: 0,
            generation: 1,
            epoch_ns: 0,
            slots: vec![RawSlot {
                key_hash: 0,
                packets: 100,
                bytes: 5000,
                key_offset: 0,
                key_len: 0, // should be filtered out
                flags: 0,
                last_update: 0,
            }],
            key_arena: vec![],
            insert_failed: 0,
            table_full: 0,
        }],
    };
    let snap = decode_snapshot(raw, 1, 0, 0, 0);
    assert!(snap.flow_rules[0].flows.is_empty());
}

#[test]
fn decode_snapshot_skips_out_of_bounds_key() {
    let raw = RawSnapshot {
        descriptors: vec![RawDescriptor {
            flow_rule_id: FlowRuleId { hi: 0, lo: 1 },
            flow_rule_index: 0,
            generation: 1,
            epoch_ns: 0,
            slots: vec![RawSlot {
                key_hash: 123,
                packets: 10,
                bytes: 500,
                key_offset: 100, // out of bounds
                key_len: 10,
                flags: 0,
                last_update: 0,
            }],
            key_arena: vec![0u8; 4], // too small
            insert_failed: 0,
            table_full: 0,
        }],
    };
    let snap = decode_snapshot(raw, 1, 0, 0, 0);
    assert!(snap.flow_rules[0].flows.is_empty());
}

fn slot(key_offset: u32, key_len: u16, packets: u64, last_update: u64) -> RawSlot {
    RawSlot {
        key_hash: 0,
        packets,
        bytes: packets * 10,
        key_offset,
        key_len,
        flags: 1,
        last_update,
    }
}

#[test]
fn slots_of_one_key_are_merged() {
    let desc = RawDescriptor {
        flow_rule_id: FlowRuleId { hi: 0, lo: 1 },
        flow_rule_index: 0,
        generation: 1,
        epoch_ns: 0,
        slots: vec![slot(0, 1, 1, 5), slot(1, 1, 2, 9), slot(2, 1, 4, 3), slot(3, 1, 8, 1)],
        key_arena: vec![6, 17, 6],
        insert_failed: 0,
        table_full: 0,
    };
    let merged = merge_slots(&desc);
    assert_eq!(merged.len(), 2);
    assert_eq!(merged[0].key, vec![6]);
    assert_eq!((merged[0].packets, merged[0].bytes, merged[0].last_update), (5, 50, 5));
    assert_eq!(merged[1].key, vec![17]);
    let flows = decode_flows(&vec![FieldId::IpProto], &merged);
    assert_eq!(flows.len(), 2);
    assert_eq!(flows[1].key, vec![FieldValue::Proto(17)]);
    assert_eq!(flows[0].counters.last_seen_ns, 5);
    assert!(decode_flows(&vec![FieldId::SrcIp], &merged).is_empty());
}

#[test]
fn clocks_count_nanoseconds() {
    assert_eq!(clock_ns(3, 4), 3_000_000_004);
}

// ---- the loop

fn reading(mono: u64) -> Reading {
    Reading { raw: empty(), wall: 1, mono }
}

#[test]
fn loop_connects_reads_and_rests() {
    let mut p = Poller::new(Duration::from_millis(100));
    assert!(matches!(p.step(PollEvent::Tick { stop: false, now: 0 }), PollAction::Connect));
    match p.step(PollEvent::Connected(false)) {
        PollAction::Sleep(d) => assert_eq!(d, Duration::from_millis(100)),
        other => panic!("{other:?}"),
    }
    assert!(matches!(p.step(PollEvent::Tick { stop: false, now: 0 }), PollAction::Connect));
    match p.step(PollEvent::Connected(false)) {
        PollAction::Sleep(d) => assert_eq!(d, Duration::from_millis(200)),
        other => panic!("{other:?}"),
    }
    assert!(matches!(p.step(PollEvent::Tick { stop: false, now: 7 }), PollAction::Connect));
    assert!(matches!(p.step(PollEvent::Connected(true)), PollAction::Read));
    match p.step(PollEvent::Read(Some(reading(1_000)))) {
        PollAction::Deliver(s) => assert_eq!((s.tick_id, s.interval_ns), (1, 0)),
        other => panic!("{other:?}"),
    }
    assert!(matches!(p.step(PollEvent::Waiting(2)), PollAction::Pull));
    match p.step(PollEvent::Pulled(Some(reading(1_500)))) {
        PollAction::Answer(s) => assert_eq!((s.tick_id, s.interval_ns), (2, 500)),
        other => panic!("{other:?}"),
    }
    match p.step(PollEvent::Done { now: 30_000_007 }) {
        PollAction::Sleep(d) => assert_eq!(d, Duration::from_millis(70)),
        other => panic!("{other:?}"),
    }
    assert!(matches!(p.step(PollEvent::Tick { stop: false, now: 0 }), PollAction::Read));
    assert!(matches!(p.step(PollEvent::Read(None)), PollAction::Again));
    assert!(matches!(p.step(PollEvent::Tick { stop: false, now: 0 }), PollAction::Connect));
    assert!(matches!(p.step(PollEvent::Connected(true)), PollAction::Read));
    match p.step(PollEvent::Read(Some(reading(9_000)))) {
        PollAction::Deliver(s) => assert_eq!((s.tick_id, s.interval_ns), (3, 0)),
        other => panic!("{other:?}"),
    }
    assert!(matches!(p.step(PollEvent::Waiting(0)), PollAction::LookAtClock));
    assert!(matches!(p.step(PollEvent::Done { now: 200_000_000 }), PollAction::Again));
    assert!(matches!(p.step(PollEvent::Tick { stop: true, now: 0 }), PollAction::Stop));
}

#[test]
fn sleeps_come_in_slices() {
    let ms = |n: u64| Duration::from_millis(n);
    assert_eq!(next_slice(ms(120)), Some((ms(50), ms(70))));
    assert_eq!(next_slice(ms(50)), Some((ms(50), ms(0))));
    assert_eq!(next_slice(ms(20)), Some((ms(20), ms(0))));
    assert_eq!(next_slice(ms(0)), None);
}

// ---- entries of several workers

fn make_entry(
    key: &[u8],
    key_hash: u64,
    packets: u64,
    bytes: u64,
    last_update: u64,
) -> CollectedEntry {
    CollectedEntry {
        flow_rule_id_hi: 1,
        flow_rule_id_lo: 2,
        generation: 1,
        epoch_ns: 0,
        insert_failed: 0,
        table_full: 0,
        key_hash,
        packets,
        bytes,
        last_update,
        key_bytes: key.to_vec(),
    }
}

#[test]
fn merge_no_duplicates() {
    let entries = vec![
        make_entry(&[1, 2, 3, 4], 0xAABB, 100, 5000, 1000),
        make_entry(&[5, 6, 7, 8], 0xCCDD, 200, 8000, 2000),
    ];
    let merged = merge_worker_entries(&entries);
    assert_eq!(merged.len(), 2);
    assert_eq!(merged[0].packets, 100);
    assert_eq!(merged[1].packets, 200);
}

#[test]
fn merge_two_workers_same_key() {
    let entries = vec![
        make_entry(&[1, 2, 3, 4], 0xAABB, 100, 5000, 1000),
        make_entry(&[1, 2, 3, 4], 0xAABB, 50, 2500, 2000),
    ];
    let merged = merge_worker_entries(&entries);
    assert_eq!(merged.len(), 1);
    assert_eq!(merged[0].packets, 150);
    assert_eq!(merged[0].bytes, 7500);
    assert_eq!(merged[0].last_update, 2000);
}

#[test]
fn merge_three_workers_same_key() {
    let entries = vec![
        make_entry(&[10], 0x11, 10, 100, 500),
        make_entry(&[10], 0x11, 20, 200, 300),
        make_entry(&[10], 0x11, 30, 300, 800),
    ];
    let merged = merge_worker_entries(&entries);
    assert_eq!(merged.len(), 1);
    assert_eq!(merged[0].packets, 60);
    assert_eq!(merged[0].bytes, 600);
    assert_eq!(merged[0].last_update, 800);
}

#[test]
fn merge_mixed_unique_and_duplicate() {
    let entries = vec![
        make_entry(&[1], 0xAA, 10, 100, 100),
        make_entry(&[2], 0xBB, 20, 200, 200),
        make_entry(&[1], 0xAA, 30, 300, 300), // dup of first
    ];
    let merged = merge_worker_entries(&entries);
    assert_eq!(merged.len(), 2);
    assert_eq!(merged[0].packets, 40); // 10 + 30
    assert_eq!(merged[0].bytes, 400);
    assert_eq!(merged[0].last_update, 300);
    assert_eq!(merged[1].packets, 20);
}

#[test]
fn merge_same_hash_different_key_not_merged() {
    // Hash collision: same hash but different key bytes
    let entries = vec![
        make_entry(&[1, 2], 0xAAAA, 10, 100, 100),
        make_entry(&[3, 4], 0xAAAA, 20, 200, 200),
    ];
    let merged = merge_worker_entries(&entries);
    assert_eq!(merged.len(), 2);
}

#[test]
fn merge_empty() {
    let merged = merge_worker_entries(&vec![]);
    assert!(merged.is_empty());
}

#[test]
fn merge_saturating_add() {
    let entries = vec![
        make_entry(&[1], 0xAA, u64::MAX - 10, u64::MAX, 100),
        make_entry(&[1], 0xAA, 20, 500, 200),
    ];
    let merged = merge_worker_entries(&entries);
    assert_eq!(merged[0].packets, u64::MAX); // saturating
    assert_eq!(merged[0].bytes, u64::MAX);
}

#[test]
fn merging_twice_changes_nothing() {
    let entries = vec![
        make_entry(&[1], 0xAA, 1, 10, 100),
        make_entry(&[2], 0xAA, 2, 20, 200),
        make_entry(&[1], 0xAA, 4, 40, 300),
    ];
    let once = merge_worker_entries(&entries);
    let twice = merge_worker_entries(&once);
    assert_eq!(once, twice);
}

#[test]
fn descriptors_hold_the_keys_of_their_slots() {
    let id = FlowRuleId { hi: 1, lo: 2 };
    let entries = vec![
        make_entry(&[1, 2], 0xAA, 1, 10, 100),
        make_entry(&[3, 4, 5], 0xBB, 2, 20, 200),
        make_entry(&[1, 2], 0xAA, 4, 40, 300),
    ];
    let d = collect_descriptor(id, &entries).unwrap();
    assert_eq!(d.flow_rule_id, id);
    assert_eq!(d.key_arena, vec![1, 2, 3, 4, 5]);
    assert_eq!(d.slots.len(), 2);
    assert_eq!((d.slots[1].key_offset, d.slots[1].key_len), (2, 3));
    assert_eq!(d.slots[0].packets, 5);
    assert_eq!(d.slots[0].flags, 1);
    let read = merge_slots(&d);
    let keys: Vec<Vec<u8>> = read.into_iter().map(|m| m.key).collect();
    let packed: Vec<Vec<u8>> =
        merge_worker_entries(&entries).into_iter().map(|e| e.key_bytes).collect();
    assert_eq!(keys, packed);
    assert!(collect_descriptor(id, &vec![]).is_none());
}

#[test]
fn snapshots_leave_out_rules_that_failed() {
    let dump = |lo: u64, rv: i32, n: usize| RuleDump {
        id: FlowRuleId { hi: 0, lo },
        rv,
        entries: (0..n).map(|i| make_entry(&[i as u8], 0, 1, 1, 1)).collect(),
    };
    let snap = snapshot_and_clear(&vec![dump(1, 0, 2), dump(2, -1, 2), dump(3, 0, 0), dump(4, 0, 1)]);
    let ids: Vec<u64> = snap.descriptors.iter().map(|d| d.flow_rule_id.lo).collect();
    assert_eq!(ids, vec![1, 4]);
}

// ---- calls to the backend

#[test]
fn backend_calls() {
    let id = FlowRuleId { hi: 3, lo: 4 };
    assert_eq!(flow_rule_added(0, 3, 4), Ok(id));
    assert_eq!(
        flow_rule_added(-2, 3, 4).unwrap_err().message(),
        "flow rule operation failed: flow_rule_add failed (rv=-2)"
    );
    assert_eq!(flow_rule_deleted(0), Ok(()));
    assert_eq!(
        flow_rule_deleted(1).unwrap_err().message(),
        "flow rule operation failed: flow_rule_del failed (rv=1)"
    );
    assert_eq!(listed(0, vec![id]), Ok(vec![id]));
    assert_eq!(listed(1, vec![id]), Err(VapiError::ListFailed));
    assert_eq!(VapiError::<String>::ListFailed.message(), "list_flow_rules failed");
    assert_eq!(VapiError::<String>::ConnectFailed.message(), "failed to connect to VPP API");
    assert_eq!(
        VapiError::SnapshotFailed("x".to_string()).message(),
        "snapshot_inline_dump failed: x"
    );
    assert_eq!(field_to_u8(Field::MirrorSrcIp), 4);
    assert_eq!(field_bytes(&vec![Field::DstIp, Field::DstPort]), vec![1, 6]);
    assert_eq!(eviction_code(EvictionPolicy::LruDrop), 0);
}
