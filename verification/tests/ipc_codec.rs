//! Identifiers, keys and the client side of the control socket.

use infmon::config::model::{EvictionPolicy, Field, FlowRule};
use infmon::duration::Duration;
use infmon::ipc::control_client::{
    field_to_field_id, message_line, rpc_error, rpc_ok, InFMonControlClient, RpcFailure,
};
use infmon::ipc::decode::{decode_ip, decode_key};
use infmon::ipc::error::{CtlError, IpcError};
use infmon::ipc::protocol::{
    ErrorData, FlowEntryData, FlowRuleCountersData, FlowRuleData, FlowRuleDetailData,
    FlowRuleIdData, FlowRuleListData, FlowRuleStatsData, Request, Response, ResponseData,
    StatsPullData, StatsShowData,
};
use infmon::ipc::types::{FieldId, FieldValue, FlowRuleId};
use infmon::net::{render_ip, show_ip, IpAddr};

fn v4(a: u8, b: u8, c: u8, d: u8) -> IpAddr {
    IpAddr::V4(u32::from_be_bytes([a, b, c, d]))
}

fn v6(groups: [u16; 8]) -> u128 {
    groups.iter().fold(0u128, |n, g| (n << 16) | *g as u128)
}

// ---- identifiers

#[test]
fn flow_rule_id_display_parse_roundtrip() {
    let id = FlowRuleId {
        hi: 0x0123456789abcdef,
        lo: 0xfedcba9876543210,
    };
    let s = id.to_text();
    assert_eq!(s, "0123456789abcdef-fedcba9876543210");
    let parsed: FlowRuleId = s.parse().unwrap();
    assert_eq!(parsed, id);
}

#[test]
fn flow_rule_id_parse_invalid() {
    assert!("not-a-valid-id".parse::<FlowRuleId>().is_err());
    assert!("nodashatall".parse::<FlowRuleId>().is_err());
}

#[test]
fn id_parse_errors() {
    assert_eq!(
        FlowRuleId::parse("nodashatall").unwrap_err(),
        "invalid FlowRuleId: missing '-' in 'nodashatall'"
    );
    assert_eq!(
        FlowRuleId::parse("-1").unwrap_err(),
        "invalid FlowRuleId hi: cannot parse integer from empty string"
    );
    assert_eq!(
        FlowRuleId::parse("1-xyz").unwrap_err(),
        "invalid FlowRuleId lo: invalid digit found in string"
    );
    assert_eq!(
        FlowRuleId::parse("1-10000000000000000").unwrap_err(),
        "invalid FlowRuleId lo: number too large to fit in target type"
    );
    assert_eq!(FlowRuleId::parse("1-F").unwrap(), FlowRuleId { hi: 1, lo: 15 });
}

// ---- keys

#[test]
fn decode_tests_decode_ipv4_mapped() {
    let mut bytes = [0u8; 16];
    bytes[10] = 0xff;
    bytes[11] = 0xff;
    bytes[12] = 192;
    bytes[13] = 168;
    bytes[14] = 1;
    bytes[15] = 1;
    assert_eq!(decode_ip(bytes), v4(192, 168, 1, 1));
}

#[test]
fn decode_tests_decode_ipv6() {
    let addr = v6([0x2001, 0xdb8, 0, 0, 0, 0, 0, 1]);
    let bytes: [u8; 16] = addr.to_be_bytes();
    assert_eq!(decode_ip(bytes), IpAddr::V6(addr));
}

#[test]
fn decode_tests_decode_key_multiple_fields() {
    let fields = vec![FieldId::SrcIp, FieldId::IpProto, FieldId::Dscp];
    let mut key = vec![0u8; 18];
    key[10] = 0xff;
    key[11] = 0xff;
    key[12] = 10;
    key[15] = 1;
    key[16] = 6;
    key[17] = 46;

    let values = decode_key(&fields, &key).unwrap();
    assert_eq!(values.len(), 3);
    assert_eq!(values[0], FieldValue::Ip(v4(10, 0, 0, 1)));
    assert_eq!(values[1], FieldValue::Proto(6));
    assert_eq!(values[2], FieldValue::Dscp(46));
}

#[test]
fn decode_tests_decode_key_too_short() {
    let fields = vec![FieldId::SrcIp];
    let key = vec![0u8; 10];
    assert!(decode_key(&fields, &key).is_err());
}

#[test]
fn decode_tests_decode_key_trailing_bytes() {
    let fields = vec![FieldId::IpProto];
    let key = vec![6, 0]; // 1 byte for proto + 1 trailing byte
    let err = decode_key(&fields, &key).unwrap_err();
    assert!(err.message().contains("trailing bytes"));
}

#[test]
fn decode_decode_ipv4_mapped() {
    let mut bytes = [0u8; 16];
    bytes[10] = 0xff;
    bytes[11] = 0xff;
    bytes[12] = 192;
    bytes[13] = 168;
    bytes[14] = 1;
    bytes[15] = 1;
    assert_eq!(decode_ip(bytes), v4(192, 168, 1, 1));
}

#[test]
fn decode_decode_ipv6() {
    let addr = v6([0x2001, 0xdb8, 0, 0, 0, 0, 0, 1]);
    let bytes: [u8; 16] = addr.to_be_bytes();
    assert_eq!(decode_ip(bytes), IpAddr::V6(addr));
}

#[test]
fn decode_decode_key_multiple_fields() {
    let fields = vec![FieldId::SrcIp, FieldId::IpProto, FieldId::Dscp];
    let mut key = vec![0u8; 18];
    key[10] = 0xff;
    key[11] = 0xff;
    key[12] = 10;
    key[15] = 1;
    key[16] = 6;
    key[17] = 46;

    let values = decode_key(&fields, &key).unwrap();
    assert_eq!(values.len(), 3);
    assert_eq!(values[0], FieldValue::Ip(v4(10, 0, 0, 1)));
    assert_eq!(values[1], FieldValue::Proto(6));
    assert_eq!(values[2], FieldValue::Dscp(46));
}

#[test]
fn decode_decode_key_too_short() {
    let fields = vec![FieldId::SrcIp];
    let key = vec![0u8; 10];
    assert!(decode_key(&fields, &key).is_err());
}

#[test]
fn decode_decode_key_trailing_bytes() {
    let fields = vec![FieldId::IpProto];
    let key = vec![6, 0]; // 1 byte for proto + 1 trailing byte
    let err = decode_key(&fields, &key).unwrap_err();
    assert!(err.message().contains("trailing bytes"));
}

#[test]
fn key_errors_tell_where() {
    let message = |fields: &Vec<FieldId>, key: &[u8]| decode_key(fields, key).unwrap_err().message();
    assert_eq!(
        message(&vec![FieldId::Dscp, FieldId::DstIp], &[1, 2, 3]),
        "invalid stats segment data: key too short for DstIp at offset 1: need 16 bytes, have 2"
    );
    assert_eq!(
        message(&vec![FieldId::Dscp, FieldId::SrcPort], &[1, 2]),
        "invalid stats segment data: key too short for SrcPort at offset 1: need 2 bytes, have 1"
    );
    assert_eq!(
        message(&vec![FieldId::Dscp, FieldId::IpProto], &[1]),
        "invalid stats segment data: key too short for IpProto at offset 1"
    );
    assert_eq!(
        message(&vec![FieldId::Dscp], &[]),
        "invalid stats segment data: key too short for Dscp at offset 0"
    );
    assert_eq!(
        decode_key(&vec![], &[1, 2]).unwrap_err(),
        IpcError::StatsFormat("key has 2 trailing bytes".to_string())
    );
    assert_eq!(
        decode_key(&vec![FieldId::DstPort], &[0x1f, 0x90]).unwrap(),
        vec![FieldValue::Port(8080)]
    );
}

#[test]
fn keys_decode_exactly_at_their_length() {
    let fields = vec![FieldId::SrcPort, FieldId::Dscp];
    for n in 0..6usize {
        let key = vec![0u8; n];
        assert_eq!(decode_key(&fields, &key).is_ok(), n == 3);
    }
}

// ---- addresses

#[test]
fn render_ip_v4() {
    let addr = v4(192, 168, 1, 1);
    assert_eq!(render_ip(&addr), "192.168.1.1");
}

#[test]
fn render_ip_v6() {
    let addr = IpAddr::V6(v6([0x2001, 0xdb8, 0, 0, 0, 0, 0, 1]));
    assert_eq!(render_ip(&addr), "2001:db8::1");
}

#[test]
fn render_ip_v4_mapped_v6() {
    let addr = IpAddr::V6(v6([0, 0, 0, 0, 0, 0xffff, 0xc0a8, 0x0101]));
    assert_eq!(render_ip(&addr), "192.168.1.1");
}

#[test]
fn addresses_are_shown_in_their_shortest_form() {
    let samples: [([u16; 8], &str); 15] = [
        ([0, 0, 0, 0, 0, 0, 0, 0], "::"),
        ([0, 0, 0, 0, 0, 0, 0, 1], "::1"),
        ([0, 0, 0, 0, 0, 0, 1, 0], "::1:0"),
        ([0, 0, 0, 0, 0, 0xffff, 0x0102, 0x0304], "::ffff:1.2.3.4"),
        ([0, 0, 0, 0, 0, 0xfffe, 0x0102, 0x0304], "::fffe:102:304"),
        ([0x8000, 0, 0, 0, 0, 0, 0, 0], "8000::"),
        (
            [0xffff; 8],
            "ffff:ffff:ffff:ffff:ffff:ffff:ffff:ffff",
        ),
        ([0x2001, 0xdb8, 0, 0, 0, 0, 0, 1], "2001:db8::1"),
        ([0x2001, 0xdb8, 0, 1, 1, 1, 1, 1], "2001:db8:0:1:1:1:1:1"),
        ([0x2001, 0, 0, 1, 0, 0, 0, 1], "2001:0:0:1::1"),
        ([0, 0, 1, 0, 0, 0, 1, 0], "0:0:1::1:0"),
        ([1, 0, 0, 0, 1, 0, 0, 0], "1::1:0:0:0"),
        ([1, 2, 3, 4, 5, 6, 7, 8], "1:2:3:4:5:6:7:8"),
        ([1, 2, 3, 4, 5, 6, 0, 0], "1:2:3:4:5:6::"),
        ([0, 0, 3, 4, 5, 6, 0, 0], "::3:4:5:6:0:0"),
    ];
    for (groups, shown) in samples {
        assert_eq!(show_ip(&IpAddr::V6(v6(groups))), shown);
    }
    let mapped = IpAddr::V6(v6([0, 0, 0, 0, 0, 0xffff, 0x0102, 0x0304]));
    assert_eq!(render_ip(&mapped), "1.2.3.4");
    assert_eq!(show_ip(&v4(0, 0, 0, 0)), "0.0.0.0");
    assert_eq!(show_ip(&v4(255, 255, 255, 255)), "255.255.255.255");
}

#[test]
fn values_are_labelled() {
    assert_eq!(FieldValue::Ip(v4(10, 0, 0, 1)).labelled_text(), "Ip(10.0.0.1)");
    assert_eq!(FieldValue::Proto(6).labelled_text(), "Proto(6)");
    assert_eq!(FieldValue::Dscp(46).labelled_text(), "Dscp(46)");
    assert_eq!(FieldValue::Port(443).labelled_text(), "Port(443)");
}

// ---- the client

#[test]
fn new_stores_path() {
    let client = InFMonControlClient::new("/tmp/test.sock");
    assert_eq!(client.path(), "/tmp/test.sock");
}

#[test]
fn connect_nonexistent_socket() {
    let result = InFMonControlClient::connect("/tmp/nonexistent.sock", false);
    assert!(matches!(result, Err(CtlError::Connect(_))));
}

#[test]
fn clients_wait_as_long_as_told() {
    assert_eq!(InFMonControlClient::new("/s").timeout(), Duration::from_secs(5));
    let c = InFMonControlClient::with_timeout("/s", Duration::from_millis(10));
    assert_eq!(c.timeout().as_millis(), 10);
    let c = InFMonControlClient::connect("/s", true).unwrap();
    assert_eq!(c.path(), "/s");
    assert_eq!(c.timeout(), Duration::from_secs(5));
}

fn rule() -> FlowRule {
    FlowRule {
        name: "ab".to_string(),
        fields: vec![Field::SrcIp, Field::DstPort],
        max_keys: 7,
        eviction_policy: EvictionPolicy::LruDrop,
    }
}

#[test]
fn calls_send_their_requests() {
    let c = InFMonControlClient::new("/s");
    match c.flow_rule_add(rule()) {
        Request::FlowRuleAdd(p) => {
            assert_eq!(p.name, "ab");
            assert_eq!(p.fields, vec![Field::SrcIp, Field::DstPort]);
            assert_eq!(p.max_keys, 7);
        }
        other => panic!("{other:?}"),
    }
    assert!(matches!(c.flow_rule_rm("ab"), Request::FlowRuleRm(p) if p.name == "ab"));
    assert!(matches!(c.flow_rule_list(), Request::FlowRuleList));
    assert!(matches!(c.flow_rule_show("ab"), Request::FlowRuleShow(p) if p.name == "ab"));
    assert!(matches!(c.stats_show(None), Request::StatsShow(p) if p.name.is_none()));
    assert!(
        matches!(c.stats_show(Some("x")), Request::StatsShow(p) if p.name.as_deref() == Some("x"))
    );
    assert!(matches!(c.stats_pull(), Request::StatsPull));
    let stub = CtlError::Request("not implemented (stub)".to_string());
    assert_eq!(c.reload().unwrap_err(), stub);
    assert_eq!(c.exporter_list().unwrap_err(), stub);
    assert_eq!(message_line("{}"), "{}\n");
}

#[test]
fn replies_are_read() {
    let id = Response::ok(ResponseData::FlowRuleId(FlowRuleIdData { id: "1-2".to_string() }));
    assert_eq!(
        InFMonControlClient::flow_rule_add_reply(id),
        Ok(FlowRuleId { hi: 1, lo: 2 })
    );
    let bad = Response::ok(ResponseData::FlowRuleId(FlowRuleIdData { id: "x".to_string() }));
    assert_eq!(
        InFMonControlClient::flow_rule_add_reply(bad).unwrap_err().message(),
        "protocol error: invalid FlowRuleId: invalid FlowRuleId: missing '-' in 'x'"
    );
    assert_eq!(
        InFMonControlClient::flow_rule_add_reply(Response::ok_empty()),
        Err(CtlError::Protocol("unexpected response data".to_string()))
    );
    assert_eq!(InFMonControlClient::flow_rule_rm_reply(Response::ok_empty()), Ok(()));
    let list = Response::ok(ResponseData::FlowRuleList(FlowRuleListData {
        rules: vec![FlowRuleData::of(&rule())],
    }));
    assert_eq!(InFMonControlClient::flow_rule_list_reply(list), Ok(vec![rule()]));
    assert!(InFMonControlClient::flow_rule_list_reply(Response::ok_empty()).is_err());
    let rows = || StatsShowData {
        flow_rules: vec![FlowRuleStatsData {
            name: "ab".to_string(),
            packets: 1,
            bytes: 2,
            evictions: 3,
            drops: 4,
            active_flows: 5,
        }],
    };
    let stats = Response::ok(ResponseData::StatsShow(rows()));
    let got = InFMonControlClient::stats_show_reply(stats).unwrap();
    assert_eq!(got.flow_rules[0].active_flows, 5);
    let pulled = Response::ok(ResponseData::StatsPull(StatsPullData {
        tick_id: 9,
        wall_clock_ns: 10,
        stats: rows(),
    }));
    let got = InFMonControlClient::stats_pull_reply(pulled).unwrap();
    assert_eq!((got.tick_id, got.wall_clock_ns), (9, 10));
    assert_eq!(got.stats.flow_rules[0].drops, 4);
    assert!(InFMonControlClient::stats_pull_reply(Response::ok_empty()).is_err());
    assert!(InFMonControlClient::stats_show_reply(Response::ok_empty()).is_err());
}

#[test]
fn details_lose_only_their_key_values() {
    let detail = Response::ok(ResponseData::FlowRuleDetail(FlowRuleDetailData {
        name: "ab".to_string(),
        fields: vec![Field::SrcIp, Field::Dscp],
        max_keys: 7,
        eviction_policy: EvictionPolicy::LruDrop,
        counters: FlowRuleCountersData { packets: 1, bytes: 2, evictions: 3, drops: 4 },
        flows: vec![FlowEntryData {
            key: vec!["Ip(10.0.0.1)".to_string(), "Dscp(1)".to_string()],
            packets: 5,
            bytes: 6,
            first_seen_ns: 7,
            last_seen_ns: 8,
        }],
    }));
    let s = InFMonControlClient::flow_rule_show_reply(detail).unwrap();
    assert_eq!(s.name, "ab");
    assert_eq!(s.fields, vec![FieldId::SrcIp, FieldId::Dscp]);
    assert_eq!(s.counters.evictions, 3);
    assert_eq!(s.flows[0].key, vec![FieldValue::Proto(0), FieldValue::Proto(0)]);
    assert_eq!(s.flows[0].counters.last_seen_ns, 8);
    assert!(InFMonControlClient::flow_rule_show_reply(Response::ok_empty()).is_err());
}

#[test]
fn refusals_become_backend_errors() {
    let e = rpc_ok(Response::err(6, "taken".to_string())).unwrap_err();
    assert_eq!(e, CtlError::Backend { code: 6, message: "taken".to_string() });
    assert_eq!(e.message(), "backend returned error: 6 taken");
    let silent = Response { ok: false, data: None, error: None };
    let e = rpc_ok(silent).unwrap_err();
    assert_eq!(e.message(), "backend returned error: -1 unknown error");
    let odd = Response {
        ok: true,
        data: None,
        error: Some(ErrorData { code: 1, message: String::new() }),
    };
    assert!(matches!(rpc_ok(odd), Ok(None)));
}

#[test]
fn broken_exchanges() {
    let m = |f: RpcFailure| rpc_error(f).message();
    let why = || "why".to_string();
    assert_eq!(m(RpcFailure::ConnectTimedOut), "connection failed: connection timed out");
    assert_eq!(m(RpcFailure::Connect(why())), "connection failed: why");
    assert_eq!(m(RpcFailure::Serialize(why())), "protocol error: serialize request: why");
    assert_eq!(m(RpcFailure::WriteTimedOut), "I/O error: write timed out");
    assert_eq!(m(RpcFailure::Write(why())), "I/O error: why");
    assert_eq!(m(RpcFailure::ReadTimedOut), "I/O error: read timed out");
    assert_eq!(m(RpcFailure::Read(why())), "I/O error: why");
    assert_eq!(m(RpcFailure::Deserialize(why())), "protocol error: deserialize response: why");
    assert_eq!(CtlError::Request(why()).message(), "request failed: why");
}

#[test]
fn every_field_has_an_id() {
    assert_eq!(field_to_field_id(&Field::MirrorSrcIp), Some(FieldId::MirrorSrcIp));
    assert_eq!(field_to_field_id(&Field::DstPort), Some(FieldId::DstPort));
}
