//! The control server.

use std::sync::Arc;

use infmon::config::model::{EvictionPolicy, Field, FlowRule};
use infmon::frontend::control::{check_line, invalid_request, ControlState, Reply};
use infmon::frontend::vapi_stats_client::VapiError;
use infmon::ipc::control_client::InFMonControlClient;
use infmon::ipc::protocol::{
    FlowRuleAddParams, FlowRuleRmParams, FlowRuleShowParams, Request, Response, ResponseData,
    StatsShowParams,
};
use infmon::ipc::types::{
    FieldValue, FlowCounters, FlowRuleCounters, FlowRuleId, FlowRuleStats, FlowStats,
    FlowStatsSnapshot,
};

fn rule(name: &str) -> FlowRule {
    FlowRule {
        name: name.to_string(),
        fields: vec![Field::Dscp],
        max_keys: 8,
        eviction_policy: EvictionPolicy::LruDrop,
    }
}

fn add(name: &str) -> Request {
    let r = rule(name);
    Request::FlowRuleAdd(FlowRuleAddParams {
        name: r.name,
        fields: r.fields,
        max_keys: r.max_keys,
        eviction_policy: r.eviction_policy,
    })
}

fn rm(name: &str) -> Request {
    Request::FlowRuleRm(FlowRuleRmParams { name: name.to_string() })
}

fn show(name: &str) -> Request {
    Request::FlowRuleShow(FlowRuleShowParams { name: name.to_string() })
}

fn respond(state: &mut ControlState, req: &Request) -> Response {
    match state.handle_request(req) {
        Reply::Respond(r) => r,
        other => panic!("{other:?}"),
    }
}

fn id_of(r: Response) -> String {
    match r.data {
        Some(ResponseData::FlowRuleId(d)) => d.id,
        other => panic!("{other:?}"),
    }
}

fn error_of(r: Response) -> (i32, String) {
    assert!(!r.ok);
    let e = r.error.unwrap();
    (e.code, e.message)
}

fn snapshot(name: &str) -> Arc<FlowStatsSnapshot> {
    Arc::new(FlowStatsSnapshot {
        tick_id: 5,
        wall_clock_ns: 6,
        monotonic_ns: 0,
        interval_ns: 0,
        flow_rules: vec![FlowRuleStats {
            name: name.to_string(),
            fields: vec![],
            max_keys: 8,
            eviction_policy: EvictionPolicy::LruDrop,
            flows: vec![FlowStats {
                key: vec![FieldValue::Dscp(46)],
                counters: FlowCounters {
                    packets: 1,
                    bytes: 2,
                    first_seen_ns: 3,
                    last_seen_ns: 4,
                },
            }],
            counters: FlowRuleCounters { evictions: 10, drops: 20, packets: 30, bytes: 40 },
        }],
    })
}

#[test]
fn rules_come_and_go() {
    let mut s = ControlState::new(vec![rule("ab")]);
    assert_eq!(id_of(respond(&mut s, &add("cd"))), "0000000000000002-0000000000000000");
    assert_eq!(id_of(respond(&mut s, &add("ef"))), "0000000000000003-0000000000000000");
    assert_eq!(
        error_of(respond(&mut s, &add("cd"))),
        (6, "flow rule 'cd' already exists".to_string())
    );
    assert_eq!(s.flow_rules.len(), 3);
    assert!(respond(&mut s, &rm("cd")).ok);
    assert_eq!(
        error_of(respond(&mut s, &rm("cd"))),
        (3, "flow rule 'cd' not found".to_string())
    );
    assert_eq!(
        error_of(respond(&mut s, &show("cd"))),
        (3, "flow rule 'cd' not found".to_string())
    );
    match respond(&mut s, &Request::FlowRuleList).data {
        Some(ResponseData::FlowRuleList(l)) => {
            let names: Vec<String> = l.rules.into_iter().map(|r| r.name).collect();
            assert_eq!(names, vec!["ab", "ef"]);
        }
        other => panic!("{other:?}"),
    }
}

#[test]
fn details_come_from_the_latest_snapshot() {
    let mut s = ControlState::new(vec![rule("ab"), rule("cd")]);
    match respond(&mut s, &show("ab")).data {
        Some(ResponseData::FlowRuleDetail(d)) => {
            assert_eq!(d.counters.packets, 0);
            assert!(d.flows.is_empty());
        }
        other => panic!("{other:?}"),
    }
    s.update_snapshot(snapshot("ab"));
    match respond(&mut s, &show("ab")).data {
        Some(ResponseData::FlowRuleDetail(d)) => {
            assert_eq!((d.counters.evictions, d.counters.drops), (10, 20));
            assert_eq!(d.flows[0].key, vec!["Dscp(46)"]);
            assert_eq!(d.flows[0].last_seen_ns, 4);
        }
        other => panic!("{other:?}"),
    }
    let stats = |name: Option<&str>| {
        Request::StatsShow(StatsShowParams { name: name.map(|n| n.to_string()) })
    };
    match respond(&mut s, &stats(None)).data {
        Some(ResponseData::StatsShow(d)) => {
            assert_eq!(d.flow_rules.len(), 2);
            assert_eq!((d.flow_rules[0].packets, d.flow_rules[0].active_flows), (30, 1));
            assert_eq!((d.flow_rules[1].packets, d.flow_rules[1].active_flows), (0, 0));
        }
        other => panic!("{other:?}"),
    }
    match respond(&mut s, &stats(Some("cd"))).data {
        Some(ResponseData::StatsShow(d)) => assert_eq!(d.flow_rules[0].name, "cd"),
        other => panic!("{other:?}"),
    }
    assert!(matches!(s.handle_request(&Request::StatsPull), Reply::PullSnapshot));
    match s.stats_pulled(snapshot("cd")).data {
        Some(ResponseData::StatsPull(d)) => {
            assert_eq!((d.tick_id, d.wall_clock_ns), (5, 6));
            assert_eq!(d.stats.flow_rules[1].bytes, 40);
        }
        other => panic!("{other:?}"),
    }
}

#[test]
fn changes_are_put_to_the_backend_first() {
    let mut s = ControlState::with_vapi(vec![rule("ab")]);
    let failed = || VapiError::FlowRuleFailed("no room".to_string());
    let asked = match s.handle_request(&add("cd")) {
        Reply::AddToBackend(r) => r,
        other => panic!("{other:?}"),
    };
    assert_eq!(s.flow_rules.len(), 1);
    assert_eq!(
        error_of(s.backend_added(asked.clone(), Err(failed()))),
        (7, "backend rejected flow rule 'cd': flow rule operation failed: no room".to_string())
    );
    assert_eq!(s.flow_rules.len(), 1);
    let id = FlowRuleId { hi: 0xa, lo: 0xb };
    assert_eq!(
        id_of(s.backend_added(asked, Ok(id))),
        "000000000000000a-000000000000000b"
    );
    assert_eq!(s.flow_rules.len(), 2);
    match s.handle_request(&rm("cd")) {
        Reply::RemoveFromBackend(i) => assert_eq!(i, id),
        other => panic!("{other:?}"),
    }
    assert_eq!(
        error_of(s.backend_removed("cd", Err(failed()))),
        (
            7,
            "backend failed to delete flow rule 'cd': flow rule operation failed: no room"
                .to_string()
        )
    );
    assert_eq!(s.flow_rules.len(), 2);
    assert!(s.backend_removed("cd", Ok(())).ok);
    assert_eq!(s.flow_rules.len(), 1);
    assert!(s.rule_id_map.is_empty());
    // A rule that the backend never got goes without asking it.
    assert!(respond(&mut s, &rm("ab")).ok);
    assert!(s.flow_rules.is_empty());
}

#[test]
fn lines_that_are_no_requests() {
    assert!(check_line("{}\n").is_none());
    let long = "x".repeat(64 * 1024);
    assert_eq!(error_of(check_line(&long).unwrap()), (-1, "request too large".to_string()));
    let ended = format!("{}\n", "x".repeat(64 * 1024 - 1));
    assert!(check_line(&ended).is_none());
    assert_eq!(error_of(invalid_request("eof")), (-1, "invalid request: eof".to_string()));
}

#[test]
fn client_and_server_understand_each_other() {
    let client = InFMonControlClient::new("/run/infmon.sock");
    let mut s = ControlState::new(vec![rule("ab")]);
    let reply = respond(&mut s, &client.flow_rule_add(rule("cd")));
    assert_eq!(
        InFMonControlClient::flow_rule_add_reply(reply).unwrap(),
        FlowRuleId { hi: 2, lo: 0 }
    );
    let reply = respond(&mut s, &client.flow_rule_list());
    let rules = InFMonControlClient::flow_rule_list_reply(reply).unwrap();
    assert_eq!(rules, vec![rule("ab"), rule("cd")]);
    let reply = respond(&mut s, &client.flow_rule_rm("ab"));
    assert!(InFMonControlClient::flow_rule_rm_reply(reply).is_ok());
    let reply = respond(&mut s, &client.flow_rule_list());
    let rules = InFMonControlClient::flow_rule_list_reply(reply).unwrap();
    assert_eq!(rules, vec![rule("cd")]);
    let reply = respond(&mut s, &client.flow_rule_show("ab"));
    let err = InFMonControlClient::flow_rule_show_reply(reply).unwrap_err();
    assert!(err.message().contains("flow rule 'ab' not found"));
    let reply = respond(&mut s, &client.stats_show(None));
    assert_eq!(InFMonControlClient::stats_show_reply(reply).unwrap().flow_rules.len(), 1);
}

#[test]
fn removing_answers_adding() {
    let mut s = ControlState::new(vec![rule("ab")]);
    assert!(respond(&mut s, &add("cd")).ok);
    let told = respond(&mut s, &rm("cd"));
    assert!(told.ok && told.data.is_none() && told.error.is_none());
    assert_eq!(s.flow_rules, vec![rule("ab")]);
    assert_eq!(
        error_of(respond(&mut s, &rm("cd"))),
        (3, "flow rule 'cd' not found".to_string())
    );
    assert_eq!(s.flow_rules, vec![rule("ab")]);
}
