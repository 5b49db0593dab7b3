use herdr_espresso::herdr::events::{
    after_drain, poll_outcome, poll_timeout_ms, poll_wake, revents_ready, subscribe_params, wake_of,
};
use herdr_espresso::herdr::rpc::{
    check_reply, pane_status_from_reply, clear_marker_params, notify_params, pane_get_params, pane_status_of, parse_pane_state,
    request_id, request_line, set_marker_params,
};
use herdr_espresso::herdr::{focused_pane_from, focused_pane_id_from, Json, PaneState, PollOutcome, Wake};

fn s(x: &str) -> Json {
    Json::Str(x.to_string())
}

fn obj(fields: Vec<(&str, Json)>) -> Json {
    Json::Object(fields.into_iter().map(|(k, v)| (k.to_string(), v)).collect())
}

#[test]
fn request_line_is_one_json_line() {
    let line = request_line("r1", "pane.get", &pane_get_params("w1:p1"));
    assert!(line.ends_with('\n'));
    let v: serde_json::Value = serde_json::from_str(line.trim()).unwrap();
    assert_eq!(v["method"], "pane.get");
    assert_eq!(v["params"]["pane_id"], "w1:p1");
    assert_eq!(v["id"], "r1");
}

#[test]
fn parse_state_agent_present() {
    let reply = obj(vec![
        ("id", s("r1")),
        (
            "result",
            obj(vec![
                ("type", s("pane_info")),
                (
                    "pane",
                    obj(vec![
                        ("pane_id", s("w1:p1")),
                        ("agent", s("codex")),
                        ("agent_status", s("working")),
                    ]),
                ),
            ]),
        ),
    ]);
    assert_eq!(parse_pane_state(&reply), PaneState::Agent("working".to_string()));
}

#[test]
fn parse_state_no_agent_when_agent_field_absent_or_null() {
    // Plain shell / agent exited: herdr reports agent_status "unknown" and
    // no `agent` field.
    let shell = obj(vec![
        ("id", s("r1")),
        (
            "result",
            obj(vec![
                ("type", s("pane_info")),
                ("pane", obj(vec![("pane_id", s("w1:p1")), ("agent_status", s("unknown"))])),
            ]),
        ),
    ]);
    assert_eq!(parse_pane_state(&shell), PaneState::NoAgent);
    let null_agent = obj(vec![
        ("id", s("r1")),
        (
            "result",
            obj(vec![
                ("type", s("pane_info")),
                (
                    "pane",
                    obj(vec![
                        ("pane_id", s("w1:p1")),
                        ("agent", Json::Null),
                        ("agent_status", s("unknown")),
                    ]),
                ),
            ]),
        ),
    ]);
    assert_eq!(parse_pane_state(&null_agent), PaneState::NoAgent);
}

#[test]
fn parse_state_gone_on_error_reply() {
    let err = obj(vec![("id", s("r1")), ("error", obj(vec![("code", s("not_found"))]))]);
    assert_eq!(parse_pane_state(&err), PaneState::Gone);
}

#[test]
fn parse_state_edge_cases() {
    let pane = |fields: Vec<(&str, Json)>| obj(vec![("result", obj(vec![("pane", obj(fields))]))]);
    // an empty agent name is no agent
    assert_eq!(parse_pane_state(&pane(vec![("agent", s(""))])), PaneState::NoAgent);
    // a non-string agent is no agent
    assert_eq!(
        parse_pane_state(&pane(vec![("agent", Json::Bool(true))])),
        PaneState::NoAgent
    );
    // a missing status reads as unknown
    assert_eq!(
        parse_pane_state(&pane(vec![("agent", s("codex"))])),
        PaneState::Agent("unknown".to_string())
    );
    // a non-object result is gone
    assert_eq!(parse_pane_state(&obj(vec![("result", s("x"))])), PaneState::Gone);
    assert_eq!(parse_pane_state(&Json::Array(vec![])), PaneState::Gone);
    // the first of two equal keys counts
    assert_eq!(
        parse_pane_state(&pane(vec![
            ("agent", s("a")),
            ("agent_status", s("blocked")),
            ("agent_status", s("idle"))
        ])),
        PaneState::Agent("blocked".to_string())
    );
}

#[test]
fn pane_status_ends_watch_for_gone_or_agentless_panes() {
    assert_eq!(pane_status_of(PaneState::Agent("idle".into())), Some("idle".to_string()));
    assert_eq!(pane_status_of(PaneState::NoAgent), None);
    assert_eq!(pane_status_of(PaneState::Gone), None);
}

#[test]
fn request_texts_are_exact() {
    assert_eq!(
        request_line("r7", "pane.get", "{}"),
        "{\"id\":\"r7\",\"method\":\"pane.get\",\"params\":{}}\n"
    );
    assert_eq!(
        request_line("a\"b", "m\n", "{}"),
        "{\"id\":\"a\\\"b\",\"method\":\"m\\n\",\"params\":{}}\n"
    );
    assert_eq!(request_id(0), "r0");
    assert_eq!(request_id(12), "r12");
    assert_eq!(pane_get_params("w1:p1"), "{\"pane_id\":\"w1:p1\"}");
    assert_eq!(
        set_marker_params("w1"),
        "{\"custom_status\":\"espresso\",\"pane_id\":\"w1\",\"source\":\"espresso\"}"
    );
    assert_eq!(
        clear_marker_params("w1"),
        "{\"clear_custom_status\":true,\"pane_id\":\"w1\",\"source\":\"espresso\"}"
    );
    assert_eq!(notify_params("t", "b\\"), "{\"body\":\"b\\\\\",\"title\":\"t\"}");
    assert_eq!(
        subscribe_params("w1"),
        "{\"subscriptions\":[{\"pane_id\":\"w1\",\"type\":\"pane.agent_status_changed\"},{\"pane_id\":\"w1\",\"type\":\"pane.closed\"}]}"
    );
}

#[test]
fn request_lines_parse_back_as_json() {
    for (id, m, p) in [
        ("r1", "pane.report_metadata", set_marker_params("w\u{1}\t:p")),
        ("r2", "notification.show", notify_params("x", "y\u{7f}\"")),
        ("s1", "events.subscribe", subscribe_params("w1:p1")),
    ] {
        let line = request_line(id, m, &p);
        assert_eq!(line.matches('\n').count(), 1);
        let v: serde_json::Value = serde_json::from_str(&line).unwrap();
        assert_eq!(v["id"], id);
        assert_eq!(v["method"], m);
        let params: serde_json::Value = serde_json::from_str(&p).unwrap();
        assert_eq!(v["params"], params);
    }
}

#[test]
fn poll_results_map_to_wakes() {
    assert_eq!(poll_timeout_ms(None), -1);
    assert_eq!(poll_timeout_ms(Some(250)), 250);
    assert_eq!(poll_timeout_ms(Some(u64::MAX)), i32::MAX);
    assert_eq!(poll_outcome(0, true, true), PollOutcome::Timeout);
    assert_eq!(poll_outcome(-1, true, true), PollOutcome::Timeout);
    assert_eq!(poll_outcome(2, true, true), PollOutcome::Stop);
    assert_eq!(poll_outcome(1, false, true), PollOutcome::Drain);
    assert_eq!(poll_outcome(1, false, false), PollOutcome::Timeout);
    assert_eq!(after_drain(true), Wake::Event);
    assert_eq!(after_drain(false), Wake::Eof);
}

#[test]
fn focused_pane_prefers_env_then_context() {
    let ctx = obj(vec![("focused_pane_id", s("w2:p3"))]);
    assert_eq!(focused_pane_from(Some("w1:p1".into()), Some(&ctx)), Some("w1:p1".to_string()));
    assert_eq!(focused_pane_from(Some(String::new()), Some(&ctx)), Some("w2:p3".to_string()));
    assert_eq!(focused_pane_from(None, Some(&ctx)), Some("w2:p3".to_string()));
    assert_eq!(focused_pane_from(None, None), None);
    assert_eq!(focused_pane_from(None, Some(&obj(vec![("focused_pane_id", Json::Null)]))), None);
}

#[test]
fn reply_lines_are_parsed_with_serde_json() {
    let working = r#"{"id":"r1","result":{"type":"pane_info","pane":{"pane_id":"w1:p1","agent":"codex","agent_status":"working"}}}"#;
    assert_eq!(pane_status_from_reply(working).unwrap(), Some("working".to_string()));
    let shell = r#"{"id":"r1","result":{"type":"pane_info","pane":{"pane_id":"w1:p1","agent":null,"agent_status":"unknown"}}}"#;
    assert_eq!(pane_status_from_reply(shell).unwrap(), None);
    let gone = "{\"id\":\"r1\",\"error\":{\"code\":\"not_found\"}}\n";
    assert_eq!(pane_status_from_reply(gone).unwrap(), None);
    assert!(pane_status_from_reply("not json").is_err());
    assert!(pane_status_from_reply("").is_err());
    assert!(check_reply("{\"id\":\"r2\",\"result\":{}}\n").is_ok());
    assert!(check_reply("{\"id\":").is_err());
    // numbers and arrays are carried through
    let n = r#"{"result":{"pane":{"agent":"a","agent_status":"blocked","n":[1,2.5,-3]}}}"#;
    assert_eq!(pane_status_from_reply(n).unwrap(), Some("blocked".to_string()));
}

#[test]
fn focused_pane_reads_the_context_text() {
    let ctx = r#"{"focused_pane_id":"w2:p3","other":1}"#;
    assert_eq!(focused_pane_id_from(Some("w1:p1".into()), Some(ctx)), Some("w1:p1".to_string()));
    assert_eq!(focused_pane_id_from(Some(String::new()), Some(ctx)), Some("w2:p3".to_string()));
    assert_eq!(focused_pane_id_from(None, Some(ctx)), Some("w2:p3".to_string()));
    assert_eq!(focused_pane_id_from(None, Some("{bad")), None);
    assert_eq!(focused_pane_id_from(None, Some(r#"{"focused_pane_id":7}"#)), None);
    assert_eq!(focused_pane_id_from(None, None), None);
}

fn serde_object(fields: Vec<(&str, serde_json::Value)>) -> String {
    let mut m = serde_json::Map::new();
    for (k, v) in fields {
        m.insert(k.to_string(), v);
    }
    serde_json::to_string(&serde_json::Value::Object(m)).unwrap()
}

#[test]
fn params_match_serde_json_output() {
    let s = |x: &str| serde_json::Value::String(x.to_string());
    assert_eq!(
        set_marker_params("w1:p\"1"),
        serde_object(vec![("pane_id", s("w1:p\"1")), ("source", s("espresso")), ("custom_status", s("espresso"))])
    );
    assert_eq!(
        clear_marker_params("w1"),
        serde_object(vec![
            ("pane_id", s("w1")),
            ("source", s("espresso")),
            ("clear_custom_status", serde_json::Value::Bool(true))
        ])
    );
    assert_eq!(notify_params("t\n", "b"), serde_object(vec![("title", s("t\n")), ("body", s("b"))]));
    assert_eq!(pane_get_params("w1"), serde_object(vec![("pane_id", s("w1"))]));
}

#[test]
fn wake_of_reads_poll_then_drain() {
    assert_eq!(wake_of(0, true, true, true), Wake::Timeout);
    assert_eq!(wake_of(-1, false, true, true), Wake::Timeout);
    assert_eq!(wake_of(1, true, true, false), Wake::Stop);
    assert_eq!(wake_of(1, false, true, true), Wake::Event);
    assert_eq!(wake_of(1, false, true, false), Wake::Eof);
    assert_eq!(wake_of(1, false, false, false), Wake::Timeout);
}

#[test]
fn poll_wake_reads_returned_events_through_the_mask() {
    let mask: i16 = 0x1 | 0x8 | 0x10;
    assert!(revents_ready(0x10, mask));
    assert!(!revents_ready(0x4, mask));
    assert_eq!(poll_wake(1, 0x1, 0x0, mask, true), Wake::Event);
    assert_eq!(poll_wake(1, 0x1, 0x10, mask, true), Wake::Stop);
    assert_eq!(poll_wake(1, 0x8, 0x4, mask, false), Wake::Eof);
    assert_eq!(poll_wake(1, 0x4, 0x4, mask, true), Wake::Timeout);
    assert_eq!(poll_wake(0, 0x1, 0x1, mask, true), Wake::Timeout);
}
