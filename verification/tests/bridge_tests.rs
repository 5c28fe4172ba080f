use clawpal::bridge_client::{
    connected_notice, connection_failed_error, interpret_reply, invoke_notice,
    send_failed_error, server_closed_notice, transport_error_notices, AutoReject,
    BridgeClient, FrameOutcome, ReaderStep, TransportEvent, WaitOutcome, REQUEST_TIMEOUT_SECS,
};
use clawpal::classify::Risk;
use clawpal::invoke::{INVOKE_AUTO_REJECT_SECS, GATEWAY_INVOKE_TIMEOUT_SECS, MAX_PENDING_INVOKES};
use clawpal::json::Json;

type Bridge = BridgeClient<String, u32>;

fn s(text: &str) -> Json {
    Json::Str(text.to_string())
}

fn obj(members: Vec<(&str, Json)>) -> Json {
    Json::Object(members.into_iter().map(|(k, v)| (k.to_string(), v)).collect())
}

fn invoke_frame(id: &str, node_id: &str, command: &str, params: Json) -> Json {
    obj(vec![
        ("type", s("event")),
        ("event", s("node.invoke.request")),
        (
            "payload",
            obj(vec![("id", s(id)), ("command", s(command)), ("nodeId", s(node_id)), ("params", params)]),
        ),
    ])
}

fn ls_params() -> Json {
    obj(vec![("command", s("ls -la"))])
}

fn connected() -> Bridge {
    let mut b = Bridge::new();
    assert!(b.connect_as("tx".to_string(), Some("my-host".to_string())).is_none());
    b
}

fn evicted_text(request: &str, id: &str, node_id: &str) -> String {
    format!(
        "{{\"id\":\"{request}\",\"method\":\"node.invoke.result\",\"params\":{{\"error\":{{\"code\":\"EVICTED\",\"message\":\"Too many pending invokes, oldest evicted\"}},\"id\":\"{id}\",\"nodeId\":\"{node_id}\",\"ok\":false}},\"type\":\"req\"}}"
    )
}

#[test]
fn new_bridge_is_idle() {
    let b = Bridge::new();
    assert!(!b.is_connected());
    assert_eq!(b.node_id(), None);
    assert_eq!(b.pending_count(), 0);
    assert_eq!(b.request_count(), None);
    assert!(b.transport().is_none());
}

#[test]
fn connect_installs_fresh_session() {
    let b = connected();
    assert!(b.is_connected());
    assert_eq!(b.node_id(), Some("my-host".to_string()));
    assert_eq!(b.request_count(), Some(0));
    assert_eq!(b.waiting_count(), 0);
    assert_eq!(b.transport(), Some(&"tx".to_string()));
}

#[test]
fn unknown_host_gets_fixed_node_id() {
    let mut b = Bridge::new();
    b.connect_as("tx".to_string(), None);
    assert_eq!(b.node_id(), Some("clawpal-unknown".to_string()));
}

#[test]
fn connect_uses_system_host_name() {
    let mut b = Bridge::new();
    b.connect("tx".to_string());
    let id = b.node_id().unwrap();
    let expected = hostname::get()
        .map(|h| h.to_string_lossy().into_owned())
        .unwrap_or_else(|_| "clawpal-unknown".to_string());
    assert_eq!(id, expected);
}

#[test]
fn fire_fails_without_session() {
    let mut b = Bridge::new();
    assert_eq!(
        b.send_request_fire("x", Json::Null),
        Err("Node not connected".to_string())
    );
    assert_eq!(
        b.send_invoke_result("i", "n", Json::Null),
        Err("Node not connected".to_string())
    );
    assert_eq!(
        b.send_invoke_error("i", "n", "C", "m"),
        Err("Node not connected".to_string())
    );
    assert_eq!(
        b.send_request("x", Json::Null, 7),
        Err(("Node not connected".to_string(), 7))
    );
}

#[test]
fn fire_numbers_requests_from_one() {
    let mut b = connected();
    let first = b.send_request_fire("ping", obj(vec![("a", Json::Bool(true))])).unwrap();
    assert_eq!(first, "{\"id\":\"n1\",\"method\":\"ping\",\"params\":{\"a\":true},\"type\":\"req\"}");
    let second = b.send_request_fire("ping", Json::Null).unwrap();
    assert_eq!(second, "{\"id\":\"n2\",\"method\":\"ping\",\"params\":null,\"type\":\"req\"}");
    assert_eq!(b.request_count(), Some(2));
    assert_eq!(b.waiting_count(), 0);
}

#[test]
fn invoke_result_echoes_gateway_node_id() {
    let mut b = connected();
    let text = b
        .send_invoke_result("inv-1", "gateway-node", obj(vec![("out", s("ok"))]))
        .unwrap();
    assert_eq!(
        text,
        "{\"id\":\"n1\",\"method\":\"node.invoke.result\",\"params\":{\"id\":\"inv-1\",\"nodeId\":\"gateway-node\",\"ok\":true,\"payload\":{\"out\":\"ok\"}},\"type\":\"req\"}"
    );
    assert!(!text.contains("my-host"));
}

#[test]
fn invoke_error_has_code_and_message() {
    let mut b = connected();
    let text = b.send_invoke_error("inv-1", "gateway-node", "REJECTED", "no").unwrap();
    assert_eq!(
        text,
        "{\"id\":\"n1\",\"method\":\"node.invoke.result\",\"params\":{\"error\":{\"code\":\"REJECTED\",\"message\":\"no\"},\"id\":\"inv-1\",\"nodeId\":\"gateway-node\",\"ok\":false},\"type\":\"req\"}"
    );
}

#[test]
fn replies_reach_their_callers_out_of_order() {
    let mut b = connected();
    let (k1, t1) = b.send_request("a", Json::Null, 101).unwrap();
    let (k2, t2) = b.send_request("b", Json::Null, 102).unwrap();
    let (k3, _t3) = b.send_request("c", Json::Null, 103).unwrap();
    assert_eq!((k1, k2, k3), (1, 2, 3));
    assert!(t1.contains("\"id\":\"n1\""));
    assert!(t2.contains("\"id\":\"n2\""));
    assert_eq!(b.waiting_count(), 3);
    let reply = |id: &str| obj(vec![("type", s("res")), ("id", s(id)), ("ok", Json::Bool(true))]);
    match b.handle_frame(&reply("n3")) {
        FrameOutcome::Reply { slot, frame } => {
            assert_eq!(slot, 103);
            assert_eq!(frame, reply("n3"));
        }
        _ => panic!("expected a reply"),
    }
    match b.handle_frame(&reply("n1")) {
        FrameOutcome::Reply { slot, .. } => assert_eq!(slot, 101),
        _ => panic!("expected a reply"),
    }
    assert!(matches!(b.handle_frame(&reply("n1")), FrameOutcome::Ignored));
    assert!(matches!(b.handle_frame(&reply("n9")), FrameOutcome::Ignored));
    assert!(matches!(b.handle_frame(&reply("1")), FrameOutcome::Ignored));
    assert_eq!(b.waiting_count(), 1);
    match b.handle_frame(&reply("n2")) {
        FrameOutcome::Reply { slot, .. } => assert_eq!(slot, 102),
        _ => panic!("expected a reply"),
    }
    assert_eq!(b.waiting_count(), 0);
}

#[test]
fn response_without_string_id_is_ignored() {
    let mut b = connected();
    b.send_request("a", Json::Null, 1).unwrap();
    let frame = obj(vec![("type", s("res")), ("id", Json::Bool(true))]);
    assert!(matches!(b.handle_frame(&frame), FrameOutcome::Ignored));
    assert_eq!(b.waiting_count(), 1);
}

#[test]
fn challenge_is_stored_and_taken_once() {
    let mut b = connected();
    let frame = obj(vec![
        ("type", s("event")),
        ("event", s("connect.challenge")),
        ("payload", obj(vec![("nonce", s("abc"))])),
    ]);
    assert!(matches!(b.handle_frame(&frame), FrameOutcome::ChallengeStored));
    assert_eq!(b.take_challenge(), Some("abc".to_string()));
    assert_eq!(b.take_challenge(), None);
}

#[test]
fn challenge_without_nonce_or_session_is_ignored() {
    let mut b = connected();
    let no_nonce = obj(vec![("type", s("event")), ("event", s("connect.challenge"))]);
    assert!(matches!(b.handle_frame(&no_nonce), FrameOutcome::Ignored));
    let mut idle = Bridge::new();
    let frame = obj(vec![
        ("type", s("event")),
        ("event", s("connect.challenge")),
        ("payload", obj(vec![("nonce", s("abc"))])),
    ]);
    assert!(matches!(idle.handle_frame(&frame), FrameOutcome::Ignored));
}

#[test]
fn unknown_frames_are_ignored() {
    let mut b = connected();
    assert!(matches!(b.handle_frame(&Json::Null), FrameOutcome::Ignored));
    assert!(matches!(b.handle_frame(&obj(vec![("type", s("req"))])), FrameOutcome::Ignored));
    let other = obj(vec![("type", s("event")), ("event", s("tick"))]);
    assert!(matches!(b.handle_frame(&other), FrameOutcome::Ignored));
}

#[test]
fn text_that_is_no_json_is_discarded() {
    let mut b = connected();
    assert!(matches!(b.handle_text("not json"), FrameOutcome::Ignored));
    assert!(matches!(b.handle_text(""), FrameOutcome::Ignored));
    assert!(b.is_connected());
}

#[test]
fn text_frame_is_parsed_and_handled() {
    let mut b = connected();
    let out = b.handle_text(
        "{\"type\":\"event\",\"event\":\"connect.challenge\",\"payload\":{\"nonce\":\"n-1\"}}",
    );
    assert!(matches!(out, FrameOutcome::ChallengeStored));
    assert_eq!(b.take_challenge(), Some("n-1".to_string()));
}

#[test]
fn invoke_is_surfaced_with_classification_and_timer() {
    let mut b = connected();
    match b.handle_frame(&invoke_frame("inv-1", "gw-node", "system.run", ls_params())) {
        FrameOutcome::Invoke { sends, notify, timer } => {
            assert!(sends.is_empty());
            assert_eq!(
                notify,
                obj(vec![
                    ("id", s("inv-1")),
                    ("command", s("system.run")),
                    ("args", ls_params()),
                    ("type", s("read")),
                    ("nodeId", s("gw-node")),
                ])
            );
            assert_eq!(timer.id, "inv-1");
            assert_eq!(timer.node_id, "gw-node");
            assert_eq!(timer.delay_secs, 25);
        }
        _ => panic!("expected an invocation"),
    }
    assert_eq!(b.pending_count(), 1);
    assert!(b.is_pending("inv-1"));
}

#[test]
fn string_encoded_params_take_precedence() {
    let mut b = connected();
    let frame = obj(vec![
        ("type", s("event")),
        ("event", s("node.invoke.request")),
        (
            "payload",
            obj(vec![
                ("id", s("inv-1")),
                ("command", s("system.run")),
                ("nodeId", s("gw")),
                ("paramsJSON", s("{\"command\":[\"/bin/sh\",\"-lc\",\"rm -rf /tmp/x\"]}")),
                ("params", ls_params()),
            ]),
        ),
    ]);
    match b.handle_frame(&frame) {
        FrameOutcome::Invoke { notify, .. } => {
            assert_eq!(notify.get("type"), Some(&s("write")));
            assert_eq!(
                notify.get("args").unwrap().get("command"),
                Some(&Json::Array(vec![s("/bin/sh"), s("-lc"), s("rm -rf /tmp/x")]))
            );
        }
        _ => panic!("expected an invocation"),
    }
}

#[test]
fn unparsable_string_params_fall_back_to_direct() {
    let mut b = connected();
    let frame = obj(vec![
        ("type", s("event")),
        ("event", s("node.invoke.request")),
        (
            "payload",
            obj(vec![
                ("id", s("inv-1")),
                ("command", s("system.run")),
                ("nodeId", s("gw")),
                ("paramsJSON", s("{oops")),
                ("params", ls_params()),
            ]),
        ),
    ]);
    match b.handle_frame(&frame) {
        FrameOutcome::Invoke { notify, .. } => {
            assert_eq!(notify.get("args"), Some(&ls_params()));
            assert_eq!(notify.get("type"), Some(&s("read")));
        }
        _ => panic!("expected an invocation"),
    }
}

#[test]
fn missing_fields_default_to_empty() {
    let mut b = connected();
    let frame = obj(vec![("type", s("event")), ("event", s("node.invoke.request"))]);
    match b.handle_frame(&frame) {
        FrameOutcome::Invoke { notify, timer, .. } => {
            assert_eq!(
                notify,
                obj(vec![
                    ("id", s("")),
                    ("command", s("")),
                    ("args", Json::Null),
                    ("type", s("write")),
                    ("nodeId", s("")),
                ])
            );
            assert_eq!(timer.id, "");
        }
        _ => panic!("expected an invocation"),
    }
}

#[test]
fn duplicate_invoke_is_absorbed() {
    let mut b = connected();
    let frame = invoke_frame("inv-1", "gw", "system.run", ls_params());
    assert!(matches!(b.handle_frame(&frame), FrameOutcome::Invoke { .. }));
    assert!(matches!(b.handle_frame(&frame), FrameOutcome::Duplicate));
    assert_eq!(b.pending_count(), 1);
    assert_eq!(b.request_count(), Some(0));
}

#[test]
fn duplicate_at_capacity_evicts_nothing() {
    let mut b = connected();
    for i in 0..MAX_PENDING_INVOKES {
        let frame = invoke_frame(&format!("inv-{i}"), "gw", "system.run", ls_params());
        assert!(matches!(b.handle_frame(&frame), FrameOutcome::Invoke { .. }));
    }
    let again = invoke_frame("inv-7", "gw", "system.run", ls_params());
    assert!(matches!(b.handle_frame(&again), FrameOutcome::Duplicate));
    assert_eq!(b.pending_count(), 50);
    assert!(b.is_pending("inv-0"));
    assert_eq!(b.request_count(), Some(0));
}

#[test]
fn fifty_first_invoke_evicts_the_oldest() {
    let mut b = connected();
    for i in 0..50 {
        let frame = invoke_frame(&format!("inv-{i}"), &format!("gw-{i}"), "system.run", ls_params());
        match b.handle_frame(&frame) {
            FrameOutcome::Invoke { sends, .. } => assert!(sends.is_empty()),
            _ => panic!("expected an invocation"),
        }
        assert!(b.pending_count() <= 50);
    }
    assert_eq!(b.pending_count(), 50);
    match b.handle_frame(&invoke_frame("inv-50", "gw-50", "system.run", ls_params())) {
        FrameOutcome::Invoke { sends, .. } => {
            assert_eq!(sends, vec![evicted_text("n1", "inv-0", "gw-0")]);
        }
        _ => panic!("expected an invocation"),
    }
    assert_eq!(b.pending_count(), 50);
    assert!(!b.is_pending("inv-0"));
    assert!(b.is_pending("inv-1"));
    assert!(b.is_pending("inv-50"));
    match b.handle_frame(&invoke_frame("inv-51", "gw-51", "system.run", ls_params())) {
        FrameOutcome::Invoke { sends, .. } => {
            assert_eq!(sends, vec![evicted_text("n2", "inv-1", "gw-1")]);
        }
        _ => panic!("expected an invocation"),
    }
    assert_eq!(b.pending_count(), 50);
}

#[test]
fn eviction_without_session_sends_nothing() {
    let mut b = Bridge::new();
    for i in 0..51 {
        match b.handle_frame(&invoke_frame(&format!("inv-{i}"), "gw", "x", Json::Null)) {
            FrameOutcome::Invoke { sends, .. } => assert!(sends.is_empty()),
            _ => panic!("expected an invocation"),
        }
    }
    assert_eq!(b.pending_count(), 50);
    assert!(!b.is_pending("inv-0"));
}

#[test]
fn take_before_timer_reports_not_expired() {
    let mut b = connected();
    b.handle_frame(&invoke_frame("inv-1", "gw-node", "system.run", ls_params()));
    let (invoke, expired) = b.take_invoke("inv-1").unwrap();
    assert!(!expired);
    assert_eq!(invoke.id, "inv-1");
    assert_eq!(invoke.node_id, "gw-node");
    assert_eq!(invoke.command, "system.run");
    assert_eq!(invoke.args, ls_params());
    assert_eq!(invoke.risk, Risk::Read);
    assert_eq!(b.auto_reject("inv-1", "gw-node"), AutoReject::Resolved);
    assert_eq!(b.request_count(), Some(0));
    assert_eq!(b.take_invoke("inv-1"), None);
}

#[test]
fn timer_marks_and_rejects_as_user_pending() {
    let mut b = connected();
    b.handle_frame(&invoke_frame("inv-1", "gw-node", "system.run", ls_params()));
    match b.auto_reject("inv-1", "gw-node") {
        AutoReject::Expired { send: Some(text) } => {
            assert_eq!(
                text,
                "{\"id\":\"n1\",\"method\":\"node.invoke.result\",\"params\":{\"error\":{\"code\":\"USER_PENDING\",\"message\":\"The command is awaiting user approval in ClawPal. The user may execute it shortly \u{2014} if so, the result will be provided as a follow-up message.\"},\"id\":\"inv-1\",\"nodeId\":\"gw-node\",\"ok\":false},\"type\":\"req\"}"
            );
            assert!(!text.contains("my-host"));
        }
        other => panic!("unexpected {other:?}"),
    }
    assert!(b.is_pending("inv-1"));
    assert!(b.is_expired("inv-1"));
}

#[test]
fn late_resolution_reports_expired() {
    let mut b = connected();
    b.handle_frame(&invoke_frame("inv-1", "gw-node", "system.run", ls_params()));
    b.auto_reject("inv-1", "gw-node");
    let (invoke, expired) = b.take_invoke("inv-1").unwrap();
    assert!(expired);
    assert_eq!(invoke.node_id, "gw-node");
    assert!(!b.is_expired("inv-1"));
    assert_eq!(b.pending_count(), 0);
}

#[test]
fn timer_without_session_still_marks() {
    let mut b = Bridge::new();
    b.handle_frame(&invoke_frame("inv-1", "gw", "x", Json::Null));
    assert_eq!(b.auto_reject("inv-1", "gw"), AutoReject::Expired { send: None });
    assert_eq!(b.take_invoke("inv-1").map(|p| p.1), Some(true));
}

#[test]
fn auto_reject_delay_is_inside_gateway_timeout() {
    assert_eq!(INVOKE_AUTO_REJECT_SECS, 25);
    assert_eq!(GATEWAY_INVOKE_TIMEOUT_SECS, 30);
    assert!(INVOKE_AUTO_REJECT_SECS < GATEWAY_INVOKE_TIMEOUT_SECS);
}

#[test]
fn stale_invokes_are_drained_once_each() {
    let mut b = connected();
    b.handle_frame(&invoke_frame("a", "gw-a", "x", Json::Null));
    b.handle_frame(&invoke_frame("b", "gw-b", "x", Json::Null));
    let (sends, notice) = b.complete_connect();
    let stale = |request: &str, id: &str, node: &str| {
        format!(
            "{{\"id\":\"{request}\",\"method\":\"node.invoke.result\",\"params\":{{\"error\":{{\"code\":\"STALE\",\"message\":\"Node reconnected, rejecting stale invoke\"}},\"id\":\"{id}\",\"nodeId\":\"{node}\",\"ok\":false}},\"type\":\"req\"}}"
        )
    };
    assert_eq!(sends, vec![stale("n1", "a", "gw-a"), stale("n2", "b", "gw-b")]);
    assert_eq!(b.pending_count(), 0);
    assert_eq!(notice, connected_notice());
    assert_eq!(notice.event, "doctor:bridge-connected");
    assert_eq!(notice.payload, Json::Object(vec![]));
    assert!(b.complete_connect().0.is_empty());
}

#[test]
fn disconnect_then_connect_is_a_fresh_session() {
    let mut b = connected();
    b.send_request("a", Json::Null, 1).unwrap();
    b.send_request("b", Json::Null, 2).unwrap();
    b.handle_frame(&invoke_frame("inv-1", "gw", "x", Json::Null));
    b.auto_reject("inv-1", "gw");
    let ended = b.disconnect().unwrap();
    assert_eq!(ended.waiting_len(), 2);
    assert_eq!(ended.request_count(), 3);
    assert_eq!(ended.into_transport(), "tx");
    assert!(!b.is_connected());
    assert_eq!(b.pending_count(), 0);
    assert!(!b.is_expired("inv-1"));
    assert!(b.disconnect().is_none());
    b.connect_as("tx2".to_string(), Some("my-host".to_string()));
    assert_eq!(b.request_count(), Some(0));
    assert_eq!(b.waiting_count(), 0);
    let (key, text) = b.send_request("a", Json::Null, 9).unwrap();
    assert_eq!(key, 1);
    assert!(text.contains("\"id\":\"n1\""));
}

#[test]
fn begin_connect_clears_state() {
    let mut b = connected();
    b.handle_frame(&invoke_frame("inv-1", "gw", "x", Json::Null));
    let ended = b.begin_connect(None);
    assert!(ended.is_some());
    assert!(!b.is_connected());
    assert_eq!(b.pending_count(), 0);
}

#[test]
fn connection_lost_keeps_the_queue() {
    let mut b = connected();
    b.handle_frame(&invoke_frame("inv-1", "gw", "x", Json::Null));
    b.send_request("a", Json::Null, 5).unwrap();
    let ended = b.connection_lost().unwrap();
    assert_eq!(ended.waiting_len(), 1);
    assert!(!b.is_connected());
    assert_eq!(b.pending_count(), 1);
    assert_eq!(
        b.finish_request(1, WaitOutcome::Dropped),
        Err("Connection lost during node handshake".to_string())
    );
}

#[test]
fn wait_outcomes_are_distinct_errors() {
    let mut b = connected();
    let (key, _) = b.send_request("a", Json::Null, 5).unwrap();
    assert_eq!(
        b.finish_request(key, WaitOutcome::TimedOut),
        Err("Node handshake timed out (30s)".to_string())
    );
    assert_eq!(b.waiting_count(), 0);
    let (key, _) = b.send_request("a", Json::Null, 5).unwrap();
    assert_eq!(b.abandon_request(key), Some(5));
    assert_eq!(b.abandon_request(key), None);
}

#[test]
fn reply_interpretation() {
    let ok = obj(vec![("ok", Json::Bool(true)), ("payload", obj(vec![("v", s("1"))]))]);
    assert_eq!(interpret_reply(&ok), Ok(obj(vec![("v", s("1"))])));
    let ok_empty = obj(vec![("ok", Json::Bool(true))]);
    assert_eq!(interpret_reply(&ok_empty), Ok(Json::Null));
    let failed = obj(vec![
        ("ok", Json::Bool(false)),
        ("error", obj(vec![("code", s("E")), ("message", s("bad"))])),
    ]);
    assert_eq!(
        interpret_reply(&failed),
        Err("Node connect error: {\"code\":\"E\",\"message\":\"bad\"}".to_string())
    );
    assert_eq!(interpret_reply(&obj(vec![])), Err("Node connect failed".to_string()));
    assert_eq!(
        interpret_reply(&obj(vec![("ok", s("true"))])),
        Err("Node connect failed".to_string())
    );
    let mut b = connected();
    assert_eq!(b.finish_request(1, WaitOutcome::Reply(ok_empty)), Ok(Json::Null));
}

#[test]
fn notices_for_lost_connections() {
    let closed = server_closed_notice();
    assert_eq!(closed.event, "doctor:bridge-disconnected");
    assert_eq!(closed.payload, obj(vec![("reason", s("server closed"))]));
    let notices = transport_error_notices("reset by peer");
    assert_eq!(notices.len(), 2);
    assert_eq!(notices[0].event, "doctor:error");
    assert_eq!(notices[0].payload, obj(vec![("message", s("Node WS error: reset by peer"))]));
    assert_eq!(notices[1].event, "doctor:bridge-disconnected");
    assert_eq!(notices[1].payload, obj(vec![("reason", s("reset by peer"))]));
}

#[test]
fn room_for_requests() {
    let b = connected();
    assert!(b.has_room_for(1));
    assert!(b.has_room_for(50));
    assert!(Bridge::new().has_room_for(usize::MAX));
}

#[test]
fn transport_events() {
    let mut b = connected();
    b.handle_frame(&invoke_frame("inv-1", "gw", "x", Json::Null));
    b.send_request("a", Json::Null, 4).unwrap();
    assert!(matches!(
        b.handle_event(&TransportEvent::Other),
        ReaderStep::Continue(FrameOutcome::Ignored)
    ));
    let challenge = TransportEvent::Text(
        "{\"type\":\"event\",\"event\":\"connect.challenge\",\"payload\":{\"nonce\":\"q\"}}".to_string(),
    );
    assert!(matches!(
        b.handle_event(&challenge),
        ReaderStep::Continue(FrameOutcome::ChallengeStored)
    ));
    assert!(matches!(
        b.handle_event(&TransportEvent::Text("garbage".to_string())),
        ReaderStep::Continue(FrameOutcome::Ignored)
    ));
    match b.handle_event(&TransportEvent::Close) {
        ReaderStep::Stop { ended, notices } => {
            assert_eq!(ended.unwrap().waiting_len(), 1);
            assert_eq!(notices, vec![server_closed_notice()]);
        }
        _ => panic!("expected a stop"),
    }
    assert!(!b.is_connected());
    assert_eq!(b.pending_count(), 1);
    match b.handle_event(&TransportEvent::Failed("reset".to_string())) {
        ReaderStep::Stop { ended, notices } => {
            assert!(ended.is_none());
            assert_eq!(notices, transport_error_notices("reset"));
        }
        _ => panic!("expected a stop"),
    }
}

#[test]
fn transport_error_texts() {
    assert_eq!(connection_failed_error("refused"), "Node WebSocket connection failed: refused");
    assert_eq!(send_failed_error("closed"), "Failed to send node request: closed");
    assert_eq!(REQUEST_TIMEOUT_SECS, 30);
    let notice = invoke_notice(Json::Bool(true));
    assert_eq!(notice.event, "doctor:invoke");
    assert_eq!(notice.payload, Json::Bool(true));
}
