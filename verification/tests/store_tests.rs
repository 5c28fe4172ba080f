use clawpal::classify::Risk;
use clawpal::frame::{
    choose_args, make_error_params, make_invoke_payload, make_request_frame, make_request_id,
    make_request_text, make_result_params, read_frame, read_invoke, read_invoke_args, Inbound,
};
use clawpal::invoke::{Dropped, InsertOutcome, InvokeStore, PendingInvoke};
use clawpal::json::{Json, JsonNumber};
use clawpal::session::Session;

fn s(text: &str) -> Json {
    Json::Str(text.to_string())
}

fn obj(members: Vec<(&str, Json)>) -> Json {
    Json::Object(members.into_iter().map(|(k, v)| (k.to_string(), v)).collect())
}

fn invoke(id: &str, node_id: &str) -> PendingInvoke {
    PendingInvoke {
        id: id.to_string(),
        node_id: node_id.to_string(),
        command: "system.run".to_string(),
        args: Json::Null,
        risk: Risk::Write,
    }
}

#[test]
fn store_starts_empty() {
    let store = InvokeStore::new();
    assert_eq!(store.len(), 0);
    assert!(!store.contains_id("a"));
    assert!(!store.is_marked("a"));
}

#[test]
fn store_insert_and_take() {
    let mut store = InvokeStore::new();
    assert_eq!(store.insert(invoke("a", "n1")), InsertOutcome::Inserted { evicted: vec![] });
    assert_eq!(store.insert(invoke("b", "n2")), InsertOutcome::Inserted { evicted: vec![] });
    assert_eq!(store.insert(invoke("a", "other")), InsertOutcome::Duplicate);
    assert_eq!(store.len(), 2);
    assert_eq!(store.take("a"), Some((invoke("a", "n1"), false)));
    assert_eq!(store.take("a"), None);
    assert_eq!(store.len(), 1);
    assert!(store.contains_id("b"));
}

#[test]
fn store_evicts_oldest_and_its_mark() {
    let mut store = InvokeStore::new();
    for i in 0..50 {
        store.insert(invoke(&format!("i{i}"), &format!("n{i}")));
    }
    assert!(store.mark_expired("i0"));
    assert!(store.mark_expired("i1"));
    assert!(store.is_marked("i0"));
    let out = store.insert(invoke("i50", "n50"));
    assert_eq!(
        out,
        InsertOutcome::Inserted { evicted: vec![Dropped { id: "i0".into(), node_id: "n0".into() }] }
    );
    assert_eq!(store.len(), 50);
    assert!(!store.is_marked("i0"));
    assert!(store.is_marked("i1"));
    assert_eq!(store.take("i1"), Some((invoke("i1", "n1"), true)));
    assert_eq!(store.insert(invoke("i0", "again")), InsertOutcome::Inserted { evicted: vec![] });
    assert_eq!(store.take("i0"), Some((invoke("i0", "again"), false)));
}

#[test]
fn mark_expired_only_marks_pending() {
    let mut store = InvokeStore::new();
    assert!(!store.mark_expired("a"));
    assert!(!store.is_marked("a"));
    store.insert(invoke("a", "n"));
    assert!(store.mark_expired("a"));
    assert!(store.mark_expired("a"));
    assert!(store.is_marked("a"));
    assert_eq!(store.len(), 1);
    assert_eq!(store.take("a").map(|p| p.1), Some(true));
    assert!(!store.is_marked("a"));
}

#[test]
fn store_drain_and_clear() {
    let mut store = InvokeStore::new();
    store.insert(invoke("a", "n1"));
    store.insert(invoke("b", "n2"));
    store.mark_expired("b");
    assert_eq!(
        store.drain(),
        vec![
            Dropped { id: "a".into(), node_id: "n1".into() },
            Dropped { id: "b".into(), node_id: "n2".into() }
        ]
    );
    assert_eq!(store.len(), 0);
    assert!(!store.is_marked("b"));
    assert!(store.drain().is_empty());
    store.insert(invoke("c", "n"));
    store.mark_expired("c");
    store.clear();
    assert_eq!(store.len(), 0);
    assert!(!store.is_marked("c"));
}

#[test]
fn session_numbers_and_correlates() {
    let mut session: Session<&str, char> = Session::new("tx", "node".to_string());
    assert_eq!(session.request_count(), 0);
    assert_eq!(session.local_node_id(), "node");
    assert_eq!(*session.tx(), "tx");
    assert_eq!(session.next_id(), "n1");
    let (k2, id2) = session.register('b');
    let (k3, id3) = session.register('c');
    assert_eq!((k2, id2.as_str()), (2, "n2"));
    assert_eq!((k3, id3.as_str()), (3, "n3"));
    assert_eq!(session.waiting_len(), 2);
    assert_eq!(session.resolve("n1"), None);
    assert_eq!(session.resolve("n3"), Some('c'));
    assert_eq!(session.resolve("n3"), None);
    assert_eq!(session.resolve("n02"), None);
    assert_eq!(session.resolve("2"), None);
    assert_eq!(session.cancel(7), None);
    assert_eq!(session.cancel(2), Some('b'));
    assert_eq!(session.waiting_len(), 0);
    assert_eq!(session.request_count(), 3);
    assert_eq!(session.into_transport(), "tx");
}

#[test]
fn session_nonce_slot() {
    let mut session: Session<(), ()> = Session::new((), String::new());
    assert_eq!(session.take_nonce(), None);
    session.store_nonce("a".to_string());
    session.store_nonce("b".to_string());
    assert_eq!(session.take_nonce(), Some("b".to_string()));
    assert_eq!(session.take_nonce(), None);
}

#[test]
fn request_ids() {
    assert_eq!(make_request_id(0), "n0");
    assert_eq!(make_request_id(9), "n9");
    assert_eq!(make_request_id(10), "n10");
    assert_eq!(make_request_id(1234567890), "n1234567890");
    assert_eq!(make_request_id(u64::MAX), "n18446744073709551615");
}

#[test]
fn request_frames() {
    let frame = make_request_frame("n1", "connect", Json::Bool(false));
    assert_eq!(
        frame,
        obj(vec![("type", s("req")), ("id", s("n1")), ("method", s("connect")), ("params", Json::Bool(false))])
    );
    assert_eq!(
        make_request_text("n1", "m", obj(vec![("z", Json::Null), ("a", Json::Number(JsonNumber::NegInt(-3)))])),
        "{\"id\":\"n1\",\"method\":\"m\",\"params\":{\"a\":-3,\"z\":null},\"type\":\"req\"}"
    );
}

#[test]
fn result_and_error_params() {
    assert_eq!(
        make_result_params("i", "n", s("p")),
        obj(vec![("id", s("i")), ("nodeId", s("n")), ("ok", Json::Bool(true)), ("payload", s("p"))])
    );
    assert_eq!(
        make_error_params("i", "n", "C", "m"),
        obj(vec![
            ("id", s("i")),
            ("nodeId", s("n")),
            ("ok", Json::Bool(false)),
            ("error", obj(vec![("code", s("C")), ("message", s("m"))])),
        ])
    );
}

#[test]
fn reading_frames() {
    assert_eq!(read_frame(&Json::Null), Inbound::Other);
    assert_eq!(
        read_frame(&obj(vec![("type", s("res")), ("id", s("n4"))])),
        Inbound::Response { id: "n4".into() }
    );
    assert_eq!(read_frame(&obj(vec![("type", s("res"))])), Inbound::Other);
    assert_eq!(
        read_frame(&obj(vec![
            ("type", s("event")),
            ("event", s("connect.challenge")),
            ("payload", obj(vec![("nonce", s("x"))]))
        ])),
        Inbound::Challenge { nonce: "x".into() }
    );
    let payload = obj(vec![
        ("id", s("i")),
        ("command", s("system.run")),
        ("nodeId", s("gw")),
        ("params", obj(vec![("command", s("uptime"))])),
    ]);
    let expected = PendingInvoke {
        id: "i".into(),
        node_id: "gw".into(),
        command: "system.run".into(),
        args: obj(vec![("command", s("uptime"))]),
        risk: Risk::Read,
    };
    assert_eq!(read_invoke(&payload), expected);
    assert_eq!(
        read_frame(&obj(vec![("type", s("event")), ("event", s("node.invoke.request")), ("payload", payload)])),
        Inbound::Invoke(expected.clone())
    );
    assert_eq!(
        make_invoke_payload(&expected),
        obj(vec![
            ("id", s("i")),
            ("command", s("system.run")),
            ("args", obj(vec![("command", s("uptime"))])),
            ("type", s("read")),
            ("nodeId", s("gw")),
        ])
    );
}

#[test]
fn choosing_args() {
    let payload = obj(vec![("params", s("direct"))]);
    assert_eq!(choose_args(Some(s("parsed")), &payload), s("parsed"));
    assert_eq!(choose_args(None, &payload), s("direct"));
    assert_eq!(choose_args(None, &obj(vec![])), Json::Null);
    let both = obj(vec![("paramsJSON", s("[1]")), ("params", s("direct"))]);
    assert_eq!(read_invoke_args(&both), Json::Array(vec![Json::Number(JsonNumber::PosInt(1))]));
    let not_text = obj(vec![("paramsJSON", Json::Bool(true)), ("params", s("direct"))]);
    assert_eq!(read_invoke_args(&not_text), s("direct"));
}
