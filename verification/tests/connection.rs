use codev::connection::{Connection, TO_AGENT_QUEUE_CAPACITY};
use codev::routes::{extract_session_id_from_params, ResponseRoute, Target};
use codev::stream::PRE_SUBSCRIBE_BUFFER_CAPACITY;
use serde_json::Value;
use tokio::runtime::{Builder, Runtime};
use tokio::sync::broadcast::error::TryRecvError;
use tokio::sync::mpsc;

/// A connection whose agent never does anything, the agent's end of its queue, and the runtime
/// that its task lives in.
fn fake_connection() -> (Connection, mpsc::UnboundedSender<String>, Runtime) {
    let runtime = Builder::new_current_thread().build().unwrap();
    let (to_agent_tx, _to_agent_rx) = mpsc::channel::<String>(TO_AGENT_QUEUE_CAPACITY);
    let (from_agent_tx, from_agent_rx) = mpsc::unbounded_channel::<String>();
    let agent_handle = runtime.spawn(std::future::pending::<()>());
    let connection = Connection::new(to_agent_tx, from_agent_rx, agent_handle);
    (connection, from_agent_tx, runtime)
}

/// Routes what the agent has sent so far.
fn pump(connection: &mut Connection, receiver: &mut mpsc::UnboundedReceiver<String>) {
    while let Ok(message) = receiver.try_recv() {
        connection.route_outbound(message);
    }
}

fn json(text: &str) -> Value {
    serde_json::from_str(text).unwrap()
}

#[test]
fn buffers_connection_scoped_messages_before_first_subscribe() {
    let (mut conn, agent_tx, _runtime) = fake_connection();
    let mut router = conn.start_router().unwrap();

    agent_tx
        .send(r#"{"id":1,"result":{"capabilities":{}}}"#.to_string())
        .unwrap();
    pump(&mut conn, &mut router);

    let (replay, _rx) = conn.subscribe_connection_stream();
    assert_eq!(replay.len(), 1);
    assert!(replay[0].contains("\"capabilities\""));

    conn.shutdown();
}

#[test]
fn routes_session_scoped_notification_to_session_stream() {
    let (mut conn, agent_tx, _runtime) = fake_connection();
    let mut router = conn.start_router().unwrap();

    conn.ensure_session("sess_abc");

    let (_, mut rx) = conn.subscribe_session_stream("sess_abc").unwrap();
    agent_tx
        .send(
            r#"{"method":"session/update","params":{"sessionId":"sess_abc","update":{}}}"#
                .to_string(),
        )
        .unwrap();
    pump(&mut conn, &mut router);

    let got = rx.try_recv().unwrap();
    assert!(got.contains("session/update"));

    let (replay, _) = conn.subscribe_connection_stream();
    assert!(
        replay.is_empty(),
        "connection stream should not have session-scoped messages"
    );

    conn.shutdown();
}

#[test]
fn routes_response_using_pending_route_table() {
    let (mut conn, agent_tx, _runtime) = fake_connection();
    let mut router = conn.start_router().unwrap();

    conn.ensure_session("sess_xyz");
    conn.record_pending_route(
        Value::from(42),
        ResponseRoute::Session("sess_xyz".to_string()),
    );

    let (_, mut rx) = conn.subscribe_session_stream("sess_xyz").unwrap();
    agent_tx
        .send(r#"{"id":42,"result":{"stopReason":"end_turn"}}"#.to_string())
        .unwrap();
    pump(&mut conn, &mut router);

    let got = rx.try_recv().unwrap();
    assert!(got.contains("\"stopReason\""));

    conn.shutdown();
}

#[test]
fn websocket_all_outbound_sees_everything() {
    let (mut conn, agent_tx, _runtime) = fake_connection();
    let mut router = conn.start_router().unwrap();

    agent_tx
        .send(r#"{"id":1,"result":{}}"#.to_string())
        .unwrap();
    agent_tx
        .send(r#"{"method":"session/update","params":{"sessionId":"s1"}}"#.to_string())
        .unwrap();
    pump(&mut conn, &mut router);

    let (replay, _all_rx) = conn.subscribe_all_outbound();
    assert_eq!(replay.len(), 2);
    assert!(replay[0].contains("\"id\":1"));
    assert!(replay[1].contains("session/update"));

    conn.shutdown();
}

#[test]
fn unknown_session_subscribe_returns_none() {
    let (mut conn, _agent_tx, _runtime) = fake_connection();
    conn.start_router();

    assert!(conn.subscribe_session_stream("nope").is_none());

    conn.shutdown();
}

#[test]
fn pre_subscribe_buffer_is_bounded() {
    let (mut conn, agent_tx, _runtime) = fake_connection();
    let mut router = conn.start_router().unwrap();

    for i in 0..(PRE_SUBSCRIBE_BUFFER_CAPACITY + 50) {
        agent_tx
            .send(format!(r#"{{"id":{},"result":{{}}}}"#, i))
            .unwrap();
    }
    pump(&mut conn, &mut router);

    let (replay, _rx) = conn.subscribe_connection_stream();
    assert_eq!(replay.len(), PRE_SUBSCRIBE_BUFFER_CAPACITY);
    assert_eq!(replay[0], r#"{"id":50,"result":{}}"#);
    assert_eq!(replay[1023], r#"{"id":1073,"result":{}}"#);
}

#[test]
fn text_that_is_no_json_goes_to_the_connection() {
    let (mut conn, _agent_tx, _runtime) = fake_connection();
    conn.route_outbound("not json".to_string());
    conn.route_outbound("[1,2]".to_string());
    conn.route_outbound(r#"{"id":7}"#.to_string());
    let (replay, _rx) = conn.subscribe_connection_stream();
    assert_eq!(replay, vec!["not json", "[1,2]", r#"{"id":7}"#]);
}

#[test]
fn route_is_used_once() {
    let (mut conn, _agent_tx, _runtime) = fake_connection();
    conn.record_pending_route(json("\"a\""), ResponseRoute::Session("s".to_string()));
    let answer = json(r#"{"id":"a","error":{"code":-1}}"#);
    assert!(matches!(conn.classify(&answer), Target::Session(s) if s == "s"));
    assert!(matches!(conn.classify(&answer), Target::Connection));
}

#[test]
fn later_route_replaces_earlier_one() {
    let (mut conn, _agent_tx, _runtime) = fake_connection();
    conn.record_pending_route(json("1"), ResponseRoute::Session("s".to_string()));
    conn.record_pending_route(json("1"), ResponseRoute::Session("t".to_string()));
    conn.record_pending_route(json("2"), ResponseRoute::Connection);
    let second = json(r#"{"id":2,"result":null}"#);
    assert!(matches!(conn.classify(&second), Target::Connection));
    let first = json(r#"{"id":1,"result":null}"#);
    assert!(matches!(conn.classify(&first), Target::Session(s) if s == "t"));
    assert!(matches!(conn.classify(&first), Target::Connection));
}

#[test]
fn route_survives_other_messages() {
    let (mut conn, _agent_tx, _runtime) = fake_connection();
    conn.record_pending_route(json("5"), ResponseRoute::Session("s".to_string()));
    conn.route_outbound(r#"{"id":"5","result":1}"#.to_string());
    conn.route_outbound(r#"{"id":5.0,"result":1}"#.to_string());
    conn.route_outbound(r#"{"id":5,"method":"ask"}"#.to_string());
    conn.route_outbound(r#"{"id":5}"#.to_string());
    conn.route_outbound(r#"{"id":5,"result":"done"}"#.to_string());
    let (replay, _rx) = conn.subscribe_session_stream("s").unwrap();
    assert_eq!(replay, vec![r#"{"id":5,"result":"done"}"#]);
    let (rest, _rx) = conn.subscribe_connection_stream();
    assert_eq!(rest.len(), 4);
}

#[test]
fn ids_compare_as_json_does() {
    let (mut conn, _agent_tx, _runtime) = fake_connection();
    conn.record_pending_route(
        json(r#"{"a":1,"b":[true]}"#),
        ResponseRoute::Session("s".to_string()),
    );
    conn.record_pending_route(json("-0.0"), ResponseRoute::Session("zero".to_string()));
    let answer = json(r#"{"id":{"b":[true],"a":1},"result":0}"#);
    assert!(matches!(conn.classify(&answer), Target::Session(s) if s == "s"));
    let zero = json(r#"{"id":0.0,"result":0}"#);
    assert!(matches!(conn.classify(&zero), Target::Session(s) if s == "zero"));
}

#[test]
fn null_id_awaits_no_answer() {
    let (mut conn, _agent_tx, _runtime) = fake_connection();
    conn.record_pending_route(Value::Null, ResponseRoute::Session("s".to_string()));
    let answer = json(r#"{"id":null,"result":{}}"#);
    assert!(matches!(conn.classify(&answer), Target::Connection));
}

#[test]
fn call_without_session_goes_to_the_connection() {
    let (mut conn, _agent_tx, _runtime) = fake_connection();
    conn.record_pending_route(json("3"), ResponseRoute::Session("s".to_string()));
    let call = json(r#"{"id":3,"method":"m","result":1,"params":{"sessionId":4}}"#);
    assert!(matches!(conn.classify(&call), Target::Connection));
    let answer = json(r#"{"id":3,"result":1}"#);
    assert!(matches!(conn.classify(&answer), Target::Session(s) if s == "s"));
}

#[test]
fn session_id_is_read_from_params() {
    let found = extract_session_id_from_params(&json(r#"{"params":{"sessionId":"abc"}}"#));
    assert_eq!(found, Some("abc".to_string()));
    assert_eq!(extract_session_id_from_params(&json(r#"{"params":{"sessionId":1}}"#)), None);
    assert_eq!(extract_session_id_from_params(&json(r#"{"params":["sessionId"]}"#)), None);
    assert_eq!(extract_session_id_from_params(&json(r#"{"sessionId":"abc"}"#)), None);
    assert_eq!(extract_session_id_from_params(&json("\"params\"")), None);
}

#[test]
fn early_session_message_is_replayed_once() {
    let (mut conn, _agent_tx, _runtime) = fake_connection();
    let message = r#"{"method":"session/update","params":{"sessionId":"s"}}"#;
    conn.route_outbound(message.to_string());
    conn.ensure_session("s");
    let (first, mut rx) = conn.subscribe_session_stream("s").unwrap();
    assert_eq!(first, vec![message]);
    let (second, _rx) = conn.subscribe_session_stream("s").unwrap();
    assert!(second.is_empty());
    assert_eq!(rx.try_recv(), Err(TryRecvError::Empty));
    conn.route_outbound(message.to_string());
    assert_eq!(rx.try_recv().unwrap(), message);
}

#[test]
fn sessions_do_not_mix() {
    let (mut conn, _agent_tx, _runtime) = fake_connection();
    for session in ["a", "b", "a"] {
        conn.route_outbound(format!(
            r#"{{"method":"m","params":{{"sessionId":"{}"}}}}"#,
            session
        ));
    }
    let (a, _rx) = conn.subscribe_session_stream("a").unwrap();
    assert_eq!(a.len(), 2);
    let (b, _rx) = conn.subscribe_session_stream("b").unwrap();
    assert_eq!(b.len(), 1);
    let (all, _rx) = conn.subscribe_all_outbound();
    assert_eq!(all.len(), 3);
}

#[test]
fn router_is_started_once() {
    let (mut conn, agent_tx, runtime) = fake_connection();
    assert_eq!(conn.to_agent_tx.max_capacity(), 256);
    assert!(!conn.init_complete);
    let mut router = conn.start_router().unwrap();
    agent_tx.send("hello".to_string()).unwrap();
    assert_eq!(router.try_recv().unwrap(), "hello");
    assert!(conn.init_complete);
    assert!(conn.start_router().is_none());
    conn.attach_router(runtime.spawn(std::future::pending::<()>()));
    let tasks = conn.shutdown();
    assert!(tasks.agent.is_some());
    assert!(tasks.router.is_some());
    let again = conn.shutdown();
    assert!(again.agent.is_none());
    assert!(again.router.is_none());
}

#[test]
fn consumed_queue_starts_no_router() {
    let (mut conn, _agent_tx, _runtime) = fake_connection();
    conn.init_receiver = None;
    assert!(conn.start_router().is_none());
    assert!(!conn.init_complete);
}

#[test]
fn client_sees_what_came_before_and_after_it_joined() {
    let (mut conn, _agent_tx, _runtime) = fake_connection();
    let update = |n: u32| {
        format!(r#"{{"method":"session/update","params":{{"sessionId":"s","n":{}}}}}"#, n)
    };
    conn.route_outbound(update(1));
    conn.subscribe_connection_stream();
    conn.ensure_session("other");
    conn.route_outbound(update(2));

    let (replay, mut live) = conn.subscribe_session_stream("s").unwrap();
    assert_eq!(replay, vec![update(1), update(2)]);

    conn.route_outbound("no json".to_string());
    conn.subscribe_all_outbound();
    conn.route_outbound(update(3));
    assert_eq!(live.try_recv().unwrap(), update(3));
    assert_eq!(live.try_recv(), Err(TryRecvError::Empty));
}

#[test]
fn existing_session_keeps_its_subscribers() {
    let (mut conn, _agent_tx, _runtime) = fake_connection();
    let update = r#"{"method":"session/update","params":{"sessionId":"s"}}"#;
    conn.ensure_session("s");
    let (_, mut first) = conn.subscribe_session_stream("s").unwrap();
    conn.ensure_session("s");
    conn.ensure_session("t");
    let (_, mut second) = conn.subscribe_session_stream("s").unwrap();
    let (_, mut other) = conn.subscribe_session_stream("t").unwrap();
    conn.record_pending_route(Value::from(1), ResponseRoute::Connection);
    conn.shutdown();
    conn.route_outbound(update.to_string());
    assert!(first.same_channel(&second));
    assert!(!first.same_channel(&other));
    assert_eq!(first.try_recv().unwrap(), update);
    assert_eq!(second.try_recv().unwrap(), update);
    assert_eq!(other.try_recv(), Err(TryRecvError::Empty));
}

#[test]
fn receiver_of_everything_gets_everything_that_follows() {
    let (mut conn, _agent_tx, _runtime) = fake_connection();
    conn.route_outbound("1".to_string());
    let (replay, mut live) = conn.subscribe_all_outbound();
    conn.ensure_session("s");
    conn.route_outbound("2".to_string());
    conn.subscribe_connection_stream();
    conn.route_outbound("3".to_string());
    assert_eq!(replay, vec!["1"]);
    assert_eq!(live.try_recv().unwrap(), "2");
    assert_eq!(live.try_recv().unwrap(), "3");
    assert_eq!(live.try_recv(), Err(TryRecvError::Empty));
}

#[test]
fn dropped_messages_are_counted() {
    let (mut conn, _agent_tx, _runtime) = fake_connection();
    for _ in 0..PRE_SUBSCRIBE_BUFFER_CAPACITY {
        assert_eq!(conn.route_outbound("no json".to_string()), 0);
    }
    assert_eq!(conn.route_outbound("no json".to_string()), 2);
    conn.subscribe_connection_stream();
    assert_eq!(conn.route_outbound("no json".to_string()), 1);
    conn.subscribe_all_outbound();
    assert_eq!(conn.route_outbound("no json".to_string()), 0);
}
