use codev::connection::Connection;
use codev::http::{
    accept_parsed, accept_post, decode_post, handle_delete, handle_get, handle_initialize,
    handle_post, judge_post, open_event_stream, posted_reply, InitializeAction,
    InitializeEvent, MessageKind, PostStep, Receipt,
};
use codev::registry::ConnectionRegistry;
use codev::reply::{Body, Reply, Status};
use serde_json::Value;
use tokio::runtime::{Builder, Runtime};
use tokio::sync::mpsc;

fn connection() -> (Connection, Runtime) {
    let runtime = Builder::new_current_thread().build().unwrap();
    let (to_agent_tx, _) = mpsc::channel::<String>(256);
    let (_, from_agent_rx) = mpsc::unbounded_channel::<String>();
    let agent_handle = runtime.spawn(std::future::pending::<()>());
    (Connection::new(to_agent_tx, from_agent_rx, agent_handle), runtime)
}

fn json(text: &str) -> Value {
    serde_json::from_str(text).unwrap()
}

fn request() -> MessageKind {
    MessageKind {
        initialize: false,
        request_with_id: true,
        notification: false,
        response: false,
        session_scoped: false,
    }
}

fn registry() -> ConnectionRegistry<(), u32> {
    let mut registry = ConnectionRegistry::new(());
    registry.register("one".to_string(), 1);
    registry.register("two".to_string(), 2);
    registry
}

fn assert_text(reply: &Reply, status: Status, text: &str) {
    assert_eq!(reply.status, status);
    assert!(matches!(&reply.body, Body::Text(body) if body == text));
    assert_eq!(reply.connection_id, None);
}

fn refusal<C>(step: PostStep<C>) -> Reply {
    match step {
        PostStep::Refuse(reply) => reply,
        _ => panic!("not refused"),
    }
}

#[test]
fn status_codes() {
    assert_eq!(Status::Success.code(), 200);
    assert_eq!(Status::Accepted.code(), 202);
    assert_eq!(Status::BadRequest.code(), 400);
    assert_eq!(Status::NotFound.code(), 404);
    assert_eq!(Status::NotAcceptable.code(), 406);
    assert_eq!(Status::UnsupportedMediaType.code(), 415);
    assert_eq!(Status::InternalServerError.code(), 500);
    assert_eq!(Status::NotImplemented.code(), 501);
}

#[test]
fn content_type_must_be_json() {
    let text = "Unsupported Media Type: Content-Type must be application/json";
    assert_text(&decode_post(false, None).unwrap_err(), Status::UnsupportedMediaType, text);
    assert_text(&decode_post(false, Some(b"{}")).unwrap_err(), Status::UnsupportedMediaType, text);
    let registry = registry();
    let step = handle_post(&registry, false, Some(b"{}"), |_| request(), Some("one"), None);
    assert_text(&refusal(step), Status::UnsupportedMediaType, text);
}

#[test]
fn body_must_be_json() {
    assert_eq!(decode_post(true, Some(b"{\"a\": 1}")).unwrap(), json(r#"{"a":1}"#));
    assert_text(
        &decode_post(true, Some(b"{")).unwrap_err(),
        Status::BadRequest,
        "Invalid JSON: EOF while parsing an object at line 1 column 1",
    );
    assert_text(
        &decode_post(true, None).unwrap_err(),
        Status::BadRequest,
        "Failed to read request body",
    );
    assert_text(
        &accept_parsed(Err("why".to_string())).unwrap_err(),
        Status::BadRequest,
        "Invalid JSON: why",
    );
}

#[test]
fn batch_is_not_supported() {
    let mut kind = request();
    kind.initialize = true;
    let step = refusal(judge_post(&registry(), json("[]"), kind, None, None));
    assert_text(&step, Status::NotImplemented, "Batch requests are not supported");
}

#[test]
fn initialize_needs_no_connection() {
    let mut kind = request();
    kind.initialize = true;
    let registry = registry();
    let step = judge_post(&registry, json(r#"{ "id": 0, "a": "b" }"#), kind, None, None);
    assert!(matches!(step, PostStep::Initialize(text) if text == r#"{"a":"b","id":0}"#));
}

#[test]
fn post_must_name_an_open_connection() {
    let registry = registry();
    let message = json(r#"{"id":1,"method":"m"}"#);
    assert_text(
        &refusal(judge_post(&registry, message.clone(), request(), None, Some("s"))),
        Status::BadRequest,
        "Bad Request: Acp-Connection-Id header required",
    );
    assert_text(
        &refusal(judge_post(&registry, message.clone(), request(), Some("three"), Some("s"))),
        Status::NotFound,
        "Unknown Acp-Connection-Id",
    );
    let step = judge_post(&registry, message.clone(), request(), Some("two"), None);
    assert!(matches!(step, PostStep::Deliver { connection: 2, .. }));
}

#[test]
fn post_is_judged_by_the_rules() {
    let registry = registry();
    let body: &[u8] = br#"{"id": 1, "method": "start"}"#;
    let rules = |message: &Value| {
        let mut kind = request();
        kind.initialize = message.get("method") == Some(&Value::from("start"));
        kind
    };
    let step = handle_post(&registry, true, Some(body), rules, None, None);
    assert!(matches!(step, PostStep::Initialize(text) if text == r#"{"id":1,"method":"start"}"#));
    let body: &[u8] = br#"{"id": 1, "method": "go"}"#;
    match handle_post(&registry, true, Some(body), rules, Some("two"), None) {
        PostStep::Deliver { connection, message, kind } => {
            assert_eq!(connection, &2);
            assert_eq!(message, json(r#"{"method":"go","id":1}"#));
            assert!(kind.request_with_id);
        }
        _ => panic!("not delivered"),
    }
    assert_text(
        &refusal(handle_post(&registry, true, Some(b"nope"), rules, Some("two"), None)),
        Status::BadRequest,
        "Invalid JSON: expected ident at line 1 column 2",
    );
}

#[test]
fn session_scoped_method_must_name_a_session() {
    let registry = registry();
    let mut kind = request();
    kind.session_scoped = true;
    let message = json(r#"{"id":1,"method":"session/prompt"}"#);
    assert_text(
        &refusal(judge_post(&registry, message.clone(), kind, Some("one"), None)),
        Status::BadRequest,
        "Bad Request: Acp-Session-Id header required for session-scoped methods",
    );
    let step = judge_post(&registry, message.clone(), kind, Some("one"), Some("s"));
    assert!(matches!(step, PostStep::Deliver { connection: 1, .. }));
    let nameless = json(r#"{"id":1,"method":7}"#);
    let step = judge_post(&registry, nameless.clone(), kind, Some("one"), None);
    assert!(matches!(step, PostStep::Deliver { connection: 1, .. }));
}

#[test]
fn message_must_be_json_rpc() {
    let registry = registry();
    let mut kind = request();
    kind.request_with_id = false;
    assert_text(
        &refusal(judge_post(&registry, json("{}"), kind, Some("one"), None)),
        Status::BadRequest,
        "Invalid JSON-RPC message",
    );
    kind.notification = true;
    let step = judge_post(&registry, json("{}"), kind, Some("one"), None);
    assert!(matches!(step, PostStep::Deliver { connection: 1, .. }));
    kind.notification = false;
    kind.response = true;
    let step = judge_post(&registry, json("{}"), kind, Some("one"), None);
    assert!(matches!(step, PostStep::Deliver { connection: 1, .. }));
}

#[test]
fn answer_to_posted_request_reaches_its_session() {
    let (mut conn, _runtime) = connection();
    let message = json(r#"{"method":"session/prompt","id":9}"#);
    let text = accept_post(&mut conn, &message, request(), Some("s"));
    assert_eq!(text, r#"{"id":9,"method":"session/prompt"}"#);
    let (replay, mut live) = conn.subscribe_session_stream("s").unwrap();
    assert!(replay.is_empty());
    let answer = r#"{"id":9,"result":{}}"#;
    conn.route_outbound(answer.to_string());
    assert_eq!(live.try_recv().unwrap(), answer);
    conn.route_outbound(answer.to_string());
    let (replay, _) = conn.subscribe_connection_stream();
    assert_eq!(replay, vec![answer]);
}

#[test]
fn answer_to_posted_request_without_session_reaches_the_connection() {
    let (mut conn, _runtime) = connection();
    accept_post(&mut conn, &json(r#"{"id":"x","method":"m"}"#), request(), None);
    conn.route_outbound(r#"{"id":"x","error":{}}"#.to_string());
    let (replay, _) = conn.subscribe_connection_stream();
    assert_eq!(replay.len(), 1);
    assert!(conn.subscribe_session_stream("s").is_none());
}

#[test]
fn notification_is_not_awaited() {
    let (mut conn, _runtime) = connection();
    let mut kind = request();
    kind.request_with_id = false;
    accept_post(&mut conn, &json(r#"{"id":1,"result":0}"#), kind, Some("s"));
    conn.route_outbound(r#"{"id":1,"result":{}}"#.to_string());
    let (replay, _) = conn.subscribe_session_stream("s").unwrap();
    assert!(replay.is_empty());
}

#[test]
fn posted_message_is_accepted_once_delivered() {
    let reply = posted_reply(true);
    assert_eq!(reply.status, Status::Accepted);
    assert!(matches!(reply.body, Body::Empty));
    assert_text(
        &posted_reply(false),
        Status::InternalServerError,
        "Failed to forward message to agent",
    );
}

#[test]
fn initialize_runs_to_its_end() {
    let mut registry: ConnectionRegistry<(), u32> = ConnectionRegistry::new(());
    let id = registry.create_connection(5);
    assert_eq!(registry.get(&id), Some(&5));
    let action = handle_initialize(&mut registry, InitializeEvent::Created(Some(id.clone())));
    assert!(matches!(action, InitializeAction::Forward(to) if to == id));
    let forwarded = InitializeEvent::Forwarded { connection_id: id.clone(), delivered: true };
    let action = handle_initialize(&mut registry, forwarded);
    assert!(matches!(action, InitializeAction::Receive(from) if from == id));
    let received = InitializeEvent::Received {
        connection_id: id.clone(),
        receipt: Receipt::Message("{}".to_string()),
    };
    match handle_initialize(&mut registry, received) {
        InitializeAction::Complete(reply) => {
            assert_eq!(reply.status, Status::Success);
            assert!(matches!(reply.body, Body::Json(text) if text == "{}"));
            assert_eq!(reply.connection_id, Some(id.clone()));
        }
        _ => panic!("not complete"),
    }
    assert_eq!(registry.get(&id), Some(&5));
}

#[test]
fn initialize_reply_omits_an_id_that_is_no_header_value() {
    let mut registry = registry();
    for (id, named) in [("a\nb", false), ("a\u{7f}", false), ("a\tb \u{e9}", true), ("", true)] {
        let received = InitializeEvent::Received {
            connection_id: id.to_string(),
            receipt: Receipt::Message(String::new()),
        };
        match handle_initialize(&mut registry, received) {
            InitializeAction::Complete(reply) => assert_eq!(reply.connection_id.is_some(), named),
            _ => panic!("not complete"),
        }
    }
}

#[test]
fn initialize_failures_leave_no_connection() {
    let mut registry = registry();
    match handle_initialize(&mut registry, InitializeEvent::Created(None)) {
        InitializeAction::Refuse(reply) => assert_text(
            &reply,
            Status::InternalServerError,
            "Failed to create connection",
        ),
        _ => panic!("not refused"),
    }
    let one = || "one".to_string();
    let failures = [
        (
            InitializeEvent::Forwarded { connection_id: one(), delivered: false },
            "Failed to forward initialize to agent",
        ),
        (
            InitializeEvent::Received { connection_id: one(), receipt: Receipt::Consumed },
            "Initialize receiver already consumed",
        ),
        (
            InitializeEvent::Received { connection_id: one(), receipt: Receipt::Closed },
            "Agent closed before initialize response",
        ),
    ];
    for (event, text) in failures {
        registry.register(one(), 1);
        match handle_initialize(&mut registry, event) {
            InitializeAction::Abandon(reply) => {
                assert_text(&reply, Status::InternalServerError, text)
            }
            _ => panic!("not abandoned"),
        }
        assert_eq!(registry.get("one"), None);
        assert_eq!(registry.get("two"), Some(&2));
    }
}

#[test]
fn get_is_refused_for_three_reasons() {
    let registry = registry();
    assert_text(
        &handle_get(&registry, false, Some("one")).unwrap_err(),
        Status::NotAcceptable,
        "Not Acceptable: Client must accept text/event-stream",
    );
    assert_text(
        &handle_get(&registry, true, None).unwrap_err(),
        Status::BadRequest,
        "Bad Request: Acp-Connection-Id header required",
    );
    assert_text(
        &handle_get(&registry, true, Some("three")).unwrap_err(),
        Status::NotFound,
        "Unknown Acp-Connection-Id",
    );
    assert_eq!(handle_get(&registry, true, Some("one")).unwrap(), &1);
}

#[test]
fn event_stream_of_a_session_is_opened_on_demand() {
    let (mut conn, _runtime) = connection();
    let stream = open_event_stream(&mut conn, "c".to_string(), Some("s".to_string()));
    assert!(stream.replay.is_empty());
    assert_eq!(stream.connection_id.as_deref(), Some("c"));
    assert_eq!(stream.session_id.as_deref(), Some("s"));
    let mut live = stream.receiver;
    let message = r#"{"method":"m","params":{"sessionId":"s"}}"#;
    conn.route_outbound(message.to_string());
    assert_eq!(live.try_recv().unwrap(), message);
}

#[test]
fn event_stream_of_the_connection_replays() {
    let (mut conn, _runtime) = connection();
    conn.route_outbound("hello".to_string());
    let stream = open_event_stream(&mut conn, "\r".to_string(), None);
    assert_eq!(stream.replay, vec!["hello"]);
    assert_eq!(stream.connection_id, None);
    assert_eq!(stream.session_id, None);
}

#[test]
fn deleted_connection_is_unknown() {
    let mut registry = registry();
    let (reply, closed) = handle_delete(&mut registry, Some("one"));
    assert_eq!(reply.status, Status::Accepted);
    assert!(matches!(reply.body, Body::Empty));
    assert_eq!(closed, Some(1));
    let (reply, closed) = handle_delete(&mut registry, Some("one"));
    assert_text(&reply, Status::NotFound, "Unknown Acp-Connection-Id");
    assert_eq!(closed, None);
    assert!(handle_get(&registry, true, Some("one")).is_err());
    assert!(handle_get(&registry, true, Some("two")).is_ok());
    let (reply, closed) = handle_delete(&mut registry, None);
    assert_text(
        &reply,
        Status::BadRequest,
        "Bad Request: Acp-Connection-Id header required",
    );
    assert_eq!(closed, None);
}

#[test]
fn connection_ids_are_random_uuids() {
    let mut registry: ConnectionRegistry<&str, u32> = ConnectionRegistry::new("server");
    assert_eq!(registry.server, "server");
    let first = registry.create_connection(1);
    let second = registry.create_connection(2);
    assert_ne!(first, second);
    for id in [&first, &second] {
        assert_eq!(id.len(), 36);
        assert_eq!(id.chars().nth(14), Some('4'));
        assert!("89ab".contains(id.chars().nth(19).unwrap()));
        let form = id.chars().enumerate().all(|(i, c)| match i {
            8 | 13 | 18 | 23 => c == '-',
            _ => c.is_ascii_digit() || ('a'..='f').contains(&c),
        });
        assert!(form);
    }
    assert_eq!(registry.remove(&first), Some(1));
    assert_eq!(registry.get(&first), None);
    assert_eq!(registry.get(&second), Some(&2));
    assert_eq!(registry.remove(&first), None);
}

#[test]
fn answers_cross_without_mixing() {
    let (mut conn, _runtime) = connection();
    accept_post(&mut conn, &json(r#"{"id":1,"method":"a"}"#), request(), Some("s1"));
    let mut second = open_event_stream(&mut conn, "c".to_string(), Some("s2".to_string()));
    accept_post(&mut conn, &json(r#"{"id":2,"method":"a"}"#), request(), Some("s2"));
    accept_post(&mut conn, &json(r#"{"id":3,"method":"a"}"#), request(), None);

    conn.route_outbound(r#"{"id":3,"result":{}}"#.to_string());
    conn.route_outbound(r#"{"id":2,"result":{}}"#.to_string());
    conn.route_outbound(r#"{"id":1,"error":{}}"#.to_string());

    let first = open_event_stream(&mut conn, "c".to_string(), Some("s1".to_string()));
    let other = open_event_stream(&mut conn, "c".to_string(), None);
    assert_eq!(first.replay, vec![r#"{"id":1,"error":{}}"#]);
    assert_eq!(second.receiver.try_recv().unwrap(), r#"{"id":2,"result":{}}"#);
    assert!(second.receiver.try_recv().is_err());
    assert_eq!(other.replay, vec![r#"{"id":3,"result":{}}"#]);
}

#[test]
fn reused_id_takes_the_later_route() {
    let (mut conn, _runtime) = connection();
    accept_post(&mut conn, &json(r#"{"id":1,"method":"a"}"#), request(), Some("s1"));
    accept_post(&mut conn, &json(r#"{"id":1,"method":"a"}"#), request(), Some("s2"));
    conn.route_outbound(r#"{"id":1,"result":{}}"#.to_string());
    let first = open_event_stream(&mut conn, "c".to_string(), Some("s1".to_string()));
    let second = open_event_stream(&mut conn, "c".to_string(), Some("s2".to_string()));
    assert!(first.replay.is_empty());
    assert_eq!(second.replay, vec![r#"{"id":1,"result":{}}"#]);
}
