//! What the HTTP endpoints decide: which requests are refused and how, what becomes of the
//! others, and what is replied.

use crate::channel::missed;
use crate::connection::{
    document_of, lemma_answer_goes_where_its_request_came_from, Connection, ConnectionView, Step,
};
use crate::json::{
    as_text, compact_text, copy_json, is_array, json_of, member, parse_bytes, parsed_bytes,
    write_json, Json,
};
use crate::registry::{is_connection_id, is_hex_digit, ConnectionRegistry};
use crate::reply::{Body, BodyView, Reply, ReplyView, Status};
use crate::routes::{Destination, ResponseRoute};
use crate::stream::{newest, texts, PRE_SUBSCRIBE_BUFFER_CAPACITY};
use serde_json::Value;
use tokio::sync::broadcast;
use vstd::prelude::*;

verus! {

/// Whether a character may stand in a header value.
pub open spec fn is_header_char(c: char) -> bool {
    c == '\t' || (' ' <= c && c != '\u{7f}')
}

/// Whether a text may be a header value.
pub open spec fn is_header_value(text: Seq<char>) -> bool {
    forall|i: int| 0 <= i < text.len() ==> is_header_char(#[trigger] text[i])
}

/// A text where it may be a header value.
pub open spec fn as_header_value(text: Seq<char>) -> Option<Seq<char>> {
    if is_header_value(text) {
        Some(text)
    } else {
        None
    }
}

/// Calls `HeaderValue::from_str` of the `http` crate, which `axum` hands on. Trusted: it takes
/// a text exactly when no character of it is an ASCII control character other than the tab.
#[verifier::external_body]
fn header_value_is_valid(text: &str) -> (valid: bool)
    ensures
        valid == is_header_value(text@),
{
    axum::http::HeaderValue::from_str(text).is_ok()
}

/// A text where it may be a header value.
fn header_value(text: String) -> (value: Option<String>)
    ensures
        match value {
            Some(value) => as_header_value(text@) == Some(value@),
            None => as_header_value(text@) is None,
        },
{
    if header_value_is_valid(text.as_str()) {
        Some(text)
    } else {
        None
    }
}

/// What a posted message is, as the rules of the protocol have it.
#[derive(Clone, Copy, Debug)]
pub struct MessageKind {
    /// It asks for a new connection.
    pub initialize: bool,
    /// It is a request with an id.
    pub request_with_id: bool,
    /// It is a notification.
    pub notification: bool,
    /// It is a response.
    pub response: bool,
    /// Its method is one that takes place in a session.
    pub session_scoped: bool,
}

/// What becomes of a posted message.
pub enum PostVerdict {
    /// It is refused.
    Refuse(ReplyView),
    /// It opens a connection.
    Initialize,
    /// It goes to the agent of a connection.
    Deliver,
}

/// What becomes of a posted message. The first reason to refuse it decides.
pub open spec fn post_verdict<C>(
    document: Json,
    kind: MessageKind,
    connections: Map<Seq<char>, C>,
    connection_id: Option<Seq<char>>,
    session_id: Option<Seq<char>>,
) -> PostVerdict {
    if document is Array {
        PostVerdict::Refuse(
            ReplyView::text(Status::NotImplemented, "Batch requests are not supported"@),
        )
    } else if kind.initialize {
        PostVerdict::Initialize
    } else if connection_id is None {
        PostVerdict::Refuse(
            ReplyView::text(
                Status::BadRequest,
                "Bad Request: Acp-Connection-Id header required"@,
            ),
        )
    } else if !connections.contains_key(connection_id->0) {
        PostVerdict::Refuse(ReplyView::text(Status::NotFound, "Unknown Acp-Connection-Id"@))
    } else if lacks_session(document, kind, session_id) {
        PostVerdict::Refuse(
            ReplyView::text(
                Status::BadRequest,
                "Bad Request: Acp-Session-Id header required for session-scoped methods"@,
            ),
        )
    } else if !kind.request_with_id && !kind.notification && !kind.response {
        PostVerdict::Refuse(ReplyView::text(Status::BadRequest, "Invalid JSON-RPC message"@))
    } else {
        PostVerdict::Deliver
    }
}

/// Whether a message calls a method that takes place in a session, and names none.
pub open spec fn lacks_session(
    document: Json,
    kind: MessageKind,
    session_id: Option<Seq<char>>,
) -> bool {
    &&& document.member("method"@) matches Some(method)
    &&& method.text() is Some
    &&& kind.session_scoped
    &&& session_id is None
}

/// The text that a header holds.
pub open spec fn header_text(header: Option<&str>) -> Option<Seq<char>> {
    match header {
        Some(text) => Some(text@),
        None => None,
    }
}

/// What is to be done with a posted message.
pub enum PostStep<'a, C> {
    /// Refuse it.
    Refuse(Reply),
    /// Open a connection, and hand its agent this text.
    Initialize(String),
    /// Hand it to this connection.
    Deliver { connection: &'a C, message: Value, kind: MessageKind },
}

/// Whether `step` is what is to be done with a message of this kind.
pub open spec fn post_follows<C>(
    message: Value,
    kind: MessageKind,
    connections: Map<Seq<char>, C>,
    connection_id: Option<Seq<char>>,
    session_id: Option<Seq<char>>,
    step: PostStep<'_, C>,
) -> bool {
    match post_verdict(json_of(message), kind, connections, connection_id, session_id) {
        PostVerdict::Refuse(refusal) => step matches PostStep::Refuse(reply) && reply@ == refusal,
        PostVerdict::Initialize => step matches PostStep::Initialize(text) && text@
            == compact_text(message),
        PostVerdict::Deliver => step == (PostStep::Deliver {
            connection: &connections[connection_id->0],
            message,
            kind,
        }),
    }
}

/// Whether `step` is what is to be done with a message of the kind that the rules tell.
pub open spec fn post_follows_rules<C, F: Fn(&Value) -> MessageKind>(
    rules: F,
    message: Value,
    connections: Map<Seq<char>, C>,
    connection_id: Option<Seq<char>>,
    session_id: Option<Seq<char>>,
    step: PostStep<'_, C>,
) -> bool {
    exists|kind: MessageKind| #[trigger]
        call_ensures(rules, (&message,), kind) && post_follows(
            message,
            kind,
            connections,
            connection_id,
            session_id,
            step,
        )
}

/// The refusal of a body that is no message: it is not declared to be JSON, it could not be
/// read, or it is not JSON, for the reason given.
pub open spec fn body_refusal(is_json: bool, body: Option<Result<Value, Seq<char>>>) -> Option<
    ReplyView,
> {
    if !is_json {
        Some(
            ReplyView::text(
                Status::UnsupportedMediaType,
                "Unsupported Media Type: Content-Type must be application/json"@,
            ),
        )
    } else {
        match body {
            None => Some(ReplyView::text(Status::BadRequest, "Failed to read request body"@)),
            Some(Err(error)) => Some(
                ReplyView::text(Status::BadRequest, "Invalid JSON: "@ + error),
            ),
            Some(Ok(_)) => None,
        }
    }
}

/// What the body of a request reads as.
pub open spec fn read_body(body: Option<&[u8]>) -> Option<Result<Value, Seq<char>>> {
    match body {
        Some(bytes) => Some(parsed_bytes(bytes@)),
        None => None,
    }
}

/// Takes what the body of a request reads as, or refuses it with the message of the error.
pub fn accept_parsed(parsed: Result<Value, String>) -> (message: Result<Value, Reply>)
    ensures
        match parsed {
            Ok(value) => message == Ok::<Value, Reply>(value),
            Err(error) => message matches Err(reply) && body_refusal(
                true,
                Some(Err::<Value, Seq<char>>(error@)),
            ) == Some(reply@),
        },
{
    match parsed {
        Ok(value) => Ok(value),
        Err(error) => {
            let mut text: String = "Invalid JSON: ".to_owned();
            text.append(error.as_str());
            Err(Reply::text(Status::BadRequest, text.as_str()))
        },
    }
}

/// Reads the message in the body of a request. There is no body where reading it failed.
pub fn decode_post(is_json: bool, body: Option<&[u8]>) -> (message: Result<Value, Reply>)
    ensures
        match message {
            Ok(value) => {
                &&& body_refusal(is_json, read_body(body)) is None
                &&& read_body(body) == Some(Ok::<Value, Seq<char>>(value))
            },
            Err(reply) => body_refusal(is_json, read_body(body)) == Some(reply@),
        },
{
    if !is_json {
        return Err(
            Reply::text(
                Status::UnsupportedMediaType,
                "Unsupported Media Type: Content-Type must be application/json",
            ),
        );
    }
    match body {
        Some(bytes) => accept_parsed(parse_bytes(bytes)),
        None => Err(Reply::text(Status::BadRequest, "Failed to read request body")),
    }
}

/// Decides what is to be done with a message of a given kind.
pub fn judge_post<'a, S, C>(
    registry: &'a ConnectionRegistry<S, C>,
    message: Value,
    kind: MessageKind,
    connection_id: Option<&str>,
    session_id: Option<&str>,
) -> (step: PostStep<'a, C>)
    requires
        registry.wf(),
    ensures
        post_follows(
            message,
            kind,
            registry@,
            header_text(connection_id),
            header_text(session_id),
            step,
        ),
{
    if is_array(&message) {
        return PostStep::Refuse(
            Reply::text(Status::NotImplemented, "Batch requests are not supported"),
        );
    }
    if kind.initialize {
        return PostStep::Initialize(write_json(&message));
    }
    let connection = match connection_id {
        Some(connection_id) => match registry.get(connection_id) {
            Some(connection) => connection,
            None => {
                return PostStep::Refuse(
                    Reply::text(Status::NotFound, "Unknown Acp-Connection-Id"),
                );
            },
        },
        None => {
            return PostStep::Refuse(
                Reply::text(Status::BadRequest, "Bad Request: Acp-Connection-Id header required"),
            );
        },
    };
    if let Some(method) = member(&message, "method") {
        if as_text(method).is_some() && kind.session_scoped && session_id.is_none() {
            return PostStep::Refuse(
                Reply::text(
                    Status::BadRequest,
                    "Bad Request: Acp-Session-Id header required for session-scoped methods",
                ),
            );
        }
    }
    if !kind.request_with_id && !kind.notification && !kind.response {
        return PostStep::Refuse(Reply::text(Status::BadRequest, "Invalid JSON-RPC message"));
    }
    PostStep::Deliver { connection, message, kind }
}

/// Decides what is to be done with a post: whether its body is declared to be JSON, the body
/// where it could be read, the rules that tell what a message is, and the connection and the
/// session that the headers name.
pub fn handle_post<'a, S, C, F: Fn(&Value) -> MessageKind>(
    registry: &'a ConnectionRegistry<S, C>,
    is_json: bool,
    body: Option<&[u8]>,
    rules: F,
    connection_id: Option<&str>,
    session_id: Option<&str>,
) -> (step: PostStep<'a, C>)
    requires
        registry.wf(),
        forall|message: &Value| call_requires(rules, (message,)),
    ensures
        match read_body(body) {
            Some(Ok(message)) if is_json => post_follows_rules(
                rules,
                message,
                registry@,
                header_text(connection_id),
                header_text(session_id),
                step,
            ),
            _ => step matches PostStep::Refuse(reply) && body_refusal(is_json, read_body(body))
                == Some(reply@),
        },
{
    match decode_post(is_json, body) {
        Ok(message) => {
            let kind = rules(&message);
            assert(call_ensures(rules, (&message,), kind));
            judge_post(registry, message, kind, connection_id, session_id)
        },
        Err(reply) => PostStep::Refuse(reply),
    }
}

/// Where the answer to a posted request is to go: to the session that the request names, or
/// else to the connection.
pub open spec fn reply_route(session_id: Option<Seq<char>>) -> Destination {
    match session_id {
        Some(session_id) => Destination::Session(session_id),
        None => Destination::Connection,
    }
}

impl ConnectionView {
    /// A posted message has been taken in: the session that it names is open, and the answer to
    /// a request with an id is awaited.
    pub open spec fn posted(
        self,
        document: Json,
        request_with_id: bool,
        session_id: Option<Seq<char>>,
    ) -> ConnectionView {
        let opened = match session_id {
            Some(session_id) => self.with_session(session_id),
            None => self,
        };
        match document.member("id"@) {
            Some(id) if request_with_id => opened.awaiting(id, reply_route(session_id)),
            _ => opened,
        }
    }
}

/// Takes a posted message in, and gives the text to hand to the agent.
pub fn accept_post(
    connection: &mut Connection,
    message: &Value,
    kind: MessageKind,
    session_id: Option<&str>,
) -> (text: String)
    requires
        old(connection).wf(),
    ensures
        final(connection).wf(),
        final(connection)@ == old(connection)@.posted(
            json_of(*message),
            kind.request_with_id,
            header_text(session_id),
        ),
        final(connection).keeps_receivers(*old(connection)),
        text@ == compact_text(*message),
{
    if let Some(session_id) = session_id {
        connection.ensure_session(session_id);
    }
    if kind.request_with_id {
        if let Some(id) = member(message, "id") {
            let route = match session_id {
                Some(session_id) => ResponseRoute::Session(session_id.to_owned()),
                None => ResponseRoute::Connection,
            };
            connection.record_pending_route(copy_json(id), route);
        }
    }
    write_json(message)
}

/// The reply to a posted message, once it was handed to the agent or that failed.
pub fn posted_reply(delivered: bool) -> (reply: Reply)
    ensures
        reply@ == (if delivered {
            ReplyView::accepted()
        } else {
            ReplyView::text(Status::InternalServerError, "Failed to forward message to agent"@)
        }),
{
    if delivered {
        Reply::accepted()
    } else {
        Reply::text(Status::InternalServerError, "Failed to forward message to agent")
    }
}

/// What the agent has answered to the initialize request.
pub enum Receipt {
    /// Somebody else has taken the queue from the agent.
    Consumed,
    /// The agent has closed the queue.
    Closed,
    /// The agent's message.
    Message(String),
}

/// What has come of a step towards a new connection.
pub enum InitializeEvent {
    /// The connection was created under this id, or that failed.
    Created(Option<String>),
    /// The initialize request was handed to the agent of this connection, or that failed.
    Forwarded { connection_id: String, delivered: bool },
    /// The agent of this connection has answered, or that failed.
    Received { connection_id: String, receipt: Receipt },
}

/// The next step towards a new connection.
pub enum InitializeAction {
    /// Hand the initialize request to the agent of this connection.
    Forward(String),
    /// Wait for a message from the agent of this connection.
    Receive(String),
    /// Reply; there is no connection.
    Refuse(Reply),
    /// Shut the connection down, which is registered no more, and reply.
    Abandon(Reply),
    /// Start the router of the connection, and reply.
    Complete(Reply),
}

/// A refusal on account of the agent.
pub open spec fn agent_failure(text: Seq<char>) -> ReplyView {
    ReplyView::text(Status::InternalServerError, text)
}

/// The reply that hands the agent's answer on, and names the new connection where its id may be
/// a header value.
pub open spec fn initialized(connection_id: Seq<char>, answer: Seq<char>) -> ReplyView {
    ReplyView {
        status: Status::Success,
        body: BodyView::Json(answer),
        connection_id: as_header_value(connection_id),
    }
}

/// Whether `action` is the step that follows `event`.
pub open spec fn initialize_follows(event: InitializeEvent, action: InitializeAction) -> bool {
    match event {
        InitializeEvent::Created(None) => action matches InitializeAction::Refuse(reply)
            && reply@ == agent_failure("Failed to create connection"@),
        InitializeEvent::Created(Some(id)) => action matches InitializeAction::Forward(
            connection_id,
        ) && connection_id@ == id@,
        InitializeEvent::Forwarded { connection_id: id, delivered } => if delivered {
            action matches InitializeAction::Receive(connection_id) && connection_id@ == id@
        } else {
            action matches InitializeAction::Abandon(reply) && reply@ == agent_failure(
                "Failed to forward initialize to agent"@,
            )
        },
        InitializeEvent::Received { connection_id: id, receipt } => match receipt {
            Receipt::Consumed => action matches InitializeAction::Abandon(reply) && reply@
                == agent_failure("Initialize receiver already consumed"@),
            Receipt::Closed => action matches InitializeAction::Abandon(reply) && reply@
                == agent_failure("Agent closed before initialize response"@),
            Receipt::Message(answer) => action matches InitializeAction::Complete(reply)
                && reply@ == initialized(id@, answer@),
        },
    }
}

/// The connection that a step has failed for.
pub open spec fn abandoned(event: InitializeEvent) -> Option<Seq<char>> {
    match event {
        InitializeEvent::Created(_) => None,
        InitializeEvent::Forwarded { connection_id, delivered } => if delivered {
            None
        } else {
            Some(connection_id@)
        },
        InitializeEvent::Received { connection_id, receipt } => match receipt {
            Receipt::Message(_) => None,
            _ => Some(connection_id@),
        },
    }
}

/// The connections that are left after a step.
pub open spec fn left_after<C>(
    connections: Map<Seq<char>, C>,
    event: InitializeEvent,
) -> Map<Seq<char>, C> {
    match abandoned(event) {
        Some(connection_id) => connections.remove(connection_id),
        None => connections,
    }
}

/// Decides the next step towards a new connection. A connection for which a step failed is
/// taken out of the registry.
pub fn handle_initialize<S, C>(
    registry: &mut ConnectionRegistry<S, C>,
    event: InitializeEvent,
) -> (action: InitializeAction)
    requires
        old(registry).wf(),
    ensures
        final(registry).wf(),
        final(registry).agents() == old(registry).agents(),
        final(registry)@ == left_after(old(registry)@, event),
        initialize_follows(event, action),
{
    match event {
        InitializeEvent::Created(None) => InitializeAction::Refuse(
            Reply::text(Status::InternalServerError, "Failed to create connection"),
        ),
        InitializeEvent::Created(Some(connection_id)) => InitializeAction::Forward(connection_id),
        InitializeEvent::Forwarded { connection_id, delivered } => {
            if delivered {
                InitializeAction::Receive(connection_id)
            } else {
                let _ = registry.remove(connection_id.as_str());
                InitializeAction::Abandon(
                    Reply::text(
                        Status::InternalServerError,
                        "Failed to forward initialize to agent",
                    ),
                )
            }
        },
        InitializeEvent::Received { connection_id, receipt } => match receipt {
            Receipt::Consumed => {
                let _ = registry.remove(connection_id.as_str());
                InitializeAction::Abandon(
                    Reply::text(
                        Status::InternalServerError,
                        "Initialize receiver already consumed",
                    ),
                )
            },
            Receipt::Closed => {
                let _ = registry.remove(connection_id.as_str());
                InitializeAction::Abandon(
                    Reply::text(
                        Status::InternalServerError,
                        "Agent closed before initialize response",
                    ),
                )
            },
            Receipt::Message(answer) => InitializeAction::Complete(
                Reply {
                    status: Status::Success,
                    body: Body::Json(answer),
                    connection_id: header_value(connection_id),
                },
            ),
        },
    }
}

/// The refusal of a request for a stream of events, or nothing where it is granted.
pub open spec fn get_refusal<C>(
    accepts_event_stream: bool,
    connections: Map<Seq<char>, C>,
    connection_id: Option<Seq<char>>,
) -> Option<ReplyView> {
    if !accepts_event_stream {
        Some(
            ReplyView::text(
                Status::NotAcceptable,
                "Not Acceptable: Client must accept text/event-stream"@,
            ),
        )
    } else {
        lookup_refusal(connections, connection_id)
    }
}

/// The refusal of a request that is to name an open connection, or nothing where it does.
pub open spec fn lookup_refusal<C>(
    connections: Map<Seq<char>, C>,
    connection_id: Option<Seq<char>>,
) -> Option<ReplyView> {
    match connection_id {
        Some(connection_id) => if connections.contains_key(connection_id) {
            None
        } else {
            Some(ReplyView::text(Status::NotFound, "Unknown Acp-Connection-Id"@))
        },
        None => Some(
            ReplyView::text(
                Status::BadRequest,
                "Bad Request: Acp-Connection-Id header required"@,
            ),
        ),
    }
}

/// Finds the connection whose events a request asks for, or refuses the request.
pub fn handle_get<'a, S, C>(
    registry: &'a ConnectionRegistry<S, C>,
    accepts_event_stream: bool,
    connection_id: Option<&str>,
) -> (found: Result<&'a C, Reply>)
    requires
        registry.wf(),
    ensures
        match get_refusal(accepts_event_stream, registry@, header_text(connection_id)) {
            Some(refusal) => found matches Err(reply) && reply@ == refusal,
            None => found matches Ok(connection) && *connection == registry@[connection_id->0@],
        },
{
    if !accepts_event_stream {
        return Err(
            Reply::text(
                Status::NotAcceptable,
                "Not Acceptable: Client must accept text/event-stream",
            ),
        );
    }
    match connection_id {
        Some(connection_id) => match registry.get(connection_id) {
            Some(connection) => Ok(connection),
            None => Err(Reply::text(Status::NotFound, "Unknown Acp-Connection-Id")),
        },
        None => Err(
            Reply::text(Status::BadRequest, "Bad Request: Acp-Connection-Id header required"),
        ),
    }
}

/// A stream of events to a client, and what its reply names in the headers.
pub struct EventStream {
    pub replay: Vec<String>,
    pub receiver: broadcast::Receiver<String>,
    pub connection_id: Option<String>,
    pub session_id: Option<String>,
}

/// Joins the stream of a session, which is opened if need be, or that of the connection.
pub fn open_event_stream(
    connection: &mut Connection,
    connection_id: String,
    session_id: Option<String>,
) -> (stream: EventStream)
    requires
        old(connection).wf(),
    ensures
        final(connection).wf(),
        ({
            let destination = match session_id {
                Some(session_id) => Destination::Session(session_id@),
                None => Destination::Connection,
            };
            let joined = old(connection)@.stream_of(destination);
            &&& final(connection)@ == old(connection)@.subscribed_to(destination)
            &&& texts(stream.replay@) == joined.replay()
            &&& missed(stream.receiver) == joined.broadcast
            &&& final(connection).owes(destination, stream.receiver, Seq::empty())
        }),
        final(connection).keeps_receivers(*old(connection)),
        match session_id {
            Some(session_id) => match stream.session_id {
                Some(named) => as_header_value(session_id@) == Some(named@),
                None => as_header_value(session_id@) is None,
            },
            None => stream.session_id is None,
        },
        match stream.connection_id {
            Some(named) => as_header_value(connection_id@) == Some(named@),
            None => as_header_value(connection_id@) is None,
        },
{
    let named_connection = header_value(connection_id);
    match session_id {
        Some(session_id) => {
            connection.ensure_session(session_id.as_str());
            let ghost opened = connection@;
            let subscription = connection.subscribe_session_stream(session_id.as_str());
            assert(opened.sessions.contains_key(session_id@));
            let (replay, receiver) = subscription.unwrap();
            assert(connection@.sessions =~= old(connection)@.sessions.insert(
                session_id@,
                old(connection)@.session(session_id@).subscribed(),
            ));
            EventStream {
                replay,
                receiver,
                connection_id: named_connection,
                session_id: header_value(session_id),
            }
        },
        None => {
            let (replay, receiver) = connection.subscribe_connection_stream();
            EventStream { replay, receiver, connection_id: named_connection, session_id: None }
        },
    }
}

/// Takes the connection that a request is to end out of the registry, for the caller to shut
/// down, or refuses the request.
pub fn handle_delete<S, C>(
    registry: &mut ConnectionRegistry<S, C>,
    connection_id: Option<&str>,
) -> (outcome: (Reply, Option<C>))
    requires
        old(registry).wf(),
    ensures
        final(registry).wf(),
        final(registry).agents() == old(registry).agents(),
        match lookup_refusal(old(registry)@, header_text(connection_id)) {
            Some(refusal) => {
                &&& outcome.0@ == refusal
                &&& outcome.1 is None
                &&& final(registry)@ == old(registry)@
            },
            None => {
                &&& outcome.0@ == ReplyView::accepted()
                &&& outcome.1 == Some(old(registry)@[connection_id->0@])
                &&& final(registry)@ == old(registry)@.remove(connection_id->0@)
            },
        },
{
    match connection_id {
        Some(connection_id) => match registry.remove(connection_id) {
            Some(connection) => (Reply::accepted(), Some(connection)),
            None => {
                assert(old(registry)@.remove(connection_id@) =~= old(registry)@);
                (Reply::text(Status::NotFound, "Unknown Acp-Connection-Id"), None)
            },
        },
        None => (
            Reply::text(Status::BadRequest, "Bad Request: Acp-Connection-Id header required"),
            None,
        ),
    }
}

/// The id of a new connection may always be a header value, so the reply that completes an
/// initialize request names the connection.
pub proof fn lemma_initialized_reply_names_the_connection(
    connection_id: Seq<char>,
    answer: Seq<char>,
)
    requires
        is_connection_id(connection_id),
    ensures
        initialized(connection_id, answer).connection_id == Some(connection_id),
{
    assert forall|i: int| 0 <= i < connection_id.len() implies is_header_char(
        #[trigger] connection_id[i],
    ) by {
        if !(i == 8 || i == 13 || i == 18 || i == 23) {
            assert(is_hex_digit(connection_id[i]));
        }
    }
}

/// A new connection that fails on the way is registered no more, and all other connections stay
/// as they were.
pub proof fn lemma_failed_initialize_leaves_nothing_behind<C>(
    connections: Map<Seq<char>, C>,
    event: InitializeEvent,
    other: Seq<char>,
)
    requires
        abandoned(event) is Some,
    ensures
        !left_after(connections, event).contains_key(abandoned(event)->0),
        other != abandoned(event)->0 ==> {
            &&& left_after(connections, event).contains_key(other) == connections.contains_key(
                other,
            )
            &&& connections.contains_key(other) ==> left_after(connections, event)[other]
                == connections[other]
        },
{
}

/// Once a connection was ended, every request that names it is told that it is unknown, and
/// requests that name others are looked up as before. Ids are not remembered: a post that opens
/// a new connection is taken as ever.
pub proof fn lemma_deleted_connection_is_unknown<C>(
    connections: Map<Seq<char>, C>,
    connection_id: Seq<char>,
    other: Seq<char>,
    document: Json,
    kind: MessageKind,
    session_id: Option<Seq<char>>,
)
    ensures
        ({
            let left = connections.remove(connection_id);
            let unknown = ReplyView::text(Status::NotFound, "Unknown Acp-Connection-Id"@);
            &&& lookup_refusal(left, Some(connection_id)) == Some(unknown)
            &&& get_refusal(true, left, Some(connection_id)) == Some(unknown)
            &&& !(document is Array) && !kind.initialize ==> post_verdict(
                document,
                kind,
                left,
                Some(connection_id),
                session_id,
            ) == PostVerdict::Refuse(unknown)
            &&& kind.initialize ==> post_verdict(
                document,
                kind,
                left,
                Some(connection_id),
                session_id,
            ) == post_verdict(document, kind, connections, Some(connection_id), session_id)
            &&& other != connection_id ==> {
                &&& lookup_refusal(left, Some(other)) == lookup_refusal(connections, Some(other))
                &&& post_verdict(document, kind, left, Some(other), session_id) == post_verdict(
                    document,
                    kind,
                    connections,
                    Some(other),
                    session_id,
                )
            }
        }),
{
}

/// What a post does to a connection, step by step.
pub open spec fn post_steps(
    document: Json,
    request_with_id: bool,
    session_id: Option<Seq<char>>,
) -> Seq<Step> {
    let opening = match session_id {
        Some(session_id) => seq![Step::Opened(session_id)],
        None => Seq::empty(),
    };
    match document.member("id"@) {
        Some(id) if request_with_id => opening.push(Step::Awaited(id, reply_route(session_id))),
        _ => opening,
    }
}

/// What a post and a request for a stream of events do to a connection is made of steps, so that
/// whatever holds for all steps holds however such requests come in between.
pub proof fn lemma_requests_are_steps(
    connection: ConnectionView,
    document: Json,
    request_with_id: bool,
    session_id: Option<Seq<char>>,
)
    ensures
        connection.posted(document, request_with_id, session_id) == connection.after_all(
            post_steps(document, request_with_id, session_id),
        ),
        connection.subscribed_to(reply_route(session_id)) == match session_id {
            Some(session_id) => connection.after_all(
                seq![Step::Opened(session_id), Step::Joined(Destination::Session(session_id))],
            ),
            None => connection.after_all(seq![Step::Joined(Destination::Connection)]),
        },
{
    reveal_with_fuel(ConnectionView::after_all, 3);
    let steps = post_steps(document, request_with_id, session_id);
    if steps.len() > 0 {
        assert(steps.drop_last() =~= if steps.len() == 2 {
            seq![steps[0]]
        } else {
            Seq::empty()
        });
    }
    if let Some(session_id) = session_id {
        let joining = seq![
            Step::Opened(session_id),
            Step::Joined(Destination::Session(session_id)),
        ];
        assert(joining.drop_last() =~= seq![Step::Opened(session_id)]);
        assert(joining.drop_last().drop_last() =~= Seq::empty());
        assert(connection.after_all(joining).sessions =~= connection.subscribed_to(
            Destination::Session(session_id),
        ).sessions);
    } else {
        assert(seq![Step::Joined(Destination::Connection)].drop_last() =~= Seq::empty());
    }
}

/// The agent's answer to a posted request reaches the stream that the client asked for it on:
/// the stream of the session that the request named, or else that of the connection. Anything
/// may happen to the connection in between, as long as it neither answers the request nor reuses
/// its id.
pub proof fn lemma_answer_to_posted_request_is_delivered(
    connection: ConnectionView,
    request: Json,
    session_id: Option<Seq<char>>,
    between: Seq<Step>,
    message: Seq<char>,
    answer: Json,
)
    requires
        request.member("id"@) matches Some(id) && !(id is Null),
        document_of(message) == Some(answer),
        answer.is_answer(),
        answer.member("id"@) == request.member("id"@),
        forall|i: int|
            0 <= i < between.len() ==> !(#[trigger] between[i]).answers(request.member("id"@)->0)
                && !between[i].reuses(request.member("id"@)->0),
    ensures
        ({
            let waiting = connection.posted(request, true, session_id).after_all(between);
            let after = waiting.routed(message, document_of(message));
            &&& after.stream_of(reply_route(session_id)) == waiting.stream_of(
                reply_route(session_id),
            ).pushed(message)
            &&& session_id is Some ==> {
                &&& after.sessions.contains_key(session_id->0)
                &&& after.connection == waiting.connection
            }
            &&& session_id is None ==> after.sessions == waiting.sessions
        }),
{
    let id = request.member("id"@)->0;
    let opened = match session_id {
        Some(session_id) => connection.with_session(session_id),
        None => connection,
    };
    lemma_answer_goes_where_its_request_came_from(
        opened,
        id,
        reply_route(session_id),
        between,
        answer,
    );
}

/// A message for a session that arrives before the client has opened the session's stream is
/// kept for it: it ends the replay that the client is then given, together with those that came
/// before it, up to the bound of the buffer.
pub proof fn lemma_early_message_is_replayed(
    connection: ConnectionView,
    message: Seq<char>,
    document: Json,
)
    requires
        document.is_call(),
        document.session_id() is Some,
        connection.session(document.session_id()->0).buffer is Some,
    ensures
        ({
            let session_id = document.session_id()->0;
            connection.routed(message, Some(document)).session(session_id).replay() == newest(
                connection.session(session_id).replay().push(message),
                PRE_SUBSCRIBE_BUFFER_CAPACITY as nat,
            )
        }),
{
}

/// Whether a reply tells of an error: its status is one, it says why in a line of text, and it
/// names no connection.
pub open spec fn is_error_reply(reply: ReplyView) -> bool {
    &&& reply.status.spec_code() >= 400
    &&& reply.body is Text
    &&& reply.connection_id is None
}

/// Whatever is refused is answered with an error, and what is taken on is not.
pub proof fn lemma_refusals_are_errors<C>(
    is_json: bool,
    body: Option<Result<Value, Seq<char>>>,
    document: Json,
    kind: MessageKind,
    connections: Map<Seq<char>, C>,
    connection_id: Option<Seq<char>>,
    session_id: Option<Seq<char>>,
    event: InitializeEvent,
    action: InitializeAction,
)
    requires
        initialize_follows(event, action),
    ensures
        body_refusal(is_json, body) matches Some(reply) ==> is_error_reply(reply),
        post_verdict(
            document,
            kind,
            connections,
            connection_id,
            session_id,
        ) matches PostVerdict::Refuse(reply) ==> is_error_reply(reply),
        get_refusal(is_json, connections, connection_id) matches Some(reply) ==> is_error_reply(
            reply,
        ),
        lookup_refusal(connections, connection_id) matches Some(reply) ==> is_error_reply(reply),
        action matches InitializeAction::Refuse(reply) ==> is_error_reply(reply@),
        action matches InitializeAction::Abandon(reply) ==> is_error_reply(reply@),
        abandoned(event) is Some <==> action is Abandon,
        action matches InitializeAction::Complete(reply) ==> !is_error_reply(reply@),
        !is_error_reply(ReplyView::accepted()),
{
}

} // verus!
