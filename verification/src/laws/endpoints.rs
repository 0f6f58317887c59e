//! What the HTTP endpoints reply to a request, and what they do with it.

use crate::channel::missed;
use crate::connection::{Connection, ConnectionView};
use crate::http::{
    accept_parsed, accept_post, decode_post, handle_delete, handle_get, handle_initialize,
    handle_post, judge_post, open_event_stream, posted_reply, EventStream, InitializeAction,
    InitializeEvent, MessageKind, PostStep, Receipt,
};
use crate::json::{compact_text, json_of, parsed_bytes, Json};
use crate::laws::routing::{has_member, member_is};
use crate::laws::streams::{handed_over, lemma_subscribed_is_handed_over, untouched};
use crate::registry::{is_connection_id, ConnectionRegistry};
use crate::reply::{Body, Reply, Status};
use crate::routes::Destination;
use serde_json::Value;
use vstd::prelude::*;

verus! {

/// Whether a reply is of this status, says this text, and names no connection.
pub open spec fn says(reply: Reply, status: Status, text: Seq<char>) -> bool {
    &&& reply.status == status
    &&& reply.body matches Body::Text(said)
    &&& said@ == text
    &&& reply.connection_id is None
}

/// Whether a post is refused with this status and this text.
pub open spec fn refuses<C>(step: PostStep<'_, C>, status: Status, text: Seq<char>) -> bool {
    step matches PostStep::Refuse(reply) && says(reply, status, text)
}

/// Whether a text may stand in a header: no ASCII control character but the tab.
pub open spec fn may_be_header(text: Seq<char>) -> bool {
    forall|i: int|
        0 <= i < text.len() ==> (#[trigger] text[i] == '\t' || (' ' <= text[i] && text[i]
            != '\u{7f}'))
}

/// Whether a header names this text where it may, and nothing where it may not.
pub open spec fn names(header: Option<String>, text: Seq<char>) -> bool {
    &&& may_be_header(text) ==> header is Some && header->0@ == text
    &&& !may_be_header(text) ==> header is None
}

/// Whether a message is of a kind that an agent takes.
pub open spec fn is_message(kind: MessageKind) -> bool {
    kind.request_with_id || kind.notification || kind.response
}

/// Whether a document calls a method by its name.
pub open spec fn calls_by_name(document: Json) -> bool {
    &&& document matches Json::Object(members)
    &&& members.contains_key("method"@)
    &&& members["method"@] is Text
}

/// The numbers of the statuses are those of HTTP.
pub proof fn lemma_status_numbers(status: Status, code: u16)
    requires
        call_ensures(Status::code, (status,), code),
    ensures
        status is Success <==> code == 200,
        status is Accepted <==> code == 202,
        status is BadRequest <==> code == 400,
        status is NotFound <==> code == 404,
        status is NotAcceptable <==> code == 406,
        status is UnsupportedMediaType <==> code == 415,
        status is InternalServerError <==> code == 500,
        status is NotImplemented <==> code == 501,
{
}

/// A reply of text says that text, and a bare acceptance says nothing.
pub proof fn lemma_replies_say_what_they_are_given(
    status: Status,
    text: &str,
    reply: Reply,
    accepted: Reply,
)
    requires
        call_ensures(Reply::text, (status, text), reply),
        call_ensures(Reply::accepted, (), accepted),
    ensures
        says(reply, status, text@),
        accepted.status is Accepted,
        accepted.body is Empty,
        accepted.connection_id is None,
{
}

/// A body that is not declared to be JSON is refused before it is looked at; so is one that could
/// not be read, and one that is not JSON, with the reason. Any other is taken as it reads.
pub proof fn lemma_body_is_taken_as_it_reads(
    is_json: bool,
    body: Option<&[u8]>,
    message: Result<Value, Reply>,
)
    requires
        call_ensures(decode_post, (is_json, body), message),
    ensures
        !is_json ==> message is Err && says(
            message->Err_0,
            Status::UnsupportedMediaType,
            "Unsupported Media Type: Content-Type must be application/json"@,
        ),
        is_json && body is None ==> message is Err && says(
            message->Err_0,
            Status::BadRequest,
            "Failed to read request body"@,
        ),
        is_json && body is Some ==> match parsed_bytes(body->0@) {
            Ok(value) => message == Ok::<Value, Reply>(value),
            Err(error) => message is Err && says(
                message->Err_0,
                Status::BadRequest,
                "Invalid JSON: "@ + error,
            ),
        },
{
}

/// What a body reads as is taken, and an error is refused with its message.
pub proof fn lemma_parsed_body_is_taken(
    parsed: Result<Value, String>,
    message: Result<Value, Reply>,
)
    requires
        call_ensures(accept_parsed, (parsed,), message),
    ensures
        match parsed {
            Ok(value) => message == Ok::<Value, Reply>(value),
            Err(error) => message is Err && says(
                message->Err_0,
                Status::BadRequest,
                "Invalid JSON: "@ + error@,
            ),
        },
{
}

/// A message that is no array and no initialize request, names an open connection, names a
/// session or is not session-scoped, and is a request with an id, a notification or a response,
/// is delivered to that connection as it is, whatever its members are.
pub proof fn lemma_message_is_delivered<S, C>(
    registry: &ConnectionRegistry<S, C>,
    message: Value,
    kind: MessageKind,
    connection_id: &str,
    session_id: Option<&str>,
    step: PostStep<'_, C>,
)
    requires
        call_ensures(
            judge_post::<S, C>,
            (registry, message, kind, Some(connection_id), session_id),
            step,
        ),
        !(json_of(message) is Array),
        !kind.initialize,
        registry@.contains_key(connection_id@),
        session_id is Some || !kind.session_scoped,
        is_message(kind),
    ensures
        step == (PostStep::Deliver { connection: &registry@[connection_id@], message, kind }),
{
}

/// The reasons to refuse a message that opens no connection, the first of which decides: it names
/// no connection, or none that is open; it calls a session-scoped method by its name and names no
/// session; it is no message at all. Where none of these holds it is delivered.
pub proof fn lemma_message_is_refused_for_a_reason<S, C>(
    registry: &ConnectionRegistry<S, C>,
    message: Value,
    kind: MessageKind,
    connection_id: Option<&str>,
    session_id: Option<&str>,
    step: PostStep<'_, C>,
)
    requires
        call_ensures(
            judge_post::<S, C>,
            (registry, message, kind, connection_id, session_id),
            step,
        ),
        !(json_of(message) is Array),
        !kind.initialize,
    ensures
        connection_id is None ==> refuses(
            step,
            Status::BadRequest,
            "Bad Request: Acp-Connection-Id header required"@,
        ),
        connection_id is Some && !registry@.contains_key(connection_id->0@) ==> refuses(
            step,
            Status::NotFound,
            "Unknown Acp-Connection-Id"@,
        ),
        connection_id is Some && registry@.contains_key(connection_id->0@) ==> {
            let unscoped = calls_by_name(json_of(message)) && kind.session_scoped
                && session_id is None;
            &&& unscoped ==> refuses(
                step,
                Status::BadRequest,
                "Bad Request: Acp-Session-Id header required for session-scoped methods"@,
            )
            &&& !unscoped && !is_message(kind) ==> refuses(
                step,
                Status::BadRequest,
                "Invalid JSON-RPC message"@,
            )
            &&& !unscoped && is_message(kind) ==> step == (PostStep::Deliver {
                connection: &registry@[connection_id->0@],
                message,
                kind,
            })
        },
{
}

/// A batch is refused, whatever it is said to be, and an initialize request opens a connection,
/// whatever connection and session it names. Its agent is handed the message as written.
pub proof fn lemma_batch_is_refused_and_initialize_is_taken<S, C>(
    registry: &ConnectionRegistry<S, C>,
    message: Value,
    kind: MessageKind,
    connection_id: Option<&str>,
    session_id: Option<&str>,
    step: PostStep<'_, C>,
)
    requires
        call_ensures(
            judge_post::<S, C>,
            (registry, message, kind, connection_id, session_id),
            step,
        ),
    ensures
        json_of(message) is Array ==> refuses(
            step,
            Status::NotImplemented,
            "Batch requests are not supported"@,
        ),
        !(json_of(message) is Array) && kind.initialize ==> {
            &&& step is Initialize
            &&& step->Initialize_0@ == compact_text(message)
        },
        step is Initialize ==> kind.initialize,
{
}

/// What is done with a post is what is done with the message that its body reads as, of the kind
/// that the rules tell. A body that is no message is refused.
pub proof fn lemma_post_is_judged_as_its_body_reads<S, C, F: Fn(&Value) -> MessageKind>(
    registry: &ConnectionRegistry<S, C>,
    is_json: bool,
    body: Option<&[u8]>,
    rules: F,
    connection_id: Option<&str>,
    session_id: Option<&str>,
    step: PostStep<'_, C>,
)
    requires
        call_ensures(
            handle_post::<S, C, F>,
            (registry, is_json, body, rules, connection_id, session_id),
            step,
        ),
    ensures
        !is_json ==> refuses(
            step,
            Status::UnsupportedMediaType,
            "Unsupported Media Type: Content-Type must be application/json"@,
        ),
        is_json && body is None ==> refuses(
            step,
            Status::BadRequest,
            "Failed to read request body"@,
        ),
        is_json && body is Some ==> match parsed_bytes(body->0@) {
            Err(error) => refuses(step, Status::BadRequest, "Invalid JSON: "@ + error),
            Ok(message) => {
                &&& json_of(message) is Array ==> refuses(
                    step,
                    Status::NotImplemented,
                    "Batch requests are not supported"@,
                )
                &&& step is Initialize ==> step->Initialize_0@ == compact_text(message)
                &&& step matches PostStep::Deliver { connection, message: delivered, kind } ==> {
                    &&& delivered == message
                    &&& call_ensures(rules, (&message,), kind)
                    &&& is_message(kind)
                    &&& connection_id is Some
                    &&& registry@.contains_key(connection_id->0@)
                    &&& *connection == registry@[connection_id->0@]
                }
            },
        },
{
}

/// A post whose body is a message that the rules hold for one that an agent takes, with an open
/// connection, and with a session or of no session, is delivered.
pub proof fn lemma_posted_message_is_delivered<S, C, F: Fn(&Value) -> MessageKind>(
    registry: &ConnectionRegistry<S, C>,
    body: &[u8],
    rules: F,
    connection_id: &str,
    session_id: Option<&str>,
    step: PostStep<'_, C>,
)
    requires
        call_ensures(
            handle_post::<S, C, F>,
            (registry, true, Some(body), rules, Some(connection_id), session_id),
            step,
        ),
        parsed_bytes(body@) is Ok,
        !(json_of(parsed_bytes(body@)->Ok_0) is Array),
        registry@.contains_key(connection_id@),
        forall|kind: MessageKind| #[trigger]
            call_ensures(rules, (&parsed_bytes(body@)->Ok_0,), kind) ==> {
                &&& !kind.initialize
                &&& is_message(kind)
                &&& session_id is Some || !kind.session_scoped
            },
    ensures
        step is Deliver,
        *step->connection == registry@[connection_id@],
        step->message == parsed_bytes(body@)->Ok_0,
{
}

/// A post whose body is a message that the rules do not hold for an initialize request is refused
/// where it names no connection or none that is open, where the rules want a session for the
/// method that it calls by its name and it names none, and where they hold it for no message.
pub proof fn lemma_posted_message_is_refused_for_a_reason<S, C, F: Fn(&Value) -> MessageKind>(
    registry: &ConnectionRegistry<S, C>,
    body: &[u8],
    rules: F,
    connection_id: Option<&str>,
    session_id: Option<&str>,
    step: PostStep<'_, C>,
    unscoped: bool,
)
    requires
        call_ensures(
            handle_post::<S, C, F>,
            (registry, true, Some(body), rules, connection_id, session_id),
            step,
        ),
        parsed_bytes(body@) is Ok,
        !(json_of(parsed_bytes(body@)->Ok_0) is Array),
        forall|kind: MessageKind| #[trigger]
            call_ensures(rules, (&parsed_bytes(body@)->Ok_0,), kind) ==> {
                &&& !kind.initialize
                &&& unscoped == (calls_by_name(json_of(parsed_bytes(body@)->Ok_0))
                    && kind.session_scoped && session_id is None)
                &&& unscoped || !is_message(kind)
            },
    ensures
        connection_id is None ==> refuses(
            step,
            Status::BadRequest,
            "Bad Request: Acp-Connection-Id header required"@,
        ),
        connection_id is Some && !registry@.contains_key(connection_id->0@) ==> refuses(
            step,
            Status::NotFound,
            "Unknown Acp-Connection-Id"@,
        ),
        connection_id is Some && registry@.contains_key(connection_id->0@) ==> refuses(
            step,
            Status::BadRequest,
            if unscoped {
                "Bad Request: Acp-Session-Id header required for session-scoped methods"@
            } else {
                "Invalid JSON-RPC message"@
            },
        ),
{
}

/// A post whose body the rules hold for no initialize request, whatever else they hold it for, is
/// refused where it names no connection or none that is open.
pub proof fn lemma_post_must_name_an_open_connection<S, C, F: Fn(&Value) -> MessageKind>(
    registry: &ConnectionRegistry<S, C>,
    body: &[u8],
    rules: F,
    connection_id: Option<&str>,
    session_id: Option<&str>,
    step: PostStep<'_, C>,
)
    requires
        call_ensures(
            handle_post::<S, C, F>,
            (registry, true, Some(body), rules, connection_id, session_id),
            step,
        ),
        parsed_bytes(body@) is Ok,
        !(json_of(parsed_bytes(body@)->Ok_0) is Array),
        forall|kind: MessageKind| #[trigger]
            call_ensures(rules, (&parsed_bytes(body@)->Ok_0,), kind) ==> !kind.initialize,
    ensures
        connection_id is None ==> refuses(
            step,
            Status::BadRequest,
            "Bad Request: Acp-Connection-Id header required"@,
        ),
        connection_id is Some && !registry@.contains_key(connection_id->0@) ==> refuses(
            step,
            Status::NotFound,
            "Unknown Acp-Connection-Id"@,
        ),
{
}

/// A post whose body the rules hold for an initialize request opens a connection.
pub proof fn lemma_posted_initialize_is_taken<S, C, F: Fn(&Value) -> MessageKind>(
    registry: &ConnectionRegistry<S, C>,
    body: &[u8],
    rules: F,
    connection_id: Option<&str>,
    session_id: Option<&str>,
    step: PostStep<'_, C>,
)
    requires
        call_ensures(
            handle_post::<S, C, F>,
            (registry, true, Some(body), rules, connection_id, session_id),
            step,
        ),
        parsed_bytes(body@) is Ok,
        !(json_of(parsed_bytes(body@)->Ok_0) is Array),
        forall|kind: MessageKind| #[trigger]
            call_ensures(rules, (&parsed_bytes(body@)->Ok_0,), kind) ==> kind.initialize,
    ensures
        step is Initialize,
        step->Initialize_0@ == compact_text(parsed_bytes(body@)->Ok_0),
{
}

/// A message that is taken in is handed to the agent as it is written. The session that it names
/// is open afterwards, as it was or untouched.
pub proof fn lemma_accepted_message_opens_its_session(
    connection: &mut Connection,
    message: &Value,
    kind: MessageKind,
    session_id: Option<&str>,
    text: String,
)
    requires
        call_ensures(accept_post, (connection, message, kind, session_id), text),
    ensures
        text@ == compact_text(*message),
        session_id is None ==> final(connection)@.sessions == old(connection)@.sessions,
        session_id is Some ==> {
            let named = session_id->0@;
            &&& final(connection)@.sessions.contains_key(named)
            &&& old(connection)@.sessions.contains_key(named) ==> final(connection)@.sessions
                == old(connection)@.sessions
            &&& !old(connection)@.sessions.contains_key(named) ==> {
                &&& untouched(final(connection)@.sessions[named])
                &&& final(connection)@.sessions.remove(named) == old(connection)@.sessions
            }
        },
        final(connection)@ == (ConnectionView {
            sessions: final(connection)@.sessions,
            pending: final(connection)@.pending,
            ..old(connection)@
        }),
{
    if let Some(session_id) = session_id {
        if old(connection)@.sessions.contains_key(session_id@) {
            assert(final(connection)@.sessions =~= old(connection)@.sessions);
        } else {
            assert(final(connection)@.sessions.remove(session_id@) =~= old(connection)@.sessions);
        }
    }
}

/// The answer to a request with an id, other than `null`, is awaited for the session that the
/// request names, or else for the connection. No other message awaits anything.
pub proof fn lemma_accepted_request_is_awaited(
    connection: &mut Connection,
    message: &Value,
    kind: MessageKind,
    session_id: Option<&str>,
    text: String,
    id: Json,
)
    requires
        call_ensures(accept_post, (connection, message, kind, session_id), text),
    ensures
        kind.request_with_id && member_is(json_of(*message), "id"@, id) && id != Json::Null ==> {
            &&& final(connection)@.pending.contains_key(id)
            &&& final(connection)@.pending[id] == (match session_id {
                Some(session_id) => Destination::Session(session_id@),
                None => Destination::Connection,
            })
            &&& final(connection)@.pending.remove(id) == old(connection)@.pending.remove(id)
        },
        !kind.request_with_id || !has_member(json_of(*message), "id"@) || member_is(
            json_of(*message),
            "id"@,
            Json::Null,
        ) ==> final(connection)@.pending == old(connection)@.pending,
{
    if kind.request_with_id && member_is(json_of(*message), "id"@, id) && id != Json::Null {
        assert(final(connection)@.pending.remove(id) =~= old(connection)@.pending.remove(id));
    }
}

/// A message that was handed to the agent is accepted without a word, and the client is told where
/// that failed.
pub proof fn lemma_delivery_is_replied_to(delivered: bool, reply: Reply)
    requires
        call_ensures(posted_reply, (delivered,), reply),
    ensures
        delivered ==> {
            &&& reply.status is Accepted
            &&& reply.body is Empty
            &&& reply.connection_id is None
        },
        !delivered ==> says(
            reply,
            Status::InternalServerError,
            "Failed to forward message to agent"@,
        ),
{
}

/// A connection that was created has the initialize request forwarded to it, and once that was
/// done, its answer is waited for. The registry stays as it is.
pub proof fn lemma_initialize_goes_on<S, C>(
    registry: &mut ConnectionRegistry<S, C>,
    event: InitializeEvent,
    action: InitializeAction,
    connection_id: String,
)
    requires
        call_ensures(handle_initialize::<S, C>, (registry, event), action),
    ensures
        event == InitializeEvent::Created(Some(connection_id)) ==> {
            &&& action matches InitializeAction::Forward(named)
            &&& named@ == connection_id@
            &&& final(registry)@ == old(registry)@
        },
        event == (InitializeEvent::Forwarded { connection_id, delivered: true }) ==> {
            &&& action matches InitializeAction::Receive(named)
            &&& named@ == connection_id@
            &&& final(registry)@ == old(registry)@
        },
        final(registry).agents() == old(registry).agents(),
{
}

/// Once the agent has answered the initialize request, whatever its answer reads as, the reply is
/// a success whose body is exactly that text, declared as JSON. The connection stays registered.
pub proof fn lemma_initialize_answer_is_handed_on<S, C>(
    registry: &mut ConnectionRegistry<S, C>,
    connection_id: String,
    answer: String,
    action: InitializeAction,
)
    requires
        call_ensures(
            handle_initialize::<S, C>,
            (
                registry,
                InitializeEvent::Received { connection_id, receipt: Receipt::Message(answer) },
            ),
            action,
        ),
    ensures
        action is Complete,
        action->Complete_0.status is Success,
        action->Complete_0.body is Json,
        action->Complete_0.body->Json_0@ == answer@,
        names(action->Complete_0.connection_id, connection_id@),
        is_connection_id(connection_id@) ==> action->Complete_0.connection_id is Some
            && action->Complete_0.connection_id->0@ == connection_id@,
        final(registry)@ == old(registry)@,
{
    if is_connection_id(connection_id@) {
        crate::http::lemma_initialized_reply_names_the_connection(connection_id@, answer@);
    }
    lemma_header_values(connection_id@);
}

/// Each failure on the way to a connection is told, and leaves no connection under its id, while
/// all others stay.
pub proof fn lemma_initialize_failures_are_told<S, C>(
    registry: &mut ConnectionRegistry<S, C>,
    event: InitializeEvent,
    action: InitializeAction,
    connection_id: String,
)
    requires
        call_ensures(handle_initialize::<S, C>, (registry, event), action),
    ensures
        event == InitializeEvent::Created(None) ==> {
            &&& action matches InitializeAction::Refuse(reply)
            &&& says(reply, Status::InternalServerError, "Failed to create connection"@)
            &&& final(registry)@ == old(registry)@
        },
        event == (InitializeEvent::Forwarded { connection_id, delivered: false }) ==> {
            &&& action matches InitializeAction::Abandon(reply)
            &&& says(reply, Status::InternalServerError, "Failed to forward initialize to agent"@)
            &&& final(registry)@ == old(registry)@.remove(connection_id@)
        },
        event == (InitializeEvent::Received { connection_id, receipt: Receipt::Consumed }) ==> {
            &&& action matches InitializeAction::Abandon(reply)
            &&& says(reply, Status::InternalServerError, "Initialize receiver already consumed"@)
            &&& final(registry)@ == old(registry)@.remove(connection_id@)
        },
        event == (InitializeEvent::Received { connection_id, receipt: Receipt::Closed }) ==> {
            &&& action matches InitializeAction::Abandon(reply)
            &&& says(
                reply,
                Status::InternalServerError,
                "Agent closed before initialize response"@,
            )
            &&& final(registry)@ == old(registry)@.remove(connection_id@)
        },
{
}

/// A request for events gets the connection that it names, where it accepts events and the
/// connection is open, and is otherwise refused: first for what it accepts, then for naming no
/// connection, then for naming none that is open.
pub proof fn lemma_events_are_granted<S, C>(
    registry: &ConnectionRegistry<S, C>,
    accepts_event_stream: bool,
    connection_id: Option<&str>,
    found: Result<&C, Reply>,
)
    requires
        call_ensures(
            handle_get::<S, C>,
            (registry, accepts_event_stream, connection_id),
            found,
        ),
    ensures
        !accepts_event_stream ==> found is Err && says(
            found->Err_0,
            Status::NotAcceptable,
            "Not Acceptable: Client must accept text/event-stream"@,
        ),
        accepts_event_stream && connection_id is None ==> found is Err && says(
            found->Err_0,
            Status::BadRequest,
            "Bad Request: Acp-Connection-Id header required"@,
        ),
        accepts_event_stream && connection_id is Some && !registry@.contains_key(
            connection_id->0@,
        ) ==> found is Err && says(
            found->Err_0,
            Status::NotFound,
            "Unknown Acp-Connection-Id"@,
        ),
        accepts_event_stream && connection_id is Some && registry@.contains_key(connection_id->0@)
            ==> found is Ok && *found->Ok_0 == registry@[connection_id->0@],
{
}

/// A text is a header value exactly where it holds no ASCII control character but the tab.
proof fn lemma_header_values(text: Seq<char>)
    ensures
        crate::http::is_header_value(text) == may_be_header(text),
{
    if crate::http::is_header_value(text) {
        assert forall|i: int| 0 <= i < text.len() implies (#[trigger] text[i] == '\t' || (' '
            <= text[i] && text[i] != '\u{7f}')) by {
            assert(crate::http::is_header_char(text[i]));
        }
    }
    if may_be_header(text) {
        assert forall|i: int| 0 <= i < text.len() implies crate::http::is_header_char(
            #[trigger] text[i],
        ) by {
        }
    }
}

/// A client that asks for the events of a session is given what waits on that session's stream,
/// be it empty, and a receiver of it; the session has a stream afterwards, and every other stream
/// is as it was. The reply names the connection and the session, where headers can.
pub proof fn lemma_session_events_are_opened(
    connection: &mut Connection,
    connection_id: String,
    session_id: String,
    stream: EventStream,
)
    requires
        call_ensures(
            open_event_stream,
            (connection, connection_id, Some(session_id)),
            stream,
        ),
    ensures
        final(connection)@.sessions.contains_key(session_id@),
        old(connection)@.sessions.contains_key(session_id@) ==> handed_over(
            old(connection)@.sessions[session_id@],
            final(connection)@.sessions[session_id@],
            stream.replay@,
        ),
        !old(connection)@.sessions.contains_key(session_id@) ==> {
            &&& stream.replay@.len() == 0
            &&& final(connection)@.sessions[session_id@].buffer is None
            &&& final(connection)@.sessions[session_id@].broadcast == Seq::<Seq<char>>::empty()
        },
        final(connection)@.sessions.remove(session_id@) == old(connection)@.sessions.remove(
            session_id@,
        ),
        final(connection)@ == (ConnectionView {
            sessions: final(connection)@.sessions,
            ..old(connection)@
        }),
        final(connection).feeds(Destination::Session(session_id@), stream.receiver),
        missed(stream.receiver) == final(connection)@.sessions[session_id@].broadcast,
        names(stream.connection_id, connection_id@),
        names(stream.session_id, session_id@),
{
    lemma_subscribed_is_handed_over(old(connection)@.session(session_id@), stream.replay@);
    lemma_header_values(connection_id@);
    lemma_header_values(session_id@);
    assert(final(connection)@.sessions.remove(session_id@) =~= old(
        connection,
    )@.sessions.remove(session_id@));
}

/// A client that asks for the events of no session is given what waits on the stream of the
/// connection, and a receiver of it; every other stream is as it was. The reply names the
/// connection, where a header can, and no session.
pub proof fn lemma_connection_events_are_opened(
    connection: &mut Connection,
    connection_id: String,
    stream: EventStream,
)
    requires
        call_ensures(open_event_stream, (connection, connection_id, None::<String>), stream),
    ensures
        handed_over(
            old(connection)@.connection,
            final(connection)@.connection,
            stream.replay@,
        ),
        final(connection)@ == (ConnectionView {
            connection: final(connection)@.connection,
            ..old(connection)@
        }),
        final(connection).feeds(Destination::Connection, stream.receiver),
        missed(stream.receiver) == final(connection)@.connection.broadcast,
        names(stream.connection_id, connection_id@),
        stream.session_id is None,
{
    lemma_subscribed_is_handed_over(old(connection)@.connection, stream.replay@);
    lemma_header_values(connection_id@);
}

/// A request to end an open connection takes it out of the registry for the caller, alone, and is
/// accepted. One that names no connection, or none that is open, is refused and changes nothing.
pub proof fn lemma_connection_is_ended<S, C>(
    registry: &mut ConnectionRegistry<S, C>,
    connection_id: Option<&str>,
    outcome: (Reply, Option<C>),
)
    requires
        call_ensures(handle_delete::<S, C>, (registry, connection_id), outcome),
    ensures
        connection_id is None ==> {
            &&& says(
                outcome.0,
                Status::BadRequest,
                "Bad Request: Acp-Connection-Id header required"@,
            )
            &&& outcome.1 is None
            &&& final(registry)@ == old(registry)@
        },
        connection_id is Some && !old(registry)@.contains_key(connection_id->0@) ==> {
            &&& says(outcome.0, Status::NotFound, "Unknown Acp-Connection-Id"@)
            &&& outcome.1 is None
            &&& final(registry)@ == old(registry)@
        },
        connection_id is Some && old(registry)@.contains_key(connection_id->0@) ==> {
            &&& outcome.0.status is Accepted
            &&& outcome.0.body is Empty
            &&& outcome.0.connection_id is None
            &&& outcome.1 == Some(old(registry)@[connection_id->0@])
            &&& final(registry)@ == old(registry)@.remove(connection_id->0@)
        },
        final(registry).agents() == old(registry).agents(),
{
}

} // verus!
