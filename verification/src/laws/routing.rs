//! Where messages go, and what becomes of a connection.

use crate::channel::missed;
use crate::connection::{Connection, ConnectionView, Lifecycle, Tasks};
use crate::json::{json_of, parsed_text, Json};
use crate::laws::streams::{
    full, gained, handed_over, lemma_pushed_is_gained, lemma_subscribed_is_handed_over, untouched,
};
use crate::registry::ConnectionRegistry;
use crate::routes::{extract_session_id_from_params, Destination, ResponseRoute, Target};
use crate::stream::{OutboundStream, StreamView};
use serde_json::Value;
use tokio::sync::{broadcast, mpsc};
use tokio::task::JoinHandle;
use vstd::prelude::*;

verus! {

/// Whether a document is an object with this member.
pub open spec fn has_member(document: Json, key: Seq<char>) -> bool {
    document matches Json::Object(members) && members.contains_key(key)
}

/// Whether a document is an object with this member of this value.
pub open spec fn member_is(document: Json, key: Seq<char>, value: Json) -> bool {
    document matches Json::Object(members) && members.contains_key(key) && members[key] == value
}

/// Whether a document holds a text under `params.sessionId`, and which.
pub open spec fn names_session(document: Json, session_id: Seq<char>) -> bool {
    &&& document matches Json::Object(members)
    &&& members.contains_key("params"@)
    &&& members["params"@] matches Json::Object(params)
    &&& params.contains_key("sessionId"@)
    &&& params["sessionId"@] == Json::Text(session_id)
}

/// Whether a document is an object without a method, with an id, and with a result or an error.
pub open spec fn is_reply(document: Json) -> bool {
    &&& !has_member(document, "method"@)
    &&& has_member(document, "id"@)
    &&& has_member(document, "result"@) || has_member(document, "error"@)
}

/// Whether one message was put on the stream of everything and on the stream of a destination,
/// and on no other. A session that had no stream has one now. The requests that are open are
/// left aside.
pub open spec fn put_on(
    before: ConnectionView,
    after: ConnectionView,
    destination: Destination,
    message: Seq<char>,
) -> bool {
    &&& gained(before.all, after.all, message)
    &&& after.lifecycle == before.lifecycle
    &&& match destination {
        Destination::Connection => {
            &&& gained(before.connection, after.connection, message)
            &&& after.sessions == before.sessions
        },
        Destination::Session(session_id) => {
            &&& after.connection == before.connection
            &&& after.sessions.contains_key(session_id)
            &&& before.sessions.contains_key(session_id) ==> gained(
                before.sessions[session_id],
                after.sessions[session_id],
                message,
            )
            &&& !before.sessions.contains_key(session_id) ==> {
                &&& after.sessions[session_id].buffer == Some(seq![message])
                &&& after.sessions[session_id].broadcast == Seq::<Seq<char>>::empty()
            }
            &&& after.sessions.remove(session_id) == before.sessions.remove(session_id)
        },
    }
}

/// How many of the two buffers that a message is put into are full.
pub open spec fn full_buffers(before: ConnectionView, destination: Destination) -> int {
    let headed = match destination {
        Destination::Connection => full(before.connection),
        Destination::Session(session_id) => before.sessions.contains_key(session_id) && full(
            before.sessions[session_id],
        ),
    };
    if full(before.all) && headed {
        2
    } else if full(before.all) || headed {
        1
    } else {
        0
    }
}

/// A document that calls a method and names a session is headed for that session, whatever else
/// it holds, such as an id.
pub proof fn lemma_call_is_headed_for_its_session(
    connection: ConnectionView,
    members: Map<Seq<char>, Json>,
    params: Map<Seq<char>, Json>,
    session_id: Seq<char>,
)
    requires
        members.contains_key("method"@),
        members.contains_key("params"@),
        members["params"@] == Json::Object(params),
        params.contains_key("sessionId"@),
        params["sessionId"@] == Json::Text(session_id),
    ensures
        connection.destination(Json::Object(members)) == Destination::Session(session_id),
        connection.settled(Json::Object(members)) == connection,
{
}

/// A document that calls a method and names no session is headed for the connection.
pub proof fn lemma_call_without_session_is_headed_for_the_connection(
    connection: ConnectionView,
    document: Json,
)
    requires
        has_member(document, "method"@),
        forall|session_id: Seq<char>| !names_session(document, session_id),
    ensures
        connection.destination(document) == Destination::Connection,
        connection.settled(document) == connection,
{
    if let Some(session_id) = document.session_id() {
        assert(names_session(document, session_id));
    }
}

/// The answer to an open request, that is an object without a method, with the request's id, and
/// with a result or an error, is headed where the request is to be answered, whatever else it
/// holds. After it the request is open no more, and all other requests are as before.
pub proof fn lemma_answer_is_headed_for_its_route(
    connection: ConnectionView,
    members: Map<Seq<char>, Json>,
)
    requires
        !members.contains_key("method"@),
        members.contains_key("id"@),
        members.contains_key("result"@) || members.contains_key("error"@),
    ensures
        connection.pending.contains_key(members["id"@]) ==> connection.destination(
            Json::Object(members),
        ) == connection.pending[members["id"@]],
        !connection.pending.contains_key(members["id"@]) ==> connection.destination(
            Json::Object(members),
        ) == Destination::Connection,
        connection.settled(Json::Object(members)) == (ConnectionView {
            pending: connection.pending.remove(members["id"@]),
            ..connection
        }),
{
}

/// What neither calls a method nor answers a request is headed for the connection, and settles
/// nothing.
pub proof fn lemma_anything_else_is_headed_for_the_connection(
    connection: ConnectionView,
    document: Json,
)
    requires
        !has_member(document, "method"@),
        !is_reply(document),
    ensures
        connection.destination(document) == Destination::Connection,
        connection.settled(document) == connection,
{
}

/// The session of a message is the text under `params.sessionId`, and there is none where no text
/// stands there. No other member matters.
pub proof fn lemma_session_is_read_from_the_parameters(v: &Value, session_id: Option<String>)
    requires
        call_ensures(extract_session_id_from_params, (v,), session_id),
    ensures
        session_id matches Some(text) ==> names_session(json_of(*v), text@),
        session_id is None ==> forall|text: Seq<char>| !names_session(json_of(*v), text),
{
}

/// A request or notification that names a session is sorted to that session, and one that names
/// none to the connection. Neither changes anything.
pub proof fn lemma_call_is_sorted_to_its_session(
    connection: &mut Connection,
    v: &Value,
    target: Target,
    session_id: Seq<char>,
)
    requires
        call_ensures(Connection::classify, (connection, v), target),
        has_member(json_of(*v), "method"@),
    ensures
        final(connection)@ == old(connection)@,
        names_session(json_of(*v), session_id) ==> target is Session && target->0@ == session_id,
        target is Session ==> names_session(json_of(*v), target->0@),
{
    if names_session(json_of(*v), session_id) {
        let members = json_of(*v)->Object_0;
        lemma_call_is_headed_for_its_session(
            old(connection)@,
            members,
            members["params"@]->Object_0,
            session_id,
        );
    }
}

/// An answer is sorted to where its request is to be answered, and to the connection where no
/// such request is open. It takes that request, and nothing else, out of the open ones.
pub proof fn lemma_answer_is_sorted_to_its_route(
    connection: &mut Connection,
    v: &Value,
    target: Target,
    id: Json,
)
    requires
        call_ensures(Connection::classify, (connection, v), target),
        is_reply(json_of(*v)),
        member_is(json_of(*v), "id"@, id),
    ensures
        match target {
            Target::Session(session_id) => old(connection)@.pending.contains_key(id) && old(
                connection,
            )@.pending[id] == Destination::Session(session_id@),
            Target::Connection => old(connection)@.pending.contains_key(id) ==> old(
                connection,
            )@.pending[id] == Destination::Connection,
        },
        final(connection)@ == (ConnectionView {
            pending: old(connection)@.pending.remove(id),
            ..old(connection)@
        }),
{
    lemma_answer_is_headed_for_its_route(old(connection)@, json_of(*v)->Object_0);
}

/// Anything else is sorted to the connection, and changes nothing.
pub proof fn lemma_anything_else_is_sorted_to_the_connection(
    connection: &mut Connection,
    v: &Value,
    target: Target,
)
    requires
        call_ensures(Connection::classify, (connection, v), target),
        !has_member(json_of(*v), "method"@),
        !is_reply(json_of(*v)),
    ensures
        target is Connection,
        final(connection)@ == old(connection)@,
{
    lemma_anything_else_is_headed_for_the_connection(old(connection)@, json_of(*v));
}

/// A message that is routed is put on the stream that it is headed for.
proof fn lemma_routed_is_put_on(
    connection: ConnectionView,
    message: Seq<char>,
    document: Option<Json>,
)
    ensures
        put_on(
            connection,
            connection.routed(message, document),
            connection.destination_of(document),
            message,
        ),
        connection.overflows(document) == full_buffers(
            connection,
            connection.destination_of(document),
        ),
        connection.routed(message, document).pending == (match document {
            Some(document) => connection.settled(document).pending,
            None => connection.pending,
        }),
{
    lemma_pushed_is_gained(connection.all, message);
    lemma_pushed_is_gained(connection.connection, message);
    if let Destination::Session(session_id) = connection.destination_of(document) {
        lemma_pushed_is_gained(connection.session(session_id), message);
        assert(connection.routed(message, document).sessions.remove(session_id)
            =~= connection.sessions.remove(session_id));
    }
}

/// A request or notification of the agent that names a session is put on the stream of that
/// session, whether or not it carries an id, and leaves the open requests alone.
pub proof fn lemma_agent_call_reaches_its_session(
    connection: &mut Connection,
    msg: String,
    dropped: u8,
    value: Value,
    session_id: Seq<char>,
)
    requires
        call_ensures(Connection::route_outbound, (connection, msg), dropped),
        parsed_text(msg@) == Some(value),
        has_member(json_of(value), "method"@),
        names_session(json_of(value), session_id),
    ensures
        put_on(
            old(connection)@,
            final(connection)@,
            Destination::Session(session_id),
            msg@,
        ),
        final(connection)@.pending == old(connection)@.pending,
        dropped == full_buffers(old(connection)@, Destination::Session(session_id)),
{
    let members = json_of(value)->Object_0;
    lemma_routed_is_put_on(old(connection)@, msg@, Some(json_of(value)));
    lemma_call_is_headed_for_its_session(
        old(connection)@,
        members,
        members["params"@]->Object_0,
        session_id,
    );
}

/// A request or notification of the agent that names no session is put on the stream of the
/// connection.
pub proof fn lemma_agent_call_without_session_reaches_the_connection(
    connection: &mut Connection,
    msg: String,
    dropped: u8,
    value: Value,
)
    requires
        call_ensures(Connection::route_outbound, (connection, msg), dropped),
        parsed_text(msg@) == Some(value),
        has_member(json_of(value), "method"@),
        forall|session_id: Seq<char>| !names_session(json_of(value), session_id),
    ensures
        put_on(old(connection)@, final(connection)@, Destination::Connection, msg@),
        final(connection)@.pending == old(connection)@.pending,
        dropped == full_buffers(old(connection)@, Destination::Connection),
{
    lemma_routed_is_put_on(old(connection)@, msg@, Some(json_of(value)));
    lemma_call_without_session_is_headed_for_the_connection(old(connection)@, json_of(value));
}

/// The agent's answer to a request is put on the stream where the request is to be answered, or
/// on that of the connection where no such request is open, and settles that request only.
pub proof fn lemma_agent_answer_takes_its_route(
    connection: &mut Connection,
    msg: String,
    dropped: u8,
    value: Value,
    id: Json,
)
    requires
        call_ensures(Connection::route_outbound, (connection, msg), dropped),
        parsed_text(msg@) == Some(value),
        is_reply(json_of(value)),
        member_is(json_of(value), "id"@, id),
    ensures
        ({
            let destination = if old(connection)@.pending.contains_key(id) {
                old(connection)@.pending[id]
            } else {
                Destination::Connection
            };
            &&& put_on(old(connection)@, final(connection)@, destination, msg@)
            &&& dropped == full_buffers(old(connection)@, destination)
        }),
        final(connection)@.pending == old(connection)@.pending.remove(id),
{
    lemma_routed_is_put_on(old(connection)@, msg@, Some(json_of(value)));
    lemma_answer_is_headed_for_its_route(old(connection)@, json_of(value)->Object_0);
}

/// Any other message of the agent, be it JSON or not, is put on the stream of the connection and
/// leaves the open requests alone.
pub proof fn lemma_other_messages_reach_the_connection(
    connection: &mut Connection,
    msg: String,
    dropped: u8,
)
    requires
        call_ensures(Connection::route_outbound, (connection, msg), dropped),
        parsed_text(msg@) matches Some(value) ==> !has_member(json_of(value), "method"@)
            && !is_reply(json_of(value)),
    ensures
        put_on(old(connection)@, final(connection)@, Destination::Connection, msg@),
        final(connection)@.pending == old(connection)@.pending,
        dropped == full_buffers(old(connection)@, Destination::Connection),
{
    let document = match parsed_text(msg@) {
        Some(value) => Some(json_of(value)),
        None => None,
    };
    lemma_routed_is_put_on(old(connection)@, msg@, document);
    if let Some(document) = document {
        lemma_anything_else_is_headed_for_the_connection(old(connection)@, document);
    }
}

/// A message that comes with the value it reads as goes where that value is headed: to the
/// session that it names where it calls a method, where its request is to be answered where it
/// answers one, and to the connection otherwise.
pub proof fn lemma_parsed_message_goes_where_it_is_headed(
    connection: &mut Connection,
    msg: String,
    parsed: Option<&Value>,
    dropped: u8,
    destination: Destination,
    id: Json,
)
    requires
        call_ensures(Connection::route_parsed, (connection, msg, parsed), dropped),
        match parsed {
            None => destination is Connection,
            Some(value) => if has_member(json_of(*value), "method"@) {
                match destination {
                    Destination::Session(session_id) => names_session(json_of(*value), session_id),
                    Destination::Connection => forall|session_id: Seq<char>|
                        !names_session(json_of(*value), session_id),
                }
            } else if is_reply(json_of(*value)) {
                &&& member_is(json_of(*value), "id"@, id)
                &&& destination == (if old(connection)@.pending.contains_key(id) {
                    old(connection)@.pending[id]
                } else {
                    Destination::Connection
                })
            } else {
                destination is Connection
            },
        },
    ensures
        put_on(old(connection)@, final(connection)@, destination, msg@),
        dropped == full_buffers(old(connection)@, destination),
        final(connection)@.pending == (match parsed {
            Some(value) if is_reply(json_of(*value)) => old(connection)@.pending.remove(id),
            _ => old(connection)@.pending,
        }),
{
    let document = match parsed {
        Some(value) => Some(json_of(*value)),
        None => None,
    };
    lemma_routed_is_put_on(old(connection)@, msg@, document);
    if let Some(document) = document {
        if has_member(document, "method"@) {
            if destination is Connection {
                lemma_call_without_session_is_headed_for_the_connection(old(connection)@, document);
            }
        } else if is_reply(document) {
            lemma_answer_is_headed_for_its_route(old(connection)@, document->Object_0);
        } else {
            lemma_anything_else_is_headed_for_the_connection(old(connection)@, document);
        }
    }
}

/// Recording a route puts it into the table under the request's id, in place of an earlier one,
/// and changes nothing else. The id `null` is not recorded.
pub proof fn lemma_recorded_route_is_in_the_table(
    connection: &mut Connection,
    id: Value,
    route: ResponseRoute,
)
    requires
        call_ensures(Connection::record_pending_route, (connection, id, route), ()),
    ensures
        json_of(id) == Json::Null ==> final(connection)@ == old(connection)@,
        json_of(id) != Json::Null ==> {
            &&& final(connection)@.pending.contains_key(json_of(id))
            &&& final(connection)@.pending[json_of(id)] == (match route {
                ResponseRoute::Connection => Destination::Connection,
                ResponseRoute::Session(session_id) => Destination::Session(session_id@),
            })
            &&& final(connection)@.pending.remove(json_of(id)) == old(
                connection,
            )@.pending.remove(json_of(id))
            &&& final(connection)@ == (ConnectionView {
                pending: final(connection)@.pending,
                ..old(connection)@
            })
        },
{
    assert(json_of(id) != Json::Null ==> final(connection)@.pending.remove(json_of(id))
        =~= old(connection)@.pending.remove(json_of(id)));
}

/// The answer that follows a recorded route takes it: the two calls one after the other put the
/// answer on the stream that was recorded.
pub proof fn lemma_answer_follows_recorded_route(
    recording: &mut Connection,
    id: Value,
    route: ResponseRoute,
    answering: &mut Connection,
    msg: String,
    dropped: u8,
    value: Value,
)
    requires
        call_ensures(Connection::record_pending_route, (recording, id, route), ()),
        old(answering)@ == final(recording)@,
        call_ensures(Connection::route_outbound, (answering, msg), dropped),
        json_of(id) != Json::Null,
        parsed_text(msg@) == Some(value),
        is_reply(json_of(value)),
        member_is(json_of(value), "id"@, json_of(id)),
    ensures
        put_on(
            final(recording)@,
            final(answering)@,
            match route {
                ResponseRoute::Connection => Destination::Connection,
                ResponseRoute::Session(session_id) => Destination::Session(session_id@),
            },
            msg@,
        ),
        !final(answering)@.pending.contains_key(json_of(id)),
{
    lemma_recorded_route_is_in_the_table(recording, id, route);
    lemma_agent_answer_takes_its_route(answering, msg, dropped, value, json_of(id));
}

/// Joining the stream of the connection hands its buffer over, gives a receiver of that stream,
/// and leaves everything else alone.
pub proof fn lemma_joining_the_connection_stream(
    connection: &mut Connection,
    subscription: (Vec<String>, broadcast::Receiver<String>),
)
    requires
        call_ensures(Connection::subscribe_connection_stream, (connection,), subscription),
    ensures
        handed_over(
            old(connection)@.connection,
            final(connection)@.connection,
            subscription.0@,
        ),
        final(connection)@ == (ConnectionView {
            connection: final(connection)@.connection,
            ..old(connection)@
        }),
        final(connection).feeds(Destination::Connection, subscription.1),
        missed(subscription.1) == final(connection)@.connection.broadcast,
{
    lemma_subscribed_is_handed_over(old(connection)@.connection, subscription.0@);
}

/// Joining the stream of a session works exactly where the session has one. It hands the buffer
/// over, gives a receiver of that stream, and leaves everything else alone.
pub proof fn lemma_joining_a_session_stream(
    connection: &mut Connection,
    session_id: &str,
    subscription: Option<(Vec<String>, broadcast::Receiver<String>)>,
)
    requires
        call_ensures(
            Connection::subscribe_session_stream,
            (connection, session_id),
            subscription,
        ),
    ensures
        subscription is Some <==> old(connection)@.sessions.contains_key(session_id@),
        subscription is None ==> final(connection)@ == old(connection)@,
        subscription is Some ==> {
            &&& final(connection)@.sessions.contains_key(session_id@)
            &&& handed_over(
                old(connection)@.sessions[session_id@],
                final(connection)@.sessions[session_id@],
                (subscription->0).0@,
            )
            &&& final(connection)@.sessions.remove(session_id@) == old(
                connection,
            )@.sessions.remove(session_id@)
            &&& final(connection)@ == (ConnectionView {
                sessions: final(connection)@.sessions,
                ..old(connection)@
            })
            &&& final(connection).feeds(Destination::Session(session_id@), (subscription->0).1)
            &&& missed((subscription->0).1) == final(connection)@.sessions[session_id@].broadcast
        },
{
    if let Some((replay, receiver)) = subscription {
        lemma_subscribed_is_handed_over(old(connection)@.sessions[session_id@], replay@);
        assert(final(connection)@.sessions.remove(session_id@) =~= old(
            connection,
        )@.sessions.remove(session_id@));
    }
}

/// Joining the stream of everything hands its buffer over, gives a receiver of that stream, and
/// leaves everything else alone.
pub proof fn lemma_joining_the_stream_of_everything(
    connection: &mut Connection,
    subscription: (Vec<String>, broadcast::Receiver<String>),
)
    requires
        call_ensures(Connection::subscribe_all_outbound, (connection,), subscription),
    ensures
        handed_over(old(connection)@.all, final(connection)@.all, subscription.0@),
        final(connection)@ == (ConnectionView {
            all: final(connection)@.all,
            ..old(connection)@
        }),
        final(connection).feeds_all(subscription.1),
        missed(subscription.1) == final(connection)@.all.broadcast,
{
    lemma_subscribed_is_handed_over(old(connection)@.all, subscription.0@);
}

/// Opening a session gives it an untouched stream where it had none, and changes nothing where it
/// had one.
pub proof fn lemma_opening_a_session(connection: &mut Connection, session_id: &str)
    requires
        call_ensures(Connection::ensure_session, (connection, session_id), ()),
    ensures
        old(connection)@.sessions.contains_key(session_id@) ==> final(connection)@ == old(
            connection,
        )@,
        !old(connection)@.sessions.contains_key(session_id@) ==> {
            &&& final(connection)@.sessions.contains_key(session_id@)
            &&& untouched(final(connection)@.sessions[session_id@])
            &&& final(connection)@.sessions.remove(session_id@) == old(connection)@.sessions
            &&& final(connection)@ == (ConnectionView {
                sessions: final(connection)@.sessions,
                ..old(connection)@
            })
        },
{
    if old(connection)@.sessions.contains_key(session_id@) {
        assert(final(connection)@.sessions =~= old(connection)@.sessions);
    } else {
        assert(final(connection)@.sessions.remove(session_id@) =~= old(connection)@.sessions);
    }
}

/// A session that is opened can be joined, and nothing is replayed where it was not open before.
pub proof fn lemma_opened_session_can_be_joined(
    opening: &mut Connection,
    joining: &mut Connection,
    session_id: &str,
    subscription: Option<(Vec<String>, broadcast::Receiver<String>)>,
)
    requires
        call_ensures(Connection::ensure_session, (opening, session_id), ()),
        old(joining)@ == final(opening)@,
        call_ensures(Connection::subscribe_session_stream, (joining, session_id), subscription),
    ensures
        subscription is Some,
        !old(opening)@.sessions.contains_key(session_id@) ==> (subscription->0).0@.len() == 0,
{
    lemma_opening_a_session(opening, session_id);
    lemma_joining_a_session_stream(joining, session_id, subscription);
}

/// The stream of a session that is handed out is the one that it has, or an untouched one, and
/// what is done to it is done to that session alone.
pub proof fn lemma_session_stream_is_handed_out(
    connection: &mut Connection,
    session_id: &str,
    stream: &mut OutboundStream,
)
    requires
        call_ensures(Connection::get_or_create_session_stream, (connection, session_id), stream),
    ensures
        old(connection)@.sessions.contains_key(session_id@) ==> old(stream)@ == old(
            connection,
        )@.sessions[session_id@],
        !old(connection)@.sessions.contains_key(session_id@) ==> untouched(old(stream)@),
        final(connection)@.sessions.contains_key(session_id@),
        final(connection)@.sessions[session_id@] == final(stream)@,
        final(connection)@.sessions.remove(session_id@) == old(connection)@.sessions.remove(
            session_id@,
        ),
        final(connection)@ == (ConnectionView {
            sessions: final(connection)@.sessions,
            ..old(connection)@
        }),
{
    assert(final(connection)@.sessions.remove(session_id@) =~= old(
        connection,
    )@.sessions.remove(session_id@));
}

/// A new connection has untouched streams, no sessions and no open requests, and keeps the ends
/// that it was given.
pub proof fn lemma_new_connection_is_untouched(
    to_agent_tx: mpsc::Sender<String>,
    init_receiver: mpsc::UnboundedReceiver<String>,
    agent_handle: JoinHandle<()>,
    connection: Connection,
)
    requires
        call_ensures(Connection::new, (to_agent_tx, init_receiver, agent_handle), connection),
    ensures
        untouched(connection@.connection),
        untouched(connection@.all),
        connection@.sessions == Map::<Seq<char>, StreamView>::empty(),
        connection@.pending == Map::<Json, Destination>::empty(),
        connection@.lifecycle.to_agent == to_agent_tx,
        connection@.lifecycle.init_receiver == Some(init_receiver),
        !connection@.lifecycle.init_complete,
        connection@.lifecycle.agent == Some(agent_handle),
        connection@.lifecycle.router is None,
{
}

/// The router is handed the queue from the agent the first time, where there still is one, and
/// nothing ever after. Starting it touches neither streams nor requests nor tasks.
pub proof fn lemma_router_takes_the_queue_once(
    connection: &mut Connection,
    receiver: Option<mpsc::UnboundedReceiver<String>>,
)
    requires
        call_ensures(Connection::start_router, (connection,), receiver),
    ensures
        ({
            let before = old(connection)@.lifecycle;
            let after = final(connection)@.lifecycle;
            &&& before.init_complete ==> receiver is None && after == before
            &&& !before.init_complete ==> {
                &&& receiver == before.init_receiver
                &&& after.init_receiver is None
                &&& after.init_complete == (before.init_receiver is Some)
            }
            &&& after.to_agent == before.to_agent
            &&& after.agent == before.agent
            &&& after.router == before.router
        }),
        final(connection)@ == (ConnectionView {
            lifecycle: final(connection)@.lifecycle,
            ..old(connection)@
        }),
{
}

/// Of two starts of the router one after the other, the second is handed nothing.
pub proof fn lemma_second_start_is_handed_nothing(
    first: &mut Connection,
    queue: Option<mpsc::UnboundedReceiver<String>>,
    second: &mut Connection,
    again: Option<mpsc::UnboundedReceiver<String>>,
)
    requires
        call_ensures(Connection::start_router, (first,), queue),
        old(second)@ == final(first)@,
        call_ensures(Connection::start_router, (second,), again),
    ensures
        again is None,
{
    lemma_router_takes_the_queue_once(first, queue);
    lemma_router_takes_the_queue_once(second, again);
}

/// The task of the router is kept, and a shutdown gives up the tasks that are there, so that the
/// next one finds none. Neither touches streams, requests or queues.
pub proof fn lemma_tasks_are_kept_until_shutdown(
    attaching: &mut Connection,
    handle: JoinHandle<()>,
    closing: &mut Connection,
    tasks: Tasks,
)
    requires
        call_ensures(Connection::attach_router, (attaching, handle), ()),
        call_ensures(Connection::shutdown, (closing,), tasks),
    ensures
        final(attaching)@ == (ConnectionView {
            lifecycle: Lifecycle { router: Some(handle), ..old(attaching)@.lifecycle },
            ..old(attaching)@
        }),
        tasks.agent == old(closing)@.lifecycle.agent,
        tasks.router == old(closing)@.lifecycle.router,
        final(closing)@ == (ConnectionView {
            lifecycle: Lifecycle { agent: None, router: None, ..old(closing)@.lifecycle },
            ..old(closing)@
        }),
        old(closing)@ == final(attaching)@ ==> tasks.router == Some(handle),
{
}

/// Routing a message takes no receiver away from its stream: what a client has joined stays
/// joined.
pub proof fn lemma_routing_keeps_receivers(
    connection: &mut Connection,
    msg: String,
    dropped: u8,
    destination: Destination,
    receiver: broadcast::Receiver<String>,
)
    requires
        call_ensures(Connection::route_outbound, (connection, msg), dropped),
        destination is Connection || old(connection)@.sessions.contains_key(destination->0),
    ensures
        final(connection).feeds(destination, receiver) == old(connection).feeds(
            destination,
            receiver,
        ),
        final(connection).feeds_all(receiver) == old(connection).feeds_all(receiver),
{
    assert(old(connection)@.has_stream(destination));
}

/// A registry starts out without connections.
pub proof fn lemma_new_registry_is_empty<S, C>(
    server: S,
    registry: ConnectionRegistry<S, C>,
    connection_id: &str,
    found: Option<&C>,
)
    requires
        call_ensures(ConnectionRegistry::<S, C>::new, (server,), registry),
        call_ensures(ConnectionRegistry::<S, C>::get, (&registry, connection_id), found),
    ensures
        found is None,
        registry.agents() == server,
{
}

/// A connection that was registered is found under its id, and all others are found as before.
pub proof fn lemma_registered_connection_is_found<S, C>(
    registry: &mut ConnectionRegistry<S, C>,
    connection_id: String,
    connection: C,
    key: &str,
    earlier: Option<&C>,
    found: Option<&C>,
)
    requires
        call_ensures(
            ConnectionRegistry::<S, C>::register,
            (registry, connection_id, connection),
            (),
        ),
        call_ensures(ConnectionRegistry::<S, C>::get, (&*old(registry), key), earlier),
        call_ensures(ConnectionRegistry::<S, C>::get, (&*final(registry), key), found),
    ensures
        key@ == connection_id@ ==> found == Some(&connection),
        key@ != connection_id@ ==> found == earlier,
        final(registry).agents() == old(registry).agents(),
{
}

/// A connection that was created is found under the id that was given for it, and all others are
/// found as before.
pub proof fn lemma_created_connection_is_found<S, C>(
    registry: &mut ConnectionRegistry<S, C>,
    connection: C,
    connection_id: String,
    key: &str,
    earlier: Option<&C>,
    found: Option<&C>,
)
    requires
        call_ensures(
            ConnectionRegistry::<S, C>::create_connection,
            (registry, connection),
            connection_id,
        ),
        call_ensures(ConnectionRegistry::<S, C>::get, (&*old(registry), key), earlier),
        call_ensures(ConnectionRegistry::<S, C>::get, (&*final(registry), key), found),
    ensures
        key@ == connection_id@ ==> found == Some(&connection),
        key@ != connection_id@ ==> found == earlier,
        connection_id@.len() == 36,
        connection_id@[8] == '-' && connection_id@[13] == '-' && connection_id@[18] == '-'
            && connection_id@[23] == '-',
        connection_id@[14] == '4',
        final(registry).agents() == old(registry).agents(),
{
}

/// A connection that is removed is the one that was found under the id. It is found no more, and
/// all others are found as before.
pub proof fn lemma_removed_connection_is_gone<S, C>(
    registry: &mut ConnectionRegistry<S, C>,
    connection_id: &str,
    removed: Option<C>,
    key: &str,
    earlier: Option<&C>,
    found: Option<&C>,
)
    requires
        call_ensures(ConnectionRegistry::<S, C>::remove, (registry, connection_id), removed),
        call_ensures(ConnectionRegistry::<S, C>::get, (&*old(registry), key), earlier),
        call_ensures(ConnectionRegistry::<S, C>::get, (&*final(registry), key), found),
    ensures
        key@ == connection_id@ ==> found is None && (match removed {
            Some(connection) => earlier == Some(&connection),
            None => earlier is None,
        }),
        key@ != connection_id@ ==> found == earlier,
        final(registry).agents() == old(registry).agents(),
{
}

} // verus!
