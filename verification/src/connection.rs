//! Per-connection state. Messages from the agent to the client fan out to a connection-scoped
//! stream, a stream for each active session, and a stream of everything outbound.

use crate::channel::missed;
use crate::json::{is_null, json_of, member, parse_text, parsed_text, Json};
use crate::keyed_list::KeyedList;
use crate::routes::{extract_session_id_from_params, Destination, ResponseRoute, Target};
use crate::stream::{
    lemma_buffer_keeps_newest, newest, texts, OutboundStream, StreamView,
    PRE_SUBSCRIBE_BUFFER_CAPACITY,
};
use serde_json::Value;
use tokio::sync::{broadcast, mpsc};
use tokio::task::JoinHandle;
use vstd::prelude::*;

verus! {

/// How many messages may wait for the agent of a connection.
pub const TO_AGENT_QUEUE_CAPACITY: usize = 256;

/// The ends of a connection that lead to its agent, and how far it has been set up.
pub struct Lifecycle {
    /// The queue of messages for the agent.
    pub to_agent: mpsc::Sender<String>,
    /// The queue of messages from the agent, until the router takes it.
    pub init_receiver: Option<mpsc::UnboundedReceiver<String>>,
    /// Whether the router has taken over.
    pub init_complete: bool,
    /// The task of the agent.
    pub agent: Option<JoinHandle<()>>,
    /// The task of the router.
    pub router: Option<JoinHandle<()>>,
}

impl Lifecycle {
    /// The router takes the queue from the agent, unless it has it already.
    pub open spec fn handed_over(self) -> Lifecycle {
        if self.init_complete || self.init_receiver is None {
            self
        } else {
            Lifecycle { init_receiver: None, init_complete: true, ..self }
        }
    }
}

/// What a [`Connection`] holds.
#[verifier::ext_equal]
pub struct ConnectionView {
    /// The stream of messages that belong to no session.
    pub connection: StreamView,
    /// The stream of each session.
    pub sessions: Map<Seq<char>, StreamView>,
    /// The stream of all messages.
    pub all: StreamView,
    /// Where the answer to each request that is still open is to go, by the request's id.
    pub pending: Map<Json, Destination>,
    /// The ends that lead to the agent.
    pub lifecycle: Lifecycle,
}

impl ConnectionView {
    /// The stream of a session, or the one it would be given.
    pub open spec fn session(self, session_id: Seq<char>) -> StreamView {
        if self.sessions.contains_key(session_id) {
            self.sessions[session_id]
        } else {
            StreamView::fresh()
        }
    }

    /// The stream of messages that are headed for a destination.
    pub open spec fn stream_of(self, destination: Destination) -> StreamView {
        match destination {
            Destination::Connection => self.connection,
            Destination::Session(session_id) => self.session(session_id),
        }
    }

    /// Whether there is a stream for a destination.
    pub open spec fn has_stream(self, destination: Destination) -> bool {
        match destination {
            Destination::Connection => true,
            Destination::Session(session_id) => self.sessions.contains_key(session_id),
        }
    }

    /// How many full buffers drop their oldest message for one that reads as `document`.
    pub open spec fn overflows(self, document: Option<Json>) -> int {
        let outbound: int = if self.all.overflows() {
            1
        } else {
            0
        };
        let headed: int = if self.stream_of(self.destination_of(document)).overflows() {
            1
        } else {
            0
        };
        outbound + headed
    }

    /// Somebody has joined the stream of a destination.
    pub open spec fn subscribed_to(self, destination: Destination) -> ConnectionView {
        match destination {
            Destination::Connection => ConnectionView {
                connection: self.connection.subscribed(),
                ..self
            },
            Destination::Session(session_id) => ConnectionView {
                sessions: self.sessions.insert(session_id, self.session(session_id).subscribed()),
                ..self
            },
        }
    }

    /// The session has a stream.
    pub open spec fn with_session(self, session_id: Seq<char>) -> ConnectionView {
        ConnectionView {
            sessions: self.sessions.insert(session_id, self.session(session_id)),
            ..self
        }
    }

    /// Where a document goes: what calls a method goes to the session that its parameters
    /// name; an answer goes where its request came from; all else goes to the connection.
    pub open spec fn destination(self, document: Json) -> Destination {
        if document.is_call() {
            match document.session_id() {
                Some(session_id) => Destination::Session(session_id),
                None => Destination::Connection,
            }
        } else if document.is_answer() && self.pending.contains_key(document.member("id"@)->0) {
            self.pending[document.member("id"@)->0]
        } else {
            Destination::Connection
        }
    }

    /// Where a message goes that reads as `document`; one that is no JSON goes to the connection.
    pub open spec fn destination_of(self, document: Option<Json>) -> Destination {
        match document {
            Some(document) => self.destination(document),
            None => Destination::Connection,
        }
    }

    /// An answer settles its request.
    pub open spec fn settled(self, document: Json) -> ConnectionView {
        if document.is_answer() {
            ConnectionView { pending: self.pending.remove(document.member("id"@)->0), ..self }
        } else {
            self
        }
    }

    /// A message is put on the stream that it belongs to.
    pub open spec fn delivered(
        self,
        destination: Destination,
        message: Seq<char>,
    ) -> ConnectionView {
        match destination {
            Destination::Connection => ConnectionView {
                connection: self.connection.pushed(message),
                ..self
            },
            Destination::Session(session_id) => ConnectionView {
                sessions: self.sessions.insert(
                    session_id,
                    self.session(session_id).pushed(message),
                ),
                ..self
            },
        }
    }

    /// A message from the agent, which reads as `document` where it is JSON, is put on the
    /// stream of everything and on the one that it belongs to.
    pub open spec fn routed(self, message: Seq<char>, document: Option<Json>) -> ConnectionView {
        let seen = ConnectionView { all: self.all.pushed(message), ..self };
        match document {
            Some(document) => seen.settled(document).delivered(
                self.destination(document),
                message,
            ),
            None => seen.delivered(Destination::Connection, message),
        }
    }

    /// The answer to the request with this id is awaited. A `null` id awaits none.
    pub open spec fn awaiting(self, id: Json, route: Destination) -> ConnectionView {
        if id is Null {
            self
        } else {
            ConnectionView { pending: self.pending.insert(id, route), ..self }
        }
    }

    /// What a step makes of the connection.
    pub open spec fn after(self, step: Step) -> ConnectionView {
        match step {
            Step::Routed(message) => self.routed(message, document_of(message)),
            Step::Opened(session_id) => self.with_session(session_id),
            Step::Awaited(id, route) => self.awaiting(id, route),
            Step::Joined(destination) => if self.has_stream(destination) {
                self.subscribed_to(destination)
            } else {
                self
            },
            Step::JoinedAll => ConnectionView { all: self.all.subscribed(), ..self },
            Step::Managed(lifecycle) => ConnectionView { lifecycle, ..self },
        }
    }

    /// What steps make of the connection, one after the other.
    pub open spec fn after_all(self, steps: Seq<Step>) -> ConnectionView
        decreases steps.len(),
    {
        if steps.len() == 0 {
            self
        } else {
            self.after_all(steps.drop_last()).after(steps.last())
        }
    }
}

/// Something that happens to a connection.
pub enum Step {
    /// A message from the agent is put on the streams.
    Routed(Seq<char>),
    /// A session is opened.
    Opened(Seq<char>),
    /// The answer to the request with this id is awaited.
    Awaited(Json, Destination),
    /// A stream is joined, if there is one.
    Joined(Destination),
    /// The stream of everything is joined.
    JoinedAll,
    /// The ends that lead to the agent change.
    Managed(Lifecycle),
}

impl Step {
    /// Whether the step settles the request with this id.
    pub open spec fn answers(self, id: Json) -> bool {
        &&& self matches Step::Routed(message)
        &&& document_of(message) matches Some(document)
        &&& document.is_answer()
        &&& document.member("id"@) == Some(id)
    }

    /// Whether the step puts another request in the place of the one with this id.
    pub open spec fn reuses(self, id: Json) -> bool {
        self matches Step::Awaited(other, _) && other == id
    }
}

/// The document that a message from the agent reads as.
pub open spec fn document_of(message: Seq<char>) -> Option<Json> {
    match parsed_text(message) {
        Some(value) => Some(json_of(value)),
        None => None,
    }
}

/// The messages that are put on the stream of `destination` when `steps` happen to `connection`.
pub open spec fn sorted_to(
    connection: ConnectionView,
    steps: Seq<Step>,
    destination: Destination,
) -> Seq<Seq<char>>
    decreases steps.len(),
{
    if steps.len() == 0 {
        Seq::empty()
    } else {
        let earlier = sorted_to(connection, steps.drop_last(), destination);
        let before = connection.after_all(steps.drop_last());
        match steps.last() {
            Step::Routed(message) if before.destination_of(document_of(message)) == destination =>
                earlier.push(message),
            _ => earlier,
        }
    }
}

/// The messages from the agent among `steps`.
pub open spec fn routed_in(steps: Seq<Step>) -> Seq<Seq<char>>
    decreases steps.len(),
{
    if steps.len() == 0 {
        Seq::empty()
    } else {
        let earlier = routed_in(steps.drop_last());
        match steps.last() {
            Step::Routed(message) => earlier.push(message),
            _ => earlier,
        }
    }
}

/// The tasks of a connection that are to be aborted.
pub struct Tasks {
    pub agent: Option<JoinHandle<()>>,
    pub router: Option<JoinHandle<()>>,
}

/// The state of one client connection.
pub struct Connection {
    pub to_agent_tx: mpsc::Sender<String>,
    /// Read once for the answer to the initialize request, before the router takes over.
    pub init_receiver: Option<mpsc::UnboundedReceiver<String>>,
    pub init_complete: bool,
    pub agent_handle: Option<JoinHandle<()>>,
    pub router_handle: Option<JoinHandle<()>>,
    connection_stream: OutboundStream,
    session_streams: KeyedList<String, OutboundStream>,
    all_outbound: OutboundStream,
    pending_routes: KeyedList<Value, ResponseRoute>,
}

impl View for Connection {
    type V = ConnectionView;

    closed spec fn view(&self) -> ConnectionView {
        ConnectionView {
            connection: self.connection_stream@,
            sessions: self.session_streams@.map_values(|stream: OutboundStream| stream@),
            all: self.all_outbound@,
            pending: self.pending_routes@.map_values(|route: ResponseRoute| route@),
            lifecycle: Lifecycle {
                to_agent: self.to_agent_tx,
                init_receiver: self.init_receiver,
                init_complete: self.init_complete,
                agent: self.agent_handle,
                router: self.router_handle,
            },
        }
    }
}

impl Connection {
    /// The streams and tables of a connection are in order.
    pub closed spec fn wf(self) -> bool {
        &&& self.connection_stream.wf()
        &&& self.all_outbound.wf()
        &&& self.session_streams.wf()
        &&& self.pending_routes.wf()
        &&& forall|session_id: Seq<char>|
            self.session_streams@.contains_key(session_id) ==> (
            #[trigger] self.session_streams@[session_id]).wf()
    }

    /// Whether a receiver is one of the stream of a destination: what is broadcast on that stream
    /// reaches it.
    pub closed spec fn feeds(
        self,
        destination: Destination,
        receiver: broadcast::Receiver<String>,
    ) -> bool {
        match destination {
            Destination::Connection => self.connection_stream.feeds(receiver),
            Destination::Session(session_id) => {
                &&& self.session_streams@.contains_key(session_id)
                &&& self.session_streams@[session_id].feeds(receiver)
            },
        }
    }

    /// Whether a receiver is one of the stream of everything.
    pub closed spec fn feeds_all(self, receiver: broadcast::Receiver<String>) -> bool {
        self.all_outbound.feeds(receiver)
    }

    /// Whether `messages` are what a receiver is to get of the stream of a destination: it is a
    /// receiver of that stream, and these are the messages that were broadcast since it joined.
    pub open spec fn owes(
        self,
        destination: Destination,
        receiver: broadcast::Receiver<String>,
        messages: Seq<Seq<char>>,
    ) -> bool {
        &&& self.feeds(destination, receiver)
        &&& self@.stream_of(destination).broadcast == missed(receiver) + messages
    }

    /// Whether `messages` are what a receiver is to get of the stream of everything.
    pub open spec fn owes_all(
        self,
        receiver: broadcast::Receiver<String>,
        messages: Seq<Seq<char>>,
    ) -> bool {
        &&& self.feeds_all(receiver)
        &&& self@.all.broadcast == missed(receiver) + messages
    }

    /// Whether the streams that there were `before` are still there, each with its receivers: a
    /// receiver is one of such a stream exactly when it was one of that stream before.
    pub open spec fn keeps_receivers(self, before: Connection) -> bool {
        &&& forall|destination: Destination|
            before@.has_stream(destination) ==> #[trigger] self@.has_stream(destination)
        &&& forall|destination: Destination, receiver: broadcast::Receiver<String>|
            before@.has_stream(destination) ==> #[trigger] self.feeds(destination, receiver)
                == before.feeds(destination, receiver)
        &&& forall|receiver: broadcast::Receiver<String>| #[trigger]
            self.feeds_all(receiver) == before.feeds_all(receiver)
    }

    /// A connection to an agent, without messages, sessions or open requests.
    pub fn new(
        to_agent_tx: mpsc::Sender<String>,
        init_receiver: mpsc::UnboundedReceiver<String>,
        agent_handle: JoinHandle<()>,
    ) -> (connection: Connection)
        ensures
            connection.wf(),
            connection@ == (ConnectionView {
                connection: StreamView::fresh(),
                sessions: Map::empty(),
                all: StreamView::fresh(),
                pending: Map::empty(),
                lifecycle: Lifecycle {
                    to_agent: to_agent_tx,
                    init_receiver: Some(init_receiver),
                    init_complete: false,
                    agent: Some(agent_handle),
                    router: None,
                },
            }),
    {
        let connection = Connection {
            to_agent_tx,
            init_receiver: Some(init_receiver),
            init_complete: false,
            agent_handle: Some(agent_handle),
            router_handle: None,
            connection_stream: OutboundStream::new(),
            session_streams: KeyedList::new(),
            all_outbound: OutboundStream::new(),
            pending_routes: KeyedList::new(),
        };
        assert(connection@.sessions =~= Map::empty());
        assert(connection@.pending =~= Map::empty());
        connection
    }

    /// The stream of a session, which is opened if there is none yet.
    pub fn get_or_create_session_stream(&mut self, session_id: &str) -> (stream:
        &mut OutboundStream)
        requires
            old(self).wf(),
        ensures
            stream.wf(),
            stream@ == old(self)@.session(session_id@),
            final(stream).wf() ==> final(self).wf(),
            final(self)@ == (ConnectionView {
                sessions: old(self)@.sessions.insert(session_id@, final(stream)@),
                ..old(self)@
            }),
            forall|receiver: broadcast::Receiver<String>|
                old(self)@.sessions.contains_key(session_id@) ==> #[trigger] stream.feeds(receiver)
                    == old(self).feeds(Destination::Session(session_id@), receiver),
            forall|receiver: broadcast::Receiver<String>| #[trigger]
                final(self).feeds(Destination::Session(session_id@), receiver)
                    == final(stream).feeds(receiver),
            forall|destination: Destination, receiver: broadcast::Receiver<String>|
                destination != Destination::Session(session_id@) ==> #[trigger] final(self).feeds(
                    destination,
                    receiver,
                ) == old(self).feeds(destination, receiver),
            forall|receiver: broadcast::Receiver<String>| #[trigger]
                final(self).feeds_all(receiver) == old(self).feeds_all(receiver),
    {
        let key: String = session_id.to_owned();
        if !self.session_streams.contains_key(&key) {
            self.session_streams.insert(key.clone(), OutboundStream::new());
        }
        self.session_streams.get_mut(&key).unwrap()
    }

    /// Decides where a message from the agent goes. An answer takes the route of its request
    /// out of the table.
    pub fn classify(&mut self, v: &Value) -> (target: Target)
        requires
            old(self).wf(),
        ensures
            final(self).wf(),
            final(self)@ == old(self)@.settled(json_of(*v)),
            target@ == old(self)@.destination(json_of(*v)),
            final(self).keeps_receivers(*old(self)),
    {
        if member(v, "method").is_some() {
            return match extract_session_id_from_params(v) {
                Some(session_id) => Target::Session(session_id),
                None => Target::Connection,
            };
        }
        let answered = member(v, "result").is_some() || member(v, "error").is_some();
        match member(v, "id") {
            Some(id) => {
                if !answered {
                    return Target::Connection;
                }
                let ghost table = self.pending_routes@;
                let route = self.pending_routes.remove(id);
                assert(self.pending_routes@.map_values(|route: ResponseRoute| route@)
                    =~= table.map_values(|route: ResponseRoute| route@).remove(json_of(*id)));
                match route {
                    Some(ResponseRoute::Session(session_id)) => Target::Session(session_id),
                    Some(ResponseRoute::Connection) | None => Target::Connection,
                }
            },
            None => Target::Connection,
        }
    }

    /// Puts a message from the agent, with the JSON value that it reads as, on the streams, and
    /// tells how many full buffers dropped their oldest message for it.
    pub fn route_parsed(&mut self, msg: String, parsed: Option<&Value>) -> (dropped: u8)
        requires
            old(self).wf(),
        ensures
            final(self).wf(),
            ({
                let document = match parsed {
                    Some(value) => Some(json_of(*value)),
                    None => None,
                };
                &&& final(self)@ == old(self)@.routed(msg@, document)
                &&& dropped == old(self)@.overflows(document)
            }),
            final(self).keeps_receivers(*old(self)),
    {
        let outbound = self.all_outbound.push(msg.clone());
        let ghost seen = *self;
        let target = match parsed {
            Some(value) => self.classify(value),
            None => Target::Connection,
        };
        let ghost sorted = *self;
        let headed = match target {
            Target::Connection => self.connection_stream.push(msg),
            Target::Session(session_id) => {
                let stream = self.get_or_create_session_stream(session_id.as_str());
                stream.push(msg)
            },
        };
        proof {
            lemma_receivers_stay(*old(self), seen, sorted);
            lemma_receivers_stay(*old(self), sorted, *self);
        }
        if outbound && headed {
            2
        } else if outbound || headed {
            1
        } else {
            0
        }
    }

    /// Puts a message from the agent on the streams, and tells how many full buffers dropped
    /// their oldest message for it.
    pub fn route_outbound(&mut self, msg: String) -> (dropped: u8)
        requires
            old(self).wf(),
        ensures
            final(self).wf(),
            final(self)@ == old(self)@.routed(msg@, document_of(msg@)),
            final(self).keeps_receivers(*old(self)),
            dropped == old(self)@.overflows(document_of(msg@)),
    {
        let parsed = parse_text(msg.as_str());
        self.route_parsed(msg, parsed.as_ref())
    }

    /// Remembers where the answer to a request is to go. A request without an id gets none.
    pub fn record_pending_route(&mut self, id: Value, route: ResponseRoute)
        requires
            old(self).wf(),
        ensures
            final(self).wf(),
            final(self)@ == old(self)@.awaiting(json_of(id), route@),
            final(self).keeps_receivers(*old(self)),
    {
        if is_null(&id) {
            return;
        }
        let ghost table = self.pending_routes@;
        self.pending_routes.insert(id, route);
        assert(self.pending_routes@.map_values(|route: ResponseRoute| route@) =~= table.map_values(
            |route: ResponseRoute| route@,
        ).insert(json_of(id), route@));
    }

    /// Joins the stream of messages that belong to no session.
    pub fn subscribe_connection_stream(&mut self) -> (subscription: (
        Vec<String>,
        broadcast::Receiver<String>,
    ))
        requires
            old(self).wf(),
        ensures
            final(self).wf(),
            final(self)@ == old(self)@.subscribed_to(Destination::Connection),
            texts(subscription.0@) == old(self)@.connection.replay(),
            missed(subscription.1) == old(self)@.connection.broadcast,
            final(self).owes(Destination::Connection, subscription.1, Seq::empty()),
            final(self).keeps_receivers(*old(self)),
    {
        self.connection_stream.subscribe_with_replay()
    }

    /// Joins the stream of a session; nothing where the session has none.
    pub fn subscribe_session_stream(&mut self, session_id: &str) -> (subscription: Option<
        (Vec<String>, broadcast::Receiver<String>),
    >)
        requires
            old(self).wf(),
        ensures
            final(self).wf(),
            final(self).keeps_receivers(*old(self)),
            match subscription {
                Some((replay, receiver)) => {
                    &&& old(self)@.sessions.contains_key(session_id@)
                    &&& final(self)@ == old(self)@.subscribed_to(Destination::Session(session_id@))
                    &&& texts(replay@) == old(self)@.sessions[session_id@].replay()
                    &&& missed(receiver) == old(self)@.sessions[session_id@].broadcast
                    &&& final(self).owes(
                        Destination::Session(session_id@),
                        receiver,
                        Seq::empty(),
                    )
                },
                None => {
                    &&& !old(self)@.sessions.contains_key(session_id@)
                    &&& final(self)@ == old(self)@
                },
            },
    {
        let key: String = session_id.to_owned();
        if self.session_streams.contains_key(&key) {
            let stream = self.get_or_create_session_stream(session_id);
            Some(stream.subscribe_with_replay())
        } else {
            None
        }
    }

    /// Opens the stream of a session if there is none yet.
    pub fn ensure_session(&mut self, session_id: &str)
        requires
            old(self).wf(),
        ensures
            final(self).wf(),
            final(self)@ == old(self)@.with_session(session_id@),
            final(self).keeps_receivers(*old(self)),
    {
        let _ = self.get_or_create_session_stream(session_id);
    }

    /// Joins the stream of everything outbound.
    pub fn subscribe_all_outbound(&mut self) -> (subscription: (
        Vec<String>,
        broadcast::Receiver<String>,
    ))
        requires
            old(self).wf(),
        ensures
            final(self).wf(),
            final(self)@ == (ConnectionView {
                all: old(self)@.all.subscribed(),
                ..old(self)@
            }),
            texts(subscription.0@) == old(self)@.all.replay(),
            missed(subscription.1) == old(self)@.all.broadcast,
            final(self).owes_all(subscription.1, Seq::empty()),
            final(self).keeps_receivers(*old(self)),
    {
        self.all_outbound.subscribe_with_replay()
    }

    /// Hands the queue of messages from the agent over to the router, which is to put each of
    /// them on the streams. Gives nothing where the router has it already.
    pub fn start_router(&mut self) -> (receiver: Option<mpsc::UnboundedReceiver<String>>)
        requires
            old(self).wf(),
        ensures
            final(self).wf(),
            receiver == (if old(self)@.lifecycle.init_complete {
                None
            } else {
                old(self)@.lifecycle.init_receiver
            }),
            final(self)@ == (ConnectionView {
                lifecycle: old(self)@.lifecycle.handed_over(),
                ..old(self)@
            }),
            final(self).keeps_receivers(*old(self)),
    {
        if self.init_complete {
            return None;
        }
        let receiver = self.init_receiver.take();
        if receiver.is_some() {
            self.init_complete = true;
        }
        receiver
    }

    /// Keeps the handle of the router's task.
    pub fn attach_router(&mut self, handle: JoinHandle<()>)
        requires
            old(self).wf(),
        ensures
            final(self).wf(),
            final(self)@ == (ConnectionView {
                lifecycle: Lifecycle { router: Some(handle), ..old(self)@.lifecycle },
                ..old(self)@
            }),
            final(self).keeps_receivers(*old(self)),
    {
        self.router_handle = Some(handle);
    }

    /// Gives up the tasks of the connection, for the caller to abort.
    pub fn shutdown(&mut self) -> (tasks: Tasks)
        requires
            old(self).wf(),
        ensures
            final(self).wf(),
            tasks.agent == old(self)@.lifecycle.agent,
            tasks.router == old(self)@.lifecycle.router,
            final(self)@ == (ConnectionView {
                lifecycle: Lifecycle { agent: None, router: None, ..old(self)@.lifecycle },
                ..old(self)@
            }),
            final(self).keeps_receivers(*old(self)),
    {
        Tasks { agent: self.agent_handle.take(), router: self.router_handle.take() }
    }
}

/// A session has a stream exactly where it is listed, and a receiver of a stream of a connection
/// is one of that very stream.
pub proof fn lemma_only_streams_have_receivers(
    connection: Connection,
    session_id: Seq<char>,
    receiver: broadcast::Receiver<String>,
)
    ensures
        connection.feeds(Destination::Session(session_id), receiver)
            ==> connection@.sessions.contains_key(session_id),
{
    lemma_connection_shows_its_state(connection, session_id, receiver);
}

/// A connection shows its streams, its table and its ends as they are, and its receivers are
/// those of its streams.
proof fn lemma_connection_shows_its_state(
    connection: Connection,
    session_id: Seq<char>,
    receiver: broadcast::Receiver<String>,
)
    ensures
        connection@.connection == connection.connection_stream@,
        connection@.all == connection.all_outbound@,
        connection@.sessions.dom() == connection.session_streams@.dom(),
        connection@.sessions.contains_key(session_id) ==> {
            &&& connection@.sessions[session_id] == connection.session_streams@[session_id]@
            &&& connection.feeds(Destination::Session(session_id), receiver)
                == connection.session_streams@[session_id].feeds(receiver)
        },
        !connection@.sessions.contains_key(session_id) ==> !connection.feeds(
            Destination::Session(session_id),
            receiver,
        ),
        connection@.pending.dom() == connection.pending_routes@.dom(),
        connection@.lifecycle.to_agent == connection.to_agent_tx,
        connection@.lifecycle.init_receiver == connection.init_receiver,
        connection@.lifecycle.init_complete == connection.init_complete,
        connection@.lifecycle.agent == connection.agent_handle,
        connection@.lifecycle.router == connection.router_handle,
        connection.feeds(Destination::Connection, receiver)
            == connection.connection_stream.feeds(receiver),
        connection.feeds_all(receiver) == connection.all_outbound.feeds(receiver),
{
}

/// The stream of everything carries every message from the agent, in order, whatever else
/// becomes of it: until somebody joins the stream they are kept as a buffer keeps them, and once
/// somebody has, they are broadcast.
pub proof fn lemma_everything_is_outbound(connection: ConnectionView, steps: Seq<Step>)
    ensures
        (forall|i: int| 0 <= i < steps.len() ==> !(#[trigger] steps[i] is JoinedAll))
            ==> connection.after_all(steps).all == connection.all.pushed_all(routed_in(steps)),
        connection.all.buffer is None ==> connection.after_all(steps).all == (StreamView {
            buffer: None,
            broadcast: connection.all.broadcast + routed_in(steps),
        }),
    decreases steps.len(),
{
    let messages = routed_in(steps);
    if steps.len() == 0 {
        assert(connection.all.broadcast + messages =~= connection.all.broadcast);
    } else {
        let front = steps.drop_last();
        lemma_everything_is_outbound(connection, front);
        assert(forall|i: int| 0 <= i < front.len() ==> #[trigger] front[i] == steps[i]);
        assert(steps.last() == steps[steps.len() - 1]);
        let earlier = routed_in(front);
        if let Step::Routed(message) = steps.last() {
            assert(messages.drop_last() =~= earlier);
            assert((connection.all.broadcast + earlier).push(message)
                =~= connection.all.broadcast + messages);
        }
    }
}

/// Besides the stream of everything, a message is put on exactly one stream: the one that it is
/// headed for. Every other stream and the ends that lead to the agent stay as they were.
pub proof fn lemma_routing_touches_one_stream(
    connection: ConnectionView,
    message: Seq<char>,
    document: Option<Json>,
    session_id: Seq<char>,
)
    ensures
        ({
            let after = connection.routed(message, document);
            &&& after.lifecycle == connection.lifecycle
            &&& match connection.destination_of(document) {
                Destination::Connection => {
                    &&& after.connection == connection.connection.pushed(message)
                    &&& after.sessions == connection.sessions
                },
                Destination::Session(chosen) => {
                    &&& after.connection == connection.connection
                    &&& after.sessions.contains_key(chosen)
                    &&& after.sessions[chosen] == connection.session(chosen).pushed(message)
                    &&& session_id != chosen ==> after.session(session_id) == connection.session(
                        session_id,
                    ) && after.sessions.contains_key(session_id)
                        == connection.sessions.contains_key(session_id)
                },
            }
        }),
{
}

/// A stream carries the messages that are headed there, in order, whatever else happens to the
/// connection: until somebody joins the stream they are kept as a buffer keeps them, and once
/// somebody has, they are broadcast.
pub proof fn lemma_stream_carries_what_is_headed_there(
    connection: ConnectionView,
    steps: Seq<Step>,
    destination: Destination,
)
    ensures
        (forall|i: int| 0 <= i < steps.len() ==> #[trigger] steps[i] != Step::Joined(destination))
            ==> connection.after_all(steps).stream_of(destination) == connection.stream_of(
            destination,
        ).pushed_all(sorted_to(connection, steps, destination)),
        connection.stream_of(destination).buffer is None ==> connection.after_all(steps).stream_of(
            destination,
        ) == (StreamView {
            buffer: None,
            broadcast: connection.stream_of(destination).broadcast + sorted_to(
                connection,
                steps,
                destination,
            ),
        }),
    decreases steps.len(),
{
    let messages = sorted_to(connection, steps, destination);
    let broadcast = connection.stream_of(destination).broadcast;
    if steps.len() == 0 {
        assert(broadcast + messages =~= broadcast);
    } else {
        let front = steps.drop_last();
        lemma_stream_carries_what_is_headed_there(connection, front, destination);
        assert(forall|i: int| 0 <= i < front.len() ==> #[trigger] front[i] == steps[i]);
        assert(steps.last() == steps[steps.len() - 1]);
        let earlier = sorted_to(connection, front, destination);
        if let Step::Routed(message) = steps.last() {
            assert(earlier.push(message).drop_last() =~= earlier);
            assert((broadcast + earlier).push(message) =~= broadcast + earlier.push(message));
        }
    }
}

/// At the hand-over to the first client that joins a stream nothing is lost and nothing comes
/// twice, whatever else happens to the connection before and after: the client is given the newest
/// of the messages that were headed there before it came, up to the bound of the buffer, none of
/// these is broadcast, and every message that is headed there afterwards is.
pub proof fn lemma_client_sees_what_is_headed_there(
    connection: ConnectionView,
    earlier: Seq<Step>,
    later: Seq<Step>,
    destination: Destination,
)
    requires
        connection.stream_of(destination) == StreamView::fresh(),
        forall|i: int|
            0 <= i < earlier.len() ==> #[trigger] earlier[i] != Step::Joined(destination),
    ensures
        ({
            let waiting = connection.after_all(earlier);
            let joined = waiting.subscribed_to(destination);
            &&& waiting.stream_of(destination).replay() == newest(
                sorted_to(connection, earlier, destination),
                PRE_SUBSCRIBE_BUFFER_CAPACITY as nat,
            )
            &&& waiting.stream_of(destination).broadcast == Seq::<Seq<char>>::empty()
            &&& joined.after_all(later).stream_of(destination).broadcast == sorted_to(
                joined,
                later,
                destination,
            )
        }),
{
    let waiting = connection.after_all(earlier);
    let joined = waiting.subscribed_to(destination);
    lemma_stream_carries_what_is_headed_there(connection, earlier, destination);
    lemma_buffer_keeps_newest(sorted_to(connection, earlier, destination));
    lemma_stream_carries_what_is_headed_there(joined, later, destination);
    let live = sorted_to(joined, later, destination);
    assert(Seq::<Seq<char>>::empty() + live =~= live);
}

/// A receiver of a stream is owed exactly the messages that are headed there after it joined, in
/// order, whatever else happens to the connection, as long as the streams keep their receivers.
pub proof fn lemma_receiver_is_owed_what_is_headed_there(
    joined: Connection,
    later: Connection,
    destination: Destination,
    receiver: broadcast::Receiver<String>,
    steps: Seq<Step>,
)
    requires
        joined.owes(destination, receiver, Seq::empty()),
        joined@.has_stream(destination),
        joined@.stream_of(destination).buffer is None,
        later.keeps_receivers(joined),
        later@ == joined@.after_all(steps),
    ensures
        later.owes(destination, receiver, sorted_to(joined@, steps, destination)),
        later@.stream_of(destination).broadcast.skip(missed(receiver).len() as int) == sorted_to(
            joined@,
            steps,
            destination,
        ),
{
    let messages = sorted_to(joined@, steps, destination);
    lemma_stream_carries_what_is_headed_there(joined@, steps, destination);
    assert(missed(receiver) + Seq::<Seq<char>>::empty() =~= missed(receiver));
    assert((missed(receiver) + messages).skip(missed(receiver).len() as int) =~= messages);
}

/// A receiver of the stream of everything is owed exactly the messages from the agent that come
/// after it joined, in order.
pub proof fn lemma_receiver_of_everything_is_owed_everything(
    joined: Connection,
    later: Connection,
    receiver: broadcast::Receiver<String>,
    steps: Seq<Step>,
)
    requires
        joined.owes_all(receiver, Seq::empty()),
        joined@.all.buffer is None,
        later.keeps_receivers(joined),
        later@ == joined@.after_all(steps),
    ensures
        later.owes_all(receiver, routed_in(steps)),
        later@.all.broadcast.skip(missed(receiver).len() as int) == routed_in(steps),
{
    let messages = routed_in(steps);
    lemma_everything_is_outbound(joined@, steps);
    assert(missed(receiver) + Seq::<Seq<char>>::empty() =~= missed(receiver));
    assert((missed(receiver) + messages).skip(missed(receiver).len() as int) =~= messages);
}

/// Streams keep their receivers over any number of calls where each call keeps them.
pub proof fn lemma_receivers_stay(first: Connection, second: Connection, third: Connection)
    requires
        second.keeps_receivers(first),
        third.keeps_receivers(second),
    ensures
        third.keeps_receivers(first),
        first.keeps_receivers(first),
{
    assert forall|destination: Destination| first@.has_stream(destination) implies
        #[trigger] third@.has_stream(destination) by {
        assert(second@.has_stream(destination));
    }
    assert forall|destination: Destination, receiver: broadcast::Receiver<String>|
        first@.has_stream(destination) implies #[trigger] third.feeds(destination, receiver)
        == first.feeds(destination, receiver) by {
        assert(second@.has_stream(destination));
        assert(second.feeds(destination, receiver) == first.feeds(destination, receiver));
    }
    assert forall|receiver: broadcast::Receiver<String>| #[trigger]
        third.feeds_all(receiver) == first.feeds_all(receiver) by {
        assert(second.feeds_all(receiver) == first.feeds_all(receiver));
    }
}

/// A session that has a stream keeps that stream, with its subscribers, its buffer and what it
/// has broadcast: asking for the session's stream once more brings no other.
pub proof fn lemma_session_keeps_its_stream(
    before: Connection,
    after: Connection,
    session_id: Seq<char>,
    receiver: broadcast::Receiver<String>,
)
    requires
        before@.sessions.contains_key(session_id),
        after.keeps_receivers(before),
        after@ == before@.with_session(session_id),
    ensures
        after@ == before@,
        after.feeds(Destination::Session(session_id), receiver) == before.feeds(
            Destination::Session(session_id),
            receiver,
        ),
{
    assert(before@.has_stream(Destination::Session(session_id)));
    assert(after@.sessions =~= before@.sessions);
}

/// A request or notification of the agent that names a session goes to that session, and one
/// that names none goes to the connection, whatever requests of the client are open; it leaves
/// those open.
pub proof fn lemma_call_goes_to_its_session(connection: ConnectionView, document: Json)
    requires
        document.is_call(),
    ensures
        connection.settled(document) == connection,
        connection.destination(document) == match document.session_id() {
            Some(session_id) => Destination::Session(session_id),
            None => Destination::Connection,
        },
{
}

/// The answer to a request goes where the request came from, whatever else happens to the
/// connection in between, unless that settles the request or reuses its id. Its route is used
/// up: another answer with the same id goes to the connection.
pub proof fn lemma_answer_goes_where_its_request_came_from(
    connection: ConnectionView,
    id: Json,
    route: Destination,
    between: Seq<Step>,
    answer: Json,
)
    requires
        !(id is Null),
        answer.is_answer(),
        answer.member("id"@) == Some(id),
        forall|i: int|
            0 <= i < between.len() ==> !(#[trigger] between[i]).answers(id) && !between[i].reuses(
                id,
            ),
    ensures
        ({
            let waiting = connection.awaiting(id, route).after_all(between);
            &&& waiting.destination(answer) == route
            &&& waiting.settled(answer).destination(answer) == Destination::Connection
        }),
{
    lemma_pending_route_stays(connection.awaiting(id, route), id, between);
}

/// A route stays in the table until its request is answered or its id reused.
proof fn lemma_pending_route_stays(connection: ConnectionView, id: Json, steps: Seq<Step>)
    requires
        connection.pending.contains_key(id),
        forall|i: int|
            0 <= i < steps.len() ==> !(#[trigger] steps[i]).answers(id) && !steps[i].reuses(id),
    ensures
        connection.after_all(steps).pending.contains_key(id),
        connection.after_all(steps).pending[id] == connection.pending[id],
    decreases steps.len(),
{
    if steps.len() > 0 {
        let front = steps.drop_last();
        assert(forall|i: int| 0 <= i < front.len() ==> #[trigger] front[i] == steps[i]);
        lemma_pending_route_stays(connection, id, front);
        let last = steps[steps.len() - 1];
        assert(last == steps.last());
        assert(!last.answers(id) && !last.reuses(id));
    }
}

/// No request is ever awaited under the id `null`, whatever happens to the connection. So an
/// answer with that id goes to the connection.
pub proof fn lemma_null_is_never_awaited(
    connection: ConnectionView,
    steps: Seq<Step>,
    answer: Json,
)
    requires
        !connection.pending.contains_key(Json::Null),
        answer.is_answer(),
        answer.member("id"@) == Some(Json::Null),
    ensures
        !connection.after_all(steps).pending.contains_key(Json::Null),
        connection.after_all(steps).destination(answer) == Destination::Connection,
    decreases steps.len(),
{
    if steps.len() > 0 {
        lemma_null_is_never_awaited(connection, steps.drop_last(), answer);
    }
}

/// A session that has a stream keeps it, whatever happens to the connection. Opening a session
/// gives it a stream, leaves the other sessions alone, and changes nothing the second time.
pub proof fn lemma_sessions_stay_open(
    connection: ConnectionView,
    session_id: Seq<char>,
    other: Seq<char>,
    steps: Seq<Step>,
)
    ensures
        connection.with_session(session_id).sessions.contains_key(session_id),
        connection.with_session(session_id).with_session(session_id) == connection.with_session(
            session_id,
        ),
        connection.with_session(session_id).session(other) == connection.session(other),
        connection.sessions.contains_key(session_id) ==> connection.after_all(
            steps,
        ).sessions.contains_key(session_id),
    decreases steps.len(),
{
    let once = connection.with_session(session_id);
    assert(once.with_session(session_id).sessions =~= once.sessions);
    if steps.len() > 0 {
        lemma_sessions_stay_open(connection, session_id, other, steps.drop_last());
    }
}

/// The router is given the queue from the agent at most once.
pub proof fn lemma_router_starts_once(lifecycle: Lifecycle)
    ensures
        lifecycle.handed_over().init_complete || lifecycle.handed_over().init_receiver is None,
        lifecycle.handed_over().handed_over() == lifecycle.handed_over(),
        !lifecycle.init_complete && lifecycle.init_receiver is Some
            ==> lifecycle.handed_over().init_complete,
{
}

} // verus!
