//! One outbound message stream: a buffer until somebody subscribes, a broadcast channel after.

use crate::channel::{join, missed, open_channel, send};
use std::collections::VecDeque;
use tokio::sync::broadcast;
use vstd::prelude::*;

verus! {

/// How many messages a subscriber may lag behind before the channel drops the oldest.
pub const OUTBOUND_BROADCAST_CAPACITY: usize = 1024;

/// How many messages are kept for the first subscriber (e.g. session notifications that land
/// before the client opens the session stream).
pub const PRE_SUBSCRIBE_BUFFER_CAPACITY: usize = 1024;

/// The texts that a sequence of strings holds.
pub open spec fn texts(strings: Seq<String>) -> Seq<Seq<char>> {
    strings.map_values(|string: String| string@)
}

/// The last `limit` items of a sequence, or all of it where it is shorter.
pub open spec fn newest<A>(items: Seq<A>, limit: nat) -> Seq<A> {
    if items.len() <= limit {
        items
    } else {
        items.skip(items.len() - limit)
    }
}

/// What an [`OutboundStream`] holds.
#[verifier::ext_equal]
pub struct StreamView {
    /// The messages kept for the first subscriber; nothing once there has been one.
    pub buffer: Option<Seq<Seq<char>>>,
    /// The messages broadcast to the subscribers so far.
    pub broadcast: Seq<Seq<char>>,
}

impl StreamView {
    /// A stream that has seen neither a message nor a subscriber.
    pub open spec fn fresh() -> StreamView {
        StreamView {
            buffer: Some(Seq::<Seq<char>>::empty()),
            broadcast: Seq::<Seq<char>>::empty(),
        }
    }

    /// Nobody has subscribed yet: the message is buffered, and the oldest ones make room.
    /// Afterwards it is broadcast.
    pub open spec fn pushed(self, message: Seq<char>) -> StreamView {
        match self.buffer {
            Some(buffer) => StreamView {
                buffer: Some(newest(buffer.push(message), PRE_SUBSCRIBE_BUFFER_CAPACITY as nat)),
                ..self
            },
            None => StreamView { broadcast: self.broadcast.push(message), ..self },
        }
    }

    /// Several messages pushed one after the other.
    pub open spec fn pushed_all(self, messages: Seq<Seq<char>>) -> StreamView
        decreases messages.len(),
    {
        if messages.len() == 0 {
            self
        } else {
            self.pushed_all(messages.drop_last()).pushed(messages.last())
        }
    }

    /// Subscribing hands the buffer over and ends the buffering.
    pub open spec fn subscribed(self) -> StreamView {
        StreamView { buffer: None, ..self }
    }

    /// What a subscriber is given of the time before it came.
    pub open spec fn replay(self) -> Seq<Seq<char>> {
        match self.buffer {
            Some(buffer) => buffer,
            None => Seq::empty(),
        }
    }

    /// Whether the next message takes the place of the oldest one in a full buffer.
    pub open spec fn overflows(self) -> bool {
        self.buffer matches Some(buffer) && buffer.len() >= PRE_SUBSCRIBE_BUFFER_CAPACITY
    }
}

/// A stream of messages to the client. Until the first subscriber comes, messages are
/// buffered; from then on they are broadcast.
pub struct OutboundStream {
    tx: broadcast::Sender<String>,
    pre_subscribe_buffer: Option<VecDeque<String>>,
}

impl View for OutboundStream {
    type V = StreamView;

    closed spec fn view(&self) -> StreamView {
        StreamView {
            buffer: match self.pre_subscribe_buffer {
                Some(buffer) => Some(texts(buffer@)),
                None => None,
            },
            broadcast: crate::channel::sent(self.tx),
        }
    }
}

impl OutboundStream {
    /// The buffer stays within its bound, and the channel has the capacity of this module.
    pub closed spec fn wf(self) -> bool {
        &&& crate::channel::retained(self.tx) == OUTBOUND_BROADCAST_CAPACITY
        &&& self.pre_subscribe_buffer matches Some(buffer)
            ==> buffer@.len() <= PRE_SUBSCRIBE_BUFFER_CAPACITY
    }

    /// Whether a receiver is one of this stream: what is broadcast on the stream reaches it.
    pub closed spec fn feeds(self, receiver: broadcast::Receiver<String>) -> bool {
        crate::channel::feeds(self.tx, receiver)
    }

    /// How many messages a subscriber of this stream may lag behind.
    pub closed spec fn retains(self) -> nat {
        crate::channel::retained(self.tx)
    }

    /// Whether `messages` are what a receiver is to get of this stream: it is a receiver of the
    /// stream, and these are the messages that were broadcast since it joined.
    pub open spec fn owes(
        self,
        receiver: broadcast::Receiver<String>,
        messages: Seq<Seq<char>>,
    ) -> bool {
        &&& self.feeds(receiver)
        &&& self@.broadcast == missed(receiver) + messages
    }

    /// Whether this stream is the stream `before` at another time: a receiver is one of this
    /// stream exactly when it is one of `before`.
    pub open spec fn keeps_receivers(self, before: OutboundStream) -> bool {
        forall|receiver: broadcast::Receiver<String>| #[trigger]
            self.feeds(receiver) == before.feeds(receiver)
    }

    /// A stream without messages and without subscribers.
    pub fn new() -> (stream: OutboundStream)
        ensures
            stream.wf(),
            stream@ == StreamView::fresh(),
    {
        let stream = OutboundStream {
            tx: open_channel(OUTBOUND_BROADCAST_CAPACITY),
            pre_subscribe_buffer: Some(VecDeque::new()),
        };
        assert(stream@ =~= StreamView::fresh());
        stream
    }

    /// Puts a message on the stream, and tells whether the oldest one in the buffer was dropped
    /// for it.
    pub fn push(&mut self, msg: String) -> (dropped: bool)
        requires
            old(self).wf(),
        ensures
            final(self).wf(),
            final(self)@ == old(self)@.pushed(msg@),
            final(self).keeps_receivers(*old(self)),
            dropped == old(self)@.overflows(),
    {
        match self.pre_subscribe_buffer.take() {
            Some(mut buffer) => {
                let ghost before = buffer@;
                let full = buffer.len() >= PRE_SUBSCRIBE_BUFFER_CAPACITY;
                if full {
                    let _ = buffer.pop_front();
                }
                buffer.push_back(msg);
                self.pre_subscribe_buffer = Some(buffer);
                assert(texts(buffer@) =~= newest(
                    texts(before).push(msg@),
                    PRE_SUBSCRIBE_BUFFER_CAPACITY as nat,
                ));
                full
            },
            None => {
                send(&mut self.tx, msg);
                false
            },
        }
    }

    /// Joins the stream: gives the messages buffered so far, if this is the first subscriber,
    /// and a receiver for all that follow.
    pub fn subscribe_with_replay(&mut self) -> (subscription: (
        Vec<String>,
        broadcast::Receiver<String>,
    ))
        requires
            old(self).wf(),
        ensures
            final(self).wf(),
            final(self)@ == old(self)@.subscribed(),
            final(self).keeps_receivers(*old(self)),
            texts(subscription.0@) == old(self)@.replay(),
            missed(subscription.1) == old(self)@.broadcast,
            final(self).owes(subscription.1, Seq::empty()),
    {
        let receiver = join(&self.tx);
        let replay = match self.pre_subscribe_buffer.take() {
            Some(buffer) => into_vec(buffer),
            None => Vec::new(),
        };
        assert(texts(Seq::<String>::empty()) =~= Seq::<Seq<char>>::empty());
        (replay, receiver)
    }
}

/// Until somebody subscribes, a stream holds the newest messages up to the bound of its buffer,
/// in the order they came, and has broadcast none.
pub proof fn lemma_buffer_keeps_newest(messages: Seq<Seq<char>>)
    ensures
        StreamView::fresh().pushed_all(messages) == (StreamView {
            buffer: Some(newest(messages, PRE_SUBSCRIBE_BUFFER_CAPACITY as nat)),
            broadcast: Seq::<Seq<char>>::empty(),
        }),
    decreases messages.len(),
{
    let limit = PRE_SUBSCRIBE_BUFFER_CAPACITY as nat;
    if messages.len() == 0 {
        assert(newest(messages, limit) =~= Seq::<Seq<char>>::empty());
    } else {
        lemma_buffer_keeps_newest(messages.drop_last());
        assert(newest(newest(messages.drop_last(), limit).push(messages.last()), limit) =~= newest(
            messages,
            limit,
        ));
    }
}

/// Once somebody has subscribed, every message is broadcast, in the order they came, and
/// nothing is buffered any more.
pub proof fn lemma_subscribed_stream_broadcasts(stream: StreamView, messages: Seq<Seq<char>>)
    requires
        stream.buffer is None,
    ensures
        stream.pushed_all(messages) == (StreamView {
            buffer: None,
            broadcast: stream.broadcast + messages,
        }),
    decreases messages.len(),
{
    if messages.len() == 0 {
        assert(stream.broadcast + messages =~= stream.broadcast);
    } else {
        lemma_subscribed_stream_broadcasts(stream, messages.drop_last());
        assert((stream.broadcast + messages.drop_last()).push(messages.last())
            =~= stream.broadcast + messages);
    }
}

/// Between the replay and the live messages nothing is lost and nothing comes twice: of what
/// was pushed before it came, the first subscriber is given the newest messages up to the bound
/// of the buffer, none of these is broadcast, and all that is pushed afterwards is.
pub proof fn lemma_first_subscriber_sees_everything(
    earlier: Seq<Seq<char>>,
    later: Seq<Seq<char>>,
)
    ensures
        ({
            let waiting = StreamView::fresh().pushed_all(earlier);
            let live = waiting.subscribed().pushed_all(later);
            &&& waiting.replay() == newest(earlier, PRE_SUBSCRIBE_BUFFER_CAPACITY as nat)
            &&& waiting.broadcast == Seq::<Seq<char>>::empty()
            &&& live.broadcast == later
        }),
{
    lemma_buffer_keeps_newest(earlier);
    let waiting = StreamView::fresh().pushed_all(earlier);
    lemma_subscribed_stream_broadcasts(waiting.subscribed(), later);
    assert(waiting.broadcast + later =~= later);
}

/// A receiver is owed exactly what is pushed after it joined, in order: nothing that was
/// broadcast before, and every later message once, as long as the stream keeps its receivers.
pub proof fn lemma_receiver_is_owed_what_is_pushed(
    joined: OutboundStream,
    later: OutboundStream,
    receiver: broadcast::Receiver<String>,
    messages: Seq<Seq<char>>,
)
    requires
        joined.owes(receiver, Seq::empty()),
        joined@.buffer is None,
        later.keeps_receivers(joined),
        later@ == joined@.pushed_all(messages),
    ensures
        later.owes(receiver, messages),
        later@.broadcast.skip(missed(receiver).len() as int) == messages,
{
    lemma_subscribed_stream_broadcasts(joined@, messages);
    assert(missed(receiver) + Seq::<Seq<char>>::empty() =~= missed(receiver));
    assert((missed(receiver) + messages).skip(missed(receiver).len() as int) =~= messages);
}

/// A message that is broadcast adds to what every receiver is owed.
pub proof fn lemma_receiver_is_owed_the_next_message(
    before: OutboundStream,
    after: OutboundStream,
    receiver: broadcast::Receiver<String>,
    owed: Seq<Seq<char>>,
    message: Seq<char>,
)
    requires
        before.owes(receiver, owed),
        before@.buffer is None,
        after.keeps_receivers(before),
        after@ == before@.pushed(message),
    ensures
        after.owes(receiver, owed.push(message)),
{
    assert((missed(receiver) + owed).push(message) =~= missed(receiver) + owed.push(message));
}

/// Only the first subscriber is given a replay; whoever joins later starts with what is pushed
/// from then on.
pub proof fn lemma_later_subscriber_gets_no_replay(
    stream: StreamView,
    between: Seq<Seq<char>>,
    later: Seq<Seq<char>>,
)
    ensures
        ({
            let joined = stream.subscribed().pushed_all(between);
            &&& joined.replay() == Seq::<Seq<char>>::empty()
            &&& joined.subscribed().pushed_all(later).broadcast == joined.broadcast + later
        }),
{
    lemma_subscribed_stream_broadcasts(stream.subscribed(), between);
    let joined = stream.subscribed().pushed_all(between);
    lemma_subscribed_stream_broadcasts(joined.subscribed(), later);
}

/// A subscriber may lag 1024 messages behind, and no more than 1024 are kept for the first one.
pub proof fn lemma_stream_keeps_its_bounds(stream: OutboundStream)
    requires
        stream.wf(),
    ensures
        stream.retains() == 1024,
        stream@.buffer matches Some(kept) ==> kept.len() <= 1024,
{
    lemma_stream_shows_its_state(stream);
}

/// A stream shows the messages in its buffer and those sent on its channel, and its receivers are
/// those of its channel.
proof fn lemma_stream_shows_its_state(stream: OutboundStream)
    ensures
        stream@.broadcast == crate::channel::sent(stream.tx),
        stream@.buffer is Some <==> stream.pre_subscribe_buffer is Some,
        stream.pre_subscribe_buffer matches Some(buffer) ==> {
            &&& stream@.buffer->0.len() == buffer@.len()
            &&& forall|i: int|
                0 <= i < buffer@.len() ==> #[trigger] stream@.buffer->0[i] == buffer@[i]@
        },
        forall|receiver: broadcast::Receiver<String>| #[trigger]
            stream.feeds(receiver) == crate::channel::feeds(stream.tx, receiver),
        stream.retains() == crate::channel::retained(stream.tx),
{
}

/// Moves the items of a queue into a vector, front first.
fn into_vec(queue: VecDeque<String>) -> (items: Vec<String>)
    ensures
        items@ == queue@,
{
    let mut queue = queue;
    let mut items: Vec<String> = Vec::new();
    let ghost all = queue@;
    loop
        invariant
            items@ + queue@ == all,
        ensures
            items@ == all,
        decreases queue@.len(),
    {
        match queue.pop_front() {
            Some(item) => {
                items.push(item);
            },
            None => {
                break;
            },
        }
    }
    items
}

} // verus!
