//! What streams and feeds of events do with messages.

use crate::channel::missed;
use crate::sse::{received_action, EventFeed, FeedAction, Received};
use crate::stream::{texts, OutboundStream, StreamView};
use tokio::sync::broadcast;
use vstd::prelude::*;

verus! {

/// Whether `strings` hold `expected`, one by one.
pub open spec fn hold(strings: Seq<String>, expected: Seq<Seq<char>>) -> bool {
    &&& strings.len() == expected.len()
    &&& forall|i: int| 0 <= i < strings.len() ==> (#[trigger] strings[i])@ == expected[i]
}

/// Whether a stream is untouched: an empty buffer, and nothing broadcast.
pub open spec fn untouched(stream: StreamView) -> bool {
    &&& stream.buffer == Some(Seq::<Seq<char>>::empty())
    &&& stream.broadcast == Seq::<Seq<char>>::empty()
}

/// Whether the buffer of a stream has no room for another message.
pub open spec fn full(stream: StreamView) -> bool {
    stream.buffer matches Some(kept) && kept.len() >= 1024
}

/// Whether a stream has taken one message. It is the last in the buffer, where the oldest made
/// room for it if there were 1024, and where there is no buffer it is the last that was broadcast.
pub open spec fn gained(before: StreamView, after: StreamView, message: Seq<char>) -> bool {
    match before.buffer {
        None => {
            &&& after.buffer is None
            &&& after.broadcast == before.broadcast.push(message)
        },
        Some(kept) => {
            &&& after.broadcast == before.broadcast
            &&& after.buffer is Some
            &&& kept.len() < 1024 ==> after.buffer->0 == kept.push(message)
            &&& kept.len() == 1024 ==> after.buffer->0 == kept.drop_first().push(message)
        },
    }
}

/// Whether a stream has handed its buffer over as `replay`, and buffers no more.
pub open spec fn handed_over(before: StreamView, after: StreamView, replay: Seq<String>) -> bool {
    &&& after.buffer is None
    &&& after.broadcast == before.broadcast
    &&& before.buffer is None ==> replay.len() == 0
    &&& before.buffer matches Some(kept) ==> hold(replay, kept)
}

/// What a stream becomes by a push is what it is to become by one message.
pub proof fn lemma_pushed_is_gained(stream: StreamView, message: Seq<char>)
    ensures
        gained(stream, stream.pushed(message), message),
        untouched(StreamView::fresh()),
        StreamView::fresh().pushed(message).buffer == Some(seq![message]),
        StreamView::fresh().pushed(message).broadcast == Seq::<Seq<char>>::empty(),
        stream.overflows() == full(stream),
{
    if let Some(kept) = stream.buffer {
        if kept.len() == 1024 {
            assert(kept.push(message).skip(1) =~= kept.drop_first().push(message));
        }
    }
    assert(Seq::<Seq<char>>::empty().push(message) =~= seq![message]);
}

/// What a stream becomes by a subscription, and what it replays, is its buffer handed over.
pub proof fn lemma_subscribed_is_handed_over(stream: StreamView, replay: Seq<String>)
    requires
        texts(replay) == stream.replay(),
    ensures
        handed_over(stream, stream.subscribed(), replay),
{
    assert(texts(replay).len() == replay.len());
    assert forall|i: int| 0 <= i < replay.len() implies (#[trigger] replay[i])@
        == stream.replay()[i] by {
        assert(texts(replay)[i] == replay[i]@);
    }
}

/// The texts of strings are their own, one by one.
pub proof fn lemma_texts_are_held(strings: Seq<String>)
    ensures
        hold(strings, texts(strings)),
{
}

/// The bounds of queues and buffers, and the time after which an idle stream is kept alive.
pub proof fn lemma_bounds()
    ensures
        crate::stream::OUTBOUND_BROADCAST_CAPACITY == 1024,
        crate::stream::PRE_SUBSCRIBE_BUFFER_CAPACITY == 1024,
        crate::connection::TO_AGENT_QUEUE_CAPACITY == 256,
        crate::sse::KEEP_ALIVE_SECONDS == 15,
{
}

/// A new stream is untouched.
pub proof fn lemma_new_stream_is_untouched(stream: OutboundStream)
    requires
        call_ensures(OutboundStream::new, (), stream),
    ensures
        untouched(stream@),
{
}

/// A push puts the message on the stream, tells whether the oldest one was dropped, and leaves
/// every receiver where it is.
pub proof fn lemma_push_puts_the_message_on_the_stream(
    stream: &mut OutboundStream,
    msg: String,
    dropped: bool,
    receiver: broadcast::Receiver<String>,
)
    requires
        call_ensures(OutboundStream::push, (stream, msg), dropped),
    ensures
        gained(old(stream)@, final(stream)@, msg@),
        dropped == full(old(stream)@),
        final(stream).feeds(receiver) == old(stream).feeds(receiver),
{
    lemma_pushed_is_gained(old(stream)@, msg@);
}

/// A subscription hands the buffer over, and gives a receiver of this stream that joined after
/// all that was broadcast so far.
pub proof fn lemma_subscription_hands_over(
    stream: &mut OutboundStream,
    subscription: (Vec<String>, broadcast::Receiver<String>),
    receiver: broadcast::Receiver<String>,
)
    requires
        call_ensures(OutboundStream::subscribe_with_replay, (stream,), subscription),
    ensures
        handed_over(old(stream)@, final(stream)@, subscription.0@),
        final(stream).feeds(subscription.1),
        missed(subscription.1) == final(stream)@.broadcast,
        final(stream).feeds(receiver) == old(stream).feeds(receiver),
{
    lemma_subscribed_is_handed_over(old(stream)@, subscription.0@);
}

/// What a stream replays to its first subscriber are the last messages that were pushed, at most
/// 1024 of them, in the order they came.
pub proof fn lemma_replay_is_the_tail(messages: Seq<Seq<char>>)
    ensures
        ({
            let replay = StreamView::fresh().pushed_all(messages).replay();
            let dropped = messages.len() - replay.len();
            &&& replay.len() == (if messages.len() < 1024 {
                messages.len()
            } else {
                1024
            })
            &&& forall|i: int|
                0 <= i < replay.len() ==> #[trigger] replay[i] == messages[dropped + i]
        }),
{
    crate::stream::lemma_buffer_keeps_newest(messages);
}

/// What is pushed in two parts is pushed in one.
pub proof fn lemma_pushes_add_up(
    stream: StreamView,
    earlier: Seq<Seq<char>>,
    later: Seq<Seq<char>>,
)
    ensures
        stream.pushed_all(earlier + later) == stream.pushed_all(earlier).pushed_all(later),
        stream.pushed_all(seq![]) == stream,
    decreases later.len(),
{
    if later.len() == 0 {
        assert(earlier + later =~= earlier);
    } else {
        lemma_pushes_add_up(stream, earlier, later.drop_last());
        assert((earlier + later).drop_last() =~= earlier + later.drop_last());
    }
}

/// A feed starts out with its replay.
pub proof fn lemma_feed_starts_with_its_replay(replay: Vec<String>, feed: EventFeed)
    requires
        call_ensures(EventFeed::new, (replay,), feed),
    ensures
        hold(replay@, feed@),
{
}

/// A feed sends the messages of its replay one by one from the front, and waits once there are
/// none left. It never ends by itself.
pub proof fn lemma_feed_sends_its_replay(feed: &mut EventFeed, action: FeedAction)
    requires
        call_ensures(EventFeed::next_action, (feed,), action),
    ensures
        old(feed)@.len() == 0 ==> action is Wait && final(feed)@ == old(feed)@,
        old(feed)@.len() > 0 ==> {
            &&& action is Send
            &&& seq![action->0@] + final(feed)@ == old(feed)@
        },
{
    if old(feed)@.len() > 0 {
        assert(action@ == crate::sse::FeedActionView::Send(old(feed)@[0]));
        assert(seq![action->0@] + final(feed)@ =~= old(feed)@);
    }
}

/// Every message that is received is sent as it is; a client that lags waits for more; only a
/// closed channel ends the stream.
pub proof fn lemma_received_message_is_sent(received: Received, action: FeedAction)
    requires
        call_ensures(received_action, (received,), action),
    ensures
        received matches Received::Message(message) ==> action is Send && action->0@ == message@,
        received is Lagged ==> action is Wait,
        received is Closed <==> action is End,
{
}

} // verus!
