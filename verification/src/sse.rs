//! The events that a client is sent over a stream: first the replay, then what is broadcast.

use crate::stream::texts;
use std::collections::VecDeque;
use vstd::prelude::*;

verus! {

/// How often an idle stream is kept alive.
pub const KEEP_ALIVE_SECONDS: u64 = 15;

/// What has come of waiting for a broadcast message.
pub enum Received {
    Message(String),
    /// That many messages were dropped because the client was too slow.
    Lagged(u64),
    /// There will be no more messages.
    Closed,
}

/// What has come of waiting for a broadcast message, as a mathematical value.
pub enum ReceivedView {
    Message(Seq<char>),
    Lagged(u64),
    Closed,
}

impl View for Received {
    type V = ReceivedView;

    open spec fn view(&self) -> ReceivedView {
        match self {
            Received::Message(message) => ReceivedView::Message(message@),
            Received::Lagged(dropped) => ReceivedView::Lagged(*dropped),
            Received::Closed => ReceivedView::Closed,
        }
    }
}

/// The next thing to do for a stream of events.
pub enum FeedAction {
    /// Send this as an event.
    Send(String),
    /// Wait for a broadcast message.
    Wait,
    /// End the stream.
    End,
}

/// The next thing to do for a stream of events, as a mathematical value.
pub enum FeedActionView {
    Send(Seq<char>),
    Wait,
    End,
}

impl View for FeedAction {
    type V = FeedActionView;

    open spec fn view(&self) -> FeedActionView {
        match self {
            FeedAction::Send(message) => FeedActionView::Send(message@),
            FeedAction::Wait => FeedActionView::Wait,
            FeedAction::End => FeedActionView::End,
        }
    }
}

/// What a stream of events has still to send of its replay, oldest first.
pub struct EventFeed {
    replay: VecDeque<String>,
}

impl View for EventFeed {
    type V = Seq<Seq<char>>;

    closed spec fn view(&self) -> Seq<Seq<char>> {
        texts(self.replay@)
    }
}

/// The first thing to do for a stream that has this replay left.
pub open spec fn feed_next(replay: Seq<Seq<char>>) -> FeedActionView {
    if replay.len() > 0 {
        FeedActionView::Send(replay.first())
    } else {
        FeedActionView::Wait
    }
}

/// What to do once waiting has come to something.
pub open spec fn feed_received(received: ReceivedView) -> FeedActionView {
    match received {
        ReceivedView::Message(message) => FeedActionView::Send(message),
        ReceivedView::Lagged(_) => FeedActionView::Wait,
        ReceivedView::Closed => FeedActionView::End,
    }
}

/// The events that a client is sent, where waiting comes to `received` one after the other.
pub open spec fn live_events(received: Seq<ReceivedView>) -> Seq<Seq<char>>
    decreases received.len(),
{
    if received.len() == 0 {
        Seq::empty()
    } else {
        let rest = live_events(received.drop_first());
        match feed_received(received.first()) {
            FeedActionView::Send(message) => seq![message] + rest,
            FeedActionView::Wait => rest,
            FeedActionView::End => Seq::empty(),
        }
    }
}

/// The messages among what waiting came to.
pub open spec fn messages_in(received: Seq<ReceivedView>) -> Seq<Seq<char>>
    decreases received.len(),
{
    if received.len() == 0 {
        Seq::empty()
    } else {
        let rest = messages_in(received.drop_first());
        match received.first() {
            ReceivedView::Message(message) => seq![message] + rest,
            _ => rest,
        }
    }
}

impl EventFeed {
    /// A stream of events that starts with a replay.
    pub fn new(replay: Vec<String>) -> (feed: EventFeed)
        ensures
            feed@ == texts(replay@),
    {
        let mut queue: VecDeque<String> = VecDeque::new();
        let mut left = replay;
        let ghost all = left@;
        loop
            invariant
                left@ + queue@ == all,
            ensures
                queue@ == all,
            decreases left@.len(),
        {
            match left.pop() {
                Some(message) => {
                    queue.push_front(message);
                },
                None => {
                    break;
                },
            }
        }
        EventFeed { replay: queue }
    }

    /// The next thing to do: send what is left of the replay, then wait.
    pub fn next_action(&mut self) -> (action: FeedAction)
        ensures
            action@ == feed_next(old(self)@),
            final(self)@ == (if old(self)@.len() > 0 {
                old(self)@.drop_first()
            } else {
                old(self)@
            }),
    {
        match self.replay.pop_front() {
            Some(message) => {
                assert(self@ =~= old(self)@.drop_first());
                FeedAction::Send(message)
            },
            None => FeedAction::Wait,
        }
    }
}

/// What to do once waiting has come to something: a message is sent, a lag is passed over, and
/// a closed channel ends the stream.
pub fn received_action(received: Received) -> (action: FeedAction)
    ensures
        action@ == feed_received(received@),
{
    match received {
        Received::Message(message) => FeedAction::Send(message),
        Received::Lagged(_) => FeedAction::Wait,
        Received::Closed => FeedAction::End,
    }
}

/// The events that a stream sends before it first waits.
pub open spec fn replayed(replay: Seq<Seq<char>>) -> Seq<Seq<char>>
    decreases replay.len(),
{
    match feed_next(replay) {
        FeedActionView::Send(message) => if replay.len() > 0 {
            seq![message] + replayed(replay.drop_first())
        } else {
            Seq::empty()
        },
        _ => Seq::empty(),
    }
}

/// Before it waits for anything new, a stream sends its whole replay, in order.
pub proof fn lemma_replay_is_sent_first(replay: Seq<Seq<char>>)
    ensures
        replayed(replay) == replay,
    decreases replay.len(),
{
    if replay.len() > 0 {
        lemma_replay_is_sent_first(replay.drop_first());
        assert(seq![replay.first()] + replay.drop_first() =~= replay);
    } else {
        assert(replay =~= Seq::empty());
    }
}

/// As long as the channel is open, a client is sent every message that is received, in order,
/// however often it lags; nothing is sent that comes after the channel is closed.
pub proof fn lemma_every_received_message_is_sent(
    received: Seq<ReceivedView>,
    after: Seq<ReceivedView>,
)
    requires
        forall|i: int| 0 <= i < received.len() ==> !(#[trigger] received[i] is Closed),
    ensures
        live_events(received) == messages_in(received),
        live_events(received.push(ReceivedView::Closed) + after) == messages_in(received),
    decreases received.len(),
{
    let closed = received.push(ReceivedView::Closed) + after;
    if received.len() == 0 {
        assert(closed.first() is Closed);
    } else {
        let rest = received.drop_first();
        assert forall|i: int| 0 <= i < rest.len() implies !(#[trigger] rest[i] is Closed) by {
            assert(rest[i] == received[i + 1]);
        }
        lemma_every_received_message_is_sent(rest, after);
        assert(!(received[0] is Closed));
        assert(closed.first() == received.first());
        assert(closed.drop_first() =~= rest.push(ReceivedView::Closed) + after);
    }
}

} // verus!
