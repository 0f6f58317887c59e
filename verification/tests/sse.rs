use codev::sse::{received_action, EventFeed, FeedAction, Received, KEEP_ALIVE_SECONDS};

#[test]
fn replay_is_sent_before_waiting() {
    let mut feed = EventFeed::new(vec!["a".to_string(), "b".to_string()]);
    assert!(matches!(feed.next_action(), FeedAction::Send(text) if text == "a"));
    assert!(matches!(feed.next_action(), FeedAction::Send(text) if text == "b"));
    assert!(matches!(feed.next_action(), FeedAction::Wait));
    assert!(matches!(feed.next_action(), FeedAction::Wait));
}

#[test]
fn messages_are_sent_until_the_channel_closes() {
    let message = Received::Message("m".to_string());
    assert!(matches!(received_action(message), FeedAction::Send(text) if text == "m"));
    assert!(matches!(received_action(Received::Lagged(3)), FeedAction::Wait));
    assert!(matches!(received_action(Received::Closed), FeedAction::End));
    assert_eq!(KEEP_ALIVE_SECONDS, 15);
}
