use codev::stream::{OutboundStream, PRE_SUBSCRIBE_BUFFER_CAPACITY};
use tokio::sync::broadcast::error::TryRecvError;

#[test]
fn first_subscriber_sees_everything_once() {
    let mut stream = OutboundStream::new();
    stream.push("1".to_string());
    stream.push("2".to_string());
    let (replay, mut live) = stream.subscribe_with_replay();
    stream.push("3".to_string());
    stream.push("4".to_string());
    assert_eq!(replay, vec!["1", "2"]);
    assert_eq!(live.try_recv().unwrap(), "3");
    assert_eq!(live.try_recv().unwrap(), "4");
    assert_eq!(live.try_recv(), Err(TryRecvError::Empty));
}

#[test]
fn later_subscriber_gets_only_what_follows() {
    let mut stream = OutboundStream::new();
    stream.push("1".to_string());
    let (_, mut early) = stream.subscribe_with_replay();
    stream.push("2".to_string());
    let (replay, mut late) = stream.subscribe_with_replay();
    stream.push("3".to_string());
    assert!(replay.is_empty());
    assert_eq!(late.try_recv().unwrap(), "3");
    assert_eq!(early.try_recv().unwrap(), "2");
    assert_eq!(early.try_recv().unwrap(), "3");
}

#[test]
fn nothing_is_buffered_after_the_last_subscriber_left() {
    let mut stream = OutboundStream::new();
    let (_, live) = stream.subscribe_with_replay();
    drop(live);
    stream.push("lost".to_string());
    let (replay, mut late) = stream.subscribe_with_replay();
    assert!(replay.is_empty());
    assert_eq!(late.try_recv(), Err(TryRecvError::Empty));
    stream.push("seen".to_string());
    assert_eq!(late.try_recv().unwrap(), "seen");
}

#[test]
fn full_buffer_drops_the_oldest() {
    let mut stream = OutboundStream::new();
    for i in 0..PRE_SUBSCRIBE_BUFFER_CAPACITY {
        assert!(!stream.push(i.to_string()));
    }
    assert!(stream.push("1024".to_string()));
    let (replay, _live) = stream.subscribe_with_replay();
    assert_eq!(replay.len(), 1024);
    assert_eq!(replay[0], "1");
    assert_eq!(replay[1023], "1024");
    assert!(!stream.push("1025".to_string()));
}

#[test]
fn slow_subscriber_loses_the_oldest_beyond_the_capacity() {
    let mut stream = OutboundStream::new();
    let (_, mut live) = stream.subscribe_with_replay();
    for i in 0..1025 {
        stream.push(i.to_string());
    }
    assert_eq!(live.try_recv(), Err(TryRecvError::Lagged(1)));
    assert_eq!(live.try_recv().unwrap(), "1");
}
