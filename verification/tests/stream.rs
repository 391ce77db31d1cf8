use mcp_core::error::ErrorKind;
use mcp_core::stream::{StreamMessage, StreamSession, UpstreamItem};

fn open_session() -> StreamSession {
    StreamSession::start(Some("key".to_string()), "org/model".to_string()).unwrap()
}

fn content(s: &StreamMessage) -> Option<&str> {
    match s {
        StreamMessage::Content(t) => Some(t.as_str()),
        _ => None,
    }
}

#[test]
fn test_start_requires_credential() {
    let err = StreamSession::start(None, "org/model".to_string()).unwrap_err();
    assert_eq!(err.kind(), ErrorKind::PreconditionFailed);

    let err = StreamSession::start(Some(String::new()), "org/model".to_string()).unwrap_err();
    assert_eq!(err.kind(), ErrorKind::PreconditionFailed);

    let session = open_session();
    assert_eq!(session.credential(), "key");
    assert_eq!(session.model(), "org/model");
    assert!(!session.is_terminated());
}

#[test]
fn test_stream_termination() {
    let mut session = open_session();
    let items = vec![
        UpstreamItem::Chunk(Some("Hello".to_string())),
        UpstreamItem::Chunk(Some(String::new())),
        UpstreamItem::Chunk(None),
        UpstreamItem::Chunk(Some(" world".to_string())),
    ];
    let events = session.relay(items);

    assert_eq!(events.len(), 3);
    assert_eq!(content(&events[0]), Some("Hello"));
    assert_eq!(content(&events[1]), Some(" world"));
    assert!(matches!(events[2], StreamMessage::Complete));
    assert!(session.is_terminated());
}

#[test]
fn test_empty_upstream_completes() {
    let mut session = open_session();
    let events = session.relay(Vec::new());

    assert_eq!(events.len(), 1);
    assert!(matches!(events[0], StreamMessage::Complete));
}

#[test]
fn test_stream_error_cuts_off() {
    let mut session = open_session();
    let items = vec![
        UpstreamItem::Chunk(Some("a".to_string())),
        UpstreamItem::Chunk(None),
        UpstreamItem::Chunk(Some("b".to_string())),
        UpstreamItem::TransportError("connection reset".to_string()),
        UpstreamItem::Chunk(Some("never delivered".to_string())),
    ];
    let events = session.relay(items);

    assert_eq!(events.len(), 3);
    assert_eq!(content(&events[0]), Some("a"));
    assert_eq!(content(&events[1]), Some("b"));
    match &events[2] {
        StreamMessage::Error(msg) => assert_eq!(msg, "connection reset"),
        _ => panic!("expected the terminal event to be the error"),
    }
    assert!(session.is_terminated());
}

#[test]
fn test_terminated_is_absorbing() {
    let mut session = open_session();

    let ev = session.step(UpstreamItem::TransportError("boom".to_string()));
    assert!(matches!(ev, Some(StreamMessage::Error(_))));
    assert!(session.is_terminated());

    // Nothing is emitted after the terminal event.
    assert!(session
        .step(UpstreamItem::Chunk(Some("late".to_string())))
        .is_none());
    assert!(session.finish().is_none());
}

#[test]
fn test_finish_emits_complete_once() {
    let mut session = open_session();

    let ev = session.step(UpstreamItem::Chunk(Some("text".to_string())));
    assert_eq!(content(ev.as_ref().unwrap()), Some("text"));

    let ev = session.finish();
    assert!(matches!(ev, Some(StreamMessage::Complete)));
    assert!(session.finish().is_none());
}
