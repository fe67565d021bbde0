use serde_json::Value;
use tokio::sync::broadcast::error::TryRecvError;
use tokio::sync::broadcast::Receiver;
use websocket_chat_server::connection::{Connection, JoinOutcome};
use websocket_chat_server::join::{
    receive_join_message, receive_join_text, JoinEvent, JoinReceiveError, JOIN_TIMEOUT_SECS,
    MAX_MESSAGE_SIZE,
};
use websocket_chat_server::message::{ChatMessage, InternalMessage, JoinMessage};
use websocket_chat_server::outgoing::{handle_outgoing, OutgoingAction, OutgoingEvent};
use websocket_chat_server::payload::{joined_payload, left_payload};
use websocket_chat_server::server::{BroadcastError, ServerState};
use websocket_chat_server::session::{
    IncomingAction, IncomingEvent, MessageOutcome, RateLimiter, Rejection, Session,
    RATE_LIMIT_INTERVAL,
};

fn join_request(broadcastid: &str, username: &str) -> Result<JoinMessage, JoinReceiveError> {
    Ok(JoinMessage { broadcastid: broadcastid.to_string(), username: username.to_string() })
}

fn connection(id: &str) -> Connection {
    Connection { user_id: id.to_string() }
}

fn joined(outcome: JoinOutcome) -> (Session, RateLimiter, Receiver<InternalMessage>) {
    match outcome {
        JoinOutcome::Joined { session, limiter, receiver } => (session, limiter, receiver),
        JoinOutcome::Refused(frame) => panic!("refused: {}", frame.reason),
    }
}

fn refused(outcome: JoinOutcome) -> (u16, String) {
    match outcome {
        JoinOutcome::Refused(frame) => (frame.code, frame.reason),
        JoinOutcome::Joined { .. } => panic!("joined"),
    }
}

fn enter(
    state: &mut ServerState,
    id: &str,
    room: &str,
    name: &str,
) -> (Session, RateLimiter, Receiver<InternalMessage>) {
    joined(connection(id).handle_join(state, join_request(room, name), 0))
}

fn chat(username: &str, broadcastid: &str, payload: &str) -> ChatMessage {
    ChatMessage {
        username: username.to_string(),
        broadcastid: broadcastid.to_string(),
        payload: Value::from(payload),
    }
}

#[test]
fn session_limits_have_their_values() {
    assert_eq!(MAX_MESSAGE_SIZE, 65536);
    assert_eq!(RATE_LIMIT_INTERVAL, 100_000_000);
    assert_eq!(JOIN_TIMEOUT_SECS, 30);
}

#[test]
fn connection_ids_are_random_uuids() {
    let one = Connection::open().user_id;
    let two = Connection::open().user_id;
    assert_ne!(one, two);
    for id in [one, two] {
        assert_eq!(id.len(), 36);
        for (i, c) in id.chars().enumerate() {
            match i {
                8 | 13 | 18 | 23 => assert_eq!(c, '-'),
                14 => assert_eq!(c, '4'),
                19 => assert!("89ab".contains(c)),
                _ => assert!("0123456789abcdef".contains(c)),
            }
        }
    }
}

#[test]
fn join_text_is_taken_up_to_the_limit() {
    let longest = "x".repeat(MAX_MESSAGE_SIZE);
    assert_eq!(receive_join_text(JoinEvent::Text(longest.clone())).unwrap(), longest);
    let error = receive_join_text(JoinEvent::Text("x".repeat(MAX_MESSAGE_SIZE + 1))).unwrap_err();
    assert!(matches!(error, JoinReceiveError::TooLarge));
    assert_eq!(error.message(), "Join message too large");
    let wide = "\u{e9}".repeat(MAX_MESSAGE_SIZE / 2 + 1);
    assert!(receive_join_text(JoinEvent::Text(wide)).is_err());
}

#[test]
fn join_failures_are_worded() {
    let timed_out = receive_join_text(JoinEvent::TimedOut).unwrap_err();
    assert!(matches!(timed_out, JoinReceiveError::TimedOut));
    assert_eq!(timed_out.message(), "Timeout waiting for join message");
    let closed = receive_join_text(JoinEvent::Closed).unwrap_err();
    assert!(matches!(closed, JoinReceiveError::Closed));
    assert_eq!(closed.message(), "Connection closed before join message");
    let failed = receive_join_text(JoinEvent::Failed("reset".to_string())).unwrap_err();
    assert!(matches!(failed, JoinReceiveError::Failed(_)));
    assert_eq!(failed.message(), "WebSocket error: reset");
    let not_text = receive_join_text(JoinEvent::NotText).unwrap_err();
    assert!(matches!(not_text, JoinReceiveError::NotText));
    assert_eq!(not_text.message(), "Expected text message for join");
    let invalid = receive_join_message(Err("missing field".to_string())).unwrap_err();
    assert!(matches!(invalid, JoinReceiveError::InvalidFormat(_)));
    assert_eq!(invalid.message(), "Invalid join message format: missing field");
}

#[test]
fn parsed_join_message_is_passed_on() {
    let message = receive_join_message(Ok(JoinMessage {
        broadcastid: "r".to_string(),
        username: "ann".to_string(),
    }))
    .unwrap();
    assert_eq!(message.broadcastid, "r");
    assert_eq!(message.username, "ann");
}

#[test]
fn connection_without_join_message_is_closed() {
    let mut state = ServerState::new();
    let outcome = connection("1").handle_join(&mut state, Err(JoinReceiveError::TimedOut), 0);
    assert_eq!(refused(outcome), (1000, "Invalid join message".to_string()));
    assert_eq!(state.stats().total_rooms, 0);
}

#[test]
fn refused_user_is_told_why() {
    let mut state = ServerState::new();
    let outcome = connection("1").handle_join(&mut state, join_request("", "ann"), 0);
    assert_eq!(
        refused(outcome),
        (1000, "Broadcast ID and username cannot be empty".to_string())
    );
    let outcome =
        connection("1").handle_join(&mut state, join_request("r", &"u".repeat(51)), 0);
    assert_eq!(refused(outcome), (1000, "Broadcast ID or username too long".to_string()));
    let (_, _, mut receiver) = enter(&mut state, "1", "r", "ann");
    let outcome = connection("2").handle_join(&mut state, join_request("r", "ann"), 0);
    assert_eq!(
        refused(outcome),
        (1000, "Username 'ann' already exists in this broadcast".to_string())
    );
    assert!(receiver.try_recv().is_ok());
    assert_eq!(receiver.try_recv().unwrap_err(), TryRecvError::Empty);
    assert_eq!(state.stats().total_users, 1);
}

#[test]
fn joining_is_announced_to_the_others() {
    let mut state = ServerState::new();
    let (_, _, mut ann) = enter(&mut state, "1", "r", "ann");
    let (session, limiter, mut bob) =
        joined(connection("2").handle_join(&mut state, join_request("r", "bob"), 7));
    assert_eq!(session.broadcast_id, "r");
    assert_eq!(session.username, "bob");
    assert_eq!(session.user_id, "2");
    assert_eq!(limiter.last_message_time, 7);

    let own = ann.try_recv().unwrap();
    assert_eq!(own.message.payload, joined_payload("ann"));
    assert!(matches!(
        handle_outgoing(&"1".to_string(), OutgoingEvent::Received(own)),
        OutgoingAction::Wait
    ));

    let heard = ann.try_recv().unwrap();
    match handle_outgoing(&"1".to_string(), OutgoingEvent::Received(heard)) {
        OutgoingAction::Serialize(message) => {
            assert_eq!(message.username, "system");
            assert_eq!(message.broadcastid, "r");
            assert_eq!(message.payload, joined_payload("bob"));
        }
        _ => panic!("not handed on"),
    }
    let echoed = bob.try_recv().unwrap();
    assert!(matches!(
        handle_outgoing(&"2".to_string(), OutgoingEvent::Received(echoed)),
        OutgoingAction::Wait
    ));
    assert_eq!(bob.try_recv().unwrap_err(), TryRecvError::Empty);
}

#[test]
fn disconnecting_is_announced_to_the_others() {
    let mut state = ServerState::new();
    let (_, _, mut ann) = enter(&mut state, "1", "r", "ann");
    let (session, _, bob) = enter(&mut state, "2", "r", "bob");
    drop(bob);
    assert!(session.handle_disconnect(&mut state, 1).is_ok());
    assert!(ann.try_recv().is_ok());
    assert!(ann.try_recv().is_ok());
    let heard = ann.try_recv().unwrap();
    assert_eq!(heard.sender_id, "2");
    assert_eq!(heard.message.username, "system");
    assert_eq!(heard.message.payload, left_payload("bob"));
    assert_eq!(state.stats().total_users, 1);
}

#[test]
fn last_one_out_is_told_to_nobody() {
    let mut state = ServerState::new();
    let (session, _, receiver) = enter(&mut state, "1", "r", "ann");
    drop(receiver);
    let error = session.handle_disconnect(&mut state, 1).unwrap_err();
    assert!(matches!(error, BroadcastError::SendFailed(_)));
    assert_eq!(state.stats().total_users, 0);
    assert_eq!(state.stats().total_rooms, 1);
}

#[test]
fn rate_limit_spaces_messages() {
    let start: u128 = 5_000;
    let mut limiter = RateLimiter { last_message_time: start };
    let text = || IncomingEvent::Text("{}".to_string());
    assert!(matches!(
        limiter.handle_incoming(text(), start + RATE_LIMIT_INTERVAL - 1),
        IncomingAction::Reject(Rejection::RateLimited)
    ));
    assert_eq!(limiter.last_message_time, start);
    let first = start + RATE_LIMIT_INTERVAL;
    match limiter.handle_incoming(text(), first) {
        IncomingAction::Parse(passed) => assert_eq!(passed, "{}"),
        _ => panic!("not let through"),
    }
    assert_eq!(limiter.last_message_time, first);
    for wait in [0, 1, RATE_LIMIT_INTERVAL / 2, RATE_LIMIT_INTERVAL - 1] {
        assert!(matches!(
            limiter.handle_incoming(text(), first + wait),
            IncomingAction::Reject(Rejection::RateLimited)
        ));
    }
    assert!(matches!(
        limiter.handle_incoming(text(), first + RATE_LIMIT_INTERVAL),
        IncomingAction::Parse(_)
    ));
    assert!(matches!(
        limiter.handle_incoming(text(), 0),
        IncomingAction::Reject(Rejection::RateLimited)
    ));
}

#[test]
fn large_message_is_dropped_before_the_rate_limit() {
    let mut limiter = RateLimiter { last_message_time: 0 };
    let large = IncomingEvent::Text("x".repeat(MAX_MESSAGE_SIZE + 1));
    assert!(matches!(
        limiter.handle_incoming(large, 2 * RATE_LIMIT_INTERVAL),
        IncomingAction::Reject(Rejection::TooLarge { size: 65537 })
    ));
    assert_eq!(limiter.last_message_time, 0);
    let longest = IncomingEvent::Text("x".repeat(MAX_MESSAGE_SIZE));
    assert!(matches!(
        limiter.handle_incoming(longest, 2 * RATE_LIMIT_INTERVAL),
        IncomingAction::Parse(_)
    ));
}

#[test]
fn other_frames_do_not_count() {
    let mut limiter = RateLimiter { last_message_time: 3 };
    let now = 10 * RATE_LIMIT_INTERVAL;
    assert!(matches!(limiter.handle_incoming(IncomingEvent::Ping, now), IncomingAction::Ignore));
    assert!(matches!(limiter.handle_incoming(IncomingEvent::Other, now), IncomingAction::Ignore));
    assert!(matches!(limiter.handle_incoming(IncomingEvent::Close, now), IncomingAction::Stop));
    assert!(matches!(limiter.handle_incoming(IncomingEvent::Ended, now), IncomingAction::Stop));
    let failed = IncomingEvent::Failed("reset".to_string());
    assert!(matches!(limiter.handle_incoming(failed, now), IncomingAction::Stop));
    assert_eq!(limiter.last_message_time, 3);
}

#[test]
fn own_message_reaches_everyone_else() {
    let mut state = ServerState::new();
    let (session, _, mut ann) = enter(&mut state, "1", "r", "ann");
    let (_, _, mut bob) = enter(&mut state, "2", "r", "bob");
    let outcome = session.handle_message(&mut state, Ok(chat("ann", "r", "hi")), 1);
    assert!(matches!(outcome, MessageOutcome::Broadcast(Ok(()))));
    assert!(ann.try_recv().is_ok());
    assert!(ann.try_recv().is_ok());
    assert!(bob.try_recv().is_ok());
    let echo = ann.try_recv().unwrap();
    assert!(matches!(
        handle_outgoing(&"1".to_string(), OutgoingEvent::Received(echo)),
        OutgoingAction::Wait
    ));
    match handle_outgoing(&"2".to_string(), OutgoingEvent::Received(bob.try_recv().unwrap())) {
        OutgoingAction::Serialize(message) => {
            assert_eq!(message.username, "ann");
            assert_eq!(message.broadcastid, "r");
            assert_eq!(message.payload, Value::from("hi"));
        }
        _ => panic!("not handed on"),
    }
}

#[test]
fn nobody_speaks_for_another() {
    let mut state = ServerState::new();
    let (session, _, mut ann) = enter(&mut state, "1", "r", "ann");
    assert!(ann.try_recv().is_ok());
    match session.handle_message(&mut state, Ok(chat("bob", "r", "hi")), 1) {
        MessageOutcome::Rejected(Rejection::ForeignFields { username, broadcastid }) => {
            assert_eq!(username, "bob");
            assert_eq!(broadcastid, "r");
        }
        _ => panic!("not rejected"),
    }
    match session.handle_message(&mut state, Ok(chat("ann", "s", "hi")), 1) {
        MessageOutcome::Rejected(Rejection::ForeignFields { username, broadcastid }) => {
            assert_eq!(username, "ann");
            assert_eq!(broadcastid, "s");
        }
        _ => panic!("not rejected"),
    }
    match session.handle_message(&mut state, Err("bad".to_string()), 1) {
        MessageOutcome::Rejected(Rejection::InvalidFormat(cause)) => assert_eq!(cause, "bad"),
        _ => panic!("not rejected"),
    }
    assert_eq!(ann.try_recv().unwrap_err(), TryRecvError::Empty);
}

#[test]
fn message_to_a_vanished_room_is_reported() {
    let mut state = ServerState::new();
    let session = Session {
        broadcast_id: "r".to_string(),
        username: "ann".to_string(),
        user_id: "1".to_string(),
    };
    let outcome = session.clone().handle_message(&mut state, Ok(chat("ann", "r", "hi")), 1);
    assert!(matches!(outcome, MessageOutcome::Broadcast(Err(BroadcastError::RoomNotFound))));
    let error = session.handle_disconnect(&mut state, 2).unwrap_err();
    assert!(matches!(error, BroadcastError::RoomNotFound));
}

#[test]
fn sending_side_follows_its_queue() {
    let me = "1".to_string();
    assert!(matches!(handle_outgoing(&me, OutgoingEvent::ChannelClosed), OutgoingAction::Stop));
    match handle_outgoing(&me, OutgoingEvent::Serialized(Some("text".to_string()))) {
        OutgoingAction::Enqueue(text) => assert_eq!(text, "text"),
        _ => panic!("not queued"),
    }
    assert!(matches!(handle_outgoing(&me, OutgoingEvent::Serialized(None)), OutgoingAction::Wait));
    assert!(matches!(handle_outgoing(&me, OutgoingEvent::Enqueued(true)), OutgoingAction::Wait));
    assert!(matches!(handle_outgoing(&me, OutgoingEvent::Enqueued(false)), OutgoingAction::Stop));
    match handle_outgoing(&me, OutgoingEvent::Dequeued(Some("text".to_string()))) {
        OutgoingAction::Write(text) => assert_eq!(text, "text"),
        _ => panic!("not written"),
    }
    assert!(matches!(handle_outgoing(&me, OutgoingEvent::Dequeued(None)), OutgoingAction::Stop));
    assert!(matches!(handle_outgoing(&me, OutgoingEvent::Written(true)), OutgoingAction::Wait));
    assert!(matches!(handle_outgoing(&me, OutgoingEvent::Written(false)), OutgoingAction::Stop));
}

#[test]
fn listener_hears_the_others_in_order() {
    let mut state = ServerState::new();
    let (ann, _, mut receiver) = enter(&mut state, "1", "r", "ann");
    let (bob, _, _bob_receiver) = enter(&mut state, "2", "r", "bob");
    for text in ["one", "two", "three", "four"] {
        let (speaker, name) = if text.len() == 3 { (&bob, "bob") } else { (&ann, "ann") };
        let outcome = speaker.handle_message(&mut state, Ok(chat(name, "r", text)), 1);
        assert!(matches!(outcome, MessageOutcome::Broadcast(Ok(()))));
    }
    let mut heard = vec![];
    while let Ok(message) = receiver.try_recv() {
        match handle_outgoing(&"1".to_string(), OutgoingEvent::Received(message)) {
            OutgoingAction::Serialize(message) => heard.push(message.payload),
            OutgoingAction::Wait => {}
            _ => panic!("unexpected action"),
        }
    }
    assert_eq!(heard, vec![joined_payload("bob"), Value::from("one"), Value::from("two")]);
}

#[test]
fn held_receiver_makes_speaking_and_leaving_heard() {
    let mut state = ServerState::new();
    let (ann, _, _) = enter(&mut state, "1", "r", "ann");
    let (bob, _, mut receiver) = enter(&mut state, "2", "r", "bob");
    let own = Ok(chat("ann", "r", "hi"));
    let outcome = ann.handle_message_held(&mut state, own, 1, Some(&receiver));
    assert!(matches!(outcome, MessageOutcome::Broadcast(Ok(()))));
    let foreign = Ok(chat("bob", "r", "hi"));
    let outcome = ann.handle_message_held(&mut state, foreign, 1, Some(&receiver));
    assert!(matches!(outcome, MessageOutcome::Rejected(Rejection::ForeignFields { .. })));
    assert!(ann.handle_disconnect_held(&mut state, 2, Some(&receiver)).is_ok());
    assert_eq!(receiver.try_recv().unwrap().message.payload, joined_payload("bob"));
    assert_eq!(receiver.try_recv().unwrap().message.payload, Value::from("hi"));
    assert_eq!(receiver.try_recv().unwrap().message.payload, left_payload("ann"));
    assert_eq!(receiver.try_recv().unwrap_err(), TryRecvError::Empty);
    drop(receiver);
    let outcome = bob.handle_message_held(&mut state, Ok(chat("bob", "r", "hi")), 3, None);
    assert!(matches!(outcome, MessageOutcome::Broadcast(Err(BroadcastError::SendFailed(_)))));
}

#[test]
fn client_is_sent_each_text_once_and_in_order() {
    let mut state = ServerState::new();
    let (_, _, mut receiver) = enter(&mut state, "1", "r", "ann");
    let (bob, _, _bob_receiver) = enter(&mut state, "2", "r", "bob");
    for text in ["one", "two", "three"] {
        let outcome = bob.handle_message(&mut state, Ok(chat("bob", "r", text)), 1);
        assert!(matches!(outcome, MessageOutcome::Broadcast(Ok(()))));
    }
    let me = "1".to_string();
    let mut queue: Vec<String> = vec![];
    let mut sent: Vec<String> = vec![];
    loop {
        let mut event = match receiver.try_recv() {
            Ok(message) => OutgoingEvent::Received(message),
            Err(_) if queue.is_empty() => break,
            Err(_) => OutgoingEvent::Dequeued(Some(queue.remove(0))),
        };
        loop {
            event = match handle_outgoing(&me, event) {
                OutgoingAction::Wait => break,
                OutgoingAction::Stop => panic!("stopped"),
                OutgoingAction::Serialize(message) => {
                    OutgoingEvent::Serialized(Some(message.payload.to_string()))
                }
                OutgoingAction::Enqueue(text) => {
                    queue.push(text);
                    OutgoingEvent::Enqueued(true)
                }
                OutgoingAction::Write(text) => {
                    sent.push(text);
                    OutgoingEvent::Written(true)
                }
            };
        }
    }
    let expected = vec![
        joined_payload("bob").to_string(),
        Value::from("one").to_string(),
        Value::from("two").to_string(),
        Value::from("three").to_string(),
    ];
    assert_eq!(sent, expected);
}
