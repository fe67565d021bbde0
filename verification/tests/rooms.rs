use dashmap::DashMap;
use serde_json::Value;
use tokio::sync::broadcast::error::{SendError, TryRecvError};
use websocket_chat_server::channel::Heard;
use websocket_chat_server::clock::{elapsed_since, Clock};
use websocket_chat_server::message::{ChatMessage, InternalMessage};
use websocket_chat_server::payload::{joined_payload, left_payload, notice_payload};
use websocket_chat_server::room::{BroadcastRoom, UserConnection, CHANNEL_CAPACITY, ROOM_TTL};
use websocket_chat_server::server::{
    broadcast_result, text_len, BroadcastError, CleanupAction, JoinError, ServerState, ServerStats,
    CLEANUP_INTERVAL_SECS,
};

const SECOND: u128 = 1_000_000_000;

fn user(id: &str) -> UserConnection {
    UserConnection { user_id: id.to_string() }
}

fn chat(username: &str, broadcastid: &str, payload: &str) -> ChatMessage {
    ChatMessage {
        username: username.to_string(),
        broadcastid: broadcastid.to_string(),
        payload: Value::from(payload),
    }
}

fn swept(action: CleanupAction) -> (Vec<String>, Option<ServerStats>) {
    match action {
        CleanupAction::Swept { mut removed, stats } => {
            removed.sort();
            (removed, stats)
        }
        CleanupAction::Stop => panic!("the sweep stopped"),
    }
}

#[test]
fn limits_have_their_values() {
    assert_eq!(ROOM_TTL, 600 * SECOND);
    assert_eq!(CHANNEL_CAPACITY, 1000);
    assert_eq!(CLEANUP_INTERVAL_SECS, 60);
}

#[test]
fn elapsed_time_never_runs_backwards() {
    assert_eq!(elapsed_since(3, 10), 7);
    assert_eq!(elapsed_since(10, 10), 0);
    assert_eq!(elapsed_since(10, 3), 0);
}

#[test]
fn text_length_counts_bytes() {
    assert_eq!(text_len(""), 0);
    assert_eq!(text_len("abc"), 3);
    assert_eq!(text_len("\u{e9}"), 2);
    assert_eq!(text_len("\u{1f600}"), 4);
}

#[test]
fn new_room_is_empty_and_active() {
    let room = BroadcastRoom::new(5, &DashMap::new());
    let status = room.status();
    assert!(status.vacant);
    assert_eq!(status.user_count, 0);
    assert_eq!(status.last_activity, 5);
    assert!(!room.is_expired(5 + ROOM_TTL));
    assert!(room.is_expired(5 + ROOM_TTL + 1));
    assert!(room.is_expired(u128::MAX));
}

#[test]
fn occupied_room_never_expires() {
    let mut room = BroadcastRoom::new(0, &DashMap::new());
    room.add_user("ann", user("1"));
    assert!(room.has_user("ann"));
    assert!(!room.has_user("bob"));
    assert!(!room.is_expired(100 * ROOM_TTL));
    assert_eq!(room.status().user_count, 1);
    room.remove_user("ann");
    assert!(!room.has_user("ann"));
    assert!(room.is_expired(100 * ROOM_TTL));
}

#[test]
fn activity_postpones_expiry() {
    let mut room = BroadcastRoom::new(0, &DashMap::new());
    room.update_activity(ROOM_TTL);
    assert!(!room.is_expired(ROOM_TTL + 1));
    assert!(!room.is_expired(2 * ROOM_TTL));
    assert!(room.is_expired(2 * ROOM_TTL + 1));
}

#[test]
fn room_listener_hears_what_follows() {
    let mut room = BroadcastRoom::new(0, &DashMap::new());
    let early = room.send(
        InternalMessage { message: chat("ann", "r", "lost"), sender_id: "1".to_string() },
        None,
    );
    assert!(early.is_err());
    let mut first = room.listen();
    let sent = room.send(
        InternalMessage { message: chat("ann", "r", "one"), sender_id: "1".to_string() },
        Some(&first),
    );
    assert_eq!(sent.unwrap(), 1);
    let mut second = room.listen();
    let sent = room.send(
        InternalMessage { message: chat("ann", "r", "two"), sender_id: "1".to_string() },
        None,
    );
    assert_eq!(sent.unwrap(), 2);
    assert_eq!(first.try_recv().unwrap().message.payload, Value::from("one"));
    assert_eq!(first.try_recv().unwrap().message.payload, Value::from("two"));
    assert_eq!(second.try_recv().unwrap().message.payload, Value::from("two"));
    assert_eq!(second.try_recv().unwrap_err(), TryRecvError::Empty);
}

#[test]
fn slow_listener_keeps_a_thousand_messages() {
    let mut room = BroadcastRoom::new(0, &DashMap::new());
    let mut listener = room.listen();
    for i in 0..1000 {
        let message = chat("ann", "r", &format!("{}", i));
        let sent = room.send(InternalMessage { message, sender_id: "1".to_string() }, None);
        assert_eq!(sent.unwrap(), 1);
    }
    for i in 0..1000 {
        let heard = listener.try_recv().unwrap();
        assert_eq!(heard.message.payload, Value::from(format!("{}", i)));
    }
}

#[test]
fn notices_are_json_objects() {
    let payload = notice_payload("kind", "words".to_string());
    assert_eq!(payload.to_string(), r#"{"message":"words","type":"kind"}"#);
    let joined = joined_payload("ann");
    assert_eq!(joined.to_string(), r#"{"message":"ann joined the chat","type":"user_joined"}"#);
    let left = left_payload("ann");
    assert_eq!(left.to_string(), r#"{"message":"ann left the chat","type":"user_left"}"#);
    assert_ne!(joined, left);
    assert_ne!(joined, joined_payload("bob"));
}

#[test]
fn messages_are_cloned_whole() {
    let message = InternalMessage { message: chat("ann", "r", "hi"), sender_id: "1".to_string() };
    let copy = message.clone();
    assert_eq!(copy.sender_id, "1");
    assert_eq!(copy.message.username, "ann");
    assert_eq!(copy.message.broadcastid, "r");
    assert_eq!(copy.message.payload, Value::from("hi"));
}

#[test]
fn join_needs_both_names() {
    let mut state = ServerState::new();
    assert_eq!(state.join_room("", "ann", user("1"), 0).unwrap_err(), JoinError::EmptyField);
    assert_eq!(state.join_room("r", "", user("1"), 0).unwrap_err(), JoinError::EmptyField);
    let long = "x".repeat(101);
    assert_eq!(state.join_room(&long, "", user("1"), 0).unwrap_err(), JoinError::EmptyField);
    assert_eq!(state.stats().total_rooms, 0);
}

#[test]
fn join_limits_names_by_bytes() {
    let mut state = ServerState::new();
    assert!(state.join_room(&"r".repeat(100), &"u".repeat(50), user("1"), 0).is_ok());
    let refused = state.join_room(&"r".repeat(101), "ann", user("1"), 0);
    assert_eq!(refused.unwrap_err(), JoinError::FieldTooLong);
    let refused = state.join_room("r", &"u".repeat(51), user("1"), 0);
    assert_eq!(refused.unwrap_err(), JoinError::FieldTooLong);
    assert!(state.join_room("r", &"\u{e9}".repeat(25), user("1"), 0).is_ok());
    let refused = state.join_room("r", &"\u{e9}".repeat(26), user("1"), 0);
    assert_eq!(refused.unwrap_err(), JoinError::FieldTooLong);
    assert_eq!(state.stats().total_rooms, 2);
}

#[test]
fn join_answers_are_worded() {
    assert_eq!(
        JoinError::EmptyField.message("ann"),
        "Broadcast ID and username cannot be empty"
    );
    assert_eq!(JoinError::FieldTooLong.message("ann"), "Broadcast ID or username too long");
    assert_eq!(
        JoinError::UsernameTaken.message("ann"),
        "Username 'ann' already exists in this broadcast"
    );
}

#[test]
fn taken_name_is_refused_only_in_its_room() {
    let mut state = ServerState::new();
    assert!(state.join_room("r", "ann", user("1"), 0).is_ok());
    let refused = state.join_room("r", "ann", user("2"), 1);
    assert_eq!(refused.unwrap_err(), JoinError::UsernameTaken);
    assert!(state.join_room("r", "bob", user("2"), 2).is_ok());
    assert!(state.join_room("s", "ann", user("3"), 3).is_ok());
    let stats = state.stats();
    assert_eq!(stats.total_rooms, 2);
    assert_eq!(stats.total_users, 3);
}

#[test]
fn refused_join_leaves_the_room_alone() {
    let mut state = ServerState::new();
    assert!(state.join_room("r", "ann", user("1"), 0).is_ok());
    state.leave_room("r", "ann", 0);
    assert!(state.join_room("r", "bob", user("2"), 0).is_ok());
    assert!(state.join_room("r", "bob", user("3"), ROOM_TTL).is_err());
    state.leave_room("r", "bob", 0);
    let (removed, _) = swept(state.cleanup_expired_rooms(ROOM_TTL + 1));
    assert_eq!(removed, vec!["r".to_string()]);
}

#[test]
fn leaving_frees_the_name_and_keeps_the_room() {
    let mut state = ServerState::new();
    assert!(state.join_room("r", "ann", user("1"), 0).is_ok());
    state.leave_room("r", "ann", 1);
    let stats = state.stats();
    assert_eq!(stats.total_rooms, 1);
    assert_eq!(stats.total_users, 0);
    assert!(state.join_room("r", "ann", user("2"), 2).is_ok());
    assert_eq!(state.stats().total_users, 1);
}

#[test]
fn leaving_where_one_is_not_changes_no_membership() {
    let mut state = ServerState::new();
    state.leave_room("nowhere", "ann", 0);
    assert_eq!(state.stats().total_rooms, 0);
    assert!(state.join_room("r", "ann", user("1"), 0).is_ok());
    state.leave_room("r", "bob", 1);
    state.leave_room("s", "ann", 1);
    assert_eq!(state.stats().total_users, 1);
}

#[test]
fn broadcast_needs_a_room() {
    let mut state = ServerState::new();
    let result = state.broadcast_message("r", chat("ann", "r", "hi"), "1", 0);
    let error = result.unwrap_err();
    assert!(matches!(error, BroadcastError::RoomNotFound));
    assert_eq!(error.message(), "Broadcast room not found");
    assert_eq!(state.stats().total_rooms, 0);
}

#[test]
fn broadcast_needs_a_listener() {
    let mut state = ServerState::new();
    assert!(state.join_room("r", "ann", user("1"), 0).is_ok());
    let error = state.broadcast_message("r", chat("ann", "r", "hi"), "1", 0).unwrap_err();
    assert_eq!(error.message(), "Failed to broadcast message: channel closed");
    assert!(matches!(error, BroadcastError::SendFailed(cause) if cause == "channel closed"));
}

#[test]
fn failed_broadcast_counts_as_activity() {
    let mut state = ServerState::new();
    assert!(state.join_room("r", "ann", user("1"), 0).is_ok());
    state.leave_room("r", "ann", 0);
    assert!(state.broadcast_message("r", chat("ann", "r", "hi"), "1", ROOM_TTL).is_err());
    assert!(swept(state.cleanup_expired_rooms(2 * ROOM_TTL)).0.is_empty());
    let (removed, _) = swept(state.cleanup_expired_rooms(2 * ROOM_TTL + 1));
    assert_eq!(removed, vec!["r".to_string()]);
}

#[test]
fn broadcast_stays_in_its_room() {
    let mut state = ServerState::new();
    let mut ann = state.join_room("r", "ann", user("1"), 0).unwrap();
    let mut bob = state.join_room("r", "bob", user("2"), 0).unwrap();
    let mut cid = state.join_room("s", "cid", user("3"), 0).unwrap();
    assert!(state.broadcast_message("r", chat("ann", "r", "hi"), "1", 1).is_ok());
    for listener in [&mut ann, &mut bob] {
        let heard = listener.try_recv().unwrap();
        assert_eq!(heard.sender_id, "1");
        assert_eq!(heard.message.username, "ann");
        assert_eq!(heard.message.broadcastid, "r");
        assert_eq!(heard.message.payload, Value::from("hi"));
    }
    assert_eq!(cid.try_recv().unwrap_err(), TryRecvError::Empty);
}

#[test]
fn late_member_hears_only_what_follows() {
    let mut state = ServerState::new();
    let mut ann = state.join_room("r", "ann", user("1"), 0).unwrap();
    assert!(state.broadcast_message("r", chat("ann", "r", "one"), "1", 1).is_ok());
    let mut bob = state.join_room("r", "bob", user("2"), 2).unwrap();
    assert!(state.broadcast_message("r", chat("ann", "r", "two"), "1", 3).is_ok());
    assert_eq!(ann.try_recv().unwrap().message.payload, Value::from("one"));
    assert_eq!(ann.try_recv().unwrap().message.payload, Value::from("two"));
    assert_eq!(bob.try_recv().unwrap().message.payload, Value::from("two"));
    assert_eq!(bob.try_recv().unwrap_err(), TryRecvError::Empty);
}

#[test]
fn system_message_speaks_for_the_server() {
    let mut state = ServerState::new();
    let mut ann = state.join_room("r", "ann", user("1"), 0).unwrap();
    let result = state.broadcast_system_message("r", left_payload("bob"), "2", 1, None);
    assert!(result.is_ok());
    let heard = ann.try_recv().unwrap();
    assert_eq!(heard.sender_id, "2");
    assert_eq!(heard.message.username, "system");
    assert_eq!(heard.message.broadcastid, "r");
    assert_eq!(heard.message.payload, left_payload("bob"));
}

#[test]
fn held_receiver_makes_sending_succeed() {
    let mut state = ServerState::new();
    let ann = state.join_room("r", "ann", user("1"), 0).unwrap();
    assert!(state.broadcast_held("r", chat("ann", "r", "hi"), "1", 1, Some(&ann)).is_ok());
}

#[test]
fn send_result_is_reported() {
    assert!(broadcast_result(Ok(1)).is_ok());
    let unsent = InternalMessage { message: chat("ann", "r", "hi"), sender_id: "1".to_string() };
    let error = broadcast_result(Err(SendError(unsent))).unwrap_err();
    assert_eq!(error.message(), "Failed to broadcast message: channel closed");
}

#[test]
fn sweep_removes_exactly_the_expired_rooms() {
    let mut state = ServerState::new();
    for id in ["a", "b", "c"] {
        assert!(state.join_room(id, "ann", user("1"), 0).is_ok());
    }
    state.leave_room("a", "ann", 0);
    state.leave_room("b", "ann", 1);
    let (removed, stats) = swept(state.cleanup_expired_rooms(ROOM_TTL));
    assert!(removed.is_empty());
    assert_eq!(stats, Some(ServerStats { total_rooms: 3, total_users: 1 }));
    let (removed, stats) = swept(state.cleanup_expired_rooms(ROOM_TTL + 1));
    assert_eq!(removed, vec!["a".to_string()]);
    assert_eq!(stats, Some(ServerStats { total_rooms: 2, total_users: 1 }));
    let (removed, _) = swept(state.cleanup_expired_rooms(100 * ROOM_TTL));
    assert_eq!(removed, vec!["b".to_string()]);
    let (removed, stats) = swept(state.cleanup_expired_rooms(100 * ROOM_TTL));
    assert!(removed.is_empty());
    assert_eq!(stats, Some(ServerStats { total_rooms: 1, total_users: 1 }));
}

#[test]
fn sweep_of_many_rooms_finds_them_all() {
    let mut state = ServerState::new();
    for i in 0..200 {
        let id = format!("room{}", i);
        assert!(state.join_room(&id, "ann", user("1"), 0).is_ok());
        if i % 2 == 0 {
            state.leave_room(&id, "ann", 0);
        }
    }
    let removed = state.remove_expired_rooms(ROOM_TTL + 1);
    assert_eq!(removed.len(), 100);
    let stats = state.stats();
    assert_eq!(stats.total_rooms, 100);
    assert_eq!(stats.total_users, 100);
}

#[test]
fn removed_room_closes_its_channel() {
    let mut state = ServerState::new();
    let mut ann = state.join_room("r", "ann", user("1"), 0).unwrap();
    state.leave_room("r", "ann", 0);
    assert_eq!(ann.try_recv().unwrap_err(), TryRecvError::Empty);
    swept(state.cleanup_expired_rooms(ROOM_TTL + 1));
    assert_eq!(ann.try_recv().unwrap_err(), TryRecvError::Closed);
}

#[test]
fn empty_server_reports_no_figures() {
    let mut state = ServerState::new();
    let (removed, stats) = swept(state.cleanup_expired_rooms(0));
    assert!(removed.is_empty());
    assert_eq!(stats, None);
}

#[test]
fn shutdown_stops_the_sweeps() {
    let mut state = ServerState::new();
    assert!(state.join_room("r", "ann", user("1"), 0).is_ok());
    state.leave_room("r", "ann", 0);
    state.begin_shutdown();
    assert!(matches!(state.cleanup_expired_rooms(2 * ROOM_TTL), CleanupAction::Stop));
    assert_eq!(state.stats().total_rooms, 1);
    assert!(state.join_room("r", "bob", user("2"), 0).is_ok());
    assert!(matches!(state.cleanup_expired_rooms(2 * ROOM_TTL), CleanupAction::Stop));
}

#[test]
fn rooms_have_channels_of_their_own() {
    let others = DashMap::new();
    let first = BroadcastRoom::new(0, &others);
    let first_listener = first.listen();
    assert!(first_listener.same_channel(&first.listen()));
    others.insert("a".to_string(), first);
    let second = BroadcastRoom::new(0, &others);
    assert!(!first_listener.same_channel(&second.listen()));

    let mut state = ServerState::new();
    let ann = state.join_room("r", "ann", user("1"), 0).unwrap();
    let bob = state.join_room("r", "bob", user("2"), 0).unwrap();
    let cid = state.join_room("s", "cid", user("3"), 0).unwrap();
    assert!(ann.same_channel(&bob));
    assert!(!ann.same_channel(&cid));
}

#[test]
fn room_size_counts_members() {
    let mut state = ServerState::new();
    assert_eq!(state.room_size("r"), None);
    assert!(state.join_room("r", "ann", user("1"), 0).is_ok());
    assert_eq!(state.room_size("r"), Some(1));
    assert!(state.join_room("r", "bob", user("2"), 0).is_ok());
    assert!(state.join_room("s", "ann", user("3"), 0).is_ok());
    assert_eq!(state.room_size("r"), Some(2));
    assert_eq!(state.room_size("s"), Some(1));
    state.leave_room("r", "ann", 1);
    state.leave_room("r", "bob", 1);
    assert_eq!(state.room_size("r"), Some(0));
    assert_eq!(state.remove_expired_rooms(ROOM_TTL + 2), vec!["r".to_string()]);
    assert_eq!(state.room_size("r"), None);
}

#[test]
fn last_activity_follows_opening() {
    let mut room = BroadcastRoom::new(3, &DashMap::new());
    assert_eq!(room.status().last_activity, 3);
    room.update_activity(8);
    assert_eq!(room.status().last_activity, 8);
    assert!(!room.is_expired(8 + ROOM_TTL));
    assert!(room.is_expired(9 + ROOM_TTL));
}

#[test]
fn clock_never_runs_back() {
    let mut clock = Clock::start();
    let mut last = 0;
    for _ in 0..1000 {
        let now = clock.now();
        assert!(now >= last);
        last = now;
    }
    let began = std::time::Instant::now();
    while began.elapsed().as_millis() < 5 {}
    assert!(clock.now() >= last + 5_000_000);
}

fn said(heard: Option<Heard>) -> InternalMessage {
    match heard {
        Some(Heard::Message(message)) => message,
        other => panic!("heard {:?}", other),
    }
}

#[test]
fn member_hears_what_is_said_after_joining() {
    let mut state = ServerState::new();
    let mut ann = state.join_room("r", "ann", user("1"), 0).unwrap();
    assert!(matches!(state.hear("r", &mut ann), Some(Heard::Nothing)));
    assert!(state.broadcast_message("r", chat("ann", "r", "one"), "1", 1).is_ok());
    let mut bob = state.join_room("r", "bob", user("2"), 2).unwrap();
    assert!(matches!(state.hear("r", &mut bob), Some(Heard::Nothing)));
    assert!(state.broadcast_message("r", chat("bob", "r", "two"), "2", 3).is_ok());
    let mut cid = state.join_room("s", "cid", user("3"), 3).unwrap();
    assert!(state.broadcast_message("s", chat("cid", "s", "three"), "3", 4).is_ok());

    let first = said(state.hear("r", &mut ann));
    assert_eq!(first.sender_id, "1");
    assert_eq!(first.message.username, "ann");
    assert_eq!(first.message.payload, Value::from("one"));
    assert_eq!(said(state.hear("r", &mut ann)).message.payload, Value::from("two"));
    assert!(matches!(state.hear("r", &mut ann), Some(Heard::Nothing)));
    assert_eq!(said(state.hear("r", &mut bob)).message.payload, Value::from("two"));
    assert!(matches!(state.hear("r", &mut bob), Some(Heard::Nothing)));
    assert_eq!(said(state.hear("s", &mut cid)).message.payload, Value::from("three"));
    assert!(state.hear("nowhere", &mut cid).is_none());
}

#[test]
fn burst_of_a_thousand_arrives_whole() {
    let mut state = ServerState::new();
    let mut ann = state.join_room("r", "ann", user("1"), 0).unwrap();
    for i in 0..1000 {
        let message = chat("bob", "r", &format!("{}", i));
        assert!(state.broadcast_held("r", message, "2", 1, Some(&ann)).is_ok());
    }
    for i in 0..1000 {
        let heard = said(state.hear("r", &mut ann));
        assert_eq!(heard.sender_id, "2");
        assert_eq!(heard.message.payload, Value::from(format!("{}", i)));
    }
    assert!(matches!(state.hear("r", &mut ann), Some(Heard::Nothing)));
}

#[test]
fn slow_receiver_loses_only_the_oldest() {
    let mut room = BroadcastRoom::new(0, &DashMap::new());
    let mut listener = room.listen();
    for i in 0..3000 {
        let message = chat("ann", "r", &format!("{}", i));
        let sent = room.send(InternalMessage { message, sender_id: "1".to_string() }, None);
        assert!(sent.is_ok());
    }
    let missed = match room.hear(&mut listener) {
        Heard::Lagged(missed) => missed,
        other => panic!("heard {:?}", other),
    };
    assert!(missed > 0 && missed <= 2000);
    for i in missed..3000 {
        let heard = said(Some(room.hear(&mut listener)));
        assert_eq!(heard.message.payload, Value::from(format!("{}", i)));
    }
    assert!(matches!(room.hear(&mut listener), Heard::Nothing));
}

#[test]
fn sweeps_go_on_until_the_shutdown() {
    let mut state = ServerState::new();
    for tick in 0..5 {
        let action = state.cleanup_expired_rooms(tick * 60 * SECOND);
        assert!(matches!(action, CleanupAction::Swept { .. }));
    }
    state.begin_shutdown();
    assert!(matches!(state.cleanup_expired_rooms(300 * SECOND), CleanupAction::Stop));
}
