//! What each operation comes to: when it succeeds, when it fails and with what
//! error, what it changes, and what it leaves alone.
use crate::channel::ChannelView;
use crate::clock::time_between;
use crate::connection::{joined_announcement, left_announcement};
use crate::delivery::{is_sending, Sending};
use crate::join::{join_text, parsed_join, JoinEvent, JoinReceiveError, MAX_MESSAGE_SIZE};
use crate::laws::{is_room_id, is_username, lemma_user_total_insert, Step};
use crate::message::{
    ChatMessage, ChatMessageView, InternalMessage, InternalMessageView, JoinMessage,
};
use crate::outgoing::{outgoing_action, OutgoingAction, OutgoingEvent};
use crate::payload::{json, notice, Json};
use crate::room::{RoomView, CHANNEL_CAPACITY, ROOM_TTL};
use crate::server::{
    byte_len, expired_rooms, sent_by, system_message, texts, user_total, BroadcastError,
    CleanupAction, JoinError, ServerStats, ServerView, MAX_BROADCAST_ID_LEN, MAX_USERNAME_LEN,
};
use crate::session::{
    incoming_action, IncomingAction, IncomingEvent, MessageOutcome, Rejection, Session,
    SessionView, RATE_LIMIT_INTERVAL,
};
use vstd::prelude::*;
use vstd::utf8::encode_utf8;

verus! {

/// Whether the two states have the same rooms and the same shutdown flag, and the
/// same in every room but the one with that id.
pub open spec fn same_elsewhere(before: ServerView, after: ServerView, id: Seq<char>) -> bool {
    &&& after.shutdown == before.shutdown
    &&& forall|other: Seq<char>|
        other != id ==> #[trigger] after.rooms.contains_key(other) == before.rooms.contains_key(
            other,
        )
    &&& forall|other: Seq<char>|
        other != id && #[trigger] before.rooms.contains_key(other) ==> after.rooms[other]
            == before.rooms[other]
}

/// A text has as many bytes as its UTF-8 form, and none only where it has no
/// characters.
pub proof fn law_lengths_are_in_bytes(text: Seq<char>)
    ensures
        byte_len(text) == encode_utf8(text).len(),
        byte_len(text) >= text.len(),
    decreases text.len(),
{
    if text.len() > 0 {
        law_lengths_are_in_bytes(text.drop_first());
    }
}

/// The time that has passed since some time is what has to be added to it to come
/// to `now`, and none has passed since a time that lies ahead.
pub proof fn law_time_passes(since: u128, now: u128)
    ensures
        since <= now ==> since + time_between(since, now) == now,
        since >= now ==> time_between(since, now) == 0,
{
}

/// A user is let in whenever the broadcast id has 1 to [`MAX_BROADCAST_ID_LEN`]
/// bytes, the username has 1 to [`MAX_USERNAME_LEN`] bytes and no member of that
/// room goes by that name, and only then. An empty field is told before an overlong
/// one, and that before a taken name.
pub proof fn law_joins_are_accepted(server: ServerView, id: Seq<char>, name: Seq<char>)
    ensures
        server.join_refusal(id, name) is None <==> 1 <= encode_utf8(id).len()
            <= MAX_BROADCAST_ID_LEN && 1 <= encode_utf8(name).len() <= MAX_USERNAME_LEN && !(
        server.rooms.contains_key(id) && server.rooms[id].users.contains_key(name)),
        server.join_refusal(id, name) is None <==> is_room_id(id) && is_username(name) && !(
        server.rooms.contains_key(id) && server.rooms[id].users.contains_key(name)),
        server.join_refusal(id, name) == Some(JoinError::EmptyField) <==> encode_utf8(id).len() == 0
            || encode_utf8(name).len() == 0,
        server.join_refusal(id, name) == Some(JoinError::FieldTooLong) <==> encode_utf8(id).len()
            > 0 && encode_utf8(name).len() > 0 && (encode_utf8(id).len() > MAX_BROADCAST_ID_LEN
            || encode_utf8(name).len() > MAX_USERNAME_LEN),
        server.join_refusal(id, name) == Some(JoinError::UsernameTaken) <==> 1 <= encode_utf8(
            id,
        ).len() <= MAX_BROADCAST_ID_LEN && 1 <= encode_utf8(name).len() <= MAX_USERNAME_LEN
            && server.rooms.contains_key(id) && server.rooms[id].users.contains_key(name),
{
    law_lengths_are_in_bytes(id);
    law_lengths_are_in_bytes(name);
    if id.len() == 0 {
        assert(encode_utf8(id).len() == 0);
    }
    if name.len() == 0 {
        assert(encode_utf8(name).len() == 0);
    }
}

/// A user who has joined is a member of that room under that name, with that
/// connection; the other members stay. The room is active at `now`; its channel
/// and the time of its opening stay, and a room that was not there opens at `now`
/// over the channel with that key, with nothing said in it. Nothing else changes.
pub proof fn law_joining_adds_the_member(
    before: ServerView,
    id: Seq<char>,
    name: Seq<char>,
    user_id: Seq<char>,
    now: u128,
    key: int,
)
    ensures
        ({
            let after = before.joined(id, name, user_id, now, key);
            let room = after.rooms[id];
            &&& same_elsewhere(before, after, id)
            &&& after.rooms.contains_key(id)
            &&& room.last_activity == now
            &&& room.users.contains_key(name)
            &&& room.users[name] == user_id
            &&& before.rooms.contains_key(id) ==> {
                &&& room.users == before.rooms[id].users.insert(name, user_id)
                &&& room.created_at == before.rooms[id].created_at
                &&& room.channel == before.rooms[id].channel
            }
            &&& !before.rooms.contains_key(id) ==> {
                &&& room.users == Map::<Seq<char>, Seq<char>>::empty().insert(name, user_id)
                &&& room.created_at == now
                &&& room.channel == (ChannelView {
                    key,
                    capacity: CHANNEL_CAPACITY as nat,
                    posted: Seq::empty(),
                })
            }
        }),
{
}

/// Whoever joins subscribes to the channel of the room as it is: all that was said
/// there so far, and nothing in a room that was not there.
pub proof fn law_joining_subscribes_to_the_room(
    server: ServerView,
    id: Seq<char>,
    now: u128,
    key: int,
)
    ensures
        server.rooms.contains_key(id) ==> server.room_or_fresh(id, now, key)
            == server.rooms[id],
        !server.rooms.contains_key(id) ==> server.room_or_fresh(id, now, key) == (RoomView {
            users: Map::empty(),
            created_at: now,
            last_activity: now,
            channel: ChannelView { key, capacity: CHANNEL_CAPACITY as nat, posted: Seq::empty() },
        }),
        server.key_fits(id, key) <==> server.rooms.contains_key(id) || forall|other: Seq<char>|
            #[trigger] server.rooms.contains_key(other) ==> server.rooms[other].channel.key != key,
        server.speaks_over(id, key) <==> server.rooms.contains_key(id)
            && server.rooms[id].channel.key == key,
{
}

/// Whoever leaves is no member any more, and every other member stays, under the
/// same connection. The room stays, even without members, and is active at `now`;
/// what was said in it stays. Leaving a room that is not there changes nothing, and
/// no leaving changes another room.
pub proof fn law_leaving_removes_the_member(
    before: ServerView,
    id: Seq<char>,
    name: Seq<char>,
    now: u128,
)
    ensures
        ({
            let after = before.left(id, name, now);
            &&& same_elsewhere(before, after, id)
            &&& after.rooms.contains_key(id) == before.rooms.contains_key(id)
            &&& before.rooms.contains_key(id) ==> {
                &&& after.rooms[id].users == before.rooms[id].users.remove(name)
                &&& after.rooms[id].last_activity == now
                &&& after.rooms[id].created_at == before.rooms[id].created_at
                &&& after.rooms[id].channel == before.rooms[id].channel
            }
            &&& !before.rooms.contains_key(id) ==> after == before
        }),
{
}

/// Whoever has left a room can join it again under the same name, if the names
/// are proper ones.
pub proof fn law_left_name_is_free_again(
    before: ServerView,
    id: Seq<char>,
    name: Seq<char>,
    now: u128,
)
    requires
        1 <= encode_utf8(id).len() <= MAX_BROADCAST_ID_LEN,
        1 <= encode_utf8(name).len() <= MAX_USERNAME_LEN,
    ensures
        before.left(id, name, now).join_refusal(id, name) is None,
{
    law_joins_are_accepted(before.left(id, name, now), id, name);
}

/// Sending fails only where the room is not there or nobody listens in it. Where
/// somebody does, the message comes to be the last one said there, behind all the
/// earlier ones. Either way the room is active at `now` and its members and the
/// time of its opening stay, and no other room changes.
pub proof fn law_message_is_posted_where_somebody_listens(
    before: ServerView,
    id: Seq<char>,
    message: InternalMessageView,
    now: u128,
    attended: bool,
    result: Result<(), BroadcastError>,
    after: ServerView,
)
    requires
        before.broadcast(id, message, now, attended, result, after),
    ensures
        result is Ok <==> before.rooms.contains_key(id) && attended,
        result == Err::<(), BroadcastError>(BroadcastError::RoomNotFound)
            <==> !before.rooms.contains_key(id),
        (result matches Err(BroadcastError::SendFailed(cause)) && cause@ == "channel closed"@)
            <==> before.rooms.contains_key(id) && !attended,
        same_elsewhere(before, after, id),
        after.rooms.contains_key(id) == before.rooms.contains_key(id),
        before.rooms.contains_key(id) ==> {
            let was = before.rooms[id];
            let room = after.rooms[id];
            &&& room.last_activity == now
            &&& room.created_at == was.created_at
            &&& room.users == was.users
            &&& room.channel.key == was.channel.key
            &&& room.channel.capacity == was.channel.capacity
            &&& attended ==> room.channel.posted == was.channel.posted.push(message)
            &&& attended ==> room.channel.posted.last() == message
            &&& !attended ==> room.channel.posted == was.channel.posted
        },
{
    if before.rooms.contains_key(id) {
        assert(before.rooms[id].channel.posted.push(message).last() == message);
    }
}

/// A sweep keeps a room if and only if it was there and has a member or was active
/// within the last [`ROOM_TTL`], and leaves every room that it keeps as it was.
pub proof fn law_sweep_keeps_what_is_in_use(server: ServerView, now: u128, id: Seq<char>)
    ensures
        server.swept(now).rooms.contains_key(id) <==> server.rooms.contains_key(id) && (
        server.rooms[id].users.dom() != Set::<Seq<char>>::empty() || now
            <= server.rooms[id].last_activity + ROOM_TTL),
        server.swept(now).rooms.contains_key(id) ==> server.swept(now).rooms[id]
            == server.rooms[id],
        server.swept(now).shutdown == server.shutdown,
{
    let users = server.rooms[id].users;
    if users.is_empty() {
        assert(users.dom() =~= Set::empty());
    }
}

/// A tick of the cleanup timer on a server that is not shutting down is a sweep:
/// afterwards a room is there if and only if it was there before and was not both
/// without members and idle for longer than [`ROOM_TTL`], and it is as it was. On
/// a server that is shutting down, a tick changes nothing and is the last one.
pub proof fn law_tick_is_a_sweep(
    before: ServerView,
    now: u128,
    action: CleanupAction,
    after: ServerView,
    id: Seq<char>,
)
    requires
        before.tick(now, action, after),
    ensures
        action is Stop <==> before.shutdown,
        action is Stop ==> after == before,
        action is Swept ==> (Step::Sweep { now }).leads(before, after),
        action is Swept ==> after.shutdown == before.shutdown,
        action is Swept ==> (after.rooms.contains_key(id) <==> before.rooms.contains_key(id) && !(
        before.rooms[id].users.dom() == Set::<Seq<char>>::empty() && now
            > before.rooms[id].last_activity + ROOM_TTL)),
        after.rooms.contains_key(id) ==> after.rooms[id] == before.rooms[id],
{
    law_sweep_keeps_what_is_in_use(before, now, id);
}

/// A tick names the rooms that it has removed, each of them once, and nothing else.
/// Where rooms are left it gives their number and that of their members, and where
/// none is it gives no figures.
pub proof fn law_tick_tells_what_it_did(
    before: ServerView,
    now: u128,
    removed: Vec<String>,
    stats: Option<ServerStats>,
    after: ServerView,
)
    requires
        before.tick(now, CleanupAction::Swept { removed, stats }, after),
    ensures
        forall|i: int, j: int|
            0 <= i < j < removed@.len() ==> (#[trigger] removed@[i])@ != (#[trigger] removed@[j])@,
        forall|i: int|
            0 <= i < removed@.len() ==> before.rooms.contains_key((#[trigger] removed@[i])@)
                && !after.rooms.contains_key(removed@[i]@),
        forall|id: Seq<char>| #[trigger]
            before.rooms.contains_key(id) && !after.rooms.contains_key(id) ==> exists|i: int|
                0 <= i < removed@.len() && (#[trigger] removed@[i])@ == id,
        stats is Some <==> after.rooms.dom().len() > 0,
        stats matches Some(figures) ==> figures.total_rooms == after.rooms.dom().len(),
        stats matches Some(figures) ==> figures.total_users == user_total(after.rooms),
{
    let names = texts(removed@);
    let expired = expired_rooms(before.rooms, now);
    assert forall|i: int, j: int| 0 <= i < j < removed@.len() implies (#[trigger] removed@[i])@
        != (#[trigger] removed@[j])@ by {
        assert(names[i] != names[j]);
    }
    assert forall|i: int| 0 <= i < removed@.len() implies before.rooms.contains_key(
        (#[trigger] removed@[i])@,
    ) && !after.rooms.contains_key(removed@[i]@) by {
        assert(names.contains(names[i]));
        assert(names.to_set().contains(names[i]));
        assert(expired.contains(names[i]));
    }
    assert forall|id: Seq<char>| #[trigger]
        before.rooms.contains_key(id) && !after.rooms.contains_key(id) implies exists|i: int|
        0 <= i < removed@.len() && (#[trigger] removed@[i])@ == id by {
        assert(expired.contains(id));
        assert(names.to_set().contains(id));
        let i = choose|i: int| 0 <= i < names.len() && names[i] == id;
        assert(removed@[i]@ == id);
    }
}

/// The number of members in all rooms is none where there are no rooms, and one
/// more room adds just its members.
pub proof fn law_members_add_up(rooms: Map<Seq<char>, RoomView>, id: Seq<char>, room: RoomView)
    requires
        rooms.dom().finite(),
        !rooms.contains_key(id),
    ensures
        user_total(Map::empty()) == 0,
        user_total(rooms.insert(id, room)) == user_total(rooms) + room.users.dom().len(),
{
    let nobody = Map::<Seq<char>, RoomView>::empty();
    vstd::set::fold::lemma_fold_empty(
        0nat,
        |total: nat, id: Seq<char>| total + nobody[id].users.len(),
    );
    assert(nobody.dom() =~= Set::empty());
    lemma_user_total_insert(rooms, id, room);
}

/// A room is expired if and only if it has no members and more than [`ROOM_TTL`]
/// has passed since it was last active.
pub proof fn law_rooms_expire_empty_and_idle(room: RoomView, now: u128)
    ensures
        room.expired(now) <==> room.users.dom() == Set::<Seq<char>>::empty() && now
            > room.last_activity + ROOM_TTL,
{
    if room.users.is_empty() {
        assert(room.users.dom() =~= Set::empty());
    }
}

/// A text that takes at most [`MAX_MESSAGE_SIZE`] bytes is passed on unchanged to
/// be parsed as a join message, and a longer one is refused as too large. Nothing
/// else is passed on, and each way of not getting a text has an error of its own.
pub proof fn law_join_text_is_passed_on(event: JoinEvent, text: String)
    ensures
        join_text(JoinEvent::Text(text)) == Ok::<String, JoinReceiveError>(text) <==> encode_utf8(
            text@,
        ).len() <= MAX_MESSAGE_SIZE,
        join_text(JoinEvent::Text(text)) == Err::<String, JoinReceiveError>(
            JoinReceiveError::TooLarge,
        ) <==> encode_utf8(text@).len() > MAX_MESSAGE_SIZE,
        join_text(event) is Ok ==> event is Text,
        join_text(event) == Err::<String, JoinReceiveError>(JoinReceiveError::TimedOut)
            <==> event is TimedOut,
        join_text(event) == Err::<String, JoinReceiveError>(JoinReceiveError::Closed)
            <==> event is Closed,
        join_text(event) == Err::<String, JoinReceiveError>(JoinReceiveError::NotText)
            <==> event is NotText,
        join_text(event) == Err::<String, JoinReceiveError>(JoinReceiveError::Failed(text))
            <==> event == JoinEvent::Failed(text),
{
}

/// A join message that could be parsed is taken as it is, and a text that could
/// not is refused with the parser's reason.
pub proof fn law_parsed_join_is_taken(
    parsed: Result<JoinMessage, String>,
    message: JoinMessage,
    cause: String,
)
    ensures
        parsed_join(parsed) == Ok::<JoinMessage, JoinReceiveError>(message) <==> parsed == Ok::<
            JoinMessage,
            String,
        >(message),
        parsed_join(parsed) == Err::<JoinMessage, JoinReceiveError>(
            JoinReceiveError::InvalidFormat(cause),
        ) <==> parsed == Err::<JoinMessage, String>(cause),
        parsed is Err ==> parsed_join(parsed) is Err,
{
}

/// A text is let through to be parsed, unchanged, if and only if it takes at most
/// [`MAX_MESSAGE_SIZE`] bytes and comes no sooner than [`RATE_LIMIT_INTERVAL`] after
/// the last one let through. A longer one is rejected with its size, whenever it
/// comes, and any other as coming too soon. The reading stops with a close, a
/// failure or the end, and with nothing else; what else comes in is passed over.
pub proof fn law_texts_are_let_through(
    last: u128,
    event: IncomingEvent,
    now: u128,
    text: String,
    size: usize,
)
    ensures
        incoming_action(last, event, now) == IncomingAction::Parse(text) <==> event
            == IncomingEvent::Text(text) && encode_utf8(text@).len() <= MAX_MESSAGE_SIZE && now
            >= last + RATE_LIMIT_INTERVAL,
        encode_utf8(text@).len() == size ==> (incoming_action(
            last,
            IncomingEvent::Text(text),
            now,
        ) == IncomingAction::Reject(Rejection::TooLarge { size }) <==> size > MAX_MESSAGE_SIZE),
        incoming_action(last, IncomingEvent::Text(text), now) == IncomingAction::Reject(
            Rejection::RateLimited,
        ) <==> encode_utf8(text@).len() <= MAX_MESSAGE_SIZE && now < last + RATE_LIMIT_INTERVAL,
        incoming_action(last, event, now) is Reject ==> event is Text,
        incoming_action(last, event, now) is Stop <==> event is Close || event is Failed
            || event is Ended,
        incoming_action(last, event, now) is Ignore <==> event is Ping || event is Other,
{
}

/// A chat message that names the session's own user and room is sent there as it
/// is, under the session's connection, and is said if the room is there and anybody
/// listens. Any other message is rejected with the names in it, and a text that is
/// no chat message with the parser's reason; neither changes anything.
pub proof fn law_own_messages_are_said(
    session: SessionView,
    before: ServerView,
    parsed: Result<ChatMessage, String>,
    now: u128,
    attended: bool,
    outcome: MessageOutcome,
    after: ServerView,
)
    requires
        session.handled(before, parsed, now, attended, outcome, after),
    ensures
        outcome is Broadcast <==> (parsed matches Ok(message) && message.username@
            == session.username && message.broadcastid@ == session.broadcast_id),
        outcome is Rejected ==> after == before,
        parsed matches Err(cause) ==> outcome == MessageOutcome::Rejected(
            Rejection::InvalidFormat(cause),
        ),
        parsed matches Ok(message) ==> (message.username@ != session.username
            || message.broadcastid@ != session.broadcast_id) ==> outcome
            == MessageOutcome::Rejected(
            Rejection::ForeignFields {
                username: message.username,
                broadcastid: message.broadcastid,
            },
        ),
        outcome matches MessageOutcome::Broadcast(result) ==> {
            let id = session.broadcast_id;
            &&& result is Ok <==> before.rooms.contains_key(id) && attended
            &&& result == Err::<(), BroadcastError>(BroadcastError::RoomNotFound)
                <==> !before.rooms.contains_key(id)
            &&& same_elsewhere(before, after, id)
            &&& after.rooms.contains_key(id) == before.rooms.contains_key(id)
            &&& before.rooms.contains_key(id) ==> after.rooms[id].last_activity == now
                && after.rooms[id].users == before.rooms[id].users && after.rooms[id].created_at
                == before.rooms[id].created_at
            &&& before.rooms.contains_key(id) && !attended ==> after.rooms[id].channel
                == before.rooms[id].channel
        },
        outcome matches MessageOutcome::Broadcast(Ok(_)) ==> (parsed matches Ok(message)
            && after.rooms[session.broadcast_id].channel.posted
            == before.rooms[session.broadcast_id].channel.posted.push(
            InternalMessageView {
                message: ChatMessageView {
                    username: session.username,
                    broadcastid: session.broadcast_id,
                    payload: json(message.payload),
                },
                sender_id: session.user_id,
            },
        )),
{
    if let (Ok(message), MessageOutcome::Broadcast(result)) = (parsed, outcome) {
        law_message_is_posted_where_somebody_listens(
            before,
            session.broadcast_id,
            sent_by(message@, session.user_id),
            now,
            attended,
            result,
            after,
        );
    }
}

/// Whoever has entered a room is a member of it, and the last thing said there, in
/// the server's name, is that the user joined. What was said before stays before
/// it, and no other room changes.
pub proof fn law_entering_is_announced(
    session: SessionView,
    before: ServerView,
    now: u128,
    key: int,
)
    ensures
        ({
            let after = session.entered(before, now, key);
            let id = session.broadcast_id;
            let said = if before.rooms.contains_key(id) {
                before.rooms[id].channel.posted
            } else {
                Seq::empty()
            };
            &&& same_elsewhere(before, after, id)
            &&& after.rooms.contains_key(id)
            &&& after.rooms[id].last_activity == now
            &&& after.rooms[id].users.contains_key(session.username)
            &&& after.rooms[id].users[session.username] == session.user_id
            &&& before.rooms.contains_key(id) ==> after.rooms[id].users
                == before.rooms[id].users.insert(session.username, session.user_id)
                && after.rooms[id].created_at == before.rooms[id].created_at
                && after.rooms[id].channel.key == before.rooms[id].channel.key
                && after.rooms[id].channel.capacity == before.rooms[id].channel.capacity
            &&& !before.rooms.contains_key(id) ==> after.rooms[id].created_at == now
                && after.rooms[id].channel.key == key && after.rooms[id].channel.capacity
                == CHANNEL_CAPACITY && after.rooms[id].users == Map::<
                Seq<char>,
                Seq<char>,
            >::empty().insert(session.username, session.user_id)
            &&& after.rooms[id].channel.posted == said.push(joined_announcement(session))
        }),
{
}

/// Whoever disconnects is no member of the room any more, and the last thing said
/// there, in the server's name, is that the user left, if anybody listens. The
/// others stay, and no other room changes.
pub proof fn law_disconnecting_is_announced(
    session: SessionView,
    before: ServerView,
    now: u128,
    attended: bool,
    result: Result<(), BroadcastError>,
    after: ServerView,
)
    requires
        before.left(session.broadcast_id, session.username, now).broadcast(
            session.broadcast_id,
            left_announcement(session),
            now,
            attended,
            result,
            after,
        ),
    ensures
        ({
            let id = session.broadcast_id;
            &&& result is Ok <==> before.rooms.contains_key(id) && attended
            &&& same_elsewhere(before, after, id)
            &&& after.rooms.contains_key(id) == before.rooms.contains_key(id)
            &&& before.rooms.contains_key(id) ==> {
                &&& after.rooms[id].users == before.rooms[id].users.remove(session.username)
                &&& after.rooms[id].last_activity == now
                &&& after.rooms[id].created_at == before.rooms[id].created_at
                &&& after.rooms[id].channel.key == before.rooms[id].channel.key
                &&& after.rooms[id].channel.capacity == before.rooms[id].channel.capacity
                &&& attended ==> after.rooms[id].channel.posted
                    == before.rooms[id].channel.posted.push(left_announcement(session))
                &&& !attended ==> after.rooms[id].channel == before.rooms[id].channel
            }
        }),
{
}

/// Whether the payload is an object with just two members, its kind and its words.
pub open spec fn is_notice(payload: Json, kind: Seq<char>, words: Seq<char>) -> bool {
    &&& payload matches Json::Object(members)
    &&& forall|name: Seq<char>| #[trigger]
        members.contains_key(name) <==> name == "type"@ || name == "message"@
    &&& members["type"@] == Json::Text(kind)
    &&& members["message"@] == Json::Text(words)
}

/// A notice holds its kind and its words, and nothing else.
pub proof fn law_notices_hold_kind_and_words(kind: Seq<char>, words: Seq<char>)
    ensures
        is_notice(notice(kind, words), kind, words),
{
    reveal_strlit("type");
    reveal_strlit("message");
    assert("type"@.len() != "message"@.len());
}

/// An announcement comes from the user's own connection, but speaks in the server's
/// name in the user's room, and says who came or who went.
pub proof fn law_announcements_say_who(session: SessionView)
    ensures
        joined_announcement(session).sender_id == session.user_id,
        joined_announcement(session).message.username == "system"@,
        joined_announcement(session).message.broadcastid == session.broadcast_id,
        is_notice(
            joined_announcement(session).message.payload,
            "user_joined"@,
            session.username + " joined the chat"@,
        ),
        left_announcement(session).sender_id == session.user_id,
        left_announcement(session).message.username == "system"@,
        left_announcement(session).message.broadcastid == session.broadcast_id,
        is_notice(
            left_announcement(session).message.payload,
            "user_left"@,
            session.username + " left the chat"@,
        ),
{
    law_notices_hold_kind_and_words("user_joined"@, session.username + " joined the chat"@);
    law_notices_hold_kind_and_words("user_left"@, session.username + " left the chat"@);
}

/// A message says what its sender put into it: neither its way into a room nor the
/// server's own name on it changes a word.
pub proof fn law_messages_keep_their_words(
    message: ChatMessage,
    internal: InternalMessage,
    session: Session,
    id: Seq<char>,
    payload: Json,
    user_id: Seq<char>,
)
    ensures
        message@.username == message.username@,
        message@.broadcastid == message.broadcastid@,
        message@.payload == json(message.payload),
        internal@.message == internal.message@,
        internal@.sender_id == internal.sender_id@,
        sent_by(message@, user_id).message == message@,
        sent_by(message@, user_id).sender_id == user_id,
        system_message(id, payload).username == "system"@,
        system_message(id, payload).broadcastid == id,
        system_message(id, payload).payload == payload,
        session@.broadcast_id == session.broadcast_id@,
        session@.username == session.username@,
        session@.user_id == session.user_id@,
{
}

/// The sending side stops if and only if the room's channel or the queue has closed,
/// a text could not be put into the queue or could not be written to the client. A
/// message of another connection is turned into text, and one of its own is not; a
/// message that was turned into text is put into the queue with that very text, and
/// a text from the queue is written to the client.
pub proof fn law_sending_stops_only_on_failure(
    user_id: Seq<char>,
    event: OutgoingEvent,
    internal: InternalMessage,
    text: String,
)
    ensures
        outgoing_action(user_id, event) is Stop <==> event is ChannelClosed || event
            == OutgoingEvent::Dequeued(None) || event == OutgoingEvent::Enqueued(false) || event
            == OutgoingEvent::Written(false),
        outgoing_action(user_id, event) == OutgoingAction::Enqueue(text) <==> event
            == OutgoingEvent::Serialized(Some(text)),
        outgoing_action(user_id, event) == OutgoingAction::Write(text) <==> event
            == OutgoingEvent::Dequeued(Some(text)),
        outgoing_action(user_id, event) is Serialize ==> event is Received,
        outgoing_action(user_id, OutgoingEvent::Received(internal)) == OutgoingAction::Serialize(
            internal.message,
        ) <==> internal.sender_id@ != user_id,
        outgoing_action(user_id, OutgoingEvent::Received(internal)) is Wait
            <==> internal.sender_id@ == user_id,
{
}

/// Wherever the sending side of a connection has stopped, the last event was that
/// the room's channel or the queue had closed, or that a text could not be put into
/// the queue or written to the client; nothing happens after that. As long as none
/// of these comes, it goes on.
pub proof fn law_sending_goes_on(
    user_id: Seq<char>,
    writes: spec_fn(ChatMessageView) -> Option<Seq<char>>,
    trace: Seq<Sending>,
    events: Seq<OutgoingEvent>,
    i: int,
)
    requires
        is_sending(user_id, writes, trace, events),
        0 <= i < trace.len(),
    ensures
        trace[i].doing is Stop <==> i > 0 && (events[i - 1] is ChannelClosed || events[i - 1]
            == OutgoingEvent::Dequeued(None) || events[i - 1] == OutgoingEvent::Enqueued(false)
            || events[i - 1] == OutgoingEvent::Written(false)),
        trace[i].doing is Stop ==> i == events.len(),
{
    if i > 0 {
        assert(trace[i - 1].takes(user_id, writes, events[i - 1], trace[i - 1 + 1]));
    }
    if i < events.len() {
        assert(trace[i].takes(user_id, writes, events[i], trace[i + 1]));
    }
}

/// Each refusal of a user has its own words, and that of a taken name tells the name.
pub proof fn law_refusals_are_worded(username: Seq<char>)
    ensures
        JoinError::EmptyField.answer(username) == "Broadcast ID and username cannot be empty"@,
        JoinError::FieldTooLong.answer(username) == "Broadcast ID or username too long"@,
        JoinError::UsernameTaken.answer(username) == "Username '"@ + username
            + "' already exists in this broadcast"@,
{
}

/// Each error has its own words, and tells its cause where it has one.
pub proof fn law_errors_are_worded(cause: String)
    ensures
        BroadcastError::RoomNotFound.words() == "Broadcast room not found"@,
        BroadcastError::SendFailed(cause).words() == "Failed to broadcast message: "@ + cause@,
        JoinReceiveError::TimedOut.words() == "Timeout waiting for join message"@,
        JoinReceiveError::Closed.words() == "Connection closed before join message"@,
        JoinReceiveError::Failed(cause).words() == "WebSocket error: "@ + cause@,
        JoinReceiveError::TooLarge.words() == "Join message too large"@,
        JoinReceiveError::NotText.words() == "Expected text message for join"@,
        JoinReceiveError::InvalidFormat(cause).words() == "Invalid join message format: "@ + cause@,
{
}

} // verus!
