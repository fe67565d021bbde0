//! The server's state: its rooms, and whether it is shutting down.
use crate::channel::{hearing, position, send_error_text, subscribed, Heard};
use crate::message::{ChatMessage, ChatMessageView, InternalMessage, InternalMessageView};
use crate::payload::{json, Json};
use crate::registry::{
    count_rooms, list_rooms, new_table, put_room, rooms_in, table, take_room, unused_key, view_room,
};
use crate::room::{BroadcastRoom, RoomStatus, RoomView, UserConnection};
use dashmap::DashMap;
use tokio::sync::broadcast::error::SendError;
use tokio::sync::broadcast::Receiver;
use vstd::prelude::*;
use vstd::utf8::encode_utf8;

verus! {

/// The longest broadcast id, in bytes.
pub const MAX_BROADCAST_ID_LEN: usize = 100;

/// The longest username, in bytes.
pub const MAX_USERNAME_LEN: usize = 50;

/// How often expired rooms are looked for, in seconds.
pub const CLEANUP_INTERVAL_SECS: u64 = 60;

/// Global server state.
pub struct ServerState {
    rooms: DashMap<String, BroadcastRoom>,
    shutdown: bool,
}

/// The server's state: the rooms by their ids, and the shutdown flag.
#[verifier::ext_equal]
pub struct ServerView {
    pub rooms: Map<Seq<char>, RoomView>,
    pub shutdown: bool,
}

/// Why a user was not let into a room.
#[derive(Debug, Clone, Copy, PartialEq, Eq, Structural)]
pub enum JoinError {
    EmptyField,
    FieldTooLong,
    UsernameTaken,
}

/// Why a message did not reach a room's channel.
#[derive(Debug)]
pub enum BroadcastError {
    RoomNotFound,
    SendFailed(String),
}

/// Figures on the whole server.
#[derive(Debug, Clone, Copy, PartialEq, Eq, Structural)]
pub struct ServerStats {
    pub total_rooms: usize,
    pub total_users: u128,
}

/// What a tick of the cleanup timer comes to.
#[derive(Debug)]
pub enum CleanupAction {
    /// The server is shutting down: no more sweeps.
    Stop,
    /// The rooms with these ids were removed. Where rooms remain, their figures.
    Swept { removed: Vec<String>, stats: Option<ServerStats> },
}

/// The number of bytes that a text takes in UTF-8.
pub open spec fn byte_len(text: Seq<char>) -> nat {
    encode_utf8(text).len()
}

/// The chat message that the server itself says in a room.
pub open spec fn system_message(broadcast_id: Seq<char>, payload: Json) -> ChatMessageView {
    ChatMessageView { username: "system"@, broadcastid: broadcast_id, payload }
}

/// A chat message under way from the connection with that id.
pub open spec fn sent_by(message: ChatMessageView, sender_id: Seq<char>) -> InternalMessageView {
    InternalMessageView { message, sender_id }
}

/// The ids of the rooms that have expired by `now`.
pub open spec fn expired_rooms(rooms: Map<Seq<char>, RoomView>, now: u128) -> Set<Seq<char>> {
    rooms.dom().filter(|id: Seq<char>| rooms[id].expired(now))
}

/// The number of members of all rooms together.
pub open spec fn user_total(rooms: Map<Seq<char>, RoomView>) -> nat {
    rooms.dom().fold(0, |total: nat, id: Seq<char>| total + rooms[id].users.len())
}

/// The texts, by their characters.
pub open spec fn texts(strings: Seq<String>) -> Seq<Seq<char>> {
    strings.map_values(|text: String| text@)
}

/// Whether the list names each member of the set once, and nothing else.
pub open spec fn enumerates(list: Seq<String>, set: Set<Seq<char>>) -> bool {
    texts(list).no_duplicates() && texts(list).to_set() == set
}

/// Whether the list names each room once, with its figures.
spec fn listing(listed: Seq<(String, RoomStatus)>, rooms: Map<Seq<char>, RoomView>) -> bool {
    &&& forall|i: int, j: int|
        0 <= i < j < listed.len() ==> (#[trigger] listed[i]).0@ != (#[trigger] listed[j]).0@
    &&& forall|i: int|
        0 <= i < listed.len() ==> rooms.contains_key((#[trigger] listed[i]).0@)
            && listed[i].1.describes(rooms[listed[i].0@])
    &&& forall|id: Seq<char>| #[trigger]
        rooms.contains_key(id) ==> exists|i: int|
            0 <= i < listed.len() && (#[trigger] listed[i]).0@ == id
}

/// What a list names once one more is added to it.
proof fn lemma_push_contains<A>(list: Seq<A>, item: A)
    ensures
        forall|other: A| #[trigger]
            list.push(item).contains(other) <==> list.contains(other) || other == item,
{
    assert forall|other: A| #[trigger] list.push(item).contains(other) <==> list.contains(other)
        || other == item by {
        if list.contains(other) {
            let i = choose|i: int| 0 <= i < list.len() && list[i] == other;
            assert(list.push(item)[i] == other);
        }
        assert(list.push(item)[list.len() as int] == item);
    }
}

impl ServerView {
    /// Why the server would refuse that user in that room, if it would.
    pub open spec fn join_refusal(self, broadcast_id: Seq<char>, username: Seq<char>) -> Option<
        JoinError,
    > {
        if broadcast_id.len() == 0 || username.len() == 0 {
            Some(JoinError::EmptyField)
        } else if byte_len(broadcast_id) > MAX_BROADCAST_ID_LEN || byte_len(username)
            > MAX_USERNAME_LEN {
            Some(JoinError::FieldTooLong)
        } else if self.rooms.contains_key(broadcast_id)
            && self.rooms[broadcast_id].users.contains_key(username) {
            Some(JoinError::UsernameTaken)
        } else {
            None
        }
    }

    /// The room with that id, or the one that opens at `now` over the channel
    /// with that key where there is none.
    pub open spec fn room_or_fresh(self, broadcast_id: Seq<char>, now: u128, key: int) -> RoomView {
        if self.rooms.contains_key(broadcast_id) {
            self.rooms[broadcast_id]
        } else {
            RoomView::fresh(now, key)
        }
    }

    /// Whether the room with that id is there, or can open over the channel with
    /// that key because no other room has it.
    pub open spec fn key_fits(self, broadcast_id: Seq<char>, key: int) -> bool {
        self.rooms.contains_key(broadcast_id) || unused_key(self.rooms, key)
    }

    /// Whether the room with that id is there, over the channel with that key.
    pub open spec fn speaks_over(self, broadcast_id: Seq<char>, key: int) -> bool {
        self.rooms.contains_key(broadcast_id) && self.rooms[broadcast_id].channel.key == key
    }

    /// The state with that room in place.
    pub open spec fn with_room(self, broadcast_id: Seq<char>, room: RoomView) -> ServerView {
        ServerView { rooms: self.rooms.insert(broadcast_id, room), ..self }
    }

    /// The state once the user is in the room, which opens at `now` over the
    /// channel with that key where there was none.
    pub open spec fn joined(
        self,
        broadcast_id: Seq<char>,
        username: Seq<char>,
        user_id: Seq<char>,
        now: u128,
        key: int,
    ) -> ServerView {
        self.with_room(
            broadcast_id,
            self.room_or_fresh(broadcast_id, now, key).with_user(username, user_id).touched(now),
        )
    }

    /// The state once no member of the room goes by that name.
    pub open spec fn left(
        self,
        broadcast_id: Seq<char>,
        username: Seq<char>,
        now: u128,
    ) -> ServerView {
        if self.rooms.contains_key(broadcast_id) {
            self.with_room(
                broadcast_id,
                self.rooms[broadcast_id].without_user(username).touched(now),
            )
        } else {
            self
        }
    }

    /// The state with activity at `now` in the room.
    pub open spec fn touched(self, broadcast_id: Seq<char>, now: u128) -> ServerView {
        self.with_room(broadcast_id, self.rooms[broadcast_id].touched(now))
    }

    /// The state once the message was sent in the room at `now`.
    pub open spec fn said(
        self,
        broadcast_id: Seq<char>,
        message: InternalMessageView,
        now: u128,
    ) -> ServerView {
        self.with_room(broadcast_id, self.rooms[broadcast_id].with_message(message).touched(now))
    }

    /// The state without the rooms that have expired by `now`.
    pub open spec fn swept(self, now: u128) -> ServerView {
        ServerView { rooms: self.rooms.remove_keys(expired_rooms(self.rooms, now)), ..self }
    }

    /// What became of the server when a message for the room was sent at `now`,
    /// `attended` said whether anybody listened there, and the answer was `result`.
    pub open spec fn broadcast(
        self,
        broadcast_id: Seq<char>,
        message: InternalMessageView,
        now: u128,
        attended: bool,
        result: Result<(), BroadcastError>,
        after: ServerView,
    ) -> bool {
        match result {
            Ok(_) => self.rooms.contains_key(broadcast_id) && attended && after == self.said(
                broadcast_id,
                message,
                now,
            ),
            Err(BroadcastError::RoomNotFound) => !self.rooms.contains_key(broadcast_id) && after
                == self,
            Err(BroadcastError::SendFailed(cause)) => self.rooms.contains_key(broadcast_id)
                && !attended && cause@ == "channel closed"@ && after == self.touched(
                broadcast_id,
                now,
            ),
        }
    }
}

impl ServerView {
    /// What became of the server on a tick of the cleanup timer at `now` that
    /// came to `action`.
    pub open spec fn tick(self, now: u128, action: CleanupAction, after: ServerView) -> bool {
        match action {
            CleanupAction::Stop => self.shutdown && after == self,
            CleanupAction::Swept { removed, stats } => {
                &&& !self.shutdown
                &&& after == self.swept(now)
                &&& enumerates(removed@, expired_rooms(self.rooms, now))
                &&& stats is Some <==> after.rooms.len() > 0
                &&& stats matches Some(figures) ==> figures.total_rooms == after.rooms.len()
                    && figures.total_users == user_total(after.rooms)
            },
        }
    }
}

impl JoinError {
    /// The answer to a user who asked for that name.
    pub open spec fn answer(self, username: Seq<char>) -> Seq<char> {
        match self {
            JoinError::EmptyField => "Broadcast ID and username cannot be empty"@,
            JoinError::FieldTooLong => "Broadcast ID or username too long"@,
            JoinError::UsernameTaken => "Username '"@ + username
                + "' already exists in this broadcast"@,
        }
    }

    /// Words the answer to a user who asked for that name.
    pub fn message(&self, username: &str) -> (text: String)
        ensures
            text@ == self.answer(username@),
    {
        match self {
            JoinError::EmptyField => "Broadcast ID and username cannot be empty".to_owned(),
            JoinError::FieldTooLong => "Broadcast ID or username too long".to_owned(),
            JoinError::UsernameTaken => "Username '".to_owned().concat(username).concat(
                "' already exists in this broadcast",
            ),
        }
    }
}

impl BroadcastError {
    /// The error in words.
    pub open spec fn words(self) -> Seq<char> {
        match self {
            BroadcastError::RoomNotFound => "Broadcast room not found"@,
            BroadcastError::SendFailed(cause) => "Failed to broadcast message: "@ + cause@,
        }
    }

    /// Words the error.
    pub fn message(&self) -> (text: String)
        ensures
            text@ == self.words(),
    {
        match self {
            BroadcastError::RoomNotFound => "Broadcast room not found".to_owned(),
            BroadcastError::SendFailed(cause) => "Failed to broadcast message: ".to_owned().concat(
                cause,
            ),
        }
    }
}

/// Counts the bytes that a text takes in UTF-8.
pub fn text_len(text: &str) -> (len: usize)
    ensures
        len == byte_len(text@),
{
    text.as_bytes().len()
}

/// What sending on a room's channel comes to for the one who sent.
pub fn broadcast_result(sent: Result<usize, SendError<InternalMessage>>) -> (result: Result<
    (),
    BroadcastError,
>)
    ensures
        sent is Ok ==> result is Ok,
        sent is Err ==> (result matches Err(BroadcastError::SendFailed(cause)) && cause@
            == "channel closed"@),
{
    match sent {
        Ok(_) => Ok(()),
        Err(error) => Err(BroadcastError::SendFailed(send_error_text(&error))),
    }
}

impl View for ServerState {
    type V = ServerView;

    closed spec fn view(&self) -> ServerView {
        ServerView { rooms: rooms_in(self.rooms), shutdown: self.shutdown }
    }
}

impl ServerState {
    /// Whether the channel of the room with that id has a live receiver when the
    /// next message is sent there. That is up to the tasks that hold the receivers.
    pub closed spec fn attended(self, broadcast_id: Seq<char>) -> bool {
        table(self.rooms)[broadcast_id].attended
    }

    /// A server without rooms, not shutting down.
    pub fn new() -> (state: Self)
        ensures
            state@ == (ServerView { rooms: Map::empty(), shutdown: false }),
    {
        let state = ServerState { rooms: new_table(), shutdown: false };
        assert(state@.rooms =~= Map::empty());
        state
    }

    /// Joins a user to a broadcast room, which opens if there is none with that
    /// id, and subscribes the user to what is said there from then on.
    pub fn join_room(
        &mut self,
        broadcast_id: &str,
        username: &str,
        connection: UserConnection,
        now: u128,
    ) -> (result: Result<Receiver<InternalMessage>, JoinError>)
        ensures
            match old(self)@.join_refusal(broadcast_id@, username@) {
                Some(error) => result == Err::<Receiver<InternalMessage>, JoinError>(error)
                    && final(self)@ == old(self)@,
                None => result matches Ok(receiver) && final(self)@ == old(self)@.joined(
                    broadcast_id@,
                    username@,
                    connection.user_id@,
                    now,
                    subscribed(receiver).key,
                ) && subscribed(receiver) == final(self)@.rooms[broadcast_id@].channel
                    && position(receiver) == subscribed(receiver).posted.len()
                    && old(self)@.key_fits(broadcast_id@, subscribed(receiver).key),
            },
    {
        if broadcast_id.is_empty() || username.is_empty() {
            return Err(JoinError::EmptyField);
        }
        if text_len(broadcast_id) > MAX_BROADCAST_ID_LEN || text_len(username) > MAX_USERNAME_LEN {
            return Err(JoinError::FieldTooLong);
        }
        let mut room = match take_room(&mut self.rooms, broadcast_id) {
            Some((_, room)) => room,
            None => {
                assert(self@.rooms =~= old(self)@.rooms);
                BroadcastRoom::new(now, &self.rooms)
            },
        };
        if room.has_user(username) {
            put_room(&mut self.rooms, broadcast_id.to_owned(), room);
            assert(self@.rooms =~= old(self)@.rooms);
            return Err(JoinError::UsernameTaken);
        }
        let receiver = room.listen();
        room.add_user(username, connection);
        room.update_activity(now);
        put_room(&mut self.rooms, broadcast_id.to_owned(), room);
        assert(self@.rooms =~= old(self)@.joined(
            broadcast_id@,
            username@,
            connection.user_id@,
            now,
            subscribed(receiver).key,
        ).rooms);
        Ok(receiver)
    }

    /// Removes a user from a broadcast room. A room that falls empty stays
    /// until it expires.
    pub fn leave_room(&mut self, broadcast_id: &str, username: &str, now: u128)
        ensures
            final(self)@ == old(self)@.left(broadcast_id@, username@, now),
            final(self).attended(broadcast_id@) == old(self).attended(broadcast_id@),
    {
        match take_room(&mut self.rooms, broadcast_id) {
            Some((id, mut room)) => {
                room.remove_user(username);
                room.update_activity(now);
                put_room(&mut self.rooms, id, room);
            },
            None => {},
        }
        assert(self@.rooms =~= old(self)@.left(broadcast_id@, username@, now).rooms);
        assert(!old(self)@.rooms.contains_key(broadcast_id@) ==> table(self.rooms) =~= table(
            old(self).rooms,
        ));
    }

    /// Sends a message to all members of a room. Whether the room's channel has
    /// a live receiver is up to the tasks that hold the receivers; one that the
    /// caller holds in `held` settles it.
    pub fn broadcast_held(
        &mut self,
        broadcast_id: &str,
        message: ChatMessage,
        sender_id: &str,
        now: u128,
        held: Option<&Receiver<InternalMessage>>,
    ) -> (result: Result<(), BroadcastError>)
        ensures
            old(self)@.broadcast(
                broadcast_id@,
                sent_by(message@, sender_id@),
                now,
                old(self).attended(broadcast_id@),
                result,
                final(self)@,
            ),
            held matches Some(receiver) ==> old(self)@.speaks_over(
                broadcast_id@,
                subscribed(*receiver).key,
            ) ==> result is Ok,
    {
        let result = match take_room(&mut self.rooms, broadcast_id) {
            Some((id, mut room)) => {
                room.update_activity(now);
                let sent = room.send(
                    InternalMessage { message, sender_id: sender_id.to_owned() },
                    held,
                );
                put_room(&mut self.rooms, id, room);
                broadcast_result(sent)
            },
            None => Err(BroadcastError::RoomNotFound),
        };
        assert(result is Ok ==> self@.rooms =~= old(self)@.said(
            broadcast_id@,
            sent_by(message@, sender_id@),
            now,
        ).rooms);
        assert(!old(self)@.rooms.contains_key(broadcast_id@) ==> self@.rooms =~= old(self)@.rooms);
        assert(result matches Err(BroadcastError::SendFailed(_)) ==> self@.rooms
            =~= old(self)@.touched(broadcast_id@, now).rooms);
        result
    }

    /// Sends a message to all members of a room.
    pub fn broadcast_message(
        &mut self,
        broadcast_id: &str,
        message: ChatMessage,
        sender_id: &str,
        now: u128,
    ) -> (result: Result<(), BroadcastError>)
        ensures
            old(self)@.broadcast(
                broadcast_id@,
                sent_by(message@, sender_id@),
                now,
                old(self).attended(broadcast_id@),
                result,
                final(self)@,
            ),
    {
        self.broadcast_held(broadcast_id, message, sender_id, now, None)
    }

    /// Sends a system message to all members of a room.
    pub fn broadcast_system_message(
        &mut self,
        broadcast_id: &str,
        payload: serde_json::Value,
        sender_id: &str,
        now: u128,
        held: Option<&Receiver<InternalMessage>>,
    ) -> (result: Result<(), BroadcastError>)
        ensures
            old(self)@.broadcast(
                broadcast_id@,
                sent_by(system_message(broadcast_id@, json(payload)), sender_id@),
                now,
                old(self).attended(broadcast_id@),
                result,
                final(self)@,
            ),
            held matches Some(receiver) ==> old(self)@.speaks_over(
                broadcast_id@,
                subscribed(*receiver).key,
            ) ==> result is Ok,
    {
        let message = ChatMessage {
            username: "system".to_owned(),
            broadcastid: broadcast_id.to_owned(),
            payload,
        };
        self.broadcast_held(broadcast_id, message, sender_id, now, held)
    }

    /// Looks for the next message that a receiver has not heard yet in the room
    /// with that id; nothing where there is no such room. The call does not wait
    /// for a message: a task that wants to wait does so on the receiver itself.
    pub fn hear(
        &mut self,
        broadcast_id: &str,
        receiver: &mut Receiver<InternalMessage>,
    ) -> (heard: Option<Heard>)
        ensures
            final(self)@ == old(self)@,
            subscribed(*final(receiver)) == subscribed(*old(receiver)),
            heard is Some <==> old(self)@.rooms.contains_key(broadcast_id@),
            heard is None ==> position(*final(receiver)) == position(*old(receiver)),
            heard matches Some(found) ==> old(self)@.speaks_over(
                broadcast_id@,
                subscribed(*old(receiver)).key,
            ) ==> hearing(
                old(self)@.rooms[broadcast_id@].channel,
                position(*old(receiver)),
                found,
                position(*final(receiver)),
            ),
    {
        let heard = match take_room(&mut self.rooms, broadcast_id) {
            Some((id, room)) => {
                let heard = room.hear(receiver);
                put_room(&mut self.rooms, id, room);
                Some(heard)
            },
            None => None,
        };
        assert(self@.rooms =~= old(self)@.rooms);
        heard
    }

    /// Removes the rooms that have expired by `now`, and says which they were.
    pub fn remove_expired_rooms(&mut self, now: u128) -> (removed: Vec<String>)
        ensures
            final(self)@ == old(self)@.swept(now),
            enumerates(removed@, expired_rooms(old(self)@.rooms, now)),
    {
        let listed = list_rooms(&self.rooms);
        let mut removed: Vec<String> = Vec::new();
        let ghost rooms = self@.rooms;
        assert(rooms.remove_keys(Set::empty()) =~= rooms);
        for i in 0..listed.len()
            invariant
                listing(listed@, rooms),
                self@.shutdown == old(self)@.shutdown,
                self@.rooms == rooms.remove_keys(texts(removed@).to_set()),
                texts(removed@).no_duplicates(),
                forall|id: Seq<char>| #[trigger]
                    texts(removed@).contains(id) <==> exists|k: int|
                        0 <= k < i && (#[trigger] listed@[k]).0@ == id && rooms[id].expired(now),
        {
            if listed[i].1.is_expired(now) {
                let id = listed[i].0.clone();
                let ghost before = removed@;
                let ghost left = self@.rooms;
                take_room(&mut self.rooms, &id);
                removed.push(id);
                proof {
                    assert(texts(removed@) =~= texts(before).push(id@));
                    assert(!texts(before).contains(id@));
                    lemma_push_contains(texts(before), id@);
                    assert(self@.rooms =~= left.remove(id@));
                    assert(left.remove(id@) =~= rooms.remove_keys(texts(removed@).to_set()));
                }
            }
        }
        proof {
            let expired = expired_rooms(rooms, now);
            assert(texts(removed@).to_set() =~= expired);
            assert(self@ =~= old(self)@.swept(now));
        }
        removed
    }

    /// The number of members of the room with that id, if there is such a room.
    pub fn room_size(&self, broadcast_id: &str) -> (size: Option<usize>)
        ensures
            size is Some <==> self@.rooms.contains_key(broadcast_id@),
            size matches Some(count) ==> count == self@.rooms[broadcast_id@].users.len(),
    {
        match view_room(&self.rooms, broadcast_id) {
            Some(status) => Some(status.user_count),
            None => None,
        }
    }

    /// Figures on the whole server.
    pub fn stats(&self) -> (stats: ServerStats)
        ensures
            stats.total_rooms == self@.rooms.len(),
            stats.total_users == user_total(self@.rooms),
    {
        let total_rooms = count_rooms(&self.rooms);
        assert(self@.rooms.dom() =~= table(self.rooms).dom());
        let listed = list_rooms(&self.rooms);
        let mut total_users: u128 = 0;
        let ghost rooms = self@.rooms;
        let ghost add_users = |total: nat, id: Seq<char>| total + rooms[id].users.len();
        let ghost mut visited = Set::<Seq<char>>::empty();
        proof {
            vstd::set::fold::lemma_fold_empty(0nat, add_users);
        }
        for i in 0..listed.len()
            invariant
                listing(listed@, rooms),
                add_users == (|total: nat, id: Seq<char>| total + rooms[id].users.len()),
                visited.finite(),
                forall|id: Seq<char>| #[trigger]
                    visited.contains(id) <==> exists|k: int|
                        0 <= k < i && (#[trigger] listed@[k]).0@ == id,
                total_users == visited.fold(0, add_users),
                total_users <= i * usize::MAX,
        {
            let ghost id = listed@[i as int].0@;
            proof {
                assert(!visited.contains(id));
                vstd::set::fold::lemma_fold_insert(visited, 0nat, add_users, id);
                assert(i * usize::MAX + usize::MAX <= u128::MAX) by (nonlinear_arith)
                    requires
                        i < usize::MAX,
                        usize::MAX <= u64::MAX,
                ;
                assert((i + 1) * usize::MAX == i * usize::MAX + usize::MAX) by (nonlinear_arith);
                visited = visited.insert(id);
            }
            total_users = total_users + listed[i].1.user_count as u128;
        }
        assert(visited =~= rooms.dom());
        ServerStats { total_rooms, total_users }
    }

    /// A tick of the cleanup timer at `now`: unless the server is shutting
    /// down, removes the expired rooms and takes the figures of the rest.
    pub fn cleanup_expired_rooms(&mut self, now: u128) -> (action: CleanupAction)
        ensures
            old(self)@.tick(now, action, final(self)@),
    {
        if self.shutdown {
            return CleanupAction::Stop;
        }
        let removed = self.remove_expired_rooms(now);
        let figures = self.stats();
        let stats = if figures.total_rooms > 0 {
            Some(figures)
        } else {
            None
        };
        CleanupAction::Swept { removed, stats }
    }

    /// Starts the shutdown.
    pub fn begin_shutdown(&mut self)
        ensures
            final(self)@ == (ServerView { shutdown: true, ..old(self)@ }),
    {
        self.shutdown = true;
    }
}

} // verus!
