//! Broadcast rooms.
use crate::channel::{
    channel_state, hearing, open_channel, position, post, receive, subscribe, subscribed,
    ChannelView, Heard,
};
use crate::clock::{elapsed_since, time_between};
use crate::message::{InternalMessage, InternalMessageView};
use crate::registry::{rooms_in, unused_key};
use dashmap::DashMap;
use tokio::sync::broadcast::error::SendError;
use tokio::sync::broadcast::{Receiver, Sender};
use vstd::hash_map::StringHashMap;
use vstd::prelude::*;

verus! {

/// How long a room stays after it has fallen empty: 10 minutes.
pub const ROOM_TTL: u128 = 600_000_000_000;

/// How many messages a room's channel retains for a slow receiver.
pub const CHANNEL_CAPACITY: usize = 1000;

/// A user's connection, as the room knows it.
#[derive(Debug)]
pub struct UserConnection {
    pub user_id: String,
}

/// Broadcast room: who is in it, since when, and the channel that its
/// members listen on.
pub struct BroadcastRoom {
    users: StringHashMap<UserConnection>,
    created_at: u128,
    last_activity: u128,
    broadcast_sender: Sender<InternalMessage>,
}

/// A room's state.
#[verifier::ext_equal]
pub struct RoomView {
    /// The connection id of each member, by username.
    pub users: Map<Seq<char>, Seq<char>>,
    pub created_at: u128,
    pub last_activity: u128,
    pub channel: ChannelView,
}

/// A room, and whether anybody listens in it.
#[verifier::ext_equal]
pub struct RoomState {
    pub room: RoomView,
    /// Whether the room's channel has a live receiver when the next message is
    /// sent there.
    pub attended: bool,
}

/// The figures of a room that the periodic sweep goes by.
#[derive(Debug)]
pub struct RoomStatus {
    pub vacant: bool,
    pub user_count: usize,
    pub last_activity: u128,
}

impl RoomView {
    /// A room without members, opened at `now` over the channel with that key.
    pub open spec fn fresh(now: u128, key: int) -> RoomView {
        RoomView {
            users: Map::empty(),
            created_at: now,
            last_activity: now,
            channel: ChannelView::fresh(key, CHANNEL_CAPACITY as nat),
        }
    }

    /// The room with its last activity at `now`.
    pub open spec fn touched(self, now: u128) -> RoomView {
        RoomView { last_activity: now, ..self }
    }

    /// The room with one more member.
    pub open spec fn with_user(self, username: Seq<char>, user_id: Seq<char>) -> RoomView {
        RoomView { users: self.users.insert(username, user_id), ..self }
    }

    /// The room without that member.
    pub open spec fn without_user(self, username: Seq<char>) -> RoomView {
        RoomView { users: self.users.remove(username), ..self }
    }

    /// The room after one more message on its channel.
    pub open spec fn with_message(self, message: InternalMessageView) -> RoomView {
        RoomView { channel: self.channel.with(message), ..self }
    }

    /// Whether the room is empty and has been idle for longer than [`ROOM_TTL`].
    pub open spec fn expired(self, now: u128) -> bool {
        self.users.is_empty() && time_between(self.last_activity, now) > ROOM_TTL
    }
}

impl RoomStatus {
    /// Whether these are the figures of that room.
    pub open spec fn describes(self, room: RoomView) -> bool {
        &&& self.vacant == room.users.is_empty()
        &&& self.user_count == room.users.len()
        &&& self.last_activity == room.last_activity
    }

    /// Whether a room with these figures has expired.
    pub fn is_expired(&self, now: u128) -> (expired: bool)
        ensures
            expired == (self.vacant && time_between(self.last_activity, now) > ROOM_TTL),
    {
        self.vacant && elapsed_since(self.last_activity, now) > ROOM_TTL
    }
}

impl View for BroadcastRoom {
    type V = RoomView;

    closed spec fn view(&self) -> RoomView {
        RoomView {
            users: self.users@.map_values(|connection: UserConnection| connection.user_id@),
            created_at: self.created_at,
            last_activity: self.last_activity,
            channel: channel_state(self.broadcast_sender).channel,
        }
    }
}

impl BroadcastRoom {
    /// Whether the room's channel has a live receiver when the next message is
    /// sent there. That is up to the tasks that hold the receivers.
    pub closed spec fn attended(self) -> bool {
        channel_state(self.broadcast_sender).attended
    }

    /// The room, and whether anybody listens in it.
    pub open spec fn state(self) -> RoomState {
        RoomState { room: self@, attended: self.attended() }
    }

    /// Opens an empty room at `now`, with a channel of its own: none of the
    /// `others` speaks over it.
    pub fn new(now: u128, others: &DashMap<String, BroadcastRoom>) -> (room: Self)
        ensures
            room@ == RoomView::fresh(now, room@.channel.key),
            unused_key(rooms_in(*others), room@.channel.key),
    {
        let (broadcast_sender, _) = open_channel(CHANNEL_CAPACITY, others);
        let room = BroadcastRoom {
            users: StringHashMap::new(),
            created_at: now,
            last_activity: now,
            broadcast_sender,
        };
        assert(room@.users =~= Map::empty());
        room
    }

    /// Notes activity at `now`.
    pub fn update_activity(&mut self, now: u128)
        ensures
            final(self)@ == old(self)@.touched(now),
            final(self).attended() == old(self).attended(),
    {
        self.last_activity = now;
    }

    /// Whether the room is empty and has been idle for longer than [`ROOM_TTL`].
    pub fn is_expired(&self, now: u128) -> (expired: bool)
        ensures
            expired == self@.expired(now),
    {
        self.status().is_expired(now)
    }

    /// The figures that the periodic sweep goes by.
    pub fn status(&self) -> (status: RoomStatus)
        ensures
            status.describes(self@),
    {
        assert(self@.users.dom() =~= self.users@.dom());
        RoomStatus {
            vacant: self.users.is_empty(),
            user_count: self.users.len(),
            last_activity: self.last_activity,
        }
    }

    /// Whether a member goes by that name.
    pub fn has_user(&self, username: &str) -> (found: bool)
        ensures
            found == self@.users.contains_key(username@),
    {
        self.users.contains_key(username)
    }

    /// Subscribes to what is said in the room from now on.
    pub fn listen(&self) -> (receiver: Receiver<InternalMessage>)
        ensures
            subscribed(receiver) == self@.channel,
            position(receiver) == self@.channel.posted.len(),
    {
        subscribe(&self.broadcast_sender)
    }

    /// Looks for the next message that a receiver of this room has not heard
    /// yet, without waiting for one.
    pub fn hear(&self, receiver: &mut Receiver<InternalMessage>) -> (heard: Heard)
        ensures
            subscribed(*final(receiver)) == subscribed(*old(receiver)),
            subscribed(*old(receiver)).key == self@.channel.key ==> hearing(
                self@.channel,
                position(*old(receiver)),
                heard,
                position(*final(receiver)),
            ),
    {
        receive(receiver, &self.broadcast_sender)
    }

    /// Enters a member under a name, in place of any member of that name.
    pub fn add_user(&mut self, username: &str, connection: UserConnection)
        ensures
            final(self)@ == old(self)@.with_user(username@, connection.user_id@),
            final(self).attended() == old(self).attended(),
    {
        self.users.insert(username.to_owned(), connection);
        assert(self@.users =~= old(self)@.users.insert(username@, connection.user_id@));
    }

    /// Strikes out the member of that name, if there is one.
    pub fn remove_user(&mut self, username: &str)
        ensures
            final(self)@ == old(self)@.without_user(username@),
            final(self).attended() == old(self).attended(),
    {
        self.users.remove(username);
        assert(self@.users =~= old(self)@.users.remove(username@));
    }

    /// Sends a message on the room's channel, which takes it if a receiver is
    /// alive there and only then. That is up to the tasks that hold the receivers;
    /// one that the caller holds in `held` settles it.
    pub fn send(
        &mut self,
        message: InternalMessage,
        held: Option<&Receiver<InternalMessage>>,
    ) -> (sent: Result<usize, SendError<InternalMessage>>)
        ensures
            sent is Ok <==> old(self).attended(),
            sent is Ok ==> final(self)@ == old(self)@.with_message(message@),
            sent is Err ==> final(self)@ == old(self)@,
            sent matches Ok(receivers) ==> receivers > 0,
            held matches Some(receiver) ==> subscribed(*receiver).key == old(self)@.channel.key
                ==> sent is Ok,
    {
        post(&mut self.broadcast_sender, message, held)
    }
}

} // verus!
