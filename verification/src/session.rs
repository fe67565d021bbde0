//! A member's session in a room: what comes in from the client.
use crate::channel::subscribed;
use crate::clock::{elapsed_since, time_between};
use crate::join::MAX_MESSAGE_SIZE;
use crate::message::{ChatMessage, ChatMessageView, InternalMessage};
use crate::server::{byte_len, sent_by, text_len, BroadcastError, ServerState, ServerView};
use tokio::sync::broadcast::Receiver;
use vstd::prelude::*;

verus! {

/// The shortest time between two messages of one connection: 100 ms.
pub const RATE_LIMIT_INTERVAL: u128 = 100_000_000;

/// Who speaks on a connection, and in which room.
#[derive(Debug)]
pub struct Session {
    pub broadcast_id: String,
    pub username: String,
    pub user_id: String,
}

/// A session's identity.
pub struct SessionView {
    pub broadcast_id: Seq<char>,
    pub username: Seq<char>,
    pub user_id: Seq<char>,
}

/// When a connection last got a message past the rate limit.
#[derive(Debug)]
pub struct RateLimiter {
    pub last_message_time: u128,
}

/// What came in on a connection.
#[derive(Debug)]
pub enum IncomingEvent {
    Text(String),
    Close,
    Ping,
    /// A binary message or a pong.
    Other,
    /// The connection failed.
    Failed(String),
    /// Nothing more will come.
    Ended,
}

/// Why a message of a client was dropped.
#[derive(Debug)]
pub enum Rejection {
    /// The text takes that many bytes.
    TooLarge { size: usize },
    RateLimited,
    InvalidFormat(String),
    /// The message names another user or another room.
    ForeignFields { username: String, broadcastid: String },
}

/// What to do about something that came in.
#[derive(Debug)]
pub enum IncomingAction {
    /// Parse the text as a chat message.
    Parse(String),
    /// Drop it, and go on.
    Reject(Rejection),
    /// Nothing, and go on.
    Ignore,
    /// Stop reading from the connection.
    Stop,
}

/// What a parsed text came to.
#[derive(Debug)]
pub enum MessageOutcome {
    Rejected(Rejection),
    Broadcast(Result<(), BroadcastError>),
}

impl View for Session {
    type V = SessionView;

    open spec fn view(&self) -> SessionView {
        SessionView {
            broadcast_id: self.broadcast_id@,
            username: self.username@,
            user_id: self.user_id@,
        }
    }
}

impl Clone for Session {
    fn clone(&self) -> (copy: Self)
        ensures
            copy@ == self@,
    {
        Session {
            broadcast_id: self.broadcast_id.clone(),
            username: self.username.clone(),
            user_id: self.user_id.clone(),
        }
    }
}

/// Whether a message at `now` comes too soon after the last one let through.
pub open spec fn too_soon(last: u128, now: u128) -> bool {
    time_between(last, now) < RATE_LIMIT_INTERVAL
}

/// What to do about something that comes in at `now`, when the last message
/// was let through at `last`.
pub open spec fn incoming_action(last: u128, event: IncomingEvent, now: u128) -> IncomingAction {
    match event {
        IncomingEvent::Text(text) => if byte_len(text@) > MAX_MESSAGE_SIZE {
            IncomingAction::Reject(Rejection::TooLarge { size: byte_len(text@) as usize })
        } else if too_soon(last, now) {
            IncomingAction::Reject(Rejection::RateLimited)
        } else {
            IncomingAction::Parse(text)
        },
        IncomingEvent::Close => IncomingAction::Stop,
        IncomingEvent::Ping => IncomingAction::Ignore,
        IncomingEvent::Other => IncomingAction::Ignore,
        IncomingEvent::Failed(_) => IncomingAction::Stop,
        IncomingEvent::Ended => IncomingAction::Stop,
    }
}

impl SessionView {
    /// Whether a chat message is one that this session may send.
    pub open spec fn owns(self, message: ChatMessageView) -> bool {
        message.username == self.username && message.broadcastid == self.broadcast_id
    }

    /// What became of the server when a text of this session was parsed at
    /// `now`, `attended` said whether anybody listened in the room, and the outcome
    /// was `outcome`.
    pub open spec fn handled(
        self,
        before: ServerView,
        parsed: Result<ChatMessage, String>,
        now: u128,
        attended: bool,
        outcome: MessageOutcome,
        after: ServerView,
    ) -> bool {
        match parsed {
            Err(cause) => outcome == MessageOutcome::Rejected(Rejection::InvalidFormat(cause))
                && after == before,
            Ok(message) => if self.owns(message@) {
                outcome matches MessageOutcome::Broadcast(result) && before.broadcast(
                    self.broadcast_id,
                    sent_by(message@, self.user_id),
                    now,
                    attended,
                    result,
                    after,
                )
            } else {
                outcome == MessageOutcome::Rejected(
                    Rejection::ForeignFields {
                        username: message.username,
                        broadcastid: message.broadcastid,
                    },
                ) && after == before
            },
        }
    }
}

impl RateLimiter {
    /// Takes what came in at `now`. Only a text that is to be parsed counts
    /// against the rate limit, and it counts whatever parsing comes to.
    pub fn handle_incoming(&mut self, event: IncomingEvent, now: u128) -> (action: IncomingAction)
        ensures
            action == incoming_action(old(self).last_message_time, event, now),
            final(self).last_message_time == (if action is Parse {
                now
            } else {
                old(self).last_message_time
            }),
    {
        match event {
            IncomingEvent::Text(text) => {
                let size = text_len(&text);
                if size > MAX_MESSAGE_SIZE {
                    return IncomingAction::Reject(Rejection::TooLarge { size });
                }
                if elapsed_since(self.last_message_time, now) < RATE_LIMIT_INTERVAL {
                    return IncomingAction::Reject(Rejection::RateLimited);
                }
                self.last_message_time = now;
                IncomingAction::Parse(text)
            },
            IncomingEvent::Close => IncomingAction::Stop,
            IncomingEvent::Ping => IncomingAction::Ignore,
            IncomingEvent::Other => IncomingAction::Ignore,
            IncomingEvent::Failed(_) => IncomingAction::Stop,
            IncomingEvent::Ended => IncomingAction::Stop,
        }
    }
}

impl Session {
    /// Takes what parsing a text as a chat message came to: a message that
    /// names this session's user and room is sent to the room, any other is
    /// dropped.
    pub fn handle_message(
        &self,
        state: &mut ServerState,
        parsed: Result<ChatMessage, String>,
        now: u128,
    ) -> (outcome: MessageOutcome)
        ensures
            self@.handled(
                old(state)@,
                parsed,
                now,
                old(state).attended(self@.broadcast_id),
                outcome,
                final(state)@,
            ),
    {
        self.handle_message_held(state, parsed, now, None)
    }

    /// Takes what parsing a text as a chat message came to. Whether anybody
    /// listens in the room is up to the tasks that hold the receivers; one of its
    /// channel that the caller holds in `held` settles it: a message that names
    /// this session's user and room is then sent.
    pub fn handle_message_held(
        &self,
        state: &mut ServerState,
        parsed: Result<ChatMessage, String>,
        now: u128,
        held: Option<&Receiver<InternalMessage>>,
    ) -> (outcome: MessageOutcome)
        ensures
            self@.handled(
                old(state)@,
                parsed,
                now,
                old(state).attended(self@.broadcast_id),
                outcome,
                final(state)@,
            ),
            held matches Some(receiver) ==> old(state)@.speaks_over(
                self@.broadcast_id,
                subscribed(*receiver).key,
            ) ==> (parsed matches Ok(message) && self@.owns(message@)) ==> (outcome matches
                MessageOutcome::Broadcast(result) && result is Ok),
    {
        match parsed {
            Err(cause) => MessageOutcome::Rejected(Rejection::InvalidFormat(cause)),
            Ok(message) => {
                if !(message.username == self.username) || !(message.broadcastid
                    == self.broadcast_id) {
                    return MessageOutcome::Rejected(
                        Rejection::ForeignFields {
                            username: message.username,
                            broadcastid: message.broadcastid,
                        },
                    );
                }
                MessageOutcome::Broadcast(
                    state.broadcast_held(&self.broadcast_id, message, &self.user_id, now, held),
                )
            },
        }
    }
}

} // verus!
