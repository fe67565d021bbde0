//! A connection's way through the server: it opens, asks to join a room, and
//! in the end leaves it.
use crate::channel::{position, subscribed};
use crate::join::JoinReceiveError;
use crate::message::{InternalMessage, InternalMessageView, JoinMessage};
use crate::payload::{joined_notice, joined_payload, left_notice, left_payload};
use crate::room::UserConnection;
use crate::server::{
    sent_by, system_message, BroadcastError, ServerState, ServerView,
};
use crate::session::{RateLimiter, Session, SessionView};
use tokio::sync::broadcast::Receiver;
use vstd::prelude::*;

verus! {

/// The status code of a normal closure.
pub const CLOSE_NORMAL: u16 = 1000;

/// A connection that has not joined a room yet.
#[derive(Debug)]
pub struct Connection {
    pub user_id: String,
}

/// The frame with which the server closes a connection.
#[derive(Debug)]
pub struct CloseFrame {
    pub code: u16,
    pub reason: String,
}

/// What a request to join came to.
pub enum JoinOutcome {
    /// Close the connection with this frame.
    Refused(CloseFrame),
    /// The user is in the room, and everyone there is told so.
    Joined { session: Session, limiter: RateLimiter, receiver: Receiver<InternalMessage> },
}

/// Whether the text is a random (version 4) UUID, hyphenated and in lower case.
pub open spec fn is_random_uuid(text: Seq<char>) -> bool {
    &&& text.len() == 36
    &&& forall|i: int|
        0 <= i < 36 ==> {
            let c = #[trigger] text[i];
            if i == 8 || i == 13 || i == 18 || i == 23 {
                c == '-'
            } else if i == 14 {
                c == '4'
            } else if i == 19 {
                c == '8' || c == '9' || c == 'a' || c == 'b'
            } else {
                '0' <= c <= '9' || 'a' <= c <= 'f'
            }
        }
}

/// `uuid::Uuid::new_v4` draws a random UUID from the operating system's
/// source of randomness, and `Display` writes it hyphenated in lower case.
/// Beyond its shape nothing is stated of the text: it is up to chance. A system
/// without a working source of randomness makes the call panic, which no argument
/// could rule out.
#[verifier::external_body]
fn random_uuid() -> (text: String)
    ensures
        is_random_uuid(text@),
{
    uuid::Uuid::new_v4().to_string()
}

/// The announcement that a session has joined its room.
pub open spec fn joined_announcement(session: SessionView) -> InternalMessageView {
    sent_by(
        system_message(session.broadcast_id, joined_notice(session.username)),
        session.user_id,
    )
}

/// The announcement that a session has left its room.
pub open spec fn left_announcement(session: SessionView) -> InternalMessageView {
    sent_by(
        system_message(session.broadcast_id, left_notice(session.username)),
        session.user_id,
    )
}

impl SessionView {
    /// The server once the session is in its room, which opens at `now` over
    /// the channel with that key where there was none, and was announced there.
    pub open spec fn entered(self, before: ServerView, now: u128, key: int) -> ServerView {
        before.joined(self.broadcast_id, self.username, self.user_id, now, key).said(
            self.broadcast_id,
            joined_announcement(self),
            now,
        )
    }
}

impl Connection {
    /// Opens a connection under a random id.
    pub fn open() -> (connection: Self)
        ensures
            is_random_uuid(connection.user_id@),
    {
        Connection { user_id: random_uuid() }
    }

    /// Takes the join message, or the reason why there is none. Where the user
    /// cannot be let in, the connection is to be closed and nothing changes;
    /// otherwise the user is in the room, subscribed to it and announced there.
    pub fn handle_join(
        self,
        state: &mut ServerState,
        request: Result<JoinMessage, JoinReceiveError>,
        now: u128,
    ) -> (outcome: JoinOutcome)
        ensures
            match request {
                Err(_) => {
                    &&& outcome matches JoinOutcome::Refused(frame)
                    &&& frame.code == CLOSE_NORMAL
                    &&& frame.reason@ == "Invalid join message"@
                    &&& final(state)@ == old(state)@
                },
                Ok(message) => match old(state)@.join_refusal(
                    message.broadcastid@,
                    message.username@,
                ) {
                    Some(error) => {
                        &&& outcome matches JoinOutcome::Refused(frame)
                        &&& frame.code == CLOSE_NORMAL
                        &&& frame.reason@ == error.answer(message.username@)
                        &&& final(state)@ == old(state)@
                    },
                    None => {
                        &&& outcome matches JoinOutcome::Joined { session, limiter, receiver }
                        &&& session@ == (SessionView {
                            broadcast_id: message.broadcastid@,
                            username: message.username@,
                            user_id: self.user_id@,
                        })
                        &&& limiter.last_message_time == now
                        &&& final(state)@ == session@.entered(
                            old(state)@,
                            now,
                            subscribed(receiver).key,
                        )
                        &&& subscribed(receiver) == old(state)@.room_or_fresh(
                            session@.broadcast_id,
                            now,
                            subscribed(receiver).key,
                        ).channel
                        &&& position(receiver) == subscribed(receiver).posted.len()
                        &&& old(state)@.key_fits(
                            session@.broadcast_id,
                            subscribed(receiver).key,
                        )
                    },
                },
            },
    {
        let JoinMessage { broadcastid, username } = match request {
            Ok(message) => message,
            Err(_) => {
                return JoinOutcome::Refused(
                    CloseFrame { code: CLOSE_NORMAL, reason: "Invalid join message".to_owned() },
                );
            },
        };
        let connection = UserConnection { user_id: self.user_id.clone() };
        let receiver = match state.join_room(&broadcastid, &username, connection, now) {
            Ok(receiver) => receiver,
            Err(error) => {
                return JoinOutcome::Refused(
                    CloseFrame { code: CLOSE_NORMAL, reason: error.message(&username) },
                );
            },
        };
        let _ = state.broadcast_system_message(
            &broadcastid,
            joined_payload(&username),
            &self.user_id,
            now,
            Some(&receiver),
        );
        let session = Session { broadcast_id: broadcastid, username, user_id: self.user_id };
        JoinOutcome::Joined { session, limiter: RateLimiter { last_message_time: now }, receiver }
    }
}

impl Session {
    /// Ends the session: the user leaves the room, and whoever still listens
    /// there is told so.
    pub fn handle_disconnect(self, state: &mut ServerState, now: u128) -> (result: Result<
        (),
        BroadcastError,
    >)
        ensures
            old(state)@.left(self@.broadcast_id, self@.username, now).broadcast(
                self@.broadcast_id,
                left_announcement(self@),
                now,
                old(state).attended(self@.broadcast_id),
                result,
                final(state)@,
            ),
    {
        self.handle_disconnect_held(state, now, None)
    }

    /// Ends the session. Whether anybody still listens in the room is up to the
    /// tasks that hold the receivers; one of its channel that the caller holds in
    /// `held` settles it: the notice is then sent.
    pub fn handle_disconnect_held(
        self,
        state: &mut ServerState,
        now: u128,
        held: Option<&Receiver<InternalMessage>>,
    ) -> (result: Result<(), BroadcastError>)
        ensures
            old(state)@.left(self@.broadcast_id, self@.username, now).broadcast(
                self@.broadcast_id,
                left_announcement(self@),
                now,
                old(state).attended(self@.broadcast_id),
                result,
                final(state)@,
            ),
            held matches Some(receiver) ==> old(state)@.speaks_over(
                self@.broadcast_id,
                subscribed(*receiver).key,
            ) ==> result is Ok,
    {
        state.leave_room(&self.broadcast_id, &self.username, now);
        state.broadcast_system_message(
            &self.broadcast_id,
            left_payload(&self.username),
            &self.user_id,
            now,
            held,
        )
    }
}

} // verus!
