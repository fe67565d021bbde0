//! What goes out to a client: the messages of its room, by way of a queue.
use crate::message::{ChatMessage, InternalMessage};
use vstd::prelude::*;

verus! {

/// Something that happened on the sending side of a connection.
#[derive(Debug)]
pub enum OutgoingEvent {
    /// The room's channel handed over a message.
    Received(InternalMessage),
    /// The room's channel has nothing more to hand over.
    ChannelClosed,
    /// A message was turned into text, if that worked.
    Serialized(Option<String>),
    /// A text was put into the queue, if that worked.
    Enqueued(bool),
    /// The queue handed over a text, or is closed.
    Dequeued(Option<String>),
    /// A text was written to the client, if that worked.
    Written(bool),
}

/// What to do next on the sending side of a connection.
#[derive(Debug)]
pub enum OutgoingAction {
    /// Wait for the channel and the queue.
    Wait,
    /// Turn the message into text.
    Serialize(ChatMessage),
    /// Put the text into the queue.
    Enqueue(String),
    /// Write the text to the client.
    Write(String),
    /// Stop sending to the client.
    Stop,
}

/// What to do next on the connection with that id.
pub open spec fn outgoing_action(user_id: Seq<char>, event: OutgoingEvent) -> OutgoingAction {
    match event {
        OutgoingEvent::Received(internal) => if internal.sender_id@ == user_id {
            OutgoingAction::Wait
        } else {
            OutgoingAction::Serialize(internal.message)
        },
        OutgoingEvent::ChannelClosed => OutgoingAction::Stop,
        OutgoingEvent::Serialized(Some(text)) => OutgoingAction::Enqueue(text),
        OutgoingEvent::Serialized(None) => OutgoingAction::Wait,
        OutgoingEvent::Enqueued(done) => if done {
            OutgoingAction::Wait
        } else {
            OutgoingAction::Stop
        },
        OutgoingEvent::Dequeued(Some(text)) => OutgoingAction::Write(text),
        OutgoingEvent::Dequeued(None) => OutgoingAction::Stop,
        OutgoingEvent::Written(done) => if done {
            OutgoingAction::Wait
        } else {
            OutgoingAction::Stop
        },
    }
}

/// Takes what happened on the sending side of the connection with that id. A
/// message that came from this very connection is not echoed back to it.
pub fn handle_outgoing(user_id: &String, event: OutgoingEvent) -> (action: OutgoingAction)
    ensures
        action == outgoing_action(user_id@, event),
{
    match event {
        OutgoingEvent::Received(internal) => {
            if internal.sender_id == *user_id {
                OutgoingAction::Wait
            } else {
                OutgoingAction::Serialize(internal.message)
            }
        },
        OutgoingEvent::ChannelClosed => OutgoingAction::Stop,
        OutgoingEvent::Serialized(Some(text)) => OutgoingAction::Enqueue(text),
        OutgoingEvent::Serialized(None) => OutgoingAction::Wait,
        OutgoingEvent::Enqueued(done) => {
            if done {
                OutgoingAction::Wait
            } else {
                OutgoingAction::Stop
            }
        },
        OutgoingEvent::Dequeued(Some(text)) => OutgoingAction::Write(text),
        OutgoingEvent::Dequeued(None) => OutgoingAction::Stop,
        OutgoingEvent::Written(done) => {
            if done {
                OutgoingAction::Wait
            } else {
                OutgoingAction::Stop
            }
        },
    }
}

} // verus!
