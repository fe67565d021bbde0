//! The messages that travel between clients and rooms.
use crate::payload::{json, Json};
use vstd::prelude::*;

verus! {

/// Message sent by a client to join a broadcast room.
#[derive(Debug)]
pub struct JoinMessage {
    pub broadcastid: String,
    pub username: String,
}

/// Standard chat message structure.
#[derive(Debug)]
pub struct ChatMessage {
    pub username: String,
    pub broadcastid: String,
    pub payload: serde_json::Value,
}

/// Message on its way through a room's channel.
#[derive(Debug)]
pub struct InternalMessage {
    pub message: ChatMessage,
    /// The connection that sent it, so that it is not echoed back there.
    pub sender_id: String,
}

/// What a [`ChatMessage`] says.
pub struct ChatMessageView {
    pub username: Seq<char>,
    pub broadcastid: Seq<char>,
    pub payload: Json,
}

/// What an [`InternalMessage`] says.
pub struct InternalMessageView {
    pub message: ChatMessageView,
    pub sender_id: Seq<char>,
}

impl View for ChatMessage {
    type V = ChatMessageView;

    open spec fn view(&self) -> ChatMessageView {
        ChatMessageView {
            username: self.username@,
            broadcastid: self.broadcastid@,
            payload: json(self.payload),
        }
    }
}

impl View for InternalMessage {
    type V = InternalMessageView;

    open spec fn view(&self) -> InternalMessageView {
        InternalMessageView { message: self.message@, sender_id: self.sender_id@ }
    }
}

impl Clone for ChatMessage {
    fn clone(&self) -> (copy: Self)
        ensures
            copy@ == self@,
    {
        ChatMessage {
            username: self.username.clone(),
            broadcastid: self.broadcastid.clone(),
            payload: self.payload.clone(),
        }
    }
}

impl Clone for InternalMessage {
    fn clone(&self) -> (copy: Self)
        ensures
            copy@ == self@,
    {
        InternalMessage { message: self.message.clone(), sender_id: self.sender_id.clone() }
    }
}

} // verus!
