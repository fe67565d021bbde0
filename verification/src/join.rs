//! The first message of a connection: the request to join a room.
use crate::message::JoinMessage;
use crate::server::{byte_len, text_len};
use vstd::prelude::*;

verus! {

/// The longest text that a client may send, in bytes: 64 KiB.
pub const MAX_MESSAGE_SIZE: usize = 64 * 1024;

/// How long a client has to send the join message, in seconds.
pub const JOIN_TIMEOUT_SECS: u64 = 30;

/// What waiting for the first message of a connection came to.
#[derive(Debug)]
pub enum JoinEvent {
    /// Nothing came in time.
    TimedOut,
    /// The connection ended first.
    Closed,
    /// The connection failed.
    Failed(String),
    /// A text came.
    Text(String),
    /// A message came that is not a text.
    NotText,
}

/// Why no join message was received.
#[derive(Debug)]
pub enum JoinReceiveError {
    TimedOut,
    Closed,
    Failed(String),
    TooLarge,
    NotText,
    InvalidFormat(String),
}

impl JoinReceiveError {
    /// The error in words.
    pub open spec fn words(self) -> Seq<char> {
        match self {
            JoinReceiveError::TimedOut => "Timeout waiting for join message"@,
            JoinReceiveError::Closed => "Connection closed before join message"@,
            JoinReceiveError::Failed(cause) => "WebSocket error: "@ + cause@,
            JoinReceiveError::TooLarge => "Join message too large"@,
            JoinReceiveError::NotText => "Expected text message for join"@,
            JoinReceiveError::InvalidFormat(cause) => "Invalid join message format: "@ + cause@,
        }
    }

    /// Words the error.
    pub fn message(&self) -> (text: String)
        ensures
            text@ == self.words(),
    {
        match self {
            JoinReceiveError::TimedOut => "Timeout waiting for join message".to_owned(),
            JoinReceiveError::Closed => "Connection closed before join message".to_owned(),
            JoinReceiveError::Failed(cause) => "WebSocket error: ".to_owned().concat(cause),
            JoinReceiveError::TooLarge => "Join message too large".to_owned(),
            JoinReceiveError::NotText => "Expected text message for join".to_owned(),
            JoinReceiveError::InvalidFormat(cause) => {
                "Invalid join message format: ".to_owned().concat(cause)
            },
        }
    }
}

/// The text that is worth parsing as a join message, or the reason there is none.
pub open spec fn join_text(event: JoinEvent) -> Result<String, JoinReceiveError> {
    match event {
        JoinEvent::TimedOut => Err(JoinReceiveError::TimedOut),
        JoinEvent::Closed => Err(JoinReceiveError::Closed),
        JoinEvent::Failed(cause) => Err(JoinReceiveError::Failed(cause)),
        JoinEvent::NotText => Err(JoinReceiveError::NotText),
        JoinEvent::Text(text) => if byte_len(text@) > MAX_MESSAGE_SIZE {
            Err(JoinReceiveError::TooLarge)
        } else {
            Ok(text)
        },
    }
}

/// The join message that parsing came to, or the reason there is none.
pub open spec fn parsed_join(parsed: Result<JoinMessage, String>) -> Result<
    JoinMessage,
    JoinReceiveError,
> {
    match parsed {
        Ok(message) => Ok(message),
        Err(cause) => Err(JoinReceiveError::InvalidFormat(cause)),
    }
}

/// Takes what came first on a connection: the text to parse as a join message,
/// or the reason why there is none.
pub fn receive_join_text(event: JoinEvent) -> (text: Result<String, JoinReceiveError>)
    ensures
        text == join_text(event),
{
    match event {
        JoinEvent::TimedOut => Err(JoinReceiveError::TimedOut),
        JoinEvent::Closed => Err(JoinReceiveError::Closed),
        JoinEvent::Failed(cause) => Err(JoinReceiveError::Failed(cause)),
        JoinEvent::NotText => Err(JoinReceiveError::NotText),
        JoinEvent::Text(text) => {
            if text_len(&text) > MAX_MESSAGE_SIZE {
                Err(JoinReceiveError::TooLarge)
            } else {
                Ok(text)
            }
        },
    }
}

/// Takes what parsing the text as a join message came to.
pub fn receive_join_message(parsed: Result<JoinMessage, String>) -> (message: Result<
    JoinMessage,
    JoinReceiveError,
>)
    ensures
        message == parsed_join(parsed),
{
    match parsed {
        Ok(message) => Ok(message),
        Err(cause) => Err(JoinReceiveError::InvalidFormat(cause)),
    }
}

} // verus!
