//! Rooms, rules and message flow of a WebSocket chat server.
pub mod channel;
pub mod clock;
pub mod connection;
pub mod delivery;
pub mod join;
pub mod laws;
pub mod message;
pub mod outcomes;
pub mod outgoing;
pub mod payload;
pub mod registry;
pub mod room;
pub mod server;
pub mod session;
