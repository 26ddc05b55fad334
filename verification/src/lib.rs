//! A chat-room server: the room registry that tracks which clients are
//! connected to which room, the per-connection message protocol of the
//! websocket endpoint, and the rules of the message HTTP endpoints.

pub mod handlers;
pub mod text;
pub mod time;
pub mod websocket;
