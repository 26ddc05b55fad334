pub mod messages;
pub mod websocket;
