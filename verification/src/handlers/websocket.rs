use vstd::prelude::*;

use crate::text::{decimal, with_count};
use crate::time::Timestamp;

verus! {

/// A chat message as a client sends it over the socket.
pub struct ClientMessage {
    pub message_type: String,
    pub content: Option<String>,
    pub file_url: Option<String>,
    pub file_name: Option<String>,
    pub file_size: Option<i32>,
    pub retention_hours: Option<i32>,
}

/// A chat message as it is sent to every connection of the room.
pub struct BroadcastMessage {
    pub room_id: String,
    pub user_id: String,
    pub user_nickname: String,
    pub message_type: String,
    pub content: Option<String>,
    pub file_url: Option<String>,
    pub file_name: Option<String>,
    pub file_size: Option<i32>,
    pub retention_hours: i32,
    /// When the message arrived.
    pub timestamp: Timestamp,
}

/// The connection that events arrive on: its room and its user.
pub struct Connection {
    pub room_id: String,
    pub user_id: String,
}

/// What arrives on a connection. A text frame comes with the outcome of reading it as
/// a `ClientMessage` (the reason, when it is no such message) and with the time it
/// arrived; `Ended` stands for the end of the stream or a broken frame.
pub enum WsEvent {
    Text { parsed: Result<ClientMessage, String>, received: Timestamp },
    Binary(Vec<u8>),
    Ping(Vec<u8>),
    Pong,
    Close,
    Continuation,
    Nop,
    Ended,
}

/// The reply to a text frame that is no chat message.
pub struct ErrorReply {
    pub error: String,
    pub details: String,
}

/// What to do about an event.
pub enum WsAction {
    /// Send the message to every connection of the room.
    Broadcast(BroadcastMessage),
    /// Send this error back to the sender only.
    Reply(ErrorReply),
    /// Send these bytes back as a binary frame.
    EchoBinary(Vec<u8>),
    /// Answer a ping with these bytes.
    SendPong(Vec<u8>),
    /// Nothing to send; wait for the next event.
    Continue,
    /// The connection is over.
    Stop,
}

/// Hours a message is kept when the client names no retention.
pub const DEFAULT_RETENTION_HOURS: i32 = 24;

/// The broadcast of client message `m` that arrived at `t` on connection `c`: the
/// sender's user id doubles as nickname, and the retention falls back to the default.
pub open spec fn is_broadcast_of(b: BroadcastMessage, c: Connection, m: ClientMessage, t: Timestamp) -> bool {
    &&& b.room_id@ == c.room_id@
    &&& b.user_id@ == c.user_id@
    &&& b.user_nickname@ == c.user_id@
    &&& b.message_type == m.message_type
    &&& b.content == m.content
    &&& b.file_url == m.file_url
    &&& b.file_name == m.file_name
    &&& b.file_size == m.file_size
    &&& b.retention_hours == (match m.retention_hours {
        Some(h) => h,
        None => DEFAULT_RETENTION_HOURS,
    })
    &&& b.timestamp == t
}

/// Decides what to do about one event on connection `conn`: chat messages are
/// broadcast to the room, unreadable text is answered with an error, binary frames
/// are echoed, pings are answered, a close frame or the end of the stream ends the
/// connection, and anything else is passed over.
pub fn handle_ws_event(conn: &Connection, event: WsEvent) -> (action: WsAction)
    ensures
        match event {
            WsEvent::Text { parsed: Ok(m), received } => action matches WsAction::Broadcast(b)
                && is_broadcast_of(b, *conn, m, received),
            WsEvent::Text { parsed: Err(reason), .. } => action matches WsAction::Reply(r)
                && r.error@ == "Invalid message format"@ && r.details@ == reason@,
            WsEvent::Binary(bytes) => action == WsAction::EchoBinary(bytes),
            WsEvent::Ping(bytes) => action == WsAction::SendPong(bytes),
            WsEvent::Close => action is Stop,
            WsEvent::Ended => action is Stop,
            _ => action is Continue,
        },
{
    match event {
        WsEvent::Text { parsed, received } => match parsed {
            Ok(m) => {
                let retention_hours = match m.retention_hours {
                    Some(h) => h,
                    None => DEFAULT_RETENTION_HOURS,
                };
                WsAction::Broadcast(
                    BroadcastMessage {
                        room_id: conn.room_id.clone(),
                        user_id: conn.user_id.clone(),
                        user_nickname: conn.user_id.clone(),
                        message_type: m.message_type,
                        content: m.content,
                        file_url: m.file_url,
                        file_name: m.file_name,
                        file_size: m.file_size,
                        retention_hours,
                        timestamp: received,
                    },
                )
            },
            Err(reason) => WsAction::Reply(
                ErrorReply { error: "Invalid message format".to_owned(), details: reason },
            ),
        },
        WsEvent::Binary(bytes) => WsAction::EchoBinary(bytes),
        WsEvent::Ping(bytes) => WsAction::SendPong(bytes),
        WsEvent::Pong => WsAction::Continue,
        WsEvent::Close => WsAction::Stop,
        WsEvent::Continuation => WsAction::Continue,
        WsEvent::Nop => WsAction::Continue,
        WsEvent::Ended => WsAction::Stop,
    }
}

/// The notice sent to a room when a connection joins; `count` includes it.
pub fn join_notice(count: usize) -> (t: String)
    ensures
        t@ == "User joined the room. Online users: "@ + decimal(count as nat),
{
    with_count("User joined the room. Online users: ", count)
}

/// The notice sent to a room when a connection has left; `count` is who remains.
pub fn leave_notice(count: usize) -> (t: String)
    ensures
        t@ == "A user left the room. Online users: "@ + decimal(count as nat),
{
    with_count("A user left the room. Online users: ", count)
}

/// A broadcast chat message goes to the sender's room, names the sender (as user and as
/// nickname), carries the client's message unchanged, is kept the hours the client names
/// (24 when it names none), and is stamped with the time the frame arrived.
pub proof fn lemma_broadcast_carries_message(b: BroadcastMessage, c: Connection, m: ClientMessage, t: Timestamp)
    requires
        is_broadcast_of(b, c, m, t),
    ensures
        b.room_id@ == c.room_id@,
        b.user_id@ == c.user_id@,
        b.user_nickname@ == c.user_id@,
        b.message_type == m.message_type,
        b.content == m.content,
        b.file_url == m.file_url,
        b.file_name == m.file_name,
        b.file_size == m.file_size,
        m.retention_hours is None ==> b.retention_hours == 24,
        m.retention_hours matches Some(h) ==> b.retention_hours == h,
        b.timestamp == t,
{
}

} // verus!
