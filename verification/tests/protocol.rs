use chat_server::handlers::websocket::{
    handle_ws_event, join_notice, leave_notice, ClientMessage, Connection, WsAction, WsEvent,
};
use chat_server::text::decimal_text;
use chat_server::time::Timestamp;

fn at(secs: i64, nanos: u32) -> Timestamp {
    Timestamp { secs, nanos }
}

fn conn() -> Connection {
    Connection { room_id: "room-1".to_string(), user_id: "alice".to_string() }
}

fn client(retention: Option<i32>) -> ClientMessage {
    ClientMessage {
        message_type: "text".to_string(),
        content: Some("hello".to_string()),
        file_url: None,
        file_name: Some("a.png".to_string()),
        file_size: Some(12),
        retention_hours: retention,
    }
}

#[test]
fn chat_message_is_broadcast_with_default_retention() {
    let action = handle_ws_event(
        &conn(),
        WsEvent::Text { parsed: Ok(client(None)), received: at(1_700_000_000, 123_456_789) },
    );
    match action {
        WsAction::Broadcast(b) => {
            assert_eq!(b.room_id, "room-1");
            assert_eq!(b.user_id, "alice");
            assert_eq!(b.user_nickname, "alice");
            assert_eq!(b.message_type, "text");
            assert_eq!(b.content, Some("hello".to_string()));
            assert_eq!(b.file_url, None);
            assert_eq!(b.file_name, Some("a.png".to_string()));
            assert_eq!(b.file_size, Some(12));
            assert_eq!(b.retention_hours, 24);
            assert_eq!(b.timestamp.secs, 1_700_000_000);
            assert_eq!(b.timestamp.nanos, 123_456_789);
        }
        _ => panic!("expected a broadcast"),
    }
}

#[test]
fn chat_message_keeps_its_retention() {
    let action = handle_ws_event(&conn(), WsEvent::Text { parsed: Ok(client(Some(0))), received: at(5, 0) });
    match action {
        WsAction::Broadcast(b) => assert_eq!(b.retention_hours, 0),
        _ => panic!("expected a broadcast"),
    }
}

#[test]
fn unreadable_text_gets_an_error_reply() {
    let action = handle_ws_event(
        &conn(),
        WsEvent::Text { parsed: Err("expected value at line 1".to_string()), received: at(5, 0) },
    );
    match action {
        WsAction::Reply(r) => {
            assert_eq!(r.error, "Invalid message format");
            assert_eq!(r.details, "expected value at line 1");
        }
        _ => panic!("expected an error reply"),
    }
}

#[test]
fn frames_other_than_text() {
    match handle_ws_event(&conn(), WsEvent::Binary(vec![1, 2, 3])) {
        WsAction::EchoBinary(b) => assert_eq!(b, vec![1, 2, 3]),
        _ => panic!("expected an echo"),
    }
    match handle_ws_event(&conn(), WsEvent::Ping(vec![9])) {
        WsAction::SendPong(b) => assert_eq!(b, vec![9]),
        _ => panic!("expected a pong"),
    }
    assert!(matches!(handle_ws_event(&conn(), WsEvent::Pong), WsAction::Continue));
    assert!(matches!(handle_ws_event(&conn(), WsEvent::Continuation), WsAction::Continue));
    assert!(matches!(handle_ws_event(&conn(), WsEvent::Nop), WsAction::Continue));
    assert!(matches!(handle_ws_event(&conn(), WsEvent::Close), WsAction::Stop));
    assert!(matches!(handle_ws_event(&conn(), WsEvent::Ended), WsAction::Stop));
}

#[test]
fn notices_carry_the_count() {
    assert_eq!(join_notice(3), "User joined the room. Online users: 3");
    assert_eq!(leave_notice(0), "A user left the room. Online users: 0");
    assert_eq!(join_notice(120), "User joined the room. Online users: 120");
}

#[test]
fn decimal_notation() {
    assert_eq!(decimal_text(0), "0");
    assert_eq!(decimal_text(7), "7");
    assert_eq!(decimal_text(10), "10");
    assert_eq!(decimal_text(1_234_567_890), "1234567890");
    assert_eq!(decimal_text(usize::MAX), usize::MAX.to_string());
}
