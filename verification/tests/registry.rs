use chat_server::websocket::{ChatServer, Connect, Disconnect};

fn connect(server: &mut ChatServer<u32>, room: &str, user: i32, addr: u32) {
    server.handle_connect(Connect { addr, room_id: room.to_string(), user_id: user });
}

fn disconnect(server: &mut ChatServer<u32>, room: &str, user: i32) {
    server.handle_disconnect(Disconnect { room_id: room.to_string(), user_id: user });
}

fn delivered(server: &ChatServer<u32>, room: &str, text: &str) -> Vec<(u32, String)> {
    server.send_message(room, text).into_iter().map(|(a, m)| (*a, m.0)).collect()
}

#[test]
fn new_server_has_no_rooms() {
    let server: ChatServer<u32> = ChatServer::new();
    assert_eq!(server.get_room_user_count("lobby"), 0);
    assert!(delivered(&server, "lobby", "hello").is_empty());
}

#[test]
fn message_reaches_every_member_in_join_order() {
    let mut server = ChatServer::new();
    connect(&mut server, "lobby", 1, 10);
    connect(&mut server, "lobby", 2, 20);
    connect(&mut server, "other", 3, 30);
    assert_eq!(
        delivered(&server, "lobby", "hi"),
        vec![(10, "hi".to_string()), (20, "hi".to_string())]
    );
    assert_eq!(delivered(&server, "other", "yo"), vec![(30, "yo".to_string())]);
    assert!(delivered(&server, "nowhere", "yo").is_empty());
}

#[test]
fn reconnect_replaces_the_handle() {
    let mut server = ChatServer::new();
    connect(&mut server, "lobby", 1, 10);
    connect(&mut server, "lobby", 2, 20);
    connect(&mut server, "lobby", 1, 11);
    assert_eq!(server.get_room_user_count("lobby"), 2);
    assert_eq!(
        delivered(&server, "lobby", "x"),
        vec![(11, "x".to_string()), (20, "x".to_string())]
    );
}

#[test]
fn last_member_leaving_drops_the_room() {
    let mut server = ChatServer::new();
    connect(&mut server, "lobby", 1, 10);
    connect(&mut server, "lobby", 2, 20);
    disconnect(&mut server, "lobby", 1);
    assert_eq!(server.get_room_user_count("lobby"), 1);
    assert_eq!(delivered(&server, "lobby", "x"), vec![(20, "x".to_string())]);
    disconnect(&mut server, "lobby", 2);
    assert_eq!(server.get_room_user_count("lobby"), 0);
    assert!(delivered(&server, "lobby", "x").is_empty());
}

#[test]
fn leaving_unknown_room_or_user_changes_nothing() {
    let mut server = ChatServer::new();
    connect(&mut server, "lobby", 1, 10);
    disconnect(&mut server, "lobby", 9);
    disconnect(&mut server, "elsewhere", 1);
    assert_eq!(delivered(&server, "lobby", "x"), vec![(10, "x".to_string())]);
}

#[test]
fn disconnect_undoes_connect() {
    let mut server = ChatServer::new();
    connect(&mut server, "lobby", 1, 10);
    connect(&mut server, "lobby", 2, 20);
    disconnect(&mut server, "lobby", 2);
    assert_eq!(delivered(&server, "lobby", "x"), vec![(10, "x".to_string())]);
    connect(&mut server, "new", 5, 50);
    disconnect(&mut server, "new", 5);
    assert_eq!(server.get_room_user_count("new"), 0);
    assert_eq!(delivered(&server, "lobby", "x"), vec![(10, "x".to_string())]);
}

#[test]
fn sessions_get_fresh_numbers() {
    let mut sessions: ChatServer<&str> = ChatServer::new();
    assert_eq!(sessions.add_session("a".to_string(), "s0"), Some(0));
    assert_eq!(sessions.add_session("a".to_string(), "s1"), Some(1));
    assert_eq!(sessions.add_session("b".to_string(), "s2"), Some(2));
    assert_eq!(sessions.get_room_user_count("a"), 2);
    sessions.remove_session("a", 0);
    assert_eq!(sessions.get_room_user_count("a"), 1);
    assert_eq!(sessions.add_session("a".to_string(), "s3"), Some(3));
    let targets: Vec<&str> =
        sessions.send_message("a", "hey").into_iter().map(|(s, _)| *s).collect();
    assert_eq!(targets, vec!["s1", "s3"]);
    sessions.remove_session("b", 2);
    assert_eq!(sessions.get_room_user_count("b"), 0);
    assert!(sessions.send_message("b", "hey").is_empty());
}

#[test]
fn taken_counter_number_falls_back_to_smallest_free() {
    let mut server: ChatServer<u32> = ChatServer::new();
    connect(&mut server, "a", 0, 100);
    connect(&mut server, "a", 1, 101);
    connect(&mut server, "a", 3, 103);
    // The counter offers 0, which user 0 holds: the smallest free number is 2.
    assert_eq!(server.add_session("a".to_string(), 7), Some(2));
    // The counter has moved on to 1; in room "b" it is free.
    assert_eq!(server.add_session("b".to_string(), 8), Some(1));
    assert_eq!(server.get_room_user_count("a"), 4);
    assert_eq!(
        delivered(&server, "a", "x"),
        vec![
            (100, "x".to_string()),
            (101, "x".to_string()),
            (103, "x".to_string()),
            (7, "x".to_string())
        ]
    );
}
