use chat_server::handlers::messages::{
    expiry, plan_send, posting_clock_fits, recent_limit, recent_messages_reply, room_exists,
    send_outcome, ApiReply, GetMessagesQuery, SendMessageRequest, StoredMessage,
};
use chat_server::time::{fits_hours, Timestamp, EARLIEST_SECS, LATEST_SECS};

const NOW_SECS: i64 = 1_700_000_000;
const NOW_NANOS: u32 = 987_654_321;

fn now() -> Timestamp {
    Timestamp { secs: NOW_SECS, nanos: NOW_NANOS }
}

fn at(secs: i64, nanos: u32) -> Timestamp {
    Timestamp { secs, nanos }
}

fn expiry_parts(t: Option<Timestamp>) -> Option<(i64, u32)> {
    t.map(|t| (t.secs, t.nanos))
}

fn request(retention: Option<i32>) -> SendMessageRequest {
    SendMessageRequest {
        room_id: "room-1".to_string(),
        user_id: 7,
        message_type: "file".to_string(),
        content: None,
        file_url: Some("/files/a.png".to_string()),
        file_name: Some("a.png".to_string()),
        file_size: Some(2048),
        retention_hours: retention,
    }
}

#[test]
fn room_lookup() {
    assert!(room_exists(Some(1)));
    assert!(room_exists(Some(3)));
    assert!(!room_exists(Some(0)));
    assert!(!room_exists(None));
}

#[test]
fn unknown_room_is_not_found() {
    for count in [Some(0), None] {
        match plan_send(request(None), count, now()) {
            Err(ApiReply::NotFound(t)) => assert_eq!(t, "Room not found"),
            _ => panic!("expected not found"),
        }
    }
}

#[test]
fn default_retention_is_a_day() {
    match plan_send(request(None), Some(1), now()) {
        Ok(m) => {
            assert_eq!(m.room_id, "room-1");
            assert_eq!(m.user_id, 7);
            assert_eq!(m.message_type, "file");
            assert_eq!(m.content, None);
            assert_eq!(m.file_url, Some("/files/a.png".to_string()));
            assert_eq!(m.file_name, Some("a.png".to_string()));
            assert_eq!(m.file_size, Some(2048));
            assert_eq!(m.retention_hours, 24);
            assert_eq!(expiry_parts(m.expires_at), Some((NOW_SECS + 24 * 3600, NOW_NANOS)));
        }
        Err(_) => panic!("expected a message"),
    }
}

#[test]
fn zero_or_negative_retention_never_expires() {
    for r in [0, -5] {
        match plan_send(request(Some(r)), Some(1), now()) {
            Ok(m) => {
                assert_eq!(m.retention_hours, r);
                assert!(m.expires_at.is_none());
            }
            Err(_) => panic!("expected a message"),
        }
    }
}

#[test]
fn expiry_adds_hours() {
    assert_eq!(expiry_parts(expiry(&now(), 2)), Some((NOW_SECS + 7_200, NOW_NANOS)));
    assert_eq!(expiry_parts(expiry(&at(0, 0), 1)), Some((3_600, 0)));
    assert_eq!(expiry_parts(expiry(&at(-1, 5), 1)), Some((3_599, 5)));
    assert_eq!(
        expiry_parts(expiry(&now(), i32::MAX)),
        Some((NOW_SECS + i32::MAX as i64 * 3_600, NOW_NANOS))
    );
    assert_eq!(
        expiry_parts(expiry(&at(LATEST_SECS - 3_600, 999_999_999), 1)),
        Some((LATEST_SECS, 999_999_999))
    );
    assert!(expiry(&now(), 0).is_none());
    assert!(expiry(&now(), i32::MIN).is_none());
    assert!(expiry(&at(i64::MAX, 0), 0).is_none());
}

#[test]
fn calendar_limits() {
    assert!(fits_hours(&now(), i32::MAX));
    assert!(fits_hours(&at(LATEST_SECS - 3_600, 0), 1));
    assert!(!fits_hours(&at(LATEST_SECS - 3_599, 0), 1));
    assert!(fits_hours(&at(EARLIEST_SECS, 0), 1));
    assert!(!fits_hours(&at(EARLIEST_SECS - 1, 0), 1));
    assert!(!fits_hours(&at(i64::MAX, 0), 1));
    assert!(!fits_hours(&at(NOW_SECS, 1_000_000_000), 1));
    // Year 17,000 or so: the longest retention still fits.
    let year_17000 = 474_300_000_000;
    assert!(fits_hours(&at(year_17000, 0), i32::MAX));
    assert!(!fits_hours(&at(year_17000 + 6_000_000_000, 0), i32::MAX));
}

#[test]
fn posting_needs_the_clock_only_for_an_expiry() {
    let far = at(i64::MAX, 0);
    assert!(posting_clock_fits(None, Some(5), &far));
    assert!(posting_clock_fits(Some(0), None, &far));
    assert!(posting_clock_fits(Some(1), Some(0), &far));
    assert!(posting_clock_fits(Some(1), Some(-3), &far));
    assert!(!posting_clock_fits(Some(1), None, &far));
    assert!(posting_clock_fits(Some(1), None, &now()));
    assert!(posting_clock_fits(Some(1), Some(i32::MAX), &now()));
}

#[test]
fn missing_room_is_answered_whatever_the_clock() {
    match plan_send(request(None), Some(0), at(i64::MAX, 0)) {
        Err(ApiReply::NotFound(t)) => assert_eq!(t, "Room not found"),
        _ => panic!("expected not found"),
    }
    match plan_send(request(Some(0)), Some(1), at(i64::MIN, 0)) {
        Ok(m) => assert!(m.expires_at.is_none()),
        Err(_) => panic!("expected a message"),
    }
}

#[test]
fn stored_message_is_answered_with_its_id() {
    let m = match plan_send(request(Some(48)), Some(2), now()) {
        Ok(m) => m,
        Err(_) => panic!("expected a message"),
    };
    match send_outcome(&m, Ok(42)) {
        ApiReply::Created(r) => {
            assert_eq!(r.id, 42);
            assert_eq!(r.message_type, "file");
            assert_eq!(r.content, None);
            assert_eq!(r.file_url, Some("/files/a.png".to_string()));
            assert_eq!(r.file_name, Some("a.png".to_string()));
            assert_eq!(r.file_size, Some(2048));
            assert_eq!(r.retention_hours, 48);
        }
        _ => panic!("expected created"),
    }
    match send_outcome(&m, Err("connection refused".to_string())) {
        ApiReply::BadRequest(t) => assert_eq!(t, "Error sending message: connection refused"),
        _ => panic!("expected bad request"),
    }
}

#[test]
fn recent_limit_defaults_to_ten() {
    assert_eq!(recent_limit(&GetMessagesQuery { limit: None }), 10);
    assert_eq!(recent_limit(&GetMessagesQuery { limit: Some(3) }), 3);
    assert_eq!(recent_limit(&GetMessagesQuery { limit: Some(0) }), 0);
    assert_eq!(recent_limit(&GetMessagesQuery { limit: Some(-1) }), u64::MAX);
}

#[test]
fn recent_messages_keep_order_and_report_ten_hours() {
    let rows = vec![
        StoredMessage {
            id: 9,
            message_type: "text".to_string(),
            content: Some("b".to_string()),
            file_url: None,
            file_name: None,
            file_size: None,
        },
        StoredMessage {
            id: 3,
            message_type: "file".to_string(),
            content: None,
            file_url: Some("/f".to_string()),
            file_name: Some("f".to_string()),
            file_size: Some(1),
        },
    ];
    match recent_messages_reply(&rows) {
        ApiReply::Messages(out) => {
            assert_eq!(out.len(), 2);
            assert_eq!(out[0].id, 9);
            assert_eq!(out[0].content, Some("b".to_string()));
            assert_eq!(out[0].retention_hours, 10);
            assert_eq!(out[1].id, 3);
            assert_eq!(out[1].file_url, Some("/f".to_string()));
            assert_eq!(out[1].file_size, Some(1));
            assert_eq!(out[1].retention_hours, 10);
        }
        _ => panic!("expected a listing"),
    }
    match recent_messages_reply(&Vec::new()) {
        ApiReply::Messages(out) => assert!(out.is_empty()),
        _ => panic!("expected a listing"),
    }
}
