use vstd::prelude::*;
use vstd::string::*;

use crate::time::{chrono_add_hours, fits_hours, hours_fit, Timestamp, SECS_PER_HOUR};

verus! {

/// A request to post a message to a room.
pub struct SendMessageRequest {
    pub room_id: String,
    pub user_id: i32,
    pub message_type: String,
    pub content: Option<String>,
    pub file_url: Option<String>,
    pub file_name: Option<String>,
    pub file_size: Option<i32>,
    pub retention_hours: Option<i32>,
}

/// A message as the API returns it.
pub struct MessageResponse {
    pub id: i32,
    pub message_type: String,
    pub content: Option<String>,
    pub file_url: Option<String>,
    pub file_name: Option<String>,
    pub file_size: Option<i32>,
    pub retention_hours: i32,
}

/// The query of the recent-messages endpoint.
pub struct GetMessagesQuery {
    pub limit: Option<i32>,
}

/// A message to be stored: the request with its retention resolved and the moment it
/// expires (`None`: it never expires).
pub struct NewMessage {
    pub room_id: String,
    pub user_id: i32,
    pub message_type: String,
    pub content: Option<String>,
    pub file_url: Option<String>,
    pub file_name: Option<String>,
    pub file_size: Option<i32>,
    pub retention_hours: i32,
    pub expires_at: Option<Timestamp>,
}

/// A stored message as read back for the recent-messages endpoint.
pub struct StoredMessage {
    pub id: i32,
    pub message_type: String,
    pub content: Option<String>,
    pub file_url: Option<String>,
    pub file_name: Option<String>,
    pub file_size: Option<i32>,
}

/// An answer of the message endpoints.
pub enum ApiReply {
    /// 201: the message was stored.
    Created(MessageResponse),
    /// 200: the recent messages.
    Messages(Vec<MessageResponse>),
    /// 404 with this text.
    NotFound(String),
    /// 400 with this text.
    BadRequest(String),
}

/// Hours a message is kept when the request names no retention.
pub const DEFAULT_RETENTION_HOURS: i32 = 24;

/// How many recent messages are listed when the query names no limit.
pub const DEFAULT_RECENT_LIMIT: i32 = 10;

/// The retention reported for every listed message.
pub const LISTED_RETENTION_HOURS: i32 = 10;

/// The retention of a request: the one it names, else the default.
pub open spec fn retention_of(requested: Option<i32>) -> i32 {
    match requested {
        Some(h) => h,
        None => DEFAULT_RETENTION_HOURS,
    }
}

/// The expiry `e` of a message kept `hours` hours and posted at `now`: exactly `hours`
/// later when `hours` is positive, none otherwise.
pub open spec fn is_expiry_of(e: Option<Timestamp>, now: Timestamp, hours: i32) -> bool {
    match e {
        Some(t) => hours > 0 && t.secs == now.secs + hours * SECS_PER_HOUR && t.nanos == now.nanos,
        None => hours <= 0,
    }
}

/// The expiry of a message kept `hours` hours can be computed at `now`: no date
/// arithmetic is needed, or the expiry lies on the calendar.
pub open spec fn expiry_fits(now: Timestamp, hours: i32) -> bool {
    hours > 0 ==> hours_fit(now, hours as int)
}

/// The moment a message kept `hours` hours and posted at `now` expires.
pub fn expiry(now: &Timestamp, hours: i32) -> (r: Option<Timestamp>)
    requires
        expiry_fits(*now, hours),
    ensures
        is_expiry_of(r, *now, hours),
{
    if hours > 0 {
        chrono_add_hours(now, hours)
    } else {
        None
    }
}

/// The room lookup found the room: it counted more than zero.
pub open spec fn room_found(count: Option<u64>) -> bool {
    count matches Some(n) && n > 0
}

/// Whether the room lookup found the room: a count above zero; a failed lookup counts
/// as zero.
pub fn room_exists(count: Option<u64>) -> (b: bool)
    ensures
        b == room_found(count),
{
    match count {
        Some(n) => n > 0,
        None => false,
    }
}

fn copy_text(o: &Option<String>) -> (r: Option<String>)
    ensures
        r == *o,
{
    match o {
        Some(t) => Some(t.clone()),
        None => None,
    }
}

/// The message that a request asks to store, posted at `now`.
pub open spec fn is_new_message_of(m: NewMessage, req: SendMessageRequest, now: Timestamp) -> bool {
    &&& m.room_id == req.room_id
    &&& m.user_id == req.user_id
    &&& m.message_type == req.message_type
    &&& m.content == req.content
    &&& m.file_url == req.file_url
    &&& m.file_name == req.file_name
    &&& m.file_size == req.file_size
    &&& m.retention_hours == retention_of(req.retention_hours)
    &&& is_expiry_of(m.expires_at, now, m.retention_hours)
}

/// What posting needs of the clock: when the room was found and the message is to
/// expire, the expiry lies on the calendar. Nothing otherwise.
pub open spec fn posting_clock_ok(room_count: Option<u64>, requested: Option<i32>, now: Timestamp) -> bool {
    room_found(room_count) ==> expiry_fits(now, retention_of(requested))
}

/// Whether posting a message that asks for retention `requested` at `now`, after the
/// room lookup gave `room_count`, can compute its expiry.
pub fn posting_clock_fits(room_count: Option<u64>, requested: Option<i32>, now: &Timestamp) -> (b:
    bool)
    ensures
        b == posting_clock_ok(room_count, requested, *now),
{
    if !room_exists(room_count) {
        return true;
    }
    let hours = match requested {
        Some(h) => h,
        None => DEFAULT_RETENTION_HOURS,
    };
    hours <= 0 || fits_hours(now, hours)
}

/// The first step of posting a message: refuse it when the room lookup (`room_count`,
/// `None` when the lookup failed) found no room, else the message to store, posted at
/// `now`.
pub fn plan_send(req: SendMessageRequest, room_count: Option<u64>, now: Timestamp) -> (r: Result<
    NewMessage,
    ApiReply,
>)
    requires
        posting_clock_ok(room_count, req.retention_hours, now),
    ensures
        match r {
            Ok(m) => room_found(room_count) && is_new_message_of(m, req, now),
            Err(reply) => !room_found(room_count) && (reply matches ApiReply::NotFound(t)
                && t@ == "Room not found"@),
        },
{
    if !room_exists(room_count) {
        return Err(ApiReply::NotFound("Room not found".to_owned()));
    }
    let retention_hours = match req.retention_hours {
        Some(h) => h,
        None => DEFAULT_RETENTION_HOURS,
    };
    let expires_at = expiry(&now, retention_hours);
    Ok(
        NewMessage {
            room_id: req.room_id,
            user_id: req.user_id,
            message_type: req.message_type,
            content: req.content,
            file_url: req.file_url,
            file_name: req.file_name,
            file_size: req.file_size,
            retention_hours,
            expires_at,
        },
    )
}

/// The answer for a stored message `m` that got id `id`.
pub open spec fn is_response_of(r: MessageResponse, m: NewMessage, id: i32) -> bool {
    &&& r.id == id
    &&& r.message_type == m.message_type
    &&& r.content == m.content
    &&& r.file_url == m.file_url
    &&& r.file_name == m.file_name
    &&& r.file_size == m.file_size
    &&& r.retention_hours == m.retention_hours
}

/// The second step of posting a message: the answer once storing `m` gave the new id, or
/// failed for the reason given.
pub fn send_outcome(m: &NewMessage, stored: Result<i32, String>) -> (reply: ApiReply)
    ensures
        match stored {
            Ok(id) => reply matches ApiReply::Created(r) && is_response_of(r, *m, id),
            Err(reason) => reply matches ApiReply::BadRequest(t) && t@ == "Error sending message: "@
                + reason@,
        },
{
    match stored {
        Ok(id) => ApiReply::Created(
            MessageResponse {
                id,
                message_type: m.message_type.clone(),
                content: copy_text(&m.content),
                file_url: copy_text(&m.file_url),
                file_name: copy_text(&m.file_name),
                file_size: m.file_size,
                retention_hours: m.retention_hours,
            },
        ),
        Err(reason) => {
            let mut t = "Error sending message: ".to_owned();
            t.append(reason.as_str());
            ApiReply::BadRequest(t)
        },
    }
}

/// The limit a query asks for, the default when it names none.
pub open spec fn limit_of(q: GetMessagesQuery) -> i32 {
    match q.limit {
        Some(l) => l,
        None => DEFAULT_RECENT_LIMIT,
    }
}

/// How many recent messages to list: the limit, read as an unsigned 64-bit number (a
/// negative limit wraps around to a huge one, so lists everything).
pub fn recent_limit(q: &GetMessagesQuery) -> (n: u64)
    ensures
        limit_of(*q) >= 0 ==> n == limit_of(*q),
        limit_of(*q) < 0 ==> n == limit_of(*q) + 0x1_0000_0000_0000_0000,
        match q.limit {
            Some(l) => if l >= 0 {
                n == l
            } else {
                n == l + 0x1_0000_0000_0000_0000
            },
            None => n == 10,
        },
{
    let l: i32 = match q.limit {
        Some(l) => l,
        None => DEFAULT_RECENT_LIMIT,
    };
    let n: u64 = l as u64;
    assert(l >= 0 ==> n == l) by (bit_vector)
        requires
            n == l as u64,
    ;
    assert(l < 0 ==> n == l + 0x1_0000_0000_0000_0000) by (bit_vector)
        requires
            n == l as u64,
    ;
    n
}

/// The listing entry for stored message `s`; every entry reports the same retention.
pub open spec fn is_listing_of(r: MessageResponse, s: StoredMessage) -> bool {
    &&& r.id == s.id
    &&& r.message_type == s.message_type
    &&& r.content == s.content
    &&& r.file_url == s.file_url
    &&& r.file_name == s.file_name
    &&& r.file_size == s.file_size
    &&& r.retention_hours == LISTED_RETENTION_HOURS
}

/// The answer listing the recent messages `rows`, in the order given.
pub fn recent_messages_reply(rows: &Vec<StoredMessage>) -> (reply: ApiReply)
    ensures
        reply matches ApiReply::Messages(out) && out@.len() == rows@.len() && forall|i: int|
            0 <= i < rows@.len() ==> is_listing_of(#[trigger] out@[i], rows@[i]),
{
    let mut out: Vec<MessageResponse> = Vec::new();
    let mut i: usize = 0;
    while i < rows.len()
        invariant
            i <= rows@.len(),
            out@.len() == i,
            forall|j: int| 0 <= j < i ==> is_listing_of(#[trigger] out@[j], rows@[j]),
        decreases rows@.len() - i,
    {
        let row = &rows[i];
        out.push(
            MessageResponse {
                id: row.id,
                message_type: row.message_type.clone(),
                content: copy_text(&row.content),
                file_url: copy_text(&row.file_url),
                file_name: copy_text(&row.file_name),
                file_size: row.file_size,
                retention_hours: LISTED_RETENTION_HOURS,
            },
        );
        i = i + 1;
    }
    ApiReply::Messages(out)
}

/// A message kept a positive number of hours expires after it was posted, by exactly that
/// many hours; one kept zero or fewer hours never expires.
pub proof fn lemma_expiry_after_posting(e: Option<Timestamp>, now: Timestamp, hours: i32)
    requires
        is_expiry_of(e, now, hours),
    ensures
        hours > 0 ==> (e matches Some(t) && t.secs > now.secs && t.secs - now.secs == hours
            * SECS_PER_HOUR),
        hours <= 0 ==> e is None,
{
}

/// A request with no retention is kept 24 hours; one that names a retention is kept
/// exactly that long.
pub proof fn lemma_retention_default(requested: Option<i32>)
    ensures
        requested is None ==> retention_of(requested) == 24,
        requested matches Some(h) ==> retention_of(requested) == h,
{
}

/// The message stored for a request in a found room carries every field of the request
/// unchanged, the retention it names (24 hours when it names none), and an expiry
/// exactly that many hours after posting when the retention is positive, none otherwise.
pub proof fn lemma_stored_message_keeps_request(m: NewMessage, req: SendMessageRequest, now: Timestamp)
    requires
        is_new_message_of(m, req, now),
    ensures
        m.room_id == req.room_id,
        m.user_id == req.user_id,
        m.message_type == req.message_type,
        m.content == req.content,
        m.file_url == req.file_url,
        m.file_name == req.file_name,
        m.file_size == req.file_size,
        req.retention_hours is None ==> m.retention_hours == 24,
        req.retention_hours matches Some(h) ==> m.retention_hours == h,
        m.retention_hours > 0 ==> (m.expires_at matches Some(t) && t.secs == now.secs
            + m.retention_hours * 3600 && t.nanos == now.nanos),
        m.retention_hours <= 0 ==> m.expires_at is None,
{
}

/// The answer to a stored message carries the id it got and the message's own fields.
pub proof fn lemma_response_keeps_message(r: MessageResponse, m: NewMessage, id: i32)
    requires
        is_response_of(r, m, id),
    ensures
        r.id == id,
        r.message_type == m.message_type,
        r.content == m.content,
        r.file_url == m.file_url,
        r.file_name == m.file_name,
        r.file_size == m.file_size,
        r.retention_hours == m.retention_hours,
{
}

/// Posting end to end: the 201 answer (`send_outcome` on the message `plan_send` made)
/// echoes the request's fields, with the retention it names or 24 hours, and the new id.
pub proof fn lemma_created_answer_echoes_request(
    req: SendMessageRequest,
    now: Timestamp,
    m: NewMessage,
    id: i32,
    r: MessageResponse,
)
    requires
        is_new_message_of(m, req, now),
        is_response_of(r, m, id),
    ensures
        r.id == id,
        r.message_type == req.message_type,
        r.content == req.content,
        r.file_url == req.file_url,
        r.file_name == req.file_name,
        r.file_size == req.file_size,
        req.retention_hours is None ==> r.retention_hours == 24,
        req.retention_hours matches Some(h) ==> r.retention_hours == h,
{
}

/// A query that names a limit lists that many; one that names none lists 10.
pub proof fn lemma_limit_of(q: GetMessagesQuery)
    ensures
        q.limit matches Some(l) ==> limit_of(q) == l,
        q.limit is None ==> limit_of(q) == 10,
{
}

/// A listed entry reports the stored row's fields unchanged, with a retention of 10.
pub proof fn lemma_listing_keeps_row(r: MessageResponse, s: StoredMessage)
    requires
        is_listing_of(r, s),
    ensures
        r.id == s.id,
        r.message_type == s.message_type,
        r.content == s.content,
        r.file_url == s.file_url,
        r.file_name == s.file_name,
        r.file_size == s.file_size,
        r.retention_hours == 10,
{
}

/// Posting needs nothing of the clock when the room was not found or the message is not
/// to expire; otherwise it needs exactly that the expiry can be computed.
pub proof fn lemma_posting_clock(room_count: Option<u64>, requested: Option<i32>, now: Timestamp)
    ensures
        !(room_count matches Some(n) && n > 0) ==> posting_clock_ok(room_count, requested, now),
        retention_of(requested) <= 0 ==> posting_clock_ok(room_count, requested, now),
        (room_count matches Some(n) && n > 0) && retention_of(requested) > 0 ==> (posting_clock_ok(
            room_count,
            requested,
            now,
        ) <==> hours_fit(now, retention_of(requested) as int)),
        room_found(room_count) <==> (room_count matches Some(n) && n > 0),
{
}

} // verus!
