use vstd::prelude::*;

verus! {

/// Text delivered to one connected client.
pub struct WsMessage(pub String);

/// A client `addr` joins room `room_id` as user `user_id`.
pub struct Connect<R> {
    pub addr: R,
    pub room_id: String,
    pub user_id: i32,
}

/// User `user_id` leaves room `room_id`.
pub struct Disconnect {
    pub room_id: String,
    pub user_id: i32,
}

/// A chat message that is broadcast to every member of `room_id`.
pub struct ChatMessage {
    pub room_id: String,
    pub user_id: i32,
    pub message_type: String,
    pub content: Option<String>,
    pub file_url: Option<String>,
    pub file_name: Option<String>,
    pub file_size: Option<i32>,
    pub retention_hours: i32,
}

/// One client of a room: its user id and the handle that reaches it.
pub struct Member<R> {
    pub user_id: i32,
    pub addr: R,
}

/// A room and its members, in the order in which they joined.
pub struct Room<R> {
    pub room_id: String,
    pub members: Vec<Member<R>>,
}

/// The registry of rooms: for each room, the clients connected to it. Clients join
/// either under a user id of their own (`handle_connect`) or under a session number
/// that the registry hands out (`add_session`), counting up from 0.
pub struct ChatServer<R> {
    sessions: Vec<Room<R>>,
    next_session: i32,
}

/// The members of a room as (user id, handle) pairs.
pub open spec fn member_pairs<R>(ms: Seq<Member<R>>) -> Seq<(i32, R)> {
    ms.map_values(|m: Member<R>| (m.user_id, m.addr))
}

impl<R> Room<R> {
    pub open spec fn member_seq(&self) -> Seq<(i32, R)> {
        member_pairs(self.members@)
    }
}

/// No user id occurs twice among the members.
pub open spec fn ids_distinct<R>(s: Seq<(i32, R)>) -> bool {
    forall|i: int, j: int| 0 <= i < s.len() && 0 <= j < s.len() && i != j ==> s[i].0 != s[j].0
}

/// No room id occurs twice among the rooms.
pub open spec fn room_ids_distinct<R>(s: Seq<Room<R>>) -> bool {
    forall|i: int, j: int|
        0 <= i < s.len() && 0 <= j < s.len() && i != j ==> s[i].room_id@ != s[j].room_id@
}

pub open spec fn has_room<R>(s: Seq<Room<R>>, k: Seq<char>) -> bool {
    exists|i: int| 0 <= i < s.len() && s[i].room_id@ == k
}

pub open spec fn room_pos<R>(s: Seq<Room<R>>, k: Seq<char>) -> int {
    choose|i: int| 0 <= i < s.len() && s[i].room_id@ == k
}

/// The rooms as a map from room id to its members.
pub open spec fn rooms_map<R>(s: Seq<Room<R>>) -> Map<Seq<char>, Seq<(i32, R)>> {
    Map::new(|k: Seq<char>| has_room(s, k), |k: Seq<char>| s[room_pos(s, k)].member_seq())
}

pub proof fn lemma_rooms_map_at<R>(s: Seq<Room<R>>, i: int)
    requires
        room_ids_distinct(s),
        0 <= i < s.len(),
    ensures
        rooms_map(s).contains_key(s[i].room_id@),
        rooms_map(s)[s[i].room_id@] == s[i].member_seq(),
{
    let k = s[i].room_id@;
    assert(has_room(s, k));
    let j = room_pos(s, k);
    assert(s[j].room_id@ == k);
}


pub proof fn lemma_rooms_map_update<R>(s: Seq<Room<R>>, i: int, r: Room<R>)
    requires
        room_ids_distinct(s),
        0 <= i < s.len(),
        r.room_id@ == s[i].room_id@,
    ensures
        room_ids_distinct(s.update(i, r)),
        rooms_map(s.update(i, r)) == rooms_map(s).insert(r.room_id@, r.member_seq()),
{
    let t = s.update(i, r);
    let k = r.room_id@;
    assert forall|a: Seq<char>| has_room(t, a) <==> has_room(s, a) || a == k by {
        if has_room(s, a) {
            let j = room_pos(s, a);
            assert(t[j].room_id@ == a);
        }
        if has_room(t, a) {
            let j = room_pos(t, a);
            assert(s[j].room_id@ == a);
        }
        if a == k {
            assert(t[i].room_id@ == a);
        }
    }
    assert forall|a: Seq<char>| #[trigger] rooms_map(t).contains_key(a) implies rooms_map(t)[a]
        == rooms_map(s).insert(k, r.member_seq())[a] by {
        let j = room_pos(t, a);
        if a == k {
            assert(j == i);
        } else {
            let j2 = room_pos(s, a);
            assert(s[j2].room_id@ == a);
            assert(j == j2);
        }
    }
    assert(rooms_map(t) =~= rooms_map(s).insert(k, r.member_seq()));
}

pub proof fn lemma_rooms_map_push<R>(s: Seq<Room<R>>, r: Room<R>)
    requires
        room_ids_distinct(s),
        !has_room(s, r.room_id@),
    ensures
        room_ids_distinct(s.push(r)),
        rooms_map(s.push(r)) == rooms_map(s).insert(r.room_id@, r.member_seq()),
{
    let t = s.push(r);
    let k = r.room_id@;
    let n = s.len() as int;
    assert forall|a: Seq<char>| has_room(t, a) <==> has_room(s, a) || a == k by {
        if has_room(s, a) {
            let j = room_pos(s, a);
            assert(t[j].room_id@ == a);
        }
        if has_room(t, a) {
            let j = room_pos(t, a);
            if j < n {
                assert(s[j].room_id@ == a);
            }
        }
        if a == k {
            assert(t[n].room_id@ == a);
        }
    }
    assert forall|a: Seq<char>| #[trigger] rooms_map(t).contains_key(a) implies rooms_map(t)[a]
        == rooms_map(s).insert(k, r.member_seq())[a] by {
        let j = room_pos(t, a);
        if a == k {
            if j < n {
                assert(s[j].room_id@ == k);
            }
            assert(j == n);
        } else {
            let j2 = room_pos(s, a);
            assert(s[j2].room_id@ == a);
            assert(t[j2].room_id@ == a);
            assert(j == j2);
        }
    }
    assert(rooms_map(t) =~= rooms_map(s).insert(k, r.member_seq()));
}

pub proof fn lemma_rooms_map_remove<R>(s: Seq<Room<R>>, i: int)
    requires
        room_ids_distinct(s),
        0 <= i < s.len(),
    ensures
        room_ids_distinct(s.remove(i)),
        rooms_map(s.remove(i)) == rooms_map(s).remove(s[i].room_id@),
{
    let t = s.remove(i);
    let k = s[i].room_id@;
    assert forall|a: int| 0 <= a < t.len() implies #[trigger] t[a] == (if a < i { s[a] } else { s[a + 1] }) by {}
    assert forall|a: Seq<char>| has_room(t, a) <==> has_room(s, a) && a != k by {
        if has_room(s, a) && a != k {
            let j = room_pos(s, a);
            if j < i {
                assert(t[j].room_id@ == a);
            } else {
                assert(j != i);
                assert(t[j - 1].room_id@ == a);
            }
        }
        if has_room(t, a) {
            let j = room_pos(t, a);
            if j < i {
                assert(s[j].room_id@ == a);
            } else {
                assert(s[j + 1].room_id@ == a);
            }
        }
    }
    assert forall|a: Seq<char>| #[trigger] rooms_map(t).contains_key(a) implies rooms_map(t)[a]
        == rooms_map(s).remove(k)[a] by {
        let j = room_pos(t, a);
        let j2 = room_pos(s, a);
        assert(s[j2].room_id@ == a);
        if j < i {
            assert(s[j].room_id@ == a);
            assert(j == j2);
        } else {
            assert(s[j + 1].room_id@ == a);
            assert(j + 1 == j2);
        }
    }
    assert(rooms_map(t) =~= rooms_map(s).remove(k));
}


/// Rooms have distinct ids; each room has at least one member and distinct user ids.
pub open spec fn rooms_seq_wf<R>(s: Seq<Room<R>>) -> bool {
    &&& room_ids_distinct(s)
    &&& forall|i: int|
        0 <= i < s.len() ==> {
            &&& ids_distinct(#[trigger] s[i].member_seq())
            &&& s[i].members@.len() > 0
        }
}

proof fn lemma_rooms_wf_update<R>(s: Seq<Room<R>>, i: int, r: Room<R>)
    requires
        rooms_seq_wf(s),
        0 <= i < s.len(),
        r.room_id@ == s[i].room_id@,
        ids_distinct(r.member_seq()),
        r.members@.len() > 0,
    ensures
        rooms_seq_wf(s.update(i, r)),
{
    lemma_rooms_map_update(s, i, r);
    let t = s.update(i, r);
    assert forall|x: int| 0 <= x < t.len() implies ids_distinct(#[trigger] t[x].member_seq())
        && t[x].members@.len() > 0 by {
        if x != i {
            assert(ids_distinct(s[x].member_seq()));
        }
    }
}

proof fn lemma_rooms_wf_push<R>(s: Seq<Room<R>>, r: Room<R>)
    requires
        rooms_seq_wf(s),
        !has_room(s, r.room_id@),
        ids_distinct(r.member_seq()),
        r.members@.len() > 0,
    ensures
        rooms_seq_wf(s.push(r)),
{
    lemma_rooms_map_push(s, r);
    let t = s.push(r);
    assert forall|x: int| 0 <= x < t.len() implies ids_distinct(#[trigger] t[x].member_seq())
        && t[x].members@.len() > 0 by {
        if x < s.len() {
            assert(ids_distinct(s[x].member_seq()));
        }
    }
}

proof fn lemma_rooms_wf_remove<R>(s: Seq<Room<R>>, i: int)
    requires
        rooms_seq_wf(s),
        0 <= i < s.len(),
    ensures
        rooms_seq_wf(s.remove(i)),
{
    lemma_rooms_map_remove(s, i);
    let t = s.remove(i);
    assert forall|x: int| 0 <= x < t.len() implies ids_distinct(#[trigger] t[x].member_seq())
        && t[x].members@.len() > 0 by {
        let y = if x < i {
            x
        } else {
            x + 1
        };
        assert(t[x] == s[y]);
        assert(ids_distinct(s[y].member_seq()));
    }
}

pub open spec fn has_member<R>(s: Seq<(i32, R)>, u: i32) -> bool {
    exists|i: int| 0 <= i < s.len() && s[i].0 == u
}

pub open spec fn member_pos<R>(s: Seq<(i32, R)>, u: i32) -> int {
    choose|i: int| 0 <= i < s.len() && s[i].0 == u
}

/// The members after `u` joins with handle `a`: an existing entry of `u` gets the new
/// handle in place, a new user is added last.
pub open spec fn with_member<R>(s: Seq<(i32, R)>, u: i32, a: R) -> Seq<(i32, R)> {
    if has_member(s, u) {
        s.update(member_pos(s, u), (u, a))
    } else {
        s.push((u, a))
    }
}

/// The members after `u` leaves.
pub open spec fn without_member<R>(s: Seq<(i32, R)>, u: i32) -> Seq<(i32, R)> {
    if has_member(s, u) {
        s.remove(member_pos(s, u))
    } else {
        s
    }
}

/// The registry after `u` joins room `room` with handle `a`; the room is created if it
/// does not exist yet.
pub open spec fn after_connect<R>(
    rooms: Map<Seq<char>, Seq<(i32, R)>>,
    room: Seq<char>,
    u: i32,
    a: R,
) -> Map<Seq<char>, Seq<(i32, R)>> {
    let members = if rooms.contains_key(room) {
        rooms[room]
    } else {
        Seq::empty()
    };
    rooms.insert(room, with_member(members, u, a))
}

/// The registry after `u` leaves room `room`; a room left without members is dropped.
pub open spec fn after_disconnect<R>(
    rooms: Map<Seq<char>, Seq<(i32, R)>>,
    room: Seq<char>,
    u: i32,
) -> Map<Seq<char>, Seq<(i32, R)>> {
    if rooms.contains_key(room) {
        let rest = without_member(rooms[room], u);
        if rest.len() == 0 {
            rooms.remove(room)
        } else {
            rooms.insert(room, rest)
        }
    } else {
        rooms
    }
}

/// The members of room `room`, none when the room is unknown.
pub open spec fn room_members<R>(rooms: Map<Seq<char>, Seq<(i32, R)>>, room: Seq<char>) -> Seq<
    (i32, R),
> {
    if rooms.contains_key(room) {
        rooms[room]
    } else {
        Seq::empty()
    }
}

/// Every room has at least one member and no user twice.
pub open spec fn rooms_wf<R>(rooms: Map<Seq<char>, Seq<(i32, R)>>) -> bool {
    forall|k: Seq<char>|
        #[trigger] rooms.contains_key(k) ==> rooms[k].len() > 0 && ids_distinct(rooms[k])
}

proof fn lemma_member_pos_unique<R>(s: Seq<(i32, R)>, j: int)
    requires
        ids_distinct(s),
        0 <= j < s.len(),
    ensures
        has_member(s, s[j].0),
        member_pos(s, s[j].0) == j,
{
    assert(has_member(s, s[j].0));
}

proof fn lemma_member_pairs_update<R>(ms: Seq<Member<R>>, j: int, m: Member<R>)
    requires
        0 <= j < ms.len(),
    ensures
        member_pairs(ms.update(j, m)) == member_pairs(ms).update(j, (m.user_id, m.addr)),
{
    assert(member_pairs(ms.update(j, m)) =~= member_pairs(ms).update(j, (m.user_id, m.addr)));
}

proof fn lemma_member_pairs_push<R>(ms: Seq<Member<R>>, m: Member<R>)
    ensures
        member_pairs(ms.push(m)) == member_pairs(ms).push((m.user_id, m.addr)),
{
    assert(member_pairs(ms.push(m)) =~= member_pairs(ms).push((m.user_id, m.addr)));
}

proof fn lemma_member_pairs_remove<R>(ms: Seq<Member<R>>, j: int)
    requires
        0 <= j < ms.len(),
    ensures
        member_pairs(ms.remove(j)) == member_pairs(ms).remove(j),
{
    assert(member_pairs(ms.remove(j)) =~= member_pairs(ms).remove(j));
}

impl<R> View for ChatServer<R> {
    type V = Map<Seq<char>, Seq<(i32, R)>>;

    closed spec fn view(&self) -> Map<Seq<char>, Seq<(i32, R)>> {
        rooms_map(self.sessions@)
    }
}

/// Where user `u` stands among `members`, if anywhere.
fn find_member<R>(members: &Vec<Member<R>>, u: i32) -> (r: Option<usize>)
    ensures
        match r {
            Some(j) => j < members@.len() && members@[j as int].user_id == u,
            None => !has_member(member_pairs(members@), u),
        },
{
    let mut j: usize = 0;
    while j < members.len()
        invariant
            j <= members@.len(),
            forall|x: int| 0 <= x < j ==> members@[x].user_id != u,
        decreases members@.len() - j,
    {
        if members[j].user_id == u {
            return Some(j);
        }
        j = j + 1;
    }
    None
}

impl<R> ChatServer<R> {
    /// Rooms have distinct ids; each room has at least one member and distinct user ids.
    pub closed spec fn wf(&self) -> bool {
        &&& rooms_seq_wf(self.sessions@)
        &&& 0 <= self.next_session
    }

    /// The session number that `add_session` tries first.
    pub closed spec fn next_session_id(&self) -> int {
        self.next_session as int
    }

    /// An empty registry.
    pub fn new() -> (s: Self)
        ensures
            s.wf(),
            s@ == Map::<Seq<char>, Seq<(i32, R)>>::empty(),
            s.next_session_id() == 0,
    {
        let s = ChatServer { sessions: Vec::new(), next_session: 0 };
        assert(s@ =~= Map::<Seq<char>, Seq<(i32, R)>>::empty());
        s
    }

    /// Where room `room_id` stands in the registry, if anywhere.
    fn find_room(&self, room_id: &String) -> (r: Option<usize>)
        ensures
            match r {
                Some(i) => i < self.sessions@.len() && self.sessions@[i as int].room_id@
                    == room_id@,
                None => !has_room(self.sessions@, room_id@),
            },
    {
        let mut i: usize = 0;
        while i < self.sessions.len()
            invariant
                i <= self.sessions@.len(),
                forall|x: int| 0 <= x < i ==> self.sessions@[x].room_id@ != room_id@,
            decreases self.sessions@.len() - i,
        {
            if self.sessions[i].room_id == *room_id {
                return Some(i);
            }
            i = i + 1;
        }
        None
    }

    /// A client joins a room: the room is created if needed, and a user already in the
    /// room gets the new handle.
    pub fn handle_connect(&mut self, msg: Connect<R>)
        requires
            old(self).wf(),
        ensures
            final(self).wf(),
            final(self)@ == after_connect(old(self)@, msg.room_id@, msg.user_id, msg.addr),
            final(self).next_session_id() == old(self).next_session_id(),
    {
        let Connect { addr, room_id, user_id } = msg;
        let ghost old_rooms = self.sessions@;
        let ghost k = room_id@;
        match self.find_room(&room_id) {
            Some(i) => {
                proof {
                    lemma_rooms_map_at(old_rooms, i as int);
                    assert(ids_distinct(old_rooms[i as int].member_seq()));
                }
                let ghost old_ms = old_rooms[i as int].members@;
                match find_member(&self.sessions[i].members, user_id) {
                    Some(j) => {
                        self.sessions[i].members[j] = Member { user_id, addr };
                        proof {
                            lemma_member_pos_unique(member_pairs(old_ms), j as int);
                            lemma_member_pairs_update(old_ms, j as int, Member { user_id, addr });
                            let os = member_pairs(old_ms);
                            let ns = self.sessions@[i as int].member_seq();
                            assert(forall|x: int| 0 <= x < ns.len() ==> #[trigger] ns[x].0 == os[x].0);
                        }
                    },
                    None => {
                        self.sessions[i].members.push(Member { user_id, addr });
                        proof {
                            lemma_member_pairs_push(old_ms, Member { user_id, addr });
                            let os = member_pairs(old_ms);
                            let ns = self.sessions@[i as int].member_seq();
                            assert forall|x: int| 0 <= x < os.len() implies #[trigger] ns[x].0 == os[x].0
                                && os[x].0 != user_id by {}
                            assert(ns[os.len() as int].0 == user_id);
                        }
                    },
                }
                proof {
                    let r = self.sessions@[i as int];
                    assert(self.sessions@ == old_rooms.update(i as int, r));
                    lemma_rooms_map_update(old_rooms, i as int, r);
                    assert(ids_distinct(r.member_seq()));
                    assert(r.members@.len() >= old_ms.len());
                    lemma_rooms_wf_update(old_rooms, i as int, r);
                }
            },
            None => {
                let mut members: Vec<Member<R>> = Vec::new();
                members.push(Member { user_id, addr });
                let room = Room { room_id, members };
                proof {
                    assert(room.member_seq() =~= seq![(user_id, addr)]);
                    assert(!rooms_map(old_rooms).contains_key(k));
                    assert(!has_member(Seq::<(i32, R)>::empty(), user_id));
                    assert(with_member(Seq::<(i32, R)>::empty(), user_id, addr) =~= seq![
                        (user_id, addr),
                    ]);
                    lemma_rooms_map_push(old_rooms, room);
                    lemma_rooms_wf_push(old_rooms, room);
                }
                self.sessions.push(room);
            },
        }
    }

    /// A client leaves a room; a room left without members is dropped. Nothing changes
    /// when the room or the user is unknown.
    pub fn handle_disconnect(&mut self, msg: Disconnect)
        requires
            old(self).wf(),
        ensures
            final(self).wf(),
            final(self)@ == after_disconnect(old(self)@, msg.room_id@, msg.user_id),
            final(self).next_session_id() == old(self).next_session_id(),
    {
        let Disconnect { room_id, user_id } = msg;
        let ghost old_rooms = self.sessions@;
        let ghost k = room_id@;
        match self.find_room(&room_id) {
            Some(i) => {
                proof {
                    lemma_rooms_map_at(old_rooms, i as int);
                    assert(ids_distinct(old_rooms[i as int].member_seq()));
                }
                let ghost old_ms = old_rooms[i as int].members@;
                let ghost os = member_pairs(old_ms);
                match find_member(&self.sessions[i].members, user_id) {
                    Some(j) => {
                        let _left = self.sessions[i].members.remove(j);
                        proof {
                            lemma_member_pos_unique(os, j as int);
                            lemma_member_pairs_remove(old_ms, j as int);
                            let ns = self.sessions@[i as int].member_seq();
                            assert(ns == without_member(os, user_id));
                            assert forall|x: int| 0 <= x < ns.len() implies #[trigger] ns[x].0 == (
                            if x < j {
                                os[x].0
                            } else {
                                os[x + 1].0
                            }) by {}
                            assert(ids_distinct(ns));
                        }
                    },
                    None => {
                        proof {
                            assert(without_member(os, user_id) == os);
                            assert(self.sessions@ == old_rooms);
                        }
                    },
                }
                proof {
                    let r = self.sessions@[i as int];
                    assert(r.member_seq() == without_member(os, user_id));
                    assert(ids_distinct(r.member_seq()));
                    assert(r.room_id@ == k);
                    assert(self.sessions@ == old_rooms.update(i as int, r));
                    assert(r.member_seq().len() == r.members@.len());
                }
                if self.sessions[i].members.is_empty() {
                    let _room = self.sessions.remove(i);
                    proof {
                        assert(self.sessions@ =~= old_rooms.remove(i as int));
                        lemma_rooms_map_remove(old_rooms, i as int);
                        lemma_rooms_wf_remove(old_rooms, i as int);
                    }
                } else {
                    proof {
                        let r = self.sessions@[i as int];
                        assert(self.sessions@ == old_rooms.update(i as int, r));
                        lemma_rooms_map_update(old_rooms, i as int, r);
                        lemma_rooms_wf_update(old_rooms, i as int, r);
                    }
                }
            },
            None => {
                proof {
                    assert(!rooms_map(old_rooms).contains_key(k));
                }
            },
        }
    }

    /// The deliveries of `message` to room `room_id`: one per member, in the order in
    /// which the members joined; none when the room is unknown.
    pub fn send_message<'a>(&'a self, room_id: &str, message: &str) -> (out: Vec<
        (&'a R, WsMessage),
    >)
        requires
            self.wf(),
        ensures
            out@.len() == room_members(self@, room_id@).len(),
            forall|x: int|
                0 <= x < out@.len() ==> *(#[trigger] out@[x]).0 == room_members(self@, room_id@)[x].1
                    && out@[x].1.0@ == message@,
    {
        let key = room_id.to_owned();
        let mut out: Vec<(&'a R, WsMessage)> = Vec::new();
        match self.find_room(&key) {
            Some(i) => {
                proof {
                    lemma_rooms_map_at(self.sessions@, i as int);
                }
                let members = &self.sessions[i].members;
                let ghost ms = member_pairs(members@);
                let mut j: usize = 0;
                while j < members.len()
                    invariant
                        j <= members@.len(),
                        ms == member_pairs(members@),
                        out@.len() == j,
                        forall|x: int|
                            0 <= x < j ==> *(#[trigger] out@[x]).0 == ms[x].1 && out@[x].1.0@
                                == message@,
                    decreases members@.len() - j,
                {
                    out.push((&members[j].addr, WsMessage(message.to_owned())));
                    j = j + 1;
                }
            },
            None => {
                proof {
                    assert(!rooms_map(self.sessions@).contains_key(room_id@));
                }
            },
        }
        out
    }

    /// The number of clients connected to room `room_id`; zero when the room is unknown.
    pub fn get_room_user_count(&self, room_id: &str) -> (n: usize)
        requires
            self.wf(),
        ensures
            n == room_members(self@, room_id@).len(),
    {
        let key = room_id.to_owned();
        match self.find_room(&key) {
            Some(i) => {
                proof {
                    lemma_rooms_map_at(self.sessions@, i as int);
                }
                self.sessions[i].members.len()
            },
            None => {
                proof {
                    assert(!rooms_map(self.sessions@).contains_key(room_id@));
                }
                0
            },
        }
    }

    /// The smallest session number that nobody in room `room_id` holds; `None` when the
    /// room holds every number from 0 to `i32::MAX - 1`.
    fn free_session_id(&self, room_id: &String) -> (r: Option<i32>)
        requires
            self.wf(),
        ensures
            match r {
                Some(n) => 0 <= n && !has_member(room_members(self@, room_id@), n) && forall|m: i32|
                    0 <= m < n ==> has_member(room_members(self@, room_id@), m),
                None => forall|m: i32|
                    0 <= m < i32::MAX ==> has_member(room_members(self@, room_id@), m),
            },
    {
        match self.find_room(room_id) {
            Some(i) => {
                proof {
                    lemma_rooms_map_at(self.sessions@, i as int);
                }
                let members = &self.sessions[i].members;
                let ghost ms = room_members(self@, room_id@);
                assert(ms == member_pairs(members@));
                let mut c: i32 = 0;
                while c < i32::MAX
                    invariant
                        0 <= c <= i32::MAX,
                        ms == member_pairs(members@),
                        ms == room_members(self@, room_id@),
                        forall|m: i32| 0 <= m < c ==> has_member(ms, m),
                    decreases i32::MAX - c,
                {
                    match find_member(members, c) {
                        None => {
                            return Some(c);
                        },
                        Some(j) => {
                            assert(ms[j as int].0 == c);
                        },
                    }
                    c = c + 1;
                }
                None
            },
            None => {
                proof {
                    assert(!rooms_map(self.sessions@).contains_key(room_id@));
                    assert(room_members(self@, room_id@) == Seq::<(i32, R)>::empty());
                }
                Some(0)
            },
        }
    }

    /// Adds connection `session` to room `room_id` and returns its session number: the
    /// next number of the counter when nobody in the room holds it, else the smallest
    /// number that nobody in the room holds. The counter moves on by one until it
    /// reaches `i32::MAX`. `None`, with the rooms unchanged, only when the room holds
    /// every number from 0 to `i32::MAX - 1`.
    pub fn add_session(&mut self, room_id: String, session: R) -> (id: Option<i32>)
        requires
            old(self).wf(),
        ensures
            final(self).wf(),
            final(self).next_session_id() == if old(self).next_session_id() < i32::MAX {
                old(self).next_session_id() + 1
            } else {
                old(self).next_session_id()
            },
            ({
                let members = room_members(old(self)@, room_id@);
                let counter = old(self).next_session_id();
                let counter_free = counter < i32::MAX && !has_member(members, counter as i32);
                match id {
                    Some(n) => {
                        &&& 0 <= n
                        &&& !has_member(members, n)
                        &&& counter_free ==> n == counter
                        &&& !counter_free ==> forall|m: i32| 0 <= m < n ==> has_member(members, m)
                        &&& final(self)@ == after_connect(old(self)@, room_id@, n, session)
                    },
                    None => {
                        &&& !counter_free
                        &&& forall|m: i32| 0 <= m < i32::MAX ==> has_member(members, m)
                        &&& final(self)@ == old(self)@
                    },
                }
            }),
    {
        let counter = self.next_session;
        let ghost members = room_members(self@, room_id@);
        let counter_free = if counter < i32::MAX {
            match self.find_room(&room_id) {
                Some(i) => {
                    proof {
                        lemma_rooms_map_at(self.sessions@, i as int);
                    }
                    match find_member(&self.sessions[i].members, counter) {
                        Some(j) => {
                            assert(members[j as int].0 == counter);
                            false
                        },
                        None => true,
                    }
                },
                None => {
                    proof {
                        assert(!rooms_map(self.sessions@).contains_key(room_id@));
                    }
                    true
                },
            }
        } else {
            false
        };
        assert(counter_free == (counter < i32::MAX && !has_member(members, counter)));
        if counter < i32::MAX {
            self.next_session = counter + 1;
        }
        let picked = if counter_free {
            Some(counter)
        } else {
            self.free_session_id(&room_id)
        };
        assert(self@ == old(self)@);
        match picked {
            Some(n) => {
                self.handle_connect(Connect { addr: session, room_id, user_id: n });
                Some(n)
            },
            None => None,
        }
    }

    /// Removes connection `session_id` from room `room_id`; a room left without
    /// connections is dropped. Nothing changes when either is unknown.
    pub fn remove_session(&mut self, room_id: &str, session_id: i32)
        requires
            old(self).wf(),
        ensures
            final(self).wf(),
            final(self)@ == after_disconnect(old(self)@, room_id@, session_id),
            final(self).next_session_id() == old(self).next_session_id(),
    {
        self.handle_disconnect(Disconnect { room_id: room_id.to_owned(), user_id: session_id });
    }

    /// A well-formed registry has no empty room and no user twice in one room.
    pub proof fn lemma_view_wf(&self)
        requires
            self.wf(),
        ensures
            rooms_wf(self@),
    {
        assert forall|k: Seq<char>| #[trigger] self@.contains_key(k) implies self@[k].len() > 0
            && ids_distinct(self@[k]) by {
            let i = room_pos(self.sessions@, k);
            assert(ids_distinct(self.sessions@[i].member_seq()));
        }
    }
}

/// A user who was not in a room and leaves it right after joining leaves the registry as
/// it was: a room created by the join is dropped again.
pub proof fn lemma_disconnect_undoes_connect<R>(
    rooms: Map<Seq<char>, Seq<(i32, R)>>,
    room: Seq<char>,
    u: i32,
    a: R,
)
    requires
        rooms_wf(rooms),
        !has_member(room_members(rooms, room), u),
    ensures
        after_disconnect(after_connect(rooms, room, u, a), room, u) == rooms,
{
    let s = room_members(rooms, room);
    let t = s.push((u, a));
    assert(with_member(s, u, a) == t);
    if rooms.contains_key(room) {
        assert(ids_distinct(s));
    }
    assert forall|x: int, y: int| 0 <= x < t.len() && 0 <= y < t.len() && x != y implies t[x].0
        != t[y].0 by {
        if x < s.len() && y < s.len() {
            assert(t[x] == s[x] && t[y] == s[y]);
        } else if x < s.len() {
            assert(t[x] == s[x]);
        } else {
            assert(t[y] == s[y]);
        }
    }
    lemma_member_pos_unique(t, s.len() as int);
    assert(t.remove(s.len() as int) =~= s);
    let c = after_connect(rooms, room, u, a);
    assert(c[room] == t);
    assert(without_member(t, u) == s);
    if rooms.contains_key(room) {
        assert(after_disconnect(c, room, u) =~= rooms);
    } else {
        assert(s.len() == 0);
        assert(after_disconnect(c, room, u) =~= rooms);
    }
}

/// Joining again with the same handle changes nothing.
pub proof fn lemma_connect_idempotent<R>(
    rooms: Map<Seq<char>, Seq<(i32, R)>>,
    room: Seq<char>,
    u: i32,
    a: R,
)
    requires
        rooms_wf(rooms),
    ensures
        after_connect(after_connect(rooms, room, u, a), room, u, a) == after_connect(rooms, room, u, a),
{
    lemma_connect_joins(rooms, room, u, a);
    let once = after_connect(rooms, room, u, a);
    let now = once[room];
    assert(now.update(member_pos(now, u), (u, a)) =~= now);
    assert(after_connect(once, room, u, a) =~= once);
}

/// Every member id of every room lies in `lo..hi`.
pub open spec fn ids_in_range<R>(rooms: Map<Seq<char>, Seq<(i32, R)>>, lo: int, hi: int) -> bool {
    forall|k: Seq<char>, x: int|
        #![trigger rooms[k][x]]
        rooms.contains_key(k) && 0 <= x < rooms[k].len() ==> lo <= rooms[k][x].0 < hi
}

/// While every id in use is below the counter `u` (as holds of a registry that only
/// `add_session` fills), `u` is free in every room, and after it joins every id is
/// below `u + 1`: so each connection gets a number that no earlier one got.
pub proof fn lemma_ids_after_connect<R>(
    rooms: Map<Seq<char>, Seq<(i32, R)>>,
    room: Seq<char>,
    u: i32,
    a: R,
)
    requires
        ids_in_range(rooms, 0, u as int),
        0 <= u,
    ensures
        !has_member(room_members(rooms, room), u),
        ids_in_range(after_connect(rooms, room, u, a), 0, u + 1),
{
    let before = room_members(rooms, room);
    let after = after_connect(rooms, room, u, a);
    assert forall|x: int| 0 <= x < before.len() implies before[x].0 != u by {
        assert(rooms.contains_key(room));
        assert(before[x] == rooms[room][x]);
    }
    assert forall|k: Seq<char>, x: int|
        after.contains_key(k) && 0 <= x < after[k].len() implies 0 <= #[trigger] after[k][x].0 < u
        + 1 by {
        if k != room {
            assert(after[k][x] == rooms[k][x]);
        } else if x < before.len() {
            assert(rooms.contains_key(room));
            assert(before[x] == rooms[room][x]);
            assert(after[k][x] == before[x]);
        }
    }
}

/// Leaving keeps every id in use within the range it was in.
pub proof fn lemma_ids_after_disconnect<R>(
    rooms: Map<Seq<char>, Seq<(i32, R)>>,
    room: Seq<char>,
    u: i32,
    lo: int,
    hi: int,
)
    requires
        ids_in_range(rooms, lo, hi),
    ensures
        ids_in_range(after_disconnect(rooms, room, u), lo, hi),
{
    let after = after_disconnect(rooms, room, u);
    assert forall|k: Seq<char>, x: int|
        after.contains_key(k) && 0 <= x < after[k].len() implies lo <= #[trigger] after[k][x].0
        < hi by {
        if k == room && has_member(rooms[room], u) {
            let s = rooms[room];
            let p = member_pos(s, u);
            if x < p {
                assert(after[k][x] == s[x]);
            } else {
                assert(after[k][x] == s[x + 1]);
            }
        } else {
            assert(after[k][x] == rooms[k][x]);
        }
    }
}

/// The members of a known room are its entry in the registry; an unknown room has none.
pub proof fn lemma_room_members_lookup<R>(rooms: Map<Seq<char>, Seq<(i32, R)>>, room: Seq<char>)
    ensures
        rooms.contains_key(room) ==> room_members(rooms, room) == rooms[room],
        !rooms.contains_key(room) ==> room_members(rooms, room).len() == 0,
{
}

/// Leaving a room one is not a member of changes nothing.
pub proof fn lemma_disconnect_absent<R>(rooms: Map<Seq<char>, Seq<(i32, R)>>, room: Seq<char>, u: i32)
    requires
        rooms_wf(rooms),
        !has_member(room_members(rooms, room), u),
    ensures
        after_disconnect(rooms, room, u) == rooms,
{
    if rooms.contains_key(room) {
        assert(rooms[room].len() > 0);
        assert(after_disconnect(rooms, room, u) =~= rooms);
    }
}

/// After a join the user is a member of the room with the new handle, the room's other
/// members keep their handles, a new user adds one member, and other rooms are unchanged.
pub proof fn lemma_connect_joins<R>(
    rooms: Map<Seq<char>, Seq<(i32, R)>>,
    room: Seq<char>,
    u: i32,
    a: R,
)
    requires
        rooms_wf(rooms),
    ensures
        ({
            let after = after_connect(rooms, room, u, a);
            let before = room_members(rooms, room);
            let now = after[room];
            &&& after.contains_key(room)
            &&& has_member(now, u)
            &&& now[member_pos(now, u)] == (u, a)
            &&& now.len() == if has_member(before, u) {
                before.len()
            } else {
                before.len() + 1
            }
            &&& forall|x: int| 0 <= x < before.len() && before[x].0 != u ==> #[trigger] now[x] == before[x]
            &&& forall|k: Seq<char>| k != room ==> #[trigger] after.contains_key(k) == rooms.contains_key(k)
            &&& forall|k: Seq<char>| k != room && rooms.contains_key(k) ==> #[trigger] after[k] == rooms[k]
        }),
{
    let before = room_members(rooms, room);
    if rooms.contains_key(room) {
        assert(ids_distinct(before));
    }
    let now = with_member(before, u, a);
    if has_member(before, u) {
        let p = member_pos(before, u);
        assert forall|x: int, y: int| 0 <= x < now.len() && 0 <= y < now.len() && x != y implies now[x].0
            != now[y].0 by {
            assert(now[x].0 == before[x].0 && now[y].0 == before[y].0);
        }
        lemma_member_pos_unique(now, p);
    } else {
        let n = before.len() as int;
        assert forall|x: int, y: int| 0 <= x < now.len() && 0 <= y < now.len() && x != y implies now[x].0
            != now[y].0 by {
            if x < n && y < n {
                assert(now[x] == before[x] && now[y] == before[y]);
            } else if x < n {
                assert(now[x] == before[x]);
            } else {
                assert(now[y] == before[y]);
            }
        }
        lemma_member_pos_unique(now, n);
    }
}

/// After leaving, the user is no longer a member of the room; the other members stay in
/// their order, and other rooms are unchanged.
pub proof fn lemma_disconnect_leaves<R>(rooms: Map<Seq<char>, Seq<(i32, R)>>, room: Seq<char>, u: i32)
    requires
        rooms_wf(rooms),
    ensures
        ({
            let after = after_disconnect(rooms, room, u);
            let before = room_members(rooms, room);
            &&& !has_member(room_members(after, room), u)
            &&& room_members(after, room) == before.filter(|m: (i32, R)| m.0 != u)
            &&& forall|k: Seq<char>| k != room ==> #[trigger] after.contains_key(k) == rooms.contains_key(k)
            &&& forall|k: Seq<char>| k != room && rooms.contains_key(k) ==> #[trigger] after[k] == rooms[k]
        }),
{
    let before = room_members(rooms, room);
    let pred = |m: (i32, R)| m.0 != u;
    let rest = without_member(before, u);
    if rooms.contains_key(room) {
        assert(ids_distinct(before));
    }
    if has_member(before, u) {
        let p = member_pos(before, u);
        assert forall|x: int| 0 <= x < before.len() && x != p implies #[trigger] before[x].0 != u by {}
        lemma_filter_skips_one(before, pred, p);
    } else {
        assert forall|x: int| 0 <= x < before.len() implies #[trigger] pred(before[x]) by {}
        lemma_filter_keeps_all(before, pred);
    }
    assert(rest == before.filter(pred));
    assert forall|x: int| 0 <= x < rest.len() implies #[trigger] rest[x].0 != u by {
        lemma_filter_sound(before, pred, x);
    }
    let after = after_disconnect(rooms, room, u);
    assert(room_members(after, room) == rest);
}

proof fn lemma_filter_sound<A>(s: Seq<A>, pred: spec_fn(A) -> bool, x: int)
    requires
        0 <= x < s.filter(pred).len(),
    ensures
        pred(s.filter(pred)[x]),
{
    broadcast use vstd::seq_lib::group_filter_ensures;
    assert(pred(s.filter(pred)[x]));
}

proof fn lemma_filter_keeps_all<A>(s: Seq<A>, pred: spec_fn(A) -> bool)
    requires
        forall|x: int| 0 <= x < s.len() ==> #[trigger] pred(s[x]),
    ensures
        s.filter(pred) == s,
    decreases s.len(),
{
    reveal(Seq::filter);
    if s.len() > 0 {
        lemma_filter_keeps_all(s.drop_last(), pred);
        assert(s.drop_last().push(s.last()) =~= s);
    } else {
        assert(s.filter(pred) =~= s);
    }
}

proof fn lemma_filter_skips_one<A>(s: Seq<A>, pred: spec_fn(A) -> bool, p: int)
    requires
        0 <= p < s.len(),
        !pred(s[p]),
        forall|x: int| 0 <= x < s.len() && x != p ==> #[trigger] pred(s[x]),
    ensures
        s.filter(pred) == s.remove(p),
    decreases s.len(),
{
    reveal(Seq::filter);
    if p == s.len() - 1 {
        assert forall|x: int| 0 <= x < s.drop_last().len() implies #[trigger] pred(s.drop_last()[x]) by {}
        lemma_filter_keeps_all(s.drop_last(), pred);
        assert(s.remove(p) =~= s.drop_last());
    } else {
        lemma_filter_skips_one(s.drop_last(), pred, p);
        assert(s.remove(p) =~= s.drop_last().remove(p).push(s.last()));
    }
}

} // verus!
