//! The server's rooms: who is in which room, under which password, and who
//! receives what a member says.
//!
//! A room is created by the first join that names it and keeps the password
//! given then. Joining only checks admission; the member is added when its
//! connection subscribes. A room disappears when its last member leaves.
//! Members are reached through connection handles chosen by the caller.
use vstd::prelude::*;
use vstd::string::StringExecFns;
use crate::protocol::MAX_ROOM_USERS;
use crate::text::{decimal, push_decimal, str_equal};

verus! {

/// A member of a room and the handle of its connection.
pub struct Member {
    pub name: String,
    pub conn: u64,
}

/// A room.
pub struct Room {
    name: String,
    password: Option<String>,
    members: Vec<Member>,
}

/// The abstract state of a room.
pub struct RoomView {
    pub password: Option<Seq<char>>,
    pub members: Map<Seq<char>, u64>,
}

/// Why a join was refused.
#[derive(Debug, Clone, PartialEq, Eq)]
pub enum JoinError {
    /// The room has a password and the one given is absent or differs.
    IncorrectPassword,
    /// The room already has [`MAX_ROOM_USERS`] members.
    RoomFull,
    /// A member of the room already uses the name.
    UsernameTaken(String),
}

/// The abstract value of a join refusal.
pub enum JoinErrorView {
    IncorrectPassword,
    RoomFull,
    UsernameTaken(Seq<char>),
}

impl JoinError {
    /// The abstract value of the refusal.
    pub open spec fn view(&self) -> JoinErrorView {
        match self {
            JoinError::IncorrectPassword => JoinErrorView::IncorrectPassword,
            JoinError::RoomFull => JoinErrorView::RoomFull,
            JoinError::UsernameTaken(u) => JoinErrorView::UsernameTaken(u@),
        }
    }

    /// The text the client is shown.
    pub fn message(&self) -> (r: String)
        ensures
            r@ == join_error_text(self.view()),
    {
        match self {
            JoinError::IncorrectPassword => String::from_str("incorrect room password"),
            JoinError::RoomFull => {
                let mut s = String::from_str("room is full (max ");
                push_decimal(&mut s, MAX_ROOM_USERS as u64);
                s.append(")");
                s
            },
            JoinError::UsernameTaken(u) => {
                let mut s = String::from_str("username '");
                s.append(u.as_str());
                s.append("' already taken in this room");
                s
            },
        }
    }
}

/// The text of a join refusal.
pub open spec fn join_error_text(e: JoinErrorView) -> Seq<char> {
    match e {
        JoinErrorView::IncorrectPassword => "incorrect room password"@,
        JoinErrorView::RoomFull => "room is full (max "@ + decimal(MAX_ROOM_USERS as nat) + ")"@,
        JoinErrorView::UsernameTaken(u) => "username '"@ + u + "' already taken in this room"@,
    }
}

/// The room state after a join names `room`: a room that did not exist is
/// created with the given password and no member.
pub open spec fn rooms_after_join(
    rooms: Map<Seq<char>, RoomView>,
    room: Seq<char>,
    password: Option<Seq<char>>,
) -> Map<Seq<char>, RoomView> {
    if rooms.contains_key(room) {
        rooms
    } else {
        rooms.insert(room, RoomView { password, members: Map::empty() })
    }
}

/// What a join of room `r` gives: the refusal, or `Ok` when admitted.
pub open spec fn join_verdict(r: RoomView, username: Seq<char>, password: Option<Seq<char>>) -> Result<
    (),
    JoinErrorView,
> {
    if r.password is Some && password != r.password {
        Err(JoinErrorView::IncorrectPassword)
    } else if r.members.len() >= MAX_ROOM_USERS {
        Err(JoinErrorView::RoomFull)
    } else if r.members.contains_key(username) {
        Err(JoinErrorView::UsernameTaken(username))
    } else {
        Ok(())
    }
}

/// The room state after `username` subscribes to `room` with connection
/// `conn`; nothing changes when the room does not exist.
pub open spec fn rooms_after_subscribe(
    rooms: Map<Seq<char>, RoomView>,
    room: Seq<char>,
    username: Seq<char>,
    conn: u64,
) -> Map<Seq<char>, RoomView> {
    if rooms.contains_key(room) {
        rooms.insert(
            room,
            RoomView { members: rooms[room].members.insert(username, conn), ..rooms[room] },
        )
    } else {
        rooms
    }
}

/// The room state after `username` leaves `room`: the member is removed and a
/// room left empty disappears.
pub open spec fn rooms_after_leave(rooms: Map<Seq<char>, RoomView>, room: Seq<char>, username: Seq<char>) -> Map<
    Seq<char>,
    RoomView,
> {
    if rooms.contains_key(room) {
        let members = rooms[room].members.remove(username);
        if members.dom().is_empty() {
            rooms.remove(room)
        } else {
            rooms.insert(room, RoomView { members, ..rooms[room] })
        }
    } else {
        rooms
    }
}

/// The connections that receive what `sender` says in `room`: those of every
/// other member.
pub open spec fn recipients(rooms: Map<Seq<char>, RoomView>, room: Seq<char>, sender: Seq<char>) -> Set<
    u64,
> {
    if rooms.contains_key(room) {
        Set::new(
            |c: u64|
                exists|name: Seq<char>|
                    #[trigger] rooms[room].members.contains_key(name) && name != sender
                        && rooms[room].members[name] == c,
        )
    } else {
        Set::empty()
    }
}

/// The map from keys to values of a list whose entries carry their key.
pub open spec fn keyed_map<T, K, V>(s: Seq<T>, key: spec_fn(T) -> K, val: spec_fn(T) -> V) -> Map<K, V> {
    Map::new(
        |k: K| s.map_values(key).contains(k),
        |k: K| val(s[s.map_values(key).index_of(k)]),
    )
}

/// The name of a member.
pub open spec fn member_key() -> spec_fn(Member) -> Seq<char> {
    |m: Member| m.name@
}

/// The connection of a member.
pub open spec fn member_conn() -> spec_fn(Member) -> u64 {
    |m: Member| m.conn
}

/// The names of a member list.
pub open spec fn member_names(s: Seq<Member>) -> Seq<Seq<char>> {
    s.map_values(member_key())
}

/// The member map of a member list.
pub open spec fn member_map(s: Seq<Member>) -> Map<Seq<char>, u64> {
    keyed_map(s, member_key(), member_conn())
}

/// The abstract state of a room.
pub closed spec fn room_view(r: Room) -> RoomView {
    RoomView {
        password: match r.password {
            Some(p) => Some(p@),
            None => None,
        },
        members: member_map(r.members@),
    }
}

/// The name of a room.
pub closed spec fn room_key() -> spec_fn(Room) -> Seq<char> {
    |r: Room| r.name@
}

/// The abstract state of a room, as a function.
pub closed spec fn room_val() -> spec_fn(Room) -> RoomView {
    |r: Room| room_view(r)
}

/// The names of a room list.
pub closed spec fn room_names(s: Seq<Room>) -> Seq<Seq<char>> {
    s.map_values(room_key())
}

proof fn lemma_keyed_index<T, K, V>(s: Seq<T>, key: spec_fn(T) -> K, val: spec_fn(T) -> V, i: int)
    requires
        s.map_values(key).no_duplicates(),
        0 <= i < s.len(),
    ensures
        keyed_map(s, key, val).contains_key(key(s[i])),
        keyed_map(s, key, val)[key(s[i])] == val(s[i]),
{
    let ks = s.map_values(key);
    assert(ks[i] == key(s[i]));
    assert(ks.contains(key(s[i])));
    let j = ks.index_of(key(s[i]));
    assert(ks[j] == key(s[i]));
}

proof fn lemma_keyed_lookup<T, K, V>(s: Seq<T>, key: spec_fn(T) -> K, val: spec_fn(T) -> V, k: K)
    requires
        s.map_values(key).no_duplicates(),
    ensures
        keyed_map(s, key, val).contains_key(k) <==> exists|i: int| 0 <= i < s.len() && #[trigger] key(s[i]) == k,
{
    let ks = s.map_values(key);
    if ks.contains(k) {
        let j = choose|j: int| 0 <= j < ks.len() && ks[j] == k;
        assert(key(s[j]) == k);
    }
    if exists|i: int| 0 <= i < s.len() && #[trigger] key(s[i]) == k {
        let i = choose|i: int| 0 <= i < s.len() && #[trigger] key(s[i]) == k;
        assert(ks[i] == k);
    }
}

proof fn lemma_keyed_push<T, K, V>(s: Seq<T>, key: spec_fn(T) -> K, val: spec_fn(T) -> V, x: T)
    requires
        s.map_values(key).no_duplicates(),
        !s.map_values(key).contains(key(x)),
    ensures
        s.push(x).map_values(key).no_duplicates(),
        keyed_map(s.push(x), key, val) == keyed_map(s, key, val).insert(key(x), val(x)),
{
    let ks = s.map_values(key);
    let ks2 = s.push(x).map_values(key);
    assert(ks2 =~= ks.push(key(x)));
    assert forall|a: int, b: int| 0 <= a < b < ks2.len() implies ks2[a] != ks2[b] by {
        if b == ks.len() {
            assert(ks.contains(ks[a]));
        }
    }
    let m1 = keyed_map(s.push(x), key, val);
    let m2 = keyed_map(s, key, val).insert(key(x), val(x));
    assert forall|k: K| m1.contains_key(k) <==> m2.contains_key(k) by {
        if ks2.contains(k) {
            let j = choose|j: int| 0 <= j < ks2.len() && ks2[j] == k;
            if j < ks.len() {
                assert(ks[j] == k);
            }
        }
        if ks.contains(k) {
            let j = choose|j: int| 0 <= j < ks.len() && ks[j] == k;
            assert(ks2[j] == k);
        }
        if k == key(x) {
            assert(ks2[ks.len() as int] == k);
        }
    }
    assert forall|k: K| m1.contains_key(k) implies m1[k] == m2[k] by {
        let j = ks2.index_of(k);
        assert(ks2[j] == k);
        if k == key(x) {
            assert(j == ks.len());
        } else {
            assert(j < ks.len());
            let j0 = ks.index_of(k);
            assert(ks.contains(k)) by {
                assert(ks[j] == k);
            }
            assert(ks[j0] == k);
            assert(ks2[j0] == k);
            assert(j0 == j);
        }
    }
    assert(m1 =~= m2);
}

proof fn lemma_keyed_remove<T, K, V>(s: Seq<T>, key: spec_fn(T) -> K, val: spec_fn(T) -> V, i: int)
    requires
        s.map_values(key).no_duplicates(),
        0 <= i < s.len(),
    ensures
        s.remove(i).map_values(key).no_duplicates(),
        keyed_map(s.remove(i), key, val) == keyed_map(s, key, val).remove(key(s[i])),
{
    let ks = s.map_values(key);
    let r = s.remove(i);
    let kr = r.map_values(key);
    assert(kr =~= ks.remove(i));
    assert forall|a: int, b: int| 0 <= a < b < kr.len() implies kr[a] != kr[b] by {
        let sa = if a < i { a } else { a + 1 };
        let sb = if b < i { b } else { b + 1 };
        assert(kr[a] == ks[sa] && kr[b] == ks[sb]);
    }
    let m1 = keyed_map(r, key, val);
    let m2 = keyed_map(s, key, val).remove(key(s[i]));
    assert forall|k: K| m1.contains_key(k) <==> m2.contains_key(k) by {
        if kr.contains(k) {
            let j = choose|j: int| 0 <= j < kr.len() && kr[j] == k;
            let sj = if j < i { j } else { j + 1 };
            assert(ks[sj] == k);
            assert(sj != i);
            assert(ks[i] == key(s[i]));
        }
        if ks.contains(k) && k != key(s[i]) {
            let j = choose|j: int| 0 <= j < ks.len() && ks[j] == k;
            assert(j != i);
            if j < i {
                assert(kr[j] == k);
            } else {
                assert(kr[j - 1] == k);
            }
        }
    }
    assert forall|k: K| m1.contains_key(k) implies m1[k] == m2[k] by {
        let j = kr.index_of(k);
        assert(kr[j] == k);
        let sj = if j < i { j } else { j + 1 };
        assert(ks[sj] == k);
        let j0 = ks.index_of(k);
        assert(ks.contains(k));
        assert(ks[j0] == k);
        assert(j0 == sj);
        assert(r[j] == s[sj]);
    }
    assert(m1 =~= m2);
}

proof fn lemma_keyed_len<T, K, V>(s: Seq<T>, key: spec_fn(T) -> K, val: spec_fn(T) -> V)
    requires
        s.map_values(key).no_duplicates(),
    ensures
        keyed_map(s, key, val).dom().finite(),
        keyed_map(s, key, val).len() == s.len(),
{
    let ks = s.map_values(key);
    ks.unique_seq_to_set();
    assert(keyed_map(s, key, val).dom() =~= ks.to_set());
    vstd::seq_lib::seq_to_set_is_finite(ks);
}

/// The server's rooms.
pub struct RoomManager {
    rooms: Vec<Room>,
}

impl RoomManager {
    /// Every room by name.
    pub closed spec fn view(&self) -> Map<Seq<char>, RoomView> {
        keyed_map(self.rooms@, room_key(), room_val())
    }

    /// Room names are unique, and so are member names within a room.
    pub closed spec fn wf(&self) -> bool {
        &&& room_names(self.rooms@).no_duplicates()
        &&& forall|i: int|
            0 <= i < self.rooms@.len() ==> member_names(#[trigger] self.rooms@[i].members@).no_duplicates()
    }

    /// No room.
    pub fn new() -> (r: Self)
        ensures
            r.wf(),
            r.view() == Map::<Seq<char>, RoomView>::empty(),
    {
        let r = RoomManager { rooms: Vec::new() };
        assert(r.view() =~= Map::<Seq<char>, RoomView>::empty());
        r
    }
}


/// The abstract value of an optional password.
pub open spec fn password_view(p: Option<&str>) -> Option<Seq<char>> {
    match p {
        Some(s) => Some(s@),
        None => None,
    }
}

/// The abstract values of a list of names.
pub open spec fn string_views(s: Seq<String>) -> Seq<Seq<char>> {
    s.map_values(|x: String| x@)
}

/// Where the room named `name` stands in the list.
fn find_room(rooms: &Vec<Room>, name: &str) -> (r: Option<usize>)
    ensures
        match r {
            Some(i) => i < rooms@.len() && rooms@[i as int].name@ == name@,
            None => !room_names(rooms@).contains(name@),
        },
{
    let mut i: usize = 0;
    while i < rooms.len()
        invariant
            0 <= i <= rooms@.len(),
            forall|j: int| 0 <= j < i ==> rooms@[j].name@ != name@,
        decreases rooms@.len() - i,
    {
        if str_equal(rooms[i].name.as_str(), name) {
            return Some(i);
        }
        i = i + 1;
    }
    proof {
        if room_names(rooms@).contains(name@) {
            let j = choose|j: int| 0 <= j < room_names(rooms@).len() && room_names(rooms@)[j] == name@;
            assert(rooms@[j].name@ == name@);
        }
    }
    None
}

/// Where the member named `name` stands in the list.
fn find_member(members: &Vec<Member>, name: &str) -> (r: Option<usize>)
    ensures
        match r {
            Some(i) => i < members@.len() && members@[i as int].name@ == name@,
            None => !member_names(members@).contains(name@),
        },
{
    let mut i: usize = 0;
    while i < members.len()
        invariant
            0 <= i <= members@.len(),
            forall|j: int| 0 <= j < i ==> members@[j].name@ != name@,
        decreases members@.len() - i,
    {
        if str_equal(members[i].name.as_str(), name) {
            return Some(i);
        }
        i = i + 1;
    }
    proof {
        if member_names(members@).contains(name@) {
            let j = choose|j: int| 0 <= j < member_names(members@).len() && member_names(members@)[j] == name@;
            assert(members@[j].name@ == name@);
        }
    }
    None
}


impl RoomManager {
    /// Asks to join `room_name` as `username`. A room that does not exist is
    /// created with `password` (and no member). The join is refused when the
    /// room has a password that was not given, when the room is full, or when
    /// the name is taken (see [`join_verdict`]); otherwise the names of the
    /// current members come back. The member itself is added by
    /// [`RoomManager::subscribe`].
    pub fn join(&mut self, room_name: &str, username: &str, password: Option<&str>) -> (r: Result<
        Vec<String>,
        JoinError,
    >)
        requires
            old(self).wf(),
        ensures
            final(self).wf(),
            final(self).view() == rooms_after_join(old(self).view(), room_name@, password_view(password)),
            match join_verdict(final(self).view()[room_name@], username@, password_view(password)) {
                Err(e) => r matches Err(x) && x.view() == e,
                Ok(_) => r matches Ok(list) && string_views(list@).no_duplicates() && forall|n: Seq<char>|
                    #[trigger] string_views(list@).contains(n) <==> final(self).view()[room_name@].members.contains_key(n),
            },
    {
        let ghost old_view = self.view();
        let idx = match find_room(&self.rooms, room_name) {
            Some(i) => {
                proof {
                    lemma_keyed_index(self.rooms@, room_key(), room_val(), i as int);
                }
                i
            },
            None => {
                let pw = match password {
                    Some(p) => Some(String::from_str(p)),
                    None => None,
                };
                let room = Room { name: String::from_str(room_name), password: pw, members: Vec::new() };
                proof {
                    lemma_keyed_push(self.rooms@, room_key(), room_val(), room);
                    assert(member_map(room.members@) =~= Map::empty());
                    assert(room_view(room) == (RoomView { password: password_view(password), members: Map::empty() }));
                }
                self.rooms.push(room);
                self.rooms.len() - 1
            },
        };
        assert(self.view() == rooms_after_join(old_view, room_name@, password_view(password)));
        proof {
            lemma_keyed_index(self.rooms@, room_key(), room_val(), idx as int);
        }
        let room = &self.rooms[idx];
        let ghost rv = room_view(*room);
        assert(self.view()[room_name@] == rv);
        match &room.password {
            Some(p) => {
                match password {
                    Some(q) => {
                        if !str_equal(q, p.as_str()) {
                            return Err(JoinError::IncorrectPassword);
                        }
                    },
                    None => {
                        return Err(JoinError::IncorrectPassword);
                    },
                }
            },
            None => {},
        }
        proof {
            lemma_keyed_len(room.members@, member_key(), member_conn());
        }
        if room.members.len() >= MAX_ROOM_USERS {
            return Err(JoinError::RoomFull);
        }
        proof {
            lemma_keyed_lookup(room.members@, member_key(), member_conn(), username@);
        }
        match find_member(&room.members, username) {
            Some(j) => {
                assert(member_key()(room.members@[j as int]) == username@);
                return Err(JoinError::UsernameTaken(String::from_str(username)));
            },
            None => {
                assert forall|i: int| 0 <= i < room.members@.len() implies #[trigger] member_key()(
                    room.members@[i],
                ) != username@ by {
                    assert(member_names(room.members@)[i] == room.members@[i].name@);
                }
            },
        }
        let mut list: Vec<String> = Vec::new();
        let n = room.members.len();
        let mut i: usize = 0;
        while i < n
            invariant
                0 <= i <= n,
                n == room.members@.len(),
                list@.len() == i,
                string_views(list@) =~= member_names(room.members@).take(i as int),
            decreases n - i,
        {
            let ghost before = list@;
            list.push(room.members[i].name.clone());
            assert forall|j: int| 0 <= j < i + 1 implies #[trigger] string_views(list@)[j] == member_names(
                room.members@,
            ).take(i as int + 1)[j] by {
                if j < i {
                    assert(string_views(before)[j] == member_names(room.members@).take(i as int)[j]);
                }
            }
            i = i + 1;
        }
        assert(member_names(room.members@).take(n as int) =~= member_names(room.members@));
        assert forall|nm: Seq<char>| #[trigger] string_views(list@).contains(nm) <==> rv.members.contains_key(nm) by {
            lemma_keyed_lookup(room.members@, member_key(), member_conn(), nm);
            if string_views(list@).contains(nm) {
                let j = choose|j: int| 0 <= j < string_views(list@).len() && string_views(list@)[j] == nm;
                assert(member_key()(room.members@[j]) == nm);
            }
            if rv.members.contains_key(nm) {
                let j = choose|j: int| 0 <= j < room.members@.len() && #[trigger] member_key()(room.members@[j]) == nm;
                assert(string_views(list@)[j] == nm);
            }
        }
        Ok(list)
    }
}


impl RoomManager {
    /// Takes room `i` out of the list.
    fn take_room(&mut self, i: usize) -> (r: Room)
        requires
            old(self).wf(),
            i < old(self).rooms@.len(),
        ensures
            r == old(self).rooms@[i as int],
            final(self).rooms@ == old(self).rooms@.remove(i as int),
            room_names(final(self).rooms@).no_duplicates(),
            !room_names(final(self).rooms@).contains(r.name@),
            forall|j: int|
                0 <= j < final(self).rooms@.len() ==> member_names(
                    #[trigger] final(self).rooms@[j].members@,
                ).no_duplicates(),
            final(self).view() == old(self).view().remove(r.name@),
            old(self).view().contains_key(r.name@),
            old(self).view()[r.name@] == room_view(r),
    {
        proof {
            lemma_keyed_remove(self.rooms@, room_key(), room_val(), i as int);
            lemma_keyed_index(self.rooms@, room_key(), room_val(), i as int);
        }
        let r = self.rooms.remove(i);
        proof {
            assert forall|j: int| 0 <= j < self.rooms@.len() implies member_names(
                #[trigger] self.rooms@[j].members@,
            ).no_duplicates() by {
                let sj = if j < i { j } else { j + 1 };
                assert(self.rooms@[j] == old(self).rooms@[sj]);
            }
            if room_names(self.rooms@).contains(r.name@) {
                let k = choose|k: int| 0 <= k < self.rooms@.len() && room_names(self.rooms@)[k] == r.name@;
                let sk = if k < i { k } else { k + 1 };
                assert(room_names(old(self).rooms@)[sk] == room_names(old(self).rooms@)[i as int]);
            }
        }
        r
    }

    /// Puts a room back in the list.
    fn put_room(&mut self, r: Room)
        requires
            room_names(old(self).rooms@).no_duplicates(),
            !room_names(old(self).rooms@).contains(r.name@),
            forall|j: int|
                0 <= j < old(self).rooms@.len() ==> member_names(
                    #[trigger] old(self).rooms@[j].members@,
                ).no_duplicates(),
            member_names(r.members@).no_duplicates(),
        ensures
            final(self).wf(),
            final(self).view() == old(self).view().insert(r.name@, room_view(r)),
    {
        proof {
            lemma_keyed_push(self.rooms@, room_key(), room_val(), r);
        }
        self.rooms.push(r);
        assert forall|j: int| 0 <= j < self.rooms@.len() implies member_names(
            #[trigger] self.rooms@[j].members@,
        ).no_duplicates() by {
            if j < old(self).rooms@.len() {
                assert(self.rooms@[j] == old(self).rooms@[j]);
            }
        }
    }

    /// Adds `username` with connection `conn` to `room_name` (replacing the
    /// connection of a member of that name); nothing happens when the room does
    /// not exist.
    pub fn subscribe(&mut self, room_name: &str, username: &str, conn: u64)
        requires
            old(self).wf(),
        ensures
            final(self).wf(),
            final(self).view() == rooms_after_subscribe(old(self).view(), room_name@, username@, conn),
    {
        let i = match find_room(&self.rooms, room_name) {
            Some(i) => i,
            None => {
                proof {
                    lemma_keyed_lookup(self.rooms@, room_key(), room_val(), room_name@);
                    if self.view().contains_key(room_name@) {
                        let k = choose|k: int| 0 <= k < self.rooms@.len() && #[trigger] room_key()(self.rooms@[k]) == room_name@;
                        assert(room_names(self.rooms@)[k] == room_name@);
                    }
                }
                return;
            },
        };
        let ghost old_view = self.view();
        let mut room = self.take_room(i);
        let ghost members0 = room.members@;
        match find_member(&room.members, username) {
            Some(j) => {
                proof {
                    lemma_keyed_remove(room.members@, member_key(), member_conn(), j as int);
                }
                room.members.remove(j);
                assert(!member_names(room.members@).contains(username@)) by {
                    if member_names(room.members@).contains(username@) {
                        let k = choose|k: int| 0 <= k < room.members@.len() && member_names(room.members@)[k] == username@;
                        let sk = if k < j { k } else { k + 1 };
                        assert(member_names(members0)[sk] == member_names(members0)[j as int]);
                    }
                }
            },
            None => {},
        }
        let ghost members1 = room.members@;
        assert(member_map(members1) == member_map(members0).remove(username@)) by {
            if !member_names(members0).contains(username@) {
                lemma_keyed_lookup(members0, member_key(), member_conn(), username@);
                assert(member_map(members0).remove(username@) =~= member_map(members0));
            }
        }
        let m = Member { name: String::from_str(username), conn };
        proof {
            lemma_keyed_push(room.members@, member_key(), member_conn(), m);
        }
        room.members.push(m);
        assert(member_map(room.members@) =~= member_map(members0).insert(username@, conn));
        self.put_room(room);
        assert(self.view() =~= rooms_after_subscribe(old_view, room_name@, username@, conn));
    }

    /// Removes `username` from `room_name`; a room left without members
    /// disappears. Nothing happens when the room does not exist.
    pub fn leave(&mut self, room_name: &str, username: &str)
        requires
            old(self).wf(),
        ensures
            final(self).wf(),
            final(self).view() == rooms_after_leave(old(self).view(), room_name@, username@),
    {
        let i = match find_room(&self.rooms, room_name) {
            Some(i) => i,
            None => {
                proof {
                    lemma_keyed_lookup(self.rooms@, room_key(), room_val(), room_name@);
                    if self.view().contains_key(room_name@) {
                        let k = choose|k: int| 0 <= k < self.rooms@.len() && #[trigger] room_key()(self.rooms@[k]) == room_name@;
                        assert(room_names(self.rooms@)[k] == room_name@);
                    }
                }
                return;
            },
        };
        let ghost old_view = self.view();
        let mut room = self.take_room(i);
        let ghost members0 = room.members@;
        match find_member(&room.members, username) {
            Some(j) => {
                proof {
                    lemma_keyed_remove(room.members@, member_key(), member_conn(), j as int);
                }
                room.members.remove(j);
            },
            None => {
                proof {
                    lemma_keyed_lookup(members0, member_key(), member_conn(), username@);
                    assert(member_map(members0).remove(username@) =~= member_map(members0));
                }
            },
        }
        assert(member_map(room.members@) == member_map(members0).remove(username@));
        proof {
            lemma_keyed_len(room.members@, member_key(), member_conn());
            vstd::set_lib::lemma_set_empty_equivalency_len(member_map(room.members@).dom());
        }
        if room.members.len() == 0 {
            assert(self.view() =~= rooms_after_leave(old_view, room_name@, username@));
        } else {
            self.put_room(room);
            assert(self.view() =~= rooms_after_leave(old_view, room_name@, username@));
        }
    }

    /// The connections that receive what `sender` says in `room_name` (see
    /// [`recipients`]): one per other member; none when the room does not
    /// exist.
    pub fn broadcast(&self, room_name: &str, sender: &str) -> (r: Vec<u64>)
        requires
            self.wf(),
        ensures
            forall|c: u64| #[trigger] r@.contains(c) <==> recipients(self.view(), room_name@, sender@).contains(c),
            self.view().contains_key(room_name@) ==> r@.len() == if self.view()[room_name@].members.contains_key(
                sender@,
            ) {
                self.view()[room_name@].members.len() - 1
            } else {
                self.view()[room_name@].members.len() as int
            },
            !self.view().contains_key(room_name@) ==> r@.len() == 0,
    {
        let i = match find_room(&self.rooms, room_name) {
            Some(i) => i,
            None => {
                proof {
                    lemma_keyed_lookup(self.rooms@, room_key(), room_val(), room_name@);
                    if self.view().contains_key(room_name@) {
                        let k = choose|k: int| 0 <= k < self.rooms@.len() && #[trigger] room_key()(self.rooms@[k]) == room_name@;
                        assert(room_names(self.rooms@)[k] == room_name@);
                    }
                }
                return Vec::new();
            },
        };
        proof {
            lemma_keyed_index(self.rooms@, room_key(), room_val(), i as int);
        }
        let members = &self.rooms[i].members;
        let ghost ms = members@;
        assert(member_names(ms).no_duplicates());
        let mut out: Vec<u64> = Vec::new();
        let mut skipped: bool = false;
        let n = members.len();
        let mut j: usize = 0;
        while j < n
            invariant
                0 <= j <= n,
                n == ms.len(),
                ms == members@,
                member_names(ms).no_duplicates(),
                forall|c: u64|
                    #[trigger] out@.contains(c) <==> exists|k: int|
                        0 <= k < j && ms[k].name@ != sender@ && #[trigger] ms[k].conn == c,
                skipped <==> exists|k: int| 0 <= k < j && #[trigger] ms[k].name@ == sender@,
                out@.len() == if skipped { j - 1 } else { j as int },
            decreases n - j,
        {
            let ghost before = out@;
            if str_equal(members[j].name.as_str(), sender) {
                skipped = true;
            } else {
                out.push(members[j].conn);
            }
            proof {
                assert forall|c: u64| #[trigger] out@.contains(c) <==> exists|k: int|
                    0 <= k < j + 1 && ms[k].name@ != sender@ && #[trigger] ms[k].conn == c by {
                    if out@.contains(c) {
                        let p = choose|p: int| 0 <= p < out@.len() && out@[p] == c;
                        if p < before.len() {
                            assert(before[p] == c);
                            assert(before.contains(c));
                        }
                    }
                    if exists|k: int| 0 <= k < j + 1 && ms[k].name@ != sender@ && #[trigger] ms[k].conn == c {
                        let k = choose|k: int| 0 <= k < j + 1 && ms[k].name@ != sender@ && #[trigger] ms[k].conn == c;
                        if k < j {
                            assert(0 <= k < j && ms[k].name@ != sender@ && ms[k].conn == c);
                            assert(before.contains(c));
                            let p = choose|p: int| 0 <= p < before.len() && before[p] == c;
                            assert(out@[p] == c);
                        } else {
                            assert(out@[out@.len() - 1] == c);
                        }
                    }
                }
                if exists|k: int| 0 <= k < j && #[trigger] ms[k].name@ == sender@ {
                    let k = choose|k: int| 0 <= k < j && #[trigger] ms[k].name@ == sender@;
                    if ms[j as int].name@ == sender@ {
                        assert(member_names(ms)[k] == member_names(ms)[j as int]);
                    }
                }
            }
            j = j + 1;
        }
        proof {
            let rv = room_view(self.rooms@[i as int]);
            lemma_keyed_len(ms, member_key(), member_conn());
            lemma_keyed_lookup(ms, member_key(), member_conn(), sender@);
            assert(skipped <==> rv.members.contains_key(sender@)) by {
                if skipped {
                    let k = choose|k: int| 0 <= k < n && #[trigger] ms[k].name@ == sender@;
                    assert(member_key()(ms[k]) == sender@);
                }
                if rv.members.contains_key(sender@) {
                    let k = choose|k: int| 0 <= k < ms.len() && #[trigger] member_key()(ms[k]) == sender@;
                    assert(ms[k].name@ == sender@);
                }
            }
            assert forall|c: u64| #[trigger] out@.contains(c) <==> recipients(self.view(), room_name@, sender@).contains(c) by {
                if out@.contains(c) {
                    let k = choose|k: int| 0 <= k < n && ms[k].name@ != sender@ && #[trigger] ms[k].conn == c;
                    lemma_keyed_index(ms, member_key(), member_conn(), k);
                    assert(rv.members.contains_key(ms[k].name@) && rv.members[ms[k].name@] == c);
                }
                if recipients(self.view(), room_name@, sender@).contains(c) {
                    let nm = choose|nm: Seq<char>| #[trigger] rv.members.contains_key(nm) && nm != sender@ && rv.members[nm] == c;
                    lemma_keyed_lookup(ms, member_key(), member_conn(), nm);
                    let k = choose|k: int| 0 <= k < ms.len() && #[trigger] member_key()(ms[k]) == nm;
                    lemma_keyed_index(ms, member_key(), member_conn(), k);
                    assert(ms[k].conn == c);
                }
            }
        }
        out
    }
}


/// The first join that names a room creates it with the password given then
/// and no member, and is admitted.
pub proof fn law_first_join_admitted(
    rooms: Map<Seq<char>, RoomView>,
    room: Seq<char>,
    username: Seq<char>,
    password: Option<Seq<char>>,
)
    requires
        !rooms.contains_key(room),
    ensures
        rooms_after_join(rooms, room, password)[room] == (RoomView { password, members: Map::empty() }),
        join_verdict(rooms_after_join(rooms, room, password)[room], username, password) == Ok::<
            (),
            JoinErrorView,
        >(()),
{
    assert(Map::<Seq<char>, u64>::empty().len() == 0);
}

/// A room with a password admits no one who does not give that password; a
/// room without one never refuses a join for its password.
pub proof fn law_password_guards_room(r: RoomView, username: Seq<char>, password: Option<Seq<char>>)
    ensures
        r.password is Some && password != r.password ==> join_verdict(r, username, password) == Err::<
            (),
            JoinErrorView,
        >(JoinErrorView::IncorrectPassword),
        r.password is None ==> join_verdict(r, username, password) != Err::<(), JoinErrorView>(
            JoinErrorView::IncorrectPassword,
        ),
{
}

/// Once a member has subscribed under a name, every later join of that room
/// under the same name is refused.
pub proof fn law_name_taken_after_subscribe(
    rooms: Map<Seq<char>, RoomView>,
    room: Seq<char>,
    username: Seq<char>,
    conn: u64,
    password: Option<Seq<char>>,
)
    requires
        rooms.contains_key(room),
    ensures
        join_verdict(rooms_after_subscribe(rooms, room, username, conn)[room], username, password) is Err,
{
}

/// Leaving undoes subscribing: a new member who subscribes and then leaves
/// leaves the rooms as they were, except that a room that had no member
/// disappears.
pub proof fn law_leave_undoes_subscribe(
    rooms: Map<Seq<char>, RoomView>,
    room: Seq<char>,
    username: Seq<char>,
    conn: u64,
)
    requires
        rooms.contains_key(room),
        !rooms[room].members.contains_key(username),
    ensures
        rooms_after_leave(rooms_after_subscribe(rooms, room, username, conn), room, username) == if rooms[room].members.dom().is_empty() {
            rooms.remove(room)
        } else {
            rooms
        },
{
    let after = rooms_after_subscribe(rooms, room, username, conn);
    assert(after[room].members.remove(username) =~= rooms[room].members);
    if !rooms[room].members.dom().is_empty() {
        assert(rooms_after_leave(after, room, username) =~= rooms);
    } else {
        assert(rooms_after_leave(after, room, username) =~= rooms.remove(room));
    }
}

/// What a member says reaches every other member of its room and never the
/// member itself (when every member has its own connection).
pub proof fn law_broadcast_skips_sender(rooms: Map<Seq<char>, RoomView>, room: Seq<char>, sender: Seq<char>)
    requires
        rooms.contains_key(room),
        forall|a: Seq<char>, b: Seq<char>|
            #[trigger] rooms[room].members.contains_key(a) && #[trigger] rooms[room].members.contains_key(b)
                && a != b ==> rooms[room].members[a] != rooms[room].members[b],
    ensures
        rooms[room].members.contains_key(sender) ==> !recipients(rooms, room, sender).contains(
            rooms[room].members[sender],
        ),
        forall|name: Seq<char>|
            #[trigger] rooms[room].members.contains_key(name) && name != sender ==> recipients(
                rooms,
                room,
                sender,
            ).contains(rooms[room].members[name]),
{
}

} // verus!
