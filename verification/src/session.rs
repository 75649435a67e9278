//! One client's signalling session on the server, as a state machine: the
//! caller reads a message (or notices the connection ended), hands it over
//! with the current time, and performs what comes back: replies on this
//! connection, deliveries to other members' connections, and the close.
//!
//! The first message must be a join. An admitted client is added to its room,
//! receives the room's state and is announced to the other members; a refused
//! one is told why and disconnected. A member's chat lines go to every other
//! member; leaving (or losing the connection) removes the member and is
//! announced.
use vstd::prelude::*;
use vstd::string::StringExecFns;
use crate::protocol::{ClientMessage, ServerMessage, MAX_ROOM_USERS};
use crate::room::{
    join_error_text, join_verdict, password_view, recipients, rooms_after_join,
    rooms_after_leave, rooms_after_subscribe, string_views, RoomManager, RoomView,
};

verus! {

/// Where a session stands.
pub enum Phase {
    /// Nothing has been received yet.
    AwaitingJoin,
    /// The client was admitted to `room` as `username`.
    Joined { username: String, room: String },
    /// The session is over.
    Closed,
}

/// What happened on the connection.
pub enum SessionEvent {
    /// A message arrived at `now_secs` (seconds since the Unix epoch).
    Message { msg: ClientMessage, now_secs: u64 },
    /// The connection ended, or what arrived could not be read.
    Disconnected,
}

/// What the caller must do.
pub enum Outgoing {
    /// Write the message on this connection.
    Reply(ServerMessage),
    /// Hand the message to each of the connections listed.
    Deliver { to: Vec<u64>, msg: ServerMessage },
    /// Close this connection.
    Close,
}

/// One client's session; `conn` is the handle by which the rooms reach it.
pub struct Session {
    pub conn: u64,
    pub phase: Phase,
}

/// The abstract value of an optional password.
pub open spec fn password_of(p: Option<String>) -> Option<Seq<char>> {
    match p {
        Some(s) => Some(s@),
        None => None,
    }
}

/// The reply refusing a first message that is not a join.
pub open spec fn must_join_text() -> Seq<char> {
    "must join a room first"@
}

/// Whether `o` delivers a message to exactly the connections of `to`.
pub open spec fn delivers_to(o: Outgoing, to: Set<u64>) -> bool {
    o matches Outgoing::Deliver { to: v, .. } && forall|c: u64| #[trigger] v@.contains(c) <==> to.contains(c)
}

/// The message that `o` carries, when it carries one.
pub open spec fn carried(o: Outgoing) -> Option<ServerMessage> {
    match o {
        Outgoing::Reply(m) => Some(m),
        Outgoing::Deliver { msg, .. } => Some(msg),
        Outgoing::Close => None,
    }
}

/// Whether `m` announces that `name` joined.
pub open spec fn is_joined_notice(m: Option<ServerMessage>, name: Seq<char>) -> bool {
    m matches Some(ServerMessage::UserJoined { username }) && username@ == name
}

/// Whether `m` announces that `name` left.
pub open spec fn is_left_notice(m: Option<ServerMessage>, name: Seq<char>) -> bool {
    m matches Some(ServerMessage::UserLeft { username }) && username@ == name
}

/// Whether `m` is the error `text`.
pub open spec fn is_error(m: Option<ServerMessage>, text: Seq<char>) -> bool {
    m matches Some(ServerMessage::Error { message }) && message@ == text
}

/// Whether `m` is the state of `room` listing exactly the members of `r`.
pub open spec fn is_room_state(m: Option<ServerMessage>, room: Seq<char>, r: RoomView) -> bool {
    m matches Some(ServerMessage::RoomState { room: g, users }) && g@ == room && string_views(users@).no_duplicates()
        && forall|n: Seq<char>| #[trigger] string_views(users@).contains(n) <==> r.members.contains_key(n)
}

/// Whether `m` is the chat line `text` from `from` stamped `ts`.
pub open spec fn is_chat(m: Option<ServerMessage>, from: Seq<char>, text: Seq<char>, ts: u64) -> bool {
    m matches Some(ServerMessage::Chat { from: f, text: t, ts: s }) && f@ == from && t@ == text && s == ts
}

/// Whether the session is in `Joined` as `username` in `room`.
pub open spec fn is_joined_as(p: Phase, username: Seq<char>, room: Seq<char>) -> bool {
    p matches Phase::Joined { username: u, room: g } && u@ == username && g@ == room
}

/// The step from `phase` with the rooms `rooms` on `event`, to `phase2`, the
/// rooms `rooms2` and the actions `out`.
pub open spec fn step_spec(
    phase: Phase,
    conn: u64,
    rooms: Map<Seq<char>, RoomView>,
    event: SessionEvent,
    phase2: Phase,
    rooms2: Map<Seq<char>, RoomView>,
    out: Seq<Outgoing>,
) -> bool {
    match phase {
        Phase::AwaitingJoin => match event {
            SessionEvent::Message { msg: ClientMessage::Join { username, room, password }, .. } => {
                let created = rooms_after_join(rooms, room@, password_of(password));
                match join_verdict(created[room@], username@, password_of(password)) {
                    Ok(_) => {
                        let after = rooms_after_subscribe(created, room@, username@, conn);
                        &&& rooms2 == after
                        &&& is_joined_as(phase2, username@, room@)
                        &&& out.len() == 2
                        &&& is_room_state(carried(out[0]), room@, created[room@])
                        &&& out[0] is Reply
                        &&& delivers_to(out[1], recipients(after, room@, username@))
                        &&& is_joined_notice(carried(out[1]), username@)
                    },
                    Err(e) => {
                        &&& rooms2 == created
                        &&& phase2 is Closed
                        &&& out.len() == 2
                        &&& out[0] is Reply
                        &&& is_error(carried(out[0]), join_error_text(e))
                        &&& out[1] is Close
                    },
                }
            },
            SessionEvent::Message { .. } => {
                &&& rooms2 == rooms
                &&& phase2 is Closed
                &&& out.len() == 2
                &&& out[0] is Reply
                &&& is_error(carried(out[0]), must_join_text())
                &&& out[1] is Close
            },
            SessionEvent::Disconnected => {
                &&& rooms2 == rooms
                &&& phase2 is Closed
                &&& out.len() == 1
                &&& out[0] is Close
            },
        },
        Phase::Joined { username, room } => match event {
            SessionEvent::Message { msg: ClientMessage::Chat { text }, now_secs } => {
                &&& rooms2 == rooms
                &&& is_joined_as(phase2, username@, room@)
                &&& out.len() == 1
                &&& delivers_to(out[0], recipients(rooms, room@, username@))
                &&& is_chat(carried(out[0]), username@, text@, now_secs)
            },
            SessionEvent::Message { msg: ClientMessage::Join { .. }, .. } => {
                &&& rooms2 == rooms
                &&& is_joined_as(phase2, username@, room@)
                &&& out.len() == 0
            },
            _ => {
                let after = rooms_after_leave(rooms, room@, username@);
                &&& rooms2 == after
                &&& phase2 is Closed
                &&& out.len() == 2
                &&& delivers_to(out[0], recipients(after, room@, username@))
                &&& is_left_notice(carried(out[0]), username@)
                &&& out[1] is Close
            },
        },
        Phase::Closed => {
            &&& rooms2 == rooms
            &&& phase2 is Closed
            &&& out.len() == 0
        },
    }
}

impl Session {
    /// A session that waits for its join.
    pub fn new(conn: u64) -> (r: Session)
        ensures
            r.conn == conn,
            r.phase is AwaitingJoin,
    {
        Session { conn, phase: Phase::AwaitingJoin }
    }

    /// Handles `event` (see [`step_spec`]).
    pub fn step(&mut self, rooms: &mut RoomManager, event: SessionEvent) -> (r: Vec<Outgoing>)
        requires
            old(rooms).wf(),
        ensures
            final(rooms).wf(),
            final(self).conn == old(self).conn,
            step_spec(
                old(self).phase,
                old(self).conn,
                old(rooms).view(),
                event,
                final(self).phase,
                final(rooms).view(),
                r@,
            ),
            within_capacity(old(rooms).view()) ==> within_capacity(final(rooms).view()),
    {
        let ghost phase0 = self.phase;
        let ghost rooms0 = rooms.view();
        let ghost event0 = event;
        let out = self.step_inner(rooms, event);
        proof {
            if within_capacity(rooms0) {
                law_rooms_stay_within_capacity(phase0, self.conn, rooms0, event0, self.phase, rooms.view(), out@);
            }
        }
        out
    }

    fn step_inner(&mut self, rooms: &mut RoomManager, event: SessionEvent) -> (r: Vec<Outgoing>)
        requires
            old(rooms).wf(),
        ensures
            final(rooms).wf(),
            final(self).conn == old(self).conn,
            step_spec(
                old(self).phase,
                old(self).conn,
                old(rooms).view(),
                event,
                final(self).phase,
                final(rooms).view(),
                r@,
            ),
    {
        let mut out: Vec<Outgoing> = Vec::new();
        let mut phase = Phase::Closed;
        std::mem::swap(&mut phase, &mut self.phase);
        match phase {
            Phase::AwaitingJoin => match event {
                SessionEvent::Message { msg: ClientMessage::Join { username, room, password }, .. } => {
                    let pw: Option<&str> = match &password {
                        Some(p) => Some(p.as_str()),
                        None => None,
                    };
                    assert(password_view(pw) == password_of(password));
                    match rooms.join(room.as_str(), username.as_str(), pw) {
                        Ok(users) => {
                            let ghost created = rooms.view();
                            rooms.subscribe(room.as_str(), username.as_str(), self.conn);
                            let to = rooms.broadcast(room.as_str(), username.as_str());
                            out.push(Outgoing::Reply(ServerMessage::RoomState { room: room.clone(), users }));
                            out.push(
                                Outgoing::Deliver {
                                    to,
                                    msg: ServerMessage::UserJoined { username: username.clone() },
                                },
                            );
                            self.phase = Phase::Joined { username, room };
                        },
                        Err(e) => {
                            out.push(Outgoing::Reply(ServerMessage::Error { message: e.message() }));
                            out.push(Outgoing::Close);
                        },
                    }
                },
                SessionEvent::Message { .. } => {
                    out.push(
                        Outgoing::Reply(
                            ServerMessage::Error { message: String::from_str("must join a room first") },
                        ),
                    );
                    out.push(Outgoing::Close);
                },
                SessionEvent::Disconnected => {
                    out.push(Outgoing::Close);
                },
            },
            Phase::Joined { username, room } => match event {
                SessionEvent::Message { msg: ClientMessage::Chat { text }, now_secs } => {
                    let to = rooms.broadcast(room.as_str(), username.as_str());
                    out.push(
                        Outgoing::Deliver {
                            to,
                            msg: ServerMessage::Chat { from: username.clone(), text, ts: now_secs },
                        },
                    );
                    self.phase = Phase::Joined { username, room };
                },
                SessionEvent::Message { msg: ClientMessage::Join { .. }, .. } => {
                    self.phase = Phase::Joined { username, room };
                },
                _ => {
                    rooms.leave(room.as_str(), username.as_str());
                    let to = rooms.broadcast(room.as_str(), username.as_str());
                    out.push(
                        Outgoing::Deliver { to, msg: ServerMessage::UserLeft { username: username.clone() } },
                    );
                    out.push(Outgoing::Close);
                },
            },
            Phase::Closed => {},
        }
        out
    }
}

/// Every room has finitely many members, at most [`MAX_ROOM_USERS`].
pub open spec fn within_capacity(rooms: Map<Seq<char>, RoomView>) -> bool {
    forall|g: Seq<char>|
        #[trigger] rooms.contains_key(g) ==> rooms[g].members.dom().finite() && rooms[g].members.len()
            <= MAX_ROOM_USERS
}

/// No room ever holds more than [`MAX_ROOM_USERS`] members: whatever a
/// session does, rooms within the cap stay within it, since a member is only
/// added by a join admitted below the cap.
pub proof fn law_rooms_stay_within_capacity(
    phase: Phase,
    conn: u64,
    rooms: Map<Seq<char>, RoomView>,
    event: SessionEvent,
    phase2: Phase,
    rooms2: Map<Seq<char>, RoomView>,
    out: Seq<Outgoing>,
)
    requires
        within_capacity(rooms),
        step_spec(phase, conn, rooms, event, phase2, rooms2, out),
    ensures
        within_capacity(rooms2),
{
    match phase {
        Phase::AwaitingJoin => match event {
            SessionEvent::Message { msg: ClientMessage::Join { username, room, password }, .. } => {
                let created = rooms_after_join(rooms, room@, password_of(password));
                assert(within_capacity(created)) by {
                    assert forall|g: Seq<char>| #[trigger] created.contains_key(g) implies created[g].members.dom().finite()
                        && created[g].members.len() <= MAX_ROOM_USERS by {
                        if !rooms.contains_key(room@) && g == room@ {
                            assert(created[g].members.dom() =~= Set::<Seq<char>>::empty());
                        }
                    }
                }
                match join_verdict(created[room@], username@, password_of(password)) {
                    Ok(_) => {
                        assert forall|g: Seq<char>| #[trigger] rooms2.contains_key(g) implies rooms2[g].members.dom().finite()
                            && rooms2[g].members.len() <= MAX_ROOM_USERS by {
                            if g == room@ {
                                assert(created.contains_key(g));
                                let m = created[g].members;
                                assert(rooms2[g].members == m.insert(username@, conn));
                                assert(m.insert(username@, conn).dom() =~= m.dom().insert(username@));
                            } else {
                                assert(created.contains_key(g));
                            }
                        }
                    },
                    Err(_) => {},
                }
            },
            _ => {},
        },
        Phase::Joined { username, room } => match event {
            SessionEvent::Message { msg: ClientMessage::Chat { .. }, .. } => {},
            SessionEvent::Message { msg: ClientMessage::Join { .. }, .. } => {},
            _ => {
                assert forall|g: Seq<char>| #[trigger] rooms2.contains_key(g) implies rooms2[g].members.dom().finite()
                    && rooms2[g].members.len() <= MAX_ROOM_USERS by {
                    assert(rooms.contains_key(g));
                    if g == room@ {
                        let m = rooms[g].members;
                        assert(m.remove(username@).dom() =~= m.dom().remove(username@));
                    }
                }
            },
        },
        Phase::Closed => {},
    }
}

} // verus!
