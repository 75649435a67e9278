//! The server's voice relay: it learns each user's network endpoint from the
//! voice packets the user sends, and forwards every packet unchanged to the
//! other users of the same room. It mixes and transcodes nothing.
use vstd::prelude::*;
use crate::voice::{decode_header, header_of};

verus! {

/// A network endpoint: an address (an IPv4 address in the low 32 bits when
/// `v6` is false) and a port.
#[derive(Debug, Clone, Copy, PartialEq, Eq, Structural)]
pub struct Endpoint {
    pub ip: u128,
    pub v6: bool,
    pub port: u16,
}

/// A user's registration: the room and user ids its packets carry, and the
/// endpoint they last came from.
#[derive(Debug, Clone, Copy, PartialEq, Eq, Structural)]
pub struct Registration {
    pub room_id: u16,
    pub user_id: u16,
    pub endpoint: Endpoint,
}

/// Where the registration of `user_id` in `room_id` stands, if anywhere.
pub open spec fn registered_at(regs: Seq<Registration>, room_id: u16, user_id: u16, i: int) -> bool {
    0 <= i < regs.len() && regs[i].room_id == room_id && regs[i].user_id == user_id
}

/// No user is registered twice in a room.
pub open spec fn unique_registrations(regs: Seq<Registration>) -> bool {
    forall|i: int, j: int|
        0 <= i < regs.len() && 0 <= j < regs.len() && i != j ==> !(#[trigger] regs[i].room_id
            == #[trigger] regs[j].room_id && regs[i].user_id == regs[j].user_id)
}

/// The registrations after `user_id` of `room_id` sends from `endpoint`: its
/// endpoint is updated in place, or it is added at the end.
pub open spec fn registered(regs: Seq<Registration>, room_id: u16, user_id: u16, endpoint: Endpoint) -> Seq<
    Registration,
> {
    let entry = Registration { room_id, user_id, endpoint };
    if exists|i: int| registered_at(regs, room_id, user_id, i) {
        regs.update(choose|i: int| registered_at(regs, room_id, user_id, i), entry)
    } else {
        regs.push(entry)
    }
}

/// The endpoints of the users of `room_id` other than `user_id`, in the order
/// of their registrations.
pub open spec fn peers_of(regs: Seq<Registration>, room_id: u16, user_id: u16) -> Seq<Endpoint>
    decreases regs.len(),
{
    if regs.len() == 0 {
        seq![]
    } else {
        let before = peers_of(regs.drop_last(), room_id, user_id);
        let last = regs.last();
        if last.room_id == room_id && last.user_id != user_id {
            before.push(last.endpoint)
        } else {
            before
        }
    }
}

proof fn lemma_update_registration(regs: Seq<Registration>, i: int, entry: Registration)
    requires
        unique_registrations(regs),
        registered_at(regs, entry.room_id, entry.user_id, i),
    ensures
        unique_registrations(regs.update(i, entry)),
        registered(regs, entry.room_id, entry.user_id, entry.endpoint) == regs.update(i, entry),
{
    let r2 = regs.update(i, entry);
    assert forall|k: int| #[trigger] registered_at(regs, entry.room_id, entry.user_id, k) implies k == i by {
        if k != i {
            assert(regs[k].room_id == regs[i].room_id);
        }
    }
    assert forall|a: int, b: int|
        0 <= a < r2.len() && 0 <= b < r2.len() && a != b implies !(#[trigger] r2[a].room_id
        == #[trigger] r2[b].room_id && r2[a].user_id == r2[b].user_id) by {
        if a == i {
            assert(!registered_at(regs, entry.room_id, entry.user_id, b));
        } else if b == i {
            assert(!registered_at(regs, entry.room_id, entry.user_id, a));
        } else {
            assert(regs[a].room_id == r2[a].room_id && regs[b].room_id == r2[b].room_id);
        }
    }
    assert(exists|k: int| registered_at(regs, entry.room_id, entry.user_id, k));
    let c = choose|k: int| registered_at(regs, entry.room_id, entry.user_id, k);
    assert(c == i);
    assert(Registration { room_id: entry.room_id, user_id: entry.user_id, endpoint: entry.endpoint } == entry);
}

/// The relay's registrations.
pub struct VoiceRelay {
    regs: Vec<Registration>,
}

impl View for VoiceRelay {
    type V = Seq<Registration>;

    closed spec fn view(&self) -> Seq<Registration> {
        self.regs@
    }
}

impl VoiceRelay {
    /// No user is registered twice in a room.
    pub closed spec fn wf(&self) -> bool {
        unique_registrations(self.regs@)
    }

    /// A relay that knows nobody.
    pub fn new() -> (r: Self)
        ensures
            r.wf(),
            r@ == Seq::<Registration>::empty(),
    {
        VoiceRelay { regs: Vec::new() }
    }

    /// Records that `user_id` of `room_id` sends from `endpoint`.
    pub fn register(&mut self, room_id: u16, user_id: u16, endpoint: Endpoint)
        requires
            old(self).wf(),
        ensures
            final(self).wf(),
            final(self)@ == registered(old(self)@, room_id, user_id, endpoint),
    {
        let entry = Registration { room_id, user_id, endpoint };
        let mut i: usize = 0;
        while i < self.regs.len()
            invariant
                0 <= i <= self.regs@.len(),
                self.regs@ == old(self).regs@,
                unique_registrations(self.regs@),
                entry == (Registration { room_id, user_id, endpoint }),
                forall|j: int| 0 <= j < i ==> !registered_at(self.regs@, room_id, user_id, j),
            decreases self.regs@.len() - i,
        {
            let cur = self.regs[i];
            if cur.room_id == room_id && cur.user_id == user_id {
                assert(registered_at(self.regs@, room_id, user_id, i as int));
                proof {
                    lemma_update_registration(self.regs@, i as int, entry);
                }
                self.regs.set(i, entry);
                return;
            }
            i = i + 1;
        }
        self.regs.push(entry);
        assert(unique_registrations(self.regs@)) by {
            let n = self.regs@.len() - 1;
            assert forall|a: int, b: int|
                0 <= a < self.regs@.len() && 0 <= b < self.regs@.len() && a != b implies !(
                #[trigger] self.regs@[a].room_id == #[trigger] self.regs@[b].room_id && self.regs@[a].user_id
                    == self.regs@[b].user_id) by {
                if a == n {
                    assert(!registered_at(old(self).regs@, room_id, user_id, b));
                    assert(self.regs@[b] == old(self).regs@[b]);
                } else if b == n {
                    assert(!registered_at(old(self).regs@, room_id, user_id, a));
                    assert(self.regs@[a] == old(self).regs@[a]);
                } else {
                    assert(self.regs@[a] == old(self).regs@[a]);
                    assert(self.regs@[b] == old(self).regs@[b]);
                }
            }
        }
    }

    /// The endpoints to forward a packet of `user_id` in `room_id` to (see
    /// [`peers_of`]).
    pub fn peers(&self, room_id: u16, user_id: u16) -> (r: Vec<Endpoint>)
        ensures
            r@ == peers_of(self@, room_id, user_id),
    {
        let mut out: Vec<Endpoint> = Vec::new();
        let mut i: usize = 0;
        while i < self.regs.len()
            invariant
                0 <= i <= self.regs@.len(),
                out@ == peers_of(self.regs@.take(i as int), room_id, user_id),
            decreases self.regs@.len() - i,
        {
            assert(self.regs@.take(i + 1).drop_last() =~= self.regs@.take(i as int));
            let e = self.regs[i];
            if e.room_id == room_id && e.user_id != user_id {
                out.push(e.endpoint);
            }
            i = i + 1;
        }
        assert(self.regs@.take(self.regs@.len() as int) =~= self.regs@);
        out
    }

    /// Handles a datagram from `from`: a packet too short to carry a voice
    /// header is dropped (`None`); otherwise its sender is registered and the
    /// endpoints to forward it to come back.
    pub fn route(&mut self, packet: &[u8], from: Endpoint) -> (r: Option<Vec<Endpoint>>)
        requires
            old(self).wf(),
        ensures
            final(self).wf(),
            match header_of(packet@) {
                None => r is None && final(self)@ == old(self)@,
                Some((room_id, user_id, _)) => {
                    &&& final(self)@ == registered(old(self)@, room_id, user_id, from)
                    &&& r matches Some(v) && v@ == peers_of(final(self)@, room_id, user_id)
                },
            },
    {
        match decode_header(packet) {
            None => None,
            Some((room_id, user_id, _seq)) => {
                self.register(room_id, user_id, from);
                Some(self.peers(room_id, user_id))
            },
        }
    }
}

/// A packet goes to every other user registered in the sender's room, and to
/// nobody else: an endpoint is among the peers exactly when some registration
/// of another user of that room has it.
pub proof fn law_relay_reaches_room_peers(regs: Seq<Registration>, room_id: u16, user_id: u16, e: Endpoint)
    ensures
        peers_of(regs, room_id, user_id).contains(e) <==> exists|j: int|
            0 <= j < regs.len() && #[trigger] regs[j].room_id == room_id && regs[j].user_id != user_id
                && regs[j].endpoint == e,
    decreases regs.len(),
{
    if regs.len() > 0 {
        let before = regs.drop_last();
        law_relay_reaches_room_peers(before, room_id, user_id, e);
        let last = regs.last();
        let p0 = peers_of(before, room_id, user_id);
        if exists|j: int|
            0 <= j < before.len() && #[trigger] before[j].room_id == room_id && before[j].user_id != user_id
                && before[j].endpoint == e {
            let j = choose|j: int|
                0 <= j < before.len() && #[trigger] before[j].room_id == room_id && before[j].user_id != user_id
                    && before[j].endpoint == e;
            assert(regs[j] == before[j]);
        }
        if exists|j: int|
            0 <= j < regs.len() && #[trigger] regs[j].room_id == room_id && regs[j].user_id != user_id
                && regs[j].endpoint == e {
            let j = choose|j: int|
                0 <= j < regs.len() && #[trigger] regs[j].room_id == room_id && regs[j].user_id != user_id
                    && regs[j].endpoint == e;
            if j < before.len() {
                assert(before[j] == regs[j]);
            }
        }
        if last.room_id == room_id && last.user_id != user_id {
            assert(peers_of(regs, room_id, user_id) == p0.push(last.endpoint));
            assert(p0.push(last.endpoint).contains(e) <==> (p0.contains(e) || last.endpoint == e)) by {
                if p0.push(last.endpoint).contains(e) && last.endpoint != e {
                    let k = choose|k: int| 0 <= k < p0.len() + 1 && p0.push(last.endpoint)[k] == e;
                    assert(p0[k] == e);
                }
                if p0.contains(e) {
                    let k = choose|k: int| 0 <= k < p0.len() && p0[k] == e;
                    assert(p0.push(last.endpoint)[k] == e);
                }
                if last.endpoint == e {
                    assert(p0.push(last.endpoint)[p0.len() as int] == e);
                }
            }
            assert(regs[regs.len() - 1] == last);
        }
    }
}

} // verus!
