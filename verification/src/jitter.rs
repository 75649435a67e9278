//! The client's jitter buffer: per-sender packet buffers keyed by sequence
//! number, the priming delay before playback starts, the playback cursor and
//! the per-window receive statistics used for the connection-quality display.
//!
//! Decoding the audio and mixing the decoded samples happen outside this
//! module; [`JitterBuffer::next_step`] says what to decode for a sender and
//! [`JitterBuffer::finish_step`] moves that sender's cursor once it is done.
use vstd::prelude::*;
use std::collections::BTreeMap;
use std::collections::HashMap;

verus! {

broadcast use {vstd::std_specs::btree::group_btree_axioms, vstd::laws_cmp::group_laws_cmp};

/// Most packets a sender's buffer keeps; the lowest sequence numbers go first.
pub const MAX_BUFFERED: usize = 20;

/// Packets to receive before playback of a sender starts (about 60 ms).
pub const PRIME_PACKETS: usize = 3;

/// Largest forward step of the sequence number still taken as newer.
pub const HALF_SEQ_SPACE: u16 = 32768;

/// Windows spanning this many sequence numbers or more report no loss.
pub const MAX_WINDOW: u32 = 10000;

/// The packet payloads of a buffer, by sequence number.
pub type PacketMap = Map<u16, Seq<u8>>;

/// Removes and returns the entry with the lowest key
/// (`std::collections::BTreeMap::pop_first`): `None` exactly when the map is
/// empty, in which case it is left as it was.
#[verifier::external_body]
fn pop_lowest(m: &mut BTreeMap<u16, Vec<u8>>) -> (r: Option<(u16, Vec<u8>)>)
    ensures
        r is None <==> old(m)@.dom().is_empty(),
        r is None ==> final(m)@ == old(m)@,
        r matches Some((k, v)) ==> {
            &&& old(m)@.contains_key(k)
            &&& old(m)@[k] == v
            &&& (forall|j: u16| #[trigger] old(m)@.contains_key(j) ==> k <= j)
            &&& final(m)@ == old(m)@.remove(k)
        },
{
    m.pop_first()
}

/// The lowest key of a non-empty map.
pub open spec fn lowest_key(m: PacketMap) -> u16 {
    choose|k: u16| #[trigger] m.contains_key(k) && (forall|j: u16| #[trigger] m.contains_key(j) ==> k <= j)
}

/// How far `seq` lies ahead of `latest`, counting modulo 2^16.
pub open spec fn seq_ahead(seq: u16, latest: u16) -> int {
    (seq as int - latest as int + 0x10000) % 0x10000
}

/// The abstract state of one sender's buffer.
pub struct UserBufferView {
    pub packets: PacketMap,
    pub play_seq: u16,
    pub primed: bool,
    pub buffered_count: usize,
    pub window_received: u32,
    pub window_start_seq: Option<u16>,
    pub window_latest_seq: u16,
}

/// The buffer state after a packet arrives (see [`UserBuffer::insert`]).
pub open spec fn inserted(v: UserBufferView, seq: u16, data: Seq<u8>) -> UserBufferView {
    let play_seq = if !v.primed && v.packets.dom().is_empty() {
        seq
    } else {
        v.play_seq
    };
    let buffered_count = if !v.primed && v.buffered_count < usize::MAX {
        (v.buffered_count + 1) as usize
    } else {
        v.buffered_count
    };
    let window_latest_seq = match v.window_start_seq {
        None => seq,
        Some(_) => if 0 < seq_ahead(seq, v.window_latest_seq) < HALF_SEQ_SPACE {
            seq
        } else {
            v.window_latest_seq
        },
    };
    let window_start_seq = match v.window_start_seq {
        None => Some(seq),
        Some(s) => Some(s),
    };
    let p1 = v.packets.insert(seq, data);
    let packets = if p1.len() > MAX_BUFFERED {
        p1.remove(lowest_key(p1))
    } else {
        p1
    };
    UserBufferView {
        packets,
        play_seq,
        primed: v.primed,
        buffered_count,
        window_received: ((v.window_received + 1) % 0x1_0000_0000) as u32,
        window_start_seq,
        window_latest_seq,
    }
}

/// What to do for a sender's next audio frame.
pub enum FrameStep {
    /// Not enough packets buffered yet; play nothing.
    Wait,
    /// Decode this packet.
    Decode(Vec<u8>),
    /// The packet is missing; let the decoder conceal the gap.
    Conceal,
}

/// Lost and expected packet counts of a statistics window.
#[derive(Debug, Clone, Copy, PartialEq, Eq, Structural)]
pub struct LossWindow {
    pub lost: u32,
    pub expected: u32,
}

/// The loss figures of a buffer: `None` when no packet arrived in the window
/// or the window spans [`MAX_WINDOW`] sequence numbers or more (reported as no
/// loss).
pub open spec fn loss_of(v: UserBufferView) -> Option<LossWindow> {
    match v.window_start_seq {
        None => None,
        Some(start) => {
            let expected = seq_ahead(v.window_latest_seq, start) + 1;
            if expected < MAX_WINDOW {
                Some(
                    LossWindow {
                        lost: if expected >= v.window_received {
                            (expected - v.window_received) as u32
                        } else {
                            0
                        },
                        expected: expected as u32,
                    },
                )
            } else {
                None
            }
        },
    }
}

/// One sender's jitter buffer.
pub struct UserBuffer {
    packets: BTreeMap<u16, Vec<u8>>,
    play_seq: u16,
    primed: bool,
    buffered_count: usize,
    window_received: u32,
    window_start_seq: Option<u16>,
    window_latest_seq: u16,
}

/// The payload view of a packet table.
pub open spec fn packet_payloads(m: Map<u16, Vec<u8>>) -> PacketMap {
    m.map_values(|v: Vec<u8>| v@)
}

impl UserBuffer {
    /// The abstract state of the buffer.
    pub closed spec fn view(&self) -> UserBufferView {
        UserBufferView {
            packets: packet_payloads(self.packets@),
            play_seq: self.play_seq,
            primed: self.primed,
            buffered_count: self.buffered_count,
            window_received: self.window_received,
            window_start_seq: self.window_start_seq,
            window_latest_seq: self.window_latest_seq,
        }
    }

    /// The buffer never holds more than [`MAX_BUFFERED`] packets.
    pub closed spec fn wf(&self) -> bool {
        self.packets@.len() <= MAX_BUFFERED
    }

    /// A well-formed buffer holds finitely many packets, at most
    /// [`MAX_BUFFERED`] (so [`law_buffer_keeps_highest`] applies to it).
    pub proof fn lemma_packets_bounded(&self)
        requires
            self.wf(),
        ensures
            self.view().packets.dom().finite(),
            self.view().packets.len() <= MAX_BUFFERED,
    {
        broadcast use vstd::std_specs::btree::axiom_btree_map_view_finite_dom;

        assert(packet_payloads(self.packets@).dom() =~= self.packets@.dom());
    }

    /// An empty, unprimed buffer.
    pub fn new() -> (r: Self)
        ensures
            r.wf(),
            r.view() == (UserBufferView {
                packets: Map::empty(),
                play_seq: 0,
                primed: false,
                buffered_count: 0,
                window_received: 0,
                window_start_seq: None,
                window_latest_seq: 0,
            }),
    {
        let r = UserBuffer {
            packets: BTreeMap::new(),
            play_seq: 0,
            primed: false,
            buffered_count: 0,
            window_received: 0,
            window_start_seq: None,
            window_latest_seq: 0,
        };
        assert(packet_payloads(r.packets@) =~= Map::empty());
        r
    }

    /// Files a packet that arrived with sequence number `seq` (see
    /// [`inserted`]): before playback starts, the first packet of an empty
    /// buffer sets the playback cursor and every packet counts towards the
    /// priming delay; the statistics window notes the packet; and when the
    /// buffer then holds more than [`MAX_BUFFERED`] packets, the one with the
    /// lowest sequence number is dropped.
    pub fn insert(&mut self, seq: u16, opus_data: Vec<u8>)
        requires
            old(self).wf(),
        ensures
            final(self).wf(),
            final(self).view() == inserted(old(self).view(), seq, opus_data@),
            final(self).view().packets.dom().finite(),
            final(self).view().packets.len() <= MAX_BUFFERED,
    {
        let ghost v = self.view();
        let ghost data = opus_data@;
        assert(packet_payloads(self.packets@).dom() =~= self.packets@.dom());
        if !self.primed {
            if self.packets.is_empty() {
                self.play_seq = seq;
            }
            if self.buffered_count < usize::MAX {
                self.buffered_count = self.buffered_count + 1;
            }
        }
        self.window_received = self.window_received.wrapping_add(1);
        match self.window_start_seq {
            None => {
                self.window_start_seq = Some(seq);
                self.window_latest_seq = seq;
            },
            Some(_) => {
                let fwd = seq.wrapping_sub(self.window_latest_seq);
                assert(fwd == seq_ahead(seq, self.window_latest_seq));
                if fwd > 0 && fwd < HALF_SEQ_SPACE {
                    self.window_latest_seq = seq;
                }
            },
        }
        self.packets.insert(seq, opus_data);
        let ghost p1 = v.packets.insert(seq, data);
        assert(packet_payloads(self.packets@) =~= p1);
        assert(self.packets@.dom() =~= p1.dom());
        let ghost mid = self.view();
        while self.packets.len() > MAX_BUFFERED
            invariant
                self.play_seq == mid.play_seq,
                self.primed == mid.primed,
                self.buffered_count == mid.buffered_count,
                self.window_received == mid.window_received,
                self.window_start_seq == mid.window_start_seq,
                self.window_latest_seq == mid.window_latest_seq,
                (packet_payloads(self.packets@) == p1 && self.packets@.len() == p1.len())
                    || (packet_payloads(self.packets@) == p1.remove(lowest_key(p1)) && p1.len()
                    > MAX_BUFFERED && self.packets@.len() <= MAX_BUFFERED),
                p1.len() <= MAX_BUFFERED + 1,
            decreases self.packets@.len(),
        {
            let ghost before = self.packets@;
            let popped = pop_lowest(&mut self.packets);
            match popped {
                Some((k, _)) => {
                    assert(packet_payloads(before) == p1);
                    assert(before.dom() =~= p1.dom());
                    assert(p1.contains_key(k));
                    assert forall|j: u16| #[trigger] p1.contains_key(j) implies k <= j by {
                        assert(before.contains_key(j));
                    }
                    assert(k == lowest_key(p1)) by {
                        let l = lowest_key(p1);
                        assert(p1.contains_key(l) && (forall|j: u16| #[trigger] p1.contains_key(j) ==> l <= j));
                        assert(l <= k && k <= l);
                    }
                    assert(packet_payloads(self.packets@) =~= p1.remove(k));
                },
                None => {},
            }
        }
        assert(packet_payloads(self.packets@).dom() =~= self.packets@.dom());
        assert(self.view() == inserted(v, seq, data));
        proof {
            self.lemma_packets_bounded();
        }
    }

    /// Whether playback started and no packet is left.
    pub fn is_idle(&self) -> (r: bool)
        ensures
            r == (self.view().packets.dom().is_empty() && self.view().primed),
    {
        assert(packet_payloads(self.packets@).dom() =~= self.packets@.dom());
        self.packets.is_empty() && self.primed
    }

    /// Decides the next frame: wait while fewer than [`PRIME_PACKETS`] packets
    /// arrived before playback started; otherwise playback is (or becomes)
    /// started and the packet at the cursor is taken out to be decoded, or is
    /// reported missing.
    pub fn next_step(&mut self) -> (r: FrameStep)
        requires
            old(self).wf(),
        ensures
            final(self).wf(),
            ({
                let v = old(self).view();
                if !v.primed && v.buffered_count < PRIME_PACKETS {
                    r is Wait && final(self).view() == v
                } else if v.packets.contains_key(v.play_seq) {
                    r matches FrameStep::Decode(d) && d@ == v.packets[v.play_seq] && final(self).view()
                        == (UserBufferView { primed: true, packets: v.packets.remove(v.play_seq), ..v })
                } else {
                    r is Conceal && final(self).view() == (UserBufferView { primed: true, ..v })
                }
            }),
    {
        if !self.primed {
            if self.buffered_count < PRIME_PACKETS {
                return FrameStep::Wait;
            }
            self.primed = true;
        }
        let ghost before = self.packets@;
        let key = self.play_seq;
        match self.packets.remove(&key) {
            Some(d) => {
                assert(packet_payloads(self.packets@) =~= packet_payloads(before).remove(key));
                FrameStep::Decode(d)
            },
            None => {
                assert(packet_payloads(self.packets@) =~= packet_payloads(before));
                FrameStep::Conceal
            },
        }
    }

    /// Finishes a frame: the cursor moves to the next sequence number when
    /// `advance` (the decoder took the packet or concealed the gap); it stays
    /// when decoding a received packet failed.
    pub fn finish_step(&mut self, advance: bool)
        requires
            old(self).wf(),
        ensures
            final(self).wf(),
            final(self).view() == (UserBufferView {
                play_seq: if advance {
                    ((old(self).view().play_seq + 1) % 0x10000) as u16
                } else {
                    old(self).view().play_seq
                },
                ..old(self).view()
            }),
    {
        if advance {
            self.play_seq = self.play_seq.wrapping_add(1);
        }
    }

    /// The loss figures of the current statistics window (see [`loss_of`]).
    pub fn loss(&self) -> (r: Option<LossWindow>)
        ensures
            r == loss_of(self.view()),
    {
        match self.window_start_seq {
            None => None,
            Some(start) => {
                let expected: u32 = self.window_latest_seq.wrapping_sub(start) as u32 + 1;
                if expected > 0 && expected < MAX_WINDOW {
                    Some(LossWindow { lost: expected.saturating_sub(self.window_received), expected })
                } else {
                    None
                }
            },
        }
    }

    /// Starts a new statistics window.
    pub fn reset_stats(&mut self)
        requires
            old(self).wf(),
        ensures
            final(self).wf(),
            final(self).view() == (UserBufferView {
                window_received: 0,
                window_start_seq: None,
                window_latest_seq: 0,
                ..old(self).view()
            }),
    {
        self.window_received = 0;
        self.window_start_seq = None;
        self.window_latest_seq = 0;
    }
}


proof fn lemma_push_contains<T>(s: Seq<T>, x: T)
    ensures
        forall|k: T| #[trigger] s.push(x).contains(k) <==> (s.contains(k) || k == x),
        s.no_duplicates() && !s.contains(x) ==> s.push(x).no_duplicates(),
{
    assert forall|k: T| #[trigger] s.push(x).contains(k) <==> (s.contains(k) || k == x) by {
        if s.push(x).contains(k) && k != x {
            let j = choose|j: int| 0 <= j < s.len() + 1 && #[trigger] s.push(x)[j] == k;
            assert(s[j] == k);
        }
        if k == x {
            assert(s.push(x)[s.len() as int] == x);
        }
        if s.contains(k) {
            let j = choose|j: int| 0 <= j < s.len() && #[trigger] s[j] == k;
            assert(s.push(x)[j] == k);
        }
    }
    if s.no_duplicates() && !s.contains(x) {
        assert forall|i: int, j: int| 0 <= i < j < s.len() + 1 implies s.push(x)[i] != s.push(x)[j] by {
            if j == s.len() {
                assert(s[i] == s.push(x)[i]);
            }
        }
    }
}

/// The jitter buffers of all senders heard so far.
pub struct JitterBuffer {
    users: HashMap<u16, UserBuffer>,
    ids: Vec<u16>,
}

impl JitterBuffer {
    /// Each sender's buffer state, by user id.
    pub closed spec fn view(&self) -> Map<u16, UserBufferView> {
        self.users@.map_values(|b: UserBuffer| b.view())
    }

    /// The id list names each sender once, and every buffer is well formed.
    pub closed spec fn wf(&self) -> bool {
        &&& self.ids@.no_duplicates()
        &&& forall|k: u16| #[trigger] self.users@.contains_key(k) <==> self.ids@.contains(k)
        &&& forall|k: u16| #[trigger] self.users@.contains_key(k) ==> self.users@[k].wf()
    }

    /// No sender yet.
    pub fn new() -> (r: Self)
        ensures
            r.wf(),
            r.view() == Map::<u16, UserBufferView>::empty(),
    {
        let r = JitterBuffer { users: HashMap::new(), ids: Vec::new() };
        assert(r.view() =~= Map::<u16, UserBufferView>::empty());
        r
    }

    /// Files a voice packet from `user_id`, starting a fresh buffer for a new
    /// sender.
    pub fn insert(&mut self, user_id: u16, seq: u16, opus_data: Vec<u8>)
        requires
            old(self).wf(),
        ensures
            final(self).wf(),
            final(self).view() == old(self).view().insert(
                user_id,
                inserted(
                    if old(self).view().contains_key(user_id) {
                        old(self).view()[user_id]
                    } else {
                        UserBuffer::new_view()
                    },
                    seq,
                    opus_data@,
                ),
            ),
    {
        broadcast use vstd::std_specs::hash::group_hash_axioms;

        let ghost old_view = self.view();
        let mut buf = match self.users.remove(&user_id) {
            Some(b) => b,
            None => {
                proof {
                    lemma_push_contains(self.ids@, user_id);
                }
                self.ids.push(user_id);
                UserBuffer::new()
            },
        };
        buf.insert(seq, opus_data);
        let ghost bv = buf.view();
        self.users.insert(user_id, buf);
        assert(self.view() =~= old_view.insert(user_id, bv));
    }

    /// The senders heard so far, each once, in no particular order.
    pub fn active_users(&self) -> (r: Vec<u16>)
        requires
            self.wf(),
        ensures
            r@.no_duplicates(),
            forall|k: u16| #[trigger] r@.contains(k) <==> self.view().contains_key(k),
    {
        self.ids.clone()
    }

    /// Decides the next frame of `user_id` (see [`UserBuffer::next_step`]);
    /// an unknown sender waits.
    pub fn next_step(&mut self, user_id: u16) -> (r: FrameStep)
        requires
            old(self).wf(),
        ensures
            final(self).wf(),
            !old(self).view().contains_key(user_id) ==> r is Wait && final(self).view() == old(
                self,
            ).view(),
            old(self).view().contains_key(user_id) ==> {
                let v = old(self).view()[user_id];
                if !v.primed && v.buffered_count < PRIME_PACKETS {
                    r is Wait && final(self).view() == old(self).view()
                } else if v.packets.contains_key(v.play_seq) {
                    r matches FrameStep::Decode(d) && d@ == v.packets[v.play_seq] && final(self).view()
                        == old(self).view().insert(
                        user_id,
                        UserBufferView { primed: true, packets: v.packets.remove(v.play_seq), ..v },
                    )
                } else {
                    r is Conceal && final(self).view() == old(self).view().insert(
                        user_id,
                        UserBufferView { primed: true, ..v },
                    )
                }
            },
    {
        broadcast use vstd::std_specs::hash::group_hash_axioms;

        let ghost old_view = self.view();
        match self.users.remove(&user_id) {
            None => FrameStep::Wait,
            Some(mut buf) => {
                let step = buf.next_step();
                let ghost bv = buf.view();
                self.users.insert(user_id, buf);
                assert(self.view() =~= old_view.insert(user_id, bv));
                proof {
                    if old_view[user_id] == bv {
                        assert(self.view() =~= old_view);
                    }
                }
                step
            },
        }
    }

    /// Finishes a frame of `user_id` (see [`UserBuffer::finish_step`]);
    /// nothing happens for an unknown sender.
    pub fn finish_step(&mut self, user_id: u16, advance: bool)
        requires
            old(self).wf(),
        ensures
            final(self).wf(),
            !old(self).view().contains_key(user_id) ==> final(self).view() == old(self).view(),
            old(self).view().contains_key(user_id) ==> final(self).view() == old(self).view().insert(
                user_id,
                UserBufferView {
                    play_seq: if advance {
                        ((old(self).view()[user_id].play_seq + 1) % 0x10000) as u16
                    } else {
                        old(self).view()[user_id].play_seq
                    },
                    ..old(self).view()[user_id]
                },
            ),
    {
        broadcast use vstd::std_specs::hash::group_hash_axioms;

        let ghost old_view = self.view();
        match self.users.remove(&user_id) {
            None => {},
            Some(mut buf) => {
                buf.finish_step(advance);
                let ghost bv = buf.view();
                self.users.insert(user_id, buf);
                assert(self.view() =~= old_view.insert(user_id, bv));
            },
        }
    }
}

impl UserBuffer {
    /// The state of a fresh buffer.
    pub open spec fn new_view() -> UserBufferView {
        UserBufferView {
            packets: Map::empty(),
            play_seq: 0,
            primed: false,
            buffered_count: 0,
            window_received: 0,
            window_start_seq: None,
            window_latest_seq: 0,
        }
    }
}


/// Whether a sender's buffer is idle: playback started and no packet is left.
pub open spec fn idle(v: UserBufferView) -> bool {
    v.packets.dom().is_empty() && v.primed
}

/// The sender ids of a statistics list, in order.
pub open spec fn stat_ids(s: Seq<(u16, Option<LossWindow>)>) -> Seq<u16> {
    s.map_values(|e: (u16, Option<LossWindow>)| e.0)
}

impl JitterBuffer {
    /// Forgets every idle sender.
    pub fn remove_idle(&mut self)
        requires
            old(self).wf(),
        ensures
            final(self).wf(),
            final(self).view() == Map::new(
                |k: u16| old(self).view().contains_key(k) && !idle(old(self).view()[k]),
                |k: u16| old(self).view()[k],
            ),
    {
        broadcast use vstd::std_specs::hash::group_hash_axioms;

        let ghost start = self.view();
        let ghost users0 = self.users@;
        let ghost ids0 = self.ids@;
        let mut kept: Vec<u16> = Vec::new();
        let n = self.ids.len();
        let mut i: usize = 0;
        while i < n
            invariant
                0 <= i <= n,
                n == ids0.len(),
                self.ids@ == ids0,
                ids0.no_duplicates(),
                forall|k: u16| #[trigger] users0.contains_key(k) <==> ids0.contains(k),
                forall|k: u16| #[trigger] users0.contains_key(k) ==> users0[k].wf(),
                start == users0.map_values(|b: UserBuffer| b.view()),
                forall|k: u16|
                    #[trigger] self.users@.contains_key(k) <==> (users0.contains_key(k) && !(
                    ids0.take(i as int).contains(k) && idle(start[k]))),
                forall|k: u16| #[trigger] self.users@.contains_key(k) ==> self.users@[k] == users0[k],
                kept@.no_duplicates(),
                forall|k: u16|
                    #[trigger] kept@.contains(k) <==> (ids0.take(i as int).contains(k) && !idle(start[k])),
            decreases n - i,
        {
            let id = self.ids[i];
            proof {
                lemma_push_contains(ids0.take(i as int), id);
            }
            assert(ids0.take(i as int + 1) =~= ids0.take(i as int).push(id));
            assert(!ids0.take(i as int).contains(id)) by {
                if ids0.take(i as int).contains(id) {
                    let j = choose|j: int| 0 <= j < i && #[trigger] ids0.take(i as int)[j] == id;
                    assert(ids0[j] == ids0[i as int]);
                }
            }
            assert(ids0.contains(id));
            let is_idle = match self.users.get(&id) {
                Some(b) => b.is_idle(),
                None => false,
            };
            assert(is_idle == idle(start[id]));
            if is_idle {
                self.users.remove(&id);
            } else {
                proof {
                    lemma_push_contains(kept@, id);
                }
                kept.push(id);
            }
            i = i + 1;
        }
        assert(ids0.take(n as int) =~= ids0);
        self.ids = kept;
        assert(self.view() =~= Map::new(
            |k: u16| start.contains_key(k) && !idle(start[k]),
            |k: u16| start[k],
        ));
    }

    /// The loss figures of every sender (see [`loss_of`]), each sender once.
    pub fn get_quality_stats(&self) -> (r: Vec<(u16, Option<LossWindow>)>)
        requires
            self.wf(),
        ensures
            stat_ids(r@).no_duplicates(),
            forall|k: u16| self.view().contains_key(k) <==> #[trigger] stat_ids(r@).contains(k),
            forall|i: int|
                0 <= i < r@.len() ==> #[trigger] r@[i].1 == loss_of(self.view()[r@[i].0]),
    {
        broadcast use vstd::std_specs::hash::group_hash_axioms;

        let mut out: Vec<(u16, Option<LossWindow>)> = Vec::new();
        let n = self.ids.len();
        let mut i: usize = 0;
        while i < n
            invariant
                0 <= i <= n,
                n == self.ids@.len(),
                self.wf(),
                out@.len() == i,
                stat_ids(out@) =~= self.ids@.take(i as int),
                forall|j: int|
                    0 <= j < out@.len() ==> #[trigger] out@[j].1 == loss_of(self.view()[out@[j].0]),
            decreases n - i,
        {
            let id = self.ids[i];
            assert(self.ids@.contains(id));
            let loss = match self.users.get(&id) {
                Some(b) => b.loss(),
                None => None,
            };
            let ghost o = out@;
            out.push((id, loss));
            assert forall|j: int| 0 <= j < i + 1 implies #[trigger] stat_ids(out@)[j] == self.ids@.take(
                i as int + 1,
            )[j] by {
                if j < i {
                    assert(out@[j] == o[j]);
                    assert(stat_ids(o)[j] == self.ids@.take(i as int)[j]);
                }
            }
            i = i + 1;
            assert(stat_ids(out@) =~= self.ids@.take(i as int));
        }
        assert(self.ids@.take(n as int) =~= self.ids@);
        out
    }

    /// Starts a new statistics window for every sender.
    pub fn reset_quality_stats(&mut self)
        requires
            old(self).wf(),
        ensures
            final(self).wf(),
            final(self).view().dom() == old(self).view().dom(),
            forall|k: u16|
                #[trigger] old(self).view().contains_key(k) ==> final(self).view()[k] == (UserBufferView {
                    window_received: 0,
                    window_start_seq: None,
                    window_latest_seq: 0,
                    ..old(self).view()[k]
                }),
    {
        broadcast use vstd::std_specs::hash::group_hash_axioms;

        let ghost start = self.view();
        let ghost ids0 = self.ids@;
        let n = self.ids.len();
        let mut i: usize = 0;
        while i < n
            invariant
                0 <= i <= n,
                n == ids0.len(),
                self.ids@ == ids0,
                self.wf(),
                self.view().dom() == start.dom(),
                forall|k: u16|
                    #[trigger] start.contains_key(k) ==> self.view()[k] == if ids0.take(i as int).contains(
                        k,
                    ) {
                        UserBufferView {
                            window_received: 0,
                            window_start_seq: None,
                            window_latest_seq: 0,
                            ..start[k]
                        }
                    } else {
                        start[k]
                    },
            decreases n - i,
        {
            let id = self.ids[i];
            proof {
                lemma_push_contains(ids0.take(i as int), id);
            }
            assert(ids0.take(i as int + 1) =~= ids0.take(i as int).push(id));
            assert(!ids0.take(i as int).contains(id)) by {
                if ids0.take(i as int).contains(id) {
                    let j = choose|j: int| 0 <= j < i && #[trigger] ids0.take(i as int)[j] == id;
                    assert(ids0[j] == ids0[i as int]);
                }
            }
            assert(ids0.contains(id));
            let ghost before = self.view();
            match self.users.remove(&id) {
                Some(mut b) => {
                    b.reset_stats();
                    let ghost bv = b.view();
                    self.users.insert(id, b);
                    assert(self.view() =~= before.insert(id, bv));
                },
                None => {},
            }
            i = i + 1;
        }
        assert(ids0.take(n as int) =~= ids0);
    }
}


/// The buffer state after receiving, in order, one packet for each of the
/// `payloads`, numbered `first`, `first + 1`, ... (modulo 2^16).
pub open spec fn receive_run(v: UserBufferView, first: u16, payloads: Seq<Seq<u8>>) -> UserBufferView
    decreases payloads.len(),
{
    if payloads.len() == 0 {
        v
    } else {
        let k = payloads.len() - 1;
        inserted(receive_run(v, first, payloads.drop_last()), ((first + k) % 0x10000) as u16, payloads.last())
    }
}

proof fn lemma_inserted_step(v: UserBufferView, seq: u16, data: Seq<u8>)
    requires
        v.packets.dom().finite(),
    ensures
        ({
            let w = inserted(v, seq, data);
            &&& w.packets.dom().finite()
            &&& w.packets.len() >= 1
            &&& w.primed == v.primed
            &&& w.window_start_seq == match v.window_start_seq {
                None => Some(seq),
                Some(s) => Some(s),
            }
            &&& w.window_received == ((v.window_received + 1) % 0x1_0000_0000) as u32
            &&& (v.window_start_seq is Some && seq_ahead(seq, v.window_latest_seq) == 1)
                ==> w.window_latest_seq == seq
            &&& v.window_start_seq is None ==> w.window_latest_seq == seq
            &&& (!v.primed && v.packets.dom().is_empty()) ==> w.play_seq == seq
            &&& (v.primed || !v.packets.dom().is_empty()) ==> w.play_seq == v.play_seq
        }),
{
    let p1 = v.packets.insert(seq, data);
    assert(p1.contains_key(seq));
    assert(p1.len() >= 1) by {
        assert(p1.dom().contains(seq));
        vstd::set_lib::lemma_set_empty_equivalency_len(p1.dom());
    }
    if p1.len() > MAX_BUFFERED {
        let k = lowest_key(p1);
        assert(p1.remove(k).len() >= p1.len() - 1);
    }
}

proof fn lemma_receive_run(v: UserBufferView, first: u16, payloads: Seq<Seq<u8>>)
    requires
        v.window_start_seq is None,
        v.window_received == 0,
        v.packets.dom().finite(),
        1 <= payloads.len() < MAX_WINDOW,
    ensures
        ({
            let w = receive_run(v, first, payloads);
            &&& w.window_start_seq == Some(first)
            &&& w.window_latest_seq == ((first + payloads.len() - 1) % 0x10000) as u16
            &&& w.window_received == payloads.len()
            &&& w.primed == v.primed
            &&& w.packets.dom().finite()
            &&& w.packets.len() >= 1
            &&& (!v.primed && v.packets.dom().is_empty()) ==> w.play_seq == first
        }),
    decreases payloads.len(),
{
    let n = payloads.len();
    let rest = payloads.drop_last();
    if n == 1 {
        assert(rest.len() == 0);
        assert(receive_run(v, first, rest) == v);
        assert(((first + 0) % 0x10000) as u16 == first);
        lemma_inserted_step(v, first, payloads.last());
    } else {
        lemma_receive_run(v, first, rest);
        let w = receive_run(v, first, rest);
        let prev = ((first + n - 2) % 0x10000) as u16;
        let next = ((first + n - 1) % 0x10000) as u16;
        assert(seq_ahead(next, prev) == 1) by (nonlinear_arith)
            requires
                prev == (first + n - 2) % 0x10000,
                next == (first + n - 1) % 0x10000,
                n >= 2,
                seq_ahead(next, prev) == (next as int - prev as int + 0x10000) % 0x10000,
        ;
        lemma_inserted_step(w, next, payloads.last());
        assert(!w.packets.dom().is_empty()) by {
            vstd::set_lib::lemma_set_empty_equivalency_len(w.packets.dom());
        }
    }
}

/// A statistics window that received every packet of a run of consecutive
/// sequence numbers, each once and in order, reports no loss and as many
/// expected packets as the run holds; and a fresh buffer starts playback at
/// the first packet it received.
pub proof fn law_in_order_run(first: u16, payloads: Seq<Seq<u8>>)
    requires
        1 <= payloads.len() < MAX_WINDOW,
    ensures
        loss_of(receive_run(UserBuffer::new_view(), first, payloads)) == Some(
            LossWindow { lost: 0, expected: payloads.len() as u32 },
        ),
        receive_run(UserBuffer::new_view(), first, payloads).play_seq == first,
{
    let v = UserBuffer::new_view();
    assert(v.packets.dom().is_empty());
    lemma_receive_run(v, first, payloads);
    let w = receive_run(v, first, payloads);
    let n = payloads.len();
    assert(seq_ahead(w.window_latest_seq, first) == n - 1) by (nonlinear_arith)
        requires
            w.window_latest_seq == (first + n - 1) % 0x10000,
            1 <= n < 10000,
            seq_ahead(w.window_latest_seq, first) == (w.window_latest_seq as int - first as int
                + 0x10000) % 0x10000,
    ;
}

proof fn lemma_lowest_below(m: PacketMap, b: int)
    requires
        0 <= b <= 0xFFFF,
        exists|x: u16| #[trigger] m.contains_key(x) && x <= b,
    ensures
        exists|k: u16| #[trigger] m.contains_key(k) && (forall|j: u16| #[trigger] m.contains_key(j) ==> k <= j),
    decreases b,
{
    if exists|x: u16| #[trigger] m.contains_key(x) && x < b {
        lemma_lowest_below(m, b - 1);
    } else {
        let x = choose|x: u16| #[trigger] m.contains_key(x) && x <= b;
        assert(x == b);
        assert(forall|j: u16| #[trigger] m.contains_key(j) ==> x <= j);
    }
}

/// The lowest key of a non-empty map is in the map and no key is below it.
proof fn lemma_lowest_key(m: PacketMap)
    requires
        !m.dom().is_empty(),
    ensures
        m.contains_key(lowest_key(m)),
        forall|j: u16| #[trigger] m.contains_key(j) ==> lowest_key(m) <= j,
{
    let x = m.dom().choose();
    assert(m.contains_key(x));
    lemma_lowest_below(m, x as int);
}

/// A buffer never holds more than [`MAX_BUFFERED`] packets, and those it
/// holds are the highest sequence numbers it received: when a packet arrives
/// at a full buffer, the one with the lowest number is dropped, so every
/// number dropped is below every number kept. Each kept packet keeps its
/// payload, the arriving one the payload it came with.
pub proof fn law_buffer_keeps_highest(v: UserBufferView, seq: u16, data: Seq<u8>)
    requires
        v.packets.dom().finite(),
        v.packets.len() <= MAX_BUFFERED,
    ensures
        ({
            let received = v.packets.dom().insert(seq);
            let kept = inserted(v, seq, data).packets;
            &&& kept.dom().finite()
            &&& kept.len() == if received.len() <= MAX_BUFFERED {
                received.len()
            } else {
                MAX_BUFFERED as nat
            }
            &&& kept.dom().subset_of(received)
            &&& forall|j: u16, k: u16|
                #![trigger received.contains(j), kept.contains_key(k)]
                received.contains(j) && !kept.contains_key(j) && kept.contains_key(k) ==> j < k
            &&& kept.contains_key(seq) ==> kept[seq] == data
            &&& forall|k: u16| #[trigger] kept.contains_key(k) && k != seq ==> kept[k] == v.packets[k]
        }),
{
    let p1 = v.packets.insert(seq, data);
    let received = v.packets.dom().insert(seq);
    assert(p1.dom() =~= received);
    if p1.len() > MAX_BUFFERED {
        assert(p1.dom().contains(seq));
        lemma_lowest_key(p1);
        let l = lowest_key(p1);
        assert(p1.remove(l).dom() =~= p1.dom().remove(l));
        assert forall|j: u16, k: u16|
            received.contains(j) && !p1.remove(l).contains_key(j) && p1.remove(l).contains_key(k) implies j < k by {
            assert(j == l);
            assert(l <= k);
        }
    }
}

/// The statistics window only moves forward. Once it has started, a packet
/// that repeats its latest sequence number or lies up to half the sequence
/// space behind it leaves the latest number where it was (so a late packet
/// still counts as received while the gaps before the latest stay expected),
/// and a packet less than half the space ahead becomes the latest. The
/// window's first number never changes and each packet counts as received.
pub proof fn law_window_moves_forward(v: UserBufferView, seq: u16, data: Seq<u8>)
    requires
        v.window_start_seq is Some,
    ensures
        ({
            let w = inserted(v, seq, data);
            let latest = v.window_latest_seq;
            let behind = (latest as int - seq as int + 0x10000) % 0x10000;
            let ahead = (seq as int - latest as int + 0x10000) % 0x10000;
            &&& behind <= 0x8000 ==> w.window_latest_seq == latest
            &&& 0 < ahead < 0x8000 ==> w.window_latest_seq == seq
            &&& w.window_start_seq == v.window_start_seq
            &&& w.window_received == (v.window_received + 1) % 0x1_0000_0000
            &&& behind <= 0x8000 ==> match (loss_of(v), loss_of(w)) {
                (Some(a), Some(b)) => a.expected == b.expected,
                (None, None) => true,
                _ => false,
            }
        }),
{
    let latest = v.window_latest_seq;
    let behind = (latest as int - seq as int + 0x10000) % 0x10000;
    let ahead = (seq as int - latest as int + 0x10000) % 0x10000;
    assert(ahead == seq_ahead(seq, latest));
    assert(behind <= 0x8000 ==> ahead == 0 || ahead >= 0x8000);
}

} // verus!
