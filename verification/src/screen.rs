//! Screen sharing over UDP: an encoded frame is cut into fragments that each
//! fit a datagram, and the receiver puts the fragments of a frame back
//! together.
//!
//! Fragment datagram: `[0xFF][0xFE][room_id: u16][user_id: u16][frame_id: u32]
//! [fragment_idx: u16][fragment_count: u16][is_keyframe: u8][payload]`, every
//! number big-endian.
use vstd::prelude::*;
use std::collections::HashMap;
use vstd::string::StringExecFns;
use crate::bytes::{copy_range, extend_bytes};
use crate::protocol::{be_u32_bytes, be_u32_value, u32_be_bytes};
use crate::text::{decimal, push_decimal};
use crate::voice::{be_u16_bytes, be_u16_value, lemma_be_u16_round_trip};

verus! {

/// Bytes of the fragment header.
pub const HEADER_SIZE: usize = 15;

/// Largest fragment datagram, header included; small enough to avoid IP
/// fragmentation.
pub const FRAGMENT_SIZE: usize = 1200;

/// Payload bytes carried by one fragment.
pub const PAYLOAD_SIZE: usize = 1185;

/// The fields of a fragment header.
#[derive(Debug, Clone, Copy, PartialEq, Eq, Structural)]
pub struct FragmentHeader {
    pub room_id: u16,
    pub user_id: u16,
    pub frame_id: u32,
    pub fragment_idx: u16,
    pub fragment_count: u16,
    pub is_keyframe: bool,
}

/// The bytes of a fragment header.
pub open spec fn header_bytes(h: FragmentHeader) -> Seq<u8> {
    seq![0xFFu8, 0xFEu8] + be_u16_bytes(h.room_id) + be_u16_bytes(h.user_id) + be_u32_bytes(h.frame_id)
        + be_u16_bytes(h.fragment_idx) + be_u16_bytes(h.fragment_count) + seq![
        if h.is_keyframe {
            1u8
        } else {
            0u8
        },
    ]
}

/// The header a datagram starts with, if it is long enough and carries the
/// screen-share marker.
pub open spec fn header_of(p: Seq<u8>) -> Option<FragmentHeader> {
    if p.len() < HEADER_SIZE || p[0] != 0xFF || p[1] != 0xFE {
        None
    } else {
        Some(
            FragmentHeader {
                room_id: be_u16_value(p[2], p[3]),
                user_id: be_u16_value(p[4], p[5]),
                frame_id: be_u32_value(p[6], p[7], p[8], p[9]),
                fragment_idx: be_u16_value(p[10], p[11]),
                fragment_count: be_u16_value(p[12], p[13]),
                is_keyframe: p[14] != 0,
            },
        )
    }
}

/// Encodes a fragment header.
pub fn encode_header(h: FragmentHeader) -> (r: Vec<u8>)
    ensures
        r@ == header_bytes(h),
{
    let mut out: Vec<u8> = Vec::new();
    out.push(0xFF);
    out.push(0xFE);
    out.push((h.room_id >> 8u16) as u8);
    out.push(h.room_id as u8);
    out.push((h.user_id >> 8u16) as u8);
    out.push(h.user_id as u8);
    let f = u32_be_bytes(h.frame_id);
    out.push(f[0]);
    out.push(f[1]);
    out.push(f[2]);
    out.push(f[3]);
    out.push((h.fragment_idx >> 8u16) as u8);
    out.push(h.fragment_idx as u8);
    out.push((h.fragment_count >> 8u16) as u8);
    out.push(h.fragment_count as u8);
    out.push(if h.is_keyframe { 1 } else { 0 });
    assert(out@ =~= header_bytes(h));
    out
}

/// Decodes a fragment header, or `None` when the datagram is shorter than a
/// header or does not start with the screen-share marker.
pub fn decode_header(p: &[u8]) -> (r: Option<FragmentHeader>)
    ensures
        r == header_of(p@),
{
    if p.len() < HEADER_SIZE || p[0] != 0xFF || p[1] != 0xFE {
        return None;
    }
    Some(
        FragmentHeader {
            room_id: ((p[2] as u16) << 8u16) | (p[3] as u16),
            user_id: ((p[4] as u16) << 8u16) | (p[5] as u16),
            frame_id: ((p[6] as u32) << 24u32) | ((p[7] as u32) << 16u32) | ((p[8] as u32) << 8u32) | (
            p[9] as u32),
            fragment_idx: ((p[10] as u16) << 8u16) | (p[11] as u16),
            fragment_count: ((p[12] as u16) << 8u16) | (p[13] as u16),
            is_keyframe: p[14] != 0,
        },
    )
}

/// A header reads back as the fields it was written with.
pub proof fn law_screen_header_round_trip(h: FragmentHeader, payload: Seq<u8>)
    ensures
        header_of(header_bytes(h) + payload) == Some(h),
        (header_bytes(h) + payload).subrange(HEADER_SIZE as int, HEADER_SIZE + payload.len())
            =~= payload,
{
    lemma_be_u16_round_trip(h.room_id);
    lemma_be_u16_round_trip(h.user_id);
    lemma_be_u16_round_trip(h.fragment_idx);
    lemma_be_u16_round_trip(h.fragment_count);
    let x = h.frame_id;
    assert(((((x >> 24u32) as u8) as u32) << 24u32) | ((((x >> 16u32) as u8) as u32) << 16u32) | ((((
    x >> 8u32) as u8) as u32) << 8u32) | ((x as u8) as u32) == x) by (bit_vector);
    let p = header_bytes(h) + payload;
    assert(p[14] == (if h.is_keyframe { 1u8 } else { 0u8 }));
    assert(header_of(p).unwrap() == h);
}

/// Fragments needed for a frame of `len` bytes.
pub open spec fn fragment_total(len: nat) -> nat {
    ((len + PAYLOAD_SIZE - 1) / (PAYLOAD_SIZE as int)) as nat
}

/// The part of `data` that fragment `i` carries.
pub open spec fn chunk(data: Seq<u8>, i: int) -> Seq<u8> {
    let end = if (i + 1) * PAYLOAD_SIZE <= data.len() {
        (i + 1) * PAYLOAD_SIZE
    } else {
        data.len() as int
    };
    data.subrange(i * PAYLOAD_SIZE, end)
}

/// The datagram of fragment `i` of a frame.
pub open spec fn fragment_packet(
    room_id: u16,
    user_id: u16,
    frame_id: u32,
    data: Seq<u8>,
    is_keyframe: bool,
    i: int,
) -> Seq<u8> {
    header_bytes(
        FragmentHeader {
            room_id,
            user_id,
            frame_id,
            fragment_idx: i as u16,
            fragment_count: fragment_total(data.len()) as u16,
            is_keyframe,
        },
    ) + chunk(data, i)
}

/// A frame whose fragments would not fit the 16-bit fragment count.
#[derive(Debug, Clone, Copy, PartialEq, Eq, Structural)]
pub struct FrameTooLarge {
    pub len: usize,
    pub fragments: usize,
}

/// The text of the error.
pub open spec fn too_large_text(e: FrameTooLarge) -> Seq<char> {
    "Frame too large: "@ + decimal(e.len as nat) + " bytes, "@ + decimal(e.fragments as nat)
        + " fragments"@
}

impl FrameTooLarge {
    /// The human-readable text of the error.
    pub fn message(&self) -> (r: String)
        ensures
            r@ == too_large_text(*self),
    {
        let mut s = String::from_str("Frame too large: ");
        push_decimal(&mut s, self.len as u64);
        s.append(" bytes, ");
        push_decimal(&mut s, self.fragments as u64);
        s.append(" fragments");
        s
    }
}

proof fn lemma_fragment_total(len: nat)
    ensures
        fragment_total(len) * PAYLOAD_SIZE >= len,
        fragment_total(len) > 0 ==> (fragment_total(len) - 1) * PAYLOAD_SIZE < len,
        len > 0 ==> fragment_total(len) > 0,
{
    let t = fragment_total(len);
    let p = PAYLOAD_SIZE as int;
    assert(t * p >= len && (t > 0 ==> (t - 1) * p < len) && (len > 0 ==> t > 0)) by (nonlinear_arith)
        requires
            p == 1185,
            t == (len + p - 1) / p,
    ;
}

/// Cuts an encoded frame into fragment datagrams, in fragment order. Fails
/// when the frame needs more fragments than a 16-bit count can hold.
pub fn fragment_frame(room_id: u16, user_id: u16, frame_id: u32, data: &[u8], is_keyframe: bool) -> (r:
    Result<Vec<Vec<u8>>, FrameTooLarge>)
    ensures
        fragment_total(data@.len()) > 0xFFFF ==> r == Err::<Vec<Vec<u8>>, FrameTooLarge>(
            FrameTooLarge { len: data@.len() as usize, fragments: fragment_total(data@.len()) as usize },
        ),
        fragment_total(data@.len()) <= 0xFFFF ==> (r matches Ok(v) && v@.len() == fragment_total(
            data@.len(),
        ) && forall|i: int|
            0 <= i < v@.len() ==> #[trigger] v@[i]@ == fragment_packet(
                room_id,
                user_id,
                frame_id,
                data@,
                is_keyframe,
                i,
            )),
{
    let len = data.len();
    let total = len / PAYLOAD_SIZE + if len % PAYLOAD_SIZE != 0 {
        1
    } else {
        0
    };
    assert(total == fragment_total(len as nat)) by (nonlinear_arith)
        requires
            total == len / 1185 + if len % 1185 != 0 {
                1int
            } else {
                0int
            },
    ;
    if total > 0xFFFF {
        return Err(FrameTooLarge { len, fragments: total });
    }
    proof {
        lemma_fragment_total(len as nat);
    }
    let mut out: Vec<Vec<u8>> = Vec::new();
    let mut i: usize = 0;
    while i < total
        invariant
            0 <= i <= total,
            total == fragment_total(data@.len()),
            total <= 0xFFFF,
            len == data@.len(),
            total * PAYLOAD_SIZE >= len,
            total > 0 ==> (total - 1) * PAYLOAD_SIZE < len,
            out@.len() == i,
            forall|j: int|
                0 <= j < i ==> #[trigger] out@[j]@ == fragment_packet(
                    room_id,
                    user_id,
                    frame_id,
                    data@,
                    is_keyframe,
                    j,
                ),
        decreases total - i,
    {
        let start = i * PAYLOAD_SIZE;
        let end = if len - start >= PAYLOAD_SIZE {
            start + PAYLOAD_SIZE
        } else {
            len
        };
        let h = FragmentHeader {
            room_id,
            user_id,
            frame_id,
            fragment_idx: i as u16,
            fragment_count: total as u16,
            is_keyframe,
        };
        let mut packet = encode_header(h);
        let part = copy_range(data, start, end);
        extend_bytes(&mut packet, part.as_slice());
        assert(packet@ == fragment_packet(room_id, user_id, frame_id, data@, is_keyframe, i as int));
        out.push(packet);
        i = i + 1;
    }
    Ok(out)
}


/// Fragments received so far for one frame, by fragment index.
pub type FragmentMap = Map<u16, Seq<u8>>;

/// The payloads of fragments `0..n`, joined in index order.
pub open spec fn joined(m: FragmentMap, n: nat) -> Seq<u8>
    decreases n,
{
    if n == 0 {
        seq![]
    } else {
        joined(m, (n - 1) as nat) + m[(n - 1) as u16]
    }
}

/// Whether fragments `0..n` have all arrived.
pub open spec fn has_all(m: FragmentMap, n: nat) -> bool {
    forall|i: int| 0 <= i < n ==> #[trigger] m.contains_key(i as u16)
}

/// What assembling a frame gives: the joined payloads when exactly as many
/// fragments arrived as the frame announced and every index below that count
/// is among them; else nothing.
pub open spec fn assembled(m: FragmentMap, expected: u16) -> Option<Seq<u8>> {
    if m.len() == expected && has_all(m, expected as nat) {
        Some(joined(m, expected as nat))
    } else {
        None
    }
}

/// The fragment indices `0..n`.
pub open spec fn index_set(n: nat) -> Set<u16> {
    Set::new(|i: u16| (i as nat) < n)
}

/// A frame assembles exactly when the indices that arrived are `0` to one
/// less than the announced count, no more and no fewer.
pub proof fn lemma_assembled_exactly(m: FragmentMap, expected: u16)
    requires
        m.dom().finite(),
    ensures
        assembled(m, expected) is Some <==> m.dom() == index_set(expected as nat),
{
    lemma_index_set_len(expected as nat);
    if m.dom() =~= index_set(expected as nat) {
        assert(has_all(m, expected as nat)) by {
            assert forall|i: int| 0 <= i < expected implies #[trigger] m.contains_key(i as u16) by {
                assert(((i as u16) as nat) < expected);
            }
        }
    }
    if assembled(m, expected) is Some {
        assert(index_set(expected as nat).subset_of(m.dom())) by {
            assert forall|i: u16| index_set(expected as nat).contains(i) implies m.dom().contains(i) by {
                assert(m.contains_key((i as int) as u16));
            }
        }
        vstd::set_lib::lemma_subset_equality(index_set(expected as nat), m.dom());
    }
}

/// How long an incomplete frame is kept, in milliseconds.
pub const FRAME_TIMEOUT_MS: u64 = 100;

/// The abstract state of one frame being assembled.
pub struct AssemblyView {
    pub frame_id: u32,
    pub is_keyframe: bool,
    pub expected_fragments: u16,
    pub fragments: FragmentMap,
    pub first_fragment_ms: u64,
}

/// A frame being assembled from its fragments.
pub struct FrameAssembly {
    frame_id: u32,
    is_keyframe: bool,
    expected_fragments: u16,
    fragments: HashMap<u16, Vec<u8>>,
    first_fragment_ms: u64,
}

/// The payload map of a fragment table.
pub open spec fn payloads(m: Map<u16, Vec<u8>>) -> FragmentMap {
    m.map_values(|v: Vec<u8>| v@)
}

impl FrameAssembly {
    /// The abstract state of the assembly.
    pub closed spec fn view(&self) -> AssemblyView {
        AssemblyView {
            frame_id: self.frame_id,
            is_keyframe: self.is_keyframe,
            expected_fragments: self.expected_fragments,
            fragments: payloads(self.fragments@),
            first_fragment_ms: self.first_fragment_ms,
        }
    }

    /// A fresh assembly, started at `now_ms` with no fragment yet.
    pub fn new(frame_id: u32, is_keyframe: bool, expected_fragments: u16, now_ms: u64) -> (r: Self)
        ensures
            r.view() == (AssemblyView {
                frame_id,
                is_keyframe,
                expected_fragments,
                fragments: Map::empty(),
                first_fragment_ms: now_ms,
            }),
    {
        let r = FrameAssembly {
            frame_id,
            is_keyframe,
            expected_fragments,
            fragments: HashMap::new(),
            first_fragment_ms: now_ms,
        };
        assert(payloads(r.fragments@) =~= Map::empty());
        r
    }

    /// Stores fragment `fragment_idx`, replacing one with the same index: the
    /// count of fragments grows by one exactly when the index is new.
    pub fn add_fragment(&mut self, fragment_idx: u16, data: Vec<u8>)
        ensures
            final(self).view() == (AssemblyView {
                fragments: old(self).view().fragments.insert(fragment_idx, data@),
                ..old(self).view()
            }),
            final(self).view().fragments.dom().finite(),
            final(self).view().fragments.len() == old(self).view().fragments.len() + if old(
                self,
            ).view().fragments.contains_key(fragment_idx) {
                0int
            } else {
                1int
            },
    {
        broadcast use vstd::std_specs::hash::group_hash_axioms;

        let ghost d = data@;
        assert(payloads(self.fragments@).dom() =~= self.fragments@.dom());
        self.fragments.insert(fragment_idx, data);
        assert(payloads(self.fragments@) =~= payloads(old(self).fragments@).insert(fragment_idx, d));
        assert(payloads(self.fragments@).dom() =~= self.fragments@.dom());
    }

    /// Whether as many fragments arrived as the frame announced.
    pub fn is_complete(&self) -> (r: bool)
        ensures
            r == (self.view().fragments.len() == self.view().expected_fragments),
            self.view().fragments.dom().finite(),
    {
        broadcast use vstd::std_specs::hash::group_hash_axioms;

        assert(payloads(self.fragments@).dom() =~= self.fragments@.dom());
        self.fragments.len() == self.expected_fragments as usize
    }

    /// Whether the assembly started more than `timeout_ms` before `now_ms`.
    pub fn is_expired(&self, now_ms: u64, timeout_ms: u64) -> (r: bool)
        ensures
            r == (now_ms > self.view().first_fragment_ms + timeout_ms),
    {
        now_ms > self.first_fragment_ms && now_ms - self.first_fragment_ms > timeout_ms
    }

    /// The frame's bytes when it can be put together (see [`assembled`]):
    /// exactly when the fragments that arrived are those numbered below the
    /// announced count.
    pub fn assemble(&self) -> (r: Option<Vec<u8>>)
        ensures
            match assembled(self.view().fragments, self.view().expected_fragments) {
                Some(d) => r matches Some(v) && v@ == d,
                None => r is None,
            },
            r is Some <==> self.view().fragments.dom() == index_set(self.view().expected_fragments as nat),
    {
        broadcast use vstd::std_specs::hash::group_hash_axioms;

        proof {
            assert(payloads(self.fragments@).dom() =~= self.fragments@.dom());
            lemma_assembled_exactly(self.view().fragments, self.view().expected_fragments);
        }

        let ghost m = self.view().fragments;
        if !self.is_complete() {
            return None;
        }
        let mut out: Vec<u8> = Vec::new();
        let mut i: u16 = 0;
        while i < self.expected_fragments
            invariant
                m == self.view().fragments,
                m == payloads(self.fragments@),
                0 <= i <= self.expected_fragments,
                has_all(m, i as nat),
                out@ == joined(m, i as nat),
            decreases self.expected_fragments - i,
        {
            match self.fragments.get(&i) {
                Some(f) => {
                    extend_bytes(&mut out, f.as_slice());
                    assert(m[i] == f@);
                },
                None => {
                    assert(!m.contains_key(i));
                    assert(!has_all(m, self.expected_fragments as nat)) by {
                        assert(!m.contains_key((i as int) as u16));
                    }
                    return None;
                },
            }
            i = i + 1;
            assert(joined(m, i as nat) == joined(m, (i - 1) as nat) + m[(i - 1) as u16]);
            assert(has_all(m, i as nat)) by {
                assert forall|k: int| 0 <= k < i implies #[trigger] m.contains_key(k as u16) by {
                    if k < i - 1 {
                        assert(m.contains_key(k as u16));
                    }
                }
            }
        }
        Some(out)
    }
}


/// Whether an assembly started more than the timeout before `now_ms`.
pub open spec fn expired(a: AssemblyView, now_ms: u64) -> bool {
    now_ms > a.first_fragment_ms + FRAME_TIMEOUT_MS
}

/// The assembly a fragment with header `h` lands in: the frame's current one,
/// or a fresh one started now with the header's keyframe flag and count.
pub open spec fn target_assembly(frames: Map<u32, AssemblyView>, h: FragmentHeader, now_ms: u64) -> AssemblyView {
    if frames.contains_key(h.frame_id) {
        frames[h.frame_id]
    } else {
        AssemblyView {
            frame_id: h.frame_id,
            is_keyframe: h.is_keyframe,
            expected_fragments: h.fragment_count,
            fragments: Map::empty(),
            first_fragment_ms: now_ms,
        }
    }
}

/// A frame whose fragments have all arrived.
pub struct CompleteFrame {
    pub user_id: u16,
    pub frame_id: u32,
    pub data: Vec<u8>,
    pub is_keyframe: bool,
}

/// A datagram that does not carry a screen-share header.
#[derive(Debug, Clone, Copy, PartialEq, Eq, Structural)]
pub struct InvalidHeader;

/// Puts screen-share frames back together from their fragment datagrams.
pub struct Reassembler {
    frames: HashMap<u32, FrameAssembly>,
    ids: Vec<u32>,
}

impl Reassembler {
    /// The frames being assembled, by frame id.
    pub closed spec fn view(&self) -> Map<u32, AssemblyView> {
        self.frames@.map_values(|a: FrameAssembly| a.view())
    }

    /// Every stored frame is filed under its own id, none can be put together
    /// yet, and the id list names each stored frame once.
    pub closed spec fn wf(&self) -> bool {
        &&& self.ids@.no_duplicates()
        &&& forall|k: u32| #[trigger] self.frames@.contains_key(k) <==> self.ids@.contains(k)
        &&& forall|k: u32|
            #[trigger] self.frames@.contains_key(k) ==> self.frames@[k].view().frame_id == k
                && assembled(
                self.frames@[k].view().fragments,
                self.frames@[k].view().expected_fragments,
            ) is None
    }

    /// No frame in progress.
    pub fn new() -> (r: Self)
        ensures
            r.wf(),
            r.view() == Map::<u32, AssemblyView>::empty(),
    {
        let r = Reassembler { frames: HashMap::new(), ids: Vec::new() };
        assert(r.view() =~= Map::<u32, AssemblyView>::empty());
        r
    }

    /// Takes one fragment datagram received at `now_ms`: files its payload
    /// under its frame, hands the frame out when it is complete and can be put
    /// together, then drops every frame that started more than
    /// [`FRAME_TIMEOUT_MS`] before `now_ms`.
    pub fn accept(&mut self, packet: &[u8], now_ms: u64) -> (r: Result<Option<CompleteFrame>, InvalidHeader>)
        requires
            old(self).wf(),
        ensures
            final(self).wf(),
            match header_of(packet@) {
                None => r == Err::<Option<CompleteFrame>, InvalidHeader>(InvalidHeader) && final(self).view()
                    == old(self).view(),
                Some(h) => {
                    let payload = packet@.subrange(HEADER_SIZE as int, packet@.len() as int);
                    let a0 = target_assembly(old(self).view(), h, now_ms);
                    let a = AssemblyView { fragments: a0.fragments.insert(h.fragment_idx, payload), ..a0 };
                    let done = assembled(a.fragments, a.expected_fragments);
                    let mid = if done is Some {
                        old(self).view().remove(h.frame_id)
                    } else {
                        old(self).view().insert(h.frame_id, a)
                    };
                    &&& final(self).view() == Map::new(
                        |k: u32| mid.contains_key(k) && !expired(mid[k], now_ms),
                        |k: u32| mid[k],
                    )
                    &&& match done {
                        Some(d) => r matches Ok(Some(f)) && f.user_id == h.user_id && f.frame_id
                            == h.frame_id && f.data@ == d && f.is_keyframe == a.is_keyframe,
                        None => r matches Ok(None),
                    }
                },
            },
    {
        broadcast use vstd::std_specs::hash::group_hash_axioms;

        let h = match decode_header(packet) {
            Some(h) => h,
            None => return Err(InvalidHeader),
        };
        let payload = copy_range(packet, HEADER_SIZE, packet.len());
        let ghost old_view = self.view();
        let ghost old_frames = self.frames@;
        let fid = h.frame_id;
        let mut assembly = match self.frames.remove(&fid) {
            Some(a) => a,
            None => {
                proof {
                    lemma_push_contains(self.ids@, fid);
                }
                self.ids.push(fid);
                FrameAssembly::new(fid, h.is_keyframe, h.fragment_count, now_ms)
            },
        };
        assert(self.frames@ == old_frames.remove(fid));
        assert(assembly.view() == target_assembly(old_view, h, now_ms));
        assert(self.ids@.contains(fid));
        assert(self.ids@.no_duplicates());
        assert(forall|k: u32| #[trigger] self.frames@.contains_key(k) <==> (self.ids@.contains(k) && k != fid));
        assembly.add_fragment(h.fragment_idx, payload);
        let done = match assembly.assemble() {
            Some(data) => {
                let pos = self.position_of(fid);
                proof {
                    lemma_remove_contains(self.ids@, pos as int);
                }
                self.ids.remove(pos);
                assert(self.view() =~= old_view.remove(fid));
                Some(CompleteFrame { user_id: h.user_id, frame_id: fid, data, is_keyframe: assembly.is_keyframe })
            },
            None => {
                let ghost av = assembly.view();
                self.frames.insert(fid, assembly);
                assert(self.view() =~= old_view.insert(fid, av));
                None
            },
        };
        assert(self.wf());
        self.drop_expired(now_ms);
        Ok(done)
    }
}


proof fn lemma_push_contains<T>(s: Seq<T>, x: T)
    ensures
        forall|k: T| #[trigger] s.push(x).contains(k) <==> (s.contains(k) || k == x),
        s.no_duplicates() && !s.contains(x) ==> s.push(x).no_duplicates(),
{
    assert forall|k: T| #[trigger] s.push(x).contains(k) <==> (s.contains(k) || k == x) by {
        if s.push(x).contains(k) && k != x {
            let j = choose|j: int| 0 <= j < s.len() + 1 && #[trigger] s.push(x)[j] == k;
            assert(s[j] == k);
        }
        if k == x {
            assert(s.push(x)[s.len() as int] == x);
        }
        if s.contains(k) {
            let j = choose|j: int| 0 <= j < s.len() && #[trigger] s[j] == k;
            assert(s.push(x)[j] == k);
        }
    }
    if s.no_duplicates() && !s.contains(x) {
        assert forall|i: int, j: int| 0 <= i < j < s.len() + 1 implies s.push(x)[i] != s.push(x)[j] by {
            if j == s.len() {
                assert(s[i] == s.push(x)[i]);
            }
        }
    }
}

proof fn lemma_remove_contains<T>(s: Seq<T>, i: int)
    requires
        0 <= i < s.len(),
        s.no_duplicates(),
    ensures
        s.remove(i).no_duplicates(),
        forall|k: T| #[trigger] s.remove(i).contains(k) <==> (s.contains(k) && k != s[i]),
{
    let r = s.remove(i);
    assert forall|a: int, b: int| 0 <= a < b < r.len() implies r[a] != r[b] by {
        let sa = if a < i { a } else { a + 1 };
        let sb = if b < i { b } else { b + 1 };
        assert(r[a] == s[sa] && r[b] == s[sb]);
    }
    assert forall|k: T| #[trigger] r.contains(k) <==> (s.contains(k) && k != s[i]) by {
        if r.contains(k) {
            let j = choose|j: int| 0 <= j < r.len() && #[trigger] r[j] == k;
            let sj = if j < i { j } else { j + 1 };
            assert(s[sj] == k);
        }
        if s.contains(k) && k != s[i] {
            let j = choose|j: int| 0 <= j < s.len() && #[trigger] s[j] == k;
            if j < i {
                assert(r[j] == k);
            } else {
                assert(r[j - 1] == k);
            }
        }
    }
}

impl Reassembler {
    /// Where `fid` stands in the id list.
    fn position_of(&self, fid: u32) -> (r: usize)
        requires
            self.ids@.contains(fid),
        ensures
            r < self.ids@.len(),
            self.ids@[r as int] == fid,
    {
        let mut i: usize = 0;
        while i < self.ids.len()
            invariant
                0 <= i <= self.ids@.len(),
                self.ids@.contains(fid),
                forall|j: int| 0 <= j < i ==> self.ids@[j] != fid,
            decreases self.ids@.len() - i,
        {
            if self.ids[i] == fid {
                return i;
            }
            i = i + 1;
        }
        proof {
            let j = choose|j: int| 0 <= j < self.ids@.len() && self.ids@[j] == fid;
            assert(self.ids@[j] == fid);
        }
        0
    }

    /// Drops every frame that started more than the timeout before `now_ms`.
    fn drop_expired(&mut self, now_ms: u64)
        requires
            old(self).wf(),
        ensures
            final(self).wf(),
            final(self).view() == Map::new(
                |k: u32| old(self).view().contains_key(k) && !expired(old(self).view()[k], now_ms),
                |k: u32| old(self).view()[k],
            ),
    {
        broadcast use vstd::std_specs::hash::group_hash_axioms;

        let ghost start = self.view();
        let ghost frames0 = self.frames@;
        let ghost ids0 = self.ids@;
        let mut kept: Vec<u32> = Vec::new();
        let n = self.ids.len();
        let mut i: usize = 0;
        while i < n
            invariant
                0 <= i <= n,
                n == ids0.len(),
                self.ids@ == ids0,
                ids0.no_duplicates(),
                forall|k: u32| #[trigger] frames0.contains_key(k) <==> ids0.contains(k),
                start == frames0.map_values(|a: FrameAssembly| a.view()),
                forall|k: u32|
                    #[trigger] self.frames@.contains_key(k) <==> (frames0.contains_key(k) && !(
                    ids0.take(i as int).contains(k) && expired(start[k], now_ms))),
                forall|k: u32| #[trigger] self.frames@.contains_key(k) ==> self.frames@[k] == frames0[k],
                kept@.no_duplicates(),
                forall|k: u32|
                    #[trigger] kept@.contains(k) <==> (ids0.take(i as int).contains(k) && !expired(
                        start[k],
                        now_ms,
                    )),
            decreases n - i,
        {
            let id = self.ids[i];
            assert(ids0.take(i as int + 1) =~= ids0.take(i as int).push(id));
            assert forall|k: u32|
                ids0.take(i as int + 1).contains(k) <==> (ids0.take(i as int).contains(k) || k == id) by {
                if ids0.take(i as int + 1).contains(k) && k != id {
                    let j = choose|j: int| 0 <= j < i + 1 && #[trigger] ids0.take(i as int + 1)[j] == k;
                    assert(ids0.take(i as int)[j] == k);
                }
                if k == id {
                    assert(ids0.take(i as int + 1)[i as int] == id);
                }
                if ids0.take(i as int).contains(k) {
                    let j = choose|j: int| 0 <= j < i && #[trigger] ids0.take(i as int)[j] == k;
                    assert(ids0.take(i as int + 1)[j] == k);
                }
            }
            assert(!ids0.take(i as int).contains(id)) by {
                if ids0.take(i as int).contains(id) {
                    let j = choose|j: int| 0 <= j < i && #[trigger] ids0.take(i as int)[j] == id;
                    assert(ids0[j] == ids0[i as int]);
                }
            }
            assert(ids0.contains(id));
            assert(frames0.contains_key(id));
            let exp = match self.frames.get(&id) {
                Some(a) => a.is_expired(now_ms, FRAME_TIMEOUT_MS),
                None => false,
            };
            assert(exp == expired(start[id], now_ms));
            if exp {
                self.frames.remove(&id);
            } else {
                proof {
                    lemma_push_contains(kept@, id);
                }
                kept.push(id);
            }
            i = i + 1;
        }
        assert(ids0.take(n as int) =~= ids0);
        self.ids = kept;
        assert(self.view() =~= Map::new(
            |k: u32| start.contains_key(k) && !expired(start[k], now_ms),
            |k: u32| start[k],
        ));
    }
}


proof fn lemma_index_set_len(n: nat)
    requires
        n <= 0x10000,
    ensures
        Set::new(|i: u16| (i as nat) < n).finite(),
        Set::new(|i: u16| (i as nat) < n).len() == n,
    decreases n,
{
    if n == 0 {
        assert(Set::new(|i: u16| (i as nat) < n) =~= Set::<u16>::empty());
    } else {
        lemma_index_set_len((n - 1) as nat);
        assert(Set::new(|i: u16| (i as nat) < n) =~= Set::new(|i: u16| (i as nat) < (n - 1) as nat).insert(
            (n - 1) as u16,
        ));
    }
}

proof fn lemma_joined_prefix(data: Seq<u8>, m: FragmentMap, k: nat)
    requires
        k <= fragment_total(data.len()),
        fragment_total(data.len()) <= 0x10000,
        forall|i: int|
            0 <= i < fragment_total(data.len()) ==> #[trigger] m[i as u16] == chunk(data, i),
    ensures
        joined(m, k) == data.subrange(
            0,
            if k * PAYLOAD_SIZE <= data.len() {
                k * PAYLOAD_SIZE
            } else {
                data.len() as int
            },
        ),
    decreases k,
{
    if k == 0 {
        assert(data.subrange(0, 0) =~= Seq::<u8>::empty());
    } else {
        lemma_joined_prefix(data, m, (k - 1) as nat);
        let i = (k - 1) as int;
        assert(m[i as u16] == chunk(data, i));
        lemma_fragment_total(data.len());
        assert((k - 1) * PAYLOAD_SIZE <= data.len()) by (nonlinear_arith)
            requires
                k <= fragment_total(data.len()),
                k >= 1,
                fragment_total(data.len()) > 0 ==> (fragment_total(data.len()) - 1) * PAYLOAD_SIZE
                    < data.len(),
        ;
        assert((k - 1) * PAYLOAD_SIZE + PAYLOAD_SIZE == k * PAYLOAD_SIZE) by (nonlinear_arith);
        let end = if k * PAYLOAD_SIZE <= data.len() {
            k * PAYLOAD_SIZE
        } else {
            data.len() as int
        };
        assert(joined(m, k) =~= data.subrange(0, end));
    }
}

proof fn lemma_fragments_assemble(data: Seq<u8>, m: FragmentMap)
    requires
        data.len() > 0,
        fragment_total(data.len()) <= 0xFFFF,
        forall|i: u16| #[trigger] m.contains_key(i) <==> (i as nat) < fragment_total(data.len()),
        forall|i: u16|
            (i as nat) < fragment_total(data.len()) ==> #[trigger] m[i] == chunk(data, i as int),
    ensures
        assembled(m, fragment_total(data.len()) as u16) == Some(data),
{
    let total = fragment_total(data.len());
    lemma_fragment_total(data.len());
    lemma_index_set_len(total);
    assert(m.dom() =~= Set::new(|i: u16| (i as nat) < total));
    assert forall|i: int| 0 <= i < total implies #[trigger] m[i as u16] == chunk(data, i) by {
        assert(((i as u16) as nat) < total);
    }
    lemma_joined_prefix(data, m, total);
    assert(data.subrange(0, data.len() as int) =~= data);
    assert(has_all(m, total)) by {
        assert forall|i: int| 0 <= i < total implies #[trigger] m.contains_key(i as u16) by {
            assert(((i as u16) as nat) < total);
        }
    }
}

proof fn lemma_fragment_header(
    room_id: u16,
    user_id: u16,
    frame_id: u32,
    data: Seq<u8>,
    is_keyframe: bool,
    i: int,
)
    ensures
        ({
            let p = fragment_packet(room_id, user_id, frame_id, data, is_keyframe, i);
            &&& header_of(p) == Some(
                FragmentHeader {
                    room_id,
                    user_id,
                    frame_id,
                    fragment_idx: i as u16,
                    fragment_count: fragment_total(data.len()) as u16,
                    is_keyframe,
                },
            )
            &&& p.subrange(HEADER_SIZE as int, p.len() as int) == chunk(data, i)
        }),
{
    let h = FragmentHeader {
        room_id,
        user_id,
        frame_id,
        fragment_idx: i as u16,
        fragment_count: fragment_total(data.len()) as u16,
        is_keyframe,
    };
    law_screen_header_round_trip(h, chunk(data, i));
}

/// Once every fragment datagram of a frame has been filed, in any order and
/// whatever was repeated, the frame assembles to exactly the bytes that were
/// cut up; and each datagram's header names its own index and the frame's
/// fragment count, and carries its own part of the bytes.
pub proof fn law_fragments_reassemble(
    room_id: u16,
    user_id: u16,
    frame_id: u32,
    data: Seq<u8>,
    is_keyframe: bool,
    m: FragmentMap,
)
    requires
        data.len() > 0,
        fragment_total(data.len()) <= 0xFFFF,
        forall|i: u16| #[trigger] m.contains_key(i) <==> (i as nat) < fragment_total(data.len()),
        forall|i: u16|
            (i as nat) < fragment_total(data.len()) ==> #[trigger] m[i] == chunk(data, i as int),
    ensures
        assembled(m, fragment_total(data.len()) as u16) == Some(data),
        forall|i: int|
            0 <= i < fragment_total(data.len()) ==> {
                let p = #[trigger] fragment_packet(room_id, user_id, frame_id, data, is_keyframe, i);
                &&& header_of(p) == Some(
                    FragmentHeader {
                        room_id,
                        user_id,
                        frame_id,
                        fragment_idx: i as u16,
                        fragment_count: fragment_total(data.len()) as u16,
                        is_keyframe,
                    },
                )
                &&& p.subrange(HEADER_SIZE as int, p.len() as int) == chunk(data, i)
            },
{
    lemma_fragments_assemble(data, m);
    assert forall|i: int| 0 <= i < fragment_total(data.len()) implies {
        let p = #[trigger] fragment_packet(room_id, user_id, frame_id, data, is_keyframe, i);
        &&& header_of(p) == Some(
            FragmentHeader {
                room_id,
                user_id,
                frame_id,
                fragment_idx: i as u16,
                fragment_count: fragment_total(data.len()) as u16,
                is_keyframe,
            },
        )
        &&& p.subrange(HEADER_SIZE as int, p.len() as int) == chunk(data, i)
    } by {
        lemma_fragment_header(room_id, user_id, frame_id, data, is_keyframe, i);
    }
}


/// The H.264 decoder of the `openh264` crate.
#[verifier::external_type_specification]
#[verifier::external_body]
pub struct ExDecoder(openh264::decoder::Decoder);

/// What one call of the H.264 decoder gave.
#[derive(Debug, Clone, Copy, PartialEq, Eq, Structural)]
pub enum DecodeOutcome {
    /// A picture came out.
    Picture,
    /// The data was taken in but no picture is ready yet.
    NoPicture,
    /// The bitstream was refused.
    Failed,
}

/// Creates an `openh264` decoder with its default configuration
/// (`openh264::decoder::Decoder::new`); the crate documents that this should
/// never fail, but it may report an error from the native library.
#[verifier::external_body]
fn new_h264_decoder() -> (r: Option<openh264::decoder::Decoder>) {
    openh264::decoder::Decoder::new().ok()
}

/// Feeds `data` to the decoder (`openh264::decoder::Decoder::decode`) and
/// tells whether a picture came out. The answer depends on what the decoder
/// was fed before, so nothing is promised about it.
#[verifier::external_body]
fn decode_h264(decoder: &mut openh264::decoder::Decoder, data: &[u8]) -> (r: DecodeOutcome) {
    match decoder.decode(data) {
        Ok(Some(_)) => DecodeOutcome::Picture,
        Ok(None) => DecodeOutcome::NoPicture,
        Err(_) => DecodeOutcome::Failed,
    }
}

/// Width of the picture handed to the viewer.
pub const PREVIEW_WIDTH: usize = 1280;

/// Height of the picture handed to the viewer.
pub const PREVIEW_HEIGHT: usize = 720;

/// The RGBA picture shown for a decoded frame: uniform mid grey.
pub open spec fn grey_picture() -> Seq<u8> {
    Seq::new((PREVIEW_WIDTH * PREVIEW_HEIGHT * 4) as nat, |i: int| 128u8)
}

/// What the viewer receives for a decoded frame of `user_id`: a grey RGBA
/// picture when the decoder produced one, nothing otherwise.
pub fn frame_output(user_id: u16, outcome: DecodeOutcome) -> (r: Option<(u16, Vec<u8>)>)
    ensures
        outcome == DecodeOutcome::Picture ==> (r matches Some((u, px)) && u == user_id && px@
            == grey_picture()),
        outcome != DecodeOutcome::Picture ==> r is None,
{
    match outcome {
        DecodeOutcome::Picture => {
            let n = PREVIEW_WIDTH * PREVIEW_HEIGHT * 4;
            let mut px: Vec<u8> = Vec::with_capacity(n);
            let mut i: usize = 0;
            while i < n
                invariant
                    0 <= i <= n,
                    n == PREVIEW_WIDTH * PREVIEW_HEIGHT * 4,
                    px@ == Seq::new(i as nat, |j: int| 128u8),
                decreases n - i,
            {
                px.push(128u8);
                i = i + 1;
                assert(px@ =~= Seq::new(i as nat, |j: int| 128u8));
            }
            Some((user_id, px))
        },
        _ => None,
    }
}

/// Why the screen decoder could not be used or a datagram was refused.
#[derive(Debug, Clone, Copy, PartialEq, Eq, Structural)]
pub enum ScreenError {
    /// The H.264 decoder could not be created.
    DecoderUnavailable,
    /// The datagram does not start with a screen-share header.
    InvalidHeader,
}

/// Reassembles screen-share frames and decodes them.
pub struct ScreenDecoder {
    decoder: openh264::decoder::Decoder,
    frames: Reassembler,
    fed: Ghost<Seq<Seq<u8>>>,
}

impl ScreenDecoder {
    /// The frames being assembled.
    pub closed spec fn view(&self) -> Map<u32, AssemblyView> {
        self.frames.view()
    }

    /// The encoded frames handed to the H.264 decoder so far, in order.
    pub closed spec fn fed(&self) -> Seq<Seq<u8>> {
        self.fed@
    }

    /// Whether the reassembly state is well formed.
    pub closed spec fn wf(&self) -> bool {
        self.frames.wf()
    }

    /// A decoder with no frame in progress, or an error when the H.264 decoder
    /// cannot be created.
    pub fn new() -> (r: Result<Self, ScreenError>)
        ensures
            r matches Ok(d) ==> d.wf() && d.view() == Map::<u32, AssemblyView>::empty() && d.fed()
                == Seq::<Seq<u8>>::empty(),
            r matches Err(e) ==> e == ScreenError::DecoderUnavailable,
    {
        match new_h264_decoder() {
            Some(decoder) => Ok(
                ScreenDecoder { decoder, frames: Reassembler::new(), fed: Ghost(Seq::empty()) },
            ),
            None => Err(ScreenError::DecoderUnavailable),
        }
    }

    /// Hands `data` to the H.264 decoder and records it as fed.
    fn feed(&mut self, data: &[u8]) -> (r: DecodeOutcome)
        ensures
            final(self).fed() == old(self).fed().push(data@),
            final(self).frames == old(self).frames,
    {
        let r = decode_h264(&mut self.decoder, data);
        self.fed = Ghost(self.fed@.push(data@));
        r
    }

    /// Takes one screen datagram received at `now_ms` (see
    /// [`Reassembler::accept`]); when it completes a frame, hands the frame's
    /// bytes to the H.264 decoder and returns what the viewer receives for it.
    pub fn process_packet(&mut self, packet: &[u8], now_ms: u64) -> (r: Result<Option<(u16, Vec<u8>)>, ScreenError>)
        requires
            old(self).wf(),
        ensures
            final(self).wf(),
            match header_of(packet@) {
                None => r == Err::<Option<(u16, Vec<u8>)>, ScreenError>(ScreenError::InvalidHeader)
                    && final(self).view() == old(self).view() && final(self).fed() == old(self).fed(),
                Some(h) => {
                    let payload = packet@.subrange(HEADER_SIZE as int, packet@.len() as int);
                    let a0 = target_assembly(old(self).view(), h, now_ms);
                    let a = AssemblyView { fragments: a0.fragments.insert(h.fragment_idx, payload), ..a0 };
                    let done = assembled(a.fragments, a.expected_fragments);
                    let mid = if done is Some {
                        old(self).view().remove(h.frame_id)
                    } else {
                        old(self).view().insert(h.frame_id, a)
                    };
                    &&& final(self).view() == Map::new(
                        |k: u32| mid.contains_key(k) && !expired(mid[k], now_ms),
                        |k: u32| mid[k],
                    )
                    &&& final(self).fed() == match done {
                        Some(d) => old(self).fed().push(d),
                        None => old(self).fed(),
                    }
                    &&& (done is None ==> r == Ok::<Option<(u16, Vec<u8>)>, ScreenError>(None))
                    &&& (done is Some ==> r is Ok)
                    &&& (r matches Ok(Some((u, px))) ==> u == h.user_id && px@ == grey_picture())
                },
            },
    {
        match self.frames.accept(packet, now_ms) {
            Err(_) => Err(ScreenError::InvalidHeader),
            Ok(None) => Ok(None),
            Ok(Some(frame)) => {
                let outcome = self.feed(frame.data.as_slice());
                Ok(frame_output(frame.user_id, outcome))
            },
        }
    }
}

/// The fragment table after filing each `(index, payload)` of `adds` in turn
/// into `m` (see [`FrameAssembly::add_fragment`]).
pub open spec fn filed(m: FragmentMap, adds: Seq<(u16, Seq<u8>)>) -> FragmentMap
    decreases adds.len(),
{
    if adds.len() == 0 {
        m
    } else {
        filed(m, adds.drop_last()).insert(adds.last().0, adds.last().1)
    }
}

/// Whether some filing of `adds` is for fragment `i`.
pub open spec fn filed_index(adds: Seq<(u16, Seq<u8>)>, i: u16) -> bool {
    exists|k: int| 0 <= k < adds.len() && (#[trigger] adds[k]).0 == i
}

/// The payload a fragment datagram carries after its header.
pub open spec fn payload_of(p: Seq<u8>) -> Seq<u8> {
    p.subrange(HEADER_SIZE as int, p.len() as int)
}

proof fn lemma_filed(data: Seq<u8>, adds: Seq<(u16, Seq<u8>)>)
    requires
        forall|k: int| 0 <= k < adds.len() ==> (#[trigger] adds[k]).1 == chunk(data, adds[k].0 as int),
    ensures
        forall|i: u16|
            #[trigger] filed(Map::empty(), adds).contains_key(i) <==> exists|k: int|
                0 <= k < adds.len() && (#[trigger] adds[k]).0 == i,
        forall|i: u16|
            #[trigger] filed(Map::empty(), adds).contains_key(i) ==> filed(Map::empty(), adds)[i] == chunk(
                data,
                i as int,
            ),
    decreases adds.len(),
{
    if adds.len() > 0 {
        let before = adds.drop_last();
        assert forall|k: int| 0 <= k < before.len() implies (#[trigger] before[k]).1 == chunk(
            data,
            before[k].0 as int,
        ) by {
            assert(before[k] == adds[k]);
        }
        lemma_filed(data, before);
        let last = adds.last();
        assert(adds[adds.len() - 1] == last);
        let m0 = filed(Map::empty(), before);
        let m = filed(Map::empty(), adds);
        assert(m == m0.insert(last.0, last.1));
        assert(last.1 == chunk(data, last.0 as int));
        assert forall|i: u16| #[trigger] m.contains_key(i) <==> exists|k: int|
            0 <= k < adds.len() && (#[trigger] adds[k]).0 == i by {
            if m0.contains_key(i) {
                let k = choose|k: int| 0 <= k < before.len() && (#[trigger] before[k]).0 == i;
                assert(adds[k] == before[k]);
            }
            if exists|k: int| 0 <= k < adds.len() && (#[trigger] adds[k]).0 == i {
                let k = choose|k: int| 0 <= k < adds.len() && (#[trigger] adds[k]).0 == i;
                if k < before.len() {
                    assert(before[k] == adds[k]);
                    assert(m0.contains_key(i));
                }
            }
        }
        assert forall|i: u16| #[trigger] m.contains_key(i) implies m[i] == chunk(data, i as int) by {
            if i != last.0 {
                assert(m0.contains_key(i));
            }
        }
    }
}

/// Filing every fragment datagram of a frame into a fresh assembly, in any
/// order and with any repeats, assembles exactly the bytes that were cut up.
pub proof fn law_any_filing_order_reassembles(
    room_id: u16,
    user_id: u16,
    frame_id: u32,
    data: Seq<u8>,
    is_keyframe: bool,
    adds: Seq<(u16, Seq<u8>)>,
)
    requires
        data.len() > 0,
        fragment_total(data.len()) <= 0xFFFF,
        forall|k: int|
            0 <= k < adds.len() ==> (#[trigger] adds[k]).0 < fragment_total(data.len()) && adds[k].1
                == payload_of(fragment_packet(room_id, user_id, frame_id, data, is_keyframe, adds[k].0 as int)),
        forall|i: u16| (i as nat) < fragment_total(data.len()) ==> #[trigger] filed_index(adds, i),
    ensures
        assembled(filed(Map::empty(), adds), fragment_total(data.len()) as u16) == Some(data),
{
    let total = fragment_total(data.len());
    assert forall|k: int| 0 <= k < adds.len() implies (#[trigger] adds[k]).1 == chunk(data, adds[k].0 as int) by {
        lemma_fragment_header(room_id, user_id, frame_id, data, is_keyframe, adds[k].0 as int);
    }
    lemma_filed(data, adds);
    let m = filed(Map::empty(), adds);
    assert forall|i: u16| #[trigger] m.contains_key(i) <==> (i as nat) < total by {
        if (i as nat) < total {
            assert(filed_index(adds, i));
        }
    }
    assert forall|i: u16| (i as nat) < total implies #[trigger] m[i] == chunk(data, i as int) by {
        assert(m.contains_key(i));
    }
    law_fragments_reassemble(room_id, user_id, frame_id, data, is_keyframe, m);
}

} // verus!
