//! Voice packets on UDP: `[room_id: u16][user_id: u16][seq: u16][opus payload]`,
//! each field big-endian.
use vstd::prelude::*;

verus! {

/// Bytes of the voice packet header.
pub const HEADER_SIZE: usize = 6;

/// Largest voice datagram the client and the server read or write.
pub const MAX_PACKET_SIZE: usize = 4000;

/// Sample rate of the captured and played audio, in Hz.
pub const SAMPLE_RATE: u32 = 48000;

/// Audio channels (mono).
pub const CHANNELS: u16 = 1;

/// Length of one audio frame, in milliseconds.
pub const FRAME_DURATION_MS: u32 = 20;

/// Samples in one audio frame (20 ms at 48 kHz, mono).
pub const FRAME_SIZE: usize = 960;

/// The big-endian bytes of `x`.
pub open spec fn be_u16_bytes(x: u16) -> Seq<u8> {
    seq![(x >> 8u16) as u8, x as u8]
}

/// The number two big-endian bytes stand for.
pub open spec fn be_u16_value(hi: u8, lo: u8) -> u16 {
    (((hi as u16) << 8u16) | (lo as u16)) as u16
}

pub proof fn lemma_be_u16_round_trip(x: u16)
    ensures
        be_u16_value((x >> 8u16) as u8, x as u8) == x,
{
    assert(((((x >> 8u16) as u8) as u16) << 8u16) | ((x as u8) as u16) == x) by (bit_vector);
}

/// The header of a voice packet.
pub open spec fn header_bytes(room_id: u16, user_id: u16, seq: u16) -> Seq<u8> {
    be_u16_bytes(room_id) + be_u16_bytes(user_id) + be_u16_bytes(seq)
}

/// The header fields of a datagram, if it is long enough to hold a header.
pub open spec fn header_of(packet: Seq<u8>) -> Option<(u16, u16, u16)> {
    if packet.len() < HEADER_SIZE {
        None
    } else {
        Some(
            (
                be_u16_value(packet[0], packet[1]),
                be_u16_value(packet[2], packet[3]),
                be_u16_value(packet[4], packet[5]),
            ),
        )
    }
}

/// What a client plays from a received datagram: nothing when the datagram
/// holds no more than a header or was sent by the client itself, else what
/// follows the header.
pub open spec fn playable_spec(packet: Seq<u8>, own_user_id: u16) -> Option<Seq<u8>> {
    if packet.len() <= HEADER_SIZE {
        None
    } else if header_of(packet).unwrap().1 == own_user_id {
        None
    } else {
        Some(packet.subrange(HEADER_SIZE as int, packet.len() as int))
    }
}

/// Encodes the header of a voice packet.
pub fn encode_header(room_id: u16, user_id: u16, seq: u16) -> (r: [u8; 6])
    ensures
        r@ == header_bytes(room_id, user_id, seq),
{
    let r = [
        (room_id >> 8u16) as u8,
        room_id as u8,
        (user_id >> 8u16) as u8,
        user_id as u8,
        (seq >> 8u16) as u8,
        seq as u8,
    ];
    assert(r@ =~= header_bytes(room_id, user_id, seq));
    r
}

/// Decodes the header of a voice packet: `(room_id, user_id, seq)`, or `None`
/// when the datagram is shorter than a header.
pub fn decode_header(packet: &[u8]) -> (r: Option<(u16, u16, u16)>)
    ensures
        r == header_of(packet@),
{
    if packet.len() < HEADER_SIZE {
        return None;
    }
    let room_id = ((packet[0] as u16) << 8u16) | (packet[1] as u16);
    let user_id = ((packet[2] as u16) << 8u16) | (packet[3] as u16);
    let seq = ((packet[4] as u16) << 8u16) | (packet[5] as u16);
    Some((room_id, user_id, seq))
}

/// A whole voice datagram: the header, then the encoded audio.
pub fn build_packet(room_id: u16, user_id: u16, seq: u16, opus_data: &[u8]) -> (r: Vec<u8>)
    ensures
        r@ == header_bytes(room_id, user_id, seq) + opus_data@,
{
    let header = encode_header(room_id, user_id, seq);
    let mut out: Vec<u8> = Vec::new();
    let mut i: usize = 0;
    while i < HEADER_SIZE
        invariant
            0 <= i <= HEADER_SIZE,
            header@ == header_bytes(room_id, user_id, seq),
            out@ == header@.take(i as int),
        decreases HEADER_SIZE - i,
    {
        out.push(header[i]);
        i = i + 1;
        assert(out@ =~= header@.take(i as int));
    }
    let n = opus_data.len();
    let mut j: usize = 0;
    while j < n
        invariant
            0 <= j <= n,
            n == opus_data@.len(),
            out@ == header_bytes(room_id, user_id, seq) + opus_data@.take(j as int),
        decreases n - j,
    {
        out.push(opus_data[j]);
        j = j + 1;
        assert(out@ =~= header_bytes(room_id, user_id, seq) + opus_data@.take(j as int));
    }
    assert(opus_data@.take(n as int) =~= opus_data@);
    out
}

/// The audio a client plays from a received datagram (see [`playable_spec`]).
pub fn playable_payload(packet: &[u8], own_user_id: u16) -> (r: Option<Vec<u8>>)
    ensures
        match playable_spec(packet@, own_user_id) {
            Some(p) => r matches Some(v) && v@ == p,
            None => r is None,
        },
{
    if packet.len() <= HEADER_SIZE {
        return None;
    }
    match decode_header(packet) {
        Some((_room, uid, _seq)) => {
            if uid == own_user_id {
                return None;
            }
        },
        None => {},
    }
    let n = packet.len();
    let mut out: Vec<u8> = Vec::new();
    let mut i: usize = HEADER_SIZE;
    while i < n
        invariant
            HEADER_SIZE <= i <= n,
            n == packet@.len(),
            out@ == packet@.subrange(HEADER_SIZE as int, i as int),
        decreases n - i,
    {
        out.push(packet[i]);
        i = i + 1;
        assert(out@ =~= packet@.subrange(HEADER_SIZE as int, i as int));
    }
    Some(out)
}

/// The sequence number that follows `seq` (wrapping after 65535).
pub fn next_seq(seq: u16) -> (r: u16)
    ensures
        r == (seq + 1) % 0x10000,
{
    seq.wrapping_add(1)
}

/// A packet's header reads back as the fields it was built with, and the rest
/// of the packet is the audio it was built with.
pub proof fn law_voice_header_round_trip(room_id: u16, user_id: u16, seq: u16, payload: Seq<u8>)
    ensures
        header_of(header_bytes(room_id, user_id, seq) + payload) == Some((room_id, user_id, seq)),
        (header_bytes(room_id, user_id, seq) + payload).subrange(HEADER_SIZE as int, HEADER_SIZE
            + payload.len()) =~= payload,
{
    lemma_be_u16_round_trip(room_id);
    lemma_be_u16_round_trip(user_id);
    lemma_be_u16_round_trip(seq);
    let p = header_bytes(room_id, user_id, seq) + payload;
    assert(p[0] == (room_id >> 8u16) as u8 && p[1] == room_id as u8);
    assert(p[2] == (user_id >> 8u16) as u8 && p[3] == user_id as u8);
    assert(p[4] == (seq >> 8u16) as u8 && p[5] == seq as u8);
}

/// A client never plays back its own voice, and plays exactly the audio that
/// another member put in a packet.
pub proof fn law_voice_delivery(room_id: u16, sender: u16, seq: u16, payload: Seq<u8>, own_user_id: u16)
    requires
        payload.len() > 0,
    ensures
        sender == own_user_id ==> playable_spec(header_bytes(room_id, sender, seq) + payload, own_user_id)
            is None,
        sender != own_user_id ==> playable_spec(header_bytes(room_id, sender, seq) + payload, own_user_id)
            == Some(payload),
{
    law_voice_header_round_trip(room_id, sender, seq, payload);
}

} // verus!
