//! Signaling messages and their length-prefixed framing on the TCP stream.
//!
//! Wire format of one message: a 4-byte big-endian length, then that many
//! bytes of JSON payload. A reader refuses lengths above
//! [`MAX_MESSAGE_LEN`].
use vstd::prelude::*;
use vstd::string::StringExecFns;
use crate::text::{decimal, push_decimal};

verus! {

/// Most members a room admits.
pub const MAX_ROOM_USERS: usize = 10;

/// TCP port on which the server listens for signaling by default.
pub const DEFAULT_PORT: u16 = 7480;

/// UDP port on which the server relays voice by default.
pub const DEFAULT_VOICE_PORT: u16 = 7481;

/// Largest payload a reader accepts, in bytes.
pub const MAX_MESSAGE_LEN: usize = 65536;

/// Bytes of the length prefix.
pub const LENGTH_PREFIX_LEN: usize = 4;

/// Client to server messages.
#[derive(Debug, Clone)]
pub enum ClientMessage {
    Join { username: String, room: String, password: Option<String> },
    Leave,
    Chat { text: String },
}

/// Server to client messages.
#[derive(Debug, Clone)]
pub enum ServerMessage {
    RoomState { room: String, users: Vec<String> },
    UserJoined { username: String },
    UserLeft { username: String },
    Chat { from: String, text: String, ts: u64 },
    Error { message: String },
}

/// Why a frame could not be read.
#[derive(Debug, Clone, Copy, PartialEq, Eq, Structural)]
pub enum FrameError {
    /// The stream ended before the length prefix or the payload was complete.
    ConnectionClosed,
    /// The length prefix announced more than [`MAX_MESSAGE_LEN`] bytes.
    TooLarge { len: u32 },
}

/// The big-endian bytes of `x`.
pub open spec fn be_u32_bytes(x: u32) -> Seq<u8> {
    seq![(x >> 24u32) as u8, (x >> 16u32) as u8, (x >> 8u32) as u8, x as u8]
}

/// The number that four big-endian bytes stand for.
pub open spec fn be_u32_value(b0: u8, b1: u8, b2: u8, b3: u8) -> u32 {
    ((b0 as u32) << 24u32) | ((b1 as u32) << 16u32) | ((b2 as u32) << 8u32) | (b3 as u32)
}

/// The length prefix `write_message` puts before a payload of `len` bytes
/// (the length is taken modulo 2^32, as a `u32` cast does).
pub open spec fn length_prefix(len: nat) -> Seq<u8> {
    be_u32_bytes((len % 0x1_0000_0000) as u32)
}

/// A whole frame as written for `payload`.
pub open spec fn frame_of(payload: Seq<u8>) -> Seq<u8> {
    length_prefix(payload.len()) + payload
}

/// What reading one frame from the front of `bytes` gives.
pub open spec fn read_frame_spec(bytes: Seq<u8>) -> Result<Seq<u8>, FrameError> {
    if bytes.len() < 4 {
        Err(FrameError::ConnectionClosed)
    } else {
        let len = be_u32_value(bytes[0], bytes[1], bytes[2], bytes[3]);
        if len > MAX_MESSAGE_LEN {
            Err(FrameError::TooLarge { len })
        } else if bytes.len() < 4 + len {
            Err(FrameError::ConnectionClosed)
        } else {
            Ok(bytes.subrange(4, 4 + len))
        }
    }
}

/// The text of a frame error, as the server reports it.
pub open spec fn frame_error_text(e: FrameError) -> Seq<char> {
    match e {
        FrameError::ConnectionClosed => "connection closed"@,
        FrameError::TooLarge { len } => "message too large: "@ + decimal(len as nat) + " bytes"@,
    }
}

impl FrameError {
    /// The human-readable text of the error.
    pub fn message(&self) -> (r: String)
        ensures
            r@ == frame_error_text(*self),
    {
        match self {
            FrameError::ConnectionClosed => String::from_str("connection closed"),
            FrameError::TooLarge { len } => {
                let mut s = String::from_str("message too large: ");
                push_decimal(&mut s, *len as u64);
                s.append(" bytes");
                s
            },
        }
    }
}

proof fn lemma_be_round_trip(x: u32)
    ensures
        be_u32_value((x >> 24u32) as u8, (x >> 16u32) as u8, (x >> 8u32) as u8, x as u8) == x,
{
    assert(((((x >> 24u32) as u8) as u32) << 24u32) | ((((x >> 16u32) as u8) as u32) << 16u32)
        | ((((x >> 8u32) as u8) as u32) << 8u32) | ((x as u8) as u32) == x) by (bit_vector);
}

/// The big-endian bytes of `x`.
pub fn u32_be_bytes(x: u32) -> (r: [u8; 4])
    ensures
        r@ == be_u32_bytes(x),
{
    let r = [(x >> 24u32) as u8, (x >> 16u32) as u8, (x >> 8u32) as u8, x as u8];
    assert(r@ =~= be_u32_bytes(x));
    r
}

/// The payload length announced by a length prefix, or `TooLarge` when it
/// exceeds [`MAX_MESSAGE_LEN`].
pub fn frame_len(header: [u8; 4]) -> (r: Result<usize, FrameError>)
    ensures
        ({
            let len = be_u32_value(header[0], header[1], header[2], header[3]);
            if len > MAX_MESSAGE_LEN {
                r == Err::<usize, FrameError>(FrameError::TooLarge { len })
            } else {
                r == Ok::<usize, FrameError>(len as usize)
            }
        }),
{
    let len: u32 = ((header[0] as u32) << 24u32) | ((header[1] as u32) << 16u32) | ((header[2] as u32)
        << 8u32) | (header[3] as u32);
    if len as usize > MAX_MESSAGE_LEN {
        Err(FrameError::TooLarge { len })
    } else {
        Ok(len as usize)
    }
}

/// Frames `payload` for the wire: its length as 4 big-endian bytes (taken
/// modulo 2^32), then the payload.
pub fn encode_frame(payload: &[u8]) -> (r: Vec<u8>)
    ensures
        r@ == frame_of(payload@),
{
    let len = payload.len();
    let prefix = u32_be_bytes(((len as u64) % 0x1_0000_0000u64) as u32);
    let mut out: Vec<u8> = Vec::new();
    out.push(prefix[0]);
    out.push(prefix[1]);
    out.push(prefix[2]);
    out.push(prefix[3]);
    let mut i: usize = 0;
    while i < len
        invariant
            len == payload@.len(),
            0 <= i <= len,
            out@ == length_prefix(len as nat) + payload@.take(i as int),
        decreases len - i,
    {
        out.push(payload[i]);
        i = i + 1;
        assert(out@ =~= length_prefix(len as nat) + payload@.take(i as int));
    }
    assert(payload@.take(len as int) =~= payload@);
    out
}

/// Reads one frame from the front of `bytes`: the payload, or why there is none.
pub fn decode_frame(bytes: &[u8]) -> (r: Result<Vec<u8>, FrameError>)
    ensures
        match read_frame_spec(bytes@) {
            Ok(p) => r matches Ok(v) && v@ == p,
            Err(e) => r == Err::<Vec<u8>, FrameError>(e),
        },
{
    if bytes.len() < 4 {
        return Err(FrameError::ConnectionClosed);
    }
    let header = [bytes[0], bytes[1], bytes[2], bytes[3]];
    let len = match frame_len(header) {
        Ok(len) => len,
        Err(e) => return Err(e),
    };
    if bytes.len() - 4 < len {
        return Err(FrameError::ConnectionClosed);
    }
    let mut out: Vec<u8> = Vec::new();
    let mut i: usize = 0;
    while i < len
        invariant
            0 <= i <= len,
            4 + len <= bytes@.len(),
            bytes@.len() == bytes.len(),
            out@ == bytes@.subrange(4, 4 + i),
        decreases len - i,
    {
        out.push(bytes[4 + i]);
        i = i + 1;
        assert(out@ =~= bytes@.subrange(4, 4 + i));
    }
    Ok(out)
}

/// Reading back a frame that was written for a payload of at most
/// [`MAX_MESSAGE_LEN`] bytes gives that payload, whatever follows it on the
/// stream; a larger payload is refused as too large.
pub proof fn law_frame_round_trip(payload: Seq<u8>, rest: Seq<u8>)
    ensures
        payload.len() <= MAX_MESSAGE_LEN ==> read_frame_spec(frame_of(payload) + rest) == Ok::<
            Seq<u8>,
            FrameError,
        >(payload),
        MAX_MESSAGE_LEN < payload.len() < 0x1_0000_0000 ==> read_frame_spec(frame_of(payload) + rest)
            == Err::<Seq<u8>, FrameError>(FrameError::TooLarge { len: payload.len() as u32 }),
{
    let x = (payload.len() % 0x1_0000_0000) as u32;
    lemma_be_round_trip(x);
    let all = frame_of(payload) + rest;
    assert(all[0] == (x >> 24u32) as u8);
    assert(all[1] == (x >> 16u32) as u8);
    assert(all[2] == (x >> 8u32) as u8);
    assert(all[3] == x as u8);
    if payload.len() <= MAX_MESSAGE_LEN {
        assert(x == payload.len());
        assert(all.subrange(4, 4 + x) =~= payload);
    }
}

} // verus!
