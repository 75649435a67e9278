use voicechat::protocol::{decode_frame, encode_frame, frame_len, u32_be_bytes, FrameError, MAX_MESSAGE_LEN};
use voicechat::screen::{
    decode_header as decode_screen_header, encode_header as encode_screen_header, fragment_frame,
    FragmentHeader, FrameAssembly, Reassembler, FRAGMENT_SIZE, HEADER_SIZE as SCREEN_HEADER_SIZE,
    PAYLOAD_SIZE,
};
use voicechat::voice::{build_packet, decode_header, encode_header, next_seq, playable_payload, HEADER_SIZE};

#[test]
fn frame_prefix_is_big_endian_length() {
    let f = encode_frame(b"{\"type\":\"leave\"}");
    assert_eq!(&f[..4], &[0, 0, 0, 16]);
    assert_eq!(&f[4..], b"{\"type\":\"leave\"}");
}

#[test]
fn frame_round_trip() {
    let payload: Vec<u8> = (0..300u32).map(|i| (i % 251) as u8).collect();
    let f = encode_frame(&payload);
    assert_eq!(f.len(), 304);
    assert_eq!(decode_frame(&f), Ok(payload));
}

#[test]
fn frame_round_trip_empty() {
    let f = encode_frame(&[]);
    assert_eq!(f, vec![0, 0, 0, 0]);
    assert_eq!(decode_frame(&f), Ok(vec![]));
}

#[test]
fn frame_short_prefix_is_closed_connection() {
    assert_eq!(decode_frame(&[0, 0, 1]), Err(FrameError::ConnectionClosed));
}

#[test]
fn frame_short_payload_is_closed_connection() {
    assert_eq!(decode_frame(&[0, 0, 0, 5, 1, 2]), Err(FrameError::ConnectionClosed));
}

#[test]
fn frame_too_large_is_refused() {
    let e = decode_frame(&[0, 1, 0, 1, 9, 9]).unwrap_err();
    assert_eq!(e, FrameError::TooLarge { len: 65537 });
    assert_eq!(e.message(), "message too large: 65537 bytes");
    assert_eq!(FrameError::ConnectionClosed.message(), "connection closed");
}

#[test]
fn frame_limit_is_inclusive() {
    assert_eq!(frame_len([0, 1, 0, 0]), Ok(MAX_MESSAGE_LEN));
    assert_eq!(frame_len([0, 1, 0, 1]), Err(FrameError::TooLarge { len: 65537 }));
    assert_eq!(u32_be_bytes(0x0102_0304), [1, 2, 3, 4]);
}

#[test]
fn frame_trailing_bytes_are_left() {
    assert_eq!(decode_frame(&[0, 0, 0, 2, 7, 8, 9]), Ok(vec![7, 8]));
}

#[test]
fn voice_header_layout() {
    assert_eq!(encode_header(0x0102, 0x0304, 0x0506), [1, 2, 3, 4, 5, 6]);
    assert_eq!(HEADER_SIZE, 6);
}

#[test]
fn voice_header_round_trip() {
    let p = build_packet(7, 300, 65535, &[9, 8, 7]);
    assert_eq!(p, vec![0, 7, 1, 44, 255, 255, 9, 8, 7]);
    assert_eq!(decode_header(&p), Some((7, 300, 65535)));
}

#[test]
fn voice_header_too_short() {
    assert_eq!(decode_header(&[1, 2, 3, 4, 5]), None);
}

#[test]
fn voice_own_packets_are_not_played() {
    let p = build_packet(1, 5, 10, &[42, 43]);
    assert_eq!(playable_payload(&p, 5), None);
    assert_eq!(playable_payload(&p, 6), Some(vec![42, 43]));
    assert_eq!(playable_payload(&p[..5], 6), None);
}

#[test]
fn voice_sequence_wraps() {
    assert_eq!(next_seq(0), 1);
    assert_eq!(next_seq(65535), 0);
}

#[test]
fn screen_header_round_trip() {
    let h = FragmentHeader {
        room_id: 0x1234,
        user_id: 0x5678,
        frame_id: 0xDEADBEEF,
        fragment_idx: 3,
        fragment_count: 9,
        is_keyframe: true,
    };
    let b = encode_screen_header(h);
    assert_eq!(b.len(), SCREEN_HEADER_SIZE);
    assert_eq!(&b[..2], &[0xFF, 0xFE]);
    assert_eq!(decode_screen_header(&b), Some(h));
}

#[test]
fn screen_header_needs_magic() {
    let mut b = encode_screen_header(FragmentHeader {
        room_id: 1,
        user_id: 2,
        frame_id: 3,
        fragment_idx: 0,
        fragment_count: 1,
        is_keyframe: false,
    });
    b[0] = 0;
    assert_eq!(decode_screen_header(&b), None);
    assert_eq!(decode_screen_header(&[0xFF, 0xFE, 0]), None);
}

#[test]
fn screen_fragment_sizes() {
    assert_eq!(FRAGMENT_SIZE, SCREEN_HEADER_SIZE + PAYLOAD_SIZE);
    let data: Vec<u8> = (0..2500u32).map(|i| (i % 256) as u8).collect();
    let frags = fragment_frame(1, 2, 77, &data, true).unwrap();
    assert_eq!(frags.len(), 3);
    assert_eq!(frags[0].len(), FRAGMENT_SIZE);
    assert_eq!(frags[1].len(), FRAGMENT_SIZE);
    assert_eq!(frags[2].len(), SCREEN_HEADER_SIZE + 2500 - 2 * PAYLOAD_SIZE);
    let h = decode_screen_header(&frags[2]).unwrap();
    assert_eq!(h.fragment_idx, 2);
    assert_eq!(h.fragment_count, 3);
    assert_eq!(h.frame_id, 77);
    assert!(h.is_keyframe);
}

#[test]
fn screen_empty_frame_has_no_fragment() {
    assert_eq!(fragment_frame(1, 2, 3, &[], false).unwrap().len(), 0);
}

#[test]
fn screen_frame_too_large() {
    let data = vec![0u8; 65536 * PAYLOAD_SIZE];
    let e = fragment_frame(1, 2, 3, &data, false).unwrap_err();
    assert_eq!(e.fragments, 65536);
    assert_eq!(e.message(), format!("Frame too large: {} bytes, 65536 fragments", 65536 * PAYLOAD_SIZE));
}

#[test]
fn screen_fragments_reassemble_in_any_order() {
    let data: Vec<u8> = (0..4000u32).map(|i| (i * 7 % 256) as u8).collect();
    let frags = fragment_frame(4, 9, 12, &data, false).unwrap();
    assert_eq!(frags.len(), 4);
    let mut r = Reassembler::new();
    assert!(r.accept(&frags[3], 1000).unwrap().is_none());
    assert!(r.accept(&frags[0], 1001).unwrap().is_none());
    assert!(r.accept(&frags[2], 1002).unwrap().is_none());
    let done = r.accept(&frags[1], 1003).unwrap().unwrap();
    assert_eq!(done.user_id, 9);
    assert_eq!(done.frame_id, 12);
    assert!(!done.is_keyframe);
    assert_eq!(done.data, data);
}

#[test]
fn screen_frame_completes_within_timeout() {
    let data = vec![5u8; 3000];
    let frags = fragment_frame(1, 1, 1, &data, true).unwrap();
    let mut r = Reassembler::new();
    assert!(r.accept(&frags[0], 0).unwrap().is_none());
    assert!(r.accept(&frags[1], 50).unwrap().is_none());
    assert_eq!(r.accept(&frags[2], 201).unwrap().unwrap().data, data);
}

#[test]
fn screen_invalid_datagram_is_refused() {
    let mut r = Reassembler::new();
    assert!(r.accept(&[1, 2, 3], 0).is_err());
}

#[test]
fn screen_stale_frames_are_dropped() {
    let data = vec![5u8; 3000];
    let frags = fragment_frame(1, 1, 1, &data, true).unwrap();
    let mut r = Reassembler::new();
    assert!(r.accept(&frags[0], 0).unwrap().is_none());
    assert!(r.accept(&frags[1], 50).unwrap().is_none());
    // A datagram of another frame more than 100 ms after the first fragment
    // drops the partial frame, so its last fragment starts a new, incomplete
    // assembly.
    let other = fragment_frame(1, 1, 2, &data, true).unwrap();
    assert!(r.accept(&other[0], 150).unwrap().is_none());
    assert!(r.accept(&frags[2], 160).unwrap().is_none());
}

#[test]
fn assembly_completes_and_expires() {
    let mut a = FrameAssembly::new(5, true, 2, 1000);
    assert!(!a.is_complete());
    assert_eq!(a.assemble(), None);
    a.add_fragment(1, vec![3, 4]);
    a.add_fragment(0, vec![1, 2]);
    assert!(a.is_complete());
    assert_eq!(a.assemble(), Some(vec![1, 2, 3, 4]));
    assert!(!a.is_expired(1100, 100));
    assert!(a.is_expired(1101, 100));
}

#[test]
fn assembly_duplicate_fragment_keeps_last() {
    let mut a = FrameAssembly::new(5, false, 1, 0);
    a.add_fragment(0, vec![1]);
    a.add_fragment(0, vec![2]);
    assert_eq!(a.assemble(), Some(vec![2]));
}

#[test]
fn assembly_filing_any_order_with_repeats() {
    let data: Vec<u8> = (0..3000u32).map(|i| (i % 253) as u8).collect();
    let frags = fragment_frame(1, 2, 9, &data, true).unwrap();
    let mut a = FrameAssembly::new(9, true, frags.len() as u16, 0);
    for &i in &[2usize, 0, 2, 1, 0] {
        a.add_fragment(i as u16, frags[i][SCREEN_HEADER_SIZE..].to_vec());
    }
    assert_eq!(a.assemble(), Some(data));
}
