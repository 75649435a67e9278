use voicechat::chat::{decode_chat_text, encode_chat_text, outgoing_text};
use voicechat::client::{
    join_outcome, login_request, reconnect_delay_secs, reconnect_tick, room_key, validate_username,
    AudioSwitches, ChatRoom, ReconnectAction, ReconnectState,
};
use voicechat::crypto::{decrypt, derive_key, encrypt, encrypt_with_nonce, CryptoError};
use voicechat::capture::{CapturePacer, CaptureStep};
use voicechat::devices::{list_input_devices, list_output_devices};
use voicechat::login::{device_label, device_position, selected_device_name, LoginForm, SavedLogin};
use voicechat::status::{
    latency_text, ping_latency, reconnect_status, roster_entry, status_line, transmit_indicator, voice_status,
    VoiceFlags,
};
use voicechat::hotkeys::{
    bind_pressed, capture_any_input, keycode_from_name, keycode_to_name, mouse_button_name, Key, PttBind,
};
use voicechat::jitter::{FrameStep, JitterBuffer, LossWindow, UserBuffer};
use voicechat::protocol::ServerMessage;
use voicechat::text::{decimal_string, parse_unsigned_decimal, trim};
use voicechat::tray::{tray_icon_rgba, TrayCommand, TrayMenuIds};

fn decoded(step: FrameStep) -> Option<Vec<u8>> {
    match step {
        FrameStep::Decode(d) => Some(d),
        _ => None,
    }
}

#[test]
fn jitter_waits_for_three_packets() {
    let mut b = UserBuffer::new();
    b.insert(100, vec![1]);
    assert!(matches!(b.next_step(), FrameStep::Wait));
    b.insert(101, vec![2]);
    assert!(matches!(b.next_step(), FrameStep::Wait));
    b.insert(102, vec![3]);
    assert_eq!(decoded(b.next_step()), Some(vec![1]));
    b.finish_step(true);
    assert_eq!(decoded(b.next_step()), Some(vec![2]));
    b.finish_step(true);
    assert_eq!(decoded(b.next_step()), Some(vec![3]));
    b.finish_step(true);
    assert!(b.is_idle());
}

#[test]
fn jitter_reorders_packets() {
    let mut b = UserBuffer::new();
    b.insert(10, vec![10]);
    b.insert(12, vec![12]);
    b.insert(11, vec![11]);
    for expect in [10u8, 11, 12] {
        assert_eq!(decoded(b.next_step()), Some(vec![expect]));
        b.finish_step(true);
    }
}

#[test]
fn jitter_conceals_missing_packet() {
    let mut b = UserBuffer::new();
    b.insert(1, vec![1]);
    b.insert(3, vec![3]);
    b.insert(4, vec![4]);
    assert_eq!(decoded(b.next_step()), Some(vec![1]));
    b.finish_step(true);
    assert!(matches!(b.next_step(), FrameStep::Conceal));
    b.finish_step(true);
    assert_eq!(decoded(b.next_step()), Some(vec![3]));
}

#[test]
fn jitter_failed_decode_keeps_cursor() {
    let mut b = UserBuffer::new();
    for s in 0..3u16 {
        b.insert(s, vec![s as u8]);
    }
    assert_eq!(decoded(b.next_step()), Some(vec![0]));
    b.finish_step(false);
    // The packet was taken out, so the same position is now a gap.
    assert!(matches!(b.next_step(), FrameStep::Conceal));
}

#[test]
fn jitter_sequence_wraps() {
    let mut b = UserBuffer::new();
    b.insert(65535, vec![1]);
    b.insert(0, vec![2]);
    b.insert(1, vec![3]);
    assert_eq!(decoded(b.next_step()), Some(vec![1]));
    b.finish_step(true);
    assert_eq!(decoded(b.next_step()), Some(vec![2]));
}

#[test]
fn jitter_keeps_at_most_twenty() {
    let mut b = UserBuffer::new();
    for s in 0..25u16 {
        b.insert(s, vec![s as u8]);
    }
    // The five oldest packets were dropped; playback starts at the first
    // packet's position, which is now a gap.
    assert!(matches!(b.next_step(), FrameStep::Conceal));
}

#[test]
fn jitter_loss_statistics() {
    let mut b = UserBuffer::new();
    assert_eq!(b.loss(), None);
    b.insert(5, vec![]);
    b.insert(6, vec![]);
    b.insert(9, vec![]);
    assert_eq!(b.loss(), Some(LossWindow { lost: 2, expected: 5 }));
    b.reset_stats();
    assert_eq!(b.loss(), None);
}

#[test]
fn jitter_buffer_per_user() {
    let mut j = JitterBuffer::new();
    j.insert(7, 0, vec![70]);
    j.insert(8, 0, vec![80]);
    let mut users = j.active_users();
    users.sort();
    assert_eq!(users, vec![7, 8]);
    assert!(matches!(j.next_step(7), FrameStep::Wait));
    j.insert(7, 1, vec![71]);
    j.insert(7, 2, vec![72]);
    assert_eq!(decoded(j.next_step(7)), Some(vec![70]));
    j.finish_step(7, true);
    let stats = j.get_quality_stats();
    assert_eq!(stats.len(), 2);
    assert!(stats.contains(&(7, Some(LossWindow { lost: 0, expected: 3 }))));
    j.reset_quality_stats();
    assert!(j.get_quality_stats().iter().all(|(_, l)| l.is_none()));
}

#[test]
fn jitter_idle_users_are_removed() {
    let mut j = JitterBuffer::new();
    for s in 0..3u16 {
        j.insert(1, s, vec![1]);
    }
    j.insert(2, 0, vec![2]);
    for _ in 0..3 {
        assert!(decoded(j.next_step(1)).is_some());
        j.finish_step(1, true);
    }
    j.remove_idle();
    assert_eq!(j.active_users(), vec![2]);
}

#[test]
fn key_derivation_is_deterministic() {
    let a = derive_key("hunter2");
    let b = derive_key("hunter2");
    let c = derive_key("hunter3");
    assert_eq!(a, b);
    assert_ne!(a, c);
    assert_ne!(a, [0u8; 32]);
}

#[test]
fn encryption_round_trip() {
    let key = derive_key("room password");
    let sealed = encrypt(&key, b"hello there").unwrap();
    assert_eq!(sealed.len(), 11 + 40);
    assert_eq!(decrypt(&key, &sealed), Ok(b"hello there".to_vec()));
}

#[test]
fn encryption_with_nonce_starts_with_nonce() {
    let key = [7u8; 32];
    let nonce = [9u8; 24];
    let a = encrypt_with_nonce(&key, &nonce, b"abc").unwrap();
    let b = encrypt_with_nonce(&key, &nonce, b"abc").unwrap();
    assert_eq!(a, b);
    assert_eq!(&a[..24], &nonce);
    assert_ne!(&a[24..27], b"abc");
    assert_eq!(decrypt(&key, &a), Ok(b"abc".to_vec()));
}

#[test]
fn decryption_errors() {
    let key = [1u8; 32];
    let e = decrypt(&key, &[0u8; 39]).unwrap_err();
    assert_eq!(e, CryptoError::TooShort);
    assert_eq!(e.message(), "encrypted data too short");
    let mut sealed = encrypt(&key, b"data").unwrap();
    sealed[30] ^= 1;
    let e = decrypt(&key, &sealed).unwrap_err();
    assert_eq!(e, CryptoError::DecryptionFailed);
    assert_eq!(e.message(), "decryption failed: aead::Error");
    let other = [2u8; 32];
    let sealed = encrypt(&key, b"data").unwrap();
    assert_eq!(decrypt(&other, &sealed), Err(CryptoError::DecryptionFailed));
}

#[test]
fn chat_text_plain_without_key() {
    assert_eq!(encode_chat_text(None, "gg"), "gg");
    assert_eq!(decode_chat_text(None, "gg"), "gg");
}

#[test]
fn chat_text_encrypted_round_trip() {
    let key = derive_key("pw");
    let wire = encode_chat_text(Some(&key), "héllo 👋");
    assert_ne!(wire, "héllo 👋");
    assert!(wire.chars().all(|c| c.is_ascii_alphanumeric() || c == '+' || c == '/' || c == '='));
    assert_eq!(decode_chat_text(Some(&key), &wire), "héllo 👋");
}

#[test]
fn chat_text_unreadable_is_shown_as_is() {
    let key = derive_key("pw");
    let other = derive_key("other");
    let wire = encode_chat_text(Some(&key), "secret");
    assert_eq!(decode_chat_text(Some(&other), &wire), wire);
    assert_eq!(decode_chat_text(Some(&key), "not base64!"), "not base64!");
    assert_eq!(decode_chat_text(Some(&key), "AAAA"), "AAAA");
}

#[test]
fn outgoing_text_is_trimmed() {
    assert_eq!(outgoing_text("  hi there \n"), Some("hi there".to_string()));
    assert_eq!(outgoing_text(" \t\n"), None);
    assert_eq!(trim("\u{3000}x\u{00a0}"), "x");
}

#[test]
fn login_needs_a_name() {
    assert_eq!(validate_username("  bob "), Ok("bob".to_string()));
    assert_eq!(validate_username("   "), Err("username required".to_string()));
}

#[test]
fn chat_room_roster_and_log() {
    let mut room = ChatRoom::joined(vec!["alice".to_string()], "bob", false);
    assert_eq!(room.users, vec!["alice".to_string(), "bob".to_string()]);
    assert!(room.messages.is_empty());
    room.on_server_message(ServerMessage::UserJoined { username: "carol".to_string() }, None);
    room.on_server_message(ServerMessage::UserJoined { username: "carol".to_string() }, None);
    assert_eq!(room.users.len(), 3);
    room.on_server_message(ServerMessage::UserLeft { username: "alice".to_string() }, None);
    assert_eq!(room.users, vec!["bob".to_string(), "carol".to_string()]);
    room.on_server_message(
        ServerMessage::Chat { from: "carol".to_string(), text: "hey".to_string(), ts: 5 },
        None,
    );
    room.on_server_message(ServerMessage::Error { message: "x".to_string() }, None);
    let log: Vec<(String, String)> = room.messages.iter().map(|m| (m.from.clone(), m.text.clone())).collect();
    assert_eq!(
        log,
        vec![
            ("system".to_string(), "carol joined".to_string()),
            ("system".to_string(), "carol joined".to_string()),
            ("system".to_string(), "alice left".to_string()),
            ("carol".to_string(), "hey".to_string()),
        ]
    );
}

#[test]
fn chat_room_reconnect_notice_and_send() {
    let mut room = ChatRoom::joined(vec!["bob".to_string()], "bob", true);
    assert_eq!(room.users, vec!["bob".to_string()]);
    assert_eq!(room.messages.len(), 1);
    assert_eq!(room.messages[0].text, "Reconnected!");
    assert_eq!(room.send("bob", "   ", None), None);
    assert_eq!(room.send("bob", " yo ", None), Some("yo".to_string()));
    assert_eq!(room.messages[1].from, "bob");
    assert_eq!(room.messages[1].text, "yo");
    let key = derive_key("k");
    let wire = room.send("bob", "secret", Some(&key)).unwrap();
    assert_eq!(decode_chat_text(Some(&key), &wire), "secret");
    assert_eq!(room.messages[2].text, "secret");
}

#[test]
fn audio_switches() {
    let mut s = AudioSwitches {
        muted: false,
        deafened: false,
        loopback: false,
        open_mic: false,
        noise_suppression: false,
        noise_gate: false,
    };
    s.toggle_deafen();
    assert!(s.deafened && s.muted);
    s.toggle_deafen();
    assert!(!s.deafened && s.muted);
    s.toggle_mute();
    assert!(!s.muted);
    s.toggle_loopback();
    assert!(s.loopback && s.muted && s.deafened);
    s.toggle_loopback();
    assert!(!s.loopback && !s.muted && !s.deafened);
    s.toggle_open_mic();
    s.toggle_noise_suppression();
    s.toggle_noise_gate();
    assert!(s.open_mic && s.noise_suppression && s.noise_gate);
}

#[test]
fn reconnect_backoff() {
    let delays: Vec<u64> = (0..8).map(reconnect_delay_secs).collect();
    assert_eq!(delays, vec![1, 2, 4, 8, 16, 30, 30, 30]);
}

#[test]
fn reconnect_schedule() {
    let s = ReconnectState::Reconnecting { attempt: 0, next_try_ms: 1000, started_ms: 0 };
    assert_eq!(reconnect_tick(s, 500, false), (s, ReconnectAction::Nothing));
    let (s2, a) = reconnect_tick(s, 1000, false);
    assert_eq!(a, ReconnectAction::Reconnect);
    assert_eq!(s2, ReconnectState::Reconnecting { attempt: 1, next_try_ms: 3000, started_ms: 0 });
    assert_eq!(reconnect_tick(s2, 3000, true), (s2, ReconnectAction::Nothing));
    assert_eq!(reconnect_tick(s2, 121_000, false), (ReconnectState::GaveUp, ReconnectAction::GiveUp));
    assert_eq!(
        reconnect_tick(ReconnectState::Connected, 5, false),
        (ReconnectState::Connected, ReconnectAction::Nothing)
    );
}

#[test]
fn key_names() {
    assert_eq!(keycode_to_name(&Key::A), "A");
    assert_eq!(keycode_to_name(&Key::Key0), "0");
    assert_eq!(keycode_to_name(&Key::Space), "Space");
    assert_eq!(keycode_to_name(&Key::LControl), "LCtrl");
    assert_eq!(keycode_to_name(&Key::F1), "F1");
    assert!(matches!(keycode_from_name("a"), Some(Key::A)));
    assert!(matches!(keycode_from_name("space"), Some(Key::Space)));
    assert!(matches!(keycode_from_name("f1"), Some(Key::F1)));
    assert!(keycode_from_name("nope").is_none());
}

#[test]
fn mouse_names() {
    assert_eq!(mouse_button_name(2), "Mouse2 (Right)");
    assert_eq!(mouse_button_name(3), "Mouse3 (Middle)");
    assert_eq!(mouse_button_name(4), "Mouse4");
    assert_eq!(mouse_button_name(5), "Mouse5");
    assert_eq!(mouse_button_name(1), "Mouse1");
    assert_eq!(mouse_button_name(17), "Mouse17");
}

#[test]
fn binding_settings_round_trip() {
    for b in [
        PttBind::Key(Key::V),
        PttBind::Key(Key::F5),
        PttBind::Mouse(2),
        PttBind::Mouse(3),
        PttBind::Mouse(4),
        PttBind::Mouse(5),
    ] {
        let s = b.to_setting_string();
        assert_eq!(PttBind::from_setting_string(&s), Some(b));
        assert_eq!(b.display_name(), s);
    }
    assert_eq!(PttBind::from_setting_string("MouseRight"), Some(PttBind::Mouse(2)));
    assert_eq!(PttBind::from_setting_string("Mouse3"), Some(PttBind::Mouse(3)));
    assert_eq!(PttBind::from_setting_string("v"), Some(PttBind::Key(Key::V)));
    assert_eq!(PttBind::from_setting_string("Mouse2 (Right)"), Some(PttBind::Mouse(2)));
    assert_eq!(PttBind::from_setting_string("Mouse3 (Middle)"), Some(PttBind::Mouse(3)));
    assert_eq!(PttBind::from_setting_string("Mouse6"), None);
}

#[test]
fn device_lists_start_with_default() {
    let names = vec![Some("Mic A".to_string()), None, Some("Mic C".to_string())];
    let list = list_input_devices(&names);
    let got: Vec<(String, Option<usize>)> = list.iter().map(|d| (d.name.clone(), d.index)).collect();
    assert_eq!(
        got,
        vec![
            ("System Default".to_string(), None),
            ("Mic A".to_string(), Some(0)),
            ("Mic C".to_string(), Some(2)),
        ]
    );
    assert_eq!(list_output_devices(&vec![]).len(), 1);
}

#[test]
fn tray_menu_commands() {
    let ids = TrayMenuIds {
        show: "1".to_string(),
        mute: "2".to_string(),
        deafen: "3".to_string(),
        quit: "4".to_string(),
    };
    assert_eq!(ids.command_for("1"), Some(TrayCommand::Show));
    assert_eq!(ids.command_for("2"), Some(TrayCommand::ToggleMute));
    assert_eq!(ids.command_for("3"), Some(TrayCommand::ToggleDeafen));
    assert_eq!(ids.command_for("4"), Some(TrayCommand::Quit));
    assert_eq!(ids.command_for("5"), None);
}

#[test]
fn tray_icon_is_green_disc() {
    let px = tray_icon_rgba();
    assert_eq!(px.len(), 16 * 16 * 4);
    let at = |x: usize, y: usize| &px[(y * 16 + x) * 4..(y * 16 + x) * 4 + 4];
    assert_eq!(at(8, 8), &[80, 200, 80, 255]);
    assert_eq!(at(0, 0), &[0, 0, 0, 0]);
    assert_eq!(at(0, 8), &[0, 0, 0, 0]);
    assert_eq!(at(1, 8), &[80, 200, 80, 255]);
    // Same disc as the floating-point test in the icon's definition.
    for y in 0..16 {
        for x in 0..16 {
            let dx = x as f32 - 8.0 + 0.5;
            let dy = y as f32 - 8.0 + 0.5;
            let inside = (dx * dx + dy * dy).sqrt() < 7.0;
            assert_eq!(at(x, y)[3] == 255, inside);
        }
    }
}

#[test]
fn decimal_text() {
    assert_eq!(decimal_string(0), "0");
    assert_eq!(decimal_string(18446744073709551615), "18446744073709551615");
    assert_eq!(parse_unsigned_decimal("+42", 100), Some(42));
    assert_eq!(parse_unsigned_decimal("101", 100), None);
    assert_eq!(parse_unsigned_decimal("+", 100), None);
    assert_eq!(parse_unsigned_decimal("1_0", 100), None);
}

#[test]
fn login_form_request() {
    let inputs = list_input_devices(&vec![Some("Mic".to_string()), Some("Headset".to_string())]);
    let outputs = list_output_devices(&vec![Some("Speakers".to_string())]);
    let q = login_request("10.0.0.1:7480", " bob ", " gaming ", "", &inputs, 2, &outputs, 0).unwrap();
    assert_eq!(q.server_addr, "10.0.0.1:7480");
    assert_eq!(q.username, "bob");
    assert_eq!(q.room, "gaming");
    assert_eq!(q.password, None);
    assert_eq!(q.input_device, Some(1));
    assert_eq!(q.output_device, None);
    let q = login_request("h", "bob", "r", " pw ", &inputs, 9, &outputs, 1).unwrap();
    assert_eq!(q.password, Some(" pw ".to_string()));
    assert_eq!(q.input_device, None);
    assert_eq!(q.output_device, Some(0));
    assert_eq!(
        login_request("h", " ", "r", "", &inputs, 0, &outputs, 0).err(),
        Some("username required".to_string())
    );
}

#[test]
fn join_reply_meaning() {
    let ok = join_outcome(Some(ServerMessage::RoomState {
        room: "g".to_string(),
        users: vec!["a".to_string()],
    }));
    assert_eq!(ok, Ok(("g".to_string(), vec!["a".to_string()])));
    assert_eq!(
        join_outcome(Some(ServerMessage::Error { message: "incorrect room password".to_string() })),
        Err("incorrect room password".to_string())
    );
    assert_eq!(
        join_outcome(Some(ServerMessage::UserLeft { username: "x".to_string() })),
        Err("unexpected server response".to_string())
    );
    assert_eq!(join_outcome(None), Err("unexpected server response".to_string()));
}

#[test]
fn room_key_needs_password() {
    assert_eq!(room_key(None), None);
    assert_eq!(room_key(Some("")), None);
    assert_eq!(room_key(Some("pw")), Some(derive_key("pw")));
}

#[test]
fn capture_takes_first_key_then_mouse() {
    assert_eq!(capture_any_input(&vec![Key::B, Key::A], &vec![true, true, true]), Some(PttBind::Key(Key::B)));
    assert_eq!(capture_any_input(&vec![], &vec![false, true, false, false, true]), Some(PttBind::Mouse(4)));
    assert_eq!(capture_any_input(&vec![], &vec![true, true]), None);
    assert_eq!(capture_any_input(&vec![], &vec![]), None);
}

#[test]
fn push_to_talk_held() {
    assert!(bind_pressed(PttBind::Key(Key::V), &vec![Key::LShift, Key::V], &vec![]));
    assert!(!bind_pressed(PttBind::Key(Key::V), &vec![Key::B], &vec![]));
    assert!(bind_pressed(PttBind::Mouse(4), &vec![], &vec![false, false, false, false, true]));
    assert!(!bind_pressed(PttBind::Mouse(5), &vec![], &vec![false, false, false, false, true]));
}

fn flags(deafened: bool, muted: bool, open_mic: bool, ptt_active: bool, vad_active: bool) -> VoiceFlags {
    VoiceFlags { deafened, muted, open_mic, ptt_active, vad_active }
}

#[test]
fn voice_status_texts() {
    assert_eq!(voice_status(None), "No Audio");
    assert_eq!(voice_status(Some(flags(true, true, true, true, true))), "DEAFENED");
    assert_eq!(voice_status(Some(flags(false, true, true, true, true))), "MUTED");
    assert_eq!(voice_status(Some(flags(false, false, true, true, false))), "Open Mic");
    assert_eq!(voice_status(Some(flags(false, false, false, true, false))), "PTT Active");
    assert_eq!(voice_status(Some(flags(false, false, false, false, false))), "PTT Ready");
}

#[test]
fn transmit_indicator_texts() {
    let t = |open: bool, f: VoiceFlags| transmit_indicator(open, f);
    assert_eq!(t(true, flags(false, false, true, false, true)), Some(">> TRANSMITTING".to_string()));
    assert_eq!(t(true, flags(false, false, true, false, false)), Some("Open Mic (silent)".to_string()));
    assert_eq!(t(false, flags(false, false, false, true, false)), Some(">> TRANSMITTING".to_string()));
    assert_eq!(t(false, flags(false, false, false, false, true)), None);
    assert_eq!(t(true, flags(false, true, true, true, true)), None);
    assert_eq!(t(false, flags(true, false, false, true, false)), None);
}

#[test]
fn status_bar_texts() {
    assert_eq!(latency_text(Some(42)), "42ms");
    assert_eq!(latency_text(None), "...");
    assert_eq!(
        reconnect_status(ReconnectState::Reconnecting { attempt: 3, next_try_ms: 0, started_ms: 0 }),
        Some("Reconnecting (attempt 3)...".to_string())
    );
    assert_eq!(reconnect_status(ReconnectState::Connected), None);
    assert_eq!(reconnect_status(ReconnectState::GaveUp), None);
    assert_eq!(roster_entry("bob", "bob"), "bob (you)");
    assert_eq!(roster_entry("alice", "bob"), "alice");
}

#[test]
fn login_form_restored_from_settings() {
    let inputs = list_input_devices(&vec![Some("Mic".to_string()), Some("Headset".to_string())]);
    let outputs = list_output_devices(&vec![Some("Speakers".to_string())]);
    let form = LoginForm::restore(
        SavedLogin { server_addr: None, username: None, room: None, input_device: None, output_device: None },
        &inputs,
        &outputs,
    );
    assert_eq!(form.server_addr, "127.0.0.1:7480");
    assert_eq!(form.username, "");
    assert_eq!(form.room, "general");
    assert_eq!(form.password, "");
    assert_eq!((form.selected_input, form.selected_output), (0, 0));
    let form = LoginForm::restore(
        SavedLogin {
            server_addr: Some("10.0.0.2:7480".to_string()),
            username: Some("bob".to_string()),
            room: Some("lan".to_string()),
            input_device: Some("Headset".to_string()),
            output_device: Some("Gone".to_string()),
        },
        &inputs,
        &outputs,
    );
    assert_eq!(form.server_addr, "10.0.0.2:7480");
    assert_eq!(form.username, "bob");
    assert_eq!(form.room, "lan");
    assert_eq!((form.selected_input, form.selected_output), (2, 0));
}

#[test]
fn login_form_device_names() {
    let inputs = list_input_devices(&vec![Some("Mic".to_string()), Some("Mic".to_string())]);
    assert_eq!(device_position(&inputs, "Mic"), Some(1));
    assert_eq!(device_position(&inputs, "None"), None);
    assert_eq!(device_label(&inputs, 0), "System Default");
    assert_eq!(device_label(&inputs, 5), "Unknown");
    assert_eq!(selected_device_name(&inputs, 2), Some("Mic".to_string()));
    assert_eq!(selected_device_name(&inputs, 3), None);
}

#[test]
fn capture_pacing() {
    let mut p = CapturePacer::new(1000);
    assert_eq!(p.next_step(1000), CaptureStep::Sleep);
    assert_eq!(p.next_step(1032), CaptureStep::Sleep);
    assert_eq!(p.next_step(1033), CaptureStep::Capture);
    assert_eq!(p.next_step(500), CaptureStep::Sleep);
    assert_eq!(p.frame_sent(1033), 1);
    assert_eq!(p.next_step(1065), CaptureStep::Sleep);
    assert_eq!(p.next_step(1066), CaptureStep::Capture);
    let mut q = CapturePacer { last_frame_ms: 0, frame_id: u32::MAX };
    assert_eq!(q.frame_sent(40), 0);
}

#[test]
fn backoff_law_on_values() {
    let mut prev = 0;
    for a in 0..40u32 {
        let d = reconnect_delay_secs(a);
        assert!(d >= prev && (1..=30).contains(&d));
        prev = d;
    }
}

#[test]
fn chat_room_gave_up_notice() {
    let mut room = ChatRoom::joined(vec![], "bob", false);
    room.note_gave_up();
    assert_eq!(room.messages.len(), 1);
    assert_eq!(room.messages[0].from, "system");
    assert_eq!(room.messages[0].text, "Reconnection failed. Returning to login...");
    assert_eq!(room.users, vec!["bob".to_string()]);
}

#[test]
fn jitter_drops_lowest_when_full() {
    let mut b = UserBuffer::new();
    for s in 10..30u16 {
        b.insert(s, vec![s as u8]);
    }
    // Full with 10..=29; a late, lower packet is the one dropped.
    b.insert(5, vec![5]);
    // Playback starts at 10, which is still held.
    assert_eq!(decoded(b.next_step()), Some(vec![10]));
    b.finish_step(true);
    // Back to twenty with 30; then 31 pushes out the lowest held, 11.
    b.insert(30, vec![30]);
    b.insert(31, vec![31]);
    assert!(matches!(b.next_step(), FrameStep::Conceal));
    b.finish_step(true);
    assert_eq!(decoded(b.next_step()), Some(vec![12]));
}

#[test]
fn ping_and_status_line() {
    assert_eq!(ping_latency(1_000_050, 1_000_000), 50);
    assert_eq!(ping_latency(5, 10), 0);
    let line = status_line(&None, "PTT Ready", "bob", "gaming", 3, "0.0", "42ms");
    assert_eq!(line, "PTT Ready bob · Room: gaming · 3 online · Loss: 0.0% · Ping: 42ms");
    let notice = Some("Reconnecting (attempt 2)...".to_string());
    assert_eq!(status_line(&notice, "x", "y", "z", 0, "0", "0"), "Reconnecting (attempt 2)...");
}
