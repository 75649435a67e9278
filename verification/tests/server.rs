use voicechat::config::{EnvOverrides, ServerConfig, DEFAULT_MAX_ROOMS};
use voicechat::protocol::{ClientMessage, ServerMessage, DEFAULT_PORT, DEFAULT_VOICE_PORT, MAX_ROOM_USERS};
use voicechat::relay::{Endpoint, VoiceRelay};
use voicechat::room::{JoinError, RoomManager};
use voicechat::session::{Outgoing, Phase, Session, SessionEvent};
use voicechat::voice::build_packet;

fn no_env() -> EnvOverrides {
    EnvOverrides {
        bind_addr: None,
        port: None,
        voice_port: None,
        max_users: None,
        max_rooms: None,
        server_name: None,
    }
}

fn join_msg(user: &str, room: &str, pw: Option<&str>) -> SessionEvent {
    SessionEvent::Message {
        msg: ClientMessage::Join {
            username: user.to_string(),
            room: room.to_string(),
            password: pw.map(|p| p.to_string()),
        },
        now_secs: 0,
    }
}

fn sorted(mut v: Vec<u64>) -> Vec<u64> {
    v.sort();
    v
}

#[test]
fn room_first_join_creates_room() {
    let mut rooms = RoomManager::new();
    assert_eq!(rooms.join("gaming", "alice", None), Ok(vec![]));
    rooms.subscribe("gaming", "alice", 1);
    assert_eq!(rooms.join("gaming", "bob", None), Ok(vec!["alice".to_string()]));
}

#[test]
fn room_password_is_checked() {
    let mut rooms = RoomManager::new();
    assert_eq!(rooms.join("vip", "alice", Some("secret")), Ok(vec![]));
    rooms.subscribe("vip", "alice", 1);
    assert_eq!(rooms.join("vip", "bob", None), Err(JoinError::IncorrectPassword));
    assert_eq!(rooms.join("vip", "bob", Some("wrong")), Err(JoinError::IncorrectPassword));
    assert_eq!(rooms.join("vip", "bob", Some("secret")), Ok(vec!["alice".to_string()]));
    assert_eq!(JoinError::IncorrectPassword.message(), "incorrect room password");
}

#[test]
fn room_without_password_admits_any_password() {
    let mut rooms = RoomManager::new();
    assert_eq!(rooms.join("open", "alice", None), Ok(vec![]));
    assert_eq!(rooms.join("open", "bob", Some("whatever")), Ok(vec![]));
}

#[test]
fn room_name_taken() {
    let mut rooms = RoomManager::new();
    rooms.join("r", "alice", None).unwrap();
    rooms.subscribe("r", "alice", 1);
    let e = rooms.join("r", "alice", None).unwrap_err();
    assert_eq!(e, JoinError::UsernameTaken("alice".to_string()));
    assert_eq!(e.message(), "username 'alice' already taken in this room");
}

#[test]
fn room_is_full_at_ten() {
    let mut rooms = RoomManager::new();
    for i in 0..MAX_ROOM_USERS {
        let name = format!("u{i}");
        rooms.join("r", &name, None).unwrap();
        rooms.subscribe("r", &name, i as u64);
    }
    let e = rooms.join("r", "late", None).unwrap_err();
    assert_eq!(e, JoinError::RoomFull);
    assert_eq!(e.message(), "room is full (max 10)");
}

#[test]
fn room_broadcast_skips_sender() {
    let mut rooms = RoomManager::new();
    for (i, n) in ["a", "b", "c"].iter().enumerate() {
        rooms.join("r", n, None).unwrap();
        rooms.subscribe("r", n, 10 + i as u64);
    }
    assert_eq!(sorted(rooms.broadcast("r", "b")), vec![10, 12]);
    assert_eq!(sorted(rooms.broadcast("r", "nobody")), vec![10, 11, 12]);
    assert_eq!(rooms.broadcast("other", "a"), Vec::<u64>::new());
}

#[test]
fn room_leave_removes_member_and_empty_room() {
    let mut rooms = RoomManager::new();
    rooms.join("r", "a", Some("pw")).unwrap();
    rooms.subscribe("r", "a", 1);
    rooms.leave("r", "a");
    // The room is gone, so its password went with it.
    assert_eq!(rooms.join("r", "b", None), Ok(vec![]));
}

#[test]
fn room_subscribe_replaces_connection() {
    let mut rooms = RoomManager::new();
    rooms.join("r", "a", None).unwrap();
    rooms.subscribe("r", "a", 1);
    rooms.subscribe("r", "a", 2);
    rooms.subscribe("r", "b", 3);
    assert_eq!(rooms.broadcast("r", "b"), vec![2]);
}

#[test]
fn session_join_then_chat_then_leave() {
    let mut rooms = RoomManager::new();
    let mut alice = Session::new(1);
    let out = alice.step(&mut rooms, join_msg("alice", "g", None));
    assert_eq!(out.len(), 2);
    assert!(matches!(&out[0], Outgoing::Reply(ServerMessage::RoomState { room, users }) if room == "g" && users.is_empty()));
    assert!(matches!(&out[1], Outgoing::Deliver { to, msg: ServerMessage::UserJoined { username } } if to.is_empty() && username == "alice"));
    assert!(matches!(&alice.phase, Phase::Joined { username, room } if username == "alice" && room == "g"));

    let mut bob = Session::new(2);
    let out = bob.step(&mut rooms, join_msg("bob", "g", None));
    assert!(matches!(&out[0], Outgoing::Reply(ServerMessage::RoomState { users, .. }) if users == &vec!["alice".to_string()]));
    assert!(matches!(&out[1], Outgoing::Deliver { to, .. } if to == &vec![1]));

    let out = bob.step(
        &mut rooms,
        SessionEvent::Message { msg: ClientMessage::Chat { text: "gg".to_string() }, now_secs: 1707 },
    );
    assert_eq!(out.len(), 1);
    assert!(matches!(&out[0], Outgoing::Deliver { to, msg: ServerMessage::Chat { from, text, ts } }
        if to == &vec![1] && from == "bob" && text == "gg" && *ts == 1707));

    let out = bob.step(&mut rooms, SessionEvent::Message { msg: ClientMessage::Leave, now_secs: 1708 });
    assert_eq!(out.len(), 2);
    assert!(matches!(&out[0], Outgoing::Deliver { to, msg: ServerMessage::UserLeft { username } } if to == &vec![1] && username == "bob"));
    assert!(matches!(&out[1], Outgoing::Close));
    assert!(matches!(bob.phase, Phase::Closed));
    assert_eq!(rooms.broadcast("g", "x"), vec![1]);
}

#[test]
fn session_must_join_first() {
    let mut rooms = RoomManager::new();
    let mut s = Session::new(1);
    let out = s.step(
        &mut rooms,
        SessionEvent::Message { msg: ClientMessage::Chat { text: "hi".to_string() }, now_secs: 0 },
    );
    assert_eq!(out.len(), 2);
    assert!(matches!(&out[0], Outgoing::Reply(ServerMessage::Error { message }) if message == "must join a room first"));
    assert!(matches!(&out[1], Outgoing::Close));
    assert!(s.step(&mut rooms, SessionEvent::Disconnected).is_empty());
}

#[test]
fn session_refused_join_closes() {
    let mut rooms = RoomManager::new();
    let mut a = Session::new(1);
    a.step(&mut rooms, join_msg("alice", "g", Some("pw")));
    let mut b = Session::new(2);
    let out = b.step(&mut rooms, join_msg("bob", "g", Some("nope")));
    assert!(matches!(&out[0], Outgoing::Reply(ServerMessage::Error { message }) if message == "incorrect room password"));
    assert!(matches!(&out[1], Outgoing::Close));
    assert!(matches!(b.phase, Phase::Closed));
}

#[test]
fn session_disconnect_before_join_closes() {
    let mut rooms = RoomManager::new();
    let mut s = Session::new(1);
    let out = s.step(&mut rooms, SessionEvent::Disconnected);
    assert_eq!(out.len(), 1);
    assert!(matches!(&out[0], Outgoing::Close));
}

#[test]
fn session_second_join_is_ignored() {
    let mut rooms = RoomManager::new();
    let mut s = Session::new(1);
    s.step(&mut rooms, join_msg("alice", "g", None));
    assert!(s.step(&mut rooms, join_msg("alice", "other", None)).is_empty());
    assert!(matches!(&s.phase, Phase::Joined { room, .. } if room == "g"));
}

#[test]
fn session_lost_connection_leaves_room() {
    let mut rooms = RoomManager::new();
    let mut a = Session::new(1);
    a.step(&mut rooms, join_msg("alice", "g", None));
    let mut b = Session::new(2);
    b.step(&mut rooms, join_msg("bob", "g", None));
    let out = a.step(&mut rooms, SessionEvent::Disconnected);
    assert!(matches!(&out[0], Outgoing::Deliver { to, msg: ServerMessage::UserLeft { username } } if to == &vec![2] && username == "alice"));
    assert_eq!(rooms.broadcast("g", "bob"), Vec::<u64>::new());
}

#[test]
fn config_defaults() {
    let c = ServerConfig::default();
    assert_eq!(c.bind_addr, "0.0.0.0");
    assert_eq!(c.tcp_port, DEFAULT_PORT);
    assert_eq!(c.tcp_port, 7480);
    assert_eq!(c.udp_port, DEFAULT_VOICE_PORT);
    assert_eq!(c.udp_port, 7481);
    assert_eq!(c.max_users_per_room, 10);
    assert_eq!(c.max_rooms, DEFAULT_MAX_ROOMS);
    assert_eq!(c.max_rooms, 50);
    assert_eq!(c.server_name, "voicechat-server");
}

#[test]
fn config_log_lines() {
    let lines = ServerConfig::default().log();
    assert_eq!(
        lines,
        vec![
            "=== Server Configuration ===",
            "  server_name: voicechat-server",
            "  bind_addr: 0.0.0.0",
            "  tcp_port: 7480",
            "  udp_port: 7481",
            "  max_users_per_room: 10",
            "  max_rooms: 50",
            "============================",
        ]
    );
}

#[test]
fn config_env_overrides() {
    let env = EnvOverrides {
        bind_addr: Some("127.0.0.1".to_string()),
        port: Some("9000".to_string()),
        voice_port: Some("+9001".to_string()),
        max_users: Some("4".to_string()),
        max_rooms: Some("7".to_string()),
        server_name: Some("lan".to_string()),
    };
    let c = ServerConfig::resolve(None, &env);
    assert_eq!(c.bind_addr, "127.0.0.1");
    assert_eq!(c.tcp_port, 9000);
    assert_eq!(c.udp_port, 9001);
    assert_eq!(c.max_users_per_room, 4);
    assert_eq!(c.max_rooms, 7);
    assert_eq!(c.server_name, "lan");
}

#[test]
fn config_bad_numbers_are_ignored() {
    let env = EnvOverrides {
        port: Some("70000".to_string()),
        voice_port: Some(" 80".to_string()),
        max_users: Some("-1".to_string()),
        max_rooms: Some("".to_string()),
        ..no_env()
    };
    let c = ServerConfig::resolve(None, &env);
    assert_eq!(c.tcp_port, 7480);
    assert_eq!(c.udp_port, 7481);
    assert_eq!(c.max_users_per_room, 10);
    assert_eq!(c.max_rooms, 50);
}

#[test]
fn config_file_then_env() {
    let file = ServerConfig {
        bind_addr: "10.0.0.1".to_string(),
        tcp_port: 1,
        udp_port: 2,
        max_users_per_room: 3,
        max_rooms: 4,
        server_name: "file".to_string(),
    };
    let c = ServerConfig::resolve(Some(file), &EnvOverrides { server_name: Some("env".to_string()), ..no_env() });
    assert_eq!(c.bind_addr, "10.0.0.1");
    assert_eq!(c.tcp_port, 1);
    assert_eq!(c.udp_port, 2);
    assert_eq!(c.max_users_per_room, 3);
    assert_eq!(c.max_rooms, 4);
    assert_eq!(c.server_name, "env");
}

fn ep(n: u128, port: u16) -> Endpoint {
    Endpoint { ip: n, v6: false, port }
}

#[test]
fn relay_forwards_to_room_peers_only() {
    let mut relay = VoiceRelay::new();
    assert_eq!(relay.route(&build_packet(1, 10, 0, &[1]), ep(1, 1000)), Some(vec![]));
    assert_eq!(relay.route(&build_packet(1, 11, 0, &[1]), ep(2, 1000)), Some(vec![ep(1, 1000)]));
    assert_eq!(relay.route(&build_packet(2, 12, 0, &[1]), ep(3, 1000)), Some(vec![]));
    assert_eq!(
        relay.route(&build_packet(1, 10, 1, &[1]), ep(1, 1000)),
        Some(vec![ep(2, 1000)])
    );
    assert_eq!(relay.peers(1, 99), vec![ep(1, 1000), ep(2, 1000)]);
}

#[test]
fn relay_updates_moved_sender() {
    let mut relay = VoiceRelay::new();
    relay.register(1, 10, ep(1, 1000));
    relay.register(1, 11, ep(2, 1000));
    relay.register(1, 10, ep(9, 2000));
    assert_eq!(relay.peers(1, 11), vec![ep(9, 2000)]);
}

#[test]
fn relay_drops_short_datagrams() {
    let mut relay = VoiceRelay::new();
    assert_eq!(relay.route(&[0, 1, 0, 2], ep(1, 1)), None);
    assert_eq!(relay.peers(0, 0), vec![]);
}

#[test]
fn session_room_caps_at_ten_members() {
    let mut rooms = RoomManager::new();
    let mut sessions = Vec::new();
    for i in 0..10u64 {
        let mut s = Session::new(i);
        let out = s.step(&mut rooms, join_msg(&format!("u{i}"), "g", None));
        assert!(matches!(&out[0], Outgoing::Reply(ServerMessage::RoomState { .. })));
        sessions.push(s);
    }
    let mut late = Session::new(99);
    let out = late.step(&mut rooms, join_msg("late", "g", None));
    assert!(matches!(&out[0], Outgoing::Reply(ServerMessage::Error { message }) if message == "room is full (max 10)"));
    assert_eq!(rooms.broadcast("g", "nobody").len(), 10);
    // Once someone leaves, a new member fits again.
    sessions[3].step(&mut rooms, SessionEvent::Disconnected);
    let mut again = Session::new(100);
    let out = again.step(&mut rooms, join_msg("late", "g", None));
    assert!(matches!(&out[0], Outgoing::Reply(ServerMessage::RoomState { users, .. }) if users.len() == 9));
}
