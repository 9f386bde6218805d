use prinny_shell::rich_presence::activities::Activities;
use prinny_shell::rich_presence::bridge::{BridgeStarted, RichPresenceBridge, SlotSearch, MAX_SLOTS};
use prinny_shell::rich_presence::frame::{encode_frame, parse_frame, FrameParse, MAX_FRAME, OP_FRAME, OP_PING};
use prinny_shell::rich_presence::echo::{stamp_activity, ActivityIn, EchoData, JsonMember};
use prinny_shell::rich_presence::session::{CloseReason, Inbound, Outbound, RpcSession, VersionField};
use prinny_shell::rich_presence::{pipe, unix};

#[test]
fn frame_round_trip() {
    let body = br#"{"cmd":"SET_ACTIVITY"}"#;
    let mut bytes = encode_frame(OP_FRAME, body);
    assert_eq!(&bytes[..8], &[1, 0, 0, 0, body.len() as u8, 0, 0, 0]);
    bytes.extend_from_slice(b"trailing");
    assert_eq!(parse_frame(&bytes), FrameParse::Complete { op: OP_FRAME, body_len: body.len() });
    assert_eq!(&bytes[8..8 + body.len()], body);
    let empty = encode_frame(OP_PING, b"");
    assert_eq!(empty, vec![3, 0, 0, 0, 0, 0, 0, 0]);
    assert_eq!(parse_frame(&empty), FrameParse::Complete { op: OP_PING, body_len: 0 });
}

#[test]
fn frame_errors() {
    assert_eq!(parse_frame(&[1, 0, 0]), FrameParse::Incomplete);
    assert_eq!(parse_frame(&[1, 0, 0, 0, 5, 0, 0, 0, b'a']), FrameParse::Incomplete);
    assert_eq!(parse_frame(&[5, 0, 0, 0, 0, 0, 0, 0]), FrameParse::Invalid { op: 5, len: 0 });
    assert_eq!(parse_frame(&[255, 255, 255, 255, 0, 0, 0, 0]), FrameParse::Invalid { op: -1, len: 0 });
    assert_eq!(parse_frame(&[1, 0, 0, 0, 255, 255, 255, 255]), FrameParse::Invalid { op: 1, len: -1 });
    let big = (MAX_FRAME as u32 + 1).to_le_bytes();
    assert_eq!(
        parse_frame(&[1, 0, 0, 0, big[0], big[1], big[2], big[3]]),
        FrameParse::TooLarge { size: MAX_FRAME + 1 }
    );
}

#[test]
fn latest_activity_wins() {
    let mut a = Activities::new();
    assert_eq!(a.current(), None);
    a.connect(1);
    a.connect(2);
    a.set_activity(1, Some("one".to_string()));
    assert_eq!(a.current().as_deref(), Some("one"));
    a.set_activity(2, Some("two".to_string()));
    assert_eq!(a.current().as_deref(), Some("two"));
    a.set_activity(1, Some("one again".to_string()));
    assert_eq!(a.current().as_deref(), Some("one again"));
    // clearing falls back to the next most recent
    a.set_activity(1, None);
    assert_eq!(a.current().as_deref(), Some("two"));
    a.disconnect(2);
    assert_eq!(a.current(), None);
}

#[test]
fn disconnect_same_as_clear() {
    let mut a = Activities::new();
    let mut b = Activities::new();
    for x in [&mut a, &mut b] {
        x.connect(1);
        x.connect(2);
        x.set_activity(1, Some("one".to_string()));
        x.set_activity(2, Some("two".to_string()));
    }
    a.disconnect(2);
    b.set_activity(2, None);
    assert_eq!(a.current(), b.current());
    assert_eq!(a.current().as_deref(), Some("one"));
}

fn handshake(v: Option<VersionField>, id: Option<&str>) -> Inbound {
    Inbound::Handshake { version: v, client_id: id.map(str::to_string) }
}

fn set_activity(activity: Option<&str>) -> Inbound {
    Inbound::Frame {
        cmd: Some("SET_ACTIVITY".to_string()),
        activity: activity.map(|t| ActivityIn { text: t.to_string(), members: None }),
        nonce: "null".to_string(),
    }
}

fn text(s: &str) -> JsonMember {
    JsonMember::Text(s.to_string())
}

fn json(s: &str) -> JsonMember {
    JsonMember::Json(s.to_string())
}

fn members_text(ms: &[(String, JsonMember)]) -> Vec<(String, String)> {
    ms.iter()
        .map(|(k, m)| {
            let v = match m {
                JsonMember::Text(s) => format!("text:{s}"),
                JsonMember::Json(s) => format!("json:{s}"),
            };
            (k.clone(), v)
        })
        .collect()
}

#[test]
fn session_flow() {
    let mut acts = Activities::new();
    acts.connect(7);
    let mut s = RpcSession::new(7);

    let r = s.on_message(&mut acts, set_activity(Some("{}")));
    assert!(matches!(r.send, Some(Outbound::Close(CloseReason::HandshakeRequired))));
    assert!(r.end);

    let r = s.on_message(&mut acts, Inbound::Ping);
    assert!(matches!(r.send, Some(Outbound::Pong)) && !r.end);

    let r = s.on_message(&mut acts, handshake(Some(VersionField::Text("1".to_string())), Some("123")));
    assert!(matches!(r.send, Some(Outbound::Ready)) && !r.end && !r.publish);

    let r = s.on_message(&mut acts, set_activity(Some(r#""just text""#)));
    match r.send {
        Some(Outbound::ActivitySet { data: Some(EchoData::Verbatim(t)), .. }) => assert_eq!(t, r#""just text""#),
        _ => panic!("a non-object activity is echoed as it came"),
    }

    let activity = ActivityIn {
        text: r#"{"details":"x","name":"Game","type":2}"#.to_string(),
        members: Some(vec![
            ("details".to_string(), text("x")),
            ("name".to_string(), text("Game")),
            ("type".to_string(), json("2")),
        ]),
    };
    let frame = Inbound::Frame { cmd: Some("SET_ACTIVITY".to_string()), activity: Some(activity), nonce: r#""n1""#.to_string() };
    let r = s.on_message(&mut acts, frame);
    assert!(r.publish && !r.end);
    match r.send {
        Some(Outbound::ActivitySet { cmd, data: Some(EchoData::Object(ms)), nonce }) => {
            assert_eq!(cmd, "SET_ACTIVITY");
            assert_eq!(nonce, r#""n1""#);
            assert_eq!(
                members_text(&ms),
                vec![
                    ("details".to_string(), "text:x".to_string()),
                    ("name".to_string(), "text:".to_string()),
                    ("type".to_string(), "json:2".to_string()),
                    ("application_id".to_string(), "text:123".to_string()),
                ]
            );
        }
        _ => panic!("expected the SET_ACTIVITY reply"),
    }
    // the stored and published activity is the one sent, unstamped
    assert_eq!(acts.current().as_deref(), Some(r#"{"details":"x","name":"Game","type":2}"#));

    let r = s.on_message(&mut acts, set_activity(None));
    assert!(matches!(r.send, Some(Outbound::ActivitySet { data: None, .. })) && r.publish);
    assert_eq!(acts.current(), None);

    let r = s.on_message(
        &mut acts,
        Inbound::Frame { cmd: Some("SUBSCRIBE".to_string()), activity: None, nonce: "7".to_string() },
    );
    assert!(matches!(r.send, Some(Outbound::Ack { ref cmd, ref nonce }) if cmd == "SUBSCRIBE" && nonce == "7") && !r.publish);

    let r = s.on_message(&mut acts, Inbound::Pong);
    assert!(r.send.is_none() && !r.end);
    let r = s.on_message(&mut acts, Inbound::Close);
    assert!(r.send.is_none() && r.end);
}

#[test]
fn handshake_refusals() {
    let mut acts = Activities::new();
    let mut s = RpcSession::new(1);
    let r = s.on_message(&mut acts, handshake(Some(VersionField::Int(2)), Some("id")));
    assert!(matches!(r.send, Some(Outbound::Close(CloseReason::UnsupportedVersion))) && r.end);
    let r = s.on_message(&mut acts, handshake(Some(VersionField::Text("x".to_string())), None));
    assert!(matches!(r.send, Some(Outbound::Close(CloseReason::ClientIdRequired))) && r.end);
    let r = s.on_message(&mut acts, handshake(None, Some("")));
    assert!(matches!(r.send, Some(Outbound::Close(CloseReason::ClientIdRequired))));
    let r = s.on_message(&mut acts, handshake(Some(VersionField::Text("+1".to_string())), Some("a")));
    assert!(matches!(r.send, Some(Outbound::Ready)));
    assert_eq!(CloseReason::UnsupportedVersion.code(), 4004);
    assert_eq!(CloseReason::ClientIdRequired.code(), 4000);
    assert_eq!(CloseReason::HandshakeRequired.code(), 1003);
    assert_eq!(CloseReason::Normal.code(), 1000);
    assert_eq!(CloseReason::HandshakeRequired.message(), "handshake required");
    assert_eq!(CloseReason::UnsupportedVersion.message(), "unsupported version");
}

#[test]
fn stamping_defaults_type_and_sets_ids() {
    let out = stamp_activity(vec![("state".to_string(), text("s"))], &"42".to_string());
    assert_eq!(
        members_text(&out),
        vec![
            ("state".to_string(), "text:s".to_string()),
            ("name".to_string(), "text:".to_string()),
            ("application_id".to_string(), "text:42".to_string()),
            ("type".to_string(), "json:0".to_string()),
        ]
    );
    let out = stamp_activity(vec![("application_id".to_string(), json("9"))], &"42".to_string());
    assert_eq!(
        members_text(&out),
        vec![
            ("application_id".to_string(), "text:42".to_string()),
            ("name".to_string(), "text:".to_string()),
            ("type".to_string(), "json:0".to_string()),
        ]
    );
}

#[test]
fn slot_search_tries_ten_slots() {
    let mut s = SlotSearch::new();
    let mut seen = Vec::new();
    while let Some(slot) = s.candidate() {
        seen.push(slot);
        s.on_busy();
    }
    assert_eq!(seen, (0..MAX_SLOTS).collect::<Vec<_>>());
}

#[test]
fn bridge_keeps_first_install() {
    let mut b: RichPresenceBridge<&'static str> = RichPresenceBridge::new();
    assert!(b.current().is_none());
    let first = b.install(BridgeStarted { path: "/run/discord-ipc-0".to_string(), index: 0 }, "h0").unwrap();
    assert_eq!((first.path.as_str(), first.index), ("/run/discord-ipc-0", 0));
    match b.install(BridgeStarted { path: "/run/discord-ipc-1".to_string(), index: 1 }, "h1") {
        Err((h, held)) => {
            assert_eq!(h, "h1");
            assert_eq!(held.index, 0);
        }
        Ok(_) => panic!("second install must be refused"),
    }
    assert_eq!(b.current().unwrap().path, "/run/discord-ipc-0");
    assert_eq!(b.take(), Some("h0"));
    assert!(b.current().is_none());
    assert_eq!(b.take(), None);
}

#[test]
fn endpoint_paths() {
    assert_eq!(pipe::socket_path(3).unwrap(), r"\\?\pipe\discord-ipc-3");
    pipe::remove_stale(r"\\?\pipe\discord-ipc-3");
    assert_eq!(unix::socket_path(Some("/run/user/1000"), 0).unwrap(), "/run/user/1000/discord-ipc-0");
    assert_eq!(unix::socket_path(Some("/tmp/"), 9).unwrap(), "/tmp/discord-ipc-9");
    assert_eq!(unix::socket_path(None, 0), None);
    assert!(unix::dir_is_private(true, 0o700));
    assert!(unix::dir_is_private(true, 0o40700));
    assert!(!unix::dir_is_private(true, 0o750));
    assert!(!unix::dir_is_private(true, 0o701));
    assert!(!unix::dir_is_private(false, 0o700));
}
