use vectorcom::admin::{apply_admin_local, apply_admin_local_at, Muted};
use vectorcom::protocol::{ClientMessage, ServerMessage};
use vectorcom::session::{
    can_welcome, depart_at, handle_payload, handle_payload_at, handle_payload_from,
    handle_payload_from_at, handle_request_at, name_from_payload, read_requests, session_name,
    welcome_client, welcome_client_at, Admission,
};
use vectorcom::state::{ClientId, Delivery, ServerState};

fn enter(s: &mut ServerState, name: &str) -> ClientId {
    match welcome_client_at(s, name, "peer", 1) {
        Admission::Admitted { id, .. } => id,
        other => panic!("{:?}", other),
    }
}

#[test]
fn names_are_read_from_the_first_frame() {
    assert_eq!(name_from_payload(b"alice\r\n\n"), Some("alice".to_string()));
    assert_eq!(name_from_payload(b"\r\n"), Some("Anonymous".to_string()));
    assert_eq!(name_from_payload(b""), Some("Anonymous".to_string()));
    assert_eq!(name_from_payload(&[b'a', 0xff]), Some("a\u{fffd}".to_string()));
    assert_eq!(session_name(&"a".repeat(70)), Some("a".repeat(63)));
    assert_eq!(session_name(&"é".repeat(32)), None);
    assert_eq!(session_name(&format!("a{}", "é".repeat(32))), Some(format!("a{}", "é".repeat(31))));
}

#[test]
fn clients_are_welcomed() {
    let mut s = ServerState::new();
    enter(&mut s, "alice");
    match welcome_client_at(&mut s, "bob", "1.2.3.4:5", 8) {
        Admission::Admitted { id, deliveries } => {
            assert_eq!(id, ClientId(2));
            assert_eq!(deliveries.len(), 2);
            assert_eq!(deliveries[0].to, ClientId(2));
            match &deliveries[0].msg {
                ServerMessage::Welcome { username, room, motd } => {
                    assert_eq!(username, "bob");
                    assert_eq!(room, "general");
                    assert_eq!(motd, "Welcome to Vectorcom. Type /help for commands.");
                }
                other => panic!("{:?}", other),
            }
            assert_eq!(deliveries[1].to, ClientId(1));
            assert!(matches!(deliveries[1].msg, ServerMessage::UserJoined { .. }));
        }
        other => panic!("{:?}", other),
    }
    let log = s.snapshot().log;
    assert_eq!(log[1].text, "+ bob (2) joined from 1.2.3.4:5");
    assert_eq!(log[1].ts, 8);
}

#[test]
fn clients_are_refused() {
    let mut s = ServerState::new();
    enter(&mut s, "alice");
    match welcome_client(&mut s, "alice", "peer") {
        Admission::Refused { reply, reason } => {
            assert_eq!(reason, "register failed: username already in use");
            match reply {
                ServerMessage::Error { text } => assert_eq!(text, "username already in use"),
                other => panic!("{:?}", other),
            }
        }
        other => panic!("{:?}", other),
    }
    match welcome_client(&mut s, "a b", "peer") {
        Admission::Refused { reason, .. } => {
            assert_eq!(
                reason,
                "bad username: username may not contain whitespace or control characters"
            );
        }
        other => panic!("{:?}", other),
    }
    assert_eq!(s.snapshot().log.len(), 1);
    assert_eq!(s.snapshot().total_connections, 1);
}

#[test]
fn sessions_leave_no_trace() {
    let mut s = ServerState::new();
    let a = enter(&mut s, "alice");
    let b = enter(&mut s, "bob");
    let told = depart_at(&mut s, b, "bob", 9);
    assert_eq!(told.len(), 1);
    assert_eq!(told[0].to, a);
    let snap = s.snapshot();
    assert_eq!(snap.users, vec![("alice".to_string(), "general".to_string())]);
    assert_eq!(snap.log.last().unwrap().text, "- bob (2) left");
}

#[test]
fn requests_are_read_line_by_line() {
    let list = read_requests("hello\r\n\n   \n /join x \n/quit\n/list\n");
    let shown: Vec<String> = list.iter().map(|m| format!("{:?}", m)).collect();
    assert_eq!(
        shown,
        vec![
            format!("{:?}", ClientMessage::Say { text: "hello".into() }),
            format!("{:?}", ClientMessage::Join { room: "x".into() }),
            format!("{:?}", ClientMessage::Quit),
        ]
    );
    assert!(read_requests("").is_empty());
}

#[test]
fn payloads_are_carried_out() {
    let mut s = ServerState::new();
    let a = enter(&mut s, "alice");
    let b = enter(&mut s, "bob");
    let served = handle_payload_at(&mut s, a, b"hi\n/join attic\n/block bob\n/unblock bob\n/pm bob yo", 4).unwrap();
    assert!(!served.quit);
    let shown: Vec<(u64, String)> =
        served.deliveries.iter().map(|d| (d.to.0, format!("{:?}", d.msg))).collect();
    assert_eq!(shown.len(), 6);
    assert_eq!(shown[0].0, b.0);
    assert_eq!(shown[1].0, b.0);
    assert_eq!(shown[2], (a.0, format!("{:?}", ServerMessage::Joined { room: "attic".into() })));
    assert_eq!(
        shown[5],
        (b.0, format!("{:?}", ServerMessage::Pm { from: "alice".into(), text: "yo".into(), ts: 4 }))
    );
    assert_eq!(s.snapshot().total_messages, 5);
    let served = handle_payload(&mut s, a, b"/quit\nhi").unwrap();
    assert!(served.quit);
    assert!(served.deliveries.is_empty());
    assert_eq!(s.snapshot().total_messages, 6);
}

#[test]
fn long_payloads_are_refused() {
    let mut s = ServerState::new();
    let a = enter(&mut s, "alice");
    let served = handle_payload(&mut s, a, &vec![b'x'; 8 * 1024 + 1]).unwrap();
    assert_eq!(served.deliveries.len(), 1);
    match &served.deliveries[0].msg {
        ServerMessage::Error { text } => assert_eq!(text, "message too large"),
        other => panic!("{:?}", other),
    }
    assert_eq!(s.snapshot().total_messages, 0);
    let served = handle_payload(&mut s, a, &vec![b'x'; 8 * 1024]).unwrap();
    assert!(served.deliveries.is_empty());
    assert_eq!(s.snapshot().total_messages, 1);
}

#[test]
fn a_hello_is_passed_over() {
    let mut s = ServerState::new();
    let a = enter(&mut s, "alice");
    let hello = ClientMessage::Hello { username: "x".into(), version: 1 };
    assert!(handle_request_at(&mut s, a, hello, 1).is_empty());
}

#[test]
fn admin_commands_are_carried_out() {
    let mut s = ServerState::new();
    let mut muted = Muted::new();
    let a = enter(&mut s, "alice");
    let b = enter(&mut s, "bob");
    s.handle_join(b, "attic".into());
    let shown = |list: &[Delivery]| -> Vec<(u64, String)> {
        list.iter().map(|d| (d.to.0, format!("{:?}", d.msg))).collect()
    };
    let notice = |text: &str| format!("{:?}", ServerMessage::System { text: text.into(), ts: 2 });
    let told = apply_admin_local_at(&mut s, &mut muted, " say  hello ", 2);
    assert_eq!(shown(&told), vec![(a.0, notice(" hello")), (b.0, notice(" hello"))]);
    let told = apply_admin_local_at(&mut s, &mut muted, " back at  5 ", 2);
    assert_eq!(shown(&told), vec![(a.0, notice("back at  5")), (b.0, notice("back at  5"))]);
    assert!(apply_admin_local_at(&mut s, &mut muted, "block  bob ", 2).is_empty());
    assert!(muted.contains("bob") && !muted.contains("alice"));
    assert!(apply_admin_local(&mut s, &mut muted, "unblock bob").is_empty());
    assert!(!muted.contains("bob"));
    assert!(apply_admin_local_at(&mut s, &mut muted, "   ", 2).is_empty());
    let log: Vec<String> = s.snapshot().log.iter().skip(2).map(|l| l.text.clone()).collect();
    assert_eq!(
        log,
        vec![
            "[admin] say:  hello",
            "[admin] say: back at  5",
            "[admin] blocked: bob",
            "[admin] unblocked: bob",
        ]
    );
}

#[test]
fn nobody_hears_a_muted_user() {
    let mut s = ServerState::new();
    let mut muted = Muted::new();
    let a = enter(&mut s, "alice");
    let b = enter(&mut s, "bob");
    apply_admin_local(&mut s, &mut muted, "block bob");
    let sent = b"hi\n/pm alice psst\n/rooms\n/join attic\n/join general";
    let served = handle_payload_from_at(&mut s, &muted, b, "bob", sent, 4).unwrap();
    assert!(!served.quit);
    assert_eq!(served.deliveries[0].to, b);
    assert_eq!(served.deliveries[1].to, a);
    assert!(served
        .deliveries
        .iter()
        .all(|d| !matches!(d.msg, ServerMessage::Chat { .. } | ServerMessage::Pm { .. })));
    assert_eq!(s.snapshot().total_messages, 3);
    let served = handle_payload_from_at(&mut s, &muted, a, "alice", b"hi", 4).unwrap();
    assert_eq!(served.deliveries.len(), 1);
    assert_eq!(served.deliveries[0].to, b);
    let long = handle_payload_from(&mut s, &muted, b, "bob", &vec![b'x'; 8 * 1024 + 1]).unwrap();
    assert_eq!(long.deliveries.len(), 1);
    apply_admin_local(&mut s, &mut muted, "unblock bob");
    let served = handle_payload_from(&mut s, &muted, b, "bob", b"hi").unwrap();
    assert_eq!(served.deliveries.len(), 1);
    assert_eq!(served.deliveries[0].to, a);
    apply_admin_local(&mut s, &mut muted, "block bob");
    assert!(handle_payload_from(&mut s, &muted, b, "bob", b"hi\n/quit").unwrap().quit);
}

#[test]
fn there_is_room_for_a_client() {
    let mut s = ServerState::new();
    assert!(can_welcome(&s, "alice"));
    enter(&mut s, "alice");
    assert!(s.has_name("alice") && !s.has_name("bob"));
    assert!(can_welcome(&s, "alice") && can_welcome(&s, "bob") && can_welcome(&s, ""));
}
