use vectorcom::net::{
    parse_line_at, render_outbound, split_first_word, strip_bracketed_timestamp, ListCollector,
};
use vectorcom::protocol::{xor_bytes, ClientMessage, ServerMessage};
use vectorcom::wire::{parse_client, render_server, render_server_at};

fn show(m: &ServerMessage) -> String {
    format!("{:?}", m)
}

fn ask(m: &ClientMessage) -> String {
    format!("{:?}", m)
}

fn requests() -> Vec<ClientMessage> {
    vec![
        ClientMessage::Say { text: "hello there".into() },
        ClientMessage::Join { room: "rust".into() },
        ClientMessage::ListUsers,
        ClientMessage::ListRooms,
        ClientMessage::Pm { to: "bob".into(), text: "hi  you".into() },
        ClientMessage::Block { username: "eve".into() },
        ClientMessage::Unblock { username: "eve".into() },
        ClientMessage::Quit,
    ]
}

#[test]
fn requests_arrive_as_they_were_made() {
    for m in requests() {
        let line = render_outbound(&m).unwrap();
        assert_eq!(ask(&parse_client(&line)), ask(&m));
    }
    let hello = ClientMessage::Hello { username: "a".into(), version: 1 };
    assert_eq!(render_outbound(&hello), None);
}

#[test]
fn request_lines_are_read() {
    assert_eq!(ask(&parse_client(" /users ")), ask(&ClientMessage::ListUsers));
    assert_eq!(ask(&parse_client("/exit")), ask(&ClientMessage::Quit));
    assert_eq!(
        ask(&parse_client("/msg bob hi")),
        ask(&ClientMessage::Pm { to: "bob".into(), text: "hi".into() })
    );
    assert_eq!(
        ask(&parse_client("/pm bob")),
        ask(&ClientMessage::Say { text: "/pm bob".into() })
    );
    assert_eq!(
        ask(&parse_client("/nope")),
        ask(&ClientMessage::Say { text: "/nope".into() })
    );
    assert_eq!(
        ask(&parse_client("/join   lobby  ")),
        ask(&ClientMessage::Join { room: "lobby".into() })
    );
}

#[test]
fn replies_are_written() {
    let at = |m: ServerMessage| render_server_at(&m, "12:34:56");
    assert_eq!(
        at(ServerMessage::Welcome { username: "a".into(), room: "general".into(), motd: "hi".into() }),
        "[SERVER] hi (room: general)\n"
    );
    assert_eq!(
        at(ServerMessage::Chat { from: "a".into(), room: "r".into(), text: "hi".into(), ts: 0 }),
        "[12:34:56] a: hi\n"
    );
    assert_eq!(
        at(ServerMessage::Pm { from: "a".into(), text: "hi".into(), ts: 0 }),
        "[PM from a] hi\n"
    );
    assert_eq!(at(ServerMessage::System { text: "note".into(), ts: 0 }), "note\n");
    assert_eq!(at(ServerMessage::Error { text: "bad".into() }), "Error: bad\n");
    assert_eq!(
        at(ServerMessage::UserList { users: vec!["a".into(), "b".into()] }),
        "Online users:\n - a\n - b\n"
    );
    assert_eq!(at(ServerMessage::RoomList { rooms: vec!["g".into()] }), "Active Rooms:\n - g\n");
    assert_eq!(at(ServerMessage::Joined { room: "g".into() }), "Joined #g\n");
    assert_eq!(
        at(ServerMessage::UserJoined { username: "a".into(), room: "g".into() }),
        "[12:34:56] a joined room g\n"
    );
    assert_eq!(
        at(ServerMessage::UserLeft { username: "a".into(), room: "g".into() }),
        "[12:34:56] a left room g\n"
    );
    let chat = ServerMessage::Chat { from: "a".into(), room: "r".into(), text: "hi".into(), ts: 0 };
    let now = render_server(&chat);
    assert_eq!(now.len(), "[12:34:56] a: hi\n".len());
    assert!(now.ends_with("] a: hi\n"));
}

#[test]
fn reply_lines_are_read() {
    let at = |l: &str| show(&parse_line_at(l, 7));
    assert_eq!(
        at("[PM from bob] hi"),
        show(&ServerMessage::Pm { from: "bob".into(), text: "hi".into(), ts: 7 })
    );
    assert_eq!(
        at("[12:34:56] bob: hi: there"),
        show(&ServerMessage::Chat { from: "bob".into(), room: "".into(), text: "hi: there".into(), ts: 7 })
    );
    assert_eq!(
        at("[12:34:56] bob joined the chat (room: general)"),
        show(&ServerMessage::UserJoined { username: "bob".into(), room: "general".into() })
    );
    assert_eq!(
        at("[12:34:56] bob joined room x"),
        show(&ServerMessage::UserJoined { username: "bob".into(), room: "x".into() })
    );
    assert_eq!(
        at("[12:34:56] bob left room x"),
        show(&ServerMessage::UserLeft { username: "bob".into(), room: "x".into() })
    );
    assert_eq!(
        at("[12:34:56] bob left the chat"),
        show(&ServerMessage::UserLeft { username: "bob".into(), room: "".into() })
    );
    assert_eq!(
        at("plain"),
        show(&ServerMessage::System { text: "plain".into(), ts: 7 })
    );
    assert_eq!(
        at("[1234:56] bob: hi"),
        show(&ServerMessage::System { text: "[1234:56] bob: hi".into(), ts: 7 })
    );
    assert_eq!(strip_bracketed_timestamp("[12:34:56]  x"), Some("x"));
    assert_eq!(strip_bracketed_timestamp("[12-34-56] x"), None);
    assert_eq!(split_first_word("a b c"), Some(("a", "b c")));
    assert_eq!(split_first_word("abc"), None);
}

#[test]
fn lists_are_put_together_again() {
    let mut c = ListCollector::default();
    let got = c.receive_text("Online users:\r\n - alice\n - bob (room: x)\n[12:34:56] eve: hi\n", 7);
    assert_eq!(got.len(), 2);
    assert_eq!(
        show(&got[0]),
        show(&ServerMessage::UserList { users: vec!["alice".into(), "bob".into()] })
    );
    assert_eq!(
        show(&got[1]),
        show(&ServerMessage::Chat { from: "eve".into(), room: "".into(), text: "hi".into(), ts: 7 })
    );
    let got = c.receive_text("Active Rooms:\n - general (2 users)\n - x\n", 7);
    assert_eq!(got.len(), 1);
    assert_eq!(
        show(&got[0]),
        show(&ServerMessage::RoomList { rooms: vec!["general".into(), "x".into()] })
    );
    assert!(c.feed_at("Online users:", 7).is_empty());
    assert!(c.feed(" - a").is_empty());
    assert_eq!(c.feed("Active Rooms:").len(), 1);
    assert_eq!(c.flush().len(), 1);
    assert!(c.flush().is_empty());
}

#[test]
fn messages_come_off_the_wire() {
    let messages = vec![
        ServerMessage::Chat { from: "bob".into(), room: "".into(), text: "héllo → you".into(), ts: 0 },
        ServerMessage::UserJoined { username: "bob".into(), room: "x".into() },
        ServerMessage::UserLeft { username: "bob".into(), room: "x".into() },
        ServerMessage::UserList { users: vec!["a".into(), "b".into()] },
        ServerMessage::RoomList { rooms: vec!["general".into()] },
    ];
    for m in messages {
        let bytes = xor_bytes(render_server(&m).as_bytes());
        let got = ListCollector::default().receive(&bytes);
        assert_eq!(got.len(), 1);
        match (&got[0], &m) {
            (ServerMessage::Chat { from, text, .. }, ServerMessage::Chat { from: f, text: t, .. }) => {
                assert_eq!((from, text), (f, t));
            }
            (a, b) => assert_eq!(show(a), show(b)),
        }
    }
}

#[test]
fn broken_bytes_become_replacement_characters() {
    let bytes = xor_bytes(&[b'a', 0xff, b'b']);
    let got = ListCollector::default().receive(&bytes);
    match &got[0] {
        ServerMessage::System { text, .. } => assert_eq!(text, "a\u{fffd}b"),
        other => panic!("{:?}", other),
    }
}

#[test]
fn a_text_that_reads_as_a_notice_is_one() {
    let m = ServerMessage::Chat { from: "bob".into(), room: "".into(), text: "joined us".into(), ts: 0 };
    let line = render_server_at(&m, "12:34:56");
    assert_eq!(line, "[12:34:56] bob: joined us\n");
    let got = ListCollector::default().receive_text(&line, 7);
    assert!(matches!(got[0], ServerMessage::UserJoined { .. }));
}
