use vectorcom::app::{App, ChatLine, LineKind};
use vectorcom::client::{
    handle_key, handle_key_at, handle_server_msg, handle_server_msg_at, parse_command,
    parse_command_at, KeyOutcome,
};
use vectorcom::connection::ConnStatus;
use vectorcom::keys::Key;
use vectorcom::protocol::{ClientMessage, ServerMessage};

fn app() -> App {
    App::new("me".into(), "host:1".into())
}

fn last(app: &App) -> (String, String, i64) {
    let l = app.history.back().unwrap();
    (format!("{:?}", l.kind), l.text.clone(), l.ts)
}

fn system(text: &str, ts: i64) -> (String, String, i64) {
    (format!("{:?}", LineKind::System), text.to_string(), ts)
}

fn error(text: &str, ts: i64) -> (String, String, i64) {
    (format!("{:?}", LineKind::Error), text.to_string(), ts)
}

fn enter(app: &mut App, text: &str) -> KeyOutcome {
    for c in text.chars() {
        handle_key(app, Key::Char(c), false, false);
    }
    handle_key_at(app, Key::Enter, false, false, 5)
}

#[test]
fn a_client_starts_empty() {
    let a = app();
    assert_eq!(a.current_room, "general");
    assert_eq!(a.connection, ConnStatus::Connecting);
    assert!(a.history.is_empty() && a.online.is_empty() && a.input.buf.is_empty());
    assert_eq!(a.scroll_offset, 0);
}

#[test]
fn messages_are_shown() {
    let mut a = app();
    handle_server_msg_at(
        &mut a,
        ServerMessage::Welcome { username: "me".into(), room: "lobby".into(), motd: "hi".into() },
        3,
    );
    assert_eq!(a.current_room, "lobby");
    assert_eq!(a.history[0].text, "connected · hi");
    assert_eq!(last(&a), system("joined #lobby", 3));
    handle_server_msg_at(
        &mut a,
        ServerMessage::Chat { from: "bob".into(), room: "".into(), text: "yo".into(), ts: 8 },
        3,
    );
    assert_eq!(
        last(&a),
        (format!("{:?}", LineKind::Chat { from: "bob".into() }), "yo".into(), 8)
    );
    handle_server_msg_at(&mut a, ServerMessage::Pm { from: "bob".into(), text: "psst".into(), ts: 9 }, 3);
    assert_eq!(
        last(&a),
        (format!("{:?}", LineKind::Pm { from: "bob".into(), outgoing: false }), "psst".into(), 9)
    );
    handle_server_msg_at(&mut a, ServerMessage::System { text: "note".into(), ts: 4 }, 3);
    assert_eq!(last(&a), system("note", 4));
    handle_server_msg_at(&mut a, ServerMessage::Error { text: "bad".into() }, 3);
    assert_eq!(last(&a), error("bad", 3));
    handle_server_msg_at(&mut a, ServerMessage::UserList { users: vec!["a".into(), "b".into()] }, 3);
    assert_eq!(last(&a), system("users in #lobby: a, b", 3));
    assert_eq!(a.online, vec!["a", "b"]);
    handle_server_msg_at(&mut a, ServerMessage::RoomList { rooms: vec!["x".into(), "y".into()] }, 3);
    assert_eq!(last(&a), system("rooms: x, y", 3));
    handle_server_msg_at(&mut a, ServerMessage::Joined { room: "x".into() }, 3);
    assert_eq!(last(&a), system("→ #x", 3));
    assert_eq!(a.current_room, "x");
    handle_server_msg_at(&mut a, ServerMessage::UserJoined { username: "z".into(), room: "x".into() }, 3);
    assert_eq!(last(&a), system("z joined", 3));
    handle_server_msg_at(&mut a, ServerMessage::UserLeft { username: "z".into(), room: "x".into() }, 3);
    assert_eq!(last(&a), system("z left", 3));
    let n = a.history.len();
    handle_server_msg(&mut a, ServerMessage::UserLeft { username: "z".into(), room: "y".into() });
    assert_eq!(a.history.len(), n);
}

#[test]
fn commands_are_read() {
    let mut a = app();
    let mut run = |text: &str| parse_command_at(&mut a, text, 5).map(|m| format!("{:?}", m));
    let some = |m: ClientMessage| Some(format!("{:?}", m));
    assert_eq!(run("/quit"), some(ClientMessage::Quit));
    assert_eq!(run("/exit now"), some(ClientMessage::Quit));
    assert_eq!(run("/list"), some(ClientMessage::ListUsers));
    assert_eq!(run("/users"), some(ClientMessage::ListUsers));
    assert_eq!(run("/rooms"), some(ClientMessage::ListRooms));
    assert_eq!(run("/join  x "), some(ClientMessage::Join { room: "x".into() }));
    assert_eq!(
        run("/whisper bob  hi"),
        some(ClientMessage::Pm { to: "bob".into(), text: " hi".into() })
    );
    assert_eq!(run("hello"), None);
}

#[test]
fn commands_answer_the_user() {
    let mut a = app();
    assert!(parse_command_at(&mut a, "/help", 5).is_none());
    assert_eq!(
        last(&a),
        system("/join <room>  /list  /rooms  /pm <user> <msg>  /clear  /quit", 5)
    );
    assert!(parse_command_at(&mut a, "/pm bob", 5).is_none());
    assert_eq!(last(&a), error("usage: /pm <user> <message>", 5));
    assert!(parse_command_at(&mut a, "/blocklist", 5).is_none());
    assert_eq!(last(&a), error("blocking is managed by the server admin", 5));
    assert!(parse_command_at(&mut a, "/join", 5).is_none());
    assert_eq!(last(&a), error("unknown command: /join (try /help)", 5));
    assert!(parse_command(&mut a, "/dance all night").is_none());
    assert_eq!(last(&a).1, "unknown command: /dance (try /help)");
    parse_command_at(&mut a, "/msg bob hi", 5);
    assert_eq!(
        last(&a),
        (format!("{:?}", LineKind::Pm { from: "bob".into(), outgoing: true }), "hi".into(), 5)
    );
    assert!(parse_command_at(&mut a, "/clear", 5).is_none());
    assert!(a.history.is_empty());
}

#[test]
fn what_is_entered_is_sent_and_shown_once() {
    let mut a = app();
    match enter(&mut a, "hello") {
        KeyOutcome::Send(ClientMessage::Say { text }) => assert_eq!(text, "hello"),
        other => panic!("{:?}", other),
    }
    assert_eq!(a.history.len(), 1);
    assert_eq!(
        last(&a),
        (format!("{:?}", LineKind::Chat { from: "me".into() }), "hello".into(), 5)
    );
    assert!(a.input.buf.is_empty());
    assert!(matches!(enter(&mut a, ""), KeyOutcome::Stay));
    assert!(matches!(enter(&mut a, "/list"), KeyOutcome::Send(ClientMessage::ListUsers)));
    assert!(matches!(enter(&mut a, "/help"), KeyOutcome::Stay));
    assert_eq!(a.history.len(), 2);
}

#[test]
fn keys_edit_and_scroll() {
    let mut a = app();
    for i in 0..30 {
        a.push(ChatLine::system_at(format!("{}", i), i));
    }
    handle_key(&mut a, Key::Up, false, false);
    handle_key(&mut a, Key::PageUp, false, false);
    assert_eq!(a.scroll_offset, 11);
    handle_key(&mut a, Key::Down, false, false);
    assert_eq!(a.scroll_offset, 10);
    a.push(ChatLine::system("new".into()));
    assert_eq!(a.scroll_offset, 11);
    handle_key(&mut a, Key::PageDown, false, false);
    handle_key(&mut a, Key::PageDown, false, false);
    assert_eq!(a.scroll_offset, 0);
    for _ in 0..9 {
        handle_key(&mut a, Key::PageUp, false, false);
    }
    assert_eq!(a.scroll_offset, 31);
    for c in "abc".chars() {
        handle_key(&mut a, Key::Char(c), false, false);
    }
    handle_key(&mut a, Key::Left, false, false);
    handle_key(&mut a, Key::Backspace, false, false);
    assert_eq!(a.input.buf, "ac");
    handle_key(&mut a, Key::Delete, false, false);
    assert_eq!(a.input.buf, "a");
    handle_key(&mut a, Key::Home, false, false);
    handle_key(&mut a, Key::Right, false, false);
    handle_key(&mut a, Key::End, false, false);
    handle_key(&mut a, Key::Other, false, false);
    handle_key(&mut a, Key::Tab, false, false);
    assert_eq!((a.input.buf.as_str(), a.input.cursor), ("a", 1));
    assert!(matches!(handle_key(&mut a, Key::Esc, false, false), KeyOutcome::Stay));
    assert!(matches!(handle_key(&mut a, Key::Esc, false, false), KeyOutcome::Quit));
    assert!(matches!(handle_key(&mut a, Key::Char('c'), true, false), KeyOutcome::Quit));
    handle_key(&mut a, Key::Char('l'), true, false);
    assert!(a.history.is_empty());
}

#[test]
fn suggestions_take_the_arrows() {
    let mut a = app();
    assert!(matches!(handle_key(&mut a, Key::Up, false, true), KeyOutcome::SuggestUp));
    assert!(matches!(handle_key(&mut a, Key::Down, false, true), KeyOutcome::SuggestDown));
    assert!(matches!(handle_key(&mut a, Key::Tab, false, true), KeyOutcome::CompleteSuggestion));
}

#[test]
fn the_history_keeps_its_length() {
    let mut a = app();
    for i in 0..2005 {
        a.push(ChatLine::error_at(format!("{}", i), i));
    }
    assert_eq!(a.history.len(), 2000);
    assert_eq!(a.history[0].text, "5");
    assert_eq!(ChatLine::error("x".into()).text, "x");
}
