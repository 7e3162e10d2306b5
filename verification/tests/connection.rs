use vectorcom::connection::{ConnStatus, Connector, NetAction, NetEvent};
use vectorcom::protocol::{xor_bytes, ClientMessage, ServerMessage};

fn is_opening(list: &[NetAction]) -> bool {
    matches!(
        list,
        [NetAction::Status { status: ConnStatus::Connecting }, NetAction::Connect]
    )
}

#[test]
fn pauses_double_up_to_the_longest() {
    let mut c = Connector::new("host:1".into(), "me".into());
    assert!(is_opening(&c.step_at(NetEvent::Start, 1)));
    for pause in [500, 1000, 2000, 4000, 8000, 10000, 10000] {
        let next = c.step(NetEvent::ConnectFailed { error: "no".into() });
        assert!(matches!(next[0], NetAction::Status { status: ConnStatus::Reconnecting }));
        match &next[1] {
            NetAction::Deliver { msg: ServerMessage::Error { text } } => {
                assert_eq!(text, "connect: no")
            }
            _ => panic!("no fault"),
        }
        assert!(matches!(next[2], NetAction::Sleep { ms } if ms == pause));
        assert!(is_opening(&next[3..]));
    }
    c.step(NetEvent::Connected);
    assert_eq!(c.backoff_ms, 500);
}

#[test]
fn the_user_is_welcomed_once() {
    let mut c = Connector::new("host:1".into(), "me".into());
    let next = c.step(NetEvent::Connected);
    assert!(matches!(&next[0], NetAction::SendName { bytes } if bytes == b"me"));
    let next = c.step_at(NetEvent::NameSent, 9);
    assert!(matches!(next[0], NetAction::Status { status: ConnStatus::Online }));
    match &next[1] {
        NetAction::Deliver { msg: ServerMessage::Welcome { username, room, motd } } => {
            assert_eq!(username, "me");
            assert_eq!(room, "general");
            assert_eq!(motd, "connected to host:1 (xor-encrypted)");
        }
        _ => panic!("no welcome"),
    }
    let next = c.step_at(NetEvent::NameSent, 9);
    match &next[1] {
        NetAction::Deliver { msg: ServerMessage::System { text, ts } } => {
            assert_eq!((text.as_str(), *ts), ("reconnected", 9));
        }
        _ => panic!("no notice"),
    }
}

#[test]
fn requests_are_encrypted() {
    let mut c = Connector::new("host:1".into(), "me".into());
    let next = c.step(NetEvent::Outbound { msg: Some(ClientMessage::Join { room: "x".into() }) });
    match &next[0] {
        NetAction::Write { bytes, quit } => {
            assert_eq!(xor_bytes(bytes), b"/join x");
            assert!(!quit);
        }
        _ => panic!("nothing written"),
    }
    let next = c.step(NetEvent::Outbound { msg: Some(ClientMessage::Quit) });
    assert!(matches!(next[0], NetAction::Write { quit: true, .. }));
    let next = c.step(NetEvent::Written { quit: true });
    assert!(matches!(
        next[..],
        [
            NetAction::Status { status: ConnStatus::Closed },
            NetAction::AbortReader,
            NetAction::Stop
        ]
    ));
    assert!(matches!(c.step(NetEvent::Written { quit: false })[0], NetAction::Listen));
    let hello = ClientMessage::Hello { username: "me".into(), version: 1 };
    assert!(matches!(c.step(NetEvent::Outbound { msg: Some(hello) })[0], NetAction::Listen));
    assert!(matches!(c.step(NetEvent::Outbound { msg: None })[0], NetAction::Stop));
}

#[test]
fn a_lost_connection_is_opened_again() {
    let mut c = Connector::new("host:1".into(), "me".into());
    for event in [NetEvent::WriteFailed, NetEvent::ReaderEnded] {
        let next = c.step(event);
        assert!(matches!(next[0], NetAction::AbortReader));
        match &next[2] {
            NetAction::Deliver { msg: ServerMessage::Error { text } } => {
                assert_eq!(text, "lost connection, retrying...")
            }
            _ => panic!("no fault"),
        }
        assert!(matches!(next[3], NetAction::Sleep { ms: 800 }));
        assert!(is_opening(&next[4..]));
    }
    let next = c.step(NetEvent::NameFailed);
    match &next[1] {
        NetAction::Deliver { msg: ServerMessage::Error { text } } => {
            assert_eq!(text, "username send failed, retrying...")
        }
        _ => panic!("no fault"),
    }
    assert!(is_opening(&next[2..]));
}
