use vectorcom::app::{App, LineKind};
use vectorcom::client::{handle_key, handle_server_msg, KeyOutcome};
use vectorcom::connection::{Connector, NetAction, NetEvent};
use vectorcom::keys::Key;
use vectorcom::net::ListCollector;
use vectorcom::protocol::xor_bytes;
use vectorcom::session::{handle_payload, welcome_client, Admission};
use vectorcom::state::{ClientId, ServerState};
use vectorcom::wire::render_server;

fn enter(s: &mut ServerState, name: &str) -> ClientId {
    match welcome_client(s, name, "peer") {
        Admission::Admitted { id, .. } => id,
        other => panic!("{:?}", other),
    }
}

fn typed(app: &mut App, link: &mut Connector, text: &str) -> Vec<u8> {
    for c in text.chars() {
        handle_key(app, Key::Char(c), false, false);
    }
    let msg = match handle_key(app, Key::Enter, false, false) {
        KeyOutcome::Send(m) => m,
        other => panic!("{:?}", other),
    };
    match link.step(NetEvent::Outbound { msg: Some(msg) }).remove(0) {
        NetAction::Write { bytes, .. } => bytes,
        _ => panic!("nothing written"),
    }
}

#[test]
fn what_is_typed_is_shown_to_the_others() {
    let mut s = ServerState::new();
    let a = enter(&mut s, "alice");
    let b = enter(&mut s, "bob");
    let mut alice = App::new("alice".into(), "h".into());
    let mut bob = App::new("bob".into(), "h".into());
    let mut link = Connector::new("h".into(), "alice".into());
    for text in ["hello bob", "déjà vu →", "a: b"] {
        let bytes = typed(&mut alice, &mut link, text);
        let served = handle_payload(&mut s, a, &xor_bytes(&bytes)).unwrap();
        assert_eq!(served.deliveries.len(), 1);
        assert_eq!(served.deliveries[0].to, b);
        let wire = xor_bytes(render_server(&served.deliveries[0].msg).as_bytes());
        for m in ListCollector::default().receive(&wire) {
            handle_server_msg(&mut bob, m);
        }
        let line = bob.history.back().unwrap();
        assert_eq!(line.text, text);
        assert!(matches!(&line.kind, LineKind::Chat { from } if from == "alice"));
        assert_eq!(alice.history.back().unwrap().text, text);
    }
    assert_eq!(bob.history.len(), 3);
    assert_eq!(alice.history.len(), 3);
}

#[test]
fn rooms_are_joined_and_listed() {
    let mut s = ServerState::new();
    let a = enter(&mut s, "alice");
    let mut alice = App::new("alice".into(), "h".into());
    let mut link = Connector::new("h".into(), "alice".into());
    for text in ["/join attic", "/rooms", "/list"] {
        let bytes = typed(&mut alice, &mut link, text);
        let served = handle_payload(&mut s, a, &xor_bytes(&bytes)).unwrap();
        for d in served.deliveries {
            let wire = xor_bytes(render_server(&d.msg).as_bytes());
            for m in ListCollector::default().receive(&wire) {
                handle_server_msg(&mut alice, m);
            }
        }
    }
    let shown: Vec<&str> = alice.history.iter().map(|l| l.text.as_str()).collect();
    assert_eq!(shown, vec!["Joined #attic", "rooms: attic, general", "users in #general: alice"]);
    assert_eq!(alice.online, vec!["alice"]);
}
