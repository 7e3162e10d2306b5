use vectorcom::observe::{ObserveAction, ObserveCollector, ObserveEvent, Observer};
use vectorcom::state::ServerState;

fn state() -> ServerState {
    let mut s = ServerState::new();
    s.set_observe_mode(true);
    s
}

#[test]
fn lists_fill_the_panels() {
    let mut s = state();
    let mut c = ObserveCollector::new("observer".into());
    let text = "Online users:\n - alice (room: general)\n - observer (room: general)\n - bob\n";
    assert!(c.receive_at(text.as_bytes(), &mut s, 5));
    assert!(c.receive("Active Rooms:\r\n - general (2 users)\r\n - attic\r\n".as_bytes(), &mut s));
    let snap = s.snapshot();
    assert_eq!(
        snap.users,
        vec![
            ("alice".to_string(), "general".to_string()),
            ("bob".to_string(), "".to_string()),
        ]
    );
    assert_eq!(snap.rooms, vec![("general".to_string(), 2), ("attic".to_string(), 0)]);
    assert_eq!(snap.total_messages, 0);
    assert!(snap.log.is_empty());
}

#[test]
fn other_lines_are_activity() {
    let mut s = state();
    let mut c = ObserveCollector::new("observer".into());
    c.feed_at("Online users:", &mut s, 5);
    c.feed_at(" - alice", &mut s, 5);
    c.feed_at("[12:00:00] alice: hi", &mut s, 6);
    c.feed(" - not an entry", &mut s);
    let snap = s.snapshot();
    assert_eq!(snap.users, vec![("alice".to_string(), "".to_string())]);
    assert_eq!(snap.total_messages, 2);
    assert_eq!(snap.log[0].text, "[12:00:00] alice: hi");
    assert_eq!(snap.log[0].ts, 6);
    assert_eq!(snap.log[1].text, " - not an entry");
    assert_eq!(c.count_activity("a\n\nActive Rooms:\n - x\nb"), 2);
}

fn log(s: &ServerState) -> Vec<String> {
    s.snapshot().log.iter().map(|l| l.text.clone()).collect()
}

#[test]
fn the_observer_connects_and_retries() {
    let mut s = state();
    let mut o = Observer::new("host:1".into(), "eye".into(), "".into());
    assert!(matches!(o.step_at(&mut s, ObserveEvent::Start, 1)[0], ObserveAction::Connect));
    for pause in [500, 1000, 2000, 4000, 8000, 10000, 10000] {
        let next = o.step(&mut s, ObserveEvent::ConnectFailed { error: "no".into() });
        assert!(matches!(next[0], ObserveAction::Sleep { ms } if ms == pause));
        assert!(matches!(next[1], ObserveAction::Restart));
    }
    let next = o.step(&mut s, ObserveEvent::Connected);
    assert!(matches!(&next[0], ObserveAction::SendName { text } if text == "eye"));
    assert_eq!(o.backoff_ms, 500);
    assert!(matches!(o.step(&mut s, ObserveEvent::NameFailed)[0], ObserveAction::Restart));
    assert!(matches!(o.step(&mut s, ObserveEvent::NameSent)[0], ObserveAction::Listen));
    let next = o.step(&mut s, ObserveEvent::Closed);
    assert!(matches!(next[0], ObserveAction::Sleep { ms: 800 }));
    assert!(matches!(next[1], ObserveAction::Restart));
    assert!(matches!(o.step(&mut s, ObserveEvent::WriteFailed)[0], ObserveAction::Sleep { ms: 800 }));
    let log = log(&s);
    assert_eq!(log[0], "observe: connecting to host:1 as eye");
    assert_eq!(log[1], "observe: connect failed: no");
    assert_eq!(log[8], "observe: handshake failed");
    assert_eq!(log[9], "observe: connected to host:1");
    assert_eq!(log[10], "observe: upstream closed");
}

#[test]
fn users_and_rooms_are_asked_for_in_turn() {
    let mut s = state();
    let mut o = Observer::new("h".into(), "eye".into(), "".into());
    for want in ["/list", "/rooms", "/list", "/rooms"] {
        let next = o.step(&mut s, ObserveEvent::Tick);
        assert!(matches!(&next[0], ObserveAction::Send { text } if text == want));
        assert!(matches!(o.step(&mut s, ObserveEvent::Written)[0], ObserveAction::Listen));
    }
}

#[test]
fn commands_need_a_token_and_never_show_it() {
    let mut s = state();
    let mut o = Observer::new("h".into(), "eye".into(), "".into());
    let next = o.step(&mut s, ObserveEvent::Admin { cmd: Some(" kick bob ".into()) });
    assert!(matches!(next[0], ObserveAction::Listen));
    let mut o = Observer::new("h".into(), "eye".into(), "secret".into());
    let next = o.step(&mut s, ObserveEvent::Admin { cmd: Some(" kick bob ".into()) });
    let sent = match &next[0] {
        ObserveAction::SendAdmin { text, cmd } => {
            assert_eq!(text, "/admin secret kick bob");
            cmd.clone()
        }
        _ => panic!("no command"),
    };
    o.step(&mut s, ObserveEvent::AdminWritten { sent });
    assert_eq!(
        log(&s),
        vec![
            "[admin] refused (set VECTORCOM_ADMIN_TOKEN to enable): kick bob",
            "[admin] sent: kick bob",
        ]
    );
    assert!(matches!(o.step(&mut s, ObserveEvent::Admin { cmd: None })[0], ObserveAction::Stop));
}

#[test]
fn a_whole_run_never_shows_the_token() {
    let run = |token: &str| -> Vec<String> {
        let mut s = state();
        let mut o = Observer::new("h".into(), "eye".into(), token.into());
        o.step(&mut s, ObserveEvent::Start);
        o.step(&mut s, ObserveEvent::ConnectFailed { error: "no".into() });
        o.step(&mut s, ObserveEvent::Connected);
        o.step(&mut s, ObserveEvent::NameSent);
        o.step(&mut s, ObserveEvent::Tick);
        assert!(o.receive(&mut s, b"Online users:\n - a\nhello\n"));
        for action in o.step(&mut s, ObserveEvent::Admin { cmd: Some("say hi".into()) }) {
            if let ObserveAction::SendAdmin { text, cmd } = action {
                assert!(text.contains(token));
                o.step(&mut s, ObserveEvent::AdminWritten { sent: cmd });
            }
        }
        o.step(&mut s, ObserveEvent::Closed);
        assert!(500 <= o.backoff_ms && o.backoff_ms <= 10_000);
        log(&s)
    };
    let first = run("secret");
    assert_eq!(first, run("another"));
    assert!(first.iter().all(|l| !l.contains("secret")));
    assert_eq!(first.len(), 6);
}
