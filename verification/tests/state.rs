use vectorcom::protocol::ServerMessage;
use vectorcom::state::{ClientId, Delivery, ServerState};

fn sent(list: &[Delivery]) -> Vec<(u64, String)> {
    let mut out: Vec<(u64, String)> =
        list.iter().map(|d| (d.to.0, format!("{:?}", d.msg))).collect();
    out.sort();
    out
}

fn msg(m: ServerMessage) -> String {
    format!("{:?}", m)
}

fn chat(from: &str, room: &str, text: &str, ts: i64) -> String {
    msg(ServerMessage::Chat { from: from.into(), room: room.into(), text: text.into(), ts })
}

fn three() -> (ServerState, ClientId, ClientId, ClientId) {
    let mut s = ServerState::new();
    let a = s.register("alice".into()).unwrap();
    let b = s.register("bob".into()).unwrap();
    let c = s.register("carol".into()).unwrap();
    (s, a, b, c)
}

#[test]
fn clients_are_numbered_and_start_in_the_default_room() {
    let (s, a, b, c) = three();
    assert_eq!((a, b, c), (ClientId(1), ClientId(2), ClientId(3)));
    let snap = s.snapshot();
    assert_eq!(snap.rooms, vec![("general".to_string(), 3)]);
    assert_eq!(
        snap.users,
        vec![
            ("alice".to_string(), "general".to_string()),
            ("bob".to_string(), "general".to_string()),
            ("carol".to_string(), "general".to_string()),
        ]
    );
    assert_eq!(snap.total_connections, 3);
    assert_eq!(snap.total_messages, 0);
}

#[test]
fn a_name_is_taken_while_its_client_is_there() {
    let (mut s, a, _, _) = three();
    assert_eq!(s.register("alice".into()), Err("username already in use"));
    s.unregister(a);
    assert_eq!(s.register("alice".into()), Ok(ClientId(4)));
    assert_eq!(s.snapshot().total_connections, 4);
}

#[test]
fn a_client_that_goes_leaves_nothing_behind() {
    let mut s = ServerState::new();
    let a = s.register("alice".into()).unwrap();
    s.handle_join(a, "attic".into());
    assert!(s.unregister(a).is_empty());
    let snap = s.snapshot();
    assert_eq!(snap.rooms, vec![("general".to_string(), 0)]);
    assert!(snap.users.is_empty());
    assert!(s.unregister(a).is_empty());
}

#[test]
fn the_room_is_told_who_leaves() {
    let (mut s, a, b, c) = three();
    let left = msg(ServerMessage::UserLeft { username: "alice".into(), room: "general".into() });
    assert_eq!(sent(&s.unregister(a)), vec![(b.0, left.clone()), (c.0, left)]);
}

#[test]
fn the_room_hears_but_not_the_speaker() {
    let (mut s, a, b, c) = three();
    s.handle_join(c, "attic".into());
    let heard = s.handle_say_at(a, "hi".into(), 9);
    assert_eq!(sent(&heard), vec![(b.0, chat("alice", "general", "hi", 9))]);
    assert!(s.handle_say(c, "hi".into()).is_empty());
    assert!(s.handle_say(ClientId(99), "hi".into()).is_empty());
}

#[test]
fn blocked_speakers_are_not_heard() {
    let (mut s, a, b, c) = three();
    let told = s.handle_block_at(b, "alice".into(), true, 5);
    assert_eq!(
        sent(&told),
        vec![(b.0, msg(ServerMessage::System { text: "blocked alice".into(), ts: 5 }))]
    );
    assert_eq!(
        sent(&s.handle_say_at(a, "hi".into(), 9)),
        vec![(c.0, chat("alice", "general", "hi", 9))]
    );
    assert_eq!(
        sent(&s.handle_pm_at(a, "bob".into(), "hi".into(), 9)),
        vec![(a.0, msg(ServerMessage::Error { text: "you are blocked by bob".into() }))]
    );
    let told = s.handle_block_at(b, "alice".into(), false, 6);
    assert_eq!(
        sent(&told),
        vec![(b.0, msg(ServerMessage::System { text: "unblocked alice".into(), ts: 6 }))]
    );
    assert_eq!(s.handle_say_at(a, "hi".into(), 9).len(), 2);
    assert!(s.handle_block(ClientId(99), "x".into(), true).is_empty());
}

#[test]
fn private_messages_reach_one_user() {
    let (s, a, b, _) = three();
    assert_eq!(
        sent(&s.handle_pm_at(a, "bob".into(), "hi".into(), 9)),
        vec![(b.0, msg(ServerMessage::Pm { from: "alice".into(), text: "hi".into(), ts: 9 }))]
    );
    assert_eq!(
        sent(&s.handle_pm(a, "zoe".into(), "hi".into())),
        vec![(a.0, msg(ServerMessage::Error { text: "user 'zoe' not found".into() }))]
    );
    assert!(s.handle_pm(ClientId(99), "bob".into(), "hi".into()).is_empty());
}

#[test]
fn joining_tells_both_rooms() {
    let (mut s, a, b, c) = three();
    s.handle_join(c, "attic".into());
    let told = s.handle_join(a, "attic".into());
    let order: Vec<u64> = told.iter().map(|d| d.to.0).collect();
    assert_eq!(order, vec![b.0, a.0, c.0]);
    assert_eq!(
        msg(told[0].msg.clone()),
        msg(ServerMessage::UserLeft { username: "alice".into(), room: "general".into() })
    );
    assert_eq!(msg(told[1].msg.clone()), msg(ServerMessage::Joined { room: "attic".into() }));
    assert_eq!(
        msg(told[2].msg.clone()),
        msg(ServerMessage::UserJoined { username: "alice".into(), room: "attic".into() })
    );
    assert_eq!(
        s.snapshot().rooms,
        vec![("attic".to_string(), 2), ("general".to_string(), 1)]
    );
}

#[test]
fn joining_can_fail() {
    let (mut s, a, _, _) = three();
    assert!(s.handle_join(a, "general".into()).is_empty());
    assert_eq!(
        sent(&s.handle_join(a, "no way".into())),
        vec![(
            a.0,
            msg(ServerMessage::Error {
                text: "room may only contain letters, digits, '_' and '-'".into()
            })
        )]
    );
    assert!(s.handle_join(ClientId(99), "attic".into()).is_empty());
    assert!(s.handle_join(ClientId(99), "".into()).is_empty());
    assert_eq!(s.snapshot().rooms.len(), 1);
}

#[test]
fn going_and_coming_back_changes_nothing() {
    let (mut s, a, _, _) = three();
    let before = s.snapshot();
    s.handle_join(a, "attic".into());
    s.handle_join(a, "general".into());
    let after = s.snapshot();
    assert_eq!(before.rooms, after.rooms);
    assert_eq!(before.users, after.users);
}

#[test]
fn users_and_rooms_are_listed() {
    let (mut s, a, b, c) = three();
    s.handle_join(c, "attic".into());
    let told = s.handle_list_users(a);
    assert_eq!(told.len(), 1);
    assert_eq!(told[0].to, a);
    match &told[0].msg {
        ServerMessage::UserList { users } => {
            let mut users = users.clone();
            users.sort();
            assert_eq!(users, vec!["alice", "bob"]);
        }
        other => panic!("{:?}", other),
    }
    assert_eq!(
        sent(&s.handle_list_rooms(b)),
        vec![(b.0, msg(ServerMessage::RoomList { rooms: vec!["attic".into(), "general".into()] }))]
    );
    assert!(s.handle_list_users(ClientId(99)).is_empty());
    assert!(s.handle_list_rooms(ClientId(99)).is_empty());
}

#[test]
fn the_log_keeps_its_length() {
    let mut s = ServerState::new();
    for i in 0..510 {
        s.log_at(format!("line {}", i), i);
    }
    let log = s.snapshot().log;
    assert_eq!(log.len(), 500);
    assert_eq!(log[0].text, "line 10");
    assert_eq!(log[499].text, "line 509");
    assert_eq!(log[499].ts, 509);
    s.log("now".into());
    assert_eq!(s.snapshot().log[499].text, "now");
}

#[test]
fn counts_and_uptime_are_shown() {
    let mut s = ServerState::new();
    s.bump_msg_count();
    s.bump_msg_count();
    s.set_uptime(77);
    let snap = s.snapshot();
    assert_eq!((snap.total_messages, snap.uptime), (2, 77));
    assert!(s.can_count(5));
    assert!(s.can_connect());
}

#[test]
fn observed_users_and_rooms_take_the_place_of_ones_own() {
    let (mut s, _, _, _) = three();
    s.set_observed_users(vec![("zoe".into(), "far".into())]);
    s.set_observed_rooms(vec![("far".into(), 8)]);
    assert_eq!(s.snapshot().users.len(), 3);
    s.set_observe_mode(true);
    let snap = s.snapshot();
    assert_eq!(snap.users, vec![("zoe".to_string(), "far".to_string())]);
    assert_eq!(snap.rooms, vec![("far".to_string(), 8)]);
}

#[test]
fn notices_go_to_the_default_room() {
    let (mut s, a, b, c) = three();
    s.handle_join(c, "attic".into());
    let notice = msg(ServerMessage::System { text: "[SERVER] hello".into(), ts: 3 });
    assert_eq!(
        sent(&s.admin_say_at("hello".into(), 3)),
        vec![(a.0, notice.clone()), (b.0, notice)]
    );
    assert_eq!(s.admin_say("hello".into()).len(), 2);
}

#[test]
fn messages_go_to_those_who_are_there() {
    let (s, a, b, c) = three();
    let m = ServerMessage::Error { text: "x".into() };
    assert_eq!(sent(&s.send_to(a, m.clone())), vec![(a.0, msg(m.clone()))]);
    assert!(s.send_to(ClientId(99), m.clone()).is_empty());
    assert_eq!(
        sent(&s.broadcast_room("general", m.clone(), Some(b))),
        vec![(a.0, msg(m.clone())), (c.0, msg(m.clone()))]
    );
    assert!(s.broadcast_room("nowhere", m, None).is_empty());
}

#[test]
fn announcements_reach_every_room() {
    let (mut s, a, b, c) = three();
    s.handle_join(b, "attic".into());
    let notice = msg(ServerMessage::System { text: "hello".into(), ts: 3 });
    assert_eq!(
        sent(&s.announce_at("hello".into(), 3)),
        vec![(a.0, notice.clone()), (b.0, notice.clone()), (c.0, notice)]
    );
    assert!(ServerState::new().announce_at("hello".into(), 3).is_empty());
}
