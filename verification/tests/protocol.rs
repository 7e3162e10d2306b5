use vectorcom::protocol::{
    list_item, now_ts, parse_room_entry, parse_user_entry, validate_room, validate_username,
    xor_bytes, XOR_KEY,
};

#[test]
fn list_item_matches_only_dash_entries() {
    assert_eq!(list_item(" - alice"), Some("alice"));
    assert_eq!(list_item("   - bob (room: x)"), Some("bob (room: x)"));
    assert_eq!(list_item("Online users:"), None);
    assert_eq!(list_item("------------"), None); // history divider, not an entry
    assert_eq!(list_item("alice: hi - there"), None);
}

#[test]
fn parses_user_entries_with_and_without_room() {
    assert_eq!(parse_user_entry("alice"), ("alice".into(), None));
    assert_eq!(
        parse_user_entry("alice (room: general)"),
        ("alice".into(), Some("general".into()))
    );
}

#[test]
fn parses_room_entries_with_and_without_count() {
    assert_eq!(parse_room_entry("general"), ("general".into(), None));
    assert_eq!(parse_room_entry("general (3 users)"), ("general".into(), Some(3)));
}

#[test]
fn cipher_is_its_own_inverse() {
    let data: Vec<u8> = (0..=255u8).collect();
    let once = xor_bytes(&data);
    assert_ne!(once, data);
    assert_eq!(xor_bytes(&once), data);
    assert_eq!(once[0], XOR_KEY[0]);
    assert_eq!(once[22], 22 ^ XOR_KEY[0]);
    assert_eq!(xor_bytes(&[]), Vec::<u8>::new());
}

#[test]
fn usernames_are_checked() {
    assert_eq!(validate_username("alice"), Ok(()));
    assert_eq!(validate_username("  alice "), Ok(()));
    assert_eq!(validate_username("   "), Err("username cannot be empty"));
    assert_eq!(validate_username(&"a".repeat(63)), Ok(()));
    assert_eq!(validate_username(&"a".repeat(64)), Err("username too long (max 63 chars)"));
    assert_eq!(validate_username(&"é".repeat(32)), Err("username too long (max 63 chars)"));
    assert_eq!(
        validate_username("al ice"),
        Err("username may not contain whitespace or control characters")
    );
    assert_eq!(
        validate_username("al\u{7}ice"),
        Err("username may not contain whitespace or control characters")
    );
}

#[test]
fn rooms_are_checked() {
    assert_eq!(validate_room("rust_dev-2"), Ok(()));
    assert_eq!(validate_room(""), Err("room cannot be empty"));
    assert_eq!(validate_room(&"r".repeat(32)), Ok(()));
    assert_eq!(validate_room(&"r".repeat(33)), Err("room name too long"));
    assert_eq!(
        validate_room("a b"),
        Err("room may only contain letters, digits, '_' and '-'")
    );
    assert_eq!(
        validate_room("café"),
        Err("room may only contain letters, digits, '_' and '-'")
    );
}

#[test]
fn the_clock_runs() {
    assert!(now_ts() > 1_600_000_000);
}

#[test]
fn entries_read_back() {
    for (name, room) in [("alice", "general"), ("b(o)b", "rust_dev-2"), ("é", "")] {
        let item = format!("{} (room: {})", name, room);
        assert_eq!(parse_user_entry(&item), (name.to_string(), Some(room.to_string())));
    }
    for n in [0, 7, 10, 4096, usize::MAX] {
        let item = format!("general ({} users)", n);
        assert_eq!(parse_room_entry(&item), ("general".to_string(), Some(n)));
    }
}
