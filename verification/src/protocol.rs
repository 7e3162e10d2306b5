//! What client and server share: the messages, the key, the list format of the
//! text protocol and the rules for names.

use vstd::prelude::*;
use vstd::utf8::encode_utf8;

use crate::format::{parse_usize, usize_value};
use crate::text::{
    char_is_alnum, char_is_control, char_is_space, char_vec, clone_texts, find, first_match,
    first_word, head, is_alnum, is_control_code, is_space, leading_word, strip_prefix, stripped_end,
    tail, texts, trim, trim_end_matches, trim_start, trimmed, trimmed_start, without_prefix,
};

verus! {

pub const DEFAULT_PORT: u16 = 8080;

pub const PROTOCOL_VERSION: u32 = 1;

pub const DEFAULT_ROOM: &'static str = "general";

pub const MAX_MESSAGE_BYTES: usize = 8 * 1024;

/// The bytes of `VectorcomSecureKey2025`.
pub const XOR_KEY: [u8; 22] = [
    86, 101, 99, 116, 111, 114, 99, 111, 109, 83, 101, 99, 117, 114, 101, 75, 101, 121, 50, 48, 50,
    53,
];

/// Header line that precedes a user listing (the reply to `/list`).
pub const USER_LIST_HEADER: &'static str = "Online users:";

/// Header line that precedes a room listing (the reply to `/rooms`).
pub const ROOM_LIST_HEADER: &'static str = "Active Rooms:";

// ---------------------------------------------------------------------------
// The cipher
// ---------------------------------------------------------------------------

/// `data` combined byte by byte with the repeated key.
pub open spec fn xored(data: Seq<u8>) -> Seq<u8> {
    Seq::new(data.len(), |i: int| data[i] ^ XOR_KEY@[i % 22])
}

/// `data` combined byte by byte with the repeated key.
pub fn xor_bytes(data: &[u8]) -> (r: Vec<u8>)
    ensures
        r@ == xored(data@),
{
    let mut out: Vec<u8> = Vec::new();
    let mut i: usize = 0;
    while i < data.len()
        invariant
            i <= data.len(),
            out@ == xored(data@).take(i as int),
        decreases data.len() - i,
    {
        out.push(data[i] ^ XOR_KEY[i % 22]);
        i += 1;
        assert(out@ =~= xored(data@).take(i as int));
    }
    assert(out@ =~= xored(data@));
    out
}

/// Encrypting twice gives back the plain bytes, so the same operation decrypts.
pub proof fn law_xor_undoes_itself(data: Seq<u8>)
    ensures
        xored(xored(data)) == data,
{
    assert forall|i: int| 0 <= i < data.len() implies xored(xored(data))[i] == data[i] by {
        let a = data[i];
        let k = XOR_KEY@[i % 22];
        assert((a ^ k) ^ k == a) by (bit_vector);
    }
    assert(xored(xored(data)) =~= data);
}

// ---------------------------------------------------------------------------
// List entries
// ---------------------------------------------------------------------------

/// The item of a ` - <item>` list entry.
pub open spec fn list_entry(line: Seq<char>) -> Option<Seq<char>> {
    match without_prefix(trimmed_start(line), "- "@) {
        Some(rest) => Some(trimmed(rest)),
        None => None,
    }
}

/// If `line` is a ` - <item>` list entry, `<item>` trimmed; else `None`.
pub fn list_item(line: &str) -> (r: Option<&str>)
    ensures
        match r {
            Some(item) => list_entry(line@) == Some(item@),
            None => list_entry(line@) is None,
        },
{
    match strip_prefix(trim_start(line), "- ") {
        Some(rest) => Some(trim(rest)),
        None => None,
    }
}

/// The characters of an optional string.
pub open spec fn opt_text(s: Option<String>) -> Option<Seq<char>> {
    match s {
        Some(t) => Some(t@),
        None => None,
    }
}

/// The name and the room that a user-list entry gives.
pub open spec fn user_entry(item: Seq<char>) -> (Seq<char>, Option<Seq<char>>) {
    match first_match(item, " (room: "@) {
        Some(i) => (
            trimmed(item.take(i)),
            Some(trimmed(stripped_end(item.skip(i + " (room: "@.len()), ')'))),
        ),
        None => (trimmed(item), None),
    }
}

/// Parse a user-list entry: "alice" or "alice (room: general)".
pub fn parse_user_entry(item: &str) -> (r: (String, Option<String>))
    ensures
        (r.0@, opt_text(r.1)) == user_entry(item@),
{
    let mark = " (room: ";
    if let Some(i) = find(item, mark) {
        let name = trim(head(item, i)).to_owned();
        let after = tail(item, i + mark.unicode_len());
        let room = trim(trim_end_matches(after, ')')).to_owned();
        (name, Some(room))
    } else {
        (trim(item).to_owned(), None)
    }
}

/// The name and the number of members that a room-list entry gives.
pub open spec fn room_entry(item: Seq<char>) -> (Seq<char>, Option<nat>) {
    match first_match(item, " ("@) {
        Some(i) => (
            trimmed(item.take(i)),
            match leading_word(item.skip(i + " ("@.len())) {
                Some(w) => usize_value(w),
                None => None,
            },
        ),
        None => (trimmed(item), None),
    }
}

/// The value of an optional number.
pub open spec fn opt_nat(n: Option<usize>) -> Option<nat> {
    match n {
        Some(x) => Some(x as nat),
        None => None,
    }
}

/// Parse a room-list entry: "general" or "general (2 users)".
pub fn parse_room_entry(item: &str) -> (r: (String, Option<usize>))
    ensures
        (r.0@, opt_nat(r.1)) == room_entry(item@),
{
    let mark = " (";
    if let Some(i) = find(item, mark) {
        let name = trim(head(item, i)).to_owned();
        let count = match first_word(tail(item, i + mark.unicode_len())) {
            Some(w) => parse_usize(w),
            None => None,
        };
        (name, count)
    } else {
        (trim(item).to_owned(), None)
    }
}

// ---------------------------------------------------------------------------
// Messages
// ---------------------------------------------------------------------------

/// What a client asks of the server.
#[derive(Debug)]
pub enum ClientMessage {
    Hello { username: String, version: u32 },
    Say { text: String },
    Join { room: String },
    ListUsers,
    ListRooms,
    Pm { to: String, text: String },
    Block { username: String },
    Unblock { username: String },
    Quit,
}

/// The model of a `ClientMessage`.
pub enum ClientMsg {
    Hello { username: Seq<char>, version: u32 },
    Say { text: Seq<char> },
    Join { room: Seq<char> },
    ListUsers,
    ListRooms,
    Pm { to: Seq<char>, text: Seq<char> },
    Block { username: Seq<char> },
    Unblock { username: Seq<char> },
    Quit,
}

impl View for ClientMessage {
    type V = ClientMsg;

    open spec fn view(&self) -> ClientMsg {
        match *self {
            ClientMessage::Hello { username, version } => ClientMsg::Hello {
                username: username@,
                version,
            },
            ClientMessage::Say { text } => ClientMsg::Say { text: text@ },
            ClientMessage::Join { room } => ClientMsg::Join { room: room@ },
            ClientMessage::ListUsers => ClientMsg::ListUsers,
            ClientMessage::ListRooms => ClientMsg::ListRooms,
            ClientMessage::Pm { to, text } => ClientMsg::Pm { to: to@, text: text@ },
            ClientMessage::Block { username } => ClientMsg::Block { username: username@ },
            ClientMessage::Unblock { username } => ClientMsg::Unblock { username: username@ },
            ClientMessage::Quit => ClientMsg::Quit,
        }
    }
}

impl Clone for ClientMessage {
    fn clone(&self) -> (r: Self)
        ensures
            r@ == self@,
    {
        match self {
            ClientMessage::Hello { username, version } => ClientMessage::Hello {
                username: username.clone(),
                version: *version,
            },
            ClientMessage::Say { text } => ClientMessage::Say { text: text.clone() },
            ClientMessage::Join { room } => ClientMessage::Join { room: room.clone() },
            ClientMessage::ListUsers => ClientMessage::ListUsers,
            ClientMessage::ListRooms => ClientMessage::ListRooms,
            ClientMessage::Pm { to, text } => ClientMessage::Pm {
                to: to.clone(),
                text: text.clone(),
            },
            ClientMessage::Block { username } => ClientMessage::Block {
                username: username.clone(),
            },
            ClientMessage::Unblock { username } => ClientMessage::Unblock {
                username: username.clone(),
            },
            ClientMessage::Quit => ClientMessage::Quit,
        }
    }
}

/// What the server tells a client.
#[derive(Debug)]
pub enum ServerMessage {
    Welcome { username: String, room: String, motd: String },
    Chat { from: String, room: String, text: String, ts: i64 },
    Pm { from: String, text: String, ts: i64 },
    System { text: String, ts: i64 },
    Error { text: String },
    UserList { users: Vec<String> },
    RoomList { rooms: Vec<String> },
    Joined { room: String },
    UserJoined { username: String, room: String },
    UserLeft { username: String, room: String },
}

/// The model of a `ServerMessage`.
pub enum ServerMsg {
    Welcome { username: Seq<char>, room: Seq<char>, motd: Seq<char> },
    Chat { from: Seq<char>, room: Seq<char>, text: Seq<char>, ts: i64 },
    Pm { from: Seq<char>, text: Seq<char>, ts: i64 },
    System { text: Seq<char>, ts: i64 },
    Error { text: Seq<char> },
    UserList { users: Seq<Seq<char>> },
    RoomList { rooms: Seq<Seq<char>> },
    Joined { room: Seq<char> },
    UserJoined { username: Seq<char>, room: Seq<char> },
    UserLeft { username: Seq<char>, room: Seq<char> },
}

impl View for ServerMessage {
    type V = ServerMsg;

    open spec fn view(&self) -> ServerMsg {
        match *self {
            ServerMessage::Welcome { username, room, motd } => ServerMsg::Welcome {
                username: username@,
                room: room@,
                motd: motd@,
            },
            ServerMessage::Chat { from, room, text, ts } => ServerMsg::Chat {
                from: from@,
                room: room@,
                text: text@,
                ts,
            },
            ServerMessage::Pm { from, text, ts } => ServerMsg::Pm {
                from: from@,
                text: text@,
                ts,
            },
            ServerMessage::System { text, ts } => ServerMsg::System { text: text@, ts },
            ServerMessage::Error { text } => ServerMsg::Error { text: text@ },
            ServerMessage::UserList { users } => ServerMsg::UserList { users: texts(users@) },
            ServerMessage::RoomList { rooms } => ServerMsg::RoomList { rooms: texts(rooms@) },
            ServerMessage::Joined { room } => ServerMsg::Joined { room: room@ },
            ServerMessage::UserJoined { username, room } => ServerMsg::UserJoined {
                username: username@,
                room: room@,
            },
            ServerMessage::UserLeft { username, room } => ServerMsg::UserLeft {
                username: username@,
                room: room@,
            },
        }
    }
}

impl Clone for ServerMessage {
    fn clone(&self) -> (r: Self)
        ensures
            r@ == self@,
    {
        match self {
            ServerMessage::Welcome { username, room, motd } => ServerMessage::Welcome {
                username: username.clone(),
                room: room.clone(),
                motd: motd.clone(),
            },
            ServerMessage::Chat { from, room, text, ts } => ServerMessage::Chat {
                from: from.clone(),
                room: room.clone(),
                text: text.clone(),
                ts: *ts,
            },
            ServerMessage::Pm { from, text, ts } => ServerMessage::Pm {
                from: from.clone(),
                text: text.clone(),
                ts: *ts,
            },
            ServerMessage::System { text, ts } => ServerMessage::System {
                text: text.clone(),
                ts: *ts,
            },
            ServerMessage::Error { text } => ServerMessage::Error { text: text.clone() },
            ServerMessage::UserList { users } => ServerMessage::UserList {
                users: clone_texts(users),
            },
            ServerMessage::RoomList { rooms } => ServerMessage::RoomList {
                rooms: clone_texts(rooms),
            },
            ServerMessage::Joined { room } => ServerMessage::Joined { room: room.clone() },
            ServerMessage::UserJoined { username, room } => ServerMessage::UserJoined {
                username: username.clone(),
                room: room.clone(),
            },
            ServerMessage::UserLeft { username, room } => ServerMessage::UserLeft {
                username: username.clone(),
                room: room.clone(),
            },
        }
    }
}

// ---------------------------------------------------------------------------
// Time
// ---------------------------------------------------------------------------

/// The current time in seconds since the Unix epoch.
///
/// Calls `chrono::Utc::now` and `DateTime::timestamp`. Nothing is claimed of
/// the value: it depends on the machine's clock.
#[verifier::external_body]
pub fn now_ts() -> (r: i64) {
    chrono::Utc::now().timestamp()
}

// ---------------------------------------------------------------------------
// Names
// ---------------------------------------------------------------------------

/// Why `name` cannot be a username, if it cannot.
pub open spec fn username_fault(name: Seq<char>) -> Option<Seq<char>> {
    let t = trimmed(name);
    if t.len() == 0 {
        Some("username cannot be empty"@)
    } else if encode_utf8(t).len() > 63 {
        Some("username too long (max 63 chars)"@)
    } else if exists|i: int| 0 <= i < t.len() && (is_space(#[trigger] t[i]) || is_control_code(t[i])) {
        Some("username may not contain whitespace or control characters"@)
    } else {
        None
    }
}

/// Whether `name` can be a username; if not, why not.
pub fn validate_username(name: &str) -> (r: Result<(), &'static str>)
    ensures
        match r {
            Ok(()) => username_fault(name@) is None,
            Err(e) => username_fault(name@) == Some(e@),
        },
{
    let t = trim(name);
    if t.is_empty() {
        return Err("username cannot be empty");
    }
    if t.as_bytes().len() > 63 {
        return Err("username too long (max 63 chars)");
    }
    let v = char_vec(t);
    let mut i: usize = 0;
    while i < v.len()
        invariant
            i <= v.len(),
            v@ == t@,
            t@ == trimmed(name@),
            t@.len() > 0,
            encode_utf8(t@).len() <= 63,
            forall|k: int| 0 <= k < i ==> !is_space(#[trigger] t@[k]) && !is_control_code(t@[k]),
        decreases v.len() - i,
    {
        if char_is_space(v[i]) || char_is_control(v[i]) {
            assert(is_space(t@[i as int]) || is_control_code(t@[i as int]));
            return Err("username may not contain whitespace or control characters");
        }
        i += 1;
    }
    Ok(())
}

/// A character that a room name may hold.
pub open spec fn is_room_char(c: char) -> bool {
    is_alnum(c) || c == '_' || c == '-'
}

/// Why `name` cannot be a room name, if it cannot.
pub open spec fn room_fault(name: Seq<char>) -> Option<Seq<char>> {
    let t = trimmed(name);
    if t.len() == 0 {
        Some("room cannot be empty"@)
    } else if encode_utf8(t).len() > 32 {
        Some("room name too long"@)
    } else if exists|i: int| 0 <= i < t.len() && !is_room_char(#[trigger] t[i]) {
        Some("room may only contain letters, digits, '_' and '-'"@)
    } else {
        None
    }
}

/// Whether `name` can be a room name; if not, why not.
pub fn validate_room(name: &str) -> (r: Result<(), &'static str>)
    ensures
        match r {
            Ok(()) => room_fault(name@) is None,
            Err(e) => room_fault(name@) == Some(e@),
        },
{
    let t = trim(name);
    if t.is_empty() {
        return Err("room cannot be empty");
    }
    if t.as_bytes().len() > 32 {
        return Err("room name too long");
    }
    let v = char_vec(t);
    let mut i: usize = 0;
    while i < v.len()
        invariant
            i <= v.len(),
            v@ == t@,
            t@ == trimmed(name@),
            t@.len() > 0,
            encode_utf8(t@).len() <= 32,
            forall|k: int| 0 <= k < i ==> is_room_char(#[trigger] t@[k]),
        decreases v.len() - i,
    {
        let c = v[i];
        if !(char_is_alnum(c) || c == '_' || c == '-') {
            assert(!is_room_char(t@[i as int]));
            return Err("room may only contain letters, digits, '_' and '-'");
        }
        i += 1;
    }
    Ok(())
}

} // verus!
