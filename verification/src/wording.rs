//! Laws on the words of the text protocol: what the server writes, and what the
//! client reads.

use vstd::prelude::*;
use vstd::utf8::encode_utf8;

use crate::clock::is_clock;
use crate::commands::{is_blank, law_trimming_finds_the_core, lemma_lead_goes};
use crate::format::{decimal, usize_value};
use crate::journey::lemma_no_space_no_match;
use crate::net::{
    after_stamp, collect, collect_lines, idle, open_list, received, server_line, CollectMode,
    Collecting,
};
use crate::observing::{
    is_solid, lemma_room_item, lemma_room_lines, lemma_user_item, lemma_user_lines, room_items,
    room_lines, user_items, user_lines,
};
use crate::protocol::{
    list_entry, room_entry, user_entry, ServerMsg, ROOM_LIST_HEADER, USER_LIST_HEADER,
};
use crate::roundtrip::{
    is_tight, is_word, lemma_first_char, lemma_found_after_word, lemma_list_received,
    lemma_named_line, lemma_not_prefix, lemma_prefix, lemma_stamped, lemma_tight, lemma_unbracketed,
};
use crate::text::{
    begins_with, first_match, is_space, lemma_first_match, occurs_at, pieces, stripped_end, trimmed,
    trimmed_start, without_prefix,
};
use crate::wire::server_text;

verus! {

// ---------------------------------------------------------------------------
// Texts out
// ---------------------------------------------------------------------------

/// The text of every message, as it stands on the wire: one line each, with all
/// that the message says, and for a list one line more for each entry. Chat and
/// moves bear the time of day.
pub proof fn law_texts_of_messages(
    clock: Seq<char>,
    name: Seq<char>,
    room: Seq<char>,
    text: Seq<char>,
    items: Seq<Seq<char>>,
    ts: i64,
)
    ensures
        server_text(ServerMsg::Chat { from: name, room, text, ts }, clock) == "["@ + clock + "] "@
            + name + ": "@ + text + "\n"@,
        server_text(ServerMsg::Pm { from: name, text, ts }, clock) == "[PM from "@ + name + "] "@
            + text + "\n"@,
        server_text(ServerMsg::System { text, ts }, clock) == text + "\n"@,
        server_text(ServerMsg::Error { text }, clock) == "Error: "@ + text + "\n"@,
        server_text(ServerMsg::Joined { room }, clock) == "Joined #"@ + room + "\n"@,
        server_text(ServerMsg::UserJoined { username: name, room }, clock) == "["@ + clock + "] "@
            + name + " joined room "@ + room + "\n"@,
        server_text(ServerMsg::UserLeft { username: name, room }, clock) == "["@ + clock + "] "@
            + name + " left room "@ + room + "\n"@,
        server_text(ServerMsg::Welcome { username: name, room, motd: text }, clock) == "[SERVER] "@
            + text + " (room: "@ + room + ")\n"@,
        server_text(ServerMsg::UserList { users: Seq::empty() }, clock) == "Online users:\n"@,
        server_text(ServerMsg::RoomList { rooms: Seq::empty() }, clock) == "Active Rooms:\n"@,
        server_text(ServerMsg::UserList { users: items.push(name) }, clock) == server_text(
            ServerMsg::UserList { users: items },
            clock,
        ) + " - "@ + name + "\n"@,
        server_text(ServerMsg::RoomList { rooms: items.push(room) }, clock) == server_text(
            ServerMsg::RoomList { rooms: items },
            clock,
        ) + " - "@ + room + "\n"@,
{
    assert(items.push(name).drop_last() =~= items);
    assert(items.push(room).drop_last() =~= items);
    assert("Online users:\n"@ + Seq::<char>::empty() =~= "Online users:\n"@);
    assert("Active Rooms:\n"@ + Seq::<char>::empty() =~= "Active Rooms:\n"@);
}

// ---------------------------------------------------------------------------
// Lines in
// ---------------------------------------------------------------------------

/// A bracket at the start of a line holds a time of day exactly where it holds
/// eight bytes with colons after the second and the fifth. What follows it then
/// is the rest, without the white space before it.
pub proof fn law_what_is_a_time(stamp: Seq<char>, pad: Seq<char>, rest: Seq<char>)
    requires
        !stamp.contains(']'),
        is_blank(pad),
        rest.len() > 0 ==> !is_space(rest.first()),
    ensures
        ({
            let b = encode_utf8(stamp);
            let line = "["@ + stamp + "]"@ + pad + rest;
            &&& b.len() == 8 && b[2] == 58 && b[5] == 58 ==> after_stamp(line) == Some(rest)
            &&& !(b.len() == 8 && b[2] == 58 && b[5] == 58) ==> after_stamp(line) is None
        }),
{
    reveal_strlit("[");
    reveal_strlit("]");
    let after = pad + rest;
    let inner = stamp + "]"@ + after;
    let line = "["@ + stamp + "]"@ + pad + rest;
    assert(line =~= "["@ + inner);
    lemma_prefix("["@, inner);
    assert("]"@ =~= seq![']']);
    lemma_first_char(stamp, ']', "]"@, after);
    lemma_lead_goes(pad, rest);
    assert(trimmed_start(rest) == rest);
}

/// A line that says that a user joined reads so, with the room that it names in
/// either form, without the white space around it, and without a room where it
/// names none.
pub proof fn law_join_lines_are_read(
    clock: Seq<char>,
    user: Seq<char>,
    lead: Seq<char>,
    room: Seq<char>,
    trail: Seq<char>,
    other: Seq<char>,
    ts: i64,
)
    requires
        is_clock(clock),
        is_word(user),
        is_blank(lead),
        is_blank(trail),
        is_tight(room),
        room.len() > 0 ==> room.last() != ')',
        !begins_with("joined "@ + other, "joined room "@),
        !begins_with("joined "@ + other, "joined the chat (room: "@),
    ensures
        server_line(
            "["@ + clock + "] "@ + (user + " "@ + ("joined room "@ + (lead + room + trail))),
            ts,
        ) == (ServerMsg::UserJoined { username: user, room }),
        server_line(
            "["@ + clock + "] "@ + (user + " "@ + ("joined the chat (room: "@ + (room + ")"@))),
            ts,
        ) == (ServerMsg::UserJoined { username: user, room }),
        server_line("["@ + clock + "] "@ + (user + " "@ + ("joined "@ + other)), ts) == (
        ServerMsg::UserJoined { username: user, room: Seq::empty() }),
{
    let a = "joined room "@ + (lead + room + trail);
    let b = "joined the chat (room: "@ + (room + ")"@);
    let c = "joined "@ + other;
    lemma_named_line(user, a, clock, ts);
    lemma_named_line(user, b, clock, ts);
    lemma_named_line(user, c, clock, ts);
    lemma_join_tail(lead + room + trail);
    lemma_chat_tail(room);
    law_trimming_finds_the_core(lead, room, trail);
    lemma_prefix("joined "@, other);
}

/// What follows the name where a user joined a room.
proof fn lemma_join_tail(rest: Seq<char>)
    ensures
        begins_with("joined room "@ + rest, "joined "@),
        without_prefix("joined room "@ + rest, "joined room "@) == Some(rest),
{
    reveal_strlit("joined ");
    reveal_strlit("joined room ");
    assert(("joined room "@ + rest).take(7) =~= "joined "@);
    lemma_prefix("joined room "@, rest);
}

/// What follows the name where a user joined the chat.
proof fn lemma_chat_tail(room: Seq<char>)
    requires
        room.len() > 0 ==> room.last() != ')',
    ensures
        ({
            let tail = "joined the chat (room: "@ + (room + ")"@);
            &&& begins_with(tail, "joined "@)
            &&& without_prefix(tail, "joined room "@) is None
            &&& without_prefix(tail, "joined the chat (room: "@) == Some(room + ")"@)
            &&& stripped_end(room + ")"@, ')') == room
        }),
{
    reveal_strlit("joined ");
    reveal_strlit("joined room ");
    reveal_strlit("joined the chat (room: ");
    let tail = "joined the chat (room: "@ + (room + ")"@);
    assert(tail.take(7) =~= "joined "@);
    assert(tail[7] == 't');
    lemma_not_prefix(tail, "joined room "@, 7);
    lemma_prefix("joined the chat (room: "@, room + ")"@);
    lemma_bracket_goes(room);
}

proof fn lemma_bracket_goes(room: Seq<char>)
    requires
        room.len() > 0 ==> room.last() != ')',
    ensures
        stripped_end(room + ")"@, ')') == room,
{
    reveal_strlit(")");
    assert((room + ")"@).drop_last() =~= room);
    assert((room + ")"@).last() == ')');
    assert(stripped_end(room + ")"@, ')') == stripped_end(room, ')'));
}

/// A line that says that a user left reads so, with the room that it names,
/// without the white space around it, and without a room where it names none.
pub proof fn law_leave_lines_are_read(
    clock: Seq<char>,
    user: Seq<char>,
    lead: Seq<char>,
    room: Seq<char>,
    trail: Seq<char>,
    other: Seq<char>,
    ts: i64,
)
    requires
        is_clock(clock),
        is_word(user),
        is_blank(lead),
        is_blank(trail),
        is_tight(room),
        !begins_with("left "@ + other, "left room "@),
    ensures
        server_line(
            "["@ + clock + "] "@ + (user + " "@ + ("left room "@ + (lead + room + trail))),
            ts,
        ) == (ServerMsg::UserLeft { username: user, room }),
        server_line("["@ + clock + "] "@ + (user + " "@ + ("left "@ + other)), ts) == (
        ServerMsg::UserLeft { username: user, room: Seq::empty() }),
{
    reveal_strlit("");
    let rest = lead + room + trail;
    lemma_named_line(user, "left room "@ + rest, clock, ts);
    lemma_named_line(user, "left "@ + other, clock, ts);
    lemma_leave_tail(rest, other);
    law_trimming_finds_the_core(lead, room, trail);
    lemma_tight(""@);
    assert(""@ =~= Seq::<char>::empty());
}

/// What follows the name where a user left.
proof fn lemma_leave_tail(rest: Seq<char>, other: Seq<char>)
    ensures
        !begins_with("left room "@ + rest, "joined "@),
        begins_with("left room "@ + rest, "left "@),
        without_prefix("left room "@ + rest, "left room "@) == Some(rest),
        !begins_with("left "@ + other, "joined "@),
        begins_with("left "@ + other, "left "@),
{
    reveal_strlit("joined ");
    reveal_strlit("left ");
    reveal_strlit("left room ");
    let a = "left room "@ + rest;
    let c = "left "@ + other;
    assert(a.take(5) =~= "left "@);
    assert(a[0] == 'l' && c[0] == 'l');
    lemma_not_prefix(a, "joined "@, 0);
    lemma_not_prefix(c, "joined "@, 0);
    lemma_prefix("left room "@, rest);
    lemma_prefix("left "@, other);
}

/// A line with a time, a name and a text after a colon is chat, with all of the
/// text.
#[verifier::rlimit(40)]
pub proof fn law_chat_lines_are_read(clock: Seq<char>, from: Seq<char>, text: Seq<char>, ts: i64)
    requires
        is_clock(clock),
        is_word(from),
        !begins_with(text, "joined "@),
        !begins_with(text, "left "@),
    ensures
        server_line("["@ + clock + "] "@ + (from + ": "@ + text), ts) == (ServerMsg::Chat {
            from,
            room: Seq::empty(),
            text,
            ts,
        }),
{
    reveal_strlit(": ");
    reveal_strlit(" ");
    let rest = from + ": "@ + text;
    assert(rest[0] == from[0]);
    lemma_stamped(clock, rest, ts);
    let user = from.push(':');
    assert(rest =~= user + " "@ + text);
    assert(!user.contains(' ')) by {
        if user.contains(' ') {
            let i = user.index_of(' ');
            if i < from.len() {
                assert(from[i] == ' ');
            }
        }
    }
    assert(" "@ =~= seq![' ']);
    lemma_first_char(user, ' ', " "@, text);
    lemma_colon(from, text);
}

/// The first colon with a space after it stands after a name without spaces.
proof fn lemma_colon(from: Seq<char>, text: Seq<char>)
    requires
        !from.contains(' '),
    ensures
        first_match(from + ": "@ + text, ": "@) == Some(from.len() as int),
        (from + ": "@ + text).take(from.len() as int) == from,
        (from + ": "@ + text).skip(from.len() as int + ": "@.len()) == text,
{
    let s = from + ": "@ + text;
    let p = ": "@;
    let n = from.len() as int;
    assert(p.len() == 2) by {
        reveal_strlit(": ");
    }
    assert(s.subrange(n, n + 2) =~= p);
    assert(s.take(n) =~= from);
    assert(s.skip(n + 2) =~= text);
    assert forall|j: int| 0 <= j < n implies !#[trigger] occurs_at(s, p, j) by {
        lemma_no_colon(from, text, j);
    }
    lemma_first_match(s, p, n);
}

proof fn lemma_no_colon(from: Seq<char>, text: Seq<char>, j: int)
    requires
        !from.contains(' '),
        0 <= j < from.len(),
    ensures
        !occurs_at(from + ": "@ + text, ": "@, j),
{
    reveal_strlit(": ");
    let s = from + ": "@ + text;
    if occurs_at(s, ": "@, j) {
        assert(s.subrange(j, j + 2)[1] == s[j + 1]);
        assert(s[j + 1] == ' ');
        if j + 1 < from.len() {
            assert(from[j + 1] == ' ');
        } else {
            assert(s[j + 1] == ':');
        }
    }
}

/// A line with the mark of a private message is one, with the name in the mark
/// and all of the text after it but leading white space.
pub proof fn law_private_lines_are_read(
    from: Seq<char>,
    pad: Seq<char>,
    text: Seq<char>,
    ts: i64,
)
    requires
        !from.contains(']'),
        is_blank(pad),
        text.len() > 0 ==> !is_space(text.first()),
    ensures
        server_line("[PM from "@ + from + "]"@ + pad + text, ts) == (ServerMsg::Pm {
            from,
            text,
            ts,
        }),
{
    reveal_strlit("]");
    let after = pad + text;
    let rest = from + "]"@ + after;
    let line = "[PM from "@ + from + "]"@ + pad + text;
    assert(line =~= "[PM from "@ + rest);
    lemma_prefix("[PM from "@, rest);
    assert("]"@ =~= seq![']']);
    lemma_first_char(from, ']', "]"@, after);
    lemma_lead_goes(pad, text);
    assert(trimmed_start(text) == text);
}

/// Any other line is a notice, as it is. A line without a bracket in front is
/// always one.
pub proof fn law_other_lines_are_notices(line: Seq<char>, ts: i64)
    ensures
        server_line(line, ts) matches ServerMsg::System { text, ts: at } ==> text == line && at
            == ts,
        line.len() > 0 && line[0] != '[' ==> server_line(line, ts) == (ServerMsg::System {
            text: line,
            ts,
        }),
        server_line(line, ts) is System || server_line(line, ts) is Chat || server_line(
            line,
            ts,
        ) is Pm || server_line(line, ts) is UserJoined || server_line(line, ts) is UserLeft,
        server_line(line, ts) matches ServerMsg::Pm { from, text, ts: at } ==> begins_with(
            line,
            "[PM from "@,
        ) && at == ts,
        server_line(line, ts) is UserJoined || server_line(line, ts) is UserLeft || server_line(
            line,
            ts,
        ) is Chat ==> after_stamp(line) is Some,
{
    if line.len() > 0 && line[0] != '[' {
        lemma_unbracketed(line, ts);
    }
}

/// Whatever time stands before it, a name with a colon and a text after it is
/// chat, and a name with the word for joining or leaving after it is that.
pub proof fn law_stamped_lines_are_read(
    line: Seq<char>,
    name: Seq<char>,
    text: Seq<char>,
    tail: Seq<char>,
    ts: i64,
)
    requires
        !begins_with(line, "[PM from "@),
        name.len() > 0,
        !name.contains(' '),
    ensures
        after_stamp(line) == Some(name + ": "@ + text) && !begins_with(text, "joined "@)
            && !begins_with(text, "left "@) ==> server_line(line, ts) == (ServerMsg::Chat {
            from: name,
            room: Seq::empty(),
            text,
            ts,
        }),
        after_stamp(line) == Some(name + " "@ + tail) && begins_with(tail, "joined "@) ==> (
        server_line(line, ts) matches ServerMsg::UserJoined { username, room } && username == name),
        after_stamp(line) == Some(name + " "@ + tail) && begins_with(tail, "left "@) ==> (
        server_line(line, ts) matches ServerMsg::UserLeft { username, room } && username == name),
{
    reveal_strlit(" ");
    assert(" "@ =~= seq![' ']);
    lemma_first_char(name, ' ', " "@, tail);
    lemma_colon(name, text);
    lemma_colon_word(name, text);
    reveal_strlit("joined ");
    reveal_strlit("left ");
    if begins_with(tail, "left "@) {
        assert(tail.take(5)[0] == 'l');
        lemma_not_prefix(tail, "joined "@, 0);
    }
}

/// The first word of a chat line is the name with its colon.
proof fn lemma_colon_word(name: Seq<char>, text: Seq<char>)
    requires
        !name.contains(' '),
    ensures
        first_match(name + ": "@ + text, " "@) == Some(name.len() as int + 1),
        (name + ": "@ + text).skip(name.len() as int + 1 + " "@.len()) == text,
{
    reveal_strlit(" ");
    reveal_strlit(": ");
    assert(" "@ =~= seq![' ']);
    let user = name.push(':');
    assert(name + ": "@ + text =~= user + " "@ + text);
    assert(!user.contains(' ')) by {
        if user.contains(' ') {
            let i = user.index_of(' ');
            if i < name.len() {
                assert(name[i] == ' ');
            }
        }
    }
    lemma_first_char(user, ' ', " "@, text);
}

/// No line reads as anything but what stands in it. Chat has a time, a name of
/// one word and a colon before its text; a join or a leave has a time, a name of
/// one word and the word for it; a private message has its mark.
pub proof fn law_nothing_is_read_that_is_not_there(line: Seq<char>, ts: i64)
    ensures
        match server_line(line, ts) {
            ServerMsg::Chat { from, room, text, ts: at } => {
                &&& after_stamp(line) == Some(from + ": "@ + text)
                &&& from.len() > 0 && !from.contains(' ')
                &&& room.len() == 0
                &&& at == ts
            },
            ServerMsg::UserJoined { username, room } => {
                &&& !username.contains(' ')
                &&& exists|tail: Seq<char>|
                    after_stamp(line) == Some(username + " "@ + tail) && #[trigger] begins_with(
                        tail,
                        "joined "@,
                    )
            },
            ServerMsg::UserLeft { username, room } => {
                &&& !username.contains(' ')
                &&& exists|tail: Seq<char>|
                    after_stamp(line) == Some(username + " "@ + tail) && #[trigger] begins_with(
                        tail,
                        "left "@,
                    )
            },
            ServerMsg::Pm { from, text, ts: at } => {
                &&& !from.contains(']')
                &&& at == ts
                &&& exists|more: Seq<char>|
                    line == "[PM from "@ + (from + "]"@ + more) && text == #[trigger] trimmed_start(
                        more,
                    )
            },
            ServerMsg::System { text, ts: at } => text == line && at == ts,
            _ => false,
        },
{
    reveal_strlit(" ");
    reveal_strlit("]");
    assert(" "@ =~= seq![' ']);
    assert("]"@ =~= seq![']']);
    if let Some(rest) = without_prefix(line, "[PM from "@) {
        crate::lettering::law_prefixes(line, "[PM from "@, rest);
        lemma_at_mark(rest, "]"@, ']');
    }
    if let Some(rest) = after_stamp(line) {
        lemma_at_mark(rest, " "@, ' ');
        crate::lettering::law_what_is_found_is_there(rest, ": "@);
    }
}

proof fn lemma_at_mark(s: Seq<char>, p: Seq<char>, c: char)
    requires
        p == seq![c],
    ensures
        first_match(s, p) matches Some(i) ==> s == s.take(i) + p + s.skip(i + p.len())
            && !s.take(i).contains(c),
{
    crate::lettering::law_what_is_found_is_there(s, p);
    if let Some(i) = first_match(s, p) {
        crate::text::lemma_match_in_range(s, p);
        let a = s.take(i);
        if a.contains(c) {
            let k = a.index_of(c);
            assert(s.subrange(k, k + 1) =~= p);
            assert(occurs_at(s, p, k));
        }
    }
}

// ---------------------------------------------------------------------------
// Lists in
// ---------------------------------------------------------------------------

/// The client lists the users of a list by name, in order, whether the list
/// gives their rooms or not; and likewise the rooms, with or without numbers.
pub proof fn law_lists_are_read_by_name(
    users: Seq<(Seq<char>, Seq<char>)>,
    rooms: Seq<(Seq<char>, usize)>,
    ts: i64,
)
    requires
        forall|i: int|
            #![trigger users[i]]
            0 <= i < users.len() ==> is_solid(users[i].0) && is_solid(users[i].1)
                && users[i].1.last() != ')',
        forall|i: int| #![trigger rooms[i]] 0 <= i < rooms.len() ==> is_solid(rooms[i].0),
    ensures
        received(idle(), "Online users:\n"@ + user_lines(users), ts) == seq![
            ServerMsg::UserList { users: Seq::new(users.len(), |i: int| users[i].0) },
        ],
        received(idle(), "Active Rooms:\n"@ + room_lines(rooms), ts) == seq![
            ServerMsg::RoomList { rooms: Seq::new(rooms.len(), |i: int| rooms[i].0) },
        ],
{
    reveal_strlit("Online users:");
    reveal_strlit("Online users:\n");
    reveal_strlit("Active Rooms:");
    reveal_strlit("Active Rooms:\n");
    reveal_strlit("\n");
    assert("Online users:\n"@ =~= USER_LIST_HEADER@ + "\n"@);
    assert("Active Rooms:\n"@ =~= ROOM_LIST_HEADER@ + "\n"@);
    let us = user_items(users);
    let rs = room_items(rooms);
    assert forall|i: int| 0 <= i < us.len() implies is_tight(#[trigger] us[i]) && !us[i].contains(
        '\n',
    ) by {
        lemma_user_item(users[i]);
    }
    assert forall|i: int| 0 <= i < rs.len() implies is_tight(#[trigger] rs[i]) && !rs[i].contains(
        '\n',
    ) by {
        lemma_room_item(rooms[i]);
    }
    lemma_user_lines(users);
    lemma_room_lines(rooms);
    lemma_list_received(USER_LIST_HEADER@, CollectMode::Users, us, ts);
    lemma_list_received(ROOM_LIST_HEADER@, CollectMode::Rooms, rs, ts);
    assert forall|i: int| 0 <= i < us.len() implies (#[trigger] user_entry(us[i])).0
        == users[i].0 by {
        lemma_user_item(users[i]);
    }
    assert forall|i: int| 0 <= i < rs.len() implies (#[trigger] room_entry(rs[i])).0
        == rooms[i].0 by {
        lemma_room_item(rooms[i]);
    }
    assert(crate::net::user_names(us) =~= Seq::new(users.len(), |i: int| users[i].0));
    assert(crate::net::room_names(rs) =~= Seq::new(rooms.len(), |i: int| rooms[i].0));
}

/// What a line does to the client's lists. A header opens its list. An entry of
/// an open list is kept for it. Any other line is read for itself, after the
/// open list, which it ends.
pub proof fn law_lines_build_lists(c: Collecting, line: Seq<char>, ts: i64)
    ensures
        ({
            let before = match c.mode {
                CollectMode::Outside => Seq::<ServerMsg>::empty(),
                CollectMode::Users => seq![
                    ServerMsg::UserList {
                        users: Seq::new(c.items.len(), |i: int| user_entry(c.items[i]).0),
                    },
                ],
                CollectMode::Rooms => seq![
                    ServerMsg::RoomList {
                        rooms: Seq::new(c.items.len(), |i: int| room_entry(c.items[i]).0),
                    },
                ],
            };
            let (d, out) = collect(c, line, ts);
            &&& open_list(c) == before
            &&& trimmed(line) == "Online users:"@ ==> d.mode == CollectMode::Users && d.items.len()
                == 0 && out == before
            &&& trimmed(line) == "Active Rooms:"@ ==> d.mode == CollectMode::Rooms && d.items.len()
                == 0 && out == before
            &&& trimmed(line) != "Online users:"@ && trimmed(line) != "Active Rooms:"@ ==> {
                if c.mode == CollectMode::Outside {
                    d == c && out == seq![server_line(line, ts)]
                } else if list_entry(line) is Some {
                    d.mode == c.mode && d.items == c.items.push(list_entry(line).unwrap())
                        && out.len() == 0
                } else {
                    d.mode == CollectMode::Outside && d.items.len() == 0 && out == before.push(
                        server_line(line, ts),
                    )
                }
            }
        }),
{
    reveal_strlit("Online users:");
    reveal_strlit("Active Rooms:");
    assert("Online users:"@[0] == 'O');
    assert("Active Rooms:"@[0] == 'A');
    assert(crate::net::user_names(c.items) =~= Seq::new(
        c.items.len(),
        |i: int| user_entry(c.items[i]).0,
    ));
    assert(crate::net::room_names(c.items) =~= Seq::new(
        c.items.len(),
        |i: int| room_entry(c.items[i]).0,
    ));
}

/// Lines are taken in order, and what they say comes out in that order; a line
/// that is empty but for carriage returns is passed over. A list that is open at
/// the end of a text comes last.
pub proof fn law_what_lines_say_keeps_their_order(
    c: Collecting,
    raws: Seq<Seq<char>>,
    raw: Seq<char>,
    text: Seq<char>,
    ts: i64,
)
    ensures
        collect_lines(c, Seq::empty(), ts) == (c, Seq::<ServerMsg>::empty()),
        ({
            let (d, out) = collect_lines(c, raws, ts);
            let line = stripped_end(raw, '\r');
            let (e, more) = collect(d, line, ts);
            collect_lines(c, raws.push(raw), ts) == if line.len() == 0 {
                (d, out)
            } else {
                (e, out + more)
            }
        }),
        ({
            let (d, out) = collect_lines(c, pieces(text, '\n'), ts);
            received(c, text, ts) == out + open_list(d)
        }),
{
    assert(raws.push(raw).drop_last() =~= raws);
}

/// A room's entry gives the number that is the first word in its brackets,
/// whatever follows the number; where that word is no number, or where there are
/// no brackets, it gives none.
pub proof fn law_numbers_of_rooms(
    name: Seq<char>,
    pad: Seq<char>,
    w: Seq<char>,
    more: Seq<char>,
    n: nat,
)
    requires
        is_solid(name),
        is_blank(pad),
        is_solid(w),
        more.len() > 0 ==> is_space(more[0]),
        n <= usize::MAX,
    ensures
        room_entry(name + " ("@ + (pad + w + more)) == (name, usize_value(w)),
        room_entry(name + " ("@ + (pad + decimal(n) + seq![' '] + more)) == (name, Some(n)),
        room_entry(name) == (name, None::<nat>),
        user_entry(name) == (name, None::<Seq<char>>),
{
    reveal_strlit(" (");
    reveal_strlit(" (room: ");
    crate::observing::lemma_solid(name);
    lemma_tight(name);
    lemma_found_after_word(name, " ("@, pad + w + more);
    crate::lettering::law_first_words(pad, w, more);
    let d = decimal(n);
    crate::format::lemma_decimal(n);
    crate::format::law_numbers_read_back(n);
    assert forall|i: int| 0 <= i < d.len() implies !is_space(#[trigger] d[i]) by {
        assert(crate::text::is_digit(d[i]));
    }
    let rest = seq![' '] + more;
    assert(pad + d + seq![' '] + more =~= pad + d + rest);
    lemma_found_after_word(name, " ("@, pad + d + rest);
    crate::lettering::law_first_words(pad, d, rest);
    lemma_no_space_no_match(name, " ("@);
    lemma_no_space_no_match(name, " (room: "@);
}

/// A name in an entry is all that stands before the bracket, and a room all that
/// stands in it, each without the white space around it.
pub proof fn law_names_in_entries(
    lead: Seq<char>,
    name: Seq<char>,
    trail: Seq<char>,
    pad: Seq<char>,
    room: Seq<char>,
    gap: Seq<char>,
    more: Seq<char>,
)
    requires
        is_blank(lead),
        is_blank(trail),
        is_blank(pad),
        is_blank(gap),
        is_tight(name),
        is_tight(room),
        !(lead + name + trail).contains('('),
        (pad + room + gap).len() > 0 ==> (pad + room + gap).last() != ')',
    ensures
        user_entry((lead + name + trail) + " (room: "@ + ((pad + room + gap) + ")"@)) == (
            name,
            Some(room),
        ),
        user_entry(lead + name + trail) == (name, None::<Seq<char>>),
        room_entry((lead + name + trail) + " ("@ + more).0 == name,
        room_entry(lead + name + trail) == (name, None::<nat>),
{
    let a = lead + name + trail;
    let r = pad + room + gap;
    law_trimming_finds_the_core(lead, name, trail);
    law_trimming_finds_the_core(pad, room, gap);
    lemma_bracket_goes(r);
    lemma_at_bracket(a, " (room: "@, r + ")"@);
    lemma_at_bracket(a, " ("@, more);
}

/// A bracket after a space is first found after a text without brackets.
proof fn lemma_at_bracket(a: Seq<char>, p: Seq<char>, b: Seq<char>)
    requires
        !a.contains('('),
        p == " (room: "@ || p == " ("@,
    ensures
        first_match(a + p + b, p) == Some(a.len() as int),
        (a + p + b).take(a.len() as int) == a,
        (a + p + b).skip(a.len() as int + p.len()) == b,
        first_match(a, p) is None,
{
    reveal_strlit(" (room: ");
    reveal_strlit(" (");
    let s = a + p + b;
    let n = a.len() as int;
    assert(p[0] == ' ' && p[1] == '(');
    assert(s.subrange(n, n + p.len()) =~= p);
    assert(s.take(n) =~= a);
    assert(s.skip(n + p.len()) =~= b);
    assert forall|j: int| 0 <= j < n implies !#[trigger] occurs_at(s, p, j) by {
        if occurs_at(s, p, j) {
            assert(s.subrange(j, j + p.len())[1] == s[j + 1]);
            if j + 1 < n {
                assert(a[j + 1] == '(');
            } else {
                assert(s[j + 1] == p[0]);
            }
        }
    }
    lemma_first_match(s, p, n);
    assert forall|j: int| 0 <= j <= a.len() - p.len() implies !#[trigger] occurs_at(a, p, j) by {
        if occurs_at(a, p, j) {
            assert(a.subrange(j, j + p.len())[1] == a[j + 1]);
        }
    }
    crate::text::lemma_no_match(a, p);
}

/// An entry line is one that begins, after white space, with a hyphen and a
/// space; the entry is what follows, without the white space around it.
pub proof fn law_what_is_an_entry(
    lead: Seq<char>,
    pad: Seq<char>,
    item: Seq<char>,
    trail: Seq<char>,
    line: Seq<char>,
)
    requires
        is_blank(lead),
        is_blank(pad),
        is_blank(trail),
        is_tight(item),
    ensures
        list_entry(lead + ("- "@ + (pad + item + trail))) == Some(item),
        list_entry(line) is Some ==> begins_with(trimmed_start(line), "- "@),
{
    reveal_strlit("- ");
    let rest = pad + item + trail;
    let body = "- "@ + rest;
    lemma_lead_goes(lead, body);
    assert(body.first() == '-');
    assert(trimmed_start(body) == body);
    lemma_prefix("- "@, rest);
    law_trimming_finds_the_core(pad, item, trail);
}

} // verus!
