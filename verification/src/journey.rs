//! Laws on the whole way: from what one user types, over the cipher and the
//! server, to what another user sees.

use vstd::prelude::*;
use vstd::utf8::{encode_utf8, encode_utf8_decode_utf8, encode_utf8_valid_utf8};

use crate::app::{recorded, Row, RowKind, Screen};
use crate::client::{command_effect, entered_line, served, word_and_rest, Outcome};
use crate::clock::is_clock;
use crate::hub::{addressees, hub_wf, Hub, Post};
use crate::net::{idle, line_of, received, received_bytes, request_line};
use crate::observe::{
    listed_room, listed_user, nothing_gathered, observed_lines, observed_text, others, Gathering,
    ObserveMode,
};
use crate::protocol::{
    is_room_char, law_xor_undoes_itself, room_fault, username_fault, xored, ClientMsg, ServerMsg,
    ROOM_LIST_HEADER, USER_LIST_HEADER,
};
use crate::roundtrip::{
    as_seen, entry_lines, is_carried, is_legible, is_one_line, is_plain_room, is_plain_user,
    is_tight, is_word, law_messages_arrive, law_requests_arrive, lemma_entry_line,
    lemma_listing_pieces, lemma_not_prefix, lemma_tight,
};
use crate::session::{is_answer, request_text, requests, text_requests};
use crate::text::{
    begins_with, first_match, is_space, lemma_match_in_range, lemma_no_match, lemma_pieces_single,
    occurs_at, pieces, stripped_end, text_of, trimmed, trimmed_end, trimmed_start,
};
use crate::wire::{client_request, command_of, server_text};

verus! {

// ---------------------------------------------------------------------------
// The cipher
// ---------------------------------------------------------------------------

/// A text on the wire: encoded and encrypted.
pub open spec fn on_the_wire(text: Seq<char>) -> Seq<u8> {
    xored(encode_utf8(text))
}

/// A text from the wire: decrypted and decoded.
pub open spec fn off_the_wire(bytes: Seq<u8>) -> Seq<char> {
    text_of(xored(bytes))
}

/// A text comes off the wire as it was put on it.
pub proof fn law_cipher_carries_text(text: Seq<char>)
    ensures
        off_the_wire(on_the_wire(text)) == text,
{
    law_xor_undoes_itself(encode_utf8(text));
    encode_utf8_valid_utf8(text);
    encode_utf8_decode_utf8(text);
}

// ---------------------------------------------------------------------------
// Requests
// ---------------------------------------------------------------------------

/// Whether a request keeps to one line of its own: nothing in it breaks the
/// line, and a chat text has no white space around it.
pub open spec fn is_whole_line(msg: ClientMsg) -> bool {
    &&& is_carried(msg)
    &&& request_line(msg) matches Some(line) ==> !line.contains('\n')
    &&& msg matches ClientMsg::Say { text } ==> text.len() > 0 && is_tight(text)
}

/// The line of a request has no white space around it.
proof fn lemma_line_is_tight(msg: ClientMsg)
    requires
        is_whole_line(msg),
    ensures
        request_line(msg) matches Some(line) && line.len() > 0 && is_tight(line),
{
    reveal_strlit("/list");
    reveal_strlit("/rooms");
    reveal_strlit("/quit");
    reveal_strlit("/join ");
    reveal_strlit("/block ");
    reveal_strlit("/unblock ");
    reveal_strlit("/pm ");
    reveal_strlit(" ");
    let line = request_line(msg).unwrap();
    match msg {
        ClientMsg::Join { room } => {
            assert(line[0] == '/' && line.last() == room.last());
        },
        ClientMsg::Pm { to, text } => {
            assert(line[0] == '/' && line.last() == text.last());
        },
        ClientMsg::Block { username } => {
            assert(line[0] == '/' && line.last() == username.last());
        },
        ClientMsg::Unblock { username } => {
            assert(line[0] == '/' && line.last() == username.last());
        },
        ClientMsg::ListUsers => {
            assert(line[0] == '/' && line.last() == 't');
        },
        ClientMsg::ListRooms => {
            assert(line[0] == '/' && line.last() == 's');
        },
        ClientMsg::Quit => {
            assert(line[0] == '/' && line.last() == 't');
        },
        _ => {},
    }
}

/// What a client asks for on one line, encrypted, the server reads as that
/// request and nothing else.
pub proof fn law_requests_reach_the_server(msg: ClientMsg)
    requires
        is_whole_line(msg),
    ensures
        request_line(msg) matches Some(line) && text_requests(off_the_wire(on_the_wire(line)))
            == seq![msg],
{
    let line = request_line(msg).unwrap();
    lemma_line_is_tight(msg);
    law_cipher_carries_text(line);
    law_requests_arrive(msg);
    lemma_pieces_single(line, '\n');
    let raws = seq![line];
    lemma_tight(line);
    assert(stripped_end(line, '\r') == line);
    assert(request_text(raws.first()) == line);
    assert(raws.drop_first() =~= Seq::<Seq<char>>::empty());
    assert(requests(raws.drop_first()) =~= Seq::<ClientMsg>::empty());
    assert(requests(raws) =~= seq![msg]);
}

/// Trimming leaves no white space around a text.
pub proof fn lemma_trimmed_is_tight(s: Seq<char>)
    ensures
        is_tight(trimmed(s)),
{
    lemma_trimmed_start_clean(s);
    lemma_trimmed_end_clean(trimmed_start(s));
}

proof fn lemma_trimmed_start_clean(s: Seq<char>)
    ensures
        trimmed_start(s).len() > 0 ==> !is_space(trimmed_start(s).first()),
    decreases s.len(),
{
    if s.len() > 0 && is_space(s.first()) {
        lemma_trimmed_start_clean(s.drop_first());
    }
}

proof fn lemma_trimmed_end_clean(s: Seq<char>)
    ensures
        trimmed_end(s).len() > 0 ==> !is_space(trimmed_end(s).last()) && trimmed_end(s).first()
            == s.first(),
    decreases s.len(),
{
    if s.len() > 0 && is_space(s.last()) {
        lemma_trimmed_end_clean(s.drop_last());
    }
}

/// What does not begin with a slash is no command.
proof fn lemma_no_slash_no_command(t: Seq<char>)
    requires
        !begins_with(t, "/"@),
    ensures
        command_of(t) is None,
{
    reveal_strlit("/");
    reveal_strlit("/list");
    reveal_strlit("/users");
    reveal_strlit("/rooms");
    reveal_strlit("/quit");
    reveal_strlit("/exit");
    reveal_strlit("/join ");
    reveal_strlit("/block ");
    reveal_strlit("/unblock ");
    reveal_strlit("/pm ");
    reveal_strlit("/msg ");
    if t.len() > 0 {
        if t[0] == '/' {
            assert(t.take(1) =~= "/"@);
        }
        lemma_not_prefix(t, "/join "@, 0);
        lemma_not_prefix(t, "/block "@, 0);
        lemma_not_prefix(t, "/unblock "@, 0);
        lemma_not_prefix(t, "/pm "@, 0);
        lemma_not_prefix(t, "/msg "@, 0);
    }
}

/// Whatever the user enters, the request that is sent for it is read by the
/// server as that request; but a chat line whose first character after white
/// space is a slash is left out, for the server takes it as a command.
#[verifier::rlimit(40)]
pub proof fn law_entered_lines_are_understood(a: Screen, text: Seq<char>, ts: i64)
    requires
        begins_with(trimmed(text), "/"@) ==> begins_with(text, "/"@),
    ensures
        entered_line(a, text, ts).1 matches Outcome::Send(msg) ==> is_carried(msg)
            && (request_line(msg) matches Some(line) && client_request(line) == msg),
{
    if let Outcome::Send(msg) = entered_line(a, text, ts).1 {
        if begins_with(text, "/"@) {
            let (cmd, raw) = word_and_rest(text.skip(1));
            let rest = trimmed(raw);
            lemma_trimmed_is_tight(raw);
            assert(command_effect(a, cmd, rest, ts).1 == Some(msg));
            if let ClientMsg::Pm { to, text: body } = msg {
                reveal_strlit(" ");
                lemma_match_in_range(rest, " "@);
                let i = first_match(rest, " "@).unwrap();
                assert(body.last() == rest.last());
                assert(!to.contains(' ')) by {
                    if to.contains(' ') {
                        let k = to.index_of(' ');
                        assert(rest.subrange(k, k + 1) =~= " "@);
                        assert(occurs_at(rest, " "@, k));
                    }
                }
            }
        } else {
            lemma_no_slash_no_command(trimmed(text));
        }
        assert(is_carried(msg));
        law_requests_arrive(msg);
    }
}

// ---------------------------------------------------------------------------
// Names
// ---------------------------------------------------------------------------

/// A text without spaces holds no text that begins with one.
pub proof fn lemma_no_space_no_match(s: Seq<char>, p: Seq<char>)
    requires
        !s.contains(' '),
        p.len() > 0,
        p[0] == ' ',
    ensures
        first_match(s, p) is None,
{
    assert forall|j: int| 0 <= j <= s.len() - p.len() implies !#[trigger] occurs_at(s, p, j) by {
        if occurs_at(s, p, j) {
            assert(s.subrange(j, j + p.len())[0] == s[j]);
        }
    }
    lemma_no_match(s, p);
}

/// A valid username without white space around it is one word, and stands in a
/// list as it is.
pub proof fn law_valid_usernames_are_words(name: Seq<char>)
    requires
        username_fault(name) is None,
        is_tight(name),
    ensures
        is_word(name),
        is_plain_user(name),
{
    lemma_tight(name);
    reveal_strlit(" (room: ");
    assert forall|i: int| 0 <= i < name.len() implies !is_space(#[trigger] name[i]) by {}
    lemma_no_space_no_match(name, " (room: "@);
}

/// A valid room name without white space around it stands in a list as it is.
pub proof fn law_valid_rooms_are_plain(name: Seq<char>)
    requires
        room_fault(name) is None,
        is_tight(name),
    ensures
        is_plain_room(name),
{
    lemma_tight(name);
    reveal_strlit(" (");
    assert forall|i: int| 0 <= i < name.len() implies is_room_char(#[trigger] name[i]) by {}
    lemma_room_chars(name);
    lemma_no_space_no_match(name, " ("@);
}

proof fn lemma_room_chars(name: Seq<char>)
    requires
        forall|i: int| 0 <= i < name.len() ==> is_room_char(#[trigger] name[i]),
    ensures
        !name.contains(' '),
        !name.contains('\n'),
{
    assert(!is_room_char(' '));
    assert(!is_room_char('\n'));
}

// ---------------------------------------------------------------------------
// Messages
// ---------------------------------------------------------------------------

/// What the server tells a client, encrypted, the client reads as that message.
pub proof fn law_messages_reach_the_client(msg: ServerMsg, clock: Seq<char>, ts: i64)
    requires
        is_legible(msg),
        is_clock(clock),
    ensures
        received(idle(), off_the_wire(on_the_wire(server_text(msg, clock))), ts) == seq![
            as_seen(msg, ts),
        ],
{
    law_cipher_carries_text(server_text(msg, clock));
    law_messages_arrive(msg, clock, ts);
}

/// From the bytes that the server sends for a message, the client's collector
/// takes that message.
pub proof fn law_sent_bytes_are_received(msg: ServerMsg, clock: Seq<char>, ts: i64)
    requires
        is_legible(msg),
        is_clock(clock),
    ensures
        received_bytes(idle(), on_the_wire(server_text(msg, clock)), ts) == seq![as_seen(msg, ts)],
{
    law_messages_reach_the_client(msg, clock, ts);
}

/// What client `id` says is shown to everyone else in the room who has not
/// blocked it: as its line, with its name. A text that reads as a notice of
/// joining or leaving is left out, for it is shown as such a notice.
pub proof fn law_what_is_said_is_shown(
    list: Seq<Post>,
    h: Hub,
    id: u64,
    text: Seq<char>,
    sent: i64,
    other: u64,
    clock: Seq<char>,
    seen: i64,
    b: Screen,
) -> (k: int)
    requires
        hub_wf(h),
        h.clients.contains_key(id),
        h.clients.contains_key(other),
        other != id,
        h.clients[other].room == h.clients[id].room,
        !h.clients[other].blocked.contains(h.clients[id].username),
        is_word(h.clients[id].username),
        is_one_line(text),
        !begins_with(text, "joined "@),
        !begins_with(text, "left "@),
        is_clock(clock),
        is_answer(list, h, id, ClientMsg::Say { text }, sent),
    ensures
        0 <= k < list.len(),
        list[k].to == other,
        ({
            let bytes = on_the_wire(server_text(list[k].msg, clock));
            let got = received(idle(), off_the_wire(bytes), seen);
            &&& got.len() == 1
            &&& served(b, got[0], seen).history == recorded(
                b.history,
                Row {
                    kind: RowKind::Chat { from: h.clients[id].username },
                    text,
                    ts: seen,
                },
            )
        }),
{
    assert(addressees(list).contains(other));
    let k = addressees(list).index_of(other);
    assert(list[k].to == other);
    let msg = list[k].msg;
    assert(is_legible(msg));
    law_messages_reach_the_client(msg, clock, seen);
    k
}

// ---------------------------------------------------------------------------
// Lists
// ---------------------------------------------------------------------------

/// The users of a list that gives names alone.
pub open spec fn roomless(users: Seq<Seq<char>>) -> Seq<(Seq<char>, Seq<char>)> {
    users.map_values(|n: Seq<char>| (n, Seq::<char>::empty()))
}

/// A header and the entries after it put the observer in the middle of the list.
proof fn lemma_observe_users(me: Seq<char>, h: Hub, users: Seq<Seq<char>>, ts: i64)
    requires
        forall|i: int| 0 <= i < users.len() ==> is_plain_user(#[trigger] users[i]),
    ensures
        observed_lines(
            nothing_gathered(me),
            h,
            seq![USER_LIST_HEADER@] + entry_lines(users),
            ts,
        ) == (
            Gathering { mode: ObserveMode::Users, users: roomless(users), ..nothing_gathered(me) },
            h,
        ),
    decreases users.len(),
{
    let g = nothing_gathered(me);
    let raws = seq![USER_LIST_HEADER@] + entry_lines(users);
    if users.len() == 0 {
        reveal_strlit("Online users:");
        lemma_tight(USER_LIST_HEADER@);
        assert(raws =~= seq![USER_LIST_HEADER@]);
        assert(raws.drop_last() =~= Seq::<Seq<char>>::empty());
        assert(USER_LIST_HEADER@.last() == ':');
        assert(line_of(USER_LIST_HEADER@) == USER_LIST_HEADER@);
        reveal_with_fuel(observed_lines, 2);
        assert(roomless(users) =~= Seq::<(Seq<char>, Seq<char>)>::empty());
    } else {
        let fewer = users.drop_last();
        let name = users.last();
        assert forall|i: int| 0 <= i < fewer.len() implies is_plain_user(#[trigger] fewer[i]) by {
            assert(fewer[i] == users[i]);
        }
        lemma_observe_users(me, h, fewer, ts);
        assert(raws.drop_last() =~= seq![USER_LIST_HEADER@] + entry_lines(fewer));
        assert(is_plain_user(users[users.len() - 1]));
        lemma_entry_line(name);
        lemma_tight(name);
        assert(raws.last() == " - "@ + name);
        assert(listed_user(name) == (name, Seq::<char>::empty()));
        assert(roomless(users) =~= roomless(fewer).push((name, Seq::<char>::empty())));
    }
}

/// An observer shows the users that the server lists, but for itself.
pub proof fn law_observer_sees_the_users(me: Seq<char>, h: Hub, users: Seq<Seq<char>>, ts: i64)
    requires
        forall|i: int| 0 <= i < users.len() ==> is_plain_user(#[trigger] users[i]),
    ensures
        observed_text(
            nothing_gathered(me),
            h,
            server_text(ServerMsg::UserList { users }, Seq::empty()),
            ts,
        ) == (nothing_gathered(me), (Hub { observed_users: others(roomless(users), me), ..h })),
{
    reveal_strlit("Online users:");
    reveal_strlit("Online users:\n");
    reveal_strlit("\n");
    let header = USER_LIST_HEADER@;
    let none = Seq::<char>::empty();
    assert("Online users:\n"@ =~= header + "\n"@);
    assert forall|i: int| 0 <= i < header.len() implies header[i] != '\n' by {}
    assert forall|i: int| 0 <= i < users.len() implies !(#[trigger] users[i]).contains('\n') by {
        assert(is_plain_user(users[i]));
    }
    lemma_listing_pieces(header, users);
    lemma_observe_users(me, h, users, ts);
    let raws = (seq![header] + entry_lines(users)).push(none);
    assert(raws.drop_last() =~= seq![header] + entry_lines(users));
    assert(line_of(none) == none);
    assert(raws == pieces(server_text(ServerMsg::UserList { users }, Seq::empty()), '\n'));
}

/// The rooms of a list that gives names alone.
pub open spec fn sizeless(rooms: Seq<Seq<char>>) -> Seq<(Seq<char>, usize)> {
    rooms.map_values(|n: Seq<char>| (n, 0usize))
}

/// A header and the entries after it put the observer in the middle of the list.
proof fn lemma_observe_rooms(me: Seq<char>, h: Hub, rooms: Seq<Seq<char>>, ts: i64)
    requires
        forall|i: int| 0 <= i < rooms.len() ==> is_plain_room(#[trigger] rooms[i]),
    ensures
        observed_lines(
            nothing_gathered(me),
            h,
            seq![ROOM_LIST_HEADER@] + entry_lines(rooms),
            ts,
        ) == (
            Gathering { mode: ObserveMode::Rooms, rooms: sizeless(rooms), ..nothing_gathered(me) },
            h,
        ),
    decreases rooms.len(),
{
    let raws = seq![ROOM_LIST_HEADER@] + entry_lines(rooms);
    if rooms.len() == 0 {
        reveal_strlit("Active Rooms:");
        reveal_strlit("Online users:");
        lemma_tight(ROOM_LIST_HEADER@);
        assert(raws =~= seq![ROOM_LIST_HEADER@]);
        assert(raws.drop_last() =~= Seq::<Seq<char>>::empty());
        assert(ROOM_LIST_HEADER@.last() == ':');
        assert(ROOM_LIST_HEADER@[0] == 'A');
        assert(USER_LIST_HEADER@[0] == 'O');
        assert(line_of(ROOM_LIST_HEADER@) == ROOM_LIST_HEADER@);
        reveal_with_fuel(observed_lines, 2);
        assert(sizeless(rooms) =~= Seq::<(Seq<char>, usize)>::empty());
    } else {
        let fewer = rooms.drop_last();
        let name = rooms.last();
        assert forall|i: int| 0 <= i < fewer.len() implies is_plain_room(#[trigger] fewer[i]) by {
            assert(fewer[i] == rooms[i]);
        }
        lemma_observe_rooms(me, h, fewer, ts);
        assert(raws.drop_last() =~= seq![ROOM_LIST_HEADER@] + entry_lines(fewer));
        assert(is_plain_room(rooms[rooms.len() - 1]));
        lemma_entry_line(name);
        lemma_tight(name);
        assert(raws.last() == " - "@ + name);
        assert(listed_room(name) == (name, 0usize));
        assert(sizeless(rooms) =~= sizeless(fewer).push((name, 0usize)));
    }
}

/// An observer shows the rooms that the server lists.
pub proof fn law_observer_sees_the_rooms(me: Seq<char>, h: Hub, rooms: Seq<Seq<char>>, ts: i64)
    requires
        forall|i: int| 0 <= i < rooms.len() ==> is_plain_room(#[trigger] rooms[i]),
    ensures
        observed_text(
            nothing_gathered(me),
            h,
            server_text(ServerMsg::RoomList { rooms }, Seq::empty()),
            ts,
        ) == (nothing_gathered(me), (Hub { observed_rooms: sizeless(rooms), ..h })),
{
    reveal_strlit("Active Rooms:");
    reveal_strlit("Active Rooms:\n");
    reveal_strlit("\n");
    let header = ROOM_LIST_HEADER@;
    let none = Seq::<char>::empty();
    assert("Active Rooms:\n"@ =~= header + "\n"@);
    assert forall|i: int| 0 <= i < header.len() implies header[i] != '\n' by {}
    assert forall|i: int| 0 <= i < rooms.len() implies !(#[trigger] rooms[i]).contains('\n') by {
        assert(is_plain_room(rooms[i]));
    }
    lemma_listing_pieces(header, rooms);
    lemma_observe_rooms(me, h, rooms, ts);
    let raws = (seq![header] + entry_lines(rooms)).push(none);
    assert(raws.drop_last() =~= seq![header] + entry_lines(rooms));
    assert(line_of(none) == none);
    assert(raws == pieces(server_text(ServerMsg::RoomList { rooms }, Seq::empty()), '\n'));
}

} // verus!
