//! What one side of the text protocol writes, the other side reads.

use vstd::prelude::*;
use vstd::utf8::{is_ascii_chars, is_ascii_chars_encode_utf8};

use crate::clock::{clock_text, is_clock};
use crate::format::{decimal, decimal2, digit, law_numbers_read_back, lemma_decimal};
use crate::net::{
    after_stamp, at_first_space, chat_line, collect_lines, idle, is_stamp, line_of, move_notice,
    open_list, pm_line, received, request_line, room_names, server_line, user_names, CollectMode,
    Collecting,
};
use crate::protocol::{
    list_entry, room_entry, user_entry, ClientMsg, ServerMsg, ROOM_LIST_HEADER, USER_LIST_HEADER,
};
use crate::text::{
    begins_with, first_match, is_digit, is_space, lemma_first_match, lemma_pieces_cons,
    lemma_pieces_nonempty, lemma_trimmed_end_is_take, lemma_trimmed_start_is_skip, lemma_word_len,
    occurs_at, pieces, stripped_end, trimmed, trimmed_end, trimmed_start, without_prefix,
};
use crate::wire::{client_request, command_of, listing, server_text};

verus! {

// ---------------------------------------------------------------------------
// Facts about texts
// ---------------------------------------------------------------------------

/// Whether a text neither begins nor ends with white space.
pub open spec fn is_tight(s: Seq<char>) -> bool {
    s.len() == 0 || (!is_space(s.first()) && !is_space(s.last()))
}

/// Trimming changes exactly the texts with white space around them.
pub proof fn lemma_tight(s: Seq<char>)
    ensures
        is_tight(s) <==> trimmed(s) == s,
{
    if is_tight(s) {
        lemma_trimmed_start_is_skip(s, 0);
        lemma_trimmed_end_is_take(s, s.len() as int);
        assert(s.skip(0) =~= s);
        assert(s.take(s.len() as int) =~= s);
    } else if is_space(s.first()) {
        lemma_trimmed_start_shorter(s.drop_first());
        lemma_trimmed_end_shorter(trimmed_start(s));
    } else {
        assert(trimmed_start(s) == s);
        lemma_trimmed_end_shorter(s.drop_last());
    }
}

pub proof fn lemma_trimmed_start_shorter(s: Seq<char>)
    ensures
        trimmed_start(s).len() <= s.len(),
    decreases s.len(),
{
    if s.len() > 0 && is_space(s.first()) {
        lemma_trimmed_start_shorter(s.drop_first());
    }
}

pub proof fn lemma_trimmed_end_shorter(s: Seq<char>)
    ensures
        trimmed_end(s).len() <= s.len(),
    decreases s.len(),
{
    if s.len() > 0 && is_space(s.last()) {
        lemma_trimmed_end_shorter(s.drop_last());
    }
}

/// What follows a prefix.
pub proof fn lemma_prefix(p: Seq<char>, s: Seq<char>)
    ensures
        begins_with(p + s, p),
        without_prefix(p + s, p) == Some(s),
{
    assert((p + s).take(p.len() as int) =~= p);
    assert((p + s).skip(p.len() as int) =~= s);
}

/// A text whose character at `i` is not that of `p` does not begin with `p`.
pub proof fn lemma_not_prefix(s: Seq<char>, p: Seq<char>, i: int)
    requires
        0 <= i < p.len(),
        i < s.len() ==> s[i] != p[i],
    ensures
        !begins_with(s, p),
        without_prefix(s, p) is None,
{
    if begins_with(s, p) {
        assert(s.take(p.len() as int)[i] == s[i]);
    }
}

/// The first space of a text stands after its first part without spaces.
pub proof fn lemma_first_char(a: Seq<char>, c: char, p: Seq<char>, b: Seq<char>)
    requires
        p == seq![c],
        !a.contains(c),
    ensures
        first_match(a + p + b, p) == Some(a.len() as int),
        (a + p + b).take(a.len() as int) == a,
        (a + p + b).skip(a.len() as int + 1) == b,
{
    let s = a + p + b;
    assert(s.subrange(a.len() as int, a.len() as int + 1) =~= p);
    assert forall|j: int| 0 <= j < a.len() implies !#[trigger] occurs_at(s, p, j) by {
        if occurs_at(s, p, j) {
            assert(s.subrange(j, j + 1)[0] == s[j]);
            assert(a[j] == c);
        }
    }
    lemma_first_match(s, p, a.len() as int);
    assert(s.take(a.len() as int) =~= a);
    assert(s.skip(a.len() as int + 1) =~= b);
}

// ---------------------------------------------------------------------------
// Requests
// ---------------------------------------------------------------------------

/// Whether the text protocol can carry a request: it has a line of its own, and
/// what it names keeps its bounds on that line.
pub open spec fn is_carried(msg: ClientMsg) -> bool {
    match msg {
        ClientMsg::Hello { username, version } => false,
        ClientMsg::Say { text } => command_of(trimmed(text)) is None,
        ClientMsg::Join { room } => room.len() > 0 && is_tight(room),
        ClientMsg::ListUsers => true,
        ClientMsg::ListRooms => true,
        ClientMsg::Pm { to, text } => to.len() > 0 && !to.contains(' ') && text.len() > 0
            && !is_space(text.last()),
        ClientMsg::Block { username } => username.len() > 0 && is_tight(username),
        ClientMsg::Unblock { username } => username.len() > 0 && is_tight(username),
        ClientMsg::Quit => true,
    }
}

/// The server reads every request that the client's line can carry as the
/// request that the client made.
#[verifier::rlimit(40)]
pub proof fn law_requests_arrive(msg: ClientMsg)
    requires
        is_carried(msg),
    ensures
        request_line(msg) matches Some(line) && client_request(line) == msg,
{
    let line = request_line(msg).unwrap();
    reveal_strlit("/list");
    reveal_strlit("/users");
    reveal_strlit("/rooms");
    reveal_strlit("/quit");
    reveal_strlit("/exit");
    reveal_strlit("/join ");
    reveal_strlit("/block ");
    reveal_strlit("/unblock ");
    reveal_strlit("/pm ");
    reveal_strlit("/msg ");
    reveal_strlit(" ");
    lemma_tight(line);
    match msg {
        ClientMsg::Join { room } => {
            lemma_tight(room);
            lemma_prefix("/join "@, room);
            assert(line.last() == room.last());
            assert(line[1] == 'j');
        },
        ClientMsg::Block { username } => {
            lemma_tight(username);
            lemma_prefix("/block "@, username);
            assert(line.last() == username.last());
            assert(line[1] == 'b');
            lemma_not_prefix(line, "/join "@, 1);
        },
        ClientMsg::Unblock { username } => {
            lemma_tight(username);
            lemma_prefix("/unblock "@, username);
            assert(line.last() == username.last());
            assert(line[1] == 'u');
            assert(line[2] == 'n');
            lemma_not_prefix(line, "/join "@, 1);
            lemma_not_prefix(line, "/block "@, 1);
        },
        ClientMsg::Pm { to, text } => {
            let rest = to + " "@ + text;
            assert(line =~= "/pm "@ + rest);
            lemma_prefix("/pm "@, rest);
            assert(line.last() == text.last());
            assert(line[1] == 'p');
            lemma_not_prefix(line, "/join "@, 1);
            lemma_not_prefix(line, "/block "@, 1);
            lemma_not_prefix(line, "/unblock "@, 1);
            assert(" "@ =~= seq![' ']);
            lemma_first_char(to, ' ', " "@, text);
        },
        ClientMsg::ListRooms => {
            assert(line[1] == 'r');
        },
        ClientMsg::Quit => {
            assert(line[1] == 'q');
        },
        _ => {},
    }
}

// ---------------------------------------------------------------------------
// Messages
// ---------------------------------------------------------------------------

/// Whether a text keeps to one line, up to and with its last character.
pub open spec fn is_one_line(s: Seq<char>) -> bool {
    !s.contains('\n') && (s.len() > 0 ==> s.last() != '\r')
}

/// Whether a name stands as one word at the start of a line.
pub open spec fn is_word(s: Seq<char>) -> bool {
    s.len() > 0 && !s.contains(' ') && !s.contains('\n') && !is_space(s.first())
}

/// Whether a user-list entry reads as the name alone.
pub open spec fn is_plain_user(s: Seq<char>) -> bool {
    is_tight(s) && !s.contains('\n') && first_match(s, " (room: "@) is None
}

/// Whether a room-list entry reads as the name alone.
pub open spec fn is_plain_room(s: Seq<char>) -> bool {
    is_tight(s) && !s.contains('\n') && first_match(s, " ("@) is None
}

/// Whether a line is no private message, no join or leave notice, no chat line
/// and no list header.
pub open spec fn is_notice(line: Seq<char>) -> bool {
    &&& pm_line(line, 0) is None
    &&& after_stamp(line) matches Some(rest) ==> move_notice(rest) is None && chat_line(rest, 0) is None
    &&& trimmed(line) != USER_LIST_HEADER@
    &&& trimmed(line) != ROOM_LIST_HEADER@
}

/// Whether the client can read the server's text of a message: it keeps to its
/// lines, and what it names keeps its bounds there. A chat text that reads as a
/// join or leave notice is not legible.
pub open spec fn is_legible(msg: ServerMsg) -> bool {
    match msg {
        ServerMsg::Welcome { username, room, motd } => !motd.contains('\n') && !room.contains(
            '\n',
        ),
        ServerMsg::Chat { from, room, text, ts } => is_word(from) && is_one_line(text)
            && !begins_with(text, "joined "@) && !begins_with(text, "left "@),
        ServerMsg::Pm { from, text, ts } => !from.contains(']') && !from.contains('\n')
            && is_one_line(text) && (text.len() > 0 ==> !is_space(text.first())),
        ServerMsg::System { text, ts } => text.len() > 0 && is_one_line(text) && is_notice(text),
        ServerMsg::Error { text } => is_one_line(text),
        ServerMsg::UserList { users } => forall|i: int|
            0 <= i < users.len() ==> is_plain_user(#[trigger] users[i]),
        ServerMsg::RoomList { rooms } => forall|i: int|
            0 <= i < rooms.len() ==> is_plain_room(#[trigger] rooms[i]),
        ServerMsg::Joined { room } => is_one_line(room),
        ServerMsg::UserJoined { username, room } => is_word(username) && is_tight(room)
            && !room.contains('\n'),
        ServerMsg::UserLeft { username, room } => is_word(username) && is_tight(room)
            && !room.contains('\n'),
    }
}

/// The message as the client has it, received at `ts`. Of a chat message the
/// text carries no room; a welcome, an error and a change of room are notices.
pub open spec fn as_seen(msg: ServerMsg, ts: i64) -> ServerMsg {
    match msg {
        ServerMsg::Welcome { username, room, motd } => ServerMsg::System {
            text: "[SERVER] "@ + motd + " (room: "@ + room + ")"@,
            ts,
        },
        ServerMsg::Chat { from, room, text, ts: sent } => ServerMsg::Chat {
            from,
            room: Seq::empty(),
            text,
            ts,
        },
        ServerMsg::Pm { from, text, ts: sent } => ServerMsg::Pm { from, text, ts },
        ServerMsg::System { text, ts: sent } => ServerMsg::System { text, ts },
        ServerMsg::Error { text } => ServerMsg::System { text: "Error: "@ + text, ts },
        ServerMsg::Joined { room } => ServerMsg::System { text: "Joined #"@ + room, ts },
        _ => msg,
    }
}

proof fn lemma_digit(d: nat)
    requires
        d < 10,
    ensures
        is_digit(digit(d)),
{
}

proof fn lemma_decimal2(n: nat)
    requires
        n < 100,
    ensures
        decimal2(n).len() == 2,
        is_digit(decimal2(n)[0]),
        is_digit(decimal2(n)[1]),
{
    reveal_with_fuel(decimal, 2);
    lemma_digit(n % 10);
    lemma_digit(n / 10);
    if n < 10 {
        assert(decimal2(n) =~= seq!['0', digit(n)]);
    } else {
        assert(decimal2(n) =~= seq![digit(n / 10), digit(n % 10)]);
    }
}

/// The form of a time of day.
pub proof fn lemma_clock(t: Seq<char>)
    requires
        is_clock(t),
    ensures
        t.len() == 8,
        is_digit(t[0]),
        is_stamp(t),
        !t.contains(']'),
        !t.contains('\n'),
{
    let (h, m, s) = choose|h: nat, m: nat, s: nat|
        h < 24 && m < 60 && s < 60 && t == #[trigger] clock_text(h, m, s);
    reveal_strlit(":");
    lemma_decimal2(h);
    lemma_decimal2(m);
    lemma_decimal2(s);
    assert(t[0] == decimal2(h)[0]);
    assert(t[1] == decimal2(h)[1]);
    assert(t[2] == ':');
    assert(t[3] == decimal2(m)[0]);
    assert(t[4] == decimal2(m)[1]);
    assert(t[5] == ':');
    assert(t[6] == decimal2(s)[0]);
    assert(t[7] == decimal2(s)[1]);
    assert(is_ascii_chars(t));
    is_ascii_chars_encode_utf8(t);
    assert(t[2] as u8 == 58);
}

/// A text with a visible first character keeps it when trimmed at its end.
proof fn lemma_trimmed_keeps_first(s: Seq<char>)
    requires
        s.len() > 0,
        !is_space(s.first()),
    ensures
        trimmed_start(s) == s,
        trimmed(s).len() > 0,
        trimmed(s)[0] == s[0],
{
    lemma_trimmed_end_keeps_first(s);
}

proof fn lemma_trimmed_end_keeps_first(s: Seq<char>)
    requires
        s.len() > 0,
        !is_space(s.first()),
    ensures
        trimmed_end(s).len() > 0,
        trimmed_end(s)[0] == s[0],
    decreases s.len(),
{
    if is_space(s.last()) {
        lemma_trimmed_end_keeps_first(s.drop_last());
    }
}

/// One line that is no list header gives the one message that it says.
pub proof fn lemma_one_line(line: Seq<char>, ts: i64)
    requires
        line.len() > 0,
        is_one_line(line),
        trimmed(line) != USER_LIST_HEADER@,
        trimmed(line) != ROOM_LIST_HEADER@,
    ensures
        received(idle(), line + "\n"@, ts) == seq![server_line(line, ts)],
{
    reveal_strlit("\n");
    let none = Seq::<char>::empty();
    assert(line + "\n"@ =~= line + seq!['\n'] + none);
    lemma_pieces_cons(line, '\n', none);
    let raws = pieces(line + "\n"@, '\n');
    assert(raws =~= seq![line, none]);
    assert(line_of(line) == line);
    assert(line_of(none) == none);
    reveal_with_fuel(collect_lines, 3);
    assert(raws.drop_last() =~= seq![line]);
    assert(seq![line].drop_last() =~= Seq::<Seq<char>>::empty());
    assert(collect_lines(idle(), raws, ts).1 =~= seq![server_line(line, ts)]);
    assert(received(idle(), line + "\n"@, ts) =~= seq![server_line(line, ts)]);
}

/// What follows the time of day on a line.
#[verifier::rlimit(40)]
pub proof fn lemma_stamped(clock: Seq<char>, rest: Seq<char>, ts: i64)
    requires
        is_clock(clock),
        rest.len() > 0,
        !is_space(rest.first()),
    ensures
        ({
            let line = "["@ + clock + "] "@ + rest;
            &&& pm_line(line, ts) is None
            &&& after_stamp(line) == Some(rest)
            &&& trimmed(line) != USER_LIST_HEADER@
            &&& trimmed(line) != ROOM_LIST_HEADER@
        }),
{
    let line = "["@ + clock + "] "@ + rest;
    reveal_strlit("[");
    reveal_strlit("]");
    reveal_strlit("] ");
    reveal_strlit("[PM from ");
    reveal_strlit("Online users:");
    reveal_strlit("Active Rooms:");
    lemma_clock(clock);
    assert(line[1] == clock[0]);
    lemma_not_prefix(line, "[PM from "@, 1);
    let inner = clock + "] "@ + rest;
    assert(line =~= "["@ + inner);
    lemma_prefix("["@, inner);
    let after = seq![' '] + rest;
    assert(inner =~= clock + "]"@ + after);
    assert("]"@ =~= seq![']']);
    lemma_first_char(clock, ']', "]"@, after);
    assert(after.drop_first() =~= rest);
    reveal_with_fuel(trimmed_start, 2);
    assert(trimmed_start(after) == rest);
    lemma_trimmed_keeps_first(line);
    assert(line[0] == '[');
}

/// A line that does not begin with a bracket is a notice.
pub proof fn lemma_unbracketed(line: Seq<char>, ts: i64)
    requires
        line.len() > 0,
        line[0] != '[',
    ensures
        server_line(line, ts) == (ServerMsg::System { text: line, ts }),
{
    reveal_strlit("[");
    reveal_strlit("[PM from ");
    lemma_not_prefix(line, "["@, 0);
    lemma_not_prefix(line, "[PM from "@, 0);
}

/// The client reads the server's text of every legible message as that message.
#[verifier::rlimit(40)]
pub proof fn law_messages_arrive(msg: ServerMsg, clock: Seq<char>, ts: i64)
    requires
        is_legible(msg),
        is_clock(clock),
    ensures
        received(idle(), server_text(msg, clock), ts) == seq![as_seen(msg, ts)],
{
    match msg {
        ServerMsg::Welcome { username, room, motd } => {
            lemma_welcome_arrives(room, motd, ts);
        },
        ServerMsg::Chat { from, room, text, ts: sent } => {
            lemma_chat_arrives(from, text, clock, ts);
        },
        ServerMsg::Pm { from, text, ts: sent } => {
            lemma_pm_arrives(from, text, ts);
        },
        ServerMsg::System { text, ts: sent } => {
            lemma_one_line(text, ts);
        },
        ServerMsg::Error { text } => {
            reveal_strlit("Error: ");
            lemma_plain_arrives("Error: "@, text, ts);
        },
        ServerMsg::UserList { users } => {
            lemma_users_arrive(users, ts);
        },
        ServerMsg::RoomList { rooms } => {
            lemma_rooms_arrive(rooms, ts);
        },
        ServerMsg::Joined { room } => {
            reveal_strlit("Joined #");
            lemma_plain_arrives("Joined #"@, room, ts);
        },
        ServerMsg::UserJoined { username, room } => {
            lemma_join_arrives(username, room, clock, ts);
        },
        ServerMsg::UserLeft { username, room } => {
            lemma_leave_arrives(username, room, clock, ts);
        },
    }
}

proof fn lemma_plain_arrives(head: Seq<char>, text: Seq<char>, ts: i64)
    requires
        head.len() > 0,
        head[0] == 'E' || head[0] == 'J',
        is_one_line(head),
        is_one_line(text),
    ensures
        received(idle(), head + text + "\n"@, ts) == seq![
            ServerMsg::System { text: head + text, ts },
        ],
{
    let line = head + text;
    reveal_strlit("Online users:");
    reveal_strlit("Active Rooms:");
    assert(line[0] == head[0]);
    lemma_neither_contains(head, text, '\n');
    if text.len() > 0 {
        assert(line.last() == text.last());
    } else {
        assert(line.last() == head.last());
    }
    lemma_trimmed_keeps_first(line);
    lemma_one_line(line, ts);
    lemma_unbracketed(line, ts);
}

/// Two texts without a character make a text without it.
pub proof fn lemma_neither_contains(a: Seq<char>, b: Seq<char>, c: char)
    requires
        !a.contains(c),
        !b.contains(c),
    ensures
        !(a + b).contains(c),
{
    let s = a + b;
    if s.contains(c) {
        let i = s.index_of(c);
        if i < a.len() {
            assert(a[i] == c);
        } else {
            assert(b[i - a.len()] == c);
        }
    }
}

/// A line of the server is a notice: its bracket holds no time of day.
proof fn lemma_server_bracket(rest: Seq<char>, ts: i64)
    ensures
        server_line("[SERVER] "@ + rest, ts) == (ServerMsg::System {
            text: "[SERVER] "@ + rest,
            ts,
        }),
{
    reveal_strlit("[SERVER] ");
    reveal_strlit("[");
    reveal_strlit("]");
    reveal_strlit("[PM from ");
    let line = "[SERVER] "@ + rest;
    assert(line[1] == 'S');
    lemma_not_prefix(line, "[PM from "@, 1);
    let word = seq!['S', 'E', 'R', 'V', 'E', 'R'];
    let after = line.skip(8);
    assert(line =~= "["@ + (word + "]"@ + after));
    lemma_prefix("["@, word + "]"@ + after);
    assert("]"@ =~= seq![']']);
    lemma_first_char(word, ']', "]"@, after);
    assert(is_ascii_chars(word));
    is_ascii_chars_encode_utf8(word);
    assert(!is_stamp(word));
}

proof fn lemma_welcome_arrives(room: Seq<char>, motd: Seq<char>, ts: i64)
    requires
        !motd.contains('\n'),
        !room.contains('\n'),
    ensures
        received(idle(), "[SERVER] "@ + motd + " (room: "@ + room + ")\n"@, ts) == seq![
            ServerMsg::System { text: "[SERVER] "@ + motd + " (room: "@ + room + ")"@, ts },
        ],
{
    let line = "[SERVER] "@ + motd + " (room: "@ + room + ")"@;
    let rest = motd + " (room: "@ + room + ")"@;
    assert(line =~= "[SERVER] "@ + rest);
    lemma_server_bracket(rest, ts);
    reveal_strlit("[SERVER] ");
    reveal_strlit(" (room: ");
    reveal_strlit(")");
    reveal_strlit(")\n");
    reveal_strlit("\n");
    reveal_strlit("Online users:");
    reveal_strlit("Active Rooms:");
    assert("[SERVER] "@ + motd + " (room: "@ + room + ")\n"@ =~= line + "\n"@);
    assert(line.last() == ')');
    assert(line[0] == '[');
    lemma_neither_contains("[SERVER] "@, motd, '\n');
    lemma_neither_contains("[SERVER] "@ + motd, " (room: "@, '\n');
    lemma_neither_contains("[SERVER] "@ + motd + " (room: "@, room, '\n');
    lemma_neither_contains("[SERVER] "@ + motd + " (room: "@ + room, ")"@, '\n');
    lemma_trimmed_keeps_first(line);
    lemma_one_line(line, ts);
}

#[verifier::rlimit(40)]
pub proof fn lemma_chat_arrives(from: Seq<char>, text: Seq<char>, clock: Seq<char>, ts: i64)
    requires
        is_word(from),
        is_one_line(text),
        !begins_with(text, "joined "@),
        !begins_with(text, "left "@),
        is_clock(clock),
    ensures
        received(idle(), "["@ + clock + "] "@ + from + ": "@ + text + "\n"@, ts) == seq![
            ServerMsg::Chat { from, room: Seq::empty(), text, ts },
        ],
{
    reveal_strlit("[");
    reveal_strlit("] ");
    reveal_strlit(": ");
    reveal_strlit(" ");
    reveal_strlit("\n");
    let rest = from + ": "@ + text;
    let line = "["@ + clock + "] "@ + rest;
    assert("["@ + clock + "] "@ + from + ": "@ + text + "\n"@ =~= line + "\n"@);
    lemma_clock(clock);
    assert(rest[0] == from[0]);
    lemma_stamped(clock, rest, ts);
    assert(line.last() != '\r') by {
        if text.len() > 0 {
            assert(line.last() == text.last());
        } else {
            assert(line.last() == ' ');
        }
    }
    assert(!line.contains('\n')) by {
        if line.contains('\n') {
            let i = choose|i: int| 0 <= i < line.len() && line[i] == '\n';
            if i == 0 {
            } else if i < 9 {
                assert(clock[i - 1] == '\n');
            } else if i < 11 {
                assert("] "@[i - 9] == '\n');
            } else if i < 11 + from.len() {
                assert(from[i - 11] == '\n');
            } else if i < 13 + from.len() {
                assert(": "@[i - 11 - from.len()] == '\n');
            } else {
                assert(text[i - 13 - from.len()] == '\n');
            }
        }
    }
    lemma_one_line(line, ts);
    // The first space stands after the colon: the tail of the line is the text.
    let user = from.push(':');
    assert(rest =~= user + " "@ + text);
    assert(" "@ =~= seq![' ']);
    assert(!user.contains(' ')) by {
        if user.contains(' ') {
            let i = choose|i: int| 0 <= i < user.len() && user[i] == ' ';
            if i < from.len() {
                assert(from[i] == ' ');
            }
        }
    }
    lemma_first_char(user, ' ', " "@, text);
    assert(move_notice(rest) is None);
    // The first colon before a space is the one after the name.
    assert(rest.subrange(from.len() as int, from.len() as int + 2) =~= ": "@);
    assert forall|j: int| 0 <= j < from.len() implies !#[trigger] occurs_at(rest, ": "@, j) by {
        if occurs_at(rest, ": "@, j) {
            assert(rest.subrange(j, j + 2)[1] == rest[j + 1]);
            if j + 1 < from.len() {
                assert(from[j + 1] == ' ');
            }
        }
    }
    lemma_first_match(rest, ": "@, from.len() as int);
    assert(rest.take(from.len() as int) =~= from);
    assert(rest.skip(from.len() as int + 2) =~= text);
}

#[verifier::rlimit(40)]
proof fn lemma_pm_arrives(from: Seq<char>, text: Seq<char>, ts: i64)
    requires
        !from.contains(']'),
        !from.contains('\n'),
        is_one_line(text),
        text.len() > 0 ==> !is_space(text.first()),
    ensures
        received(idle(), "[PM from "@ + from + "] "@ + text + "\n"@, ts) == seq![
            ServerMsg::Pm { from, text, ts },
        ],
{
    reveal_strlit("[PM from ");
    reveal_strlit("]");
    reveal_strlit("] ");
    reveal_strlit("\n");
    reveal_strlit("Online users:");
    reveal_strlit("Active Rooms:");
    let line = "[PM from "@ + from + "] "@ + text;
    assert(line.last() != '\r') by {
        if text.len() > 0 {
            assert(line.last() == text.last());
        } else {
            assert(line.last() == ' ');
        }
    }
    assert(!line.contains('\n')) by {
        if line.contains('\n') {
            let i = choose|i: int| 0 <= i < line.len() && line[i] == '\n';
            if i < 9 {
                assert("[PM from "@[i] == '\n');
            } else if i < 9 + from.len() {
                assert(from[i - 9] == '\n');
            } else if i < 11 + from.len() {
                assert("] "@[i - 9 - from.len()] == '\n');
            } else {
                assert(text[i - 11 - from.len()] == '\n');
            }
        }
    }
    assert(line[0] == '[');
    lemma_trimmed_keeps_first(line);
    lemma_one_line(line, ts);
    let after = seq![' '] + text;
    let inner = from + "]"@ + after;
    assert(line =~= "[PM from "@ + inner);
    lemma_prefix("[PM from "@, inner);
    assert("]"@ =~= seq![']']);
    lemma_first_char(from, ']', "]"@, after);
    assert(after.drop_first() =~= text);
    reveal_with_fuel(trimmed_start, 2);
    assert(trimmed_start(after) == text);
}

/// What the client makes of a line with a user's name and something more.
pub proof fn lemma_named_line(user: Seq<char>, rest: Seq<char>, clock: Seq<char>, ts: i64)
    requires
        is_word(user),
        is_clock(clock),
    ensures
        ({
            let line = "["@ + clock + "] "@ + (user + " "@ + rest);
            &&& pm_line(line, ts) is None
            &&& after_stamp(line) == Some(user + " "@ + rest)
            &&& at_first_space(user + " "@ + rest) == Some((user, rest))
            &&& trimmed(line) != USER_LIST_HEADER@
            &&& trimmed(line) != ROOM_LIST_HEADER@
        }),
{
    reveal_strlit(" ");
    let named = user + " "@ + rest;
    assert(named[0] == user[0]);
    lemma_stamped(clock, named, ts);
    assert(" "@ =~= seq![' ']);
    lemma_first_char(user, ' ', " "@, rest);
}

#[verifier::rlimit(40)]
proof fn lemma_join_arrives(user: Seq<char>, room: Seq<char>, clock: Seq<char>, ts: i64)
    requires
        is_word(user),
        is_tight(room),
        !room.contains('\n'),
        is_clock(clock),
    ensures
        received(idle(), "["@ + clock + "] "@ + user + " joined room "@ + room + "\n"@, ts) == seq![
            ServerMsg::UserJoined { username: user, room },
        ],
{
    let rest = "joined room "@ + room;
    let named = user + " "@ + rest;
    let line = "["@ + clock + "] "@ + named;
    assert(line + "\n"@ =~= "["@ + clock + "] "@ + user + " joined room "@ + room + "\n"@
        && is_one_line(line)) by {
        reveal_strlit(" ");
        reveal_strlit(" joined room ");
        reveal_strlit("joined room ");
        assert(named =~= user + " joined room "@ + room);
        lemma_move_is_one_line(user, " joined room "@, room, clock);
    }
    lemma_named_line(user, rest, clock, ts);
    assert(begins_with(rest, "joined "@)) by {
        reveal_strlit("joined ");
        reveal_strlit("joined room ");
        assert(rest.take(7) =~= "joined "@);
    }
    lemma_prefix("joined room "@, room);
    lemma_tight(room);
    assert(line.len() > 0);
    lemma_one_line(line, ts);
}

#[verifier::rlimit(40)]
proof fn lemma_leave_arrives(user: Seq<char>, room: Seq<char>, clock: Seq<char>, ts: i64)
    requires
        is_word(user),
        is_tight(room),
        !room.contains('\n'),
        is_clock(clock),
    ensures
        received(idle(), "["@ + clock + "] "@ + user + " left room "@ + room + "\n"@, ts) == seq![
            ServerMsg::UserLeft { username: user, room },
        ],
{
    let rest = "left room "@ + room;
    let named = user + " "@ + rest;
    let line = "["@ + clock + "] "@ + named;
    assert(line + "\n"@ =~= "["@ + clock + "] "@ + user + " left room "@ + room + "\n"@
        && is_one_line(line)) by {
        reveal_strlit(" ");
        reveal_strlit(" left room ");
        reveal_strlit("left room ");
        assert(named =~= user + " left room "@ + room);
        lemma_move_is_one_line(user, " left room "@, room, clock);
    }
    lemma_named_line(user, rest, clock, ts);
    assert(begins_with(rest, "left "@) && !begins_with(rest, "joined "@)) by {
        reveal_strlit("left ");
        reveal_strlit("joined ");
        reveal_strlit("left room ");
        assert(rest.take(5) =~= "left "@);
        assert(rest[0] == 'l');
        lemma_not_prefix(rest, "joined "@, 0);
    }
    lemma_prefix("left room "@, room);
    lemma_tight(room);
    assert(line.len() > 0);
    lemma_one_line(line, ts);
}

#[verifier::rlimit(40)]
proof fn lemma_move_is_one_line(
    user: Seq<char>,
    verb: Seq<char>,
    room: Seq<char>,
    clock: Seq<char>,
)
    requires
        is_word(user),
        is_tight(room),
        !room.contains('\n'),
        is_one_line(verb),
        verb.len() > 0,
        is_clock(clock),
    ensures
        is_one_line("["@ + clock + "] "@ + (user + verb + room)),
{
    reveal_strlit("[");
    reveal_strlit("] ");
    lemma_clock(clock);
    let line = "["@ + clock + "] "@ + (user + verb + room);
    if room.len() > 0 {
        assert(line.last() == room.last());
    } else {
        assert(line.last() == verb.last());
    }
    if line.contains('\n') {
        let i = choose|i: int| 0 <= i < line.len() && line[i] == '\n';
        let u = 11 + user.len();
        if i == 0 {
        } else if i < 9 {
            assert(clock[i - 1] == '\n');
        } else if i < 11 {
            assert("] "@[i - 9] == '\n');
        } else if i < u {
            assert(user[i - 11] == '\n');
        } else if i < u + verb.len() {
            assert(verb[i - u] == '\n');
        } else {
            assert(room[i - u - verb.len()] == '\n');
        }
    }
}

// ---------------------------------------------------------------------------
// Lists
// ---------------------------------------------------------------------------

/// Text without separators extends the last piece.
proof fn lemma_pieces_extend(a: Seq<char>, b: Seq<char>, c: char)
    requires
        !b.contains(c),
    ensures
        pieces(a + b, c) == pieces(a, c).drop_last().push(pieces(a, c).last() + b),
    decreases b.len(),
{
    lemma_pieces_nonempty(a, c);
    if b.len() == 0 {
        assert(a + b =~= a);
        assert(pieces(a, c).last() + b =~= pieces(a, c).last());
        assert(pieces(a, c) =~= pieces(a, c).drop_last().push(pieces(a, c).last() + b));
    } else {
        let t = b.drop_last();
        assert(b[b.len() - 1] != c);
        assert(!t.contains(c)) by {
            if t.contains(c) {
                let i = choose|i: int| 0 <= i < t.len() && t[i] == c;
                assert(b[i] == c);
            }
        }
        lemma_pieces_extend(a, t, c);
        assert((a + b).drop_last() =~= a + t);
        assert((a + b).last() == b.last());
        let before = pieces(a + t, c);
        assert(before.drop_last() =~= pieces(a, c).drop_last());
        assert(before.last() == pieces(a, c).last() + t);
        assert((pieces(a, c).last() + t).push(b.last()) =~= pieces(a, c).last() + b);
    }
}

/// The lines of the entries of a list.
pub open spec fn entry_lines(items: Seq<Seq<char>>) -> Seq<Seq<char>> {
    items.map_values(|i: Seq<char>| " - "@ + i)
}

/// The lines of a list's text: the header, the entries and an empty rest.
pub proof fn lemma_listing_pieces(header: Seq<char>, items: Seq<Seq<char>>)
    requires
        !header.contains('\n'),
        forall|i: int| 0 <= i < items.len() ==> !(#[trigger] items[i]).contains('\n'),
    ensures
        pieces(header + "\n"@ + listing(items), '\n') == (seq![header] + entry_lines(items)).push(
            Seq::empty(),
        ),
    decreases items.len(),
{
    reveal_strlit("\n");
    reveal_strlit(" - ");
    let none = Seq::<char>::empty();
    if items.len() == 0 {
        assert(header + "\n"@ + listing(items) =~= header + seq!['\n'] + none);
        lemma_pieces_cons(header, '\n', none);
        assert(pieces(header + "\n"@ + listing(items), '\n') =~= (seq![header] + entry_lines(
            items,
        )).push(none));
    } else {
        let fewer = items.drop_last();
        let item = items.last();
        let entry = " - "@ + item;
        let a = header + "\n"@ + listing(fewer);
        assert forall|i: int| 0 <= i < fewer.len() implies !(#[trigger] fewer[i]).contains(
            '\n',
        ) by {
            assert(fewer[i] == items[i]);
        }
        lemma_listing_pieces(header, fewer);
        assert(!items[items.len() - 1].contains('\n'));
        assert(!entry.contains('\n')) by {
            if entry.contains('\n') {
                let i = choose|i: int| 0 <= i < entry.len() && entry[i] == '\n';
                if i < 3 {
                    assert(" - "@[i] == '\n');
                } else {
                    assert(item[i - 3] == '\n');
                }
            }
        }
        lemma_pieces_extend(a, entry, '\n');
        let whole = header + "\n"@ + listing(items);
        assert(whole =~= (a + entry).push('\n'));
        assert(whole.drop_last() =~= a + entry);
        assert(none + entry =~= entry);
        assert(pieces(a, '\n').drop_last() =~= seq![header] + entry_lines(fewer));
        assert(entry_lines(items) =~= entry_lines(fewer).push(entry));
        assert(pieces(whole, '\n') =~= (seq![header] + entry_lines(items)).push(none));
    }
}

/// The entry that a list line holds.
pub proof fn lemma_entry_line(item: Seq<char>)
    requires
        is_tight(item),
    ensures
        ({
            let line = " - "@ + item;
            &&& line.len() > 0
            &&& line_of(line) == line
            &&& list_entry(line) == Some(item)
            &&& trimmed(line) != USER_LIST_HEADER@
            &&& trimmed(line) != ROOM_LIST_HEADER@
        }),
{
    reveal_strlit(" - ");
    reveal_strlit("- ");
    reveal_strlit("Online users:");
    reveal_strlit("Active Rooms:");
    let line = " - "@ + item;
    let rest = "- "@ + item;
    assert(line.drop_first() =~= rest);
    assert(rest[0] == '-');
    reveal_with_fuel(trimmed_start, 2);
    assert(trimmed_start(line) == rest);
    lemma_trimmed_keeps_first(rest);
    lemma_prefix("- "@, item);
    lemma_tight(item);
    if item.len() > 0 {
        assert(line.last() == item.last());
    } else {
        assert(line.last() == ' ');
    }
}

/// A list's header and entries put the collector in the middle of that list.
proof fn lemma_collect_entries(
    header: Seq<char>,
    mode: CollectMode,
    items: Seq<Seq<char>>,
    ts: i64,
)
    requires
        mode == CollectMode::Users && header == USER_LIST_HEADER@ || mode == CollectMode::Rooms
            && header == ROOM_LIST_HEADER@,
        forall|i: int| 0 <= i < items.len() ==> is_tight(#[trigger] items[i]),
    ensures
        collect_lines(idle(), seq![header] + entry_lines(items), ts) == (
            Collecting { mode, items },
            Seq::<ServerMsg>::empty(),
        ),
    decreases items.len(),
{
    let raws = seq![header] + entry_lines(items);
    if items.len() == 0 {
        assert(items =~= Seq::<Seq<char>>::empty());
        reveal_strlit("Online users:");
        reveal_strlit("Active Rooms:");
        lemma_tight(header);
        assert(raws =~= seq![header]);
        assert(raws.drop_last() =~= Seq::<Seq<char>>::empty());
        assert(header[header.len() - 1] == ':');
        assert(line_of(header) == header);
        assert(USER_LIST_HEADER@[0] == 'O');
        assert(ROOM_LIST_HEADER@[0] == 'A');
        reveal_with_fuel(collect_lines, 2);
        assert(collect_lines(idle(), raws, ts).1 =~= Seq::<ServerMsg>::empty());
    } else {
        let fewer = items.drop_last();
        assert forall|i: int| 0 <= i < fewer.len() implies is_tight(#[trigger] fewer[i]) by {
            assert(fewer[i] == items[i]);
        }
        lemma_collect_entries(header, mode, fewer, ts);
        assert(raws.drop_last() =~= seq![header] + entry_lines(fewer));
        assert(is_tight(items[items.len() - 1]));
        lemma_entry_line(items.last());
        assert(raws.last() == " - "@ + items.last());
        assert(fewer.push(items.last()) =~= items);
        assert(collect_lines(idle(), raws, ts).1 =~= Seq::<ServerMsg>::empty());
    }
}

/// The messages of a list's text: the list that it writes.
pub proof fn lemma_list_received(
    header: Seq<char>,
    mode: CollectMode,
    items: Seq<Seq<char>>,
    ts: i64,
)
    requires
        mode == CollectMode::Users && header == USER_LIST_HEADER@ || mode == CollectMode::Rooms
            && header == ROOM_LIST_HEADER@,
        forall|i: int|
            0 <= i < items.len() ==> is_tight(#[trigger] items[i]) && !items[i].contains('\n'),
    ensures
        received(idle(), header + "\n"@ + listing(items), ts) == open_list(
            Collecting { mode, items },
        ),
{
    reveal_strlit("Online users:");
    reveal_strlit("Active Rooms:");
    assert forall|i: int| 0 <= i < header.len() implies header[i] != '\n' by {}
    lemma_listing_pieces(header, items);
    lemma_collect_entries(header, mode, items, ts);
    let none = Seq::<char>::empty();
    let raws = (seq![header] + entry_lines(items)).push(none);
    assert(raws.drop_last() =~= seq![header] + entry_lines(items));
    assert(line_of(none) == none);
    assert(received(idle(), header + "\n"@ + listing(items), ts) =~= open_list(
        Collecting { mode, items },
    ));
}

proof fn lemma_users_arrive(users: Seq<Seq<char>>, ts: i64)
    requires
        forall|i: int| 0 <= i < users.len() ==> is_plain_user(#[trigger] users[i]),
    ensures
        received(idle(), "Online users:\n"@ + listing(users), ts) == seq![
            ServerMsg::UserList { users },
        ],
{
    reveal_strlit("Online users:");
    reveal_strlit("Online users:\n");
    reveal_strlit("\n");
    assert("Online users:\n"@ =~= USER_LIST_HEADER@ + "\n"@);
    assert forall|i: int| 0 <= i < users.len() implies is_tight(#[trigger] users[i])
        && !users[i].contains('\n') by {
        assert(is_plain_user(users[i]));
    }
    lemma_list_received(USER_LIST_HEADER@, CollectMode::Users, users, ts);
    assert forall|i: int| 0 <= i < users.len() implies user_names(users)[i] == users[i] by {
        assert(is_plain_user(users[i]));
        lemma_tight(users[i]);
    }
    assert(user_names(users) =~= users);
}

proof fn lemma_rooms_arrive(rooms: Seq<Seq<char>>, ts: i64)
    requires
        forall|i: int| 0 <= i < rooms.len() ==> is_plain_room(#[trigger] rooms[i]),
    ensures
        received(idle(), "Active Rooms:\n"@ + listing(rooms), ts) == seq![
            ServerMsg::RoomList { rooms },
        ],
{
    reveal_strlit("Active Rooms:");
    reveal_strlit("Active Rooms:\n");
    reveal_strlit("\n");
    assert("Active Rooms:\n"@ =~= ROOM_LIST_HEADER@ + "\n"@);
    assert forall|i: int| 0 <= i < rooms.len() implies is_tight(#[trigger] rooms[i])
        && !rooms[i].contains('\n') by {
        assert(is_plain_room(rooms[i]));
    }
    lemma_list_received(ROOM_LIST_HEADER@, CollectMode::Rooms, rooms, ts);
    assert forall|i: int| 0 <= i < rooms.len() implies room_names(rooms)[i] == rooms[i] by {
        assert(is_plain_room(rooms[i]));
        lemma_tight(rooms[i]);
    }
    assert(room_names(rooms) =~= rooms);
}

// ---------------------------------------------------------------------------
// List entries
// ---------------------------------------------------------------------------

/// A text that begins with a space is first found after a word without spaces.
pub proof fn lemma_found_after_word(a: Seq<char>, p: Seq<char>, b: Seq<char>)
    requires
        !a.contains(' '),
        p.len() > 0,
        p[0] == ' ',
    ensures
        first_match(a + p + b, p) == Some(a.len() as int),
        (a + p + b).take(a.len() as int) == a,
        (a + p + b).skip((a.len() + p.len()) as int) == b,
{
    let s = a + p + b;
    let n = a.len() as int;
    lemma_parts(a, p, b);
    assert forall|j: int| 0 <= j < n implies !#[trigger] occurs_at(s, p, j) by {
        lemma_not_in_word(a, p, b, j);
    }
    lemma_first_match(s, p, n);
}

/// The three parts of a text.
proof fn lemma_parts(a: Seq<char>, p: Seq<char>, b: Seq<char>)
    ensures
        ({
            let s = a + p + b;
            let n = a.len() as int;
            &&& occurs_at(s, p, n)
            &&& s.take(n) == a
            &&& s.skip((n + p.len()) as int) == b
        }),
{
    let s = a + p + b;
    let n = a.len() as int;
    assert(s.subrange(n, n + p.len()) =~= p);
    assert(s.take(n) =~= a);
    assert(s.skip(n + p.len()) =~= b);
}

/// A text that begins with a space does not stand in a word.
proof fn lemma_not_in_word(a: Seq<char>, p: Seq<char>, b: Seq<char>, j: int)
    requires
        !a.contains(' '),
        p.len() > 0,
        p[0] == ' ',
        0 <= j < a.len(),
    ensures
        !occurs_at(a + p + b, p, j),
{
    let s = a + p + b;
    if occurs_at(s, p, j) {
        assert(s.subrange(j, j + p.len())[0] == s[j]);
        assert(s[j] == a[j]);
        assert(a[j] == ' ');
    }
}

/// An entry that gives a user with a room is read as that user and that room.
pub proof fn law_user_entries_read_back(name: Seq<char>, room: Seq<char>)
    requires
        !name.contains(' '),
        is_tight(name),
        is_tight(room),
        room.len() > 0 ==> room.last() != ')',
    ensures
        user_entry(name + " (room: "@ + room + ")"@) == (name, Some(room)),
{
    reveal_strlit(" (room: ");
    reveal_strlit(")");
    let rest = room + ")"@;
    assert(name + " (room: "@ + room + ")"@ =~= name + " (room: "@ + rest);
    lemma_found_after_word(name, " (room: "@, rest);
    lemma_tight(name);
    lemma_tight(room);
    assert(rest.drop_last() =~= room);
    reveal_with_fuel(stripped_end, 3);
    assert(stripped_end(rest, ')') == room);
}

/// An entry that gives a room with the number of its users is read as that room
/// and that number.
pub proof fn law_room_entries_read_back(name: Seq<char>, n: nat)
    requires
        !name.contains(' '),
        is_tight(name),
        n <= usize::MAX,
    ensures
        room_entry(name + " ("@ + decimal(n) + " users)"@) == (name, Some(n)),
{
    reveal_strlit(" (");
    reveal_strlit(" users)");
    let d = decimal(n);
    let rest = d + " users)"@;
    assert(name + " ("@ + d + " users)"@ =~= name + " ("@ + rest);
    lemma_found_after_word(name, " ("@, rest);
    lemma_tight(name);
    lemma_decimal(n);
    law_numbers_read_back(n);
    assert forall|k: int| 0 <= k < d.len() implies !is_space(rest[k]) by {
        assert(is_digit(d[k]));
    }
    assert(!is_space(rest[0]));
    assert(trimmed_start(rest) == rest);
    assert(rest[d.len() as int] == ' ');
    lemma_word_len(rest, d.len() as int);
    assert(rest.take(d.len() as int) =~= d);
}

} // verus!
