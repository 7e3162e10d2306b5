//! Laws on what the user of the client sees and sends.

use vstd::prelude::*;

use crate::app::{first_screen, scrolled_down, scrolled_up, shown, Row, RowKind, Screen};
use crate::client::{can_scroll, commanded, entered_line, keyed, served, word_and_rest, Outcome};
use crate::commands::{is_blank, law_trimming_finds_the_core};
use crate::connection::ConnStatus;
use crate::format::joined;
use crate::input::{moved_left, moved_right, no_input, typed, Editing};
use crate::keys::Key;
use crate::net::at_first_space;
use crate::protocol::{ClientMsg, ServerMsg};
use crate::roundtrip::{is_tight, lemma_first_char, lemma_tight};
use crate::text::{begins_with, is_space, lemma_no_match, occurs_at};

verus! {

// ---------------------------------------------------------------------------
// The history
// ---------------------------------------------------------------------------

/// Whether `b` is `a` with `row` as its newest line: the lines before it are the
/// newest of `a` in their order, two thousand lines are kept in all, a user who
/// has scrolled up stays on the same lines, and nothing else is different.
pub open spec fn gains(a: Screen, b: Screen, row: Row) -> bool {
    &&& b == Screen { history: b.history, scroll_offset: b.scroll_offset, ..a }
    &&& b.history.len() == (if a.history.len() < 2000 {
        a.history.len() + 1
    } else {
        2000
    })
    &&& b.history.last() == row
    &&& forall|i: int|
        1 <= i < b.history.len() ==> #[trigger] b.history[b.history.len() - 1 - i]
            == a.history[a.history.len() - i]
    &&& a.scroll_offset == 0 ==> b.scroll_offset == 0
    &&& 0 < a.scroll_offset < usize::MAX ==> b.scroll_offset == a.scroll_offset + 1
    &&& a.scroll_offset == usize::MAX ==> b.scroll_offset == usize::MAX
}

/// The screen takes a line as its newest, and keeps the rest.
pub proof fn law_the_newest_line_is_shown(a: Screen, row: Row)
    requires
        a.history.len() <= 2000,
    ensures
        gains(a, shown(a, row), row),
{
    let b = shown(a, row);
    assert forall|i: int| 1 <= i < b.history.len() implies #[trigger] b.history[b.history.len() - 1
        - i] == a.history[a.history.len() - i] by {}
}

/// A client starts under the name and for the server that it was given, in the
/// default room, with nobody known to be online, nothing shown and nothing
/// typed, on its way to connect.
pub proof fn law_a_client_starts_empty(username: Seq<char>, server_addr: Seq<char>)
    ensures
        ({
            let a = first_screen(username, server_addr);
            &&& a.username == username
            &&& a.server_addr == server_addr
            &&& a.current_room == "general"@
            &&& a.online.len() == 0
            &&& a.history.len() == 0
            &&& a.input.before.len() == 0 && a.input.after.len() == 0
            &&& a.scroll_offset == 0
            &&& a.connection == ConnStatus::Connecting
            &&& a.suggest_idx == 0
        }),
{
}

// ---------------------------------------------------------------------------
// Messages of the server
// ---------------------------------------------------------------------------

/// News of who joins or leaves another room than the current one show nothing
/// and change nothing. News of the current room add one notice that names the
/// user and says which of the two it was.
pub proof fn law_moves_are_news_where_they_happen(
    a: Screen,
    username: Seq<char>,
    room: Seq<char>,
    ts: i64,
)
    requires
        a.history.len() <= 2000,
    ensures
        room != a.current_room ==> served(a, ServerMsg::UserJoined { username, room }, ts) == a,
        room != a.current_room ==> served(a, ServerMsg::UserLeft { username, room }, ts) == a,
        room == a.current_room ==> gains(
            a,
            served(a, ServerMsg::UserJoined { username, room }, ts),
            Row { kind: RowKind::System, text: username + " joined"@, ts },
        ),
        room == a.current_room ==> gains(
            a,
            served(a, ServerMsg::UserLeft { username, room }, ts),
            Row { kind: RowKind::System, text: username + " left"@, ts },
        ),
{
    law_the_newest_line_is_shown(
        a,
        Row { kind: RowKind::System, text: username + " joined"@, ts },
    );
    law_the_newest_line_is_shown(a, Row { kind: RowKind::System, text: username + " left"@, ts });
}

/// A chat line and a private message are shown with who sent them, their whole
/// text and their own time, whatever room they name.
pub proof fn law_what_others_say_is_shown(
    a: Screen,
    from: Seq<char>,
    room: Seq<char>,
    text: Seq<char>,
    sent: i64,
    ts: i64,
)
    requires
        a.history.len() <= 2000,
    ensures
        gains(
            a,
            served(a, ServerMsg::Chat { from, room, text, ts: sent }, ts),
            Row { kind: RowKind::Chat { from }, text, ts: sent },
        ),
        gains(
            a,
            served(a, ServerMsg::Pm { from, text, ts: sent }, ts),
            Row { kind: RowKind::Pm { from, outgoing: false }, text, ts: sent },
        ),
        gains(
            a,
            served(a, ServerMsg::System { text, ts: sent }, ts),
            Row { kind: RowKind::System, text, ts: sent },
        ),
        gains(
            a,
            served(a, ServerMsg::Error { text }, ts),
            Row { kind: RowKind::Error, text, ts },
        ),
{
    law_the_newest_line_is_shown(a, Row { kind: RowKind::Chat { from }, text, ts: sent });
    law_the_newest_line_is_shown(
        a,
        Row { kind: RowKind::Pm { from, outgoing: false }, text, ts: sent },
    );
    law_the_newest_line_is_shown(a, Row { kind: RowKind::System, text, ts: sent });
    law_the_newest_line_is_shown(a, Row { kind: RowKind::Error, text, ts });
}

/// Who is let into a room has it as the current room, and sees a notice with
/// its name. A welcome also shows the greeting.
pub proof fn law_the_current_room_follows(
    a: Screen,
    username: Seq<char>,
    room: Seq<char>,
    motd: Seq<char>,
    ts: i64,
) -> (mid: Screen)
    requires
        a.history.len() <= 2000,
    ensures
        gains(
            Screen { current_room: room, ..a },
            served(a, ServerMsg::Joined { room }, ts),
            Row { kind: RowKind::System, text: "→ #"@ + room, ts },
        ),
        gains(
            Screen { current_room: room, ..a },
            mid,
            Row { kind: RowKind::System, text: "connected · "@ + motd, ts },
        ),
        gains(
            mid,
            served(a, ServerMsg::Welcome { username, room, motd }, ts),
            Row { kind: RowKind::System, text: "joined #"@ + room, ts },
        ),
{
    let b = Screen { current_room: room, ..a };
    let first = Row { kind: RowKind::System, text: "connected · "@ + motd, ts };
    let second = Row { kind: RowKind::System, text: "joined #"@ + room, ts };
    let mid = shown(b, first);
    law_the_newest_line_is_shown(b, Row { kind: RowKind::System, text: "→ #"@ + room, ts });
    law_the_newest_line_is_shown(b, first);
    law_the_newest_line_is_shown(mid, second);
    mid
}

/// A list of users becomes the list of who is online, and is shown by name with
/// the current room; a list of rooms is shown by name and changes nothing else.
pub proof fn law_lists_are_shown(a: Screen, items: Seq<Seq<char>>, ts: i64)
    requires
        a.history.len() <= 2000,
    ensures
        gains(
            Screen { online: items, ..a },
            served(a, ServerMsg::UserList { users: items }, ts),
            Row {
                kind: RowKind::System,
                text: "users in #"@ + a.current_room + ": "@ + joined(items, ", "@),
                ts,
            },
        ),
        gains(
            a,
            served(a, ServerMsg::RoomList { rooms: items }, ts),
            Row { kind: RowKind::System, text: "rooms: "@ + joined(items, ", "@), ts },
        ),
{
    law_the_newest_line_is_shown(
        Screen { online: items, ..a },
        Row {
            kind: RowKind::System,
            text: "users in #"@ + a.current_room + ": "@ + joined(items, ", "@),
            ts,
        },
    );
    law_the_newest_line_is_shown(
        a,
        Row { kind: RowKind::System, text: "rooms: "@ + joined(items, ", "@), ts },
    );
}

/// A joined list is the list: one more item comes after the separator.
pub proof fn law_joined_lists_grow(items: Seq<Seq<char>>, item: Seq<char>, sep: Seq<char>)
    ensures
        joined(Seq::empty(), sep) == Seq::<char>::empty(),
        joined(seq![item], sep) == item,
        items.len() > 0 ==> joined(items.push(item), sep) == joined(items, sep) + sep + item,
{
    assert(items.push(item).drop_last() =~= items);
}

// ---------------------------------------------------------------------------
// Lines of the user
// ---------------------------------------------------------------------------

/// A line that is no command is sent whole, and shown as the user's own.
pub proof fn law_chat_is_sent_and_shown(a: Screen, text: Seq<char>, ts: i64)
    requires
        a.history.len() <= 2000,
        text.len() > 0,
        text[0] != '/',
    ensures
        entered_line(a, text, ts).1 == Outcome::Send(ClientMsg::Say { text }),
        gains(
            a,
            entered_line(a, text, ts).0,
            Row { kind: RowKind::Chat { from: a.username }, text, ts },
        ),
{
    reveal_strlit("/");
    assert(!begins_with(text, "/"@)) by {
        if begins_with(text, "/"@) {
            assert(text.take(1)[0] == '/');
        }
    }
    law_the_newest_line_is_shown(a, Row { kind: RowKind::Chat { from: a.username }, text, ts });
}

/// An empty line does nothing.
pub proof fn law_empty_lines_do_nothing(a: Screen, ts: i64)
    ensures
        entered_line(a, Seq::empty(), ts) == (a, Outcome::Stay),
{
}

/// The first word of a command line and what follows it.
proof fn lemma_command_words(w: Seq<char>, r: Seq<char>)
    requires
        !w.contains(' '),
    ensures
        begins_with("/"@ + w, "/"@),
        word_and_rest(("/"@ + w).skip(1)) == (w, Seq::<char>::empty()),
        begins_with("/"@ + w + " "@ + r, "/"@),
        word_and_rest(("/"@ + w + " "@ + r).skip(1)) == (w, r),
{
    reveal_strlit("/");
    reveal_strlit(" ");
    assert(" "@ =~= seq![' ']);
    assert(("/"@ + w).take(1) =~= "/"@);
    assert(("/"@ + w).skip(1) =~= w);
    assert(("/"@ + w + " "@ + r).take(1) =~= "/"@);
    assert(("/"@ + w + " "@ + r).skip(1) =~= w + " "@ + r);
    lemma_first_char(w, ' ', " "@, r);
    assert forall|j: int| 0 <= j <= w.len() - " "@.len() implies !#[trigger] occurs_at(
        w,
        " "@,
        j,
    ) by {
        if occurs_at(w, " "@, j) {
            assert(w.subrange(j, j + 1)[0] == w[j]);
        }
    }
    lemma_no_match(w, " "@);
}

proof fn lemma_entered_command(a: Screen, w: Seq<char>, r: Seq<char>, ts: i64)
    requires
        !w.contains(' '),
    ensures
        entered_line(a, "/"@ + w, ts).0 == commanded(a, "/"@ + w, ts).0,
        entered_line(a, "/"@ + w + " "@ + r, ts).0 == commanded(a, "/"@ + w + " "@ + r, ts).0,
        entered_line(a, "/"@ + w, ts).1 == (match commanded(a, "/"@ + w, ts).1 {
            Some(m) => Outcome::Send(m),
            None => Outcome::Stay,
        }),
        entered_line(a, "/"@ + w + " "@ + r, ts).1 == (match commanded(
            a,
            "/"@ + w + " "@ + r,
            ts,
        ).1 {
            Some(m) => Outcome::Send(m),
            None => Outcome::Stay,
        }),
{
    reveal_strlit("/");
    lemma_command_words(w, r);
}

/// The words that the client knows, told apart.
proof fn lemma_words()
    ensures
        forall|w: Seq<char>|
            #![trigger w.len()]
            w == "help"@ || w == "quit"@ || w == "exit"@ || w == "list"@ || w == "users"@ || w
                == "rooms"@ || w == "join"@ || w == "pm"@ || w == "msg"@ || w == "whisper"@ || w
                == "block"@ || w == "unblock"@ || w == "blocklist"@ || w == "clear"@
                ==> !w.contains(' '),
        "help"@[0] == 'h',
        "quit"@[0] == 'q',
        "exit"@[0] == 'e',
        "list"@[0] == 'l',
        "users"@[0] == 'u' && "users"@[1] == 's',
        "rooms"@[0] == 'r',
        "join"@[0] == 'j',
        "pm"@[0] == 'p',
        "msg"@[0] == 'm',
        "whisper"@[0] == 'w',
        "block"@[0] == 'b',
        "unblock"@[0] == 'u' && "unblock"@[1] == 'n',
        "blocklist"@[0] == 'b',
        "clear"@[0] == 'c',
{
    reveal_strlit("help");
    reveal_strlit("quit");
    reveal_strlit("exit");
    reveal_strlit("list");
    reveal_strlit("users");
    reveal_strlit("rooms");
    reveal_strlit("join");
    reveal_strlit("pm");
    reveal_strlit("msg");
    reveal_strlit("whisper");
    reveal_strlit("block");
    reveal_strlit("unblock");
    reveal_strlit("blocklist");
    reveal_strlit("clear");
}

/// The commands for the lists and for the end ask for them, whatever follows
/// them, and show nothing.
#[verifier::rlimit(40)]
pub proof fn law_short_commands_ask(a: Screen, r: Seq<char>, ts: i64)
    ensures
        entered_line(a, "/"@ + "list"@, ts) == (a, Outcome::Send(ClientMsg::ListUsers)),
        entered_line(a, "/"@ + "users"@, ts) == (a, Outcome::Send(ClientMsg::ListUsers)),
        entered_line(a, "/"@ + "rooms"@, ts) == (a, Outcome::Send(ClientMsg::ListRooms)),
        entered_line(a, "/"@ + "quit"@, ts) == (a, Outcome::Send(ClientMsg::Quit)),
        entered_line(a, "/"@ + "exit"@, ts) == (a, Outcome::Send(ClientMsg::Quit)),
        entered_line(a, "/"@ + "list"@ + " "@ + r, ts) == (a, Outcome::Send(ClientMsg::ListUsers)),
        entered_line(a, "/"@ + "users"@ + " "@ + r, ts) == (a, Outcome::Send(ClientMsg::ListUsers)),
        entered_line(a, "/"@ + "rooms"@ + " "@ + r, ts) == (a, Outcome::Send(ClientMsg::ListRooms)),
        entered_line(a, "/"@ + "quit"@ + " "@ + r, ts) == (a, Outcome::Send(ClientMsg::Quit)),
        entered_line(a, "/"@ + "exit"@ + " "@ + r, ts) == (a, Outcome::Send(ClientMsg::Quit)),
{
    lemma_words();
    lemma_entered_command(a, "list"@, r, ts);
    lemma_entered_command(a, "users"@, r, ts);
    lemma_entered_command(a, "rooms"@, r, ts);
    lemma_entered_command(a, "quit"@, r, ts);
    lemma_entered_command(a, "exit"@, r, ts);
    lemma_command_words("list"@, r);
    lemma_command_words("users"@, r);
    lemma_command_words("rooms"@, r);
    lemma_command_words("quit"@, r);
    lemma_command_words("exit"@, r);
}

/// A join asks for the room that follows it, without the white space around it,
/// and shows nothing until the server answers.
#[verifier::rlimit(40)]
pub proof fn law_a_join_asks_for_the_room(
    a: Screen,
    lead: Seq<char>,
    room: Seq<char>,
    trail: Seq<char>,
    ts: i64,
)
    requires
        is_blank(lead),
        is_blank(trail),
        room.len() > 0,
        is_tight(room),
    ensures
        entered_line(a, "/"@ + "join"@ + " "@ + (lead + room + trail), ts) == (
            a,
            Outcome::Send(ClientMsg::Join { room }),
        ),
{
    lemma_words();
    lemma_entered_command(a, "join"@, lead + room + trail, ts);
    lemma_command_words("join"@, lead + room + trail);
    law_trimming_finds_the_core(lead, room, trail);
}

/// A private message is sent to the user named first, with all that follows the
/// name, and shown as sent to that user. Three words ask for it alike, and white
/// space around what follows them does not matter.
#[verifier::rlimit(60)]
pub proof fn law_a_private_message_is_sent_and_shown(
    a: Screen,
    w: Seq<char>,
    lead: Seq<char>,
    to: Seq<char>,
    text: Seq<char>,
    trail: Seq<char>,
    ts: i64,
)
    requires
        a.history.len() <= 2000,
        w == "pm"@ || w == "msg"@ || w == "whisper"@,
        is_blank(lead),
        is_blank(trail),
        to.len() > 0,
        !to.contains(' '),
        !is_space(to[0]),
        text.len() > 0,
        !is_space(text.last()),
    ensures
        entered_line(a, "/"@ + w + " "@ + (lead + (to + " "@ + text) + trail), ts).1
            == Outcome::Send(ClientMsg::Pm { to, text }),
        gains(
            a,
            entered_line(a, "/"@ + w + " "@ + (lead + (to + " "@ + text) + trail), ts).0,
            Row { kind: RowKind::Pm { from: to, outgoing: true }, text, ts },
        ),
{
    let rest = to + " "@ + text;
    let raw = lead + rest + trail;
    assert(!w.contains(' ')) by {
        lemma_words();
        assert(w.len() >= 0);
    }
    lemma_entered_command(a, w, raw, ts);
    lemma_command_words(w, raw);
    lemma_message(to, text);
    law_trimming_finds_the_core(lead, rest, trail);
    lemma_words();
    law_the_newest_line_is_shown(
        a,
        Row { kind: RowKind::Pm { from: to, outgoing: true }, text, ts },
    );
}

/// A name and a text, parted at the first space.
proof fn lemma_message(to: Seq<char>, text: Seq<char>)
    requires
        to.len() > 0,
        !to.contains(' '),
        !is_space(to[0]),
        text.len() > 0,
        !is_space(text.last()),
    ensures
        is_tight(to + " "@ + text),
        at_first_space(to + " "@ + text) == Some((to, text)),
{
    reveal_strlit(" ");
    assert(" "@ =~= seq![' ']);
    let rest = to + " "@ + text;
    lemma_first_char(to, ' ', " "@, text);
    assert(rest.first() == to[0] && rest.last() == text.last());
}

/// A private message without a text is not sent, and the user is told how to
/// write one.
#[verifier::rlimit(60)]
pub proof fn law_a_private_message_needs_a_text(
    a: Screen,
    w: Seq<char>,
    lead: Seq<char>,
    to: Seq<char>,
    trail: Seq<char>,
    ts: i64,
)
    requires
        a.history.len() <= 2000,
        w == "pm"@ || w == "msg"@ || w == "whisper"@,
        is_blank(lead),
        is_blank(trail),
        is_tight(to),
        !to.contains(' '),
    ensures
        entered_line(a, "/"@ + w + " "@ + (lead + to + trail), ts).1 == Outcome::Stay,
        gains(
            a,
            entered_line(a, "/"@ + w + " "@ + (lead + to + trail), ts).0,
            Row { kind: RowKind::Error, text: "usage: /pm <user> <message>"@, ts },
        ),
{
    lemma_words();
    assert(w.len() >= 0);
    let rest = lead + to + trail;
    lemma_entered_command(a, w, rest, ts);
    lemma_command_words(w, rest);
    law_trimming_finds_the_core(lead, to, trail);
    lemma_command_words(to, rest);
    reveal_strlit("/");
    assert(("/"@ + to).skip(1) =~= to);
    reveal_strlit(" ");
    assert forall|j: int| 0 <= j <= to.len() - " "@.len() implies !#[trigger] occurs_at(
        to,
        " "@,
        j,
    ) by {
        if occurs_at(to, " "@, j) {
            assert(to.subrange(j, j + 1)[0] == to[j]);
        }
    }
    lemma_no_match(to, " "@);
    law_the_newest_line_is_shown(
        a,
        Row { kind: RowKind::Error, text: "usage: /pm <user> <message>"@, ts },
    );
}

/// The other commands send nothing. Help lists the commands, clearing empties
/// the history and nothing else, blocking is refused, and a word that is no
/// command is named as unknown.
#[verifier::rlimit(60)]
pub proof fn law_the_other_commands(a: Screen, w: Seq<char>, r: Seq<char>, ts: i64)
    requires
        a.history.len() <= 2000,
        !w.contains(' '),
    ensures
        w == "help"@ || w == "clear"@ || w == "block"@ || w == "unblock"@ || w == "blocklist"@
            ==> entered_line(a, "/"@ + w + " "@ + r, ts).1 == Outcome::Stay,
        w == "help"@ ==> gains(
            a,
            entered_line(a, "/"@ + w + " "@ + r, ts).0,
            Row {
                kind: RowKind::System,
                text: "/join <room>  /list  /rooms  /pm <user> <msg>  /clear  /quit"@,
                ts,
            },
        ),
        w == "clear"@ ==> entered_line(a, "/"@ + w + " "@ + r, ts).0 == (Screen {
            history: Seq::empty(),
            ..a
        }),
        w == "block"@ || w == "unblock"@ || w == "blocklist"@ ==> gains(
            a,
            entered_line(a, "/"@ + w + " "@ + r, ts).0,
            Row { kind: RowKind::Error, text: "blocking is managed by the server admin"@, ts },
        ),
        w != "help"@ && w != "quit"@ && w != "exit"@ && w != "list"@ && w != "users"@ && w
            != "rooms"@ && w != "join"@ && w != "pm"@ && w != "msg"@ && w != "whisper"@ && w
            != "block"@ && w != "unblock"@ && w != "blocklist"@ && w != "clear"@ ==> entered_line(
            a,
            "/"@ + w + " "@ + r,
            ts,
        ).1 == Outcome::Stay && gains(
            a,
            entered_line(a, "/"@ + w + " "@ + r, ts).0,
            Row {
                kind: RowKind::Error,
                text: "unknown command: /"@ + w + " (try /help)"@,
                ts,
            },
        ),
{
    lemma_words();
    lemma_entered_command(a, w, r, ts);
    lemma_command_words(w, r);
    law_the_newest_line_is_shown(
        a,
        Row {
            kind: RowKind::System,
            text: "/join <room>  /list  /rooms  /pm <user> <msg>  /clear  /quit"@,
            ts,
        },
    );
    law_the_newest_line_is_shown(
        a,
        Row { kind: RowKind::Error, text: "blocking is managed by the server admin"@, ts },
    );
    law_the_newest_line_is_shown(
        a,
        Row { kind: RowKind::Error, text: "unknown command: /"@ + w + " (try /help)"@, ts },
    );
}

/// A command that stands alone does what it does with white space after it. A
/// join of no room is no command that the client knows.
#[verifier::rlimit(60)]
pub proof fn law_commands_stand_alone(a: Screen, w: Seq<char>, r: Seq<char>, ts: i64)
    requires
        a.history.len() <= 2000,
        !w.contains(' '),
        is_blank(r),
    ensures
        commanded(a, "/"@ + w, ts) == commanded(a, "/"@ + w + " "@ + r, ts),
        entered_line(a, "/"@ + w, ts) == entered_line(a, "/"@ + w + " "@ + r, ts),
        w == "join"@ ==> entered_line(a, "/"@ + w, ts).1 == Outcome::Stay && gains(
            a,
            entered_line(a, "/"@ + w, ts).0,
            Row {
                kind: RowKind::Error,
                text: "unknown command: /"@ + "join"@ + " (try /help)"@,
                ts,
            },
        ),
{
    lemma_words();
    let none = Seq::<char>::empty();
    lemma_entered_command(a, w, r, ts);
    lemma_command_words(w, r);
    assert(none + none + r =~= r);
    law_trimming_finds_the_core(none, none, r);
    lemma_tight(none);
    law_the_newest_line_is_shown(
        a,
        Row {
            kind: RowKind::Error,
            text: "unknown command: /"@ + "join"@ + " (try /help)"@,
            ts,
        },
    );
}

/// A line without a leading slash is no command.
pub proof fn law_no_slash_no_command(a: Screen, text: Seq<char>, ts: i64)
    requires
        text.len() == 0 || text[0] != '/',
    ensures
        commanded(a, text, ts) == (a, None::<ClientMsg>),
{
    reveal_strlit("/");
    if begins_with(text, "/"@) {
        assert(text.take(1)[0] == '/');
    }
}

// ---------------------------------------------------------------------------
// Keys
// ---------------------------------------------------------------------------

/// Entering takes the whole line, wherever the cursor stands, and leaves an
/// empty one.
pub proof fn law_enter_takes_the_whole_line(
    a: Screen,
    ctrl: bool,
    dropdown: bool,
    ts: i64,
)
    requires
        a.history.len() <= 2000,
    ensures
        ({
            let text = a.input.before + a.input.after;
            let empty = Screen {
                input: Editing { before: Seq::empty(), after: Seq::empty() },
                ..a
            };
            let (b, out) = keyed(a, Key::Enter, ctrl, dropdown, ts);
            &&& b.input.before.len() == 0 && b.input.after.len() == 0
            &&& (b, out) == entered_line(empty, text, ts)
            &&& text.len() > 0 && text[0] != '/' ==> out == Outcome::Send(ClientMsg::Say { text })
                && gains(empty, b, Row { kind: RowKind::Chat { from: a.username }, text, ts })
        }),
{
    let text = a.input.before + a.input.after;
    let empty = Screen { input: no_input(), ..a };
    assert(no_input() == Editing { before: Seq::empty(), after: Seq::empty() });
    if text.len() > 0 && text[0] != '/' {
        law_chat_is_sent_and_shown(empty, text, ts);
    }
}

/// What keys do to the line: a character is put in at the cursor, backspace
/// takes the one before it, delete the one after it, and the arrows, home and
/// end move the cursor. None of them sends anything, nor changes the history.
pub proof fn law_keys_edit_the_line(a: Screen, c: char, ctrl: bool, dropdown: bool, ts: i64)
    ensures
        ({
            let e = a.input;
            let (b, out) = keyed(a, Key::Char(c), false, dropdown, ts);
            &&& out == Outcome::Stay
            &&& b == Screen {
                input: Editing { before: e.before + seq![c], after: e.after },
                suggest_idx: 0,
                ..a
            }
        }),
        ({
            let e = a.input;
            let n = e.before.len() as int;
            let (b, out) = keyed(a, Key::Backspace, ctrl, dropdown, ts);
            &&& out == Outcome::Stay
            &&& n > 0 ==> b == Screen {
                input: Editing { before: e.before.take(n - 1), after: e.after },
                suggest_idx: 0,
                ..a
            }
            &&& n == 0 ==> b == Screen { suggest_idx: 0, ..a }
        }),
        ({
            let e = a.input;
            let (b, out) = keyed(a, Key::Delete, ctrl, dropdown, ts);
            &&& out == Outcome::Stay
            &&& e.after.len() > 0 ==> b == Screen {
                input: Editing { before: e.before, after: e.after.skip(1) },
                ..a
            }
            &&& e.after.len() == 0 ==> b == a
        }),
        ({
            let e = a.input;
            let n = e.before.len() as int;
            let (b, out) = keyed(a, Key::Left, ctrl, dropdown, ts);
            &&& out == Outcome::Stay
            &&& b == Screen { input: b.input, ..a }
            &&& b.input.before + b.input.after == e.before + e.after
            &&& b.input.before.len() == if n > 0 {
                n - 1
            } else {
                0
            }
        }),
        ({
            let e = a.input;
            let (b, out) = keyed(a, Key::Right, ctrl, dropdown, ts);
            &&& out == Outcome::Stay
            &&& b == Screen { input: b.input, ..a }
            &&& b.input.before + b.input.after == e.before + e.after
            &&& b.input.after.len() == if e.after.len() > 0 {
                e.after.len() - 1
            } else {
                0
            }
        }),
        ({
            let e = a.input;
            let text = e.before + e.after;
            &&& keyed(a, Key::Home, ctrl, dropdown, ts) == (
                Screen { input: Editing { before: Seq::empty(), after: text }, ..a },
                Outcome::Stay,
            )
            &&& keyed(a, Key::End, ctrl, dropdown, ts) == (
                Screen { input: Editing { before: text, after: Seq::empty() }, ..a },
                Outcome::Stay,
            )
            &&& keyed(a, Key::Other, ctrl, dropdown, ts) == (a, Outcome::Stay)
        }),
{
    let e = a.input;
    assert(e.before.push(c) =~= e.before + seq![c]);
    assert(moved_left(e).before + moved_left(e).after =~= e.before + e.after);
    assert(moved_right(e).before + moved_right(e).after =~= e.before + e.after);
}

/// The keys that leave: escape on an empty line and control-c. Escape on any
/// other line empties it, and control-l empties the history; neither changes
/// anything else that is shown.
pub proof fn law_keys_that_leave_or_clear(a: Screen, ctrl: bool, dropdown: bool, ts: i64)
    ensures
        a.input.before.len() == 0 && a.input.after.len() == 0 ==> keyed(
            a,
            Key::Esc,
            ctrl,
            dropdown,
            ts,
        ) == (a, Outcome::Quit),
        a.input.before.len() > 0 || a.input.after.len() > 0 ==> keyed(
            a,
            Key::Esc,
            ctrl,
            dropdown,
            ts,
        ) == (
            Screen {
                input: Editing { before: Seq::empty(), after: Seq::empty() },
                suggest_idx: 0,
                ..a
            },
            Outcome::Stay,
        ),
        keyed(a, Key::Char('c'), true, dropdown, ts) == (a, Outcome::Quit),
        keyed(a, Key::Char('l'), true, dropdown, ts) == (
            Screen { history: Seq::empty(), ..a },
            Outcome::Stay,
        ),
        forall|c: char|
            c != 'c' && c != 'l' ==> #[trigger] keyed(a, Key::Char(c), true, dropdown, ts) == keyed(
                a,
                Key::Char(c),
                false,
                dropdown,
                ts,
            ),
{
    let text = a.input.before + a.input.after;
    if a.input.before.len() > 0 || a.input.after.len() > 0 {
        assert(text.len() > 0);
    } else {
        assert(text =~= Seq::<char>::empty());
    }
}

/// Up and down go through the suggestions while they are listed, and tab takes
/// one; otherwise up and down scroll by one line, and tab does nothing. The page
/// keys scroll by ten lines.
pub proof fn law_keys_scroll_or_choose(a: Screen, ctrl: bool, dropdown: bool, ts: i64)
    ensures
        keyed(a, Key::Tab, ctrl, true, ts) == (a, Outcome::CompleteSuggestion),
        keyed(a, Key::Up, ctrl, true, ts) == (a, Outcome::SuggestUp),
        keyed(a, Key::Down, ctrl, true, ts) == (a, Outcome::SuggestDown),
        keyed(a, Key::Tab, ctrl, false, ts) == (a, Outcome::Stay),
        keyed(a, Key::Up, ctrl, false, ts) == (scrolled_up(a, 1), Outcome::Stay),
        keyed(a, Key::Down, ctrl, false, ts) == (scrolled_down(a, 1), Outcome::Stay),
        keyed(a, Key::PageUp, ctrl, dropdown, ts) == (scrolled_up(a, 10), Outcome::Stay),
        keyed(a, Key::PageDown, ctrl, dropdown, ts) == (scrolled_down(a, 10), Outcome::Stay),
{
}

/// A user who has not scrolled beyond the history can always scroll.
pub proof fn law_scrolling_is_possible(a: Screen, key: Key, dropdown: bool)
    requires
        a.history.len() <= 2000,
        a.scroll_offset <= a.history.len(),
    ensures
        can_scroll(a, key, dropdown),
{
}

/// Scrolling goes by so many lines, up to the oldest line and down to the
/// newest, and changes nothing else.
pub proof fn law_scrolling_stays_on_the_history(a: Screen, n: int)
    requires
        a.history.len() <= 2000,
        0 <= n,
    ensures
        scrolled_up(a, n) == (Screen { scroll_offset: scrolled_up(a, n).scroll_offset, ..a }),
        scrolled_down(a, n) == (Screen { scroll_offset: scrolled_down(a, n).scroll_offset, ..a }),
        scrolled_up(a, n).scroll_offset <= a.history.len(),
        a.scroll_offset + n <= a.history.len() ==> scrolled_up(a, n).scroll_offset
            == a.scroll_offset + n,
        a.scroll_offset + n > a.history.len() ==> scrolled_up(a, n).scroll_offset
            == a.history.len(),
        n <= a.scroll_offset ==> scrolled_down(a, n).scroll_offset == a.scroll_offset - n,
        n > a.scroll_offset ==> scrolled_down(a, n).scroll_offset == 0,
        a.scroll_offset + n <= a.history.len() ==> scrolled_down(scrolled_up(a, n), n) == a,
{
}

} // verus!
