//! What the client does with messages, commands and keys.

use vstd::prelude::*;

use crate::app::{
    error_row, scrolled_down, scrolled_up, shown, system_row, App, ChatLine, LineKind, Row, RowKind,
    Screen,
};
use crate::format::{join, joined};
use crate::input::{
    erased_after, erased_before, moved_end, moved_home, moved_left, moved_right, no_input, typed,
};
use crate::keys::Key;
use crate::net::{at_first_space, split_first_word};
use crate::protocol::{now_ts, ClientMessage, ClientMsg, ServerMessage, ServerMsg};
use crate::text::{begins_with, clone_texts, starts_with, str_eq, tail, trim, trimmed};

verus! {

// ---------------------------------------------------------------------------
// Messages
// ---------------------------------------------------------------------------

/// The state with a notice at `ts`.
pub open spec fn told(a: Screen, text: Seq<char>, ts: i64) -> Screen {
    shown(a, system_row(text, ts))
}

/// The state with a fault at `ts`.
pub open spec fn faulted(a: Screen, text: Seq<char>, ts: i64) -> Screen {
    shown(a, error_row(text, ts))
}

/// The state after `msg` came from the server. `ts` is the time of the notices
/// that carry none.
pub open spec fn served(a: Screen, msg: ServerMsg, ts: i64) -> Screen {
    match msg {
        ServerMsg::Welcome { username, room, motd } => told(
            told(Screen { current_room: room, ..a }, "connected · "@ + motd, ts),
            "joined #"@ + room,
            ts,
        ),
        ServerMsg::Chat { from, room, text, ts: at } => shown(
            a,
            Row { kind: RowKind::Chat { from }, text, ts: at },
        ),
        ServerMsg::Pm { from, text, ts: at } => shown(
            a,
            Row { kind: RowKind::Pm { from, outgoing: false }, text, ts: at },
        ),
        ServerMsg::System { text, ts: at } => told(a, text, at),
        ServerMsg::Error { text } => faulted(a, text, ts),
        ServerMsg::UserList { users } => told(
            Screen { online: users, ..a },
            "users in #"@ + a.current_room + ": "@ + joined(users, ", "@),
            ts,
        ),
        ServerMsg::RoomList { rooms } => told(a, "rooms: "@ + joined(rooms, ", "@), ts),
        ServerMsg::Joined { room } => told(Screen { current_room: room, ..a }, "→ #"@ + room, ts),
        ServerMsg::UserJoined { username, room } => if room == a.current_room {
            told(a, username + " joined"@, ts)
        } else {
            a
        },
        ServerMsg::UserLeft { username, room } => if room == a.current_room {
            told(a, username + " left"@, ts)
        } else {
            a
        },
    }
}

/// Takes in a message of the server at `ts`.
pub fn handle_server_msg_at(app: &mut App, msg: ServerMessage, ts: i64)
    requires
        old(app).wf(),
    ensures
        final(app).wf(),
        final(app)@ == served(old(app)@, msg@, ts),
        final(app).input == old(app).input,
{
    match msg {
        ServerMessage::Welcome { username, room, motd } => {
            app.current_room = room.clone();
            app.push(ChatLine::system_at("connected · ".to_owned().concat(motd.as_str()), ts));
            app.push(ChatLine::system_at("joined #".to_owned().concat(room.as_str()), ts));
        },
        ServerMessage::Chat { from, room, text, ts } => {
            app.push(ChatLine { kind: LineKind::Chat { from }, text, ts });
        },
        ServerMessage::Pm { from, text, ts } => {
            app.push(ChatLine { kind: LineKind::Pm { from, outgoing: false }, text, ts });
        },
        ServerMessage::System { text, ts } => {
            app.push(ChatLine { kind: LineKind::System, text, ts });
        },
        ServerMessage::Error { text } => {
            app.push(ChatLine::error_at(text, ts));
        },
        ServerMessage::UserList { users } => {
            app.online = clone_texts(&users);
            let text = "users in #".to_owned().concat(app.current_room.as_str()).concat(
                ": ",
            ).concat(join(&users, ", ").as_str());
            app.push(ChatLine::system_at(text, ts));
        },
        ServerMessage::RoomList { rooms } => {
            let text = "rooms: ".to_owned().concat(join(&rooms, ", ").as_str());
            app.push(ChatLine::system_at(text, ts));
        },
        ServerMessage::Joined { room } => {
            app.current_room = room.clone();
            app.push(ChatLine::system_at("→ #".to_owned().concat(room.as_str()), ts));
        },
        ServerMessage::UserJoined { username, room } => {
            if room == app.current_room {
                app.push(ChatLine::system_at(username.concat(" joined"), ts));
            }
        },
        ServerMessage::UserLeft { username, room } => {
            if room == app.current_room {
                app.push(ChatLine::system_at(username.concat(" left"), ts));
            }
        },
    }
}

/// Takes in a message of the server.
pub fn handle_server_msg(app: &mut App, msg: ServerMessage)
    requires
        old(app).wf(),
    ensures
        final(app).wf(),
        exists|ts: i64| final(app)@ == #[trigger] served(old(app)@, msg@, ts),
        final(app).input == old(app).input,
{
    let ts = now_ts();
    handle_server_msg_at(app, msg, ts);
}

// ---------------------------------------------------------------------------
// Commands
// ---------------------------------------------------------------------------

/// A line cut at its first space: the word before it, and the rest. Without a
/// space all of it is the word.
pub open spec fn word_and_rest(s: Seq<char>) -> (Seq<char>, Seq<char>) {
    match at_first_space(s) {
        Some(parts) => parts,
        None => (s, Seq::empty()),
    }
}

/// What follows from the command `cmd` with the arguments `rest`, given at `ts`:
/// the new state, and the request to send.
pub open spec fn command_effect(a: Screen, cmd: Seq<char>, rest: Seq<char>, ts: i64) -> (
    Screen,
    Option<ClientMsg>,
) {
    if cmd == "help"@ {
        (told(a, "/join <room>  /list  /rooms  /pm <user> <msg>  /clear  /quit"@, ts), None)
    } else if cmd == "quit"@ || cmd == "exit"@ {
        (a, Some(ClientMsg::Quit))
    } else if cmd == "list"@ || cmd == "users"@ {
        (a, Some(ClientMsg::ListUsers))
    } else if cmd == "rooms"@ {
        (a, Some(ClientMsg::ListRooms))
    } else if cmd == "join"@ && rest.len() > 0 {
        (a, Some(ClientMsg::Join { room: rest }))
    } else if cmd == "pm"@ || cmd == "msg"@ || cmd == "whisper"@ {
        match at_first_space(rest) {
            Some((to, text)) if to.len() > 0 && text.len() > 0 => (
                shown(a, Row { kind: RowKind::Pm { from: to, outgoing: true }, text, ts }),
                Some(ClientMsg::Pm { to, text }),
            ),
            _ => (faulted(a, "usage: /pm <user> <message>"@, ts), None),
        }
    } else if cmd == "block"@ || cmd == "unblock"@ || cmd == "blocklist"@ {
        (faulted(a, "blocking is managed by the server admin"@, ts), None)
    } else if cmd == "clear"@ {
        (Screen { history: Seq::empty(), ..a }, None)
    } else {
        (faulted(a, "unknown command: /"@ + cmd + " (try /help)"@, ts), None)
    }
}

/// What follows from the line `text`, entered at `ts`, as a command. A line
/// without a leading slash is none.
pub open spec fn commanded(a: Screen, text: Seq<char>, ts: i64) -> (Screen, Option<ClientMsg>) {
    if begins_with(text, "/"@) {
        let (cmd, rest) = word_and_rest(text.skip(1));
        command_effect(a, cmd, trimmed(rest), ts)
    } else {
        (a, None)
    }
}

/// The request in an optional message.
pub open spec fn opt_msg(m: Option<ClientMessage>) -> Option<ClientMsg> {
    match m {
        Some(m) => Some(m@),
        None => None,
    }
}

/// Reads a line as a command, entered at `ts`.
#[verifier::rlimit(40)]
pub fn parse_command_at(app: &mut App, text: &str, ts: i64) -> (r: Option<ClientMessage>)
    requires
        old(app).wf(),
    ensures
        final(app).wf(),
        (final(app)@, opt_msg(r)) == commanded(old(app)@, text@, ts),
        final(app).input == old(app).input,
{
    let slash = "/";
    proof {
        reveal_strlit("/");
    }
    if !starts_with(text, slash) {
        return None;
    }
    let line = tail(text, slash.unicode_len());
    let (cmd, rest) = match split_first_word(line) {
        Some((cmd, rest)) => (cmd, trim(rest)),
        None => (line, trim("")),
    };
    proof {
        reveal_strlit("");
        assert(""@ =~= Seq::<char>::empty());
        assert(commanded(app@, text@, ts) == command_effect(app@, cmd@, rest@, ts));
    }
    if str_eq(cmd, "help") {
        app.push(
            ChatLine::system_at(
                "/join <room>  /list  /rooms  /pm <user> <msg>  /clear  /quit".to_owned(),
                ts,
            ),
        );
        None
    } else if str_eq(cmd, "quit") || str_eq(cmd, "exit") {
        Some(ClientMessage::Quit)
    } else if str_eq(cmd, "list") || str_eq(cmd, "users") {
        Some(ClientMessage::ListUsers)
    } else if str_eq(cmd, "rooms") {
        Some(ClientMessage::ListRooms)
    } else if str_eq(cmd, "join") && !rest.is_empty() {
        Some(ClientMessage::Join { room: rest.to_owned() })
    } else if str_eq(cmd, "pm") || str_eq(cmd, "msg") || str_eq(cmd, "whisper") {
        if let Some((to, msg)) = split_first_word(rest) {
            if !to.is_empty() && !msg.is_empty() {
                app.push(
                    ChatLine {
                        kind: LineKind::Pm { from: to.to_owned(), outgoing: true },
                        text: msg.to_owned(),
                        ts,
                    },
                );
                return Some(ClientMessage::Pm { to: to.to_owned(), text: msg.to_owned() });
            }
        }
        app.push(ChatLine::error_at("usage: /pm <user> <message>".to_owned(), ts));
        None
    } else if str_eq(cmd, "block") || str_eq(cmd, "unblock") || str_eq(cmd, "blocklist") {
        app.push(ChatLine::error_at("blocking is managed by the server admin".to_owned(), ts));
        None
    } else if str_eq(cmd, "clear") {
        app.history.clear();
        assert(app@.history =~= Seq::<Row>::empty());
        None
    } else {
        let text = "unknown command: /".to_owned().concat(cmd).concat(" (try /help)");
        app.push(ChatLine::error_at(text, ts));
        None
    }
}

/// Reads a line as a command.
pub fn parse_command(app: &mut App, text: &str) -> (r: Option<ClientMessage>)
    requires
        old(app).wf(),
    ensures
        final(app).wf(),
        exists|ts: i64|
            (final(app)@, opt_msg(r)) == #[trigger] commanded(old(app)@, text@, ts),
        final(app).input == old(app).input,
{
    let ts = now_ts();
    parse_command_at(app, text, ts)
}

// ---------------------------------------------------------------------------
// Keys
// ---------------------------------------------------------------------------

/// What the client does after a key: wait for the next one, end, send a request,
/// or see to its list of suggestions.
#[derive(Debug)]
pub enum KeyOutcome {
    Stay,
    Quit,
    Send(ClientMessage),
    CompleteSuggestion,
    SuggestUp,
    SuggestDown,
}

/// The model of a `KeyOutcome`.
pub enum Outcome {
    Stay,
    Quit,
    Send(ClientMsg),
    CompleteSuggestion,
    SuggestUp,
    SuggestDown,
}

impl View for KeyOutcome {
    type V = Outcome;

    open spec fn view(&self) -> Outcome {
        match *self {
            KeyOutcome::Stay => Outcome::Stay,
            KeyOutcome::Quit => Outcome::Quit,
            KeyOutcome::Send(m) => Outcome::Send(m@),
            KeyOutcome::CompleteSuggestion => Outcome::CompleteSuggestion,
            KeyOutcome::SuggestUp => Outcome::SuggestUp,
            KeyOutcome::SuggestDown => Outcome::SuggestDown,
        }
    }
}

/// What follows when the line `text` is entered at `ts`: a command is carried
/// out; any other line that is not empty is sent, and shown as the user's own.
pub open spec fn entered_line(a: Screen, text: Seq<char>, ts: i64) -> (Screen, Outcome) {
    if text.len() == 0 {
        (a, Outcome::Stay)
    } else if begins_with(text, "/"@) {
        let (b, msg) = commanded(a, text, ts);
        (
            b,
            match msg {
                Some(m) => Outcome::Send(m),
                None => Outcome::Stay,
            },
        )
    } else {
        (
            shown(a, Row { kind: RowKind::Chat { from: a.username }, text, ts }),
            Outcome::Send(ClientMsg::Say { text }),
        )
    }
}

/// What follows when `key` is pressed at `ts`, with the control key where `ctrl`,
/// while suggestions are listed where `dropdown`.
pub open spec fn keyed(a: Screen, key: Key, ctrl: bool, dropdown: bool, ts: i64) -> (
    Screen,
    Outcome,
) {
    match key {
        Key::Esc => if a.input.before + a.input.after == Seq::<char>::empty() {
            (a, Outcome::Quit)
        } else {
            (Screen { input: no_input(), suggest_idx: 0, ..a }, Outcome::Stay)
        },
        Key::Char(c) => if ctrl && c == 'c' {
            (a, Outcome::Quit)
        } else if ctrl && c == 'l' {
            (Screen { history: Seq::empty(), ..a }, Outcome::Stay)
        } else {
            (Screen { input: typed(a.input, c), suggest_idx: 0, ..a }, Outcome::Stay)
        },
        Key::Tab => (
            a,
            if dropdown {
                Outcome::CompleteSuggestion
            } else {
                Outcome::Stay
            },
        ),
        Key::Up => if dropdown {
            (a, Outcome::SuggestUp)
        } else {
            (scrolled_up(a, 1), Outcome::Stay)
        },
        Key::Down => if dropdown {
            (a, Outcome::SuggestDown)
        } else {
            (scrolled_down(a, 1), Outcome::Stay)
        },
        Key::Enter => entered_line(
            Screen { input: no_input(), ..a },
            a.input.before + a.input.after,
            ts,
        ),
        Key::Backspace => (
            Screen { input: erased_before(a.input), suggest_idx: 0, ..a },
            Outcome::Stay,
        ),
        Key::Delete => (Screen { input: erased_after(a.input), ..a }, Outcome::Stay),
        Key::Left => (Screen { input: moved_left(a.input), ..a }, Outcome::Stay),
        Key::Right => (Screen { input: moved_right(a.input), ..a }, Outcome::Stay),
        Key::Home => (Screen { input: moved_home(a.input), ..a }, Outcome::Stay),
        Key::End => (Screen { input: moved_end(a.input), ..a }, Outcome::Stay),
        Key::PageUp => (scrolled_up(a, 10), Outcome::Stay),
        Key::PageDown => (scrolled_down(a, 10), Outcome::Stay),
        Key::Other => (a, Outcome::Stay),
    }
}

/// Whether scrolling by `key` stays in range of the machine's integers.
pub open spec fn can_scroll(a: Screen, key: Key, dropdown: bool) -> bool {
    &&& key == Key::Up && !dropdown ==> a.scroll_offset < usize::MAX
    &&& key == Key::PageUp ==> a.scroll_offset <= usize::MAX - 10
}

/// Takes in a key that was pressed at `ts`.
#[verifier::rlimit(40)]
pub fn handle_key_at(app: &mut App, key: Key, ctrl: bool, dropdown: bool, ts: i64) -> (r:
    KeyOutcome)
    requires
        old(app).wf(),
        can_scroll(old(app)@, key, dropdown),
    ensures
        final(app).wf(),
        (final(app)@, r@) == keyed(old(app)@, key, ctrl, dropdown, ts),
{
    proof {
        app.input.lemma_text();
    }
    match key {
        Key::Esc => {
            if app.input.buf.as_str().is_empty() {
                assert(app.input.buf@ =~= Seq::<char>::empty());
                return KeyOutcome::Quit;
            }
            let dropped = app.input.take();
            app.suggest_idx = 0;
        },
        Key::Char(c) => {
            if ctrl && c == 'c' {
                return KeyOutcome::Quit;
            }
            if ctrl && c == 'l' {
                app.history.clear();
                assert(app@.history =~= Seq::<Row>::empty());
            } else {
                app.input.insert(c);
                app.suggest_idx = 0;
            }
        },
        Key::Tab => {
            if dropdown {
                return KeyOutcome::CompleteSuggestion;
            }
        },
        Key::Up => {
            if dropdown {
                return KeyOutcome::SuggestUp;
            }
            app.scroll_up();
        },
        Key::Down => {
            if dropdown {
                return KeyOutcome::SuggestDown;
            }
            app.scroll_down();
        },
        Key::Enter => {
            let text = app.input.take();
            if !text.as_str().is_empty() {
                if let Some(msg) = parse_command_at(app, text.as_str(), ts) {
                    return KeyOutcome::Send(msg);
                } else if !starts_with(text.as_str(), "/") {
                    let msg = ClientMessage::Say { text: text.clone() };
                    let from = app.username.clone();
                    app.push(ChatLine { kind: LineKind::Chat { from }, text, ts });
                    return KeyOutcome::Send(msg);
                }
            }
        },
        Key::Backspace => {
            app.input.backspace();
            app.suggest_idx = 0;
        },
        Key::Delete => {
            app.input.delete();
        },
        Key::Left => {
            app.input.left();
        },
        Key::Right => {
            app.input.right();
        },
        Key::Home => {
            app.input.home();
        },
        Key::End => {
            app.input.end();
        },
        Key::PageUp => {
            app.page_up();
        },
        Key::PageDown => {
            app.page_down();
        },
        Key::Other => {},
    }
    KeyOutcome::Stay
}

/// Takes in a key.
pub fn handle_key(app: &mut App, key: Key, ctrl: bool, dropdown: bool) -> (r: KeyOutcome)
    requires
        old(app).wf(),
        can_scroll(old(app)@, key, dropdown),
    ensures
        final(app).wf(),
        exists|ts: i64|
            (final(app)@, r@) == #[trigger] keyed(old(app)@, key, ctrl, dropdown, ts),
{
    let ts = now_ts();
    handle_key_at(app, key, ctrl, dropdown, ts)
}

} // verus!
