//! The server's side of the text protocol: messages out, requests in.

use vstd::prelude::*;

use crate::clock::{is_clock, local_clock};
use crate::protocol::{ClientMessage, ClientMsg, ServerMessage, ServerMsg};
use crate::text::{
    find, first_match, head, str_eq, strip_prefix, tail, texts, trim, trimmed, without_prefix,
};

verus! {

/// One ` - <item>` line for each item.
pub open spec fn listing(items: Seq<Seq<char>>) -> Seq<char>
    decreases items.len(),
{
    if items.len() == 0 {
        Seq::empty()
    } else {
        listing(items.drop_last()) + " - "@ + items.last() + "\n"@
    }
}

/// The text of a message, shown at the time of day `clock`.
pub open spec fn server_text(msg: ServerMsg, clock: Seq<char>) -> Seq<char> {
    match msg {
        ServerMsg::Welcome { username, room, motd } => "[SERVER] "@ + motd + " (room: "@ + room
            + ")\n"@,
        ServerMsg::Chat { from, room, text, ts } => "["@ + clock + "] "@ + from + ": "@ + text
            + "\n"@,
        ServerMsg::Pm { from, text, ts } => "[PM from "@ + from + "] "@ + text + "\n"@,
        ServerMsg::System { text, ts } => text + "\n"@,
        ServerMsg::Error { text } => "Error: "@ + text + "\n"@,
        ServerMsg::UserList { users } => "Online users:\n"@ + listing(users),
        ServerMsg::RoomList { rooms } => "Active Rooms:\n"@ + listing(rooms),
        ServerMsg::Joined { room } => "Joined #"@ + room + "\n"@,
        ServerMsg::UserJoined { username, room } => "["@ + clock + "] "@ + username
            + " joined room "@ + room + "\n"@,
        ServerMsg::UserLeft { username, room } => "["@ + clock + "] "@ + username + " left room "@
            + room + "\n"@,
    }
}

/// One ` - <item>` line for each item, after `header`.
fn render_listing(header: &str, items: &Vec<String>) -> (r: String)
    ensures
        r@ == header@ + listing(texts(items@)),
{
    let mut out = header.to_owned();
    let mut i: usize = 0;
    assert(texts(items@).take(0) =~= Seq::<Seq<char>>::empty());
    assert(out@ =~= header@ + listing(texts(items@).take(0)));
    while i < items.len()
        invariant
            i <= items.len(),
            out@ == header@ + listing(texts(items@).take(i as int)),
        decreases items.len() - i,
    {
        out.append(" - ");
        out.append(items[i].as_str());
        out.append("\n");
        i += 1;
        assert(texts(items@).take(i as int).drop_last() =~= texts(items@).take(i - 1));
        assert(out@ =~= header@ + listing(texts(items@).take(i as int)));
    }
    assert(texts(items@).take(i as int) =~= texts(items@));
    out
}

/// The text of a message, shown at the time of day `clock`.
pub fn render_server_at(msg: &ServerMessage, clock: &str) -> (r: String)
    ensures
        r@ == server_text(msg@, clock@),
{
    match msg {
        ServerMessage::Welcome { motd, room, .. } => "[SERVER] ".to_owned().concat(motd.as_str())
            .concat(" (room: ").concat(room.as_str()).concat(")\n"),
        ServerMessage::Chat { from, text, .. } => "[".to_owned().concat(clock).concat("] ").concat(
            from.as_str(),
        ).concat(": ").concat(text.as_str()).concat("\n"),
        ServerMessage::Pm { from, text, .. } => "[PM from ".to_owned().concat(from.as_str()).concat(
            "] ",
        ).concat(text.as_str()).concat("\n"),
        ServerMessage::System { text, .. } => text.clone().concat("\n"),
        ServerMessage::Error { text } => "Error: ".to_owned().concat(text.as_str()).concat("\n"),
        ServerMessage::UserList { users } => render_listing("Online users:\n", users),
        ServerMessage::RoomList { rooms } => render_listing("Active Rooms:\n", rooms),
        ServerMessage::Joined { room } => "Joined #".to_owned().concat(room.as_str()).concat("\n"),
        ServerMessage::UserJoined { username, room } => "[".to_owned().concat(clock).concat(
            "] ",
        ).concat(username.as_str()).concat(" joined room ").concat(room.as_str()).concat("\n"),
        ServerMessage::UserLeft { username, room } => "[".to_owned().concat(clock).concat(
            "] ",
        ).concat(username.as_str()).concat(" left room ").concat(room.as_str()).concat("\n"),
    }
}

/// The text of a message, as the server sends it now.
pub fn render_server(msg: &ServerMessage) -> (r: String)
    ensures
        exists|clock: Seq<char>| is_clock(clock) && r@ == #[trigger] server_text(msg@, clock),
{
    let clock = local_clock();
    render_server_at(msg, clock.as_str())
}

/// What a `/pm` or `/msg` request carries after its command word: the name up
/// to the first space and the text after it, where neither is empty.
pub open spec fn pm_request(rest: Seq<char>) -> Option<ClientMsg> {
    match first_match(rest, " "@) {
        Some(i) => {
            let to = rest.take(i);
            let text = rest.skip(i + " "@.len());
            if to.len() > 0 && text.len() > 0 {
                Some(ClientMsg::Pm { to, text })
            } else {
                None
            }
        },
        None => None,
    }
}

/// What follows the command word of a private message.
pub open spec fn pm_rest(t: Seq<char>) -> Option<Seq<char>> {
    match without_prefix(t, "/pm "@) {
        Some(rest) => Some(rest),
        None => without_prefix(t, "/msg "@),
    }
}

/// The command that `t` writes, if it writes one.
pub open spec fn command_of(t: Seq<char>) -> Option<ClientMsg> {
    if t == "/list"@ || t == "/users"@ {
        Some(ClientMsg::ListUsers)
    } else if t == "/rooms"@ {
        Some(ClientMsg::ListRooms)
    } else if t == "/quit"@ || t == "/exit"@ {
        Some(ClientMsg::Quit)
    } else if let Some(r) = without_prefix(t, "/join "@) {
        Some(ClientMsg::Join { room: trimmed(r) })
    } else if let Some(r) = without_prefix(t, "/block "@) {
        Some(ClientMsg::Block { username: trimmed(r) })
    } else if let Some(r) = without_prefix(t, "/unblock "@) {
        Some(ClientMsg::Unblock { username: trimmed(r) })
    } else if let Some(rest) = pm_rest(t) {
        pm_request(rest)
    } else {
        None
    }
}

/// The request that a line makes: its command, or else the line as chat.
pub open spec fn client_request(line: Seq<char>) -> ClientMsg {
    match command_of(trimmed(line)) {
        Some(msg) => msg,
        None => ClientMsg::Say { text: line },
    }
}

/// The request that a line makes.
pub fn parse_client(line: &str) -> (r: ClientMessage)
    ensures
        r@ == client_request(line@),
{
    let t = trim(line);
    if str_eq(t, "/list") || str_eq(t, "/users") {
        return ClientMessage::ListUsers;
    }
    if str_eq(t, "/rooms") {
        return ClientMessage::ListRooms;
    }
    if str_eq(t, "/quit") || str_eq(t, "/exit") {
        return ClientMessage::Quit;
    }
    if let Some(r) = strip_prefix(t, "/join ") {
        return ClientMessage::Join { room: trim(r).to_owned() };
    }
    if let Some(r) = strip_prefix(t, "/block ") {
        return ClientMessage::Block { username: trim(r).to_owned() };
    }
    if let Some(r) = strip_prefix(t, "/unblock ") {
        return ClientMessage::Unblock { username: trim(r).to_owned() };
    }
    let rest = match strip_prefix(t, "/pm ") {
        Some(rest) => Some(rest),
        None => strip_prefix(t, "/msg "),
    };
    if let Some(rest) = rest {
        let space = " ";
        if let Some(i) = find(rest, space) {
            let to = head(rest, i);
            let text = tail(rest, i + space.unicode_len());
            if !to.is_empty() && !text.is_empty() {
                return ClientMessage::Pm { to: to.to_owned(), text: text.to_owned() };
            }
        }
    }
    ClientMessage::Say { text: line.to_owned() }
}

} // verus!
