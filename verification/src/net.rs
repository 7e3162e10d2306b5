//! The client's side of the text protocol and its connection.

use vstd::prelude::*;
use vstd::utf8::encode_utf8;

use crate::protocol::{
    list_entry, list_item, now_ts, parse_room_entry, parse_user_entry, room_entry, user_entry,
    xor_bytes, xored, ClientMessage, ClientMsg, ServerMessage, ServerMsg, ROOM_LIST_HEADER,
    USER_LIST_HEADER,
};
use crate::text::{
    begins_with, contains_char, decode_lossy, find, first_match, head, pieces, slices, split,
    starts_with, str_eq, strip_prefix, stripped_end, tail, text_of, texts, trim, trim_end_matches,
    trim_start, trimmed, trimmed_start, without_prefix,
};

verus! {

// ---------------------------------------------------------------------------
// Requests out
// ---------------------------------------------------------------------------

/// The line that asks the server for `msg`, where the text protocol has one.
pub open spec fn request_line(msg: ClientMsg) -> Option<Seq<char>> {
    match msg {
        ClientMsg::Hello { username, version } => None,
        ClientMsg::Say { text } => Some(text),
        ClientMsg::Join { room } => Some("/join "@ + room),
        ClientMsg::ListUsers => Some("/list"@),
        ClientMsg::ListRooms => Some("/rooms"@),
        ClientMsg::Pm { to, text } => Some("/pm "@ + to + " "@ + text),
        ClientMsg::Block { username } => Some("/block "@ + username),
        ClientMsg::Unblock { username } => Some("/unblock "@ + username),
        ClientMsg::Quit => Some("/quit"@),
    }
}

/// The line that asks the server for `msg`, where the text protocol has one.
pub fn render_outbound(msg: &ClientMessage) -> (r: Option<String>)
    ensures
        match r {
            Some(line) => request_line(msg@) == Some(line@),
            None => request_line(msg@) is None,
        },
{
    match msg {
        ClientMessage::Hello { .. } => None,
        ClientMessage::Say { text } => Some(text.clone()),
        ClientMessage::Join { room } => Some("/join ".to_owned().concat(room.as_str())),
        ClientMessage::ListUsers => Some("/list".to_owned()),
        ClientMessage::ListRooms => Some("/rooms".to_owned()),
        ClientMessage::Pm { to, text } => Some(
            "/pm ".to_owned().concat(to.as_str()).concat(" ").concat(text.as_str()),
        ),
        ClientMessage::Block { username } => Some("/block ".to_owned().concat(username.as_str())),
        ClientMessage::Unblock { username } => Some(
            "/unblock ".to_owned().concat(username.as_str()),
        ),
        ClientMessage::Quit => Some("/quit".to_owned()),
    }
}

// ---------------------------------------------------------------------------
// Lines in
// ---------------------------------------------------------------------------

/// Whether `t` takes eight bytes with colons where `HH:MM:SS` has them.
pub open spec fn is_stamp(t: Seq<char>) -> bool {
    let b = encode_utf8(t);
    b.len() == 8 && b[2] == 58 && b[5] == 58
}

/// What follows a leading `[HH:MM:SS]`, without leading white space.
pub open spec fn after_stamp(line: Seq<char>) -> Option<Seq<char>> {
    match without_prefix(line, "["@) {
        Some(rest) => match first_match(rest, "]"@) {
            Some(close) => if is_stamp(rest.take(close)) {
                Some(trimmed_start(rest.skip(close + "]"@.len())))
            } else {
                None
            },
            None => None,
        },
        None => None,
    }
}

/// What follows a leading `[HH:MM:SS]`, without leading white space.
pub fn strip_bracketed_timestamp(line: &str) -> (r: Option<&str>)
    ensures
        match r {
            Some(rest) => after_stamp(line@) == Some(rest@),
            None => after_stamp(line@) is None,
        },
{
    let rest = match strip_prefix(line, "[") {
        Some(rest) => rest,
        None => return None,
    };
    let mark = "]";
    let close = match find(rest, mark) {
        Some(close) => close,
        None => return None,
    };
    let stamp = head(rest, close);
    let b = stamp.as_bytes();
    if b.len() == 8 && b[2] == 58 && b[5] == 58 {
        Some(trim_start(tail(rest, close + mark.unicode_len())))
    } else {
        None
    }
}

/// `s` before and after its first space.
pub open spec fn at_first_space(s: Seq<char>) -> Option<(Seq<char>, Seq<char>)> {
    match first_match(s, " "@) {
        Some(i) => Some((s.take(i), s.skip(i + " "@.len()))),
        None => None,
    }
}

/// `s` before and after its first space.
pub fn split_first_word(s: &str) -> (r: Option<(&str, &str)>)
    ensures
        match r {
            Some(p) => at_first_space(s@) == Some((p.0@, p.1@)),
            None => at_first_space(s@) is None,
        },
{
    let space = " ";
    match find(s, space) {
        Some(i) => Some((head(s, i), tail(s, i + space.unicode_len()))),
        None => None,
    }
}

/// A private message: `[PM from <name>] <text>`.
pub open spec fn pm_line(line: Seq<char>, ts: i64) -> Option<ServerMsg> {
    match without_prefix(line, "[PM from "@) {
        Some(rest) => match first_match(rest, "]"@) {
            Some(end) => Some(
                ServerMsg::Pm {
                    from: rest.take(end),
                    text: trimmed_start(rest.skip(end + "]"@.len())),
                    ts,
                },
            ),
            None => None,
        },
        None => None,
    }
}

/// The room that a join notice names, after the user's name.
pub open spec fn joined_room(tail: Seq<char>) -> Seq<char> {
    if let Some(r) = without_prefix(tail, "joined room "@) {
        trimmed(r)
    } else if let Some(r) = without_prefix(tail, "joined the chat (room: "@) {
        stripped_end(r, ')')
    } else {
        Seq::empty()
    }
}

/// The room that a leave notice names, after the user's name.
pub open spec fn left_room(tail: Seq<char>) -> Seq<char> {
    match without_prefix(tail, "left room "@) {
        Some(r) => trimmed(r),
        None => trimmed(""@),
    }
}

/// A notice that a user joined or left: `<user> joined ...`, `<user> left ...`.
pub open spec fn move_notice(rest: Seq<char>) -> Option<ServerMsg> {
    match at_first_space(rest) {
        Some((user, tail)) => if begins_with(tail, "joined "@) {
            Some(ServerMsg::UserJoined { username: user, room: joined_room(tail) })
        } else if begins_with(tail, "left "@) {
            Some(ServerMsg::UserLeft { username: user, room: left_room(tail) })
        } else {
            None
        },
        None => None,
    }
}

/// A chat line: `<user>: <text>`, the name without spaces and not empty.
pub open spec fn chat_line(rest: Seq<char>, ts: i64) -> Option<ServerMsg> {
    match first_match(rest, ": "@) {
        Some(colon) => {
            let from = rest.take(colon);
            if from.len() > 0 && !from.contains(' ') {
                Some(
                    ServerMsg::Chat {
                        from,
                        room: Seq::empty(),
                        text: rest.skip(colon + ": "@.len()),
                        ts,
                    },
                )
            } else {
                None
            }
        },
        None => None,
    }
}

/// What a line from the server says, received at `ts`.
pub open spec fn server_line(line: Seq<char>, ts: i64) -> ServerMsg {
    if let Some(msg) = pm_line(line, ts) {
        msg
    } else if let Some(rest) = after_stamp(line) {
        if let Some(msg) = move_notice(rest) {
            msg
        } else if let Some(msg) = chat_line(rest, ts) {
            msg
        } else {
            ServerMsg::System { text: line, ts }
        }
    } else {
        ServerMsg::System { text: line, ts }
    }
}

/// What a line from the server says, received at `ts`.
pub fn parse_line_at(line: &str, ts: i64) -> (r: ServerMessage)
    ensures
        r@ == server_line(line@, ts),
{
    if let Some(rest) = strip_prefix(line, "[PM from ") {
        let mark = "]";
        if let Some(end) = find(rest, mark) {
            let from = head(rest, end).to_owned();
            let text = trim_start(tail(rest, end + mark.unicode_len())).to_owned();
            return ServerMessage::Pm { from, text, ts };
        }
    }
    if let Some(rest) = strip_bracketed_timestamp(line) {
        if let Some((user, tail)) = split_first_word(rest) {
            if starts_with(tail, "joined ") {
                let room = if let Some(r) = strip_prefix(tail, "joined room ") {
                    trim(r).to_owned()
                } else if let Some(r) = strip_prefix(tail, "joined the chat (room: ") {
                    trim_end_matches(r, ')').to_owned()
                } else {
                    String::new()
                };
                return ServerMessage::UserJoined { username: user.to_owned(), room };
            }
            if starts_with(tail, "left ") {
                let named = match strip_prefix(tail, "left room ") {
                    Some(r) => r,
                    None => "",
                };
                let room = trim(named).to_owned();
                return ServerMessage::UserLeft { username: user.to_owned(), room };
            }
        }
        let mark = ": ";
        if let Some(colon) = find(rest, mark) {
            let from = head(rest, colon);
            let text = tail(rest, colon + mark.unicode_len());
            if !from.is_empty() && !contains_char(from, ' ') {
                return ServerMessage::Chat {
                    from: from.to_owned(),
                    room: String::new(),
                    text: text.to_owned(),
                    ts,
                };
            }
        }
    }
    ServerMessage::System { text: line.to_owned(), ts }
}

/// What a line from the server says, received now.
pub fn parse_line(line: &str) -> (r: ServerMessage)
    ensures
        exists|ts: i64| r@ == #[trigger] server_line(line@, ts),
{
    let ts = now_ts();
    parse_line_at(line, ts)
}

// ---------------------------------------------------------------------------
// Lists in
// ---------------------------------------------------------------------------

/// Which list the collector is in the middle of.
#[derive(Debug, Clone, Copy, PartialEq, Eq, Structural)]
pub enum CollectMode {
    Outside,
    Users,
    Rooms,
}

/// Reassembles the multi-line `/list` and `/rooms` text replies back into
/// structured `UserList` / `RoomList` messages. Lines outside those blocks pass
/// straight through `parse_line`.
pub struct ListCollector {
    pub mode: CollectMode,
    pub items: Vec<String>,
}

/// The model of a `ListCollector`.
pub struct Collecting {
    pub mode: CollectMode,
    pub items: Seq<Seq<char>>,
}

impl View for ListCollector {
    type V = Collecting;

    open spec fn view(&self) -> Collecting {
        Collecting { mode: self.mode, items: texts(self.items@) }
    }
}

/// The models of a list of messages.
pub open spec fn messages(list: Seq<ServerMessage>) -> Seq<ServerMsg> {
    list.map_values(|m: ServerMessage| m@)
}

/// The names of a list of user entries.
pub open spec fn user_names(items: Seq<Seq<char>>) -> Seq<Seq<char>> {
    items.map_values(|i: Seq<char>| user_entry(i).0)
}

/// The names of a list of room entries.
pub open spec fn room_names(items: Seq<Seq<char>>) -> Seq<Seq<char>> {
    items.map_values(|i: Seq<char>| room_entry(i).0)
}

/// A collector outside of any list.
pub open spec fn idle() -> Collecting {
    Collecting { mode: CollectMode::Outside, items: Seq::empty() }
}

/// The message of the list that is open, if one is.
pub open spec fn open_list(c: Collecting) -> Seq<ServerMsg> {
    match c.mode {
        CollectMode::Users => seq![ServerMsg::UserList { users: user_names(c.items) }],
        CollectMode::Rooms => seq![ServerMsg::RoomList { rooms: room_names(c.items) }],
        CollectMode::Outside => Seq::empty(),
    }
}

/// The collector after one more line, and the messages that the line completes.
pub open spec fn collect(c: Collecting, line: Seq<char>, ts: i64) -> (Collecting, Seq<ServerMsg>) {
    if trimmed(line) == USER_LIST_HEADER@ {
        (Collecting { mode: CollectMode::Users, items: Seq::empty() }, open_list(c))
    } else if trimmed(line) == ROOM_LIST_HEADER@ {
        (Collecting { mode: CollectMode::Rooms, items: Seq::empty() }, open_list(c))
    } else if c.mode == CollectMode::Outside {
        (c, seq![server_line(line, ts)])
    } else if let Some(item) = list_entry(line) {
        (Collecting { mode: c.mode, items: c.items.push(item) }, Seq::empty())
    } else {
        (idle(), open_list(c).push(server_line(line, ts)))
    }
}

/// A raw line as the collector gets it: without carriage returns at its end.
pub open spec fn line_of(raw: Seq<char>) -> Seq<char> {
    stripped_end(raw, '\r')
}

/// The collector after the raw lines, empty lines skipped, and the messages
/// that they complete.
pub open spec fn collect_lines(c: Collecting, raws: Seq<Seq<char>>, ts: i64) -> (
    Collecting,
    Seq<ServerMsg>,
)
    decreases raws.len(),
{
    if raws.len() == 0 {
        (c, Seq::empty())
    } else {
        let (before, out) = collect_lines(c, raws.drop_last(), ts);
        let line = line_of(raws.last());
        if line.len() == 0 {
            (before, out)
        } else {
            let (after, more) = collect(before, line, ts);
            (after, out + more)
        }
    }
}

/// The messages of one received text: those that its lines complete, and the
/// list that is open at its end.
pub open spec fn received(c: Collecting, text: Seq<char>, ts: i64) -> Seq<ServerMsg> {
    let (after, out) = collect_lines(c, pieces(text, '\n'), ts);
    out + open_list(after)
}

/// The messages of one received block of encrypted bytes.
pub open spec fn received_bytes(c: Collecting, data: Seq<u8>, ts: i64) -> Seq<ServerMsg> {
    received(c, text_of(xored(data)), ts)
}

impl Default for ListCollector {
    fn default() -> (r: Self)
        ensures
            r@ == idle(),
    {
        let r = ListCollector { mode: CollectMode::Outside, items: Vec::new() };
        assert(r@.items =~= Seq::<Seq<char>>::empty());
        r
    }
}

impl ListCollector {
    /// Takes one line in; gives the messages that it completes.
    pub fn feed_at(&mut self, line: &str, ts: i64) -> (r: Vec<ServerMessage>)
        ensures
            (final(self)@, messages(r@)) == collect(old(self)@, line@, ts),
    {
        let ghost before = self@;
        let trimmed_line = trim(line);
        if str_eq(trimmed_line, USER_LIST_HEADER) {
            let out = self.flush();
            self.mode = CollectMode::Users;
            return out;
        }
        if str_eq(trimmed_line, ROOM_LIST_HEADER) {
            let out = self.flush();
            self.mode = CollectMode::Rooms;
            return out;
        }
        if self.mode != CollectMode::Outside {
            if let Some(item) = list_item(line) {
                self.items.push(item.to_owned());
                assert(self@.items =~= before.items.push(item@));
                let out: Vec<ServerMessage> = Vec::new();
                assert(messages(out@) =~= Seq::<ServerMsg>::empty());
                return out;
            }
            let mut out = self.flush();
            let ghost list = messages(out@);
            out.push(parse_line_at(line, ts));
            assert(messages(out@) =~= list.push(server_line(line@, ts)));
            return out;
        }
        let mut out: Vec<ServerMessage> = Vec::new();
        out.push(parse_line_at(line, ts));
        assert(messages(out@) =~= seq![server_line(line@, ts)]);
        out
    }

    /// Takes one line in; gives the messages that it completes now.
    pub fn feed(&mut self, line: &str) -> (r: Vec<ServerMessage>)
        ensures
            exists|ts: i64|
                (final(self)@, messages(r@)) == #[trigger] collect(old(self)@, line@, ts),
    {
        let ts = now_ts();
        self.feed_at(line, ts)
    }

    /// Ends the list that is open; gives its message.
    pub fn flush(&mut self) -> (r: Vec<ServerMessage>)
        ensures
            final(self)@ == idle(),
            messages(r@) == open_list(old(self)@),
    {
        let mut items: Vec<String> = Vec::new();
        std::mem::swap(&mut items, &mut self.items);
        let mode = self.mode;
        self.mode = CollectMode::Outside;
        assert(self@.items =~= Seq::<Seq<char>>::empty());
        let mut names: Vec<String> = Vec::new();
        let mut out: Vec<ServerMessage> = Vec::new();
        assert(messages(out@) =~= Seq::<ServerMsg>::empty());
        match mode {
            CollectMode::Users => {
                for i in 0..items.len()
                    invariant
                        texts(names@) == user_names(texts(items@)).take(i as int),
                {
                    let (name, room) = parse_user_entry(items[i].as_str());
                    let ghost so_far = texts(names@);
                    names.push(name);
                    assert(texts(names@) =~= so_far.push(name@));
                    assert(texts(items@)[i as int] == items@[i as int]@);
                    assert(texts(names@) =~= user_names(texts(items@)).take(i + 1));
                }
                assert(texts(names@) =~= user_names(texts(items@)));
                out.push(ServerMessage::UserList { users: names });
                assert(messages(out@) =~= open_list(old(self)@));
            },
            CollectMode::Rooms => {
                for i in 0..items.len()
                    invariant
                        texts(names@) == room_names(texts(items@)).take(i as int),
                {
                    let (name, count) = parse_room_entry(items[i].as_str());
                    let ghost so_far = texts(names@);
                    names.push(name);
                    assert(texts(names@) =~= so_far.push(name@));
                    assert(texts(items@)[i as int] == items@[i as int]@);
                    assert(texts(names@) =~= room_names(texts(items@)).take(i + 1));
                }
                assert(texts(names@) =~= room_names(texts(items@)));
                out.push(ServerMessage::RoomList { rooms: names });
                assert(messages(out@) =~= open_list(old(self)@));
            },
            CollectMode::Outside => {},
        }
        out
    }

    /// Takes in one received text; gives the messages that it holds.
    pub fn receive_text(&mut self, text: &str, ts: i64) -> (r: Vec<ServerMessage>)
        ensures
            final(self)@ == idle(),
            messages(r@) == received(old(self)@, text@, ts),
    {
        let ghost start = self@;
        let raws = split(text, '\n');
        let mut out: Vec<ServerMessage> = Vec::new();
        let mut i: usize = 0;
        assert(slices(raws@).take(0) =~= Seq::<Seq<char>>::empty());
        assert(messages(out@) =~= Seq::<ServerMsg>::empty());
        while i < raws.len()
            invariant
                i <= raws.len(),
                (self@, messages(out@)) == collect_lines(start, slices(raws@).take(i as int), ts),
            decreases raws.len() - i,
        {
            let line = trim_end_matches(raws[i], '\r');
            assert(slices(raws@).take(i + 1).drop_last() =~= slices(raws@).take(i as int));
            assert(slices(raws@).take(i + 1).last() == raws@[i as int]@);
            if !line.is_empty() {
                let ghost so_far = out@;
                let mut more = self.feed_at(line, ts);
                let ghost added = more@;
                out.append(&mut more);
                assert(messages(out@) =~= messages(so_far) + messages(added));
            }
            i += 1;
        }
        assert(slices(raws@).take(i as int) =~= slices(raws@));
        let ghost so_far = out@;
        let mut list = self.flush();
        let ghost added = list@;
        out.append(&mut list);
        assert(messages(out@) =~= messages(so_far) + messages(added));
        out
    }

    /// Takes in one received block of encrypted bytes; gives the messages that
    /// it holds.
    pub fn receive(&mut self, data: &[u8]) -> (r: Vec<ServerMessage>)
        ensures
            final(self)@ == idle(),
            exists|ts: i64|
                messages(r@) == #[trigger] received_bytes(old(self)@, data@, ts),
    {
        let plain = xor_bytes(data);
        let text = decode_lossy(plain.as_slice());
        assert(text@ == text_of(xored(data@)));
        let ts = now_ts();
        let r = self.receive_text(text.as_str(), ts);
        assert(messages(r@) == received_bytes(old(self)@, data@, ts));
        r
    }
}

} // verus!
