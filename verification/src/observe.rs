//! Observing another server: its users and rooms are gathered from its replies,
//! and everything else that it says goes to the activity log.

use vstd::prelude::*;

use crate::connection::{
    double_backoff, next_backoff, FIRST_BACKOFF_MS, LOST_PAUSE_MS, MAX_BACKOFF_MS,
};
use crate::hub::{logged, Hub};
use crate::net::line_of;
use crate::protocol::{
    list_entry, list_item, now_ts, parse_room_entry, parse_user_entry, room_entry, user_entry,
    ROOM_LIST_HEADER, USER_LIST_HEADER,
};
use crate::session::counted;
use crate::state::{room_pairs, user_pairs, ServerState};
use crate::text::{
    decode_lossy, pieces, slices, split, str_eq, text_of, trim, trim_end_matches, trimmed,
};

verus! {

// ---------------------------------------------------------------------------
// Gathering
// ---------------------------------------------------------------------------

/// Which list is being gathered.
#[derive(Copy, Clone, PartialEq, Eq, Debug, Structural)]
pub enum ObserveMode {
    Outside,
    Users,
    Rooms,
}

/// Puts the replies to `/list` and `/rooms` together again into the dashboard's
/// panels. Lines outside of those go to the activity log.
pub struct ObserveCollector {
    pub self_name: String,
    pub mode: ObserveMode,
    pub users: Vec<(String, String)>,
    pub rooms: Vec<(String, usize)>,
}

/// The model of an `ObserveCollector`.
#[verifier::ext_equal]
pub struct Gathering {
    pub self_name: Seq<char>,
    pub mode: ObserveMode,
    pub users: Seq<(Seq<char>, Seq<char>)>,
    pub rooms: Seq<(Seq<char>, usize)>,
}

impl View for ObserveCollector {
    type V = Gathering;

    open spec fn view(&self) -> Gathering {
        Gathering {
            self_name: self.self_name@,
            mode: self.mode,
            users: user_pairs(self.users@),
            rooms: room_pairs(self.rooms@),
        }
    }
}

/// Nothing gathered yet.
pub open spec fn nothing_gathered(self_name: Seq<char>) -> Gathering {
    Gathering {
        self_name,
        mode: ObserveMode::Outside,
        users: Seq::empty(),
        rooms: Seq::empty(),
    }
}

/// Who is not called `me`.
pub open spec fn is_other(me: Seq<char>) -> spec_fn((Seq<char>, Seq<char>)) -> bool {
    |u: (Seq<char>, Seq<char>)| u.0 != me
}

/// The users without the observer's own connection.
pub open spec fn others(users: Seq<(Seq<char>, Seq<char>)>, me: Seq<char>) -> Seq<
    (Seq<char>, Seq<char>),
> {
    users.filter(is_other(me))
}

/// The end of the list that is being gathered: it is shown.
pub open spec fn gathered(g: Gathering, h: Hub) -> (Gathering, Hub) {
    match g.mode {
        ObserveMode::Users => (
            Gathering { mode: ObserveMode::Outside, users: Seq::empty(), ..g },
            Hub { observed_users: others(g.users, g.self_name), ..h },
        ),
        ObserveMode::Rooms => (
            Gathering { mode: ObserveMode::Outside, rooms: Seq::empty(), ..g },
            Hub { observed_rooms: g.rooms, ..h },
        ),
        ObserveMode::Outside => (g, h),
    }
}

/// The user that a list entry gives; its room is empty where it gives none.
pub open spec fn listed_user(item: Seq<char>) -> (Seq<char>, Seq<char>) {
    let (name, room) = user_entry(item);
    (
        name,
        match room {
            Some(r) => r,
            None => Seq::empty(),
        },
    )
}

/// The room that a list entry gives; its size is 0 where it gives none.
pub open spec fn listed_room(item: Seq<char>) -> (Seq<char>, usize) {
    let (name, count) = room_entry(item);
    (
        name,
        match count {
            Some(n) => n as usize,
            None => 0,
        },
    )
}

/// Whether a line opens a list.
pub open spec fn is_header(line: Seq<char>) -> bool {
    trimmed(line) == USER_LIST_HEADER@ || trimmed(line) == ROOM_LIST_HEADER@
}

/// Whether a line is neither a header nor an entry of the list that is being
/// gathered.
pub open spec fn is_activity(mode: ObserveMode, line: Seq<char>) -> bool {
    !is_header(line) && (mode == ObserveMode::Outside || list_entry(line) is None)
}

/// What follows from a line that comes at `ts`.
pub open spec fn observed_line(g: Gathering, h: Hub, line: Seq<char>, ts: i64) -> (Gathering, Hub) {
    let (g1, h1) = gathered(g, h);
    if trimmed(line) == USER_LIST_HEADER@ {
        (Gathering { mode: ObserveMode::Users, users: Seq::empty(), ..g1 }, h1)
    } else if trimmed(line) == ROOM_LIST_HEADER@ {
        (Gathering { mode: ObserveMode::Rooms, rooms: Seq::empty(), ..g1 }, h1)
    } else if is_activity(g.mode, line) {
        (g1, logged(counted(h1), line, ts))
    } else {
        let item = list_entry(line).unwrap();
        match g.mode {
            ObserveMode::Users => (Gathering { users: g.users.push(listed_user(item)), ..g }, h),
            _ => (Gathering { rooms: g.rooms.push(listed_room(item)), ..g }, h),
        }
    }
}

/// What follows from some raw lines that come at `ts`.
pub open spec fn observed_lines(g: Gathering, h: Hub, raws: Seq<Seq<char>>, ts: i64) -> (
    Gathering,
    Hub,
)
    decreases raws.len(),
{
    if raws.len() == 0 {
        (g, h)
    } else {
        let (g1, h1) = observed_lines(g, h, raws.drop_last(), ts);
        let line = line_of(raws.last());
        if line.len() == 0 {
            (g1, h1)
        } else {
            observed_line(g1, h1, line, ts)
        }
    }
}

/// What follows from a text that comes at `ts`.
pub open spec fn observed_text(g: Gathering, h: Hub, text: Seq<char>, ts: i64) -> (Gathering, Hub) {
    let (g1, h1) = observed_lines(g, h, pieces(text, '\n'), ts);
    gathered(g1, h1)
}

/// The list that is being gathered after a line.
pub open spec fn mode_after(mode: ObserveMode, line: Seq<char>) -> ObserveMode {
    if trimmed(line) == USER_LIST_HEADER@ {
        ObserveMode::Users
    } else if trimmed(line) == ROOM_LIST_HEADER@ {
        ObserveMode::Rooms
    } else if is_activity(mode, line) {
        ObserveMode::Outside
    } else {
        mode
    }
}

/// The list that is being gathered after some raw lines, and the number of those
/// that go to the activity log.
pub open spec fn activity(mode: ObserveMode, raws: Seq<Seq<char>>) -> (ObserveMode, nat)
    decreases raws.len(),
{
    if raws.len() == 0 {
        (mode, 0)
    } else {
        let (m, n) = activity(mode, raws.drop_last());
        let line = line_of(raws.last());
        if line.len() == 0 {
            (m, n)
        } else if is_activity(m, line) {
            (mode_after(m, line), n + 1)
        } else {
            (mode_after(m, line), n)
        }
    }
}

/// The lines that go to the activity log are counted.
pub proof fn lemma_activity(g: Gathering, h: Hub, raws: Seq<Seq<char>>, ts: i64)
    requires
        h.total_messages + activity(g.mode, raws).1 <= u64::MAX,
    ensures
        observed_lines(g, h, raws, ts).0.mode == activity(g.mode, raws).0,
        observed_lines(g, h, raws, ts).1.total_messages == h.total_messages + activity(
            g.mode,
            raws,
        ).1,
    decreases raws.len(),
{
    if raws.len() > 0 {
        lemma_activity(g, h, raws.drop_last(), ts);
    }
}

/// More lines make no fewer that go to the activity log.
proof fn lemma_activity_grows(mode: ObserveMode, raws: Seq<Seq<char>>, i: int)
    requires
        0 <= i <= raws.len(),
    ensures
        activity(mode, raws.take(i)).1 <= activity(mode, raws).1,
    decreases raws.len() - i,
{
    if i < raws.len() {
        lemma_activity_grows(mode, raws, i + 1);
        assert(raws.take(i + 1).drop_last() =~= raws.take(i));
    } else {
        assert(raws.take(i) =~= raws);
    }
}

impl ObserveCollector {
    pub fn new(self_name: String) -> (r: Self)
        ensures
            r@ == nothing_gathered(self_name@),
    {
        let r = ObserveCollector {
            self_name,
            mode: ObserveMode::Outside,
            users: Vec::new(),
            rooms: Vec::new(),
        };
        assert(r@ =~= nothing_gathered(self_name@));
        r
    }

    /// Ends the list that is being gathered, and shows it.
    pub fn flush(&mut self, state: &mut ServerState)
        requires
            old(state).wf(),
        ensures
            final(state).wf(),
            (final(self)@, final(state)@) == gathered(old(self)@, old(state)@),
    {
        let ghost g = self@;
        match self.mode {
            ObserveMode::Users => {
                let mut all: Vec<(String, String)> = Vec::new();
                std::mem::swap(&mut all, &mut self.users);
                let mut kept: Vec<(String, String)> = Vec::new();
                let ghost not_me = is_other(g.self_name);
                let mut i: usize = 0;
                assert(user_pairs(kept@) =~= user_pairs(all@).take(0).filter(not_me));
                while i < all.len()
                    invariant
                        i <= all.len(),
                        self.self_name@ == g.self_name,
                        not_me == is_other(g.self_name),
                        user_pairs(kept@) == user_pairs(all@).take(i as int).filter(not_me),
                    decreases all.len() - i,
                {
                    let ghost so_far = user_pairs(kept@);
                    let ghost pair = user_pairs(all@)[i as int];
                    reveal(Seq::filter);
                    assert(user_pairs(all@).take(i + 1).drop_last() =~= user_pairs(all@).take(
                        i as int,
                    ));
                    if all[i].0 != self.self_name {
                        kept.push((all[i].0.clone(), all[i].1.clone()));
                        assert(user_pairs(kept@) =~= so_far.push(pair));
                    }
                    i += 1;
                }
                assert(user_pairs(all@).take(i as int) =~= user_pairs(all@));
                assert(user_pairs(kept@) == others(g.users, g.self_name));
                state.set_observed_users(kept);
                assert(self@.users =~= Seq::<(Seq<char>, Seq<char>)>::empty());
            },
            ObserveMode::Rooms => {
                let mut all: Vec<(String, usize)> = Vec::new();
                std::mem::swap(&mut all, &mut self.rooms);
                state.set_observed_rooms(all);
                assert(self@.rooms =~= Seq::<(Seq<char>, usize)>::empty());
            },
            ObserveMode::Outside => {},
        }
        self.mode = ObserveMode::Outside;
    }

    /// Takes in a line that comes at `ts`.
    pub fn feed_at(&mut self, line: &str, state: &mut ServerState, ts: i64)
        requires
            old(state).wf(),
            is_activity(old(self)@.mode, line@) ==> old(state)@.total_messages < u64::MAX,
        ensures
            final(state).wf(),
            (final(self)@, final(state)@) == observed_line(old(self)@, old(state)@, line@, ts),
    {
        let ghost g = self@;
        let t = trim(line);
        if str_eq(t, USER_LIST_HEADER) {
            self.flush(state);
            self.mode = ObserveMode::Users;
            self.users.clear();
            assert(self@.users =~= Seq::<(Seq<char>, Seq<char>)>::empty());
            return;
        }
        if str_eq(t, ROOM_LIST_HEADER) {
            self.flush(state);
            self.mode = ObserveMode::Rooms;
            self.rooms.clear();
            assert(self@.rooms =~= Seq::<(Seq<char>, usize)>::empty());
            return;
        }
        match self.mode {
            ObserveMode::Users => {
                if let Some(item) = list_item(line) {
                    let (name, room) = parse_user_entry(item);
                    let room = match room {
                        Some(r) => r,
                        None => String::new(),
                    };
                    let ghost pair = (name@, room@);
                    self.users.push((name, room));
                    proof {
                        assert(pair == listed_user(item@));
                        assert(self@.users =~= g.users.push(pair));
                    }
                    return;
                }
            },
            ObserveMode::Rooms => {
                if let Some(item) = list_item(line) {
                    let (room, count) = parse_room_entry(item);
                    let count = match count {
                        Some(n) => n,
                        None => 0,
                    };
                    let ghost pair = (room@, count);
                    self.rooms.push((room, count));
                    proof {
                        assert(pair == listed_room(item@));
                        assert(self@.rooms =~= g.rooms.push(pair));
                    }
                    return;
                }
            },
            ObserveMode::Outside => {},
        }
        self.flush(state);
        state.bump_msg_count();
        state.log_at(line.to_owned(), ts);
    }

    /// Takes in a line.
    pub fn feed(&mut self, line: &str, state: &mut ServerState)
        requires
            old(state).wf(),
            is_activity(old(self)@.mode, line@) ==> old(state)@.total_messages < u64::MAX,
        ensures
            final(state).wf(),
            exists|ts: i64|
                (final(self)@, final(state)@) == #[trigger] observed_line(
                    old(self)@,
                    old(state)@,
                    line@,
                    ts,
                ),
    {
        let ts = now_ts();
        self.feed_at(line, state, ts);
    }

    /// The number of lines in a text that go to the activity log.
    pub fn count_activity(&self, text: &str) -> (r: usize)
        ensures
            r == activity(self.mode, pieces(text@, '\n')).1,
    {
        let raws = split(text, '\n');
        let ghost lines = slices(raws@);
        let mut mode = self.mode;
        let mut n: usize = 0;
        let mut i: usize = 0;
        assert(lines.take(0) =~= Seq::<Seq<char>>::empty());
        while i < raws.len()
            invariant
                i <= raws.len(),
                n <= i,
                lines == slices(raws@),
                (mode, n as nat) == activity(self.mode, lines.take(i as int)),
            decreases raws.len() - i,
        {
            let line = trim_end_matches(raws[i], '\r');
            assert(lines.take(i + 1).drop_last() =~= lines.take(i as int));
            assert(lines.take(i + 1).last() == raws@[i as int]@);
            if !line.is_empty() {
                let t = trim(line);
                if str_eq(t, USER_LIST_HEADER) {
                    mode = ObserveMode::Users;
                } else if str_eq(t, ROOM_LIST_HEADER) {
                    mode = ObserveMode::Rooms;
                } else if mode == ObserveMode::Outside || list_item(line).is_none() {
                    mode = ObserveMode::Outside;
                    n += 1;
                }
            }
            i += 1;
        }
        assert(lines.take(i as int) =~= lines);
        n
    }

    /// Takes in a text that comes at `ts`.
    #[verifier::rlimit(40)]
    pub fn receive_text_at(&mut self, text: &str, state: &mut ServerState, ts: i64)
        requires
            old(state).wf(),
            old(state)@.total_messages + activity(old(self)@.mode, pieces(text@, '\n')).1
                <= u64::MAX,
        ensures
            final(state).wf(),
            (final(self)@, final(state)@) == observed_text(old(self)@, old(state)@, text@, ts),
    {
        let ghost g = self@;
        let ghost h = state@;
        let raws = split(text, '\n');
        let ghost lines = slices(raws@);
        let mut i: usize = 0;
        assert(lines.take(0) =~= Seq::<Seq<char>>::empty());
        while i < raws.len()
            invariant
                state.wf(),
                i <= raws.len(),
                lines == slices(raws@),
                h.total_messages + activity(g.mode, lines).1 <= u64::MAX,
                (self@, state@) == observed_lines(g, h, lines.take(i as int), ts),
            decreases raws.len() - i,
        {
            let line = trim_end_matches(raws[i], '\r');
            proof {
                assert(lines.take(i + 1).drop_last() =~= lines.take(i as int));
                assert(lines.take(i + 1).last() == raws@[i as int]@);
                lemma_activity_grows(g.mode, lines, i as int);
                lemma_activity_grows(g.mode, lines, i + 1);
                lemma_activity(g, h, lines.take(i as int), ts);
            }
            if !line.is_empty() {
                self.feed_at(line, state, ts);
            }
            i += 1;
        }
        assert(lines.take(i as int) =~= lines);
        self.flush(state);
    }

    /// Takes in a frame that comes at `ts`. Gives `false`, and does nothing,
    /// where the count of messages would go out of range.
    pub fn receive_at(&mut self, payload: &[u8], state: &mut ServerState, ts: i64) -> (r: bool)
        requires
            old(state).wf(),
        ensures
            final(state).wf(),
            r == (old(state)@.total_messages + activity(
                old(self)@.mode,
                pieces(text_of(payload@), '\n'),
            ).1 <= u64::MAX),
            (final(self)@, final(state)@) == (if r {
                observed_text(old(self)@, old(state)@, text_of(payload@), ts)
            } else {
                (old(self)@, old(state)@)
            }),
    {
        let text = decode_lossy(payload);
        assert(text@ == text_of(payload@));
        if !state.can_count(self.count_activity(text.as_str())) {
            return false;
        }
        self.receive_text_at(text.as_str(), state, ts);
        true
    }

    /// Takes in a frame.
    pub fn receive(&mut self, payload: &[u8], state: &mut ServerState) -> (r: bool)
        requires
            old(state).wf(),
        ensures
            final(state).wf(),
            r == (old(state)@.total_messages + activity(
                old(self)@.mode,
                pieces(text_of(payload@), '\n'),
            ).1 <= u64::MAX),
            r ==> exists|ts: i64|
                (final(self)@, final(state)@) == #[trigger] observed_text(
                    old(self)@,
                    old(state)@,
                    text_of(payload@),
                    ts,
                ),
            !r ==> (final(self)@, final(state)@) == (old(self)@, old(state)@),
    {
        let ts = now_ts();
        self.receive_at(payload, state, ts)
    }
}

// ---------------------------------------------------------------------------
// The connection
// ---------------------------------------------------------------------------

/// What happened to the observer's connection.
pub enum ObserveEvent {
    /// A connection is wanted.
    Start,
    /// The stream is open.
    Connected,
    /// The stream could not be opened.
    ConnectFailed { error: String },
    /// The name was written.
    NameSent,
    /// The name could not be written.
    NameFailed,
    /// It is time to ask for users or rooms.
    Tick,
    /// The administrator typed a command; `None` when the dashboard is gone.
    Admin { cmd: Option<String> },
    /// A request was written.
    Written,
    /// The administrator's command was written.
    AdminWritten { sent: String },
    /// A request or a command could not be written.
    WriteFailed,
    /// The stream has ended.
    Closed,
}

/// What the observer does next.
pub enum ObserveAction {
    /// Open a stream.
    Connect,
    /// Write the name.
    SendName { text: String },
    /// Wait for the next event.
    Listen,
    /// Write a request.
    Send { text: String },
    /// Write the administrator's command.
    SendAdmin { text: String, cmd: String },
    /// Pause.
    Sleep { ms: u64 },
    /// Start anew.
    Restart,
    /// Done.
    Stop,
}

/// The model of an `ObserveEvent`.
pub enum ObserveEv {
    Start,
    Connected,
    ConnectFailed { error: Seq<char> },
    NameSent,
    NameFailed,
    Tick,
    Admin { cmd: Option<Seq<char>> },
    Written,
    AdminWritten { sent: Seq<char> },
    WriteFailed,
    Closed,
}

/// The model of an `ObserveAction`.
pub enum ObserveAct {
    Connect,
    SendName { text: Seq<char> },
    Listen,
    Send { text: Seq<char> },
    SendAdmin { text: Seq<char>, cmd: Seq<char> },
    Sleep { ms: u64 },
    Restart,
    Stop,
}

impl View for ObserveEvent {
    type V = ObserveEv;

    open spec fn view(&self) -> ObserveEv {
        match *self {
            ObserveEvent::Start => ObserveEv::Start,
            ObserveEvent::Connected => ObserveEv::Connected,
            ObserveEvent::ConnectFailed { error } => ObserveEv::ConnectFailed { error: error@ },
            ObserveEvent::NameSent => ObserveEv::NameSent,
            ObserveEvent::NameFailed => ObserveEv::NameFailed,
            ObserveEvent::Tick => ObserveEv::Tick,
            ObserveEvent::Admin { cmd: Some(c) } => ObserveEv::Admin { cmd: Some(c@) },
            ObserveEvent::Admin { cmd: None } => ObserveEv::Admin { cmd: None },
            ObserveEvent::Written => ObserveEv::Written,
            ObserveEvent::AdminWritten { sent } => ObserveEv::AdminWritten { sent: sent@ },
            ObserveEvent::WriteFailed => ObserveEv::WriteFailed,
            ObserveEvent::Closed => ObserveEv::Closed,
        }
    }
}

impl View for ObserveAction {
    type V = ObserveAct;

    open spec fn view(&self) -> ObserveAct {
        match *self {
            ObserveAction::Connect => ObserveAct::Connect,
            ObserveAction::SendName { text } => ObserveAct::SendName { text: text@ },
            ObserveAction::Listen => ObserveAct::Listen,
            ObserveAction::Send { text } => ObserveAct::Send { text: text@ },
            ObserveAction::SendAdmin { text, cmd } => ObserveAct::SendAdmin {
                text: text@,
                cmd: cmd@,
            },
            ObserveAction::Sleep { ms } => ObserveAct::Sleep { ms },
            ObserveAction::Restart => ObserveAct::Restart,
            ObserveAction::Stop => ObserveAct::Stop,
        }
    }
}

/// The models of a list of actions.
pub open spec fn observe_acts(list: Seq<ObserveAction>) -> Seq<ObserveAct> {
    list.map_values(|a: ObserveAction| a@)
}

/// An observer of another server.
pub struct Observer {
    pub addr: String,
    pub username: String,
    pub admin_token: String,
    pub backoff_ms: u64,
    pub ask_rooms: bool,
    pub collector: ObserveCollector,
}

/// The model of an `Observer`.
#[verifier::ext_equal]
pub struct Outlook {
    pub addr: Seq<char>,
    pub username: Seq<char>,
    pub admin_token: Seq<char>,
    pub backoff_ms: u64,
    pub ask_rooms: bool,
    pub gathering: Gathering,
}

impl View for Observer {
    type V = Outlook;

    open spec fn view(&self) -> Outlook {
        Outlook {
            addr: self.addr@,
            username: self.username@,
            admin_token: self.admin_token@,
            backoff_ms: self.backoff_ms,
            ask_rooms: self.ask_rooms,
            gathering: self.collector@,
        }
    }
}

/// An observer that was never connected.
pub open spec fn new_outlook(
    addr: Seq<char>,
    username: Seq<char>,
    admin_token: Seq<char>,
) -> Outlook {
    Outlook {
        addr,
        username,
        admin_token,
        backoff_ms: FIRST_BACKOFF_MS,
        ask_rooms: false,
        gathering: nothing_gathered(username),
    }
}

/// What the observer does once the connection is lost.
pub open spec fn gone() -> Seq<ObserveAct> {
    seq![ObserveAct::Sleep { ms: LOST_PAUSE_MS }, ObserveAct::Restart]
}

/// The observer and the server's state after an event at `ts`, and what the
/// observer does next.
pub open spec fn observe_step(o: Outlook, h: Hub, event: ObserveEv, ts: i64) -> (
    Outlook,
    Hub,
    Seq<ObserveAct>,
) {
    match event {
        ObserveEv::Start => (
            o,
            logged(h, "observe: connecting to "@ + o.addr + " as "@ + o.username, ts),
            seq![ObserveAct::Connect],
        ),
        ObserveEv::ConnectFailed { error } => (
            Outlook { backoff_ms: next_backoff(o.backoff_ms), ..o },
            logged(h, "observe: connect failed: "@ + error, ts),
            seq![ObserveAct::Sleep { ms: o.backoff_ms }, ObserveAct::Restart],
        ),
        ObserveEv::Connected => (
            Outlook { backoff_ms: FIRST_BACKOFF_MS, ..o },
            h,
            seq![ObserveAct::SendName { text: o.username }],
        ),
        ObserveEv::NameFailed => (
            o,
            logged(h, "observe: handshake failed"@, ts),
            seq![ObserveAct::Restart],
        ),
        ObserveEv::NameSent => (
            Outlook { ask_rooms: false, gathering: nothing_gathered(o.username), ..o },
            logged(h, "observe: connected to "@ + o.addr, ts),
            seq![ObserveAct::Listen],
        ),
        ObserveEv::Tick => (
            Outlook { ask_rooms: !o.ask_rooms, ..o },
            h,
            seq![
                ObserveAct::Send {
                    text: if o.ask_rooms {
                        "/rooms"@
                    } else {
                        "/list"@
                    },
                },
            ],
        ),
        ObserveEv::Admin { cmd: None } => (o, h, seq![ObserveAct::Stop]),
        ObserveEv::Admin { cmd: Some(cmd) } => if o.admin_token.len() == 0 {
            (
                o,
                logged(
                    h,
                    "[admin] refused (set VECTORCOM_ADMIN_TOKEN to enable): "@ + trimmed(cmd),
                    ts,
                ),
                seq![ObserveAct::Listen],
            )
        } else {
            (
                o,
                h,
                seq![
                    ObserveAct::SendAdmin {
                        text: "/admin "@ + o.admin_token + " "@ + trimmed(cmd),
                        cmd: trimmed(cmd),
                    },
                ],
            )
        },
        ObserveEv::Written => (o, h, seq![ObserveAct::Listen]),
        ObserveEv::AdminWritten { sent } => (
            o,
            logged(h, "[admin] sent: "@ + sent, ts),
            seq![ObserveAct::Listen],
        ),
        ObserveEv::WriteFailed => (o, h, gone()),
        ObserveEv::Closed => (o, logged(h, "observe: upstream closed"@, ts), gone()),
    }
}

/// Whether the count of messages has room for the lines of a frame that go to the
/// activity log.
pub open spec fn frame_fits(o: Outlook, h: Hub, payload: Seq<u8>) -> bool {
    h.total_messages + activity(o.gathering.mode, pieces(text_of(payload), '\n')).1 <= u64::MAX
}

/// The observer and the server's state after a frame at `ts`: nothing is done
/// where the count of messages would go out of range.
pub open spec fn observe_frame(o: Outlook, h: Hub, payload: Seq<u8>, ts: i64) -> (Outlook, Hub) {
    if frame_fits(o, h, payload) {
        let (gathering, g) = observed_text(o.gathering, h, text_of(payload), ts);
        (Outlook { gathering, ..o }, g)
    } else {
        (o, h)
    }
}

/// A list of one action.
fn one(a: ObserveAction) -> (r: Vec<ObserveAction>)
    ensures
        observe_acts(r@) == seq![a@],
{
    let r = vec![a];
    assert(observe_acts(r@) =~= seq![a@]);
    r
}

/// A pause, then a new start.
fn retry(ms: u64) -> (r: Vec<ObserveAction>)
    ensures
        observe_acts(r@) == seq![ObserveAct::Sleep { ms }, ObserveAct::Restart],
{
    let r = vec![ObserveAction::Sleep { ms }, ObserveAction::Restart];
    assert(observe_acts(r@) =~= seq![ObserveAct::Sleep { ms }, ObserveAct::Restart]);
    r
}

impl Observer {
    pub fn new(addr: String, username: String, admin_token: String) -> (r: Self)
        ensures
            r@ == new_outlook(addr@, username@, admin_token@),
    {
        let collector = ObserveCollector::new(username.clone());
        Observer {
            addr,
            username,
            admin_token,
            backoff_ms: FIRST_BACKOFF_MS,
            ask_rooms: false,
            collector,
        }
    }

    /// Takes in an event at `ts`; says what to do next.
    #[verifier::rlimit(40)]
    pub fn step_at(&mut self, state: &mut ServerState, event: ObserveEvent, ts: i64) -> (r: Vec<
        ObserveAction,
    >)
        requires
            old(state).wf(),
        ensures
            final(state).wf(),
            (final(self)@, final(state)@, observe_acts(r@)) == observe_step(
                old(self)@,
                old(state)@,
                event@,
                ts,
            ),
    {
        match event {
            ObserveEvent::Start => {
                let line = "observe: connecting to ".to_owned().concat(self.addr.as_str()).concat(
                    " as ",
                ).concat(self.username.as_str());
                state.log_at(line, ts);
                one(ObserveAction::Connect)
            },
            ObserveEvent::ConnectFailed { error } => {
                state.log_at("observe: connect failed: ".to_owned().concat(error.as_str()), ts);
                let pause = self.backoff_ms;
                self.backoff_ms = double_backoff(pause);
                retry(pause)
            },
            ObserveEvent::Connected => {
                self.backoff_ms = FIRST_BACKOFF_MS;
                one(ObserveAction::SendName { text: self.username.clone() })
            },
            ObserveEvent::NameFailed => {
                state.log_at("observe: handshake failed".to_owned(), ts);
                one(ObserveAction::Restart)
            },
            ObserveEvent::NameSent => {
                state.log_at("observe: connected to ".to_owned().concat(self.addr.as_str()), ts);
                self.ask_rooms = false;
                self.collector = ObserveCollector::new(self.username.clone());
                one(ObserveAction::Listen)
            },
            ObserveEvent::Tick => {
                let text = if self.ask_rooms {
                    "/rooms"
                } else {
                    "/list"
                };
                self.ask_rooms = !self.ask_rooms;
                one(ObserveAction::Send { text: text.to_owned() })
            },
            ObserveEvent::Admin { cmd: Some(cmd) } => {
                let cmd = trim(cmd.as_str());
                if self.admin_token.as_str().is_empty() {
                    let line =
                        "[admin] refused (set VECTORCOM_ADMIN_TOKEN to enable): ".to_owned().concat(
                        cmd,
                    );
                    state.log_at(line, ts);
                    one(ObserveAction::Listen)
                } else {
                    let text = "/admin ".to_owned().concat(self.admin_token.as_str()).concat(
                        " ",
                    ).concat(cmd);
                    one(ObserveAction::SendAdmin { text, cmd: cmd.to_owned() })
                }
            },
            ObserveEvent::Admin { cmd: None } => one(ObserveAction::Stop),
            ObserveEvent::Written => one(ObserveAction::Listen),
            ObserveEvent::AdminWritten { sent } => {
                state.log_at("[admin] sent: ".to_owned().concat(sent.as_str()), ts);
                one(ObserveAction::Listen)
            },
            ObserveEvent::WriteFailed => retry(LOST_PAUSE_MS),
            ObserveEvent::Closed => {
                state.log_at("observe: upstream closed".to_owned(), ts);
                retry(LOST_PAUSE_MS)
            },
        }
    }

    /// Takes in a frame at `ts`. Gives `false`, and does nothing, where the count of
    /// messages would go out of range.
    pub fn receive_at(&mut self, state: &mut ServerState, payload: &[u8], ts: i64) -> (r: bool)
        requires
            old(state).wf(),
        ensures
            final(state).wf(),
            r == frame_fits(old(self)@, old(state)@, payload@),
            (final(self)@, final(state)@) == observe_frame(
                old(self)@,
                old(state)@,
                payload@,
                ts,
            ),
    {
        self.collector.receive_at(payload, state, ts)
    }

    /// Takes in a frame.
    pub fn receive(&mut self, state: &mut ServerState, payload: &[u8]) -> (r: bool)
        requires
            old(state).wf(),
        ensures
            final(state).wf(),
            r == frame_fits(old(self)@, old(state)@, payload@),
            exists|ts: i64|
                (final(self)@, final(state)@) == #[trigger] observe_frame(
                    old(self)@,
                    old(state)@,
                    payload@,
                    ts,
                ),
    {
        let ts = now_ts();
        self.receive_at(state, payload, ts)
    }

    /// Takes in an event; says what to do next.
    pub fn step(&mut self, state: &mut ServerState, event: ObserveEvent) -> (r: Vec<ObserveAction>)
        requires
            old(state).wf(),
        ensures
            final(state).wf(),
            exists|ts: i64|
                (final(self)@, final(state)@, observe_acts(r@)) == #[trigger] observe_step(
                    old(self)@,
                    old(state)@,
                    event@,
                    ts,
                ),
    {
        let ts = now_ts();
        self.step_at(state, event, ts)
    }
}

// ---------------------------------------------------------------------------
// Laws
// ---------------------------------------------------------------------------

/// The observer's own connection is never shown.
pub proof fn law_observer_is_not_listed(users: Seq<(Seq<char>, Seq<char>)>, me: Seq<char>, i: int)
    requires
        0 <= i < others(users, me).len(),
    ensures
        others(users, me)[i].0 != me,
        users.contains(others(users, me)[i]),
{
    users.lemma_filter_contains_rev(is_other(me), others(users, me)[i]);
    users.lemma_filter_pred(is_other(me), i);
}

/// What reaches the observer: an event of its connection, or a frame from upstream.
pub enum ObserveInput {
    Event { event: ObserveEv },
    Frame { payload: Seq<u8> },
}

/// The observer and the server's state after all that reached it, each with the
/// time at which it came.
pub open spec fn observe_run(o: Outlook, h: Hub, inputs: Seq<(ObserveInput, i64)>) -> (Outlook, Hub)
    decreases inputs.len(),
{
    if inputs.len() == 0 {
        (o, h)
    } else {
        let (o1, h1) = observe_run(o, h, inputs.drop_last());
        let (input, ts) = inputs.last();
        match input {
            ObserveInput::Event { event } => {
                let (o2, h2, acts) = observe_step(o1, h1, event, ts);
                (o2, h2)
            },
            ObserveInput::Frame { payload } => observe_frame(o1, h1, payload, ts),
        }
    }
}

/// The administrator's token is never shown: whatever reaches the observer, what
/// is logged, and the rest of the server's state, is the same for every token.
pub proof fn law_token_is_not_logged(
    o: Outlook,
    token: Seq<char>,
    h: Hub,
    inputs: Seq<(ObserveInput, i64)>,
)
    requires
        o.admin_token.len() > 0,
        token.len() > 0,
    ensures
        observe_run(Outlook { admin_token: token, ..o }, h, inputs).1 == observe_run(
            o,
            h,
            inputs,
        ).1,
        observe_run(Outlook { admin_token: token, ..o }, h, inputs).0 == (Outlook {
            admin_token: token,
            ..observe_run(o, h, inputs).0
        }),
        observe_run(o, h, inputs).0.admin_token == o.admin_token,
    decreases inputs.len(),
{
    if inputs.len() > 0 {
        law_token_is_not_logged(o, token, h, inputs.drop_last());
    }
}

/// The command that the observer reports once it is written is what the
/// administrator typed, without the token.
pub proof fn law_reported_command_hides_the_token(
    o: Outlook,
    h: Hub,
    cmd: Seq<char>,
    ts: i64,
)
    requires
        o.admin_token.len() > 0,
    ensures
        observe_step(o, h, ObserveEv::Admin { cmd: Some(cmd) }, ts).2 == seq![
            ObserveAct::SendAdmin {
                text: "/admin "@ + o.admin_token + " "@ + trimmed(cmd),
                cmd: trimmed(cmd),
            },
        ],
{
}

/// Users and rooms are asked for in turn.
pub proof fn law_polls_alternate(o: Outlook, h: Hub, ts: i64, later: i64)
    ensures
        ({
            let (o1, h1, first) = observe_step(o, h, ObserveEv::Tick, ts);
            let (o2, h2, second) = observe_step(o1, h1, ObserveEv::Tick, later);
            &&& o2 == o
            &&& h2 == h
            &&& first != second
            &&& first == seq![ObserveAct::Send { text: "/list"@ }] || second == seq![
                ObserveAct::Send { text: "/list"@ },
            ]
            &&& first == seq![ObserveAct::Send { text: "/rooms"@ }] || second == seq![
                ObserveAct::Send { text: "/rooms"@ },
            ]
        }),
{
    reveal_strlit("/list");
    reveal_strlit("/rooms");
    let (o1, h1, first) = observe_step(o, h, ObserveEv::Tick, ts);
    let (o2, h2, second) = observe_step(o1, h1, ObserveEv::Tick, later);
    assert("/list"@[1] != "/rooms"@[1]);
    assert(first[0] != second[0]);
}

/// The pause between two attempts stays between the shortest and the longest,
/// whatever reaches the observer.
pub proof fn law_observer_backoff_stays_in_range(
    o: Outlook,
    h: Hub,
    inputs: Seq<(ObserveInput, i64)>,
)
    requires
        FIRST_BACKOFF_MS <= o.backoff_ms <= MAX_BACKOFF_MS,
    ensures
        FIRST_BACKOFF_MS <= observe_run(o, h, inputs).0.backoff_ms <= MAX_BACKOFF_MS,
    decreases inputs.len(),
{
    if inputs.len() > 0 {
        law_observer_backoff_stays_in_range(o, h, inputs.drop_last());
    }
}

} // verus!
