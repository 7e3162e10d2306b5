//! The client's connection, step by step: what to do after each event.

use vstd::prelude::*;
use vstd::utf8::encode_utf8;

use crate::net::{render_outbound, request_line};
use crate::protocol::{
    now_ts, xor_bytes, xored, ClientMessage, ClientMsg, ServerMessage, ServerMsg, DEFAULT_ROOM,
};

verus! {

/// How the connection to the server stands.
#[derive(Debug, Clone, Copy, PartialEq, Eq, Structural)]
pub enum ConnStatus {
    Connecting,
    Online,
    Reconnecting,
    Closed,
}

/// The pause after a first failed attempt, in milliseconds.
pub const FIRST_BACKOFF_MS: u64 = 500;

/// The longest pause between two attempts, in milliseconds.
pub const MAX_BACKOFF_MS: u64 = 10000;

/// The pause before reconnecting after a lost connection, in milliseconds.
pub const LOST_PAUSE_MS: u64 = 800;

/// What happened to the connection.
pub enum NetEvent {
    /// The client starts.
    Start,
    /// The stream is open.
    Connected,
    /// The stream could not be opened.
    ConnectFailed { error: String },
    /// The username was written.
    NameSent,
    /// The username could not be written.
    NameFailed,
    /// The user asks for something; `None` when the user interface is gone.
    Outbound { msg: Option<ClientMessage> },
    /// A request was written.
    Written { quit: bool },
    /// A request could not be written.
    WriteFailed,
    /// The reader ended: the server closed the stream.
    ReaderEnded,
}

/// What the connection does next.
pub enum NetAction {
    /// Show the status.
    Status { status: ConnStatus },
    /// Hand a message to the user interface.
    Deliver { msg: ServerMessage },
    /// Pause.
    Sleep { ms: u64 },
    /// Open a stream.
    Connect,
    /// Write the username.
    SendName { bytes: Vec<u8> },
    /// Start reading.
    StartReader,
    /// Wait for a request or for the reader's end.
    Listen,
    /// Write a request.
    Write { bytes: Vec<u8>, quit: bool },
    /// Stop reading.
    AbortReader,
    /// Done.
    Stop,
}

/// The model of a `NetEvent`.
pub enum NetEv {
    Start,
    Connected,
    ConnectFailed { error: Seq<char> },
    NameSent,
    NameFailed,
    Outbound { msg: Option<ClientMsg> },
    Written { quit: bool },
    WriteFailed,
    ReaderEnded,
}

/// The model of a `NetAction`.
pub enum NetAct {
    Status { status: ConnStatus },
    Deliver { msg: ServerMsg },
    Sleep { ms: u64 },
    Connect,
    SendName { bytes: Seq<u8> },
    StartReader,
    Listen,
    Write { bytes: Seq<u8>, quit: bool },
    AbortReader,
    Stop,
}

impl View for NetEvent {
    type V = NetEv;

    open spec fn view(&self) -> NetEv {
        match *self {
            NetEvent::Start => NetEv::Start,
            NetEvent::Connected => NetEv::Connected,
            NetEvent::ConnectFailed { error } => NetEv::ConnectFailed { error: error@ },
            NetEvent::NameSent => NetEv::NameSent,
            NetEvent::NameFailed => NetEv::NameFailed,
            NetEvent::Outbound { msg: Some(m) } => NetEv::Outbound { msg: Some(m@) },
            NetEvent::Outbound { msg: None } => NetEv::Outbound { msg: None },
            NetEvent::Written { quit } => NetEv::Written { quit },
            NetEvent::WriteFailed => NetEv::WriteFailed,
            NetEvent::ReaderEnded => NetEv::ReaderEnded,
        }
    }
}

impl View for NetAction {
    type V = NetAct;

    open spec fn view(&self) -> NetAct {
        match *self {
            NetAction::Status { status } => NetAct::Status { status },
            NetAction::Deliver { msg } => NetAct::Deliver { msg: msg@ },
            NetAction::Sleep { ms } => NetAct::Sleep { ms },
            NetAction::Connect => NetAct::Connect,
            NetAction::SendName { bytes } => NetAct::SendName { bytes: bytes@ },
            NetAction::StartReader => NetAct::StartReader,
            NetAction::Listen => NetAct::Listen,
            NetAction::Write { bytes, quit } => NetAct::Write { bytes: bytes@, quit },
            NetAction::AbortReader => NetAct::AbortReader,
            NetAction::Stop => NetAct::Stop,
        }
    }
}

/// The models of a list of actions.
pub open spec fn net_acts(list: Seq<NetAction>) -> Seq<NetAct> {
    list.map_values(|a: NetAction| a@)
}

/// The client's connection.
pub struct Connector {
    pub addr: String,
    pub username: String,
    pub backoff_ms: u64,
    pub first_connect: bool,
}

/// The model of a `Connector`.
pub struct Link {
    pub addr: Seq<char>,
    pub username: Seq<char>,
    pub backoff_ms: u64,
    pub first_connect: bool,
}

impl View for Connector {
    type V = Link;

    open spec fn view(&self) -> Link {
        Link {
            addr: self.addr@,
            username: self.username@,
            backoff_ms: self.backoff_ms,
            first_connect: self.first_connect,
        }
    }
}

/// A connection that was never open.
pub open spec fn new_link(addr: Seq<char>, username: Seq<char>) -> Link {
    Link { addr, username, backoff_ms: FIRST_BACKOFF_MS, first_connect: true }
}

/// Twice the pause, up to the longest.
pub open spec fn next_backoff(ms: u64) -> u64 {
    if 2 * ms <= MAX_BACKOFF_MS {
        (2 * ms) as u64
    } else {
        MAX_BACKOFF_MS
    }
}

/// Twice the pause, up to the longest.
pub fn double_backoff(ms: u64) -> (r: u64)
    ensures
        r == next_backoff(ms),
{
    if ms <= MAX_BACKOFF_MS / 2 {
        2 * ms
    } else {
        MAX_BACKOFF_MS
    }
}

/// The actions that open a stream.
pub open spec fn opening() -> Seq<NetAct> {
    seq![NetAct::Status { status: ConnStatus::Connecting }, NetAct::Connect]
}

/// The actions that tell the user of a fault and the wish to reconnect.
pub open spec fn trouble(text: Seq<char>) -> Seq<NetAct> {
    seq![
        NetAct::Status { status: ConnStatus::Reconnecting },
        NetAct::Deliver { msg: ServerMsg::Error { text } },
    ]
}

/// The actions after the connection was lost.
pub open spec fn lost() -> Seq<NetAct> {
    seq![NetAct::AbortReader] + trouble("lost connection, retrying..."@) + seq![
        NetAct::Sleep { ms: LOST_PAUSE_MS },
    ] + opening()
}

/// What greets the user once the name is sent.
pub open spec fn greeting(l: Link, ts: i64) -> ServerMsg {
    if l.first_connect {
        ServerMsg::Welcome {
            username: l.username,
            room: DEFAULT_ROOM@,
            motd: "connected to "@ + l.addr + " (xor-encrypted)"@,
        }
    } else {
        ServerMsg::System { text: "reconnected"@, ts }
    }
}

/// The connection after an event, and what it does next.
pub open spec fn net_step(l: Link, event: NetEv, ts: i64) -> (Link, Seq<NetAct>) {
    match event {
        NetEv::Start => (l, opening()),
        NetEv::ConnectFailed { error } => (
            Link { backoff_ms: next_backoff(l.backoff_ms), ..l },
            trouble("connect: "@ + error) + seq![NetAct::Sleep { ms: l.backoff_ms }] + opening(),
        ),
        NetEv::Connected => (
            Link { backoff_ms: FIRST_BACKOFF_MS, ..l },
            seq![NetAct::SendName { bytes: encode_utf8(l.username) }],
        ),
        NetEv::NameFailed => (l, trouble("username send failed, retrying..."@) + opening()),
        NetEv::NameSent => (
            Link { first_connect: false, ..l },
            seq![
                NetAct::Status { status: ConnStatus::Online },
                NetAct::Deliver { msg: greeting(l, ts) },
                NetAct::StartReader,
                NetAct::Listen,
            ],
        ),
        NetEv::Outbound { msg: None } => (l, seq![NetAct::Stop]),
        NetEv::Outbound { msg: Some(msg) } => (
            l,
            match request_line(msg) {
                Some(line) => seq![
                    NetAct::Write { bytes: xored(encode_utf8(line)), quit: msg is Quit },
                ],
                None => seq![NetAct::Listen],
            },
        ),
        NetEv::Written { quit } => (
            l,
            if quit {
                seq![
                    NetAct::Status { status: ConnStatus::Closed },
                    NetAct::AbortReader,
                    NetAct::Stop,
                ]
            } else {
                seq![NetAct::Listen]
            },
        ),
        NetEv::WriteFailed => (l, lost()),
        NetEv::ReaderEnded => (l, lost()),
    }
}

/// Appends the actions that open a stream.
fn push_opening(out: &mut Vec<NetAction>)
    ensures
        net_acts(final(out)@) == net_acts(old(out)@) + opening(),
{
    out.push(NetAction::Status { status: ConnStatus::Connecting });
    out.push(NetAction::Connect);
    assert(net_acts(out@) =~= net_acts(old(out)@) + opening());
}

/// Appends the actions that tell the user of a fault.
fn push_trouble(out: &mut Vec<NetAction>, text: String)
    ensures
        net_acts(final(out)@) == net_acts(old(out)@) + trouble(text@),
{
    out.push(NetAction::Status { status: ConnStatus::Reconnecting });
    out.push(NetAction::Deliver { msg: ServerMessage::Error { text } });
    assert(net_acts(out@) =~= net_acts(old(out)@) + trouble(text@));
}

/// Appends a pause.
fn push_sleep(out: &mut Vec<NetAction>, ms: u64)
    ensures
        net_acts(final(out)@) == net_acts(old(out)@) + seq![NetAct::Sleep { ms }],
{
    out.push(NetAction::Sleep { ms });
    assert(net_acts(out@) =~= net_acts(old(out)@) + seq![NetAct::Sleep { ms }]);
}

impl Connector {
    pub fn new(addr: String, username: String) -> (r: Self)
        ensures
            r@ == new_link(addr@, username@),
    {
        Connector { addr, username, backoff_ms: FIRST_BACKOFF_MS, first_connect: true }
    }

    /// Takes note of an event at `ts`; gives what to do next, in order.
    pub fn step_at(&mut self, event: NetEvent, ts: i64) -> (r: Vec<NetAction>)
        ensures
            (final(self)@, net_acts(r@)) == net_step(old(self)@, event@, ts),
    {
        let ghost l = self@;
        let ghost e = event@;
        let mut out: Vec<NetAction> = Vec::new();
        assert(net_acts(out@) =~= Seq::<NetAct>::empty());
        match event {
            NetEvent::Start => {
                push_opening(&mut out);
            },
            NetEvent::ConnectFailed { error } => {
                push_trouble(&mut out, "connect: ".to_owned().concat(error.as_str()));
                push_sleep(&mut out, self.backoff_ms);
                push_opening(&mut out);
                self.backoff_ms = double_backoff(self.backoff_ms);
            },
            NetEvent::Connected => {
                self.backoff_ms = FIRST_BACKOFF_MS;
                out.push(NetAction::SendName { bytes: self.username.as_str().as_bytes_vec() });
            },
            NetEvent::NameFailed => {
                push_trouble(&mut out, "username send failed, retrying...".to_owned());
                push_opening(&mut out);
            },
            NetEvent::NameSent => {
                out.push(NetAction::Status { status: ConnStatus::Online });
                let msg = if self.first_connect {
                    ServerMessage::Welcome {
                        username: self.username.clone(),
                        room: DEFAULT_ROOM.to_owned(),
                        motd: "connected to ".to_owned().concat(self.addr.as_str()).concat(
                            " (xor-encrypted)",
                        ),
                    }
                } else {
                    ServerMessage::System { text: "reconnected".to_owned(), ts }
                };
                self.first_connect = false;
                out.push(NetAction::Deliver { msg });
                out.push(NetAction::StartReader);
                out.push(NetAction::Listen);
            },
            NetEvent::Outbound { msg: None } => {
                out.push(NetAction::Stop);
            },
            NetEvent::Outbound { msg: Some(msg) } => {
                let quit = matches!(msg, ClientMessage::Quit);
                match render_outbound(&msg) {
                    Some(line) => {
                        let bytes = xor_bytes(line.as_str().as_bytes());
                        out.push(NetAction::Write { bytes, quit });
                    },
                    None => {
                        out.push(NetAction::Listen);
                    },
                }
            },
            NetEvent::Written { quit } => {
                if quit {
                    out.push(NetAction::Status { status: ConnStatus::Closed });
                    out.push(NetAction::AbortReader);
                    out.push(NetAction::Stop);
                } else {
                    out.push(NetAction::Listen);
                }
            },
            NetEvent::WriteFailed | NetEvent::ReaderEnded => {
                out.push(NetAction::AbortReader);
                assert(net_acts(out@) =~= seq![NetAct::AbortReader]);
                push_trouble(&mut out, "lost connection, retrying...".to_owned());
                push_sleep(&mut out, LOST_PAUSE_MS);
                push_opening(&mut out);
            },
        }
        assert(net_acts(out@) =~= net_step(l, e, ts).1);
        out
    }

    /// Takes note of an event now; gives what to do next, in order.
    pub fn step(&mut self, event: NetEvent) -> (r: Vec<NetAction>)
        ensures
            exists|ts: i64|
                (final(self)@, net_acts(r@)) == #[trigger] net_step(old(self)@, event@, ts),
    {
        let ts = now_ts();
        self.step_at(event, ts)
    }
}

// ---------------------------------------------------------------------------
// Laws
// ---------------------------------------------------------------------------

/// The pause after `n` failed attempts in a row, in milliseconds.
pub open spec fn backoff_after(n: nat) -> u64
    decreases n,
{
    if n == 0 {
        FIRST_BACKOFF_MS
    } else {
        next_backoff(backoff_after((n - 1) as nat))
    }
}

/// The connection after the events, each with the time at which it came.
pub open spec fn net_run(l: Link, events: Seq<(NetEv, i64)>) -> Link
    decreases events.len(),
{
    if events.len() == 0 {
        l
    } else {
        net_step(net_run(l, events.drop_last()), events.last().0, events.last().1).0
    }
}

/// The pause never leaves the range from the first pause to the longest,
/// whatever happens.
pub proof fn law_backoff_stays_in_range(l: Link, events: Seq<(NetEv, i64)>)
    requires
        FIRST_BACKOFF_MS <= l.backoff_ms <= MAX_BACKOFF_MS,
    ensures
        FIRST_BACKOFF_MS <= net_run(l, events).backoff_ms <= MAX_BACKOFF_MS,
    decreases events.len(),
{
    if events.len() > 0 {
        law_backoff_stays_in_range(l, events.drop_last());
    }
}

/// Each failed attempt in a row after a success doubles the pause, up to the
/// longest; the next success starts over.
pub proof fn law_backoff_doubles(l: Link, failures: Seq<(NetEv, i64)>, ts: i64)
    requires
        l.backoff_ms == FIRST_BACKOFF_MS,
        forall|i: int| 0 <= i < failures.len() ==> (#[trigger] failures[i]).0 is ConnectFailed,
    ensures
        net_run(l, failures).backoff_ms == backoff_after(failures.len()),
        net_run(l, failures.push((NetEv::Connected, ts))).backoff_ms == FIRST_BACKOFF_MS,
    decreases failures.len(),
{
    assert(failures.push((NetEv::Connected, ts)).drop_last() =~= failures);
    if failures.len() > 0 {
        assert(failures[failures.len() - 1].0 is ConnectFailed);
        law_backoff_doubles(l, failures.drop_last(), ts);
    }
}

/// Once the user has been welcomed, no later step welcomes them again.
pub proof fn law_welcomed_once(l: Link, events: Seq<(NetEv, i64)>, event: NetEv, ts: i64)
    requires
        !l.first_connect,
    ensures
        forall|i: int|
            0 <= i < net_step(net_run(l, events), event, ts).1.len() ==> !((
            #[trigger] net_step(net_run(l, events), event, ts).1[i]) matches NetAct::Deliver {
                msg: ServerMsg::Welcome { username, room, motd },
            }),
    decreases events.len(),
{
    lemma_not_first(l, events);
}

proof fn lemma_not_first(l: Link, events: Seq<(NetEv, i64)>)
    requires
        !l.first_connect,
    ensures
        !net_run(l, events).first_connect,
    decreases events.len(),
{
    if events.len() > 0 {
        lemma_not_first(l, events.drop_last());
    }
}

} // verus!
