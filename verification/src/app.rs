//! The client's state: the history, the line being typed and what the screen
//! shows of them.

use std::collections::VecDeque;
use vstd::prelude::*;

use crate::connection::ConnStatus;
use crate::input::{no_input, Editing, Input};
use crate::protocol::{now_ts, DEFAULT_ROOM};
use crate::text::texts;

verus! {

/// The number of lines that the history keeps.
pub const HISTORY_LINES: usize = 2000;

/// What kind of line it is.
#[derive(Debug)]
pub enum LineKind {
    Chat { from: String },
    Pm { from: String, outgoing: bool },
    System,
    Error,
}

/// The model of a `LineKind`.
pub enum RowKind {
    Chat { from: Seq<char> },
    Pm { from: Seq<char>, outgoing: bool },
    System,
    Error,
}

impl View for LineKind {
    type V = RowKind;

    open spec fn view(&self) -> RowKind {
        match *self {
            LineKind::Chat { from } => RowKind::Chat { from: from@ },
            LineKind::Pm { from, outgoing } => RowKind::Pm { from: from@, outgoing },
            LineKind::System => RowKind::System,
            LineKind::Error => RowKind::Error,
        }
    }
}

impl Clone for LineKind {
    fn clone(&self) -> (r: Self)
        ensures
            r@ == self@,
    {
        match self {
            LineKind::Chat { from } => LineKind::Chat { from: from.clone() },
            LineKind::Pm { from, outgoing } => LineKind::Pm {
                from: from.clone(),
                outgoing: *outgoing,
            },
            LineKind::System => LineKind::System,
            LineKind::Error => LineKind::Error,
        }
    }
}

/// A line of the history.
#[derive(Debug)]
pub struct ChatLine {
    pub kind: LineKind,
    pub text: String,
    pub ts: i64,
}

/// The model of a `ChatLine`.
pub struct Row {
    pub kind: RowKind,
    pub text: Seq<char>,
    pub ts: i64,
}

impl View for ChatLine {
    type V = Row;

    open spec fn view(&self) -> Row {
        Row { kind: self.kind@, text: self.text@, ts: self.ts }
    }
}

impl Clone for ChatLine {
    fn clone(&self) -> (r: Self)
        ensures
            r@ == self@,
    {
        ChatLine { kind: self.kind.clone(), text: self.text.clone(), ts: self.ts }
    }
}

/// The models of a list of lines.
pub open spec fn rows(list: Seq<ChatLine>) -> Seq<Row> {
    list.map_values(|l: ChatLine| l@)
}

/// A notice.
pub open spec fn system_row(text: Seq<char>, ts: i64) -> Row {
    Row { kind: RowKind::System, text, ts }
}

/// A fault.
pub open spec fn error_row(text: Seq<char>, ts: i64) -> Row {
    Row { kind: RowKind::Error, text, ts }
}

impl ChatLine {
    /// A notice, shown at `ts`.
    pub fn system_at(text: String, ts: i64) -> (r: Self)
        ensures
            r@ == system_row(text@, ts),
    {
        ChatLine { kind: LineKind::System, text, ts }
    }

    /// A fault, shown at `ts`.
    pub fn error_at(text: String, ts: i64) -> (r: Self)
        ensures
            r@ == error_row(text@, ts),
    {
        ChatLine { kind: LineKind::Error, text, ts }
    }

    /// A notice, shown now.
    pub fn system(text: String) -> (r: Self)
        ensures
            r@ == system_row(text@, r.ts),
    {
        let ts = now_ts();
        Self::system_at(text, ts)
    }

    /// A fault, shown now.
    pub fn error(text: String) -> (r: Self)
        ensures
            r@ == error_row(text@, r.ts),
    {
        let ts = now_ts();
        Self::error_at(text, ts)
    }
}

/// The client's state.
pub struct App {
    pub username: String,
    pub server_addr: String,
    pub current_room: String,
    pub online: Vec<String>,
    pub history: VecDeque<ChatLine>,
    pub input: Input,
    pub scroll_offset: usize,
    pub connection: ConnStatus,
    pub suggest_idx: usize,
}

/// The model of an `App`.
pub struct Screen {
    pub username: Seq<char>,
    pub server_addr: Seq<char>,
    pub current_room: Seq<char>,
    pub online: Seq<Seq<char>>,
    pub history: Seq<Row>,
    pub input: Editing,
    pub scroll_offset: usize,
    pub connection: ConnStatus,
    pub suggest_idx: usize,
}

impl View for App {
    type V = Screen;

    open spec fn view(&self) -> Screen {
        Screen {
            username: self.username@,
            server_addr: self.server_addr@,
            current_room: self.current_room@,
            online: texts(self.online@),
            history: rows(self.history@),
            input: self.input@,
            scroll_offset: self.scroll_offset,
            connection: self.connection,
            suggest_idx: self.suggest_idx,
        }
    }
}

/// The history with one more line: the oldest makes room where it is full.
pub open spec fn recorded(history: Seq<Row>, row: Row) -> Seq<Row> {
    if history.len() >= HISTORY_LINES {
        history.drop_first().push(row)
    } else {
        history.push(row)
    }
}

/// The state with one more line. Where the user has scrolled up, the view stays
/// on the same lines.
pub open spec fn shown(a: Screen, row: Row) -> Screen {
    Screen {
        history: recorded(a.history, row),
        scroll_offset: if 0 < a.scroll_offset < usize::MAX {
            (a.scroll_offset + 1) as usize
        } else {
            a.scroll_offset
        },
        ..a
    }
}

/// The state of a client that has just started.
pub open spec fn first_screen(username: Seq<char>, server_addr: Seq<char>) -> Screen {
    Screen {
        username,
        server_addr,
        current_room: DEFAULT_ROOM@,
        online: Seq::empty(),
        history: Seq::empty(),
        input: no_input(),
        scroll_offset: 0,
        connection: ConnStatus::Connecting,
        suggest_idx: 0,
    }
}

/// The state scrolled up by `n` lines, at most to the oldest.
pub open spec fn scrolled_up(a: Screen, n: int) -> Screen {
    Screen {
        scroll_offset: if a.scroll_offset + n <= a.history.len() {
            (a.scroll_offset + n) as usize
        } else {
            a.history.len() as usize
        },
        ..a
    }
}

/// The state scrolled down by `n` lines, at most to the newest.
pub open spec fn scrolled_down(a: Screen, n: int) -> Screen {
    Screen {
        scroll_offset: if a.scroll_offset >= n {
            (a.scroll_offset - n) as usize
        } else {
            0
        },
        ..a
    }
}

impl App {
    /// Whether the cursor of the input line stands between two characters and
    /// the history keeps to its length.
    pub open spec fn wf(&self) -> bool {
        &&& self.input.wf()
        &&& self.history@.len() <= HISTORY_LINES
    }

    pub fn new(username: String, server_addr: String) -> (r: Self)
        ensures
            r.wf(),
            r@ == first_screen(username@, server_addr@),
    {
        let r = App {
            username,
            server_addr,
            current_room: DEFAULT_ROOM.to_owned(),
            online: Vec::new(),
            history: VecDeque::with_capacity(1024),
            input: Input::default(),
            scroll_offset: 0,
            connection: ConnStatus::Connecting,
            suggest_idx: 0,
        };
        assert(r@.online =~= Seq::<Seq<char>>::empty());
        assert(r@.history =~= Seq::<Row>::empty());
        r
    }

    /// Adds a line to the history.
    pub fn push(&mut self, line: ChatLine)
        requires
            old(self).wf(),
        ensures
            final(self).wf(),
            final(self)@ == shown(old(self)@, line@),
            final(self).input == old(self).input,
    {
        let ghost before = self@;
        let ghost row = line@;
        if self.history.len() >= HISTORY_LINES {
            let oldest = self.history.pop_front();
            assert(rows(self.history@) =~= before.history.drop_first());
        }
        let ghost kept = rows(self.history@);
        self.history.push_back(line);
        assert(rows(self.history@) =~= kept.push(row));
        if self.scroll_offset > 0 && self.scroll_offset < usize::MAX {
            self.scroll_offset = self.scroll_offset + 1;
        }
    }

    /// Scrolls up by one line.
    pub fn scroll_up(&mut self)
        requires
            old(self).scroll_offset < usize::MAX,
        ensures
            final(self)@ == scrolled_up(old(self)@, 1),
            *final(self) == (App { scroll_offset: final(self).scroll_offset, ..*old(self) }),
    {
        let n = self.history.len();
        self.scroll_offset = if self.scroll_offset + 1 < n {
            self.scroll_offset + 1
        } else {
            n
        };
    }

    /// Scrolls down by one line.
    pub fn scroll_down(&mut self)
        ensures
            final(self)@ == scrolled_down(old(self)@, 1),
            *final(self) == (App { scroll_offset: final(self).scroll_offset, ..*old(self) }),
    {
        self.scroll_offset = if self.scroll_offset >= 1 {
            self.scroll_offset - 1
        } else {
            0
        };
    }

    /// Scrolls up by a page.
    pub fn page_up(&mut self)
        requires
            old(self).scroll_offset <= usize::MAX - 10,
        ensures
            final(self)@ == scrolled_up(old(self)@, 10),
            *final(self) == (App { scroll_offset: final(self).scroll_offset, ..*old(self) }),
    {
        let n = self.history.len();
        self.scroll_offset = if self.scroll_offset + 10 < n {
            self.scroll_offset + 10
        } else {
            n
        };
    }

    /// Scrolls down by a page.
    pub fn page_down(&mut self)
        ensures
            final(self)@ == scrolled_down(old(self)@, 10),
            *final(self) == (App { scroll_offset: final(self).scroll_offset, ..*old(self) }),
    {
        self.scroll_offset = if self.scroll_offset >= 10 {
            self.scroll_offset - 10
        } else {
            0
        };
    }
}

} // verus!
