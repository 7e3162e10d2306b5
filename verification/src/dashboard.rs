//! The server's dashboard: its prompt and its screen.

use vstd::prelude::*;
use vstd::utf8::encode_utf8;

use crate::client_view::{can_place_cursor, cursor_column, cursor_fits, cursor_place, place_cursor};
use crate::clock::{are_clocks_of, clock_stamps, fmt_uptime, uptime_text};
use crate::format::{decimal, format_decimal, pad_right, padded};
use crate::hub::LogEntry;
use crate::keys::Key;
use crate::state::{entries, room_pairs, user_pairs, Snapshot};
use crate::text::{
    begins_with, char_vec, contains_char, head, starts_with, strip_prefix, stripped_start, texts,
    trim, trim_start_matches, trimmed, without_prefix,
};
use crate::view::{
    bold, bold_on, fg, hash_name, ink, is_split, italic, label, line_inks, line_part, line_piece,
    name_hash, on, part_pieces, plain, rgb, row_inks, span, split_area, Area, Border, Color, Edge,
    Figure, Ink, Limit, Line, Part, Picture, Piece, Rim, Scene, Span, Widget,
};

verus! {

// ---------------------------------------------------------------------------
// Commands
// ---------------------------------------------------------------------------

/// A command of the administrator: its name, its usage and what it does. It is
/// typed plain or with a leading slash, which is dropped.
#[derive(Copy, Clone, Debug)]
pub struct AdminCommand {
    pub name: &'static str,
    pub usage: &'static str,
    pub help: &'static str,
}

/// The commands of the administrator, each with name, usage and help.
pub open spec fn admin_table() -> Seq<(Seq<char>, Seq<char>, Seq<char>)> {
    seq![
        ("kick"@, "kick <user>"@, "disconnect a user"@),
        ("say"@, "say <message>"@, "broadcast to all rooms"@),
        ("block"@, "block <user>"@, "block a user from sending messages"@),
        ("unblock"@, "unblock <user>"@, "unblock a user"@),
        ("slowmode"@, "slowmode <room> <secs>"@, "set per-room message cooldown"@),
    ]
}

/// The models of a list of commands.
pub open spec fn command_rows(list: Seq<AdminCommand>) -> Seq<(Seq<char>, Seq<char>, Seq<char>)> {
    list.map_values(|c: AdminCommand| (c.name@, c.usage@, c.help@))
}

/// The commands of the administrator.
pub fn admin_commands() -> (r: Vec<AdminCommand>)
    ensures
        command_rows(r@) == admin_table(),
{
    let r = vec![
        AdminCommand { name: "kick", usage: "kick <user>", help: "disconnect a user" },
        AdminCommand { name: "say", usage: "say <message>", help: "broadcast to all rooms" },
        AdminCommand {
            name: "block",
            usage: "block <user>",
            help: "block a user from sending messages",
        },
        AdminCommand { name: "unblock", usage: "unblock <user>", help: "unblock a user" },
        AdminCommand {
            name: "slowmode",
            usage: "slowmode <room> <secs>",
            help: "set per-room message cooldown",
        },
    ];
    assert(command_rows(r@) =~= admin_table());
    r
}

/// The first word that is being typed, without its slash.
pub open spec fn typed_word(input: Seq<char>) -> Seq<char> {
    match without_prefix(input, "/"@) {
        Some(t) => t,
        None => input,
    }
}

/// Whether a command begins with the word that is being typed.
pub open spec fn is_suggested(input: Seq<char>) -> spec_fn((Seq<char>, Seq<char>, Seq<char>)) -> bool {
    |c: (Seq<char>, Seq<char>, Seq<char>)| begins_with(c.0, typed_word(input))
}

/// The commands that fit what is being typed, as long as that is one word.
pub open spec fn suggested(input: Seq<char>) -> Seq<(Seq<char>, Seq<char>, Seq<char>)> {
    if input.len() == 0 || input.contains(' ') {
        Seq::empty()
    } else {
        admin_table().filter(is_suggested(input))
    }
}

/// The commands that fit what is being typed, as long as that is one word.
pub fn suggestions(input: &str) -> (r: Vec<AdminCommand>)
    ensures
        command_rows(r@) == suggested(input@),
        r@.len() <= 5,
{
    let mut out: Vec<AdminCommand> = Vec::new();
    assert(command_rows(out@) =~= Seq::<(Seq<char>, Seq<char>, Seq<char>)>::empty());
    if input.is_empty() || contains_char(input, ' ') {
        return out;
    }
    let typed = match strip_prefix(input, "/") {
        Some(t) => t,
        None => input,
    };
    let all = admin_commands();
    let ghost rows = command_rows(all@);
    assert(rows.len() == 5);
    let mut i: usize = 0;
    reveal(Seq::filter);
    assert(rows.take(0).filter(is_suggested(input@)) =~= Seq::<
        (Seq<char>, Seq<char>, Seq<char>),
    >::empty());
    while i < all.len()
        invariant
            i <= all.len(),
            all@.len() == 5,
            out@.len() <= i,
            rows == command_rows(all@),
            typed@ == typed_word(input@),
            command_rows(out@) == rows.take(i as int).filter(is_suggested(input@)),
        decreases all.len() - i,
    {
        reveal(Seq::filter);
        let ghost so_far = command_rows(out@);
        assert(rows.take(i + 1).drop_last() =~= rows.take(i as int));
        if starts_with(all[i].name, typed) {
            out.push(all[i]);
            assert(command_rows(out@) =~= so_far.push(rows[i as int]));
        }
        i += 1;
    }
    assert(rows.take(i as int) =~= rows);
    out
}

// ---------------------------------------------------------------------------
// The prompt
// ---------------------------------------------------------------------------

/// The line that the administrator types, and which suggestion is selected.
pub struct Prompt {
    pub input: String,
    pub suggest_idx: usize,
}

/// The model of a `Prompt`.
#[verifier::ext_equal]
pub struct Typing {
    pub input: Seq<char>,
    pub suggest_idx: usize,
}

impl View for Prompt {
    type V = Typing;

    open spec fn view(&self) -> Typing {
        Typing { input: self.input@, suggest_idx: self.suggest_idx }
    }
}

/// What the dashboard does after a key: wait for the next one, end, or run a
/// command.
#[derive(Debug)]
pub enum PromptOutcome {
    Stay,
    Quit,
    Run(String),
}

/// The model of a `PromptOutcome`.
pub enum PromptEnd {
    Stay,
    Quit,
    Run(Seq<char>),
}

impl View for PromptOutcome {
    type V = PromptEnd;

    open spec fn view(&self) -> PromptEnd {
        match *self {
            PromptOutcome::Stay => PromptEnd::Stay,
            PromptOutcome::Quit => PromptEnd::Quit,
            PromptOutcome::Run(cmd) => PromptEnd::Run(cmd@),
        }
    }
}

/// An empty prompt.
pub open spec fn no_typing() -> Typing {
    Typing { input: Seq::empty(), suggest_idx: 0 }
}

/// The selected one of `count` suggestions.
pub open spec fn selected(idx: usize, count: nat) -> int {
    if idx < count {
        idx as int
    } else {
        count - 1
    }
}

/// The command in a line: without space around it and without leading slashes.
pub open spec fn entered_command(input: Seq<char>) -> Seq<char> {
    stripped_start(trimmed(input), '/')
}

/// What follows when `key` is pressed, with the control key where `ctrl`.
pub open spec fn prompted(p: Typing, key: Key, ctrl: bool) -> (Typing, PromptEnd) {
    let list = suggested(p.input);
    let n = list.len();
    match key {
        Key::Char(c) => if ctrl && c == 'c' {
            (p, PromptEnd::Quit)
        } else if ctrl {
            (p, PromptEnd::Stay)
        } else {
            (Typing { input: p.input.push(c), suggest_idx: 0 }, PromptEnd::Stay)
        },
        Key::Esc => if p.input.len() == 0 {
            (p, PromptEnd::Quit)
        } else {
            (no_typing(), PromptEnd::Stay)
        },
        Key::Up => if n > 0 {
            (
                Typing {
                    suggest_idx: if selected(p.suggest_idx, n) > 0 {
                        (selected(p.suggest_idx, n) - 1) as usize
                    } else {
                        (n - 1) as usize
                    },
                    ..p
                },
                PromptEnd::Stay,
            )
        } else {
            (p, PromptEnd::Stay)
        },
        Key::Down => if n > 0 {
            (
                Typing {
                    suggest_idx: ((selected(p.suggest_idx, n) + 1) % n as int) as usize,
                    ..p
                },
                PromptEnd::Stay,
            )
        } else {
            (p, PromptEnd::Stay)
        },
        Key::Tab => if n > 0 {
            (
                Typing { input: list[selected(p.suggest_idx, n)].0 + " "@, suggest_idx: 0 },
                PromptEnd::Stay,
            )
        } else {
            (p, PromptEnd::Stay)
        },
        Key::Enter => (
            no_typing(),
            if entered_command(p.input).len() > 0 {
                PromptEnd::Run(entered_command(p.input))
            } else {
                PromptEnd::Stay
            },
        ),
        Key::Backspace => (
            Typing {
                input: if p.input.len() > 0 {
                    p.input.drop_last()
                } else {
                    p.input
                },
                suggest_idx: 0,
            },
            PromptEnd::Stay,
        ),
        _ => (p, PromptEnd::Stay),
    }
}

impl Prompt {
    pub fn new() -> (r: Self)
        ensures
            r@ == no_typing(),
    {
        Prompt { input: String::new(), suggest_idx: 0 }
    }

    /// Takes in a key.
    pub fn handle_key(&mut self, key: Key, ctrl: bool) -> (r: PromptOutcome)
        ensures
            (final(self)@, r@) == prompted(old(self)@, key, ctrl),
    {
        let ghost p = self@;
        let list = suggestions(self.input.as_str());
        let n = list.len();
        match key {
            Key::Char(c) => {
                if ctrl && c == 'c' {
                    return PromptOutcome::Quit;
                }
                if !ctrl {
                    self.input.push(c);
                    self.suggest_idx = 0;
                }
            },
            Key::Esc => {
                if self.input.as_str().is_empty() {
                    return PromptOutcome::Quit;
                }
                self.input = String::new();
                self.suggest_idx = 0;
            },
            Key::Up => {
                if n > 0 {
                    let at = if self.suggest_idx < n {
                        self.suggest_idx
                    } else {
                        n - 1
                    };
                    self.suggest_idx = if at > 0 {
                        at - 1
                    } else {
                        n - 1
                    };
                }
            },
            Key::Down => {
                if n > 0 {
                    let at = if self.suggest_idx < n {
                        self.suggest_idx
                    } else {
                        n - 1
                    };
                    self.suggest_idx = (at + 1) % n;
                }
            },
            Key::Tab => {
                if n > 0 {
                    let at = if self.suggest_idx < n {
                        self.suggest_idx
                    } else {
                        n - 1
                    };
                    assert(command_rows(list@)[at as int].0 == list@[at as int].name@);
                    self.input = list[at].name.to_owned().concat(" ");
                    self.suggest_idx = 0;
                }
            },
            Key::Enter => {
                let cmd = trim_start_matches(trim(self.input.as_str()), '/').to_owned();
                self.input = String::new();
                self.suggest_idx = 0;
                if !cmd.as_str().is_empty() {
                    return PromptOutcome::Run(cmd);
                }
            },
            Key::Backspace => {
                let len = char_vec(self.input.as_str()).len();
                if len > 0 {
                    self.input = head(self.input.as_str(), len - 1).to_owned();
                    assert(self@.input =~= p.input.drop_last());
                }
                self.suggest_idx = 0;
            },
            _ => {},
        }
        PromptOutcome::Stay
    }
}

/// The selection goes round: down undoes up, and up undoes down, where one of the
/// suggestions is selected.
pub proof fn law_selection_goes_round(p: Typing)
    requires
        p.suggest_idx < suggested(p.input).len(),
    ensures
        prompted(prompted(p, Key::Up, false).0, Key::Down, false).0 == p,
        prompted(prompted(p, Key::Down, false).0, Key::Up, false).0 == p,
{
    lemma_few_suggestions(p.input);
    let n = suggested(p.input).len() as int;
    let i = p.suggest_idx as int;
    if i + 1 < n {
        vstd::arithmetic::div_mod::lemma_small_mod((i + 1) as nat, n as nat);
    } else {
        vstd::arithmetic::div_mod::lemma_mod_self_0(n);
    }
    if i > 0 {
        vstd::arithmetic::div_mod::lemma_small_mod(i as nat, n as nat);
    } else {
        vstd::arithmetic::div_mod::lemma_mod_self_0(n);
    }
}

/// There are no more suggestions than commands.
proof fn lemma_few_suggestions(input: Seq<char>)
    ensures
        suggested(input).len() <= 5,
{
    admin_table().lemma_filter_len(is_suggested(input));
}

// ---------------------------------------------------------------------------
// Colours
// ---------------------------------------------------------------------------

pub const ACCENT: (u8, u8, u8) = (135, 206, 250);

pub const MUTED: (u8, u8, u8) = (140, 140, 140);

pub const DIM: (u8, u8, u8) = (90, 90, 90);

/// The colours that names can have.
pub open spec fn palette() -> Seq<Color> {
    seq![
        Color::Rgb(217, 119, 87),
        Color::Rgb(120, 180, 220),
        Color::Rgb(180, 200, 120),
        Color::Rgb(200, 140, 200),
        Color::Rgb(220, 180, 120),
        Color::Rgb(140, 200, 180),
    ]
}

/// The colour of a name.
pub open spec fn name_color(name: Seq<char>) -> Color {
    palette()[name_hash(encode_utf8(name)) as int % 6]
}

/// The colour of a name.
pub fn user_color(name: &str) -> (r: Color)
    ensures
        r == name_color(name@),
{
    let colors = [
        Color::Rgb(217, 119, 87),
        Color::Rgb(120, 180, 220),
        Color::Rgb(180, 200, 120),
        Color::Rgb(200, 140, 200),
        Color::Rgb(220, 180, 120),
        Color::Rgb(140, 200, 180),
    ];
    assert(colors@ =~= palette());
    let h = hash_name(name);
    colors[h as usize % 6]
}

// ---------------------------------------------------------------------------
// The panels
// ---------------------------------------------------------------------------

/// The border of a panel.
pub open spec fn panel_rim(title: Seq<char>) -> Rim {
    Rim {
        edge: Edge::Rounded,
        style: fg(rgb(DIM)),
        title: Some(ink(title, fg(rgb(MUTED)))),
        foot: None,
    }
}

/// The border of a panel.
pub fn panel(title: &str) -> (r: Border)
    ensures
        r@ == panel_rim(title@),
{
    Border {
        edge: Edge::Rounded,
        style: fg(rgb(DIM)),
        title: Some(label(title, fg(rgb(MUTED)))),
        foot: None,
    }
}

/// The first line of the header: the name and the address.
pub open spec fn title_line(addr: Seq<char>) -> Seq<Ink> {
    seq![
        ink(" ◆ "@, fg(rgb(ACCENT))),
        ink("Vectorcom"@, bold(rgb(ACCENT))),
        ink("  server"@, fg(rgb(MUTED))),
        ink("    "@, plain()),
        ink(addr, fg(Color::White)),
    ]
}

/// The second line of the header: the counts.
pub open spec fn stats_line(snap: Snapshot) -> Seq<Ink> {
    seq![
        ink("uptime "@, fg(rgb(DIM))),
        ink(uptime_text(snap.uptime as nat), fg(Color::White)),
        ink("   conn "@, fg(rgb(DIM))),
        ink(decimal(snap.total_connections as nat), fg(Color::White)),
        ink("   msg "@, fg(rgb(DIM))),
        ink(decimal(snap.total_messages as nat), fg(Color::White)),
        ink("   online "@, fg(rgb(DIM))),
        ink(decimal(snap.users@.len()), fg(Color::Green)),
    ]
}

/// The header.
pub open spec fn header_piece(snap: Snapshot, addr: Seq<char>, area: Area) -> Piece {
    Piece {
        area,
        figure: Figure::Text {
            lines: seq![title_line(addr), stats_line(snap)],
            wrap: false,
            right: false,
            border: Some(
                Rim { edge: Edge::Below, style: fg(rgb(DIM)), title: None, foot: None },
            ),
        },
    }
}

/// The header.
pub fn draw_header(area: Area, snap: &Snapshot, addr: &str) -> (r: Part)
    ensures
        r@ == header_piece(*snap, addr@, area),
{
    let title = Line {
        spans: vec![
            label(" ◆ ", fg(rgb(ACCENT))),
            label("Vectorcom", bold(rgb(ACCENT))),
            label("  server", fg(rgb(MUTED))),
            label("    ", plain()),
            label(addr, fg(Color::White)),
        ],
    };
    assert(title@ =~= title_line(addr@));
    let stats = Line {
        spans: vec![
            label("uptime ", fg(rgb(DIM))),
            span(fmt_uptime(snap.uptime), fg(Color::White)),
            label("   conn ", fg(rgb(DIM))),
            span(format_decimal(snap.total_connections), fg(Color::White)),
            label("   msg ", fg(rgb(DIM))),
            span(format_decimal(snap.total_messages), fg(Color::White)),
            label("   online ", fg(rgb(DIM))),
            span(format_decimal(snap.users.len() as u64), fg(Color::Green)),
        ],
    };
    assert(stats@ =~= stats_line(*snap));
    let lines = vec![title, stats];
    assert(line_inks(lines@) =~= seq![title_line(addr@), stats_line(*snap)]);
    let border = Border { edge: Edge::Below, style: fg(rgb(DIM)), title: None, foot: None };
    Part { area, widget: Widget::Text { lines, wrap: false, right: false, border: Some(border) } }
}

/// How a room looks in its panel.
pub open spec fn room_look(room: (Seq<char>, usize)) -> Seq<Ink> {
    seq![
        ink(" #"@ + padded(room.0, 16), fg(Color::White)),
        ink(decimal(room.1 as nat) + " online"@, fg(rgb(MUTED))),
    ]
}

/// The panel of rooms.
pub open spec fn rooms_piece(snap: Snapshot, area: Area) -> Piece {
    Piece {
        area,
        figure: Figure::List {
            items: room_pairs(snap.rooms@).map_values(|r: (Seq<char>, usize)| room_look(r)),
            border: Some(panel_rim(" rooms "@)),
        },
    }
}

/// The panel of rooms.
pub fn draw_rooms(area: Area, snap: &Snapshot) -> (r: Part)
    ensures
        r@ == rooms_piece(*snap, area),
{
    let ghost want = room_pairs(snap.rooms@).map_values(|r: (Seq<char>, usize)| room_look(r));
    let mut items: Vec<Line> = Vec::new();
    let mut i: usize = 0;
    while i < snap.rooms.len()
        invariant
            i <= snap.rooms@.len(),
            want == room_pairs(snap.rooms@).map_values(|r: (Seq<char>, usize)| room_look(r)),
            line_inks(items@) == want.take(i as int),
        decreases snap.rooms.len() - i,
    {
        let ghost so_far = line_inks(items@);
        let ghost pair = room_pairs(snap.rooms@)[i as int];
        let line = Line {
            spans: vec![
                span(
                    " #".to_owned().concat(pad_right(snap.rooms[i].0.as_str(), 16).as_str()),
                    fg(Color::White),
                ),
                span(format_decimal(snap.rooms[i].1 as u64).concat(" online"), fg(rgb(MUTED))),
            ],
        };
        assert(line@ =~= room_look(pair));
        items.push(line);
        assert(line_inks(items@) =~= so_far.push(want[i as int]));
        i += 1;
        assert(line_inks(items@) =~= want.take(i as int));
    }
    assert(want.take(i as int) =~= want);
    Part { area, widget: Widget::List { items, border: Some(panel(" rooms ")) } }
}

/// How a user looks in its panel.
pub open spec fn user_look(user: (Seq<char>, Seq<char>)) -> (Ink, Ink) {
    (ink(" "@ + user.0, fg(name_color(user.0))), ink("#"@ + user.1, fg(rgb(MUTED))))
}

/// The panel of users.
pub open spec fn users_piece(snap: Snapshot, area: Area) -> Piece {
    Piece {
        area,
        figure: Figure::Table {
            rows: user_pairs(snap.users@).map_values(|u: (Seq<char>, Seq<char>)| user_look(u)),
            widths: (55, 45),
            border: Some(panel_rim(" users "@)),
        },
    }
}

/// The panel of users.
pub fn draw_users(area: Area, snap: &Snapshot) -> (r: Part)
    ensures
        r@ == users_piece(*snap, area),
{
    let ghost want = user_pairs(snap.users@).map_values(
        |u: (Seq<char>, Seq<char>)| user_look(u),
    );
    let mut rows: Vec<(Span, Span)> = Vec::new();
    let mut i: usize = 0;
    while i < snap.users.len()
        invariant
            i <= snap.users@.len(),
            want == user_pairs(snap.users@).map_values(|u: (Seq<char>, Seq<char>)| user_look(u)),
            row_inks(rows@) == want.take(i as int),
        decreases snap.users.len() - i,
    {
        let ghost so_far = row_inks(rows@);
        let name = snap.users[i].0.as_str();
        let room = snap.users[i].1.as_str();
        rows.push(
            (
                span(" ".to_owned().concat(name), fg(user_color(name))),
                span("#".to_owned().concat(room), fg(rgb(MUTED))),
            ),
        );
        assert(row_inks(rows@) =~= so_far.push(want[i as int]));
        i += 1;
        assert(row_inks(rows@) =~= want.take(i as int));
    }
    assert(want.take(i as int) =~= want);
    Part { area, widget: Widget::Table { rows, widths: (55, 45), border: Some(panel(" users ")) } }
}

/// The number of log lines that fit into a panel of the given height.
pub open spec fn log_room(height: u16) -> nat {
    if height >= 2 {
        (height - 2) as nat
    } else {
        0
    }
}

/// The number of log lines that are shown.
pub open spec fn log_shown(total: nat, height: u16) -> nat {
    if total < log_room(height) {
        total
    } else {
        log_room(height)
    }
}

/// How a log line looks with the time `stamp`.
pub open spec fn log_look(entry: LogEntry, stamp: Seq<char>) -> Seq<Ink> {
    seq![
        ink(" "@ + stamp + " "@, fg(rgb(DIM))),
        ink(entry.text, fg(Color::White)),
    ]
}

/// The panel of the newest log lines, with the times `stamps`.
pub open spec fn log_piece(snap: Snapshot, area: Area, stamps: Seq<Seq<char>>) -> Piece {
    let log = entries(snap.log@);
    let n = log_shown(log.len(), area.height);
    Piece {
        area,
        figure: Figure::Text {
            lines: Seq::new(n, |k: int| log_look(log[log.len() - n + k], stamps[k])),
            wrap: false,
            right: false,
            border: Some(panel_rim(" activity "@)),
        },
    }
}

/// The number of log lines that are shown.
pub fn count_log_shown(total: usize, height: u16) -> (r: usize)
    ensures
        r == log_shown(total as nat, height),
{
    let room: usize = if height >= 2 {
        (height - 2) as usize
    } else {
        0
    };
    if total < room {
        total
    } else {
        room
    }
}

/// The panel of the newest log lines.
pub fn draw_log(area: Area, snap: &Snapshot, stamps: &Vec<String>) -> (r: Part)
    requires
        stamps@.len() == log_shown(snap.log@.len(), area.height),
    ensures
        r@ == log_piece(*snap, area, texts(stamps@)),
{
    let total = snap.log.len();
    let n = count_log_shown(total, area.height);
    let ghost log = entries(snap.log@);
    let ghost want = Seq::new(
        n as nat,
        |k: int| log_look(log[log.len() - n + k], texts(stamps@)[k]),
    );
    let mut lines: Vec<Line> = Vec::new();
    let mut k: usize = 0;
    while k < n
        invariant
            k <= n,
            n <= total,
            total == snap.log@.len(),
            stamps@.len() == n,
            log == entries(snap.log@),
            want == Seq::new(
                n as nat,
                |k: int| log_look(log[log.len() - n + k], texts(stamps@)[k]),
            ),
            line_inks(lines@) == want.take(k as int),
        decreases n - k,
    {
        let ghost so_far = line_inks(lines@);
        let entry = &snap.log[total - n + k];
        let line = Line {
            spans: vec![
                span(" ".to_owned().concat(stamps[k].as_str()).concat(" "), fg(rgb(DIM))),
                label(entry.text.as_str(), fg(Color::White)),
            ],
        };
        assert(line@ =~= log_look(entry@, texts(stamps@)[k as int]));
        lines.push(line);
        assert(line_inks(lines@) =~= so_far.push(want[k as int]));
        k += 1;
        assert(line_inks(lines@) =~= want.take(k as int));
    }
    assert(want.take(k as int) =~= want);
    Part {
        area,
        widget: Widget::Text {
            lines,
            wrap: false,
            right: false,
            border: Some(panel(" activity ")),
        },
    }
}

/// The input line in `area`.
pub open spec fn input_piece(input: Seq<char>, area: Area) -> Piece {
    let body = if input.len() == 0 {
        ink("type / for commands — kick · say · block · unblock · slowmode"@, italic(rgb(DIM)))
    } else {
        ink(input, fg(Color::White))
    };
    Piece {
        area,
        figure: Figure::Text {
            lines: seq![seq![ink(" › "@, bold(rgb(ACCENT))), body]],
            wrap: false,
            right: false,
            border: Some(panel_rim(" admin "@)),
        },
    }
}

/// The input line.
pub fn draw_input(area: Area, input: &str) -> (r: Part)
    ensures
        r@ == input_piece(input@, area),
{
    let body = if input.is_empty() {
        label(
            "type / for commands — kick · say · block · unblock · slowmode",
            italic(rgb(DIM)),
        )
    } else {
        label(input, fg(Color::White))
    };
    let ghost text = body@;
    let line = Line { spans: vec![label(" › ", bold(rgb(ACCENT))), body] };
    assert(line@ =~= seq![ink(" › "@, bold(rgb(ACCENT))), text]);
    let lines = vec![line];
    assert(line_inks(lines@) =~= seq![seq![ink(" › "@, bold(rgb(ACCENT))), text]]);
    Part {
        area,
        widget: Widget::Text { lines, wrap: false, right: false, border: Some(panel(" admin ")) },
    }
}

/// The keys that the dashboard knows.
pub open spec fn footer() -> Seq<Ink> {
    seq![
        ink("  enter "@, fg(rgb(ACCENT))),
        ink("run admin command"@, fg(rgb(MUTED))),
        ink("    esc "@, fg(rgb(ACCENT))),
        ink("clear / quit"@, fg(rgb(MUTED))),
        ink("    ctrl-c "@, fg(rgb(ACCENT))),
        ink("quit"@, fg(rgb(MUTED))),
    ]
}

/// The footer.
pub fn draw_footer(area: Area) -> (r: Part)
    ensures
        r@ == line_piece(area, footer()),
{
    let line = Line {
        spans: vec![
            label("  enter ", fg(rgb(ACCENT))),
            label("run admin command", fg(rgb(MUTED))),
            label("    esc ", fg(rgb(ACCENT))),
            label("clear / quit", fg(rgb(MUTED))),
            label("    ctrl-c ", fg(rgb(ACCENT))),
            label("quit", fg(rgb(MUTED))),
        ],
    };
    assert(line@ =~= footer());
    line_part(area, line)
}

// ---------------------------------------------------------------------------
// The suggestions
// ---------------------------------------------------------------------------

/// The length of the longest text in bytes.
pub open spec fn longest(list: Seq<Seq<char>>) -> nat
    decreases list.len(),
{
    if list.len() == 0 {
        0
    } else if longest(list.drop_last()) < encode_utf8(list.last()).len() {
        encode_utf8(list.last()).len()
    } else {
        longest(list.drop_last())
    }
}

/// The usages of some commands.
pub open spec fn usages(list: Seq<(Seq<char>, Seq<char>, Seq<char>)>) -> Seq<Seq<char>> {
    list.map_values(|c: (Seq<char>, Seq<char>, Seq<char>)| c.1)
}

/// What some commands do.
pub open spec fn helps(list: Seq<(Seq<char>, Seq<char>, Seq<char>)>) -> Seq<Seq<char>> {
    list.map_values(|c: (Seq<char>, Seq<char>, Seq<char>)| c.2)
}

/// How a suggestion looks, its usage filled up to `usage_w` characters.
pub open spec fn suggestion_look(
    c: (Seq<char>, Seq<char>, Seq<char>),
    usage_w: nat,
    is_selected: bool,
) -> Seq<Ink> {
    seq![
        ink(
            " "@ + padded(c.1, usage_w) + "  "@,
            if is_selected {
                bold_on(Color::Black, rgb(ACCENT))
            } else {
                fg(Color::White)
            },
        ),
        ink(
            c.2 + " "@,
            if is_selected {
                on(Color::Black, rgb(ACCENT))
            } else {
                fg(rgb(MUTED))
            },
        ),
    ]
}

/// The smaller of two numbers.
pub open spec fn lesser(a: int, b: int) -> int {
    if a < b {
        a
    } else {
        b
    }
}

/// The height of the list of `n` suggestions above the input line in `area`.
pub open spec fn dropdown_height(n: nat, area: Area) -> int {
    lesser(n as int + 2, area.y as int)
}

/// The width of the list of suggestions above the input line in `area`.
pub open spec fn dropdown_width(
    list: Seq<(Seq<char>, Seq<char>, Seq<char>)>,
    area: Area,
) -> int {
    lesser(
        longest(usages(list)) as int + longest(helps(list)) as int + 7,
        if area.width >= 4 {
            area.width - 4
        } else {
            0
        },
    )
}

/// Whether the list of suggestions is shown above the input line in `area`.
pub open spec fn has_dropdown(input: Seq<char>, area: Area) -> bool {
    suggested(input).len() > 0 && dropdown_height(suggested(input).len(), area) >= 3
}

/// Where the list of suggestions stands.
pub open spec fn dropdown_area(input: Seq<char>, area: Area) -> Area {
    let list = suggested(input);
    let height = dropdown_height(list.len(), area);
    Area {
        x: (area.x + 2) as u16,
        y: (area.y - height) as u16,
        width: dropdown_width(list, area) as u16,
        height: height as u16,
    }
}

/// The border of the list of suggestions.
pub open spec fn dropdown_rim() -> Rim {
    Rim {
        edge: Edge::Rounded,
        style: fg(rgb(DIM)),
        title: Some(ink(" admin commands "@, fg(rgb(MUTED)))),
        foot: Some(ink(" ↑↓ select · tab complete "@, fg(rgb(DIM)))),
    }
}

/// The lines of the list of suggestions.
pub open spec fn dropdown_lines(p: Typing) -> Seq<Seq<Ink>> {
    let list = suggested(p.input);
    Seq::new(
        list.len(),
        |i: int|
            suggestion_look(
                list[i],
                longest(usages(list)),
                i == selected(p.suggest_idx, list.len()),
            ),
    )
}

/// The list of suggestions above the input line in `area`: first the ground is
/// cleared.
pub open spec fn dropdown_pieces(p: Typing, area: Area) -> Seq<Piece> {
    if has_dropdown(p.input, area) {
        let place = dropdown_area(p.input, area);
        seq![
            Piece { area: place, figure: Figure::Blank },
            Piece {
                area: place,
                figure: Figure::Text {
                    lines: dropdown_lines(p),
                    wrap: false,
                    right: false,
                    border: Some(dropdown_rim()),
                },
            },
        ]
    } else {
        Seq::empty()
    }
}

/// The longest usage and the longest help of some commands, in bytes.
fn longest_texts(list: &Vec<AdminCommand>) -> (r: (usize, usize))
    ensures
        r.0 == longest(usages(command_rows(list@))),
        r.1 == longest(helps(command_rows(list@))),
{
    let ghost us = usages(command_rows(list@));
    let ghost hs = helps(command_rows(list@));
    let mut usage_w: usize = 0;
    let mut help_w: usize = 0;
    let mut i: usize = 0;
    assert(us.take(0) =~= Seq::<Seq<char>>::empty());
    assert(hs.take(0) =~= Seq::<Seq<char>>::empty());
    while i < list.len()
        invariant
            i <= list.len(),
            us == usages(command_rows(list@)),
            hs == helps(command_rows(list@)),
            usage_w == longest(us.take(i as int)),
            help_w == longest(hs.take(i as int)),
        decreases list.len() - i,
    {
        let u = list[i].usage.as_bytes().len();
        let h = list[i].help.as_bytes().len();
        assert(us.take(i + 1).drop_last() =~= us.take(i as int));
        assert(hs.take(i + 1).drop_last() =~= hs.take(i as int));
        assert(us.take(i + 1).last() == list@[i as int].usage@);
        assert(hs.take(i + 1).last() == list@[i as int].help@);
        if usage_w < u {
            usage_w = u;
        }
        if help_w < h {
            help_w = h;
        }
        i += 1;
    }
    assert(us.take(i as int) =~= us);
    assert(hs.take(i as int) =~= hs);
    (usage_w, help_w)
}

/// A suggestion, its usage filled up to `usage_w` characters.
fn draw_suggestion(c: &AdminCommand, usage_w: usize, is_selected: bool) -> (r: Line)
    ensures
        r@ == suggestion_look((c.name@, c.usage@, c.help@), usage_w as nat, is_selected),
{
    let (usage_style, help_style) = if is_selected {
        (bold_on(Color::Black, rgb(ACCENT)), on(Color::Black, rgb(ACCENT)))
    } else {
        (fg(Color::White), fg(rgb(MUTED)))
    };
    let r = Line {
        spans: vec![
            span(
                " ".to_owned().concat(pad_right(c.usage, usage_w).as_str()).concat("  "),
                usage_style,
            ),
            span(c.help.to_owned().concat(" "), help_style),
        ],
    };
    assert(r@ =~= suggestion_look((c.name@, c.usage@, c.help@), usage_w as nat, is_selected));
    r
}

/// The list of suggestions above the input line in `area`, while the first word
/// is being typed.
#[verifier::rlimit(40)]
pub fn draw_command_dropdown(area: Area, prompt: &Prompt) -> (r: Vec<Part>)
    requires
        has_dropdown(prompt@.input, area) ==> area.x + 2 <= u16::MAX,
    ensures
        part_pieces(r@) == dropdown_pieces(prompt@, area),
{
    let mut r: Vec<Part> = Vec::new();
    assert(part_pieces(r@) =~= Seq::<Piece>::empty());
    let list = suggestions(prompt.input.as_str());
    let n = list.len();
    let ghost rows = command_rows(list@);
    if n == 0 {
        return r;
    }
    let at = if prompt.suggest_idx < n {
        prompt.suggest_idx
    } else {
        n - 1
    };
    let (usage_w, help_w) = longest_texts(&list);
    let want = n as u16 + 2;
    let height = if want < area.y {
        want
    } else {
        area.y
    };
    if height < 3 {
        return r;
    }
    let most: u16 = if area.width >= 4 {
        area.width - 4
    } else {
        0
    };
    let wide = usage_w as u128 + help_w as u128 + 7;
    let width: u16 = if wide < most as u128 {
        wide as u16
    } else {
        most
    };
    let place = Area { x: area.x + 2, y: area.y - height, width, height };
    assert(place == dropdown_area(prompt@.input, area));
    let mut lines: Vec<Line> = Vec::new();
    let ghost all = dropdown_lines(prompt@);
    let mut i: usize = 0;
    while i < n
        invariant
            i <= n,
            n == list@.len(),
            rows == command_rows(list@),
            rows == suggested(prompt@.input),
            at == selected(prompt@.suggest_idx, n as nat),
            usage_w == longest(usages(rows)),
            all == dropdown_lines(prompt@),
            line_inks(lines@) == all.take(i as int),
        decreases n - i,
    {
        let ghost so_far = line_inks(lines@);
        let line = draw_suggestion(&list[i], usage_w, i == at);
        let ghost look = line@;
        lines.push(line);
        proof {
            assert(rows[i as int] == (list@[i as int].name@, list@[i as int].usage@, list@[i as int].help@));
            assert(look == all[i as int]);
            assert(line_inks(lines@) =~= so_far.push(look));
        }
        i += 1;
        assert(line_inks(lines@) =~= all.take(i as int));
    }
    assert(all.take(i as int) =~= all);
    let border = Border {
        edge: Edge::Rounded,
        style: fg(rgb(DIM)),
        title: Some(label(" admin commands ", fg(rgb(MUTED)))),
        foot: Some(label(" ↑↓ select · tab complete ", fg(rgb(DIM)))),
    };
    r.push(Part { area: place, widget: Widget::Blank });
    r.push(
        Part {
            area: place,
            widget: Widget::Text { lines, wrap: false, right: false, border: Some(border) },
        },
    );
    assert(part_pieces(r@) =~= dropdown_pieces(prompt@, area));
    r
}

// ---------------------------------------------------------------------------
// The whole screen
// ---------------------------------------------------------------------------

/// Whether all places on the screen are in range.
pub open spec fn screen_fits(p: Typing, area: Area) -> bool {
    &&& has_dropdown(p.input, area) ==> area.x + 2 <= u16::MAX
    &&& cursor_fits(area, p.input.len() as usize)
}

/// The dashboard, divided into `chunks`, its middle into `body` and the left of
/// that into `left`. The log lines have the times `stamps`.
pub open spec fn dashboard_scene(
    snap: Snapshot,
    addr: Seq<char>,
    p: Typing,
    chunks: Seq<Area>,
    body: Seq<Area>,
    left: Seq<Area>,
    stamps: Seq<Seq<char>>,
) -> Scene {
    Scene {
        parts: seq![
            header_piece(snap, addr, chunks[0]),
            rooms_piece(snap, left[0]),
            users_piece(snap, left[1]),
            log_piece(snap, body[1], stamps),
            input_piece(p.input, chunks[2]),
            line_piece(chunks[3], footer()),
        ] + dropdown_pieces(p, chunks[2]),
        cursor: cursor_place(chunks[2], p.input.len() as usize),
    }
}

/// The dashboard in areas that are given. Gives nothing where a place on it is
/// out of range.
#[verifier::rlimit(40)]
pub fn paint(
    snap: &Snapshot,
    addr: &str,
    prompt: &Prompt,
    chunks: &Vec<Area>,
    body: &Vec<Area>,
    left: &Vec<Area>,
    stamps: &Vec<String>,
) -> (r: Option<Picture>)
    requires
        chunks@.len() == 4,
        body@.len() == 2,
        left@.len() == 2,
        stamps@.len() == log_shown(snap.log@.len(), body@[1].height),
    ensures
        match r {
            Some(scene) => screen_fits(prompt@, chunks@[2]) && scene@ == dashboard_scene(
                *snap,
                addr@,
                prompt@,
                chunks@,
                body@,
                left@,
                texts(stamps@),
            ),
            None => !screen_fits(prompt@, chunks@[2]),
        },
{
    let area = chunks[2];
    let typed = char_vec(prompt.input.as_str()).len();
    if !can_place_cursor(area, typed) {
        return None;
    }
    if area.x > 65533 {
        let n = suggestions(prompt.input.as_str()).len();
        let room = area.y >= 3;
        assert(n == suggested(prompt@.input).len());
        if n > 0 && room {
            return None;
        }
    }
    let mut parts = vec![
        draw_header(chunks[0], snap, addr),
        draw_rooms(left[0], snap),
        draw_users(left[1], snap),
        draw_log(body[1], snap, stamps),
        draw_input(area, prompt.input.as_str()),
        draw_footer(chunks[3]),
    ];
    let ghost a = part_pieces(parts@);
    let mut more = draw_command_dropdown(area, prompt);
    let ghost b = part_pieces(more@);
    parts.append(&mut more);
    let p = Picture { parts, cursor: place_cursor(area, typed) };
    assert(p@.parts =~= a + b);
    assert(p@ =~= dashboard_scene(
        *snap,
        addr@,
        prompt@,
        chunks@,
        body@,
        left@,
        texts(stamps@),
    ));
    Some(p)
}

/// How the screen is divided: header, body, input line and footer.
pub open spec fn screen_division() -> Seq<Limit> {
    seq![Limit::Length(3), Limit::Min(5), Limit::Length(3), Limit::Length(1)]
}

/// How the screen is divided.
pub fn screen_limits() -> (r: Vec<Limit>)
    ensures
        r@ == screen_division(),
{
    let r = vec![Limit::Length(3), Limit::Min(5), Limit::Length(3), Limit::Length(1)];
    assert(r@ =~= screen_division());
    r
}

/// How the body is divided: rooms and users, and the log.
pub open spec fn body_division() -> Seq<Limit> {
    seq![Limit::Percentage(40), Limit::Percentage(60)]
}

/// How the body is divided.
pub fn body_limits() -> (r: Vec<Limit>)
    ensures
        r@ == body_division(),
{
    let r = vec![Limit::Percentage(40), Limit::Percentage(60)];
    assert(r@ =~= body_division());
    r
}

/// How the left of the body is divided: rooms, and users.
pub open spec fn left_division() -> Seq<Limit> {
    seq![Limit::Percentage(45), Limit::Percentage(55)]
}

/// How the left of the body is divided.
pub fn left_limits() -> (r: Vec<Limit>)
    ensures
        r@ == left_division(),
{
    let r = vec![Limit::Percentage(45), Limit::Percentage(55)];
    assert(r@ =~= left_division());
    r
}

/// Whether `chunks`, `body` and `left` can be what the screen is divided into.
pub open spec fn is_division(
    area: Area,
    chunks: Seq<Area>,
    body: Seq<Area>,
    left: Seq<Area>,
) -> bool {
    &&& is_split(area, true, screen_division(), chunks)
    &&& is_split(chunks[1], false, body_division(), body)
    &&& is_split(body[0], true, left_division(), left)
}

/// The time stamps of the log lines that are shown.
pub open spec fn shown_times(snap: Snapshot, height: u16) -> Seq<i64> {
    let log = entries(snap.log@);
    let n = log_shown(log.len(), height);
    Seq::new(n, |k: int| log[log.len() - n + k].ts)
}

/// The time stamps of the log lines that are shown.
pub fn log_times(snap: &Snapshot, height: u16) -> (r: Vec<i64>)
    ensures
        r@ == shown_times(*snap, height),
        r@.len() == log_shown(snap.log@.len(), height),
{
    let total = snap.log.len();
    let n = count_log_shown(total, height);
    let mut out: Vec<i64> = Vec::new();
    let mut k: usize = 0;
    while k < n
        invariant
            k <= n,
            n <= total,
            total == snap.log@.len(),
            out@.len() == k,
            forall|j: int| 0 <= j < k ==> out@[j] == entries(snap.log@)[total - n + j].ts,
        decreases n - k,
    {
        out.push(snap.log[total - n + k].ts);
        k += 1;
    }
    assert(out@ =~= shown_times(*snap, height));
    out
}

/// Whether `stamps` can be shown for the log lines in `area`.
pub open spec fn are_stamps(snap: Snapshot, area: Area, stamps: Seq<Seq<char>>) -> bool {
    are_clocks_of(shown_times(snap, area.height), stamps)
}

/// Whether every place on the screen is in range, however it is divided.
pub open spec fn screen_in_range(p: Typing, area: Area) -> bool {
    &&& area.x + area.width <= u16::MAX
    &&& area.y + area.height < u16::MAX
    &&& cursor_column(area, p.input.len() as usize) <= u16::MAX
}

/// The dashboard in `area`. Gives nothing where a place on it is out of range.
pub fn draw(snap: &Snapshot, addr: &str, prompt: &Prompt, area: Area) -> (r: Option<Picture>)
    ensures
        screen_in_range(prompt@, area) ==> r is Some,
        exists|chunks: Seq<Area>, body: Seq<Area>, left: Seq<Area>, stamps: Seq<Seq<char>>|
            #![trigger is_division(area, chunks, body, left), are_stamps(*snap, body[1], stamps)]
            {
                &&& is_division(area, chunks, body, left)
                &&& are_stamps(*snap, body[1], stamps)
                &&& match r {
                    Some(scene) => screen_fits(prompt@, chunks[2]) && scene@ == dashboard_scene(
                        *snap,
                        addr@,
                        prompt@,
                        chunks,
                        body,
                        left,
                        stamps,
                    ),
                    None => !screen_fits(prompt@, chunks[2]),
                }
            },
{
    let chunks = split_area(area, true, &screen_limits());
    let body = split_area(chunks[1], false, &body_limits());
    let left = split_area(body[0], true, &left_limits());
    let stamps = clock_stamps(&log_times(snap, body[1].height));
    assert(is_division(area, chunks@, body@, left@));
    assert(are_stamps(*snap, body@[1], texts(stamps@)));
    proof {
        if screen_in_range(prompt@, area) {
            assert(chunks@[2].x == area.x && chunks@[2].width == area.width);
            assert(chunks@[2].y < u16::MAX);
        }
    }
    paint(snap, addr, prompt, &chunks, &body, &left, &stamps)
}

} // verus!
