//! The client's screen.

use vstd::prelude::*;
use vstd::utf8::encode_utf8;

use crate::app::{shown, App, ChatLine, LineKind, Row, RowKind, Screen, HISTORY_LINES};
use crate::clock::{are_minutes_of, fmt_minute, is_minute_of, minute_stamps};
use crate::connection::ConnStatus;
use crate::format::{decimal, format_decimal, pad_right, padded};
use crate::text::{str_eq, texts};
use crate::view::{
    bold, cut_short, display_width, fg, hash_name, ink, is_split, italic, label, line_inks,
    line_part, line_piece, low16, name_hash, on, part_pieces, plain, rgb, span, split_area,
    text_width, to_u16, truncate, Area, Border, Color, Edge, Figure, Ink, Limit, Line, Part,
    Picture, Piece, Rim, Scene, Widget,
};

verus! {

// ---------------------------------------------------------------------------
// Colours
// ---------------------------------------------------------------------------

pub const ACCENT: (u8, u8, u8) = (135, 206, 250);

pub const MUTED: (u8, u8, u8) = (150, 150, 150);

pub const DIM: (u8, u8, u8) = (95, 95, 95);

pub const SOFT: (u8, u8, u8) = (210, 210, 210);

/// The colours that names can have.
pub open spec fn palette() -> Seq<Color> {
    seq![
        Color::Rgb(217, 119, 87),
        Color::Rgb(120, 180, 220),
        Color::Rgb(180, 200, 120),
        Color::Rgb(200, 140, 200),
        Color::Rgb(220, 180, 120),
        Color::Rgb(140, 200, 180),
        Color::Rgb(230, 150, 150),
    ]
}

/// The colour of a name.
pub open spec fn name_color(name: Seq<char>) -> Color {
    palette()[name_hash(encode_utf8(name)) as int % 7]
}

/// The colour of a name.
pub fn user_color(name: &str) -> (r: Color)
    ensures
        r == name_color(name@),
{
    let colors = [
        Color::Rgb(217, 119, 87),
        Color::Rgb(120, 180, 220),
        Color::Rgb(180, 200, 120),
        Color::Rgb(200, 140, 200),
        Color::Rgb(220, 180, 120),
        Color::Rgb(140, 200, 180),
        Color::Rgb(230, 150, 150),
    ];
    assert(colors@ =~= palette());
    let h = hash_name(name);
    colors[h as usize % 7]
}

// ---------------------------------------------------------------------------
// The header
// ---------------------------------------------------------------------------

/// The mark, the name and the colour of a connection's status.
pub open spec fn status_look(c: ConnStatus) -> (Seq<char>, Seq<char>, Color) {
    match c {
        ConnStatus::Online => ("●"@, "online"@, Color::Green),
        ConnStatus::Connecting => ("◐"@, "connecting"@, Color::Yellow),
        ConnStatus::Reconnecting => ("◑"@, "reconnecting"@, Color::Yellow),
        ConnStatus::Closed => ("○"@, "closed"@, Color::Red),
    }
}

/// The number of users shown: the user is there in any case.
pub open spec fn shown_count(a: Screen) -> nat {
    if a.online.len() == 0 {
        1
    } else {
        a.online.len()
    }
}

/// The left side of the header: room, users and name.
pub open spec fn header_left(a: Screen) -> Seq<Ink> {
    seq![
        ink(" ◆ "@, fg(rgb(ACCENT))),
        ink("Vectorcom"@, bold(rgb(ACCENT))),
        ink("  ·  "@, fg(rgb(DIM))),
        ink("#"@ + a.current_room, bold(rgb(SOFT))),
        ink("  ·  "@, fg(rgb(DIM))),
        ink(decimal(shown_count(a)) + " online"@, fg(rgb(MUTED))),
        ink("  ·  "@, fg(rgb(DIM))),
        ink(a.username, fg(name_color(a.username))),
    ]
}

/// The right side of the header: the connection.
pub open spec fn header_right(a: Screen) -> Seq<Ink> {
    let (dot, name, color) = status_look(a.connection);
    seq![
        ink(dot, fg(color)),
        ink(" "@ + name + "  "@, fg(rgb(MUTED))),
        ink(a.server_addr, fg(rgb(DIM))),
        ink(" "@, plain()),
    ]
}

/// A line across an area of the given width.
pub open spec fn rule(width: nat) -> Seq<char> {
    Seq::new(width, |i: int| '─')
}

/// The header in `area`, whose first line is divided into `top`.
pub open spec fn header_pieces(a: Screen, area: Area, top: Seq<Area>) -> Seq<Piece> {
    seq![
        line_piece(top[0], header_left(a)),
        Piece {
            area: top[1],
            figure: Figure::Text {
                lines: seq![header_right(a)],
                wrap: false,
                right: true,
                border: None,
            },
        },
        line_piece(
            Area { x: area.x, y: (area.y + 1) as u16, width: area.width, height: 1 },
            seq![ink(rule(area.width as nat), fg(rgb(DIM)))],
        ),
    ]
}

/// A line across an area of the given width.
fn draw_rule(width: u16) -> (r: String)
    ensures
        r@ == rule(width as nat),
{
    let mut r = String::new();
    let mut i: u16 = 0;
    while i < width
        invariant
            i <= width,
            r@ == rule(i as nat),
        decreases width - i,
    {
        r.push('─');
        i += 1;
        assert(r@ =~= rule(i as nat));
    }
    r
}

/// The header.
#[verifier::rlimit(40)]
pub fn draw_header(area: Area, top: &Vec<Area>, app: &App) -> (r: Vec<Part>)
    requires
        area.y < u16::MAX,
        top@.len() == 2,
    ensures
        part_pieces(r@) == header_pieces(app@, area, top@),
{
    let (dot, status, color) = match app.connection {
        ConnStatus::Online => ("●", "online", Color::Green),
        ConnStatus::Connecting => ("◐", "connecting", Color::Yellow),
        ConnStatus::Reconnecting => ("◑", "reconnecting", Color::Yellow),
        ConnStatus::Closed => ("○", "closed", Color::Red),
    };
    let count: usize = if app.online.len() == 0 {
        1
    } else {
        app.online.len()
    };
    let left = Line {
        spans: vec![
            label(" ◆ ", fg(rgb(ACCENT))),
            label("Vectorcom", bold(rgb(ACCENT))),
            label("  ·  ", fg(rgb(DIM))),
            span("#".to_owned().concat(app.current_room.as_str()), bold(rgb(SOFT))),
            label("  ·  ", fg(rgb(DIM))),
            span(format_decimal(count as u64).concat(" online"), fg(rgb(MUTED))),
            label("  ·  ", fg(rgb(DIM))),
            label(app.username.as_str(), fg(user_color(app.username.as_str()))),
        ],
    };
    assert(left@ =~= header_left(app@));
    let right = Line {
        spans: vec![
            label(dot, fg(color)),
            span(" ".to_owned().concat(status).concat("  "), fg(rgb(MUTED))),
            label(app.server_addr.as_str(), fg(rgb(DIM))),
            label(" ", plain()),
        ],
    };
    assert(right@ =~= header_right(app@));
    let line = Line { spans: vec![span(draw_rule(area.width), fg(rgb(DIM)))] };
    assert(line@ =~= seq![ink(rule(area.width as nat), fg(rgb(DIM)))]);
    let right_lines = vec![right];
    assert(line_inks(right_lines@) =~= seq![header_right(app@)]);
    let r = vec![
        line_part(top[0], left),
        Part {
            area: top[1],
            widget: Widget::Text { lines: right_lines, wrap: false, right: true, border: None },
        },
        line_part(Area { x: area.x, y: area.y + 1, width: area.width, height: 1 }, line),
    ];
    assert(part_pieces(r@) =~= header_pieces(app@, area, top@));
    r
}

// ---------------------------------------------------------------------------
// The history
// ---------------------------------------------------------------------------

/// How a line of the history looks: its time, its mark and its text.
pub open spec fn row_look(row: Row, stamp: Seq<char>, me: Seq<char>) -> Seq<Ink> {
    let (mark, mark_style, text_style) = match row.kind {
        RowKind::Chat { from } => (
            cut_short(from, 10),
            bold(
                if from == me {
                    rgb(ACCENT)
                } else {
                    name_color(from)
                },
            ),
            fg(rgb(SOFT)),
        ),
        RowKind::Pm { from, outgoing } => (
            cut_short(
                (if outgoing {
                    "→ "@
                } else {
                    "← "@
                }) + from,
                10,
            ),
            bold(Color::Magenta),
            fg(Color::Rgb(220, 180, 230)),
        ),
        RowKind::System => ("·"@, fg(rgb(DIM)), italic(rgb(MUTED))),
        RowKind::Error => ("!"@, bold(Color::Red), fg(Color::Rgb(240, 130, 120))),
    };
    seq![
        ink(" "@ + stamp + " "@, fg(rgb(DIM))),
        ink(padded(mark, 10), mark_style),
        ink("  "@, plain()),
        ink(row.text, text_style),
    ]
}

/// A line of the history with the time `stamp`, as the user called `self_name`
/// sees it.
pub fn render_chat_line_at(line: &ChatLine, stamp: &str, self_name: &str) -> (r: Line)
    ensures
        r@ == row_look(line@, stamp@, self_name@),
{
    let (mark, mark_style, text_style) = match &line.kind {
        LineKind::Chat { from } => {
            let color = if str_eq(from.as_str(), self_name) {
                rgb(ACCENT)
            } else {
                user_color(from.as_str())
            };
            (truncate(from.as_str(), 10), bold(color), fg(rgb(SOFT)))
        },
        LineKind::Pm { from, outgoing } => {
            let arrow = if *outgoing {
                "→ "
            } else {
                "← "
            };
            let name = arrow.to_owned().concat(from.as_str());
            (
                truncate(name.as_str(), 10),
                bold(Color::Magenta),
                fg(Color::Rgb(220, 180, 230)),
            )
        },
        LineKind::System => ("·".to_owned(), fg(rgb(DIM)), italic(rgb(MUTED))),
        LineKind::Error => ("!".to_owned(), bold(Color::Red), fg(Color::Rgb(240, 130, 120))),
    };
    let r = Line {
        spans: vec![
            span(" ".to_owned().concat(stamp).concat(" "), fg(rgb(DIM))),
            span(pad_right(mark.as_str(), 10), mark_style),
            label("  ", plain()),
            label(line.text.as_str(), text_style),
        ],
    };
    assert(r@ =~= row_look(line@, stamp@, self_name@));
    r
}

/// A line of the history, as the user called `self_name` sees it. Its time is
/// the local one.
pub fn render_chat_line(line: &ChatLine, self_name: &str) -> (r: Line)
    ensures
        exists|stamp: Seq<char>|
            is_minute_of(line@.ts, stamp) && r@ == #[trigger] row_look(line@, stamp, self_name@),
{
    let stamp = fmt_minute(line.ts);
    render_chat_line_at(line, stamp.as_str(), self_name)
}

/// The first line that is shown, and the one after the last, of `total` lines
/// where `visible` fit and the user has scrolled up by `scroll`.
pub open spec fn window(total: nat, visible: nat, scroll: nat) -> (nat, nat) {
    let last_start = if total > visible {
        (total - visible) as nat
    } else {
        0
    };
    let offset = if scroll < last_start {
        scroll
    } else {
        last_start
    };
    let start = (last_start - offset) as nat;
    (
        start,
        if start + visible < total {
            start + visible
        } else {
            total
        },
    )
}

/// The lines that are shown.
pub fn history_window(total: usize, visible: u16, scroll: usize) -> (r: (usize, usize))
    ensures
        (r.0 as nat, r.1 as nat) == window(total as nat, visible as nat, scroll as nat),
        r.0 <= r.1 <= total,
{
    let visible = visible as usize;
    let last_start = if total > visible {
        total - visible
    } else {
        0
    };
    let offset = if scroll < last_start {
        scroll
    } else {
        last_start
    };
    let start = last_start - offset;
    let end = if visible < total - start {
        start + visible
    } else {
        total
    };
    (start, end)
}

/// The lines of the history that are shown, with the times `stamps`.
pub open spec fn shown_rows(a: Screen, visible: nat, stamps: Seq<Seq<char>>) -> Seq<Seq<Ink>> {
    let (start, end) = window(a.history.len(), visible, a.scroll_offset as nat);
    Seq::new(
        (end - start) as nat,
        |k: int| row_look(a.history[start + k], stamps[k], a.username),
    )
}

/// The number of lines of the history that are shown.
pub open spec fn shown_len(a: Screen, visible: nat) -> nat {
    let (start, end) = window(a.history.len(), visible, a.scroll_offset as nat);
    (end - start) as nat
}

/// What tells the user how far they have scrolled up.
pub open spec fn badge_text(scroll: nat) -> Seq<char> {
    " ↑ "@ + decimal(scroll) + " "@
}

/// Whether the badge, `badge_w` columns wide, is shown in an area of the given
/// width.
pub open spec fn has_badge(a: Screen, area: Area, badge_w: usize) -> bool {
    a.scroll_offset > 0 && area.width > low16(badge_w as int) + 2
}

/// Whether the place of the badge is in range.
pub open spec fn badge_fits(a: Screen, area: Area, badge_w: usize) -> bool {
    a.scroll_offset > 0 ==> low16(badge_w as int) + 2 <= u16::MAX && (area.width > low16(
        badge_w as int,
    ) + 2 ==> area.x + area.width <= u16::MAX)
}

/// The history in `area`: the lines that are shown, then the badge, which is
/// `badge_w` columns wide.
pub open spec fn history_pieces(a: Screen, area: Area, stamps: Seq<Seq<char>>, badge_w: usize) -> Seq<
    Piece,
> {
    let text = Piece {
        area,
        figure: Figure::Text {
            lines: shown_rows(a, area.height as nat, stamps),
            wrap: true,
            right: false,
            border: None,
        },
    };
    if has_badge(a, area, badge_w) {
        let bw = low16(badge_w as int);
        seq![
            text,
            line_piece(
                Area {
                    x: (area.x + area.width - bw - 1) as u16,
                    y: area.y,
                    width: bw as u16,
                    height: 1,
                },
                seq![ink(badge_text(a.scroll_offset as nat), on(Color::Black, rgb(ACCENT)))],
            ),
        ]
    } else {
        seq![text]
    }
}

/// What tells the user how far they have scrolled up.
pub fn scroll_badge(app: &App) -> (r: String)
    ensures
        r@ == badge_text(app@.scroll_offset as nat),
{
    " ↑ ".to_owned().concat(format_decimal(app.scroll_offset as u64).as_str()).concat(" ")
}

/// The history.
pub fn draw_history(area: Area, app: &App, stamps: &Vec<String>, badge_w: usize) -> (r: Vec<Part>)
    requires
        stamps@.len() == shown_len(app@, area.height as nat),
        badge_fits(app@, area, badge_w),
    ensures
        part_pieces(r@) == history_pieces(app@, area, texts(stamps@), badge_w),
{
    let (start, end) = history_window(app.history.len(), area.height, app.scroll_offset);
    let mut lines: Vec<Line> = Vec::new();
    let mut k: usize = 0;
    let n = end - start;
    while k < n
        invariant
            k <= n,
            n == end - start,
            end <= app.history@.len(),
            stamps@.len() == n,
            line_inks(lines@) == Seq::new(
                k as nat,
                |j: int| row_look(app@.history[start + j], texts(stamps@)[j], app@.username),
            ),
        decreases n - k,
    {
        let ghost so_far = line_inks(lines@);
        let line = render_chat_line_at(
            &app.history[start + k],
            stamps[k].as_str(),
            app.username.as_str(),
        );
        lines.push(line);
        assert(line_inks(lines@) =~= so_far.push(
            row_look(app@.history[start + k], texts(stamps@)[k as int], app@.username),
        ));
        k += 1;
        assert(line_inks(lines@) =~= Seq::new(
            k as nat,
            |j: int| row_look(app@.history[start + j], texts(stamps@)[j], app@.username),
        ));
    }
    assert(line_inks(lines@) =~= shown_rows(app@, area.height as nat, texts(stamps@)));
    let mut r = vec![
        Part { area, widget: Widget::Text { lines, wrap: true, right: false, border: None } },
    ];
    if app.scroll_offset > 0 {
        let bw = to_u16(badge_w);
        if area.width > bw + 2 {
            let badge = Line {
                spans: vec![span(scroll_badge(app), on(Color::Black, rgb(ACCENT)))],
            };
            assert(badge@ =~= seq![
                ink(badge_text(app@.scroll_offset as nat), on(Color::Black, rgb(ACCENT))),
            ]);
            let place = Area {
                x: area.x + area.width - bw - 1,
                y: area.y,
                width: bw,
                height: 1,
            };
            r.push(line_part(place, badge));
        }
    }
    assert(part_pieces(r@) =~= history_pieces(app@, area, texts(stamps@), badge_w));
    r
}

// ---------------------------------------------------------------------------
// The input line and the hints
// ---------------------------------------------------------------------------

/// A border with round corners and no title.
pub open spec fn box_rim() -> Rim {
    Rim { edge: Edge::Rounded, style: fg(rgb(DIM)), title: None, foot: None }
}

/// The input line in `area`.
pub open spec fn input_piece(a: Screen, area: Area) -> Piece {
    let text = a.input.before + a.input.after;
    let body = if text.len() == 0 {
        ink("Type a message or /help for commands"@, italic(rgb(DIM)))
    } else {
        ink(text, fg(Color::White))
    };
    Piece {
        area,
        figure: Figure::Text {
            lines: seq![seq![ink(" › "@, bold(rgb(ACCENT))), body]],
            wrap: false,
            right: false,
            border: Some(box_rim()),
        },
    }
}

/// The input line.
pub fn draw_input(area: Area, app: &App) -> (r: Part)
    requires
        app.wf(),
    ensures
        r@ == input_piece(app@, area),
{
    proof {
        app.input.lemma_text();
    }
    let body = if app.input.buf.as_str().is_empty() {
        label("Type a message or /help for commands", italic(rgb(DIM)))
    } else {
        label(app.input.buf.as_str(), fg(Color::White))
    };
    let ghost text = body@;
    let line = Line { spans: vec![label(" › ", bold(rgb(ACCENT))), body] };
    assert(line@ =~= seq![ink(" › "@, bold(rgb(ACCENT))), text]);
    let lines = vec![line];
    assert(line_inks(lines@) =~= seq![seq![ink(" › "@, bold(rgb(ACCENT))), text]]);
    let border = Border { edge: Edge::Rounded, style: fg(rgb(DIM)), title: None, foot: None };
    Part { area, widget: Widget::Text { lines, wrap: false, right: false, border: Some(border) } }
}

/// The keys that the client knows.
pub open spec fn hints() -> Seq<Ink> {
    seq![
        ink("  enter "@, fg(rgb(ACCENT))),
        ink("send"@, fg(rgb(MUTED))),
        ink("   / "@, fg(rgb(ACCENT))),
        ink("commands"@, fg(rgb(MUTED))),
        ink("   ↑↓ "@, fg(rgb(ACCENT))),
        ink("scroll"@, fg(rgb(MUTED))),
        ink("   ctrl-l "@, fg(rgb(ACCENT))),
        ink("clear"@, fg(rgb(MUTED))),
        ink("   esc "@, fg(rgb(ACCENT))),
        ink("quit"@, fg(rgb(MUTED))),
    ]
}

/// The hints.
pub fn draw_hints(area: Area) -> (r: Part)
    ensures
        r@ == line_piece(area, hints()),
{
    let line = Line {
        spans: vec![
            label("  enter ", fg(rgb(ACCENT))),
            label("send", fg(rgb(MUTED))),
            label("   / ", fg(rgb(ACCENT))),
            label("commands", fg(rgb(MUTED))),
            label("   ↑↓ ", fg(rgb(ACCENT))),
            label("scroll", fg(rgb(MUTED))),
            label("   ctrl-l ", fg(rgb(ACCENT))),
            label("clear", fg(rgb(MUTED))),
            label("   esc ", fg(rgb(ACCENT))),
            label("quit", fg(rgb(MUTED))),
        ],
    };
    assert(line@ =~= hints());
    line_part(area, line)
}

// ---------------------------------------------------------------------------
// The whole screen
// ---------------------------------------------------------------------------

/// The first column after the text in an input box: two are left free.
pub open spec fn input_end(area: Area) -> int {
    area.x + (if area.width >= 2 {
        area.width - 2
    } else {
        0
    })
}

/// The column of the cursor in an input box after a text `typed_w` columns wide.
pub open spec fn cursor_column(area: Area, typed_w: usize) -> int {
    area.x + 4 + low16(typed_w as int)
}

/// Where the cursor stands in an input box, if it is shown.
pub open spec fn cursor_place(area: Area, typed_w: usize) -> Option<(u16, u16)> {
    if cursor_column(area, typed_w) < input_end(area) {
        Some((cursor_column(area, typed_w) as u16, (area.y + 1) as u16))
    } else {
        None
    }
}

/// Whether the place of the cursor is in range.
pub open spec fn cursor_fits(area: Area, typed_w: usize) -> bool {
    &&& cursor_column(area, typed_w) <= u16::MAX
    &&& input_end(area) <= u16::MAX
    &&& cursor_column(area, typed_w) < input_end(area) ==> area.y < u16::MAX
}

/// Where the cursor stands in an input box, if it is shown.
pub fn place_cursor(area: Area, typed_w: usize) -> (r: Option<(u16, u16)>)
    requires
        cursor_fits(area, typed_w),
    ensures
        r == cursor_place(area, typed_w),
{
    let x = area.x + 4 + to_u16(typed_w);
    let inset: u16 = if area.width >= 2 {
        area.width - 2
    } else {
        0
    };
    if x < area.x + inset {
        Some((x, area.y + 1))
    } else {
        None
    }
}

/// Whether the place of the cursor is in range.
pub fn can_place_cursor(area: Area, typed_w: usize) -> (r: bool)
    ensures
        r == cursor_fits(area, typed_w),
{
    let inset: u16 = if area.width >= 2 {
        area.width - 2
    } else {
        0
    };
    let x = area.x as u32 + 4 + to_u16(typed_w) as u32;
    let end = area.x as u32 + inset as u32;
    x <= 65535 && end <= 65535 && (x >= end || area.y < 65535)
}

/// Whether all places on the screen are in range.
pub open spec fn screen_fits(a: Screen, chunks: Seq<Area>, badge_w: usize, typed_w: usize) -> bool {
    &&& chunks[0].y < u16::MAX
    &&& badge_fits(a, chunks[1], badge_w)
    &&& chunks[2].y < u16::MAX
    &&& cursor_fits(chunks[2], typed_w)
}

/// The screen, divided into `chunks`, its first line into `top`. The lines of
/// the history have the times `stamps`; the badge is `badge_w` columns wide and
/// the text before the cursor `typed_w`.
pub open spec fn client_scene(
    a: Screen,
    chunks: Seq<Area>,
    top: Seq<Area>,
    stamps: Seq<Seq<char>>,
    badge_w: usize,
    typed_w: usize,
) -> Scene {
    Scene {
        parts: header_pieces(a, chunks[0], top) + history_pieces(a, chunks[1], stamps, badge_w)
            + seq![input_piece(a, chunks[2]), line_piece(chunks[3], hints())],
        cursor: cursor_place(chunks[2], typed_w),
    }
}

/// The screen in areas that are given. Gives nothing where a place on it is out
/// of range.
#[verifier::rlimit(40)]
pub fn paint(
    app: &App,
    chunks: &Vec<Area>,
    top: &Vec<Area>,
    stamps: &Vec<String>,
    badge_w: usize,
    typed_w: usize,
) -> (r: Option<Picture>)
    requires
        app.wf(),
        chunks@.len() == 4,
        top@.len() == 2,
        stamps@.len() == shown_len(app@, chunks@[1].height as nat),
    ensures
        match r {
            Some(p) => screen_fits(app@, chunks@, badge_w, typed_w) && p@ == client_scene(
                app@,
                chunks@,
                top@,
                texts(stamps@),
                badge_w,
                typed_w,
            ),
            None => !screen_fits(app@, chunks@, badge_w, typed_w),
        },
{
    if chunks[0].y == u16::MAX || chunks[2].y == u16::MAX || !can_place_cursor(
        chunks[2],
        typed_w,
    ) {
        return None;
    }
    if app.scroll_offset > 0 {
        let bw = to_u16(badge_w) as u32;
        let area = chunks[1];
        if bw + 2 > 65535 {
            return None;
        }
        if area.width as u32 > bw + 2 && area.x as u32 + area.width as u32 > 65535 {
            return None;
        }
    }
    let mut parts = draw_header(chunks[0], top, app);
    let ghost a = parts@;
    let mut history = draw_history(chunks[1], app, stamps, badge_w);
    let ghost b = history@;
    parts.append(&mut history);
    parts.push(draw_input(chunks[2], app));
    parts.push(draw_hints(chunks[3]));
    let p = Picture { parts, cursor: place_cursor(chunks[2], typed_w) };
    assert(p@.parts =~= part_pieces(a) + part_pieces(b) + seq![
        input_piece(app@, chunks@[2]),
        line_piece(chunks@[3], hints()),
    ]);
    Some(p)
}

/// How the screen is divided: header, history, input line and hints.
pub open spec fn screen_division() -> Seq<Limit> {
    seq![Limit::Length(2), Limit::Min(3), Limit::Length(3), Limit::Length(1)]
}

/// How the screen is divided.
pub fn screen_limits() -> (r: Vec<Limit>)
    ensures
        r@ == screen_division(),
{
    let r = vec![Limit::Length(2), Limit::Min(3), Limit::Length(3), Limit::Length(1)];
    assert(r@ =~= screen_division());
    r
}

/// How the first line of the header is divided.
pub open spec fn header_division() -> Seq<Limit> {
    seq![Limit::Percentage(60), Limit::Percentage(40)]
}

/// How the first line of the header is divided.
pub fn header_limits() -> (r: Vec<Limit>)
    ensures
        r@ == header_division(),
{
    let r = vec![Limit::Percentage(60), Limit::Percentage(40)];
    assert(r@ =~= header_division());
    r
}

/// Whether `chunks` and `top` can be what the screen is divided into.
pub open spec fn is_division(area: Area, chunks: Seq<Area>, top: Seq<Area>) -> bool {
    &&& is_split(area, true, screen_division(), chunks)
    &&& is_split(Area { height: 1, ..chunks[0] }, false, header_division(), top)
}

/// The time stamps of the lines of the history that are shown.
pub open spec fn shown_times(a: Screen, visible: nat) -> Seq<i64> {
    let (start, end) = window(a.history.len(), visible, a.scroll_offset as nat);
    Seq::new((end - start) as nat, |k: int| a.history[start + k].ts)
}

/// The time stamps of the lines of the history that are shown.
pub fn history_times(app: &App, visible: u16) -> (r: Vec<i64>)
    ensures
        r@ == shown_times(app@, visible as nat),
        r@.len() == shown_len(app@, visible as nat),
{
    let (start, end) = history_window(app.history.len(), visible, app.scroll_offset);
    let mut out: Vec<i64> = Vec::new();
    let mut i: usize = start;
    while i < end
        invariant
            start <= i <= end,
            end <= app.history@.len(),
            out@.len() == i - start,
            forall|k: int| 0 <= k < out@.len() ==> out@[k] == app@.history[start + k].ts,
        decreases end - i,
    {
        out.push(app.history[i].ts);
        i += 1;
    }
    assert(out@ =~= shown_times(app@, visible as nat));
    out
}

/// Whether `stamps` can be shown for the lines of the history in `area`.
pub open spec fn are_stamps(a: Screen, area: Area, stamps: Seq<Seq<char>>) -> bool {
    are_minutes_of(shown_times(a, area.height as nat), stamps)
}

/// Whether every place on the screen is in range, however it is divided.
pub open spec fn screen_in_range(a: Screen, area: Area, badge_w: usize, typed_w: usize) -> bool {
    &&& area.x + area.width <= u16::MAX
    &&& area.y + area.height < u16::MAX
    &&& cursor_column(area, typed_w) <= u16::MAX
    &&& a.scroll_offset > 0 ==> low16(badge_w as int) + 2 <= u16::MAX
}

/// The client's screen in `area`. Gives nothing where a place on it is out of
/// range.
pub fn draw(app: &App, area: Area) -> (r: Option<Picture>)
    requires
        app.wf(),
    ensures
        screen_in_range(
            app@,
            area,
            display_width(badge_text(app@.scroll_offset as nat)),
            display_width(app@.input.before),
        ) ==> r is Some,
        exists|chunks: Seq<Area>, top: Seq<Area>, stamps: Seq<Seq<char>>|
            #![trigger is_division(area, chunks, top), are_stamps(app@, chunks[1], stamps)]
            {
                let badge_w = display_width(badge_text(app@.scroll_offset as nat));
                let typed_w = display_width(app@.input.before);
                &&& is_division(area, chunks, top)
                &&& are_stamps(app@, chunks[1], stamps)
                &&& match r {
                    Some(p) => screen_fits(app@, chunks, badge_w, typed_w) && p@ == client_scene(
                        app@,
                        chunks,
                        top,
                        stamps,
                        badge_w,
                        typed_w,
                    ),
                    None => !screen_fits(app@, chunks, badge_w, typed_w),
                }
            },
{
    let chunks = split_area(area, true, &screen_limits());
    let head = chunks[0];
    let line = Area { x: head.x, y: head.y, width: head.width, height: 1 };
    let top = split_area(line, false, &header_limits());
    let stamps = minute_stamps(&history_times(app, chunks[1].height));
    let badge_w = text_width(scroll_badge(app).as_str());
    let typed_w = text_width(app.input.text_before_cursor());
    assert(is_division(area, chunks@, top@));
    assert(are_stamps(app@, chunks@[1], texts(stamps@)));
    proof {
        if screen_in_range(app@, area, badge_w, typed_w) {
            assert(chunks@[0].y < u16::MAX && chunks@[2].y < u16::MAX);
            assert(chunks@[1].x == area.x && chunks@[2].x == area.x);
        }
    }
    paint(app, &chunks, &top, &stamps, badge_w, typed_w)
}

// ---------------------------------------------------------------------------
// Laws
// ---------------------------------------------------------------------------

/// The lines that are shown are among those that there are, and they fill the
/// screen as far as they can.
pub proof fn law_window_is_full(total: nat, visible: nat, scroll: nat)
    ensures
        ({
            let (start, end) = window(total, visible, scroll);
            &&& start <= end <= total
            &&& end - start == (if total < visible {
                total
            } else {
                visible
            })
        }),
{
}

/// Without scrolling the newest lines are shown; scrolled all the way up the
/// oldest are.
pub proof fn law_window_ends(total: nat, visible: nat, scroll: nat)
    ensures
        window(total, visible, 0).1 == total,
        scroll >= total ==> window(total, visible, scroll).0 == 0,
{
}

/// While the user has scrolled up, a line that comes does not move the lines
/// they read, as long as the oldest is not dropped for it.
pub proof fn law_reading_is_not_disturbed(
    a: Screen,
    row: Row,
    visible: nat,
    stamps: Seq<Seq<char>>,
)
    requires
        0 < a.scroll_offset,
        a.scroll_offset + visible <= a.history.len() < HISTORY_LINES,
    ensures
        shown_rows(shown(a, row), visible, stamps) == shown_rows(a, visible, stamps),
{
    let b = shown(a, row);
    assert(window(b.history.len(), visible, b.scroll_offset as nat) == window(
        a.history.len(),
        visible,
        a.scroll_offset as nat,
    ));
    assert(shown_rows(b, visible, stamps) =~= shown_rows(a, visible, stamps));
}

} // verus!
