//! Laws on what the two screens show: the client's and the server's dashboard.

use vstd::prelude::*;
use vstd::utf8::encode_utf8;

use crate::app::{Row, RowKind, Screen};
use crate::client_view::{
    client_scene, cursor_place, header_left, header_pieces, header_right, hints, history_pieces,
    row_look, shown_rows, shown_times,
};
use crate::connection::ConnStatus;
use crate::dashboard::{
    admin_table, dashboard_scene, dropdown_lines, dropdown_pieces, footer, header_piece, helps,
    log_look, log_piece, longest, prompted, room_look, rooms_piece, stats_line, suggested,
    suggestion_look, title_line, typed_word, usages, user_look, users_piece, PromptEnd, Typing,
};
use crate::format::{decimal, padded};
use crate::hub::LogEntry;
use crate::keys::Key;
use crate::state::{entries, room_pairs, user_pairs, Snapshot};
use crate::text::begins_with;
use crate::view::{
    bold, bold_on, cut_short, fg, is_layout, italic, name_hash, on, plain, rgb, Area, Color, Edge,
    Figure, Ink, Limit, Piece, Style,
};

verus! {

/// What a line of texts says.
pub open spec fn said(line: Seq<Ink>) -> Seq<char>
    decreases line.len(),
{
    if line.len() == 0 {
        Seq::empty()
    } else {
        said(line.drop_last()) + line.last().text
    }
}

proof fn lemma_said2(a: Ink, b: Ink)
    ensures
        said(seq![a, b]) == a.text + b.text,
{
    reveal_with_fuel(said, 3);
    assert(seq![a, b].drop_last() =~= seq![a]);
    assert(seq![a].drop_last() =~= Seq::<Ink>::empty());
    assert(said(seq![a]) =~= a.text);
}

proof fn lemma_said_more(line: Seq<Ink>, a: Ink)
    ensures
        said(line.push(a)) == said(line) + a.text,
{
    assert(line.push(a).drop_last() =~= line);
}

// ---------------------------------------------------------------------------
// Names
// ---------------------------------------------------------------------------

/// A text is shown whole where there is room for it; a longer one is shown as
/// far as it fits, with an ellipsis in the last place.
pub proof fn law_long_texts_are_cut(s: Seq<char>, max: nat)
    ensures
        s.len() <= max ==> cut_short(s, max) == s,
        s.len() > max > 0 ==> cut_short(s, max).len() == max && cut_short(s, max).last() == '…'
            && cut_short(s, max).drop_last() == s.take(max - 1),
        s.len() > max && max == 0 ==> cut_short(s, max) == "…"@,
{
    reveal_strlit("…");
    if s.len() > max > 0 {
        assert(cut_short(s, max).drop_last() =~= s.take(max - 1));
    }
}

/// A name always has the same colour, one of seven on the client and of the
/// first six of these on the dashboard, by a hash that takes in every byte.
pub proof fn law_names_have_their_colours(name: Seq<char>, bytes: Seq<u8>, b: u8)
    ensures
        ({
            let colours = seq![
                Color::Rgb(217, 119, 87),
                Color::Rgb(120, 180, 220),
                Color::Rgb(180, 200, 120),
                Color::Rgb(200, 140, 200),
                Color::Rgb(220, 180, 120),
                Color::Rgb(140, 200, 180),
                Color::Rgb(230, 150, 150),
            ];
            let hash = name_hash(encode_utf8(name)) as int;
            &&& crate::client_view::name_color(name) == colours[hash % 7]
            &&& crate::dashboard::name_color(name) == colours[hash % 6]
        }),
        name_hash(Seq::empty()) == 5381,
        name_hash(bytes.push(b)) == (33 * name_hash(bytes) + b) % 0x1_0000_0000,
{
    assert(bytes.push(b).drop_last() =~= bytes);
}

// ---------------------------------------------------------------------------
// The client's screen
// ---------------------------------------------------------------------------

/// The header says in which room the user is, how many are online, at least the
/// user, and who the user is; on its right it says how the connection stands and
/// to which server.
#[verifier::rlimit(40)]
pub proof fn law_the_header_says_where_one_is(a: Screen)
    ensures
        ({
            let count = if a.online.len() == 0 {
                1
            } else {
                a.online.len()
            };
            said(header_left(a)) == " ◆ "@ + "Vectorcom"@ + "  ·  "@ + ("#"@ + a.current_room)
                + "  ·  "@ + (decimal(count) + " online"@) + "  ·  "@ + a.username
        }),
        a.connection == ConnStatus::Online ==> said(header_right(a)) == "●"@ + (" "@ + "online"@
            + "  "@) + a.server_addr + " "@ && header_right(a)[0].style.fg == Some(Color::Green),
        a.connection == ConnStatus::Connecting ==> said(header_right(a)) == "◐"@ + (" "@
            + "connecting"@ + "  "@) + a.server_addr + " "@ && header_right(a)[0].style.fg == Some(
            Color::Yellow,
        ),
        a.connection == ConnStatus::Reconnecting ==> said(header_right(a)) == "◑"@ + (" "@
            + "reconnecting"@ + "  "@) + a.server_addr + " "@ && header_right(a)[0].style.fg
            == Some(Color::Yellow),
        a.connection == ConnStatus::Closed ==> said(header_right(a)) == "○"@ + (" "@ + "closed"@
            + "  "@) + a.server_addr + " "@ && header_right(a)[0].style.fg == Some(Color::Red),
{
    let l = header_left(a);
    lemma_said2(l[0], l[1]);
    let l2 = seq![l[0], l[1]];
    lemma_said_more(l2, l[2]);
    let l3 = l2.push(l[2]);
    lemma_said_more(l3, l[3]);
    let l4 = l3.push(l[3]);
    lemma_said_more(l4, l[4]);
    let l5 = l4.push(l[4]);
    lemma_said_more(l5, l[5]);
    let l6 = l5.push(l[5]);
    lemma_said_more(l6, l[6]);
    let l7 = l6.push(l[6]);
    lemma_said_more(l7, l[7]);
    assert(l7.push(l[7]) =~= l);
    let r = header_right(a);
    lemma_said2(r[0], r[1]);
    let r2 = seq![r[0], r[1]];
    lemma_said_more(r2, r[2]);
    let r3 = r2.push(r[2]);
    lemma_said_more(r3, r[3]);
    assert(r3.push(r[3]) =~= r);
}

/// A line of the history says when it came, who it is from or what it is, and
/// its whole text. The name has ten columns; a private message shows which way
/// it went.
#[verifier::rlimit(40)]
pub proof fn law_lines_say_it_all(row: Row, stamp: Seq<char>, me: Seq<char>)
    ensures
        ({
            let line = row_look(row, stamp, me);
            let mark = match row.kind {
                RowKind::Chat { from } => cut_short(from, 10),
                RowKind::Pm { from, outgoing: true } => cut_short("→ "@ + from, 10),
                RowKind::Pm { from, outgoing: false } => cut_short("← "@ + from, 10),
                RowKind::System => "·"@,
                RowKind::Error => "!"@,
            };
            &&& said(line) == (" "@ + stamp + " "@) + padded(mark, 10) + "  "@ + row.text
            &&& line.len() == 4
            &&& line[3].text == row.text
            &&& row.kind matches RowKind::Chat { from } ==> line[1].style.fg == Some(
                if from == me {
                    Color::Rgb(135, 206, 250)
                } else {
                    crate::client_view::name_color(from)
                },
            ) && line[1].style.bold
            &&& row.kind is Pm ==> line[1].style.fg == Some(Color::Magenta) && line[1].style.bold
                && line[3].style.fg == Some(Color::Rgb(220, 180, 230))
            &&& row.kind is System ==> line[3].style.italic && line[3].style.fg == Some(
                Color::Rgb(150, 150, 150),
            )
            &&& row.kind is Error ==> line[1].style.fg == Some(Color::Red) && line[3].style.fg
                == Some(Color::Rgb(240, 130, 120))
        }),
{
    let r = row_look(row, stamp, me);
    lemma_said2(r[0], r[1]);
    let r2 = seq![r[0], r[1]];
    lemma_said_more(r2, r[2]);
    let r3 = r2.push(r[2]);
    lemma_said_more(r3, r[3]);
    assert(r3.push(r[3]) =~= r);
}

/// The lines that are shown follow one another in the history without a gap.
/// They are the newest where the user has not scrolled, and as many lines older
/// as the user has scrolled up, up to the oldest. As many are shown as fit.
pub proof fn law_the_history_is_shown(a: Screen, visible: nat, stamps: Seq<Seq<char>>, k: int)
    ensures
        ({
            let total = a.history.len() as int;
            let n = if total < visible {
                total
            } else {
                visible as int
            };
            let up = if a.scroll_offset < total - n {
                a.scroll_offset as int
            } else {
                total - n
            };
            let lines = shown_rows(a, visible, stamps);
            &&& lines.len() == n
            &&& shown_times(a, visible).len() == n
            &&& 0 <= k < n ==> lines[k] == row_look(
                a.history[total - up - n + k],
                stamps[k],
                a.username,
            ) && shown_times(a, visible)[k] == a.history[total - up - n + k].ts
        }),
{
}

/// The history fills its area, and long lines go on below. While the user has
/// scrolled up and there is room for it, a badge in the upper right corner says
/// by how many lines.
pub proof fn law_the_badge_counts_the_lines(
    a: Screen,
    area: Area,
    stamps: Seq<Seq<char>>,
    badge_w: usize,
)
    requires
        badge_w < 65536,
        area.x + area.width <= u16::MAX,
    ensures
        ({
            let parts = history_pieces(a, area, stamps, badge_w);
            let badge = a.scroll_offset > 0 && area.width > badge_w + 2;
            &&& parts.len() == if badge {
                2int
            } else {
                1int
            }
            &&& parts[0] == Piece {
                area,
                figure: Figure::Text {
                    lines: shown_rows(a, area.height as nat, stamps),
                    wrap: true,
                    right: false,
                    border: None,
                },
            }
            &&& badge ==> {
                &&& parts[1].area.y == area.y
                &&& parts[1].area.height == 1
                &&& parts[1].area.width == badge_w
                &&& parts[1].area.x + parts[1].area.width + 1 == area.x + area.width
                &&& (parts[1].figure matches Figure::Text { lines, wrap, right, border }
                    && lines.len() == 1 && lines[0].len() == 1 && lines[0][0].text == " ↑ "@
                    + decimal(a.scroll_offset as nat) + " "@)
            }
        }),
{
}

/// The input line shows what was typed, all of it, or an invitation where
/// nothing was.
pub proof fn law_the_input_line_shows_the_text(a: Screen, area: Area)
    ensures
        ({
            let text = a.input.before + a.input.after;
            let part = crate::client_view::input_piece(a, area);
            &&& part.area == area
            &&& (part.figure matches Figure::Text { lines, wrap, right, border } && lines.len() == 1
                && lines[0].len() == 2 && lines[0][0].text == " › "@ && lines[0][1].text == (
            if text.len() == 0 {
                "Type a message or /help for commands"@
            } else {
                text
            }) && border is Some)
        }),
{
}

/// The cursor stands in the line of the text, four columns in and after what
/// stands before it, and is not shown where that is beyond the box.
pub proof fn law_the_cursor_follows_the_text(area: Area, typed_w: usize)
    requires
        typed_w < 65536,
        area.x + area.width <= u16::MAX,
        area.y < u16::MAX,
    ensures
        ({
            let column = area.x + 4 + typed_w;
            &&& column < area.x + area.width - 2 ==> (cursor_place(area, typed_w) matches Some(at)
                && at.0 == column && at.1 == area.y + 1)
            &&& column >= area.x + area.width - 2 ==> cursor_place(area, typed_w) is None
        }),
{
}

/// The screen is the header above, a line under it, the history, the input line
/// and the hints, in that order.
pub proof fn law_the_screen_is_whole(
    a: Screen,
    chunks: Seq<Area>,
    top: Seq<Area>,
    stamps: Seq<Seq<char>>,
    badge_w: usize,
    typed_w: usize,
)
    ensures
        ({
            let scene = client_scene(a, chunks, top, stamps, badge_w, typed_w);
            let history = history_pieces(a, chunks[1], stamps, badge_w);
            let n = history.len() as int;
            &&& scene.cursor == cursor_place(chunks[2], typed_w)
            &&& scene.parts.len() == 5 + n
            &&& scene.parts[0].area == top[0] && (scene.parts[0].figure matches Figure::Text {
                lines,
                wrap,
                right,
                border,
            } && lines == seq![header_left(a)])
            &&& scene.parts[1].area == top[1] && (scene.parts[1].figure matches Figure::Text {
                lines,
                wrap,
                right,
                border,
            } && lines == seq![header_right(a)] && right)
            &&& scene.parts[2].area.width == chunks[0].width && scene.parts[2].area.height == 1
            &&& (scene.parts[2].figure matches Figure::Text { lines, wrap, right, border }
                && lines.len() == 1 && lines[0].len() == 1 && lines[0][0].text.len()
                == chunks[0].width && forall|i: int|
                0 <= i < lines[0][0].text.len() ==> lines[0][0].text[i] == '─')
            &&& forall|i: int|
                #![trigger history[i]]
                0 <= i < n ==> scene.parts[3 + i] == history[i]
            &&& scene.parts[3 + n] == crate::client_view::input_piece(a, chunks[2])
            &&& scene.parts[4 + n].area == chunks[3]
        }),
{
    let scene = client_scene(a, chunks, top, stamps, badge_w, typed_w);
    let history = history_pieces(a, chunks[1], stamps, badge_w);
    let head = header_pieces(a, chunks[0], top);
    assert(head.len() == 3);
    assert forall|i: int| #![trigger history[i]] 0 <= i < history.len() implies scene.parts[3 + i]
        == history[i] by {}
    assert(scene.parts[0] == head[0]);
    assert(scene.parts[1] == head[1]);
    assert(scene.parts[2] == head[2]);
}

/// A screen of ordinary size can be drawn: its lower right corner and the place
/// of the cursor are in range, and so is the badge.
pub proof fn law_ordinary_screens_can_be_drawn(
    a: Screen,
    p: Typing,
    area: Area,
    badge_w: usize,
    typed_w: usize,
)
    requires
        area.x + area.width <= 65535,
        area.y + area.height < 65535,
    ensures
        area.x + 4 + typed_w <= 65535 && badge_w <= 65533 ==> crate::client_view::screen_in_range(
            a,
            area,
            badge_w,
            typed_w,
        ),
        area.x + 4 + p.input.len() <= 65535 ==> crate::dashboard::screen_in_range(p, area),
{
}

/// The hints name the keys for sending, commands, scrolling, clearing and
/// leaving.
pub proof fn law_the_hints_name_the_keys()
    ensures
        said(hints().take(2)) == "  enter "@ + "send"@,
        hints().len() == 10,
        hints()[2].text == "   / "@ && hints()[3].text == "commands"@,
        hints()[4].text == "   ↑↓ "@ && hints()[5].text == "scroll"@,
        hints()[6].text == "   ctrl-l "@ && hints()[7].text == "clear"@,
        hints()[8].text == "   esc "@ && hints()[9].text == "quit"@,
{
    let h = hints();
    lemma_said2(h[0], h[1]);
    assert(h.take(2) =~= seq![h[0], h[1]]);
}

/// How the client's screen is divided: two lines of header, three of input and
/// one of hints, and the history in what is left.
pub proof fn law_the_division_of_the_screen(area: Area, chunks: Seq<Area>, top: Seq<Area>)
    requires
        crate::client_view::is_division(area, chunks, top),
    ensures
        chunks.len() == 4,
        top.len() == 2,
        is_layout(
            area,
            true,
            seq![Limit::Length(2), Limit::Min(3), Limit::Length(3), Limit::Length(1)],
            chunks,
        ),
        is_layout(
            Area { x: chunks[0].x, y: chunks[0].y, width: chunks[0].width, height: 1 },
            false,
            seq![Limit::Percentage(60), Limit::Percentage(40)],
            top,
        ),
{
}

// ---------------------------------------------------------------------------
// The dashboard
// ---------------------------------------------------------------------------

/// The dashboard's header says where the server listens, for how long it has
/// been up, how many connections and messages there were, and how many users are
/// online.
#[verifier::rlimit(40)]
pub proof fn law_the_dashboard_counts(snap: Snapshot, addr: Seq<char>, area: Area)
    ensures
        header_piece(snap, addr, area).area == area,
        (header_piece(snap, addr, area).figure matches Figure::Text { lines, wrap, right, border }
            && lines.len() == 2 && said(lines[0]) == " ◆ "@ + "Vectorcom"@ + "  server"@ + "    "@
            + addr && said(lines[1]) == "uptime "@ + crate::clock::uptime_text(snap.uptime as nat)
            + "   conn "@ + decimal(snap.total_connections as nat) + "   msg "@ + decimal(
            snap.total_messages as nat,
        ) + "   online "@ + decimal(snap.users@.len())),
{
    let l = title_line(addr);
    lemma_said2(l[0], l[1]);
    let l2 = seq![l[0], l[1]];
    lemma_said_more(l2, l[2]);
    let l3 = l2.push(l[2]);
    lemma_said_more(l3, l[3]);
    let l4 = l3.push(l[3]);
    lemma_said_more(l4, l[4]);
    assert(l4.push(l[4]) =~= l);
    let s = stats_line(snap);
    lemma_said2(s[0], s[1]);
    let s2 = seq![s[0], s[1]];
    lemma_said_more(s2, s[2]);
    let s3 = s2.push(s[2]);
    lemma_said_more(s3, s[3]);
    let s4 = s3.push(s[3]);
    lemma_said_more(s4, s[4]);
    let s5 = s4.push(s[4]);
    lemma_said_more(s5, s[5]);
    let s6 = s5.push(s[5]);
    lemma_said_more(s6, s[6]);
    let s7 = s6.push(s[6]);
    lemma_said_more(s7, s[7]);
    assert(s7.push(s[7]) =~= s);
}

/// Every room is listed with the number of its users, and every user with the
/// room, in the order in which they are given.
pub proof fn law_the_dashboard_lists(snap: Snapshot, area: Area, i: int)
    ensures
        (rooms_piece(snap, area).figure matches Figure::List { items, border } && items.len()
            == snap.rooms@.len() && (0 <= i < items.len() ==> {
            let (name, n) = room_pairs(snap.rooms@)[i];
            said(items[i]) == (" #"@ + padded(name, 16)) + (decimal(n as nat) + " online"@)
        }) && (border matches Some(rim) && (rim.title matches Some(t) && t.text == " rooms "@))),
        (users_piece(snap, area).figure matches Figure::Table { rows, widths, border } && rows.len()
            == snap.users@.len() && (0 <= i < rows.len() ==> {
            let (name, room) = user_pairs(snap.users@)[i];
            rows[i].0.text == " "@ + name && rows[i].1.text == "#"@ + room && rows[i].0.style.fg
                == Some(crate::dashboard::name_color(name))
        }) && widths == (55u16, 45u16) && (border matches Some(rim) && (rim.title matches Some(t)
            && t.text == " users "@))),
        rooms_piece(snap, area).area == area,
        users_piece(snap, area).area == area,
{
    let rooms = room_pairs(snap.rooms@);
    if 0 <= i < rooms.len() {
        let look = room_look(rooms[i]);
        lemma_said2(look[0], look[1]);
        assert(seq![look[0], look[1]] =~= look);
    }
}

/// The newest lines of the log are shown, in their order and whole, each with
/// its time; as many as fit inside the border.
pub proof fn law_the_dashboard_shows_the_newest(
    snap: Snapshot,
    area: Area,
    stamps: Seq<Seq<char>>,
    k: int,
)
    ensures
        ({
            let log = entries(snap.log@);
            let n = if area.height < 2 {
                0
            } else if log.len() < area.height - 2 {
                log.len() as int
            } else {
                area.height - 2
            };
            (log_piece(snap, area, stamps).figure matches Figure::Text { lines, wrap, right, border }
                && lines.len() == n && (0 <= k < n ==> said(lines[k]) == (" "@ + stamps[k] + " "@)
                + log[log.len() - n + k].text && crate::dashboard::shown_times(snap, area.height)[k]
                == log[log.len() - n + k].ts) && crate::dashboard::shown_times(
                snap,
                area.height,
            ).len() == n)
        }),
        log_piece(snap, area, stamps).area == area,
{
    let log = entries(snap.log@);
    let n = if area.height < 2 {
        0
    } else if log.len() < area.height - 2 {
        log.len() as int
    } else {
        area.height - 2
    };
    if 0 <= k < n {
        let look = log_look(log[log.len() - n + k], stamps[k]);
        lemma_said2(look[0], look[1]);
        assert(seq![look[0], look[1]] =~= look);
    }
}

/// The prompt shows what was typed, or which commands there are.
pub proof fn law_the_prompt_shows_the_text(input: Seq<char>, area: Area)
    ensures
        ({
            let part = crate::dashboard::input_piece(input, area);
            &&& part.area == area
            &&& (part.figure matches Figure::Text { lines, wrap, right, border } && lines.len() == 1
                && lines[0].len() == 2 && lines[0][0].text == " › "@ && lines[0][1].text == (
            if input.len() == 0 {
                "type / for commands — kick · say · block · unblock · slowmode"@
            } else {
                input
            }))
        }),
{
}

/// The footer names the keys for running a command, for clearing and for
/// leaving.
pub proof fn law_the_footer_names_the_keys()
    ensures
        footer().len() == 6,
        footer()[0].text == "  enter "@ && footer()[1].text == "run admin command"@,
        footer()[2].text == "    esc "@ && footer()[3].text == "clear / quit"@,
        footer()[4].text == "    ctrl-c "@ && footer()[5].text == "quit"@,
{
}

/// How the dashboard is divided: three lines of header, three of prompt and one
/// of keys, and in what is left the log on the right, and on the left the rooms
/// above the users.
pub proof fn law_the_division_of_the_dashboard(
    area: Area,
    chunks: Seq<Area>,
    body: Seq<Area>,
    left: Seq<Area>,
)
    requires
        crate::dashboard::is_division(area, chunks, body, left),
    ensures
        chunks.len() == 4 && body.len() == 2 && left.len() == 2,
        is_layout(
            area,
            true,
            seq![Limit::Length(3), Limit::Min(5), Limit::Length(3), Limit::Length(1)],
            chunks,
        ),
        is_layout(
            chunks[1],
            false,
            seq![Limit::Percentage(40), Limit::Percentage(60)],
            body,
        ),
        is_layout(body[0], true, seq![Limit::Percentage(45), Limit::Percentage(55)], left),
{
}

/// The dashboard is its header, the rooms, the users, the log, the prompt and
/// the keys, in that order, and over them the suggestions.
pub proof fn law_the_dashboard_is_whole(
    snap: Snapshot,
    addr: Seq<char>,
    p: Typing,
    chunks: Seq<Area>,
    body: Seq<Area>,
    left: Seq<Area>,
    stamps: Seq<Seq<char>>,
)
    ensures
        ({
            let scene = dashboard_scene(snap, addr, p, chunks, body, left, stamps);
            let over = dropdown_pieces(p, chunks[2]);
            &&& scene.parts.len() == 6 + over.len()
            &&& scene.parts[0] == header_piece(snap, addr, chunks[0])
            &&& scene.parts[1] == rooms_piece(snap, left[0])
            &&& scene.parts[2] == users_piece(snap, left[1])
            &&& scene.parts[3] == log_piece(snap, body[1], stamps)
            &&& scene.parts[4] == crate::dashboard::input_piece(p.input, chunks[2])
            &&& scene.parts[5].area == chunks[3]
            &&& forall|i: int|
                #![trigger over[i]]
                0 <= i < over.len() ==> scene.parts[6 + i] == over[i]
            &&& scene.cursor == cursor_place(chunks[2], p.input.len() as usize)
        }),
{
    let scene = dashboard_scene(snap, addr, p, chunks, body, left, stamps);
    let over = dropdown_pieces(p, chunks[2]);
    assert forall|i: int| #![trigger over[i]] 0 <= i < over.len() implies scene.parts[6 + i]
        == over[i] by {}
}

// ---------------------------------------------------------------------------
// Colours
// ---------------------------------------------------------------------------

/// The styles: plain, in a colour, in bold, in italics and on a ground.
pub proof fn law_the_styles(c: Color, b: Color, r: u8, g: u8, l: u8)
    ensures
        plain() == (Style { fg: None, bg: None, bold: false, italic: false }),
        fg(c) == (Style { fg: Some(c), bg: None, bold: false, italic: false }),
        bold(c) == (Style { fg: Some(c), bg: None, bold: true, italic: false }),
        italic(c) == (Style { fg: Some(c), bg: None, bold: false, italic: true }),
        on(c, b) == (Style { fg: Some(c), bg: Some(b), bold: false, italic: false }),
        bold_on(c, b) == (Style { fg: Some(c), bg: Some(b), bold: true, italic: false }),
        rgb((r, g, l)) == Color::Rgb(r, g, l),
{
}

/// The colours of the client's header, lines and hints: blue for what names the
/// program and the keys, grey for what is beside the point, and the user's own
/// colour for the user.
pub proof fn law_the_colours_of_the_client(a: Screen, row: Row, stamp: Seq<char>, area: Area)
    ensures
        ({
            let blue = Color::Rgb(135, 206, 250);
            let grey = Color::Rgb(150, 150, 150);
            let dark = Color::Rgb(95, 95, 95);
            let light = Color::Rgb(210, 210, 210);
            let l = header_left(a);
            let r = header_right(a);
            let line = row_look(row, stamp, a.username);
            let h = hints();
            &&& l[0].style == fg(blue) && l[1].style == bold(blue) && l[2].style == fg(dark)
            &&& l[3].style == bold(light) && l[4].style == fg(dark) && l[5].style == fg(grey)
            &&& l[6].style == fg(dark) && l[7].style == fg(
                crate::client_view::name_color(a.username),
            )
            &&& r[1].style == fg(grey) && r[2].style == fg(dark) && r[3].style == plain()
            &&& line[0].style == fg(dark) && line[2].style == plain()
            &&& row.kind is Chat ==> line[3].style == fg(light)
            &&& row.kind is System ==> line[1].style == fg(dark) && line[3].style == italic(grey)
            &&& row.kind is Error ==> line[1].style == bold(Color::Red)
            &&& forall|i: int|
                #![trigger h[i]]
                0 <= i < 10 ==> h[i].style == if i % 2 == 0 {
                    fg(blue)
                } else {
                    fg(grey)
                }
            &&& (crate::client_view::input_piece(a, area).figure matches Figure::Text {
                lines,
                wrap,
                right,
                border,
            } && lines[0][0].style == bold(blue) && lines[0][1].style == (if (a.input.before
                + a.input.after).len() == 0 {
                italic(dark)
            } else {
                fg(Color::White)
            }))
        }),
{
}

/// The colours of the dashboard: blue for what names the program and the keys,
/// white for what is counted and told, green for who is online, grey for the
/// rest.
pub proof fn law_the_colours_of_the_dashboard(
    snap: Snapshot,
    addr: Seq<char>,
    input: Seq<char>,
    room: (Seq<char>, usize),
    user: (Seq<char>, Seq<char>),
    entry: LogEntry,
    stamp: Seq<char>,
    area: Area,
)
    ensures
        ({
            let blue = Color::Rgb(135, 206, 250);
            let grey = Color::Rgb(140, 140, 140);
            let dark = Color::Rgb(90, 90, 90);
            let t = title_line(addr);
            let s = stats_line(snap);
            let f = footer();
            &&& t[0].style == fg(blue) && t[1].style == bold(blue) && t[2].style == fg(grey)
            &&& t[3].style == plain() && t[4].style == fg(Color::White)
            &&& s[0].style == fg(dark) && s[1].style == fg(Color::White)
            &&& s[2].style == fg(dark) && s[3].style == fg(Color::White)
            &&& s[4].style == fg(dark) && s[5].style == fg(Color::White)
            &&& s[6].style == fg(dark) && s[7].style == fg(Color::Green)
            &&& room_look(room)[0].style == fg(Color::White) && room_look(room)[1].style == fg(grey)
            &&& user_look(user).0.style == fg(crate::dashboard::name_color(user.0))
            &&& user_look(user).1.style == fg(grey)
            &&& log_look(entry, stamp)[0].style == fg(dark) && log_look(entry, stamp)[1].style
                == fg(Color::White)
            &&& forall|i: int|
                #![trigger f[i]]
                0 <= i < 6 ==> f[i].style == if i % 2 == 0 {
                    fg(blue)
                } else {
                    fg(grey)
                }
            &&& (crate::dashboard::input_piece(input, area).figure matches Figure::Text {
                lines,
                wrap,
                right,
                border,
            } && lines[0][0].style == bold(blue) && lines[0][1].style == (if input.len() == 0 {
                italic(dark)
            } else {
                fg(Color::White)
            }))
        }),
{
}

// ---------------------------------------------------------------------------
// Suggestions
// ---------------------------------------------------------------------------

/// The administrator's commands.
pub proof fn law_the_commands_of_the_administrator()
    ensures
        ({
            let t = admin_table();
            &&& t.len() == 5
            &&& t[0].0 == "kick"@ && t[0].1 == "kick <user>"@
            &&& t[1].0 == "say"@ && t[1].1 == "say <message>"@
            &&& t[2].0 == "block"@ && t[2].1 == "block <user>"@
            &&& t[3].0 == "unblock"@ && t[3].1 == "unblock <user>"@
            &&& t[4].0 == "slowmode"@ && t[4].1 == "slowmode <room> <secs>"@
        }),
        forall|i: int| #![trigger admin_table()[i]] 0 <= i < 5 ==> begins_with(
            admin_table()[i].1,
            admin_table()[i].0 + " "@,
        ),
{
    reveal_strlit("kick");
    reveal_strlit("say");
    reveal_strlit("block");
    reveal_strlit("unblock");
    reveal_strlit("slowmode");
    reveal_strlit("kick <user>");
    reveal_strlit("say <message>");
    reveal_strlit("block <user>");
    reveal_strlit("unblock <user>");
    reveal_strlit("slowmode <room> <secs>");
    reveal_strlit(" ");
    let t = admin_table();
    assert(t[0].1.take(5) =~= t[0].0 + " "@);
    assert(t[1].1.take(4) =~= t[1].0 + " "@);
    assert(t[2].1.take(6) =~= t[2].0 + " "@);
    assert(t[3].1.take(8) =~= t[3].0 + " "@);
    assert(t[4].1.take(9) =~= t[4].0 + " "@);
}

/// While one word is typed, with or without a slash before it, exactly the
/// commands that begin with it are suggested, in their order. An empty line and
/// a line of more than one word have no suggestions.
pub proof fn law_what_is_suggested(w: Seq<char>, c: (Seq<char>, Seq<char>, Seq<char>))
    requires
        !w.contains(' '),
    ensures
        suggested("/"@ + w).contains(c) <==> admin_table().contains(c) && begins_with(c.0, w),
        w.len() > 0 && w[0] != '/' ==> suggested(w) == suggested("/"@ + w),
        suggested(Seq::empty()).len() == 0,
        forall|s: Seq<char>| #[trigger] s.contains(' ') ==> suggested(s).len() == 0,
{
    reveal_strlit("/");
    let slashed = "/"@ + w;
    assert(slashed.take(1) =~= "/"@);
    assert(slashed.skip(1) =~= w);
    assert(typed_word(slashed) == w);
    assert(!slashed.contains(' ')) by {
        if slashed.contains(' ') {
            let i = slashed.index_of(' ');
            if i > 0 {
                assert(w[i - 1] == ' ');
            }
        }
    }
    let f = crate::dashboard::is_suggested(slashed);
    let list = suggested(slashed);
    if list.contains(c) {
        let i = list.index_of(c);
        admin_table().lemma_filter_contains_rev(f, c);
        admin_table().lemma_filter_pred(f, i);
    }
    if admin_table().contains(c) && begins_with(c.0, w) {
        let i = admin_table().index_of(c);
        admin_table().lemma_filter_contains(f, i);
    }
    if w.len() > 0 && w[0] != '/' {
        assert(!begins_with(w, "/"@)) by {
            if begins_with(w, "/"@) {
                assert(w.take(1)[0] == '/');
            }
        }
        assert(typed_word(w) == w);
        assert(crate::dashboard::is_suggested(w) =~= f);
    }
}

/// Typing adds the character at the end and goes to the first suggestion;
/// backspace takes the last character. Control with a character does nothing,
/// but for control-c, which leaves. Escape empties the line, and leaves where it
/// is empty.
pub proof fn law_typing_at_the_prompt(p: Typing, c: char, ctrl: bool)
    ensures
        prompted(p, Key::Char(c), false) == (
            Typing { input: p.input + seq![c], suggest_idx: 0 },
            PromptEnd::Stay,
        ),
        prompted(p, Key::Char('c'), true) == (p, PromptEnd::Quit),
        c != 'c' ==> prompted(p, Key::Char(c), true) == (p, PromptEnd::Stay),
        p.input.len() > 0 ==> prompted(p, Key::Backspace, ctrl) == (
            Typing { input: p.input.take(p.input.len() - 1), suggest_idx: 0 },
            PromptEnd::Stay,
        ),
        p.input.len() == 0 ==> prompted(p, Key::Backspace, ctrl) == (
            Typing { input: p.input, suggest_idx: 0 },
            PromptEnd::Stay,
        ),
        p.input.len() == 0 ==> prompted(p, Key::Esc, ctrl) == (p, PromptEnd::Quit),
        p.input.len() > 0 ==> prompted(p, Key::Esc, ctrl) == (
            Typing { input: Seq::empty(), suggest_idx: 0 },
            PromptEnd::Stay,
        ),
{
    assert(p.input.push(c) =~= p.input + seq![c]);
}

/// Entering runs the line without the white space around it and the slashes
/// before it, and leaves an empty line. A line of nothing else does nothing.
pub proof fn law_entering_at_the_prompt(
    p: Typing,
    lead: Seq<char>,
    slashes: nat,
    cmd: Seq<char>,
    trail: Seq<char>,
    ctrl: bool,
)
    requires
        crate::commands::is_blank(lead),
        crate::commands::is_blank(trail),
        crate::roundtrip::is_tight(cmd),
        cmd.len() > 0 ==> cmd[0] != '/',
        p.input == lead + (Seq::new(slashes, |i: int| '/') + cmd) + trail,
    ensures
        prompted(p, Key::Enter, ctrl).0 == (Typing { input: Seq::empty(), suggest_idx: 0 }),
        cmd.len() > 0 ==> prompted(p, Key::Enter, ctrl).1 == PromptEnd::Run(cmd),
        cmd.len() == 0 ==> prompted(p, Key::Enter, ctrl).1 == PromptEnd::Stay,
{
    let s = Seq::new(slashes, |i: int| '/');
    let core = s + cmd;
    assert(crate::roundtrip::is_tight(core)) by {
        if core.len() > 0 {
            assert(core.first() == '/' || core.first() == cmd[0]);
            assert(core.last() == '/' || core.last() == cmd.last());
        }
    }
    crate::commands::law_trimming_finds_the_core(lead, core, trail);
    crate::lettering::law_stripping_the_start(cmd, '/', slashes);
}

/// Tab puts in the command that is selected, ready for what follows it; up and
/// down go to its neighbours and round at the ends. A selection beyond the last
/// suggestion is the last.
pub proof fn law_choosing_at_the_prompt(p: Typing, ctrl: bool)
    requires
        suggested(p.input).len() > 0,
    ensures
        ({
            let list = suggested(p.input);
            let n = list.len() as int;
            let i = if p.suggest_idx < n {
                p.suggest_idx as int
            } else {
                n - 1
            };
            &&& prompted(p, Key::Tab, ctrl) == (
                Typing { input: list[i].0 + " "@, suggest_idx: 0 },
                PromptEnd::Stay,
            )
            &&& prompted(p, Key::Up, ctrl).1 == PromptEnd::Stay
            &&& prompted(p, Key::Down, ctrl).1 == PromptEnd::Stay
            &&& prompted(p, Key::Up, ctrl).0.input == p.input
            &&& prompted(p, Key::Down, ctrl).0.input == p.input
            &&& i > 0 ==> prompted(p, Key::Up, ctrl).0.suggest_idx == i - 1
            &&& i == 0 ==> prompted(p, Key::Up, ctrl).0.suggest_idx == n - 1
            &&& i < n - 1 ==> prompted(p, Key::Down, ctrl).0.suggest_idx == i + 1
            &&& i == n - 1 ==> prompted(p, Key::Down, ctrl).0.suggest_idx == 0
        }),
{
    let list = suggested(p.input);
    let n = list.len() as int;
    lemma_few(p.input);
    let i = if p.suggest_idx < n {
        p.suggest_idx as int
    } else {
        n - 1
    };
    if i < n - 1 {
        assert((i + 1) % n == i + 1) by (nonlinear_arith)
            requires
                0 <= i < n - 1,
        ;
    } else {
        assert((i + 1) % n == 0) by (nonlinear_arith)
            requires
                i == n - 1,
                n > 0,
        ;
    }
}

proof fn lemma_few(input: Seq<char>)
    ensures
        suggested(input).len() <= 5,
{
    admin_table().lemma_filter_len(crate::dashboard::is_suggested(input));
}

/// Where nothing is suggested, tab, up and down do nothing; and the keys that
/// the prompt does not know never do anything.
pub proof fn law_nothing_to_choose(p: Typing, ctrl: bool)
    requires
        suggested(p.input).len() == 0,
    ensures
        prompted(p, Key::Tab, ctrl) == (p, PromptEnd::Stay),
        prompted(p, Key::Up, ctrl) == (p, PromptEnd::Stay),
        prompted(p, Key::Down, ctrl) == (p, PromptEnd::Stay),
        prompted(p, Key::Left, ctrl) == (p, PromptEnd::Stay),
        prompted(p, Key::Right, ctrl) == (p, PromptEnd::Stay),
        prompted(p, Key::Other, ctrl) == (p, PromptEnd::Stay),
{
}

/// The suggestions are shown one to a line, with usage and help, the usages
/// filled up to one width; the one that is selected, and no other, stands out.
pub proof fn law_suggestions_are_shown(p: Typing, i: int)
    requires
        0 <= i < suggested(p.input).len(),
        p.suggest_idx < suggested(p.input).len(),
    ensures
        ({
            let list = suggested(p.input);
            let lines = dropdown_lines(p);
            &&& lines.len() == list.len()
            &&& said(lines[i]) == (" "@ + padded(list[i].1, longest(usages(list))) + "  "@) + (
            list[i].2 + " "@)
            &&& i == p.suggest_idx <==> lines[i][0].style.bold
            &&& i == p.suggest_idx <==> lines[i][0].style.bg is Some
            &&& i == p.suggest_idx <==> lines[i][1].style.bg is Some
        }),
{
    let list = suggested(p.input);
    let look = suggestion_look(list[i], longest(usages(list)), i == p.suggest_idx);
    lemma_said2(look[0], look[1]);
    assert(seq![look[0], look[1]] =~= look);
}

/// Every panel of the dashboard has a border with round corners and its name on
/// it; the suggestions have one that also names their keys. The header has a
/// line below, and the input line of the client a border without a name.
pub proof fn law_borders_bear_names(
    snap: Snapshot,
    addr: Seq<char>,
    p: Typing,
    a: Screen,
    area: Area,
    stamps: Seq<Seq<char>>,
)
    ensures
        (log_piece(snap, area, stamps).figure matches Figure::Text { lines, wrap, right, border }
            && (border matches Some(rim) && rim.edge == Edge::Rounded && (rim.title matches Some(t)
            && t.text == " activity "@))),
        (crate::dashboard::input_piece(p.input, area).figure matches Figure::Text {
            lines,
            wrap,
            right,
            border,
        } && (border matches Some(rim) && rim.edge == Edge::Rounded && (rim.title matches Some(t)
            && t.text == " admin "@))),
        (header_piece(snap, addr, area).figure matches Figure::Text { lines, wrap, right, border }
            && (border matches Some(rim) && rim.edge == Edge::Below && rim.title is None)),
        (crate::client_view::input_piece(a, area).figure matches Figure::Text {
            lines,
            wrap,
            right,
            border,
        } && (border matches Some(rim) && rim.edge == Edge::Rounded && rim.title is None)),
        dropdown_pieces(p, area).len() == 2 ==> (dropdown_pieces(p, area)[1].figure matches Figure::Text {
            lines,
            wrap,
            right,
            border,
        } && (border matches Some(rim) && rim.edge == Edge::Rounded && (rim.title matches Some(t)
            && t.text == " admin commands "@) && (rim.foot matches Some(f) && f.text
            == " ↑↓ select · tab complete "@))),
{
}

/// The usages are filled up to the number of bytes of the longest of them.
pub proof fn law_the_longest(list: Seq<Seq<char>>, s: Seq<char>)
    ensures
        longest(Seq::empty()) == 0,
        longest(list.push(s)) >= encode_utf8(s).len(),
        longest(list.push(s)) >= longest(list),
        longest(list.push(s)) == encode_utf8(s).len() || longest(list.push(s)) == longest(list),
{
    assert(list.push(s).drop_last() =~= list);
}

/// The suggestions stand right above the prompt, two columns in, as high as they
/// are many with their border; they are left out where that leaves no line for
/// one.
pub proof fn law_suggestions_stand_above_the_prompt(p: Typing, area: Area)
    requires
        area.x + 2 <= u16::MAX,
    ensures
        ({
            let n = suggested(p.input).len() as int;
            let parts = dropdown_pieces(p, area);
            let height = if n + 2 < area.y {
                n + 2
            } else {
                area.y as int
            };
            &&& n == 0 || height < 3 ==> parts.len() == 0
            &&& n > 0 && height >= 3 ==> {
                &&& parts.len() == 2
                &&& parts[0].area == parts[1].area
                &&& parts[0].figure == Figure::Blank
                &&& parts[1].area.height == height
                &&& parts[1].area.y + height == area.y
                &&& parts[1].area.x == area.x + 2
                &&& parts[1].area.width <= area.width
                &&& area.width >= 4 ==> parts[1].area.width == (if longest(
                    usages(suggested(p.input)),
                ) + longest(helps(suggested(p.input))) + 7 < area.width - 4 {
                    longest(usages(suggested(p.input))) as int + longest(
                        helps(suggested(p.input)),
                    ) as int + 7
                } else {
                    area.width - 4
                })
                &&& (parts[1].figure matches Figure::Text { lines, wrap, right, border } && lines
                    == dropdown_lines(p))
            }
        }),
{
    lemma_few(p.input);
}

} // verus!
