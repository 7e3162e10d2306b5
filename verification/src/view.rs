//! What the screens are made of: areas, styles and the parts drawn in them.

use ratatui::layout::{Constraint, Direction, Layout, Rect};
use vstd::prelude::*;

use crate::text::{char_vec, head};

verus! {

// ---------------------------------------------------------------------------
// Colours and styles
// ---------------------------------------------------------------------------

/// A colour of the terminal.
#[derive(Copy, Clone, PartialEq, Eq, Debug, Structural)]
pub enum Color {
    Black,
    Red,
    Green,
    Yellow,
    Magenta,
    White,
    Rgb(u8, u8, u8),
}

/// The colour with the given shares of red, green and blue.
#[verifier::allow_in_spec]
pub fn rgb(c: (u8, u8, u8)) -> Color
    returns
        Color::Rgb(c.0, c.1, c.2),
{
    Color::Rgb(c.0, c.1, c.2)
}

/// How a text is drawn.
#[derive(Copy, Clone, PartialEq, Eq, Debug, Structural)]
pub struct Style {
    pub fg: Option<Color>,
    pub bg: Option<Color>,
    pub bold: bool,
    pub italic: bool,
}

/// The terminal's own style.
#[verifier::allow_in_spec]
pub fn plain() -> Style
    returns
        (Style { fg: None, bg: None, bold: false, italic: false }),
{
    Style { fg: None, bg: None, bold: false, italic: false }
}

/// In colour `c`.
#[verifier::allow_in_spec]
pub fn fg(c: Color) -> Style
    returns
        (Style { fg: Some(c), bg: None, bold: false, italic: false }),
{
    Style { fg: Some(c), bg: None, bold: false, italic: false }
}

/// In bold and colour `c`.
#[verifier::allow_in_spec]
pub fn bold(c: Color) -> Style
    returns
        (Style { fg: Some(c), bg: None, bold: true, italic: false }),
{
    Style { fg: Some(c), bg: None, bold: true, italic: false }
}

/// In italics and colour `c`.
#[verifier::allow_in_spec]
pub fn italic(c: Color) -> Style
    returns
        (Style { fg: Some(c), bg: None, bold: false, italic: true }),
{
    Style { fg: Some(c), bg: None, bold: false, italic: true }
}

/// In colour `c` on the ground `bg`.
#[verifier::allow_in_spec]
pub fn on(c: Color, bg: Color) -> Style
    returns
        (Style { fg: Some(c), bg: Some(bg), bold: false, italic: false }),
{
    Style { fg: Some(c), bg: Some(bg), bold: false, italic: false }
}

/// In bold and colour `c` on the ground `bg`.
#[verifier::allow_in_spec]
pub fn bold_on(c: Color, bg: Color) -> Style
    returns
        (Style { fg: Some(c), bg: Some(bg), bold: true, italic: false }),
{
    Style { fg: Some(c), bg: Some(bg), bold: true, italic: false }
}

// ---------------------------------------------------------------------------
// Texts
// ---------------------------------------------------------------------------

/// A text in one style.
#[derive(Debug)]
pub struct Span {
    pub text: String,
    pub style: Style,
}

/// The model of a `Span`.
#[verifier::ext_equal]
pub struct Ink {
    pub text: Seq<char>,
    pub style: Style,
}

impl View for Span {
    type V = Ink;

    open spec fn view(&self) -> Ink {
        Ink { text: self.text@, style: self.style }
    }
}

/// A text in one style.
pub open spec fn ink(text: Seq<char>, style: Style) -> Ink {
    Ink { text, style }
}

/// A text in one style.
pub fn span(text: String, style: Style) -> (r: Span)
    ensures
        r@ == ink(text@, style),
{
    Span { text, style }
}

/// A text in one style.
pub fn label(text: &str, style: Style) -> (r: Span)
    ensures
        r@ == ink(text@, style),
{
    Span { text: text.to_owned(), style }
}

/// The models of a list of texts.
pub open spec fn inks(list: Seq<Span>) -> Seq<Ink> {
    list.map_values(|s: Span| s@)
}

/// A line of texts.
#[derive(Debug)]
pub struct Line {
    pub spans: Vec<Span>,
}

impl View for Line {
    type V = Seq<Ink>;

    open spec fn view(&self) -> Seq<Ink> {
        inks(self.spans@)
    }
}

/// The models of a list of lines.
pub open spec fn line_inks(list: Seq<Line>) -> Seq<Seq<Ink>> {
    list.map_values(|l: Line| l@)
}

// ---------------------------------------------------------------------------
// Parts
// ---------------------------------------------------------------------------

/// A rectangle of the screen.
#[derive(Copy, Clone, PartialEq, Eq, Debug, Structural)]
pub struct Area {
    pub x: u16,
    pub y: u16,
    pub width: u16,
    pub height: u16,
}

/// Which sides a border has, and how its corners look.
#[derive(Copy, Clone, PartialEq, Eq, Debug, Structural)]
pub enum Edge {
    /// All sides, with round corners.
    Rounded,
    /// A line below.
    Below,
}

/// A border with its titles.
#[derive(Debug)]
pub struct Border {
    pub edge: Edge,
    pub style: Style,
    pub title: Option<Span>,
    pub foot: Option<Span>,
}

/// The model of a `Border`.
#[verifier::ext_equal]
pub struct Rim {
    pub edge: Edge,
    pub style: Style,
    pub title: Option<Ink>,
    pub foot: Option<Ink>,
}

/// The model of an optional text.
pub open spec fn opt_ink(s: Option<Span>) -> Option<Ink> {
    match s {
        Some(s) => Some(s@),
        None => None,
    }
}

impl View for Border {
    type V = Rim;

    open spec fn view(&self) -> Rim {
        Rim {
            edge: self.edge,
            style: self.style,
            title: opt_ink(self.title),
            foot: opt_ink(self.foot),
        }
    }
}

/// The model of an optional border.
pub open spec fn opt_rim(b: Option<Border>) -> Option<Rim> {
    match b {
        Some(b) => Some(b@),
        None => None,
    }
}

/// What is drawn in an area.
#[derive(Debug)]
pub enum Widget {
    /// Lines of text; long ones go on below where `wrap`, and all end at the
    /// right edge where `right`.
    Text { lines: Vec<Line>, wrap: bool, right: bool, border: Option<Border> },
    /// A list of lines.
    List { items: Vec<Line>, border: Option<Border> },
    /// Rows of two cells that take the given percentages of the width.
    Table { rows: Vec<(Span, Span)>, widths: (u16, u16), border: Option<Border> },
    /// Nothing: what was there is cleared.
    Blank,
}

/// The model of a `Widget`.
#[verifier::ext_equal]
pub enum Figure {
    Text { lines: Seq<Seq<Ink>>, wrap: bool, right: bool, border: Option<Rim> },
    List { items: Seq<Seq<Ink>>, border: Option<Rim> },
    Table { rows: Seq<(Ink, Ink)>, widths: (u16, u16), border: Option<Rim> },
    Blank,
}

/// The models of a list of rows.
pub open spec fn row_inks(list: Seq<(Span, Span)>) -> Seq<(Ink, Ink)> {
    list.map_values(|r: (Span, Span)| (r.0@, r.1@))
}

impl View for Widget {
    type V = Figure;

    open spec fn view(&self) -> Figure {
        match *self {
            Widget::Text { lines, wrap, right, border } => Figure::Text {
                lines: line_inks(lines@),
                wrap,
                right,
                border: opt_rim(border),
            },
            Widget::List { items, border } => Figure::List {
                items: line_inks(items@),
                border: opt_rim(border),
            },
            Widget::Table { rows, widths, border } => Figure::Table {
                rows: row_inks(rows@),
                widths,
                border: opt_rim(border),
            },
            Widget::Blank => Figure::Blank,
        }
    }
}

/// A widget in its area.
#[derive(Debug)]
pub struct Part {
    pub area: Area,
    pub widget: Widget,
}

/// The model of a `Part`.
#[verifier::ext_equal]
pub struct Piece {
    pub area: Area,
    pub figure: Figure,
}

impl View for Part {
    type V = Piece;

    open spec fn view(&self) -> Piece {
        Piece { area: self.area, figure: self.widget@ }
    }
}

/// The models of a list of parts.
pub open spec fn part_pieces(list: Seq<Part>) -> Seq<Piece> {
    list.map_values(|p: Part| p@)
}

/// A whole screen: its parts in the order in which they are drawn, and where the
/// cursor stands, if it is shown.
#[derive(Debug)]
pub struct Picture {
    pub parts: Vec<Part>,
    pub cursor: Option<(u16, u16)>,
}

/// The model of a `Picture`.
#[verifier::ext_equal]
pub struct Scene {
    pub parts: Seq<Piece>,
    pub cursor: Option<(u16, u16)>,
}

impl View for Picture {
    type V = Scene;

    open spec fn view(&self) -> Scene {
        Scene { parts: part_pieces(self.parts@), cursor: self.cursor }
    }
}

/// A line of text in an area, without a border.
pub open spec fn line_piece(area: Area, line: Seq<Ink>) -> Piece {
    Piece {
        area,
        figure: Figure::Text { lines: seq![line], wrap: false, right: false, border: None },
    }
}

/// A line of text in an area, without a border.
pub fn line_part(area: Area, line: Line) -> (r: Part)
    ensures
        r@ == line_piece(area, line@),
{
    let lines = vec![line];
    assert(line_inks(lines@) =~= seq![line@]);
    Part { area, widget: Widget::Text { lines, wrap: false, right: false, border: None } }
}

// ---------------------------------------------------------------------------
// Dividing an area
// ---------------------------------------------------------------------------

/// How large a part of an area is to be.
#[derive(Copy, Clone, PartialEq, Eq, Debug, Structural)]
pub enum Limit {
    Length(u16),
    Min(u16),
    Percentage(u16),
}

/// Whether `Layout::split` can divide `area` into `parts` by `limits`. It names
/// what can come of the call: its solver iterates over hash maps, so there may be
/// more than one outcome.
pub uninterp spec fn is_layout(
    area: Area,
    vertical: bool,
    limits: Seq<Limit>,
    parts: Seq<Area>,
) -> bool;

/// Where an extent that begins at `start` ends; at most at the last coordinate.
pub open spec fn far_edge(start: u16, extent: u16) -> int {
    if start + extent <= u16::MAX {
        start + extent
    } else {
        u16::MAX as int
    }
}

/// Whether every part lies in `area`: along the direction in which it is divided
/// between its ends, and across it over the whole extent.
pub open spec fn lie_in(area: Area, vertical: bool, parts: Seq<Area>) -> bool {
    if vertical {
        forall|i: int|
            0 <= i < parts.len() ==> {
                &&& (#[trigger] parts[i]).x == area.x
                &&& parts[i].width == area.width
                &&& area.y <= parts[i].y
                &&& parts[i].y + parts[i].height <= far_edge(area.y, area.height)
            }
    } else {
        forall|i: int|
            0 <= i < parts.len() ==> {
                &&& (#[trigger] parts[i]).y == area.y
                &&& parts[i].height == area.height
                &&& area.x <= parts[i].x
                &&& parts[i].x + parts[i].width <= far_edge(area.x, area.width)
            }
    }
}

/// Whether `parts` can be what `area` is divided into by `limits`.
pub open spec fn is_split(
    area: Area,
    vertical: bool,
    limits: Seq<Limit>,
    parts: Seq<Area>,
) -> bool {
    &&& is_layout(area, vertical, limits, parts)
    &&& parts.len() == limits.len()
    &&& lie_in(area, vertical, parts)
}

/// The areas that `area` is divided into, one for each limit: one above the
/// other where `vertical`, else side by side.
///
/// Calls `ratatui::layout::Layout::split` with the default layout. Claimed: the
/// areas are what the call can give for these arguments, they are as many as the
/// limits, they lie in `area`, and they keep its extent across the direction in
/// which it is divided. Where each begins and how large it is along that
/// direction is left unsaid: a solver settles it that iterates over hash maps.
#[verifier::external_body]
pub(crate) fn split_area(area: Area, vertical: bool, limits: &Vec<Limit>) -> (r: Vec<Area>)
    ensures
        is_layout(area, vertical, limits@, r@),
        r@.len() == limits@.len(),
        lie_in(area, vertical, r@),
{
    let limits = limits.iter().map(|l| match *l {
        Limit::Length(n) => Constraint::Length(n),
        Limit::Min(n) => Constraint::Min(n),
        Limit::Percentage(n) => Constraint::Percentage(n),
    });
    let direction = if vertical { Direction::Vertical } else { Direction::Horizontal };
    let whole = Rect { x: area.x, y: area.y, width: area.width, height: area.height };
    let parts = Layout::default().direction(direction).constraints(limits).split(whole);
    parts.iter().map(|r| Area { x: r.x, y: r.y, width: r.width, height: r.height }).collect()
}

// ---------------------------------------------------------------------------
// Widths
// ---------------------------------------------------------------------------

/// The number of columns that a text takes on a terminal, as `unicode_width`
/// counts them.
pub uninterp spec fn display_width(text: Seq<char>) -> usize;

/// The number of columns that a text takes on a terminal.
///
/// Calls `unicode_width::UnicodeWidthStr::width`. Claimed: the result depends on
/// the text alone.
#[verifier::external_body]
pub(crate) fn text_width(text: &str) -> (r: usize)
    ensures
        r == display_width(text@),
{
    unicode_width::UnicodeWidthStr::width(text)
}

/// What is left of a number in 16 bits.
pub open spec fn low16(n: int) -> int {
    n % 65536
}

/// What is left of a number in 16 bits.
pub fn to_u16(n: usize) -> (r: u16)
    ensures
        r == low16(n as int),
{
    (n % 65536) as u16
}

// ---------------------------------------------------------------------------
// Names
// ---------------------------------------------------------------------------

/// The hash of a name by which it gets its colour.
pub open spec fn name_hash(bytes: Seq<u8>) -> u32
    decreases bytes.len(),
{
    if bytes.len() == 0 {
        5381
    } else {
        ((name_hash(bytes.drop_last()) * 33 + bytes.last()) % 0x1_0000_0000) as u32
    }
}

/// The hash of a name by which it gets its colour.
pub fn hash_name(name: &str) -> (r: u32)
    ensures
        r == name_hash(vstd::utf8::encode_utf8(name@)),
{
    let bytes = name.as_bytes();
    let mut h: u32 = 5381;
    let mut i: usize = 0;
    assert(bytes@.take(0) =~= Seq::<u8>::empty());
    while i < bytes.len()
        invariant
            i <= bytes@.len(),
            h == name_hash(bytes@.take(i as int)),
        decreases bytes.len() - i,
    {
        assert(bytes@.take(i + 1).drop_last() =~= bytes@.take(i as int));
        let times: u64 = h as u64 * 33 + bytes[i] as u64;
        h = (times % 0x1_0000_0000) as u32;
        i += 1;
    }
    assert(bytes@.take(i as int) =~= bytes@);
    h
}

/// `s` cut to `max` characters; where it is longer, the last of them is an
/// ellipsis.
pub open spec fn cut_short(s: Seq<char>, max: nat) -> Seq<char> {
    if s.len() <= max {
        s
    } else if max == 0 {
        "…"@
    } else {
        s.take(max - 1) + "…"@
    }
}

/// `s` cut to `max` characters; where it is longer, the last of them is an
/// ellipsis.
pub fn truncate(s: &str, max: usize) -> (r: String)
    ensures
        r@ == cut_short(s@, max as nat),
{
    let n = char_vec(s).len();
    if n <= max {
        return s.to_owned();
    }
    let keep: usize = if max > 0 {
        max - 1
    } else {
        0
    };
    let r = head(s, keep).to_owned().concat("…");
    assert(s@.take(0) + "…"@ =~= "…"@);
    r
}

} // verus!
