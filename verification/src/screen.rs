//! What is drawn: areas, styles, lines of text.
use vstd::prelude::*;

verus! {

// ── areas ───────────────────────────────────────────────────────────────────
/// An area of the screen, in cells.
#[derive(Debug, Clone, Copy, PartialEq, Eq, Structural)]
pub struct Rect {
    pub x: u16,
    pub y: u16,
    pub width: u16,
    pub height: u16,
}

/// `a - b`, or zero where `b` is larger.
pub open spec fn less(a: int, b: int) -> int {
    if a > b {
        a - b
    } else {
        0
    }
}

pub open spec fn smaller(a: int, b: int) -> int {
    if a < b {
        a
    } else {
        b
    }
}

/// An area with the given corner and size, cut off where the coordinates end.
pub open spec fn rect_at(x: int, y: int, width: int, height: int) -> Rect {
    Rect {
        x: x as u16,
        y: y as u16,
        width: smaller(width, u16::MAX - x) as u16,
        height: smaller(height, u16::MAX - y) as u16,
    }
}

/// Where something of the given size starts in the middle of a length.
pub open spec fn middle(start: int, length: int, size: int) -> int {
    start + less(length, size) / 2
}

/// Whether an area of the given size has a place in the middle of `area`.
pub open spec fn has_center(area: Rect, width: int, height: int) -> bool {
    &&& middle(area.x as int, area.width as int, width) <= u16::MAX
    &&& middle(area.y as int, area.height as int, height) <= u16::MAX
}

/// The area of the given size in the middle of `area`, or as much of it as
/// `area` has room for.
pub open spec fn centered(area: Rect, width: int, height: int) -> Rect {
    rect_at(
        middle(area.x as int, area.width as int, width),
        middle(area.y as int, area.height as int, height),
        smaller(width, area.width as int),
        smaller(height, area.height as int),
    )
}

/// What a border leaves of an area: one cell less on every side.
pub open spec fn inside(area: Rect) -> Rect {
    Rect {
        x: if area.width == 0 || area.x == u16::MAX {
            area.x
        } else {
            (area.x + 1) as u16
        },
        y: if area.height == 0 || area.y == u16::MAX {
            area.y
        } else {
            (area.y + 1) as u16
        },
        width: less(area.width as int, 2) as u16,
        height: less(area.height as int, 2) as u16,
    }
}

impl Rect {
    /// An area with the given corner and size, cut off where the coordinates end.
    pub fn new(x: u16, y: u16, width: u16, height: u16) -> (r: Self)
        ensures
            r == rect_at(x as int, y as int, width as int, height as int),
    {
        Rect {
            x,
            y,
            width: if width < u16::MAX - x {
                width
            } else {
                u16::MAX - x
            },
            height: if height < u16::MAX - y {
                height
            } else {
                u16::MAX - y
            },
        }
    }
}

/// `a - b`, or zero where `b` is larger.
pub fn minus(a: u16, b: u16) -> (r: u16)
    ensures
        r == less(a as int, b as int),
{
    if a > b {
        a - b
    } else {
        0
    }
}

pub fn min_of(a: u16, b: u16) -> (r: u16)
    ensures
        r == smaller(a as int, b as int),
{
    if a < b {
        a
    } else {
        b
    }
}

/// The area of the given size in the middle of `area`.
pub fn centered_rect(area: Rect, width: u16, height: u16) -> (r: Rect)
    requires
        has_center(area, width as int, height as int),
    ensures
        r == centered(area, width as int, height as int),
{
    let x: u16 = area.x + minus(area.width, width) / 2;
    let y: u16 = area.y + minus(area.height, height) / 2;
    Rect::new(x, y, min_of(width, area.width), min_of(height, area.height))
}

/// What `ratatui::widgets::Block::inner` leaves of an area for a block that has
/// a border on all sides and nothing else that takes up room.
#[verifier::external_body]
pub(crate) fn bordered_inner(area: Rect) -> (inner: Rect)
    ensures
        inner == inside(area),
{
    let outer = ratatui::layout::Rect {
        x: area.x,
        y: area.y,
        width: area.width,
        height: area.height,
    };
    let inner = ratatui::widgets::Block::bordered().inner(outer);
    Rect { x: inner.x, y: inner.y, width: inner.width, height: inner.height }
}

/// How much of a length a part of it takes.
#[derive(Debug, Clone, Copy, PartialEq, Eq, Structural)]
pub enum Constraint {
    /// So many cells.
    Length(u16),
    /// So many cells, or more.
    Min(u16),
    /// So many hundredths.
    Percentage(u16),
}

/// The cells that the parts of fixed lengths ask for together.
pub open spec fn fixed_cells(constraints: Seq<Constraint>) -> int
    decreases constraints.len(),
{
    if constraints.len() == 0 {
        0
    } else {
        fixed_cells(constraints.drop_last()) + match constraints.last() {
            Constraint::Length(n) => n as int,
            _ => 0,
        }
    }
}

/// Whether one part may grow and the others have fixed lengths.
pub open spec fn one_grows(constraints: Seq<Constraint>) -> bool {
    exists|k: int|
        0 <= k < constraints.len() && #[trigger] constraints[k] is Min && forall|i: int|
            0 <= i < constraints.len() && i != k ==> #[trigger] constraints[i] is Length
}

/// The cells of the part that may grow: what the others, which ask for `fixed`
/// cells, leave of a height, but no less than the `least` it asks for, as far as
/// the height goes.
pub open spec fn grown(least: int, fixed: int, height: int) -> int {
    if height - fixed >= smaller(least, height) {
        height - fixed
    } else {
        smaller(least, height)
    }
}

/// Whether a part has the cells that its constraint lets it have of a height,
/// when the others ask for `fixed` cells.
pub open spec fn meets(constraint: Constraint, cells: int, fixed: int, height: int) -> bool {
    match constraint {
        Constraint::Length(n) => cells <= n,
        Constraint::Min(n) => cells == grown(n as int, fixed, height),
        Constraint::Percentage(_) => true,
    }
}

/// Whether rows stand one below the other, and fill an area from top to bottom.
pub open spec fn fill(rows: Seq<Rect>, area: Rect) -> bool {
    &&& rows.len() > 0
    &&& rows[0].y == area.y
    &&& forall|i: int|
        0 < i < rows.len() ==> (#[trigger] rows[i]).y == rows[i - 1].y + rows[i - 1].height
    &&& rows.last().y + rows.last().height == area.y + area.height
}

/// Whether it is settled how an area is shared out: one part may grow, by a
/// number that the solver can hold, and the coordinates do not end within the
/// area.
pub open spec fn is_settled(area: Rect, constraints: Seq<Constraint>) -> bool {
    &&& one_grows(constraints)
    &&& forall|i: int|
        0 <= i < constraints.len() ==> (#[trigger] constraints[i] matches Constraint::Min(n) ==> n
            <= i16::MAX)
    &&& area.y + area.height <= u16::MAX
}

/// Whether an area is as wide as another, and lies within it.
pub open spec fn is_row_of(row: Rect, area: Rect) -> bool {
    &&& row.x == area.x
    &&& row.width == area.width
    &&& area.y <= row.y
    &&& row.y + row.height <= smaller(area.y + area.height, u16::MAX as int)
}

/// The rows into which `ratatui::layout::Layout::split` divides an area, from top
/// to bottom: one for each constraint, as wide as the area and within it. Where
/// one row may grow and the others have fixed lengths, they fill the area without
/// a gap, none of the others is longer than it asks for, and the growing row has
/// what they leave, but goes before them for the least that it asks for: its
/// constraint is the stronger one. Which of the others are then cut short is left
/// to a solver that goes through hash tables with random seeds, and nothing is
/// claimed of it, nor of other constraints.
#[verifier::external_body]
pub(crate) fn split_rows(area: Rect, constraints: &Vec<Constraint>) -> (rows: Vec<Rect>)
    ensures
        rows@.len() == constraints@.len(),
        forall|i: int| 0 <= i < rows@.len() ==> is_row_of(#[trigger] rows@[i], area),
        is_settled(area, constraints@) ==> fill(rows@, area),
        is_settled(area, constraints@) ==> forall|i: int|
            0 <= i < rows@.len() ==> meets(
                constraints@[i],
                (#[trigger] rows@[i]).height as int,
                fixed_cells(constraints@),
                area.height as int,
            ),
{
    let outer = ratatui::layout::Rect { x: area.x, y: area.y, width: area.width, height: area.height };
    let limits = constraints.iter().map(|c| match c {
        Constraint::Length(n) => ratatui::layout::Constraint::Length(*n),
        Constraint::Min(n) => ratatui::layout::Constraint::Min(*n),
        Constraint::Percentage(n) => ratatui::layout::Constraint::Percentage(*n),
    });
    let rows = ratatui::layout::Layout::vertical(limits).split(outer);
    rows.iter().map(|r| Rect { x: r.x, y: r.y, width: r.width, height: r.height }).collect()
}

// ── styles ──────────────────────────────────────────────────────────────────
#[derive(Debug, Clone, Copy, PartialEq, Eq, Structural)]
pub enum Color {
    Black,
    Red,
    Green,
    Yellow,
    Cyan,
    DarkGray,
    White,
}

/// How a text is drawn. What is not given stays as it is on the screen.
#[derive(Debug, Clone, Copy, PartialEq, Eq, Structural)]
pub struct Style {
    pub fg: Option<Color>,
    pub bg: Option<Color>,
    pub bold: bool,
    pub reversed: bool,
}

/// The style that changes nothing.
#[verifier::allow_in_spec]
pub fn plain() -> Style
    returns
        (Style { fg: None, bg: None, bold: false, reversed: false }),
{
    Style { fg: None, bg: None, bold: false, reversed: false }
}

/// A color of the text.
#[verifier::allow_in_spec]
pub fn ink(color: Color) -> Style
    returns
        (Style { fg: Some(color), bg: None, bold: false, reversed: false }),
{
    Style { fg: Some(color), bg: None, bold: false, reversed: false }
}

/// A color of the text, which is bold.
#[verifier::allow_in_spec]
pub fn bold_ink(color: Color) -> Style
    returns
        (Style { fg: Some(color), bg: None, bold: true, reversed: false }),
{
    Style { fg: Some(color), bg: None, bold: true, reversed: false }
}

/// Bold black text on a color.
#[verifier::allow_in_spec]
pub fn marked(color: Color) -> Style
    returns
        (Style { fg: Some(Color::Black), bg: Some(color), bold: true, reversed: false }),
{
    Style { fg: Some(Color::Black), bg: Some(color), bold: true, reversed: false }
}

/// The style of bold text.
#[verifier::allow_in_spec]
pub fn bold() -> Style
    returns
        (Style { fg: None, bg: None, bold: true, reversed: false }),
{
    Style { fg: None, bg: None, bold: true, reversed: false }
}

// ── text ────────────────────────────────────────────────────────────────────
/// A text in one style.
#[derive(Debug)]
pub struct Span {
    pub text: String,
    pub style: Style,
}

#[verifier::ext_equal]
pub struct SpanView {
    pub text: Seq<char>,
    pub style: Style,
}

impl View for Span {
    type V = SpanView;

    open spec fn view(&self) -> SpanView {
        SpanView { text: self.text@, style: self.style }
    }
}

pub open spec fn span_of(text: Seq<char>, style: Style) -> SpanView {
    SpanView { text, style }
}

pub open spec fn line_view(line: Seq<Span>) -> Seq<SpanView> {
    line.map_values(|s: Span| s@)
}

pub open spec fn lines_view(lines: Seq<Vec<Span>>) -> Seq<Seq<SpanView>> {
    lines.map_values(|l: Vec<Span>| line_view(l@))
}

/// A text in one style.
pub fn styled(text: &str, style: Style) -> (r: Span)
    ensures
        r@ == span_of(text@, style),
{
    Span { text: text.to_string(), style }
}

/// Appends a text in one style to a line.
pub fn push_span(line: &mut Vec<Span>, text: &str, style: Style)
    ensures
        line_view(final(line)@) == line_view(old(line)@).push(span_of(text@, style)),
{
    line.push(styled(text, style));
    assert(line_view(line@) == line_view(old(line)@).push(span_of(text@, style)));
}

/// Appends a line.
pub fn push_line(lines: &mut Vec<Vec<Span>>, line: Vec<Span>)
    ensures
        lines_view(final(lines)@) == lines_view(old(lines)@).push(line_view(line@)),
{
    lines.push(line);
    assert(lines_view(lines@) == lines_view(old(lines)@).push(line_view(line@)));
}

/// A line of one text.
pub fn single(text: &str, style: Style) -> (line: Vec<Span>)
    ensures
        line_view(line@) == seq![span_of(text@, style)],
{
    let mut line: Vec<Span> = Vec::new();
    push_span(&mut line, text, style);
    assert(line_view(line@) == seq![span_of(text@, style)]);
    line
}

// ── windows over the screen ─────────────────────────────────────────────────
/// What is drawn in an area.
#[derive(Debug)]
pub enum Content {
    /// Lines of styled texts.
    Lines(Vec<Vec<Span>>),
    /// A text, which may have several lines.
    Text(String),
}

#[verifier::ext_equal]
pub enum ContentView {
    Lines(Seq<Seq<SpanView>>),
    Text(Seq<char>),
}

impl View for Content {
    type V = ContentView;

    open spec fn view(&self) -> ContentView {
        match self {
            Content::Lines(lines) => ContentView::Lines(lines_view(lines@)),
            Content::Text(text) => ContentView::Text(text@),
        }
    }
}

/// Something to be drawn, where, and in which style where none is given.
#[derive(Debug)]
pub struct Part {
    pub area: Rect,
    pub content: Content,
    pub centered: bool,
    pub style: Style,
}

#[verifier::ext_equal]
pub struct PartView {
    pub area: Rect,
    pub content: ContentView,
    pub centered: bool,
    pub style: Style,
}

impl View for Part {
    type V = PartView;

    open spec fn view(&self) -> PartView {
        PartView {
            area: self.area,
            content: self.content@,
            centered: self.centered,
            style: self.style,
        }
    }
}

pub open spec fn parts_view(parts: Seq<Part>) -> Seq<PartView> {
    parts.map_values(|p: Part| p@)
}

/// A window: an area that is cleared, parts that the border is drawn over, the
/// border with its title, and parts that are drawn over the border.
#[derive(Debug)]
pub struct Popup {
    pub area: Rect,
    pub title: Option<String>,
    pub border: Style,
    pub under: Vec<Part>,
    pub over: Vec<Part>,
}

#[verifier::ext_equal]
pub struct PopupView {
    pub area: Rect,
    pub title: Option<Seq<char>>,
    pub border: Style,
    pub under: Seq<PartView>,
    pub over: Seq<PartView>,
}

impl View for Popup {
    type V = PopupView;

    open spec fn view(&self) -> PopupView {
        PopupView {
            area: self.area,
            title: crate::text::optional_text(self.title),
            border: self.border,
            under: parts_view(self.under@),
            over: parts_view(self.over@),
        }
    }
}

/// One part.
pub fn only(part: Part) -> (parts: Vec<Part>)
    ensures
        parts_view(parts@) == seq![part@],
{
    let mut parts: Vec<Part> = Vec::new();
    parts.push(part);
    assert(parts_view(parts@) == seq![part@]);
    parts
}

/// One line.
pub fn only_line(line: Vec<Span>) -> (lines: Vec<Vec<Span>>)
    ensures
        lines_view(lines@) == seq![line_view(line@)],
{
    let mut lines: Vec<Vec<Span>> = Vec::new();
    push_line(&mut lines, line);
    assert(lines_view(lines@) == seq![line_view(line@)]);
    lines
}

// ── what holds of every area ────────────────────────────────────────────────
/// An area in the middle of another has no more than the size asked for, lies
/// within the other, and leaves as much room before it as behind it, give or
/// take one cell.
pub proof fn the_center_lies_within(area: Rect, width: int, height: int)
    requires
        0 <= width <= u16::MAX,
        0 <= height <= u16::MAX,
        area.x + area.width <= u16::MAX,
        area.y + area.height <= u16::MAX,
    ensures
        ({
            let r = centered(area, width, height);
            &&& has_center(area, width, height)
            &&& r.width == smaller(width, area.width as int)
            &&& r.height == smaller(height, area.height as int)
            &&& area.x <= r.x
            &&& r.x + r.width <= area.x + area.width
            &&& area.y <= r.y
            &&& r.y + r.height <= area.y + area.height
            &&& 0 <= (area.x + area.width - (r.x + r.width)) - (r.x - area.x) <= 1
            &&& 0 <= (area.y + area.height - (r.y + r.height)) - (r.y - area.y) <= 1
        }),
{
}

/// An area in the middle has the size asked for, as far as there is room.
pub proof fn the_center_has_the_size_asked_for(area: Rect, width: int, height: int)
    requires
        0 <= width <= u16::MAX,
        0 <= height <= u16::MAX,
        area.x + area.width <= u16::MAX,
        area.y + area.height <= u16::MAX,
    ensures
        ({
            let r = centered(area, width, height);
            &&& width <= area.width ==> r.width == width && r.x == area.x + (area.width - width) / 2
            &&& width > area.width ==> r.width == area.width && r.x == area.x
            &&& height <= area.height ==> r.height == height && r.y == area.y + (area.height
                - height) / 2
            &&& height > area.height ==> r.height == area.height && r.y == area.y
        }),
{
}

/// A border takes one cell on every side.
pub proof fn a_border_takes_one_cell_on_every_side(area: Rect)
    ensures
        area.width >= 2 && area.x < u16::MAX ==> inside(area).x == area.x + 1
            && inside(area).width == area.width - 2,
        area.width < 2 ==> inside(area).width == 0,
        area.height >= 2 && area.y < u16::MAX ==> inside(area).y == area.y + 1
            && inside(area).height == area.height - 2,
        area.height < 2 ==> inside(area).height == 0,
{
}

/// An area that ends within the coordinates is the one asked for.
pub proof fn an_area_is_as_asked_for(x: u16, y: u16, width: int, height: int)
    requires
        width >= 0,
        height >= 0,
    ensures
        ({
            let r = rect_at(x as int, y as int, width, height);
            &&& r.x == x && r.y == y
            &&& x + width <= u16::MAX ==> r.width == width
            &&& x + width > u16::MAX ==> x + r.width == u16::MAX
            &&& y + height <= u16::MAX ==> r.height == height
            &&& y + height > u16::MAX ==> y + r.height == u16::MAX
        }),
{
}

/// The views of what is drawn are those of each piece of it, in their order.
pub proof fn every_piece_has_its_view(
    line: Seq<Span>,
    lines: Seq<Vec<Span>>,
    parts: Seq<Part>,
    i: int,
)
    ensures
        line_view(line).len() == line.len(),
        0 <= i < line.len() ==> line_view(line)[i].text == line[i].text@ && line_view(line)[i].style
            == line[i].style,
        lines_view(lines).len() == lines.len(),
        0 <= i < lines.len() ==> lines_view(lines)[i] == line_view(lines[i]@),
        parts_view(parts).len() == parts.len(),
        0 <= i < parts.len() ==> {
            let part = parts[i];
            let view = parts_view(parts)[i];
            &&& view.area == part.area
            &&& view.content == part.content@
            &&& view.centered == part.centered
            &&& view.style == part.style
        },
{
}

} // verus!
