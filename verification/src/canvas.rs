//! Drawing text into a terminal buffer.
//!
//! The buffer itself is [`ratatui::buffer::Buffer`]. Areas, colours and styles
//! are plain values of this module. Two names speak of a buffer's contents:
//! [`buffer_area`], the area it covers, and [`buffer_cells`], what stands at
//! each position.

use ratatui::buffer::Buffer;
use ratatui::layout::Alignment;
use ratatui::style::Color;
use ratatui::widgets::{Block, Borders, Paragraph, Widget};
use vstd::prelude::*;

use crate::text::{chars_of, texts};

verus! {

/// A rectangle of terminal cells.
#[derive(Debug, Clone, Copy, PartialEq, Eq, Structural)]
pub struct Rect {
    pub x: u16,
    pub y: u16,
    pub width: u16,
    pub height: u16,
}

impl Rect {
    /// First column to the right of the rectangle, at most `u16::MAX`.
    pub open spec fn right(self) -> int {
        if self.x + self.width > u16::MAX {
            u16::MAX as int
        } else {
            self.x + self.width
        }
    }

    /// First row below the rectangle, at most `u16::MAX`.
    pub open spec fn bottom(self) -> int {
        if self.y + self.height > u16::MAX {
            u16::MAX as int
        } else {
            self.y + self.height
        }
    }

    /// Whether a position lies inside, however far right and down the rectangle
    /// reaches.
    pub open spec fn spans(self, x: u16, y: u16) -> bool {
        self.x <= x < self.x + self.width && self.y <= y < self.y + self.height
    }

    /// Whether a position lies inside.
    pub open spec fn holds(self, x: u16, y: u16) -> bool {
        self.x <= x < self.right() && self.y <= y < self.bottom()
    }

    /// The part that two rectangles share.
    pub open spec fn clip(self, other: Rect) -> Rect {
        let x1 = if self.x > other.x { self.x } else { other.x };
        let y1 = if self.y > other.y { self.y } else { other.y };
        let x2 = if self.right() < other.right() { self.right() } else { other.right() };
        let y2 = if self.bottom() < other.bottom() { self.bottom() } else { other.bottom() };
        Rect {
            x: x1,
            y: y1,
            width: if x2 > x1 { (x2 - x1) as u16 } else { 0 },
            height: if y2 > y1 { (y2 - y1) as u16 } else { 0 },
        }
    }

    /// The rectangle at `(x, y)`, cut off where it would pass `u16::MAX`.
    pub fn new(x: u16, y: u16, width: u16, height: u16) -> (r: Rect)
        ensures
            r.x == x,
            r.y == y,
            r.width == if x + width > u16::MAX { u16::MAX - x } else { width as int },
            r.height == if y + height > u16::MAX { u16::MAX - y } else { height as int },
    {
        Rect {
            x,
            y,
            width: if width > u16::MAX - x { u16::MAX - x } else { width },
            height: if height > u16::MAX - y { u16::MAX - y } else { height },
        }
    }
}

/// A terminal colour.
#[derive(Debug, Clone, Copy, PartialEq, Eq, Structural)]
pub enum TermColor {
    Reset,
    Black,
    Red,
    Green,
    Yellow,
    Blue,
    Magenta,
    Cyan,
    Gray,
    DarkGray,
    LightRed,
    LightGreen,
    LightYellow,
    LightBlue,
    LightMagenta,
    LightCyan,
    White,
    Rgb(u8, u8, u8),
    Indexed(u8),
}

/// A set of text attributes, one bit each.
#[derive(Debug, Clone, Copy, PartialEq, Eq, Structural)]
pub struct Modifier {
    pub bits: u16,
}

impl Modifier {
    /// No attribute.
    pub fn empty() -> (r: Modifier)
        ensures
            r.bits == 0,
    {
        Modifier { bits: 0 }
    }

    /// Bold text.
    pub fn bold() -> (r: Modifier)
        ensures
            r.bits == 1,
    {
        Modifier { bits: 1 }
    }

    /// Faint text.
    pub fn dim() -> (r: Modifier)
        ensures
            r.bits == 2,
    {
        Modifier { bits: 2 }
    }

    /// Foreground and background swapped.
    pub fn reversed() -> (r: Modifier)
        ensures
            r.bits == 64,
    {
        Modifier { bits: 64 }
    }

    /// Whether every attribute of `other` is set.
    pub fn contains(self, other: Modifier) -> (r: bool)
        ensures
            r == (self.bits & other.bits == other.bits),
    {
        self.bits & other.bits == other.bits
    }
}

/// What a piece of text changes in the cells it is written to: colours where
/// they are given, attributes to add, and attributes to take away.
#[derive(Debug, Clone, Copy, PartialEq, Eq, Structural)]
pub struct Style {
    pub fg: Option<TermColor>,
    pub bg: Option<TermColor>,
    pub underline_color: Option<TermColor>,
    pub add_modifier: Modifier,
    pub sub_modifier: Modifier,
}

/// The style that changes nothing.
pub open spec fn plain() -> Style {
    Style {
        fg: None,
        bg: None,
        underline_color: None,
        add_modifier: Modifier { bits: 0 },
        sub_modifier: Modifier { bits: 0 },
    }
}

impl Default for Style {
    fn default() -> (r: Style)
        ensures
            r == plain(),
    {
        Style {
            fg: None,
            bg: None,
            underline_color: None,
            add_modifier: Modifier::empty(),
            sub_modifier: Modifier::empty(),
        }
    }
}

impl Style {
    /// Set the foreground colour.
    pub fn fg(self, color: TermColor) -> (r: Style)
        ensures
            r == (Style { fg: Some(color), ..self }),
    {
        Style { fg: Some(color), ..self }
    }

    /// Add attributes; what is added is no longer taken away.
    pub fn add_modifier(self, modifier: Modifier) -> (r: Style)
        ensures
            r == (Style {
                add_modifier: Modifier { bits: self.add_modifier.bits | modifier.bits },
                sub_modifier: Modifier { bits: self.sub_modifier.bits & !modifier.bits },
                ..self
            }),
    {
        Style {
            add_modifier: Modifier { bits: self.add_modifier.bits | modifier.bits },
            sub_modifier: Modifier { bits: self.sub_modifier.bits & !modifier.bits },
            ..self
        }
    }
}

/// What stands at one position of a buffer.
pub struct CellView {
    pub symbol: Seq<char>,
    pub fg: TermColor,
    pub bg: TermColor,
    pub underline_color: TermColor,
    pub modifier: u16,
}

/// A cell after a style was applied to it.
pub open spec fn styled(cell: CellView, style: Style) -> CellView {
    CellView {
        symbol: cell.symbol,
        fg: if style.fg is Some { style.fg->0 } else { cell.fg },
        bg: if style.bg is Some { style.bg->0 } else { cell.bg },
        underline_color: if style.underline_color is Some {
            style.underline_color->0
        } else {
            cell.underline_color
        },
        modifier: (cell.modifier | (style.add_modifier.bits & 0x1ff)) & !(style.sub_modifier.bits
            & 0x1ff),
    }
}

/// The printable ASCII characters, space among them. Each of them takes one
/// cell.
pub open spec fn printable(text: Seq<char>) -> bool {
    forall|i: int| 0 <= i < text.len() ==> ' ' <= #[trigger] text[i] <= '~'
}

/// Whether the width of a title can be counted in sixteen bits, with one to
/// spare. No character is wider than three cells.
pub open spec fn title_fits(title: Seq<char>) -> bool {
    title.len() <= 0x5554 || (printable(title) && title.len() < 0xffff)
}

/// Whether the width of every cluster of characters in a text can be counted in
/// sixteen bits. No character is wider than three cells, and a printable ASCII
/// character is a cluster of its own.
pub open spec fn line_fits(text: Seq<char>) -> bool {
    text.len() <= 0x5554 || printable(text)
}

/// Whether a list of characters holds printable ASCII characters only.
fn all_printable(cs: &Vec<char>) -> (r: bool)
    ensures
        r == printable(cs@),
{
    let mut i: usize = 0;
    while i < cs.len()
        invariant
            i <= cs@.len(),
            forall|k: int| 0 <= k < i ==> ' ' <= #[trigger] cs@[k] <= '~',
        decreases cs@.len() - i,
    {
        if !(' ' <= cs[i] && cs[i] <= '~') {
            assert(!(' ' <= cs@[i as int] <= '~'));
            return false;
        }
        i = i + 1;
    }
    true
}

/// Whether a border can take a title.
pub fn border_takes(title: &str) -> (r: bool)
    ensures
        r == title_fits(title@),
{
    let cs: Vec<char> = chars_of(title);
    cs.len() <= 0x5554 || (cs.len() < 0xffff && all_printable(&cs))
}

/// Whether a text can be written in the middle of a row.
pub fn row_takes(text: &str) -> (r: bool)
    ensures
        r == line_fits(text@),
{
    let cs: Vec<char> = chars_of(text);
    cs.len() <= 0x5554 || all_printable(&cs)
}

pub type Cells = Map<(u16, u16), CellView>;

#[verifier::external_type_specification]
#[verifier::external_body]
pub struct ExBuffer(Buffer);

#[verifier::external_type_specification]
#[verifier::external_body]
pub struct ExColor(Color);

/// The area that a buffer covers.
pub uninterp spec fn buffer_area(buf: Buffer) -> Rect;

/// The cells of a buffer: one for each position of its area that its content
/// reaches to.
pub uninterp spec fn buffer_cells(buf: Buffer) -> Map<(u16, u16), CellView>;

/// The number of cells in a buffer's content.
pub uninterp spec fn buffer_len(buf: Buffer) -> nat;

/// Whether there is a cell for every position of an area.
pub open spec fn whole(cells: Cells, within: Rect) -> bool {
    forall|x: u16, y: u16| within.holds(x, y) ==> #[trigger] cells.contains_key((x, y))
}

/// Whether at most `width` cells of text written at `(x, y)` stay on cells of
/// a buffer that covers `within`. Text is cut off at the right edge; nothing is
/// written past it.
pub open spec fn row_fits(
    cells: Cells,
    within: Rect,
    x: u16,
    y: u16,
    text: Seq<char>,
    width: nat,
) -> bool {
    text.len() == 0 || forall|px: u16|
        x <= px < within.right() && px - x < width ==> #[trigger] cells.contains_key((px, y))
}

/// The cells after text was written at `(x, y)` of a buffer that covers `area`.
pub uninterp spec fn row_printed(
    cells: Map<(u16, u16), CellView>,
    area: Rect,
    x: u16,
    y: u16,
    text: Seq<char>,
    width: nat,
    style: Style,
) -> Map<(u16, u16), CellView>;

/// The cells after a border was drawn round `frame`, with an optional title in
/// the top edge, into a buffer that covers `area`.
pub uninterp spec fn frame_drawn(
    cells: Map<(u16, u16), CellView>,
    area: Rect,
    frame: Rect,
    title: Option<Seq<char>>,
) -> Map<(u16, u16), CellView>;

/// The terminal library's value for a colour.
pub uninterp spec fn terminal_color(color: TermColor) -> Color;

/// The variant of `ratatui::style::Color` of the same name.
#[verifier::external_body]
fn to_terminal_color(color: TermColor) -> (r: Color)
    ensures
        r == terminal_color(color),
{
    match color {
        TermColor::Reset => Color::Reset, TermColor::Black => Color::Black,
        TermColor::Red => Color::Red, TermColor::Green => Color::Green,
        TermColor::Yellow => Color::Yellow, TermColor::Blue => Color::Blue,
        TermColor::Magenta => Color::Magenta, TermColor::Cyan => Color::Cyan,
        TermColor::Gray => Color::Gray, TermColor::DarkGray => Color::DarkGray,
        TermColor::LightRed => Color::LightRed, TermColor::LightGreen => Color::LightGreen,
        TermColor::LightYellow => Color::LightYellow, TermColor::LightBlue => Color::LightBlue,
        TermColor::LightMagenta => Color::LightMagenta, TermColor::LightCyan => Color::LightCyan,
        TermColor::White => Color::White, TermColor::Indexed(i) => Color::Indexed(i),
        TermColor::Rgb(r, g, b) => Color::Rgb(r, g, b),
    }
}

/// Text of printable ASCII characters, written cell by cell from `(x, y)`.
pub open spec fn ascii_row(
    cells: Cells,
    area: Rect,
    x: u16,
    y: u16,
    text: Seq<char>,
    width: nat,
    style: Style,
) -> Cells {
    Map::new(
        |at: (u16, u16)| cells.contains_key(at),
        |at: (u16, u16)|
            if at.1 == y && x <= at.0 < area.right() && at.0 - x < width && at.0 - x < text.len() {
                CellView { symbol: seq![text[at.0 - x]], ..styled(cells[at], style) }
            } else {
                cells[at]
            },
    )
}

/// Write at most `width` cells of text at `(x, y)` with
/// `ratatui::buffer::Buffer::set_stringn`.
///
/// The cells that come out are a function of the cells before, the buffer's
/// area, and the arguments. The area stays, no cell appears or disappears, and
/// only cells of row `y` from `x` on, within `width` and within the buffer's
/// right edge, change. Printable ASCII text takes one cell for each character.
#[verifier::external_body]
pub(crate) fn print_row(
    buf: &mut Buffer,
    x: u16,
    y: u16,
    text: &str,
    width: u16,
    style: Style,
)
    requires
        row_fits(
            buffer_cells(*old(buf)),
            buffer_area(*old(buf)),
            x,
            y,
            text@,
            width as nat,
        ),
    ensures
        buffer_area(*final(buf)) == buffer_area(*old(buf)),
        buffer_cells(*final(buf)) == row_printed(
            buffer_cells(*old(buf)),
            buffer_area(*old(buf)),
            x,
            y,
            text@,
            width as nat,
            style,
        ),
        buffer_cells(*final(buf)).dom() == buffer_cells(*old(buf)).dom(),
        forall|px: u16, py: u16|
            #![trigger buffer_cells(*final(buf))[(px, py)]]
            buffer_cells(*old(buf)).contains_key((px, py)) && (py != y || px < x || px - x >= width
                || px >= buffer_area(*old(buf)).right()) ==> buffer_cells(*final(buf))[(px, py)]
                == buffer_cells(*old(buf))[(px, py)],
        printable(text@) ==> buffer_cells(*final(buf)) == ascii_row(
            buffer_cells(*old(buf)),
            buffer_area(*old(buf)),
            x,
            y,
            text@,
            width as nat,
            style,
        ),
{
    let shade = ratatui::style::Style {
        fg: style.fg.map(to_terminal_color),
        bg: style.bg.map(to_terminal_color),
        underline_color: style.underline_color.map(to_terminal_color),
        add_modifier: ratatui::style::Modifier::from_bits_truncate(style.add_modifier.bits),
        sub_modifier: ratatui::style::Modifier::from_bits_truncate(style.sub_modifier.bits),
    };
    buf.set_stringn(x, y, text, width as usize, shade);
}

/// The part of a bordered area that lies inside the border.
pub open spec fn inside(area: Rect) -> Rect {
    Rect {
        x: if area.x + 1 < area.right() { (area.x + 1) as u16 } else { area.right() as u16 },
        y: if area.y + 1 < area.bottom() { (area.y + 1) as u16 } else { area.bottom() as u16 },
        width: if area.width >= 2 { (area.width - 2) as u16 } else { 0 },
        height: if area.height >= 2 { (area.height - 2) as u16 } else { 0 },
    }
}

/// The area inside a border on all four sides, from
/// `ratatui::widgets::Block::inner`.
#[verifier::external_body]
pub(crate) fn frame_inner(area: Rect) -> (r: Rect)
    ensures
        r == inside(area),
{
    let block = Block::default().borders(Borders::ALL);
    let inner = block.inner(ratatui::layout::Rect {
        x: area.x,
        y: area.y,
        width: area.width,
        height: area.height,
    });
    Rect { x: inner.x, y: inner.y, width: inner.width, height: inner.height }
}

/// The character on an edge or a corner of a border. A title of printable ASCII
/// characters covers as much of the top edge as it needs, from the left.
pub open spec fn border_symbol(frame: Rect, title: Seq<char>, x: u16, y: u16) -> char {
    let left = x == frame.x;
    let right = x == frame.right() - 1;
    if y == frame.y {
        if left {
            '┌'
        } else if right {
            '┐'
        } else if x - frame.x - 1 < title.len() {
            title[x - frame.x - 1]
        } else {
            '─'
        }
    } else if y == frame.bottom() - 1 {
        if left {
            '└'
        } else if right {
            '┘'
        } else {
            '─'
        }
    } else {
        '│'
    }
}

/// The characters of an optional title; no title is an empty one.
pub open spec fn heading(title: Option<Seq<char>>) -> Seq<char> {
    match title {
        Some(t) => t,
        None => seq![],
    }
}

/// The characters of an optional `str`.
pub open spec fn opt_view(text: Option<&str>) -> Option<Seq<char>> {
    match text {
        Some(t) => Some(t@),
        None => None,
    }
}

/// Whether a position lies on the outline of an area.
pub open spec fn on_border(frame: Rect, x: u16, y: u16) -> bool {
    frame.holds(x, y) && (x == frame.x || x == frame.right() - 1 || y == frame.y || y
        == frame.bottom() - 1)
}

/// Whether the outline of an area holds a border. Of a title with other than
/// printable ASCII characters nothing is said but that the corners stay.
pub open spec fn border_shown(
    old_cells: Cells,
    new_cells: Cells,
    frame: Rect,
    title: Seq<char>,
) -> bool {
    forall|x: u16, y: u16|
        #![trigger new_cells[(x, y)]]
        on_border(frame, x, y) && (printable(title) || x == frame.x || x == frame.right() - 1 || y
            != frame.y) ==> new_cells[(x, y)] == (CellView {
            symbol: seq![border_symbol(frame, title, x, y)],
            ..old_cells[(x, y)]
        })
}

/// Draw a border round `area`, with an optional title in its top edge, by
/// rendering a `ratatui::widgets::Block`.
///
/// The border is drawn round the part of `area` that lies in the buffer. The
/// cells that come out are a function of the cells before, the buffer's area,
/// and the arguments. The buffer's area stays, no cell appears or disappears,
/// and only the outline changes. An outline of at least two by two cells holds
/// the line-drawing characters, with the title in its top edge, in the colours
/// and attributes that the cells had before. How a title of other than printable
/// ASCII characters comes out between the corners is left unsaid. The bound on
/// the title keeps the widget's sixteen-bit sums from overflowing.
#[verifier::external_body]
pub(crate) fn draw_frame(area: Rect, title: Option<&str>, buf: &mut Buffer)
    requires
        whole(buffer_cells(*old(buf)), buffer_area(*old(buf))),
        title is Some ==> title_fits(title->0@),
    ensures
        buffer_area(*final(buf)) == buffer_area(*old(buf)),
        buffer_cells(*final(buf)) == frame_drawn(
            buffer_cells(*old(buf)),
            buffer_area(*old(buf)),
            area,
            opt_view(title),
        ),
        buffer_cells(*final(buf)).dom() == buffer_cells(*old(buf)).dom(),
        forall|x: u16, y: u16|
            #![trigger buffer_cells(*final(buf))[(x, y)]]
            buffer_cells(*old(buf)).contains_key((x, y)) && !on_border(
                area.clip(buffer_area(*old(buf))),
                x,
                y,
            ) ==> buffer_cells(*final(buf))[(x, y)] == buffer_cells(*old(buf))[(x, y)],
        ({
            let frame = area.clip(buffer_area(*old(buf)));
            frame.width >= 2 && frame.height >= 2 ==> border_shown(
                buffer_cells(*old(buf)),
                buffer_cells(*final(buf)),
                frame,
                heading(opt_view(title)),
            )
        }),
{
    let block = Block::default().borders(Borders::ALL);
    let block = match title {
        Some(title) => block.title(title),
        None => block,
    };
    let frame = ratatui::layout::Rect {
        x: area.x,
        y: area.y,
        width: area.width,
        height: area.height,
    };
    block.render(frame, buf);
}

/// The cells after one line of text was written in the middle of a row.
pub uninterp spec fn centered_drawn(
    cells: Map<(u16, u16), CellView>,
    area: Rect,
    text: Seq<char>,
    style: Style,
) -> Map<(u16, u16), CellView>;

/// Text of printable ASCII characters in the middle of a row, as much as fits.
/// The whole row takes the style.
pub open spec fn ascii_centered(cells: Cells, area: Rect, text: Seq<char>, style: Style) -> Cells {
    let shown = if text.len() <= area.width {
        text
    } else {
        text.take(area.width as int)
    };
    let start = area.x + area.width / 2 - shown.len() / 2;
    Map::new(
        |at: (u16, u16)| cells.contains_key(at),
        |at: (u16, u16)|
            if !area.spans(at.0, at.1) {
                cells[at]
            } else if start <= at.0 < start + shown.len() {
                CellView { symbol: seq![shown[at.0 - start]], ..styled(cells[at], style) }
            } else {
                styled(cells[at], style)
            },
    )
}

/// Write one line of text in the middle of a row, by rendering a centred
/// `ratatui::widgets::Paragraph`.
///
/// The cells that come out are a function of the cells before and the
/// arguments. The buffer's area stays, no cell appears or disappears, and only
/// the row changes. Printable ASCII text takes one cell for each character. The
/// bounds on the width and the text keep the widget's sixteen-bit widths and sums
/// from wrapping round.
#[verifier::external_body]
pub(crate) fn draw_centered(area: Rect, text: &str, style: Style, buf: &mut Buffer)
    requires
        whole(buffer_cells(*old(buf)), buffer_area(*old(buf))),
        lies_in(area, buffer_area(*old(buf))),
        area.height == 1,
        area.width <= 0x7fff,
        line_fits(text@),
    ensures
        buffer_area(*final(buf)) == buffer_area(*old(buf)),
        buffer_cells(*final(buf)) == centered_drawn(buffer_cells(*old(buf)), area, text@, style),
        buffer_cells(*final(buf)).dom() == buffer_cells(*old(buf)).dom(),
        forall|x: u16, y: u16|
            #![trigger buffer_cells(*final(buf))[(x, y)]]
            buffer_cells(*old(buf)).contains_key((x, y)) && !area.spans(x, y) ==> buffer_cells(
                *final(buf),
            )[(x, y)] == buffer_cells(*old(buf))[(x, y)],
        printable(text@) ==> buffer_cells(*final(buf)) == ascii_centered(
            buffer_cells(*old(buf)),
            area,
            text@,
            style,
        ),
{
    let shade = ratatui::style::Style {
        fg: style.fg.map(to_terminal_color),
        bg: style.bg.map(to_terminal_color),
        underline_color: style.underline_color.map(to_terminal_color),
        add_modifier: ratatui::style::Modifier::from_bits_truncate(style.add_modifier.bits),
        sub_modifier: ratatui::style::Modifier::from_bits_truncate(style.sub_modifier.bits),
    };
    let row = ratatui::layout::Rect { x: area.x, y: area.y, width: area.width, height: area.height };
    Paragraph::new(text).alignment(Alignment::Center).style(shade).render(row, buf);
}

/// Write one character into one cell, with
/// `ratatui::buffer::Cell::set_symbol`. Colours and attributes stay, and so does
/// every other cell.
#[verifier::external_body]
fn put_char(buf: &mut Buffer, x: u16, y: u16, c: char)
    requires
        buffer_cells(*old(buf)).contains_key((x, y)),
    ensures
        buffer_area(*final(buf)) == buffer_area(*old(buf)),
        buffer_cells(*final(buf)) == buffer_cells(*old(buf)).insert(
            (x, y),
            CellView { symbol: seq![c], ..buffer_cells(*old(buf))[(x, y)] },
        ),
{
    buf[(x, y)].set_symbol(c.encode_utf8(&mut [0; 4]));
}

/// The cells after rows were written into an area one character to a cell,
/// whatever the characters are. Rows are cut off at the right edge of the area.
pub open spec fn char_rows(cells: Cells, area: Rect, rows: Seq<Seq<char>>) -> Cells {
    Map::new(
        |at: (u16, u16)| cells.contains_key(at),
        |at: (u16, u16)|
            {
                let i = at.1 - area.y;
                let j = at.0 - area.x;
                if 0 <= i < rows.len() && 0 <= j < area.width && j < rows[i].len() {
                    CellView { symbol: seq![rows[i][j]], ..cells[at] }
                } else {
                    cells[at]
                }
            },
    )
}

/// Write a row of an area one character to a cell.
pub(crate) fn write_row(buf: &mut Buffer, area: Rect, row: u16, text: &str)
    requires
        whole(buffer_cells(*old(buf)), buffer_area(*old(buf))),
        lies_in(area, buffer_area(*old(buf))),
        row < area.height,
    ensures
        buffer_area(*final(buf)) == buffer_area(*old(buf)),
        buffer_cells(*final(buf)) == char_rows(
            buffer_cells(*old(buf)),
            (Rect { y: (area.y + row) as u16, ..area }),
            seq![text@],
        ),
{
    let ghost old_cells = buffer_cells(*old(buf));
    let ghost within = buffer_area(*old(buf));
    let y: u16 = area.y + row;
    let ghost line = Rect { y, ..area };
    let cs: Vec<char> = chars_of(text);
    let count: usize = if cs.len() < area.width as usize { cs.len() } else { area.width as usize };
    let mut j: usize = 0;
    proof {
        assert(char_rows(old_cells, line, seq![text@.take(0)]) =~= old_cells);
    }
    while j < count
        invariant
            j <= count <= cs@.len(),
            count <= area.width,
            cs@ == text@,
            y == area.y + row,
            row < area.height,
            line == (Rect { y, ..area }),
            whole(old_cells, within),
            lies_in(area, within),
            buffer_area(*buf) == within,
            buffer_cells(*buf) == char_rows(old_cells, line, seq![text@.take(j as int)]),
        decreases count - j,
    {
        let ghost before = buffer_cells(*buf);
        proof {
            assert(within.holds((area.x + j) as u16, y));
            assert(old_cells.contains_key(((area.x + j) as u16, y)));
        }
        put_char(buf, area.x + j as u16, y, cs[j]);
        j = j + 1;
        proof {
            let a = char_rows(old_cells, line, seq![text@.take(j - 1)]);
            let b = char_rows(old_cells, line, seq![text@.take(j as int)]);
            assert(buffer_cells(*buf) =~= b);
        }
    }
    proof {
        assert(char_rows(old_cells, line, seq![text@.take(count as int)]) =~= char_rows(
            old_cells,
            line,
            seq![text@],
        ));
    }
}

/// The area that a buffer covers, as it says itself (its field `area`).
#[verifier::external_body]
fn area_of(buf: &Buffer) -> (r: Rect)
    ensures
        r == buffer_area(*buf),
{
    let area = buf.area;
    Rect { x: area.x, y: area.y, width: area.width, height: area.height }
}

/// The number of cells in a buffer's content (`ratatui::buffer::Buffer::content`).
/// Content of at least width times height cells reaches to every position of
/// the area.
#[verifier::external_body]
fn len_of(buf: &Buffer) -> (r: usize)
    ensures
        r == buffer_len(*buf),
        r >= buffer_area(*buf).width * buffer_area(*buf).height ==> whole(
            buffer_cells(*buf),
            buffer_area(*buf),
        ),
{
    buf.content().len()
}

/// Whether one area lies inside another.
pub open spec fn lies_in(area: Rect, within: Rect) -> bool {
    &&& within.x <= area.x
    &&& within.y <= area.y
    &&& area.x + area.width <= within.right()
    &&& area.y + area.height <= within.bottom()
}

/// Whether an area can be drawn into: it lies in the buffer, and the buffer's
/// content is complete.
pub fn covers(buf: &Buffer, area: Rect) -> (r: bool)
    ensures
        r == (lies_in(area, buffer_area(*buf)) && buffer_len(*buf) >= buffer_area(*buf).width
            * buffer_area(*buf).height),
        r ==> whole(buffer_cells(*buf), buffer_area(*buf)),
{
    let within: Rect = area_of(buf);
    let right: u32 = if within.x as u32 + within.width as u32 > 0xffff {
        0xffff
    } else {
        within.x as u32 + within.width as u32
    };
    let bottom: u32 = if within.y as u32 + within.height as u32 > 0xffff {
        0xffff
    } else {
        within.y as u32 + within.height as u32
    };
    assert(within.width * within.height <= 0xffff * 0xffff) by (nonlinear_arith)
        requires
            within.width <= 0xffff,
            within.height <= 0xffff,
    ;
    let cells: u64 = within.width as u64 * within.height as u64;
    within.x <= area.x && within.y <= area.y && area.x as u32 + area.width as u32 <= right && area.y
        as u32 + area.height as u32 <= bottom && len_of(buf) as u64 >= cells
}

/// Any rows fit an area that lies in a complete buffer.
pub proof fn rows_fit_where_covered(cells: Cells, within: Rect, area: Rect, rows: Seq<Row>)
    requires
        whole(cells, within),
        lies_in(area, within),
    ensures
        rows_fit(cells, within, area, visible(rows, area)),
{
    let shown = visible(rows, area);
    assert forall|i: int| 0 <= i < shown.len() implies #[trigger] nth_row_fits(
        cells,
        within,
        area,
        shown,
        i,
    ) by {
        assert forall|px: u16|
            area.x <= px < within.right() && px - area.x
                < area.width as nat implies #[trigger] cells.contains_key(
            (px, (area.y + i) as u16),
        ) by {
            assert(within.holds(px, (area.y + i) as u16));
        }
    }
}

/// A row of text and the style it is written in.
pub type Row = (Seq<char>, Style);

/// The rows of a list of strings with their styles.
pub open spec fn row_views(rows: Seq<(String, Style)>) -> Seq<Row> {
    rows.map_values(|row: (String, Style)| (row.0@, row.1))
}

/// The rows that an area has room for, from the top. An area without width has
/// room for none.
pub open spec fn visible(rows: Seq<Row>, area: Rect) -> Seq<Row> {
    if area.width == 0 {
        seq![]
    } else if rows.len() < area.height {
        rows
    } else {
        rows.take(area.height as int)
    }
}

/// Whether the `i`-th of the rows written one below the other from the top left
/// corner of an area stays on cells of the buffer.
pub open spec fn nth_row_fits(cells: Cells, within: Rect, area: Rect, rows: Seq<Row>, i: int) -> bool {
    &&& area.y + i <= u16::MAX
    &&& row_fits(cells, within, area.x, (area.y + i) as u16, rows[i].0, area.width as nat)
}

/// Whether rows written one below the other from the top left corner of an area
/// all stay on cells of the buffer.
pub open spec fn rows_fit(cells: Cells, within: Rect, area: Rect, rows: Seq<Row>) -> bool {
    forall|i: int|
        0 <= i < rows.len() ==> #[trigger] nth_row_fits(cells, within, area, rows, i)
}

/// The cells after rows were written one below the other from the top left
/// corner of an area, into a buffer that covers `within`.
pub open spec fn rows_printed(cells: Cells, within: Rect, area: Rect, rows: Seq<Row>) -> Cells
    decreases rows.len(),
{
    if rows.len() == 0 {
        cells
    } else {
        row_printed(
            rows_printed(cells, within, area, rows.drop_last()),
            within,
            area.x,
            (area.y + rows.len() - 1) as u16,
            rows.last().0,
            area.width as nat,
            rows.last().1,
        )
    }
}

/// Whether every row is made of printable ASCII characters.
pub open spec fn rows_printable(rows: Seq<Row>) -> bool {
    forall|i: int| 0 <= i < rows.len() ==> printable((#[trigger] rows[i]).0)
}

/// Rows of printable ASCII characters, one character to a cell.
pub open spec fn ascii_rows(cells: Cells, within: Rect, area: Rect, rows: Seq<Row>) -> Cells {
    Map::new(
        |at: (u16, u16)| cells.contains_key(at),
        |at: (u16, u16)|
            {
                let i = at.1 - area.y;
                let j = at.0 - area.x;
                if 0 <= i < rows.len() && 0 <= j < area.width && at.0 < within.right() && j
                    < rows[i].0.len() {
                    CellView { symbol: seq![rows[i].0[j]], ..styled(cells[at], rows[i].1) }
                } else {
                    cells[at]
                }
            },
    )
}

/// What drawing rows into an area of a buffer that covers `within` comes to.
/// The cells that come out are those of [`rows_printed`]. No cell appears or
/// disappears, and only cells of the rows, within the area's width, change.
/// Rows of printable ASCII characters stand there one character to a cell.
pub open spec fn rows_drawn(
    old_cells: Cells,
    new_cells: Cells,
    within: Rect,
    area: Rect,
    rows: Seq<Row>,
) -> bool {
    &&& new_cells == rows_printed(old_cells, within, area, rows)
    &&& new_cells.dom() == old_cells.dom()
    &&& forall|x: u16, y: u16|
        #![trigger new_cells[(x, y)]]
        old_cells.contains_key((x, y)) && !(area.x <= x < area.x + area.width && area.y <= y
            < area.y + rows.len()) ==> new_cells[(x, y)] == old_cells[(x, y)]
    &&& rows_printable(rows) ==> new_cells == ascii_rows(old_cells, within, area, rows)
}

/// Write rows from the top of an area; rows beyond its height are left out.
/// Gives the number of rows written.
pub(crate) fn draw_rows(area: Rect, rows: &Vec<(String, Style)>, buf: &mut Buffer) -> (drawn: u16)
    requires
        rows_fit(
            buffer_cells(*old(buf)),
            buffer_area(*old(buf)),
            area,
            visible(row_views(rows@), area),
        ),
    ensures
        drawn == visible(row_views(rows@), area).len(),
        buffer_area(*final(buf)) == buffer_area(*old(buf)),
        rows_drawn(
            buffer_cells(*old(buf)),
            buffer_cells(*final(buf)),
            buffer_area(*old(buf)),
            area,
            visible(row_views(rows@), area),
        ),
{
    let ghost all = row_views(rows@);
    let ghost shown = visible(all, area);
    let ghost within = buffer_area(*old(buf));
    let ghost old_cells = buffer_cells(*old(buf));
    proof {
        assert(ascii_rows(old_cells, within, area, seq![]) =~= old_cells);
    }
    if area.width == 0 {
        return 0;
    }
    let count: u16 = if rows.len() < area.height as usize {
        rows.len() as u16
    } else {
        area.height
    };
    let mut i: u16 = 0;
    proof {
        assert(shown.take(0) =~= seq![]);
    }
    while i < count
        invariant
            i <= count,
            count == shown.len(),
            shown == visible(all, area),
            all == row_views(rows@),
            area.width > 0,
            rows_fit(old_cells, within, area, shown),
            within == buffer_area(*old(buf)),
            old_cells == buffer_cells(*old(buf)),
            buffer_area(*buf) == within,
            rows_drawn(old_cells, buffer_cells(*buf), within, area, shown.take(i as int)),
        decreases count - i,
    {
        let ghost upto = shown.take(i as int);
        let ghost next = shown.take(i + 1);
        proof {
            assert(shown[i as int] == all[i as int]);
            assert(nth_row_fits(old_cells, within, area, shown, i as int));
            assert(next.drop_last() =~= upto);
            assert(next.last() == shown[i as int]);
        }
        print_row(buf, area.x, area.y + i, rows[i as usize].0.as_str(), area.width, rows[i as usize].1);
        proof {
            let new_cells = buffer_cells(*buf);
            if rows_printable(next) {
                assert(rows_printable(upto)) by {
                    assert forall|k: int| 0 <= k < upto.len() implies printable(
                        (#[trigger] upto[k]).0,
                    ) by {
                        assert(upto[k] == next[k]);
                    }
                }
                assert(printable(next[i as int].0));
                assert(new_cells =~= ascii_rows(old_cells, within, area, next));
            }
        }
        i = i + 1;
    }
    proof {
        assert(shown.take(count as int) =~= shown);
    }
    count
}

/// Drawing no rows changes nothing.
pub(crate) proof fn lemma_no_rows(cells: Cells, within: Rect, area: Rect)
    ensures
        rows_drawn(cells, cells, within, area, seq![]),
{
    assert(ascii_rows(cells, within, area, seq![]) =~= cells);
}

/// Whether rows fit depends on which cells there are, not on what they hold.
pub(crate) proof fn lemma_fit_same_dom(
    cells: Cells,
    others: Cells,
    within: Rect,
    area: Rect,
    rows: Seq<Row>,
)
    requires
        rows_fit(cells, within, area, rows),
        cells.dom() == others.dom(),
    ensures
        rows_fit(others, within, area, rows),
{
    assert forall|i: int| 0 <= i < rows.len() implies #[trigger] nth_row_fits(
        others,
        within,
        area,
        rows,
        i,
    ) by {
        assert(nth_row_fits(cells, within, area, rows, i));
        let y = (area.y + i) as u16;
        assert forall|px: u16|
            rows[i].0.len() > 0 && area.x <= px < within.right() && px - area.x
                < area.width as nat implies #[trigger] others.contains_key((px, y)) by {
            assert(cells.contains_key((px, y)));
            assert(cells.dom().contains((px, y)));
            assert(others.dom().contains((px, y)));
        }
    }
}

/// Rows drawn inside a border leave the border as it is.
pub proof fn content_keeps_the_border(
    cells: Cells,
    framed: Cells,
    after: Cells,
    within: Rect,
    area: Rect,
    title: Seq<char>,
    rows: Seq<Row>,
)
    requires
        area.width >= 2,
        area.height >= 2,
        whole(cells, within),
        lies_in(area, within),
        framed.dom() == cells.dom(),
        border_shown(cells, framed, area, title),
        rows.len() <= inside(area).height,
        rows_drawn(framed, after, within, inside(area), rows),
    ensures
        border_shown(cells, after, area, title),
{
    assert forall|x: u16, y: u16|
        #![trigger after[(x, y)]]
        on_border(area, x, y) implies after[(x, y)] == framed[(x, y)] by {
        assert(within.holds(x, y));
        assert(cells.contains_key((x, y)));
        assert(framed.dom().contains((x, y)));
        assert(framed.contains_key((x, y)));
    }
}

/// An area that lies in a buffer is not cut off by it.
pub(crate) proof fn lemma_clip_inside(area: Rect, within: Rect)
    requires
        lies_in(area, within),
    ensures
        area.clip(within) == area,
{
}

/// Rows in the style that changes nothing.
pub open spec fn plain_rows(rows: Seq<Seq<char>>) -> Seq<Row> {
    rows.map_values(|row: Seq<char>| (row, plain()))
}

/// Write unstyled rows from the top of an area; rows beyond its height are left
/// out. Gives the number of rows written.
pub(crate) fn draw_plain_rows(area: Rect, rows: &Vec<String>, buf: &mut Buffer) -> (drawn: u16)
    requires
        rows_fit(
            buffer_cells(*old(buf)),
            buffer_area(*old(buf)),
            area,
            visible(plain_rows(texts(rows@)), area),
        ),
    ensures
        drawn == visible(plain_rows(texts(rows@)), area).len(),
        buffer_area(*final(buf)) == buffer_area(*old(buf)),
        rows_drawn(
            buffer_cells(*old(buf)),
            buffer_cells(*final(buf)),
            buffer_area(*old(buf)),
            area,
            visible(plain_rows(texts(rows@)), area),
        ),
{
    let mut styled_rows: Vec<(String, Style)> = Vec::new();
    let mut i: usize = 0;
    while i < rows.len()
        invariant
            i <= rows@.len(),
            styled_rows@.len() == i,
            forall|k: int|
                0 <= k < i ==> (#[trigger] styled_rows@[k]).0@ == rows@[k]@ && styled_rows@[k].1
                    == plain(),
        decreases rows@.len() - i,
    {
        styled_rows.push((rows[i].clone(), Style::default()));
        i = i + 1;
    }
    proof {
        assert(row_views(styled_rows@) =~= plain_rows(texts(rows@)));
    }
    draw_rows(area, &styled_rows, buf)
}

/// As many rows are shown as an area has room for, from the first on.
pub proof fn rows_are_shown_from_the_top(rows: Seq<Row>, area: Rect)
    ensures
        area.width == 0 || area.height == 0 ==> visible(rows, area).len() == 0,
        area.width > 0 && rows.len() <= area.height ==> visible(rows, area) == rows,
        area.width > 0 && rows.len() > area.height ==> visible(rows, area).len() == area.height,
        forall|i: int|
            0 <= i < visible(rows, area).len() ==> (#[trigger] visible(rows, area)[i]) == rows[i],
{
    if rows.len() == area.height {
        assert(rows.take(area.height as int) =~= rows);
    }
}

/// Rows of printable ASCII characters stand one below the other from the top left
/// corner of an area, each character in a cell of its own, in the colours and
/// attributes of its row; what lies beyond a row's text stays as it was.
pub proof fn ascii_rows_stand_where_they_belong(
    old_cells: Cells,
    new_cells: Cells,
    within: Rect,
    area: Rect,
    rows: Seq<Row>,
    i: int,
    j: int,
)
    requires
        rows_drawn(old_cells, new_cells, within, area, rows),
        rows_printable(rows),
        0 <= i < rows.len(),
        0 <= j < area.width,
        area.x + j < within.right(),
        area.y + i <= u16::MAX,
        old_cells.contains_key(((area.x + j) as u16, (area.y + i) as u16)),
    ensures
        ({
            let at = ((area.x + j) as u16, (area.y + i) as u16);
            &&& j < rows[i].0.len() ==> new_cells[at].symbol == seq![rows[i].0[j]]
            &&& j < rows[i].0.len() && rows[i].1.fg is Some ==> new_cells[at].fg
                == rows[i].1.fg->0
            &&& j < rows[i].0.len() && rows[i].1.fg is None ==> new_cells[at].fg == old_cells[at].fg
            &&& j >= rows[i].0.len() ==> new_cells[at] == old_cells[at]
        }),
{
}

/// Rows written one character to a cell stand one below the other from the top left
/// corner of an area; colours and attributes stay.
pub proof fn characters_stand_where_they_belong(
    cells: Cells,
    area: Rect,
    rows: Seq<Seq<char>>,
    i: int,
    j: int,
)
    requires
        0 <= i,
        0 <= j,
        area.x + j <= u16::MAX,
        area.y + i <= u16::MAX,
        cells.contains_key(((area.x + j) as u16, (area.y + i) as u16)),
    ensures
        ({
            let at = ((area.x + j) as u16, (area.y + i) as u16);
            let after = char_rows(cells, area, rows)[at];
            &&& i < rows.len() && j < area.width && j < rows[i].len() ==> after == (CellView {
                symbol: seq![rows[i][j]],
                ..cells[at]
            })
            &&& i >= rows.len() || j >= area.width || j >= rows[i].len() ==> after == cells[at]
        }),
{
}

/// What lies inside a border is what lies in the area and not on its outline.
pub proof fn the_inside_is_all_but_the_border(area: Rect, x: u16, y: u16)
    requires
        area.width >= 2,
        area.height >= 2,
        area.x + area.width <= u16::MAX,
        area.y + area.height <= u16::MAX,
    ensures
        inside(area).holds(x, y) <==> area.holds(x, y) && !on_border(area, x, y),
{
}

/// A rectangle that is cut by another is what lies in both.
pub proof fn a_clip_is_what_both_hold(a: Rect, b: Rect, x: u16, y: u16)
    ensures
        a.clip(b).holds(x, y) <==> a.holds(x, y) && b.holds(x, y),
{
}

} // verus!
