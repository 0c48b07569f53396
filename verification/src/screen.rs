//! A pane of the terminal and the writer that lays text out inside it.
//!
//! Nothing here touches a terminal. Every drawing function appends
//! [`Span`]s to a list; the characters of a span go into consecutive cells
//! of one row.

use crate::geometry::lemma_place_on_screen_fits;
use crate::geometry::Bounds;
use crate::geometry::Fraction;
use crate::geometry::Pair;
use crate::geometry::Point;
use crate::geometry::Rect;
use crate::geometry::ScreenSide;
use crate::item::Item;
use crate::item::ItemView;
use vstd::prelude::*;
use vstd::std_specs::iter::IteratorSpec;
use vstd::string::*;

verus! {

/// How a run of text is to be rendered.
#[derive(Debug, Clone, Copy, PartialEq, Eq, Structural)]
pub enum Style {
    /// The terminal's default look.
    Plain,
    /// The bold, tinted icon of an entry that is not chosen.
    Icon,
    /// The bold, tinted icon of a chosen entry.
    ChosenIcon,
    /// The text of the entry under the highlight.
    Highlight,
}

/// A run of text to put on the terminal, starting at row `y`, column `x`.
#[derive(Debug)]
pub struct Span {
    pub y: i32,
    pub x: i32,
    pub text: String,
    pub style: Style,
}

/// One character in one cell of the terminal.
pub struct Cell {
    pub y: int,
    pub x: int,
    pub glyph: char,
    pub style: Style,
}

impl Span {
    /// The cells that the span fills, left to right.
    pub open spec fn cells(self) -> Seq<Cell> {
        row_cells(Point { y: self.y as int, x: self.x as int }, self.text@, self.style)
    }
}

/// The character of `text` at position `i`.
pub open spec fn glyph_at(text: Seq<char>, i: int) -> char {
    text[i]
}

/// The cells that `text` fills from `start` rightwards.
pub open spec fn row_cells(start: Point, text: Seq<char>, style: Style) -> Seq<Cell>
    decreases text.len(),
{
    if text.len() == 0 {
        Seq::empty()
    } else {
        row_cells(start, text.drop_last(), style).push(
            Cell {
                y: start.y,
                x: start.x + text.len() - 1,
                glyph: glyph_at(text, text.len() - 1),
                style,
            },
        )
    }
}

/// One more character fills the next cell to the right.
pub proof fn lemma_row_cells_push(start: Point, text: Seq<char>, glyph: char, style: Style)
    ensures
        row_cells(start, text.push(glyph), style) == row_cells(start, text, style).push(
            Cell { y: start.y, x: start.x + text.len(), glyph, style },
        ),
{
    assert(text.push(glyph).drop_last() =~= text);
}

/// Each character of `text` fills one cell: the one as far right of `start`
/// as the character stands in the text.
pub proof fn lemma_row_cells_index(start: Point, text: Seq<char>, style: Style)
    ensures
        row_cells(start, text, style).len() == text.len(),
        forall|i: int|
            0 <= i < text.len() ==> #[trigger] row_cells(start, text, style)[i] == (Cell {
                y: start.y,
                x: start.x + i,
                glyph: glyph_at(text, i),
                style,
            }),
    decreases text.len(),
{
    if text.len() > 0 {
        lemma_row_cells_index(start, text.drop_last(), style);
    }
}

/// The cells that a list of spans fills, in the order in which they are
/// drawn.
pub open spec fn cells_of(spans: Seq<Span>) -> Seq<Cell>
    decreases spans.len(),
{
    if spans.len() == 0 {
        Seq::empty()
    } else {
        cells_of(spans.drop_last()) + spans.last().cells()
    }
}

/// Drawing one more span adds its cells behind those drawn before.
pub proof fn lemma_cells_of_push(spans: Seq<Span>, span: Span)
    ensures
        cells_of(spans.push(span)) == cells_of(spans) + span.cells(),
{
    assert(spans.push(span).drop_last() =~= spans);
}

/// What a piece of writing leaves behind: the cells it filled and the place
/// of the cursor after it.
pub struct Written {
    pub cells: Seq<Cell>,
    pub pos: Point,
}

/// Writing `text` into `region` with the cursor at `pos`.
///
/// Character by character: once the cursor's row has reached the bottom edge
/// the rest of the text is dropped. A line feed moves the cursor to the left
/// edge of the next row. Any other character first wraps to the left edge of
/// the next row if the cursor has reached the right edge; it is dropped
/// with the rest of the text if that row is the bottom edge or the region
/// has no column for it; otherwise it fills the cell under the cursor, and
/// the cursor moves one column right.
pub open spec fn laid_out(region: Rect, pos: Point, text: Seq<char>, style: Style) -> Written
    decreases text.len(),
{
    if text.len() == 0 || pos.y >= region.max.y {
        Written { cells: Seq::empty(), pos }
    } else if text[0] == '\n' {
        laid_out(region, Point { y: pos.y + 1, x: region.min.x }, text.drop_first(), style)
    } else {
        let at = wrapped(region, pos);
        if at.y >= region.max.y || at.x >= region.max.x {
            Written { cells: Seq::empty(), pos: at }
        } else {
            let next = Point { y: at.y, x: at.x + 1 };
            let rest = laid_out(region, next, text.drop_first(), style);
            let cell = Cell { y: at.y, x: at.x, glyph: glyph_at(text, 0), style };
            Written { cells: seq![cell] + rest.cells, pos: rest.pos }
        }
    }
}

/// The cursor, moved to the left edge of the next row if it has reached the
/// right edge of `region`.
pub open spec fn wrapped(region: Rect, pos: Point) -> Point {
    if pos.x >= region.max.x {
        Point { y: pos.y + 1, x: region.min.x }
    } else {
        pos
    }
}

/// The cursor after skipping `n` rows: at the left edge, `n` rows down but
/// not below the bottom edge. A cursor that has reached the bottom edge
/// stays, and so does any cursor when `n` is not positive.
pub open spec fn skipped(region: Rect, pos: Point, n: int) -> Point {
    if pos.y >= region.max.y || n <= 0 {
        pos
    } else if pos.y + n >= region.max.y {
        Point { y: region.max.y, x: region.min.x }
    } else {
        Point { y: pos.y + n, x: region.min.x }
    }
}

/// How many cells lie between the cursor and the end of `region`, row after
/// row: none once the cursor's row has reached the bottom edge.
pub open spec fn room(region: Rect, pos: Point) -> int {
    if pos.y >= region.max.y {
        0
    } else {
        (region.max.y - pos.y) * region.width() - (pos.x - region.min.x)
    }
}

/// Text without line feeds wraps exactly at the right edge and loses no
/// character until the bottom edge is reached.
///
/// In a region with at least one column and with the cursor between its
/// left and right edge, the writer fills as many cells as the text has
/// characters, or as there is room for if that is less; the rest is
/// dropped. The cell of index `k` holds the character of index `k`, inside
/// the region, exactly `k` cells behind the cursor counted row by row.
pub proof fn lemma_write_fills_rows(region: Rect, pos: Point, text: Seq<char>, style: Style)
    requires
        region.min.x < region.max.x,
        region.min.x <= pos.x <= region.max.x,
        forall|i: int| 0 <= i < text.len() ==> text[i] != '\n',
    ensures
        room(region, pos) >= 0,
        laid_out(region, pos, text, style).cells.len() == if text.len() <= room(region, pos) {
            text.len() as int
        } else {
            room(region, pos)
        },
        forall|k: int|
            0 <= k < laid_out(region, pos, text, style).cells.len() ==> {
                let cell = #[trigger] laid_out(region, pos, text, style).cells[k];
                &&& cell.glyph == text[k]
                &&& cell.style == style
                &&& region.min.x <= cell.x < region.max.x
                &&& pos.y <= cell.y < region.max.y
                &&& (cell.y - pos.y) * region.width() + (cell.x - region.min.x) == (pos.x
                    - region.min.x) + k
            },
    decreases text.len(),
{
    let width = region.width();
    let rows = region.max.y - pos.y;
    if pos.y < region.max.y {
        assert(rows * width >= width) by (nonlinear_arith)
            requires
                rows >= 1,
                width >= 1,
        ;
    }
    if text.len() == 0 || pos.y >= region.max.y {
    } else {
        let at = wrapped(region, pos);
        let tail = text.drop_first();
        assert forall|i: int| 0 <= i < tail.len() implies tail[i] != '\n' by {
            assert(tail[i] == text[i + 1]);
        }
        assert((rows - 1) * width == rows * width - width) by (nonlinear_arith);
        if at.y >= region.max.y {
        } else {
            let next = Point { y: at.y, x: at.x + 1 };
            lemma_write_fills_rows(region, next, tail, style);
            let rest = laid_out(region, next, tail, style);
            let all = laid_out(region, pos, text, style);
            assert(all.cells == seq![
                Cell { y: at.y, x: at.x, glyph: glyph_at(text, 0), style },
            ] + rest.cells);
            assert(room(region, next) == room(region, pos) - 1);
            assert forall|k: int| 0 <= k < all.cells.len() implies {
                let cell = #[trigger] all.cells[k];
                &&& cell.glyph == text[k]
                &&& cell.style == style
                &&& region.min.x <= cell.x < region.max.x
                &&& pos.y <= cell.y < region.max.y
                &&& (cell.y - pos.y) * region.width() + (cell.x - region.min.x) == (pos.x
                    - region.min.x) + k
            } by {
                let cell = all.cells[k];
                if k == 0 {
                    assert((at.y - pos.y) * width + (at.x - region.min.x) == pos.x - region.min.x)
                        by (nonlinear_arith)
                        requires
                            at.y == pos.y && at.x == pos.x || at.y == pos.y + 1 && at.x
                                == region.min.x && pos.x == region.min.x + width,
                    ;
                } else {
                    assert(cell == rest.cells[k - 1]);
                    assert(tail[k - 1] == text[k]);
                    assert((cell.y - pos.y) * width == (cell.y - at.y) * width + (at.y - pos.y)
                        * width) by (nonlinear_arith);
                    assert((at.y - pos.y) * width + (at.x - region.min.x) == pos.x - region.min.x)
                        by (nonlinear_arith)
                        requires
                            at.y == pos.y && at.x == pos.x || at.y == pos.y + 1 && at.x
                                == region.min.x && pos.x == region.min.x + width,
                    ;
                }
            }
        }
    }
}

/// `count` copies of `glyph` in a row.
pub open spec fn run_of(glyph: char, count: nat) -> Seq<char>
    decreases count,
{
    if count == 0 {
        Seq::empty()
    } else {
        run_of(glyph, (count - 1) as nat).push(glyph)
    }
}

/// Drawing one entry of the menu into `region` with the cursor at `pos`:
/// its icon and a space in the icon's style, its text, highlighted or
/// plain, and then the cursor skips to the next row.
pub open spec fn item_written(
    region: Rect,
    pos: Point,
    item: ItemView,
    highlight: bool,
) -> Written {
    let icon_style = if item.chosen {
        Style::ChosenIcon
    } else {
        Style::Icon
    };
    let text_style = if highlight {
        Style::Highlight
    } else {
        Style::Plain
    };
    let icon = laid_out(region, pos, item.shown_icon(), icon_style);
    let gap = laid_out(region, icon.pos, seq![' '], icon_style);
    let text = laid_out(region, gap.pos, item.repr, text_style);
    Written { cells: icon.cells + gap.cells + text.cells, pos: skipped(region, text.pos, 1) }
}

/// The label that a box carries when it is given none.
pub open spec fn default_label() -> Seq<char> {
    seq![' ', 'p', 'r', 'e', 'v', 'i', 'e', 'w', ' ']
}

/// The text in the top border of a box: the label, or the default label.
pub open spec fn label_text(label: Option<String>) -> Seq<char> {
    match label {
        Some(text) => text@,
        None => default_label(),
    }
}

/// How many columns `frame` has; none if its corners are out of order.
pub open spec fn box_width(frame: Rect) -> nat {
    if frame.max.x > frame.min.x {
        (frame.max.x - frame.min.x) as nat
    } else {
        0
    }
}

/// How many line glyphs stand between `taken` characters and the two
/// corners of a border line of `frame`: what is left of the width, or none.
pub open spec fn box_fill(frame: Rect, taken: nat) -> nat {
    if box_width(frame) >= taken + 2 {
        (box_width(frame) - taken - 2) as nat
    } else {
        0
    }
}

/// The top border of `frame`, written into `region` from the frame's
/// top-left corner: a corner, the label, line glyphs for the rest of the
/// width, a corner.
pub open spec fn box_top(region: Rect, frame: Rect, label: Seq<char>) -> Written {
    let corner = laid_out(region, frame.min, seq!['┌'], Style::Plain);
    let name = laid_out(region, corner.pos, label, Style::Plain);
    let fill = run_of('─', box_fill(frame, label.len()));
    let line = laid_out(region, name.pos, fill, Style::Plain);
    let end = laid_out(region, line.pos, seq!['┐'], Style::Plain);
    Written { cells: corner.cells + name.cells + line.cells + end.cells, pos: end.pos }
}

/// The bottom border of `frame`, written into `region` from the left end of
/// the frame's last row.
pub open spec fn box_bottom(region: Rect, frame: Rect) -> Written {
    let start = Point { y: frame.max.y - 1, x: frame.min.x };
    let corner = laid_out(region, start, seq!['└'], Style::Plain);
    let line = laid_out(region, corner.pos, run_of('─', box_fill(frame, 0)), Style::Plain);
    let end = laid_out(region, line.pos, seq!['┘'], Style::Plain);
    Written { cells: corner.cells + line.cells + end.cells, pos: end.pos }
}

/// The left and right border of `frame` in the first `rows` rows below its
/// top row, row by row.
pub open spec fn box_sides(frame: Rect, rows: int) -> Seq<Cell>
    decreases rows,
{
    if rows <= 0 {
        Seq::empty()
    } else {
        box_sides(frame, rows - 1) + seq![
            Cell { y: frame.min.y + rows, x: frame.min.x, glyph: '│', style: Style::Plain },
            Cell { y: frame.min.y + rows, x: frame.max.x - 1, glyph: '│', style: Style::Plain },
        ]
    }
}

/// A box along the edges of `frame`, drawn through the writer of `region`.
///
/// The top border is written first. A frame without rows gets no more than
/// that. Otherwise the sides follow, put straight into their cells in every
/// row below the first if the frame has a column, and then the bottom
/// border, which is written over the sides in the frame's last row.
pub open spec fn box_written(region: Rect, frame: Rect, label: Seq<char>) -> Written {
    let top = box_top(region, frame, label);
    if frame.min.y < frame.max.y {
        let sides = if frame.min.x < frame.max.x {
            box_sides(frame, frame.height() - 1)
        } else {
            Seq::empty()
        };
        let bottom = box_bottom(region, frame);
        Written { cells: top.cells + sides + bottom.cells, pos: bottom.pos }
    } else {
        top
    }
}

/// `String::push` of the standard library. Trusted: the string afterwards is
/// the string before with the character appended.
pub assume_specification[ String::push ](text: &mut String, glyph: char)
    ensures
        final(text)@ == old(text)@.push(glyph),
;

/// An offset as a rectangle; no offset moves nothing.
pub open spec fn offset_rect(offset: Option<Bounds>) -> Rect {
    match offset {
        Some(by) => by@,
        None => Rect::screen(Point { y: 0, x: 0 }),
    }
}

/// Whether `offset` can be applied to `placed`: the moved corners can be
/// stored.
pub fn offset_applies(placed: Bounds, offset: Option<Bounds>) -> (ok: bool)
    ensures
        ok == placed@.shifted(offset_rect(offset)).fits(),
{
    match offset {
        Some(by) => placed.can_shift(by),
        None => true,
    }
}

/// A pane of the terminal with a cursor inside it.
///
/// `placed` is where the side and the width put the pane on the terminal as
/// it was last measured; `bounds` is where text goes, which is `placed`
/// moved by `bounds_offset` once the offset has been applied.
#[derive(Debug, Clone, Copy)]
pub struct Screen {
    pub placed: Bounds,
    pub bounds: Bounds,
    pub bounds_offset: Option<Bounds>,
    pub pos: Pair,
    pub items_on_screen: usize,
    pub side: ScreenSide,
    pub width: Fraction,
}

impl Screen {
    /// The width is a share of the screen in `(0, 1]`.
    pub open spec fn wf(self) -> bool {
        self.width.is_width()
    }

    /// The offset as a rectangle; no offset moves nothing.
    pub open spec fn offset(self) -> Rect {
        offset_rect(self.bounds_offset)
    }

    /// Where the pane lies on a terminal of the given size, before the
    /// offset.
    pub open spec fn pane(self, size: Point) -> Rect {
        self.side.place(Rect::screen(size), self.width)
    }

    /// Whether the offset can be applied: the moved corners can be stored.
    pub open spec fn offset_fits(self) -> bool {
        self.placed@.shifted(self.offset()).fits()
    }

    /// Whether the offset can be applied on a terminal of the given size.
    pub open spec fn offset_fits_on(self, size: Point) -> bool {
        self.pane(size).shifted(self.offset()).fits()
    }

    /// A pane at the given side and of the given width on a terminal that
    /// has not been measured: everything else is zero.
    pub open spec fn blank(side: ScreenSide, width: Fraction) -> Screen {
        Screen {
            placed: Bounds(Pair { y: 0, x: 0 }, Pair { y: 0, x: 0 }),
            bounds: Bounds(Pair { y: 0, x: 0 }, Pair { y: 0, x: 0 }),
            bounds_offset: None,
            pos: Pair { y: 0, x: 0 },
            items_on_screen: 0,
            side,
            width,
        }
    }

    /// The pane placed on a terminal of the given size, without the offset.
    pub open spec fn erased(self, size: Point) -> Screen {
        Screen { placed: self.pane(size).stored(), bounds: self.pane(size).stored(), ..self }
    }

    /// The pane with its offset applied to where it was placed.
    pub open spec fn inset(self) -> Screen {
        Screen { bounds: self.placed@.shifted(self.offset()).stored(), ..self }
    }

    /// The pane placed on a terminal of the given size, with the offset
    /// applied.
    pub open spec fn shown(self, size: Point) -> Screen {
        self.erased(size).inset()
    }

    /// The pane with its offset applied, the cursor in its top-left corner
    /// and no entry counted.
    pub open spec fn rewound(self) -> Screen {
        Screen { pos: self.inset().bounds.0, items_on_screen: 0, ..self.inset() }
    }

    /// A pane at the given side, of the given width, on a terminal that has
    /// not been measured yet.
    pub fn new(side: ScreenSide, width: Fraction) -> (screen: Screen)
        requires
            width.is_width(),
        ensures
            screen == Screen::blank(side, width),
            screen.wf(),
    {
        Screen {
            placed: Bounds::zeroed(),
            bounds: Bounds::zeroed(),
            bounds_offset: None,
            pos: Pair::zeroed(),
            items_on_screen: 0,
            side,
            width,
        }
    }

    /// Moves the pane to another side and gives it another width. The pane
    /// lies there once the terminal is measured again.
    pub fn set_pos(&mut self, new_side: ScreenSide, width: Fraction)
        requires
            width.is_width(),
        ensures
            *final(self) == (Screen { side: new_side, width, ..*old(self) }),
            final(self).wf(),
    {
        self.side = new_side;
        self.width = width;
    }

    /// Places the pane on a terminal of the given size, without the offset.
    pub fn erase(&mut self, size: Pair)
        requires
            old(self).wf(),
        ensures
            *final(self) == old(self).erased(size@),
            final(self).placed@ == old(self).pane(size@),
            final(self).bounds@ == old(self).pane(size@),
    {
        proof {
            lemma_place_on_screen_fits(size, self.side, self.width);
        }
        self.placed = self.side.get_bounds(Bounds::screen(size), self.width);
        self.bounds = self.placed;
    }

    /// Sets the bounds to the placed pane moved by the offset.
    pub fn offset_bounds(&mut self)
        requires
            old(self).offset_fits(),
        ensures
            *final(self) == old(self).inset(),
            final(self).bounds@ == old(self).placed@.shifted(old(self).offset()),
    {
        match &self.bounds_offset {
            Some(offset) => {
                self.bounds = self.placed.shifted(*offset);
            },
            None => {
                self.bounds = self.placed;
            },
        }
    }

    /// Whether [`Screen::offset_bounds`] can be called.
    pub fn can_offset(&self) -> (ok: bool)
        ensures
            ok == self.offset_fits(),
    {
        offset_applies(self.placed, self.bounds_offset)
    }

    /// Where the pane lies on a terminal of the given size, before the
    /// offset.
    pub fn pane_on(&self, size: Pair) -> (pane: Bounds)
        requires
            self.wf(),
        ensures
            pane@ == self.pane(size@),
    {
        proof {
            lemma_place_on_screen_fits(size, self.side, self.width);
        }
        self.side.get_bounds(Bounds::screen(size), self.width)
    }

    /// Whether [`Screen::show`] can be called for a terminal of the given
    /// size.
    pub fn can_show(&self, size: Pair) -> (ok: bool)
        requires
            self.wf(),
        ensures
            ok == self.offset_fits_on(size@),
    {
        offset_applies(self.pane_on(size), self.bounds_offset)
    }

    /// Places the pane on a terminal of the given size and applies the
    /// offset.
    pub fn show(&mut self, size: Pair)
        requires
            old(self).wf(),
            old(self).offset_fits_on(size@),
        ensures
            *final(self) == old(self).shown(size@),
            final(self).placed@ == old(self).pane(size@),
            final(self).bounds@ == old(self).pane(size@).shifted(old(self).offset()),
    {
        self.erase(size);
        self.offset_bounds();
    }

    /// Places the pane again after the terminal has been redrawn: the same
    /// as [`Screen::show`].
    pub fn refresh(&mut self, size: Pair)
        requires
            old(self).wf(),
            old(self).offset_fits_on(size@),
        ensures
            *final(self) == old(self).shown(size@),
            final(self).placed@ == old(self).pane(size@),
            final(self).bounds@ == old(self).pane(size@).shifted(old(self).offset()),
    {
        self.show(size);
    }

    /// The bottom edge as a number of rows; none if it lies above the
    /// terminal.
    pub open spec fn rows(self) -> int {
        if self.bounds.1.y < 0 {
            0
        } else {
            self.bounds.1.y as int
        }
    }

    /// The right edge as a number of columns; none if it lies left of the
    /// terminal.
    pub open spec fn columns(self) -> int {
        if self.bounds.1.x < 0 {
            0
        } else {
            self.bounds.1.x as int
        }
    }

    /// The bottom edge as a number of rows; none if it lies above the
    /// terminal.
    pub fn max_y(&self) -> (rows: usize)
        ensures
            rows == self.rows(),
    {
        if self.bounds.1.y < 0 {
            0
        } else {
            self.bounds.1.y as usize
        }
    }

    /// The right edge as a number of columns; none if it lies left of the
    /// terminal.
    pub fn max_x(&self) -> (columns: usize)
        ensures
            columns == self.columns(),
    {
        if self.bounds.1.x < 0 {
            0
        } else {
            self.bounds.1.x as usize
        }
    }

    /// Applies the offset, puts the cursor into the top-left corner and
    /// starts counting entries anew.
    pub fn reset_pos(&mut self)
        requires
            old(self).offset_fits(),
        ensures
            *final(self) == old(self).rewound(),
            final(self).bounds@ == old(self).placed@.shifted(old(self).offset()),
            final(self).pos == final(self).bounds.0,
    {
        self.offset_bounds();
        self.pos.y = self.bounds.0.y;
        self.pos.x = self.bounds.0.x;
        self.items_on_screen = 0;
    }

    /// Draws `s` at the cursor as one span and moves the cursor behind it.
    pub fn addstr_clean(&mut self, s: String, style: Style, out: &mut Vec<Span>)
        requires
            old(self).pos.x + s@.len() <= i32::MAX,
        ensures
            final(out)@ == old(out)@.push(
                Span { y: old(self).pos.y, x: old(self).pos.x, text: s, style },
            ),
            final(self).pos.y == old(self).pos.y,
            final(self).pos.x == old(self).pos.x + s@.len(),
            *final(self) == (Screen { pos: final(self).pos, ..*old(self) }),
    {
        let len: usize = s.as_str().unicode_len();
        out.push(Span { y: self.pos.y, x: self.pos.x, text: s, style });
        self.pos.x = (self.pos.x as i64 + len as i64) as i32;
    }

    /// Writes `s` at the cursor: wrapped at the right edge, cut off at the
    /// bottom edge.
    pub fn addstr(&mut self, s: &str, style: Style, out: &mut Vec<Span>)
        ensures
            cells_of(final(out)@) == cells_of(old(out)@) + laid_out(
                old(self).bounds@,
                old(self).pos@,
                s@,
                style,
            ).cells,
            final(self).pos@ == laid_out(old(self).bounds@, old(self).pos@, s@, style).pos,
            *final(self) == (Screen { pos: final(self).pos, ..*old(self) }),
    {
        let left: i32 = self.bounds.0.x;
        let right: i32 = self.bounds.1.x;
        let bottom: i32 = self.bounds.1.y;
        let ghost region = self.bounds@;
        let ghost goal = laid_out(region, self.pos@, s@, style);
        let ghost before = cells_of(out@);
        let ghost mut drawn: Seq<Cell> = Seq::empty();
        let ghost mut done: int = 0;
        let mut curr_string = String::new();
        let mut column: i32 = self.pos.x;
        let mut chars = s.chars();
        proof {
            broadcast use vstd::string::group_string_axioms;

            assert(s@.skip(0) =~= s@);
            assert(before + drawn =~= before);
            assert(goal.cells =~= drawn + row_cells(self.pos@, curr_string@, style) + goal.cells);
        }
        loop
            invariant_except_break
                chars.remaining() == s@.skip(done),
                goal.cells == drawn + row_cells(self.pos@, curr_string@, style) + laid_out(
                    region,
                    Point { y: self.pos.y as int, x: column as int },
                    s@.skip(done),
                    style,
                ).cells,
                goal.pos == laid_out(
                    region,
                    Point { y: self.pos.y as int, x: column as int },
                    s@.skip(done),
                    style,
                ).pos,
            invariant
                0 <= done <= s@.len(),
                self.bounds@ == region,
                left == region.min.x,
                right == region.max.x,
                bottom == region.max.y,
                *self == (Screen { pos: self.pos, ..*old(self) }),
                column == self.pos.x + curr_string@.len(),
                curr_string@.len() > 0 ==> self.pos.y < bottom && column <= right,
                cells_of(out@) == before + drawn,
            ensures
                goal.cells == drawn + row_cells(self.pos@, curr_string@, style),
                goal.pos == (Point { y: self.pos.y as int, x: column as int }),
            decreases s@.len() - done,
        {
            let ghost here = Point { y: self.pos.y as int, x: column as int };
            let ghost rest = s@.skip(done);
            let next = chars.next();
            proof {
                broadcast use vstd::string::group_string_axioms;

            }
            match next {
                None => {
                    assert(rest.len() == 0);
                    break;
                },
                Some(c) => {
                    proof {
                        assert(rest.len() > 0);
                        assert(rest[0] == c);
                        assert(rest.drop_first() =~= s@.skip(done + 1));
                    }
                    if self.pos.y >= bottom {
                        break;
                    }
                    if c == '\n' {
                        proof {
                            lemma_cells_of_push(
                                out@,
                                Span { y: self.pos.y, x: self.pos.x, text: curr_string, style },
                            );
                            drawn = drawn + row_cells(self.pos@, curr_string@, style);
                        }
                        self.addstr_clean(curr_string, style, out);
                        curr_string = String::new();
                        self.pos.y = self.pos.y + 1;
                        self.pos.x = left;
                        column = left;
                        proof {
                            done = done + 1;
                            assert(cells_of(out@) =~= before + drawn);
                            let ahead = laid_out(
                                region,
                                Point { y: self.pos.y as int, x: column as int },
                                s@.skip(done),
                                style,
                            );
                            assert(goal.cells =~= drawn + row_cells(self.pos@, curr_string@, style)
                                + ahead.cells);
                        }
                        continue;
                    }
                    if column >= right {
                        proof {
                            lemma_cells_of_push(
                                out@,
                                Span { y: self.pos.y, x: self.pos.x, text: curr_string, style },
                            );
                            drawn = drawn + row_cells(self.pos@, curr_string@, style);
                        }
                        self.addstr_clean(curr_string, style, out);
                        curr_string = String::new();
                        self.pos.y = self.pos.y + 1;
                        self.pos.x = left;
                        column = left;
                        proof {
                            assert(cells_of(out@) =~= before + drawn);
                            let at = Point { y: self.pos.y as int, x: column as int };
                            assert(wrapped(region, here) == at);
                        }
                        if self.pos.y >= bottom || column >= right {
                            proof {
                                let held = row_cells(self.pos@, curr_string@, style);
                                assert(goal.cells =~= drawn + held);
                            }
                            break;
                        }
                    }
                    let ghost at = Point { y: self.pos.y as int, x: column as int };
                    let ghost held = row_cells(self.pos@, curr_string@, style);
                    let ghost text = curr_string@;
                    proof {
                        assert(wrapped(region, here) == at);
                    }
                    curr_string.push(c);
                    column = column + 1;
                    proof {
                        done = done + 1;
                        lemma_row_cells_push(self.pos@, text, c, style);
                        assert(row_cells(self.pos@, curr_string@, style) =~= held + seq![
                            Cell { y: at.y, x: at.x, glyph: c, style },
                        ]);
                        let ahead = laid_out(
                            region,
                            Point { y: self.pos.y as int, x: column as int },
                            s@.skip(done),
                            style,
                        );
                        assert(laid_out(region, here, rest, style).cells == seq![
                            Cell { y: at.y, x: at.x, glyph: c, style },
                        ] + ahead.cells);
                        assert(goal.cells =~= drawn + row_cells(self.pos@, curr_string@, style)
                            + ahead.cells);
                    }
                },
            }
        }
        proof {
            let last = Span { y: self.pos.y, x: self.pos.x, text: curr_string, style };
            lemma_cells_of_push(out@, last);
            assert(cells_of(out@.push(last)) =~= before + goal.cells);
        }
        self.addstr_clean(curr_string, style, out);
    }

    /// Writes one character at the cursor, as [`Screen::addstr`] writes a
    /// text of that one character.
    pub fn addch(&mut self, c: char, style: Style, out: &mut Vec<Span>)
        ensures
            cells_of(final(out)@) == cells_of(old(out)@) + laid_out(
                old(self).bounds@,
                old(self).pos@,
                seq![c],
                style,
            ).cells,
            final(self).pos@ == laid_out(old(self).bounds@, old(self).pos@, seq![c], style).pos,
            *final(self) == (Screen { pos: final(self).pos, ..*old(self) }),
    {
        let mut text = String::new();
        text.push(c);
        assert(text@ =~= seq![c]);
        self.addstr(text.as_str(), style, out);
    }

    /// Moves the cursor `n` rows down, but not below the bottom edge, and to
    /// the left edge.
    pub fn skiplines(&mut self, n: i32)
        ensures
            final(self).pos@ == skipped(old(self).bounds@, old(self).pos@, n as int),
            *final(self) == (Screen { pos: final(self).pos, ..*old(self) }),
    {
        if self.pos.y >= self.bounds.1.y || n <= 0 {
            return;
        }
        let target: i64 = self.pos.y as i64 + n as i64;
        if target >= self.bounds.1.y as i64 {
            self.pos.y = self.bounds.1.y;
        } else {
            self.pos.y = target as i32;
        }
        self.pos.x = self.bounds.0.x;
    }

    /// Draws `item` at the cursor unless the cursor has reached the bottom
    /// edge, and says whether it did.
    pub fn write_item(&mut self, item: &Item, highlight: bool, out: &mut Vec<Span>) -> (drawn: bool)
        requires
            old(self).items_on_screen < usize::MAX,
        ensures
            drawn == (old(self).pos.y < old(self).bounds.1.y),
            !drawn ==> *final(self) == *old(self) && final(out)@ == old(out)@,
            drawn ==> cells_of(final(out)@) == cells_of(old(out)@) + item_written(
                old(self).bounds@,
                old(self).pos@,
                item@,
                highlight,
            ).cells,
            drawn ==> final(self).pos@ == item_written(
                old(self).bounds@,
                old(self).pos@,
                item@,
                highlight,
            ).pos,
            drawn ==> *final(self) == (Screen {
                pos: final(self).pos,
                items_on_screen: (old(self).items_on_screen + 1) as usize,
                ..*old(self)
            }),
    {
        if self.pos.y >= self.bounds.1.y {
            return false;
        }
        let icon_style = if item.chosen() {
            Style::ChosenIcon
        } else {
            Style::Icon
        };
        let ghost before = cells_of(out@);
        let ghost goal = item_written(self.bounds@, self.pos@, item@, highlight);
        self.addstr(item.icon(), icon_style, out);
        self.addch(' ', icon_style, out);
        let text_style = if highlight {
            Style::Highlight
        } else {
            Style::Plain
        };
        self.addstr(item.string().as_str(), text_style, out);
        self.items_on_screen = self.items_on_screen + 1;
        self.skiplines(1);
        assert(cells_of(out@) =~= before + goal.cells);
        true
    }

    /// Draws a box along the edges of the pane that `side` and `width` carve
    /// out of this pane, with `label` in its top border; without a label
    /// the box is labelled ` preview `.
    pub fn draw_box(
        &mut self,
        side: ScreenSide,
        width: Fraction,
        label: &Option<String>,
        out: &mut Vec<Span>,
    )
        requires
            width.is_width(),
            side.place(old(self).bounds@, width).fits(),
        ensures
            ({
                let frame = side.place(old(self).bounds@, width);
                let drawing = box_written(old(self).bounds@, frame, label_text(*label));
                &&& cells_of(final(out)@) == cells_of(old(out)@) + drawing.cells
                &&& final(self).pos@ == drawing.pos
            }),
            *final(self) == (Screen { pos: final(self).pos, ..*old(self) }),
    {
        let bounds = side.get_bounds(self.bounds, width);
        let ghost region = self.bounds@;
        let ghost before = cells_of(out@);
        let ghost top = box_top(region, bounds@, label_text(*label));
        self.box_top_line(bounds, label, out);
        if bounds.0.y >= bounds.1.y {
            return;
        }
        let ghost sides = if bounds.0.x < bounds.1.x {
            box_sides(bounds@, bounds@.height() - 1)
        } else {
            Seq::empty()
        };
        if bounds.0.x < bounds.1.x {
            box_side_lines(bounds, out);
        }
        assert(cells_of(out@) =~= before + top.cells + sides);
        self.box_bottom_line(bounds, out);
        proof {
            let bottom = box_bottom(region, bounds@);
            assert(cells_of(out@) =~= before + (top.cells + sides + bottom.cells));
        }
    }

    /// Writes the top border of `frame`.
    fn box_top_line(&mut self, frame: Bounds, label: &Option<String>, out: &mut Vec<Span>)
        ensures
            cells_of(final(out)@) == cells_of(old(out)@) + box_top(
                old(self).bounds@,
                frame@,
                label_text(*label),
            ).cells,
            final(self).pos@ == box_top(old(self).bounds@, frame@, label_text(*label)).pos,
            *final(self) == (Screen { pos: final(self).pos, ..*old(self) }),
    {
        let ghost before = cells_of(out@);
        let ghost goal = box_top(self.bounds@, frame@, label_text(*label));
        self.pos.x = frame.0.x;
        self.pos.y = frame.0.y;
        self.addch('┌', Style::Plain, out);
        let label_len: usize = match label {
            Some(label) => {
                self.addstr(label.as_str(), Style::Plain, out);
                label.as_str().unicode_len()
            },
            None => {
                proof {
                    reveal_strlit(" preview ");
                    assert(" preview "@ =~= default_label());
                }
                self.addstr(" preview ", Style::Plain, out);
                9
            },
        };
        let fill = hor_line(fill_of(frame, label_len));
        self.addstr(fill.as_str(), Style::Plain, out);
        self.addch('┐', Style::Plain, out);
        assert(cells_of(out@) =~= before + goal.cells);
    }

    /// Writes the bottom border of `frame`.
    fn box_bottom_line(&mut self, frame: Bounds, out: &mut Vec<Span>)
        requires
            frame.0.y < frame.1.y,
        ensures
            cells_of(final(out)@) == cells_of(old(out)@) + box_bottom(
                old(self).bounds@,
                frame@,
            ).cells,
            final(self).pos@ == box_bottom(old(self).bounds@, frame@).pos,
            *final(self) == (Screen { pos: final(self).pos, ..*old(self) }),
    {
        let ghost before = cells_of(out@);
        let ghost goal = box_bottom(self.bounds@, frame@);
        self.pos.x = frame.0.x;
        self.pos.y = frame.1.y - 1;
        self.addch('└', Style::Plain, out);
        let fill = hor_line(fill_of(frame, 0));
        self.addstr(fill.as_str(), Style::Plain, out);
        self.addch('┘', Style::Plain, out);
        assert(cells_of(out@) =~= before + goal.cells);
    }
}

/// Puts the left and right border of `frame` into every row below its
/// first.
fn box_side_lines(frame: Bounds, out: &mut Vec<Span>)
    requires
        frame.0.x < frame.1.x,
        frame.0.y < frame.1.y,
    ensures
        cells_of(final(out)@) == cells_of(old(out)@) + box_sides(frame@, frame@.height() - 1),
{
    let ghost before = cells_of(out@);
    let ghost mut sides: Seq<Cell> = Seq::empty();
    let mut row: i32 = frame.0.y;
    assert(before + sides =~= before);
    while row < frame.1.y - 1
        invariant
            frame.0.x < frame.1.x,
            frame.0.y <= row < frame.1.y,
            sides == box_sides(frame@, row - frame.0.y),
            cells_of(out@) == before + sides,
        decreases frame.1.y - row,
    {
        row = row + 1;
        let ghost drawn = cells_of(out@);
        let left = Span { y: row, x: frame.0.x, text: vert_line(), style: Style::Plain };
        let right = Span { y: row, x: frame.1.x - 1, text: vert_line(), style: Style::Plain };
        proof {
            lemma_cells_of_push(out@, left);
            lemma_cells_of_push(out@.push(left), right);
            lemma_row_cells_index(
                Point { y: row as int, x: left.x as int },
                left.text@,
                Style::Plain,
            );
            lemma_row_cells_index(
                Point { y: row as int, x: right.x as int },
                right.text@,
                Style::Plain,
            );
            assert(left.cells() + right.cells() =~= seq![
                Cell { y: row as int, x: frame.0.x as int, glyph: '│', style: Style::Plain },
                Cell { y: row as int, x: frame.1.x - 1, glyph: '│', style: Style::Plain },
            ]);
            sides = sides + (left.cells() + right.cells());
            assert(drawn + left.cells() + right.cells() =~= before + sides);
        }
        out.push(left);
        out.push(right);
    }
}

/// How many line glyphs a border line of `frame` holds beside `taken`
/// characters and its two corners.
fn fill_of(frame: Bounds, taken: usize) -> (fill: usize)
    ensures
        fill == box_fill(frame@, taken as nat),
{
    let columns: u64 = if frame.1.x > frame.0.x {
        (frame.1.x as i64 - frame.0.x as i64) as u64
    } else {
        0
    };
    if taken as u128 + 2 <= columns as u128 {
        (columns as u128 - taken as u128 - 2) as usize
    } else {
        0
    }
}

/// A horizontal line of `count` glyphs.
fn hor_line(count: usize) -> (line: String)
    ensures
        line@ == run_of('─', count as nat),
{
    let mut line = String::new();
    let mut made: usize = 0;
    while made < count
        invariant
            made <= count,
            line@ == run_of('─', made as nat),
        decreases count - made,
    {
        line.push('─');
        made = made + 1;
    }
    line
}

/// One glyph of a vertical line.
fn vert_line() -> (line: String)
    ensures
        line@ == seq!['│'],
{
    let mut line = String::new();
    line.push('│');
    assert(line@ =~= seq!['│']);
    line
}




} // verus!






