//! The mathematical model of a terminal screen.
//!
//! A screen buffer is a rectangle of cells in row-major order, a cursor and a
//! drawing style. Every operation of the terminal is a function from one
//! buffer to the next; the executable code is proved equal to these functions.

use crate::text;
use crate::width;
use vstd::prelude::*;

verus! {

/// Largest number of cells that one screen buffer may hold.
pub const MAX_SCREEN_CELLS: usize = 1_000_000;

/// A terminal colour.
#[derive(Clone, Copy, Debug, PartialEq, Eq, Structural)]
pub enum Color {
    Default,
    Indexed(u8),
    Rgb(u8, u8, u8),
}

/// The drawing attributes of a cell.
#[derive(Clone, Copy, Debug, PartialEq, Eq, Structural)]
pub struct Style {
    pub foreground: Color,
    pub background: Color,
    pub bold: bool,
    pub italic: bool,
    pub underline: bool,
    pub inverse: bool,
}

impl Style {
    /// The style of a screen on which nothing was selected.
    pub open spec fn plain() -> Style {
        Style {
            foreground: Color::Default,
            background: Color::Default,
            bold: false,
            italic: false,
            underline: false,
            inverse: false,
        }
    }
}

impl Default for Color {
    fn default() -> (color: Color)
        ensures
            color == Color::Default,
    {
        Color::Default
    }
}

impl Default for Style {
    fn default() -> (style: Style)
        ensures
            style == Style::plain(),
    {
        Style {
            foreground: Color::Default,
            background: Color::Default,
            bold: false,
            italic: false,
            underline: false,
            inverse: false,
        }
    }
}

/// A rectangle of cells.
#[derive(Clone, Copy, Debug, PartialEq, Eq, Structural)]
pub struct Rect {
    pub col: u16,
    pub row: u16,
    pub width: u16,
    pub height: u16,
}

/// What one cell of the screen shows.
#[verifier::ext_equal]
pub struct CellView {
    pub text: Seq<char>,
    pub style: Style,
    /// True for the trailing column of a wide character.
    pub continuation: bool,
}

impl CellView {
    /// The cell that shows one space in the given style.
    pub open spec fn blank(style: Style) -> CellView {
        CellView { text: seq![' '], style, continuation: false }
    }
}

/// A whole screen buffer.
#[verifier::ext_equal]
pub struct BufferView {
    pub cols: int,
    pub rows: int,
    pub cells: Seq<CellView>,
    pub cursor_col: int,
    pub cursor_row: int,
    pub saved_cursor: (int, int),
    pub style: Style,
    pub pending_wrap: bool,
    pub last_printed: Option<int>,
}

/// True for dimensions of which a buffer can be made.
pub open spec fn valid_dimensions(cols: int, rows: int) -> bool {
    &&& 0 < cols <= u16::MAX
    &&& 0 < rows <= u16::MAX
    &&& cols * rows <= MAX_SCREEN_CELLS
}

pub open spec fn at_most(value: int, limit: int) -> int {
    if value <= limit {
        value
    } else {
        limit
    }
}

/// Saturating subtraction from zero upwards.
pub open spec fn less(value: int, amount: int) -> int {
    if value <= amount {
        0
    } else {
        value - amount
    }
}

impl BufferView {
    /// The empty buffer.
    pub open spec fn empty(cols: int, rows: int) -> BufferView {
        BufferView {
            cols,
            rows,
            cells: Seq::new((cols * rows) as nat, |i: int| CellView::blank(Style::plain())),
            cursor_col: 0,
            cursor_row: 0,
            saved_cursor: (0, 0),
            style: Style::plain(),
            pending_wrap: false,
            last_printed: None,
        }
    }

    /// Position of a cell in `cells`.
    pub open spec fn at(self, col: int, row: int) -> int {
        row * self.cols + col
    }

    pub open spec fn in_bounds(self, col: int, row: int) -> bool {
        0 <= col < self.cols && 0 <= row < self.rows
    }

    pub open spec fn cursor(self) -> int {
        self.at(self.cursor_col, self.cursor_row)
    }

    /// Position `i` holds the trailing half of a wide character.
    pub open spec fn trailing(self, i: int) -> bool {
        0 <= i < self.cells.len() && self.cells[i].continuation
    }

    /// Trailing halves stand right behind a leading half on the same row, and
    /// hold no text of their own.
    pub open spec fn paired(self) -> bool {
        forall|i: int|
            #![trigger self.trailing(i)]
            self.trailing(i) ==> {
                &&& i % self.cols > 0
                &&& !self.trailing(i - 1)
                &&& self.cells[i].text.len() == 0
            }
    }

    /// What holds of every buffer.
    pub open spec fn wf(self) -> bool {
        &&& valid_dimensions(self.cols, self.rows)
        &&& self.cells.len() == self.cols * self.rows
        &&& self.in_bounds(self.cursor_col, self.cursor_row)
        &&& self.in_bounds(self.saved_cursor.0, self.saved_cursor.1)
        &&& self.paired()
        &&& match self.last_printed {
            Some(i) => 0 <= i < self.cells.len() && !self.trailing(i),
            None => true,
        }
    }

    /// Position `i` holds the leading half of a wide character: its text begins
    /// with a character of two columns.
    pub open spec fn leading(self, i: int) -> bool {
        &&& 0 <= i < self.cells.len()
        &&& !self.cells[i].continuation
        &&& self.cells[i].text.len() > 0
        &&& width::columns_of(self.cells[i].text[0]) == 2
    }

    /// Every leading half has its trailing half right behind it and the other
    /// way round, and every other cell shows something.
    pub open spec fn whole(self) -> bool {
        forall|i: int|
            #![trigger self.leading(i)]
            0 <= i < self.cells.len() ==> {
                &&& self.leading(i) == self.trailing(i + 1)
                &&& self.trailing(i) || self.cells[i].text.len() > 0
            }
    }

    /// The row at the top leaves; a blank row in the current style comes in at
    /// the bottom.
    pub open spec fn scrolled(self) -> BufferView {
        BufferView {
            cells: self.cells.skip(self.cols) + Seq::new(
                self.cols as nat,
                |i: int| CellView::blank(self.style),
            ),
            last_printed: None,
            ..self
        }
    }

    /// The cursor moves down one row, and the screen scrolls at the bottom.
    pub open spec fn line_fed(self) -> BufferView {
        let b = BufferView { pending_wrap: false, last_printed: None, ..self };
        if self.cursor_row + 1 >= self.rows {
            b.scrolled()
        } else {
            BufferView { cursor_row: self.cursor_row + 1, ..b }
        }
    }

    /// A line feed that starts at the first column.
    pub open spec fn newlined(self) -> BufferView {
        BufferView { cursor_col: 0, ..self }.line_fed()
    }

    /// First position of the glyph that covers position `i`.
    pub open spec fn glyph_start(self, i: int) -> int {
        if self.trailing(i) {
            i - 1
        } else {
            i
        }
    }

    /// Position behind the glyph that covers position `i`.
    pub open spec fn glyph_end(self, i: int) -> int {
        if self.trailing(i + 1) {
            i + 2
        } else {
            i + 1
        }
    }

    /// Every cell from `start` up to `end` is blank in the current style, and
    /// no combining mark attaches to a cell that went.
    pub open spec fn blanked(self, start: int, end: int) -> BufferView {
        BufferView {
            cells: Seq::new(
                self.cells.len(),
                |i: int|
                    if start <= i < end {
                        CellView::blank(self.style)
                    } else {
                        self.cells[i]
                    },
            ),
            last_printed: match self.last_printed {
                Some(i) => if start <= i < end {
                    None
                } else {
                    Some(i)
                },
                None => None,
            },
            ..self
        }
    }

    /// A wide glyph that covers position `i` goes as a whole; a narrow one
    /// stays.
    pub open spec fn without_wide_glyph(self, i: int) -> BufferView {
        if self.glyph_start(i) + 1 == self.glyph_end(i) {
            self
        } else {
            self.blanked(self.glyph_start(i), self.glyph_end(i))
        }
    }

    /// The cells from `start` up to `end` are erased, with the wide glyphs that
    /// reach across either end.
    pub open spec fn erased(self, start: int, end: int) -> BufferView {
        self.blanked(
            if start < end {
                self.glyph_start(start)
            } else {
                start
            },
            if self.trailing(end) {
                end + 1
            } else {
                end
            },
        )
    }

    /// The glyph `ch` of `width` columns stands at the cursor, in the current
    /// style, and the cursor has moved past it. Wide glyphs that it covers in
    /// part are gone.
    pub open spec fn placed(self, ch: char, width: int) -> BufferView {
        let i = self.cursor();
        let cleared = if width == 2 {
            self.without_wide_glyph(i).without_wide_glyph(i + 1)
        } else {
            self.without_wide_glyph(i)
        };
        let lead = CellView { text: seq![ch], style: self.style, continuation: false };
        let trail = CellView { text: seq![], style: self.style, continuation: true };
        let next = self.cursor_col + width;
        BufferView {
            cells: if width == 2 {
                cleared.cells.update(i, lead).update(i + 1, trail)
            } else {
                cleared.cells.update(i, lead)
            },
            last_printed: Some(i),
            cursor_col: at_most(next, self.cols - 1),
            pending_wrap: self.pending_wrap || next >= self.cols,
            ..self
        }
    }

    /// A character of `width` columns is printed. One without a width joins the
    /// cell that was printed last, if there is one. A character wider than the
    /// screen is replaced by U+FFFD. A glyph that does not fit into the row any
    /// more goes to the next one.
    pub open spec fn printed(self, ch: char, width: int) -> BufferView {
        if width == 0 {
            match self.last_printed {
                Some(i) => BufferView {
                    cells: self.cells.update(
                        i,
                        CellView { text: self.cells[i].text.push(ch), ..self.cells[i] },
                    ),
                    ..self
                },
                None => self,
            }
        } else {
            let fits = width <= self.cols;
            let shown = if fits { ch } else { width::REPLACEMENT };
            let columns = if fits { width } else { 1 };
            let wraps = self.pending_wrap || (columns == 2 && self.cursor_col + 1 >= self.cols);
            if wraps {
                self.newlined().placed(shown, columns)
            } else {
                self.placed(shown, columns)
            }
        }
    }

    /// Whether printing a character of `width` columns counts as a change.
    pub open spec fn print_changes(self, width: int) -> bool {
        width != 0 || self.last_printed is Some
    }

    /// The next column that is a multiple of eight, or the last one.
    pub open spec fn tab_stop(self) -> int {
        at_most((self.cursor_col / 8 + 1) * 8, self.cols - 1)
    }

    /// The cursor is at `col` of its row, and nothing waits to wrap or combine.
    pub open spec fn moved_to(self, col: int, row: int) -> BufferView {
        BufferView {
            cursor_col: col,
            cursor_row: row,
            pending_wrap: false,
            last_printed: None,
            ..self
        }
    }

    /// Effect of a C0 control byte.
    pub open spec fn executed(self, byte: u8) -> BufferView {
        if byte == 0x0a || byte == 0x0b || byte == 0x0c {
            self.line_fed()
        } else if byte == 0x0d {
            self.moved_to(0, self.cursor_row)
        } else if byte == 0x08 {
            self.moved_to(less(self.cursor_col, 1), self.cursor_row)
        } else if byte == 0x09 {
            self.moved_to(self.tab_stop(), self.cursor_row)
        } else {
            self
        }
    }

    /// Whether a C0 control byte counts as a change: a line feed always does,
    /// the others when they move the cursor or drop a pending wrap.
    pub open spec fn execute_changes(self, byte: u8) -> bool {
        byte == 0x0a || byte == 0x0b || byte == 0x0c || self.cursor_differs(self.executed(byte))
    }

    pub open spec fn cursor_differs(self, other: BufferView) -> bool {
        ||| self.cursor_col != other.cursor_col
        ||| self.cursor_row != other.cursor_row
        ||| self.pending_wrap != other.pending_wrap
    }

    /// Effect of an escape sequence with the final byte `byte`.
    pub open spec fn escaped(self, byte: u8) -> BufferView {
        if byte == 0x37 {
            BufferView { saved_cursor: (self.cursor_col, self.cursor_row), ..self }
        } else if byte == 0x38 {
            self.moved_to(self.saved_cursor.0, self.saved_cursor.1)
        } else if byte == 0x44 {
            self.line_fed()
        } else if byte == 0x45 {
            self.newlined()
        } else if byte == 0x63 {
            BufferView::empty(self.cols, self.rows)
        } else {
            self
        }
    }

    /// Whether an escape sequence counts as a change.
    pub open spec fn escape_changes(self, byte: u8) -> bool {
        if byte == 0x38 {
            self.cursor_differs(self.escaped(byte))
        } else if byte == 0x63 {
            self != self.escaped(byte)
        } else {
            byte == 0x44 || byte == 0x45
        }
    }

    /// Effect of erasing in the display: to the end, from the start, or all.
    pub open spec fn display_erased(self, mode: u16) -> BufferView {
        if mode == 2 || mode == 3 {
            self.erased(0, self.cells.len() as int)
        } else if mode == 0 {
            self.erased(self.cursor(), self.cells.len() as int)
        } else if mode == 1 {
            self.erased(0, self.cursor() + 1)
        } else {
            self
        }
    }

    /// Effect of erasing in the cursor's row: to the end, from the start, or all.
    pub open spec fn line_erased(self, mode: u16) -> BufferView {
        let start = self.at(0, self.cursor_row);
        if mode == 1 {
            self.erased(start, self.cursor() + 1)
        } else if mode == 2 {
            self.erased(start, start + self.cols)
        } else if mode == 0 {
            self.erased(self.cursor(), start + self.cols)
        } else {
            self
        }
    }

    /// Effect of the control sequence with the final character `action`.
    pub open spec fn controlled(self, params: Seq<Seq<u16>>, action: char) -> BufferView {
        let n = parameter(params, 0, 1) as int;
        let right = self.cols - 1;
        let bottom = self.rows - 1;
        if action == 'A' {
            self.moved_to(self.cursor_col, less(self.cursor_row, n))
        } else if action == 'B' {
            self.moved_to(self.cursor_col, at_most(self.cursor_row + n, bottom))
        } else if action == 'C' {
            self.moved_to(at_most(self.cursor_col + n, right), self.cursor_row)
        } else if action == 'D' {
            self.moved_to(less(self.cursor_col, n), self.cursor_row)
        } else if action == 'E' {
            self.moved_to(0, at_most(self.cursor_row + n, bottom))
        } else if action == 'F' {
            self.moved_to(0, less(self.cursor_row, n))
        } else if action == 'G' || action == '`' {
            self.moved_to(at_most(n - 1, right), self.cursor_row)
        } else if action == 'H' || action == 'f' {
            self.moved_to(
                at_most(parameter(params, 1, 1) - 1, right),
                at_most(n - 1, bottom),
            )
        } else if action == 'J' && parameter(params, 0, 0) <= 3 {
            self.moved_to(self.cursor_col, self.cursor_row).display_erased(
                parameter(params, 0, 0),
            )
        } else if action == 'K' && parameter(params, 0, 0) <= 2 {
            self.moved_to(self.cursor_col, self.cursor_row).line_erased(parameter(params, 0, 0))
        } else if action == 'm' {
            BufferView { style: restyled(self.style, style_codes(params), 0), ..self }
        } else if action == 's' {
            BufferView { saved_cursor: (self.cursor_col, self.cursor_row), ..self }
        } else if action == 'u' {
            self.moved_to(self.saved_cursor.0, self.saved_cursor.1)
        } else {
            self
        }
    }

    /// Whether a control sequence counts as a change: when a cell, the cursor, a
    /// pending wrap or the style is another one afterwards.
    pub open spec fn control_changes(self, params: Seq<Seq<u16>>, action: char) -> bool {
        let after = self.controlled(params, action);
        ||| self.cells != after.cells
        ||| self.cursor_differs(after)
        ||| self.style != after.style
    }

    /// Whether the cell at `col`, `row` outlives a change of the dimensions, when
    /// `cols` columns are kept: all do, but for a leading half whose trailing half
    /// is cut off.
    pub open spec fn outlives(self, col: int, row: int, cols: int) -> bool {
        self.trailing(self.at(col, row) + 1) ==> col + 1 < cols
    }

    /// The cell at `col`, `row` after a change to `cols` columns.
    pub open spec fn carried(self, cols: int, col: int, row: int) -> CellView {
        let kept = at_most(self.cols, cols);
        if col < kept && row < self.rows && self.outlives(col, row, kept) {
            self.cells[self.at(col, row)]
        } else {
            CellView::blank(Style::plain())
        }
    }

    /// The buffer has new dimensions. What lies in both rectangles stays where it
    /// was, the cursor is moved inside, and the saved cursor is forgotten.
    pub open spec fn resized(self, cols: int, rows: int) -> BufferView {
        let cells = Seq::new(
            (cols * rows) as nat,
            |i: int| self.carried(cols, i % cols, i / cols),
        );
        BufferView {
            cols,
            rows,
            cells,
            cursor_col: at_most(self.cursor_col, cols - 1),
            cursor_row: at_most(self.cursor_row, rows - 1),
            saved_cursor: (0, 0),
            style: self.style,
            pending_wrap: self.pending_wrap,
            last_printed: match self.last_printed {
                Some(i) => {
                    let col = i % self.cols;
                    let row = i / self.cols;
                    let target = row * cols + col;
                    if col < cols && row < rows && !cells[target].continuation && cells[target]
                        != CellView::blank(Style::plain()) {
                        Some(target)
                    } else {
                        None
                    }
                },
                None => None,
            },
        }
    }

    /// The rectangle that `region` still covers; the whole buffer for `None`.
    pub open spec fn clip(self, region: Option<Rect>) -> Rect {
        match region {
            None => Rect { col: 0, row: 0, width: self.cols as u16, height: self.rows as u16 },
            Some(r) => {
                let col = at_most(r.col as int, self.cols);
                let row = at_most(r.row as int, self.rows);
                Rect {
                    col: col as u16,
                    row: row as u16,
                    width: at_most(r.width as int, self.cols - col) as u16,
                    height: at_most(r.height as int, self.rows - row) as u16,
                }
            },
        }
    }

    /// Whether `rect`, counted from the corner of `parent`, lies inside it and
    /// holds a cell.
    pub open spec fn holds(self, parent: Option<Rect>, rect: Rect) -> bool {
        let outer = self.clip(parent);
        &&& rect.width > 0
        &&& rect.height > 0
        &&& rect.col + rect.width <= outer.width
        &&& rect.row + rect.height <= outer.height
    }

    /// The rectangle `rect` of `parent`, counted from the corner of the buffer.
    pub open spec fn absolute(self, parent: Option<Rect>, rect: Rect) -> Rect {
        let outer = self.clip(parent);
        Rect {
            col: (outer.col + rect.col) as u16,
            row: (outer.row + rect.row) as u16,
            width: rect.width,
            height: rect.height,
        }
    }

    /// The cell at a column and a row of a region.
    pub open spec fn cell_in(self, region: Option<Rect>, col: int, row: int) -> Option<CellView> {
        let rect = self.clip(region);
        if col < rect.width && row < rect.height {
            Some(self.cells[self.at(rect.col + col, rect.row + row)])
        } else {
            None
        }
    }

    /// What column `col` of row `row` of the rectangle adds to the row's text. A
    /// glyph that the rectangle cuts in half shows as a space.
    pub open spec fn shown(self, rect: Rect, col: int, row: int) -> Seq<char> {
        let cell = self.cells[self.at(rect.col + col, rect.row + row)];
        if cell.continuation {
            if col == 0 {
                seq![' ']
            } else {
                seq![]
            }
        } else if width::columns_of_text(cell.text) > rect.width - col {
            seq![' ']
        } else {
            cell.text
        }
    }

    /// Text of the first `count` columns of a row of the rectangle.
    pub open spec fn shown_until(self, rect: Rect, row: int, count: int) -> Seq<char>
        decreases count,
    {
        if count <= 0 {
            seq![]
        } else {
            self.shown_until(rect, row, count - 1) + self.shown(rect, count - 1, row)
        }
    }

    /// The rows of a region as text, with or without the spaces at their ends.
    pub open spec fn lines(self, region: Option<Rect>, preserve_width: bool) -> Seq<Seq<char>> {
        let rect = self.clip(region);
        Seq::new(
            rect.height as nat,
            |row: int|
                {
                    let line = self.shown_until(rect, row, rect.width as int);
                    if preserve_width {
                        line
                    } else {
                        text::strip_end(line, ' ')
                    }
                },
        )
    }
}

/// The first number of parameter `i`; zero and a missing number stand for
/// `default`.
pub open spec fn parameter(params: Seq<Seq<u16>>, i: int, default: u16) -> u16 {
    if i < params.len() && params[i].len() > 0 && params[i][0] != 0 {
        params[i][0]
    } else {
        default
    }
}

/// Those of the first `count` parameters that hold a number.
pub open spec fn numbered(params: Seq<Seq<u16>>, count: int) -> Seq<Seq<u16>>
    decreases count,
{
    if count <= 0 {
        seq![]
    } else if params[count - 1].len() > 0 {
        numbered(params, count - 1).push(params[count - 1])
    } else {
        numbered(params, count - 1)
    }
}

/// The codes of a style sequence: the first number of each parameter. A sequence
/// without any means a reset.
pub open spec fn style_codes(params: Seq<Seq<u16>>) -> Seq<Seq<u16>> {
    let codes = numbered(params, params.len() as int);
    if codes.len() == 0 {
        seq![seq![0u16]]
    } else {
        codes
    }
}

/// A colour for the foreground (code 38) or the background (code 48).
pub open spec fn recolored(style: Style, code: u16, color: Color) -> Style {
    if code == 38 {
        Style { foreground: color, ..style }
    } else {
        Style { background: color, ..style }
    }
}

/// Effect of a style code that stands alone.
pub open spec fn restyled_by(style: Style, code: u16) -> Style {
    if code == 0 {
        Style::plain()
    } else if code == 1 || code == 22 {
        Style { bold: code == 1, ..style }
    } else if code == 3 || code == 23 {
        Style { italic: code == 3, ..style }
    } else if code == 4 || code == 24 {
        Style { underline: code == 4, ..style }
    } else if code == 7 || code == 27 {
        Style { inverse: code == 7, ..style }
    } else if 30 <= code <= 37 {
        Style { foreground: Color::Indexed((code - 30) as u8), ..style }
    } else if code == 39 {
        Style { foreground: Color::Default, ..style }
    } else if 40 <= code <= 47 {
        Style { background: Color::Indexed((code - 40) as u8), ..style }
    } else if code == 49 {
        Style { background: Color::Default, ..style }
    } else if 90 <= code <= 97 {
        Style { foreground: Color::Indexed((code - 90 + 8) as u8), ..style }
    } else if 100 <= code <= 107 {
        Style { background: Color::Indexed((code - 100 + 8) as u8), ..style }
    } else {
        style
    }
}

pub open spec fn starts_color(code: u16) -> bool {
    code == 38 || code == 48
}

/// Effect of the style codes from position `i` on. The codes 38 and 48 take
/// their colour from the codes behind them: `5` and an index, or `2` and three
/// components. A colour with a number above 255 is skipped. One that is cut
/// short, or of another kind, is dropped with what stands behind it; one whose
/// parameter holds further numbers is dropped alone.
pub open spec fn restyled(style: Style, codes: Seq<Seq<u16>>, i: int) -> Style
    decreases codes.len() - i,
{
    if i >= codes.len() {
        style
    } else if !starts_color(codes[i][0]) {
        restyled(restyled_by(style, codes[i][0]), codes, i + 1)
    } else if codes[i].len() > 1 {
        restyled(style, codes, i + 1)
    } else if i + 2 < codes.len() && codes[i + 1][0] == 5 {
        let index = codes[i + 2][0];
        restyled(
            if index <= 255 {
                recolored(style, codes[i][0], Color::Indexed(index as u8))
            } else {
                style
            },
            codes,
            i + 3,
        )
    } else if i + 4 < codes.len() && codes[i + 1][0] == 2 {
        let (red, green, blue) = (codes[i + 2][0], codes[i + 3][0], codes[i + 4][0]);
        restyled(
            if red <= 255 && green <= 255 && blue <= 255 {
                recolored(style, codes[i][0], Color::Rgb(red as u8, green as u8, blue as u8))
            } else {
                style
            },
            codes,
            i + 5,
        )
    } else {
        style
    }
}

/// One step of the terminal, as the escape-sequence parser reports it.
#[verifier::ext_equal]
pub enum EventView {
    Print(char),
    Execute(u8),
    /// A control sequence. It is malformed where more was sent than fits into it.
    Csi { params: Seq<Seq<u16>>, intermediates: Seq<u8>, malformed: bool, action: char },
    /// An escape sequence, malformed in the same way or not.
    Esc { intermediates: Seq<u8>, malformed: bool, byte: u8 },
}

/// The primary buffer, the alternate one while it is shown, and the number of
/// changes so far.
#[verifier::ext_equal]
pub struct ScreenView {
    pub primary: BufferView,
    pub alternate: Option<BufferView>,
    pub version: u64,
}

impl ScreenView {
    pub open spec fn wf(self) -> bool {
        &&& self.primary.wf()
        &&& self.alternate matches Some(b) ==> {
            &&& b.wf()
            &&& b.cols == self.primary.cols
            &&& b.rows == self.primary.rows
        }
    }

    /// Every wide character of either buffer is whole.
    pub open spec fn whole(self) -> bool {
        &&& self.primary.whole()
        &&& self.alternate matches Some(b) ==> b.whole()
    }

    /// The screen that was just made.
    pub open spec fn fresh(cols: int, rows: int) -> ScreenView {
        ScreenView { primary: BufferView::empty(cols, rows), alternate: None, version: 0 }
    }

    /// The buffer that is shown.
    pub open spec fn active(self) -> BufferView {
        match self.alternate {
            Some(b) => b,
            None => self.primary,
        }
    }

    pub open spec fn with_active(self, buffer: BufferView) -> ScreenView {
        match self.alternate {
            Some(_) => ScreenView { alternate: Some(buffer), ..self },
            None => ScreenView { primary: buffer, ..self },
        }
    }

    /// The same screen, one change later.
    pub open spec fn touched(self) -> ScreenView {
        ScreenView {
            version: if self.version == u64::MAX {
                0
            } else {
                (self.version + 1) as u64
            },
            ..self
        }
    }

    pub open spec fn touched_if(self, changed: bool) -> ScreenView {
        if changed {
            self.touched()
        } else {
            self
        }
    }

    /// Effect of one event. A sequence that is malformed, or that has a private
    /// marker or an intermediate byte, is another one than the plain sequence, and
    /// does nothing; the only such sequences with an effect are those that switch
    /// the buffer.
    pub open spec fn after(self, event: EventView) -> ScreenView {
        let b = self.active();
        match event {
            EventView::Print(ch) => {
                let columns = width::columns_of(ch);
                self.with_active(b.printed(ch, columns)).touched_if(b.print_changes(columns))
            },
            EventView::Execute(byte) => self.with_active(b.executed(byte)).touched_if(
                b.execute_changes(byte),
            ),
            EventView::Csi { params, intermediates, malformed, action } => if malformed {
                self
            } else if switches_buffer(params, intermediates, action) {
                self.switched(action == 'h')
            } else if intermediates.len() > 0 {
                self
            } else {
                self.with_active(b.controlled(params, action)).touched_if(
                    b.control_changes(params, action),
                )
            },
            EventView::Esc { intermediates, malformed, byte } => if malformed
                || intermediates.len() > 0 {
                self
            } else {
                self.with_active(b.escaped(byte)).touched_if(b.escape_changes(byte))
            },
        }
    }

    /// Effect of the sequence that enters or leaves the alternate buffer. It
    /// does nothing where that buffer is shown already, or not shown.
    pub open spec fn switched(self, enter: bool) -> ScreenView {
        if enter == (self.alternate is Some) {
            self
        } else if enter {
            ScreenView {
                alternate: Some(BufferView::empty(self.primary.cols, self.primary.rows)),
                ..self
            }.touched()
        } else {
            ScreenView { alternate: None, ..self }.touched()
        }
    }

    /// Effect of the first `count` events.
    pub open spec fn after_first(self, events: Seq<EventView>, count: int) -> ScreenView
        decreases count,
    {
        if count <= 0 {
            self
        } else {
            self.after_first(events, count - 1).after(events[count - 1])
        }
    }

    /// Effect of all events, one after the other.
    pub open spec fn after_all(self, events: Seq<EventView>) -> ScreenView {
        self.after_first(events, events.len() as int)
    }

    /// Both buffers have new dimensions.
    pub open spec fn resized(self, cols: int, rows: int) -> ScreenView {
        if self.primary.cols == cols && self.primary.rows == rows {
            self
        } else {
            ScreenView {
                primary: self.primary.resized(cols, rows),
                alternate: match self.alternate {
                    Some(b) => Some(b.resized(cols, rows)),
                    None => None,
                },
                ..self
            }.touched()
        }
    }
}

/// True for the private mode sequences that set or reset mode 1049.
pub open spec fn switches_buffer(
    params: Seq<Seq<u16>>,
    intermediates: Seq<u8>,
    action: char,
) -> bool {
    &&& intermediates == seq![0x3fu8]
    &&& action == 'h' || action == 'l'
    &&& parameter(params, 0, 0) == 1049
}

} // verus!
