//! The screen buffer.

use crate::model;
use crate::model::{BufferView, CellView, Color, Rect, Style};
use crate::text;
use crate::upkeep;
use crate::width;
use vstd::prelude::*;

verus! {

/// One cell of the screen.
#[derive(Debug, PartialEq, Eq)]
pub struct Cell {
    pub text: String,
    pub style: Style,
    /// True for the trailing column of a wide character.
    pub continuation: bool,
}

impl View for Cell {
    type V = CellView;

    open spec fn view(&self) -> CellView {
        CellView { text: self.text@, style: self.style, continuation: self.continuation }
    }
}

impl Clone for Cell {
    fn clone(&self) -> (cell: Cell)
        ensures
            cell@ == self@,
    {
        Cell { text: self.text.clone(), style: self.style, continuation: self.continuation }
    }
}

impl Default for Cell {
    fn default() -> (cell: Cell)
        ensures
            cell@ == CellView::blank(Style::plain()),
    {
        Cell::blank(Style::default())
    }
}

/// The text that holds one character.
pub(crate) fn one_char(ch: char) -> (text: String)
    ensures
        text@ == seq![ch],
{
    let mut text = String::new();
    text.push(ch);
    text
}

impl Cell {
    /// The cell that shows one space.
    pub fn blank(style: Style) -> (cell: Cell)
        ensures
            cell@ == CellView::blank(style),
    {
        Cell { text: one_char(' '), style, continuation: false }
    }

    /// Whether two cells show the same.
    fn same(&self, other: &Cell) -> (same: bool)
        ensures
            same == (self@ == other@),
    {
        self.text == other.text && self.style == other.style && self.continuation
            == other.continuation
    }
}

/// Cells in row-major order, a cursor and a drawing style.
#[derive(Debug, PartialEq)]
pub struct Buffer {
    cols: u16,
    rows: u16,
    cells: Vec<Cell>,
    cursor_col: u16,
    cursor_row: u16,
    saved_cursor: (u16, u16),
    style: Style,
    pending_wrap: bool,
    last_printed: Option<usize>,
}

spec fn cells_view(cells: Seq<Cell>) -> Seq<CellView> {
    Seq::new(cells.len(), |i: int| cells[i]@)
}

impl View for Buffer {
    type V = BufferView;

    closed spec fn view(&self) -> BufferView {
        BufferView {
            cols: self.cols as int,
            rows: self.rows as int,
            cells: cells_view(self.cells@),
            cursor_col: self.cursor_col as int,
            cursor_row: self.cursor_row as int,
            saved_cursor: (self.saved_cursor.0 as int, self.saved_cursor.1 as int),
            style: self.style,
            pending_wrap: self.pending_wrap,
            last_printed: match self.last_printed {
                Some(i) => Some(i as int),
                None => None,
            },
        }
    }
}

impl Buffer {
    pub fn new(cols: u16, rows: u16) -> (buffer: Buffer)
        requires
            model::valid_dimensions(cols as int, rows as int),
        ensures
            buffer@ == BufferView::empty(cols as int, rows as int),
            buffer@.wf(),
    {
        let count: usize = cols as usize * rows as usize;
        let mut cells: Vec<Cell> = Vec::new();
        let mut i: usize = 0;
        while i < count
            invariant
                i <= count,
                cells.len() == i,
                forall|k: int| 0 <= k < i ==> cells@[k]@ == CellView::blank(Style::plain()),
            decreases count - i,
        {
            cells.push(Cell::default());
            i = i + 1;
        }
        let buffer = Buffer {
            cols,
            rows,
            cells,
            cursor_col: 0,
            cursor_row: 0,
            saved_cursor: (0, 0),
            style: Style::default(),
            pending_wrap: false,
            last_printed: None,
        };
        assert(buffer@ =~= BufferView::empty(cols as int, rows as int));
        buffer
    }

    pub fn index(&self, col: u16, row: u16) -> (index: Option<usize>)
        requires
            self@.wf(),
        ensures
            index == if self@.in_bounds(col as int, row as int) {
                Some(self@.at(col as int, row as int) as usize)
            } else {
                None
            },
            index matches Some(i) ==> i == self@.at(col as int, row as int) && i
                < self@.cells.len(),
    {
        if col < self.cols && row < self.rows {
            proof {
                upkeep::lemma_position(self.cols as int, self.rows as int, col as int, row as int);
            }
            Some(row as usize * self.cols as usize + col as usize)
        } else {
            None
        }
    }

    /// The row at the top leaves; a blank row in the current style comes in at
    /// the bottom.
    fn scroll_up(&mut self)
        requires
            old(self)@.wf(),
        ensures
            final(self)@ == old(self)@.scrolled(),
            final(self)@.wf(),
    {
        proof {
            upkeep::lemma_scrolled_wf(self@);
            assert(self.cols <= self.cols * self.rows) by (nonlinear_arith)
                requires
                    0 < self.cols,
                    0 < self.rows,
            ;
        }
        let width: usize = self.cols as usize;
        let mut rest = self.cells.split_off(width);
        let mut i: usize = 0;
        let ghost kept = rest@;
        while i < width
            invariant
                i <= width,
                rest@.len() == kept.len() + i,
                forall|k: int| 0 <= k < kept.len() ==> rest@[k]@ == kept[k]@,
                forall|k: int|
                    kept.len() <= k < rest@.len() ==> rest@[k]@ == CellView::blank(self.style),
            decreases width - i,
        {
            rest.push(Cell::blank(self.style));
            i = i + 1;
        }
        self.cells = rest;
        self.last_printed = None;
        proof {
            let after = old(self)@.scrolled();
            assert forall|k: int| 0 <= k < after.cells.len() implies self@.cells[k]
                == after.cells[k] by {
                if k < kept.len() {
                    assert(kept[k] == old(self).cells@[k + width]);
                }
            }
            assert(self@.cells =~= after.cells);
        }
    }

    pub fn line_feed(&mut self)
        requires
            old(self)@.wf(),
        ensures
            final(self)@ == old(self)@.line_fed(),
            final(self)@.wf(),
    {
        proof {
            upkeep::lemma_line_fed_wf(self@);
        }
        self.pending_wrap = false;
        self.last_printed = None;
        if self.cursor_row + 1 >= self.rows {
            proof {
                upkeep::lemma_same_cells_wf(old(self)@, self@);
            }
            self.scroll_up();
        } else {
            self.cursor_row = self.cursor_row + 1;
        }
    }

    pub fn newline(&mut self)
        requires
            old(self)@.wf(),
        ensures
            final(self)@ == old(self)@.newlined(),
            final(self)@.wf(),
    {
        self.cursor_col = 0;
        proof {
            upkeep::lemma_same_cells_wf(old(self)@, self@);
        }
        self.line_feed();
    }

    /// Fills the cells from `start` up to `end` with blanks in the current style.
    fn blank(&mut self, start: usize, end: usize)
        requires
            old(self)@.wf(),
            start <= end <= old(self)@.cells.len(),
        ensures
            final(self)@ == old(self)@.blanked(start as int, end as int),
    {
        if let Some(index) = self.last_printed {
            if start <= index && index < end {
                self.last_printed = None;
            }
        }
        let mut i: usize = start;
        while i < end
            invariant
                start <= i <= end <= self.cells.len(),
                self.cells.len() == old(self).cells.len(),
                *self == (Buffer { cells: self.cells, last_printed: self.last_printed, ..*old(self) }),
                self@.last_printed == old(self)@.blanked(start as int, end as int).last_printed,
                forall|k: int|
                    0 <= k < self.cells.len() ==> #[trigger] self.cells@[k]@ == if start <= k < i {
                        CellView::blank(self.style)
                    } else {
                        old(self).cells@[k]@
                    },
            decreases end - i,
        {
            let cell = Cell::blank(self.style);
            self.cells.set(i, cell);
            i = i + 1;
        }
        assert(self@ =~= old(self)@.blanked(start as int, end as int));
    }

    /// Removes the wide glyph that covers a position, if one does.
    fn clear_wide_glyph_at(&mut self, index: usize)
        requires
            old(self)@.wf(),
            index < old(self)@.cells.len(),
        ensures
            final(self)@ == old(self)@.without_wide_glyph(index as int),
            final(self)@.wf(),
    {
        proof {
            upkeep::lemma_without_wide_glyph_wf(self@, index as int);
            assert(self@.trailing(index as int) ==> !self@.trailing(index - 1));
            assert(0int % self@.cols == 0);
        }
        if self.cells[index].continuation {
            assert(self@.trailing(index as int));
            assert(!self@.trailing(index + 1)) by {
                assert(self@.trailing(index + 1) ==> !self@.trailing((index + 1) - 1));
            }
            self.blank(index - 1, index + 1);
        } else if index + 1 < self.cells.len() && self.cells[index + 1].continuation {
            assert(self@.trailing(index + 1));
            self.blank(index, index + 2);
        }
    }

    /// Erases the cells from `start` up to `end`, and tells whether one of them
    /// was not blank.
    fn erase(&mut self, start: usize, end: usize) -> (changed: bool)
        requires
            old(self)@.wf(),
            start < end <= old(self)@.cells.len(),
        ensures
            final(self)@ == old(self)@.erased(start as int, end as int),
            changed == (final(self)@.cells != old(self)@.cells),
            final(self)@.wf(),
    {
        proof {
            upkeep::lemma_erased_wf(self@, start as int, end as int);
            assert(0int % self@.cols == 0);
            assert(self.cells@[start as int].continuation ==> self@.trailing(start as int));
        }
        let first: usize = if self.cells[start].continuation {
            start - 1
        } else {
            start
        };
        let last: usize = if end < self.cells.len() && self.cells[end].continuation {
            assert(self@.trailing(end as int));
            end + 1
        } else {
            end
        };
        let blank = Cell::blank(self.style);
        let mut changed = false;
        let mut i: usize = first;
        while i < last
            invariant
                first <= i <= last <= self.cells.len(),
                *self == *old(self),
                blank@ == CellView::blank(self.style),
                changed == exists|k: int| first <= k < i && #[trigger] self.cells@[k]@ != blank@,
            decreases last - i,
        {
            if !self.cells[i].same(&blank) {
                changed = true;
            }
            i = i + 1;
        }
        self.blank(first, last);
        proof {
            let before = old(self)@.cells;
            let after = self@.cells;
            if changed {
                let k = choose|k: int|
                    first <= k < last && #[trigger] old(self).cells@[k]@ != blank@;
                assert(before[k] != after[k]);
            } else {
                assert forall|k: int| 0 <= k < before.len() implies before[k] == after[k] by {
                    assert(before[k] == old(self).cells@[k]@);
                }
                assert(before =~= after);
            }
        }
        changed
    }

    /// Puts a glyph at the cursor and moves the cursor past it.
    fn place(&mut self, ch: char, width: usize)
        requires
            old(self)@.wf(),
            0 < width <= old(self)@.cols,
            width == 2 ==> old(self)@.cursor_col + 1 < old(self)@.cols,
        ensures
            final(self)@ == old(self)@.placed(ch, width as int),
            final(self)@.wf(),
    {
        proof {
            upkeep::lemma_placed_wf(self@, ch, width as int);
            upkeep::lemma_position(
                self@.cols,
                self@.rows,
                self@.cursor_col,
                self@.cursor_row,
            );
        }
        let index: usize = self.cursor_row as usize * self.cols as usize + self.cursor_col as usize;
        self.clear_wide_glyph_at(index);
        if width == 2 {
            proof {
                upkeep::lemma_position(
                    self@.cols,
                    self@.rows,
                    self@.cursor_col + 1,
                    self@.cursor_row,
                );
            }
            self.clear_wide_glyph_at(index + 1);
        }
        let ghost cleared = self@;
        self.cells.set(
            index,
            Cell { text: one_char(ch), style: self.style, continuation: false },
        );
        if width == 2 {
            self.cells.set(
                index + 1,
                Cell { text: String::new(), style: self.style, continuation: true },
            );
        }
        self.last_printed = Some(index);
        let left: u16 = self.cols - self.cursor_col;
        if width >= left as usize {
            self.cursor_col = self.cols - 1;
            self.pending_wrap = true;
        } else {
            self.cursor_col = self.cursor_col + width as u16;
        }
        proof {
            let after = old(self)@.placed(ch, width as int);
            assert forall|k: int| 0 <= k < after.cells.len() implies self@.cells[k]
                == after.cells[k] by {
                assert(k != index && !(width == 2 && k == index + 1) ==> self@.cells[k]
                    == cleared.cells[k]);
            }
            assert(self@.cells =~= after.cells);
        }
    }

    /// Prints a character of the given width, and tells whether that changed
    /// anything.
    pub fn print_sized(&mut self, ch: char, width: usize) -> (changed: bool)
        requires
            old(self)@.wf(),
        ensures
            final(self)@ == old(self)@.printed(ch, width as int),
            changed == old(self)@.print_changes(width as int),
            final(self)@.wf(),
    {
        proof {
            upkeep::lemma_printed_wf(self@, ch, width as int);
        }
        if width == 0 {
            return match self.last_printed {
                Some(index) => {
                    let mut cell = self.cells[index].clone();
                    cell.text.push(ch);
                    self.cells.set(index, cell);
                    assert(self@.cells =~= old(self)@.printed(ch, 0).cells);
                    true
                },
                None => false,
            };
        }
        let mut shown = ch;
        let mut columns: usize = width;
        if width > self.cols as usize {
            shown = width::REPLACEMENT;
            columns = 1;
        }
        if self.pending_wrap || (columns == 2 && self.cursor_col + 1 >= self.cols) {
            proof {
                upkeep::lemma_line_fed_wf(self@);
            }
            self.newline();
        }
        self.place(shown, columns);
        true
    }

    /// Prints a character, and tells whether that changed anything.
    pub fn print(&mut self, ch: char) -> (changed: bool)
        requires
            old(self)@.wf(),
        ensures
            final(self)@ == old(self)@.printed(ch, width::columns_of(ch)),
            changed == old(self)@.print_changes(width::columns_of(ch)),
            final(self)@.wf(),
    {
        let columns: usize = match width::char_width(ch) {
            Some(columns) => columns,
            None => 0,
        };
        self.print_sized(ch, columns)
    }

    /// Performs a C0 control byte, and tells whether that changed anything.
    pub fn execute(&mut self, byte: u8) -> (changed: bool)
        requires
            old(self)@.wf(),
        ensures
            final(self)@ == old(self)@.executed(byte),
            changed == old(self)@.execute_changes(byte),
            final(self)@.wf(),
    {
        proof {
            upkeep::lemma_executed_wf(self@, byte);
        }
        if byte == 0x0a || byte == 0x0b || byte == 0x0c {
            self.line_feed();
            return true;
        }
        let col: u16 = if byte == 0x0d {
            0
        } else if byte == 0x08 {
            if self.cursor_col > 0 {
                self.cursor_col - 1
            } else {
                0
            }
        } else if byte == 0x09 {
            let stop: u32 = (self.cursor_col as u32 / 8 + 1) * 8;
            if stop < self.cols as u32 {
                stop as u16
            } else {
                self.cols - 1
            }
        } else {
            return false;
        };
        let changed = self.cursor_col != col || self.pending_wrap;
        self.cursor_col = col;
        self.pending_wrap = false;
        self.last_printed = None;
        changed
    }

    /// Performs an escape sequence, and tells whether that changed anything.
    pub fn escape(&mut self, byte: u8) -> (changed: bool)
        requires
            old(self)@.wf(),
        ensures
            final(self)@ == old(self)@.escaped(byte),
            changed == old(self)@.escape_changes(byte),
            final(self)@.wf(),
    {
        proof {
            upkeep::lemma_escaped_wf(self@, byte);
        }
        if byte == 0x37 {
            self.saved_cursor = (self.cursor_col, self.cursor_row);
            false
        } else if byte == 0x38 {
            let (col, row) = self.saved_cursor;
            let changed = self.cursor_col != col || self.cursor_row != row || self.pending_wrap;
            self.move_to(col, row);
            changed
        } else if byte == 0x44 {
            self.line_feed();
            true
        } else if byte == 0x45 {
            self.newline();
            true
        } else if byte == 0x63 {
            let fresh = Buffer::new(self.cols, self.rows);
            let changed = !self.same(&fresh);
            *self = fresh;
            changed
        } else {
            false
        }
    }

    /// Whether two buffers are the same in everything.
    fn same(&self, other: &Buffer) -> (same: bool)
        ensures
            same == (self@ == other@),
    {
        if self.cols != other.cols || self.rows != other.rows || self.cursor_col != other.cursor_col
            || self.cursor_row != other.cursor_row || self.saved_cursor.0 != other.saved_cursor.0
            || self.saved_cursor.1 != other.saved_cursor.1 || self.style != other.style
            || self.pending_wrap != other.pending_wrap || self.cells.len() != other.cells.len() {
            proof {
                assert(self.cells.len() == self@.cells.len());
                assert(other.cells.len() == other@.cells.len());
            }
            return false;
        }
        let same_target = match (self.last_printed, other.last_printed) {
            (Some(left), Some(right)) => left == right,
            (None, None) => true,
            _ => false,
        };
        if !same_target {
            return false;
        }
        let mut i: usize = 0;
        while i < self.cells.len()
            invariant
                i <= self.cells.len() == other.cells.len(),
                forall|k: int| 0 <= k < i ==> self.cells@[k]@ == other.cells@[k]@,
            decreases self.cells.len() - i,
        {
            if !self.cells[i].same(&other.cells[i]) {
                assert(self@.cells[i as int] != other@.cells[i as int]);
                return false;
            }
            i = i + 1;
        }
        assert(self@.cells =~= other@.cells);
        true
    }

    /// Selects the drawing style by the codes of a style sequence.
    fn set_sgr(&mut self, params: &Vec<Vec<u16>>)
        requires
            old(self)@.wf(),
        ensures
            final(self)@ == (BufferView {
                style: model::restyled(
                    old(self)@.style,
                    model::style_codes(params_view(params@)),
                    0,
                ),
                ..old(self)@
            }),
    {
        let codes = style_codes(params);
        let ghost views = params_view(codes@);
        let mut style = self.style;
        let mut i: usize = 0;
        while i < codes.len()
            invariant_except_break
                model::restyled(style, views, i as int) == model::restyled(
                    old(self).style,
                    views,
                    0,
                ),
            invariant
                i <= codes.len(),
                views == params_view(codes@),
                forall|k: int| 0 <= k < codes@.len() ==> (#[trigger] codes@[k])@.len() > 0,
            ensures
                style == model::restyled(old(self).style, views, 0),
            decreases codes.len() - i,
        {
            let code: u16 = codes[i][0];
            assert(views[i as int] == codes@[i as int]@);
            if code != 38 && code != 48 {
                style = restyle(style, code);
                i = i + 1;
            } else if codes[i].len() > 1 {
                i = i + 1;
            } else if codes.len() - i > 2 && codes[i + 1][0] == 5 {
                let index: u16 = codes[i + 2][0];
                if index <= 255 {
                    style = recolor(style, code, Color::Indexed(index as u8));
                }
                i = i + 3;
            } else if codes.len() - i > 4 && codes[i + 1][0] == 2 {
                let red: u16 = codes[i + 2][0];
                let green: u16 = codes[i + 3][0];
                let blue: u16 = codes[i + 4][0];
                if red <= 255 && green <= 255 && blue <= 255 {
                    style = recolor(style, code, Color::Rgb(red as u8, green as u8, blue as u8));
                }
                i = i + 5;
            } else {
                break;
            }
        }
        self.style = style;
    }

    /// Erases in the display, and tells whether that changed a cell.
    fn erase_display(&mut self, mode: u16) -> (changed: bool)
        requires
            old(self)@.wf(),
        ensures
            final(self)@ == old(self)@.display_erased(mode),
            changed == (final(self)@.cells != old(self)@.cells),
            final(self)@.wf(),
    {
        proof {
            upkeep::lemma_position(
                self@.cols,
                self@.rows,
                self@.cursor_col,
                self@.cursor_row,
            );
        }
        let end: usize = self.cells.len();
        let cursor: usize = self.cursor_row as usize * self.cols as usize + self.cursor_col as usize;
        if mode == 2 || mode == 3 {
            self.erase(0, end)
        } else if mode == 0 {
            self.erase(cursor, end)
        } else if mode == 1 {
            self.erase(0, cursor + 1)
        } else {
            false
        }
    }

    /// Erases in the cursor's row, and tells whether that changed a cell.
    fn erase_line(&mut self, mode: u16) -> (changed: bool)
        requires
            old(self)@.wf(),
        ensures
            final(self)@ == old(self)@.line_erased(mode),
            changed == (final(self)@.cells != old(self)@.cells),
            final(self)@.wf(),
    {
        proof {
            upkeep::lemma_position(
                self@.cols,
                self@.rows,
                self@.cursor_col,
                self@.cursor_row,
            );
        }
        let start: usize = self.cursor_row as usize * self.cols as usize;
        let cursor: usize = start + self.cursor_col as usize;
        let end: usize = start + self.cols as usize;
        if mode == 1 {
            self.erase(start, cursor + 1)
        } else if mode == 2 {
            self.erase(start, end)
        } else if mode == 0 {
            self.erase(cursor, end)
        } else {
            false
        }
    }

    fn move_to(&mut self, col: u16, row: u16)
        requires
            old(self)@.wf(),
            old(self)@.in_bounds(col as int, row as int),
        ensures
            final(self)@ == old(self)@.moved_to(col as int, row as int),
            final(self)@.wf(),
    {
        self.cursor_col = col;
        self.cursor_row = row;
        self.pending_wrap = false;
        self.last_printed = None;
        proof {
            upkeep::lemma_moved_to_wf(old(self)@, col as int, row as int);
        }
    }

    /// Performs a control sequence, and tells whether that changed anything.
    pub fn control(&mut self, params: &Vec<Vec<u16>>, action: char) -> (changed: bool)
        requires
            old(self)@.wf(),
        ensures
            final(self)@ == old(self)@.controlled(params_view(params@), action),
            changed == old(self)@.control_changes(params_view(params@), action),
            final(self)@.wf(),
    {
        proof {
            upkeep::lemma_controlled_wf(self@, params_view(params@), action);
        }
        let (col, row, wrap, style) = (
            self.cursor_col,
            self.cursor_row,
            self.pending_wrap,
            self.style,
        );
        let right: u16 = self.cols - 1;
        let bottom: u16 = self.rows - 1;
        let n: u16 = param(params, 0, 1);
        let mut cells_changed = false;
        if action == 'A' {
            self.move_to(col, back(row, n));
        } else if action == 'B' {
            self.move_to(col, forward(row, n, bottom));
        } else if action == 'C' {
            self.move_to(forward(col, n, right), row);
        } else if action == 'D' {
            self.move_to(back(col, n), row);
        } else if action == 'E' {
            self.move_to(0, forward(row, n, bottom));
        } else if action == 'F' {
            self.move_to(0, back(row, n));
        } else if action == 'G' || action == '`' {
            self.move_to(forward(0, n - 1, right), row);
        } else if action == 'H' || action == 'f' {
            let column: u16 = param(params, 1, 1);
            self.move_to(forward(0, column - 1, right), forward(0, n - 1, bottom));
        } else if action == 'J' && param(params, 0, 0) <= 3 {
            self.move_to(col, row);
            cells_changed = self.erase_display(param(params, 0, 0));
        } else if action == 'K' && param(params, 0, 0) <= 2 {
            self.move_to(col, row);
            cells_changed = self.erase_line(param(params, 0, 0));
        } else if action == 'm' {
            self.set_sgr(params);
        } else if action == 's' {
            self.saved_cursor = (col, row);
        } else if action == 'u' {
            let (saved_col, saved_row) = self.saved_cursor;
            self.move_to(saved_col, saved_row);
        }
        cells_changed || self.cursor_col != col || self.cursor_row != row || self.pending_wrap
            != wrap || self.style != style
    }
}

impl Buffer {
    pub fn cols(&self) -> (cols: u16)
        ensures
            cols == self@.cols,
    {
        self.cols
    }

    pub fn rows(&self) -> (rows: u16)
        ensures
            rows == self@.rows,
    {
        self.rows
    }

    /// Whether a cell outlives a change of the dimensions that keeps `kept`
    /// columns.
    fn survives(&self, col: u16, row: u16, kept: u16) -> (survives: bool)
        requires
            self@.wf(),
            col < kept <= self@.cols,
            row < self@.rows,
        ensures
            survives == self@.outlives(col as int, row as int, kept as int),
    {
        proof {
            upkeep::lemma_position(self@.cols, self@.rows, col as int, row as int);
        }
        let index: usize = row as usize * self.cols as usize + col as usize;
        let leading = index + 1 < self.cells.len() && self.cells[index + 1].continuation;
        assert(leading == self@.trailing(index + 1));
        !leading || col + 1 < kept
    }

    /// Gives the buffer new dimensions.
    pub fn resize(&mut self, cols: u16, rows: u16)
        requires
            old(self)@.wf(),
            model::valid_dimensions(cols as int, rows as int),
        ensures
            final(self)@ == old(self)@.resized(cols as int, rows as int),
            final(self)@.wf(),
    {
        proof {
            upkeep::lemma_resized_wf(self@, cols as int, rows as int);
        }
        let kept: u16 = if cols < self.cols {
            cols
        } else {
            self.cols
        };
        let ghost target = self@.resized(cols as int, rows as int);
        let mut cells: Vec<Cell> = Vec::new();
        let mut row: u16 = 0;
        while row < rows
            invariant
                self@.wf(),
                model::valid_dimensions(cols as int, rows as int),
                kept == model::at_most(self@.cols, cols as int),
                target == self@.resized(cols as int, rows as int),
                row <= rows,
                cells@.len() == row * cols,
                forall|k: int| 0 <= k < cells@.len() ==> #[trigger] cells@[k]@ == target.cells[k],
            decreases rows - row,
        {
            let mut col: u16 = 0;
            while col < cols
                invariant
                    self@.wf(),
                    model::valid_dimensions(cols as int, rows as int),
                    kept == model::at_most(self@.cols, cols as int),
                    target == self@.resized(cols as int, rows as int),
                    row < rows,
                    col <= cols,
                    cells@.len() == row * cols + col,
                    forall|k: int|
                        0 <= k < cells@.len() ==> #[trigger] cells@[k]@ == target.cells[k],
                decreases cols - col,
            {
                proof {
                    upkeep::lemma_position(cols as int, rows as int, col as int, row as int);
                    if col < kept && row < self.rows {
                        upkeep::lemma_position(self@.cols, self@.rows, col as int, row as int);
                        assert(self@.at(col as int, row as int) < self@.cells.len());
                    }
                    let k = row * cols + col;
                    assert(target.cells[k] == self@.carried(
                        cols as int,
                        col as int,
                        row as int,
                    ));
                }
                if col < kept && row < self.rows {
                    let index: usize = row as usize * self.cols as usize + col as usize;
                    if self.survives(col, row, kept) {
                        cells.push(self.cells[index].clone());
                    } else {
                        cells.push(Cell::default());
                    }
                } else {
                    cells.push(Cell::default());
                }
                col = col + 1;
            }
            row = row + 1;
            assert(row * cols == (row - 1) * cols + cols) by (nonlinear_arith);
        }
        assert(rows * cols == cols * rows) by (nonlinear_arith);
        let last_printed: Option<usize> = match self.last_printed {
            Some(index) => {
                proof {
                    upkeep::lemma_cell_of_position(self@.cols, self@.rows, index as int);
                }
                let last_col: usize = index % self.cols as usize;
                let last_row: usize = index / self.cols as usize;
                if last_col < cols as usize && last_row < rows as usize {
                    proof {
                        upkeep::lemma_position(
                            cols as int,
                            rows as int,
                            last_col as int,
                            last_row as int,
                        );
                    }
                    let place: usize = last_row * cols as usize + last_col;
                    assert(cells@[place as int]@ == target.cells[place as int]);
                    if !cells[place].continuation && !cells[place].same(&Cell::default()) {
                        Some(place)
                    } else {
                        None
                    }
                } else {
                    None
                }
            },
            None => None,
        };
        self.cursor_col = if self.cursor_col < cols {
            self.cursor_col
        } else {
            cols - 1
        };
        self.cursor_row = if self.cursor_row < rows {
            self.cursor_row
        } else {
            rows - 1
        };
        self.cols = cols;
        self.rows = rows;
        self.cells = cells;
        self.saved_cursor = (0, 0);
        self.last_printed = last_printed;
        assert(self@.cells =~= target.cells);
    }

    /// The rectangle that a region still covers.
    pub fn effective_rect(&self, region: Option<Rect>) -> (rect: Rect)
        requires
            self@.wf(),
        ensures
            rect == self@.clip(region),
    {
        match region {
            None => Rect { col: 0, row: 0, width: self.cols, height: self.rows },
            Some(region) => {
                let col: u16 = lesser(region.col, self.cols);
                let row: u16 = lesser(region.row, self.rows);
                Rect {
                    col,
                    row,
                    width: lesser(region.width, self.cols - col),
                    height: lesser(region.height, self.rows - row),
                }
            },
        }
    }

    /// A cell of a region.
    pub fn cell(&self, region: Option<Rect>, col: u16, row: u16) -> (cell: Option<Cell>)
        requires
            self@.wf(),
        ensures
            match cell {
                Some(cell) => self@.cell_in(region, col as int, row as int) == Some(cell@),
                None => self@.cell_in(region, col as int, row as int) is None,
            },
    {
        let rect = self.effective_rect(region);
        if col >= rect.width || row >= rect.height {
            return None;
        }
        match self.index(rect.col + col, rect.row + row) {
            Some(index) => Some(self.cells[index].clone()),
            None => None,
        }
    }

    /// The rows of a region as texts.
    pub fn lines(&self, region: Option<Rect>, preserve_width: bool) -> (lines: Vec<String>)
        requires
            self@.wf(),
        ensures
            text::views(lines@) == self@.lines(region, preserve_width),
    {
        let rect = self.effective_rect(region);
        let mut lines: Vec<String> = Vec::new();
        let mut row: u16 = 0;
        while row < rect.height
            invariant
                self@.wf(),
                rect == self@.clip(region),
                row <= rect.height,
                lines@.len() == row,
                forall|k: int|
                    0 <= k < row ==> #[trigger] lines@[k]@ == self@.lines(
                        region,
                        preserve_width,
                    )[k],
            decreases rect.height - row,
        {
            let mut line = String::new();
            let mut col: u16 = 0;
            while col < rect.width
                invariant
                    self@.wf(),
                    rect == self@.clip(region),
                    row < rect.height,
                    col <= rect.width,
                    line@ == self@.shown_until(rect, row as int, col as int),
                decreases rect.width - col,
            {
                proof {
                    upkeep::lemma_position(
                        self@.cols,
                        self@.rows,
                        rect.col + col,
                        rect.row + row,
                    );
                }
                let index: usize = (rect.row + row) as usize * self.cols as usize + (rect.col
                    + col) as usize;
                let cell = &self.cells[index];
                assert(cell@ == self@.cells[self@.at(rect.col + col, rect.row + row)]);
                if cell.continuation {
                    if col == 0 {
                        line.push(' ');
                    }
                } else if width::text_width(cell.text.as_str()) > (rect.width - col) as usize {
                    line.push(' ');
                } else {
                    line.append(cell.text.as_str());
                }
                col = col + 1;
                assert(line@ =~= self@.shown_until(rect, row as int, col as int));
            }
            if preserve_width {
                lines.push(line);
            } else {
                lines.push(text::trim_end_spaces(line.as_str()));
            }
            row = row + 1;
        }
        assert(text::views(lines@) =~= self@.lines(region, preserve_width));
        lines
    }
}

/// The parameters of a control sequence, each a list of numbers.
pub open spec fn params_view(params: Seq<Vec<u16>>) -> Seq<Seq<u16>> {
    Seq::new(params.len(), |i: int| params[i]@)
}

/// The first number of a parameter, or `default` where it is zero or missing.
pub(crate) fn param(params: &Vec<Vec<u16>>, index: usize, default: u16) -> (value: u16)
    ensures
        value == model::parameter(params_view(params@), index as int, default),
        default > 0 ==> value > 0,
{
    if index < params.len() && params[index].len() > 0 && params[index][0] != 0 {
        params[index][0]
    } else {
        default
    }
}

/// The codes of a style sequence.
fn style_codes(params: &Vec<Vec<u16>>) -> (codes: Vec<Vec<u16>>)
    ensures
        params_view(codes@) == model::style_codes(params_view(params@)),
        forall|k: int| 0 <= k < codes@.len() ==> (#[trigger] codes@[k])@.len() > 0,
{
    let ghost views = params_view(params@);
    let mut codes: Vec<Vec<u16>> = Vec::new();
    let mut i: usize = 0;
    assert(params_view(codes@) =~= model::numbered(views, 0));
    while i < params.len()
        invariant
            i <= params.len(),
            views == params_view(params@),
            params_view(codes@) == model::numbered(views, i as int),
            forall|k: int| 0 <= k < codes@.len() ==> (#[trigger] codes@[k])@.len() > 0,
        decreases params.len() - i,
    {
        if params[i].len() > 0 {
            let ghost before = codes@;
            codes.push(params[i].clone());
            assert(params_view(codes@) =~= params_view(before).push(views[i as int]));
        }
        i = i + 1;
    }
    if codes.len() == 0 {
        codes.push(vec![0]);
        assert(codes@[0]@ =~= seq![0u16]);
        assert(params_view(codes@) =~= seq![seq![0u16]]);
    }
    codes
}

fn recolor(style: Style, code: u16, color: Color) -> (result: Style)
    ensures
        result == model::recolored(style, code, color),
{
    if code == 38 {
        Style { foreground: color, ..style }
    } else {
        Style { background: color, ..style }
    }
}

fn restyle(style: Style, code: u16) -> (result: Style)
    ensures
        result == model::restyled_by(style, code),
{
    if code == 0 {
        Style::default()
    } else if code == 1 || code == 22 {
        Style { bold: code == 1, ..style }
    } else if code == 3 || code == 23 {
        Style { italic: code == 3, ..style }
    } else if code == 4 || code == 24 {
        Style { underline: code == 4, ..style }
    } else if code == 7 || code == 27 {
        Style { inverse: code == 7, ..style }
    } else if 30 <= code && code <= 37 {
        Style { foreground: Color::Indexed((code - 30) as u8), ..style }
    } else if code == 39 {
        Style { foreground: Color::Default, ..style }
    } else if 40 <= code && code <= 47 {
        Style { background: Color::Indexed((code - 40) as u8), ..style }
    } else if code == 49 {
        Style { background: Color::Default, ..style }
    } else if 90 <= code && code <= 97 {
        Style { foreground: Color::Indexed((code - 90 + 8) as u8), ..style }
    } else if 100 <= code && code <= 107 {
        Style { background: Color::Indexed((code - 100 + 8) as u8), ..style }
    } else {
        style
    }
}

fn lesser(left: u16, right: u16) -> (result: u16)
    ensures
        result == model::at_most(left as int, right as int),
{
    if left <= right {
        left
    } else {
        right
    }
}

/// Moves back by `amount`, at most to zero.
fn back(value: u16, amount: u16) -> (result: u16)
    ensures
        result == model::less(value as int, amount as int),
{
    if value <= amount {
        0
    } else {
        value - amount
    }
}

/// Moves on by `amount`, at most to `limit`.
fn forward(value: u16, amount: u16, limit: u16) -> (result: u16)
    ensures
        result == model::at_most(value + amount, limit as int),
{
    if value as u32 + amount as u32 <= limit as u32 {
        value + amount
    } else {
        limit
    }
}

} // verus!
