//! Every operation of the terminal keeps a screen buffer well formed.

use crate::model;
use crate::model::{BufferView, EventView, ScreenView};
use crate::width;
use vstd::arithmetic::div_mod::lemma_fundamental_div_mod_converse;
use vstd::prelude::*;

verus! {

/// A cell inside the rectangle has a position inside the sequence of cells,
/// from which its column and row can be told.
pub proof fn lemma_position(cols: int, rows: int, col: int, row: int)
    requires
        0 <= col < cols,
        0 <= row < rows,
    ensures
        0 <= row * cols + col < cols * rows,
        0 <= row * cols,
        row * cols + cols <= cols * rows,
        (row * cols + col) % cols == col,
        (row * cols + col) / cols == row,
{
    assert(0 <= row * cols) by (nonlinear_arith)
        requires
            0 <= row,
            0 < cols,
    ;
    assert(row * cols + cols <= cols * rows) by (nonlinear_arith)
        requires
            0 <= row < rows,
            0 < cols,
    ;
    lemma_fundamental_div_mod_converse(row * cols + col, cols, row, col);
}

/// A position inside the sequence of cells belongs to a cell inside the
/// rectangle.
pub proof fn lemma_cell_of_position(cols: int, rows: int, i: int)
    requires
        0 < cols,
        0 <= i < cols * rows,
    ensures
        0 <= i % cols < cols,
        0 <= i / cols < rows,
        (i / cols) * cols + i % cols == i,
{
    vstd::arithmetic::div_mod::lemma_fundamental_div_mod(i, cols);
    assert(cols * (i / cols) == (i / cols) * cols) by (nonlinear_arith);
    assert(0 <= i / cols) by (nonlinear_arith)
        requires
            0 <= i,
            0 < cols,
    ;
    assert(i / cols < rows) by (nonlinear_arith)
        requires
            i < cols * rows,
            0 < cols,
            i == cols * (i / cols) + i % cols,
            0 <= i % cols,
    ;
}

pub proof fn lemma_empty_wf(cols: int, rows: int)
    requires
        model::valid_dimensions(cols, rows),
    ensures
        BufferView::empty(cols, rows).wf(),
{
}

pub proof fn lemma_blanked_wf(b: BufferView, start: int, end: int)
    requires
        b.wf(),
        0 <= start <= end <= b.cells.len(),
        !b.trailing(start) || start == end,
        !b.trailing(end) || start == end,
    ensures
        b.blanked(start, end).wf(),
{
    let c = b.blanked(start, end);
    assert forall|i: int| #[trigger] c.trailing(i) implies {
        &&& i % c.cols > 0
        &&& !c.trailing(i - 1)
        &&& c.cells[i].text.len() == 0
    } by {
        assert(b.trailing(i));
        assert(!b.trailing(i - 1));
    }
    if let Some(i) = b.last_printed {
        assert(!b.trailing(i));
    }
}

pub proof fn lemma_without_wide_glyph_wf(b: BufferView, i: int)
    requires
        b.wf(),
        0 <= i < b.cells.len(),
    ensures
        b.without_wide_glyph(i).wf(),
        !b.without_wide_glyph(i).trailing(i),
        !b.without_wide_glyph(i).trailing(i + 1),
{
    let start = b.glyph_start(i);
    let end = b.glyph_end(i);
    assert(!b.trailing(start)) by {
        assert(b.trailing(i) ==> !b.trailing(i - 1));
    }
    if b.trailing(i) {
        assert(i % b.cols > 0);
        assert(i != 0) by {
            assert(0int % b.cols == 0);
        }
    }
    if b.trailing(i + 1) {
        assert(!b.trailing((i + 1) - 1));
        if b.trailing(i + 2) {
            assert(!b.trailing((i + 2) - 1));
        }
    }
    assert(!b.trailing(end));
    lemma_blanked_wf(b, start, end);
}

pub proof fn lemma_erased_wf(b: BufferView, start: int, end: int)
    requires
        b.wf(),
        0 <= start < end <= b.cells.len(),
    ensures
        b.erased(start, end).wf(),
{
    if b.trailing(start) {
        assert(!b.trailing(start - 1));
        assert(start != 0) by {
            assert(0int % b.cols == 0);
        }
    }
    if b.trailing(end) {
        if b.trailing(end + 1) {
            assert(!b.trailing((end + 1) - 1));
        }
    }
    lemma_blanked_wf(
        b,
        b.glyph_start(start),
        if b.trailing(end) {
            end + 1
        } else {
            end
        },
    );
}

pub proof fn lemma_scrolled_wf(b: BufferView)
    requires
        b.wf(),
    ensures
        b.scrolled().wf(),
{
    let c = b.scrolled();
    assert(b.cols <= b.cols * b.rows) by (nonlinear_arith)
        requires
            0 < b.cols,
            0 < b.rows,
    ;
    assert(c.cells.len() == b.cells.len());
    assert forall|i: int| #[trigger] c.trailing(i) implies {
        &&& i % c.cols > 0
        &&& !c.trailing(i - 1)
        &&& c.cells[i].text.len() == 0
    } by {
        assert(i < b.cells.len() - b.cols);
        assert(b.trailing(i + b.cols));
        assert(!b.trailing(i + b.cols - 1));
        vstd::arithmetic::div_mod::lemma_mod_add_multiples_vanish(i, b.cols);
        assert((b.cols + i) % b.cols == i % b.cols);
        if i > 0 {
            assert(c.cells[i - 1] == b.cells[i - 1 + b.cols]);
        }
    }
}

pub proof fn lemma_line_fed_wf(b: BufferView)
    requires
        b.wf(),
    ensures
        b.line_fed().wf(),
        b.newlined().wf(),
        !b.line_fed().pending_wrap,
        !b.newlined().pending_wrap,
        b.newlined().cursor_col == 0,
        b.newlined().cols == b.cols,
{
    let plain = BufferView { pending_wrap: false, last_printed: None, ..b };
    lemma_same_cells_wf(b, plain);
    let start = BufferView { cursor_col: 0, ..plain };
    lemma_same_cells_wf(b, start);
    if b.cursor_row + 1 >= b.rows {
        lemma_scrolled_wf(plain);
        lemma_scrolled_wf(start);
    } else {
        lemma_same_cells_wf(b, b.line_fed());
        lemma_same_cells_wf(b, b.newlined());
    }
}

/// A buffer that keeps its cells stays well formed, wherever its cursor goes.
pub proof fn lemma_same_cells_wf(b: BufferView, c: BufferView)
    requires
        b.wf(),
        c.cols == b.cols,
        c.rows == b.rows,
        c.in_bounds(c.cursor_col, c.cursor_row),
        c.in_bounds(c.saved_cursor.0, c.saved_cursor.1),
        c.last_printed == b.last_printed || c.last_printed is None,
        c.cells == b.cells,
    ensures
        c.wf(),
{
    assert forall|i: int| #[trigger] c.trailing(i) implies {
        &&& i % c.cols > 0
        &&& !c.trailing(i - 1)
        &&& c.cells[i].text.len() == 0
    } by {
        assert(b.trailing(i));
        assert(b.trailing(i - 1) == c.trailing(i - 1));
    }
    if let Some(i) = c.last_printed {
        assert(!b.trailing(i));
    }
}

pub proof fn lemma_placed_wf(b: BufferView, ch: char, width: int)
    requires
        b.wf(),
        0 < width <= b.cols,
        width == 2 ==> b.cursor_col + 1 < b.cols,
    ensures
        b.placed(ch, width).wf(),
{
    let i = b.cursor();
    lemma_position(b.cols, b.rows, b.cursor_col, b.cursor_row);
    lemma_without_wide_glyph_wf(b, i);
    let first = b.without_wide_glyph(i);
    let c = b.placed(ch, width);
    if width == 2 {
        lemma_position(b.cols, b.rows, b.cursor_col + 1, b.cursor_row);
        assert(b.at(b.cursor_col + 1, b.cursor_row) == i + 1);
        lemma_without_wide_glyph_wf(first, i + 1);
        let cleared = first.without_wide_glyph(i + 1);
        assert(!cleared.trailing(i));
        assert(!cleared.trailing(i + 1));
        assert(!cleared.trailing(i + 2));
        assert forall|k: int| #[trigger] c.trailing(k) implies {
            &&& k % c.cols > 0
            &&& !c.trailing(k - 1)
            &&& c.cells[k].text.len() == 0
        } by {
            if k != i + 1 {
                assert(cleared.trailing(k));
                assert(!cleared.trailing(k - 1));
            }
        }
    } else {
        assert forall|k: int| #[trigger] c.trailing(k) implies {
            &&& k % c.cols > 0
            &&& !c.trailing(k - 1)
            &&& c.cells[k].text.len() == 0
        } by {
            assert(first.trailing(k));
            assert(!first.trailing(k - 1));
        }
    }
}

pub proof fn lemma_printed_wf(b: BufferView, ch: char, width: int)
    requires
        b.wf(),
        0 <= width,
    ensures
        b.printed(ch, width).wf(),
{
    if width == 0 {
        if let Some(i) = b.last_printed {
            let c = b.printed(ch, width);
            assert(!b.trailing(i));
            assert forall|k: int| #[trigger] c.trailing(k) implies {
                &&& k % c.cols > 0
                &&& !c.trailing(k - 1)
                &&& c.cells[k].text.len() == 0
            } by {
                assert(b.trailing(k));
                assert(!b.trailing(k - 1));
            }
        }
    } else {
        let columns = if width <= b.cols {
            width
        } else {
            1
        };
        let shown = if width <= b.cols {
            ch
        } else {
            width::REPLACEMENT
        };
        lemma_line_fed_wf(b);
        if b.pending_wrap || (columns == 2 && b.cursor_col + 1 >= b.cols) {
            lemma_placed_wf(b.newlined(), shown, columns);
        } else {
            lemma_placed_wf(b, shown, columns);
        }
    }
}

pub proof fn lemma_moved_to_wf(b: BufferView, col: int, row: int)
    requires
        b.wf(),
        b.in_bounds(col, row),
    ensures
        b.moved_to(col, row).wf(),
{
    lemma_same_cells_wf(b, b.moved_to(col, row));
}

pub proof fn lemma_executed_wf(b: BufferView, byte: u8)
    requires
        b.wf(),
    ensures
        b.executed(byte).wf(),
{
    lemma_line_fed_wf(b);
    lemma_moved_to_wf(b, 0, b.cursor_row);
    lemma_moved_to_wf(b, model::less(b.cursor_col, 1), b.cursor_row);
    lemma_moved_to_wf(b, b.tab_stop(), b.cursor_row);
}

pub proof fn lemma_escaped_wf(b: BufferView, byte: u8)
    requires
        b.wf(),
    ensures
        b.escaped(byte).wf(),
{
    lemma_line_fed_wf(b);
    lemma_empty_wf(b.cols, b.rows);
    if byte == 0x37 || byte == 0x38 {
        lemma_same_cells_wf(b, b.escaped(byte));
    }
}

pub proof fn lemma_controlled_wf(b: BufferView, params: Seq<Seq<u16>>, action: char)
    requires
        b.wf(),
    ensures
        b.controlled(params, action).wf(),
{
    let c = b.controlled(params, action);
    if action == 'J' || action == 'K' {
        let here = b.moved_to(b.cursor_col, b.cursor_row);
        lemma_moved_to_wf(b, b.cursor_col, b.cursor_row);
        lemma_position(b.cols, b.rows, b.cursor_col, b.cursor_row);
        lemma_position(b.cols, b.rows, 0, b.cursor_row);
        let mode = model::parameter(params, 0, 0);
        let start = here.at(0, here.cursor_row);
        let end = here.cells.len() as int;
        lemma_erased_wf(here, 0, end);
        lemma_erased_wf(here, here.cursor(), end);
        lemma_erased_wf(here, 0, here.cursor() + 1);
        lemma_erased_wf(here, start, here.cursor() + 1);
        lemma_erased_wf(here, start, start + here.cols);
        lemma_erased_wf(here, here.cursor(), start + here.cols);
    } else {
        lemma_same_cells_wf(b, c);
    }
}

pub proof fn lemma_resized_wf(b: BufferView, cols: int, rows: int)
    requires
        b.wf(),
        model::valid_dimensions(cols, rows),
    ensures
        b.resized(cols, rows).wf(),
{
    let c = b.resized(cols, rows);
    assert forall|i: int| #[trigger] c.trailing(i) implies {
        &&& i % c.cols > 0
        &&& !c.trailing(i - 1)
        &&& c.cells[i].text.len() == 0
    } by {
        let col = i % cols;
        let row = i / cols;
        lemma_cell_of_position(cols, rows, i);
        lemma_position(b.cols, b.rows, col, row);
        assert(b.trailing(b.at(col, row)));
        assert(col > 0);
        lemma_position(cols, rows, col - 1, row);
        assert((i - 1) % cols == col - 1 && (i - 1) / cols == row);
        assert(b.at(col - 1, row) == b.at(col, row) - 1);
        assert(!b.trailing(b.at(col, row) - 1));
    }
    if let Some(i) = b.last_printed {
        lemma_cell_of_position(b.cols, b.rows, i);
        let col = i % b.cols;
        let row = i / b.cols;
        if col < cols && row < rows {
            lemma_position(cols, rows, col, row);
        }
    }
}

pub proof fn lemma_after_wf(screen: ScreenView, event: EventView)
    requires
        screen.wf(),
    ensures
        screen.after(event).wf(),
{
    let b = screen.active();
    match event {
        EventView::Print(ch) => lemma_printed_wf(b, ch, width::columns_of(ch)),
        EventView::Execute(byte) => lemma_executed_wf(b, byte),
        EventView::Csi { params, action, .. } => {
            lemma_controlled_wf(b, params, action);
            lemma_empty_wf(screen.primary.cols, screen.primary.rows);
        },
        EventView::Esc { byte, .. } => lemma_escaped_wf(b, byte),
    }
}

/// Performing events and then some more is performing all of them.
pub proof fn lemma_after_all_joins(
    screen: ScreenView,
    first: Seq<EventView>,
    second: Seq<EventView>,
)
    ensures
        screen.after_all(first + second) == screen.after_all(first).after_all(second),
{
    lemma_after_first_joins(screen, first, second, second.len() as int);
}

proof fn lemma_after_first_joins(
    screen: ScreenView,
    first: Seq<EventView>,
    second: Seq<EventView>,
    count: int,
)
    requires
        0 <= count <= second.len(),
    ensures
        screen.after_first(first + second, first.len() + count) == screen.after_all(
            first,
        ).after_first(second, count),
    decreases count,
{
    if count == 0 {
        lemma_after_first_of(screen, first, second, first.len() as int);
    } else {
        lemma_after_first_joins(screen, first, second, count - 1);
    }
}

proof fn lemma_after_first_of(
    screen: ScreenView,
    first: Seq<EventView>,
    second: Seq<EventView>,
    count: int,
)
    requires
        0 <= count <= first.len(),
    ensures
        screen.after_first(first + second, count) == screen.after_first(first, count),
    decreases count,
{
    if count > 0 {
        lemma_after_first_of(screen, first, second, count - 1);
    }
}

} // verus!
