//! What a change of the dimensions keeps.

use crate::drawing_laws;
use crate::model;
use crate::model::{EventView, ScreenView};
use crate::upkeep;
use crate::width;
use vstd::prelude::*;

verus! {

/// A buffer has between one and 65535 columns and rows, and at most a million
/// cells.
pub proof fn lemma_dimensions(cols: int, rows: int)
    ensures
        model::valid_dimensions(cols, rows) <==> 1 <= cols <= 65535 && 1 <= rows <= 65535 && cols
            * rows <= 1000000,
{
}

/// A change of the dimensions leaves the cursor in its column where that is still
/// there and in its row where that is still there, and moves it to the last one
/// otherwise. The style, a wait to wrap and the choice of the buffer stay, and the
/// saved cursor is in the corner.
pub proof fn lemma_resize_keeps_the_cursor(screen: ScreenView, cols: int, rows: int)
    requires
        screen.wf(),
        model::valid_dimensions(cols, rows),
    ensures
        ({
            let b = screen.active();
            let after = screen.resized(cols, rows).active();
            &&& after.cols == cols
            &&& after.rows == rows
            &&& after.cells.len() == cols * rows
            &&& b.cursor_col < cols ==> after.cursor_col == b.cursor_col
            &&& b.cursor_col >= cols ==> after.cursor_col == cols - 1
            &&& b.cursor_row < rows ==> after.cursor_row == b.cursor_row
            &&& b.cursor_row >= rows ==> after.cursor_row == rows - 1
            &&& after.style == b.style
            &&& after.pending_wrap == b.pending_wrap
            &&& screen.resized(cols, rows).alternate is Some == screen.alternate is Some
            &&& !(b.cols == cols && b.rows == rows) ==> after.saved_cursor == (0int, 0int)
            &&& b.cols == cols && b.rows == rows ==> after == b
        }),
{
}

/// A cell of the common part stays in its column and its row, but for the leading
/// half of a wide glyph whose other half is cut off; that and every new cell are
/// blank, with nothing set.
pub proof fn lemma_resize_keeps_cells(
    screen: ScreenView,
    cols: int,
    rows: int,
    col: int,
    row: int,
)
    requires
        screen.wf(),
        model::valid_dimensions(cols, rows),
        0 <= col < cols,
        0 <= row < rows,
    ensures
        ({
            let b = screen.active();
            let after = screen.resized(cols, rows).active();
            let cell = after.cells[row * cols + col];
            let stays = col < b.cols && row < b.rows && !(col == cols - 1 && col + 1 < b.cols
                && b.cells[row * b.cols + col + 1].continuation);
            &&& stays ==> cell == b.cells[row * b.cols + col]
            &&& !stays ==> is_new(cell)
        }),
{
    let b = screen.active();
    upkeep::lemma_position(cols, rows, col, row);
    if col < b.cols && row < b.rows {
        upkeep::lemma_position(b.cols, b.rows, col, row);
        if col + 1 < b.cols {
            upkeep::lemma_position(b.cols, b.rows, col + 1, row);
        } else if row + 1 < b.rows {
            upkeep::lemma_position(b.cols, b.rows, 0, row + 1);
            assert((row + 1) * b.cols == row * b.cols + b.cols) by (nonlinear_arith);
            assert(!b.trailing(row * b.cols + b.cols));
        } else {
            assert(b.cols * b.rows == row * b.cols + b.cols) by (nonlinear_arith)
                requires
                    row + 1 == b.rows,
            ;
        }
    }
}

/// A blank cell with nothing set.
pub open spec fn is_new(cell: model::CellView) -> bool {
    drawing_laws::is_blank(cell, cell.style) && drawing_laws::is_unset(cell.style)
}

/// A character of one column that is printed right after a change of the
/// dimensions stands in the column and the row where it would have stood without
/// the change, in the same style, where the cursor's cell is still there and
/// nothing waits to wrap.
pub proof fn lemma_resize_keeps_the_place_of_the_next_character(
    screen: ScreenView,
    cols: int,
    rows: int,
    ch: char,
)
    requires
        screen.wf(),
        model::valid_dimensions(cols, rows),
        width::columns_of(ch) == 1,
        !screen.active().pending_wrap,
        screen.active().cursor_col < cols,
        screen.active().cursor_row < rows,
    ensures
        ({
            let b = screen.active();
            let without = screen.after(EventView::Print(ch)).active();
            let with = screen.resized(cols, rows).after(EventView::Print(ch)).active();
            let here = without.cells[b.cursor_row * b.cols + b.cursor_col];
            let there = with.cells[b.cursor_row * cols + b.cursor_col];
            &&& here.text == seq![ch]
            &&& there == here
        }),
{
    upkeep::lemma_resized_wf(screen.primary, cols, rows);
    if let Some(b) = screen.alternate {
        upkeep::lemma_resized_wf(b, cols, rows);
    }
    drawing_laws::lemma_print_stands_at_the_cursor(screen, ch, 1);
    drawing_laws::lemma_print_stands_at_the_cursor(screen.resized(cols, rows), ch, 1);
}

/// A combining mark still joins the character that was printed last where that
/// stays on the screen and is more than a blank with nothing set; otherwise it has
/// nothing to join.
pub proof fn lemma_resize_keeps_what_marks_join(
    screen: ScreenView,
    cols: int,
    rows: int,
    col: int,
    row: int,
)
    requires
        screen.wf(),
        model::valid_dimensions(cols, rows),
        !(screen.active().cols == cols && screen.active().rows == rows),
        0 <= col < screen.active().cols,
        0 <= row < screen.active().rows,
        screen.active().last_printed == Some(row * screen.active().cols + col),
    ensures
        ({
            let after = screen.resized(cols, rows).active();
            let stays = col < cols && row < rows && !is_new(after.cells[row * cols + col]);
            &&& stays ==> after.last_printed == Some(row * cols + col)
            &&& !stays ==> after.last_printed is None
        }),
{
    let b = screen.active();
    upkeep::lemma_position(b.cols, b.rows, col, row);
    if col < cols && row < rows {
        upkeep::lemma_position(cols, rows, col, row);
        lemma_resize_keeps_cells(screen, cols, rows, col, row);
        let cell = screen.resized(cols, rows).active().cells[row * cols + col];
        assert(is_new(cell) ==> cell =~= model::CellView::blank(model::Style::plain()));
    }
}

/// Both buffers are resized, the shown one and the other, and the change counts
/// once; where the dimensions stay, nothing does.
pub proof fn lemma_both_buffers_are_resized(screen: ScreenView, cols: int, rows: int)
    requires
        screen.wf(),
        model::valid_dimensions(cols, rows),
    ensures
        ({
            let after = screen.resized(cols, rows);
            let same = screen.primary.cols == cols && screen.primary.rows == rows;
            &&& after.primary.cols == cols
            &&& after.primary.rows == rows
            &&& after.alternate matches Some(b) ==> b.cols == cols && b.rows == rows
            &&& same ==> after == screen
            &&& !same && screen.version < u64::MAX ==> after.version == screen.version + 1
            &&& !same && screen.version == u64::MAX ==> after.version == 0
            &&& screen.alternate is Some ==> (ScreenView {
                alternate: None,
                ..screen
            }).resized(cols, rows).primary == after.primary
        }),
{
}

} // verus!
