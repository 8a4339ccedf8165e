//! What regions cover, and what their rows read.

use crate::error::{Error, Result};
use crate::model::{BufferView, Rect};
use crate::screen;
use crate::screen::Region;
use crate::text;
use crate::upkeep;
use crate::width;
use vstd::prelude::*;

verus! {

/// A cell of the screen is covered by a region exactly where it lies in the region's
/// rectangle; without a region, every cell is. The region's corner stays where it
/// is while that is on the screen.
pub proof fn lemma_what_a_region_covers(b: BufferView, region: Option<Rect>, col: int, row: int)
    requires
        b.wf(),
        0 <= col < b.cols,
        0 <= row < b.rows,
    ensures
        ({
            let shown = b.clip(region);
            let covered = shown.col <= col < shown.col + shown.width && shown.row <= row < shown.row
                + shown.height;
            &&& region is None ==> covered && shown.col == 0 && shown.row == 0
            &&& region matches Some(r) ==> {
                &&& covered <==> r.col <= col < r.col + r.width && r.row <= row < r.row + r.height
                &&& r.col <= b.cols ==> shown.col == r.col
                &&& r.row <= b.rows ==> shown.row == r.row
            }
            &&& shown.col + shown.width <= b.cols
            &&& shown.row + shown.height <= b.rows
        }),
{
}

/// A cell of a region is counted from the region's corner, and there is none behind
/// its last column or its last row.
pub proof fn lemma_cells_of_a_region(b: BufferView, r: Rect, col: int, row: int)
    requires
        b.wf(),
        r.col + r.width <= b.cols,
        r.row + r.height <= b.rows,
        0 <= col,
        0 <= row,
    ensures
        col < r.width && row < r.height ==> b.cell_in(Some(r), col, row) == Some(
            b.cells[(r.row + row) * b.cols + r.col + col],
        ),
        col >= r.width || row >= r.height ==> b.cell_in(Some(r), col, row) is None,
        col < b.cols && row < b.rows ==> b.cell_in(None, col, row) == Some(
            b.cells[row * b.cols + col],
        ),
{
}

/// A rectangle is taken where it holds a cell and does not reach past the region it
/// is taken from; it is counted from that region's corner. Otherwise the error has
/// the rectangle's corner and the columns and rows that there are.
pub proof fn lemma_which_regions_are_taken(
    b: BufferView,
    outer: Rect,
    rect: Rect,
    result: Result<Region>,
)
    requires
        b.wf(),
        outer.col + outer.width <= b.cols,
        outer.row + outer.height <= b.rows,
        screen::region_result(b, Some(outer), rect, result),
    ensures
        result is Ok <==> rect.width > 0 && rect.height > 0 && rect.col + rect.width
            <= outer.width && rect.row + rect.height <= outer.height,
        result matches Ok(region) ==> {
            &&& region@.col == outer.col + rect.col
            &&& region@.row == outer.row + rect.row
            &&& region@.width == rect.width
            &&& region@.height == rect.height
        },
        result matches Err(error) ==> error == (Error::OutOfBounds {
            col: rect.col,
            row: rect.row,
            cols: outer.width,
            rows: outer.height,
        }),
{
}

/// A row of cells that each show one printable ASCII character reads as those
/// characters, in their order, one for each column.
pub proof fn lemma_rows_read_as_their_cells(b: BufferView, r: Rect, row: int, col: int)
    requires
        b.wf(),
        r.col + r.width <= b.cols,
        r.row + r.height <= b.rows,
        0 <= row < r.height,
        0 <= col < r.width,
        forall|c: int|
            0 <= c < r.width ==> is_plain_cell(b, #[trigger] b.at(r.col + c, r.row + row)),
    ensures
        b.lines(Some(r), true).len() == r.height,
        b.lines(Some(r), true)[row].len() == r.width,
        b.lines(Some(r), true)[row][col] == b.cells[(r.row + row) * b.cols + r.col + col].text[0],
        b.lines(Some(r), false)[row] == text::strip_end(b.lines(Some(r), true)[row], ' '),
{
    assert(b.clip(Some(r)) == r);
    lemma_plain_until(b, r, row, r.width as int, col);
    assert(b.at(r.col + col, r.row + row) == (r.row + row) * b.cols + r.col + col);
}

/// The cell shows one printable ASCII character.
pub open spec fn is_plain_cell(b: BufferView, i: int) -> bool {
    &&& b.cells[i].text.len() == 1
    &&& ' ' <= b.cells[i].text[0] <= '~'
    &&& !b.cells[i].continuation
}

proof fn lemma_plain_until(b: BufferView, r: Rect, row: int, count: int, col: int)
    requires
        0 <= count <= r.width,
        forall|c: int|
            0 <= c < r.width ==> is_plain_cell(b, #[trigger] b.at(r.col + c, r.row + row)),
    ensures
        b.shown_until(r, row, count).len() == count,
        0 <= col < count ==> b.shown_until(r, row, count)[col] == b.cells[b.at(
            r.col + col,
            r.row + row,
        )].text[0],
    decreases count,
{
    if count > 0 {
        lemma_plain_until(b, r, row, count - 1, col);
        let i = b.at(r.col + (count - 1), r.row + row);
        assert(is_plain_cell(b, i));
        assert(width::is_plain(b.cells[i].text));
        assert(b.shown(r, count - 1, row) == b.cells[i].text);
    }
}

/// A wide glyph reads as itself where both of its columns are covered, and as a
/// space where only one of them is.
pub proof fn lemma_cut_glyphs_read_as_spaces(b: BufferView, col: u16, row: u16)
    requires
        b.wf(),
        col + 1 < b.cols,
        row < b.rows,
        b.cells[row * b.cols + col + 1].continuation,
        width::columns_of_text(b.cells[row * b.cols + col].text) == 2,
    ensures
        ({
            let both = Rect { col, row, width: 2, height: 1 };
            let left = Rect { col, row, width: 1, height: 1 };
            let right = Rect { col: (col + 1) as u16, row, width: 1, height: 1 };
            &&& b.lines(Some(both), true)[0] == b.cells[row * b.cols + col].text
            &&& b.lines(Some(left), true)[0] == seq![' ']
            &&& b.lines(Some(right), true)[0] == seq![' ']
        }),
{
    let both = Rect { col, row, width: 2, height: 1 };
    let left = Rect { col, row, width: 1, height: 1 };
    let right = Rect { col: (col + 1) as u16, row, width: 1, height: 1 };
    let i = row * b.cols + col;
    upkeep::lemma_position(b.cols, b.rows, col + 1, row as int);
    assert(b.trailing(i + 1));
    assert(!b.trailing(i)) by {
        upkeep::lemma_position(b.cols, b.rows, col as int, row as int);
        assert(!b.trailing(i + 1 - 1));
    }
    upkeep::lemma_position(b.cols, b.rows, col as int, row as int);
    assert(!b.cells[i].continuation);
    assert(b.clip(Some(both)) == both);
    assert(b.clip(Some(left)) == left);
    assert(b.clip(Some(right)) == right);
    reveal_with_fuel(BufferView::shown_until, 3);
    assert(b.lines(Some(both), true)[0] =~= b.cells[i].text);
    assert(b.lines(Some(left), true)[0] =~= seq![' ']);
    assert(b.lines(Some(right), true)[0] =~= seq![' ']);
}

/// Dimensions are refused exactly where there is no column or no row, or there are
/// more than a million cells; the two errors say which.
pub proof fn lemma_which_dimensions_are_refused(cols: u16, rows: u16, error: Error)
    requires
        screen::dimensions_error(cols, rows, error),
    ensures
        cols == 0 || rows == 0 || cols * rows > 1000000,
        error == (Error::InvalidDimensions { cols, rows }) <==> cols == 0 || rows == 0,
        error == (Error::ScreenTooLarge { cols, rows, max_cells: 1000000 }) <==> cols > 0 && rows
            > 0,
{
}

} // verus!
