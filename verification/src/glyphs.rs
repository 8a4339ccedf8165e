//! Wide characters stay whole, and rows keep their width.

use crate::model;
use crate::model::{BufferView, EventView, Rect, ScreenView};
use crate::text;
use crate::upkeep;
use crate::width;
use vstd::prelude::*;

verus! {

/// The empty buffer holds no half of a wide character.
pub proof fn lemma_empty_whole(cols: int, rows: int)
    requires
        model::valid_dimensions(cols, rows),
    ensures
        BufferView::empty(cols, rows).whole(),
{
}

/// A buffer that keeps its cells keeps its glyphs whole.
proof fn lemma_same_cells_whole(b: BufferView, c: BufferView)
    requires
        b.whole(),
        c.cells == b.cells,
    ensures
        c.whole(),
{
    assert forall|i: int| 0 <= i < c.cells.len() implies {
        &&& #[trigger] c.leading(i) == c.trailing(i + 1)
        &&& c.trailing(i) || c.cells[i].text.len() > 0
    } by {
        assert(b.leading(i) == b.trailing(i + 1));
    }
}

/// Blanking cells keeps the other glyphs whole where it cuts none.
proof fn lemma_blanked_whole(b: BufferView, start: int, end: int)
    requires
        b.wf(),
        b.whole(),
        0 <= start <= end <= b.cells.len(),
        !b.trailing(start) || start == end,
        !b.trailing(end) || start == end,
    ensures
        b.blanked(start, end).whole(),
{
    let c = b.blanked(start, end);
    assert forall|i: int| 0 <= i < c.cells.len() implies {
        &&& #[trigger] c.leading(i) == c.trailing(i + 1)
        &&& c.trailing(i) || c.cells[i].text.len() > 0
    } by {
        assert(b.leading(i) == b.trailing(i + 1));
    }
}

proof fn lemma_without_wide_glyph_whole(b: BufferView, i: int)
    requires
        b.wf(),
        b.whole(),
        0 <= i < b.cells.len(),
    ensures
        b.without_wide_glyph(i).whole(),
{
    let start = b.glyph_start(i);
    let end = b.glyph_end(i);
    if b.trailing(i) {
        assert(i % b.cols > 0);
        assert(i != 0) by {
            assert(0int % b.cols == 0);
        }
        assert(!b.trailing(i - 1));
    }
    if b.trailing(i + 1) {
        assert(!b.trailing((i + 1) - 1));
        if b.trailing(i + 2) {
            assert(!b.trailing((i + 2) - 1));
        }
    }
    lemma_blanked_whole(b, start, end);
}

proof fn lemma_erased_whole(b: BufferView, start: int, end: int)
    requires
        b.wf(),
        b.whole(),
        0 <= start < end <= b.cells.len(),
    ensures
        b.erased(start, end).whole(),
{
    let first = b.glyph_start(start);
    let last = if b.trailing(end) {
        end + 1
    } else {
        end
    };
    if b.trailing(start) {
        assert(!b.trailing(start - 1));
        assert(start != 0) by {
            assert(0int % b.cols == 0);
        }
    }
    if b.trailing(end) && b.trailing(end + 1) {
        assert(!b.trailing((end + 1) - 1));
    }
    lemma_blanked_whole(b, first, last);
}

proof fn lemma_scrolled_whole(b: BufferView)
    requires
        b.wf(),
        b.whole(),
    ensures
        b.scrolled().whole(),
{
    let c = b.scrolled();
    assert(b.cols <= b.cols * b.rows) by (nonlinear_arith)
        requires
            0 < b.cols,
            0 < b.rows,
    ;
    assert forall|i: int| 0 <= i < c.cells.len() implies {
        &&& #[trigger] c.leading(i) == c.trailing(i + 1)
        &&& c.trailing(i) || c.cells[i].text.len() > 0
    } by {
        if i + b.cols < b.cells.len() {
            assert(c.cells[i] == b.cells[i + b.cols]);
            assert(b.leading(i + b.cols) == b.trailing(i + b.cols + 1));
        }
    }
}

/// Line feeds keep glyphs whole.
proof fn lemma_line_fed_whole(b: BufferView)
    requires
        b.wf(),
        b.whole(),
    ensures
        b.line_fed().whole(),
        b.newlined().whole(),
{
    let plain = BufferView { pending_wrap: false, last_printed: None, ..b };
    let start = BufferView { cursor_col: 0, ..plain };
    upkeep::lemma_same_cells_wf(b, plain);
    upkeep::lemma_same_cells_wf(b, start);
    lemma_same_cells_whole(b, plain);
    lemma_same_cells_whole(b, start);
    if b.cursor_row + 1 >= b.rows {
        lemma_scrolled_whole(plain);
        lemma_scrolled_whole(start);
    } else {
        lemma_same_cells_whole(b, b.line_fed());
        lemma_same_cells_whole(b, b.newlined());
    }
}

proof fn lemma_placed_whole(b: BufferView, ch: char, columns: int)
    requires
        b.wf(),
        b.whole(),
        0 < columns <= b.cols,
        columns == 2 ==> b.cursor_col + 1 < b.cols,
        (columns == 2) == (width::columns_of(ch) == 2),
    ensures
        b.placed(ch, columns).whole(),
{
    let at = b.cursor();
    upkeep::lemma_position(b.cols, b.rows, b.cursor_col, b.cursor_row);
    upkeep::lemma_without_wide_glyph_wf(b, at);
    lemma_without_wide_glyph_whole(b, at);
    let first = b.without_wide_glyph(at);
    let cleared = if columns == 2 {
        upkeep::lemma_position(b.cols, b.rows, b.cursor_col + 1, b.cursor_row);
        assert(b.at(b.cursor_col + 1, b.cursor_row) == at + 1);
        upkeep::lemma_without_wide_glyph_wf(first, at + 1);
        lemma_without_wide_glyph_whole(first, at + 1);
        first.without_wide_glyph(at + 1)
    } else {
        first
    };
    assert(!cleared.trailing(at));
    assert(!cleared.trailing(at + 1));
    let c = b.placed(ch, columns);
    assert forall|i: int| 0 <= i < c.cells.len() implies {
        &&& #[trigger] c.leading(i) == c.trailing(i + 1)
        &&& c.trailing(i) || c.cells[i].text.len() > 0
    } by {
        assert(cleared.leading(i) == cleared.trailing(i + 1));
        assert(cleared.leading(at) == cleared.trailing(at + 1));
        if columns == 2 {
            assert(!cleared.trailing(at + 2));
        }
    }
    assert(c.whole());
}

/// Printing a character keeps every wide glyph whole: no half of one that was
/// overwritten or wrapped is left behind. The dimensions, the style and the saved
/// cursor stay. A character without a width changes the text of the cell that
/// was printed last, and where there is none it changes nothing.
pub proof fn lemma_printing_keeps_glyphs_whole(b: BufferView, ch: char)
    requires
        b.wf(),
        b.whole(),
    ensures
        ({
            let after = b.printed(ch, width::columns_of(ch));
            &&& after.wf()
            &&& after.whole()
            &&& after.cols == b.cols
            &&& after.rows == b.rows
            &&& after.style == b.style
            &&& after.saved_cursor == b.saved_cursor
            &&& width::columns_of(ch) == 0 ==> match b.last_printed {
                Some(i) => after == (BufferView {
                    cells: b.cells.update(i, after.cells[i]),
                    ..b
                }) && after.cells[i].text == b.cells[i].text.push(ch) && b.print_changes(0),
                None => after == b && !b.print_changes(0),
            }
        }),
{
    let columns = width::columns_of(ch);
    let after = b.printed(ch, columns);
    upkeep::lemma_printed_wf(b, ch, columns);
    if columns == 0 {
        if let Some(at) = b.last_printed {
            assert(!b.trailing(at));
            assert(b.leading(at) == b.trailing(at + 1));
            assert forall|i: int| 0 <= i < after.cells.len() implies {
                &&& #[trigger] after.leading(i) == after.trailing(i + 1)
                &&& after.trailing(i) || after.cells[i].text.len() > 0
            } by {
                assert(b.leading(i) == b.trailing(i + 1));
            }
        }
    } else {
        let fits = columns <= b.cols;
        let shown = if fits {
            ch
        } else {
            width::REPLACEMENT
        };
        let count = if fits {
            columns
        } else {
            1
        };
        upkeep::lemma_line_fed_wf(b);
        lemma_line_fed_whole(b);
        if b.pending_wrap || (count == 2 && b.cursor_col + 1 >= b.cols) {
            lemma_placed_whole(b.newlined(), shown, count);
        } else {
            lemma_placed_whole(b, shown, count);
        }
    }
}

/// Erasing in the display or in a row keeps glyphs whole.
proof fn lemma_controlled_whole(b: BufferView, params: Seq<Seq<u16>>, action: char)
    requires
        b.wf(),
        b.whole(),
    ensures
        b.controlled(params, action).whole(),
{
    if action == 'J' || action == 'K' {
        let here = b.moved_to(b.cursor_col, b.cursor_row);
        upkeep::lemma_moved_to_wf(b, b.cursor_col, b.cursor_row);
        lemma_same_cells_whole(b, here);
        upkeep::lemma_position(b.cols, b.rows, b.cursor_col, b.cursor_row);
        upkeep::lemma_position(b.cols, b.rows, 0, b.cursor_row);
        let start = here.at(0, here.cursor_row);
        let end = here.cells.len() as int;
        lemma_erased_whole(here, 0, end);
        lemma_erased_whole(here, here.cursor(), end);
        lemma_erased_whole(here, 0, here.cursor() + 1);
        lemma_erased_whole(here, start, here.cursor() + 1);
        lemma_erased_whole(here, start, start + here.cols);
        lemma_erased_whole(here, here.cursor(), start + here.cols);
    } else {
        lemma_same_cells_whole(b, b.controlled(params, action));
    }
}

/// Every event keeps every wide glyph whole.
pub proof fn lemma_events_keep_glyphs_whole(screen: ScreenView, event: EventView)
    requires
        screen.wf(),
        screen.whole(),
    ensures
        screen.after(event).wf(),
        screen.after(event).whole(),
{
    let b = screen.active();
    upkeep::lemma_after_wf(screen, event);
    match event {
        EventView::Print(ch) => lemma_printing_keeps_glyphs_whole(b, ch),
        EventView::Execute(byte) => {
            lemma_line_fed_whole(b);
            if !(byte == 0x0a || byte == 0x0b || byte == 0x0c) {
                lemma_same_cells_whole(b, b.executed(byte));
            }
        },
        EventView::Csi { params, action, .. } => {
            lemma_controlled_whole(b, params, action);
            lemma_empty_whole(screen.primary.cols, screen.primary.rows);
        },
        EventView::Esc { byte, .. } => {
            lemma_line_fed_whole(b);
            lemma_empty_whole(b.cols, b.rows);
            if byte != 0x44 && byte != 0x45 && byte != 0x63 {
                lemma_same_cells_whole(b, b.escaped(byte));
            }
        },
    }
}

/// Whatever is drawn on a new screen, every wide glyph on it is whole.
pub proof fn lemma_drawn_glyphs_are_whole(cols: int, rows: int, events: Seq<EventView>)
    requires
        model::valid_dimensions(cols, rows),
    ensures
        ScreenView::fresh(cols, rows).after_all(events).wf(),
        ScreenView::fresh(cols, rows).after_all(events).whole(),
{
    lemma_drawn_so_far(cols, rows, events, events.len() as int);
}

proof fn lemma_drawn_so_far(cols: int, rows: int, events: Seq<EventView>, count: int)
    requires
        model::valid_dimensions(cols, rows),
        0 <= count <= events.len(),
    ensures
        ScreenView::fresh(cols, rows).after_first(events, count).wf(),
        ScreenView::fresh(cols, rows).after_first(events, count).whole(),
    decreases count,
{
    if count == 0 {
        upkeep::lemma_empty_wf(cols, rows);
        lemma_empty_whole(cols, rows);
    } else {
        lemma_drawn_so_far(cols, rows, events, count - 1);
        lemma_events_keep_glyphs_whole(
            ScreenView::fresh(cols, rows).after_first(events, count - 1),
            events[count - 1],
        );
    }
}

/// The text of every cell is as wide as the cell: two columns for the leading
/// half of a wide glyph, and one for any other cell that shows something.
pub open spec fn measured(b: BufferView) -> bool {
    forall|i: int|
        #![trigger b.trailing(i)]
        0 <= i < b.cells.len() && !b.trailing(i) ==> width::columns_of_text(b.cells[i].text)
            == if b.trailing(i + 1) {
            2int
        } else {
            1
        }
}

/// New dimensions keep every wide glyph whole: one that they cut goes as a whole.
pub proof fn lemma_resizing_keeps_glyphs_whole(b: BufferView, cols: int, rows: int)
    requires
        b.wf(),
        b.whole(),
        model::valid_dimensions(cols, rows),
    ensures
        b.resized(cols, rows).wf(),
        b.resized(cols, rows).whole(),
{
    upkeep::lemma_resized_wf(b, cols, rows);
    let c = b.resized(cols, rows);
    let kept = model::at_most(b.cols, cols);
    assert forall|i: int| 0 <= i < c.cells.len() implies {
        &&& #[trigger] c.leading(i) == c.trailing(i + 1)
        &&& c.trailing(i) || c.cells[i].text.len() > 0
    } by {
        let col = i % cols;
        let row = i / cols;
        upkeep::lemma_cell_of_position(cols, rows, i);
        assert(c.cells[i] == b.carried(cols, col, row));
        if c.trailing(i + 1) {
            assert((i + 1) % cols > 0);
        }
        if col + 1 < cols {
            upkeep::lemma_position(cols, rows, col + 1, row);
            assert((i + 1) % cols == col + 1 && (i + 1) / cols == row);
            assert(c.cells[i + 1] == b.carried(cols, col + 1, row));
        } else {
            assert(!c.trailing(i + 1)) by {
                if c.trailing(i + 1) {
                    upkeep::lemma_cell_of_position(cols, rows, i + 1);
                    if row + 1 < rows {
                        upkeep::lemma_position(cols, rows, 0, row + 1);
                        assert((row + 1) * cols == row * cols + cols) by (nonlinear_arith);
                    } else {
                        assert((rows - 1) * cols + cols == cols * rows) by (nonlinear_arith);
                        assert(row == rows - 1);
                    }
                }
            }
        }
        if col < kept && row < b.rows {
            upkeep::lemma_position(b.cols, b.rows, col, row);
            let k = b.at(col, row);
            assert(b.leading(k) == b.trailing(k + 1));
            assert(b.trailing(k) || !b.trailing(k));
            if col + 1 < b.cols {
                upkeep::lemma_position(b.cols, b.rows, col + 1, row);
                assert(b.at(col + 1, row) == k + 1);
            }
            if b.trailing(k) {
                assert(k % b.cols > 0);
                assert(!b.trailing(k - 1));
                assert(b.at(col - 1, row) == k - 1);
            }
            if b.trailing(k + 1) {
                assert((k + 1) % b.cols > 0);
                assert(!b.trailing((k + 1) - 1));
            }
        }
    }
}

/// Columns of what the first `count` columns of a row of the rectangle show,
/// each by itself.
pub open spec fn shown_columns(b: BufferView, rect: Rect, row: int, count: int) -> int
    decreases count,
{
    if count <= 0 {
        0
    } else {
        shown_columns(b, rect, row, count - 1) + width::columns_of_text(
            b.shown(rect, count - 1, row),
        )
    }
}

/// A row in its full width is as wide as its region, where the text of every cell
/// is as wide as the cell: the columns of what it shows, cell by cell, add up to
/// the columns of the region. A glyph that the region cuts in half counts one
/// column for the half that is inside.
pub proof fn lemma_rows_fill_their_region(b: BufferView, region: Option<Rect>, row: int)
    requires
        b.wf(),
        measured(b),
        0 <= row < b.clip(region).height,
    ensures
        shown_columns(b, b.clip(region), row, b.clip(region).width as int) == b.clip(
            region,
        ).width,
{
    lemma_columns_so_far(b, b.clip(region), row, b.clip(region).width as int);
}

/// The joined text of a row in its full width is as wide as its region, where the
/// text of every cell is as wide as the cell and the columns of the joined text
/// are those of its pieces. They need not be: letters that join to one sign take
/// fewer columns together. The region has as many rows as it is high, in full
/// width or not, and a trimmed row is the full one without the spaces at its end.
pub proof fn lemma_full_rows_are_as_wide_as_their_region(
    b: BufferView,
    region: Option<Rect>,
    row: int,
)
    requires
        b.wf(),
        measured(b),
        0 <= row < b.clip(region).height,
        width::columns_of_text(b.lines(region, true)[row]) == shown_columns(
            b,
            b.clip(region),
            row,
            b.clip(region).width as int,
        ),
    ensures
        width::columns_of_text(b.lines(region, true)[row]) == b.clip(region).width,
        b.lines(region, true).len() == b.clip(region).height,
        b.lines(region, false).len() == b.clip(region).height,
        b.lines(region, false)[row] == text::strip_end(b.lines(region, true)[row], ' '),
{
    lemma_rows_fill_their_region(b, region, row);
}

/// A row of printable ASCII has the columns of its pieces, so in full width it is
/// as wide as its region.
pub proof fn lemma_plain_rows_are_as_wide_as_their_region(
    b: BufferView,
    region: Option<Rect>,
    row: int,
)
    requires
        b.wf(),
        measured(b),
        0 <= row < b.clip(region).height,
        width::is_plain(b.lines(region, true)[row]),
    ensures
        width::columns_of_text(b.lines(region, true)[row]) == b.clip(region).width,
{
    let rect = b.clip(region);
    lemma_plain_pieces(b, rect, row, rect.width as int);
    lemma_full_rows_are_as_wide_as_their_region(b, region, row);
}

proof fn lemma_plain_pieces(b: BufferView, rect: Rect, row: int, count: int)
    requires
        0 <= count,
        width::is_plain(b.shown_until(rect, row, count)),
    ensures
        shown_columns(b, rect, row, count) == b.shown_until(rect, row, count).len(),
    decreases count,
{
    if count > 0 {
        let front = b.shown_until(rect, row, count - 1);
        let piece = b.shown(rect, count - 1, row);
        let all = b.shown_until(rect, row, count);
        assert(all == front + piece);
        assert forall|i: int| 0 <= i < front.len() implies width::is_printable_ascii(
            #[trigger] front[i],
        ) by {
            assert(all[i] == front[i]);
        }
        assert forall|i: int| 0 <= i < piece.len() implies width::is_printable_ascii(
            #[trigger] piece[i],
        ) by {
            assert(all[front.len() + i] == piece[i]);
        }
        lemma_plain_pieces(b, rect, row, count - 1);
    }
}

/// Whether a wide glyph reaches across column `count` of a row of the rectangle.
spec fn reaches_across(b: BufferView, rect: Rect, row: int, count: int) -> bool {
    0 < count < rect.width && b.trailing(b.at(rect.col + count, rect.row + row))
}

proof fn lemma_columns_so_far(b: BufferView, rect: Rect, row: int, count: int)
    requires
        b.wf(),
        measured(b),
        rect.col + rect.width <= b.cols,
        rect.row + rect.height <= b.rows,
        0 <= row < rect.height,
        0 <= count <= rect.width,
    ensures
        shown_columns(b, rect, row, count) == count + if reaches_across(b, rect, row, count) {
            1int
        } else {
            0
        },
    decreases count,
{
    if count > 0 {
        lemma_columns_so_far(b, rect, row, count - 1);
        let col = rect.col + count - 1;
        let line = rect.row + row;
        upkeep::lemma_position(b.cols, b.rows, col, line);
        let i = b.at(col, line);
        assert(b.trailing(i) || !b.trailing(i));
        if b.trailing(i + 1) {
            assert((i + 1) % b.cols > 0);
            assert(!b.trailing((i + 1) - 1));
        }
        if col + 1 < b.cols {
            assert(b.at(col + 1, line) == i + 1);
        } else {
            assert((i + 1) % b.cols == 0) by {
                vstd::arithmetic::div_mod::lemma_mod_multiples_basic(line + 1, b.cols);
                assert((line + 1) * b.cols == line * b.cols + b.cols) by (nonlinear_arith);
            }
        }
        assert(width::is_plain(seq![' ']));
        assert(width::is_plain(seq![]));
        assert(b.at(rect.col + (count - 1), rect.row + row) == i);
        assert(b.at(rect.col + count, rect.row + row) == i + 1);
        let shown = b.shown(rect, count - 1, row);
        if b.trailing(i) {
            assert(count == 1 ==> shown == seq![' ']);
            assert(count > 1 ==> shown.len() == 0);
            assert(width::columns_of_text(shown) == if count == 1 { 1int } else { 0 });
            assert(!b.trailing(i + 1));
        } else if b.trailing(i + 1) && count == rect.width {
            assert(shown == seq![' ']);
            assert(width::columns_of_text(shown) == 1);
        } else {
            assert(shown == b.cells[i].text);
        }
    }
}

} // verus!
