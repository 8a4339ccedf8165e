//! Where the cursor goes.

use crate::model::{BufferView, EventView, ScreenView};
use crate::upkeep;
use vstd::prelude::*;

verus! {

/// A control sequence without a private marker or an intermediate byte.
pub open spec fn csi(params: Seq<Seq<u16>>, action: char) -> EventView {
    EventView::Csi { params, intermediates: seq![], malformed: false, action }
}

/// An escape sequence without an intermediate byte.
pub open spec fn esc(byte: u8) -> EventView {
    EventView::Esc { intermediates: seq![], malformed: false, byte }
}

/// Parameter `i` asks for `n`: it is `n`, or it is zero or missing and `n` is one.
pub open spec fn asks_for(params: Seq<Seq<u16>>, i: int, n: int) -> bool {
    if 0 <= i < params.len() && params[i].len() > 0 && params[i][0] > 0 {
        n == params[i][0]
    } else {
        n == 1
    }
}

/// The two buffers differ in the place of the cursor at most.
pub open spec fn same_but_for_the_cursor(a: BufferView, b: BufferView) -> bool {
    &&& a.cols == b.cols
    &&& a.rows == b.rows
    &&& a.cells == b.cells
    &&& a.saved_cursor == b.saved_cursor
    &&& a.style == b.style
}

/// Up, down, right and left move the cursor by exactly as many rows or columns as
/// the parameter says, and stop at the edge of the screen. The other coordinate
/// stays.
pub proof fn lemma_cursor_moves_by_its_amount(screen: ScreenView, params: Seq<Seq<u16>>, n: int)
    requires
        screen.wf(),
        asks_for(params, 0, n),
    ensures
        ({
            let b = screen.active();
            let up = screen.after(csi(params, 'A')).active();
            let down = screen.after(csi(params, 'B')).active();
            let right = screen.after(csi(params, 'C')).active();
            let left = screen.after(csi(params, 'D')).active();
            &&& up.cursor_col == b.cursor_col
            &&& n <= b.cursor_row ==> up.cursor_row == b.cursor_row - n
            &&& n > b.cursor_row ==> up.cursor_row == 0
            &&& down.cursor_col == b.cursor_col
            &&& b.cursor_row + n < b.rows ==> down.cursor_row == b.cursor_row + n
            &&& b.cursor_row + n >= b.rows ==> down.cursor_row == b.rows - 1
            &&& right.cursor_row == b.cursor_row
            &&& b.cursor_col + n < b.cols ==> right.cursor_col == b.cursor_col + n
            &&& b.cursor_col + n >= b.cols ==> right.cursor_col == b.cols - 1
            &&& left.cursor_row == b.cursor_row
            &&& n <= b.cursor_col ==> left.cursor_col == b.cursor_col - n
            &&& n > b.cursor_col ==> left.cursor_col == 0
        }),
{
}

/// The next-line and previous-line sequences move the cursor by as many rows as
/// the parameter says, stop at the edge, and go to the first column.
pub proof fn lemma_cursor_moves_by_lines(screen: ScreenView, params: Seq<Seq<u16>>, n: int)
    requires
        screen.wf(),
        asks_for(params, 0, n),
    ensures
        ({
            let b = screen.active();
            let down = screen.after(csi(params, 'E')).active();
            let up = screen.after(csi(params, 'F')).active();
            &&& down.cursor_col == 0
            &&& b.cursor_row + n < b.rows ==> down.cursor_row == b.cursor_row + n
            &&& b.cursor_row + n >= b.rows ==> down.cursor_row == b.rows - 1
            &&& up.cursor_col == 0
            &&& n <= b.cursor_row ==> up.cursor_row == b.cursor_row - n
            &&& n > b.cursor_row ==> up.cursor_row == 0
        }),
{
}

/// Addressing counts rows and columns from one, the row first, and stops at the
/// last ones; wherever the cursor was before makes no difference.
pub proof fn lemma_cursor_goes_where_it_is_sent(
    screen: ScreenView,
    params: Seq<Seq<u16>>,
    row: int,
    col: int,
)
    requires
        screen.wf(),
        asks_for(params, 0, row),
        asks_for(params, 1, col),
    ensures
        ({
            let b = screen.active();
            let sent = screen.after(csi(params, 'H')).active();
            &&& row <= b.rows ==> sent.cursor_row == row - 1
            &&& row > b.rows ==> sent.cursor_row == b.rows - 1
            &&& col <= b.cols ==> sent.cursor_col == col - 1
            &&& col > b.cols ==> sent.cursor_col == b.cols - 1
            &&& screen.after(csi(params, 'f')).active() == sent
        }),
{
}

/// Addressing a column counts from one, stops at the last one and keeps the row.
pub proof fn lemma_cursor_goes_to_its_column(screen: ScreenView, params: Seq<Seq<u16>>, col: int)
    requires
        screen.wf(),
        asks_for(params, 0, col),
    ensures
        ({
            let b = screen.active();
            let sent = screen.after(csi(params, 'G')).active();
            &&& sent.cursor_row == b.cursor_row
            &&& col <= b.cols ==> sent.cursor_col == col - 1
            &&& col > b.cols ==> sent.cursor_col == b.cols - 1
            &&& screen.after(csi(params, '`')).active() == sent
        }),
{
}

/// A movement changes no cell, neither the style nor the saved cursor, and nothing
/// waits to wrap or to be joined by a combining mark afterwards.
pub proof fn lemma_movements_only_move(screen: ScreenView, event: EventView)
    requires
        screen.wf(),
        ({
            ||| event matches EventView::Csi { params, action, .. } && event == csi(params, action)
                && ('A' <= action <= 'H' || action == '`' || action == 'f' || action == 'u')
            ||| event == EventView::Execute(0x08)
            ||| event == EventView::Execute(0x09)
            ||| event == EventView::Execute(0x0d)
            ||| event == esc(0x38)
        }),
    ensures
        same_but_for_the_cursor(screen.after(event).active(), screen.active()),
        !screen.after(event).active().pending_wrap,
        screen.after(event).active().last_printed is None,
        screen.after(event).alternate is Some == screen.alternate is Some,
        screen.alternate is Some ==> screen.after(event).primary == screen.primary,
{
}

/// Up and down by the same number of rows, or right and left by the same number of
/// columns, in either order, bring the cursor back where neither reaches the edge.
pub proof fn lemma_movements_undo_each_other(screen: ScreenView, params: Seq<Seq<u16>>, n: int)
    requires
        screen.wf(),
        asks_for(params, 0, n),
    ensures
        ({
            let b = screen.active();
            let there_and_back = |first: char, second: char|
                screen.after(csi(params, first)).after(csi(params, second)).active();
            let home = |back: BufferView|
                back.cursor_col == b.cursor_col && back.cursor_row == b.cursor_row;
            &&& n <= b.cursor_row ==> home(there_and_back('A', 'B'))
            &&& b.cursor_row + n < b.rows ==> home(there_and_back('B', 'A'))
            &&& b.cursor_col + n < b.cols ==> home(there_and_back('C', 'D'))
            &&& n <= b.cursor_col ==> home(there_and_back('D', 'C'))
        }),
{
    assert(screen.after(csi(params, 'A')).wf()) by {
        upkeep::lemma_after_wf(screen, csi(params, 'A'));
    }
}

/// Two movements in one direction go as far as one by the sum of their amounts.
pub proof fn lemma_movements_add_up(screen: ScreenView, n: u16, m: u16)
    requires
        screen.wf(),
        n > 0,
        m > 0,
        n + m <= u16::MAX,
    ensures
        forall|action: char|
            'A' <= action <= 'D' ==> #[trigger] screen.after(csi(seq![seq![n]], action)).after(
                csi(seq![seq![m]], action),
            ).active() == screen.after(csi(seq![seq![(n + m) as u16]], action)).active(),
{
}

/// A carriage return goes to the first column of the row.
pub proof fn lemma_carriage_return(screen: ScreenView)
    requires
        screen.wf(),
    ensures
        screen.after(EventView::Execute(0x0d)).active().cursor_col == 0,
        screen.after(EventView::Execute(0x0d)).active().cursor_row == screen.active().cursor_row,
{
}

/// A backspace goes one column to the left, and stays in the first one.
pub proof fn lemma_backspace(screen: ScreenView)
    requires
        screen.wf(),
    ensures
        ({
            let b = screen.active();
            let back = screen.after(EventView::Execute(0x08)).active();
            &&& back.cursor_row == b.cursor_row
            &&& b.cursor_col > 0 ==> back.cursor_col == b.cursor_col - 1
            &&& b.cursor_col == 0 ==> back.cursor_col == 0
        }),
{
}

/// A tab goes to the nearest column to the right that is a multiple of eight, or
/// to the last column where there is none.
pub proof fn lemma_tab(screen: ScreenView, col: int)
    requires
        screen.wf(),
    ensures
        ({
            let b = screen.active();
            let tabbed = screen.after(EventView::Execute(0x09)).active();
            &&& tabbed.cursor_row == b.cursor_row
            &&& b.cursor_col < b.cols - 1 ==> b.cursor_col < tabbed.cursor_col < b.cols
            &&& b.cursor_col == b.cols - 1 ==> tabbed.cursor_col == b.cursor_col
            &&& tabbed.cursor_col % 8 == 0 || tabbed.cursor_col == b.cols - 1
            &&& b.cursor_col < col < tabbed.cursor_col ==> col % 8 != 0
        }),
{
    let b = screen.active();
    let stop = (b.cursor_col / 8 + 1) * 8;
    assert(stop % 8 == 0 && b.cursor_col < stop <= b.cursor_col + 8);
    assert(b.cursor_col < col < stop ==> col / 8 == b.cursor_col / 8);
}

/// A line feed above the last row goes one row down and keeps the column and every
/// cell. In the last row the cursor stays, each row takes the place of the one
/// above it, and the last row becomes blank in the style that is set. A vertical
/// tab, a form feed and the index sequence do the same; the next-line sequence
/// does, and goes to the first column.
pub proof fn lemma_line_feed(screen: ScreenView)
    requires
        screen.wf(),
    ensures
        ({
            let b = screen.active();
            let fed = screen.after(EventView::Execute(0x0a)).active();
            &&& fed.cursor_col == b.cursor_col
            &&& fed.cols == b.cols
            &&& fed.rows == b.rows
            &&& fed.style == b.style
            &&& fed.saved_cursor == b.saved_cursor
            &&& !fed.pending_wrap
            &&& fed.last_printed is None
            &&& b.cursor_row < b.rows - 1 ==> {
                &&& fed.cursor_row == b.cursor_row + 1
                &&& fed.cells == b.cells
            }
            &&& b.cursor_row == b.rows - 1 ==> {
                &&& fed.cursor_row == b.cursor_row
                &&& fed.cells.len() == b.cells.len()
                &&& forall|i: int|
                    0 <= i < b.cells.len() - b.cols ==> #[trigger] fed.cells[i] == b.cells[i
                        + b.cols]
                &&& forall|i: int|
                    b.cells.len() - b.cols <= i < b.cells.len() ==> {
                        &&& #[trigger] fed.cells[i].text == seq![' ']
                        &&& fed.cells[i].style == b.style
                        &&& !fed.cells[i].continuation
                    }
            }
            &&& screen.after(EventView::Execute(0x0b)).active() == fed
            &&& screen.after(EventView::Execute(0x0c)).active() == fed
            &&& screen.after(esc(0x44)).active() == fed
            &&& screen.after(esc(0x45)).active() == screen.after(EventView::Execute(0x0d)).after(
                EventView::Execute(0x0a),
            ).active()
        }),
{
    let b = screen.active();
    upkeep::lemma_position(b.cols, b.rows, 0, b.rows - 1);
    assert(b.cols * b.rows >= b.cols) by (nonlinear_arith)
        requires
            b.cols > 0,
            b.rows > 0,
    ;
}

/// The control bytes that are not named by another law do nothing.
pub proof fn lemma_other_control_bytes_do_nothing(screen: ScreenView, byte: u8)
    requires
        !(0x08 <= byte <= 0x0d),
    ensures
        screen.after(EventView::Execute(byte)) == screen,
{
}

/// Saving and restoring in a row keeps the cursor where it is, and a save makes the
/// next restore come back from wherever the cursor was sent meanwhile, with either
/// spelling of the two. A cursor that was never saved is restored to the corner.
pub proof fn lemma_saved_cursor_is_restored(
    screen: ScreenView,
    save: EventView,
    params: Seq<Seq<u16>>,
    restore: EventView,
)
    requires
        screen.wf(),
        save == esc(0x37) || exists|p: Seq<Seq<u16>>| save == csi(p, 's'),
        restore == esc(0x38) || exists|p: Seq<Seq<u16>>| restore == csi(p, 'u'),
    ensures
        ({
            let b = screen.active();
            let saved = screen.after(save).active();
            let at_once = screen.after(save).after(restore).active();
            let later = screen.after(save).after(csi(params, 'H')).after(restore).active();
            &&& same_but_for_the_cursor(BufferView { saved_cursor: b.saved_cursor, ..saved }, b)
            &&& saved.cursor_col == b.cursor_col
            &&& saved.cursor_row == b.cursor_row
            &&& saved.pending_wrap == b.pending_wrap
            &&& screen.after(save).version == screen.version
            &&& at_once.cursor_col == b.cursor_col
            &&& at_once.cursor_row == b.cursor_row
            &&& later.cursor_col == b.cursor_col
            &&& later.cursor_row == b.cursor_row
        }),
        forall|cols: int, rows: int, events: Seq<EventView>|
            #![trigger ScreenView::fresh(cols, rows).after_all(events)]
            events == seq![csi(params, 'H'), restore] ==> {
                let b = ScreenView::fresh(cols, rows).after_all(events).active();
                b.cursor_col == 0 && b.cursor_row == 0
            },
{
    reveal_with_fuel(ScreenView::after_first, 3);
}

} // verus!
