//! What is drawn, and what is erased.

use crate::cursor_laws;
use crate::model;
use crate::model::{CellView, Color, EventView, ScreenView, Style};
use crate::parser;
use crate::terminal::TerminalView;
use crate::upkeep;
use crate::width;
use vstd::prelude::*;

verus! {

/// The cell shows one space, in the given style.
pub open spec fn is_blank(cell: CellView, style: Style) -> bool {
    cell.text == seq![' '] && cell.style == style && !cell.continuation
}

/// The style in which nothing is set.
pub open spec fn is_unset(style: Style) -> bool {
    &&& style.foreground == Color::Default
    &&& style.background == Color::Default
    &&& !style.bold
    &&& !style.italic
    &&& !style.underline
    &&& !style.inverse
}

/// The first parameter selects `mode`; zero where it is missing.
pub open spec fn selects(params: Seq<Seq<u16>>, mode: int) -> bool {
    if params.len() > 0 && params[0].len() > 0 {
        mode == params[0][0]
    } else {
        mode == 0
    }
}

/// A printable ASCII character takes one column, and a control character none.
pub proof fn lemma_ascii_columns(ch: char)
    requires
        ch < '\u{80}',
    ensures
        width::columns_of(ch) == if ' ' <= ch && ch != '\u{7f}' {
            1int
        } else {
            0
        },
{
}

/// A character of `columns` columns that fits into the row stands in the cell of
/// the cursor, in the style that is set, with an empty trailing cell behind it
/// where it is a wide one. The cursor goes past it, or waits in the last column
/// for the next character. Every other cell stays, but for the other half of a
/// wide glyph that is covered in part, which becomes blank.
pub proof fn lemma_print_stands_at_the_cursor(screen: ScreenView, ch: char, columns: int)
    requires
        screen.wf(),
        columns == width::columns_of(ch),
        0 < columns <= screen.active().cols,
        !screen.active().pending_wrap,
        columns == 2 ==> screen.active().cursor_col < screen.active().cols - 1,
    ensures
        ({
            let b = screen.active();
            let after = screen.after(EventView::Print(ch)).active();
            let at = b.cursor_row * b.cols + b.cursor_col;
            let behind = if columns == 2 {
                at + 2
            } else {
                at + 1
            };
            &&& 0 <= at < b.cells.len()
            &&& after.cells.len() == b.cells.len()
            &&& after.cells[at].text == seq![ch]
            &&& after.cells[at].style == b.style
            &&& !after.cells[at].continuation
            &&& columns == 2 ==> {
                &&& after.cells[at + 1].text.len() == 0
                &&& after.cells[at + 1].style == b.style
                &&& after.cells[at + 1].continuation
            }
            &&& forall|i: int|
                0 <= i < b.cells.len() && !(at <= i < behind) ==> if (i == at - 1
                    && b.cells[at].continuation) || (i == behind && b.cells[i].continuation) {
                    is_blank(#[trigger] after.cells[i], b.style)
                } else {
                    after.cells[i] == b.cells[i]
                }
            &&& after.cursor_row == b.cursor_row
            &&& b.cursor_col + columns < b.cols ==> after.cursor_col == b.cursor_col + columns
                && !after.pending_wrap
            &&& b.cursor_col + columns >= b.cols ==> after.cursor_col == b.cols - 1
                && after.pending_wrap
            &&& after.last_printed == Some(at)
            &&& after.cols == b.cols
            &&& after.rows == b.rows
            &&& after.style == b.style
            &&& after.saved_cursor == b.saved_cursor
        }),
{
    let b = screen.active();
    upkeep::lemma_position(b.cols, b.rows, b.cursor_col, b.cursor_row);
    let at = b.cursor();
    if columns == 2 {
        upkeep::lemma_position(b.cols, b.rows, b.cursor_col + 1, b.cursor_row);
    }
    assert(b.trailing(at) ==> !b.trailing(at - 1) && b.cursor_col > 0);
    assert(b.trailing(at + 1) ==> !b.trailing(at));
    assert(b.trailing(at + 2) ==> !b.trailing(at + 1));
}

/// A character that comes while the last one waits in the last column, or a wide
/// one for which the row has one column left, is printed as if a next-line sequence
/// had come before it.
pub proof fn lemma_print_wraps(screen: ScreenView, ch: char)
    requires
        screen.wf(),
        0 < width::columns_of(ch) <= screen.active().cols,
        screen.active().pending_wrap || (width::columns_of(ch) == 2 && screen.active().cursor_col
            == screen.active().cols - 1),
    ensures
        screen.after(EventView::Print(ch)).active() == screen.after(cursor_laws::esc(0x45)).after(
            EventView::Print(ch),
        ).active(),
{
    upkeep::lemma_line_fed_wf(screen.active());
}

/// A character wider than the screen is shown as U+FFFD.
pub proof fn lemma_print_too_wide(screen: ScreenView, ch: char)
    requires
        screen.wf(),
        width::columns_of(ch) > screen.active().cols,
    ensures
        screen.after(EventView::Print(ch)).active() == screen.after(
            EventView::Print('\u{fffd}'),
        ).active(),
{
}

/// A combining mark joins the character that was printed right before it, and moves
/// nothing; where there is none, it is dropped.
pub proof fn lemma_print_combines(screen: ScreenView, ch: char, mark: char)
    requires
        screen.wf(),
        0 < width::columns_of(ch) <= screen.active().cols,
        width::columns_of(mark) == 0,
    ensures
        ({
            let one = screen.after(EventView::Print(ch)).active();
            let both = screen.after(EventView::Print(ch)).after(EventView::Print(mark)).active();
            &&& one.last_printed matches Some(at) && {
                &&& one.cells[at].text == seq![ch]
                &&& both.cells[at].text == seq![ch, mark]
                &&& both.cells[at].style == one.cells[at].style
                &&& both.cells[at].continuation == one.cells[at].continuation
                &&& forall|i: int|
                    0 <= i < one.cells.len() && i != at ==> #[trigger] both.cells[i]
                        == one.cells[i]
            }
            &&& both.cells.len() == one.cells.len()
            &&& both.cursor_col == one.cursor_col
            &&& both.cursor_row == one.cursor_row
            &&& both.pending_wrap == one.pending_wrap
            &&& both.last_printed == one.last_printed
            &&& screen.active().last_printed is None ==> screen.after(EventView::Print(mark))
                == screen
        }),
{
    let b = screen.active();
    let columns = width::columns_of(ch);
    if b.pending_wrap || (columns == 2 && b.cursor_col == b.cols - 1) {
        let next = screen.after(cursor_laws::esc(0x45));
        lemma_print_wraps(screen, ch);
        upkeep::lemma_line_fed_wf(b);
        upkeep::lemma_after_wf(screen, cursor_laws::esc(0x45));
        lemma_print_stands_at_the_cursor(next, ch, columns);
    } else {
        lemma_print_stands_at_the_cursor(screen, ch, columns);
    }
}

/// Erasing in the display covers the cells from the cursor on, those up to the
/// cursor, or all of them. What is covered becomes blank in the style that is set,
/// with the other half of a wide glyph that is covered in part; every other cell
/// and the cursor stay.
pub proof fn lemma_erase_in_display(screen: ScreenView, params: Seq<Seq<u16>>, mode: int, i: int)
    requires
        screen.wf(),
        selects(params, mode),
        0 <= i < screen.active().cells.len(),
    ensures
        ({
            let b = screen.active();
            let after = screen.after(cursor_laws::csi(params, 'J')).active();
            let at = b.cursor_row * b.cols + b.cursor_col;
            let covered = {
                ||| mode == 0 && i >= at
                ||| mode == 1 && i <= at
                ||| mode == 2
                ||| mode == 3
            };
            let cut = {
                ||| mode == 0 && i == at - 1 && b.cells[at].continuation
                ||| mode == 1 && i == at + 1 && b.cells[i].continuation
            };
            &&& covered || cut ==> is_blank(after.cells[i], b.style)
            &&& !covered && !cut ==> after.cells[i] == b.cells[i]
            &&& after.cells.len() == b.cells.len()
            &&& after.cursor_col == b.cursor_col
            &&& after.cursor_row == b.cursor_row
            &&& after.style == b.style
            &&& after.saved_cursor == b.saved_cursor
            &&& after.pending_wrap == (b.pending_wrap && mode > 3)
        }),
{
    let b = screen.active();
    upkeep::lemma_position(b.cols, b.rows, b.cursor_col, b.cursor_row);
    assert(!b.trailing(0)) by {
        assert(0int % b.cols == 0);
    }
}

/// Erasing in the line covers the cells of the cursor's row from the cursor on,
/// those up to the cursor, or the whole row. What is covered becomes blank in the
/// style that is set, with the other half of a wide glyph that is covered in part;
/// every other cell and the cursor stay.
pub proof fn lemma_erase_in_line(
    screen: ScreenView,
    params: Seq<Seq<u16>>,
    mode: int,
    col: int,
    row: int,
)
    requires
        screen.wf(),
        selects(params, mode),
        0 <= col < screen.active().cols,
        0 <= row < screen.active().rows,
    ensures
        ({
            let b = screen.active();
            let after = screen.after(cursor_laws::csi(params, 'K')).active();
            let i = row * b.cols + col;
            let at = b.cursor_row * b.cols + b.cursor_col;
            let covered = row == b.cursor_row && {
                ||| mode == 0 && col >= b.cursor_col
                ||| mode == 1 && col <= b.cursor_col
                ||| mode == 2
            };
            let cut = row == b.cursor_row && {
                ||| mode == 0 && col == b.cursor_col - 1 && b.cells[at].continuation
                ||| mode == 1 && col == b.cursor_col + 1 && b.cells[i].continuation
            };
            &&& covered || cut ==> is_blank(after.cells[i], b.style)
            &&& !covered && !cut ==> after.cells[i] == b.cells[i]
            &&& after.cells.len() == b.cells.len()
            &&& after.cursor_col == b.cursor_col
            &&& after.cursor_row == b.cursor_row
            &&& after.style == b.style
            &&& after.saved_cursor == b.saved_cursor
            &&& after.pending_wrap == (b.pending_wrap && mode > 2)
        }),
{
    let b = screen.active();
    upkeep::lemma_position(b.cols, b.rows, b.cursor_col, b.cursor_row);
    upkeep::lemma_position(b.cols, b.rows, 0, b.cursor_row);
    upkeep::lemma_position(b.cols, b.rows, col, row);
    let start = b.cursor_row * b.cols;
    assert(!b.trailing(start));
    assert(!b.trailing(start + b.cols)) by {
        if b.cursor_row + 1 < b.rows {
            upkeep::lemma_position(b.cols, b.rows, 0, b.cursor_row + 1);
            assert((b.cursor_row + 1) * b.cols == start + b.cols) by (nonlinear_arith)
                requires
                    start == b.cursor_row * b.cols,
            ;
        } else {
            assert(b.rows * b.cols == start + b.cols) by (nonlinear_arith)
                requires
                    start == b.cursor_row * b.cols,
                    b.cursor_row == b.rows - 1,
            ;
            assert(b.cols * b.rows == b.rows * b.cols) by (nonlinear_arith);
        }
    }
    if row < b.cursor_row {
        assert(row * b.cols + b.cols <= start) by (nonlinear_arith)
            requires
                row < b.cursor_row,
                b.cols > 0,
                start == b.cursor_row * b.cols,
        ;
    } else if row > b.cursor_row {
        assert(start + b.cols <= row * b.cols) by (nonlinear_arith)
            requires
                row > b.cursor_row,
                b.cols > 0,
                start == b.cursor_row * b.cols,
        ;
    }
}

/// A screen that was just made is blank, with the cursor in the corner and nothing
/// set; a reset makes the shown buffer such a one, and entering the alternate
/// buffer shows such a one, each with as many columns and rows as before.
pub proof fn lemma_blank_screens(
    screen: ScreenView,
    enter: EventView,
    cols: int,
    rows: int,
    i: int,
)
    requires
        screen.wf(),
        model::valid_dimensions(cols, rows),
        enter == (EventView::Csi {
            params: seq![seq![1049u16]],
            intermediates: seq![0x3fu8],
            malformed: false,
            action: 'h',
        }),
    ensures
        ({
            let fresh = ScreenView::fresh(cols, rows);
            let reset = screen.after(cursor_laws::esc(0x63)).active();
            let b = fresh.active();
            &&& fresh.alternate is None
            &&& fresh.version == 0
            &&& b.cols == cols
            &&& b.rows == rows
            &&& b.cells.len() == cols * rows
            &&& 0 <= i < cols * rows ==> is_blank(b.cells[i], b.style)
            &&& is_unset(b.style)
            &&& b.cursor_col == 0
            &&& b.cursor_row == 0
            &&& b.saved_cursor == (0int, 0int)
            &&& !b.pending_wrap
            &&& b.last_printed is None
            &&& screen.active().cols == cols && screen.active().rows == rows ==> reset == b
            &&& screen.alternate is None && screen.primary.cols == cols && screen.primary.rows
                == rows ==> {
                let entered = screen.after(enter);
                &&& entered.alternate == Some(b)
                &&& entered.active() == b
                &&& entered.primary == screen.primary
            }
        }),
{
}

/// The number of changes goes up by one, and comes back to zero behind the largest
/// number, or it stays. For a control sequence, a movement and a restored cursor
/// it goes up exactly where a cell, the cursor, a wait to wrap or the style is
/// another one afterwards; for a reset, where anything of the buffer is. A line
/// feed always counts, and so does a character, unless it is a mark without
/// anything to join.
pub proof fn lemma_changes_are_counted(screen: ScreenView, event: EventView)
    requires
        screen.wf(),
    ensures
        ({
            let b = screen.active();
            let after = screen.after(event);
            let a = after.active();
            let differs = {
                ||| a.cells != b.cells
                ||| a.cursor_col != b.cursor_col
                ||| a.cursor_row != b.cursor_row
                ||| a.pending_wrap != b.pending_wrap
                ||| a.style != b.style
            };
            let counts = match event {
                EventView::Print(ch) => width::columns_of(ch) > 0 || b.last_printed is Some,
                EventView::Execute(byte) => 0x0a <= byte <= 0x0c || differs,
                EventView::Csi { intermediates, .. } => if intermediates.len() > 0 {
                    after.alternate is Some != screen.alternate is Some
                } else {
                    differs
                },
                EventView::Esc { intermediates, malformed, byte } => !malformed
                    && intermediates.len() == 0 && (byte == 0x44 || byte == 0x45 || (byte == 0x38
                    && differs) || (byte == 0x63 && a != b)),
            };
            &&& counts && screen.version < u64::MAX ==> after.version == screen.version + 1
            &&& counts && screen.version == u64::MAX ==> after.version == 0
            &&& !counts ==> after.version == screen.version
        }),
{
}

/// A sequence that carries more than fits into it, or an intermediate byte, does
/// nothing, but for the two that show and leave the alternate buffer.
pub proof fn lemma_marked_sequences_do_nothing(screen: ScreenView, event: EventView)
    requires
        match event {
            EventView::Csi { params, intermediates, malformed, action } => malformed || (
            intermediates.len() > 0 && !(intermediates == seq![0x3fu8] && (action == 'h' || action
                == 'l') && params.len() > 0 && params[0].len() > 0 && params[0][0] == 1049)),
            EventView::Esc { intermediates, malformed, .. } => malformed || intermediates.len() > 0,
            _ => false,
        },
    ensures
        screen.after(event) == screen,
{
}

/// Private mode 1049 shows a blank alternate buffer when it is set and brings back
/// the primary one, as it was, when it is reset; setting or resetting it twice does
/// nothing the second time.
pub proof fn lemma_alternate_buffer(screen: ScreenView, params: Seq<Seq<u16>>)
    requires
        params.len() > 0,
        params[0].len() > 0,
        params[0][0] == 1049,
    ensures
        ({
            let mode = |action: char|
                EventView::Csi {
                    params,
                    intermediates: seq![0x3fu8],
                    malformed: false,
                    action,
                };
            let set = screen.after(mode('h'));
            let reset = screen.after(mode('l'));
            &&& set.alternate is Some
            &&& set.primary == screen.primary
            &&& reset.alternate is None
            &&& reset.primary == screen.primary
            &&& screen.alternate is Some ==> set == screen
            &&& screen.alternate is None ==> reset == screen
            &&& screen.alternate is None ==> set.after(mode('l')).active() == screen.active()
            &&& set.after(mode('h')) == set
            &&& reset.after(mode('l')) == reset
        }),
{
}

/// An event draws on the buffer that is shown, and leaves the other one.
pub proof fn lemma_the_shown_buffer_is_drawn_on(screen: ScreenView, ch: char)
    ensures
        screen.alternate is Some ==> screen.active() == screen.alternate->0,
        screen.alternate is None ==> screen.active() == screen.primary,
        screen.alternate is Some ==> screen.after(EventView::Print(ch)).primary == screen.primary,
        screen.alternate is None ==> screen.after(EventView::Print(ch)).alternate is None,
{
}

/// Events are performed one after the other, each once, from the first to the last.
pub proof fn lemma_events_come_one_after_the_other(
    screen: ScreenView,
    events: Seq<EventView>,
    last: EventView,
)
    ensures
        screen.after_all(seq![]) == screen,
        screen.after_all(events.push(last)) == screen.after_all(events).after(last),
{
    lemma_same_events(screen, events.push(last), events, events.len() as int);
}

proof fn lemma_same_events(
    screen: ScreenView,
    a: Seq<EventView>,
    b: Seq<EventView>,
    count: int,
)
    requires
        count <= a.len(),
        count <= b.len(),
        forall|i: int| 0 <= i < count ==> a[i] == b[i],
    ensures
        screen.after_first(a, count) == screen.after_first(b, count),
    decreases count,
{
    if count > 0 {
        lemma_same_events(screen, a, b, count - 1);
    }
}

/// A terminal shows what all the events of the bytes that it received draw on a
/// blank screen, whatever the reads in which they came: a read keeps this.
pub proof fn lemma_terminals_show_what_they_received(
    before: TerminalView,
    bytes: Seq<u8>,
    after: TerminalView,
    cols: int,
    rows: int,
)
    requires
        before.advances_to(bytes, after),
        before.screen == ScreenView::fresh(cols, rows).after_all(parser::parsed(before.received)),
    ensures
        after.received == before.received + bytes,
        after.screen == ScreenView::fresh(cols, rows).after_all(
            parser::parsed(before.received + bytes),
        ),
{
    let fresh = after.events().skip(before.events().len() as int);
    upkeep::lemma_after_all_joins(ScreenView::fresh(cols, rows), before.events(), fresh);
}

} // verus!
