//! What holds of a screen as a whole.

use crate::model;
use crate::model::{BufferView, CellView, EventView, Rect, ScreenView, Style};
use crate::text;
use crate::upkeep;
use crate::width;
use vstd::prelude::*;

verus! {

/// A control sequence with the given final character, without a private marker
/// or an intermediate byte.
pub open spec fn is_plain_csi(event: EventView, final_char: char) -> bool {
    event matches EventView::Csi { intermediates, malformed, action, .. } && !malformed
        && intermediates.len() == 0 && action == final_char
}

/// An escape sequence with the given final byte, without an intermediate byte.
pub open spec fn is_plain_esc(event: EventView, final_byte: u8) -> bool {
    event matches EventView::Esc { intermediates, malformed, byte } && !malformed
        && intermediates.len() == 0 && byte == final_byte
}

/// The sequence that shows the alternate buffer, or the one that leaves it.
pub open spec fn is_switch(event: EventView) -> bool {
    event matches EventView::Csi { params, intermediates, malformed, action } && !malformed
        && model::switches_buffer(params, intermediates, action)
}

/// The sequence that leaves the alternate buffer.
pub open spec fn is_leave(event: EventView) -> bool {
    is_switch(event) && event->action == 'l'
}

/// The sequence that shows the alternate buffer.
pub open spec fn is_enter(event: EventView) -> bool {
    is_switch(event) && event->action == 'h'
}

/// An event counts at most one change, and one that counts none leaves every
/// cell, the cursor, the style and the choice of the buffer as they were.
pub proof fn lemma_version_tells_changes(screen: ScreenView, event: EventView)
    requires
        screen.wf(),
    ensures
        ({
            let after = screen.after(event);
            ||| after.version == screen.touched().version
            ||| {
                &&& after.version == screen.version
                &&& after.alternate is Some == screen.alternate is Some
                &&& after.active().cells == screen.active().cells
                &&& !after.active().cursor_differs(screen.active())
                &&& after.active().style == screen.active().style
            }
        }),
{
}

/// While the alternate buffer is shown, nothing but leaving it touches the
/// primary one.
pub proof fn lemma_alternate_shields_primary(screen: ScreenView, events: Seq<EventView>)
    requires
        screen.alternate is Some,
        forall|i: int| 0 <= i < events.len() ==> !is_leave(#[trigger] events[i]),
    ensures
        screen.after_all(events).primary == screen.primary,
        screen.after_all(events).alternate is Some,
{
    lemma_shielded(screen, events, events.len() as int);
}

proof fn lemma_shielded(screen: ScreenView, events: Seq<EventView>, count: int)
    requires
        screen.alternate is Some,
        0 <= count <= events.len(),
        forall|i: int| 0 <= i < events.len() ==> !is_leave(#[trigger] events[i]),
    ensures
        screen.after_first(events, count).primary == screen.primary,
        screen.after_first(events, count).alternate is Some,
    decreases count,
{
    if count > 0 {
        lemma_shielded(screen, events, count - 1);
        assert(!is_leave(events[count - 1]));
    }
}

/// Entering the alternate buffer, drawing there and leaving it brings back the
/// primary buffer as it was.
pub proof fn lemma_leaving_restores_primary(
    screen: ScreenView,
    enter: EventView,
    events: Seq<EventView>,
    leave: EventView,
)
    requires
        screen.alternate is None,
        is_enter(enter),
        is_leave(leave),
        forall|i: int| 0 <= i < events.len() ==> !is_leave(#[trigger] events[i]),
    ensures
        screen.after(enter).after_all(events).after(leave).active() == screen.active(),
        screen.after(enter).after_all(events).after(leave).alternate is None,
{
    lemma_alternate_shields_primary(screen.after(enter), events);
}

/// A second request for the alternate buffer, or a request to leave it where it
/// is not shown, does nothing.
pub proof fn lemma_switching_twice_does_nothing(screen: ScreenView, event: EventView)
    requires
        is_enter(event) && screen.alternate is Some || is_leave(event) && screen.alternate is None,
    ensures
        screen.after(event) == screen,
{
}

/// An event that saves the cursor.
pub open spec fn saves_cursor(event: EventView) -> bool {
    is_plain_esc(event, 0x37) || is_plain_csi(event, 's')
}

/// An event that brings the saved cursor back.
pub open spec fn restores_cursor(event: EventView) -> bool {
    is_plain_esc(event, 0x38) || is_plain_csi(event, 'u')
}

/// An event that leaves the saved cursor alone: all but saving another one,
/// resetting the terminal and switching the buffer.
pub open spec fn keeps_saved_cursor(event: EventView) -> bool {
    !saves_cursor(event) && !is_plain_esc(event, 0x63) && !is_switch(event)
}

/// A saved cursor comes back, whatever was drawn in between: no wrap is pending
/// then, and the next character that fits into the row stands at the restored
/// place.
pub proof fn lemma_cursor_comes_back(
    screen: ScreenView,
    save: EventView,
    events: Seq<EventView>,
    restore: EventView,
    ch: char,
)
    requires
        screen.wf(),
        saves_cursor(save),
        restores_cursor(restore),
        forall|i: int| 0 <= i < events.len() ==> keeps_saved_cursor(#[trigger] events[i]),
    ensures
        ({
            let start = screen.active();
            let end = screen.after(save).after_all(events).after(restore);
            &&& end.active().cursor_col == start.cursor_col
            &&& end.active().cursor_row == start.cursor_row
            &&& !end.active().pending_wrap
            &&& 0 < width::columns_of(ch) <= start.cols - start.cursor_col ==> end.after(
                EventView::Print(ch),
            ).active().cells[start.cursor()].text == seq![ch]
        }),
{
    let saved = screen.after(save);
    let drawn = saved.after_all(events);
    upkeep::lemma_after_wf(screen, save);
    lemma_saved_cursor_stays(saved, events, events.len() as int);
    upkeep::lemma_after_wf(drawn, restore);
    let end = drawn.after(restore).active();
    let columns = width::columns_of(ch);
    if 0 < columns <= end.cols {
        lemma_printed_glyph_stands(end, ch, columns);
    }
}

proof fn lemma_saved_cursor_stays(screen: ScreenView, events: Seq<EventView>, count: int)
    requires
        screen.wf(),
        0 <= count <= events.len(),
        forall|i: int| 0 <= i < events.len() ==> keeps_saved_cursor(#[trigger] events[i]),
    ensures
        screen.after_first(events, count).wf(),
        screen.after_first(events, count).active().saved_cursor == screen.active().saved_cursor,
        screen.after_first(events, count).active().cols == screen.active().cols,
    decreases count,
{
    if count > 0 {
        lemma_saved_cursor_stays(screen, events, count - 1);
        upkeep::lemma_after_wf(screen.after_first(events, count - 1), events[count - 1]);
        assert(keeps_saved_cursor(events[count - 1]));
    }
}

/// What lies in the old and in the new rectangle stays where it was when the
/// screen gets new dimensions, but for wide glyphs that the new edge cuts.
pub proof fn lemma_resize_keeps_the_common_part(
    b: BufferView,
    cols: int,
    rows: int,
    col: int,
    row: int,
)
    requires
        b.wf(),
        model::valid_dimensions(cols, rows),
        b.in_bounds(col, row),
        col < cols,
        row < rows,
        b.outlives(col, row, model::at_most(b.cols, cols)),
    ensures
        b.resized(cols, rows).cells[b.resized(cols, rows).at(col, row)] == b.cells[b.at(col, row)],
{
    upkeep::lemma_position(cols, rows, col, row);
}

/// Resizing counts one change, or none where the dimensions stay.
pub proof fn lemma_resize_counts(screen: ScreenView, cols: int, rows: int)
    requires
        screen.wf(),
        model::valid_dimensions(cols, rows),
    ensures
        screen.resized(cols, rows).wf(),
        screen.resized(cols, rows).primary.cols == cols,
        screen.resized(cols, rows).primary.rows == rows,
        screen.primary.cols == cols && screen.primary.rows == rows ==> screen.resized(cols, rows)
            == screen,
        !(screen.primary.cols == cols && screen.primary.rows == rows) ==> screen.resized(
            cols,
            rows,
        ).version == screen.touched().version,
{
    upkeep::lemma_resized_wf(screen.primary, cols, rows);
    if let Some(b) = screen.alternate {
        upkeep::lemma_resized_wf(b, cols, rows);
    }
}

/// A region counts its cells from its own corner: its cells are those of the
/// outer region, moved by the place it has there.
pub proof fn lemma_region_moves_coordinates(
    b: BufferView,
    outer: Option<Rect>,
    rect: Rect,
    col: int,
    row: int,
)
    requires
        b.wf(),
        b.holds(outer, rect),
        0 <= col,
        0 <= row,
    ensures
        b.clip(Some(b.absolute(outer, rect))) == b.absolute(outer, rect),
        col < rect.width && row < rect.height ==> b.cell_in(
            Some(b.absolute(outer, rect)),
            col,
            row,
        ) == b.cell_in(outer, rect.col + col, rect.row + row),
        !(col < rect.width && row < rect.height) ==> b.cell_in(
            Some(b.absolute(outer, rect)),
            col,
            row,
        ) is None,
{
}

/// A region never reaches past the screen, however small that has become.
pub proof fn lemma_region_stays_inside(b: BufferView, region: Option<Rect>)
    requires
        b.wf(),
    ensures
        b.clip(region).col + b.clip(region).width <= b.cols,
        b.clip(region).row + b.clip(region).height <= b.rows,
        forall|preserve: bool| #[trigger]
            b.lines(region, preserve).len() == b.clip(region).height,
{
}

/// The trimmed rows are the full ones without the spaces at their ends.
pub proof fn lemma_trimmed_lines(b: BufferView, region: Option<Rect>, row: int)
    requires
        0 <= row < b.clip(region).height,
    ensures
        ({
            let full = b.lines(region, true)[row];
            let trimmed = b.lines(region, false)[row];
            &&& trimmed.len() <= full.len()
            &&& trimmed == full.take(trimmed.len() as int)
            &&& forall|i: int| trimmed.len() <= i < full.len() ==> full[i] == ' '
            &&& trimmed.len() > 0 ==> trimmed.last() != ' '
        }),
{
    text::lemma_strip_end(b.lines(region, true)[row], ' ');
}

/// The final characters of the control sequences that are supported.
pub open spec fn is_supported_action(action: char) -> bool {
    ||| 'A' <= action <= 'H'
    ||| action == '`'
    ||| action == 'f'
    ||| action == 'J'
    ||| action == 'K'
    ||| action == 'm'
    ||| action == 's'
    ||| action == 'u'
}

/// The events that are supported: characters, the basic controls, plain
/// sequences that move the cursor, erase, select a style or save and restore the
/// cursor, and the switch of the buffer. Erasing knows the modes up to 3 for the
/// display, and up to 2 for a row.
pub open spec fn is_supported(event: EventView) -> bool {
    match event {
        EventView::Print(_) => true,
        EventView::Execute(byte) => 0x08 <= byte <= 0x0d,
        EventView::Csi { params, action, .. } => is_switch(event) || {
            &&& is_plain_csi(event, action)
            &&& is_supported_action(action)
            &&& action == 'J' ==> model::parameter(params, 0, 0) <= 3
            &&& action == 'K' ==> model::parameter(params, 0, 0) <= 2
        },
        EventView::Esc { byte, .. } => is_plain_esc(event, byte) && (byte == 0x37 || byte == 0x38
            || byte == 0x44 || byte == 0x45 || byte == 0x63),
    }
}

/// What is not supported changes nothing at all. That holds of every sequence
/// that is malformed, and of every one with a private marker or an intermediate
/// byte but for those that switch the buffer.
pub proof fn lemma_unsupported_sequences_do_nothing(screen: ScreenView, event: EventView)
    requires
        !is_supported(event),
    ensures
        screen.after(event) == screen,
{
}

/// A colour that is cut short, or of an unknown kind, changes no style, and
/// neither do its numbers.
pub proof fn lemma_incomplete_color_is_ignored(style: Style, codes: Seq<Seq<u16>>, i: int)
    requires
        0 <= i < codes.len(),
        codes[i].len() == 1,
        model::starts_color(codes[i][0]),
        i + 1 < codes.len() && codes[i + 1][0] == 5 ==> codes.len() <= i + 2,
        i + 1 < codes.len() && codes[i + 1][0] == 2 ==> codes.len() <= i + 4,
    ensures
        model::restyled(style, codes, i) == style,
{
}

/// A character that is printed stands in the cell where the cursor is, or where
/// it is after the wrap, in the current style; the trailing half of a wide one
/// stands right behind it. A mark that combines is added to what was printed
/// last.
pub proof fn lemma_printed_glyph_stands(b: BufferView, ch: char, width: int)
    requires
        b.wf(),
        0 <= width <= b.cols,
    ensures
        ({
            let after = b.printed(ch, width);
            let wraps = b.pending_wrap || (width == 2 && b.cursor_col + 1 >= b.cols);
            let at = (if wraps {
                b.newlined()
            } else {
                b
            }).cursor();
            if width > 0 {
                &&& after.cells[at].text == seq![ch]
                &&& after.cells[at].style == b.style
                &&& !after.trailing(at)
                &&& width == 2 ==> after.trailing(at + 1) && after.cells[at + 1].style == b.style
                &&& after.last_printed == Some(at)
            } else {
                b.last_printed matches Some(i) ==> after.cells[i].text == b.cells[i].text.push(ch)
            }
        }),
{
    if width > 0 {
        upkeep::lemma_line_fed_wf(b);
        let wraps = b.pending_wrap || (width == 2 && b.cursor_col + 1 >= b.cols);
        let start = if wraps {
            b.newlined()
        } else {
            b
        };
        upkeep::lemma_position(start.cols, start.rows, start.cursor_col, start.cursor_row);
        upkeep::lemma_placed_wf(start, ch, width);
    }
}

/// A line feed in the last row moves every other row up by one; elsewhere it
/// moves no cell.
pub proof fn lemma_line_feed_scrolls(b: BufferView, col: int, row: int)
    requires
        b.wf(),
        b.in_bounds(col, row),
    ensures
        ({
            let after = b.line_fed();
            if b.cursor_row + 1 < b.rows {
                after.cells == b.cells && after.cursor_row == b.cursor_row + 1
            } else if row + 1 < b.rows {
                after.cells[after.at(col, row)] == b.cells[b.at(col, row + 1)]
            } else {
                after.cells[after.at(col, row)] == CellView::blank(b.style)
            }
        }),
{
    upkeep::lemma_position(b.cols, b.rows, col, row);
    assert((row + 1) * b.cols + col == (row * b.cols + col) + b.cols) by (nonlinear_arith);
    if row + 1 < b.rows {
        upkeep::lemma_position(b.cols, b.rows, col, row + 1);
    } else {
        assert(row * b.cols == (b.rows - 1) * b.cols);
        assert((b.rows - 1) * b.cols + b.cols == b.cols * b.rows) by (nonlinear_arith);
    }
}

/// Erasing makes blank what it covers, and leaves the rest but for the other
/// halves of wide glyphs at its ends.
pub proof fn lemma_erasing_is_exact(b: BufferView, start: int, end: int, i: int)
    requires
        b.wf(),
        0 <= start < end <= b.cells.len(),
        0 <= i < b.cells.len(),
    ensures
        start <= i < end ==> b.erased(start, end).cells[i] == CellView::blank(b.style),
        i < start - 1 || i > end ==> b.erased(start, end).cells[i] == b.cells[i],
        i == start - 1 && !b.trailing(start) ==> b.erased(start, end).cells[i] == b.cells[i],
        i == end && !b.trailing(end) ==> b.erased(start, end).cells[i] == b.cells[i],
{
}

/// Printing never moves what was drawn but for scrolling: where the cursor's row
/// is not left, only the glyphs that the new one covers are touched.
pub proof fn lemma_placing_is_local(b: BufferView, ch: char, width: int, i: int)
    requires
        b.wf(),
        0 < width <= b.cols,
        width == 2 ==> b.cursor_col + 1 < b.cols,
        0 <= i < b.cells.len(),
        !(b.cursor() - 1 <= i <= b.cursor() + 2),
    ensures
        b.placed(ch, width).cells[i] == b.cells[i],
{
    upkeep::lemma_position(b.cols, b.rows, b.cursor_col, b.cursor_row);
}

} // verus!
