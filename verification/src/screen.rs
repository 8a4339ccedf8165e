//! The screen: a primary and an alternate buffer, and a count of changes.

use crate::buffer;
use crate::buffer::{Buffer, Cell};
use crate::error::{Error, Result};
use crate::event;
use crate::event::Event;
use crate::model;
use crate::model::{BufferView, EventView, Rect, ScreenView, MAX_SCREEN_CELLS};
use crate::text;
use crate::time::Duration;
use vstd::prelude::*;

verus! {

/// The error that dimensions get of which no screen can be made.
pub open spec fn dimensions_error(cols: u16, rows: u16, error: Error) -> bool {
    if cols == 0 || rows == 0 {
        error == (Error::InvalidDimensions { cols, rows })
    } else {
        &&& cols * rows > MAX_SCREEN_CELLS
        &&& error == (Error::ScreenTooLarge { cols, rows, max_cells: MAX_SCREEN_CELLS })
    }
}

/// Refuses dimensions of which no screen can be made.
pub fn validate_dimensions(cols: u16, rows: u16) -> (result: Result<()>)
    ensures
        match result {
            Ok(()) => model::valid_dimensions(cols as int, rows as int),
            Err(error) => dimensions_error(cols, rows, error),
        },
{
    if cols == 0 || rows == 0 {
        return Err(Error::InvalidDimensions { cols, rows });
    }
    proof {
        assert(cols * rows <= 65535 * 65535) by (nonlinear_arith)
            requires
                cols <= 65535,
                rows <= 65535,
        ;
    }
    let cells: usize = cols as usize * rows as usize;
    if cells > MAX_SCREEN_CELLS {
        return Err(Error::ScreenTooLarge { cols, rows, max_cells: MAX_SCREEN_CELLS });
    }
    Ok(())
}

impl Rect {
    pub fn new(col: u16, row: u16, width: u16, height: u16) -> (rect: Rect)
        ensures
            rect == (Rect { col, row, width, height }),
    {
        Rect { col, row, width, height }
    }
}

/// What a program has drawn so far.
#[derive(Debug)]
pub struct Screen {
    primary: Buffer,
    alternate: Option<Buffer>,
    version: u64,
}

impl View for Screen {
    type V = ScreenView;

    closed spec fn view(&self) -> ScreenView {
        ScreenView {
            primary: self.primary@,
            alternate: match self.alternate {
                Some(buffer) => Some(buffer@),
                None => None,
            },
            version: self.version,
        }
    }
}

/// What a caller that waits for a change has to do next.
#[derive(Clone, Copy, Debug, PartialEq, Eq, Structural)]
pub enum ChangeWait {
    /// The screen has changed.
    Changed,
    /// It has not, and the time is over.
    TimedOut,
    /// It has not; that much time is left to wait for it.
    Wait(Duration),
}

impl Screen {
    pub fn new(cols: u16, rows: u16) -> (result: Result<Screen>)
        ensures
            match result {
                Ok(screen) => model::valid_dimensions(cols as int, rows as int) && screen@
                    == ScreenView::fresh(cols as int, rows as int) && screen@.wf(),
                Err(error) => dimensions_error(cols, rows, error),
            },
    {
        match validate_dimensions(cols, rows) {
            Ok(()) => Ok(Screen { primary: Buffer::new(cols, rows), alternate: None, version: 0 }),
            Err(error) => Err(error),
        }
    }

    /// The buffer that is shown.
    fn active(&self) -> (buffer: &Buffer)
        ensures
            buffer@ == self@.active(),
    {
        match &self.alternate {
            Some(buffer) => buffer,
            None => &self.primary,
        }
    }

    /// The buffer that is shown, to be changed.
    fn active_mut(&mut self) -> (buffer: &mut Buffer)
        ensures
            buffer@ == old(self)@.active(),
            final(self)@ == old(self)@.with_active(final(buffer)@),
    {
        match &mut self.alternate {
            Some(buffer) => buffer,
            None => &mut self.primary,
        }
    }

    /// Counts a change.
    fn mark_changed(&mut self)
        ensures
            final(self)@ == old(self)@.touched(),
    {
        self.version = self.version.wrapping_add(1);
    }

    /// Counts a change that did not come from the program's output.
    pub fn notify(&mut self)
        requires
            old(self)@.wf(),
        ensures
            final(self)@ == old(self)@.touched(),
            final(self)@.wf(),
    {
        self.mark_changed();
    }

    /// Columns and rows of the screen.
    pub fn dimensions(&self) -> (dimensions: (u16, u16))
        requires
            self@.wf(),
        ensures
            dimensions.0 == self@.active().cols,
            dimensions.1 == self@.active().rows,
    {
        let active = self.active();
        (active.cols(), active.rows())
    }

    /// The cell at a column and a row, if there is one.
    pub fn cell(&self, col: u16, row: u16) -> (cell: Option<Cell>)
        requires
            self@.wf(),
        ensures
            match cell {
                Some(cell) => {
                    &&& self@.active().in_bounds(col as int, row as int)
                    &&& cell@ == self@.active().cells[self@.active().at(col as int, row as int)]
                },
                None => !self@.active().in_bounds(col as int, row as int),
            },
    {
        self.active().cell(None, col, row)
    }

    /// The rows of the screen as texts, with or without the spaces at their
    /// ends.
    pub fn lines(&self, preserve_width: bool) -> (lines: Vec<String>)
        requires
            self@.wf(),
        ensures
            text::views(lines@) == self@.active().lines(None, preserve_width),
    {
        self.active().lines(None, preserve_width)
    }

    /// The rows of a region, or of the whole screen, as texts.
    pub(crate) fn lines_in(&self, region: Option<Rect>, preserve_width: bool) -> (lines: Vec<
        String,
    >)
        requires
            self@.wf(),
        ensures
            text::views(lines@) == self@.active().lines(region, preserve_width),
            lines.len() <= u16::MAX,
    {
        let lines = self.active().lines(region, preserve_width);
        assert(lines@.len() == self@.active().lines(region, preserve_width).len());
        lines
    }

    /// The text of the screen without the spaces at the ends of its rows.
    pub fn text(&self) -> (text: String)
        requires
            self@.wf(),
        ensures
            text@ == text::join_lines(self@.active().lines(None, false)),
    {
        text::join(&self.lines(false))
    }

    /// The text of the screen with every row in its full width.
    pub fn fixed_text(&self) -> (text: String)
        requires
            self@.wf(),
        ensures
            text@ == text::join_lines(self@.active().lines(None, true)),
    {
        text::join(&self.lines(true))
    }

    /// A rectangle of the screen, which follows what the screen shows.
    pub fn region(&self, rect: Rect) -> (result: Result<Region>)
        requires
            self@.wf(),
        ensures
            region_result(self@.active(), None, rect, result),
    {
        self.region_in(None, rect)
    }

    fn region_in(&self, parent: Option<Rect>, rect: Rect) -> (result: Result<Region>)
        requires
            self@.wf(),
        ensures
            region_result(self@.active(), parent, rect, result),
    {
        let outer = self.active().effective_rect(parent);
        if rect.width == 0 || rect.height == 0 || rect.col as u32 + rect.width as u32
            > outer.width as u32 || rect.row as u32 + rect.height as u32 > outer.height as u32 {
            return Err(
                Error::OutOfBounds {
                    col: rect.col,
                    row: rect.row,
                    cols: outer.width,
                    rows: outer.height,
                },
            );
        }
        Ok(
            Region {
                rect: Rect {
                    col: outer.col + rect.col,
                    row: outer.row + rect.row,
                    width: rect.width,
                    height: rect.height,
                },
            },
        )
    }

    /// How many changes there were so far.
    pub fn version(&self) -> (version: u64)
        ensures
            version == self@.version,
    {
        self.version
    }

    /// Decides for a caller that has waited for `elapsed` of `timeout` until the
    /// screen has changed since `after`.
    pub fn wait_for_change(&self, after: u64, timeout: Duration, elapsed: Duration) -> (step:
        ChangeWait)
        ensures
            match step {
                ChangeWait::Changed => self@.version > after,
                ChangeWait::TimedOut => self@.version <= after && elapsed@ >= timeout@,
                ChangeWait::Wait(rest) => self@.version <= after && elapsed@ < timeout@ && rest@
                    == timeout@ - elapsed@,
            },
    {
        if self.version > after {
            ChangeWait::Changed
        } else if elapsed.at_least(timeout) {
            ChangeWait::TimedOut
        } else {
            ChangeWait::Wait(timeout.saturating_sub(elapsed))
        }
    }

    /// Gives the screen new dimensions. The same dimensions change nothing.
    pub fn resize(&mut self, cols: u16, rows: u16) -> (result: Result<()>)
        requires
            old(self)@.wf(),
        ensures
            final(self)@.wf(),
            match result {
                Ok(()) => model::valid_dimensions(cols as int, rows as int) && final(self)@
                    == old(self)@.resized(cols as int, rows as int),
                Err(error) => final(self)@ == old(self)@ && dimensions_error(cols, rows, error),
            },
    {
        match validate_dimensions(cols, rows) {
            Ok(()) => {},
            Err(error) => {
                return Err(error);
            },
        }
        if self.primary.cols() == cols && self.primary.rows() == rows {
            return Ok(());
        }
        self.primary.resize(cols, rows);
        if let Some(alternate) = &mut self.alternate {
            alternate.resize(cols, rows);
        }
        self.mark_changed();
        Ok(())
    }

    /// Shows a character.
    pub fn print(&mut self, ch: char)
        requires
            old(self)@.wf(),
        ensures
            final(self)@ == old(self)@.after(EventView::Print(ch)),
            final(self)@.wf(),
    {
        if self.active_mut().print(ch) {
            self.mark_changed();
        }
    }

    /// Performs a control byte.
    pub fn execute(&mut self, byte: u8)
        requires
            old(self)@.wf(),
        ensures
            final(self)@ == old(self)@.after(EventView::Execute(byte)),
            final(self)@.wf(),
    {
        if self.active_mut().execute(byte) {
            self.mark_changed();
        }
    }

    /// Performs a control sequence. One that is malformed is ignored, and so is
    /// one with a private marker or an intermediate byte, but for those that
    /// switch the buffer.
    pub fn csi_dispatch(
        &mut self,
        params: &Vec<Vec<u16>>,
        intermediates: &Vec<u8>,
        malformed: bool,
        action: char,
    )
        requires
            old(self)@.wf(),
        ensures
            final(self)@ == old(self)@.after(
                EventView::Csi {
                    params: buffer::params_view(params@),
                    intermediates: intermediates@,
                    malformed,
                    action,
                },
            ),
            final(self)@.wf(),
    {
        if malformed {
            return ;
        }
        let private = intermediates.len() == 1 && intermediates[0] == 0x3f;
        assert(private == (intermediates@ =~= seq![0x3fu8]));
        if private && (action == 'h' || action == 'l') && buffer::param(params, 0, 0) == 1049 {
            self.switch_buffer(action == 'h');
        } else if intermediates.len() == 0 && self.active_mut().control(params, action) {
            self.mark_changed();
        }
    }

    /// Enters or leaves the alternate buffer.
    fn switch_buffer(&mut self, enter: bool)
        requires
            old(self)@.wf(),
        ensures
            final(self)@ == old(self)@.switched(enter),
            final(self)@.wf(),
    {
        let shown = self.alternate.is_some();
        if enter == shown {
            return ;
        }
        if enter {
            self.alternate = Some(Buffer::new(self.primary.cols(), self.primary.rows()));
        } else {
            self.alternate = None;
        }
        self.mark_changed();
    }

    /// Performs an escape sequence. One that is malformed or has an intermediate
    /// byte is ignored.
    pub fn esc_dispatch(&mut self, intermediates: &Vec<u8>, malformed: bool, byte: u8)
        requires
            old(self)@.wf(),
        ensures
            final(self)@ == old(self)@.after(
                EventView::Esc { intermediates: intermediates@, malformed, byte },
            ),
            final(self)@.wf(),
    {
        if malformed || intermediates.len() > 0 {
            return ;
        }
        if self.active_mut().escape(byte) {
            self.mark_changed();
        }
    }

    /// Performs one event.
    pub fn apply(&mut self, event: &Event)
        requires
            old(self)@.wf(),
        ensures
            final(self)@ == old(self)@.after(event@),
            final(self)@.wf(),
    {
        match event {
            Event::Print(ch) => self.print(*ch),
            Event::Execute(byte) => self.execute(*byte),
            Event::Csi { params, intermediates, malformed, action } => self.csi_dispatch(
                params,
                intermediates,
                *malformed,
                *action,
            ),
            Event::Esc { intermediates, malformed, byte } => self.esc_dispatch(
                intermediates,
                *malformed,
                *byte,
            ),
        }
    }

    /// Performs events, one after the other.
    pub fn apply_all(&mut self, events: &Vec<Event>)
        requires
            old(self)@.wf(),
        ensures
            final(self)@ == old(self)@.after_all(event::views(events@)),
            final(self)@.wf(),
    {
        let mut i: usize = 0;
        while i < events.len()
            invariant
                i <= events.len(),
                self@.wf(),
                self@ == old(self)@.after_first(event::views(events@), i as int),
            decreases events.len() - i,
        {
            self.apply(&events[i]);
            i = i + 1;
        }
    }
}

/// Outcome of taking the rectangle `rect` of `parent`.
pub open spec fn region_result(
    buffer: BufferView,
    parent: Option<Rect>,
    rect: Rect,
    result: Result<Region>,
) -> bool {
    match result {
        Ok(region) => buffer.holds(parent, rect) && region@ == buffer.absolute(parent, rect),
        Err(error) => !buffer.holds(parent, rect) && error == (Error::OutOfBounds {
            col: rect.col,
            row: rect.row,
            cols: buffer.clip(parent).width,
            rows: buffer.clip(parent).height,
        }),
    }
}

/// A rectangle of the screen. What it shows is read from the screen it is asked
/// about; where that has become too small, the region shrinks with it.
#[derive(Clone, Copy, Debug, PartialEq, Eq)]
pub struct Region {
    rect: Rect,
}

impl View for Region {
    type V = Rect;

    closed spec fn view(&self) -> Rect {
        self.rect
    }
}

impl Region {
    /// The rectangle, counted from the corner of the screen.
    pub fn rect(&self) -> (rect: Rect)
        ensures
            rect == self@,
    {
        self.rect
    }

    /// Columns and rows that the region still covers.
    pub fn dimensions(&self, screen: &Screen) -> (dimensions: (u16, u16))
        requires
            screen@.wf(),
        ensures
            dimensions.0 == screen@.active().clip(Some(self@)).width,
            dimensions.1 == screen@.active().clip(Some(self@)).height,
    {
        let rect = screen.active().effective_rect(Some(self.rect));
        (rect.width, rect.height)
    }

    /// The cell at a column and a row of the region, if there is one.
    pub fn cell(&self, screen: &Screen, col: u16, row: u16) -> (cell: Option<Cell>)
        requires
            screen@.wf(),
        ensures
            match cell {
                Some(cell) => screen@.active().cell_in(Some(self@), col as int, row as int)
                    == Some(cell@),
                None => screen@.active().cell_in(Some(self@), col as int, row as int) is None,
            },
    {
        screen.active().cell(Some(self.rect), col, row)
    }

    /// The rows of the region as texts.
    pub fn lines(&self, screen: &Screen, preserve_width: bool) -> (lines: Vec<String>)
        requires
            screen@.wf(),
        ensures
            text::views(lines@) == screen@.active().lines(Some(self@), preserve_width),
    {
        screen.active().lines(Some(self.rect), preserve_width)
    }

    /// The text of the region without the spaces at the ends of its rows.
    pub fn text(&self, screen: &Screen) -> (text: String)
        requires
            screen@.wf(),
        ensures
            text@ == text::join_lines(screen@.active().lines(Some(self@), false)),
    {
        text::join(&self.lines(screen, false))
    }

    /// The text of the region with every row in its full width.
    pub fn fixed_text(&self, screen: &Screen) -> (text: String)
        requires
            screen@.wf(),
        ensures
            text@ == text::join_lines(screen@.active().lines(Some(self@), true)),
    {
        text::join(&self.lines(screen, true))
    }

    /// A rectangle of the region.
    pub fn region(&self, screen: &Screen, rect: Rect) -> (result: Result<Region>)
        requires
            screen@.wf(),
        ensures
            region_result(screen@.active(), Some(self@), rect, result),
    {
        screen.region_in(Some(self.rect), rect)
    }
}

} // verus!
