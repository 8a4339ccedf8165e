//! Steps of the terminal, as the escape-sequence parser reports them.

use crate::buffer;
use crate::model::EventView;
use vstd::prelude::*;

verus! {

/// One step of the terminal.
#[derive(Debug, PartialEq, Eq)]
pub enum Event {
    /// A character to show.
    Print(char),
    /// A C0 or C1 control.
    Execute(u8),
    /// A control sequence with its parameters and its final character. It is
    /// malformed where more was sent than fits into it.
    Csi { params: Vec<Vec<u16>>, intermediates: Vec<u8>, malformed: bool, action: char },
    /// An escape sequence with its final byte, malformed in the same way or not.
    Esc { intermediates: Vec<u8>, malformed: bool, byte: u8 },
}

impl View for Event {
    type V = EventView;

    open spec fn view(&self) -> EventView {
        match self {
            Event::Print(ch) => EventView::Print(*ch),
            Event::Execute(byte) => EventView::Execute(*byte),
            Event::Csi { params, intermediates, malformed, action } => EventView::Csi {
                params: buffer::params_view(params@),
                intermediates: intermediates@,
                malformed: *malformed,
                action: *action,
            },
            Event::Esc { intermediates, malformed, byte } => EventView::Esc {
                intermediates: intermediates@,
                malformed: *malformed,
                byte: *byte,
            },
        }
    }
}

/// The views of some events.
pub open spec fn views(events: Seq<Event>) -> Seq<EventView> {
    Seq::new(events.len(), |i: int| events[i]@)
}

} // verus!
