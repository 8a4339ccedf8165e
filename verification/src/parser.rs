//! The escape-sequence parser of the `vte` crate.

use crate::buffer;
use crate::event;
use crate::event::Event;
use crate::model::EventView;
use vstd::prelude::*;

verus! {

/// The parser of the `vte` crate.
#[verifier::external_type_specification]
#[verifier::external_body]
pub struct ExParser<const OSC_RAW_BUF_SIZE: usize>(vte::Parser<OSC_RAW_BUF_SIZE>);

/// The parameters of a control sequence, as the `vte` crate hands them out.
#[verifier::external_type_specification]
#[verifier::external_body]
pub struct ExParams(vte::Params);

/// The numbers of each parameter of a control sequence.
pub uninterp spec fn listed(params: vte::Params) -> Seq<Seq<u16>>;

/// The events that a new parser reports for the bytes of `stream`.
pub uninterp spec fn parsed(stream: Seq<u8>) -> Seq<EventView>;

/// True for the first byte of a character that takes two bytes.
pub open spec fn is_two_byte_lead(byte: u8) -> bool {
    0xc2 <= byte <= 0xdf
}

/// True where a stream breaks off behind the first byte of a character that
/// takes two.
pub open spec fn breaks_off(stream: Seq<u8>) -> bool {
    stream.len() > 0 && is_two_byte_lead(stream.last())
}

/// True for the controls with the codes from 80 to 9F.
pub open spec fn is_c1_control(ch: char) -> bool {
    '\u{80}' <= ch <= '\u{9f}'
}

/// True where the second of two pieces goes on with the second byte of a
/// character that takes two.
pub open spec fn splits_pair(stream: Seq<u8>, bytes: Seq<u8>) -> bool {
    breaks_off(stream) && bytes.len() > 0 && 0x80 <= bytes[0] <= 0xbf
}

/// A parser and the bytes that it was given so far.
pub struct ByteParser {
    parser: vte::Parser,
    stream: Ghost<Seq<u8>>,
}

impl View for ByteParser {
    type V = Seq<u8>;

    /// The bytes that the parser was given.
    closed spec fn view(&self) -> Seq<u8> {
        self.stream@
    }
}

/// Collects what the parser reports.
struct EventSink {
    events: Vec<Event>,
}

impl EventSink {
    /// What was reported so far.
    pub closed spec fn seen(self) -> Seq<EventView> {
        event::views(self.events@)
    }
}

impl vte::Perform for EventSink {
    /// Takes note of a character. A C1 control that comes as one is a control.
    fn print(&mut self, ch: char)
        ensures
            final(self).seen() == old(self).seen().push(
                if is_c1_control(ch) {
                    EventView::Execute(ch as u8)
                } else {
                    EventView::Print(ch)
                },
            ),
    {
        if '\u{80}' <= ch && ch <= '\u{9f}' {
            self.events.push(Event::Execute(ch as u8));
        } else {
            self.events.push(Event::Print(ch));
        }
    }

    fn execute(&mut self, byte: u8)
        ensures
            final(self).seen() == old(self).seen().push(EventView::Execute(byte)),
    {
        self.events.push(Event::Execute(byte));
    }

    fn csi_dispatch(
        &mut self,
        params: &vte::Params,
        intermediates: &[u8],
        ignore: bool,
        action: char,
    )
        ensures
            final(self).seen() == old(self).seen().push(
                EventView::Csi {
                    params: listed(*params),
                    intermediates: intermediates@,
                    malformed: ignore,
                    action,
                },
            ),
    {
        self.events.push(
            Event::Csi {
                params: numbers(params),
                intermediates: vstd::slice::slice_to_vec(intermediates),
                malformed: ignore,
                action,
            },
        );
    }

    fn esc_dispatch(&mut self, intermediates: &[u8], ignore: bool, byte: u8)
        ensures
            final(self).seen() == old(self).seen().push(
                EventView::Esc { intermediates: intermediates@, malformed: ignore, byte },
            ),
    {
        self.events.push(
            Event::Esc {
                intermediates: vstd::slice::slice_to_vec(intermediates),
                malformed: ignore,
                byte,
            },
        );
    }
}

/// Calls `vte::Params::iter` and copies each parameter with its numbers, in
/// their order. What comes out is what the list holds.
#[verifier::external_body]
fn numbers(params: &vte::Params) -> (result: Vec<Vec<u16>>)
    ensures
        buffer::params_view(result@) == listed(*params),
{
    params.iter().map(|numbers| numbers.to_vec()).collect()
}

impl ByteParser {
    /// Calls `vte::Parser::new`. The new parser was given no byte, and reports
    /// no event for that.
    #[verifier::external_body]
    pub(crate) fn new() -> (parser: ByteParser)
        ensures
            parser@ == Seq::<u8>::empty(),
            parsed(parser@) == Seq::<EventView>::empty(),
    {
        ByteParser { parser: vte::Parser::new(), stream: Ghost(Seq::empty()) }
    }

    /// Calls `vte::Parser::advance` with a performer that collects the
    /// characters, controls, control sequences and escape sequences in their
    /// order. What the parser reports depends on the bytes that it was given.
    /// They may be given in pieces: the events of the pieces, one after the
    /// other, are those of the whole stream. That holds wherever a piece ends,
    /// except between the two bytes of a two-byte character, where the parser may
    /// drop what stands behind the character. There the next piece has to be the
    /// second byte alone; a C1 control then comes as a character.
    #[verifier::external_body]
    pub(crate) fn feed(&mut self, bytes: &Vec<u8>) -> (events: Vec<Event>)
        requires
            splits_pair(old(self)@, bytes@) ==> bytes@.len() == 1,
        ensures
            final(self)@ == old(self)@ + bytes@,
            parsed(final(self)@) == parsed(old(self)@) + event::views(events@),
    {
        let mut sink = EventSink { events: Vec::new() };
        self.parser.advance(&mut sink, bytes.as_slice());
        sink.events
    }
}

} // verus!
