//! The terminal: bytes in, a screen out.

use crate::error::Result;
use crate::event;
use crate::model;
use crate::model::{EventView, ScreenView};
use crate::parser;
use crate::parser::ByteParser;
use crate::screen::Screen;
use vstd::prelude::*;

verus! {

/// The bytes that a terminal has received, and what it shows.
#[verifier::ext_equal]
pub struct TerminalView {
    pub received: Seq<u8>,
    pub screen: ScreenView,
}

impl TerminalView {
    /// The events of everything that was received.
    pub open spec fn events(self) -> Seq<EventView> {
        parser::parsed(self.received)
    }

    /// What the terminal makes of some more bytes: the events that come on top
    /// of those so far are performed on the screen.
    pub open spec fn advances_to(self, bytes: Seq<u8>, after: TerminalView) -> bool {
        let fresh = after.events().skip(self.events().len() as int);
        &&& after.received == self.received + bytes
        &&& after.events() == self.events() + fresh
        &&& after.screen == self.screen.after_all(fresh)
    }
}

/// A terminal that draws what a program writes.
pub struct Terminal {
    parser: ByteParser,
    last: Option<u8>,
    screen: Screen,
}

impl View for Terminal {
    type V = TerminalView;

    closed spec fn view(&self) -> TerminalView {
        TerminalView { received: self.parser@, screen: self.screen@ }
    }
}

impl Terminal {
    /// What holds of every terminal. It knows the last byte that it received.
    pub closed spec fn wf(self) -> bool {
        &&& self.screen@.wf()
        &&& match self.last {
            Some(byte) => self.parser@.len() > 0 && self.parser@.last() == byte,
            None => self.parser@.len() == 0,
        }
    }

    pub fn new(cols: u16, rows: u16) -> (result: Result<Terminal>)
        ensures
            match result {
                Ok(terminal) => {
                    &&& terminal.wf()
                    &&& model::valid_dimensions(cols as int, rows as int)
                    &&& terminal@.received == Seq::<u8>::empty()
                    &&& terminal@.events() == Seq::<EventView>::empty()
                    &&& terminal@.screen == ScreenView::fresh(cols as int, rows as int)
                },
                Err(error) => crate::screen::dimensions_error(cols, rows, error),
            },
    {
        match Screen::new(cols, rows) {
            Ok(screen) => Ok(Terminal { parser: ByteParser::new(), last: None, screen }),
            Err(error) => Err(error),
        }
    }

    /// What the terminal shows.
    pub fn screen(&self) -> (screen: &Screen)
        requires
            self.wf(),
        ensures
            screen@ == self@.screen,
            screen@.wf(),
    {
        &self.screen
    }

    /// Draws some more of a program's output. The parser is given the second
    /// byte of a character that was split between two reads by itself.
    pub fn advance(&mut self, bytes: &[u8])
        requires
            old(self).wf(),
        ensures
            final(self).wf(),
            old(self)@.advances_to(bytes@, final(self)@),
    {
        let split = match self.last {
            Some(lead) => 0xc2 <= lead && lead <= 0xdf && bytes.len() > 0 && 0x80 <= bytes[0]
                && bytes[0] <= 0xbf,
            None => false,
        };
        if split {
            let first: Vec<u8> = vec![bytes[0]];
            self.read(&first);
            let ghost middle = self@;
            let mut rest = vstd::slice::slice_to_vec(bytes);
            let _ = rest.remove(0);
            self.read(&rest);
            proof {
                lemma_reads_join(old(self)@, first@, middle, rest@, self@);
                assert(first@ + rest@ =~= bytes@);
            }
        } else {
            let input = vstd::slice::slice_to_vec(bytes);
            self.read(&input);
        }
    }

    /// Hands some bytes to the parser, and performs what it reports.
    fn read(&mut self, input: &Vec<u8>)
        requires
            old(self).wf(),
            parser::splits_pair(old(self)@.received, input@) ==> input@.len() == 1,
        ensures
            final(self).wf(),
            old(self)@.advances_to(input@, final(self)@),
    {
        let events = self.parser.feed(input);
        self.screen.apply_all(&events);
        if input.len() > 0 {
            self.last = Some(input[input.len() - 1]);
        }
        proof {
            let before = old(self)@;
            assert(self@.events().skip(before.events().len() as int) =~= event::views(events@));
        }
    }

    /// Gives the screen new dimensions.
    pub fn resize(&mut self, cols: u16, rows: u16) -> (result: Result<()>)
        requires
            old(self).wf(),
        ensures
            final(self).wf(),
            final(self)@.received == old(self)@.received,
            match result {
                Ok(()) => model::valid_dimensions(cols as int, rows as int) && final(self)@.screen
                    == old(self)@.screen.resized(cols as int, rows as int),
                Err(error) => final(self)@.screen == old(self)@.screen
                    && crate::screen::dimensions_error(cols, rows, error),
            },
    {
        self.screen.resize(cols, rows)
    }

    /// Counts a change that did not come from the program's output.
    pub fn notify(&mut self)
        requires
            old(self).wf(),
        ensures
            final(self).wf(),
            final(self)@ == (TerminalView { screen: old(self)@.screen.touched(), ..old(self)@ }),
    {
        self.screen.notify();
    }
}

/// Two reads are one: what the terminal makes of the bytes in two pieces is
/// what it makes of them at once.
pub proof fn lemma_reads_join(
    start: TerminalView,
    first: Seq<u8>,
    middle: TerminalView,
    second: Seq<u8>,
    end: TerminalView,
)
    requires
        start.advances_to(first, middle),
        middle.advances_to(second, end),
    ensures
        start.advances_to(first + second, end),
{
    let one = middle.events().skip(start.events().len() as int);
    let two = end.events().skip(middle.events().len() as int);
    let both = end.events().skip(start.events().len() as int);
    assert(both =~= one + two);
    assert(end.received =~= start.received + (first + second));
    assert(end.events() =~= start.events() + both);
    crate::upkeep::lemma_after_all_joins(start.screen, one, two);
}

/// The terminal's state depends on the bytes, not on how they were split into
/// reads: any two ways of splitting the same bytes end in the same state.
pub proof fn lemma_chunks_do_not_matter(
    start: TerminalView,
    left: Seq<TerminalView>,
    left_reads: Seq<Seq<u8>>,
    right: Seq<TerminalView>,
    right_reads: Seq<Seq<u8>>,
)
    requires
        follows(start, left, left_reads),
        follows(start, right, right_reads),
        left_reads.len() > 0,
        right_reads.len() > 0,
        left_reads.flatten() == right_reads.flatten(),
    ensures
        left.last() == right.last(),
{
    lemma_many_reads(start, left, left_reads);
    lemma_many_reads(start, right, right_reads);
}

/// `states` are those that a terminal goes through from `start` as it reads
/// `reads`, one after the other.
pub open spec fn follows(
    start: TerminalView,
    states: Seq<TerminalView>,
    reads: Seq<Seq<u8>>,
) -> bool {
    &&& states.len() == reads.len()
    &&& forall|i: int|
        0 <= i < reads.len() ==> (if i == 0 {
            start
        } else {
            states[i - 1]
        }).advances_to(#[trigger] reads[i], states[i])
}

/// Any number of reads is one read of all their bytes.
pub proof fn lemma_many_reads(
    start: TerminalView,
    states: Seq<TerminalView>,
    reads: Seq<Seq<u8>>,
)
    requires
        follows(start, states, reads),
        reads.len() > 0,
    ensures
        start.advances_to(reads.flatten(), states.last()),
    decreases reads.len(),
{
    let front = reads.drop_last();
    assert(reads =~= front.push(reads.last()));
    front.lemma_flatten_push(reads.last());
    assert(start.advances_to(reads[0], states[0]));
    if reads.len() > 1 {
        assert forall|i: int| 0 <= i < front.len() implies (if i == 0 {
            start
        } else {
            states.drop_last()[i - 1]
        }).advances_to(#[trigger] front[i], states.drop_last()[i]) by {
            assert(front[i] == reads[i]);
        }
        lemma_many_reads(start, states.drop_last(), front);
        let n = reads.len() - 1;
        assert(states[n - 1].advances_to(reads[n], states[n]));
        lemma_reads_join(start, front.flatten(), states[n - 1], reads[n], states[n]);
    } else {
        assert(front =~= Seq::<Seq<u8>>::empty());
        assert(reads.flatten() =~= reads[0]);
    }
}

} // verus!
