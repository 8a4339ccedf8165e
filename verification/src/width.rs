//! Display widths, as the `unicode-width` crate measures them.

use unicode_width::{UnicodeWidthChar, UnicodeWidthStr};
use vstd::prelude::*;

verus! {

/// Width of one character in columns, `None` for a control character.
pub uninterp spec fn char_columns(ch: char) -> Option<usize>;

/// Width of a whole text in columns.
pub uninterp spec fn text_columns(text: Seq<char>) -> usize;

/// True for the characters from the space to the tilde.
pub open spec fn is_printable_ascii(ch: char) -> bool {
    ' ' <= ch <= '~'
}

pub open spec fn is_control(ch: char) -> bool {
    ch < ' ' || '\u{7f}' <= ch < '\u{a0}'
}

/// The character that stands for one which cannot be shown.
pub const REPLACEMENT: char = '\u{fffd}';

/// Columns that a character takes; a control character takes none.
pub open spec fn columns_of(ch: char) -> int {
    if is_control(ch) {
        0
    } else if is_printable_ascii(ch) || ch == REPLACEMENT {
        1
    } else {
        match char_columns(ch) {
            Some(columns) => columns as int,
            None => 0,
        }
    }
}

pub open spec fn is_plain(text: Seq<char>) -> bool {
    forall|i: int| 0 <= i < text.len() ==> is_printable_ascii(#[trigger] text[i])
}

/// Columns that a text takes; one for each character of printable ASCII.
pub open spec fn columns_of_text(text: Seq<char>) -> int {
    if is_plain(text) {
        text.len() as int
    } else {
        text_columns(text) as int
    }
}

/// Calls `unicode_width::UnicodeWidthChar::width`. The result depends on the
/// character alone. Control characters, and only they, have no width; a
/// printable ASCII character takes one column, and so does U+FFFD, whose East
/// Asian width is ambiguous; none takes more than three.
#[verifier::external_body]
pub(crate) fn char_width(ch: char) -> (width: Option<usize>)
    ensures
        width == char_columns(ch),
        width is None <==> is_control(ch),
        is_printable_ascii(ch) || ch == REPLACEMENT ==> width == Some(1usize),
        width matches Some(columns) ==> columns <= 3,
{
    UnicodeWidthChar::width(ch)
}

/// Calls `unicode_width::UnicodeWidthStr::width`. The result depends on the
/// text alone. Printable ASCII takes one column for each character, so the
/// empty text takes none.
#[verifier::external_body]
pub(crate) fn text_width(text: &str) -> (width: usize)
    ensures
        width == text_columns(text@),
        is_plain(text@) ==> width == text@.len(),
{
    UnicodeWidthStr::width(text)
}

} // verus!
