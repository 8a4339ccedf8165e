//! Which bytes the keys send, and what the key expressions stand for.

use crate::cursor_laws;
use crate::keyboard;
use crate::keyboard::{Encoding, KeyProblem, KeyView, Parsed};
use crate::model::{EventView, ScreenView};
use crate::text;
use crate::text_laws;
use crate::time::Duration;
use vstd::prelude::*;
use vstd::utf8::encode_utf8;

verus! {

/// A key of its own, other than a character: one with a name, or one of the twelve
/// function keys.
pub open spec fn is_special(key: KeyView) -> bool {
    match key {
        KeyView::Text(_) => false,
        KeyView::Modified { .. } => false,
        KeyView::Function(number) => 1 <= number <= 12,
        _ => true,
    }
}

/// The key held together with modifiers.
pub open spec fn held(ctrl: bool, alt: bool, shift: bool, key: KeyView) -> KeyView {
    KeyView::Modified { ctrl, alt, shift, key: Box::new(key) }
}

/// A navigation key sends an escape byte, a bracket and its own final byte; with
/// modifiers it sends a longer sequence that ends in the same byte.
pub proof fn lemma_navigation_keys_keep_their_code(
    key: KeyView,
    ctrl: bool,
    alt: bool,
    shift: bool,
)
    requires
        key.navigation_code() is Some,
    ensures
        key.encoding() == Encoding::Ok(seq![0x1bu8, 0x5b, key.navigation_code()->0]),
        held(ctrl, alt, shift, key).encoding() is Ok,
        held(ctrl, alt, shift, key).encoding()->Ok_0.len() == 6,
        held(ctrl, alt, shift, key).encoding()->Ok_0.last() == key.encoding()->Ok_0.last(),
        held(ctrl, alt, shift, key).encoding()->Ok_0.take(2) == key.encoding()->Ok_0.take(2),
{
}

/// Each of the arrow keys, and Home and End, is a navigation key; no other key is.
pub proof fn lemma_navigation_keys(key: KeyView)
    ensures
        key.navigation_code() is Some <==> {
            ||| key == KeyView::ArrowUp
            ||| key == KeyView::ArrowDown
            ||| key == KeyView::ArrowLeft
            ||| key == KeyView::ArrowRight
            ||| key == KeyView::Home
            ||| key == KeyView::End
        },
{
}

/// Two keys send different bytes, and a navigation key sends others with other
/// modifiers.
pub proof fn lemma_keys_are_told_apart(a: KeyView, b: KeyView)
    requires
        is_special(a),
        is_special(b),
    ensures
        a.encoding() is Ok,
        b.encoding() is Ok,
        a.encoding()->Ok_0.len() > 0,
        a != b ==> a.encoding()->Ok_0 != b.encoding()->Ok_0,
        forall|ctrl: bool, alt: bool, shift: bool, c: bool, l: bool, s: bool|
            #![trigger held(ctrl, alt, shift, a).encoding(), held(c, l, s, b).encoding()]
            a.navigation_code() is Some && b.navigation_code() is Some && (a != b || ctrl != c
                || alt != l || shift != s) ==> held(ctrl, alt, shift, a).encoding() != held(
                c,
                l,
                s,
                b,
            ).encoding(),
{
    let x = a.encoding()->Ok_0;
    let y = b.encoding()->Ok_0;
    if a != b && x.len() == y.len() {
        assert(x[0] != y[0] || (x.len() > 1 && x[1] != y[1]) || (x.len() > 2 && x[2] != y[2]) || (
        x.len() > 3 && x[3] != y[3]));
    }
    assert forall|ctrl: bool, alt: bool, shift: bool, c: bool, l: bool, s: bool|
        #![trigger held(ctrl, alt, shift, a).encoding(), held(c, l, s, b).encoding()]
        a.navigation_code() is Some && b.navigation_code() is Some && (a != b || ctrl != c || alt
            != l || shift != s) implies held(ctrl, alt, shift, a).encoding() != held(
        c,
        l,
        s,
        b,
    ).encoding() by {
        let p = held(ctrl, alt, shift, a).encoding()->Ok_0;
        let q = held(c, l, s, b).encoding()->Ok_0;
        assert(p[4] != q[4] || p[5] != q[5]);
    }
}

/// What an arrow key sends moves the cursor of a terminal in the arrow's direction,
/// and what Home sends moves it to the corner.
pub proof fn lemma_arrows_point_where_the_cursor_goes(screen: ScreenView, key: KeyView)
    requires
        screen.wf(),
        key.navigation_code() is Some,
        key != KeyView::End,
    ensures
        ({
            let b = screen.active();
            let sent = key.encoding()->Ok_0;
            let after = screen.after(cursor_laws::csi(seq![], sent[2] as char)).active();
            let (col, row) = (after.cursor_col - b.cursor_col, after.cursor_row - b.cursor_row);
            &&& key.encoding() is Ok
            &&& sent.len() == 3
            &&& sent[0] == 0x1b
            &&& sent[1] == '[' as u8
            &&& match key {
                KeyView::ArrowUp => col == 0 && (b.cursor_row > 0 ==> row == -1),
                KeyView::ArrowDown => col == 0 && (b.cursor_row < b.rows - 1 ==> row == 1),
                KeyView::ArrowLeft => row == 0 && (b.cursor_col > 0 ==> col == -1),
                KeyView::ArrowRight => row == 0 && (b.cursor_col < b.cols - 1 ==> col == 1),
                _ => after.cursor_col == 0 && after.cursor_row == 0,
            }
        }),
{
}

/// What Enter sends takes the cursor of a terminal to the first column, and what
/// Tab sends takes it to the next stop; Backspace sends the delete byte, and every
/// other key begins with what Escape sends.
pub proof fn lemma_single_byte_keys(screen: ScreenView, key: KeyView)
    requires
        screen.wf(),
        is_special(key),
    ensures
        ({
            let sent = key.encoding()->Ok_0;
            let after = screen.after(EventView::Execute(sent[0])).active();
            match key {
                KeyView::Enter => sent == seq!['\r' as u8] && after.cursor_col == 0
                    && after.cursor_row == screen.active().cursor_row,
                KeyView::Tab => sent == seq!['\t' as u8] && (screen.active().cursor_col
                    < screen.active().cols - 1 ==> after.cursor_col > screen.active().cursor_col),
                KeyView::Backspace => sent == seq!['\u{7f}' as u8],
                KeyView::Escape => sent == seq!['\u{1b}' as u8],
                _ => sent.len() > 2 && sent[0] == KeyView::Escape.encoding()->Ok_0[0],
            }
        }),
{
}

/// End sends an escape byte, a bracket and `F`. Delete, Page Up, Page Down and the
/// function keys from F5 on send a number between a bracket and a tilde: 3, 5 and
/// 6, and from 15 on, without 16 and 22. The first four function keys send the
/// letters from `P` on behind an `O`. There are twelve of them.
pub proof fn lemma_numbered_keys(number: u8)
    ensures
        KeyView::End.encoding() == Encoding::Ok(seq![0x1bu8, '[' as u8, 'F' as u8]),
        KeyView::Delete.encoding() == Encoding::Ok(seq![0x1bu8, '[' as u8, '3' as u8, '~' as u8]),
        KeyView::PageUp.encoding() == Encoding::Ok(seq![0x1bu8, '[' as u8, '5' as u8, '~' as u8]),
        KeyView::PageDown.encoding() == Encoding::Ok(
            seq![0x1bu8, '[' as u8, '6' as u8, '~' as u8],
        ),
        ({
            let sent = KeyView::Function(number).encoding();
            let code = if number == 5 {
                15int
            } else if number <= 10 {
                number + 11
            } else {
                number + 12
            };
            &&& 1 <= number <= 4 ==> sent == Encoding::Ok(
                seq![0x1bu8, 'O' as u8, ('P' as u8 + number - 1) as u8],
            )
            &&& 5 <= number <= 12 ==> sent == Encoding::Ok(
                seq![0x1bu8, '[' as u8, (48 + code / 10) as u8, (48 + code % 10) as u8, '~' as u8],
            )
            &&& sent is Ok <==> 1 <= number <= 12
        }),
{
}

/// Text sends its UTF-8 bytes.
pub proof fn lemma_text_keys(content: Seq<char>)
    ensures
        KeyView::Text(content).encoding() == Encoding::Ok(encode_utf8(content)),
{
}

/// Ctrl and a letter send one byte, the place of the letter in the alphabet,
/// whether it is a capital or not; Alt puts an escape byte before it. Shift and a
/// letter send what its capital sends.
pub proof fn lemma_modified_letters(place: u8)
    requires
        1 <= place <= 26,
    ensures
        ({
            let small = KeyView::Text(seq![(96 + place) as char]);
            let capital = KeyView::Text(seq![(64 + place) as char]);
            &&& held(true, false, false, small).encoding() == Encoding::Ok(seq![place])
            &&& held(true, false, false, capital).encoding() == Encoding::Ok(seq![place])
            &&& held(true, true, false, small).encoding() == Encoding::Ok(seq![0x1bu8, place])
            &&& held(true, true, false, capital).encoding() == Encoding::Ok(seq![0x1bu8, place])
            &&& held(false, false, true, small).encoding() == capital.encoding()
            &&& held(false, false, true, capital).encoding() == capital.encoding()
            &&& held(true, false, true, small).encoding() is Err
            &&& held(false, true, true, small).encoding() is Err
        }),
{
    let small = (96 + place) as char;
    let capital = (64 + place) as char;
    assert(small as u32 == 96 + place && capital as u32 == 64 + place);
    assert((small as u32 - 32) as char == capital);
}

/// A key has bytes with modifiers exactly where it is a navigation key, Tab with
/// Shift alone, any key with Alt alone, a letter with Ctrl and without Shift, or a
/// letter with Shift alone.
pub proof fn lemma_which_modified_keys_have_bytes(ctrl: bool, alt: bool, shift: bool, key: KeyView)
    ensures
        ({
            let letter = key matches KeyView::Text(content) && content.len() == 1 && ('a'
                <= content[0] <= 'z' || 'A' <= content[0] <= 'Z');
            held(ctrl, alt, shift, key).encoding() is Ok <==> {
                ||| key.navigation_code() is Some
                ||| key == KeyView::Tab && shift && !ctrl && !alt
                ||| alt && !ctrl && !shift && key.encoding() is Ok
                ||| letter && ctrl && !shift
                ||| letter && shift && !ctrl && !alt
            }
        }),
        held(false, false, true, KeyView::Tab).encoding() == Encoding::Ok(
            seq![0x1bu8, '[' as u8, 'Z' as u8],
        ),
{
}

/// An expression without a plus sign and without white space around it is one
/// name.
proof fn lemma_single_part(expression: Seq<char>)
    requires
        expression.len() > 0,
        !expression.contains('+'),
        !text::is_space(expression[0]),
        !text::is_space(expression.last()),
    ensures
        keyboard::parsed_key(expression) == keyboard::base_key(expression, expression),
{
    assert(text::trimmed(expression) == expression);
    keyboard::lemma_unsplit(expression);
    let parts = text::split(expression, '+');
    assert(parts.len() == 1 && parts[0] == expression);
    assert(text::is_space('\t') && text::is_space('\n') && text::is_space('\r')
        && text::is_space(' '));
    assert(expression != seq!['+']) by {
        assert(seq!['+'][0] == '+');
        assert(!expression.contains(expression[0]) ==> false);
    }
}

/// A single character is its own key, if it is not white space; of white space, the
/// space is its own key, a tab is Tab, and a line feed and a carriage return are
/// Enter.
pub proof fn lemma_characters_are_keys(ch: char)
    ensures
        !text::is_space(ch) || ch == ' ' ==> keyboard::parsed_key(seq![ch]) == Parsed::Ok(
            KeyView::Text(seq![ch]),
        ),
        ch == '\t' ==> keyboard::parsed_key(seq![ch]) == Parsed::Ok(KeyView::Tab),
        ch == '\n' || ch == '\r' ==> keyboard::parsed_key(seq![ch]) == Parsed::Ok(KeyView::Enter),
        keyboard::parsed_key(seq![]) is Err,
{
    let one = seq![ch];
    assert(one[0] == ch && one.len() == 1);
    assert(seq!['\t'][0] == '\t' && seq!['\n'][0] == '\n' && seq!['\r'][0] == '\r' && seq![' '][0]
        == ' ');
    assert(text::is_space('\t') && text::is_space('\n') && text::is_space('\r'));
    assert(Seq::<char>::empty().len() == 0);
    if !text::is_space(ch) {
        assert(text::trimmed(one) == one);
        if ch != '+' {
            assert(!one.contains('+'));
            lemma_single_part(one);
            lemma_no_short_names(one);
        }
    }
}

/// No name of a key has one character.
proof fn lemma_no_short_names(one: Seq<char>)
    requires
        one.len() == 1,
    ensures
        keyboard::named_key(text::lowercase(one)) is None,
        keyboard::function_number(text::lowercase(one)) is None,
{
    lemma_names_revealed();
    assert(text::lowercase(one).skip(1) =~= seq![]);
}

proof fn lemma_names_revealed()
    ensures
        "enter"@ == seq!['e', 'n', 't', 'e', 'r'],
        "return"@ == seq!['r', 'e', 't', 'u', 'r', 'n'],
        "escape"@ == seq!['e', 's', 'c', 'a', 'p', 'e'],
        "esc"@ == seq!['e', 's', 'c'],
        "tab"@ == seq!['t', 'a', 'b'],
        "backspace"@ == seq!['b', 'a', 'c', 'k', 's', 'p', 'a', 'c', 'e'],
        "delete"@ == seq!['d', 'e', 'l', 'e', 't', 'e'],
        "del"@ == seq!['d', 'e', 'l'],
        "arrowup"@ == seq!['a', 'r', 'r', 'o', 'w', 'u', 'p'],
        "up"@ == seq!['u', 'p'],
        "arrowdown"@ == seq!['a', 'r', 'r', 'o', 'w', 'd', 'o', 'w', 'n'],
        "down"@ == seq!['d', 'o', 'w', 'n'],
        "arrowleft"@ == seq!['a', 'r', 'r', 'o', 'w', 'l', 'e', 'f', 't'],
        "left"@ == seq!['l', 'e', 'f', 't'],
        "arrowright"@ == seq!['a', 'r', 'r', 'o', 'w', 'r', 'i', 'g', 'h', 't'],
        "right"@ == seq!['r', 'i', 'g', 'h', 't'],
        "home"@ == seq!['h', 'o', 'm', 'e'],
        "end"@ == seq!['e', 'n', 'd'],
        "pageup"@ == seq!['p', 'a', 'g', 'e', 'u', 'p'],
        "pgup"@ == seq!['p', 'g', 'u', 'p'],
        "pagedown"@ == seq!['p', 'a', 'g', 'e', 'd', 'o', 'w', 'n'],
        "pgdn"@ == seq!['p', 'g', 'd', 'n'],
{
    reveal_strlit("enter");
    reveal_strlit("return");
    reveal_strlit("escape");
    reveal_strlit("esc");
    reveal_strlit("tab");
    reveal_strlit("backspace");
    reveal_strlit("delete");
    reveal_strlit("del");
    reveal_strlit("arrowup");
    reveal_strlit("up");
    reveal_strlit("arrowdown");
    reveal_strlit("down");
    reveal_strlit("arrowleft");
    reveal_strlit("left");
    reveal_strlit("arrowright");
    reveal_strlit("right");
    reveal_strlit("home");
    reveal_strlit("end");
    reveal_strlit("pageup");
    reveal_strlit("pgup");
    reveal_strlit("pagedown");
    reveal_strlit("pgdn");
}

/// What a text reads in small letters decides what key it names.
proof fn lemma_named(expression: Seq<char>, name: Seq<char>, key: KeyView)
    requires
        expression.len() == name.len() > 0,
        forall|i: int|
            0 <= i < name.len() ==> text::lower(#[trigger] expression[i]) == name[i] && 'a'
                <= name[i] <= 'z',
        keyboard::named_key(name) == Some(key),
    ensures
        keyboard::parsed_key(expression) == Parsed::Ok(key),
{
    assert(text::lowercase(expression) =~= name);
    assert forall|i: int| 0 <= i < expression.len() implies #[trigger] expression[i] != '+'
        && !text::is_space(expression[i]) by {
        assert('a' <= text::lower(expression[i]) <= 'z');
    }
    lemma_single_part(expression);
}

/// The name under which a key is shown is an expression for it, in whatever
/// capitals, and some have a short name too.
pub proof fn lemma_keys_go_by_their_names(key: KeyView, expression: Seq<char>)
    requires
        is_special(key),
        key !is Function,
        ({
            let name = text::lowercase(expression);
            ||| name == text::lowercase(key.described())
            ||| key == KeyView::Enter && name == seq!['r', 'e', 't', 'u', 'r', 'n']
            ||| key == KeyView::Escape && name == seq!['e', 's', 'c']
            ||| key == KeyView::Delete && name == seq!['d', 'e', 'l']
            ||| key == KeyView::ArrowUp && name == seq!['u', 'p']
            ||| key == KeyView::ArrowDown && name == seq!['d', 'o', 'w', 'n']
            ||| key == KeyView::ArrowLeft && name == seq!['l', 'e', 'f', 't']
            ||| key == KeyView::ArrowRight && name == seq!['r', 'i', 'g', 'h', 't']
            ||| key == KeyView::PageUp && name == seq!['p', 'g', 'u', 'p']
            ||| key == KeyView::PageDown && name == seq!['p', 'g', 'd', 'n']
        }),
    ensures
        keyboard::parsed_key(expression) == Parsed::Ok(key),
{
    lemma_names_revealed();
    lemma_shown_names_revealed();
    let name = text::lowercase(expression);
    let shown = text::lowercase(key.described());
    if name == shown {
        assert(shown =~= match key {
            KeyView::Enter => "enter"@,
            KeyView::Escape => "escape"@,
            KeyView::Tab => "tab"@,
            KeyView::Backspace => "backspace"@,
            KeyView::Delete => "delete"@,
            KeyView::ArrowUp => "arrowup"@,
            KeyView::ArrowDown => "arrowdown"@,
            KeyView::ArrowLeft => "arrowleft"@,
            KeyView::ArrowRight => "arrowright"@,
            KeyView::Home => "home"@,
            KeyView::End => "end"@,
            KeyView::PageUp => "pageup"@,
            _ => "pagedown"@,
        });
    }
    assert(keyboard::named_key(name) == Some(key)) by {
        lemma_names_differ(name);
    }
    assert forall|i: int| 0 <= i < name.len() implies text::lower(#[trigger] expression[i])
        == name[i] && 'a' <= name[i] <= 'z' by {
        assert(text::lowercase(expression)[i] == text::lower(expression[i]));
    }
    lemma_named(expression, name, key);
}

/// No two names of different keys are alike.
proof fn lemma_names_differ(name: Seq<char>)
    ensures
        name == "enter"@ || name == "return"@ ==> keyboard::named_key(name) == Some(KeyView::Enter),
        name == "escape"@ || name == "esc"@ ==> keyboard::named_key(name) == Some(KeyView::Escape),
        name == "tab"@ ==> keyboard::named_key(name) == Some(KeyView::Tab),
        name == "backspace"@ ==> keyboard::named_key(name) == Some(KeyView::Backspace),
        name == "delete"@ || name == "del"@ ==> keyboard::named_key(name) == Some(KeyView::Delete),
        name == "arrowup"@ || name == "up"@ ==> keyboard::named_key(name) == Some(KeyView::ArrowUp),
        name == "arrowdown"@ || name == "down"@ ==> keyboard::named_key(name) == Some(
            KeyView::ArrowDown,
        ),
        name == "arrowleft"@ || name == "left"@ ==> keyboard::named_key(name) == Some(
            KeyView::ArrowLeft,
        ),
        name == "arrowright"@ || name == "right"@ ==> keyboard::named_key(name) == Some(
            KeyView::ArrowRight,
        ),
        name == "home"@ ==> keyboard::named_key(name) == Some(KeyView::Home),
        name == "end"@ ==> keyboard::named_key(name) == Some(KeyView::End),
        name == "pageup"@ || name == "pgup"@ ==> keyboard::named_key(name) == Some(KeyView::PageUp),
        name == "pagedown"@ || name == "pgdn"@ ==> keyboard::named_key(name) == Some(
            KeyView::PageDown,
        ),
{
    lemma_names_revealed();
    let first = name[0];
    let last = name.last();
    let len = name.len();
    assert(name.len() > 3 ==> name[3] == name[3]);
    assert(name.len() > 5 ==> name[5] == name[5]);
}

proof fn lemma_shown_names_revealed()
    ensures
        "Enter"@ == seq!['E', 'n', 't', 'e', 'r'],
        "Escape"@ == seq!['E', 's', 'c', 'a', 'p', 'e'],
        "Tab"@ == seq!['T', 'a', 'b'],
        "Backspace"@ == seq!['B', 'a', 'c', 'k', 's', 'p', 'a', 'c', 'e'],
        "Delete"@ == seq!['D', 'e', 'l', 'e', 't', 'e'],
        "ArrowUp"@ == seq!['A', 'r', 'r', 'o', 'w', 'U', 'p'],
        "ArrowDown"@ == seq!['A', 'r', 'r', 'o', 'w', 'D', 'o', 'w', 'n'],
        "ArrowLeft"@ == seq!['A', 'r', 'r', 'o', 'w', 'L', 'e', 'f', 't'],
        "ArrowRight"@ == seq!['A', 'r', 'r', 'o', 'w', 'R', 'i', 'g', 'h', 't'],
        "Home"@ == seq!['H', 'o', 'm', 'e'],
        "End"@ == seq!['E', 'n', 'd'],
        "PageUp"@ == seq!['P', 'a', 'g', 'e', 'U', 'p'],
        "PageDown"@ == seq!['P', 'a', 'g', 'e', 'D', 'o', 'w', 'n'],
{
    reveal_strlit("Enter");
    reveal_strlit("Escape");
    reveal_strlit("Tab");
    reveal_strlit("Backspace");
    reveal_strlit("Delete");
    reveal_strlit("ArrowUp");
    reveal_strlit("ArrowDown");
    reveal_strlit("ArrowLeft");
    reveal_strlit("ArrowRight");
    reveal_strlit("Home");
    reveal_strlit("End");
    reveal_strlit("PageUp");
    reveal_strlit("PageDown");
}

/// The letter `f` or `F` and a number name that function key, where there is one; a
/// number below 256 that none has is refused as unsupported.
pub proof fn lemma_function_keys_go_by_their_numbers(letter: char, number: u8)
    requires
        letter == 'f' || letter == 'F',
    ensures
        ({
            let expression = seq![letter] + text::decimal(number as nat);
            let parsed = keyboard::parsed_key(expression);
            &&& 1 <= number <= 12 ==> parsed == Parsed::Ok(KeyView::Function(number))
            &&& !(1 <= number <= 12) ==> (parsed matches Err(KeyProblem::Unsupported(what, _))
                && what == expression)
        }),
{
    let digits = text::decimal(number as nat);
    let expression = seq![letter] + digits;
    text_laws::lemma_decimal_reads_back(number as nat);
    assert forall|i: int| 0 <= i < expression.len() implies #[trigger] expression[i] != '+'
        && !text::is_space(expression[i]) by {
        if i > 0 {
            assert(expression[i] == digits[i - 1]);
        }
    }
    lemma_single_part(expression);
    let name = text::lowercase(expression);
    assert(name[0] == 'f' && name[1] == digits[0]) by {
        assert(expression[1] == digits[0]);
    }
    assert(name.skip(1) =~= digits) by {
        assert forall|i: int| 0 <= i < digits.len() implies name.skip(1)[i] == digits[i] by {
            assert(expression[i + 1] == digits[i]);
            assert('0' <= digits[i] <= '9');
        }
    }
    lemma_names_revealed();
    assert(keyboard::named_key(name) is None);
}

/// An expression of two characters or more without a plus sign is a name or is
/// refused; it never stands for its characters.
pub proof fn lemma_words_are_not_typed(expression: Seq<char>)
    requires
        text::trimmed(expression).len() > 1,
        !text::trimmed(expression).contains('+'),
    ensures
        match keyboard::parsed_key(expression) {
            Ok(key) => is_special(key),
            Err(KeyProblem::Invalid(what)) => what == expression,
            Err(KeyProblem::Unsupported(what, _)) => what == expression,
        },
{
    let trimmed = text::trimmed(expression);
    keyboard::lemma_unsplit(trimmed);
    let parts = text::split(trimmed, '+');
    assert(parts.len() == 1 && parts[0] == trimmed);
    lemma_blank(expression);
}

proof fn lemma_blank(expression: Seq<char>)
    requires
        text::trimmed(expression).len() > 1,
    ensures
        expression.len() > 1,
{
    if expression.len() <= 1 {
        lemma_trimmed_is_shorter(expression);
    }
}

proof fn lemma_trimmed_is_shorter(content: Seq<char>)
    requires
        content.len() <= 1,
    ensures
        text::trimmed(content).len() <= 1,
{
    reveal_with_fuel(text::trim_end, 2);
    reveal_with_fuel(text::trim_start, 2);
}

/// The words `ctrl` and `control` stand for Ctrl, `alt` and `option` for Alt, and
/// `shift` for Shift: the key of an expression holds each modifier that one of the
/// parts before the last names, and no other, and the key that the last part names.
pub proof fn lemma_modifiers_by_name(
    parts: Seq<Seq<char>>,
    expression: Seq<char>,
    trimmed: Seq<char>,
)
    requires
        parts.len() > 1,
        keyboard::has_distinct_modifiers(parts),
        keyboard::key_of_parts(parts, expression, trimmed) is Ok,
    ensures
        keyboard::key_of_parts(parts, expression, trimmed)->Ok_0 matches KeyView::Modified {
            ctrl,
            alt,
            shift,
            key,
        } && {
            &&& ctrl == (is_named(parts, seq!['c', 't', 'r', 'l']) || is_named(
                parts,
                seq!['c', 'o', 'n', 't', 'r', 'o', 'l'],
            ))
            &&& alt == (is_named(parts, seq!['a', 'l', 't']) || is_named(
                parts,
                seq!['o', 'p', 't', 'i', 'o', 'n'],
            ))
            &&& shift == is_named(parts, seq!['s', 'h', 'i', 'f', 't'])
            &&& keyboard::key_of_parts(seq![parts.last()], expression, trimmed) == Parsed::Ok(*key)
        },
{
    reveal_strlit("ctrl");
    reveal_strlit("control");
    reveal_strlit("alt");
    reveal_strlit("option");
    reveal_strlit("shift");
    assert("ctrl"@ =~= seq!['c', 't', 'r', 'l']);
    assert("control"@ =~= seq!['c', 'o', 'n', 't', 'r', 'o', 'l']);
    assert("alt"@ =~= seq!['a', 'l', 't']);
    assert("option"@ =~= seq!['o', 'p', 't', 'i', 'o', 'n']);
    assert("shift"@ =~= seq!['s', 'h', 'i', 'f', 't']);
    keyboard::lemma_tallies(parts);
    let last = parts.len() - 1;
    lemma_named_parts(parts);
    let one = seq![parts.last()];
    assert(parts[last].len() > 0);
    assert(one[0] == parts[last]);
    assert(forall|i: int| 0 <= i < one.len() ==> (#[trigger] one[i]).len() > 0);
    reveal_with_fuel(keyboard::tally, 1);
}

/// One of the parts before the last is the word, in capitals or not.
pub open spec fn is_named(parts: Seq<Seq<char>>, word: Seq<char>) -> bool {
    exists|i: int|
        0 <= i < parts.len() - 1 && text::lowercase(#[trigger] parts[i]) == word
}

proof fn lemma_named_parts(parts: Seq<Seq<char>>)
    requires
        parts.len() > 0,
    ensures
        keyboard::names(parts, parts.len() - 1, |word: Seq<char>| keyboard::is_ctrl(word)) == (
        is_named(parts, "ctrl"@) || is_named(parts, "control"@)),
        keyboard::names(parts, parts.len() - 1, |word: Seq<char>| keyboard::is_alt(word)) == (
        is_named(parts, "alt"@) || is_named(parts, "option"@)),
        keyboard::names(parts, parts.len() - 1, |word: Seq<char>| keyboard::is_shift(word))
            == is_named(parts, "shift"@),
{
}

/// A key with modifiers whose bytes nobody knows, a part that is missing, and a word
/// before the last part that is no modifier are refused.
pub proof fn lemma_bad_combinations_are_refused(
    parts: Seq<Seq<char>>,
    expression: Seq<char>,
    trimmed: Seq<char>,
    i: int,
)
    requires
        0 <= i < parts.len(),
    ensures
        parts[i].len() == 0 ==> keyboard::key_of_parts(parts, expression, trimmed) == Parsed::Err(
            KeyProblem::Invalid(expression),
        ),
        i < parts.len() - 1 && !(text::lowercase(parts[i]) == "ctrl"@ || text::lowercase(parts[i])
            == "control"@ || text::lowercase(parts[i]) == "alt"@ || text::lowercase(parts[i])
            == "option"@ || text::lowercase(parts[i]) == "shift"@) ==> keyboard::key_of_parts(
            parts,
            expression,
            trimmed,
        ) matches Err(KeyProblem::Invalid(_)),
{
    if i < parts.len() - 1 {
        assert(keyboard::is_modifier(parts[i]) || !keyboard::is_modifier(parts[i]));
    }
}

/// An expression is read by its parts between the plus signs, without the white
/// space around it.
pub proof fn lemma_expressions_are_read_by_their_parts(expression: Seq<char>)
    requires
        text::trimmed(expression).len() > 1,
    ensures
        keyboard::parsed_key(expression) == keyboard::key_of_parts(
            text::split(text::trimmed(expression), '+'),
            expression,
            text::trimmed(expression),
        ),
{
    lemma_blank(expression);
}

/// Typing sends one write for each character, in order, with that character's
/// bytes, and waits behind each for the delay, if there is one.
pub proof fn lemma_typing_goes_character_by_character(
    content: Seq<char>,
    delay: Option<Duration>,
    i: int,
)
    requires
        0 <= i < content.len(),
    ensures
        keyboard::typed(content, delay).len() == content.len(),
        keyboard::typed(content, delay)[i].bytes == encode_utf8(seq![content[i]]),
        delay is Some && delay->0@ > 0 ==> keyboard::typed(content, delay)[i].pause == delay,
        delay is None || delay->0@ == 0 ==> keyboard::typed(content, delay)[i].pause is None,
{
}

} // verus!
