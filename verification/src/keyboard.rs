//! Keys, and the bytes that a terminal sends for them.

use crate::error::{Error, Result};
use crate::text;
use crate::time::Duration;
use vstd::prelude::*;
use vstd::utf8::encode_utf8;

verus! {

/// A key, or a key with modifiers.
#[derive(Debug, PartialEq, Eq)]
pub enum Key {
    Text(String),
    Enter,
    Escape,
    Tab,
    Backspace,
    Delete,
    ArrowUp,
    ArrowDown,
    ArrowLeft,
    ArrowRight,
    Home,
    End,
    PageUp,
    PageDown,
    Function(u8),
    Modified { ctrl: bool, alt: bool, shift: bool, key: Box<Key> },
}

/// A key, with its text as a sequence of characters.
pub enum KeyView {
    Text(Seq<char>),
    Enter,
    Escape,
    Tab,
    Backspace,
    Delete,
    ArrowUp,
    ArrowDown,
    ArrowLeft,
    ArrowRight,
    Home,
    End,
    PageUp,
    PageDown,
    Function(u8),
    Modified { ctrl: bool, alt: bool, shift: bool, key: Box<KeyView> },
}

impl View for Key {
    type V = KeyView;

    open spec fn view(&self) -> KeyView {
        self.shape()
    }
}

/// What `Key::encode` finds: the bytes, or the key it cannot send and why.
pub type Encoding = std::result::Result<Seq<u8>, (Seq<char>, Seq<char>)>;

impl KeyView {
    /// The key as its `Debug` shows it.
    pub open spec fn described(self) -> Seq<char>
        decreases self,
    {
        match self {
            KeyView::Text(text) => "Text("@ + text::quoted(text) + ")"@,
            KeyView::Enter => "Enter"@,
            KeyView::Escape => "Escape"@,
            KeyView::Tab => "Tab"@,
            KeyView::Backspace => "Backspace"@,
            KeyView::Delete => "Delete"@,
            KeyView::ArrowUp => "ArrowUp"@,
            KeyView::ArrowDown => "ArrowDown"@,
            KeyView::ArrowLeft => "ArrowLeft"@,
            KeyView::ArrowRight => "ArrowRight"@,
            KeyView::Home => "Home"@,
            KeyView::End => "End"@,
            KeyView::PageUp => "PageUp"@,
            KeyView::PageDown => "PageDown"@,
            KeyView::Function(number) => "Function("@ + text::decimal(number as nat) + ")"@,
            KeyView::Modified { ctrl, alt, shift, key } => "Modified { ctrl: "@ + flag(ctrl)
                + ", alt: "@ + flag(alt) + ", shift: "@ + flag(shift) + ", key: "@
                + key.described() + " }"@,
        }
    }

    /// The final byte of the sequence of a navigation key.
    pub open spec fn navigation_code(self) -> Option<u8> {
        match self {
            KeyView::ArrowUp => Some(0x41u8),
            KeyView::ArrowDown => Some(0x42u8),
            KeyView::ArrowRight => Some(0x43u8),
            KeyView::ArrowLeft => Some(0x44u8),
            KeyView::Home => Some(0x48u8),
            KeyView::End => Some(0x46u8),
            _ => None,
        }
    }

    /// The bytes of a key, or why it has none.
    pub open spec fn encoding(self) -> Encoding
        decreases self,
    {
        match self {
            KeyView::Text(text) => Ok(encode_utf8(text)),
            KeyView::Enter => Ok(seq![0x0du8]),
            KeyView::Escape => Ok(seq![0x1bu8]),
            KeyView::Tab => Ok(seq![0x09u8]),
            KeyView::Backspace => Ok(seq![0x7fu8]),
            KeyView::Delete => Ok(seq![0x1bu8, 0x5b, 0x33, 0x7e]),
            KeyView::ArrowUp => Ok(seq![0x1bu8, 0x5b, 0x41]),
            KeyView::ArrowDown => Ok(seq![0x1bu8, 0x5b, 0x42]),
            KeyView::ArrowRight => Ok(seq![0x1bu8, 0x5b, 0x43]),
            KeyView::ArrowLeft => Ok(seq![0x1bu8, 0x5b, 0x44]),
            KeyView::Home => Ok(seq![0x1bu8, 0x5b, 0x48]),
            KeyView::End => Ok(seq![0x1bu8, 0x5b, 0x46]),
            KeyView::PageUp => Ok(seq![0x1bu8, 0x5b, 0x35, 0x7e]),
            KeyView::PageDown => Ok(seq![0x1bu8, 0x5b, 0x36, 0x7e]),
            KeyView::Function(number) => if 1 <= number <= 4 {
                Ok(seq![0x1bu8, 0x4f, (0x4f + number) as u8])
            } else if number == 5 {
                Ok(seq![0x1bu8, 0x5b, 0x31, 0x35, 0x7e])
            } else if 6 <= number <= 8 {
                Ok(seq![0x1bu8, 0x5b, 0x31, (0x31 + number) as u8, 0x7e])
            } else if number == 9 || number == 10 {
                Ok(seq![0x1bu8, 0x5b, 0x32, (0x27 + number) as u8, 0x7e])
            } else if number == 11 || number == 12 {
                Ok(seq![0x1bu8, 0x5b, 0x32, (0x28 + number) as u8, 0x7e])
            } else {
                Err(("F"@ + text::decimal(number as nat), "only F1 through F12 are supported"@))
            },
            KeyView::Modified { ctrl, alt, shift, key } => {
                let single = *key matches KeyView::Text(text) && text.len() == 1;
                let ch = key->Text_0[0];
                if *key == KeyView::Tab && shift && !ctrl && !alt {
                    Ok(seq![0x1bu8, 0x5b, 0x5a])
                } else if ctrl && single && ch > '\u{7f}' {
                    Err(
                        (
                            key.described(),
                            "Ctrl combinations are only supported for ASCII letters"@,
                        ),
                    )
                } else if ctrl && single && text::is_letter(ch) {
                    let code = (text::upper(ch) as u8 - 64) as u8;
                    if shift {
                        Err(
                            (
                                key.described(),
                                "Ctrl+Shift letters have no distinct portable terminal encoding"@,
                            ),
                        )
                    } else if alt {
                        Ok(seq![0x1bu8, code])
                    } else {
                        Ok(seq![code])
                    }
                } else if shift && !ctrl && single && text::is_letter(ch) {
                    if alt {
                        Err(
                            (
                                key.described(),
                                "Alt+Shift letters have no distinct portable terminal encoding"@,
                            ),
                        )
                    } else {
                        Ok(encode_utf8(seq![text::upper(ch)]))
                    }
                } else if key.navigation_code() is Some {
                    let modifier = 1 + (if shift {
                        1int
                    } else {
                        0
                    }) + (if alt {
                        2int
                    } else {
                        0
                    }) + (if ctrl {
                        4int
                    } else {
                        0
                    });
                    Ok(
                        seq![
                            0x1bu8,
                            0x5b,
                            0x31,
                            0x3b,
                            (0x30 + modifier) as u8,
                            key.navigation_code()->0,
                        ],
                    )
                } else if alt && !ctrl && !shift {
                    match key.encoding() {
                        Ok(bytes) => Ok(seq![0x1bu8] + bytes),
                        Err(problem) => Err(problem),
                    }
                } else {
                    Err(
                        (
                            key.described(),
                            "this modifier combination has no portable terminal encoding"@,
                        ),
                    )
                }
            },
        }
    }
}

/// The result holds the bytes of an encoding, or its key and reason.
pub open spec fn is_encoding(result: Result<Vec<u8>>, encoding: Encoding) -> bool {
    match (result, encoding) {
        (Ok(bytes), Ok(expected)) => bytes@ =~= expected,
        (Err(Error::UnsupportedKey(what, why)), Err(problem)) => what@ =~= problem.0 && why@
            =~= problem.1,
        _ => false,
    }
}

/// A truth value as its `Debug` shows it.
pub open spec fn flag(value: bool) -> Seq<char> {
    if value {
        "true"@
    } else {
        "false"@
    }
}

pub(crate) fn flag_text(value: bool) -> (text: &'static str)
    ensures
        text@ == flag(value),
{
    if value {
        "true"
    } else {
        "false"
    }
}

fn unsupported(key: &Key, reason: &str) -> (error: Error)
    ensures
        error matches Error::UnsupportedKey(what, why) && what@ == key@.described() && why@
            == reason@,
{
    Error::UnsupportedKey(key.describe(), reason.to_owned())
}

impl Key {
    /// The key, with its text as a sequence of characters.
    pub open spec fn shape(self) -> KeyView
        decreases self,
    {
        match self {
            Key::Text(text) => KeyView::Text(text@),
            Key::Enter => KeyView::Enter,
            Key::Escape => KeyView::Escape,
            Key::Tab => KeyView::Tab,
            Key::Backspace => KeyView::Backspace,
            Key::Delete => KeyView::Delete,
            Key::ArrowUp => KeyView::ArrowUp,
            Key::ArrowDown => KeyView::ArrowDown,
            Key::ArrowLeft => KeyView::ArrowLeft,
            Key::ArrowRight => KeyView::ArrowRight,
            Key::Home => KeyView::Home,
            Key::End => KeyView::End,
            Key::PageUp => KeyView::PageUp,
            Key::PageDown => KeyView::PageDown,
            Key::Function(number) => KeyView::Function(number),
            Key::Modified { ctrl, alt, shift, key } => KeyView::Modified {
                ctrl,
                alt,
                shift,
                key: Box::new(key.shape()),
            },
        }
    }

    /// The key as a text for messages.
    pub fn describe(&self) -> (description: String)
        ensures
            description@ == self@.described(),
        decreases self,
    {
        match self {
            Key::Text(text) => "Text(".to_owned().concat(
                text::quote(text.as_str()).as_str(),
            ).concat(")"),
            Key::Enter => "Enter".to_owned(),
            Key::Escape => "Escape".to_owned(),
            Key::Tab => "Tab".to_owned(),
            Key::Backspace => "Backspace".to_owned(),
            Key::Delete => "Delete".to_owned(),
            Key::ArrowUp => "ArrowUp".to_owned(),
            Key::ArrowDown => "ArrowDown".to_owned(),
            Key::ArrowLeft => "ArrowLeft".to_owned(),
            Key::ArrowRight => "ArrowRight".to_owned(),
            Key::Home => "Home".to_owned(),
            Key::End => "End".to_owned(),
            Key::PageUp => "PageUp".to_owned(),
            Key::PageDown => "PageDown".to_owned(),
            Key::Function(number) => "Function(".to_owned().concat(
                text::decimal_text(*number as u64).as_str(),
            ).concat(")"),
            Key::Modified { ctrl, alt, shift, key } => {
                let inner = key.describe();
                "Modified { ctrl: ".to_owned().concat(flag_text(*ctrl)).concat(", alt: ").concat(
                    flag_text(*alt),
                ).concat(", shift: ").concat(flag_text(*shift)).concat(", key: ").concat(
                    inner.as_str(),
                ).concat(" }")
            },
        }
    }

    /// The bytes that a terminal sends for the key.
    pub fn encode(&self) -> (result: Result<Vec<u8>>)
        ensures
            is_encoding(result, self@.encoding()),
        decreases self, 0nat,
    {
        match self {
            Key::Text(text) => Ok(text.as_str().as_bytes_vec()),
            Key::Enter => Ok(vec![0x0d]),
            Key::Escape => Ok(vec![0x1b]),
            Key::Tab => Ok(vec![0x09]),
            Key::Backspace => Ok(vec![0x7f]),
            Key::Delete => Ok(vec![0x1b, 0x5b, 0x33, 0x7e]),
            Key::ArrowUp => Ok(vec![0x1b, 0x5b, 0x41]),
            Key::ArrowDown => Ok(vec![0x1b, 0x5b, 0x42]),
            Key::ArrowRight => Ok(vec![0x1b, 0x5b, 0x43]),
            Key::ArrowLeft => Ok(vec![0x1b, 0x5b, 0x44]),
            Key::Home => Ok(vec![0x1b, 0x5b, 0x48]),
            Key::End => Ok(vec![0x1b, 0x5b, 0x46]),
            Key::PageUp => Ok(vec![0x1b, 0x5b, 0x35, 0x7e]),
            Key::PageDown => Ok(vec![0x1b, 0x5b, 0x36, 0x7e]),
            Key::Function(number) => {
                let number: u8 = *number;
                if 1 <= number && number <= 4 {
                    Ok(vec![0x1b, 0x4f, 0x4f + number])
                } else if number == 5 {
                    Ok(vec![0x1b, 0x5b, 0x31, 0x35, 0x7e])
                } else if 6 <= number && number <= 8 {
                    Ok(vec![0x1b, 0x5b, 0x31, 0x31 + number, 0x7e])
                } else if number == 9 || number == 10 {
                    Ok(vec![0x1b, 0x5b, 0x32, 0x27 + number, 0x7e])
                } else if number == 11 || number == 12 {
                    Ok(vec![0x1b, 0x5b, 0x32, 0x28 + number, 0x7e])
                } else {
                    Err(
                        Error::UnsupportedKey(
                            "F".to_owned().concat(text::decimal_text(number as u64).as_str()),
                            "only F1 through F12 are supported".to_owned(),
                        ),
                    )
                }
            },
            Key::Modified { ctrl, alt, shift, key } => encode_modified(*ctrl, *alt, *shift, key),
        }
    }

    /// The only character of a text key with one character.
    fn single_char(&self) -> (ch: Option<char>)
        ensures
            match ch {
                Some(ch) => self@ matches KeyView::Text(text) && text == seq![ch],
                None => !(self@ matches KeyView::Text(text) && text.len() == 1),
            },
    {
        match self {
            Key::Text(text) => {
                let chars = text::chars_of(text.as_str());
                if chars.len() == 1 {
                    assert(text@ =~= seq![chars@[0]]);
                    Some(chars[0])
                } else {
                    None
                }
            },
            _ => None,
        }
    }
}

/// The bytes of a key with modifiers.
fn encode_modified(ctrl: bool, alt: bool, shift: bool, key: &Key) -> (result: Result<Vec<u8>>)
    ensures
        is_encoding(
            result,
            (KeyView::Modified { ctrl, alt, shift, key: Box::new(key@) }).encoding(),
        ),
    decreases key, 1nat,
{
    if let Key::Tab = key {
        if shift && !ctrl && !alt {
            return Ok(vec![0x1b, 0x5b, 0x5a]);
        }
    }
    if let Some(ch) = key.single_char() {
        let letter = ('a' <= ch && ch <= 'z') || ('A' <= ch && ch <= 'Z');
        if ctrl && ch > '\u{7f}' {
            return Err(
                unsupported(key, "Ctrl combinations are only supported for ASCII letters"),
            );
        }
        if ctrl && letter {
            if shift {
                return Err(
                    unsupported(
                        key,
                        "Ctrl+Shift letters have no distinct portable terminal encoding",
                    ),
                );
            }
            let code: u8 = if ch >= 'a' {
                ch as u8 - 96
            } else {
                ch as u8 - 64
            };
            return if alt {
                Ok(vec![0x1b, code])
            } else {
                Ok(vec![code])
            };
        }
        if shift && !ctrl && letter {
            if alt {
                return Err(
                    unsupported(
                        key,
                        "Alt+Shift letters have no distinct portable terminal encoding",
                    ),
                );
            }
            let capital = if ch >= 'a' {
                (ch as u8 - 32) as char
            } else {
                ch
            };
            let mut one = String::new();
            one.push(capital);
            assert(one@ =~= seq![text::upper(ch)]);
            return Ok(one.as_str().as_bytes_vec());
        }
    }
    let code: Option<u8> = match key {
        Key::ArrowUp => Some(0x41),
        Key::ArrowDown => Some(0x42),
        Key::ArrowRight => Some(0x43),
        Key::ArrowLeft => Some(0x44),
        Key::Home => Some(0x48),
        Key::End => Some(0x46),
        _ => None,
    };
    if let Some(code) = code {
        let mut modifier: u8 = 1;
        if shift {
            modifier = modifier + 1;
        }
        if alt {
            modifier = modifier + 2;
        }
        if ctrl {
            modifier = modifier + 4;
        }
        return Ok(vec![0x1b, 0x5b, 0x31, 0x3b, 0x30 + modifier, code]);
    }
    if alt && !ctrl && !shift {
        return match key.encode() {
            Ok(bytes) => {
                let mut whole: Vec<u8> = vec![0x1b];
                whole.extend_from_slice(bytes.as_slice());
                assert(whole@ =~= seq![0x1bu8] + bytes@);
                Ok(whole)
            },
            Err(error) => Err(error),
        };
    }
    Err(unsupported(key, "this modifier combination has no portable terminal encoding"))
}

/// Why a key expression is refused.
pub enum KeyProblem {
    Invalid(Seq<char>),
    Unsupported(Seq<char>, Seq<char>),
}

/// What a key expression stands for.
pub type Parsed = std::result::Result<KeyView, KeyProblem>;

/// The result holds the parsed key, or the error of the problem.
pub open spec fn is_parsed(result: Result<Key>, parsed: Parsed) -> bool {
    match (result, parsed) {
        (Ok(key), Ok(expected)) => key@ == expected,
        (Err(Error::InvalidKey(what)), Err(KeyProblem::Invalid(expected))) => what@ =~= expected,
        (
            Err(Error::UnsupportedKey(what, why)),
            Err(KeyProblem::Unsupported(expected, reason)),
        ) => what@ =~= expected && why@ =~= reason,
        _ => false,
    }
}

pub open spec fn is_ctrl(word: Seq<char>) -> bool {
    word == "ctrl"@ || word == "control"@
}

pub open spec fn is_alt(word: Seq<char>) -> bool {
    word == "alt"@ || word == "option"@
}

pub open spec fn is_shift(word: Seq<char>) -> bool {
    word == "shift"@
}

/// Whether a part of a key expression names a modifier, in capitals or not.
pub open spec fn is_modifier(part: Seq<char>) -> bool {
    let word = text::lowercase(part);
    is_ctrl(word) || is_alt(word) || is_shift(word)
}

/// How many of the first `count` parts name a modifier of one kind.
pub open spec fn tally(
    parts: Seq<Seq<char>>,
    count: int,
    named: spec_fn(Seq<char>) -> bool,
) -> int
    decreases count,
{
    if count <= 0 {
        0
    } else {
        tally(parts, count - 1, named) + if named(text::lowercase(parts[count - 1])) {
            1int
        } else {
            0
        }
    }
}

/// The key with a name, in small letters.
pub open spec fn named_key(name: Seq<char>) -> Option<KeyView> {
    if name == "enter"@ || name == "return"@ {
        Some(KeyView::Enter)
    } else if name == "escape"@ || name == "esc"@ {
        Some(KeyView::Escape)
    } else if name == "tab"@ {
        Some(KeyView::Tab)
    } else if name == "backspace"@ {
        Some(KeyView::Backspace)
    } else if name == "delete"@ || name == "del"@ {
        Some(KeyView::Delete)
    } else if name == "arrowup"@ || name == "up"@ {
        Some(KeyView::ArrowUp)
    } else if name == "arrowdown"@ || name == "down"@ {
        Some(KeyView::ArrowDown)
    } else if name == "arrowleft"@ || name == "left"@ {
        Some(KeyView::ArrowLeft)
    } else if name == "arrowright"@ || name == "right"@ {
        Some(KeyView::ArrowRight)
    } else if name == "home"@ {
        Some(KeyView::Home)
    } else if name == "end"@ {
        Some(KeyView::End)
    } else if name == "pageup"@ || name == "pgup"@ {
        Some(KeyView::PageUp)
    } else if name == "pagedown"@ || name == "pgdn"@ {
        Some(KeyView::PageDown)
    } else {
        None
    }
}

/// The number behind the letter `f`, where it is a number below 256.
pub open spec fn function_number(name: Seq<char>) -> Option<nat> {
    if name.len() > 0 && name[0] == 'f' {
        match text::decimal_value(name.skip(1)) {
            Some(number) => if number <= 255 {
                Some(number)
            } else {
                None
            },
            None => None,
        }
    } else {
        None
    }
}

/// The key that the last part of the expression names.
pub open spec fn base_key(part: Seq<char>, expression: Seq<char>) -> Parsed {
    let name = text::lowercase(part);
    if named_key(name) is Some {
        Ok(named_key(name)->0)
    } else if function_number(name) is Some {
        if 1 <= function_number(name)->0 <= 12 {
            Ok(KeyView::Function(function_number(name)->0 as u8))
        } else {
            Err(KeyProblem::Unsupported(expression, "only F1 through F12 are supported"@))
        }
    } else if part.len() == 1 {
        Ok(KeyView::Text(part))
    } else {
        Err(KeyProblem::Invalid(expression))
    }
}

/// The key of an expression whose parts are known.
pub open spec fn key_of_parts(
    parts: Seq<Seq<char>>,
    expression: Seq<char>,
    trimmed: Seq<char>,
) -> Parsed {
    let last = parts.len() - 1;
    let ctrl = tally(parts, last, |word: Seq<char>| is_ctrl(word));
    let alt = tally(parts, last, |word: Seq<char>| is_alt(word));
    let shift = tally(parts, last, |word: Seq<char>| is_shift(word));
    if exists|i: int| 0 <= i < parts.len() && (#[trigger] parts[i]).len() == 0 {
        Err(KeyProblem::Invalid(expression))
    } else if exists|i: int| 0 <= i < last && !is_modifier(#[trigger] parts[i]) {
        Err(KeyProblem::Invalid(trimmed))
    } else if ctrl > 1 || alt > 1 || shift > 1 {
        Err(KeyProblem::Invalid(trimmed))
    } else {
        match base_key(parts[last], expression) {
            Err(problem) => Err(problem),
            Ok(base) => if last == 0 {
                Ok(base)
            } else {
                let modified = KeyView::Modified {
                    ctrl: ctrl == 1,
                    alt: alt == 1,
                    shift: shift == 1,
                    key: Box::new(base),
                };
                match modified.encoding() {
                    Ok(_) => Ok(modified),
                    Err(problem) => Err(KeyProblem::Unsupported(expression, problem.1)),
                }
            },
        }
    }
}

/// The key of an expression: a name, a single character, or modifiers and one of
/// these with `+` between them.
pub open spec fn parsed_key(expression: Seq<char>) -> Parsed {
    let trimmed = text::trimmed(expression);
    if expression == seq!['\t'] {
        Ok(KeyView::Tab)
    } else if expression == seq!['\n'] || expression == seq!['\r'] {
        Ok(KeyView::Enter)
    } else if expression == seq![' '] {
        Ok(KeyView::Text(expression))
    } else if trimmed.len() == 0 {
        Err(KeyProblem::Invalid(expression))
    } else if trimmed == seq!['+'] {
        Ok(KeyView::Text(trimmed))
    } else {
        key_of_parts(text::split(trimmed, '+'), expression, trimmed)
    }
}

/// The key with a name.
fn find_named_key(name: &str) -> (key: Option<Key>)
    ensures
        match key {
            Some(key) => named_key(name@) == Some(key@),
            None => named_key(name@) is None,
        },
{
    if text::same_text(name, "enter") || text::same_text(name, "return") {
        Some(Key::Enter)
    } else if text::same_text(name, "escape") || text::same_text(name, "esc") {
        Some(Key::Escape)
    } else if text::same_text(name, "tab") {
        Some(Key::Tab)
    } else if text::same_text(name, "backspace") {
        Some(Key::Backspace)
    } else if text::same_text(name, "delete") || text::same_text(name, "del") {
        Some(Key::Delete)
    } else if text::same_text(name, "arrowup") || text::same_text(name, "up") {
        Some(Key::ArrowUp)
    } else if text::same_text(name, "arrowdown") || text::same_text(name, "down") {
        Some(Key::ArrowDown)
    } else if text::same_text(name, "arrowleft") || text::same_text(name, "left") {
        Some(Key::ArrowLeft)
    } else if text::same_text(name, "arrowright") || text::same_text(name, "right") {
        Some(Key::ArrowRight)
    } else if text::same_text(name, "home") {
        Some(Key::Home)
    } else if text::same_text(name, "end") {
        Some(Key::End)
    } else if text::same_text(name, "pageup") || text::same_text(name, "pgup") {
        Some(Key::PageUp)
    } else if text::same_text(name, "pagedown") || text::same_text(name, "pgdn") {
        Some(Key::PageDown)
    } else {
        None
    }
}

/// The number behind the letter `f`.
fn find_function_number(name: &Vec<char>) -> (number: Option<u8>)
    ensures
        match number {
            Some(number) => function_number(name@) == Some(number as nat),
            None => function_number(name@) is None,
        },
{
    if name.len() == 0 || name[0] != 'f' {
        return None;
    }
    let mut digits: Vec<char> = Vec::new();
    let mut i: usize = 1;
    while i < name.len()
        invariant
            1 <= i <= name.len(),
            digits@ == name@.subrange(1, i as int),
        decreases name.len() - i,
    {
        digits.push(name[i]);
        i = i + 1;
        assert(digits@ =~= name@.subrange(1, i as int));
    }
    assert(digits@ =~= name@.skip(1));
    match text::parse_decimal(&digits, 255) {
        Some(number) => Some(number as u8),
        None => None,
    }
}

/// The key that the last part of an expression names.
fn find_base_key(part: &Vec<char>, expression: &str) -> (result: Result<Key>)
    ensures
        is_parsed(result, base_key(part@, expression@)),
{
    let lowered = text::to_lowercase(part);
    let name = text::text_of(&lowered);
    if let Some(key) = find_named_key(name.as_str()) {
        return Ok(key);
    }
    if let Some(number) = find_function_number(&lowered) {
        return if 1 <= number && number <= 12 {
            Ok(Key::Function(number))
        } else {
            Err(
                Error::UnsupportedKey(
                    expression.to_owned(),
                    "only F1 through F12 are supported".to_owned(),
                ),
            )
        };
    }
    if part.len() == 1 {
        Ok(Key::Text(text::text_of(part)))
    } else {
        Err(Error::InvalidKey(expression.to_owned()))
    }
}

impl Key {
    /// Reads a key expression such as `enter`, `x` or `ctrl+c`.
    pub fn parse(expression: &str) -> (result: Result<Key>)
        ensures
            is_parsed(result, parsed_key(expression@)),
    {
        let chars = text::chars_of(expression);
        if chars.len() == 1 {
            let ch = chars[0];
            assert(expression@ =~= seq![ch]);
            if ch == '\t' {
                return Ok(Key::Tab);
            }
            if ch == '\n' || ch == '\r' {
                return Ok(Key::Enter);
            }
            if ch == ' ' {
                return Ok(Key::Text(expression.to_owned()));
            }
        }
        let trimmed = text::trim(expression);
        if trimmed.as_str().is_empty() {
            return Err(Error::InvalidKey(expression.to_owned()));
        }
        let trimmed_chars = text::chars_of(trimmed.as_str());
        if trimmed_chars.len() == 1 && trimmed_chars[0] == '+' {
            assert(trimmed@ =~= seq!['+']);
            return Ok(Key::Text(trimmed));
        }
        let parts = text::split_at_mark(trimmed.as_str(), '+');
        parse_parts(&parts, expression, trimmed)
    }
}

/// Reads the parts of a key expression.
fn parse_parts(parts: &Vec<Vec<char>>, expression: &str, trimmed: String) -> (result: Result<Key>)
    requires
        parts.len() > 0,
    ensures
        is_parsed(
            result,
            key_of_parts(text::char_views(parts@), expression@, trimmed@),
        ),
{
    let ghost views = text::char_views(parts@);
    let last: usize = parts.len() - 1;
    let mut i: usize = 0;
    while i < parts.len()
        invariant
            i <= parts.len(),
            views == text::char_views(parts@),
            forall|k: int| 0 <= k < i ==> (#[trigger] views[k]).len() > 0,
        decreases parts.len() - i,
    {
        if parts[i].len() == 0 {
            assert(views[i as int].len() == 0);
            return Err(Error::InvalidKey(expression.to_owned()));
        }
        i = i + 1;
    }
    let ghost ctrl_word = |word: Seq<char>| is_ctrl(word);
    let ghost alt_word = |word: Seq<char>| is_alt(word);
    let ghost shift_word = |word: Seq<char>| is_shift(word);
    let mut ctrl: usize = 0;
    let mut alt: usize = 0;
    let mut shift: usize = 0;
    let mut k: usize = 0;
    while k < last
        invariant
            k <= last == parts.len() - 1,
            views == text::char_views(parts@),
            ctrl_word == (|word: Seq<char>| is_ctrl(word)),
            alt_word == (|word: Seq<char>| is_alt(word)),
            shift_word == (|word: Seq<char>| is_shift(word)),
            ctrl == tally(views, k as int, ctrl_word),
            alt == tally(views, k as int, alt_word),
            shift == tally(views, k as int, shift_word),
            ctrl + alt + shift == k,
            forall|j: int| 0 <= j < k ==> is_modifier(#[trigger] views[j]),
            forall|j: int| 0 <= j < views.len() ==> (#[trigger] views[j]).len() > 0,
        decreases last - k,
    {
        let word = text::text_of(&text::to_lowercase(&parts[k]));
        assert(word@ == text::lowercase(views[k as int]));
        proof {
            reveal_strlit("ctrl");
            reveal_strlit("control");
            reveal_strlit("alt");
            reveal_strlit("option");
            reveal_strlit("shift");
        }
        if text::same_text(word.as_str(), "ctrl") || text::same_text(word.as_str(), "control") {
            ctrl = ctrl + 1;
        } else if text::same_text(word.as_str(), "alt") || text::same_text(
            word.as_str(),
            "option",
        ) {
            alt = alt + 1;
        } else if text::same_text(word.as_str(), "shift") {
            shift = shift + 1;
        } else {
            assert(!is_modifier(views[k as int]));
            return Err(Error::InvalidKey(trimmed));
        }
        k = k + 1;
    }
    if ctrl > 1 || alt > 1 || shift > 1 {
        return Err(Error::InvalidKey(trimmed));
    }
    let base = match find_base_key(&parts[last], expression) {
        Ok(base) => base,
        Err(error) => {
            return Err(error);
        },
    };
    if last == 0 {
        return Ok(base);
    }
    let modified = Key::Modified {
        ctrl: ctrl == 1,
        alt: alt == 1,
        shift: shift == 1,
        key: Box::new(base),
    };
    match modified.encode() {
        Ok(_) => Ok(modified),
        Err(Error::UnsupportedKey(_, reason)) => Err(
            Error::UnsupportedKey(expression.to_owned(), reason),
        ),
        Err(error) => Err(error),
    }
}

/// A key that was read from an expression always has bytes to send.
pub proof fn lemma_parsed_keys_have_bytes(expression: Seq<char>)
    requires
        parsed_key(expression) is Ok,
    ensures
        parsed_key(expression)->Ok_0.encoding() is Ok,
{
}

/// White space around an expression changes neither whether it is accepted nor
/// the key. An expression of white space alone is another matter: some of them
/// are keys.
pub proof fn lemma_white_space_does_not_matter(expression: Seq<char>)
    requires
        text::trimmed(expression).len() > 0,
    ensures
        parsed_key(expression) is Ok <==> parsed_key(text::trimmed(expression)) is Ok,
        parsed_key(expression) is Ok ==> parsed_key(text::trimmed(expression)) == parsed_key(
            expression,
        ),
{
    let trimmed = text::trimmed(expression);
    text::lemma_trimmed_twice(expression);
    assert forall|ch: char| text::is_space(ch) implies #[trigger] text::trimmed(seq![ch]).len()
        == 0 by {
        assert(seq![ch].drop_last() =~= seq![]);
        assert(text::trim_end(seq![ch]) == text::trim_end(seq![]));
    }
    assert(text::is_space('\t') && text::is_space('\n') && text::is_space('\r')
        && text::is_space(' '));
    assert(text::trimmed(seq!['\t']).len() == 0);
    assert(text::trimmed(seq!['\n']).len() == 0);
    assert(text::trimmed(seq!['\r']).len() == 0);
    assert(text::trimmed(seq![' ']).len() == 0);
}

/// Holding Alt alone puts an escape byte before what the key sends, except for
/// the keys with a modifier code of their own.
pub proof fn lemma_alt_is_an_escape_prefix(key: KeyView)
    requires
        key.navigation_code() is None,
        key.encoding() is Ok,
    ensures
        (KeyView::Modified { ctrl: false, alt: true, shift: false, key: Box::new(key) }).encoding()
            == Encoding::Ok(seq![0x1bu8] + key.encoding()->Ok_0),
{
}

/// Ctrl and a letter send the control byte of the letter, in capitals or not.
pub proof fn lemma_ctrl_letters_are_control_bytes(letter: char)
    requires
        text::is_letter(letter),
    ensures
        parsed_key("ctrl+"@.push(letter)) == Parsed::Ok(
            KeyView::Modified {
                ctrl: true,
                alt: false,
                shift: false,
                key: Box::new(KeyView::Text(seq![letter])),
            },
        ),
        parsed_key("ctrl+"@.push(letter))->Ok_0.encoding() == Encoding::Ok(
            seq![(text::upper(letter) as u8 - 64) as u8],
        ),
{
    let expression = "ctrl+"@.push(letter);
    reveal_strlit("ctrl+");
    reveal_strlit("ctrl");
    reveal_strlit("control");
    reveal_strlit("alt");
    reveal_strlit("option");
    reveal_strlit("shift");
    lemma_split_once("ctrl"@, letter);
    assert(expression =~= "ctrl"@.push('+').push(letter));
    assert(text::trimmed(expression) == expression);
    let parts = text::split(expression, '+');
    assert(text::lowercase(parts[0]) =~= "ctrl"@);
    assert(is_modifier(parts[0]));
    reveal_with_fuel(tally, 2);
    lemma_letters_name_themselves(letter, expression);
}

/// A word and a letter behind a plus sign are two parts.
pub proof fn lemma_split_once(word: Seq<char>, letter: char)
    requires
        !word.contains('+'),
        letter != '+',
    ensures
        text::split(word.push('+').push(letter), '+') == seq![word, seq![letter]],
{
    lemma_unsplit(word);
    let marked = word.push('+');
    assert(marked.drop_last() =~= word);
    assert(marked.push(letter).drop_last() =~= marked);
    let front = text::split(marked, '+');
    assert(front =~= seq![word, seq![]]);
    assert(front.drop_last().push(front.last().push(letter)) =~= seq![word, seq![letter]]);
}

/// A text without a plus sign is one part.
pub proof fn lemma_unsplit(word: Seq<char>)
    requires
        !word.contains('+'),
    ensures
        text::split(word, '+') == seq![word],
    decreases word.len(),
{
    if word.len() > 0 {
        let front = word.drop_last();
        assert forall|i: int| 0 <= i < front.len() implies front[i] != '+' by {
            assert(word[i] != '+');
        }
        lemma_unsplit(front);
        assert(word[word.len() - 1] != '+');
        assert(front.push(word.last()) =~= word);
        assert(seq![front].drop_last().push(word) =~= seq![word]);
    } else {
        assert(word =~= seq![]);
    }
}

/// A letter is the key of that letter.
pub proof fn lemma_letters_name_themselves(letter: char, expression: Seq<char>)
    requires
        text::is_letter(letter),
    ensures
        base_key(seq![letter], expression) == Parsed::Ok(KeyView::Text(seq![letter])),
{
    reveal_strlit("enter");
    reveal_strlit("return");
    reveal_strlit("escape");
    reveal_strlit("esc");
    reveal_strlit("tab");
    reveal_strlit("backspace");
    reveal_strlit("delete");
    reveal_strlit("del");
    reveal_strlit("arrowup");
    reveal_strlit("up");
    reveal_strlit("arrowdown");
    reveal_strlit("down");
    reveal_strlit("arrowleft");
    reveal_strlit("left");
    reveal_strlit("arrowright");
    reveal_strlit("right");
    reveal_strlit("home");
    reveal_strlit("end");
    reveal_strlit("pageup");
    reveal_strlit("pgup");
    reveal_strlit("pagedown");
    reveal_strlit("pgdn");
    let name = text::lowercase(seq![letter]);
    assert(name.len() == 1);
    assert(name.skip(1) =~= seq![]);
}

/// Whether one of the first `count` parts names a modifier of one kind, in
/// whatever way.
pub open spec fn names(
    parts: Seq<Seq<char>>,
    count: int,
    named: spec_fn(Seq<char>) -> bool,
) -> bool {
    exists|i: int| 0 <= i < count && named(text::lowercase(#[trigger] parts[i]))
}

/// Whether two of the first `count` parts name a modifier of the same kind.
pub open spec fn repeats(
    parts: Seq<Seq<char>>,
    count: int,
    named: spec_fn(Seq<char>) -> bool,
) -> bool {
    exists|i: int, j: int|
        0 <= i < j < count && named(text::lowercase(#[trigger] parts[i])) && named(
            text::lowercase(#[trigger] parts[j]),
        )
}

/// Whether all parts but the last one are modifiers, each of another kind.
pub open spec fn has_distinct_modifiers(parts: Seq<Seq<char>>) -> bool {
    let last = parts.len() - 1;
    &&& parts.len() > 0
    &&& forall|i: int| 0 <= i < parts.len() ==> (#[trigger] parts[i]).len() > 0
    &&& forall|i: int| 0 <= i < last ==> is_modifier(#[trigger] parts[i])
    &&& !repeats(parts, last, |word: Seq<char>| is_ctrl(word))
    &&& !repeats(parts, last, |word: Seq<char>| is_alt(word))
    &&& !repeats(parts, last, |word: Seq<char>| is_shift(word))
}

/// A key depends on the set of its modifiers alone: neither on their order, nor on
/// how each of them is named, in capitals or not.
pub proof fn lemma_modifiers_are_a_set(
    left: Seq<Seq<char>>,
    right: Seq<Seq<char>>,
    expression: Seq<char>,
    trimmed: Seq<char>,
    other_expression: Seq<char>,
    other_trimmed: Seq<char>,
)
    requires
        has_distinct_modifiers(left),
        has_distinct_modifiers(right),
        left.last() == right.last(),
        names(left, left.len() - 1, |word: Seq<char>| is_ctrl(word)) == names(
            right,
            right.len() - 1,
            |word: Seq<char>| is_ctrl(word),
        ),
        names(left, left.len() - 1, |word: Seq<char>| is_alt(word)) == names(
            right,
            right.len() - 1,
            |word: Seq<char>| is_alt(word),
        ),
        names(left, left.len() - 1, |word: Seq<char>| is_shift(word)) == names(
            right,
            right.len() - 1,
            |word: Seq<char>| is_shift(word),
        ),
    ensures
        key_of_parts(left, expression, trimmed) == key_of_parts(right, expression, trimmed),
        key_of_parts(left, expression, trimmed) is Ok ==> key_of_parts(
            right,
            other_expression,
            other_trimmed,
        ) == key_of_parts(left, expression, trimmed),
{
    lemma_tallies(left);
    lemma_tallies(right);
}

/// A modifier that is repeated, under the same name or another one, is refused.
pub proof fn lemma_repeated_modifier_is_refused(
    parts: Seq<Seq<char>>,
    expression: Seq<char>,
    trimmed: Seq<char>,
)
    requires
        parts.len() > 0,
        repeats(parts, parts.len() - 1, |word: Seq<char>| is_ctrl(word)) || repeats(
            parts,
            parts.len() - 1,
            |word: Seq<char>| is_alt(word),
        ) || repeats(parts, parts.len() - 1, |word: Seq<char>| is_shift(word)),
    ensures
        key_of_parts(parts, expression, trimmed) matches Err(KeyProblem::Invalid(what)) && (what
            == expression || what == trimmed),
{
    let last = parts.len() - 1;
    lemma_tally_counts(parts, last, |word: Seq<char>| is_ctrl(word));
    lemma_tally_counts(parts, last, |word: Seq<char>| is_alt(word));
    lemma_tally_counts(parts, last, |word: Seq<char>| is_shift(word));
}

/// Of distinct modifiers each kind is there once or not at all, and there are no
/// others.
pub proof fn lemma_tallies(parts: Seq<Seq<char>>)
    requires
        has_distinct_modifiers(parts),
    ensures
        ({
            let last = parts.len() - 1;
            let ctrl = |word: Seq<char>| is_ctrl(word);
            let alt = |word: Seq<char>| is_alt(word);
            let shift = |word: Seq<char>| is_shift(word);
            &&& tally(parts, last, ctrl) == if names(parts, last, ctrl) { 1int } else { 0 }
            &&& tally(parts, last, alt) == if names(parts, last, alt) { 1int } else { 0 }
            &&& tally(parts, last, shift) == if names(parts, last, shift) { 1int } else { 0 }
            &&& last == tally(parts, last, ctrl) + tally(parts, last, alt) + tally(
                parts,
                last,
                shift,
            )
        }),
{
    let last = parts.len() - 1;
    lemma_tally_counts(parts, last, |word: Seq<char>| is_ctrl(word));
    lemma_tally_counts(parts, last, |word: Seq<char>| is_alt(word));
    lemma_tally_counts(parts, last, |word: Seq<char>| is_shift(word));
    lemma_tallies_add_up(parts, last);
}

/// A tally tells whether a kind is there, and whether it is there twice.
proof fn lemma_tally_counts(
    parts: Seq<Seq<char>>,
    count: int,
    named: spec_fn(Seq<char>) -> bool,
)
    requires
        0 <= count <= parts.len(),
    ensures
        tally(parts, count, named) >= 0,
        tally(parts, count, named) >= 1 <==> names(parts, count, named),
        tally(parts, count, named) >= 2 <==> repeats(parts, count, named),
    decreases count,
{
    if count > 0 {
        lemma_tally_counts(parts, count - 1, named);
        let last = count - 1;
        if named(text::lowercase(parts[last])) {
            assert(names(parts, count, named));
            if names(parts, last, named) {
                let i = choose|i: int|
                    0 <= i < last && named(text::lowercase(#[trigger] parts[i]));
                assert(0 <= i < last < count);
                assert(repeats(parts, count, named));
            }
        }
        if names(parts, last, named) {
            let i = choose|i: int| 0 <= i < last && named(text::lowercase(#[trigger] parts[i]));
            assert(0 <= i < count && named(text::lowercase(parts[i])));
        }
        if repeats(parts, last, named) {
            let (i, j) = choose|i: int, j: int|
                0 <= i < j < last && named(text::lowercase(#[trigger] parts[i])) && named(
                    text::lowercase(#[trigger] parts[j]),
                );
            assert(0 <= i < j < count);
        }
    }
}

/// Every modifier is of one kind.
proof fn lemma_tallies_add_up(parts: Seq<Seq<char>>, count: int)
    requires
        0 <= count <= parts.len(),
        forall|i: int| 0 <= i < count ==> is_modifier(#[trigger] parts[i]),
    ensures
        count == tally(parts, count, |word: Seq<char>| is_ctrl(word)) + tally(
            parts,
            count,
            |word: Seq<char>| is_alt(word),
        ) + tally(parts, count, |word: Seq<char>| is_shift(word)),
    decreases count,
{
    if count > 0 {
        lemma_tallies_add_up(parts, count - 1);
        assert(is_modifier(parts[count - 1]));
        reveal_strlit("ctrl");
        reveal_strlit("control");
        reveal_strlit("alt");
        reveal_strlit("option");
        reveal_strlit("shift");
        assert("ctrl"@[0] != "alt"@[0] && "ctrl"@[0] != "option"@[0] && "ctrl"@[0] != "shift"@[0]);
        assert("control"@[0] != "alt"@[0] && "control"@[0] != "option"@[0]);
        assert("control"@[0] != "shift"@[0] && "alt"@[0] != "shift"@[0]);
        assert("option"@[0] != "shift"@[0]);
    }
}

/// A navigation key with modifiers sends a sequence with the modifiers' number:
/// one more than the sum of one for Shift, two for Alt and four for Ctrl.
pub proof fn lemma_modified_navigation_keys_name_their_modifiers(
    key: KeyView,
    ctrl: bool,
    alt: bool,
    shift: bool,
)
    requires
        key.navigation_code() is Some,
    ensures
        ({
            let modifier = 1 + (if shift {
                1int
            } else {
                0
            }) + (if alt {
                2int
            } else {
                0
            }) + (if ctrl {
                4int
            } else {
                0
            });
            (KeyView::Modified { ctrl, alt, shift, key: Box::new(key) }).encoding() == Encoding::Ok(
                seq![
                    0x1bu8,
                    0x5b,
                    0x31,
                    0x3b,
                    (0x30 + modifier) as u8,
                    key.navigation_code()->0,
                ],
            )
        }),
{
}

/// One write to the program, and how long to wait behind it.
#[derive(Debug)]
pub struct Stroke {
    pub bytes: Vec<u8>,
    pub pause: Option<Duration>,
}

/// A stroke, with its bytes as a sequence.
#[verifier::ext_equal]
pub struct StrokeView {
    pub bytes: Seq<u8>,
    pub pause: Option<Duration>,
}

impl View for Stroke {
    type V = StrokeView;

    open spec fn view(&self) -> StrokeView {
        StrokeView { bytes: self.bytes@, pause: self.pause }
    }
}

/// The keyboard of a session. It holds the writes that are due, in their order.
#[derive(Debug)]
pub struct Keyboard {
    strokes: Vec<Stroke>,
}

impl View for Keyboard {
    type V = Seq<StrokeView>;

    closed spec fn view(&self) -> Seq<StrokeView> {
        Seq::new(self.strokes@.len(), |i: int| self.strokes@[i]@)
    }
}

/// The writes that type a text, one for each character.
pub open spec fn typed(text: Seq<char>, delay: Option<Duration>) -> Seq<StrokeView> {
    Seq::new(
        text.len(),
        |i: int|
            StrokeView {
                bytes: encode_utf8(seq![text[i]]),
                pause: match delay {
                    Some(delay) => if delay@ == 0 {
                        None
                    } else {
                        Some(delay)
                    },
                    None => None,
                },
            },
    )
}

/// The bytes of some writes, one behind the other.
pub open spec fn written(strokes: Seq<StrokeView>) -> Seq<u8>
    decreases strokes.len(),
{
    if strokes.len() == 0 {
        seq![]
    } else {
        strokes[0].bytes + written(strokes.drop_first())
    }
}

/// Typing keeps the order of the characters: it writes the bytes that pasting
/// the text writes, whatever the pauses.
pub proof fn lemma_typing_writes_the_text(text: Seq<char>, delay: Option<Duration>)
    ensures
        written(typed(text, delay)) == encode_utf8(text),
    decreases text.len(),
{
    if text.len() > 0 {
        let rest = text.drop_first();
        lemma_typing_writes_the_text(rest, delay);
        assert(typed(text, delay).drop_first() =~= typed(rest, delay));
        assert(seq![text[0]].drop_first() =~= seq![]);
        assert(encode_utf8(seq![text[0]]) =~= vstd::utf8::encode_scalar(text[0] as u32)) by {
            reveal_with_fuel(encode_utf8, 2);
        }
    }
}

impl Keyboard {
    pub fn new() -> (keyboard: Keyboard)
        ensures
            keyboard@ == Seq::<StrokeView>::empty(),
    {
        let keyboard = Keyboard { strokes: Vec::new() };
        assert(keyboard@ =~= seq![]);
        keyboard
    }

    /// Presses one key expression.
    ///
    /// Shifted printable characters depend on the keyboard's layout, so the
    /// resulting character is passed (`!`, `A` or `alt+A`), not an expression
    /// such as `shift+1` or `alt+shift+a`.
    pub fn press(&mut self, expression: &str) -> (result: Result<()>)
        ensures
            match result {
                Ok(()) => parsed_key(expression@) is Ok && final(self)@ == old(self)@.push(
                    StrokeView {
                        bytes: parsed_key(expression@)->Ok_0.encoding()->Ok_0,
                        pause: None,
                    },
                ),
                Err(error) => final(self)@ == old(self)@ && is_parsed(
                    Err(error),
                    parsed_key(expression@),
                ),
            },
    {
        match Key::parse(expression) {
            Ok(key) => match key.encode() {
                Ok(bytes) => {
                    self.write_all(bytes);
                    Ok(())
                },
                Err(error) => {
                    proof {
                        lemma_parsed_keys_have_bytes(expression@);
                    }
                    Err(error)
                },
            },
            Err(error) => Err(error),
        }
    }

    /// Writes a text at once.
    pub fn paste(&mut self, text: &str)
        ensures
            final(self)@ == old(self)@.push(
                StrokeView { bytes: encode_utf8(text@), pause: None },
            ),
    {
        self.write_all(text.as_bytes_vec());
    }

    /// Writes a text character by character, with a pause behind each.
    pub fn type_text(&mut self, text: &str, delay: Option<Duration>)
        ensures
            final(self)@ == old(self)@ + typed(text@, delay),
    {
        let pause: Option<Duration> = match delay {
            Some(delay) => if delay.is_zero() {
                None
            } else {
                Some(delay)
            },
            None => None,
        };
        let chars = text::chars_of(text);
        let mut i: usize = 0;
        while i < chars.len()
            invariant
                i <= chars.len(),
                chars@ == text@,
                pause == match delay {
                    Some(delay) => if delay@ == 0 {
                        None
                    } else {
                        Some(delay)
                    },
                    None => None,
                },
                self@ == old(self)@ + typed(text@, delay).take(i as int),
            decreases chars.len() - i,
        {
            let mut one = String::new();
            one.push(chars[i]);
            assert(one@ =~= seq![text@[i as int]]);
            let ghost before = self@;
            self.strokes.push(Stroke { bytes: one.as_str().as_bytes_vec(), pause });
            i = i + 1;
            assert(self@ =~= before.push(typed(text@, delay)[i - 1]));
            assert(self@ =~= old(self)@ + typed(text@, delay).take(i as int));
        }
        assert(typed(text@, delay).take(i as int) =~= typed(text@, delay));
        assert(old(self)@ + typed(text@, delay).take(0) =~= old(self)@);
    }

    /// Writes some bytes at once.
    pub fn write_all(&mut self, bytes: Vec<u8>)
        ensures
            final(self)@ == old(self)@.push(StrokeView { bytes: bytes@, pause: None }),
    {
        self.strokes.push(Stroke { bytes, pause: None });
        assert(self@ =~= old(self)@.push(StrokeView { bytes: bytes@, pause: None }));
    }

    /// Hands out the writes that are due.
    pub fn take(&mut self) -> (strokes: Vec<Stroke>)
        ensures
            Seq::new(strokes@.len(), |i: int| strokes@[i]@) == old(self)@,
            final(self)@ == Seq::<StrokeView>::empty(),
    {
        let mut strokes: Vec<Stroke> = Vec::new();
        std::mem::swap(&mut strokes, &mut self.strokes);
        assert(self@ =~= seq![]);
        strokes
    }
}

} // verus!
