//! Texts as sequences of characters.

use vstd::prelude::*;

verus! {

/// `String::push` appends one character.
pub assume_specification[ String::push ](string: &mut String, ch: char)
    ensures
        final(string)@ == old(string)@.push(ch),
;

/// The characters of a text.
pub fn chars_of(text: &str) -> (chars: Vec<char>)
    ensures
        chars@ == text@,
{
    let mut chars: Vec<char> = Vec::new();
    for ch in it: text.chars()
        invariant
            chars@ == text@.take(it.index() as int),
            it.seq() == text@,
    {
        chars.push(ch);
    }
    assert(text@.take(text@.len() as int) =~= text@);
    chars
}

/// The text of some characters.
pub fn text_of(chars: &Vec<char>) -> (text: String)
    ensures
        text@ == chars@,
{
    let mut text = String::new();
    let mut i: usize = 0;
    while i < chars.len()
        invariant
            i <= chars.len(),
            text@ == chars@.take(i as int),
        decreases chars.len() - i,
    {
        text.push(chars[i]);
        i = i + 1;
        assert(chars@.take(i as int) =~= chars@.take(i - 1).push(chars@[i - 1]));
    }
    assert(chars@.take(i as int) =~= chars@);
    text
}

/// Whether two texts hold the same characters.
pub fn same_text(left: &str, right: &str) -> (same: bool)
    ensures
        same == (left@ == right@),
{
    left.to_owned() == right.to_owned()
}

/// The text without the occurrences of `mark` at its end.
pub open spec fn strip_end(text: Seq<char>, mark: char) -> Seq<char>
    decreases text.len(),
{
    if text.len() > 0 && text.last() == mark {
        strip_end(text.drop_last(), mark)
    } else {
        text
    }
}

/// The text without the occurrences of `mark` at its start.
pub open spec fn strip_start(text: Seq<char>, mark: char) -> Seq<char>
    decreases text.len(),
{
    if text.len() > 0 && text[0] == mark {
        strip_start(text.drop_first(), mark)
    } else {
        text
    }
}

/// The lines one after the other, with a line feed between two of them.
pub open spec fn join_lines(lines: Seq<Seq<char>>) -> Seq<char>
    decreases lines.len(),
{
    if lines.len() == 0 {
        seq![]
    } else if lines.len() == 1 {
        lines[0]
    } else {
        join_lines(lines.drop_last()).push('\n') + lines.last()
    }
}

/// What is stripped from the end is `mark`, and all that stands there.
pub proof fn lemma_strip_end(text: Seq<char>, mark: char)
    ensures
        strip_end(text, mark).len() <= text.len(),
        strip_end(text, mark) == text.take(strip_end(text, mark).len() as int),
        forall|i: int| strip_end(text, mark).len() <= i < text.len() ==> text[i] == mark,
        strip_end(text, mark).len() > 0 ==> strip_end(text, mark).last() != mark,
    decreases text.len(),
{
    let kept = strip_end(text, mark).len();
    if text.len() > 0 && text.last() == mark {
        lemma_strip_end(text.drop_last(), mark);
        assert(text.take(kept as int) =~= text.drop_last().take(kept as int));
        assert forall|i: int| kept <= i < text.len() implies text[i] == mark by {
            if i < text.len() - 1 {
                assert(text[i] == text.drop_last()[i]);
            }
        }
    } else {
        assert(text.take(text.len() as int) =~= text);
    }
}

/// What is stripped from the start is `mark`, and all that stands there.
pub proof fn lemma_strip_start(text: Seq<char>, mark: char)
    ensures
        strip_start(text, mark).len() <= text.len(),
        strip_start(text, mark) == text.skip(text.len() - strip_start(text, mark).len()),
        strip_start(text, mark).len() > 0 ==> strip_start(text, mark)[0] != mark,
    decreases text.len(),
{
    if text.len() > 0 && text[0] == mark {
        lemma_strip_start(text.drop_first(), mark);
        let kept = strip_start(text, mark).len();
        assert(text.skip(text.len() - kept) =~= text.drop_first().skip(
            text.drop_first().len() - kept,
        ));
    } else {
        assert(text.skip(0) =~= text);
    }
}

/// Drops the occurrences of `mark` at the end of some characters.
pub fn strip_end_of(text: &mut Vec<char>, mark: char)
    ensures
        final(text)@ == strip_end(old(text)@, mark),
{
    while text.len() > 0 && text[text.len() - 1] == mark
        invariant
            strip_end(text@, mark) == strip_end(old(text)@, mark),
        decreases text.len(),
    {
        let ghost before = text@;
        let _ = text.pop();
        assert(text@ =~= before.drop_last());
    }
}

/// Drops the spaces at the end of a text.
pub fn trim_end_spaces(text: &str) -> (trimmed: String)
    ensures
        trimmed@ == strip_end(text@, ' '),
{
    let mut chars = chars_of(text);
    strip_end_of(&mut chars, ' ');
    text_of(&chars)
}

/// The views of some texts.
pub open spec fn views(lines: Seq<String>) -> Seq<Seq<char>> {
    Seq::new(lines.len(), |i: int| lines[i]@)
}

/// Joins lines with a line feed between two of them.
pub fn join(lines: &Vec<String>) -> (text: String)
    ensures
        text@ == join_lines(views(lines@)),
{
    let mut text = String::new();
    let mut i: usize = 0;
    while i < lines.len()
        invariant
            i <= lines.len(),
            text@ == join_lines(views(lines@).take(i as int)),
        decreases lines.len() - i,
    {
        let ghost before = views(lines@).take(i as int);
        if i > 0 {
            text.push('\n');
        }
        text.append(lines[i].as_str());
        i = i + 1;
        proof {
            let now = views(lines@).take(i as int);
            assert(now.drop_last() =~= before);
            if i == 1 {
                assert(before =~= seq![]);
                assert(text@ =~= now[0]);
            }
        }
    }
    assert(views(lines@).take(i as int) =~= views(lines@));
    text
}

/// The decimal digit of a number below ten.
pub open spec fn digit(value: nat) -> char {
    (48 + value) as char
}

/// A number in decimal notation.
pub open spec fn decimal(value: nat) -> Seq<char>
    decreases value,
{
    if value < 10 {
        seq![digit(value)]
    } else {
        decimal(value / 10).push(digit(value % 10))
    }
}

/// Writes a number in decimal notation.
pub fn decimal_text(value: u64) -> (text: String)
    ensures
        text@ == decimal(value as nat),
    decreases value,
{
    let mut text = if value < 10 {
        String::new()
    } else {
        decimal_text(value / 10)
    };
    text.push((48 + (value % 10) as u8) as char);
    assert(text@ =~= decimal(value as nat));
    text
}

/// The `Debug` text of a string: in quotes, with escapes.
pub uninterp spec fn quoted(text: Seq<char>) -> Seq<char>;

/// Formats a `str` with its `Debug`. The text depends on the string alone.
#[verifier::external_body]
pub(crate) fn quote(text: &str) -> (result: String)
    ensures
        result@ == quoted(text@),
{
    format!("{:?}", text)
}

/// True for the characters with the Unicode property `White_Space`.
pub open spec fn is_space(ch: char) -> bool {
    ||| '\u{9}' <= ch <= '\u{d}'
    ||| ch == ' '
    ||| ch == '\u{85}'
    ||| ch == '\u{a0}'
    ||| ch == '\u{1680}'
    ||| '\u{2000}' <= ch <= '\u{200a}'
    ||| ch == '\u{2028}'
    ||| ch == '\u{2029}'
    ||| ch == '\u{202f}'
    ||| ch == '\u{205f}'
    ||| ch == '\u{3000}'
}

pub fn space(ch: char) -> (result: bool)
    ensures
        result == is_space(ch),
{
    ('\u{9}' <= ch && ch <= '\u{d}') || ch == ' ' || ch == '\u{85}' || ch == '\u{a0}' || ch
        == '\u{1680}' || ('\u{2000}' <= ch && ch <= '\u{200a}') || ch == '\u{2028}' || ch
        == '\u{2029}' || ch == '\u{202f}' || ch == '\u{205f}' || ch == '\u{3000}'
}

/// The text without white space at its start.
pub open spec fn trim_start(text: Seq<char>) -> Seq<char>
    decreases text.len(),
{
    if text.len() > 0 && is_space(text[0]) {
        trim_start(text.drop_first())
    } else {
        text
    }
}

/// The text without white space at its end.
pub open spec fn trim_end(text: Seq<char>) -> Seq<char>
    decreases text.len(),
{
    if text.len() > 0 && is_space(text.last()) {
        trim_end(text.drop_last())
    } else {
        text
    }
}

/// The text without white space at either end.
pub open spec fn trimmed(text: Seq<char>) -> Seq<char> {
    trim_start(trim_end(text))
}

/// Trimming a text twice is trimming it once.
pub proof fn lemma_trimmed_twice(text: Seq<char>)
    ensures
        trimmed(trimmed(text)) == trimmed(text),
{
    let ended = trim_end(text);
    lemma_trim_end_ends(text);
    lemma_trim_start_starts(ended);
    let result = trim_start(ended);
    if result.len() > 0 {
        assert(result.last() == ended.last());
    }
}

proof fn lemma_trim_end_ends(text: Seq<char>)
    ensures
        trim_end(text).len() > 0 ==> !is_space(trim_end(text).last()),
    decreases text.len(),
{
    if text.len() > 0 && is_space(text.last()) {
        lemma_trim_end_ends(text.drop_last());
    }
}

proof fn lemma_trim_start_starts(text: Seq<char>)
    ensures
        trim_start(text).len() > 0 ==> !is_space(trim_start(text)[0]),
        trim_start(text).len() > 0 ==> trim_start(text).last() == text.last(),
        trim_start(text).len() <= text.len(),
    decreases text.len(),
{
    if text.len() > 0 && is_space(text[0]) {
        lemma_trim_start_starts(text.drop_first());
    }
}

/// Drops the white space at both ends of a text.
pub fn trim(text: &str) -> (result: String)
    ensures
        result@ == trimmed(text@),
{
    let chars = chars_of(text);
    let mut end: usize = chars.len();
    assert(chars@.take(end as int) =~= text@);
    while end > 0 && space(chars[end - 1])
        invariant
            end <= chars.len(),
            chars@ == text@,
            trim_end(text@) == trim_end(chars@.take(end as int)),
        decreases end,
    {
        assert(chars@.take(end as int).drop_last() =~= chars@.take(end - 1));
        end = end - 1;
    }
    let ghost ended = chars@.take(end as int);
    let mut start: usize = 0;
    assert(ended.skip(0) =~= ended);
    while start < end && space(chars[start])
        invariant
            start <= end <= chars.len(),
            ended == chars@.take(end as int),
            trim_start(ended) == trim_start(ended.skip(start as int)),
        decreases end - start,
    {
        assert(ended.skip(start as int)[0] == chars@[start as int]);
        assert(ended.skip(start as int).drop_first() =~= ended.skip(start + 1));
        start = start + 1;
    }
    assert(text@.subrange(start as int, end as int) =~= ended.skip(start as int));
    text.substring_char(start, end).to_owned()
}

/// A letter from `A` to `Z` as a small letter; any other character as it is.
pub open spec fn lower(ch: char) -> char {
    if 'A' <= ch <= 'Z' {
        (ch as u32 + 32) as char
    } else {
        ch
    }
}

/// A letter from `a` to `z` as a capital; any other character as it is.
pub open spec fn upper(ch: char) -> char {
    if 'a' <= ch <= 'z' {
        (ch as u32 - 32) as char
    } else {
        ch
    }
}

pub open spec fn is_letter(ch: char) -> bool {
    'a' <= ch <= 'z' || 'A' <= ch <= 'Z'
}

/// The text with its ASCII capitals as small letters.
pub open spec fn lowercase(text: Seq<char>) -> Seq<char> {
    Seq::new(text.len(), |i: int| lower(text[i]))
}

pub fn to_lowercase(text: &Vec<char>) -> (result: Vec<char>)
    ensures
        result@ == lowercase(text@),
{
    let mut result: Vec<char> = Vec::new();
    let mut i: usize = 0;
    while i < text.len()
        invariant
            i <= text.len(),
            result@ == lowercase(text@.take(i as int)),
        decreases text.len() - i,
    {
        let ch = text[i];
        result.push(
            if 'A' <= ch && ch <= 'Z' {
                (ch as u8 + 32) as char
            } else {
                ch
            },
        );
        i = i + 1;
        assert(result@ =~= lowercase(text@.take(i as int)));
    }
    assert(text@.take(i as int) =~= text@);
    result
}

/// The parts of a text between the occurrences of `mark`.
pub open spec fn split(text: Seq<char>, mark: char) -> Seq<Seq<char>>
    decreases text.len(),
{
    if text.len() == 0 {
        seq![seq![]]
    } else {
        let front = split(text.drop_last(), mark);
        if text.last() == mark {
            front.push(seq![])
        } else {
            front.drop_last().push(front.last().push(text.last()))
        }
    }
}

/// The characters of some parts.
pub open spec fn char_views(parts: Seq<Vec<char>>) -> Seq<Seq<char>> {
    Seq::new(parts.len(), |i: int| parts[i]@)
}

/// Splits a text at the occurrences of `mark`.
pub fn split_at_mark(text: &str, mark: char) -> (parts: Vec<Vec<char>>)
    ensures
        char_views(parts@) == split(text@, mark),
        parts.len() > 0,
{
    let chars = chars_of(text);
    let mut parts: Vec<Vec<char>> = Vec::new();
    let mut part: Vec<char> = Vec::new();
    let mut i: usize = 0;
    assert(char_views(parts@).push(part@) =~= split(text@.take(0), mark));
    while i < chars.len()
        invariant
            i <= chars.len(),
            chars@ == text@,
            char_views(parts@).push(part@) == split(text@.take(i as int), mark),
        decreases chars.len() - i,
    {
        let ghost front = char_views(parts@);
        let ghost last = part@;
        let ch = chars[i];
        if ch == mark {
            parts.push(part);
            part = Vec::new();
        } else {
            part.push(ch);
        }
        i = i + 1;
        proof {
            let now = text@.take(i as int);
            assert(now.drop_last() =~= text@.take(i - 1));
            assert(front.push(last).drop_last() =~= front);
            assert(char_views(parts@).push(part@) =~= split(now, mark));
        }
    }
    assert(text@.take(i as int) =~= text@);
    parts.push(part);
    assert(char_views(parts@) =~= split(text@, mark));
    parts
}

/// The number that some decimal digits stand for; none where there is no digit
/// or something else.
pub open spec fn decimal_value(text: Seq<char>) -> Option<nat>
    decreases text.len(),
{
    if text.len() == 0 || !('0' <= text.last() <= '9') {
        None
    } else if text.len() == 1 {
        Some((text[0] as nat - 48) as nat)
    } else {
        match decimal_value(text.drop_last()) {
            Some(front) => Some((front * 10 + (text.last() as nat - 48)) as nat),
            None => None,
        }
    }
}

/// The front part of a number is a number, and no larger one.
proof fn lemma_front_of_number(text: Seq<char>, count: int)
    requires
        0 < count <= text.len(),
        decimal_value(text) is Some,
    ensures
        decimal_value(text.take(count)) is Some,
        decimal_value(text.take(count))->0 <= decimal_value(text)->0,
    decreases text.len(),
{
    if count == text.len() {
        assert(text.take(count) =~= text);
    } else {
        lemma_front_of_number(text.drop_last(), count);
        assert(text.drop_last().take(count) =~= text.take(count));
    }
}

/// Reads decimal digits as a number of at most `limit`.
pub fn parse_decimal(text: &Vec<char>, limit: u64) -> (number: Option<u64>)
    ensures
        match number {
            Some(number) => decimal_value(text@) == Some(number as nat) && number <= limit,
            None => decimal_value(text@) is None || decimal_value(text@)->0 > limit,
        },
{
    if text.len() == 0 {
        return None;
    }
    let mut value: u64 = 0;
    let mut i: usize = 0;
    while i < text.len()
        invariant
            i <= text.len(),
            value <= limit,
            i == 0 ==> value == 0,
            i > 0 ==> decimal_value(text@.take(i as int)) == Some(value as nat),
        decreases text.len() - i,
    {
        let ghost now = text@.take(i + 1);
        assert(now.drop_last() =~= text@.take(i as int));
        proof {
            if decimal_value(text@) is Some {
                lemma_front_of_number(text@, i + 1);
            }
        }
        let ch = text[i];
        if !('0' <= ch && ch <= '9') {
            return None;
        }
        let digit: u64 = (ch as u8 - 48) as u64;
        let next: u128 = value as u128 * 10 + digit as u128;
        assert(decimal_value(now) == Some(next as nat));
        if next > limit as u128 {
            return None;
        }
        value = next as u64;
        i = i + 1;
    }
    assert(text@.take(i as int) =~= text@);
    Some(value)
}

/// A number with its sign in decimal notation.
pub open spec fn signed_decimal(value: int) -> Seq<char> {
    if value < 0 {
        "-"@ + decimal((-value) as nat)
    } else {
        decimal(value as nat)
    }
}

/// Writes a number with its sign in decimal notation.
pub fn signed_text(value: i32) -> (text: String)
    ensures
        text@ == signed_decimal(value as int),
{
    if value < 0 {
        "-".to_owned().concat(decimal_text((-(value as i64)) as u64).as_str())
    } else {
        decimal_text(value as u64)
    }
}

/// The first `count` texts in quotes, with commas between them.
pub open spec fn quoted_items(items: Seq<Seq<char>>, count: int) -> Seq<char>
    decreases count,
{
    if count <= 0 {
        seq![]
    } else if count == 1 {
        quoted(items[0])
    } else {
        quoted_items(items, count - 1) + ", "@ + quoted(items[count - 1])
    }
}

/// A list of texts as its `Debug` shows it.
pub open spec fn quoted_list(items: Seq<Seq<char>>) -> Seq<char> {
    "["@ + quoted_items(items, items.len() as int) + "]"@
}

/// Writes a list of texts as its `Debug` shows it.
pub fn quote_list(items: &Vec<String>) -> (text: String)
    ensures
        text@ == quoted_list(views(items@)),
{
    let mut inner = String::new();
    let mut i: usize = 0;
    while i < items.len()
        invariant
            i <= items.len(),
            inner@ == quoted_items(views(items@), i as int),
        decreases items.len() - i,
    {
        assert(items@[i as int]@ == views(items@)[i as int]);
        if i == 0 {
            inner = quote(items[i].as_str());
        } else {
            inner.append(", ");
            inner.append(quote(items[i].as_str()).as_str());
        }
        i = i + 1;
    }
    "[".to_owned().concat(inner.as_str()).concat("]")
}

/// What bytes read as UTF-8 show, with U+FFFD in place of what is not UTF-8.
pub uninterp spec fn lossy(bytes: Seq<u8>) -> Seq<char>;

/// Calls `String::from_utf8_lossy`. The text depends on the bytes alone, and
/// encodes to the same bytes where they are UTF-8.
#[verifier::external_body]
pub(crate) fn lossy_text(bytes: &Vec<u8>) -> (text: String)
    ensures
        text@ == lossy(bytes@),
        vstd::utf8::valid_utf8(bytes@) ==> vstd::utf8::encode_utf8(text@) == bytes@,
{
    String::from_utf8_lossy(bytes.as_slice()).into_owned()
}

/// The hexadecimal digit of a number below sixteen.
pub open spec fn hex_digit(value: nat) -> char {
    if value < 10 {
        (48 + value) as char
    } else {
        (87 + value) as char
    }
}

/// The last `digits` hexadecimal digits of a number.
pub open spec fn hex(value: nat, digits: nat) -> Seq<char>
    decreases digits,
{
    if digits == 0 {
        seq![]
    } else {
        hex(value / 16, (digits - 1) as nat).push(hex_digit(value % 16))
    }
}

/// Writes the last `digits` hexadecimal digits of a number.
pub fn hex_text(value: u64, digits: u8) -> (text: String)
    ensures
        text@ == hex(value as nat, digits as nat),
    decreases digits,
{
    if digits == 0 {
        let text = String::new();
        assert(text@ =~= seq![]);
        return text;
    }
    let mut text = hex_text(value / 16, digits - 1);
    let digit: u8 = (value % 16) as u8;
    text.push(
        (if digit < 10 {
            48 + digit
        } else {
            87 + digit
        }) as char,
    );
    text
}

/// Sixteen power `digits`.
pub open spec fn hex_limit(digits: nat) -> nat
    decreases digits,
{
    if digits == 0 {
        1
    } else {
        16 * hex_limit((digits - 1) as nat)
    }
}

/// Numbers with the same hexadecimal digits are the same.
pub proof fn lemma_hex_is_injective(left: nat, right: nat, digits: nat)
    requires
        left < hex_limit(digits),
        right < hex_limit(digits),
        hex(left, digits) == hex(right, digits),
    ensures
        left == right,
    decreases digits,
{
    if digits > 0 {
        let fewer = (digits - 1) as nat;
        let l = hex(left / 16, fewer);
        let r = hex(right / 16, fewer);
        lemma_hex_length(left / 16, fewer);
        lemma_hex_length(right / 16, fewer);
        assert(hex(left, digits).last() == hex_digit(left % 16));
        assert(hex(right, digits).last() == hex_digit(right % 16));
        assert(l =~= hex(left, digits).drop_last());
        assert(r =~= hex(right, digits).drop_last());
        lemma_hex_is_injective(left / 16, right / 16, fewer);
    }
}

/// As many digits are written as were asked for.
pub proof fn lemma_hex_length(value: nat, digits: nat)
    ensures
        hex(value, digits).len() == digits,
    decreases digits,
{
    if digits > 0 {
        lemma_hex_length(value / 16, (digits - 1) as nat);
    }
}

} // verus!
