//! What holds of texts and numbers.

use crate::text;
use vstd::prelude::*;

verus! {

/// A number is written with the digits from 0 to 9, the highest place first and no
/// needless zero before it, and reads back as that number.
pub proof fn lemma_decimal_reads_back(value: nat)
    ensures
        text::decimal_value(text::decimal(value)) == Some(value),
        text::decimal(value).len() > 0,
        value > 0 ==> text::decimal(value)[0] != '0',
        forall|i: int|
            0 <= i < text::decimal(value).len() ==> '0' <= #[trigger] text::decimal(value)[i]
                <= '9',
    decreases value,
{
    if value >= 10 {
        lemma_decimal_reads_back(value / 10);
        let front = text::decimal(value / 10);
        assert(text::decimal(value).drop_last() =~= front);
        assert(text::decimal(value).last() == text::digit(value % 10));
    }
}

/// Another digit behind a number is another place: ten times the number and the
/// digit's value.
pub proof fn lemma_decimal_places(value: nat, last: nat)
    requires
        last < 10,
    ensures
        text::decimal(last) == seq![(48 + last) as char],
        value > 0 ==> text::decimal(10 * value + last) == text::decimal(value).push(
            (48 + last) as char,
        ),
{
}

/// Reading digits takes each of them for ten times what stands before it and its
/// value; anything but digits is no number, and neither is nothing.
pub proof fn lemma_reading_decimals(digits: Seq<char>, last: char)
    ensures
        text::decimal_value(seq![]) is None,
        '0' <= last <= '9' ==> text::decimal_value(seq![last]) == Some((last as nat - 48) as nat),
        !('0' <= last <= '9') ==> text::decimal_value(digits.push(last)) is None,
        digits.len() > 0 && '0' <= last <= '9' ==> match text::decimal_value(digits) {
            Some(value) => text::decimal_value(digits.push(last)) == Some(
                (10 * value + (last as nat - 48)) as nat,
            ),
            None => text::decimal_value(digits.push(last)) is None,
        },
{
    let all = digits.push(last);
    assert(all.drop_last() =~= digits);
    assert(Seq::<char>::empty().len() == 0);
}

/// A negative number has a minus sign before what its opposite is written as.
pub proof fn lemma_signed_numbers(value: nat)
    ensures
        text::signed_decimal(value as int) == text::decimal(value),
        value > 0 ==> text::signed_decimal(-value) == seq!['-'] + text::decimal(value),
{
    reveal_strlit("-");
    assert("-"@ =~= seq!['-']);
}

/// A hexadecimal digit behind a number is another place; the digits above nine are
/// the letters from `a` to `f`.
pub proof fn lemma_hex_places(value: nat, last: nat, digits: nat)
    requires
        last < 16,
    ensures
        text::hex(value, 0).len() == 0,
        text::hex(16 * value + last, digits + 1) == text::hex(value, digits).push(
            if last < 10 {
                ('0' as nat + last) as char
            } else {
                ('a' as nat + last - 10) as char
            },
        ),
{
    assert((16 * value + last) / 16 == value);
    assert((16 * value + last) % 16 == last);
}

/// The letters from `A` to `Z` and from `a` to `z` are the same, 32 apart; no other
/// character has another case here.
pub proof fn lemma_letter_cases(ch: char)
    ensures
        'A' <= ch <= 'Z' ==> text::lower(ch) as int == ch as int + 32 && text::upper(ch) == ch,
        'a' <= ch <= 'z' ==> text::upper(ch) as int == ch as int - 32 && text::lower(ch) == ch,
        !('A' <= ch <= 'Z' || 'a' <= ch <= 'z') ==> text::lower(ch) == ch && text::upper(ch) == ch,
        text::is_letter(ch) <==> 'A' <= ch <= 'Z' || 'a' <= ch <= 'z',
        text::lower(text::upper(ch)) == text::lower(ch),
        text::upper(text::lower(ch)) == text::upper(ch),
{
}

/// A text in small letters has the small letter of each of its characters.
pub proof fn lemma_lowercase(content: Seq<char>, i: int)
    requires
        0 <= i < content.len(),
    ensures
        text::lowercase(content).len() == content.len(),
        text::lowercase(content)[i] == text::lower(content[i]),
        text::lowercase(text::lowercase(content)) == text::lowercase(content),
{
    assert(text::lowercase(text::lowercase(content)) =~= text::lowercase(content));
}

/// White space: what a keyboard can produce of it, the no-break space, the next-line
/// character, the ogham space mark, and what begins at U+2000 and U+3000.
pub proof fn lemma_white_space(ch: char)
    ensures
        ch < '\u{80}' ==> (text::is_space(ch) <==> ch == ' ' || ch == '\t' || ch == '\n' || ch
            == '\r' || ch == '\u{b}' || ch == '\u{c}'),
        '\u{80}' <= ch < '\u{2000}' ==> (text::is_space(ch) <==> ch == '\u{85}' || ch == '\u{a0}'
            || ch == '\u{1680}'),
        '\u{2000}' <= ch < '\u{3000}' ==> (text::is_space(ch) <==> ch <= '\u{200a}' || ch
            == '\u{2028}' || ch == '\u{2029}' || ch == '\u{202f}' || ch == '\u{205f}'),
        '\u{3000}' <= ch ==> (text::is_space(ch) <==> ch == '\u{3000}'),
{
}

/// Trimming drops the white space before and behind a text and nothing else.
pub proof fn lemma_trimming(before: Seq<char>, content: Seq<char>, behind: Seq<char>)
    requires
        forall|i: int| 0 <= i < before.len() ==> text::is_space(#[trigger] before[i]),
        forall|i: int| 0 <= i < behind.len() ==> text::is_space(#[trigger] behind[i]),
        content.len() > 0 ==> !text::is_space(content[0]) && !text::is_space(content.last()),
    ensures
        text::trimmed(before + content + behind) == content,
{
    if content.len() > 0 {
        lemma_trim_end(before + content, behind);
        lemma_trim_start(before, content);
        assert((before + content).last() == content.last());
        assert(text::trim_end(before + content) == before + content);
    } else {
        let all = before + behind;
        assert(before + content + behind =~= Seq::<char>::empty() + all);
        assert forall|i: int| 0 <= i < all.len() implies text::is_space(#[trigger] all[i]) by {
            if i < before.len() {
                assert(all[i] == before[i]);
            } else {
                assert(all[i] == behind[i - before.len()]);
            }
        }
        lemma_trim_end(Seq::<char>::empty(), all);
        assert(text::trimmed(before + content + behind) =~= content);
    }
}

proof fn lemma_trim_end(content: Seq<char>, behind: Seq<char>)
    requires
        forall|i: int| 0 <= i < behind.len() ==> text::is_space(#[trigger] behind[i]),
    ensures
        text::trim_end(content + behind) == text::trim_end(content),
    decreases behind.len(),
{
    if behind.len() > 0 {
        let all = content + behind;
        assert(text::is_space(behind[behind.len() - 1]));
        assert(all.last() == behind.last());
        assert(all.drop_last() =~= content + behind.drop_last());
        lemma_trim_end(content, behind.drop_last());
    } else {
        assert(content + behind =~= content);
    }
}

proof fn lemma_trim_start(before: Seq<char>, content: Seq<char>)
    requires
        forall|i: int| 0 <= i < before.len() ==> text::is_space(#[trigger] before[i]),
        content.len() > 0,
        !text::is_space(content[0]),
    ensures
        text::trim_start(before + content) == content,
    decreases before.len(),
{
    if before.len() > 0 {
        let all = before + content;
        assert(text::is_space(before[0]));
        assert(all[0] == before[0]);
        assert(all.drop_first() =~= before.drop_first() + content);
        lemma_trim_start(before.drop_first(), content);
    } else {
        assert(before + content =~= content);
    }
}

/// A text without the mark is its only part, and a mark between two texts parts
/// them: the parts of the whole are those of the one and then those of the other.
pub proof fn lemma_splitting(left: Seq<char>, mark: char, right: Seq<char>)
    ensures
        text::split(left + seq![mark] + right, mark) == text::split(left, mark) + text::split(
            right,
            mark,
        ),
        !left.contains(mark) ==> text::split(left, mark) == seq![left],
    decreases left.len() + right.len(),
{
    lemma_split_parts(left, mark);
    lemma_split_parts(right, mark);
    let all = left + seq![mark] + right;
    if right.len() > 0 {
        lemma_splitting(left, mark, right.drop_last());
        lemma_split_parts(right.drop_last(), mark);
        let front = text::split(right.drop_last(), mark);
        let before = text::split(left, mark);
        assert(all.drop_last() =~= left + seq![mark] + right.drop_last());
        assert(all.last() == right.last());
        if right.last() == mark {
            assert(text::split(all, mark) =~= before + text::split(right, mark));
        } else {
            assert((before + front).last() == front.last());
            assert((before + front).drop_last() =~= before + front.drop_last());
            assert(text::split(all, mark) =~= before + text::split(right, mark));
        }
    } else {
        assert(all.drop_last() =~= left);
        assert(all.last() == mark);
        assert(right =~= seq![]);
        assert(text::split(all, mark) =~= text::split(left, mark) + text::split(right, mark));
    }
    if !left.contains(mark) {
        lemma_unmarked(left, mark);
    }
}

proof fn lemma_split_parts(content: Seq<char>, mark: char)
    ensures
        text::split(content, mark).len() > 0,
    decreases content.len(),
{
    if content.len() > 0 {
        lemma_split_parts(content.drop_last(), mark);
    }
}

proof fn lemma_unmarked(content: Seq<char>, mark: char)
    requires
        !content.contains(mark),
    ensures
        text::split(content, mark) == seq![content],
    decreases content.len(),
{
    if content.len() > 0 {
        let front = content.drop_last();
        assert forall|i: int| 0 <= i < front.len() implies front[i] != mark by {
            assert(content[i] != mark);
        }
        lemma_unmarked(front, mark);
        assert(content[content.len() - 1] != mark);
        assert(front.push(content.last()) =~= content);
        assert(text::split(content, mark) =~= seq![content]);
    } else {
        assert(content =~= seq![]);
    }
}

/// Lines are joined by one line feed between two of them: joining all is joining
/// some, a line feed, and joining the others. A line alone stays as it is.
pub proof fn lemma_joining(some: Seq<Seq<char>>, others: Seq<Seq<char>>, line: Seq<char>)
    requires
        some.len() > 0,
        others.len() > 0,
    ensures
        text::join_lines(some + others) == text::join_lines(some) + seq!['\n'] + text::join_lines(
            others,
        ),
        text::join_lines(seq![line]) == line,
        text::join_lines(seq![]) == Seq::<char>::empty(),
    decreases others.len(),
{
    let all = some + others;
    assert(all.last() == others.last());
    assert(all.drop_last() =~= some + others.drop_last());
    if others.len() > 1 {
        lemma_joining(some, others.drop_last(), line);
    } else {
        assert(some + others.drop_last() =~= some);
    }
    assert(text::join_lines(all) =~= text::join_lines(some) + seq!['\n'] + text::join_lines(
        others,
    ));
}

/// What is joined and split again is what it was, where no line holds a line feed.
pub proof fn lemma_joined_lines_come_apart(lines: Seq<Seq<char>>)
    requires
        lines.len() > 0,
        forall|i: int| 0 <= i < lines.len() ==> !(#[trigger] lines[i]).contains('\n'),
    ensures
        text::split(text::join_lines(lines), '\n') == lines,
    decreases lines.len(),
{
    let last = lines.last();
    assert(!lines[lines.len() - 1].contains('\n'));
    lemma_splitting(last, '\n', seq![]);
    if lines.len() > 1 {
        let front = lines.drop_last();
        assert forall|i: int| 0 <= i < front.len() implies !(#[trigger] front[i]).contains('\n') by {
            assert(!lines[i].contains('\n'));
        }
        lemma_joined_lines_come_apart(front);
        let joined = text::join_lines(front);
        assert(text::join_lines(lines) =~= joined + seq!['\n'] + last);
        lemma_splitting(joined, '\n', last);
        assert(front + seq![last] =~= lines);
    } else {
        assert(lines =~= seq![last]);
    }
}

/// A list is shown in brackets, with a comma and a space between two of its texts.
pub proof fn lemma_lists(items: Seq<Seq<char>>, last: Seq<char>)
    ensures
        text::quoted_list(seq![]) == seq!['[', ']'],
        text::quoted_list(seq![last]) == seq!['['] + text::quoted(last) + seq![']'],
        items.len() > 0 ==> text::quoted_list(items.push(last)) == text::quoted_list(
            items,
        ).drop_last() + seq![',', ' '] + text::quoted(last) + seq![']'],
{
    reveal_strlit("[");
    reveal_strlit("]");
    reveal_strlit(", ");
    let all = items.push(last);
    lemma_same_items(all, items, items.len() as int);
    assert(text::quoted_list(seq![]) =~= seq!['[', ']']);
    assert(text::quoted_list(seq![last]) =~= seq!['['] + text::quoted(last) + seq![']']);
    if items.len() > 0 {
        assert(all[all.len() - 1] == last);
        assert(text::quoted_items(all, all.len() as int) == text::quoted_items(
            items,
            items.len() as int,
        ) + ", "@ + text::quoted(last));
        assert(text::quoted_list(all) =~= text::quoted_list(items).drop_last() + seq![',', ' ']
            + text::quoted(last) + seq![']']);
    }
}

proof fn lemma_same_items(a: Seq<Seq<char>>, b: Seq<Seq<char>>, count: int)
    requires
        count <= a.len(),
        count <= b.len(),
        forall|i: int| 0 <= i < count ==> a[i] == b[i],
    ensures
        text::quoted_items(a, count) == text::quoted_items(b, count),
    decreases count,
{
    if count > 0 {
        lemma_same_items(a, b, count - 1);
    }
}

} // verus!
