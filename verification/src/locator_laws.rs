//! What locators find.

use crate::error::Error;
use crate::locator;
use crate::locator::{LocatorView, MatcherView};
use crate::model::{Rect, ScreenView};
use crate::pattern;
use crate::text;
use crate::width;
use vstd::prelude::*;

verus! {

/// An exact locator finds rows that are the wanted text, no more and no less. Every
/// match has the wanted text as its text, starts in the first column and takes one
/// row.
pub proof fn lemma_exact_matches_are_whole_rows(
    lines: Seq<Seq<char>>,
    wanted: Seq<char>,
    count: int,
    i: int,
)
    requires
        0 <= count <= lines.len() <= 65535,
        0 <= i < (MatcherView::Literal { text: wanted, exact: true }).in_lines(lines, count).len(),
    ensures
        ({
            let found = (MatcherView::Literal { text: wanted, exact: true }).in_lines(
                lines,
                count,
            )[i];
            &&& found.0 == wanted
            &&& found.1.row < count
            &&& lines[found.1.row as int] == wanted
            &&& found.1.col == 0
            &&& found.1.height == 1
            &&& wanted.len() <= 65535 && width::is_plain(wanted) ==> found.1.width == wanted.len()
        }),
    decreases count,
{
    let matcher = MatcherView::Literal { text: wanted, exact: true };
    if count > 0 {
        let front = matcher.in_lines(lines, count - 1);
        if i < front.len() {
            lemma_exact_matches_are_whole_rows(lines, wanted, count - 1, i);
        } else {
            assert(width::is_plain(seq![]));
        }
    }
}

/// An exact locator finds each row that is the wanted text, once, from the top to
/// the bottom, and none where no row is.
pub proof fn lemma_exact_finds_every_such_row(
    lines: Seq<Seq<char>>,
    wanted: Seq<char>,
    count: int,
    row: int,
)
    requires
        wanted.len() > 0,
        0 <= count <= lines.len() <= 65535,
        0 <= row < count,
    ensures
        ({
            let found = (MatcherView::Literal { text: wanted, exact: true }).in_lines(lines, count);
            &&& lines[row] == wanted <==> exists|i: int|
                0 <= i < found.len() && (#[trigger] found[i]).1.row == row
            &&& forall|i: int, j: int|
                0 <= i < j < found.len() ==> (#[trigger] found[i]).1.row < (
                #[trigger] found[j]).1.row
        }),
    decreases count,
{
    let matcher = MatcherView::Literal { text: wanted, exact: true };
    let found = matcher.in_lines(lines, count);
    let front = matcher.in_lines(lines, count - 1);
    let line = matcher.in_line(lines[count - 1], count - 1);
    assert(found == front + line);
    assert forall|i: int| 0 <= i < front.len() implies (#[trigger] front[i]).1.row < count - 1 by {
        lemma_exact_matches_are_whole_rows(lines, wanted, count - 1, i);
    }
    if count > 1 {
        lemma_exact_finds_every_such_row(
            lines,
            wanted,
            count - 1,
            if row < count - 1 {
                row
            } else {
                0
            },
        );
    } else {
        assert(front.len() == 0);
    }
    assert(forall|i: int| 0 <= i < front.len() ==> found[i] == front[i]);
    if row < count - 1 {
        if lines[row] == wanted {
            let i = choose|i: int| 0 <= i < front.len() && (#[trigger] front[i]).1.row == row;
            assert(found[i].1.row == row);
        }
        if exists|i: int| 0 <= i < found.len() && (#[trigger] found[i]).1.row == row {
            let i = choose|i: int| 0 <= i < found.len() && (#[trigger] found[i]).1.row == row;
            assert(i < front.len());
            assert(front[i].1.row == row);
        }
    } else if lines[row] == wanted {
        assert(found[front.len() as int] == line[0]);
    } else {
        assert(line.len() == 0);
        if exists|i: int| 0 <= i < found.len() && (#[trigger] found[i]).1.row == row {
            let i = choose|i: int| 0 <= i < found.len() && (#[trigger] found[i]).1.row == row;
            assert(found[i] == front[i]);
        }
    }
}

/// Every match of a text is that text, at a place of its row where the text stands:
/// its column is the width of what stands before it. In a row of printable ASCII
/// that is the number of characters before it.
pub proof fn lemma_text_matches_stand_in_their_row(
    lines: Seq<Seq<char>>,
    wanted: Seq<char>,
    count: int,
    i: int,
) -> (at: int)
    requires
        0 <= count <= lines.len() <= 65535,
        0 <= i < (MatcherView::Literal { text: wanted, exact: false }).in_lines(lines, count).len(),
    ensures
        ({
            let found = (MatcherView::Literal { text: wanted, exact: false }).in_lines(
                lines,
                count,
            )[i];
            let line = lines[found.1.row as int];
            &&& found.0 == wanted
            &&& found.1.row < count
            &&& found.1.height == 1
            &&& 0 <= at
            &&& at + wanted.len() <= line.len()
            &&& line.subrange(at, at + wanted.len()) == wanted
            &&& found.1.col == width::columns_of_text(line.take(at)) as u16
            &&& found.1.width == width::columns_of_text(wanted) as u16
            &&& width::is_plain(line) && line.len() <= 65535 ==> found.1.col == at
                && found.1.width == wanted.len()
        }),
    decreases count,
{
    let matcher = MatcherView::Literal { text: wanted, exact: false };
    let front = matcher.in_lines(lines, count - 1);
    if i < front.len() {
        lemma_text_matches_stand_in_their_row(lines, wanted, count - 1, i)
    } else {
        let line = lines[count - 1];
        let all = locator::occurrences(line, wanted, 0);
        locator::lemma_occurrences(line, wanted, 0);
        let at = all[i - front.len()];
        assert(locator::occurs_at(line, wanted, at));
        assert(line.subrange(at, at + wanted.len()) == wanted);
        if width::is_plain(line) {
            assert(width::is_plain(line.take(at))) by {
                assert(forall|k: int| 0 <= k < at ==> line.take(at)[k] == line[k]);
            }
            assert(width::is_plain(wanted)) by {
                assert forall|k: int| 0 <= k < wanted.len() implies width::is_printable_ascii(
                    #[trigger] wanted[k],
                ) by {
                    assert(line.subrange(at, at + wanted.len())[k] == line[at + k]);
                }
            }
        }
        at
    }
}

/// Wherever a text stands in a row, the matches of that row cover the place, or
/// overlap it on the left; so a row in which the text stands has a match.
pub proof fn lemma_no_text_is_missed(line: Seq<char>, wanted: Seq<char>, row: int, at: int) -> (i:
    int)
    requires
        wanted.len() > 0,
        0 <= at,
        at + wanted.len() <= line.len() <= 65535,
        line.subrange(at, at + wanted.len()) == wanted,
        width::is_plain(line),
    ensures
        ({
            let found = (MatcherView::Literal { text: wanted, exact: false }).in_line(line, row);
            &&& 0 <= i < found.len()
            &&& found[i].0 == wanted
            &&& found[i].1.row == row as u16
            &&& found[i].1.col <= at < found[i].1.col + wanted.len()
        }),
{
    assert(locator::occurs_at(line, wanted, at));
    let i = lemma_occurrences_cover(line, wanted, 0, at);
    let place = locator::occurrences(line, wanted, 0)[i];
    locator::lemma_occurrences(line, wanted, 0);
    assert(width::is_plain(line.take(place))) by {
        assert(forall|k: int| 0 <= k < place ==> line.take(place)[k] == line[k]);
    }
    i
}

/// Where a text occurs, an occurrence that is taken covers the place.
proof fn lemma_occurrences_cover(line: Seq<char>, wanted: Seq<char>, from: int, at: int) -> (i: int)
    requires
        wanted.len() > 0,
        0 <= from <= at,
        locator::occurs_at(line, wanted, at),
    ensures
        ({
            let all = locator::occurrences(line, wanted, from);
            0 <= i < all.len() && all[i] <= at < all[i] + wanted.len()
        }),
    decreases at - from,
{
    if locator::occurs_at(line, wanted, from) {
        if at < from + wanted.len() {
            0
        } else {
            lemma_occurrences_cover(line, wanted, from + wanted.len(), at) + 1
        }
    } else {
        lemma_occurrences_cover(line, wanted, from + 1, at)
    }
}

/// Matches of a text in one row come from left to right, and none overlaps the one
/// before it.
pub proof fn lemma_text_matches_come_in_order(
    line: Seq<char>,
    wanted: Seq<char>,
    row: int,
    i: int,
    j: int,
)
    requires
        line.len() <= 65535,
        width::is_plain(line),
        0 <= i < j < (MatcherView::Literal { text: wanted, exact: false }).in_line(line, row).len(),
    ensures
        ({
            let found = (MatcherView::Literal { text: wanted, exact: false }).in_line(line, row);
            found[i].1.col + wanted.len() <= found[j].1.col
        }),
{
    let all = locator::occurrences(line, wanted, 0);
    locator::lemma_occurrences(line, wanted, 0);
    let (a, b) = (all[i], all[j]);
    assert(width::is_plain(line.take(a)) && width::is_plain(line.take(b))) by {
        assert(forall|k: int| 0 <= k < a ==> line.take(a)[k] == line[k]);
        assert(forall|k: int| 0 <= k < b ==> line.take(b)[k] == line[k]);
    }
}

/// A regular expression's matches in a row are those of the expression that are not
/// empty, in their order: match `k` of the expression is match `i` of the row, where
/// `i` of those before it are not empty.
pub proof fn lemma_expression_matches(source: Seq<char>, line: Seq<char>, row: int, k: int) -> (i:
    int)
    requires
        0 <= k < pattern::regex_matches(source, line).len(),
        pattern::regex_matches(source, line)[k].1.len() > 0,
    ensures
        ({
            let all = pattern::regex_matches(source, line);
            let found = MatcherView::Regex(source).in_line(line, row);
            &&& 0 <= i < found.len()
            &&& found[i].0 == all[k].1
            &&& found[i].1.col == width::columns_of_text(all[k].0) as u16
            &&& found[i].1.width == width::columns_of_text(all[k].1) as u16
            &&& found[i].1.row == row as u16
            &&& found[i].1.height == 1
            &&& i == filled(all, k)
            &&& found.len() == filled(all, all.len() as int)
        }),
{
    let all = pattern::regex_matches(source, line);
    lemma_visible(all, row, all.len() as int, k);
    filled(all, k)
}

/// How many of the first `count` matches are not empty.
pub open spec fn filled(matches: Seq<(Seq<char>, Seq<char>)>, count: int) -> int
    decreases count,
{
    if count <= 0 {
        0
    } else if matches[count - 1].1.len() > 0 {
        filled(matches, count - 1) + 1
    } else {
        filled(matches, count - 1)
    }
}

proof fn lemma_visible(matches: Seq<(Seq<char>, Seq<char>)>, row: int, count: int, k: int)
    requires
        0 <= k <= count <= matches.len(),
    ensures
        0 <= filled(matches, k) <= filled(matches, count),
        locator::visible(matches, row, count).len() == filled(matches, count),
        k < count && matches[k].1.len() > 0 ==> {
            &&& filled(matches, k) < filled(matches, count)
            &&& locator::visible(matches, row, count)[filled(matches, k)] == locator::match_at(
                matches[k].0,
                matches[k].1,
                row,
            )
        },
    decreases count,
{
    if count > 0 {
        lemma_visible(
            matches,
            row,
            count - 1,
            if k < count {
                k
            } else {
                count - 1
            },
        );
    }
}

/// The matches of all rows are those of each row, from the top to the bottom.
pub proof fn lemma_rows_are_searched_in_order(
    matcher: MatcherView,
    lines: Seq<Seq<char>>,
    last: Seq<char>,
)
    ensures
        matcher.in_lines(lines.push(last), lines.len() as int + 1) == matcher.in_lines(
            lines,
            lines.len() as int,
        ) + matcher.in_line(last, lines.len() as int),
        matcher.in_lines(seq![], 0).len() == 0,
{
    lemma_same_rows(matcher, lines.push(last), lines, lines.len() as int);
}

proof fn lemma_same_rows(
    matcher: MatcherView,
    a: Seq<Seq<char>>,
    b: Seq<Seq<char>>,
    count: int,
)
    requires
        count <= a.len(),
        count <= b.len(),
        forall|i: int| 0 <= i < count ==> a[i] == b[i],
    ensures
        matcher.in_lines(a, count) == matcher.in_lines(b, count),
    decreases count,
{
    if count > 0 {
        lemma_same_rows(matcher, a, b, count - 1);
    }
}

/// A locator reads the rows of its region without the spaces at their ends; without
/// a region, those of the whole screen.
pub proof fn lemma_locators_read_their_region(
    screen: ScreenView,
    region: Option<Rect>,
    matcher: MatcherView,
    other: ScreenView,
)
    requires
        screen.active().lines(region, false) == other.active().lines(region, false),
    ensures
        (LocatorView { region, matcher }).found(screen) == (LocatorView { region, matcher }).found(
            other,
        ),
        (LocatorView { region, matcher }).found(screen) == matcher.in_lines(
            screen.active().lines(region, false),
            screen.active().lines(region, false).len() as int,
        ),
{
}

/// A text holds another one exactly where the other one stands somewhere in it.
pub proof fn lemma_holding_a_text(before: Seq<char>, part: Seq<char>, after: Seq<char>)
    ensures
        locator::contains_text(before + part + after, part),
        locator::contains_text(before, part) ==> locator::contains_text(before + after, part),
        locator::contains_text(part, before + part + after) ==> before.len() == 0 && after.len()
            == 0,
        forall|c: char|
            #[trigger] locator::contains_text(before, seq![c]) <==> before.contains(c),
{
    let all = before + part + after;
    assert(all.subrange(before.len() as int, before.len() as int + part.len()) =~= part);
    assert(locator::occurs_at(all, part, before.len() as int));
    if locator::contains_text(before, part) {
        let at = choose|at: int| locator::occurs_at(before, part, at);
        assert((before + after).subrange(at, at + part.len()) =~= before.subrange(
            at,
            at + part.len(),
        ));
        assert(locator::occurs_at(before + after, part, at));
    }
    assert forall|c: char| #[trigger]
        locator::contains_text(before, seq![c]) <==> before.contains(c) by {
        if before.contains(c) {
            let at = choose|at: int| 0 <= at < before.len() && before[at] == c;
            assert(before.subrange(at, at + 1) =~= seq![c]);
            assert(locator::occurs_at(before, seq![c], at));
        }
        if locator::contains_text(before, seq![c]) {
            let at = choose|at: int| locator::occurs_at(before, seq![c], at);
            assert(before.subrange(at, at + 1)[0] == seq![c][0]);
            assert(before[at] == c);
        }
    }
}

/// The list of places has the column and the row of every match, in brackets.
pub proof fn lemma_places_are_listed(matches: Seq<locator::MatchView>, count: int, i: int)
    requires
        0 <= i < count <= matches.len(),
    ensures
        locator::contains_text(
            locator::places(matches, count),
            seq!['('] + text::decimal(matches[i].1.col as nat) + seq![',', ' '] + text::decimal(
                matches[i].1.row as nat,
            ) + seq![')'],
        ),
    decreases count,
{
    reveal_strlit("(");
    reveal_strlit(", ");
    reveal_strlit(")");
    let place = seq!['('] + text::decimal(matches[i].1.col as nat) + seq![',', ' ']
        + text::decimal(matches[i].1.row as nat) + seq![')'];
    let front = locator::places(matches, count - 1);
    if i < count - 1 {
        lemma_places_are_listed(matches, count - 1, i);
        let all = locator::places(matches, count);
        let tail = all.skip(front.len() as int);
        assert(all =~= front + tail);
        lemma_holding_a_text(front, place, tail);
    } else {
        let before = if count == 1 {
            front
        } else {
            front + ", "@
        };
        assert(locator::places(matches, count) =~= before + place + seq![]);
        lemma_holding_a_text(before, place, seq![]);
    }
}

/// The error of a search that should have found one match has the number of matches
/// and the place of each.
pub proof fn lemma_strict_errors(error: Error, matches: Seq<locator::MatchView>, i: int)
    requires
        locator::is_strict_error(error, matches),
        0 <= i < matches.len(),
    ensures
        error is StrictLocator,
        error->count == matches.len(),
        locator::contains_text(
            error->locations@,
            seq!['('] + text::decimal(matches[i].1.col as nat) + seq![',', ' '] + text::decimal(
                matches[i].1.row as nat,
            ) + seq![')'],
        ),
{
    lemma_places_are_listed(matches, matches.len() as int, i);
}

} // verus!
