//! Finding text on the screen.

use crate::error::{Error, Result};
use crate::model::{Rect, ScreenView};
use crate::pattern;
use crate::pattern::Pattern;
use crate::screen::{Region, Screen};
use crate::text;
use crate::width;
use vstd::prelude::*;

verus! {

/// What a locator looks for.
#[derive(Debug)]
pub enum TextMatcher {
    /// A text, anywhere in a row or as the whole of it.
    Literal { text: String, exact: bool },
    /// What a regular expression matches in a row.
    Regex(Pattern),
}

/// What a locator looks for, with its text as a sequence of characters.
#[verifier::ext_equal]
pub enum MatcherView {
    Literal { text: Seq<char>, exact: bool },
    Regex(Seq<char>),
}

impl View for TextMatcher {
    type V = MatcherView;

    open spec fn view(&self) -> MatcherView {
        match self {
            TextMatcher::Literal { text, exact } => MatcherView::Literal {
                text: text@,
                exact: *exact,
            },
            TextMatcher::Regex(pattern) => MatcherView::Regex(pattern@),
        }
    }
}

/// Where a match stands: its first column, its row, and its columns.
#[derive(Clone, Copy, Debug, PartialEq, Eq, Structural)]
pub struct BoundingBox {
    pub col: u16,
    pub row: u16,
    pub width: u16,
    pub height: u16,
}

/// A match: its text and where it stands.
pub type MatchView = (Seq<char>, BoundingBox);

/// The match of `text` in row `row`, where `before` stands to its left.
pub open spec fn match_at(before: Seq<char>, text: Seq<char>, row: int) -> MatchView {
    (
        text,
        BoundingBox {
            col: width::columns_of_text(before) as u16,
            row: row as u16,
            width: width::columns_of_text(text) as u16,
            height: 1,
        },
    )
}

/// Whether `text` stands at position `at` of the line.
pub open spec fn occurs_at(line: Seq<char>, text: Seq<char>, at: int) -> bool {
    0 <= at && at + text.len() <= line.len() && line.subrange(at, at + text.len()) == text
}

/// The occurrences of a text in a line from position `from` on, from left to
/// right; each starts behind the one before it.
pub open spec fn occurrences(line: Seq<char>, text: Seq<char>, from: int) -> Seq<int>
    decreases line.len() - from,
{
    if text.len() == 0 || from + text.len() > line.len() {
        seq![]
    } else if occurs_at(line, text, from) {
        seq![from] + occurrences(line, text, from + text.len())
    } else {
        occurrences(line, text, from + 1)
    }
}

impl MatcherView {
    /// The matches in one line.
    pub open spec fn in_line(self, line: Seq<char>, row: int) -> Seq<MatchView> {
        match self {
            MatcherView::Literal { text, exact } => if text.len() == 0 {
                seq![]
            } else if exact {
                if line == text {
                    seq![match_at(seq![], line, row)]
                } else {
                    seq![]
                }
            } else {
                let found = occurrences(line, text, 0);
                Seq::new(found.len(), |i: int| match_at(line.take(found[i]), text, row))
            },
            MatcherView::Regex(source) => visible(
                pattern::regex_matches(source, line),
                row,
                pattern::regex_matches(source, line).len() as int,
            ),
        }
    }

    /// The matches in the first `count` lines.
    pub open spec fn in_lines(self, lines: Seq<Seq<char>>, count: int) -> Seq<MatchView>
        decreases count,
    {
        if count <= 0 {
            seq![]
        } else {
            self.in_lines(lines, count - 1) + self.in_line(lines[count - 1], count - 1)
        }
    }

    /// The matcher as its `Debug` shows it.
    pub open spec fn described(self) -> Seq<char> {
        match self {
            MatcherView::Literal { text, exact } => "Literal { text: "@ + text::quoted(text)
                + ", exact: "@ + crate::keyboard::flag(exact) + " }"@,
            MatcherView::Regex(source) => "Regex(Regex("@ + text::quoted(source) + "))"@,
        }
    }
}

/// Those of the first `count` matches that are not empty.
pub open spec fn visible(matches: Seq<(Seq<char>, Seq<char>)>, row: int, count: int) -> Seq<
    MatchView,
>
    decreases count,
{
    if count <= 0 {
        seq![]
    } else if matches[count - 1].1.len() == 0 {
        visible(matches, row, count - 1)
    } else {
        visible(matches, row, count - 1).push(
            match_at(matches[count - 1].0, matches[count - 1].1, row),
        )
    }
}

/// The views of some matches.
pub open spec fn views(matches: Seq<(String, BoundingBox)>) -> Seq<MatchView> {
    Seq::new(matches.len(), |i: int| (matches[i].0@, matches[i].1))
}

impl TextMatcher {
    /// Looks for a text anywhere in a row.
    pub fn literal(text: &str) -> (matcher: TextMatcher)
        ensures
            matcher@ == (MatcherView::Literal { text: text@, exact: false }),
    {
        TextMatcher::Literal { text: text.to_owned(), exact: false }
    }

    /// Looks for rows that hold a text and nothing else.
    pub fn exact(text: &str) -> (matcher: TextMatcher)
        ensures
            matcher@ == (MatcherView::Literal { text: text@, exact: true }),
    {
        TextMatcher::Literal { text: text.to_owned(), exact: true }
    }

    /// Looks for what a regular expression matches.
    pub fn regex(pattern: &str) -> (result: std::result::Result<TextMatcher, regex::Error>)
        ensures
            result is Ok <==> pattern::regex_accepts(pattern@),
            result matches Ok(matcher) ==> matcher@ == MatcherView::Regex(pattern@),
    {
        match Pattern::new(pattern) {
            Ok(pattern) => Ok(TextMatcher::Regex(pattern)),
            Err(error) => Err(error),
        }
    }

    /// The matcher as a text for messages.
    pub fn describe(&self) -> (description: String)
        ensures
            description@ == self@.described(),
    {
        match self {
            TextMatcher::Literal { text, exact } => "Literal { text: ".to_owned().concat(
                text::quote(text.as_str()).as_str(),
            ).concat(", exact: ").concat(crate::keyboard::flag_text(*exact)).concat(" }"),
            TextMatcher::Regex(pattern) => "Regex(Regex(".to_owned().concat(
                text::quote(pattern.source()).as_str(),
            ).concat("))"),
        }
    }

    /// Adds the matches in one line.
    fn find_in_line(&self, line: &String, row: u16, found: &mut Vec<(String, BoundingBox)>)
        ensures
            views(final(found)@) == views(old(found)@) + self@.in_line(line@, row as int),
    {
        match self {
            TextMatcher::Literal { text, exact } => {
                if text.as_str().is_empty() {
                    assert(views(found@) =~= views(old(found)@) + self@.in_line(line@, row as int));
                } else if *exact {
                    if *line == *text {
                        proof {
                            reveal_strlit("");
                            assert(""@ =~= seq![]);
                        }
                        found.push(new_match("", line.clone(), row));
                    }
                    assert(views(found@) =~= views(old(found)@) + self@.in_line(line@, row as int));
                } else {
                    find_literal(line, text, row, found);
                }
            },
            TextMatcher::Regex(pattern) => {
                let matches = pattern.find_all(line.as_str());
                take_visible(matches, row, found);
            },
        }
    }
}

/// A match with its place.
fn new_match(before: &str, text: String, row: u16) -> (found: (String, BoundingBox))
    ensures
        (found.0@, found.1) == match_at(before@, text@, row as int),
{
    let bounds = BoundingBox {
        col: width::text_width(before) as u16,
        row,
        width: width::text_width(text.as_str()) as u16,
        height: 1,
    };
    (text, bounds)
}

/// Adds the occurrences of a text in a line.
fn find_literal(line: &String, text: &String, row: u16, found: &mut Vec<(String, BoundingBox)>)
    requires
        text@.len() > 0,
    ensures
        views(final(found)@) == views(old(found)@) + (MatcherView::Literal {
            text: text@,
            exact: false,
        }).in_line(line@, row as int),
{
    let line_chars = text::chars_of(line.as_str());
    let text_chars = text::chars_of(text.as_str());
    let ghost all = occurrences(line@, text@, 0);
    let ghost expected = Seq::new(
        all.len(),
        |i: int| match_at(line@.take(all[i]), text@, row as int),
    );
    let ghost mut done: int = 0;
    let mut at: usize = 0;
    assert(all.skip(0) =~= all);
    assert(expected.take(0) =~= seq![]);
    assert(views(found@) =~= views(old(found)@) + expected.take(0));
    while at <= line_chars.len() && line_chars.len() - at >= text_chars.len()
        invariant
            line_chars@ == line@,
            text_chars@ == text@,
            text@.len() > 0,
            at <= line_chars.len(),
            all == occurrences(line@, text@, 0),
            expected == Seq::new(
                all.len(),
                |i: int| match_at(line@.take(all[i]), text@, row as int),
            ),
            0 <= done <= all.len(),
            all.skip(done) == occurrences(line@, text@, at as int),
            views(found@) == views(old(found)@) + expected.take(done),
        decreases line_chars.len() - at,
    {
        if stands_at(&line_chars, &text_chars, at) {
            let ghost before = found@;
            found.push(
                new_match(line.as_str().substring_char(0, at), text.clone(), row),
            );
            proof {
                let rest = occurrences(line@, text@, at + text@.len());
                assert(all.skip(done) == seq![at as int] + rest);
                assert(all.skip(done)[0] == at);
                assert(all.skip(done).len() > 0);
                assert(all[done] == at);
                assert(line@.subrange(0, at as int) =~= line@.take(at as int));
                assert(all.skip(done + 1) =~= all.skip(done).skip(1));
                assert(rest =~= (seq![at as int] + rest).skip(1));
                assert(expected.take(done + 1) =~= expected.take(done).push(expected[done]));
                assert(views(found@) =~= views(before).push(expected[done]));
                assert(views(found@) =~= views(old(found)@) + expected.take(done + 1));
                done = done + 1;
            }
            at = at + text_chars.len();
        } else {
            at = at + 1;
        }
    }
    proof {
        assert(all.skip(done).len() == 0);
        assert(done == all.len());
        assert(expected.take(done) =~= expected);
    }
}

/// Whether `text` stands at position `at` of the line.
fn stands_at(line: &Vec<char>, text: &Vec<char>, at: usize) -> (result: bool)
    requires
        at + text@.len() <= line@.len(),
    ensures
        result == occurs_at(line@, text@, at as int),
{
    let mut i: usize = 0;
    while i < text.len()
        invariant
            i <= text.len(),
            at + text.len() <= line.len(),
            forall|k: int| 0 <= k < i ==> line@[at + k] == text@[k],
        decreases text.len() - i,
    {
        if line[at + i] != text[i] {
            assert(line@.subrange(at as int, at + text@.len())[i as int] != text@[i as int]);
            return false;
        }
        i = i + 1;
    }
    assert(line@.subrange(at as int, at + text@.len()) =~= text@);
    true
}

/// Adds the matches that are not empty.
pub fn take_visible(
    matches: Vec<(String, String)>,
    row: u16,
    found: &mut Vec<(String, BoundingBox)>,
)
    ensures
        views(final(found)@) == views(old(found)@) + visible(
            pattern::match_views(matches@),
            row as int,
            matches@.len() as int,
        ),
{
    let ghost all = pattern::match_views(matches@);
    let mut i: usize = 0;
    assert(views(found@) =~= views(old(found)@) + visible(all, row as int, 0));
    while i < matches.len()
        invariant
            i <= matches.len(),
            all == pattern::match_views(matches@),
            views(found@) == views(old(found)@) + visible(all, row as int, i as int),
        decreases matches.len() - i,
    {
        let ghost before = found@;
        if !matches[i].1.as_str().is_empty() {
            found.push(new_match(matches[i].0.as_str(), matches[i].1.clone(), row));
            assert(views(found@) =~= views(before).push(
                match_at(all[i as int].0, all[i as int].1, row as int),
            ));
        }
        i = i + 1;
        assert(views(found@) =~= views(old(found)@) + visible(all, row as int, i as int));
    }
}

/// A search for text. What it finds is read anew from the screen it is asked
/// about.
#[derive(Debug)]
pub struct Locator {
    region: Option<Rect>,
    matcher: TextMatcher,
}

/// Where a locator looks, and for what.
#[verifier::ext_equal]
pub struct LocatorView {
    pub region: Option<Rect>,
    pub matcher: MatcherView,
}

impl View for Locator {
    type V = LocatorView;

    closed spec fn view(&self) -> LocatorView {
        LocatorView { region: self.region, matcher: self.matcher@ }
    }
}

impl LocatorView {
    /// What the locator finds, row by row and from left to right.
    pub open spec fn found(self, screen: ScreenView) -> Seq<MatchView> {
        let lines = screen.active().lines(self.region, false);
        self.matcher.in_lines(lines, lines.len() as int)
    }
}

/// The places of the first `count` matches, with commas between them.
pub open spec fn places(matches: Seq<MatchView>, count: int) -> Seq<char>
    decreases count,
{
    if count <= 0 {
        seq![]
    } else {
        places(matches, count - 1) + (if count == 1 {
            seq![]
        } else {
            ", "@
        }) + "("@ + text::decimal(matches[count - 1].1.col as nat) + ", "@ + text::decimal(
            matches[count - 1].1.row as nat,
        ) + ")"@
    }
}

/// The error of a search that should have found one match.
pub open spec fn is_strict_error(error: Error, matches: Seq<MatchView>) -> bool {
    error matches Error::StrictLocator { count, locations } && count == matches.len()
        && locations@ == places(matches, matches.len() as int)
}

/// The error of a search that should have found one match.
pub fn strict_error(matches: &Vec<(String, BoundingBox)>) -> (error: Error)
    ensures
        is_strict_error(error, views(matches@)),
{
    let mut locations = String::new();
    let mut i: usize = 0;
    while i < matches.len()
        invariant
            i <= matches.len(),
            locations@ == places(views(matches@), i as int),
        decreases matches.len() - i,
    {
        let bounds = matches[i].1;
        assert(bounds == views(matches@)[i as int].1);
        let ghost before = locations@;
        if i > 0 {
            locations.append(", ");
        }
        assert(locations@ =~= before + (if i == 0 {
            seq![]
        } else {
            ", "@
        }));
        locations.append("(");
        locations.append(text::decimal_text(bounds.col as u64).as_str());
        locations.append(", ");
        locations.append(text::decimal_text(bounds.row as u64).as_str());
        locations.append(")");
        i = i + 1;
    }
    Error::StrictLocator { count: matches.len(), locations }
}

impl Locator {
    /// A search in a region, or in the whole screen.
    pub fn new(region: Option<Region>, matcher: TextMatcher) -> (locator: Locator)
        ensures
            locator@ == (LocatorView {
                region: match region {
                    Some(region) => Some(region@),
                    None => None,
                },
                matcher: matcher@,
            }),
    {
        Locator {
            region: match region {
                Some(region) => Some(region.rect()),
                None => None,
            },
            matcher,
        }
    }

    /// The matches, row by row and from left to right.
    pub fn matches(&self, screen: &Screen) -> (found: Vec<(String, BoundingBox)>)
        requires
            screen@.wf(),
        ensures
            views(found@) == self@.found(screen@),
    {
        let lines = screen.lines_in(self.region, false);
        let ghost all = screen@.active().lines(self.region, false);
        let mut found: Vec<(String, BoundingBox)> = Vec::new();
        let mut row: usize = 0;
        assert(views(found@) =~= self.matcher@.in_lines(all, 0));
        while row < lines.len()
            invariant
                row <= lines.len(),
                lines.len() <= u16::MAX,
                all == text::views(lines@),
                views(found@) == self.matcher@.in_lines(all, row as int),
            decreases lines.len() - row,
        {
            assert(lines@[row as int]@ == all[row as int]);
            self.matcher.find_in_line(&lines[row], row as u16, &mut found);
            row = row + 1;
        }
        found
    }

    /// How many matches there are.
    pub fn count(&self, screen: &Screen) -> (count: usize)
        requires
            screen@.wf(),
        ensures
            count == self@.found(screen@).len(),
    {
        let found = self.matches(screen);
        assert(found@.len() == views(found@).len());
        found.len()
    }

    /// Whether there is a match.
    pub fn is_visible(&self, screen: &Screen) -> (visible: bool)
        requires
            screen@.wf(),
        ensures
            visible == (self@.found(screen@).len() > 0),
    {
        self.count(screen) > 0
    }

    /// The text of the only match. There must be exactly one.
    pub fn text(&self, screen: &Screen) -> (result: Result<String>)
        requires
            screen@.wf(),
        ensures
            match result {
                Ok(text) => self@.found(screen@).len() == 1 && text@ == self@.found(screen@)[0].0,
                Err(error) => self@.found(screen@).len() != 1 && is_strict_error(
                    error,
                    self@.found(screen@),
                ),
            },
    {
        let found = self.matches(screen);
        assert(found@.len() == views(found@).len());
        if found.len() != 1 {
            return Err(strict_error(&found));
        }
        assert(views(found@)[0].0 == found@[0].0@);
        Ok(found[0].0.clone())
    }

    /// The place of the only match. There must be exactly one.
    pub fn bounding_box(&self, screen: &Screen) -> (result: Result<BoundingBox>)
        requires
            screen@.wf(),
        ensures
            match result {
                Ok(bounds) => self@.found(screen@).len() == 1 && bounds == self@.found(
                    screen@,
                )[0].1,
                Err(error) => self@.found(screen@).len() != 1 && is_strict_error(
                    error,
                    self@.found(screen@),
                ),
            },
    {
        let found = self.matches(screen);
        assert(found@.len() == views(found@).len());
        if found.len() != 1 {
            return Err(strict_error(&found));
        }
        assert(views(found@)[0].1 == found@[0].1);
        Ok(found[0].1)
    }

    /// The text that the locator reads from a screen.
    pub fn seen(&self, screen: &Screen) -> (text: String)
        requires
            screen@.wf(),
        ensures
            text@ == text::join_lines(screen@.active().lines(self@.region, false)),
    {
        text::join(&screen.lines_in(self.region, false))
    }

    /// What the locator looks for, as a text for messages.
    pub fn describe(&self) -> (description: String)
        ensures
            description@ == self@.matcher.described(),
    {
        self.matcher.describe()
    }
}

impl Screen {
    /// Looks for a text anywhere in a row of the screen.
    pub fn get_by_text(&self, text: &str) -> (locator: Locator)
        ensures
            locator@ == (LocatorView {
                region: None,
                matcher: MatcherView::Literal { text: text@, exact: false },
            }),
    {
        Locator::new(None, TextMatcher::literal(text))
    }

    /// Looks for rows of the screen that hold a text and nothing else.
    pub fn get_by_exact_text(&self, text: &str) -> (locator: Locator)
        ensures
            locator@ == (LocatorView {
                region: None,
                matcher: MatcherView::Literal { text: text@, exact: true },
            }),
    {
        Locator::new(None, TextMatcher::exact(text))
    }

    /// Looks for what a regular expression matches in the rows of the screen.
    pub fn get_by_regex(&self, pattern: &str) -> (result: std::result::Result<
        Locator,
        regex::Error,
    >)
        ensures
            result is Ok <==> pattern::regex_accepts(pattern@),
            result matches Ok(locator) ==> locator@ == (LocatorView {
                region: None,
                matcher: MatcherView::Regex(pattern@),
            }),
    {
        match TextMatcher::regex(pattern) {
            Ok(matcher) => Ok(Locator::new(None, matcher)),
            Err(error) => Err(error),
        }
    }
}

impl Region {
    /// Looks for a text anywhere in a row of the region.
    pub fn get_by_text(&self, text: &str) -> (locator: Locator)
        ensures
            locator@ == (LocatorView {
                region: Some(self@),
                matcher: MatcherView::Literal { text: text@, exact: false },
            }),
    {
        Locator::new(Some(*self), TextMatcher::literal(text))
    }

    /// Looks for rows of the region that hold a text and nothing else.
    pub fn get_by_exact_text(&self, text: &str) -> (locator: Locator)
        ensures
            locator@ == (LocatorView {
                region: Some(self@),
                matcher: MatcherView::Literal { text: text@, exact: true },
            }),
    {
        Locator::new(Some(*self), TextMatcher::exact(text))
    }

    /// Looks for what a regular expression matches in the rows of the region.
    pub fn get_by_regex(&self, pattern: &str) -> (result: std::result::Result<
        Locator,
        regex::Error,
    >)
        ensures
            result is Ok <==> pattern::regex_accepts(pattern@),
            result matches Ok(locator) ==> locator@ == (LocatorView {
                region: Some(self@),
                matcher: MatcherView::Regex(pattern@),
            }),
    {
        match TextMatcher::regex(pattern) {
            Ok(matcher) => Ok(Locator::new(Some(*self), matcher)),
            Err(error) => Err(error),
        }
    }
}

/// Whether a text holds another one.
pub open spec fn contains_text(text: Seq<char>, part: Seq<char>) -> bool {
    exists|at: int| occurs_at(text, part, at)
}

/// Tells whether a text holds another one.
pub fn contains(text: &str, part: &str) -> (result: bool)
    ensures
        result == contains_text(text@, part@),
{
    let whole = text::chars_of(text);
    let wanted = text::chars_of(part);
    if wanted.len() > whole.len() {
        return false;
    }
    let last: usize = whole.len() - wanted.len();
    let mut at: usize = 0;
    loop
        invariant
            whole@ == text@,
            wanted@ == part@,
            last == whole@.len() - wanted@.len(),
            at <= last,
            forall|k: int| 0 <= k < at ==> !occurs_at(text@, part@, k),
        decreases last - at,
    {
        if stands_at(&whole, &wanted, at) {
            return true;
        }
        if at == last {
            assert(forall|k: int| k > last ==> !occurs_at(text@, part@, k));
            return false;
        }
        at = at + 1;
    }
}

/// The matches of a text in a line are occurrences of it, from left to right,
/// and no two overlap. There is one wherever the text occurs at all.
pub proof fn lemma_occurrences(line: Seq<char>, text: Seq<char>, from: int)
    requires
        text.len() > 0,
        0 <= from,
    ensures
        ({
            let found = occurrences(line, text, from);
            &&& forall|i: int|
                0 <= i < found.len() ==> from <= #[trigger] found[i] && occurs_at(
                    line,
                    text,
                    found[i],
                )
            &&& forall|i: int, j: int|
                0 <= i < j < found.len() ==> #[trigger] found[i] + text.len()
                    <= #[trigger] found[j]
            &&& found.len() > 0 <==> exists|at: int| from <= at && occurs_at(line, text, at)
        }),
    decreases line.len() - from,
{
    let found = occurrences(line, text, from);
    if from + text.len() <= line.len() {
        if occurs_at(line, text, from) {
            lemma_occurrences(line, text, from + text.len());
            let rest = occurrences(line, text, from + text.len());
            assert(found == seq![from] + rest);
            assert forall|i: int, j: int| 0 <= i < j < found.len() implies #[trigger] found[i]
                + text.len() <= #[trigger] found[j] by {
                assert(found[j] == rest[j - 1]);
                if i > 0 {
                    assert(found[i] == rest[i - 1]);
                }
            }
            assert forall|i: int| 0 <= i < found.len() implies from <= #[trigger] found[i]
                && occurs_at(line, text, found[i]) by {
                if i > 0 {
                    assert(found[i] == rest[i - 1]);
                }
            }
        } else {
            lemma_occurrences(line, text, from + 1);
            if exists|at: int| from <= at && occurs_at(line, text, at) {
                let at = choose|at: int| from <= at && occurs_at(line, text, at);
                assert(from + 1 <= at);
            }
        }
    }
}

/// An empty text matches nothing, neither as a part of a row nor as a whole one.
pub proof fn lemma_empty_text_matches_nothing(lines: Seq<Seq<char>>, count: int, exact: bool)
    ensures
        (MatcherView::Literal { text: seq![], exact }).in_lines(lines, count).len() == 0,
    decreases count,
{
    if count > 0 {
        lemma_empty_text_matches_nothing(lines, count - 1, exact);
    }
}

/// No match is empty.
pub proof fn lemma_matches_are_not_empty(
    matcher: MatcherView,
    lines: Seq<Seq<char>>,
    count: int,
    i: int,
)
    requires
        0 <= i < matcher.in_lines(lines, count).len(),
    ensures
        matcher.in_lines(lines, count)[i].0.len() > 0,
    decreases count,
{
    if count > 0 {
        let front = matcher.in_lines(lines, count - 1);
        let line = lines[count - 1];
        if i < front.len() {
            lemma_matches_are_not_empty(matcher, lines, count - 1, i);
        } else if let MatcherView::Regex(source) = matcher {
            let all = pattern::regex_matches(source, line);
            lemma_visible_is_not_empty(all, count - 1, all.len() as int, i - front.len());
        }
    }
}

proof fn lemma_visible_is_not_empty(
    matches: Seq<(Seq<char>, Seq<char>)>,
    row: int,
    count: int,
    i: int,
)
    requires
        0 <= i < visible(matches, row, count).len(),
    ensures
        visible(matches, row, count)[i].0.len() > 0,
    decreases count,
{
    if count > 0 {
        if i < visible(matches, row, count - 1).len() {
            lemma_visible_is_not_empty(matches, row, count - 1, i);
        }
    }
}

} // verus!
