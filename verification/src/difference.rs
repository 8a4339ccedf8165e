//! Line differences, as the `similar` crate finds them.

use vstd::prelude::*;

verus! {

/// Whether a line stands in both texts, or in one of them.
#[derive(Clone, Copy, Debug, PartialEq, Eq, Structural)]
pub enum LineTag {
    Equal,
    Delete,
    Insert,
}

/// The lines of two texts, in an order that keeps that of each text, and where
/// each line stands.
pub uninterp spec fn line_changes(expected: Seq<char>, received: Seq<char>) -> Seq<
    (LineTag, Seq<char>),
>;

/// The lines of the first `count` changes that are not tagged as `left_out`, one
/// behind the other.
pub open spec fn side(changes: Seq<(LineTag, Seq<char>)>, left_out: LineTag, count: int) -> Seq<
    char,
>
    decreases count,
{
    if count <= 0 {
        seq![]
    } else if changes[count - 1].0 == left_out {
        side(changes, left_out, count - 1)
    } else {
        side(changes, left_out, count - 1) + changes[count - 1].1
    }
}

/// The views of some changes.
pub open spec fn change_views(changes: Seq<(LineTag, String)>) -> Seq<(LineTag, Seq<char>)> {
    Seq::new(changes.len(), |i: int| (changes[i].0, changes[i].1@))
}

/// Calls `similar::TextDiff::from_lines` and copies what `iter_all_changes`
/// gives. The changes depend on the two texts alone. Without the inserted lines
/// they are the first text, and without the deleted lines the second one.
#[verifier::external_body]
pub(crate) fn compare_lines(expected: &str, received: &str) -> (changes: Vec<(LineTag, String)>)
    ensures
        change_views(changes@) == line_changes(expected@, received@),
        side(change_views(changes@), LineTag::Insert, changes@.len() as int) == expected@,
        side(change_views(changes@), LineTag::Delete, changes@.len() as int) == received@,
{
    similar::TextDiff::from_lines(expected, received).iter_all_changes().map(
        |change| (match change.tag() {
            similar::ChangeTag::Equal => LineTag::Equal,
            similar::ChangeTag::Delete => LineTag::Delete,
            similar::ChangeTag::Insert => LineTag::Insert,
        }, change.value().to_owned()),
    ).collect()
}

/// The sign in front of a line.
pub open spec fn sign(tag: LineTag) -> char {
    match tag {
        LineTag::Equal => ' ',
        LineTag::Delete => '-',
        LineTag::Insert => '+',
    }
}

/// The first `count` changes as text, each with its sign.
pub open spec fn rendered(changes: Seq<(LineTag, Seq<char>)>, count: int) -> Seq<char>
    decreases count,
{
    if count <= 0 {
        "--- expected\n+++ received\n"@
    } else {
        rendered(changes, count - 1).push(sign(changes[count - 1].0)) + changes[count - 1].1
    }
}

/// Writes changes as text.
pub fn render(changes: &Vec<(LineTag, String)>) -> (text: String)
    ensures
        text@ == rendered(change_views(changes@), changes@.len() as int),
{
    let mut output = "--- expected\n+++ received\n".to_owned();
    let mut i: usize = 0;
    while i < changes.len()
        invariant
            i <= changes.len(),
            output@ == rendered(change_views(changes@), i as int),
        decreases changes.len() - i,
    {
        assert(change_views(changes@)[i as int] == (changes@[i as int].0, changes@[i as int].1@));
        output.push(
            match changes[i].0 {
                LineTag::Equal => ' ',
                LineTag::Delete => '-',
                LineTag::Insert => '+',
            },
        );
        output.append(changes[i].1.as_str());
        i = i + 1;
    }
    output
}

/// The difference of two texts, line by line. Either text can be read from it:
/// the first from the lines without those that start with a plus sign, the
/// second from the lines without those that start with a minus sign.
pub fn unified_diff(expected: &str, received: &str) -> (text: String)
    ensures
        side(
            line_changes(expected@, received@),
            LineTag::Insert,
            line_changes(expected@, received@).len() as int,
        ) == expected@,
        side(
            line_changes(expected@, received@),
            LineTag::Delete,
            line_changes(expected@, received@).len() as int,
        ) == received@,
        text@ == rendered(
            line_changes(expected@, received@),
            line_changes(expected@, received@).len() as int,
        ),
{
    let changes = compare_lines(expected, received);
    assert(changes@.len() == change_views(changes@).len());
    render(&changes)
}

} // verus!
