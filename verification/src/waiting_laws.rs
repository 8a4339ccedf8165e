//! What is waited for, and what is compared.

use crate::difference;
use crate::difference::LineTag;
use crate::error::Error;
use crate::expect;
use crate::expect::{LocatorExpectView, Verdict};
use crate::locator_laws;
use crate::model::ScreenView;
use crate::process::ExitView;
use crate::session;
use crate::session::{LaunchOptions, WaitStep};
use crate::snapshot;
use crate::snapshot::{SnapshotStep, SnapshotWrite, StoreView, StoredSnapshot};
use crate::text;
use crate::time::Duration;
use vstd::prelude::*;

verus! {

/// An assertion about a locator passes exactly where it holds; it is looked at again
/// exactly where it does not hold yet, is not ambiguous, the process has not ended
/// and there is time left. Between two looks are at most fifty milliseconds, and
/// never more than what is left.
pub proof fn lemma_locator_assertions(
    assertion: LocatorExpectView,
    expectation: Seq<char>,
    verdict: Verdict,
    screen: ScreenView,
    exit: Option<ExitView>,
    elapsed: Duration,
    step: WaitStep,
)
    requires
        assertion.timeout@ > 0,
        assertion.decides(expectation, verdict, screen, exit, elapsed, step),
    ensures
        step is Passed <==> verdict is Holds,
        step is Wait <==> verdict is Fails && exit is None && elapsed@ < assertion.timeout@,
        step matches WaitStep::Wait(span) ==> {
            &&& 0 < span@ <= 50 * 1000000
            &&& elapsed@ + span@ <= assertion.timeout@
            &&& span@ == 50 * 1000000 || elapsed@ + span@ == assertion.timeout@
        },
        step matches WaitStep::Failed(error) ==> {
            &&& error is StrictLocator <==> verdict is Ambiguous
            &&& error is ProcessExited <==> verdict is Fails && exit is Some
            &&& error is Timeout <==> verdict is Fails && exit is None
        },
{
}

/// An assertion about the end of a process passes exactly where the process has ended
/// with the wanted code, or with any where none is wanted; it is looked at again, ten
/// milliseconds later, exactly where the process runs and there is time left.
pub proof fn lemma_exit_assertions(
    timeout: Duration,
    expected: Option<i32>,
    exit: Option<ExitView>,
    events: Seq<Seq<char>>,
    elapsed: Duration,
    step: WaitStep,
)
    requires
        timeout@ > 0,
        expect::decides_exit(timeout, expected, exit, events, elapsed, step),
    ensures
        step is Passed <==> exit is Some && (expected is None || exit->0.code == expected),
        step is Wait <==> exit is None && elapsed@ < timeout@,
        step matches WaitStep::Wait(span) ==> span@ == 10 * 1000000,
        step matches WaitStep::Failed(error) ==> {
            &&& error is ProcessExited <==> exit is Some
            &&& error is Timeout <==> exit is None
        },
{
}

/// An assertion without any time is refused whatever is found.
pub proof fn lemma_no_time_is_refused(
    assertion: LocatorExpectView,
    expectation: Seq<char>,
    verdict: Verdict,
    screen: ScreenView,
    exit: Option<ExitView>,
    elapsed: Duration,
    step: WaitStep,
    expected: Option<i32>,
    events: Seq<Seq<char>>,
    other: WaitStep,
)
    requires
        assertion.timeout@ == 0,
        assertion.decides(expectation, verdict, screen, exit, elapsed, step),
        expect::decides_exit(assertion.timeout, expected, exit, events, elapsed, other),
    ensures
        step == WaitStep::Failed(Error::InvalidTimeout { field: "timeout" }),
        other == WaitStep::Failed(Error::InvalidTimeout { field: "timeout" }),
{
}

/// A text is shown where it stands in a row of the screen.
pub proof fn lemma_what_is_shown(screen: ScreenView, wanted: Seq<char>, row: int, at: int)
    requires
        screen.wf(),
        wanted.len() > 0,
        0 <= row < screen.active().lines(None, false).len(),
        0 <= at,
        at + wanted.len() <= screen.active().lines(None, false)[row].len(),
        screen.active().lines(None, false)[row].subrange(at, at + wanted.len()) == wanted,
    ensures
        session::shows(screen, wanted),
{
    let lines = screen.active().lines(None, false);
    lemma_shown_row(lines, wanted, lines.len() as int, row, at);
}

proof fn lemma_shown_row(
    lines: Seq<Seq<char>>,
    wanted: Seq<char>,
    count: int,
    row: int,
    at: int,
)
    requires
        wanted.len() > 0,
        0 <= row < count <= lines.len(),
        0 <= at,
        at + wanted.len() <= lines[row].len(),
        lines[row].subrange(at, at + wanted.len()) == wanted,
    ensures
        (crate::locator::MatcherView::Literal { text: wanted, exact: false }).in_lines(
            lines,
            count,
        ).len() > 0,
    decreases count,
{
    if row < count - 1 {
        lemma_shown_row(lines, wanted, count - 1, row, at);
    } else {
        crate::locator::lemma_occurrences(lines[row], wanted, 0);
        assert(crate::locator::occurs_at(lines[row], wanted, at));
    }
}

/// What is shown stands in a row of the screen.
pub proof fn lemma_only_what_stands_is_shown(screen: ScreenView, wanted: Seq<char>) -> (place: (
    int,
    int,
))
    requires
        screen.wf(),
        session::shows(screen, wanted),
    ensures
        ({
            let lines = screen.active().lines(None, false);
            let (row, at) = place;
            &&& 0 <= row < lines.len()
            &&& 0 <= at
            &&& at + wanted.len() <= lines[row].len()
            &&& lines[row].subrange(at, at + wanted.len()) == wanted
        }),
{
    let lines = screen.active().lines(None, false);
    let at = locator_laws::lemma_text_matches_stand_in_their_row(
        lines,
        wanted,
        lines.len() as int,
        0,
    );
    let found = (crate::locator::MatcherView::Literal { text: wanted, exact: false }).in_lines(
        lines,
        lines.len() as int,
    );
    (found[0].1.row as int, at)
}

/// Options are refused for a startup time first, then for a shutdown time, then for
/// the dimensions; each time has to be more than nothing and at most a day.
pub proof fn lemma_which_options_are_refused(options: LaunchOptions, error: Error)
    requires
        session::refused(options, error),
    ensures
        ({
            let timely = |span: Duration| 0 < span@ <= 24 * 60 * 60 * 1000000000;
            &&& !timely(options.startup_timeout) ==> error == (Error::InvalidTimeout {
                field: "startup_timeout",
            })
            &&& timely(options.startup_timeout) && !timely(options.shutdown_timeout) ==> error == (
            Error::InvalidTimeout { field: "shutdown_timeout" })
            &&& timely(options.startup_timeout) && timely(options.shutdown_timeout) ==> (error
                is InvalidDimensions || error is ScreenTooLarge)
        }),
{
}

/// A snapshot matches exactly where the file holds the content. Where it holds
/// something else or is missing, it is written if updating was asked for, and the
/// comparison fails if not; a file that cannot be read always fails.
pub proof fn lemma_snapshot_decisions(
    store: StoreView,
    name: Seq<char>,
    content: Seq<char>,
    stored: StoredSnapshot,
    step: SnapshotStep,
)
    requires
        snapshot::decides(store, name, content, stored, step),
    ensures
        ({
            let same = stored is Content && stored->Content_0@ == content;
            &&& step is Matched <==> same
            &&& step == SnapshotStep::Write(SnapshotWrite::Create) <==> stored is Missing
                && store.options.update
            &&& step == SnapshotStep::Write(SnapshotWrite::Update) <==> stored is Content && !same
                && store.options.update
            &&& step matches SnapshotStep::Failed(error) ==> {
                &&& error is SnapshotMissing <==> stored is Missing
                &&& error is SnapshotMismatch <==> stored is Content
                &&& error is Io <==> stored is Failed
            }
            &&& stored is Failed ==> step is Failed
        }),
{
}

/// A name of letters, digits, dashes and underscores that neither begins nor ends
/// with a dash and is not too long is its own readable part.
pub proof fn lemma_plain_names_stay(name: Seq<char>)
    requires
        0 < name.len() <= 96,
        name[0] != '-',
        name.last() != '-',
        forall|i: int|
            0 <= i < name.len() ==> {
                let c = #[trigger] name[i];
                'a' <= c <= 'z' || 'A' <= c <= 'Z' || '0' <= c <= '9' || c == '-' || c == '_'
            },
    ensures
        snapshot::slug(name) == name,
        snapshot::file_name_of(name).take(name.len() as int) == name,
{
    assert forall|i: int| 0 <= i < name.len() implies snapshot::is_slug_char(
        #[trigger] name[i],
    ) by {
        let c = name[i];
    }
    assert(snapshot::dashed(name) =~= name);
    assert(snapshot::file_name_of(name).take(name.len() as int) =~= name);
}

/// Every other character becomes a dash.
pub proof fn lemma_other_characters_become_dashes(front: Seq<char>, c: char, back: Seq<char>)
    requires
        !('a' <= c <= 'z' || 'A' <= c <= 'Z' || '0' <= c <= '9' || c == '-' || c == '_'),
    ensures
        snapshot::sanitized(front + seq![c] + back) == snapshot::sanitized(
            front + seq!['-'] + back,
        ),
{
    assert(snapshot::dashed(front + seq![c] + back) =~= snapshot::dashed(
        front + seq!['-'] + back,
    ));
}

/// A difference has every line behind its sign, in order: a space for a line of both
/// texts, a minus for one that is expected alone, a plus for one that was received
/// alone.
pub proof fn lemma_differences_are_signed(
    changes: Seq<(LineTag, Seq<char>)>,
    tag: LineTag,
    line: Seq<char>,
)
    ensures
        ({
            let all = changes.push((tag, line));
            let mark = match tag {
                LineTag::Equal => ' ',
                LineTag::Delete => '-',
                LineTag::Insert => '+',
            };
            &&& difference::rendered(all, all.len() as int) == difference::rendered(
                changes,
                changes.len() as int,
            ) + seq![mark] + line
            &&& difference::rendered(changes, 0) == "--- expected\n+++ received\n"@
        }),
{
    let all = changes.push((tag, line));
    lemma_same_changes(all, changes, changes.len() as int);
    let before = difference::rendered(changes, changes.len() as int);
    assert(difference::rendered(all, all.len() as int) =~= before + seq![
        difference::sign(tag),
    ] + line);
}

proof fn lemma_same_changes(
    a: Seq<(LineTag, Seq<char>)>,
    b: Seq<(LineTag, Seq<char>)>,
    count: int,
)
    requires
        count <= a.len(),
        count <= b.len(),
        forall|i: int| 0 <= i < count ==> a[i] == b[i],
    ensures
        difference::rendered(a, count) == difference::rendered(b, count),
    decreases count,
{
    if count > 0 {
        lemma_same_changes(a, b, count - 1);
    }
}

/// A snapshot of a screen is its text and a line feed, with or without the spaces at
/// the ends of the rows; one of a region is that of the region's rows.
pub proof fn lemma_snapshots_hold_the_text(
    screen: ScreenView,
    region: crate::model::Rect,
    preserve_width: bool,
)
    ensures
        snapshot::serialized(screen, preserve_width).drop_last() == text::join_lines(
            screen.active().lines(None, preserve_width),
        ),
        snapshot::serialized(screen, preserve_width).last() == '\n',
        snapshot::serialized_region(region, screen, preserve_width).drop_last()
            == text::join_lines(screen.active().lines(Some(region), preserve_width)),
        snapshot::serialized_region(region, screen, preserve_width).last() == '\n',
{
    assert(snapshot::serialized(screen, preserve_width).drop_last() =~= text::join_lines(
        screen.active().lines(None, preserve_width),
    ));
    assert(snapshot::serialized_region(region, screen, preserve_width).drop_last()
        =~= text::join_lines(screen.active().lines(Some(region), preserve_width)));
}

/// A snapshot's file stands in the directory of its store. Its name is the readable
/// part, two dashes, the sixteen hexadecimal digits of the name's hash, and an
/// ending.
pub proof fn lemma_snapshot_files(store: StoreView, name: Seq<char>)
    ensures
        ({
            let file = snapshot::file_name_of(name);
            let n = snapshot::slug(name).len() as int;
            &&& file.len() == n + 23
            &&& file.take(n) == snapshot::slug(name)
            &&& file.subrange(n, n + 2) == seq!['-', '-']
            &&& file.subrange(n + 2, n + 18) == text::hex(snapshot::name_hash(name) as nat, 16)
            &&& file.skip(n + 18) == seq!['.', 's', 'n', 'a', 'p']
            &&& store.path_of(name) == crate::path::joined(
                store.root,
                vstd::utf8::encode_utf8(file),
            )
            &&& snapshot::sanitized(name).len() == 0 ==> snapshot::slug(name) == seq![
                's',
                'n',
                'a',
                'p',
                's',
                'h',
                'o',
                't',
            ]
            &&& snapshot::sanitized(name).len() > 0 ==> snapshot::slug(name)
                == snapshot::sanitized(name)
        }),
{
    snapshot::lemma_file_name_length(name);
    reveal_strlit("--");
    reveal_strlit(".snap");
    reveal_strlit("snapshot");
    text::lemma_hex_length(snapshot::name_hash(name) as nat, 16);
    let file = snapshot::file_name_of(name);
    let n = snapshot::slug(name).len() as int;
    assert(file.take(n) =~= snapshot::slug(name));
    assert(file.subrange(n, n + 2) =~= seq!['-', '-']);
    assert(file.subrange(n + 2, n + 18) =~= text::hex(snapshot::name_hash(name) as nat, 16));
    assert(file.skip(n + 18) =~= seq!['.', 's', 'n', 'a', 'p']);
    assert("snapshot"@ =~= seq!['s', 'n', 'a', 'p', 's', 'h', 'o', 't']);
}

/// The hash of a name is the 64-bit FNV-1a hash of its bytes: each byte is mixed in
/// and the hash multiplied by the prime, from the offset basis on.
pub proof fn lemma_name_hashes(bytes: Seq<u8>, last: u8)
    ensures
        snapshot::hash_of(seq![], 0) == 14695981039346656037,
        snapshot::hash_of(bytes.push(last), bytes.len() as int + 1) == ((snapshot::hash_of(
            bytes,
            bytes.len() as int,
        ) ^ (last as u64)) * 1099511628211) % 0x1_0000_0000_0000_0000,
{
    lemma_same_bytes(bytes.push(last), bytes, bytes.len() as int);
}

proof fn lemma_same_bytes(a: Seq<u8>, b: Seq<u8>, count: int)
    requires
        count <= a.len(),
        count <= b.len(),
        forall|i: int| 0 <= i < count ==> a[i] == b[i],
    ensures
        snapshot::hash_of(a, count) == snapshot::hash_of(b, count),
    decreases count,
{
    if count > 0 {
        lemma_same_bytes(a, b, count - 1);
    }
}

} // verus!
