//! What messages name.

use crate::config;
use crate::config::{Config, ConfiguredTest};
use crate::error::Error;
use crate::keyboard;
use crate::keyboard::KeyView;
use crate::locator;
use crate::locator::MatcherView;
use crate::locator_laws;
use crate::model;
use crate::model::ScreenView;
use crate::session;
use crate::text;
use crate::time::Duration;
use vstd::prelude::*;

verus! {

/// The text holds the part.
pub open spec fn names(whole: Seq<char>, part: Seq<char>) -> bool {
    locator::contains_text(whole, part)
}

/// The text holds the number.
pub open spec fn counts(whole: Seq<char>, number: nat) -> bool {
    locator::contains_text(whole, text::decimal(number))
}

proof fn lemma_inside(whole: Seq<char>, before: Seq<char>, part: Seq<char>, after: Seq<char>)
    requires
        whole == before + part + after,
    ensures
        locator::contains_text(whole, part),
{
    locator_laws::lemma_holding_a_text(before, part, after);
}

/// A message names all that its error knows: keys and reasons, coordinates and
/// sizes, counts and places, commands and causes, paths, names and differences.
pub proof fn lemma_messages_name_what_went_wrong(error: Error)
    ensures
        match error {
            Error::InvalidDimensions { cols, rows } => counts(error.describe(), cols as nat)
                && counts(error.describe(), rows as nat),
            Error::ScreenTooLarge { cols, rows, max_cells } => counts(
                error.describe(),
                cols as nat,
            ) && counts(error.describe(), rows as nat) && counts(
                error.describe(),
                max_cells as nat,
            ),
            Error::InvalidTimeout { field } => names(error.describe(), field@),
            Error::InvalidKey(key) => names(error.describe(), key@),
            Error::UnsupportedKey(key, reason) => names(error.describe(), key@) && names(
                error.describe(),
                reason@,
            ),
            Error::OutOfBounds { col, row, cols, rows } => counts(error.describe(), col as nat)
                && counts(error.describe(), row as nat) && counts(error.describe(), cols as nat)
                && counts(error.describe(), rows as nat),
            Error::StrictLocator { count, locations } => counts(error.describe(), count as nat)
                && names(error.describe(), locations@),
            Error::Timeout { timeout, context } => names(error.describe(), timeout.described())
                && names(error.describe(), context@),
            Error::ProcessExited(status) => names(error.describe(), status@),
            Error::ProcessClosed => error.describe() == "process is already closed"@,
            Error::Launch { command, source } => names(error.describe(), command@) && names(
                error.describe(),
                source@,
            ),
            Error::Io(message) => names(error.describe(), message@),
            Error::Config { path, message } => names(error.describe(), path@) && names(
                error.describe(),
                message@,
            ),
            Error::SnapshotMissing { name, path } => names(error.describe(), name@) && names(
                error.describe(),
                path@,
            ),
            Error::SnapshotMismatch { name, diff } => names(error.describe(), name@) && names(
                error.describe(),
                diff@,
            ),
            Error::Runner(message) => names(error.describe(), message@),
        },
{
    let all = error.describe();
    match error {
        Error::InvalidDimensions { cols, rows } => {
            let (c, r) = (text::decimal(cols as nat), text::decimal(rows as nat));
            let start = "invalid terminal dimensions "@;
            let end = "; both values must be greater than zero"@;
            assert(all =~= start + c + ("x"@ + r + end));
            lemma_inside(all, start, c, "x"@ + r + end);
            assert(all =~= (start + c + "x"@) + r + end);
            lemma_inside(all, start + c + "x"@, r, end);
        },
        Error::ScreenTooLarge { cols, rows, max_cells } => {
            let (c, r) = (text::decimal(cols as nat), text::decimal(rows as nat));
            let m = text::decimal(max_cells as nat);
            let start = "terminal dimensions "@;
            let middle = " exceed the limit of "@;
            assert(all =~= start + c + ("x"@ + r + middle + m + " cells"@));
            lemma_inside(all, start, c, "x"@ + r + middle + m + " cells"@);
            assert(all =~= (start + c + "x"@) + r + (middle + m + " cells"@));
            lemma_inside(all, start + c + "x"@, r, middle + m + " cells"@);
            assert(all =~= (start + c + "x"@ + r + middle) + m + " cells"@);
            lemma_inside(all, start + c + "x"@ + r + middle, m, " cells"@);
        },
        Error::InvalidTimeout { field } => {
            lemma_inside(
                all,
                "invalid "@,
                field@,
                "; timeout must be greater than zero and at most 24 hours"@,
            );
        },
        Error::InvalidKey(key) => {
            lemma_inside(all, "invalid key expression `"@, key@, "`"@);
        },
        Error::UnsupportedKey(key, reason) => {
            let start = "unsupported key combination `"@;
            assert(all =~= start + key@ + ("`: "@ + reason@));
            lemma_inside(all, start, key@, "`: "@ + reason@);
            assert(all =~= (start + key@ + "`: "@) + reason@ + seq![]);
            lemma_inside(all, start + key@ + "`: "@, reason@, seq![]);
        },
        Error::OutOfBounds { col, row, cols, rows } => {
            let (a, b) = (text::decimal(col as nat), text::decimal(row as nat));
            let (c, r) = (text::decimal(cols as nat), text::decimal(rows as nat));
            let start = "terminal coordinate ("@;
            let middle = ") is outside the "@;
            let end = " screen"@;
            assert(all =~= start + a + (", "@ + b + middle + c + "x"@ + r + end));
            lemma_inside(all, start, a, ", "@ + b + middle + c + "x"@ + r + end);
            assert(all =~= (start + a + ", "@) + b + (middle + c + "x"@ + r + end));
            lemma_inside(all, start + a + ", "@, b, middle + c + "x"@ + r + end);
            assert(all =~= (start + a + ", "@ + b + middle) + c + ("x"@ + r + end));
            lemma_inside(all, start + a + ", "@ + b + middle, c, "x"@ + r + end);
            assert(all =~= (start + a + ", "@ + b + middle + c + "x"@) + r + end);
            lemma_inside(all, start + a + ", "@ + b + middle + c + "x"@, r, end);
        },
        Error::StrictLocator { count, locations } => {
            let n = text::decimal(count as nat);
            let start = "strict locator matched "@;
            let middle = " locations: "@;
            assert(all =~= start + n + (middle + locations@));
            lemma_inside(all, start, n, middle + locations@);
            assert(all =~= (start + n + middle) + locations@ + seq![]);
            lemma_inside(all, start + n + middle, locations@, seq![]);
        },
        Error::Timeout { timeout, context } => {
            let start = "operation timed out after "@;
            let span = timeout.described();
            assert(all =~= start + span + (": "@ + context@));
            lemma_inside(all, start, span, ": "@ + context@);
            assert(all =~= (start + span + ": "@) + context@ + seq![]);
            lemma_inside(all, start + span + ": "@, context@, seq![]);
        },
        Error::ProcessExited(status) => {
            let start = "process exited while waiting: "@;
            assert(all =~= start + status@ + seq![]);
            lemma_inside(all, start, status@, seq![]);
        },
        Error::ProcessClosed => {},
        Error::Launch { command, source } => {
            let start = "failed to launch `"@;
            assert(all =~= start + command@ + ("`: "@ + source@));
            lemma_inside(all, start, command@, "`: "@ + source@);
            assert(all =~= (start + command@ + "`: "@) + source@ + seq![]);
            lemma_inside(all, start + command@ + "`: "@, source@, seq![]);
        },
        Error::Io(message) => {
            assert(all =~= "I/O error: "@ + message@ + seq![]);
            lemma_inside(all, "I/O error: "@, message@, seq![]);
        },
        Error::Config { path, message } => {
            let start = "invalid configuration in "@;
            assert(all =~= start + path@ + (": "@ + message@));
            lemma_inside(all, start, path@, ": "@ + message@);
            assert(all =~= (start + path@ + ": "@) + message@ + seq![]);
            lemma_inside(all, start + path@ + ": "@, message@, seq![]);
        },
        Error::SnapshotMissing { name, path } => {
            let middle = "` is missing at "@;
            let end = "; rerun with update mode enabled"@;
            assert(all =~= "snapshot `"@ + name@ + (middle + path@ + end));
            lemma_inside(all, "snapshot `"@, name@, middle + path@ + end);
            assert(all =~= ("snapshot `"@ + name@ + middle) + path@ + end);
            lemma_inside(all, "snapshot `"@ + name@ + middle, path@, end);
        },
        Error::SnapshotMismatch { name, diff } => {
            let middle = "` does not match\n"@;
            assert(all =~= "snapshot `"@ + name@ + (middle + diff@));
            lemma_inside(all, "snapshot `"@, name@, middle + diff@);
            assert(all =~= ("snapshot `"@ + name@ + middle) + diff@ + seq![]);
            lemma_inside(all, "snapshot `"@ + name@ + middle, diff@, seq![]);
        },
        Error::Runner(message) => {
            assert(all =~= "runner error: "@ + message@ + seq![]);
            lemma_inside(all, "runner error: "@, message@, seq![]);
        },
    }
}

/// What a locator looks for is described with its text in quotes, and whether it is
/// the whole row.
pub proof fn lemma_descriptions_of_locators(content: Seq<char>, exact: bool)
    ensures
        ({
            let shown = (MatcherView::Literal { text: content, exact }).described();
            let expression = MatcherView::Regex(content).described();
            &&& names(shown, text::quoted(content))
            &&& exact ==> names(shown, "true"@)
            &&& !exact ==> names(shown, "false"@)
            &&& names(expression, text::quoted(content))
        }),
{
    let flag = if exact {
        "true"@
    } else {
        "false"@
    };
    let shown = (MatcherView::Literal { text: content, exact }).described();
    let quoted = text::quoted(content);
    assert(shown =~= "Literal { text: "@ + quoted + (", exact: "@ + flag + " }"@));
    lemma_inside(shown, "Literal { text: "@, quoted, ", exact: "@ + flag + " }"@);
    assert(shown =~= ("Literal { text: "@ + quoted + ", exact: "@) + flag + " }"@);
    lemma_inside(shown, "Literal { text: "@ + quoted + ", exact: "@, flag, " }"@);
    lemma_inside(MatcherView::Regex(content).described(), "Regex(Regex("@, quoted, "))"@);
}

/// A key is described with its text in quotes, its number, or the key that is held
/// with modifiers.
pub proof fn lemma_descriptions_of_keys(key: KeyView)
    ensures
        match key {
            KeyView::Text(content) => names(key.described(), text::quoted(content)),
            KeyView::Function(number) => counts(key.described(), number as nat),
            KeyView::Modified { key: inner, .. } => names(key.described(), inner.described()),
            _ => true,
        },
{
    match key {
        KeyView::Text(content) => {
            lemma_inside(key.described(), "Text("@, text::quoted(content), ")"@);
        },
        KeyView::Function(number) => {
            lemma_inside(key.described(), "Function("@, text::decimal(number as nat), ")"@);
        },
        KeyView::Modified { ctrl, alt, shift, key: inner } => {
            let start = "Modified { ctrl: "@ + keyboard::flag(ctrl) + ", alt: "@ + keyboard::flag(
                alt,
            ) + ", shift: "@ + keyboard::flag(shift) + ", key: "@;
            lemma_inside(key.described(), start, inner.described(), " }"@);
        },
        _ => {},
    }
}

/// A text that did not come is named, with the text of the screen as it was.
pub proof fn lemma_missing_texts_are_named(
    error: Error,
    wanted: Seq<char>,
    timeout: Duration,
    screen: ScreenView,
)
    requires
        session::is_text_timeout(error, wanted, timeout, screen),
    ensures
        error is Timeout,
        error->timeout == timeout,
        names(error->Timeout_context@, wanted),
        names(
            error->Timeout_context@,
            text::join_lines(screen.active().lines(None, false)),
        ),
{
    let all = error->Timeout_context@;
    let rows = text::join_lines(screen.active().lines(None, false));
    let start = "waiting for text `"@;
    let middle = "`; screen:\n"@;
    assert(all =~= start + wanted + (middle + rows));
    lemma_inside(all, start, wanted, middle + rows);
    assert(all =~= (start + wanted + middle) + rows + seq![]);
    lemma_inside(all, start + wanted + middle, rows, seq![]);
}

/// What is wrong with a test is told with the test's name, where it has one and a
/// command.
pub proof fn lemma_faults_name_their_test(test: ConfiguredTest)
    requires
        config::fault_of(test) is Some,
        text::trimmed(test.name@).len() > 0,
        text::trimmed(test.command@).len() > 0,
    ensures
        names(config::fault_of(test)->0, test.name@),
{
    let all = config::fault_of(test)->0;
    let name = test.name@;
    let (cols, rows) = config::size_of(test);
    let limit = " must be greater than zero and at most "@ + text::decimal(
        config::MAX_TIMEOUT_MS as nat,
    );
    if config::is_bad_timeout(test.timeout_ms) {
        assert(all =~= "timeout_ms for test `"@ + name + ("`"@ + limit));
        lemma_inside(all, "timeout_ms for test `"@, name, "`"@ + limit);
    } else if !model::valid_dimensions(cols as int, rows as int) {
        let why = "`: "@ + config::size_error(cols, rows).describe();
        assert(all =~= "invalid dimensions for test `"@ + name + why);
        lemma_inside(all, "invalid dimensions for test `"@, name, why);
    } else if test.expect_text matches Some(content) && content@.len() == 0 {
        lemma_inside(all, "expect_text for test `"@, name, "` must not be empty"@);
    } else if test.allow_running && (test.expect_exit || test.expect_exit_code is Some) {
        lemma_inside(
            all,
            "allow_running cannot be combined with expect_exit or expect_exit_code for test `"@,
            name,
            "`"@,
        );
    } else if config::is_bad_timeout(test.allow_running_grace_ms) {
        assert(all =~= "allow_running_grace_ms for test `"@ + name + ("`"@ + limit));
        lemma_inside(all, "allow_running_grace_ms for test `"@, name, "`"@ + limit);
    } else {
        assert(all =~= "shutdown_timeout_ms for test `"@ + name + ("`"@ + limit));
        lemma_inside(all, "shutdown_timeout_ms for test `"@, name, "`"@ + limit);
    }
}

/// A configuration is refused with a message exactly where its timeout is not one
/// from a millisecond to a day or something is wrong with a test; where the timeout
/// is one, the message is that of the first test with which something is wrong.
pub proof fn lemma_which_configurations_are_refused(config: Config, message: Seq<char>)
    ensures
        config::is_sound(config) ==> !config::fault_in(config, message),
        !config::is_sound(config) ==> exists|m: Seq<char>| #[trigger] config::fault_in(config, m),
        config::is_sound(config) <==> 1 <= config.timeout_ms <= 24 * 60 * 60 * 1000 && forall|i: int|
            0 <= i < config.tests@.len() ==> config::fault_of(#[trigger] config.tests@[i]) is None,
        config::fault_in(config, message) && 1 <= config.timeout_ms <= 24 * 60 * 60 * 1000
            ==> exists|i: int|
            0 <= i < config.tests@.len() && config::fault_of(#[trigger] config.tests@[i]) == Some(
                message,
            ) && forall|k: int|
                0 <= k < i ==> config::fault_of(#[trigger] config.tests@[k]) is None,
{
    if !config::is_sound(config) {
        if config::is_timeout_ms(config.timeout_ms) {
            let i = choose|i: int|
                0 <= i < config.tests@.len() && config::fault_of(#[trigger] config.tests@[i])
                    is Some;
            let first = lemma_first_fault(config, i);
            assert(config::fault_in(config, config::fault_of(config.tests@[first])->0));
        } else {
            assert(config::fault_in(config, config::bad_timeout_text("timeout_ms"@)));
        }
    }
}

proof fn lemma_first_fault(config: Config, i: int) -> (first: int)
    requires
        0 <= i < config.tests@.len(),
        config::fault_of(config.tests@[i]) is Some,
    ensures
        0 <= first <= i,
        config::fault_of(config.tests@[first]) is Some,
        forall|k: int| 0 <= k < first ==> config::fault_of(#[trigger] config.tests@[k]) is None,
    decreases i,
{
    if exists|k: int| 0 <= k < i && config::fault_of(#[trigger] config.tests@[k]) is Some {
        let k = choose|k: int|
            0 <= k < i && config::fault_of(#[trigger] config.tests@[k]) is Some;
        lemma_first_fault(config, k)
    } else {
        i
    }
}

} // verus!
