//! What holds of configured tests.

use crate::config;
use crate::config::{Config, ConfiguredTest};
use crate::configured;
use crate::configured::{AliveStep, BodyAction, BodyStage, BodyView, ExitCheck, RunOptions};
use crate::error::{Error, Result};
use crate::process::ExitView;
use crate::text;
use crate::text_laws;
use crate::time;
use crate::time::Duration;
use vstd::prelude::*;
use vstd::utf8::encode_utf8;

verus! {

/// A step that comes behind the start, the input and the text of a test: its last
/// one.
pub open spec fn is_last(body: BodyView, stage: BodyStage) -> bool {
    match stage {
        BodyStage::Start => false,
        BodyStage::Launched => body.test.input is None && body.test.expect_text is None,
        BodyStage::Typed => body.test.expect_text is None,
        BodyStage::Seen => true,
    }
}

/// A test that names an exit code waits for the end of its process last, and passes
/// exactly where the process ends with that code; any other end fails it, and a
/// process that still runs does not pass it.
pub proof fn lemma_only_the_named_code_passes(
    body: BodyView,
    code: i32,
    stage: BodyStage,
    elapsed: nat,
    cwd: Option<Vec<u8>>,
    result: Result<(BodyAction, BodyStage)>,
    exit: Option<ExitView>,
    later: nat,
    check: ExitCheck,
)
    requires
        body.test.expect_exit_code == Some(code),
        is_last(body, stage),
        body.is_next(stage, elapsed, cwd, result),
    ensures
        result is Ok,
        result->Ok_0.0 == BodyAction::WaitForExit(Some(code)),
        configured::is_exit_check(body, Some(code), exit, later, check) ==> {
            &&& check is Passed <==> exit is Some && exit->0.code == Some(code)
            &&& exit is Some && exit->0.code != Some(code) ==> check is Failed
        },
{
}

/// A test that asks for an end without a code passes with whatever end comes.
pub proof fn lemma_any_end_passes(
    body: BodyView,
    stage: BodyStage,
    elapsed: nat,
    cwd: Option<Vec<u8>>,
    result: Result<(BodyAction, BodyStage)>,
    exit: Option<ExitView>,
    later: nat,
    check: ExitCheck,
)
    requires
        body.test.expect_exit,
        body.test.expect_exit_code is None,
        is_last(body, stage),
        body.is_next(stage, elapsed, cwd, result),
    ensures
        result is Ok,
        result->Ok_0.0 == BodyAction::WaitForExit(None),
        configured::is_exit_check(body, None, exit, later, check) ==> (check is Passed <==> exit
            is Some),
{
}

/// A test that says nothing of the end of its process passes where the process ends
/// with success, and only there.
pub proof fn lemma_success_is_expected(
    body: BodyView,
    stage: BodyStage,
    elapsed: nat,
    cwd: Option<Vec<u8>>,
    result: Result<(BodyAction, BodyStage)>,
    exit: Option<ExitView>,
    later: nat,
    check: ExitCheck,
)
    requires
        !body.test.expect_exit,
        !body.test.allow_running,
        body.test.expect_exit_code is None,
        is_last(body, stage),
        body.is_next(stage, elapsed, cwd, result),
    ensures
        result is Ok,
        result->Ok_0.0 == BodyAction::WaitForExit(Some(0)),
        configured::is_exit_check(body, Some(0), exit, later, check) ==> (check is Passed <==> exit
            is Some && exit->0.code == Some(0i32)),
{
}

/// A test whose process may run on watches it last, for the time that it names or
/// for fifty milliseconds, but no longer than its own time; where that is over, it
/// fails.
pub proof fn lemma_running_is_watched(
    body: BodyView,
    stage: BodyStage,
    elapsed: nat,
    cwd: Option<Vec<u8>>,
    result: Result<(BodyAction, BodyStage)>,
)
    requires
        body.test.allow_running,
        !body.test.expect_exit,
        body.test.expect_exit_code is None,
        is_last(body, stage),
        body.is_next(stage, elapsed, cwd, result),
    ensures
        result is Err <==> elapsed >= body.timeout@,
        result matches Ok((action, _)) ==> action is StayAlive && {
            let grace = action->StayAlive_0@;
            let wanted = match body.test.allow_running_grace_ms {
                Some(grace_ms) => grace_ms * 1000000,
                None => 50000000int,
            };
            &&& grace <= wanted
            &&& elapsed + grace <= body.timeout@
            &&& grace == wanted || elapsed + grace == body.timeout@
        },
{
}

/// A process that should end is waited for exactly until the test's time is over;
/// from then on the test fails with a timeout that names it. One that has ended by
/// then is judged by its end.
pub proof fn lemma_waiting_ends_with_the_time(
    body: BodyView,
    expected: Option<i32>,
    exit: Option<ExitView>,
    elapsed: nat,
    check: ExitCheck,
)
    requires
        configured::is_exit_check(body, expected, exit, elapsed, check),
    ensures
        check is Wait <==> exit is None && elapsed < body.timeout@,
        check matches ExitCheck::Wait(left) ==> elapsed + left@ == body.timeout@,
        check matches ExitCheck::Failed(error) ==> (error is Timeout <==> exit is None),
        check matches ExitCheck::Failed(Error::Timeout { timeout, context }) ==> timeout
            == body.timeout && context@ == "running configured test `"@ + body.test.name@ + "`"@,
{
}

/// A test starts its process, writes its input if it has one, waits for its text if
/// it has one, and comes to its last step: no step is left out, and none comes
/// twice.
pub proof fn lemma_steps_come_in_order(
    body: BodyView,
    stage: BodyStage,
    elapsed: nat,
    cwd: Option<Vec<u8>>,
    result: Result<(BodyAction, BodyStage)>,
)
    requires
        body.is_next(stage, elapsed, cwd, result),
    ensures
        stage is Start && result is Ok ==> result->Ok_0.0 is Launch && result->Ok_0.1 is Launched,
        stage is Launched && body.test.input is Some ==> result is Ok && result->Ok_0.0
            == BodyAction::Paste(body.test.input->0) && result->Ok_0.1 is Typed,
        body.test.expect_text is Some && (stage is Typed || (stage is Launched && body.test.input
            is None)) && result is Ok ==> {
            &&& result->Ok_0.0 is WaitForText
            &&& result->Ok_0.0->text == body.test.expect_text->0
            &&& elapsed + result->Ok_0.0->timeout@ == body.timeout@
            &&& result->Ok_0.1 is Seen
        },
        is_last(body, stage) && result is Ok ==> (result->Ok_0.0 is WaitForExit
            || result->Ok_0.0 is StayAlive),
        result is Err ==> elapsed >= body.timeout@ && (result->Err_0 matches Error::Timeout {
            timeout,
            ..
        } && timeout == body.timeout),
        elapsed < body.timeout@ ==> result is Ok,
        stage is Start && elapsed >= body.timeout@ ==> result is Err,
{
}

/// The process of a test starts with its command and arguments, in its directory or
/// the one that is given for it, on a terminal of its size or of 80 columns and 24
/// rows, and has the rest of the test's time for its start.
pub proof fn lemma_how_a_test_starts(
    body: BodyView,
    elapsed: nat,
    cwd: Option<Vec<u8>>,
    result: Result<(BodyAction, BodyStage)>,
    i: int,
)
    requires
        body.is_next(BodyStage::Start, elapsed, cwd, result),
        elapsed < body.timeout@,
    ensures
        result is Ok && result->Ok_0.0 is Launch,
        ({
            let options = result->Ok_0.0->Launch_0;
            let test = body.test;
            &&& options.command@ == encode_utf8(test.command@)
            &&& options.args@.len() == test.args@.len()
            &&& 0 <= i < test.args@.len() ==> options.args@[i]@ == encode_utf8(test.args@[i]@)
            &&& test.cwd is None ==> options.cwd == cwd
            &&& test.cwd is Some ==> options.cwd is Some && options.cwd->0@ == test.cwd->0@
            &&& options.env@.len() == 0
            &&& options.term@ == "xterm-256color"@
            &&& test.cols is Some ==> options.cols == test.cols->0
            &&& test.cols is None ==> options.cols == 80
            &&& test.rows is Some ==> options.rows == test.rows->0
            &&& test.rows is None ==> options.rows == 24
            &&& elapsed + options.startup_timeout@ == body.timeout@
            &&& test.shutdown_timeout_ms is Some ==> options.shutdown_timeout@
                == test.shutdown_timeout_ms->0 * 1000000
            &&& test.shutdown_timeout_ms is None ==> options.shutdown_timeout@ == 600 * 1000000
        }),
{
}

/// The timeout of a test is its own one; the caller's comes before the
/// configuration's, and neither counts for a test that has its own.
pub proof fn lemma_which_timeout_counts(
    test: ConfiguredTest,
    config: Config,
    other: Config,
    options: RunOptions,
    others: RunOptions,
)
    ensures
        test.timeout_ms is Some ==> configured::test_timeout(test, config, options)
            == test.timeout_ms->0 * 1000000 && configured::test_timeout(test, other, others)
            == configured::test_timeout(test, config, options),
        test.timeout_ms is None && options.timeout is Some ==> configured::test_timeout(
            test,
            config,
            options,
        ) == options.timeout->0@ && configured::test_timeout(test, other, options)
            == configured::test_timeout(test, config, options),
        test.timeout_ms is None && options.timeout is None ==> configured::test_timeout(
            test,
            config,
            options,
        ) == config.timeout_ms * 1000000,
{
}

/// A timeout on the command line is read with or without a plus sign, and nothing
/// but digits is read; the numbers from one to the milliseconds of a day are
/// accepted.
pub proof fn lemma_timeouts_are_read(number: nat, value: u64)
    ensures
        configured::unsigned_value(text::decimal(number)) == Some(number),
        configured::unsigned_value(seq!['+'] + text::decimal(number)) == Some(number),
        configured::unsigned_value(seq![]) is None,
        configured::unsigned_value(seq!['+']) is None,
        configured::unsigned_value(seq!['-'] + text::decimal(number)) is None,
        configured::unsigned_value(seq!['+', '+'] + text::decimal(number)) is None,
        config::is_timeout_ms(value) <==> 1 <= value <= 24 * 60 * 60 * 1000,
{
    let digits = text::decimal(number);
    text_laws::lemma_decimal_reads_back(number);
    assert('0' <= digits[0] <= '9');
    let plus = seq!['+'] + digits;
    assert(plus[0] == '+');
    assert(plus.skip(1) =~= digits);
    assert(seq!['+'].skip(1) =~= seq![]);
    let minus = seq!['-'] + digits;
    assert(minus[0] == '-');
    lemma_marked_numbers(minus);
    let twice = seq!['+', '+'] + digits;
    assert(twice[0] == '+' && twice.skip(1)[0] == '+');
    lemma_marked_numbers(twice.skip(1));
}

/// What begins with something else than a digit is no number.
proof fn lemma_marked_numbers(marked: Seq<char>)
    requires
        marked.len() > 0,
        !('0' <= marked[0] <= '9'),
    ensures
        text::decimal_value(marked) is None,
    decreases marked.len(),
{
    if marked.len() > 1 {
        lemma_marked_numbers(marked.drop_last());
    }
}

/// A timeout is accepted where it is more than nothing and at most a day.
pub proof fn lemma_accepted_timeouts(span: Duration)
    ensures
        time::is_timeout(span) <==> 0 < span@ <= 24 * 60 * 60 * 1000000000,
{
}

/// The case that runs a test has its name, its group, and the test's own choice of
/// being left out or singled out, and its time.
pub proof fn lemma_cases_are_their_tests(case: crate::runner::CaseView, body: BodyView)
    requires
        configured::is_case(case, body),
    ensures
        case.name == body.test.name@,
        case.group is Some <==> body.test.group is Some,
        body.test.group is Some ==> case.group->0 == body.test.group->0@,
        case.skip == body.test.skip,
        case.focus == body.test.focus,
        case.timeout == Some(body.timeout),
{
}

/// A process that is watched fails the test as soon as it has ended, however it
/// ended, and passes it where it still runs when the time is over. Between two looks
/// is at most a millisecond, and never more than what is left.
pub proof fn lemma_watched_processes(
    exit: Option<ExitView>,
    elapsed: nat,
    grace: nat,
    step: AliveStep,
)
    requires
        configured::is_watched(exit, elapsed, grace, step),
    ensures
        step is Failed <==> exit is Some,
        step is Passed <==> exit is None && elapsed >= grace,
        step matches AliveStep::Sleep(pause) ==> {
            &&& 0 < pause@ <= 1000000
            &&& elapsed + pause@ <= grace
            &&& pause@ == 1000000 || elapsed + pause@ == grace
        },
        step matches AliveStep::Failed(error) ==> error is ProcessExited,
{
}

} // verus!
