//! What holds of runs, their results and their reports.

use crate::locator;
use crate::process::{CloseStage, CloseStep, CloseView, ExitView, ProcessView};
use crate::report;
use crate::report::{ReportView, ResultView, StatusView, TestResult, TestStatus};
use crate::runner;
use crate::runner::{CaseView, LateOutcome, RunView, WorkerOutcome};
use crate::time::Duration;
use vstd::prelude::*;

verus! {

/// A report counts each result once, under its own status, and keeps the results
/// in their order.
pub proof fn lemma_each_result_counts_once(report: ReportView, result: ResultView, selected: bool)
    ensures
        ({
            let after = report.with(result, selected);
            &&& after.tests.len() == report.tests.len() + 1
            &&& after.tests.last() == result
            &&& after.tests.drop_last() == report.tests
            &&& selected ==> after.selected == report.selected + 1
            &&& !selected ==> after.selected == report.selected
            &&& match result.status {
                StatusView::Passed => after.passed == report.passed + 1 && after.failed
                    == report.failed && after.skipped == report.skipped,
                StatusView::Failed(_) => after.passed == report.passed && after.failed
                    == report.failed + 1 && after.skipped == report.skipped,
                StatusView::Skipped => after.passed == report.passed && after.failed
                    == report.failed && after.skipped == report.skipped + 1,
            }
        }),
{
    assert(report.with(result, selected).tests.drop_last() =~= report.tests);
}

/// A run succeeds exactly where a test was selected and none of the results is a
/// failure.
pub proof fn lemma_success(report: ReportView)
    requires
        report.wf(),
    ensures
        report.succeeded() <==> report.selected > 0 && forall|i: int|
            0 <= i < report.tests.len() ==> !((#[trigger] report.tests[i]).status is Failed),
{
    if report.succeeded() {
        assert forall|i: int| 0 <= i < report.tests.len() implies !((
        #[trigger] report.tests[i]).status is Failed) by {
            report::lemma_success_means_no_failure(report, i);
        }
    }
    if forall|i: int|
        0 <= i < report.tests.len() ==> !((#[trigger] report.tests[i]).status is Failed) {
        lemma_no_failure_counts_none(report.tests, report.tests.len() as int);
    }
}

proof fn lemma_no_failure_counts_none(tests: Seq<ResultView>, count: int)
    requires
        count <= tests.len(),
        forall|i: int| 0 <= i < tests.len() ==> !((#[trigger] tests[i]).status is Failed),
    ensures
        report::count_of(tests, count, |status: StatusView| status is Failed) == 0,
    decreases count,
{
    if count > 0 {
        lemma_no_failure_counts_none(tests, count - 1);
        assert(!(tests[count - 1].status is Failed));
    }
}

/// A row of dots has one sign for each result, in their order: a dot for one that
/// passed, `F` for one that failed, `s` for one that was skipped.
pub proof fn lemma_one_sign_for_each_result(tests: Seq<TestResult>, count: int, i: int)
    requires
        0 <= i < count <= tests.len(),
    ensures
        report::dots(tests, count).len() == count,
        report::dots(tests, count)[i] == '.' <==> tests[i].status is Passed,
        report::dots(tests, count)[i] == 'F' <==> tests[i].status is Failed,
        report::dots(tests, count)[i] == 's' <==> tests[i].status is Skipped,
    decreases count,
{
    if i < count - 1 {
        lemma_one_sign_for_each_result(tests, count - 1, i);
    } else {
        lemma_dots_length(tests, count - 1);
    }
}

proof fn lemma_dots_length(tests: Seq<TestResult>, count: int)
    requires
        0 <= count,
    ensures
        report::dots(tests, count).len() == count,
    decreases count,
{
    if count > 0 {
        lemma_dots_length(tests, count - 1);
    }
}

/// The list of a report has the line of each result, in their order, and the list
/// of failures those of the failures alone; a line feed stands behind each.
pub proof fn lemma_results_are_listed(tests: Seq<TestResult>, next: TestResult)
    ensures
        ({
            let all = tests.push(next);
            let (n, m) = (tests.len() as int, all.len() as int);
            &&& report::listed_lines(all, m) == report::listed_lines(tests, n) + next.listed().push(
                '\n',
            )
            &&& next.status is Failed ==> report::failure_lines(all, m) == report::failure_lines(
                tests,
                n,
            ) + next.listed().push('\n')
            &&& !(next.status is Failed) ==> report::failure_lines(all, m)
                == report::failure_lines(tests, n)
            &&& report::listed_lines(tests, 0).len() == 0
            &&& report::failure_lines(tests, 0).len() == 0
        }),
{
    reveal_strlit("\n");
    let all = tests.push(next);
    lemma_same_lines(all, tests, tests.len() as int);
    assert(report::listed_lines(all, all.len() as int) =~= report::listed_lines(
        tests,
        tests.len() as int,
    ) + next.listed().push('\n'));
    if next.status is Failed {
        assert(report::failure_lines(all, all.len() as int) =~= report::failure_lines(
            tests,
            tests.len() as int,
        ) + next.listed().push('\n'));
    }
}

proof fn lemma_same_lines(a: Seq<TestResult>, b: Seq<TestResult>, count: int)
    requires
        count <= a.len(),
        count <= b.len(),
        forall|i: int| 0 <= i < count ==> a[i] == b[i],
    ensures
        report::listed_lines(a, count) == report::listed_lines(b, count),
        report::failure_lines(a, count) == report::failure_lines(b, count),
    decreases count,
{
    if count > 0 {
        lemma_same_lines(a, b, count - 1);
    }
}

/// The line of a result starts with what came of it and its name; that of a failure
/// has the message below it, moved two columns to the right, and that of a success
/// the time it took.
pub proof fn lemma_result_lines(result: TestResult)
    ensures
        match result.status {
            TestStatus::Passed => result.listed() == "PASS "@ + result.name@ + " ("@
                + result.duration.described() + ")"@,
            TestStatus::Skipped => result.listed() == "SKIP "@ + result.name@,
            TestStatus::Failed(message) => result.listed() == "FAIL "@ + result.name@ + "\n  "@
                + report::indented(message@, message@.len() as int),
        },
{
}

/// Moving a message to the right puts two spaces behind each of its line feeds and
/// changes nothing else.
pub proof fn lemma_indenting(message: Seq<char>, next: char)
    ensures
        ({
            let before = report::indented(message, message.len() as int);
            let after = report::indented(message.push(next), message.len() as int + 1);
            &&& next == '\n' ==> after == before + seq!['\n', ' ', ' ']
            &&& next != '\n' ==> after == before.push(next)
            &&& report::indented(seq![], 0).len() == 0
        }),
{
    reveal_strlit("\n  ");
    lemma_same_message(message.push(next), message, message.len() as int);
    let before = report::indented(message, message.len() as int);
    assert(before + "\n  "@ =~= before + seq!['\n', ' ', ' ']);
}

proof fn lemma_same_message(a: Seq<char>, b: Seq<char>, count: int)
    requires
        count <= a.len(),
        count <= b.len(),
        forall|i: int| 0 <= i < count ==> a[i] == b[i],
    ensures
        report::indented(a, count) == report::indented(b, count),
    decreases count,
{
    if count > 0 {
        lemma_same_message(a, b, count - 1);
    }
}

/// The line of counts tells how many passed, failed and were skipped, in this order.
pub proof fn lemma_summary(report: ReportView)
    ensures
        report.summarized() == crate::text::decimal(report.passed as nat) + " passed, "@
            + crate::text::decimal(report.failed as nat) + " failed, "@ + crate::text::decimal(
            report.skipped as nat,
        ) + " skipped"@,
{
}

/// A test is asked for exactly where the words that are searched for stand
/// somewhere in its full name, and it has the focus or none has.
pub proof fn lemma_which_tests_are_selected(run: RunView, i: int)
    requires
        0 <= i < run.tests.len(),
    ensures
        run.selected(i) <==> {
            &&& run.grep is Some ==> exists|at: int|
                0 <= at && at + run.grep->0.len() <= run.tests[i].full_name().len()
                    && #[trigger] run.tests[i].full_name().subrange(at, at + run.grep->0.len())
                    == run.grep->0
            &&& run.tests[i].focus || forall|k: int|
                0 <= k < run.tests.len() ==> !(#[trigger] run.tests[k]).focus
        },
{
    let name = run.tests[i].full_name();
    if run.grep is Some {
        let grep = run.grep->0;
        if locator::contains_text(name, grep) {
            let at = choose|at: int| locator::occurs_at(name, grep, at);
            assert(name.subrange(at, at + grep.len()) == grep);
        }
        if exists|at: int|
            0 <= at && at + grep.len() <= name.len() && #[trigger] name.subrange(
                at,
                at + grep.len(),
            ) == grep {
            let at = choose|at: int|
                0 <= at && at + grep.len() <= name.len() && #[trigger] name.subrange(
                    at,
                    at + grep.len(),
                ) == grep;
            assert(locator::occurs_at(name, grep, at));
        }
    }
}

/// The full name of a test has its group before its name.
pub proof fn lemma_full_names(case: CaseView)
    ensures
        case.group is None ==> case.full_name() == case.name,
        case.group is Some ==> case.full_name() == case.group->0 + " › "@ + case.name,
{
}

/// A test is started where it is asked for, is not to be skipped, has a timeout of
/// more than nothing and at most a day, and no worker was left running before it.
/// Its own timeout comes before that of the run.
pub proof fn lemma_which_tests_are_started(run: RunView)
    requires
        0 <= run.position < run.tests.len(),
    ensures
        ({
            let case = run.tests[run.position];
            let limit = run.limit(run.position);
            &&& case.timeout is Some ==> limit == case.timeout->0
            &&& case.timeout is None ==> limit == run.timeout
            &&& run.is_ready() <==> run.selected(run.position) && !case.skip && !run.stopped && 0
                < limit@ <= 24 * 60 * 60 * 1000000000
        }),
{
}

/// A test that is not started is skipped, or it fails where nothing but its timeout
/// kept it from being started. Its result stands under its full name, and the run
/// goes on with the next test.
pub proof fn lemma_tests_that_are_not_started(run: RunView)
    requires
        0 <= run.position < run.tests.len(),
        !run.is_ready(),
    ensures
        ({
            let next = run.with(run.idle_status(), 0);
            let result = next.report.tests.last();
            &&& run.settled() == next.settled()
            &&& next.position == run.position + 1
            &&& next.tests == run.tests
            &&& next.stopped == run.stopped
            &&& result.name == run.tests[run.position].full_name()
            &&& result.duration == 0
            &&& result.status is Skipped <==> run.stopped || run.tests[run.position].skip
                || !run.selected(run.position)
            &&& result.status is Skipped || result.status is Failed
        }),
{
}

/// A test passes exactly where its worker finished and neither the test nor its
/// cleanup failed; what it took is noted. Only a worker that ignores the end of its
/// time keeps the tests behind it from being started.
pub proof fn lemma_when_a_test_passes(run: RunView, outcome: WorkerOutcome, duration: nat)
    requires
        0 <= run.position < run.tests.len(),
    ensures
        ({
            let next = run.recorded(outcome, duration);
            let result = next.report.tests.last();
            &&& result.name == run.tests[run.position].full_name()
            &&& result.duration == duration
            &&& result.status is Passed <==> (outcome matches WorkerOutcome::Finished {
                body,
                cleanup,
            } && body is Ok && cleanup is Ok)
            &&& result.status is Passed || result.status is Failed
            &&& next.stopped <==> (outcome matches WorkerOutcome::TimedOut { late, .. } && late
                == LateOutcome::Ignored)
            &&& next.position == run.position + 1
            &&& next.tests == run.tests
        }),
{
}

/// The message of a failure has the message of the test in it, and that of the
/// cleanup where that failed too.
pub proof fn lemma_no_message_is_lost(body: Option<Seq<char>>, cleanup: Option<Seq<char>>)
    ensures
        runner::combined(body, cleanup) is None <==> body is None && cleanup is None,
        body is Some && cleanup is None ==> runner::combined(body, cleanup) == body,
        body is None ==> runner::combined(body, cleanup) == cleanup,
        body is Some && cleanup is Some ==> {
            let message = runner::combined(body, cleanup)->0;
            &&& message == "runner error: "@ + body->0 + "; cleanup also failed: "@ + cleanup->0
            &&& locator::contains_text(message, body->0)
            &&& locator::contains_text(message, cleanup->0)
        },
{
    if body is Some && cleanup is Some {
        let message = runner::combined(body, cleanup)->0;
        let middle = "; cleanup also failed: "@;
        assert(message =~= "runner error: "@ + body->0 + middle + cleanup->0);
        assert(message =~= "runner error: "@ + body->0 + (middle + cleanup->0));
        crate::locator_laws::lemma_holding_a_text(
            "runner error: "@,
            body->0,
            middle + cleanup->0,
        );
        assert(message =~= ("runner error: "@ + body->0 + middle) + cleanup->0 + seq![]);
        crate::locator_laws::lemma_holding_a_text(
            "runner error: "@ + body->0 + middle,
            cleanup->0,
            seq![],
        );
    }
}

/// The message of a test that took too long names the test and its time, and tells
/// what became of its worker.
pub proof fn lemma_timeouts_are_told(
    cleanup: crate::error::Result<()>,
    late: LateOutcome,
    name: Seq<char>,
    timeout: Duration,
)
    requires
        cleanup is Ok,
    ensures
        ({
            let message = runner::outcome_problem(
                WorkerOutcome::TimedOut { cleanup, late },
                name,
                timeout,
            );
            let start = "operation timed out after "@ + timeout.described() + ": "@ + ("test `"@
                + name + "` exceeded its timeout"@);
            let rest = match late {
                LateOutcome::Stopped(Ok(())) =>
                    "; worker stopped cooperatively after timeout cancellation"@,
                LateOutcome::Stopped(Err(error)) => "; worker stopped after cancellation: "@
                    + error.describe(),
                LateOutcome::Vanished => seq![],
                LateOutcome::Ignored =>
                    "; worker ignored cancellation; remaining tests were skipped"@,
            };
            message == Some(start + rest)
        }),
{
    let message = runner::outcome_problem(WorkerOutcome::TimedOut { cleanup, late }, name, timeout);
    let start = "operation timed out after "@ + timeout.described() + ": "@ + ("test `"@ + name
        + "` exceeded its timeout"@);
    let rest = runner::late_diagnostic(None, late);
    assert(message->0 =~= start + rest);
    assert(Seq::<char>::empty() + rest =~= rest);
}

/// Closing asks a process to end in this order: the end of its input, a request to
/// end where its number is known, and force. Closing is over as soon as the process
/// has ended and none of its group is left, and fails only behind force.
pub proof fn lemma_closing_goes_step_by_step(
    process: ProcessView,
    sample: Option<ExitView>,
    others: bool,
    has_id: bool,
)
    ensures
        ({
            let ended = (process.exit is Some || sample is Some) && !others;
            let start = process.close_started(sample, others).1;
            let behind_eof = process.close_continued(CloseStage::Eof, sample, others, has_id).1;
            let behind_term = process.close_continued(
                CloseStage::Terminate,
                sample,
                others,
                has_id,
            ).1;
            let behind_kill = process.close_continued(CloseStage::Kill, sample, others, has_id).1;
            &&& start is Done <==> process.closed || ended
            &&& !(start is Done) ==> start == CloseView::Ask(CloseStage::Eof)
            &&& ended ==> behind_eof is Done && behind_term is Done && behind_kill is Done
            &&& !ended && has_id ==> behind_eof == CloseView::Ask(CloseStage::Terminate)
            &&& !ended && !has_id ==> behind_eof == CloseView::Ask(CloseStage::Kill)
            &&& !ended ==> behind_term == CloseView::Ask(CloseStage::Kill)
            &&& !ended ==> behind_kill == CloseView::Failed(
                "process `"@ + process.command + "` did not exit after forced termination"@,
            )
        }),
{
}

/// Each step of closing is noted, and so is the end of the process, once; a process
/// is closed exactly where closing is done.
pub proof fn lemma_closing_is_noted(
    process: ProcessView,
    stage: CloseStage,
    sample: Option<ExitView>,
    others: bool,
    has_id: bool,
)
    requires
        !process.closed,
    ensures
        ({
            let (after, step) = process.close_continued(stage, sample, others, has_id);
            let (first, asked) = process.close_started(sample, others);
            let seen = if process.exit is None && sample is Some {
                process.events.push("process exited: "@ + sample->0.described())
            } else {
                process.events
            };
            let status = if process.exit is Some {
                process.exit
            } else {
                sample
            };
            &&& after.exit == status
            &&& first.exit == status
            &&& after.closed <==> step is Done
            &&& first.closed <==> asked is Done
            &&& asked is Done ==> first.events == seen
            &&& asked is Ask ==> first.events == seen.push("graceful close requested"@)
            &&& step is Done || step is Failed ==> after.events == seen
            &&& step == CloseView::Ask(CloseStage::Terminate) ==> after.events == seen.push(
                "SIGTERM sent"@,
            )
            &&& step == CloseView::Ask(CloseStage::Kill) ==> after.events == seen.push(
                "SIGKILL sent"@,
            )
            &&& after.command == process.command
            &&& after.output_drained == process.output_drained
            &&& after.shutdown_timeout == process.shutdown_timeout
        }),
{
}

/// The end of a process is told by its signal, else by its code.
pub proof fn lemma_ends_are_told(exit: ExitView)
    ensures
        exit.signal is Some ==> exit.described() == "signal "@ + exit.signal->0,
        exit.signal is None && exit.code is Some && exit.code->0 >= 0 ==> exit.described()
            == "exit code "@ + crate::text::decimal(exit.code->0 as nat),
        exit.signal is None && exit.code is Some && exit.code->0 < 0 ==> exit.described()
            == "exit code "@ + ("-"@ + crate::text::decimal((-exit.code->0) as nat)),
        exit.signal is None && exit.code is None ==> exit.described() == "unknown exit status"@,
{
}

/// Each request of closing has a third of the time that closing may take.
pub proof fn lemma_closing_shares_its_time(step: CloseStep, asked: CloseView, time: Duration)
    requires
        step.is_step(asked, time),
    ensures
        asked is Done <==> step is Done,
        asked is Failed <==> step is Failed,
        asked == CloseView::Ask(CloseStage::Eof) <==> step is Eof,
        asked == CloseView::Ask(CloseStage::Terminate) <==> step is Terminate,
        asked == CloseView::Ask(CloseStage::Kill) <==> step is Kill,
        match step {
            CloseStep::Eof(wait) => 3 * wait@ <= time@ < 3 * wait@ + 3,
            CloseStep::Terminate(wait) => 3 * wait@ <= time@ < 3 * wait@ + 3,
            CloseStep::Kill(wait) => 3 * wait@ <= time@ < 3 * wait@ + 3,
            _ => true,
        },
{
}

/// A report begins with nothing in it.
pub proof fn lemma_reports_begin_empty(reporter: report::Reporter)
    ensures
        ({
            let empty = ReportView::empty(reporter);
            &&& empty.reporter == reporter
            &&& empty.tests.len() == 0
            &&& empty.passed == 0
            &&& empty.failed == 0
            &&& empty.skipped == 0
            &&& empty.selected == 0
            &&& !empty.succeeded()
        }),
{
}

/// The message of a test that took too long tells of a cleanup that failed too.
pub proof fn lemma_late_cleanups_are_told(
    cleanup: crate::error::Result<()>,
    late: LateOutcome,
    name: Seq<char>,
    timeout: Duration,
)
    requires
        cleanup is Err,
    ensures
        ({
            let message = runner::outcome_problem(
                WorkerOutcome::TimedOut { cleanup, late },
                name,
                timeout,
            );
            &&& message is Some
            &&& locator::contains_text(message->0, cleanup->Err_0.describe())
            &&& locator::contains_text(message->0, name)
        }),
{
    let all = runner::outcome_problem(
        WorkerOutcome::TimedOut { cleanup, late },
        name,
        timeout,
    )->0;
    let why = cleanup->Err_0.describe();
    let front = "operation timed out after "@ + timeout.described() + ": "@ + "test `"@;
    let over = "` exceeded its timeout"@;
    let told = "; after cancellation: "@;
    let rest = runner::late_diagnostic(None, late);
    assert(Seq::<char>::empty() + rest =~= rest);
    assert(runner::late_diagnostic(Some(why), late) =~= told + why + rest);
    assert(all =~= front + name + (over + told + why + rest));
    crate::locator_laws::lemma_holding_a_text(front, name, over + told + why + rest);
    assert(all =~= (front + name + over + told) + why + rest);
    crate::locator_laws::lemma_holding_a_text(front + name + over + told, why, rest);
}

} // verus!
