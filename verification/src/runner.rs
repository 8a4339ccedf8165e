//! Running tests one after the other.

use crate::error::{validate_timeout, Error, Result};
use crate::locator;
use crate::report;
use crate::report::{
    ReportView, Reporter, ResultView, RunReport, StatusView, TestResult, TestStatus,
};
use crate::snapshot::SnapshotOptions;
use crate::text;
use crate::time;
use crate::time::Duration;
use vstd::prelude::*;

verus! {

/// A test that is to be run. What it does is kept by the caller.
#[derive(Debug)]
pub struct TestCase {
    name: String,
    group: Option<String>,
    skip: bool,
    focus: bool,
    timeout: Option<Duration>,
}

/// A test that is to be run.
#[verifier::ext_equal]
pub struct CaseView {
    pub name: Seq<char>,
    pub group: Option<Seq<char>>,
    pub skip: bool,
    pub focus: bool,
    pub timeout: Option<Duration>,
}

impl View for TestCase {
    type V = CaseView;

    closed spec fn view(&self) -> CaseView {
        CaseView {
            name: self.name@,
            group: match self.group {
                Some(group) => Some(group@),
                None => None,
            },
            skip: self.skip,
            focus: self.focus,
            timeout: self.timeout,
        }
    }
}

impl CaseView {
    /// The name of the test behind that of its group.
    pub open spec fn full_name(self) -> Seq<char> {
        match self.group {
            Some(group) => group + " › "@ + self.name,
            None => self.name,
        }
    }
}

impl TestCase {
    pub fn new(name: &str) -> (test: TestCase)
        ensures
            test@ == (CaseView {
                name: name@,
                group: None,
                skip: false,
                focus: false,
                timeout: None,
            }),
    {
        TestCase {
            name: name.to_owned(),
            group: None,
            skip: false,
            focus: false,
            timeout: None,
        }
    }

    /// Puts the test into a group.
    pub fn describe(self, group: &str) -> (test: TestCase)
        ensures
            test@ == (CaseView { group: Some(group@), ..self@ }),
    {
        TestCase { group: Some(group.to_owned()), ..self }
    }

    /// Leaves the test out.
    pub fn skip(self) -> (test: TestCase)
        ensures
            test@ == (CaseView { skip: true, ..self@ }),
    {
        TestCase { skip: true, ..self }
    }

    /// Runs the test, and of the others only those with a focus too.
    pub fn focus(self) -> (test: TestCase)
        ensures
            test@ == (CaseView { focus: true, ..self@ }),
    {
        TestCase { focus: true, ..self }
    }

    /// Gives the test a timeout of its own.
    pub fn timeout(self, timeout: Duration) -> (test: TestCase)
        ensures
            test@ == (CaseView { timeout: Some(timeout), ..self@ }),
    {
        TestCase { timeout: Some(timeout), ..self }
    }

    /// The name of the test behind that of its group.
    pub fn full_name(&self) -> (name: String)
        ensures
            name@ == self@.full_name(),
    {
        match &self.group {
            Some(group) => group.clone().concat(" › ").concat(self.name.as_str()),
            None => self.name.clone(),
        }
    }
}

/// How long a worker has to stop after it was told to, in milliseconds.
pub const CANCELLATION_GRACE_MS: u64 = 100;

/// What a worker did after its time was over and it was told to stop.
#[derive(Debug)]
pub enum LateOutcome {
    /// It stopped, with the result of the test.
    Stopped(Result<()>),
    /// It went away without a result.
    Vanished,
    /// It did not stop.
    Ignored,
}

/// What came of the worker of a test. Sessions are closed in every case; what
/// came of that goes with it.
#[derive(Debug)]
pub enum WorkerOutcome {
    /// The test ended in time.
    Finished { body: Result<()>, cleanup: Result<()> },
    /// The test did not end in time.
    TimedOut { cleanup: Result<()>, late: LateOutcome },
    /// The worker went away without a result.
    Vanished { cleanup: Result<()> },
    /// There was no worker.
    NotStarted(String),
}

/// The error of a test whose body panicked.
pub fn panic_error(message: Option<&str>) -> (error: Error)
    ensures
        error matches Error::Runner(text) && text@ == "test body panicked: "@ + match message {
            Some(message) => message@,
            None => "unknown panic payload"@,
        },
{
    let message: &str = match message {
        Some(message) => message,
        None => "unknown panic payload",
    };
    Error::Runner("test body panicked: ".to_owned().concat(message))
}

/// The message of a result, if it is an error.
pub open spec fn problem(result: Result<()>) -> Option<Seq<char>> {
    match result {
        Ok(()) => None,
        Err(error) => Some(error.describe()),
    }
}

/// The message of a test and its cleanup together.
pub open spec fn combined(body: Option<Seq<char>>, cleanup: Option<Seq<char>>) -> Option<
    Seq<char>,
> {
    match (body, cleanup) {
        (None, cleanup) => cleanup,
        (Some(body), None) => Some(body),
        (Some(body), Some(cleanup)) => Some(
            "runner error: "@ + (body + "; cleanup also failed: "@ + cleanup),
        ),
    }
}

/// Puts the results of a test and of its cleanup together. An error of the test
/// is never lost.
pub fn combine_test_and_cleanup(body: Result<()>, cleanup: Result<()>) -> (result: Result<()>)
    ensures
        problem(result) == combined(problem(body), problem(cleanup)),
        match (body, cleanup) {
            (Ok(()), _) => result == cleanup,
            (Err(_), Ok(())) => result == body,
            (Err(first), Err(second)) => result matches Err(Error::Runner(message)) && message@
                == first.describe() + "; cleanup also failed: "@ + second.describe(),
        },
{
    match (body, cleanup) {
        (Ok(()), cleanup) => cleanup,
        (Err(body), Ok(())) => Err(body),
        (Err(body), Err(cleanup)) => Err(
            Error::Runner(
                body.message().concat("; cleanup also failed: ").concat(
                    cleanup.message().as_str(),
                ),
            ),
        ),
    }
}

/// The first error of some results, in their order.
pub fn first_error(results: Vec<Result<()>>) -> (result: Result<()>)
    ensures
        match result {
            Ok(()) => forall|i: int| 0 <= i < results@.len() ==> #[trigger] results@[i] is Ok,
            Err(error) => exists|i: int|
                {
                    &&& 0 <= i < results@.len()
                    &&& #[trigger] results@[i] == Err::<(), Error>(error)
                    &&& forall|k: int| 0 <= k < i ==> #[trigger] results@[k] is Ok
                },
        },
{
    let mut results = results;
    let ghost all = results@;
    let mut first: Option<Error> = None;
    let ghost mut at: int = 0;
    while results.len() > 0
        invariant
            results@.len() <= all.len(),
            results@ == all.take(results@.len() as int),
            match first {
                None => forall|k: int| results@.len() <= k < all.len() ==> #[trigger] all[k] is Ok,
                Some(error) => {
                    &&& results@.len() <= at < all.len()
                    &&& all[at] == Err::<(), Error>(error)
                    &&& forall|k: int| results@.len() <= k < at ==> #[trigger] all[k] is Ok
                },
            },
        decreases results.len(),
    {
        let ghost n = results@.len() - 1;
        assert(results@.last() == all[n]);
        match results.pop() {
            Some(Err(error)) => {
                first = Some(error);
                proof {
                    at = n;
                }
            },
            _ => {},
        }
        assert(results@ =~= all.take(n));
    }
    match first {
        Some(error) => {
            assert(all[at] == Err::<(), Error>(error));
            Err(error)
        },
        None => Ok(()),
    }
}

/// What the message of a timeout says of the cleanup and of the worker.
pub open spec fn late_diagnostic(cleanup: Option<Seq<char>>, late: LateOutcome) -> Seq<char> {
    (match cleanup {
        Some(message) => "; after cancellation: "@ + message,
        None => seq![],
    }) + match late {
        LateOutcome::Stopped(Ok(())) => "; worker stopped cooperatively after timeout cancellation"@,
        LateOutcome::Stopped(Err(error)) => "; worker stopped after cancellation: "@
            + error.describe(),
        LateOutcome::Vanished => seq![],
        LateOutcome::Ignored => "; worker ignored cancellation; remaining tests were skipped"@,
    }
}

/// The message of a test that failed, or `None` for one that passed.
pub open spec fn outcome_problem(
    outcome: WorkerOutcome,
    name: Seq<char>,
    timeout: Duration,
) -> Option<Seq<char>> {
    match outcome {
        WorkerOutcome::Finished { body, cleanup } => combined(problem(body), problem(cleanup)),
        WorkerOutcome::TimedOut { cleanup, late } => Some(
            "operation timed out after "@ + timeout.described() + ": "@ + ("test `"@ + name
                + "` exceeded its timeout"@ + late_diagnostic(problem(cleanup), late)),
        ),
        WorkerOutcome::Vanished { cleanup } => combined(
            Some("runner error: "@ + ("worker for test `"@ + name + "` stopped unexpectedly"@)),
            problem(cleanup),
        ),
        WorkerOutcome::NotStarted(reason) => Some(
            "runner error: "@ + ("could not start worker for test `"@ + name + "`: "@ + reason@),
        ),
    }
}

/// Whether the tests behind this one can still be run: not beside a worker that
/// did not stop.
pub open spec fn can_continue(outcome: WorkerOutcome) -> bool {
    !(outcome matches WorkerOutcome::TimedOut { late, .. } && late is Ignored)
}

/// The status of a test, from what came of its worker.
fn outcome_status(outcome: WorkerOutcome, name: &str, timeout: Duration) -> (status: (
    TestStatus,
    bool,
))
    ensures
        status.0@ == match outcome_problem(outcome, name@, timeout) {
            Some(message) => StatusView::Failed(message),
            None => StatusView::Passed,
        },
        status.1 == can_continue(outcome),
{
    let mut goes_on = true;
    let result: Result<()> = match outcome {
        WorkerOutcome::Finished { body, cleanup } => combine_test_and_cleanup(body, cleanup),
        WorkerOutcome::TimedOut { cleanup, late } => {
            let mut diagnostic = String::new();
            let ghost cleanup_problem = problem(cleanup);
            if let Err(error) = cleanup {
                diagnostic = "; after cancellation: ".to_owned().concat(error.message().as_str());
            }
            let ghost before = diagnostic@;
            assert(before =~= match cleanup_problem {
                Some(message) => "; after cancellation: "@ + message,
                None => seq![],
            });
            match &late {
                LateOutcome::Stopped(Ok(())) => diagnostic.append(
                    "; worker stopped cooperatively after timeout cancellation",
                ),
                LateOutcome::Stopped(Err(error)) => diagnostic.append(
                    "; worker stopped after cancellation: ".to_owned().concat(
                        error.message().as_str(),
                    ).as_str(),
                ),
                LateOutcome::Vanished => {
                    assert(before =~= before + seq![]);
                },
                LateOutcome::Ignored => {
                    diagnostic.append(
                        "; worker ignored cancellation; remaining tests were skipped",
                    );
                    goes_on = false;
                },
            }
            assert(diagnostic@ == late_diagnostic(cleanup_problem, late));
            Err(
                Error::Timeout {
                    timeout,
                    context: "test `".to_owned().concat(name).concat(
                        "` exceeded its timeout",
                    ).concat(diagnostic.as_str()),
                },
            )
        },
        WorkerOutcome::Vanished { cleanup } => combine_test_and_cleanup(
            Err(
                Error::Runner(
                    "worker for test `".to_owned().concat(name).concat("` stopped unexpectedly"),
                ),
            ),
            cleanup,
        ),
        WorkerOutcome::NotStarted(reason) => Err(
            Error::Runner(
                "could not start worker for test `".to_owned().concat(name).concat(
                    "`: ",
                ).concat(reason.as_str()),
            ),
        ),
    };
    match result {
        Ok(()) => (TestStatus::Passed, goes_on),
        Err(error) => (TestStatus::Failed(error.message()), goes_on),
    }
}

/// Tests that are to be run, in their order.
#[derive(Debug)]
pub struct Runner {
    tests: Vec<TestCase>,
    timeout: Duration,
    update_snapshots: bool,
}

/// Tests that are to be run, the timeout of those without one of their own, and
/// whether snapshots are to be updated.
#[verifier::ext_equal]
pub struct RunnerView {
    pub tests: Seq<CaseView>,
    pub timeout: Duration,
    pub update_snapshots: bool,
}

/// The views of some tests.
pub open spec fn case_views(tests: Seq<TestCase>) -> Seq<CaseView> {
    Seq::new(tests.len(), |i: int| tests[i]@)
}

impl View for Runner {
    type V = RunnerView;

    closed spec fn view(&self) -> RunnerView {
        RunnerView {
            tests: case_views(self.tests@),
            timeout: self.timeout,
            update_snapshots: self.update_snapshots,
        }
    }
}

impl Runner {
    pub fn new(timeout: Duration) -> (runner: Runner)
        ensures
            runner@ == (RunnerView { tests: seq![], timeout, update_snapshots: false }),
    {
        let runner = Runner { tests: Vec::new(), timeout, update_snapshots: false };
        assert(runner@.tests =~= seq![]);
        runner
    }

    /// Sets whether snapshots are to be updated.
    pub fn update_snapshots(self, update: bool) -> (runner: Runner)
        ensures
            runner@ == (RunnerView { update_snapshots: update, ..self@ }),
    {
        Runner { update_snapshots: update, ..self }
    }

    /// Adds a test behind the others.
    pub fn register(&mut self, test: TestCase)
        ensures
            final(self)@ == (RunnerView { tests: old(self)@.tests.push(test@), ..old(self)@ }),
    {
        self.tests.push(test);
        assert(self@.tests =~= old(self)@.tests.push(test@));
    }

    /// Starts a run of the tests whose full names hold the given text.
    pub fn run(self, grep: Option<&str>) -> (run: Run)
        ensures
            run.wf(),
            run@ == (RunView {
                tests: self@.tests,
                timeout: self@.timeout,
                update_snapshots: self@.update_snapshots,
                grep: match grep {
                    Some(grep) => Some(grep@),
                    None => None,
                },
                position: 0,
                stopped: false,
                report: ReportView::empty(Reporter::List),
            }),
    {
        let mut focused = false;
        let ghost cases = case_views(self.tests@);
        let mut i: usize = 0;
        while i < self.tests.len()
            invariant
                i <= self.tests.len(),
                cases == case_views(self.tests@),
                focused == exists|k: int| 0 <= k < i && #[trigger] cases[k].focus,
            decreases self.tests.len() - i,
        {
            assert(cases[i as int] == self.tests@[i as int]@);
            if self.tests[i].focus {
                focused = true;
                assert(cases[i as int].focus);
            }
            i = i + 1;
        }
        Run {
            tests: self.tests,
            timeout: self.timeout,
            update_snapshots: self.update_snapshots,
            grep: match grep {
                Some(grep) => Some(grep.to_owned()),
                None => None,
            },
            focused,
            position: 0,
            stopped: false,
            report: RunReport::new(Reporter::List),
        }
    }
}

/// A run of tests, and how far it has come.
#[derive(Debug)]
pub struct Run {
    tests: Vec<TestCase>,
    timeout: Duration,
    update_snapshots: bool,
    grep: Option<String>,
    focused: bool,
    position: usize,
    stopped: bool,
    report: RunReport,
}

/// A run of tests: the test that comes next, whether the rest is to be skipped,
/// and the results so far.
#[verifier::ext_equal]
pub struct RunView {
    pub tests: Seq<CaseView>,
    pub timeout: Duration,
    pub update_snapshots: bool,
    pub grep: Option<Seq<char>>,
    pub position: int,
    pub stopped: bool,
    pub report: ReportView,
}

impl View for Run {
    type V = RunView;

    closed spec fn view(&self) -> RunView {
        RunView {
            tests: case_views(self.tests@),
            timeout: self.timeout,
            update_snapshots: self.update_snapshots,
            grep: match self.grep {
                Some(grep) => Some(grep@),
                None => None,
            },
            position: self.position as int,
            stopped: self.stopped,
            report: self.report@,
        }
    }
}

impl RunView {
    /// How many of the first `count` tests were asked for.
    pub open spec fn selected_among(self, count: int) -> int
        decreases count,
    {
        if count <= 0 {
            0
        } else {
            self.selected_among(count - 1) + if self.selected(count - 1) {
                1int
            } else {
                0
            }
        }
    }

    /// What holds of every run: there is one result for each test so far, under
    /// its name, and those that were asked for are counted.
    pub open spec fn wf(self) -> bool {
        &&& 0 <= self.position <= self.tests.len()
        &&& self.report.wf()
        &&& self.report.tests.len() == self.position
        &&& self.report.selected == self.selected_among(self.position)
        &&& forall|i: int|
            0 <= i < self.position ==> (#[trigger] self.report.tests[i]).name
                == self.tests[i].full_name()
    }

    /// Whether a test has the focus.
    pub open spec fn focused(self) -> bool {
        exists|i: int| 0 <= i < self.tests.len() && #[trigger] self.tests[i].focus
    }

    /// Whether a test is one of those that were asked for.
    pub open spec fn selected(self, i: int) -> bool {
        &&& self.grep matches Some(grep) ==> locator::contains_text(
            self.tests[i].full_name(),
            grep,
        )
        &&& self.focused() ==> self.tests[i].focus
    }

    /// Whether a test is left out.
    pub open spec fn left_out(self, i: int) -> bool {
        self.stopped || self.tests[i].skip || !self.selected(i)
    }

    /// The timeout of a test.
    pub open spec fn limit(self, i: int) -> Duration {
        match self.tests[i].timeout {
            Some(timeout) => timeout,
            None => self.timeout,
        }
    }

    /// Whether the next test is one to start.
    pub open spec fn is_ready(self) -> bool {
        &&& self.position < self.tests.len()
        &&& !self.left_out(self.position)
        &&& time::is_timeout(self.limit(self.position))
    }

    /// The next test has the given status.
    pub open spec fn with(self, status: StatusView, duration: nat) -> RunView {
        RunView {
            position: self.position + 1,
            report: self.report.with(
                ResultView { name: self.tests[self.position].full_name(), status, duration },
                self.selected(self.position),
            ),
            ..self
        }
    }

    /// The status of a next test that is not started.
    pub open spec fn idle_status(self) -> StatusView {
        if self.left_out(self.position) {
            StatusView::Skipped
        } else {
            StatusView::Failed((Error::InvalidTimeout { field: "timeout" }).describe())
        }
    }

    /// The run has gone on to the next test to start, or to its end. Tests that
    /// are left out are skipped, and those with a bad timeout fail.
    pub open spec fn settled(self) -> RunView
        decreases self.tests.len() - self.position,
    {
        if self.position >= self.tests.len() || self.is_ready() {
            self
        } else {
            self.with(self.idle_status(), 0).settled()
        }
    }

    /// The worker of the next test has come to an end.
    pub open spec fn recorded(self, outcome: WorkerOutcome, duration: nat) -> RunView {
        let limit = self.limit(self.position);
        let name = self.tests[self.position].full_name();
        let status = match outcome_problem(outcome, name, limit) {
            Some(message) => StatusView::Failed(message),
            None => StatusView::Passed,
        };
        RunView { stopped: !can_continue(outcome), ..self.with(status, duration) }
    }
}

/// A test that has to be started.
#[derive(Debug)]
pub struct Assignment {
    pub index: usize,
    pub timeout: Duration,
}

impl Run {
    /// What holds of every run.
    pub closed spec fn wf(self) -> bool {
        self@.wf() && self.focused == self@.focused()
    }

    /// Goes on to the next test that has to be started.
    pub fn next(&mut self) -> (assignment: Option<Assignment>)
        requires
            old(self).wf(),
        ensures
            final(self).wf(),
            final(self)@ == old(self)@.settled(),
            match assignment {
                Some(assignment) => {
                    &&& final(self)@.is_ready()
                    &&& assignment.index == final(self)@.position
                    &&& assignment.timeout == final(self)@.limit(final(self)@.position)
                },
                None => final(self)@.position == final(self)@.tests.len(),
            },
    {
        while self.position < self.tests.len()
            invariant
                self.wf(),
                self@.settled() == old(self)@.settled(),
            decreases self.tests.len() - self.position,
        {
            let i: usize = self.position;
            let ghost before = *self;
            assert(self@.tests[i as int] == self.tests@[i as int]@);
            let name = self.tests[i].full_name();
            let filtered = match &self.grep {
                Some(grep) => !locator::contains(name.as_str(), grep.as_str()),
                None => false,
            };
            let selected = !filtered && (!self.focused || self.tests[i].focus);
            assert(selected == self@.selected(i as int));
            let timeout = match self.tests[i].timeout {
                Some(timeout) => timeout,
                None => self.timeout,
            };
            assert(timeout == self@.limit(i as int));
            let status = if self.stopped || self.tests[i].skip || !selected {
                TestStatus::Skipped
            } else {
                match validate_timeout(timeout, "timeout") {
                    Ok(()) => {
                        return Some(Assignment { index: i, timeout });
                    },
                    Err(error) => TestStatus::Failed(error.message()),
                }
            };
            assert(!self@.is_ready());
            assert(status@ == self@.idle_status());
            let duration = Duration::from_secs(0);
            self.finish_test(name, status, duration, selected);
            assert(self@ == before@.with(before@.idle_status(), 0));
        }
        None
    }

    /// Adds the result of the next test.
    fn finish_test(
        &mut self,
        name: String,
        status: TestStatus,
        duration: Duration,
        selected: bool,
    )
        requires
            old(self).wf(),
            old(self)@.position < old(self)@.tests.len(),
            name@ == old(self)@.tests[old(self)@.position].full_name(),
            selected == old(self)@.selected(old(self)@.position),
        ensures
            final(self).wf(),
            final(self)@ == old(self)@.with(status@, duration@),
    {
        let ghost before = self@;
        assert(self.tests.len() == self@.tests.len());
        let result = TestResult { name, status, duration };
        self.report.add_result(result, selected);
        self.position = self.position + 1;
        proof {
            let after = before.with(status@, duration@);
            assert(self@ =~= after);
            lemma_with_wf(before, status@, duration@);
        }
    }

    /// Takes note of what came of the test that was started last, and how long
    /// it took.
    pub fn record(&mut self, outcome: WorkerOutcome, duration: Duration)
        requires
            old(self).wf(),
            old(self)@.is_ready(),
        ensures
            final(self).wf(),
            final(self)@ == old(self)@.recorded(outcome, duration@),
    {
        let i: usize = self.position;
        assert(self@.tests[i as int] == self.tests@[i as int]@);
        let name = self.tests[i].full_name();
        let timeout = match self.tests[i].timeout {
            Some(timeout) => timeout,
            None => self.timeout,
        };
        let (status, goes_on) = outcome_status(outcome, name.as_str(), timeout);
        self.finish_test(name, status, duration, true);
        let ghost before = self@;
        self.stopped = !goes_on;
        assert(self@ =~= (RunView { stopped: !goes_on, ..before }));
        proof {
            assert(self@.focused() == before.focused());
            lemma_selected_alike(before, self@, before.position);
        }
    }

    /// The full name of the test that was started last.
    pub fn current_name(&self) -> (name: String)
        requires
            self.wf(),
            self@.is_ready(),
        ensures
            name@ == self@.tests[self@.position].full_name(),
    {
        assert(self@.tests[self.position as int] == self.tests@[self.position as int]@);
        self.tests[self.position].full_name()
    }

    /// Whether snapshots are to be updated.
    pub fn updates_snapshots(&self) -> (update: bool)
        ensures
            update == self@.update_snapshots,
    {
        self.update_snapshots
    }

    /// The results, under the given reporter.
    pub fn report(self, reporter: Reporter) -> (report: RunReport)
        requires
            self.wf(),
        ensures
            report@ == (ReportView { reporter, ..self@.report }),
            report@.wf(),
    {
        RunReport { reporter, ..self.report }
    }
}

/// Going on keeps a run well formed, and ends at a test to start or at the end.
pub proof fn lemma_settled(run: RunView)
    requires
        run.wf(),
    ensures
        run.settled().wf(),
        run.settled().tests == run.tests,
        run.settled().position == run.tests.len() || run.settled().is_ready(),
        run.settled().position >= run.position,
    decreases run.tests.len() - run.position,
{
    if run.position < run.tests.len() && !run.is_ready() {
        let next = run.with(run.idle_status(), 0);
        lemma_with_wf(run, run.idle_status(), 0);
        lemma_settled(next);
    }
}

proof fn lemma_with_wf(run: RunView, status: StatusView, duration: nat)
    requires
        run.wf(),
        run.position < run.tests.len(),
    ensures
        run.with(status, duration).wf(),
{
    let result = ResultView { name: run.tests[run.position].full_name(), status, duration };
    report::lemma_with_wf(run.report, result, run.selected(run.position));
    let after = run.with(status, duration);
    assert forall|i: int| 0 <= i < after.position implies (#[trigger] after.report.tests[i]).name
        == after.tests[i].full_name() by {
        if i < run.position {
            assert(after.report.tests[i] == run.report.tests[i]);
        }
    }
    lemma_selected_alike(run, after, after.position);
}

/// What was asked for depends on the tests and on the text to look for alone.
proof fn lemma_selected_alike(left: RunView, right: RunView, count: int)
    requires
        left.tests == right.tests,
        left.grep == right.grep,
    ensures
        left.selected_among(count) == right.selected_among(count),
    decreases count,
{
    if count > 0 {
        lemma_selected_alike(left, right, count - 1);
        assert(left.focused() == right.focused());
        assert(left.selected(count - 1) == right.selected(count - 1));
    }
}

/// When a run has come to its end, every test has one result, in the order of
/// the tests and under its name, the counts add up, and the tests that were asked
/// for are counted.
pub proof fn lemma_finished_run_is_complete(run: RunView)
    requires
        run.wf(),
        run.position == run.tests.len(),
    ensures
        run.report.tests.len() == run.tests.len(),
        run.report.passed + run.report.failed + run.report.skipped == run.tests.len(),
        run.report.selected == run.selected_among(run.tests.len() as int),
        forall|i: int|
            0 <= i < run.tests.len() ==> (#[trigger] run.report.tests[i]).name
                == run.tests[i].full_name(),
{
}

/// Behind a worker that does not stop, no test is started: all that are left are
/// skipped.
pub proof fn lemma_stopped_run_skips_the_rest(run: RunView)
    requires
        run.wf(),
        run.stopped,
    ensures
        run.settled().position == run.tests.len(),
        run.settled().report.skipped == run.report.skipped + (run.tests.len() - run.position),
        run.settled().report.passed == run.report.passed,
        run.settled().report.failed == run.report.failed,
    decreases run.tests.len() - run.position,
{
    if run.position < run.tests.len() {
        lemma_with_wf(run, run.idle_status(), 0);
        lemma_stopped_run_skips_the_rest(run.with(run.idle_status(), 0));
    }
}

impl RunView {
    /// The run has come to its end, where the worker of test `i` comes to the
    /// end `outcomes(i)` after `durations(i)` nanoseconds.
    pub open spec fn finished(
        self,
        outcomes: spec_fn(int) -> WorkerOutcome,
        durations: spec_fn(int) -> nat,
    ) -> RunView
        decreases self.tests.len() - self.position,
    {
        if self.position >= self.tests.len() {
            self
        } else if self.is_ready() {
            self.recorded(outcomes(self.position), durations(self.position)).finished(
                outcomes,
                durations,
            )
        } else {
            self.with(self.idle_status(), 0).finished(outcomes, durations)
        }
    }

    /// The status of test `i` in a run that is not stopped.
    pub open spec fn status_of(self, i: int, outcome: WorkerOutcome) -> StatusView {
        if self.tests[i].skip || !self.selected(i) {
            StatusView::Skipped
        } else if !time::is_timeout(self.limit(i)) {
            StatusView::Failed((Error::InvalidTimeout { field: "timeout" }).describe())
        } else {
            match outcome_problem(outcome, self.tests[i].full_name(), self.limit(i)) {
                Some(message) => StatusView::Failed(message),
                None => StatusView::Passed,
            }
        }
    }
}

/// Going on to the next test is a part of coming to the end.
pub proof fn lemma_settled_finishes_alike(
    run: RunView,
    outcomes: spec_fn(int) -> WorkerOutcome,
    durations: spec_fn(int) -> nat,
)
    ensures
        run.settled().finished(outcomes, durations) == run.finished(outcomes, durations),
    decreases run.tests.len() - run.position,
{
    if run.position < run.tests.len() && !run.is_ready() {
        lemma_settled_finishes_alike(run.with(run.idle_status(), 0), outcomes, durations);
    }
}

/// Where every worker stops in time or when it is told to, each test has the
/// status that comes from its own worker, whatever came of the others. A run
/// always comes to its end, with one result for each test.
pub proof fn lemma_results_are_independent(
    run: RunView,
    outcomes: spec_fn(int) -> WorkerOutcome,
    durations: spec_fn(int) -> nat,
    i: int,
)
    requires
        run.wf(),
        !run.stopped,
        run.position <= i < run.tests.len(),
        forall|k: int| run.position <= k < run.tests.len() ==> can_continue(#[trigger] outcomes(k)),
    ensures
        run.finished(outcomes, durations).wf(),
        run.finished(outcomes, durations).position == run.tests.len(),
        run.finished(outcomes, durations).report.tests[i].status == run.status_of(i, outcomes(i)),
    decreases run.tests.len() - run.position,
{
    let at = run.position;
    let next = if run.is_ready() {
        run.recorded(outcomes(at), durations(at))
    } else {
        run.with(run.idle_status(), 0)
    };
    assert(can_continue(outcomes(at)));
    if run.is_ready() {
        lemma_with_wf(run, run.status_of(at, outcomes(at)), durations(at));
        assert(next.report == run.with(run.status_of(at, outcomes(at)), durations(at)).report);
    } else {
        lemma_with_wf(run, run.idle_status(), 0);
    }
    assert(next.focused() == run.focused());
    assert(next.wf());
    assert(next.report.tests[at].status == run.status_of(at, outcomes(at)));
    if at == i {
        lemma_results_stay(next, outcomes, durations, i);
    } else {
        lemma_results_are_independent(next, outcomes, durations, i);
    }
}

/// A result that is there does not change any more.
pub proof fn lemma_results_stay(
    run: RunView,
    outcomes: spec_fn(int) -> WorkerOutcome,
    durations: spec_fn(int) -> nat,
    i: int,
)
    requires
        run.wf(),
        0 <= i < run.position,
    ensures
        run.finished(outcomes, durations).wf(),
        run.finished(outcomes, durations).position == run.tests.len(),
        run.finished(outcomes, durations).report.tests[i] == run.report.tests[i],
    decreases run.tests.len() - run.position,
{
    if run.position < run.tests.len() {
        let at = run.position;
        if run.is_ready() {
            let next = run.recorded(outcomes(at), durations(at));
            lemma_with_wf(run, next.report.tests[at].status, durations(at));
            lemma_selected_alike(run, next, next.position);
            lemma_results_stay(next, outcomes, durations, i);
        } else {
            let next = run.with(run.idle_status(), 0);
            lemma_with_wf(run, run.idle_status(), 0);
            lemma_results_stay(next, outcomes, durations, i);
        }
    }
}

/// Where a test has the focus, no other test without it is started.
pub proof fn lemma_focus_excludes(run: RunView)
    requires
        run.focused(),
        run.is_ready(),
    ensures
        run.tests[run.position].focus,
        !run.tests[run.position].skip,
{
}

/// What a running test knows of its run.
#[derive(Clone, Copy, Debug, PartialEq, Eq, Structural)]
pub struct TestContext {
    pub cancelled: bool,
    pub update_snapshots: bool,
}

impl TestContext {
    /// Whether the test was told to stop because its time is over.
    pub fn is_cancelled(&self) -> (cancelled: bool)
        ensures
            cancelled == self.cancelled,
    {
        self.cancelled
    }

    /// How the test takes its snapshots.
    pub fn snapshot_options(&self, preserve_width: bool) -> (options: SnapshotOptions)
        ensures
            options == (SnapshotOptions { update: self.update_snapshots, preserve_width }),
    {
        SnapshotOptions { update: self.update_snapshots, preserve_width }
    }

    /// Refuses to start a session in a test that was told to stop; to be asked
    /// before the session is started and again when it was, where `started` is
    /// true.
    pub fn tui(&self, started: bool) -> (result: Result<()>)
        ensures
            match result {
                Ok(()) => !self.cancelled,
                Err(error) => {
                    &&& self.cancelled
                    &&& error matches Error::Runner(message) && message@ == if started {
                        "test was cancelled while launching a TUI session"@
                    } else {
                        "test was cancelled before launching a new TUI session"@
                    }
                },
            },
    {
        if !self.cancelled {
            Ok(())
        } else if started {
            Err(Error::Runner("test was cancelled while launching a TUI session".to_owned()))
        } else {
            Err(Error::Runner("test was cancelled before launching a new TUI session".to_owned()))
        }
    }
}

} // verus!
