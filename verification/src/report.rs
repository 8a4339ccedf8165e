//! What came of a run, and how it is shown.

use crate::text;
use crate::time::Duration;
use vstd::prelude::*;

verus! {

/// How a run is shown.
#[derive(Clone, Copy, Debug, PartialEq, Eq, Structural)]
pub enum Reporter {
    List,
    Dot,
}

impl Default for Reporter {
    fn default() -> (reporter: Reporter)
        ensures
            reporter == Reporter::List,
    {
        Reporter::List
    }
}

impl Reporter {
    /// The reporter with a name.
    pub fn from_str(value: &str) -> (result: std::result::Result<Reporter, String>)
        ensures
            match result {
                Ok(Reporter::List) => value@ == "list"@,
                Ok(Reporter::Dot) => value@ == "dot"@,
                Err(message) => value@ != "list"@ && value@ != "dot"@ && message@
                    == "unknown reporter `"@ + value@ + "`; expected `list` or `dot`"@,
            },
    {
        if text::same_text(value, "list") {
            Ok(Reporter::List)
        } else if text::same_text(value, "dot") {
            Ok(Reporter::Dot)
        } else {
            Err(
                "unknown reporter `".to_owned().concat(value).concat(
                    "`; expected `list` or `dot`",
                ),
            )
        }
    }
}

/// What came of a test.
#[derive(Debug, PartialEq, Eq)]
pub enum TestStatus {
    Passed,
    Failed(String),
    Skipped,
}

/// What came of a test, with the message as a sequence of characters.
#[verifier::ext_equal]
pub enum StatusView {
    Passed,
    Failed(Seq<char>),
    Skipped,
}

impl View for TestStatus {
    type V = StatusView;

    open spec fn view(&self) -> StatusView {
        match self {
            TestStatus::Passed => StatusView::Passed,
            TestStatus::Failed(message) => StatusView::Failed(message@),
            TestStatus::Skipped => StatusView::Skipped,
        }
    }
}

/// A test, what came of it, and how long it took.
#[derive(Debug, PartialEq, Eq)]
pub struct TestResult {
    pub name: String,
    pub status: TestStatus,
    pub duration: Duration,
}

/// A test, what came of it, and how long it took.
#[verifier::ext_equal]
pub struct ResultView {
    pub name: Seq<char>,
    pub status: StatusView,
    pub duration: nat,
}

impl View for TestResult {
    type V = ResultView;

    open spec fn view(&self) -> ResultView {
        ResultView { name: self.name@, status: self.status@, duration: self.duration@ }
    }
}

/// The results of a run, in the order of the tests.
#[derive(Debug, PartialEq, Eq)]
pub struct RunReport {
    pub reporter: Reporter,
    pub selected: usize,
    pub passed: usize,
    pub failed: usize,
    pub skipped: usize,
    pub tests: Vec<TestResult>,
}

/// The results of a run.
#[verifier::ext_equal]
pub struct ReportView {
    pub reporter: Reporter,
    pub selected: int,
    pub passed: int,
    pub failed: int,
    pub skipped: int,
    pub tests: Seq<ResultView>,
}

impl View for RunReport {
    type V = ReportView;

    open spec fn view(&self) -> ReportView {
        ReportView {
            reporter: self.reporter,
            selected: self.selected as int,
            passed: self.passed as int,
            failed: self.failed as int,
            skipped: self.skipped as int,
            tests: Seq::new(self.tests@.len(), |i: int| self.tests@[i]@),
        }
    }
}

/// How many of the first `count` results have a status that `chosen` accepts.
pub open spec fn count_of(
    tests: Seq<ResultView>,
    count: int,
    chosen: spec_fn(StatusView) -> bool,
) -> int
    decreases count,
{
    if count <= 0 {
        0
    } else {
        count_of(tests, count - 1, chosen) + if chosen(tests[count - 1].status) {
            1int
        } else {
            0
        }
    }
}

impl ReportView {
    /// The empty report.
    pub open spec fn empty(reporter: Reporter) -> ReportView {
        ReportView { reporter, selected: 0, passed: 0, failed: 0, skipped: 0, tests: seq![] }
    }

    /// What holds of every report: its counts are those of its results.
    pub open spec fn wf(self) -> bool {
        &&& 0 <= self.selected <= self.tests.len()
        &&& 0 <= self.passed
        &&& 0 <= self.failed
        &&& 0 <= self.skipped
        &&& self.passed + self.failed + self.skipped == self.tests.len()
        &&& self.passed == count_of(
            self.tests,
            self.tests.len() as int,
            |status: StatusView| status is Passed,
        )
        &&& self.failed == count_of(
            self.tests,
            self.tests.len() as int,
            |status: StatusView| status is Failed,
        )
    }

    /// One more result, of a test that was selected or not.
    pub open spec fn with(self, result: ResultView, selected: bool) -> ReportView {
        ReportView {
            selected: self.selected + if selected {
                1int
            } else {
                0
            },
            passed: self.passed + if result.status is Passed {
                1int
            } else {
                0
            },
            failed: self.failed + if result.status is Failed {
                1int
            } else {
                0
            },
            skipped: self.skipped + if result.status is Skipped {
                1int
            } else {
                0
            },
            tests: self.tests.push(result),
            ..self
        }
    }

    /// A run succeeds when a test was selected and none failed.
    pub open spec fn succeeded(self) -> bool {
        self.selected > 0 && self.failed == 0
    }

    /// The line of counts.
    pub open spec fn summarized(self) -> Seq<char> {
        text::decimal(self.passed as nat) + " passed, "@ + text::decimal(self.failed as nat)
            + " failed, "@ + text::decimal(self.skipped as nat) + " skipped"@
    }
}

/// The counts look only at the results they count.
proof fn lemma_count_of_front(
    tests: Seq<ResultView>,
    more: Seq<ResultView>,
    count: int,
    chosen: spec_fn(StatusView) -> bool,
)
    requires
        count <= tests.len(),
    ensures
        count_of(tests + more, count, chosen) == count_of(tests, count, chosen),
    decreases count,
{
    if count > 0 {
        lemma_count_of_front(tests, more, count - 1, chosen);
    }
}

/// Adding a result keeps the counts right.
pub proof fn lemma_with_wf(report: ReportView, result: ResultView, selected: bool)
    requires
        report.wf(),
    ensures
        report.with(result, selected).wf(),
{
    let n = report.tests.len() as int;
    let passed = |status: StatusView| status is Passed;
    let failed = |status: StatusView| status is Failed;
    assert(report.tests.push(result) =~= report.tests + seq![result]);
    lemma_count_of_front(report.tests, seq![result], n, passed);
    lemma_count_of_front(report.tests, seq![result], n, failed);
}

/// A run with a test that failed does not succeed, and a run of which nothing
/// was selected does not either.
pub proof fn lemma_success_means_no_failure(report: ReportView, i: int)
    requires
        report.wf(),
        report.succeeded(),
        0 <= i < report.tests.len(),
    ensures
        !(report.tests[i].status is Failed),
        report.selected > 0,
{
    lemma_count_is_positive(report.tests, report.tests.len() as int, i);
}

proof fn lemma_count_is_positive(tests: Seq<ResultView>, count: int, i: int)
    requires
        0 <= i < count <= tests.len(),
    ensures
        tests[i].status is Failed ==> count_of(
            tests,
            count,
            |status: StatusView| status is Failed,
        ) > 0,
    decreases count,
{
    lemma_count_is_not_negative(tests, count - 1);
    if i < count - 1 {
        lemma_count_is_positive(tests, count - 1, i);
    }
}

proof fn lemma_count_is_not_negative(tests: Seq<ResultView>, count: int)
    ensures
        count_of(tests, count, |status: StatusView| status is Failed) >= 0,
    decreases count,
{
    if count > 0 {
        lemma_count_is_not_negative(tests, count - 1);
    }
}

impl Default for RunReport {
    fn default() -> (report: RunReport)
        ensures
            report@ == ReportView::empty(Reporter::List),
            report@.wf(),
    {
        RunReport::new(Reporter::List)
    }
}

impl RunReport {
    /// A report without a result.
    pub fn new(reporter: Reporter) -> (report: RunReport)
        ensures
            report@ == ReportView::empty(reporter),
            report@.wf(),
    {
        let report = RunReport {
            reporter,
            selected: 0,
            passed: 0,
            failed: 0,
            skipped: 0,
            tests: Vec::new(),
        };
        assert(report@ =~= ReportView::empty(reporter));
        report
    }

    /// Adds a result.
    pub fn add_result(&mut self, result: TestResult, selected: bool)
        requires
            old(self)@.wf(),
            old(self)@.tests.len() < usize::MAX,
        ensures
            final(self)@ == old(self)@.with(result@, selected),
            final(self)@.wf(),
    {
        proof {
            lemma_with_wf(self@, result@, selected);
        }
        if selected {
            self.selected = self.selected + 1;
        }
        match &result.status {
            TestStatus::Passed => {
                self.passed = self.passed + 1;
            },
            TestStatus::Failed(_) => {
                self.failed = self.failed + 1;
            },
            TestStatus::Skipped => {
                self.skipped = self.skipped + 1;
            },
        }
        self.tests.push(result);
        assert(self@ =~= old(self)@.with(result@, selected));
    }

    /// Whether a test was selected and none failed.
    pub fn success(&self) -> (success: bool)
        ensures
            success == self@.succeeded(),
    {
        self.selected > 0 && self.failed == 0
    }

    /// The line of counts.
    pub fn summary(&self) -> (summary: String)
        ensures
            summary@ == self@.summarized(),
    {
        text::decimal_text(self.passed as u64).concat(" passed, ").concat(
            text::decimal_text(self.failed as u64).as_str(),
        ).concat(" failed, ").concat(text::decimal_text(self.skipped as u64).as_str()).concat(
            " skipped",
        )
    }
}

/// The first `count` characters of a message, with every further line moved to
/// the right.
pub open spec fn indented(message: Seq<char>, count: int) -> Seq<char>
    decreases count,
{
    if count <= 0 {
        seq![]
    } else if message[count - 1] == '\n' {
        indented(message, count - 1) + "\n  "@
    } else {
        indented(message, count - 1).push(message[count - 1])
    }
}

/// Moves every further line of a message to the right.
pub fn indent(message: &str) -> (text: String)
    ensures
        text@ == indented(message@, message@.len() as int),
{
    let chars = text::chars_of(message);
    let mut output = String::new();
    let mut i: usize = 0;
    while i < chars.len()
        invariant
            i <= chars.len(),
            chars@ == message@,
            output@ == indented(message@, i as int),
        decreases chars.len() - i,
    {
        if chars[i] == '\n' {
            output.append("\n  ");
        } else {
            output.push(chars[i]);
        }
        i = i + 1;
    }
    output
}

impl TestResult {
    /// The line of the result in a list.
    pub open spec fn listed(self) -> Seq<char> {
        match self.status {
            TestStatus::Passed => "PASS "@ + self.name@ + " ("@ + self.duration.described() + ")"@,
            TestStatus::Skipped => "SKIP "@ + self.name@,
            TestStatus::Failed(message) => "FAIL "@ + self.name@ + "\n  "@ + indented(
                message@,
                message@.len() as int,
            ),
        }
    }

    /// The line of the result in a list.
    pub fn list_line(&self) -> (line: String)
        ensures
            line@ == self.listed(),
    {
        match &self.status {
            TestStatus::Passed => "PASS ".to_owned().concat(self.name.as_str()).concat(
                " (",
            ).concat(self.duration.text().as_str()).concat(")"),
            TestStatus::Skipped => "SKIP ".to_owned().concat(self.name.as_str()),
            TestStatus::Failed(message) => "FAIL ".to_owned().concat(self.name.as_str()).concat(
                "\n  ",
            ).concat(indent(message.as_str()).as_str()),
        }
    }

    /// The sign of the result in a row of dots.
    pub fn dot(&self) -> (sign: char)
        ensures
            sign == match self.status {
                TestStatus::Passed => '.',
                TestStatus::Skipped => 's',
                TestStatus::Failed(_) => 'F',
            },
    {
        match &self.status {
            TestStatus::Passed => '.',
            TestStatus::Skipped => 's',
            TestStatus::Failed(_) => 'F',
        }
    }
}

/// The lines of the first `count` results.
pub open spec fn listed_lines(tests: Seq<TestResult>, count: int) -> Seq<char>
    decreases count,
{
    if count <= 0 {
        seq![]
    } else {
        listed_lines(tests, count - 1) + tests[count - 1].listed() + "\n"@
    }
}

/// The signs of the first `count` results.
pub open spec fn dots(tests: Seq<TestResult>, count: int) -> Seq<char>
    decreases count,
{
    if count <= 0 {
        seq![]
    } else {
        dots(tests, count - 1).push(
            match tests[count - 1].status {
                TestStatus::Passed => '.',
                TestStatus::Skipped => 's',
                TestStatus::Failed(_) => 'F',
            },
        )
    }
}

/// The lines of those of the first `count` results that failed.
pub open spec fn failure_lines(tests: Seq<TestResult>, count: int) -> Seq<char>
    decreases count,
{
    if count <= 0 {
        seq![]
    } else if tests[count - 1].status is Failed {
        failure_lines(tests, count - 1) + tests[count - 1].listed() + "\n"@
    } else {
        failure_lines(tests, count - 1)
    }
}

impl RunReport {
    /// What the list reporter prints: a line for each result, and the counts.
    pub fn list_output(&self) -> (output: String)
        ensures
            output@ == listed_lines(self.tests@, self.tests@.len() as int) + self@.summarized()
                + "\n"@,
    {
        let mut output = String::new();
        let mut i: usize = 0;
        while i < self.tests.len()
            invariant
                i <= self.tests.len(),
                output@ == listed_lines(self.tests@, i as int),
            decreases self.tests.len() - i,
        {
            output.append(self.tests[i].list_line().as_str());
            output.append("\n");
            i = i + 1;
        }
        output.append(self.summary().as_str());
        output.append("\n");
        output
    }

    /// What the dot reporter prints to the standard output: a sign for each
    /// result.
    pub fn dot_output(&self) -> (output: String)
        ensures
            output@ == dots(self.tests@, self.tests@.len() as int) + "\n"@,
    {
        let mut output = String::new();
        let mut i: usize = 0;
        while i < self.tests.len()
            invariant
                i <= self.tests.len(),
                output@ == dots(self.tests@, i as int),
            decreases self.tests.len() - i,
        {
            output.push(self.tests[i].dot());
            i = i + 1;
        }
        output.append("\n");
        output
    }

    /// What the dot reporter prints to the error output: the failures, and the
    /// counts.
    pub fn dot_diagnostics(&self) -> (output: String)
        ensures
            output@ == failure_lines(self.tests@, self.tests@.len() as int)
                + self@.summarized() + "\n"@,
    {
        let mut output = String::new();
        let mut i: usize = 0;
        while i < self.tests.len()
            invariant
                i <= self.tests.len(),
                output@ == failure_lines(self.tests@, i as int),
            decreases self.tests.len() - i,
        {
            if let TestStatus::Failed(_) = &self.tests[i].status {
                output.append(self.tests[i].list_line().as_str());
                output.append("\n");
            }
            i = i + 1;
        }
        output.append(self.summary().as_str());
        output.append("\n");
        output
    }

    /// The exit code of the program after a run.
    pub fn exit_code(&self) -> (code: u8)
        ensures
            code == if self@.succeeded() {
                0u8
            } else {
                1u8
            },
    {
        if self.success() {
            0
        } else {
            1
        }
    }
}

} // verus!
