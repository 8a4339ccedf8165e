//! Running configured tests: which are run, for how long, and the steps of each.

use crate::config;
use crate::config::{Config, ConfiguredTest, MAX_TIMEOUT_MS};
use crate::error::{validate_timeout, Error, Result};
use crate::process::{ExitView, ProcessState};
use crate::report::{ReportView, Reporter, ResultView, RunReport, StatusView, TestResult, TestStatus};
use crate::runner::{CaseView, Run, Runner, TestCase};
use crate::session::LaunchOptions;
use crate::text;
use crate::time;
use crate::time::Duration;
use vstd::prelude::*;
use vstd::utf8::encode_utf8;

verus! {

/// What the caller of a run asks for on top of the configuration.
#[derive(Debug)]
pub struct RunOptions {
    pub grep: Option<String>,
    pub timeout: Option<Duration>,
    pub reporter: Option<Reporter>,
    pub update_snapshots: bool,
}

impl Default for RunOptions {
    fn default() -> (options: RunOptions)
        ensures
            options == (RunOptions {
                grep: None,
                timeout: None,
                reporter: None,
                update_snapshots: false,
            }),
    {
        RunOptions { grep: None, timeout: None, reporter: None, update_snapshots: false }
    }
}

/// The number that a text stands for, with or without a plus sign.
pub open spec fn unsigned_value(value: Seq<char>) -> Option<nat> {
    if value.len() > 0 && value[0] == '+' {
        text::decimal_value(value.skip(1))
    } else {
        text::decimal_value(value)
    }
}

/// Reads a timeout in milliseconds.
pub fn parse_positive_timeout(value: &str) -> (result: std::result::Result<u64, String>)
    ensures
        ({
            let number = unsigned_value(value@);
            match result {
                Ok(timeout) => number == Some(timeout as nat) && config::is_timeout_ms(timeout),
                Err(message) => if number is None || number->0 > u64::MAX {
                    message@ == "invalid timeout `"@ + value@ + "`; expected milliseconds"@
                } else {
                    &&& !(1 <= number->0 <= MAX_TIMEOUT_MS)
                    &&& message@ == "timeout must be between 1 and "@ + text::decimal(
                        MAX_TIMEOUT_MS as nat,
                    ) + " milliseconds"@
                },
            }
        }),
{
    let mut digits = text::chars_of(value);
    if digits.len() > 0 && digits[0] == '+' {
        let _ = digits.remove(0);
        assert(digits@ =~= value@.skip(1));
    }
    match text::parse_decimal(&digits, u64::MAX) {
        Some(timeout) => if timeout < 1 || timeout > MAX_TIMEOUT_MS {
            Err(
                "timeout must be between 1 and ".to_owned().concat(
                    text::decimal_text(MAX_TIMEOUT_MS).as_str(),
                ).concat(" milliseconds"),
            )
        } else {
            Ok(timeout)
        },
        None => Err(
            "invalid timeout `".to_owned().concat(value).concat("`; expected milliseconds"),
        ),
    }
}

/// A configured test and its timeout.
#[derive(Debug)]
pub struct ConfiguredBody {
    test: ConfiguredTest,
    timeout: Duration,
}

/// A configured test and its timeout.
pub struct BodyView {
    pub test: ConfiguredTest,
    pub timeout: Duration,
}

impl View for ConfiguredBody {
    type V = BodyView;

    closed spec fn view(&self) -> BodyView {
        BodyView { test: self.test, timeout: self.timeout }
    }
}

/// What to run for a configuration.
#[derive(Debug)]
pub enum ConfiguredRun {
    /// Nothing: what was asked for is refused.
    Refused(RunReport),
    /// The tests, with what each of them does.
    Ready { run: Run, bodies: Vec<ConfiguredBody>, reporter: Reporter },
}

/// How long a configured test may take, in nanoseconds: what the test asks for,
/// else what the caller asks for, else what the configuration asks for.
pub open spec fn test_timeout(test: ConfiguredTest, config: Config, options: RunOptions) -> nat {
    match (test.timeout_ms, options.timeout) {
        (Some(timeout_ms), _) => timeout_ms as nat * 1_000_000,
        (None, Some(timeout)) => timeout@,
        (None, None) => config.timeout_ms as nat * 1_000_000,
    }
}

/// The case of a configured test.
pub open spec fn is_case(case: CaseView, body: BodyView) -> bool {
    case == (CaseView {
        name: body.test.name@,
        group: match body.test.group {
            Some(group) => Some(group@),
            None => None,
        },
        skip: body.test.skip,
        focus: body.test.focus,
        timeout: Some(body.timeout),
    })
}

/// Prepares the run of a configuration.
pub fn run_config(config: Config, options: RunOptions) -> (result: ConfiguredRun)
    ensures
        ({
            let reporter = match options.reporter {
                Some(reporter) => reporter,
                None => config.reporter,
            };
            match result {
                ConfiguredRun::Refused(report) => {
                    &&& options.timeout matches Some(timeout) && !time::is_timeout(timeout)
                    &&& report@ == ReportView::empty(reporter).with(
                        ResultView {
                            name: "configuration"@,
                            status: StatusView::Failed(
                                (Error::InvalidTimeout { field: "timeout" }).describe(),
                            ),
                            duration: 0,
                        },
                        true,
                    )
                },
                ConfiguredRun::Ready { run, bodies, reporter: shown } => {
                    &&& options.timeout matches Some(timeout) ==> time::is_timeout(timeout)
                    &&& shown == reporter
                    &&& run.wf()
                    &&& run@.timeout@ == match options.timeout {
                        Some(timeout) => timeout@,
                        None => config.timeout_ms as nat * 1_000_000,
                    }
                    &&& run@.update_snapshots == options.update_snapshots
                    &&& run@.grep == match options.grep {
                        Some(grep) => Some(grep@),
                        None => None,
                    }
                    &&& run@.position == 0
                    &&& !run@.stopped
                    &&& run@.report == ReportView::empty(Reporter::List)
                    &&& run@.tests.len() == config.tests@.len()
                    &&& bodies@.len() == config.tests@.len()
                    &&& forall|i: int|
                        0 <= i < config.tests@.len() ==> {
                            &&& (#[trigger] bodies@[i])@.test == config.tests@[i]
                            &&& bodies@[i]@.timeout@ == test_timeout(
                                config.tests@[i],
                                config,
                                options,
                            )
                            &&& is_case(run@.tests[i], bodies@[i]@)
                        }
                },
            }
        }),
{
    let reporter = match options.reporter {
        Some(reporter) => reporter,
        None => config.reporter,
    };
    if let Some(timeout) = options.timeout {
        if let Err(error) = validate_timeout(timeout, "timeout") {
            let mut report = RunReport::new(reporter);
            report.add_result(
                TestResult {
                    name: "configuration".to_owned(),
                    status: TestStatus::Failed(error.message()),
                    duration: Duration::from_secs(0),
                },
                true,
            );
            return ConfiguredRun::Refused(report);
        }
    }
    let timeout = match options.timeout {
        Some(timeout) => timeout,
        None => Duration::from_millis(config.timeout_ms),
    };
    let mut runner = Runner::new(timeout).update_snapshots(options.update_snapshots);
    let ghost all = config.tests@;
    let mut tests = config.tests;
    let mut bodies: Vec<ConfiguredBody> = Vec::new();
    while tests.len() > 0
        invariant
            bodies@.len() + tests@.len() == all.len(),
            tests@ == all.skip(bodies@.len() as int),
            timeout@ == match options.timeout {
                Some(timeout) => timeout@,
                None => config.timeout_ms as nat * 1_000_000,
            },
            runner@.timeout == timeout,
            runner@.update_snapshots == options.update_snapshots,
            runner@.tests.len() == bodies@.len(),
            forall|i: int|
                0 <= i < bodies@.len() ==> {
                    &&& (#[trigger] bodies@[i])@.test == all[i]
                    &&& bodies@[i]@.timeout@ == test_timeout(all[i], config, options)
                    &&& is_case(runner@.tests[i], bodies@[i]@)
                },
        decreases tests.len(),
    {
        let ghost n = bodies@.len() as int;
        assert(tests@[0] == all[n]);
        let test = tests.remove(0);
        assert(tests@ =~= all.skip(n + 1));
        let limit = match test.timeout_ms {
            Some(timeout_ms) => Duration::from_millis(timeout_ms),
            None => timeout,
        };
        let mut case = TestCase::new(test.name.as_str()).timeout(limit);
        if let Some(group) = &test.group {
            case = case.describe(group.as_str());
        }
        if test.skip {
            case = case.skip();
        }
        if test.focus {
            case = case.focus();
        }
        runner.register(case);
        bodies.push(ConfiguredBody { test, timeout: limit });
    }
    let grep = match &options.grep {
        Some(grep) => Some(grep.as_str()),
        None => None,
    };
    ConfiguredRun::Ready { run: runner.run(grep), bodies, reporter }
}

impl BodyView {
    /// What a timeout says of the test.
    pub open spec fn context(self) -> Seq<char> {
        "running configured test `"@ + self.test.name@ + "`"@
    }

    /// The error of a test whose time is over.
    pub open spec fn is_timeout_error(self, error: Error) -> bool {
        error matches Error::Timeout { timeout, context } && timeout == self.timeout && context@
            == self.context()
    }
}

/// How far a configured test has come.
#[derive(Clone, Copy, Debug, PartialEq, Eq, Structural)]
pub enum BodyStage {
    Start,
    Launched,
    Typed,
    Seen,
}

/// What a configured test has to do next.
#[derive(Debug)]
pub enum BodyAction {
    /// Start the process.
    Launch(LaunchOptions),
    /// Write the input at once.
    Paste(String),
    /// Wait for a text.
    WaitForText { text: String, timeout: Duration },
    /// Wait for the end of the process, with the given code or with any. This is
    /// the last step.
    WaitForExit(Option<i32>),
    /// Watch that the process stays alive for that long. This is the last step.
    StayAlive(Duration),
}

/// How the process of a test should end; `None` where it should stay alive.
pub open spec fn wanted_exit(test: ConfiguredTest) -> Option<Option<i32>> {
    if test.expect_exit_code is Some {
        Some(test.expect_exit_code)
    } else if test.expect_exit {
        Some(None)
    } else if !test.allow_running {
        Some(Some(0i32))
    } else {
        None
    }
}

/// How long the process of a test should stay alive, in nanoseconds.
pub open spec fn grace_of(test: ConfiguredTest) -> nat {
    match test.allow_running_grace_ms {
        Some(grace_ms) => grace_ms as nat * 1_000_000,
        None => 50_000_000,
    }
}

/// The bytes of some texts.
pub open spec fn is_encoded(bytes: Seq<Vec<u8>>, texts: Seq<String>) -> bool {
    &&& bytes.len() == texts.len()
    &&& forall|i: int| 0 <= i < texts.len() ==> (#[trigger] bytes[i])@ == encode_utf8(texts[i]@)
}

impl BodyView {
    /// The options with which the test starts its process, `left` nanoseconds
    /// before its time is over.
    pub open spec fn is_launch(
        self,
        options: LaunchOptions,
        left: nat,
        cwd: Option<Vec<u8>>,
    ) -> bool {
        &&& options.command@ == encode_utf8(self.test.command@)
        &&& is_encoded(options.args@, self.test.args@)
        &&& match (options.cwd, self.test.cwd) {
            (Some(directory), Some(wanted)) => directory@ == wanted@,
            (directory, None) => directory == cwd,
            _ => false,
        }
        &&& options.env@.len() == 0
        &&& options.term@ == "xterm-256color"@
        &&& (options.cols, options.rows) == config::size_of(self.test)
        &&& options.startup_timeout@ == left
        &&& options.shutdown_timeout@ == match self.test.shutdown_timeout_ms {
            Some(timeout_ms) => timeout_ms as nat * 1_000_000,
            None => 600_000_000,
        }
    }

    /// The next step of the test when `elapsed` of its time is over, and how far
    /// it has come then.
    pub open spec fn is_next(
        self,
        stage: BodyStage,
        elapsed: nat,
        cwd: Option<Vec<u8>>,
        result: Result<(BodyAction, BodyStage)>,
    ) -> bool {
        let over = elapsed >= self.timeout@;
        let left = (self.timeout@ - elapsed) as nat;
        let typed = stage == BodyStage::Typed || (stage == BodyStage::Launched && self.test.input
            is None);
        if stage == BodyStage::Start {
            match result {
                Ok((BodyAction::Launch(options), BodyStage::Launched)) => !over && self.is_launch(
                    options,
                    left,
                    cwd,
                ),
                Err(error) => over && self.is_timeout_error(error),
                _ => false,
            }
        } else if stage == BodyStage::Launched && self.test.input is Some {
            result matches Ok((BodyAction::Paste(input), BodyStage::Typed)) && input
                == self.test.input->0
        } else if typed && self.test.expect_text is Some {
            match result {
                Ok((BodyAction::WaitForText { text, timeout }, BodyStage::Seen)) => !over && text
                    == self.test.expect_text->0 && timeout@ == left,
                Err(error) => over && self.is_timeout_error(error),
                _ => false,
            }
        } else if wanted_exit(self.test) is Some {
            result matches Ok((BodyAction::WaitForExit(code), BodyStage::Seen)) && code
                == wanted_exit(self.test)->0
        } else {
            match result {
                Ok((BodyAction::StayAlive(grace), BodyStage::Seen)) => !over && grace@
                    == if grace_of(self.test) <= left {
                    grace_of(self.test)
                } else {
                    left
                },
                Err(error) => over && self.is_timeout_error(error),
                _ => false,
            }
        }
    }
}

/// The bytes of some texts.
fn encode_all(texts: &Vec<String>) -> (bytes: Vec<Vec<u8>>)
    ensures
        is_encoded(bytes@, texts@),
{
    let mut bytes: Vec<Vec<u8>> = Vec::new();
    let mut i: usize = 0;
    while i < texts.len()
        invariant
            i <= texts.len(),
            bytes@.len() == i,
            forall|k: int| 0 <= k < i ==> (#[trigger] bytes@[k])@ == encode_utf8(texts@[k]@),
        decreases texts.len() - i,
    {
        bytes.push(texts[i].as_str().as_bytes_vec());
        i = i + 1;
    }
    bytes
}

impl ConfiguredBody {
    /// What is left of the test's time.
    fn remaining(&self, elapsed: Duration) -> (result: Result<Duration>)
        ensures
            match result {
                Ok(left) => elapsed@ < self@.timeout@ && left@ == self@.timeout@ - elapsed@,
                Err(error) => elapsed@ >= self@.timeout@ && self@.is_timeout_error(error),
            },
    {
        let left = self.timeout.saturating_sub(elapsed);
        if left.is_zero() {
            Err(
                Error::Timeout {
                    timeout: self.timeout,
                    context: "running configured test `".to_owned().concat(
                        self.test.name.as_str(),
                    ).concat("`"),
                },
            )
        } else {
            Ok(left)
        }
    }

    /// The options with which the test starts its process.
    fn launch_options(&self, left: Duration, cwd: Option<Vec<u8>>) -> (options: LaunchOptions)
        ensures
            self@.is_launch(options, left@, cwd),
    {
        let (cols, rows) = (
            match self.test.cols {
                Some(cols) => cols,
                None => 80,
            },
            match self.test.rows {
                Some(rows) => rows,
                None => 24,
            },
        );
        let mut options = LaunchOptions::new(
            self.test.command.as_str().as_bytes_vec(),
            cwd,
        ).args(encode_all(&self.test.args)).size(cols, rows);
        options.startup_timeout = left;
        options.shutdown_timeout = match self.test.shutdown_timeout_ms {
            Some(timeout_ms) => Duration::from_millis(timeout_ms),
            None => Duration::from_millis(600),
        };
        if let Some(directory) = &self.test.cwd {
            let mut copy: Vec<u8> = Vec::new();
            copy.extend_from_slice(directory.as_slice());
            assert(copy@ =~= directory@);
            options = options.cwd(copy);
        }
        options
    }

    /// The next step of the test when `elapsed` of its time is over, and how far
    /// it has come then. `cwd` is the starting directory of a test that has none
    /// of its own.
    pub fn next(
        &self,
        stage: BodyStage,
        elapsed: Duration,
        cwd: Option<Vec<u8>>,
    ) -> (result: Result<(BodyAction, BodyStage)>)
        ensures
            self@.is_next(stage, elapsed@, cwd, result),
    {
        if let BodyStage::Start = stage {
            return match self.remaining(elapsed) {
                Ok(left) => Ok(
                    (BodyAction::Launch(self.launch_options(left, cwd)), BodyStage::Launched),
                ),
                Err(error) => Err(error),
            };
        }
        if let BodyStage::Launched = stage {
            if let Some(input) = &self.test.input {
                return Ok((BodyAction::Paste(input.clone()), BodyStage::Typed));
            }
        }
        let seen = matches!(stage, BodyStage::Seen);
        if !seen {
            if let Some(text) = &self.test.expect_text {
                return match self.remaining(elapsed) {
                    Ok(left) => Ok(
                        (
                            BodyAction::WaitForText { text: text.clone(), timeout: left },
                            BodyStage::Seen,
                        ),
                    ),
                    Err(error) => Err(error),
                };
            }
        }
        if self.test.expect_exit_code.is_some() {
            return Ok((BodyAction::WaitForExit(self.test.expect_exit_code), BodyStage::Seen));
        }
        if self.test.expect_exit {
            return Ok((BodyAction::WaitForExit(None), BodyStage::Seen));
        }
        if !self.test.allow_running {
            return Ok((BodyAction::WaitForExit(Some(0)), BodyStage::Seen));
        }
        let grace = match self.test.allow_running_grace_ms {
            Some(grace_ms) => Duration::from_millis(grace_ms),
            None => Duration::from_millis(50),
        };
        match self.remaining(elapsed) {
            Ok(left) => Ok((BodyAction::StayAlive(grace.shorter(left)), BodyStage::Seen)),
            Err(error) => Err(error),
        }
    }

    /// The error of a test whose text did not come. A process that should have
    /// stayed alive is said to.
    pub fn text_error(&self, error: Error) -> (result: Error)
        ensures
            match error {
                Error::ProcessExited(status) => if self@.test.allow_running {
                    result matches Error::ProcessExited(context) && context@ == status@
                        + "; allow_running requires the process to remain alive"@
                } else {
                    result == error
                },
                _ => result == error,
            },
    {
        match error {
            Error::ProcessExited(status) => if self.test.allow_running {
                Error::ProcessExited(
                    status.concat("; allow_running requires the process to remain alive"),
                )
            } else {
                Error::ProcessExited(status)
            },
            error => error,
        }
    }

    /// Decides whether a process has ended as the test wants it, when `elapsed`
    /// of the test's time is over. A process that has ended is judged even where
    /// the time is over.
    pub fn expect_configured_exit(
        &self,
        expected: Option<i32>,
        state: &ProcessState,
        elapsed: Duration,
    ) -> (check: ExitCheck)
        ensures
            is_exit_check(self@, expected, state.exit(), elapsed@, check),
    {
        if let ProcessState::Exited(status) = state {
            let code: i32 = match expected {
                Some(code) => code,
                None => {
                    return ExitCheck::Passed;
                },
            };
            if let Some(actual) = status.code {
                if actual == code {
                    return ExitCheck::Passed;
                }
            }
            return ExitCheck::Failed(
                Error::ProcessExited(
                    "expected exit code ".to_owned().concat(
                        text::signed_text(code).as_str(),
                    ).concat(", got ").concat(status.text().as_str()),
                ),
            );
        }
        match self.remaining(elapsed) {
            Ok(left) => ExitCheck::Wait(left),
            Err(error) => ExitCheck::Failed(error),
        }
    }
}

/// Whether a process has ended as it should.
#[derive(Debug)]
pub enum ExitCheck {
    Passed,
    Failed(Error),
    /// It still runs; its end may be waited for that long.
    Wait(Duration),
}

/// The outcome of looking at a process that should end.
pub open spec fn is_exit_check(
    body: BodyView,
    expected: Option<i32>,
    exit: Option<ExitView>,
    elapsed: nat,
    check: ExitCheck,
) -> bool {
    if exit is Some {
        if expected is None || exit->0.code == expected {
            check == ExitCheck::Passed
        } else {
            check matches ExitCheck::Failed(Error::ProcessExited(context)) && context@
                == "expected exit code "@ + text::signed_decimal(expected->0 as int) + ", got "@
                + exit->0.described()
        }
    } else if elapsed >= body.timeout@ {
        check matches ExitCheck::Failed(error) && body.is_timeout_error(error)
    } else {
        check matches ExitCheck::Wait(left) && left@ == body.timeout@ - elapsed
    }
}

/// What a caller that watches a living process has to do next.
#[derive(Debug)]
pub enum AliveStep {
    /// The time is over, and the process lives.
    Passed,
    /// The process has ended.
    Failed(Error),
    /// Look again after this time.
    Sleep(Duration),
}

/// The outcome of looking at a process that should stay alive.
pub open spec fn is_watched(
    exit: Option<ExitView>,
    elapsed: nat,
    grace: nat,
    step: AliveStep,
) -> bool {
    if exit is Some {
        step matches AliveStep::Failed(Error::ProcessExited(context)) && context@
            == exit->0.described() + "; allow_running requires the process to remain alive"@
    } else if elapsed >= grace {
        step == AliveStep::Passed
    } else {
        step matches AliveStep::Sleep(pause) && pause@ == if grace - elapsed < 1_000_000 {
            (grace - elapsed) as nat
        } else {
            1_000_000
        }
    }
}

/// Decides for a caller that has watched a process for `elapsed` of `grace`. Any
/// end of the process is an error.
pub fn stays_alive(state: &ProcessState, elapsed: Duration, grace: Duration) -> (step: AliveStep)
    ensures
        is_watched(state.exit(), elapsed@, grace@, step),
{
    if let ProcessState::Exited(status) = state {
        return AliveStep::Failed(
            Error::ProcessExited(
                status.text().concat("; allow_running requires the process to remain alive"),
            ),
        );
    }
    let left = grace.saturating_sub(elapsed);
    if left.is_zero() {
        AliveStep::Passed
    } else {
        AliveStep::Sleep(Duration::from_millis(1).shorter(left))
    }
}

/// The place of a stage in the order of a test.
pub open spec fn rank(stage: BodyStage) -> int {
    match stage {
        BodyStage::Start => 0,
        BodyStage::Launched => 1,
        BodyStage::Typed => 2,
        BodyStage::Seen => 3,
    }
}

/// A configured test comes to its end: each step but the last one brings it
/// further.
pub proof fn lemma_steps_come_to_an_end(
    body: BodyView,
    stage: BodyStage,
    elapsed: nat,
    cwd: Option<Vec<u8>>,
    result: Result<(BodyAction, BodyStage)>,
)
    requires
        body.is_next(stage, elapsed, cwd, result),
    ensures
        match result {
            Ok((BodyAction::WaitForExit(_), _)) => true,
            Ok((BodyAction::StayAlive(_), _)) => true,
            Ok((_, next)) => rank(stage) < rank(next) <= 3,
            Err(_) => elapsed >= body.timeout@,
        },
{
}

/// A sound configuration gives every test a timeout that is accepted.
pub proof fn lemma_sound_timeouts(config: Config, options: RunOptions, i: int)
    requires
        config::is_sound(config),
        options.timeout matches Some(timeout) ==> time::is_timeout(timeout),
        0 <= i < config.tests@.len(),
    ensures
        0 < test_timeout(config.tests@[i], config, options) <= time::MAX_TIMEOUT_NANOS,
{
    assert(config::fault_of(config.tests@[i]) is None);
}

/// A test of a sound configuration either waits for the end of its process or
/// watches that it stays alive, never both.
pub proof fn lemma_exit_or_alive(test: ConfiguredTest)
    requires
        config::fault_of(test) is None,
    ensures
        wanted_exit(test) is None <==> test.allow_running,
{
}

} // verus!
