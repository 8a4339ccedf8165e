//! Assertions that are tried until they hold or their time is over.

use crate::error::{Error, Result};
use crate::locator;
use crate::locator::{Locator, LocatorView, MatchView};
use crate::model::{Rect, ScreenView};
use crate::process::{ExitStatus, ExitView, ProcessState, PtyProcess};
use crate::screen::{Region, Screen};
use crate::session;
use crate::session::{TuiSession, WaitStep};
use crate::text;
use crate::time::Duration;
use vstd::prelude::*;

verus! {

/// How long an assertion may take.
#[derive(Clone, Copy, Debug)]
pub struct ExpectOptions {
    pub timeout: Duration,
}

impl Default for ExpectOptions {
    fn default() -> (options: ExpectOptions)
        ensures
            options.timeout@ == 5_000_000_000,
    {
        ExpectOptions { timeout: Duration::from_secs(5) }
    }
}

impl ExpectOptions {
    /// Refuses a timeout of zero.
    pub fn validate(&self) -> (result: Result<()>)
        ensures
            result == if self.timeout@ == 0 {
                Err::<(), Error>(Error::InvalidTimeout { field: "timeout" })
            } else {
                Ok(())
            },
    {
        if self.timeout.is_zero() {
            Err(Error::InvalidTimeout { field: "timeout" })
        } else {
            Ok(())
        }
    }
}

/// Namespace for the default assertion timeout.
#[derive(Clone, Copy, Debug, Default, PartialEq, Eq, Structural)]
pub struct Expect;

/// What an assertion is about.
pub trait IntoExpect: Sized {
    type Assertion;

    /// The assertion is about this target, with the usual timeout.
    spec fn is_target_of(&self, assertion: Self::Assertion) -> bool;

    fn into_expect(self) -> (assertion: Self::Assertion)
        ensures
            self.is_target_of(assertion),
    ;
}

/// Starts an assertion.
pub fn expect<T: IntoExpect>(target: T) -> (assertion: T::Assertion)
    ensures
        target.is_target_of(assertion),
{
    target.into_expect()
}

/// Assertions about what a locator finds.
#[derive(Debug)]
pub struct LocatorExpect {
    locator: Locator,
    options: ExpectOptions,
}

/// What a locator assertion looks for, and for how long.
#[verifier::ext_equal]
pub struct LocatorExpectView {
    pub locator: LocatorView,
    pub timeout: Duration,
}

impl View for LocatorExpect {
    type V = LocatorExpectView;

    closed spec fn view(&self) -> LocatorExpectView {
        LocatorExpectView { locator: self.locator@, timeout: self.options.timeout }
    }
}

impl IntoExpect for Locator {
    type Assertion = LocatorExpect;

    open spec fn is_target_of(&self, assertion: LocatorExpect) -> bool {
        assertion@.locator == self@ && assertion@.timeout@ == 5_000_000_000
    }

    fn into_expect(self) -> (assertion: LocatorExpect) {
        LocatorExpect { locator: self, options: ExpectOptions::default() }
    }
}

/// One look at the screen, at the process and at the clock. The status is that
/// of a process which has ended and whose output was read to the end; the time
/// counts from the start of the assertion.
pub struct Sample<'a> {
    pub screen: &'a Screen,
    pub exited: Option<&'a ExitStatus>,
    pub elapsed: Duration,
}

impl<'a> Sample<'a> {
    /// The status of the process, if it has ended.
    pub open spec fn exit(self) -> Option<ExitView> {
        match self.exited {
            Some(status) => Some(status@),
            None => None,
        }
    }
}

/// What an assertion finds: it holds, it does not hold yet, or it cannot be
/// decided because there is more than one match.
#[verifier::ext_equal]
pub enum Verdict {
    Holds,
    Fails,
    Ambiguous(Seq<MatchView>),
}

impl LocatorExpectView {
    /// What comes of one look, for a verdict.
    pub open spec fn decides(
        self,
        expectation: Seq<char>,
        verdict: Verdict,
        screen: ScreenView,
        exit: Option<ExitView>,
        elapsed: Duration,
        step: WaitStep,
    ) -> bool {
        if self.timeout@ == 0 {
            step == WaitStep::Failed(Error::InvalidTimeout { field: "timeout" })
        } else if verdict is Holds {
            step == WaitStep::Passed
        } else if verdict is Ambiguous {
            step matches WaitStep::Failed(error) && locator::is_strict_error(
                error,
                verdict->Ambiguous_0,
            )
        } else if exit is Some {
            step matches WaitStep::Failed(Error::ProcessExited(context)) && context@
                == exit->0.described() + "; expected locator "@
                + self.locator.matcher.described() + " "@ + expectation
        } else if elapsed@ >= self.timeout@ {
            step matches WaitStep::Failed(Error::Timeout { timeout, context }) && timeout
                == self.timeout && context@ == "expected locator "@
                + self.locator.matcher.described() + " "@ + expectation
                + "; current screen:\n"@ + text::join_lines(
                screen.active().lines(self.locator.region, false),
            )
        } else {
            step matches WaitStep::Wait(span) && span@ == session::pause(self.timeout, elapsed)
        }
    }
}

/// What a predicate of a locator assertion found.
enum Finding {
    Holds,
    Fails,
    Ambiguous(Error),
}

impl LocatorExpect {
    /// Sets how long the assertion may take.
    pub fn timeout(self, timeout: Duration) -> (assertion: LocatorExpect)
        ensures
            assertion@ == (LocatorExpectView { timeout, ..self@ }),
    {
        LocatorExpect { options: ExpectOptions { timeout }, ..self }
    }

    /// Whether there is a match.
    pub fn to_be_visible(&self, sample: &Sample) -> (step: WaitStep)
        requires
            sample.screen@.wf(),
        ensures
            self@.timeout@ > 0 ==> (step is Passed <==> self@.locator.found(sample.screen@).len() > 0),
            self@.decides(
                "to be visible"@,
                if self@.locator.found(sample.screen@).len() > 0 {
                    Verdict::Holds
                } else {
                    Verdict::Fails
                },
                sample.screen@,
                sample.exit(),
                sample.elapsed,
                step,
            ),
    {
        let finding = if self.locator.is_visible(sample.screen) {
            Finding::Holds
        } else {
            Finding::Fails
        };
        self.retry("to be visible", finding, sample)
    }

    /// Whether there is no match.
    pub fn not_to_be_visible(&self, sample: &Sample) -> (step: WaitStep)
        requires
            sample.screen@.wf(),
        ensures
            self@.timeout@ > 0 ==> (step is Passed <==> self@.locator.found(sample.screen@).len() == 0),
            self@.decides(
                "not to be visible"@,
                if self@.locator.found(sample.screen@).len() == 0 {
                    Verdict::Holds
                } else {
                    Verdict::Fails
                },
                sample.screen@,
                sample.exit(),
                sample.elapsed,
                step,
            ),
    {
        let finding = if self.locator.is_visible(sample.screen) {
            Finding::Fails
        } else {
            Finding::Holds
        };
        self.retry("not to be visible", finding, sample)
    }

    /// Whether the only match has the given text. More than one match cannot be
    /// decided, and is not waited for.
    pub fn to_have_text(&self, expected: &str, sample: &Sample) -> (step: WaitStep)
        requires
            sample.screen@.wf(),
        ensures
            self@.timeout@ > 0 ==> (step is Passed <==> self@.locator.found(sample.screen@).len() == 1 && self@.locator.found(sample.screen@)[0].0
                == expected@),
            ({
                let found = self@.locator.found(sample.screen@);
                self@.decides(
                    "to have text `"@ + expected@ + "`"@,
                    if found.len() > 1 {
                        Verdict::Ambiguous(found)
                    } else if found.len() == 1 && found[0].0 == expected@ {
                        Verdict::Holds
                    } else {
                        Verdict::Fails
                    },
                    sample.screen@,
                    sample.exit(),
                    sample.elapsed,
                    step,
                )
            }),
    {
        let finding = match self.locator.text(sample.screen) {
            Ok(actual) => if text::same_text(actual.as_str(), expected) {
                Finding::Holds
            } else {
                Finding::Fails
            },
            Err(error) => if self.locator.is_visible(sample.screen) {
                Finding::Ambiguous(error)
            } else {
                Finding::Fails
            },
        };
        let expectation = "to have text `".to_owned().concat(expected).concat("`");
        self.retry(expectation.as_str(), finding, sample)
    }

    /// Whether there are as many matches as given.
    pub fn to_have_count(&self, expected: usize, sample: &Sample) -> (step: WaitStep)
        requires
            sample.screen@.wf(),
        ensures
            self@.timeout@ > 0 ==> (step is Passed <==> self@.locator.found(sample.screen@).len() == expected),
            self@.decides(
                "to have count "@ + text::decimal(expected as nat),
                if self@.locator.found(sample.screen@).len() == expected {
                    Verdict::Holds
                } else {
                    Verdict::Fails
                },
                sample.screen@,
                sample.exit(),
                sample.elapsed,
                step,
            ),
    {
        let finding = if self.locator.count(sample.screen) == expected {
            Finding::Holds
        } else {
            Finding::Fails
        };
        let expectation = "to have count ".to_owned().concat(
            text::decimal_text(expected as u64).as_str(),
        );
        self.retry(expectation.as_str(), finding, sample)
    }

    fn retry(&self, expectation: &str, finding: Finding, sample: &Sample) -> (step: WaitStep)
        requires
            sample.screen@.wf(),
            finding matches Finding::Ambiguous(error) ==> locator::is_strict_error(
                error,
                self@.locator.found(sample.screen@),
            ),
        ensures
            self@.decides(
                expectation@,
                match finding {
                    Finding::Holds => Verdict::Holds,
                    Finding::Fails => Verdict::Fails,
                    Finding::Ambiguous(_) => Verdict::Ambiguous(
                        self@.locator.found(sample.screen@),
                    ),
                },
                sample.screen@,
                sample.exit(),
                sample.elapsed,
                step,
            ),
    {
        match self.options.validate() {
            Ok(()) => {},
            Err(error) => {
                return WaitStep::Failed(error);
            },
        }
        match finding {
            Finding::Holds => {
                return WaitStep::Passed;
            },
            Finding::Ambiguous(error) => {
                return WaitStep::Failed(error);
            },
            Finding::Fails => {},
        }
        let timeout = self.options.timeout;
        if let Some(status) = sample.exited {
            return WaitStep::Failed(
                Error::ProcessExited(
                    status.text().concat("; expected locator ").concat(
                        self.locator.describe().as_str(),
                    ).concat(" ").concat(expectation),
                ),
            );
        }
        if sample.elapsed.at_least(timeout) {
            return WaitStep::Failed(
                Error::Timeout {
                    timeout,
                    context: "expected locator ".to_owned().concat(
                        self.locator.describe().as_str(),
                    ).concat(" ").concat(expectation).concat("; current screen:\n").concat(
                        self.locator.seen(sample.screen).as_str(),
                    ),
                },
            );
        }
        WaitStep::Wait(timeout.saturating_sub(sample.elapsed).shorter(Duration::from_millis(50)))
    }
}

/// Assertions about the text of the screen, or of a region.
#[derive(Clone, Copy, Debug)]
pub struct ScreenExpect {
    region: Option<Rect>,
    options: ExpectOptions,
}

/// What a screen assertion looks at, and for how long.
#[verifier::ext_equal]
pub struct ScreenExpectView {
    pub region: Option<Rect>,
    pub timeout: Duration,
}

impl View for ScreenExpect {
    type V = ScreenExpectView;

    closed spec fn view(&self) -> ScreenExpectView {
        ScreenExpectView { region: self.region, timeout: self.options.timeout }
    }
}

impl<'a> IntoExpect for &'a Screen {
    type Assertion = ScreenExpect;

    open spec fn is_target_of(&self, assertion: ScreenExpect) -> bool {
        assertion@.region is None && assertion@.timeout@ == 5_000_000_000
    }

    fn into_expect(self) -> (assertion: ScreenExpect) {
        ScreenExpect { region: None, options: ExpectOptions::default() }
    }
}

impl IntoExpect for Region {
    type Assertion = ScreenExpect;

    open spec fn is_target_of(&self, assertion: ScreenExpect) -> bool {
        assertion@.region == Some(self@) && assertion@.timeout@ == 5_000_000_000
    }

    fn into_expect(self) -> (assertion: ScreenExpect) {
        ScreenExpect { region: Some(self.rect()), options: ExpectOptions::default() }
    }
}

impl ScreenExpect {
    /// Sets how long the assertion may take.
    pub fn timeout(self, timeout: Duration) -> (assertion: ScreenExpect)
        ensures
            assertion@ == (ScreenExpectView { timeout, ..self@ }),
    {
        ScreenExpect { options: ExpectOptions { timeout }, ..self }
    }

    /// Whether the text of the screen holds the given one.
    pub fn to_contain_text(&self, expected: &str, sample: &Sample) -> (step: WaitStep)
        requires
            sample.screen@.wf(),
        ensures
            ({
                let text = text::join_lines(
                    sample.screen@.active().lines(self@.region, false),
                );
                if self@.timeout@ == 0 {
                    step == WaitStep::Failed(Error::InvalidTimeout { field: "timeout" })
                } else if locator::contains_text(text, expected@) {
                    step == WaitStep::Passed
                } else if sample.exit() is Some {
                    step matches WaitStep::Failed(Error::ProcessExited(status)) && status@
                        == sample.exit()->0.described()
                } else if sample.elapsed@ >= self@.timeout@ {
                    step matches WaitStep::Failed(Error::Timeout { timeout, context }) && timeout
                        == self@.timeout && context@ == "expected screen to contain `"@
                        + expected@ + "`; actual:\n"@ + text
                } else {
                    step matches WaitStep::Wait(span) && span@ == session::pause(
                        self@.timeout,
                        sample.elapsed,
                    )
                }
            }),
    {
        match self.options.validate() {
            Ok(()) => {},
            Err(error) => {
                return WaitStep::Failed(error);
            },
        }
        let timeout = self.options.timeout;
        let actual = text::join(&sample.screen.lines_in(self.region, false));
        if locator::contains(actual.as_str(), expected) {
            return WaitStep::Passed;
        }
        if let Some(status) = sample.exited {
            return WaitStep::Failed(Error::ProcessExited(status.text()));
        }
        if sample.elapsed.at_least(timeout) {
            return WaitStep::Failed(
                Error::Timeout {
                    timeout,
                    context: "expected screen to contain `".to_owned().concat(expected).concat(
                        "`; actual:\n",
                    ).concat(actual.as_str()),
                },
            );
        }
        WaitStep::Wait(timeout.saturating_sub(sample.elapsed).shorter(Duration::from_millis(50)))
    }
}

/// Assertions about the process.
#[derive(Clone, Copy, Debug)]
pub struct ProcessExpect {
    options: ExpectOptions,
}

impl View for ProcessExpect {
    type V = Duration;

    /// How long the assertion may take.
    closed spec fn view(&self) -> Duration {
        self.options.timeout
    }
}

impl<'a> IntoExpect for &'a PtyProcess {
    type Assertion = ProcessExpect;

    open spec fn is_target_of(&self, assertion: ProcessExpect) -> bool {
        assertion@@ == 5_000_000_000
    }

    fn into_expect(self) -> (assertion: ProcessExpect) {
        ProcessExpect { options: ExpectOptions::default() }
    }
}

impl ProcessExpect {
    /// Sets how long the assertion may take.
    pub fn timeout(self, timeout: Duration) -> (assertion: ProcessExpect)
        ensures
            assertion@ == timeout,
    {
        ProcessExpect { options: ExpectOptions { timeout } }
    }

    /// Whether the process runs.
    pub fn to_be_running(&self, state: &ProcessState) -> (result: Result<()>)
        ensures
            match result {
                Ok(()) => self@@ > 0 && state.exit() is None,
                Err(error) => if self@@ == 0 {
                    error == (Error::InvalidTimeout { field: "timeout" })
                } else {
                    &&& state.exit() is Some
                    &&& error matches Error::ProcessExited(context) && context@
                        == "expected running, got "@ + state.exit()->0.described()
                },
            },
    {
        match self.options.validate() {
            Ok(()) => {},
            Err(error) => {
                return Err(error);
            },
        }
        match state {
            ProcessState::Running => Ok(()),
            ProcessState::Exited(status) => Err(
                Error::ProcessExited(
                    "expected running, got ".to_owned().concat(status.text().as_str()),
                ),
            ),
        }
    }

    /// Whether the process has ended.
    pub fn to_have_exited(
        &self,
        state: &ProcessState,
        events: &Vec<String>,
        elapsed: Duration,
    ) -> (step: WaitStep)
        ensures
            decides_exit(self@, None, state.exit(), text::views(events@), elapsed, step),
    {
        self.wait_for_exit(None, state, events, elapsed)
    }

    /// Whether the process has ended with the given code.
    pub fn to_have_exited_with_code(
        &self,
        expected: i32,
        state: &ProcessState,
        events: &Vec<String>,
        elapsed: Duration,
    ) -> (step: WaitStep)
        ensures
            decides_exit(self@, Some(expected), state.exit(), text::views(events@), elapsed, step),
    {
        self.wait_for_exit(Some(expected), state, events, elapsed)
    }

    fn wait_for_exit(
        &self,
        expected: Option<i32>,
        state: &ProcessState,
        events: &Vec<String>,
        elapsed: Duration,
    ) -> (step: WaitStep)
        ensures
            decides_exit(self@, expected, state.exit(), text::views(events@), elapsed, step),
    {
        match self.options.validate() {
            Ok(()) => {},
            Err(error) => {
                return WaitStep::Failed(error);
            },
        }
        if let ProcessState::Exited(status) = state {
            let code: i32 = match expected {
                Some(code) => code,
                None => {
                    return WaitStep::Passed;
                },
            };
            if let Some(actual) = status.code {
                if actual == code {
                    return WaitStep::Passed;
                }
            }
            return WaitStep::Failed(
                Error::ProcessExited(
                    "expected exit code ".to_owned().concat(
                        text::signed_text(code).as_str(),
                    ).concat(", got ").concat(status.text().as_str()),
                ),
            );
        }
        let timeout = self.options.timeout;
        if elapsed.at_least(timeout) {
            return WaitStep::Failed(
                Error::Timeout {
                    timeout,
                    context: "waiting for process exit; recent events: ".to_owned().concat(
                        text::quote_list(events).as_str(),
                    ),
                },
            );
        }
        WaitStep::Wait(Duration::from_millis(10))
    }
}

/// What comes of one look at a process that should end, with any code or with
/// the expected one.
pub open spec fn decides_exit(
    timeout: Duration,
    expected: Option<i32>,
    exit: Option<ExitView>,
    events: Seq<Seq<char>>,
    elapsed: Duration,
    step: WaitStep,
) -> bool {
    if timeout@ == 0 {
        step == WaitStep::Failed(Error::InvalidTimeout { field: "timeout" })
    } else if exit is Some {
        if expected is None || exit->0.code == expected {
            step == WaitStep::Passed
        } else {
            step matches WaitStep::Failed(Error::ProcessExited(context)) && context@
                == "expected exit code "@ + text::signed_decimal(expected->0 as int) + ", got "@
                + exit->0.described()
        }
    } else if elapsed@ >= timeout@ {
        step matches WaitStep::Failed(Error::Timeout { timeout: limit, context }) && limit
            == timeout && context@ == "waiting for process exit; recent events: "@
            + text::quoted_list(events)
    } else {
        step matches WaitStep::Wait(span) && span@ == 10_000_000
    }
}

impl TuiSession {
    /// Starts an assertion about what a locator finds.
    pub fn expect(&self, locator: Locator) -> (assertion: LocatorExpect)
        ensures
            locator.is_target_of(assertion),
    {
        locator.into_expect()
    }

    /// Starts an assertion about the text of the screen.
    pub fn expect_screen(&self) -> (assertion: ScreenExpect)
        requires
            self.wf(),
        ensures
            assertion@.region is None,
            assertion@.timeout@ == 5_000_000_000,
    {
        self.screen().into_expect()
    }

    /// Starts an assertion about the process.
    pub fn expect_process(&self) -> (assertion: ProcessExpect)
        ensures
            assertion@@ == 5_000_000_000,
    {
        self.process().into_expect()
    }

    /// One look at the session for an assertion that has taken `elapsed` so far,
    /// where `exited` is what `PtyProcess::final_status` gave.
    pub fn sample<'a>(
        &'a self,
        exited: Option<&'a ExitStatus>,
        elapsed: Duration,
    ) -> (sample: Sample<'a>)
        requires
            self.wf(),
        ensures
            sample.screen@ == self.terminal@.screen,
            sample.screen@.wf(),
            sample.exited == exited,
            sample.elapsed == elapsed,
    {
        Sample { screen: self.screen(), exited, elapsed }
    }
}

} // verus!
