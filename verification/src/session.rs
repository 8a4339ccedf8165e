//! A session: a process, its terminal and its keyboard.

use crate::environment;
use crate::environment::Environment;
use crate::error::{validate_timeout, Error, Result};
use crate::keyboard::Keyboard;
use crate::locator::{Locator, LocatorView, MatcherView};
use crate::model;
use crate::model::{Rect, ScreenView};
use crate::process::{ExitStatus, ProcessView, PtyOptions, PtyProcess, SpawnPlan};
use crate::screen;
use crate::screen::{validate_dimensions, Region, Screen};
use crate::terminal::{Terminal, TerminalView};
use crate::text;
use crate::time;
use crate::time::Duration;
use vstd::prelude::*;

verus! {

/// How to start a session.
#[derive(Debug)]
pub struct LaunchOptions {
    pub command: Vec<u8>,
    pub args: Vec<Vec<u8>>,
    pub cwd: Option<Vec<u8>>,
    pub env: Environment,
    pub term: String,
    pub cols: u16,
    pub rows: u16,
    pub startup_timeout: Duration,
    pub shutdown_timeout: Duration,
}

impl LaunchOptions {
    /// The usual options for a command that starts in the directory `cwd`.
    pub fn new(command: Vec<u8>, cwd: Option<Vec<u8>>) -> (options: LaunchOptions)
        ensures
            options.command == command,
            options.args@ == Seq::<Vec<u8>>::empty(),
            options.cwd == cwd,
            options.env@ == Seq::<(Seq<u8>, Seq<u8>)>::empty(),
            options.term@ == "xterm-256color"@,
            options.cols == 80,
            options.rows == 24,
            options.startup_timeout@ == 5_000_000_000,
            options.shutdown_timeout@ == 600_000_000,
    {
        LaunchOptions {
            command,
            args: Vec::new(),
            cwd,
            env: Environment::new(),
            term: "xterm-256color".to_owned(),
            cols: 80,
            rows: 24,
            startup_timeout: Duration::from_secs(5),
            shutdown_timeout: Duration::from_millis(600),
        }
    }

    /// Adds an argument.
    pub fn arg(self, arg: Vec<u8>) -> (options: LaunchOptions)
        ensures
            options == (LaunchOptions { args: options.args, ..self }),
            options.args@ == self.args@.push(arg),
    {
        let mut args = self.args;
        args.push(arg);
        LaunchOptions { args, ..self }
    }

    /// Adds some arguments.
    pub fn args(self, args: Vec<Vec<u8>>) -> (options: LaunchOptions)
        ensures
            options == (LaunchOptions { args: options.args, ..self }),
            options.args@ == self.args@ + args@,
    {
        let mut more = args;
        let mut all = self.args;
        all.append(&mut more);
        LaunchOptions { args: all, ..self }
    }

    /// Sets the directory in which the process starts.
    pub fn cwd(self, cwd: Vec<u8>) -> (options: LaunchOptions)
        ensures
            options == (LaunchOptions { cwd: Some(cwd), ..self }),
    {
        LaunchOptions { cwd: Some(cwd), ..self }
    }

    /// Sets a variable of the environment.
    pub fn env(self, key: Vec<u8>, value: Vec<u8>) -> (options: LaunchOptions)
        ensures
            options == (LaunchOptions { env: options.env, ..self }),
            environment::ordered(options.env@),
            forall|n: Seq<u8>, v: Seq<u8>| #[trigger]
                environment::assigns(options.env@, n, v) <==> if n == key@ {
                    v == value@
                } else {
                    environment::assigns(self.env@, n, v)
                },
    {
        let mut env = self.env;
        env.insert(key, value);
        LaunchOptions { env, ..self }
    }

    /// Sets the dimensions of the terminal.
    pub fn size(self, cols: u16, rows: u16) -> (options: LaunchOptions)
        ensures
            options == (LaunchOptions { cols, rows, ..self }),
    {
        LaunchOptions { cols, rows, ..self }
    }

    /// The options of the process.
    pub open spec fn is_for_process(self, options: PtyOptions) -> bool {
        &&& options.command == self.command
        &&& options.args == self.args
        &&& options.cwd == self.cwd
        &&& options.env == self.env
        &&& options.term == self.term
        &&& options.cols == self.cols
        &&& options.rows == self.rows
        &&& options.shutdown_timeout == self.shutdown_timeout
    }
}

/// What became of the thread that reads a process's output.
#[derive(Clone, Copy, Debug, PartialEq, Eq, Structural)]
pub enum ReaderLifecycle {
    Running,
    Joined,
    Panicked,
}

/// Why the reading thread could not be joined.
#[derive(Clone, Copy, Debug, PartialEq, Eq, Structural)]
pub enum ReaderJoinError {
    Timeout(Duration),
    Panicked,
}

impl ReaderJoinError {
    pub open spec fn described(self) -> Seq<char> {
        match self {
            ReaderJoinError::Timeout(timeout) => "PTY reader did not stop within "@
                + timeout.described(),
            ReaderJoinError::Panicked => "PTY reader thread panicked"@,
        }
    }

    /// The error as a text.
    pub fn text(&self) -> (text: String)
        ensures
            text@ == self.described(),
    {
        match self {
            ReaderJoinError::Timeout(timeout) => "PTY reader did not stop within ".to_owned()
                .concat(timeout.text().as_str()),
            ReaderJoinError::Panicked => "PTY reader thread panicked".to_owned(),
        }
    }
}

/// What a caller that joins the reading thread has to do next.
#[derive(Clone, Copy, Debug, PartialEq, Eq, Structural)]
pub enum JoinStep {
    Joined,
    Failed(ReaderJoinError),
    Sleep(Duration),
}

/// What is seen of the reading thread.
#[derive(Clone, Copy, Debug, PartialEq, Eq, Structural)]
pub enum ReaderThread {
    Alive,
    Ended,
    Panicked,
}

/// Decides for a caller that has waited for `elapsed` of `timeout` until the
/// reading thread has ended. A thread that has ended is joined once, and a panic
/// stays known.
pub fn join_reader_until(
    reader: &mut ReaderLifecycle,
    thread: ReaderThread,
    elapsed: Duration,
    timeout: Duration,
) -> (step: JoinStep)
    ensures
        *final(reader) == match (*old(reader), thread) {
            (ReaderLifecycle::Running, ReaderThread::Ended) => ReaderLifecycle::Joined,
            (ReaderLifecycle::Running, ReaderThread::Panicked) => ReaderLifecycle::Panicked,
            (lifecycle, _) => lifecycle,
        },
        match step {
            JoinStep::Joined => *final(reader) == ReaderLifecycle::Joined,
            JoinStep::Failed(ReaderJoinError::Panicked) => *final(reader)
                == ReaderLifecycle::Panicked,
            JoinStep::Failed(ReaderJoinError::Timeout(limit)) => *final(reader)
                == ReaderLifecycle::Running && elapsed@ >= timeout@ && limit == timeout,
            JoinStep::Sleep(pause) => {
                &&& *final(reader) == ReaderLifecycle::Running
                &&& elapsed@ < timeout@
                &&& pause@ == if timeout@ - elapsed@ < 5_000_000 {
                    (timeout@ - elapsed@) as nat
                } else {
                    5_000_000
                }
            },
        },
{
    match *reader {
        ReaderLifecycle::Joined => {
            return JoinStep::Joined;
        },
        ReaderLifecycle::Panicked => {
            return JoinStep::Failed(ReaderJoinError::Panicked);
        },
        ReaderLifecycle::Running => {},
    }
    match thread {
        ReaderThread::Ended => {
            *reader = ReaderLifecycle::Joined;
            return JoinStep::Joined;
        },
        ReaderThread::Panicked => {
            *reader = ReaderLifecycle::Panicked;
            return JoinStep::Failed(ReaderJoinError::Panicked);
        },
        ReaderThread::Alive => {},
    }
    let remaining = timeout.saturating_sub(elapsed);
    if remaining.is_zero() {
        JoinStep::Failed(ReaderJoinError::Timeout(timeout))
    } else {
        JoinStep::Sleep(Duration::from_millis(5).shorter(remaining))
    }
}

/// What one read of a process's output gave.
#[derive(Debug)]
pub enum ReadOutcome {
    /// Some bytes; none at the end of the output.
    Bytes(Vec<u8>),
    /// A signal came in between.
    Interrupted,
    /// The read failed.
    Failed(String),
}

/// What the reading thread has to do next.
#[derive(Debug)]
pub enum IngestStep {
    /// Read on.
    Continue,
    /// The output has ended.
    Finished,
    /// The output cannot be read.
    Failed(String),
}

/// Draws what one read gave, and tells how to go on. An interrupted read is
/// tried again.
pub fn ingest_pty_output(terminal: &mut Terminal, outcome: ReadOutcome) -> (step: IngestStep)
    requires
        old(terminal).wf(),
    ensures
        final(terminal).wf(),
        match outcome {
            ReadOutcome::Bytes(bytes) => if bytes@.len() == 0 {
                step is Finished && final(terminal)@ == old(terminal)@
            } else {
                step is Continue && old(terminal)@.advances_to(bytes@, final(terminal)@)
            },
            ReadOutcome::Interrupted => step is Continue && final(terminal)@ == old(terminal)@,
            ReadOutcome::Failed(reason) => step == IngestStep::Failed(reason) && final(terminal)@
                == old(terminal)@,
        },
{
    match outcome {
        ReadOutcome::Bytes(bytes) => if bytes.len() == 0 {
            IngestStep::Finished
        } else {
            terminal.advance(bytes.as_slice());
            IngestStep::Continue
        },
        ReadOutcome::Interrupted => IngestStep::Continue,
        ReadOutcome::Failed(reason) => IngestStep::Failed(reason),
    }
}

/// A process, what it has drawn, and what is to be typed.
pub struct TuiSession {
    pub terminal: Terminal,
    pub process: PtyProcess,
    pub keyboard: Keyboard,
    pub reader: ReaderLifecycle,
    pub startup_timeout: Duration,
    pub reader_shutdown_timeout: Duration,
}

/// Why options are refused before anything is started.
pub open spec fn refused(options: LaunchOptions, error: Error) -> bool {
    if !time::is_timeout(options.startup_timeout) {
        error == (Error::InvalidTimeout { field: "startup_timeout" })
    } else if !time::is_timeout(options.shutdown_timeout) {
        error == (Error::InvalidTimeout { field: "shutdown_timeout" })
    } else {
        screen::dimensions_error(options.cols, options.rows, error)
    }
}

impl TuiSession {
    /// What holds of every session.
    pub open spec fn wf(self) -> bool {
        self.terminal.wf()
    }

    /// Prepares a session. `current` is the current directory, or why it is not
    /// known. Options that are refused start nothing.
    pub fn launch(
        options: LaunchOptions,
        current: std::result::Result<Vec<u8>, String>,
    ) -> (result: Result<(TuiSession, SpawnPlan)>)
        ensures
            match result {
                Ok((session, plan)) => {
                    &&& time::is_timeout(options.startup_timeout)
                    &&& time::is_timeout(options.shutdown_timeout)
                    &&& model::valid_dimensions(options.cols as int, options.rows as int)
                    &&& session.wf()
                    &&& session.terminal@.received == Seq::<u8>::empty()
                    &&& session.terminal@.screen == ScreenView::fresh(
                        options.cols as int,
                        options.rows as int,
                    )
                    &&& session.process@ == (ProcessView {
                        command: text::lossy(options.command@),
                        shutdown_timeout: options.shutdown_timeout,
                        exit: None,
                        closed: false,
                        output_drained: false,
                        events: seq!["process launched"@],
                    })
                    &&& session.keyboard@.len() == 0
                    &&& session.reader == ReaderLifecycle::Running
                    &&& session.startup_timeout == options.startup_timeout
                    &&& session.reader_shutdown_timeout == options.shutdown_timeout
                    &&& forall|process: PtyOptions| #[trigger]
                        options.is_for_process(process) ==> {
                            &&& process.needs_current_directory() ==> current is Ok
                            &&& plan.is_for(
                                process,
                                match current {
                                    Ok(directory) => directory@,
                                    Err(_) => seq![],
                                },
                            )
                        }
                },
                Err(error) => if time::is_timeout(options.startup_timeout) && time::is_timeout(
                    options.shutdown_timeout,
                ) && model::valid_dimensions(options.cols as int, options.rows as int) {
                    &&& options.cwd matches Some(cwd) && !crate::path::absolute(cwd@)
                    &&& current matches Err(reason) && error matches Error::Launch {
                        command,
                        source,
                    } && command@ == text::lossy(options.command@) && source == reason
                } else {
                    refused(options, error)
                },
            },
    {
        match validate_timeout(options.startup_timeout, "startup_timeout") {
            Ok(()) => {},
            Err(error) => {
                return Err(error);
            },
        }
        match validate_timeout(options.shutdown_timeout, "shutdown_timeout") {
            Ok(()) => {},
            Err(error) => {
                return Err(error);
            },
        }
        let terminal = match Terminal::new(options.cols, options.rows) {
            Ok(terminal) => terminal,
            Err(error) => {
                return Err(error);
            },
        };
        let startup_timeout = options.startup_timeout;
        let shutdown_timeout = options.shutdown_timeout;
        let pty_options = PtyOptions {
            command: options.command,
            args: options.args,
            cwd: options.cwd,
            env: options.env,
            term: options.term,
            cols: options.cols,
            rows: options.rows,
            shutdown_timeout,
        };
        match PtyProcess::spawn(pty_options, current) {
            Ok((process, plan)) => {
                let session = TuiSession {
                    terminal,
                    process,
                    keyboard: Keyboard::new(),
                    reader: ReaderLifecycle::Running,
                    startup_timeout,
                    reader_shutdown_timeout: shutdown_timeout,
                };
                Ok((session, plan))
            },
            Err(error) => Err(error),
        }
    }

    /// Refuses a start that took longer than it may.
    pub fn check_startup(&self, elapsed: Duration) -> (result: Result<()>)
        ensures
            match result {
                Ok(()) => elapsed@ <= self.startup_timeout@,
                Err(error) => {
                    &&& elapsed@ > self.startup_timeout@
                    &&& error matches Error::Timeout { timeout, context } && timeout
                        == self.startup_timeout && context@ == "starting PTY process"@
                },
            },
    {
        if self.startup_timeout.at_least(elapsed) {
            Ok(())
        } else {
            Err(
                Error::Timeout {
                    timeout: self.startup_timeout,
                    context: "starting PTY process".to_owned(),
                },
            )
        }
    }

    /// Takes note that the output was read to its end, or why it was not, and
    /// wakes those who wait for the screen.
    pub fn reader_ended(&mut self, failure: Option<String>, sample: Option<ExitStatus>)
        requires
            old(self).wf(),
        ensures
            final(self).wf(),
            final(self).terminal@ == (TerminalView {
                screen: old(self).terminal@.screen.touched(),
                ..old(self).terminal@
            }),
            final(self).process@ == (ProcessView {
                output_drained: true,
                ..(match failure {
                    Some(reason) => old(self).process@.noted("PTY reader failed: "@ + reason@),
                    None => old(self).process@,
                })
            }).observed(
                match sample {
                    Some(status) => Some(status@),
                    None => None,
                },
            ),
            *final(self) == (TuiSession {
                terminal: final(self).terminal,
                process: final(self).process,
                ..*old(self)
            }),
    {
        if let Some(reason) = failure {
            self.process.record_event("PTY reader failed: ".to_owned().concat(reason.as_str()));
        }
        self.process.mark_output_drained();
        let _ = self.process.state(sample);
        self.terminal.notify();
    }

    /// The keyboard of the session.
    pub fn keyboard(&mut self) -> (keyboard: &mut Keyboard)
        ensures
            *keyboard == old(self).keyboard,
            *final(self) == (TuiSession { keyboard: *final(keyboard), ..*old(self) }),
    {
        &mut self.keyboard
    }

    /// What is known of the process.
    pub fn process(&self) -> (process: &PtyProcess)
        ensures
            *process == self.process,
    {
        &self.process
    }

    /// What the process has drawn.
    pub fn screen(&self) -> (screen: &Screen)
        requires
            self.wf(),
        ensures
            screen@ == self.terminal@.screen,
            screen@.wf(),
    {
        self.terminal.screen()
    }

    /// Looks for a text anywhere in a row of the screen.
    pub fn get_by_text(&self, text: &str) -> (locator: Locator)
        requires
            self.wf(),
        ensures
            locator@ == (LocatorView {
                region: None,
                matcher: MatcherView::Literal { text: text@, exact: false },
            }),
    {
        self.terminal.screen().get_by_text(text)
    }

    /// A rectangle of the screen.
    pub fn region(&self, rect: Rect) -> (result: Result<Region>)
        requires
            self.wf(),
        ensures
            screen::region_result(self.terminal@.screen.active(), None, rect, result),
    {
        self.terminal.screen().region(rect)
    }

    /// Whether dimensions can be given to the terminal at all; to be asked
    /// before the process's terminal is resized.
    pub fn check_resize(&self, cols: u16, rows: u16) -> (result: Result<()>)
        ensures
            match result {
                Ok(()) => model::valid_dimensions(cols as int, rows as int),
                Err(error) => screen::dimensions_error(cols, rows, error),
            },
    {
        validate_dimensions(cols, rows)
    }

    /// Gives the session new dimensions. `applied` tells whether the process's
    /// terminal took them, or why not; then the screen keeps the old ones.
    pub fn resize(
        &mut self,
        cols: u16,
        rows: u16,
        applied: std::result::Result<(), String>,
    ) -> (result: Result<()>)
        requires
            old(self).wf(),
        ensures
            final(self).wf(),
            *final(self) == (TuiSession {
                terminal: final(self).terminal,
                process: final(self).process,
                ..*old(self)
            }),
            final(self).terminal@.received == old(self).terminal@.received,
            match result {
                Ok(()) => {
                    &&& model::valid_dimensions(cols as int, rows as int)
                    &&& applied is Ok
                    &&& final(self).terminal@.screen == old(self).terminal@.screen.resized(
                        cols as int,
                        rows as int,
                    )
                    &&& final(self).process@ == old(self).process@.noted(
                        "resized to "@ + text::decimal(cols as nat) + "x"@ + text::decimal(
                            rows as nat,
                        ),
                    )
                },
                Err(error) => {
                    &&& final(self).terminal@ == old(self).terminal@
                    &&& final(self).process@ == old(self).process@
                    &&& if model::valid_dimensions(cols as int, rows as int) {
                        applied matches Err(reason) && error == Error::Io(reason)
                    } else {
                        screen::dimensions_error(cols, rows, error)
                    }
                },
            },
    {
        match validate_dimensions(cols, rows) {
            Ok(()) => {},
            Err(error) => {
                return Err(error);
            },
        }
        match self.process.resize(cols, rows, applied) {
            Ok(()) => self.terminal.resize(cols, rows),
            Err(error) => Err(error),
        }
    }

    /// Ends the closing of a session whose process was closed, with what came of
    /// joining the reading thread.
    pub fn close(
        &mut self,
        joined: std::result::Result<(), ReaderJoinError>,
    ) -> (result: Result<()>)
        ensures
            *final(self) == (TuiSession { process: final(self).process, ..*old(self) }),
            match result {
                Ok(()) => joined is Ok && final(self).process@ == old(self).process@.noted(
                    "PTY reader joined"@,
                ),
                Err(error) => {
                    &&& joined matches Err(reason) && error matches Error::Runner(message)
                        && message@ == reason.described()
                    &&& final(self).process@ == old(self).process@
                },
            },
    {
        match joined {
            Ok(()) => {
                self.process.record_event("PTY reader joined".to_owned());
                Ok(())
            },
            Err(reason) => Err(Error::Runner(reason.text())),
        }
    }
}

/// The times of one look at the screen while waiting for a text, counted from the
/// start of the waiting.
#[derive(Debug)]
pub struct TextSample {
    /// Whether this is the first look.
    pub initial: bool,
    /// When the look began.
    pub began: Duration,
    /// When the screen was seen.
    pub sampled: Duration,
    /// When the process had been looked at.
    pub now: Duration,
}

/// What a caller that waits has to do next.
#[derive(Debug)]
pub enum WaitStep {
    /// What was waited for has come.
    Passed,
    /// It will not come any more.
    Failed(Error),
    /// Look again when the screen changes, at the latest after this time.
    Wait(Duration),
}

/// The error of a text that did not come in time.
pub open spec fn is_text_timeout(
    error: Error,
    text: Seq<char>,
    timeout: Duration,
    screen: ScreenView,
) -> bool {
    error matches Error::Timeout { timeout: limit, context } && limit == timeout && context@
        == "waiting for text `"@ + text + "`; screen:\n"@ + text::join_lines(
        screen.active().lines(None, false),
    )
}

fn text_timeout(text: &str, timeout: Duration, screen: &Screen) -> (error: Error)
    requires
        screen@.wf(),
    ensures
        is_text_timeout(error, text@, timeout, screen@),
{
    Error::Timeout {
        timeout,
        context: "waiting for text `".to_owned().concat(text).concat("`; screen:\n").concat(
            screen.text().as_str(),
        ),
    }
}

/// Whether a text stands in a row of the screen.
pub open spec fn shows(screen: ScreenView, text: Seq<char>) -> bool {
    (LocatorView {
        region: None,
        matcher: MatcherView::Literal { text, exact: false },
    }).found(screen).len() > 0
}

/// The longest pause between two looks at the screen, in nanoseconds.
pub open spec fn pause(timeout: Duration, elapsed: Duration) -> nat {
    if timeout@ - elapsed@ < 50_000_000 {
        (timeout@ - elapsed@) as nat
    } else {
        50_000_000
    }
}

impl TuiSession {
    /// Decides for a caller that waits for a text. The first look counts
    /// whenever it ends; a later one only when it ends in time. A process that
    /// has ended, and whose output was read, ends the waiting.
    pub fn wait_for_text(
        &self,
        text: &str,
        timeout: Duration,
        sample: TextSample,
    ) -> (step: WaitStep)
        requires
            self.wf(),
        ensures
            step is Passed ==> shows(self.terminal@.screen, text@) && (sample.initial
                || sample.sampled@ < timeout@),
            time::is_timeout(timeout) && shows(self.terminal@.screen, text@) && sample.initial
                ==> step is Passed,
            step matches WaitStep::Wait(span) ==> sample.now@ + span@ <= timeout@ && span@
                <= 50_000_000 && !shows(self.terminal@.screen, text@),
            ({
                let screen = self.terminal@.screen;
                let matched = shows(screen, text@);
                let late = !sample.initial && sample.began@ >= timeout@;
                let in_time = sample.initial || sample.sampled@ < timeout@;
                if !time::is_timeout(timeout) {
                    step == WaitStep::Failed(Error::InvalidTimeout { field: "timeout" })
                } else if !late && matched && in_time {
                    step == WaitStep::Passed
                } else if late || matched || sample.sampled@ >= timeout@ {
                    step matches WaitStep::Failed(error) && is_text_timeout(
                        error,
                        text@,
                        timeout,
                        screen,
                    )
                } else if self.process@.output_drained && self.process@.exit is Some {
                    step matches WaitStep::Failed(Error::ProcessExited(status)) && status@
                        == self.process@.exit->0.described()
                } else if sample.now@ >= timeout@ {
                    step matches WaitStep::Failed(error) && is_text_timeout(
                        error,
                        text@,
                        timeout,
                        screen,
                    )
                } else {
                    step matches WaitStep::Wait(span) && span@ == pause(timeout, sample.now)
                }
            }),
    {
        match validate_timeout(timeout, "timeout") {
            Ok(()) => {},
            Err(error) => {
                return WaitStep::Failed(error);
            },
        }
        let screen = self.terminal.screen();
        if !sample.initial && sample.began.at_least(timeout) {
            return WaitStep::Failed(text_timeout(text, timeout, screen));
        }
        let over = sample.sampled.at_least(timeout);
        let matched = self.get_by_text(text).is_visible(screen);
        if matched && (sample.initial || !over) {
            return WaitStep::Passed;
        }
        if matched || over {
            return WaitStep::Failed(text_timeout(text, timeout, screen));
        }
        if let Some(status) = self.process.final_status() {
            return WaitStep::Failed(Error::ProcessExited(status.text()));
        }
        if sample.now.at_least(timeout) {
            return WaitStep::Failed(text_timeout(text, timeout, screen));
        }
        WaitStep::Wait(timeout.saturating_sub(sample.now).shorter(Duration::from_millis(50)))
    }
}

/// The options of a process that is started with the usual options.
pub open spec fn is_usual(options: PtyOptions, command: Vec<u8>, cwd: Option<Vec<u8>>) -> bool {
    &&& options.command == command
    &&& options.args@.len() == 0
    &&& options.cwd == cwd
    &&& options.env@.len() == 0
    &&& options.term@ == "xterm-256color"@
    &&& options.cols == 80
    &&& options.rows == 24
}

/// Prepares a session for a command with the usual options.
pub fn launch(
    command: Vec<u8>,
    cwd: Option<Vec<u8>>,
    current: std::result::Result<Vec<u8>, String>,
) -> (result: Result<(TuiSession, SpawnPlan)>)
    ensures
        match result {
            Ok((session, plan)) => {
                &&& session.wf()
                &&& session.terminal@.received == Seq::<u8>::empty()
                &&& session.terminal@.screen == ScreenView::fresh(80, 24)
                &&& session.process@.shutdown_timeout@ == 600_000_000
                &&& session.process@ == (ProcessView {
                    command: text::lossy(command@),
                    shutdown_timeout: session.process@.shutdown_timeout,
                    exit: None,
                    closed: false,
                    output_drained: false,
                    events: seq!["process launched"@],
                })
                &&& session.keyboard@.len() == 0
                &&& session.reader == ReaderLifecycle::Running
                &&& session.startup_timeout@ == 5_000_000_000
                &&& session.reader_shutdown_timeout == session.process@.shutdown_timeout
                &&& cwd is Some && !crate::path::absolute(cwd->0@) ==> current is Ok
                &&& plan.args@.len() == 0
                &&& forall|process: PtyOptions|
                    #[trigger] is_usual(process, command, cwd) && process.args == plan.args
                        ==> plan.is_for(
                        process,
                        match current {
                            Ok(directory) => directory@,
                            Err(_) => seq![],
                        },
                    )
            },
            Err(error) => {
                &&& cwd matches Some(directory) && !crate::path::absolute(directory@)
                &&& current matches Err(reason) && error matches Error::Launch {
                    command: name,
                    source,
                } && name@ == text::lossy(command@) && source == reason
            },
        },
{
    let options = LaunchOptions::new(command, cwd);
    let result = TuiSession::launch(options, current);
    proof {
        let process = PtyOptions {
            command: options.command,
            args: options.args,
            cwd: options.cwd,
            env: options.env,
            term: options.term,
            cols: options.cols,
            rows: options.rows,
            shutdown_timeout: options.shutdown_timeout,
        };
        assert(options.is_for_process(process));
    }
    result
}

} // verus!
