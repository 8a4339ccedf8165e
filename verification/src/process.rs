//! The process under test: how it is started, watched and closed.

use crate::environment;
use crate::environment::Environment;
use crate::error::{Error, Result};
use crate::path;
use crate::text;
use crate::time::Duration;
use vstd::prelude::*;
use vstd::utf8::encode_utf8;

verus! {

/// How to start a process in a terminal. Commands, arguments, paths and the
/// environment are bytes, as Unix has them.
#[derive(Debug)]
pub struct PtyOptions {
    pub command: Vec<u8>,
    pub args: Vec<Vec<u8>>,
    pub cwd: Option<Vec<u8>>,
    pub env: Environment,
    pub term: String,
    pub cols: u16,
    pub rows: u16,
    pub shutdown_timeout: Duration,
}

impl PtyOptions {
    /// The usual options for a command that starts in the directory `cwd`.
    pub fn new(command: Vec<u8>, cwd: Option<Vec<u8>>) -> (options: PtyOptions)
        ensures
            options.command == command,
            options.args@ == Seq::<Vec<u8>>::empty(),
            options.cwd == cwd,
            options.env@ == Seq::<(Seq<u8>, Seq<u8>)>::empty(),
            options.term@ == "xterm-256color"@,
            options.cols == 80,
            options.rows == 24,
            options.shutdown_timeout@ == 500_000_000,
    {
        PtyOptions {
            command,
            args: Vec::new(),
            cwd,
            env: Environment::new(),
            term: "xterm-256color".to_owned(),
            cols: 80,
            rows: 24,
            shutdown_timeout: Duration::from_millis(500),
        }
    }

    /// The directory in which the process starts.
    pub open spec fn directory(self, current: Seq<u8>) -> Option<Seq<u8>> {
        match self.cwd {
            Some(cwd) => Some(path::joined(current, cwd@)),
            None => None,
        }
    }

    /// Whether the starting directory is told from the current one.
    pub open spec fn needs_current_directory(self) -> bool {
        self.cwd matches Some(cwd) && !path::absolute(cwd@)
    }

    /// The file to run. A relative path with directories in it is seen from the
    /// starting directory; a bare name is left to the search path.
    pub open spec fn executable(self, current: Seq<u8>) -> Seq<u8> {
        if !path::absolute(self.command@) && path::components(self.command@) > 1 {
            match self.directory(current) {
                Some(cwd) => path::joined(cwd, self.command@),
                None => path::joined(seq![0x2eu8], self.command@),
            }
        } else {
            self.command@
        }
    }

    /// What is set on top of the inherited environment: the terminal's kind and
    /// size, and then what the caller asks for.
    pub open spec fn environment(self) -> Seq<(Seq<u8>, Seq<u8>)> {
        seq![
            (encode_utf8("TERM"@), encode_utf8(self.term@)),
            (encode_utf8("COLUMNS"@), encode_utf8(text::decimal(self.cols as nat))),
            (encode_utf8("LINES"@), encode_utf8(text::decimal(self.rows as nat))),
        ] + self.env@
    }
}

/// What to hand to the operating system to start a process.
#[derive(Debug)]
pub struct SpawnPlan {
    pub executable: Vec<u8>,
    pub args: Vec<Vec<u8>>,
    pub cwd: Option<Vec<u8>>,
    pub env: Vec<(Vec<u8>, Vec<u8>)>,
    pub cols: u16,
    pub rows: u16,
}

impl SpawnPlan {
    /// The plan for some options, seen from the current directory.
    pub open spec fn is_for(self, options: PtyOptions, current: Seq<u8>) -> bool {
        &&& self.executable@ == options.executable(current)
        &&& self.args == options.args
        &&& match (self.cwd, options.directory(current)) {
            (Some(cwd), Some(expected)) => cwd@ == expected,
            (None, None) => true,
            _ => false,
        }
        &&& environment::entry_views(self.env@) == options.environment()
        &&& self.cols == options.cols
        &&& self.rows == options.rows
    }
}

/// How a process ended: with a code, or by a signal.
#[derive(Debug, PartialEq, Eq)]
pub struct ExitStatus {
    pub code: Option<i32>,
    pub signal: Option<String>,
}

/// How a process ended, with the signal's name as a sequence of characters.
#[verifier::ext_equal]
pub struct ExitView {
    pub code: Option<i32>,
    pub signal: Option<Seq<char>>,
}

impl View for ExitStatus {
    type V = ExitView;

    open spec fn view(&self) -> ExitView {
        ExitView {
            code: self.code,
            signal: match self.signal {
                Some(signal) => Some(signal@),
                None => None,
            },
        }
    }
}

impl ExitView {
    /// The status as a text.
    pub open spec fn described(self) -> Seq<char> {
        match (self.code, self.signal) {
            (_, Some(signal)) => "signal "@ + signal,
            (Some(code), None) => "exit code "@ + text::signed_decimal(code as int),
            (None, None) => "unknown exit status"@,
        }
    }
}

impl Clone for ExitStatus {
    fn clone(&self) -> (status: ExitStatus)
        ensures
            status@ == self@,
    {
        ExitStatus {
            code: self.code,
            signal: match &self.signal {
                Some(signal) => Some(signal.clone()),
                None => None,
            },
        }
    }
}

impl ExitStatus {
    /// The status as a text.
    pub fn text(&self) -> (text: String)
        ensures
            text@ == self@.described(),
    {
        match &self.signal {
            Some(signal) => "signal ".to_owned().concat(signal.as_str()),
            None => match self.code {
                Some(code) => "exit code ".to_owned().concat(text::signed_text(code).as_str()),
                None => "unknown exit status".to_owned(),
            },
        }
    }
}

/// The status of a process that ended with a code, unless a signal ended it.
pub fn normalize_status(exit_code: u32, signal: Option<String>) -> (status: ExitStatus)
    ensures
        status@.signal == match signal {
            Some(signal) => Some(signal@),
            None => None,
        },
        status.code == match signal {
            Some(_) => None,
            None => Some(exit_code as i32),
        },
{
    let code: Option<i32> = match &signal {
        Some(_) => None,
        None => Some(exit_code as i32),
    };
    ExitStatus { code, signal }
}

/// Whether a process still runs.
#[derive(Debug, PartialEq, Eq)]
pub enum ProcessState {
    Running,
    Exited(ExitStatus),
}

impl ProcessState {
    /// The status of a process that has ended.
    pub open spec fn exit(self) -> Option<ExitView> {
        match self {
            ProcessState::Running => None,
            ProcessState::Exited(status) => Some(status@),
        }
    }
}

/// What is known of a process.
#[derive(Debug)]
pub struct PtyProcess {
    command: String,
    shutdown_timeout: Duration,
    exit: Option<ExitStatus>,
    closed: bool,
    output_drained: bool,
    events: Vec<String>,
}

/// What is known of a process.
#[verifier::ext_equal]
pub struct ProcessView {
    pub command: Seq<char>,
    pub shutdown_timeout: Duration,
    pub exit: Option<ExitView>,
    pub closed: bool,
    pub output_drained: bool,
    pub events: Seq<Seq<char>>,
}

impl View for PtyProcess {
    type V = ProcessView;

    closed spec fn view(&self) -> ProcessView {
        ProcessView {
            command: self.command@,
            shutdown_timeout: self.shutdown_timeout,
            exit: match self.exit {
                Some(status) => Some(status@),
                None => None,
            },
            closed: self.closed,
            output_drained: self.output_drained,
            events: text::views(self.events@),
        }
    }
}

/// What has to be done next to close a process. After each request to end, the
/// process has the given time to do so.
#[derive(Debug)]
pub enum CloseStep {
    /// The process has ended.
    Done,
    /// Send the end of the input.
    Eof(Duration),
    /// Ask the process to end.
    Terminate(Duration),
    /// End the process by force.
    Kill(Duration),
    /// The process does not end.
    Failed(Error),
}

/// The request that was made last.
#[derive(Clone, Copy, Debug, PartialEq, Eq, Structural)]
pub enum CloseStage {
    Eof,
    Terminate,
    Kill,
}

/// A step of closing, with its error as a text.
#[verifier::ext_equal]
pub enum CloseView {
    Done,
    Ask(CloseStage),
    Failed(Seq<char>),
}

impl CloseStep {
    /// The step is the given one, with a third of the shutdown time for each
    /// request.
    pub open spec fn is_step(self, step: CloseView, shutdown_timeout: Duration) -> bool {
        match (self, step) {
            (CloseStep::Done, CloseView::Done) => true,
            (CloseStep::Eof(wait), CloseView::Ask(CloseStage::Eof)) => wait@ == shutdown_timeout@
                / 3,
            (CloseStep::Terminate(wait), CloseView::Ask(CloseStage::Terminate)) => wait@
                == shutdown_timeout@ / 3,
            (CloseStep::Kill(wait), CloseView::Ask(CloseStage::Kill)) => wait@
                == shutdown_timeout@ / 3,
            (CloseStep::Failed(Error::Runner(message)), CloseView::Failed(expected)) => message@
                == expected,
            _ => false,
        }
    }
}

impl ProcessView {
    /// What holds of every process: none is closed before its end is known.
    pub open spec fn wf(self) -> bool {
        self.closed ==> self.exit is Some
    }

    /// A note was added to the events.
    pub open spec fn noted(self, event: Seq<char>) -> ProcessView {
        ProcessView { events: self.events.push(event), ..self }
    }

    /// The operating system was asked whether the process has ended. The first
    /// status that it reports is kept.
    pub open spec fn observed(self, sample: Option<ExitView>) -> ProcessView {
        if self.exit is None && sample is Some {
            ProcessView { exit: sample, ..self }.noted(
                "process exited: "@ + sample->0.described(),
            )
        } else {
            self
        }
    }

    /// Closing starts: what is left to do, and what is known then. `others` tells
    /// whether the process group still has a member besides the process. Closing
    /// is done when the process and all of its group have ended.
    pub open spec fn close_started(self, sample: Option<ExitView>, others: bool) -> (
        ProcessView,
        CloseView,
    ) {
        let seen = self.observed(sample);
        if self.closed {
            (self, CloseView::Done)
        } else if seen.exit is Some && !others {
            (ProcessView { closed: true, ..seen }, CloseView::Done)
        } else {
            (seen.noted("graceful close requested"@), CloseView::Ask(CloseStage::Eof))
        }
    }

    /// The time behind a request is over: what is left to do, and what is known
    /// then. A process without a known number cannot be asked to end.
    pub open spec fn close_continued(
        self,
        stage: CloseStage,
        sample: Option<ExitView>,
        others: bool,
        has_id: bool,
    ) -> (ProcessView, CloseView) {
        let seen = self.observed(sample);
        if seen.exit is Some && !others {
            (ProcessView { closed: true, ..seen }, CloseView::Done)
        } else if stage == CloseStage::Eof && has_id {
            (seen.noted("SIGTERM sent"@), CloseView::Ask(CloseStage::Terminate))
        } else if stage == CloseStage::Kill {
            (
                seen,
                CloseView::Failed(
                    "process `"@ + self.command + "` did not exit after forced termination"@,
                ),
            )
        } else {
            (seen.noted("SIGKILL sent"@), CloseView::Ask(CloseStage::Kill))
        }
    }
}

/// What a caller that waits for the end of a process has to do next.
#[derive(Clone, Copy, Debug, PartialEq, Eq, Structural)]
pub enum ExitWait {
    Exited,
    TimedOut,
    Sleep(Duration),
}

/// Decides for a caller that has waited for `elapsed` of `timeout` until nothing
/// runs any more, neither a process nor one of its group. It looks again every ten milliseconds, or sooner where the whole time is shorter.
pub fn wait_until_exit(running: bool, elapsed: Duration, timeout: Duration) -> (step: ExitWait)
    ensures
        match step {
            ExitWait::Exited => !running,
            ExitWait::TimedOut => running && elapsed@ >= timeout@,
            ExitWait::Sleep(pause) => running && elapsed@ < timeout@ && pause@ == if timeout@
                < 10_000_000 {
                timeout@
            } else {
                10_000_000
            },
        },
{
    if !running {
        ExitWait::Exited
    } else if elapsed.at_least(timeout) {
        ExitWait::TimedOut
    } else {
        ExitWait::Sleep(Duration::from_millis(10).shorter(timeout))
    }
}

/// Copies bytes.
fn copy(bytes: &Vec<u8>) -> (result: Vec<u8>)
    ensures
        result@ == bytes@,
{
    let mut result: Vec<u8> = Vec::new();
    result.extend_from_slice(bytes.as_slice());
    assert(result@ =~= bytes@);
    result
}

impl PtyProcess {
    /// Plans the start of a process. `current` is the current directory, or why
    /// it is not known.
    pub fn spawn(
        options: PtyOptions,
        current: std::result::Result<Vec<u8>, String>,
    ) -> (result: Result<(PtyProcess, SpawnPlan)>)
        ensures
            match result {
                Ok((process, plan)) => {
                    &&& options.cols > 0 && options.rows > 0
                    &&& options.needs_current_directory() ==> current is Ok
                    &&& current matches Ok(directory) ==> plan.is_for(options, directory@)
                    &&& current is Err ==> plan.is_for(options, seq![])
                    &&& process@ == (ProcessView {
                        command: text::lossy(options.command@),
                        shutdown_timeout: options.shutdown_timeout,
                        exit: None,
                        closed: false,
                        output_drained: false,
                        events: seq!["process launched"@],
                    })
                },
                Err(error) => if options.cols == 0 || options.rows == 0 {
                    error == (Error::InvalidDimensions {
                        cols: options.cols,
                        rows: options.rows,
                    })
                } else {
                    &&& options.needs_current_directory()
                    &&& current matches Err(reason) && error matches Error::Launch {
                        command,
                        source,
                    } && command@ == text::lossy(options.command@) && source == reason
                },
            },
    {
        if options.cols == 0 || options.rows == 0 {
            return Err(Error::InvalidDimensions { cols: options.cols, rows: options.rows });
        }
        let command = text::lossy_text(&options.command);
        let cwd: Option<Vec<u8>> = match &options.cwd {
            Some(cwd) => if path::is_absolute(cwd) {
                Some(copy(cwd))
            } else {
                match current {
                    Ok(directory) => Some(path::join(&directory, cwd)),
                    Err(source) => {
                        return Err(Error::Launch { command, source });
                    },
                }
            },
            None => None,
        };
        let executable: Vec<u8> = if !path::is_absolute(&options.command) && path::has_directories(
            &options.command,
        ) {
            match &cwd {
                Some(cwd) => path::join(cwd, &options.command),
                None => {
                    let here: Vec<u8> = vec![0x2e];
                    assert(here@ =~= seq![0x2eu8]);
                    path::join(&here, &options.command)
                },
            }
        } else {
            copy(&options.command)
        };
        let env = spawn_environment(&options);
        let mut events: Vec<String> = Vec::new();
        events.push("process launched".to_owned());
        let process = PtyProcess {
            command,
            shutdown_timeout: options.shutdown_timeout,
            exit: None,
            closed: false,
            output_drained: false,
            events,
        };
        assert(process@.events =~= seq!["process launched"@]);
        let plan = SpawnPlan {
            executable,
            args: options.args,
            cwd,
            env,
            cols: options.cols,
            rows: options.rows,
        };
        Ok((process, plan))
    }
}

/// What is set on top of the inherited environment.
fn spawn_environment(options: &PtyOptions) -> (env: Vec<(Vec<u8>, Vec<u8>)>)
    ensures
        environment::entry_views(env@) == options.environment(),
{
    let mut env: Vec<(Vec<u8>, Vec<u8>)> = Vec::new();
    env.push(("TERM".as_bytes_vec(), options.term.as_str().as_bytes_vec()));
    env.push(
        (
            "COLUMNS".as_bytes_vec(),
            text::decimal_text(options.cols as u64).as_str().as_bytes_vec(),
        ),
    );
    env.push(
        (
            "LINES".as_bytes_vec(),
            text::decimal_text(options.rows as u64).as_str().as_bytes_vec(),
        ),
    );
    let extra = options.env.entries();
    let mut i: usize = 0;
    while i < extra.len()
        invariant
            i <= extra.len(),
            environment::entry_views(extra@) == options.env@,
            environment::entry_views(env@) == options.environment().take(3 + i),
        decreases extra.len() - i,
    {
        let ghost before = env@;
        env.push((copy(&extra[i].0), copy(&extra[i].1)));
        proof {
            assert(options.env@[i as int] == (extra@[i as int].0@, extra@[i as int].1@));
            assert(environment::entry_views(env@) =~= environment::entry_views(before).push(
                options.env@[i as int],
            ));
            assert(options.environment().take(3 + i + 1) =~= options.environment().take(
                3 + i,
            ).push(options.env@[i as int]));
        }
        i = i + 1;
    }
    assert(options.environment().take(3 + i) =~= options.environment());
    env
}

impl PtyProcess {
    /// Whether the end of the process is still to be asked for: as long as no
    /// status is known.
    pub fn needs_sample(&self) -> (result: bool)
        ensures
            result == (self@.exit is None),
    {
        self.exit.is_none()
    }

    /// Takes note of what the operating system says of the process: the status
    /// of a process that has ended, and `None` of one that runs.
    pub fn state(&mut self, sample: Option<ExitStatus>) -> (state: ProcessState)
        ensures
            final(self)@ == old(self)@.observed(
                match sample {
                    Some(status) => Some(status@),
                    None => None,
                },
            ),
            state.exit() == final(self)@.exit,
    {
        if let Some(status) = &self.exit {
            return ProcessState::Exited(status.clone());
        }
        match sample {
            Some(status) => {
                self.record_event("process exited: ".to_owned().concat(status.text().as_str()));
                self.exit = Some(status.clone());
                ProcessState::Exited(status)
            },
            None => ProcessState::Running,
        }
    }

    /// Whether the process has not ended, as far as is known.
    pub fn is_running(&self) -> (running: bool)
        ensures
            running == (self@.exit is None),
    {
        self.exit.is_none()
    }

    /// Whether all output of the process was read.
    pub fn output_drained(&self) -> (drained: bool)
        ensures
            drained == self@.output_drained,
    {
        self.output_drained
    }

    /// Takes note that all output of the process was read.
    pub fn mark_output_drained(&mut self)
        ensures
            final(self)@ == (ProcessView { output_drained: true, ..old(self)@ }),
    {
        self.output_drained = true;
    }

    /// The status of a process that has ended and whose output was read to the
    /// end.
    pub fn final_status(&self) -> (status: Option<ExitStatus>)
        ensures
            match status {
                Some(status) => self@.output_drained && self@.exit == Some(status@),
                None => !self@.output_drained || self@.exit is None,
            },
    {
        if !self.output_drained {
            return None;
        }
        match &self.exit {
            Some(status) => Some(status.clone()),
            None => None,
        }
    }

    /// What happened to the process so far.
    pub fn recent_events(&self) -> (events: &Vec<String>)
        ensures
            text::views(events@) == self@.events,
    {
        &self.events
    }

    /// Adds to what happened to the process.
    pub fn record_event(&mut self, event: String)
        ensures
            final(self)@ == old(self)@.noted(event@),
    {
        self.events.push(event);
        assert(self@.events =~= old(self)@.events.push(event@));
    }

    /// The command, as a text for messages.
    pub fn command(&self) -> (command: &str)
        ensures
            command@ == self@.command,
    {
        self.command.as_str()
    }

    /// How long closing may take.
    pub fn shutdown_timeout(&self) -> (timeout: Duration)
        ensures
            timeout == self@.shutdown_timeout,
    {
        self.shutdown_timeout
    }

    /// Takes note of new dimensions. `applied` tells whether the terminal took
    /// them, or why not.
    pub fn resize(
        &mut self,
        cols: u16,
        rows: u16,
        applied: std::result::Result<(), String>,
    ) -> (result: Result<()>)
        ensures
            match result {
                Ok(()) => cols > 0 && rows > 0 && applied is Ok && final(self)@
                    == old(self)@.noted(
                    "resized to "@ + text::decimal(cols as nat) + "x"@ + text::decimal(
                        rows as nat,
                    ),
                ),
                Err(error) => final(self)@ == old(self)@ && if cols == 0 || rows == 0 {
                    error == (Error::InvalidDimensions { cols, rows })
                } else {
                    applied matches Err(reason) && error == Error::Io(reason)
                },
            },
    {
        if cols == 0 || rows == 0 {
            return Err(Error::InvalidDimensions { cols, rows });
        }
        match applied {
            Ok(()) => {
                self.record_event(
                    "resized to ".to_owned().concat(
                        text::decimal_text(cols as u64).as_str(),
                    ).concat("x").concat(text::decimal_text(rows as u64).as_str()),
                );
                Ok(())
            },
            Err(reason) => Err(Error::Io(reason)),
        }
    }

    /// Starts to close the process and its group. `others` tells whether the
    /// group still has a member besides the process. Closing what is closed does
    /// nothing.
    pub fn close(&mut self, sample: Option<ExitStatus>, others: bool) -> (step: CloseStep)
        ensures
            ({
                let (after, next) = old(self)@.close_started(
                    match sample {
                        Some(status) => Some(status@),
                        None => None,
                    },
                    others,
                );
                final(self)@ == after && step.is_step(next, after.shutdown_timeout)
            }),
    {
        if self.closed {
            return CloseStep::Done;
        }
        if self.ended(sample, others) {
            return CloseStep::Done;
        }
        self.record_event("graceful close requested".to_owned());
        CloseStep::Eof(self.shutdown_timeout.third())
    }

    /// Takes note of the process's end, and tells whether all of its group have
    /// ended with it, which closes it.
    fn ended(&mut self, sample: Option<ExitStatus>, others: bool) -> (ended: bool)
        ensures
            ({
                let seen = old(self)@.observed(
                    match sample {
                        Some(status) => Some(status@),
                        None => None,
                    },
                );
                &&& ended == (seen.exit is Some && !others)
                &&& final(self)@ == if ended {
                    ProcessView { closed: true, ..seen }
                } else {
                    seen
                }
            }),
    {
        match self.state(sample) {
            ProcessState::Exited(_) => if others {
                false
            } else {
                self.closed = true;
                true
            },
            ProcessState::Running => false,
        }
    }

    /// Goes on closing when the time behind a request is over. `others` tells
    /// whether the process group still has a member besides the process, and
    /// `has_id` whether the number of the process is known.
    pub fn close_after(
        &mut self,
        stage: CloseStage,
        sample: Option<ExitStatus>,
        others: bool,
        has_id: bool,
    ) -> (step: CloseStep)
        ensures
            ({
                let (after, next) = old(self)@.close_continued(
                    stage,
                    match sample {
                        Some(status) => Some(status@),
                        None => None,
                    },
                    others,
                    has_id,
                );
                final(self)@ == after && step.is_step(next, after.shutdown_timeout)
            }),
    {
        if self.ended(sample, others) {
            return CloseStep::Done;
        }
        let wait = self.shutdown_timeout.third();
        match stage {
            CloseStage::Eof => if has_id {
                self.record_event("SIGTERM sent".to_owned());
                CloseStep::Terminate(wait)
            } else {
                self.record_event("SIGKILL sent".to_owned());
                CloseStep::Kill(wait)
            },
            CloseStage::Terminate => {
                self.record_event("SIGKILL sent".to_owned());
                CloseStep::Kill(wait)
            },
            CloseStage::Kill => CloseStep::Failed(
                Error::Runner(
                    "process `".to_owned().concat(self.command.as_str()).concat(
                        "` did not exit after forced termination",
                    ),
                ),
            ),
        }
    }
}

/// The place of a request in the order of closing.
pub open spec fn rank(stage: CloseStage) -> int {
    match stage {
        CloseStage::Eof => 0,
        CloseStage::Terminate => 1,
        CloseStage::Kill => 2,
    }
}

/// Closing is bounded: each request is a stronger one than the request before
/// it, the last one is followed by an outcome, and all the times together are
/// no longer than the shutdown time.
pub proof fn lemma_closing_is_bounded(
    process: ProcessView,
    stage: CloseStage,
    sample: Option<ExitView>,
    others: bool,
    has_id: bool,
)
    ensures
        match process.close_continued(stage, sample, others, has_id).1 {
            CloseView::Ask(next) => rank(stage) < rank(next) <= 2,
            _ => true,
        },
        3 * (process.shutdown_timeout@ / 3) <= process.shutdown_timeout@,
{
}

/// Closing ends well where, and only where, the process is known to have ended
/// and none of its group is left; and what was closed stays closed, with nothing
/// left to do.
pub proof fn lemma_closed_stays_closed(
    process: ProcessView,
    stage: CloseStage,
    sample: Option<ExitView>,
    others: bool,
    has_id: bool,
    later: Option<ExitView>,
    others_later: bool,
)
    requires
        process.wf(),
    ensures
        ({
            let ended = process.observed(sample).exit is Some && !others;
            let (started, first) = process.close_started(sample, others);
            let (continued, next) = process.close_continued(stage, sample, others, has_id);
            &&& first == CloseView::Done <==> process.closed || ended
            &&& next == CloseView::Done <==> ended
            &&& first == CloseView::Done ==> started.close_started(later, others_later) == (
                started,
                CloseView::Done,
            )
            &&& next == CloseView::Done ==> continued.close_started(later, others_later) == (
                continued,
                CloseView::Done,
            )
        }),
{
}

/// As long as the process or one of its group is left, each request is followed
/// by a stronger one, and the last one by a failure.
pub proof fn lemma_descendants_are_not_left_behind(
    process: ProcessView,
    stage: CloseStage,
    sample: Option<ExitView>,
    others: bool,
    has_id: bool,
)
    requires
        process.observed(sample).exit is None || others,
    ensures
        match process.close_continued(stage, sample, others, has_id).1 {
            CloseView::Ask(next) => stage != CloseStage::Kill && rank(stage) < rank(next),
            CloseView::Failed(_) => stage == CloseStage::Kill,
            CloseView::Done => false,
        },
{
}

/// Observing and closing a process keep it well formed.
pub proof fn lemma_process_stays_wf(
    process: ProcessView,
    stage: CloseStage,
    sample: Option<ExitView>,
    others: bool,
    has_id: bool,
)
    requires
        process.wf(),
    ensures
        process.observed(sample).wf(),
        process.close_started(sample, others).0.wf(),
        process.close_continued(stage, sample, others, has_id).0.wf(),
{
}

/// The first status of a process that was reported stays its status, whatever
/// is reported later.
pub proof fn lemma_first_status_stays(
    process: ProcessView,
    first: Option<ExitView>,
    later: Option<ExitView>,
)
    requires
        process.observed(first).exit is Some,
    ensures
        process.observed(first).observed(later) == process.observed(first),
{
}

} // verus!
