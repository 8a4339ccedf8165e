use ttry::process::{
    normalize_status, wait_until_exit, CloseStage, CloseStep, ExitWait, PtyProcess, SpawnPlan,
};
use ttry::session::{
    ingest_pty_output, join_reader_until, IngestStep, JoinStep, ReadOutcome, ReaderJoinError,
    ReaderLifecycle, ReaderThread, TextSample, WaitStep,
};
use ttry::{
    launch, Duration, Error, ExitStatus, LaunchOptions, ProcessState, PtyOptions, Terminal,
    TuiSession,
};

fn ms(millis: u64) -> Duration {
    Duration::from_millis(millis)
}

fn exit(code: i32) -> ExitStatus {
    ExitStatus { code: Some(code), signal: None }
}

fn options(command: &str) -> LaunchOptions {
    LaunchOptions::new(command.as_bytes().to_vec(), Some(b"/work".to_vec())).size(40, 8)
}

fn start(options: LaunchOptions) -> (TuiSession, SpawnPlan) {
    TuiSession::launch(options, Ok(b"/work".to_vec())).unwrap()
}

fn look(initial: bool, at: u64) -> TextSample {
    TextSample {
        initial,
        began: ms(at),
        sampled: ms(at),
        now: ms(at),
    }
}

#[test]
fn pty_ingestion_retries_an_interrupted_read() {
    let mut terminal = Terminal::new(10, 1).unwrap();
    assert!(matches!(
        ingest_pty_output(&mut terminal, ReadOutcome::Interrupted),
        IngestStep::Continue
    ));
    assert!(matches!(
        ingest_pty_output(&mut terminal, ReadOutcome::Bytes(b"ready".to_vec())),
        IngestStep::Continue
    ));
    assert!(matches!(
        ingest_pty_output(&mut terminal, ReadOutcome::Bytes(Vec::new())),
        IngestStep::Finished
    ));
    assert_eq!(terminal.screen().text(), "ready");
    assert!(matches!(
        ingest_pty_output(&mut terminal, ReadOutcome::Failed("bad".to_string())),
        IngestStep::Failed(reason) if reason == "bad"
    ));
}

#[test]
fn reader_join_timeout_is_bounded_and_retryable() {
    let mut reader = ReaderLifecycle::Running;
    assert_eq!(
        join_reader_until(&mut reader, ReaderThread::Alive, ms(0), ms(10)),
        JoinStep::Sleep(ms(5))
    );
    assert_eq!(
        join_reader_until(&mut reader, ReaderThread::Alive, ms(7), ms(10)),
        JoinStep::Sleep(ms(3))
    );
    assert!(matches!(
        join_reader_until(&mut reader, ReaderThread::Alive, ms(10), ms(10)),
        JoinStep::Failed(ReaderJoinError::Timeout(timeout)) if timeout == ms(10)
    ));
    assert_eq!(
        join_reader_until(&mut reader, ReaderThread::Ended, ms(0), ms(10)),
        JoinStep::Joined
    );
    assert_eq!(
        join_reader_until(&mut reader, ReaderThread::Alive, ms(99), ms(10)),
        JoinStep::Joined
    );
}

#[test]
fn reader_panic_remains_visible_to_later_close_attempts() {
    let mut reader = ReaderLifecycle::Running;
    let mut thread = ReaderThread::Panicked;
    for _ in 0..2 {
        assert!(matches!(
            join_reader_until(&mut reader, thread, ms(0), ms(1_000)),
            JoinStep::Failed(ReaderJoinError::Panicked)
        ));
        thread = ReaderThread::Ended;
    }
}

#[test]
fn explicit_session_close_reports_a_reader_panic() {
    let (mut session, _) = start(options("/bin/sh"));
    assert!(matches!(
        session.close(Err(ReaderJoinError::Panicked)),
        Err(Error::Runner(message)) if message.contains("PTY reader thread panicked")
    ));
    assert_eq!(session.process().recent_events().len(), 1);
}

#[test]
fn session_close_retries_reader_join_after_process_cleanup_completed() {
    let (mut session, _) = start(options("/bin/sh"));
    assert!(matches!(session.process.close(Some(exit(0)), false), CloseStep::Done));
    assert!(matches!(
        session.close(Err(ReaderJoinError::Timeout(ms(10)))),
        Err(Error::Runner(message)) if message == "PTY reader did not stop within 10ms"
    ));
    assert!(matches!(session.process.close(None, false), CloseStep::Done));
    session.close(Ok(())).unwrap();
    assert_eq!(
        session.process().recent_events().last().unwrap(),
        "PTY reader joined"
    );
}

#[test]
fn launches_in_pty_with_term_dimensions_and_exit() {
    let (mut session, plan) = start(options("fixture").arg(b"info".to_vec()));
    assert_eq!(plan.executable, b"fixture".to_vec());
    assert_eq!(plan.args, vec![b"info".to_vec()]);
    assert_eq!(plan.env[0], (b"TERM".to_vec(), b"xterm-256color".to_vec()));
    assert_eq!(plan.env[1], (b"COLUMNS".to_vec(), b"40".to_vec()));
    assert_eq!(plan.env[2], (b"LINES".to_vec(), b"8".to_vec()));
    let line = b"TERM=xterm-256color SIZE=40x8\r\n";
    session.terminal.advance(line);
    let sample = look(true, 0);
    assert!(matches!(
        session.wait_for_text("TERM=xterm-256color SIZE=40x8", ms(2_000), sample),
        WaitStep::Passed
    ));
    let state = session.process.state(Some(exit(0)));
    let assertion = session.expect_process().timeout(ms(2_000));
    let step = assertion.to_have_exited_with_code(
        0,
        &state,
        session.process().recent_events(),
        ms(1),
    );
    assert!(matches!(step, WaitStep::Passed));
}

#[test]
fn relative_executable_resolves_once_against_relative_cwd() {
    let relative = options("./ttry-fixture").cwd(b"target/debug".to_vec());
    let (_, plan) = start(relative);
    assert_eq!(plan.executable, b"/work/target/debug/./ttry-fixture".to_vec());
    assert_eq!(plan.cwd, Some(b"/work/target/debug".to_vec()));
}

fn executable(command: &str, cwd: Option<&str>) -> String {
    let options = PtyOptions::new(
        command.as_bytes().to_vec(),
        cwd.map(|cwd| cwd.as_bytes().to_vec()),
    );
    let (_, plan) = PtyProcess::spawn(options, Ok(b"/now".to_vec())).unwrap();
    String::from_utf8(plan.executable).unwrap()
}

#[test]
fn only_paths_with_directories_are_seen_from_the_starting_directory() {
    assert_eq!(executable("sh", Some("/w")), "sh");
    assert_eq!(executable("/bin/sh", Some("/w")), "/bin/sh");
    assert_eq!(executable("bin/sh", Some("/w")), "/w/bin/sh");
    assert_eq!(executable("bin/sh", Some("w/")), "/now/w/bin/sh");
    assert_eq!(executable("bin/sh", None), "./bin/sh");
    assert_eq!(executable("sh/", Some("/w")), "sh/");
    assert_eq!(executable("sh/.", Some("/w")), "sh/.");
    assert_eq!(executable("./sh", Some("/w")), "/w/./sh");
    assert_eq!(executable("../sh", Some("/w")), "/w/../sh");
    assert_eq!(executable("", Some("/w")), "");
}

#[test]
fn an_unknown_current_directory_matters_only_for_relative_directories() {
    let unknown = || Err("gone".to_string());
    let relative = PtyOptions::new(b"sh".to_vec(), Some(b"w".to_vec()));
    assert_eq!(
        PtyProcess::spawn(relative, unknown()).unwrap_err().message(),
        "failed to launch `sh`: gone"
    );
    let absolute = PtyOptions::new(b"sh".to_vec(), Some(b"/w".to_vec()));
    assert!(PtyProcess::spawn(absolute, unknown()).is_ok());
    let mut empty = PtyOptions::new(b"sh".to_vec(), None);
    empty.rows = 0;
    assert!(matches!(
        PtyProcess::spawn(empty, unknown()),
        Err(Error::InvalidDimensions { cols: 80, rows: 0 })
    ));
    assert!(launch(b"sh".to_vec(), Some(b"w".to_vec()), unknown()).is_err());
    let (session, plan) = launch(b"s\xffh".to_vec(), None, unknown()).unwrap();
    assert_eq!(session.process().command(), "s\u{fffd}h");
    assert_eq!(plan.executable, b"s\xffh".to_vec());
}

#[test]
fn variables_are_set_once_and_in_order() {
    let options = options("sh")
        .env(b"B".to_vec(), b"1".to_vec())
        .env(b"A".to_vec(), b"2".to_vec())
        .env(b"AB".to_vec(), b"3".to_vec())
        .env(b"B".to_vec(), b"4".to_vec());
    let (_, plan) = start(options);
    assert_eq!(
        plan.env[3..],
        [
            (b"A".to_vec(), b"2".to_vec()),
            (b"AB".to_vec(), b"3".to_vec()),
            (b"B".to_vec(), b"4".to_vec()),
        ]
    );
}

#[test]
fn refused_options_start_nothing() {
    let mut zero = options("sh");
    zero.startup_timeout = ms(0);
    zero.shutdown_timeout = ms(0);
    assert!(matches!(
        TuiSession::launch(zero, Ok(b"/".to_vec())),
        Err(Error::InvalidTimeout { field: "startup_timeout" })
    ));
    let mut long = options("sh");
    long.shutdown_timeout = Duration::new(86_400, 1);
    match TuiSession::launch(long, Ok(b"/".to_vec())) {
        Err(error) => assert_eq!(
            error.message(),
            "invalid shutdown_timeout; timeout must be greater than zero and at most 24 hours"
        ),
        Ok(_) => panic!("accepted"),
    }
    assert!(matches!(
        TuiSession::launch(options("sh").size(0, 4), Ok(b"/".to_vec())),
        Err(Error::InvalidDimensions { cols: 0, rows: 4 })
    ));
    let (session, _) = start(options("sh"));
    assert!(session.check_startup(ms(5_000)).is_ok());
    assert_eq!(
        session.check_startup(Duration::new(5, 1)).unwrap_err().message(),
        "operation timed out after 5s: starting PTY process"
    );
}

#[test]
fn keyboard_input_reaches_child_and_updates_screen() {
    let (mut session, _) = start(options("fixture").arg(b"echo".to_vec()));
    session.keyboard().paste("hello\n");
    session.keyboard().press("ctrl+c").unwrap();
    let strokes = session.keyboard().take();
    assert_eq!(strokes[0].bytes, b"hello\n".to_vec());
    assert_eq!(strokes[1].bytes, vec![3]);
    session.terminal.advance(b"READY\r\nINPUT:hello\r\n");
    let sample = look(false, 1_999);
    assert!(matches!(
        session.wait_for_text("INPUT:hello", ms(2_000), sample),
        WaitStep::Passed
    ));
}

#[test]
fn delayed_output_uses_event_driven_assertion() {
    let (mut session, _) = start(options("fixture").arg(b"delayed".to_vec()));
    let assertion = session.expect(session.get_by_text("ready")).timeout(ms(2_000));
    assert!(matches!(
        assertion.to_be_visible(&session.sample(None, ms(0))),
        WaitStep::Wait(pause) if pause == ms(50)
    ));
    let version = session.screen().version();
    session.terminal.advance(b"ready");
    assert!(session.screen().version() > version);
    assert!(matches!(
        assertion.to_be_visible(&session.sample(None, ms(40))),
        WaitStep::Passed
    ));
}

#[test]
fn resize_updates_pty_and_screen() {
    let (mut session, _) = start(options("fixture").arg(b"resize".to_vec()));
    session.terminal.advance(b"SIZE:40x8\r\n");
    assert!(session.check_resize(60, 12).is_ok());
    session.resize(60, 12, Ok(())).unwrap();
    assert_eq!(session.screen().dimensions(), (60, 12));
    assert_eq!(session.process().recent_events().last().unwrap(), "resized to 60x12");
    assert!(session.check_resize(0, 1).is_err());
    assert!(matches!(
        session.resize(0, 1, Ok(())),
        Err(Error::InvalidDimensions { cols: 0, rows: 1 })
    ));
    assert!(matches!(
        session.resize(50, 10, Err("no".to_string())),
        Err(Error::Io(reason)) if reason == "no"
    ));
    assert_eq!(session.screen().dimensions(), (60, 12));
    assert_eq!(session.screen().text().lines().next(), Some("SIZE:40x8"));
}

#[test]
fn cleanup_is_bounded_idempotent_and_leaves_no_child() {
    let mut hanging = options("hang");
    hanging.shutdown_timeout = ms(300);
    let (mut session, _) = start(hanging);
    let process = &mut session.process;
    assert!(matches!(process.close(None, false), CloseStep::Eof(wait) if wait == ms(100)));
    assert!(matches!(
        process.close_after(CloseStage::Eof, None, false, true),
        CloseStep::Terminate(wait) if wait == ms(100)
    ));
    assert!(matches!(
        process.close_after(CloseStage::Terminate, None, false, true),
        CloseStep::Kill(wait) if wait == ms(100)
    ));
    let killed = ExitStatus { code: None, signal: Some("Killed".to_string()) };
    assert!(matches!(
        process.close_after(CloseStage::Kill, Some(killed), false, true),
        CloseStep::Done
    ));
    assert!(matches!(process.close(Some(exit(1)), false), CloseStep::Done));
    assert!(matches!(process.state(Some(exit(1))), ProcessState::Exited(status)
        if status.signal.as_deref() == Some("Killed")));
    assert_eq!(
        session.process().recent_events(),
        &vec![
            "process launched".to_string(),
            "graceful close requested".to_string(),
            "SIGTERM sent".to_string(),
            "SIGKILL sent".to_string(),
            "process exited: signal Killed".to_string(),
        ]
    );
}

#[test]
fn closing_gives_up_after_force() {
    let (mut session, _) = start(options("hang"));
    let process = &mut session.process;
    assert!(matches!(process.close(None, false), CloseStep::Eof(_)));
    assert!(matches!(
        process.close_after(CloseStage::Eof, None, false, false),
        CloseStep::Kill(_)
    ));
    assert!(matches!(
        process.close_after(CloseStage::Kill, None, false, false),
        CloseStep::Failed(error) if error.message()
            == "runner error: process `hang` did not exit after forced termination"
    ));
    assert!(process.is_running());
    assert!(process.needs_sample());
}

#[test]
fn waiting_for_an_end_looks_again_soon() {
    assert_eq!(wait_until_exit(false, ms(900), ms(100)), ExitWait::Exited);
    assert_eq!(wait_until_exit(true, ms(100), ms(100)), ExitWait::TimedOut);
    assert_eq!(wait_until_exit(true, ms(99), ms(100)), ExitWait::Sleep(ms(10)));
    assert_eq!(wait_until_exit(true, ms(0), ms(3)), ExitWait::Sleep(ms(3)));
}

#[test]
fn statuses_are_codes_or_signals() {
    assert_eq!(normalize_status(7, None), exit(7));
    assert_eq!(normalize_status(u32::MAX, None).text(), "exit code -1");
    let signal = normalize_status(1, Some("Terminated".to_string()));
    assert_eq!(signal.code, None);
    assert_eq!(signal.text(), "signal Terminated");
    assert_eq!(
        ExitStatus { code: None, signal: None }.text(),
        "unknown exit status"
    );
}

#[test]
fn waiting_for_text_ends_with_the_process_or_the_time() {
    let (mut session, _) = start(options("app").size(10, 2));
    session.terminal.advance(b"one\r\ntwo");
    let wait = |session: &TuiSession, initial: bool, at: u64| {
        session.wait_for_text("x", ms(100), look(initial, at))
    };
    assert!(matches!(wait(&session, true, 0), WaitStep::Wait(pause) if pause == ms(50)));
    assert!(matches!(wait(&session, false, 70), WaitStep::Wait(pause) if pause == ms(30)));
    assert!(matches!(
        wait(&session, false, 100),
        WaitStep::Failed(error) if error.message()
            == "operation timed out after 100ms: waiting for text `x`; screen:\none\ntwo"
    ));
    assert!(matches!(
        session.wait_for_text("one", ms(100), look(true, 500)),
        WaitStep::Passed
    ));
    assert!(matches!(
        session.wait_for_text("one", ms(100), look(false, 500)),
        WaitStep::Failed(Error::Timeout { .. })
    ));
    assert!(matches!(
        session.wait_for_text("one", ms(0), look(true, 0)),
        WaitStep::Failed(Error::InvalidTimeout { field: "timeout" })
    ));
    let _ = session.process.state(Some(exit(3)));
    assert!(matches!(wait(&session, false, 10), WaitStep::Wait(_)));
    assert!(session.process().final_status().is_none());
    let version = session.screen().version();
    session.reader_ended(Some("gone".to_string()), None);
    assert_eq!(session.screen().version(), version + 1);
    assert!(session.process().output_drained());
    assert_eq!(
        session.process().recent_events().last().unwrap(),
        "PTY reader failed: gone"
    );
    assert!(matches!(
        wait(&session, false, 10),
        WaitStep::Failed(error) if error.message() == "process exited while waiting: exit code 3"
    ));
}

#[test]
fn screen_assertions_of_a_session_stop_when_its_process_has_ended() {
    let (mut session, _) = start(options("sh"));
    session.terminal.advance(b"partial");
    let assertion = session.expect_screen();
    let step = assertion.to_contain_text("partial", &session.sample(None, ms(0)));
    assert!(matches!(step, WaitStep::Passed));
    let step = assertion.to_contain_text("whole", &session.sample(None, ms(4_980)));
    assert!(matches!(step, WaitStep::Wait(pause) if pause == ms(20)));
    session.reader_ended(None, Some(exit(3)));
    let status = session.process.final_status();
    let step = assertion.to_contain_text("whole", &session.sample(status.as_ref(), ms(5)));
    assert!(matches!(
        step,
        WaitStep::Failed(Error::ProcessExited(text)) if text == "exit code 3"
    ));
}

#[test]
fn closing_goes_on_while_a_descendant_runs() {
    let (mut session, _) = start(options("tree"));
    let process = &mut session.process;
    assert!(matches!(process.close(Some(exit(0)), true), CloseStep::Eof(_)));
    assert!(matches!(
        process.close_after(CloseStage::Eof, None, true, true),
        CloseStep::Terminate(_)
    ));
    assert!(matches!(
        process.close_after(CloseStage::Terminate, None, true, true),
        CloseStep::Kill(_)
    ));
    assert!(matches!(
        process.close_after(CloseStage::Kill, None, true, true),
        CloseStep::Failed(_)
    ));
    assert!(matches!(
        process.close_after(CloseStage::Kill, None, false, true),
        CloseStep::Done
    ));
    assert!(matches!(process.close(None, true), CloseStep::Done));
    assert_eq!(
        session.process().recent_events()[1..3],
        ["process exited: exit code 0".to_string(), "graceful close requested".to_string()]
    );
}

#[test]
fn refused_options_come_before_an_unknown_directory() {
    let unknown = || Err("gone".to_string());
    let relative = || options("app").cwd(b"here".to_vec());
    let mut zero = relative();
    zero.startup_timeout = ms(0);
    assert!(matches!(
        TuiSession::launch(zero, unknown()),
        Err(Error::InvalidTimeout { field: "startup_timeout" })
    ));
    assert!(matches!(
        TuiSession::launch(relative().size(0, 4), unknown()),
        Err(Error::InvalidDimensions { cols: 0, rows: 4 })
    ));
    assert!(matches!(
        TuiSession::launch(relative(), unknown()),
        Err(Error::Launch { command, source }) if command == "app" && source == "gone"
    ));
}
