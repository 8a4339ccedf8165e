use ttry::expect::{IntoExpect, Sample};
use ttry::session::WaitStep;
use ttry::{expect, Duration, Error, ExitStatus, ProcessState, Terminal};

fn look(terminal: &Terminal, elapsed_ms: u64) -> Sample<'_> {
    Sample {
        screen: terminal.screen(),
        exited: None,
        elapsed: Duration::from_millis(elapsed_ms),
    }
}

fn exit(code: i32) -> ExitStatus {
    ExitStatus { code: Some(code), signal: None }
}

fn error_of(step: WaitStep) -> Error {
    match step {
        WaitStep::Failed(error) => error,
        other => panic!("not a failure: {:?}", other),
    }
}

#[test]
fn visible_text_and_count_assertions() {
    let mut terminal = Terminal::new(20, 1).unwrap();
    terminal.advance(b"ready ready");
    let step = expect(terminal.screen().get_by_text("ready"))
        .to_have_count(2, &look(&terminal, 0));
    assert!(matches!(step, WaitStep::Passed));
    let step = expect(terminal.screen()).to_contain_text("ready", &look(&terminal, 0));
    assert!(matches!(step, WaitStep::Passed));
}

#[test]
fn strict_text_errors_are_not_retried_as_timeouts() {
    let mut terminal = Terminal::new(20, 1).unwrap();
    terminal.advance(b"ready ready");
    let step = expect(terminal.screen().get_by_text("ready"))
        .timeout(Duration::from_secs(1))
        .to_have_text("ready", &look(&terminal, 0));
    assert!(matches!(
        error_of(step),
        Error::StrictLocator { count: 2, .. }
    ));
}

#[test]
fn missing_text_is_retried_until_timeout() {
    let terminal = Terminal::new(20, 1).unwrap();
    let assertion = expect(terminal.screen().get_by_text("ready"))
        .timeout(Duration::from_millis(10));
    assert!(matches!(
        assertion.to_have_text("ready", &look(&terminal, 4)),
        WaitStep::Wait(pause) if pause == Duration::from_millis(6)
    ));
    let result = assertion.to_have_text("ready", &look(&terminal, 10));
    assert!(matches!(error_of(result), Error::Timeout { .. }));
}

#[test]
fn zero_assertion_timeout_is_rejected_before_sampling() {
    let mut terminal = Terminal::new(20, 1).unwrap();
    terminal.advance(b"ready");

    let locator_result = expect(terminal.screen().get_by_text("ready"))
        .timeout(Duration::from_secs(0))
        .to_be_visible(&look(&terminal, 0));
    let screen_result = expect(terminal.screen())
        .timeout(Duration::from_secs(0))
        .to_contain_text("ready", &look(&terminal, 0));

    assert!(matches!(
        error_of(locator_result),
        Error::InvalidTimeout { field: "timeout" }
    ));
    assert!(matches!(
        error_of(screen_result),
        Error::InvalidTimeout { field: "timeout" }
    ));
}

#[test]
fn timeouts_show_the_screen_and_what_was_expected() {
    let mut terminal = Terminal::new(8, 2).unwrap();
    terminal.advance(b"one\r\ntwo");
    let assertion = expect(terminal.screen().get_by_text("ok"));
    assert_eq!(
        error_of(assertion.to_be_visible(&look(&terminal, 5_000))).message(),
        "operation timed out after 5s: expected locator Literal { text: \"ok\", exact: false } \
         to be visible; current screen:\none\ntwo"
    );
    assert_eq!(
        error_of(assertion.to_have_count(1, &look(&terminal, 6_500))).message(),
        "operation timed out after 5s: expected locator Literal { text: \"ok\", exact: false } \
         to have count 1; current screen:\none\ntwo"
    );
    let present = terminal.screen().get_by_text("two").into_expect();
    assert!(matches!(present.to_have_text("two", &look(&terminal, 0)), WaitStep::Passed));
    assert_eq!(
        error_of(
            present
                .timeout(Duration::from_millis(1_500))
                .not_to_be_visible(&look(&terminal, 1_500))
        )
        .message(),
        "operation timed out after 1.5s: expected locator Literal { text: \"two\", exact: false } \
         not to be visible; current screen:\none\ntwo"
    );
    assert_eq!(
        error_of(expect(terminal.screen()).to_contain_text("e\nx", &look(&terminal, 5_000)))
            .message(),
        "operation timed out after 5s: expected screen to contain `e\nx`; actual:\none\ntwo"
    );
    assert!(matches!(
        expect(terminal.screen()).to_contain_text("e\nt", &look(&terminal, 0)),
        WaitStep::Passed
    ));
}

#[test]
fn waiting_is_never_longer_than_what_is_left() {
    let terminal = Terminal::new(8, 2).unwrap();
    let assertion = expect(terminal.screen().get_by_text("ok"));
    assert!(matches!(
        assertion.to_be_visible(&look(&terminal, 0)),
        WaitStep::Wait(pause) if pause == Duration::from_millis(50)
    ));
    assert!(matches!(
        assertion.to_be_visible(&look(&terminal, 4_990)),
        WaitStep::Wait(pause) if pause == Duration::from_millis(10)
    ));
}

#[test]
fn a_process_that_has_ended_ends_the_waiting() {
    let mut terminal = Terminal::new(8, 2).unwrap();
    terminal.advance(b"ok");
    let status = ExitStatus { code: None, signal: Some("Killed".to_string()) };
    let sample = Sample {
        screen: terminal.screen(),
        exited: Some(&status),
        elapsed: Duration::from_millis(1),
    };
    assert!(matches!(
        expect(terminal.screen().get_by_text("ok")).to_be_visible(&sample),
        WaitStep::Passed
    ));
    assert_eq!(
        error_of(expect(terminal.screen().get_by_text("no")).to_be_visible(&sample)).message(),
        "process exited while waiting: signal Killed; expected locator \
         Literal { text: \"no\", exact: false } to be visible"
    );
    assert_eq!(
        error_of(expect(terminal.screen()).to_contain_text("no", &sample)).message(),
        "process exited while waiting: signal Killed"
    );
}

#[test]
fn process_assertions_judge_the_end() {
    let process = ttry::process::PtyProcess::spawn(
        ttry::PtyOptions::new(b"app".to_vec(), None),
        Ok(b"/".to_vec()),
    )
    .unwrap()
    .0;
    let assertion = expect(&process);
    let none: Vec<String> = Vec::new();
    let zero = Duration::from_secs(0);
    assert!(assertion.to_be_running(&ProcessState::Running).is_ok());
    assert_eq!(
        assertion
            .to_be_running(&ProcessState::Exited(exit(-3)))
            .unwrap_err()
            .message(),
        "process exited while waiting: expected running, got exit code -3"
    );
    let ended = ProcessState::Exited(exit(7));
    assert!(matches!(assertion.to_have_exited(&ended, &none, zero), WaitStep::Passed));
    assert!(matches!(
        assertion.to_have_exited_with_code(7, &ended, &none, zero),
        WaitStep::Passed
    ));
    assert_eq!(
        error_of(assertion.to_have_exited_with_code(0, &ended, &none, zero)).message(),
        "process exited while waiting: expected exit code 0, got exit code 7"
    );
    assert!(matches!(
        assertion.to_have_exited(&ProcessState::Running, &none, zero),
        WaitStep::Wait(pause) if pause == Duration::from_millis(10)
    ));
    let events = vec!["process launched".to_string(), "a\"b".to_string()];
    assert_eq!(
        error_of(assertion.to_have_exited(
            &ProcessState::Running,
            &events,
            Duration::from_secs(5)
        ))
        .message(),
        "operation timed out after 5s: waiting for process exit; \
         recent events: [\"process launched\", \"a\\\"b\"]"
    );
    assert!(assertion.timeout(zero).to_be_running(&ProcessState::Running).is_err());
}
