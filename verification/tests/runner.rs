use ttry::runner::{
    combine_test_and_cleanup, first_error, panic_error, LateOutcome, Run, WorkerOutcome,
};
use ttry::{Duration, Error, Reporter, RunReport, Runner, TestCase, TestContext, TestStatus};

fn finished(body: ttry::Result<()>) -> WorkerOutcome {
    WorkerOutcome::Finished { body, cleanup: Ok(()) }
}

/// Runs every test that is started with the given outcome.
fn run_all(mut run: Run, mut outcome: impl FnMut(usize) -> WorkerOutcome) -> RunReport {
    while let Some(assignment) = run.next() {
        let result = outcome(assignment.index);
        run.record(result, Duration::from_millis(3));
    }
    run.report(Reporter::List)
}

fn message_of(report: &RunReport, index: usize) -> String {
    match &report.tests[index].status {
        TestStatus::Failed(message) => message.clone(),
        other => panic!("not a failure: {:?}", other),
    }
}

#[test]
fn registration_focus_skip_and_cleanup_are_deterministic() {
    let mut runner = Runner::new(Duration::from_secs(1));
    runner.register(TestCase::new("ignored").skip());
    runner.register(TestCase::new("focused").describe("group").focus());
    runner.register(TestCase::new("not focused"));
    let report = run_all(runner.run(None), |_| finished(Ok(())));
    assert_eq!((report.passed, report.failed, report.skipped), (1, 0, 2));
    assert_eq!(report.tests[1].name, "group › focused");
    assert_eq!(report.selected, 1);
    assert!(report.success());
}

#[test]
fn empty_or_unmatched_test_selection_is_not_successful() {
    let report = run_all(Runner::new(Duration::from_secs(1)).run(None), |_| finished(Ok(())));
    assert!(!report.success());

    let mut runner = Runner::new(Duration::from_secs(1));
    runner.register(TestCase::new("present"));
    let report = run_all(runner.run(Some("missing")), |_| finished(Ok(())));
    assert_eq!(report.selected, 0);
    assert!(!report.success());
}

#[test]
fn grep_matches_the_full_name() {
    let mut runner = Runner::new(Duration::from_secs(1));
    runner.register(TestCase::new("one").describe("alpha"));
    runner.register(TestCase::new("two").describe("beta"));
    let report = run_all(runner.run(Some("a › t")), |_| finished(Ok(())));
    assert_eq!((report.selected, report.passed, report.skipped), (1, 1, 1));
    assert_eq!(report.tests[0].status, TestStatus::Skipped);
    assert_eq!(report.tests[0].duration, Duration::from_secs(0));
    assert_eq!(report.tests[1].status, TestStatus::Passed);
    assert_eq!(report.tests[1].duration, Duration::from_millis(3));
}

#[test]
fn an_explicitly_skipped_only_suite_is_successful() {
    let mut runner = Runner::new(Duration::from_secs(1));
    runner.register(TestCase::new("not available here").skip());

    let report = run_all(runner.run(None), |_| finished(Ok(())));

    assert_eq!((report.selected, report.skipped, report.failed), (1, 1, 0));
    assert!(report.success());
}

#[test]
fn snapshot_update_mode_is_available_through_test_context() {
    let mut runner = Runner::new(Duration::from_secs(1)).update_snapshots(true);
    runner.register(TestCase::new("snapshot options"));
    let run = runner.run(None);
    let context = TestContext {
        cancelled: false,
        update_snapshots: run.updates_snapshots(),
    };
    assert!(context.snapshot_options(false).update);
    assert!(!context.snapshot_options(false).preserve_width);
    assert!(context.snapshot_options(true).preserve_width);
    assert!(run_all(run, |_| finished(Ok(()))).success());
}

#[test]
fn non_cooperative_timeout_skips_later_tests() {
    let mut runner = Runner::new(Duration::from_millis(20));
    runner.register(TestCase::new("slow"));
    runner.register(TestCase::new("next"));
    let mut reached_next_test = false;
    let report = run_all(runner.run(None), |index| {
        if index == 1 {
            reached_next_test = true;
        }
        WorkerOutcome::TimedOut { cleanup: Ok(()), late: LateOutcome::Ignored }
    });
    assert_eq!((report.passed, report.failed, report.skipped), (0, 1, 1));
    assert!(!reached_next_test);
    assert!(matches!(
        &report.tests[0].status,
        TestStatus::Failed(message)
            if message.contains("worker ignored cancellation")
                && message.contains("remaining tests were skipped")
    ));
    assert_eq!(
        message_of(&report, 0),
        "operation timed out after 20ms: test `slow` exceeded its timeout; \
         worker ignored cancellation; remaining tests were skipped"
    );
}

#[test]
fn per_test_timeout_overrides_runner_default() {
    let mut runner = Runner::new(Duration::from_secs(1));
    runner.register(TestCase::new("slow").timeout(Duration::from_millis(20)));
    let mut run = runner.run(None);
    let assignment = run.next().unwrap();
    assert_eq!(assignment.timeout, Duration::from_millis(20));
    assert_eq!(run.current_name(), "slow");
    run.record(
        WorkerOutcome::TimedOut { cleanup: Ok(()), late: LateOutcome::Vanished },
        Duration::from_millis(21),
    );
    assert!(run.next().is_none());
    let report = run.report(Reporter::Dot);
    assert_eq!(report.failed, 1);
    assert_eq!(report.reporter, Reporter::Dot);
    assert_eq!(
        message_of(&report, 0),
        "operation timed out after 20ms: test `slow` exceeded its timeout"
    );
}

#[test]
fn long_test_names_are_kept_in_reports_without_becoming_thread_names() {
    let name = "a".repeat(10_000);
    let mut runner = Runner::new(Duration::from_secs(1));
    runner.register(TestCase::new(&name));

    let report = run_all(runner.run(None), |_| finished(Ok(())));

    assert_eq!(report.passed, 1);
    assert_eq!(report.tests[0].name, name);
}

#[test]
fn typed_runner_rejects_invalid_timeouts_before_running_test_bodies() {
    let longest = Duration::new(u64::MAX, 999_999_999);
    let mut runner = Runner::new(Duration::from_secs(0));
    runner.register(TestCase::new("zero default"));
    let report = run_all(runner.run(None), |_| panic!("the body ran"));
    assert_eq!((report.passed, report.failed), (0, 1));
    assert!(message_of(&report, 0).contains("timeout must be greater than zero"));

    let mut runner = Runner::new(Duration::from_secs(1));
    runner.register(TestCase::new("zero override").timeout(Duration::from_secs(0)));
    assert_eq!(run_all(runner.run(None), |_| panic!("the body ran")).failed, 1);

    let mut runner = Runner::new(longest);
    runner.register(TestCase::new("excessive default"));
    let report = run_all(runner.run(None), |_| panic!("the body ran"));
    assert_eq!(report.failed, 1);
    assert!(message_of(&report, 0).contains("at most 24 hours"));

    let mut runner = Runner::new(Duration::from_secs(1));
    runner.register(TestCase::new("excessive override").timeout(longest));
    assert_eq!(run_all(runner.run(None), |_| panic!("the body ran")).failed, 1);

    let mut runner = Runner::new(Duration::from_secs(86_400));
    runner.register(TestCase::new("a day"));
    assert_eq!(run_all(runner.run(None), |_| finished(Ok(()))).passed, 1);
}

#[test]
fn timeout_preserves_a_cooperative_late_body_error() {
    let mut runner = Runner::new(Duration::from_millis(20));
    runner.register(TestCase::new("diagnostic"));
    let report = run_all(runner.run(None), |_| WorkerOutcome::TimedOut {
        cleanup: Err(Error::ProcessClosed),
        late: LateOutcome::Stopped(Err(Error::Runner(
            "specific assertion diagnostic".to_string(),
        ))),
    });
    assert!(matches!(
        &report.tests[0].status,
        TestStatus::Failed(message)
            if message.contains("timed out")
                && message.contains("worker stopped after cancellation")
                && message.contains("specific assertion diagnostic")
    ));
    assert_eq!(
        message_of(&report, 0),
        "operation timed out after 20ms: test `diagnostic` exceeded its timeout; \
         after cancellation: process is already closed; worker stopped after cancellation: \
         runner error: specific assertion diagnostic"
    );
}

#[test]
fn timeout_closes_a_session_to_unblock_the_test_body() {
    let mut runner = Runner::new(Duration::from_millis(500));
    runner.register(TestCase::new("blocked on TUI"));
    runner.register(TestCase::new("next"));
    let report = run_all(runner.run(None), |index| {
        if index == 0 {
            WorkerOutcome::TimedOut {
                cleanup: Ok(()),
                late: LateOutcome::Stopped(Ok(())),
            }
        } else {
            finished(Ok(()))
        }
    });
    assert_eq!(report.failed, 1);
    assert_eq!(report.passed, 1);
}

#[test]
fn test_body_can_observe_timeout_cancellation() {
    let context = TestContext { cancelled: true, update_snapshots: false };
    assert!(context.is_cancelled());
    assert_eq!(
        context.tui(false).unwrap_err().message(),
        "runner error: test was cancelled before launching a new TUI session"
    );
    assert_eq!(
        context.tui(true).unwrap_err().message(),
        "runner error: test was cancelled while launching a TUI session"
    );
    let mut runner = Runner::new(Duration::from_millis(20));
    runner.register(TestCase::new("cooperative"));
    let report = run_all(runner.run(None), |_| WorkerOutcome::TimedOut {
        cleanup: Ok(()),
        late: LateOutcome::Stopped(Ok(())),
    });
    assert_eq!(report.failed, 1);
    assert!(matches!(
        &report.tests[0].status,
        TestStatus::Failed(message)
            if message.contains("timed out")
                && message.contains("stopped cooperatively after timeout cancellation")
    ));
}

#[test]
fn panicking_test_is_reported_and_runner_continues() {
    let mut runner = Runner::new(Duration::from_secs(1));
    runner.register(TestCase::new("panic"));
    runner.register(TestCase::new("next"));
    let mut reached_next_test = false;
    let report = run_all(runner.run(None), |index| {
        if index == 0 {
            finished(Err(panic_error(Some("expected panic"))))
        } else {
            reached_next_test = true;
            finished(Ok(()))
        }
    });
    assert_eq!((report.passed, report.failed), (1, 1));
    assert!(matches!(
        &report.tests[0].status,
        TestStatus::Failed(message) if message.contains("expected panic")
    ));
    assert!(reached_next_test);
    assert_eq!(
        panic_error(None).message(),
        "runner error: test body panicked: unknown panic payload"
    );
}

#[test]
fn workers_that_vanish_or_never_start_are_failures() {
    let mut runner = Runner::new(Duration::from_secs(1));
    runner.register(TestCase::new("gone"));
    runner.register(TestCase::new("none"));
    let report = run_all(runner.run(None), |index| {
        if index == 0 {
            WorkerOutcome::Vanished { cleanup: Err(Error::ProcessClosed) }
        } else {
            WorkerOutcome::NotStarted("no threads".to_string())
        }
    });
    assert_eq!(
        message_of(&report, 0),
        "runner error: runner error: worker for test `gone` stopped unexpectedly; \
         cleanup also failed: process is already closed"
    );
    assert_eq!(
        message_of(&report, 1),
        "runner error: could not start worker for test `none`: no threads"
    );
}

#[test]
fn errors_of_the_test_and_of_the_cleanup_are_combined() {
    let body = || Err(Error::InvalidKey("x".to_string()));
    assert!(combine_test_and_cleanup(Ok(()), Ok(())).is_ok());
    assert!(matches!(
        combine_test_and_cleanup(Ok(()), Err(Error::ProcessClosed)),
        Err(Error::ProcessClosed)
    ));
    assert!(matches!(
        combine_test_and_cleanup(body(), Ok(())),
        Err(Error::InvalidKey(_))
    ));
    assert_eq!(
        combine_test_and_cleanup(body(), Err(Error::ProcessClosed))
            .unwrap_err()
            .message(),
        "runner error: invalid key expression `x`; \
         cleanup also failed: process is already closed"
    );
}

#[test]
fn the_first_error_of_a_cleanup_counts() {
    assert!(first_error(vec![Ok(()), Ok(())]).is_ok());
    assert!(matches!(
        first_error(vec![
            Ok(()),
            Err(Error::ProcessClosed),
            Ok(()),
            Err(Error::InvalidKey("x".to_string()))
        ]),
        Err(Error::ProcessClosed)
    ));
}

#[test]
fn dot_reporter_keeps_stdout_machine_stable() {
    let mut runner = Runner::new(Duration::from_secs(1));
    runner.register(TestCase::new("passes"));
    let report = run_all(runner.run(None), |_| finished(Ok(())));
    assert_eq!(report.exit_code(), 0);
    assert_eq!(report.dot_output(), ".\n");
    assert_eq!(
        report.dot_diagnostics(),
        "1 passed, 0 failed, 0 skipped\n"
    );
}

#[test]
fn reports_list_every_result() {
    let mut runner = Runner::new(Duration::from_secs(1));
    runner.register(TestCase::new("one"));
    runner.register(TestCase::new("two").skip());
    runner.register(TestCase::new("three"));
    let report = run_all(runner.run(None), |index| {
        if index == 0 {
            finished(Ok(()))
        } else {
            finished(Err(Error::Runner("a\nb".to_string())))
        }
    });
    assert_eq!(
        report.list_output(),
        "PASS one (3ms)\nSKIP two\nFAIL three\n  runner error: a\n  b\n\
         1 passed, 1 failed, 1 skipped\n"
    );
    assert_eq!(report.dot_output(), ".sF\n");
    assert_eq!(
        report.dot_diagnostics(),
        "FAIL three\n  runner error: a\n  b\n1 passed, 1 failed, 1 skipped\n"
    );
    assert_eq!(report.summary(), "1 passed, 1 failed, 1 skipped");
    assert_eq!(report.exit_code(), 1);
}

#[test]
fn reporters_are_named() {
    assert_eq!(Reporter::from_str("list"), Ok(Reporter::List));
    assert_eq!(Reporter::from_str("dot"), Ok(Reporter::Dot));
    assert_eq!(
        Reporter::from_str("quiet"),
        Err("unknown reporter `quiet`; expected `list` or `dot`".to_string())
    );
    assert_eq!(Reporter::default(), Reporter::List);
    assert!(!RunReport::default().success());
}

#[test]
fn each_test_has_the_status_of_its_own_worker() {
    let mut runner = Runner::new(Duration::from_secs(1));
    for name in ["fails", "passes", "is late", "passes too"] {
        runner.register(TestCase::new(name));
    }
    let report = run_all(runner.run(None), |index| match index {
        0 => finished(Err(Error::Runner("broken".into()))),
        2 => WorkerOutcome::TimedOut { cleanup: Ok(()), late: LateOutcome::Stopped(Ok(())) },
        _ => finished(Ok(())),
    });
    assert_eq!((report.passed, report.failed, report.skipped), (2, 2, 0));
    assert_eq!(message_of(&report, 0), "runner error: broken");
    assert_eq!(report.tests[1].status, TestStatus::Passed);
    assert!(message_of(&report, 2).contains("test `is late` exceeded its timeout"));
    assert_eq!(report.tests[3].status, TestStatus::Passed);
    assert_eq!(report.exit_code(), 1);
}
