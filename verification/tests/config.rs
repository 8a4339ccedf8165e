use ttry::configured::{
    parse_positive_timeout, stays_alive, AliveStep, BodyAction, BodyStage, ConfiguredBody,
    ConfiguredRun, ExitCheck,
};
use ttry::runner::{Run, WorkerOutcome};
use ttry::{
    run_config, Config, ConfiguredTest, Duration, Error, ExitStatus, LaunchOptions, ProcessState,
    Reporter, RunOptions, TestResult, TestStatus, MAX_TIMEOUT_MS,
};

fn case(name: &str, command: &str) -> ConfiguredTest {
    ConfiguredTest {
        name: name.to_string(),
        command: command.to_string(),
        ..ConfiguredTest::default()
    }
}

fn load(test: ConfiguredTest) -> ttry::Result<Config> {
    let config = Config { tests: vec![test], ..Config::default() };
    config.load(&b"/suite/ttry.toml".to_vec(), Ok(b"/".to_vec()))
}

fn message_of(result: ttry::Result<Config>) -> String {
    match result {
        Err(Error::Config { message, path }) => {
            assert_eq!(path, "/suite/ttry.toml");
            message
        }
        other => panic!("not a configuration error: {:?}", other),
    }
}

fn ready(config: Config, options: RunOptions) -> (Run, Vec<ConfiguredBody>, Reporter) {
    match run_config(config, options) {
        ConfiguredRun::Ready { run, bodies, reporter } => (run, bodies, reporter),
        ConfiguredRun::Refused(report) => panic!("refused: {:?}", report),
    }
}

fn body_of(test: ConfiguredTest, timeout_ms: u64) -> ConfiguredBody {
    let config = Config { timeout_ms, tests: vec![test], ..Config::default() };
    let (_, mut bodies, _) = ready(config, RunOptions::default());
    bodies.remove(0)
}

fn ms(millis: u64) -> Duration {
    Duration::from_millis(millis)
}

fn exited(code: i32) -> ProcessState {
    ProcessState::Exited(ExitStatus { code: Some(code), signal: None })
}

fn launch_of(body: &ConfiguredBody) -> LaunchOptions {
    match body.next(BodyStage::Start, ms(0), Some(b"/here".to_vec())) {
        Ok((BodyAction::Launch(options), BodyStage::Launched)) => options,
        other => panic!("no launch: {:?}", other),
    }
}

#[test]
fn invalid_config_is_readable() {
    let config = Config { timeout_ms: 0, ..Config::default() };
    assert!(matches!(
        config.load(&b"/suite/ttry.toml".to_vec(), Ok(b"/".to_vec())),
        Err(Error::Config { .. })
    ));
    let config = Config { timeout_ms: 0, ..Config::default() };
    assert_eq!(
        config
            .load(&b"ttry.toml".to_vec(), Err("no directory".to_string()))
            .unwrap_err()
            .message(),
        "invalid configuration in ttry.toml: no directory"
    );
}

#[test]
fn empty_names_and_commands_are_rejected() {
    for (name, command) in [("", "app"), ("\t ", "app"), ("case", ""), ("case", " \u{3000}")] {
        assert_eq!(
            message_of(load(case(name, command))),
            "every [[tests]] entry requires non-empty name and command"
        );
    }
}

#[test]
fn zero_allow_running_grace_is_rejected() {
    let test = ConfiguredTest {
        allow_running: true,
        allow_running_grace_ms: Some(0),
        ..case("interactive", "app")
    };
    let message = message_of(load(test));
    assert!(message.contains("allow_running_grace_ms") && message.contains("greater than zero"));
}

#[test]
fn zero_configured_shutdown_timeout_is_rejected() {
    let test = ConfiguredTest { shutdown_timeout_ms: Some(0), ..case("case", "app") };
    let message = message_of(load(test));
    assert!(message.contains("shutdown_timeout_ms") && message.contains("greater than zero"));
}

#[test]
fn run_config_centralizes_reporter_override_resolution() {
    let config = || Config { reporter: Reporter::Dot, ..Config::default() };
    assert_eq!(ready(config(), RunOptions::default()).2, Reporter::Dot);
    assert_eq!(
        ready(
            config(),
            RunOptions { reporter: Some(Reporter::List), ..RunOptions::default() }
        )
        .2,
        Reporter::List
    );
}

#[test]
fn zero_per_test_timeout_is_rejected() {
    let test = ConfiguredTest { timeout_ms: Some(0), ..case("case", "true") };
    assert_eq!(
        message_of(load(test)),
        "timeout_ms for test `case` must be greater than zero and at most 86400000"
    );
}

#[test]
fn excessive_configured_timeout_is_rejected() {
    let config = Config { timeout_ms: MAX_TIMEOUT_MS + 1, ..Config::default() };
    let result = config.load(&b"/suite/ttry.toml".to_vec(), Ok(b"/".to_vec()));
    assert!(message_of(result).contains("at most"));
    let config = Config { timeout_ms: MAX_TIMEOUT_MS, ..Config::default() };
    assert!(config.load(&b"/suite/ttry.toml".to_vec(), Ok(b"/".to_vec())).is_ok());
}

#[test]
fn empty_expected_text_is_rejected() {
    let test = ConfiguredTest { expect_text: Some(String::new()), ..case("case", "true") };
    assert_eq!(message_of(load(test)), "expect_text for test `case` must not be empty");
}

#[test]
fn contradicting_exit_expectations_are_rejected() {
    let expected = "allow_running cannot be combined with expect_exit or expect_exit_code \
                    for test `case`";
    let test = ConfiguredTest { allow_running: true, expect_exit: true, ..case("case", "true") };
    assert_eq!(message_of(load(test)), expected);
    let test = ConfiguredTest {
        allow_running: true,
        expect_exit_code: Some(0),
        ..case("case", "true")
    };
    assert_eq!(message_of(load(test)), expected);
}

#[test]
fn legacy_config_without_allow_running_uses_the_safe_default() {
    let config = load(case("legacy", "true")).unwrap();
    assert!(!config.tests[0].allow_running);
}

#[test]
fn loaded_config_resolves_cwd_without_rewriting_commands() {
    let config = Config {
        tests: vec![
            case("default cwd", "true"),
            ConfiguredTest { cwd: Some(b"fixtures".to_vec()), ..case("relative cwd", "./tool") },
            ConfiguredTest { cwd: Some(b"/abs".to_vec()), ..case("absolute cwd", "x") },
        ],
        ..Config::default()
    };
    let config = config
        .load(&b"suite/ttry.toml".to_vec(), Ok(b"/tmp/work".to_vec()))
        .unwrap();
    assert_eq!(config.tests[0].cwd.as_deref(), Some(b"/tmp/work/suite".as_slice()));
    assert_eq!(
        config.tests[1].cwd.as_deref(),
        Some(b"/tmp/work/suite/fixtures".as_slice())
    );
    assert_eq!(config.tests[1].command, "./tool");
    assert_eq!(config.tests[2].cwd.as_deref(), Some(b"/abs".as_slice()));
}

#[test]
fn zero_configured_dimensions_are_rejected() {
    let test = ConfiguredTest { cols: Some(0), rows: Some(24), ..case("case", "true") };
    assert_eq!(
        message_of(load(test)),
        "invalid dimensions for test `case`: invalid terminal dimensions 0x24; \
         both values must be greater than zero"
    );
    let test = ConfiguredTest { cols: Some(50_000), ..case("case", "true") };
    assert_eq!(
        message_of(load(test)),
        "invalid dimensions for test `case`: terminal dimensions 50000x24 \
         exceed the limit of 1000000 cells"
    );
}

#[test]
fn configured_dimensions_reach_the_child_environment() {
    let test = ConfiguredTest {
        args: vec!["-c".to_string(), "true".to_string()],
        cols: Some(100),
        rows: Some(30),
        expect_text: Some("SIZE=100x30".to_string()),
        expect_exit_code: Some(0),
        ..case("custom size", "/bin/sh")
    };
    let options = launch_of(&body_of(test, 1_000));
    assert_eq!(options.args, vec![b"-c".to_vec(), b"true".to_vec()]);
    let (_, plan) = ttry::TuiSession::launch(options, Ok(b"/".to_vec())).unwrap();
    assert_eq!((plan.cols, plan.rows), (100, 30));
    assert_eq!(
        plan.env,
        vec![
            (b"TERM".to_vec(), b"xterm-256color".to_vec()),
            (b"COLUMNS".to_vec(), b"100".to_vec()),
            (b"LINES".to_vec(), b"30".to_vec()),
        ]
    );
    assert_eq!(plan.cwd, Some(b"/here".to_vec()));
}

#[test]
fn configured_test_can_explicitly_require_exit_without_a_code() {
    let test = ConfiguredTest { expect_exit: true, ..case("hang", "/bin/sh") };
    let body = body_of(test, 40);
    assert!(matches!(
        body.next(BodyStage::Launched, ms(1), None),
        Ok((BodyAction::WaitForExit(None), BodyStage::Seen))
    ));
    assert!(matches!(
        body.expect_configured_exit(None, &ProcessState::Running, ms(30)),
        ExitCheck::Wait(left) if left == ms(10)
    ));
    assert!(matches!(
        body.expect_configured_exit(None, &ProcessState::Running, ms(40)),
        ExitCheck::Failed(error) if error.message().contains("timed out")
    ));
}

#[test]
fn configured_text_check_can_pass_while_tui_remains_running() {
    let test = ConfiguredTest {
        expect_text: Some("READY".to_string()),
        allow_running: true,
        ..case("long-running tui", "/bin/sh")
    };
    let body = body_of(test, 1_000);
    assert!(matches!(
        body.next(BodyStage::Launched, ms(100), None),
        Ok((BodyAction::WaitForText { text, timeout }, BodyStage::Seen))
            if text == "READY" && timeout == ms(900)
    ));
    let grace = match body.next(BodyStage::Seen, ms(200), None) {
        Ok((BodyAction::StayAlive(grace), BodyStage::Seen)) => grace,
        other => panic!("no grace: {:?}", other),
    };
    assert_eq!(grace, ms(50));
    assert!(matches!(
        stays_alive(&ProcessState::Running, ms(10), grace),
        AliveStep::Sleep(pause) if pause == ms(1)
    ));
    assert!(matches!(
        stays_alive(&ProcessState::Running, ms(50), grace),
        AliveStep::Passed
    ));
}

#[test]
fn allow_running_rejects_a_nonzero_exit_observed_after_the_text_check() {
    assert!(matches!(
        stays_alive(&exited(7), ms(0), ms(50)),
        AliveStep::Failed(error) if error.message().contains("exit code 7")
    ));
}

#[test]
fn allow_running_rejects_a_clean_exit_after_the_text_check() {
    assert!(matches!(
        stays_alive(&exited(0), ms(60), ms(50)),
        AliveStep::Failed(error)
            if error.message().contains("exit code 0") && error.message().contains("remain alive")
    ));
    let test = ConfiguredTest { allow_running: true, ..case("early clean exit", "/bin/sh") };
    let error = body_of(test, 1_000)
        .text_error(Error::ProcessExited("exit code 0".to_string()));
    assert_eq!(
        error.message(),
        "process exited while waiting: exit code 0; \
         allow_running requires the process to remain alive"
    );
    let error = body_of(case("other", "x"), 1_000)
        .text_error(Error::ProcessExited("exit code 0".to_string()));
    assert_eq!(error.message(), "process exited while waiting: exit code 0");
}

#[test]
fn allow_running_catches_a_crash_just_after_the_text_check() {
    assert!(matches!(
        stays_alive(&ProcessState::Running, ms(19), ms(50)),
        AliveStep::Sleep(_)
    ));
    assert!(matches!(
        stays_alive(&exited(9), ms(20), ms(50)),
        AliveStep::Failed(error) if error.message().contains("exit code 9")
    ));
}

#[test]
fn configurable_allow_running_grace_catches_a_later_crash() {
    let test = ConfiguredTest {
        allow_running: true,
        allow_running_grace_ms: Some(500),
        ..case("later asynchronous crash", "/bin/sh")
    };
    let body = body_of(test, 1_000);
    let grace = match body.next(BodyStage::Seen, ms(0), None) {
        Ok((BodyAction::StayAlive(grace), _)) => grace,
        other => panic!("no grace: {:?}", other),
    };
    assert_eq!(grace, ms(500));
    assert!(matches!(
        stays_alive(&exited(11), ms(80), grace),
        AliveStep::Failed(error) if error.message().contains("exit code 11")
    ));
    assert!(matches!(
        body.next(BodyStage::Seen, ms(700), None),
        Ok((BodyAction::StayAlive(grace), _)) if grace == ms(300)
    ));
}

#[test]
fn configured_text_check_rejects_a_later_nonzero_exit_by_default() {
    let test = ConfiguredTest {
        expect_text: Some("READY".to_string()),
        ..case("crashing command", "/bin/sh")
    };
    let body = body_of(test, 1_000);
    assert!(matches!(
        body.next(BodyStage::Seen, ms(5), None),
        Ok((BodyAction::WaitForExit(Some(0)), BodyStage::Seen))
    ));
    assert!(matches!(
        body.expect_configured_exit(Some(0), &exited(7), ms(5)),
        ExitCheck::Failed(error) if error.message().contains("exit code 7")
    ));
}

#[test]
fn configured_exit_samples_an_exited_process_after_the_deadline() {
    let body = body_of(case("regression test", "/bin/sh"), 10);
    assert!(matches!(
        body.expect_configured_exit(Some(0), &exited(0), ms(10)),
        ExitCheck::Passed
    ));
}

#[test]
fn configured_steps_come_in_their_order() {
    let test = ConfiguredTest {
        input: Some("go\n".to_string()),
        expect_text: Some("READY".to_string()),
        shutdown_timeout_ms: Some(250),
        cwd: Some(b"/suite".to_vec()),
        ..case("steps", "./app")
    };
    let body = body_of(test, 1_000);
    let options = launch_of(&body);
    assert_eq!(options.command, b"./app".to_vec());
    assert_eq!(options.cwd, Some(b"/suite".to_vec()));
    assert_eq!(options.startup_timeout, ms(1_000));
    assert_eq!(options.shutdown_timeout, ms(250));
    assert_eq!((options.cols, options.rows), (80, 24));
    assert!(matches!(
        body.next(BodyStage::Launched, ms(999_999), None),
        Ok((BodyAction::Paste(input), BodyStage::Typed)) if input == "go\n"
    ));
    assert!(matches!(
        body.next(BodyStage::Typed, ms(400), None),
        Ok((BodyAction::WaitForText { timeout, .. }, BodyStage::Seen)) if timeout == ms(600)
    ));
    assert_eq!(
        body.next(BodyStage::Typed, ms(1_000), None).unwrap_err().message(),
        "operation timed out after 1s: running configured test `steps`"
    );
    assert!(body.next(BodyStage::Start, ms(1_000), None).is_err());
}

#[test]
fn run_config_rejects_invalid_programmatic_timeout() {
    let config = Config { tests: vec![case("must not run", "unused")], ..Config::default() };
    let options = RunOptions {
        timeout: Some(Duration::new(u64::MAX, 999_999_999)),
        ..RunOptions::default()
    };
    let report = match run_config(config, options) {
        ConfiguredRun::Refused(report) => report,
        ConfiguredRun::Ready { .. } => panic!("accepted"),
    };

    assert_eq!((report.selected, report.failed), (1, 1));
    assert!(matches!(
        &report.tests[0],
        TestResult { name, status: TestStatus::Failed(message), .. }
            if name == "configuration" && message.contains("at most 24 hours")
    ));
}

#[test]
fn configured_per_test_timeout_overrides_cli_suite_timeout() {
    let config = Config {
        timeout_ms: 1_000,
        tests: vec![
            ConfiguredTest { timeout_ms: Some(300), ..case("per-test timeout", "/bin/sh") },
            case("suite timeout", "/bin/sh"),
        ],
        ..Config::default()
    };
    let options = RunOptions { timeout: Some(ms(20)), ..RunOptions::default() };
    let (mut run, bodies, _) = ready(config, options);
    assert_eq!(bodies.len(), 2);
    let passed = || WorkerOutcome::Finished { body: Ok(()), cleanup: Ok(()) };
    assert_eq!(run.next().unwrap().timeout, ms(300));
    run.record(passed(), ms(80));
    assert_eq!(run.next().unwrap().timeout, ms(20));
    run.record(passed(), ms(8));
    assert!(run.next().is_none());
    let report = run.report(Reporter::List);
    assert_eq!((report.passed, report.failed), (2, 0));
}

#[test]
fn configured_cases_keep_group_skip_and_focus() {
    let config = Config {
        tests: vec![
            ConfiguredTest { focus: true, group: Some("g".to_string()), ..case("a", "x") },
            ConfiguredTest { focus: true, skip: true, ..case("b", "x") },
            case("c", "x"),
        ],
        ..Config::default()
    };
    let (mut run, _, _) = ready(config, RunOptions::default());
    assert_eq!(run.next().unwrap().index, 0);
    assert_eq!(run.current_name(), "g › a");
    run.record(WorkerOutcome::Finished { body: Ok(()), cleanup: Ok(()) }, ms(1));
    assert!(run.next().is_none());
    let report = run.report(Reporter::List);
    assert_eq!((report.selected, report.passed, report.skipped), (2, 1, 2));
}

#[test]
fn cli_timeouts_are_milliseconds() {
    assert_eq!(parse_positive_timeout("250"), Ok(250));
    assert_eq!(parse_positive_timeout("+007"), Ok(7));
    assert_eq!(parse_positive_timeout("86400000"), Ok(MAX_TIMEOUT_MS));
    for refused in ["0", "86400001", "18446744073709551615"] {
        assert_eq!(
            parse_positive_timeout(refused),
            Err("timeout must be between 1 and 86400000 milliseconds".to_string())
        );
    }
    for malformed in ["", "+", "++1", "-1", "1s", " 1", "18446744073709551616"] {
        assert_eq!(
            parse_positive_timeout(malformed),
            Err(format!("invalid timeout `{}`; expected milliseconds", malformed))
        );
    }
}
