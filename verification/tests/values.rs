use ttry::path::{has_directories, is_absolute, join, parent};
use ttry::screen::ChangeWait;
use ttry::{Duration, Error, Screen};

fn parent_of(path: &str) -> Option<String> {
    parent(&path.as_bytes().to_vec()).map(|parent| String::from_utf8(parent).unwrap())
}

#[test]
fn parents_drop_the_last_component() {
    let cases = [
        "/a/b/c", "/a", "/", "", "a", "a/", "a/b", "./a", "a/./b", "a//b", "/a/.", "//a", "a/..",
        ".", "..", "./.", "/a/b/", "/./a", ".a", "a/.b", "a.", "/.", "a/b.", "a/./", "./",
    ];
    for path in cases {
        let expected = std::path::Path::new(path)
            .parent()
            .map(|parent| parent.to_str().unwrap().to_string());
        assert_eq!(parent_of(path), expected, "{:?}", path);
        if !path.starts_with('/') {
            assert_eq!(
                has_directories(&path.as_bytes().to_vec()),
                std::path::Path::new(path).components().count() > 1,
                "{:?}",
                path
            );
        }
        for base in ["/base", "base/", "", "/"] {
            let joined = join(&base.as_bytes().to_vec(), &path.as_bytes().to_vec());
            assert_eq!(
                String::from_utf8(joined).unwrap(),
                std::path::Path::new(base).join(path).to_str().unwrap(),
                "{:?} {:?}",
                base,
                path
            );
        }
        assert_eq!(
            is_absolute(&path.as_bytes().to_vec()),
            std::path::Path::new(path).is_absolute()
        );
    }
}

#[test]
fn spans_are_counted_in_nanoseconds() {
    let span = Duration::new(1, 500_000_000);
    assert_eq!(span, Duration::from_millis(1_500));
    assert_eq!((span.as_secs(), span.subsec_nanos()), (1, 500_000_000));
    assert_eq!(span.text(), "1.5s");
    assert_eq!(Duration::from_millis(20).text(), "20ms");
    assert_eq!(Duration::new(0, 7).text(), "7ns");
    assert_eq!(Duration::new(u64::MAX, u32::MAX), Duration::new(u64::MAX, 999_999_999));
    assert_eq!(Duration::from_secs(2).saturating_sub(span), Duration::from_millis(500));
    assert!(span.saturating_sub(Duration::from_secs(2)).is_zero());
    assert_eq!(span.third(), Duration::from_millis(500));
    assert_eq!(span.shorter(Duration::from_secs(1)), Duration::from_secs(1));
    assert!(span.at_least(span) && !span.at_least(Duration::from_secs(2)));
}

#[test]
fn waiting_for_a_change_ends_with_one() {
    let mut screen = Screen::new(2, 2).unwrap();
    let timeout = Duration::from_millis(30);
    assert_eq!(
        screen.wait_for_change(0, timeout, Duration::from_millis(10)),
        ChangeWait::Wait(Duration::from_millis(20))
    );
    assert_eq!(
        screen.wait_for_change(0, timeout, Duration::from_millis(30)),
        ChangeWait::TimedOut
    );
    screen.notify();
    assert_eq!(
        screen.wait_for_change(0, timeout, Duration::from_millis(99)),
        ChangeWait::Changed
    );
    assert_eq!(
        screen.wait_for_change(1, timeout, Duration::from_millis(0)),
        ChangeWait::Wait(timeout)
    );
}

#[test]
fn messages_are_exact() {
    let cases = [
        (
            Error::InvalidDimensions { cols: 0, rows: 3 },
            "invalid terminal dimensions 0x3; both values must be greater than zero",
        ),
        (
            Error::OutOfBounds { col: 9, row: 8, cols: 7, rows: 65535 },
            "terminal coordinate (9, 8) is outside the 7x65535 screen",
        ),
        (Error::ProcessClosed, "process is already closed"),
        (
            Error::Launch { command: "a".to_string(), source: "b".to_string() },
            "failed to launch `a`: b",
        ),
        (
            Error::Config { path: "p".to_string(), message: "m".to_string() },
            "invalid configuration in p: m",
        ),
    ];
    for (error, expected) in cases {
        assert_eq!(error.message(), expected);
    }
}
