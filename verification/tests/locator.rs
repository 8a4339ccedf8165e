use ttry::{BoundingBox, Error, Rect, Terminal, TextMatcher};

#[test]
fn locator_is_dynamic_and_strict() {
    let mut terminal = Terminal::new(20, 2).unwrap();
    let locator = terminal.screen().get_by_text("ready");
    assert!(!locator.is_visible(terminal.screen()));
    terminal.advance(b"ready ready");
    assert_eq!(locator.count(terminal.screen()), 2);
    assert!(locator.text(terminal.screen()).is_err());
}

#[test]
fn strictness_reports_every_place() {
    let mut terminal = Terminal::new(12, 2).unwrap();
    terminal.advance("界ok\r\nok xok".as_bytes());
    let locator = terminal.screen().get_by_text("ok");
    let error = locator.bounding_box(terminal.screen()).unwrap_err();
    assert!(matches!(&error, Error::StrictLocator { count: 3, .. }));
    assert_eq!(
        error.message(),
        "strict locator matched 3 locations: (2, 0), (0, 1), (4, 1)"
    );
    let error = terminal.screen().get_by_text("no").text(terminal.screen()).unwrap_err();
    assert_eq!(error.message(), "strict locator matched 0 locations: ");
}

#[test]
fn empty_literal_does_not_match_every_cell_boundary() {
    let mut terminal = Terminal::new(5, 1).unwrap();
    terminal.advance(b"text");
    let screen = terminal.screen();
    assert_eq!(screen.get_by_text("").count(screen), 0);
    assert_eq!(screen.get_by_exact_text("").count(screen), 0);
}

#[test]
fn zero_width_regex_matches_are_not_visible() {
    let mut terminal = Terminal::new(5, 1).unwrap();
    terminal.advance(b"text");
    let screen = terminal.screen();
    assert_eq!(screen.get_by_regex("^").unwrap().count(screen), 0);
    assert_eq!(screen.get_by_regex(r"\b").unwrap().count(screen), 0);
}

#[test]
fn regex_bounds_use_display_columns() {
    let mut terminal = Terminal::new(20, 1).unwrap();
    terminal.advance("界test".as_bytes());
    let screen = terminal.screen();
    let bounds = screen
        .get_by_regex("test")
        .unwrap()
        .bounding_box(screen)
        .unwrap();
    assert_eq!((bounds.col, bounds.width), (2, 4));
}

#[test]
fn regex_finds_every_visible_match() {
    let mut terminal = Terminal::new(20, 2).unwrap();
    terminal.advance("a1 bb22\r\n界333".as_bytes());
    let screen = terminal.screen();
    let digits = screen.get_by_regex("[0-9]*").unwrap();
    let found = digits.matches(screen);
    let texts: Vec<&str> = found.iter().map(|found| found.0.as_str()).collect();
    assert_eq!(texts, vec!["1", "22", "333"]);
    assert_eq!(found[1].1, BoundingBox { col: 5, row: 0, width: 2, height: 1 });
    assert_eq!(found[2].1, BoundingBox { col: 2, row: 1, width: 3, height: 1 });
    assert!(screen.get_by_regex("(").is_err());
    assert_eq!(digits.describe(), "Regex(Regex(\"[0-9]*\"))");
}

#[test]
fn literal_matches_do_not_overlap() {
    let mut terminal = Terminal::new(20, 1).unwrap();
    terminal.advance(b"aaaaa");
    let screen = terminal.screen();
    let found = screen.get_by_text("aa").matches(screen);
    let columns: Vec<u16> = found.iter().map(|found| found.1.col).collect();
    assert_eq!(columns, vec![0, 2]);
    assert_eq!(screen.get_by_text("aaaaaa").count(screen), 0);
}

#[test]
fn exact_text_is_a_whole_row() {
    let mut terminal = Terminal::new(8, 3).unwrap();
    terminal.advance("ok\r\nok!\r\n 界".as_bytes());
    let screen = terminal.screen();
    let exact = screen.get_by_exact_text("ok");
    assert_eq!(exact.text(screen).unwrap(), "ok");
    assert_eq!(
        exact.bounding_box(screen).unwrap(),
        BoundingBox { col: 0, row: 0, width: 2, height: 1 }
    );
    let wide = screen.get_by_exact_text(" 界");
    assert_eq!(wide.bounding_box(screen).unwrap().width, 3);
    assert_eq!(exact.describe(), "Literal { text: \"ok\", exact: true }");
    assert_eq!(
        TextMatcher::literal("a\"b").describe(),
        "Literal { text: \"a\\\"b\", exact: false }"
    );
}

#[test]
fn locators_of_a_region_see_only_the_region() {
    let mut terminal = Terminal::new(10, 2).unwrap();
    terminal.advance(b"ready ok\r\nready");
    let screen = terminal.screen();
    let region = screen.region(Rect::new(6, 0, 4, 1)).unwrap();
    assert_eq!(region.get_by_text("ready").count(screen), 0);
    let found = region.get_by_exact_text("ok");
    assert_eq!(found.bounding_box(screen).unwrap().col, 0);
    assert_eq!(region.get_by_regex("o.").unwrap().count(screen), 1);
    assert_eq!(found.seen(screen), "ok");
}
