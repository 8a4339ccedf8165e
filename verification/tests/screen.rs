use ttry::{Cell, Color, Error, Rect, Screen, Style, Terminal, MAX_SCREEN_CELLS};

#[test]
fn blank_screen_and_bounds() {
    let screen = Screen::new(3, 2).unwrap();
    assert_eq!(screen.fixed_text(), "   \n   ");
    assert_eq!(screen.cell(0, 0).unwrap(), Cell::default());
    assert!(screen.cell(3, 0).is_none());
    assert!(screen.cell(0, 2).is_none());
    assert_eq!(screen.dimensions(), (3, 2));
    assert_eq!(screen.text(), "\n");
}

#[test]
fn excessive_screen_area_is_rejected_before_allocation() {
    assert!(matches!(
        Screen::new(u16::MAX, u16::MAX),
        Err(Error::ScreenTooLarge {
            max_cells: MAX_SCREEN_CELLS,
            ..
        })
    ));
    let mut screen = Screen::new(80, 24).unwrap();
    assert!(matches!(
        screen.resize(u16::MAX, u16::MAX),
        Err(Error::ScreenTooLarge { .. })
    ));
    assert_eq!(screen.dimensions(), (80, 24));
    assert_eq!(screen.version(), 0);
}

#[test]
fn screen_limits_are_exact() {
    assert!(Screen::new(1000, 1000).is_ok());
    assert!(matches!(
        Screen::new(1001, 1000),
        Err(Error::ScreenTooLarge { cols: 1001, rows: 1000, max_cells: 1_000_000 })
    ));
    assert!(matches!(
        Screen::new(0, 5),
        Err(Error::InvalidDimensions { cols: 0, rows: 5 })
    ));
    assert!(matches!(
        Screen::new(5, 0),
        Err(Error::InvalidDimensions { cols: 5, rows: 0 })
    ));
}

#[test]
fn chunked_and_combined_input_match() {
    let mut combined = Terminal::new(10, 2).unwrap();
    combined.advance("héllo\n世界".as_bytes());
    let mut chunked = Terminal::new(10, 2).unwrap();
    for byte in "héllo\n世界".as_bytes() {
        chunked.advance(&[*byte]);
    }
    assert_eq!(
        combined.screen().fixed_text(),
        chunked.screen().fixed_text()
    );
}

fn text_of_chunks(bytes: &[u8], size: usize) -> String {
    let mut terminal = Terminal::new(24, 6).unwrap();
    for chunk in bytes.chunks(size) {
        terminal.advance(chunk);
    }
    terminal.screen().fixed_text()
}

#[test]
fn every_way_of_chunking_draws_the_same() {
    let mut bytes: Vec<u8> = Vec::new();
    bytes.extend_from_slice("añb界c€d\u{1f600}\r\n".as_bytes());
    // A two-byte character, a letter and another two-byte character.
    bytes.extend_from_slice("éAé\u{1b}[1mBé".as_bytes());
    // A C1 control in two bytes, bytes that are no UTF-8, and two lead bytes.
    bytes.extend_from_slice(&[0xc2, 0x85, b'x', 0xc3, 0xc3, b'y', 0xff, 0xe4, 0xb8, b'z', 0xf0]);
    bytes.extend_from_slice(b"\x1b]0;t\xc3\xa9tle\x07\x1b[2;3Hend");
    let whole = text_of_chunks(&bytes, bytes.len());
    for size in 1..bytes.len() {
        assert_eq!(text_of_chunks(&bytes, size), whole, "chunks of {}", size);
    }
    for at in 0..bytes.len() {
        let mut terminal = Terminal::new(24, 6).unwrap();
        terminal.advance(&bytes[..at]);
        terminal.advance(&bytes[at..]);
        assert_eq!(terminal.screen().fixed_text(), whole, "cut at {}", at);
    }
}

#[test]
fn a_letter_between_two_split_characters_is_kept() {
    let mut terminal = Terminal::new(4, 1).unwrap();
    terminal.advance(&[0xc3]);
    terminal.advance(&[0xa9, b'A', 0xc3]);
    terminal.advance(&[0xa9]);
    assert_eq!(terminal.screen().fixed_text(), "éAé ");
}

#[test]
fn cursor_erase_style_and_alternate_screen() {
    let mut terminal = Terminal::new(8, 2).unwrap();
    terminal.advance(b"primary\x1b[?1049h\x1b[31;1mred\x1b[0m");
    assert_eq!(
        terminal.screen().cell(0, 0).unwrap().style.foreground,
        Color::Indexed(1)
    );
    assert!(terminal.screen().cell(0, 0).unwrap().style.bold);
    terminal.advance(b"\x1b[2Jx\x1b[?1049l");
    assert!(terminal.screen().text().starts_with("primary"));
}

#[test]
fn repeated_alternate_screen_enable_preserves_existing_contents() {
    let mut terminal = Terminal::new(8, 2).unwrap();
    terminal.advance(b"primary\x1b[?1049halt\x1b[?1049h");

    assert!(terminal.screen().text().starts_with("alt"));

    terminal.advance(b"\x1b[?1049l");
    assert!(terminal.screen().text().starts_with("primary"));
}

#[test]
fn leaving_the_alternate_screen_brings_the_cursor_back() {
    let mut terminal = Terminal::new(8, 2).unwrap();
    terminal.advance(b"ab\x1b[?1049h\x1b[2;5Hzz\x1bc\x1b[?1049lc");
    assert_eq!(terminal.screen().fixed_text(), "abc     \n        ");
    let version = terminal.screen().version();
    terminal.advance(b"\x1b[?1049l");
    assert_eq!(terminal.screen().version(), version);
}

#[test]
fn erase_uses_the_active_style_for_blank_cells() {
    let mut terminal = Terminal::new(3, 1).unwrap();
    terminal.advance(b"abc\r\x1b[44;1m\x1b[2K");
    for col in 0..3 {
        let cell = terminal.screen().cell(col, 0).unwrap();
        assert_eq!(cell.text, " ");
        assert_eq!(cell.style.background, Color::Indexed(4));
        assert!(cell.style.bold);
    }
}

#[test]
fn bare_line_feed_preserves_the_cursor_column() {
    let mut terminal = Terminal::new(6, 2).unwrap();
    terminal.advance(b"ab\ncd");
    assert_eq!(terminal.screen().fixed_text(), "ab    \n  cd  ");
    terminal.advance(b"\rX");
    assert_eq!(terminal.screen().fixed_text(), "ab    \nX cd  ");
}

#[test]
fn malformed_extended_colors_are_ignored_without_wrapping() {
    let mut terminal = Terminal::new(4, 1).unwrap();
    terminal.advance(b"\x1b[38;5;999mX");
    assert_eq!(
        terminal.screen().cell(0, 0).unwrap().style.foreground,
        Color::Default
    );
    terminal.advance(b"\x1b[38;2;300;1;2mY");
    assert_eq!(
        terminal.screen().cell(1, 0).unwrap().style.foreground,
        Color::Default
    );
    terminal.advance(b"\x1b[38;5;255mZ");
    assert_eq!(
        terminal.screen().cell(2, 0).unwrap().style.foreground,
        Color::Indexed(255)
    );
}

#[test]
fn style_codes_select_and_reset() {
    let mut terminal = Terminal::new(12, 1).unwrap();
    terminal.advance(b"\x1b[1;3;4;7ma\x1b[22;23;24;27mb\x1b[95;103mc\x1b[38;2;1;2;3;48;5;9md");
    terminal.advance(b"\x1b[39;49me\x1b[38;5mf\x1b[1;mg");
    let style = |col: u16| terminal.screen().cell(col, 0).unwrap().style;
    assert!(style(0).bold && style(0).italic && style(0).underline && style(0).inverse);
    assert!(!style(1).bold && !style(1).italic && !style(1).underline && !style(1).inverse);
    assert_eq!(style(2).foreground, Color::Indexed(13));
    assert_eq!(style(2).background, Color::Indexed(11));
    assert_eq!(style(3).foreground, Color::Rgb(1, 2, 3));
    assert_eq!(style(3).background, Color::Indexed(9));
    assert_eq!(style(4).foreground, Color::Default);
    assert_eq!(style(4).background, Color::Default);
    assert_eq!(style(5).foreground, Color::Default);
    assert!(!style(6).bold);
}

#[test]
fn wide_and_combining_characters_have_stable_cells() {
    let mut terminal = Terminal::new(8, 1).unwrap();
    terminal.advance("界e\u{301}x".as_bytes());
    let screen = terminal.screen();
    assert_eq!(screen.cell(0, 0).unwrap().text, "界");
    assert!(screen.cell(1, 0).unwrap().continuation);
    assert_eq!(screen.cell(2, 0).unwrap().text, "e\u{301}");
    assert_eq!(screen.cell(3, 0).unwrap().text, "x");
}

#[test]
fn combining_marks_follow_the_last_printed_cell_across_wraps() {
    let mut terminal = Terminal::new(2, 2).unwrap();
    terminal.advance("ab\u{301}c\u{302}".as_bytes());
    assert_eq!(terminal.screen().cell(1, 0).unwrap().text, "b\u{301}");
    assert_eq!(terminal.screen().cell(0, 1).unwrap().text, "c\u{302}");

    terminal.advance("\ra\u{303}".as_bytes());
    assert_eq!(terminal.screen().cell(0, 1).unwrap().text, "a\u{303}");
}

#[test]
fn cursor_controls_clear_the_combining_target() {
    let mut terminal = Terminal::new(3, 1).unwrap();
    terminal.advance("a\r\u{301}".as_bytes());
    assert_eq!(terminal.screen().cell(0, 0).unwrap().text, "a");
}

#[test]
fn overwriting_wide_characters_clears_both_cells() {
    let mut terminal = Terminal::new(4, 1).unwrap();
    terminal.advance("界".as_bytes());
    terminal.advance(b"\rx");
    assert_eq!(terminal.screen().fixed_text(), "x   ");

    terminal.advance(b"\r");
    terminal.advance("界".as_bytes());
    terminal.advance(b"\x1b[1Dy");
    assert_eq!(terminal.screen().fixed_text(), " y  ");
}

#[test]
fn regions_clip_output() {
    let mut terminal = Terminal::new(5, 2).unwrap();
    terminal.advance(b"abcde12345");
    assert_eq!(
        terminal
            .screen()
            .region(Rect::new(1, 0, 3, 2))
            .unwrap()
            .fixed_text(terminal.screen()),
        "bcd\n234"
    );
}

#[test]
fn regions_nest_and_count_from_their_corner() {
    let mut terminal = Terminal::new(5, 2).unwrap();
    terminal.advance(b"abcde12345");
    let screen = terminal.screen();
    let outer = screen.region(Rect::new(1, 0, 4, 2)).unwrap();
    let inner = outer.region(screen, Rect::new(1, 1, 2, 1)).unwrap();
    assert_eq!(inner.fixed_text(screen), "34");
    assert_eq!(inner.rect(), Rect::new(2, 1, 2, 1));
    assert_eq!(inner.cell(screen, 1, 0).unwrap().text, "4");
    assert!(inner.cell(screen, 2, 0).is_none());
    assert!(matches!(
        outer.region(screen, Rect::new(3, 0, 2, 1)),
        Err(Error::OutOfBounds { col: 3, row: 0, cols: 4, rows: 2 })
    ));
    assert!(outer.region(screen, Rect::new(0, 0, 0, 1)).is_err());
}

#[test]
fn region_starting_inside_a_wide_glyph_preserves_its_width() {
    let mut terminal = Terminal::new(4, 1).unwrap();
    terminal.advance("界x".as_bytes());
    let screen = terminal.screen();
    let region = screen.region(Rect::new(1, 0, 2, 1)).unwrap();
    assert_eq!(region.fixed_text(screen), " x");
    assert_eq!(region.text(screen), " x");

    let continuation_only = screen.region(Rect::new(1, 0, 1, 1)).unwrap();
    assert_eq!(continuation_only.fixed_text(screen), " ");
    assert_eq!(continuation_only.text(screen), "");

    let leading_only = screen.region(Rect::new(0, 0, 1, 1)).unwrap();
    assert_eq!(leading_only.fixed_text(screen), " ");
    assert_eq!(leading_only.text(screen), "");
}

#[test]
fn regions_remain_safe_and_clamp_after_resize() {
    let mut screen = Screen::new(5, 3).unwrap();
    let region = screen.region(Rect::new(2, 1, 3, 2)).unwrap();
    screen.resize(3, 2).unwrap();
    assert_eq!(region.dimensions(&screen), (1, 1));
    assert_eq!(region.fixed_text(&screen), " ");
    screen.resize(1, 1).unwrap();
    assert_eq!(region.dimensions(&screen), (0, 0));
    assert_eq!(region.fixed_text(&screen), "");
    assert!(region.cell(&screen, 0, 0).is_none());
}

#[test]
fn erase_expands_across_wide_character_boundaries() {
    let mut terminal = Terminal::new(4, 1).unwrap();
    terminal.advance("界x".as_bytes());
    terminal.advance(b"\r\x1b[1C\x1b[K");
    assert_eq!(terminal.screen().fixed_text(), "    ");

    let mut terminal = Terminal::new(4, 1).unwrap();
    terminal.advance("x界".as_bytes());
    terminal.advance(b"\r\x1b[1C\x1b[1K");
    assert_eq!(terminal.screen().fixed_text(), "    ");
}

#[test]
fn erase_modes_cut_at_the_cursor() {
    let mut terminal = Terminal::new(3, 2).unwrap();
    terminal.advance(b"abcdef\x1b[1;2H\x1b[J");
    assert_eq!(terminal.screen().fixed_text(), "a  \n   ");
    let mut terminal = Terminal::new(3, 2).unwrap();
    terminal.advance(b"abcdef\x1b[2;2H\x1b[1J");
    assert_eq!(terminal.screen().fixed_text(), "   \n  f");
    let mut terminal = Terminal::new(3, 2).unwrap();
    terminal.advance(b"abcdef\x1b[3J");
    assert_eq!(terminal.screen().fixed_text(), "   \n   ");
    let mut terminal = Terminal::new(3, 2).unwrap();
    terminal.advance(b"abcdef\x1b[7J");
    assert_eq!(terminal.screen().fixed_text(), "abc\ndef");
    let mut terminal = Terminal::new(3, 2).unwrap();
    terminal.advance(b"abcdef\x1b[1;2H\x1b[1K");
    assert_eq!(terminal.screen().fixed_text(), "  c\ndef");
}

#[test]
fn cursor_movements_stop_at_the_edges() {
    let mut terminal = Terminal::new(4, 3).unwrap();
    terminal.advance(b"\x1b[9B\x1b[9Ca\x1b[9A\x1b[9Db\x1b[2Ec\x1b[Fd\x1b[3Ge\x1b[2;3Hf\x1b[1;1fg");
    assert_eq!(terminal.screen().fixed_text(), "g   \nd f \nc  a");
    let mut terminal = Terminal::new(20, 1).unwrap();
    terminal.advance(b"a\tb\x08\x08c\t\tz");
    assert_eq!(terminal.screen().fixed_text(), "a      cb          z");
}

#[test]
fn saved_cursor_comes_back() {
    let mut terminal = Terminal::new(6, 2).unwrap();
    terminal.advance(b"ab\x1b7\x1b[2;4Hxy\x1b8c\x1b[s\x1b[2;1Hq\x1b[ud");
    assert_eq!(terminal.screen().fixed_text(), "abcd  \nq  xy ");
}

#[test]
fn unsupported_sequences_change_nothing() {
    let mut terminal = Terminal::new(6, 2).unwrap();
    terminal.advance(b"ab");
    let version = terminal.screen().version();
    terminal.advance(b"\x1b[5S\x1b[?25l\x1b]0;title\x07\x1bPq#0\x1b\\\x1bZ\x07\x1b[4h");
    assert_eq!(terminal.screen().version(), version);
    terminal.advance(b"c");
    assert_eq!(terminal.screen().fixed_text(), "abc   \n      ");
}

#[test]
fn version_counts_changes() {
    let mut terminal = Terminal::new(3, 2).unwrap();
    assert_eq!(terminal.screen().version(), 0);
    terminal.advance(b"a");
    assert_eq!(terminal.screen().version(), 1);
    terminal.advance(b"\r\r");
    assert_eq!(terminal.screen().version(), 2);
    terminal.advance(b"\x1b[K");
    assert_eq!(terminal.screen().version(), 3);
    terminal.advance(b"\x1b[K\x1b[m\x1b[1;1H");
    assert_eq!(terminal.screen().version(), 3);
    terminal.advance(b"\n\n");
    assert_eq!(terminal.screen().version(), 5);
    terminal.resize(3, 2).unwrap();
    assert_eq!(terminal.screen().version(), 5);
    terminal.resize(4, 2).unwrap();
    assert_eq!(terminal.screen().version(), 6);
    terminal.notify();
    assert_eq!(terminal.screen().version(), 7);
}

#[test]
fn scrolling_drops_the_top_row() {
    let mut terminal = Terminal::new(3, 2).unwrap();
    terminal.advance(b"abc\r\ndef\r\nghi");
    assert_eq!(terminal.screen().fixed_text(), "def\nghi");
    terminal.advance(b"j");
    assert_eq!(terminal.screen().fixed_text(), "ghi\nj  ");
    terminal.advance(b"\x1bD\x1bEk\x1bc");
    assert_eq!(terminal.screen().fixed_text(), "   \n   ");
}

#[test]
fn resize_clears_a_wide_character_cut_by_the_new_edge() {
    let mut terminal = Terminal::new(4, 1).unwrap();
    terminal.advance("x界".as_bytes());
    terminal.resize(2, 1).unwrap();
    assert_eq!(terminal.screen().fixed_text(), "x ");
    assert_eq!(terminal.screen().cell(1, 0).unwrap(), Cell::default());
}

#[test]
fn resize_keeps_the_common_part() {
    let mut terminal = Terminal::new(4, 2).unwrap();
    terminal.advance("ab界efgh".as_bytes());
    terminal.resize(6, 3).unwrap();
    assert_eq!(terminal.screen().fixed_text(), "ab界  \nefgh  \n      ");
    terminal.resize(3, 1).unwrap();
    assert_eq!(terminal.screen().fixed_text(), "ab ");
    terminal.advance(b"\x1b[?1049h");
    terminal.resize(2, 2).unwrap();
    assert_eq!(terminal.screen().dimensions(), (2, 2));
    terminal.advance(b"\x1b[?1049l");
    assert_eq!(terminal.screen().fixed_text(), "ab\n  ");
}

#[test]
fn one_column_screen_replaces_an_unrenderable_wide_character() {
    let mut terminal = Terminal::new(1, 1).unwrap();
    terminal.advance("界".as_bytes());
    assert_eq!(terminal.screen().fixed_text(), "\u{fffd}");
    assert!(!terminal.screen().cell(0, 0).unwrap().continuation);
}

#[test]
fn wide_characters_wrap_as_a_whole() {
    let mut terminal = Terminal::new(3, 2).unwrap();
    terminal.advance("ab界c".as_bytes());
    assert_eq!(terminal.screen().fixed_text(), "ab \n界c");
}

#[test]
fn overflowing_regions_are_rejected() {
    let screen = Screen::new(5, 2).unwrap();
    assert!(matches!(
        screen.region(Rect::new(u16::MAX, 0, 2, 1)),
        Err(Error::OutOfBounds { .. })
    ));
}

fn next_random(state: &mut u64) -> usize {
    *state = state.wrapping_mul(6364136223846793005).wrapping_add(1442695040888963407);
    (*state >> 33) as usize
}

#[test]
fn random_streams_draw_the_same_in_any_pieces() {
    let alphabet: Vec<u8> = vec![
        b'a', b'z', b' ', b'A', b'D', b'H', b'J', b'K', b'm', b'h', b'l', b'[', b']', b'P', b'?',
        b';', b':', b'1', b'4', b'0', b'9', b'7', b'8', b'\\', 0x1b, 0x1b, 0x07, 0x08, 0x09, 0x0a,
        0x0d, 0x18, 0x7f, 0x80, 0x85, 0x96, 0x9c, 0x9f, 0xa9, 0xb8, 0xbf, 0xc0, 0xc2, 0xc2, 0xc3,
        0xc3, 0xdf, 0xe2, 0xe4, 0xe4, 0xed, 0xef, 0xf0, 0xf0, 0xf4, 0xf5, 0xff,
    ];
    let mut state: u64 = 20240607;
    for _ in 0..20_000 {
        let length = 1 + next_random(&mut state) % 24;
        let mut bytes: Vec<u8> = Vec::new();
        for _ in 0..length {
            bytes.push(alphabet[next_random(&mut state) % alphabet.len()]);
        }
        let mut whole = Terminal::new(7, 3).unwrap();
        whole.advance(&bytes);
        let mut pieces = Terminal::new(7, 3).unwrap();
        let mut rest: &[u8] = &bytes;
        while !rest.is_empty() {
            let count = (next_random(&mut state) % 4).min(rest.len());
            pieces.advance(&rest[..count]);
            rest = &rest[count..];
        }
        assert_eq!(whole.screen().fixed_text(), pieces.screen().fixed_text(), "{:?}", bytes);
        assert_eq!(whole.screen().version(), pieces.screen().version(), "{:?}", bytes);
        whole.advance("é!".as_bytes());
        pieces.advance("é!".as_bytes());
        assert_eq!(whole.screen().fixed_text(), pieces.screen().fixed_text(), "{:?}", bytes);
    }
}

#[test]
fn a_line_feed_in_the_last_row_moves_the_rows_up() {
    let mut terminal = Terminal::new(3, 3).unwrap();
    terminal.advance(b"a\r\nb\r\nc\x1b[41m\n");
    assert_eq!(terminal.screen().lines(false), vec!["b", "c", ""]);
    let corner = terminal.screen().cell(0, 2).unwrap();
    assert_eq!(corner.style.background, Color::Indexed(1));
}

#[test]
fn erasing_takes_the_other_half_of_a_wide_glyph_along() {
    let mut terminal = Terminal::new(6, 1).unwrap();
    terminal.advance("a界b".as_bytes());
    terminal.advance(b"\x1b[3G\x1b[K");
    assert_eq!(terminal.screen().fixed_text(), "a     ");
}

#[test]
fn sequences_with_markers_or_intermediates_are_ignored() {
    let mut terminal = Terminal::new(3, 1).unwrap();
    terminal.advance(b"\x1b[>4;2mX");
    let cell = terminal.screen().cell(0, 0).unwrap();
    assert_eq!((cell.text.as_str(), cell.style), ("X", Style::default()));

    let mut terminal = Terminal::new(4, 2).unwrap();
    terminal.advance(b"ab\x1b7cd");
    let version = terminal.screen().version();
    terminal.advance(b"\x1b[?2J\x1b[1 K\x1b[!m\x1b#8\x1b(D\x1b)E\x1b%c\x1b[?5A");
    assert_eq!(terminal.screen().version(), version);
    terminal.advance(b"e");
    assert_eq!(terminal.screen().fixed_text(), "abcd\ne   ");
}

#[test]
fn sequences_that_are_too_long_are_ignored() {
    let mut terminal = Terminal::new(3, 1).unwrap();
    let mut sequence = b"\x1b[1".to_vec();
    for _ in 0..40 {
        sequence.extend_from_slice(b";1");
    }
    sequence.extend_from_slice(b"mX");
    terminal.advance(&sequence);
    assert!(!terminal.screen().cell(0, 0).unwrap().style.bold);
}

#[test]
fn an_incomplete_color_is_dropped_with_its_numbers() {
    for sequence in ["38;2;4", "48;2;1;4", "38;5", "38", "38;4", "48;2;1;2"] {
        let mut terminal = Terminal::new(3, 1).unwrap();
        terminal.advance(format!("\x1b[{sequence}mX").as_bytes());
        let style = terminal.screen().cell(0, 0).unwrap().style;
        assert_eq!(style, Style::default(), "{sequence}");
    }
    let mut terminal = Terminal::new(3, 1).unwrap();
    terminal.advance(b"\x1b[1;38;2;4mX\x1b[38:2::1:2:3;4mY");
    let first = terminal.screen().cell(0, 0).unwrap().style;
    assert_eq!(first, Style { bold: true, ..Style::default() });
    let second = terminal.screen().cell(1, 0).unwrap().style;
    assert_eq!(second, Style { bold: true, underline: true, ..Style::default() });
}

#[test]
fn a_restored_cursor_waits_for_no_wrap() {
    for (save, restore) in [("\x1b7", "\x1b8"), ("\x1b[s", "\x1b[u")] {
        let mut terminal = Terminal::new(3, 2).unwrap();
        terminal.advance(format!("{save}abc{restore}X").as_bytes());
        assert_eq!(terminal.screen().fixed_text(), "Xbc\n   ");
    }
}

#[test]
fn unknown_erase_modes_do_nothing() {
    let mut terminal = Terminal::new(3, 2).unwrap();
    terminal.advance(b"abc");
    let version = terminal.screen().version();
    terminal.advance(b"\x1b[5K\x1b[3K\x1b[4J\x1b[9J");
    assert_eq!(terminal.screen().version(), version);
    terminal.advance(b"d");
    assert_eq!(terminal.screen().fixed_text(), "abc\nd  ");
}

#[test]
fn a_glyph_that_is_too_wide_is_replaced_by_a_narrow_one() {
    let mut terminal = Terminal::new(1, 2).unwrap();
    terminal.advance("界x".as_bytes());
    assert_eq!(terminal.screen().fixed_text(), "\u{fffd}\nx");
}

#[test]
fn every_leading_half_has_its_trailing_half() {
    let mut terminal = Terminal::new(7, 3).unwrap();
    let mut seed: u32 = 7;
    for _ in 0..3_000 {
        seed = seed.wrapping_mul(1_664_525).wrapping_add(1_013_904_223);
        let piece = match (seed >> 24) % 8 {
            0 | 1 => "界".to_string(),
            2 => "x".to_string(),
            3 => "e\u{301}".to_string(),
            4 => format!("\x1b[{};{}H", seed % 4, seed % 9),
            5 => format!("\x1b[{}K", seed % 3),
            6 => format!("\x1b[{}J", seed % 4),
            _ => "\n".to_string(),
        };
        terminal.advance(piece.as_bytes());
        for row in 0..3 {
            for col in 0..7 {
                let cell = terminal.screen().cell(col, row).unwrap();
                let next = col < 6 && terminal.screen().cell(col + 1, row).unwrap().continuation;
                assert_eq!(cell.text.starts_with('界'), next);
            }
        }
    }
}

#[test]
fn a_broken_character_shows_at_once() {
    let mut terminal = Terminal::new(4, 1).unwrap();
    terminal.advance(&[0xe4, 0xc3]);
    assert_eq!(terminal.screen().text(), "\u{fffd}");
    terminal.advance(&[0xa9, b'A', 0xc3]);
    assert_eq!(terminal.screen().text(), "\u{fffd}éA");
    terminal.advance(&[0xa8]);
    assert_eq!(terminal.screen().text(), "\u{fffd}éAè");
}

#[test]
fn a_control_that_is_split_between_reads_is_no_character() {
    let mut terminal = Terminal::new(4, 1).unwrap();
    terminal.advance(b"a");
    let version = terminal.screen().version();
    terminal.advance(&[0xc2]);
    terminal.advance(&[0x85]);
    assert_eq!(terminal.screen().version(), version);
    terminal.advance(b"b");
    assert_eq!(terminal.screen().text(), "ab");
}

#[test]
fn resizing_keeps_glyphs_whatever_their_marks() {
    let mut terminal = Terminal::new(6, 2).unwrap();
    terminal.advance("❤\u{fe0f}a⌚\u{fe0e}b".as_bytes());
    let before: Vec<Cell> = (0..6).map(|col| terminal.screen().cell(col, 0).unwrap()).collect();
    assert!(before[3].continuation);
    terminal.resize(8, 3).unwrap();
    for (col, cell) in before.iter().enumerate() {
        assert_eq!(&terminal.screen().cell(col as u16, 0).unwrap(), cell);
    }
    terminal.resize(3, 3).unwrap();
    assert_eq!(terminal.screen().cell(0, 0).unwrap(), before[0]);
    assert_eq!(terminal.screen().cell(1, 0).unwrap(), before[1]);
    assert_eq!(terminal.screen().cell(2, 0).unwrap(), Cell::default());
}
