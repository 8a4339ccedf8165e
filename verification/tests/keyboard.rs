use ttry::{Duration, Error, Key, Keyboard};

#[test]
fn basic_and_navigation_encodings() {
    let cases = [
        ("a", b"a".as_slice()),
        ("enter", b"\r"),
        (" enter", b"\r"),
        ("enter ", b"\r"),
        ("escape", b"\x1b"),
        ("delete", b"\x1b[3~"),
        ("up", b"\x1b[A"),
        (" up ", b"\x1b[A"),
        ("f12", b"\x1b[24~"),
    ];
    for (input, expected) in cases {
        assert_eq!(Key::parse(input).unwrap().encode().unwrap(), expected);
    }
}

#[test]
fn plus_and_space_are_printable_keys() {
    assert_eq!(Key::parse("+").unwrap().encode().unwrap(), b"+");
    assert_eq!(Key::parse(" ").unwrap().encode().unwrap(), b" ");
    assert_eq!(Key::parse("\t").unwrap().encode().unwrap(), b"\t");
    assert_eq!(Key::parse("\n").unwrap().encode().unwrap(), b"\r");
    assert_eq!(Key::parse("\r").unwrap().encode().unwrap(), b"\r");
    assert!(Key::parse("hello").is_err());
    assert!(Key::parse("  ").is_err());
    assert!(Key::parse("\t ").is_err());
}

#[test]
fn modifier_encodings() {
    assert_eq!(Key::parse("ctrl+c").unwrap().encode().unwrap(), vec![3]);
    assert_eq!(Key::parse(" ctrl+c").unwrap().encode().unwrap(), vec![3]);
    assert_eq!(Key::parse("ctrl+c ").unwrap().encode().unwrap(), vec![3]);
    assert_eq!(Key::parse("alt+x").unwrap().encode().unwrap(), b"\x1bx");
    assert_eq!(
        Key::parse("alt+up").unwrap().encode().unwrap(),
        b"\x1b[1;3A"
    );
    assert_eq!(
        Key::parse("alt+left").unwrap().encode().unwrap(),
        b"\x1b[1;3D"
    );
    assert_eq!(
        Key::parse("alt+home").unwrap().encode().unwrap(),
        b"\x1b[1;3H"
    );
    assert_eq!(
        Key::parse("shift+tab").unwrap().encode().unwrap(),
        b"\x1b[Z"
    );
    assert_eq!(Key::parse("A").unwrap().encode().unwrap(), b"A");
    assert_eq!(Key::parse("shift+a").unwrap().encode().unwrap(), b"A");
    assert_eq!(Key::parse("alt+A").unwrap().encode().unwrap(), b"\x1bA");
    assert!(matches!(
        Key::parse("alt+shift+a"),
        Err(Error::UnsupportedKey(expression, _)) if expression == "alt+shift+a"
    ));
    assert!(Key::parse("hyper+x").is_err());
    assert!(Key::parse("ctrl+control+c").is_err());
    assert!(Key::parse("alt+option+x").is_err());
    assert!(Key::parse("shift+shift+a").is_err());
    assert!(matches!(Key::parse("ctrl+"), Err(Error::InvalidKey(_))));
    assert!(matches!(Key::parse("ctrl++"), Err(Error::InvalidKey(_))));
    assert!(matches!(
        Key::parse("ctrl+shift+f1"),
        Err(Error::UnsupportedKey(expression, _)) if expression == "ctrl+shift+f1"
    ));
    assert!(matches!(
        Key::parse("ctrl+shift+c"),
        Err(Error::UnsupportedKey(expression, _)) if expression == "ctrl+shift+c"
    ));
    assert!(matches!(
        Key::parse("ctrl+é"),
        Err(Error::UnsupportedKey(expression, reason))
            if expression == "ctrl+é"
                && reason == "Ctrl combinations are only supported for ASCII letters"
    ));
    assert!(matches!(
        Key::parse("shift+1"),
        Err(Error::UnsupportedKey(expression, _)) if expression == "shift+1"
    ));
    assert!(matches!(
        Key::parse("alt+shift+/"),
        Err(Error::UnsupportedKey(expression, _)) if expression == "alt+shift+/"
    ));
    assert_eq!(Key::parse("!").unwrap().encode().unwrap(), b"!");
}

#[test]
fn named_and_function_keys_have_their_sequences() {
    let cases = [
        ("Return", b"\r".as_slice()),
        ("ESC", b"\x1b"),
        ("Backspace", b"\x7f"),
        ("arrowdown", b"\x1b[B"),
        ("right", b"\x1b[C"),
        ("End", b"\x1b[F"),
        ("pgup", b"\x1b[5~"),
        ("PageDown", b"\x1b[6~"),
        ("f1", b"\x1bOP"),
        ("f4", b"\x1bOS"),
        ("f5", b"\x1b[15~"),
        ("f6", b"\x1b[17~"),
        ("f8", b"\x1b[19~"),
        ("f9", b"\x1b[20~"),
        ("f10", b"\x1b[21~"),
        ("F011", b"\x1b[23~"),
        ("f", b"f"),
        ("ctrl+shift+left", b"\x1b[1;6D"),
        ("control+option+shift+end", b"\x1b[1;8F"),
        ("ctrl+alt+Z", b"\x1b\x1a"),
        ("alt+f5", b"\x1b\x1b[15~"),
        ("alt+enter", b"\x1b\r"),
        ("€", "€".as_bytes()),
    ];
    for (input, expected) in cases {
        assert_eq!(Key::parse(input).unwrap().encode().unwrap(), expected, "{}", input);
    }
}

#[test]
fn refused_expressions_say_why() {
    let message = |input: &str| Key::parse(input).unwrap_err().message();
    assert_eq!(message(""), "invalid key expression ``");
    assert_eq!(message(" hello "), "invalid key expression ` hello `");
    assert_eq!(message(" hyper+x "), "invalid key expression `hyper+x`");
    assert_eq!(message(" ctrl++c "), "invalid key expression ` ctrl++c `");
    assert_eq!(
        message("f13"),
        "unsupported key combination `f13`: only F1 through F12 are supported"
    );
    assert_eq!(message("f256"), "invalid key expression `f256`");
    assert_eq!(
        message("ctrl+1"),
        "unsupported key combination `ctrl+1`: \
         this modifier combination has no portable terminal encoding"
    );
    let key = Key::Modified {
        ctrl: true,
        alt: false,
        shift: true,
        key: Box::new(Key::Text("\"c".to_string())),
    };
    assert_eq!(
        key.encode().unwrap_err().message(),
        "unsupported key combination `Text(\"\\\"c\")`: \
         this modifier combination has no portable terminal encoding"
    );
    assert_eq!(
        Key::Function(13).encode().unwrap_err().message(),
        "unsupported key combination `F13`: only F1 through F12 are supported"
    );
    let nested = Key::Modified { ctrl: true, alt: true, shift: false, key: Box::new(key) };
    assert_eq!(
        nested.describe(),
        "Modified { ctrl: true, alt: true, shift: false, key: Modified { ctrl: true, \
         alt: false, shift: true, key: Text(\"\\\"c\") } }"
    );
    assert_eq!(format!("{:?}", nested), nested.describe());
}

#[test]
fn pasting_is_one_write_and_typing_is_one_for_each_character() {
    let mut keyboard = Keyboard::new();
    keyboard.paste("hé\n");
    keyboard.press("ctrl+c").unwrap();
    assert!(keyboard.press("hyper+c").is_err());
    keyboard.type_text("é!", Some(Duration::from_millis(3)));
    keyboard.type_text("x", Some(Duration::from_millis(0)));
    keyboard.type_text("y", None);
    let strokes = keyboard.take();
    let writes: Vec<&[u8]> = strokes.iter().map(|stroke| stroke.bytes.as_slice()).collect();
    assert_eq!(
        writes,
        vec!["hé\n".as_bytes(), &[3], "é".as_bytes(), b"!", b"x", b"y"]
    );
    let pauses: Vec<bool> = strokes.iter().map(|stroke| stroke.pause.is_some()).collect();
    assert_eq!(pauses, vec![false, false, true, true, false, false]);
    assert_eq!(strokes[2].pause, Some(Duration::from_millis(3)));
    assert!(keyboard.take().is_empty());
}

#[test]
fn ctrl_letters_send_their_control_bytes() {
    for (number, letter) in ('a'..='z').enumerate() {
        let code = number as u8 + 1;
        let small = format!("ctrl+{letter}");
        let capital = format!("ctrl+{}", letter.to_ascii_uppercase());
        assert_eq!(Key::parse(&small).unwrap().encode().unwrap(), vec![code]);
        assert_eq!(Key::parse(&capital).unwrap().encode().unwrap(), vec![code]);
    }
}

#[test]
fn modified_navigation_keys_name_their_modifiers() {
    let cases = [
        ("shift+up", b"\x1b[1;2A".as_slice()),
        ("alt+down", b"\x1b[1;3B"),
        ("alt+shift+right", b"\x1b[1;4C"),
        ("ctrl+left", b"\x1b[1;5D"),
        ("ctrl+shift+home", b"\x1b[1;6H"),
        ("ctrl+alt+end", b"\x1b[1;7F"),
        ("ctrl+alt+shift+end", b"\x1b[1;8F"),
    ];
    for (input, expected) in cases {
        assert_eq!(Key::parse(input).unwrap().encode().unwrap(), expected);
    }
}

#[test]
fn typing_writes_what_pasting_writes() {
    let text = "né界\n!";
    let mut typing = Keyboard::new();
    typing.type_text(text, Some(Duration::from_millis(3)));
    let mut pasting = Keyboard::new();
    pasting.paste(text);
    let typed: Vec<u8> = typing.take().into_iter().flat_map(|stroke| stroke.bytes).collect();
    let pasted = pasting.take();
    assert_eq!(pasted.len(), 1);
    assert_eq!(typed, pasted[0].bytes);
}

#[test]
fn the_order_of_modifiers_does_not_matter() {
    for (left, right) in [
        ("ctrl+alt+x", "alt+ctrl+x"),
        ("shift+ctrl+up", "control+shift+up"),
        ("CTRL+Option+end", "alt+Control+end"),
    ] {
        assert_eq!(Key::parse(left).unwrap(), Key::parse(right).unwrap());
    }
}

#[test]
fn repeated_modifiers_are_refused_under_any_name() {
    for expression in ["ctrl+Control+c", "alt+ctrl+OPTION+up", "shift+SHIFT+tab"] {
        assert!(matches!(
            Key::parse(expression),
            Err(Error::InvalidKey(key)) if key == expression
        ));
    }
}

#[test]
fn white_space_does_not_decide_whether_a_key_is_accepted() {
    for expression in ["ctrl+c", "enter", "+", "hyper+x", "f13", "ctrl+", "hello"] {
        let padded = format!(" \t{expression}\n");
        assert_eq!(Key::parse(expression).is_ok(), Key::parse(&padded).is_ok());
    }
}
