use tauri_hotkey::{parse_hotkey, Hotkey, Key, Modifier};

#[test]
fn display_round_trips_through_parse() {
    let specs = [
        "CTRL+P",
        "CTRL+SHIFT+P",
        "S",
        "ALT+BACKSPACE",
        "SHIFT+SUPER+A",
        "SUPER+CTRL+SHIFT+ALTGR+9",
        "!",
        "PLUS",
        "CTRL+A+B",
        "=",
        "RETURN",
    ];
    for spec in specs {
        let h = parse_hotkey(spec).unwrap();
        let text = h.display();
        assert_eq!(parse_hotkey(&text).unwrap(), h, "round trip of {}", spec);
    }
}

#[test]
fn display_uses_canonical_names() {
    assert_eq!(parse_hotkey("CTRL+P").unwrap().display(), "CTRL+P");
    assert_eq!(parse_hotkey("!").unwrap().display(), "SHIFT+KEY_1");
    assert_eq!(parse_hotkey("cmd+return").unwrap().display(), "SUPER+ENTER");
    assert_eq!(parse_hotkey("S").unwrap().display(), "S");
}

#[test]
fn modifier_flags_fold_by_or() {
    let h = Hotkey {
        modifiers: vec![Modifier::CTRL, Modifier::SHIFT],
        keys: vec![Key::P],
    };
    assert_eq!(h.modifiers_as_flag(), 2 | 4);
    let h2 = Hotkey {
        modifiers: vec![Modifier::ALT, Modifier::SUPER],
        keys: vec![Key::A],
    };
    assert_eq!(h2.modifiers_as_flag(), 1 | 8);
    let h3 = Hotkey {
        modifiers: vec![Modifier::ALTGR],
        keys: vec![Key::A],
    };
    assert_eq!(h3.modifiers_as_flag(), 165);
    let empty = Hotkey {
        modifiers: vec![],
        keys: vec![Key::A],
    };
    assert_eq!(empty.modifiers_as_flag(), 0);
}

#[test]
fn key_flags_use_platform_codes() {
    let h = Hotkey {
        modifiers: vec![],
        keys: vec![Key::P],
    };
    assert_eq!(h.keys_as_flag(), 0x50);
    let h2 = Hotkey {
        modifiers: vec![],
        keys: vec![Key::KEY_5],
    };
    assert_eq!(h2.keys_as_flag(), 0x35);
    let h3 = Hotkey {
        modifiers: vec![],
        keys: vec![Key::F1],
    };
    assert_eq!(h3.keys_as_flag(), 0x70);
    let h4 = Hotkey {
        modifiers: vec![],
        keys: vec![Key::A, Key::B],
    };
    assert_eq!(h4.keys_as_flag(), 0x41 | 0x42);
    assert_eq!(h4.modifiers_as_flag(), 0);
}

#[test]
fn equality_uses_the_modifier_set_and_the_key_list() {
    let a = parse_hotkey("CTRL+P").unwrap();
    let b = parse_hotkey("ctrl+p").unwrap();
    assert_eq!(a, b);
    // modifier order is irrelevant to identity
    assert_eq!(
        parse_hotkey("CTRL+SHIFT+P").unwrap(),
        parse_hotkey("SHIFT+CTRL+P").unwrap()
    );
    // repeated modifiers are meaningless
    assert_eq!(
        parse_hotkey("CMD+COMMAND+A").unwrap(),
        parse_hotkey("SUPER+A").unwrap()
    );
    // a different modifier set is a different hotkey
    let c = parse_hotkey("SHIFT+CTRL+P").unwrap();
    assert!(a != c);
    // the key list keeps its order
    let d = parse_hotkey("CTRL+A+B").unwrap();
    let e = parse_hotkey("CTRL+B+A").unwrap();
    assert!(d != e);
}
