use tauri_hotkey::{parse_hotkey, Hotkey, Key, Modifier};

#[test]
fn hotkey_parse() {
    assert_eq!(
        parse_hotkey("CTRL+P").unwrap(),
        Hotkey {
            modifiers: vec![Modifier::CTRL],
            keys: vec![Key::P]
        }
    );
    assert_eq!(
        parse_hotkey("CTRL+SHIFT+P").unwrap(),
        Hotkey {
            modifiers: vec![Modifier::CTRL, Modifier::SHIFT],
            keys: vec![Key::P]
        }
    );
    assert_eq!(
        parse_hotkey("S").unwrap(),
        Hotkey {
            modifiers: vec![],
            keys: vec![Key::S]
        }
    );
    assert_eq!(
        parse_hotkey("ALT+BACKSPACE").unwrap(),
        Hotkey {
            modifiers: vec![Modifier::ALT],
            keys: vec![Key::BACKSPACE]
        }
    );
    assert_eq!(
        parse_hotkey("SHIFT+SUPER+A").unwrap(),
        Hotkey {
            modifiers: vec![Modifier::SHIFT, Modifier::SUPER],
            keys: vec![Key::A]
        }
    );
    assert_eq!(
        parse_hotkey("SUPER+RIGHT").unwrap(),
        Hotkey {
            modifiers: vec![Modifier::SUPER],
            keys: vec![Key::RIGHT]
        }
    );
    assert_eq!(
        parse_hotkey("SUPER+CTRL+SHIFT+AltGr+9").unwrap(),
        Hotkey {
            modifiers: vec![
                Modifier::SUPER,
                Modifier::CTRL,
                Modifier::SHIFT,
                Modifier::ALTGR
            ],
            keys: vec![Key::KEY_9]
        }
    );
    assert_eq!(
        parse_hotkey("super+ctrl+SHIFT+alt+Up").unwrap(),
        Hotkey {
            modifiers: vec![
                Modifier::SUPER,
                Modifier::CTRL,
                Modifier::SHIFT,
                Modifier::ALT
            ],
            keys: vec![Key::UP]
        }
    );

    assert_eq!(
        parse_hotkey("5").unwrap(),
        Hotkey {
            modifiers: vec![],
            keys: vec![Key::KEY_5]
        }
    );

    assert_eq!(
        parse_hotkey("KEY_5").unwrap(),
        Hotkey {
            modifiers: vec![],
            keys: vec![Key::KEY_5]
        }
    );

    assert_eq!(
        parse_hotkey("5+5").unwrap_err().message(),
        "failed to parse hotkey: duplicated key 5"
    );

    assert_eq!(
        parse_hotkey("CTRL+").unwrap_err().message(),
        "failed to parse hotkey: hotkey has no key specified"
    );

    assert_eq!(
        parse_hotkey("").unwrap_err().message(),
        "failed to parse hotkey: hotkey has no key specified"
    );
}
