use tauri_hotkey::{parse_hotkey, Error, Hotkey, Key, Modifier};

#[test]
fn modifier_aliases_resolve() {
    assert_eq!(
        parse_hotkey("COMMAND+X").unwrap(),
        Hotkey {
            modifiers: vec![Modifier::SUPER],
            keys: vec![Key::X]
        }
    );
    assert_eq!(
        parse_hotkey("CMD+X").unwrap(),
        Hotkey {
            modifiers: vec![Modifier::SUPER],
            keys: vec![Key::X]
        }
    );
    assert_eq!(
        parse_hotkey("CONTROL+X").unwrap(),
        Hotkey {
            modifiers: vec![Modifier::CTRL],
            keys: vec![Key::X]
        }
    );
    assert_eq!(
        parse_hotkey("COMMANDORCONTROL+X").unwrap(),
        Hotkey {
            modifiers: vec![Modifier::CTRL],
            keys: vec![Key::X]
        }
    );
    assert_eq!(
        parse_hotkey("CmdOrCtrl+X").unwrap(),
        Hotkey {
            modifiers: vec![Modifier::CTRL],
            keys: vec![Key::X]
        }
    );
}

#[test]
fn shifted_symbol_implies_shift() {
    assert_eq!(
        parse_hotkey("!").unwrap(),
        Hotkey {
            modifiers: vec![Modifier::SHIFT],
            keys: vec![Key::KEY_1]
        }
    );
    assert_eq!(
        parse_hotkey("CTRL+@").unwrap(),
        Hotkey {
            modifiers: vec![Modifier::CTRL, Modifier::SHIFT],
            keys: vec![Key::KEY_2]
        }
    );
    // SHIFT written out is not added twice
    assert_eq!(
        parse_hotkey("SHIFT+!").unwrap(),
        Hotkey {
            modifiers: vec![Modifier::SHIFT],
            keys: vec![Key::KEY_1]
        }
    );
    assert_eq!(
        parse_hotkey("PLUS").unwrap(),
        Hotkey {
            modifiers: vec![Modifier::SHIFT],
            keys: vec![Key::EQUAL]
        }
    );
    assert_eq!(
        parse_hotkey("?").unwrap(),
        Hotkey {
            modifiers: vec![Modifier::SHIFT],
            keys: vec![Key::SLASH]
        }
    );
}

#[test]
fn plain_punctuation_adds_no_shift() {
    assert_eq!(
        parse_hotkey("=").unwrap(),
        Hotkey {
            modifiers: vec![],
            keys: vec![Key::EQUAL]
        }
    );
    assert_eq!(
        parse_hotkey("CTRL+.").unwrap(),
        Hotkey {
            modifiers: vec![Modifier::CTRL],
            keys: vec![Key::PERIOD]
        }
    );
    assert_eq!(
        parse_hotkey("RETURN").unwrap(),
        Hotkey {
            modifiers: vec![],
            keys: vec![Key::ENTER]
        }
    );
}

#[test]
fn whitespace_and_empty_tokens_are_skipped() {
    assert_eq!(
        parse_hotkey(" ctrl + p ").unwrap(),
        Hotkey {
            modifiers: vec![Modifier::CTRL],
            keys: vec![Key::P]
        }
    );
    assert_eq!(
        parse_hotkey("CTRL++P").unwrap(),
        Hotkey {
            modifiers: vec![Modifier::CTRL],
            keys: vec![Key::P]
        }
    );
}

#[test]
fn multi_key_hotkeys_keep_order() {
    assert_eq!(
        parse_hotkey("CTRL+A+B").unwrap(),
        Hotkey {
            modifiers: vec![Modifier::CTRL],
            keys: vec![Key::A, Key::B]
        }
    );
}

#[test]
fn unknown_token_is_reported() {
    assert_eq!(
        parse_hotkey("FOO").unwrap_err().message(),
        "failed to parse hotkey: unknown key FOO"
    );
    // a number too large for a key name is rewritten and then unknown
    assert_eq!(
        parse_hotkey("10").unwrap_err().message(),
        "failed to parse hotkey: unknown key KEY_10"
    );
}

#[test]
fn option_is_not_a_modifier_on_this_platform() {
    assert_eq!(
        parse_hotkey("OPTION+A").unwrap_err().message(),
        "failed to parse hotkey: unknown key OPTION"
    );
}

#[test]
fn numeric_rewrite_stops_at_the_word_bound() {
    // the largest value a machine word holds is still rewritten
    assert_eq!(
        parse_hotkey("18446744073709551615").unwrap_err().message(),
        "failed to parse hotkey: unknown key KEY_18446744073709551615"
    );
    // one more is no longer a number the reader accepts
    assert_eq!(
        parse_hotkey("18446744073709551616").unwrap_err().message(),
        "failed to parse hotkey: unknown key 18446744073709551616"
    );
    // leading zeros are kept by the rewrite, so the name lookup fails
    assert_eq!(
        parse_hotkey("05").unwrap_err().message(),
        "failed to parse hotkey: unknown key KEY_05"
    );
}

#[test]
fn duplicate_reports_raw_token() {
    assert_eq!(
        parse_hotkey("p+P").unwrap_err().message(),
        "failed to parse hotkey: duplicated key P"
    );
    match parse_hotkey("A+A").unwrap_err() {
        Error::InvalidHotkey(msg) => assert_eq!(msg, "duplicated key A"),
        other => panic!("unexpected error {:?}", other),
    }
}
