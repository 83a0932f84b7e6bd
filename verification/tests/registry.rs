use std::cell::Cell;
use tauri_hotkey::service::NativeCmd;
use tauri_hotkey::{parse_hotkey, Error, HotkeyError, HotkeyManager, HotkeyService};

fn ok_native(_cmd: NativeCmd) -> Result<(), HotkeyError> {
    Ok(())
}

fn failing_native(_cmd: NativeCmd) -> Result<(), HotkeyError> {
    Err(HotkeyError::BackendApiError(3))
}

#[test]
fn two_managers_share_one_native_slot() {
    let mut svc = HotkeyService::new();
    let mut m1 = HotkeyManager::new(&mut svc);
    let mut m2 = HotkeyManager::new(&mut svc);
    let h = parse_hotkey("CTRL+P").unwrap();

    let registers = Cell::new(0u32);
    let counting = |cmd: NativeCmd| {
        if let NativeCmd::Register { .. } = cmd {
            registers.set(registers.get() + 1);
        }
        Ok(())
    };

    assert!(m1.register(&mut svc, h.clone(), counting).is_ok());
    assert!(m2.register(&mut svc, h.clone(), counting).is_ok());
    assert_eq!(registers.get(), 1, "one native registration for both owners");
    assert_eq!(svc.native_count(), 1);

    // a native trigger would reach both owners' callbacks
    let owners = svc.owners_snapshot(&h);
    assert_eq!(owners.len(), 2);

    // unregistering one owner leaves the hotkey active for the other
    assert!(m1.unregister(&mut svc, &h, ok_native).is_ok());
    assert!(svc.is_bound(&h));
    assert_eq!(svc.owners_snapshot(&h).len(), 1);

    // unregistering the last owner releases the native slot
    assert!(m2.unregister(&mut svc, &h, ok_native).is_ok());
    assert!(!svc.is_bound(&h));
    assert_eq!(svc.native_count(), 0);
}

#[test]
fn reregistering_owned_hotkey_is_refused_without_native_call() {
    let mut svc = HotkeyService::new();
    let mut m = HotkeyManager::new(&mut svc);
    let h = parse_hotkey("CTRL+P").unwrap();

    let calls = Cell::new(0u32);
    let counting = |_cmd: NativeCmd| {
        calls.set(calls.get() + 1);
        Ok(())
    };

    assert!(m.register(&mut svc, h.clone(), counting).is_ok());
    assert_eq!(calls.get(), 1);
    match m.register(&mut svc, h.clone(), counting) {
        Err(Error::HotkeyAlreadyRegistered(back)) => assert_eq!(back, h),
        other => panic!("unexpected result {:?}", other),
    }
    assert_eq!(calls.get(), 1, "refusal makes no native call");
    assert_eq!(svc.native_count(), 1);
}

#[test]
fn unregistering_unowned_hotkey_is_refused() {
    let mut svc = HotkeyService::new();
    let mut m = HotkeyManager::new(&mut svc);
    let h = parse_hotkey("CTRL+P").unwrap();
    match m.unregister(&mut svc, &h, ok_native) {
        Err(Error::HotkeyNotRegistered(back)) => assert_eq!(back, h),
        other => panic!("unexpected result {:?}", other),
    }
}

#[test]
fn failed_native_register_leaves_no_trace() {
    let mut svc = HotkeyService::new();
    let mut m = HotkeyManager::new(&mut svc);
    let h = parse_hotkey("CTRL+P").unwrap();
    match m.register(&mut svc, h.clone(), failing_native) {
        Err(Error::System(HotkeyError::BackendApiError(code))) => assert_eq!(code, 3),
        other => panic!("unexpected result {:?}", other),
    }
    assert!(!svc.is_bound(&h));
    assert!(!m.is_registered(&h));
    assert_eq!(svc.native_count(), 0);
}

#[test]
fn failed_native_unregister_keeps_state_consistent() {
    let mut svc = HotkeyService::new();
    let mut m = HotkeyManager::new(&mut svc);
    let h = parse_hotkey("CTRL+P").unwrap();
    assert!(m.register(&mut svc, h.clone(), ok_native).is_ok());
    match m.unregister(&mut svc, &h, failing_native) {
        Err(Error::System(HotkeyError::BackendApiError(_))) => {}
        other => panic!("unexpected result {:?}", other),
    }
    // the hotkey is still bound natively and the manager still owns it
    assert!(svc.is_bound(&h));
    assert!(m.is_registered(&h));
    // a later release with a healthy backend succeeds
    assert!(m.unregister(&mut svc, &h, ok_native).is_ok());
    assert!(!svc.is_bound(&h));
}

#[test]
fn colliding_encoding_is_refused_by_the_worker_check() {
    let mut svc = HotkeyService::new();
    let mut m = HotkeyManager::new(&mut svc);
    // different hotkeys, same OR-folded encoding
    let h1 = parse_hotkey("CTRL+A+B").unwrap();
    let h2 = parse_hotkey("CTRL+B+A").unwrap();
    assert!(m.register(&mut svc, h1, ok_native).is_ok());
    match m.register(&mut svc, h2, ok_native) {
        Err(Error::System(HotkeyError::HotkeyAlreadyRegistered(enc))) => {
            assert_eq!(enc.modifiers, 2);
            assert_eq!(enc.key, 0x41 | 0x42);
        }
        other => panic!("unexpected result {:?}", other),
    }
    assert_eq!(svc.native_count(), 1);
}

#[test]
fn unregister_all_releases_everything_owned() {
    let mut svc = HotkeyService::new();
    let mut m1 = HotkeyManager::new(&mut svc);
    let mut m2 = HotkeyManager::new(&mut svc);
    let shared = parse_hotkey("CTRL+P").unwrap();
    let solo1 = parse_hotkey("ALT+F4").unwrap();
    let solo2 = parse_hotkey("SUPER+UP").unwrap();

    assert!(m1.register(&mut svc, shared.clone(), ok_native).is_ok());
    assert!(m1.register(&mut svc, solo1.clone(), ok_native).is_ok());
    assert!(m1.register(&mut svc, solo2.clone(), ok_native).is_ok());
    assert!(m2.register(&mut svc, shared.clone(), ok_native).is_ok());
    assert_eq!(svc.native_count(), 3);

    assert!(m1.unregister_all(&mut svc, ok_native).is_ok());
    assert!(!m1.is_registered(&shared));
    assert!(!m1.is_registered(&solo1));
    assert!(!m1.is_registered(&solo2));
    // hotkeys owned by m1 alone are fully released
    assert!(!svc.is_bound(&solo1));
    assert!(!svc.is_bound(&solo2));
    // the shared one stays bound for the other manager
    assert!(svc.is_bound(&shared));
    assert_eq!(svc.native_count(), 1);
    assert_eq!(svc.owners_snapshot(&shared).len(), 1);
}

#[test]
fn native_id_lookup_finds_the_bound_hotkey() {
    let mut svc = HotkeyService::new();
    let mut m = HotkeyManager::new(&mut svc);
    let h = parse_hotkey("CTRL+P").unwrap();

    let seen_id = Cell::new(u64::MAX);
    let remembering = |cmd: NativeCmd| {
        if let NativeCmd::Register { id, .. } = cmd {
            seen_id.set(id);
        }
        Ok(())
    };
    assert!(m.register(&mut svc, h.clone(), remembering).is_ok());
    let id = seen_id.get();
    assert_eq!(svc.hotkey_for_native_id(id), Some(h));
    assert_eq!(svc.hotkey_for_native_id(id + 1), None);
}

#[test]
fn modifier_order_does_not_make_a_second_hotkey() {
    let mut svc = HotkeyService::new();
    let mut m1 = HotkeyManager::new(&mut svc);
    let mut m2 = HotkeyManager::new(&mut svc);
    let h1 = parse_hotkey("CTRL+SHIFT+P").unwrap();
    let h2 = parse_hotkey("SHIFT+CTRL+P").unwrap();

    let registers = Cell::new(0u32);
    let counting = |cmd: NativeCmd| {
        if let NativeCmd::Register { .. } = cmd {
            registers.set(registers.get() + 1);
        }
        Ok(())
    };

    assert!(m1.register(&mut svc, h1.clone(), counting).is_ok());
    // the same hotkey written in another modifier order joins the owner
    // table of the existing entry: no refusal, no second native slot
    assert!(m2.register(&mut svc, h2.clone(), counting).is_ok());
    assert_eq!(registers.get(), 1);
    assert_eq!(svc.native_count(), 1);
    assert_eq!(svc.owners_snapshot(&h1).len(), 2);
    assert_eq!(svc.owners_snapshot(&h2).len(), 2);

    // on the same manager it is an ownership conflict, not a native error
    match m1.register(&mut svc, h2.clone(), counting) {
        Err(Error::HotkeyAlreadyRegistered(back)) => assert_eq!(back, h2),
        other => panic!("unexpected result {:?}", other),
    }
    assert_eq!(registers.get(), 1);

    // either spelling releases it
    assert!(m1.unregister(&mut svc, &h2, ok_native).is_ok());
    assert!(svc.is_bound(&h1));
    assert!(m2.unregister(&mut svc, &h1, ok_native).is_ok());
    assert!(!svc.is_bound(&h1));
    assert_eq!(svc.native_count(), 0);
}

#[test]
fn owner_ids_are_never_reused() {
    let mut svc = HotkeyService::new();
    let m1 = HotkeyManager::new(&mut svc);
    let m2 = HotkeyManager::new(&mut svc);
    let m3 = HotkeyManager::new(&mut svc);
    assert!(m1.owner_id() != m2.owner_id());
    assert!(m2.owner_id() != m3.owner_id());
    assert!(m1.owner_id() != m3.owner_id());
}

#[test]
fn registered_encodings_mirror_the_native_table() {
    let mut svc = HotkeyService::new();
    let mut m = HotkeyManager::new(&mut svc);
    let h1 = parse_hotkey("CTRL+P").unwrap();
    let h2 = parse_hotkey("ALT+F4").unwrap();
    assert!(m.register(&mut svc, h1, ok_native).is_ok());
    assert!(m.register(&mut svc, h2, ok_native).is_ok());
    let encodings = svc.registered_encodings();
    assert_eq!(encodings.len(), 2);
    assert_eq!(encodings[0].modifiers, 2);
    assert_eq!(encodings[0].key, 0x50);
    assert_eq!(encodings[1].modifiers, 1);
    assert_eq!(encodings[1].key, 0x73);
}

#[test]
fn error_messages_match_their_variants() {
    let h = parse_hotkey("CTRL+P").unwrap();
    assert_eq!(
        Error::HotkeyAlreadyRegistered(h.clone()).message(),
        "Hotkey already registered"
    );
    assert_eq!(
        Error::HotkeyNotRegistered(h).message(),
        "Hotkey is not registered"
    );
    assert_eq!(
        Error::System(HotkeyError::BackendApiError(7)).message(),
        "Hotkey system error: backend api error"
    );
    assert_eq!(
        Error::System(HotkeyError::ChannelError).message(),
        "Hotkey system error: channel error"
    );
}
