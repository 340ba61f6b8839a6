use spotfreeze::hotkeys::gesture::{HotkeyGesture, Modifiers};
use spotfreeze::hotkeys::manager::{Book, HotkeyError, HotkeyId, HotkeyManager, MAX_HOTKEY_ID};

/// Ctrl+<vk> — a normal, registerable chord.
fn chord(vk: u32) -> HotkeyGesture {
    HotkeyGesture {
        modifiers: Modifiers::ctrl(),
        vk,
    }
}

#[test]
fn register_assigns_sequential_ids_and_records_gestures() {
    let mut book = Book::new();
    let f = chord(0x46); // Ctrl+F
    let q = chord(0x51); // Ctrl+Q
    let id_f = book.register(f).unwrap();
    let id_q = book.register(q).unwrap();
    assert_eq!(id_f, 1);
    assert_eq!(id_q, 2);
    assert_eq!(book.get(id_f), Some(f));
    assert_eq!(book.get(id_q), Some(q));
    assert_eq!(book.get(999), None);
}

#[test]
fn duplicate_gesture_is_rejected() {
    let mut book = Book::new();
    let f = chord(0x46);
    book.register(f).unwrap();
    assert!(book.register(f).is_err());
    // Rejection must not consume an id.
    let next = book.register(chord(0x51)).unwrap();
    assert_eq!(next, 2);
}

#[test]
fn modifier_only_chord_is_rejected() {
    let mut book = Book::new();
    // VK_SHIFT (0x10) is a modifier key, not a usable gesture key.
    let bad = HotkeyGesture {
        modifiers: Modifiers::none(),
        vk: 0x10,
    };
    assert!(book.register(bad).is_err());
}

#[test]
fn remove_returns_gesture_and_frees_lookup() {
    let mut book = Book::new();
    let f = chord(0x46);
    let id = book.register(f).unwrap();
    assert_eq!(book.remove(id).unwrap(), f);
    assert_eq!(book.get(id), None);
    // After removal the gesture may be registered again.
    let id2 = book.register(f).unwrap();
    assert_eq!(book.get(id2), Some(f));
}

#[test]
fn remove_unknown_id_is_an_error() {
    let mut book = Book::new();
    assert!(book.remove(42).is_err());
}

#[test]
fn alloc_id_wraps_past_max_to_one() {
    let mut book = Book::new();
    book.next_id = MAX_HOTKEY_ID;
    let first = book.register(chord(0x46)).unwrap();
    let second = book.register(chord(0x51)).unwrap();
    assert_eq!(first, MAX_HOTKEY_ID);
    assert_eq!(second, 1);
}

#[test]
fn alloc_id_errors_when_space_is_exhausted() {
    let mut book = Book::new();
    // Fill the entire id space directly (bypassing validation — this is
    // bookkeeping-only and stays headless).
    let g = chord(0x46);
    for id in 1..=MAX_HOTKEY_ID {
        book.map.insert(id, g);
    }
    assert!(book.alloc_id().is_err());
}

#[test]
fn handle_wm_hotkey_resolves_registered_and_ignores_foreign_ids() {
    // A null HWND is fine here: handle_wm_hotkey performs no Win32 call.
    let mut mgr = HotkeyManager::new(0);
    let f = chord(0x46);
    let id = mgr.book.register(f).unwrap();

    let resolved = mgr.handle_wm_hotkey(id as usize);
    assert_eq!(resolved, Some((HotkeyId(id), f)));

    assert_eq!(mgr.handle_wm_hotkey(0x5AFEusize), None);
    assert_eq!(mgr.gesture(HotkeyId(id)), Some(f));
    assert_eq!(mgr.gesture(HotkeyId(12345)), None);
}

#[test]
fn each_refusal_is_named() {
    let mut book = Book::new();
    let f = chord(0x46);
    book.register(f).unwrap();
    assert_eq!(book.register(f), Err(HotkeyError::AlreadyRegistered));
    let shift_key = HotkeyGesture { modifiers: Modifiers::none(), vk: 0x10 };
    assert_eq!(book.register(shift_key), Err(HotkeyError::NotRegisterable));
    assert_eq!(book.remove(42), Err(HotkeyError::UnknownId));
    let mut full = Book::new();
    for id in 1..=MAX_HOTKEY_ID {
        full.map.insert(id, f);
    }
    assert_eq!(full.alloc_id(), Err(HotkeyError::IdsExhausted));
}

#[test]
fn a_refused_registration_leaves_no_trace() {
    let mut mgr = HotkeyManager::new(0);
    let f = chord(0x46);
    let id = mgr.register(f).unwrap();
    assert_eq!(mgr.settle(id, false), Err(HotkeyError::Refused));
    assert_eq!(mgr.gesture(id), None);
    let id = mgr.register(f).unwrap();
    assert_eq!(mgr.settle(id, true), Ok(id));
    assert_eq!(mgr.gesture(id), Some(f));
}

#[test]
fn unregistering_keeps_what_the_system_did_not_release() {
    let mut mgr = HotkeyManager::new(0);
    let a = mgr.register(chord(0x46)).unwrap();
    let b = mgr.register(chord(0x51)).unwrap();
    assert!(mgr.unregister(a, true).is_ok());
    assert_eq!(mgr.gesture(a), None);
    assert_eq!(mgr.gesture(b), Some(chord(0x51)));
    assert_eq!(mgr.unregister(HotkeyId(77), true), Err(HotkeyError::UnknownId));
    assert_eq!(mgr.book.ids(), vec![b.0]);
    {
        let mut mgr = HotkeyManager::new(0);
        let a = mgr.register(chord(0x46)).unwrap();
        let b = mgr.register(chord(0x51)).unwrap();
        assert_eq!(mgr.unregister(b, false), Err(HotkeyError::Refused));
        assert_eq!(
            mgr.unregister_all(&[(a.0, true), (b.0, false)]),
            Err(HotkeyError::Refused)
        );
        assert_eq!(mgr.gesture(a), None);
        assert_eq!(mgr.gesture(b), Some(chord(0x51)));
        assert_eq!(mgr.unregister_all(&[(b.0, true)]), Ok(()));
        assert!(mgr.book.ids().is_empty());
    }
}
