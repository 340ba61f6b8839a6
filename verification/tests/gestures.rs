use spotfreeze::hotkeys::gesture::{HotkeyGesture, Modifiers, ParseGestureError};
use spotfreeze::hotkeys::keymap::{evdev_to_vk, modifiers_of_mask};

#[test]
fn gestures_parse_and_show() {
    for (text, modifiers, vk) in [
        ("F", Modifiers::none(), 0x46u32),
        ("0", Modifiers::none(), 0x30),
        ("Esc", Modifiers::none(), 0x1b),
        ("F5", Modifiers::none(), 0x74),
        ("F24", Modifiers::none(), 0x87),
        ("Ctrl+C", Modifiers::ctrl(), 0x43),
        ("Win+F", Modifiers::win(), 0x46),
        ("Ctrl+Alt+Shift+S", Modifiers::ctrl() | Modifiers::alt() | Modifiers::shift(), 0x53),
    ] {
        let g = HotkeyGesture::parse(text).unwrap();
        assert_eq!(g, HotkeyGesture::new(modifiers, vk), "{text}");
        assert_eq!(g.to_display(), text);
    }
}

#[test]
fn shown_gestures_parse_back() {
    for vk in 0..=0x100u32 {
        for (ctrl, win) in [(false, false), (true, false), (true, true)] {
            let m = Modifiers { alt: false, ctrl, shift: false, win };
            let g = HotkeyGesture::new(m, vk);
            if let Ok(back) = HotkeyGesture::parse(&g.to_display()) {
                assert_eq!(back, g);
            }
        }
    }
}

#[test]
fn bad_gestures_are_refused() {
    assert_eq!(HotkeyGesture::parse("Foo+C"), Err(ParseGestureError::UnknownModifier));
    assert_eq!(HotkeyGesture::parse("Ctrl+Ctrl+C"), Err(ParseGestureError::RepeatedModifier));
    assert_eq!(HotkeyGesture::parse("Ctrl+Nope"), Err(ParseGestureError::UnknownKey));
    assert!(HotkeyGesture::parse("").is_err());
}

#[test]
fn modifier_sets() {
    let both = Modifiers::ctrl() | Modifiers::shift();
    assert!(both.contains(Modifiers::ctrl()));
    assert!(both.contains(Modifiers::none()));
    assert!(!Modifiers::ctrl().contains(both));
    assert!(Modifiers::none().is_empty());
    assert!(!both.is_empty());
    // The bits of the Windows registration.
    assert_eq!(Modifiers::alt().bits(), 1);
    assert_eq!(Modifiers::ctrl().bits(), 2);
    assert_eq!(Modifiers::shift().bits(), 4);
    assert_eq!(Modifiers::win().bits(), 8);
    assert_eq!(both.bits(), 6);
    assert_eq!(both.to_display(), "Ctrl+Shift");
    assert_eq!(Modifiers::none().to_display(), "");
}

#[test]
fn modifier_names_parse_back() {
    for bits in 0..16u32 {
        let m = Modifiers {
            alt: bits & 1 != 0,
            ctrl: bits & 2 != 0,
            shift: bits & 4 != 0,
            win: bits & 8 != 0,
        };
        assert_eq!(Modifiers::parse(&m.to_display()), Ok(m));
    }
    assert_eq!(Modifiers::parse("Shift+Ctrl"), Ok(Modifiers::ctrl() | Modifiers::shift()));
    assert_eq!(Modifiers::parse("Ctrl+"), Err(ParseGestureError::UnknownModifier));
    assert_eq!(Modifiers::parse("A"), Err(ParseGestureError::UnknownModifier));
    assert_eq!(Modifiers::parse("Alt+Alt"), Err(ParseGestureError::RepeatedModifier));
}

#[test]
fn kernel_keys_and_masks() {
    assert_eq!(evdev_to_vk(1), Some(0x1b));
    assert_eq!(evdev_to_vk(46), Some(0x43));
    assert_eq!(evdev_to_vk(11), Some(0x30));
    assert_eq!(evdev_to_vk(59), Some(0x70));
    assert_eq!(evdev_to_vk(194), Some(0x87));
    assert_eq!(evdev_to_vk(0), None);
    assert_eq!(evdev_to_vk(5000), None);
    assert_eq!(modifiers_of_mask(0), Modifiers::none());
    assert_eq!(modifiers_of_mask(0x01 | 0x02), Modifiers::shift());
    assert_eq!(modifiers_of_mask(0x04 | 0x10), Modifiers::ctrl());
    assert_eq!(modifiers_of_mask(0x08), Modifiers::alt());
    assert_eq!(modifiers_of_mask(0x40), Modifiers::win());
}

#[test]
fn modifier_keys_cannot_be_registered() {
    for vk in [0x10u32, 0x11, 0x12, 0x5b, 0x5c] {
        assert!(!HotkeyGesture::new(Modifiers::ctrl(), vk).is_registerable(), "{vk}");
    }
    assert!(HotkeyGesture::new(Modifiers::ctrl(), 0x43).is_registerable());
}
