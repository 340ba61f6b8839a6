use spotfreeze::capture::DibBuffer;
use spotfreeze::geometry::{Point, Rect};
use spotfreeze::hotkeys::gesture::{HotkeyGesture, Modifiers};
use spotfreeze::hotkeys::keymap::{cg_keycode_to_vk, vk_to_cg_keycode};
use spotfreeze::overlay::events::OverlayEvent;
use spotfreeze::platform::macos::capture::{
    capture_all, cgimage_to_dib, decode_error, describe_error, encode_error, is_permission_denial,
    listing_error, monitor_infos, redrawn, CaptureRefusal, ImageError, ImageRead, ScreenDesc,
    BITMAP_INFO_BGRA, ERROR_FIELD_SEP, K_CV_PIXEL_FORMAT_32_BGRA, PERMISSION_ERROR,
    SC_STREAM_ERROR_DOMAIN, SC_STREAM_ERROR_USER_DECLINED,
};
use spotfreeze::platform::macos::hotkeys::{
    carbon_event_handler, carbon_modifiers, CarbonHotkey, CarbonHotkeyManager, CMD_KEY,
    CONTROL_KEY, EVENT_NOT_HANDLED, HOTKEY_SIGNATURE, K_EVENT_CLASS_KEYBOARD,
    K_EVENT_HOT_KEY_PRESSED, K_EVENT_PARAM_DIRECT_OBJECT, OPTION_KEY, SHIFT_KEY,
    TYPE_EVENT_HOT_KEY_ID,
};
use spotfreeze::platform::macos::surface::{
    clamp_to_store, create_overlay_surface, install_event_monitor, modifiers_from, Invalidate,
    MacOverlaySurface, NativeEvent, SurfaceError,
};

// ---- capture ----------------------------------------------------------------

#[test]
fn pixel_format_constant_is_32bgra() {
    assert_eq!(K_CV_PIXEL_FORMAT_32_BGRA, 0x4247_5241);
}

#[test]
fn bitmap_info_is_bgra_little_endian_premultiplied_first() {
    let premultiplied_first = 2u32;
    let order_32_little = 2u32 << 12;
    assert_eq!(BITMAP_INFO_BGRA, premultiplied_first | order_32_little);
}

/// A screen from its frame in points (origin bottom left) and its scale.
fn screen(
    display_id: u32,
    frame: (f64, f64, f64, f64),
    scale: f64,
    is_primary: bool,
    primary_height: f64,
) -> ScreenDesc {
    let px = |v: f64| v.round() as i32;
    let (x, y, w, h) = frame;
    ScreenDesc {
        display_id,
        rect: Rect::new(
            px(x * scale),
            px((primary_height - (y + h)) * scale),
            px(w * scale) as u32,
            px(h * scale) as u32,
        ),
        dpi: (96.0 * scale).round() as u32,
        is_primary,
    }
}

#[test]
fn monitor_info_uses_virtual_pixels_and_scaled_dpi() {
    let screens = vec![
        screen(1, (0.0, 0.0, 1440.0, 900.0), 2.0, true, 900.0),
        screen(2, (-1920.0, -180.0, 1920.0, 1080.0), 1.0, false, 900.0),
    ];
    let infos = monitor_infos(&screens);
    assert_eq!(infos.len(), 2);
    assert_eq!(infos[0].rect, Rect::new(0, 0, 2880, 1800));
    assert_eq!(infos[0].dpi_x, 192);
    assert!(infos[0].is_primary);
    assert_eq!(infos[0].device_name, "1");
    assert_eq!(infos[1].rect, Rect::new(-1920, 0, 1920, 1080));
    assert_eq!(infos[1].dpi_x, 96);
    assert!(!infos[1].is_primary);
}

#[test]
fn monitor_info_falls_back_to_indexed_name_without_display_id() {
    let screens = vec![
        screen(1, (0.0, 0.0, 100.0, 100.0), 1.0, true, 100.0),
        screen(0, (100.0, 0.0, 100.0, 100.0), 1.0, false, 100.0),
    ];
    let infos = monitor_infos(&screens);
    assert_eq!(infos[1].device_name, "display-1");
}

#[test]
fn permission_denial_detects_scstream_user_declined() {
    // The definitive signal — even a stale-TRUE preflight must not mask it.
    assert!(is_permission_denial(
        true,
        false,
        Some(SC_STREAM_ERROR_DOMAIN),
        Some(SC_STREAM_ERROR_USER_DECLINED),
        Some("The user declined TCC."),
    ));
}

#[test]
fn permission_denial_detects_wording_variants() {
    // Domain/code vary across macOS releases; TCC-ish wording is enough.
    assert!(is_permission_denial(
        false,
        false,
        None,
        None,
        Some("The user declined TCC."),
    ));
    assert!(is_permission_denial(
        false,
        false,
        None,
        Some(-1),
        Some("Screen Recording is not allowed for this app."),
    ));
    assert!(is_permission_denial(
        false,
        false,
        Some("com.apple.TCC.error"),
        None,
        None,
    ));
}

#[test]
fn permission_denial_detects_empty_displays_under_false_preflight() {
    assert!(is_permission_denial(false, true, None, None, None));
    // A true preflight means an empty list is NOT a denial signal.
    assert!(!is_permission_denial(true, true, None, None, None));
}

#[test]
fn permission_denial_leaves_other_failures_alone() {
    // Same domain, different code: a real SCK failure, not a denial.
    assert!(!is_permission_denial(
        false,
        false,
        Some(SC_STREAM_ERROR_DOMAIN),
        Some(-3808),
        Some("The stream failed to start."),
    ));
    assert!(!is_permission_denial(
        false,
        false,
        None,
        None,
        Some("unknown ScreenCaptureKit error"),
    ));
    assert!(!is_permission_denial(true, false, None, None, None));
}

#[test]
fn error_encoding_round_trips_through_decode() {
    let encoded = format!(
        "{SC_STREAM_ERROR_DOMAIN}{ERROR_FIELD_SEP}{SC_STREAM_ERROR_USER_DECLINED}{ERROR_FIELD_SEP}The user declined TCC."
    );
    let (domain, code, description) = decode_error(&encoded);
    assert_eq!(domain.as_deref(), Some(SC_STREAM_ERROR_DOMAIN));
    assert_eq!(code, Some(SC_STREAM_ERROR_USER_DECLINED));
    assert_eq!(description, "The user declined TCC.");
}

#[test]
fn decode_error_tolerates_a_plain_message() {
    let (domain, code, description) = decode_error("unknown ScreenCaptureKit error");
    assert_eq!(domain, None);
    assert_eq!(code, None);
    assert_eq!(description, "unknown ScreenCaptureKit error");
}

#[test]
fn encoding_then_decoding_restores_the_fields() {
    let encoded = encode_error(Some(("some.domain", -17, "it failed")));
    assert_eq!(
        decode_error(&encoded),
        (Some(String::from("some.domain")), Some(-17), String::from("it failed"))
    );
    // An empty domain reads as none; a description is made from the code.
    assert_eq!(
        decode_error(&encode_error(Some(("", 3, "")))),
        (None, Some(3), String::from("ScreenCaptureKit error 3"))
    );
    assert_eq!(
        decode_error(&encode_error(None)),
        (None, None, String::from("unknown ScreenCaptureKit error"))
    );
    // The description may hold separators.
    let odd = format!("a{ERROR_FIELD_SEP}b");
    assert_eq!(decode_error(&encode_error(Some(("d", i64::MIN, &odd)))).2, odd);
    {
        assert_eq!(describe_error(Some((5, "text"))), "text");
        assert_eq!(describe_error(Some((-5, ""))), "ScreenCaptureKit error -5");
        assert_eq!(describe_error(None), "unknown ScreenCaptureKit error");
    }
    {
        let denied = encode_error(Some((
            SC_STREAM_ERROR_DOMAIN,
            SC_STREAM_ERROR_USER_DECLINED,
            "no",
        )));
        assert_eq!(listing_error(true, &denied), PERMISSION_ERROR);
        assert_eq!(listing_error(false, "broken"), "listing shareable displays failed: broken");
    }
}

#[test]
fn screens_are_paired_with_displays() {
    let a = screen(7, (0.0, 0.0, 10.0, 10.0), 1.0, true, 10.0);
    let b = screen(9, (10.0, 0.0, 10.0, 10.0), 1.0, false, 10.0);
    assert_eq!(capture_all(&[a, b], &[9, 7], false), Ok(vec![1, 0]));
    assert_eq!(capture_all(&[], &[9, 7], true), Err(CaptureRefusal::NoScreens));
    assert_eq!(capture_all(&[a], &[], false), Err(CaptureRefusal::Permission));
    assert_eq!(capture_all(&[a], &[], true), Err(CaptureRefusal::Unavailable(0)));
    assert_eq!(capture_all(&[a, b], &[7], false), Err(CaptureRefusal::Unavailable(1)));
}

#[test]
fn images_are_read_row_by_row() {
    let bytes = [1, 2, 3, 0, 9, 9, 5, 6, 7, 8, 9, 9];
    match cgimage_to_dib(1, 2, 8, 32, 6, Some(&bytes)) {
        Ok(ImageRead::Copied(dib)) => {
            assert_eq!(dib.pixels, vec![1, 2, 3, 255, 5, 6, 7, 255]);
        }
        _ => panic!("expected a copy"),
    }
    for odd in [
        cgimage_to_dib(1, 2, 16, 64, 6, Some(&bytes)),
        cgimage_to_dib(2, 2, 8, 32, 6, Some(&bytes)),
        cgimage_to_dib(1, 3, 8, 32, 6, Some(&bytes)),
        cgimage_to_dib(1, 2, 8, 32, 6, None),
    ] {
        assert!(matches!(odd, Ok(ImageRead::Redraw)));
    }
    assert!(matches!(cgimage_to_dib(0, 2, 8, 32, 6, None), Err(ImageError::Empty)));
    assert!(matches!(
        cgimage_to_dib(u32::MAX, 2, 8, 32, 6, None),
        Err(ImageError::TooLarge)
    ));
    let dib = redrawn(1, 2, vec![1, 2, 3, 0, 5, 6, 7, 8]);
    assert_eq!(dib.pixels, vec![1, 2, 3, 255, 5, 6, 7, 255]);
}

// ---- hotkeys ------------------------------------------------------------------

#[test]
fn carbon_flags_match_the_crate_modifiers() {
    assert_eq!(carbon_modifiers(Modifiers::none()), 0);
    assert_eq!(carbon_modifiers(Modifiers::win()), CMD_KEY);
    assert_eq!(carbon_modifiers(Modifiers::shift()), SHIFT_KEY);
    assert_eq!(carbon_modifiers(Modifiers::alt()), OPTION_KEY);
    assert_eq!(carbon_modifiers(Modifiers::ctrl()), CONTROL_KEY);
    assert_eq!(
        carbon_modifiers(Modifiers::ctrl() | Modifiers::alt() | Modifiers::shift() | Modifiers::win()),
        CMD_KEY | SHIFT_KEY | OPTION_KEY | CONTROL_KEY
    );
}

#[test]
fn carbon_flag_values_match_events_h() {
    // Events.h modifier bit values.
    assert_eq!(CMD_KEY, 0x0100);
    assert_eq!(SHIFT_KEY, 0x0200);
    assert_eq!(OPTION_KEY, 0x0800);
    assert_eq!(CONTROL_KEY, 0x1000);
}

#[test]
fn fourcc_constants_match_their_ascii_sources() {
    assert_eq!(K_EVENT_CLASS_KEYBOARD, 0x6B65_7962); // 'keyb'
    assert_eq!(K_EVENT_PARAM_DIRECT_OBJECT, 0x2D2D_2D2D); // '----'
    assert_eq!(TYPE_EVENT_HOT_KEY_ID, 0x686B_6964); // 'hkid'
    assert_eq!(HOTKEY_SIGNATURE, 0x5350_465A); // 'SPFZ'
}

#[test]
fn a_gesture_becomes_a_registration() {
    let manager = CarbonHotkeyManager::install(0, 5).unwrap();
    let f = HotkeyGesture::parse("Win+F").unwrap();
    let q = manager.register(f).unwrap();
    assert_eq!((q.key_code, q.modifiers), (3, CMD_KEY));
    assert_eq!((q.signature, q.id), (HOTKEY_SIGNATURE, 1));
    let print = HotkeyGesture::parse("PrintScreen").unwrap();
    assert_eq!(
        manager.register(print).unwrap_err(),
        "the key PrintScreen has no macOS keycode"
    );
    assert_eq!(CarbonHotkey::settle(f, 0, 9).unwrap().hotkey, 9);
    assert_eq!(
        CarbonHotkey::settle(f, -9878, 0).unwrap_err(),
        "RegisterEventHotKey for Win+F failed with OSStatus -9878"
    );
    assert_eq!(
        CarbonHotkeyManager::install(-1, 0).unwrap_err(),
        "InstallEventHandler failed with OSStatus -1"
    );
    {
        let (active, released) = CarbonHotkey::rebind(CarbonHotkey { hotkey: 1 }, None);
        assert_eq!(active.hotkey, 1);
        assert!(released.is_none());
        let (active, released) =
            CarbonHotkey::rebind(CarbonHotkey { hotkey: 1 }, Some(CarbonHotkey { hotkey: 2 }));
        assert_eq!(active.hotkey, 2);
        assert_eq!(released.unwrap().hotkey, 1);
    }
}

#[test]
fn only_own_hotkey_presses_are_handled() {
    let press = |sig| {
        carbon_event_handler(K_EVENT_CLASS_KEYBOARD, K_EVENT_HOT_KEY_PRESSED, sig)
    };
    assert_eq!(press(Some(HOTKEY_SIGNATURE)), (0, true));
    assert_eq!(press(Some(1)), (EVENT_NOT_HANDLED, false));
    assert_eq!(press(None), (EVENT_NOT_HANDLED, false));
    assert_eq!(
        carbon_event_handler(K_EVENT_CLASS_KEYBOARD, 6, Some(HOTKEY_SIGNATURE)),
        (EVENT_NOT_HANDLED, false)
    );
}

#[test]
fn key_codes_map_both_ways() {
    assert_eq!(cg_keycode_to_vk(0), Some(0x41));
    assert_eq!(cg_keycode_to_vk(53), Some(0x1b));
    assert_eq!(cg_keycode_to_vk(500), None);
    assert_eq!(vk_to_cg_keycode(0x84), None);
    let mut mapped = 0;
    for code in 0..128u16 {
        if let Some(vk) = cg_keycode_to_vk(code) {
            assert_eq!(vk_to_cg_keycode(vk), Some(code));
            mapped += 1;
        }
    }
    assert!(mapped > 60);
}

// ---- surface ------------------------------------------------------------------

const SHIFT_FLAG: u64 = 1 << 17;
const CONTROL_FLAG: u64 = 1 << 18;
const OPTION_FLAG: u64 = 1 << 19;
const COMMAND_FLAG: u64 = 1 << 20;

#[test]
fn modifier_flags_map_to_the_crate_bits() {
    assert_eq!(modifiers_from(0), Modifiers::none());
    assert_eq!(modifiers_from(SHIFT_FLAG), Modifiers::shift());
    assert_eq!(modifiers_from(CONTROL_FLAG), Modifiers::ctrl());
    assert_eq!(modifiers_from(OPTION_FLAG), Modifiers::alt());
    assert_eq!(modifiers_from(COMMAND_FLAG), Modifiers::win());
}

#[test]
fn modifier_flags_combine() {
    let caps_lock = 1 << 16;
    let numeric_pad = 1 << 21;
    let flags = SHIFT_FLAG | COMMAND_FLAG | caps_lock | numeric_pad;
    assert_eq!(modifiers_from(flags), Modifiers::shift() | Modifiers::win());
}

#[test]
fn clamp_keeps_fully_inside_rects() {
    let r = Rect::new(10, 20, 100, 50);
    assert_eq!(clamp_to_store(r, 200, 200), Some(r));
}

#[test]
fn clamp_crops_partially_outside_rects() {
    assert_eq!(
        clamp_to_store(Rect::new(-10, 90, 50, 30), 100, 100),
        Some(Rect::new(0, 90, 40, 10))
    );
}

#[test]
fn clamp_drops_fully_outside_rects() {
    assert_eq!(clamp_to_store(Rect::new(0, 200, 10, 10), 100, 100), None);
    assert_eq!(clamp_to_store(Rect::new(-50, 0, 10, 10), 100, 100), None);
}

#[test]
fn presenting_copies_the_frame_or_its_region() {
    let mut s = MacOverlaySurface::new(Rect::new(5, 5, 3, 2)).ok().unwrap();
    let frame = DibBuffer { width: 3, height: 2, stride: 12, pixels: (1..=24).collect() };
    assert_eq!(
        s.present(&frame, Some(Rect::new(1, 1, 9, 9))),
        Ok(Invalidate::Region(Rect::new(1, 1, 2, 1)))
    );
    for i in 0..24usize {
        assert_eq!(s.pixels[i], if i >= 16 { i as u8 + 1 } else { 0 });
    }
    assert_eq!(s.present(&frame, Some(Rect::new(9, 9, 1, 1))), Ok(Invalidate::Whole));
    assert_eq!(s.pixels[0], 0);
    assert_eq!(s.present(&frame, None), Ok(Invalidate::Whole));
    assert_eq!(s.pixels, frame.pixels);
    assert_eq!(s.present(&DibBuffer::new(2, 2), None), Err(SurfaceError::LayoutMismatch));
    assert_eq!(
        MacOverlaySurface::new(Rect::new(0, 0, u32::MAX, 1)).err(),
        Some(SurfaceError::TooLarge)
    );
}

#[test]
fn input_becomes_overlay_events() {
    let at = Point::new(3, 4);
    let seen = install_event_monitor(true, NativeEvent::LeftMouseDragged { at });
    assert_eq!(seen.report, Some(OverlayEvent::MouseMove { at }));
    assert!(seen.pass_on);
    let seen = install_event_monitor(
        true,
        NativeEvent::ScrollWheel { at, delta: 12, flags: CONTROL_FLAG },
    );
    assert_eq!(
        seen.report,
        Some(OverlayEvent::MouseWheel { at, delta: 12, modifiers: Modifiers::ctrl() })
    );
    // Keys are swallowed, known or not.
    let seen = install_event_monitor(true, NativeEvent::KeyDown { key_code: 53, flags: 0 });
    assert_eq!(
        seen.report,
        Some(OverlayEvent::KeyDown { vk: 0x1b, modifiers: Modifiers::none() })
    );
    assert!(!seen.pass_on);
    let seen = install_event_monitor(true, NativeEvent::KeyDown { key_code: 999, flags: 0 });
    assert_eq!((seen.report, seen.pass_on), (None, false));
    // Another window's events pass.
    let seen = install_event_monitor(false, NativeEvent::KeyDown { key_code: 53, flags: 0 });
    assert_eq!((seen.report, seen.pass_on), (None, true));
    {
        let screens = [Rect::new(0, 0, 4, 4), Rect::new(4, 0, 4, 4)];
        assert_eq!(create_overlay_surface(screens[1], &screens), Some(1));
        assert_eq!(create_overlay_surface(Rect::new(4, 0, 4, 5), &screens), None);
    }
}
