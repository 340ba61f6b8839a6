use spotfreeze::capture::DibBuffer;
use spotfreeze::geometry::{Point, Rect};
use spotfreeze::hotkeys::gesture::Modifiers;
use spotfreeze::overlay::events::OverlayEvent;
use spotfreeze::overlay::window::{
    clip_to_frame, copy_region, current_modifiers, lparam_point, overlay_wndproc, section_header,
    wheel_delta_raw, wheel_target, OverlayWindow, WindowError, WndAction, WM_ERASEBKGND,
    WM_KEYDOWN, WM_LBUTTONDOWN, WM_MOUSEMOVE, WM_MOUSEWHEEL, WM_NCCREATE, WM_NCDESTROY, WM_PAINT,
};

/// Build an lParam the way Windows packs signed client coords.
fn pack_lparam(x: i16, y: i16) -> isize {
    (((y as u16 as u32) << 16) | (x as u16 as u32)) as usize as isize
}

/// Build a wParam with a signed HIWORD (wheel delta style).
fn pack_wparam_hi(hi: i16, lo: u16) -> usize {
    (((hi as u16 as u32) << 16) | (lo as u32)) as usize
}

#[test]
fn lparam_point_decodes_positive_coords() {
    assert_eq!(lparam_point(pack_lparam(10, 20)), Point::new(10, 20));
    assert_eq!(lparam_point(pack_lparam(0, 0)), Point::new(0, 0));
    assert_eq!(lparam_point(pack_lparam(1920, 1080)), Point::new(1920, 1080));
}

#[test]
fn lparam_point_sign_extends_negative_coords() {
    // Possible in exotic message routing; must not wrap to ~65531.
    assert_eq!(lparam_point(pack_lparam(-5, -12)), Point::new(-5, -12));
    assert_eq!(lparam_point(pack_lparam(-1, 1)), Point::new(-1, 1));
    assert_eq!(lparam_point(pack_lparam(1, -1)), Point::new(1, -1));
}

#[test]
fn wheel_delta_raw_decodes_signed_hiword() {
    assert_eq!(wheel_delta_raw(pack_wparam_hi(120, 0)), 120);
    assert_eq!(wheel_delta_raw(pack_wparam_hi(-120, 0)), -120);
    assert_eq!(wheel_delta_raw(pack_wparam_hi(60, 0xFFFF)), 60);
    assert_eq!(wheel_delta_raw(0), 0);
}

/// Primary 1920x1080 at (0,0) + secondary 2560x1440 LEFT of it (negative x).
fn two_monitors() -> Vec<Rect> {
    vec![Rect::new(0, 0, 1920, 1080), Rect::new(-2560, 0, 2560, 1440)]
}

#[test]
fn wheel_target_routes_to_monitor_under_cursor() {
    // The wheel event belongs to the monitor containing
    // the CURSOR, regardless of which window received the message. The
    // fallback argument (the receiving window) must be irrelevant here.
    let mons = two_monitors();
    for fallback in [0, 1] {
        assert_eq!(
            wheel_target(Point::new(100, 200), &mons, fallback),
            (0, Point::new(100, 200)),
            "cursor on primary, receiver {fallback}"
        );
        assert_eq!(
            wheel_target(Point::new(-100, 200), &mons, fallback),
            (1, Point::new(2460, 200)), // local = screen - (-2560, 0)
            "cursor on secondary, receiver {fallback}"
        );
    }
}

#[test]
fn wheel_target_converts_to_monitor_local_coords() {
    let mons = two_monitors();
    // Corners: top-left of each monitor maps to local (0, 0).
    assert_eq!(wheel_target(Point::new(0, 0), &mons, 1), (0, Point::new(0, 0)));
    assert_eq!(
        wheel_target(Point::new(-2560, 0), &mons, 0),
        (1, Point::new(0, 0))
    );
    // Bottom-right pixel of the secondary (right/bottom edges exclusive).
    assert_eq!(
        wheel_target(Point::new(-1, 1439), &mons, 0),
        (1, Point::new(2559, 1439))
    );
}

#[test]
fn wheel_target_outside_all_monitors_falls_back_to_receiver() {
    // Transient display-change state: keep the event on the receiving
    // window's monitor rather than dropping it.
    let mons = two_monitors();
    assert_eq!(
        wheel_target(Point::new(5000, 5000), &mons, 1),
        (1, Point::new(7560, 5000)) // local against the receiver's rect
    );
    assert_eq!(
        wheel_target(Point::new(5000, 5000), &mons, 0),
        (0, Point::new(5000, 5000))
    );
}

#[test]
fn clip_to_frame_keeps_fully_inside_rect() {
    let r = Rect::new(2, 3, 10, 20);
    assert_eq!(clip_to_frame(r, 100, 100), Some(r));
}

#[test]
fn clip_to_frame_clips_edges() {
    // Overflows right/bottom.
    assert_eq!(
        clip_to_frame(Rect::new(90, 90, 50, 50), 100, 100),
        Some(Rect::new(90, 90, 10, 10))
    );
    // Negative origin: clipped to left/top.
    assert_eq!(
        clip_to_frame(Rect::new(-5, -8, 10, 10), 100, 100),
        Some(Rect::new(0, 0, 5, 2))
    );
}

#[test]
fn clip_to_frame_rejects_non_overlapping() {
    assert_eq!(clip_to_frame(Rect::new(100, 0, 10, 10), 100, 100), None);
    assert_eq!(clip_to_frame(Rect::new(0, 100, 10, 10), 100, 100), None);
    assert_eq!(clip_to_frame(Rect::new(-20, 0, 10, 10), 100, 100), None);
    // Touching edges count as empty overlap.
    assert_eq!(clip_to_frame(Rect::new(50, 0, 0, 10), 100, 100), None);
    assert_eq!(clip_to_frame(Rect::new(0, 0, 10, 0), 100, 100), None);
}

#[test]
fn clip_to_frame_handles_extreme_values() {
    // u32::MAX width must not overflow the edge math.
    assert_eq!(
        clip_to_frame(Rect::new(0, 0, u32::MAX, u32::MAX), 4, 4),
        Some(Rect::new(0, 0, 4, 4))
    );
    assert_eq!(clip_to_frame(Rect::new(i32::MIN, i32::MIN, 10, 10), 4, 4), None);
}

/// 4×3 BGRA frame: byte value = linear offset, so every byte is unique.
fn test_frame() -> (Vec<u8>, usize) {
    let (w, h) = (4usize, 3usize);
    let stride = w * 4;
    let pixels: Vec<u8> = (0..stride * h).map(|i| i as u8).collect();
    (pixels, stride)
}

#[test]
fn copy_region_full_frame_copies_everything() {
    let (src, stride) = test_frame();
    let mut dst = vec![0u8; src.len()];
    copy_region(&mut dst, &src, stride, None);
    assert_eq!(dst, src);
}

#[test]
fn copy_region_dirty_copies_only_the_rect() {
    let (src, stride) = test_frame();
    let mut dst = vec![0u8; src.len()];
    let dirty = Rect::new(1, 1, 2, 2); // pixels x∈[1,3), y∈[1,3)
    copy_region(&mut dst, &src, stride, Some(dirty));
    for y in 0..3usize {
        for x in 0..4usize {
            let inside = (1..3).contains(&x) && (1..3).contains(&y);
            for k in 0..4 {
                let off = y * stride + x * 4 + k;
                assert_eq!(
                    dst[off],
                    if inside { src[off] } else { 0 },
                    "byte at pixel ({x}, {y}) channel {k}"
                );
            }
        }
    }
}

#[test]
fn copy_region_single_pixel() {
    let (src, stride) = test_frame();
    let mut dst = vec![0u8; src.len()];
    let dirty = Rect::new(3, 2, 1, 1); // bottom-right pixel
    copy_region(&mut dst, &src, stride, Some(dirty));
    let off = 2 * stride + 3 * 4; // byte offset 44 → values 44..=47, all non-zero
    assert_eq!(&dst[off..off + 4], &src[off..off + 4]);
    assert_eq!(dst.iter().filter(|&&b| b != 0).count(), 4); // exactly that one pixel
}

#[test]
fn messages_become_overlay_events() {
    let mons = two_monitors();
    let ask = |msg, wparam, lparam| {
        overlay_wndproc(true, msg, wparam, lparam, Modifiers::ctrl(), 1, &mons)
    };
    assert_eq!(
        ask(WM_MOUSEMOVE, 0, pack_lparam(3, 4)),
        WndAction::Emit { monitor: 1, event: OverlayEvent::MouseMove { at: Point::new(3, 4) } }
    );
    assert_eq!(
        ask(WM_LBUTTONDOWN, 0, pack_lparam(3, 4)),
        WndAction::Emit {
            monitor: 1,
            event: OverlayEvent::LeftButtonDown { at: Point::new(3, 4) }
        }
    );
    // The wheel goes to the monitor under the cursor.
    assert_eq!(
        ask(WM_MOUSEWHEEL, pack_wparam_hi(-120, 0), pack_lparam(100, 200)),
        WndAction::Emit {
            monitor: 0,
            event: OverlayEvent::MouseWheel {
                at: Point::new(100, 200),
                delta: -120,
                modifiers: Modifiers::ctrl(),
            }
        }
    );
    assert_eq!(
        ask(WM_KEYDOWN, 0x1b, 0),
        WndAction::Emit {
            monitor: 1,
            event: OverlayEvent::KeyDown { vk: 0x1b, modifiers: Modifiers::ctrl() }
        }
    );
    assert_eq!(ask(WM_PAINT, 0, 0), WndAction::Validate);
    assert_eq!(ask(WM_ERASEBKGND, 0, 0), WndAction::Return { result: 1 });
    assert_eq!(ask(WM_NCCREATE, 0, 0), WndAction::AttachContext);
    assert_eq!(ask(WM_NCDESTROY, 0, 0), WndAction::ReleaseContext);
    assert_eq!(ask(0x0400, 0, 0), WndAction::Default);
}

#[test]
fn held_keys_have_their_high_bit_set() {
    assert_eq!(current_modifiers(0, 0, 0, 0, 0), Modifiers::none());
    assert_eq!(current_modifiers(-128, 0, 0, 0, 0), Modifiers::shift());
    assert_eq!(current_modifiers(1, -1, 0, 0, 0), Modifiers::ctrl());
    assert_eq!(current_modifiers(0, 0, i16::MIN, 0, 0), Modifiers::alt());
    assert_eq!(current_modifiers(0, 0, 0, -1, 0), Modifiers::win());
    assert_eq!(current_modifiers(0, 0, 0, 0, -1), Modifiers::win());
}

#[test]
fn section_headers_are_top_down() {
    let h = section_header(4, 3).unwrap();
    assert_eq!((h.width, h.height, h.planes, h.bit_count, h.len), (4, -3, 1, 32, 48));
    assert!(section_header(u32::MAX, 1).is_none());
}

#[test]
fn windows_present_and_close_once() {
    let mons = vec![Rect::new(10, 20, 4, 3)];
    let mut w = OverlayWindow::create(0, mons[0], &mons, 77).ok().unwrap();
    assert_eq!((w.hwnd(), w.monitor_rect()), (77, mons[0]));
    let (pixels, stride) = test_frame();
    let frame = DibBuffer { width: 4, height: 3, stride: stride as u32, pixels };
    let update = w.present(&frame, None).unwrap().unwrap();
    assert_eq!((update.at, update.width, update.height), (Point::new(10, 20), 4, 3));
    assert_eq!(update.dirty, None);
    assert_eq!(w.bits, frame.pixels);
    let update = w.present(&frame, Some(Rect::new(1, 1, 9, 9))).unwrap().unwrap();
    assert_eq!(update.dirty, Some((1, 1, 4, 3)));
    // Nothing to do for a region outside the frame.
    assert_eq!(w.present(&frame, Some(Rect::new(50, 1, 9, 9))), Ok(None));
    let small = DibBuffer::new(2, 2);
    assert_eq!(w.present(&small, None), Err(WindowError::FrameMismatch));
    assert_eq!(w.close(), Some(77));
    assert_eq!(w.close(), None);
    assert_eq!(w.present(&frame, None), Err(WindowError::Closed));
}

#[test]
fn windows_refuse_bad_rectangles() {
    let mons = vec![Rect::new(0, 0, 4, 3)];
    assert_eq!(
        OverlayWindow::create(0, Rect::new(0, 0, 0, 3), &mons, 1).err(),
        Some(WindowError::EmptyRect)
    );
    assert_eq!(
        OverlayWindow::create(1, mons[0], &mons, 1).err(),
        Some(WindowError::IndexMismatch)
    );
    let huge = vec![Rect::new(0, 0, u32::MAX, 3)];
    assert_eq!(
        OverlayWindow::create(0, huge[0], &huge, 1).err(),
        Some(WindowError::TooLarge)
    );
}
