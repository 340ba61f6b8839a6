use spotfreeze::capture::DibBuffer;
use spotfreeze::geometry::{Point, Rect};
use spotfreeze::hotkeys::gesture::Modifiers;
use spotfreeze::overlay::modes::spotlight::{SpotlightMode, MAX_RADIUS, MIN_RADIUS};
use spotfreeze::overlay::modes::{ModeEffect, ModeKind};

/// Buffer from a pixel generator.
fn make_buf(w: u32, h: u32, f: impl Fn(u32, u32) -> [u8; 4]) -> DibBuffer {
    let mut pixels = Vec::with_capacity((w * h * 4) as usize);
    for y in 0..h {
        for x in 0..w {
            pixels.extend_from_slice(&f(x, y));
        }
    }
    DibBuffer {
        width: w,
        height: h,
        stride: w * 4,
        pixels,
    }
}

fn px(buf: &DibBuffer, x: u32, y: u32) -> [u8; 4] {
    let i = (y * buf.stride + x * 4) as usize;
    buf.pixels[i..i + 4].try_into().unwrap()
}

/// The veil over one pixel.
fn dimmed(c: [u8; 4], dim_alpha: u8) -> [u8; 4] {
    let keep = 255 - dim_alpha as u32;
    [
        (c[0] as u32 * keep / 255) as u8,
        (c[1] as u32 * keep / 255) as u8,
        (c[2] as u32 * keep / 255) as u8,
        c[3],
    ]
}

const COLOR: [u8; 4] = [200, 100, 50, 255];

// ---- construction / state ------------------------------------------

#[test]
fn new_clamps_default_radius() {
    assert_eq!(SpotlightMode::new(5, Modifiers::ctrl()).radius(), MIN_RADIUS);
    assert_eq!(SpotlightMode::new(5000, Modifiers::ctrl()).radius(), MAX_RADIUS);
    assert_eq!(SpotlightMode::new(100, Modifiers::ctrl()).radius(), 100);
}

#[test]
fn kind_is_spotlight() {
    assert_eq!(SpotlightMode::new(100, Modifiers::ctrl()).kind(), ModeKind::Spotlight);
}

#[test]
fn buttons_and_keys_are_noops() {
    let mut m = SpotlightMode::new(100, Modifiers::ctrl());
    assert_eq!(m.on_left_button_down(0, Point::new(5, 5)), ModeEffect::none());
    assert_eq!(m.on_left_button_up(0, Point::new(5, 5)), ModeEffect::none());
    assert_eq!(m.on_key(0x1B, Modifiers::none()), ModeEffect::none());
    assert_eq!(m.snip_selection(), None);
    assert_eq!(m.reset_view(), ModeEffect::none());
}

// ---- mouse move ------------------------------------------------------

#[test]
fn spotlight_mouse_move_same_position_is_noop() {
    let mut m = SpotlightMode::new(50, Modifiers::ctrl());
    assert_eq!(m.on_mouse_move(0, Point::new(0, 0)), ModeEffect::none());
}

#[test]
fn mouse_move_dirty_is_union_of_old_and_new_circle() {
    let mut m = SpotlightMode::new(50, Modifiers::ctrl());
    // First move from the default (0,0) to (100,100): union of both
    // radius-50 circle bboxes = [-50,-50 .. 151,151).
    let e = m.on_mouse_move(0, Point::new(100, 100));
    assert_eq!(
        e.repaint,
        vec![(0, Some(Rect::new(-50, -50, 201, 201)))],
    );
    // Second move to (110,100): union of circles at (100,100) and (110,100).
    let e = m.on_mouse_move(0, Point::new(110, 100));
    assert_eq!(
        e.repaint,
        vec![(0, Some(Rect::new(50, 50, 111, 101)))],
    );
}

#[test]
fn mouse_move_to_other_monitor_repaints_both() {
    let mut m = SpotlightMode::new(20, Modifiers::ctrl());
    m.on_mouse_move(0, Point::new(100, 100));
    let e = m.on_mouse_move(1, Point::new(30, 40));
    assert_eq!(
        e.repaint,
        vec![
            (0, Some(Rect::new(80, 80, 41, 41))),
            (1, Some(Rect::new(10, 20, 41, 41))),
        ],
    );
}

// ---- wheel -----------------------------------------------------------

#[test]
fn wheel_without_modifier_is_ignored() {
    let mut m = SpotlightMode::new(100, Modifiers::ctrl());
    m.on_mouse_move(0, Point::new(10, 10));
    let e = m.on_wheel(0, Point::new(10, 10), 120, Modifiers::none());
    assert_eq!(e, ModeEffect::none());
    assert_eq!(m.radius(), 100);
    // Shift is not Ctrl either.
    let e = m.on_wheel(0, Point::new(10, 10), 120, Modifiers::shift());
    assert_eq!(e, ModeEffect::none());
    assert_eq!(m.radius(), 100);
}

#[test]
fn wheel_with_modifier_resizes_120_delta_is_10px() {
    let mut m = SpotlightMode::new(100, Modifiers::ctrl());
    // Union of the r=100 and r=110 circle bboxes at (0,0).
    let e = m.on_wheel(0, Point::new(0, 0), 120, Modifiers::ctrl());
    assert_eq!(m.radius(), 110);
    assert_eq!(e.repaint, vec![(0, Some(Rect::new(-110, -110, 221, 221)))]);
    let e = m.on_wheel(0, Point::new(0, 0), -120, Modifiers::ctrl());
    assert_eq!(m.radius(), 100);
    assert_eq!(e.repaint, vec![(0, Some(Rect::new(-110, -110, 221, 221)))]);
}

#[test]
fn wheel_multi_notch_and_fine_delta_scale_proportionally() {
    let mut m = SpotlightMode::new(100, Modifiers::ctrl());
    m.on_wheel(0, Point::new(0, 0), 240, Modifiers::ctrl());
    assert_eq!(m.radius(), 120);
    m.on_wheel(0, Point::new(0, 0), 60, Modifiers::ctrl());
    assert_eq!(m.radius(), 125);
    m.on_wheel(0, Point::new(0, 0), -60, Modifiers::ctrl());
    assert_eq!(m.radius(), 120);
}

#[test]
fn wheel_sub_notch_deltas_still_resize() {
    // Precision touchpads send sub-notch deltas (|delta| <
    // 120). Four +60 events MUST change the radius (+5 px each).
    let mut m = SpotlightMode::new(100, Modifiers::ctrl());
    for _ in 0..4 {
        m.on_wheel(0, Point::new(0, 0), 60, Modifiers::ctrl());
    }
    assert_eq!(m.radius(), 120, "four +60 deltas = half a notch each pair");
    // And downwards.
    for _ in 0..4 {
        m.on_wheel(0, Point::new(0, 0), -60, Modifiers::ctrl());
    }
    assert_eq!(m.radius(), 100);
}

#[test]
fn wheel_tiny_deltas_accumulate_to_whole_pixels() {
    // Very fine deltas below one pixel per event (+6 raw =
    // 0.5 px) must NOT be dropped — they bank until a whole pixel exists.
    let mut m = SpotlightMode::new(100, Modifiers::ctrl());
    m.on_wheel(0, Point::new(0, 0), 6, Modifiers::ctrl());
    assert_eq!(m.radius(), 100, "first +6 banks 0.5 px: no change yet");
    m.on_wheel(0, Point::new(0, 0), 6, Modifiers::ctrl());
    assert_eq!(m.radius(), 101, "two +6 events = one whole pixel");
    // Twenty +6 events total = 120 raw = one notch = +10 px.
    for _ in 0..18 {
        m.on_wheel(0, Point::new(0, 0), 6, Modifiers::ctrl());
    }
    assert_eq!(m.radius(), 110);
}

#[test]
fn wheel_remainder_carries_across_events_without_drift() {
    // +130 twice = 260 raw = 21.67 px; Bresenham banking yields exactly
    // 21 px split 10 + 11 (the truncation remainder is never lost).
    let mut m = SpotlightMode::new(100, Modifiers::ctrl());
    m.on_wheel(0, Point::new(0, 0), 130, Modifiers::ctrl());
    assert_eq!(m.radius(), 110);
    m.on_wheel(0, Point::new(0, 0), 130, Modifiers::ctrl());
    assert_eq!(m.radius(), 121);
    // A full notch immediately after still yields exactly +10 (no residue
    // distortion): 260 + 120 = 380 raw = 31.67 px → 131 total.
    m.on_wheel(0, Point::new(0, 0), 120, Modifiers::ctrl());
    assert_eq!(m.radius(), 131);
    // Direction reversal is symmetric: ±60 cancel exactly.
    let mut m = SpotlightMode::new(100, Modifiers::ctrl());
    m.on_wheel(0, Point::new(0, 0), 60, Modifiers::ctrl());
    m.on_wheel(0, Point::new(0, 0), -60, Modifiers::ctrl());
    assert_eq!(m.radius(), 100);
}

#[test]
fn wheel_without_modifier_does_not_bank_delta() {
    // Deltas arriving while the modifier is NOT held are ignored entirely
    // — they must not lurk in the accumulator for a later held event.
    let mut m = SpotlightMode::new(100, Modifiers::ctrl());
    m.on_wheel(0, Point::new(0, 0), 60, Modifiers::none());
    m.on_wheel(0, Point::new(0, 0), 120, Modifiers::ctrl());
    assert_eq!(m.radius(), 110, "unheld +60 must not contribute");
}

#[test]
fn spotlight_wheel_clamps_at_min_and_max() {
    let mut m = SpotlightMode::new(MIN_RADIUS, Modifiers::ctrl());
    let e = m.on_wheel(0, Point::new(0, 0), -120, Modifiers::ctrl());
    assert_eq!(m.radius(), MIN_RADIUS);
    assert_eq!(e, ModeEffect::none()); // clamped: nothing changed

    let mut m = SpotlightMode::new(MAX_RADIUS, Modifiers::ctrl());
    let e = m.on_wheel(0, Point::new(0, 0), 120, Modifiers::ctrl());
    assert_eq!(m.radius(), MAX_RADIUS);
    assert_eq!(e, ModeEffect::none());

    // A huge delta lands exactly on the clamp, not past it.
    let mut m = SpotlightMode::new(100, Modifiers::ctrl());
    m.on_wheel(0, Point::new(0, 0), 120 * 1000, Modifiers::ctrl());
    assert_eq!(m.radius(), MAX_RADIUS);
    m.on_wheel(0, Point::new(0, 0), -120 * 1000, Modifiers::ctrl());
    assert_eq!(m.radius(), MIN_RADIUS);
}

#[test]
fn wheel_with_extra_modifiers_still_resizes() {
    // Ctrl+Shift held while binding is Ctrl: contains() is a subset test.
    let mut m = SpotlightMode::new(100, Modifiers::ctrl());
    m.on_wheel(0, Point::new(0, 0), 120, Modifiers::ctrl() | Modifiers::shift());
    assert_eq!(m.radius(), 110);
}

#[test]
fn wheel_with_none_modifier_always_resizes() {
    let mut m = SpotlightMode::new(100, Modifiers::none());
    m.on_wheel(0, Point::new(0, 0), 120, Modifiers::none());
    assert_eq!(m.radius(), 110);
    m.on_wheel(0, Point::new(0, 0), 120, Modifiers::shift());
    assert_eq!(m.radius(), 120);
}

#[test]
fn wheel_tracks_cursor_and_covers_both_circles() {
    let mut m = SpotlightMode::new(50, Modifiers::ctrl());
    m.on_mouse_move(0, Point::new(200, 200));
    // Wheel at a different position: cursor follows the wheel event.
    let e = m.on_wheel(0, Point::new(100, 100), 120, Modifiers::ctrl());
    // Old: circle r=50 at (200,200); new: r=60 at (100,100).
    // Union: x/y from the new bbox (40,40), right/bottom from the old (251,251).
    assert_eq!(
        e.repaint,
        vec![(0, Some(Rect::new(40, 40, 211, 211)))],
    );
}

// ---- render ----------------------------------------------------------

#[test]
fn render_darkens_everywhere_except_circle() {
    let original = make_buf(40, 40, |_, _| COLOR);
    let mut out = make_buf(40, 40, |_, _| [0, 0, 0, 0]);
    let mut m = SpotlightMode::new(10, Modifiers::ctrl());
    m.on_mouse_move(0, Point::new(20, 20));
    m.render(0, &original, &mut out, 128);

    let dim = dimmed(COLOR, 128);
    for y in 0..40i32 {
        for x in 0..40i32 {
            let dx = x - 20;
            let dy = y - 20;
            let inside = dx * dx + dy * dy <= 100;
            let expect = if inside { COLOR } else { dim };
            assert_eq!(px(&out, x as u32, y as u32), expect, "({x},{y})");
        }
    }
}

#[test]
fn render_other_monitors_are_fully_darkened() {
    let original = make_buf(16, 16, |_, _| COLOR);
    let mut out = make_buf(16, 16, |_, _| [0, 0, 0, 0]);
    let mut m = SpotlightMode::new(10, Modifiers::ctrl());
    m.on_mouse_move(0, Point::new(8, 8));
    m.render(1, &original, &mut out, 128); // monitor 1: cursor is on 0
    let dim = dimmed(COLOR, 128);
    for y in 0..16 {
        for x in 0..16 {
            assert_eq!(px(&out, x, y), dim, "({x},{y})");
        }
    }
}

#[test]
fn render_pattern_preserves_exact_pixels_inside_hole() {
    // Non-uniform pattern: the hole must show the ORIGINAL bytes, and the
    // dimmed region must be the darkened pattern (not a flat fill).
    let pattern = |x: u32, y: u32| [(x * 3) as u8, (y * 5) as u8, (x + y) as u8, 255];
    let original = make_buf(30, 30, pattern);
    let mut out = make_buf(30, 30, |_, _| [0, 0, 0, 0]);
    let mut m = SpotlightMode::new(12, Modifiers::ctrl());
    m.on_mouse_move(0, Point::new(15, 15));
    m.render(0, &original, &mut out, 100);
    for y in 0..30i32 {
        for x in 0..30i32 {
            let dx = x - 15;
            let dy = y - 15;
            let c = pattern(x as u32, y as u32);
            let expect = if dx * dx + dy * dy <= 144 {
                c
            } else {
                dimmed(c, 100)
            };
            assert_eq!(px(&out, x as u32, y as u32), expect, "({x},{y})");
        }
    }
}

#[test]
fn render_dim_alpha_zero_leaves_original() {
    let original = make_buf(10, 10, |x, y| [x as u8, y as u8, 7, 255]);
    let mut out = make_buf(10, 10, |_, _| [1, 2, 3, 4]);
    let m = SpotlightMode::new(10, Modifiers::ctrl());
    m.render(0, &original, &mut out, 0);
    assert_eq!(out.pixels, original.pixels);
}
