use spotfreeze::capture::{DibBuffer, MonitorInfo};
use spotfreeze::geometry::{Point, Rect};
use spotfreeze::hotkeys::gesture::Modifiers;
use spotfreeze::overlay::composite::{accent, crop_normalized, darken, resample_nearest};
use spotfreeze::overlay::controller::{
    copy_crop, decide_copy_plan, flash_border, flash_color, focus_monitor_index, mode_params,
    sanitize_zoom_params, snip_rect_is_copyable, CopyPlan, OverlayController, PendingRepaint,
    Redraw, FLASH_OFF_MS, FLASH_ON_MS, FLASH_THICKNESS,
};
use spotfreeze::overlay::events::OverlayEvent;
use spotfreeze::overlay::factor::Factor;
use spotfreeze::overlay::modes::{ModeKind, SnipSelection};
use spotfreeze::settings::model::{AppSettings, Rgb};

fn factor(v: f32) -> Factor {
    Factor::from_bits(v.to_bits())
}

fn value(f: Factor) -> f32 {
    f32::from_bits(f.to_bits())
}

/// Source coordinates of the nearest filter.
fn nearest(extent: u32, zoom: f32, focus: i32) -> Vec<i32> {
    (0..extent)
        .map(|o| {
            let at = focus as f32 + (o as f32 + 0.5 - extent as f32 / 2.0) / zoom - 0.5;
            at.round() as i32
        })
        .collect()
}

fn sanitized(step: f32, min: f32, max: f32) -> (f32, f32, f32) {
    let (s, lo, hi) = sanitize_zoom_params(factor(step), factor(min), factor(max));
    (value(s), value(lo), value(hi))
}

/// [`copy_crop`] with the sample positions of the zoom.
fn crop_of(
    src: &DibBuffer,
    zoom: Option<(f32, Point)>,
    a: Point,
    b: Point,
) -> Option<DibBuffer> {
    match zoom {
        None => copy_crop(src, None, &[], &[], a, b),
        Some((z, focus)) => copy_crop(
            src,
            Some((factor(z), focus)),
            &nearest(src.width, z, focus.x),
            &nearest(src.height, z, focus.y),
            a,
            b,
        ),
    }
}

/// Primary 1920x1080 at (0,0) + secondary 2560x1440 LEFT of it (negative x).
fn two_monitors() -> Vec<Rect> {
    vec![Rect::new(0, 0, 1920, 1080), Rect::new(-2560, 0, 2560, 1440)]
}

fn snip(monitor: usize, ax: i32, ay: i32, bx: i32, by: i32) -> Option<SnipSelection> {
    Some(SnipSelection {
        monitor,
        a: Point::new(ax, ay),
        b: Point::new(bx, by),
    })
}

/// Buffer from a pixel generator.
fn make_buf(w: u32, h: u32, f: impl Fn(u32, u32) -> [u8; 4]) -> DibBuffer {
    let mut pixels = Vec::with_capacity((w * h * 4) as usize);
    for y in 0..h {
        for x in 0..w {
            pixels.extend_from_slice(&f(x, y));
        }
    }
    DibBuffer {
        width: w,
        height: h,
        stride: w * 4,
        pixels,
    }
}

fn px(buf: &DibBuffer, x: u32, y: u32) -> [u8; 4] {
    let i = (y * buf.stride + x * 4) as usize;
    buf.pixels[i..i + 4].try_into().unwrap()
}

// ---- PendingRepaint ------------------------------------------------

#[test]
fn pending_from_dirty_maps_full_and_region() {
    assert_eq!(PendingRepaint::from_dirty(None), PendingRepaint::Full);
    let r = Rect::new(1, 2, 3, 4);
    assert_eq!(PendingRepaint::from_dirty(Some(r)), PendingRepaint::Region(r));
}

#[test]
fn pending_merge_full_subsumes_everything() {
    let r = Rect::new(1, 2, 3, 4);
    assert_eq!(PendingRepaint::Full.merge(Some(r)), PendingRepaint::Full);
    assert_eq!(PendingRepaint::Full.merge(None), PendingRepaint::Full);
    assert_eq!(PendingRepaint::Region(r).merge(None), PendingRepaint::Full);
}

#[test]
fn pending_merge_unions_regions() {
    let a = Rect::new(0, 0, 10, 10);
    let b = Rect::new(5, 5, 10, 10);
    assert_eq!(
        PendingRepaint::Region(a).merge(Some(b)),
        PendingRepaint::Region(Rect::new(0, 0, 15, 15))
    );
}

#[test]
fn pending_as_present_arg_round_trips() {
    let r = Rect::new(1, 2, 3, 4);
    assert_eq!(PendingRepaint::Region(r).as_present_arg(), Some(r));
    assert_eq!(PendingRepaint::Full.as_present_arg(), None);
}

// ---- controller state machine (unfrozen paths only) ----

#[test]
fn new_controller_is_unfrozen_spotlight() {
    let c = OverlayController::new();
    assert!(!c.is_frozen());
    assert_eq!(c.monitor_count(), 0);
    assert_eq!(c.active_mode(), ModeKind::Spotlight);
}

#[test]
fn default_matches_new() {
    let c = OverlayController::default();
    assert!(!c.is_frozen());
    assert_eq!(c.active_mode(), ModeKind::Spotlight);
}

#[test]
fn unfreeze_when_unfrozen_is_noop() {
    let mut c = OverlayController::new();
    c.unfreeze();
    assert!(!c.is_frozen());
    assert_eq!(c.monitor_count(), 0);
}

#[test]
fn set_mode_and_add_mode_when_unfrozen_are_noops() {
    let mut c = OverlayController::new();
    c.set_mode(ModeKind::Zoom, None, &[], &[]);
    c.add_mode(ModeKind::Snip, None);
    c.add_mode(ModeKind::Spotlight, None);
    assert!(!c.is_frozen());
    assert_eq!(c.active_mode(), ModeKind::Spotlight);
}

#[test]
fn handle_event_when_unfrozen_is_noop() {
    let mut c = OverlayController::new();
    for event in [
        OverlayEvent::MouseMove {
            at: Point::new(5, 5),
        },
        OverlayEvent::LeftButtonDown {
            at: Point::new(5, 5),
        },
        OverlayEvent::KeyDown {
            vk: 0x1B,
            modifiers: Modifiers::none(),
        },
    ] {
        assert_eq!(c.handle_overlay_event(0, event, Factor::one()), Redraw::none());
    }
    assert!(!c.is_frozen());
}

#[test]
fn reset_view_when_unfrozen_is_noop() {
    let mut c = OverlayController::new();
    c.reset_view(); // must not panic or create state
    assert!(!c.is_frozen());
    assert_eq!(c.monitor_count(), 0);
}

#[test]
fn snip_copy_when_unfrozen_is_ok_noop_and_touches_nothing() {
    let mut c = OverlayController::new();
    assert!(c.snip_copy_and_close(None, &[], &[]).is_none());
    assert!(!c.is_frozen());
}

// ---- flash_count (spec: S=1, Z=2, C=3) ----

#[test]
fn flash_count_maps_one_two_three() {
    assert_eq!(OverlayController::flash_count(ModeKind::Spotlight), 1);
    assert_eq!(OverlayController::flash_count(ModeKind::Zoom), 2);
    assert_eq!(OverlayController::flash_count(ModeKind::Snip), 3);
}

#[test]
fn flash_timings_are_the_spec_values() {
    // Pinned so an accidental edit of the feedback cadence fails loudly.
    assert_eq!(FLASH_ON_MS, 70);
    assert_eq!(FLASH_OFF_MS, 50);
    assert_eq!(FLASH_THICKNESS, 6);
    assert_eq!(flash_color(), Rgb { r: 255, g: 255, b: 255 });
}

// ---- mode_params ----

#[test]
fn mode_params_snapshots_settings() {
    let s = AppSettings::default();
    let p = mode_params(&s);
    assert_eq!(p.spotlight_radius, s.spotlight.default_radius);
    assert_eq!(p.radius_modifier, s.hotkeys.spotlight_radius_modifier);
    assert_eq!(p.zoom_modifier, s.hotkeys.zoom_modifier);
    assert_eq!(p.zoom_step, s.zoom.step_factor);
    assert_eq!(p.zoom_min, s.zoom.min);
    assert_eq!(p.zoom_max, s.zoom.max);
}

#[test]
fn mode_params_sanitizes_zoom() {
    let mut s = AppSettings::default();
    s.zoom.step_factor = factor(0.5);
    s.zoom.min = factor(0.25);
    s.zoom.max = factor(f32::NAN);
    let p = mode_params(&s);
    assert_eq!(value(p.zoom_step), 1.25);
    assert_eq!(value(p.zoom_min), 1.0);
    assert!(value(p.zoom_max) > value(p.zoom_min));
}

// ---- focus_monitor_index ----

#[test]
fn focus_is_primary_for_origin_area() {
    let m = two_monitors();
    assert_eq!(focus_monitor_index(Point::new(0, 0), &m), 0);
    assert_eq!(focus_monitor_index(Point::new(1919, 1079), &m), 0);
}

#[test]
fn focus_edges_are_inclusive_topleft_exclusive_bottomright() {
    let m = two_monitors();
    // Primary right/bottom edges are exclusive: outside both monitors here.
    assert_eq!(focus_monitor_index(Point::new(1920, 540), &m), 0); // fallback
    assert_eq!(focus_monitor_index(Point::new(960, 1080), &m), 0); // fallback
    // Secondary left edge inclusive, right edge (0) exclusive.
    assert_eq!(focus_monitor_index(Point::new(-2560, 0), &m), 1);
    assert_eq!(focus_monitor_index(Point::new(-1, 1439), &m), 1);
}

#[test]
fn focus_handles_negative_virtual_coords() {
    let m = two_monitors();
    assert_eq!(focus_monitor_index(Point::new(-100, 100), &m), 1);
    assert_eq!(focus_monitor_index(Point::new(-2560, 1439), &m), 1);
}

#[test]
fn focus_outside_all_monitors_falls_back_to_zero() {
    let m = two_monitors();
    assert_eq!(focus_monitor_index(Point::new(9999, 9999), &m), 0);
    assert_eq!(focus_monitor_index(Point::new(-9999, 0), &m), 0);
}

// ---- snip_rect_is_copyable ----

#[test]
fn snip_rect_copyable_for_forward_and_negative_drags() {
    let mon = Rect::new(0, 0, 1920, 1080);
    assert!(snip_rect_is_copyable(Point::new(10, 10), Point::new(110, 60), mon));
    assert!(snip_rect_is_copyable(Point::new(110, 60), Point::new(10, 10), mon));
    assert!(snip_rect_is_copyable(Point::new(110, 10), Point::new(10, 60), mon));
}

#[test]
fn snip_rect_zero_area_is_not_copyable() {
    let mon = Rect::new(0, 0, 1920, 1080);
    assert!(!snip_rect_is_copyable(Point::new(50, 50), Point::new(50, 50), mon));
    assert!(!snip_rect_is_copyable(Point::new(50, 10), Point::new(50, 100), mon)); // w=0
    assert!(!snip_rect_is_copyable(Point::new(10, 50), Point::new(100, 50), mon)); // h=0
}

#[test]
fn snip_rect_clips_to_monitor_bounds() {
    let mon = Rect::new(0, 0, 1920, 1080);
    // Partially outside: clipped remainder is non-empty.
    assert!(snip_rect_is_copyable(Point::new(-50, 10), Point::new(100, 60), mon));
    // Fully outside: clipped to nothing.
    assert!(!snip_rect_is_copyable(Point::new(-500, 10), Point::new(-400, 60), mon));
    assert!(!snip_rect_is_copyable(Point::new(0, 2000), Point::new(100, 2100), mon));
}

// ---- decide_copy_plan ----

#[test]
fn plan_is_snip_for_nonempty_selection() {
    let m = two_monitors();
    let plan = decide_copy_plan(snip(0, 10, 10, 110, 60), Point::new(5, 5), &m);
    assert_eq!(
        plan,
        Some(CopyPlan::Snip {
            monitor: 0,
            a: Point::new(10, 10),
            b: Point::new(110, 60),
        })
    );
}

#[test]
fn plan_is_snip_for_negative_drag() {
    let m = two_monitors();
    let plan = decide_copy_plan(snip(0, 110, 60, 10, 10), Point::new(5, 5), &m);
    assert_eq!(
        plan,
        Some(CopyPlan::Snip {
            monitor: 0,
            a: Point::new(110, 60),
            b: Point::new(10, 10),
        })
    );
}

#[test]
fn plan_is_snip_on_secondary_monitor_with_local_coords() {
    let m = two_monitors();
    // Selection coords are MONITOR-LOCAL: monitor 1's negative virtual
    // origin is irrelevant here; its width/height bound the clip.
    let plan = decide_copy_plan(snip(1, 0, 0, 500, 500), Point::new(5, 5), &m);
    assert_eq!(
        plan,
        Some(CopyPlan::Snip {
            monitor: 1,
            a: Point::new(0, 0),
            b: Point::new(500, 500),
        })
    );
}

#[test]
fn plan_falls_back_to_full_frame_for_zero_area_selection() {
    let m = two_monitors();
    let plan = decide_copy_plan(snip(0, 50, 50, 50, 50), Point::new(7, 7), &m);
    assert_eq!(plan, Some(CopyPlan::FullMonitor { monitor: 0 }));
}

#[test]
fn plan_falls_back_for_fully_outside_selection() {
    let m = two_monitors();
    let plan = decide_copy_plan(snip(0, -500, 0, -400, 100), Point::new(7, 7), &m);
    assert_eq!(plan, Some(CopyPlan::FullMonitor { monitor: 0 }));
}

#[test]
fn plan_falls_back_for_invalid_selection_monitor() {
    let m = two_monitors();
    let plan = decide_copy_plan(snip(99, 0, 0, 100, 100), Point::new(7, 7), &m);
    assert_eq!(plan, Some(CopyPlan::FullMonitor { monitor: 0 }));
}

#[test]
fn plan_full_frame_uses_focused_monitor() {
    let m = two_monitors();
    let plan = decide_copy_plan(None, Point::new(-100, 200), &m);
    assert_eq!(plan, Some(CopyPlan::FullMonitor { monitor: 1 }));
    // Cursor outside all monitors: fallback monitor 0.
    let plan = decide_copy_plan(None, Point::new(9999, 0), &m);
    assert_eq!(plan, Some(CopyPlan::FullMonitor { monitor: 0 }));
}

#[test]
fn plan_is_none_without_monitors() {
    let plan = decide_copy_plan(snip(0, 0, 0, 10, 10), Point::new(0, 0), &[]);
    assert_eq!(plan, None);
}

// ---- copy_crop: snip from the composed (zoomed) base ----

/// Coordinate-encoding pattern: pixel (x, y) = [x, y, x^y, 255] (BGRA).
fn coord_pattern(x: u32, y: u32) -> [u8; 4] {
    [x as u8, y as u8, (x ^ y) as u8, 255]
}

#[test]
fn copy_crop_without_zoom_crops_the_original() {
    let src = make_buf(32, 32, coord_pattern);
    let crop = crop_of(&src, None, Point::new(4, 6), Point::new(12, 10)).unwrap();
    assert_eq!((crop.width, crop.height), (8, 4));
    for y in 0..crop.height {
        for x in 0..crop.width {
            assert_eq!(px(&crop, x, y), coord_pattern(x + 4, y + 6));
        }
    }
}

#[test]
fn copy_crop_with_zoom_crops_the_zoomed_base_not_the_original() {
    // 32x32 original, zoom 2.0 around focus (16,16): output pixel o
    // samples src 16 + (o + 0.5 - 16)/2 - 0.5 (composite mapping,
    // nearest). The selection is in OUTPUT (screen) coordinates, so the
    // crop must come from the resampled view — WYSIWYG.
    let src = make_buf(32, 32, coord_pattern);
    let a = Point::new(8, 8);
    let b = Point::new(24, 24);
    let zoomed = crop_of(&src, Some((2.0, Point::new(16, 16))), a, b).unwrap();
    let plain = crop_of(&src, None, a, b).unwrap();
    assert_eq!((zoomed.width, zoomed.height), (16, 16));
    assert_ne!(
        zoomed.pixels, plain.pixels,
        "zoomed crop must differ from the unzoomed one"
    );
    // Exact mapping check for every cropped pixel.
    let src_of = |o: u32| (16.0f32 + (o as f32 + 0.5 - 16.0) / 2.0 - 0.5).round() as u32;
    for y in 0..16u32 {
        for x in 0..16u32 {
            let expect = coord_pattern(src_of(x + 8), src_of(y + 8));
            assert_eq!(px(&zoomed, x, y), expect, "zoomed crop pixel ({x},{y})");
        }
    }
}

#[test]
fn copy_crop_zoomed_base_matches_compose_input_contract() {
    // The crop must be pixel-identical to cropping the buffer the render
    // path would have built (same resample call with the same viewport).
    let src = make_buf(32, 32, coord_pattern);
    let a = Point::new(3, 5);
    let b = Point::new(29, 20);
    let (zoom, focus) = (1.5, Point::new(10, 22));
    let crop = crop_of(&src, Some((zoom, focus)), a, b).unwrap();
    let base = resample_nearest(&src, &nearest(32, zoom, focus.x), &nearest(32, zoom, focus.y));
    let expect = crop_normalized(&base, a, b).unwrap();
    assert_eq!(crop.pixels, expect.pixels);
}

#[test]
fn copy_crop_degenerate_rect_is_none_in_both_bases() {
    let src = make_buf(16, 16, coord_pattern);
    assert!(crop_of(&src, None, Point::new(4, 4), Point::new(4, 4)).is_none());
    assert!(
        crop_of(&src, Some((2.0, Point::new(8, 8))), Point::new(4, 4), Point::new(4, 4))
            .is_none()
    );
}

// ---- sanitize_zoom_params ----

#[test]
fn zoom_params_in_range_pass_through() {
    assert_eq!(sanitized(1.25, 1.0, 16.0), (1.25, 1.0, 16.0));
}

#[test]
fn zoom_params_repair_bad_step() {
    assert_eq!(sanitized(0.5, 1.0, 16.0).0, 1.25);
    assert_eq!(sanitized(f32::NAN, 1.0, 16.0).0, 1.25);
    assert_eq!(sanitized(f32::INFINITY, 1.0, 16.0).0, 1.25);
    assert_eq!(sanitized(1.0, 1.0, 16.0).0, 1.25);
}

#[test]
fn zoom_params_repair_bad_min() {
    assert_eq!(sanitized(1.25, 0.5, 16.0).1, 1.0);
    assert_eq!(sanitized(1.25, f32::NAN, 16.0).1, 1.0);
}

#[test]
fn zoom_params_repair_max_not_above_min() {
    let (_, min, max) = sanitized(1.25, 2.0, 2.0);
    assert!(max > min);
    assert_eq!(max, 4.0);
    let (_, min, max) = sanitized(1.25, 3.0, f32::NAN);
    assert!(max > min);
    assert_eq!(max, 6.0);
}

// ---- a frozen session ----

fn monitor_info(rect: Rect) -> MonitorInfo {
    MonitorInfo {
        rect,
        dpi_x: 96,
        dpi_y: 96,
        is_primary: rect.x == 0,
        device_name: String::from("m"),
    }
}

/// Two small monitors side by side, frozen with the default settings.
fn frozen() -> (OverlayController, Redraw) {
    let left = Rect::new(0, 0, 16, 12);
    let right = Rect::new(16, 0, 8, 8);
    let mut c = OverlayController::new();
    let shot = vec![
        (monitor_info(left), make_buf(16, 12, coord_pattern)),
        (monitor_info(right), make_buf(8, 8, coord_pattern)),
    ];
    let redraw = c.freeze(shot, &AppSettings::default(), Some(Point::new(4, 4)));
    (c, redraw)
}

#[test]
fn freezing_shows_the_spotlight_on_every_monitor() {
    let (mut c, redraw) = frozen();
    assert!(c.is_frozen());
    assert_eq!(c.monitor_count(), 2);
    assert_eq!(c.active_mode(), ModeKind::Spotlight);
    assert_eq!(redraw.repaint, vec![(0, None), (1, None)]);
    let state = c.render_state(0).unwrap();
    assert_eq!(state.spotlight, Some((Point::new(4, 4), 150)));
    assert!(c.compose_frame_for(0, &[], &[]));
    // The whole small frame lies in the circle.
    assert_eq!(c.frame(0).unwrap().pixels, make_buf(16, 12, coord_pattern).pixels);
    // The other monitor is veiled.
    assert!(c.compose_frame_for(1, &[], &[]));
    let mut dark = make_buf(8, 8, coord_pattern);
    darken(&mut dark, 160);
    assert_eq!(c.frame(1).unwrap().pixels, dark.pixels);
    assert!(!c.compose_frame_for(2, &[], &[]));
}

#[test]
fn freezing_and_unfreezing() {
    let (mut c, _) = frozen();
    let again = vec![(monitor_info(Rect::new(0, 0, 4, 4)), make_buf(4, 4, coord_pattern))];
    let redraw = c.freeze(again, &AppSettings::default(), None);
    assert_eq!(redraw, Redraw::none());
    assert_eq!(c.monitor_count(), 2);
    {
        let (mut c, _) = frozen();
        c.unfreeze();
        assert!(!c.is_frozen());
        assert_eq!(c.monitor_count(), 0);
    }
}

#[test]
fn capture_mode_bakes_the_view_and_cancel_restores_it() {
    let (mut c, _) = frozen();
    let before = c.render_state(0).unwrap();
    assert!(c.compose_frame_for(1, &[], &[]));
    let veiled = c.frame(1).unwrap().clone();
    c.set_mode(ModeKind::Snip, Some(Point::new(4, 4)), &[], &[]);
    assert_eq!(c.active_mode(), ModeKind::Snip);
    assert!(c.render_state(0).unwrap().capture);
    assert!(c.compose_frame_for(1, &[], &[]));
    let framed = c.frame(1).unwrap().clone();
    let a = accent();
    assert_eq!(px(&framed, 0, 0), [a.b, a.g, a.r, 255]);
    // The first cancel leaves capture mode only.
    c.unfreeze();
    assert!(c.is_frozen());
    assert_eq!(c.render_state(0).unwrap(), before);
    assert!(c.compose_frame_for(1, &[], &[]));
    assert_eq!(c.frame(1).unwrap().pixels, veiled.pixels);
    c.unfreeze();
    assert!(!c.is_frozen());
}

#[test]
fn capture_mode_copies_the_veiled_view() {
    let (mut c, _) = frozen();
    assert!(c.compose_frame_for(0, &[], &[]));
    assert!(c.compose_frame_for(1, &[], &[]));
    let veiled = c.frame(1).unwrap().clone();
    c.set_mode(ModeKind::Snip, Some(Point::new(20, 2)), &[], &[]);
    let copied = c.snip_copy_and_close(Some(Point::new(20, 2)), &[], &[]).unwrap();
    assert_eq!(copied.pixels, veiled.pixels);
}

#[test]
fn a_drag_in_capture_mode_is_copied() {
    let (mut c, _) = frozen();
    assert!(c.compose_frame_for(0, &[], &[]));
    c.set_mode(ModeKind::Snip, Some(Point::new(4, 4)), &[], &[]);
    for event in [
        OverlayEvent::LeftButtonDown { at: Point::new(2, 3) },
        OverlayEvent::MouseMove { at: Point::new(8, 7) },
        OverlayEvent::LeftButtonUp { at: Point::new(8, 7) },
    ] {
        c.handle_overlay_event(0, event, Factor::one());
    }
    assert_eq!(
        c.copy_plan(Some(Point::new(4, 4))),
        Some(CopyPlan::Snip { monitor: 0, a: Point::new(2, 3), b: Point::new(8, 7) })
    );
    let copied = c.snip_copy_and_close(Some(Point::new(4, 4)), &[], &[]).unwrap();
    assert_eq!((copied.width, copied.height), (6, 4));
    assert_eq!(px(&copied, 0, 0), coord_pattern(2, 3));
    assert_eq!(px(&copied, 5, 3), coord_pattern(7, 6));
    assert!(!c.is_frozen());
}

#[test]
fn without_a_selection_the_focused_monitor_is_copied() {
    let (mut c, _) = frozen();
    assert_eq!(
        c.copy_plan(Some(Point::new(20, 2))),
        Some(CopyPlan::FullMonitor { monitor: 1 })
    );
    let copied = c.snip_copy_and_close(Some(Point::new(20, 2)), &[], &[]).unwrap();
    assert_eq!((copied.width, copied.height), (8, 8));
    assert!(!c.is_frozen());
}

#[test]
fn mode_switches_ask_for_their_flashes() {
    let (mut c, _) = frozen();
    assert_eq!(c.set_mode(ModeKind::Zoom, None, &[], &[]).flashes, 2);
    assert_eq!(c.active_mode(), ModeKind::Zoom);
    // Capture mode bakes the magnified view.
    let (m, f, focus, w, h) = c.magnified().unwrap();
    assert_eq!((m, value(f), w, h), (0, 1.0, 16, 12));
    let (cols, rows) = (nearest(w, 1.0, focus.x), nearest(h, 1.0, focus.y));
    assert_eq!(c.set_mode(ModeKind::Snip, None, &cols, &rows).flashes, 3);
    let (mut c, _) = frozen();
    // Turning a layer off does not flash; turning it on does.
    assert_eq!(c.toggle_mode(ModeKind::Spotlight, None).flashes, 0);
    assert!(c.render_state(0).unwrap().spotlight.is_none());
    assert_eq!(c.toggle_mode(ModeKind::Spotlight, None).flashes, 1);
}

#[test]
fn the_flash_frame_has_a_white_border() {
    let (mut c, _) = frozen();
    assert!(c.compose_flash_for(1, &[], &[]));
    let f = c.frame(1).unwrap();
    assert_eq!(px(f, 0, 0), [255, 255, 255, 255]);
    assert!(!c.compose_flash_for(9, &[], &[]));
}

#[test]
fn deferred_repaints_are_merged_and_presented_once() {
    let (mut c, _) = frozen();
    let a = Rect::new(0, 0, 2, 2);
    let b = Rect::new(4, 4, 2, 2);
    assert_eq!(c.present_or_defer(0, Some(a), true), Some(Some(a)));
    assert_eq!(c.present_or_defer(0, Some(a), false), None);
    assert_eq!(c.present_or_defer(0, Some(b), false), None);
    assert_eq!(c.process_pending_repaints(&[false, true]), vec![]);
    assert_eq!(
        c.process_pending_repaints(&[true, true]),
        vec![(0, Some(Rect::new(0, 0, 6, 6)))]
    );
    assert_eq!(c.process_pending_repaints(&[true, true]), vec![]);
}

#[test]
fn a_wheel_over_the_zoom_layer_takes_the_scaled_factor() {
    let (mut c, _) = frozen();
    c.set_mode(ModeKind::Zoom, Some(Point::new(4, 4)), &[], &[]);
    let (at, step) = c.wheel_zoom().unwrap();
    assert_eq!((value(at), value(step)), (1.0, 1.25));
    let wheel = OverlayEvent::MouseWheel {
        at: Point::new(4, 4),
        delta: 120,
        modifiers: Modifiers::none(),
    };
    c.handle_overlay_event(0, wheel, factor(1.25));
    assert_eq!(
        c.render_state(0).unwrap().zoom,
        Some((factor(1.25), Point::new(4, 4)))
    );
    let redraw = c.reset_view();
    assert!(redraw.repaint.contains(&(0, None)));
    assert_eq!(value(c.wheel_zoom().unwrap().0), 1.0);
}

#[test]
fn a_flash_alternates_and_ends() {
    let steps: Vec<(bool, u64)> = (0..)
        .map_while(|k| flash_border(2, k))
        .map(|s| (s.bordered, s.hold_ms))
        .collect();
    assert_eq!(steps, vec![(true, 70), (false, 50), (true, 70), (false, 50)]);
    assert_eq!(flash_border(0, 0), None);
}

#[test]
fn a_freeze_composes_its_frames() {
    let (mut c, _) = frozen();
    let fresh: Vec<Vec<u8>> = (0..2).map(|m| c.frame(m).unwrap().pixels.clone()).collect();
    for m in 0..2 {
        assert!(c.compose_frame_for(m, &[], &[]));
        assert_eq!(c.frame(m).unwrap().pixels, fresh[m]);
    }
    // Capture mode right away makes that view the frozen image.
    let (mut c, _) = frozen();
    c.set_mode(ModeKind::Snip, None, &[], &[]);
    let copied = c.snip_copy_and_close(Some(Point::new(20, 2)), &[], &[]).unwrap();
    assert_eq!(copied.pixels, fresh[1]);
}

#[test]
fn capture_mode_bakes_what_the_layers_show_now() {
    let (mut c, _) = frozen();
    let lit = make_buf(8, 8, coord_pattern);
    assert_ne!(c.frame(1).unwrap().pixels, lit.pixels);
    // The pointer moves and a layer goes away; nothing is composed since.
    c.handle_overlay_event(1, OverlayEvent::MouseMove { at: Point::new(20, 2) }, Factor::one());
    c.toggle_mode(ModeKind::Spotlight, None);
    assert_eq!(c.magnified(), None);
    let (mut shown, _) = frozen();
    shown.handle_overlay_event(1, OverlayEvent::MouseMove { at: Point::new(20, 2) }, Factor::one());
    shown.toggle_mode(ModeKind::Spotlight, None);
    assert!(shown.compose_frame_for(1, &[], &[]));
    let expected = shown.frame(1).unwrap().pixels.clone();
    c.set_mode(ModeKind::Snip, Some(Point::new(20, 2)), &[], &[]);
    let copied = c.snip_copy_and_close(Some(Point::new(20, 2)), &[], &[]).unwrap();
    assert_eq!(copied.pixels, expected);
    assert_eq!(copied.pixels, lit.pixels);
}

/// A session that magnifies the first monitor twofold at (4, 4).
fn magnifying() -> OverlayController {
    let (mut c, _) = frozen();
    c.set_mode(ModeKind::Zoom, Some(Point::new(4, 4)), &[], &[]);
    let wheel = OverlayEvent::MouseWheel {
        at: Point::new(4, 4),
        delta: 120,
        modifiers: Modifiers::none(),
    };
    c.handle_overlay_event(0, wheel, factor(2.0));
    c
}

#[test]
fn capture_mode_bakes_the_magnified_view() {
    let mut c = magnifying();
    let (m, f, focus, w, h) = c.magnified().unwrap();
    assert_eq!((m, value(f), w, h), (0, 2.0, 16, 12));
    let (cols, rows) = (nearest(w, 2.0, focus.x), nearest(h, 2.0, focus.y));
    let mut shown = magnifying();
    assert!(shown.compose_frame_for(0, &cols, &rows));
    let expected = shown.frame(0).unwrap().pixels.clone();
    let mut magnified = resample_nearest(&make_buf(16, 12, coord_pattern), &cols, &rows);
    darken(&mut magnified, 160);
    assert_eq!(expected, magnified.pixels);
    c.set_mode(ModeKind::Snip, Some(Point::new(4, 4)), &cols, &rows);
    assert_eq!(c.magnified(), None);
    let copied = c.snip_copy_and_close(Some(Point::new(4, 4)), &[], &[]).unwrap();
    assert_eq!(copied.pixels, expected);
}
