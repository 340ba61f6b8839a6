use spotfreeze::geometry::Point;
use spotfreeze::overlay::factor::{Factor, DEFAULT_MAX_BITS, DEFAULT_STEP_BITS, INFINITY_BITS};
use spotfreeze::overlay::modes::zoom::ZoomMode;
use spotfreeze::overlay::modes::ModeEffect;

fn factor(v: f32) -> Factor {
    Factor::from_bits(v.to_bits())
}

fn value(f: Factor) -> f32 {
    f32::from_bits(f.to_bits())
}

fn mode(step: f32, min: f32, max: f32) -> ZoomMode {
    ZoomMode::new(factor(step), factor(min), factor(max))
}

fn zoom(m: &ZoomMode) -> f32 {
    value(m.zoom())
}

/// A wheel event, with the factor that its notches make of the zoom.
fn wheel(m: &mut ZoomMode, monitor: usize, at: Point, delta: i32) -> ModeEffect {
    let scaled = zoom(m) * value(m.step_factor()).powf(delta as f32 / 120.0);
    m.on_wheel(monitor, at, factor(scaled))
}

fn assert_zoom_near(m: &ZoomMode, expected: f32) {
    assert!(
        (zoom(m) - expected).abs() < 1e-6,
        "zoom {} vs expected {expected}",
        zoom(m)
    );
}

// ---- construction ----------------------------------------------------

#[test]
fn new_starts_at_1x_cursor_at_origin() {
    let m = mode(1.25, 1.0, 10.0);
    assert_eq!(zoom(&m), 1.0);
    assert_eq!(m.cursor(), Point::new(0, 0));
    assert_eq!(m.cursor_monitor(), 0);
}

#[test]
fn new_normalizes_invalid_config() {
    // step_factor <= 1.0 falls back so the wheel can only zoom IN per notch.
    let mut m = mode(0.5, 1.0, 10.0);
    wheel(&mut m, 0, Point::new(0, 0), 120);
    assert!(zoom(&m) > 1.0);
    // max < min is repaired instead of panicking in clamp.
    let mut m = mode(1.5, 4.0, 2.0);
    for _ in 0..50 {
        wheel(&mut m, 0, Point::new(0, 0), 120);
    }
    assert!(zoom(&m) >= 4.0);
    // min < 1.0 is floored to 1.0: zooming out stops at 1x.
    let mut m = mode(1.5, 0.5, 10.0);
    for _ in 0..50 {
        wheel(&mut m, 0, Point::new(0, 0), -120);
    }
    assert_eq!(zoom(&m), 1.0);
}

// ---- wheel zoom -------------------------------------------------------

#[test]
fn wheel_multiplies_and_divides_by_step_factor() {
    let mut m = mode(1.25, 1.0, 100.0);
    wheel(&mut m, 0, Point::new(0, 0), 120);
    assert_zoom_near(&m, 1.25);
    wheel(&mut m, 0, Point::new(0, 0), 120);
    assert_zoom_near(&m, 1.5625);
    wheel(&mut m, 0, Point::new(0, 0), -120);
    assert_zoom_near(&m, 1.25);
    wheel(&mut m, 0, Point::new(0, 0), -120);
    assert_zoom_near(&m, 1.0);
}

#[test]
fn wheel_two_notches_apply_step_squared() {
    let mut m = mode(2.0, 1.0, 100.0);
    wheel(&mut m, 0, Point::new(0, 0), 240);
    assert_zoom_near(&m, 4.0);
}

#[test]
fn wheel_sub_notch_deltas_zoom_smoothly() {
    // Raw deltas below one notch (precision touchpads)
    // must change the zoom, not truncate to zero. Four +60 events total
    // step^(0.5*4) = step², each event making progress.
    let mut m = mode(1.25, 1.0, 100.0);
    let mut prev = zoom(&m);
    for _ in 0..4 {
        wheel(&mut m, 0, Point::new(0, 0), 60);
        assert!(zoom(&m) > prev, "every +60 event must zoom in");
        prev = zoom(&m);
    }
    assert_zoom_near(&m, 1.5625); // 1.25^2
    // Same smoothness on the way out.
    wheel(&mut m, 0, Point::new(0, 0), -60);
    assert!(zoom(&m) < prev);
}

#[test]
fn zoom_wheel_clamps_at_min_and_max() {
    let mut m = mode(1.5, 1.0, 3.0);
    for _ in 0..20 {
        wheel(&mut m, 0, Point::new(0, 0), 120);
    }
    assert_eq!(zoom(&m), 3.0);
    // Further wheel-up at the clamp is a no-op effect.
    let e = wheel(&mut m, 0, Point::new(0, 0), 120);
    assert_eq!(e, ModeEffect::none());
    for _ in 0..20 {
        wheel(&mut m, 0, Point::new(0, 0), -120);
    }
    assert_eq!(zoom(&m), 1.0);
}

#[test]
fn wheel_reports_full_repaint_of_cursor_monitor() {
    let mut m = mode(1.25, 1.0, 10.0);
    m.on_mouse_move(0, Point::new(30, 30));
    let e = wheel(&mut m, 0, Point::new(30, 30), 120);
    assert_eq!(e.repaint, vec![(0, None)]);
}

#[test]
fn wheel_on_other_monitor_moves_focus_and_repaints_both() {
    let mut m = mode(1.25, 1.0, 10.0);
    m.on_mouse_move(0, Point::new(10, 10));
    let e = wheel(&mut m, 1, Point::new(50, 50), 120);
    assert_eq!(e.repaint, vec![(0, None), (1, None)]);
    assert_eq!((m.cursor_monitor(), m.cursor()), (1, Point::new(50, 50)));
}

// ---- mouse move -------------------------------------------------------

#[test]
fn zoom_mouse_move_same_position_is_noop() {
    let mut m = mode(1.25, 1.0, 10.0);
    assert_eq!(m.on_mouse_move(0, Point::new(0, 0)), ModeEffect::none());
}

#[test]
fn mouse_move_repaints_full_monitor() {
    let mut m = mode(1.25, 1.0, 10.0);
    let e = m.on_mouse_move(0, Point::new(7, 9));
    assert_eq!(e.repaint, vec![(0, None)]);
}

#[test]
fn mouse_move_across_monitors_repaints_both() {
    let mut m = mode(1.25, 1.0, 10.0);
    m.on_mouse_move(0, Point::new(7, 9));
    let e = m.on_mouse_move(2, Point::new(1, 1));
    assert_eq!(e.repaint, vec![(0, None), (2, None)]);
}

// ---- reset ------------------------------------------------------------

#[test]
fn reset_view_restores_1x_and_repaints_cursor_monitor() {
    let mut m = mode(1.25, 1.0, 10.0);
    m.on_mouse_move(1, Point::new(5, 5));
    wheel(&mut m, 1, Point::new(5, 5), 240);
    assert!(zoom(&m) > 1.0);
    let e = m.reset_view();
    assert_eq!(zoom(&m), 1.0);
    assert_eq!(e.repaint, vec![(1, None)]);
}

#[test]
fn reset_view_is_the_only_reset_path() {
    // Key events reach no layer, so `reset_view` is the only way back.
    let mut m = mode(1.25, 1.0, 10.0);
    m.on_mouse_move(0, Point::new(7, 7));
    wheel(&mut m, 0, Point::new(7, 7), 120);
    assert!(zoom(&m) > 1.0);
    let via_reset = m.reset_view();
    assert_eq!(zoom(&m), 1.0, "reset_view is the live reset path");
    assert_eq!(via_reset.repaint, vec![(0, None)]);
}

// ---- factors ---------------------------------------------------------------

const SAMPLES: [f32; 14] = [
    0.0,
    -0.0,
    1.0,
    -1.0,
    1.25,
    16.0,
    0.1,
    f32::MIN_POSITIVE,
    1.0e-45,
    f32::MAX,
    f32::MIN,
    f32::INFINITY,
    f32::NEG_INFINITY,
    f32::NAN,
];

#[test]
fn factors_compare_as_their_values() {
    for a in SAMPLES {
        assert_eq!(factor(a).is_nan(), a.is_nan(), "{a}");
        assert_eq!(factor(a).is_finite(), a.is_finite(), "{a}");
        for b in SAMPLES {
            assert_eq!(factor(a).less_than(factor(b)), a < b, "{a} < {b}");
            assert_eq!(factor(a).equals(factor(b)), a == b, "{a} == {b}");
        }
    }
}

#[test]
fn factor_arithmetic() {
    for a in [0.5f32, 1.0, 3.0, 16.0, 100.0] {
        assert_eq!(value(factor(a).larger(factor(1.0))), a.max(1.0));
        assert_eq!(value(factor(a).clamp(factor(1.0), factor(16.0))), a.clamp(1.0, 16.0));
    }
    assert_eq!(value(factor(f32::NAN).larger(factor(2.0))), 2.0);
    {
        for a in [1.0f32, 1.5, 3.0, 1.0e30, f32::MAX] {
            assert_eq!(value(factor(a).doubled()), a * 2.0, "{a}");
        }
    }
    {
        assert_eq!(value(Factor::one()), 1.0);
        assert_eq!(f32::from_bits(DEFAULT_STEP_BITS), 1.25);
        assert_eq!(f32::from_bits(DEFAULT_MAX_BITS), 16.0);
        assert_eq!(f32::from_bits(INFINITY_BITS), f32::INFINITY);
        assert_eq!(value(factor(0.0).effective()), 1.0);
        assert_eq!(value(factor(f32::NAN).effective()), 1.0);
        assert_eq!(value(factor(2.5).effective()), 2.5);
    }
}

#[test]
fn a_zoom_can_start_at_a_given_factor() {
    let m = ZoomMode::with_zoom(factor(2.5), factor(1.25), factor(1.0), factor(10.0));
    assert_eq!(zoom(&m), 2.5);
}
