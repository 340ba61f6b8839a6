use spotfreeze::geometry::{Point, Rect};
use spotfreeze::overlay::modes::snip::{norm_rect, SnipMode};
use spotfreeze::overlay::modes::{ModeEffect, SnipSelection};

fn pt(x: i32, y: i32) -> Point {
    Point::new(x, y)
}

// ---- state machine ---------------------------------------------------

#[test]
fn new_has_no_selection() {
    let m = SnipMode::new();
    assert_eq!(m.snip_selection(), None);
    let m2 = SnipMode::default();
    assert_eq!(m2.snip_selection(), None);
}

#[test]
fn button_down_starts_zero_area_selection_without_repaint() {
    let mut m = SnipMode::new();
    let e = m.on_left_button_down(0, pt(3, 4));
    assert_eq!(e, ModeEffect::none());
    assert_eq!(
        m.snip_selection(),
        Some(SnipSelection {
            monitor: 0,
            a: pt(3, 4),
            b: pt(3, 4),
        })
    );
}

#[test]
fn drag_extends_selection_and_unions_dirty_rects() {
    let mut m = SnipMode::new();
    m.on_left_button_down(0, pt(4, 4));
    // First extension: old rect empty, new rect (4,4,2,2) + border.
    let e = m.on_mouse_move(0, pt(6, 6));
    assert_eq!(e.repaint, vec![(0, Some(Rect::new(3, 3, 4, 4)))]);
    // Second extension: union of (4,4,2,2) and (4,4,6,6) + border.
    let e = m.on_mouse_move(0, pt(10, 10));
    assert_eq!(e.repaint, vec![(0, Some(Rect::new(3, 3, 8, 8)))]);
    // Same point again: no-op.
    assert_eq!(m.on_mouse_move(0, pt(10, 10)), ModeEffect::none());
}

#[test]
fn negative_drag_normalizes_endpoints() {
    let mut m = SnipMode::new();
    m.on_left_button_down(0, pt(8, 8));
    m.on_mouse_move(0, pt(2, 3));
    m.on_left_button_up(0, pt(2, 3));
    let sel = m.snip_selection().unwrap();
    assert_eq!(sel.a, pt(8, 8));
    assert_eq!(sel.b, pt(2, 3));
    // Normalized rect: (2,3,6,5).
    assert_eq!(norm_rect(sel.a, sel.b), Rect::new(2, 3, 6, 5));
}

#[test]
fn button_up_finishes_drag_selection_persists() {
    let mut m = SnipMode::new();
    m.on_left_button_down(0, pt(1, 1));
    m.on_mouse_move(0, pt(5, 5));
    let e = m.on_left_button_up(0, pt(5, 5));
    // old (1,1,4,4) union new (1,1,4,4) + border.
    assert_eq!(e.repaint, vec![(0, Some(Rect::new(0, 0, 6, 6)))]);
    assert!(m.snip_selection().is_some());
    // Moves after the drag no longer change anything.
    assert_eq!(m.on_mouse_move(0, pt(9, 9)), ModeEffect::none());
    assert_eq!(
        m.snip_selection(),
        Some(SnipSelection {
            monitor: 0,
            a: pt(1, 1),
            b: pt(5, 5),
        })
    );
}

#[test]
fn zero_area_click_clears_selection() {
    let mut m = SnipMode::new();
    m.on_left_button_down(0, pt(3, 3));
    let e = m.on_left_button_up(0, pt(3, 3));
    assert_eq!(e, ModeEffect::none());
    assert_eq!(m.snip_selection(), None);
}

#[test]
fn zero_area_click_clears_previous_selection_and_repaints_it() {
    let mut m = SnipMode::new();
    // Make a real selection first.
    m.on_left_button_down(0, pt(1, 1));
    m.on_mouse_move(0, pt(7, 7));
    m.on_left_button_up(0, pt(7, 7));
    assert!(m.snip_selection().is_some());
    // New button-down replaces it: repaint the old rect + border.
    let e = m.on_left_button_down(0, pt(20, 20));
    assert_eq!(e.repaint, vec![(0, Some(Rect::new(0, 0, 8, 8)))]);
    // Click (no drag) clears: repaint the zero-area frame -> nothing rendered.
    let e = m.on_left_button_up(0, pt(20, 20));
    assert_eq!(e, ModeEffect::none());
    assert_eq!(m.snip_selection(), None);
}

#[test]
fn drag_cannot_cross_monitors() {
    let mut m = SnipMode::new();
    m.on_left_button_down(0, pt(2, 2));
    // Move on ANOTHER monitor while dragging: selection untouched.
    let e = m.on_mouse_move(1, pt(50, 50));
    assert_eq!(e, ModeEffect::none());
    assert_eq!(
        m.snip_selection(),
        Some(SnipSelection {
            monitor: 0,
            a: pt(2, 2),
            b: pt(2, 2),
        })
    );
    // Release on the other monitor: finalizes (zero-area -> discarded).
    let e = m.on_left_button_up(1, pt(50, 50));
    assert_eq!(e, ModeEffect::none());
    assert_eq!(m.snip_selection(), None);
}

#[test]
fn drag_released_off_monitor_keeps_nonzero_selection() {
    let mut m = SnipMode::new();
    m.on_left_button_down(0, pt(2, 2));
    m.on_mouse_move(0, pt(6, 6));
    let e = m.on_left_button_up(1, pt(99, 99));
    assert_eq!(e, ModeEffect::none());
    // Selection finalizes at the last on-monitor point.
    assert_eq!(
        m.snip_selection(),
        Some(SnipSelection {
            monitor: 0,
            a: pt(2, 2),
            b: pt(6, 6),
        })
    );
}

#[test]
fn new_drag_on_other_monitor_repaints_old_monitor() {
    let mut m = SnipMode::new();
    m.on_left_button_down(0, pt(1, 1));
    m.on_mouse_move(0, pt(5, 5));
    m.on_left_button_up(0, pt(5, 5));
    let e = m.on_left_button_down(1, pt(3, 3));
    assert_eq!(e.repaint, vec![(0, Some(Rect::new(0, 0, 6, 6)))]);
    assert_eq!(m.snip_selection().unwrap().monitor, 1);
}

#[test]
fn button_up_without_drag_is_noop() {
    let mut m = SnipMode::new();
    assert_eq!(m.on_left_button_up(0, pt(5, 5)), ModeEffect::none());
    assert_eq!(m.snip_selection(), None);
}
