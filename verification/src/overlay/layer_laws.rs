//! What the keys, the wheel and the pointer do to the layers.
//!
//! The vocabulary here belongs to the statements alone: no operation is defined
//! by it.

use crate::capture::{DibBuffer, MonitorInfo};
use crate::geometry::{Point, Rect};
use crate::hotkeys::gesture::Modifiers;
use crate::overlay::controller::{params_of, OverlayController, Redraw};
use crate::overlay::events::OverlayEvent;
use crate::overlay::factor::Factor;
use crate::overlay::modes::{ModeKind, ModeStack};
use crate::settings::model::AppSettings;
use vstd::prelude::*;

verus! {

/// `v` is a positive number: the patterns of such numbers are ordered as the
/// numbers are.
pub open spec fn positive(v: Factor) -> bool {
    0 < v.bits < 0x7f80_0000
}

/// `v` is the number of a range nearest to `w`.
pub open spec fn nearest_in(v: Factor, w: Factor, low: Factor, high: Factor) -> bool {
    &&& low.bits <= w.bits <= high.bits ==> v == w
    &&& w.bits < low.bits ==> v == low
    &&& w.bits > high.bits ==> v == high
}

/// Every modifier of `need` is held.
pub open spec fn all_held(held: Modifiers, need: Modifiers) -> bool {
    (need.alt ==> held.alt) && (need.ctrl ==> held.ctrl) && (need.shift ==> held.shift) && (need.win
        ==> held.win)
}

/// No modifier is held.
pub open spec fn none_held(held: Modifiers) -> bool {
    !held.alt && !held.ctrl && !held.shift && !held.win
}

/// `v` is `w` held down to 10 to 1000.
pub open spec fn radius_of(v: u32, w: int) -> bool {
    &&& 10 <= w <= 1000 ==> v == w
    &&& w < 10 ==> v == 10
    &&& w > 1000 ==> v == 1000
}

/// A freeze starts with the spotlight alone, at the configured radius (within
/// 10 to 1000 pixels); the zoom hold starts at 1.0.
pub proof fn lemma_freeze_starts_with_the_spotlight(
    before: OverlayController,
    captured: Seq<(MonitorInfo, DibBuffer)>,
    settings: AppSettings,
    cursor: Option<Point>,
    after: OverlayController,
    r: Redraw,
)
    requires
        before.session is None,
        OverlayController::froze(before, captured, settings, cursor, after, r),
    ensures
        after.session matches Some(s) && {
            &&& s.modes.spotlight matches Some(p) && radius_of(
                p.radius,
                settings.spotlight.default_radius as int,
            ) && p.radius_modifier == settings.hotkeys.spotlight_radius_modifier && p.wheel_accum
                == 0
            &&& s.modes.zoom is None
            &&& s.modes.snip is None
            &&& s.modes.last_zoom.bits == 0x3f80_0000
            &&& s.modes.params.zoom_modifier == settings.hotkeys.zoom_modifier
            &&& s.modes.params.spotlight_radius == settings.spotlight.default_radius
        },
{
}

/// The zoom limits a session works with: a step above 1.0, a minimum of at
/// least 1.0 and a maximum above the minimum pass through; another step is 1.25,
/// another minimum 1.0, another maximum twice the minimum.
pub proof fn lemma_zoom_limits(settings: AppSettings)
    ensures
        ({
            let p = params_of(settings);
            let z = settings.zoom;
            &&& 0x3f80_0000 < z.step_factor.bits < 0x7f80_0000 ==> p.zoom_step == z.step_factor
            &&& z.step_factor.bits <= 0x3f80_0000 || z.step_factor.bits >= 0x7f80_0000
                ==> p.zoom_step.bits == 0x3fa0_0000
            &&& 0x3f80_0000 <= z.min.bits < 0x7f80_0000 ==> p.zoom_min == z.min
            &&& z.min.bits < 0x3f80_0000 || z.min.bits >= 0x7f80_0000 ==> p.zoom_min.bits
                == 0x3f80_0000
            &&& p.zoom_min.bits < z.max.bits < 0x7f80_0000 ==> p.zoom_max == z.max
            &&& (z.max.bits <= p.zoom_min.bits || z.max.bits >= 0x7f80_0000) && p.zoom_min.bits
                < 0x7f00_0000 ==> p.zoom_max.bits == p.zoom_min.bits + 0x0080_0000
        }),
{
}

/// Toggling a layer that is off turns it on and leaves the others on or off as
/// they are: the spotlight comes with the configured radius, the zoom layer at
/// the last-used factor within the configured limits.
#[verifier::rlimit(60)]
pub proof fn lemma_toggle_on(
    before: OverlayController,
    kind: ModeKind,
    cursor: Option<Point>,
    after: OverlayController,
    r: Redraw,
)
    requires
        before.wf(),
        before.session matches Some(s) && !s.modes.active(kind),
        OverlayController::mode_toggled(before, kind, cursor, after, r),
    ensures
        after.active == kind,
        r.flashes == (match kind {
            ModeKind::Spotlight => 1u32,
            ModeKind::Zoom => 2u32,
            ModeKind::Snip => 3u32,
        }),
        after.session matches Some(t) && {
            let s = before.session->0;
            &&& t.modes.saved == s.modes.saved
            &&& t.modes.last_zoom == s.modes.last_zoom
            &&& t.modes.params == s.modes.params
            &&& if kind == ModeKind::Spotlight {
                t.modes.spotlight matches Some(p) && radius_of(
                    p.radius,
                    s.modes.params.spotlight_radius as int,
                ) && p.wheel_accum == 0 && p.radius_modifier == s.modes.params.radius_modifier
            } else {
                &&& t.modes.spotlight is Some <==> s.modes.spotlight is Some
                &&& t.modes.spotlight matches Some(p) ==> p.radius == s.modes.spotlight->0.radius
                    && p.wheel_accum == s.modes.spotlight->0.wheel_accum
            }
            &&& if kind == ModeKind::Zoom {
                t.modes.zoom matches Some(z) && z.zoom == s.modes.last_zoom && (0x3f80_0000
                    < s.modes.params.zoom_step.bits < 0x7f80_0000 ==> z.step_factor
                    == s.modes.params.zoom_step) && (0x3f80_0000 <= s.modes.params.zoom_min.bits
                    < s.modes.params.zoom_max.bits <= 0x7f80_0000 ==> z.min
                    == s.modes.params.zoom_min && z.max == s.modes.params.zoom_max)
            } else {
                &&& t.modes.zoom is Some <==> s.modes.zoom is Some
                &&& t.modes.zoom matches Some(z) ==> z.zoom == s.modes.zoom->0.zoom
            }
            &&& if kind == ModeKind::Snip {
                t.modes.snip matches Some(n) && n.selection is None
            } else {
                t.modes.snip is Some <==> s.modes.snip is Some
            }
        },
{
}

/// Toggling a layer that is on turns it off, without a flash, and leaves the
/// others exactly as they are. The factor of a zoom layer is kept for next time.
pub proof fn lemma_toggle_off(
    before: OverlayController,
    kind: ModeKind,
    cursor: Option<Point>,
    after: OverlayController,
    r: Redraw,
)
    requires
        before.session matches Some(s) && s.modes.active(kind),
        OverlayController::mode_toggled(before, kind, cursor, after, r),
    ensures
        after.active == before.active,
        r.flashes == 0,
        after.session matches Some(t) && {
            let s = before.session->0;
            &&& t.modes.saved == s.modes.saved
            &&& t.modes.params == s.modes.params
            &&& t.modes.spotlight == (if kind == ModeKind::Spotlight {
                None
            } else {
                s.modes.spotlight
            })
            &&& t.modes.zoom == (if kind == ModeKind::Zoom {
                None
            } else {
                s.modes.zoom
            })
            &&& t.modes.snip == (if kind == ModeKind::Snip {
                None
            } else {
                s.modes.snip
            })
            &&& t.modes.last_zoom == (if kind == ModeKind::Zoom {
                s.modes.zoom->0.zoom
            } else {
                s.modes.last_zoom
            })
        },
{
}

/// Which layer is active is what its part of the stack says.
pub proof fn lemma_active_layers(s: ModeStack)
    ensures
        s.active(ModeKind::Spotlight) <==> s.spotlight is Some,
        s.active(ModeKind::Zoom) <==> s.zoom is Some,
        s.active(ModeKind::Snip) <==> s.snip is Some,
{
}

/// Dropping the zoom layer and taking it up again restores its factor.
pub proof fn lemma_zoom_hold_remembers(
    before: OverlayController,
    first: Option<Point>,
    off: OverlayController,
    r: Redraw,
    second: Option<Point>,
    on: OverlayController,
    again: Redraw,
)
    requires
        before.wf(),
        before.session matches Some(s) && s.modes.zoom is Some,
        OverlayController::mode_toggled(before, ModeKind::Zoom, first, off, r),
        OverlayController::mode_toggled(off, ModeKind::Zoom, second, on, again),
    ensures
        on.session matches Some(t) && t.modes.zoom matches Some(z) && z.zoom
            == before.session->0.modes.zoom->0.zoom,
{
}

/// Adding a layer that is on does nothing at all; adding one that is off turns
/// it on and keeps the others on.
pub proof fn lemma_adding_a_layer(
    before: OverlayController,
    kind: ModeKind,
    cursor: Option<Point>,
    after: OverlayController,
    r: Redraw,
)
    requires
        before.wf(),
        before.session is Some,
        OverlayController::mode_added(before, kind, cursor, after, r),
    ensures
        before.session->0.modes.active(kind) ==> after == before && r.repaint@.len() == 0
            && r.flashes == 0,
        !before.session->0.modes.active(kind) ==> (after.session matches Some(t) && t.modes.active(
            kind,
        ) && (kind == ModeKind::Zoom ==> t.modes.zoom->0.zoom
            == before.session->0.modes.last_zoom) && after.active == kind),
        forall|k: ModeKind|
            before.session->0.modes.active(k) ==> #[trigger] after.session->0.modes.active(k),
{
}

/// A plain mode key other than capture leaves its layer alone on: fresh, the
/// zoom at 1.0, out of capture mode, on the images the session was frozen from.
#[verifier::rlimit(60)]
pub proof fn lemma_plain_mode_key(
    before: OverlayController,
    kind: ModeKind,
    cursor: Option<Point>,
    cols: Seq<i32>,
    rows: Seq<i32>,
    after: OverlayController,
    r: Redraw,
)
    requires
        before.wf(),
        before.session is Some,
        kind != ModeKind::Snip,
        OverlayController::mode_set(before, kind, cursor, cols, rows, after, r),
    ensures
        after.active == kind,
        r.flashes == (if kind == ModeKind::Spotlight {
            1u32
        } else {
            2u32
        }),
        after.session matches Some(t) && {
            let s = before.session->0;
            &&& t.base is None
            &&& t.modes.saved is None
            &&& t.originals == (match s.base {
                Some(b) => b,
                None => s.originals,
            })
            &&& t.modes.last_zoom.bits == 0x3f80_0000
            &&& t.modes.snip is None
            &&& t.modes.spotlight is Some <==> kind == ModeKind::Spotlight
            &&& t.modes.spotlight matches Some(p) ==> radius_of(
                p.radius,
                s.modes.params.spotlight_radius as int,
            ) && p.wheel_accum == 0
            &&& t.modes.zoom is Some <==> kind == ModeKind::Zoom
            &&& t.modes.zoom matches Some(z) ==> z.zoom.bits == 0x3f80_0000
        },
{
}

/// Resetting the view puts an active zoom layer back to 1.0 where it is, and
/// touches nothing else.
pub proof fn lemma_reset_is_one(before: OverlayController, after: OverlayController, r: Redraw)
    requires
        before.session is Some,
        OverlayController::view_reset(before, after, r),
    ensures
        after.session matches Some(t) && {
            let s = before.session->0;
            &&& t.modes.spotlight == s.modes.spotlight
            &&& t.modes.snip == s.modes.snip
            &&& t.modes.saved == s.modes.saved
            &&& t.modes.last_zoom == s.modes.last_zoom
            &&& t.modes.zoom is Some <==> s.modes.zoom is Some
            &&& t.modes.zoom matches Some(z) ==> z.zoom.bits == 0x3f80_0000 && z.cursor
                == s.modes.zoom->0.cursor && z.cursor_monitor == s.modes.zoom->0.cursor_monitor
                && z.min == s.modes.zoom->0.min && z.max == s.modes.zoom->0.max && z.step_factor
                == s.modes.zoom->0.step_factor && r.repaint@.contains((z.cursor_monitor, None))
        },
        r.flashes == 0,
{
    let s = before.session->0;
    if s.modes.zoom is Some {
        assert(r.repaint@[0] == (s.modes.zoom->0.cursor_monitor, None::<Rect>));
    }
}

/// The pointer carries the circle and the focus of the magnified view with it:
/// both are where it is, on the monitor it is on. Radius, factor and everything
/// else stay.
pub proof fn lemma_layers_follow_the_pointer(
    before: ModeStack,
    monitor: usize,
    at: Point,
    scaled: Factor,
    after: ModeStack,
    repaints: Seq<(usize, Option<Rect>)>,
)
    requires
        OverlayController::event_outcome(
            before,
            monitor,
            OverlayEvent::MouseMove { at },
            scaled,
            after,
            repaints,
        ),
    ensures
        after.params == before.params,
        after.last_zoom == before.last_zoom,
        after.saved == before.saved,
        after.spotlight is Some <==> before.spotlight is Some,
        after.spotlight matches Some(p) ==> p.cursor == at && p.cursor_monitor == monitor && p.radius
            == before.spotlight->0.radius && p.wheel_accum == before.spotlight->0.wheel_accum
            && p.radius_modifier == before.spotlight->0.radius_modifier,
        after.zoom is Some <==> before.zoom is Some,
        after.zoom matches Some(z) ==> z.cursor == at && z.cursor_monitor == monitor && z.zoom
            == before.zoom->0.zoom && z.min == before.zoom->0.min && z.max == before.zoom->0.max
            && z.step_factor == before.zoom->0.step_factor,
        after.snip is Some <==> before.snip is Some,
        after.snip matches Some(n) ==> n.dragging == before.snip->0.dragging && n.selection
            == (match before.snip->0.selection {
            Some(sel) => Some(
                if before.snip->0.dragging && sel.monitor == monitor {
                    crate::overlay::modes::SnipSelection { monitor, a: sel.a, b: at }
                } else {
                    sel
                },
            ),
            None => None,
        }),
{
}

/// Keeping a positive number within a positive range takes the nearest number
/// of the range.
proof fn lemma_nearest(scaled: Factor, low: Factor, high: Factor)
    requires
        positive(scaled),
        positive(low),
        positive(high),
        low.bits <= high.bits,
    ensures
        nearest_in(scaled.clamped(low, high), scaled, low, high),
        positive(scaled.clamped(low, high)),
{
}

/// Positive numbers are the same exactly when their patterns are.
proof fn lemma_same_numbers(a: Factor, b: Factor)
    requires
        positive(a),
        positive(b),
    ensures
        a.same(b) <==> a == b,
{
}

/// Scrolling reaches the zoom layer with the zoom modifier held, which also
/// turns the layer on, or, once the layer is on, with no modifier at all. The
/// factor becomes the scaled one, within the limits, and the focus the pointer.
#[verifier::rlimit(60)]
pub proof fn lemma_wheel_zooms(
    before: ModeStack,
    monitor: usize,
    at: Point,
    delta: i32,
    modifiers: Modifiers,
    scaled: Factor,
    after: ModeStack,
    repaints: Seq<(usize, Option<Rect>)>,
)
    requires
        before.wf(),
        OverlayController::event_outcome(
            before,
            monitor,
            OverlayEvent::MouseWheel { at, delta, modifiers },
            scaled,
            after,
            repaints,
        ),
        positive(scaled),
        all_held(modifiers, before.params.zoom_modifier) || (before.zoom is Some && none_held(
            modifiers,
        )),
        before.zoom matches Some(z) ==> positive(z.zoom) && positive(z.min) && positive(z.max),
        before.zoom is None ==> positive(before.last_zoom) && 0x3f80_0000
            <= before.params.zoom_min.bits < before.params.zoom_max.bits < 0x7f80_0000,
    ensures
        after.last_zoom == before.last_zoom,
        after.saved == before.saved,
        after.snip == before.snip,
        after.zoom matches Some(z) && z.cursor == at && z.cursor_monitor == monitor && (
        match before.zoom {
            Some(was) => z.min == was.min && z.max == was.max && z.step_factor == was.step_factor
                && nearest_in(z.zoom, scaled, was.min, was.max),
            None => z.min == before.params.zoom_min && z.max == before.params.zoom_max
                && nearest_in(z.zoom, scaled, before.params.zoom_min, before.params.zoom_max),
        }),
{
    match before.zoom {
        Some(z) => {
            assert(z.max.bits >= z.min.bits);
            lemma_nearest(scaled, z.min, z.max);
            lemma_same_numbers(scaled.clamped(z.min, z.max), z.zoom);
        },
        None => {
            let z = before.fresh_zoom();
            assert(before.chorded(modifiers).zoom == Some(z));
            assert(z.min == before.params.zoom_min && z.max == before.params.zoom_max);
            lemma_nearest(scaled, z.min, z.max);
            lemma_same_numbers(scaled.clamped(z.min, z.max), z.zoom);
        },
    }
}

/// Without the zoom modifier, scrolling leaves an inactive zoom layer off; with
/// another modifier held it leaves an active one as it is.
pub proof fn lemma_wheel_leaves_the_zoom_alone(
    before: ModeStack,
    monitor: usize,
    at: Point,
    delta: i32,
    modifiers: Modifiers,
    scaled: Factor,
    after: ModeStack,
    repaints: Seq<(usize, Option<Rect>)>,
)
    requires
        OverlayController::event_outcome(
            before,
            monitor,
            OverlayEvent::MouseWheel { at, delta, modifiers },
            scaled,
            after,
            repaints,
        ),
        !all_held(modifiers, before.params.zoom_modifier),
        before.zoom is None || !none_held(modifiers),
    ensures
        after.zoom == before.zoom,
        after.last_zoom == before.last_zoom,
        after.saved == before.saved,
        after.snip == before.snip,
{
}

/// Scrolling resizes an active circle while its modifier is held: one pixel of
/// radius per twelve units, away from the user making it larger, within 10 to
/// 1000 pixels; what is left of the units counts for the next time. The circle
/// moves to the pointer.
#[verifier::rlimit(60)]
pub proof fn lemma_wheel_resizes(
    before: ModeStack,
    monitor: usize,
    at: Point,
    delta: i32,
    modifiers: Modifiers,
    scaled: Factor,
    after: ModeStack,
    repaints: Seq<(usize, Option<Rect>)>,
    pixels: int,
)
    requires
        before.wf(),
        OverlayController::event_outcome(
            before,
            monitor,
            OverlayEvent::MouseWheel { at, delta, modifiers },
            scaled,
            after,
            repaints,
        ),
        before.spotlight matches Some(p) && all_held(modifiers, p.radius_modifier),
        ({
            let units = before.spotlight->0.wheel_accum + delta;
            &&& units >= 0 ==> 12 * pixels <= units < 12 * pixels + 12
            &&& units < 0 ==> 12 * pixels >= units > 12 * pixels - 12
        }),
    ensures
        after.spotlight matches Some(p) && {
            let was = before.spotlight->0;
            &&& p.cursor == at
            &&& p.cursor_monitor == monitor
            &&& radius_of(p.radius, was.radius + pixels)
            &&& p.wheel_accum == was.wheel_accum + delta - 12 * pixels
            &&& p.radius_modifier == was.radius_modifier
        },
{
    let units = before.spotlight->0.wheel_accum + delta;
    assert(crate::overlay::modes::spotlight::whole_pixels(units) == pixels);
}

/// Without its modifier held, scrolling leaves the circle exactly as it is; an
/// inactive spotlight is never turned on by scrolling.
pub proof fn lemma_wheel_leaves_the_circle_alone(
    before: ModeStack,
    monitor: usize,
    at: Point,
    delta: i32,
    modifiers: Modifiers,
    scaled: Factor,
    after: ModeStack,
    repaints: Seq<(usize, Option<Rect>)>,
)
    requires
        OverlayController::event_outcome(
            before,
            monitor,
            OverlayEvent::MouseWheel { at, delta, modifiers },
            scaled,
            after,
            repaints,
        ),
        before.spotlight matches Some(p) ==> !all_held(modifiers, p.radius_modifier),
    ensures
        after.spotlight == before.spotlight,
{
}

/// A drag from `a` to `b` on one monitor selects between exactly these points;
/// a drag without area, a plain click, selects nothing. Circle and zoom stay.
#[verifier::rlimit(60)]
pub proof fn lemma_drag_selects(
    before: ModeStack,
    monitor: usize,
    a: Point,
    b: Point,
    scaled: Factor,
    pressed: ModeStack,
    first: Seq<(usize, Option<Rect>)>,
    after: ModeStack,
    second: Seq<(usize, Option<Rect>)>,
)
    requires
        before.snip is Some,
        OverlayController::event_outcome(
            before,
            monitor,
            OverlayEvent::LeftButtonDown { at: a },
            scaled,
            pressed,
            first,
        ),
        OverlayController::event_outcome(
            pressed,
            monitor,
            OverlayEvent::LeftButtonUp { at: b },
            scaled,
            after,
            second,
        ),
    ensures
        pressed.snip matches Some(n) && n.dragging && (n.selection matches Some(sel) && sel.monitor
            == monitor && sel.a == a && sel.b == a),
        after.snip matches Some(n) && !n.dragging && (if a.x == b.x || a.y == b.y {
            n.selection is None
        } else {
            n.selection matches Some(sel) && sel.monitor == monitor && sel.a == a && sel.b == b
        }),
        after.spotlight == before.spotlight,
        after.zoom == before.zoom,
        after.saved == before.saved,
        after.last_zoom == before.last_zoom,
{
}

/// Releasing the button on another monitor ends the drag where it last was on
/// its own.
pub proof fn lemma_drag_stays_on_its_monitor(
    before: ModeStack,
    monitor: usize,
    at: Point,
    scaled: Factor,
    after: ModeStack,
    repaints: Seq<(usize, Option<Rect>)>,
)
    requires
        before.snip matches Some(n) && n.dragging && (n.selection matches Some(sel) && sel.monitor
            != monitor && sel.a.x != sel.b.x && sel.a.y != sel.b.y),
        OverlayController::event_outcome(
            before,
            monitor,
            OverlayEvent::LeftButtonUp { at },
            scaled,
            after,
            repaints,
        ),
    ensures
        after.snip matches Some(n) && !n.dragging && n.selection == before.snip->0.selection,
{
}

/// Outside capture mode the buttons, and at any time the keys that reach an
/// overlay, change no layer and repaint nothing.
pub proof fn lemma_buttons_need_a_selection_layer(
    before: ModeStack,
    monitor: usize,
    event: OverlayEvent,
    scaled: Factor,
    after: ModeStack,
    repaints: Seq<(usize, Option<Rect>)>,
)
    requires
        event is KeyDown || before.snip is None && (event is LeftButtonDown || event is LeftButtonUp),
        OverlayController::event_outcome(before, monitor, event, scaled, after, repaints),
    ensures
        after == before,
        repaints.len() == 0,
{
}

/// A monitor is magnified while the zoom layer is focused on it, by the
/// layer's factor and around the layer's focus; at most one monitor is.
pub proof fn lemma_one_monitor_is_magnified(s: ModeStack, m: usize, other: usize)
    ensures
        s.zoom is None ==> s.zoom_at(m) is None,
        s.zoom matches Some(z) ==> s.zoom_at(z.cursor_monitor) == Some((z.zoom, z.cursor)),
        s.zoom_at(m) is Some && s.zoom_at(other) is Some ==> m == other,
        s.rendered(m).zoom == s.zoom_at(m),
{
}

/// What the wheel scales: the factor on the screen by the layer's step, or,
/// while the layer is off, the last-used factor by the configured step.
pub proof fn lemma_wheel_scales_what_is_shown(s: ModeStack)
    ensures
        s.zoom matches Some(z) ==> s.scaling().0 == z.zoom && s.scaling().1 == z.step_factor,
        s.zoom is None ==> s.scaling().0 == s.last_zoom,
        s.zoom is None && 0x3f80_0000 < s.params.zoom_step.bits < 0x7f80_0000 ==> s.scaling().1
            == s.params.zoom_step,
        s.zoom is None && s.params.zoom_step.bits <= 0x3f80_0000 ==> s.scaling().1.bits
            == 0x3fa0_0000,
{
}

/// A frame can be composed while frozen, for a monitor that is there; the
/// magnified one also needs maps of its own size.
pub proof fn lemma_composable_frames(
    c: OverlayController,
    m: usize,
    cols: Seq<i32>,
    rows: Seq<i32>,
)
    ensures
        c.can_compose(m, cols, rows) <==> (c.session matches Some(s) && m < s.originals@.len() && (
        s.modes.zoom matches Some(z) ==> z.cursor_monitor == m ==> cols.len()
            == s.originals@[m as int].width && rows.len() == s.originals@[m as int].height)),
{
}

} // verus!
