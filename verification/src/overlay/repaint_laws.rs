//! What is repainted: every pixel an event changes, and every repaint that was
//! put off.
//!
//! The vocabulary here belongs to the statements alone: no operation is defined
//! by it.

use crate::capture::{DibBuffer, MonitorInfo};
use crate::geometry::{Point, Rect};
use crate::overlay::composite::{in_selection, lit, outlined, spot_lit};
use crate::overlay::controller::{
    readiness, ready_presents, FreezeState, OverlayController, PendingRepaint, Redraw,
};
use crate::overlay::events::OverlayEvent;
use crate::overlay::factor::Factor;
use crate::overlay::modes::snip::{drag_rect, grown};
use crate::overlay::modes::spotlight::circle_box;
use crate::overlay::modes::zoom::focus_repaints;
use crate::overlay::modes::{ModeKind, ModeStack, SpotlightMode};
use crate::settings::model::AppSettings;
use vstd::prelude::*;

verus! {

/// A repaint of a region, or of everything, redraws `(x, y)`.
pub open spec fn redraws(dirty: Option<Rect>, x: int, y: int) -> bool {
    dirty matches Some(r) ==> 0 <= x - r.x < r.width && 0 <= y - r.y < r.height
}

/// One of the repaints redraws `(x, y)` of monitor `m`.
pub open spec fn repainted(repaints: Seq<(usize, Option<Rect>)>, m: int, x: int, y: int) -> bool {
    exists|i: int|
        0 <= i < repaints.len() && (#[trigger] repaints[i]).0 == m && redraws(repaints[i].1, x, y)
}

proof fn lemma_of_edges(left: int, top: int, right: int, bottom: int, x: int, y: int)
    requires
        0 <= x < i32::MAX,
        0 <= y < i32::MAX,
        left <= x < right,
        top <= y < bottom,
    ensures
        redraws(Some(Rect::of_edges(left, top, right, bottom)), x, y),
{
}

proof fn lemma_box_holds_the_circle(center: Point, radius: u32, x: int, y: int)
    requires
        0 <= x < i32::MAX,
        0 <= y < i32::MAX,
        crate::overlay::composite::in_circle(x, y, center, radius),
    ensures
        center.x - radius <= x <= center.x + radius,
        center.y - radius <= y <= center.y + radius,
        redraws(Some(circle_box(center, radius)), x, y),
{
    let dx = x - center.x;
    let dy = y - center.y;
    assert(-radius <= dx <= radius && -radius <= dy <= radius) by (nonlinear_arith)
        requires
            dx * dx + dy * dy <= radius * radius,
            0 <= radius,
    ;
    lemma_of_edges(
        center.x - radius,
        center.y - radius,
        center.x + radius + 1,
        center.y + radius + 1,
        x,
        y,
    );
}

/// A circle that changes is repainted where it was and where it is.
proof fn lemma_circle_repainted(p: SpotlightMode, q: SpotlightMode, m: usize, x: int, y: int)
    requires
        p.wf(),
        q.wf(),
        0 <= x < i32::MAX,
        0 <= y < i32::MAX,
        (p.cursor_monitor == m && crate::overlay::composite::in_circle(x, y, p.cursor, p.radius))
            != (q.cursor_monitor == m && crate::overlay::composite::in_circle(
            x,
            y,
            q.cursor,
            q.radius,
        )),
    ensures
        repainted(p.repaints_to(q), m as int, x, y),
{
    let a = circle_box(p.cursor, p.radius);
    let b = circle_box(q.cursor, q.radius);
    let all = p.repaints_to(q);
    let was = p.cursor_monitor == m && crate::overlay::composite::in_circle(
        x,
        y,
        p.cursor,
        p.radius,
    );
    if was {
        lemma_box_holds_the_circle(p.cursor, p.radius, x, y);
    } else {
        lemma_box_holds_the_circle(q.cursor, q.radius, x, y);
    }
    if p.cursor_monitor == q.cursor_monitor {
        assert(all[0].0 == m);
        lemma_union_redraws(a, b, x, y);
        assert(redraws(all[0].1, x, y));
    } else if was {
        assert(all[0].0 == m && redraws(all[0].1, x, y));
    } else {
        assert(all[1].0 == m && redraws(all[1].1, x, y));
    }
}

proof fn lemma_union_redraws(a: Rect, b: Rect, x: int, y: int)
    requires
        0 <= x < i32::MAX,
        0 <= y < i32::MAX,
        redraws(Some(a), x, y) || redraws(Some(b), x, y),
    ensures
        redraws(Some(a.union_spec(b)), x, y),
{
}

/// A pixel's look depends on the base image, the borders and the light alone.
proof fn lemma_same_look(
    s: FreezeState,
    t: FreezeState,
    m: int,
    cols: Seq<i32>,
    rows: Seq<i32>,
    x: int,
    y: int,
    c: int,
)
    requires
        0 <= m < s.count() <= usize::MAX,
        t == (FreezeState { modes: t.modes, frames: t.frames, ..s }),
        s.modes.any_layer() == t.modes.any_layer(),
        s.modes.rendered(m as usize).zoom is Some == t.modes.rendered(m as usize).zoom is Some,
        outlined(
            s.modes.rendered(m as usize),
            s.originals@[m].width,
            s.originals@[m].height,
            x,
            y,
        ) == outlined(
            t.modes.rendered(m as usize),
            s.originals@[m].width,
            s.originals@[m].height,
            x,
            y,
        ),
        lit(s.modes.rendered(m as usize), x, y) == lit(t.modes.rendered(m as usize), x, y),
    ensures
        s.shown(m, cols, rows, x, y, c) == t.shown(m, cols, rows, x, y, c),
{
}

/// A selection that is dragged on is repainted, its border too, where it was
/// and where it is.
proof fn lemma_drag_repainted(a: Point, b: Point, to: Point, x: int, y: int)
    requires
        0 <= x < i32::MAX,
        0 <= y < i32::MAX,
        (a.x != b.x && a.y != b.y && in_selection(x, y, a, b, 1)) || (a.x != to.x && a.y != to.y
            && in_selection(x, y, a, to, 1)),
    ensures
        redraws(Some(grown(drag_rect(a, b).union_spec(drag_rect(a, to)))), x, y),
{
    let p = drag_rect(a, b);
    let q = drag_rect(a, to);
    assert(p.empty() <==> a.x == b.x || a.y == b.y);
    assert(q.empty() <==> a.x == to.x || a.y == to.y);
    let u = p.union_spec(q);
    lemma_of_edges(u.x - 1, u.y - 1, u.right_edge() + 1, u.bottom_edge() + 1, x, y);
}

proof fn lemma_region_repainted(a: Point, b: Point, x: int, y: int)
    requires
        0 <= x < i32::MAX,
        0 <= y < i32::MAX,
        a.x != b.x,
        a.y != b.y,
        in_selection(x, y, a, b, 1),
    ensures
        !drag_rect(a, b).empty(),
        redraws(Some(grown(drag_rect(a, b))), x, y),
{
    let p = drag_rect(a, b);
    lemma_of_edges(p.x - 1, p.y - 1, p.right_edge() + 1, p.bottom_edge() + 1, x, y);
}

/// What an event changes on the screen is repainted: wherever two composed
/// frames of a monitor, before and after the event, differ, one of the event's
/// repaints redraws the pixel. The event turns no layer on (a layer that comes
/// on veils every monitor), and positions stay below the 32-bit edge.
#[verifier::rlimit(60)]
pub proof fn lemma_changes_are_repainted(
    s: FreezeState,
    t: FreezeState,
    monitor: usize,
    event: OverlayEvent,
    scaled: Factor,
    repaints: Seq<(usize, Option<Rect>)>,
    m: int,
    cols: Seq<i32>,
    rows: Seq<i32>,
    x: int,
    y: int,
    c: int,
)
    requires
        s.wf(),
        t.wf(),
        0 <= m < s.count() <= usize::MAX,
        t == (FreezeState { modes: t.modes, frames: t.frames, ..s }),
        OverlayController::event_outcome(s.modes, monitor, event, scaled, t.modes, repaints),
        s.modes.zoom is Some <==> t.modes.zoom is Some,
        s.shows_view(m, cols, rows),
        t.shows_view(m, cols, rows),
        s.originals@[m].has(x, y),
        x < i32::MAX,
        y < i32::MAX,
        0 <= c < 4,
        s.frames@[m].chan(x, y, c) != t.frames@[m].chan(x, y, c),
    ensures
        repainted(repaints, m, x, y),
{
    assert(s.shown(m, cols, rows, x, y, c) != t.shown(m, cols, rows, x, y, c));
    assert(s.modes.any_layer() == t.modes.any_layer());
    let k = m as usize;
    let p = s.modes.rendered(k);
    let q = t.modes.rendered(k);
    let (w, h) = (s.originals@[m].width, s.originals@[m].height);
    match event {
        OverlayEvent::MouseMove { at } => {
            let one = match s.modes.spotlight {
                Some(l) => l.repaints_to(l.moved(monitor, at)),
                None => crate::overlay::modes::no_repaints(),
            };
            let two = match s.modes.zoom {
                Some(z) => if z.focused(monitor, at) {
                    crate::overlay::modes::no_repaints()
                } else {
                    focus_repaints(z.cursor_monitor, monitor)
                },
                None => crate::overlay::modes::no_repaints(),
            };
            let three = match s.modes.snip {
                Some(n) => if n.extends(monitor, at) {
                    seq![(monitor, Some(n.drag_region(at)))]
                } else {
                    crate::overlay::modes::no_repaints()
                },
                None => crate::overlay::modes::no_repaints(),
            };
            assert(repaints == one + two + three);
            if p.zoom is Some != q.zoom is Some {
                lemma_focus_repainted(s.modes.zoom->0.cursor_monitor, monitor, m, x, y);
                lemma_middle(one, two, three, m, x, y);
            } else if spot_lit(p, x, y) != spot_lit(q, x, y) {
                let l = s.modes.spotlight->0;
                lemma_circle_repainted(l, l.moved(monitor, at), k, x, y);
                lemma_front(one, two, three, m, x, y);
            } else {
                if p.snip == q.snip {
                    lemma_same_look(s, t, m, cols, rows, x, y, c);
                }
                let n = s.modes.snip->0;
                let sel = n.selection->0;
                assert(n.extends(monitor, at));
                lemma_look_of_selection(s, t, m, cols, rows, sel.a, sel.b, sel.a, at, x, y, c);
                lemma_drag_repainted(sel.a, sel.b, at, x, y);
                assert(three[0].0 == m && redraws(three[0].1, x, y));
                lemma_back(one, two, three, m, x, y);
            }
        },
        OverlayEvent::MouseWheel { at, delta, modifiers } => {
            let one = match s.modes.spotlight {
                Some(l) => l.repaints_to(
                    if modifiers.holds(l.radius_modifier) {
                        l.resized(monitor, at, delta as int)
                    } else {
                        l
                    },
                ),
                None => crate::overlay::modes::no_repaints(),
            };
            let two = match s.modes.chorded(modifiers).zoom {
                Some(z) => if s.modes.zooms(modifiers) && !z.wheel_is_noop(monitor, at, scaled) {
                    focus_repaints(z.cursor_monitor, monitor)
                } else {
                    crate::overlay::modes::no_repaints()
                },
                None => crate::overlay::modes::no_repaints(),
            };
            let three = crate::overlay::modes::no_repaints();
            assert(repaints =~= one + two + three);
            if p.zoom is Some != q.zoom is Some {
                lemma_focus_repainted(s.modes.zoom->0.cursor_monitor, monitor, m, x, y);
                lemma_middle(one, two, three, m, x, y);
            } else if spot_lit(p, x, y) != spot_lit(q, x, y) {
                let l = s.modes.spotlight->0;
                lemma_circle_repainted(l, t.modes.spotlight->0, k, x, y);
                lemma_front(one, two, three, m, x, y);
            } else {
                assert(p.snip == q.snip);
                lemma_same_look(s, t, m, cols, rows, x, y, c);
            }
        },
        OverlayEvent::LeftButtonDown { at } => {
            if p.snip == q.snip {
                lemma_same_look(s, t, m, cols, rows, x, y, c);
            }
            let old_selection = s.modes.snip->0.selection;
            if old_selection is None || old_selection->0.monitor != m {
                lemma_look_of_selection(s, t, m, cols, rows, at, at, at, at, x, y, c);
            }
            let sel = old_selection->0;
            lemma_look_of_selection(s, t, m, cols, rows, sel.a, sel.b, at, at, x, y, c);
            lemma_region_repainted(sel.a, sel.b, x, y);
            assert(repaints[0].0 == m && redraws(repaints[0].1, x, y));
        },
        OverlayEvent::LeftButtonUp { at } => {
            if p.snip == q.snip {
                lemma_same_look(s, t, m, cols, rows, x, y, c);
            }
            let n = s.modes.snip->0;
            let sel = n.selection->0;
            assert(drag_rect(sel.a, sel.b).empty() <==> sel.a.x == sel.b.x || sel.a.y == sel.b.y);
            assert(drag_rect(sel.a, at).empty() <==> sel.a.x == at.x || sel.a.y == at.y);
            if sel.monitor != monitor {
                lemma_look_of_selection(s, t, m, cols, rows, sel.a, sel.b, at, at, x, y, c);
            } else if drag_rect(sel.a, at).empty() {
                lemma_look_of_selection(s, t, m, cols, rows, sel.a, sel.b, at, at, x, y, c);
                lemma_region_repainted(sel.a, sel.b, x, y);
                assert(repaints[0].0 == m && redraws(repaints[0].1, x, y));
            } else {
                lemma_look_of_selection(s, t, m, cols, rows, sel.a, sel.b, sel.a, at, x, y, c);
                lemma_drag_repainted(sel.a, sel.b, at, x, y);
                assert(repaints[0].0 == m && redraws(repaints[0].1, x, y));
            }
        },
        OverlayEvent::KeyDown { .. } => {
            lemma_same_look(s, t, m, cols, rows, x, y, c);
        },
    }
}

/// A pixel that looks different though base image and circle are the same lies
/// within a pixel of a selection with an area, before or after. A monitor
/// without a selection counts as having one without area.
proof fn lemma_look_of_selection(
    s: FreezeState,
    t: FreezeState,
    m: int,
    cols: Seq<i32>,
    rows: Seq<i32>,
    a: Point,
    b: Point,
    a2: Point,
    b2: Point,
    x: int,
    y: int,
    c: int,
)
    requires
        0 <= m < s.count() <= usize::MAX,
        t == (FreezeState { modes: t.modes, frames: t.frames, ..s }),
        s.modes.any_layer() == t.modes.any_layer(),
        s.modes.saved is Some == t.modes.saved is Some,
        s.modes.rendered(m as usize).zoom is Some == t.modes.rendered(m as usize).zoom is Some,
        spot_lit(s.modes.rendered(m as usize), x, y) == spot_lit(
            t.modes.rendered(m as usize),
            x,
            y,
        ),
        s.modes.rendered(m as usize).snip == Some((a, b)) || (s.modes.rendered(m as usize).snip
            is None && (a.x == b.x || a.y == b.y)),
        t.modes.rendered(m as usize).snip == Some((a2, b2)) || (t.modes.rendered(m as usize).snip
            is None && (a2.x == b2.x || a2.y == b2.y)),
        s.shown(m, cols, rows, x, y, c) != t.shown(m, cols, rows, x, y, c),
    ensures
        (a.x != b.x && a.y != b.y && in_selection(x, y, a, b, 1)) || (a2.x != b2.x && a2.y != b2.y
            && in_selection(x, y, a2, b2, 1)),
{
    let one = a.x != b.x && a.y != b.y && in_selection(x, y, a, b, 1);
    let two = a2.x != b2.x && a2.y != b2.y && in_selection(x, y, a2, b2, 1);
    if !one && !two {
        lemma_same_look(s, t, m, cols, rows, x, y, c);
    }
}

proof fn lemma_focus_repainted(old_monitor: usize, monitor: usize, m: int, x: int, y: int)
    requires
        m == old_monitor || m == monitor,
    ensures
        repainted(focus_repaints(old_monitor, monitor), m, x, y),
{
    let all = focus_repaints(old_monitor, monitor);
    if old_monitor == monitor {
        assert(all[0].0 == m && redraws(all[0].1, x, y));
    } else if m == old_monitor {
        assert(all[0].0 == m && redraws(all[0].1, x, y));
    } else {
        assert(all[1].0 == m && redraws(all[1].1, x, y));
    }
}

proof fn lemma_front(
    one: Seq<(usize, Option<Rect>)>,
    two: Seq<(usize, Option<Rect>)>,
    three: Seq<(usize, Option<Rect>)>,
    m: int,
    x: int,
    y: int,
)
    requires
        repainted(one, m, x, y),
    ensures
        repainted(one + two + three, m, x, y),
{
    let i = choose|i: int|
        0 <= i < one.len() && (#[trigger] one[i]).0 == m && redraws(one[i].1, x, y);
    let all = one + two + three;
    assert(all[i] == one[i]);
}

proof fn lemma_middle(
    one: Seq<(usize, Option<Rect>)>,
    two: Seq<(usize, Option<Rect>)>,
    three: Seq<(usize, Option<Rect>)>,
    m: int,
    x: int,
    y: int,
)
    requires
        repainted(two, m, x, y),
    ensures
        repainted(one + two + three, m, x, y),
{
    let i = choose|i: int|
        0 <= i < two.len() && (#[trigger] two[i]).0 == m && redraws(two[i].1, x, y);
    let all = one + two + three;
    assert(all[one.len() + i] == two[i]);
}

proof fn lemma_back(
    one: Seq<(usize, Option<Rect>)>,
    two: Seq<(usize, Option<Rect>)>,
    three: Seq<(usize, Option<Rect>)>,
    m: int,
    x: int,
    y: int,
)
    requires
        repainted(three, m, x, y),
    ensures
        repainted(one + two + three, m, x, y),
{
    let i = choose|i: int|
        0 <= i < three.len() && (#[trigger] three[i]).0 == m && redraws(three[i].1, x, y);
    let all = one + two + three;
    assert(all[one.len() + two.len() + i] == three[i]);
}

/// A magnified view that changes, in factor or focus, comes on or goes away, is
/// repainted whole on its monitor. The event does not turn the layer on.
#[verifier::rlimit(60)]
pub proof fn lemma_magnified_view_is_repainted(
    before: ModeStack,
    after: ModeStack,
    monitor: usize,
    event: OverlayEvent,
    scaled: Factor,
    repaints: Seq<(usize, Option<Rect>)>,
    m: usize,
)
    requires
        OverlayController::event_outcome(before, monitor, event, scaled, after, repaints),
        before.zoom matches Some(z) && after.zoom matches Some(w) && z != w && (z.cursor_monitor
            == m || w.cursor_monitor == m),
    ensures
        exists|i: int| 0 <= i < repaints.len() && #[trigger] repaints[i] == (m, None::<Rect>),
{
    let z = before.zoom->0;
    let two = focus_repaints(z.cursor_monitor, monitor);
    let at = if z.cursor_monitor == monitor || z.cursor_monitor == m {
        0int
    } else {
        1int
    };
    assert(two[at] == (m, None::<Rect>));
    let one = match event {
        OverlayEvent::MouseMove { at } => match before.spotlight {
            Some(l) => l.repaints_to(l.moved(monitor, at)),
            None => crate::overlay::modes::no_repaints(),
        },
        OverlayEvent::MouseWheel { at, delta, modifiers } => match before.spotlight {
            Some(l) => l.repaints_to(
                if modifiers.holds(l.radius_modifier) {
                    l.resized(monitor, at, delta as int)
                } else {
                    l
                },
            ),
            None => crate::overlay::modes::no_repaints(),
        },
        _ => crate::overlay::modes::no_repaints(),
    };
    assert(repaints[one.len() + at] == two[at]);
}

/// A repaint that was put off is not lost: the next present of its monitor
/// redraws what either of them had to, and then nothing is put off any more.
pub proof fn lemma_deferred_repaints_are_kept(
    before: OverlayController,
    m: usize,
    first: Option<Rect>,
    busy: OverlayController,
    none: Option<Option<Rect>>,
    second: Option<Rect>,
    after: OverlayController,
    r: Option<Option<Rect>>,
    x: int,
    y: int,
)
    requires
        before.wf(),
        before.session matches Some(s) && m < s.count(),
        OverlayController::deferred_as(before, m, first, false, busy, none),
        OverlayController::deferred_as(busy, m, second, true, after, r),
        0 <= x < i32::MAX,
        0 <= y < i32::MAX,
        redraws(first, x, y) || redraws(second, x, y),
    ensures
        none is None,
        r matches Some(dirty) && redraws(dirty, x, y),
        after.session matches Some(t) && t.pending_repaint@[m as int] is None && t.frames
            == before.session->0.frames,
{
    let p = busy.session->0.pending_repaint@[m as int]->0;
    if p is Region && second is Some {
        lemma_union_redraws(p->Region_0, second->0, x, y);
    }
    match before.session->0.pending_repaint@[m as int] {
        Some(PendingRepaint::Region(a)) => {
            if first is Some && redraws(first, x, y) {
                lemma_union_redraws(a, first->0, x, y);
                if second is Some {
                    lemma_union_redraws(p->Region_0, second->0, x, y);
                }
            }
        },
        _ => {},
    }
}

/// With nothing put off, a present takes exactly its own region.
pub proof fn lemma_present_takes_its_region(
    before: OverlayController,
    m: usize,
    dirty: Option<Rect>,
    after: OverlayController,
    r: Option<Option<Rect>>,
)
    requires
        before.wf(),
        before.session matches Some(s) && m < s.count() && s.pending_repaint@[m as int] is None,
        OverlayController::deferred_as(before, m, dirty, true, after, r),
    ensures
        r == Some(dirty),
{
}

/// Catching up presents exactly the monitors that have something put off and
/// are ready, each once and in order, and leaves the others waiting.
#[verifier::rlimit(60)]
pub proof fn lemma_catching_up(
    before: OverlayController,
    ready: Seq<bool>,
    after: OverlayController,
    r: Seq<(usize, Option<Rect>)>,
)
    requires
        before.wf(),
        before.session matches Some(s) && s.count() <= usize::MAX,
        OverlayController::caught_up(before, ready, after, r),
    ensures
        forall|i: int, j: int| 0 <= i < j < r.len() ==> (#[trigger] r[i]).0 < (#[trigger] r[j]).0,
        forall|i: int|
            0 <= i < r.len() ==> {
                let m = (#[trigger] r[i]).0 as int;
                let s = before.session->0;
                &&& m < s.count()
                &&& m < ready.len() && ready[m]
                &&& match s.pending_repaint@[m] {
                    Some(PendingRepaint::Full) => r[i].1 is None,
                    Some(PendingRepaint::Region(d)) => r[i].1 == Some(d),
                    None => false,
                }
            },
        forall|m: int|
            0 <= m < before.session->0.count() && m < ready.len() && ready[m] && (
            #[trigger] before.session->0.pending_repaint@[m]) is Some ==> exists|i: int|
                0 <= i < r.len() && (#[trigger] r[i]).0 == m,
        after.session matches Some(t) && forall|m: int|
            0 <= m < before.session->0.count() ==> #[trigger] t.pending_repaint@[m] == (if m
                < ready.len() && ready[m] {
                None
            } else {
                before.session->0.pending_repaint@[m]
            }),
{
    let s = before.session->0;
    lemma_ready_presents(s.pending_repaint@, readiness(ready, s.count()), s.count() as int);
}

proof fn lemma_ready_presents(pending: Seq<Option<PendingRepaint>>, ready: Seq<bool>, n: int)
    requires
        0 <= n <= pending.len(),
        n <= usize::MAX,
        pending.len() == ready.len(),
    ensures
        ({
            let r = ready_presents(pending, ready, n);
            &&& forall|i: int, j: int|
                0 <= i < j < r.len() ==> (#[trigger] r[i]).0 < (#[trigger] r[j]).0
            &&& forall|i: int|
                0 <= i < r.len() ==> (#[trigger] r[i]).0 < n && ready[r[i].0 as int] && (
                match pending[r[i].0 as int] {
                    Some(PendingRepaint::Full) => r[i].1 is None,
                    Some(PendingRepaint::Region(d)) => r[i].1 == Some(d),
                    None => false,
                })
            &&& forall|m: int|
                0 <= m < n && ready[m] && (#[trigger] pending[m]) is Some ==> exists|i: int|
                    0 <= i < r.len() && (#[trigger] r[i]).0 == m
        }),
    decreases n,
{
    if n > 0 {
        lemma_ready_presents(pending, ready, n - 1);
        let prior = ready_presents(pending, ready, n - 1);
        let r = ready_presents(pending, ready, n);
        assert forall|m: int| 0 <= m < n && ready[m] && (#[trigger] pending[m]) is Some implies
            exists|i: int| 0 <= i < r.len() && (#[trigger] r[i]).0 == m by {
            if m < n - 1 {
                let i = choose|i: int| 0 <= i < prior.len() && (#[trigger] prior[i]).0 == m;
                assert(r[i].0 == m);
            } else {
                assert(r[r.len() - 1].0 == m);
            }
        }
    }
}

/// Every monitor is repainted in full.
pub open spec fn everything_repainted(r: Redraw, count: nat) -> bool {
    forall|m: usize| m < count ==> r.repaint@.contains(#[trigger] whole(m))
}

/// A repaint of all of monitor `m`.
pub open spec fn whole(m: usize) -> (usize, Option<Rect>) {
    (m, None)
}

proof fn lemma_full_repaints(r: Redraw, count: nat)
    requires
        r.repaint@ == crate::overlay::controller::full_repaints(count),
        count <= usize::MAX,
    ensures
        everything_repainted(r, count),
{
    assert forall|m: usize| m < count implies r.repaint@.contains(#[trigger] whole(m)) by {
        assert(r.repaint@[m as int] == whole(m));
    }
}

/// A freeze shows every captured monitor and flashes once. A freeze while
/// frozen does nothing.
pub proof fn lemma_freeze_shows_everything(
    before: OverlayController,
    captured: Seq<(MonitorInfo, DibBuffer)>,
    settings: AppSettings,
    cursor: Option<Point>,
    after: OverlayController,
    r: Redraw,
)
    requires
        captured.len() <= usize::MAX,
        OverlayController::froze(before, captured, settings, cursor, after, r),
    ensures
        before.session is None ==> everything_repainted(r, captured.len()) && r.flashes == 1,
        before.session is Some ==> after == before && r.repaint@.len() == 0 && r.flashes == 0,
{
    if before.session is None {
        lemma_full_repaints(r, captured.len());
    }
}

/// A mode key that changes the layers repaints every monitor and flashes once
/// for the spotlight, twice for the zoom, three times for a capture. Without a
/// session no mode key does anything.
#[verifier::rlimit(60)]
pub proof fn lemma_mode_keys_repaint_everything(
    before: OverlayController,
    kind: ModeKind,
    cursor: Option<Point>,
    cols: Seq<i32>,
    rows: Seq<i32>,
    set: OverlayController,
    by_set: Redraw,
    toggled: OverlayController,
    by_toggle: Redraw,
    added: OverlayController,
    by_add: Redraw,
)
    requires
        OverlayController::mode_set(before, kind, cursor, cols, rows, set, by_set),
        OverlayController::mode_toggled(before, kind, cursor, toggled, by_toggle),
        OverlayController::mode_added(before, kind, cursor, added, by_add),
        before.session matches Some(s) ==> s.count() <= usize::MAX,
    ensures
        before.session matches Some(s) ==> {
            &&& everything_repainted(by_set, s.count())
            &&& everything_repainted(by_toggle, s.count())
            &&& by_set.flashes == (match kind {
                ModeKind::Spotlight => 1u32,
                ModeKind::Zoom => 2u32,
                ModeKind::Snip => 3u32,
            })
            &&& !s.modes.active(kind) ==> everything_repainted(by_add, s.count())
                && by_add.flashes == by_set.flashes && by_toggle.flashes == by_set.flashes
        },
        before.session is None ==> {
            &&& set.session is None && by_set.repaint@.len() == 0 && by_set.flashes == 0
            &&& toggled.session is None && by_toggle.repaint@.len() == 0 && by_toggle.flashes == 0
            &&& added.session is None && by_add.repaint@.len() == 0 && by_add.flashes == 0
        },
{
    if before.session is Some {
        let s = before.session->0;
        lemma_full_repaints(by_set, s.count());
        lemma_full_repaints(by_toggle, s.count());
        if !s.modes.active(kind) {
            lemma_full_repaints(by_add, s.count());
        }
    }
}

/// Backing out of a capture repaints every monitor, without a flash.
pub proof fn lemma_leaving_capture_repaints_everything(
    before: OverlayController,
    after: OverlayController,
    r: Redraw,
)
    requires
        before.session matches Some(s) && s.base is Some && s.count() <= usize::MAX,
        OverlayController::unfroze(before, after, r),
    ensures
        after.session is Some,
        everything_repainted(r, before.session->0.count()),
        r.flashes == 0,
{
    lemma_full_repaints(r, before.session->0.count());
}

/// An event changes nothing but the layers: images, monitors, settings and
/// deferred repaints stay. An event of a monitor that is not there, or without
/// a session, changes nothing at all.
pub proof fn lemma_events_touch_only_the_layers(
    before: OverlayController,
    monitor: usize,
    event: OverlayEvent,
    scaled: Factor,
    after: OverlayController,
    r: Redraw,
)
    requires
        OverlayController::event_handled(before, monitor, event, scaled, after, r),
    ensures
        after.active == before.active,
        r.flashes == 0,
        before.session is None ==> after == before && r.repaint@.len() == 0,
        before.session matches Some(s) ==> (after.session matches Some(t) && {
            &&& t.originals == s.originals
            &&& t.frames == s.frames
            &&& t.monitors == s.monitors
            &&& t.pending_repaint == s.pending_repaint
            &&& t.settings == s.settings
            &&& t.base == s.base
            &&& monitor >= s.originals@.len() ==> t.modes == s.modes && r.repaint@.len() == 0
            &&& monitor < s.originals@.len() ==> OverlayController::event_outcome(
                s.modes,
                monitor,
                event,
                scaled,
                t.modes,
                r.repaint@,
            )
        }),
{
}

} // verus!
