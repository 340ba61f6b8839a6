//! What a frozen session promises from one key to the next: the image a copy
//! gives, where the layers are, what capture mode keeps and gives back.
//!
//! The vocabulary here belongs to the statements alone: no operation is defined
//! by it.

use crate::capture::{DibBuffer, MonitorInfo};
use crate::geometry::{Point, Rect};
use crate::overlay::composite::{is_composed, lemma_monitor_at};
use crate::overlay::controller::{FreezeState, OverlayController, Redraw};
use crate::overlay::laws::{
    based_on, drawn_toward, in_between, inside, lemma_circle_is_clear, lemma_rest_is_veiled,
    lemma_selection_is_clear, off_edges, outside,
};
use crate::overlay::modes::ModeKind;
use crate::settings::model::AppSettings;
use vstd::prelude::*;

verus! {

/// The spotlight circle of the session lies on monitor `m` and holds `(x, y)`.
pub open spec fn in_the_circle(s: FreezeState, m: int, x: int, y: int) -> bool {
    s.modes.spotlight matches Some(p) && p.cursor_monitor == m && (x - p.cursor.x) * (x
        - p.cursor.x) + (y - p.cursor.y) * (y - p.cursor.y) <= p.radius * p.radius
}

/// The session's selection between `a` and `b` lies on monitor `m`.
pub open spec fn selects(s: FreezeState, m: int, a: Point, b: Point) -> bool {
    s.modes.snip matches Some(n) && n.selection matches Some(sel) && sel.monitor == m && sel.a == a
        && sel.b == b
}

/// The session magnifies monitor `m`.
pub open spec fn magnifies(s: FreezeState, m: int) -> bool {
    s.modes.zoom matches Some(z) && z.cursor_monitor == m
}

/// No border lies on `(x, y)` of monitor `m`: neither the frame of capture mode
/// nor the ring of a selection.
pub open spec fn free_of_borders(s: FreezeState, m: int, x: int, y: int) -> bool {
    &&& s.base is Some ==> off_edges(x, y, s.originals@[m].width, s.originals@[m].height)
    &&& forall|a: Point, b: Point| #[trigger]
        selects(s, m, a, b) ==> a.x == b.x || a.y == b.y || inside(x, y, a, b) || outside(x, y, a, b)
}

/// A composed frame is the composition of its monitor's image.
proof fn lemma_view_is_composed(s: FreezeState, m: int, cols: Seq<i32>, rows: Seq<i32>)
    requires
        s.wf(),
        0 <= m < s.count(),
        s.count() <= usize::MAX,
        s.shows_view(m, cols, rows),
    ensures
        is_composed(
            &s.originals@[m],
            s.modes.rendered(m as usize),
            cols,
            rows,
            s.veil(),
            s.settings.overlay.color,
            s.frames@[m],
        ),
{
    assert(s.originals@[m].wf());
    assert(s.frames@[m].same_shape(s.originals@[m]));
    assert forall|x: int, y: int, c: int| s.originals@[m].has(x, y) && 0 <= c < 4 implies
        #[trigger] s.frames@[m].chan(x, y, c) == crate::overlay::composite::composed(
        &s.originals@[m],
        s.modes.rendered(m as usize),
        cols,
        rows,
        s.veil(),
        s.settings.overlay.color,
        x,
        y,
        c,
    ) by {
        assert(s.frames@[m].chan(x, y, c) == s.shown(m, cols, rows, x, y, c));
    }
}

/// On the monitor the spotlight is on, the circle shows the frozen image
/// (magnified or not) at full brightness.
#[verifier::rlimit(60)]
pub proof fn lemma_spotlight_is_clear(
    s: FreezeState,
    m: int,
    cols: Seq<i32>,
    rows: Seq<i32>,
    x: int,
    y: int,
    sx: int,
    sy: int,
    c: int,
)
    requires
        s.wf(),
        0 <= m < s.count() <= usize::MAX,
        s.shows_view(m, cols, rows),
        s.originals@[m].has(x, y),
        0 <= c < 4,
        in_the_circle(s, m, x, y),
        free_of_borders(s, m, x, y),
        based_on(s.originals@[m], magnifies(s, m), cols, rows, x, y, sx, sy),
    ensures
        s.frames@[m].chan(x, y, c) == s.originals@[m].chan(sx, sy, c),
{
    lemma_view_is_composed(s, m, cols, rows);
    lemma_free_of_borders(s, m, x, y);
    let p = s.modes.spotlight->0;
    lemma_circle_is_clear(
        s.originals@[m],
        s.modes.rendered(m as usize),
        cols,
        rows,
        s.veil(),
        s.settings.overlay.color,
        s.frames@[m],
        p.cursor,
        p.radius,
        x,
        y,
        sx,
        sy,
        c,
    );
}

proof fn lemma_free_of_borders(s: FreezeState, m: int, x: int, y: int)
    requires
        s.wf(),
        0 <= m < s.count() <= usize::MAX,
        free_of_borders(s, m, x, y),
    ensures
        crate::overlay::laws::off_borders(
            s.modes.rendered(m as usize),
            s.originals@[m].width,
            s.originals@[m].height,
            x,
            y,
        ),
{
    let state = s.modes.rendered(m as usize);
    if state.snip is Some {
        let d = state.snip->0;
        assert(selects(s, m, d.0, d.1));
    }
}

/// On the monitor the selection is on, its rectangle shows the frozen image at
/// full brightness.
#[verifier::rlimit(60)]
pub proof fn lemma_selected_area_is_clear(
    s: FreezeState,
    m: int,
    cols: Seq<i32>,
    rows: Seq<i32>,
    a: Point,
    b: Point,
    x: int,
    y: int,
    sx: int,
    sy: int,
    c: int,
)
    requires
        s.wf(),
        0 <= m < s.count() <= usize::MAX,
        s.shows_view(m, cols, rows),
        s.originals@[m].has(x, y),
        0 <= c < 4,
        selects(s, m, a, b),
        inside(x, y, a, b),
        free_of_borders(s, m, x, y),
        based_on(s.originals@[m], magnifies(s, m), cols, rows, x, y, sx, sy),
    ensures
        s.frames@[m].chan(x, y, c) == s.originals@[m].chan(sx, sy, c),
{
    lemma_view_is_composed(s, m, cols, rows);
    lemma_free_of_borders(s, m, x, y);
    lemma_selection_is_clear(
        s.originals@[m],
        s.modes.rendered(m as usize),
        cols,
        rows,
        s.veil(),
        s.settings.overlay.color,
        s.frames@[m],
        a,
        b,
        x,
        y,
        sx,
        sy,
        c,
    );
}

/// While a layer is on, everything outside the circle and the selection is
/// drawn toward the configured colour at the configured opacity, on every
/// monitor.
#[verifier::rlimit(60)]
pub proof fn lemma_elsewhere_is_veiled(
    s: FreezeState,
    m: int,
    cols: Seq<i32>,
    rows: Seq<i32>,
    x: int,
    y: int,
    sx: int,
    sy: int,
)
    requires
        s.wf(),
        0 <= m < s.count() <= usize::MAX,
        s.shows_view(m, cols, rows),
        s.originals@[m].has(x, y),
        s.modes.spotlight is Some || s.modes.zoom is Some || s.modes.snip is Some,
        !in_the_circle(s, m, x, y),
        forall|a: Point, b: Point| #[trigger] selects(s, m, a, b) ==> outside(x, y, a, b),
        s.base is Some ==> off_edges(x, y, s.originals@[m].width, s.originals@[m].height),
        based_on(s.originals@[m], magnifies(s, m), cols, rows, x, y, sx, sy),
    ensures
        ({
            let o = s.originals@[m];
            let f = s.frames@[m];
            let veil = s.settings.overlay;
            &&& drawn_toward(f.chan(x, y, 0), o.chan(sx, sy, 0), veil.color.b, veil.dim_opacity)
            &&& drawn_toward(f.chan(x, y, 1), o.chan(sx, sy, 1), veil.color.g, veil.dim_opacity)
            &&& drawn_toward(f.chan(x, y, 2), o.chan(sx, sy, 2), veil.color.r, veil.dim_opacity)
            &&& f.chan(x, y, 3) == o.chan(sx, sy, 3)
        }),
{
    lemma_view_is_composed(s, m, cols, rows);
    let state = s.modes.rendered(m as usize);
    if state.snip is Some {
        let d = state.snip->0;
        assert(selects(s, m, d.0, d.1));
    }
    lemma_rest_is_veiled(
        s.originals@[m],
        state,
        cols,
        rows,
        s.settings.overlay.dim_opacity,
        s.settings.overlay.color,
        s.frames@[m],
        x,
        y,
        sx,
        sy,
    );
}

/// With every layer off and outside capture mode, a frame is the frozen image,
/// byte for byte.
pub proof fn lemma_all_off_is_clear(s: FreezeState, m: int, cols: Seq<i32>, rows: Seq<i32>)
    requires
        s.wf(),
        0 <= m < s.count() <= usize::MAX,
        s.shows_view(m, cols, rows),
        s.modes.spotlight is None,
        s.modes.zoom is None,
        s.modes.snip is None,
        s.base is None,
    ensures
        s.frames@[m].pixels@ == s.originals@[m].pixels@,
{
    lemma_view_is_composed(s, m, cols, rows);
    let f = s.frames@[m];
    let o = s.originals@[m];
    assert(o.wf());
    assert forall|x: int, y: int, c: int| f.has(x, y) && 0 <= c < 4 implies #[trigger] f.chan(
        x,
        y,
        c,
    ) == o.chan(x, y, c) by {
        assert(f.chan(x, y, c) == s.shown(m, cols, rows, x, y, c));
    }
    f.lemma_same_bytes(o);
}

/// A flash shows the composed frame with its outermost six pixels white; alpha
/// is kept.
#[verifier::rlimit(60)]
pub proof fn lemma_flash_is_a_white_border(
    s: FreezeState,
    m: int,
    cols: Seq<i32>,
    rows: Seq<i32>,
    plain: FreezeState,
    flashed: FreezeState,
    x: int,
    y: int,
)
    requires
        s.wf(),
        0 <= m < s.count(),
        s.composed_as(m, cols, rows, plain),
        s.flashed_as(m, cols, rows, flashed),
        s.originals@[m].has(x, y),
    ensures
        flashed.frames@[m].chan(x, y, 3) == plain.frames@[m].chan(x, y, 3),
        6 <= x < s.originals@[m].width - 6 && 6 <= y < s.originals@[m].height - 6
            ==> forall|c: int|
            0 <= c < 3 ==> #[trigger] flashed.frames@[m].chan(x, y, c) == plain.frames@[m].chan(
                x,
                y,
                c,
            ),
        !(6 <= x < s.originals@[m].width - 6 && 6 <= y < s.originals@[m].height - 6)
            ==> forall|c: int| 0 <= c < 3 ==> #[trigger] flashed.frames@[m].chan(x, y, c) == 255,
{
    assert forall|c: int| 0 <= c < 4 implies #[trigger] plain.frames@[m].chan(x, y, c) == s.shown(
        m,
        cols,
        rows,
        x,
        y,
        c,
    ) by {
        assert(plain.shown(m, cols, rows, x, y, c) == s.shown(m, cols, rows, x, y, c));
    }
    assert forall|c: int| 0 <= c < 3 && !(6 <= x < s.originals@[m].width - 6 && 6 <= y
        < s.originals@[m].height - 6) implies #[trigger] flashed.frames@[m].chan(x, y, c) == 255 by {
        assert(c == 0 || c == 1 || c == 2);
    }
    assert(plain.frames@[m].chan(x, y, 3) == s.shown(m, cols, rows, x, y, 3));
    assert(flashed.frames@[m].chan(x, y, 3) == s.shown(m, cols, rows, x, y, 3));
}

/// Monitor `m` is the first whose rectangle holds `p`.
pub open spec fn first_holding(monitors: Seq<MonitorInfo>, p: Point, m: int) -> bool {
    &&& 0 <= m < monitors.len()
    &&& holds_point(monitors[m].rect, p)
    &&& forall|k: int| 0 <= k < m ==> !holds_point(#[trigger] monitors[k].rect, p)
}

/// `p` is one of the rectangle's pixels.
pub open spec fn holds_point(r: Rect, p: Point) -> bool {
    0 <= p.x - r.x < r.width && 0 <= p.y - r.y < r.height
}

/// Monitor `m` is the one in focus: the one the cursor is on (an unknown cursor
/// counts as the origin), the first of all when it is on none.
pub open spec fn in_focus(monitors: Seq<MonitorInfo>, cursor: Option<Point>, m: int) -> bool {
    let p = match cursor {
        Some(p) => p,
        None => Point { x: 0, y: 0 },
    };
    first_holding(monitors, p, m) || (m == 0 && forall|k: int|
        0 <= k < monitors.len() ==> !holds_point(#[trigger] monitors[k].rect, p))
}

proof fn lemma_first_holding(monitors: Seq<MonitorInfo>, p: Point, m: int)
    requires
        monitors.len() <= usize::MAX,
        first_holding(monitors, p, m),
    ensures
        crate::overlay::composite::monitor_at(
            p,
            crate::overlay::controller::rects_of(monitors),
        ) == Some(m as usize),
{
    let rects = crate::overlay::controller::rects_of(monitors);
    assert forall|k: int| 0 <= k < m implies !(#[trigger] rects[k]).covers(
        p.x as int,
        p.y as int,
    ) by {
        assert(!holds_point(monitors[k].rect, p));
    }
    lemma_monitor_at(p, rects, m);
}

proof fn lemma_none_holding(monitors: Seq<MonitorInfo>, p: Point)
    requires
        monitors.len() <= usize::MAX,
        forall|k: int| 0 <= k < monitors.len() ==> !holds_point(#[trigger] monitors[k].rect, p),
    ensures
        crate::overlay::composite::monitor_at(
            p,
            crate::overlay::controller::rects_of(monitors),
        ) is None,
{
    let rects = crate::overlay::controller::rects_of(monitors);
    assert forall|k: int| 0 <= k < rects.len() implies !(#[trigger] rects[k]).covers(
        p.x as int,
        p.y as int,
    ) by {
        assert(!holds_point(monitors[k].rect, p));
    }
    lemma_monitor_at(p, rects, rects.len() as int);
}

/// The session holds the images and the monitors of a capture, each in its
/// place.
pub open spec fn holds_capture(s: FreezeState, captured: Seq<(MonitorInfo, DibBuffer)>) -> bool {
    &&& s.originals@.len() == captured.len()
    &&& s.monitors@.len() == captured.len()
    &&& forall|i: int|
        0 <= i < captured.len() ==> #[trigger] s.originals@[i] == captured[i].1 && s.monitors@[i]
            == captured[i].0
}

/// A freeze keeps every captured image and monitor as it came, starts outside
/// capture mode under the settings given, and asks for every frame once.
pub proof fn lemma_freeze_holds_the_capture(
    before: OverlayController,
    captured: Seq<(MonitorInfo, DibBuffer)>,
    settings: AppSettings,
    cursor: Option<Point>,
    after: OverlayController,
    r: Redraw,
)
    requires
        before.session is None,
        OverlayController::froze(before, captured, settings, cursor, after, r),
    ensures
        after.session matches Some(s) && holds_capture(s, captured) && s.base is None && s.settings
            == settings,
        after.active == ModeKind::Spotlight,
        r.flashes == 1,
        r.repaint@.len() == captured.len(),
        forall|m: int| 0 <= m < captured.len() ==> #[trigger] r.repaint@[m] == (
            m as usize,
            None::<Rect>,
        ),
{
}

/// What the session was frozen from stays through every key and event but
/// capture: switching, adding and toggling layers, resetting the view, and
/// composing frames.
#[verifier::rlimit(60)]
pub proof fn lemma_layers_keep_the_capture(
    before: OverlayController,
    kind: ModeKind,
    cursor: Option<Point>,
    cols: Seq<i32>,
    rows: Seq<i32>,
    after: OverlayController,
    r: Redraw,
    captured: Seq<(MonitorInfo, DibBuffer)>,
    m: int,
)
    requires
        before.wf(),
        before.session matches Some(s) && s.base is None && holds_capture(s, captured),
        ({
            ||| OverlayController::froze(before, captured, before.session->0.settings, cursor, after, r)
            ||| kind != ModeKind::Snip && OverlayController::mode_set(
                before,
                kind,
                cursor,
                cols,
                rows,
                after,
                r,
            )
            ||| OverlayController::mode_added(before, kind, cursor, after, r)
            ||| OverlayController::mode_toggled(before, kind, cursor, after, r)
            ||| OverlayController::view_reset(before, after, r)
            ||| after.session is Some && before.session->0.composed_as(
                m,
                cols,
                rows,
                after.session->0,
            )
            ||| after.session is Some && before.session->0.flashed_as(
                m,
                cols,
                rows,
                after.session->0,
            )
        }),
    ensures
        after.session matches Some(t) && t.base is None && holds_capture(t, captured) && t.settings
            == before.session->0.settings,
{
}

/// No part of the session is selected with an area: a copy takes a whole
/// monitor.
pub open spec fn nothing_selected(s: FreezeState) -> bool {
    s.modes.snip matches Some(n) ==> n.selection matches Some(sel) ==> sel.a.x == sel.b.x || sel.a.y
        == sel.b.y
}

/// Without a selection, a copy gives the image the focused monitor was frozen
/// with, byte for byte, whatever veil, circle and magnification are shown; the
/// session is over then.
#[verifier::rlimit(60)]
pub proof fn lemma_copy_gives_the_frozen_image(
    last: OverlayController,
    captured: Seq<(MonitorInfo, DibBuffer)>,
    cursor: Option<Point>,
    cols: Seq<i32>,
    rows: Seq<i32>,
    closed: OverlayController,
    r: Option<DibBuffer>,
    m: int,
)
    requires
        last.session matches Some(s) && holds_capture(s, captured) && nothing_selected(s),
        captured.len() <= usize::MAX,
        OverlayController::copied_out(last, cursor, cols, rows, closed, r),
        0 <= m < captured.len(),
        in_focus(last.session->0.monitors@, cursor, m),
    ensures
        closed.session is None,
        r matches Some(image) && image.pixels@ == captured[m].1.pixels@ && image.width
            == captured[m].1.width && image.height == captured[m].1.height,
{
    let s = last.session->0;
    let p = match cursor {
        Some(p) => p,
        None => Point { x: 0, y: 0 },
    };
    if first_holding(s.monitors@, p, m) {
        lemma_first_holding(s.monitors@, p, m);
    } else {
        lemma_none_holding(s.monitors@, p);
    }
}

/// A copy right after a freeze gives back the captured bytes of the focused
/// monitor.
pub proof fn lemma_freeze_then_copy(
    before: OverlayController,
    captured: Seq<(MonitorInfo, DibBuffer)>,
    settings: AppSettings,
    at_freeze: Option<Point>,
    frozen: OverlayController,
    shown: Redraw,
    cursor: Option<Point>,
    cols: Seq<i32>,
    rows: Seq<i32>,
    closed: OverlayController,
    r: Option<DibBuffer>,
    m: int,
)
    requires
        before.session is None,
        captured.len() <= usize::MAX,
        OverlayController::froze(before, captured, settings, at_freeze, frozen, shown),
        OverlayController::copied_out(frozen, cursor, cols, rows, closed, r),
        0 <= m < captured.len(),
        in_focus(captured.map_values(|p: (MonitorInfo, DibBuffer)| p.0), cursor, m),
    ensures
        r matches Some(image) && image.pixels@ == captured[m].1.pixels@,
{
    lemma_freeze_holds_the_capture(before, captured, settings, at_freeze, frozen, shown);
    assert(frozen.session->0.modes.snip is None);
    lemma_copy_gives_the_frozen_image(frozen, captured, cursor, cols, rows, closed, r, m);
}

/// `edge` is the first of `n` positions between two drag coordinates.
pub open spec fn first_between(edge: int, a: i32, b: i32, n: u32) -> bool {
    &&& 0 <= edge < n
    &&& in_between(edge, a, b)
    &&& edge == 0 || !in_between(edge - 1, a, b)
}

/// With a selection, a copy gives exactly the pixels between its endpoints, in
/// place: the frozen image's, or those of its magnified view. No veil, ring or
/// frame is copied.
#[verifier::rlimit(60)]
pub proof fn lemma_copy_crops_the_selection(
    last: OverlayController,
    cursor: Option<Point>,
    cols: Seq<i32>,
    rows: Seq<i32>,
    closed: OverlayController,
    r: Option<DibBuffer>,
    m: int,
    a: Point,
    b: Point,
    left: int,
    top: int,
)
    requires
        last.session matches Some(s) && s.wf() && 0 <= m < s.count() <= usize::MAX && selects(
            s,
            m,
            a,
            b,
        ) && s.monitors@[m].rect.width == s.originals@[m].width && s.monitors@[m].rect.height
            == s.originals@[m].height,
        OverlayController::copied_out(last, cursor, cols, rows, closed, r),
        first_between(left, a.x, b.x, last.session->0.originals@[m].width),
        first_between(top, a.y, b.y, last.session->0.originals@[m].height),
    ensures
        closed.session is None,
        r matches Some(image) && image.wf() && {
            let s = last.session->0;
            let o = s.originals@[m];
            &&& forall|i: int, j: int| #[trigger]
                image.has(i, j) <==> 0 <= i && 0 <= j && o.has(left + i, top + j) && in_between(
                    left + i,
                    a.x,
                    b.x,
                ) && in_between(top + j, a.y, b.y)
            &&& forall|i: int, j: int, sx: int, sy: int, c: int|
                image.has(i, j) && 0 <= c < 4 && #[trigger] based_on(
                    o,
                    magnifies(s, m),
                    cols,
                    rows,
                    left + i,
                    top + j,
                    sx,
                    sy,
                ) ==> #[trigger] image.chan(i, j, c) == o.chan(sx, sy, c)
        },
{
    let s = last.session->0;
    assert(s.originals@[m].wf());
}

/// The layer that a key turns on, and every layer that is on already, sits at
/// the live cursor: on the monitor the cursor is on, at the cursor's offset from
/// that monitor's corner.
pub open spec fn at_the_cursor(s: FreezeState, p: Point, i: int) -> bool {
    let rect = s.monitors@[i].rect;
    &&& s.modes.spotlight matches Some(c) ==> c.cursor_monitor == i && c.cursor.x == p.x - rect.x
        && c.cursor.y == p.y - rect.y && 0 <= c.cursor.x < rect.width && 0 <= c.cursor.y
        < rect.height
    &&& s.modes.zoom matches Some(z) ==> z.cursor_monitor == i && z.cursor.x == p.x - rect.x
        && z.cursor.y == p.y - rect.y && 0 <= z.cursor.x < rect.width && 0 <= z.cursor.y
        < rect.height
}

/// A freeze, a mode switch, an added layer and a toggled-on layer all put the
/// layers at the live cursor, in the coordinates of the monitor it is on.
#[verifier::rlimit(60)]
pub proof fn lemma_layers_start_at_the_cursor(
    before: OverlayController,
    captured: Seq<(MonitorInfo, DibBuffer)>,
    settings: AppSettings,
    kind: ModeKind,
    p: Point,
    cols: Seq<i32>,
    rows: Seq<i32>,
    after: OverlayController,
    r: Redraw,
    i: int,
)
    requires
        after.session matches Some(t) && first_holding(t.monitors@, p, i) && t.monitors@.len()
            <= usize::MAX && p.x - t.monitors@[i].rect.x <= i32::MAX && p.y - t.monitors@[i].rect.y
            <= i32::MAX,
        ({
            ||| before.session is None && OverlayController::froze(
                before,
                captured,
                settings,
                Some(p),
                after,
                r,
            )
            ||| before.session is Some && OverlayController::mode_set(
                before,
                kind,
                Some(p),
                cols,
                rows,
                after,
                r,
            )
            ||| before.session is Some && !before.session->0.modes.active(kind)
                && OverlayController::mode_added(before, kind, Some(p), after, r)
            ||| before.session is Some && !before.session->0.modes.active(kind)
                && OverlayController::mode_toggled(before, kind, Some(p), after, r)
        }),
    ensures
        at_the_cursor(after.session->0, p, i),
{
    lemma_first_holding(after.session->0.monitors@, p, i);
}

/// Capture mode freezes what is shown: the new frozen image of every monitor is
/// the frame that composing it at that moment gives, byte for byte.
pub proof fn lemma_capture_freezes_the_frame(
    before: OverlayController,
    cursor: Option<Point>,
    cols: Seq<i32>,
    rows: Seq<i32>,
    after: OverlayController,
    r: Redraw,
    m: int,
    view: FreezeState,
)
    requires
        before.wf(),
        after.wf(),
        before.session matches Some(s) && s.base is None && 0 <= m < s.count() && s.composed_as(
            m,
            cols,
            rows,
            view,
        ) && view.wf(),
        OverlayController::mode_set(before, ModeKind::Snip, cursor, cols, rows, after, r),
    ensures
        after.session matches Some(t) && t.originals@[m].pixels@ == view.frames@[m].pixels@,
{
    let s = before.session->0;
    let t = after.session->0;
    let u = choose|u: FreezeState| #[trigger]
        s.switched_as(ModeKind::Snip, cols, rows, u) && t == u.seeded_with(cursor);
    assert(s.originals@[m].wf());
    assert(t.originals@[m].wf());
    assert(view.originals@[m].wf());
    assert(u.base->0@[m].same_shape(u.frames@[m]));
    assert forall|x: int, y: int, c: int| t.originals@[m].has(x, y) && 0 <= c < 4 implies
        #[trigger] t.originals@[m].chan(x, y, c) == view.frames@[m].chan(x, y, c) by {
        assert(u.originals@[m].chan(x, y, c) == s.shown(m, cols, rows, x, y, c));
        assert(view.frames@[m].chan(x, y, c) == view.shown(m, cols, rows, x, y, c));
        assert(view.shown(m, cols, rows, x, y, c) == s.shown(m, cols, rows, x, y, c));
    }
    t.originals@[m].lemma_same_bytes(view.frames@[m]);
}

/// Leaving capture mode undoes entering it: the frozen images, the spotlight
/// and the zoom layer, the last-used factor and the settings are those of
/// before; only a selection is gone.
#[verifier::rlimit(60)]
pub proof fn lemma_escape_undoes_capture(
    before: OverlayController,
    cursor: Option<Point>,
    cols: Seq<i32>,
    rows: Seq<i32>,
    captured: OverlayController,
    r: Redraw,
    after: OverlayController,
    again: Redraw,
)
    requires
        before.wf(),
        before.session matches Some(s) && s.base is None,
        OverlayController::mode_set(before, ModeKind::Snip, cursor, cols, rows, captured, r),
        OverlayController::unfroze(captured, after, again),
    ensures
        after.session matches Some(t) && {
            let s = before.session->0;
            &&& t.base is None
            &&& t.originals == s.originals
            &&& t.monitors == s.monitors
            &&& t.settings == s.settings
            &&& t.modes.spotlight == s.modes.spotlight
            &&& t.modes.zoom == s.modes.zoom
            &&& t.modes.last_zoom == s.modes.last_zoom
            &&& t.modes.params == s.modes.params
            &&& t.modes.snip is None
            &&& t.modes.saved is None
        },
        again.flashes == 0,
        again.repaint@.len() == before.session->0.count(),
        forall|m: int|
            0 <= m < again.repaint@.len() ==> #[trigger] again.repaint@[m] == (
            m as usize,
            None::<Rect>,
        ),
{
    let s = before.session->0;
    let u = choose|u: FreezeState| #[trigger]
        s.switched_as(ModeKind::Snip, cols, rows, u) && captured.session->0 == u.seeded_with(cursor);
    assert(s.modes.saved is None);
}

/// In capture mode only the selection can be dragged: no circle and no
/// magnification is shown, a fresh selection is empty, and three flashes say so.
pub proof fn lemma_capture_starts_empty(
    before: OverlayController,
    cursor: Option<Point>,
    cols: Seq<i32>,
    rows: Seq<i32>,
    after: OverlayController,
    r: Redraw,
)
    requires
        before.wf(),
        before.session matches Some(s) && s.base is None,
        OverlayController::mode_set(before, ModeKind::Snip, cursor, cols, rows, after, r),
    ensures
        after.session matches Some(t) && {
            &&& t.modes.spotlight is None
            &&& t.modes.zoom is None
            &&& t.modes.snip matches Some(n) && n.selection is None && !n.dragging
            &&& t.base == Some(before.session->0.originals)
            &&& t.monitors == before.session->0.monitors
            &&& t.settings == before.session->0.settings
        },
        after.active == ModeKind::Snip,
        r.flashes == 3,
{
    let s = before.session->0;
    let u = choose|u: FreezeState| #[trigger]
        s.switched_as(ModeKind::Snip, cols, rows, u) && after.session->0 == u.seeded_with(cursor);
    assert(s.modes.saved is None);
}

/// The capture key in capture mode only clears the selection: the frozen images
/// and what leaving capture gives back stay.
pub proof fn lemma_capture_again_only_clears(
    before: OverlayController,
    cursor: Option<Point>,
    cols: Seq<i32>,
    rows: Seq<i32>,
    after: OverlayController,
    r: Redraw,
)
    requires
        before.wf(),
        before.session matches Some(s) && s.base is Some && s.modes.spotlight is None
            && s.modes.zoom is None,
        OverlayController::mode_set(before, ModeKind::Snip, cursor, cols, rows, after, r),
    ensures
        after.session matches Some(t) && {
            let s = before.session->0;
            &&& t.originals == s.originals
            &&& t.base == s.base
            &&& t.modes.saved == s.modes.saved
            &&& t.modes.last_zoom == s.modes.last_zoom
            &&& t.modes.spotlight is None
            &&& t.modes.zoom is None
            &&& t.modes.snip matches Some(n) && n.selection is None && !n.dragging
        },
{
}

/// Outside capture mode the unfreeze key ends the session; without a session it
/// does nothing. Either way nothing is left to show.
pub proof fn lemma_unfreeze_ends_the_session(
    before: OverlayController,
    after: OverlayController,
    r: Redraw,
)
    requires
        before.session matches Some(s) ==> s.base is None,
        OverlayController::unfroze(before, after, r),
    ensures
        after.session is None,
        r.repaint@.len() == 0,
        r.flashes == 0,
{
}

} // verus!
