//! Overlay orchestration: freezing and unfreezing, mode switches, event
//! routing, repaint deferral, border-flash feedback and the copy decision.
//!
//! The controller holds the frozen session as plain data. What it cannot do
//! itself (capturing, presenting, waiting, the clipboard) it hands back: every
//! operation that changes what is shown returns a [`Redraw`], and the caller
//! composes and presents the frames it names.

use crate::capture::{DibBuffer, MonitorInfo};
use crate::geometry::{Point, Rect};
use crate::overlay::composite::{
    compose_frame, composed, crop_nonempty, crop_normalized, draw_border, edge, monitor_at,
    monitor_index_at, on_frame, resample_nearest, span_end, span_start, tinted, to_local,
    virtual_to_local,
};
use crate::overlay::events::OverlayEvent;
use crate::overlay::factor::{Factor, DEFAULT_STEP_BITS};
use crate::overlay::modes::{
    no_repaints, ModeEffect, ModeKind, ModeParams, ModeStack, SnipSelection,
};
use crate::settings::model::{AppSettings, Rgb};
use vstd::math::{max, min};
use vstd::prelude::*;

verus! {

/// Border-flash on time per repetition.
pub const FLASH_ON_MS: u64 = 70;

/// Border-flash off time per repetition.
pub const FLASH_OFF_MS: u64 = 50;

/// Border-flash frame thickness in physical pixels.
pub const FLASH_THICKNESS: u32 = 6;

/// Border-flash colour.
pub open spec fn flash_color_spec() -> Rgb {
    Rgb { r: 255, g: 255, b: 255 }
}

/// Border-flash colour.
pub fn flash_color() -> (r: Rgb)
    ensures
        r == flash_color_spec(),
{
    Rgb { r: 255, g: 255, b: 255 }
}

/// One step of a border flash: what every monitor shows, and for how long.
#[derive(Clone, Copy, PartialEq, Eq, Structural, Debug)]
pub struct FlashStep {
    /// With the border, or without it.
    pub bordered: bool,
    pub hold_ms: u64,
}

/// Step `step` of `count` flashes: the border is shown, then taken away again.
pub open spec fn flash_step(count: u32, step: int) -> Option<FlashStep> {
    if step < 0 || step >= 2 * count {
        None
    } else if step % 2 == 0 {
        Some(FlashStep { bordered: true, hold_ms: FLASH_ON_MS })
    } else {
        Some(FlashStep { bordered: false, hold_ms: FLASH_OFF_MS })
    }
}

/// Step `step` of `count` flashes; `None` when they are over.
pub fn flash_border(count: u32, step: u32) -> (r: Option<FlashStep>)
    ensures
        r == flash_step(count, step as int),
{
    if step as u64 >= 2 * count as u64 {
        None
    } else if step % 2 == 0 {
        Some(FlashStep { bordered: true, hold_ms: FLASH_ON_MS })
    } else {
        Some(FlashStep { bordered: false, hold_ms: FLASH_OFF_MS })
    }
}

/// How long the first `steps` steps of `count` flashes hold the screen.
pub open spec fn flash_time(count: u32, steps: int) -> int
    decreases steps,
{
    if steps <= 0 {
        0
    } else {
        flash_time(count, steps - 1) + (match flash_step(count, steps - 1) {
            Some(s) => s.hold_ms as int,
            None => 0,
        })
    }
}

/// A repaint deferred because its surface was busy.
#[derive(Clone, Copy, PartialEq, Eq, Structural, Debug)]
pub enum PendingRepaint {
    Full,
    Region(Rect),
}

impl PendingRepaint {
    /// The dirty argument of the present it stands for.
    pub open spec fn arg(self) -> Option<Rect> {
        match self {
            PendingRepaint::Full => None,
            PendingRepaint::Region(r) => Some(r),
        }
    }

    /// The repaint of a dirty argument.
    pub open spec fn of(dirty: Option<Rect>) -> PendingRepaint {
        match dirty {
            Some(r) => PendingRepaint::Region(r),
            None => PendingRepaint::Full,
        }
    }

    /// Both repaints together.
    pub open spec fn merged(self, dirty: Option<Rect>) -> PendingRepaint {
        match (self, dirty) {
            (PendingRepaint::Region(a), Some(b)) => PendingRepaint::Region(a.union_spec(b)),
            _ => PendingRepaint::Full,
        }
    }

    /// First deferred repaint from a present's dirty argument (`None` = full).
    pub fn from_dirty(dirty: Option<Rect>) -> (r: Self)
        ensures
            r == PendingRepaint::of(dirty),
    {
        match dirty {
            Some(r) => PendingRepaint::Region(r),
            None => PendingRepaint::Full,
        }
    }

    /// Fold a new dirty argument into a deferred repaint.
    pub fn merge(self, dirty: Option<Rect>) -> (r: Self)
        ensures
            r == self.merged(dirty),
    {
        match (self, dirty) {
            (PendingRepaint::Region(a), Some(b)) => PendingRepaint::Region(a.union(&b)),
            _ => PendingRepaint::Full,
        }
    }

    /// Back to the dirty argument.
    pub fn as_present_arg(self) -> (r: Option<Rect>)
        ensures
            r == self.arg(),
    {
        match self {
            PendingRepaint::Full => None,
            PendingRepaint::Region(r) => Some(r),
        }
    }
}

/// Whether a present with this dirty argument refreshes pixel `(x, y)`.
pub open spec fn refreshes(dirty: Option<Rect>, x: int, y: int) -> bool {
    dirty matches Some(r) ==> r.covers(x, y)
}

/// A merged repaint refreshes every pixel either repaint would have, as long
/// as the union's extent fits 32 bits.
pub proof fn lemma_merge_covers(p: PendingRepaint, dirty: Option<Rect>, x: int, y: int)
    requires
        refreshes(p.arg(), x, y) || refreshes(dirty, x, y),
        (p matches PendingRepaint::Region(a) && dirty matches Some(b)) ==> {
            &&& max(p->Region_0.right_edge(), dirty->0.right_edge()) - min(
                p->Region_0.x as int,
                dirty->0.x as int,
            ) <= u32::MAX
            &&& max(p->Region_0.bottom_edge(), dirty->0.bottom_edge()) - min(
                p->Region_0.y as int,
                dirty->0.y as int,
            ) <= u32::MAX
        },
    ensures
        refreshes(p.merged(dirty).arg(), x, y),
{
    if p is Region && dirty is Some {
        let a = p->Region_0;
        let b = dirty->0;
        if a.covers(x, y) || b.covers(x, y) {
            crate::geometry::lemma_union_covers(a, b, x, y);
        }
    }
}

/// Going through a deferral and back keeps the dirty argument.
pub proof fn lemma_deferral_round_trip(dirty: Option<Rect>)
    ensures
        PendingRepaint::of(dirty).arg() == dirty,
{
}

/// The sanitized zoom settings: a step of at most 1.0 becomes 1.25, a minimum
/// below 1.0 becomes 1.0, a maximum that is not above the minimum becomes
/// twice the minimum; so does whatever is not finite.
pub open spec fn sane_zoom(step: Factor, min: Factor, max: Factor) -> (Factor, Factor, Factor) {
    let s = if step.finite() && Factor::one_spec().lt(step) {
        step
    } else {
        Factor { bits: DEFAULT_STEP_BITS }
    };
    let low = if min.finite() && !min.lt(Factor::one_spec()) {
        min
    } else {
        Factor::one_spec()
    };
    let high = if max.finite() && low.lt(max) {
        max
    } else {
        low.doubled_spec()
    };
    (s, low, high)
}

/// Clamp zoom settings so that `step > 1.0`, `min >= 1.0` and `max > min`.
/// Values already in range pass through untouched.
pub fn sanitize_zoom_params(step: Factor, min: Factor, max: Factor) -> (r: (Factor, Factor, Factor))
    ensures
        r == sane_zoom(step, min, max),
        Factor::one_spec().lt(r.0),
        !r.1.nan() && !r.1.lt(Factor::one_spec()),
        r.1.lt(r.2),
{
    let step = if step.is_finite() && Factor::one().less_than(step) {
        step
    } else {
        Factor::from_bits(DEFAULT_STEP_BITS)
    };
    let min = if min.is_finite() && !min.less_than(Factor::one()) {
        min
    } else {
        Factor::one()
    };
    let max = if max.is_finite() && min.less_than(max) {
        max
    } else {
        min.doubled()
    };
    (step, min, max)
}

/// The mode parameters of a settings object.
pub open spec fn params_of(settings: AppSettings) -> ModeParams {
    let zoom = sane_zoom(settings.zoom.step_factor, settings.zoom.min, settings.zoom.max);
    ModeParams {
        spotlight_radius: settings.spotlight.default_radius,
        radius_modifier: settings.hotkeys.spotlight_radius_modifier,
        zoom_step: zoom.0,
        zoom_min: zoom.1,
        zoom_max: zoom.2,
        zoom_modifier: settings.hotkeys.zoom_modifier,
    }
}

/// Freeze-time [`ModeParams`] from settings, the zoom values sanitized.
pub fn mode_params(settings: &AppSettings) -> (r: ModeParams)
    ensures
        r == params_of(*settings),
{
    let (zoom_step, zoom_min, zoom_max): (Factor, Factor, Factor) = sanitize_zoom_params(
        settings.zoom.step_factor,
        settings.zoom.min,
        settings.zoom.max,
    );
    ModeParams {
        spotlight_radius: settings.spotlight.default_radius,
        radius_modifier: settings.hotkeys.spotlight_radius_modifier,
        zoom_step,
        zoom_min,
        zoom_max,
        zoom_modifier: settings.hotkeys.zoom_modifier,
    }
}

/// What a copy puts on the clipboard.
#[derive(Clone, Copy, PartialEq, Eq, Structural, Debug)]
pub enum CopyPlan {
    /// Crop the selection from that monitor's base image.
    Snip { monitor: usize, a: Point, b: Point },
    /// The focused monitor's whole frame.
    FullMonitor { monitor: usize },
}

/// `true` when the normalized drag rectangle, clipped to the monitor's local
/// bounds, has positive area.
pub fn snip_rect_is_copyable(a: Point, b: Point, monitor: Rect) -> (r: bool)
    ensures
        r == crop_nonempty(a, b, monitor.width, monitor.height),
{
    let x0: i64 = crate::geometry::max_i64(crate::geometry::min_i64(a.x as i64, b.x as i64), 0);
    let y0: i64 = crate::geometry::max_i64(crate::geometry::min_i64(a.y as i64, b.y as i64), 0);
    let x1: i64 = crate::geometry::min_i64(
        crate::geometry::max_i64(a.x as i64, b.x as i64),
        monitor.width as i64,
    );
    let y1: i64 = crate::geometry::min_i64(
        crate::geometry::max_i64(a.y as i64, b.y as i64),
        monitor.height as i64,
    );
    x1 > x0 && y1 > y0
}

/// The first monitor containing the cursor, or the first of all.
pub open spec fn focus_of(cursor: Point, monitors: Seq<Rect>) -> usize {
    match monitor_at(cursor, monitors) {
        Some(i) => i,
        None => 0,
    }
}

/// Index of the monitor containing `cursor_virtual`, 0 when it is outside every
/// monitor.
pub fn focus_monitor_index(cursor_virtual: Point, monitors: &[Rect]) -> (r: usize)
    ensures
        r == focus_of(cursor_virtual, monitors@),
{
    match monitor_index_at(cursor_virtual, monitors) {
        Some(i) => i,
        None => 0,
    }
}

/// The copy decision: a selection with a non-empty clipped rectangle is
/// cropped; otherwise the focused monitor is copied whole.
pub open spec fn copy_decision(
    selection: Option<SnipSelection>,
    cursor: Point,
    monitors: Seq<Rect>,
) -> Option<CopyPlan> {
    if monitors.len() == 0 {
        None
    } else {
        match selection {
            Some(sel) if sel.monitor < monitors.len() && crop_nonempty(
                sel.a,
                sel.b,
                monitors[sel.monitor as int].width,
                monitors[sel.monitor as int].height,
            ) => Some(CopyPlan::Snip { monitor: sel.monitor, a: sel.a, b: sel.b }),
            _ => Some(CopyPlan::FullMonitor { monitor: focus_of(cursor, monitors) }),
        }
    }
}

/// Decide what a copy takes. `None` only without monitors.
pub fn decide_copy_plan(
    selection: Option<SnipSelection>,
    cursor_virtual: Point,
    monitors: &[Rect],
) -> (r: Option<CopyPlan>)
    ensures
        r == copy_decision(selection, cursor_virtual, monitors@),
{
    if monitors.is_empty() {
        return None;
    }
    match selection {
        Some(sel) => {
            if sel.monitor < monitors.len() && snip_rect_is_copyable(
                sel.a,
                sel.b,
                monitors[sel.monitor],
            ) {
                return Some(CopyPlan::Snip { monitor: sel.monitor, a: sel.a, b: sel.b });
            }
        },
        None => {},
    }
    Some(CopyPlan::FullMonitor { monitor: focus_monitor_index(cursor_virtual, monitors) })
}

/// A planned monitor always exists.
pub proof fn lemma_plan_names_a_monitor(
    selection: Option<SnipSelection>,
    cursor: Point,
    monitors: Seq<Rect>,
)
    requires
        monitors.len() <= usize::MAX,
    ensures
        match copy_decision(selection, cursor, monitors) {
            Some(CopyPlan::Snip { monitor, .. }) => monitor < monitors.len(),
            Some(CopyPlan::FullMonitor { monitor }) => monitor < monitors.len(),
            None => monitors.len() == 0,
        },
{
    lemma_monitor_at_range(cursor, monitors);
}

/// A found monitor exists and contains the point.
pub proof fn lemma_monitor_at_range(cursor: Point, monitors: Seq<Rect>)
    requires
        monitors.len() <= usize::MAX,
    ensures
        monitor_at(cursor, monitors) matches Some(i) ==> i < monitors.len() && monitors[i as int].covers(
            cursor.x as int,
            cursor.y as int,
        ),
    decreases monitors.len(),
{
    if monitors.len() > 0 {
        lemma_monitor_at_range(cursor, monitors.drop_last());
    }
}

/// Crop the rectangle between `a` and `b` from the monitor's base image: the
/// magnified view when `zoom` is given, otherwise the original. `None` for an
/// empty or out-of-bounds rectangle.
pub fn copy_crop(
    original: &DibBuffer,
    zoom: Option<(Factor, Point)>,
    cols: &[i32],
    rows: &[i32],
    a: Point,
    b: Point,
) -> (r: Option<DibBuffer>)
    requires
        original.wf(),
        zoom is Some ==> cols@.len() == original.width && rows@.len() == original.height,
    ensures
        r is Some <==> crop_nonempty(a, b, original.width, original.height),
        r matches Some(out) ==> {
            &&& out.wf()
            &&& out.width == span_end(a.x, b.x, original.width) - span_start(a.x, b.x)
            &&& out.height == span_end(a.y, b.y, original.height) - span_start(a.y, b.y)
            &&& forall|x: int, y: int, c: int|
                #![trigger out.chan(x, y, c)]
                out.has(x, y) && 0 <= c < 4 ==> ({
                    let sx = span_start(a.x, b.x) + x;
                    let sy = span_start(a.y, b.y) + y;
                    out.chan(x, y, c) == if zoom is Some {
                        original.chan(
                            edge(cols@[sx] as int, original.width),
                            edge(rows@[sy] as int, original.height),
                            c,
                        )
                    } else {
                        original.chan(sx, sy, c)
                    }
                })
        },
{
    match zoom {
        Some(_) => {
            proof {
                assert(original.pixels.len() == original.pixels@.len());
            }
            let base = resample_nearest(original, cols, rows);
            crop_normalized(&base, a, b)
        },
        None => crop_normalized(original, a, b),
    }
}

/// What the caller shows next: each named monitor's frame composed and
/// presented in order (with the dirty region, `None` = whole frame), then the
/// border flashed `flashes` times.
#[derive(Clone, Debug, PartialEq, Eq)]
pub struct Redraw {
    pub repaint: Vec<(usize, Option<Rect>)>,
    pub flashes: u32,
}

impl Redraw {
    pub fn none() -> (r: Self)
        ensures
            r.repaint@ == no_repaints(),
            r.flashes == 0,
    {
        Self { repaint: Vec::new(), flashes: 0 }
    }

    /// Every one of `n` monitors in full, then `flashes` flashes.
    pub fn all(n: usize, flashes: u32) -> (r: Self)
        ensures
            r.repaint@ == full_repaints(n as nat),
            r.flashes == flashes,
    {
        let mut repaint: Vec<(usize, Option<Rect>)> = Vec::new();
        let mut m: usize = 0;
        while m < n
            invariant
                m <= n,
                repaint@ == full_repaints(m as nat),
            decreases n - m,
        {
            repaint.push((m, None));
            m += 1;
            proof {
                assert(repaint@ =~= full_repaints(m as nat));
            }
        }
        Self { repaint, flashes }
    }
}

/// A full repaint of every one of `n` monitors, in order.
pub open spec fn full_repaints(n: nat) -> Seq<(usize, Option<Rect>)> {
    Seq::new(n, |m: int| (m as usize, None))
}

/// The monitors' rectangles.
pub open spec fn rects_of(monitors: Seq<MonitorInfo>) -> Seq<Rect> {
    Seq::new(monitors.len(), |i: int| monitors[i].rect)
}

fn collect_rects(monitors: &Vec<MonitorInfo>) -> (r: Vec<Rect>)
    ensures
        r@ == rects_of(monitors@),
{
    let mut r: Vec<Rect> = Vec::new();
    let mut i: usize = 0;
    while i < monitors.len()
        invariant
            i <= monitors@.len(),
            r@ == rects_of(monitors@.take(i as int)),
        decreases monitors@.len() - i,
    {
        r.push(monitors[i].rect);
        i += 1;
        proof {
            assert(r@ =~= rects_of(monitors@.take(i as int)));
        }
    }
    proof {
        assert(monitors@.take(i as int) =~= monitors@);
    }
    r
}

/// The layers with the live cursor fed to them: unchanged when the cursor is
/// unknown or outside every monitor.
pub open spec fn seeded(modes: ModeStack, cursor: Option<Point>, rects: Seq<Rect>) -> ModeStack {
    match cursor {
        Some(p) => match monitor_at(p, rects) {
            Some(i) => modes.moved(i, to_local(p, rects[i as int])),
            None => modes,
        },
        None => modes,
    }
}

/// Everything that exists only while the screen is frozen. The vectors are
/// parallel; index = monitor index.
pub struct FreezeState {
    /// The frozen images everything is composed from.
    pub originals: Vec<DibBuffer>,
    /// The composed frames.
    pub frames: Vec<DibBuffer>,
    pub monitors: Vec<MonitorInfo>,
    /// Repaints deferred because the surface was busy.
    pub pending_repaint: Vec<Option<PendingRepaint>>,
    pub modes: ModeStack,
    /// Freeze-time settings.
    pub settings: AppSettings,
    /// The images capture mode was entered from, while it is active.
    pub base: Option<Vec<DibBuffer>>,
}

/// Well-formed buffers of pairwise equal shapes.
pub open spec fn matching(a: Seq<DibBuffer>, b: Seq<DibBuffer>) -> bool {
    &&& a.len() == b.len()
    &&& forall|i: int|
        0 <= i < a.len() ==> (#[trigger] a[i]).wf() && b[i].wf() && a[i].same_shape(b[i])
}

/// The same bytes and shapes.
pub open spec fn same_images(a: Seq<DibBuffer>, b: Seq<DibBuffer>) -> bool {
    &&& a.len() == b.len()
    &&& forall|i: int|
        0 <= i < a.len() ==> (#[trigger] a[i]).same_shape(b[i]) && a[i].pixels@ == b[i].pixels@
}

impl FreezeState {
    pub open spec fn wf(self) -> bool {
        &&& matching(self.originals@, self.frames@)
        &&& self.monitors@.len() == self.originals@.len()
        &&& self.pending_repaint@.len() == self.originals@.len()
        &&& self.modes.wf()
        &&& (self.base is Some <==> self.modes.saved is Some)
        &&& (self.base matches Some(b) ==> matching(b@, self.frames@))
    }

    /// Number of monitors.
    pub open spec fn count(self) -> nat {
        self.originals@.len()
    }

    /// Veil opacity: none without an active layer.
    pub open spec fn veil(self) -> u8 {
        if self.modes.any_layer() {
            self.settings.overlay.dim_opacity
        } else {
            0
        }
    }

    /// Channel `c` of monitor `m`'s composed frame at `(x, y)`.
    pub open spec fn shown(
        self,
        m: int,
        cols: Seq<i32>,
        rows: Seq<i32>,
        x: int,
        y: int,
        c: int,
    ) -> u8 {
        composed(
            &self.originals@[m],
            self.modes.rendered(m as usize),
            cols,
            rows,
            self.veil(),
            self.settings.overlay.color,
            x,
            y,
            c,
        )
    }

    /// Whether `cols` and `rows` map monitor `m`'s frame wherever the zoom
    /// layer needs them.
    pub open spec fn maps_fit(self, m: int, cols: Seq<i32>, rows: Seq<i32>) -> bool {
        self.modes.rendered(m as usize).zoom is Some ==> cols.len() == self.originals@[m].width
            && rows.len() == self.originals@[m].height
    }

    /// Whether `cols` and `rows` map the frame of the monitor that is magnified,
    /// if one is; one monitor at most is.
    pub open spec fn maps_ready(self, cols: Seq<i32>, rows: Seq<i32>) -> bool {
        forall|m: int| 0 <= m < self.count() ==> #[trigger] self.maps_fit(m, cols, rows)
    }

    /// The same session but for its frames.
    pub open spec fn same_but_frames(self, other: FreezeState) -> bool {
        self == (FreezeState { frames: self.frames, ..other })
    }

    /// Whether monitor `m`'s frame is what the layers show, the magnified view
    /// mapped by `cols` and `rows`.
    pub open spec fn shows_view(self, m: int, cols: Seq<i32>, rows: Seq<i32>) -> bool {
        forall|x: int, y: int, c: int|
            self.originals@[m].has(x, y) && 0 <= c < 4 ==> #[trigger] self.frames@[m].chan(x, y, c)
                == self.shown(m, cols, rows, x, y, c)
    }

    /// Whether `after` is this session with monitor `m`'s frame composed anew.
    pub open spec fn composed_as(
        self,
        m: int,
        cols: Seq<i32>,
        rows: Seq<i32>,
        after: FreezeState,
    ) -> bool {
        &&& after.same_but_frames(self)
        &&& after.frames@.len() == self.frames@.len()
        &&& forall|i: int|
            0 <= i < self.frames@.len() && i != m ==> #[trigger] after.frames@[i] == self.frames@[i]
        &&& after.shows_view(m, cols, rows)
    }

    /// Whether `after` is this session with monitor `m`'s frame composed anew
    /// and the flash border drawn on it.
    pub open spec fn flashed_as(
        self,
        m: int,
        cols: Seq<i32>,
        rows: Seq<i32>,
        after: FreezeState,
    ) -> bool {
        &&& after.same_but_frames(self)
        &&& after.frames@.len() == self.frames@.len()
        &&& forall|i: int|
            0 <= i < self.frames@.len() && i != m ==> #[trigger] after.frames@[i] == self.frames@[i]
        &&& forall|x: int, y: int, c: int|
            self.originals@[m].has(x, y) && 0 <= c < 4 ==> #[trigger] after.frames@[m].chan(x, y, c)
                == (if on_frame(
                x,
                y,
                self.originals@[m].width,
                self.originals@[m].height,
                FLASH_THICKNESS,
            ) {
                tinted(self.shown(m, cols, rows, x, y, c), flash_color_spec(), 255, c)
            } else {
                self.shown(m, cols, rows, x, y, c)
            })
    }

    /// Compose monitor `m`'s frame from the active layers.
    fn compose(&mut self, m: usize, cols: &[i32], rows: &[i32])
        requires
            old(self).wf(),
            m < old(self).count(),
            old(self).maps_fit(m as int, cols@, rows@),
        ensures
            final(self).wf(),
            old(self).composed_as(m as int, cols@, rows@, *final(self)),
    {
        let state = self.modes.render_state(m);
        let dim: u8 = if self.modes.any_active() {
            self.settings.overlay.dim_opacity
        } else {
            0
        };
        let color: Rgb = self.settings.overlay.color;
        proof {
            assert(self.originals@[m as int].wf());
        }
        compose_frame(&self.originals[m], &mut self.frames[m], &state, cols, rows, dim, color);
        proof {
            assert forall|i: int| 0 <= i < self.originals@.len() implies (
            #[trigger] self.originals@[i]).wf() && self.frames@[i].wf()
                && self.originals@[i].same_shape(self.frames@[i]) by {
                assert(old(self).originals@[i].wf());
            }
            if self.base is Some {
                let b = self.base->0@;
                assert forall|i: int| 0 <= i < b.len() implies (#[trigger] b[i]).wf()
                    && self.frames@[i].wf() && b[i].same_shape(self.frames@[i]) by {
                    assert(old(self).base->0@[i].wf());
                    assert(old(self).originals@[i].wf());
                }
            }
        }
    }
}

impl FreezeState {
    /// Draw the flash border on monitor `m`'s frame.
    fn outline(&mut self, m: usize)
        requires
            old(self).wf(),
            m < old(self).count(),
        ensures
            final(self).wf(),
            final(self).same_but_frames(*old(self)),
            final(self).frames@.len() == old(self).frames@.len(),
            forall|i: int|
                0 <= i < old(self).frames@.len() && i != m ==> final(self).frames@[i] == old(self).frames@[i],
            forall|x: int, y: int, c: int|
                old(self).originals@[m as int].has(x, y) && 0 <= c < 4
                    ==> #[trigger] final(self).frames@[m as int].chan(x, y, c) == (if on_frame(
                    x,
                    y,
                    old(self).originals@[m as int].width,
                    old(self).originals@[m as int].height,
                    FLASH_THICKNESS,
                ) {
                    tinted(old(self).frames@[m as int].chan(x, y, c), flash_color_spec(), 255, c)
                } else {
                    old(self).frames@[m as int].chan(x, y, c)
                }),
    {
        proof {
            assert(self.originals@[m as int].wf());
        }
        draw_border(&mut self.frames[m], flash_color(), FLASH_THICKNESS);
        proof {
            assert forall|i: int| 0 <= i < self.originals@.len() implies (
            #[trigger] self.originals@[i]).wf() && self.frames@[i].wf()
                && self.originals@[i].same_shape(self.frames@[i]) by {
                assert(old(self).originals@[i].wf());
            }
            if self.base is Some {
                let b = self.base->0@;
                assert forall|i: int| 0 <= i < b.len() implies (#[trigger] b[i]).wf()
                    && self.frames@[i].wf() && b[i].same_shape(self.frames@[i]) by {}
            }
        }
    }
}

impl FreezeState {
    /// Compose every monitor's frame from the active layers.
    fn compose_all(&mut self, cols: &[i32], rows: &[i32])
        requires
            old(self).wf(),
            old(self).maps_ready(cols@, rows@),
        ensures
            final(self).wf(),
            final(self).same_but_frames(*old(self)),
            forall|m: int|
                0 <= m < old(self).count() ==> #[trigger] final(self).shows_view(m, cols@, rows@),
    {
        let n: usize = self.originals.len();
        let mut m: usize = 0;
        while m < n
            invariant
                m <= n,
                n == old(self).count(),
                self.wf(),
                self.same_but_frames(*old(self)),
                old(self).maps_ready(cols@, rows@),
                forall|k: int| 0 <= k < m ==> #[trigger] self.shows_view(k, cols@, rows@),
            decreases n - m,
        {
            let ghost prior = *self;
            proof {
                assert(old(self).maps_fit(m as int, cols@, rows@));
            }
            self.compose(m, cols, rows);
            proof {
                assert forall|k: int| 0 <= k < m + 1 implies #[trigger] self.shows_view(
                    k,
                    cols@,
                    rows@,
                ) by {
                    if k < m {
                        assert(prior.shows_view(k, cols@, rows@));
                        assert(self.frames@[k] == prior.frames@[k]);
                    }
                }
            }
            m += 1;
        }
    }
}

fn duplicate_all(buffers: &Vec<DibBuffer>) -> (r: Vec<DibBuffer>)
    ensures
        same_images(r@, buffers@),
{
    let mut r: Vec<DibBuffer> = Vec::new();
    let mut i: usize = 0;
    while i < buffers.len()
        invariant
            i <= buffers@.len(),
            r@.len() == i,
            forall|k: int|
                0 <= k < i ==> (#[trigger] r@[k]).same_shape(buffers@[k]) && r@[k].pixels@
                    == buffers@[k].pixels@,
        decreases buffers@.len() - i,
    {
        r.push(buffers[i].duplicate());
        i += 1;
    }
    r
}

/// Present steps owed for deferred repaints: for each monitor in order that
/// has one and whose surface is ready, its dirty argument.
pub open spec fn ready_presents(
    pending: Seq<Option<PendingRepaint>>,
    ready: Seq<bool>,
    n: int,
) -> Seq<(usize, Option<Rect>)>
    decreases n,
{
    if n <= 0 {
        Seq::empty()
    } else {
        let before = ready_presents(pending, ready, n - 1);
        match pending[n - 1] {
            Some(p) if ready[n - 1] => before.push(((n - 1) as usize, p.arg())),
            _ => before,
        }
    }
}

/// Owns the frozen session.
pub struct OverlayController {
    /// `Some` while frozen.
    pub session: Option<FreezeState>,
    /// Last activated mode kind; Spotlight after every freeze.
    pub active: ModeKind,
}

impl OverlayController {
    pub open spec fn wf(self) -> bool {
        self.session matches Some(s) ==> s.wf()
    }

    /// What [`OverlayController::freeze`] makes of the controller, and what it shows.
    pub open spec fn froze(
        before: OverlayController,
        captured: Seq<(MonitorInfo, DibBuffer)>,
        settings: AppSettings,
        cursor: Option<Point>,
        after: OverlayController,
        r: Redraw,
    ) -> bool {
        if before.session is Some {
            &&& after == before
            &&& r.repaint@ == no_repaints()
            &&& r.flashes == 0
        } else {
            &&& after.active == ModeKind::Spotlight
            &&& r.repaint@ == full_repaints(captured.len())
            &&& r.flashes == OverlayController::flashes(ModeKind::Spotlight)
            &&& after.session matches Some(s) && {
                &&& s.originals@ == captured.map_values(|p: (MonitorInfo, DibBuffer)| p.1)
                &&& s.monitors@ == captured.map_values(|p: (MonitorInfo, DibBuffer)| p.0)
                &&& forall|i: int|
                    0 <= i < s.pending_repaint@.len() ==> #[trigger] s.pending_repaint@[i] is None
                &&& s.modes == seeded(
                    ModeStack::initial(params_of(settings)),
                    cursor,
                    rects_of(s.monitors@),
                )
                &&& s.settings == settings
                &&& s.base is None
                &&& forall|m: int|
                    0 <= m < s.count() ==> #[trigger] s.shows_view(m, Seq::empty(), Seq::empty())
            }
        }
    }

    /// What [`OverlayController::unfreeze`] makes of the controller, and what it
    /// shows.
    pub open spec fn unfroze(
        before: OverlayController,
        after: OverlayController,
        r: Redraw,
    ) -> bool {
        &&& after.active == before.active
        &&& r.flashes == 0
        &&& match before.session {
            Some(s) => match s.base {
                Some(b) => {
                    &&& after.session == Some(
                        FreezeState {
                            originals: b,
                            base: None,
                            modes: s.modes.released(),
                            ..s
                        },
                    )
                    &&& r.repaint@ == full_repaints(s.count())
                },
                None => after.session is None && r.repaint@ == no_repaints(),
            },
            None => after.session is None && r.repaint@ == no_repaints(),
        }
    }

    /// What [`OverlayController::set_mode`] makes of the controller, and what it
    /// shows.
    pub open spec fn mode_set(
        before: OverlayController,
        kind: ModeKind,
        cursor: Option<Point>,
        cols: Seq<i32>,
        rows: Seq<i32>,
        after: OverlayController,
        r: Redraw,
    ) -> bool {
        match (before.session, after.session) {
            (Some(s), Some(t)) => {
                &&& exists|u: FreezeState| #[trigger]
                    s.switched_as(kind, cols, rows, u) && t == u.seeded_with(cursor)
                &&& after.active == kind
                &&& r.repaint@ == full_repaints(s.count())
                &&& r.flashes == OverlayController::flashes(kind)
            },
            (None, None) => {
                &&& after.active == before.active
                &&& r.repaint@ == no_repaints()
                &&& r.flashes == 0
            },
            _ => false,
        }
    }

    /// What [`OverlayController::add_mode`] makes of the controller, and what it
    /// shows.
    pub open spec fn mode_added(
        before: OverlayController,
        kind: ModeKind,
        cursor: Option<Point>,
        after: OverlayController,
        r: Redraw,
    ) -> bool {
        match before.session {
            Some(s) if !s.modes.active(kind) => {
                &&& after.session == Some(
                    (FreezeState { modes: s.modes.activated(kind), ..s }).seeded_with(cursor),
                )
                &&& after.active == kind
                &&& r.repaint@ == full_repaints(s.count())
                &&& r.flashes == OverlayController::flashes(kind)
            },
            _ => {
                &&& after == before
                &&& r.repaint@ == no_repaints()
                &&& r.flashes == 0
            },
        }
    }

    /// What [`OverlayController::toggle_mode`] makes of the controller, and what
    /// it shows.
    pub open spec fn mode_toggled(
        before: OverlayController,
        kind: ModeKind,
        cursor: Option<Point>,
        after: OverlayController,
        r: Redraw,
    ) -> bool {
        match before.session {
            Some(s) => {
                &&& r.repaint@ == full_repaints(s.count())
                &&& if s.modes.active(kind) {
                    &&& after.session == Some(
                        FreezeState { modes: s.modes.deactivated(kind), ..s },
                    )
                    &&& after.active == before.active
                    &&& r.flashes == 0
                } else {
                    &&& after.session == Some(
                        (FreezeState { modes: s.modes.activated(kind), ..s }).seeded_with(
                            cursor,
                        ),
                    )
                    &&& after.active == kind
                    &&& r.flashes == OverlayController::flashes(kind)
                }
            },
            None => {
                &&& after == before
                &&& r.repaint@ == no_repaints()
                &&& r.flashes == 0
            },
        }
    }

    /// What [`OverlayController::reset_view`] makes of the controller, and what it
    /// shows.
    pub open spec fn view_reset(
        before: OverlayController,
        after: OverlayController,
        r: Redraw,
    ) -> bool {
        &&& after.active == before.active
        &&& r.flashes == 0
        &&& match before.session {
            Some(s) => {
                &&& after.session == Some(
                    FreezeState {
                        modes: ModeStack {
                            zoom: match s.modes.zoom {
                                Some(z) => Some(
                                    crate::overlay::modes::ZoomMode {
                                        zoom: Factor::one_spec(),
                                        ..z
                                    },
                                ),
                                None => None,
                            },
                            ..s.modes
                        },
                        ..s
                    },
                )
                &&& r.repaint@ == (match s.modes.zoom {
                    Some(z) => seq![(z.cursor_monitor, None::<Rect>)],
                    None => no_repaints(),
                })
            },
            None => after.session is None && r.repaint@ == no_repaints(),
        }
    }

    pub fn new() -> (r: Self)
        ensures
            r.wf(),
            r.session is None,
            r.active == ModeKind::Spotlight,
    {
        Self { session: None, active: ModeKind::Spotlight }
    }

    pub fn is_frozen(&self) -> (r: bool)
        ensures
            r == (self.session is Some),
    {
        self.session.is_some()
    }

    /// Number of monitors while frozen; 0 otherwise.
    pub fn monitor_count(&self) -> (r: usize)
        requires
            self.wf(),
        ensures
            r == (match self.session {
                Some(s) => s.count(),
                None => 0,
            }),
    {
        match &self.session {
            Some(s) => s.originals.len(),
            None => 0,
        }
    }

    /// Border-flash repetitions of a mode's activation.
    pub open spec fn flashes(kind: ModeKind) -> u32 {
        match kind {
            ModeKind::Spotlight => 1,
            ModeKind::Zoom => 2,
            ModeKind::Snip => 3,
        }
    }

    /// Border-flash repetitions of a mode's activation: Spotlight 1, Zoom 2,
    /// Snip 3.
    pub fn flash_count(kind: ModeKind) -> (r: u32)
        ensures
            r == OverlayController::flashes(kind),
    {
        match kind {
            ModeKind::Spotlight => 1,
            ModeKind::Zoom => 2,
            ModeKind::Snip => 3,
        }
    }

    /// The mode activated last.
    pub fn active_mode(&self) -> (r: ModeKind)
        ensures
            r == self.active,
    {
        self.active
    }

    /// Begin a session from one capture of every monitor: Spotlight mode, the
    /// live cursor fed to it, every frame composed and to be shown and the border
    /// flashed once. Nothing happens when already frozen. Settings are taken as they
    /// are now and stay for the session.
    pub fn freeze(
        &mut self,
        captured: Vec<(MonitorInfo, DibBuffer)>,
        settings: &AppSettings,
        cursor: Option<Point>,
    ) -> (r: Redraw)
        requires
            old(self).wf(),
            forall|i: int| 0 <= i < captured@.len() ==> (#[trigger] captured@[i]).1.wf(),
        ensures
            final(self).wf(),
            OverlayController::froze(*old(self), captured@, *settings, cursor, *final(self), r),
    {
        if self.session.is_some() {
            return Redraw::none();
        }
        let ghost input = captured@;
        let mut captured = captured;
        let mut originals: Vec<DibBuffer> = Vec::new();
        let mut monitors: Vec<MonitorInfo> = Vec::new();
        let mut frames: Vec<DibBuffer> = Vec::new();
        let mut pending_repaint: Vec<Option<PendingRepaint>> = Vec::new();
        while captured.len() > 0
            invariant
                captured@.len() <= input.len(),
                captured@ == input.skip(input.len() - captured@.len()),
                forall|i: int| 0 <= i < input.len() ==> (#[trigger] input[i]).1.wf(),
                originals@ == input.take(input.len() - captured@.len()).map_values(
                    |p: (MonitorInfo, DibBuffer)| p.1,
                ),
                monitors@ == input.take(input.len() - captured@.len()).map_values(
                    |p: (MonitorInfo, DibBuffer)| p.0,
                ),
                pending_repaint@.len() == originals@.len(),
                forall|i: int|
                    0 <= i < pending_repaint@.len() ==> #[trigger] pending_repaint@[i] is None,
                matching(originals@, frames@),
            decreases captured@.len(),
        {
            let ghost done = input.len() - captured@.len();
            let ghost was = originals@;
            proof {
                assert(captured@[0] == input[done]);
            }
            let (monitor, original): (MonitorInfo, DibBuffer) = captured.remove(0);
            proof {
                assert(original.wf());
                assert(original.pixels.len() == original.pixels@.len());
            }
            let frame = DibBuffer::new(original.width, original.height);
            originals.push(original);
            monitors.push(monitor);
            frames.push(frame);
            pending_repaint.push(None);
            proof {
                assert(captured@ =~= input.skip(done + 1));
                assert(originals@ =~= input.take(done + 1).map_values(
                    |p: (MonitorInfo, DibBuffer)| p.1,
                ));
                assert(monitors@ =~= input.take(done + 1).map_values(
                    |p: (MonitorInfo, DibBuffer)| p.0,
                ));
                assert forall|i: int| 0 <= i < originals@.len() implies (
                #[trigger] originals@[i]).wf() && frames@[i].wf() && originals@[i].same_shape(
                    frames@[i],
                ) by {
                    if i < was.len() {
                        assert(was[i].wf());
                    }
                }
            }
        }
        proof {
            assert(input.take(input.len() as int) =~= input);
        }
        let mut modes = ModeStack::new(mode_params(settings));
        seed_cursor(&mut modes, cursor, &monitors);
        let n: usize = originals.len();
        let mut state = FreezeState {
            originals,
            frames,
            monitors,
            pending_repaint,
            modes,
            settings: *settings,
            base: None,
        };
        proof {
            assert(state.modes.zoom is None);
        }
        let no_map: &[i32] = &[];
        state.compose_all(no_map, no_map);
        proof {
            assert(no_map@ =~= Seq::<i32>::empty());
        }
        self.session = Some(state);
        self.active = ModeKind::Spotlight;
        Redraw::all(n, Self::flash_count(ModeKind::Spotlight))
    }

    /// Unfreeze key. In capture mode it only backs out of capture: the
    /// pre-capture images and layers come back and every frame is to be shown
    /// again. Otherwise the session ends. Nothing happens when not frozen.
    pub fn unfreeze(&mut self) -> (r: Redraw)
        requires
            old(self).wf(),
        ensures
            final(self).wf(),
            OverlayController::unfroze(*old(self), *final(self), r),
    {
        match self.session.take() {
            None => Redraw::none(),
            Some(mut s) => {
                if s.leave_capture() {
                    let n: usize = s.originals.len();
                    self.session = Some(s);
                    Redraw::all(n, 0)
                } else {
                    Redraw::none()
                }
            },
        }
    }
}

impl FreezeState {
    /// Back out of capture mode; `false` when it was not active.
    fn leave_capture(&mut self) -> (r: bool)
        requires
            old(self).wf(),
        ensures
            final(self).wf(),
            r == (old(self).base is Some),
            match old(self).base {
                Some(b) => *final(self) == (FreezeState {
                    originals: b,
                    base: None,
                    modes: old(self).modes.released(),
                    ..*old(self)
                }),
                None => *final(self) == *old(self),
            },
    {
        match self.base.take() {
            Some(b) => {
                self.originals = b;
                self.modes.exit_capture();
                true
            },
            None => false,
        }
    }
}

/// Feed the live cursor position into every active layer.
fn seed_cursor(modes: &mut ModeStack, cursor: Option<Point>, monitors: &Vec<MonitorInfo>)
    requires
        old(modes).wf(),
    ensures
        *final(modes) == seeded(*old(modes), cursor, rects_of(monitors@)),
        final(modes).wf(),
{
    let rects = collect_rects(monitors);
    match cursor {
        Some(p) => match monitor_index_at(p, rects.as_slice()) {
            Some(i) => {
                proof {
                    assert(rects.len() == rects@.len());
                    lemma_monitor_at_range(p, rects@);
                }
                modes.seed_cursor(i, virtual_to_local(p, rects[i]));
            },
            None => {},
        },
        None => {},
    }
}

impl FreezeState {
    /// Enter capture mode: the view as it is now becomes the frozen image, the
    /// earlier images are kept aside, and the layers are stashed. Entering again
    /// only clears the selection.
    fn begin_capture(&mut self, cols: &[i32], rows: &[i32])
        requires
            old(self).wf(),
            old(self).base is None ==> old(self).maps_ready(cols@, rows@),
        ensures
            final(self).wf(),
            old(self).captured_as(cols@, rows@, *final(self)),
    {
        if self.base.is_none() {
            let ghost before = *self;
            self.compose_all(cols, rows);
            let mut view = duplicate_all(&self.frames);
            proof {
                assert forall|i: int| 0 <= i < view@.len() implies (#[trigger] view@[i]).wf()
                    && self.frames@[i].wf() && view@[i].same_shape(self.frames@[i]) by {
                    assert(self.originals@[i].wf());
                }
                assert forall|m: int, x: int, y: int, c: int|
                    0 <= m < before.count() && before.originals@[m].has(x, y) && 0 <= c
                        < 4 implies #[trigger] view@[m].chan(x, y, c) == before.shown(
                    m,
                    cols@,
                    rows@,
                    x,
                    y,
                    c,
                ) by {
                    assert(self.shows_view(m, cols@, rows@));
                    assert(self.originals@[m].wf());
                    assert(view@[m].wf());
                    assert(view@[m].chan(x, y, c) == self.frames@[m].chan(x, y, c));
                }
            }
            core::mem::swap(&mut self.originals, &mut view);
            self.base = Some(view);
        }
        self.modes.enter_capture();
    }

    /// What entering capture mode makes of the session: the view of every
    /// monitor, the magnified one mapped by `cols` and `rows`, is its new frozen
    /// image. In capture mode already, the images stay.
    pub open spec fn captured_as(
        self,
        cols: Seq<i32>,
        rows: Seq<i32>,
        after: FreezeState,
    ) -> bool {
        &&& after == (FreezeState {
            originals: after.originals,
            frames: after.frames,
            base: after.base,
            modes: self.modes.capturing(),
            ..self
        })
        &&& if self.base is None {
            &&& after.base == Some(self.originals)
            &&& after.originals@.len() == self.count()
            &&& same_images(after.originals@, after.frames@)
            &&& forall|m: int, x: int, y: int, c: int|
                0 <= m < self.count() && self.originals@[m].has(x, y) && 0 <= c < 4
                    ==> #[trigger] after.originals@[m].chan(x, y, c) == self.shown(
                    m,
                    cols,
                    rows,
                    x,
                    y,
                    c,
                )
        } else {
            &&& after.originals == self.originals
            &&& after.frames == self.frames
            &&& after.base == self.base
        }
    }

    /// What a plain mode key makes of the session, the cursor not yet fed to
    /// the new layer: capture for the snip kind, else a full switch back on
    /// the pre-capture images.
    pub open spec fn switched_as(
        self,
        kind: ModeKind,
        cols: Seq<i32>,
        rows: Seq<i32>,
        after: FreezeState,
    ) -> bool {
        if kind == ModeKind::Snip {
            self.captured_as(cols, rows, after)
        } else {
            after == (FreezeState {
                originals: match self.base {
                    Some(b) => b,
                    None => self.originals,
                },
                base: None,
                modes: self.modes.switched(kind),
                ..self
            })
        }
    }

    fn switch(&mut self, kind: ModeKind, cols: &[i32], rows: &[i32])
        requires
            old(self).wf(),
            kind == ModeKind::Snip && old(self).base is None ==> old(self).maps_ready(cols@, rows@),
        ensures
            final(self).wf(),
            old(self).switched_as(kind, cols@, rows@, *final(self)),
    {
        if kind == ModeKind::Snip {
            self.begin_capture(cols, rows);
        } else {
            match self.base.take() {
                Some(b) => {
                    self.originals = b;
                },
                None => {},
            }
            self.modes.set_mode(kind);
        }
    }

    /// The session with the cursor fed to its layers.
    pub open spec fn seeded_with(self, cursor: Option<Point>) -> FreezeState {
        FreezeState { modes: seeded(self.modes, cursor, rects_of(self.monitors@)), ..self }
    }

    fn seed(&mut self, cursor: Option<Point>)
        requires
            old(self).wf(),
        ensures
            final(self).wf(),
            *final(self) == old(self).seeded_with(cursor),
    {
        seed_cursor(&mut self.modes, cursor, &self.monitors);
    }
}

impl OverlayController {
    /// Whether `cols` and `rows` map the frame of the monitor that is magnified,
    /// if one is.
    pub open spec fn maps_ready(self, cols: Seq<i32>, rows: Seq<i32>) -> bool {
        self.session matches Some(s) ==> s.maps_ready(cols, rows)
    }

    /// The monitor that is magnified, with its factor, its focus and the width
    /// and height of its frame. Maps of that width and height are what the steps
    /// that compose ask for; without a magnified monitor any maps are.
    pub fn magnified(&self) -> (r: Option<(usize, Factor, Point, u32, u32)>)
        requires
            self.wf(),
        ensures
            match r {
                Some((m, factor, focus, width, height)) => {
                    &&& self.session matches Some(s) && {
                        &&& m < s.count()
                        &&& s.modes.zoom_at(m) == Some((factor, focus))
                        &&& width == s.originals@[m as int].width
                        &&& height == s.originals@[m as int].height
                    }
                    &&& forall|cols: Seq<i32>, rows: Seq<i32>|
                        cols.len() == width && rows.len() == height
                            ==> #[trigger] self.maps_ready(cols, rows)
                },
                None => {
                    &&& self.session matches Some(s) ==> forall|m: usize|
                        m < s.count() ==> #[trigger] s.modes.zoom_at(m) is None
                    &&& forall|cols: Seq<i32>, rows: Seq<i32>| #[trigger]
                        self.maps_ready(cols, rows)
                },
            },
    {
        match &self.session {
            None => None,
            Some(state) => {
                match state.modes.zoom() {
                    None => None,
                    Some(zoom) => {
                        let m: usize = zoom.cursor_monitor();
                        if m < state.originals.len() {
                            Some(
                                (
                                    m,
                                    zoom.zoom(),
                                    zoom.cursor(),
                                    state.originals[m].width,
                                    state.originals[m].height,
                                ),
                            )
                        } else {
                            None
                        }
                    },
                }
            },
        }
    }

    /// Plain mode key. The snip kind enters capture mode: the view as it is now,
    /// with `cols` and `rows` mapping the magnified monitor, becomes the frozen
    /// image. Any other kind resets every layer and makes `kind` the only one.
    /// Then the cursor is fed to the layers, every frame is to be shown and the
    /// border flashed. Nothing happens when not frozen.
    pub fn set_mode(
        &mut self,
        kind: ModeKind,
        cursor: Option<Point>,
        cols: &[i32],
        rows: &[i32],
    ) -> (r: Redraw)
        requires
            old(self).wf(),
            kind == ModeKind::Snip ==> old(self).maps_ready(cols@, rows@),
        ensures
            final(self).wf(),
            OverlayController::mode_set(
                *old(self),
                kind,
                cursor,
                cols@,
                rows@,
                *final(self),
                r,
            ),
    {
        match &mut self.session {
            None => Redraw::none(),
            Some(state) => {
                state.switch(kind, cols, rows);
                let ghost mid = *state;
                state.seed(cursor);
                let n: usize = state.originals.len();
                proof {
                    assert(old(self).session->0.switched_as(kind, cols@, rows@, mid));
                    assert(*state == mid.seeded_with(cursor));
                }
                self.active = kind;
                Redraw::all(n, Self::flash_count(kind))
            },
        }
    }

    /// Add `kind`'s layer without resetting the others, then show and flash.
    /// Nothing happens when the layer is already active or when not frozen.
    pub fn add_mode(&mut self, kind: ModeKind, cursor: Option<Point>) -> (r: Redraw)
        requires
            old(self).wf(),
        ensures
            final(self).wf(),
            OverlayController::mode_added(*old(self), kind, cursor, *final(self), r),
    {
        match &mut self.session {
            None => Redraw::none(),
            Some(state) => {
                if state.modes.is_active(kind) {
                    return Redraw::none();
                }
                state.modes.add_mode(kind);
                state.seed(cursor);
                let n: usize = state.originals.len();
                self.active = kind;
                Redraw::all(n, Self::flash_count(kind))
            },
        }
    }

    /// Toggle key: remove `kind`'s layer when active (no flash), add it
    /// otherwise (cursor fed to it, flashed). Every frame is to be shown.
    /// Nothing happens when not frozen.
    pub fn toggle_mode(&mut self, kind: ModeKind, cursor: Option<Point>) -> (r: Redraw)
        requires
            old(self).wf(),
        ensures
            final(self).wf(),
            OverlayController::mode_toggled(*old(self), kind, cursor, *final(self), r),
    {
        match &mut self.session {
            None => Redraw::none(),
            Some(state) => {
                let activating: bool = !state.modes.is_active(kind);
                state.modes.toggle_mode(kind);
                let n: usize = state.originals.len();
                if activating {
                    state.seed(cursor);
                    self.active = kind;
                    Redraw::all(n, Self::flash_count(kind))
                } else {
                    Redraw::all(n, 0)
                }
            },
        }
    }

    /// The layers and repaints an event leads to. `scaled` is the zoom factor
    /// a wheel event scales to (see [`ModeStack::on_wheel`]).
    pub open spec fn event_outcome(
        before: ModeStack,
        monitor: usize,
        event: OverlayEvent,
        scaled: Factor,
        after: ModeStack,
        repaints: Seq<(usize, Option<Rect>)>,
    ) -> bool {
        match event {
            OverlayEvent::MouseMove { at } => after == before.moved(monitor, at) && repaints
                == before.move_repaints(monitor, at),
            OverlayEvent::MouseWheel { at, delta, modifiers } => {
                &&& after == (ModeStack {
                    spotlight: before.wheeled_spotlight(monitor, at, delta, modifiers),
                    zoom: before.wheeled_zoom(monitor, at, modifiers, scaled),
                    ..before
                })
                &&& repaints == before.wheel_repaints(monitor, at, delta, modifiers, scaled)
            },
            OverlayEvent::LeftButtonDown { at } => before.pressed_as(monitor, at, after, repaints),
            OverlayEvent::LeftButtonUp { at } => before.raised_as(monitor, at, after, repaints),
            OverlayEvent::KeyDown { .. } => after == before && repaints == no_repaints(),
        }
    }

    /// What [`OverlayController::handle_overlay_event`] makes of the controller,
    /// and what it shows.
    pub open spec fn event_handled(
        before: OverlayController,
        monitor: usize,
        event: OverlayEvent,
        scaled: Factor,
        after: OverlayController,
        r: Redraw,
    ) -> bool {
        &&& after.active == before.active
        &&& r.flashes == 0
        &&& match (before.session, after.session) {
            (Some(s), Some(t)) => if monitor < s.count() {
                &&& t == (FreezeState { modes: t.modes, ..s })
                &&& OverlayController::event_outcome(
                    s.modes,
                    monitor,
                    event,
                    scaled,
                    t.modes,
                    r.repaint@,
                )
            } else {
                t == s && r.repaint@ == no_repaints()
            },
            (None, None) => r.repaint@ == no_repaints(),
            _ => false,
        }
    }

    /// Route an overlay event to the layers. Keys never reach them, and events
    /// for a monitor that does not exist (or when not frozen) are ignored.
    pub fn handle_overlay_event(&mut self, monitor: usize, event: OverlayEvent, scaled: Factor) -> (r:
        Redraw)
        requires
            old(self).wf(),
        ensures
            final(self).wf(),
            final(self).active == old(self).active,
            r.flashes == 0,
            match (old(self).session, final(self).session) {
                (Some(s), Some(t)) => if monitor < s.count() {
                    &&& t == (FreezeState { modes: t.modes, ..s })
                    &&& OverlayController::event_outcome(
                        s.modes,
                        monitor,
                        event,
                        scaled,
                        t.modes,
                        r.repaint@,
                    )
                } else {
                    t == s && r.repaint@ == no_repaints()
                },
                (None, None) => r.repaint@ == no_repaints(),
                _ => false,
            },
            OverlayController::event_handled(
                *old(self),
                monitor,
                event,
                scaled,
                *final(self),
                r,
            ),
    {
        match &mut self.session {
            None => Redraw::none(),
            Some(state) => {
                if monitor >= state.originals.len() {
                    return Redraw::none();
                }
                let effect: ModeEffect = match event {
                    OverlayEvent::MouseMove { at } => state.modes.on_mouse_move(monitor, at),
                    OverlayEvent::MouseWheel { at, delta, modifiers } => state.modes.on_wheel(
                        monitor,
                        at,
                        delta,
                        modifiers,
                        scaled,
                    ),
                    OverlayEvent::LeftButtonDown { at } => state.modes.on_left_button_down(
                        monitor,
                        at,
                    ),
                    OverlayEvent::LeftButtonUp { at } => state.modes.on_left_button_up(monitor, at),
                    OverlayEvent::KeyDown { .. } => ModeEffect::none(),
                };
                Redraw { repaint: effect.repaint, flashes: 0 }
            },
        }
    }

    /// Reset-view hotkey: zoom back to 1.0 when the zoom layer is active;
    /// nothing otherwise.
    pub fn reset_view(&mut self) -> (r: Redraw)
        requires
            old(self).wf(),
        ensures
            final(self).wf(),
            OverlayController::view_reset(*old(self), *final(self), r),
    {
        match &mut self.session {
            None => Redraw::none(),
            Some(state) => {
                let effect = state.modes.reset_view();
                Redraw { repaint: effect.repaint, flashes: 0 }
            },
        }
    }

    /// What the layers contribute on monitor `m`; `None` when there is no such
    /// monitor. The caller maps the magnified view from it.
    pub fn render_state(&self, m: usize) -> (r: Option<crate::overlay::composite::RenderState>)
        requires
            self.wf(),
        ensures
            r == (match self.session {
                Some(s) => if m < s.count() {
                    Some(s.modes.rendered(m))
                } else {
                    None
                },
                None => None,
            }),
    {
        match &self.session {
            Some(s) => if m < s.originals.len() {
                Some(s.modes.render_state(m))
            } else {
                None
            },
            None => None,
        }
    }

    /// The factor the next wheel event scales and the multiplier of one notch.
    pub fn wheel_zoom(&self) -> (r: Option<(Factor, Factor)>)
        ensures
            r == (match self.session {
                Some(s) => Some(
                    match s.modes.zoom {
                        Some(z) => (z.zoom, z.step_factor),
                        None => (
                            s.modes.last_zoom,
                            crate::overlay::modes::ZoomMode::normal_step(s.modes.params.zoom_step),
                        ),
                    },
                ),
                None => None,
            }),
    {
        match &self.session {
            Some(s) => Some(s.modes.wheel_zoom()),
            None => None,
        }
    }

    /// The composed frame of monitor `m`.
    pub fn frame(&self, m: usize) -> (r: Option<&DibBuffer>)
        requires
            self.wf(),
        ensures
            match (self.session, r) {
                (Some(s), Some(f)) => m < s.count() && *f == s.frames@[m as int],
                (Some(s), None) => m >= s.count(),
                (None, None) => true,
                _ => false,
            },
    {
        match &self.session {
            Some(s) => if m < s.frames.len() {
                Some(&s.frames[m])
            } else {
                None
            },
            None => None,
        }
    }

    /// Whether `m` names a monitor whose frame can be composed with these maps.
    pub open spec fn can_compose(self, m: usize, cols: Seq<i32>, rows: Seq<i32>) -> bool {
        self.session matches Some(s) && m < s.count() && s.maps_fit(m as int, cols, rows)
    }

    /// Compose monitor `m`'s frame from the active layers: the shared pipeline
    /// with the session's veil, which is dropped when no layer is active.
    /// `cols` and `rows` map the magnified view. `false`, with nothing done,
    /// when there is no such monitor or the maps do not fit it.
    pub fn compose_frame_for(&mut self, m: usize, cols: &[i32], rows: &[i32]) -> (r: bool)
        requires
            old(self).wf(),
        ensures
            final(self).wf(),
            final(self).active == old(self).active,
            r == old(self).can_compose(m, cols@, rows@),
            !r ==> *final(self) == *old(self),
            r ==> (final(self).session matches Some(t) && old(self).session->0.composed_as(
                m as int,
                cols@,
                rows@,
                t,
            )),
    {
        match &mut self.session {
            None => false,
            Some(state) => {
                if m >= state.originals.len() {
                    return false;
                }
                if state.modes.zoom_on(m).is_some() && (cols.len()
                    != state.originals[m].width as usize || rows.len()
                    != state.originals[m].height as usize) {
                    return false;
                }
                state.compose(m, cols, rows);
                true
            },
        }
    }

    /// Compose monitor `m`'s frame with the white flash border on it.
    pub fn compose_flash_for(&mut self, m: usize, cols: &[i32], rows: &[i32]) -> (r: bool)
        requires
            old(self).wf(),
        ensures
            final(self).wf(),
            final(self).active == old(self).active,
            r == old(self).can_compose(m, cols@, rows@),
            !r ==> *final(self) == *old(self),
            r ==> {
                let s = old(self).session->0;
                let t = final(self).session->0;
                &&& final(self).session is Some
                &&& t.same_but_frames(s)
                &&& forall|i: int|
                    0 <= i < s.frames@.len() && i != m ==> #[trigger] t.frames@[i] == s.frames@[i]
                &&& forall|x: int, y: int, c: int|
                    #![trigger t.frames@[m as int].chan(x, y, c)]
                    s.originals@[m as int].has(x, y) && 0 <= c < 4 ==> t.frames@[m as int].chan(
                        x,
                        y,
                        c,
                    ) == ({
                        let v = s.shown(m as int, cols@, rows@, x, y, c);
                        if on_frame(
                            x,
                            y,
                            s.originals@[m as int].width,
                            s.originals@[m as int].height,
                            FLASH_THICKNESS,
                        ) {
                            tinted(v, flash_color_spec(), 255, c)
                        } else {
                            v
                        }
                    })
            },
            r ==> old(self).session->0.flashed_as(
                m as int,
                cols@,
                rows@,
                final(self).session->0,
            ),
    {
        if !self.compose_frame_for(m, cols, rows) {
            return false;
        }
        match &mut self.session {
            None => false,
            Some(state) => {
                state.outline(m);
                true
            },
        }
    }

    /// What [`OverlayController::present_or_defer`] makes of the controller, and
    /// what it answers.
    pub open spec fn deferred_as(
        before: OverlayController,
        m: usize,
        dirty: Option<Rect>,
        can_present: bool,
        after: OverlayController,
        r: Option<Option<Rect>>,
    ) -> bool {
        match before.session {
            Some(s) if m < s.count() => {
                let merged = match s.pending_repaint@[m as int] {
                    Some(p) => p.merged(dirty),
                    None => PendingRepaint::of(dirty),
                };
                &&& after.session matches Some(t) && t == (FreezeState {
                    pending_repaint: t.pending_repaint,
                    ..s
                }) && t.pending_repaint@ == s.pending_repaint@.update(
                    m as int,
                    if can_present {
                        None
                    } else {
                        Some(merged)
                    },
                )
                &&& r == (if can_present {
                    Some(merged.arg())
                } else {
                    None
                })
            },
            _ => after == before && r is None,
        }
    }

    /// What [`OverlayController::process_pending_repaints`] makes of the
    /// controller, and what it presents.
    pub open spec fn caught_up(
        before: OverlayController,
        ready: Seq<bool>,
        after: OverlayController,
        r: Seq<(usize, Option<Rect>)>,
    ) -> bool {
        match before.session {
            Some(s) => {
                &&& r == ready_presents(
                    s.pending_repaint@,
                    readiness(ready, s.count()),
                    s.count() as int,
                )
                &&& after.session matches Some(t) && t == (FreezeState {
                    pending_repaint: t.pending_repaint,
                    ..s
                }) && t.pending_repaint@ == Seq::new(
                    s.count(),
                    |m: int|
                        if readiness(ready, s.count())[m] {
                            None
                        } else {
                            s.pending_repaint@[m]
                        },
                )
            },
            None => after == before && r == no_repaints(),
        }
    }

    /// Decide what to do with monitor `m`'s composed frame: `Some(dirty)` =
    /// present it now with that region (earlier deferred repaints included);
    /// `None` = the surface is busy and the repaint is deferred (or there is no
    /// such monitor).
    pub fn present_or_defer(&mut self, m: usize, dirty: Option<Rect>, can_present: bool) -> (r:
        Option<Option<Rect>>)
        requires
            old(self).wf(),
        ensures
            final(self).wf(),
            final(self).active == old(self).active,
            match old(self).session {
                Some(s) if m < s.count() => {
                    let merged = match s.pending_repaint@[m as int] {
                        Some(p) => p.merged(dirty),
                        None => PendingRepaint::of(dirty),
                    };
                    &&& final(self).session matches Some(t) && t == (FreezeState {
                        pending_repaint: t.pending_repaint,
                        ..s
                    }) && t.pending_repaint@ == s.pending_repaint@.update(
                        m as int,
                        if can_present {
                            None
                        } else {
                            Some(merged)
                        },
                    )
                    &&& r == (if can_present {
                        Some(merged.arg())
                    } else {
                        None
                    })
                },
                _ => *final(self) == *old(self) && r is None,
            },
            OverlayController::deferred_as(*old(self), m, dirty, can_present, *final(self), r),
    {
        match &mut self.session {
            None => None,
            Some(state) => {
                if m >= state.pending_repaint.len() {
                    return None;
                }
                let merged: PendingRepaint = match state.pending_repaint[m] {
                    Some(p) => p.merge(dirty),
                    None => PendingRepaint::from_dirty(dirty),
                };
                if can_present {
                    state.pending_repaint[m] = None;
                    Some(merged.as_present_arg())
                } else {
                    state.pending_repaint[m] = Some(merged);
                    None
                }
            },
        }
    }

    /// Take every deferred repaint whose surface is ready now, in monitor
    /// order. `ready[m]` tells whether monitor `m`'s surface can present;
    /// missing flags read as busy.
    pub fn process_pending_repaints(&mut self, ready: &[bool]) -> (r: Vec<(usize, Option<Rect>)>)
        requires
            old(self).wf(),
        ensures
            final(self).wf(),
            final(self).active == old(self).active,
            match old(self).session {
                Some(s) => {
                    &&& r@ == ready_presents(
                        s.pending_repaint@,
                        readiness(ready@, s.count()),
                        s.count() as int,
                    )
                    &&& final(self).session matches Some(t) && t == (FreezeState {
                        pending_repaint: t.pending_repaint,
                        ..s
                    }) && t.pending_repaint@ == Seq::new(
                        s.count(),
                        |m: int|
                            if readiness(ready@, s.count())[m] {
                                None
                            } else {
                                s.pending_repaint@[m]
                            },
                    )
                },
                None => *final(self) == *old(self) && r@ == no_repaints(),
            },
            OverlayController::caught_up(*old(self), ready@, *final(self), r@),
    {
        let mut out: Vec<(usize, Option<Rect>)> = Vec::new();
        match &mut self.session {
            None => {},
            Some(state) => {
                let ghost before = *state;
                let ghost flags = readiness(ready@, before.count());
                let mut m: usize = 0;
                while m < state.pending_repaint.len()
                    invariant
                        before.wf(),
                        flags == readiness(ready@, before.count()),
                        *state == (FreezeState { pending_repaint: state.pending_repaint, ..before }),
                        state.pending_repaint@.len() == before.count(),
                        m <= before.count(),
                        out@ == ready_presents(before.pending_repaint@, flags, m as int),
                        forall|k: int|
                            0 <= k < before.count() ==> #[trigger] state.pending_repaint@[k] == (
                            if k < m && flags[k] {
                                None
                            } else {
                                before.pending_repaint@[k]
                            }),
                    decreases before.count() - m,
                {
                    if m < ready.len() && ready[m] {
                        match state.pending_repaint[m] {
                            Some(p) => {
                                out.push((m, p.as_present_arg()));
                                state.pending_repaint[m] = None;
                            },
                            None => {},
                        }
                    }
                    m += 1;
                }
                proof {
                    assert(state.pending_repaint@ =~= Seq::new(
                        before.count(),
                        |k: int|
                            if flags[k] {
                                None
                            } else {
                                before.pending_repaint@[k]
                            },
                    ));
                }
            },
        }
        out
    }

    /// What a copy would take now; `None` when not frozen or without monitors.
    pub open spec fn plan(self, cursor: Option<Point>) -> Option<CopyPlan> {
        match self.session {
            Some(s) => copy_decision(
                s.modes.selection(),
                match cursor {
                    Some(p) => p,
                    None => Point { x: 0, y: 0 },
                },
                rects_of(s.monitors@),
            ),
            None => None,
        }
    }

    /// What a copy would take now; an unknown cursor counts as the origin.
    pub fn copy_plan(&self, cursor: Option<Point>) -> (r: Option<CopyPlan>)
        requires
            self.wf(),
        ensures
            r == self.plan(cursor),
    {
        match &self.session {
            Some(s) => {
                let rects = collect_rects(&s.monitors);
                let at: Point = match cursor {
                    Some(p) => p,
                    None => Point::new(0, 0),
                };
                decide_copy_plan(s.modes.snip_selection(), at, rects.as_slice())
            },
            None => None,
        }
    }

    /// What the copy key makes of the controller, and the image it gives.
    pub open spec fn copied_out(
        before: OverlayController,
        cursor: Option<Point>,
        cols: Seq<i32>,
        rows: Seq<i32>,
        after: OverlayController,
        r: Option<DibBuffer>,
    ) -> bool {
        &&& after.session is None
        &&& after.active == before.active
        &&& (r is Some <==> before.plan(cursor) is Some)
        &&& (r matches Some(image) ==> before.session->0.copied(
            before.plan(cursor)->0,
            cols,
            rows,
            image,
        ))
    }

    /// Copy key: the image to put on the clipboard, the session then being
    /// over. A selection is cropped from its monitor's base image (the
    /// magnified view, mapped by `cols` and `rows`, when the zoom layer is on
    /// that monitor); otherwise, or when that crop is empty, it is the frozen
    /// image of the planned monitor. `None` when not frozen or without
    /// monitors.
    pub fn snip_copy_and_close(&mut self, cursor: Option<Point>, cols: &[i32], rows: &[i32]) -> (r:
        Option<DibBuffer>)
        requires
            old(self).wf(),
            old(self).plan(cursor) matches Some(CopyPlan::Snip { monitor, .. })
                ==> old(self).can_compose(monitor, cols@, rows@),
        ensures
            final(self).session is None,
            final(self).active == old(self).active,
            r is Some <==> old(self).plan(cursor) is Some,
            r matches Some(image) ==> old(self).session->0.copied(
                old(self).plan(cursor)->0,
                cols@,
                rows@,
                image,
            ),
            OverlayController::copied_out(*old(self), cursor, cols@, rows@, *final(self), r),
    {
        let plan = self.copy_plan(cursor);
        match self.session.take() {
            None => None,
            Some(s) => {
                proof {
                    assert(s.monitors.len() == s.monitors@.len());
                    lemma_plan_names_a_monitor(
                        s.modes.selection(),
                        match cursor {
                            Some(p) => p,
                            None => Point { x: 0, y: 0 },
                        },
                        rects_of(s.monitors@),
                    );
                }
                match plan {
                    None => None,
                    Some(CopyPlan::Snip { monitor, a, b }) => {
                        proof {
                            assert(s.originals@[monitor as int].wf());
                        }
                        match copy_crop(
                            &s.originals[monitor],
                            s.modes.zoom_on(monitor),
                            cols,
                            rows,
                            a,
                            b,
                        ) {
                            Some(snip) => Some(snip),
                            None => Some(s.originals[monitor].duplicate()),
                        }
                    },
                    Some(CopyPlan::FullMonitor { monitor }) => Some(
                        s.originals[monitor].duplicate(),
                    ),
                }
            },
        }
    }
}

impl FreezeState {
    /// `image` is what `plan` copies from this session.
    pub open spec fn copied(
        self,
        plan: CopyPlan,
        cols: Seq<i32>,
        rows: Seq<i32>,
        image: DibBuffer,
    ) -> bool {
        match plan {
            CopyPlan::FullMonitor { monitor } => {
                &&& image.same_shape(self.originals@[monitor as int])
                &&& image.pixels@ == self.originals@[monitor as int].pixels@
            },
            CopyPlan::Snip { monitor, a, b } => {
                let o = self.originals@[monitor as int];
                if crop_nonempty(a, b, o.width, o.height) {
                    &&& image.wf()
                    &&& image.width == span_end(a.x, b.x, o.width) - span_start(a.x, b.x)
                    &&& image.height == span_end(a.y, b.y, o.height) - span_start(a.y, b.y)
                    &&& forall|x: int, y: int, c: int|
                        #![trigger image.chan(x, y, c)]
                        image.has(x, y) && 0 <= c < 4 ==> ({
                            let sx = span_start(a.x, b.x) + x;
                            let sy = span_start(a.y, b.y) + y;
                            image.chan(x, y, c) == if self.modes.zoom_at(monitor) is Some {
                                o.chan(
                                    edge(cols[sx] as int, o.width),
                                    edge(rows[sy] as int, o.height),
                                    c,
                                )
                            } else {
                                o.chan(sx, sy, c)
                            }
                        })
                } else {
                    image.same_shape(o) && image.pixels@ == o.pixels@
                }
            },
        }
    }
}

/// Whether each of `n` surfaces is ready; missing flags read as busy.
pub open spec fn readiness(ready: Seq<bool>, n: nat) -> Seq<bool> {
    Seq::new(n, |m: int| m < ready.len() && ready[m])
}

impl Default for OverlayController {
    fn default() -> (r: Self)
        ensures
            r.wf(),
            r.session is None,
            r.active == ModeKind::Spotlight,
    {
        Self::new()
    }
}

/// A border flash ends without the border, and holds the screen for at most
/// 360 ms.
pub proof fn lemma_flash_time(kind: ModeKind)
    ensures
        ({
            let n = OverlayController::flashes(kind);
            &&& flash_time(n, 2 * n) == n * (FLASH_ON_MS + FLASH_OFF_MS)
            &&& flash_time(n, 2 * n) <= 360
            &&& flash_step(n, 2 * n - 1) matches Some(last) && !last.bordered
            &&& flash_step(n, 2 * n as int) is None
        }),
{
    let n = OverlayController::flashes(kind);
    reveal_with_fuel(flash_time, 7);
    assert(1 <= n <= 3);
    assert(n == 1 || n == 2 || n == 3);
}

/// Backing out of capture mode undoes entering it: the images and the layers
/// of before are back, and only a selection is gone (the composed frames are to
/// be shown anew).
pub proof fn lemma_capture_restores_session(
    s: FreezeState,
    cols: Seq<i32>,
    rows: Seq<i32>,
    t: FreezeState,
)
    requires
        s.wf(),
        s.base is None,
        s.captured_as(cols, rows, t),
    ensures
        t.base == Some(s.originals),
        (FreezeState {
            originals: t.base->0,
            frames: s.frames,
            base: None,
            modes: t.modes.released(),
            ..t
        }) == (FreezeState { modes: ModeStack { snip: None, ..s.modes }, ..s }),
{
    crate::overlay::modes::lemma_capture_round_trip(s.modes);
}

/// Entering capture mode, at any time, makes the view exactly as it is the
/// frozen image of every monitor, pixel for pixel.
pub proof fn lemma_capture_bakes_the_view(
    before: OverlayController,
    cursor: Option<Point>,
    cols: Seq<i32>,
    rows: Seq<i32>,
    after: OverlayController,
    r: Redraw,
    m: int,
    x: int,
    y: int,
    c: int,
)
    requires
        before.wf(),
        before.session matches Some(s) && s.base is None && 0 <= m < s.count()
            && s.originals@[m].has(x, y),
        OverlayController::mode_set(before, ModeKind::Snip, cursor, cols, rows, after, r),
        0 <= c < 4,
    ensures
        after.session matches Some(t) && t.originals@[m].chan(x, y, c) == before.session->0.shown(
            m,
            cols,
            rows,
            x,
            y,
            c,
        ),
{
    let s = before.session->0;
    let u = choose|u: FreezeState| #[trigger]
        s.switched_as(ModeKind::Snip, cols, rows, u) && after.session->0 == u.seeded_with(cursor);
    assert(u.originals@[m].chan(x, y, c) == s.shown(m, cols, rows, x, y, c));
}

/// With every layer off and not in capture mode, a frozen monitor shows its
/// image unveiled.
pub proof fn lemma_no_layer_no_veil(
    s: FreezeState,
    m: int,
    cols: Seq<i32>,
    rows: Seq<i32>,
    x: int,
    y: int,
    c: int,
)
    requires
        !s.modes.any_layer(),
        s.modes.saved is None,
        0 <= c < 4,
    ensures
        s.shown(m, cols, rows, x, y, c) == s.originals@[m].chan(x, y, c),
{
}

} // verus!
