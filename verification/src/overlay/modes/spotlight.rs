//! Spotlight layer: the frozen screen is darkened except a clear circle around
//! the cursor.

use super::{ModeEffect, ModeKind, SnipSelection};
use crate::capture::{copy_run, DibBuffer};
use crate::geometry::{bounded, Point, Rect};
use crate::hotkeys::gesture::Modifiers;
use crate::overlay::composite::{darken, dimmed, in_circle, spotlight_hole};
use vstd::prelude::*;

verus! {

/// Smallest selectable spotlight radius (physical px).
pub const MIN_RADIUS: u32 = 10;

/// Largest selectable spotlight radius (physical px).
pub const MAX_RADIUS: u32 = 1000;

/// Raw wheel units per pixel of radius: one notch of 120 units is 10 pixels.
pub const UNITS_PER_PIXEL: i64 = 12;

/// Bounding box of the spotlight circle in monitor-local pixels, `cx + r`
/// inclusive. Unclipped.
pub open spec fn circle_box(center: Point, radius: u32) -> Rect {
    Rect::of_edges(
        center.x - radius,
        center.y - radius,
        center.x + radius + 1,
        center.y + radius + 1,
    )
}

fn circle_bbox(center: Point, radius: u32) -> (r: Rect)
    ensures
        r == circle_box(center, radius),
{
    let x: i64 = center.x as i64;
    let y: i64 = center.y as i64;
    let d: i64 = radius as i64;
    Rect::from_edges(x - d, y - d, x + d + 1, y + d + 1)
}

/// The circle's box holds every pixel of the circle, away from the 32-bit
/// edges.
pub proof fn lemma_circle_in_box(center: Point, radius: u32, x: int, y: int)
    requires
        in_circle(x, y, center, radius),
        radius <= MAX_RADIUS,
        i32::MIN + radius <= center.x,
        i32::MIN + radius <= center.y,
    ensures
        circle_box(center, radius).covers(x, y),
{
    let dx = x - center.x;
    let dy = y - center.y;
    assert(-radius <= dx <= radius && -radius <= dy <= radius) by (nonlinear_arith)
        requires
            dx * dx + dy * dy <= radius * radius,
            0 <= radius,
    ;
}

/// Repaints for a circle that changed from box `old_box` on `old_monitor` to
/// `new_box` on `new_monitor`: the union on one monitor, or both boxes.
pub open spec fn circle_repaints(
    old_monitor: usize,
    old_box: Rect,
    new_monitor: usize,
    new_box: Rect,
) -> Seq<(usize, Option<Rect>)> {
    if old_monitor == new_monitor {
        seq![(new_monitor, Some(old_box.union_spec(new_box)))]
    } else {
        seq![(old_monitor, Some(old_box)), (new_monitor, Some(new_box))]
    }
}

fn circle_repaint(old_circle: (usize, Rect), new_circle: (usize, Rect)) -> (e: ModeEffect)
    ensures
        !e.exit,
        e.repaint@ == circle_repaints(old_circle.0, old_circle.1, new_circle.0, new_circle.1),
{
    let mut effect = ModeEffect::none();
    if old_circle.0 == new_circle.0 {
        effect.repaint.push((new_circle.0, Some(old_circle.1.union(&new_circle.1))));
    } else {
        effect.repaint.push((old_circle.0, Some(old_circle.1)));
        effect.repaint.push((new_circle.0, Some(new_circle.1)));
    }
    proof {
        assert(effect.repaint@ =~= circle_repaints(
            old_circle.0,
            old_circle.1,
            new_circle.0,
            new_circle.1,
        ));
    }
    effect
}

/// Whole pixels in `units` raw wheel units, rounded toward zero.
pub open spec fn whole_pixels(units: int) -> int {
    if units >= 0 {
        units / UNITS_PER_PIXEL as int
    } else {
        -((-units) / UNITS_PER_PIXEL as int)
    }
}

/// Spotlight layer state: cursor position and circle radius.
///
/// Wheel events resize the circle only while `radius_modifier` is held. Wheel
/// deltas arrive in raw units (one notch = 120); an event consumes only the
/// units its whole-pixel step accounts for and banks the rest.
pub struct SpotlightMode {
    pub cursor: Point,
    pub cursor_monitor: usize,
    pub radius: u32,
    pub radius_modifier: Modifiers,
    /// Banked raw wheel units, always less than one pixel's worth.
    pub wheel_accum: i64,
}

impl SpotlightMode {
    /// The radius stays in `10..=1000` and less than a pixel is banked.
    pub open spec fn wf(self) -> bool {
        &&& MIN_RADIUS <= self.radius <= MAX_RADIUS
        &&& -UNITS_PER_PIXEL < self.wheel_accum < UNITS_PER_PIXEL
    }

    /// The layer as built for a radius and a modifier.
    pub open spec fn fresh(default_radius: u32, radius_modifier: Modifiers) -> SpotlightMode {
        SpotlightMode {
            cursor: Point { x: 0, y: 0 },
            cursor_monitor: 0,
            radius: bounded(default_radius as int, MIN_RADIUS as int, MAX_RADIUS as int) as u32,
            radius_modifier,
            wheel_accum: 0,
        }
    }

    /// `default_radius` is clamped to `10..=1000`; `radius_modifier` must be
    /// held for wheel resizing. The empty set means every wheel event resizes.
    pub fn new(default_radius: u32, radius_modifier: Modifiers) -> (r: Self)
        ensures
            r == SpotlightMode::fresh(default_radius, radius_modifier),
            r.wf(),
    {
        let radius: u32 = if default_radius < MIN_RADIUS {
            MIN_RADIUS
        } else if default_radius > MAX_RADIUS {
            MAX_RADIUS
        } else {
            default_radius
        };
        Self { cursor: Point::new(0, 0), cursor_monitor: 0, radius, radius_modifier, wheel_accum: 0 }
    }

    /// Current circle radius in physical pixels.
    pub fn radius(&self) -> (r: u32)
        ensures
            r == self.radius,
    {
        self.radius
    }

    /// Cursor position, monitor-local.
    pub fn cursor(&self) -> (r: Point)
        ensures
            r == self.cursor,
    {
        self.cursor
    }

    /// Monitor the circle is on.
    pub fn cursor_monitor(&self) -> (r: usize)
        ensures
            r == self.cursor_monitor,
    {
        self.cursor_monitor
    }

    pub fn kind(&self) -> (r: ModeKind)
        ensures
            r == ModeKind::Spotlight,
    {
        ModeKind::Spotlight
    }

    /// The layer with its circle at `at` on `monitor`.
    pub open spec fn moved(self, monitor: usize, at: Point) -> SpotlightMode {
        SpotlightMode { cursor: at, cursor_monitor: monitor, ..self }
    }

    /// Repaints of the change from `self` to `other`: none when the circle
    /// stays as it is.
    pub open spec fn repaints_to(self, other: SpotlightMode) -> Seq<(usize, Option<Rect>)> {
        if self.cursor_monitor == other.cursor_monitor && self.cursor == other.cursor && self.radius
            == other.radius {
            Seq::empty()
        } else {
            circle_repaints(
                self.cursor_monitor,
                circle_box(self.cursor, self.radius),
                other.cursor_monitor,
                circle_box(other.cursor, other.radius),
            )
        }
    }

    /// Tracks the cursor; asks to repaint the circle's old and new regions.
    pub fn on_mouse_move(&mut self, monitor: usize, at: Point) -> (e: ModeEffect)
        ensures
            *final(self) == old(self).moved(monitor, at),
            !e.exit,
            e.repaint@ == old(self).repaints_to(*final(self)),
    {
        if monitor == self.cursor_monitor && at == self.cursor {
            return ModeEffect::none();
        }
        let before = (self.cursor_monitor, circle_bbox(self.cursor, self.radius));
        self.cursor = at;
        self.cursor_monitor = monitor;
        circle_repaint(before, (monitor, circle_bbox(at, self.radius)))
    }

    /// The layer after `delta` raw wheel units with the modifier held.
    pub open spec fn resized(self, monitor: usize, at: Point, delta: int) -> SpotlightMode {
        let units = self.wheel_accum + delta;
        SpotlightMode {
            cursor: at,
            cursor_monitor: monitor,
            radius: bounded(
                self.radius + whole_pixels(units),
                MIN_RADIUS as int,
                MAX_RADIUS as int,
            ) as u32,
            radius_modifier: self.radius_modifier,
            wheel_accum: (units - whole_pixels(units) * UNITS_PER_PIXEL) as i64,
        }
    }

    /// Resizes the radius, only while `radius_modifier` is held: 120 raw units
    /// are 10 px, clamped to `10..=1000`. Units below a whole pixel are banked
    /// for the next event. The wheel's position becomes the circle's.
    pub fn on_wheel(
        &mut self,
        monitor: usize,
        at: Point,
        delta: i32,
        modifiers: Modifiers,
    ) -> (e: ModeEffect)
        requires
            old(self).wf(),
        ensures
            final(self).wf(),
            !e.exit,
            *final(self) == (if modifiers.holds(old(self).radius_modifier) {
                old(self).resized(monitor, at, delta as int)
            } else {
                *old(self)
            }),
            e.repaint@ == old(self).repaints_to(*final(self)),
    {
        if !modifiers.contains(self.radius_modifier) {
            return ModeEffect::none();
        }
        let units: i64 = self.wheel_accum + delta as i64;
        let step: i64 = if units >= 0 {
            (units as u64 / UNITS_PER_PIXEL as u64) as i64
        } else {
            -(((-units) as u64 / UNITS_PER_PIXEL as u64) as i64)
        };
        self.wheel_accum = units - step * UNITS_PER_PIXEL;
        let target: i64 = self.radius as i64 + step;
        let new_radius: u32 = if target < MIN_RADIUS as i64 {
            MIN_RADIUS
        } else if target > MAX_RADIUS as i64 {
            MAX_RADIUS
        } else {
            target as u32
        };
        if new_radius == self.radius && monitor == self.cursor_monitor && at == self.cursor {
            return ModeEffect::none();
        }
        let before = (self.cursor_monitor, circle_bbox(self.cursor, self.radius));
        self.cursor = at;
        self.cursor_monitor = monitor;
        self.radius = new_radius;
        circle_repaint(before, (monitor, circle_bbox(at, new_radius)))
    }

    /// Buttons do not concern the spotlight.
    pub fn on_left_button_down(&mut self, _monitor: usize, _at: Point) -> (e: ModeEffect)
        ensures
            *final(self) == *old(self),
            !e.exit,
            e.repaint@.len() == 0,
    {
        ModeEffect::none()
    }

    /// Buttons do not concern the spotlight.
    pub fn on_left_button_up(&mut self, _monitor: usize, _at: Point) -> (e: ModeEffect)
        ensures
            *final(self) == *old(self),
            !e.exit,
            e.repaint@.len() == 0,
    {
        ModeEffect::none()
    }

    /// Keys do not concern the spotlight.
    pub fn on_key(&mut self, _vk: u32, _modifiers: Modifiers) -> (e: ModeEffect)
        ensures
            *final(self) == *old(self),
            !e.exit,
            e.repaint@.len() == 0,
    {
        ModeEffect::none()
    }

    /// The spotlight never holds a selection.
    pub fn snip_selection(&self) -> (r: Option<SnipSelection>)
        ensures
            r is None,
    {
        None
    }

    /// Resetting the view does not concern the spotlight.
    pub fn reset_view(&mut self) -> (e: ModeEffect)
        ensures
            *final(self) == *old(self),
            !e.exit,
            e.repaint@.len() == 0,
    {
        ModeEffect::none()
    }

    /// `after` is what [`SpotlightMode::render`] makes of `before`.
    pub open spec fn rendered_on(
        self,
        monitor: usize,
        original: DibBuffer,
        before: DibBuffer,
        dim_alpha: u8,
        after: DibBuffer,
    ) -> bool {
        &&& after.wf()
        &&& after.same_shape(before)
        &&& forall|x: int, y: int, c: int|
            before.has(x, y) && 0 <= c < 4 ==> #[trigger] after.chan(x, y, c) == (
            if !original.same_shape(before) {
                darkened_chan(before, x, y, c, dim_alpha)
            } else if monitor == self.cursor_monitor && in_circle(
                x,
                y,
                self.cursor,
                self.radius,
            ) {
                original.chan(x, y, c)
            } else {
                darkened_chan(original, x, y, c, dim_alpha)
            })
    }

    /// Darken the original, then show the original pixels inside the circle
    /// (only on the monitor where the cursor is). When `out` has another shape
    /// than `original`, its own pixels are darkened instead.
    pub fn render(&self, monitor: usize, original: &DibBuffer, out: &mut DibBuffer, dim_alpha: u8)
        requires
            original.wf(),
            old(out).wf(),
        ensures
            final(out).wf(),
            final(out).same_shape(*old(out)),
            forall|x: int, y: int, c: int|
                old(out).has(x, y) && 0 <= c < 4 ==> #[trigger] final(out).chan(x, y, c) == (
                if !original.same_shape(*old(out)) {
                    darkened_chan(*old(out), x, y, c, dim_alpha)
                } else if monitor == self.cursor_monitor && in_circle(
                    x,
                    y,
                    self.cursor,
                    self.radius,
                ) {
                    original.chan(x, y, c)
                } else {
                    darkened_chan(*original, x, y, c, dim_alpha)
                }),
            self.rendered_on(monitor, *original, *old(out), dim_alpha, *final(out)),
    {
        let same: bool = original.width == out.width && original.height == out.height
            && original.stride == out.stride && original.pixels.len() == out.pixels.len();
        if same {
            copy_run(&mut out.pixels, &original.pixels, 0, original.pixels.len());
            proof {
                assert(out.pixels@ =~= original.pixels@);
            }
        }
        darken(out, dim_alpha);
        if same && monitor == self.cursor_monitor {
            spotlight_hole(out, original, self.cursor, self.radius);
        }
    }
}

/// A darkened buffer's channel.
pub open spec fn darkened_chan(buf: DibBuffer, x: int, y: int, c: int, dim_alpha: u8) -> u8 {
    if c == 3 {
        buf.chan(x, y, c)
    } else {
        dimmed(buf.chan(x, y, c), dim_alpha)
    }
}

/// Wheel units are neither lost nor invented: while no clamp is hit, the
/// pixels and the bank together account for every unit received.
pub proof fn lemma_wheel_conserves_units(m: SpotlightMode, monitor: usize, at: Point, delta: int)
    requires
        m.wf(),
        MIN_RADIUS <= m.radius + whole_pixels(m.wheel_accum + delta) <= MAX_RADIUS,
    ensures
        ({
            let n = m.resized(monitor, at, delta);
            &&& n.wf()
            &&& n.radius * UNITS_PER_PIXEL + n.wheel_accum == m.radius * UNITS_PER_PIXEL
                + m.wheel_accum + delta
        }),
{
}

} // verus!
