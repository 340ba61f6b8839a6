//! Zoom layer: magnify the frozen screen around the cursor.

use super::ModeEffect;
use crate::geometry::{Point, Rect};
use crate::overlay::factor::{Factor, DEFAULT_STEP_BITS};
use vstd::prelude::*;

verus! {

/// Zoom layer state: cursor position and current magnification.
pub struct ZoomMode {
    pub cursor: Point,
    pub cursor_monitor: usize,
    pub zoom: Factor,
    pub step_factor: Factor,
    pub min: Factor,
    pub max: Factor,
}

/// Full repaints after a focus change: when the focus crossed to another
/// monitor, both change appearance.
pub open spec fn focus_repaints(old_monitor: usize, new_monitor: usize) -> Seq<
    (usize, Option<Rect>),
> {
    if old_monitor == new_monitor {
        seq![(new_monitor, None)]
    } else {
        seq![(old_monitor, None), (new_monitor, None)]
    }
}

fn full_repaint(old_monitor: usize, new_monitor: usize) -> (e: ModeEffect)
    ensures
        !e.exit,
        e.repaint@ == focus_repaints(old_monitor, new_monitor),
{
    if old_monitor == new_monitor {
        ModeEffect::repaint(new_monitor, None)
    } else {
        let mut effect = ModeEffect::none();
        effect.repaint.push((old_monitor, None));
        effect.repaint.push((new_monitor, None));
        proof {
            assert(effect.repaint@ =~= focus_repaints(old_monitor, new_monitor));
        }
        effect
    }
}

impl ZoomMode {
    /// The step zooms in, the range is a range, and it starts at 1.0 or above.
    pub open spec fn wf(self) -> bool {
        &&& Factor::one_spec().lt(self.step_factor)
        &&& !self.min.nan()
        &&& !self.max.nan()
        &&& !self.min.lt(Factor::one_spec())
        &&& !self.max.lt(self.min)
    }

    /// A step of at most 1.0 falls back to 1.25.
    pub open spec fn normal_step(step_factor: Factor) -> Factor {
        if Factor::one_spec().lt(step_factor) {
            step_factor
        } else {
            Factor { bits: DEFAULT_STEP_BITS }
        }
    }

    /// The layer as built from a configuration, at magnification `zoom`: the
    /// minimum is floored at 1.0 and the maximum raised to the minimum.
    pub open spec fn fresh(zoom: Factor, step_factor: Factor, min: Factor, max: Factor) -> ZoomMode {
        let low = min.larger_spec(Factor::one_spec());
        ZoomMode {
            cursor: Point { x: 0, y: 0 },
            cursor_monitor: 0,
            zoom,
            step_factor: ZoomMode::normal_step(step_factor),
            min: low,
            max: max.larger_spec(low),
        }
    }

    /// A layer at magnification 1.0 from settings: step (> 1.0), minimum
    /// (>= 1.0), maximum (> minimum). Values outside are normalized.
    pub fn new(step_factor: Factor, min: Factor, max: Factor) -> (r: Self)
        ensures
            r == ZoomMode::fresh(Factor::one_spec(), step_factor, min, max),
            r.wf(),
    {
        Self::with_zoom(Factor::one(), step_factor, min, max)
    }

    /// [`ZoomMode::new`] starting at magnification `zoom`.
    pub fn with_zoom(zoom: Factor, step_factor: Factor, min: Factor, max: Factor) -> (r: Self)
        ensures
            r == ZoomMode::fresh(zoom, step_factor, min, max),
            r.wf(),
    {
        let step_factor = if Factor::one().less_than(step_factor) {
            step_factor
        } else {
            Factor::from_bits(DEFAULT_STEP_BITS)
        };
        let min = min.larger(Factor::one());
        let max = max.larger(min);
        Self { cursor: Point::new(0, 0), cursor_monitor: 0, zoom, step_factor, min, max }
    }

    /// Current magnification (1.0 = none).
    pub fn zoom(&self) -> (r: Factor)
        ensures
            r == self.zoom,
    {
        self.zoom
    }

    /// Multiplier of one wheel notch.
    pub fn step_factor(&self) -> (r: Factor)
        ensures
            r == self.step_factor,
    {
        self.step_factor
    }

    /// Focus of the magnified view, monitor-local.
    pub fn cursor(&self) -> (r: Point)
        ensures
            r == self.cursor,
    {
        self.cursor
    }

    /// Monitor the magnified view is on.
    pub fn cursor_monitor(&self) -> (r: usize)
        ensures
            r == self.cursor_monitor,
    {
        self.cursor_monitor
    }

    /// Whether the focus is already `at` on `monitor`.
    pub open spec fn focused(self, monitor: usize, at: Point) -> bool {
        monitor == self.cursor_monitor && at == self.cursor
    }

    /// The layer focused on `at` at magnification `zoom`.
    pub open spec fn focused_at(self, monitor: usize, at: Point, zoom: Factor) -> ZoomMode {
        ZoomMode { cursor: at, cursor_monitor: monitor, zoom, ..self }
    }

    /// Tracks the cursor; the magnified view recenters on it.
    pub fn on_mouse_move(&mut self, monitor: usize, at: Point) -> (e: ModeEffect)
        ensures
            *final(self) == old(self).focused_at(monitor, at, old(self).zoom),
            !e.exit,
            e.repaint@ == (if old(self).focused(monitor, at) {
                Seq::<(usize, Option<Rect>)>::empty()
            } else {
                focus_repaints(old(self).cursor_monitor, monitor)
            }),
    {
        if monitor == self.cursor_monitor && at == self.cursor {
            return ModeEffect::none();
        }
        let old_monitor: usize = self.cursor_monitor;
        self.cursor = at;
        self.cursor_monitor = monitor;
        full_repaint(old_monitor, monitor)
    }

    /// Whether a wheel event at `at` that scales the magnification to `scaled`
    /// leaves the layer as it is.
    pub open spec fn wheel_is_noop(self, monitor: usize, at: Point, scaled: Factor) -> bool {
        scaled.clamped(self.min, self.max).same(self.zoom) && self.focused(monitor, at)
    }

    /// Applies a wheel event: `scaled` is the magnification times
    /// `step_factor^(delta / 120)`, clamped to the layer's range here. The
    /// wheel's position becomes the focus.
    pub fn on_wheel(&mut self, monitor: usize, at: Point, scaled: Factor) -> (e: ModeEffect)
        requires
            old(self).wf(),
        ensures
            final(self).wf(),
            !e.exit,
            if old(self).wheel_is_noop(monitor, at, scaled) {
                *final(self) == *old(self) && e.repaint@.len() == 0
            } else {
                &&& *final(self) == old(self).focused_at(
                    monitor,
                    at,
                    scaled.clamped(old(self).min, old(self).max),
                )
                &&& e.repaint@ == focus_repaints(old(self).cursor_monitor, monitor)
            },
    {
        let new_zoom: Factor = scaled.clamp(self.min, self.max);
        if new_zoom.equals(self.zoom) && monitor == self.cursor_monitor && at == self.cursor {
            return ModeEffect::none();
        }
        let old_monitor: usize = self.cursor_monitor;
        self.zoom = new_zoom;
        self.cursor = at;
        self.cursor_monitor = monitor;
        full_repaint(old_monitor, monitor)
    }

    /// Magnification 1.0 again; repaints the focus monitor.
    pub fn reset_view(&mut self) -> (e: ModeEffect)
        ensures
            *final(self) == (ZoomMode { zoom: Factor::one_spec(), ..*old(self) }),
            !e.exit,
            e.repaint@ == seq![(old(self).cursor_monitor, None::<Rect>)],
    {
        self.zoom = Factor::one();
        ModeEffect::repaint(self.cursor_monitor, None)
    }
}

/// A wheel event on a number never leaves the configured range.
pub proof fn lemma_wheel_stays_in_range(m: ZoomMode, scaled: Factor)
    requires
        m.wf(),
        !scaled.nan(),
    ensures
        !scaled.clamped(m.min, m.max).lt(m.min),
        !m.max.lt(scaled.clamped(m.min, m.max)),
{
}

} // verus!
