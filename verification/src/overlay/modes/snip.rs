//! Snip layer: drag a rectangle on the frozen screen.

use super::{ModeEffect, SnipSelection};
use crate::geometry::{max_i64, min_i64, Point, Rect};
use vstd::math::{max, min};
use vstd::prelude::*;

verus! {

/// Rectangle between two drag endpoints given in any direction.
pub open spec fn drag_rect(a: Point, b: Point) -> Rect {
    Rect::of_edges(
        min(a.x as int, b.x as int),
        min(a.y as int, b.y as int),
        max(a.x as int, b.x as int),
        max(a.y as int, b.y as int),
    )
}

/// Rectangle between two drag endpoints given in any direction.
pub fn norm_rect(a: Point, b: Point) -> (r: Rect)
    ensures
        r == drag_rect(a, b),
        r.x == min(a.x as int, b.x as int),
        r.y == min(a.y as int, b.y as int),
        r.right_edge() == max(a.x as int, b.x as int),
        r.bottom_edge() == max(a.y as int, b.y as int),
{
    Rect::from_edges(
        min_i64(a.x as i64, b.x as i64),
        min_i64(a.y as i64, b.y as i64),
        max_i64(a.x as i64, b.x as i64),
        max_i64(a.y as i64, b.y as i64),
    )
}

/// Repaint region of a selection rectangle: the rectangle plus its outer
/// border of one pixel.
pub open spec fn grown(r: Rect) -> Rect {
    Rect::of_edges(r.x - 1, r.y - 1, r.right_edge() + 1, r.bottom_edge() + 1)
}

/// Repaint region of a selection rectangle: the rectangle plus its outer
/// border of one pixel. Unclipped.
fn selection_dirty(r: Rect) -> (d: Rect)
    ensures
        d == grown(r),
{
    Rect::from_edges(r.x as i64 - 1, r.y as i64 - 1, r.right() + 1, r.bottom() + 1)
}

/// Snip layer state: optional in-progress or finished drag.
///
/// Left button down starts a drag, move extends it, button up finishes it. The
/// selection persists until a new drag starts or the layer is dropped.
pub struct SnipMode {
    pub selection: Option<SnipSelection>,
    pub dragging: bool,
}

impl SnipMode {
    pub fn new() -> (r: Self)
        ensures
            r.selection is None,
            !r.dragging,
    {
        Self { selection: None, dragging: false }
    }

    /// The current selection, if any (monitor-local endpoints in any drag
    /// direction).
    pub fn snip_selection(&self) -> (r: Option<SnipSelection>)
        ensures
            r == self.selection,
    {
        self.selection
    }

    /// Whether a move to `at` on `monitor` extends the drag.
    pub open spec fn extends(self, monitor: usize, at: Point) -> bool {
        &&& self.dragging
        &&& self.selection matches Some(sel) && sel.monitor == monitor && sel.b != at
    }

    /// The selection dragged on to `at`.
    pub open spec fn dragged_to(self, at: Point) -> Option<SnipSelection> {
        match self.selection {
            Some(sel) => Some(SnipSelection { b: at, ..sel }),
            None => None,
        }
    }

    /// Region of the current selection united with the region it has when
    /// dragged to `at`.
    pub open spec fn drag_region(self, at: Point) -> Rect {
        match self.selection {
            Some(sel) => grown(drag_rect(sel.a, sel.b).union_spec(drag_rect(sel.a, at))),
            None => arbitrary(),
        }
    }

    /// While dragging: extends the selection and asks to repaint the union of
    /// its old and new regions. Otherwise nothing happens. The drag stays on
    /// the monitor where the button went down.
    pub fn on_mouse_move(&mut self, monitor: usize, at: Point) -> (e: ModeEffect)
        ensures
            final(self).dragging == old(self).dragging,
            !e.exit,
            if old(self).extends(monitor, at) {
                &&& final(self).selection == old(self).dragged_to(at)
                &&& e.repaint@ == seq![(monitor, Some(old(self).drag_region(at)))]
            } else {
                final(self).selection == old(self).selection && e.repaint@.len() == 0
            },
    {
        if !self.dragging {
            return ModeEffect::none();
        }
        match self.selection {
            None => ModeEffect::none(),
            Some(sel) => {
                if sel.monitor != monitor || sel.b == at {
                    return ModeEffect::none();
                }
                let old_rect = norm_rect(sel.a, sel.b);
                let new_rect = norm_rect(sel.a, at);
                self.selection = Some(SnipSelection { monitor, a: sel.a, b: at });
                ModeEffect::repaint(monitor, Some(selection_dirty(old_rect.union(&new_rect))))
            },
        }
    }

    /// Starts a new selection, replacing any existing one. The repaint covers
    /// the old selection's region; the new one starts with zero area.
    pub fn on_left_button_down(&mut self, monitor: usize, at: Point) -> (e: ModeEffect)
        ensures
            final(self).dragging,
            final(self).selection == Some(SnipSelection { monitor, a: at, b: at }),
            !e.exit,
            e.repaint@ == (match old(self).selection {
                Some(o) => if drag_rect(o.a, o.b).empty() {
                    Seq::<(usize, Option<Rect>)>::empty()
                } else {
                    seq![(o.monitor, Some(grown(drag_rect(o.a, o.b))))]
                },
                None => Seq::<(usize, Option<Rect>)>::empty(),
            }),
    {
        self.dragging = true;
        let old_selection = self.selection;
        self.selection = Some(SnipSelection { monitor, a: at, b: at });
        match old_selection {
            Some(o) => {
                let r = norm_rect(o.a, o.b);
                if r.is_empty() {
                    ModeEffect::none()
                } else {
                    ModeEffect::repaint(o.monitor, Some(selection_dirty(r)))
                }
            },
            None => ModeEffect::none(),
        }
    }

    /// What the release of the button at `at` on `monitor` makes of the layer
    /// (`after`) and which repaints it asks for. A zero-area drag clears the
    /// selection; a release on another monitor finishes at the last tracked
    /// point.
    pub open spec fn finished(
        self,
        monitor: usize,
        at: Point,
        after: SnipMode,
        repaints: Seq<(usize, Option<Rect>)>,
    ) -> bool {
        &&& !after.dragging
        &&& match self.selection {
            Some(sel) if self.dragging => {
                let before_rect = drag_rect(sel.a, sel.b);
                let after_rect = drag_rect(sel.a, at);
                if sel.monitor != monitor {
                    &&& after.selection == (if before_rect.empty() {
                        None
                    } else {
                        self.selection
                    })
                    &&& repaints.len() == 0
                } else if after_rect.empty() {
                    &&& after.selection is None
                    &&& repaints == (if before_rect.empty() {
                        Seq::<(usize, Option<Rect>)>::empty()
                    } else {
                        seq![(monitor, Some(grown(before_rect)))]
                    })
                } else {
                    &&& after.selection == self.dragged_to(at)
                    &&& repaints == seq![(monitor, Some(self.drag_region(at)))]
                }
            },
            _ => after.selection == self.selection && repaints.len() == 0,
        }
    }

    /// Finishes the current drag. A zero-area drag clears the selection; a
    /// release on another monitor finishes at the last tracked point.
    pub fn on_left_button_up(&mut self, monitor: usize, at: Point) -> (e: ModeEffect)
        ensures
            !e.exit,
            old(self).finished(monitor, at, *final(self), e.repaint@),
    {
        if !self.dragging {
            return ModeEffect::none();
        }
        self.dragging = false;
        match self.selection {
            None => ModeEffect::none(),
            Some(sel) => {
                let old_rect = norm_rect(sel.a, sel.b);
                if sel.monitor != monitor {
                    if old_rect.is_empty() {
                        self.selection = None;
                    }
                    return ModeEffect::none();
                }
                let new_rect = norm_rect(sel.a, at);
                if new_rect.is_empty() {
                    // A plain click clears the selection; repaint whatever
                    // the previous frame of the drag had rendered.
                    self.selection = None;
                    if old_rect.is_empty() {
                        ModeEffect::none()
                    } else {
                        ModeEffect::repaint(monitor, Some(selection_dirty(old_rect)))
                    }
                } else {
                    self.selection = Some(SnipSelection { monitor, a: sel.a, b: at });
                    ModeEffect::repaint(monitor, Some(selection_dirty(old_rect.union(&new_rect))))
                }
            },
        }
    }
}

impl Default for SnipMode {
    fn default() -> (r: Self)
        ensures
            r.selection is None,
            !r.dragging,
    {
        Self::new()
    }
}

/// A selection never leaves the monitor its drag started on: neither a move
/// nor a release changes the monitor or the anchor of an ongoing drag.
pub proof fn lemma_drag_keeps_anchor(m: SnipMode, at: Point)
    requires
        m.selection is Some,
    ensures
        m.dragged_to(at) matches Some(sel) && sel.monitor == m.selection->0.monitor && sel.a
            == m.selection->0.a,
{
}

/// The repaint region of a drag step covers both the selection before and the
/// selection after it, wherever the region keeps clear of the 32-bit edges.
pub proof fn lemma_drag_region_covers(m: SnipMode, at: Point, px: int, py: int)
    requires
        m.selection is Some,
        i32::MIN < px < i32::MAX,
        i32::MIN < py < i32::MAX,
        drag_rect(m.selection->0.a, m.selection->0.b).covers(px, py) || drag_rect(
            m.selection->0.a,
            at,
        ).covers(px, py),
    ensures
        m.drag_region(at).covers(px, py),
{
}

} // verus!
