//! Overlay mode layers and the stack that combines them.
//!
//! - **Spotlight** is toggled: added when inactive, removed when active. With
//!   no layer left the screen stays frozen but unveiled.
//! - **Capture** stashes the spotlight and zoom layers and activates a fresh
//!   snip layer; leaving it brings the stashed layers back as they were.
//! - **Zoom hold** is a layer that comes back at the last-used factor.
//! - The wheel reaches the spotlight while its modifier is held, and the zoom
//!   layer with the zoom modifier (which activates it) or, once active, with
//!   no modifier at all.

use crate::geometry::{Point, Rect};
use crate::hotkeys::gesture::Modifiers;
use crate::overlay::composite::RenderState;
use crate::overlay::factor::Factor;
use self::zoom::focus_repaints;
use vstd::prelude::*;

pub mod snip;
pub mod spotlight;
pub mod zoom;

pub use snip::SnipMode;
pub use spotlight::SpotlightMode;
pub use zoom::ZoomMode;

verus! {

/// Which overlay mode (layer) is meant.
#[derive(Clone, Copy, PartialEq, Eq, Structural, Hash, Debug)]
pub enum ModeKind {
    Spotlight,
    Zoom,
    Snip,
}

/// What the controller must do after the mode stack handled an event.
#[derive(Clone, Debug, PartialEq, Eq)]
pub struct ModeEffect {
    /// `(monitor_index, dirty_region)` pairs to repaint, the region in
    /// monitor-local physical pixels; `None` = the whole monitor.
    pub repaint: Vec<(usize, Option<Rect>)>,
    /// A mode asks the controller to unfreeze.
    pub exit: bool,
}

impl ModeEffect {
    /// No repaint, no exit.
    pub fn none() -> (r: Self)
        ensures
            r.repaint@ == Seq::<(usize, Option<Rect>)>::empty(),
            !r.exit,
    {
        Self { repaint: Vec::new(), exit: false }
    }

    /// Repaint one monitor (`None` dirty = full monitor), no exit.
    pub fn repaint(monitor: usize, dirty: Option<Rect>) -> (r: Self)
        ensures
            r.repaint@ == seq![(monitor, dirty)],
            !r.exit,
    {
        let mut repaint: Vec<(usize, Option<Rect>)> = Vec::new();
        repaint.push((monitor, dirty));
        proof {
            assert(repaint@ =~= seq![(monitor, dirty)]);
        }
        Self { repaint, exit: false }
    }

    /// Merge `other` into `self`: repaints append in order, `exit` is sticky.
    pub fn absorb(&mut self, other: ModeEffect)
        ensures
            final(self).repaint@ == old(self).repaint@ + other.repaint@,
            final(self).exit == (old(self).exit || other.exit),
    {
        let mut other = other;
        self.repaint.append(&mut other.repaint);
        self.exit = self.exit || other.exit;
    }
}

impl Default for ModeEffect {
    fn default() -> (r: Self)
        ensures
            r.repaint@ == Seq::<(usize, Option<Rect>)>::empty(),
            !r.exit,
    {
        Self::none()
    }
}

/// A snip drag: two endpoints in monitor-local physical pixels on `monitor`,
/// in any drag direction.
#[derive(Clone, Copy, PartialEq, Eq, Structural, Debug)]
pub struct SnipSelection {
    pub monitor: usize,
    pub a: Point,
    pub b: Point,
}

/// Construction parameters for a [`ModeStack`], taken from settings at freeze
/// time.
#[derive(Clone, Copy, Debug, PartialEq, Eq, Structural)]
pub struct ModeParams {
    /// Spotlight circle radius at activation.
    pub spotlight_radius: u32,
    /// Modifier held while scrolling to resize the spotlight circle.
    pub radius_modifier: Modifiers,
    /// Zoom wheel step factor (> 1.0).
    pub zoom_step: Factor,
    /// Minimum zoom (>= 1.0).
    pub zoom_min: Factor,
    /// Maximum zoom (> min).
    pub zoom_max: Factor,
    /// Modifier held while scrolling to zoom from any state.
    pub zoom_modifier: Modifiers,
}

/// Layers set aside while capture mode is active.
pub struct SavedLayers {
    pub spotlight: Option<SpotlightMode>,
    pub zoom: Option<ZoomMode>,
}

/// The mode state of one freeze session.
pub struct ModeStack {
    pub params: ModeParams,
    pub spotlight: Option<SpotlightMode>,
    pub zoom: Option<ZoomMode>,
    pub snip: Option<SnipMode>,
    /// Factor the zoom layer re-activates with.
    pub last_zoom: Factor,
    /// `Some` exactly while capture mode is active.
    pub saved: Option<SavedLayers>,
}

/// The effect of a layer that is absent: no repaints.
pub open spec fn no_repaints() -> Seq<(usize, Option<Rect>)> {
    Seq::empty()
}

impl ModeStack {
    /// Every layer, stashed ones included, is well formed.
    pub open spec fn wf(self) -> bool {
        &&& (self.spotlight matches Some(s) ==> s.wf())
        &&& (self.zoom matches Some(z) ==> z.wf())
        &&& (self.saved matches Some(saved) ==> {
            &&& (saved.spotlight matches Some(s) ==> s.wf())
            &&& (saved.zoom matches Some(z) ==> z.wf())
        })
    }

    pub open spec fn active(self, kind: ModeKind) -> bool {
        match kind {
            ModeKind::Spotlight => self.spotlight is Some,
            ModeKind::Zoom => self.zoom is Some,
            ModeKind::Snip => self.snip is Some,
        }
    }

    /// A freshly activated spotlight layer.
    pub open spec fn fresh_spotlight(self) -> SpotlightMode {
        SpotlightMode::fresh(self.params.spotlight_radius, self.params.radius_modifier)
    }

    /// A freshly activated zoom layer, at the last-used factor.
    pub open spec fn fresh_zoom(self) -> ZoomMode {
        ZoomMode::fresh(
            self.last_zoom,
            self.params.zoom_step,
            self.params.zoom_min,
            self.params.zoom_max,
        )
    }

    pub open spec fn fresh_snip() -> SnipMode {
        SnipMode { selection: None, dragging: false }
    }

    /// The stack with `kind`'s layer (re)built.
    pub open spec fn activated(self, kind: ModeKind) -> ModeStack {
        match kind {
            ModeKind::Spotlight => ModeStack { spotlight: Some(self.fresh_spotlight()), ..self },
            ModeKind::Zoom => ModeStack { zoom: Some(self.fresh_zoom()), ..self },
            ModeKind::Snip => ModeStack { snip: Some(ModeStack::fresh_snip()), ..self },
        }
    }

    /// The stack with `kind`'s layer removed; removing the zoom layer banks
    /// its factor.
    pub open spec fn deactivated(self, kind: ModeKind) -> ModeStack {
        match kind {
            ModeKind::Spotlight => ModeStack { spotlight: None, ..self },
            ModeKind::Zoom => ModeStack {
                zoom: None,
                last_zoom: match self.zoom {
                    Some(z) => z.zoom,
                    None => self.last_zoom,
                },
                ..self
            },
            ModeKind::Snip => ModeStack { snip: None, ..self },
        }
    }

    /// The stack in capture mode: layers stashed (once), fresh snip layer.
    pub open spec fn capturing(self) -> ModeStack {
        if self.saved is None {
            ModeStack {
                spotlight: None,
                zoom: None,
                snip: Some(ModeStack::fresh_snip()),
                saved: Some(SavedLayers { spotlight: self.spotlight, zoom: self.zoom }),
                ..self
            }
        } else {
            ModeStack { snip: Some(ModeStack::fresh_snip()), ..self }
        }
    }

    /// The stack out of capture mode: stashed layers back, snip layer gone.
    pub open spec fn released(self) -> ModeStack {
        match self.saved {
            Some(saved) => ModeStack {
                spotlight: saved.spotlight,
                zoom: saved.zoom,
                snip: None,
                saved: None,
                ..self
            },
            None => ModeStack { snip: None, ..self },
        }
    }

    /// The stack with every layer reset and only `kind` active; for the snip
    /// kind, the stack in capture mode.
    pub open spec fn switched(self, kind: ModeKind) -> ModeStack {
        if kind == ModeKind::Snip {
            self.capturing()
        } else {
            (ModeStack {
                spotlight: None,
                zoom: None,
                snip: None,
                last_zoom: Factor::one_spec(),
                saved: None,
                ..self
            }).activated(kind)
        }
    }

    /// The state of a freeze that just began: spotlight only, zoom hold at
    /// 1.0.
    pub open spec fn initial(params: ModeParams) -> ModeStack {
        ModeStack {
            params,
            spotlight: Some(
                SpotlightMode::fresh(params.spotlight_radius, params.radius_modifier),
            ),
            zoom: None,
            snip: None,
            last_zoom: Factor::one_spec(),
            saved: None,
        }
    }

    /// Freeze-time initial state: Spotlight is the only active layer and the
    /// zoom hold starts at 1.0.
    pub fn new(params: ModeParams) -> (r: Self)
        ensures
            r == ModeStack::initial(params),
            r.wf(),
    {
        Self {
            spotlight: Some(SpotlightMode::new(params.spotlight_radius, params.radius_modifier)),
            zoom: None,
            snip: None,
            last_zoom: Factor::one(),
            saved: None,
            params,
        }
    }

    /// `true` while `kind`'s layer is active.
    pub fn is_active(&self, kind: ModeKind) -> (r: bool)
        ensures
            r == self.active(kind),
    {
        match kind {
            ModeKind::Spotlight => self.spotlight.is_some(),
            ModeKind::Zoom => self.zoom.is_some(),
            ModeKind::Snip => self.snip.is_some(),
        }
    }

    /// Some layer is active.
    pub open spec fn any_layer(self) -> bool {
        self.spotlight is Some || self.zoom is Some || self.snip is Some
    }

    /// `true` while any layer is active.
    pub fn any_active(&self) -> (r: bool)
        ensures
            r == self.any_layer(),
    {
        self.spotlight.is_some() || self.zoom.is_some() || self.snip.is_some()
    }

    /// The spotlight layer.
    pub fn spotlight(&self) -> (r: Option<&SpotlightMode>)
        ensures
            match r {
                Some(s) => self.spotlight == Some(*s),
                None => self.spotlight is None,
            },
    {
        self.spotlight.as_ref()
    }

    /// The zoom layer.
    pub fn zoom(&self) -> (r: Option<&ZoomMode>)
        ensures
            match r {
                Some(z) => self.zoom == Some(*z),
                None => self.zoom is None,
            },
    {
        self.zoom.as_ref()
    }

    /// The snip layer.
    pub fn snip(&self) -> (r: Option<&SnipMode>)
        ensures
            match r {
                Some(s) => self.snip == Some(*s),
                None => self.snip is None,
            },
    {
        self.snip.as_ref()
    }

    /// Plain mode key. The snip kind enters capture mode; every other kind is
    /// a full switch: all mode state is reset and `kind` is the only active
    /// layer.
    pub fn set_mode(&mut self, kind: ModeKind)
        requires
            old(self).wf(),
        ensures
            *final(self) == old(self).switched(kind),
            final(self).wf(),
    {
        if kind == ModeKind::Snip {
            self.enter_capture();
            return;
        }
        self.spotlight = None;
        self.zoom = None;
        self.snip = None;
        self.last_zoom = Factor::one();
        self.saved = None;
        self.activate(kind);
    }

    /// Add `kind`'s layer without touching the existing ones; nothing happens
    /// when it is already active.
    pub fn add_mode(&mut self, kind: ModeKind)
        requires
            old(self).wf(),
        ensures
            *final(self) == (if old(self).active(kind) {
                *old(self)
            } else {
                old(self).activated(kind)
            }),
            final(self).wf(),
    {
        if self.is_active(kind) {
            return;
        }
        self.activate(kind);
    }

    /// Toggle key: remove `kind`'s layer when active, add it when not.
    pub fn toggle_mode(&mut self, kind: ModeKind)
        requires
            old(self).wf(),
        ensures
            *final(self) == (if old(self).active(kind) {
                old(self).deactivated(kind)
            } else {
                old(self).activated(kind)
            }),
            final(self).wf(),
    {
        if self.is_active(kind) {
            match kind {
                ModeKind::Spotlight => {
                    self.spotlight = None;
                },
                ModeKind::Zoom => {
                    let banked: Factor = match &self.zoom {
                        Some(z) => z.zoom(),
                        None => self.last_zoom,
                    };
                    self.zoom = None;
                    self.last_zoom = banked;
                },
                ModeKind::Snip => {
                    self.snip = None;
                },
            }
            return;
        }
        self.activate(kind);
    }

    /// Activate `kind`'s layer: fresh state for spotlight and snip, the
    /// last-used factor for the zoom hold.
    fn activate(&mut self, kind: ModeKind)
        requires
            old(self).wf(),
        ensures
            *final(self) == old(self).activated(kind),
            final(self).wf(),
    {
        match kind {
            ModeKind::Spotlight => {
                self.spotlight = Some(
                    SpotlightMode::new(self.params.spotlight_radius, self.params.radius_modifier),
                );
            },
            ModeKind::Zoom => {
                self.zoom = Some(
                    ZoomMode::with_zoom(
                        self.last_zoom,
                        self.params.zoom_step,
                        self.params.zoom_min,
                        self.params.zoom_max,
                    ),
                );
            },
            ModeKind::Snip => {
                self.snip = Some(SnipMode::new());
            },
        }
    }

    /// Enter capture mode: stash the spotlight and zoom layers and activate a
    /// fresh snip layer. Entering again only resets the snip layer.
    pub fn enter_capture(&mut self)
        requires
            old(self).wf(),
        ensures
            *final(self) == old(self).capturing(),
            final(self).wf(),
    {
        if self.saved.is_none() {
            let spotlight = self.spotlight.take();
            let zoom = self.zoom.take();
            self.saved = Some(SavedLayers { spotlight, zoom });
        }
        self.snip = Some(SnipMode::new());
    }

    /// Leave capture mode: the stashed layers come back exactly as they were
    /// and the snip layer is dropped.
    pub fn exit_capture(&mut self)
        requires
            old(self).wf(),
        ensures
            *final(self) == old(self).released(),
            final(self).wf(),
    {
        match self.saved.take() {
            Some(saved) => {
                self.spotlight = saved.spotlight;
                self.zoom = saved.zoom;
            },
            None => {},
        }
        self.snip = None;
    }

    /// `true` while capture mode is active.
    pub fn in_capture(&self) -> (r: bool)
        ensures
            r == (self.saved is Some),
    {
        self.saved.is_some()
    }

    /// The spotlight layer after a move.
    pub open spec fn moved_spotlight(self, monitor: usize, at: Point) -> Option<SpotlightMode> {
        match self.spotlight {
            Some(s) => Some(s.moved(monitor, at)),
            None => None,
        }
    }

    /// The zoom layer after a move.
    pub open spec fn moved_zoom(self, monitor: usize, at: Point) -> Option<ZoomMode> {
        match self.zoom {
            Some(z) => Some(z.focused_at(monitor, at, z.zoom)),
            None => None,
        }
    }

    /// The snip layer after a move.
    pub open spec fn moved_snip(self, monitor: usize, at: Point) -> Option<SnipMode> {
        match self.snip {
            Some(s) => Some(
                if s.extends(monitor, at) {
                    SnipMode { selection: s.dragged_to(at), ..s }
                } else {
                    s
                },
            ),
            None => None,
        }
    }

    /// The stack after the cursor moved to `at` on `monitor`.
    pub open spec fn moved(self, monitor: usize, at: Point) -> ModeStack {
        ModeStack {
            spotlight: self.moved_spotlight(monitor, at),
            zoom: self.moved_zoom(monitor, at),
            snip: self.moved_snip(monitor, at),
            ..self
        }
    }

    /// Repaints a move asks for: the spotlight's, then the zoom layer's, then
    /// the snip layer's.
    pub open spec fn move_repaints(self, monitor: usize, at: Point) -> Seq<(usize, Option<Rect>)> {
        (match self.spotlight {
            Some(s) => s.repaints_to(s.moved(monitor, at)),
            None => no_repaints(),
        }) + (match self.zoom {
            Some(z) => if z.focused(monitor, at) {
                no_repaints()
            } else {
                focus_repaints(z.cursor_monitor, monitor)
            },
            None => no_repaints(),
        }) + (match self.snip {
            Some(s) => if s.extends(monitor, at) {
                seq![(monitor, Some(s.drag_region(at)))]
            } else {
                no_repaints()
            },
            None => no_repaints(),
        })
    }

    /// Seed the live cursor into every active layer after activation.
    pub fn seed_cursor(&mut self, monitor: usize, at: Point)
        requires
            old(self).wf(),
        ensures
            *final(self) == old(self).moved(monitor, at),
            final(self).wf(),
    {
        let _effect = self.on_mouse_move(monitor, at);
    }

    /// A mouse move feeds every active layer; effects merge.
    pub fn on_mouse_move(&mut self, monitor: usize, at: Point) -> (e: ModeEffect)
        requires
            old(self).wf(),
        ensures
            *final(self) == old(self).moved(monitor, at),
            final(self).wf(),
            !e.exit,
            e.repaint@ == old(self).move_repaints(monitor, at),
    {
        let mut effect = ModeEffect::none();
        match &mut self.spotlight {
            Some(spot) => {
                let e = spot.on_mouse_move(monitor, at);
                effect.absorb(e);
            },
            None => {},
        }
        match &mut self.zoom {
            Some(zoom) => {
                let e = zoom.on_mouse_move(monitor, at);
                effect.absorb(e);
            },
            None => {},
        }
        match &mut self.snip {
            Some(snip) => {
                let e = snip.on_mouse_move(monitor, at);
                effect.absorb(e);
            },
            None => {},
        }
        proof {
            assert(effect.repaint@ =~= old(self).move_repaints(monitor, at));
        }
        effect
    }

    /// The factor the next wheel event scales, and the multiplier of one
    /// notch.
    pub open spec fn scaling(self) -> (Factor, Factor) {
        match self.zoom {
            Some(z) => (z.zoom, z.step_factor),
            None => (self.last_zoom, ZoomMode::normal_step(self.params.zoom_step)),
        }
    }

    /// The factor the next wheel event scales, and the multiplier of one
    /// notch: those of the zoom layer, or of the one an event would activate.
    pub fn wheel_zoom(&self) -> (r: (Factor, Factor))
        ensures
            r == (match self.zoom {
                Some(z) => (z.zoom, z.step_factor),
                None => (self.last_zoom, ZoomMode::normal_step(self.params.zoom_step)),
            }),
            r == self.scaling(),
    {
        match &self.zoom {
            Some(z) => (z.zoom(), z.step_factor()),
            None => {
                let fresh = ZoomMode::with_zoom(
                    self.last_zoom,
                    self.params.zoom_step,
                    self.params.zoom_min,
                    self.params.zoom_max,
                );
                (fresh.zoom(), fresh.step_factor())
            },
        }
    }

    /// The stack once the zoom-modifier chord has added the zoom layer.
    pub open spec fn chorded(self, modifiers: Modifiers) -> ModeStack {
        if modifiers.holds(self.params.zoom_modifier) && self.zoom is None {
            self.activated(ModeKind::Zoom)
        } else {
            self
        }
    }

    /// Whether a wheel event with these modifiers reaches an active zoom layer.
    pub open spec fn zooms(self, modifiers: Modifiers) -> bool {
        modifiers.holds(self.params.zoom_modifier) || (!modifiers.alt && !modifiers.ctrl
            && !modifiers.shift && !modifiers.win)
    }

    /// The spotlight layer after a wheel event.
    pub open spec fn wheeled_spotlight(
        self,
        monitor: usize,
        at: Point,
        delta: i32,
        modifiers: Modifiers,
    ) -> Option<SpotlightMode> {
        match self.spotlight {
            Some(s) => Some(
                if modifiers.holds(s.radius_modifier) {
                    s.resized(monitor, at, delta as int)
                } else {
                    s
                },
            ),
            None => None,
        }
    }

    /// The zoom layer after a wheel event that scales its factor to `scaled`.
    pub open spec fn wheeled_zoom(
        self,
        monitor: usize,
        at: Point,
        modifiers: Modifiers,
        scaled: Factor,
    ) -> Option<ZoomMode> {
        match self.chorded(modifiers).zoom {
            Some(z) => Some(
                if self.zooms(modifiers) && !z.wheel_is_noop(monitor, at, scaled) {
                    z.focused_at(monitor, at, scaled.clamped(z.min, z.max))
                } else {
                    z
                },
            ),
            None => None,
        }
    }

    /// Repaints a wheel event asks for: the spotlight's, then the zoom layer's.
    pub open spec fn wheel_repaints(
        self,
        monitor: usize,
        at: Point,
        delta: i32,
        modifiers: Modifiers,
        scaled: Factor,
    ) -> Seq<(usize, Option<Rect>)> {
        (match self.spotlight {
            Some(s) => s.repaints_to(
                if modifiers.holds(s.radius_modifier) {
                    s.resized(monitor, at, delta as int)
                } else {
                    s
                },
            ),
            None => no_repaints(),
        }) + (match self.chorded(modifiers).zoom {
            Some(z) => if self.zooms(modifiers) && !z.wheel_is_noop(monitor, at, scaled) {
                focus_repaints(z.cursor_monitor, monitor)
            } else {
                no_repaints()
            },
            None => no_repaints(),
        })
    }

    /// Wheel routing. The spotlight is offered every event and applies its own
    /// modifier gate. The zoom-modifier chord reaches the zoom layer from any
    /// state, activating it at the last-used factor when needed; without any
    /// modifier the wheel reaches the zoom layer when it is active. `scaled` is
    /// [`ModeStack::wheel_zoom`]'s factor times its step to the power
    /// `delta / 120`.
    pub fn on_wheel(
        &mut self,
        monitor: usize,
        at: Point,
        delta: i32,
        modifiers: Modifiers,
        scaled: Factor,
    ) -> (e: ModeEffect)
        requires
            old(self).wf(),
        ensures
            final(self).wf(),
            !e.exit,
            *final(self) == (ModeStack {
                spotlight: old(self).wheeled_spotlight(monitor, at, delta, modifiers),
                zoom: old(self).wheeled_zoom(monitor, at, modifiers, scaled),
                ..*old(self)
            }),
            e.repaint@ == old(self).wheel_repaints(monitor, at, delta, modifiers, scaled),
    {
        let mut effect = ModeEffect::none();
        match &mut self.spotlight {
            Some(spot) => {
                let e = spot.on_wheel(monitor, at, delta, modifiers);
                effect.absorb(e);
            },
            None => {},
        }
        let zoom_chord: bool = modifiers.contains(self.params.zoom_modifier);
        if zoom_chord && self.zoom.is_none() {
            self.add_mode(ModeKind::Zoom);
        }
        if zoom_chord || modifiers.is_empty() {
            match &mut self.zoom {
                Some(zoom) => {
                    let e = zoom.on_wheel(monitor, at, scaled);
                    effect.absorb(e);
                },
                None => {},
            }
        }
        proof {
            assert(effect.repaint@ =~= old(self).wheel_repaints(
                monitor,
                at,
                delta,
                modifiers,
                scaled,
            ));
        }
        effect
    }

    /// What pressing the left button makes of the stack and which repaints it
    /// asks for: only an active snip layer answers.
    pub open spec fn pressed_as(
        self,
        monitor: usize,
        at: Point,
        after: ModeStack,
        repaints: Seq<(usize, Option<Rect>)>,
    ) -> bool {
        &&& after == (ModeStack { snip: after.snip, ..self })
        &&& match (self.snip, after.snip) {
            (Some(before), Some(now)) => {
                &&& now.dragging
                &&& now.selection == Some(SnipSelection { monitor, a: at, b: at })
                &&& repaints == (match before.selection {
                    Some(o) => if snip::drag_rect(o.a, o.b).empty() {
                        no_repaints()
                    } else {
                        seq![(o.monitor, Some(snip::grown(snip::drag_rect(o.a, o.b))))]
                    },
                    None => no_repaints(),
                })
            },
            (None, None) => repaints == no_repaints(),
            _ => false,
        }
    }

    /// What releasing the left button makes of the stack and which repaints it
    /// asks for: only an active snip layer answers.
    pub open spec fn raised_as(
        self,
        monitor: usize,
        at: Point,
        after: ModeStack,
        repaints: Seq<(usize, Option<Rect>)>,
    ) -> bool {
        &&& after == (ModeStack { snip: after.snip, ..self })
        &&& match (self.snip, after.snip) {
            (Some(before), Some(now)) => before.finished(monitor, at, now, repaints),
            (None, None) => repaints == no_repaints(),
            _ => false,
        }
    }

    /// Left button down feeds the snip layer when active (drag start).
    pub fn on_left_button_down(&mut self, monitor: usize, at: Point) -> (e: ModeEffect)
        requires
            old(self).wf(),
        ensures
            final(self).wf(),
            !e.exit,
            old(self).pressed_as(monitor, at, *final(self), e.repaint@),
    {
        match &mut self.snip {
            Some(snip) => snip.on_left_button_down(monitor, at),
            None => ModeEffect::none(),
        }
    }

    /// Left button up feeds the snip layer when active (drag finish).
    pub fn on_left_button_up(&mut self, monitor: usize, at: Point) -> (e: ModeEffect)
        requires
            old(self).wf(),
        ensures
            final(self).wf(),
            !e.exit,
            old(self).raised_as(monitor, at, *final(self), e.repaint@),
    {
        match &mut self.snip {
            Some(snip) => snip.on_left_button_up(monitor, at),
            None => ModeEffect::none(),
        }
    }

    /// Reset-view hotkey: zoom back to 1.0 when the zoom layer is active;
    /// nothing otherwise.
    pub fn reset_view(&mut self) -> (e: ModeEffect)
        requires
            old(self).wf(),
        ensures
            final(self).wf(),
            !e.exit,
            *final(self) == (ModeStack {
                zoom: match old(self).zoom {
                    Some(z) => Some(ZoomMode { zoom: Factor::one_spec(), ..z }),
                    None => None,
                },
                ..*old(self)
            }),
            e.repaint@ == (match old(self).zoom {
                Some(z) => seq![(z.cursor_monitor, None::<Rect>)],
                None => no_repaints(),
            }),
    {
        match &mut self.zoom {
            Some(zoom) => zoom.reset_view(),
            None => ModeEffect::none(),
        }
    }

    /// The selection, when the snip layer is active and has one.
    pub open spec fn selection(self) -> Option<SnipSelection> {
        match self.snip {
            Some(s) => s.selection,
            None => None,
        }
    }

    /// The current selection, when the snip layer is active and has one.
    pub fn snip_selection(&self) -> (r: Option<SnipSelection>)
        ensures
            r == self.selection(),
    {
        match &self.snip {
            Some(s) => s.snip_selection(),
            None => None,
        }
    }

    /// `(factor, focus)` when the zoom layer is active on `monitor`.
    pub open spec fn zoom_at(self, monitor: usize) -> Option<(Factor, Point)> {
        match self.zoom {
            Some(z) => if z.cursor_monitor == monitor {
                Some((z.zoom, z.cursor))
            } else {
                None
            },
            None => None,
        }
    }

    /// `(factor, focus)` when the zoom layer is active on `monitor`; `None`
    /// when zoom is inactive or focused on another monitor.
    pub fn zoom_on(&self, monitor: usize) -> (r: Option<(Factor, Point)>)
        ensures
            r == self.zoom_at(monitor),
    {
        match &self.zoom {
            Some(z) => if z.cursor_monitor() == monitor {
                Some((z.zoom(), z.cursor()))
            } else {
                None
            },
            None => None,
        }
    }

    /// What the layers contribute on `monitor`.
    pub open spec fn rendered(self, monitor: usize) -> RenderState {
        RenderState {
            zoom: self.zoom_at(monitor),
            spotlight: match self.spotlight {
                Some(s) => if s.cursor_monitor == monitor {
                    Some((s.cursor, s.radius))
                } else {
                    None
                },
                None => None,
            },
            snip: match self.selection() {
                Some(sel) => if sel.monitor == monitor {
                    Some((sel.a, sel.b))
                } else {
                    None
                },
                None => None,
            },
            capture: self.saved is Some,
        }
    }

    /// The per-monitor [`RenderState`]: each active layer contributes only on
    /// the monitor its state lives on.
    pub fn render_state(&self, monitor: usize) -> (r: RenderState)
        ensures
            r == self.rendered(monitor),
    {
        let spotlight: Option<(Point, u32)> = match &self.spotlight {
            Some(s) => if s.cursor_monitor() == monitor {
                Some((s.cursor(), s.radius()))
            } else {
                None
            },
            None => None,
        };
        let snip: Option<(Point, Point)> = match self.snip_selection() {
            Some(sel) => if sel.monitor == monitor {
                Some((sel.a, sel.b))
            } else {
                None
            },
            None => None,
        };
        RenderState { zoom: self.zoom_on(monitor), spotlight, snip, capture: self.in_capture() }
    }
}

/// Leaving capture mode undoes entering it: spotlight, zoom and the last-used
/// factor come back exactly as they were, and only the snip layer is gone.
pub proof fn lemma_capture_round_trip(s: ModeStack)
    requires
        s.saved is None,
    ensures
        s.capturing().released() == (ModeStack { snip: None, ..s }),
{
}

/// Entering capture again keeps the stash of the first entry.
pub proof fn lemma_capture_reentry(s: ModeStack)
    ensures
        s.capturing().capturing().saved == s.capturing().saved,
        s.capturing().capturing().released() == s.capturing().released(),
        s.capturing().selection() is None,
{
}

/// The pointer never touches the stash: moves, wheel chords and buttons leave
/// it as it is.
pub proof fn lemma_capture_stash_untouched(
    s: ModeStack,
    monitor: usize,
    at: Point,
    m: Modifiers,
    after: ModeStack,
    repaints: Seq<(usize, Option<Rect>)>,
)
    ensures
        s.moved(monitor, at).saved == s.saved,
        s.chorded(m).saved == s.saved,
        s.pressed_as(monitor, at, after, repaints) ==> after.saved == s.saved,
        s.raised_as(monitor, at, after, repaints) ==> after.saved == s.saved,
{
}

/// Toggling the zoom hold off and on again restores the last-used factor;
/// toggling the spotlight off and on again gives a fresh circle.
pub proof fn lemma_toggle_twice(s: ModeStack)
    ensures
        s.zoom matches Some(z) ==> s.deactivated(ModeKind::Zoom).activated(
            ModeKind::Zoom,
        ).zoom->0.zoom == z.zoom,
        s.deactivated(ModeKind::Spotlight).activated(ModeKind::Spotlight).spotlight == Some(
            s.fresh_spotlight(),
        ),
{
}

/// Toggling the last layer off leaves nothing active.
pub proof fn lemma_toggle_last_layer_off(s: ModeStack, kind: ModeKind)
    requires
        forall|k: ModeKind| s.active(k) ==> k == kind,
    ensures
        forall|k: ModeKind| !s.deactivated(kind).active(k),
{
    assert forall|k: ModeKind| !s.deactivated(kind).active(k) by {
        assert(s.active(k) ==> k == kind);
    }
}

/// Activating a layer leaves the other layers as they are.
pub proof fn lemma_activation_is_additive(s: ModeStack, kind: ModeKind)
    ensures
        kind != ModeKind::Spotlight ==> s.activated(kind).spotlight == s.spotlight,
        kind != ModeKind::Zoom ==> s.activated(kind).zoom == s.zoom,
        kind != ModeKind::Snip ==> s.activated(kind).snip == s.snip,
        s.activated(kind).active(kind),
{
}

/// A plain mode key makes its kind the only active layer, with nothing left of
/// the earlier state.
pub proof fn lemma_full_switch(s: ModeStack, kind: ModeKind)
    requires
        kind != ModeKind::Snip,
    ensures
        forall|k: ModeKind| s.switched(kind).active(k) <==> k == kind,
        s.switched(kind).selection() is None,
        s.switched(kind).saved is None,
        s.switched(kind).zoom matches Some(z) ==> z.zoom == Factor::one_spec(),
        s.switched(kind).spotlight matches Some(p) ==> p == s.fresh_spotlight(),
{
}

/// A wheel event without the zoom modifier never activates the zoom layer.
pub proof fn lemma_plain_wheel_never_activates(s: ModeStack, m: Modifiers)
    requires
        !m.holds(s.params.zoom_modifier),
    ensures
        s.chorded(m) == s,
{
}

/// Each layer renders on one monitor at most.
pub proof fn lemma_render_is_local(s: ModeStack, a: usize, b: usize)
    requires
        a != b,
    ensures
        s.rendered(a).spotlight is None || s.rendered(b).spotlight is None,
        s.rendered(a).zoom is None || s.rendered(b).zoom is None,
        s.rendered(a).snip is None || s.rendered(b).snip is None,
{
}

} // verus!
