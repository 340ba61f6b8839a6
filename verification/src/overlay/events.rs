//! Overlay input events every platform's overlay surface delivers.

use crate::geometry::Point;
use crate::hotkeys::gesture::Modifiers;
use vstd::prelude::*;

verus! {

/// Events an overlay surface reports to the controller. Coordinates are
/// monitor-local physical pixels of the monitor the event occurred on.
#[derive(Clone, Copy, PartialEq, Eq, Structural, Debug)]
pub enum OverlayEvent {
    MouseMove { at: Point },
    /// `delta` is the raw wheel delta, 120 per notch; positive is away from
    /// the user. Smooth-scroll hardware sends less than a notch at a time.
    MouseWheel { at: Point, delta: i32, modifiers: Modifiers },
    LeftButtonDown { at: Point },
    LeftButtonUp { at: Point },
    /// `vk` is a virtual-key code; `modifiers` is the state at event time.
    KeyDown { vk: u32, modifiers: Modifiers },
}

} // verus!
