//! Overlay surfaces on macOS: the persistent frame store, and what input
//! events become. Windows, views and drawing are the caller's part.

use crate::capture::{copy_run, DibBuffer};
use crate::geometry::{Point, Rect};
use crate::hotkeys::gesture::Modifiers;
use crate::hotkeys::keymap::{cg_keycode_to_vk, vk_of};
use crate::overlay::composite::size_fits;
use crate::overlay::events::OverlayEvent;
use crate::overlay::window::copy_region;
use vstd::arithmetic::div_mod::lemma_fundamental_div_mod;
use vstd::prelude::*;

verus! {

/// Clamp a monitor-local region to the store's bounds; `None` when nothing is
/// left.
pub fn clamp_to_store(r: Rect, width: u32, height: u32) -> (c: Option<Rect>)
    ensures
        c is None <==> forall|x: int, y: int|
            0 <= x < width && 0 <= y < height ==> !#[trigger] r.covers(x, y),
        c matches Some(k) ==> !k.empty() && forall|x: int, y: int| #[trigger]
            k.covers(x, y) <==> r.covers(x, y) && 0 <= x < width && 0 <= y < height,
{
    let bounds = Rect::new(0, 0, width, height);
    let c = r.intersection(&bounds);
    proof {
        assert forall|x: int, y: int| #[trigger] r.covers(x, y) implies (bounds.covers(x, y) <==> 0
            <= x < width && 0 <= y < height) by {}
        if c is Some {
            let k = c->0;
            assert(k.covers(k.x as int, k.y as int));
        }
    }
    c
}

/// Why a frame was refused.
#[derive(Clone, Copy, PartialEq, Eq, Structural, Debug)]
pub enum SurfaceError {
    /// The frame's layout does not match the surface.
    LayoutMismatch,
    /// The monitor is too large for a surface.
    TooLarge,
}

/// Which part of the view is to be drawn.
#[derive(Clone, Copy, PartialEq, Eq, Structural, Debug)]
pub enum Invalidate {
    Whole,
    /// This monitor-local region.
    Region(Rect),
}

/// One overlay surface: the pixels it shows.
pub struct MacOverlaySurface {
    pub width: u32,
    pub height: u32,
    /// BGRA rows, top-down, tightly packed.
    pub pixels: Vec<u8>,
}

impl MacOverlaySurface {
    pub open spec fn wf(self) -> bool {
        &&& size_fits(self.width, self.height)
        &&& self.pixels@.len() == self.width * 4 * self.height
    }

    /// A surface for a monitor rectangle, all zero.
    pub fn new(rect: Rect) -> (r: Result<Self, SurfaceError>)
        ensures
            match r {
                Ok(s) => {
                    &&& size_fits(rect.width, rect.height)
                    &&& s.wf()
                    &&& s.width == rect.width
                    &&& s.height == rect.height
                    &&& forall|i: int| 0 <= i < s.pixels@.len() ==> #[trigger] s.pixels@[i] == 0
                },
                Err(e) => !size_fits(rect.width, rect.height) && e == SurfaceError::TooLarge,
            },
    {
        if rect.width > 0x3fff_ffff {
            return Err(SurfaceError::TooLarge);
        }
        proof {
            assert(0 <= rect.width * 4 * rect.height <= 0xffff_ffff * 0xffff_ffff)
                by (nonlinear_arith)
                requires
                    0 <= rect.width * 4 <= 0xffff_ffff,
                    0 <= rect.height <= 0xffff_ffff,
            ;
        }
        let len: u128 = rect.width as u128 * 4 * rect.height as u128;
        if len > usize::MAX as u128 {
            return Err(SurfaceError::TooLarge);
        }
        Ok(Self { width: rect.width, height: rect.height, pixels: vec![0; len as usize] })
    }

    /// Whether a frame has the surface's layout.
    pub open spec fn accepts(self, frame: DibBuffer) -> bool {
        frame.width == self.width && frame.height == self.height && frame.stride == frame.width * 4
    }

    /// What presenting `frame`, or its `dirty` region, makes of the surface, and
    /// what is answered.
    pub open spec fn presented(
        before: MacOverlaySurface,
        frame: DibBuffer,
        dirty: Option<Rect>,
        after: MacOverlaySurface,
        r: Result<Invalidate, SurfaceError>,
    ) -> bool {
        &&& after.wf()
        &&& after.width == before.width
        &&& after.height == before.height
        &&& match r {
            Err(e) => {
                &&& e == SurfaceError::LayoutMismatch
                &&& !before.accepts(frame)
                &&& after.pixels@ == before.pixels@
            },
            Ok(what) => {
                &&& before.accepts(frame)
                &&& forall|i: int|
                    0 <= i < frame.pixels@.len() ==> #[trigger] after.pixels@[i] == (
                    match dirty {
                        None => frame.pixels@[i],
                        Some(d) => if d.covers(
                            i % (before.width * 4) / 4,
                            i / (before.width * 4),
                        ) {
                            frame.pixels@[i]
                        } else {
                            before.pixels@[i]
                        },
                    })
                &&& match (dirty, what) {
                    (None, Invalidate::Whole) => true,
                    (Some(d), Invalidate::Whole) => forall|x: int, y: int|
                        0 <= x < before.width && 0 <= y < before.height ==> !#[trigger] d.covers(
                            x,
                            y,
                        ),
                    (Some(d), Invalidate::Region(k)) => !k.empty() && forall|x: int, y: int| #[trigger]
                        k.covers(x, y) <==> d.covers(x, y) && 0 <= x < before.width && 0 <= y
                            < before.height,
                    (None, Invalidate::Region(_)) => false,
                }
            },
        }
    }

    /// Bring `frame`, or only its `dirty` region, into the store and say what
    /// to draw. A region outside the store leaves it as it is, and the whole
    /// view is drawn.
    pub fn present(&mut self, frame: &DibBuffer, dirty: Option<Rect>) -> (r: Result<
        Invalidate,
        SurfaceError,
    >)
        requires
            old(self).wf(),
            frame.pixels@.len() == frame.stride * frame.height,
        ensures
            final(self).wf(),
            final(self).width == old(self).width,
            final(self).height == old(self).height,
            match r {
                Err(e) => {
                    &&& e == SurfaceError::LayoutMismatch
                    &&& !old(self).accepts(*frame)
                    &&& final(self).pixels@ == old(self).pixels@
                },
                Ok(what) => {
                    &&& old(self).accepts(*frame)
                    &&& forall|i: int|
                        0 <= i < frame.pixels@.len() ==> #[trigger] final(self).pixels@[i] == (
                        match dirty {
                            None => frame.pixels@[i],
                            Some(d) => if d.covers(
                                i % (old(self).width * 4) / 4,
                                i / (old(self).width * 4),
                            ) {
                                frame.pixels@[i]
                            } else {
                                old(self).pixels@[i]
                            },
                        })
                    &&& match (dirty, what) {
                        (None, Invalidate::Whole) => true,
                        (Some(d), Invalidate::Whole) => forall|x: int, y: int|
                            0 <= x < old(self).width && 0 <= y < old(self).height ==> !#[trigger] d.covers(
                                x,
                                y,
                            ),
                        (Some(d), Invalidate::Region(k)) => !k.empty() && forall|x: int, y: int| #[trigger]
                            k.covers(x, y) <==> d.covers(x, y) && 0 <= x < old(self).width && 0 <= y
                                < old(self).height,
                        (None, Invalidate::Region(_)) => false,
                    }
                },
            },
            MacOverlaySurface::presented(*old(self), *frame, dirty, *final(self), r),
    {
        let w: u32 = self.width;
        let h: u32 = self.height;
        if frame.width != w || frame.height != h || frame.stride as u64 != frame.width as u64 * 4 {
            return Err(SurfaceError::LayoutMismatch);
        }
        let stride: usize = w as usize * 4;
        let ghost before = self.pixels@;
        match dirty {
            None => {
                copy_run(&mut self.pixels, &frame.pixels, 0, frame.pixels.len());
                Ok(Invalidate::Whole)
            },
            Some(d) => {
                match clamp_to_store(d, w, h) {
                    None => {
                        proof {
                            assert forall|i: int|
                                0 <= i < frame.pixels@.len() implies #[trigger] self.pixels@[i]
                                == before[i] && !d.covers(i % (w * 4) / 4, i / (w * 4)) by {
                                lemma_byte_is_a_pixel(i, w as int, h as int);
                            }
                        }
                        Ok(Invalidate::Whole)
                    },
                    Some(k) => {
                        proof {
                            assert(k.covers(k.x as int, k.y as int));
                            assert(k.covers(k.right_edge() - 1, k.bottom_edge() - 1));
                            assert(k.bottom_edge() * stride <= w * 4 * h) by (nonlinear_arith)
                                requires
                                    0 <= k.bottom_edge() <= h,
                                    stride == w * 4,
                                    0 <= w,
                            ;
                        }
                        copy_region(&mut self.pixels, &frame.pixels, stride, Some(k));
                        proof {
                            let st = stride as int;
                            assert forall|i: int|
                                0 <= i < frame.pixels@.len() implies #[trigger] self.pixels@[i]
                                == (if d.covers(i % (w * 4) / 4, i / (w * 4)) {
                                frame.pixels@[i]
                            } else {
                                before[i]
                            }) by {
                                lemma_byte_is_a_pixel(i, w as int, h as int);
                                assert(k.covers(i % (w * 4) / 4, i / (w * 4)) <==> d.covers(
                                    i % (w * 4) / 4,
                                    i / (w * 4),
                                ));
                            }
                        }
                        Ok(Invalidate::Region(k))
                    },
                }
            },
        }
    }
}

/// The byte at `i` belongs to a pixel of the store.
proof fn lemma_byte_is_a_pixel(i: int, w: int, h: int)
    requires
        0 <= i < w * 4 * h,
        0 <= w,
        0 <= h,
    ensures
        0 < w,
        0 <= i % (w * 4) / 4 < w,
        0 <= i / (w * 4) < h,
{
    let st = w * 4;
    assert(0 < st) by (nonlinear_arith)
        requires
            0 <= i < st * h,
            0 <= st,
            0 <= h,
    ;
    let row = i / st;
    let col = i % st;
    lemma_fundamental_div_mod(i, st);
    assert(0 <= col < st) by (nonlinear_arith)
        requires
            0 < st,
            col == i % st,
    ;
    assert(0 <= row < h) by (nonlinear_arith)
        requires
            0 <= i < st * h,
            0 < st,
            i == st * row + col,
            0 <= col < st,
    ;
}

/// Modifier flag bit 17 and up: Shift, Control, Option, Command.
pub open spec fn flag_set(flags: u64, weight: int) -> bool {
    flags as int / weight % 2 == 1
}

/// The modifiers of an event's flags; Command stands for Win. Other flags are
/// ignored.
pub open spec fn modifiers_of(flags: u64) -> Modifiers {
    Modifiers {
        alt: flag_set(flags, 0x8_0000),
        ctrl: flag_set(flags, 0x4_0000),
        shift: flag_set(flags, 0x2_0000),
        win: flag_set(flags, 0x10_0000),
    }
}

/// The modifiers of an event's flags; Command stands for Win.
pub fn modifiers_from(flags: u64) -> (r: Modifiers)
    ensures
        r == modifiers_of(flags),
{
    Modifiers {
        alt: flags / 0x8_0000 % 2 == 1,
        ctrl: flags / 0x4_0000 % 2 == 1,
        shift: flags / 0x2_0000 % 2 == 1,
        win: flags / 0x10_0000 % 2 == 1,
    }
}

/// An input event of the window system, its position already in monitor-local
/// pixels and its scroll distance in wheel units.
#[derive(Clone, Copy, PartialEq, Eq, Structural, Debug)]
pub enum NativeEvent {
    MouseMoved { at: Point },
    LeftMouseDragged { at: Point },
    LeftMouseDown { at: Point },
    LeftMouseUp { at: Point },
    ScrollWheel { at: Point, delta: i32, flags: u64 },
    KeyDown { key_code: u16, flags: u64 },
    Other,
}

/// What the event monitor does with an event: report an overlay event, and let
/// the window system have it too or not.
#[derive(Clone, Copy, PartialEq, Eq, Debug)]
pub struct Monitored {
    pub report: Option<OverlayEvent>,
    pub pass_on: bool,
}

/// What the monitor of one surface does with an event: events of other windows
/// pass; a drag is a move; keys with a virtual-key code are reported, and no
/// key passes on.
pub open spec fn monitored(ours: bool, event: NativeEvent) -> Monitored {
    if !ours {
        Monitored { report: None, pass_on: true }
    } else {
        match event {
            NativeEvent::MouseMoved { at } => Monitored {
                report: Some(OverlayEvent::MouseMove { at }),
                pass_on: true,
            },
            NativeEvent::LeftMouseDragged { at } => Monitored {
                report: Some(OverlayEvent::MouseMove { at }),
                pass_on: true,
            },
            NativeEvent::LeftMouseDown { at } => Monitored {
                report: Some(OverlayEvent::LeftButtonDown { at }),
                pass_on: true,
            },
            NativeEvent::LeftMouseUp { at } => Monitored {
                report: Some(OverlayEvent::LeftButtonUp { at }),
                pass_on: true,
            },
            NativeEvent::ScrollWheel { at, delta, flags } => Monitored {
                report: Some(
                    OverlayEvent::MouseWheel { at, delta, modifiers: modifiers_of(flags) },
                ),
                pass_on: true,
            },
            NativeEvent::KeyDown { key_code, flags } => Monitored {
                report: match vk_of(key_code as int) {
                    Some(vk) => Some(
                        OverlayEvent::KeyDown { vk, modifiers: modifiers_of(flags) },
                    ),
                    None => None,
                },
                pass_on: false,
            },
            NativeEvent::Other => Monitored { report: None, pass_on: true },
        }
    }
}

/// Decide what the monitor of one surface does with an event; `ours` tells
/// whether it was sent to this surface's window.
pub fn install_event_monitor(ours: bool, event: NativeEvent) -> (r: Monitored)
    ensures
        r == monitored(ours, event),
{
    if !ours {
        return Monitored { report: None, pass_on: true };
    }
    match event {
        NativeEvent::MouseMoved { at } => Monitored {
            report: Some(OverlayEvent::MouseMove { at }),
            pass_on: true,
        },
        NativeEvent::LeftMouseDragged { at } => Monitored {
            report: Some(OverlayEvent::MouseMove { at }),
            pass_on: true,
        },
        NativeEvent::LeftMouseDown { at } => Monitored {
            report: Some(OverlayEvent::LeftButtonDown { at }),
            pass_on: true,
        },
        NativeEvent::LeftMouseUp { at } => Monitored {
            report: Some(OverlayEvent::LeftButtonUp { at }),
            pass_on: true,
        },
        NativeEvent::ScrollWheel { at, delta, flags } => Monitored {
            report: Some(
                OverlayEvent::MouseWheel { at, delta, modifiers: modifiers_from(flags) },
            ),
            pass_on: true,
        },
        NativeEvent::KeyDown { key_code, flags } => Monitored {
            report: match cg_keycode_to_vk(key_code) {
                Some(vk) => Some(
                    OverlayEvent::KeyDown { vk, modifiers: modifiers_from(flags) },
                ),
                None => None,
            },
            pass_on: false,
        },
        NativeEvent::Other => Monitored { report: None, pass_on: true },
    }
}

/// The overlay is modal: no key sent to it reaches anything else.
pub proof fn lemma_keys_are_swallowed(key_code: u16, flags: u64)
    ensures
        !monitored(true, NativeEvent::KeyDown { key_code, flags }).pass_on,
{
}

/// Index of the first screen, from `i` on, whose rectangle is `rect`.
pub open spec fn screen_at(screens: Seq<Rect>, rect: Rect, i: int) -> Option<usize>
    decreases screens.len() - i,
{
    if i >= screens.len() {
        None
    } else if screens[i] == rect {
        Some(i as usize)
    } else {
        screen_at(screens, rect, i + 1)
    }
}

/// The screen an overlay belongs on: the first whose virtual rectangle is the
/// captured monitor's.
pub fn create_overlay_surface(rect: Rect, screens: &[Rect]) -> (r: Option<usize>)
    ensures
        r == screen_at(screens@, rect, 0),
{
    let mut i: usize = 0;
    while i < screens.len()
        invariant
            i <= screens@.len(),
            screen_at(screens@, rect, 0) == screen_at(screens@, rect, i as int),
        decreases screens@.len() - i,
    {
        if screens[i] == rect {
            return Some(i);
        }
        i += 1;
    }
    None
}

} // verus!
