//! One layered overlay window per monitor: message decoding, frame checks and
//! the present surface's pixels. Creating the window and handing the pixels to
//! the system is the caller's part.

use crate::capture::{copy_run, DibBuffer};
use crate::geometry::{max_i64, min_i64, Point, Rect};
use crate::hotkeys::gesture::Modifiers;
use crate::overlay::composite::{monitor_at, monitor_index_at, to_local, virtual_to_local};
use crate::overlay::controller::lemma_monitor_at_range;
use crate::overlay::events::OverlayEvent;
use vstd::arithmetic::div_mod::{lemma_fundamental_div_mod, lemma_fundamental_div_mod_converse};
use vstd::math::{max, min};
use vstd::prelude::*;

verus! {

/// The signed number in the low 16 bits of `v`.
pub open spec fn signed_word(v: int) -> i32 {
    if v % 0x1_0000 < 0x8000 {
        (v % 0x1_0000) as i32
    } else {
        (v % 0x1_0000 - 0x1_0000) as i32
    }
}

fn sign_word(word: u64) -> (r: i32)
    requires
        word < 0x1_0000,
    ensures
        r == signed_word(word as int),
{
    if word < 0x8000 {
        word as i32
    } else {
        word as i32 - 0x1_0000
    }
}

/// The words of `-v - 1` are the inverted words of `v`.
proof fn lemma_complement_words(v: int)
    requires
        0 <= v,
    ensures
        (-v - 1) % 0x1_0000 == 0xffff - v % 0x1_0000,
        ((-v - 1) / 0x1_0000) % 0x1_0000 == 0xffff - (v / 0x1_0000) % 0x1_0000,
{
    let q = v / 0x1_0000;
    lemma_fundamental_div_mod_converse(-v - 1, 0x1_0000, -q - 1, 0xffff - v % 0x1_0000);
    lemma_fundamental_div_mod_converse(
        -q - 1,
        0x1_0000,
        -(q / 0x1_0000) - 1,
        0xffff - q % 0x1_0000,
    );
}

/// Decode signed coordinates from a message's long parameter: x in its low
/// word, y in the next one.
pub fn lparam_point(lparam: isize) -> (r: Point)
    ensures
        r.x == signed_word(lparam as int),
        r.y == signed_word(lparam as int / 0x1_0000),
{
    if lparam >= 0 {
        let v: u64 = lparam as u64;
        Point { x: sign_word(v % 0x1_0000), y: sign_word(v / 0x1_0000 % 0x1_0000) }
    } else {
        // Two's complement: the words of a negative number are the inverted
        // words of its complement.
        let v: u64 = (-(lparam + 1)) as u64;
        proof {
            lemma_complement_words(v as int);
        }
        Point {
            x: sign_word(0xffff - v % 0x1_0000),
            y: sign_word(0xffff - v / 0x1_0000 % 0x1_0000),
        }
    }
}

/// Decode the signed wheel delta from a wheel message's word parameter.
pub fn wheel_delta_raw(wparam: usize) -> (r: i32)
    ensures
        r == signed_word(wparam as int / 0x1_0000),
{
    sign_word(wparam as u64 / 0x1_0000 % 0x1_0000)
}

/// The monitor a wheel event belongs to and its position there: the monitor
/// under the cursor, else `fallback`.
pub open spec fn wheel_route(cursor: Point, monitors: Seq<Rect>, fallback: usize) -> (usize, Point) {
    let i = match monitor_at(cursor, monitors) {
        Some(i) => i,
        None => fallback,
    };
    (i, to_local(cursor, monitors[i as int]))
}

/// Cursor-based wheel routing: map a cursor position in virtual-screen
/// coordinates to the monitor containing it and the position on that monitor.
/// `fallback` is the receiving window's monitor, used only when the cursor is
/// outside every monitor.
pub fn wheel_target(cursor_screen: Point, monitors: &[Rect], fallback: usize) -> (r: (usize, Point))
    requires
        fallback < monitors@.len(),
    ensures
        r == wheel_route(cursor_screen, monitors@, fallback),
        r.0 < monitors@.len(),
{
    proof {
        assert(monitors.len() == monitors@.len());
        lemma_monitor_at_range(cursor_screen, monitors@);
    }
    match monitor_index_at(cursor_screen, monitors) {
        Some(i) => (i, virtual_to_local(cursor_screen, monitors[i])),
        None => (fallback, virtual_to_local(cursor_screen, monitors[fallback])),
    }
}

/// Where a wheel event goes depends on the cursor, not on the window that
/// received it, as long as the cursor is on some monitor.
pub proof fn lemma_wheel_ignores_receiver(cursor: Point, monitors: Seq<Rect>, a: usize, b: usize)
    requires
        monitor_at(cursor, monitors) is Some,
    ensures
        wheel_route(cursor, monitors, a) == wheel_route(cursor, monitors, b),
{
}

/// Whether a key-state reading (negative while held) counts as held.
pub open spec fn held(state: i16) -> bool {
    state < 0
}

/// The modifier set of the key states at message time.
pub fn current_modifiers(shift: i16, ctrl: i16, alt: i16, left_win: i16, right_win: i16) -> (r:
    Modifiers)
    ensures
        r == (Modifiers {
            alt: held(alt),
            ctrl: held(ctrl),
            shift: held(shift),
            win: held(left_win) || held(right_win),
        }),
{
    Modifiers {
        alt: alt < 0,
        ctrl: ctrl < 0,
        shift: shift < 0,
        win: left_win < 0 || right_win < 0,
    }
}

pub const WM_PAINT: u32 = 0x000F;

pub const WM_ERASEBKGND: u32 = 0x0014;

pub const WM_NCCREATE: u32 = 0x0081;

pub const WM_NCDESTROY: u32 = 0x0082;

pub const WM_KEYDOWN: u32 = 0x0100;

pub const WM_MOUSEMOVE: u32 = 0x0200;

pub const WM_LBUTTONDOWN: u32 = 0x0201;

pub const WM_LBUTTONUP: u32 = 0x0202;

pub const WM_MOUSEWHEEL: u32 = 0x020A;

/// What the window procedure does with a message.
#[derive(Clone, Copy, PartialEq, Eq, Structural, Debug)]
pub enum WndAction {
    /// Store the window's context, then the default processing.
    AttachContext,
    /// Release the window's context, then the default processing.
    ReleaseContext,
    /// Report the event for the monitor and return 0.
    Emit { monitor: usize, event: OverlayEvent },
    /// Validate the window without painting and return 0.
    Validate,
    /// Return this result.
    Return { result: isize },
    /// The default processing.
    Default,
}

/// `v` modulo 2^32.
pub open spec fn low_u32(v: usize) -> u32 {
    (v as int % 0x1_0000_0000) as u32
}

/// What the window procedure does with a message. Without a context only the
/// two context messages are special. Mouse positions are in the window's own
/// coordinates, which are the monitor's; a wheel position is in virtual-screen
/// coordinates and is routed to the monitor under it.
pub open spec fn message_action(
    has_context: bool,
    msg: u32,
    wparam: usize,
    lparam: isize,
    modifiers: Modifiers,
    monitor_index: usize,
    monitors: Seq<Rect>,
) -> WndAction {
    let at = Point {
        x: signed_word(lparam as int),
        y: signed_word(lparam as int / 0x1_0000),
    };
    if msg == WM_NCCREATE {
        WndAction::AttachContext
    } else if msg == WM_NCDESTROY {
        WndAction::ReleaseContext
    } else if !has_context {
        WndAction::Default
    } else if msg == WM_MOUSEMOVE {
        WndAction::Emit { monitor: monitor_index, event: OverlayEvent::MouseMove { at } }
    } else if msg == WM_LBUTTONDOWN {
        WndAction::Emit { monitor: monitor_index, event: OverlayEvent::LeftButtonDown { at } }
    } else if msg == WM_LBUTTONUP {
        WndAction::Emit { monitor: monitor_index, event: OverlayEvent::LeftButtonUp { at } }
    } else if msg == WM_MOUSEWHEEL {
        let route = wheel_route(at, monitors, monitor_index);
        WndAction::Emit {
            monitor: route.0,
            event: OverlayEvent::MouseWheel {
                at: route.1,
                delta: signed_word(wparam as int / 0x1_0000),
                modifiers,
            },
        }
    } else if msg == WM_KEYDOWN {
        WndAction::Emit {
            monitor: monitor_index,
            event: OverlayEvent::KeyDown { vk: low_u32(wparam), modifiers },
        }
    } else if msg == WM_ERASEBKGND {
        WndAction::Return { result: 1 }
    } else if msg == WM_PAINT {
        WndAction::Validate
    } else {
        WndAction::Default
    }
}

/// Decide what the window procedure of the overlay on monitor `monitor_index`
/// does with a message (see [`message_action`]).
pub fn overlay_wndproc(
    has_context: bool,
    msg: u32,
    wparam: usize,
    lparam: isize,
    modifiers: Modifiers,
    monitor_index: usize,
    monitors: &[Rect],
) -> (r: WndAction)
    requires
        has_context ==> monitor_index < monitors@.len(),
    ensures
        r == message_action(
            has_context,
            msg,
            wparam,
            lparam,
            modifiers,
            monitor_index,
            monitors@,
        ),
{
    if msg == WM_NCCREATE {
        return WndAction::AttachContext;
    }
    if msg == WM_NCDESTROY {
        return WndAction::ReleaseContext;
    }
    if !has_context {
        return WndAction::Default;
    }
    let at: Point = lparam_point(lparam);
    match msg {
        WM_MOUSEMOVE => WndAction::Emit {
            monitor: monitor_index,
            event: OverlayEvent::MouseMove { at },
        },
        WM_LBUTTONDOWN => WndAction::Emit {
            monitor: monitor_index,
            event: OverlayEvent::LeftButtonDown { at },
        },
        WM_LBUTTONUP => WndAction::Emit {
            monitor: monitor_index,
            event: OverlayEvent::LeftButtonUp { at },
        },
        WM_MOUSEWHEEL => {
            let (monitor, local): (usize, Point) = wheel_target(at, monitors, monitor_index);
            WndAction::Emit {
                monitor,
                event: OverlayEvent::MouseWheel {
                    at: local,
                    delta: wheel_delta_raw(wparam),
                    modifiers,
                },
            }
        },
        WM_KEYDOWN => WndAction::Emit {
            monitor: monitor_index,
            event: OverlayEvent::KeyDown {
                vk: (wparam as u64 % 0x1_0000_0000) as u32,
                modifiers,
            },
        },
        WM_ERASEBKGND => WndAction::Return { result: 1 },
        WM_PAINT => WndAction::Validate,
        _ => WndAction::Default,
    }
}

/// Clip `dirty` (monitor-local, may be negative or oversized) to a `width` by
/// `height` frame; `None` when nothing overlaps.
pub fn clip_to_frame(dirty: Rect, width: u32, height: u32) -> (r: Option<Rect>)
    ensures
        r is Some <==> max(dirty.x as int, 0) < min(dirty.right_edge(), width as int) && max(
            dirty.y as int,
            0,
        ) < min(dirty.bottom_edge(), height as int),
        r matches Some(c) ==> {
            &&& c.x == max(dirty.x as int, 0)
            &&& c.y == max(dirty.y as int, 0)
            &&& c.right_edge() == min(dirty.right_edge(), width as int)
            &&& c.bottom_edge() == min(dirty.bottom_edge(), height as int)
        },
{
    let x0: i64 = max_i64(dirty.x as i64, 0);
    let y0: i64 = max_i64(dirty.y as i64, 0);
    let x1: i64 = min_i64(dirty.right(), width as i64);
    let y1: i64 = min_i64(dirty.bottom(), height as i64);
    if x1 > x0 && y1 > y0 {
        Some(Rect::new(x0 as i32, y0 as i32, (x1 - x0) as u32, (y1 - y0) as u32))
    } else {
        None
    }
}

/// A clipped rectangle holds exactly the frame's pixels of the original one.
pub proof fn lemma_clip_is_intersection(
    dirty: Rect,
    width: u32,
    height: u32,
    clipped: Rect,
    x: int,
    y: int,
)
    requires
        clipped.x == max(dirty.x as int, 0),
        clipped.y == max(dirty.y as int, 0),
        clipped.right_edge() == min(dirty.right_edge(), width as int),
        clipped.bottom_edge() == min(dirty.bottom_edge(), height as int),
    ensures
        clipped.covers(x, y) <==> dirty.covers(x, y) && 0 <= x < width && 0 <= y < height,
{
}

/// Whether byte `i` of rows of `stride` bytes belongs to `region`, whose
/// pixels are four bytes wide.
pub open spec fn byte_in_region(i: int, stride: int, region: Rect) -> bool {
    region.y <= i / stride < region.bottom_edge() && region.x * 4 <= i % stride
        < region.right_edge() * 4
}

/// Copy frame rows from `src` to `dst`, both `stride` bytes per row. `None`
/// copies everything; a region, which must lie inside the frame, copies only
/// its bytes.
pub fn copy_region(dst: &mut Vec<u8>, src: &Vec<u8>, stride: usize, region: Option<Rect>)
    requires
        old(dst)@.len() == src@.len(),
        region matches Some(r) ==> {
            &&& 0 < stride
            &&& 0 <= r.x
            &&& 0 <= r.y
            &&& r.right_edge() * 4 <= stride
            &&& r.bottom_edge() * stride <= src@.len()
        },
    ensures
        final(dst)@.len() == src@.len(),
        forall|i: int|
            0 <= i < src@.len() ==> #[trigger] final(dst)@[i] == (match region {
                None => src@[i],
                Some(r) => if byte_in_region(i, stride as int, r) {
                    src@[i]
                } else {
                    old(dst)@[i]
                },
            }),
{
    match region {
        None => {
            copy_run(dst, src, 0, src.len());
        },
        Some(r) => {
            let ghost before = dst@;
            let row_bytes: usize = (r.width as u64 * 4) as usize;
            let col_off: usize = (r.x as u64 * 4) as usize;
            let y1: i64 = r.bottom();
            let mut y: i64 = r.y as i64;
            while y < y1
                invariant
                    before.len() == src@.len(),
                    dst@.len() == src@.len(),
                    0 < stride,
                    0 <= r.x,
                    0 <= r.y <= y <= y1,
                    y1 == r.bottom_edge(),
                    col_off == r.x * 4,
                    row_bytes == r.width * 4,
                    r.right_edge() * 4 <= stride,
                    r.bottom_edge() * stride <= src@.len(),
                    forall|i: int|
                        0 <= i < src@.len() ==> #[trigger] dst@[i] == (if byte_in_region(
                            i,
                            stride as int,
                            r,
                        ) && i / stride as int <= y - 1 {
                            src@[i]
                        } else {
                            before[i]
                        }),
                decreases y1 - y,
            {
                proof {
                    assert(src.len() == src@.len());
                    assert(y <= y * stride && y * stride + stride <= y1 * stride)
                        by (nonlinear_arith)
                        requires
                            0 <= y < y1,
                            1 <= stride,
                    ;
                }
                let start: usize = y as usize * stride + col_off;
                let ghost prior = dst@;
                copy_run(dst, src, start, row_bytes);
                proof {
                    let st = stride as int;
                    assert forall|i: int| 0 <= i < src@.len() implies #[trigger] dst@[i] == (
                    if byte_in_region(i, st, r) && i / st <= y {
                        src@[i]
                    } else {
                        before[i]
                    }) by {
                        lemma_byte_position(i, st, y as int);
                        assert(dst@[i] == (if start <= i < start + row_bytes {
                            src@[i]
                        } else {
                            prior[i]
                        }));
                    }
                }
                y += 1;
            }
        },
    }
}

/// A byte's row and column are where its index lies among the rows.
proof fn lemma_byte_position(i: int, stride: int, y: int)
    requires
        0 < stride,
        0 <= i,
    ensures
        y * stride <= i < y * stride + stride <==> i / stride == y,
        i / stride == y ==> i % stride == i - y * stride,
{
    lemma_fundamental_div_mod(i, stride);
    assert(stride * (i / stride) == (i / stride) * stride) by (nonlinear_arith);
    assert(0 <= i % stride < stride) by (nonlinear_arith)
        requires
            0 < stride,
    ;
    if y * stride <= i < y * stride + stride {
        lemma_fundamental_div_mod_converse(i, stride, y, i - y * stride);
    }
}

/// Why a window operation failed.
#[derive(Clone, Copy, PartialEq, Eq, Structural, Debug)]
pub enum WindowError {
    /// The monitor rectangle is empty.
    EmptyRect,
    /// The monitor index does not match the shared rectangle list.
    IndexMismatch,
    /// The monitor is too large for a window.
    TooLarge,
    /// The frame's size is not the monitor's.
    FrameMismatch,
    /// The window is closed.
    Closed,
}

/// The header of the window's pixel section: a 32-bit bitmap whose negative
/// height means top-down rows.
#[derive(Clone, Copy, PartialEq, Eq, Structural, Debug)]
pub struct SectionHeader {
    pub width: i32,
    pub height: i32,
    pub planes: u16,
    pub bit_count: u16,
    /// Bytes of the section.
    pub len: usize,
}

/// Whether a window of this size has a pixel section: its sides fit signed 32
/// bits and its bytes fit memory.
pub open spec fn section_fits(width: u32, height: u32) -> bool {
    width <= i32::MAX && height <= i32::MAX && width * 4 <= u32::MAX && width * 4 * height
        <= usize::MAX
}

/// The header of a `width` by `height` pixel section; `None` when it cannot
/// exist.
pub fn section_header(width: u32, height: u32) -> (r: Option<SectionHeader>)
    ensures
        r is Some <==> section_fits(width, height),
        r matches Some(h) ==> h == (SectionHeader {
            width: width as i32,
            height: -(height as i32) as i32,
            planes: 1,
            bit_count: 32,
            len: (width * 4 * height) as usize,
        }),
{
    if width > 0x3fff_ffff || height > 0x7fff_ffff {
        return None;
    }
    proof {
        assert(0 <= width * 4 * height <= 0xffff_ffff * 0xffff_ffff) by (nonlinear_arith)
            requires
                0 <= width * 4 <= 0xffff_ffff,
                0 <= height <= 0xffff_ffff,
        ;
    }
    let len: u128 = width as u128 * 4 * height as u128;
    if len > usize::MAX as u128 {
        return None;
    }
    Some(
        SectionHeader {
            width: width as i32,
            height: -(height as i32),
            planes: 1,
            bit_count: 32,
            len: len as usize,
        },
    )
}

/// What to hand the system after a present: the window's position and size,
/// and the changed edges (left, top, right, bottom; `None` = everything).
#[derive(Clone, Copy, PartialEq, Eq, Debug)]
pub struct PresentUpdate {
    pub at: Point,
    pub width: i32,
    pub height: i32,
    pub dirty: Option<(i32, i32, i32, i32)>,
}

/// One layered topmost window covering exactly one monitor.
pub struct OverlayWindow {
    /// System handle; 0 when closed.
    pub hwnd: isize,
    pub monitor_index: usize,
    pub monitor_rect: Rect,
    /// The present surface: top-down BGRA rows of the monitor's size.
    pub bits: Vec<u8>,
}

impl OverlayWindow {
    pub open spec fn wf(self) -> bool {
        &&& section_fits(self.monitor_rect.width, self.monitor_rect.height)
        &&& 0 < self.monitor_rect.width
        &&& 0 < self.monitor_rect.height
        &&& self.bits@.len() == self.monitor_rect.width * 4 * self.monitor_rect.height
    }

    /// Why a window on this monitor is refused, if it is.
    pub open spec fn refusal(
        monitor_index: usize,
        monitor_rect: Rect,
        monitors: Seq<Rect>,
    ) -> Option<WindowError> {
        if monitor_rect.empty() {
            Some(WindowError::EmptyRect)
        } else if monitor_index >= monitors.len() || monitors[monitor_index as int]
            != monitor_rect {
            Some(WindowError::IndexMismatch)
        } else if !section_fits(monitor_rect.width, monitor_rect.height) {
            Some(WindowError::TooLarge)
        } else {
            None
        }
    }

    /// The window for a monitor whose system window is `hwnd`. `monitors` lists
    /// every overlay's rectangle in index order.
    pub fn create(
        monitor_index: usize,
        monitor_rect: Rect,
        monitors: &[Rect],
        hwnd: isize,
    ) -> (r: Result<Self, WindowError>)
        ensures
            match (OverlayWindow::refusal(monitor_index, monitor_rect, monitors@), r) {
                (Some(e), Err(f)) => e == f,
                (None, Ok(w)) => {
                    &&& w.wf()
                    &&& w.hwnd == hwnd
                    &&& w.monitor_index == monitor_index
                    &&& w.monitor_rect == monitor_rect
                    &&& forall|i: int| 0 <= i < w.bits@.len() ==> #[trigger] w.bits@[i] == 0
                },
                _ => false,
            },
    {
        if monitor_rect.width == 0 || monitor_rect.height == 0 {
            return Err(WindowError::EmptyRect);
        }
        if monitor_index >= monitors.len() || monitors[monitor_index] != monitor_rect {
            return Err(WindowError::IndexMismatch);
        }
        match section_header(monitor_rect.width, monitor_rect.height) {
            None => Err(WindowError::TooLarge),
            Some(header) => Ok(
                Self { hwnd, monitor_index, monitor_rect, bits: vec![0; header.len] },
            ),
        }
    }

    /// What presenting `frame`, or its `dirty` region, makes of the window, and
    /// what is answered.
    pub open spec fn presented(
        before: OverlayWindow,
        frame: DibBuffer,
        dirty: Option<Rect>,
        after: OverlayWindow,
        r: Result<Option<PresentUpdate>, WindowError>,
    ) -> bool {
        &&& after.wf()
        &&& after.hwnd == before.hwnd
        &&& after.monitor_index == before.monitor_index
        &&& after.monitor_rect == before.monitor_rect
        &&& {
            let w = before.monitor_rect.width;
            let h = before.monitor_rect.height;
            let matches_monitor = frame.width == w && frame.height == h && frame.pixels@.len()
                == before.bits@.len();
            match r {
                Err(e) => {
                    &&& after.bits@ == before.bits@
                    &&& e == (if !matches_monitor {
                        WindowError::FrameMismatch
                    } else {
                        WindowError::Closed
                    })
                    &&& !matches_monitor || before.hwnd == 0
                },
                Ok(None) => {
                    &&& matches_monitor
                    &&& before.hwnd != 0
                    &&& after.bits@ == before.bits@
                    &&& dirty matches Some(d) && forall|x: int, y: int|
                        0 <= x < w && 0 <= y < h ==> !#[trigger] d.covers(x, y)
                },
                Ok(Some(u)) => {
                    &&& matches_monitor
                    &&& before.hwnd != 0
                    &&& u.at == (Point { x: before.monitor_rect.x, y: before.monitor_rect.y })
                    &&& u.width == w
                    &&& u.height == h
                    &&& match dirty {
                        None => u.dirty is None && after.bits@ == frame.pixels@,
                        Some(d) => {
                            &&& max(d.x as int, 0) < min(d.right_edge(), w as int)
                            &&& max(d.y as int, 0) < min(d.bottom_edge(), h as int)
                            &&& d.covers(max(d.x as int, 0), max(d.y as int, 0))
                            &&& u.dirty == Some(
                                (
                                    max(d.x as int, 0) as i32,
                                    max(d.y as int, 0) as i32,
                                    min(d.right_edge(), w as int) as i32,
                                    min(d.bottom_edge(), h as int) as i32,
                                ),
                            )
                            &&& forall|i: int|
                                0 <= i < frame.pixels@.len() ==> #[trigger] after.bits@[i]
                                    == (if d.covers(i % (w * 4) / 4, i / (w * 4)) {
                                    frame.pixels@[i]
                                } else {
                                    before.bits@[i]
                                })
                        },
                    }
                },
            }
        }
    }

    /// Bring `frame` (or only its `dirty` region) onto the present surface and
    /// say what to hand the system. The frame must have the monitor's size. A
    /// region outside the frame changes nothing and needs no update.
    pub fn present(&mut self, frame: &DibBuffer, dirty: Option<Rect>) -> (r: Result<
        Option<PresentUpdate>,
        WindowError,
    >)
        requires
            old(self).wf(),
        ensures
            final(self).wf(),
            final(self).hwnd == old(self).hwnd,
            final(self).monitor_index == old(self).monitor_index,
            final(self).monitor_rect == old(self).monitor_rect,
            ({
                let w = old(self).monitor_rect.width;
                let h = old(self).monitor_rect.height;
                let matches_monitor = frame.width == w && frame.height == h && frame.pixels@.len()
                    == old(self).bits@.len();
                match r {
                    Err(e) => {
                        &&& final(self).bits@ == old(self).bits@
                        &&& e == (if !matches_monitor {
                            WindowError::FrameMismatch
                        } else {
                            WindowError::Closed
                        })
                        &&& !matches_monitor || old(self).hwnd == 0
                    },
                    Ok(None) => {
                        &&& matches_monitor
                        &&& old(self).hwnd != 0
                        &&& final(self).bits@ == old(self).bits@
                        &&& dirty matches Some(d) && forall|x: int, y: int|
                            0 <= x < w && 0 <= y < h ==> !#[trigger] d.covers(x, y)
                    },
                    Ok(Some(u)) => {
                        &&& matches_monitor
                        &&& old(self).hwnd != 0
                        &&& u.at == (Point { x: old(self).monitor_rect.x, y: old(self).monitor_rect.y })
                        &&& u.width == w
                        &&& u.height == h
                        &&& match dirty {
                            None => u.dirty is None && final(self).bits@ == frame.pixels@,
                            Some(d) => {
                                &&& max(d.x as int, 0) < min(d.right_edge(), w as int)
                                &&& max(d.y as int, 0) < min(d.bottom_edge(), h as int)
                                &&& d.covers(max(d.x as int, 0), max(d.y as int, 0))
                                &&& u.dirty == Some(
                                    (
                                        max(d.x as int, 0) as i32,
                                        max(d.y as int, 0) as i32,
                                        min(d.right_edge(), w as int) as i32,
                                        min(d.bottom_edge(), h as int) as i32,
                                    ),
                                )
                                &&& forall|i: int|
                                    0 <= i < frame.pixels@.len() ==> #[trigger] final(self).bits@[i]
                                        == (if d.covers(i % (w * 4) / 4, i / (w * 4)) {
                                        frame.pixels@[i]
                                    } else {
                                        old(self).bits@[i]
                                    })
                            },
                        }
                    },
                }
            }),
            OverlayWindow::presented(*old(self), *frame, dirty, *final(self), r),
    {
        let w: u32 = self.monitor_rect.width;
        let h: u32 = self.monitor_rect.height;
        if frame.width != w || frame.height != h || frame.pixels.len() != self.bits.len() {
            return Err(WindowError::FrameMismatch);
        }
        if self.hwnd == 0 {
            return Err(WindowError::Closed);
        }
        let stride: usize = w as usize * 4;
        let at = Point::new(self.monitor_rect.x, self.monitor_rect.y);
        match dirty {
            None => {
                copy_region(&mut self.bits, &frame.pixels, stride, None);
                proof {
                    assert(self.bits@ =~= frame.pixels@);
                }
                Ok(
                    Some(
                        PresentUpdate { at, width: w as i32, height: h as i32, dirty: None },
                    ),
                )
            },
            Some(d) => {
                match clip_to_frame(d, w, h) {
                    None => {
                        proof {
                            assert forall|x: int, y: int| 0 <= x < w && 0 <= y < h implies
                                !#[trigger] d.covers(x, y) by {}
                        }
                        Ok(None)
                    },
                    Some(c) => {
                        proof {
                            assert(c.bottom_edge() * stride <= w * 4 * h) by (nonlinear_arith)
                                requires
                                    0 <= c.bottom_edge() <= h,
                                    stride == w * 4,
                                    0 <= w,
                            ;
                        }
                        copy_region(&mut self.bits, &frame.pixels, stride, Some(c));
                        proof {
                            let st = stride as int;
                            assert forall|i: int| 0 <= i < frame.pixels@.len() implies (
                            byte_in_region(i, st, c) <==> d.covers(
                                i % (w * 4) / 4,
                                i / (w * 4),
                            )) by {
                                let row = i / st;
                                let col = i % st;
                                lemma_fundamental_div_mod(i, st);
                                assert(0 <= col < st) by (nonlinear_arith)
                                    requires
                                        0 < st,
                                        col == i % st,
                                ;
                                assert(0 <= row < h) by (nonlinear_arith)
                                    requires
                                        0 <= i < st * h,
                                        0 < st,
                                        i == st * row + col,
                                        0 <= col < st,
                                ;
                                lemma_clip_is_intersection(d, w, h, c, col / 4, row);
                            }
                        }
                        Ok(
                            Some(
                                PresentUpdate {
                                    at,
                                    width: w as i32,
                                    height: h as i32,
                                    dirty: Some(
                                        (c.x, c.y, c.right() as i32, c.bottom() as i32),
                                    ),
                                },
                            ),
                        )
                    },
                }
            },
        }
    }

    /// The system handle; 0 when closed.
    pub fn hwnd(&self) -> (r: isize)
        ensures
            r == self.hwnd,
    {
        self.hwnd
    }

    /// Bounds in virtual-screen coordinates.
    pub fn monitor_rect(&self) -> (r: Rect)
        ensures
            r == self.monitor_rect,
    {
        self.monitor_rect
    }

    /// Mark the window closed; the handle to destroy, `None` when it already
    /// was.
    pub fn close(&mut self) -> (r: Option<isize>)
        requires
            old(self).wf(),
        ensures
            final(self).wf(),
            final(self).hwnd == 0,
            final(self).monitor_index == old(self).monitor_index,
            final(self).monitor_rect == old(self).monitor_rect,
            final(self).bits@ == old(self).bits@,
            r == (if old(self).hwnd != 0 {
                Some(old(self).hwnd)
            } else {
                None
            }),
    {
        if self.hwnd != 0 {
            let hwnd: isize = self.hwnd;
            self.hwnd = 0;
            Some(hwnd)
        } else {
            None
        }
    }
}

} // verus!
