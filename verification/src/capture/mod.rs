//! Captured frames: the pixel buffer every part of the crate works on, monitor
//! descriptions, and the byte layouts frames are read from and packed into.

use crate::geometry::Rect;
use vstd::prelude::*;

pub mod laws;
pub mod png;
pub mod rows;

verus! {

/// One attached display monitor.
#[derive(Clone, Debug, PartialEq, Eq)]
pub struct MonitorInfo {
    /// Bounds in virtual-screen coordinates (the primary monitor's top-left is
    /// `(0, 0)`; secondary monitors may be negative), physical pixels.
    pub rect: Rect,
    /// Effective DPI along X (96 = 100% scaling).
    pub dpi_x: u32,
    /// Effective DPI along Y.
    pub dpi_y: u32,
    pub is_primary: bool,
    /// Device name, e.g. `\\.\DISPLAY1`.
    pub device_name: String,
}

/// Owned 32-bit pixel buffer: BGRA, 8 bits per channel, non-premultiplied
/// alpha, top-down row order, tightly packed. Pixel `(x, y)` lives at
/// `pixels[y * stride + x * 4 ..][..4]` as `[B, G, R, A]`.
#[derive(Clone, Debug, PartialEq, Eq)]
pub struct DibBuffer {
    /// Width in pixels.
    pub width: u32,
    /// Height in pixels.
    pub height: u32,
    /// Bytes per row; `width * 4` in a well-formed buffer.
    pub stride: u32,
    /// `stride * height` bytes in a well-formed buffer.
    pub pixels: Vec<u8>,
}

/// A product held down to the largest `usize`.
pub open spec fn saturating_product(a: int, b: int) -> int {
    if a * b > usize::MAX {
        usize::MAX as int
    } else {
        a * b
    }
}

impl DibBuffer {
    /// The layout contract: tightly packed rows, one byte run per row.
    pub open spec fn wf(self) -> bool {
        &&& self.stride == self.width * 4
        &&& self.pixels@.len() == self.stride * self.height
    }

    /// Whether `(x, y)` is a pixel of the buffer.
    pub open spec fn has(self, x: int, y: int) -> bool {
        0 <= x < self.width && 0 <= y < self.height
    }

    /// Byte position of pixel `(x, y)`.
    pub open spec fn offset(self, x: int, y: int) -> int {
        y * self.stride + x * 4
    }

    /// Channel `c` (0 = blue, 1 = green, 2 = red, 3 = alpha) of pixel `(x, y)`.
    pub open spec fn chan(self, x: int, y: int, c: int) -> u8 {
        self.pixels@[self.offset(x, y) + c]
    }

    /// [`DibBuffer::chan`] with alpha read as 255.
    pub open spec fn opaque_chan(self, x: int, y: int, c: int) -> u8 {
        if c == 3 {
            255
        } else {
            self.chan(x, y, c)
        }
    }

    /// Same dimensions and row length.
    pub open spec fn same_shape(self, other: DibBuffer) -> bool {
        self.width == other.width && self.height == other.height && self.stride == other.stride
    }

    /// Zeroed buffer with `stride = width * 4` and `pixels.len() = stride *
    /// height`; both products saturate.
    pub fn new(width: u32, height: u32) -> (r: Self)
        ensures
            r.width == width,
            r.height == height,
            r.stride == (if width * 4 > u32::MAX {
                u32::MAX as int
            } else {
                width * 4
            }),
            r.pixels@.len() == saturating_product(r.stride as int, height as int),
            forall|i: int| 0 <= i < r.pixels@.len() ==> r.pixels@[i] == 0,
            width * 4 <= u32::MAX && width * 4 * height <= usize::MAX ==> r.wf(),
    {
        let stride: u32 = if width > 0x3fff_ffff {
            u32::MAX
        } else {
            width * 4
        };
        proof {
            assert(0 <= stride * height <= 0xffff_ffff * 0xffff_ffff) by (nonlinear_arith)
                requires
                    0 <= stride <= 0xffff_ffff,
                    0 <= height <= 0xffff_ffff,
            ;
        }
        let product: u128 = stride as u128 * height as u128;
        let len: usize = if product > usize::MAX as u128 {
            usize::MAX
        } else {
            product as usize
        };
        Self { width, height, stride, pixels: vec![0; len] }
    }

    /// `[B, G, R, A]` at `(x, y)` in buffer-local coordinates; `None` when out
    /// of bounds.
    pub fn pixel(&self, x: u32, y: u32) -> (r: Option<[u8; 4]>)
        ensures
            r is Some <==> self.has(x as int, y as int) && self.offset(x as int, y as int) + 4
                <= self.pixels@.len(),
            r matches Some(p) ==> forall|c: int| 0 <= c < 4 ==> p@[c] == #[trigger] self.chan(
                x as int,
                y as int,
                c,
            ),
    {
        if x >= self.width || y >= self.height {
            return None;
        }
        proof {
            assert(y * self.stride <= 0xffff_ffff * 0xffff_ffff) by (nonlinear_arith)
                requires
                    0 <= y <= 0xffff_ffff,
                    0 <= self.stride <= 0xffff_ffff,
            ;
        }
        let start: u128 = y as u128 * self.stride as u128 + x as u128 * 4;
        if start + 4 > self.pixels.len() as u128 {
            return None;
        }
        let i: usize = start as usize;
        Some([self.pixels[i], self.pixels[i + 1], self.pixels[i + 2], self.pixels[i + 3]])
    }

    /// Replace pixel `(x, y)`.
    pub fn put(&mut self, x: u32, y: u32, px: [u8; 4])
        requires
            old(self).wf(),
            old(self).has(x as int, y as int),
        ensures
            final(self).wf(),
            final(self).same_shape(*old(self)),
            forall|x2: int, y2: int, c: int|
                old(self).has(x2, y2) && 0 <= c < 4 ==> #[trigger] final(self).chan(x2, y2, c) == (
                if x2 == x && y2 == y {
                    px@[c]
                } else {
                    old(self).chan(x2, y2, c)
                }),
    {
        let ghost before = *self;
        proof {
            self.lemma_offset(x as int, y as int);
            assert(self.pixels.len() == self.pixels@.len());
        }
        let i: usize = y as usize * self.stride as usize + x as usize * 4;
        self.pixels[i] = px[0];
        self.pixels[i + 1] = px[1];
        self.pixels[i + 2] = px[2];
        self.pixels[i + 3] = px[3];
        proof {
            assert forall|x2: int, y2: int, c: int|
                before.has(x2, y2) && 0 <= c < 4 implies #[trigger] self.chan(x2, y2, c) == (if x2
                == x && y2 == y {
                px@[c]
            } else {
                before.chan(x2, y2, c)
            }) by {
                before.lemma_offset(x2, y2);
                if x2 != x || y2 != y {
                    before.lemma_offset_apart(x as int, y as int, x2, y2);
                }
            }
        }
    }

    /// The bytes of pixel `(x, y)`.
    pub fn get(&self, x: u32, y: u32) -> (r: [u8; 4])
        requires
            self.wf(),
            self.has(x as int, y as int),
        ensures
            forall|c: int| 0 <= c < 4 ==> #[trigger] r@[c] == self.chan(x as int, y as int, c),
    {
        proof {
            self.lemma_offset(x as int, y as int);
            assert(self.pixels.len() == self.pixels@.len());
        }
        let i: usize = y as usize * self.stride as usize + x as usize * 4;
        [self.pixels[i], self.pixels[i + 1], self.pixels[i + 2], self.pixels[i + 3]]
    }

    /// A copy with the same bytes.
    pub fn duplicate(&self) -> (r: DibBuffer)
        ensures
            r.same_shape(*self),
            r.pixels@ == self.pixels@,
    {
        DibBuffer {
            width: self.width,
            height: self.height,
            stride: self.stride,
            pixels: vstd::slice::slice_to_vec(self.pixels.as_slice()),
        }
    }

    /// A pixel's four bytes lie inside its row and inside the buffer.
    pub proof fn lemma_offset(self, x: int, y: int)
        requires
            self.wf(),
            self.has(x, y),
        ensures
            0 <= y * self.stride <= self.offset(x, y),
            self.offset(x, y) + 4 <= (y + 1) * self.stride,
            (y + 1) * self.stride <= self.pixels@.len(),
            self.offset(x, y) % 4 == 0,
    {
        assert(y * (self.width * 4) == (y * self.width) * 4) by (nonlinear_arith);
        assert(0 <= y * self.stride && y * self.stride + self.stride == (y + 1) * self.stride && (y
            + 1) * self.stride <= self.height * self.stride) by (nonlinear_arith)
            requires
                0 <= y < self.height,
                0 <= self.stride,
        ;
        assert(self.stride * self.height == self.height * self.stride) by (nonlinear_arith);
    }

    /// Distinct pixels occupy disjoint bytes.
    pub proof fn lemma_offset_apart(self, x1: int, y1: int, x2: int, y2: int)
        requires
            self.wf(),
            self.has(x1, y1),
            self.has(x2, y2),
            x1 != x2 || y1 != y2,
        ensures
            self.offset(x1, y1) + 4 <= self.offset(x2, y2) || self.offset(x2, y2) + 4
                <= self.offset(x1, y1),
    {
        self.lemma_offset(x1, y1);
        self.lemma_offset(x2, y2);
        if y1 < y2 {
            assert((y1 + 1) * self.stride <= y2 * self.stride) by (nonlinear_arith)
                requires
                    y1 + 1 <= y2,
                    0 <= self.stride,
            ;
        } else if y2 < y1 {
            assert((y2 + 1) * self.stride <= y1 * self.stride) by (nonlinear_arith)
                requires
                    y2 + 1 <= y1,
                    0 <= self.stride,
            ;
        }
    }

    /// The bytes from pixel `(x0, y)` through pixel `(x1, y)` are those of the
    /// row's pixels between them, and of no others.
    pub proof fn lemma_row_run(self, y: int, x0: int, x1: int, x: int, y2: int, c: int)
        requires
            self.wf(),
            self.has(x0, y),
            self.has(x1, y),
            self.has(x, y2),
            0 <= c < 4,
        ensures
            self.offset(x0, y) <= self.offset(x, y2) + c < self.offset(x1, y) + 4 <==> (y2 == y
                && x0 <= x <= x1),
    {
        self.lemma_offset(x0, y);
        self.lemma_offset(x1, y);
        self.lemma_offset(x, y2);
        if y2 < y {
            assert((y2 + 1) * self.stride <= y * self.stride) by (nonlinear_arith)
                requires
                    y2 + 1 <= y,
                    0 <= self.stride,
            ;
        } else if y < y2 {
            assert((y + 1) * self.stride <= y2 * self.stride) by (nonlinear_arith)
                requires
                    y + 1 <= y2,
                    0 <= self.stride,
            ;
        }
    }

    /// Every byte belongs to exactly one channel of one pixel.
    pub proof fn lemma_coords(self, i: int) -> (r: (int, int, int))
        requires
            self.wf(),
            0 <= i < self.pixels@.len(),
        ensures
            self.has(r.0, r.1),
            0 <= r.2 < 4,
            i == self.offset(r.0, r.1) + r.2,
            r.2 == i % 4,
    {
        let s = self.stride as int;
        assert(s > 0) by (nonlinear_arith)
            requires
                0 <= i < s * self.height,
                0 <= s,
                0 <= self.height,
        ;
        let y = i / s;
        let k = i % s;
        assert(i == s * y + k && 0 <= k < s) by {
            vstd::arithmetic::div_mod::lemma_fundamental_div_mod(i, s);
            vstd::arithmetic::div_mod::lemma_mod_bound(i, s);
        }
        assert(0 <= y < self.height) by (nonlinear_arith)
            requires
                i == s * y + k,
                0 <= k < s,
                0 <= i < s * self.height,
                s > 0,
        ;
        assert(s * y == y * s) by (nonlinear_arith);
        let x = k / 4;
        assert((y * self.stride) % 4 == 0) by {
            assert(y * (self.width * 4) == (y * self.width) * 4) by (nonlinear_arith);
        }
        (x, y, k % 4)
    }

    /// Buffers of one shape with the same channels hold the same bytes.
    pub proof fn lemma_same_bytes(self, other: DibBuffer)
        requires
            self.wf(),
            other.wf(),
            self.same_shape(other),
            forall|x: int, y: int, c: int|
                self.has(x, y) && 0 <= c < 4 ==> #[trigger] self.chan(x, y, c) == other.chan(
                    x,
                    y,
                    c,
                ),
        ensures
            self.pixels@ == other.pixels@,
    {
        assert forall|i: int| 0 <= i < self.pixels@.len() implies self.pixels@[i]
            == other.pixels@[i] by {
            let (x, y, c) = self.lemma_coords(i);
            assert(self.chan(x, y, c) == other.chan(x, y, c));
        }
        assert(self.pixels@ =~= other.pixels@);
    }
}

impl Default for DibBuffer {
    fn default() -> (r: Self)
        ensures
            r.width == 0,
            r.height == 0,
            r.stride == 0,
            r.pixels@ == Seq::<u8>::empty(),
    {
        Self { width: 0, height: 0, stride: 0, pixels: Vec::new() }
    }
}

/// Force every alpha byte to 255; a trailing partial pixel is left alone.
pub fn force_opaque(pixels: &mut [u8])
    ensures
        final(pixels)@ == opaque_bytes(old(pixels)@),
{
    let len: usize = pixels.len();
    let ghost before = pixels@;
    let mut i: usize = 0;
    while len - i >= 4
        invariant
            i <= len,
            i % 4 == 0,
            pixels@.len() == len,
            before.len() == len,
            forall|k: int|
                0 <= k < len ==> #[trigger] pixels@[k] == (if k < i && k % 4 == 3 {
                    255
                } else {
                    before[k]
                }),
        decreases len - i,
    {
        pixels[i + 3] = 255;
        i += 4;
    }
    proof {
        assert(pixels@ =~= opaque_bytes(before));
    }
}

/// `bytes` with the last byte of every complete group of four set to 255.
pub open spec fn opaque_bytes(bytes: Seq<u8>) -> Seq<u8> {
    Seq::new(
        bytes.len(),
        |i: int|
            if i % 4 == 3 {
                255
            } else {
                bytes[i]
            },
    )
}

/// Why a raw capture was refused.
#[derive(Clone, Copy, PartialEq, Eq, Structural, Debug)]
pub enum CaptureError {
    /// The pixel source does not hold the monitor's bytes.
    SizeMismatch,
}

/// The pixel extent to capture for a monitor, `None` when either side is zero
/// or does not fit a signed 32-bit extent.
pub fn capture_extent(mon: &MonitorInfo) -> (r: Option<(i32, i32)>)
    ensures
        r is Some <==> 0 < mon.rect.width <= i32::MAX && 0 < mon.rect.height <= i32::MAX,
        r matches Some(e) ==> e.0 == mon.rect.width && e.1 == mon.rect.height,
{
    let w: u32 = mon.rect.width;
    let h: u32 = mon.rect.height;
    if w == 0 || h == 0 || w > 0x7fff_ffff || h > 0x7fff_ffff {
        None
    } else {
        Some((w as i32, h as i32))
    }
}

/// Whether a monitor has a capturable extent.
pub open spec fn has_extent(mon: MonitorInfo) -> bool {
    0 < mon.rect.width <= i32::MAX && 0 < mon.rect.height <= i32::MAX
}

/// Bytes per row of a monitor's frame, at most 32 bits wide.
pub open spec fn frame_stride(mon: MonitorInfo) -> int {
    if mon.rect.width * 4 > u32::MAX {
        u32::MAX as int
    } else {
        mon.rect.width * 4
    }
}

/// Whether a blit of `len` bytes is refused for a monitor: it has an extent,
/// and the bytes are not those of its frame.
pub open spec fn refuses(mon: MonitorInfo, len: nat) -> bool {
    has_extent(mon) && len != saturating_product(frame_stride(mon), mon.rect.height as int)
}

/// Whether `frame` is what the raw bytes blitted for a monitor give.
pub open spec fn blitted(mon: MonitorInfo, bits: Seq<u8>, frame: DibBuffer) -> bool {
    if has_extent(mon) {
        &&& frame.width == mon.rect.width
        &&& frame.height == mon.rect.height
        &&& frame.stride == frame_stride(mon)
        &&& frame.pixels@ == opaque_bytes(bits)
    } else {
        frame.width == 0 && frame.height == 0 && frame.wf()
    }
}

/// The frame of one monitor from the raw bytes blitted for it: the bytes with
/// every alpha forced to 255 (a blit leaves alpha undefined). A monitor without
/// a capturable extent gives the empty frame, whatever the bytes.
pub fn capture_monitor(mon: &MonitorInfo, bits: &[u8]) -> (r: Result<DibBuffer, CaptureError>)
    ensures
        match r {
            Ok(frame) => !refuses(*mon, bits@.len()) && blitted(*mon, bits@, frame),
            Err(e) => refuses(*mon, bits@.len()) && e == CaptureError::SizeMismatch,
        },
{
    match capture_extent(mon) {
        None => Ok(DibBuffer::new(0, 0)),
        Some(_) => {
            let mut frame = DibBuffer::new(mon.rect.width, mon.rect.height);
            if bits.len() != frame.pixels.len() {
                return Err(CaptureError::SizeMismatch);
            }
            frame.pixels = vstd::slice::slice_to_vec(bits);
            force_opaque(frame.pixels.as_mut_slice());
            Ok(frame)
        },
    }
}

/// The first monitor, from `i` on, whose blit is refused.
pub open spec fn first_refused(
    monitors: Seq<MonitorInfo>,
    blits: Seq<Vec<u8>>,
    i: int,
) -> Option<int>
    decreases monitors.len() - i,
{
    if i >= monitors.len() {
        None
    } else if refuses(monitors[i], blits[i]@.len()) {
        Some(i)
    } else {
        first_refused(monitors, blits, i + 1)
    }
}

/// Captures monitors from blits of the virtual screen.
pub struct GdiCapturer {}

impl GdiCapturer {
    pub fn new() -> (r: Self) {
        Self {  }
    }

    /// The frame of every monitor, in order, from the raw bytes blitted for
    /// each. The first refused blit is reported with its monitor's name.
    #[verifier::loop_isolation(false)]
    pub fn capture_all(&self, monitors: Vec<MonitorInfo>, blits: &[Vec<u8>]) -> (r: Result<
        Vec<(MonitorInfo, DibBuffer)>,
        String,
    >)
        requires
            monitors@.len() == blits@.len(),
        ensures
            match (r, first_refused(monitors@, blits@, 0)) {
                (Ok(out), None) => {
                    &&& out@.len() == monitors@.len()
                    &&& forall|i: int|
                        0 <= i < out@.len() ==> (#[trigger] out@[i]).0 == monitors@[i] && blitted(
                            monitors@[i],
                            blits@[i]@,
                            out@[i].1,
                        )
                },
                (Err(message), Some(i)) => message@ == "capturing "@ + monitors@[i].device_name@,
                _ => false,
            },
    {
        let ghost all = monitors@;
        let mut monitors = monitors;
        let mut out: Vec<(MonitorInfo, DibBuffer)> = Vec::new();
        let mut i: usize = 0;
        while i < blits.len()
            invariant
                all.len() == blits@.len(),
                i <= blits@.len(),
                monitors@ == all.skip(i as int),
                out@.len() == i,
                first_refused(all, blits@, 0) == first_refused(all, blits@, i as int),
                forall|k: int|
                    0 <= k < i ==> (#[trigger] out@[k]).0 == all[k] && blitted(
                        all[k],
                        blits@[k]@,
                        out@[k].1,
                    ),
            decreases blits@.len() - i,
        {
            let monitor: MonitorInfo = monitors.remove(0);
            proof {
                assert(monitor == all[i as int]);
                assert(monitors@ =~= all.skip(i + 1));
            }
            match capture_monitor(&monitor, blits[i].as_slice()) {
                Ok(frame) => out.push((monitor, frame)),
                Err(_) => {
                    let mut message: String = "capturing ".to_owned();
                    crate::text::push_text(&mut message, monitor.device_name.as_str());
                    return Err(message);
                },
            }
            i += 1;
        }
        Ok(out)
    }
}

impl Default for GdiCapturer {
    fn default() -> (r: Self) {
        Self::new()
    }
}

/// `v` modulo 2^32, as an unsigned value.
pub open spec fn wrap_u32(v: int) -> u32 {
    (v % 0x1_0000_0000) as u32
}

/// The extent between two signed edges, modulo 2^32.
fn wrapped_extent(from: i32, to: i32) -> (r: u32)
    ensures
        r == wrap_u32(to - from),
{
    let d: i64 = to as i64 - from as i64;
    if d < 0 {
        (d + 0x1_0000_0000) as u32
    } else {
        d as u32
    }
}

/// Monitor description from what the display enumeration reports: the edges
/// of the monitor rectangle, its effective DPI where it is known (96
/// otherwise), the primary flag bit, and the NUL-terminated device name.
fn monitor_from_enumeration(
    left: i32,
    top: i32,
    right: i32,
    bottom: i32,
    dpi: Option<(u32, u32)>,
    flags: u32,
    device: &[u16],
) -> (r: MonitorInfo)
    ensures
        r.rect == (Rect {
            x: left,
            y: top,
            width: wrap_u32(right - left),
            height: wrap_u32(bottom - top),
        }),
        (r.dpi_x, r.dpi_y) == (match dpi {
            Some(d) => d,
            None => (96u32, 96u32),
        }),
        r.is_primary <==> flags % 2 == 1,
        r.device_name@ == utf16_text(until_nul(device@)),
{
    let (dpi_x, dpi_y): (u32, u32) = match dpi {
        Some(d) => d,
        None => (96, 96),
    };
    MonitorInfo {
        rect: Rect::new(left, top, wrapped_extent(left, right), wrapped_extent(top, bottom)),
        dpi_x,
        dpi_y,
        is_primary: flags % 2 == 1,
        device_name: utf16_to_string(device),
    }
}

/// What the display enumeration reports of one monitor.
pub struct ReportedMonitor {
    pub left: i32,
    pub top: i32,
    pub right: i32,
    pub bottom: i32,
    /// Effective DPI, where it is known.
    pub dpi: Option<(u32, u32)>,
    pub flags: u32,
    /// Device name, NUL-terminated.
    pub device: Vec<u16>,
}

impl ReportedMonitor {
    /// Whether `info` describes this monitor.
    pub open spec fn described_by(self, info: MonitorInfo) -> bool {
        &&& info.rect == (Rect {
            x: self.left,
            y: self.top,
            width: wrap_u32(self.right - self.left),
            height: wrap_u32(self.bottom - self.top),
        })
        &&& (info.dpi_x, info.dpi_y) == (match self.dpi {
            Some(d) => d,
            None => (96u32, 96u32),
        })
        &&& (info.is_primary <==> self.flags % 2 == 1)
        &&& info.device_name@ == utf16_text(until_nul(self.device@))
    }
}

/// The monitors the display enumeration reports, in its order.
pub fn enumerate_monitors(reported: &[ReportedMonitor]) -> (r: Vec<MonitorInfo>)
    ensures
        r@.len() == reported@.len(),
        forall|i: int| 0 <= i < r@.len() ==> reported@[i].described_by(#[trigger] r@[i]),
{
    let mut out: Vec<MonitorInfo> = Vec::new();
    let mut i: usize = 0;
    while i < reported.len()
        invariant
            i <= reported@.len(),
            out@.len() == i,
            forall|k: int| 0 <= k < i ==> reported@[k].described_by(#[trigger] out@[k]),
        decreases reported@.len() - i,
    {
        let m = &reported[i];
        out.push(
            monitor_from_enumeration(
                m.left,
                m.top,
                m.right,
                m.bottom,
                m.dpi,
                m.flags,
                m.device.as_slice(),
            ),
        );
        i += 1;
    }
    out
}

/// The units before the first NUL, all of them when there is none.
pub open spec fn until_nul(units: Seq<u16>) -> Seq<u16>
    decreases units.len(),
{
    if units.len() == 0 || units[0] == 0 {
        Seq::empty()
    } else {
        seq![units[0]] + until_nul(units.skip(1))
    }
}

pub open spec fn is_high_surrogate(u: u16) -> bool {
    0xD800 <= u <= 0xDBFF
}

pub open spec fn is_low_surrogate(u: u16) -> bool {
    0xDC00 <= u <= 0xDFFF
}

/// The text UTF-16 units stand for: a surrogate pair is one character, an
/// unpaired surrogate reads as U+FFFD, any other unit is its own character.
pub open spec fn utf16_text(units: Seq<u16>) -> Seq<char>
    decreases units.len(),
{
    if units.len() == 0 {
        Seq::empty()
    } else if is_high_surrogate(units[0]) && units.len() > 1 && is_low_surrogate(units[1]) {
        seq![
            (0x10000 + (units[0] - 0xD800) * 0x400 + (units[1] - 0xDC00)) as char,
        ] + utf16_text(units.skip(2))
    } else if is_high_surrogate(units[0]) || is_low_surrogate(units[0]) {
        seq!['\u{FFFD}'] + utf16_text(units.skip(1))
    } else {
        seq![units[0] as char] + utf16_text(units.skip(1))
    }
}

/// Whether a code point is that of a character: no surrogate, and not past the
/// last one.
pub open spec fn is_scalar(code: u32) -> bool {
    code < 0xD800 || 0xDFFF < code <= 0x10FFFF
}

/// `char::from_u32`: the character with this code point; `None` for surrogates
/// and for what lies past the last code point.
pub assume_specification[ char::from_u32 ](code: u32) -> (r: Option<char>)
    ensures
        r == (if is_scalar(code) {
            Some(code as char)
        } else {
            None::<char>
        });

/// The character of a code point that is none of the surrogates.
fn char_of(code: u32) -> (r: char)
    requires
        is_scalar(code),
    ensures
        r == code as char,
{
    match char::from_u32(code) {
        Some(c) => c,
        None => '\u{FFFD}',
    }
}

/// Decode UTF-16, reading each unpaired surrogate as U+FFFD.
fn decode_utf16(units: &[u16]) -> (r: String)
    ensures
        r@ == utf16_text(units@),
{
    let mut out = String::new();
    let mut i: usize = 0;
    proof {
        assert(units@.skip(0) =~= units@);
        assert(out@ + utf16_text(units@) =~= utf16_text(units@));
    }
    while i < units.len()
        invariant
            i <= units@.len(),
            out@ + utf16_text(units@.skip(i as int)) == utf16_text(units@),
        decreases units@.len() - i,
    {
        let ghost rest = units@.skip(i as int);
        let ghost before = out@;
        let u: u16 = units[i];
        let high: bool = 0xD800 <= u && u <= 0xDBFF;
        let low: bool = 0xDC00 <= u && u <= 0xDFFF;
        let paired: bool = high && i + 1 < units.len() && 0xDC00 <= units[i + 1] && units[i + 1]
            <= 0xDFFF;
        let c: char = if paired {
            char_of(0x10000 + (u as u32 - 0xD800) * 0x400 + (units[i + 1] as u32 - 0xDC00))
        } else if high || low {
            '\u{FFFD}'
        } else {
            char_of(u as u32)
        };
        out.push(c);
        i += if paired {
            2
        } else {
            1
        };
        proof {
            assert(rest[0] == u);
            let now = units@.skip(i as int);
            if paired {
                assert(rest[1] == units@[i - 1]);
                assert(now =~= rest.skip(2));
            } else {
                assert(now =~= rest.skip(1));
                if rest.len() > 1 {
                    assert(rest[1] == units@[i as int]);
                }
            }
            assert(utf16_text(rest) == seq![c] + utf16_text(now));
            assert(out@ + utf16_text(now) =~= before + utf16_text(rest));
        }
    }
    proof {
        assert(units@.skip(i as int).len() == 0);
        assert(out@ =~= utf16_text(units@));
    }
    out
}

proof fn lemma_until_nul(units: Seq<u16>, n: int)
    requires
        0 <= n <= units.len(),
        forall|i: int| 0 <= i < n ==> units[i] != 0,
        n < units.len() ==> units[n] == 0,
    ensures
        until_nul(units) == units.subrange(0, n),
    decreases n,
{
    if n > 0 {
        lemma_until_nul(units.skip(1), n - 1);
        assert(units.subrange(0, n) =~= seq![units[0]] + units.skip(1).subrange(0, n - 1));
    } else {
        assert(units.subrange(0, n) =~= Seq::<u16>::empty());
    }
}

/// Text of a NUL-terminated (or fully used) UTF-16 buffer, up to the first NUL.
pub fn utf16_to_string(s: &[u16]) -> (r: String)
    ensures
        r@ == utf16_text(until_nul(s@)),
{
    let mut end: usize = 0;
    while end < s.len() && s[end] != 0
        invariant
            end <= s@.len(),
            forall|i: int| 0 <= i < end ==> s@[i] != 0,
        decreases s@.len() - end,
    {
        end += 1;
    }
    proof {
        lemma_until_nul(s@, end as int);
    }
    decode_utf16(vstd::slice::slice_subrange(s, 0, end))
}

/// Size in bytes of a `BITMAPINFOHEADER`.
pub const BITMAPINFOHEADER_SIZE: usize = 40;

/// The four little-endian bytes of `v`.
pub open spec fn le32(v: u32) -> Seq<u8> {
    seq![
        (v % 0x100) as u8,
        (v / 0x100 % 0x100) as u8,
        (v / 0x1_0000 % 0x100) as u8,
        (v / 0x100_0000) as u8,
    ]
}

/// The `BITMAPINFOHEADER` of an uncompressed 32-bit bottom-up bitmap: header
/// size, width, height, one plane of 32 bits, no compression, image size, and
/// four zero fields.
pub open spec fn bitmap_header(width: u32, height: u32, image_bytes: int) -> Seq<u8> {
    le32(40) + le32(width) + le32(height) + seq![1u8, 0u8, 32u8, 0u8] + le32(0) + le32(
        wrap_u32(image_bytes),
    ) + le32(0) + le32(0) + le32(0) + le32(0)
}

fn push_le32(out: &mut Vec<u8>, v: u32)
    ensures
        final(out)@ == old(out)@ + le32(v),
{
    out.push((v % 0x100) as u8);
    out.push((v / 0x100 % 0x100) as u8);
    out.push((v / 0x1_0000 % 0x100) as u8);
    out.push((v / 0x100_0000) as u8);
    proof {
        assert(out@ =~= old(out)@ + le32(v));
    }
}

/// Append `len` bytes of a slice from `start` on.
pub fn push_slice(out: &mut Vec<u8>, src: &[u8], start: usize, len: usize)
    requires
        start + len <= src@.len(),
    ensures
        final(out)@ == old(out)@ + src@.subrange(start as int, start + len),
{
    let ghost before = out@;
    let mut i: usize = 0;
    proof {
        assert(src.len() == src@.len());
    }
    while i < len
        invariant
            i <= len,
            start + len <= src.len(),
            src.len() == src@.len(),
            out@ == before + src@.subrange(start as int, start + i),
        decreases len - i,
    {
        out.push(src[start + i]);
        i += 1;
        proof {
            assert(out@ =~= before + src@.subrange(start as int, start + i));
        }
    }
    proof {
        assert(out@ =~= before + src@.subrange(start as int, start + len));
    }
}

/// Overwrite `len` bytes of `dst` from `start` on with those of `src` at the
/// same positions.
pub fn copy_run(dst: &mut Vec<u8>, src: &Vec<u8>, start: usize, len: usize)
    requires
        old(dst)@.len() == src@.len(),
        start + len <= src.len(),
    ensures
        final(dst)@.len() == old(dst)@.len(),
        forall|i: int|
            0 <= i < src@.len() ==> #[trigger] final(dst)@[i] == (if start <= i < start + len {
                src@[i]
            } else {
                old(dst)@[i]
            }),
{
    let ghost before = dst@;
    let mut i: usize = 0;
    while i < len
        invariant
            i <= len,
            start + len <= src.len(),
            dst@.len() == src@.len(),
            before.len() == src@.len(),
            forall|k: int|
                0 <= k < src@.len() ==> #[trigger] dst@[k] == (if start <= k < start + i {
                    src@[k]
                } else {
                    before[k]
                }),
        decreases len - i,
    {
        dst[start + i] = src[start + i];
        i += 1;
    }
}

/// The `BITMAPINFOHEADER` bytes of a frame.
fn pack_header(dib: &DibBuffer) -> (out: Vec<u8>)
    ensures
        out@.len() == BITMAPINFOHEADER_SIZE,
        out@ == bitmap_header(dib.width, dib.height, dib.pixels@.len() as int),
{
    let mut out: Vec<u8> = Vec::new();
    let image_bytes: usize = dib.pixels.len();
    push_le32(&mut out, 40);
    push_le32(&mut out, dib.width);
    push_le32(&mut out, dib.height);
    out.push(1);
    out.push(0);
    out.push(32);
    out.push(0);
    push_le32(&mut out, 0);
    push_le32(&mut out, (image_bytes as u64 % 0x1_0000_0000) as u32);
    push_le32(&mut out, 0);
    push_le32(&mut out, 0);
    push_le32(&mut out, 0);
    push_le32(&mut out, 0);
    proof {
        assert(out@ =~= bitmap_header(dib.width, dib.height, dib.pixels@.len() as int));
    }
    out
}

/// The frame's rows, last row first.
fn rows_bottom_up(dib: &DibBuffer) -> (body: Vec<u8>)
    requires
        dib.wf(),
    ensures
        body@.len() == dib.pixels@.len(),
        forall|x: int, y: int, c: int|
            dib.has(x, y) && 0 <= c < 4 ==> body@[dib.offset(x, dib.height - 1 - y) + c]
                == #[trigger] dib.chan(x, y, c),
{
    let mut body: Vec<u8> = Vec::new();
    let height: usize = dib.height as usize;
    let stride: usize = dib.stride as usize;
    let mut row: usize = 0;
    while row < height
        invariant
            dib.wf(),
            height == dib.height,
            stride == dib.stride,
            stride * height <= dib.pixels.len(),
            0 <= row <= height,
            body@.len() == row * stride,
            forall|x: int, y: int, c: int|
                dib.has(x, y) && height - row <= y && 0 <= c < 4 ==> body@[dib.offset(
                    x,
                    dib.height - 1 - y,
                ) + c] == #[trigger] dib.chan(x, y, c),
        decreases height - row,
    {
        let src_row: usize = height - 1 - row;
        proof {
            assert(0 <= src_row * stride && src_row * stride + stride <= stride * height)
                by (nonlinear_arith)
                requires
                    0 <= src_row < height,
                    0 <= stride,
            ;
        }
        let start: usize = src_row * stride;
        let ghost prior = body@;
        push_slice(&mut body, dib.pixels.as_slice(), start, stride);
        proof {
            assert((row + 1) * stride == row * stride + stride) by (nonlinear_arith);
            assert forall|x: int, y: int, c: int|
                dib.has(x, y) && height - (row + 1) <= y && 0 <= c < 4 implies body@[dib.offset(
                x,
                dib.height - 1 - y,
            ) + c] == #[trigger] dib.chan(x, y, c) by {
                let m = dib.height - 1 - y;
                dib.lemma_offset(x, m);
                dib.lemma_offset(x, y);
                if m < row {
                    assert((m + 1) * stride <= row * stride) by (nonlinear_arith)
                        requires
                            m + 1 <= row,
                            0 <= stride,
                    ;
                    assert(body@[dib.offset(x, m) + c] == prior[dib.offset(x, m) + c]);
                }
            }
        }
        row += 1;
    }
    proof {
        assert(stride * height == height * stride) by (nonlinear_arith);
    }
    body
}

/// Pack a frame into a clipboard `CF_DIB` payload: the bitmap header followed
/// by the rows in bottom-up order with every alpha byte forced to 255.
pub fn pack_cfdib(dib: &DibBuffer) -> (r: Vec<u8>)
    requires
        dib.wf(),
    ensures
        r@.len() == BITMAPINFOHEADER_SIZE + dib.pixels@.len(),
        r@.subrange(0, 40) == bitmap_header(dib.width, dib.height, dib.pixels@.len() as int),
        forall|x: int, y: int, c: int|
            dib.has(x, y) && 0 <= c < 4 ==> r@[40 + dib.offset(x, dib.height - 1 - y) + c]
                == #[trigger] dib.opaque_chan(x, y, c),
{
    let mut out: Vec<u8> = pack_header(dib);
    let ghost header = out@;
    let mut body: Vec<u8> = rows_bottom_up(dib);
    let ghost rows = body@;
    force_opaque(body.as_mut_slice());
    out.append(&mut body);
    proof {
        assert(out@ == header + opaque_bytes(rows));
        assert(out@.subrange(0, 40) =~= header);
        assert forall|x: int, y: int, c: int| dib.has(x, y) && 0 <= c < 4 implies out@[40
            + dib.offset(x, dib.height - 1 - y) + c] == #[trigger] dib.opaque_chan(x, y, c) by {
            let m = dib.height - 1 - y;
            dib.lemma_offset(x, m);
            let k = dib.offset(x, m) + c;
            assert(rows[k] == dib.chan(x, y, c));
            assert(out@[40 + k] == opaque_bytes(rows)[k]);
        }
    }
    out
}

/// The clipboard payload of a frame; an empty frame has none.
pub fn copy_dib_to_clipboard(dib: &DibBuffer) -> (r: Option<Vec<u8>>)
    requires
        dib.wf(),
    ensures
        r is Some <==> dib.width != 0 && dib.height != 0,
        r matches Some(bytes) ==> {
            &&& bytes@.len() == BITMAPINFOHEADER_SIZE + dib.pixels@.len()
            &&& bytes@.subrange(0, 40) == bitmap_header(
                dib.width,
                dib.height,
                dib.pixels@.len() as int,
            )
            &&& forall|x: int, y: int, c: int|
                dib.has(x, y) && 0 <= c < 4 ==> bytes@[40 + dib.offset(x, dib.height - 1 - y) + c]
                    == #[trigger] dib.opaque_chan(x, y, c)
        },
{
    if dib.width == 0 || dib.height == 0 {
        None
    } else {
        Some(pack_cfdib(dib))
    }
}

} // verus!
