//! Pixel operations on [`DibBuffer`].
//!
//! Coordinates are buffer-local physical pixels unless a function says
//! virtual-screen.

use crate::capture::{copy_run, push_slice, DibBuffer};
use crate::overlay::factor::Factor;
use crate::settings::model::Rgb;
use crate::geometry::{bounded, max_i64, min_i64, narrow_i32, sat_i32, Point, Rect};
use vstd::math::{max, min};
use vstd::prelude::*;

verus! {

/// Channel value `ch` blended toward black at `dim_alpha`.
pub open spec fn dimmed(ch: u8, dim_alpha: u8) -> u8 {
    (ch * (255 - dim_alpha) / 255) as u8
}

fn dim_channel(ch: u8, dim_alpha: u8) -> (r: u8)
    ensures
        r == dimmed(ch, dim_alpha),
{
    proof {
        assert(0 <= ch * (255 - dim_alpha) <= 255 * 255) by (nonlinear_arith)
            requires
                0 <= ch <= 255,
                0 <= dim_alpha <= 255,
        ;
    }
    (ch as u32 * (255 - dim_alpha as u32) / 255) as u8
}

/// `after` is `before` blended toward black at `dim_alpha`.
pub open spec fn is_darkened(before: DibBuffer, dim_alpha: u8, after: DibBuffer) -> bool {
    &&& after.wf()
    &&& after.same_shape(before)
    &&& forall|x: int, y: int, c: int|
        before.has(x, y) && 0 <= c < 4 ==> #[trigger] after.chan(x, y, c) == (if c == 3 {
            before.chan(x, y, c)
        } else {
            dimmed(before.chan(x, y, c), dim_alpha)
        })
}

/// Darken `buf` in place by blending toward black:
/// `channel' = channel * (255 - dim_alpha) / 255` for B, G, R; alpha untouched.
/// `dim_alpha` 0 = no change, 255 = fully black.
pub fn darken(buf: &mut DibBuffer, dim_alpha: u8)
    requires
        old(buf).wf(),
    ensures
        final(buf).wf(),
        final(buf).same_shape(*old(buf)),
        forall|x: int, y: int, c: int|
            old(buf).has(x, y) && 0 <= c < 4 ==> #[trigger] final(buf).chan(x, y, c) == (if c == 3 {
                old(buf).chan(x, y, c)
            } else {
                dimmed(old(buf).chan(x, y, c), dim_alpha)
            }),
        is_darkened(*old(buf), dim_alpha, *final(buf)),
{
    let ghost before = *buf;
    let len: usize = buf.pixels.len();
    let mut i: usize = 0;
    while i < len
        invariant
            i <= len,
            buf.pixels@.len() == len,
            before.pixels@.len() == len,
            buf.same_shape(before),
            forall|k: int|
                0 <= k < len ==> #[trigger] buf.pixels@[k] == (if k < i && k % 4 != 3 {
                    dimmed(before.pixels@[k], dim_alpha)
                } else {
                    before.pixels@[k]
                }),
        decreases len - i,
    {
        if i % 4 != 3 {
            buf.pixels[i] = dim_channel(buf.pixels[i], dim_alpha);
        }
        i += 1;
    }
    proof {
        assert forall|x: int, y: int, c: int| before.has(x, y) && 0 <= c < 4 implies
            #[trigger] buf.chan(x, y, c) == (if c == 3 {
            before.chan(x, y, c)
        } else {
            dimmed(before.chan(x, y, c), dim_alpha)
        }) by {
            before.lemma_offset(x, y);
        }
    }
}

/// Darkening at 0 changes nothing; at 255 it leaves black.
pub proof fn lemma_darken_endpoints(ch: u8)
    ensures
        dimmed(ch, 0) == ch,
        dimmed(ch, 255) == 0,
{
}

/// A stronger veil never leaves a channel brighter.
pub proof fn lemma_darken_monotone(ch: u8, a: u8, b: u8)
    requires
        a <= b,
    ensures
        dimmed(ch, b) <= dimmed(ch, a) <= ch,
{
    assert(0 <= ch * (255 - b) <= ch * (255 - a) <= ch * 255) by (nonlinear_arith)
        requires
            0 <= a <= b <= 255,
            0 <= ch,
    ;
}

/// Whether pixel `(x, y)` lies within `radius` of `center`.
pub open spec fn in_circle(x: int, y: int, center: Point, radius: u32) -> bool {
    (x - center.x) * (x - center.x) + (y - center.y) * (y - center.y) <= radius * radius
}

/// Floor integer square root.
pub fn isqrt_u64(n: u64) -> (r: u64)
    ensures
        r * r <= n < (r + 1) * (r + 1),
        r <= u32::MAX,
{
    let mut lo: u64 = 0;
    let mut hi: u64 = 0x1_0000_0000;
    while hi - lo > 1
        invariant
            0 <= lo < hi <= 0x1_0000_0000,
            lo * lo <= n < hi * hi,
        decreases hi - lo,
    {
        let mid: u64 = lo + (hi - lo) / 2;
        proof {
            assert(mid * mid <= 0xffff_ffff * 0xffff_ffff) by (nonlinear_arith)
                requires
                    0 <= mid <= 0xffff_ffff,
            ;
        }
        if mid * mid <= n {
            lo = mid;
        } else {
            hi = mid;
        }
    }
    lo
}

/// A signed distance is within the root of `k` exactly when its square is
/// within `k`.
proof fn lemma_root_bounds(t: int, k: int, root: int)
    requires
        0 <= root,
        root * root <= k < (root + 1) * (root + 1),
    ensures
        t * t <= k <==> -root <= t <= root,
{
    if -root <= t <= root {
        assert(t * t <= root * root) by (nonlinear_arith)
            requires
                -root <= t <= root,
        ;
    } else {
        assert(t * t >= (root + 1) * (root + 1)) by (nonlinear_arith)
            requires
                t <= -root - 1 || t >= root + 1,
                0 <= root,
        ;
    }
}

/// `after` is `before` with the pixels of `original` within `radius` of
/// `center`.
pub open spec fn is_punched(
    before: DibBuffer,
    original: DibBuffer,
    center: Point,
    radius: u32,
    after: DibBuffer,
) -> bool {
    &&& after.wf()
    &&& after.same_shape(before)
    &&& forall|x: int, y: int, c: int|
        original.has(x, y) && 0 <= c < 4 ==> #[trigger] after.chan(x, y, c) == (if in_circle(
            x,
            y,
            center,
            radius,
        ) {
            original.chan(x, y, c)
        } else {
            before.chan(x, y, c)
        })
}

/// Restore the original image inside the spotlight circle: copy pixels from
/// `src_original` into `dst_darkened` for every pixel within `radius` of
/// `center` (`dx*dx + dy*dy <= radius*radius`). `center` may lie outside the
/// buffer. Cost is proportional to the circle's area: one contiguous copy per
/// row.
pub fn spotlight_hole(
    dst_darkened: &mut DibBuffer,
    src_original: &DibBuffer,
    center: Point,
    radius: u32,
)
    requires
        old(dst_darkened).wf(),
        src_original.wf(),
        src_original.same_shape(*old(dst_darkened)),
    ensures
        final(dst_darkened).wf(),
        final(dst_darkened).same_shape(*old(dst_darkened)),
        forall|x: int, y: int, c: int|
            src_original.has(x, y) && 0 <= c < 4 ==> #[trigger] final(dst_darkened).chan(x, y, c)
                == (if in_circle(x, y, center, radius) {
                src_original.chan(x, y, c)
            } else {
                old(dst_darkened).chan(x, y, c)
            }),
        is_punched(*old(dst_darkened), *src_original, center, radius, *final(dst_darkened)),
{
    let ghost before = *dst_darkened;
    let w: u32 = src_original.width;
    let h: u32 = src_original.height;
    if w == 0 || h == 0 {
        return;
    }
    // Vertical span the circle can touch, clipped to the buffer.
    let y0: i64 = max_i64(center.y as i64 - radius as i64, 0);
    let y1: i64 = min_i64(center.y as i64 + radius as i64, h as i64 - 1);
    let stride: usize = src_original.stride as usize;
    let mut y: i64 = y0;
    proof {
        assert forall|px: int, py: int| src_original.has(px, py) && py < y0 implies !in_circle(
            px,
            py,
            center,
            radius,
        ) by {
            lemma_outside_rows(px, py, center, radius);
        }
    }
    while y <= y1
        invariant
            before.wf(),
            src_original.wf(),
            dst_darkened.wf(),
            src_original.same_shape(before),
            dst_darkened.same_shape(before),
            w == src_original.width,
            0 < w,
            stride == src_original.stride,
            0 <= y0 <= y,
            y1 <= src_original.height - 1,
            forall|px: int, py: int, c: int|
                src_original.has(px, py) && 0 <= c < 4 ==> #[trigger] dst_darkened.chan(px, py, c)
                    == (if py < y && in_circle(px, py, center, radius) {
                    src_original.chan(px, py, c)
                } else {
                    before.chan(px, py, c)
                }),
        decreases y1 + 1 - y,
    {
        let (x0, x1): (i64, i64) = chord(center, radius, y, w);
        let ghost prior = *dst_darkened;
        if x0 <= x1 {
            proof {
                src_original.lemma_offset(x0 as int, y as int);
                src_original.lemma_offset(x1 as int, y as int);
                assert(src_original.pixels.len() == src_original.pixels@.len());
            }
            let start: usize = y as usize * stride + x0 as usize * 4;
            let len: usize = ((x1 - x0 + 1) * 4) as usize;
            copy_run(&mut dst_darkened.pixels, &src_original.pixels, start, len);
            proof {
                assert forall|px: int, py: int, c: int|
                    src_original.has(px, py) && 0 <= c < 4 implies #[trigger] dst_darkened.chan(
                    px,
                    py,
                    c,
                ) == (if py < y + 1 && in_circle(px, py, center, radius) {
                    src_original.chan(px, py, c)
                } else {
                    before.chan(px, py, c)
                }) by {
                    src_original.lemma_row_run(y as int, x0 as int, x1 as int, px, py, c);
                    src_original.lemma_offset(px, py);
                    assert(prior.chan(px, py, c) == (if py < y && in_circle(
                        px,
                        py,
                        center,
                        radius,
                    ) {
                        src_original.chan(px, py, c)
                    } else {
                        before.chan(px, py, c)
                    }));
                }
            }
        }
        y += 1;
    }
    proof {
        assert forall|px: int, py: int| src_original.has(px, py) && py >= y implies !in_circle(
            px,
            py,
            center,
            radius,
        ) by {
            lemma_outside_rows(px, py, center, radius);
        }
    }
}

/// The columns of `0..width` that the circle covers in row `y`, as an
/// inclusive range; the range is empty when it covers none.
fn chord(center: Point, radius: u32, y: i64, width: u32) -> (r: (i64, i64))
    requires
        0 <= y <= u32::MAX,
    ensures
        0 <= r.0,
        r.1 < width,
        forall|px: int|
            0 <= px < width ==> (#[trigger] in_circle(px, y as int, center, radius) <==> r.0 <= px
                <= r.1),
{
    let cx: i64 = center.x as i64;
    let cy: i64 = center.y as i64;
    let dy: i64 = if y >= cy {
        y - cy
    } else {
        cy - y
    };
    if dy > radius as i64 {
        proof {
            assert forall|px: int| 0 <= px < width implies !#[trigger] in_circle(
                px,
                y as int,
                center,
                radius,
            ) by {
                lemma_outside_rows(px, y as int, center, radius);
            }
        }
        return (0, -1);
    }
    proof {
        assert(0 <= dy * dy <= radius * radius <= 0xffff_ffff * 0xffff_ffff) by (nonlinear_arith)
            requires
                0 <= dy <= radius <= 0xffff_ffff,
        ;
        assert(dy * dy == (y - cy) * (y - cy)) by (nonlinear_arith)
            requires
                dy == y - cy || dy == cy - y,
        ;
    }
    // Widest horizontal half-chord at this row.
    let room: u64 = radius as u64 * radius as u64 - dy as u64 * dy as u64;
    let dx_max: i64 = isqrt_u64(room) as i64;
    let x0: i64 = max_i64(cx - dx_max, 0);
    let x1: i64 = min_i64(cx + dx_max, width as i64 - 1);
    proof {
        assert forall|px: int| 0 <= px < width implies (#[trigger] in_circle(
            px,
            y as int,
            center,
            radius,
        ) <==> x0 <= px <= x1) by {
            lemma_root_bounds(px - cx, room as int, dx_max as int);
        }
    }
    (x0, x1)
}

/// A row farther from the centre than the radius holds no pixel of the circle.
proof fn lemma_outside_rows(x: int, y: int, center: Point, radius: u32)
    ensures
        y - center.y > radius || center.y - y > radius ==> !in_circle(x, y, center, radius),
{
    if y - center.y > radius || center.y - y > radius {
        let dx = x - center.x;
        let dy = y - center.y;
        assert(dy * dy > radius * radius) by (nonlinear_arith)
            requires
                dy > radius || -dy > radius,
                0 <= radius,
        ;
        assert(dx * dx >= 0) by (nonlinear_arith);
    }
}

/// Resampling kernel for [`zoom_resample`].
#[derive(Clone, Copy, PartialEq, Eq, Structural, Hash, Debug)]
pub enum ZoomFilter {
    Nearest,
    Bilinear,
}

impl Default for ZoomFilter {
    fn default() -> (r: Self)
        ensures
            r == ZoomFilter::Nearest,
    {
        ZoomFilter::Nearest
    }
}

/// The source coordinate of `0..n` nearest to `v`: samples outside replicate
/// the edge.
pub open spec fn edge(v: int, n: u32) -> int {
    bounded(v, 0, n - 1)
}

fn edge_of(v: i64, n: u32) -> (r: u32)
    requires
        0 < n,
    ensures
        r == edge(v as int, n),
{
    if v < 0 {
        0
    } else if v > n as i64 - 1 {
        n - 1
    } else {
        v as u32
    }
}

/// Whether a buffer of this size keeps its row length in 32 bits and its
/// bytes in memory range.
pub open spec fn size_fits(width: u32, height: u32) -> bool {
    width * 4 <= u32::MAX && width * 4 * height <= usize::MAX
}

/// Gather: output pixel `(ox, oy)` is the source pixel at `(cols[ox],
/// rows[oy])`, coordinates outside the source clipped to the nearest edge
/// pixel. An empty source or output gives zeroed pixels.
pub fn resample_nearest(src: &DibBuffer, cols: &[i32], rows: &[i32]) -> (out: DibBuffer)
    requires
        src.wf(),
        cols@.len() <= u32::MAX,
        rows@.len() <= u32::MAX,
        size_fits(cols@.len() as u32, rows@.len() as u32),
    ensures
        out.wf(),
        out.width == cols@.len(),
        out.height == rows@.len(),
        forall|x: int, y: int, c: int|
            out.has(x, y) && 0 <= c < 4 ==> #[trigger] out.chan(x, y, c) == (if src.width == 0
                || src.height == 0 {
                0
            } else {
                src.chan(edge(cols@[x] as int, src.width), edge(rows@[y] as int, src.height), c)
            }),
{
    let vw: u32 = cols.len() as u32;
    let vh: u32 = rows.len() as u32;
    let mut out = DibBuffer::new(vw, vh);
    if src.width == 0 || src.height == 0 {
        proof {
            assert forall|x: int, y: int, c: int| out.has(x, y) && 0 <= c < 4 implies
                #[trigger] out.chan(x, y, c) == 0 by {
                out.lemma_offset(x, y);
            }
        }
        return out;
    }
    let mut oy: u32 = 0;
    while oy < vh
        invariant
            src.wf(),
            0 < src.width,
            0 < src.height,
            out.wf(),
            out.width == vw,
            out.height == vh,
            vw == cols@.len(),
            vh == rows@.len(),
            oy <= vh,
            forall|x: int, y: int, c: int|
                out.has(x, y) && y < oy && 0 <= c < 4 ==> #[trigger] out.chan(x, y, c) == src.chan(
                    edge(cols@[x] as int, src.width),
                    edge(rows@[y] as int, src.height),
                    c,
                ),
        decreases vh - oy,
    {
        let sy: u32 = edge_of(rows[oy as usize] as i64, src.height);
        let mut ox: u32 = 0;
        while ox < vw
            invariant
                src.wf(),
                0 < src.width,
                0 < src.height,
                out.wf(),
                out.width == vw,
                out.height == vh,
                vw == cols@.len(),
                vh == rows@.len(),
                oy < vh,
                ox <= vw,
                sy == edge(rows@[oy as int] as int, src.height),
                forall|x: int, y: int, c: int|
                    out.has(x, y) && (y < oy || y == oy && x < ox) && 0 <= c < 4
                        ==> #[trigger] out.chan(x, y, c) == src.chan(
                        edge(cols@[x] as int, src.width),
                        edge(rows@[y] as int, src.height),
                        c,
                    ),
            decreases vw - ox,
        {
            let sx: u32 = edge_of(cols[ox as usize] as i64, src.width);
            out.put(ox, oy, src.get(sx, sy));
            ox += 1;
        }
        oy += 1;
    }
    out
}

/// The blend of the four source pixels around an output pixel, one channel at
/// a time: `blend(top_left, top_right, bottom_left, bottom_right, ox, oy)`.
fn resample_bilinear<F: Fn(u8, u8, u8, u8, u32, u32) -> u8>(
    src: &DibBuffer,
    cols: &[i32],
    rows: &[i32],
    blend: &F,
) -> (out: DibBuffer)
    requires
        src.wf(),
        0 < src.width,
        0 < src.height,
        cols@.len() <= u32::MAX,
        rows@.len() <= u32::MAX,
        size_fits(cols@.len() as u32, rows@.len() as u32),
        forall|a: u8, b: u8, c: u8, d: u8, x: u32, y: u32|
            #[trigger] call_requires(*blend, (a, b, c, d, x, y)),
    ensures
        out.wf(),
        out.width == cols@.len(),
        out.height == rows@.len(),
        forall|x: int, y: int, c: int|
            out.has(x, y) && 0 <= c < 4 ==> call_ensures(
                *blend,
                quad(src, cols@[x], rows@[y], x, y, c),
                #[trigger] out.chan(x, y, c),
            ),
{
    let vw: u32 = cols.len() as u32;
    let vh: u32 = rows.len() as u32;
    let mut out = DibBuffer::new(vw, vh);
    let mut oy: u32 = 0;
    while oy < vh
        invariant
            src.wf(),
            0 < src.width,
            0 < src.height,
            out.wf(),
            out.width == vw,
            out.height == vh,
            vw == cols@.len(),
            vh == rows@.len(),
            oy <= vh,
            forall|a: u8, b: u8, c: u8, d: u8, x: u32, y: u32|
                #[trigger] call_requires(*blend, (a, b, c, d, x, y)),
            forall|x: int, y: int, c: int|
                out.has(x, y) && y < oy && 0 <= c < 4 ==> call_ensures(
                    *blend,
                    quad(src, cols@[x], rows@[y], x, y, c),
                    #[trigger] out.chan(x, y, c),
                ),
        decreases vh - oy,
    {
        let y0: u32 = edge_of(rows[oy as usize] as i64, src.height);
        let y1: u32 = edge_of(rows[oy as usize] as i64 + 1, src.height);
        let mut ox: u32 = 0;
        while ox < vw
            invariant
                src.wf(),
                0 < src.width,
                0 < src.height,
                out.wf(),
                out.width == vw,
                out.height == vh,
                vw == cols@.len(),
                vh == rows@.len(),
                oy < vh,
                ox <= vw,
                y0 == edge(rows@[oy as int] as int, src.height),
                y1 == edge(rows@[oy as int] + 1, src.height),
                forall|a: u8, b: u8, c: u8, d: u8, x: u32, y: u32|
                    #[trigger] call_requires(*blend, (a, b, c, d, x, y)),
                forall|x: int, y: int, c: int|
                    out.has(x, y) && (y < oy || y == oy && x < ox) && 0 <= c < 4 ==> call_ensures(
                        *blend,
                        quad(src, cols@[x], rows@[y], x, y, c),
                        #[trigger] out.chan(x, y, c),
                    ),
            decreases vw - ox,
        {
            let x0: u32 = edge_of(cols[ox as usize] as i64, src.width);
            let x1: u32 = edge_of(cols[ox as usize] as i64 + 1, src.width);
            let a = src.get(x0, y0);
            let b = src.get(x1, y0);
            let c = src.get(x0, y1);
            let d = src.get(x1, y1);
            let px: [u8; 4] = [
                blend(a[0], b[0], c[0], d[0], ox, oy),
                blend(a[1], b[1], c[1], d[1], ox, oy),
                blend(a[2], b[2], c[2], d[2], ox, oy),
                blend(a[3], b[3], c[3], d[3], ox, oy),
            ];
            let ghost prior = out;
            out.put(ox, oy, px);
            proof {
                assert forall|x: int, y: int, k: int|
                    out.has(x, y) && (y < oy || y == oy && x < ox + 1) && 0 <= k
                        < 4 implies call_ensures(
                    *blend,
                    quad(src, cols@[x], rows@[y], x, y, k),
                    #[trigger] out.chan(x, y, k),
                ) by {
                    if x == ox && y == oy {
                        assert(a@[k] == src.chan(x0 as int, y0 as int, k));
                        assert(b@[k] == src.chan(x1 as int, y0 as int, k));
                        assert(c@[k] == src.chan(x0 as int, y1 as int, k));
                        assert(d@[k] == src.chan(x1 as int, y1 as int, k));
                        assert(k == 0 || k == 1 || k == 2 || k == 3);
                    } else {
                        assert(prior.has(x, y));
                        assert(out.chan(x, y, k) == prior.chan(x, y, k));
                    }
                }
            }
            ox += 1;
        }
        oy += 1;
    }
    out
}

/// The arguments of one channel's blend at output pixel `(x, y)`, whose top
/// left source pixel is `(col, row)`.
pub open spec fn quad(src: &DibBuffer, col: i32, row: i32, x: int, y: int, c: int) -> (
    u8,
    u8,
    u8,
    u8,
    u32,
    u32,
) {
    (
        src.chan(edge(col as int, src.width), edge(row as int, src.height), c),
        src.chan(edge(col + 1, src.width), edge(row as int, src.height), c),
        src.chan(edge(col as int, src.width), edge(row + 1, src.height), c),
        src.chan(edge(col + 1, src.width), edge(row + 1, src.height), c),
        x as u32,
        y as u32,
    )
}

/// Resample `src` into a new buffer of `viewport.width` by `viewport.height`
/// pixels. `viewport.x` and `viewport.y` are ignored.
///
/// `cols` and `rows` map output columns and rows to source coordinates, which
/// may lie outside the source: samples are clipped to the nearest edge pixel.
/// [`ZoomFilter::Nearest`] takes the pixel there. [`ZoomFilter::Bilinear`]
/// hands `blend` the pixel there and its right, lower and lower-right
/// neighbours, one channel at a time. An empty source gives zeroed pixels.
pub fn zoom_resample<F: Fn(u8, u8, u8, u8, u32, u32) -> u8>(
    src: &DibBuffer,
    viewport: Rect,
    cols: &[i32],
    rows: &[i32],
    filter: ZoomFilter,
    blend: F,
) -> (out: DibBuffer)
    requires
        src.wf(),
        cols@.len() == viewport.width,
        rows@.len() == viewport.height,
        size_fits(viewport.width, viewport.height),
        forall|a: u8, b: u8, c: u8, d: u8, x: u32, y: u32|
            #[trigger] call_requires(blend, (a, b, c, d, x, y)),
    ensures
        out.wf(),
        out.width == viewport.width,
        out.height == viewport.height,
        forall|x: int, y: int, c: int|
            #![trigger out.chan(x, y, c)]
            out.has(x, y) && 0 <= c < 4 ==> if src.width == 0 || src.height == 0 {
                out.chan(x, y, c) == 0
            } else {
                match filter {
                    ZoomFilter::Nearest => out.chan(x, y, c) == src.chan(
                        edge(cols@[x] as int, src.width),
                        edge(rows@[y] as int, src.height),
                        c,
                    ),
                    ZoomFilter::Bilinear => call_ensures(
                        blend,
                        quad(src, cols@[x], rows@[y], x, y, c),
                        out.chan(x, y, c),
                    ),
                }
            },
{
    if src.width == 0 || src.height == 0 {
        return resample_nearest(src, cols, rows);
    }
    match filter {
        ZoomFilter::Nearest => resample_nearest(src, cols, rows),
        ZoomFilter::Bilinear => resample_bilinear(src, cols, rows, &blend),
    }
}

/// Left edge of the pixels between two drag coordinates, clipped at 0.
pub open spec fn span_start(a: i32, b: i32) -> int {
    max(min(a as int, b as int), 0)
}

/// Exclusive right edge of the pixels between two drag coordinates, clipped at
/// `n`.
pub open spec fn span_end(a: i32, b: i32, n: u32) -> int {
    min(max(a as int, b as int), n as int)
}

/// Whether the rectangle between two drag endpoints, clipped to `width` by
/// `height` pixels, has positive area.
pub open spec fn crop_nonempty(a: Point, b: Point, width: u32, height: u32) -> bool {
    span_start(a.x, b.x) < span_end(a.x, b.x, width) && span_start(a.y, b.y) < span_end(
        a.y,
        b.y,
        height,
    )
}

/// `out` is the part of `src` between the drag endpoints, clipped to `src`.
pub open spec fn is_crop(src: &DibBuffer, a: Point, b: Point, out: DibBuffer) -> bool {
    &&& out.wf()
    &&& out.width == span_end(a.x, b.x, src.width) - span_start(a.x, b.x)
    &&& out.height == span_end(a.y, b.y, src.height) - span_start(a.y, b.y)
    &&& forall|x: int, y: int, c: int|
        out.has(x, y) && 0 <= c < 4 ==> #[trigger] out.chan(x, y, c) == src.chan(
            span_start(a.x, b.x) + x,
            span_start(a.y, b.y) + y,
            c,
        )
}

/// Crop `src` to the rectangle between drag endpoints `a` and `b` given in any
/// drag direction, clipped to buffer bounds. `None` when the clipped
/// rectangle is empty.
pub fn crop_normalized(src: &DibBuffer, a: Point, b: Point) -> (r: Option<DibBuffer>)
    requires
        src.wf(),
    ensures
        r is Some <==> crop_nonempty(a, b, src.width, src.height),
        r matches Some(out) ==> is_crop(src, a, b, out),
{
    let x0: i64 = max_i64(min_i64(a.x as i64, b.x as i64), 0);
    let y0: i64 = max_i64(min_i64(a.y as i64, b.y as i64), 0);
    let x1: i64 = min_i64(max_i64(a.x as i64, b.x as i64), src.width as i64);
    let y1: i64 = min_i64(max_i64(a.y as i64, b.y as i64), src.height as i64);
    if x1 <= x0 || y1 <= y0 {
        return None;
    }
    let w: u32 = (x1 - x0) as u32;
    let h: u32 = (y1 - y0) as u32;
    let row_bytes: usize = w as usize * 4;
    let mut pixels: Vec<u8> = Vec::new();
    let mut j: usize = 0;
    while j < h as usize
        invariant
            src.wf(),
            0 <= x0 < x1 <= src.width,
            0 <= y0 < y1 <= src.height,
            w == x1 - x0,
            h == y1 - y0,
            row_bytes == w * 4,
            0 <= j <= h,
            pixels@.len() == j * row_bytes,
            forall|y: int, k: int|
                0 <= y < j && 0 <= k < row_bytes ==> #[trigger] pixels@[y * row_bytes + k]
                    == src.pixels@[src.offset(x0 as int, y0 + y) + k],
        decreases h - j,
    {
        proof {
            src.lemma_offset(x0 as int, y0 + j);
            src.lemma_offset(x1 - 1, y0 + j);
            assert(src.pixels.len() == src.pixels@.len());
        }
        let start: usize = (y0 as usize + j) * src.stride as usize + x0 as usize * 4;
        let ghost prior = pixels@;
        push_slice(&mut pixels, src.pixels.as_slice(), start, row_bytes);
        proof {
            assert((j + 1) * row_bytes == j * row_bytes + row_bytes) by (nonlinear_arith);
            assert forall|y: int, k: int|
                0 <= y < j + 1 && 0 <= k < row_bytes implies #[trigger] pixels@[y * row_bytes + k]
                == src.pixels@[src.offset(x0 as int, y0 + y) + k] by {
                if y < j {
                    assert(0 <= y * row_bytes && y * row_bytes + k < j * row_bytes)
                        by (nonlinear_arith)
                        requires
                            0 <= y < j,
                            0 <= k < row_bytes,
                    ;
                    assert(pixels@[y * row_bytes + k] == prior[y * row_bytes + k]);
                }
            }
        }
        j += 1;
    }
    let out = DibBuffer { width: w, height: h, stride: w * 4, pixels };
    proof {
        assert(h * row_bytes == row_bytes * h) by (nonlinear_arith);
        assert forall|x: int, y: int, c: int| out.has(x, y) && 0 <= c < 4 implies
            #[trigger] out.chan(x, y, c) == src.chan(x0 + x, y0 + y, c) by {
            assert(out.pixels@[y * row_bytes + (x * 4 + c)] == src.pixels@[src.offset(
                x0 as int,
                y0 + y,
            ) + (x * 4 + c)]);
        }
    }
    Some(out)
}

/// A crop does not depend on the drag direction: swapping the endpoints, or
/// swapping only one of their axes, selects the same pixels.
pub proof fn lemma_crop_direction(src: &DibBuffer, a: Point, b: Point, out: DibBuffer)
    requires
        is_crop(src, a, b, out),
    ensures
        is_crop(src, b, a, out),
        is_crop(src, Point { x: b.x, y: a.y }, Point { x: a.x, y: b.y }, out),
        is_crop(src, Point { x: a.x, y: b.y }, Point { x: b.x, y: a.y }, out),
{
}

/// Cropping from corner to corner gives the whole buffer back.
pub proof fn lemma_crop_whole(src: &DibBuffer, out: DibBuffer)
    requires
        src.wf(),
        src.width <= i32::MAX,
        src.height <= i32::MAX,
        is_crop(
            src,
            Point { x: 0, y: 0 },
            Point { x: src.width as i32, y: src.height as i32 },
            out,
        ),
    ensures
        out.same_shape(*src),
        out.pixels@ == src.pixels@,
{
    out.lemma_same_bytes(*src);
}

/// Index of the first monitor rectangle (virtual-screen coordinates)
/// containing `point`; `None` when outside all of them.
pub fn monitor_index_at(point: Point, monitors: &[Rect]) -> (r: Option<usize>)
    ensures
        r == monitor_at(point, monitors@),
{
    let mut i: usize = 0;
    while i < monitors.len()
        invariant
            i <= monitors@.len(),
            forall|k: int|
                0 <= k < i ==> !(#[trigger] monitors@[k]).covers(point.x as int, point.y as int),
        decreases monitors@.len() - i,
    {
        if monitors[i].contains(point) {
            proof {
                lemma_monitor_at(point, monitors@, i as int);
            }
            return Some(i);
        }
        i += 1;
    }
    proof {
        lemma_monitor_at(point, monitors@, i as int);
    }
    None
}

/// The first of `monitors` that covers `point`.
pub open spec fn monitor_at(point: Point, monitors: Seq<Rect>) -> Option<usize>
    decreases monitors.len(),
{
    if monitors.len() == 0 {
        None
    } else {
        match monitor_at(point, monitors.drop_last()) {
            Some(i) => Some(i),
            None => if monitors.last().covers(point.x as int, point.y as int) {
                Some((monitors.len() - 1) as usize)
            } else {
                None
            },
        }
    }
}

/// [`monitor_at`] picks the first covering rectangle.
pub proof fn lemma_monitor_at(point: Point, monitors: Seq<Rect>, n: int)
    requires
        0 <= n <= monitors.len(),
        monitors.len() <= usize::MAX,
        forall|k: int|
            0 <= k < n ==> !(#[trigger] monitors[k]).covers(point.x as int, point.y as int),
        n < monitors.len() ==> monitors[n].covers(point.x as int, point.y as int),
    ensures
        monitor_at(point, monitors) == (if n < monitors.len() {
            Some(n as usize)
        } else {
            None
        }),
    decreases monitors.len(),
{
    if monitors.len() > 0 {
        let rest = monitors.drop_last();
        if n < rest.len() {
            lemma_monitor_at(point, rest, n);
        } else {
            lemma_monitor_at(point, rest, rest.len() as int);
        }
    }
}

/// Channel value `ch` blended toward `fg` at `alpha`.
pub open spec fn blended(ch: u8, fg: u8, alpha: u8) -> u8 {
    ((ch * (255 - alpha) + fg * alpha) / 255) as u8
}

/// A blend toward black is a darkening.
pub proof fn lemma_blend_black(ch: u8, alpha: u8)
    ensures
        blended(ch, 0, alpha) == dimmed(ch, alpha),
{
}

/// A blend at 0 keeps the channel; at 255 it is the colour.
pub proof fn lemma_blend_endpoints(ch: u8, fg: u8)
    ensures
        blended(ch, fg, 0) == ch,
        blended(ch, fg, 255) == fg,
{
}

/// Channel value `ch` blended toward `fg` at `alpha`.
pub fn blend_channel(ch: u8, fg: u8, alpha: u8) -> (r: u8)
    ensures
        r == blended(ch, fg, alpha),
{
    proof {
        assert(0 <= ch * (255 - alpha) <= 255 * (255 - alpha)) by (nonlinear_arith)
            requires
                0 <= ch <= 255,
                0 <= alpha <= 255,
        ;
        assert(0 <= fg * alpha <= 255 * alpha) by (nonlinear_arith)
            requires
                0 <= fg <= 255,
                0 <= alpha,
        ;
    }
    ((ch as u32 * (255 - alpha as u32) + fg as u32 * alpha as u32) / 255) as u8
}

/// Channel `c` of a pixel blended toward `color`: alpha is kept.
pub open spec fn tinted(ch: u8, color: Rgb, alpha: u8, c: int) -> u8 {
    if c == 3 {
        ch
    } else {
        blended(ch, color.chan(c), alpha)
    }
}

/// A pixel blended toward `color`: alpha is kept.
pub fn tint(px: [u8; 4], color: Rgb, alpha: u8) -> (r: [u8; 4])
    ensures
        forall|c: int| 0 <= c < 4 ==> #[trigger] r@[c] == tinted(px@[c], color, alpha, c),
{
    [
        blend_channel(px[0], color.b, alpha),
        blend_channel(px[1], color.g, alpha),
        blend_channel(px[2], color.r, alpha),
        px[3],
    ]
}

/// What the active layers contribute to one monitor's frame.
#[derive(Clone, Copy, PartialEq, Eq, Debug)]
pub struct RenderState {
    /// `(factor, focus)` when the zoom layer magnifies this monitor.
    pub zoom: Option<(Factor, Point)>,
    /// `(center, radius)` when the spotlight is on this monitor.
    pub spotlight: Option<(Point, u32)>,
    /// Drag endpoints of the selection on this monitor.
    pub snip: Option<(Point, Point)>,
    /// Capture mode is active.
    pub capture: bool,
}

/// Thickness of the frame border that marks capture mode.
pub const CAPTURE_FRAME_THICKNESS: u32 = 2;

/// The accent colour of the capture frame and of selection borders.
pub open spec fn accent_spec() -> Rgb {
    Rgb { r: 0x3d, g: 0xa9, b: 0xfc }
}

/// The accent colour of the capture frame and of selection borders.
pub fn accent() -> (r: Rgb)
    ensures
        r == accent_spec(),
{
    Rgb { r: 0x3d, g: 0xa9, b: 0xfc }
}

/// Whether `(x, y)` lies within `thickness` pixels of the edge of a `width` by
/// `height` frame.
pub open spec fn on_frame(x: int, y: int, width: u32, height: u32, thickness: u32) -> bool {
    x < thickness || y < thickness || x >= width - thickness || y >= height - thickness
}

/// Whether `(x, y)` is between the drag endpoints grown by `by` pixels on every
/// side.
pub open spec fn in_selection(x: int, y: int, a: Point, b: Point, by: int) -> bool {
    min(a.x as int, b.x as int) - by <= x < max(a.x as int, b.x as int) + by && min(
        a.y as int,
        b.y as int,
    ) - by <= y < max(a.y as int, b.y as int) + by
}

/// Whether the spotlight covers `(x, y)`.
pub open spec fn spot_lit(state: RenderState, x: int, y: int) -> bool {
    state.spotlight matches Some(s) && in_circle(x, y, s.0, s.1)
}

/// Whether the layers show `(x, y)` at full brightness.
pub open spec fn lit(state: RenderState, x: int, y: int) -> bool {
    ||| spot_lit(state, x, y)
    ||| state.snip matches Some(d) && in_selection(x, y, d.0, d.1, 0)
}

/// Whether `(x, y)` belongs to a border: the capture frame, or the ring one
/// pixel inside and one pixel outside a non-empty selection.
pub open spec fn outlined(state: RenderState, width: u32, height: u32, x: int, y: int) -> bool {
    ||| state.capture && on_frame(x, y, width, height, CAPTURE_FRAME_THICKNESS)
    ||| state.snip matches Some(d) && d.0.x != d.1.x && d.0.y != d.1.y && in_selection(
        x,
        y,
        d.0,
        d.1,
        1,
    ) && !in_selection(x, y, d.0, d.1, -1)
}

/// Channel `c` of the magnified (or plain) base image at `(x, y)`.
pub open spec fn base_chan(
    original: &DibBuffer,
    state: RenderState,
    cols: Seq<i32>,
    rows: Seq<i32>,
    x: int,
    y: int,
    c: int,
) -> u8 {
    if state.zoom is Some {
        original.chan(
            edge(cols[x] as int, original.width),
            edge(rows[y] as int, original.height),
            c,
        )
    } else {
        original.chan(x, y, c)
    }
}

/// Channel `c` of the composed frame at `(x, y)`: borders in the accent
/// colour, lit pixels as in the base image, all others under the veil.
pub open spec fn composed(
    original: &DibBuffer,
    state: RenderState,
    cols: Seq<i32>,
    rows: Seq<i32>,
    dim_opacity: u8,
    color: Rgb,
    x: int,
    y: int,
    c: int,
) -> u8 {
    let base = base_chan(original, state, cols, rows, x, y, c);
    if outlined(state, original.width, original.height, x, y) {
        tinted(base, accent_spec(), 255, c)
    } else if lit(state, x, y) {
        base
    } else {
        tinted(base, color, dim_opacity, c)
    }
}

/// Whether `out` is the composed frame of `original`.
pub open spec fn is_composed(
    original: &DibBuffer,
    state: RenderState,
    cols: Seq<i32>,
    rows: Seq<i32>,
    dim_opacity: u8,
    color: Rgb,
    out: DibBuffer,
) -> bool {
    &&& out.wf()
    &&& out.same_shape(*original)
    &&& forall|x: int, y: int, c: int|
        original.has(x, y) && 0 <= c < 4 ==> #[trigger] out.chan(x, y, c) == composed(
            original,
            state,
            cols,
            rows,
            dim_opacity,
            color,
            x,
            y,
            c,
        )
}

/// Whether `v` lies between `a` and `b` grown by `by` on both sides.
fn between(v: i64, a: i32, b: i32, by: i64) -> (r: bool)
    requires
        -1 <= by <= 1,
    ensures
        r == (min(a as int, b as int) - by <= v < max(a as int, b as int) + by),
{
    min_i64(a as i64, b as i64) - by <= v && v < max_i64(a as i64, b as i64) + by
}

fn selected(x: u32, y: u32, snip: Option<(Point, Point)>, by: i64) -> (r: bool)
    requires
        -1 <= by <= 1,
    ensures
        r == (snip matches Some(d) && in_selection(x as int, y as int, d.0, d.1, by as int)),
{
    match snip {
        Some((a, b)) => between(x as i64, a.x, b.x, by) && between(y as i64, a.y, b.y, by),
        None => false,
    }
}

fn near_edge(x: u32, y: u32, width: u32, height: u32, thickness: u32) -> (r: bool)
    ensures
        r == on_frame(x as int, y as int, width, height, thickness),
{
    x < thickness || y < thickness || x as i64 >= width as i64 - thickness as i64 || y as i64
        >= height as i64 - thickness as i64
}

fn is_outlined(state: &RenderState, width: u32, height: u32, x: u32, y: u32) -> (r: bool)
    ensures
        r == outlined(*state, width, height, x as int, y as int),
{
    if state.capture && near_edge(x, y, width, height, CAPTURE_FRAME_THICKNESS) {
        return true;
    }
    match state.snip {
        Some((a, b)) => a.x != b.x && a.y != b.y && selected(x, y, state.snip, 1) && !selected(
            x,
            y,
            state.snip,
            -1,
        ),
        None => false,
    }
}

/// Compose one monitor's frame into `out`, overwriting every pixel: the base
/// image (magnified when the zoom layer is on this monitor; `cols` and `rows`
/// map frame coordinates to source coordinates then), under the veil except
/// where the spotlight or the selection lights it, with the selection border
/// and the capture frame on top.
pub fn compose_frame(
    original: &DibBuffer,
    out: &mut DibBuffer,
    state: &RenderState,
    cols: &[i32],
    rows: &[i32],
    dim_opacity: u8,
    color: Rgb,
)
    requires
        original.wf(),
        old(out).wf(),
        original.same_shape(*old(out)),
        state.zoom is Some ==> cols@.len() == original.width && rows@.len() == original.height,
    ensures
        final(out).wf(),
        final(out).same_shape(*old(out)),
        forall|x: int, y: int, c: int|
            original.has(x, y) && 0 <= c < 4 ==> #[trigger] final(out).chan(x, y, c) == composed(
                original,
                *state,
                cols@,
                rows@,
                dim_opacity,
                color,
                x,
                y,
                c,
            ),
        is_composed(original, *state, cols@, rows@, dim_opacity, color, *final(out)),
{
    let w: u32 = original.width;
    let h: u32 = original.height;
    let mut y: u32 = 0;
    while y < h
        invariant
            original.wf(),
            out.wf(),
            original.same_shape(*out),
            out.same_shape(*old(out)),
            w == original.width,
            h == original.height,
            y <= h,
            state.zoom is Some ==> cols@.len() == w && rows@.len() == h,
            forall|px: int, py: int, c: int|
                original.has(px, py) && py < y && 0 <= c < 4 ==> #[trigger] out.chan(px, py, c)
                    == composed(
                    original,
                    *state,
                    cols@,
                    rows@,
                    dim_opacity,
                    color,
                    px,
                    py,
                    c,
                ),
        decreases h - y,
    {
        let (lit0, lit1): (i64, i64) = match state.spotlight {
            Some((center, radius)) => chord(center, radius, y as i64, w),
            None => (0, -1),
        };
        let mut x: u32 = 0;
        while x < w
            invariant
                original.wf(),
                out.wf(),
                original.same_shape(*out),
                out.same_shape(*old(out)),
                w == original.width,
                h == original.height,
                y < h,
                x <= w,
                state.zoom is Some ==> cols@.len() == w && rows@.len() == h,
                forall|px: int|
                    0 <= px < w ==> (#[trigger] spot_lit(*state, px, y as int) <==> lit0 <= px
                        <= lit1),
                forall|px: int, py: int, c: int|
                    original.has(px, py) && (py < y || py == y && px < x) && 0 <= c < 4
                        ==> #[trigger] out.chan(px, py, c) == composed(
                        original,
                        *state,
                        cols@,
                        rows@,
                        dim_opacity,
                        color,
                        px,
                        py,
                        c,
                    ),
            decreases w - x,
        {
            let base: [u8; 4] = match state.zoom {
                Some(_) => original.get(
                    edge_of(cols[x as usize] as i64, w),
                    edge_of(rows[y as usize] as i64, h),
                ),
                None => original.get(x, y),
            };
            proof {
                assert forall|c: int| 0 <= c < 4 implies #[trigger] base@[c] == base_chan(
                    original,
                    *state,
                    cols@,
                    rows@,
                    x as int,
                    y as int,
                    c,
                ) by {}
                assert(spot_lit(*state, x as int, y as int) <==> lit0 <= x <= lit1);
            }
            let px: [u8; 4] = if is_outlined(state, w, h, x, y) {
                tint(base, accent(), 255)
            } else if lit0 <= x as i64 && x as i64 <= lit1 {
                base
            } else if selected(x, y, state.snip, 0) {
                base
            } else {
                tint(base, color, dim_opacity)
            };
            out.put(x, y, px);
            x += 1;
        }
        y += 1;
    }
}

/// With no layer and no veil the frame shows the original pixels.
pub proof fn lemma_compose_unveiled(
    original: &DibBuffer,
    state: RenderState,
    cols: Seq<i32>,
    rows: Seq<i32>,
    color: Rgb,
    x: int,
    y: int,
    c: int,
)
    requires
        state.zoom is None,
        state.spotlight is None,
        state.snip is None,
        !state.capture,
        0 <= c < 4,
    ensures
        composed(original, state, cols, rows, 0, color, x, y, c) == original.chan(x, y, c),
{
}

/// `after` is `before` with a frame of `color` on it, `thickness` pixels wide.
pub open spec fn is_bordered(
    before: DibBuffer,
    color: Rgb,
    thickness: u32,
    after: DibBuffer,
) -> bool {
    &&& after.wf()
    &&& after.same_shape(before)
    &&& forall|x: int, y: int, c: int|
        before.has(x, y) && 0 <= c < 4 ==> #[trigger] after.chan(x, y, c) == (if on_frame(
            x,
            y,
            before.width,
            before.height,
            thickness,
        ) {
            tinted(before.chan(x, y, c), color, 255, c)
        } else {
            before.chan(x, y, c)
        })
}

/// Draw a frame of `color`, `thickness` pixels wide, along the buffer's edge;
/// alpha is kept.
pub fn draw_border(buf: &mut DibBuffer, color: Rgb, thickness: u32)
    requires
        old(buf).wf(),
    ensures
        final(buf).wf(),
        final(buf).same_shape(*old(buf)),
        forall|x: int, y: int, c: int|
            old(buf).has(x, y) && 0 <= c < 4 ==> #[trigger] final(buf).chan(x, y, c) == (
            if on_frame(x, y, old(buf).width, old(buf).height, thickness) {
                tinted(old(buf).chan(x, y, c), color, 255, c)
            } else {
                old(buf).chan(x, y, c)
            }),
        is_bordered(*old(buf), color, thickness, *final(buf)),
{
    let w: u32 = buf.width;
    let h: u32 = buf.height;
    let mut y: u32 = 0;
    while y < h
        invariant
            buf.wf(),
            old(buf).wf(),
            buf.same_shape(*old(buf)),
            w == buf.width,
            h == buf.height,
            y <= h,
            forall|px: int, py: int, c: int|
                old(buf).has(px, py) && 0 <= c < 4 ==> #[trigger] buf.chan(px, py, c) == (if py < y
                    && on_frame(px, py, w, h, thickness) {
                    tinted(old(buf).chan(px, py, c), color, 255, c)
                } else {
                    old(buf).chan(px, py, c)
                }),
        decreases h - y,
    {
        let mut x: u32 = 0;
        while x < w
            invariant
                buf.wf(),
                old(buf).wf(),
                buf.same_shape(*old(buf)),
                w == buf.width,
                h == buf.height,
                y < h,
                x <= w,
                forall|px: int, py: int, c: int|
                    old(buf).has(px, py) && 0 <= c < 4 ==> #[trigger] buf.chan(px, py, c) == (if (py
                        < y || py == y && px < x) && on_frame(px, py, w, h, thickness) {
                        tinted(old(buf).chan(px, py, c), color, 255, c)
                    } else {
                        old(buf).chan(px, py, c)
                    }),
            decreases w - x,
        {
            if near_edge(x, y, w, h, thickness) {
                let px: [u8; 4] = tint(buf.get(x, y), color, 255);
                buf.put(x, y, px);
            }
            x += 1;
        }
        y += 1;
    }
}

/// Virtual-screen to monitor-local: subtracts the monitor's top-left corner.
pub open spec fn to_local(point: Point, monitor: Rect) -> Point {
    Point { x: sat_i32(point.x - monitor.x), y: sat_i32(point.y - monitor.y) }
}

/// Monitor-local to virtual-screen: adds the monitor's top-left corner.
pub open spec fn to_virtual(point: Point, monitor: Rect) -> Point {
    Point { x: sat_i32(point.x + monitor.x), y: sat_i32(point.y + monitor.y) }
}

/// Virtual-screen to monitor-local: subtracts the monitor's top-left corner.
pub fn virtual_to_local(point: Point, monitor: Rect) -> (r: Point)
    ensures
        r == to_local(point, monitor),
{
    Point {
        x: narrow_i32(point.x as i64 - monitor.x as i64),
        y: narrow_i32(point.y as i64 - monitor.y as i64),
    }
}

/// Monitor-local to virtual-screen: adds the monitor's top-left corner.
pub fn local_to_virtual(point: Point, monitor: Rect) -> (r: Point)
    ensures
        r == to_virtual(point, monitor),
{
    Point {
        x: narrow_i32(point.x as i64 + monitor.x as i64),
        y: narrow_i32(point.y as i64 + monitor.y as i64),
    }
}

/// The two coordinate mappings undo each other wherever the difference fits
/// 32 bits.
pub proof fn lemma_coordinate_round_trip(point: Point, monitor: Rect)
    requires
        i32::MIN <= point.x - monitor.x <= i32::MAX,
        i32::MIN <= point.y - monitor.y <= i32::MAX,
    ensures
        to_virtual(to_local(point, monitor), monitor) == point,
{
}

/// On a monitor at the virtual origin both mappings are the identity.
pub proof fn lemma_primary_is_identity(point: Point, monitor: Rect)
    requires
        monitor.x == 0,
        monitor.y == 0,
    ensures
        to_local(point, monitor) == point,
        to_virtual(point, monitor) == point,
{
}

} // verus!
