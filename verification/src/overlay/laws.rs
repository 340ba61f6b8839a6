//! What the overlay promises, in plain arithmetic over frames and rectangles.
//!
//! The vocabulary here belongs to the statements alone: no operation is defined
//! by it.

use crate::capture::DibBuffer;
use crate::geometry::Point;
use crate::overlay::composite::{blended, is_composed, RenderState};
use crate::settings::model::Rgb;
use vstd::prelude::*;

verus! {

/// Position `s` of `n` pixels is the one a sample at `v` reads: itself inside,
/// the nearest edge outside.
pub open spec fn reads(v: i32, n: u32, s: int) -> bool {
    &&& 0 <= v < n ==> s == v
    &&& v < 0 ==> s == 0
    &&& v >= n ==> s == n - 1
}

/// Pixel `(sx, sy)` of the original is what the base image shows at `(x, y)`:
/// the one the maps read where the monitor is magnified, the same pixel
/// otherwise.
pub open spec fn based_on(
    original: DibBuffer,
    magnified: bool,
    cols: Seq<i32>,
    rows: Seq<i32>,
    x: int,
    y: int,
    sx: int,
    sy: int,
) -> bool {
    if magnified {
        reads(cols[x], original.width, sx) && reads(rows[y], original.height, sy)
    } else {
        sx == x && sy == y
    }
}

/// `(x, y)` is at least two pixels away from every edge of a frame.
pub open spec fn off_edges(x: int, y: int, width: u32, height: u32) -> bool {
    2 <= x < width - 2 && 2 <= y < height - 2
}

/// Coordinate `v` lies between two drag coordinates, by more than a pixel.
pub open spec fn well_between(v: int, a: i32, b: i32) -> bool {
    a + 1 <= v < b - 1 || b + 1 <= v < a - 1
}

/// Coordinate `v` lies beyond two drag coordinates, by more than a pixel.
pub open spec fn well_beyond(v: int, a: i32, b: i32) -> bool {
    (v < a - 1 && v < b - 1) || (v > a && v > b)
}

/// Coordinate `v` lies between two drag coordinates.
pub open spec fn in_between(v: int, a: i32, b: i32) -> bool {
    a <= v < b || b <= v < a
}

/// `(x, y)` is well inside the rectangle between two drag endpoints.
pub open spec fn inside(x: int, y: int, a: Point, b: Point) -> bool {
    well_between(x, a.x, b.x) && well_between(y, a.y, b.y)
}

/// `(x, y)` is well outside the rectangle between two drag endpoints.
pub open spec fn outside(x: int, y: int, a: Point, b: Point) -> bool {
    well_beyond(x, a.x, b.x) || well_beyond(y, a.y, b.y)
}

/// `(x, y)` is a pixel on which no border can lie.
pub open spec fn off_borders(state: RenderState, width: u32, height: u32, x: int, y: int) -> bool {
    &&& state.capture ==> off_edges(x, y, width, height)
    &&& state.snip matches Some(d) ==> d.0.x == d.1.x || d.0.y == d.1.y || inside(x, y, d.0, d.1)
        || outside(x, y, d.0, d.1)
}

/// Eight-bit value `v` is `from` drawn toward `to` at opacity `alpha`, rounded
/// down.
pub open spec fn drawn_toward(v: u8, from: u8, to: u8, alpha: u8) -> bool {
    255 * v <= from * (255 - alpha) + to * alpha < 255 * v + 255
}

pub(crate) proof fn lemma_blended_value(from: u8, to: u8, alpha: u8)
    ensures
        drawn_toward(blended(from, to, alpha), from, to, alpha),
{
    let t = from * (255 - alpha) + to * alpha;
    assert(0 <= t <= 255 * 255) by (nonlinear_arith)
        requires
            t == from * (255 - alpha) + to * alpha,
            0 <= from <= 255,
            0 <= to <= 255,
            0 <= alpha <= 255,
    ;
}

/// The spotlight circle shows the base image at full brightness, magnified or
/// not: every pixel within the radius of the centre that no border covers.
pub proof fn lemma_circle_is_clear(
    original: DibBuffer,
    state: RenderState,
    cols: Seq<i32>,
    rows: Seq<i32>,
    dim_opacity: u8,
    color: Rgb,
    out: DibBuffer,
    center: Point,
    radius: u32,
    x: int,
    y: int,
    sx: int,
    sy: int,
    c: int,
)
    requires
        is_composed(&original, state, cols, rows, dim_opacity, color, out),
        original.has(x, y),
        0 <= c < 4,
        state.spotlight == Some((center, radius)),
        (x - center.x) * (x - center.x) + (y - center.y) * (y - center.y) <= radius * radius,
        off_borders(state, original.width, original.height, x, y),
        based_on(original, state.zoom is Some, cols, rows, x, y, sx, sy),
    ensures
        out.chan(x, y, c) == original.chan(sx, sy, c),
{
}

/// The selection shows the base image at full brightness, magnified or not:
/// every pixel of its rectangle that no border covers.
pub proof fn lemma_selection_is_clear(
    original: DibBuffer,
    state: RenderState,
    cols: Seq<i32>,
    rows: Seq<i32>,
    dim_opacity: u8,
    color: Rgb,
    out: DibBuffer,
    a: Point,
    b: Point,
    x: int,
    y: int,
    sx: int,
    sy: int,
    c: int,
)
    requires
        is_composed(&original, state, cols, rows, dim_opacity, color, out),
        original.has(x, y),
        0 <= c < 4,
        state.snip == Some((a, b)),
        inside(x, y, a, b),
        off_borders(state, original.width, original.height, x, y),
        based_on(original, state.zoom is Some, cols, rows, x, y, sx, sy),
    ensures
        out.chan(x, y, c) == original.chan(sx, sy, c),
{
}

/// Everything outside the circle and the selection lies under the veil: blue,
/// green and red are drawn toward the veil's colour at its opacity, and alpha
/// is kept.
#[verifier::rlimit(60)]
pub proof fn lemma_rest_is_veiled(
    original: DibBuffer,
    state: RenderState,
    cols: Seq<i32>,
    rows: Seq<i32>,
    dim_opacity: u8,
    color: Rgb,
    out: DibBuffer,
    x: int,
    y: int,
    sx: int,
    sy: int,
)
    requires
        is_composed(&original, state, cols, rows, dim_opacity, color, out),
        original.has(x, y),
        state.spotlight matches Some(s) ==> (x - s.0.x) * (x - s.0.x) + (y - s.0.y) * (y - s.0.y)
            > s.1 * s.1,
        state.snip matches Some(d) ==> outside(x, y, d.0, d.1),
        state.capture ==> off_edges(x, y, original.width, original.height),
        based_on(original, state.zoom is Some, cols, rows, x, y, sx, sy),
    ensures
        drawn_toward(out.chan(x, y, 0), original.chan(sx, sy, 0), color.b, dim_opacity),
        drawn_toward(out.chan(x, y, 1), original.chan(sx, sy, 1), color.g, dim_opacity),
        drawn_toward(out.chan(x, y, 2), original.chan(sx, sy, 2), color.r, dim_opacity),
        out.chan(x, y, 3) == original.chan(sx, sy, 3),
{
    lemma_blended_value(original.chan(sx, sy, 0), color.b, dim_opacity);
    lemma_blended_value(original.chan(sx, sy, 1), color.g, dim_opacity);
    lemma_blended_value(original.chan(sx, sy, 2), color.r, dim_opacity);
    assert(out.chan(x, y, 0) == blended(original.chan(sx, sy, 0), color.b, dim_opacity));
    assert(out.chan(x, y, 1) == blended(original.chan(sx, sy, 1), color.g, dim_opacity));
    assert(out.chan(x, y, 2) == blended(original.chan(sx, sy, 2), color.r, dim_opacity));
    assert(out.chan(x, y, 3) == original.chan(sx, sy, 3));
}

/// In capture mode the outermost two pixels of the frame are the accent
/// colour, whatever lies below; alpha is kept.
pub proof fn lemma_capture_frame_is_accent(
    original: DibBuffer,
    state: RenderState,
    cols: Seq<i32>,
    rows: Seq<i32>,
    dim_opacity: u8,
    color: Rgb,
    out: DibBuffer,
    x: int,
    y: int,
    sx: int,
    sy: int,
)
    requires
        is_composed(&original, state, cols, rows, dim_opacity, color, out),
        original.has(x, y),
        state.capture,
        !off_edges(x, y, original.width, original.height),
        based_on(original, state.zoom is Some, cols, rows, x, y, sx, sy),
    ensures
        out.chan(x, y, 0) == 0xfc,
        out.chan(x, y, 1) == 0xa9,
        out.chan(x, y, 2) == 0x3d,
        out.chan(x, y, 3) == original.chan(sx, sy, 3),
{
    assert(out.chan(x, y, 0) == blended(original.chan(sx, sy, 0), 0xfc, 255));
    assert(out.chan(x, y, 1) == blended(original.chan(sx, sy, 1), 0xa9, 255));
    assert(out.chan(x, y, 2) == blended(original.chan(sx, sy, 2), 0x3d, 255));
    assert(out.chan(x, y, 3) == original.chan(sx, sy, 3));
}

/// A selection with an area has a border in the accent colour: the pixels one
/// step outside its rectangle and the outermost pixels inside it.
#[verifier::rlimit(60)]
pub proof fn lemma_selection_ring_is_accent(
    original: DibBuffer,
    state: RenderState,
    cols: Seq<i32>,
    rows: Seq<i32>,
    dim_opacity: u8,
    color: Rgb,
    out: DibBuffer,
    a: Point,
    b: Point,
    x: int,
    y: int,
    sx: int,
    sy: int,
)
    requires
        is_composed(&original, state, cols, rows, dim_opacity, color, out),
        original.has(x, y),
        state.snip == Some((a, b)),
        a.x != b.x,
        a.y != b.y,
        !inside(x, y, a, b),
        !outside(x, y, a, b),
        based_on(original, state.zoom is Some, cols, rows, x, y, sx, sy),
    ensures
        out.chan(x, y, 0) == 0xfc,
        out.chan(x, y, 1) == 0xa9,
        out.chan(x, y, 2) == 0x3d,
        out.chan(x, y, 3) == original.chan(sx, sy, 3),
{
    assert(out.chan(x, y, 0) == blended(original.chan(sx, sy, 0), 0xfc, 255));
    assert(out.chan(x, y, 1) == blended(original.chan(sx, sy, 1), 0xa9, 255));
    assert(out.chan(x, y, 2) == blended(original.chan(sx, sy, 2), 0x3d, 255));
    assert(out.chan(x, y, 3) == original.chan(sx, sy, 3));
}

} // verus!
