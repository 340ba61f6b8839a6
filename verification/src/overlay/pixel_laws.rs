//! What the single steps of painting promise: the circle, the crop, the
//! magnified samples, the present surface, and the legend.
//!
//! The vocabulary here belongs to the statements alone: no operation is defined
//! by it.

use crate::capture::DibBuffer;
use crate::geometry::{Point, Rect};
use crate::overlay::composite::{
    blended, crop_nonempty, dimmed, edge, in_circle, is_bordered, is_crop, is_darkened,
    is_punched, quad, to_local, to_virtual,
};
use crate::overlay::laws::{drawn_toward, in_between, lemma_blended_value, reads};
use crate::overlay::legend::{chip_offset, chip_width, in_rounded, scaled_alpha, text_covers, Legend};
use crate::overlay::modes::spotlight::darkened_chan;
use crate::overlay::modes::SpotlightMode;
use crate::overlay::session_laws::first_between;
use crate::overlay::window::{byte_in_region, held, OverlayWindow, PresentUpdate, WindowError};
use crate::settings::model::Rgb;
use vstd::prelude::*;

verus! {

/// A pixel is its four bytes in a row, the pixels of a row one after the other,
/// the rows top-down without gaps.
pub proof fn lemma_pixel_bytes(frame: DibBuffer, x: int, y: int, c: int)
    requires
        frame.wf(),
    ensures
        frame.has(x, y) <==> 0 <= x < frame.width && 0 <= y < frame.height,
        frame.chan(x, y, c) == frame.pixels@[(y * frame.width + x) * 4 + c],
        frame.pixels@.len() == frame.width * frame.height * 4,
{
    let w = frame.width as int;
    let h = frame.height as int;
    assert(y * (w * 4) + x * 4 == (y * w + x) * 4) by (nonlinear_arith);
    assert((w * 4) * h == w * h * 4) by (nonlinear_arith);
}

/// The circle holds the pixels within its radius: the ones straight above,
/// below, left and right of the centre at that distance are the last.
pub proof fn lemma_circle(center: Point, radius: u32, dx: int, dy: int)
    ensures
        in_circle(center.x + dx, center.y + dy, center, radius) <==> dx * dx + dy * dy <= radius
            * radius,
        in_circle(center.x + radius, center.y as int, center, radius),
        in_circle(center.x as int, center.y - radius, center, radius),
        !in_circle(center.x + radius + 1, center.y as int, center, radius),
        !in_circle(center.x as int, center.y - radius - 1, center, radius),
{
    let r = radius as int;
    assert((center.x + r - center.x) * (center.x + r - center.x) == r * r);
    assert((-r) * (-r) == r * r) by (nonlinear_arith);
    assert((r + 1) * (r + 1) > r * r) by (nonlinear_arith)
        requires
            0 <= r,
    ;
    assert((-r - 1) * (-r - 1) > r * r) by (nonlinear_arith)
        requires
            0 <= r,
    ;
    assert(center.y - r - center.y == -r);
    assert(center.y - r - 1 - center.y == -r - 1);
    assert(center.x + r + 1 - center.x == r + 1);
}

/// Darkening draws blue, green and red toward black and keeps alpha.
pub proof fn lemma_darkening(frame: DibBuffer, x: int, y: int, c: int, alpha: u8)
    requires
        0 <= c < 4,
    ensures
        c < 3 ==> drawn_toward(
            darkened_chan(frame, x, y, c, alpha),
            frame.chan(x, y, c),
            0,
            alpha,
        ),
        c == 3 ==> darkened_chan(frame, x, y, c, alpha) == frame.chan(x, y, c),
        drawn_toward(dimmed(frame.chan(x, y, c), alpha), frame.chan(x, y, c), 0, alpha),
{
    lemma_blended_value(frame.chan(x, y, c), 0, alpha);
}

/// Darkening a frame draws each of its colours toward black, everywhere, and
/// keeps its alpha.
pub proof fn lemma_darkened_frame(
    before: DibBuffer,
    alpha: u8,
    after: DibBuffer,
    x: int,
    y: int,
    c: int,
)
    requires
        is_darkened(before, alpha, after),
        before.has(x, y),
        0 <= c < 3,
    ensures
        drawn_toward(after.chan(x, y, c), before.chan(x, y, c), 0, alpha),
        after.chan(x, y, 3) == before.chan(x, y, 3),
{
    lemma_darkening(before, x, y, c, alpha);
    assert(after.chan(x, y, 3) == before.chan(x, y, 3));
}

/// The hole shows the original within the radius and touches nothing else.
pub proof fn lemma_hole(
    before: DibBuffer,
    original: DibBuffer,
    center: Point,
    radius: u32,
    after: DibBuffer,
    x: int,
    y: int,
    c: int,
)
    requires
        is_punched(before, original, center, radius, after),
        original.has(x, y),
        0 <= c < 4,
    ensures
        (x - center.x) * (x - center.x) + (y - center.y) * (y - center.y) <= radius * radius
            ==> after.chan(x, y, c) == original.chan(x, y, c),
        (x - center.x) * (x - center.x) + (y - center.y) * (y - center.y) > radius * radius
            ==> after.chan(x, y, c) == before.chan(x, y, c),
{
}

/// A border is its colour on the outermost pixels, as many as it is thick, and
/// touches nothing else; alpha is kept.
#[verifier::rlimit(60)]
pub proof fn lemma_border(
    before: DibBuffer,
    color: Rgb,
    thickness: u32,
    after: DibBuffer,
    x: int,
    y: int,
)
    requires
        is_bordered(before, color, thickness, after),
        before.has(x, y),
    ensures
        x < thickness || y < thickness || before.width - 1 - x < thickness || before.height - 1 - y
            < thickness ==> after.chan(x, y, 0) == color.b && after.chan(x, y, 1) == color.g
            && after.chan(x, y, 2) == color.r,
        x >= thickness && y >= thickness && before.width - 1 - x >= thickness && before.height - 1
            - y >= thickness ==> after.chan(x, y, 0) == before.chan(x, y, 0) && after.chan(x, y, 1)
            == before.chan(x, y, 1) && after.chan(x, y, 2) == before.chan(x, y, 2),
        after.chan(x, y, 3) == before.chan(x, y, 3),
{
    assert(forall|v: u8, w: u8| #[trigger] blended(v, w, 255) == w);
    assert(after.chan(x, y, 3) == before.chan(x, y, 3));
}

/// A rendered spotlight shows the original within its circle on its own
/// monitor and the darkened original everywhere else, other monitors included.
pub proof fn lemma_rendered_spotlight(
    spot: SpotlightMode,
    monitor: usize,
    original: DibBuffer,
    before: DibBuffer,
    alpha: u8,
    after: DibBuffer,
    x: int,
    y: int,
    c: int,
)
    requires
        spot.rendered_on(monitor, original, before, alpha, after),
        original.same_shape(before),
        original.has(x, y),
        0 <= c < 3,
    ensures
        monitor == spot.cursor_monitor && (x - spot.cursor.x) * (x - spot.cursor.x) + (y
            - spot.cursor.y) * (y - spot.cursor.y) <= spot.radius * spot.radius ==> after.chan(
            x,
            y,
            c,
        ) == original.chan(x, y, c),
        monitor != spot.cursor_monitor || (x - spot.cursor.x) * (x - spot.cursor.x) + (y
            - spot.cursor.y) * (y - spot.cursor.y) > spot.radius * spot.radius ==> drawn_toward(
            after.chan(x, y, c),
            original.chan(x, y, c),
            0,
            alpha,
        ),
        after.chan(x, y, 3) == original.chan(x, y, 3),
{
    lemma_darkening(original, x, y, c, alpha);
    assert(before.has(x, y));
    assert(after.chan(x, y, 3) == original.chan(x, y, 3));
}

/// A crop holds the pixels between the two endpoints that the source has, in
/// place, and no others.
#[verifier::rlimit(60)]
pub proof fn lemma_crop(
    src: DibBuffer,
    a: Point,
    b: Point,
    out: DibBuffer,
    left: int,
    top: int,
    x: int,
    y: int,
    c: int,
)
    requires
        is_crop(&src, a, b, out),
        crop_nonempty(a, b, src.width, src.height),
        first_between(left, a.x, b.x, src.width),
        first_between(top, a.y, b.y, src.height),
        0 <= c < 4,
    ensures
        out.wf(),
        out.has(x - left, y - top) <==> src.has(x, y) && in_between(x, a.x, b.x) && in_between(
            y,
            a.y,
            b.y,
        ) && x >= left && y >= top,
        out.has(x - left, y - top) ==> out.chan(x - left, y - top, c) == src.chan(x, y, c),
{
    if out.has(x - left, y - top) {
        assert(out.chan(x - left, y - top, c) == src.chan(x, y, c));
    }
}

/// There is something to crop exactly when some pixel of the source lies
/// between the endpoints.
pub proof fn lemma_something_to_crop(a: Point, b: Point, width: u32, height: u32, x: int, y: int)
    ensures
        0 <= x < width && 0 <= y < height && in_between(x, a.x, b.x) && in_between(y, a.y, b.y)
            ==> crop_nonempty(a, b, width, height),
        crop_nonempty(a, b, width, height) ==> exists|i: int, j: int|
            0 <= i < width && 0 <= j < height && #[trigger] in_between(i, a.x, b.x)
                && #[trigger] in_between(j, a.y, b.y),
{
    if crop_nonempty(a, b, width, height) {
        let i = crate::overlay::composite::span_start(a.x, b.x);
        let j = crate::overlay::composite::span_start(a.y, b.y);
        assert(in_between(i, a.x, b.x) && in_between(j, a.y, b.y));
    }
}

/// A sample outside the source reads the nearest pixel of its edge.
pub proof fn lemma_edge_samples(v: i32, n: u32)
    requires
        0 < n,
    ensures
        reads(v, n, edge(v as int, n)),
        0 <= edge(v as int, n) < n,
{
}

/// A smooth sample sees four source pixels: the one its maps read, its right
/// neighbour, its lower neighbour and the one below that, in this order, and
/// where it stands in the output.
pub proof fn lemma_smooth_samples(
    src: DibBuffer,
    col: i32,
    row: i32,
    x: int,
    y: int,
    c: int,
    sx: int,
    sy: int,
    tx: int,
    ty: int,
)
    requires
        0 <= x <= u32::MAX,
        0 <= y <= u32::MAX,
        col < i32::MAX,
        row < i32::MAX,
        0 < src.width,
        0 < src.height,
        reads(col, src.width, sx),
        reads((col + 1) as i32, src.width, tx),
        reads(row, src.height, sy),
        reads((row + 1) as i32, src.height, ty),
    ensures
        quad(&src, col, row, x, y, c) == (
            src.chan(sx, sy, c),
            src.chan(tx, sy, c),
            src.chan(sx, ty, c),
            src.chan(tx, ty, c),
            x as u32,
            y as u32,
        ),
{
}

/// A point's place on a monitor is its offset from the monitor's corner, and
/// the other way round.
pub proof fn lemma_offsets(p: Point, monitor: Rect)
    ensures
        i32::MIN <= p.x - monitor.x <= i32::MAX ==> to_local(p, monitor).x == p.x - monitor.x,
        i32::MIN <= p.y - monitor.y <= i32::MAX ==> to_local(p, monitor).y == p.y - monitor.y,
        i32::MIN <= p.x + monitor.x <= i32::MAX ==> to_virtual(p, monitor).x == p.x + monitor.x,
        i32::MIN <= p.y + monitor.y <= i32::MAX ==> to_virtual(p, monitor).y == p.y + monitor.y,
{
}

/// The bytes of a region are the four bytes of each of its pixels.
pub proof fn lemma_region_bytes(region: Rect, width: u32, x: int, y: int, c: int)
    requires
        0 <= x < width,
        0 <= y,
        0 <= c < 4,
    ensures
        byte_in_region(y * (width * 4) + x * 4 + c, width * 4, region) <==> region.x <= x < region.x
            + region.width && region.y <= y < region.y + region.height,
{
    let st = width * 4;
    let i = y * st + (x * 4 + c);
    vstd::arithmetic::div_mod::lemma_fundamental_div_mod_converse(i, st, y, x * 4 + c);
}

/// A key counts as held while the top bit of its state is set.
pub proof fn lemma_held_keys(state: i16)
    ensures
        held(state) <==> (state as int) % 0x1_0000 >= 0x8000,
{
}

/// A window is refused a rectangle without pixels, one that is not its
/// monitor's, and one too large for its pixels; nothing else.
pub proof fn lemma_refused_windows(index: usize, rect: Rect, monitors: Seq<Rect>)
    ensures
        rect.width == 0 || rect.height == 0 <==> OverlayWindow::refusal(index, rect, monitors)
            == Some(WindowError::EmptyRect),
        OverlayWindow::refusal(index, rect, monitors) is None ==> index < monitors.len()
            && monitors[index as int] == rect,
        0 < rect.width <= 0x3fff_ffff && 0 < rect.height <= 0x7fff_ffff && rect.width * 4
            * rect.height <= usize::MAX && index < monitors.len() && monitors[index as int] == rect
            ==> OverlayWindow::refusal(index, rect, monitors) is None,
{
}

/// `v` is the share `part / 255` of `alpha`, rounded to the nearest number.
pub open spec fn share_of(v: u8, alpha: u8, part: u8) -> bool {
    -127 <= 255 * v - alpha * part <= 127
}

proof fn lemma_share(alpha: u8, part: u8)
    ensures
        share_of(scaled_alpha(alpha, part), alpha, part),
{
    let t = alpha * part;
    assert(0 <= t <= 255 * 255) by (nonlinear_arith)
        requires
            t == alpha * part,
            0 <= alpha <= 255,
            0 <= part <= 255,
    ;
}

/// Chip `i` neither covers `(x, y)` nor writes on it; the pill's corner is at
/// `(x0, y0)`.
spec fn tab_misses(legend: Legend, i: int, x0: int, y0: int, x: int, y: int) -> bool {
    let left = x0 + chip_offset(legend.texts(), i);
    x < left || x >= left + chip_width(legend.texts()[i]) || y < y0 + 6 || y >= y0 + 34
}

proof fn lemma_tab_misses(
    legend: Legend,
    n: int,
    x0: int,
    y0: int,
    active: Seq<bool>,
    alpha: u8,
    v: u8,
    x: int,
    y: int,
    c: int,
)
    requires
        legend.wf(),
        0 < n <= legend.tabs@.len(),
        tab_misses(legend, n - 1, x0, y0, x, y),
        chip_width(legend.texts()[n - 1]) <= u32::MAX,
    ensures
        legend.tabs_chan(n, x0, y0, active, alpha, v, x, y, c) == legend.tabs_chan(
            n - 1,
            x0,
            y0,
            active,
            alpha,
            v,
            x,
            y,
            c,
        ),
{
}

proof fn lemma_tabs_miss(
    legend: Legend,
    from: int,
    n: int,
    x0: int,
    y0: int,
    active: Seq<bool>,
    alpha: u8,
    v: u8,
    x: int,
    y: int,
    c: int,
)
    requires
        legend.wf(),
        0 <= from <= n <= legend.tabs@.len(),
        forall|i: int| from <= i < n ==> #[trigger] tab_misses(legend, i, x0, y0, x, y),
        forall|i: int|
            0 <= i < legend.tabs@.len() ==> chip_width(#[trigger] legend.texts()[i]) <= u32::MAX,
    ensures
        legend.tabs_chan(n, x0, y0, active, alpha, v, x, y, c) == legend.tabs_chan(
            from,
            x0,
            y0,
            active,
            alpha,
            v,
            x,
            y,
            c,
        ),
    decreases n - from,
{
    if from < n {
        assert(tab_misses(legend, n - 1, x0, y0, x, y));
        assert(chip_width(legend.texts()[n - 1]) <= u32::MAX);
        lemma_tab_misses(legend, n, x0, y0, active, alpha, v, x, y, c);
        lemma_tabs_miss(legend, from, n - 1, x0, y0, active, alpha, v, x, y, c);
    }
}

proof fn lemma_chip_widths_fit(legend: Legend)
    requires
        legend.wf(),
    ensures
        forall|i: int|
            0 <= i < legend.tabs@.len() ==> chip_width(#[trigger] legend.texts()[i]) <= u32::MAX,
{
    assert forall|i: int| 0 <= i < legend.tabs@.len() implies chip_width(
        #[trigger] legend.texts()[i],
    ) <= u32::MAX by {
        assert(legend.chip_widths@[i] == chip_width(legend.tabs@[i]@));
    }
}

/// The chips before and after one another do not overlap, and all lie inside
/// the pill.
proof fn lemma_chips_apart(legend: Legend, i: int, j: int)
    requires
        legend.wf(),
        0 <= i <= j < legend.tabs@.len(),
    ensures
        24 <= chip_offset(legend.texts(), i),
        i < j ==> chip_offset(legend.texts(), i) + chip_width(legend.texts()[i]) <= chip_offset(
            legend.texts(),
            j,
        ),
        chip_offset(legend.texts(), j) + chip_width(legend.texts()[j]) <= legend.pill_width - 24,
{
    let n = legend.tabs@.len() as int;
    crate::overlay::legend::lemma_chip_offsets(legend.texts(), i, j);
    crate::overlay::legend::lemma_chip_offsets(legend.texts(), j, n);
}

/// The legend leaves everything outside its pill alone, and with no opacity,
/// no tab or too little room it leaves the whole frame alone.
pub proof fn lemma_legend_stays_in_its_pill(
    legend: Legend,
    before: DibBuffer,
    active: Seq<bool>,
    alpha: u8,
    after: DibBuffer,
    x: int,
    y: int,
    c: int,
)
    requires
        legend.wf(),
        legend.painted(before, active, alpha, after),
        before.has(x, y),
        0 <= c < 4,
        alpha == 0 || legend.tabs@.len() == 0 || before.width < legend.pill_width || before.height
            < 40 || x < legend.left_edge(before.width) || x >= legend.left_edge(before.width)
            + legend.pill_width || y < Legend::top_edge(before.height) || y >= Legend::top_edge(
            before.height,
        ) + 40,
    ensures
        after.chan(x, y, c) == before.chan(x, y, c),
{
    let n = legend.tabs@.len() as int;
    let x0 = legend.left_edge(before.width);
    let y0 = Legend::top_edge(before.height);
    lemma_chip_widths_fit(legend);
    if legend.paints(before.width, before.height, alpha) {
        assert forall|i: int| 0 <= i < n implies #[trigger] tab_misses(
            legend,
            i,
            x0,
            y0,
            x,
            y,
        ) by {
            lemma_chips_apart(legend, i, i);
        }
        lemma_tabs_miss(legend, 0, n, x0, y0, active, alpha, before.chan(x, y, c), x, y, c);
    }
}

/// Above its chips the pill is near-black at about three quarters of the
/// legend's opacity; alpha is kept.
pub proof fn lemma_pill_is_near_black(
    legend: Legend,
    before: DibBuffer,
    active: Seq<bool>,
    alpha: u8,
    after: DibBuffer,
    x: int,
    y: int,
    opacity: u8,
)
    requires
        legend.wf(),
        legend.painted(before, active, alpha, after),
        before.has(x, y),
        alpha != 0,
        legend.tabs@.len() > 0,
        legend.pill_width <= before.width,
        40 <= before.height,
        legend.left_edge(before.width) + 20 <= x < legend.left_edge(before.width)
            + legend.pill_width - 20,
        Legend::top_edge(before.height) <= y < Legend::top_edge(before.height) + 6,
        share_of(opacity, 190, alpha),
    ensures
        drawn_toward(after.chan(x, y, 0), before.chan(x, y, 0), 0x16, opacity),
        drawn_toward(after.chan(x, y, 1), before.chan(x, y, 1), 0x12, opacity),
        drawn_toward(after.chan(x, y, 2), before.chan(x, y, 2), 0x12, opacity),
        after.chan(x, y, 3) == before.chan(x, y, 3),
{
    let n = legend.tabs@.len() as int;
    let x0 = legend.left_edge(before.width);
    let y0 = Legend::top_edge(before.height);
    lemma_chip_widths_fit(legend);
    lemma_share(190, alpha);
    assert(opacity == scaled_alpha(190, alpha));
    lemma_straight_part(x, y, x0, y0, legend.pill_width, 40, 20);
    assert forall|i: int| 0 <= i < n implies #[trigger] tab_misses(legend, i, x0, y0, x, y) by {}
    let body0 = blended(before.chan(x, y, 0), 0x16, opacity);
    let body1 = blended(before.chan(x, y, 1), 0x12, opacity);
    let body2 = blended(before.chan(x, y, 2), 0x12, opacity);
    lemma_tabs_miss(legend, 0, n, x0, y0, active, alpha, body0, x, y, 0);
    lemma_tabs_miss(legend, 0, n, x0, y0, active, alpha, body1, x, y, 1);
    lemma_tabs_miss(legend, 0, n, x0, y0, active, alpha, body2, x, y, 2);
    lemma_tabs_miss(legend, 0, n, x0, y0, active, alpha, before.chan(x, y, 3), x, y, 3);
    lemma_blended_value(before.chan(x, y, 0), 0x16, opacity);
    lemma_blended_value(before.chan(x, y, 1), 0x12, opacity);
    lemma_blended_value(before.chan(x, y, 2), 0x12, opacity);
    assert(after.chan(x, y, 0) == body0);
    assert(after.chan(x, y, 1) == body1);
    assert(after.chan(x, y, 2) == body2);
}

/// A pixel between the rounded ends of a rectangle is inside it.
proof fn lemma_straight_part(x: int, y: int, x0: int, y0: int, w: u32, h: u32, r: u32)
    requires
        h == 2 * r,
        r <= 20,
        2 * r <= w,
        x0 + r <= x < x0 + w - r,
        y0 <= y < y0 + h,
    ensures
        in_rounded(x, y, x0, y0, w, h, r),
{
    let d = crate::overlay::legend::corner_distance(y, y0, y0 + h, r as int);
    assert(0 <= d <= r);
    assert(d * d <= r * r) by (nonlinear_arith)
        requires
            0 <= d <= r,
    ;
    assert(0 * 0 + d * d <= r * r);
}

/// The chip of a tab shows whether its mode is on: in the chip, above its
/// text, the pill is drawn toward white when the tab's flag is set, and is the
/// plain pill when it is not or is missing. No other tab's flag matters there.
#[verifier::rlimit(60)]
pub proof fn lemma_chip_shows_its_flag(
    legend: Legend,
    before: DibBuffer,
    active: Seq<bool>,
    alpha: u8,
    after: DibBuffer,
    i: int,
    x: int,
    y: int,
    body: u8,
    opacity: u8,
    shine: u8,
)
    requires
        legend.wf(),
        legend.painted(before, active, alpha, after),
        before.has(x, y),
        alpha != 0,
        0 <= i < legend.tabs@.len(),
        legend.pill_width <= before.width,
        40 <= before.height,
        legend.left_edge(before.width) + chip_offset(legend.texts(), i) + 14 <= x
            < legend.left_edge(before.width) + chip_offset(legend.texts(), i) + chip_width(
            legend.texts()[i],
        ) - 14,
        Legend::top_edge(before.height) + 6 <= y < Legend::top_edge(before.height) + 12,
        share_of(opacity, 190, alpha),
        share_of(shine, 46, alpha),
        drawn_toward(body, before.chan(x, y, 2), 0x12, opacity),
    ensures
        if i < active.len() && active[i] {
            drawn_toward(after.chan(x, y, 2), body, 0xff, shine)
        } else {
            after.chan(x, y, 2) == body
        },
        after.chan(x, y, 3) == before.chan(x, y, 3),
{
    let n = legend.tabs@.len() as int;
    let x0 = legend.left_edge(before.width);
    let y0 = Legend::top_edge(before.height);
    lemma_chip_widths_fit(legend);
    lemma_share(190, alpha);
    lemma_share(46, alpha);
    assert(opacity == scaled_alpha(190, alpha));
    assert(shine == scaled_alpha(46, alpha));
    lemma_blended_value(before.chan(x, y, 2), 0x12, opacity);
    assert(body == blended(before.chan(x, y, 2), 0x12, opacity));
    lemma_chips_apart(legend, i, i);
    lemma_straight_part(x, y, x0, y0, legend.pill_width, 40, 20);
    assert forall|k: int| 0 <= k < n && k != i implies #[trigger] tab_misses(
        legend,
        k,
        x0,
        y0,
        x,
        y,
    ) by {
        if k < i {
            lemma_chips_apart(legend, k, i);
        } else {
            lemma_chips_apart(legend, i, k);
        }
    }
    let left = x0 + chip_offset(legend.texts(), i);
    let w = chip_width(legend.texts()[i]);
    assert(w <= u32::MAX);
    lemma_straight_part(x, y, left, y0 + 6, w as u32, 28, 14);
    assert(!text_covers(legend.texts()[i], left + 16, y0 + 12, x, y));
    lemma_tabs_miss(legend, 0, i, x0, y0, active, alpha, body, x, y, 2);
    lemma_tabs_miss(legend, i + 1, n, x0, y0, active, alpha, body, x, y, 2);
    lemma_tabs_miss(legend, 0, i, x0, y0, active, alpha, before.chan(x, y, 3), x, y, 3);
    lemma_tabs_miss(legend, i + 1, n, x0, y0, active, alpha, before.chan(x, y, 3), x, y, 3);
    lemma_blended_value(body, 0xff, shine);
    assert(after.chan(x, y, 2) == legend.tabs_chan(n, x0, y0, active, alpha, body, x, y, 2));
    assert(after.chan(x, y, 3) == legend.tabs_chan(
        n,
        x0,
        y0,
        active,
        alpha,
        before.chan(x, y, 3),
        x,
        y,
        3,
    ));
}

/// A settled legend writes each tab's text in its own colour: near-white where
/// the tab's flag is set, gray where it is not or is missing.
#[verifier::rlimit(60)]
pub proof fn lemma_text_shows_its_flag(
    legend: Legend,
    before: DibBuffer,
    active: Seq<bool>,
    after: DibBuffer,
    i: int,
    x: int,
    y: int,
)
    requires
        legend.wf(),
        legend.painted(before, active, 255, after),
        before.has(x, y),
        0 <= i < legend.tabs@.len(),
        legend.pill_width <= before.width,
        40 <= before.height,
        text_covers(
            legend.texts()[i],
            legend.left_edge(before.width) + chip_offset(legend.texts(), i) + 16,
            Legend::top_edge(before.height) + 12,
            x,
            y,
        ),
    ensures
        if i < active.len() && active[i] {
            after.chan(x, y, 0) == 0xf2 && after.chan(x, y, 1) == 0xf2 && after.chan(x, y, 2)
                == 0xf2
        } else {
            after.chan(x, y, 0) == 0xc0 && after.chan(x, y, 1) == 0xb8 && after.chan(x, y, 2)
                == 0xb4
        },
        after.chan(x, y, 3) == before.chan(x, y, 3),
{
    let n = legend.tabs@.len() as int;
    let x0 = legend.left_edge(before.width);
    let y0 = Legend::top_edge(before.height);
    lemma_chip_widths_fit(legend);
    lemma_chips_apart(legend, i, i);
    assert forall|k: int| 0 <= k < n && k != i implies #[trigger] tab_misses(
        legend,
        k,
        x0,
        y0,
        x,
        y,
    ) by {
        if k < i {
            lemma_chips_apart(legend, k, i);
        } else {
            lemma_chips_apart(legend, i, k);
        }
    }
    assert forall|c: int| 0 <= c < 4 implies #[trigger] after.chan(x, y, c)
        == crate::overlay::composite::tinted(
        before.chan(x, y, c),
        if Legend::is_on(active, i) {
            crate::overlay::legend::text_active_spec()
        } else {
            crate::overlay::legend::text_inactive_spec()
        },
        255,
        c,
    ) by {
        let v = before.chan(x, y, c);
        let body = if in_rounded(x, y, x0, y0, legend.pill_width, 40, 20) {
            crate::overlay::composite::tinted(
                v,
                crate::overlay::legend::pill_color_spec(),
                scaled_alpha(190, 255),
                c,
            )
        } else {
            v
        };
        lemma_tabs_miss(legend, 0, i, x0, y0, active, 255, body, x, y, c);
        lemma_tabs_miss(legend, i + 1, n, x0, y0, active, 255, body, x, y, c);
        assert(after.chan(x, y, c) == legend.tabs_chan(n, x0, y0, active, 255, body, x, y, c));
    }
}

/// Where channel `c` of pixel `(x, y)` lies in rows of `width` pixels.
pub open spec fn place(width: u32, x: int, y: int, c: int) -> int {
    (y * width + x) * 4 + c
}

pub(crate) proof fn lemma_place(width: u32, height: u32, x: int, y: int, c: int)
    requires
        0 <= x < width,
        0 <= y < height,
        0 <= c < 4,
    ensures
        0 <= place(width, x, y, c) < width * 4 * height,
        place(width, x, y, c) % (width * 4) / 4 == x,
        place(width, x, y, c) / (width * 4) == y,
{
    let w = width as int;
    let i = place(width, x, y, c);
    assert(i == y * (w * 4) + (x * 4 + c)) by (nonlinear_arith)
        requires
            i == (y * w + x) * 4 + c,
    ;
    vstd::arithmetic::div_mod::lemma_fundamental_div_mod_converse(i, w * 4, y, x * 4 + c);
    assert((y + 1) * (w * 4) <= height * (w * 4)) by (nonlinear_arith)
        requires
            y + 1 <= height,
            0 <= w,
    ;
    assert((y + 1) * (w * 4) == y * (w * 4) + w * 4) by (nonlinear_arith);
    assert(height * (w * 4) == w * 4 * height) by (nonlinear_arith);
    assert(0 <= y * (w * 4)) by (nonlinear_arith)
        requires
            0 <= y,
            0 <= w,
    ;
}

/// A present brings the region's pixels of the frame onto the window and keeps
/// all others; without a region it brings every pixel. The system is told the
/// window's own place and size.
#[verifier::rlimit(60)]
pub proof fn lemma_presented_pixels(
    before: OverlayWindow,
    frame: DibBuffer,
    dirty: Option<Rect>,
    after: OverlayWindow,
    update: PresentUpdate,
    x: int,
    y: int,
    c: int,
)
    requires
        OverlayWindow::presented(before, frame, dirty, after, Ok(Some(update))),
        before.wf(),
        0 <= x < before.monitor_rect.width,
        0 <= y < before.monitor_rect.height,
        0 <= c < 4,
    ensures
        ({
            let i = place(before.monitor_rect.width, x, y, c);
            let shown = match dirty {
                Some(d) => 0 <= x - d.x < d.width && 0 <= y - d.y < d.height,
                None => true,
            };
            &&& shown ==> after.bits@[i] == frame.pixels@[i]
            &&& !shown ==> after.bits@[i] == before.bits@[i]
            &&& update.at == (Point { x: before.monitor_rect.x, y: before.monitor_rect.y })
            &&& update.width == before.monitor_rect.width
            &&& update.height == before.monitor_rect.height
            &&& match (dirty, update.dirty) {
                (None, None) => true,
                (Some(_), Some(edges)) => shown <==> edges.0 <= x < edges.2 && edges.1 <= y
                    < edges.3,
                _ => false,
            }
        }),
{
    lemma_place(before.monitor_rect.width, before.monitor_rect.height, x, y, c);
}

/// A frame of another size and a closed window are refused, and a refused
/// present changes nothing; nor does one whose region lies outside the window.
pub proof fn lemma_refused_presents(
    before: OverlayWindow,
    frame: DibBuffer,
    dirty: Option<Rect>,
    after: OverlayWindow,
    r: Result<Option<PresentUpdate>, WindowError>,
)
    requires
        OverlayWindow::presented(before, frame, dirty, after, r),
        before.wf(),
    ensures
        r is Err || r->Ok_0 is None ==> after.bits@ == before.bits@,
        frame.width != before.monitor_rect.width || frame.height != before.monitor_rect.height
            ==> r == Err::<Option<PresentUpdate>, WindowError>(WindowError::FrameMismatch),
        frame.wf() && frame.width == before.monitor_rect.width && frame.height
            == before.monitor_rect.height ==> (if before.hwnd == 0 {
            r == Err::<Option<PresentUpdate>, WindowError>(WindowError::Closed)
        } else {
            r is Ok
        }),
        dirty is None && r is Ok ==> r->Ok_0 is Some,
{
    if frame.wf() && frame.width == before.monitor_rect.width && frame.height
        == before.monitor_rect.height {
        assert(frame.pixels@.len() == before.bits@.len());
    }
}

} // verus!
