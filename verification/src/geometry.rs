//! Points and rectangles in physical pixels.
//!
//! A [`Rect`] stands for the half-open set of pixels between its edges. All
//! edge arithmetic is exact; a result whose edges leave the 32-bit range is
//! saturated to it.

use vstd::math::{max, min};
use vstd::prelude::*;

verus! {

/// The value of `lo..=hi` nearest to `v`.
pub open spec fn bounded(v: int, lo: int, hi: int) -> int {
    if v < lo {
        lo
    } else if v > hi {
        hi
    } else {
        v
    }
}

/// The 32-bit integer nearest to `v`.
pub open spec fn sat_i32(v: int) -> i32 {
    bounded(v, i32::MIN as int, i32::MAX as int) as i32
}

/// The unsigned 32-bit integer nearest to `v`.
pub open spec fn sat_u32(v: int) -> u32 {
    bounded(v, 0, u32::MAX as int) as u32
}

/// Saturating narrowing to `i32`.
pub fn narrow_i32(v: i64) -> (r: i32)
    ensures
        r == sat_i32(v as int),
{
    if v < -0x8000_0000i64 {
        i32::MIN
    } else if v > 0x7fff_ffffi64 {
        i32::MAX
    } else {
        v as i32
    }
}

/// Saturating narrowing to `u32`.
pub fn narrow_u32(v: i64) -> (r: u32)
    ensures
        r == sat_u32(v as int),
{
    if v < 0 {
        0
    } else if v > 0xffff_ffffi64 {
        u32::MAX
    } else {
        v as u32
    }
}

/// The smaller of two edges.
pub fn min_i64(a: i64, b: i64) -> (r: i64)
    ensures
        r == min(a as int, b as int),
{
    if a < b {
        a
    } else {
        b
    }
}

/// The larger of two edges.
pub fn max_i64(a: i64, b: i64) -> (r: i64)
    ensures
        r == max(a as int, b as int),
{
    if a > b {
        a
    } else {
        b
    }
}

/// A pixel position.
#[derive(Clone, Copy, PartialEq, Eq, Structural, Hash, Debug)]
pub struct Point {
    pub x: i32,
    pub y: i32,
}

impl Point {
    pub fn new(x: i32, y: i32) -> (r: Self)
        ensures
            r.x == x,
            r.y == y,
    {
        Self { x, y }
    }
}

impl Default for Point {
    fn default() -> (r: Self)
        ensures
            r == (Point { x: 0, y: 0 }),
    {
        Self { x: 0, y: 0 }
    }
}

/// A rectangle: the pixels `(px, py)` with `x <= px < x + width` and
/// `y <= py < y + height`.
#[derive(Clone, Copy, PartialEq, Eq, Structural, Hash, Debug)]
pub struct Rect {
    pub x: i32,
    pub y: i32,
    pub width: u32,
    pub height: u32,
}

impl Rect {
    /// Exclusive right edge.
    pub open spec fn right_edge(self) -> int {
        self.x + self.width
    }

    /// Exclusive bottom edge.
    pub open spec fn bottom_edge(self) -> int {
        self.y + self.height
    }

    /// Zero area on either axis.
    pub open spec fn empty(self) -> bool {
        self.width == 0 || self.height == 0
    }

    /// Whether pixel `(px, py)` belongs to the rectangle.
    pub open spec fn covers(self, px: int, py: int) -> bool {
        self.x <= px < self.right_edge() && self.y <= py < self.bottom_edge()
    }

    /// The rectangle between four edges, saturated to the 32-bit range. An
    /// edge pair in the wrong order gives zero extent.
    pub open spec fn of_edges(left: int, top: int, right: int, bottom: int) -> Rect {
        Rect {
            x: sat_i32(left),
            y: sat_i32(top),
            width: sat_u32(right - sat_i32(left)),
            height: sat_u32(bottom - sat_i32(top)),
        }
    }

    /// Smallest rectangle covering both; an empty one contributes nothing.
    pub open spec fn union_spec(self, other: Rect) -> Rect {
        if self.empty() {
            other
        } else if other.empty() {
            self
        } else {
            Rect::of_edges(
                min(self.x as int, other.x as int),
                min(self.y as int, other.y as int),
                max(self.right_edge(), other.right_edge()),
                max(self.bottom_edge(), other.bottom_edge()),
            )
        }
    }

    pub fn new(x: i32, y: i32, width: u32, height: u32) -> (r: Self)
        ensures
            r == (Rect { x, y, width, height }),
    {
        Self { x, y, width, height }
    }

    /// The rectangle between four edges (see [`Rect::of_edges`]).
    pub fn from_edges(left: i64, top: i64, right: i64, bottom: i64) -> (r: Self)
        requires
            -0x4000_0000_0000_0000 <= left <= 0x4000_0000_0000_0000,
            -0x4000_0000_0000_0000 <= top <= 0x4000_0000_0000_0000,
            -0x4000_0000_0000_0000 <= right <= 0x4000_0000_0000_0000,
            -0x4000_0000_0000_0000 <= bottom <= 0x4000_0000_0000_0000,
        ensures
            r == Rect::of_edges(left as int, top as int, right as int, bottom as int),
    {
        let x: i32 = narrow_i32(left);
        let y: i32 = narrow_i32(top);
        Self { x, y, width: narrow_u32(right - x as i64), height: narrow_u32(bottom - y as i64) }
    }

    /// The rectangle between two corners given in any order.
    pub fn from_points(a: Point, b: Point) -> (r: Self)
        ensures
            r.x == min(a.x as int, b.x as int),
            r.y == min(a.y as int, b.y as int),
            r.right_edge() == max(a.x as int, b.x as int),
            r.bottom_edge() == max(a.y as int, b.y as int),
    {
        Self::from_edges(
            min_i64(a.x as i64, b.x as i64),
            min_i64(a.y as i64, b.y as i64),
            max_i64(a.x as i64, b.x as i64),
            max_i64(a.y as i64, b.y as i64),
        )
    }

    /// Exclusive right edge.
    pub fn right(&self) -> (r: i64)
        ensures
            r == self.right_edge(),
    {
        self.x as i64 + self.width as i64
    }

    /// Exclusive bottom edge.
    pub fn bottom(&self) -> (r: i64)
        ensures
            r == self.bottom_edge(),
    {
        self.y as i64 + self.height as i64
    }

    pub fn is_empty(&self) -> (r: bool)
        ensures
            r == self.empty(),
    {
        self.width == 0 || self.height == 0
    }

    /// Whether `p` lies inside: left and top edges inclusive, right and bottom
    /// exclusive.
    pub fn contains(&self, p: Point) -> (r: bool)
        ensures
            r == self.covers(p.x as int, p.y as int),
    {
        self.x <= p.x && (p.x as i64) < self.right() && self.y <= p.y && (p.y as i64)
            < self.bottom()
    }

    /// Smallest rectangle covering both; an empty one contributes nothing.
    pub fn union(&self, other: &Rect) -> (r: Rect)
        ensures
            r == self.union_spec(*other),
    {
        if self.is_empty() {
            return *other;
        }
        if other.is_empty() {
            return *self;
        }
        Self::from_edges(
            min_i64(self.x as i64, other.x as i64),
            min_i64(self.y as i64, other.y as i64),
            max_i64(self.right(), other.right()),
            max_i64(self.bottom(), other.bottom()),
        )
    }

    /// The common pixels of both, `None` when there are none.
    pub fn intersection(&self, other: &Rect) -> (r: Option<Rect>)
        ensures
            r is Some <==> exists|px: int, py: int|
                #![trigger self.covers(px, py)]
                self.covers(px, py) && other.covers(px, py),
            r matches Some(c) ==> !c.empty() && forall|px: int, py: int|
                #![trigger c.covers(px, py)]
                c.covers(px, py) <==> self.covers(px, py) && other.covers(px, py),
    {
        let x0: i64 = max_i64(self.x as i64, other.x as i64);
        let y0: i64 = max_i64(self.y as i64, other.y as i64);
        let x1: i64 = min_i64(self.right(), other.right());
        let y1: i64 = min_i64(self.bottom(), other.bottom());
        if x1 <= x0 || y1 <= y0 {
            return None;
        }
        assert(self.covers(x0 as int, y0 as int) && other.covers(x0 as int, y0 as int));
        Some(Self::from_edges(x0, y0, x1, y1))
    }
}

/// A union covers every pixel of both rectangles, as long as its extent fits
/// the 32-bit range.
pub proof fn lemma_union_covers(a: Rect, b: Rect, px: int, py: int)
    requires
        a.covers(px, py) || b.covers(px, py),
        max(a.right_edge(), b.right_edge()) - min(a.x as int, b.x as int) <= u32::MAX,
        max(a.bottom_edge(), b.bottom_edge()) - min(a.y as int, b.y as int) <= u32::MAX,
    ensures
        a.union_spec(b).covers(px, py),
{
}

/// A union is the same in either order.
pub proof fn lemma_union_commutes(a: Rect, b: Rect)
    requires
        !a.empty(),
        !b.empty(),
    ensures
        a.union_spec(b) == b.union_spec(a),
{
}

/// A union is the smallest rectangle around both: its edges are edges of the
/// two, so whatever covers both covers it. An empty rectangle adds nothing.
pub proof fn lemma_union_is_smallest(a: Rect, b: Rect, around: Rect)
    requires
        !a.empty(),
        !b.empty(),
        around.x <= a.x && around.x <= b.x,
        around.y <= a.y && around.y <= b.y,
        a.x + a.width <= around.x + around.width,
        b.x + b.width <= around.x + around.width,
        a.y + a.height <= around.y + around.height,
        b.y + b.height <= around.y + around.height,
    ensures
        ({
            let u = a.union_spec(b);
            &&& u.x == a.x || u.x == b.x
            &&& u.y == a.y || u.y == b.y
            &&& u.x <= a.x && u.x <= b.x
            &&& u.y <= a.y && u.y <= b.y
            &&& u.x + u.width == a.x + a.width || u.x + u.width == b.x + b.width
            &&& u.y + u.height == a.y + a.height || u.y + u.height == b.y + b.height
            &&& a.x + a.width <= u.x + u.width <= around.x + around.width
            &&& b.x + b.width <= u.x + u.width
            &&& a.y + a.height <= u.y + u.height <= around.y + around.height
            &&& b.y + b.height <= u.y + u.height
        }),
{
}

/// A rectangle without pixels adds nothing to a union, on either side.
pub proof fn lemma_union_with_nothing(a: Rect, b: Rect)
    requires
        b.width == 0 || b.height == 0,
    ensures
        a.union_spec(b) == a || a.width == 0 || a.height == 0,
        b.union_spec(a) == a,
{
}

/// A rectangle holds the pixels from its corner on, as many as it is wide and
/// high: its corner is in, the pixels past its far edges are not.
pub proof fn lemma_covered_pixels(r: Rect, i: int, j: int)
    ensures
        r.covers(r.x + i, r.y + j) <==> 0 <= i < r.width && 0 <= j < r.height,
{
}

/// Edges in range and in order are kept; numbers out of range go to the
/// nearest that is in.
pub proof fn lemma_edges_are_kept(left: i32, top: i32, right: int, bottom: int)
    requires
        left <= right <= left + u32::MAX,
        top <= bottom <= top + u32::MAX,
    ensures
        ({
            let r = Rect::of_edges(left as int, top as int, right, bottom);
            &&& r.x == left
            &&& r.y == top
            &&& r.x + r.width == right
            &&& r.y + r.height == bottom
        }),
{
}

/// Narrowing keeps what fits and takes the nearest end for the rest.
pub proof fn lemma_narrowing(v: int)
    ensures
        -0x8000_0000 <= v <= 0x7fff_ffff ==> sat_i32(v) == v,
        v > 0x7fff_ffff ==> sat_i32(v) == 0x7fff_ffff,
        v < -0x8000_0000 ==> sat_i32(v) == -0x8000_0000,
        0 <= v <= 0xffff_ffff ==> sat_u32(v) == v,
        v > 0xffff_ffff ==> sat_u32(v) == 0xffff_ffffu32,
        v < 0 ==> sat_u32(v) == 0,
{
}

} // verus!
