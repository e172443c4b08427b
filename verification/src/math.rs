//! Geometry for the retained drawing pipeline: points, 1D intervals and
//! rectangles over `i32` window-pixel coordinates.
//!
//! [`Bounds`] keeps the corner points; a rectangle produced by
//! [`Bounds::pull`] may be inverted and [`Bounds::fix`] restores the
//! `min <= max` ordering. Containment is half-open on both axes, so a
//! point on the `max` edge of one rectangle can lie inside the adjacent
//! sibling without being counted twice.

use crate::basics::{div_i32, div_toward_zero};
use vstd::prelude::*;

verus! {

#[derive(Debug, Clone, Copy, PartialEq, Eq, Structural)]
pub struct Point {
    pub x: i32,
    pub y: i32,
}

impl Point {
    pub fn new(x: i32, y: i32) -> (r: Self)
        ensures
            r == (Point { x, y }),
    {
        Self { x, y }
    }

    pub fn mul(self, c: i32) -> (r: Self)
        requires
            i32::MIN <= self.x * c <= i32::MAX,
            i32::MIN <= self.y * c <= i32::MAX,
        ensures
            r.x == self.x * c,
            r.y == self.y * c,
    {
        Self::new(self.x * c, self.y * c)
    }

    pub fn div(self, c: i32) -> (r: Self)
        requires
            c != 0,
            !(self.x == i32::MIN && c == -1),
            !(self.y == i32::MIN && c == -1),
        ensures
            r.x == div_toward_zero(self.x as int, c as int),
            r.y == div_toward_zero(self.y as int, c as int),
    {
        Self::new(div_i32(self.x, c), div_i32(self.y, c))
    }

    pub fn zero() -> (r: Self)
        ensures
            r == (Point { x: 0, y: 0 }),
    {
        Point::new(0, 0)
    }

    pub fn from_pair(pair: (i32, i32)) -> (r: Self)
        ensures
            r == (Point { x: pair.0, y: pair.1 }),
    {
        Self::new(pair.0, pair.1)
    }

    /// Componentwise sum.
    pub fn add(self, rhs: Self) -> (r: Self)
        requires
            i32::MIN <= self.x + rhs.x <= i32::MAX,
            i32::MIN <= self.y + rhs.y <= i32::MAX,
        ensures
            r.x == self.x + rhs.x,
            r.y == self.y + rhs.y,
    {
        Self::new(self.x + rhs.x, self.y + rhs.y)
    }

    /// Componentwise difference.
    pub fn sub(self, rhs: Self) -> (r: Self)
        requires
            i32::MIN <= self.x - rhs.x <= i32::MAX,
            i32::MIN <= self.y - rhs.y <= i32::MAX,
        ensures
            r.x == self.x - rhs.x,
            r.y == self.y - rhs.y,
    {
        Self::new(self.x - rhs.x, self.y - rhs.y)
    }

    /// Componentwise negation.
    pub fn neg(self) -> (r: Self)
        requires
            self.x != i32::MIN,
            self.y != i32::MIN,
        ensures
            r.x == -self.x,
            r.y == -self.y,
    {
        Self::new(-self.x, -self.y)
    }
}

/// The pair `(a, b)` reordered so that the smaller component comes first.
fn min_max(a: i32, b: i32) -> (r: (i32, i32))
    ensures
        r.0 == if a < b { a } else { b },
        r.1 == if a < b { b } else { a },
{
    if a < b {
        (a, b)
    } else {
        (b, a)
    }
}

/// Half-open containment along one axis.
pub open spec fn interval_contains(i: Interval, c: int) -> bool {
    i.min <= c < i.max
}

#[derive(Debug, Clone, Copy, PartialEq, Eq, Structural)]
pub struct Interval {
    pub min: i32,
    pub max: i32,
}

impl Interval {
    pub fn from_bounds(min: i32, max: i32) -> (r: Self)
        ensures
            r == (Interval { min, max }),
    {
        Self { min, max }
    }

    /// The same interval with `min <= max` restored.
    pub fn fixed(self) -> (r: Self)
        ensures
            r.min == if self.min < self.max { self.min } else { self.max },
            r.max == if self.min < self.max { self.max } else { self.min },
    {
        let (min, max) = min_max(self.min, self.max);
        Self::from_bounds(min, max)
    }

    pub fn from_size(origin: i32, size: i32) -> (r: Self)
        requires
            i32::MIN <= origin + size <= i32::MAX,
        ensures
            r.min == origin,
            r.max == origin + size,
    {
        Self::from_bounds(origin, origin + size)
    }

    pub fn zero() -> (r: Self)
        ensures
            r == (Interval { min: 0, max: 0 }),
    {
        Self::from_bounds(0, 0)
    }

    pub fn length(self) -> (r: i32)
        requires
            i32::MIN <= self.max - self.min <= i32::MAX,
        ensures
            r == self.max - self.min,
    {
        self.max - self.min
    }

    pub fn add(self, v: i32) -> (r: Self)
        requires
            i32::MIN <= self.min + v <= i32::MAX,
            i32::MIN <= self.max + v <= i32::MAX,
        ensures
            r.min == self.min + v,
            r.max == self.max + v,
    {
        Self::from_bounds(self.min + v, self.max + v)
    }

    pub fn contains(self, c: i32) -> (r: bool)
        ensures
            r == interval_contains(self, c as int),
    {
        self.min <= c && c < self.max
    }

    pub fn center(self) -> (r: i32)
        requires
            i32::MIN <= self.min + self.max <= i32::MAX,
        ensures
            r == div_toward_zero(self.min + self.max, 2),
    {
        div_i32(self.min + self.max, 2)
    }

    pub fn shrink(self, v: i32) -> (r: Self)
        requires
            i32::MIN <= self.min + v <= i32::MAX,
            i32::MIN <= self.max - v <= i32::MAX,
        ensures
            r.min == self.min + v,
            r.max == self.max - v,
    {
        Self::from_bounds(self.min + v, self.max - v)
    }

    pub fn range(self) -> (r: core::ops::Range<i32>)
        ensures
            r.start == self.min,
            r.end == self.max,
    {
        self.min..self.max
    }
}

/// Half-open containment: `p` lies inside `b` iff it is at or right of /
/// below `b.min` and strictly left of / above `b.max` on both axes.
pub open spec fn bounds_contain(b: Bounds, p: Point) -> bool {
    b.min.x <= p.x < b.max.x && b.min.y <= p.y < b.max.y
}

#[derive(Debug, Clone, Copy, PartialEq, Eq, Structural)]
pub struct Bounds {
    pub min: Point,
    pub max: Point,
}

impl Bounds {
    pub fn from_intervals(x: Interval, y: Interval) -> (r: Self)
        ensures
            r.min == (Point { x: x.min, y: y.min }),
            r.max == (Point { x: x.max, y: y.max }),
    {
        Self {
            min: Point::new(x.min, y.min),
            max: Point::new(x.max, y.max),
        }
    }

    pub fn new(x1: i32, y1: i32, x2: i32, y2: i32) -> (r: Self)
        ensures
            r.min == (Point { x: x1, y: y1 }),
            r.max == (Point { x: x2, y: y2 }),
    {
        Self::from_points(Point::new(x1, y1), Point::new(x2, y2))
    }

    pub fn from_points(p1: Point, p2: Point) -> (r: Self)
        ensures
            r.min == p1,
            r.max == p2,
    {
        Self { min: p1, max: p2 }
    }

    pub fn from_size(size: Point) -> (r: Self)
        ensures
            r.min == (Point { x: 0, y: 0 }),
            r.max == size,
    {
        Self::from_points(Point::zero(), size)
    }

    pub fn zero() -> (r: Self)
        ensures
            r.min == (Point { x: 0, y: 0 }),
            r.max == (Point { x: 0, y: 0 }),
    {
        Self::from_points(Point::zero(), Point::zero())
    }

    /// The same rectangle with `min <= max` restored on both axes.
    pub fn fix(self) -> (r: Self)
        ensures
            r.min.x == if self.min.x < self.max.x { self.min.x } else { self.max.x },
            r.max.x == if self.min.x < self.max.x { self.max.x } else { self.min.x },
            r.min.y == if self.min.y < self.max.y { self.min.y } else { self.max.y },
            r.max.y == if self.min.y < self.max.y { self.max.y } else { self.min.y },
    {
        let (x1, x2) = min_max(self.min.x, self.max.x);
        let (y1, y2) = min_max(self.min.y, self.max.y);
        Self::new(x1, y1, x2, y2)
    }

    pub fn x(self) -> (r: Interval)
        ensures
            r.min == self.min.x,
            r.max == self.max.x,
    {
        Interval::from_bounds(self.min.x, self.max.x)
    }

    pub fn y(self) -> (r: Interval)
        ensures
            r.min == self.min.y,
            r.max == self.max.y,
    {
        Interval::from_bounds(self.min.y, self.max.y)
    }

    pub fn width(self) -> (r: i32)
        requires
            i32::MIN <= self.max.x - self.min.x <= i32::MAX,
        ensures
            r == self.max.x - self.min.x,
    {
        self.x().length()
    }

    pub fn height(self) -> (r: i32)
        requires
            i32::MIN <= self.max.y - self.min.y <= i32::MAX,
        ensures
            r == self.max.y - self.min.y,
    {
        self.y().length()
    }

    pub fn size(self) -> (r: Point)
        requires
            i32::MIN <= self.max.x - self.min.x <= i32::MAX,
            i32::MIN <= self.max.y - self.min.y <= i32::MAX,
        ensures
            r.x == self.max.x - self.min.x,
            r.y == self.max.y - self.min.y,
    {
        Point::new(self.width(), self.height())
    }

    pub fn contains(self, v: Point) -> (r: bool)
        ensures
            r == bounds_contain(self, v),
    {
        self.min.x <= v.x && v.x < self.max.x && self.min.y <= v.y && v.y < self.max.y
    }

    pub fn center(self) -> (r: Point)
        requires
            i32::MIN <= self.min.x + self.max.x <= i32::MAX,
            i32::MIN <= self.min.y + self.max.y <= i32::MAX,
        ensures
            r.x == div_toward_zero(self.min.x + self.max.x, 2),
            r.y == div_toward_zero(self.min.y + self.max.y, 2),
    {
        Point::new(self.min.x + self.max.x, self.min.y + self.max.y).div(2)
    }

    pub fn add(self, v: Point) -> (r: Self)
        requires
            i32::MIN <= self.min.x + v.x <= i32::MAX,
            i32::MIN <= self.min.y + v.y <= i32::MAX,
            i32::MIN <= self.max.x + v.x <= i32::MAX,
            i32::MIN <= self.max.y + v.y <= i32::MAX,
        ensures
            r.min.x == self.min.x + v.x,
            r.min.y == self.min.y + v.y,
            r.max.x == self.max.x + v.x,
            r.max.y == self.max.y + v.y,
    {
        Self {
            min: Point::new(self.min.x + v.x, self.min.y + v.y),
            max: Point::new(self.max.x + v.x, self.max.y + v.y),
        }
    }

    /// The rectangle anchored at `p` with extent `v` (which may be
    /// negative, producing an inverted rectangle).
    pub fn pull(p: Point, v: Point) -> (r: Self)
        requires
            i32::MIN <= p.x + v.x <= i32::MAX,
            i32::MIN <= p.y + v.y <= i32::MAX,
        ensures
            r.min == p,
            r.max.x == p.x + v.x,
            r.max.y == p.y + v.y,
    {
        Self::from_points(p, Point::new(p.x + v.x, p.y + v.y))
    }

    /// The bottom-left corner `(min.x, max.y)`.
    pub fn min_max(self) -> (r: Point)
        ensures
            r == (Point { x: self.min.x, y: self.max.y }),
    {
        Point::new(self.min.x, self.max.y)
    }

    /// The top-right corner `(max.x, min.y)`.
    pub fn max_min(self) -> (r: Point)
        ensures
            r == (Point { x: self.max.x, y: self.min.y }),
    {
        Point::new(self.max.x, self.min.y)
    }
}

/// Half-open containment holds nowhere on the max corner and holds on the
/// min corner exactly when the rectangle is non-degenerate on both axes.
pub proof fn lemma_contains_half_open(b: Bounds)
    ensures
        !bounds_contain(b, b.max),
        bounds_contain(b, b.min) <==> (b.min.x < b.max.x && b.min.y < b.max.y),
{
}

} // verus!
