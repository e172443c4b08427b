//! Integer geometry kernel: 2D points, axis-aligned rectangles and 1D
//! intervals over `i32` coordinates.
//!
//! All operations are pure value arithmetic; containment is half-open on
//! every axis (`min <= c < max`). Rectangles built by [`Bounds::pull`] may
//! be inverted (negative extent); [`Bounds::fixed`] restores the
//! `min <= max` ordering on both axes.

use vstd::arithmetic::div_mod::{
    lemma_div_basics, lemma_div_is_strictly_smaller, lemma_div_nonincreasing,
    lemma_div_pos_is_pos,
};
use vstd::prelude::*;

verus! {

/// Integer division as the machine performs it on signed operands:
/// the quotient is rounded toward zero.
pub open spec fn div_toward_zero(x: int, d: int) -> int {
    if x == 0 {
        0
    } else if x > 0 && d > 0 {
        x / d
    } else if x < 0 && d < 0 {
        (x * -1) / (d * -1)
    } else if x < 0 {
        ((x * -1) / d) * -1
    } else {
        (x / (d * -1)) * -1
    }
}

/// Rounding toward zero can never leave the `i32` range, except for
/// `i32::MIN / -1`.
proof fn lemma_div_toward_zero_in_range(x: int, d: int)
    requires
        i32::MIN <= x <= i32::MAX,
        i32::MIN <= d <= i32::MAX,
        d != 0,
        !(x == i32::MIN && d == -1),
    ensures
        i32::MIN <= div_toward_zero(x, d) <= i32::MAX,
{
    if x == 0 {
    } else if x > 0 && d > 0 {
        lemma_div_pos_is_pos(x, d);
        lemma_div_nonincreasing(x, d);
    } else if x < 0 && d < 0 {
        let xx = x * -1;
        let dd = d * -1;
        lemma_div_pos_is_pos(xx, dd);
        if dd == 1 {
            lemma_div_basics(xx);
        } else {
            lemma_div_is_strictly_smaller(xx, dd);
        }
    } else if x < 0 {
        let xx = x * -1;
        lemma_div_pos_is_pos(xx, d);
        if d == 1 {
            lemma_div_basics(xx);
        } else {
            lemma_div_nonincreasing(xx, d);
        }
    } else {
        let dd = d * -1;
        lemma_div_pos_is_pos(x, dd);
        lemma_div_nonincreasing(x, dd);
    }
}

/// Truncating `i32` division, proved against [`div_toward_zero`].
pub(crate) fn div_i32(x: i32, d: i32) -> (r: i32)
    requires
        d != 0,
        !(x == i32::MIN && d == -1),
    ensures
        r == div_toward_zero(x as int, d as int),
{
    proof {
        lemma_div_toward_zero_in_range(x as int, d as int);
    }
    x.checked_div(d).unwrap()
}

#[derive(Debug, Clone, Copy, PartialEq, Eq, Structural)]
pub struct Point {
    pub x: i32,
    pub y: i32,
}

impl Point {
    pub fn new(x: i32, y: i32) -> (r: Self)
        ensures
            r == (Point { x, y }),
    {
        Self { x, y }
    }

    pub fn from_pair(pair: (i32, i32)) -> (r: Self)
        ensures
            r == (Point { x: pair.0, y: pair.1 }),
    {
        Self::new(pair.0, pair.1)
    }

    pub fn zero() -> (r: Self)
        ensures
            r == (Point { x: 0, y: 0 }),
    {
        Self { x: 0, y: 0 }
    }

    /// The rectangle anchored at `self` with extent `size` (which may be
    /// negative, producing an inverted rectangle).
    pub fn blow_rectangle(self, size: Self) -> (r: Bounds)
        requires
            i32::MIN <= self.x + size.x <= i32::MAX,
            i32::MIN <= self.y + size.y <= i32::MAX,
        ensures
            r.min == self,
            r.max.x == self.x + size.x,
            r.max.y == self.y + size.y,
    {
        Bounds::pull(self, size)
    }

    pub fn mul(self, c: i32) -> (r: Self)
        requires
            i32::MIN <= self.x * c <= i32::MAX,
            i32::MIN <= self.y * c <= i32::MAX,
        ensures
            r.x == self.x * c,
            r.y == self.y * c,
    {
        Self::new(self.x * c, self.y * c)
    }

    pub fn div(self, c: i32) -> (r: Self)
        requires
            c != 0,
            !(self.x == i32::MIN && c == -1),
            !(self.y == i32::MIN && c == -1),
        ensures
            r.x == div_toward_zero(self.x as int, c as int),
            r.y == div_toward_zero(self.y as int, c as int),
    {
        Self::new(div_i32(self.x, c), div_i32(self.y, c))
    }

    /// Componentwise sum.
    pub fn add(self, rhs: Self) -> (r: Self)
        requires
            i32::MIN <= self.x + rhs.x <= i32::MAX,
            i32::MIN <= self.y + rhs.y <= i32::MAX,
        ensures
            r.x == self.x + rhs.x,
            r.y == self.y + rhs.y,
    {
        Self::new(self.x + rhs.x, self.y + rhs.y)
    }

    /// Componentwise difference.
    pub fn sub(self, rhs: Self) -> (r: Self)
        requires
            i32::MIN <= self.x - rhs.x <= i32::MAX,
            i32::MIN <= self.y - rhs.y <= i32::MAX,
        ensures
            r.x == self.x - rhs.x,
            r.y == self.y - rhs.y,
    {
        Self::new(self.x - rhs.x, self.y - rhs.y)
    }

    /// Componentwise negation.
    pub fn neg(self) -> (r: Self)
        requires
            self.x != i32::MIN,
            self.y != i32::MIN,
        ensures
            r.x == -self.x,
            r.y == -self.y,
    {
        Self::new(-self.x, -self.y)
    }
}

/// The pair `(a, b)` reordered so that the smaller component comes first.
fn min_max(a: i32, b: i32) -> (r: (i32, i32))
    ensures
        r.0 == if a < b { a } else { b },
        r.1 == if a < b { b } else { a },
{
    if a < b {
        (a, b)
    } else {
        (b, a)
    }
}

#[derive(Debug, Clone, Copy, PartialEq, Eq, Structural)]
pub struct Bounds {
    pub min: Point,
    pub max: Point,
}

/// Half-open containment: `p` lies inside `b` iff it is at or right of /
/// below `b.min` and strictly left of / above `b.max` on both axes.
pub open spec fn bounds_contain(b: Bounds, p: Point) -> bool {
    b.min.x <= p.x < b.max.x && b.min.y <= p.y < b.max.y
}

impl Bounds {
    pub fn from_intervals(x: Interval, y: Interval) -> (r: Self)
        ensures
            r.min == (Point { x: x.min, y: y.min }),
            r.max == (Point { x: x.max, y: y.max }),
    {
        Self {
            min: Point::new(x.min, y.min),
            max: Point::new(x.max, y.max),
        }
    }

    pub fn new(x1: i32, y1: i32, x2: i32, y2: i32) -> (r: Self)
        ensures
            r.min == (Point { x: x1, y: y1 }),
            r.max == (Point { x: x2, y: y2 }),
    {
        Self::from_points(Point::new(x1, y1), Point::new(x2, y2))
    }

    pub fn from_points(p1: Point, p2: Point) -> (r: Self)
        ensures
            r.min == p1,
            r.max == p2,
    {
        Self { min: p1, max: p2 }
    }

    pub fn from_size(size: Point) -> (r: Self)
        ensures
            r.min == (Point { x: 0, y: 0 }),
            r.max == size,
    {
        Self::from_points(Point::zero(), size)
    }

    pub fn zero() -> (r: Self)
        ensures
            r.min == (Point { x: 0, y: 0 }),
            r.max == (Point { x: 0, y: 0 }),
    {
        Self::from_points(Point::zero(), Point::zero())
    }

    /// The same rectangle with `min <= max` restored on both axes.
    pub fn fixed(self) -> (r: Self)
        ensures
            r.min.x == if self.min.x < self.max.x { self.min.x } else { self.max.x },
            r.max.x == if self.min.x < self.max.x { self.max.x } else { self.min.x },
            r.min.y == if self.min.y < self.max.y { self.min.y } else { self.max.y },
            r.max.y == if self.min.y < self.max.y { self.max.y } else { self.min.y },
    {
        let (x1, x2) = min_max(self.min.x, self.max.x);
        let (y1, y2) = min_max(self.min.y, self.max.y);
        Self::new(x1, y1, x2, y2)
    }

    pub fn x(self) -> (r: Interval)
        ensures
            r.min == self.min.x,
            r.max == self.max.x,
    {
        Interval::from_bounds(self.min.x, self.max.x)
    }

    pub fn y(self) -> (r: Interval)
        ensures
            r.min == self.min.y,
            r.max == self.max.y,
    {
        Interval::from_bounds(self.min.y, self.max.y)
    }

    pub fn width(self) -> (r: i32)
        requires
            i32::MIN <= self.max.x - self.min.x <= i32::MAX,
        ensures
            r == self.max.x - self.min.x,
    {
        self.x().length()
    }

    pub fn height(self) -> (r: i32)
        requires
            i32::MIN <= self.max.y - self.min.y <= i32::MAX,
        ensures
            r == self.max.y - self.min.y,
    {
        self.y().length()
    }

    pub fn size(self) -> (r: Point)
        requires
            i32::MIN <= self.max.x - self.min.x <= i32::MAX,
            i32::MIN <= self.max.y - self.min.y <= i32::MAX,
        ensures
            r.x == self.max.x - self.min.x,
            r.y == self.max.y - self.min.y,
    {
        Point::new(self.width(), self.height())
    }

    pub fn contains(self, v: Point) -> (r: bool)
        ensures
            r == bounds_contain(self, v),
    {
        self.min.x <= v.x && v.x < self.max.x && self.min.y <= v.y && v.y < self.max.y
    }

    pub fn center(self) -> (r: Point)
        requires
            i32::MIN <= self.min.x + self.max.x <= i32::MAX,
            i32::MIN <= self.min.y + self.max.y <= i32::MAX,
        ensures
            r.x == div_toward_zero(self.min.x + self.max.x, 2),
            r.y == div_toward_zero(self.min.y + self.max.y, 2),
    {
        Point::new(self.min.x + self.max.x, self.min.y + self.max.y).div(2)
    }

    pub fn add(self, v: Point) -> (r: Self)
        requires
            i32::MIN <= self.min.x + v.x <= i32::MAX,
            i32::MIN <= self.min.y + v.y <= i32::MAX,
            i32::MIN <= self.max.x + v.x <= i32::MAX,
            i32::MIN <= self.max.y + v.y <= i32::MAX,
        ensures
            r.min.x == self.min.x + v.x,
            r.min.y == self.min.y + v.y,
            r.max.x == self.max.x + v.x,
            r.max.y == self.max.y + v.y,
    {
        Self {
            min: Point::new(self.min.x + v.x, self.min.y + v.y),
            max: Point::new(self.max.x + v.x, self.max.y + v.y),
        }
    }

    /// Move `min` inward by `(left, top)` and `max` inward by
    /// `(right, bottom)`.
    pub fn shrink(self, indents: (i32, i32, i32, i32)) -> (r: Self)
        requires
            i32::MIN <= self.min.x + indents.0 <= i32::MAX,
            i32::MIN <= self.min.y + indents.1 <= i32::MAX,
            i32::MIN <= self.max.x - indents.2 <= i32::MAX,
            i32::MIN <= self.max.y - indents.3 <= i32::MAX,
        ensures
            r.min.x == self.min.x + indents.0,
            r.min.y == self.min.y + indents.1,
            r.max.x == self.max.x - indents.2,
            r.max.y == self.max.y - indents.3,
    {
        let (left, top, right, bottom) = indents;
        Self::from_points(
            Point::new(self.min.x + left, self.min.y + top),
            Point::new(self.max.x - right, self.max.y - bottom),
        )
    }

    /// The rectangle anchored at `p` with extent `v`.
    pub fn pull(p: Point, v: Point) -> (r: Self)
        requires
            i32::MIN <= p.x + v.x <= i32::MAX,
            i32::MIN <= p.y + v.y <= i32::MAX,
        ensures
            r.min == p,
            r.max.x == p.x + v.x,
            r.max.y == p.y + v.y,
    {
        Self::from_points(p, Point::new(p.x + v.x, p.y + v.y))
    }
}

/// Half-open containment along one axis.
pub open spec fn interval_contains(i: Interval, c: int) -> bool {
    i.min <= c < i.max
}

#[derive(Debug, Clone, Copy, PartialEq, Eq, Structural)]
pub struct Interval {
    pub min: i32,
    pub max: i32,
}

impl Interval {
    pub fn from_bounds(min: i32, max: i32) -> (r: Self)
        ensures
            r == (Interval { min, max }),
    {
        Self { min, max }
    }

    /// The same interval with `min <= max` restored.
    pub fn fixed(self) -> (r: Self)
        ensures
            r.min == if self.min < self.max { self.min } else { self.max },
            r.max == if self.min < self.max { self.max } else { self.min },
    {
        let (min, max) = min_max(self.min, self.max);
        Self::from_bounds(min, max)
    }

    pub fn from_size(origin: i32, size: i32) -> (r: Self)
        requires
            i32::MIN <= origin + size <= i32::MAX,
        ensures
            r.min == origin,
            r.max == origin + size,
    {
        Self::from_bounds(origin, origin + size)
    }

    pub fn zero() -> (r: Self)
        ensures
            r == (Interval { min: 0, max: 0 }),
    {
        Self::from_bounds(0, 0)
    }

    pub fn length(self) -> (r: i32)
        requires
            i32::MIN <= self.max - self.min <= i32::MAX,
        ensures
            r == self.max - self.min,
    {
        self.max - self.min
    }

    pub fn add(self, v: i32) -> (r: Self)
        requires
            i32::MIN <= self.min + v <= i32::MAX,
            i32::MIN <= self.max + v <= i32::MAX,
        ensures
            r.min == self.min + v,
            r.max == self.max + v,
    {
        Self::from_bounds(self.min + v, self.max + v)
    }

    pub fn contains(self, c: i32) -> (r: bool)
        ensures
            r == interval_contains(self, c as int),
    {
        self.min <= c && c < self.max
    }

    pub fn center(self) -> (r: i32)
        requires
            i32::MIN <= self.min + self.max <= i32::MAX,
        ensures
            r == div_toward_zero(self.min + self.max, 2),
    {
        div_i32(self.min + self.max, 2)
    }

    pub fn shrink(self, v: i32) -> (r: Self)
        requires
            i32::MIN <= self.min + v <= i32::MAX,
            i32::MIN <= self.max - v <= i32::MAX,
        ensures
            r.min == self.min + v,
            r.max == self.max - v,
    {
        Self::from_bounds(self.min + v, self.max - v)
    }
}

/// An axis-aligned box over `N` integer coordinates.
pub struct NDInterval<const N: usize> {
    pub min: NDPoint<N>,
    pub max: NDPoint<N>,
}

/// A point over `N` integer coordinates.
pub struct NDPoint<const N: usize> {
    pub coordinates: [i32; N],
}

impl<const N: usize> NDPoint<N> {
    pub fn new(coordinates: [i32; N]) -> (r: Self)
        ensures
            r.coordinates == coordinates,
    {
        Self { coordinates }
    }

    pub fn zero() -> (r: Self)
        ensures
            forall|k: int| 0 <= k < N ==> r.coordinates@[k] == 0,
    {
        Self { coordinates: [0; N] }
    }

    pub fn mul(self, c: i32) -> (r: Self)
        requires
            forall|k: int|
                0 <= k < N ==> i32::MIN <= #[trigger] self.coordinates@[k] * c <= i32::MAX,
        ensures
            forall|k: int| 0 <= k < N ==> r.coordinates@[k] == self.coordinates@[k] * c,
    {
        let mut coordinates = self.coordinates;
        let mut i: usize = 0;
        while i < N
            invariant
                0 <= i <= N,
                coordinates@.len() == N,
                forall|k: int|
                    0 <= k < N ==> i32::MIN <= #[trigger] self.coordinates@[k] * c <= i32::MAX,
                forall|k: int| 0 <= k < i ==> coordinates@[k] == self.coordinates@[k] * c,
                forall|k: int| i <= k < N ==> coordinates@[k] == self.coordinates@[k],
            decreases N - i,
        {
            coordinates[i] = coordinates[i] * c;
            i = i + 1;
        }
        Self { coordinates }
    }

    pub fn div(self, c: i32) -> (r: Self)
        requires
            c != 0,
            forall|k: int| 0 <= k < N ==> !(#[trigger] self.coordinates@[k] == i32::MIN && c == -1),
        ensures
            forall|k: int|
                0 <= k < N ==> r.coordinates@[k] == div_toward_zero(
                    #[trigger] self.coordinates@[k] as int,
                    c as int,
                ),
    {
        let mut coordinates = self.coordinates;
        let mut i: usize = 0;
        while i < N
            invariant
                0 <= i <= N,
                c != 0,
                coordinates@.len() == N,
                forall|k: int|
                    0 <= k < N ==> !(#[trigger] self.coordinates@[k] == i32::MIN && c == -1),
                forall|k: int|
                    0 <= k < i ==> coordinates@[k] == div_toward_zero(
                        #[trigger] self.coordinates@[k] as int,
                        c as int,
                    ),
                forall|k: int| i <= k < N ==> coordinates@[k] == self.coordinates@[k],
            decreases N - i,
        {
            coordinates[i] = div_i32(coordinates[i], c);
            i = i + 1;
        }
        Self { coordinates }
    }
}

/// Half-open containment holds nowhere on the max corner and holds on the
/// min corner exactly when the rectangle is non-degenerate on both axes.
pub proof fn lemma_contains_half_open(b: Bounds)
    ensures
        !bounds_contain(b, b.max),
        bounds_contain(b, b.min) <==> (b.min.x < b.max.x && b.min.y < b.max.y),
{
}

} // verus!
