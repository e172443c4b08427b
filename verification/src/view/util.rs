//! The sizing language and the box model.
//!
//! A [`Length`] is a sizing request: an absolute pixel count, or a
//! weighted share of the parent's extent along the stacking axis.
//! [`Indents`] are the four non-negative margins of the box model;
//! shrinking a rectangle by them moves `min` inward by `(left, top)` and
//! `max` inward by `(right, bottom)`.

use crate::math::{Bounds, Point};
use vstd::prelude::*;

verus! {

/// The stacking axis of a container: children consume their requested
/// shares along this axis and receive the full parent extent on the
/// other one.
#[derive(Debug, Clone, Copy, PartialEq, Eq, Structural)]
pub enum Orientation {
    Vertical,
    Horizontal,
}

/// A sizing request. `Fill` is equivalent to `FillPortion(1)`.
#[derive(Debug, Clone, Copy, PartialEq, Eq, Structural)]
pub enum Length {
    Pixels(u32),
    Fill,
    FillPortion(u32),
}

impl Default for Length {
    fn default() -> (r: Self)
        ensures
            r == Length::Fill,
    {
        Self::Fill
    }
}

/// The weight a request contributes to the portion sum of its
/// container: `Fill` counts 1, `FillPortion(w)` counts `w`, absolute
/// requests count 0.
pub open spec fn portion_weight(l: Length) -> int {
    match l {
        Length::Pixels(_) => 0,
        Length::Fill => 1,
        Length::FillPortion(w) => w as int,
    }
}

/// The summed portion weight of a sequence of requests.
pub open spec fn total_portions(s: Seq<Length>) -> int
    decreases s.len(),
{
    if s.len() == 0 {
        0
    } else {
        total_portions(s.drop_last()) + portion_weight(s.last())
    }
}

pub proof fn lemma_total_portions_nonneg(s: Seq<Length>)
    ensures
        total_portions(s) >= 0,
    decreases s.len(),
{
    if s.len() > 0 {
        lemma_total_portions_nonneg(s.drop_last());
    }
}

/// Extending a prefix by one request adds that request's weight.
pub proof fn lemma_total_portions_step(s: Seq<Length>, i: int)
    requires
        0 <= i < s.len(),
    ensures
        total_portions(s.subrange(0, i + 1)) == total_portions(s.subrange(0, i)) + portion_weight(
            s[i],
        ),
{
    assert(s.subrange(0, i + 1).drop_last() =~= s.subrange(0, i));
}

/// A prefix never weighs more than the whole sequence.
pub proof fn lemma_total_portions_prefix_le(s: Seq<Length>, i: int)
    requires
        0 <= i <= s.len(),
    ensures
        total_portions(s.subrange(0, i)) <= total_portions(s),
    decreases s.len() - i,
{
    if i == s.len() {
        assert(s.subrange(0, i) =~= s);
    } else {
        lemma_total_portions_step(s, i);
        lemma_total_portions_prefix_le(s, i + 1);
    }
}

/// The pixel extent a request resolves to, given the parent's extent
/// along the axis and the container's precomputed portion sum. Weighted
/// requests split the whole parent extent; absolute requests ignore it.
pub open spec fn resolved_pixels(l: Length, parent_length: int, portions: int) -> int {
    match l {
        Length::Pixels(p) => p as int,
        Length::Fill => parent_length * 1 / portions,
        Length::FillPortion(w) => parent_length * w / portions,
    }
}

impl Length {
    /// Resolve this request against a parent extent. Weighted requests
    /// receive `parent_length * weight / total_portions`, computed over
    /// the portion sum of all siblings; absolute requests receive their
    /// pixel count unchanged, even when that overflows the parent.
    pub fn pixels(self, parent_length: u32, total_portions: u32) -> (r: u32)
        requires
            !(self is Pixels) ==> total_portions > 0,
            resolved_pixels(self, parent_length as int, total_portions as int) <= u32::MAX,
        ensures
            r == resolved_pixels(self, parent_length as int, total_portions as int),
        decreases (if self is Fill {
            1int
        } else {
            0int
        }),
    {
        match self {
            Length::Pixels(pixels) => pixels,
            Length::Fill => Length::FillPortion(1).pixels(parent_length, total_portions),
            Length::FillPortion(portion) => {
                proof {
                    assert((parent_length as int) * (portion as int) <= (u32::MAX as int) * (
                    u32::MAX as int)) by (nonlinear_arith)
                        requires
                            0 <= parent_length as int <= u32::MAX as int,
                            0 <= portion as int <= u32::MAX as int,
                    ;
                }
                let wide: u64 = (parent_length as u64) * (portion as u64) / (total_portions as u64);
                wide as u32
            },
        }
    }

    /// The portion sum of a list of requests, as
    /// [`total_portions`] gives it.
    pub fn count_portions(lengths: &Vec<Length>) -> (r: u32)
        requires
            total_portions(lengths@) <= u32::MAX,
        ensures
            r == total_portions(lengths@),
    {
        let mut sum: u32 = 0;
        let mut i: usize = 0;
        proof {
            assert(lengths@.subrange(0, 0) =~= Seq::<Length>::empty());
        }
        while i < lengths.len()
            invariant
                0 <= i <= lengths@.len(),
                sum == total_portions(lengths@.subrange(0, i as int)),
                total_portions(lengths@) <= u32::MAX,
            decreases lengths@.len() - i,
        {
            let weight: u32 = match lengths[i] {
                Length::Fill => 1,
                Length::FillPortion(portion) => portion,
                Length::Pixels(_) => 0,
            };
            proof {
                lemma_total_portions_step(lengths@, i as int);
                lemma_total_portions_prefix_le(lengths@, i as int + 1);
                lemma_total_portions_nonneg(lengths@.subrange(0, i as int));
            }
            sum = sum + weight;
            i = i + 1;
        }
        proof {
            assert(lengths@.subrange(0, lengths@.len() as int) =~= lengths@);
        }
        sum
    }
}

/// A resolved extent is never negative.
pub proof fn lemma_resolved_nonneg(l: Length, parent_length: int, portions: int)
    requires
        parent_length >= 0,
        !(l is Pixels) ==> portions > 0,
    ensures
        resolved_pixels(l, parent_length, portions) >= 0,
{
    match l {
        Length::Pixels(_) => {},
        Length::Fill => {
            vstd::arithmetic::div_mod::lemma_div_pos_is_pos(parent_length * 1, portions);
        },
        Length::FillPortion(w) => {
            assert(parent_length * w >= 0) by (nonlinear_arith)
                requires
                    parent_length >= 0,
                    w >= 0,
            ;
            vstd::arithmetic::div_mod::lemma_div_pos_is_pos(parent_length * (w as int), portions);
        },
    }
}

/// The resolved extent of a request, computed without any range
/// assumption on the result; [`Length::pixels`] is the `u32` form.
pub(crate) fn resolve_wide(l: Length, parent_length: u32, portions: u32) -> (r: u64)
    requires
        !(l is Pixels) ==> portions > 0,
    ensures
        r == resolved_pixels(l, parent_length as int, portions as int),
{
    match l {
        Length::Pixels(p) => p as u64,
        Length::Fill => {
            let r = (parent_length as u64) / (portions as u64);
            proof {
                assert(parent_length as int * 1 == parent_length as int);
            }
            r
        },
        Length::FillPortion(w) => {
            proof {
                assert((parent_length as int) * (w as int) <= (u32::MAX as int) * (u32::MAX as int))
                    by (nonlinear_arith)
                    requires
                        0 <= parent_length as int <= u32::MAX as int,
                        0 <= w as int <= u32::MAX as int,
                ;
            }
            (parent_length as u64) * (w as u64) / (portions as u64)
        },
    }
}

/// Four non-negative margins: left, top, right, bottom.
#[derive(Debug, Clone, Copy, PartialEq, Eq, Structural)]
pub struct Indents {
    pub left: u32,
    pub top: u32,
    pub right: u32,
    pub bottom: u32,
}

/// Whether shrinking `b` by `ind` stays within `i32` coordinates.
pub open spec fn shrink_ok(ind: Indents, b: Bounds) -> bool {
    &&& i32::MIN <= b.min.x + ind.left <= i32::MAX
    &&& i32::MIN <= b.min.y + ind.top <= i32::MAX
    &&& i32::MIN <= b.max.x - ind.right <= i32::MAX
    &&& i32::MIN <= b.max.y - ind.bottom <= i32::MAX
}

/// The rectangle left after collapsing the margins of `ind` into `b`.
pub open spec fn spec_shrink(ind: Indents, b: Bounds) -> Bounds {
    Bounds {
        min: Point { x: (b.min.x + ind.left) as i32, y: (b.min.y + ind.top) as i32 },
        max: Point { x: (b.max.x - ind.right) as i32, y: (b.max.y - ind.bottom) as i32 },
    }
}

/// Whether growing `b` by `ind` stays within `i32` coordinates.
pub open spec fn grow_ok(ind: Indents, b: Bounds) -> bool {
    &&& i32::MIN <= b.min.x - ind.left <= i32::MAX
    &&& i32::MIN <= b.min.y - ind.top <= i32::MAX
    &&& i32::MIN <= b.max.x + ind.right <= i32::MAX
    &&& i32::MIN <= b.max.y + ind.bottom <= i32::MAX
}

/// The rectangle that shrinking by `ind` would collapse to `b`.
pub open spec fn spec_grow(ind: Indents, b: Bounds) -> Bounds {
    Bounds {
        min: Point { x: (b.min.x - ind.left) as i32, y: (b.min.y - ind.top) as i32 },
        max: Point { x: (b.max.x + ind.right) as i32, y: (b.max.y + ind.bottom) as i32 },
    }
}

impl Indents {
    /// The same margin on all four sides, as a spec value.
    pub open spec fn equal_spec(value: u32) -> Indents {
        Indents { left: value, top: value, right: value, bottom: value }
    }

    pub fn new(left: u32, top: u32, right: u32, bottom: u32) -> (r: Self)
        ensures
            r == (Indents { left, top, right, bottom }),
    {
        Self { left, top, right, bottom }
    }

    /// The same margin on all four sides.
    pub fn equal(value: u32) -> (r: Self)
        ensures
            r == (Indents { left: value, top: value, right: value, bottom: value }),
    {
        Self { left: value, top: value, right: value, bottom: value }
    }

    /// One margin for the two horizontal sides, one for the two
    /// vertical ones.
    pub fn axis(horizontal: u32, vertical: u32) -> (r: Self)
        ensures
            r == (Indents {
                left: horizontal,
                top: vertical,
                right: horizontal,
                bottom: vertical,
            }),
    {
        Self { left: horizontal, top: vertical, right: horizontal, bottom: vertical }
    }

    pub fn zero() -> (r: Self)
        ensures
            r == (Indents { left: 0, top: 0, right: 0, bottom: 0 }),
    {
        Self::equal(0)
    }

    /// Whether collapsing these margins into `bounds` stays within
    /// `i32` coordinates.
    pub fn shrink_fits(&self, bounds: Bounds) -> (r: bool)
        ensures
            r == shrink_ok(*self, bounds),
    {
        let min_x = (bounds.min.x as i64) + (self.left as i64);
        let min_y = (bounds.min.y as i64) + (self.top as i64);
        let max_x = (bounds.max.x as i64) - (self.right as i64);
        let max_y = (bounds.max.y as i64) - (self.bottom as i64);
        let lo = i32::MIN as i64;
        let hi = i32::MAX as i64;
        lo <= min_x && min_x <= hi && lo <= min_y && min_y <= hi && lo <= max_x && max_x <= hi
            && lo <= max_y && max_y <= hi
    }

    /// Collapse these margins into `bounds`.
    pub fn shrink(&self, bounds: Bounds) -> (r: Bounds)
        requires
            shrink_ok(*self, bounds),
        ensures
            r == spec_shrink(*self, bounds),
    {
        Bounds::from_points(
            Point::new(
                ((bounds.min.x as i64) + (self.left as i64)) as i32,
                ((bounds.min.y as i64) + (self.top as i64)) as i32,
            ),
            Point::new(
                ((bounds.max.x as i64) - (self.right as i64)) as i32,
                ((bounds.max.y as i64) - (self.bottom as i64)) as i32,
            ),
        )
    }

    /// Expand `bounds` back out by these margins; the inverse of
    /// [`Indents::shrink`].
    pub fn grow(&self, bounds: Bounds) -> (r: Bounds)
        requires
            grow_ok(*self, bounds),
        ensures
            r == spec_grow(*self, bounds),
    {
        Bounds::from_points(
            Point::new(
                ((bounds.min.x as i64) - (self.left as i64)) as i32,
                ((bounds.min.y as i64) - (self.top as i64)) as i32,
            ),
            Point::new(
                ((bounds.max.x as i64) + (self.right as i64)) as i32,
                ((bounds.max.y as i64) + (self.bottom as i64)) as i32,
            ),
        )
    }
}

impl Default for Indents {
    fn default() -> (r: Self)
        ensures
            r == (Indents { left: 0, top: 0, right: 0, bottom: 0 }),
    {
        Self::zero()
    }
}

/// Shrinking by zero margins leaves a rectangle unchanged.
pub proof fn lemma_shrink_zero_identity(b: Bounds)
    ensures
        spec_shrink(Indents { left: 0, top: 0, right: 0, bottom: 0 }, b) == b,
{
}

/// Growing by the same margins undoes a shrink: the two operations are
/// inverse on `min` and `max` independently.
pub proof fn lemma_shrink_grow_identity(ind: Indents, b: Bounds)
    requires
        shrink_ok(ind, b),
    ensures
        grow_ok(ind, spec_shrink(ind, b)),
        spec_grow(ind, spec_shrink(ind, b)) == b,
{
}

/// Shrinking by the same margins undoes a grow.
pub proof fn lemma_grow_shrink_identity(ind: Indents, b: Bounds)
    requires
        grow_ok(ind, b),
    ensures
        shrink_ok(ind, spec_grow(ind, b)),
        spec_shrink(ind, spec_grow(ind, b)) == b,
{
}

} // verus!
